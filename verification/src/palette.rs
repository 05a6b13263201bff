//! The command palette's text input with completion.
//!
//! While the user types, a set of completion candidates can be attached to
//! the input; one candidate may be selected, in which case it is what the
//! user sees and acts on.  Typing further first commits the selected
//! candidate as the input and narrows the remaining candidates to those that
//! still start with it.

use crate::command::Command;
use crate::command::DeleteCommand;
use crate::error::Error;
use crate::path::clone_chars;
use vstd::prelude::*;

verus! {

/// `p` is how `s` starts.
pub open spec fn is_prefix_of(p: Seq<char>, s: Seq<char>) -> bool {
    p.len() <= s.len() && s.subrange(0, p.len() as int) == p
}

/// The texts of a sequence of candidate strings.
pub open spec fn cand_views(s: Seq<Vec<char>>) -> Seq<Seq<char>> {
    s.map_values(|v: Vec<char>| v@)
}

/// `a + b`, stopped at the largest machine value.
pub open spec fn sat_add_spec(a: int, b: int) -> int {
    if a + b <= usize::MAX {
        a + b
    } else {
        usize::MAX as int
    }
}

/// Adds without overflowing, stopping at the largest machine value.
pub fn sat_add(a: usize, b: usize) -> (r: usize)
    ensures
        r == sat_add_spec(a as int, b as int),
{
    if a <= usize::MAX - b {
        a + b
    } else {
        usize::MAX
    }
}

/// True when `s` starts with `p`.
pub fn starts_with_chars(s: &Vec<char>, p: &Vec<char>) -> (r: bool)
    ensures
        r == is_prefix_of(p@, s@),
{
    if p.len() > s.len() {
        return false;
    }
    let mut i: usize = 0;
    while i < p.len()
        invariant
            i <= p@.len() <= s@.len(),
            forall|k: int| 0 <= k < i ==> s@[k] == p@[k],
        decreases p@.len() - i,
    {
        if s[i] != p[i] {
            assert(s@.subrange(0, p@.len() as int)[i as int] != p@[i as int]);
            return false;
        }
        i = i + 1;
    }
    assert(s@.subrange(0, p@.len() as int) =~= p@);
    true
}

/// Completion candidates for the current input, with at most one selected.
pub struct Completion {
    pub candidates: Vec<Vec<char>>,
    pub selected: Option<usize>,
}

/// Text being typed in the palette, with any attached completion.
pub struct Typing {
    pub input: Vec<char>,
    pub completion: Option<Completion>,
}

impl Typing {
    /// An attached completion is never empty and any selection stays in
    /// range.
    pub open spec fn wf(self) -> bool {
        match self.completion {
            Some(c) => c.candidates@.len() > 0 && (c.selected matches Some(i) ==> i
                < c.candidates@.len()),
            None => true,
        }
    }

    /// What the user sees: the selected candidate if there is one, the typed
    /// input otherwise.
    pub open spec fn visible_query_spec(self) -> Seq<char> {
        match self.completion {
            Some(c) => match c.selected {
                Some(i) => c.candidates@[i as int]@,
                None => self.input@,
            },
            None => self.input@,
        }
    }

    /// The candidates that survive committing the selected candidate: those
    /// that still start with it.  Nothing when no candidate is selected or
    /// none survives.
    pub open spec fn requeried_candidates(self) -> Option<Seq<Seq<char>>> {
        match self.completion {
            Some(c) => match c.selected {
                Some(i) => {
                    let q = c.candidates@[i as int]@;
                    let filtered = cand_views(c.candidates@).filter(
                        |s: Seq<char>| is_prefix_of(q, s),
                    );
                    if filtered.len() > 0 {
                        Some(filtered)
                    } else {
                        None
                    }
                },
                None => None,
            },
            None => None,
        }
    }

    pub fn new(input: Vec<char>) -> (r: Typing)
        ensures
            r.input@ == input@,
            r.completion is None,
            r.wf(),
    {
        Typing { input, completion: None }
    }

    /// True when completion candidates are attached.
    pub fn has_completion(&self) -> (r: bool)
        ensures
            r <==> self.completion is Some,
    {
        match &self.completion {
            Some(_) => true,
            None => false,
        }
    }

    /// What the user sees: the selected candidate if there is one, the typed
    /// input otherwise.
    pub fn visible_query(&self) -> (r: &Vec<char>)
        requires
            self.wf(),
        ensures
            r@ == self.visible_query_spec(),
    {
        match &self.completion {
            Some(c) => match &c.selected {
                Some(i) => &c.candidates[*i],
                None => &self.input,
            },
            None => &self.input,
        }
    }

    /// The column the cursor sits at: the end of the visible text.
    pub fn cursor_pos(&self) -> (r: usize)
        requires
            self.wf(),
        ensures
            r == self.visible_query_spec().len(),
    {
        self.visible_query().len()
    }

    /// Commits the selected candidate as the typed input and keeps only the
    /// candidates that still start with it; without a selection any attached
    /// candidates are dropped.
    pub fn choose_selected_and_requery_completion(&mut self)
        requires
            old(self).wf(),
        ensures
            final(self).wf(),
            final(self).input@ == old(self).visible_query_spec(),
            match final(self).completion {
                Some(nc) => old(self).requeried_candidates() == Some(cand_views(nc.candidates@))
                    && nc.selected is None,
                None => old(self).requeried_candidates() is None,
            },
    {
        let mut taken: Option<Completion> = None;
        core::mem::swap(&mut self.completion, &mut taken);
        match taken {
            Some(c) => {
                match c.selected {
                    Some(selected) => {
                        self.input = clone_chars(&c.candidates[selected]);
                        let ghost q = c.candidates@[selected as int]@;
                        let ghost pred = |s: Seq<char>| is_prefix_of(q, s);
                        let mut filtered: Vec<Vec<char>> = Vec::new();
                        let mut i: usize = 0;
                        proof {
                            reveal_with_fuel(Seq::<_>::filter, 2);
                            assert(cand_views(c.candidates@.subrange(0, 0)) =~= Seq::<
                                Seq<char>,
                            >::empty());
                            assert(cand_views(filtered@) =~= cand_views(
                                c.candidates@.subrange(0, 0),
                            ).filter(pred));
                        }
                        while i < c.candidates.len()
                            invariant
                                i <= c.candidates@.len(),
                                self.input@ == q,
                                cand_views(filtered@) == cand_views(
                                    c.candidates@.subrange(0, i as int),
                                ).filter(pred),
                            decreases c.candidates@.len() - i,
                        {
                            let ghost prev = c.candidates@.subrange(0, i as int);
                            if starts_with_chars(&c.candidates[i], &self.input) {
                                filtered.push(clone_chars(&c.candidates[i]));
                            }
                            proof {
                                let cur = c.candidates@.subrange(0, i + 1 as int);
                                assert(cur.drop_last() =~= prev);
                                assert(cand_views(cur).drop_last() =~= cand_views(prev));
                                assert(cand_views(cur).last() == c.candidates@[i as int]@);
                                reveal_with_fuel(Seq::<_>::filter, 2);
                                assert(cand_views(cur).filter(pred) == if pred(
                                    c.candidates@[i as int]@,
                                ) {
                                    cand_views(prev).filter(pred).push(c.candidates@[i as int]@)
                                } else {
                                    cand_views(prev).filter(pred)
                                });
                            }
                            i = i + 1;
                        }
                        proof {
                            assert(c.candidates@.subrange(0, c.candidates@.len() as int)
                                =~= c.candidates@);
                        }
                        if filtered.len() > 0 {
                            proof {
                                assert(cand_views(filtered@).len() == filtered@.len());
                            }
                            self.completion = Some(
                                Completion { candidates: filtered, selected: None },
                            );
                        }
                    },
                    None => {},
                }
            },
            None => {},
        }
    }

    /// Types one character at the end of the visible text, committing any
    /// selected candidate first.
    pub fn push_char(&mut self, c: char)
        requires
            old(self).wf(),
        ensures
            final(self).wf(),
            final(self).input@ == old(self).visible_query_spec().push(c),
            match final(self).completion {
                Some(nc) => old(self).requeried_candidates() == Some(cand_views(nc.candidates@))
                    && nc.selected is None,
                None => old(self).requeried_candidates() is None,
            },
    {
        self.choose_selected_and_requery_completion();
        self.input.push(c);
    }

    /// Erases the last character of the visible text, committing any selected
    /// candidate first.
    pub fn pop_char(&mut self)
        requires
            old(self).wf(),
        ensures
            final(self).wf(),
            final(self).input@ == if old(self).visible_query_spec().len() > 0 {
                old(self).visible_query_spec().drop_last()
            } else {
                old(self).visible_query_spec()
            },
            match final(self).completion {
                Some(nc) => old(self).requeried_candidates() == Some(cand_views(nc.candidates@))
                    && nc.selected is None,
                None => old(self).requeried_candidates() is None,
            },
    {
        self.choose_selected_and_requery_completion();
        let popped = self.input.pop();
        proof {
            if old(self).visible_query_spec().len() > 0 {
                assert(self.input@ =~= old(self).visible_query_spec().drop_last());
            }
        }
    }

    /// Selects the next candidate, stepping off the end back to none.
    pub fn select_next_completion(&mut self)
        requires
            old(self).wf(),
        ensures
            final(self).wf(),
            final(self).input == old(self).input,
            old(self).completion is None ==> *final(self) == *old(self),
            old(self).completion matches Some(c) ==> (final(self).completion matches Some(nc)
                && nc.candidates == c.candidates && nc.selected == (match c.selected {
                None => Some(0usize),
                Some(i) => if i + 1 < c.candidates@.len() {
                    Some((i + 1) as usize)
                } else {
                    None
                },
            })),
    {
        let mut taken: Option<Completion> = None;
        core::mem::swap(&mut self.completion, &mut taken);
        match taken {
            Some(mut c) => {
                match c.selected {
                    None => {
                        c.selected = Some(0);
                    },
                    Some(i) => {
                        let n = c.candidates.len();
                        if n > 0 && i < n - 1 {
                            c.selected = Some(i + 1);
                        } else {
                            c.selected = None;
                        }
                    },
                }
                self.completion = Some(c);
            },
            None => {},
        }
    }

    /// Selects the previous candidate, stepping off the start back to none.
    pub fn select_prev_completion(&mut self)
        requires
            old(self).wf(),
        ensures
            final(self).wf(),
            final(self).input == old(self).input,
            old(self).completion is None ==> *final(self) == *old(self),
            old(self).completion matches Some(c) ==> (final(self).completion matches Some(nc)
                && nc.candidates == c.candidates && nc.selected == (match c.selected {
                None => Some((c.candidates@.len() - 1) as usize),
                Some(i) => if i > 0 {
                    Some((i - 1) as usize)
                } else {
                    None
                },
            })),
    {
        let mut taken: Option<Completion> = None;
        core::mem::swap(&mut self.completion, &mut taken);
        match taken {
            Some(mut c) => {
                match c.selected {
                    None => {
                        c.selected = Some(c.candidates.len() - 1);
                    },
                    Some(i) => {
                        if i > 0 {
                            c.selected = Some(i - 1);
                        } else {
                            c.selected = None;
                        }
                    },
                }
                self.completion = Some(c);
            },
            None => {},
        }
    }

    /// Steps the selection forwards or backwards.
    pub fn select_completion(&mut self, next: bool)
        requires
            old(self).wf(),
        ensures
            final(self).wf(),
            final(self).input == old(self).input,
            old(self).completion is None ==> *final(self) == *old(self),
            old(self).completion matches Some(c) ==> (final(self).completion matches Some(nc)
                && nc.candidates == c.candidates && nc.selected == (if next {
                match c.selected {
                    None => Some(0usize),
                    Some(i) => if i + 1 < c.candidates@.len() {
                        Some((i + 1) as usize)
                    } else {
                        None
                    },
                }
            } else {
                match c.selected {
                    None => Some((c.candidates@.len() - 1) as usize),
                    Some(i) => if i > 0 {
                        Some((i - 1) as usize)
                    } else {
                        None
                    },
                }
            })),
    {
        if next {
            self.select_next_completion();
        } else {
            self.select_prev_completion();
        }
    }

    /// Attaches a fresh set of candidates with nothing selected; an empty set
    /// detaches completion.
    pub fn set_completion_candidates(&mut self, candidates: Vec<Vec<char>>)
        ensures
            final(self).input == old(self).input,
            candidates@.len() == 0 ==> final(self).completion is None,
            candidates@.len() > 0 ==> (final(self).completion matches Some(c) && c.candidates
                == candidates && c.selected is None),
            final(self).wf(),
    {
        if candidates.len() == 0 {
            self.completion = None;
            return;
        }
        self.completion = Some(Completion { candidates, selected: None });
    }
}

impl Default for Typing {
    /// Empty input with no completion attached.
    fn default() -> (r: Typing)
        ensures
            r.input@.len() == 0,
            r.completion is None,
            r.wf(),
    {
        Typing { input: Vec::new(), completion: None }
    }
}

/// The bottom-row palette: empty, showing an error, taking free text, or
/// holding a command being typed.
pub enum CommandPalette {
    Empty,
    Error { error: Error },
    Typing(Typing),
    Command(Command),
}

impl CommandPalette {
    /// A palette is well formed when any text being typed is.
    pub open spec fn wf(self) -> bool {
        match self {
            CommandPalette::Typing(t) => t.wf(),
            CommandPalette::Command(c) => c.wf(),
            _ => true,
        }
    }

    /// Takes the palette's content, leaving it empty.
    pub fn take(&mut self) -> (r: CommandPalette)
        ensures
            r == *old(self),
            *final(self) is Empty,
    {
        let mut taken = CommandPalette::Empty;
        core::mem::swap(self, &mut taken);
        taken
    }

    /// Clears the palette.
    pub fn set_empty(&mut self)
        ensures
            *final(self) is Empty,
    {
        self.take();
    }

    /// Shows an error banner.  How long it stays on screen is the concern of
    /// the layer that draws it.
    pub fn set_error(&mut self, error: Error)
        ensures
            *final(self) matches CommandPalette::Error { error: e } && e == error,
    {
        *self = CommandPalette::Error { error };
    }

    /// Starts a delete command with nothing typed yet.
    pub fn set_delete_command_init(&mut self)
        ensures
            *final(self) == CommandPalette::Command(Command::Delete(DeleteCommand::Init)),
    {
        *self = CommandPalette::Command(Command::Delete(DeleteCommand::Init));
    }

    /// Starts a delete command with `input` already typed.
    pub fn set_delete_command_typing(&mut self, input: Vec<char>)
        ensures
            *final(self) matches CommandPalette::Command(Command::Delete(DeleteCommand::Typing(t)))
                && t.input@ == input@ && t.completion is None,
    {
        *self = CommandPalette::Command(Command::Delete(DeleteCommand::Typing(Typing::new(input))));
    }

    /// The column the cursor sits at, when the palette wants a cursor shown.
    pub fn cursor_pos(&self) -> (r: Option<usize>)
        requires
            self.wf(),
        ensures
            match *self {
                CommandPalette::Empty => r is None,
                CommandPalette::Error { .. } => r is None,
                CommandPalette::Typing(t) => r == Some(
                    sat_add_spec(t.visible_query_spec().len() as int, 1) as usize,
                ),
                CommandPalette::Command(c) => r == Some(c.cursor_pos_spec() as usize),
            },
    {
        match self {
            CommandPalette::Empty => None,
            CommandPalette::Error { .. } => None,
            CommandPalette::Typing(typing) => Some(sat_add(typing.cursor_pos(), 1)),
            CommandPalette::Command(command) => Some(command.cursor_pos()),
        }
    }

    /// True when the palette shows nothing.
    pub fn is_empty(&self) -> (r: bool)
        ensures
            r <==> *self is Empty,
    {
        match self {
            CommandPalette::Empty => true,
            _ => false,
        }
    }
}

} // verus!
