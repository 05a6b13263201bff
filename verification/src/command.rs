//! Palette commands.
//!
//! The only command is deletion: started empty, typed with completion over
//! the selected column's children, or confirmed with a resolved path.  The
//! cursor column accounts for the `:delete ` prompt the rendering layer
//! draws in front of the typed text.

use crate::entry::EntryType;
use crate::palette::{
    cand_views,
    is_prefix_of,
    sat_add,
    sat_add_spec,
    starts_with_chars,
    CommandPalette,
    Typing,
};
use crate::state::State;
use crate::path::{
    file_name_seq,
    Path,
};
use vstd::prelude::*;

verus! {

/// The number of columns the `:delete ` prompt occupies.
pub const DELETE_PROMPT_LEN: usize = 8;

/// A deletion being assembled in the palette.
pub enum DeleteCommand {
    /// Nothing typed yet.
    Init,
    /// A target being typed, with completion over the selected column.
    Typing(Typing),
    /// A target already resolved.
    Confirmed { path: Path },
}

/// A command being assembled in the palette.
pub enum Command {
    Delete(DeleteCommand),
}

/// A rejected palette command.
#[derive(Debug, Clone, Copy, PartialEq, Eq, Structural)]
pub enum CommandError {
    /// The palette held no executable command for the current state.
    InvalidCommand,
    /// The typed target names no child of the selected column.
    InvalidPath,
}

impl DeleteCommand {
    /// Any text being typed is well formed.
    pub open spec fn wf(self) -> bool {
        match self {
            DeleteCommand::Typing(t) => t.wf(),
            _ => true,
        }
    }

    /// The cursor column: the end of the typed or resolved text, shifted by
    /// the prompt.
    pub open spec fn cursor_pos_spec(self) -> int {
        match self {
            DeleteCommand::Init => DELETE_PROMPT_LEN as int,
            DeleteCommand::Typing(t) => sat_add_spec(
                t.visible_query_spec().len() as int,
                DELETE_PROMPT_LEN as int,
            ),
            DeleteCommand::Confirmed { path } => sat_add_spec(
                path@.len() as int,
                DELETE_PROMPT_LEN as int,
            ),
        }
    }

    /// The cursor column for this command.
    pub fn cursor_pos(&self) -> (r: usize)
        requires
            self.wf(),
        ensures
            r == self.cursor_pos_spec(),
    {
        match self {
            DeleteCommand::Init => DELETE_PROMPT_LEN,
            DeleteCommand::Typing(typing) => sat_add(typing.cursor_pos(), DELETE_PROMPT_LEN),
            DeleteCommand::Confirmed { path } => sat_add(path.chars.len(), DELETE_PROMPT_LEN),
        }
    }
}

impl Command {
    /// Any text being typed is well formed.
    pub open spec fn wf(self) -> bool {
        match self {
            Command::Delete(d) => d.wf(),
        }
    }

    /// The cursor column for this command.
    pub open spec fn cursor_pos_spec(self) -> int {
        match self {
            Command::Delete(d) => d.cursor_pos_spec(),
        }
    }

    /// The cursor column for this command.
    pub fn cursor_pos(&self) -> (r: usize)
        requires
            self.wf(),
        ensures
            r == self.cursor_pos_spec(),
    {
        match self {
            Command::Delete(delete) => delete.cursor_pos(),
        }
    }
}

/// The completion candidates that a query draws from a column's children:
/// each child's file name that starts with the query, in column order.
pub open spec fn completion_candidates(entries: Seq<Path>, q: Seq<char>) -> Seq<Seq<char>>
    decreases entries.len(),
{
    if entries.len() == 0 {
        Seq::empty()
    } else {
        let front = completion_candidates(entries.drop_last(), q);
        match file_name_seq(entries.last()@) {
            Some(f) => if is_prefix_of(q, f) {
                front.push(f)
            } else {
                front
            },
            None => front,
        }
    }
}

/// Attaches to `typing` the candidates its visible text draws from a column's
/// children, then steps the selection once.
pub fn filter_completions(entries: &Vec<Path>, typing: &mut Typing, next: bool)
    requires
        old(typing).wf(),
    ensures
        final(typing).wf(),
        final(typing).input == old(typing).input,
        match final(typing).completion {
            Some(c) => cand_views(c.candidates@) == completion_candidates(
                entries@,
                old(typing).visible_query_spec(),
            ) && c.selected == (if next {
                Some(0usize)
            } else {
                Some((c.candidates@.len() - 1) as usize)
            }),
            None => completion_candidates(entries@, old(typing).visible_query_spec()).len() == 0,
        },
{
    let query = {
        let q = typing.visible_query();
        crate::path::clone_chars(q)
    };
    let mut completions: Vec<Vec<char>> = Vec::new();
    let mut i: usize = 0;
    proof {
        assert(entries@.subrange(0, 0) =~= Seq::<Path>::empty());
        assert(cand_views(completions@) =~= completion_candidates(entries@.subrange(0, 0), query@));
    }
    while i < entries.len()
        invariant
            i <= entries@.len(),
            query@ == old(typing).visible_query_spec(),
            typing.wf(),
            typing.input == old(typing).input,
            typing.completion == old(typing).completion,
            cand_views(completions@) == completion_candidates(
                entries@.subrange(0, i as int),
                query@,
            ),
        decreases entries@.len() - i,
    {
        let ghost prev = entries@.subrange(0, i as int);
        let entry = &entries[i];
        match entry.file_name() {
            Some(f) => {
                if starts_with_chars(&f, &query) {
                    completions.push(f);
                }
            },
            None => {},
        }
        proof {
            let cur = entries@.subrange(0, i + 1 as int);
            assert(cur.drop_last() =~= prev);
            assert(cur.last() == entries@[i as int]);
        }
        i = i + 1;
    }
    proof {
        assert(entries@.subrange(0, entries@.len() as int) =~= entries@);
    }
    typing.set_completion_candidates(completions);
    typing.select_completion(next);
}

impl State {
    /// The selected child of the selected column, when that column is an
    /// opened directory with a selection.
    fn selected_child_path(&self) -> (r: Option<Path>)
        requires
            self.inv(),
        ensures
            match r {
                Some(p) => self.chain_entry_exists(self.selected_column as int)
                    && self.chain_entry(self.selected_column as int).ty is Opened
                    && self.chain_entry(self.selected_column as int).ty->Opened_0.selected is Some
                    && p@ == self.chain_entry(
                    self.selected_column as int,
                ).ty->Opened_0.sel_path_view(),
                None => !(self.chain_entry_exists(self.selected_column as int) && self.chain_entry(
                    self.selected_column as int,
                ).ty is Opened && self.chain_entry(
                    self.selected_column as int,
                ).ty->Opened_0.selected is Some),
            },
    {
        match self.visible_columns_at(self.selected_column) {
            Some(e) => match e.get_opened() {
                Some(o) => match o.selected_entry() {
                    Some(p) => Some(p.clone()),
                    None => None,
                },
                None => None,
            },
            None => None,
        }
    }

    /// The child of the selected column whose file name is exactly `query`.
    pub fn match_file_path(&self, query: &Vec<char>) -> (r: Option<Path>)
        requires
            self.inv(),
        ensures
            match r {
                Some(p) => file_name_seq(p@) == Some(query@) && self.chain_entry_exists(
                    self.selected_column as int,
                ) && self.chain_entry(self.selected_column as int).ty is Opened && (exists|i: int|
                    0 <= i < self.chain_entry(
                        self.selected_column as int,
                    ).ty->Opened_0.entries@.len() && (#[trigger] self.chain_entry(
                        self.selected_column as int,
                    ).ty->Opened_0.entries@[i])@ == p@),
                None => (self.chain_entry_exists(self.selected_column as int) && self.chain_entry(
                    self.selected_column as int,
                ).ty is Opened) ==> (forall|i: int|
                    0 <= i < self.chain_entry(
                        self.selected_column as int,
                    ).ty->Opened_0.entries@.len() ==> file_name_seq(
                        (#[trigger] self.chain_entry(
                            self.selected_column as int,
                        ).ty->Opened_0.entries@[i])@,
                    ) != Some(query@)),
            },
    {
        let o = match self.visible_columns_at(self.selected_column) {
            Some(e) => match e.get_opened() {
                Some(o) => o,
                None => {
                    return None;
                },
            },
            None => {
                return None;
            },
        };
        let mut i: usize = 0;
        while i < o.entries.len()
            invariant
                i <= o.entries@.len(),
                forall|k: int|
                    0 <= k < i ==> file_name_seq((#[trigger] o.entries@[k])@) != Some(query@),
        decreases o.entries@.len() - i,
        {
            match o.entries[i].file_name() {
                Some(f) => {
                    if crate::path::chars_equal(&f, query) {
                        return Some(o.entries[i].clone());
                    }
                },
                None => {},
            }
            i = i + 1;
        }
        None
    }

    /// Executes the palette's command and empties the palette.  A delete
    /// command removes its target: the resolved path when confirmed, the
    /// typed child when it names one (else the path is rejected), or the
    /// selected child of the selected column when nothing was typed (rejected
    /// when the column has no selection to delete).
    pub fn execute_command(&mut self) -> (r: Result<(), CommandError>)
        requires
            old(self).inv(),
        ensures
            final(self).inv(),
            final(self).command_palette is Empty,
            final(self).config == old(self).config,
            !(old(self).command_palette is Command) ==> r == Result::<(), CommandError>::Ok(())
                && final(self).entries@ == old(self).entries@ && final(self).joiners == old(self).joiners,
            old(self).command_palette == CommandPalette::Command(
                Command::Delete(DeleteCommand::Init),
            ) ==> (if old(self).chain_entry_exists(old(self).selected_column as int) && old(self).chain_entry(old(self).selected_column as int).ty is Opened && old(self).chain_entry(
                old(self).selected_column as int,
            ).ty->Opened_0.selected is Some {
                r == Result::<(), CommandError>::Ok(()) && final(self).joiners.delete_joiner.pending@.len() == old(self).joiners.delete_joiner.pending@.len() + 1 && final(self).joiners.delete_joiner.pending@.last()@ == old(self).chain_entry(
                    old(self).selected_column as int,
                ).ty->Opened_0.sel_path_view()
            } else {
                r == Result::<(), CommandError>::Err(CommandError::InvalidCommand) && final(self).entries@ == old(self).entries@ && final(self).joiners == old(self).joiners
            }),
            old(self).command_palette matches CommandPalette::Command(
                Command::Delete(DeleteCommand::Typing(t)),
            ) ==> ((r == Result::<(), CommandError>::Err(CommandError::InvalidPath) ==> final(self).entries@ == old(self).entries@ && final(self).joiners == old(self).joiners) && (r
                == Result::<(), CommandError>::Ok(()) ==> final(self).joiners.delete_joiner.pending@.len() == old(self).joiners.delete_joiner.pending@.len() + 1 && file_name_seq(
                final(self).joiners.delete_joiner.pending@.last()@,
            ) == Some(t.visible_query_spec()))),
            old(self).command_palette matches CommandPalette::Command(
                Command::Delete(DeleteCommand::Typing(t)),
            ) ==> ((r == Result::<(), CommandError>::Ok(()) || r == Result::<(
            ), CommandError>::Err(CommandError::InvalidPath)) && (r == Result::<(
            ), CommandError>::Ok(()) <==> (old(self).chain_entry_exists(
                old(self).selected_column as int,
            ) && old(self).chain_entry(old(self).selected_column as int).ty is Opened && (exists|
                i: int,
            |
                #![trigger old(self).chain_entry(old(self).selected_column as int).ty->Opened_0.entries@[i]]
                0 <= i < old(self).chain_entry(
                    old(self).selected_column as int,
                ).ty->Opened_0.entries@.len() && file_name_seq(
                    old(self).chain_entry(
                        old(self).selected_column as int,
                    ).ty->Opened_0.entries@[i]@,
                ) == Some(t.visible_query_spec()))))),
            old(self).command_palette matches CommandPalette::Command(
                Command::Delete(DeleteCommand::Confirmed { path: cp }),
            ) ==> (r == Result::<(), CommandError>::Ok(()) && final(self).joiners.delete_joiner.pending@.len() == old(self).joiners.delete_joiner.pending@.len() + 1 && final(self).joiners.delete_joiner.pending@.last()@ == cp@),
    {
        let ghost pre = *self;
        let taken = self.command_palette.take();
        proof {
            State::lemma_chain_same(pre, *self, pre.selected_column as int);
        }
        match taken {
            CommandPalette::Command(Command::Delete(dc)) => {
                let path: Path = match dc {
                    DeleteCommand::Confirmed { path } => path,
                    DeleteCommand::Init => {
                        match self.selected_child_path() {
                            Some(p) => p,
                            None => {
                                return Err(CommandError::InvalidCommand);
                            },
                        }
                    },
                    DeleteCommand::Typing(t) => {
                        let q = crate::path::clone_chars(t.visible_query());
                        match self.match_file_path(&q) {
                            Some(p) => {
                                proof {
                                    let sel = pre.selected_column as int;
                                    let o = self.chain_entry(sel).ty->Opened_0;
                                    let w = choose|w: int|
                                        0 <= w < o.entries@.len() && (#[trigger] o.entries@[w])@
                                            == p@;
                                    assert(file_name_seq(o.entries@[w]@) == Some(q@));
                                    assert(pre.chain_entry(sel) == self.chain_entry(sel));
                                    assert(file_name_seq(
                                        pre.chain_entry(sel).ty->Opened_0.entries@[w]@,
                                    ) == Some(q@));
                                }
                                p
                            },
                            None => {
                                proof {
                                    let sel = pre.selected_column as int;
                                    if pre.chain_entry_exists(sel) && pre.chain_entry(sel).ty
                                        is Opened {
                                        assert(pre.chain_entry(sel) == self.chain_entry(sel));
                                    }
                                }
                                return Err(CommandError::InvalidPath);
                            },
                        }
                    },
                };
                self.delete_path(path);
                Ok(())
            },
            _ => Ok(()),
        }
    }

    /// Steps the delete command's completion: with candidates attached the
    /// selection moves; otherwise fresh candidates are drawn from the
    /// selected column's children.
    pub fn complete_command(&mut self, next: bool)
        requires
            old(self).inv(),
        ensures
            final(self).inv(),
            final(self).entries@ == old(self).entries@,
            final(self).first_visible_column == old(self).first_visible_column,
            final(self).selected_column == old(self).selected_column,
            final(self).config == old(self).config,
            final(self).joiners == old(self).joiners,
            old(self).command_palette matches CommandPalette::Command(
                Command::Delete(DeleteCommand::Typing(t)),
            ) ==> (t.completion is Some ==> (final(self).command_palette matches
                CommandPalette::Command(Command::Delete(DeleteCommand::Typing(nt))) && nt.input
                == t.input && nt.completion is Some
                && nt.completion->Some_0.candidates == t.completion->Some_0.candidates
                && nt.completion->Some_0.selected == (if next {
                match t.completion->Some_0.selected {
                    None => Some(0usize),
                    Some(i) => if i + 1 < t.completion->Some_0.candidates@.len() {
                        Some((i + 1) as usize)
                    } else {
                        None
                    },
                }
            } else {
                match t.completion->Some_0.selected {
                    None => Some((t.completion->Some_0.candidates@.len() - 1) as usize),
                    Some(i) => if i > 0 {
                        Some((i - 1) as usize)
                    } else {
                        None
                    },
                }
            }))),
            old(self).command_palette matches CommandPalette::Command(
                Command::Delete(DeleteCommand::Typing(t)),
            ) ==> ((t.completion is None && old(self).chain_entry_exists(
                old(self).selected_column as int,
            ) && old(self).chain_entry(old(self).selected_column as int).ty is Opened) ==> (final(self).command_palette matches CommandPalette::Command(
                Command::Delete(DeleteCommand::Typing(nt)),
            ) && nt.input == t.input && (match nt.completion {
                Some(c) => cand_views(c.candidates@) == completion_candidates(
                    old(self).chain_entry(old(self).selected_column as int).ty->Opened_0.entries@,
                    t.visible_query_spec(),
                ) && c.selected == (if next {
                    Some(0usize)
                } else {
                    Some((c.candidates@.len() - 1) as usize)
                }),
                None => completion_candidates(
                    old(self).chain_entry(old(self).selected_column as int).ty->Opened_0.entries@,
                    t.visible_query_spec(),
                ).len() == 0,
            }))),
            (old(self).command_palette == CommandPalette::Command(
                Command::Delete(DeleteCommand::Init),
            ) && old(self).chain_entry_exists(old(self).selected_column as int) && old(self).chain_entry(old(self).selected_column as int).ty is Opened) ==> (final(self).command_palette matches CommandPalette::Command(
                Command::Delete(DeleteCommand::Typing(nt)),
            ) && nt.input@.len() == 0 && (match nt.completion {
                Some(c) => cand_views(c.candidates@) == completion_candidates(
                    old(self).chain_entry(old(self).selected_column as int).ty->Opened_0.entries@,
                    Seq::empty(),
                ) && c.selected == (if next {
                    Some(0usize)
                } else {
                    Some((c.candidates@.len() - 1) as usize)
                }),
                None => completion_candidates(
                    old(self).chain_entry(old(self).selected_column as int).ty->Opened_0.entries@,
                    Seq::empty(),
                ).len() == 0,
            })),
    {
        let ghost pre0 = *self;
        let taken = self.command_palette.take();
        proof {
            State::lemma_chain_same(pre0, *self, pre0.selected_column as int);
        }
        match taken {
            CommandPalette::Command(Command::Delete(DeleteCommand::Typing(mut t))) => {
                if t.has_completion() {
                    t.select_completion(next);
                } else {
                    match self.visible_columns_at(self.selected_column) {
                        Some(e) => match e.get_opened() {
                            Some(o) => {
                                filter_completions(&o.entries, &mut t, next);
                            },
                            None => {},
                        },
                        None => {},
                    }
                }
                self.command_palette = CommandPalette::Command(
                    Command::Delete(DeleteCommand::Typing(t)),
                );
            },
            CommandPalette::Command(Command::Delete(DeleteCommand::Init)) => {
                let new_typing: Option<Typing> = match self.visible_columns_at(
                    self.selected_column,
                ) {
                    Some(e) => match e.get_opened() {
                        Some(o) => {
                            let mut t = Typing::default();
                            proof {
                                assert(t.visible_query_spec() =~= Seq::<char>::empty());
                            }
                            filter_completions(&o.entries, &mut t, next);
                            Some(t)
                        },
                        None => None,
                    },
                    None => None,
                };
                match new_typing {
                    Some(t) => {
                        self.command_palette = CommandPalette::Command(
                            Command::Delete(DeleteCommand::Typing(t)),
                        );
                    },
                    None => {
                        self.command_palette = CommandPalette::Command(
                            Command::Delete(DeleteCommand::Init),
                        );
                    },
                }
            },
            other => {
                self.command_palette = other;
            },
        }
    }
}

} // verus!
