//! Input events and completion events, applied to the navigator.
//!
//! Keys arrive as plain values prepared by the terminal layer; directory
//! listings and deletions arrive as completions of the queued background
//! work.  Each tick of the outer loop drains available keys first and then
//! applies at most one completion; anything that changes what is on screen
//! answers with a redraw.

use crate::command::Command;
use crate::command::DeleteCommand;
use crate::entry::{
    Entry,
    EntryType,
    Opened,
};
use crate::error::Error;
use crate::joiners::{
    ReadDirResult,
    ReadDirResultKind,
};
use crate::palette::{
    CommandPalette,
    Typing,
};
use crate::path::{
    path_views,
    Path,
};
use crate::state::State;
use vstd::prelude::*;

verus! {

/// A key press, reduced to what the core reacts to.
#[derive(Debug, Clone, Copy, PartialEq, Eq, Structural)]
pub enum KeyCode {
    Char(char),
    Esc,
    Enter,
    Tab,
    BackTab,
    Backspace,
    Up,
    Down,
    Left,
    Right,
    Other,
}

/// One key press with its modifier summary.
#[derive(Debug, Clone, Copy, PartialEq, Eq, Structural)]
pub struct KeyInput {
    pub code: KeyCode,
    /// The control modifier is held.
    pub ctrl: bool,
    /// Any modifier at all is held.
    pub any_modifier: bool,
}

/// What handling an event asks of the outer loop.
#[derive(Debug, Clone, Copy, PartialEq, Eq, Structural)]
pub enum HandledEvent {
    Exit,
    Redraw,
    Nothing,
}

impl HandledEvent {
    /// True when the event asked for anything at all.
    pub fn is_handled(&self) -> (r: bool)
        ensures
            r <==> !(*self is Nothing),
    {
        match self {
            HandledEvent::Nothing => false,
            _ => true,
        }
    }
}

/// The child a stored entry wanted selected once opened.
pub open spec fn stored_hint(pre: Map<Seq<char>, Entry>, p: Seq<char>) -> Option<Path> {
    if pre.dom().contains(p) {
        match pre[p].ty {
            EntryType::Unopened(u) => u.select_on_open,
            EntryType::Waiting(u) => u.select_on_open,
            _ => None,
        }
    } else {
        None
    }
}

impl State {
    /// Applies one directory-listing outcome to the cache.  A listing becomes
    /// an opened entry (keeping any remembered selection hint), a refusal a
    /// permission-denied entry, a non-directory a file; any other failure is
    /// reported and leaves the cache as it was, so the listing can be
    /// requested again.  A late listing for a path no longer waiting is still
    /// applied.
    pub fn handle_read_dir_event(&mut self, result: ReadDirResult) -> (r: Result<(), Error>)
        requires
            old(self).inv(),
            result.kind matches ReadDirResultKind::Listed(es) ==> path_views(
                es@,
            ).no_duplicates(),
        ensures
            final(self).inv(),
            final(self).first_visible_column == old(self).first_visible_column,
            final(self).selected_column == old(self).selected_column,
            final(self).config == old(self).config,
            final(self).command_palette == old(self).command_palette,
            final(self).joiners == old(self).joiners,
            result.kind is Failed <==> r is Err,
            result.kind matches ReadDirResultKind::Failed(m) ==> r == Result::<(), Error>::Err(
                Error::Io(m),
            ) && final(self).entries@ == old(self).entries@,
            !(result.kind is Failed) ==> final(self).entries@.dom() == old(self).entries@.dom().insert(result.path@) && (forall|q: Seq<char>|
                q != result.path@ && old(self).entries@.dom().contains(q) ==> final(self).entries@[q] == old(self).entries@[q]) && final(self).entries@[result.path@].path@
                == result.path@,
            result.kind is PermissionDenied ==> final(self).entries@[result.path@].ty
                is PermissionDenied,
            result.kind is NotADirectory ==> final(self).entries@[result.path@].ty is File,
            result.kind matches ReadDirResultKind::Listed(es) ==> (final(self).entries@[result.path@].ty matches EntryType::Opened(o) && o.wf() && o.config == old(self).config && crate::path::sorted_le(o.entries@) && path_views(o.entries@).to_multiset()
                == path_views(es@).to_multiset() && o.entries@.len() == es@.len() && (es@.len() == 0
                ==> o.selected is None) && (es@.len() > 0 ==> o.selected is Some && o.sel_offset()
                == 0 && o.sel_path_view() == Entry::preferred_selection(
                es@,
                stored_hint(old(self).entries@, result.path@),
                o.entries@[0]@,
            ))),
            !(result.kind is Failed) ==> (final(self).entries@[result.path@].ty is Opened || final(self).entries@[result.path@].ty is PermissionDenied || final(self).entries@[result.path@].ty is File),
    {
        let ghost pv = result.path@;
        match result.kind {
            ReadDirResultKind::PermissionDenied => {
                self.entries.insert(Entry::permission_denied(result.path));
                proof {
                    assert(self.entries@.dom() =~= old(self).entries@.dom().insert(pv));
                }
                Ok(())
            },
            ReadDirResultKind::NotADirectory => {
                self.entries.insert(Entry::file(result.path));
                proof {
                    assert(self.entries@.dom() =~= old(self).entries@.dom().insert(pv));
                }
                Ok(())
            },
            ReadDirResultKind::Failed(m) => Err(Error::Io(m)),
            ReadDirResultKind::Listed(children) => {
                let select_on_open: Option<Path> = match self.entries.remove(&result.path) {
                    Some(e) => match e.ty {
                        EntryType::Waiting(u) => u.select_on_open,
                        EntryType::Unopened(u) => u.select_on_open,
                        _ => None,
                    },
                    None => None,
                };
                let e = Entry::opened(result.path, children, self.config, select_on_open);
                self.entries.insert(e);
                proof {
                    assert(self.entries@.dom() =~= old(self).entries@.dom().insert(pv));
                }
                Ok(())
            },
        }
    }

    /// Applies one completed directory listing and walks the chain for the
    /// next listing to request.  Asks for a redraw on success; a failed
    /// listing is reported instead.
    pub fn apply_read_dir_event(&mut self, result: ReadDirResult) -> (r: Result<
        HandledEvent,
        Error,
    >)
        requires
            old(self).inv(),
            result.kind matches ReadDirResultKind::Listed(es) ==> path_views(
                es@,
            ).no_duplicates(),
        ensures
            final(self).inv(),
            r is Ok <==> !(result.kind is Failed),
            r matches Ok(h) ==> h is Redraw,
            final(self).first_visible_column == old(self).first_visible_column,
            final(self).selected_column == old(self).selected_column,
            final(self).config == old(self).config,
            final(self).command_palette == old(self).command_palette,
            result.kind matches ReadDirResultKind::Failed(m) ==> r == Result::<
                HandledEvent,
                Error,
            >::Err(Error::Io(m)) && final(self).entries@ == old(self).entries@,
            !(result.kind is Failed) ==> final(self).entries@.dom() == old(self).entries@.dom().insert(result.path@) && (final(self).entries@[result.path@].ty
                is Opened || final(self).entries@[result.path@].ty is PermissionDenied || final(self).entries@[result.path@].ty is File),
    {
        match self.handle_read_dir_event(result) {
            Err(e) => Err(e),
            Ok(_) => {
                let ghost mid = *self;
                self.try_open_selected_path();
                proof {
                    if crate::state::opens_dispatched(mid.entries@, self.entries@)
                        && self.entries@ != mid.entries@ {
                        let w = choose|w: Seq<char>|
                            #![auto]
                            mid.entries@.dom().contains(w) && mid.entries@[w].ty is Unopened
                                && self.entries@ == mid.entries@.insert(
                                w,
                                crate::state::waiting_of(mid.entries@[w]),
                            );
                        assert(self.entries@.dom() =~= mid.entries@.dom());
                    }
                }
                Ok(HandledEvent::Redraw)
            },
        }
    }

    /// Applies one confirmed deletion and walks the chain for the next
    /// listing to request.  Always asks for a redraw.  The deleted path and
    /// its cached descendants leave the store (reappearing at most as
    /// unlisted directories, through the leftward shift an emptied parent
    /// triggers), and the parent's listing is repaired as on the optimistic
    /// removal.
    pub fn apply_delete_completion(&mut self, path: Path) -> (r: HandledEvent)
        requires
            old(self).inv(),
        ensures
            final(self).inv(),
            r is Redraw,
            final(self).config == old(self).config,
            final(self).command_palette == old(self).command_palette,
            final(self).joiners.delete_joiner == old(self).joiners.delete_joiner,
            !final(self).entries@.dom().contains(path@) || final(self).entries@[path@].ty
                is Unopened || final(self).entries@[path@].ty is Waiting,
            (old(self).entries@.dom().contains(path@) && old(self).entries@[path@].ty is Opened)
                ==> (forall|i: int|
                #![trigger old(self).entries@[path@].ty->Opened_0.entries@[i]]
                0 <= i < old(self).entries@[path@].ty->Opened_0.entries@.len() ==> (!final(self).entries@.dom().contains(old(self).entries@[path@].ty->Opened_0.entries@[i]@)
                    || final(self).entries@[old(self).entries@[path@].ty->Opened_0.entries@[i]@].ty
                    is Unopened || final(self).entries@[old(self).entries@[path@].ty->Opened_0.entries@[i]@].ty is Waiting)),
            old(self).entries@.dom().contains(path@) ==> crate::state::parent_repaired(
                *old(self),
                *final(self),
                path@,
            ),
    {
        let ghost pv = path@;
        self.delete_path_entry(path);
        let ghost mid = *self;
        self.try_open_selected_path();
        proof {
            assert(!mid.entries@.dom().contains(pv) || mid.entries@[pv].ty is Unopened
                || mid.entries@[pv].ty is Waiting) by {
                if !old(self).entries@.dom().contains(pv) {
                    assert(crate::state::state_equiv(mid, *old(self)));
                }
            }
            crate::state::lemma_unlisted_preserved(mid.entries@, self.entries@, pv);
            if old(self).entries@.dom().contains(pv) && old(self).entries@[pv].ty is Opened {
                assert forall|i: int|
                    #![trigger old(self).entries@[pv].ty->Opened_0.entries@[i]]
                    0 <= i < old(self).entries@[pv].ty->Opened_0.entries@.len() implies (
                !self.entries@.dom().contains(old(self).entries@[pv].ty->Opened_0.entries@[i]@)
                    || self.entries@[old(self).entries@[pv].ty->Opened_0.entries@[i]@].ty
                    is Unopened || self.entries@[old(self).entries@[pv].ty->Opened_0.entries@[i]@].ty
                    is Waiting) by {
                    crate::state::lemma_unlisted_preserved(
                        mid.entries@,
                        self.entries@,
                        old(self).entries@[pv].ty->Opened_0.entries@[i]@,
                    );
                }
            }
            if old(self).entries@.dom().contains(pv) {
                crate::state::lemma_repair_preserved(*old(self), mid, *self, pv);
            }
        }
        HandledEvent::Redraw
    }

    /// Routes one key to the palette when it is showing.  The palette
    /// swallows every key while visible: escape clears it, enter executes the
    /// command, tab steps the completion, anything else types.
    pub fn handle_command_palette_key_event(&mut self, key: &KeyInput) -> (r: Result<
        HandledEvent,
        Error,
    >)
        requires
            old(self).inv(),
        ensures
            final(self).inv(),
            old(self).command_palette is Empty ==> r == Result::<HandledEvent, Error>::Ok(
                HandledEvent::Nothing,
            ) && *final(self) == *old(self),
            r == Result::<HandledEvent, Error>::Ok(HandledEvent::Nothing) ==> final(self).entries@
                == old(self).entries@ && final(self).first_visible_column == old(self).first_visible_column && final(self).selected_column == old(self).selected_column
                && final(self).joiners == old(self).joiners,
    {
        if self.command_palette.is_empty() {
            return Ok(HandledEvent::Nothing);
        }
        match key.code {
            KeyCode::Esc => {
                self.command_palette.set_empty();
            },
            KeyCode::Enter => {
                match self.execute_command() {
                    Ok(_) => {},
                    Err(e) => {
                        return Err(Error::Command(e));
                    },
                }
            },
            KeyCode::Tab => {
                self.complete_command(true);
            },
            KeyCode::BackTab => {
                self.complete_command(false);
            },
            _ => {
                return Ok(self.command_palette.handle_key_event(key));
            },
        }
        Ok(HandledEvent::Redraw)
    }

    /// Control keys: control-c leaves the program.
    pub fn handle_ctrl_key_event(&self, code: KeyCode) -> (r: HandledEvent)
        ensures
            code == KeyCode::Char('c') ==> r is Exit,
            code != KeyCode::Char('c') ==> r is Nothing,
    {
        match code {
            KeyCode::Char(c) => {
                if c == 'c' {
                    HandledEvent::Exit
                } else {
                    HandledEvent::Nothing
                }
            },
            _ => HandledEvent::Nothing,
        }
    }

    /// Handles one key press: control keys first, then the palette, then,
    /// with no modifier held, the navigation keys.
    pub fn handle_key_event(&mut self, key: &KeyInput) -> (r: HandledEvent)
        requires
            old(self).inv(),
            old(self).has_first(),
        ensures
            final(self).inv(),
            old(self).command_palette is Empty ==> final(self).has_first(),
            (!key.ctrl && !key.any_modifier && old(self).command_palette is Empty && (key.code
                == KeyCode::Esc || key.code == KeyCode::Char('q'))) ==> r is Exit && *final(self)
                == *old(self),
            (!key.ctrl && !key.any_modifier && old(self).command_palette is Empty && key.code
                == KeyCode::Char('d')) ==> r is Redraw && final(self).command_palette
                == CommandPalette::Command(Command::Delete(DeleteCommand::Init)),
            (!key.ctrl && !key.any_modifier && old(self).command_palette is Empty && (key.code
                == KeyCode::Char('l') || key.code == KeyCode::Right || key.code == KeyCode::Char(
                'h',
            ) || key.code == KeyCode::Left)) ==> r is Redraw,
            (!key.ctrl && !key.any_modifier && old(self).command_palette is Empty && (key.code
                == KeyCode::Char('l') || key.code == KeyCode::Right)) ==> (exists|m: bool|
                #[trigger] crate::state::move_right_rel(*old(self), *final(self), m)),
            (!key.ctrl && !key.any_modifier && old(self).command_palette is Empty && (key.code
                == KeyCode::Char('h') || key.code == KeyCode::Left)) ==> (exists|m: bool|
                #[trigger] crate::state::move_left_rel(*old(self), *final(self), m)),
            (!key.ctrl && !key.any_modifier && old(self).command_palette is Empty && (key.code
                == KeyCode::Up || key.code == KeyCode::Down || key.code == KeyCode::Char('j')
                || key.code == KeyCode::Char('k'))) ==> (r is Nothing && *final(self) == *old(self)),
            (key.ctrl && key.code == KeyCode::Char('c')) ==> r is Exit && *final(self) == *old(self),
    {
        if key.ctrl {
            let ret = self.handle_ctrl_key_event(key.code);
            if ret.is_handled() {
                return ret;
            }
        }
        match self.handle_command_palette_key_event(key) {
            Ok(ret) => {
                if ret.is_handled() {
                    return ret;
                }
            },
            Err(e) => {
                self.command_palette.set_error(e);
                return HandledEvent::Redraw;
            },
        }
        if key.any_modifier {
            return HandledEvent::Nothing;
        }
        match key.code {
            KeyCode::Esc => HandledEvent::Exit,
            KeyCode::Char(c) => {
                if c == 'q' {
                    HandledEvent::Exit
                } else if c == 'l' {
                    self.move_right();
                    HandledEvent::Redraw
                } else if c == 'h' {
                    self.move_left();
                    HandledEvent::Redraw
                } else if c == ';' {
                    self.command_palette = CommandPalette::Typing(Typing::new(Vec::new()));
                    HandledEvent::Redraw
                } else if c == 'd' {
                    self.command_palette.set_delete_command_init();
                    HandledEvent::Redraw
                } else {
                    HandledEvent::Nothing
                }
            },
            KeyCode::Right => {
                self.move_right();
                HandledEvent::Redraw
            },
            KeyCode::Left => {
                self.move_left();
                HandledEvent::Redraw
            },
            _ => HandledEvent::Nothing,
        }
    }

    /// Sends one key to the selected column's listing: up and down move its
    /// selection.  True when the listing changed.
    fn entry_key_to_selected(&mut self, key: &KeyInput) -> (r: bool)
        requires
            old(self).inv(),
        ensures
            final(self).inv(),
            final(self).entries@.dom() == old(self).entries@.dom(),
            final(self).first_visible_column == old(self).first_visible_column,
            final(self).selected_column == old(self).selected_column,
            final(self).config == old(self).config,
            final(self).command_palette == old(self).command_palette,
            final(self).joiners == old(self).joiners,
            old(self).chain_path(old(self).selected_column as int) matches Some(p) ==> (old(self).entries@.dom().contains(p) ==> ((forall|q: Seq<char>|
                q != p && old(self).entries@.dom().contains(q) ==> final(self).entries@[q] == old(self).entries@[q]) && (old(self).entries@[p].ty matches EntryType::Opened(o) ==> (final(self).entries@[p].ty matches EntryType::Opened(no) && crate::entry::opened_key_rel(
                !key.any_modifier && (key.code == KeyCode::Down || key.code == KeyCode::Char('j')),
                !key.any_modifier && (key.code == KeyCode::Up || key.code == KeyCode::Char('k')),
                o,
                no,
                r,
            ))) && (!(old(self).entries@[p].ty is Opened) ==> final(self).entries@ == old(self).entries@ && !r))),
    {
        let p = match self.chain_path_at(self.selected_column) {
            Some(p) => p,
            None => {
                return false;
            },
        };
        let ghost pre = self.entries@;
        let mut e = match self.entries.remove(&p) {
            Some(e) => e,
            None => {
                proof {
                    assert(self.entries@ =~= pre);
                }
                return false;
            },
        };
        let changed = e.handle_event(key);
        self.entries.insert(e);
        proof {
            assert(self.entries@.dom() =~= pre.dom());
        }
        changed
    }

    /// Handles one event from the terminal: keys first; when the key moved a
    /// listing's selection, the chain is walked for the next listing to
    /// request.
    pub fn handle_tui_event(&mut self, key: &KeyInput) -> (r: HandledEvent)
        requires
            old(self).inv(),
            old(self).has_first(),
        ensures
            final(self).inv(),
            (!key.ctrl && !key.any_modifier && old(self).command_palette is Empty && (key.code
                == KeyCode::Esc || key.code == KeyCode::Char('q'))) ==> r is Exit,
            (key.ctrl && key.code == KeyCode::Char('c')) ==> r is Exit,
            (!key.ctrl && !key.any_modifier && old(self).command_palette is Empty && (key.code
                == KeyCode::Char('l') || key.code == KeyCode::Right)) ==> (r is Redraw && (exists|
                m: bool,
            |
                #[trigger] crate::state::move_right_rel(*old(self), *final(self), m))),
            (!key.ctrl && !key.any_modifier && old(self).command_palette is Empty && (key.code
                == KeyCode::Char('h') || key.code == KeyCode::Left)) ==> (r is Redraw && (exists|
                m: bool,
            |
                #[trigger] crate::state::move_left_rel(*old(self), *final(self), m))),
            (!key.ctrl && !key.any_modifier && old(self).command_palette is Empty && (key.code
                == KeyCode::Up || key.code == KeyCode::Down || key.code == KeyCode::Char('j')
                || key.code == KeyCode::Char('k'))) ==> (old(self).chain_path(
                old(self).selected_column as int,
            ) matches Some(p) ==> (old(self).entries@.dom().contains(p) ==> (old(self).entries@[p].ty matches EntryType::Opened(o) ==> (final(self).entries@.dom().contains(
                p,
            ) && (final(self).entries@[p].ty matches EntryType::Opened(no)
                && crate::entry::opened_key_rel(
                key.code == KeyCode::Down || key.code == KeyCode::Char('j'),
                key.code == KeyCode::Up || key.code == KeyCode::Char('k'),
                o,
                no,
                r is Redraw,
            )))))),
    {
        let ret = self.handle_key_event(key);
        if ret.is_handled() {
            return ret;
        }
        if self.entry_key_to_selected(key) {
            self.try_open_selected_path();
            return HandledEvent::Redraw;
        }
        HandledEvent::Nothing
    }
}

/// How one key edits palette text: a character lands at the end of the
/// visible text (committing any selected completion candidate first), a
/// backspace erases the last character, and any other key changes nothing.
pub open spec fn typed_into(t: Typing, nt: Typing, key: &KeyInput) -> bool {
    &&& (key.code matches KeyCode::Char(c) ==> nt.input@ == t.visible_query_spec().push(c))
    &&& (key.code == KeyCode::Backspace ==> nt.input@ == (if t.visible_query_spec().len() > 0 {
        t.visible_query_spec().drop_last()
    } else {
        t.visible_query_spec()
    }))
    &&& (!(key.code is Char) && key.code != KeyCode::Backspace ==> nt == t)
}

impl CommandPalette {
    /// Types one key into the palette: characters and backspace edit the
    /// text; the first character typed on a fresh delete command starts its
    /// text.
    pub fn handle_key_event(&mut self, key: &KeyInput) -> (r: HandledEvent)
        requires
            old(self).wf(),
        ensures
            final(self).wf(),
            *old(self) matches CommandPalette::Typing(t) ==> (r is Redraw && (*final(self) matches
                CommandPalette::Typing(nt) && typed_into(t, nt, key))),
            *old(self) matches CommandPalette::Command(
                Command::Delete(DeleteCommand::Typing(t)),
            ) ==> (r is Redraw && (*final(self) matches CommandPalette::Command(
                Command::Delete(DeleteCommand::Typing(nt)),
            ) && typed_into(t, nt, key))),
            *old(self) == CommandPalette::Command(Command::Delete(DeleteCommand::Init)) ==> ((
            key.code matches KeyCode::Char(c) ==> (r is Redraw && (*final(self) matches
                CommandPalette::Command(Command::Delete(DeleteCommand::Typing(nt)))
                && nt.input@ == Seq::<char>::empty().push(c) && nt.completion is None))) && (!(
            key.code is Char) ==> (r is Nothing && *final(self) == *old(self)))),
            (*old(self) is Empty || *old(self) is Error) ==> (r is Nothing && *final(self) == *old(self)),
    {
        let taken = self.take();
        match taken {
            CommandPalette::Typing(mut t) => {
                match key.code {
                    KeyCode::Char(c) => {
                        t.push_char(c);
                    },
                    KeyCode::Backspace => {
                        t.pop_char();
                    },
                    _ => {},
                }
                *self = CommandPalette::Typing(t);
                HandledEvent::Redraw
            },
            CommandPalette::Command(Command::Delete(DeleteCommand::Typing(mut t))) => {
                match key.code {
                    KeyCode::Char(c) => {
                        t.push_char(c);
                    },
                    KeyCode::Backspace => {
                        t.pop_char();
                    },
                    _ => {},
                }
                *self = CommandPalette::Command(Command::Delete(DeleteCommand::Typing(t)));
                HandledEvent::Redraw
            },
            CommandPalette::Command(Command::Delete(DeleteCommand::Init)) => {
                match key.code {
                    KeyCode::Char(c) => {
                        let mut input: Vec<char> = Vec::new();
                        input.push(c);
                        self.set_delete_command_typing(input);
                        HandledEvent::Redraw
                    },
                    _ => {
                        *self = CommandPalette::Command(Command::Delete(DeleteCommand::Init));
                        HandledEvent::Nothing
                    },
                }
            },
            other => {
                *self = other;
                HandledEvent::Nothing
            },
        }
    }
}

impl Opened {
    /// Up and down keys move the selection, when no modifier is held.
    pub fn handle_key_event(&mut self, key: &KeyInput) -> (r: bool)
        requires
            old(self).wf(),
        ensures
            final(self).wf(),
            final(self).entries@ == old(self).entries@,
            final(self).config == old(self).config,
            crate::entry::opened_key_rel(
                !key.any_modifier && (key.code == KeyCode::Down || key.code == KeyCode::Char('j')),
                !key.any_modifier && (key.code == KeyCode::Up || key.code == KeyCode::Char('k')),
                *old(self),
                *final(self),
                r,
            ),
    {
        if key.any_modifier {
            return false;
        }
        match key.code {
            KeyCode::Down => self.select_down(),
            KeyCode::Up => self.select_up(),
            KeyCode::Char(c) => {
                if c == 'j' {
                    self.select_down()
                } else if c == 'k' {
                    self.select_up()
                } else {
                    false
                }
            },
            _ => false,
        }
    }
}

impl Entry {
    /// Sends one key to an opened directory's listing; every other kind of
    /// entry ignores keys.
    pub fn handle_event(&mut self, key: &KeyInput) -> (r: bool)
        requires
            old(self).wf(),
        ensures
            final(self).wf(),
            final(self).path == old(self).path,
            !(old(self).ty is Opened) ==> *final(self) == *old(self) && r == false,
            old(self).ty matches EntryType::Opened(o) ==> (final(self).ty matches
                EntryType::Opened(no) && crate::entry::opened_key_rel(
                !key.any_modifier && (key.code == KeyCode::Down || key.code == KeyCode::Char('j')),
                !key.any_modifier && (key.code == KeyCode::Up || key.code == KeyCode::Char('k')),
                o,
                no,
                r,
            )),
    {
        let mut taken = EntryType::Deleting;
        core::mem::swap(&mut self.ty, &mut taken);
        match taken {
            EntryType::Opened(mut o) => {
                let r = o.handle_key_event(key);
                self.ty = EntryType::Opened(o);
                r
            },
            other => {
                self.ty = other;
                false
            },
        }
    }
}

} // verus!
