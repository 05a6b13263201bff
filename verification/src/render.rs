//! The projection the rendering layer reads.
//!
//! Each visible column is drawn from its entry, tagged with whether it is the
//! focused column; an opened column additionally carries the scroll position
//! computed for the viewport height.  The widgets themselves (borders, lists,
//! placeholders) live outside the crate.

use crate::entry::{
    EntryType,
    ListPosition,
};
use crate::path::Path;
use crate::state::State;
use vstd::prelude::*;

verus! {

/// How one column is drawn: whether it has focus.
pub struct EntryState {
    pub selected: bool,
}

/// How one opened column is drawn: focus and the directory's path.
pub struct OpenedState {
    pub selected: bool,
    pub path: Path,
}

/// How one column is drawn: whether it has focus.
pub struct EntryWidget {
    pub selected: bool,
}

/// How one opened column is drawn: focus and the directory's path.
pub struct OpenedWidget {
    pub selected: bool,
    pub path: Path,
}

impl EntryState {
    /// The drawing state of the same column once it is known to be opened.
    pub fn into_opened(&self, path: Path) -> (r: OpenedState)
        ensures
            r.selected == self.selected,
            r.path == path,
    {
        OpenedState { selected: self.selected, path }
    }
}

impl EntryWidget {
    /// The drawing state of the same column once it is known to be opened.
    pub fn into_opened(&self, path: Path) -> (r: OpenedWidget)
        ensures
            r.selected == self.selected,
            r.path == path,
    {
        OpenedWidget { selected: self.selected, path }
    }

    /// The drawing state of the same column once it is known to be opened.
    pub fn get_opened(&self, path: Path) -> (r: OpenedWidget)
        ensures
            r.selected == self.selected,
            r.path == path,
    {
        OpenedWidget { selected: self.selected, path }
    }
}

impl State {
    /// Recomputes the scroll position of the opened column at `depth` for a
    /// viewport of `col_height` rows, and reports it for drawing.  Columns
    /// that are not opened, or out of reach, have no scroll position; neither
    /// has an opened column too large for the machine arithmetic.
    pub fn generate_list_state_at(&mut self, depth: usize, col_height: usize) -> (r: Option<
        ListPosition,
    >)
        requires
            old(self).inv(),
            col_height >= 1,
        ensures
            final(self).inv(),
            final(self).entries@.dom() == old(self).entries@.dom(),
            final(self).first_visible_column == old(self).first_visible_column,
            final(self).selected_column == old(self).selected_column,
            final(self).config == old(self).config,
            final(self).command_palette == old(self).command_palette,
            final(self).joiners == old(self).joiners,
            old(self).has_first() ==> final(self).has_first(),
            r is Some <==> (old(self).chain_path(depth as int) matches Some(p) && old(self).entries@.dom().contains(p) && old(self).entries@[p].ty is Opened && old(self).entries@[p].ty->Opened_0.entries@.len() + old(self).entries@[p].ty->Opened_0.config.column_margin + col_height < usize::MAX),
            r is None ==> final(self).entries@ == old(self).entries@,
            old(self).chain_path(depth as int) matches Some(p) ==> ((old(self).entries@.dom().contains(p) && old(self).entries@[p].ty is Opened && old(self).entries@[p].ty->Opened_0.entries@.len() + old(self).entries@[p].ty->Opened_0.config.column_margin + col_height < usize::MAX) ==> {
                let o = old(self).entries@[p].ty->Opened_0;
                &&& (forall|q: Seq<char>|
                    q != p && old(self).entries@.dom().contains(q) ==> final(self).entries@[q]
                        == old(self).entries@[q])
                &&& final(self).entries@[p].ty is Opened
                &&& {
                    let no = final(self).entries@[p].ty->Opened_0;
                    &&& no.entries@ == o.entries@
                    &&& no.config == o.config
                    &&& (o.selected is None ==> no == o && (r matches Some(lp) && lp.selected
                        is None && lp.offset == 0))
                    &&& (o.selected is Some ==> no.selected is Some && no.sel_path_view()
                        == o.sel_path_view() && (forall|i: int|
                        0 <= i < o.entries@.len() && (#[trigger] o.entries@[i])@
                            == o.sel_path_view() ==> (r matches Some(lp) && lp.selected == Some(
                            i as usize,
                        ) && lp.offset == crate::entry::scrolled_offset(
                            i,
                            o.sel_offset() as int,
                            o.config.column_margin as int,
                            col_height as int,
                            o.entries@.len() as int,
                        ) && no.sel_offset() == lp.offset)))
                }
            }),
    {
        let p = match self.chain_path_at(depth) {
            Some(p) => p,
            None => {
                return None;
            },
        };
        let ghost pre = self.entries@;
        let mut e = match self.entries.remove(&p) {
            Some(e) => e,
            None => {
                proof {
                    assert(self.entries@ =~= pre);
                }
                return None;
            },
        };
        let mut pos: Option<ListPosition> = None;
        match &mut e.ty {
            EntryType::Opened(o) => {
                let margin = o.config.column_margin;
                let n = o.entries.len();
                if n <= usize::MAX - col_height && usize::MAX - col_height - n > margin {
                    let ghost og = *o;
                    let lp = o.generate_list_state(col_height);
                    proof {
                        if og.selected is Some {
                            let osel = og.selected->Some_0;
                            assert forall|i: int|
                                0 <= i < og.entries@.len() && (#[trigger] og.entries@[i])@
                                    == og.sel_path_view() implies lp.selected == Some(i as usize)
                                && lp.offset == crate::entry::scrolled_offset(
                                i,
                                og.sel_offset() as int,
                                og.config.column_margin as int,
                                col_height as int,
                                og.entries@.len() as int,
                            ) by {
                                assert(og.entries@[i]@ == osel.path@);
                            }
                        }
                    }
                    pos = Some(lp);
                }
            },
            _ => {},
        }
        self.entries.insert(e);
        proof {
            assert(self.entries@.dom() =~= pre.dom());
            if pos is None {
                assert(self.entries@ =~= pre);
            }
        }
        pos
    }
}

} // verus!
