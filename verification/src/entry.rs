//! The per-path entry state machine.
//!
//! One [`Entry`] records what is known about one path: a plain file, a
//! directory not yet listed, a listing in flight, a listed directory with its
//! children and a selection, a directory the user may not read, or a path
//! being removed.  Transitions are driven by the navigator and by enumeration
//! outcomes; an opened directory keeps its children sorted and, when it has
//! any, exactly one of them selected.

use crate::config::Config;
use crate::joiners::ReadDirJoiner;
use crate::path::{
    path_views,
    sort_paths,
    sorted_le,
    Path,
};
use vstd::prelude::*;

verus! {

/// A directory that has not been listed yet, optionally remembering which
/// child to pre-select once it opens.
pub struct Unopened {
    pub select_on_open: Option<Path>,
}

/// The selected child of an opened directory, with the scroll position of the
/// listing.
pub struct Selected {
    pub path: Path,
    pub display_offset: usize,
}

/// A listed directory: its children in sorted order and the selection.
pub struct Opened {
    pub entries: Vec<Path>,
    pub selected: Option<Selected>,
    pub config: Config,
}

/// What is known about a path.
pub enum EntryType {
    Opened(Opened),
    File,
    Unopened(Unopened),
    Deleting,
    Waiting(Unopened),
    PermissionDenied,
}

/// A path together with what is known about it.
pub struct Entry {
    pub path: Path,
    pub ty: EntryType,
}

/// A scroll position handed to the rendering layer: the selected row and the
/// first visible row of a column.
#[derive(Debug, Clone, Copy)]
pub struct ListPosition {
    pub selected: Option<usize>,
    pub offset: usize,
}

/// Finds the position of the path whose text equals `p`'s.
pub fn find_view_index(entries: &Vec<Path>, p: &Path) -> (r: Option<usize>)
    ensures
        match r {
            Some(i) => 0 <= i < entries@.len() && entries@[i as int]@ == p@ && forall|k: int|
                0 <= k < i ==> entries@[k]@ != p@,
            None => forall|k: int| 0 <= k < entries@.len() ==> entries@[k]@ != p@,
        },
{
    let mut i: usize = 0;
    while i < entries.len()
        invariant
            i <= entries@.len(),
            forall|k: int| 0 <= k < i ==> entries@[k]@ != p@,
        decreases entries@.len() - i,
    {
        if &entries[i] == p {
            return Some(i);
        }
        i = i + 1;
    }
    None
}

/// The scroll offset after keeping the selected row inside a window of
/// `height` rows with `margin` rows of context, starting from offset `off0`,
/// with the selection at row `idx` of `n` rows.
pub open spec fn scrolled_offset(idx: int, off0: int, margin: int, height: int, n: int) -> int {
    let tm = if margin <= idx {
        margin
    } else {
        idx
    };
    if off0 + tm > idx {
        idx - tm
    } else if idx + margin >= off0 + height {
        let cand = idx + margin - height + 1;
        if n >= height {
            if cand <= n - height {
                cand
            } else {
                n - height
            }
        } else {
            0
        }
    } else {
        off0
    }
}

/// The index one above `i`, wrapping from the last row to the first.
pub open spec fn wrap_inc(i: int, n: int) -> int {
    if i + 1 < n {
        i + 1
    } else {
        0
    }
}

/// The index one below `i`, wrapping from the first row to the last.
pub open spec fn wrap_dec(i: int, n: int) -> int {
    if i > 0 {
        i - 1
    } else {
        n - 1
    }
}

/// How one up or down step changes an opened directory: an empty listing is
/// untouched and reports no move; otherwise the selection steps to the
/// neighbouring row, wrapping at the ends, with the children and the scroll
/// offset kept.
pub open spec fn selection_stepped(pre: Opened, post: Opened, moved: bool, down: bool) -> bool {
    &&& post.entries@ == pre.entries@
    &&& post.config == pre.config
    &&& (pre.entries@.len() == 0 ==> !moved && post == pre)
    &&& (pre.entries@.len() > 0 ==> moved && post.selected is Some && post.sel_offset()
        == pre.sel_offset() && (forall|i: int|
        0 <= i < pre.entries@.len() && pre.entries@[i]@ == pre.sel_path_view()
            ==> post.sel_path_view() == pre.entries@[if down {
            wrap_inc(i, pre.entries@.len() as int)
        } else {
            wrap_dec(i, pre.entries@.len() as int)
        }]@))
}

/// How a key changes an opened directory: up and down step the selection when
/// no modifier is held; every other key leaves it untouched and reports no
/// move.
pub open spec fn opened_key_rel(
    code_down: bool,
    code_up: bool,
    pre: Opened,
    post: Opened,
    moved: bool,
) -> bool {
    if code_down {
        selection_stepped(pre, post, moved, true)
    } else if code_up {
        selection_stepped(pre, post, moved, false)
    } else {
        post == pre && !moved
    }
}

impl Opened {
    /// The text of the selected child's path.  Meaningful only while a
    /// selection exists.
    pub open spec fn sel_path_view(self) -> Seq<char> {
        self.selected->Some_0.path@
    }

    /// The scroll offset of the selection.  Meaningful only while a selection
    /// exists.
    pub open spec fn sel_offset(self) -> usize {
        self.selected->Some_0.display_offset
    }

    /// The scroll offset of the current selection, or zero without one.
    pub open spec fn spec_offset_or_zero(self) -> usize {
        match self.selected {
            Some(s) => s.display_offset,
            None => 0,
        }
    }

    /// Children sorted and distinct; a selection exactly when there are
    /// children, pointing at one of them, with the scroll offset in range.
    pub open spec fn wf(self) -> bool {
        &&& sorted_le(self.entries@)
        &&& path_views(self.entries@).no_duplicates()
        &&& match self.selected {
            None => self.entries@.len() == 0,
            Some(sel) => {
                &&& self.entries@.len() > 0
                &&& path_views(self.entries@).contains(sel.path@)
                &&& sel.display_offset < self.entries@.len()
            },
        }
    }

    /// The selected child's path, if any.
    pub fn selected_entry(&self) -> (r: Option<&Path>)
        ensures
            match r {
                Some(p) => self.selected matches Some(sel) && p@ == sel.path@,
                None => self.selected is None,
            },
    {
        match &self.selected {
            Some(sel) => Some(&sel.path),
            None => None,
        }
    }

    /// The selected child's position among the children, and the scroll
    /// offset.
    pub fn selected_entry_idx_and_offset(&self) -> (r: Option<(usize, usize)>)
        ensures
            match r {
                Some(io) => self.selected matches Some(sel) && {
                    &&& 0 <= io.0 < self.entries@.len()
                    &&& self.entries@[io.0 as int]@ == sel.path@
                    &&& forall|k: int| 0 <= k < io.0 ==> self.entries@[k]@ != sel.path@
                    &&& io.1 == sel.display_offset
                },
                None => self.selected is None || forall|k: int|
                    0 <= k < self.entries@.len() ==> self.entries@[k]@
                        != self.selected->Some_0.path@,
            },
    {
        match &self.selected {
            Some(sel) => {
                match find_view_index(&self.entries, &sel.path) {
                    Some(i) => Some((i, sel.display_offset)),
                    None => None,
                }
            },
            None => None,
        }
    }

    /// Selects the child at `idx`, with scroll offset `offset`.
    pub fn set_selected(&mut self, idx: usize, offset: usize)
        requires
            idx < old(self).entries@.len(),
            offset < old(self).entries@.len(),
        ensures
            final(self).entries@ == old(self).entries@,
            final(self).config == old(self).config,
            final(self).selected matches Some(sel) && sel.path@ == old(self).entries@[idx as int]@
                && sel.display_offset == offset,
            old(self).wf() ==> final(self).wf(),
    {
        let path = self.entries[idx].clone();
        self.selected = Some(Selected { path, display_offset: offset });
        proof {
            assert(path_views(self.entries@)[idx as int] == self.entries@[idx as int]@);
        }
    }

    /// Selects the child whose text equals `path`'s, keeping the current
    /// scroll offset; reports whether it was found.
    pub fn set_selected_entry(&mut self, path: &Path) -> (r: bool)
        requires
            old(self).wf(),
        ensures
            final(self).wf(),
            final(self).entries@ == old(self).entries@,
            final(self).config == old(self).config,
            r <==> path_views(old(self).entries@).contains(path@),
            r ==> (final(self).selected matches Some(sel) && sel.path@ == path@
                && sel.display_offset == old(self).spec_offset_or_zero()),
            !r ==> *final(self) == *old(self),
    {
        proof {
            assert(forall|k: int|
                0 <= k < self.entries@.len() ==> path_views(self.entries@)[k]
                    == self.entries@[k]@);
        }
        match find_view_index(&self.entries, path) {
            Some(i) => {
                let offset = match &self.selected {
                    Some(sel) => sel.display_offset,
                    None => 0,
                };
                proof {
                    assert(self.entries@.len() > 0);
                }
                let off = if offset < self.entries.len() {
                    offset
                } else {
                    0
                };
                self.set_selected(i, off);
                true
            },
            None => false,
        }
    }

    /// Moves the selection one row up, wrapping from the first child to the
    /// last.  Does nothing when the directory is empty.
    pub fn select_up(&mut self) -> (r: bool)
        requires
            old(self).wf(),
        ensures
            final(self).wf(),
            final(self).entries@ == old(self).entries@,
            final(self).config == old(self).config,
            old(self).entries@.len() == 0 ==> r == false && *final(self) == *old(self),
            old(self).entries@.len() > 0 ==> (r == true && final(self).selected is Some
                && final(self).sel_offset() == old(self).sel_offset() && (forall|i: int|
                0 <= i < old(self).entries@.len() && old(self).entries@[i]@ == old(
                    self,
                ).sel_path_view() ==> final(self).sel_path_view() == old(self).entries@[wrap_dec(
                    i,
                    old(self).entries@.len() as int,
                )]@)),
    {
        if self.entries.len() == 0 {
            return false;
        }
        let io = self.selected_entry_idx_and_offset();
        match io {
            Some((idx, offset)) => {
                let n = self.entries.len();
                let new_idx = if idx > 0 {
                    idx - 1
                } else {
                    n - 1
                };
                proof {
                    lemma_unique_view_index(self.entries@, idx as int);
                }
                self.set_selected(new_idx, offset);
                true
            },
            None => {
                proof {
                    let sel = self.selected->Some_0;
                    assert(path_views(self.entries@).contains(sel.path@));
                    let w = choose|w: int|
                        0 <= w < path_views(self.entries@).len() && path_views(self.entries@)[w]
                            == sel.path@;
                    assert(self.entries@[w]@ == sel.path@);
                    assert(false);
                }
                false
            },
        }
    }

    /// Moves the selection one row down, wrapping from the last child to the
    /// first.  Does nothing when the directory is empty.
    pub fn select_down(&mut self) -> (r: bool)
        requires
            old(self).wf(),
        ensures
            final(self).wf(),
            final(self).entries@ == old(self).entries@,
            final(self).config == old(self).config,
            old(self).entries@.len() == 0 ==> r == false && *final(self) == *old(self),
            old(self).entries@.len() > 0 ==> (r == true && final(self).selected is Some
                && final(self).sel_offset() == old(self).sel_offset() && (forall|i: int|
                0 <= i < old(self).entries@.len() && old(self).entries@[i]@ == old(
                    self,
                ).sel_path_view() ==> final(self).sel_path_view() == old(self).entries@[wrap_inc(
                    i,
                    old(self).entries@.len() as int,
                )]@)),
    {
        if self.entries.len() == 0 {
            return false;
        }
        let io = self.selected_entry_idx_and_offset();
        match io {
            Some((idx, offset)) => {
                let n = self.entries.len();
                let new_idx = if idx + 1 < n {
                    idx + 1
                } else {
                    0
                };
                proof {
                    lemma_unique_view_index(self.entries@, idx as int);
                }
                self.set_selected(new_idx, offset);
                true
            },
            None => {
                proof {
                    let sel = self.selected->Some_0;
                    assert(path_views(self.entries@).contains(sel.path@));
                    let w = choose|w: int|
                        0 <= w < path_views(self.entries@).len() && path_views(self.entries@)[w]
                            == sel.path@;
                    assert(self.entries@[w]@ == sel.path@);
                    assert(false);
                }
                false
            },
        }
    }

    /// Recomputes the scroll offset so the selection stays inside a window of
    /// `col_height` rows, honouring the configured margin, and reports the
    /// position for rendering.
    pub fn generate_list_state(&mut self, col_height: usize) -> (r: ListPosition)
        requires
            old(self).wf(),
            col_height >= 1,
            old(self).entries@.len() + old(self).config.column_margin + col_height < usize::MAX,
        ensures
            final(self).wf(),
            final(self).entries@ == old(self).entries@,
            final(self).config == old(self).config,
            old(self).selected is None ==> *final(self) == *old(self) && r.selected is None
                && r.offset == 0,
            old(self).selected matches Some(osel) ==> (final(self).selected matches Some(nsel)
                && nsel.path@ == osel.path@ && forall|i: int|
                #![trigger old(self).entries@[i]]
                0 <= i < old(self).entries@.len() && old(self).entries@[i]@ == osel.path@
                    ==> r.selected == Some(i as usize) && r.offset == scrolled_offset(
                    i,
                    osel.display_offset as int,
                    old(self).config.column_margin as int,
                    col_height as int,
                    old(self).entries@.len() as int,
                ) && nsel.display_offset == r.offset),
    {
        let n = self.entries.len();
        let io = self.selected_entry_idx_and_offset();
        match io {
            Some((idx, offset)) => {
                proof {
                    lemma_unique_view_index(self.entries@, idx as int);
                }
                let margin = self.config.column_margin;
                let top_margin = if margin <= idx {
                    margin
                } else {
                    idx
                };
                let new_offset: usize = if offset + top_margin > idx {
                    idx - top_margin
                } else if idx + margin >= offset + col_height {
                    let cand = idx + margin - col_height + 1;
                    if n >= col_height {
                        if cand <= n - col_height {
                            cand
                        } else {
                            n - col_height
                        }
                    } else {
                        0
                    }
                } else {
                    offset
                };
                self.set_selected(idx, new_offset);
                ListPosition { selected: Some(idx), offset: new_offset }
            },
            None => {
                proof {
                    if self.selected is Some {
                        let sel = self.selected->Some_0;
                        assert(path_views(self.entries@).contains(sel.path@));
                        let w = choose|w: int|
                            0 <= w < path_views(self.entries@).len() && path_views(
                                self.entries@,
                            )[w] == sel.path@;
                        assert(self.entries@[w]@ == sel.path@);
                        assert(false);
                    }
                }
                ListPosition { selected: None, offset: 0 }
            },
        }
    }
}

impl Opened {
    /// The directory's children, sorted.
    pub fn entries(&self) -> (r: &Vec<Path>)
        ensures
            r == &self.entries,
    {
        &self.entries
    }
}

/// The law of the scroll window: the offset that `generate_list_state`
/// reports keeps the selected row inside the viewport — `offset <= idx <
/// offset + height` — and never scrolls past the end of the list — `offset <=
/// n - height` whenever `n >= height`.  It asks that the margin be smaller
/// than the viewport and that the starting offset did not already sit past
/// the end; with a margin as large as the viewport no offset can show the
/// selection with its margin, and the first branch would leave such an
/// offset in place.
pub proof fn lemma_scrolled_offset_window(idx: int, off0: int, margin: int, height: int, n: int)
    requires
        0 <= idx < n,
        0 <= off0 < n,
        0 <= margin < height,
        n >= height ==> off0 <= n - height,
    ensures
        scrolled_offset(idx, off0, margin, height, n) <= idx,
        idx < scrolled_offset(idx, off0, margin, height, n) + height,
        0 <= scrolled_offset(idx, off0, margin, height, n),
        n >= height ==> scrolled_offset(idx, off0, margin, height, n) <= n - height,
{
    let tm = if margin <= idx {
        margin
    } else {
        idx
    };
    if off0 + tm > idx {
    } else if idx + margin >= off0 + height {
        if n >= height {
            let cand = idx + margin - height + 1;
            if cand > n - height {
                assert(idx + margin + 1 > n);
            }
        }
    }
}

/// In a directory without duplicate child texts, a child's position is the
/// only one holding its text.
pub proof fn lemma_unique_view_index(entries: Seq<Path>, i: int)
    requires
        path_views(entries).no_duplicates(),
        0 <= i < entries.len(),
    ensures
        forall|j: int| 0 <= j < entries.len() && entries[j]@ == entries[i]@ ==> j == i,
{
    assert forall|j: int| 0 <= j < entries.len() && entries[j]@ == entries[i]@ implies j == i by {
        if j != i {
            assert(path_views(entries)[j] == entries[j]@);
            assert(path_views(entries)[i] == entries[i]@);
        }
    }
}

impl EntryType {
    /// True for a plain file.
    pub fn is_file(&self) -> (r: bool)
        ensures
            r <==> self is File,
    {
        match self {
            EntryType::File => true,
            _ => false,
        }
    }
}

impl Entry {
    /// An opened entry is well formed when its listing is.
    pub open spec fn wf(self) -> bool {
        match self.ty {
            EntryType::Opened(o) => o.wf(),
            _ => true,
        }
    }

    /// A fresh entry for a path: an unlisted directory when the path names a
    /// directory on disk, a plain file otherwise.
    pub fn new(path: Path, select_on_open: Option<Path>, is_dir: bool) -> (r: Entry)
        ensures
            r.path == path,
            is_dir ==> (r.ty matches EntryType::Unopened(u) && u.select_on_open
                == select_on_open),
            !is_dir ==> r.ty is File,
            r.wf(),
    {
        if is_dir {
            Entry { path, ty: EntryType::Unopened(Unopened { select_on_open }) }
        } else {
            Entry { path, ty: EntryType::File }
        }
    }

    /// Requests this directory's listing: an unlisted directory is queued on
    /// the joiner and waits for its listing; any other entry is untouched.
    /// Repeated calls while waiting queue nothing again.
    pub fn try_open(&mut self, joiner: &mut ReadDirJoiner) -> (dispatched: bool)
        ensures
            final(self).path == old(self).path,
            match old(self).ty {
                EntryType::Unopened(u) => dispatched && final(self).ty == EntryType::Waiting(u)
                    && final(joiner).pending@.len() == old(joiner).pending@.len() + 1
                    && final(joiner).pending@.last()@ == old(self).path@
                    && final(joiner).pending@.subrange(0, old(joiner).pending@.len() as int)
                        == old(joiner).pending@,
                _ => !dispatched && *final(self) == *old(self) && *final(joiner) == *old(joiner),
            },
            old(self).wf() ==> final(self).wf(),
    {
        let mut taken = EntryType::Deleting;
        core::mem::swap(&mut self.ty, &mut taken);
        match taken {
            EntryType::Unopened(u) => {
                joiner.spawn(self.path.clone());
                self.ty = EntryType::Waiting(u);
                proof {
                    assert(joiner.pending@.subrange(0, old(joiner).pending@.len() as int)
                        =~= old(joiner).pending@);
                }
                true
            },
            other => {
                self.ty = other;
                false
            },
        }
    }

    /// The listing of this entry, when it is an opened directory.
    pub fn get_opened(&self) -> (r: Option<&Opened>)
        ensures
            match r {
                Some(o) => self.ty matches EntryType::Opened(inner) && *o == inner,
                None => !(self.ty is Opened),
            },
    {
        match &self.ty {
            EntryType::Opened(o) => Some(o),
            _ => None,
        }
    }

    /// The child a fresh listing selects: the remembered child when present
    /// among the children, otherwise the first child.
    pub open spec fn preferred_selection(
        entries: Seq<Path>,
        hint: Option<Path>,
        first: Seq<char>,
    ) -> Seq<char> {
        match hint {
            Some(h) => if path_views(entries).contains(h@) {
                h@
            } else {
                first
            },
            None => first,
        }
    }

    /// Builds an opened directory from a completed listing.  Children are
    /// sorted by text; the selection prefers the remembered child when it is
    /// present, then the first child, and is empty for an empty directory.
    pub fn opened(path: Path, entries: Vec<Path>, config: Config, select_on_open: Option<
        Path,
    >) -> (r: Entry)
        requires
            path_views(entries@).no_duplicates(),
        ensures
            r.path == path,
            r.ty matches EntryType::Opened(o) && o.config == config && o.wf() && sorted_le(
                o.entries@,
            ) && path_views(o.entries@).to_multiset() == path_views(entries@).to_multiset()
                && o.entries@.len() == entries@.len() && (entries@.len() == 0 ==> o.selected
                is None) && (entries@.len() > 0 ==> (o.selected matches Some(sel)
                && sel.display_offset == 0 && sel.path@ == Entry::preferred_selection(
                entries@,
                select_on_open,
                o.entries@[0]@,
            ))),
    {
        broadcast use vstd::seq_lib::group_to_multiset_ensures;

        let sorted = sort_paths(entries);
        proof {
            path_views(entries@).lemma_multiset_has_no_duplicates();
            path_views(sorted@).lemma_multiset_has_no_duplicates_conv();
            assert(path_views(sorted@).len() == sorted@.len());
            assert(path_views(entries@).len() == entries@.len());
            assert(path_views(sorted@).to_multiset().len() == path_views(sorted@).len());
            assert(path_views(entries@).to_multiset().len() == path_views(entries@).len());
        }
        let selected: Option<Selected> = if sorted.len() == 0 {
            None
        } else {
            let hinted: Option<Path> = match select_on_open {
                Some(h) => {
                    match find_view_index(&sorted, &h) {
                        Some(_) => Some(h),
                        None => None,
                    }
                },
                None => None,
            };
            match hinted {
                Some(h) => {
                    proof {
                        assert(path_views(sorted@).contains(h@)) by {
                            let i = choose|i: int|
                                0 <= i < sorted@.len() && sorted@[i]@ == h@;
                            assert(path_views(sorted@)[i] == h@);
                        }
                    }
                    Some(Selected { path: h, display_offset: 0 })
                },
                None => {
                    proof {
                        assert(path_views(sorted@)[0] == sorted@[0]@);
                    }
                    Some(Selected { path: sorted[0].clone(), display_offset: 0 })
                },
            }
        };
        proof {
            assert forall|p: Seq<char>|
                path_views(sorted@).contains(p) <==> path_views(entries@).contains(p) by {
                assert(path_views(sorted@).contains(p) <==> path_views(sorted@).to_multiset().count(
                    p,
                ) > 0);
                assert(path_views(entries@).contains(p) <==> path_views(
                    entries@,
                ).to_multiset().count(p) > 0);
            }
        }
        Entry { path, ty: EntryType::Opened(Opened { entries: sorted, selected, config }) }
    }

    /// A tombstone for a path being removed.
    pub fn deleting(path: Path) -> (r: Entry)
        ensures
            r.path == path,
            r.ty is Deleting,
            r.wf(),
    {
        Entry { path, ty: EntryType::Deleting }
    }

    /// A directory whose listing was refused.
    pub fn permission_denied(path: Path) -> (r: Entry)
        ensures
            r.path == path,
            r.ty is PermissionDenied,
            r.wf(),
    {
        Entry { path, ty: EntryType::PermissionDenied }
    }

    /// A plain file.
    pub fn file(path: Path) -> (r: Entry)
        ensures
            r.path == path,
            r.ty is File,
            r.wf(),
    {
        Entry { path, ty: EntryType::File }
    }

    /// True for a directory that has not been listed and is not being listed.
    pub fn is_unopened(&self) -> (r: bool)
        ensures
            r <==> self.ty is Unopened,
    {
        match &self.ty {
            EntryType::Unopened(_) => true,
            _ => false,
        }
    }

    /// True for a listed directory.
    pub fn is_opened(&self) -> (r: bool)
        ensures
            r <==> self.ty is Opened,
    {
        match &self.ty {
            EntryType::Opened(_) => true,
            _ => false,
        }
    }
}

impl Selected {
    pub fn new(path: Path, offset_from_top: usize) -> (r: Selected)
        ensures
            r.path == path,
            r.display_offset == offset_from_top,
    {
        Selected { path, display_offset: offset_from_top }
    }

    pub fn path(&self) -> (r: &Path)
        ensures
            r == &self.path,
    {
        &self.path
    }
}

} // verus!
