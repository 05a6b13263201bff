//! The navigator: the entry store, the cursor, and the task queues.
//!
//! The visible columns form a chain: the first visible column's path, then,
//! for each opened column, its selected child.  The cursor
//! (`selected_column`) points at one of the first `required_columns` links.
//! Navigation walks this chain, lazily queueing directory listings for
//! unopened links; deletion tombstones a path, drops its cached descendants,
//! and repairs the parent's listing and selection.

use crate::config::Config;
use crate::entry::{
    Entry,
    EntryType,
    Opened,
};
use crate::joiners::Joiners;
use crate::palette::CommandPalette;
use crate::path::{
    parent_seq,
    path_views,
    Path,
};
use crate::store::EntryStore;
use vstd::prelude::*;

verus! {

/// The full navigation state.
pub struct State {
    pub entries: EntryStore,
    pub first_visible_column: Path,
    pub config: Config,
    /// The column that is currently selected from the visible columns.
    pub selected_column: usize,
    pub joiners: Joiners,
    pub command_palette: CommandPalette,
    pub command_palette_row: u16,
}

/// What one step of the chain walk found.
enum WalkStep {
    /// The path has no cached entry.
    Missing,
    /// The entry is an unlisted directory: its listing should be requested.
    Dispatch,
    /// The entry is opened with a selected child: the walk continues there.
    Next(Path),
    /// The entry ends the chain: a file, an empty or unreadable directory, a
    /// listing in flight, or a tombstone.
    Stop,
}

impl State {
    /// The store, the configuration, the cursor bound and the palette are all
    /// well formed.
    pub open spec fn inv(self) -> bool {
        &&& self.entries.wf()
        &&& self.config.wf()
        &&& self.selected_column < self.config.required_columns
        &&& self.command_palette.wf()
    }

    /// The first visible column has a cached entry.
    pub open spec fn has_first(self) -> bool {
        self.entries@.dom().contains(self.first_visible_column@)
    }

    /// The path of the visible column at depth `d`: the first visible column
    /// at depth zero, then each opened column's selected child.
    pub open spec fn chain_path(self, d: int) -> Option<Seq<char>>
        decreases d,
    {
        if d <= 0 {
            Some(self.first_visible_column@)
        } else {
            match self.chain_path(d - 1) {
                Some(p) => if self.entries@.dom().contains(p) {
                    match self.entries@[p].ty {
                        EntryType::Opened(o) => match o.selected {
                            Some(sel) => Some(sel.path@),
                            None => None,
                        },
                        _ => None,
                    }
                } else {
                    None
                },
                None => None,
            }
        }
    }

    /// The chain defines a path at depth `d` and an entry is cached for it.
    pub open spec fn chain_entry_exists(self, d: int) -> bool {
        self.chain_path(d) matches Some(p) && self.entries@.dom().contains(p)
    }

    /// The cached entry of the visible column at depth `d`.
    pub open spec fn chain_entry(self, d: int) -> Entry
        recommends
            self.chain_entry_exists(d),
    {
        self.entries@[self.chain_path(d)->Some_0]
    }

    /// Entries are cached along the whole chain up to depth `d`.
    pub open spec fn chain_ok_upto(self, d: int) -> bool {
        forall|k: int| 0 <= k <= d ==> self.chain_entry_exists(k)
    }

    /// Once the chain breaks it stays broken at every greater depth.
    pub proof fn lemma_chain_none(self, k: int, d: int)
        requires
            0 <= k <= d,
            self.chain_path(k) is None,
        ensures
            self.chain_path(d) is None,
        decreases d - k,
    {
        if d > k {
            self.lemma_chain_none(k, d - 1);
        }
    }

    /// A missing entry at depth `k` breaks the chain beyond it.
    pub proof fn lemma_chain_missing(self, k: int, d: int)
        requires
            0 <= k < d,
            !self.chain_entry_exists(k),
        ensures
            self.chain_path(d) is None,
    {
        self.lemma_chain_none(k + 1, d);
    }

    /// A chain that reaches depth `d` passes through every shallower depth.
    pub proof fn lemma_chain_prefix(self, k: int, d: int)
        requires
            0 <= k <= d,
            self.chain_path(d) is Some,
        ensures
            self.chain_path(k) is Some,
            k < d ==> self.chain_entry_exists(k),
        decreases d - k,
    {
        if k < d {
            assert(self.chain_path(d - 1) is Some);
            self.lemma_chain_prefix(k, d - 1);
        }
    }

    /// The chain reads only the first visible column and the store: two
    /// states that agree on those agree on the chain.
    pub proof fn lemma_chain_same(a: State, b: State, d: int)
        requires
            a.entries@ == b.entries@,
            a.first_visible_column@ == b.first_visible_column@,
        ensures
            a.chain_path(d) == b.chain_path(d),
        decreases d,
    {
        if d > 0 {
            State::lemma_chain_same(a, b, d - 1);
        }
    }

    /// The number of columns the interface wants to show.
    pub fn required_columns(&self) -> (r: usize)
        ensures
            r == self.config.required_columns,
    {
        self.config.required_columns
    }

    /// The entry cached for `path`, if any.
    pub fn entry(&self, path: &Path) -> (r: Option<&Entry>)
        ensures
            match r {
                Some(e) => self.entries@.dom().contains(path@) && *e == self.entries@[path@],
                None => !self.entries@.dom().contains(path@),
            },
    {
        self.entries.get(path)
    }

    /// True when the first visible column has a cached entry.
    pub fn has_first_entry(&self) -> (r: bool)
        ensures
            r == self.has_first(),
    {
        self.entries.contains(&self.first_visible_column)
    }

    /// The entry of the first visible column.
    pub fn first_entry(&self) -> (r: &Entry)
        requires
            self.has_first(),
        ensures
            *r == self.entries@[self.first_visible_column@],
    {
        match self.entries.get(&self.first_visible_column) {
            Some(e) => e,
            None => vstd::pervasive::unreached(),
        }
    }

    /// What the chain walk finds at `path`.
    fn walk_step(&self, path: &Path) -> (r: WalkStep)
        ensures
            match r {
                WalkStep::Missing => !self.entries@.dom().contains(path@),
                WalkStep::Dispatch => self.entries@.dom().contains(path@)
                    && self.entries@[path@].ty is Unopened,
                WalkStep::Next(p) => self.entries@.dom().contains(path@) && (
                self.entries@[path@].ty matches EntryType::Opened(o) && o.selected matches Some(sel)
                    && p@ == sel.path@),
                WalkStep::Stop => self.entries@.dom().contains(path@) && !(
                self.entries@[path@].ty is Unopened) && (self.entries@[path@].ty matches
                    EntryType::Opened(o) ==> o.selected is None),
            },
    {
        match self.entries.get(path) {
            None => WalkStep::Missing,
            Some(e) => match &e.ty {
                EntryType::Unopened(_) => WalkStep::Dispatch,
                EntryType::Opened(o) => match o.selected_entry() {
                    Some(p) => WalkStep::Next(p.clone()),
                    None => WalkStep::Stop,
                },
                _ => WalkStep::Stop,
            },
        }
    }

    /// The path of the visible column at `depth`, when the chain reaches that
    /// deep through cached entries.
    pub fn chain_path_at(&self, depth: usize) -> (r: Option<Path>)
        ensures
            match r {
                Some(p) => self.chain_path(depth as int) == Some(p@) && (forall|k: int|
                    0 <= k < depth ==> self.chain_entry_exists(k)),
                None => self.chain_path(depth as int) is None,
            },
    {
        let mut current: Path = self.first_visible_column.clone();
        let mut d: usize = 0;
        while d < depth
            invariant
                d <= depth,
                self.chain_path(d as int) == Some(current@),
                forall|k: int| 0 <= k < d ==> self.chain_entry_exists(k),
            decreases depth - d,
        {
            match self.walk_step(&current) {
                WalkStep::Next(p) => {
                    current = p;
                },
                WalkStep::Missing => {
                    proof {
                        self.lemma_chain_missing(d as int, depth as int);
                    }
                    return None;
                },
                _ => {
                    proof {
                        self.lemma_chain_none(d + 1 as int, depth as int);
                    }
                    return None;
                },
            }
            d = d + 1;
        }
        Some(current)
    }

    /// The entry of the visible column at `depth`, when there is one and
    /// `depth` is within the visible columns.
    pub fn visible_columns_at(&self, depth: usize) -> (r: Option<&Entry>)
        ensures
            match r {
                Some(e) => depth <= self.config.required_columns && self.chain_entry_exists(
                    depth as int,
                ) && *e == self.chain_entry(depth as int),
                None => depth > self.config.required_columns || !self.chain_entry_exists(
                    depth as int,
                ),
            },
    {
        if depth > self.config.required_columns {
            return None;
        }
        match self.chain_path_at(depth) {
            Some(p) => self.entries.get(&p),
            None => None,
        }
    }

    /// The entry of the currently selected column, if the chain reaches it.
    pub fn selected_entry(&self) -> (r: Option<&Entry>)
        requires
            self.inv(),
        ensures
            match r {
                Some(e) => self.chain_entry_exists(self.selected_column as int) && *e
                    == self.chain_entry(self.selected_column as int),
                None => !self.chain_entry_exists(self.selected_column as int),
            },
    {
        self.visible_columns_at(self.selected_column)
    }

    /// The entry at the given depth, following each opened column's selected
    /// child, or the last reachable entry with the depth at which the chain
    /// stopped.  Performs no input/output.
    pub fn entry_at_depth(&self, depth: usize) -> (r: Result<&Entry, (&Entry, usize)>)
        requires
            self.has_first(),
        ensures
            match r {
                Ok(e) => self.chain_entry_exists(depth as int) && *e == self.chain_entry(
                    depth as int,
                ),
                Err(stop) => 1 <= stop.1 <= depth && self.chain_entry_exists(stop.1 - 1) && *stop.0
                    == self.chain_entry(stop.1 - 1) && !self.chain_entry_exists(stop.1 as int),
            },
    {
        let mut current: Path = self.first_visible_column.clone();
        let mut d: usize = 0;
        while d < depth
            invariant
                d <= depth,
                self.chain_path(d as int) == Some(current@),
                self.chain_entry_exists(d as int),
            decreases depth - d,
        {
            match self.walk_step(&current) {
                WalkStep::Next(p) => {
                    if self.entries.contains(&p) {
                        current = p;
                    } else {
                        let e = match self.entries.get(&current) {
                            Some(e) => e,
                            None => vstd::pervasive::unreached(),
                        };
                        return Err((e, d + 1));
                    }
                },
                WalkStep::Missing => {
                    proof {
                        assert(false);
                    }
                    return Err((self.first_entry(), 1));
                },
                _ => {
                    let e = match self.entries.get(&current) {
                        Some(e) => e,
                        None => vstd::pervasive::unreached(),
                    };
                    return Err((e, d + 1));
                },
            }
            d = d + 1;
        }
        match self.entries.get(&current) {
            Some(e) => Ok(e),
            None => vstd::pervasive::unreached(),
        }
    }
    /// Creates a cache entry for `path` if none exists: an unlisted directory
    /// when `is_dir` holds, a plain file otherwise.  An existing entry is
    /// never overwritten.
    pub fn create_entry_if_not_exists(
        &mut self,
        path: Path,
        select_on_open: Option<Path>,
        is_dir: bool,
    )
        requires
            old(self).inv(),
        ensures
            final(self).inv(),
            final(self).first_visible_column == old(self).first_visible_column,
            final(self).selected_column == old(self).selected_column,
            final(self).config == old(self).config,
            final(self).command_palette == old(self).command_palette,
            final(self).joiners == old(self).joiners,
            old(self).entries@.dom().contains(path@) ==> *final(self) == *old(self),
            !old(self).entries@.dom().contains(path@) ==> final(self).entries@.dom() == old(self).entries@.dom().insert(path@) && (forall|q: Seq<char>|
                q != path@ && old(self).entries@.dom().contains(q) ==> final(self).entries@[q]
                    == old(self).entries@[q]) && final(self).entries@[path@].path@ == path@ && (
            if is_dir {
                final(self).entries@[path@].ty matches EntryType::Unopened(u) && u.select_on_open
                    == select_on_open
            } else {
                final(self).entries@[path@].ty is File
            }),
            old(self).has_first() ==> final(self).has_first(),
    {
        if self.entries.contains(&path) {
            return ;
        }
        let ghost pv = path@;
        let e = Entry::new(path, select_on_open, is_dir);
        self.entries.insert(e);
        proof {
            assert(self.entries@.dom() =~= old(self).entries@.dom().insert(pv));
        }
    }

    /// A fresh navigator rooted at `path`, which names a directory on disk
    /// exactly when `path_is_dir` holds.  The root's listing is requested at
    /// once when it is a directory.
    pub fn new(path: Path, path_is_dir: bool, config: Config) -> (r: State)
        requires
            config.wf(),
        ensures
            r.inv(),
            r.has_first(),
            r.first_visible_column@ == path@,
            r.selected_column == 0,
            r.config == config,
            r.command_palette is Empty,
            r.entries@.dom() == Set::<Seq<char>>::empty().insert(path@),
            path_is_dir ==> (r.entries@[path@].ty matches EntryType::Waiting(u)
                && u.select_on_open is None && r.joiners.read_dir_joiner.pending@.len() == 1
                && r.joiners.read_dir_joiner.pending@[0]@ == path@),
            !path_is_dir ==> r.entries@[path@].ty is File
                && r.joiners.read_dir_joiner.pending@.len() == 0,
            r.joiners.delete_joiner.pending@.len() == 0,
    {
        let ghost pv = path@;
        let fvc = path.clone();
        let mut entries = EntryStore::new();
        entries.insert(Entry::new(path, None, path_is_dir));
        proof {
            assert(entries@.dom() =~= Set::<Seq<char>>::empty().insert(pv));
        }
        let mut ret = State {
            entries,
            first_visible_column: fvc,
            config,
            selected_column: 0,
            joiners: Joiners::new(),
            command_palette: CommandPalette::Empty,
            command_palette_row: 0,
        };
        proof {
            assert(ret.chain_path(0) == Some(pv));
        }
        ret.try_open_selected_path();
        proof {
            assert(ret.entries@.dom() =~= Set::<Seq<char>>::empty().insert(pv));
        }
        ret
    }

    /// Walks the chain from the selected column towards the last required
    /// column, requesting the listing of the first unlisted directory it
    /// meets.  True exactly when the walk reached the full requested depth
    /// through already-opened, non-empty directories.
    pub fn try_open_selected_path(&mut self) -> (r: bool)
        requires
            old(self).inv(),
        ensures
            final(self).inv(),
            final(self).first_visible_column == old(self).first_visible_column,
            final(self).selected_column == old(self).selected_column,
            final(self).config == old(self).config,
            final(self).command_palette == old(self).command_palette,
            final(self).joiners.delete_joiner == old(self).joiners.delete_joiner,
            opens_dispatched(old(self).entries@, final(self).entries@),
            final(self).entries@.dom() == old(self).entries@.dom(),
            final(self).joiners.read_dir_joiner.pending@.len() >= old(self).joiners.read_dir_joiner.pending@.len(),
            final(self).joiners.read_dir_joiner.pending@.subrange(
                0,
                old(self).joiners.read_dir_joiner.pending@.len() as int,
            ) == old(self).joiners.read_dir_joiner.pending@,
            final(self).joiners.read_dir_joiner.pending@.len() <= old(self).joiners.read_dir_joiner.pending@.len() + 1,
            r <==> old(self).chain_path(old(self).config.required_columns as int) is Some,
            r ==> *final(self) == *old(self) && (forall|k: int|
                0 <= k < old(self).config.required_columns ==> old(self).chain_entry_exists(k)),
            final(self).entries@ == old(self).entries@ ==> final(self).joiners == old(self).joiners,
            final(self).entries@ != old(self).entries@ ==> (exists|d: int|
                #![trigger old(self).chain_path(d)]
                old(self).chain_path(d) matches Some(w) && old(self).selected_column <= d < old(self).config.required_columns && old(self).entries@.dom().contains(w) && old(self).entries@[w].ty is Unopened && final(self).entries@ == old(self).entries@.insert(
                    w,
                    waiting_of(old(self).entries@[w]),
                ) && final(self).joiners.read_dir_joiner.pending@.len() == old(self).joiners.read_dir_joiner.pending@.len() + 1 && final(self).joiners.read_dir_joiner.pending@.last()@ == w),
            (old(self).chain_entry_exists(old(self).selected_column as int) && old(self).chain_entry(old(self).selected_column as int).ty is Unopened) ==> (final(self).entries@ == old(self).entries@.insert(
                old(self).chain_path(old(self).selected_column as int)->Some_0,
                waiting_of(old(self).chain_entry(old(self).selected_column as int)),
            ) && final(self).joiners.read_dir_joiner.pending@.len() == old(self).joiners.read_dir_joiner.pending@.len() + 1 && final(self).joiners.read_dir_joiner.pending@.last()@ == old(self).chain_path(
                old(self).selected_column as int,
            )->Some_0),
            (old(self).chain_entry_exists(old(self).selected_column as int) && !(old(self).chain_entry(old(self).selected_column as int).ty is Unopened) && !(old(self).chain_entry(old(self).selected_column as int).ty is Opened)) ==> *final(self) == *old(self),
    {
        let depth_budget = self.config.required_columns - self.selected_column;
        let start = self.chain_path_at(self.selected_column);
        let mut cur: Path = match start {
            Some(p) => p,
            None => {
                proof {
                    self.lemma_chain_none(
                        self.selected_column as int,
                        self.config.required_columns as int,
                    );
                }
                return false;
            },
        };
        let mut step: usize = 0;
        while step < depth_budget
            invariant
                *self == *old(self),
                step <= depth_budget,
                depth_budget == self.config.required_columns - self.selected_column,
                self.chain_path(self.selected_column + step as int) == Some(cur@),
                forall|k: int| 0 <= k < self.selected_column + step ==> self.chain_entry_exists(k),
                step > 0 ==> self.chain_entry_exists(self.selected_column as int)
                    && self.chain_entry(self.selected_column as int).ty is Opened,
            decreases depth_budget - step,
        {
            match self.walk_step(&cur) {
                WalkStep::Missing => {
                    proof {
                        self.lemma_chain_missing(
                            self.selected_column + step as int,
                            self.config.required_columns as int,
                        );
                    }
                    return false;
                },
                WalkStep::Stop => {
                    proof {
                        self.lemma_chain_none(
                            self.selected_column + step + 1 as int,
                            self.config.required_columns as int,
                        );
                    }
                    return false;
                },
                WalkStep::Dispatch => {
                    let ghost d = self.selected_column + step as int;
                    proof {
                        self.lemma_chain_none(d + 1, self.config.required_columns as int);
                    }
                    let ghost pre = self.entries@;
                    let ghost cv = cur@;
                    let mut e = match self.entries.remove(&cur) {
                        Some(e) => e,
                        None => vstd::pervasive::unreached(),
                    };
                    e.try_open(&mut self.joiners.read_dir_joiner);
                    self.entries.insert(e);
                    proof {
                        assert(self.entries@ =~= pre.insert(cv, waiting_of(pre[cv])));
                        assert(self.entries@.dom() =~= pre.dom());
                        assert(self.entries@[cv].ty is Waiting);
                        assert(self.entries@ != pre);
                    }
                    return false;
                },
                WalkStep::Next(p) => {
                    cur = p;
                },
            }
            step = step + 1;
        }
        true
    }

    /// The first path on the chain from the selected column that has no
    /// cached entry yet: the child the walk would need next.  The layer
    /// around the crate looks such a path up on disk and caches it.
    pub fn next_unknown_path(&self) -> (r: Option<Path>)
        requires
            self.inv(),
        ensures
            match r {
                Some(p) => !self.entries@.dom().contains(p@) && (exists|d: int|
                    self.selected_column <= d
                        <= self.config.required_columns && #[trigger] self.chain_path(d) == Some(
                        p@,
                    )),
                None => forall|d: int|
                    self.selected_column <= d <= self.config.required_columns ==> !(
                    #[trigger] self.chain_path(d) matches Some(p)
                        && !self.entries@.dom().contains(p)),
            },
    {
        let depth_budget = self.config.required_columns - self.selected_column;
        let mut cur: Path = match self.chain_path_at(self.selected_column) {
            Some(p) => p,
            None => {
                proof {
                    assert forall|d: int|
                        self.selected_column <= d <= self.config.required_columns implies !(
                        #[trigger] self.chain_path(d) matches Some(p)
                            && !self.entries@.dom().contains(p)) by {
                        if d > self.selected_column {
                            self.lemma_chain_none(self.selected_column as int, d);
                        }
                    }
                }
                return None;
            },
        };
        let mut step: usize = 0;
        while step <= depth_budget
            invariant
                step <= depth_budget + 1,
                depth_budget == self.config.required_columns - self.selected_column,
                self.chain_path(self.selected_column + step as int) == Some(cur@),
                forall|d: int|
                    self.selected_column <= d < self.selected_column + step ==> !(
                    #[trigger] self.chain_path(d) matches Some(p)
                        && !self.entries@.dom().contains(p)),
            decreases depth_budget + 1 - step,
        {
            match self.walk_step(&cur) {
                WalkStep::Missing => {
                    return Some(cur);
                },
                WalkStep::Next(p) => {
                    if step == depth_budget {
                        return None;
                    }
                    cur = p;
                },
                _ => {
                    proof {
                        let here = self.selected_column + step as int;
                        assert forall|d: int|
                            self.selected_column <= d <= self.config.required_columns implies !(
                            #[trigger] self.chain_path(d) matches Some(p)
                                && !self.entries@.dom().contains(p)) by {
                            if d > here {
                                self.lemma_chain_none(here + 1, d);
                            }
                        }
                    }
                    return None;
                },
            }
            step = step + 1;
        }
        None
    }

    /// The path the window slides to when the view moves right: the first
    /// visible column's selected child.  Requests further listings along the
    /// chain when it answers.
    fn get_next_visible_column(&mut self) -> (r: Option<Path>)
        requires
            old(self).inv(),
            old(self).chain_path(1) matches Some(p) ==> old(self).entries@.dom().contains(p),
        ensures
            final(self).inv(),
            final(self).first_visible_column == old(self).first_visible_column,
            final(self).selected_column == old(self).selected_column,
            final(self).config == old(self).config,
            final(self).command_palette == old(self).command_palette,
            final(self).joiners.delete_joiner == old(self).joiners.delete_joiner,
            opens_dispatched(old(self).entries@, final(self).entries@),
            final(self).entries@.dom() == old(self).entries@.dom(),
            old(self).has_first() ==> final(self).has_first(),
            final(self).joiners.read_dir_joiner.pending@.len() <= old(self).joiners.read_dir_joiner.pending@.len() + 1,
            final(self).joiners.read_dir_joiner.pending@.subrange(
                0,
                old(self).joiners.read_dir_joiner.pending@.len() as int,
            ) == old(self).joiners.read_dir_joiner.pending@,
            final(self).entries@ == old(self).entries@ ==> final(self).joiners == old(self).joiners,
            final(self).entries@ != old(self).entries@ ==> (exists|d: int|
                #![trigger old(self).chain_path(d)]
                old(self).chain_path(d) matches Some(w) && 0 <= d < old(self).config.required_columns && old(self).entries@.dom().contains(w) && old(self).entries@[w].ty is Unopened && final(self).entries@ == old(self).entries@.insert(
                    w,
                    waiting_of(old(self).entries@[w]),
                ) && final(self).joiners.read_dir_joiner.pending@.len() == old(self).joiners.read_dir_joiner.pending@.len() + 1 && final(self).joiners.read_dir_joiner.pending@.last()@ == w),
            match r {
                Some(p) => old(self).chain_path(1) == Some(p@),
                None => old(self).chain_path(1) is None,
            },
    {
        let first = match self.chain_path_at(0) {
            Some(p) => p,
            None => vstd::pervasive::unreached(),
        };
        match self.walk_step(&first) {
            WalkStep::Next(next_path) => {
                self.try_open_selected_path();
                Some(next_path)
            },
            WalkStep::Dispatch => {
                // The chain said this column was opened; being here means it
                // is not.  Request its listing anyway and report no slide.
                let ghost pre = self.entries@;
                let ghost cv = first@;
                let mut e = match self.entries.remove(&first) {
                    Some(e) => e,
                    None => vstd::pervasive::unreached(),
                };
                e.try_open(&mut self.joiners.read_dir_joiner);
                self.entries.insert(e);
                proof {
                    assert(self.entries@ =~= pre.insert(cv, waiting_of(pre[cv])));
                    assert(self.entries@.dom() =~= pre.dom());
                    assert(self.entries@[cv].ty is Waiting);
                    assert(self.entries@ != pre);
                    assert(old(self).chain_path(0) == Some(cv));
                }
                None
            },
            _ => None,
        }
    }

    /// Moves the view one step to the right.  When more columns are known
    /// than shown, the window slides by one.  Otherwise the cursor advances
    /// while a known column lies to its right — onto a column that can never
    /// open (a file, an empty or unreadable directory, a tombstone) only
    /// while the window has room — and the listings the chain still lacks are
    /// requested.  True when the view changed.
    pub fn move_right(&mut self) -> (r: bool)
        requires
            old(self).inv(),
            old(self).has_first(),
        ensures
            final(self).inv(),
            final(self).has_first(),
            final(self).config == old(self).config,
            final(self).command_palette == old(self).command_palette,
            final(self).joiners.delete_joiner == old(self).joiners.delete_joiner,
            opens_dispatched(old(self).entries@, final(self).entries@),
            final(self).entries@.dom() == old(self).entries@.dom(),
            final(self).joiners.read_dir_joiner.pending@.len() <= old(self).joiners.read_dir_joiner.pending@.len() + 1,
            final(self).joiners.read_dir_joiner.pending@.subrange(
                0,
                old(self).joiners.read_dir_joiner.pending@.len() as int,
            ) == old(self).joiners.read_dir_joiner.pending@,
            final(self).entries@ == old(self).entries@ ==> final(self).joiners == old(self).joiners,
            final(self).entries@ != old(self).entries@ ==> (exists|d: int|
                #![trigger old(self).chain_path(d)]
                old(self).chain_path(d) matches Some(w) && 0 <= d < old(self).config.required_columns && old(self).entries@.dom().contains(w) && old(self).entries@[w].ty is Unopened && final(self).entries@ == old(self).entries@.insert(
                    w,
                    waiting_of(old(self).entries@[w]),
                ) && final(self).joiners.read_dir_joiner.pending@.len() == old(self).joiners.read_dir_joiner.pending@.len() + 1 && final(self).joiners.read_dir_joiner.pending@.last()@ == w),
            move_right_rel(*old(self), *final(self), r),
            old(self).chain_entry_exists(old(self).config.required_columns as int) ==> (r && final(self).selected_column == old(self).selected_column && old(self).chain_path(1) == Some(
                final(self).first_visible_column@,
            )),
            !old(self).chain_entry_exists(old(self).config.required_columns as int) ==> final(self).first_visible_column == old(self).first_visible_column && (if old(self).chain_ok_upto(
                old(self).selected_column + 2,
            ) {
                r && final(self).selected_column == old(self).selected_column + 1
            } else {
                if old(self).chain_entry_exists(old(self).selected_column + 1) && entry_is_terminal(
                    old(self).chain_entry(old(self).selected_column + 1),
                ) && old(self).selected_column + 1 < old(self).config.required_columns {
                    r && final(self).selected_column == old(self).selected_column + 1
                } else {
                    !r && final(self).selected_column == old(self).selected_column
                }
            }),
    {
        let ghost pre = *self;
        let required = self.config.required_columns;
        let outcome: Result<(), (bool, usize)> = match self.entry_at_depth(required) {
            Ok(_) => Ok(()),
            Err((e, stop)) => {
                let terminal = match &e.ty {
                    EntryType::File => true,
                    EntryType::PermissionDenied => true,
                    EntryType::Deleting => true,
                    EntryType::Opened(o) => o.entries.len() == 0,
                    _ => false,
                };
                Err((terminal, stop))
            },
        };
        match outcome {
            Ok(_) => {
                proof {
                    pre.lemma_chain_prefix(1, required as int);
                }
                match self.get_next_visible_column() {
                    Some(next_start) => {
                        self.first_visible_column = next_start;
                        proof {
                            if required >= 2 {
                                pre.lemma_chain_prefix(1, required as int);
                            }
                        }
                        true
                    },
                    None => {
                        proof {
                            assert(false);
                        }
                        false
                    },
                }
            },
            Err((terminal, stop)) => {
                proof {
                    if stop < required {
                        pre.lemma_chain_missing(stop as int, required as int);
                    }
                    if stop > self.selected_column + 1 {
                        assert(pre.chain_entry_exists(pre.selected_column + 1)) by {
                            pre.lemma_chain_prefix(
                                pre.selected_column + 1,
                                stop - 1,
                            );
                        }
                    }
                    if stop < self.selected_column + 1 {
                        pre.lemma_chain_missing(stop as int, pre.selected_column + 1);
                    }
                    if stop == pre.selected_column + 2 {
                        assert(pre.entries@[pre.chain_path(stop - 1)->Some_0].wf());
                    }
                    if stop > self.selected_column + 2 {
                        assert forall|k: int| 0 <= k <= pre.selected_column + 2 implies
                            pre.chain_entry_exists(k) by {
                            if k < stop - 1 {
                                pre.lemma_chain_prefix(k, stop - 1);
                            }
                        }
                    } else {
                        assert(!pre.chain_ok_upto(pre.selected_column + 2)) by {
                            assert(!pre.chain_entry_exists(stop as int));
                        }
                    }
                }
                self.try_open_selected_path();
                if stop > self.selected_column && stop - self.selected_column > 2 {
                    self.selected_column = self.selected_column + 1;
                    true
                } else if terminal && stop > self.selected_column && stop - self.selected_column
                    > 1 && self.selected_column + 1 < required {
                    proof {
                        assert(stop == pre.selected_column + 2);
                        assert(pre.chain_entry(pre.selected_column + 1) == pre.chain_entry(
                            stop - 1,
                        ));
                    }
                    self.selected_column = self.selected_column + 1;
                    true
                } else {
                    false
                }
            },
        }
    }

    /// Moves the view one step to the left: steps the cursor back while it is
    /// not on the first column, otherwise makes the parent of the first
    /// visible column the new first column, remembering the old first column
    /// as the child to highlight.  True when the view changed.
    pub fn move_left(&mut self) -> (r: bool)
        requires
            old(self).inv(),
        ensures
            final(self).inv(),
            final(self).config == old(self).config,
            final(self).command_palette == old(self).command_palette,
            final(self).joiners.delete_joiner == old(self).joiners.delete_joiner,
            old(self).has_first() ==> final(self).has_first(),
            move_left_rel(*old(self), *final(self), r),
            old(self).selected_column > 0 ==> (r && final(self).selected_column == old(self).selected_column - 1 && final(self).first_visible_column == old(self).first_visible_column && final(self).entries@ == old(self).entries@ && final(self).joiners == old(self).joiners),
            forall|q: Seq<char>|
                #![auto]
                (old(self).entries@.dom().contains(q) && old(self).entries@[q].ty is Opened) ==> (
                final(self).entries@.dom().contains(q) && final(self).entries@[q].path == old(self).entries@[q].path && final(self).entries@[q].ty is Opened && final(self).entries@[q].ty->Opened_0.entries@ == old(self).entries@[q].ty->Opened_0.entries@
                    && final(self).entries@[q].ty->Opened_0.config == old(self).entries@[q].ty->Opened_0.config),
            forall|q: Seq<char>|
                #![auto]
                (old(self).entries@.dom().contains(q) && !(old(self).entries@[q].ty is Opened) && !(
                old(self).entries@[q].ty is Unopened)) ==> final(self).entries@.dom().contains(q)
                    && final(self).entries@[q] == old(self).entries@[q],
            forall|q: Seq<char>|
                #![auto]
                (!old(self).entries@.dom().contains(q) && final(self).entries@.dom().contains(q))
                    ==> (final(self).entries@[q].ty is Unopened || final(self).entries@[q].ty
                    is Waiting),
            forall|q: Seq<char>|
                #![auto]
                old(self).entries@.dom().contains(q) ==> final(self).entries@.dom().contains(q),
            old(self).selected_column == 0 && parent_seq(old(self).first_visible_column@)
                is None ==> (!r && *final(self) == *old(self)),
            old(self).selected_column == 0 ==> (parent_seq(old(self).first_visible_column@)
                matches Some(pp) ==> (r && final(self).selected_column == 0 && final(self).first_visible_column@ == pp && final(self).entries@.dom().contains(pp) && final(self).has_first() && (!old(self).entries@.dom().contains(pp) ==> (final(self).entries@[pp].ty matches EntryType::Waiting(u) && u.select_on_open matches Some(h)
                && h@ == old(self).first_visible_column@)) && (old(self).entries@.dom().contains(pp)
                && old(self).entries@[pp].ty is Unopened ==> final(self).entries@[pp]
                == waiting_of(old(self).entries@[pp])))),
            old(self).selected_column == 0 ==> (parent_seq(old(self).first_visible_column@)
                matches Some(pp) ==> ((old(self).entries@.dom().contains(pp) && old(self).entries@[pp].ty is Opened && path_views(
                old(self).entries@[pp].ty->Opened_0.entries@,
            ).contains(old(self).first_visible_column@)) ==> (final(self).entries@[pp].ty is Opened
                && final(self).entries@[pp].ty->Opened_0.selected is Some && final(self).entries@[pp].ty->Opened_0.sel_path_view() == old(self).first_visible_column@))),
    {
        if self.selected_column > 0 {
            self.selected_column = self.selected_column - 1;
            return true;
        }
        let parent_path = match self.first_visible_column.parent() {
            Some(p) => p,
            None => {
                return false;
            },
        };
        let ghost ppv = parent_path@;
        let ghost pre = *self;
        let old_first = self.first_visible_column.clone();
        self.create_entry_if_not_exists(parent_path.clone(), Some(old_first.clone()), true);
        self.first_visible_column = parent_path;
        proof {
            assert(self.chain_path(0) == Some(ppv));
            assert(self.chain_entry_exists(0));
        }
        let ghost mid = *self;
        self.try_open_selected_path();
        proof {
            if !pre.entries@.dom().contains(ppv) {
                assert(mid.chain_entry(0).ty matches EntryType::Unopened(u) && u.select_on_open
                    matches Some(h) && h@ == pre.first_visible_column@);
                assert(self.entries@[ppv] == waiting_of(mid.entries@[ppv]));
            }
            if pre.entries@.dom().contains(ppv) && pre.entries@[ppv].ty is Unopened {
                assert(mid.entries@ == pre.entries@);
                assert(self.entries@[ppv] == waiting_of(pre.entries@[ppv]));
            }
        }
        if self.parent_is_opened() {
            self.reselect_in_first(&old_first);
        }
        true
    }

    /// True when the first visible column's entry is an opened directory.
    fn parent_is_opened(&self) -> (r: bool)
        ensures
            r <==> (self.entries@.dom().contains(self.first_visible_column@)
                && self.entries@[self.first_visible_column@].ty is Opened),
    {
        match self.entries.get(&self.first_visible_column) {
            Some(e) => e.is_opened(),
            None => false,
        }
    }

    /// Restores `child` as the selection of the first visible column, when
    /// that column is opened and lists it.
    fn reselect_in_first(&mut self, child: &Path)
        requires
            old(self).inv(),
            old(self).entries@.dom().contains(old(self).first_visible_column@),
            old(self).entries@[old(self).first_visible_column@].ty is Opened,
        ensures
            final(self).inv(),
            final(self).first_visible_column == old(self).first_visible_column,
            final(self).selected_column == old(self).selected_column,
            final(self).config == old(self).config,
            final(self).command_palette == old(self).command_palette,
            final(self).joiners == old(self).joiners,
            final(self).entries@.dom() == old(self).entries@.dom(),
            final(self).has_first(),
            forall|q: Seq<char>|
                q != old(self).first_visible_column@ && old(self).entries@.dom().contains(q)
                    ==> final(self).entries@[q] == old(self).entries@[q],
            final(self).entries@[old(self).first_visible_column@].path == old(self).entries@[old(self).first_visible_column@].path,
            final(self).entries@[old(self).first_visible_column@].ty is Opened,
            final(self).entries@[old(self).first_visible_column@].ty->Opened_0.entries@ == old(self).entries@[old(self).first_visible_column@].ty->Opened_0.entries@,
            final(self).entries@[old(self).first_visible_column@].ty->Opened_0.config == old(self).entries@[old(self).first_visible_column@].ty->Opened_0.config,
            path_views(
                old(self).entries@[old(self).first_visible_column@].ty->Opened_0.entries@,
            ).contains(child@) ==> (final(self).entries@[old(self).first_visible_column@].ty->Opened_0.selected is Some && final(self).entries@[old(self).first_visible_column@].ty->Opened_0.sel_path_view() == child@),
    {
        let ghost pre = self.entries@;
        let mut e = match self.entries.remove(&self.first_visible_column) {
            Some(e) => e,
            None => vstd::pervasive::unreached(),
        };
        match &mut e.ty {
            EntryType::Opened(o) => {
                o.set_selected_entry(child);
            },
            _ => {
                proof {
                    assert(false);
                }
            },
        }
        self.entries.insert(e);
        proof {
            assert(self.entries@.dom() =~= pre.dom());
        }
    }
}

impl State {
    /// Drops the cached entries for `start` and, transitively, for every
    /// child listed by a dropped opened directory.
    fn remove_descendants(&mut self, start: Vec<Path>)
        requires
            old(self).inv(),
        ensures
            final(self).inv(),
            final(self).first_visible_column == old(self).first_visible_column,
            final(self).selected_column == old(self).selected_column,
            final(self).config == old(self).config,
            final(self).command_palette == old(self).command_palette,
            final(self).joiners == old(self).joiners,
            forall|q: Seq<char>|
                #![trigger final(self).entries@.dom().contains(q)]
                final(self).entries@.dom().contains(q) ==> old(self).entries@.dom().contains(q)
                    && final(self).entries@[q] == old(self).entries@[q],
            forall|j: int|
                0 <= j < start@.len() ==> !final(self).entries@.dom().contains(
                    (#[trigger] start@[j])@,
                ),
            forall|q: Seq<char>, i: int|
                #![trigger old(self).entries@[q].ty->Opened_0.entries@[i]]
                (old(self).entries@.dom().contains(q) && !final(self).entries@.dom().contains(q)
                    && old(self).entries@[q].ty is Opened && 0 <= i < old(self).entries@[q].ty->Opened_0.entries@.len()) ==> !final(self).entries@.dom().contains(old(self).entries@[q].ty->Opened_0.entries@[i]@),
    {
        broadcast use vstd::set::group_set_axioms;
        broadcast use vstd::map::group_map_axioms;

        let ghost start0 = start@;
        let mut worklist = start;
        proof {
            assert forall|j: int| 0 <= j < start0.len() implies path_views(worklist@).contains(
                (#[trigger] start0[j])@,
            ) by {
                assert(path_views(worklist@)[j] == start0[j]@);
            }
        }
        while worklist.len() > 0
            invariant
                self.inv(),
                self.first_visible_column == old(self).first_visible_column,
                self.selected_column == old(self).selected_column,
                self.config == old(self).config,
                self.command_palette == old(self).command_palette,
                self.joiners == old(self).joiners,
                forall|q: Seq<char>|
                    #![trigger self.entries@.dom().contains(q)]
                    self.entries@.dom().contains(q) ==> old(self).entries@.dom().contains(q)
                        && self.entries@[q] == old(self).entries@[q],
                forall|j: int|
                    0 <= j < start0.len() ==> !self.entries@.dom().contains(
                        (#[trigger] start0[j])@,
                    ) || path_views(worklist@).contains(start0[j]@),
                forall|q: Seq<char>, i: int|
                    #![trigger old(self).entries@[q].ty->Opened_0.entries@[i]]
                    (old(self).entries@.dom().contains(q) && !self.entries@.dom().contains(q)
                        && old(self).entries@[q].ty is Opened && 0 <= i < old(self).entries@[q].ty->Opened_0.entries@.len()) ==> (!self.entries@.dom().contains(
                        old(self).entries@[q].ty->Opened_0.entries@[i]@,
                    ) || path_views(worklist@).contains(
                        old(self).entries@[q].ty->Opened_0.entries@[i]@,
                    )),
            decreases self.entries@.dom().len(), worklist@.len(),
        {
            let ghost wl0 = worklist@;
            let p = match worklist.pop() {
                Some(p) => p,
                None => vstd::pervasive::unreached(),
            };
            let ghost pv = p@;
            let ghost mid0 = self.entries@;
            let removed = self.entries.remove(&p);
            match removed {
                Some(e) => {
                    match e.ty {
                        EntryType::Opened(o) => {
                            let mut children = o.entries;
                            let ghost cs = children@;
                            worklist.append(&mut children);
                            proof {
                                lemma_views_keep_others(wl0, worklist@, cs, pv);
                                assert(forall|i: int|
                                    0 <= i < cs.len() ==> path_views(worklist@).contains(
                                        (#[trigger] cs[i])@,
                                    )) by {
                                    assert(forall|i: int|
                                        0 <= i < cs.len() ==> path_views(worklist@)[wl0.len() - 1
                                            + i] == (#[trigger] cs[i])@);
                                }
                            }
                        },
                        _ => {
                            proof {
                                lemma_views_keep_others(wl0, worklist@, Seq::empty(), pv);
                                assert(worklist@ =~= wl0.drop_last() + Seq::<Path>::empty());
                            }
                        },
                    }
                },
                None => {
                    proof {
                        assert(self.entries@ =~= mid0);
                        lemma_views_keep_others(wl0, worklist@, Seq::empty(), pv);
                        assert(worklist@ =~= wl0.drop_last() + Seq::<Path>::empty());
                    }
                },
            }
        }
    }

    /// Replaces the cached entry for `path` with a deletion tombstone and
    /// drops every cached descendant; reports whether anything was cached.
    pub fn deleting_path_entry(&mut self, path: Path) -> (r: bool)
        requires
            old(self).inv(),
        ensures
            final(self).inv(),
            final(self).first_visible_column == old(self).first_visible_column,
            final(self).selected_column == old(self).selected_column,
            final(self).config == old(self).config,
            final(self).command_palette == old(self).command_palette,
            final(self).joiners == old(self).joiners,
            r == old(self).entries@.dom().contains(path@),
            !r ==> final(self).entries@ == old(self).entries@,
            r ==> final(self).entries@.dom().contains(path@) && final(self).entries@[path@].ty
                is Deleting && final(self).entries@[path@].path@ == path@,
            forall|q: Seq<char>|
                q != path@ && final(self).entries@.dom().contains(q) ==> old(self).entries@.dom().contains(q) && final(self).entries@[q] == old(self).entries@[q],
            (r && old(self).entries@[path@].ty is Opened) ==> (forall|i: int|
                #![trigger old(self).entries@[path@].ty->Opened_0.entries@[i]]
                0 <= i < old(self).entries@[path@].ty->Opened_0.entries@.len() && old(self).entries@[path@].ty->Opened_0.entries@[i]@ != path@ ==> !final(self).entries@.dom().contains(old(self).entries@[path@].ty->Opened_0.entries@[i]@)),
            forall|q: Seq<char>, i: int|
                #![trigger old(self).entries@[q].ty->Opened_0.entries@[i]]
                (q != path@ && old(self).entries@.dom().contains(q) && !final(self).entries@.dom().contains(q) && old(self).entries@[q].ty is Opened && 0 <= i < old(self).entries@[q].ty->Opened_0.entries@.len() && old(self).entries@[q].ty->Opened_0.entries@[i]@ != path@) ==> !final(self).entries@.dom().contains(old(self).entries@[q].ty->Opened_0.entries@[i]@),
    {
        let ghost pv = path@;
        match self.entries.remove(&path) {
            None => {
                proof {
                    assert(self.entries@ =~= old(self).entries@);
                }
                false
            },
            Some(e) => {
                let children: Vec<Path> = match e.ty {
                    EntryType::Opened(o) => o.entries,
                    _ => Vec::new(),
                };
                let ghost cs = children@;
                let ghost mid0 = self.entries@;
                self.remove_descendants(children);
                let ghost mid1 = self.entries@;
                self.entries.insert(Entry::deleting(path));
                proof {
                    assert forall|i: int|
                        0 <= i < cs.len() && (#[trigger] cs[i])@ != pv implies !self.entries@.dom().contains(cs[i]@) by {
                        assert(!mid1.dom().contains(cs[i]@));
                    }
                    assert forall|q: Seq<char>, i: int|
                        #![trigger old(self).entries@[q].ty->Opened_0.entries@[i]]
                        (q != pv && old(self).entries@.dom().contains(q)
                            && !self.entries@.dom().contains(q) && old(self).entries@[q].ty
                            is Opened && 0 <= i < old(self).entries@[q].ty->Opened_0.entries@.len()
                            && old(self).entries@[q].ty->Opened_0.entries@[i]@
                            != pv) implies !self.entries@.dom().contains(
                        old(self).entries@[q].ty->Opened_0.entries@[i]@,
                    ) by {
                        assert(mid0.dom().contains(q));
                        assert(mid0[q] == old(self).entries@[q]);
                        assert(!mid1.dom().contains(q));
                        assert(mid0[q].ty->Opened_0.entries@[i]
                            == old(self).entries@[q].ty->Opened_0.entries@[i]);
                        assert(!mid1.dom().contains(mid0[q].ty->Opened_0.entries@[i]@));
                    }
                }
                true
            },
        }
    }

    /// Applies a confirmed deletion to the cache: drops the entry for `path`
    /// and its cached descendants, then repairs the parent's listing.  A
    /// dropped path can only reappear as an unlisted directory, through the
    /// leftward shift that an emptied parent triggers.
    pub fn delete_path_entry(&mut self, path: Path)
        requires
            old(self).inv(),
        ensures
            final(self).inv(),
            final(self).config == old(self).config,
            final(self).command_palette == old(self).command_palette,
            final(self).joiners.delete_joiner == old(self).joiners.delete_joiner,
            !old(self).entries@.dom().contains(path@) ==> state_equiv(*final(self), *old(self)),
            !final(self).entries@.dom().contains(path@) || final(self).entries@[path@].ty
                is Unopened || final(self).entries@[path@].ty is Waiting || (!old(self).entries@.dom().contains(path@) && final(self).entries@[path@] == old(self).entries@[path@]),
            (old(self).entries@.dom().contains(path@) && old(self).entries@[path@].ty is Opened)
                ==> (forall|i: int|
                #![trigger old(self).entries@[path@].ty->Opened_0.entries@[i]]
                0 <= i < old(self).entries@[path@].ty->Opened_0.entries@.len() ==> (!final(self).entries@.dom().contains(old(self).entries@[path@].ty->Opened_0.entries@[i]@)
                    || final(self).entries@[old(self).entries@[path@].ty->Opened_0.entries@[i]@].ty
                    is Unopened || final(self).entries@[old(self).entries@[path@].ty->Opened_0.entries@[i]@].ty is Waiting)),
            forall|q: Seq<char>, i: int|
                #![trigger old(self).entries@[q].ty->Opened_0.entries@[i]]
                (q != path@ && old(self).entries@.dom().contains(q) && !final(self).entries@.dom().contains(q) && old(self).entries@[q].ty is Opened && 0 <= i < old(self).entries@[q].ty->Opened_0.entries@.len()) ==> (!final(self).entries@.dom().contains(
                    old(self).entries@[q].ty->Opened_0.entries@[i]@,
                ) || final(self).entries@[old(self).entries@[q].ty->Opened_0.entries@[i]@].ty
                    is Unopened || final(self).entries@[old(self).entries@[q].ty->Opened_0.entries@[i]@].ty is Waiting),
            old(self).entries@.dom().contains(path@) ==> parent_repaired(
                *old(self),
                *final(self),
                path@,
            ),
    {
        match self.entries.remove(&path) {
            None => {
                proof {
                    assert(self.entries@ =~= old(self).entries@);
                }
            },
            Some(e) => {
                let children: Vec<Path> = match e.ty {
                    EntryType::Opened(o) => o.entries,
                    _ => Vec::new(),
                };
                let ghost cs = children@;
                let ghost mid0 = *self;
                self.remove_descendants(children);
                let ghost mid1 = *self;
                self.delete_path_entry_from_parent(&path);
                proof {
                    crate::path::lemma_parent_shorter(path@);
                    assert(!mid1.entries@.dom().contains(path@));
                    assert forall|i: int|
                        0 <= i < cs.len() implies !mid1.entries@.dom().contains(
                        (#[trigger] cs[i])@,
                    ) by {}
                    assert forall|q: Seq<char>, i: int|
                        #![trigger old(self).entries@[q].ty->Opened_0.entries@[i]]
                        (q != path@ && old(self).entries@.dom().contains(q)
                            && !mid1.entries@.dom().contains(q) && old(self).entries@[q].ty
                            is Opened && 0 <= i < old(self).entries@[q].ty->Opened_0.entries@.len()) implies !mid1.entries@.dom().contains(
                        old(self).entries@[q].ty->Opened_0.entries@[i]@,
                    ) by {
                        assert(mid0.entries@.dom().contains(q));
                        assert(mid0.entries@[q] == old(self).entries@[q]);
                        assert(mid0.entries@[q].ty->Opened_0.entries@[i]
                            == old(self).entries@[q].ty->Opened_0.entries@[i]);
                        assert(!mid1.entries@.dom().contains(
                            mid0.entries@[q].ty->Opened_0.entries@[i]@,
                        ));
                    }
                    assert(parent_repaired(*old(self), *self, path@)) by {
                        if parent_seq(path@) is Some {
                            let ppv = parent_seq(path@)->Some_0;
                            if old(self).entries@.dom().contains(ppv) && old(self).entries@[ppv].ty is Opened && path_views(
                                old(self).entries@[ppv].ty->Opened_0.entries@,
                            ).contains(path@) && self.entries@.dom().contains(ppv)
                                && self.entries@[ppv].ty is Opened {
                                assert(ppv != path@);
                                if !mid1.entries@.dom().contains(ppv) {
                                    assert(!mid1.parent_fixable(path@));
                                    assert(false);
                                }
                                assert(mid1.entries@[ppv] == old(self).entries@[ppv]);
                                assert(mid1.parent_fixable(path@));
                                assert forall|i: int|
                                    #![trigger old(self).entries@[ppv].ty->Opened_0.entries@[i]]
                                    (0 <= i < old(self).entries@[ppv].ty->Opened_0.entries@.len()
                                        && old(self).entries@[ppv].ty->Opened_0.entries@[i]@
                                        == path@) implies (0 <= i
                                    < mid1.entries@[ppv].ty->Opened_0.entries@.len()
                                    && mid1.entries@[ppv].ty->Opened_0.entries@[i]@ == path@
                                    && mid1.entries@[ppv].ty->Opened_0.entries@[i]
                                    == old(self).entries@[ppv].ty->Opened_0.entries@[i]) by {
                                }
                            }
                        }
                    }
                }
            },
        }
    }

    /// A parent whose listing can drop `path`: a cached, opened directory
    /// that lists it.
    pub open spec fn parent_fixable(self, path: Seq<char>) -> bool {
        &&& parent_seq(path) matches Some(pp)
        &&& self.entries@.dom().contains(parent_seq(path)->Some_0)
        &&& self.entries@[parent_seq(path)->Some_0].ty is Opened
        &&& path_views(self.entries@[parent_seq(path)->Some_0].ty->Opened_0.entries@).contains(
            path,
        )
    }

    /// Removes `path` from its parent's listing.  Emptying the parent clears
    /// its selection and shifts the view one column to the left; removing the
    /// selected child moves the selection to the child now holding its
    /// position, wrapping to the first.
    pub fn delete_path_entry_from_parent(&mut self, path: &Path)
        requires
            old(self).inv(),
        ensures
            final(self).inv(),
            final(self).config == old(self).config,
            final(self).command_palette == old(self).command_palette,
            final(self).joiners.delete_joiner == old(self).joiners.delete_joiner,
            old(self).has_first() ==> final(self).has_first(),
            forall|q: Seq<char>|
                #![auto]
                (old(self).entries@.dom().contains(q) && !(old(self).entries@[q].ty is Opened) && !(
                old(self).entries@[q].ty is Unopened)) ==> final(self).entries@.dom().contains(q)
                    && final(self).entries@[q] == old(self).entries@[q],
            forall|q: Seq<char>|
                #![auto]
                (!old(self).entries@.dom().contains(q) && final(self).entries@.dom().contains(q))
                    ==> (final(self).entries@[q].ty is Unopened || final(self).entries@[q].ty
                    is Waiting),
            forall|q: Seq<char>|
                #![auto]
                old(self).entries@.dom().contains(q) ==> final(self).entries@.dom().contains(q),
            !old(self).parent_fixable(path@) ==> state_equiv(*final(self), *old(self)),
            old(self).parent_fixable(path@) ==> (forall|i: int|
                #![trigger old(self).entries@[parent_seq(path@)->Some_0].ty->Opened_0.entries@[i]]
                {
                    let pp = parent_seq(path@)->Some_0;
                    let o = old(self).entries@[pp].ty->Opened_0;
                    (0 <= i < o.entries@.len() && o.entries@[i]@ == path@) ==> {
                        &&& final(self).entries@.dom().contains(pp)
                        &&& final(self).entries@[pp].ty is Opened
                        &&& {
                            let no = final(self).entries@[pp].ty->Opened_0;
                            &&& path_views(no.entries@) == path_views(o.entries@).remove(i)
                            &&& no.config == o.config
                            &&& (o.entries@.len() == 1 ==> no.selected is None && (old(self).selected_column > 0 ==> final(self).selected_column == old(self).selected_column - 1 && final(self).first_visible_column == old(self).first_visible_column) && (old(self).selected_column == 0 ==> final(self).selected_column == 0 && (parent_seq(
                                old(self).first_visible_column@,
                            ) matches Some(gp) ==> final(self).first_visible_column@ == gp) && (
                            parent_seq(old(self).first_visible_column@) is None ==> final(self).first_visible_column == old(self).first_visible_column)))
                            &&& (o.entries@.len() > 1 ==> no.selected is Some && final(self).selected_column == old(self).selected_column && final(self).first_visible_column == old(self).first_visible_column)
                            &&& (o.entries@.len() > 1 && o.selected is Some
                                && o.sel_path_view() == path@ ==> no.sel_offset() == 0
                                && no.sel_path_view() == (if i + 1 < o.entries@.len() {
                                o.entries@[i + 1]@
                            } else {
                                o.entries@[0]@
                            }))
                            &&& (o.entries@.len() > 1 && o.selected is Some
                                && o.sel_path_view() != path@ ==> no.sel_path_view()
                                == o.sel_path_view())
                        }
                    }
                }),
    {
        let pp = match path.parent() {
            Some(p) => p,
            None => {
                return ;
            },
        };
        let ghost ppv = pp@;
        let ghost pre = *self;
        let mut e = match self.entries.remove(&pp) {
            Some(e) => e,
            None => {
                proof {
                    assert(self.entries@ =~= pre.entries@);
                }
                return ;
            },
        };
        let mut emptied = false;
        let mut changed = false;
        match &mut e.ty {
            EntryType::Opened(o) => {
                match crate::entry::find_view_index(&o.entries, path) {
                    Some(i) => {
                        proof {
                            crate::entry::lemma_unique_view_index(o.entries@, i as int);
                            assert(path_views(o.entries@)[i as int] == o.entries@[i as int]@);
                        }
                        let ghost oldo = *o;
                        let removed = o.entries.remove(i);
                        changed = true;
                        proof {
                            lemma_views_remove(oldo.entries@, i as int);
                            lemma_sorted_remove(oldo.entries@, i as int);
                            lemma_no_dup_remove(path_views(oldo.entries@), i as int);
                        }
                        if o.entries.len() == 0 {
                            o.selected = None;
                            emptied = true;
                        } else {
                            let was_sel = match &o.selected {
                                Some(s) => s.path == removed,
                                None => false,
                            };
                            if was_sel {
                                let next_idx = if i < o.entries.len() {
                                    i
                                } else {
                                    0
                                };
                                o.set_selected(next_idx, 0);
                                proof {
                                    assert(path_views(o.entries@)[next_idx as int]
                                        == o.entries@[next_idx as int]@);
                                }
                            } else {
                                match o.selected_entry_idx_and_offset() {
                                    Some((si, off)) => {
                                        if off >= o.entries.len() {
                                            o.set_selected(si, o.entries.len() - 1);
                                        }
                                        proof {
                                            assert(path_views(o.entries@)[si as int]
                                                == o.entries@[si as int]@);
                                        }
                                    },
                                    None => {
                                        proof {
                                            let sel = o.selected->Some_0;
                                            let w = choose|w: int|
                                                0 <= w < oldo.entries@.len()
                                                    && oldo.entries@[w]@ == sel.path@;
                                            assert(path_views(oldo.entries@)[w] == sel.path@);
                                            assert(path_views(oldo.entries@).remove(i as int)
                                                =~= path_views(o.entries@));
                                            if w < i {
                                                assert(path_views(o.entries@)[w] == sel.path@);
                                            } else {
                                                assert(w > i);
                                                assert(path_views(o.entries@)[w - 1] == sel.path@);
                                            }
                                            assert(false);
                                        }
                                    },
                                }
                            }
                        }
                    },
                    None => {},
                }
            },
            _ => {},
        }
        self.entries.insert(e);
        proof {
            assert(self.entries@.dom() =~= pre.entries@.dom());
            if !changed {
                assert(self.entries@ =~= pre.entries@);
            }
        }
        if emptied {
            self.move_left();
        }
    }

    /// Requests the removal of `path` from disk and applies it to the cache
    /// at once: the entry becomes a tombstone, its cached descendants are
    /// dropped, and the parent's listing no longer shows it.
    pub fn delete_path(&mut self, path: Path)
        requires
            old(self).inv(),
        ensures
            final(self).inv(),
            final(self).config == old(self).config,
            final(self).command_palette == old(self).command_palette,
            final(self).joiners.delete_joiner.pending@.len() == old(self).joiners.delete_joiner.pending@.len() + 1,
            final(self).joiners.delete_joiner.pending@.last()@ == path@,
            final(self).joiners.delete_joiner.pending@.subrange(
                0,
                old(self).joiners.delete_joiner.pending@.len() as int,
            ) == old(self).joiners.delete_joiner.pending@,
            old(self).entries@.dom().contains(path@) ==> final(self).entries@.dom().contains(path@)
                && final(self).entries@[path@].ty is Deleting,
            old(self).entries@.dom().contains(path@) ==> parent_repaired(
                *old(self),
                *final(self),
                path@,
            ),
            (old(self).entries@.dom().contains(path@) && old(self).entries@[path@].ty is Opened)
                ==> (forall|i: int|
                #![trigger old(self).entries@[path@].ty->Opened_0.entries@[i]]
                (0 <= i < old(self).entries@[path@].ty->Opened_0.entries@.len() && old(self).entries@[path@].ty->Opened_0.entries@[i]@ != path@) ==> (!final(self).entries@.dom().contains(old(self).entries@[path@].ty->Opened_0.entries@[i]@)
                    || final(self).entries@[old(self).entries@[path@].ty->Opened_0.entries@[i]@].ty
                    is Unopened || final(self).entries@[old(self).entries@[path@].ty->Opened_0.entries@[i]@].ty is Waiting)),
            forall|q: Seq<char>|
                #![auto]
                (!old(self).entries@.dom().contains(q) && final(self).entries@.dom().contains(q))
                    ==> (final(self).entries@[q].ty is Unopened || final(self).entries@[q].ty
                    is Waiting),
    {
        let ghost pre = *self;
        self.joiners.delete_joiner.spawn(path.clone());
        self.deleting_path_entry(path.clone());
        let ghost mid = *self;
        self.delete_path_entry_from_parent(&path);
        proof {
            crate::path::lemma_parent_shorter(path@);
            assert(parent_repaired(pre, *self, path@)) by {
                if pre.entries@.dom().contains(path@) && parent_seq(path@) is Some {
                    let ppv = parent_seq(path@)->Some_0;
                    if pre.entries@.dom().contains(ppv) && pre.entries@[ppv].ty is Opened
                        && path_views(pre.entries@[ppv].ty->Opened_0.entries@).contains(path@)
                        && self.entries@.dom().contains(ppv) && self.entries@[ppv].ty is Opened {
                        assert(ppv != path@);
                        if !mid.entries@.dom().contains(ppv) {
                            assert(!mid.parent_fixable(path@));
                            assert(false);
                        }
                        assert(mid.entries@[ppv] == pre.entries@[ppv]);
                        assert(mid.parent_fixable(path@));
                        assert forall|i: int|
                            #![trigger pre.entries@[ppv].ty->Opened_0.entries@[i]]
                            (0 <= i < pre.entries@[ppv].ty->Opened_0.entries@.len()
                                && pre.entries@[ppv].ty->Opened_0.entries@[i]@
                                == path@) implies (0 <= i
                            < mid.entries@[ppv].ty->Opened_0.entries@.len()
                            && mid.entries@[ppv].ty->Opened_0.entries@[i]@ == path@
                            && mid.entries@[ppv].ty->Opened_0.entries@[i]
                            == pre.entries@[ppv].ty->Opened_0.entries@[i]) by {
                        }
                    }
                }
            }
        }
    }
}

/// Popping the last path and appending others keeps every other text in the
/// worklist.
pub proof fn lemma_views_keep_others(
    before: Seq<Path>,
    after: Seq<Path>,
    appended: Seq<Path>,
    popped: Seq<char>,
)
    requires
        before.len() > 0,
        before.last()@ == popped,
        after == before.drop_last() + appended,
    ensures
        forall|x: Seq<char>|
            path_views(before).contains(x) && x != popped ==> #[trigger] path_views(
                after,
            ).contains(x),
{
    assert forall|x: Seq<char>|
        path_views(before).contains(x) && x != popped implies #[trigger] path_views(
        after,
    ).contains(x) by {
        let k = choose|k: int| 0 <= k < path_views(before).len() && path_views(before)[k] == x;
        assert(before[k]@ == x);
        assert(k < before.len() - 1);
        assert(after[k] == before[k]);
        assert(path_views(after)[k] == x);
    }
}

/// Removing one path keeps the remaining paths' texts, in order.
pub proof fn lemma_views_remove(s: Seq<Path>, i: int)
    requires
        0 <= i < s.len(),
    ensures
        path_views(s.remove(i)) =~= path_views(s).remove(i),
{
}

/// A sorted listing stays sorted when one path is removed.
pub proof fn lemma_sorted_remove(s: Seq<Path>, i: int)
    requires
        crate::path::sorted_le(s),
        0 <= i < s.len(),
    ensures
        crate::path::sorted_le(s.remove(i)),
{
    assert forall|a: int, b: int| 0 <= a < b < s.remove(i).len() implies crate::path::lex_le(
        s.remove(i)[a]@,
        s.remove(i)[b]@,
    ) by {
        let ra = if a < i {
            a
        } else {
            a + 1
        };
        let rb = if b < i {
            b
        } else {
            b + 1
        };
        assert(s.remove(i)[a] == s[ra]);
        assert(s.remove(i)[b] == s[rb]);
    }
}

/// Distinct texts stay distinct when one is removed.
pub proof fn lemma_no_dup_remove(v: Seq<Seq<char>>, i: int)
    requires
        v.no_duplicates(),
        0 <= i < v.len(),
    ensures
        v.remove(i).no_duplicates(),
{
    assert forall|a: int, b: int|
        0 <= a < v.remove(i).len() && 0 <= b < v.remove(i).len() && a != b implies v.remove(i)[a]
        != v.remove(i)[b] by {
        let ra = if a < i {
            a
        } else {
            a + 1
        };
        let rb = if b < i {
            b
        } else {
            b + 1
        };
        assert(v.remove(i)[a] == v[ra]);
        assert(v.remove(i)[b] == v[rb]);
    }
}

/// A read-only walk down the visible chain, handing out each column's entry
/// in turn.
pub struct CurrentPath<'a> {
    pub state: &'a State,
    pub next_path: Option<Path>,
}

impl State {
    /// Starts a walk down the visible chain at the first visible column.
    pub fn current_path(&self) -> (r: CurrentPath)
        ensures
            r.state == self,
            r.next_path matches Some(p) && p@ == self.first_visible_column@,
    {
        let next_path = Some(self.first_visible_column.clone());
        CurrentPath { state: self, next_path }
    }
}

impl<'a> CurrentPath<'a> {
    /// The next column's entry: the one at the walk's current path.  The walk
    /// then moves to that column's selected child, and ends at any column
    /// that is not an opened directory with a selection.  The walk itself is
    /// not bounded by `required_columns`; a caller wanting only the visible
    /// columns stops after that many steps, as the bounded
    /// `visible_columns_at` does.
    pub fn next(&mut self) -> (r: Option<&'a Entry>)
        ensures
            match r {
                Some(e) => old(self).next_path matches Some(p)
                    && old(self).state.entries@.dom().contains(p@) && *e == old(self).state.entries@[p@],
                None => old(self).next_path is None || !old(self).state.entries@.dom().contains(
                    old(self).next_path->Some_0@,
                ),
            },
            final(self).state == old(self).state,
    {
        let mut taken: Option<Path> = None;
        core::mem::swap(&mut self.next_path, &mut taken);
        let p = match taken {
            Some(p) => p,
            None => {
                return None;
            },
        };
        match self.state.entries.get(&p) {
            None => None,
            Some(e) => {
                match &e.ty {
                    EntryType::Opened(o) => {
                        match o.selected_entry() {
                            Some(sp) => {
                                self.next_path = Some(sp.clone());
                            },
                            None => {},
                        }
                    },
                    _ => {},
                }
                Some(e)
            },
        }
    }
}

/// How deletion repairs a parent's listing: the dropped path's position is
/// gone; an emptied parent loses its selection and the view shifts one column
/// left; when the dropped child was selected, the child now holding its
/// position (wrapping to the first) is selected with the scroll reset; any
/// other selection is kept.  Stated for a parent that was cached, opened and
/// listing the path, and that is still cached and opened afterwards (deleting
/// a directory whose cached subtree listed its own parent may have dropped
/// the parent instead).
pub open spec fn parent_repaired(pre: State, post: State, path: Seq<char>) -> bool {
    parent_seq(path) matches Some(pp) ==> ((pre.entries@.dom().contains(pp)
        && pre.entries@[pp].ty is Opened && path_views(
        pre.entries@[pp].ty->Opened_0.entries@,
    ).contains(path) && post.entries@.dom().contains(pp) && post.entries@[pp].ty is Opened) ==> (
    forall|i: int|
        #![trigger pre.entries@[parent_seq(path)->Some_0].ty->Opened_0.entries@[i]]
        {
            let o = pre.entries@[pp].ty->Opened_0;
            let no = post.entries@[pp].ty->Opened_0;
            (0 <= i < o.entries@.len() && o.entries@[i]@ == path) ==> {
                &&& path_views(no.entries@) == path_views(o.entries@).remove(i)
                &&& no.config == o.config
                &&& (o.entries@.len() == 1 ==> no.selected is None && (pre.selected_column > 0
                    ==> post.selected_column == pre.selected_column - 1
                        && post.first_visible_column == pre.first_visible_column) && (
                pre.selected_column == 0 ==> post.selected_column == 0 && (parent_seq(
                    pre.first_visible_column@,
                ) matches Some(gp) ==> post.first_visible_column@ == gp) && (parent_seq(
                    pre.first_visible_column@,
                ) is None ==> post.first_visible_column == pre.first_visible_column)))
                &&& (o.entries@.len() > 1 ==> no.selected is Some && post.selected_column
                    == pre.selected_column && post.first_visible_column
                    == pre.first_visible_column)
                &&& (o.entries@.len() > 1 && o.selected is Some && o.sel_path_view() == path
                    ==> no.sel_offset() == 0 && no.sel_path_view() == (if i + 1
                    < o.entries@.len() {
                    o.entries@[i + 1]@
                } else {
                    o.entries@[0]@
                }))
                &&& (o.entries@.len() > 1 && o.selected is Some && o.sel_path_view() != path
                    ==> no.sel_path_view() == o.sel_path_view())
            }
        }))
}

/// A path that is gone, unlisted or waiting stays so when at most one
/// unlisted directory starts waiting for its listing.
pub proof fn lemma_unlisted_preserved(
    a: Map<Seq<char>, Entry>,
    b: Map<Seq<char>, Entry>,
    c: Seq<char>,
)
    requires
        opens_dispatched(a, b),
        !a.dom().contains(c) || a[c].ty is Unopened || a[c].ty is Waiting,
    ensures
        !b.dom().contains(c) || b[c].ty is Unopened || b[c].ty is Waiting,
{
    broadcast use vstd::set::group_set_axioms;
    broadcast use vstd::map::group_map_axioms;

    if b != a {
        let w = choose|w: Seq<char>|
            #![auto]
            a.dom().contains(w) && a[w].ty is Unopened && b == a.insert(w, waiting_of(a[w]));
        assert(b.dom() =~= a.dom());
    }
}

/// A repaired parent stays repaired when at most one unlisted directory
/// starts waiting for its listing and the cursor does not move.
pub proof fn lemma_repair_preserved(pre: State, a: State, b: State, path: Seq<char>)
    requires
        parent_repaired(pre, a, path),
        b.entries@ == a.entries@ || (exists|w: Seq<char>|
            #![auto]
            a.entries@.dom().contains(w) && a.entries@[w].ty is Unopened && b.entries@
                == a.entries@.insert(w, waiting_of(a.entries@[w]))),
        b.selected_column == a.selected_column,
        b.first_visible_column == a.first_visible_column,
    ensures
        parent_repaired(pre, b, path),
{
    broadcast use vstd::set::group_set_axioms;
    broadcast use vstd::map::group_map_axioms;

    if parent_seq(path) is Some {
        let pp = parent_seq(path)->Some_0;
        if pre.entries@.dom().contains(pp) && pre.entries@[pp].ty is Opened && path_views(
            pre.entries@[pp].ty->Opened_0.entries@,
        ).contains(path) && b.entries@.dom().contains(pp) && b.entries@[pp].ty is Opened {
            if b.entries@ != a.entries@ {
                let w = choose|w: Seq<char>|
                    #![auto]
                    a.entries@.dom().contains(w) && a.entries@[w].ty is Unopened && b.entries@
                        == a.entries@.insert(w, waiting_of(a.entries@[w]));
                assert(w != pp);
            }
            assert(a.entries@.dom().contains(pp));
            assert(a.entries@[pp] == b.entries@[pp]);
        }
    }
}

/// How one step right changes the view.  When the chain is known one column
/// past the window, the window slides to the first column's selected child.
/// Otherwise the window stays: the cursor advances while a known column lies
/// to its right — onto a column that can never open only while the window has
/// room — and nothing else of the view changes.  The store changes at most by
/// one unlisted chain column starting to wait for its listing.
pub open spec fn move_right_rel(pre: State, post: State, r: bool) -> bool {
    &&& post.config == pre.config
    &&& post.command_palette == pre.command_palette
    &&& post.entries@.dom() == pre.entries@.dom()
    &&& opens_dispatched(pre.entries@, post.entries@)
    &&& (pre.chain_entry_exists(pre.config.required_columns as int) ==> (r && post.selected_column
        == pre.selected_column && pre.chain_path(1) == Some(post.first_visible_column@)))
    &&& (!pre.chain_entry_exists(pre.config.required_columns as int) ==> post.first_visible_column
        == pre.first_visible_column && (if pre.chain_ok_upto(pre.selected_column + 2) {
        r && post.selected_column == pre.selected_column + 1
    } else {
        if pre.chain_entry_exists(pre.selected_column + 1) && entry_is_terminal(
            pre.chain_entry(pre.selected_column + 1),
        ) && pre.selected_column + 1 < pre.config.required_columns {
            r && post.selected_column == pre.selected_column + 1
        } else {
            !r && post.selected_column == pre.selected_column
        }
    }))
}

/// How one step left changes the view.  A cursor not on the first column
/// steps back and nothing else changes.  On the first column, a window at the
/// root does nothing; otherwise the window moves to the first column's
/// parent, which is cached as an unlisted directory remembering the old first
/// column when it was unknown, starts waiting when it was unlisted, and has
/// the old first column re-selected when it was already opened and lists it.
pub open spec fn move_left_rel(pre: State, post: State, r: bool) -> bool {
    &&& post.config == pre.config
    &&& post.command_palette == pre.command_palette
    &&& (pre.selected_column > 0 ==> (r && post.selected_column == pre.selected_column - 1
        && post.first_visible_column == pre.first_visible_column && post.entries@ == pre.entries@
        && post.joiners == pre.joiners))
    &&& (pre.selected_column == 0 && parent_seq(pre.first_visible_column@) is None ==> (!r
        && post == pre))
    &&& (pre.selected_column == 0 ==> (parent_seq(pre.first_visible_column@) matches Some(pp)
        ==> (r && post.selected_column == 0 && post.first_visible_column@ == pp
        && post.entries@.dom().contains(pp) && (!pre.entries@.dom().contains(pp) ==> (
        post.entries@[pp].ty matches EntryType::Waiting(u) && u.select_on_open matches Some(h)
            && h@ == pre.first_visible_column@)) && (pre.entries@.dom().contains(pp)
        && pre.entries@[pp].ty is Unopened ==> post.entries@[pp] == waiting_of(
        pre.entries@[pp],
    )) && ((pre.entries@.dom().contains(pp) && pre.entries@[pp].ty is Opened && path_views(
        pre.entries@[pp].ty->Opened_0.entries@,
    ).contains(pre.first_visible_column@)) ==> (post.entries@[pp].ty is Opened
        && post.entries@[pp].ty->Opened_0.selected is Some
        && post.entries@[pp].ty->Opened_0.sel_path_view() == pre.first_visible_column@)))))
}

/// The two states hold the same values, compared by the store's contents
/// rather than by the store object itself.
pub open spec fn state_equiv(a: State, b: State) -> bool {
    &&& a.entries@ == b.entries@
    &&& a.first_visible_column == b.first_visible_column
    &&& a.config == b.config
    &&& a.selected_column == b.selected_column
    &&& a.joiners == b.joiners
    &&& a.command_palette == b.command_palette
    &&& a.command_palette_row == b.command_palette_row
}

/// An entry the chain can never continue past: a file, an unreadable or
/// empty directory, or a tombstone.
pub open spec fn entry_is_terminal(e: Entry) -> bool {
    match e.ty {
        EntryType::File => true,
        EntryType::PermissionDenied => true,
        EntryType::Deleting => true,
        EntryType::Opened(o) => o.selected is None,
        _ => false,
    }
}

/// The entry after its listing was requested: the same directory, now
/// waiting.
pub open spec fn waiting_of(e: Entry) -> Entry {
    Entry { path: e.path, ty: EntryType::Waiting(e.ty->Unopened_0) }
}

/// The store changed at most by one unlisted directory starting to wait for
/// its listing.
pub open spec fn opens_dispatched(
    pre: Map<Seq<char>, Entry>,
    post: Map<Seq<char>, Entry>,
) -> bool {
    post == pre || exists|p: Seq<char>|
        #![auto]
        pre.dom().contains(p) && pre[p].ty is Unopened && post == pre.insert(p, waiting_of(pre[p]))
}

} // verus!
