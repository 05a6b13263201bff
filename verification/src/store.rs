//! The path-keyed entry store.
//!
//! One insertion-ordered hash map holds everything discovered so far, keyed
//! by canonical path text.  The map itself comes from the `indexmap` crate
//! (hashed with `ahash`), so its operations are trusted items whose contracts
//! speak of the map's contents; the store's own methods, and everything built
//! on them, are verified against those contents.  Key equality follows
//! [`Path`]'s `==`, which compares path text.

use crate::entry::Entry;
use crate::path::Path;
use vstd::prelude::*;

verus! {

#[verifier::external_type_specification]
#[verifier::external_body]
#[verifier::reject_recursive_types(K)]
#[verifier::reject_recursive_types(V)]
#[verifier::reject_recursive_types(S)]
pub struct ExIndexMap<K, V, S>(indexmap::IndexMap<K, V, S>);

#[verifier::external_type_specification]
#[verifier::external_body]
pub struct ExRandomState(ahash::RandomState);

/// What the store holds: each cached entry, keyed by its path's text.
pub uninterp spec fn store_map(m: indexmap::IndexMap<Path, Entry, ahash::RandomState>) -> Map<
    Seq<char>,
    Entry,
>;

/// Relies on indexmap::IndexMap::default: a fresh map holds nothing.
#[verifier::external_body]
fn store_empty() -> (r: indexmap::IndexMap<Path, Entry, ahash::RandomState>)
    ensures
        store_map(r).dom() == Set::<Seq<char>>::empty(),
{
    indexmap::IndexMap::default()
}

/// Relies on indexmap::IndexMap::get: the value stored under an equal key,
/// nothing when the key is absent.
#[verifier::external_body]
fn store_get<'a>(m: &'a indexmap::IndexMap<Path, Entry, ahash::RandomState>, k: &Path) -> (r:
    Option<&'a Entry>)
    ensures
        match r {
            Some(e) => store_map(*m).dom().contains(k@) && *e == store_map(*m)[k@],
            None => !store_map(*m).dom().contains(k@),
        },
{
    m.get(k)
}

/// Relies on indexmap::IndexMap::insert: afterwards the map holds `v` under
/// `k`, and every other key is untouched.
#[verifier::external_body]
fn store_insert(m: &mut indexmap::IndexMap<Path, Entry, ahash::RandomState>, k: Path, v: Entry)
    ensures
        store_map(*final(m)) == store_map(*old(m)).insert(k@, v),
{
    m.insert(k, v);
}

/// Relies on indexmap::IndexMap::swap_remove: takes the value stored under an
/// equal key out of the map, leaving every other key untouched (the crate
/// documents that only the iteration order, which nothing here reads, is
/// disturbed).
#[verifier::external_body]
fn store_swap_remove(m: &mut indexmap::IndexMap<Path, Entry, ahash::RandomState>, k: &Path) -> (r:
    Option<Entry>)
    ensures
        store_map(*final(m)) == store_map(*old(m)).remove(k@),
        match r {
            Some(e) => store_map(*old(m)).dom().contains(k@) && e == store_map(*old(m))[k@],
            None => !store_map(*old(m)).dom().contains(k@),
        },
{
    m.swap_remove(k)
}

/// Everything discovered so far, keyed by canonical path text.
pub struct EntryStore {
    pub map: indexmap::IndexMap<Path, Entry, ahash::RandomState>,
}

impl View for EntryStore {
    type V = Map<Seq<char>, Entry>;

    open spec fn view(&self) -> Map<Seq<char>, Entry> {
        store_map(self.map)
    }
}

impl EntryStore {
    /// Every cached entry is keyed by its own path and is well formed, and
    /// there are finitely many of them.
    pub open spec fn wf(self) -> bool {
        &&& self@.dom().finite()
        &&& forall|p: Seq<char>|
            self@.dom().contains(p) ==> (#[trigger] self@[p]).path@ == p && self@[p].wf()
    }

    pub fn new() -> (r: EntryStore)
        ensures
            r@ == Map::<Seq<char>, Entry>::empty(),
            r.wf(),
    {
        let map = store_empty();
        let r = EntryStore { map };
        proof {
            assert(r@.dom() =~= Set::<Seq<char>>::empty());
        }
        r
    }

    /// The entry cached for `path`, if any.
    pub fn get(&self, path: &Path) -> (r: Option<&Entry>)
        ensures
            match r {
                Some(e) => self@.dom().contains(path@) && *e == self@[path@],
                None => !self@.dom().contains(path@),
            },
    {
        store_get(&self.map, path)
    }

    /// True when an entry is cached for `path`.
    pub fn contains(&self, path: &Path) -> (r: bool)
        ensures
            r <==> self@.dom().contains(path@),
    {
        match self.get(path) {
            Some(_) => true,
            None => false,
        }
    }

    /// Caches `entry` under its own path, replacing what was there.
    pub fn insert(&mut self, entry: Entry)
        ensures
            final(self)@ == old(self)@.insert(entry.path@, entry),
            old(self).wf() && entry.wf() ==> final(self).wf(),
    {
        let k = entry.path.clone();
        store_insert(&mut self.map, k, entry);
    }

    /// Removes and returns the entry cached for `path`, if any.
    pub fn remove(&mut self, path: &Path) -> (r: Option<Entry>)
        ensures
            final(self)@ == old(self)@.remove(path@),
            match r {
                Some(e) => old(self)@.dom().contains(path@) && e == old(self)@[path@],
                None => !old(self)@.dom().contains(path@),
            },
            old(self).wf() ==> final(self).wf(),
    {
        store_swap_remove(&mut self.map, path)
    }
}

} // verus!
