//! Pending background filesystem work.
//!
//! The core never touches the filesystem.  When it wants a directory listed
//! or a path removed it records the path here; the layer around the crate
//! drains these queues, performs the work, and hands the outcome back as a
//! [`ReadDirResult`] or a completed deletion.  Newer enumeration requests are
//! served first.

use crate::path::Path;
use vstd::prelude::*;

verus! {

/// Paths whose directory listing has been requested and not yet delivered.
pub struct ReadDirJoiner {
    pub pending: Vec<Path>,
}

/// Paths whose removal has been requested and not yet confirmed.
pub struct DeleteJoiner {
    pub pending: Vec<Path>,
}

/// Both task queues, owned together by the navigator state.
pub struct Joiners {
    pub read_dir_joiner: ReadDirJoiner,
    pub delete_joiner: DeleteJoiner,
}

impl ReadDirJoiner {
    pub fn new() -> (r: ReadDirJoiner)
        ensures
            r.pending@.len() == 0,
    {
        ReadDirJoiner { pending: Vec::new() }
    }

    /// True if no enumeration is pending.
    pub fn is_empty(&self) -> (r: bool)
        ensures
            r <==> self.pending@.len() == 0,
    {
        self.pending.len() == 0
    }

    /// Records that `path` should be enumerated.
    pub fn spawn(&mut self, path: Path)
        ensures
            final(self).pending@ == old(self).pending@.push(path),
    {
        self.pending.push(path);
    }

    /// Hands out the most recently requested path, if any.
    pub fn take_next(&mut self) -> (r: Option<Path>)
        ensures
            match r {
                Some(p) => old(self).pending@.len() > 0 && p == old(self).pending@.last()
                    && final(self).pending@ == old(self).pending@.subrange(
                    0,
                    old(self).pending@.len() - 1,
                ),
                None => old(self).pending@.len() == 0 && final(self).pending@ == old(
                    self,
                ).pending@,
            },
    {
        self.pending.pop()
    }
}

impl DeleteJoiner {
    pub fn new() -> (r: DeleteJoiner)
        ensures
            r.pending@.len() == 0,
    {
        DeleteJoiner { pending: Vec::new() }
    }

    /// True if no deletion is pending.
    pub fn is_empty(&self) -> (r: bool)
        ensures
            r <==> self.pending@.len() == 0,
    {
        self.pending.len() == 0
    }

    /// Records that `path` should be removed from disk.
    pub fn spawn(&mut self, path: Path)
        ensures
            final(self).pending@ == old(self).pending@.push(path),
    {
        self.pending.push(path);
    }

    /// Hands out one pending removal, if any.
    pub fn take_next(&mut self) -> (r: Option<Path>)
        ensures
            match r {
                Some(p) => old(self).pending@.len() > 0 && p == old(self).pending@.last()
                    && final(self).pending@ == old(self).pending@.subrange(
                    0,
                    old(self).pending@.len() - 1,
                ),
                None => old(self).pending@.len() == 0 && final(self).pending@ == old(
                    self,
                ).pending@,
            },
    {
        self.pending.pop()
    }
}

impl Joiners {
    pub fn new() -> (r: Joiners)
        ensures
            r.read_dir_joiner.pending@.len() == 0,
            r.delete_joiner.pending@.len() == 0,
    {
        Joiners { read_dir_joiner: ReadDirJoiner::new(), delete_joiner: DeleteJoiner::new() }
    }

    /// True if no background work is pending at all.
    pub fn is_empty(&self) -> (r: bool)
        ensures
            r <==> self.read_dir_joiner.pending@.len() == 0 && self.delete_joiner.pending@.len()
                == 0,
    {
        self.read_dir_joiner.is_empty() && self.delete_joiner.is_empty()
    }
}

/// Outcome of one directory enumeration, handed back by the outside layer.
pub struct ReadDirResult {
    pub path: Path,
    pub kind: ReadDirResultKind,
}

/// What the enumeration of a directory produced.
pub enum ReadDirResultKind {
    /// The directory's children, as canonical absolute paths.
    Listed(Vec<Path>),
    /// Some other input/output failure, described for the user.
    Failed(Vec<char>),
    PermissionDenied,
    NotADirectory,
}

impl ReadDirResult {
    pub fn permission_denied(path: Path) -> (r: ReadDirResult)
        ensures
            r.path == path,
            r.kind is PermissionDenied,
    {
        ReadDirResult { path, kind: ReadDirResultKind::PermissionDenied }
    }

    pub fn not_a_directory(path: Path) -> (r: ReadDirResult)
        ensures
            r.path == path,
            r.kind is NotADirectory,
    {
        ReadDirResult { path, kind: ReadDirResultKind::NotADirectory }
    }

    pub fn ok(path: Path, entries: Vec<Path>) -> (r: ReadDirResult)
        ensures
            r.path == path,
            r.kind == ReadDirResultKind::Listed(entries),
    {
        ReadDirResult { path, kind: ReadDirResultKind::Listed(entries) }
    }

    pub fn err(path: Path, message: Vec<char>) -> (r: ReadDirResult)
        ensures
            r.path == path,
            r.kind == ReadDirResultKind::Failed(message),
    {
        ReadDirResult { path, kind: ReadDirResultKind::Failed(message) }
    }
}

} // verus!
