//! The budget and the entry rules of a bounded, link-safe tree walk beneath
//! a rooted directory.
//!
//! A walk visits only real directories and single-link regular files.
//! Links, reparse points, hard-linked files and special objects are unsafe
//! and end the walk, as does exceeding any of its bounds: depth, visited
//! nodes, listed files and aggregate bytes. The caller reads the directories;
//! [`TreeWalk`] keeps the counts and decides.

use vstd::prelude::*;

verus! {

/// What a directory entry is, judged without following links.
#[derive(Debug, Clone, Copy, PartialEq, Eq, Structural)]
pub enum RootedEntryKind {
    Directory,
    RegularFile,
    /// A link, reparse point, hard-linked file or special object.
    Unsafe,
}

/// Classify an entry from its link metadata: a directory must reopen as a
/// real directory without following links; a file must have exactly one
/// link and reopen as a real regular file. Everything else is unsafe.
pub fn entry_kind(is_dir: bool, is_file: bool, link_count: u64, reopened_real: bool) -> (k: RootedEntryKind)
    ensures
        k == if is_dir {
            if reopened_real {
                RootedEntryKind::Directory
            } else {
                RootedEntryKind::Unsafe
            }
        } else if is_file && link_count == 1 && reopened_real {
            RootedEntryKind::RegularFile
        } else {
            RootedEntryKind::Unsafe
        },
{
    if is_dir {
        if reopened_real {
            RootedEntryKind::Directory
        } else {
            RootedEntryKind::Unsafe
        }
    } else if is_file && link_count == 1 && reopened_real {
        RootedEntryKind::RegularFile
    } else {
        RootedEntryKind::Unsafe
    }
}

/// One regular file found by a walk: its path relative to the rooted
/// directory, its length, and its modification time in milliseconds since
/// the Unix epoch when known.
#[derive(Debug, Clone, PartialEq, Eq)]
pub struct RootedTreeFile {
    pub relative: String,
    pub len: u64,
    pub modified_ms: Option<u64>,
}

/// Why a walk stopped.
#[derive(Debug, Clone, Copy, PartialEq, Eq, Structural)]
pub enum TreeError {
    /// A directory lies deeper than allowed or no node is left to visit it.
    DepthOrNodes,
    /// More entries than nodes left.
    Nodes,
    /// A subdirectory at the deepest allowed level.
    Depth,
    /// More regular files than allowed.
    Files,
    /// The aggregate byte count does not fit in 64 bits.
    ByteOverflow,
    /// More aggregate bytes than allowed.
    Bytes,
    /// A hard-linked regular file.
    LinkedFile,
    /// A link, reparse point or special object.
    UnsafeEntry,
}

/// The running counts of one walk against its bounds.
pub struct TreeWalk {
    max_depth: usize,
    max_nodes: usize,
    max_files: usize,
    max_bytes: u64,
    visited: usize,
    files: usize,
    total_bytes: u64,
}

impl TreeWalk {
    pub closed spec fn max_depth(&self) -> nat {
        self.max_depth as nat
    }

    pub closed spec fn max_nodes(&self) -> nat {
        self.max_nodes as nat
    }

    pub closed spec fn max_files(&self) -> nat {
        self.max_files as nat
    }

    pub closed spec fn max_bytes(&self) -> nat {
        self.max_bytes as nat
    }

    /// Nodes visited so far: directories entered and entries examined.
    pub closed spec fn visited(&self) -> nat {
        self.visited as nat
    }

    /// Regular files accepted so far.
    pub closed spec fn files(&self) -> nat {
        self.files as nat
    }

    /// Their aggregate length.
    pub closed spec fn total_bytes(&self) -> nat {
        self.total_bytes as nat
    }

    /// The counts are within the bounds.
    pub open spec fn within_bounds(&self) -> bool {
        &&& self.visited() <= self.max_nodes()
        &&& self.files() <= self.max_files()
        &&& self.total_bytes() <= self.max_bytes()
    }

    /// The bounds are those of `other`.
    pub open spec fn same_bounds(&self, other: &TreeWalk) -> bool {
        &&& self.max_depth() == other.max_depth()
        &&& self.max_nodes() == other.max_nodes()
        &&& self.max_files() == other.max_files()
        &&& self.max_bytes() == other.max_bytes()
    }

    /// A walk with nothing counted yet.
    pub fn new(max_depth: usize, max_nodes: usize, max_files: usize, max_bytes: u64) -> (w: Self)
        ensures
            w.max_depth() == max_depth,
            w.max_nodes() == max_nodes,
            w.max_files() == max_files,
            w.max_bytes() == max_bytes,
            w.visited() == 0,
            w.files() == 0,
            w.total_bytes() == 0,
            w.within_bounds(),
    {
        TreeWalk { max_depth, max_nodes, max_files, max_bytes, visited: 0, files: 0, total_bytes: 0 }
    }

    pub fn files_found(&self) -> (n: usize)
        ensures
            n == self.files(),
    {
        self.files
    }

    pub fn bytes_found(&self) -> (n: u64)
        ensures
            n == self.total_bytes(),
    {
        self.total_bytes
    }

    /// Enter a directory at `depth` (the walked directory itself is depth
    /// zero): it counts as one node.
    pub fn enter_directory(&mut self, depth: usize) -> (r: Result<(), TreeError>)
        ensures
            final(self).same_bounds(old(self)),
            r is Ok <==> depth <= old(self).max_depth() && old(self).visited() < old(self).max_nodes(),
            r is Err ==> r == Err::<(), TreeError>(TreeError::DepthOrNodes) && *final(self) == *old(self),
            r is Ok ==> final(self).visited() == old(self).visited() + 1
                && final(self).files() == old(self).files()
                && final(self).total_bytes() == old(self).total_bytes(),
            old(self).within_bounds() ==> final(self).within_bounds(),
    {
        if depth > self.max_depth || self.visited >= self.max_nodes {
            return Err(TreeError::DepthOrNodes);
        }
        self.visited = self.visited + 1;
        Ok(())
    }

    /// A directory being listed has produced `listed` names so far; there
    /// must be a node left for each.
    pub fn check_listing(&self, listed: usize) -> (r: Result<(), TreeError>)
        ensures
            r is Ok <==> listed + self.visited() <= self.max_nodes(),
            r is Err ==> r == Err::<(), TreeError>(TreeError::Nodes),
    {
        if self.visited > self.max_nodes || listed > self.max_nodes - self.visited {
            Err(TreeError::Nodes)
        } else {
            Ok(())
        }
    }

    /// Examine one entry of a directory being walked: it counts as one node.
    pub fn visit_entry(&mut self) -> (r: Result<(), TreeError>)
        ensures
            final(self).same_bounds(old(self)),
            r is Ok <==> old(self).visited() < old(self).max_nodes(),
            r is Err ==> r == Err::<(), TreeError>(TreeError::Nodes) && *final(self) == *old(self),
            r is Ok ==> final(self).visited() == old(self).visited() + 1
                && final(self).files() == old(self).files()
                && final(self).total_bytes() == old(self).total_bytes(),
            old(self).within_bounds() ==> final(self).within_bounds(),
    {
        if self.visited >= self.max_nodes {
            return Err(TreeError::Nodes);
        }
        self.visited = self.visited + 1;
        Ok(())
    }

    /// Whether a subdirectory found at `depth` may be walked.
    pub fn may_descend(&self, depth: usize) -> (r: Result<(), TreeError>)
        ensures
            r is Ok <==> depth < self.max_depth(),
            r is Err ==> r == Err::<(), TreeError>(TreeError::Depth),
    {
        if depth >= self.max_depth {
            Err(TreeError::Depth)
        } else {
            Ok(())
        }
    }

    /// Accept a regular file of `len` bytes with `link_count` links, which
    /// reopened as a real regular file when `reopened_real`.
    pub fn add_file(&mut self, link_count: u64, reopened_real: bool, len: u64) -> (r: Result<(), TreeError>)
        ensures
            final(self).same_bounds(old(self)),
            final(self).visited() == old(self).visited(),
            r == if link_count != 1 {
                Err(TreeError::LinkedFile)
            } else if !reopened_real {
                Err(TreeError::UnsafeEntry)
            } else if old(self).files() >= old(self).max_files() {
                Err(TreeError::Files)
            } else if old(self).total_bytes() + len > u64::MAX {
                Err(TreeError::ByteOverflow)
            } else if old(self).total_bytes() + len > old(self).max_bytes() {
                Err(TreeError::Bytes)
            } else {
                Ok(())
            },
            r is Err ==> *final(self) == *old(self),
            r is Ok ==> final(self).files() == old(self).files() + 1
                && final(self).total_bytes() == old(self).total_bytes() + len,
            old(self).within_bounds() ==> final(self).within_bounds(),
    {
        if link_count != 1 {
            return Err(TreeError::LinkedFile);
        }
        if !reopened_real {
            return Err(TreeError::UnsafeEntry);
        }
        if self.files >= self.max_files {
            return Err(TreeError::Files);
        }
        let total = match self.total_bytes.checked_add(len) {
            Some(t) => t,
            None => {
                return Err(TreeError::ByteOverflow);
            },
        };
        if total > self.max_bytes {
            return Err(TreeError::Bytes);
        }
        self.total_bytes = total;
        self.files = self.files + 1;
        Ok(())
    }
}

/// Whether a walk asked for a single regular file may return it: it must
/// have one link, fit the byte bound, and leave room for one file and one
/// node.
pub fn single_file_ok(link_count: u64, len: u64, max_nodes: usize, max_files: usize, max_bytes: u64) -> (b: bool)
    ensures
        b == (link_count == 1 && len <= max_bytes && max_files > 0 && max_nodes > 0),
{
    link_count == 1 && len <= max_bytes && max_files > 0 && max_nodes > 0
}

} // verus!
