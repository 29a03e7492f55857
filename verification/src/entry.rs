//! Directory entries as panels list them.

use vstd::prelude::*;

verus! {

/// What kind of file system object an entry is.
#[derive(Debug, Clone, Copy, PartialEq, Eq, Hash, Structural)]
pub enum EntryKind {
    Dir,
    File,
    Symlink,
    Fifo,
    Socket,
    BlockDevice,
    CharDevice,
    Other,
}

/// A point in time: whole seconds since the Unix epoch (negative before it)
/// and the nanoseconds within that second.
#[derive(Debug, Clone, Copy, PartialEq, Eq, Hash, Structural)]
pub struct Timestamp {
    pub secs: i64,
    pub nanos: u32,
}

/// One listed entry.
#[derive(Debug, Clone)]
pub struct Entry {
    pub name: String,
    pub kind: EntryKind,
    pub size: u64,
    pub mtime: Option<Timestamp>,
    pub atime: Option<Timestamp>,
    pub ctime: Option<Timestamp>,
    /// Unix mode bits when available.
    pub mode: Option<u32>,
    pub uid: Option<u32>,
    pub gid: Option<u32>,
    pub nlink: Option<u64>,
    /// Symlink target (if `kind == Symlink`).
    pub target: Option<String>,
}

/// An entry as plain values.
pub struct EntryView {
    pub name: Seq<char>,
    pub kind: EntryKind,
    pub size: u64,
    pub mtime: Option<Timestamp>,
    pub atime: Option<Timestamp>,
    pub ctime: Option<Timestamp>,
    pub mode: Option<u32>,
    pub uid: Option<u32>,
    pub gid: Option<u32>,
    pub nlink: Option<u64>,
    pub target: Option<Seq<char>>,
}

impl View for Entry {
    type V = EntryView;

    open spec fn view(&self) -> EntryView {
        EntryView {
            name: self.name@,
            kind: self.kind,
            size: self.size,
            mtime: self.mtime,
            atime: self.atime,
            ctime: self.ctime,
            mode: self.mode,
            uid: self.uid,
            gid: self.gid,
            nlink: self.nlink,
            target: match self.target {
                Some(t) => Some(t@),
                None => None,
            },
        }
    }
}

impl Entry {
    /// A copy of the entry.
    pub fn clone_entry(&self) -> (r: Self)
        ensures
            r@ == self@,
    {
        Entry {
            name: self.name.clone(),
            kind: self.kind,
            size: self.size,
            mtime: self.mtime,
            atime: self.atime,
            ctime: self.ctime,
            mode: self.mode,
            uid: self.uid,
            gid: self.gid,
            nlink: self.nlink,
            target: match &self.target {
                Some(t) => Some(t.clone()),
                None => None,
            },
        }
    }

    /// Whether the entry is a directory.
    pub fn is_dir(&self) -> (r: bool)
        ensures
            r == (self.kind == EntryKind::Dir),
    {
        match self.kind {
            EntryKind::Dir => true,
            _ => false,
        }
    }

    /// Whether the entry is a symbolic link.
    pub fn is_symlink(&self) -> (r: bool)
        ensures
            r == (self.kind == EntryKind::Symlink),
    {
        match self.kind {
            EntryKind::Symlink => true,
            _ => false,
        }
    }
}

} // verus!
