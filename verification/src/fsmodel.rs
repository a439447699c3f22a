//! Snapshot model of the filesystem pieces the scanners look at.
//!
//! The scanners never touch the filesystem themselves: the embedding
//! program reads directories and hands over these plain values. Names
//! and paths are carried as text: an embedding that meets filenames
//! which are not valid UTF-8 converts them lossily at this boundary.

use vstd::prelude::*;

verus! {

/// The resolved kind of a filesystem entry: when the entry is a symlink,
/// the kind of its target, otherwise the kind of the entry itself.
#[derive(Clone, Copy, PartialEq, Eq, Structural, Debug)]
pub enum EntryKind {
    File,
    Directory,
    /// Neither a regular file nor a directory (a socket, a device, ...).
    Other,
}

/// One directory entry as a scanner sees it.
///
/// `kind` is `None` when the entry's resolved metadata could not be read
/// (a broken symlink, a permission error).
///
/// `children` is `Some` exactly for a real directory whose listing could
/// be read; a symlink to a directory, or a directory whose listing could
/// not be read, carries `None` and is never descended into.
#[derive(Debug)]
pub struct FsEntry {
    /// The entry's filename, without any parent components.
    pub name: String,
    /// The entry's full path, as the directory reader reported it.
    pub path: String,
    pub kind: Option<EntryKind>,
    pub children: Option<Vec<FsEntry>>,
}

/// What reading a configured directory produced.
#[derive(Debug)]
pub enum DirListing {
    /// The path does not exist.
    Missing,
    /// The path exists but is not a directory.
    NotDirectory,
    /// The path is a directory whose listing could not be read.
    Unreadable,
    /// The directory exists and these are its entries.
    Entries(Vec<FsEntry>),
}

} // verus!
