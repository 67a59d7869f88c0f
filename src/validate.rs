use vstd::prelude::*;

verus! {

/// What a filesystem query reported about a path, without following links.
#[derive(Clone, Copy, Debug, PartialEq, Eq, Structural)]
pub enum EntryKind {
    /// Nothing is there, or the query failed.
    Missing,
    /// A regular file.
    File,
    /// A directory.
    Directory,
    /// A symbolic link.
    Symlink,
    /// Anything else the filesystem can hold (a socket, a device, a pipe).
    Other,
}

/// A path counts as a directory unless it is missing, a regular file or a
/// symbolic link.
pub open spec fn is_directory_kind(kind: EntryKind) -> bool {
    !(kind is Missing || kind is File || kind is Symlink)
}

/// A path counts as a file unless it is missing, a directory or a symbolic
/// link.
pub open spec fn is_file_kind(kind: EntryKind) -> bool {
    !(kind is Missing || kind is Directory || kind is Symlink)
}

/// Whether a path of this kind exists as a directory.
pub fn directory_exists(kind: EntryKind) -> (r: bool)
    ensures
        r == is_directory_kind(kind),
        kind is Directory ==> r,
        (kind is Missing || kind is File || kind is Symlink) ==> !r,
{
    match kind {
        EntryKind::Missing | EntryKind::File | EntryKind::Symlink => false,
        EntryKind::Directory | EntryKind::Other => true,
    }
}

/// Whether a path of this kind exists as a file.
pub fn file_exists(kind: EntryKind) -> (r: bool)
    ensures
        r == is_file_kind(kind),
        kind is File ==> r,
        (kind is Missing || kind is Directory || kind is Symlink) ==> !r,
{
    match kind {
        EntryKind::Missing | EntryKind::Directory | EntryKind::Symlink => false,
        EntryKind::File | EntryKind::Other => true,
    }
}

} // verus!
