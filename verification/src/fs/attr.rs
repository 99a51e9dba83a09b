//! File attributes.
use vstd::prelude::*;

verus! {

/// What kind of file an entry of a directory is.
#[derive(Clone, Copy, Debug, PartialEq, Eq, Structural)]
pub enum EntryKind {
    Directory,
    RegularFile,
}

/// The attributes of a file of a mount. Its times are the epoch, its owner is who
/// runs the mount.
#[derive(Clone, Copy, Debug, PartialEq, Eq, Structural)]
pub struct FileAttr {
    pub ino: u64,
    pub size: u64,
    pub blocks: u64,
    pub kind: EntryKind,
    pub perm: u16,
    pub nlink: u32,
    pub blksize: u32,
}

/// What is known of a file on disk.
#[derive(Clone, Copy, Debug, PartialEq, Eq, Structural)]
pub struct FileMeta {
    pub is_dir: bool,
    /// The mode bits.
    pub mode: u32,
    pub len: u64,
}

/// Why an operation fails.
#[derive(Clone, Copy, Debug, PartialEq, Eq, Structural)]
pub enum Errno {
    /// There is no such file.
    NoEntry,
    /// The file is no directory.
    NotDirectory,
    /// The operation is not allowed.
    Access,
    /// The operation failed on disk.
    Io,
}

/// The attributes of a directory.
pub open spec fn directory(ino: int) -> FileAttr {
    FileAttr {
        ino: ino as u64,
        size: 0,
        blocks: 0,
        kind: EntryKind::Directory,
        perm: 0o755,
        nlink: 2,
        blksize: 512,
    }
}

/// The attributes of a file.
pub open spec fn regular(ino: int, size: int, perm: u16) -> FileAttr {
    FileAttr {
        ino: ino as u64,
        size: size as u64,
        blocks: ((size + 511) / 512) as u64,
        kind: EntryKind::RegularFile,
        perm,
        nlink: 1,
        blksize: 512,
    }
}

/// The permission bits of a mode.
pub open spec fn permissions(mode: u32) -> u16 {
    (mode & 0o777) as u16
}

/// Whether somebody may execute a file of a mode.
pub open spec fn is_executable(mode: u32) -> bool {
    mode & 0o111 != 0
}

/// The attributes of a directory.
pub fn dir_attr(ino: u64) -> (r: FileAttr)
    ensures
        r == directory(ino as int),
{
    FileAttr {
        ino,
        size: 0,
        blocks: 0,
        kind: EntryKind::Directory,
        perm: 0o755,
        nlink: 2,
        blksize: 512,
    }
}

/// The attributes of a file.
pub fn file_attr(ino: u64, size: u64, perm: u16) -> (r: FileAttr)
    ensures
        r == regular(ino as int, size as int, perm),
{
    let blocks: u64 = size / 512 + if size % 512 != 0 {
        1
    } else {
        0
    };
    FileAttr { ino, size, blocks, kind: EntryKind::RegularFile, perm, nlink: 1, blksize: 512 }
}

/// The permission bits of a mode.
pub fn permissions_of(mode: u32) -> (r: u16)
    ensures
        r == permissions(mode),
        r <= 0o777,
{
    assert(mode & 0o777 <= 0o777) by (bit_vector);
    (mode & 0o777) as u16
}

} // verus!
