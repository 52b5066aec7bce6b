//! The requests of a client, but for the one that opens a file.

use crate::common::FileAttributes;
use vstd::prelude::*;

verus! {

/// Opens the session: the client's protocol version and whatever extension
/// data fills the rest of the packet.
#[derive(Clone, Debug, PartialEq, Eq)]
pub struct Init {
    pub version: u32,
    pub extension_data: Vec<u8>,
}

/// Gives up an open file or directory.
#[derive(Clone, Debug, PartialEq, Eq)]
pub struct Close {
    pub id: u32,
    pub handle: u128,
}

/// Asks for up to `len` bytes of an open file from `offset` on.
#[derive(Clone, Debug, PartialEq, Eq)]
pub struct Read {
    pub id: u32,
    pub handle: u128,
    pub offset: u64,
    pub len: u32,
}

/// Asks for `data` to be written to an open file from `offset` on.
#[derive(Clone, Debug, PartialEq, Eq)]
pub struct Write {
    pub id: u32,
    pub handle: u128,
    pub offset: u64,
    pub data: Vec<u8>,
}

/// Asks for the attributes of a path, a link not followed.
#[derive(Clone, Debug, PartialEq, Eq)]
pub struct Lstat {
    pub id: u32,
    pub path: String,
}

/// Asks for the attributes of an open file.
#[derive(Clone, Debug, PartialEq, Eq)]
pub struct Fstat {
    pub id: u32,
    pub handle: u128,
}

/// Asks for attributes of a path to be changed.
#[derive(Clone, Debug, PartialEq, Eq)]
pub struct SetStat {
    pub id: u32,
    pub path: String,
    pub attrs: FileAttributes,
}

/// Asks for attributes of an open file to be changed.
#[derive(Clone, Debug, PartialEq, Eq)]
pub struct FSetStat {
    pub id: u32,
    pub handle: u128,
    pub attrs: FileAttributes,
}

/// Asks for a directory to be opened for listing.
#[derive(Clone, Debug, PartialEq, Eq)]
pub struct OpenDir {
    pub id: u32,
    pub path: String,
}

/// Asks for entries of an open directory.
#[derive(Clone, Debug, PartialEq, Eq)]
pub struct ReadDir {
    pub id: u32,
    pub handle: u128,
}

/// Asks for a file to be deleted.
#[derive(Clone, Debug, PartialEq, Eq)]
pub struct Remove {
    pub id: u32,
    pub path: String,
}

/// Asks for a directory to be made.
#[derive(Clone, Debug, PartialEq, Eq)]
pub struct MkDir {
    pub id: u32,
    pub path: String,
    pub attrs: FileAttributes,
}

/// Asks for a directory to be deleted.
#[derive(Clone, Debug, PartialEq, Eq)]
pub struct RmDir {
    pub id: u32,
    pub path: String,
}

/// Asks for the normal form of a path.
#[derive(Clone, Debug, PartialEq, Eq)]
pub struct RealPath {
    pub id: u32,
    pub path: String,
}

/// Asks for the attributes of a path, links followed.
#[derive(Clone, Debug, PartialEq, Eq)]
pub struct Stat {
    pub id: u32,
    pub path: String,
}

/// Asks for a file to be moved.
#[derive(Clone, Debug, PartialEq, Eq)]
pub struct Rename {
    pub id: u32,
    pub oldpath: String,
    pub newpath: String,
}

/// Asks where a symbolic link points.
#[derive(Clone, Debug, PartialEq, Eq)]
pub struct ReadLink {
    pub id: u32,
    pub path: String,
}

/// Asks for a symbolic link to be made.
#[derive(Clone, Debug, PartialEq, Eq)]
pub struct Symlink {
    pub id: u32,
    pub linkpath: String,
    pub targetpath: String,
}

} // verus!
