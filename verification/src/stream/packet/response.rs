//! The responses of the server, but for the status and the name list.

use crate::common::FileAttributes;
use vstd::prelude::*;

verus! {

/// Answers the handshake: the server's protocol version and whatever
/// extension data fills the rest of the packet.
#[derive(Clone, Debug, PartialEq, Eq)]
pub struct Version {
    pub version: u32,
    pub extension_data: Vec<u8>,
}

/// Hands out the handle of a file or directory that was opened.
#[derive(Clone, Debug, PartialEq, Eq)]
pub struct Handle {
    pub id: u32,
    pub handle: u128,
}

/// Carries bytes that were read.
#[derive(Clone, Debug, PartialEq, Eq)]
pub struct Data {
    pub id: u32,
    pub data: Vec<u8>,
}

/// Carries the attributes that were asked for.
#[derive(Clone, Debug, PartialEq, Eq)]
pub struct Attrs {
    pub id: u32,
    pub attrs: FileAttributes,
}

} // verus!
