//! Vendor extensions: framed, and not understood.

use vstd::prelude::*;

verus! {

/// A vendor request: its name, and whatever fills the rest of the packet.
#[derive(Clone, Debug, PartialEq, Eq)]
pub struct Request {
    pub id: u32,
    pub request: String,
    pub data: Vec<u8>,
}

/// The answer to a vendor request: whatever fills the rest of the packet.
#[derive(Clone, Debug, PartialEq, Eq)]
pub struct Response {
    pub id: u32,
    pub data: Vec<u8>,
}

} // verus!
