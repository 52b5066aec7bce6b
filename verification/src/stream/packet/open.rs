//! The request that opens a file.

use crate::common::FileAttributes;
use vstd::prelude::*;

verus! {

/// Open for reading.
pub const OPEN_READ: u32 = 0x01;

/// Open for writing.
pub const OPEN_WRITE: u32 = 0x02;

/// Every write goes to the end of the file.
pub const OPEN_APPEND: u32 = 0x04;

/// Create the file where there is none.
pub const OPEN_CREATE: u32 = 0x08;

/// Cut an existing file to nothing.
pub const OPEN_TRUNCATE: u32 = 0x10;

/// Fail where the file is there already.
pub const OPEN_EXCLUDE: u32 = 0x20;

/// How a file is to be opened. Every bit of an incoming word is kept; the
/// bits that are none of the six above mean nothing.
#[derive(Clone, Copy, Debug, PartialEq, Eq, Hash, Structural)]
pub struct OpenFlags {
    pub bits: u32,
}

impl OpenFlags {
    /// Whether every bit of `mask` is set.
    pub open spec fn spec_contains(&self, mask: u32) -> bool {
        self.bits & mask == mask
    }

    /// Whether every bit of `mask` is set.
    #[verifier::when_used_as_spec(spec_contains)]
    pub fn contains(&self, mask: u32) -> (r: bool)
        ensures
            r == self.spec_contains(mask),
    {
        self.bits & mask == mask
    }

    /// The flag word made of `bits`, all of them kept.
    pub fn from_bits(bits: u32) -> (r: Self)
        ensures
            r.bits == bits,
    {
        OpenFlags { bits }
    }

    /// The word itself.
    pub fn bits(&self) -> (r: u32)
        ensures
            r == self.bits,
    {
        self.bits
    }

    /// Reads a flag word off the front of `i`.
    pub fn parse(i: &[u8]) -> (r: Option<(&[u8], OpenFlags)>)
        ensures
            match r {
                Some((rest, f)) => crate::number::spec_read_u32(i@) == Some((rest@, f.bits)),
                None => crate::number::spec_read_u32(i@) is None,
            },
    {
        let (i, flags) = crate::number::be_u32(i)?;
        Some((i, OpenFlags::from_bits(flags)))
    }
}

impl Default for OpenFlags {
    fn default() -> (r: Self)
        ensures
            r.bits == 0,
    {
        OpenFlags { bits: 0 }
    }
}

/// Asks for a file to be opened.
#[derive(Clone, Debug, PartialEq, Eq)]
pub struct Open {
    pub id: u32,
    pub path: String,
    pub pflags: OpenFlags,
    pub attrs: FileAttributes,
}

} // verus!
