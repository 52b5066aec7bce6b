//! A file that a session holds open.

use crate::common::metadata::MetadataView;
use crate::common::Metadata;
use vstd::prelude::*;

verus! {

/// An open file as the session knows it: the metadata taken when it was
/// opened, and the position that reads and writes have reached. The
/// descriptor itself stays with whoever performs the reads and writes.
#[derive(Clone, Debug)]
pub struct OpenFile {
    pub metadata: Metadata,
    pub pos: u64,
}

/// An [`OpenFile`] as contracts see it.
pub struct OpenFileView {
    pub metadata: MetadataView,
    pub pos: u64,
}

impl View for OpenFile {
    type V = OpenFileView;

    open spec fn view(&self) -> OpenFileView {
        OpenFileView { metadata: self.metadata@, pos: self.pos }
    }
}

/// The position `count` bytes behind `pos`, or the last position there is.
pub open spec fn spec_advance(pos: u64, count: usize) -> u64 {
    if pos + count <= u64::MAX {
        (pos + count) as u64
    } else {
        u64::MAX
    }
}

impl OpenFile {
    /// A file just opened, at position zero.
    pub fn new(metadata: Metadata) -> (r: Self)
        ensures
            r@ == (OpenFileView { metadata: metadata@, pos: 0 }),
    {
        OpenFile { metadata, pos: 0 }
    }

    /// Records that a seek ended at `pos`.
    pub fn seek_complete(&mut self, pos: u64)
        ensures
            final(self)@ == (OpenFileView { pos, ..old(self)@ }),
    {
        self.pos = pos;
    }

    /// Records that a read or a write moved `count` bytes.
    pub fn advance(&mut self, count: usize)
        ensures
            final(self)@ == (OpenFileView {
                pos: spec_advance(old(self).pos, count),
                ..old(self)@
            }),
    {
        self.pos = advance(self.pos, count);
    }
}

/// The position `count` bytes behind `pos`, or the last position there is.
pub fn advance(pos: u64, count: usize) -> (r: u64)
    ensures
        r == spec_advance(pos, count),
{
    if count as u64 > u64::MAX - pos {
        u64::MAX
    } else {
        pos + count as u64
    }
}

/// Why a file refuses a read or a write.
#[derive(Clone, Copy, Debug, PartialEq, Eq, Structural)]
pub enum IOError {
    NoRead,
    NoWrite,
}

impl IOError {
    /// The text that names this refusal.
    pub open spec fn spec_to_string(self) -> Seq<char> {
        match self {
            IOError::NoRead => "not open for reading"@,
            IOError::NoWrite => "not open for writing"@,
        }
    }

    /// The text that names this refusal.
    pub fn to_string(&self) -> (r: String)
        ensures
            r@ == self.spec_to_string(),
    {
        match self {
            IOError::NoRead => "not open for reading".to_owned(),
            IOError::NoWrite => "not open for writing".to_owned(),
        }
    }
}

} // verus!
