//! What can go wrong between the wire and the backend.

use vstd::prelude::*;

verus! {

/// The failures that the codec, the path jail and a backend report.
#[derive(Clone, Copy, Debug, PartialEq, Eq, Structural)]
pub enum Error {
    /// The five bytes in front of a packet are no header.
    PacketHeader,
    /// A packet was asked for before its header had arrived.
    NoHeader,
    /// The bytes after the header are no payload of the announced type.
    Packet,
    /// The path leaves the root that it was to stay under.
    InvalidPath,
    /// The backend could not read or write.
    IO,
    /// The backend could not change a file's owner.
    Metadata,
}

impl Error {
    /// The text that names this failure to a client.
    pub open spec fn spec_to_string(self) -> Seq<char> {
        match self {
            Error::PacketHeader => "error decoding packet header"@,
            Error::NoHeader => "no header"@,
            Error::Packet => "error decoding packet"@,
            Error::InvalidPath => "invalid path"@,
            Error::IO => "I/O failure"@,
            Error::Metadata => "metadata error"@,
        }
    }

    /// The text that names this failure to a client.
    pub fn to_string(&self) -> (r: String)
        ensures
            r@ == self.spec_to_string(),
    {
        match self {
            Error::PacketHeader => "error decoding packet header".to_owned(),
            Error::NoHeader => "no header".to_owned(),
            Error::Packet => "error decoding packet".to_owned(),
            Error::InvalidPath => "invalid path".to_owned(),
            Error::IO => "I/O failure".to_owned(),
            Error::Metadata => "metadata error".to_owned(),
        }
    }
}

} // verus!
