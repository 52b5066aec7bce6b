//! The type tag that follows the length in every packet.

use vstd::prelude::*;

verus! {

/// The types of packet that the protocol knows. `UNIMPLEMENTED` is a
/// reserved tag that no payload belongs to.
#[derive(Clone, Copy, Debug, PartialEq, Eq, Hash, Structural)]
#[allow(non_camel_case_types)]
pub enum PacketType {
    Init,
    Version,
    Open,
    Close,
    Read,
    Write,
    Lstat,
    Fstat,
    SetStat,
    FSetStat,
    OpenDir,
    ReadDir,
    Remove,
    MkDir,
    RmDir,
    RealPath,
    Stat,
    Rename,
    ReadLink,
    Symlink,
    Status,
    Handle,
    Data,
    Name,
    Attrs,
    Extended,
    ExtendedReply,
    UNIMPLEMENTED,
}

impl PacketType {
    /// The tag byte of this type.
    pub open spec fn spec_to_byte(self) -> u8 {
        match self {
            PacketType::Init => 1,
            PacketType::Version => 2,
            PacketType::Open => 3,
            PacketType::Close => 4,
            PacketType::Read => 5,
            PacketType::Write => 6,
            PacketType::Lstat => 7,
            PacketType::Fstat => 8,
            PacketType::SetStat => 9,
            PacketType::FSetStat => 10,
            PacketType::OpenDir => 11,
            PacketType::ReadDir => 12,
            PacketType::Remove => 13,
            PacketType::MkDir => 14,
            PacketType::RmDir => 15,
            PacketType::RealPath => 16,
            PacketType::Stat => 17,
            PacketType::Rename => 18,
            PacketType::ReadLink => 19,
            PacketType::Symlink => 20,
            PacketType::Status => 101,
            PacketType::Handle => 102,
            PacketType::Data => 103,
            PacketType::Name => 104,
            PacketType::Attrs => 105,
            PacketType::Extended => 200,
            PacketType::ExtendedReply => 201,
            PacketType::UNIMPLEMENTED => 255,
        }
    }

    /// The type that the tag byte `b` stands for, if it stands for one.
    pub open spec fn spec_from_byte(b: u8) -> Option<PacketType> {
        if b == 1 {
            Some(PacketType::Init)
        } else if b == 2 {
            Some(PacketType::Version)
        } else if b == 3 {
            Some(PacketType::Open)
        } else if b == 4 {
            Some(PacketType::Close)
        } else if b == 5 {
            Some(PacketType::Read)
        } else if b == 6 {
            Some(PacketType::Write)
        } else if b == 7 {
            Some(PacketType::Lstat)
        } else if b == 8 {
            Some(PacketType::Fstat)
        } else if b == 9 {
            Some(PacketType::SetStat)
        } else if b == 10 {
            Some(PacketType::FSetStat)
        } else if b == 11 {
            Some(PacketType::OpenDir)
        } else if b == 12 {
            Some(PacketType::ReadDir)
        } else if b == 13 {
            Some(PacketType::Remove)
        } else if b == 14 {
            Some(PacketType::MkDir)
        } else if b == 15 {
            Some(PacketType::RmDir)
        } else if b == 16 {
            Some(PacketType::RealPath)
        } else if b == 17 {
            Some(PacketType::Stat)
        } else if b == 18 {
            Some(PacketType::Rename)
        } else if b == 19 {
            Some(PacketType::ReadLink)
        } else if b == 20 {
            Some(PacketType::Symlink)
        } else if b == 101 {
            Some(PacketType::Status)
        } else if b == 102 {
            Some(PacketType::Handle)
        } else if b == 103 {
            Some(PacketType::Data)
        } else if b == 104 {
            Some(PacketType::Name)
        } else if b == 105 {
            Some(PacketType::Attrs)
        } else if b == 200 {
            Some(PacketType::Extended)
        } else if b == 201 {
            Some(PacketType::ExtendedReply)
        } else if b == 255 {
            Some(PacketType::UNIMPLEMENTED)
        } else {
            None
        }
    }

    /// The tag byte of this type.
    pub fn to_byte(&self) -> (r: u8)
        ensures
            r == self.spec_to_byte(),
            Self::spec_from_byte(r) == Some(*self),
    {
        match self {
            PacketType::Init => 1,
            PacketType::Version => 2,
            PacketType::Open => 3,
            PacketType::Close => 4,
            PacketType::Read => 5,
            PacketType::Write => 6,
            PacketType::Lstat => 7,
            PacketType::Fstat => 8,
            PacketType::SetStat => 9,
            PacketType::FSetStat => 10,
            PacketType::OpenDir => 11,
            PacketType::ReadDir => 12,
            PacketType::Remove => 13,
            PacketType::MkDir => 14,
            PacketType::RmDir => 15,
            PacketType::RealPath => 16,
            PacketType::Stat => 17,
            PacketType::Rename => 18,
            PacketType::ReadLink => 19,
            PacketType::Symlink => 20,
            PacketType::Status => 101,
            PacketType::Handle => 102,
            PacketType::Data => 103,
            PacketType::Name => 104,
            PacketType::Attrs => 105,
            PacketType::Extended => 200,
            PacketType::ExtendedReply => 201,
            PacketType::UNIMPLEMENTED => 255,
        }
    }

    /// The type that the tag byte `b` stands for, if it stands for one.
    pub fn from_byte(b: u8) -> (r: Option<PacketType>)
        ensures
            r == Self::spec_from_byte(b),
            r matches Some(k) ==> k.spec_to_byte() == b,
    {
        if b == 1 {
            Some(PacketType::Init)
        } else if b == 2 {
            Some(PacketType::Version)
        } else if b == 3 {
            Some(PacketType::Open)
        } else if b == 4 {
            Some(PacketType::Close)
        } else if b == 5 {
            Some(PacketType::Read)
        } else if b == 6 {
            Some(PacketType::Write)
        } else if b == 7 {
            Some(PacketType::Lstat)
        } else if b == 8 {
            Some(PacketType::Fstat)
        } else if b == 9 {
            Some(PacketType::SetStat)
        } else if b == 10 {
            Some(PacketType::FSetStat)
        } else if b == 11 {
            Some(PacketType::OpenDir)
        } else if b == 12 {
            Some(PacketType::ReadDir)
        } else if b == 13 {
            Some(PacketType::Remove)
        } else if b == 14 {
            Some(PacketType::MkDir)
        } else if b == 15 {
            Some(PacketType::RmDir)
        } else if b == 16 {
            Some(PacketType::RealPath)
        } else if b == 17 {
            Some(PacketType::Stat)
        } else if b == 18 {
            Some(PacketType::Rename)
        } else if b == 19 {
            Some(PacketType::ReadLink)
        } else if b == 20 {
            Some(PacketType::Symlink)
        } else if b == 101 {
            Some(PacketType::Status)
        } else if b == 102 {
            Some(PacketType::Handle)
        } else if b == 103 {
            Some(PacketType::Data)
        } else if b == 104 {
            Some(PacketType::Name)
        } else if b == 105 {
            Some(PacketType::Attrs)
        } else if b == 200 {
            Some(PacketType::Extended)
        } else if b == 201 {
            Some(PacketType::ExtendedReply)
        } else if b == 255 {
            Some(PacketType::UNIMPLEMENTED)
        } else {
            None
        }
    }

    /// Whether a client may send a packet of this type: the handshake and the
    /// requests, not the responses.
    pub open spec fn spec_is_request(self) -> bool {
        self.spec_to_byte() <= 20 || self == PacketType::Extended
    }
}

/// A tag byte and its type determine each other.
pub proof fn lemma_tag_roundtrip(k: PacketType, b: u8)
    ensures
        PacketType::spec_from_byte(k.spec_to_byte()) == Some(k),
        PacketType::spec_from_byte(b) matches Some(t) ==> t.spec_to_byte() == b,
{
}

} // verus!
