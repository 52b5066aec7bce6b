//! The response that reports how a request ended.

use vstd::prelude::*;

verus! {

/// How a request ended.
#[derive(Clone, Copy, Debug, PartialEq, Eq, Hash, Structural)]
pub enum StatusType {
    OK,
    EOF,
    NoSuchFile,
    PermissionDenied,
    Failure,
    BadMessage,
    NoConnection,
    ConnectionLost,
    OpUnsupported,
}

impl StatusType {
    /// The code of this status on the wire.
    pub open spec fn spec_to_code(self) -> u32 {
        match self {
            StatusType::OK => 0,
            StatusType::EOF => 1,
            StatusType::NoSuchFile => 2,
            StatusType::PermissionDenied => 3,
            StatusType::Failure => 4,
            StatusType::BadMessage => 5,
            StatusType::NoConnection => 6,
            StatusType::ConnectionLost => 7,
            StatusType::OpUnsupported => 8,
        }
    }

    /// The status that `code` stands for, if it stands for one.
    pub open spec fn spec_from_code(code: u32) -> Option<StatusType> {
        if code == 0 {
            Some(StatusType::OK)
        } else if code == 1 {
            Some(StatusType::EOF)
        } else if code == 2 {
            Some(StatusType::NoSuchFile)
        } else if code == 3 {
            Some(StatusType::PermissionDenied)
        } else if code == 4 {
            Some(StatusType::Failure)
        } else if code == 5 {
            Some(StatusType::BadMessage)
        } else if code == 6 {
            Some(StatusType::NoConnection)
        } else if code == 7 {
            Some(StatusType::ConnectionLost)
        } else if code == 8 {
            Some(StatusType::OpUnsupported)
        } else {
            None
        }
    }

    /// The code of this status on the wire.
    pub fn to_code(&self) -> (r: u32)
        ensures
            r == self.spec_to_code(),
            Self::spec_from_code(r) == Some(*self),
    {
        match self {
            StatusType::OK => 0,
            StatusType::EOF => 1,
            StatusType::NoSuchFile => 2,
            StatusType::PermissionDenied => 3,
            StatusType::Failure => 4,
            StatusType::BadMessage => 5,
            StatusType::NoConnection => 6,
            StatusType::ConnectionLost => 7,
            StatusType::OpUnsupported => 8,
        }
    }

    /// The status that `code` stands for, if it stands for one.
    pub fn from_code(code: u32) -> (r: Option<StatusType>)
        ensures
            r == Self::spec_from_code(code),
            r matches Some(s) ==> s.spec_to_code() == code,
    {
        if code == 0 {
            Some(StatusType::OK)
        } else if code == 1 {
            Some(StatusType::EOF)
        } else if code == 2 {
            Some(StatusType::NoSuchFile)
        } else if code == 3 {
            Some(StatusType::PermissionDenied)
        } else if code == 4 {
            Some(StatusType::Failure)
        } else if code == 5 {
            Some(StatusType::BadMessage)
        } else if code == 6 {
            Some(StatusType::NoConnection)
        } else if code == 7 {
            Some(StatusType::ConnectionLost)
        } else if code == 8 {
            Some(StatusType::OpUnsupported)
        } else {
            None
        }
    }
}

/// A status response: the request it answers, how the request ended, and a
/// message in the language named.
#[derive(Clone, Debug, PartialEq, Eq)]
pub struct Status {
    pub id: u32,
    pub status: StatusType,
    pub message: String,
    pub language: String,
}

} // verus!
