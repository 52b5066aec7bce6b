//! What the dispatcher asks of a backend and what it hears back, and the
//! lexical rule that keeps every path under the backend's root.

use crate::common::metadata::MetadataView;
use crate::common::Metadata;
use crate::error::Error;
use vstd::prelude::*;
use vstd::utf8::encode_utf8;

verus! {

/// One operation for the backend to perform. The driver of a session performs
/// it and hands the outcome back as a [`BackendReply`].
#[derive(Clone, Debug, PartialEq, Eq)]
pub enum BackendCall {
    Metadata { path: String },
    List { path: String },
    Open {
        path: String,
        read: bool,
        write: bool,
        append: bool,
        create: bool,
        truncate: bool,
        create_new: bool,
    },
    /// Seek to `offset` in the open file `handle` and read up to `len` bytes.
    Read { handle: u128, offset: u64, len: u32 },
    /// Seek to `offset` in the open file `handle` and write once, as much of
    /// `data` as the file takes.
    Write { handle: u128, offset: u64, data: Vec<u8> },
    SetMetadata {
        path: String,
        uid_and_gid: Option<(u32, u32)>,
        permissions: Option<u32>,
        atime_and_mtime: Option<(u32, u32)>,
    },
    DeleteFile { path: String },
    MkDir { path: String },
    RmDir { path: String },
    Rename { from: String, to: String },
}

/// A [`BackendCall`] as contracts see it.
pub enum BackendCallView {
    Metadata { path: Seq<char> },
    List { path: Seq<char> },
    Open {
        path: Seq<char>,
        read: bool,
        write: bool,
        append: bool,
        create: bool,
        truncate: bool,
        create_new: bool,
    },
    Read { handle: u128, offset: u64, len: u32 },
    Write { handle: u128, offset: u64, data: Seq<u8> },
    SetMetadata {
        path: Seq<char>,
        uid_and_gid: Option<(u32, u32)>,
        permissions: Option<u32>,
        atime_and_mtime: Option<(u32, u32)>,
    },
    DeleteFile { path: Seq<char> },
    MkDir { path: Seq<char> },
    RmDir { path: Seq<char> },
    Rename { from: Seq<char>, to: Seq<char> },
}

impl View for BackendCall {
    type V = BackendCallView;

    open spec fn view(&self) -> BackendCallView {
        match self {
            BackendCall::Metadata { path } => BackendCallView::Metadata { path: path@ },
            BackendCall::List { path } => BackendCallView::List { path: path@ },
            BackendCall::Open { path, read, write, append, create, truncate, create_new } =>
                BackendCallView::Open {
                path: path@,
                read: *read,
                write: *write,
                append: *append,
                create: *create,
                truncate: *truncate,
                create_new: *create_new,
            },
            BackendCall::Read { handle, offset, len } => BackendCallView::Read {
                handle: *handle,
                offset: *offset,
                len: *len,
            },
            BackendCall::Write { handle, offset, data } => BackendCallView::Write {
                handle: *handle,
                offset: *offset,
                data: data@,
            },
            BackendCall::SetMetadata { path, uid_and_gid, permissions, atime_and_mtime } =>
                BackendCallView::SetMetadata {
                path: path@,
                uid_and_gid: *uid_and_gid,
                permissions: *permissions,
                atime_and_mtime: *atime_and_mtime,
            },
            BackendCall::DeleteFile { path } => BackendCallView::DeleteFile { path: path@ },
            BackendCall::MkDir { path } => BackendCallView::MkDir { path: path@ },
            BackendCall::RmDir { path } => BackendCallView::RmDir { path: path@ },
            BackendCall::Rename { from, to } => BackendCallView::Rename { from: from@, to: to@ },
        }
    }
}

/// How a [`BackendCall`] ended.
#[derive(Clone, Debug)]
pub enum BackendReply {
    /// The operation is done and has nothing to report.
    Done,
    /// The metadata that was asked for, or that of the file just opened.
    Metadata(Metadata),
    /// The children of a directory, each under its bare name.
    Listing(Vec<Metadata>),
    /// A read filled the first `count` bytes of `data`.
    Read { data: Vec<u8>, count: usize },
    /// A write took `count` bytes.
    Written { count: usize },
    /// The operation failed.
    Failed(Error),
}

/// A [`BackendReply`] as contracts see it.
pub enum BackendReplyView {
    Done,
    Metadata(MetadataView),
    Listing(Seq<MetadataView>),
    Read { data: Seq<u8>, count: usize },
    Written { count: usize },
    Failed(Error),
}

impl View for BackendReply {
    type V = BackendReplyView;

    open spec fn view(&self) -> BackendReplyView {
        match self {
            BackendReply::Done => BackendReplyView::Done,
            BackendReply::Metadata(m) => BackendReplyView::Metadata(m@),
            BackendReply::Listing(entries) => BackendReplyView::Listing(
                spec_metadata_views(entries@),
            ),
            BackendReply::Read { data, count } => BackendReplyView::Read {
                data: data@,
                count: *count,
            },
            BackendReply::Written { count } => BackendReplyView::Written { count: *count },
            BackendReply::Failed(e) => BackendReplyView::Failed(*e),
        }
    }
}

/// The entries of a listing as contracts see them.
pub open spec fn spec_metadata_views(entries: Seq<Metadata>) -> Seq<MetadataView> {
    Seq::new(entries.len(), |i: int| entries[i]@)
}

/// What `lexiclean::Lexiclean::lexiclean` makes of a path, both taken as
/// text and read as the host writes paths: the path with every `.` dropped
/// and every `..` resolved against the name before it, as far as there is
/// one.
pub uninterp spec fn lexiclean_result(path: Seq<char>) -> Seq<char>;

/// `lexiclean::Lexiclean::lexiclean` on the path written as `path`, the
/// result written as text again. The cleaning reads nothing but its argument;
/// the contract claims no more of it than that.
#[verifier::external_body]
fn lexiclean(path: &str) -> (r: String)
    ensures
        r@ == lexiclean_result(path@),
{
    lexiclean::Lexiclean::lexiclean(std::path::Path::new(path)).to_string_lossy().into_owned()
}

/// A component of two dots starts at byte `i` of the path `b`.
pub open spec fn spec_parent_at(b: Seq<u8>, i: int) -> bool {
    &&& 0 <= i
    &&& i + 2 <= b.len()
    &&& b[i] == 0x2e
    &&& b[i + 1] == 0x2e
    &&& (i == 0 || b[i - 1] == 0x2f)
    &&& (i + 2 == b.len() || b[i + 2] == 0x2f)
}

/// The path `b` has a component of two dots: it climbs out of where it
/// starts. Lexical cleaning leaves such a component only in front of a path,
/// and only where the path has more of them than names to cancel them.
pub open spec fn spec_has_parent(b: Seq<u8>) -> bool {
    exists|i: int| spec_parent_at(b, i)
}

/// The path `b` holds a zero byte, which no file name can.
pub open spec fn spec_has_nul(b: Seq<u8>) -> bool {
    exists|i: int| 0 <= i < b.len() && b[i] == 0
}

/// The path `b` cannot be kept under a root.
pub open spec fn spec_escapes(b: Seq<u8>) -> bool {
    spec_has_parent(b) || spec_has_nul(b)
}

/// Whether the cleaned path `cleaned` can be kept under a root: it is
/// handed back where it can, and refused where it climbs out or holds a zero
/// byte.
pub fn check_jailed(cleaned: String) -> (r: Result<String, Error>)
    ensures
        match r {
            Ok(p) => p@ == cleaned@ && !spec_escapes(encode_utf8(cleaned@)),
            Err(e) => e == Error::InvalidPath && spec_escapes(encode_utf8(cleaned@)),
        },
{
    let bytes = cleaned.as_str().as_bytes();
    let n = bytes.len();
    let mut i: usize = 0;
    while i < n
        invariant
            i <= n,
            n == bytes@.len(),
            bytes@ == encode_utf8(cleaned@),
            forall|j: int| 0 <= j < i ==> !spec_parent_at(bytes@, j) && bytes@[j] != 0,
        decreases n - i,
    {
        if bytes[i] == 0 {
            return Err(Error::InvalidPath);
        }
        if bytes[i] == 0x2e && n - i >= 2 && bytes[i + 1] == 0x2e && (i == 0 || bytes[i - 1]
            == 0x2f) && (n - i == 2 || bytes[i + 2] == 0x2f) {
            assert(spec_parent_at(bytes@, i as int));
            return Err(Error::InvalidPath);
        }
        i = i + 1;
    }
    Ok(cleaned)
}

/// The lexically clean form of `path`, where that form stays below where it
/// starts; no file system is consulted.
pub fn normalize_path(path: &str) -> (r: Result<String, Error>)
    ensures
        match r {
            Ok(p) => p@ == lexiclean_result(path@) && !spec_escapes(encode_utf8(p@)),
            Err(e) => e == Error::InvalidPath && spec_escapes(
                encode_utf8(lexiclean_result(path@)),
            ),
        },
{
    check_jailed(lexiclean(path))
}

} // verus!
