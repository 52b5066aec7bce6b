//! The dispatcher of one session: what becomes of each request.
//!
//! The dispatcher performs no input or output. A request is either answered
//! at once, or it yields one operation for the backend; whoever drives the
//! session performs the operation and hands the outcome back, and the
//! dispatcher answers then, or asks for the next operation.

use crate::backend::{
    lexiclean_result, normalize_path, spec_escapes, spec_metadata_views, BackendCall,
    BackendCallView, BackendReply, BackendReplyView,
};
use crate::common::metadata::MetadataView;
use crate::common::{FileAttributes, Metadata, ATTR_ACMODTIME, ATTR_UIDGID};
use crate::error::Error;
use crate::file::{advance, spec_advance, OpenFile, OpenFileView};
use crate::reassembly::{Frame, FrameView};
use crate::stream::packet::body::Body;
use crate::stream::packet::kind::PacketType;
use crate::stream::packet::name::{spec_file_views, File, FileView, Name};
use crate::stream::packet::open::{
    OPEN_APPEND, OPEN_CREATE, OPEN_EXCLUDE, OPEN_READ, OPEN_TRUNCATE, OPEN_WRITE,
};
use crate::stream::packet::response::{Attrs, Data, Handle};
use crate::stream::packet::status::StatusType;
use crate::stream::packet::{Packet, PacketView, Payload, PayloadTrait, PayloadView};
use crate::util::{lemma_encode_len_bound, spec_hyphenated, uuid_new_v4, uuid_text};
use std::collections::HashMap;
use vstd::prelude::*;
use vstd::string::StringExecFns;
use vstd::utf8::encode_utf8;

verus! {

broadcast use vstd::std_specs::hash::group_hash_axioms;

/// The protocol version that the server speaks.
pub const PROTOCOL_VERSION: u32 = 3;

/// An open directory: its entries, all read when it was opened, and how
/// many of them have been handed out.
#[derive(Clone, Debug)]
pub struct OpenDirectory {
    pub files: Vec<File>,
    pub index: usize,
}

/// An [`OpenDirectory`] as contracts see it.
pub struct OpenDirectoryView {
    pub files: Seq<FileView>,
    pub index: nat,
}

impl View for OpenDirectory {
    type V = OpenDirectoryView;

    open spec fn view(&self) -> OpenDirectoryView {
        OpenDirectoryView { files: spec_file_views(self.files@), index: self.index as nat }
    }
}

/// What a request waits for while the backend works.
#[derive(Clone, Debug, PartialEq, Eq)]
pub enum Waiting {
    Open,
    Read { handle: u128, offset: u64 },
    Write,
    Stat,
    SetStat,
    OpenDir { path: String },
    Remove,
    MkDir,
    RmDir,
    Rename,
    RealPath { normalized: String },
}

/// A [`Waiting`] as contracts see it.
pub enum WaitingView {
    Open,
    Read { handle: u128, offset: u64 },
    Write,
    Stat,
    SetStat,
    OpenDir { path: Seq<char> },
    Remove,
    MkDir,
    RmDir,
    Rename,
    RealPath { normalized: Seq<char> },
}

impl View for Waiting {
    type V = WaitingView;

    open spec fn view(&self) -> WaitingView {
        match self {
            Waiting::Open => WaitingView::Open,
            Waiting::Read { handle, offset } => WaitingView::Read {
                handle: *handle,
                offset: *offset,
            },
            Waiting::Write => WaitingView::Write,
            Waiting::Stat => WaitingView::Stat,
            Waiting::SetStat => WaitingView::SetStat,
            Waiting::OpenDir { path } => WaitingView::OpenDir { path: path@ },
            Waiting::Remove => WaitingView::Remove,
            Waiting::MkDir => WaitingView::MkDir,
            Waiting::RmDir => WaitingView::RmDir,
            Waiting::Rename => WaitingView::Rename,
            Waiting::RealPath { normalized } => WaitingView::RealPath {
                normalized: normalized@,
            },
        }
    }
}

/// A request that waits for the backend: the request, what it waits for,
/// and the operation to perform.
#[derive(Clone, Debug, PartialEq, Eq)]
pub struct Pending {
    pub id: u32,
    pub waiting: Waiting,
    pub call: BackendCall,
}

/// A [`Pending`] as contracts see it.
pub struct PendingView {
    pub id: u32,
    pub waiting: WaitingView,
    pub call: BackendCallView,
}

impl View for Pending {
    type V = PendingView;

    open spec fn view(&self) -> PendingView {
        PendingView { id: self.id, waiting: self.waiting@, call: self.call@ }
    }
}

/// What the dispatcher decides: a response to send, or an operation for the
/// backend, to be handed back with its outcome.
#[derive(Clone, Debug, PartialEq, Eq)]
pub enum Step {
    Respond(Packet),
    Call(Pending),
}

/// A [`Step`] as contracts see it.
pub enum StepView {
    Respond(PacketView),
    Call(PendingView),
}

impl View for Step {
    type V = StepView;

    open spec fn view(&self) -> StepView {
        match self {
            Step::Respond(p) => StepView::Respond(p@),
            Step::Call(p) => StepView::Call(p@),
        }
    }
}

/// The state of one session: the files and the directories that it holds
/// open, each under its handle.
pub struct Server {
    pub id: usize,
    open_dirs: HashMap<u128, OpenDirectory>,
    open_files: HashMap<u128, OpenFile>,
}

/// A [`Server`] as contracts see it.
#[verifier::ext_equal]
pub struct ServerView {
    pub id: usize,
    pub open_files: Map<u128, OpenFileView>,
    pub open_dirs: Map<u128, OpenDirectoryView>,
}

impl View for Server {
    type V = ServerView;

    closed spec fn view(&self) -> ServerView {
        ServerView {
            id: self.id,
            open_files: Map::new(
                |h: u128| self.open_files@.contains_key(h),
                |h: u128| self.open_files@[h]@,
            ),
            open_dirs: Map::new(
                |h: u128| self.open_dirs@.contains_key(h),
                |h: u128| self.open_dirs@[h]@,
            ),
        }
    }
}

impl ServerView {
    /// The handle `h` stands for an open file or an open directory.
    pub open spec fn live(self, h: u128) -> bool {
        self.open_files.contains_key(h) || self.open_dirs.contains_key(h)
    }

    /// No handle stands for a file and for a directory at once.
    pub open spec fn wf(self) -> bool {
        forall|h: u128| !(self.open_files.contains_key(h) && self.open_dirs.contains_key(h))
    }
}

/// A status response in the language "en-US".
pub open spec fn spec_status(id: u32, status: StatusType, message: Seq<char>) -> PayloadView {
    PayloadView {
        kind: PacketType::Status,
        body: Body::Status { id, status, message, language: "en-US"@ },
    }
}

/// The packet that carries the response `v`; where `v` is too large for any
/// packet, a failure status for the same request in its place.
pub open spec fn spec_packet(v: PayloadView) -> PacketView {
    if v.fits() {
        PacketView { header: v.spec_header(), payload: v }
    } else {
        let status = spec_status(
            match v.body.id() {
                Some(id) => id,
                None => 0,
            },
            StatusType::Failure,
            "response too large"@,
        );
        PacketView { header: status.spec_header(), payload: status }
    }
}

/// The step that answers with the response `v`.
pub open spec fn spec_reply(v: PayloadView) -> StepView {
    StepView::Respond(spec_packet(v))
}

/// The step that answers with a status.
pub open spec fn spec_reply_status(id: u32, status: StatusType, message: Seq<char>) -> StepView {
    spec_reply(spec_status(id, status, message))
}

/// The step that hands an operation to the backend.
pub open spec fn spec_call(id: u32, waiting: WaitingView, call: BackendCallView) -> StepView {
    StepView::Call(PendingView { id, waiting, call })
}

/// What a failure of the backend is called in the response, by what the
/// request was waiting for.
pub open spec fn spec_failure_prefix(waiting: WaitingView) -> Seq<char> {
    match waiting {
        WaitingView::Open => "Failed to open file: "@,
        WaitingView::SetStat => "Failed to set metadata: "@,
        WaitingView::Remove => "Failed to delete file: "@,
        WaitingView::MkDir => "Failed to create directory: "@,
        WaitingView::RmDir => "Failed to delete directory: "@,
        WaitingView::Rename => "Failed to rename: "@,
        WaitingView::Read { .. } => "Failed to read: "@,
        WaitingView::Write => "Failed to write: "@,
        WaitingView::Stat => "Failed to read metadata: "@,
        WaitingView::OpenDir { .. } => "Failed to list directory: "@,
        WaitingView::RealPath { .. } => "Failed to read metadata: "@,
    }
}

/// The owner and the group that a request to set attributes carries.
pub open spec fn spec_uid_gid(attrs: FileAttributes) -> Option<(u32, u32)> {
    if attrs.flags.contains(ATTR_UIDGID) {
        Some((attrs.uid.unwrap_or(0), attrs.gid.unwrap_or(0)))
    } else {
        None
    }
}

/// The two times that a request to set attributes carries.
pub open spec fn spec_atime_mtime(attrs: FileAttributes) -> Option<(u32, u32)> {
    if attrs.flags.contains(ATTR_ACMODTIME) {
        Some((attrs.atime.unwrap_or(0), attrs.mtime.unwrap_or(0)))
    } else {
        None
    }
}

/// The operation that sets the attributes `attrs` on `path`.
pub open spec fn spec_set_metadata(path: Seq<char>, attrs: FileAttributes) -> BackendCallView {
    BackendCallView::SetMetadata {
        path,
        uid_and_gid: spec_uid_gid(attrs),
        permissions: attrs.permissions,
        atime_and_mtime: spec_atime_mtime(attrs),
    }
}

/// What becomes of a request to close `handle`: the file of that handle is
/// given up, or else the directory; a handle that stands for neither is
/// reported.
pub open spec fn spec_close(state: ServerView, id: u32, handle: u128) -> (ServerView, StepView) {
    if state.open_files.contains_key(handle) {
        (
            ServerView { open_files: state.open_files.remove(handle), ..state },
            spec_reply_status(id, StatusType::OK, "OK"@),
        )
    } else if state.open_dirs.contains_key(handle) {
        (
            ServerView { open_dirs: state.open_dirs.remove(handle), ..state },
            spec_reply_status(id, StatusType::OK, "OK"@),
        )
    } else {
        (
            state,
            spec_reply_status(
                id,
                StatusType::NoSuchFile,
                "Handle "@ + spec_hyphenated(handle) + " does not exist"@,
            ),
        )
    }
}

/// What becomes of a request for the attributes of the open file `handle`:
/// the attributes made of the metadata taken when it was opened.
pub open spec fn spec_fstat(state: ServerView, id: u32, handle: u128) -> StepView {
    if state.open_files.contains_key(handle) {
        spec_reply(
            PayloadView {
                kind: PacketType::Attrs,
                body: Body::Attrs {
                    id,
                    attrs: FileAttributes::spec_from_metadata(state.open_files[handle].metadata),
                },
            },
        )
    } else {
        spec_reply_status(id, StatusType::NoSuchFile, "Handle not found"@)
    }
}

/// What becomes of a request for entries of the open directory `handle`:
/// all entries not handed out yet, in one response, and the end of the
/// directory once none is left.
pub open spec fn spec_read_dir(state: ServerView, id: u32, handle: u128) -> (
    ServerView,
    StepView,
) {
    if state.open_dirs.contains_key(handle) {
        let dir = state.open_dirs[handle];
        if dir.index >= dir.files.len() {
            (state, spec_reply_status(id, StatusType::EOF, "EOF"@))
        } else {
            (
                ServerView {
                    open_dirs: state.open_dirs.insert(
                        handle,
                        OpenDirectoryView { files: dir.files, index: dir.files.len() },
                    ),
                    ..state
                },
                spec_reply(
                    PayloadView {
                        kind: PacketType::Name,
                        body: Body::Name { id, files: dir.files.skip(dir.index as int) },
                    },
                ),
            )
        }
    } else {
        (state, spec_reply_status(id, StatusType::NoSuchFile, "Handle not found"@))
    }
}

/// What becomes of a request for the normal form of `path`: a path that
/// cannot be kept under a root is refused; for any other, the backend is
/// asked for the metadata of `path`.
pub open spec fn spec_real_path(id: u32, path: Seq<char>) -> StepView {
    if spec_escapes(encode_utf8(lexiclean_result(path))) {
        spec_reply_status(id, StatusType::Failure, Error::InvalidPath.spec_to_string())
    } else {
        spec_call(
            id,
            WaitingView::RealPath { normalized: lexiclean_result(path) },
            BackendCallView::Metadata { path },
        )
    }
}

/// The answer to a packet that no client may send.
pub open spec fn spec_bad_message(id: u32) -> StepView {
    spec_reply_status(id, StatusType::BadMessage, "Bad message"@)
}

/// The answer to a request that the server does not carry out.
pub open spec fn spec_unsupported(id: u32) -> StepView {
    spec_reply_status(id, StatusType::OpUnsupported, "Operation unsupported"@)
}

/// What becomes of a request: the state after it, and the response, or the
/// operation that the backend is to perform first.
pub open spec fn spec_process(state: ServerView, input: PayloadView) -> (ServerView, StepView) {
    match input.body {
        Body::Handshake { .. } => if input.kind == PacketType::Init {
            (
                state,
                spec_reply(
                    PayloadView {
                        kind: PacketType::Version,
                        body: Body::Handshake {
                            version: PROTOCOL_VERSION,
                            extension_data: Seq::empty(),
                        },
                    },
                ),
            )
        } else {
            (state, spec_bad_message(0))
        },
        Body::Open { id, path, pflags, attrs } => (
            state,
            spec_call(
                id,
                WaitingView::Open,
                BackendCallView::Open {
                    path,
                    read: pflags & OPEN_READ == OPEN_READ,
                    write: pflags & OPEN_WRITE == OPEN_WRITE,
                    append: pflags & OPEN_APPEND == OPEN_APPEND,
                    create: pflags & OPEN_CREATE == OPEN_CREATE,
                    truncate: pflags & OPEN_TRUNCATE == OPEN_TRUNCATE,
                    create_new: pflags & OPEN_EXCLUDE == OPEN_EXCLUDE,
                },
            ),
        ),
        Body::Handle { id, handle } => match input.kind {
            PacketType::Close => spec_close(state, id, handle),
            PacketType::Fstat => (state, spec_fstat(state, id, handle)),
            PacketType::ReadDir => spec_read_dir(state, id, handle),
            _ => (state, spec_bad_message(id)),
        },
        Body::Read { id, handle, offset, len } => (
            state,
            if state.open_files.contains_key(handle) {
                spec_call(
                    id,
                    WaitingView::Read { handle, offset },
                    BackendCallView::Read { handle, offset, len },
                )
            } else {
                spec_reply_status(id, StatusType::NoSuchFile, "No such file"@)
            },
        ),
        Body::Write { id, handle, offset, data } => (
            state,
            if state.open_files.contains_key(handle) {
                spec_call(id, WaitingView::Write, BackendCallView::Write { handle, offset, data })
            } else {
                spec_reply_status(id, StatusType::NoSuchFile, "No such file"@)
            },
        ),
        Body::Path { id, path } => (
            state,
            match input.kind {
                PacketType::Lstat | PacketType::Stat => spec_call(
                    id,
                    WaitingView::Stat,
                    BackendCallView::Metadata { path },
                ),
                PacketType::OpenDir => spec_call(
                    id,
                    WaitingView::OpenDir { path },
                    BackendCallView::List { path },
                ),
                PacketType::Remove => spec_call(
                    id,
                    WaitingView::Remove,
                    BackendCallView::DeleteFile { path },
                ),
                PacketType::RmDir => spec_call(
                    id,
                    WaitingView::RmDir,
                    BackendCallView::RmDir { path },
                ),
                PacketType::RealPath => spec_real_path(id, path),
                _ => spec_unsupported(id),
            },
        ),
        Body::PathAttrs { id, path, attrs } => (
            state,
            if input.kind == PacketType::SetStat {
                spec_call(id, WaitingView::SetStat, spec_set_metadata(path, attrs))
            } else {
                spec_call(id, WaitingView::MkDir, BackendCallView::MkDir { path })
            },
        ),
        Body::HandleAttrs { id, handle, attrs } => (
            state,
            if state.open_files.contains_key(handle) {
                spec_call(
                    id,
                    WaitingView::SetStat,
                    spec_set_metadata(state.open_files[handle].metadata.path, attrs),
                )
            } else {
                spec_reply_status(id, StatusType::NoSuchFile, "Handle not found"@)
            },
        ),
        Body::TwoPaths { id, first, second } => (
            state,
            if input.kind == PacketType::Rename {
                spec_call(
                    id,
                    WaitingView::Rename,
                    BackendCallView::Rename { from: first, to: second },
                )
            } else {
                spec_unsupported(id)
            },
        ),
        Body::Extended { id, .. } => (state, spec_unsupported(id)),
        Body::Status { id, .. } => (state, spec_bad_message(id)),
        Body::Data { id, .. } => (state, spec_bad_message(id)),
        Body::Name { id, .. } => (state, spec_bad_message(id)),
        Body::Attrs { id, .. } => (state, spec_bad_message(id)),
        Body::ExtendedReply { id, .. } => (state, spec_bad_message(id)),
    }
}

/// The state in which the open file `handle`, if there is one, has moved to
/// the position `pos`.
pub open spec fn spec_with_position(state: ServerView, handle: u128, pos: u64) -> ServerView {
    if state.open_files.contains_key(handle) {
        ServerView {
            open_files: state.open_files.insert(
                handle,
                OpenFileView { pos, ..state.open_files[handle] },
            ),
            ..state
        }
    } else {
        state
    }
}

/// What becomes of a file that the backend has opened: it is held under the
/// handle `candidate`, unless that handle stands for something already.
pub open spec fn spec_register_file(
    state: ServerView,
    id: u32,
    metadata: MetadataView,
    candidate: u128,
) -> (ServerView, StepView) {
    if state.live(candidate) {
        (state, spec_reply_status(id, StatusType::Failure, "Failed to open file: no free handle"@))
    } else {
        (
            ServerView {
                open_files: state.open_files.insert(candidate, OpenFileView { metadata, pos: 0 }),
                ..state
            },
            spec_reply(
                PayloadView {
                    kind: PacketType::Handle,
                    body: Body::Handle { id, handle: candidate },
                },
            ),
        )
    }
}

/// The name `name` seen from the directory `dir`: `name` alone where `dir` is
/// empty, else `dir`, a slash where `dir` does not end in one, and `name`.
pub open spec fn spec_join(dir: Seq<char>, name: Seq<char>) -> Seq<char> {
    if encode_utf8(dir).len() == 0 {
        name
    } else if encode_utf8(dir).last() == 0x2f {
        dir + name
    } else {
        dir + "/"@ + name
    }
}

/// The entry that lists the child `m` of the directory `dir`: its bare name,
/// its name seen from `dir`, and its attributes.
pub open spec fn spec_listed(dir: Seq<char>, m: MetadataView) -> FileView {
    FileView {
        filename: m.path,
        longname: spec_join(dir, m.path),
        attrs: FileAttributes::spec_from_metadata(m),
    }
}

/// The entries that list the children `entries` of the directory `dir`, in
/// the order of `entries`.
pub open spec fn spec_listing(dir: Seq<char>, entries: Seq<MetadataView>) -> Seq<FileView> {
    Seq::new(entries.len(), |i: int| spec_listed(dir, entries[i]))
}

/// What becomes of a directory that the backend has listed: its entries are
/// held under the handle `candidate`, none of them handed out yet, unless
/// that handle stands for something already.
pub open spec fn spec_register_dir(
    state: ServerView,
    id: u32,
    path: Seq<char>,
    entries: Seq<MetadataView>,
    candidate: u128,
) -> (ServerView, StepView) {
    if state.live(candidate) {
        (
            state,
            spec_reply_status(
                id,
                StatusType::Failure,
                "Failed to list directory: no free handle"@,
            ),
        )
    } else {
        (
            ServerView {
                open_dirs: state.open_dirs.insert(
                    candidate,
                    OpenDirectoryView { files: spec_listing(path, entries), index: 0 },
                ),
                ..state
            },
            spec_reply(
                PayloadView {
                    kind: PacketType::Handle,
                    body: Body::Handle { id, handle: candidate },
                },
            ),
        )
    }
}

/// What becomes of a read that filled `count` bytes of `data`: the end of
/// the file where it filled none, else the bytes that it filled.
pub open spec fn spec_read_done(
    state: ServerView,
    id: u32,
    handle: u128,
    offset: u64,
    data: Seq<u8>,
    count: usize,
) -> (ServerView, StepView) {
    if count == 0 {
        (state, spec_reply_status(id, StatusType::EOF, "EOF"@))
    } else {
        (
            spec_with_position(state, handle, spec_advance(offset, count)),
            spec_reply(
                PayloadView {
                    kind: PacketType::Data,
                    body: Body::Data {
                        id,
                        data: if count <= data.len() {
                            data.take(count as int)
                        } else {
                            data
                        },
                    },
                },
            ),
        )
    }
}

/// What becomes of a write that took `count` bytes: success once all bytes
/// are taken, else one more write, of the bytes not taken yet, behind the
/// bytes taken.
pub open spec fn spec_write_done(
    state: ServerView,
    id: u32,
    call: BackendCallView,
    count: usize,
) -> (
    ServerView,
    StepView,
) {
    match call {
        BackendCallView::Write { handle, offset, data } => if count >= data.len() {
            (
                spec_with_position(state, handle, spec_advance(offset, count)),
                spec_reply_status(id, StatusType::OK, "OK"@),
            )
        } else if offset + count > u64::MAX {
            (
                state,
                spec_reply_status(id, StatusType::Failure, "Failed to write: offset out of range"@),
            )
        } else {
            (
                spec_with_position(state, handle, spec_advance(offset, count)),
                spec_call(
                    id,
                    WaitingView::Write,
                    BackendCallView::Write {
                        handle,
                        offset: (offset + count) as u64,
                        data: data.skip(count as int),
                    },
                ),
            )
        },
        _ => (state, spec_unexpected(id)),
    }
}

/// The answer where the outcome handed back is none that the operation has.
pub open spec fn spec_unexpected(id: u32) -> StepView {
    spec_reply_status(id, StatusType::Failure, "Unexpected answer from the backend"@)
}

/// What becomes of a request once the backend has performed its operation:
/// the state after it, and the response, or the next operation. A file or a
/// directory that was opened is held under the handle `candidate`.
pub open spec fn spec_resume(
    state: ServerView,
    pending: PendingView,
    reply: BackendReplyView,
    candidate: u128,
) -> (ServerView, StepView) {
    let id = pending.id;
    match reply {
        BackendReplyView::Failed(e) => (
            state,
            spec_reply_status(
                id,
                StatusType::Failure,
                spec_failure_prefix(pending.waiting) + e.spec_to_string(),
            ),
        ),
        BackendReplyView::Done => (
            state,
            match pending.waiting {
                WaitingView::SetStat
                | WaitingView::Remove
                | WaitingView::MkDir
                | WaitingView::RmDir
                | WaitingView::Rename => spec_reply_status(id, StatusType::OK, "OK"@),
                _ => spec_unexpected(id),
            },
        ),
        BackendReplyView::Metadata(m) => match pending.waiting {
            WaitingView::Open => spec_register_file(state, id, m, candidate),
            WaitingView::Stat => (
                state,
                spec_reply(
                    PayloadView {
                        kind: PacketType::Attrs,
                        body: Body::Attrs { id, attrs: FileAttributes::spec_from_metadata(m) },
                    },
                ),
            ),
            WaitingView::RealPath { normalized } => (
                state,
                spec_reply(
                    PayloadView {
                        kind: PacketType::Name,
                        body: Body::Name {
                            id,
                            files: seq![
                                FileView {
                                    filename: normalized,
                                    longname: normalized,
                                    attrs: FileAttributes::spec_from_metadata(m),
                                },
                            ],
                        },
                    },
                ),
            ),
            _ => (state, spec_unexpected(id)),
        },
        BackendReplyView::Listing(entries) => match pending.waiting {
            WaitingView::OpenDir { path } => spec_register_dir(state, id, path, entries, candidate),
            _ => (state, spec_unexpected(id)),
        },
        BackendReplyView::Read { data, count } => match pending.waiting {
            WaitingView::Read { handle, offset } => spec_read_done(
                state,
                id,
                handle,
                offset,
                data,
                count,
            ),
            _ => (state, spec_unexpected(id)),
        },
        BackendReplyView::Written { count } => match pending.waiting {
            WaitingView::Write => spec_write_done(state, id, pending.call, count),
            _ => (state, spec_unexpected(id)),
        },
    }
}

/// What becomes of a frame cut off the stream: a packet is dispatched as
/// the request that it is; a payload that could not be read is answered with
/// the status "bad message", for the request that its first bytes name.
pub open spec fn spec_process_frame(state: ServerView, frame: FrameView) -> (
    ServerView,
    StepView,
) {
    match frame {
        FrameView::Packet(p) => spec_process(state, p.payload),
        FrameView::Malformed { id } => (
            state,
            spec_reply_status(id, StatusType::BadMessage, Error::Packet.spec_to_string()),
        ),
    }
}

/// The packet that carries the response `payload`; where the payload is too
/// large for any packet, a failure status for the same request in its place.
pub fn respond(payload: Payload) -> (r: Packet)
    ensures
        r@ == spec_packet(payload@),
        r@.wf(),
{
    let id = match payload.id() {
        Some(id) => id,
        None => 0,
    };
    match payload.try_into_packet() {
        Some(p) => p,
        None => {
            let status = Payload::status(id, StatusType::Failure, "response too large");
            proof {
                reveal_strlit("response too large");
                reveal_strlit("en-US");
                lemma_encode_len_bound("response too large"@);
                lemma_encode_len_bound("en-US"@);
                status@.body.lemma_binsize();
            }
            status.into_packet()
        },
    }
}

/// The step that answers with a status.
pub fn reply_status(id: u32, status: StatusType, message: &str) -> (r: Step)
    ensures
        r@ == spec_reply_status(id, status, message@),
{
    Step::Respond(respond(Payload::status(id, status, message)))
}

/// The owner and the group that a request to set attributes carries.
pub fn uid_gid(attrs: &FileAttributes) -> (r: Option<(u32, u32)>)
    ensures
        r == spec_uid_gid(*attrs),
{
    if attrs.flags.contains(ATTR_UIDGID) {
        Some((attrs.uid.unwrap_or(0), attrs.gid.unwrap_or(0)))
    } else {
        None
    }
}

/// The two times that a request to set attributes carries.
pub fn atime_mtime(attrs: &FileAttributes) -> (r: Option<(u32, u32)>)
    ensures
        r == spec_atime_mtime(*attrs),
{
    if attrs.flags.contains(ATTR_ACMODTIME) {
        Some((attrs.atime.unwrap_or(0), attrs.mtime.unwrap_or(0)))
    } else {
        None
    }
}

fn call_step(id: u32, waiting: Waiting, call: BackendCall) -> (r: Step)
    ensures
        r@ == spec_call(id, waiting@, call@),
{
    Step::Call(Pending { id, waiting, call })
}

fn set_metadata_call(path: String, attrs: &FileAttributes) -> (r: BackendCall)
    ensures
        r@ == spec_set_metadata(path@, *attrs),
{
    BackendCall::SetMetadata {
        path,
        uid_and_gid: uid_gid(attrs),
        permissions: attrs.get_permissions(),
        atime_and_mtime: atime_mtime(attrs),
    }
}

impl Server {
    /// The state holds what a session's state must: no handle stands for a
    /// file and for a directory at once.
    pub open spec fn wf(&self) -> bool {
        self@.wf()
    }

    /// The state of a session that holds nothing open.
    pub fn new(id: usize) -> (r: Self)
        ensures
            r@.id == id,
            r@.open_files == Map::<u128, OpenFileView>::empty(),
            r@.open_dirs == Map::<u128, OpenDirectoryView>::empty(),
            r.wf(),
    {
        let r = Server { id, open_dirs: HashMap::new(), open_files: HashMap::new() };
        assert(r@.open_files =~= Map::<u128, OpenFileView>::empty());
        assert(r@.open_dirs =~= Map::<u128, OpenDirectoryView>::empty());
        r
    }

    /// Whether `handle` stands for an open file or an open directory.
    pub fn is_live(&self, handle: u128) -> (r: bool)
        ensures
            r == self@.live(handle),
    {
        self.open_files.contains_key(&handle) || self.open_dirs.contains_key(&handle)
    }

    fn close(&mut self, id: u32, handle: u128) -> (r: Step)
        ensures
            (final(self)@, r@) == spec_close(old(self)@, id, handle),
    {
        match self.open_files.remove(&handle) {
            Some(_) => {
                assert(self@ =~= (ServerView {
                    open_files: old(self)@.open_files.remove(handle),
                    ..old(self)@
                }));
                reply_status(id, StatusType::OK, "OK")
            },
            None => {
                assert(self@ =~= old(self)@);
                match self.open_dirs.remove(&handle) {
                    Some(_) => {
                        assert(self@ =~= (ServerView {
                            open_dirs: old(self)@.open_dirs.remove(handle),
                            ..old(self)@
                        }));
                        reply_status(id, StatusType::OK, "OK")
                    },
                    None => {
                        assert(self@ =~= old(self)@);
                        let mut message = "Handle ".to_owned();
                        message.append(uuid_text(handle).as_str());
                        message.append(" does not exist");
                        reply_status(id, StatusType::NoSuchFile, message.as_str())
                    },
                }
            },
        }
    }

    fn fstat(&self, id: u32, handle: u128) -> (r: Step)
        ensures
            r@ == spec_fstat(self@, id, handle),
    {
        match self.open_files.get(&handle) {
            Some(v) => {
                let mut attrs = Payload::attrs(id);
                attrs.attrs = FileAttributes::from_metadata(&v.metadata);
                Step::Respond(respond(Payload::Attrs(attrs)))
            },
            None => reply_status(id, StatusType::NoSuchFile, "Handle not found"),
        }
    }

    fn read_dir(&mut self, id: u32, handle: u128) -> (r: Step)
        ensures
            (final(self)@, r@) == spec_read_dir(old(self)@, id, handle),
    {
        match self.open_dirs.remove(&handle) {
            Some(mut dir) => {
                let ghost before = dir@;
                let step = if dir.index >= dir.files.len() {
                    reply_status(id, StatusType::EOF, "EOF")
                } else {
                    let mut payload = Payload::name(id);
                    let mut n: usize = dir.index;
                    assert(spec_file_views(payload.files@) =~= before.files.subrange(
                        dir.index as int,
                        n as int,
                    ));
                    while n < dir.files.len()
                        invariant
                            dir.index <= n <= dir.files.len(),
                            dir@ == before,
                            payload.id == id,
                            spec_file_views(payload.files@) == before.files.subrange(
                                dir.index as int,
                                n as int,
                            ),
                        decreases dir.files.len() - n,
                    {
                        let ghost listed = spec_file_views(payload.files@);
                        payload.files.push(dir.files[n].clone());
                        assert(spec_file_views(payload.files@) =~= listed.push(
                            before.files[n as int],
                        ));
                        assert(before.files.subrange(dir.index as int, n + 1) =~= listed.push(
                            before.files[n as int],
                        ));
                        n = n + 1;
                    }
                    assert(before.files.subrange(dir.index as int, n as int) =~= before.files.skip(
                        dir.index as int,
                    ));
                    dir.index = dir.files.len();
                    Step::Respond(respond(Payload::Name(payload)))
                };
                self.open_dirs.insert(handle, dir);
                assert(self@ =~= spec_read_dir(old(self)@, id, handle).0);
                step
            },
            None => {
                assert(self@ =~= old(self)@);
                reply_status(id, StatusType::NoSuchFile, "Handle not found")
            },
        }
    }

    fn real_path(id: u32, path: String) -> (r: Step)
        ensures
            r@ == spec_real_path(id, path@),
    {
        match normalize_path(path.as_str()) {
            Ok(normalized) => call_step(
                id,
                Waiting::RealPath { normalized },
                BackendCall::Metadata { path },
            ),
            Err(e) => reply_status(id, StatusType::Failure, e.to_string().as_str()),
        }
    }

    /// Decides what becomes of the request `input`: the response to send, or
    /// the operation that the backend is to perform before there is one.
    pub fn process_request(&mut self, input: Packet) -> (r: Step)
        ensures
            (final(self)@, r@) == spec_process(old(self)@, input@.payload),
            old(self).wf() ==> final(self).wf(),
    {
        match input.payload {
            Payload::Init(_) => Step::Respond(
                respond(Payload::version(PROTOCOL_VERSION, Vec::new())),
            ),
            Payload::Version(_) => reply_status(0, StatusType::BadMessage, "Bad message"),
            Payload::Open(r) => call_step(
                r.id,
                Waiting::Open,
                BackendCall::Open {
                    path: r.path,
                    read: r.pflags.contains(OPEN_READ),
                    write: r.pflags.contains(OPEN_WRITE),
                    append: r.pflags.contains(OPEN_APPEND),
                    create: r.pflags.contains(OPEN_CREATE),
                    truncate: r.pflags.contains(OPEN_TRUNCATE),
                    create_new: r.pflags.contains(OPEN_EXCLUDE),
                },
            ),
            Payload::Close(r) => self.close(r.id, r.handle),
            Payload::Read(r) => if self.open_files.contains_key(&r.handle) {
                call_step(
                    r.id,
                    Waiting::Read { handle: r.handle, offset: r.offset },
                    BackendCall::Read { handle: r.handle, offset: r.offset, len: r.len },
                )
            } else {
                reply_status(r.id, StatusType::NoSuchFile, "No such file")
            },
            Payload::Write(r) => if self.open_files.contains_key(&r.handle) {
                call_step(
                    r.id,
                    Waiting::Write,
                    BackendCall::Write { handle: r.handle, offset: r.offset, data: r.data },
                )
            } else {
                reply_status(r.id, StatusType::NoSuchFile, "No such file")
            },
            Payload::Lstat(r) => call_step(
                r.id,
                Waiting::Stat,
                BackendCall::Metadata { path: r.path },
            ),
            Payload::Fstat(r) => self.fstat(r.id, r.handle),
            Payload::SetStat(r) => call_step(
                r.id,
                Waiting::SetStat,
                set_metadata_call(r.path, &r.attrs),
            ),
            Payload::FSetStat(r) => match self.open_files.get(&r.handle) {
                Some(v) => call_step(
                    r.id,
                    Waiting::SetStat,
                    set_metadata_call(v.metadata.path.clone(), &r.attrs),
                ),
                None => reply_status(r.id, StatusType::NoSuchFile, "Handle not found"),
            },
            Payload::OpenDir(r) => {
                let path = r.path.clone();
                call_step(r.id, Waiting::OpenDir { path }, BackendCall::List { path: r.path })
            },
            Payload::ReadDir(r) => self.read_dir(r.id, r.handle),
            Payload::Remove(r) => call_step(
                r.id,
                Waiting::Remove,
                BackendCall::DeleteFile { path: r.path },
            ),
            Payload::MkDir(r) => call_step(
                r.id,
                Waiting::MkDir,
                BackendCall::MkDir { path: r.path },
            ),
            Payload::RmDir(r) => call_step(
                r.id,
                Waiting::RmDir,
                BackendCall::RmDir { path: r.path },
            ),
            Payload::RealPath(r) => Self::real_path(r.id, r.path),
            Payload::Stat(r) => call_step(
                r.id,
                Waiting::Stat,
                BackendCall::Metadata { path: r.path },
            ),
            Payload::Rename(r) => call_step(
                r.id,
                Waiting::Rename,
                BackendCall::Rename { from: r.oldpath, to: r.newpath },
            ),
            Payload::ReadLink(r) => reply_status(
                r.id,
                StatusType::OpUnsupported,
                "Operation unsupported",
            ),
            Payload::Symlink(r) => reply_status(
                r.id,
                StatusType::OpUnsupported,
                "Operation unsupported",
            ),
            Payload::Extended(r) => reply_status(
                r.id,
                StatusType::OpUnsupported,
                "Operation unsupported",
            ),
            Payload::Status(r) => reply_status(r.id, StatusType::BadMessage, "Bad message"),
            Payload::Handle(r) => reply_status(r.id, StatusType::BadMessage, "Bad message"),
            Payload::Data(r) => reply_status(r.id, StatusType::BadMessage, "Bad message"),
            Payload::Name(r) => reply_status(r.id, StatusType::BadMessage, "Bad message"),
            Payload::Attrs(r) => reply_status(r.id, StatusType::BadMessage, "Bad message"),
            Payload::ExtendedReply(r) => reply_status(r.id, StatusType::BadMessage, "Bad message"),
        }
    }

    fn record_position(&mut self, handle: u128, pos: u64)
        ensures
            final(self)@ == spec_with_position(old(self)@, handle, pos),
    {
        match self.open_files.remove(&handle) {
            Some(mut file) => {
                file.seek_complete(pos);
                self.open_files.insert(handle, file);
                assert(self@ =~= spec_with_position(old(self)@, handle, pos));
            },
            None => {
                assert(self@ =~= old(self)@);
            },
        }
    }

    fn register_file(&mut self, id: u32, metadata: Metadata, candidate: u128) -> (r: Step)
        ensures
            (final(self)@, r@) == spec_register_file(old(self)@, id, metadata@, candidate),
    {
        if self.is_live(candidate) {
            return reply_status(id, StatusType::Failure, "Failed to open file: no free handle");
        }
        self.open_files.insert(candidate, OpenFile::new(metadata));
        assert(self@ =~= spec_register_file(old(self)@, id, metadata@, candidate).0);
        Step::Respond(respond(Payload::Handle(Handle { id, handle: candidate })))
    }

    fn register_dir(
        &mut self,
        id: u32,
        path: String,
        entries: Vec<Metadata>,
        candidate: u128,
    ) -> (r: Step)
        ensures
            (final(self)@, r@) == spec_register_dir(
                old(self)@,
                id,
                path@,
                spec_metadata_views(entries@),
                candidate,
            ),
    {
        if self.is_live(candidate) {
            return reply_status(
                id,
                StatusType::Failure,
                "Failed to list directory: no free handle",
            );
        }
        let files = listing(path.as_str(), &entries);
        self.open_dirs.insert(candidate, OpenDirectory { files, index: 0 });
        assert(self@ =~= spec_register_dir(
            old(self)@,
            id,
            path@,
            spec_metadata_views(entries@),
            candidate,
        ).0);
        Step::Respond(respond(Payload::Handle(Handle { id, handle: candidate })))
    }

    fn read_done(
        &mut self,
        id: u32,
        handle: u128,
        offset: u64,
        data: Vec<u8>,
        count: usize,
    ) -> (r: Step)
        ensures
            (final(self)@, r@) == spec_read_done(old(self)@, id, handle, offset, data@, count),
    {
        if count == 0 {
            return reply_status(id, StatusType::EOF, "EOF");
        }
        self.record_position(handle, advance(offset, count));
        let mut data = data;
        let ghost whole = data@;
        data.truncate(count);
        assert(data@ =~= if count <= whole.len() {
            whole.take(count as int)
        } else {
            whole
        });
        Step::Respond(respond(Payload::Data(Data { id, data })))
    }

    fn write_done(&mut self, id: u32, call: BackendCall, count: usize) -> (r: Step)
        ensures
            (final(self)@, r@) == spec_write_done(old(self)@, id, call@, count),
    {
        match call {
            BackendCall::Write { handle, offset, data } => {
                if count >= data.len() {
                    self.record_position(handle, advance(offset, count));
                    reply_status(id, StatusType::OK, "OK")
                } else if count as u64 > u64::MAX - offset {
                    reply_status(id, StatusType::Failure, "Failed to write: offset out of range")
                } else {
                    self.record_position(handle, advance(offset, count));
                    let mut data = data;
                    let ghost whole = data@;
                    let rest = data.split_off(count);
                    assert(rest@ =~= whole.skip(count as int));
                    call_step(
                        id,
                        Waiting::Write,
                        BackendCall::Write { handle, offset: offset + count as u64, data: rest },
                    )
                }
            },
            _ => reply_status(id, StatusType::Failure, "Unexpected answer from the backend"),
        }
    }

    /// Decides what becomes of a frame cut off the stream.
    pub fn process_frame(&mut self, frame: Frame) -> (r: Step)
        ensures
            (final(self)@, r@) == spec_process_frame(old(self)@, frame@),
            old(self).wf() ==> final(self).wf(),
    {
        match frame {
            Frame::Packet(packet) => self.process_request(packet),
            Frame::Malformed { id } => reply_status(
                id,
                StatusType::BadMessage,
                Error::Packet.to_string().as_str(),
            ),
        }
    }

    /// Decides what becomes of a request once the backend has performed its
    /// operation: the response to send, or the next operation. A file or a
    /// directory that was opened is held under the handle `candidate`.
    pub fn resume_with(&mut self, pending: Pending, reply: BackendReply, candidate: u128) -> (r:
        Step)
        ensures
            (final(self)@, r@) == spec_resume(old(self)@, pending@, reply@, candidate),
            old(self).wf() ==> final(self).wf(),
    {
        let id = pending.id;
        match reply {
            BackendReply::Failed(e) => {
                let mut message = failure_prefix(&pending.waiting);
                message.append(e.to_string().as_str());
                reply_status(id, StatusType::Failure, message.as_str())
            },
            BackendReply::Done => match pending.waiting {
                Waiting::SetStat
                | Waiting::Remove
                | Waiting::MkDir
                | Waiting::RmDir
                | Waiting::Rename => reply_status(id, StatusType::OK, "OK"),
                _ => reply_status(id, StatusType::Failure, "Unexpected answer from the backend"),
            },
            BackendReply::Metadata(m) => match pending.waiting {
                Waiting::Open => self.register_file(id, m, candidate),
                Waiting::Stat => {
                    let mut attrs = Payload::attrs(id);
                    attrs.attrs = FileAttributes::from_metadata(&m);
                    Step::Respond(respond(Payload::Attrs(attrs)))
                },
                Waiting::RealPath { normalized } => {
                    let mut name = Name::new(id);
                    name.append_file(
                        normalized.as_str(),
                        normalized.as_str(),
                        FileAttributes::from_metadata(&m),
                    );
                    assert(spec_file_views(name.files@) =~= seq![
                        FileView {
                            filename: normalized@,
                            longname: normalized@,
                            attrs: FileAttributes::spec_from_metadata(m@),
                        },
                    ]);
                    Step::Respond(respond(Payload::Name(name)))
                },
                _ => reply_status(id, StatusType::Failure, "Unexpected answer from the backend"),
            },
            BackendReply::Listing(entries) => match pending.waiting {
                Waiting::OpenDir { path } => self.register_dir(id, path, entries, candidate),
                _ => reply_status(id, StatusType::Failure, "Unexpected answer from the backend"),
            },
            BackendReply::Read { data, count } => match pending.waiting {
                Waiting::Read { handle, offset } => self.read_done(id, handle, offset, data, count),
                _ => reply_status(id, StatusType::Failure, "Unexpected answer from the backend"),
            },
            BackendReply::Written { count } => match pending.waiting {
                Waiting::Write => self.write_done(id, pending.call, count),
                _ => reply_status(id, StatusType::Failure, "Unexpected answer from the backend"),
            },
        }
    }

    /// Decides what becomes of a request once the backend has performed its
    /// operation. A file or a directory that was opened is held under a
    /// handle drawn at random.
    pub fn resume(&mut self, pending: Pending, reply: BackendReply) -> (r: Step)
        ensures
            exists|candidate: u128|
                (final(self)@, r@) == #[trigger] spec_resume(
                    old(self)@,
                    pending@,
                    reply@,
                    candidate,
                ),
            old(self).wf() ==> final(self).wf(),
    {
        let fresh = Payload::handle(pending.id);
        self.resume_with(pending, reply, fresh.handle)
    }
}

/// What a failure of the backend is called in the response.
pub fn failure_prefix(waiting: &Waiting) -> (r: String)
    ensures
        r@ == spec_failure_prefix(waiting@),
{
    match waiting {
        Waiting::Open => "Failed to open file: ".to_owned(),
        Waiting::SetStat => "Failed to set metadata: ".to_owned(),
        Waiting::Remove => "Failed to delete file: ".to_owned(),
        Waiting::MkDir => "Failed to create directory: ".to_owned(),
        Waiting::RmDir => "Failed to delete directory: ".to_owned(),
        Waiting::Rename => "Failed to rename: ".to_owned(),
        Waiting::Read { .. } => "Failed to read: ".to_owned(),
        Waiting::Write => "Failed to write: ".to_owned(),
        Waiting::Stat => "Failed to read metadata: ".to_owned(),
        Waiting::OpenDir { .. } => "Failed to list directory: ".to_owned(),
        Waiting::RealPath { .. } => "Failed to read metadata: ".to_owned(),
    }
}

/// The name `name` seen from the directory `dir`.
pub fn join_names(dir: &str, name: &str) -> (r: String)
    ensures
        r@ == spec_join(dir@, name@),
{
    let bytes = dir.as_bytes();
    if bytes.len() == 0 {
        return name.to_owned();
    }
    let mut joined = dir.to_owned();
    if bytes[bytes.len() - 1] != 0x2f {
        joined.append("/");
    }
    joined.append(name);
    joined
}

/// The entries that list the children `entries` of the directory `dir`.
pub fn listing(dir: &str, entries: &Vec<Metadata>) -> (r: Vec<File>)
    ensures
        spec_file_views(r@) == spec_listing(dir@, spec_metadata_views(entries@)),
{
    let mut files: Vec<File> = Vec::new();
    let mut n: usize = 0;
    while n < entries.len()
        invariant
            n <= entries.len(),
            files@.len() == n,
            forall|i: int|
                0 <= i < n ==> (#[trigger] files@[i])@ == spec_listed(dir@, entries@[i]@),
        decreases entries.len() - n,
    {
        let m = &entries[n];
        files.push(
            File {
                filename: m.path.clone(),
                longname: join_names(dir, m.path.as_str()),
                attrs: FileAttributes::from_metadata(m),
            },
        );
        n = n + 1;
    }
    assert(spec_file_views(files@) =~= spec_listing(dir@, spec_metadata_views(entries@)));
    files
}

/// Handles stay apart: a file or a directory that is opened gets a handle
/// that stood for nothing before, every handle that stood for something
/// still does, and no handle stands for a file and for a directory at once.
pub proof fn lemma_opened_handle_is_new(
    state: ServerView,
    pending: PendingView,
    reply: BackendReplyView,
    candidate: u128,
)
    requires
        state.wf(),
    ensures
        ({
            let (after, step) = spec_resume(state, pending, reply, candidate);
            &&& after.wf()
            &&& forall|h: u128|
                state.live(h) ==> after.live(h)
            &&& forall|h: u128|
                after.live(h) && !state.live(h) ==> h == candidate && step == spec_reply(
                    PayloadView {
                        kind: PacketType::Handle,
                        body: Body::Handle { id: pending.id, handle: candidate },
                    },
                )
        }),
{
}

/// A request alone opens nothing: whatever is asked, no handle stands for
/// anything afterwards that stood for nothing before, and still no handle
/// stands for a file and for a directory at once.
pub proof fn lemma_request_opens_nothing(state: ServerView, input: PayloadView)
    requires
        state.wf(),
    ensures
        spec_process(state, input).0.wf(),
        forall|h: u128| spec_process(state, input).0.live(h) ==> state.live(h),
{
}

/// Closing gives a handle up: closing a handle that stands for something
/// succeeds, the handle stands for nothing afterwards, and whatever is then
/// asked of it, reading, writing, its attributes or its entries, is answered
/// with "no such file".
pub proof fn lemma_closed_handle_is_gone(
    state: ServerView,
    id: u32,
    handle: u128,
    next: u32,
    offset: u64,
    len: u32,
    data: Seq<u8>,
)
    requires
        state.wf(),
        state.live(handle),
    ensures
        ({
            let (after, step) = spec_close(state, id, handle);
            &&& step == spec_reply_status(id, StatusType::OK, "OK"@)
            &&& !after.live(handle)
            &&& after.wf()
            &&& forall|h: u128| h != handle ==> after.live(h) == state.live(h)
            &&& spec_process(
                after,
                PayloadView {
                    kind: PacketType::Read,
                    body: Body::Read { id: next, handle, offset, len },
                },
            ) == (after, spec_reply_status(next, StatusType::NoSuchFile, "No such file"@))
            &&& spec_process(
                after,
                PayloadView {
                    kind: PacketType::Write,
                    body: Body::Write { id: next, handle, offset, data },
                },
            ) == (after, spec_reply_status(next, StatusType::NoSuchFile, "No such file"@))
            &&& spec_process(
                after,
                PayloadView { kind: PacketType::Fstat, body: Body::Handle { id: next, handle } },
            ) == (after, spec_reply_status(next, StatusType::NoSuchFile, "Handle not found"@))
            &&& spec_process(
                after,
                PayloadView { kind: PacketType::ReadDir, body: Body::Handle { id: next, handle } },
            ) == (after, spec_reply_status(next, StatusType::NoSuchFile, "Handle not found"@))
            &&& spec_close(after, next, handle).1 == spec_reply_status(
                next,
                StatusType::NoSuchFile,
                "Handle "@ + spec_hyphenated(handle) + " does not exist"@,
            )
        }),
{
}

/// The end of a file is a status, never empty data: a read that filled no
/// byte is answered with the status EOF, and a read that filled bytes with
/// exactly the bytes that it filled.
pub proof fn lemma_read_past_end(
    state: ServerView,
    id: u32,
    handle: u128,
    offset: u64,
    data: Seq<u8>,
    count: usize,
)
    ensures
        count == 0 ==> spec_read_done(state, id, handle, offset, data, count) == (
            state,
            spec_reply_status(id, StatusType::EOF, "EOF"@),
        ),
        0 < count <= data.len() ==> spec_read_done(state, id, handle, offset, data, count).1
            == spec_reply(
            PayloadView {
                kind: PacketType::Data,
                body: Body::Data { id, data: data.take(count as int) },
            },
        ) && data.take(count as int).len() > 0,
{
}

/// A directory is listed once and whole: after it has been opened, the first
/// request for its entries is answered with one entry for each child, in
/// the order of the listing, each with the bare name, the name seen from the
/// directory, and attributes that announce size, owner, permissions and
/// times; the second is answered with the status EOF.
pub proof fn lemma_listing_shape(
    state: ServerView,
    id: u32,
    path: Seq<char>,
    entries: Seq<MetadataView>,
    candidate: u128,
    first: u32,
    second: u32,
)
    requires
        state.wf(),
        !state.live(candidate),
        entries.len() > 0,
    ensures
        ({
            let opened = spec_register_dir(state, id, path, entries, candidate).0;
            let (read, step) = spec_read_dir(opened, first, candidate);
            let files = spec_listing(path, entries);
            &&& step == spec_reply(
                PayloadView { kind: PacketType::Name, body: Body::Name { id: first, files } },
            )
            &&& files.len() == entries.len()
            &&& forall|i: int|
                0 <= i < files.len() ==> {
                    &&& (#[trigger] files[i]).filename == entries[i].path
                    &&& files[i].longname == spec_join(path, entries[i].path)
                    &&& files[i].attrs == FileAttributes::spec_from_metadata(entries[i])
                    &&& files[i].attrs.flags.bits == 15
                    &&& files[i].attrs.wf()
                }
            &&& spec_read_dir(read, second, candidate) == (
                read,
                spec_reply_status(second, StatusType::EOF, "EOF"@),
            )
        }),
{
    let opened = spec_register_dir(state, id, path, entries, candidate).0;
    let files = spec_listing(path, entries);
    assert(files.skip(0) =~= files);
    assert forall|i: int| 0 <= i < files.len() implies (#[trigger] files[i]).attrs.wf() by {
        FileAttributes::lemma_from_metadata(entries[i]);
    }
}

/// The attributes of a directory say that it is one: whether asked by path
/// or through an open file, the permissions in the answer carry the
/// directory bits.
pub proof fn lemma_directory_bit(state: ServerView, id: u32, m: MetadataView, candidate: u128)
    requires
        m.is_dir,
    ensures
        ({
            let attrs = FileAttributes::spec_from_metadata(m);
            &&& attrs.permissions is Some
            &&& attrs.permissions->0 & crate::common::MODE_DIRECTORY
                == crate::common::MODE_DIRECTORY
            &&& spec_resume(
                state,
                PendingView {
                    id,
                    waiting: WaitingView::Stat,
                    call: BackendCallView::Metadata { path: m.path },
                },
                BackendReplyView::Metadata(m),
                candidate,
            ) == (
                state,
                spec_reply(
                    PayloadView { kind: PacketType::Attrs, body: Body::Attrs { id, attrs } },
                ),
            )
        }),
{
    FileAttributes::lemma_from_metadata(m);
}

/// A path that leaves the root is refused by name: a request for the normal
/// form of such a path fails with the message "invalid path", and whatever
/// the backend refuses for that reason fails with a message that ends in it.
pub proof fn lemma_escaping_path_fails(
    state: ServerView,
    id: u32,
    path: Seq<char>,
    pending: PendingView,
    candidate: u128,
)
    requires
        spec_escapes(encode_utf8(lexiclean_result(path))),
    ensures
        spec_process(
            state,
            PayloadView { kind: PacketType::RealPath, body: Body::Path { id, path } },
        ) == (state, spec_reply_status(id, StatusType::Failure, "invalid path"@)),
        spec_resume(state, pending, BackendReplyView::Failed(Error::InvalidPath), candidate) == (
            state,
            spec_reply_status(
                pending.id,
                StatusType::Failure,
                spec_failure_prefix(pending.waiting) + "invalid path"@,
            ),
        ),
{
}

/// The status that stands in for a response too large fits a packet.
pub proof fn lemma_overflow_status_fits(id: u32)
    ensures
        spec_status(id, StatusType::Failure, "response too large"@).fits(),
        spec_status(id, StatusType::Failure, "response too large"@).wf(),
{
    reveal_strlit("response too large");
    reveal_strlit("en-US");
    lemma_encode_len_bound("response too large"@);
    lemma_encode_len_bound("en-US"@);
    spec_status(id, StatusType::Failure, "response too large"@).body.lemma_binsize();
}

/// Whatever is sent in answer to a request is a packet whose header says
/// what its payload is, and it carries the id of the response that it
/// stands for.
pub proof fn lemma_packet_wf(v: PayloadView)
    requires
        v.wf(),
    ensures
        spec_packet(v).wf(),
        v.body.id() is Some ==> spec_packet(v).payload.body.id() == v.body.id(),
{
    lemma_overflow_status_fits(
        match v.body.id() {
            Some(id) => id,
            None => 0,
        },
    );
}

/// Every request is answered for itself: a status carries the id that it
/// was made for.
pub proof fn lemma_status_echoes_id(id: u32, status: StatusType, message: Seq<char>)
    ensures
        spec_reply_status(id, status, message) matches StepView::Respond(p) && p.wf()
            && p.payload.body.id() == Some(id),
{
    lemma_packet_wf(spec_status(id, status, message));
}

} // verus!
