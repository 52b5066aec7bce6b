//! Packets: a length, a type tag and a payload of that type.

use crate::common::FileAttributes;
use crate::number::{
    be_u32, lemma_concat_assoc, lemma_read_u32_is_encoding, lemma_read_u32_of_encoding, put_u32,
    spec_be_u32, spec_read_u32, spec_u32_from_be,
};
use crate::util::uuid_new_v4;
use vstd::prelude::*;

pub mod body;
pub mod extended;
pub mod kind;
pub mod layout;
pub mod name;
pub mod open;
pub mod request;
pub mod response;
pub mod status;

use body::{spec_shape, Body};
use extended::Request as ExtendedRequest;
use extended::Response as ExtendedResponse;
use kind::PacketType;
use layout::{
    files_binsize, parse_attrs, parse_data, parse_extended, parse_extended_reply, parse_handle,
    parse_handle_attrs, parse_handshake, parse_name, parse_open, parse_path, parse_path_attrs,
    parse_read, parse_status, parse_two_paths, parse_write, put_attrs, put_data, put_extended,
    put_extended_reply, put_handle, put_handle_attrs, put_handshake, put_name, put_open,
    put_path, put_path_attrs, put_read, put_status, put_two_paths, put_write,
};
use name::{spec_file_views, Name};
use open::{Open, OpenFlags};
use request::{
    Close, FSetStat, Fstat, Init, Lstat, MkDir, OpenDir, Read, ReadDir, ReadLink, RealPath,
    Remove, Rename, RmDir, SetStat, Stat, Symlink, Write,
};
use response::{Attrs, Data, Handle, Version};
use status::{Status, StatusType};

verus! {

/// Why bytes are no packet.
#[derive(Clone, Copy, Debug, PartialEq, Eq, Structural)]
pub enum ParseError {
    /// The bytes end before the packet does.
    NeedMore,
    /// The first five bytes are no header: the length is zero, or the tag
    /// names no packet type.
    MalformedHeader,
    /// The bytes that the header announces are no payload of its type.
    MalformedPayload,
}

/// The five bytes in front of every packet: how many bytes follow the
/// length, the type tag included, and the type.
#[derive(Clone, Copy, Debug, PartialEq, Eq, Structural)]
pub struct PacketHeader {
    pub length: u32,
    pub kind: PacketType,
}

/// A packet cut off the stream and not yet read: its header, and the bytes
/// of its payload.
#[derive(Clone, Copy, Debug, PartialEq, Eq)]
pub struct PacketRaw<'a> {
    pub length: u32,
    pub kind: PacketType,
    pub raw_payload: &'a [u8],
}

/// A payload: what a packet says.
#[derive(Clone, Debug, PartialEq, Eq)]
pub enum Payload {
    Init(Init),
    Version(Version),
    Open(Open),
    Close(Close),
    Read(Read),
    Write(Write),
    Lstat(Lstat),
    Fstat(Fstat),
    SetStat(SetStat),
    FSetStat(FSetStat),
    OpenDir(OpenDir),
    ReadDir(ReadDir),
    Remove(Remove),
    MkDir(MkDir),
    RmDir(RmDir),
    RealPath(RealPath),
    Stat(Stat),
    Rename(Rename),
    ReadLink(ReadLink),
    Symlink(Symlink),
    Status(Status),
    Handle(Handle),
    Data(Data),
    Name(Name),
    Attrs(Attrs),
    Extended(ExtendedRequest),
    ExtendedReply(ExtendedResponse),
}

/// A [`Payload`] as contracts see it: its type and its fields.
pub struct PayloadView {
    pub kind: PacketType,
    pub body: Body,
}

/// A packet: a header and a payload.
#[derive(Clone, Debug, PartialEq, Eq)]
pub struct Packet {
    pub header: PacketHeader,
    pub payload: Payload,
}

/// A [`Packet`] as contracts see it.
pub struct PacketView {
    pub header: PacketHeader,
    pub payload: PayloadView,
}

impl View for Payload {
    type V = PayloadView;

    open spec fn view(&self) -> PayloadView {
        match self {
            Payload::Init(p) => PayloadView {
                kind: PacketType::Init,
                body: Body::Handshake { version: p.version, extension_data: p.extension_data@ },
            },
            Payload::Version(p) => PayloadView {
                kind: PacketType::Version,
                body: Body::Handshake { version: p.version, extension_data: p.extension_data@ },
            },
            Payload::Open(p) => PayloadView {
                kind: PacketType::Open,
                body: Body::Open { id: p.id, path: p.path@, pflags: p.pflags.bits, attrs: p.attrs },
            },
            Payload::Close(p) => PayloadView {
                kind: PacketType::Close,
                body: Body::Handle { id: p.id, handle: p.handle },
            },
            Payload::Read(p) => PayloadView {
                kind: PacketType::Read,
                body: Body::Read { id: p.id, handle: p.handle, offset: p.offset, len: p.len },
            },
            Payload::Write(p) => PayloadView {
                kind: PacketType::Write,
                body: Body::Write { id: p.id, handle: p.handle, offset: p.offset, data: p.data@ },
            },
            Payload::Lstat(p) => PayloadView {
                kind: PacketType::Lstat,
                body: Body::Path { id: p.id, path: p.path@ },
            },
            Payload::Fstat(p) => PayloadView {
                kind: PacketType::Fstat,
                body: Body::Handle { id: p.id, handle: p.handle },
            },
            Payload::SetStat(p) => PayloadView {
                kind: PacketType::SetStat,
                body: Body::PathAttrs { id: p.id, path: p.path@, attrs: p.attrs },
            },
            Payload::FSetStat(p) => PayloadView {
                kind: PacketType::FSetStat,
                body: Body::HandleAttrs { id: p.id, handle: p.handle, attrs: p.attrs },
            },
            Payload::OpenDir(p) => PayloadView {
                kind: PacketType::OpenDir,
                body: Body::Path { id: p.id, path: p.path@ },
            },
            Payload::ReadDir(p) => PayloadView {
                kind: PacketType::ReadDir,
                body: Body::Handle { id: p.id, handle: p.handle },
            },
            Payload::Remove(p) => PayloadView {
                kind: PacketType::Remove,
                body: Body::Path { id: p.id, path: p.path@ },
            },
            Payload::MkDir(p) => PayloadView {
                kind: PacketType::MkDir,
                body: Body::PathAttrs { id: p.id, path: p.path@, attrs: p.attrs },
            },
            Payload::RmDir(p) => PayloadView {
                kind: PacketType::RmDir,
                body: Body::Path { id: p.id, path: p.path@ },
            },
            Payload::RealPath(p) => PayloadView {
                kind: PacketType::RealPath,
                body: Body::Path { id: p.id, path: p.path@ },
            },
            Payload::Stat(p) => PayloadView {
                kind: PacketType::Stat,
                body: Body::Path { id: p.id, path: p.path@ },
            },
            Payload::Rename(p) => PayloadView {
                kind: PacketType::Rename,
                body: Body::TwoPaths { id: p.id, first: p.oldpath@, second: p.newpath@ },
            },
            Payload::ReadLink(p) => PayloadView {
                kind: PacketType::ReadLink,
                body: Body::Path { id: p.id, path: p.path@ },
            },
            Payload::Symlink(p) => PayloadView {
                kind: PacketType::Symlink,
                body: Body::TwoPaths { id: p.id, first: p.linkpath@, second: p.targetpath@ },
            },
            Payload::Status(p) => PayloadView {
                kind: PacketType::Status,
                body: Body::Status {
                    id: p.id,
                    status: p.status,
                    message: p.message@,
                    language: p.language@,
                },
            },
            Payload::Handle(p) => PayloadView {
                kind: PacketType::Handle,
                body: Body::Handle { id: p.id, handle: p.handle },
            },
            Payload::Data(p) => PayloadView {
                kind: PacketType::Data,
                body: Body::Data { id: p.id, data: p.data@ },
            },
            Payload::Name(p) => PayloadView {
                kind: PacketType::Name,
                body: Body::Name { id: p.id, files: spec_file_views(p.files@) },
            },
            Payload::Attrs(p) => PayloadView {
                kind: PacketType::Attrs,
                body: Body::Attrs { id: p.id, attrs: p.attrs },
            },
            Payload::Extended(p) => PayloadView {
                kind: PacketType::Extended,
                body: Body::Extended { id: p.id, request: p.request@, data: p.data@ },
            },
            Payload::ExtendedReply(p) => PayloadView {
                kind: PacketType::ExtendedReply,
                body: Body::ExtendedReply { id: p.id, data: p.data@ },
            },
        }
    }
}

impl View for Packet {
    type V = PacketView;

    open spec fn view(&self) -> PacketView {
        PacketView { header: self.header, payload: self.payload@ }
    }
}

impl PayloadView {
    /// The fields have the layout of the type.
    pub open spec fn wf(self) -> bool {
        spec_shape(self.kind) == Some(self.body.shape())
    }

    /// The payload fits a packet: its bytes and the tag byte together are
    /// few enough for the 32-bit length in front.
    pub open spec fn fits(self) -> bool {
        1 + self.body.spec_binsize() <= u32::MAX
    }

    /// The header that a packet with this payload gets.
    pub open spec fn spec_header(self) -> PacketHeader {
        PacketHeader { length: (1 + self.body.spec_binsize()) as u32, kind: self.kind }
    }

    /// The packet with this payload on the wire: the length of what follows,
    /// computed from the payload; the tag; the payload.
    pub open spec fn spec_serialize(self) -> Seq<u8> {
        spec_be_u32((1 + self.body.spec_binsize()) as u32) + (seq![self.kind.spec_to_byte()]
            + self.body.spec_serialize())
    }
}

/// The number `fixed + a + b`, where 32 bits hold it.
fn sum_sizes(fixed: u32, a: usize, b: usize) -> (r: Option<u32>)
    requires
        fixed <= 1000,
    ensures
        match r {
            Some(n) => n == fixed + a + b,
            None => fixed + a + b > u32::MAX,
        },
{
    if a > 0xffff_ffff || b > 0xffff_ffff {
        return None;
    }
    let total: u64 = fixed as u64 + a as u64 + b as u64;
    if total > 0xffff_ffff {
        None
    } else {
        Some(total as u32)
    }
}

impl Payload {
    /// The type of packet that carries this payload.
    pub fn kind(&self) -> (r: PacketType)
        ensures
            r == self@.kind,
    {
        match self {
            Payload::Init(_) => PacketType::Init,
            Payload::Version(_) => PacketType::Version,
            Payload::Open(_) => PacketType::Open,
            Payload::Close(_) => PacketType::Close,
            Payload::Read(_) => PacketType::Read,
            Payload::Write(_) => PacketType::Write,
            Payload::Lstat(_) => PacketType::Lstat,
            Payload::Fstat(_) => PacketType::Fstat,
            Payload::SetStat(_) => PacketType::SetStat,
            Payload::FSetStat(_) => PacketType::FSetStat,
            Payload::OpenDir(_) => PacketType::OpenDir,
            Payload::ReadDir(_) => PacketType::ReadDir,
            Payload::Remove(_) => PacketType::Remove,
            Payload::MkDir(_) => PacketType::MkDir,
            Payload::RmDir(_) => PacketType::RmDir,
            Payload::RealPath(_) => PacketType::RealPath,
            Payload::Stat(_) => PacketType::Stat,
            Payload::Rename(_) => PacketType::Rename,
            Payload::ReadLink(_) => PacketType::ReadLink,
            Payload::Symlink(_) => PacketType::Symlink,
            Payload::Status(_) => PacketType::Status,
            Payload::Handle(_) => PacketType::Handle,
            Payload::Data(_) => PacketType::Data,
            Payload::Name(_) => PacketType::Name,
            Payload::Attrs(_) => PacketType::Attrs,
            Payload::Extended(_) => PacketType::Extended,
            Payload::ExtendedReply(_) => PacketType::ExtendedReply,
        }
    }

    /// The fields of a payload always have the layout of its type.
    pub proof fn lemma_view_wf(&self)
        ensures
            self@.wf(),
    {
    }

    /// Reads the payload of a packet of type `kind` from the bytes `i`, which
    /// must be that payload and nothing more.
    pub fn parse(i: &[u8], kind: PacketType) -> (r: Option<Payload>)
        ensures
            match r {
                Some(p) => Body::spec_parse(kind, i@) == Some(p@.body) && p@.kind == kind,
                None => Body::spec_parse(kind, i@) is None,
            },
    {
        match kind {
            PacketType::Init => {
                let (version, extension_data) = parse_handshake(i)?;
                Some(Payload::Init(Init { version, extension_data }))
            },
            PacketType::Version => {
                let (version, extension_data) = parse_handshake(i)?;
                Some(Payload::Version(Version { version, extension_data }))
            },
            PacketType::Open => {
                let (id, path, pflags, attrs) = parse_open(i)?;
                Some(Payload::Open(Open { id, path, pflags: OpenFlags::from_bits(pflags), attrs }))
            },
            PacketType::Close => {
                let (id, handle) = parse_handle(i)?;
                Some(Payload::Close(Close { id, handle }))
            },
            PacketType::Read => {
                let (id, handle, offset, len) = parse_read(i)?;
                Some(Payload::Read(Read { id, handle, offset, len }))
            },
            PacketType::Write => {
                let (id, handle, offset, data) = parse_write(i)?;
                Some(Payload::Write(Write { id, handle, offset, data }))
            },
            PacketType::Lstat => {
                let (id, path) = parse_path(i)?;
                Some(Payload::Lstat(Lstat { id, path }))
            },
            PacketType::Fstat => {
                let (id, handle) = parse_handle(i)?;
                Some(Payload::Fstat(Fstat { id, handle }))
            },
            PacketType::SetStat => {
                let (id, path, attrs) = parse_path_attrs(i)?;
                Some(Payload::SetStat(SetStat { id, path, attrs }))
            },
            PacketType::FSetStat => {
                let (id, handle, attrs) = parse_handle_attrs(i)?;
                Some(Payload::FSetStat(FSetStat { id, handle, attrs }))
            },
            PacketType::OpenDir => {
                let (id, path) = parse_path(i)?;
                Some(Payload::OpenDir(OpenDir { id, path }))
            },
            PacketType::ReadDir => {
                let (id, handle) = parse_handle(i)?;
                Some(Payload::ReadDir(ReadDir { id, handle }))
            },
            PacketType::Remove => {
                let (id, path) = parse_path(i)?;
                Some(Payload::Remove(Remove { id, path }))
            },
            PacketType::MkDir => {
                let (id, path, attrs) = parse_path_attrs(i)?;
                Some(Payload::MkDir(MkDir { id, path, attrs }))
            },
            PacketType::RmDir => {
                let (id, path) = parse_path(i)?;
                Some(Payload::RmDir(RmDir { id, path }))
            },
            PacketType::RealPath => {
                let (id, path) = parse_path(i)?;
                Some(Payload::RealPath(RealPath { id, path }))
            },
            PacketType::Stat => {
                let (id, path) = parse_path(i)?;
                Some(Payload::Stat(Stat { id, path }))
            },
            PacketType::Rename => {
                let (id, first, second) = parse_two_paths(i)?;
                Some(Payload::Rename(Rename { id, oldpath: first, newpath: second }))
            },
            PacketType::ReadLink => {
                let (id, path) = parse_path(i)?;
                Some(Payload::ReadLink(ReadLink { id, path }))
            },
            PacketType::Symlink => {
                let (id, first, second) = parse_two_paths(i)?;
                Some(Payload::Symlink(Symlink { id, linkpath: first, targetpath: second }))
            },
            PacketType::Status => {
                let (id, status, message, language) = parse_status(i)?;
                Some(Payload::Status(Status { id, status, message, language }))
            },
            PacketType::Handle => {
                let (id, handle) = parse_handle(i)?;
                Some(Payload::Handle(Handle { id, handle }))
            },
            PacketType::Data => {
                let (id, data) = parse_data(i)?;
                Some(Payload::Data(Data { id, data }))
            },
            PacketType::Name => {
                let (id, files) = parse_name(i)?;
                Some(Payload::Name(Name { id, files }))
            },
            PacketType::Attrs => {
                let (id, attrs) = parse_attrs(i)?;
                Some(Payload::Attrs(Attrs { id, attrs }))
            },
            PacketType::Extended => {
                let (id, request, data) = parse_extended(i)?;
                Some(Payload::Extended(ExtendedRequest { id, request, data }))
            },
            PacketType::ExtendedReply => {
                let (id, data) = parse_extended_reply(i)?;
                Some(Payload::ExtendedReply(ExtendedResponse { id, data }))
            },
            PacketType::UNIMPLEMENTED => None,
        }
    }

    /// Appends the payload to `out`.
    pub fn serialize(&self, out: &mut Vec<u8>)
        requires
            self@.body.spec_binsize() <= u32::MAX,
        ensures
            final(out)@ == old(out)@ + self@.body.spec_serialize(),
    {
        proof {
            self@.body.lemma_binsize();
        }
        match self {
            Payload::Init(p) => put_handshake(out, p.version, &p.extension_data),
            Payload::Version(p) => put_handshake(out, p.version, &p.extension_data),
            Payload::Open(p) => put_open(out, p.id, p.path.as_str(), p.pflags.bits(), &p.attrs),
            Payload::Close(p) => put_handle(out, p.id, p.handle),
            Payload::Read(p) => put_read(out, p.id, p.handle, p.offset, p.len),
            Payload::Write(p) => put_write(out, p.id, p.handle, p.offset, &p.data),
            Payload::Lstat(p) => put_path(out, p.id, p.path.as_str()),
            Payload::Fstat(p) => put_handle(out, p.id, p.handle),
            Payload::SetStat(p) => put_path_attrs(out, p.id, p.path.as_str(), &p.attrs),
            Payload::FSetStat(p) => put_handle_attrs(out, p.id, p.handle, &p.attrs),
            Payload::OpenDir(p) => put_path(out, p.id, p.path.as_str()),
            Payload::ReadDir(p) => put_handle(out, p.id, p.handle),
            Payload::Remove(p) => put_path(out, p.id, p.path.as_str()),
            Payload::MkDir(p) => put_path_attrs(out, p.id, p.path.as_str(), &p.attrs),
            Payload::RmDir(p) => put_path(out, p.id, p.path.as_str()),
            Payload::RealPath(p) => put_path(out, p.id, p.path.as_str()),
            Payload::Stat(p) => put_path(out, p.id, p.path.as_str()),
            Payload::Rename(p) => put_two_paths(out, p.id, p.oldpath.as_str(), p.newpath.as_str()),
            Payload::ReadLink(p) => put_path(out, p.id, p.path.as_str()),
            Payload::Symlink(p) => put_two_paths(
                out,
                p.id,
                p.linkpath.as_str(),
                p.targetpath.as_str(),
            ),
            Payload::Status(p) => put_status(
                out,
                p.id,
                p.status,
                p.message.as_str(),
                p.language.as_str(),
            ),
            Payload::Handle(p) => put_handle(out, p.id, p.handle),
            Payload::Data(p) => put_data(out, p.id, &p.data),
            Payload::Name(p) => put_name(out, p.id, &p.files),
            Payload::Attrs(p) => put_attrs(out, p.id, &p.attrs),
            Payload::Extended(p) => put_extended(out, p.id, p.request.as_str(), &p.data),
            Payload::ExtendedReply(p) => put_extended_reply(out, p.id, &p.data),
        }
    }

    /// The number of bytes of the payload on the wire, where 32 bits hold it.
    pub fn checked_binsize(&self) -> (r: Option<u32>)
        ensures
            match r {
                Some(n) => n == self@.body.spec_binsize(),
                None => self@.body.spec_binsize() > u32::MAX,
            },
    {
        proof {
            self@.body.lemma_binsize();
        }
        match self {
            Payload::Init(p) => sum_sizes(4, p.extension_data.len(), 0),
            Payload::Version(p) => sum_sizes(4, p.extension_data.len(), 0),
            Payload::Open(p) => sum_sizes(
                12 + p.attrs.binsize(),
                p.path.as_str().as_bytes().len(),
                0,
            ),
            Payload::Close(p) => sum_sizes(44, 0, 0),
            Payload::Read(p) => sum_sizes(56, 0, 0),
            Payload::Write(p) => sum_sizes(56, p.data.len(), 0),
            Payload::Lstat(p) => sum_sizes(8, p.path.as_str().as_bytes().len(), 0),
            Payload::Fstat(p) => sum_sizes(44, 0, 0),
            Payload::SetStat(p) => sum_sizes(
                8 + p.attrs.binsize(),
                p.path.as_str().as_bytes().len(),
                0,
            ),
            Payload::FSetStat(p) => sum_sizes(44 + p.attrs.binsize(), 0, 0),
            Payload::OpenDir(p) => sum_sizes(8, p.path.as_str().as_bytes().len(), 0),
            Payload::ReadDir(p) => sum_sizes(44, 0, 0),
            Payload::Remove(p) => sum_sizes(8, p.path.as_str().as_bytes().len(), 0),
            Payload::MkDir(p) => sum_sizes(
                8 + p.attrs.binsize(),
                p.path.as_str().as_bytes().len(),
                0,
            ),
            Payload::RmDir(p) => sum_sizes(8, p.path.as_str().as_bytes().len(), 0),
            Payload::RealPath(p) => sum_sizes(8, p.path.as_str().as_bytes().len(), 0),
            Payload::Stat(p) => sum_sizes(8, p.path.as_str().as_bytes().len(), 0),
            Payload::Rename(p) => sum_sizes(
                12,
                p.oldpath.as_str().as_bytes().len(),
                p.newpath.as_str().as_bytes().len(),
            ),
            Payload::ReadLink(p) => sum_sizes(8, p.path.as_str().as_bytes().len(), 0),
            Payload::Symlink(p) => sum_sizes(
                12,
                p.linkpath.as_str().as_bytes().len(),
                p.targetpath.as_str().as_bytes().len(),
            ),
            Payload::Status(p) => sum_sizes(
                16,
                p.message.as_str().as_bytes().len(),
                p.language.as_str().as_bytes().len(),
            ),
            Payload::Handle(p) => sum_sizes(44, 0, 0),
            Payload::Data(p) => sum_sizes(8, p.data.len(), 0),
            Payload::Name(p) => match files_binsize(&p.files) {
                Some(n) => sum_sizes(8, n as usize, 0),
                None => None,
            },
            Payload::Attrs(p) => sum_sizes(4 + p.attrs.binsize(), 0, 0),
            Payload::Extended(p) => sum_sizes(8, p.request.as_str().as_bytes().len(), p.data.len()),
            Payload::ExtendedReply(p) => sum_sizes(4, p.data.len(), 0),
        }
    }

    /// The packet that carries this payload, where the payload fits one.
    pub fn try_into_packet(self) -> (r: Option<Packet>)
        ensures
            match r {
                Some(p) => self@.fits() && p@ == (PacketView {
                    header: self@.spec_header(),
                    payload: self@,
                }) && p@.wf(),
                None => !self@.fits(),
            },
    {
        match self.checked_binsize() {
            Some(n) => if n < u32::MAX {
                let p = self.into_packet();
                proof {
                    self.lemma_view_wf();
                }
                Some(p)
            } else {
                None
            },
            None => None,
        }
    }

    /// The handshake of a client.
    pub fn init(version: u32, extension_data: Vec<u8>) -> (r: Self)
        ensures
            r@ == (PayloadView {
                kind: PacketType::Init,
                body: Body::Handshake { version, extension_data: extension_data@ },
            }),
    {
        Payload::Init(Init { version, extension_data })
    }

    /// The handshake of a server.
    pub fn version(version: u32, extension_data: Vec<u8>) -> (r: Self)
        ensures
            r@ == (PayloadView {
                kind: PacketType::Version,
                body: Body::Handshake { version, extension_data: extension_data@ },
            }),
    {
        Payload::Version(Version { version, extension_data })
    }

    /// A request for the normal form of `path`.
    pub fn real_path(id: u32, path: &str) -> (r: Self)
        ensures
            r@ == (PayloadView {
                kind: PacketType::RealPath,
                body: Body::Path { id, path: path@ },
            }),
    {
        Payload::RealPath(RealPath { id, path: path.to_owned() })
    }

    /// A status response in the language "en-US".
    pub fn status(id: u32, status: StatusType, message: &str) -> (r: Self)
        ensures
            r@ == (PayloadView {
                kind: PacketType::Status,
                body: Body::Status { id, status, message: message@, language: "en-US"@ },
            }),
    {
        Payload::Status(
            Status { id, status, message: message.to_owned(), language: "en-US".to_owned() },
        )
    }

    /// A handle response with a handle drawn at random.
    pub fn handle(id: u32) -> (r: Handle)
        ensures
            r.id == id,
    {
        Handle { id, handle: uuid_new_v4() }
    }

    /// A name response that lists nothing yet.
    pub fn name(id: u32) -> (r: Name)
        ensures
            r.id == id,
            r.files@.len() == 0,
    {
        Name { id, files: Vec::with_capacity(1) }
    }

    /// An attribute response with no attribute yet.
    pub fn attrs(id: u32) -> (r: Attrs)
        ensures
            r.id == id,
            r.attrs == FileAttributes::spec_new(),
    {
        Attrs { id, attrs: FileAttributes::new() }
    }

    /// A data response of `size` zero bytes, to be read into.
    pub fn data_with_size(id: u32, size: u32) -> (r: Data)
        ensures
            r.id == id,
            r.data@ == Seq::new(size as nat, |i: int| 0u8),
    {
        let data = vec![0u8; size as usize];
        assert(data@ =~= Seq::new(size as nat, |i: int| 0u8));
        Data { id, data }
    }
}

impl Payload {
    /// The request that this payload belongs to; the handshake has none.
    pub fn id(&self) -> (r: Option<u32>)
        ensures
            r == self@.body.id(),
    {
        match self {
            Payload::Init(_) => None,
            Payload::Version(_) => None,
            Payload::Open(p) => Some(p.id),
            Payload::Close(p) => Some(p.id),
            Payload::Read(p) => Some(p.id),
            Payload::Write(p) => Some(p.id),
            Payload::Lstat(p) => Some(p.id),
            Payload::Fstat(p) => Some(p.id),
            Payload::SetStat(p) => Some(p.id),
            Payload::FSetStat(p) => Some(p.id),
            Payload::OpenDir(p) => Some(p.id),
            Payload::ReadDir(p) => Some(p.id),
            Payload::Remove(p) => Some(p.id),
            Payload::MkDir(p) => Some(p.id),
            Payload::RmDir(p) => Some(p.id),
            Payload::RealPath(p) => Some(p.id),
            Payload::Stat(p) => Some(p.id),
            Payload::Rename(p) => Some(p.id),
            Payload::ReadLink(p) => Some(p.id),
            Payload::Symlink(p) => Some(p.id),
            Payload::Status(p) => Some(p.id),
            Payload::Handle(p) => Some(p.id),
            Payload::Data(p) => Some(p.id),
            Payload::Name(p) => Some(p.id),
            Payload::Attrs(p) => Some(p.id),
            Payload::Extended(p) => Some(p.id),
            Payload::ExtendedReply(p) => Some(p.id),
        }
    }
}

/// What every payload record can do: say how long it is on the wire, and
/// become the packet that carries it.
pub trait PayloadTrait: Sized {
    /// This record as contracts see a payload.
    spec fn spec_payload(&self) -> PayloadView;

    /// The type of packet that carries this record.
    fn packet_type(&self) -> (r: PacketType)
        ensures
            r == self.spec_payload().kind,
    ;

    /// This record as a payload.
    fn into_payload(self) -> (r: Payload)
        ensures
            r@ == self.spec_payload(),
    ;

    /// The number of bytes of the record on the wire.
    fn binsize(&self) -> (r: u32)
        requires
            self.spec_payload().body.spec_binsize() <= u32::MAX,
        ensures
            r == self.spec_payload().body.spec_binsize(),
    ;

    /// The header of the packet that carries this record.
    fn header(&self) -> (r: PacketHeader)
        requires
            self.spec_payload().fits(),
        ensures
            r == self.spec_payload().spec_header(),
    {
        PacketHeader { length: 1 + self.binsize(), kind: self.packet_type() }
    }

    /// The packet that carries this record.
    fn into_packet(self) -> (r: Packet)
        requires
            self.spec_payload().fits(),
        ensures
            r@ == (PacketView {
                header: self.spec_payload().spec_header(),
                payload: self.spec_payload(),
            }),
    {
        let header = self.header();
        Packet { header, payload: self.into_payload() }
    }
}

impl PayloadTrait for Payload {
    open spec fn spec_payload(&self) -> PayloadView {
        self@
    }

    fn packet_type(&self) -> (r: PacketType) {
        self.kind()
    }

    fn into_payload(self) -> (r: Payload) {
        self
    }

    fn binsize(&self) -> (r: u32) {
        match self.checked_binsize() {
            Some(n) => n,
            None => 0,
        }
    }
}

impl PayloadTrait for Init {
    open spec fn spec_payload(&self) -> PayloadView {
        PayloadView {
            kind: PacketType::Init,
            body: Body::Handshake { version: self.version, extension_data: self.extension_data@ },
        }
    }

    fn packet_type(&self) -> (r: PacketType) {
        PacketType::Init
    }

    fn into_payload(self) -> (r: Payload) {
        Payload::Init(self)
    }

    fn binsize(&self) -> (r: u32) {
        proof {
            self.spec_payload().body.lemma_binsize();
        }
        let size = sum_sizes(4, self.extension_data.len(), 0);
        match size {
            Some(n) => n,
            None => 0,
        }
    }
}

impl PayloadTrait for Version {
    open spec fn spec_payload(&self) -> PayloadView {
        PayloadView {
            kind: PacketType::Version,
            body: Body::Handshake { version: self.version, extension_data: self.extension_data@ },
        }
    }

    fn packet_type(&self) -> (r: PacketType) {
        PacketType::Version
    }

    fn into_payload(self) -> (r: Payload) {
        Payload::Version(self)
    }

    fn binsize(&self) -> (r: u32) {
        proof {
            self.spec_payload().body.lemma_binsize();
        }
        let size = sum_sizes(4, self.extension_data.len(), 0);
        match size {
            Some(n) => n,
            None => 0,
        }
    }
}

impl PayloadTrait for Open {
    open spec fn spec_payload(&self) -> PayloadView {
        PayloadView {
            kind: PacketType::Open,
            body: Body::Open {
                id: self.id,
                path: self.path@,
                pflags: self.pflags.bits,
                attrs: self.attrs,
            },
        }
    }

    fn packet_type(&self) -> (r: PacketType) {
        PacketType::Open
    }

    fn into_payload(self) -> (r: Payload) {
        Payload::Open(self)
    }

    fn binsize(&self) -> (r: u32) {
        proof {
            self.spec_payload().body.lemma_binsize();
        }
        let size = sum_sizes(12 + self.attrs.binsize(), self.path.as_str().as_bytes().len(), 0);
        match size {
            Some(n) => n,
            None => 0,
        }
    }
}

impl PayloadTrait for Close {
    open spec fn spec_payload(&self) -> PayloadView {
        PayloadView {
            kind: PacketType::Close,
            body: Body::Handle { id: self.id, handle: self.handle },
        }
    }

    fn packet_type(&self) -> (r: PacketType) {
        PacketType::Close
    }

    fn into_payload(self) -> (r: Payload) {
        Payload::Close(self)
    }

    fn binsize(&self) -> (r: u32) {
        proof {
            self.spec_payload().body.lemma_binsize();
        }
        let size = sum_sizes(44, 0, 0);
        match size {
            Some(n) => n,
            None => 0,
        }
    }
}

impl PayloadTrait for Read {
    open spec fn spec_payload(&self) -> PayloadView {
        PayloadView {
            kind: PacketType::Read,
            body: Body::Read {
                id: self.id,
                handle: self.handle,
                offset: self.offset,
                len: self.len,
            },
        }
    }

    fn packet_type(&self) -> (r: PacketType) {
        PacketType::Read
    }

    fn into_payload(self) -> (r: Payload) {
        Payload::Read(self)
    }

    fn binsize(&self) -> (r: u32) {
        proof {
            self.spec_payload().body.lemma_binsize();
        }
        let size = sum_sizes(56, 0, 0);
        match size {
            Some(n) => n,
            None => 0,
        }
    }
}

impl PayloadTrait for Write {
    open spec fn spec_payload(&self) -> PayloadView {
        PayloadView {
            kind: PacketType::Write,
            body: Body::Write {
                id: self.id,
                handle: self.handle,
                offset: self.offset,
                data: self.data@,
            },
        }
    }

    fn packet_type(&self) -> (r: PacketType) {
        PacketType::Write
    }

    fn into_payload(self) -> (r: Payload) {
        Payload::Write(self)
    }

    fn binsize(&self) -> (r: u32) {
        proof {
            self.spec_payload().body.lemma_binsize();
        }
        let size = sum_sizes(56, self.data.len(), 0);
        match size {
            Some(n) => n,
            None => 0,
        }
    }
}

impl PayloadTrait for Lstat {
    open spec fn spec_payload(&self) -> PayloadView {
        PayloadView { kind: PacketType::Lstat, body: Body::Path { id: self.id, path: self.path@ } }
    }

    fn packet_type(&self) -> (r: PacketType) {
        PacketType::Lstat
    }

    fn into_payload(self) -> (r: Payload) {
        Payload::Lstat(self)
    }

    fn binsize(&self) -> (r: u32) {
        proof {
            self.spec_payload().body.lemma_binsize();
        }
        let size = sum_sizes(8, self.path.as_str().as_bytes().len(), 0);
        match size {
            Some(n) => n,
            None => 0,
        }
    }
}

impl PayloadTrait for Fstat {
    open spec fn spec_payload(&self) -> PayloadView {
        PayloadView {
            kind: PacketType::Fstat,
            body: Body::Handle { id: self.id, handle: self.handle },
        }
    }

    fn packet_type(&self) -> (r: PacketType) {
        PacketType::Fstat
    }

    fn into_payload(self) -> (r: Payload) {
        Payload::Fstat(self)
    }

    fn binsize(&self) -> (r: u32) {
        proof {
            self.spec_payload().body.lemma_binsize();
        }
        let size = sum_sizes(44, 0, 0);
        match size {
            Some(n) => n,
            None => 0,
        }
    }
}

impl PayloadTrait for SetStat {
    open spec fn spec_payload(&self) -> PayloadView {
        PayloadView {
            kind: PacketType::SetStat,
            body: Body::PathAttrs { id: self.id, path: self.path@, attrs: self.attrs },
        }
    }

    fn packet_type(&self) -> (r: PacketType) {
        PacketType::SetStat
    }

    fn into_payload(self) -> (r: Payload) {
        Payload::SetStat(self)
    }

    fn binsize(&self) -> (r: u32) {
        proof {
            self.spec_payload().body.lemma_binsize();
        }
        let size = sum_sizes(8 + self.attrs.binsize(), self.path.as_str().as_bytes().len(), 0);
        match size {
            Some(n) => n,
            None => 0,
        }
    }
}

impl PayloadTrait for FSetStat {
    open spec fn spec_payload(&self) -> PayloadView {
        PayloadView {
            kind: PacketType::FSetStat,
            body: Body::HandleAttrs { id: self.id, handle: self.handle, attrs: self.attrs },
        }
    }

    fn packet_type(&self) -> (r: PacketType) {
        PacketType::FSetStat
    }

    fn into_payload(self) -> (r: Payload) {
        Payload::FSetStat(self)
    }

    fn binsize(&self) -> (r: u32) {
        proof {
            self.spec_payload().body.lemma_binsize();
        }
        let size = sum_sizes(44 + self.attrs.binsize(), 0, 0);
        match size {
            Some(n) => n,
            None => 0,
        }
    }
}

impl PayloadTrait for OpenDir {
    open spec fn spec_payload(&self) -> PayloadView {
        PayloadView {
            kind: PacketType::OpenDir,
            body: Body::Path { id: self.id, path: self.path@ },
        }
    }

    fn packet_type(&self) -> (r: PacketType) {
        PacketType::OpenDir
    }

    fn into_payload(self) -> (r: Payload) {
        Payload::OpenDir(self)
    }

    fn binsize(&self) -> (r: u32) {
        proof {
            self.spec_payload().body.lemma_binsize();
        }
        let size = sum_sizes(8, self.path.as_str().as_bytes().len(), 0);
        match size {
            Some(n) => n,
            None => 0,
        }
    }
}

impl PayloadTrait for ReadDir {
    open spec fn spec_payload(&self) -> PayloadView {
        PayloadView {
            kind: PacketType::ReadDir,
            body: Body::Handle { id: self.id, handle: self.handle },
        }
    }

    fn packet_type(&self) -> (r: PacketType) {
        PacketType::ReadDir
    }

    fn into_payload(self) -> (r: Payload) {
        Payload::ReadDir(self)
    }

    fn binsize(&self) -> (r: u32) {
        proof {
            self.spec_payload().body.lemma_binsize();
        }
        let size = sum_sizes(44, 0, 0);
        match size {
            Some(n) => n,
            None => 0,
        }
    }
}

impl PayloadTrait for Remove {
    open spec fn spec_payload(&self) -> PayloadView {
        PayloadView { kind: PacketType::Remove, body: Body::Path { id: self.id, path: self.path@ } }
    }

    fn packet_type(&self) -> (r: PacketType) {
        PacketType::Remove
    }

    fn into_payload(self) -> (r: Payload) {
        Payload::Remove(self)
    }

    fn binsize(&self) -> (r: u32) {
        proof {
            self.spec_payload().body.lemma_binsize();
        }
        let size = sum_sizes(8, self.path.as_str().as_bytes().len(), 0);
        match size {
            Some(n) => n,
            None => 0,
        }
    }
}

impl PayloadTrait for MkDir {
    open spec fn spec_payload(&self) -> PayloadView {
        PayloadView {
            kind: PacketType::MkDir,
            body: Body::PathAttrs { id: self.id, path: self.path@, attrs: self.attrs },
        }
    }

    fn packet_type(&self) -> (r: PacketType) {
        PacketType::MkDir
    }

    fn into_payload(self) -> (r: Payload) {
        Payload::MkDir(self)
    }

    fn binsize(&self) -> (r: u32) {
        proof {
            self.spec_payload().body.lemma_binsize();
        }
        let size = sum_sizes(8 + self.attrs.binsize(), self.path.as_str().as_bytes().len(), 0);
        match size {
            Some(n) => n,
            None => 0,
        }
    }
}

impl PayloadTrait for RmDir {
    open spec fn spec_payload(&self) -> PayloadView {
        PayloadView { kind: PacketType::RmDir, body: Body::Path { id: self.id, path: self.path@ } }
    }

    fn packet_type(&self) -> (r: PacketType) {
        PacketType::RmDir
    }

    fn into_payload(self) -> (r: Payload) {
        Payload::RmDir(self)
    }

    fn binsize(&self) -> (r: u32) {
        proof {
            self.spec_payload().body.lemma_binsize();
        }
        let size = sum_sizes(8, self.path.as_str().as_bytes().len(), 0);
        match size {
            Some(n) => n,
            None => 0,
        }
    }
}

impl PayloadTrait for RealPath {
    open spec fn spec_payload(&self) -> PayloadView {
        PayloadView {
            kind: PacketType::RealPath,
            body: Body::Path { id: self.id, path: self.path@ },
        }
    }

    fn packet_type(&self) -> (r: PacketType) {
        PacketType::RealPath
    }

    fn into_payload(self) -> (r: Payload) {
        Payload::RealPath(self)
    }

    fn binsize(&self) -> (r: u32) {
        proof {
            self.spec_payload().body.lemma_binsize();
        }
        let size = sum_sizes(8, self.path.as_str().as_bytes().len(), 0);
        match size {
            Some(n) => n,
            None => 0,
        }
    }
}

impl PayloadTrait for Stat {
    open spec fn spec_payload(&self) -> PayloadView {
        PayloadView { kind: PacketType::Stat, body: Body::Path { id: self.id, path: self.path@ } }
    }

    fn packet_type(&self) -> (r: PacketType) {
        PacketType::Stat
    }

    fn into_payload(self) -> (r: Payload) {
        Payload::Stat(self)
    }

    fn binsize(&self) -> (r: u32) {
        proof {
            self.spec_payload().body.lemma_binsize();
        }
        let size = sum_sizes(8, self.path.as_str().as_bytes().len(), 0);
        match size {
            Some(n) => n,
            None => 0,
        }
    }
}

impl PayloadTrait for Rename {
    open spec fn spec_payload(&self) -> PayloadView {
        PayloadView {
            kind: PacketType::Rename,
            body: Body::TwoPaths { id: self.id, first: self.oldpath@, second: self.newpath@ },
        }
    }

    fn packet_type(&self) -> (r: PacketType) {
        PacketType::Rename
    }

    fn into_payload(self) -> (r: Payload) {
        Payload::Rename(self)
    }

    fn binsize(&self) -> (r: u32) {
        proof {
            self.spec_payload().body.lemma_binsize();
        }
        let size = sum_sizes(
            12,
            self.oldpath.as_str().as_bytes().len(),
            self.newpath.as_str().as_bytes().len(),
        );
        match size {
            Some(n) => n,
            None => 0,
        }
    }
}

impl PayloadTrait for ReadLink {
    open spec fn spec_payload(&self) -> PayloadView {
        PayloadView {
            kind: PacketType::ReadLink,
            body: Body::Path { id: self.id, path: self.path@ },
        }
    }

    fn packet_type(&self) -> (r: PacketType) {
        PacketType::ReadLink
    }

    fn into_payload(self) -> (r: Payload) {
        Payload::ReadLink(self)
    }

    fn binsize(&self) -> (r: u32) {
        proof {
            self.spec_payload().body.lemma_binsize();
        }
        let size = sum_sizes(8, self.path.as_str().as_bytes().len(), 0);
        match size {
            Some(n) => n,
            None => 0,
        }
    }
}

impl PayloadTrait for Symlink {
    open spec fn spec_payload(&self) -> PayloadView {
        PayloadView {
            kind: PacketType::Symlink,
            body: Body::TwoPaths { id: self.id, first: self.linkpath@, second: self.targetpath@ },
        }
    }

    fn packet_type(&self) -> (r: PacketType) {
        PacketType::Symlink
    }

    fn into_payload(self) -> (r: Payload) {
        Payload::Symlink(self)
    }

    fn binsize(&self) -> (r: u32) {
        proof {
            self.spec_payload().body.lemma_binsize();
        }
        let size = sum_sizes(
            12,
            self.linkpath.as_str().as_bytes().len(),
            self.targetpath.as_str().as_bytes().len(),
        );
        match size {
            Some(n) => n,
            None => 0,
        }
    }
}

impl PayloadTrait for Status {
    open spec fn spec_payload(&self) -> PayloadView {
        PayloadView {
            kind: PacketType::Status,
            body: Body::Status {
                id: self.id,
                status: self.status,
                message: self.message@,
                language: self.language@,
            },
        }
    }

    fn packet_type(&self) -> (r: PacketType) {
        PacketType::Status
    }

    fn into_payload(self) -> (r: Payload) {
        Payload::Status(self)
    }

    fn binsize(&self) -> (r: u32) {
        proof {
            self.spec_payload().body.lemma_binsize();
        }
        let size = sum_sizes(
            16,
            self.message.as_str().as_bytes().len(),
            self.language.as_str().as_bytes().len(),
        );
        match size {
            Some(n) => n,
            None => 0,
        }
    }
}

impl PayloadTrait for Handle {
    open spec fn spec_payload(&self) -> PayloadView {
        PayloadView {
            kind: PacketType::Handle,
            body: Body::Handle { id: self.id, handle: self.handle },
        }
    }

    fn packet_type(&self) -> (r: PacketType) {
        PacketType::Handle
    }

    fn into_payload(self) -> (r: Payload) {
        Payload::Handle(self)
    }

    fn binsize(&self) -> (r: u32) {
        proof {
            self.spec_payload().body.lemma_binsize();
        }
        let size = sum_sizes(44, 0, 0);
        match size {
            Some(n) => n,
            None => 0,
        }
    }
}

impl PayloadTrait for Data {
    open spec fn spec_payload(&self) -> PayloadView {
        PayloadView { kind: PacketType::Data, body: Body::Data { id: self.id, data: self.data@ } }
    }

    fn packet_type(&self) -> (r: PacketType) {
        PacketType::Data
    }

    fn into_payload(self) -> (r: Payload) {
        Payload::Data(self)
    }

    fn binsize(&self) -> (r: u32) {
        proof {
            self.spec_payload().body.lemma_binsize();
        }
        let size = sum_sizes(8, self.data.len(), 0);
        match size {
            Some(n) => n,
            None => 0,
        }
    }
}

impl PayloadTrait for Name {
    open spec fn spec_payload(&self) -> PayloadView {
        PayloadView {
            kind: PacketType::Name,
            body: Body::Name { id: self.id, files: spec_file_views(self.files@) },
        }
    }

    fn packet_type(&self) -> (r: PacketType) {
        PacketType::Name
    }

    fn into_payload(self) -> (r: Payload) {
        Payload::Name(self)
    }

    fn binsize(&self) -> (r: u32) {
        proof {
            self.spec_payload().body.lemma_binsize();
        }
        let size = match files_binsize(&self.files) {
            Some(n) => sum_sizes(8, n as usize, 0),
            None => None,
        };
        match size {
            Some(n) => n,
            None => 0,
        }
    }
}

impl PayloadTrait for Attrs {
    open spec fn spec_payload(&self) -> PayloadView {
        PayloadView {
            kind: PacketType::Attrs,
            body: Body::Attrs { id: self.id, attrs: self.attrs },
        }
    }

    fn packet_type(&self) -> (r: PacketType) {
        PacketType::Attrs
    }

    fn into_payload(self) -> (r: Payload) {
        Payload::Attrs(self)
    }

    fn binsize(&self) -> (r: u32) {
        proof {
            self.spec_payload().body.lemma_binsize();
        }
        let size = sum_sizes(4 + self.attrs.binsize(), 0, 0);
        match size {
            Some(n) => n,
            None => 0,
        }
    }
}

impl PayloadTrait for ExtendedRequest {
    open spec fn spec_payload(&self) -> PayloadView {
        PayloadView {
            kind: PacketType::Extended,
            body: Body::Extended { id: self.id, request: self.request@, data: self.data@ },
        }
    }

    fn packet_type(&self) -> (r: PacketType) {
        PacketType::Extended
    }

    fn into_payload(self) -> (r: Payload) {
        Payload::Extended(self)
    }

    fn binsize(&self) -> (r: u32) {
        proof {
            self.spec_payload().body.lemma_binsize();
        }
        let size = sum_sizes(8, self.request.as_str().as_bytes().len(), self.data.len());
        match size {
            Some(n) => n,
            None => 0,
        }
    }
}

impl PayloadTrait for ExtendedResponse {
    open spec fn spec_payload(&self) -> PayloadView {
        PayloadView {
            kind: PacketType::ExtendedReply,
            body: Body::ExtendedReply { id: self.id, data: self.data@ },
        }
    }

    fn packet_type(&self) -> (r: PacketType) {
        PacketType::ExtendedReply
    }

    fn into_payload(self) -> (r: Payload) {
        Payload::ExtendedReply(self)
    }

    fn binsize(&self) -> (r: u32) {
        proof {
            self.spec_payload().body.lemma_binsize();
        }
        let size = sum_sizes(4, self.data.len(), 0);
        match size {
            Some(n) => n,
            None => 0,
        }
    }
}

impl PacketView {
    /// The header says what the payload is: its type, and one more than the
    /// number of its bytes.
    pub open spec fn wf(self) -> bool {
        &&& self.payload.wf()
        &&& self.payload.fits()
        &&& self.header == self.payload.spec_header()
    }
}

/// The header that the bytes `s` start with.
pub open spec fn spec_parse_header(s: Seq<u8>) -> Result<PacketHeader, ParseError> {
    if s.len() < 5 {
        Err(ParseError::NeedMore)
    } else {
        match PacketType::spec_from_byte(s[4]) {
            None => Err(ParseError::MalformedHeader),
            Some(kind) => if spec_u32_from_be(s) == 0 {
                Err(ParseError::MalformedHeader)
            } else {
                Ok(PacketHeader { length: spec_u32_from_be(s), kind })
            },
        }
    }
}

/// The packet that the bytes `s` start with, cut off and not yet read: its
/// header, and the bytes of its payload.
pub open spec fn spec_frame(s: Seq<u8>) -> Result<(PacketHeader, Seq<u8>), ParseError> {
    match spec_parse_header(s) {
        Err(e) => Err(e),
        Ok(header) => if s.len() < 4 + header.length {
            Err(ParseError::NeedMore)
        } else {
            Ok((header, s.subrange(5, 4 + header.length)))
        },
    }
}

/// The packet that the bytes `s` start with, and the number of bytes that it
/// takes.
pub open spec fn spec_parse_packet(s: Seq<u8>) -> Result<(PacketView, nat), ParseError> {
    match spec_frame(s) {
        Err(e) => Err(e),
        Ok((header, raw)) => match Body::spec_parse(header.kind, raw) {
            None => Err(ParseError::MalformedPayload),
            Some(body) => Ok(
                (
                    PacketView { header, payload: PayloadView { kind: header.kind, body } },
                    (4 + header.length) as nat,
                ),
            ),
        },
    }
}

impl PacketHeader {
    /// Reads a header off the front of `i`.
    pub fn parse(i: &[u8]) -> (r: Result<(&[u8], PacketHeader), ParseError>)
        ensures
            match r {
                Ok((rest, h)) => spec_parse_header(i@) == Ok::<PacketHeader, ParseError>(h)
                    && rest@ == i@.skip(5),
                Err(e) => spec_parse_header(i@) == Err::<PacketHeader, ParseError>(e),
            },
    {
        if i.len() < 5 {
            return Err(ParseError::NeedMore);
        }
        let kind = match PacketType::from_byte(i[4]) {
            Some(kind) => kind,
            None => {
                return Err(ParseError::MalformedHeader);
            },
        };
        let length = match be_u32(i) {
            Some((_, length)) => length,
            None => {
                return Err(ParseError::NeedMore);
            },
        };
        if length == 0 {
            return Err(ParseError::MalformedHeader);
        }
        let rest = vstd::slice::slice_subrange(i, 5, i.len());
        assert(rest@ =~= i@.skip(5));
        Ok((rest, PacketHeader { length, kind }))
    }
}

impl<'a> PacketRaw<'a> {
    /// Cuts the first packet off the front of `i`: the packet, and the number
    /// of bytes that it takes.
    pub fn parse(i: &'a [u8]) -> (r: Result<(PacketRaw<'a>, usize), ParseError>)
        ensures
            match r {
                Ok((raw, consumed)) => spec_frame(i@) == Ok::<
                    (PacketHeader, Seq<u8>),
                    ParseError,
                >((PacketHeader { length: raw.length, kind: raw.kind }, raw.raw_payload@))
                    && consumed == 4 + raw.length && consumed <= i@.len(),
                Err(e) => spec_frame(i@) == Err::<(PacketHeader, Seq<u8>), ParseError>(e)
                    && e != ParseError::MalformedPayload,
            },
    {
        let (_, header) = PacketHeader::parse(i)?;
        if i.len() - 4 < header.length as usize {
            return Err(ParseError::NeedMore);
        }
        let consumed: usize = 4 + header.length as usize;
        let raw_payload = vstd::slice::slice_subrange(i, 5, consumed);
        Ok((PacketRaw { length: header.length, kind: header.kind, raw_payload }, consumed))
    }

    /// Reads the payload.
    pub fn decode(&self) -> (r: Option<Packet>)
        ensures
            match r {
                Some(p) => Body::spec_parse(self.kind, self.raw_payload@) == Some(p@.payload.body)
                    && p@.payload.kind == self.kind && p.header == (PacketHeader {
                    length: self.length,
                    kind: self.kind,
                }),
                None => Body::spec_parse(self.kind, self.raw_payload@) is None,
            },
    {
        let payload = Payload::parse(self.raw_payload, self.kind)?;
        Some(Packet { header: PacketHeader { length: self.length, kind: self.kind }, payload })
    }

    /// The request that the payload belongs to, as far as the bytes show
    /// it: the first four bytes of whatever is no handshake, and zero where
    /// there are none.
    pub open spec fn spec_request_id(kind: PacketType, raw: Seq<u8>) -> u32 {
        if kind == PacketType::Init || kind == PacketType::Version || raw.len() < 4 {
            0
        } else {
            spec_u32_from_be(raw)
        }
    }

    /// The request that the payload belongs to, as far as the bytes show it.
    pub fn request_id(&self) -> (r: u32)
        ensures
            r == Self::spec_request_id(self.kind, self.raw_payload@),
    {
        match self.kind {
            PacketType::Init | PacketType::Version => 0,
            _ => match be_u32(self.raw_payload) {
                Some((_, id)) => id,
                None => 0,
            },
        }
    }
}

impl Packet {
    /// Reads the first packet off the front of `i`: the packet, and the
    /// number of bytes that it takes.
    pub fn parse(i: &[u8]) -> (r: Result<(Packet, usize), ParseError>)
        ensures
            match r {
                Ok((p, consumed)) => spec_parse_packet(i@) == Ok::<(PacketView, nat), ParseError>(
                    (p@, consumed as nat),
                ) && consumed <= i@.len(),
                Err(e) => spec_parse_packet(i@) == Err::<(PacketView, nat), ParseError>(e),
            },
    {
        let (raw, consumed) = PacketRaw::parse(i)?;
        match raw.decode() {
            Some(p) => Ok((p, consumed)),
            None => Err(ParseError::MalformedPayload),
        }
    }

    /// The packet on the wire. The length in front is computed from the
    /// payload; the header that the packet holds is not consulted.
    pub fn serialize(&self) -> (r: Vec<u8>)
        requires
            self@.payload.fits(),
        ensures
            r@ == self@.payload.spec_serialize(),
            r@.len() == 5 + self@.payload.body.spec_binsize(),
            spec_u32_from_be(r@) == r@.len() - 4,
    {
        proof {
            lemma_length_field(self@.payload);
        }
        let mut out: Vec<u8> = Vec::new();
        let size = self.payload.binsize();
        put_u32(&mut out, 1 + size);
        out.push(self.payload.kind().to_byte());
        let ghost mid = out@;
        self.payload.serialize(&mut out);
        proof {
            let a = spec_be_u32((1 + size) as u32);
            let b = seq![self@.payload.kind.spec_to_byte()];
            assert(mid =~= a + b);
            lemma_concat_assoc(a, b, self@.payload.body.spec_serialize());
        }
        out
    }
}

/// The first four bytes of a sequence alone decide which integer it starts with.
pub proof fn lemma_u32_of_prefix(s: Seq<u8>, t: Seq<u8>)
    requires
        s.len() >= 4,
        t.len() >= 4,
        s.take(4) == t.take(4),
    ensures
        spec_u32_from_be(s) == spec_u32_from_be(t),
{
    reveal(spec_u32_from_be);
    assert(s[0] == s.take(4)[0] && s[1] == s.take(4)[1] && s[2] == s.take(4)[2] && s[3]
        == s.take(4)[3]);
    assert(t[0] == t.take(4)[0] && t[1] == t.take(4)[1] && t[2] == t.take(4)[2] && t[3]
        == t.take(4)[3]);
}

/// The length in front of a serialized packet counts every byte that follows
/// it: the tag byte and the payload.
pub proof fn lemma_length_field(v: PayloadView)
    requires
        v.fits(),
    ensures
        v.spec_serialize().len() == 5 + v.body.spec_binsize(),
        spec_u32_from_be(v.spec_serialize()) == v.spec_serialize().len() - 4,
        spec_u32_from_be(v.spec_serialize()) == 1 + v.body.spec_binsize(),
        v.spec_serialize()[4] == v.kind.spec_to_byte(),
        v.spec_serialize().skip(5) == v.body.spec_serialize(),
{
    let length = (1 + v.body.spec_binsize()) as u32;
    let tail = seq![v.kind.spec_to_byte()] + v.body.spec_serialize();
    lemma_read_u32_of_encoding(length, tail);
    let s = v.spec_serialize();
    assert(s[4] == tail[0]);
    assert(s.skip(5) =~= v.body.spec_serialize());
}

/// Parsing undoes serializing: a payload whose fields have the layout of its
/// type and are well-formed, and which fits a packet, is read back from the
/// bytes of its packet, all of them, under the header computed for it; it
/// comes back with the extension flag of every attribute record cleared, so
/// unchanged where none was set.
pub proof fn lemma_parse_of_serialized(v: PayloadView)
    requires
        v.wf(),
        v.body.wf(),
        v.fits(),
    ensures
        spec_parse_packet(v.spec_serialize()) == Ok::<(PacketView, nat), ParseError>(
            (
                PacketView {
                    header: v.spec_header(),
                    payload: PayloadView { kind: v.kind, body: v.body.without_extended() },
                },
                v.spec_serialize().len(),
            ),
        ),
        v.body.plain() ==> v.body.without_extended() == v.body,
{
    let s = v.spec_serialize();
    lemma_length_field(v);
    kind::lemma_tag_roundtrip(v.kind, 0);
    v.body.lemma_parse_of_serialized();
    assert(s.subrange(5, s.len() as int) =~= s.skip(5));
}

/// A packet survives the wire: written and read back, a packet whose header
/// says what its payload is, whose fields are well-formed and whose attribute
/// records have no extension flag set is the same packet again, and reading
/// it takes every byte that was written.
pub proof fn lemma_roundtrip(p: PacketView)
    requires
        p.wf(),
        p.payload.body.wf(),
        p.payload.body.plain(),
    ensures
        spec_parse_packet(p.payload.spec_serialize()) == Ok::<(PacketView, nat), ParseError>(
            (p, p.payload.spec_serialize().len()),
        ),
{
    lemma_parse_of_serialized(p.payload);
}

/// Serializing undoes parsing: whatever reads as a packet is a packet whose
/// header says what its payload is, with well-formed fields; and where no
/// attribute record has the extension flag set, it is written as exactly
/// the bytes that were read.
pub proof fn lemma_parsed_is_serialized(s: Seq<u8>)
    requires
        spec_parse_packet(s) is Ok,
    ensures
        ({
            let (p, consumed) = spec_parse_packet(s)->Ok_0;
            &&& p.wf()
            &&& p.payload.body.wf()
            &&& 5 <= consumed <= s.len()
            &&& consumed == 4 + p.header.length
            &&& p.payload.body.plain() ==> p.payload.spec_serialize() == s.take(consumed as int)
        }),
{
    let (p, consumed) = spec_parse_packet(s)->Ok_0;
    let (header, raw) = spec_frame(s)->Ok_0;
    let shape = spec_shape(header.kind)->0;
    Body::lemma_parsed_is_serialized(shape, raw);
    kind::lemma_tag_roundtrip(header.kind, s[4]);
    lemma_read_u32_is_encoding(s);
    if p.payload.body.plain() {
        assert(s.take(consumed as int) =~= spec_be_u32(header.length) + (seq![s[4]] + raw));
    }
}

/// Bytes that follow a packet change nothing of how it is read: unless more
/// bytes are needed, the outcome is the same with anything appended.
pub proof fn lemma_parse_prefix(s: Seq<u8>, more: Seq<u8>)
    requires
        spec_parse_packet(s) != Err::<(PacketView, nat), ParseError>(ParseError::NeedMore),
    ensures
        spec_parse_packet(s + more) == spec_parse_packet(s),
        spec_frame(s + more) == spec_frame(s),
{
    let t = s + more;
    assert(s.len() >= 5);
    assert(t.take(4) =~= s.take(4));
    lemma_u32_of_prefix(s, t);
    assert(t[4] == s[4]);
    if spec_parse_header(s) is Ok {
        let header = spec_parse_header(s)->Ok_0;
        assert(t.subrange(5, 4 + header.length) =~= s.subrange(5, 4 + header.length));
    }
}

/// Where more bytes are needed, fewer bytes need more too.
pub proof fn lemma_need_more_prefix(s: Seq<u8>, more: Seq<u8>)
    requires
        spec_frame(s + more) == Err::<(PacketHeader, Seq<u8>), ParseError>(ParseError::NeedMore),
    ensures
        spec_frame(s) == Err::<(PacketHeader, Seq<u8>), ParseError>(ParseError::NeedMore),
{
    let t = s + more;
    if s.len() >= 5 {
        assert(t.take(4) =~= s.take(4));
        lemma_u32_of_prefix(s, t);
        assert(t[4] == s[4]);
    }
}

} // verus!
