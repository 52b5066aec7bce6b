//! What a payload says, as contracts see it, and how that stands on the wire.
//!
//! The 27 packet types share 15 layouts. A layout is written field after
//! field in wire order; integers are big-endian, strings and byte strings
//! carry their length in front, and the handshake and the vendor extensions
//! end in data that fills the rest of the packet with no length in front.

use super::kind::PacketType;
use super::name::{
    lemma_files_len, lemma_read_files_is_serialized, lemma_read_files_of_serialized, spec_files,
    spec_files_plain, spec_files_wf, spec_files_without_extended, spec_read_files, FileView,
};
use super::status::StatusType;
use crate::common::{FileAttributes, ATTR_EXTENDED};
use crate::number::{
    lemma_concat_assoc, lemma_read_u32_is_encoding, lemma_read_u32_of_encoding,
    lemma_read_u64_is_encoding, lemma_read_u64_of_encoding, spec_be_u32, spec_be_u64,
    spec_read_u32, spec_read_u64,
};
use crate::util::{
    lemma_read_byte_string_is_encoding, lemma_read_byte_string_of_encoding,
    lemma_read_string_is_encoding, lemma_read_string_of_encoding, lemma_read_uuid_is_encoding,
    lemma_read_uuid_of_encoding, spec_byte_string, spec_read_byte_string, spec_read_string,
    spec_read_uuid, spec_string, spec_uuid,
};
use vstd::prelude::*;
use vstd::utf8::encode_utf8;

verus! {

/// The layouts that payloads have.
#[derive(Clone, Copy, Debug, PartialEq, Eq, Structural)]
pub enum Shape {
    Handshake,
    Open,
    Handle,
    Read,
    Write,
    Path,
    PathAttrs,
    HandleAttrs,
    TwoPaths,
    Status,
    Data,
    Name,
    Attrs,
    Extended,
    ExtendedReply,
}

/// The fields of a payload, by layout.
pub enum Body {
    /// `Init` and `Version`.
    Handshake { version: u32, extension_data: Seq<u8> },
    /// `Open`.
    Open { id: u32, path: Seq<char>, pflags: u32, attrs: FileAttributes },
    /// `Close`, `Fstat`, `ReadDir` and the response `Handle`.
    Handle { id: u32, handle: u128 },
    /// `Read`.
    Read { id: u32, handle: u128, offset: u64, len: u32 },
    /// `Write`.
    Write { id: u32, handle: u128, offset: u64, data: Seq<u8> },
    /// `Lstat`, `Stat`, `OpenDir`, `Remove`, `RmDir`, `RealPath` and `ReadLink`.
    Path { id: u32, path: Seq<char> },
    /// `SetStat` and `MkDir`.
    PathAttrs { id: u32, path: Seq<char>, attrs: FileAttributes },
    /// `FSetStat`.
    HandleAttrs { id: u32, handle: u128, attrs: FileAttributes },
    /// `Rename` and `Symlink`.
    TwoPaths { id: u32, first: Seq<char>, second: Seq<char> },
    /// `Status`.
    Status { id: u32, status: StatusType, message: Seq<char>, language: Seq<char> },
    /// `Data`.
    Data { id: u32, data: Seq<u8> },
    /// `Name`.
    Name { id: u32, files: Seq<FileView> },
    /// `Attrs`.
    Attrs { id: u32, attrs: FileAttributes },
    /// `Extended`.
    Extended { id: u32, request: Seq<char>, data: Seq<u8> },
    /// `ExtendedReply`.
    ExtendedReply { id: u32, data: Seq<u8> },
}

/// The layout of the payloads of type `kind`; the reserved tag has none.
pub open spec fn spec_shape(kind: PacketType) -> Option<Shape> {
    match kind {
        PacketType::Init | PacketType::Version => Some(Shape::Handshake),
        PacketType::Open => Some(Shape::Open),
        PacketType::Close | PacketType::Fstat | PacketType::ReadDir | PacketType::Handle => Some(
            Shape::Handle,
        ),
        PacketType::Read => Some(Shape::Read),
        PacketType::Write => Some(Shape::Write),
        PacketType::Lstat
        | PacketType::Stat
        | PacketType::OpenDir
        | PacketType::Remove
        | PacketType::RmDir
        | PacketType::RealPath
        | PacketType::ReadLink => Some(Shape::Path),
        PacketType::SetStat | PacketType::MkDir => Some(Shape::PathAttrs),
        PacketType::FSetStat => Some(Shape::HandleAttrs),
        PacketType::Rename | PacketType::Symlink => Some(Shape::TwoPaths),
        PacketType::Status => Some(Shape::Status),
        PacketType::Data => Some(Shape::Data),
        PacketType::Name => Some(Shape::Name),
        PacketType::Attrs => Some(Shape::Attrs),
        PacketType::Extended => Some(Shape::Extended),
        PacketType::ExtendedReply => Some(Shape::ExtendedReply),
        PacketType::UNIMPLEMENTED => None,
    }
}

/// A reading that left nothing over.
pub open spec fn spec_whole<T>(r: Option<(Seq<u8>, T)>) -> Option<T> {
    match r {
        Some((rest, v)) => if rest.len() == 0 {
            Some(v)
        } else {
            None
        },
        None => None,
    }
}

impl Body {
    /// The layout of these fields.
    pub open spec fn shape(self) -> Shape {
        match self {
            Body::Handshake { .. } => Shape::Handshake,
            Body::Open { .. } => Shape::Open,
            Body::Handle { .. } => Shape::Handle,
            Body::Read { .. } => Shape::Read,
            Body::Write { .. } => Shape::Write,
            Body::Path { .. } => Shape::Path,
            Body::PathAttrs { .. } => Shape::PathAttrs,
            Body::HandleAttrs { .. } => Shape::HandleAttrs,
            Body::TwoPaths { .. } => Shape::TwoPaths,
            Body::Status { .. } => Shape::Status,
            Body::Data { .. } => Shape::Data,
            Body::Name { .. } => Shape::Name,
            Body::Attrs { .. } => Shape::Attrs,
            Body::Extended { .. } => Shape::Extended,
            Body::ExtendedReply { .. } => Shape::ExtendedReply,
        }
    }

    /// The request that a payload belongs to; the handshake has none.
    pub open spec fn id(self) -> Option<u32> {
        match self {
            Body::Handshake { .. } => None,
            Body::Open { id, .. } => Some(id),
            Body::Handle { id, .. } => Some(id),
            Body::Read { id, .. } => Some(id),
            Body::Write { id, .. } => Some(id),
            Body::Path { id, .. } => Some(id),
            Body::PathAttrs { id, .. } => Some(id),
            Body::HandleAttrs { id, .. } => Some(id),
            Body::TwoPaths { id, .. } => Some(id),
            Body::Status { id, .. } => Some(id),
            Body::Data { id, .. } => Some(id),
            Body::Name { id, .. } => Some(id),
            Body::Attrs { id, .. } => Some(id),
            Body::Extended { id, .. } => Some(id),
            Body::ExtendedReply { id, .. } => Some(id),
        }
    }

    /// The payload on the wire.
    pub open spec fn spec_serialize(self) -> Seq<u8> {
        match self {
            Body::Handshake { version, extension_data } => spec_be_u32(version) + extension_data,
            Body::Open { id, path, pflags, attrs } => spec_be_u32(id) + (spec_string(path) + (
            spec_be_u32(pflags) + attrs.spec_serialize())),
            Body::Handle { id, handle } => spec_be_u32(id) + spec_uuid(handle),
            Body::Read { id, handle, offset, len } => spec_be_u32(id) + (spec_uuid(handle) + (
            spec_be_u64(offset) + spec_be_u32(len))),
            Body::Write { id, handle, offset, data } => spec_be_u32(id) + (spec_uuid(handle) + (
            spec_be_u64(offset) + spec_byte_string(data))),
            Body::Path { id, path } => spec_be_u32(id) + spec_string(path),
            Body::PathAttrs { id, path, attrs } => spec_be_u32(id) + (spec_string(path)
                + attrs.spec_serialize()),
            Body::HandleAttrs { id, handle, attrs } => spec_be_u32(id) + (spec_uuid(handle)
                + attrs.spec_serialize()),
            Body::TwoPaths { id, first, second } => spec_be_u32(id) + (spec_string(first)
                + spec_string(second)),
            Body::Status { id, status, message, language } => spec_be_u32(id) + (spec_be_u32(
                status.spec_to_code(),
            ) + (spec_string(message) + spec_string(language))),
            Body::Data { id, data } => spec_be_u32(id) + spec_byte_string(data),
            Body::Name { id, files } => spec_be_u32(id) + (spec_be_u32(files.len() as u32)
                + spec_files(files)),
            Body::Attrs { id, attrs } => spec_be_u32(id) + attrs.spec_serialize(),
            Body::Extended { id, request, data } => spec_be_u32(id) + (spec_string(request)
                + data),
            Body::ExtendedReply { id, data } => spec_be_u32(id) + data,
        }
    }

    /// The number of bytes of the payload on the wire.
    pub open spec fn spec_binsize(self) -> nat {
        self.spec_serialize().len()
    }

    /// Every length that the payload writes is the length of what follows it,
    /// and every attribute record has its fields where its flags announce them.
    pub open spec fn wf(self) -> bool {
        match self {
            Body::Handshake { .. } => true,
            Body::Open { path, attrs, .. } => encode_utf8(path).len() <= u32::MAX && attrs.wf(),
            Body::Handle { .. } => true,
            Body::Read { .. } => true,
            Body::Write { data, .. } => data.len() <= u32::MAX,
            Body::Path { path, .. } => encode_utf8(path).len() <= u32::MAX,
            Body::PathAttrs { path, attrs, .. } => encode_utf8(path).len() <= u32::MAX
                && attrs.wf(),
            Body::HandleAttrs { attrs, .. } => attrs.wf(),
            Body::TwoPaths { first, second, .. } => encode_utf8(first).len() <= u32::MAX
                && encode_utf8(second).len() <= u32::MAX,
            Body::Status { message, language, .. } => encode_utf8(message).len() <= u32::MAX
                && encode_utf8(language).len() <= u32::MAX,
            Body::Data { data, .. } => data.len() <= u32::MAX,
            Body::Name { files, .. } => files.len() <= u32::MAX && spec_files_wf(files),
            Body::Attrs { attrs, .. } => attrs.wf(),
            Body::Extended { request, .. } => encode_utf8(request).len() <= u32::MAX,
            Body::ExtendedReply { .. } => true,
        }
    }

    /// No attribute record of the payload has the extension flag set.
    pub open spec fn plain(self) -> bool {
        match self {
            Body::Open { attrs, .. } => !attrs.flags.contains(ATTR_EXTENDED),
            Body::PathAttrs { attrs, .. } => !attrs.flags.contains(ATTR_EXTENDED),
            Body::HandleAttrs { attrs, .. } => !attrs.flags.contains(ATTR_EXTENDED),
            Body::Attrs { attrs, .. } => !attrs.flags.contains(ATTR_EXTENDED),
            Body::Name { files, .. } => spec_files_plain(files),
            _ => true,
        }
    }

    /// The payload as serializing and parsing it again gives it back: the
    /// extension flag of every attribute record cleared, all else the same.
    pub open spec fn without_extended(self) -> Body {
        match self {
            Body::Open { id, path, pflags, attrs } => Body::Open {
                id,
                path,
                pflags,
                attrs: attrs.without_extended(),
            },
            Body::PathAttrs { id, path, attrs } => Body::PathAttrs {
                id,
                path,
                attrs: attrs.without_extended(),
            },
            Body::HandleAttrs { id, handle, attrs } => Body::HandleAttrs {
                id,
                handle,
                attrs: attrs.without_extended(),
            },
            Body::Attrs { id, attrs } => Body::Attrs { id, attrs: attrs.without_extended() },
            Body::Name { id, files } => Body::Name {
                id,
                files: spec_files_without_extended(files),
            },
            _ => self,
        }
    }

    /// The payload of layout [`Shape::Handshake`] that the bytes `s` are.
    pub open spec fn spec_parse_handshake(s: Seq<u8>) -> Option<Body> {
        match spec_read_u32(s) {
        Some((rest, version)) => Some(Body::Handshake { version, extension_data: rest }),
        None => None,
    }
    }

    /// The payload of layout [`Shape::Open`] that the bytes `s` are.
    pub open spec fn spec_parse_open(s: Seq<u8>) -> Option<Body> {
        match spec_read_u32(s) {
        Some((s1, id)) => match spec_read_string(s1) {
            Some((s2, path)) => match spec_read_u32(s2) {
                Some((s3, pflags)) => match spec_whole(FileAttributes::spec_parse(s3)) {
                    Some(attrs) => Some(Body::Open { id, path, pflags, attrs }),
                    None => None,
                },
                None => None,
            },
            None => None,
        },
        None => None,
    }
    }

    /// The payload of layout [`Shape::Handle`] that the bytes `s` are.
    pub open spec fn spec_parse_handle(s: Seq<u8>) -> Option<Body> {
        match spec_read_u32(s) {
        Some((s1, id)) => match spec_whole(spec_read_uuid(s1)) {
            Some(handle) => Some(Body::Handle { id, handle }),
            None => None,
        },
        None => None,
    }
    }

    /// The payload of layout [`Shape::Read`] that the bytes `s` are.
    pub open spec fn spec_parse_read(s: Seq<u8>) -> Option<Body> {
        match spec_read_u32(s) {
        Some((s1, id)) => match spec_read_uuid(s1) {
            Some((s2, handle)) => match spec_read_u64(s2) {
                Some((s3, offset)) => match spec_whole(spec_read_u32(s3)) {
                    Some(len) => Some(Body::Read { id, handle, offset, len }),
                    None => None,
                },
                None => None,
            },
            None => None,
        },
        None => None,
    }
    }

    /// The payload of layout [`Shape::Write`] that the bytes `s` are.
    pub open spec fn spec_parse_write(s: Seq<u8>) -> Option<Body> {
        match spec_read_u32(s) {
        Some((s1, id)) => match spec_read_uuid(s1) {
            Some((s2, handle)) => match spec_read_u64(s2) {
                Some((s3, offset)) => match spec_whole(spec_read_byte_string(s3)) {
                    Some(data) => Some(Body::Write { id, handle, offset, data }),
                    None => None,
                },
                None => None,
            },
            None => None,
        },
        None => None,
    }
    }

    /// The payload of layout [`Shape::Path`] that the bytes `s` are.
    pub open spec fn spec_parse_path(s: Seq<u8>) -> Option<Body> {
        match spec_read_u32(s) {
        Some((s1, id)) => match spec_whole(spec_read_string(s1)) {
            Some(path) => Some(Body::Path { id, path }),
            None => None,
        },
        None => None,
    }
    }

    /// The payload of layout [`Shape::PathAttrs`] that the bytes `s` are.
    pub open spec fn spec_parse_path_attrs(s: Seq<u8>) -> Option<Body> {
        match spec_read_u32(s) {
        Some((s1, id)) => match spec_read_string(s1) {
            Some((s2, path)) => match spec_whole(FileAttributes::spec_parse(s2)) {
                Some(attrs) => Some(Body::PathAttrs { id, path, attrs }),
                None => None,
            },
            None => None,
        },
        None => None,
    }
    }

    /// The payload of layout [`Shape::HandleAttrs`] that the bytes `s` are.
    pub open spec fn spec_parse_handle_attrs(s: Seq<u8>) -> Option<Body> {
        match spec_read_u32(s) {
        Some((s1, id)) => match spec_read_uuid(s1) {
            Some((s2, handle)) => match spec_whole(FileAttributes::spec_parse(s2)) {
                Some(attrs) => Some(Body::HandleAttrs { id, handle, attrs }),
                None => None,
            },
            None => None,
        },
        None => None,
    }
    }

    /// The payload of layout [`Shape::TwoPaths`] that the bytes `s` are.
    pub open spec fn spec_parse_two_paths(s: Seq<u8>) -> Option<Body> {
        match spec_read_u32(s) {
        Some((s1, id)) => match spec_read_string(s1) {
            Some((s2, first)) => match spec_whole(spec_read_string(s2)) {
                Some(second) => Some(Body::TwoPaths { id, first, second }),
                None => None,
            },
            None => None,
        },
        None => None,
    }
    }

    /// The payload of layout [`Shape::Status`] that the bytes `s` are.
    pub open spec fn spec_parse_status(s: Seq<u8>) -> Option<Body> {
        match spec_read_u32(s) {
        Some((s1, id)) => match spec_read_u32(s1) {
            Some((s2, code)) => match StatusType::spec_from_code(code) {
                Some(status) => match spec_read_string(s2) {
                    Some((s3, message)) => match spec_whole(spec_read_string(s3)) {
                        Some(language) => Some(
                            Body::Status { id, status, message, language },
                        ),
                        None => None,
                    },
                    None => None,
                },
                None => None,
            },
            None => None,
        },
        None => None,
    }
    }

    /// The payload of layout [`Shape::Data`] that the bytes `s` are.
    pub open spec fn spec_parse_data(s: Seq<u8>) -> Option<Body> {
        match spec_read_u32(s) {
        Some((s1, id)) => match spec_whole(spec_read_byte_string(s1)) {
            Some(data) => Some(Body::Data { id, data }),
            None => None,
        },
        None => None,
    }
    }

    /// The payload of layout [`Shape::Name`] that the bytes `s` are.
    pub open spec fn spec_parse_name(s: Seq<u8>) -> Option<Body> {
        match spec_read_u32(s) {
        Some((s1, id)) => match spec_read_u32(s1) {
            Some((s2, count)) => match spec_whole(spec_read_files(s2, count as nat)) {
                Some(files) => Some(Body::Name { id, files }),
                None => None,
            },
            None => None,
        },
        None => None,
    }
    }

    /// The payload of layout [`Shape::Attrs`] that the bytes `s` are.
    pub open spec fn spec_parse_attrs(s: Seq<u8>) -> Option<Body> {
        match spec_read_u32(s) {
        Some((s1, id)) => match spec_whole(FileAttributes::spec_parse(s1)) {
            Some(attrs) => Some(Body::Attrs { id, attrs }),
            None => None,
        },
        None => None,
    }
    }

    /// The payload of layout [`Shape::Extended`] that the bytes `s` are.
    pub open spec fn spec_parse_extended(s: Seq<u8>) -> Option<Body> {
        match spec_read_u32(s) {
        Some((s1, id)) => match spec_read_string(s1) {
            Some((s2, request)) => Some(Body::Extended { id, request, data: s2 }),
            None => None,
        },
        None => None,
    }
    }

    /// The payload of layout [`Shape::ExtendedReply`] that the bytes `s` are.
    pub open spec fn spec_parse_extended_reply(s: Seq<u8>) -> Option<Body> {
        match spec_read_u32(s) {
        Some((s1, id)) => Some(Body::ExtendedReply { id, data: s1 }),
        None => None,
    }
    }

    /// The payload of layout `shape` that the bytes `s` are, all of them; or
    /// nothing, where they are none.
    pub open spec fn spec_parse_shape(shape: Shape, s: Seq<u8>) -> Option<Body> {
        match shape {
            Shape::Handshake => Self::spec_parse_handshake(s),
            Shape::Open => Self::spec_parse_open(s),
            Shape::Handle => Self::spec_parse_handle(s),
            Shape::Read => Self::spec_parse_read(s),
            Shape::Write => Self::spec_parse_write(s),
            Shape::Path => Self::spec_parse_path(s),
            Shape::PathAttrs => Self::spec_parse_path_attrs(s),
            Shape::HandleAttrs => Self::spec_parse_handle_attrs(s),
            Shape::TwoPaths => Self::spec_parse_two_paths(s),
            Shape::Status => Self::spec_parse_status(s),
            Shape::Data => Self::spec_parse_data(s),
            Shape::Name => Self::spec_parse_name(s),
            Shape::Attrs => Self::spec_parse_attrs(s),
            Shape::Extended => Self::spec_parse_extended(s),
            Shape::ExtendedReply => Self::spec_parse_extended_reply(s),
        }
    }

    /// The payload of type `kind` that the bytes `s` are, all of them; or
    /// nothing, where they are none.
    pub open spec fn spec_parse(kind: PacketType, s: Seq<u8>) -> Option<Body> {
        match spec_shape(kind) {
            Some(shape) => Self::spec_parse_shape(shape, s),
            None => None,
        }
    }

    proof fn lemma_parse_of_serialized_handshake(self)
        requires
            self.wf(),
            self is Handshake,
        ensures
            Self::spec_parse_handshake(self.spec_serialize()) == Some(self.without_extended()),
            self.without_extended().wf(),
            self.plain() ==> self.without_extended() == self,
    {
        let nil = Seq::<u8>::empty();
        match self {
            Body::Handshake { version, extension_data } => {
                lemma_read_u32_of_encoding(version, extension_data);
            },
            _ => {},
        }
    }

    proof fn lemma_parse_of_serialized_open(self)
        requires
            self.wf(),
            self is Open,
        ensures
            Self::spec_parse_open(self.spec_serialize()) == Some(self.without_extended()),
            self.without_extended().wf(),
            self.plain() ==> self.without_extended() == self,
    {
        let nil = Seq::<u8>::empty();
        match self {
            Body::Open { id, path, pflags, attrs } => {
                let t3 = attrs.spec_serialize();
                let t2 = spec_be_u32(pflags) + t3;
                let t1 = spec_string(path) + t2;
                lemma_read_u32_of_encoding(id, t1);
                lemma_read_string_of_encoding(path, t2);
                lemma_read_u32_of_encoding(pflags, t3);
                attrs.lemma_parse_of_serialized(nil);
                assert(t3 + nil =~= t3);
            },
            _ => {},
        }
    }

    proof fn lemma_parse_of_serialized_handle(self)
        requires
            self.wf(),
            self is Handle,
        ensures
            Self::spec_parse_handle(self.spec_serialize()) == Some(self.without_extended()),
            self.without_extended().wf(),
            self.plain() ==> self.without_extended() == self,
    {
        let nil = Seq::<u8>::empty();
        match self {
            Body::Handle { id, handle } => {
                let t1 = spec_uuid(handle);
                lemma_read_u32_of_encoding(id, t1);
                lemma_read_uuid_of_encoding(handle, nil);
                assert(t1 + nil =~= t1);
            },
            _ => {},
        }
    }

    proof fn lemma_parse_of_serialized_read(self)
        requires
            self.wf(),
            self is Read,
        ensures
            Self::spec_parse_read(self.spec_serialize()) == Some(self.without_extended()),
            self.without_extended().wf(),
            self.plain() ==> self.without_extended() == self,
    {
        let nil = Seq::<u8>::empty();
        match self {
            Body::Read { id, handle, offset, len } => {
                let t3 = spec_be_u32(len);
                let t2 = spec_be_u64(offset) + t3;
                let t1 = spec_uuid(handle) + t2;
                lemma_read_u32_of_encoding(id, t1);
                lemma_read_uuid_of_encoding(handle, t2);
                lemma_read_u64_of_encoding(offset, t3);
                lemma_read_u32_of_encoding(len, nil);
                assert(t3 + nil =~= t3);
            },
            _ => {},
        }
    }

    proof fn lemma_parse_of_serialized_write(self)
        requires
            self.wf(),
            self is Write,
        ensures
            Self::spec_parse_write(self.spec_serialize()) == Some(self.without_extended()),
            self.without_extended().wf(),
            self.plain() ==> self.without_extended() == self,
    {
        let nil = Seq::<u8>::empty();
        match self {
            Body::Write { id, handle, offset, data } => {
                let t3 = spec_byte_string(data);
                let t2 = spec_be_u64(offset) + t3;
                let t1 = spec_uuid(handle) + t2;
                lemma_read_u32_of_encoding(id, t1);
                lemma_read_uuid_of_encoding(handle, t2);
                lemma_read_u64_of_encoding(offset, t3);
                lemma_read_byte_string_of_encoding(data, nil);
                assert(t3 + nil =~= t3);
            },
            _ => {},
        }
    }

    proof fn lemma_parse_of_serialized_path(self)
        requires
            self.wf(),
            self is Path,
        ensures
            Self::spec_parse_path(self.spec_serialize()) == Some(self.without_extended()),
            self.without_extended().wf(),
            self.plain() ==> self.without_extended() == self,
    {
        let nil = Seq::<u8>::empty();
        match self {
            Body::Path { id, path } => {
                let t1 = spec_string(path);
                lemma_read_u32_of_encoding(id, t1);
                lemma_read_string_of_encoding(path, nil);
                assert(t1 + nil =~= t1);
            },
            _ => {},
        }
    }

    proof fn lemma_parse_of_serialized_path_attrs(self)
        requires
            self.wf(),
            self is PathAttrs,
        ensures
            Self::spec_parse_path_attrs(self.spec_serialize()) == Some(self.without_extended()),
            self.without_extended().wf(),
            self.plain() ==> self.without_extended() == self,
    {
        let nil = Seq::<u8>::empty();
        match self {
            Body::PathAttrs { id, path, attrs } => {
                let t2 = attrs.spec_serialize();
                let t1 = spec_string(path) + t2;
                lemma_read_u32_of_encoding(id, t1);
                lemma_read_string_of_encoding(path, t2);
                attrs.lemma_parse_of_serialized(nil);
                assert(t2 + nil =~= t2);
            },
            _ => {},
        }
    }

    proof fn lemma_parse_of_serialized_handle_attrs(self)
        requires
            self.wf(),
            self is HandleAttrs,
        ensures
            Self::spec_parse_handle_attrs(self.spec_serialize()) == Some(self.without_extended()),
            self.without_extended().wf(),
            self.plain() ==> self.without_extended() == self,
    {
        let nil = Seq::<u8>::empty();
        match self {
            Body::HandleAttrs { id, handle, attrs } => {
                let t2 = attrs.spec_serialize();
                let t1 = spec_uuid(handle) + t2;
                lemma_read_u32_of_encoding(id, t1);
                lemma_read_uuid_of_encoding(handle, t2);
                attrs.lemma_parse_of_serialized(nil);
                assert(t2 + nil =~= t2);
            },
            _ => {},
        }
    }

    proof fn lemma_parse_of_serialized_two_paths(self)
        requires
            self.wf(),
            self is TwoPaths,
        ensures
            Self::spec_parse_two_paths(self.spec_serialize()) == Some(self.without_extended()),
            self.without_extended().wf(),
            self.plain() ==> self.without_extended() == self,
    {
        let nil = Seq::<u8>::empty();
        match self {
            Body::TwoPaths { id, first, second } => {
                let t2 = spec_string(second);
                let t1 = spec_string(first) + t2;
                lemma_read_u32_of_encoding(id, t1);
                lemma_read_string_of_encoding(first, t2);
                lemma_read_string_of_encoding(second, nil);
                assert(t2 + nil =~= t2);
            },
            _ => {},
        }
    }

    proof fn lemma_parse_of_serialized_status(self)
        requires
            self.wf(),
            self is Status,
        ensures
            Self::spec_parse_status(self.spec_serialize()) == Some(self.without_extended()),
            self.without_extended().wf(),
            self.plain() ==> self.without_extended() == self,
    {
        let nil = Seq::<u8>::empty();
        match self {
            Body::Status { id, status, message, language } => {
                let t3 = spec_string(language);
                let t2 = spec_string(message) + t3;
                let t1 = spec_be_u32(status.spec_to_code()) + t2;
                lemma_read_u32_of_encoding(id, t1);
                lemma_read_u32_of_encoding(status.spec_to_code(), t2);
                lemma_read_string_of_encoding(message, t3);
                lemma_read_string_of_encoding(language, nil);
                assert(t3 + nil =~= t3);
            },
            _ => {},
        }
    }

    proof fn lemma_parse_of_serialized_data(self)
        requires
            self.wf(),
            self is Data,
        ensures
            Self::spec_parse_data(self.spec_serialize()) == Some(self.without_extended()),
            self.without_extended().wf(),
            self.plain() ==> self.without_extended() == self,
    {
        let nil = Seq::<u8>::empty();
        match self {
            Body::Data { id, data } => {
                let t1 = spec_byte_string(data);
                lemma_read_u32_of_encoding(id, t1);
                lemma_read_byte_string_of_encoding(data, nil);
                assert(t1 + nil =~= t1);
            },
            _ => {},
        }
    }

    proof fn lemma_parse_of_serialized_name(self)
        requires
            self.wf(),
            self is Name,
        ensures
            Self::spec_parse_name(self.spec_serialize()) == Some(self.without_extended()),
            self.without_extended().wf(),
            self.plain() ==> self.without_extended() == self,
    {
        let nil = Seq::<u8>::empty();
        match self {
            Body::Name { id, files } => {
                let t2 = spec_files(files);
                let t1 = spec_be_u32(files.len() as u32) + t2;
                lemma_read_u32_of_encoding(id, t1);
                lemma_read_u32_of_encoding(files.len() as u32, t2);
                lemma_read_files_of_serialized(files, nil);
                assert(t2 + nil =~= t2);
                if spec_files_plain(files) {
                    assert forall|i: int| 0 <= i < files.len() implies #[trigger] files[i]
                        == spec_files_without_extended(files)[i] by {
                        files[i].attrs.lemma_parse_of_serialized(nil);
                    }
                    assert(spec_files_without_extended(files) =~= files);
                }
            },
            _ => {},
        }
    }

    proof fn lemma_parse_of_serialized_attrs(self)
        requires
            self.wf(),
            self is Attrs,
        ensures
            Self::spec_parse_attrs(self.spec_serialize()) == Some(self.without_extended()),
            self.without_extended().wf(),
            self.plain() ==> self.without_extended() == self,
    {
        let nil = Seq::<u8>::empty();
        match self {
            Body::Attrs { id, attrs } => {
                let t1 = attrs.spec_serialize();
                lemma_read_u32_of_encoding(id, t1);
                attrs.lemma_parse_of_serialized(nil);
                assert(t1 + nil =~= t1);
            },
            _ => {},
        }
    }

    proof fn lemma_parse_of_serialized_extended(self)
        requires
            self.wf(),
            self is Extended,
        ensures
            Self::spec_parse_extended(self.spec_serialize()) == Some(self.without_extended()),
            self.without_extended().wf(),
            self.plain() ==> self.without_extended() == self,
    {
        let nil = Seq::<u8>::empty();
        match self {
            Body::Extended { id, request, data } => {
                let t1 = spec_string(request) + data;
                lemma_read_u32_of_encoding(id, t1);
                lemma_read_string_of_encoding(request, data);
            },
            _ => {},
        }
    }

    proof fn lemma_parse_of_serialized_extended_reply(self)
        requires
            self.wf(),
            self is ExtendedReply,
        ensures
            Self::spec_parse_extended_reply(self.spec_serialize()) == Some(self.without_extended()),
            self.without_extended().wf(),
            self.plain() ==> self.without_extended() == self,
    {
        let nil = Seq::<u8>::empty();
        match self {
            Body::ExtendedReply { id, data } => {
                lemma_read_u32_of_encoding(id, data);
            },
            _ => {},
        }
    }

    /// A well-formed payload, written, reads back as itself with the
    /// extension flag of every attribute record cleared; so as itself, where
    /// none is set.
    pub proof fn lemma_parse_of_serialized(self)
        requires
            self.wf(),
        ensures
            Self::spec_parse_shape(self.shape(), self.spec_serialize()) == Some(
                self.without_extended(),
            ),
            self.without_extended().wf(),
            self.plain() ==> self.without_extended() == self,
    {
        match self {
            Body::Handshake { .. } => self.lemma_parse_of_serialized_handshake(),
            Body::Open { .. } => self.lemma_parse_of_serialized_open(),
            Body::Handle { .. } => self.lemma_parse_of_serialized_handle(),
            Body::Read { .. } => self.lemma_parse_of_serialized_read(),
            Body::Write { .. } => self.lemma_parse_of_serialized_write(),
            Body::Path { .. } => self.lemma_parse_of_serialized_path(),
            Body::PathAttrs { .. } => self.lemma_parse_of_serialized_path_attrs(),
            Body::HandleAttrs { .. } => self.lemma_parse_of_serialized_handle_attrs(),
            Body::TwoPaths { .. } => self.lemma_parse_of_serialized_two_paths(),
            Body::Status { .. } => self.lemma_parse_of_serialized_status(),
            Body::Data { .. } => self.lemma_parse_of_serialized_data(),
            Body::Name { .. } => self.lemma_parse_of_serialized_name(),
            Body::Attrs { .. } => self.lemma_parse_of_serialized_attrs(),
            Body::Extended { .. } => self.lemma_parse_of_serialized_extended(),
            Body::ExtendedReply { .. } => self.lemma_parse_of_serialized_extended_reply(),
        }
    }

    proof fn lemma_parsed_is_serialized_handshake(s: Seq<u8>)
        requires
            Self::spec_parse_handshake(s) is Some,
        ensures
            ({
                let body = Self::spec_parse_handshake(s)->0;
                &&& body is Handshake
                &&& body.wf()
                &&& body.spec_binsize() == s.len()
                &&& body.plain() ==> body.spec_serialize() == s
            }),
    {
        let nil = Seq::<u8>::empty();
        let body = Self::spec_parse_handshake(s)->0;
        lemma_read_u32_is_encoding(s);
        lemma_read_u32_of_encoding((spec_read_u32(s)->0).1, nil);
        body.lemma_binsize();
        let s1 = s.skip(4);

    }

    proof fn lemma_parsed_is_serialized_open(s: Seq<u8>)
        requires
            Self::spec_parse_open(s) is Some,
        ensures
            ({
                let body = Self::spec_parse_open(s)->0;
                &&& body is Open
                &&& body.wf()
                &&& body.spec_binsize() == s.len()
                &&& body.plain() ==> body.spec_serialize() == s
            }),
    {
        let nil = Seq::<u8>::empty();
        let body = Self::spec_parse_open(s)->0;
        lemma_read_u32_is_encoding(s);
        lemma_read_u32_of_encoding((spec_read_u32(s)->0).1, nil);
        body.lemma_binsize();
        let s1 = s.skip(4);
        lemma_read_string_is_encoding(s1);
        let (s2, path) = spec_read_string(s1)->0;
        lemma_read_u32_is_encoding(s2);
        let s3 = s2.skip(4);
        FileAttributes::lemma_parsed_is_serialized(s3);
        let (rest, attrs) = FileAttributes::spec_parse(s3)->0;
        crate::util::lemma_string_len(path);
        lemma_read_u32_of_encoding((spec_read_u32(s2)->0).1, nil);
        assert(s.len() == 4 + s1.len());
        assert(s1.len() == 4 + encode_utf8(path).len() + s2.len());
        assert(s2.len() == 4 + s3.len());
        assert(s3.len() == attrs.spec_binsize());
        if body.plain() {
            assert(attrs.spec_serialize() + rest =~= attrs.spec_serialize());
        }
    
    }

    proof fn lemma_parsed_is_serialized_handle(s: Seq<u8>)
        requires
            Self::spec_parse_handle(s) is Some,
        ensures
            ({
                let body = Self::spec_parse_handle(s)->0;
                &&& body is Handle
                &&& body.wf()
                &&& body.spec_binsize() == s.len()
                &&& body.plain() ==> body.spec_serialize() == s
            }),
    {
        let nil = Seq::<u8>::empty();
        let body = Self::spec_parse_handle(s)->0;
        lemma_read_u32_is_encoding(s);
        lemma_read_u32_of_encoding((spec_read_u32(s)->0).1, nil);
        body.lemma_binsize();
        let s1 = s.skip(4);
        lemma_read_uuid_is_encoding(s1);
        let (rest, handle) = spec_read_uuid(s1)->0;
        assert(spec_uuid(handle) + rest =~= spec_uuid(handle));
    
    }

    proof fn lemma_parsed_is_serialized_read(s: Seq<u8>)
        requires
            Self::spec_parse_read(s) is Some,
        ensures
            ({
                let body = Self::spec_parse_read(s)->0;
                &&& body is Read
                &&& body.wf()
                &&& body.spec_binsize() == s.len()
                &&& body.plain() ==> body.spec_serialize() == s
            }),
    {
        let nil = Seq::<u8>::empty();
        let body = Self::spec_parse_read(s)->0;
        lemma_read_u32_is_encoding(s);
        lemma_read_u32_of_encoding((spec_read_u32(s)->0).1, nil);
        body.lemma_binsize();
        let s1 = s.skip(4);
        lemma_read_uuid_is_encoding(s1);
        let (s2, handle) = spec_read_uuid(s1)->0;
        lemma_read_u64_is_encoding(s2);
        let s3 = s2.skip(8);
        lemma_read_u32_is_encoding(s3);
        let (rest, len) = spec_read_u32(s3)->0;
        assert(spec_be_u32(len) + rest =~= spec_be_u32(len));
    
    }

    proof fn lemma_parsed_is_serialized_write(s: Seq<u8>)
        requires
            Self::spec_parse_write(s) is Some,
        ensures
            ({
                let body = Self::spec_parse_write(s)->0;
                &&& body is Write
                &&& body.wf()
                &&& body.spec_binsize() == s.len()
                &&& body.plain() ==> body.spec_serialize() == s
            }),
    {
        let nil = Seq::<u8>::empty();
        let body = Self::spec_parse_write(s)->0;
        lemma_read_u32_is_encoding(s);
        lemma_read_u32_of_encoding((spec_read_u32(s)->0).1, nil);
        body.lemma_binsize();
        let s1 = s.skip(4);
        lemma_read_uuid_is_encoding(s1);
        let (s2, handle) = spec_read_uuid(s1)->0;
        lemma_read_u64_is_encoding(s2);
        let s3 = s2.skip(8);
        lemma_read_byte_string_is_encoding(s3);
        let (rest, data) = spec_read_byte_string(s3)->0;
        assert(spec_byte_string(data) + rest =~= spec_byte_string(data));
    
    }

    proof fn lemma_parsed_is_serialized_path(s: Seq<u8>)
        requires
            Self::spec_parse_path(s) is Some,
        ensures
            ({
                let body = Self::spec_parse_path(s)->0;
                &&& body is Path
                &&& body.wf()
                &&& body.spec_binsize() == s.len()
                &&& body.plain() ==> body.spec_serialize() == s
            }),
    {
        let nil = Seq::<u8>::empty();
        let body = Self::spec_parse_path(s)->0;
        lemma_read_u32_is_encoding(s);
        lemma_read_u32_of_encoding((spec_read_u32(s)->0).1, nil);
        body.lemma_binsize();
        let s1 = s.skip(4);
        lemma_read_string_is_encoding(s1);
        let (rest, path) = spec_read_string(s1)->0;
        assert(spec_string(path) + rest =~= spec_string(path));
    
    }

    proof fn lemma_parsed_is_serialized_path_attrs(s: Seq<u8>)
        requires
            Self::spec_parse_path_attrs(s) is Some,
        ensures
            ({
                let body = Self::spec_parse_path_attrs(s)->0;
                &&& body is PathAttrs
                &&& body.wf()
                &&& body.spec_binsize() == s.len()
                &&& body.plain() ==> body.spec_serialize() == s
            }),
    {
        let nil = Seq::<u8>::empty();
        let body = Self::spec_parse_path_attrs(s)->0;
        lemma_read_u32_is_encoding(s);
        lemma_read_u32_of_encoding((spec_read_u32(s)->0).1, nil);
        body.lemma_binsize();
        let s1 = s.skip(4);
        lemma_read_string_is_encoding(s1);
        let (s2, path) = spec_read_string(s1)->0;
        FileAttributes::lemma_parsed_is_serialized(s2);
        let (rest, attrs) = FileAttributes::spec_parse(s2)->0;
        crate::util::lemma_string_len(path);
        assert(s.len() == 4 + s1.len());
        assert(s1.len() == 4 + encode_utf8(path).len() + s2.len());
        assert(s2.len() == attrs.spec_binsize());
        if body.plain() {
            assert(attrs.spec_serialize() + rest =~= attrs.spec_serialize());
        }
    
    }

    proof fn lemma_parsed_is_serialized_handle_attrs(s: Seq<u8>)
        requires
            Self::spec_parse_handle_attrs(s) is Some,
        ensures
            ({
                let body = Self::spec_parse_handle_attrs(s)->0;
                &&& body is HandleAttrs
                &&& body.wf()
                &&& body.spec_binsize() == s.len()
                &&& body.plain() ==> body.spec_serialize() == s
            }),
    {
        let nil = Seq::<u8>::empty();
        let body = Self::spec_parse_handle_attrs(s)->0;
        lemma_read_u32_is_encoding(s);
        lemma_read_u32_of_encoding((spec_read_u32(s)->0).1, nil);
        body.lemma_binsize();
        let s1 = s.skip(4);
        lemma_read_uuid_is_encoding(s1);
        let (s2, handle) = spec_read_uuid(s1)->0;
        FileAttributes::lemma_parsed_is_serialized(s2);
        let (rest, attrs) = FileAttributes::spec_parse(s2)->0;
        lemma_read_uuid_of_encoding(handle, nil);
        assert(s.len() == 4 + s1.len());
        assert(s1.len() == 40 + s2.len());
        assert(s2.len() == attrs.spec_binsize());
        if body.plain() {
            assert(attrs.spec_serialize() + rest =~= attrs.spec_serialize());
        }
    
    }

    proof fn lemma_parsed_is_serialized_two_paths(s: Seq<u8>)
        requires
            Self::spec_parse_two_paths(s) is Some,
        ensures
            ({
                let body = Self::spec_parse_two_paths(s)->0;
                &&& body is TwoPaths
                &&& body.wf()
                &&& body.spec_binsize() == s.len()
                &&& body.plain() ==> body.spec_serialize() == s
            }),
    {
        let nil = Seq::<u8>::empty();
        let body = Self::spec_parse_two_paths(s)->0;
        lemma_read_u32_is_encoding(s);
        lemma_read_u32_of_encoding((spec_read_u32(s)->0).1, nil);
        body.lemma_binsize();
        let s1 = s.skip(4);
        lemma_read_string_is_encoding(s1);
        let (s2, first) = spec_read_string(s1)->0;
        lemma_read_string_is_encoding(s2);
        let (rest, second) = spec_read_string(s2)->0;
        assert(spec_string(second) + rest =~= spec_string(second));
    
    }

    proof fn lemma_parsed_is_serialized_status(s: Seq<u8>)
        requires
            Self::spec_parse_status(s) is Some,
        ensures
            ({
                let body = Self::spec_parse_status(s)->0;
                &&& body is Status
                &&& body.wf()
                &&& body.spec_binsize() == s.len()
                &&& body.plain() ==> body.spec_serialize() == s
            }),
    {
        let nil = Seq::<u8>::empty();
        let body = Self::spec_parse_status(s)->0;
        lemma_read_u32_is_encoding(s);
        lemma_read_u32_of_encoding((spec_read_u32(s)->0).1, nil);
        body.lemma_binsize();
        let s1 = s.skip(4);
        lemma_read_u32_is_encoding(s1);
        let s2 = s1.skip(4);
        lemma_read_string_is_encoding(s2);
        let (s3, message) = spec_read_string(s2)->0;
        lemma_read_string_is_encoding(s3);
        let (rest, language) = spec_read_string(s3)->0;
        assert(spec_string(language) + rest =~= spec_string(language));
    
    }

    proof fn lemma_parsed_is_serialized_data(s: Seq<u8>)
        requires
            Self::spec_parse_data(s) is Some,
        ensures
            ({
                let body = Self::spec_parse_data(s)->0;
                &&& body is Data
                &&& body.wf()
                &&& body.spec_binsize() == s.len()
                &&& body.plain() ==> body.spec_serialize() == s
            }),
    {
        let nil = Seq::<u8>::empty();
        let body = Self::spec_parse_data(s)->0;
        lemma_read_u32_is_encoding(s);
        lemma_read_u32_of_encoding((spec_read_u32(s)->0).1, nil);
        body.lemma_binsize();
        let s1 = s.skip(4);
        lemma_read_byte_string_is_encoding(s1);
        let (rest, data) = spec_read_byte_string(s1)->0;
        assert(spec_byte_string(data) + rest =~= spec_byte_string(data));
    
    }

    proof fn lemma_parsed_is_serialized_name(s: Seq<u8>)
        requires
            Self::spec_parse_name(s) is Some,
        ensures
            ({
                let body = Self::spec_parse_name(s)->0;
                &&& body is Name
                &&& body.wf()
                &&& body.spec_binsize() == s.len()
                &&& body.plain() ==> body.spec_serialize() == s
            }),
    {
        let nil = Seq::<u8>::empty();
        let body = Self::spec_parse_name(s)->0;
        lemma_read_u32_is_encoding(s);
        lemma_read_u32_of_encoding((spec_read_u32(s)->0).1, nil);
        body.lemma_binsize();
        let s1 = s.skip(4);
        lemma_read_u32_is_encoding(s1);
        let s2 = s1.skip(4);
        let (_, count) = spec_read_u32(s1)->0;
        lemma_read_files_is_serialized(s2, count as nat);
        let (rest, files) = spec_read_files(s2, count as nat)->0;
        if body.plain() {
            assert(spec_files(files) + rest =~= spec_files(files));
        }
    
    }

    proof fn lemma_parsed_is_serialized_attrs(s: Seq<u8>)
        requires
            Self::spec_parse_attrs(s) is Some,
        ensures
            ({
                let body = Self::spec_parse_attrs(s)->0;
                &&& body is Attrs
                &&& body.wf()
                &&& body.spec_binsize() == s.len()
                &&& body.plain() ==> body.spec_serialize() == s
            }),
    {
        let nil = Seq::<u8>::empty();
        let body = Self::spec_parse_attrs(s)->0;
        lemma_read_u32_is_encoding(s);
        lemma_read_u32_of_encoding((spec_read_u32(s)->0).1, nil);
        body.lemma_binsize();
        let s1 = s.skip(4);
        FileAttributes::lemma_parsed_is_serialized(s1);
        let (rest, attrs) = FileAttributes::spec_parse(s1)->0;
        if body.plain() {
            assert(attrs.spec_serialize() + rest =~= attrs.spec_serialize());
        }
    
    }

    proof fn lemma_parsed_is_serialized_extended(s: Seq<u8>)
        requires
            Self::spec_parse_extended(s) is Some,
        ensures
            ({
                let body = Self::spec_parse_extended(s)->0;
                &&& body is Extended
                &&& body.wf()
                &&& body.spec_binsize() == s.len()
                &&& body.plain() ==> body.spec_serialize() == s
            }),
    {
        let nil = Seq::<u8>::empty();
        let body = Self::spec_parse_extended(s)->0;
        lemma_read_u32_is_encoding(s);
        lemma_read_u32_of_encoding((spec_read_u32(s)->0).1, nil);
        body.lemma_binsize();
        let s1 = s.skip(4);
        lemma_read_string_is_encoding(s1);
    
    }

    proof fn lemma_parsed_is_serialized_extended_reply(s: Seq<u8>)
        requires
            Self::spec_parse_extended_reply(s) is Some,
        ensures
            ({
                let body = Self::spec_parse_extended_reply(s)->0;
                &&& body is ExtendedReply
                &&& body.wf()
                &&& body.spec_binsize() == s.len()
                &&& body.plain() ==> body.spec_serialize() == s
            }),
    {
        let nil = Seq::<u8>::empty();
        let body = Self::spec_parse_extended_reply(s)->0;
        lemma_read_u32_is_encoding(s);
        lemma_read_u32_of_encoding((spec_read_u32(s)->0).1, nil);
        body.lemma_binsize();
        let s1 = s.skip(4);

    }

    /// Whatever reads as a payload is a well-formed payload of the layout
    /// asked for and, where no extension flag is set, is written as exactly
    /// the bytes that were read.
    pub proof fn lemma_parsed_is_serialized(shape: Shape, s: Seq<u8>)
        requires
            Self::spec_parse_shape(shape, s) is Some,
        ensures
            ({
                let body = Self::spec_parse_shape(shape, s)->0;
                &&& body.shape() == shape
                &&& body.wf()
                &&& body.spec_binsize() == s.len()
                &&& body.plain() ==> body.spec_serialize() == s
            }),
    {
        match shape {
            Shape::Handshake => Self::lemma_parsed_is_serialized_handshake(s),
            Shape::Open => Self::lemma_parsed_is_serialized_open(s),
            Shape::Handle => Self::lemma_parsed_is_serialized_handle(s),
            Shape::Read => Self::lemma_parsed_is_serialized_read(s),
            Shape::Write => Self::lemma_parsed_is_serialized_write(s),
            Shape::Path => Self::lemma_parsed_is_serialized_path(s),
            Shape::PathAttrs => Self::lemma_parsed_is_serialized_path_attrs(s),
            Shape::HandleAttrs => Self::lemma_parsed_is_serialized_handle_attrs(s),
            Shape::TwoPaths => Self::lemma_parsed_is_serialized_two_paths(s),
            Shape::Status => Self::lemma_parsed_is_serialized_status(s),
            Shape::Data => Self::lemma_parsed_is_serialized_data(s),
            Shape::Name => Self::lemma_parsed_is_serialized_name(s),
            Shape::Attrs => Self::lemma_parsed_is_serialized_attrs(s),
            Shape::Extended => Self::lemma_parsed_is_serialized_extended(s),
            Shape::ExtendedReply => Self::lemma_parsed_is_serialized_extended_reply(s),
        }
    }

    /// A payload whose bytes a 32-bit length can count writes every length
    /// inside it in full: it is well-formed but for its attribute records.
    pub proof fn lemma_small_is_wf(self)
        requires
            self.spec_binsize() <= u32::MAX,
        ensures
            match self {
                Body::Open { attrs, .. } => attrs.wf() ==> self.wf(),
                Body::PathAttrs { attrs, .. } => attrs.wf() ==> self.wf(),
                Body::HandleAttrs { attrs, .. } => attrs.wf() ==> self.wf(),
                Body::Attrs { attrs, .. } => attrs.wf() ==> self.wf(),
                Body::Name { files, .. } => (forall|i: int|
                    0 <= i < files.len() ==> (#[trigger] files[i]).attrs.wf()) ==> self.wf(),
                _ => self.wf(),
            },
    {
        self.lemma_binsize();
        match self {
            Body::Name { id, files } => {
                lemma_files_len(files);
                if forall|i: int| 0 <= i < files.len() ==> (#[trigger] files[i]).attrs.wf() {
                    assert forall|i: int| 0 <= i < files.len() implies (#[trigger] files[i])
                        .wf() by {
                        crate::stream::packet::name::lemma_files_entry_len(files, i);
                        files[i].lemma_at_least_twelve();
                    }
                }
            },
            _ => {},
        }
    }

    /// How long each layout is on the wire.
    pub proof fn lemma_binsize(self)
        ensures
            self.spec_binsize() == match self {
                Body::Handshake { extension_data, .. } => 4 + extension_data.len(),
                Body::Open { path, attrs, .. } => 12 + encode_utf8(path).len()
                    + attrs.spec_binsize(),
                Body::Handle { .. } => 44,
                Body::Read { .. } => 56,
                Body::Write { data, .. } => 56 + data.len(),
                Body::Path { path, .. } => 8 + encode_utf8(path).len(),
                Body::PathAttrs { path, attrs, .. } => 8 + encode_utf8(path).len()
                    + attrs.spec_binsize(),
                Body::HandleAttrs { attrs, .. } => 44 + attrs.spec_binsize(),
                Body::TwoPaths { first, second, .. } => 12 + encode_utf8(first).len()
                    + encode_utf8(second).len(),
                Body::Status { message, language, .. } => 16 + encode_utf8(message).len()
                    + encode_utf8(language).len(),
                Body::Data { data, .. } => 8 + data.len(),
                Body::Name { files, .. } => 8 + spec_files(files).len(),
                Body::Attrs { attrs, .. } => 4 + attrs.spec_binsize(),
                Body::Extended { request, data, .. } => 8 + encode_utf8(request).len()
                    + data.len(),
                Body::ExtendedReply { data, .. } => 4 + data.len(),
            },
    {
        let nil = Seq::<u8>::empty();
        match self {
            Body::Handshake { version, .. } => {
                lemma_read_u32_of_encoding(version, nil);
            },
            Body::Open { id, path, pflags, attrs } => {
                lemma_read_u32_of_encoding(id, nil);
                crate::util::lemma_string_len(path);
                lemma_read_u32_of_encoding(pflags, nil);
                attrs.lemma_binsize();
            },
            Body::Handle { id, handle } => {
                lemma_read_u32_of_encoding(id, nil);
                lemma_read_uuid_of_encoding(handle, nil);
            },
            Body::Read { id, handle, offset, len } => {
                lemma_read_u32_of_encoding(id, nil);
                lemma_read_uuid_of_encoding(handle, nil);
                lemma_read_u64_of_encoding(offset, nil);
                lemma_read_u32_of_encoding(len, nil);
            },
            Body::Write { id, handle, offset, data } => {
                lemma_read_u32_of_encoding(id, nil);
                lemma_read_uuid_of_encoding(handle, nil);
                lemma_read_u64_of_encoding(offset, nil);
                crate::util::lemma_byte_string_len(data);
            },
            Body::Path { id, path } => {
                lemma_read_u32_of_encoding(id, nil);
                crate::util::lemma_string_len(path);
            },
            Body::PathAttrs { id, path, attrs } => {
                lemma_read_u32_of_encoding(id, nil);
                crate::util::lemma_string_len(path);
                attrs.lemma_binsize();
            },
            Body::HandleAttrs { id, handle, attrs } => {
                lemma_read_u32_of_encoding(id, nil);
                lemma_read_uuid_of_encoding(handle, nil);
                attrs.lemma_binsize();
            },
            Body::TwoPaths { id, first, second } => {
                lemma_read_u32_of_encoding(id, nil);
                crate::util::lemma_string_len(first);
                crate::util::lemma_string_len(second);
            },
            Body::Status { id, status, message, language } => {
                lemma_read_u32_of_encoding(id, nil);
                lemma_read_u32_of_encoding(status.spec_to_code(), nil);
                crate::util::lemma_string_len(message);
                crate::util::lemma_string_len(language);
            },
            Body::Data { id, data } => {
                lemma_read_u32_of_encoding(id, nil);
                crate::util::lemma_byte_string_len(data);
            },
            Body::Name { id, files } => {
                lemma_read_u32_of_encoding(id, nil);
                lemma_read_u32_of_encoding(files.len() as u32, nil);
            },
            Body::Attrs { id, attrs } => {
                lemma_read_u32_of_encoding(id, nil);
                attrs.lemma_binsize();
            },
            Body::Extended { id, request, data } => {
                lemma_read_u32_of_encoding(id, nil);
                crate::util::lemma_string_len(request);
            },
            Body::ExtendedReply { id, data } => {
                lemma_read_u32_of_encoding(id, nil);
            },
        }
    }
}

} // verus!
