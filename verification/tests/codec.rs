use sftp_server::common::{
    FileAttrFlags, FileAttributes, Metadata, ATTR_ACMODTIME, ATTR_EXTENDED, ATTR_PERMISSIONS,
    ATTR_SIZE, ATTR_UIDGID,
};
use sftp_server::error::Error;
use sftp_server::number::{be_u32, be_u64, put_u32, put_u64};
use sftp_server::stream::packet::PayloadTrait;
use sftp_server::stream::packet::extended::{Request, Response};
use sftp_server::stream::packet::kind::PacketType;
use sftp_server::stream::packet::name::{File, Name};
use sftp_server::stream::packet::open::{Open, OpenFlags, OPEN_CREATE, OPEN_READ, OPEN_WRITE};
use sftp_server::stream::packet::request::{
    Close, FSetStat, Fstat, Init, Lstat, MkDir, OpenDir, Read, ReadDir, ReadLink, RealPath,
    Remove, Rename, RmDir, SetStat, Stat, Symlink, Write,
};
use sftp_server::stream::packet::response::{Attrs, Data, Handle, Version};
use sftp_server::stream::packet::status::{Status, StatusType};
use sftp_server::stream::packet::{
    Packet, PacketHeader, PacketRaw, ParseError, Payload,
};
use sftp_server::util::{
    parse_string, parse_u8_vec, parse_uuid, serialize_uuid, str_with_u32_length, uuid_from_text,
    uuid_text, vec_u8_as_slice, vec_with_u32_length,
};

const HANDLE: u128 = 0xa1a2a3a4_b1b2_c1c2_d1d2_d3d4d5d6d7d8;
const HANDLE_TEXT: &str = "a1a2a3a4-b1b2-c1c2-d1d2-d3d4d5d6d7d8";

fn attrs_with(bits: u32) -> FileAttributes {
    let mut a = FileAttributes::new();
    if bits & ATTR_SIZE != 0 {
        a.set_size(0x0102_0304_0506_0708);
    }
    if bits & ATTR_UIDGID != 0 {
        a.set_uid_gid(1000, 100);
    }
    if bits & ATTR_PERMISSIONS != 0 {
        a.set_permissions(0o100644);
    }
    if bits & ATTR_ACMODTIME != 0 {
        a.set_atime_mtime(1_600_000_000, 1_600_000_001);
    }
    a
}

fn every_payload(attrs: FileAttributes) -> Vec<Payload> {
    let file = |n: &str| File {
        filename: n.to_string(),
        longname: format!("dir/{}", n),
        attrs,
    };
    vec![
        Payload::Init(Init { version: 3, extension_data: vec![1, 2, 3] }),
        Payload::Version(Version { version: 3, extension_data: vec![] }),
        Payload::Open(Open {
            id: 1,
            path: "/tmp/x".to_string(),
            pflags: OpenFlags { bits: OPEN_READ | OPEN_WRITE | OPEN_CREATE },
            attrs,
        }),
        Payload::Close(Close { id: 2, handle: HANDLE }),
        Payload::Read(Read { id: 3, handle: HANDLE, offset: 1 << 40, len: 4096 }),
        Payload::Write(Write { id: 4, handle: HANDLE, offset: 7, data: b"hello".to_vec() }),
        Payload::Lstat(Lstat { id: 5, path: "a".to_string() }),
        Payload::Fstat(Fstat { id: 6, handle: HANDLE }),
        Payload::SetStat(SetStat { id: 7, path: "b".to_string(), attrs }),
        Payload::FSetStat(FSetStat { id: 8, handle: HANDLE, attrs }),
        Payload::OpenDir(OpenDir { id: 9, path: "".to_string() }),
        Payload::ReadDir(ReadDir { id: 10, handle: HANDLE }),
        Payload::Remove(Remove { id: 11, path: "r\u{e9}sum\u{e9}".to_string() }),
        Payload::MkDir(MkDir { id: 12, path: "d".to_string(), attrs }),
        Payload::RmDir(RmDir { id: 13, path: "d".to_string() }),
        Payload::RealPath(RealPath { id: 14, path: ".".to_string() }),
        Payload::Stat(Stat { id: 15, path: "s".to_string() }),
        Payload::Rename(Rename { id: 16, oldpath: "o".to_string(), newpath: "n".to_string() }),
        Payload::ReadLink(ReadLink { id: 17, path: "l".to_string() }),
        Payload::Symlink(Symlink {
            id: 18,
            linkpath: "l".to_string(),
            targetpath: "t".to_string(),
        }),
        Payload::Status(Status {
            id: 19,
            status: StatusType::PermissionDenied,
            message: "no".to_string(),
            language: "en-US".to_string(),
        }),
        Payload::Handle(Handle { id: 20, handle: HANDLE }),
        Payload::Data(Data { id: 21, data: vec![0, 255, 7] }),
        Payload::Name(Name { id: 22, files: vec![file("a"), file("b"), file("c")] }),
        Payload::Attrs(Attrs { id: 23, attrs }),
        Payload::Extended(Request {
            id: 24,
            request: "statvfs@openssh.com".to_string(),
            data: vec![9, 9],
        }),
        Payload::ExtendedReply(Response { id: 25, data: vec![1] }),
    ]
}

#[test]
fn u32_is_big_endian() {
    let mut out = Vec::new();
    put_u32(&mut out, 0x0102_0304);
    assert_eq!(out, vec![1u8, 2, 3, 4]);
    let (rest, v) = be_u32(&[0, 0, 0, 5, 9]).unwrap();
    assert_eq!(v, 5);
    assert_eq!(rest, &[9u8][..]);
    assert!(be_u32(&[0, 0, 0]).is_none());
    assert_eq!(be_u32(&[0xff, 0xff, 0xff, 0xff]).unwrap().1, u32::MAX);
}

#[test]
fn u64_is_big_endian() {
    let mut out = Vec::new();
    put_u64(&mut out, 0x0102_0304_0506_0708);
    assert_eq!(out, vec![1u8, 2, 3, 4, 5, 6, 7, 8]);
    let (rest, v) = be_u64(&[0, 0, 0, 0, 0, 0, 1, 0, 42]).unwrap();
    assert_eq!(v, 256);
    assert_eq!(rest, &[42u8][..]);
    assert!(be_u64(&[0; 7]).is_none());
    assert_eq!(be_u64(&[0xff; 8]).unwrap().1, u64::MAX);
}

#[test]
fn strings_carry_their_length() {
    let mut out = Vec::new();
    str_with_u32_length("a\u{e9}", &mut out);
    assert_eq!(out, vec![0, 0, 0, 3, b'a', 0xc3, 0xa9]);
    let (rest, s) = parse_string(&[0, 0, 0, 3, b'a', 0xc3, 0xa9, 1]).unwrap();
    assert_eq!(s, "a\u{e9}");
    assert_eq!(rest, &[1u8][..]);
    assert!(parse_string(&[0, 0, 0, 2, b'a']).is_none());
    assert!(parse_string(&[0, 0, 0, 1, 0xff]).is_none());
    assert_eq!(parse_string(&[0, 0, 0, 0]).unwrap().1, "");
}

#[test]
fn byte_strings_carry_their_length() {
    let mut out = vec![7u8];
    vec_with_u32_length(&vec![0xff, 0], &mut out);
    assert_eq!(out, vec![7, 0, 0, 0, 2, 0xff, 0]);
    let (rest, v) = parse_u8_vec(&[0, 0, 0, 2, 0xff, 0, 5]).unwrap();
    assert_eq!(v, vec![0xff, 0]);
    assert_eq!(rest, &[5u8][..]);
    assert!(parse_u8_vec(&[0, 0, 0, 3, 1, 2]).is_none());
    let mut raw = vec![1u8];
    vec_u8_as_slice(&vec![2, 3], &mut raw);
    assert_eq!(raw, vec![1, 2, 3]);
}

#[test]
fn handle_text_is_the_dashed_lower_case_form() {
    assert_eq!(uuid_text(HANDLE), HANDLE_TEXT);
    assert_eq!(uuid_text(0), "00000000-0000-0000-0000-000000000000");
    assert_eq!(uuid_text(u128::MAX), "ffffffff-ffff-ffff-ffff-ffffffffffff");
    assert_eq!(uuid_text(HANDLE), uuid::Uuid::from_u128(HANDLE).to_string());
    let mut out = Vec::new();
    serialize_uuid(HANDLE, &mut out);
    assert_eq!(out.len(), 40);
    assert_eq!(&out[..4], &[0, 0, 0, 36]);
    assert_eq!(&out[4..], HANDLE_TEXT.as_bytes());
}

#[test]
fn only_canonical_handle_text_is_a_handle() {
    assert_eq!(uuid_from_text(&HANDLE_TEXT.to_string()), Some(HANDLE));
    assert_eq!(uuid_from_text(&HANDLE_TEXT.to_uppercase()), None);
    assert_eq!(uuid_from_text(&HANDLE_TEXT.replace('-', "")), None);
    assert_eq!(uuid_from_text(&format!("{{{}}}", HANDLE_TEXT)), None);
    assert_eq!(uuid_from_text(&format!("urn:uuid:{}", HANDLE_TEXT)), None);
    assert_eq!(uuid_from_text(&"not a handle".to_string()), None);
    assert_eq!(uuid_from_text(&String::new()), None);
    let mut wire = vec![0, 0, 0, 36];
    wire.extend_from_slice(HANDLE_TEXT.as_bytes());
    wire.push(1);
    let (rest, h) = parse_uuid(&wire).unwrap();
    assert_eq!(h, HANDLE);
    assert_eq!(rest, &[1u8][..]);
    let mut upper = vec![0, 0, 0, 36];
    upper.extend_from_slice(HANDLE_TEXT.to_uppercase().as_bytes());
    assert!(parse_uuid(&upper).is_none());
}

#[test]
fn attribute_record_sizes() {
    assert_eq!(attrs_with(0).binsize(), 4);
    assert_eq!(attrs_with(ATTR_SIZE).binsize(), 12);
    assert_eq!(attrs_with(ATTR_UIDGID).binsize(), 12);
    assert_eq!(attrs_with(ATTR_PERMISSIONS).binsize(), 8);
    assert_eq!(attrs_with(ATTR_ACMODTIME).binsize(), 12);
    assert_eq!(attrs_with(15).binsize(), 32);
}

#[test]
fn attribute_record_on_the_wire() {
    let a = attrs_with(15);
    let mut out = Vec::new();
    a.serialize(&mut out);
    assert_eq!(
        out,
        vec![
            0, 0, 0, 15, 1, 2, 3, 4, 5, 6, 7, 8, 0, 0, 0x03, 0xe8, 0, 0, 0, 100, 0, 0, 0x81,
            0xa4, 0x5f, 0x5e, 0x10, 0x00, 0x5f, 0x5e, 0x10, 0x01,
        ]
    );
    let (rest, back) = FileAttributes::parse(&out).unwrap();
    assert!(rest.is_empty());
    assert_eq!(back, a);
}

#[test]
fn attribute_flags_decide_what_is_read() {
    for bits in 0..16u32 {
        let a = attrs_with(bits);
        assert_eq!(a.flags.bits(), bits);
        let mut out = Vec::new();
        a.serialize(&mut out);
        assert_eq!(out.len() as u32, a.binsize());
        let (rest, back) = FileAttributes::parse(&out).unwrap();
        assert!(rest.is_empty());
        assert_eq!(back, a);
        assert_eq!(back.size.is_some(), bits & ATTR_SIZE != 0);
        assert_eq!(back.uid.is_some(), bits & ATTR_UIDGID != 0);
        assert_eq!(back.permissions.is_some(), bits & ATTR_PERMISSIONS != 0);
        assert_eq!(back.mtime.is_some(), bits & ATTR_ACMODTIME != 0);
        if !out.is_empty() && bits != 0 {
            assert!(FileAttributes::parse(&out[..out.len() - 1]).is_none());
        }
    }
}

#[test]
fn unknown_flag_bits_are_kept_and_the_extended_bit_is_not_written() {
    let wire = [0x80u8, 0, 0x01, 0x04, 0, 0, 0x01, 0xed];
    let (rest, a) = FileAttributes::parse(&wire).unwrap();
    assert!(rest.is_empty());
    assert_eq!(a.flags, FileAttrFlags { bits: 0x8000_0104 });
    assert!(a.flags.contains(ATTR_EXTENDED));
    assert_eq!(a.get_permissions(), Some(0o755));
    assert_eq!(a.size, None);
    let mut out = Vec::new();
    a.serialize(&mut out);
    assert_eq!(out, vec![0, 0, 0x01, 0x04, 0, 0, 0x01, 0xed]);
}

#[test]
fn attribute_setters_and_getters() {
    let mut a = FileAttributes::new();
    assert_eq!(a, FileAttributes::default());
    assert_eq!(a.get_uid_gid(), None);
    assert_eq!(a.get_permissions(), None);
    assert_eq!(a.get_atime_mtime(), None);
    a.set_uid_gid(5, 6);
    assert_eq!(a.get_uid_gid(), Some((5, 6)));
    assert_eq!(a.flags.bits(), ATTR_UIDGID);
    a.set_atime_mtime(8, 9);
    assert_eq!(a.get_atime_mtime(), Some((8, 9)));
    a.set_permissions(0o600);
    assert_eq!(a.get_permissions(), Some(0o600));
    a.set_size(77);
    assert_eq!(a.size, Some(77));
    assert_eq!(a.flags.bits(), 15);
    let mut f = FileAttrFlags::from_bits(0);
    f.set(ATTR_SIZE, true);
    f.set(ATTR_EXTENDED, true);
    assert_eq!(f.bits(), 0x8000_0001);
    f.set(ATTR_SIZE, false);
    assert_eq!(f.bits(), 0x8000_0000);
    assert_eq!(FileAttrFlags::default().bits(), 0);
}

#[test]
fn metadata_becomes_attributes() {
    let file = Metadata::new("f", 10, false, true, None, 1, 2, 0o644, 100, 200);
    let a = FileAttributes::from(file.clone());
    assert_eq!(a.flags.bits(), 15);
    assert_eq!(a.size, Some(10));
    assert_eq!(a.get_uid_gid(), Some((1, 2)));
    assert_eq!(a.get_permissions(), Some(0o644));
    assert_eq!(a.get_atime_mtime(), Some((100, 200)));
    assert_eq!(FileAttributes::from_metadata(&file), a);
    let dir = Metadata::new("d", 0, true, false, Some("t"), 1, 2, 0o755, -1, 1 << 32);
    assert_eq!(dir.link_target.as_deref(), Some("t"));
    let a = FileAttributes::from(dir);
    assert_eq!(a.get_permissions(), Some(0o040755));
    assert_eq!(a.get_atime_mtime(), Some((u32::MAX, 0)));
}

#[test]
fn packet_type_tags() {
    let tags: [(PacketType, u8); 28] = [
        (PacketType::Init, 1),
        (PacketType::Version, 2),
        (PacketType::Open, 3),
        (PacketType::Close, 4),
        (PacketType::Read, 5),
        (PacketType::Write, 6),
        (PacketType::Lstat, 7),
        (PacketType::Fstat, 8),
        (PacketType::SetStat, 9),
        (PacketType::FSetStat, 10),
        (PacketType::OpenDir, 11),
        (PacketType::ReadDir, 12),
        (PacketType::Remove, 13),
        (PacketType::MkDir, 14),
        (PacketType::RmDir, 15),
        (PacketType::RealPath, 16),
        (PacketType::Stat, 17),
        (PacketType::Rename, 18),
        (PacketType::ReadLink, 19),
        (PacketType::Symlink, 20),
        (PacketType::Status, 101),
        (PacketType::Handle, 102),
        (PacketType::Data, 103),
        (PacketType::Name, 104),
        (PacketType::Attrs, 105),
        (PacketType::Extended, 200),
        (PacketType::ExtendedReply, 201),
        (PacketType::UNIMPLEMENTED, 255),
    ];
    for (kind, tag) in tags {
        assert_eq!(kind.to_byte(), tag);
        assert_eq!(PacketType::from_byte(tag), Some(kind));
    }
    for b in 0..=255u8 {
        assert_eq!(PacketType::from_byte(b).is_some(), tags.iter().any(|(_, t)| *t == b));
    }
}

#[test]
fn status_codes() {
    let codes = [
        (StatusType::OK, 0),
        (StatusType::EOF, 1),
        (StatusType::NoSuchFile, 2),
        (StatusType::PermissionDenied, 3),
        (StatusType::Failure, 4),
        (StatusType::BadMessage, 5),
        (StatusType::NoConnection, 6),
        (StatusType::ConnectionLost, 7),
        (StatusType::OpUnsupported, 8),
    ];
    for (status, code) in codes {
        assert_eq!(status.to_code(), code);
        assert_eq!(StatusType::from_code(code), Some(status));
    }
    assert_eq!(StatusType::from_code(9), None);
    assert_eq!(StatusType::from_code(u32::MAX), None);
}

#[test]
fn every_payload_survives_the_wire() {
    for bits in 0..16u32 {
        for payload in every_payload(attrs_with(bits)) {
            let packet = payload.clone().into_packet();
            assert_eq!(packet.header.kind, payload.kind());
            let bytes = packet.serialize();
            let (back, consumed) = Packet::parse(&bytes).unwrap();
            assert_eq!(consumed, bytes.len());
            assert_eq!(back, packet);
            assert_eq!(back.serialize(), bytes);
        }
    }
}

#[test]
fn length_field_counts_what_follows_it() {
    for payload in every_payload(attrs_with(5)) {
        let size = payload.binsize();
        assert_eq!(payload.checked_binsize(), Some(size));
        let header = payload.header();
        assert_eq!(header.length, 1 + size);
        let bytes = payload.into_packet().serialize();
        let length = u32::from_be_bytes([bytes[0], bytes[1], bytes[2], bytes[3]]);
        assert_eq!(length as usize, bytes.len() - 4);
        assert_eq!(length, 1 + size);
    }
}

#[test]
fn payload_sizes() {
    let a = attrs_with(15);
    let sizes: Vec<u32> = every_payload(a).iter().map(|p| p.binsize()).collect();
    assert_eq!(
        sizes,
        vec![
            7,
            4,
            4 + 4 + 6 + 4 + 32,
            44,
            56,
            4 + 40 + 8 + 4 + 5,
            9,
            44,
            4 + 5 + 32,
            44 + 32,
            8,
            44,
            4 + 4 + 8,
            4 + 5 + 32,
            9,
            9,
            9,
            4 + 5 + 5,
            9,
            4 + 5 + 5,
            4 + 4 + 6 + 9,
            44,
            4 + 4 + 3,
            4 + 4 + 3 * (5 + 9 + 32),
            36,
            4 + 23 + 2,
            5,
        ]
    );
    let f = File { filename: "ab".to_string(), longname: "d/ab".to_string(), attrs: a };
    assert_eq!(f.binsize(), 4 + 2 + 4 + 4 + 32);
    assert_eq!(f.checked_binsize(), Some(46));
}

#[test]
fn init_packet_bytes() {
    let bytes = [0u8, 0, 0, 5, 1, 0, 0, 0, 3];
    let (packet, consumed) = Packet::parse(&bytes).unwrap();
    assert_eq!(consumed, 9);
    assert_eq!(packet.header, PacketHeader { length: 5, kind: PacketType::Init });
    assert_eq!(packet.payload, Payload::init(3, vec![]));
    assert_eq!(
        Payload::version(3, vec![]).into_packet().serialize(),
        vec![0, 0, 0, 5, 2, 0, 0, 0, 3]
    );
}

#[test]
fn mkdir_packet_bytes() {
    let bytes = [0u8, 0, 0, 0x0e, 0x0e, 0, 0, 0, 7, 0, 0, 0, 1, b'a', 0, 0, 0, 0];
    let (packet, consumed) = Packet::parse(&bytes).unwrap();
    assert_eq!(consumed, 18);
    assert_eq!(
        packet.payload,
        Payload::MkDir(MkDir { id: 7, path: "a".to_string(), attrs: FileAttributes::new() })
    );
    assert_eq!(packet.serialize(), bytes.to_vec());
}

#[test]
fn status_packet_bytes() {
    let packet = Payload::status(7, StatusType::OK, "OK").into_packet();
    assert_eq!(
        packet.serialize(),
        vec![
            0, 0, 0, 24, 101, 0, 0, 0, 7, 0, 0, 0, 0, 0, 0, 0, 2, b'O', b'K', 0, 0, 0, 5, b'e',
            b'n', b'-', b'U', b'S',
        ]
    );
}

#[test]
fn handshake_data_fills_the_rest_of_the_packet() {
    let bytes = [0u8, 0, 0, 8, 1, 0, 0, 0, 3, 0xaa, 0xbb, 0xcc, 0xff];
    let (packet, consumed) = Packet::parse(&bytes).unwrap();
    assert_eq!(consumed, 12);
    assert_eq!(packet.payload, Payload::init(3, vec![0xaa, 0xbb, 0xcc]));
}

#[test]
fn too_few_bytes_need_more() {
    let bytes = Payload::real_path(13, "./x/../y").into_packet().serialize();
    for n in 0..bytes.len() {
        assert_eq!(Packet::parse(&bytes[..n]), Err(ParseError::NeedMore));
        assert_eq!(PacketRaw::parse(&bytes[..n]).err(), Some(ParseError::NeedMore));
    }
    assert!(Packet::parse(&bytes).is_ok());
}

#[test]
fn bad_headers_are_told_apart_from_bad_payloads() {
    assert_eq!(Packet::parse(&[0, 0, 0, 1, 99]), Err(ParseError::MalformedHeader));
    assert_eq!(Packet::parse(&[0, 0, 0, 0, 1]), Err(ParseError::MalformedHeader));
    assert_eq!(Packet::parse(&[0, 0, 0, 0, 99, 1, 2]), Err(ParseError::MalformedHeader));
    assert_eq!(Packet::parse(&[0, 0, 0, 1, 255]), Err(ParseError::MalformedPayload));
    assert_eq!(Packet::parse(&[0, 0, 0, 3, 1, 0, 0]), Err(ParseError::MalformedPayload));
    assert_eq!(PacketHeader::parse(&[0, 0, 0, 5]).err(), Some(ParseError::NeedMore));
    let (rest, h) = PacketHeader::parse(&[0, 0, 1, 0, 104, 9]).unwrap();
    assert_eq!(h, PacketHeader { length: 256, kind: PacketType::Name });
    assert_eq!(rest, &[9u8][..]);
}

#[test]
fn a_payload_must_fill_its_packet_exactly() {
    let mut bytes = Payload::Close(Close { id: 2, handle: HANDLE }).into_packet().serialize();
    bytes.push(0);
    bytes[3] += 1;
    assert_eq!(Packet::parse(&bytes), Err(ParseError::MalformedPayload));
    let mut short = Payload::Lstat(Lstat { id: 5, path: "abc".to_string() })
        .into_packet()
        .serialize();
    short.pop();
    short[3] -= 1;
    assert_eq!(Packet::parse(&short), Err(ParseError::MalformedPayload));
}

#[test]
fn malformed_fields_are_malformed_payloads() {
    let mut bad_utf8 = Payload::Lstat(Lstat { id: 5, path: "a".to_string() })
        .into_packet()
        .serialize();
    let last = bad_utf8.len() - 1;
    bad_utf8[last] = 0xff;
    assert_eq!(Packet::parse(&bad_utf8), Err(ParseError::MalformedPayload));
    let mut bad_handle = Payload::Fstat(Fstat { id: 6, handle: HANDLE }).into_packet().serialize();
    bad_handle[13] = b'A';
    assert_eq!(Packet::parse(&bad_handle), Err(ParseError::MalformedPayload));
    let mut bad_status = Payload::status(1, StatusType::OK, "OK").into_packet().serialize();
    bad_status[12] = 9;
    assert_eq!(Packet::parse(&bad_status), Err(ParseError::MalformedPayload));
    let mut bad_count = Payload::Name(Name::new(1)).into_packet().serialize();
    bad_count[12] = 1;
    assert_eq!(Packet::parse(&bad_count), Err(ParseError::MalformedPayload));
}

#[test]
fn raw_packets_show_the_request_id() {
    let bytes = Payload::Lstat(Lstat { id: 0x0102_0304, path: "a".to_string() })
        .into_packet()
        .serialize();
    let (raw, consumed) = PacketRaw::parse(&bytes).unwrap();
    assert_eq!(consumed, bytes.len());
    assert_eq!(raw.length as usize, bytes.len() - 4);
    assert_eq!(raw.kind, PacketType::Lstat);
    assert_eq!(raw.raw_payload, &bytes[5..]);
    assert_eq!(raw.request_id(), 0x0102_0304);
    assert_eq!(raw.decode().unwrap().serialize(), bytes);
    let init = [0u8, 0, 0, 5, 1, 0, 0, 0, 3];
    assert_eq!(PacketRaw::parse(&init).unwrap().0.request_id(), 0);
    let stub = [0u8, 0, 0, 3, 7, 1, 2];
    let (raw, _) = PacketRaw::parse(&stub).unwrap();
    assert_eq!(raw.request_id(), 0);
    assert!(raw.decode().is_none());
}

#[test]
fn open_flags_keep_every_bit() {
    let (rest, f) = OpenFlags::parse(&[0x80, 0, 0, 0x1a, 7]).unwrap();
    assert_eq!(rest, &[7u8][..]);
    assert_eq!(f.bits(), 0x8000_001a);
    assert!(f.contains(OPEN_WRITE) && f.contains(OPEN_CREATE));
    assert!(!f.contains(OPEN_READ));
    assert_eq!(OpenFlags::from_bits(3), OpenFlags { bits: 3 });
    assert_eq!(OpenFlags::default().bits(), 0);
    assert!(OpenFlags::parse(&[0, 0, 0]).is_none());
}

#[test]
fn builders() {
    assert_eq!(Payload::handle(9).id, 9);
    assert_ne!(Payload::handle(9).handle, Payload::handle(9).handle);
    let name = Payload::name(4);
    assert_eq!((name.id, name.files.len()), (4, 0));
    let attrs = Payload::attrs(5);
    assert_eq!((attrs.id, attrs.attrs), (5, FileAttributes::new()));
    let data = Payload::data_with_size(6, 3);
    assert_eq!((data.id, data.data), (6, vec![0, 0, 0]));
    assert_eq!(
        Payload::real_path(1, "x"),
        Payload::RealPath(RealPath { id: 1, path: "x".to_string() })
    );
    let mut name = Name::new(7);
    name.append_file("a", "d/a", FileAttributes::new());
    assert_eq!(
        name.files,
        vec![File {
            filename: "a".to_string(),
            longname: "d/a".to_string(),
            attrs: FileAttributes::new()
        }]
    );
    assert_eq!(Payload::Name(name).id(), Some(7));
    assert_eq!(Payload::init(3, vec![]).id(), None);
    assert!(Payload::status(1, StatusType::OK, "OK").try_into_packet().is_some());
}

#[test]
fn error_texts() {
    assert_eq!(Error::PacketHeader.to_string(), "error decoding packet header");
    assert_eq!(Error::NoHeader.to_string(), "no header");
    assert_eq!(Error::Packet.to_string(), "error decoding packet");
    assert_eq!(Error::InvalidPath.to_string(), "invalid path");
    assert_eq!(Error::IO.to_string(), "I/O failure");
    assert_eq!(Error::Metadata.to_string(), "metadata error");
}

#[test]
fn every_record_becomes_its_packet() {
    let attrs = attrs_with(15);
    assert_eq!(Attrs { id: 1, attrs }.binsize(), 36);
    assert_eq!(Data { id: 1, data: vec![1, 2, 3] }.binsize(), 11);
    assert_eq!(Init { version: 3, extension_data: vec![] }.binsize(), 4);
    assert_eq!(Read { id: 1, handle: HANDLE, offset: 0, len: 1 }.binsize(), 56);
    assert_eq!(SetStat { id: 7, path: "b".to_string(), attrs }.binsize(), 4 + 5 + 32);
    assert_eq!(
        Request { id: 1, request: "ab".to_string(), data: vec![1, 2, 3] }.binsize(),
        4 + 6 + 3
    );
    let mut name = Name::new(22);
    name.append_file("a", "dir/a", attrs);
    assert_eq!(name.binsize(), 8 + 5 + 9 + 32);
    assert_eq!(name.header(), PacketHeader { length: 55, kind: PacketType::Name });
    let packet = name.clone().into_packet();
    assert_eq!(packet.payload, Payload::Name(name.clone()));
    assert_eq!(packet.header, PacketHeader { length: 55, kind: PacketType::Name });
    assert_eq!(name.clone().into_payload(), Payload::Name(name));
    let close = Close { id: 2, handle: HANDLE };
    assert_eq!(close.packet_type(), PacketType::Close);
    assert_eq!(close.clone().into_packet(), Payload::Close(close).into_packet());
    for payload in every_payload(attrs) {
        assert_eq!(payload.packet_type(), payload.kind());
        assert_eq!(payload.clone().into_payload(), payload);
    }
}
