use sftp_server::common::FileAttributes;
use sftp_server::error::Error;
use sftp_server::reassembly::{parse_packet, Frame, PartialPacket};
use sftp_server::stream::packet::PayloadTrait;
use sftp_server::stream::packet::request::{Lstat, MkDir, Write};
use sftp_server::stream::packet::status::StatusType;
use sftp_server::stream::packet::{Packet, Payload};

fn stream_of(packets: &[Packet]) -> Vec<u8> {
    let mut bytes = Vec::new();
    for p in packets {
        bytes.extend_from_slice(&p.serialize());
    }
    bytes
}

fn sample() -> Vec<Packet> {
    vec![
        Payload::init(3, vec![]).into_packet(),
        Payload::MkDir(MkDir { id: 7, path: "a".to_string(), attrs: FileAttributes::new() })
            .into_packet(),
        Payload::Write(Write { id: 10, handle: 5, offset: 0, data: b"hello".to_vec() })
            .into_packet(),
        Payload::status(1, StatusType::OK, "OK").into_packet(),
    ]
}

fn feed(chunks: &[&[u8]]) -> (Vec<Frame>, PartialPacket) {
    let mut partial = PartialPacket::new();
    let mut frames = Vec::new();
    for chunk in chunks {
        frames.extend(parse_packet(chunk, &mut partial).unwrap());
    }
    (frames, partial)
}

#[test]
fn new_reassembler_is_empty() {
    let partial = PartialPacket::new();
    assert_eq!(partial.buffered(), 0);
    assert_eq!(partial.target_len(), None);
}

#[test]
fn one_read_with_many_packets_yields_them_all() {
    let packets = sample();
    let bytes = stream_of(&packets);
    let (frames, partial) = feed(&[&bytes]);
    let expected: Vec<Frame> = packets.into_iter().map(Frame::Packet).collect();
    assert_eq!(frames, expected);
    assert_eq!(partial.buffered(), 0);
    assert_eq!(partial.target_len(), None);
}

#[test]
fn any_cut_in_two_yields_the_same_packets() {
    let packets = sample();
    let bytes = stream_of(&packets);
    let expected: Vec<Frame> = packets.into_iter().map(Frame::Packet).collect();
    for cut in 0..=bytes.len() {
        let (frames, partial) = feed(&[&bytes[..cut], &bytes[cut..]]);
        assert_eq!(frames, expected);
        assert_eq!(partial.buffered(), 0);
    }
}

#[test]
fn byte_by_byte_yields_the_same_packets() {
    let packets = sample();
    let bytes = stream_of(&packets);
    let expected: Vec<Frame> = packets.into_iter().map(Frame::Packet).collect();
    let chunks: Vec<&[u8]> = bytes.chunks(1).collect();
    let (frames, partial) = feed(&chunks);
    assert_eq!(frames, expected);
    assert_eq!(partial.buffered(), 0);
    let chunks: Vec<&[u8]> = bytes.chunks(7).collect();
    assert_eq!(feed(&chunks).0, expected);
}

#[test]
fn a_partial_packet_is_held_with_its_length() {
    let bytes = Payload::Lstat(Lstat { id: 5, path: "abc".to_string() }).into_packet().serialize();
    let mut partial = PartialPacket::new();
    assert_eq!(parse_packet(&bytes[..3], &mut partial).unwrap(), vec![]);
    assert_eq!(partial.target_len(), None);
    assert_eq!(partial.buffered(), 3);
    assert_eq!(parse_packet(&bytes[3..6], &mut partial).unwrap(), vec![]);
    assert_eq!(partial.target_len(), Some(12));
    assert_eq!(partial.buffered(), 6);
    assert_eq!(parse_packet(&bytes[6..15], &mut partial).unwrap(), vec![]);
    assert_eq!(partial.target_len(), Some(12));
    let frames = parse_packet(&bytes[15..], &mut partial).unwrap();
    assert_eq!(frames.len(), 1);
    assert_eq!(partial.buffered(), 0);
    assert_eq!(partial.target_len(), None);
}

#[test]
fn a_bad_payload_costs_its_packet_only() {
    let good = Payload::MkDir(MkDir { id: 7, path: "a".to_string(), attrs: FileAttributes::new() })
        .into_packet();
    let mut bytes = vec![0u8, 0, 0, 7, 7, 0, 0, 0, 9, 0xff, 0xff];
    bytes.extend_from_slice(&good.serialize());
    bytes.extend_from_slice(&[0, 0, 0, 2, 3, 1]);
    let (frames, partial) = feed(&[&bytes]);
    assert_eq!(
        frames,
        vec![Frame::Malformed { id: 9 }, Frame::Packet(good), Frame::Malformed { id: 0 }]
    );
    assert_eq!(partial.buffered(), 0);
}

#[test]
fn a_bad_header_ends_the_session() {
    let mut partial = PartialPacket::new();
    assert_eq!(
        parse_packet(&[0, 0, 0, 5, 99, 0, 0, 0, 3], &mut partial),
        Err(Error::PacketHeader)
    );
    assert_eq!(partial.buffered(), 9);
    assert_eq!(parse_packet(&[], &mut partial), Err(Error::PacketHeader));
    let mut partial = PartialPacket::new();
    assert_eq!(parse_packet(&[0, 0, 0, 0, 1], &mut partial), Err(Error::PacketHeader));
}

#[test]
fn packets_before_a_bad_header_are_still_handed_on() {
    let good = Payload::init(3, vec![]).into_packet();
    let mut bytes = good.serialize();
    bytes.extend_from_slice(&[0, 0, 0, 5, 99, 1]);
    let mut partial = PartialPacket::new();
    assert_eq!(parse_packet(&bytes, &mut partial).unwrap(), vec![Frame::Packet(good)]);
    assert_eq!(partial.buffered(), 6);
    assert_eq!(parse_packet(&[2, 3], &mut partial), Err(Error::PacketHeader));
}
