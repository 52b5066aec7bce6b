use sftp_server::error::Error;
use sftp_server::stream::packet::PayloadTrait;
use sftp_server::stream::packet::request::Lstat;
use sftp_server::stream::packet::Payload;
use sftp_server::stream::{Stream, STREAM_CAPACITY};

#[test]
fn packets_come_out_as_they_went_in() {
    let first = Payload::init(3, vec![]).into_packet();
    let second = Payload::Lstat(Lstat { id: 5, path: "abc".to_string() }).into_packet();
    let mut stream = Stream::new();
    assert_eq!(stream.get_packet(), Err(Error::NoHeader));
    assert_eq!(stream.check_packet(), Ok(false));
    let bytes = first.serialize();
    assert_eq!(stream.write(&bytes[..6]), 6);
    assert_eq!(stream.check_packet(), Ok(false));
    assert_eq!(stream.get_packet(), Err(Error::NoHeader));
    assert_eq!(stream.write(&bytes[6..]), 3);
    stream.flush();
    assert_eq!(stream.write(&second.serialize()), 16);
    assert_eq!(stream.check_packet(), Ok(true));
    assert_eq!(stream.get_packet(), Ok(first));
    assert_eq!(stream.check_packet(), Ok(true));
    assert_eq!(stream.get_packet(), Ok(second));
    assert_eq!(stream.check_packet(), Ok(false));
}

#[test]
fn a_full_stream_takes_no_more() {
    let mut stream = Stream::new();
    let block = vec![0u8; STREAM_CAPACITY - 1];
    assert_eq!(stream.write(&block), STREAM_CAPACITY - 1);
    assert_eq!(stream.write(&[1, 2, 3]), 1);
    assert_eq!(stream.write(&[1]), 0);
}

#[test]
fn bad_bytes_are_reported() {
    let mut stream = Stream::new();
    stream.write(&[0, 0, 0, 5, 99, 0, 0, 0, 3]);
    assert_eq!(stream.check_packet(), Err(Error::PacketHeader));
    let mut stream = Stream::new();
    stream.write(&[0, 0, 0, 3, 7, 1, 2, 0, 0, 0, 5, 1, 0, 0, 0, 3]);
    assert_eq!(stream.check_packet(), Ok(true));
    assert_eq!(stream.get_packet(), Err(Error::Packet));
    assert_eq!(stream.check_packet(), Ok(true));
    assert_eq!(stream.get_packet(), Ok(Payload::init(3, vec![]).into_packet()));
}
