//! Packets on a byte stream, read out of a bounded buffer.

use crate::error::Error;
use vstd::prelude::*;

pub mod packet;

use packet::body::Body;
use packet::{spec_parse_header, Packet, PacketHeader, Payload};

verus! {

/// `circular::Buffer`, a bounded byte buffer that is written to at one end
/// and consumed from the other. Nothing of its inside is known here.
#[verifier::external_type_specification]
#[verifier::external_body]
pub struct ExBuffer(circular::Buffer);

/// The bytes that a `circular::Buffer` holds and has not handed out yet, in
/// the order in which they were written.
pub uninterp spec fn buffer_data(buffer: circular::Buffer) -> Seq<u8>;

/// The number of bytes that a `circular::Buffer` can take before it is full.
pub uninterp spec fn buffer_space(buffer: circular::Buffer) -> nat;

/// `circular::Buffer::with_capacity`: an empty buffer with room for
/// `capacity` bytes.
#[verifier::external_body]
fn buffer_with_capacity(capacity: usize) -> (r: circular::Buffer)
    requires
        capacity <= isize::MAX,
    ensures
        buffer_data(r) == Seq::<u8>::empty(),
        buffer_space(r) == capacity,
{
    circular::Buffer::with_capacity(capacity)
}

/// `circular::Buffer::available_data`: the number of bytes held.
#[verifier::external_body]
fn buffer_available_data(buffer: &circular::Buffer) -> (r: usize)
    ensures
        r == buffer_data(*buffer).len(),
{
    buffer.available_data()
}

/// `circular::Buffer::data`: the bytes held.
#[verifier::external_body]
fn buffer_data_slice(buffer: &circular::Buffer) -> (r: &[u8])
    ensures
        r@ == buffer_data(*buffer),
{
    buffer.data()
}

/// `circular::Buffer::consume`: drops the first `count` bytes held, or all
/// of them where fewer are held, and says how many it dropped. It may move
/// what is left to the front of its memory, which makes room and never
/// takes any.
#[verifier::external_body]
fn buffer_consume(buffer: &mut circular::Buffer, count: usize) -> (r: usize)
    ensures
        r == if count <= buffer_data(*old(buffer)).len() {
            count as int
        } else {
            buffer_data(*old(buffer)).len() as int
        },
        buffer_data(*final(buffer)) == buffer_data(*old(buffer)).skip(r as int),
        buffer_space(*final(buffer)) >= buffer_space(*old(buffer)),
    no_unwind
{
    buffer.consume(count)
}

/// `circular::Buffer::consume_noshift`: drops the first `count` bytes held,
/// or all of them where fewer are held, says how many it dropped, and moves
/// nothing.
#[verifier::external_body]
fn buffer_consume_noshift(buffer: &mut circular::Buffer, count: usize) -> (r: usize)
    ensures
        r == if count <= buffer_data(*old(buffer)).len() {
            count as int
        } else {
            buffer_data(*old(buffer)).len() as int
        },
        buffer_data(*final(buffer)) == buffer_data(*old(buffer)).skip(r as int),
        buffer_space(*final(buffer)) == buffer_space(*old(buffer)),
    no_unwind
{
    buffer.consume_noshift(count)
}

/// `std::io::Write::write` as `circular::Buffer` implements it: takes as
/// many of the bytes of `buf` as there is room for, appends them to the bytes
/// held, and says how many it took. It never fails.
#[verifier::external_body]
fn buffer_write(buffer: &mut circular::Buffer, buf: &[u8]) -> (r: usize)
    ensures
        r == if buf@.len() <= buffer_space(*old(buffer)) {
            buf@.len()
        } else {
            buffer_space(*old(buffer))
        },
        buffer_data(*final(buffer)) == buffer_data(*old(buffer)) + buf@.take(r as int),
        buffer_space(*final(buffer)) + r >= buffer_space(*old(buffer)),
    no_unwind
{
    match std::io::Write::write(buffer, buf) {
        Ok(taken) => taken,
        Err(_) => 0,
    }
}

/// The room that a new stream has for bytes not yet read as packets.
pub const STREAM_CAPACITY: usize = 1048576;

/// A byte stream that is written to as bytes arrive and read from packet by
/// packet.
pub struct Stream {
    buffer: circular::Buffer,
    current_header: Option<PacketHeader>,
}

/// A [`Stream`] as contracts see it.
pub struct StreamView {
    /// The bytes written and not yet read as a header or a payload.
    pub data: Seq<u8>,
    /// The header of the packet whose payload is read next, once it is read.
    pub header: Option<PacketHeader>,
    /// The number of bytes that the stream can take before it is full.
    pub space: nat,
}

impl View for Stream {
    type V = StreamView;

    closed spec fn view(&self) -> StreamView {
        StreamView {
            data: buffer_data(self.buffer),
            header: self.current_header,
            space: buffer_space(self.buffer),
        }
    }
}

impl StreamView {
    /// The payload that the header announces is there in full.
    pub open spec fn ready(self) -> bool {
        match self.header {
            Some(h) => self.data.len() >= h.length - 1,
            None => false,
        }
    }
}

impl Stream {
    /// A header that is read announces at least its own type tag.
    #[verifier::type_invariant]
    closed spec fn wf(&self) -> bool {
        self.current_header matches Some(h) ==> h.length >= 1
    }

    /// An empty stream.
    pub fn new() -> (r: Self)
        ensures
            r@ == (StreamView { data: Seq::empty(), header: None, space: STREAM_CAPACITY as nat }),
    {
        Stream { buffer: buffer_with_capacity(STREAM_CAPACITY), current_header: None }
    }

    /// Takes as many of the bytes of `buf` as the stream has room for, and
    /// says how many it took.
    pub fn write(&mut self, buf: &[u8]) -> (r: usize)
        ensures
            r == if buf@.len() <= old(self)@.space {
                buf@.len()
            } else {
                old(self)@.space
            },
            final(self)@.data == old(self)@.data + buf@.take(r as int),
            final(self)@.header == old(self)@.header,
            final(self)@.space + r >= old(self)@.space,
    {
        proof {
            use_type_invariant(&*self);
        }
        buffer_write(&mut self.buffer, buf)
    }

    /// Does nothing: the stream holds back nothing that it has taken.
    pub fn flush(&mut self)
        ensures
            final(self)@ == old(self)@,
    {
    }

    /// Whether the payload of the next packet is there in full. Where no
    /// header is read yet and five bytes are there, they are read as the
    /// header first; five bytes that are no header are left where they are
    /// and reported.
    pub fn check_packet(&mut self) -> (r: Result<bool, Error>)
        ensures
            match old(self)@.header {
                Some(h) => final(self)@ == old(self)@ && r == Ok::<bool, Error>(
                    old(self)@.ready(),
                ),
                None => if old(self)@.data.len() < 5 {
                    final(self)@ == old(self)@ && r == Ok::<bool, Error>(false)
                } else {
                    match spec_parse_header(old(self)@.data) {
                        Ok(h) => {
                            &&& final(self)@.header == Some(h)
                            &&& final(self)@.data == old(self)@.data.skip(5)
                            &&& final(self)@.space == old(self)@.space
                            &&& r == Ok::<bool, Error>(final(self)@.ready())
                        },
                        Err(_) => final(self)@ == old(self)@ && r == Err::<bool, Error>(
                            Error::PacketHeader,
                        ),
                    }
                },
            },
    {
        proof {
            use_type_invariant(&*self);
        }
        if self.current_header.is_none() {
            if buffer_available_data(&self.buffer) < 5 {
                return Ok(false);
            }
            let header = match PacketHeader::parse(buffer_data_slice(&self.buffer)) {
                Ok((_, header)) => header,
                Err(_) => {
                    return Err(Error::PacketHeader);
                },
            };
            self.current_header = Some(header);
            buffer_consume_noshift(&mut self.buffer, 5);
        }
        match self.current_header {
            Some(header) => Ok(
                buffer_available_data(&self.buffer) >= (header.length - 1) as usize,
            ),
            None => Ok(false),
        }
    }

    /// Reads the payload that the header announces and hands the packet on.
    /// Without a header, or with less than the payload there, nothing is
    /// read; else the bytes of the payload leave the stream, whether they
    /// are a payload of the announced type or not, and the next header is
    /// awaited.
    pub fn get_packet(&mut self) -> (r: Result<Packet, Error>)
        ensures
            match old(self)@.header {
                None => final(self)@ == old(self)@ && r is Err && r->Err_0 == Error::NoHeader,
                Some(h) => if !old(self)@.ready() {
                    final(self)@ == old(self)@ && r is Err && r->Err_0 == Error::NoHeader
                } else {
                    let raw = old(self)@.data.take(h.length - 1);
                    &&& final(self)@.header is None
                    &&& final(self)@.data == old(self)@.data.skip(h.length - 1)
                    &&& final(self)@.space >= old(self)@.space
                    &&& match r {
                        Ok(p) => Body::spec_parse(h.kind, raw) == Some(p@.payload.body)
                            && p@.payload.kind == h.kind && p.header == h,
                        Err(e) => e == Error::Packet && Body::spec_parse(h.kind, raw) is None,
                    }
                },
            },
    {
        proof {
            use_type_invariant(&*self);
        }
        let header = match self.current_header {
            Some(header) => header,
            None => {
                return Err(Error::NoHeader);
            },
        };
        let len = (header.length - 1) as usize;
        let data = buffer_data_slice(&self.buffer);
        if data.len() < len {
            return Err(Error::NoHeader);
        }
        let raw = vstd::slice::slice_subrange(data, 0, len);
        assert(raw@ =~= data@.take(len as int));
        let result = match Payload::parse(raw, header.kind) {
            Some(payload) => Ok(Packet { header, payload }),
            None => Err(Error::Packet),
        };
        buffer_consume(&mut self.buffer, len);
        self.current_header = None;
        result
    }
}

} // verus!
