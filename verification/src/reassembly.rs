//! Packets out of transport reads, which cut the stream anywhere.

use crate::error::Error;
use crate::stream::packet::body::Body;
use crate::stream::packet::{
    lemma_need_more_prefix, lemma_parse_prefix, spec_frame, spec_parse_header, Packet,
    PacketHeader, PacketRaw, PacketView, ParseError, PayloadView,
};
use vstd::prelude::*;

verus! {

/// What is cut off the stream for one header: the packet, or the news that
/// its payload could not be read, with the request to answer.
#[derive(Clone, Debug, PartialEq, Eq)]
pub enum Frame {
    Packet(Packet),
    Malformed { id: u32 },
}

/// A [`Frame`] as contracts see it.
pub enum FrameView {
    Packet(PacketView),
    Malformed { id: u32 },
}

impl View for Frame {
    type V = FrameView;

    open spec fn view(&self) -> FrameView {
        match self {
            Frame::Packet(p) => FrameView::Packet(p@),
            Frame::Malformed { id } => FrameView::Malformed { id: *id },
        }
    }
}

/// The frames of a list as contracts see them.
pub open spec fn spec_frame_views(frames: Seq<Frame>) -> Seq<FrameView> {
    Seq::new(frames.len(), |i: int| frames[i]@)
}

/// What a stream yields when it is read in one go.
pub struct Drained {
    /// The frames, in the order of their headers.
    pub frames: Seq<FrameView>,
    /// The bytes behind the last frame.
    pub rest: Seq<u8>,
    /// Whether `rest` starts with five bytes that are no header, so that
    /// nothing behind them can be told apart any more.
    pub fatal: bool,
}

/// The frame that a header and the bytes of its payload make.
pub open spec fn spec_frame_of(header: PacketHeader, raw: Seq<u8>) -> FrameView {
    match Body::spec_parse(header.kind, raw) {
        Some(body) => FrameView::Packet(
            PacketView { header, payload: PayloadView { kind: header.kind, body } },
        ),
        None => FrameView::Malformed { id: PacketRaw::spec_request_id(header.kind, raw) },
    }
}

/// Reading the stream `s` in one go: frame after frame, until the bytes end
/// inside a packet or five bytes are no header.
pub open spec fn spec_drain(s: Seq<u8>) -> Drained
    decreases s.len(),
{
    match spec_frame(s) {
        Err(ParseError::NeedMore) => Drained { frames: Seq::empty(), rest: s, fatal: false },
        Err(_) => Drained { frames: Seq::empty(), rest: s, fatal: true },
        Ok((header, raw)) => {
            let tail = spec_drain(s.skip(4 + header.length));
            Drained {
                frames: seq![spec_frame_of(header, raw)] + tail.frames,
                rest: tail.rest,
                fatal: tail.fatal,
            }
        },
    }
}

/// Reading a stream that arrives in two parts: read the first part, then read
/// what it left over followed by the second part.
pub open spec fn spec_drain_in_two(a: Seq<u8>, b: Seq<u8>) -> Drained {
    let first = spec_drain(a);
    let second = spec_drain(first.rest + b);
    Drained { frames: first.frames + second.frames, rest: second.rest, fatal: second.fatal }
}

/// The bytes of the chunks, one chunk after the other.
pub open spec fn spec_concat(chunks: Seq<Seq<u8>>) -> Seq<u8>
    decreases chunks.len(),
{
    if chunks.len() == 0 {
        Seq::empty()
    } else {
        spec_concat(chunks.drop_last()) + chunks.last()
    }
}

/// Reading a stream chunk by chunk, starting with the bytes `pending` held
/// back: each chunk is appended to what the chunk before left over, and what
/// can be read is read.
pub open spec fn spec_feed_all(pending: Seq<u8>, chunks: Seq<Seq<u8>>) -> Drained
    decreases chunks.len(),
{
    if chunks.len() == 0 {
        Drained { frames: Seq::empty(), rest: pending, fatal: false }
    } else {
        let before = spec_feed_all(pending, chunks.drop_last());
        let now = spec_drain(before.rest + chunks.last());
        Drained { frames: before.frames + now.frames, rest: now.rest, fatal: now.fatal }
    }
}

/// What is left over of a stream reads as nothing more.
pub proof fn lemma_drain_rest(s: Seq<u8>)
    ensures
        spec_drain(spec_drain(s).rest) == (Drained {
            frames: Seq::empty(),
            rest: spec_drain(s).rest,
            fatal: spec_drain(s).fatal,
        }),
        spec_drain(s).rest.len() <= s.len(),
    decreases s.len(),
{
    match spec_frame(s) {
        Ok((header, raw)) => {
            lemma_drain_rest(s.skip(4 + header.length));
        },
        Err(_) => {},
    }
}

/// A stream read in two parts yields what it yields read in one go.
pub proof fn lemma_drain_append(a: Seq<u8>, b: Seq<u8>)
    ensures
        spec_drain(a + b) == spec_drain_in_two(a, b),
    decreases a.len(),
{
    let two = spec_drain_in_two(a, b);
    match spec_frame(a) {
        Ok((header, raw)) => {
            let n = 4 + header.length;
            lemma_parse_prefix(a, b);
            assert((a + b).skip(n) =~= a.skip(n) + b);
            lemma_drain_append(a.skip(n), b);
            let first = spec_drain(a.skip(n));
            let second = spec_drain(first.rest + b);
            assert(seq![spec_frame_of(header, raw)] + (first.frames + second.frames) =~= (
            seq![spec_frame_of(header, raw)] + first.frames) + second.frames);
        },
        Err(_) => {
            assert(Seq::<FrameView>::empty() + spec_drain(a + b).frames =~= spec_drain(
                a + b,
            ).frames);
        },
    }
}

/// However a stream is cut into chunks, reading it chunk by chunk yields the
/// frames, in order, and the leftover that reading it in one go yields.
pub proof fn lemma_reassembly(chunks: Seq<Seq<u8>>)
    ensures
        spec_feed_all(Seq::empty(), chunks).frames == spec_drain(spec_concat(chunks)).frames,
        spec_feed_all(Seq::empty(), chunks).rest == spec_drain(spec_concat(chunks)).rest,
        chunks.len() > 0 ==> spec_feed_all(Seq::empty(), chunks).fatal == spec_drain(
            spec_concat(chunks),
        ).fatal,
    decreases chunks.len(),
{
    if chunks.len() == 0 {
        assert(spec_concat(chunks) =~= Seq::<u8>::empty());
    } else {
        let head = chunks.drop_last();
        lemma_reassembly(head);
        lemma_drain_append(spec_concat(head), chunks.last());
    }
}

/// The length that is recorded for what a stream left over: the length that
/// its header announces, once the header is there.
pub open spec fn spec_awaited(d: Drained) -> Option<u32> {
    if d.fatal {
        None
    } else {
        match spec_parse_header(d.rest) {
            Ok(h) => Some(h.length),
            Err(_) => None,
        }
    }
}

/// The reassembler of one session: the bytes that arrived and belong to no
/// complete packet yet and, once their header is read, the length that it
/// announces.
#[derive(Debug)]
pub struct PartialPacket {
    target_len: Option<u32>,
    buffer: Vec<u8>,
}

impl View for PartialPacket {
    type V = Seq<u8>;

    closed spec fn view(&self) -> Seq<u8> {
        self.buffer@
    }
}

impl Clone for PartialPacket {
    fn clone(&self) -> (r: Self)
        ensures
            r@ == self@,
            r.spec_target_len() == self.spec_target_len(),
    {
        proof {
            use_type_invariant(self);
        }
        PartialPacket { target_len: self.target_len, buffer: self.buffer.clone() }
    }
}

impl PartialPacket {
    /// The length that the header of the held bytes announces, where it has
    /// been read.
    pub closed spec fn spec_target_len(&self) -> Option<u32> {
        self.target_len
    }

    /// A length is recorded only for bytes that start with a header
    /// announcing it and that end inside its packet.
    #[verifier::type_invariant]
    closed spec fn wf(&self) -> bool {
        match self.target_len {
            Some(length) => {
                &&& spec_parse_header(self.buffer@) matches Ok(h) && h.length == length
                &&& self.buffer@.len() < 4 + length
            },
            None => true,
        }
    }

    /// A reassembler that holds nothing.
    pub fn new() -> (r: Self)
        ensures
            r@ == Seq::<u8>::empty(),
            r.spec_target_len() is None,
    {
        PartialPacket { target_len: None, buffer: Vec::new() }
    }

    /// The length that the header of the held bytes announces, where it has
    /// been read.
    pub fn target_len(&self) -> (r: Option<u32>)
        ensures
            r == self.spec_target_len(),
    {
        self.target_len
    }

    /// The number of bytes held.
    pub fn buffered(&self) -> (r: usize)
        ensures
            r == self@.len(),
    {
        self.buffer.len()
    }
}

/// Takes the bytes of one transport read and hands on every frame that is
/// complete with them, in order. The bytes behind the last frame are held for
/// the next read. Five bytes that are no header end the session: where they
/// stand in front, the call fails; where frames stand before them, the frames
/// are handed on, the bytes are held, and the next call fails.
pub fn parse_packet(data: &[u8], partial_packet: &mut PartialPacket) -> (r: Result<
    Vec<Frame>,
    Error,
>)
    ensures
        final(partial_packet)@ == spec_drain(old(partial_packet)@ + data@).rest,
        final(partial_packet).spec_target_len() == spec_awaited(
            spec_drain(old(partial_packet)@ + data@),
        ),
        match r {
            Ok(frames) => {
                let all = spec_drain(old(partial_packet)@ + data@);
                &&& spec_frame_views(frames@) == all.frames
                &&& all.fatal ==> frames@.len() > 0
            },
            Err(e) => {
                let all = spec_drain(old(partial_packet)@ + data@);
                &&& e == Error::PacketHeader
                &&& all.fatal
                &&& all.frames.len() == 0
            },
        },
{
    proof {
        use_type_invariant(&*partial_packet);
    }
    let ghost held = partial_packet@;
    let ghost full = held + data@;
    let awaited = partial_packet.target_len;
    partial_packet.target_len = None;
    let mut buffer: Vec<u8> = Vec::new();
    std::mem::swap(&mut partial_packet.buffer, &mut buffer);
    buffer.extend_from_slice(data);
    assert(buffer@ == full);
    let mut frames: Vec<Frame> = Vec::new();
    if let Some(length) = awaited {
        if buffer.len() - 4 < length as usize {
            proof {
                assert(spec_parse_header(held) matches Ok(h) && h.length == length);
                assert(full.take(4) =~= held.take(4));
                crate::stream::packet::lemma_u32_of_prefix(held, full);
                assert(full[4] == held[4]);
                assert(spec_parse_header(full) == spec_parse_header(held));
                assert(spec_frame_views(frames@) =~= Seq::<FrameView>::empty());
            }
            partial_packet.buffer = buffer;
            partial_packet.target_len = awaited;
            return Ok(frames);
        }
    }
    let mut pos: usize = 0;
    let mut fatal = false;
    assert(full.skip(0) =~= full);
    assert(spec_frame_views(frames@) + spec_drain(full).frames =~= spec_drain(full).frames);
    loop
        invariant_except_break
            !fatal,
        invariant
            buffer@ == full,
            pos <= full.len(),
            spec_drain(full).frames == spec_frame_views(frames@) + spec_drain(
                full.skip(pos as int),
            ).frames,
            spec_drain(full).rest == spec_drain(full.skip(pos as int)).rest,
            spec_drain(full).fatal == spec_drain(full.skip(pos as int)).fatal,
        ensures
            spec_drain(full.skip(pos as int)).frames.len() == 0,
            spec_drain(full.skip(pos as int)).rest == full.skip(pos as int),
            fatal == spec_drain(full).fatal,
        decreases full.len() - pos,
    {
        let window = vstd::slice::slice_subrange(buffer.as_slice(), pos, buffer.len());
        assert(window@ =~= full.skip(pos as int));
        match PacketRaw::parse(window) {
            Err(ParseError::NeedMore) => {
                break ;
            },
            Err(_) => {
                fatal = true;
                break ;
            },
            Ok((raw, consumed)) => {
                let ghost before = spec_frame_views(frames@);
                let ghost header = PacketHeader { length: raw.length, kind: raw.kind };
                let frame = match raw.decode() {
                    Some(p) => Frame::Packet(p),
                    None => Frame::Malformed { id: raw.request_id() },
                };
                assert(frame@ == spec_frame_of(header, raw.raw_payload@));
                frames.push(frame);
                proof {
                    let tail = spec_drain(full.skip(pos as int).skip(consumed as int));
                    assert(full.skip(pos as int).skip(consumed as int) =~= full.skip(
                        pos + consumed,
                    ));
                    assert(spec_frame_views(frames@) =~= before.push(frame@));
                    assert(before + (seq![frame@] + tail.frames) =~= before.push(frame@)
                        + tail.frames);
                }
                pos = pos + consumed;
            },
        }
    }
    let rest = buffer.split_off(pos);
    assert(rest@ =~= full.skip(pos as int));
    partial_packet.buffer = rest;
    assert(spec_frame_views(frames@) + Seq::<FrameView>::empty() =~= spec_frame_views(frames@));
    if fatal {
        if frames.len() == 0 {
            return Err(Error::PacketHeader);
        }
        return Ok(frames);
    }
    let awaited = match PacketHeader::parse(partial_packet.buffer.as_slice()) {
        Ok((_, header)) => Some(header.length),
        Err(_) => None,
    };
    partial_packet.target_len = awaited;
    Ok(frames)
}

} // verus!
