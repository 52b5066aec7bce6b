//! Fixed-width big-endian integers, the atoms of every packet.

use vstd::prelude::*;

verus! {

/// The four bytes of `v`, most significant first.
#[verifier::opaque]
pub open spec fn spec_be_u32(v: u32) -> Seq<u8> {
    seq![
        (v / 0x100_0000) as u8,
        ((v / 0x1_0000) % 0x100) as u8,
        ((v / 0x100) % 0x100) as u8,
        (v % 0x100) as u8,
    ]
}

/// The eight bytes of `v`, most significant first.
#[verifier::opaque]
pub open spec fn spec_be_u64(v: u64) -> Seq<u8> {
    spec_be_u32((v / 0x1_0000_0000) as u32) + spec_be_u32((v % 0x1_0000_0000) as u32)
}

/// The integer that the first four bytes of `b` spell, most significant first.
#[verifier::opaque]
pub open spec fn spec_u32_from_be(b: Seq<u8>) -> u32
    recommends
        b.len() >= 4,
{
    (b[0] as int * 0x100_0000 + b[1] as int * 0x1_0000 + b[2] as int * 0x100 + b[3] as int) as u32
}

/// The integer that the first eight bytes of `b` spell, most significant first.
#[verifier::opaque]
pub open spec fn spec_u64_from_be(b: Seq<u8>) -> u64
    recommends
        b.len() >= 8,
{
    (spec_u32_from_be(b) as int * 0x1_0000_0000 + spec_u32_from_be(b.skip(4)) as int) as u64
}

/// Reading a 32-bit integer off the front of `s`: what is left, and the
/// integer; nothing when fewer than four bytes are there.
pub open spec fn spec_read_u32(s: Seq<u8>) -> Option<(Seq<u8>, u32)> {
    if s.len() >= 4 {
        Some((s.skip(4), spec_u32_from_be(s)))
    } else {
        None
    }
}

/// Reading a 64-bit integer off the front of `s`.
pub open spec fn spec_read_u64(s: Seq<u8>) -> Option<(Seq<u8>, u64)> {
    if s.len() >= 8 {
        Some((s.skip(8), spec_u64_from_be(s)))
    } else {
        None
    }
}

/// Joining three sequences gives the same whichever two are joined first.
pub proof fn lemma_concat_assoc<A>(a: Seq<A>, b: Seq<A>, c: Seq<A>)
    ensures
        (a + b) + c == a + (b + c),
{
    assert((a + b) + c =~= a + (b + c));
}

/// An encoded integer followed by anything reads back as that integer and
/// leaves exactly what followed.
pub proof fn lemma_read_u32_of_encoding(v: u32, rest: Seq<u8>)
    ensures
        spec_read_u32(spec_be_u32(v) + rest) == Some((rest, v)),
        spec_be_u32(v).len() == 4,
{
    reveal(spec_be_u32);
    reveal(spec_u32_from_be);
    let s = spec_be_u32(v) + rest;
    assert(s.skip(4) =~= rest);
    assert(s[0] == spec_be_u32(v)[0]);
    assert(s[1] == spec_be_u32(v)[1]);
    assert(s[2] == spec_be_u32(v)[2]);
    assert(s[3] == spec_be_u32(v)[3]);
}

/// Whatever reads as an integer starts with that integer's encoding.
pub proof fn lemma_read_u32_is_encoding(s: Seq<u8>)
    requires
        s.len() >= 4,
    ensures
        s == spec_be_u32(spec_u32_from_be(s)) + s.skip(4),
{
    reveal(spec_be_u32);
    reveal(spec_u32_from_be);
    let v = spec_u32_from_be(s);
    lemma_bytes_of_sum(s[0], s[1], s[2], s[3]);
    let e = spec_be_u32(v);
    assert(e[0] == s[0] && e[1] == s[1] && e[2] == s[2] && e[3] == s[3]);
    assert(s =~= e + s.skip(4));
}

/// The integer spelled by four bytes gives those four bytes back.
proof fn lemma_bytes_of_sum(b0: u8, b1: u8, b2: u8, b3: u8)
    ensures
        ({
            let v = b0 as int * 0x100_0000 + b1 as int * 0x1_0000 + b2 as int * 0x100 + b3 as int;
            &&& 0 <= v <= u32::MAX
            &&& v / 0x100_0000 == b0
            &&& (v / 0x1_0000) % 0x100 == b1
            &&& (v / 0x100) % 0x100 == b2
            &&& v % 0x100 == b3
        }),
{
    let v = b0 as int * 0x100_0000 + b1 as int * 0x1_0000 + b2 as int * 0x100 + b3 as int;
    let w = b0 as int * 0x1_0000 + b1 as int * 0x100 + b2 as int;
    let x = b0 as int * 0x100 + b1 as int;
    assert(v == w * 0x100 + b3);
    assert(w == x * 0x100 + b2);
    assert(v / 0x100 == w && v % 0x100 == b3);
    assert(w / 0x100 == x && w % 0x100 == b2);
    assert(x / 0x100 == b0 && x % 0x100 == b1);
    assert(v / 0x1_0000 == x) by {
        assert(v == x * 0x1_0000 + (b2 as int * 0x100 + b3));
    }
    assert(v / 0x100_0000 == b0) by {
        assert(v == b0 as int * 0x100_0000 + (b1 as int * 0x1_0000 + b2 as int * 0x100 + b3));
    }
}

/// The 64-bit counterpart of [`lemma_read_u32_of_encoding`].
pub proof fn lemma_read_u64_of_encoding(v: u64, rest: Seq<u8>)
    ensures
        spec_read_u64(spec_be_u64(v) + rest) == Some((rest, v)),
        spec_be_u64(v).len() == 8,
{
    reveal(spec_be_u64);
    reveal(spec_u64_from_be);
    let hi = (v / 0x1_0000_0000) as u32;
    let lo = (v % 0x1_0000_0000) as u32;
    let s = spec_be_u64(v) + rest;
    lemma_read_u32_of_encoding(hi, spec_be_u32(lo) + rest);
    lemma_read_u32_of_encoding(lo, rest);
    lemma_concat_assoc(spec_be_u32(hi), spec_be_u32(lo), rest);
    assert(s.skip(4) == spec_be_u32(lo) + rest);
    assert(s.skip(4).skip(4) =~= s.skip(8));
}

/// The 64-bit counterpart of [`lemma_read_u32_is_encoding`].
pub proof fn lemma_read_u64_is_encoding(s: Seq<u8>)
    requires
        s.len() >= 8,
    ensures
        s == spec_be_u64(spec_u64_from_be(s)) + s.skip(8),
{
    reveal(spec_be_u64);
    reveal(spec_u64_from_be);
    let hi = spec_u32_from_be(s);
    let lo = spec_u32_from_be(s.skip(4));
    lemma_read_u32_is_encoding(s);
    lemma_read_u32_is_encoding(s.skip(4));
    assert(s.skip(4).skip(4) =~= s.skip(8));
    lemma_concat_assoc(spec_be_u32(hi), spec_be_u32(lo), s.skip(8));
    let v = spec_u64_from_be(s);
    assert(v == hi as int * 0x1_0000_0000 + lo as int);
    assert((v / 0x1_0000_0000) as u32 == hi);
    assert((v % 0x1_0000_0000) as u32 == lo);
}

/// Reads a big-endian 32-bit integer off the front of `i`.
pub fn be_u32(i: &[u8]) -> (r: Option<(&[u8], u32)>)
    ensures
        match r {
            Some((rest, v)) => spec_read_u32(i@) == Some((rest@, v)),
            None => spec_read_u32(i@) is None,
        },
{
    if i.len() < 4 {
        return None;
    }
    proof {
        reveal(spec_u32_from_be);
    }
    let v: u32 = (i[0] as u32) * 0x100_0000 + (i[1] as u32) * 0x1_0000 + (i[2] as u32) * 0x100 + (
    i[3] as u32);
    let rest = vstd::slice::slice_subrange(i, 4, i.len());
    assert(rest@ =~= i@.skip(4));
    Some((rest, v))
}

/// Reads a big-endian 64-bit integer off the front of `i`.
pub fn be_u64(i: &[u8]) -> (r: Option<(&[u8], u64)>)
    ensures
        match r {
            Some((rest, v)) => spec_read_u64(i@) == Some((rest@, v)),
            None => spec_read_u64(i@) is None,
        },
{
    if i.len() < 8 {
        return None;
    }
    let (mid, hi) = match be_u32(i) {
        Some(p) => p,
        None => { return None; },
    };
    let (rest, lo) = match be_u32(mid) {
        Some(p) => p,
        None => { return None; },
    };
    assert(rest@ =~= i@.skip(8));
    proof {
        reveal(spec_u64_from_be);
    }
    let v: u64 = (hi as u64) * 0x1_0000_0000 + (lo as u64);
    Some((rest, v))
}

/// Appends the big-endian encoding of `v` to `out`.
pub fn put_u32(out: &mut Vec<u8>, v: u32)
    ensures
        final(out)@ == old(out)@ + spec_be_u32(v),
{
    out.push((v / 0x100_0000) as u8);
    out.push(((v / 0x1_0000) % 0x100) as u8);
    out.push(((v / 0x100) % 0x100) as u8);
    out.push((v % 0x100) as u8);
    proof {
        reveal(spec_be_u32);
    }
    assert(out@ =~= old(out)@ + spec_be_u32(v));
}

/// Appends the big-endian encoding of `v` to `out`.
pub fn put_u64(out: &mut Vec<u8>, v: u64)
    ensures
        final(out)@ == old(out)@ + spec_be_u64(v),
{
    put_u32(out, (v / 0x1_0000_0000) as u32);
    put_u32(out, (v % 0x1_0000_0000) as u32);
    proof {
        reveal(spec_be_u64);
        lemma_concat_assoc(
            old(out)@,
            spec_be_u32((v / 0x1_0000_0000) as u32),
            spec_be_u32((v % 0x1_0000_0000) as u32),
        );
    }
}

} // verus!
