//! Strings, byte strings and handles as they travel inside a payload.

use crate::number::{
    be_u32, lemma_read_u32_is_encoding, lemma_read_u32_of_encoding, put_u32, spec_be_u32,
    spec_read_u32,
};
use vstd::prelude::*;
use vstd::utf8::*;

verus! {

/// A byte string on the wire: its length as a 32-bit integer, then the bytes.
pub open spec fn spec_byte_string(b: Seq<u8>) -> Seq<u8> {
    spec_be_u32(b.len() as u32) + b
}

/// Reading a byte string off the front of `s`: what is left, and the bytes.
pub open spec fn spec_read_byte_string(s: Seq<u8>) -> Option<(Seq<u8>, Seq<u8>)> {
    match spec_read_u32(s) {
        Some((rest, n)) => if rest.len() >= n {
            Some((rest.skip(n as int), rest.take(n as int)))
        } else {
            None
        },
        None => None,
    }
}

/// A string on the wire: the byte string of its UTF-8 encoding.
pub open spec fn spec_string(text: Seq<char>) -> Seq<u8> {
    spec_byte_string(encode_utf8(text))
}

/// Reading a string off the front of `s`; bytes that are not UTF-8 are no string.
pub open spec fn spec_read_string(s: Seq<u8>) -> Option<(Seq<u8>, Seq<char>)> {
    match spec_read_byte_string(s) {
        Some((rest, b)) => if valid_utf8(b) {
            Some((rest, decode_utf8(b)))
        } else {
            None
        },
        None => None,
    }
}

/// The lower-case hexadecimal digit for `n < 16`.
pub open spec fn spec_hex_digit(n: u128) -> char {
    if n < 10 {
        (0x30 + n) as char
    } else {
        (0x57 + n) as char
    }
}

/// The `k`-th of the 32 hexadecimal digits of `h`, counted from the most
/// significant.
pub open spec fn spec_uuid_digit(h: u128, k: int) -> u128 {
    (h >> (((31 - k) * 4) as u128)) & 0xf
}

/// Which hexadecimal digit stands at position `i` of the dashed text.
pub open spec fn spec_digit_at(i: int) -> int {
    if i < 8 {
        i
    } else if i < 13 {
        i - 1
    } else if i < 18 {
        i - 2
    } else if i < 23 {
        i - 3
    } else {
        i - 4
    }
}

/// The canonical text of the 128-bit identifier `h`: 32 lower-case
/// hexadecimal digits in groups of 8, 4, 4, 4 and 12, with a dash between groups.
pub open spec fn spec_hyphenated(h: u128) -> Seq<char> {
    Seq::new(
        36,
        |i: int|
            if i == 8 || i == 13 || i == 18 || i == 23 {
                '-'
            } else {
                spec_hex_digit(spec_uuid_digit(h, spec_digit_at(i)))
            },
    )
}

/// Whether `text` is the canonical text of some identifier.
pub open spec fn spec_is_hyphenated(text: Seq<char>) -> bool {
    exists|h: u128| #[trigger] spec_hyphenated(h) == text
}

/// The identifier whose canonical text is `text`.
pub open spec fn spec_uuid_of(text: Seq<char>) -> u128
    recommends
        spec_is_hyphenated(text),
{
    choose|h: u128| #[trigger] spec_hyphenated(h) == text
}

/// A handle on the wire: the string of its canonical text, 40 bytes in all.
pub open spec fn spec_uuid(h: u128) -> Seq<u8> {
    spec_string(spec_hyphenated(h))
}

/// Reading a handle off the front of `s`; a string that is not the canonical
/// text of an identifier is no handle.
pub open spec fn spec_read_uuid(s: Seq<u8>) -> Option<(Seq<u8>, u128)> {
    match spec_read_string(s) {
        Some((rest, text)) => if spec_is_hyphenated(text) {
            Some((rest, spec_uuid_of(text)))
        } else {
            None
        },
        None => None,
    }
}

proof fn lemma_digit_bound(x: u128)
    by (bit_vector)
    ensures
        x & 0xf < 16,
{
}

proof fn lemma_digits_determine(a: u128, b: u128)
    by (bit_vector)
    requires
            (a >> 124u128) & 0xf == (b >> 124u128) & 0xf,
            (a >> 120u128) & 0xf == (b >> 120u128) & 0xf,
            (a >> 116u128) & 0xf == (b >> 116u128) & 0xf,
            (a >> 112u128) & 0xf == (b >> 112u128) & 0xf,
            (a >> 108u128) & 0xf == (b >> 108u128) & 0xf,
            (a >> 104u128) & 0xf == (b >> 104u128) & 0xf,
            (a >> 100u128) & 0xf == (b >> 100u128) & 0xf,
            (a >> 96u128) & 0xf == (b >> 96u128) & 0xf,
            (a >> 92u128) & 0xf == (b >> 92u128) & 0xf,
            (a >> 88u128) & 0xf == (b >> 88u128) & 0xf,
            (a >> 84u128) & 0xf == (b >> 84u128) & 0xf,
            (a >> 80u128) & 0xf == (b >> 80u128) & 0xf,
            (a >> 76u128) & 0xf == (b >> 76u128) & 0xf,
            (a >> 72u128) & 0xf == (b >> 72u128) & 0xf,
            (a >> 68u128) & 0xf == (b >> 68u128) & 0xf,
            (a >> 64u128) & 0xf == (b >> 64u128) & 0xf,
            (a >> 60u128) & 0xf == (b >> 60u128) & 0xf,
            (a >> 56u128) & 0xf == (b >> 56u128) & 0xf,
            (a >> 52u128) & 0xf == (b >> 52u128) & 0xf,
            (a >> 48u128) & 0xf == (b >> 48u128) & 0xf,
            (a >> 44u128) & 0xf == (b >> 44u128) & 0xf,
            (a >> 40u128) & 0xf == (b >> 40u128) & 0xf,
            (a >> 36u128) & 0xf == (b >> 36u128) & 0xf,
            (a >> 32u128) & 0xf == (b >> 32u128) & 0xf,
            (a >> 28u128) & 0xf == (b >> 28u128) & 0xf,
            (a >> 24u128) & 0xf == (b >> 24u128) & 0xf,
            (a >> 20u128) & 0xf == (b >> 20u128) & 0xf,
            (a >> 16u128) & 0xf == (b >> 16u128) & 0xf,
            (a >> 12u128) & 0xf == (b >> 12u128) & 0xf,
            (a >> 8u128) & 0xf == (b >> 8u128) & 0xf,
            (a >> 4u128) & 0xf == (b >> 4u128) & 0xf,
            (a >> 0u128) & 0xf == (b >> 0u128) & 0xf,
    ensures
        a == b,
{
}

/// Two identifiers with the same canonical text are the same identifier.
pub proof fn lemma_hyphenated_injective(a: u128, b: u128)
    requires
        spec_hyphenated(a) == spec_hyphenated(b),
    ensures
        a == b,
{
    assert forall|k: int| 0 <= k < 32 implies spec_uuid_digit(a, k) == spec_uuid_digit(b, k) by {
        let i = if k < 8 {
            k
        } else if k < 12 {
            k + 1
        } else if k < 16 {
            k + 2
        } else if k < 20 {
            k + 3
        } else {
            k + 4
        };
        assert(spec_digit_at(i) == k);
        assert(spec_hyphenated(a)[i] == spec_hyphenated(b)[i]);
        lemma_digit_bound(a >> (((31 - k) * 4) as u128));
        lemma_digit_bound(b >> (((31 - k) * 4) as u128));
        let x = spec_uuid_digit(a, k);
        let y = spec_uuid_digit(b, k);
        assert(spec_hex_digit(x) as int == if x < 10 { 0x30 + x } else { 0x57 + x });
        assert(spec_hex_digit(y) as int == if y < 10 { 0x30 + y } else { 0x57 + y });
        assert(spec_hyphenated(a)[i] == spec_hex_digit(x));
        assert(spec_hyphenated(b)[i] == spec_hex_digit(y));
        assert(spec_hex_digit(x) as int == spec_hex_digit(y) as int);
        assert(x == y);
    }
    assert(spec_uuid_digit(a, 0) == spec_uuid_digit(b, 0));
    assert(spec_uuid_digit(a, 1) == spec_uuid_digit(b, 1));
    assert(spec_uuid_digit(a, 2) == spec_uuid_digit(b, 2));
    assert(spec_uuid_digit(a, 3) == spec_uuid_digit(b, 3));
    assert(spec_uuid_digit(a, 4) == spec_uuid_digit(b, 4));
    assert(spec_uuid_digit(a, 5) == spec_uuid_digit(b, 5));
    assert(spec_uuid_digit(a, 6) == spec_uuid_digit(b, 6));
    assert(spec_uuid_digit(a, 7) == spec_uuid_digit(b, 7));
    assert(spec_uuid_digit(a, 8) == spec_uuid_digit(b, 8));
    assert(spec_uuid_digit(a, 9) == spec_uuid_digit(b, 9));
    assert(spec_uuid_digit(a, 10) == spec_uuid_digit(b, 10));
    assert(spec_uuid_digit(a, 11) == spec_uuid_digit(b, 11));
    assert(spec_uuid_digit(a, 12) == spec_uuid_digit(b, 12));
    assert(spec_uuid_digit(a, 13) == spec_uuid_digit(b, 13));
    assert(spec_uuid_digit(a, 14) == spec_uuid_digit(b, 14));
    assert(spec_uuid_digit(a, 15) == spec_uuid_digit(b, 15));
    assert(spec_uuid_digit(a, 16) == spec_uuid_digit(b, 16));
    assert(spec_uuid_digit(a, 17) == spec_uuid_digit(b, 17));
    assert(spec_uuid_digit(a, 18) == spec_uuid_digit(b, 18));
    assert(spec_uuid_digit(a, 19) == spec_uuid_digit(b, 19));
    assert(spec_uuid_digit(a, 20) == spec_uuid_digit(b, 20));
    assert(spec_uuid_digit(a, 21) == spec_uuid_digit(b, 21));
    assert(spec_uuid_digit(a, 22) == spec_uuid_digit(b, 22));
    assert(spec_uuid_digit(a, 23) == spec_uuid_digit(b, 23));
    assert(spec_uuid_digit(a, 24) == spec_uuid_digit(b, 24));
    assert(spec_uuid_digit(a, 25) == spec_uuid_digit(b, 25));
    assert(spec_uuid_digit(a, 26) == spec_uuid_digit(b, 26));
    assert(spec_uuid_digit(a, 27) == spec_uuid_digit(b, 27));
    assert(spec_uuid_digit(a, 28) == spec_uuid_digit(b, 28));
    assert(spec_uuid_digit(a, 29) == spec_uuid_digit(b, 29));
    assert(spec_uuid_digit(a, 30) == spec_uuid_digit(b, 30));
    assert(spec_uuid_digit(a, 31) == spec_uuid_digit(b, 31));
    lemma_digits_determine(a, b);
}

/// The canonical text is 36 ASCII characters, so 36 bytes of UTF-8.
pub proof fn lemma_hyphenated_is_ascii(h: u128)
    ensures
        spec_hyphenated(h).len() == 36,
        is_ascii_chars(spec_hyphenated(h)),
        encode_utf8(spec_hyphenated(h)).len() == 36,
        spec_uuid(h).len() == 40,
{
    let text = spec_hyphenated(h);
    assert forall|i: int| 0 <= i < text.len() implies '\0' <= #[trigger] text[i] <= '\u{7f}' by {
        lemma_digit_bound(h >> (((31 - spec_digit_at(i)) * 4) as u128));
    }
    is_ascii_chars_encode_utf8(text);
    lemma_read_u32_of_encoding(36, Seq::empty());
}

/// The canonical text of `h` is the canonical text of `h` and of nothing else.
pub proof fn lemma_uuid_of_hyphenated(h: u128)
    ensures
        spec_is_hyphenated(spec_hyphenated(h)),
        spec_uuid_of(spec_hyphenated(h)) == h,
{
    lemma_hyphenated_injective(spec_uuid_of(spec_hyphenated(h)), h);
}

/// No character takes more than four bytes of UTF-8.
pub proof fn lemma_encode_len_bound(text: Seq<char>)
    ensures
        encode_utf8(text).len() <= 4 * text.len(),
    decreases text.len(),
{
    if text.len() > 0 {
        lemma_encode_len_bound(text.drop_first());
    }
}

/// A byte string on the wire is four bytes longer than its content.
pub proof fn lemma_byte_string_len(b: Seq<u8>)
    ensures
        spec_byte_string(b).len() == 4 + b.len(),
        spec_string(decode_utf8(b)).len() == 4 + encode_utf8(decode_utf8(b)).len(),
{
    lemma_read_u32_of_encoding(b.len() as u32, Seq::empty());
    lemma_read_u32_of_encoding(encode_utf8(decode_utf8(b)).len() as u32, Seq::empty());
}

/// A string on the wire is four bytes longer than its UTF-8 encoding.
pub proof fn lemma_string_len(text: Seq<char>)
    ensures
        spec_string(text).len() == 4 + encode_utf8(text).len(),
{
    lemma_read_u32_of_encoding(encode_utf8(text).len() as u32, Seq::empty());
}

/// An encoded byte string followed by anything reads back as those bytes.
pub proof fn lemma_read_byte_string_of_encoding(b: Seq<u8>, rest: Seq<u8>)
    requires
        b.len() <= u32::MAX,
    ensures
        spec_read_byte_string(spec_byte_string(b) + rest) == Some((rest, b)),
        spec_byte_string(b).len() == 4 + b.len(),
{
    lemma_read_u32_of_encoding(b.len() as u32, b + rest);
    assert(spec_byte_string(b) + rest =~= spec_be_u32(b.len() as u32) + (b + rest));
    assert((b + rest).skip(b.len() as int) =~= rest);
    assert((b + rest).take(b.len() as int) =~= b);
}

/// Whatever reads as a byte string starts with that byte string's encoding.
pub proof fn lemma_read_byte_string_is_encoding(s: Seq<u8>)
    requires
        spec_read_byte_string(s) is Some,
    ensures
        ({
            let (rest, b) = spec_read_byte_string(s)->0;
            s == spec_byte_string(b) + rest && b.len() <= u32::MAX
        }),
{
    let (rest, b) = spec_read_byte_string(s)->0;
    lemma_read_u32_is_encoding(s);
    assert(s.skip(4) =~= b + rest);
    assert(s =~= spec_byte_string(b) + rest);
}

/// An encoded string followed by anything reads back as that string.
pub proof fn lemma_read_string_of_encoding(text: Seq<char>, rest: Seq<u8>)
    requires
        encode_utf8(text).len() <= u32::MAX,
    ensures
        spec_read_string(spec_string(text) + rest) == Some((rest, text)),
        spec_string(text).len() == 4 + encode_utf8(text).len(),
{
    lemma_read_byte_string_of_encoding(encode_utf8(text), rest);
    encode_utf8_valid_utf8(text);
    encode_utf8_decode_utf8(text);
}

/// Whatever reads as a string starts with that string's encoding.
pub proof fn lemma_read_string_is_encoding(s: Seq<u8>)
    requires
        spec_read_string(s) is Some,
    ensures
        ({
            let (rest, text) = spec_read_string(s)->0;
            s == spec_string(text) + rest && encode_utf8(text).len() <= u32::MAX
        }),
{
    lemma_read_byte_string_is_encoding(s);
    let (rest, b) = spec_read_byte_string(s)->0;
    decode_utf8_encode_utf8(b);
}

/// An encoded handle followed by anything reads back as that handle.
pub proof fn lemma_read_uuid_of_encoding(h: u128, rest: Seq<u8>)
    ensures
        spec_read_uuid(spec_uuid(h) + rest) == Some((rest, h)),
        spec_uuid(h).len() == 40,
{
    lemma_hyphenated_is_ascii(h);
    lemma_read_string_of_encoding(spec_hyphenated(h), rest);
    lemma_uuid_of_hyphenated(h);
}

/// Whatever reads as a handle starts with that handle's encoding.
pub proof fn lemma_read_uuid_is_encoding(s: Seq<u8>)
    requires
        spec_read_uuid(s) is Some,
    ensures
        ({
            let (rest, h) = spec_read_uuid(s)->0;
            s == spec_uuid(h) + rest
        }),
{
    lemma_read_string_is_encoding(s);
}

/// What `uuid::Uuid::parse_str` makes of a text: the identifier as a 128-bit
/// integer, or nothing where it rejects the text.
pub uninterp spec fn uuid_parse_str_result(text: Seq<char>) -> Option<u128>;

/// `uuid::Uuid::parse_str`, with the identifier taken as a 128-bit integer.
/// The crate documents that it parses every format that the crate itself
/// writes; the contract claims that of the canonical dashed text, and beyond
/// that only that the outcome is a function of the text.
#[verifier::external_body]
fn uuid_parse_str(text: &str) -> (r: Option<u128>)
    ensures
        r == uuid_parse_str_result(text@),
        forall|h: u128| text@ == #[trigger] spec_hyphenated(h) ==> r == Some(h),
{
    match uuid::Uuid::parse_str(text) {
        Ok(id) => Some(id.as_u128()),
        Err(_) => None,
    }
}

/// `uuid::Uuid`'s `Display`, on the identifier made of the 128-bit integer
/// `h`: the lower-case dashed text, most significant digit first.
#[verifier::external_body]
fn uuid_to_string(h: u128) -> (r: String)
    ensures
        r@ == spec_hyphenated(h),
{
    uuid::Uuid::from_u128(h).to_string()
}

/// `uuid::Uuid::new_v4`: a random identifier, as a 128-bit integer. Nothing is
/// claimed of the value.
#[verifier::external_body]
pub(crate) fn uuid_new_v4() -> (r: u128) {
    uuid::Uuid::new_v4().as_u128()
}

/// `String::from_utf8`: the text that `bytes` encode, where they are valid
/// UTF-8, and nothing where they are not.
#[verifier::external_body]
fn string_from_utf8(bytes: Vec<u8>) -> (r: Option<String>)
    ensures
        r is Some <==> valid_utf8(bytes@),
        r matches Some(s) ==> s@ == decode_utf8(bytes@),
{
    match String::from_utf8(bytes) {
        Ok(s) => Some(s),
        Err(_) => None,
    }
}

/// The canonical text of the handle `h`.
pub fn uuid_text(h: u128) -> (r: String)
    ensures
        r@ == spec_hyphenated(h),
{
    uuid_to_string(h)
}

/// The handle whose canonical text is `text`, if it is one.
pub fn uuid_from_text(text: &String) -> (r: Option<u128>)
    ensures
        match r {
            Some(h) => spec_hyphenated(h) == text@,
            None => !spec_is_hyphenated(text@),
        },
{
    match uuid_parse_str(text.as_str()) {
        Some(h) => {
            let canonical = uuid_to_string(h);
            if canonical == *text {
                Some(h)
            } else {
                proof {
                    if spec_is_hyphenated(text@) {
                        let g = spec_uuid_of(text@);
                        assert(spec_hyphenated(g) == text@);
                    }
                }
                None
            }
        },
        None => None,
    }
}

/// Reads a length-prefixed byte string off the front of `i`.
pub fn parse_u8_vec(i: &[u8]) -> (r: Option<(&[u8], Vec<u8>)>)
    ensures
        match r {
            Some((rest, v)) => spec_read_byte_string(i@) == Some((rest@, v@)),
            None => spec_read_byte_string(i@) is None,
        },
{
    let (i, len) = be_u32(i)?;
    if i.len() < len as usize {
        return None;
    }
    let taken = vstd::slice::slice_subrange(i, 0, len as usize);
    let rest = vstd::slice::slice_subrange(i, len as usize, i.len());
    assert(taken@ =~= i@.take(len as int));
    assert(rest@ =~= i@.skip(len as int));
    Some((rest, vstd::slice::slice_to_vec(taken)))
}

/// Reads a length-prefixed UTF-8 string off the front of `i`.
pub fn parse_string(i: &[u8]) -> (r: Option<(&[u8], String)>)
    ensures
        match r {
            Some((rest, s)) => spec_read_string(i@) == Some((rest@, s@)),
            None => spec_read_string(i@) is None,
        },
{
    let (i, bytes) = parse_u8_vec(i)?;
    let s = string_from_utf8(bytes)?;
    Some((i, s))
}

/// Reads a handle off the front of `i`: a string that must be the canonical
/// text of an identifier.
pub fn parse_uuid(i: &[u8]) -> (r: Option<(&[u8], u128)>)
    ensures
        match r {
            Some((rest, h)) => spec_read_uuid(i@) == Some((rest@, h)),
            None => spec_read_uuid(i@) is None,
        },
{
    let (i, s) = parse_string(i)?;
    let h = uuid_from_text(&s)?;
    proof {
        lemma_hyphenated_injective(h, spec_uuid_of(s@));
    }
    Some((i, h))
}

/// Appends `elements` as they are, with no length in front.
pub fn vec_u8_as_slice(elements: &Vec<u8>, out: &mut Vec<u8>)
    ensures
        final(out)@ == old(out)@ + elements@,
{
    out.extend_from_slice(elements.as_slice());
}

/// Appends `elements` as a byte string: the length, then the bytes.
pub fn vec_with_u32_length(elements: &Vec<u8>, out: &mut Vec<u8>)
    requires
        elements@.len() <= u32::MAX,
    ensures
        final(out)@ == old(out)@ + spec_byte_string(elements@),
{
    put_u32(out, elements.len() as u32);
    out.extend_from_slice(elements.as_slice());
    assert(out@ =~= old(out)@ + spec_byte_string(elements@));
}

/// Appends `s` as a string: the length of its UTF-8 encoding, then the encoding.
pub fn str_with_u32_length(s: &str, out: &mut Vec<u8>)
    requires
        encode_utf8(s@).len() <= u32::MAX,
    ensures
        final(out)@ == old(out)@ + spec_string(s@),
{
    let slice = s.as_bytes();
    put_u32(out, slice.len() as u32);
    out.extend_from_slice(slice);
    assert(out@ =~= old(out)@ + spec_string(s@));
}

/// Appends the handle `h`: the string of its canonical text.
pub fn serialize_uuid(h: u128, out: &mut Vec<u8>)
    ensures
        final(out)@ == old(out)@ + spec_uuid(h),
{
    let text = uuid_to_string(h);
    proof {
        lemma_hyphenated_is_ascii(h);
    }
    str_with_u32_length(text.as_str(), out);
}

} // verus!
