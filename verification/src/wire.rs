//! Reading and writing primitives in big-endian (network) order.
//!
//! Writers append to a `Vec<u8>`; readers take bytes from the front of a
//! byte slice and advance it past what they consumed. Strings travel as a
//! `u16` length followed by their UTF-8 bytes.

use vstd::prelude::*;
use vstd::slice::{slice_subrange, slice_to_vec};
use vstd::string::StringSliceAdditionalSpecFns;
use vstd::utf8::*;

use crate::error::{truncated, unexpected_eof, view_result, Decoded, ProtoError, ProtoErrorView};

verus! {

/// Cap on string length (device name, error messages): the largest length
/// that the `u16` prefix of the format can carry.
pub const MAX_STRING_BYTES: usize = 65535;

/// The two bytes of `v`, most significant first.
pub open spec fn u16_be(v: u16) -> Seq<u8> {
    seq![(v >> 8u16) as u8, v as u8]
}

/// The four bytes of `v`, most significant first.
pub open spec fn u32_be(v: u32) -> Seq<u8> {
    seq![(v >> 24u32) as u8, (v >> 16u32) as u8, (v >> 8u32) as u8, v as u8]
}

/// The eight bytes of `v`, most significant first.
pub open spec fn u64_be(v: u64) -> Seq<u8> {
    seq![
        (v >> 56u64) as u8,
        (v >> 48u64) as u8,
        (v >> 40u64) as u8,
        (v >> 32u64) as u8,
        (v >> 24u64) as u8,
        (v >> 16u64) as u8,
        (v >> 8u64) as u8,
        v as u8,
    ]
}

/// The `u16` whose big-endian bytes open `s`.
pub open spec fn be_u16(s: Seq<u8>) -> u16 {
    ((s[0] as u16) << 8u16) | (s[1] as u16)
}

/// The `u32` whose big-endian bytes open `s`.
pub open spec fn be_u32(s: Seq<u8>) -> u32 {
    ((s[0] as u32) << 24u32) | ((s[1] as u32) << 16u32) | ((s[2] as u32) << 8u32) | (s[3] as u32)
}

/// The `u64` whose big-endian bytes open `s`.
pub open spec fn be_u64(s: Seq<u8>) -> u64 {
    ((s[0] as u64) << 56u64) | ((s[1] as u64) << 48u64) | ((s[2] as u64) << 40u64) | ((s[3] as u64)
        << 32u64) | ((s[4] as u64) << 24u64) | ((s[5] as u64) << 16u64) | ((s[6] as u64) << 8u64)
        | (s[7] as u64)
}

/// A string on the wire: the `u16` length of its bytes, then the bytes.
pub open spec fn string_wire(bytes: Seq<u8>) -> Seq<u8> {
    u16_be(bytes.len() as u16) + bytes
}

/// Decoding of one byte: the value and the count of bytes consumed, or the
/// truncation when the input is empty.
pub open spec fn decode_u8(s: Seq<u8>) -> Decoded<u8> {
    if s.len() < 1 {
        truncated(s)
    } else {
        (Ok(s[0]), 1)
    }
}

/// Decoding of a big-endian `u16`.
pub open spec fn decode_u16(s: Seq<u8>) -> Decoded<u16> {
    if s.len() < 2 {
        truncated(s)
    } else {
        (Ok(be_u16(s)), 2)
    }
}

/// Decoding of a big-endian `u32`.
pub open spec fn decode_u32(s: Seq<u8>) -> Decoded<u32> {
    if s.len() < 4 {
        truncated(s)
    } else {
        (Ok(be_u32(s)), 4)
    }
}

/// Decoding of a big-endian `u64`.
pub open spec fn decode_u64(s: Seq<u8>) -> Decoded<u64> {
    if s.len() < 8 {
        truncated(s)
    } else {
        (Ok(be_u64(s)), 8)
    }
}

/// Decoding of a string: its length, then that many bytes of valid UTF-8.
pub open spec fn decode_string(s: Seq<u8>) -> Decoded<Seq<char>> {
    if s.len() < 2 {
        truncated(s)
    } else {
        let n = be_u16(s) as int;
        if s.len() < 2 + n {
            truncated(s)
        } else if valid_utf8(s.subrange(2, 2 + n)) {
            (Ok(decode_utf8(s.subrange(2, 2 + n))), 2 + n)
        } else {
            (Err(ProtoErrorView::InvalidUtf8), 2 + n)
        }
    }
}

/// Skipping twice is skipping the sum.
pub broadcast proof fn lemma_skip_skip<A>(s: Seq<A>, a: int, b: int)
    requires
        0 <= a <= s.len(),
        0 <= b <= s.len() - a,
    ensures
        #[trigger] s.skip(a).skip(b) == s.skip(a + b),
{
    assert(s.skip(a).skip(b) =~= s.skip(a + b));
}

/// Takes `n` bytes off the front of `*r`, or all of them when fewer remain.
pub(crate) fn take_front<'a>(r: &mut &'a [u8], n: usize) -> (res: Option<&'a [u8]>)
    ensures
        old(r)@.len() >= n ==> (res matches Some(b) && b@ == old(r)@.take(n as int)
            && final(r)@ == old(r)@.skip(n as int)),
        old(r)@.len() < n ==> res is None && final(r)@ == old(r)@.skip(old(r)@.len() as int),
{
    let s: &'a [u8] = *r;
    if s.len() < n {
        *r = slice_subrange(s, s.len(), s.len());
        None
    } else {
        *r = slice_subrange(s, n, s.len());
        Some(slice_subrange(s, 0, n))
    }
}

pub fn write_u8(w: &mut Vec<u8>, v: u8) -> (res: Result<(), ProtoError>)
    ensures
        res is Ok,
        final(w)@ == old(w)@.push(v),
{
    w.push(v);
    Ok(())
}

pub fn read_u8(r: &mut &[u8]) -> (res: Result<u8, ProtoError>)
    ensures
        view_result(res) == decode_u8(old(r)@).0,
        final(r)@ == old(r)@.skip(decode_u8(old(r)@).1),
{
    match take_front(r, 1) {
        None => Err(ProtoError::Io(unexpected_eof())),
        Some(b) => Ok(b[0]),
    }
}

pub fn write_u16(w: &mut Vec<u8>, v: u16) -> (res: Result<(), ProtoError>)
    ensures
        res is Ok,
        final(w)@ == old(w)@ + u16_be(v),
{
    w.push((v >> 8u16) as u8);
    w.push(v as u8);
    assert(w@ =~= old(w)@ + u16_be(v));
    Ok(())
}

pub fn read_u16(r: &mut &[u8]) -> (res: Result<u16, ProtoError>)
    ensures
        view_result(res) == decode_u16(old(r)@).0,
        final(r)@ == old(r)@.skip(decode_u16(old(r)@).1),
{
    match take_front(r, 2) {
        None => Err(ProtoError::Io(unexpected_eof())),
        Some(b) => Ok(((b[0] as u16) << 8u16) | (b[1] as u16)),
    }
}

pub fn write_u32(w: &mut Vec<u8>, v: u32) -> (res: Result<(), ProtoError>)
    ensures
        res is Ok,
        final(w)@ == old(w)@ + u32_be(v),
{
    w.push((v >> 24u32) as u8);
    w.push((v >> 16u32) as u8);
    w.push((v >> 8u32) as u8);
    w.push(v as u8);
    assert(w@ =~= old(w)@ + u32_be(v));
    Ok(())
}

pub fn read_u32(r: &mut &[u8]) -> (res: Result<u32, ProtoError>)
    ensures
        view_result(res) == decode_u32(old(r)@).0,
        final(r)@ == old(r)@.skip(decode_u32(old(r)@).1),
{
    match take_front(r, 4) {
        None => Err(ProtoError::Io(unexpected_eof())),
        Some(b) => Ok(((b[0] as u32) << 24u32) | ((b[1] as u32) << 16u32) | ((b[2] as u32) << 8u32)
            | (b[3] as u32)),
    }
}

pub fn write_u64(w: &mut Vec<u8>, v: u64) -> (res: Result<(), ProtoError>)
    ensures
        res is Ok,
        final(w)@ == old(w)@ + u64_be(v),
{
    w.push((v >> 56u64) as u8);
    w.push((v >> 48u64) as u8);
    w.push((v >> 40u64) as u8);
    w.push((v >> 32u64) as u8);
    w.push((v >> 24u64) as u8);
    w.push((v >> 16u64) as u8);
    w.push((v >> 8u64) as u8);
    w.push(v as u8);
    assert(w@ =~= old(w)@ + u64_be(v));
    Ok(())
}

pub fn read_u64(r: &mut &[u8]) -> (res: Result<u64, ProtoError>)
    ensures
        view_result(res) == decode_u64(old(r)@).0,
        final(r)@ == old(r)@.skip(decode_u64(old(r)@).1),
{
    match take_front(r, 8) {
        None => Err(ProtoError::Io(unexpected_eof())),
        Some(b) => Ok(((b[0] as u64) << 56u64) | ((b[1] as u64) << 48u64) | ((b[2] as u64)
            << 40u64) | ((b[3] as u64) << 32u64) | ((b[4] as u64) << 24u64) | ((b[5] as u64)
            << 16u64) | ((b[6] as u64) << 8u64) | (b[7] as u64)),
    }
}

/// Writes a string: `u16` length, then its UTF-8 bytes. A string longer than
/// [`MAX_STRING_BYTES`] bytes is refused and nothing is written.
pub fn write_string(w: &mut Vec<u8>, s: &str) -> (res: Result<(), ProtoError>)
    ensures
        s.spec_bytes().len() <= MAX_STRING_BYTES ==> res is Ok && final(w)@ == old(w)@
            + string_wire(s.spec_bytes()),
        s.spec_bytes().len() > MAX_STRING_BYTES ==> final(w)@ == old(w)@ && view_result(res)
            == Err::<(), ProtoErrorView>(
            ProtoErrorView::LengthExceeded {
                kind: "string"@,
                len: s.spec_bytes().len() as u64,
                max: MAX_STRING_BYTES as u64,
            },
        ),
{
    let bytes = s.as_bytes();
    if bytes.len() > MAX_STRING_BYTES {
        return Err(
            ProtoError::LengthExceeded {
                kind: "string",
                len: bytes.len() as u64,
                max: MAX_STRING_BYTES as u64,
            },
        );
    }
    let _ = write_u16(w, bytes.len() as u16);
    let ghost mid = w@;
    let mut i: usize = 0;
    while i < bytes.len()
        invariant
            i <= bytes@.len(),
            bytes@ == s.spec_bytes(),
            w@ == mid + bytes@.take(i as int),
        decreases bytes@.len() - i,
    {
        w.push(bytes[i]);
        i = i + 1;
        assert(w@ =~= mid + bytes@.take(i as int));
    }
    assert(bytes@.take(bytes@.len() as int) =~= bytes@);
    assert(w@ =~= old(w)@ + string_wire(s.spec_bytes()));
    Ok(())
}

/// `String::from_utf8`: the string whose UTF-8 encoding is `bytes`, when
/// they are valid UTF-8.
#[verifier::external_body]
fn string_from_utf8(bytes: Vec<u8>) -> (res: Option<String>)
    ensures
        res is Some <==> valid_utf8(bytes@),
        res matches Some(s) ==> s@ == decode_utf8(bytes@),
{
    match String::from_utf8(bytes) {
        Ok(s) => Some(s),
        Err(_) => None,
    }
}

/// Reads a string: `u16` length, then that many bytes, which must be UTF-8.
pub fn read_string(r: &mut &[u8]) -> (res: Result<String, ProtoError>)
    ensures
        view_result(res) == decode_string(old(r)@).0,
        final(r)@ == old(r)@.skip(decode_string(old(r)@).1),
{
    let ghost s0 = r@;
    let len = read_u16(r)? as usize;
    let ghost s1 = r@;
    match take_front(r, len) {
        None => {
            assert(r@ =~= s0.skip(s0.len() as int));
            Err(ProtoError::Io(unexpected_eof()))
        },
        Some(b) => {
            assert(b@ =~= s0.subrange(2, 2 + len));
            assert(r@ =~= s0.skip(2 + len));
            match string_from_utf8(slice_to_vec(b)) {
                Some(s) => Ok(s),
                None => Err(ProtoError::InvalidUtf8),
            }
        },
    }
}

} // verus!

verus! {

/// Reading back the bytes written for a `u16` gives the same `u16`.
pub proof fn lemma_u16_round_trip(v: u16)
    ensures
        be_u16(u16_be(v)) == v,
{
    let b0 = (v >> 8u16) as u8;
    let b1 = v as u8;
    assert((((b0 as u16) << 8u16) | (b1 as u16)) == v) by (bit_vector)
        requires
            b0 == (v >> 8u16) as u8,
            b1 == v as u8,
    ;
}

/// Writing the `u16` read from two bytes gives back those two bytes.
pub proof fn lemma_be_u16_round_trip(s: Seq<u8>)
    requires
        s.len() >= 2,
    ensures
        u16_be(be_u16(s)) == s.take(2),
{
    let b0 = s[0];
    let b1 = s[1];
    let v = be_u16(s);
    assert((v >> 8u16) as u8 == b0 && v as u8 == b1) by (bit_vector)
        requires
            v == ((b0 as u16) << 8u16) | (b1 as u16),
    ;
    assert(u16_be(v) =~= s.take(2));
}

/// Reading back the bytes written for a `u32` gives the same `u32`.
pub proof fn lemma_u32_round_trip(v: u32)
    ensures
        be_u32(u32_be(v)) == v,
{
    let b0 = (v >> 24u32) as u8;
    let b1 = (v >> 16u32) as u8;
    let b2 = (v >> 8u32) as u8;
    let b3 = v as u8;
    assert((((b0 as u32) << 24u32) | ((b1 as u32) << 16u32) | ((b2 as u32) << 8u32) | (b3 as u32))
        == v) by (bit_vector)
        requires
            b0 == (v >> 24u32) as u8,
            b1 == (v >> 16u32) as u8,
            b2 == (v >> 8u32) as u8,
            b3 == v as u8,
    ;
}

/// Writing the `u32` read from four bytes gives back those four bytes.
pub proof fn lemma_be_u32_round_trip(s: Seq<u8>)
    requires
        s.len() >= 4,
    ensures
        u32_be(be_u32(s)) == s.take(4),
{
    let b0 = s[0];
    let b1 = s[1];
    let b2 = s[2];
    let b3 = s[3];
    let v = be_u32(s);
    assert((v >> 24u32) as u8 == b0 && (v >> 16u32) as u8 == b1 && (v >> 8u32) as u8 == b2 && v as u8
        == b3) by (bit_vector)
        requires
            v == ((b0 as u32) << 24u32) | ((b1 as u32) << 16u32) | ((b2 as u32) << 8u32) | (b3 as u32),
    ;
    assert(u32_be(v) =~= s.take(4));
}

/// Reading back the bytes written for a `u64` gives the same `u64`.
pub proof fn lemma_u64_round_trip(v: u64)
    ensures
        be_u64(u64_be(v)) == v,
{
    let b0 = (v >> 56u64) as u8;
    let b1 = (v >> 48u64) as u8;
    let b2 = (v >> 40u64) as u8;
    let b3 = (v >> 32u64) as u8;
    let b4 = (v >> 24u64) as u8;
    let b5 = (v >> 16u64) as u8;
    let b6 = (v >> 8u64) as u8;
    let b7 = v as u8;
    assert((((b0 as u64) << 56u64) | ((b1 as u64) << 48u64) | ((b2 as u64) << 40u64) | ((b3 as u64)
        << 32u64) | ((b4 as u64) << 24u64) | ((b5 as u64) << 16u64) | ((b6 as u64) << 8u64) | (b7
        as u64)) == v) by (bit_vector)
        requires
            b0 == (v >> 56u64) as u8,
            b1 == (v >> 48u64) as u8,
            b2 == (v >> 40u64) as u8,
            b3 == (v >> 32u64) as u8,
            b4 == (v >> 24u64) as u8,
            b5 == (v >> 16u64) as u8,
            b6 == (v >> 8u64) as u8,
            b7 == v as u8,
    ;
}

/// Writing the `u64` read from eight bytes gives back those eight bytes.
pub proof fn lemma_be_u64_round_trip(s: Seq<u8>)
    requires
        s.len() >= 8,
    ensures
        u64_be(be_u64(s)) == s.take(8),
{
    let b0 = s[0];
    let b1 = s[1];
    let b2 = s[2];
    let b3 = s[3];
    let b4 = s[4];
    let b5 = s[5];
    let b6 = s[6];
    let b7 = s[7];
    let v = be_u64(s);
    assert((v >> 56u64) as u8 == b0 && (v >> 48u64) as u8 == b1 && (v >> 40u64) as u8 == b2 && (v
        >> 32u64) as u8 == b3 && (v >> 24u64) as u8 == b4 && (v >> 16u64) as u8 == b5 && (v
        >> 8u64) as u8 == b6 && v as u8 == b7) by (bit_vector)
        requires
            v == ((b0 as u64) << 56u64) | ((b1 as u64) << 48u64) | ((b2 as u64) << 40u64) | ((b3
                as u64) << 32u64) | ((b4 as u64) << 24u64) | ((b5 as u64) << 16u64) | ((b6 as u64)
                << 8u64) | (b7 as u64),
    ;
    assert(u64_be(v) =~= s.take(8));
}

/// Reading back a string written with its length gives the same characters,
/// whatever follows it.
pub proof fn lemma_string_round_trip(c: Seq<char>, rest: Seq<u8>)
    requires
        encode_utf8(c).len() <= MAX_STRING_BYTES,
    ensures
        decode_string(string_wire(encode_utf8(c)) + rest) == (
        Ok::<Seq<char>, ProtoErrorView>(c),
        2 + encode_utf8(c).len() as int,
        ),
{
    let b = encode_utf8(c);
    let s = string_wire(b) + rest;
    lemma_u16_round_trip(b.len() as u16);
    assert(be_u16(s) == be_u16(u16_be(b.len() as u16)));
    assert(s.subrange(2, 2 + b.len() as int) =~= b);
    encode_utf8_valid_utf8(c);
    encode_utf8_decode_utf8(c);
}

/// A string read from some bytes is written back as exactly the bytes read.
pub proof fn lemma_string_parse_serialize(s: Seq<u8>)
    ensures
        decode_string(s).0 matches Ok(c) ==> string_wire(encode_utf8(c)) == s.take(
            decode_string(s).1,
        ),
{
    if decode_string(s).0 is Ok {
        let n = be_u16(s) as int;
        let b = s.subrange(2, 2 + n);
        decode_utf8_encode_utf8(b);
        lemma_be_u16_round_trip(s);
        assert(string_wire(encode_utf8(decode_utf8(b))) =~= s.take(2 + n));
    }
}

/// A string cut short anywhere reads as an I/O failure that consumes it all.
pub proof fn lemma_string_truncated(c: Seq<char>, k: int)
    requires
        encode_utf8(c).len() <= MAX_STRING_BYTES,
        0 <= k < string_wire(encode_utf8(c)).len(),
    ensures
        decode_string(string_wire(encode_utf8(c)).take(k)) == truncated::<Seq<char>>(
            string_wire(encode_utf8(c)).take(k),
        ),
{
    let b = encode_utf8(c);
    let s = string_wire(b).take(k);
    if k >= 2 {
        lemma_u16_round_trip(b.len() as u16);
        assert(be_u16(s) == be_u16(u16_be(b.len() as u16)));
    }
}

} // verus!
