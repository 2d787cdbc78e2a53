//! The first message of the video channel.

use vstd::prelude::*;
use vstd::string::StringSliceAdditionalSpecFns;
use vstd::utf8::encode_utf8;

use crate::codec::{codec_byte, codec_result, Codec};
use crate::error::{truncated, unexpected_eof, view_result, Decoded, ProtoError, ProtoErrorView};
use crate::wire::{
    be_u16, decode_string, lemma_be_u16_round_trip, lemma_skip_skip, lemma_string_parse_serialize,
    lemma_string_round_trip, lemma_string_truncated, lemma_u16_round_trip, read_string, read_u16,
    read_u8, string_wire,
    take_front, u16_be, write_string, write_u16, write_u8, MAX_STRING_BYTES,
};
use crate::{MAGIC, PROTOCOL_VERSION};

verus! {

broadcast use lemma_skip_skip;

/// First message of the video channel: the server announces the effective
/// session parameters as soon as the connection is accepted.
#[derive(Debug, Clone, PartialEq, Eq)]
pub struct Handshake {
    pub codec: Codec,
    pub width: u16,
    pub height: u16,
    pub device_name: String,
}

/// A handshake with its device name as characters.
pub struct HandshakeView {
    pub codec: Codec,
    pub width: u16,
    pub height: u16,
    pub device_name: Seq<char>,
}

impl View for Handshake {
    type V = HandshakeView;

    open spec fn view(&self) -> HandshakeView {
        HandshakeView {
            codec: self.codec,
            width: self.width,
            height: self.height,
            device_name: self.device_name@,
        }
    }
}

/// The bytes of "SKRY".
pub open spec fn magic_bytes() -> Seq<u8> {
    seq![0x53u8, 0x4Bu8, 0x52u8, 0x59u8]
}

/// The fixed-size part of a handshake: magic, version, codec, width, height.
pub open spec fn handshake_head(h: HandshakeView) -> Seq<u8> {
    magic_bytes() + u16_be(PROTOCOL_VERSION) + seq![codec_byte(h.codec)] + u16_be(h.width) + u16_be(
        h.height,
    )
}

/// A handshake on the wire.
pub open spec fn handshake_wire(h: HandshakeView) -> Seq<u8> {
    handshake_head(h) + string_wire(encode_utf8(h.device_name))
}

/// A handshake can be written when its device name fits a string.
pub open spec fn handshake_fits(h: HandshakeView) -> bool {
    encode_utf8(h.device_name).len() <= MAX_STRING_BYTES
}

/// Decoding of a handshake from the front of `s`: magic, then version, then
/// codec, width, height and device name, each checked as it comes.
pub open spec fn decode_handshake(s: Seq<u8>) -> Decoded<HandshakeView> {
    if s.len() < 4 {
        truncated(s)
    } else if s.take(4) != magic_bytes() {
        (Err(ProtoErrorView::BadMagic(s.take(4))), 4)
    } else if s.len() < 6 {
        truncated(s)
    } else if be_u16(s.skip(4)) != PROTOCOL_VERSION {
        (
            Err(
                ProtoErrorView::VersionMismatch {
                    expected: PROTOCOL_VERSION,
                    found: be_u16(s.skip(4)),
                },
            ),
            6,
        )
    } else if s.len() < 7 {
        truncated(s)
    } else {
        match codec_result(s[6]) {
            Err(e) => (Err(e), 7),
            Ok(codec) => {
                if s.len() < 11 {
                    truncated(s)
                } else {
                    let name = decode_string(s.skip(11));
                    match name.0 {
                        Ok(device_name) => (
                            Ok(
                                HandshakeView {
                                    codec,
                                    width: be_u16(s.skip(7)),
                                    height: be_u16(s.skip(9)),
                                    device_name,
                                },
                            ),
                            11 + name.1,
                        ),
                        Err(e) => (Err(e), 11 + name.1),
                    }
                }
            },
        }
    }
}

impl Handshake {
    /// Writes the whole handshake (magic, version, body). A device name longer
    /// than a string can carry fails after the fixed-size part is written.
    pub fn write(&self, w: &mut Vec<u8>) -> (res: Result<(), ProtoError>)
        ensures
            handshake_fits(self@) ==> res is Ok && final(w)@ == old(w)@ + handshake_wire(self@),
            !handshake_fits(self@) ==> final(w)@ == old(w)@ + handshake_head(self@) && view_result(
                res,
            ) == Err::<(), ProtoErrorView>(
                ProtoErrorView::LengthExceeded {
                    kind: "string"@,
                    len: encode_utf8(self.device_name@).len() as u64,
                    max: MAX_STRING_BYTES as u64,
                },
            ),
    {
        w.push(MAGIC[0]);
        w.push(MAGIC[1]);
        w.push(MAGIC[2]);
        w.push(MAGIC[3]);
        let _ = write_u16(w, PROTOCOL_VERSION);
        let _ = write_u8(w, self.codec.to_u8());
        let _ = write_u16(w, self.width);
        let _ = write_u16(w, self.height);
        assert(w@ =~= old(w)@ + handshake_head(self@));
        let r = write_string(w, self.device_name.as_str());
        proof {
            if r is Ok {
                assert(w@ =~= old(w)@ + handshake_wire(self@));
            }
        }
        r
    }

    /// Reads and checks the handshake. It fails when the magic or the version
    /// differ, so that an incompatible client and server never proceed blindly.
    pub fn read(r: &mut &[u8]) -> (res: Result<Handshake, ProtoError>)
        ensures
            view_result(res) == decode_handshake(old(r)@).0,
            final(r)@ == old(r)@.skip(decode_handshake(old(r)@).1),
    {
        let ghost s0 = r@;
        let m = match take_front(r, 4) {
            None => return Err(ProtoError::Io(unexpected_eof())),
            Some(m) => m,
        };
        if m[0] != MAGIC[0] || m[1] != MAGIC[1] || m[2] != MAGIC[2] || m[3] != MAGIC[3] {
            let got = [m[0], m[1], m[2], m[3]];
            assert(got@ =~= s0.take(4));
            assert(s0.take(4) != magic_bytes()) by {
                if s0.take(4) == magic_bytes() {
                    assert(m@[0] == magic_bytes()[0]);
                    assert(m@[1] == magic_bytes()[1]);
                    assert(m@[2] == magic_bytes()[2]);
                    assert(m@[3] == magic_bytes()[3]);
                }
            }
            return Err(ProtoError::BadMagic(got));
        }
        assert(s0.take(4) =~= magic_bytes());
        let version = read_u16(r)?;
        if version != PROTOCOL_VERSION {
            return Err(ProtoError::VersionMismatch { expected: PROTOCOL_VERSION, found: version });
        }
        let c = read_u8(r)?;
        let codec = Codec::from_u8(c)?;
        let width = read_u16(r)?;
        let height = read_u16(r)?;
        let ghost s11 = r@;
        assert(s11 == s0.skip(11));
        let device_name = read_string(r)?;
        Ok(Handshake { codec, width, height, device_name })
    }
}

} // verus!

verus! {

proof fn lemma_handshake_head_bytes(h: HandshakeView)
    ensures
        ({
            let v = u16_be(PROTOCOL_VERSION);
            let wd = u16_be(h.width);
            let ht = u16_be(h.height);
            handshake_head(h) == seq![
                0x53u8,
                0x4Bu8,
                0x52u8,
                0x59u8,
                v[0],
                v[1],
                codec_byte(h.codec),
                wd[0],
                wd[1],
                ht[0],
                ht[1],
            ]
        }),
{
    let v = u16_be(PROTOCOL_VERSION);
    let wd = u16_be(h.width);
    let ht = u16_be(h.height);
    assert(handshake_head(h) =~= seq![
        0x53u8,
        0x4Bu8,
        0x52u8,
        0x59u8,
        v[0],
        v[1],
        codec_byte(h.codec),
        wd[0],
        wd[1],
        ht[0],
        ht[1],
    ]);
}

proof fn lemma_handshake_fields(h: HandshakeView, s: Seq<u8>)
    requires
        s.len() >= 11,
        s.take(11) == handshake_head(h),
    ensures
        s.take(4) == magic_bytes(),
        be_u16(s.skip(4)) == PROTOCOL_VERSION,
        s[6] == codec_byte(h.codec),
        codec_result(s[6]) == Ok::<Codec, ProtoErrorView>(h.codec),
        be_u16(s.skip(7)) == h.width,
        be_u16(s.skip(9)) == h.height,
{
    let head = handshake_head(h);
    lemma_handshake_head_bytes(h);
    assert(s.take(4) =~= magic_bytes()) by {
        assert(forall|i: int| 0 <= i < 4 ==> s[i] == #[trigger] head[i]);
    }
    assert(s.skip(4).take(2) =~= u16_be(PROTOCOL_VERSION)) by {
        assert(forall|i: int| 4 <= i < 6 ==> s[i] == #[trigger] head[i]);
    }
    assert(s.skip(7).take(2) =~= u16_be(h.width)) by {
        assert(forall|i: int| 7 <= i < 9 ==> s[i] == #[trigger] head[i]);
    }
    assert(s.skip(9).take(2) =~= u16_be(h.height)) by {
        assert(forall|i: int| 9 <= i < 11 ==> s[i] == #[trigger] head[i]);
    }
    assert(s[6] == head[6]);
    lemma_u16_round_trip(PROTOCOL_VERSION);
    lemma_u16_round_trip(h.width);
    lemma_u16_round_trip(h.height);
    assert(be_u16(s.skip(4)) == be_u16(s.skip(4).take(2)));
    assert(be_u16(s.skip(7)) == be_u16(s.skip(7).take(2)));
    assert(be_u16(s.skip(9)) == be_u16(s.skip(9).take(2)));
}

/// Reading back a written handshake gives the same handshake, consumes exactly
/// the bytes written, and leaves whatever follows untouched.
pub proof fn handshake_round_trip(h: HandshakeView, rest: Seq<u8>)
    requires
        handshake_fits(h),
    ensures
        decode_handshake(handshake_wire(h) + rest) == (
        Ok::<HandshakeView, ProtoErrorView>(h),
        handshake_wire(h).len() as int,
        ),
{
    let name = encode_utf8(h.device_name);
    let s = handshake_wire(h) + rest;
    assert(s.take(11) =~= handshake_head(h));
    lemma_handshake_fields(h, s);
    assert(s.skip(11) =~= string_wire(name) + rest);
    lemma_string_round_trip(h.device_name, rest);
}

/// A handshake that was read is written back as exactly the bytes read: the
/// reader accepts no encoding but the one the writer produces.
pub proof fn handshake_parse_serialize(s: Seq<u8>)
    ensures
        decode_handshake(s).0 matches Ok(h) ==> handshake_wire(h) == s.take(decode_handshake(s).1),
{
    if let Ok(h) = decode_handshake(s).0 {
        lemma_be_u16_round_trip(s.skip(4));
        lemma_be_u16_round_trip(s.skip(7));
        lemma_be_u16_round_trip(s.skip(9));
        lemma_string_parse_serialize(s.skip(11));
        let n = decode_handshake(s).1;
        let name = encode_utf8(h.device_name);
        assert(s.take(4) =~= magic_bytes());
        assert(handshake_head(h) =~= s.take(11));
        assert(string_wire(name) =~= s.skip(11).take(n - 11));
        assert(handshake_wire(h) =~= s.take(n));
    }
}

/// A handshake cut short anywhere reads as an I/O failure that consumes all
/// the bytes there are: an incomplete handshake is never accepted.
pub proof fn handshake_truncated(h: HandshakeView, k: int)
    requires
        handshake_fits(h),
        0 <= k < handshake_wire(h).len(),
    ensures
        decode_handshake(handshake_wire(h).take(k)) == truncated::<HandshakeView>(
            handshake_wire(h).take(k),
        ),
{
    let w = handshake_wire(h);
    let s = w.take(k);
    let name = encode_utf8(h.device_name);
    if k >= 11 {
        assert(s.take(11) =~= handshake_head(h));
        lemma_handshake_fields(h, s);
        assert(s.skip(11) =~= string_wire(name).take(k - 11));
        lemma_string_truncated(h.device_name, k - 11);
    } else if k >= 4 {
        let t = w.take(11);
        lemma_handshake_head_bytes(h);
        assert(handshake_head(h).len() == 11);
        assert(t =~= handshake_head(h));
        assert(t.take(11) =~= t);
        lemma_handshake_fields(h, t);
        assert(s.take(4) =~= t.take(4));
        if k >= 6 {
            assert(be_u16(s.skip(4)) == be_u16(t.skip(4)));
        }
        if k >= 7 {
            assert(s[6] == t[6]);
        }
    }
}

/// The byte of each codec on the wire: 0 for H.264, 1 for H.265.
pub open spec fn wire_codec(c: Codec) -> u8 {
    match c {
        Codec::H264 => 0u8,
        Codec::H265 => 1u8,
    }
}

/// A handshake travels as the ASCII bytes of "SKRY", the version 1 in 2
/// big-endian bytes, the codec's byte, width and height in 2 big-endian bytes
/// each, then the device name: the length of its UTF-8 bytes in 2 big-endian
/// bytes and those bytes. Reading those bytes gives the handshake back.
pub proof fn handshake_layout(codec: Codec, width: u16, height: u16, name: Seq<char>, rest: Seq<u8>)
    requires
        encode_utf8(name).len() <= MAX_STRING_BYTES,
    ensures
        handshake_wire(HandshakeView { codec, width, height, device_name: name }) == seq![
            0x53u8,
            0x4Bu8,
            0x52u8,
            0x59u8,
            0x00u8,
            0x01u8,
            wire_codec(codec),
        ] + u16_be(width) + u16_be(height) + u16_be(encode_utf8(name).len() as u16) + encode_utf8(
            name,
        ),
        decode_handshake(
            seq![0x53u8, 0x4Bu8, 0x52u8, 0x59u8, 0x00u8, 0x01u8, wire_codec(codec)] + u16_be(width)
                + u16_be(height) + u16_be(encode_utf8(name).len() as u16) + encode_utf8(name) + rest,
        ) == (
        Ok::<HandshakeView, ProtoErrorView>(
            HandshakeView { codec, width, height, device_name: name },
        ),
        13 + encode_utf8(name).len() as int,
        ),
{
    let h = HandshakeView { codec, width, height, device_name: name };
    assert(u16_be(1u16) =~= seq![0x00u8, 0x01u8]) by {
        assert((1u16 >> 8u16) as u8 == 0u8 && 1u16 as u8 == 1u8) by (bit_vector);
    }
    assert(handshake_wire(h) =~= seq![
        0x53u8,
        0x4Bu8,
        0x52u8,
        0x59u8,
        0x00u8,
        0x01u8,
        wire_codec(codec),
    ] + u16_be(width) + u16_be(height) + u16_be(encode_utf8(name).len() as u16) + encode_utf8(name));
    handshake_round_trip(h, rest);
}

} // verus!
