//! Framing of the video channel.

use vstd::prelude::*;
use vstd::slice::slice_to_vec;

use crate::error::{truncated, unexpected_eof, view_result, Decoded, ProtoError, ProtoErrorView};
use crate::wire::{
    be_u32, be_u64, lemma_be_u32_round_trip, lemma_be_u64_round_trip, lemma_skip_skip,
    lemma_u32_round_trip, lemma_u64_round_trip, read_u32, read_u64, read_u8, take_front, u32_be, u64_be,
    write_u32, write_u64, write_u8,
};

verus! {

broadcast use lemma_skip_skip;

/// Cap on the size of a frame, to stop absurd reads on corrupted input.
pub const MAX_FRAME_BYTES: u32 = 16 * 1024 * 1024;

const FLAG_KEYFRAME: u8 = 0x01;

const FLAG_CONFIG: u8 = 0x02;

/// Header of a frame packet on the video channel.
#[derive(Debug, Clone, Copy, PartialEq, Eq, Structural)]
pub struct FrameHeader {
    /// Presentation timestamp in microseconds (server's monotonic clock).
    pub pts: u64,
    /// The frame is a keyframe (IDR).
    pub keyframe: bool,
    /// The payload is configuration (SPS/PPS/VPS), not a visible frame.
    pub config: bool,
    /// Length of the payload in bytes.
    pub len: u32,
}

impl View for FrameHeader {
    type V = FrameHeader;

    open spec fn view(&self) -> FrameHeader {
        *self
    }
}

/// The flags byte of a header: bit 0 keyframe, bit 1 config, the rest zero.
pub open spec fn frame_flags(h: FrameHeader) -> u8 {
    ((if h.keyframe {
        1u8
    } else {
        0u8
    }) + (if h.config {
        2u8
    } else {
        0u8
    })) as u8
}

/// A header on the wire: pts, flags, payload length.
pub open spec fn frame_header_wire(h: FrameHeader) -> Seq<u8> {
    u64_be(h.pts) + seq![frame_flags(h)] + u32_be(h.len)
}

/// Decoding of a header from the front of `s`. Bits 2 to 7 of the flags are
/// reserved and ignored; a length above [`MAX_FRAME_BYTES`] is refused.
pub open spec fn decode_frame_header(s: Seq<u8>) -> Decoded<FrameHeader> {
    if s.len() < 13 {
        truncated(s)
    } else if be_u32(s.skip(9)) > MAX_FRAME_BYTES {
        (
            Err(
                ProtoErrorView::LengthExceeded {
                    kind: "frame"@,
                    len: be_u32(s.skip(9)) as u64,
                    max: MAX_FRAME_BYTES as u64,
                },
            ),
            13,
        )
    } else {
        (
            Ok(
                FrameHeader {
                    pts: be_u64(s),
                    keyframe: s[8] & 1u8 != 0,
                    config: s[8] & 2u8 != 0,
                    len: be_u32(s.skip(9)),
                },
            ),
            13,
        )
    }
}

/// Decoding of a whole frame: a header, then as many payload bytes as it says.
pub open spec fn decode_frame(s: Seq<u8>) -> Decoded<(FrameHeader, Seq<u8>)> {
    let hd = decode_frame_header(s);
    match hd.0 {
        Err(e) => (Err(e), hd.1),
        Ok(h) => {
            if s.len() < 13 + h.len {
                truncated(s)
            } else {
                (Ok((h, s.subrange(13, 13 + h.len))), 13 + h.len)
            }
        },
    }
}

impl FrameHeader {
    fn flags(&self) -> (f: u8)
        ensures
            f == frame_flags(*self),
    {
        let mut f = 0u8;
        if self.keyframe {
            f |= FLAG_KEYFRAME;
        }
        if self.config {
            f |= FLAG_CONFIG;
        }
        assert(0u8 | 1u8 == 1u8 && 0u8 | 2u8 == 2u8 && 1u8 | 2u8 == 3u8) by (bit_vector);
        f
    }

    /// Writes the header. A length above [`MAX_FRAME_BYTES`] is refused and
    /// nothing is written.
    pub fn write(&self, w: &mut Vec<u8>) -> (res: Result<(), ProtoError>)
        ensures
            self.len <= MAX_FRAME_BYTES ==> res is Ok && final(w)@ == old(w)@ + frame_header_wire(
                *self,
            ),
            self.len > MAX_FRAME_BYTES ==> final(w)@ == old(w)@ && view_result(res) == Err::<
                (),
                ProtoErrorView,
            >(
                ProtoErrorView::LengthExceeded {
                    kind: "frame"@,
                    len: self.len as u64,
                    max: MAX_FRAME_BYTES as u64,
                },
            ),
    {
        if self.len > MAX_FRAME_BYTES {
            return Err(
                ProtoError::LengthExceeded {
                    kind: "frame",
                    len: self.len as u64,
                    max: MAX_FRAME_BYTES as u64,
                },
            );
        }
        let _ = write_u64(w, self.pts);
        let _ = write_u8(w, self.flags());
        let _ = write_u32(w, self.len);
        assert(w@ =~= old(w)@ + frame_header_wire(*self));
        Ok(())
    }

    pub fn read(r: &mut &[u8]) -> (res: Result<FrameHeader, ProtoError>)
        ensures
            view_result(res) == decode_frame_header(old(r)@).0,
            final(r)@ == old(r)@.skip(decode_frame_header(old(r)@).1),
    {
        let ghost s0 = r@;
        let pts = read_u64(r)?;
        let flags = read_u8(r)?;
        let len = read_u32(r)?;
        if len > MAX_FRAME_BYTES {
            return Err(
                ProtoError::LengthExceeded {
                    kind: "frame",
                    len: len as u64,
                    max: MAX_FRAME_BYTES as u64,
                },
            );
        }
        Ok(
            FrameHeader {
                pts,
                keyframe: flags & FLAG_KEYFRAME != 0,
                config: flags & FLAG_CONFIG != 0,
                len,
            },
        )
    }
}

/// Reads a whole frame (header and payload) into a new `Vec<u8>`.
///
/// The payload is bounded by [`MAX_FRAME_BYTES`] in [`FrameHeader::read`], so
/// the buffer is never oversized.
pub fn read_frame(r: &mut &[u8]) -> (res: Result<(FrameHeader, Vec<u8>), ProtoError>)
    ensures
        view_result(res) == decode_frame(old(r)@).0,
        final(r)@ == old(r)@.skip(decode_frame(old(r)@).1),
{
    let ghost s0 = r@;
    let header = FrameHeader::read(r)?;
    match take_front(r, header.len as usize) {
        None => Err(ProtoError::Io(unexpected_eof())),
        Some(b) => {
            assert(b@ =~= s0.subrange(13, 13 + header.len));
            Ok((header, slice_to_vec(b)))
        },
    }
}

/// Writes a whole frame (header and payload). A header whose length differs
/// from the payload's is refused before anything is written.
pub fn write_frame(w: &mut Vec<u8>, header: &FrameHeader, payload: &[u8]) -> (res: Result<
    (),
    ProtoError,
>)
    ensures
        header.len != payload@.len() ==> final(w)@ == old(w)@ && view_result(res) == Err::<
            (),
            ProtoErrorView,
        >(
            ProtoErrorView::FrameLenMismatch {
                header_len: header.len,
                payload_len: payload@.len() as usize,
            },
        ),
        header.len == payload@.len() && header.len > MAX_FRAME_BYTES ==> final(w)@ == old(w)@
            && view_result(res) == Err::<(), ProtoErrorView>(
            ProtoErrorView::LengthExceeded {
                kind: "frame"@,
                len: header.len as u64,
                max: MAX_FRAME_BYTES as u64,
            },
        ),
        header.len == payload@.len() && header.len <= MAX_FRAME_BYTES ==> res is Ok && final(w)@
            == old(w)@ + frame_header_wire(*header) + payload@,
{
    if header.len as usize != payload.len() {
        return Err(
            ProtoError::FrameLenMismatch { header_len: header.len, payload_len: payload.len() },
        );
    }
    header.write(w)?;
    w.extend_from_slice(payload);
    Ok(())
}

} // verus!

verus! {

proof fn lemma_flags_bits(h: FrameHeader)
    ensures
        (frame_flags(h) & 1u8 != 0) == h.keyframe,
        (frame_flags(h) & 2u8 != 0) == h.config,
{
    let k = h.keyframe;
    let c = h.config;
    let f = frame_flags(h);
    assert((f & 1u8 != 0) == k && (f & 2u8 != 0) == c) by (bit_vector)
        requires
            f == ((if k {
                1u8
            } else {
                0u8
            }) + (if c {
                2u8
            } else {
                0u8
            })) as u8,
    ;
}

proof fn lemma_header_bytes(h: FrameHeader)
    ensures
        ({
            let p = u64_be(h.pts);
            let l = u32_be(h.len);
            frame_header_wire(h) == seq![
                p[0],
                p[1],
                p[2],
                p[3],
                p[4],
                p[5],
                p[6],
                p[7],
                frame_flags(h),
                l[0],
                l[1],
                l[2],
                l[3],
            ]
        }),
{
    let p = u64_be(h.pts);
    let l = u32_be(h.len);
    assert(frame_header_wire(h) =~= seq![
        p[0],
        p[1],
        p[2],
        p[3],
        p[4],
        p[5],
        p[6],
        p[7],
        frame_flags(h),
        l[0],
        l[1],
        l[2],
        l[3],
    ]);
}

proof fn lemma_header_fields(h: FrameHeader, s: Seq<u8>)
    requires
        s.len() >= 13,
        s.take(13) == frame_header_wire(h),
    ensures
        be_u64(s) == h.pts,
        s[8] == frame_flags(h),
        be_u32(s.skip(9)) == h.len,
{
    let w = frame_header_wire(h);
    lemma_header_bytes(h);
    assert(s.take(8) =~= u64_be(h.pts)) by {
        assert(forall|i: int| 0 <= i < 8 ==> s[i] == #[trigger] w[i]);
    }
    assert(s.skip(9).take(4) =~= u32_be(h.len)) by {
        assert(forall|i: int| 9 <= i < 13 ==> s[i] == #[trigger] w[i]);
    }
    assert(s[8] == w[8]);
    lemma_u64_round_trip(h.pts);
    lemma_u32_round_trip(h.len);
    assert(be_u64(s) == be_u64(s.take(8)));
    assert(be_u32(s.skip(9)) == be_u32(s.skip(9).take(4)));
}

/// Reading back a written header gives the same header and consumes its 13
/// bytes, whatever follows them.
pub proof fn frame_header_round_trip(h: FrameHeader, rest: Seq<u8>)
    requires
        h.len <= MAX_FRAME_BYTES,
    ensures
        decode_frame_header(frame_header_wire(h) + rest) == (
        Ok::<FrameHeader, ProtoErrorView>(h),
        13int,
        ),
{
    let s = frame_header_wire(h) + rest;
    assert(s.take(13) =~= frame_header_wire(h));
    lemma_header_fields(h, s);
    lemma_flags_bits(h);
}

/// A header that was read is written back as the bytes read, once the
/// reserved bits of its flags (2 to 7) are cleared.
pub proof fn frame_header_parse_serialize(s: Seq<u8>)
    ensures
        decode_frame_header(s).0 matches Ok(h) ==> frame_header_wire(h) == s.take(13).update(
            8,
            s[8] & 3u8,
        ),
{
    if let Ok(h) = decode_frame_header(s).0 {
        lemma_be_u64_round_trip(s);
        lemma_be_u32_round_trip(s.skip(9));
        let b = s[8];
        assert(frame_flags(h) == b & 3u8) by {
            let k = h.keyframe;
            let c = h.config;
            assert(((if k {
                1u8
            } else {
                0u8
            }) + (if c {
                2u8
            } else {
                0u8
            })) as u8 == b & 3u8) by (bit_vector)
                requires
                    k == (b & 1u8 != 0),
                    c == (b & 2u8 != 0),
            ;
        }
        assert(frame_header_wire(h) =~= s.take(13).update(8, s[8] & 3u8));
    }
}

/// The reserved bits of the flags never change what a header reads as.
pub proof fn frame_reserved_bits_ignored(s: Seq<u8>, b: u8)
    requires
        s.len() >= 13,
        b & 3u8 == s[8] & 3u8,
    ensures
        decode_frame_header(s.update(8, b)) == decode_frame_header(s),
{
    let t = s.update(8, b);
    let a = s[8];
    assert((b & 1u8 != 0) == (a & 1u8 != 0) && (b & 2u8 != 0) == (a & 2u8 != 0)) by (bit_vector)
        requires
            b & 3u8 == a & 3u8,
    ;
    assert(t.take(8) =~= s.take(8));
    assert(be_u64(t) == be_u64(t.take(8)));
    assert(be_u64(s) == be_u64(s.take(8)));
    assert(t.skip(9) =~= s.skip(9));
}

/// A header cut short anywhere reads as an I/O failure.
pub proof fn frame_header_truncated(h: FrameHeader, k: int)
    requires
        0 <= k < 13,
    ensures
        decode_frame_header(frame_header_wire(h).take(k)) == truncated::<FrameHeader>(
            frame_header_wire(h).take(k),
        ),
{
}

/// Reading back a written frame gives the same header and payload and
/// consumes exactly the bytes written, whatever follows them.
pub proof fn frame_round_trip(h: FrameHeader, payload: Seq<u8>, rest: Seq<u8>)
    requires
        h.len == payload.len(),
        h.len <= MAX_FRAME_BYTES,
    ensures
        decode_frame(frame_header_wire(h) + payload + rest) == (
        Ok::<(FrameHeader, Seq<u8>), ProtoErrorView>((h, payload)),
        13 + h.len,
        ),
{
    let s = frame_header_wire(h) + payload + rest;
    assert(s =~= frame_header_wire(h) + (payload + rest));
    frame_header_round_trip(h, payload + rest);
    assert(s.subrange(13, 13 + h.len) =~= payload);
}

/// A frame cut short anywhere, header or payload, reads as an I/O failure.
pub proof fn frame_truncated(h: FrameHeader, payload: Seq<u8>, k: int)
    requires
        h.len == payload.len(),
        h.len <= MAX_FRAME_BYTES,
        0 <= k < 13 + payload.len(),
    ensures
        decode_frame((frame_header_wire(h) + payload).take(k)) == truncated::<
            (FrameHeader, Seq<u8>),
        >((frame_header_wire(h) + payload).take(k)),
{
    let w = frame_header_wire(h) + payload;
    let s = w.take(k);
    if k >= 13 {
        assert(s =~= frame_header_wire(h) + s.skip(13));
        frame_header_round_trip(h, s.skip(13));
    } else {
        assert(s =~= frame_header_wire(h).take(k));
        frame_header_truncated(h, k);
    }
}

/// The flags byte of a header: bit 0 says keyframe, bit 1 says
/// configuration, the other bits are clear.
pub open spec fn wire_flags(keyframe: bool, config: bool) -> u8 {
    if keyframe && config {
        3u8
    } else if keyframe {
        1u8
    } else if config {
        2u8
    } else {
        0u8
    }
}

/// A header travels as its `pts` in 8 big-endian bytes, the flags byte, then
/// the payload length in 4 big-endian bytes; reading those 13 bytes gives
/// the header back.
pub proof fn frame_header_layout(pts: u64, keyframe: bool, config: bool, len: u32, rest: Seq<u8>)
    requires
        len <= MAX_FRAME_BYTES,
    ensures
        frame_header_wire(FrameHeader { pts, keyframe, config, len }) == u64_be(pts) + seq![
            wire_flags(keyframe, config),
        ] + u32_be(len),
        decode_frame_header(u64_be(pts) + seq![wire_flags(keyframe, config)] + u32_be(len) + rest)
            == (Ok::<FrameHeader, ProtoErrorView>(FrameHeader { pts, keyframe, config, len }), 13int),
{
    let h = FrameHeader { pts, keyframe, config, len };
    assert(frame_header_wire(h) =~= u64_be(pts) + seq![wire_flags(keyframe, config)] + u32_be(len));
    frame_header_round_trip(h, rest);
}

/// A length above [`MAX_FRAME_BYTES`] is refused whatever the other bytes
/// say, after reading the 13 bytes of the header.
pub proof fn oversized_frame_refused(pts: u64, flags: u8, len: u32, rest: Seq<u8>)
    requires
        len > MAX_FRAME_BYTES,
    ensures
        decode_frame_header(u64_be(pts) + seq![flags] + u32_be(len) + rest) == (
        Err::<FrameHeader, ProtoErrorView>(
            ProtoErrorView::LengthExceeded {
                kind: "frame"@,
                len: len as u64,
                max: MAX_FRAME_BYTES as u64,
            },
        ),
        13int,
        ),
{
    let s = u64_be(pts) + seq![flags] + u32_be(len) + rest;
    assert(s.skip(9).take(4) =~= u32_be(len));
    lemma_u32_round_trip(len);
    assert(be_u32(s.skip(9)) == be_u32(s.skip(9).take(4)));
}

} // verus!
