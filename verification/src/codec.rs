//! Video codec negotiated between client and server.

use vstd::prelude::*;

use crate::error::{view_result, ProtoError, ProtoErrorView};

verus! {

/// Video codec negotiated between client and server.
#[derive(Debug, Clone, Copy, PartialEq, Eq, Structural, Hash)]
pub enum Codec {
    H264,
    H265,
}

impl View for Codec {
    type V = Codec;

    open spec fn view(&self) -> Codec {
        *self
    }
}

/// Wire value of a codec.
pub open spec fn codec_byte(c: Codec) -> u8 {
    match c {
        Codec::H264 => 0,
        Codec::H265 => 1,
    }
}

/// The codec that a wire value names, if any.
pub open spec fn codec_of(v: u8) -> Option<Codec> {
    if v == 0 {
        Some(Codec::H264)
    } else if v == 1 {
        Some(Codec::H265)
    } else {
        None
    }
}

/// Outcome of reading a codec's wire value.
pub open spec fn codec_result(v: u8) -> Result<Codec, ProtoErrorView> {
    match codec_of(v) {
        Some(c) => Ok(c),
        None => Err(ProtoErrorView::UnknownDiscriminant { kind: "Codec"@, value: v }),
    }
}

/// Reading a codec's wire value, as a value.
pub open spec fn codec_read(v: u8) -> Result<Codec, ProtoError> {
    match codec_of(v) {
        Some(c) => Ok(c),
        None => Err(ProtoError::UnknownDiscriminant { kind: "Codec", value: v }),
    }
}

impl Codec {
    pub fn to_u8(self) -> (r: u8)
        ensures
            r == codec_byte(self),
    {
        match self {
            Codec::H264 => 0,
            Codec::H265 => 1,
        }
    }

    /// The codec of a wire value; any value but 0 and 1 is an unknown discriminant.
    pub fn from_u8(v: u8) -> (r: Result<Self, ProtoError>)
        ensures
            view_result(r) == codec_result(v),
            r == codec_read(v),
    {
        match v {
            0 => Ok(Codec::H264),
            1 => Ok(Codec::H265),
            _ => Err(ProtoError::UnknownDiscriminant { kind: "Codec", value: v }),
        }
    }

    /// Name of the codec as FFmpeg and the command line know it.
    pub fn as_str(self) -> (r: &'static str)
        ensures
            self == Codec::H264 ==> r@ == "h264"@,
            self == Codec::H265 ==> r@ == "h265"@,
    {
        match self {
            Codec::H264 => "h264",
            Codec::H265 => "h265",
        }
    }
}

impl From<Codec> for u8 {
    fn from(c: Codec) -> (r: u8) {
        c.to_u8()
    }
}

impl vstd::std_specs::convert::FromSpecImpl<Codec> for u8 {
    open spec fn obeys_from_spec() -> bool {
        true
    }

    open spec fn from_spec(c: Codec) -> u8 {
        codec_byte(c)
    }
}

impl TryFrom<u8> for Codec {
    type Error = ProtoError;

    fn try_from(v: u8) -> (r: Result<Codec, ProtoError>) {
        Codec::from_u8(v)
    }
}

impl vstd::std_specs::convert::TryFromSpecImpl<u8> for Codec {
    open spec fn obeys_try_from_spec() -> bool {
        true
    }

    open spec fn try_from_spec(v: u8) -> Result<Codec, ProtoError> {
        codec_read(v)
    }
}

} // verus!

verus! {

/// A codec's wire value reads back as that codec, and a value that reads as a
/// codec is that codec's wire value.
pub proof fn codec_wire_round_trip(c: Codec, v: u8)
    ensures
        codec_of(codec_byte(c)) == Some(c),
        codec_of(v) matches Some(d) ==> codec_byte(d) == v,
{
}

/// The codecs as the protocol numbers them: H.264 is 0, H.265 is 1; no
/// other byte names a codec.
pub proof fn codec_table(v: u8)
    ensures
        codec_byte(Codec::H264) == 0,
        codec_byte(Codec::H265) == 1,
        codec_of(0) == Some(Codec::H264),
        codec_of(1) == Some(Codec::H265),
        v > 1 ==> codec_of(v) is None,
{
}

} // verus!
