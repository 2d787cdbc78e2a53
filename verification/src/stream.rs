//! Channel type, declared by the client as the first byte of each socket.

use vstd::prelude::*;

use crate::error::{truncated, view_result, Decoded, ProtoError, ProtoErrorView};
use crate::wire::{decode_u8, read_u8, write_u8};

verus! {

/// Channel type, declared by the client as the **first byte** of each socket
/// as soon as it connects.
///
/// The server routes each connection by this byte rather than by the order
/// of acceptance, so pairing the channels holds on any transport.
#[derive(Debug, Clone, Copy, PartialEq, Eq, Structural)]
pub enum StreamType {
    /// Video channel (server to client). The handshake follows this byte.
    Video,
    /// Control channel (both ways).
    Control,
}

impl View for StreamType {
    type V = StreamType;

    open spec fn view(&self) -> StreamType {
        *self
    }
}

/// Wire value of a channel type.
pub open spec fn stream_byte(s: StreamType) -> u8 {
    match s {
        StreamType::Video => 0,
        StreamType::Control => 1,
    }
}

/// The channel type that a wire value names, if any.
pub open spec fn stream_of(v: u8) -> Option<StreamType> {
    if v == 0 {
        Some(StreamType::Video)
    } else if v == 1 {
        Some(StreamType::Control)
    } else {
        None
    }
}

/// Outcome of reading a channel type's wire value.
pub open spec fn stream_result(v: u8) -> Result<StreamType, ProtoErrorView> {
    match stream_of(v) {
        Some(t) => Ok(t),
        None => Err(ProtoErrorView::UnknownDiscriminant { kind: "StreamType"@, value: v }),
    }
}

/// Decoding of a channel type from the front of `s`.
pub open spec fn decode_stream_type(s: Seq<u8>) -> Decoded<StreamType> {
    if s.len() < 1 {
        truncated(s)
    } else {
        (stream_result(s[0]), 1)
    }
}

impl StreamType {
    pub fn to_u8(self) -> (r: u8)
        ensures
            r == stream_byte(self),
    {
        match self {
            StreamType::Video => 0x00,
            StreamType::Control => 0x01,
        }
    }

    /// The channel type of a wire value; any value but 0 and 1 is unknown.
    pub fn from_u8(v: u8) -> (r: Result<Self, ProtoError>)
        ensures
            view_result(r) == stream_result(v),
    {
        match v {
            0x00 => Ok(StreamType::Video),
            0x01 => Ok(StreamType::Control),
            _ => Err(ProtoError::UnknownDiscriminant { kind: "StreamType", value: v }),
        }
    }

    pub fn write(self, w: &mut Vec<u8>) -> (res: Result<(), ProtoError>)
        ensures
            res is Ok,
            final(w)@ == old(w)@.push(stream_byte(self)),
    {
        write_u8(w, self.to_u8())
    }

    pub fn read(r: &mut &[u8]) -> (res: Result<StreamType, ProtoError>)
        ensures
            view_result(res) == decode_stream_type(old(r)@).0,
            final(r)@ == old(r)@.skip(decode_stream_type(old(r)@).1),
    {
        let v = read_u8(r)?;
        StreamType::from_u8(v)
    }
}

} // verus!

verus! {

/// A channel type's wire value reads back as that type, and a value that
/// reads as a channel type is that type's wire value.
pub proof fn stream_wire_round_trip(t: StreamType, v: u8)
    ensures
        stream_of(stream_byte(t)) == Some(t),
        stream_of(v) matches Some(u) ==> stream_byte(u) == v,
{
}

/// The channel types as the protocol numbers them: video is 0, control is
/// 1; no other byte names a channel.
pub proof fn stream_table(v: u8)
    ensures
        stream_byte(StreamType::Video) == 0,
        stream_byte(StreamType::Control) == 1,
        stream_of(0) == Some(StreamType::Video),
        stream_of(1) == Some(StreamType::Control),
        v > 1 ==> stream_of(v) is None,
{
}

} // verus!
