//! Messages of the control channel.

use vstd::prelude::*;
use vstd::utf8::encode_utf8;

use crate::error::{truncated, view_result, Decoded, ProtoError, ProtoErrorView};
use crate::gear::{gear_rank, gear_result, Gear};
use crate::wire::{
    be_u16, be_u32, be_u64, decode_string, lemma_be_u16_round_trip, lemma_be_u32_round_trip,
    lemma_be_u64_round_trip, lemma_skip_skip, lemma_string_parse_serialize, lemma_string_round_trip,
    lemma_string_truncated, lemma_u16_round_trip, lemma_u32_round_trip, lemma_u64_round_trip,
    read_string, read_u16, read_u32,
    read_u64, read_u8, string_wire, u16_be, u32_be, u64_be, write_string, write_u16, write_u32,
    write_u64, write_u8, MAX_STRING_BYTES,
};

verus! {

broadcast use lemma_skip_skip;

// Client tags (high bit clear).
pub const TAG_SET_GEAR: u8 = 0x01;

pub const TAG_SET_BITRATE: u8 = 0x02;

pub const TAG_PING: u8 = 0x03;

pub const TAG_STOP: u8 = 0x04;

// Server tags (high bit 0x80 set).
pub const TAG_PONG: u8 = 0x81;

pub const TAG_TELEMETRY: u8 = 0x82;

pub const TAG_GEAR_CHANGED: u8 = 0x83;

pub const TAG_ERROR: u8 = 0x84;

/// Message from the client to the server on the control channel.
#[derive(Debug, Clone, PartialEq, Eq)]
pub enum ClientMessage {
    /// Ask for a gear change.
    SetGear(Gear),
    /// Force a given bitrate (bits/s).
    SetBitrate(u32),
    /// Latency probe; the server answers `Pong` with the same `seq`.
    Ping(u32),
    /// Ask to close the session.
    Stop,
}

impl View for ClientMessage {
    type V = ClientMessage;

    open spec fn view(&self) -> ClientMessage {
        *self
    }
}

/// Telemetry that the server reports periodically.
#[derive(Debug, Clone, Copy, PartialEq, Eq, Structural)]
pub struct Telemetry {
    pub encoded_frames: u64,
    pub dropped_frames: u64,
    pub bitrate: u32,
}

/// Message from the server to the client on the control channel.
#[derive(Debug, Clone, PartialEq, Eq)]
pub enum ServerMessage {
    /// Answer to a `Ping`, with the same `seq`.
    Pong(u32),
    /// Encoding telemetry.
    Telemetry(Telemetry),
    /// Confirmation of the effective gear after a change.
    GearChanged(Gear),
    /// Error reported by the server.
    Error { code: u16, message: String },
}

/// A server message with its error text as characters.
pub enum ServerMessageView {
    Pong(u32),
    Telemetry(Telemetry),
    GearChanged(Gear),
    Error { code: u16, message: Seq<char> },
}

impl View for ServerMessage {
    type V = ServerMessageView;

    open spec fn view(&self) -> ServerMessageView {
        match self {
            ServerMessage::Pong(s) => ServerMessageView::Pong(*s),
            ServerMessage::Telemetry(t) => ServerMessageView::Telemetry(*t),
            ServerMessage::GearChanged(g) => ServerMessageView::GearChanged(*g),
            ServerMessage::Error { code, message } => ServerMessageView::Error {
                code: *code,
                message: message@,
            },
        }
    }
}

/// A client message on the wire: its tag, then its body.
pub open spec fn client_message_wire(m: ClientMessage) -> Seq<u8> {
    match m {
        ClientMessage::SetGear(g) => seq![TAG_SET_GEAR, gear_rank(g) as u8],
        ClientMessage::SetBitrate(b) => seq![TAG_SET_BITRATE] + u32_be(b),
        ClientMessage::Ping(s) => seq![TAG_PING] + u32_be(s),
        ClientMessage::Stop => seq![TAG_STOP],
    }
}

/// Decoding of a client message from the front of `s`.
pub open spec fn decode_client_message(s: Seq<u8>) -> Decoded<ClientMessage> {
    if s.len() < 1 {
        truncated(s)
    } else if s[0] == TAG_SET_GEAR {
        if s.len() < 2 {
            truncated(s)
        } else {
            match gear_result(s[1]) {
                Ok(g) => (Ok(ClientMessage::SetGear(g)), 2),
                Err(e) => (Err(e), 2),
            }
        }
    } else if s[0] == TAG_SET_BITRATE {
        if s.len() < 5 {
            truncated(s)
        } else {
            (Ok(ClientMessage::SetBitrate(be_u32(s.skip(1)))), 5)
        }
    } else if s[0] == TAG_PING {
        if s.len() < 5 {
            truncated(s)
        } else {
            (Ok(ClientMessage::Ping(be_u32(s.skip(1)))), 5)
        }
    } else if s[0] == TAG_STOP {
        (Ok(ClientMessage::Stop), 1)
    } else {
        (Err(ProtoErrorView::UnknownDiscriminant { kind: "ClientMessage"@, value: s[0] }), 1)
    }
}

/// The part of a server message that precedes its error text (all of it for
/// the messages that carry none).
pub open spec fn server_message_head(m: ServerMessageView) -> Seq<u8> {
    match m {
        ServerMessageView::Pong(s) => seq![TAG_PONG] + u32_be(s),
        ServerMessageView::Telemetry(t) => seq![TAG_TELEMETRY] + u64_be(t.encoded_frames) + u64_be(
            t.dropped_frames,
        ) + u32_be(t.bitrate),
        ServerMessageView::GearChanged(g) => seq![TAG_GEAR_CHANGED, gear_rank(g) as u8],
        ServerMessageView::Error { code, message } => seq![TAG_ERROR] + u16_be(code),
    }
}

/// A server message on the wire: its tag, then its body.
pub open spec fn server_message_wire(m: ServerMessageView) -> Seq<u8> {
    match m {
        ServerMessageView::Error { code, message } => server_message_head(m) + string_wire(
            encode_utf8(message),
        ),
        _ => server_message_head(m),
    }
}

/// A server message can be written unless its error text is too long.
pub open spec fn server_message_fits(m: ServerMessageView) -> bool {
    match m {
        ServerMessageView::Error { code, message } => encode_utf8(message).len()
            <= MAX_STRING_BYTES,
        _ => true,
    }
}

/// Decoding of a server message from the front of `s`.
pub open spec fn decode_server_message(s: Seq<u8>) -> Decoded<ServerMessageView> {
    if s.len() < 1 {
        truncated(s)
    } else if s[0] == TAG_PONG {
        if s.len() < 5 {
            truncated(s)
        } else {
            (Ok(ServerMessageView::Pong(be_u32(s.skip(1)))), 5)
        }
    } else if s[0] == TAG_TELEMETRY {
        if s.len() < 21 {
            truncated(s)
        } else {
            (
                Ok(
                    ServerMessageView::Telemetry(
                        Telemetry {
                            encoded_frames: be_u64(s.skip(1)),
                            dropped_frames: be_u64(s.skip(9)),
                            bitrate: be_u32(s.skip(17)),
                        },
                    ),
                ),
                21,
            )
        }
    } else if s[0] == TAG_GEAR_CHANGED {
        if s.len() < 2 {
            truncated(s)
        } else {
            match gear_result(s[1]) {
                Ok(g) => (Ok(ServerMessageView::GearChanged(g)), 2),
                Err(e) => (Err(e), 2),
            }
        }
    } else if s[0] == TAG_ERROR {
        if s.len() < 3 {
            truncated(s)
        } else {
            let text = decode_string(s.skip(3));
            match text.0 {
                Ok(message) => (Ok(ServerMessageView::Error { code: be_u16(s.skip(1)), message }), 3
                    + text.1),
                Err(e) => (Err(e), 3 + text.1),
            }
        }
    } else {
        (Err(ProtoErrorView::UnknownDiscriminant { kind: "ServerMessage"@, value: s[0] }), 1)
    }
}

impl ClientMessage {
    pub fn write(&self, w: &mut Vec<u8>) -> (res: Result<(), ProtoError>)
        ensures
            res is Ok,
            final(w)@ == old(w)@ + client_message_wire(*self),
    {
        match self {
            ClientMessage::SetGear(g) => {
                let _ = write_u8(w, TAG_SET_GEAR);
                let _ = write_u8(w, g.to_u8());
            },
            ClientMessage::SetBitrate(b) => {
                let _ = write_u8(w, TAG_SET_BITRATE);
                let _ = write_u32(w, *b);
            },
            ClientMessage::Ping(seq) => {
                let _ = write_u8(w, TAG_PING);
                let _ = write_u32(w, *seq);
            },
            ClientMessage::Stop => {
                let _ = write_u8(w, TAG_STOP);
            },
        }
        assert(w@ =~= old(w)@ + client_message_wire(*self));
        Ok(())
    }

    pub fn read(r: &mut &[u8]) -> (res: Result<ClientMessage, ProtoError>)
        ensures
            view_result(res) == decode_client_message(old(r)@).0,
            final(r)@ == old(r)@.skip(decode_client_message(old(r)@).1),
    {
        let tag = read_u8(r)?;
        if tag == TAG_SET_GEAR {
            let v = read_u8(r)?;
            Ok(ClientMessage::SetGear(Gear::from_u8(v)?))
        } else if tag == TAG_SET_BITRATE {
            Ok(ClientMessage::SetBitrate(read_u32(r)?))
        } else if tag == TAG_PING {
            Ok(ClientMessage::Ping(read_u32(r)?))
        } else if tag == TAG_STOP {
            Ok(ClientMessage::Stop)
        } else {
            Err(ProtoError::UnknownDiscriminant { kind: "ClientMessage", value: tag })
        }
    }
}

impl ServerMessage {
    /// Writes the message. An error text longer than a string can carry fails
    /// after the tag and the code are written.
    pub fn write(&self, w: &mut Vec<u8>) -> (res: Result<(), ProtoError>)
        ensures
            server_message_fits(self@) ==> res is Ok && final(w)@ == old(w)@ + server_message_wire(
                self@,
            ),
            !server_message_fits(self@) ==> final(w)@ == old(w)@ + server_message_head(self@)
                && res is Err,
            self@ matches ServerMessageView::Error { code, message } ==> (!server_message_fits(
                self@,
            ) ==> view_result(res) == Err::<(), ProtoErrorView>(
                ProtoErrorView::LengthExceeded {
                    kind: "string"@,
                    len: encode_utf8(message).len() as u64,
                    max: MAX_STRING_BYTES as u64,
                },
            )),
    {
        match self {
            ServerMessage::Pong(seq) => {
                let _ = write_u8(w, TAG_PONG);
                let _ = write_u32(w, *seq);
            },
            ServerMessage::Telemetry(t) => {
                let _ = write_u8(w, TAG_TELEMETRY);
                let _ = write_u64(w, t.encoded_frames);
                let _ = write_u64(w, t.dropped_frames);
                let _ = write_u32(w, t.bitrate);
            },
            ServerMessage::GearChanged(g) => {
                let _ = write_u8(w, TAG_GEAR_CHANGED);
                let _ = write_u8(w, g.to_u8());
            },
            ServerMessage::Error { code, message } => {
                let _ = write_u8(w, TAG_ERROR);
                let _ = write_u16(w, *code);
                assert(w@ =~= old(w)@ + server_message_head(self@));
                let r = write_string(w, message.as_str());
                proof {
                    if r is Ok {
                        assert(w@ =~= old(w)@ + server_message_wire(self@));
                    }
                }
                return r;
            },
        }
        assert(w@ =~= old(w)@ + server_message_wire(self@));
        Ok(())
    }

    pub fn read(r: &mut &[u8]) -> (res: Result<ServerMessage, ProtoError>)
        ensures
            view_result(res) == decode_server_message(old(r)@).0,
            final(r)@ == old(r)@.skip(decode_server_message(old(r)@).1),
    {
        let ghost s0 = r@;
        let tag = read_u8(r)?;
        if tag == TAG_PONG {
            Ok(ServerMessage::Pong(read_u32(r)?))
        } else if tag == TAG_TELEMETRY {
            let encoded_frames = read_u64(r)?;
            let dropped_frames = read_u64(r)?;
            let bitrate = read_u32(r)?;
            Ok(ServerMessage::Telemetry(Telemetry { encoded_frames, dropped_frames, bitrate }))
        } else if tag == TAG_GEAR_CHANGED {
            let v = read_u8(r)?;
            Ok(ServerMessage::GearChanged(Gear::from_u8(v)?))
        } else if tag == TAG_ERROR {
            let code = read_u16(r)?;
            assert(r@ == s0.skip(3));
            let message = read_string(r)?;
            Ok(ServerMessage::Error { code, message })
        } else {
            Err(ProtoError::UnknownDiscriminant { kind: "ServerMessage", value: tag })
        }
    }
}

} // verus!

verus! {

proof fn lemma_gear_wire(g: Gear)
    ensures
        gear_result(gear_rank(g) as u8) == Ok::<Gear, ProtoErrorView>(g),
{
}

/// Reading back a written client message gives the same message and consumes
/// exactly the bytes written, whatever follows them.
pub proof fn client_message_round_trip(m: ClientMessage, rest: Seq<u8>)
    ensures
        decode_client_message(client_message_wire(m) + rest) == (
        Ok::<ClientMessage, ProtoErrorView>(m),
        client_message_wire(m).len() as int,
        ),
{
    let s = client_message_wire(m) + rest;
    match m {
        ClientMessage::SetGear(g) => {
            lemma_gear_wire(g);
        },
        ClientMessage::SetBitrate(b) => {
            assert(s.skip(1).take(4) =~= u32_be(b));
            lemma_u32_round_trip(b);
            assert(be_u32(s.skip(1)) == be_u32(s.skip(1).take(4)));
        },
        ClientMessage::Ping(q) => {
            assert(s.skip(1).take(4) =~= u32_be(q));
            lemma_u32_round_trip(q);
            assert(be_u32(s.skip(1)) == be_u32(s.skip(1).take(4)));
        },
        ClientMessage::Stop => {},
    }
}

/// A client message that was read is written back as exactly the bytes read.
pub proof fn client_message_parse_serialize(s: Seq<u8>)
    ensures
        decode_client_message(s).0 matches Ok(m) ==> client_message_wire(m) == s.take(
            decode_client_message(s).1,
        ),
{
    if let Ok(m) = decode_client_message(s).0 {
        match m {
            ClientMessage::SetGear(g) => {
                assert(client_message_wire(m) =~= s.take(2));
            },
            ClientMessage::SetBitrate(b) => {
                lemma_be_u32_round_trip(s.skip(1));
                assert(client_message_wire(m) =~= s.take(5));
            },
            ClientMessage::Ping(q) => {
                lemma_be_u32_round_trip(s.skip(1));
                assert(client_message_wire(m) =~= s.take(5));
            },
            ClientMessage::Stop => {
                assert(client_message_wire(m) =~= s.take(1));
            },
        }
    }
}

/// A client message cut short anywhere reads as an I/O failure.
pub proof fn client_message_truncated(m: ClientMessage, k: int)
    requires
        0 <= k < client_message_wire(m).len(),
    ensures
        decode_client_message(client_message_wire(m).take(k)) == truncated::<ClientMessage>(
            client_message_wire(m).take(k),
        ),
{
}

/// Client tags have the high bit clear; see [`server_tags_have_high_bit`].
pub proof fn client_tags_lack_high_bit(m: ClientMessage)
    ensures
        client_message_wire(m)[0] < 0x80,
{
}

/// Server tags have the high bit (`0x80`) set, which tells the two directions
/// apart in any capture.
pub proof fn server_tags_have_high_bit(m: ServerMessageView)
    ensures
        server_message_wire(m)[0] >= 0x80,
{
}

/// Reading back a written server message gives the same message and consumes
/// exactly the bytes written, whatever follows them.
pub proof fn server_message_round_trip(m: ServerMessageView, rest: Seq<u8>)
    requires
        server_message_fits(m),
    ensures
        decode_server_message(server_message_wire(m) + rest) == (
        Ok::<ServerMessageView, ProtoErrorView>(m),
        server_message_wire(m).len() as int,
        ),
{
    let s = server_message_wire(m) + rest;
    match m {
        ServerMessageView::Pong(q) => {
            assert(s.skip(1).take(4) =~= u32_be(q));
            lemma_u32_round_trip(q);
            assert(be_u32(s.skip(1)) == be_u32(s.skip(1).take(4)));
        },
        ServerMessageView::Telemetry(t) => {
            assert(s.skip(1).take(8) =~= u64_be(t.encoded_frames));
            assert(s.skip(9).take(8) =~= u64_be(t.dropped_frames));
            assert(s.skip(17).take(4) =~= u32_be(t.bitrate));
            lemma_u64_round_trip(t.encoded_frames);
            lemma_u64_round_trip(t.dropped_frames);
            lemma_u32_round_trip(t.bitrate);
            assert(be_u64(s.skip(1)) == be_u64(s.skip(1).take(8)));
            assert(be_u64(s.skip(9)) == be_u64(s.skip(9).take(8)));
            assert(be_u32(s.skip(17)) == be_u32(s.skip(17).take(4)));
        },
        ServerMessageView::GearChanged(g) => {
            lemma_gear_wire(g);
        },
        ServerMessageView::Error { code, message } => {
            assert(s.skip(1).take(2) =~= u16_be(code));
            lemma_u16_round_trip(code);
            assert(be_u16(s.skip(1)) == be_u16(s.skip(1).take(2)));
            assert(s.skip(3) =~= string_wire(encode_utf8(message)) + rest);
            lemma_string_round_trip(message, rest);
        },
    }
}

/// A server message that was read is written back as exactly the bytes read.
pub proof fn server_message_parse_serialize(s: Seq<u8>)
    ensures
        decode_server_message(s).0 matches Ok(m) ==> server_message_wire(m) == s.take(
            decode_server_message(s).1,
        ),
{
    if let Ok(m) = decode_server_message(s).0 {
        match m {
            ServerMessageView::Pong(q) => {
                lemma_be_u32_round_trip(s.skip(1));
                assert(server_message_wire(m) =~= s.take(5));
            },
            ServerMessageView::Telemetry(t) => {
                lemma_be_u64_round_trip(s.skip(1));
                lemma_be_u64_round_trip(s.skip(9));
                lemma_be_u32_round_trip(s.skip(17));
                assert(server_message_wire(m) =~= s.take(21));
            },
            ServerMessageView::GearChanged(g) => {
                assert(server_message_wire(m) =~= s.take(2));
            },
            ServerMessageView::Error { code, message } => {
                lemma_be_u16_round_trip(s.skip(1));
                lemma_string_parse_serialize(s.skip(3));
                let n = decode_server_message(s).1;
                assert(string_wire(encode_utf8(message)) =~= s.skip(3).take(n - 3));
                assert(server_message_wire(m) =~= s.take(n));
            },
        }
    }
}

/// A server message cut short anywhere reads as an I/O failure.
pub proof fn server_message_truncated(m: ServerMessageView, k: int)
    requires
        server_message_fits(m),
        0 <= k < server_message_wire(m).len(),
    ensures
        decode_server_message(server_message_wire(m).take(k)) == truncated::<ServerMessageView>(
            server_message_wire(m).take(k),
        ),
{
    if let ServerMessageView::Error { code, message } = m {
        let s = server_message_wire(m).take(k);
        if k >= 3 {
            assert(s.skip(3) =~= string_wire(encode_utf8(message)).take(k - 3));
            lemma_string_truncated(message, k - 3);
        }
    }
}

/// The byte of each gear on the wire: 0 for `Low`, 1 for `Mid`, 2 for `High`.
pub open spec fn wire_gear(g: Gear) -> u8 {
    match g {
        Gear::Low => 0u8,
        Gear::Mid => 1u8,
        Gear::High => 2u8,
    }
}

/// `Telemetry` travels as the tag `0x82`, then `encoded_frames` and
/// `dropped_frames` in 8 big-endian bytes each, then `bitrate` in 4; reading
/// those bytes gives the counters back in that order.
pub proof fn telemetry_layout(a: u64, b: u64, c: u32, rest: Seq<u8>)
    ensures
        server_message_wire(
            ServerMessageView::Telemetry(Telemetry { encoded_frames: a, dropped_frames: b, bitrate: c }),
        ) == seq![0x82u8] + u64_be(a) + u64_be(b) + u32_be(c),
        decode_server_message(seq![0x82u8] + u64_be(a) + u64_be(b) + u32_be(c) + rest) == (
        Ok::<ServerMessageView, ProtoErrorView>(
            ServerMessageView::Telemetry(Telemetry { encoded_frames: a, dropped_frames: b, bitrate: c }),
        ),
        21int,
        ),
{
    let m = ServerMessageView::Telemetry(
        Telemetry { encoded_frames: a, dropped_frames: b, bitrate: c },
    );
    assert(server_message_wire(m) =~= seq![0x82u8] + u64_be(a) + u64_be(b) + u32_be(c));
    server_message_round_trip(m, rest);
}

/// `Pong` travels as the tag `0x81`, then its sequence number in 4
/// big-endian bytes.
pub proof fn pong_layout(q: u32, rest: Seq<u8>)
    ensures
        server_message_wire(ServerMessageView::Pong(q)) == seq![0x81u8] + u32_be(q),
        decode_server_message(seq![0x81u8] + u32_be(q) + rest) == (
        Ok::<ServerMessageView, ProtoErrorView>(ServerMessageView::Pong(q)),
        5int,
        ),
{
    assert(server_message_wire(ServerMessageView::Pong(q)) =~= seq![0x81u8] + u32_be(q));
    server_message_round_trip(ServerMessageView::Pong(q), rest);
}

/// `GearChanged` travels as the tag `0x83`, then the gear's byte.
pub proof fn gear_changed_layout(g: Gear, rest: Seq<u8>)
    ensures
        server_message_wire(ServerMessageView::GearChanged(g)) == seq![0x83u8, wire_gear(g)],
        decode_server_message(seq![0x83u8, wire_gear(g)] + rest) == (
        Ok::<ServerMessageView, ProtoErrorView>(ServerMessageView::GearChanged(g)),
        2int,
        ),
{
    assert(server_message_wire(ServerMessageView::GearChanged(g)) =~= seq![0x83u8, wire_gear(g)]);
    server_message_round_trip(ServerMessageView::GearChanged(g), rest);
}

/// `Error` travels as the tag `0x84`, then its code in 2 big-endian bytes,
/// then its text: the length of its UTF-8 bytes in 2 big-endian bytes, then
/// those bytes.
pub proof fn server_error_layout(code: u16, text: Seq<char>, rest: Seq<u8>)
    requires
        encode_utf8(text).len() <= MAX_STRING_BYTES,
    ensures
        server_message_wire(ServerMessageView::Error { code, message: text }) == seq![0x84u8]
            + u16_be(code) + u16_be(encode_utf8(text).len() as u16) + encode_utf8(text),
        decode_server_message(
            seq![0x84u8] + u16_be(code) + u16_be(encode_utf8(text).len() as u16) + encode_utf8(text)
                + rest,
        ) == (
        Ok::<ServerMessageView, ProtoErrorView>(ServerMessageView::Error { code, message: text }),
        5 + encode_utf8(text).len() as int,
        ),
{
    let m = ServerMessageView::Error { code, message: text };
    assert(server_message_wire(m) =~= seq![0x84u8] + u16_be(code) + u16_be(
        encode_utf8(text).len() as u16,
    ) + encode_utf8(text));
    server_message_round_trip(m, rest);
}

/// The client messages travel as their tag, then their body: `SetGear` as
/// `0x01` and the gear's byte, `SetBitrate` as `0x02` and 4 big-endian
/// bytes, `Ping` as `0x03` and 4 big-endian bytes, `Stop` as `0x04` alone;
/// reading those bytes gives the message back.
pub proof fn client_message_layout(g: Gear, v: u32, rest: Seq<u8>)
    ensures
        client_message_wire(ClientMessage::SetGear(g)) == seq![0x01u8, wire_gear(g)],
        client_message_wire(ClientMessage::SetBitrate(v)) == seq![0x02u8] + u32_be(v),
        client_message_wire(ClientMessage::Ping(v)) == seq![0x03u8] + u32_be(v),
        client_message_wire(ClientMessage::Stop) == seq![0x04u8],
        decode_client_message(seq![0x01u8, wire_gear(g)] + rest).0 == Ok::<
            ClientMessage,
            ProtoErrorView,
        >(ClientMessage::SetGear(g)),
        decode_client_message(seq![0x02u8] + u32_be(v) + rest).0 == Ok::<
            ClientMessage,
            ProtoErrorView,
        >(ClientMessage::SetBitrate(v)),
        decode_client_message(seq![0x03u8] + u32_be(v) + rest).0 == Ok::<
            ClientMessage,
            ProtoErrorView,
        >(ClientMessage::Ping(v)),
        decode_client_message(seq![0x04u8] + rest).0 == Ok::<ClientMessage, ProtoErrorView>(
            ClientMessage::Stop,
        ),
{
    assert(client_message_wire(ClientMessage::SetGear(g)) =~= seq![0x01u8, wire_gear(g)]);
    assert(client_message_wire(ClientMessage::SetBitrate(v)) =~= seq![0x02u8] + u32_be(v));
    assert(client_message_wire(ClientMessage::Ping(v)) =~= seq![0x03u8] + u32_be(v));
    assert(client_message_wire(ClientMessage::Stop) =~= seq![0x04u8]);
    client_message_round_trip(ClientMessage::SetGear(g), rest);
    client_message_round_trip(ClientMessage::SetBitrate(v), rest);
    client_message_round_trip(ClientMessage::Ping(v), rest);
    client_message_round_trip(ClientMessage::Stop, rest);
}

} // verus!
