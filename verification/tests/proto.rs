use skry::control::{TAG_ERROR, TAG_PONG};
use skry::wire::{
    read_string, read_u16, read_u32, read_u64, read_u8, write_string, write_u16, write_u32,
    write_u64, write_u8,
};
use skry::{
    read_frame, write_frame, ClientMessage, Codec, FrameHeader, Gear, Handshake, ProtoError,
    ServerMessage, StreamType, Telemetry, MAGIC, MAX_FRAME_BYTES, PROTOCOL_VERSION,
};

#[test]
fn handshake_round_trip() {
    let hs = Handshake {
        codec: Codec::H265,
        width: 1440,
        height: 3120,
        device_name: "SM-S928B".to_string(),
    };
    let mut buf = Vec::new();
    hs.write(&mut buf).unwrap();
    let back = Handshake::read(&mut &buf[..]).unwrap();
    assert_eq!(hs, back);
}

#[test]
fn handshake_rejects_bad_magic() {
    let mut buf = b"XXXX".to_vec();
    buf.extend_from_slice(&PROTOCOL_VERSION.to_be_bytes());
    let err = Handshake::read(&mut &buf[..]).unwrap_err();
    assert!(matches!(err, ProtoError::BadMagic(_)));
}

#[test]
fn handshake_rejects_version_mismatch() {
    let mut buf = MAGIC.to_vec();
    buf.extend_from_slice(&(PROTOCOL_VERSION + 1).to_be_bytes());
    let err = Handshake::read(&mut &buf[..]).unwrap_err();
    assert!(matches!(
        err,
        ProtoError::VersionMismatch { expected, found }
            if expected == PROTOCOL_VERSION && found == PROTOCOL_VERSION + 1
    ));
}

#[test]
fn frame_round_trip() {
    let header = FrameHeader {
        pts: 1_234_567,
        keyframe: true,
        config: false,
        len: 4,
    };
    let payload = vec![0xDE, 0xAD, 0xBE, 0xEF];
    let mut buf = Vec::new();
    write_frame(&mut buf, &header, &payload).unwrap();
    let (back_header, back_payload) = read_frame(&mut &buf[..]).unwrap();
    assert_eq!(header, back_header);
    assert_eq!(payload, back_payload);
}

#[test]
fn frame_config_flag_preserved() {
    let header = FrameHeader {
        pts: 0,
        keyframe: false,
        config: true,
        len: 0,
    };
    let mut buf = Vec::new();
    write_frame(&mut buf, &header, &[]).unwrap();
    let (back, _) = read_frame(&mut &buf[..]).unwrap();
    assert!(back.config);
    assert!(!back.keyframe);
}

#[test]
fn write_frame_rejects_len_mismatch() {
    let header = FrameHeader {
        pts: 0,
        keyframe: false,
        config: false,
        len: 10,
    };
    let mut buf = Vec::new();
    let err = write_frame(&mut buf, &header, &[1, 2, 3]).unwrap_err();
    assert!(matches!(
        err,
        ProtoError::FrameLenMismatch {
            header_len: 10,
            payload_len: 3
        }
    ));
    assert!(buf.is_empty(), "no debe escribir nada ante el error");
}

#[test]
fn frame_reserved_flag_bits_ignored() {
    let mut buf = Vec::new();
    buf.extend_from_slice(&7u64.to_be_bytes());
    buf.push(0xFD);
    buf.extend_from_slice(&0u32.to_be_bytes());
    let h = FrameHeader::read(&mut &buf[..]).unwrap();
    assert!(h.keyframe);
    assert!(!h.config);
    assert_eq!(h.len, 0);
}

#[test]
fn frame_rejects_oversized_len() {
    let mut buf = Vec::new();
    buf.extend_from_slice(&0u64.to_be_bytes());
    buf.push(0);
    buf.extend_from_slice(&(MAX_FRAME_BYTES + 1).to_be_bytes());
    let err = FrameHeader::read(&mut &buf[..]).unwrap_err();
    assert!(matches!(err, ProtoError::LengthExceeded { .. }));
}

#[test]
fn client_messages_round_trip() {
    let msgs = [
        ClientMessage::SetGear(Gear::High),
        ClientMessage::SetBitrate(8_000_000),
        ClientMessage::Ping(42),
        ClientMessage::Stop,
    ];
    for m in msgs {
        let mut buf = Vec::new();
        m.write(&mut buf).unwrap();
        let back = ClientMessage::read(&mut &buf[..]).unwrap();
        assert_eq!(m, back);
    }
}

#[test]
fn server_messages_round_trip() {
    let msgs = [
        ServerMessage::Pong(42),
        ServerMessage::Telemetry(Telemetry {
            encoded_frames: 1000,
            dropped_frames: 3,
            bitrate: 6_000_000,
        }),
        ServerMessage::GearChanged(Gear::Low),
        ServerMessage::Error {
            code: 7,
            message: "encoder no disponible".to_string(),
        },
    ];
    for m in msgs {
        let mut buf = Vec::new();
        m.write(&mut buf).unwrap();
        let back = ServerMessage::read(&mut &buf[..]).unwrap();
        assert_eq!(m, back);
    }
}

#[test]
fn unknown_tag_is_protocol_error() {
    let err = ClientMessage::read(&mut &[0xFFu8][..]).unwrap_err();
    assert!(matches!(err, ProtoError::UnknownDiscriminant { .. }));
}

#[test]
fn gear_shifts() {
    assert_eq!(Gear::Low.upshift(), Some(Gear::Mid));
    assert_eq!(Gear::High.upshift(), None);
    assert_eq!(Gear::Low.downshift(), None);
    assert_eq!(Gear::High.downshift(), Some(Gear::Mid));
    assert_eq!(Gear::from_fps(60), Gear::Low);
    assert_eq!(Gear::from_fps(144), Gear::High);
    assert_eq!(Gear::from_fps(90), Gear::Mid);
}

#[test]
fn server_pong_byte_layout() {
    let mut buf = Vec::new();
    ServerMessage::Pong(0x0102_0304).write(&mut buf).unwrap();
    assert_eq!(buf, vec![0x81, 0x01, 0x02, 0x03, 0x04]);
}

#[test]
fn stream_type_round_trip() {
    for s in [StreamType::Video, StreamType::Control] {
        let mut buf = Vec::new();
        s.write(&mut buf).unwrap();
        assert_eq!(buf.len(), 1);
        assert_eq!(StreamType::read(&mut &buf[..]).unwrap(), s);
    }
    assert!(StreamType::from_u8(0xFF).is_err());
}

#[test]
fn server_error_empty_message_round_trip() {
    let m = ServerMessage::Error {
        code: 0,
        message: String::new(),
    };
    let mut buf = Vec::new();
    m.write(&mut buf).unwrap();
    assert_eq!(ServerMessage::read(&mut &buf[..]).unwrap(), m);
}

#[test]
fn codec_round_trip() {
    for c in [Codec::H264, Codec::H265] {
        assert_eq!(Codec::from_u8(c.to_u8()).unwrap(), c);
    }
    assert!(Codec::from_u8(99).is_err());
}

// ---- Further cases: exact layouts, each error, truncation, laws on values.

#[test]
fn handshake_exact_bytes() {
    let hs = Handshake {
        codec: Codec::H264,
        width: 0x0102,
        height: 0x0304,
        device_name: "ab".to_string(),
    };
    let mut buf = Vec::new();
    hs.write(&mut buf).unwrap();
    assert_eq!(
        buf,
        vec![0x53, 0x4B, 0x52, 0x59, 0x00, 0x01, 0x00, 0x01, 0x02, 0x03, 0x04, 0x00, 0x02, b'a', b'b']
    );
}

#[test]
fn handshake_unknown_codec() {
    let mut buf = MAGIC.to_vec();
    buf.extend_from_slice(&PROTOCOL_VERSION.to_be_bytes());
    buf.push(7);
    let mut r = &buf[..];
    let err = Handshake::read(&mut r).unwrap_err();
    assert!(matches!(err, ProtoError::UnknownDiscriminant { kind: "Codec", value: 7 }));
    assert!(r.is_empty());
}

#[test]
fn handshake_truncated_is_io() {
    let hs = Handshake {
        codec: Codec::H265,
        width: 10,
        height: 20,
        device_name: "dev".to_string(),
    };
    let mut buf = Vec::new();
    hs.write(&mut buf).unwrap();
    for k in 0..buf.len() {
        let mut r = &buf[..k];
        assert!(matches!(Handshake::read(&mut r), Err(ProtoError::Io(_))));
        assert!(r.is_empty());
    }
}

#[test]
fn handshake_leaves_the_rest() {
    let hs = Handshake {
        codec: Codec::H264,
        width: 1,
        height: 2,
        device_name: "x".to_string(),
    };
    let mut buf = Vec::new();
    hs.write(&mut buf).unwrap();
    buf.extend_from_slice(&[9, 8, 7]);
    let mut r = &buf[..];
    assert_eq!(Handshake::read(&mut r).unwrap(), hs);
    assert_eq!(r, &[9, 8, 7]);
}

#[test]
fn handshake_long_name_refused_after_head() {
    let hs = Handshake {
        codec: Codec::H264,
        width: 1,
        height: 2,
        device_name: "a".repeat(70_000),
    };
    let mut buf = Vec::new();
    let err = hs.write(&mut buf).unwrap_err();
    assert!(matches!(
        err,
        ProtoError::LengthExceeded { kind: "string", len: 70_000, max: 65_535 }
    ));
    assert_eq!(buf.len(), 11);
}

#[test]
fn invalid_utf8_is_refused() {
    let mut buf = Vec::new();
    buf.push(TAG_ERROR);
    buf.extend_from_slice(&[0, 1, 0, 2, 0xC3, 0x28]);
    let err = ServerMessage::read(&mut &buf[..]).unwrap_err();
    assert!(matches!(err, ProtoError::InvalidUtf8));
}

#[test]
fn utf8_text_round_trips() {
    let m = ServerMessage::Error {
        code: 3,
        message: "cámara ocupada ✓".to_string(),
    };
    let mut buf = Vec::new();
    m.write(&mut buf).unwrap();
    assert_eq!(ServerMessage::read(&mut &buf[..]).unwrap(), m);
}

#[test]
fn write_frame_refuses_oversized_header() {
    let header = FrameHeader {
        pts: 0,
        keyframe: false,
        config: false,
        len: MAX_FRAME_BYTES + 1,
    };
    let mut buf = Vec::new();
    assert!(matches!(header.write(&mut buf), Err(ProtoError::LengthExceeded { kind: "frame", .. })));
    assert!(buf.is_empty());
}

#[test]
fn frame_header_exact_bytes() {
    let header = FrameHeader {
        pts: 0x0102_0304_0506_0708,
        keyframe: true,
        config: true,
        len: 0x0A0B_0C0D,
    };
    let mut buf = Vec::new();
    header.write(&mut buf).unwrap_err();
    let small = FrameHeader { len: 2, ..header };
    small.write(&mut buf).unwrap();
    assert_eq!(buf, vec![1, 2, 3, 4, 5, 6, 7, 8, 3, 0, 0, 0, 2]);
}

#[test]
fn truncated_payload_is_io() {
    let header = FrameHeader {
        pts: 5,
        keyframe: false,
        config: false,
        len: 3,
    };
    let mut buf = Vec::new();
    write_frame(&mut buf, &header, &[1, 2, 3]).unwrap();
    let mut r = &buf[..buf.len() - 1];
    assert!(matches!(read_frame(&mut r), Err(ProtoError::Io(_))));
    assert!(r.is_empty());
}

#[test]
fn client_tags_and_bodies() {
    let mut buf = Vec::new();
    ClientMessage::SetGear(Gear::Mid).write(&mut buf).unwrap();
    ClientMessage::SetBitrate(0x0102_0304).write(&mut buf).unwrap();
    ClientMessage::Stop.write(&mut buf).unwrap();
    assert_eq!(buf, vec![0x01, 0x01, 0x02, 0x01, 0x02, 0x03, 0x04, 0x04]);
    assert!(buf[0] < 0x80);
}

#[test]
fn client_unknown_gear() {
    let err = ClientMessage::read(&mut &[0x01u8, 0x05][..]).unwrap_err();
    assert!(matches!(err, ProtoError::UnknownDiscriminant { kind: "Gear", value: 5 }));
}

#[test]
fn server_tags_have_high_bit() {
    let msgs = [
        ServerMessage::Pong(1),
        ServerMessage::Telemetry(Telemetry { encoded_frames: 1, dropped_frames: 2, bitrate: 3 }),
        ServerMessage::GearChanged(Gear::High),
        ServerMessage::Error { code: 1, message: "x".to_string() },
    ];
    for m in msgs {
        let mut buf = Vec::new();
        m.write(&mut buf).unwrap();
        assert!(buf[0] >= 0x80);
    }
    assert_eq!(TAG_PONG, 0x81);
}

#[test]
fn server_unknown_tag() {
    let err = ServerMessage::read(&mut &[0x01u8][..]).unwrap_err();
    assert!(matches!(err, ProtoError::UnknownDiscriminant { kind: "ServerMessage", value: 1 }));
}

#[test]
fn stream_type_bytes() {
    assert_eq!(StreamType::Video.to_u8(), 0);
    assert_eq!(StreamType::Control.to_u8(), 1);
    assert!(StreamType::read(&mut &[][..]).is_err());
}

#[test]
fn wire_primitives_big_endian() {
    let mut buf = Vec::new();
    write_u8(&mut buf, 0xAB).unwrap();
    write_u16(&mut buf, 0x0102).unwrap();
    write_u32(&mut buf, 0x0304_0506).unwrap();
    write_u64(&mut buf, 0x0708_090A_0B0C_0D0E).unwrap();
    write_string(&mut buf, "hi").unwrap();
    assert_eq!(
        buf,
        vec![0xAB, 1, 2, 3, 4, 5, 6, 7, 8, 9, 10, 11, 12, 13, 14, 0, 2, b'h', b'i']
    );
    let mut r = &buf[..];
    assert_eq!(read_u8(&mut r).unwrap(), 0xAB);
    assert_eq!(read_u16(&mut r).unwrap(), 0x0102);
    assert_eq!(read_u32(&mut r).unwrap(), 0x0304_0506);
    assert_eq!(read_u64(&mut r).unwrap(), 0x0708_090A_0B0C_0D0E);
    assert_eq!(read_string(&mut r).unwrap(), "hi");
    assert!(r.is_empty());
    assert!(matches!(read_u32(&mut &[1u8, 2][..]), Err(ProtoError::Io(_))));
}

#[test]
fn gear_values() {
    assert_eq!(Gear::Low.target_fps(), 60);
    assert_eq!(Gear::Mid.target_fps(), 120);
    assert_eq!(Gear::High.target_fps(), 144);
    assert_eq!(Gear::from_fps(70), Gear::Mid);
    assert_eq!(Gear::from_fps(0), Gear::Low);
    assert_eq!(Gear::from_fps(1000), Gear::High);
    for g in [Gear::Low, Gear::Mid, Gear::High] {
        assert_eq!(Gear::from_u8(g.to_u8()).unwrap(), g);
        assert_eq!(Gear::from_fps(g.target_fps()), g);
        if let Some(h) = g.upshift() {
            assert_eq!(h.downshift(), Some(g));
        }
    }
    assert!(matches!(Gear::from_u8(3), Err(ProtoError::UnknownDiscriminant { kind: "Gear", value: 3 })));
}

#[test]
fn codec_names() {
    assert_eq!(Codec::H264.as_str(), "h264");
    assert_eq!(Codec::H265.as_str(), "h265");
}

#[test]
fn proto_error_messages() {
    assert_eq!(
        ProtoError::BadMagic(*b"XXXX").to_string(),
        "magic de handshake invalido: [58, 58, 58, 58] (se esperaba \"SKRY\")"
    );
    assert_eq!(
        ProtoError::VersionMismatch { expected: 1, found: 2 }.to_string(),
        "version de protocolo incompatible: cliente habla v1, server habla v2"
    );
    assert_eq!(
        ProtoError::LengthExceeded { kind: "frame", len: 16777217, max: 16777216 }.to_string(),
        "longitud de frame fuera de rango: 16777217 (max 16777216)"
    );
    assert_eq!(
        ProtoError::FrameLenMismatch { header_len: 10, payload_len: 3 }.to_string(),
        "header.len (10) no coincide con el payload (3)"
    );
    assert_eq!(ProtoError::InvalidUtf8.to_string(), "cadena UTF-8 invalida");
    assert_eq!(
        ProtoError::UnknownDiscriminant { kind: "Gear", value: 9 }.to_string(),
        "valor desconocido para Gear: 9"
    );
    assert!(ProtoError::Io(std::io::Error::new(std::io::ErrorKind::Other, "x"))
        .to_string()
        .starts_with("error de I/O: "));
}

#[test]
fn conversions_follow_the_wire_values() {
    assert_eq!(u8::from(Codec::H265), 1);
    assert_eq!(Codec::try_from(0u8).unwrap(), Codec::H264);
    assert!(matches!(Codec::try_from(7u8), Err(ProtoError::UnknownDiscriminant { kind: "Codec", value: 7 })));
    assert_eq!(u8::from(Gear::High), 2);
    assert_eq!(Gear::try_from(1u8).unwrap(), Gear::Mid);
    assert!(matches!(Gear::try_from(3u8), Err(ProtoError::UnknownDiscriminant { kind: "Gear", value: 3 })));
    let e: ProtoError = std::io::Error::new(std::io::ErrorKind::Other, "x").into();
    assert!(matches!(e, ProtoError::Io(_)));
    let a: skry::AdbError = std::io::Error::new(std::io::ErrorKind::Other, "x").into();
    assert!(matches!(a, skry::AdbError::Io(_)));
    assert_eq!(e.source().map(|io| io.kind()), Some(std::io::ErrorKind::Other));
    assert!(ProtoError::InvalidUtf8.source().is_none());
    assert!(a.source().is_some());
    assert!(skry::AdbError::NoDevice.source().is_none());
}
