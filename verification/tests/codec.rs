use loqui::codec::Codec;
use loqui::error::ProtocolError;
use loqui::frames::{Error as ErrorFrame, GoAway, Hello, HelloAck, LoquiFrame, Ping, Pong, Push, Request, Response};

fn test_frame_round_trip<F: Into<LoquiFrame>>(frame_bytes: &[u8], expected_frame: F) {
    let expected_frame = expected_frame.into();
    let mut codec = Codec::new(500);
    let buf = &mut Vec::with_capacity(1024);

    // Incomplete Payload
    buf.extend_from_slice(&frame_bytes[..frame_bytes.len() - 1]);
    assert_eq!(codec.decode(buf).unwrap(), None);

    // Complete Frame
    buf.extend_from_slice(&frame_bytes[frame_bytes.len() - 1..]);
    assert_eq!(codec.decode(buf).unwrap().unwrap(), expected_frame);

    // Buffer has been consumed
    assert!(buf.is_empty());
    assert_eq!(codec.decode(buf).unwrap(), None);

    // Encode a frame to make sure it can round-trip.
    let _ = codec.encode(expected_frame, buf);
    assert_eq!(&buf[..], frame_bytes);
}

#[test]
fn test_hello() {
    test_frame_round_trip(
        &b"\x01\x0f\x01\x00\x00\x00\x16msgpack,json|gzip,lzma"[..],
        Hello {
            flags: 15,
            version: 1,
            encodings: vec!["msgpack".into(), "json".into()],
            compressions: vec!["gzip".into(), "lzma".into()],
        },
    );
}

#[test]
fn test_helloack() {
    test_frame_round_trip(
        &b"\x02\x0f\x00\x00}\x00\x00\x00\x00\x0cmsgpack|gzip"[..],
        HelloAck {
            flags: 15,
            ping_interval_ms: 32000,
            encoding: "msgpack".into(),
            compression: Some("gzip".into()),
        },
    );
}

#[test]
fn test_ping() {
    test_frame_round_trip(
        &b"\x03\x0f\x00\x00\x00\x01"[..],
        Ping {
            flags: 15,
            sequence_id: 1,
        },
    );
}

#[test]
fn test_pong() {
    test_frame_round_trip(
        &b"\x04\x0f\x00\x00\x00\x01"[..],
        Pong {
            flags: 15,
            sequence_id: 1,
        },
    );
}

#[test]
fn test_request() {
    test_frame_round_trip(
        &b"\x05\x1f\x00\x00\x00\x01\x00\x00\x00\x15hello this is my data"[..],
        Request {
            flags: 31,
            sequence_id: 1,
            payload: b"hello this is my data".to_vec(),
        },
    );
}

#[test]
fn test_response() {
    test_frame_round_trip(
        &b"\x06\x1f\x00\x00\x0b\xb8\x00\x00\x00\x15hello this is my data"[..],
        Response {
            flags: 31,
            sequence_id: 3000,
            payload: b"hello this is my data".to_vec(),
        },
    );
}

#[test]
fn test_push() {
    test_frame_round_trip(
        &b"\x07[\x00\x00\x00\x15hello this is my push"[..],
        Push {
            flags: 91,
            payload: b"hello this is my push".to_vec(),
        },
    );
}

#[test]
fn test_goaway() {
    test_frame_round_trip(
        &b"\x08\x97#)\x00\x00\x00\x0bgo away pls"[..],
        GoAway {
            flags: 151,
            code: 9001,
            payload: b"go away pls".to_vec(),
        },
    );
}

#[test]
fn test_error() {
    test_frame_round_trip(
        &b"\t\x97\x00\r\xbc\x04\x05\xa4\x00\x00\x00\x08errrror!"[..],
        ErrorFrame {
            flags: 151,
            code: 1444,
            sequence_id: 900100,
            payload: b"errrror!".to_vec(),
        },
    );
}

#[test]
fn decode_rejects_unknown_opcode() {
    let mut codec = Codec::new(500);
    let mut buf = vec![0u8, 1, 2];
    assert_eq!(
        codec.decode(&mut buf),
        Err(ProtocolError::InvalidOpcode { opcode: 0 })
    );
    assert_eq!(buf, vec![0u8, 1, 2]);
    let mut buf = vec![10u8];
    assert_eq!(
        codec.decode(&mut buf),
        Err(ProtocolError::InvalidOpcode { opcode: 10 })
    );
}

#[test]
fn decode_rejects_oversized_payload() {
    let mut codec = Codec::new(4);
    let mut buf = b"\x07\x00\x00\x00\x00\x05hello".to_vec();
    assert_eq!(
        codec.decode(&mut buf),
        Err(ProtocolError::PayloadTooLarge { actual: 5, max: 4 })
    );
    assert_eq!(buf.len(), 11);
}

#[test]
fn decode_rejects_hello_that_is_not_utf8() {
    let mut codec = Codec::new(500);
    let mut buf = b"\x01\x00\x01\x00\x00\x00\x03\xff|a".to_vec();
    assert_eq!(
        codec.decode(&mut buf),
        Err(ProtocolError::InvalidPayload {
            reason: "Failed to decode as string".to_string()
        })
    );
    // The frame's bytes are consumed even though its payload is malformed.
    assert!(buf.is_empty());
}

#[test]
fn decode_rejects_hello_without_two_settings() {
    let mut codec = Codec::new(500);
    let mut buf = b"\x01\x00\x01\x00\x00\x00\x03a|b|c".to_vec();
    buf[6] = 5;
    assert_eq!(
        codec.decode(&mut buf),
        Err(ProtocolError::InvalidPayload {
            reason: "Expected exactly two settings.".to_string()
        })
    );
    let mut buf = b"\x02\x00\x00\x00\x00\x01\x00\x00\x00\x04json".to_vec();
    assert_eq!(
        codec.decode(&mut buf),
        Err(ProtocolError::InvalidPayload {
            reason: "Expected exactly two settings.".to_string()
        })
    );
}

#[test]
fn decode_reads_hello_settings_like_split_terminator() {
    let mut codec = Codec::new(500);
    // A trailing comma leaves no empty value; an inner empty value stays.
    let mut buf = b"\x01\x00\x01\x00\x00\x00\x06a,,b,|".to_vec();
    let frame = codec.decode(&mut buf).unwrap().unwrap();
    assert_eq!(
        frame,
        LoquiFrame::Hello(Hello {
            flags: 0,
            version: 1,
            encodings: vec!["a".into(), "".into(), "b".into()],
            compressions: vec![],
        })
    );
}

#[test]
fn decode_reads_hello_ack_without_compression() {
    let mut codec = Codec::new(500);
    let mut buf = b"\x02\x01\x00\x00\x13\x88\x00\x00\x00\x05json|".to_vec();
    let frame = codec.decode(&mut buf).unwrap().unwrap();
    assert_eq!(
        frame,
        LoquiFrame::HelloAck(HelloAck {
            flags: 1,
            ping_interval_ms: 5000,
            encoding: "json".into(),
            compression: None,
        })
    );
}

#[test]
fn decode_keeps_bytes_after_a_frame() {
    let mut codec = Codec::new(500);
    let mut buf = b"\x03\x00\x00\x00\x00\x07\x04".to_vec();
    let frame = codec.decode(&mut buf).unwrap().unwrap();
    assert_eq!(frame, LoquiFrame::Ping(Ping { flags: 0, sequence_id: 7 }));
    assert_eq!(buf, vec![4u8]);
    assert_eq!(codec.decode(&mut buf).unwrap(), None);
    assert_eq!(buf, vec![4u8]);
}

#[test]
fn unicode_settings_round_trip() {
    let mut codec = Codec::new(500);
    let hello = Hello {
        flags: 2,
        version: 1,
        encodings: vec!["ünï".into(), "日本".into()],
        compressions: vec!["zstd".into()],
    };
    let mut buf = Vec::new();
    codec.encode(LoquiFrame::Hello(hello.clone()), &mut buf).unwrap();
    assert_eq!(codec.decode(&mut buf).unwrap(), Some(LoquiFrame::Hello(hello)));
    assert!(buf.is_empty());
}

#[test]
fn codec_keeps_max_as_u32() {
    assert_eq!(Codec::new(500).max_payload_size_in_bytes, 500);
    assert_eq!(Codec::new((1u64 << 32) + 7).max_payload_size_in_bytes, 7);
}

#[test]
fn frame_opcodes() {
    assert_eq!(LoquiFrame::Ping(Ping { flags: 0, sequence_id: 0 }).opcode(), 3);
    assert_eq!(
        LoquiFrame::GoAway(GoAway { flags: 0, code: 0, payload: vec![] }).opcode(),
        8
    );
    assert_eq!(
        LoquiFrame::Hello(Hello { flags: 0, version: 1, encodings: vec![], compressions: vec![] }).opcode(),
        1
    );
}
