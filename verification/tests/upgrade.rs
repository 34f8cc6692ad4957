use loqui::error::ProtocolError;
use loqui::upgrade::{Codec, UpgradeFrame};

const REQUEST: &[u8; 77] =
    b"GET /_rpc HTTP/1.1\r\nHost: 127.0.0.1 \r\nUpgrade: loqui\r\nConnection: upgrade\r\n\r\n";
const RESPONSE: &[u8; 73] =
    b"HTTP/1.1 101 Switching Protocols\r\nUpgrade: loqui\r\nConnection: Upgrade\r\n\r\n";

fn test_round_trip(frame_bytes: &[u8], expected_frame: UpgradeFrame) {
    let mut codec = Codec::new(500);
    let buf = &mut Vec::with_capacity(1024);

    // Incomplete Payload
    buf.extend_from_slice(&frame_bytes[..frame_bytes.len() - 1]);
    assert_eq!(codec.decode(buf).unwrap(), None);

    // Complete Frame
    buf.extend_from_slice(&frame_bytes[frame_bytes.len() - 1..]);
    assert_eq!(codec.decode(buf).unwrap().unwrap(), expected_frame);

    // Buffer has been consumed
    assert!(buf.is_empty());
    assert_eq!(codec.decode(buf).unwrap(), None);

    // Encode a frame to make sure it can round-trip.
    let _ = codec.encode(expected_frame, buf);
    assert_eq!(&buf[..], frame_bytes);
}

#[test]
fn it_round_trips_request() {
    test_round_trip(REQUEST, UpgradeFrame::Request)
}

#[test]
fn it_round_trips_response() {
    test_round_trip(RESPONSE, UpgradeFrame::Response)
}

#[test]
fn upgrade_is_matched_case_insensitively() {
    let mut codec = Codec::new(500);
    let mut buf = b"Get / HTTP/1.1\r\nUPGRADE: loqui\r\n\r\n".to_vec();
    assert_eq!(codec.decode(&mut buf).unwrap(), Some(UpgradeFrame::Request));
    assert!(buf.is_empty());
}

#[test]
fn head_without_upgrade_is_refused() {
    let mut codec = Codec::new(500);
    let mut buf = b"GET / HTTP/1.1\r\nHost: X\r\n\r\n".to_vec();
    assert_eq!(
        codec.decode(&mut buf),
        Err(ProtocolError::InvalidPayload {
            reason: "get / http/1.1\r\nhost: x\r\n\r\n".to_string()
        })
    );
    assert!(buf.is_empty());
}

#[test]
fn oversized_head_is_refused() {
    let mut codec = Codec::new(10);
    let mut buf = REQUEST.to_vec();
    assert_eq!(
        codec.decode(&mut buf),
        Err(ProtocolError::PayloadTooLarge { actual: 77, max: 10 })
    );
    assert_eq!(buf.len(), 77);
}

#[test]
fn head_that_is_not_utf8_waits() {
    let mut codec = Codec::new(500);
    let mut buf = b"\xffupgrade\r\n\r\n".to_vec();
    assert_eq!(codec.decode(&mut buf).unwrap(), None);
    assert_eq!(buf.len(), 12);
}
