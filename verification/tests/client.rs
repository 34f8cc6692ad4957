use loqui::client::{
    finish_push, handle_handshake_frame, handle_handshake_hello_ack, make_hello, ClientAction, IdentityEncoder,
    ClientHandler, Encoder, InternalEvent,
};
use loqui::frames::{Error as ErrorFrame, GoAway, HelloAck, LoquiFrame, Ping, Push, Request, Response};
use loqui::handler::DelegatedFrame;
use loqui::id_sequence::IdSequence;
use loqui::loqui_error::{Failure, LoquiError};

struct BytesEncoder {}

impl Encoder for BytesEncoder {
    type Encoded = Vec<u8>;
    type Decoded = Vec<u8>;

    fn encode(&self, payload: Vec<u8>) -> Result<Vec<u8>, Failure> {
        Ok(payload)
    }

    fn decode(&self, payload: Vec<u8>) -> Result<Vec<u8>, Failure> {
        Ok(payload)
    }
}

/// An encoder that refuses everything.
struct FailingEncoder {}

impl Encoder for FailingEncoder {
    type Encoded = Vec<u8>;
    type Decoded = Vec<u8>;

    fn encode(&self, _payload: Vec<u8>) -> Result<Vec<u8>, Failure> {
        Err(Failure::Message("cannot encode".to_string()))
    }

    fn decode(&self, _payload: Vec<u8>) -> Result<Vec<u8>, Failure> {
        Err(Failure::Message("cannot decode".to_string()))
    }
}

const ENCODINGS: &[&str] = &["bytes"];

/// The waiters in these tests are plain tags.
type Handler = ClientHandler<u8>;

#[test]
fn it_handles_request_response() {
    let mut handler = Handler::new();
    let encoder = BytesEncoder {};
    let mut id_sequence = IdSequence::default();
    let waiter: u8 = 7;
    let payload = b"hello".to_vec();
    let request = handler.handle_internal_event(
        InternalEvent::Request { payload: payload.clone(), waiter, deadline: 5000 },
        &mut id_sequence,
        &encoder,
        0,
    );
    let request = match request {
        ClientAction::Send(frame) => frame,
        _ => panic!("no request"),
    };
    let result = match request {
        LoquiFrame::Request(request) => {
            let response = Response { sequence_id: request.sequence_id, flags: 0, payload: payload.clone() };
            let action = handler.handle_frame(response.into(), &encoder);
            // Nothing is sent back; the waiter is notified.
            assert!(!matches!(action, ClientAction::Send(_)));
            match action {
                ClientAction::Notify(w, result) => {
                    assert_eq!(w, waiter);
                    result
                }
                _ => panic!("waiter not notified"),
            }
        }
        _other => panic!("request not returned"),
    };
    assert_eq!(result.unwrap(), payload)
}

#[test]
fn it_handles_request_response_diff_sequence_id() {
    let mut handler = Handler::new();
    let encoder = BytesEncoder {};
    let mut id_sequence = IdSequence::default();
    let request = handler.handle_internal_event(
        InternalEvent::Request { payload: vec![], waiter: 1, deadline: 1000 },
        &mut id_sequence,
        &encoder,
        0,
    );
    assert!(matches!(request, ClientAction::Send(_)), "no request");
    let response = Response { sequence_id: id_sequence.next(), flags: 0, payload: vec![] };
    let action = handler.handle_frame(response.into(), &encoder);
    // The waiter is not notified by a response to another request...
    assert!(matches!(action, ClientAction::Nothing));
    // ...and its request is forgotten once its deadline passes, so it times out.
    handler.handle_ping(1000);
    let late = Response { sequence_id: 1, flags: 0, payload: vec![] };
    assert!(matches!(handler.handle_frame(late.into(), &encoder), ClientAction::Nothing));
}

#[test]
fn request_ids_follow_the_sequence() {
    let mut handler = Handler::new();
    let encoder = BytesEncoder {};
    let mut id_sequence = IdSequence::default();
    for expected in 1..4u32 {
        let action = handler.handle_internal_event(
            InternalEvent::Request { payload: vec![expected as u8], waiter: 0, deadline: 10 },
            &mut id_sequence,
            &encoder,
            0,
        );
        match action {
            ClientAction::Send(LoquiFrame::Request(r)) => {
                assert_eq!(r.sequence_id, expected);
                assert_eq!(r.flags, 0);
                assert_eq!(r.payload, vec![expected as u8]);
            }
            _ => panic!("request not sent"),
        }
    }
    assert_eq!(id_sequence.next(), 4);
}

#[test]
fn expired_request_is_not_sent() {
    let mut handler = Handler::new();
    let encoder = BytesEncoder {};
    let mut id_sequence = IdSequence::default();
    let action = handler.handle_internal_event(
        InternalEvent::Request { payload: vec![1], waiter: 9, deadline: 100 },
        &mut id_sequence,
        &encoder,
        100,
    );
    match action {
        ClientAction::Notify(w, Err(f)) => {
            assert_eq!(w, 9);
            assert_eq!(f, Failure::Loqui(LoquiError::RequestTimeout));
        }
        _ => panic!("expected a timeout"),
    }
    // The id was still taken.
    assert_eq!(id_sequence.next(), 2);
}

#[test]
fn request_that_fails_to_encode_notifies_its_waiter() {
    let mut handler = Handler::new();
    let encoder = FailingEncoder {};
    let mut id_sequence = IdSequence::default();
    let action = handler.handle_internal_event(
        InternalEvent::Request { payload: vec![1], waiter: 3, deadline: 100 },
        &mut id_sequence,
        &encoder,
        0,
    );
    match action {
        ClientAction::Notify(w, Err(f)) => {
            assert_eq!(w, 3);
            assert_eq!(f, Failure::Message("cannot encode".to_string()));
        }
        _ => panic!("expected the encoding error"),
    }
    // Nothing waits for a response with id 1.
    let response = Response { sequence_id: 1, flags: 0, payload: vec![] };
    assert!(matches!(handler.handle_frame(response.into(), &BytesEncoder {}), ClientAction::Nothing));
}

#[test]
fn push_is_sent_or_dropped() {
    let mut handler = Handler::new();
    let mut id_sequence = IdSequence::default();
    let action = handler.handle_internal_event(
        InternalEvent::Push { payload: b"push".to_vec() },
        &mut id_sequence,
        &BytesEncoder {},
        0,
    );
    match action {
        ClientAction::Send(LoquiFrame::Push(p)) => {
            assert_eq!(p, Push { flags: 0, payload: b"push".to_vec() });
        }
        _ => panic!("push not sent"),
    }
    // Pushes take no id.
    assert_eq!(id_sequence.next(), 1);
    let dropped = handler.handle_internal_event(
        InternalEvent::Push { payload: b"push".to_vec() },
        &mut id_sequence,
        &FailingEncoder {},
        0,
    );
    assert!(matches!(dropped, ClientAction::Nothing));
    let failed: ClientAction<u8, Vec<u8>> = finish_push(Err(Failure::InvalidUtf8));
    assert!(matches!(failed, ClientAction::Nothing));
}

#[test]
fn error_frame_fails_its_waiter_with_the_message() {
    let mut handler = Handler::new();
    let mut id_sequence = IdSequence::default();
    let _ = handler.handle_internal_event(
        InternalEvent::Request { payload: vec![], waiter: 5, deadline: 100 },
        &mut id_sequence,
        &BytesEncoder {},
        0,
    );
    let error = ErrorFrame { flags: 0, sequence_id: 1, code: 7, payload: b"\"boom\"".to_vec() };
    let action: ClientAction<u8, Vec<u8>> = handler.handle_frame(DelegatedFrame::Error(error), &BytesEncoder {});
    match action {
        ClientAction::Notify(w, Err(f)) => {
            assert_eq!(w, 5);
            assert_eq!(f, Failure::Message("\"boom\"".to_string()));
        }
        _ => panic!("waiter not failed"),
    }
}

#[test]
fn error_frame_with_invalid_utf8() {
    let mut handler = Handler::new();
    let mut id_sequence = IdSequence::default();
    let _ = handler.handle_internal_event(
        InternalEvent::Request { payload: vec![], waiter: 5, deadline: 100 },
        &mut id_sequence,
        &BytesEncoder {},
        0,
    );
    let error = ErrorFrame { flags: 0, sequence_id: 1, code: 7, payload: vec![0xff, 0xfe] };
    let action = handler.handle_error::<Vec<u8>>(error);
    match action {
        ClientAction::Notify(5, Err(f)) => assert_eq!(f, Failure::InvalidUtf8),
        _ => panic!("waiter not failed"),
    }
}

#[test]
fn client_rejects_requests_and_pushes() {
    let mut handler = Handler::new();
    let request = Request { flags: 0, sequence_id: 4, payload: vec![] };
    match handler.handle_frame(request.into(), &BytesEncoder {}) {
        ClientAction::Reject(err, id) => {
            assert_eq!(err, LoquiError::InvalidOpcode { actual: 5, expected: None });
            assert_eq!(id, 0);
        }
        _ => panic!("request not rejected"),
    }
    let push = Push { flags: 0, payload: vec![] };
    assert!(matches!(handler.handle_frame(push.into(), &BytesEncoder {}), ClientAction::Reject(_, 0)));
}

#[test]
fn sweep_keeps_requests_with_a_later_deadline() {
    let mut handler = Handler::new();
    let encoder = BytesEncoder {};
    let mut id_sequence = IdSequence::default();
    let _ = handler.handle_internal_event(
        InternalEvent::Request { payload: vec![], waiter: 1, deadline: 50 },
        &mut id_sequence,
        &encoder,
        0,
    );
    let _ = handler.handle_internal_event(
        InternalEvent::Request { payload: vec![], waiter: 2, deadline: 500 },
        &mut id_sequence,
        &encoder,
        0,
    );
    handler.handle_ping(100);
    let first = Response { sequence_id: 1, flags: 0, payload: vec![] };
    assert!(matches!(handler.handle_frame(first.into(), &encoder), ClientAction::Nothing));
    let second = Response { sequence_id: 2, flags: 0, payload: vec![9] };
    match handler.handle_frame(second.into(), &encoder) {
        ClientAction::Notify(2, Ok(payload)) => assert_eq!(payload, vec![9]),
        _ => panic!("live request lost"),
    }
    // A waiter is notified once.
    let again = Response { sequence_id: 2, flags: 0, payload: vec![9] };
    assert!(matches!(handler.handle_frame(again.into(), &encoder), ClientAction::Nothing));
}

#[test]
fn hello_offers_the_client_encodings() {
    let hello = make_hello(&["msgpack", "json"]);
    assert_eq!(hello.flags, 0);
    assert_eq!(hello.version, 1);
    assert_eq!(hello.encodings, vec!["msgpack".to_string(), "json".to_string()]);
    assert!(hello.compressions.is_empty());
}

#[test]
fn hello_ack_is_checked() {
    let ack = HelloAck { flags: 0, ping_interval_ms: 5000, encoding: "bytes".into(), compression: None };
    let ready = handle_handshake_hello_ack(ack, ENCODINGS).unwrap();
    assert_eq!(ready.ping_interval_ms, 5000);
    assert_eq!(ready.transport_options.encoding, "bytes");
    assert_eq!(ready.transport_options.compression, None);

    let unknown = HelloAck { flags: 0, ping_interval_ms: 5000, encoding: "json".into(), compression: None };
    assert_eq!(handle_handshake_hello_ack(unknown, ENCODINGS), Err(LoquiError::InvalidEncoding));

    let compressed =
        HelloAck { flags: 0, ping_interval_ms: 5000, encoding: "bytes".into(), compression: Some("gzip".into()) };
    assert_eq!(handle_handshake_hello_ack(compressed, ENCODINGS), Err(LoquiError::InvalidCompression));
}

#[test]
fn client_handshake_frames() {
    let go_away = GoAway { flags: 0, code: 3, payload: vec![] };
    assert_eq!(
        handle_handshake_frame(LoquiFrame::GoAway(go_away.clone()), ENCODINGS),
        Err(LoquiError::ToldToGoAway { go_away })
    );
    assert_eq!(
        handle_handshake_frame(LoquiFrame::Ping(Ping { flags: 0, sequence_id: 1 }), ENCODINGS),
        Err(LoquiError::InvalidOpcode { actual: 3, expected: Some(2) })
    );
    let ack = HelloAck { flags: 0, ping_interval_ms: 10, encoding: "bytes".into(), compression: None };
    assert!(handle_handshake_frame(LoquiFrame::HelloAck(ack), ENCODINGS).is_ok());
}

#[test]
fn identity_encoder_sends_and_returns_payloads_unchanged() {
    let mut handler = Handler::new();
    let mut id_sequence = IdSequence::default();
    let encoder = IdentityEncoder {};
    match handler.handle_internal_event(
        InternalEvent::Request { payload: b"hello".to_vec(), waiter: 1, deadline: 10 },
        &mut id_sequence,
        &encoder,
        0,
    ) {
        ClientAction::Send(LoquiFrame::Request(r)) => {
            assert_eq!(r, Request { flags: 0, sequence_id: 1, payload: b"hello".to_vec() })
        }
        _ => panic!("request not sent"),
    }
    let response = Response { flags: 0, sequence_id: 1, payload: b"world".to_vec() };
    match handler.handle_frame(response.into(), &encoder) {
        ClientAction::Notify(1, Ok(payload)) => assert_eq!(payload, b"world".to_vec()),
        _ => panic!("waiter not notified"),
    }
}

#[test]
fn kth_request_gets_id_k_and_its_response() {
    let mut handler = Handler::new();
    let encoder = IdentityEncoder {};
    let mut id_sequence = IdSequence::default();
    for tag in 10..13u8 {
        let _ = handler.handle_internal_event(
            InternalEvent::Request { payload: vec![tag], waiter: tag, deadline: 100 },
            &mut id_sequence,
            &encoder,
            0,
        );
    }
    // A push in between takes no id.
    let _ = handler.handle_internal_event(InternalEvent::Push { payload: vec![0] }, &mut id_sequence, &encoder, 0);
    let response = Response { flags: 0, sequence_id: 2, payload: vec![7] };
    match handler.handle_frame(response.into(), &encoder) {
        ClientAction::Notify(w, Ok(payload)) => {
            assert_eq!(w, 11);
            assert_eq!(payload, vec![7]);
        }
        _ => panic!("second request's waiter not notified"),
    }
    assert_eq!(id_sequence.next(), 4);
}
