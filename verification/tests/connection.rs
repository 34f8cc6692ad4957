use loqui::error::ProtocolError;
use loqui::event_handler::{error_frame_for, Event, EventHandler, Step};
use loqui::frames::{Error as ErrorFrame, GoAway, Hello, HelloAck, LoquiFrame, Ping, Pong, Push, Request, Response};
use loqui::handler::{find_encoding, str_eq, DelegatedFrame, TransportOptions};
use loqui::id_sequence::IdSequence;
use loqui::loqui_error::{close_frame, convert_timeout_error, go_away_code, Failure, LoquiError, LoquiErrorCode};
use loqui::server::{handle_handshake_frame, handle_handshake_hello, make_response, negotiate_encoding, route_frame, ServerWork};
use loqui::{is_compressed, make_flags, Flags};

fn options() -> TransportOptions {
    TransportOptions { encoding: "msgpack", compression: None }
}

#[test]
fn flags_mark_compression() {
    assert_eq!(make_flags(true), 1);
    assert_eq!(make_flags(false), 0);
    assert!(is_compressed(make_flags(true)));
    assert!(!is_compressed(make_flags(false)));
    assert!(is_compressed(0x0f));
    assert!(!is_compressed(0x0e));
    assert_eq!(Flags::Compressed.bits(), 1);
    assert_eq!(Flags::Uncompressed.bits(), 0);
}

#[test]
fn id_sequence_counts_from_one_and_wraps() {
    let mut ids = IdSequence::default();
    assert_eq!(ids.next(), 1);
    assert_eq!(ids.next(), 2);
    assert_eq!(ids.next(), 3);
    let mut handler = EventHandler::new(options());
    for _ in 0..3 {
        handler.id_sequence().next();
    }
    assert_eq!(handler.id_sequence().next(), 4);
}

#[test]
fn find_encoding_returns_the_supported_entry() {
    assert_eq!(find_encoding("json", &["msgpack", "json"]), Some("json"));
    assert_eq!(find_encoding("bytes", &["msgpack", "json"]), None);
    assert_eq!(find_encoding("json", &[]), None);
    assert!(str_eq("abc", "abc"));
    assert!(!str_eq("abc", "abd"));
    assert!(!str_eq("abc", "ab"));
}

#[test]
fn ping_tick_pings_then_times_out() {
    let mut handler = EventHandler::new(options());
    match handler.handle_event::<()>(Event::Ping) {
        Ok(Step::Send(LoquiFrame::Ping(p))) => assert_eq!(p, Ping { flags: 0, sequence_id: 1 }),
        other => panic!("no ping: {:?}", other),
    }
    // No pong came back.
    assert!(matches!(handler.handle_event::<()>(Event::Ping), Err(LoquiError::PingTimeout)));
}

#[test]
fn pong_rearms_ping() {
    let mut handler = EventHandler::new(options());
    let _ = handler.handle_event::<()>(Event::Ping);
    let pong = Pong { flags: 0, sequence_id: 1 };
    assert!(matches!(handler.handle_event::<()>(Event::SocketReceive(LoquiFrame::Pong(pong))), Ok(Step::Nothing)));
    match handler.handle_event::<()>(Event::Ping) {
        Ok(Step::Send(LoquiFrame::Ping(p))) => assert_eq!(p.sequence_id, 2),
        other => panic!("no ping: {:?}", other),
    }
}

#[test]
fn ping_is_answered_with_pong() {
    let mut handler = EventHandler::new(options());
    let ping = Ping { flags: 3, sequence_id: 42 };
    match handler.handle_event::<()>(Event::SocketReceive(LoquiFrame::Ping(ping))) {
        Ok(Step::Send(LoquiFrame::Pong(p))) => assert_eq!(p, Pong { flags: 3, sequence_id: 42 }),
        other => panic!("no pong: {:?}", other),
    }
}

#[test]
fn frames_are_delegated_or_end_the_connection() {
    let mut handler = EventHandler::new(options());
    let request = Request { flags: 0, sequence_id: 9, payload: b"x".to_vec() };
    match handler.handle_event::<()>(Event::SocketReceive(LoquiFrame::Request(request.clone()))) {
        Ok(Step::Delegate(d)) => assert_eq!(d, DelegatedFrame::Request(request)),
        other => panic!("not delegated: {:?}", other),
    }
    let response = Response { flags: 0, sequence_id: 9, payload: b"y".to_vec() };
    match handler.handle_event::<()>(Event::SocketReceive(LoquiFrame::Response(response.clone()))) {
        Ok(Step::Delegate(d)) => assert_eq!(d, DelegatedFrame::Response(response)),
        other => panic!("not delegated: {:?}", other),
    }
    let push = Push { flags: 0, payload: b"z".to_vec() };
    match handler.handle_event::<()>(Event::SocketReceive(LoquiFrame::Push(push.clone()))) {
        Ok(Step::Delegate(d)) => assert_eq!(d, DelegatedFrame::Push(push)),
        other => panic!("not delegated: {:?}", other),
    }
    let error = ErrorFrame { flags: 0, sequence_id: 1, code: 7, payload: vec![] };
    assert!(matches!(handler.handle_event::<()>(Event::SocketReceive(LoquiFrame::Error(error))), Ok(Step::Nothing)));
    let go_away = GoAway { flags: 0, code: 0, payload: vec![] };
    match handler.handle_event::<()>(Event::SocketReceive(LoquiFrame::GoAway(go_away.clone()))) {
        Err(e) => assert_eq!(e, LoquiError::ToldToGoAway { go_away }),
        other => panic!("not told to go away: {:?}", other),
    }
    let hello = Hello { flags: 0, version: 1, encodings: vec![], compressions: vec![] };
    match handler.handle_event::<()>(Event::SocketReceive(LoquiFrame::Hello(hello))) {
        Err(e) => assert_eq!(e, LoquiError::InvalidOpcode { actual: 1, expected: None }),
        other => panic!("handshake frame accepted: {:?}", other),
    }
}

#[test]
fn internal_events_and_close() {
    let mut handler = EventHandler::new(options());
    assert!(matches!(handler.handle_event(Event::InternalEvent(17u8)), Ok(Step::Internal(17))));
    assert!(matches!(handler.handle_event::<()>(Event::Close), Err(LoquiError::ConnectionCloseRequested)));
    assert_eq!(handler.transport_options(), options());
}

#[test]
fn completed_response_is_sent() {
    let mut handler = EventHandler::new(options());
    let response = Response { flags: 0, sequence_id: 5, payload: b"ok".to_vec() };
    match handler.handle_event::<()>(Event::ResponseComplete(Ok(response.clone()))) {
        Ok(Step::Send(LoquiFrame::Response(r))) => assert_eq!(r, response),
        other => panic!("response not sent: {:?}", other),
    }
}

#[test]
fn failed_response_is_sent_as_error_frame() {
    let mut handler = EventHandler::new(options());
    match handler.handle_event::<()>(Event::ResponseComplete(Err(("boom".to_string(), 5)))) {
        Ok(Step::Send(LoquiFrame::Error(e))) => {
            assert_eq!(e, ErrorFrame { flags: 0, sequence_id: 5, code: 7, payload: b"\"boom\"".to_vec() });
        }
        other => panic!("error not sent: {:?}", other),
    }
    let frame = error_frame_for(6, "\"a\\nb\"".to_string());
    assert_eq!(frame.payload, b"\"a\\nb\"".to_vec());
    assert_eq!(frame.code, LoquiErrorCode::InternalServerError.value());
}

#[test]
fn error_codes() {
    assert_eq!(LoquiErrorCode::Normal.value(), 0);
    assert_eq!(LoquiErrorCode::InvalidOpcode.value(), 1);
    assert_eq!(LoquiErrorCode::UnsupportedVersion.value(), 2);
    assert_eq!(LoquiErrorCode::NoCommonEncoding.value(), 3);
    assert_eq!(LoquiErrorCode::InvalidEncoding.value(), 4);
    assert_eq!(LoquiErrorCode::InvalidCompression.value(), 5);
    assert_eq!(LoquiErrorCode::PingTimeout.value(), 6);
    assert_eq!(LoquiErrorCode::InternalServerError.value(), 7);
    assert_eq!(LoquiError::ConnectionCloseRequested.code(), LoquiErrorCode::Normal);
    assert_eq!(LoquiError::PingTimeout.code(), LoquiErrorCode::PingTimeout);
    assert_eq!(LoquiError::NoCommonEncoding.code(), LoquiErrorCode::NoCommonEncoding);
    assert_eq!(LoquiError::RequestTimeout.code(), LoquiErrorCode::InternalServerError);
    assert_eq!(LoquiError::UnsupportedVersion { expected: 1, actual: 2 }.code(), LoquiErrorCode::UnsupportedVersion);
}

#[test]
fn go_away_codes() {
    assert_eq!(go_away_code(None), LoquiErrorCode::Normal);
    let opcode = Failure::Protocol(ProtocolError::InvalidOpcode { opcode: 99 });
    assert_eq!(go_away_code(Some(&opcode)), LoquiErrorCode::InvalidOpcode);
    let too_large = Failure::Protocol(ProtocolError::PayloadTooLarge { actual: 10, max: 5 });
    assert_eq!(go_away_code(Some(&too_large)), LoquiErrorCode::InternalServerError);
    let timeout = Failure::Loqui(LoquiError::PingTimeout);
    assert_eq!(go_away_code(Some(&timeout)), LoquiErrorCode::PingTimeout);
    assert_eq!(go_away_code(Some(&Failure::Io { timed_out: false })), LoquiErrorCode::InternalServerError);

    let frame = close_frame(true, Some(&timeout)).unwrap();
    assert_eq!(frame, GoAway { flags: 0, code: 6, payload: vec![] });
    assert_eq!(close_frame(true, None).unwrap().code, 0);
    assert_eq!(close_frame(false, Some(&timeout)), None);
}

#[test]
fn timeouts_become_request_timeouts() {
    assert_eq!(convert_timeout_error(Failure::Io { timed_out: true }), Failure::Loqui(LoquiError::RequestTimeout));
    assert_eq!(convert_timeout_error(Failure::Io { timed_out: false }), Failure::Io { timed_out: false });
    assert_eq!(convert_timeout_error(Failure::InvalidUtf8), Failure::InvalidUtf8);
}

#[test]
fn server_negotiates_the_clients_first_common_encoding() {
    let client = vec!["json".to_string(), "msgpack".to_string()];
    assert_eq!(negotiate_encoding(&client, &["msgpack", "json"]), Ok("json"));
    assert_eq!(negotiate_encoding(&client, &["bytes"]), Err(LoquiError::NoCommonEncoding));
    assert_eq!(negotiate_encoding(&vec![], &["bytes"]), Err(LoquiError::NoCommonEncoding));
}

#[test]
fn server_answers_hello() {
    let hello = Hello { flags: 2, version: 1, encodings: vec!["json".into(), "msgpack".into()], compressions: vec![] };
    let (ready, ack) = handle_handshake_hello(hello, 5000, &["msgpack"]).unwrap();
    assert_eq!(ready.ping_interval_ms, 5000);
    assert_eq!(ready.transport_options, TransportOptions { encoding: "msgpack", compression: None });
    assert_eq!(ack, HelloAck { flags: 2, ping_interval_ms: 5000, encoding: "msgpack".into(), compression: None });

    let old = Hello { flags: 0, version: 2, encodings: vec!["msgpack".into()], compressions: vec![] };
    assert_eq!(
        handle_handshake_hello(old, 5000, &["msgpack"]),
        Err(LoquiError::UnsupportedVersion { expected: 1, actual: 2 })
    );
    let none = Hello { flags: 0, version: 1, encodings: vec!["json".into()], compressions: vec![] };
    assert_eq!(handle_handshake_hello(none, 5000, &["msgpack"]), Err(LoquiError::NoCommonEncoding));
}

#[test]
fn server_handshake_frames() {
    let go_away = GoAway { flags: 0, code: 0, payload: vec![] };
    assert_eq!(
        handle_handshake_frame(LoquiFrame::GoAway(go_away.clone()), 10, &["msgpack"]),
        Err(LoquiError::ToldToGoAway { go_away })
    );
    let push = Push { flags: 0, payload: vec![] };
    assert_eq!(
        handle_handshake_frame(LoquiFrame::Push(push), 10, &["msgpack"]),
        Err(LoquiError::InvalidOpcode { actual: 7, expected: Some(1) })
    );
}

#[test]
fn server_routes_requests_and_pushes() {
    let request = Request { flags: 0, sequence_id: 3, payload: b"q".to_vec() };
    match route_frame(request.into()) {
        ServerWork::Request { sequence_id, payload } => {
            assert_eq!(sequence_id, 3);
            assert_eq!(payload, b"q".to_vec());
        }
        other => panic!("not routed: {:?}", other),
    }
    let push = Push { flags: 0, payload: b"p".to_vec() };
    assert!(matches!(route_frame(push.into()), ServerWork::Push { payload } if payload == b"p".to_vec()));
    let response = Response { flags: 0, sequence_id: 3, payload: vec![] };
    assert!(matches!(route_frame(response.into()), ServerWork::Ignore));
    assert_eq!(make_response(3, b"a".to_vec()), Response { flags: 0, sequence_id: 3, payload: b"a".to_vec() });
}
