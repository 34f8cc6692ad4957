use loqui::connection::{
    accept_upgrade, check_upgrade_response, client_handshake, loop_action, next_event, server_handshake, LoopAction,
    Received,
};
use loqui::error::ProtocolError;
use loqui::event_handler::{Event, Step};
use loqui::frames::{GoAway, Hello, HelloAck, LoquiFrame, Ping, Pong};
use loqui::handler::{DelegatedFrame, TransportOptions};
use loqui::loqui_error::{Failure, LoquiError};
use loqui::supervisor::{start, supervise, Phase, SupervisorAction, SupervisorEvent, SupervisorState};
use loqui::upgrade::UpgradeFrame;

fn closed() -> Failure {
    Failure::Loqui(LoquiError::TcpStreamClosed)
}

#[test]
fn server_accepts_only_an_upgrade_request() {
    assert_eq!(accept_upgrade(Received::Item(UpgradeFrame::Request)), Ok(()));
    assert_eq!(
        accept_upgrade(Received::Item(UpgradeFrame::Response)),
        Err(Failure::Loqui(LoquiError::InvalidUpgradeFrame { frame: UpgradeFrame::Response }))
    );
    assert_eq!(accept_upgrade(Received::Ended), Err(closed()));
    let bad = Failure::Protocol(ProtocolError::InvalidPayload { reason: "x".to_string() });
    assert_eq!(accept_upgrade(Received::Failed(bad.clone())), Err(bad));
}

#[test]
fn client_expects_an_upgrade_response() {
    assert_eq!(check_upgrade_response(Received::Item(UpgradeFrame::Response)), Ok(()));
    assert_eq!(
        check_upgrade_response(Received::Item(UpgradeFrame::Request)),
        Err(Failure::Loqui(LoquiError::InvalidUpgradeFrame { frame: UpgradeFrame::Request }))
    );
    assert_eq!(check_upgrade_response(Received::Ended), Err(closed()));
}

#[test]
fn server_handshake_reads_a_hello() {
    let hello = Hello { flags: 0, version: 1, encodings: vec!["json".into()], compressions: vec![] };
    let (ready, ack) = server_handshake(Received::Item(LoquiFrame::Hello(hello)), 30000, &["json"]).unwrap();
    assert_eq!(ready.transport_options, TransportOptions { encoding: "json", compression: None });
    assert_eq!(ack.ping_interval_ms, 30000);
    let unknown = Hello { flags: 0, version: 1, encodings: vec!["xml".into()], compressions: vec![] };
    assert_eq!(
        server_handshake(Received::Item(LoquiFrame::Hello(unknown)), 30000, &["json"]),
        Err(Failure::Loqui(LoquiError::NoCommonEncoding))
    );
    assert_eq!(
        server_handshake(Received::Item(LoquiFrame::Ping(Ping { flags: 0, sequence_id: 1 })), 30000, &["json"]),
        Err(Failure::Loqui(LoquiError::InvalidOpcode { actual: 3, expected: Some(1) }))
    );
    assert_eq!(server_handshake(Received::Ended, 30000, &["json"]), Err(closed()));
}

#[test]
fn client_handshake_reads_a_hello_ack() {
    let ack = HelloAck { flags: 0, ping_interval_ms: 100, encoding: "json".into(), compression: None };
    let ready = client_handshake(Received::Item(LoquiFrame::HelloAck(ack)), &["json"]).unwrap();
    assert_eq!(ready.ping_interval_ms, 100);
    let go_away = GoAway { flags: 0, code: 3, payload: vec![] };
    assert_eq!(
        client_handshake(Received::Item(LoquiFrame::GoAway(go_away.clone())), &["json"]),
        Err(Failure::Loqui(LoquiError::ToldToGoAway { go_away }))
    );
    assert_eq!(client_handshake(Received::Failed(Failure::InvalidUtf8), &["json"]), Err(Failure::InvalidUtf8));
}

#[test]
fn connection_ends_when_its_stream_ends() {
    assert!(matches!(next_event::<()>(Received::Item(Event::Ping)), Ok(Event::Ping)));
    assert_eq!(next_event::<()>(Received::Ended).unwrap_err(), Failure::Loqui(LoquiError::ConnectionClosed));
    assert_eq!(next_event::<()>(Received::Failed(Failure::InvalidUtf8)).unwrap_err(), Failure::InvalidUtf8);
}

#[test]
fn errors_close_the_connection_with_their_code() {
    match loop_action::<()>(Err(LoquiError::PingTimeout), true) {
        LoopAction::Close(Some(g)) => assert_eq!(g, GoAway { flags: 0, code: 6, payload: vec![] }),
        other => panic!("not closed: {:?}", other),
    }
    match loop_action::<()>(Err(LoquiError::ConnectionCloseRequested), true) {
        LoopAction::Close(Some(g)) => assert_eq!(g.code, 0),
        other => panic!("not closed: {:?}", other),
    }
    assert!(matches!(loop_action::<()>(Err(LoquiError::PingTimeout), false), LoopAction::Close(None)));
    let pong = LoquiFrame::Pong(Pong { flags: 0, sequence_id: 1 });
    assert!(matches!(loop_action::<()>(Ok(Step::Send(pong.clone())), true), LoopAction::Write(f) if f == pong));
    assert!(matches!(loop_action::<()>(Ok(Step::Nothing), true), LoopAction::Continue));
    assert!(matches!(loop_action(Ok(Step::Internal(4u8)), true), LoopAction::Internal(4)));
    let push = DelegatedFrame::Push(loqui::frames::Push { flags: 0, payload: vec![] });
    assert!(matches!(loop_action::<()>(Ok(Step::Delegate(push.clone())), true), LoopAction::Delegate(d) if d == push));
}

#[test]
fn supervisor_connects_reports_ready_once_and_reconnects() {
    let (state, action) = start::<u8>();
    assert!(matches!(action, SupervisorAction::Connect));
    assert_eq!(state, SupervisorState { phase: Phase::Connecting, ready_reported: false });

    let (state, action) = supervise::<u8>(state, SupervisorEvent::ConnectFailed);
    assert!(matches!(action, SupervisorAction::SnoozeThenConnect));
    let (state, action) = supervise::<u8>(state, SupervisorEvent::Connected);
    assert!(matches!(action, SupervisorAction::AwaitReady));
    assert_eq!(state.phase, Phase::AwaitingReady);
    let (state, action) = supervise::<u8>(state, SupervisorEvent::ConnectionReady);
    assert!(matches!(action, SupervisorAction::ResetBackoffAndReportReady));
    assert_eq!(state, SupervisorState { phase: Phase::Running, ready_reported: true });

    let (state, action) = supervise(state, SupervisorEvent::ClientEvent(9u8));
    assert!(matches!(action, SupervisorAction::Forward(9)));
    let (state, action) = supervise::<u8>(state, SupervisorEvent::ForwardFailed);
    assert!(matches!(action, SupervisorAction::SnoozeThenConnect));
    assert_eq!(state.phase, Phase::Connecting);

    let (state, _) = supervise::<u8>(state, SupervisorEvent::Connected);
    let (state, action) = supervise::<u8>(state, SupervisorEvent::ConnectionReady);
    // Readiness was reported already.
    assert!(matches!(action, SupervisorAction::ResetBackoff));

    let (state, action) = supervise::<u8>(state, SupervisorEvent::ClientHungUp);
    assert!(matches!(action, SupervisorAction::CloseConnection));
    assert_eq!(state.phase, Phase::Stopped);
    let (after, action) = supervise::<u8>(state, SupervisorEvent::Connected);
    assert!(matches!(action, SupervisorAction::Stop));
    assert_eq!(after, state);
}

#[test]
fn supervisor_stops_when_the_client_is_gone() {
    let (state, _) = start::<u8>();
    let (state, action) = supervise::<u8>(state, SupervisorEvent::ClientDropped);
    assert!(matches!(action, SupervisorAction::Stop));
    assert_eq!(state.phase, Phase::Stopped);

    let (state, _) = start::<u8>();
    let (state, _) = supervise::<u8>(state, SupervisorEvent::Connected);
    let (state, action) = supervise::<u8>(state, SupervisorEvent::ReadyFailed);
    assert!(matches!(action, SupervisorAction::SnoozeThenConnect));
    let (state, _) = supervise::<u8>(state, SupervisorEvent::Connected);
    let (state, _) = supervise::<u8>(state, SupervisorEvent::ConnectionReady);
    let (state, action) = supervise::<u8>(state, SupervisorEvent::ReadyNotDelivered);
    assert!(matches!(action, SupervisorAction::Stop));
    assert_eq!(state.phase, Phase::Stopped);
}

#[test]
fn supervisor_ignores_events_out_of_place() {
    let (state, _) = start::<u8>();
    let (after, action) = supervise(state, SupervisorEvent::ClientEvent(1u8));
    assert!(matches!(action, SupervisorAction::Ignore));
    assert_eq!(after, state);
}
