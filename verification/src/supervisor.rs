//! The decisions of a connection supervisor, which keeps a connection to a
//! server alive: it connects, waits for the connection to be ready, forwards
//! the client's events to it, and reconnects with backoff when it fails,
//! until the client goes away.
use vstd::prelude::*;

verus! {

/// Where a supervisor is in its loop.
#[derive(Debug, Clone, Copy, PartialEq, Eq)]
pub enum Phase {
    /// About to open a connection.
    Connecting,
    /// A connection was opened; its upgrade and handshake are under way.
    AwaitingReady,
    /// The connection is ready; client events are forwarded to it.
    Running,
    /// The supervisor has finished.
    Stopped,
}

/// The state of a supervisor.
#[derive(Debug, Clone, Copy, PartialEq, Eq)]
pub struct SupervisorState {
    pub phase: Phase,
    /// Whether the first readiness was reported to the one who spawned the
    /// supervisor. It is reported once.
    pub ready_reported: bool,
}

/// What happened since the last action.
#[derive(Debug)]
pub enum SupervisorEvent<E> {
    /// Before connecting, the client turned out to be gone.
    ClientDropped,
    /// A connection was opened and spawned.
    Connected,
    /// The connection could not be opened.
    ConnectFailed,
    /// The connection finished its upgrade and handshake.
    ConnectionReady,
    /// The connection ended before it was ready.
    ReadyFailed,
    /// Nobody listens for the first readiness any more.
    ReadyNotDelivered,
    /// The client sent an event.
    ClientEvent(E),
    /// The connection no longer takes events.
    ForwardFailed,
    /// The client hung up.
    ClientHungUp,
}

/// What the supervisor does next.
#[derive(Debug)]
pub enum SupervisorAction<E> {
    /// Check that the client is still there, then open a connection.
    Connect,
    /// Wait for the connection to be ready.
    AwaitReady,
    /// Wait out the backoff, then connect again.
    SnoozeThenConnect,
    /// Reset the backoff, report readiness to the one who spawned the
    /// supervisor, then wait for client events.
    ResetBackoffAndReportReady,
    /// Reset the backoff, then wait for client events.
    ResetBackoff,
    /// Hand the client's event to the connection, then wait for the next one.
    Forward(E),
    /// Close the connection and finish.
    CloseConnection,
    /// Finish.
    Stop,
    /// The event does not belong to this phase: carry on as before.
    Ignore,
}

/// The state a supervisor starts in.
pub open spec fn spec_initial_state() -> SupervisorState {
    SupervisorState { phase: Phase::Connecting, ready_reported: false }
}

/// A new supervisor: it connects first.
pub fn start<E>() -> (res: (SupervisorState, SupervisorAction<E>))
    ensures
        res.0 == spec_initial_state(),
        res.1 is Connect,
{
    (SupervisorState { phase: Phase::Connecting, ready_reported: false }, SupervisorAction::Connect)
}

/// The phase a step leads to and whether readiness has been reported,
/// as `supervise` computes them.
pub open spec fn next_state<E>(state: SupervisorState, event: SupervisorEvent<E>) -> SupervisorState {
    let r = state.ready_reported;
    match (state.phase, event) {
        (Phase::Connecting, SupervisorEvent::ClientDropped) => SupervisorState { phase: Phase::Stopped, ready_reported: r },
        (Phase::Connecting, SupervisorEvent::ConnectFailed) => state,
        (Phase::Connecting, SupervisorEvent::Connected) => SupervisorState { phase: Phase::AwaitingReady, ready_reported: r },
        (Phase::AwaitingReady, SupervisorEvent::ReadyFailed) => SupervisorState { phase: Phase::Connecting, ready_reported: r },
        (Phase::AwaitingReady, SupervisorEvent::ConnectionReady) => SupervisorState { phase: Phase::Running, ready_reported: true },
        (Phase::Running, SupervisorEvent::ReadyNotDelivered) => SupervisorState { phase: Phase::Stopped, ready_reported: r },
        (Phase::Running, SupervisorEvent::ForwardFailed) => SupervisorState { phase: Phase::Connecting, ready_reported: r },
        (Phase::Running, SupervisorEvent::ClientHungUp) => SupervisorState { phase: Phase::Stopped, ready_reported: r },
        _ => state,
    }
}

/// The action a step asks for.
pub open spec fn next_action<E>(state: SupervisorState, event: SupervisorEvent<E>) -> SupervisorAction<E> {
    match (state.phase, event) {
        (Phase::Stopped, _) => SupervisorAction::Stop,
        (Phase::Connecting, SupervisorEvent::ClientDropped) => SupervisorAction::Stop,
        (Phase::Connecting, SupervisorEvent::ConnectFailed) => SupervisorAction::SnoozeThenConnect,
        (Phase::Connecting, SupervisorEvent::Connected) => SupervisorAction::AwaitReady,
        (Phase::AwaitingReady, SupervisorEvent::ReadyFailed) => SupervisorAction::SnoozeThenConnect,
        (Phase::AwaitingReady, SupervisorEvent::ConnectionReady) => if state.ready_reported {
            SupervisorAction::ResetBackoff
        } else {
            SupervisorAction::ResetBackoffAndReportReady
        },
        (Phase::Running, SupervisorEvent::ReadyNotDelivered) => SupervisorAction::Stop,
        (Phase::Running, SupervisorEvent::ClientEvent(e)) => SupervisorAction::Forward(e),
        (Phase::Running, SupervisorEvent::ForwardFailed) => SupervisorAction::SnoozeThenConnect,
        (Phase::Running, SupervisorEvent::ClientHungUp) => SupervisorAction::CloseConnection,
        _ => SupervisorAction::Ignore,
    }
}

/// One step of the supervisor: from its state and what happened, the next
/// state and what to do.
pub fn supervise<E>(state: SupervisorState, event: SupervisorEvent<E>) -> (res: (
    SupervisorState,
    SupervisorAction<E>,
))
    ensures
        res.0 == next_state(state, event),
        res.1 == next_action(state, event),
{
    let r = state.ready_reported;
    match state.phase {
        Phase::Stopped => (state, SupervisorAction::Stop),
        Phase::Connecting => match event {
            // The client hung up while we were connecting.
            SupervisorEvent::ClientDropped => (
                SupervisorState { phase: Phase::Stopped, ready_reported: r },
                SupervisorAction::Stop,
            ),
            SupervisorEvent::ConnectFailed => (state, SupervisorAction::SnoozeThenConnect),
            SupervisorEvent::Connected => (
                SupervisorState { phase: Phase::AwaitingReady, ready_reported: r },
                SupervisorAction::AwaitReady,
            ),
            _ => (state, SupervisorAction::Ignore),
        },
        Phase::AwaitingReady => match event {
            // The connection dropped its ready sender.
            SupervisorEvent::ReadyFailed => (
                SupervisorState { phase: Phase::Connecting, ready_reported: r },
                SupervisorAction::SnoozeThenConnect,
            ),
            SupervisorEvent::ConnectionReady => {
                let action = if r {
                    SupervisorAction::ResetBackoff
                } else {
                    SupervisorAction::ResetBackoffAndReportReady
                };
                (SupervisorState { phase: Phase::Running, ready_reported: true }, action)
            },
            _ => (state, SupervisorAction::Ignore),
        },
        Phase::Running => match event {
            SupervisorEvent::ReadyNotDelivered => (
                SupervisorState { phase: Phase::Stopped, ready_reported: r },
                SupervisorAction::Stop,
            ),
            SupervisorEvent::ClientEvent(e) => (state, SupervisorAction::Forward(e)),
            // The connection is no longer running: reconnect.
            SupervisorEvent::ForwardFailed => (
                SupervisorState { phase: Phase::Connecting, ready_reported: r },
                SupervisorAction::SnoozeThenConnect,
            ),
            SupervisorEvent::ClientHungUp => (
                SupervisorState { phase: Phase::Stopped, ready_reported: r },
                SupervisorAction::CloseConnection,
            ),
            _ => (state, SupervisorAction::Ignore),
        },
    }
}

/// Readiness is reported at most once: once reported it stays reported, and
/// no later step asks to report it again.
pub proof fn law_ready_reported_once<E>(state: SupervisorState, event: SupervisorEvent<E>)
    requires
        state.ready_reported,
    ensures
        next_state(state, event).ready_reported,
        !(next_action(state, event) is ResetBackoffAndReportReady),
{
}

/// The first readiness is reported: a supervisor that has not reported yet
/// reports when its connection becomes ready.
pub proof fn law_first_ready_is_reported<E>(state: SupervisorState)
    requires
        state.phase == Phase::AwaitingReady,
        !state.ready_reported,
    ensures
        next_action(state, SupervisorEvent::<E>::ConnectionReady) is ResetBackoffAndReportReady,
        next_state(state, SupervisorEvent::<E>::ConnectionReady).phase == Phase::Running,
{
}

/// A finished supervisor stays finished and does nothing more.
pub proof fn law_stopped_is_final<E>(state: SupervisorState, event: SupervisorEvent<E>)
    requires
        state.phase == Phase::Stopped,
    ensures
        next_state(state, event) == state,
        next_action(state, event) is Stop,
{
}

/// Every new attempt after a failure waits out the backoff: a step that
/// leads back to connecting asks for a snooze first.
pub proof fn law_reconnect_backs_off<E>(state: SupervisorState, event: SupervisorEvent<E>)
    requires
        state.phase != Phase::Stopped,
        next_state(state, event).phase == Phase::Connecting,
        !(next_action(state, event) is Ignore),
    ensures
        next_action(state, event) is SnoozeThenConnect,
{
}

/// The backoff is reset exactly when a connection becomes ready.
pub proof fn law_backoff_reset_on_ready<E>(state: SupervisorState, event: SupervisorEvent<E>)
    ensures
        (next_action(state, event) is ResetBackoff || next_action(state, event) is ResetBackoffAndReportReady)
            <==> (state.phase == Phase::AwaitingReady && event is ConnectionReady),
{
}

/// The supervisor keeps the connection alive: it finishes only when the
/// client drops or hangs up, or nobody listens for readiness.
pub proof fn law_stops_only_when_client_leaves<E>(state: SupervisorState, event: SupervisorEvent<E>)
    requires
        state.phase != Phase::Stopped,
        next_state(state, event).phase == Phase::Stopped,
    ensures
        event is ClientDropped || event is ClientHungUp || event is ReadyNotDelivered,
{
}

/// While running, client events are handed to the connection as they come.
pub proof fn law_events_forwarded_while_running<E>(state: SupervisorState, e: E)
    requires
        state.phase == Phase::Running,
    ensures
        next_action(state, SupervisorEvent::ClientEvent(e)) == SupervisorAction::Forward(e),
        next_state(state, SupervisorEvent::ClientEvent(e)) == state,
{
}

} // verus!
