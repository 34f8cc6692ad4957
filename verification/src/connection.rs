//! The decisions a connection makes between its reads and writes: the
//! upgrade exchange, the handshake, what each handled event asks of the
//! socket, and when the connection ends.
use vstd::prelude::*;
use crate::client;
use crate::event_handler::{Event, Step};
use crate::frames::{GoAway, Hello, HelloAck, LoquiFrame};
use crate::handler::{DelegatedFrame, Ready};
use crate::loqui_error::{close_frame, is_close_frame, Failure, LoquiError};
use crate::server;
use crate::upgrade::UpgradeFrame;

verus! {

/// What a read from the socket or a channel gave.
#[derive(Debug)]
pub enum Received<T> {
    /// An item arrived.
    Item(T),
    /// The read failed.
    Failed(Failure),
    /// The other side closed.
    Ended,
}

/// The server side of the upgrade exchange: an upgrade request is answered
/// with the upgrade response (`Ok`); anything else ends the connection.
pub fn accept_upgrade(received: Received<UpgradeFrame>) -> (res: Result<(), Failure>)
    ensures
        match received {
            Received::Item(UpgradeFrame::Request) => res is Ok,
            Received::Item(frame) => res == Err::<(), Failure>(
                Failure::Loqui(LoquiError::InvalidUpgradeFrame { frame }),
            ),
            Received::Failed(e) => res == Err::<(), Failure>(e),
            Received::Ended => res == Err::<(), Failure>(Failure::Loqui(LoquiError::TcpStreamClosed)),
        },
{
    match received {
        Received::Item(UpgradeFrame::Request) => Ok(()),
        Received::Item(frame) => Err(Failure::Loqui(LoquiError::InvalidUpgradeFrame { frame })),
        Received::Failed(e) => Err(e),
        Received::Ended => Err(Failure::Loqui(LoquiError::TcpStreamClosed)),
    }
}

/// The client side of the upgrade exchange, after its request went out: the
/// server must answer with the upgrade response.
pub fn check_upgrade_response(received: Received<UpgradeFrame>) -> (res: Result<(), Failure>)
    ensures
        match received {
            Received::Item(UpgradeFrame::Response) => res is Ok,
            Received::Item(frame) => res == Err::<(), Failure>(
                Failure::Loqui(LoquiError::InvalidUpgradeFrame { frame }),
            ),
            Received::Failed(e) => res == Err::<(), Failure>(e),
            Received::Ended => res == Err::<(), Failure>(Failure::Loqui(LoquiError::TcpStreamClosed)),
        },
{
    match received {
        Received::Item(UpgradeFrame::Response) => Ok(()),
        Received::Item(frame) => Err(Failure::Loqui(LoquiError::InvalidUpgradeFrame { frame })),
        Received::Failed(e) => Err(e),
        Received::Ended => Err(Failure::Loqui(LoquiError::TcpStreamClosed)),
    }
}

/// The server's handshake on the first frame it reads: the frame is answered
/// as `server::handle_handshake_frame` says; a failed read or a closed
/// socket ends the handshake.
pub fn server_handshake(
    received: Received<LoquiFrame>,
    ping_interval_ms: u32,
    supported_encodings: &[&'static str],
) -> (res: Result<(Ready, HelloAck), Failure>)
    ensures
        match received {
            Received::Item(frame) => match frame {
                LoquiFrame::Hello(h) => is_lifted(res) && server::hello_answered(
                    h@,
                    ping_interval_ms,
                    supported_encodings@,
                    unlift(res),
                ),
                LoquiFrame::GoAway(g) => res matches Err(Failure::Loqui(LoquiError::ToldToGoAway { go_away })) && go_away == g,
                _ => res == Err::<(Ready, HelloAck), Failure>(Failure::Loqui(
                    LoquiError::InvalidOpcode { actual: frame@.opcode(), expected: Some(Hello::OPCODE) },
                )),
            },
            Received::Failed(e) => res == Err::<(Ready, HelloAck), Failure>(e),
            Received::Ended => res == Err::<(Ready, HelloAck), Failure>(
                Failure::Loqui(LoquiError::TcpStreamClosed),
            ),
        },
{
    match received {
        Received::Item(frame) => {
            let r = server::handle_handshake_frame(frame, ping_interval_ms, supported_encodings);
            lift_result(r)
        },
        Received::Failed(e) => Err(e),
        Received::Ended => Err(Failure::Loqui(LoquiError::TcpStreamClosed)),
    }
}

/// The client's handshake on the first frame it reads after its `Hello`:
/// the frame is checked as `client::handle_handshake_frame` says; a failed
/// read or a closed socket ends the handshake.
pub fn client_handshake(received: Received<LoquiFrame>, supported_encodings: &[&'static str]) -> (res:
    Result<Ready, Failure>)
    ensures
        match received {
            Received::Item(frame) => match frame {
                LoquiFrame::HelloAck(a) => is_lifted(res) && client::hello_ack_accepted(
                    a@,
                    supported_encodings@,
                    unlift(res),
                ),
                LoquiFrame::GoAway(g) => res matches Err(Failure::Loqui(LoquiError::ToldToGoAway { go_away })) && go_away == g,
                _ => res == Err::<Ready, Failure>(Failure::Loqui(
                    LoquiError::InvalidOpcode { actual: frame@.opcode(), expected: Some(HelloAck::OPCODE) },
                )),
            },
            Received::Failed(e) => res == Err::<Ready, Failure>(e),
            Received::Ended => res == Err::<Ready, Failure>(Failure::Loqui(LoquiError::TcpStreamClosed)),
        },
{
    match received {
        Received::Item(frame) => {
            let r = client::handle_handshake_frame(frame, supported_encodings);
            lift_result(r)
        },
        Received::Failed(e) => Err(e),
        Received::Ended => Err(Failure::Loqui(LoquiError::TcpStreamClosed)),
    }
}

/// A connection error as a failure.
pub open spec fn lift<T>(r: Result<T, LoquiError>) -> Result<T, Failure> {
    match r {
        Ok(v) => Ok(v),
        Err(e) => Err(Failure::Loqui(e)),
    }
}

/// Whether every error in `r` is a connection error.
pub open spec fn is_lifted<T>(r: Result<T, Failure>) -> bool {
    r matches Err(f) ==> f is Loqui
}

/// The connection error in `r`, for a result whose errors are all
/// connection errors.
pub open spec fn unlift<T>(r: Result<T, Failure>) -> Result<T, LoquiError> {
    match r {
        Ok(v) => Ok(v),
        Err(Failure::Loqui(e)) => Err(e),
        Err(_) => Err(LoquiError::ConnectionClosed),
    }
}

/// A connection error as a failure.
fn lift_result<T>(r: Result<T, LoquiError>) -> (res: Result<T, Failure>)
    ensures
        res == lift(r),
        is_lifted(res),
        unlift(res) == r,
{
    match r {
        Ok(v) => Ok(v),
        Err(e) => Err(Failure::Loqui(e)),
    }
}

/// The next event of a running connection: a failed read ends the
/// connection with its error, a closed socket or channel with
/// `ConnectionClosed`.
pub fn next_event<I>(received: Received<Event<I>>) -> (res: Result<Event<I>, Failure>)
    ensures
        match received {
            Received::Item(event) => res == Ok::<Event<I>, Failure>(event),
            Received::Failed(e) => res == Err::<Event<I>, Failure>(e),
            Received::Ended => res == Err::<Event<I>, Failure>(Failure::Loqui(LoquiError::ConnectionClosed)),
        },
{
    match received {
        Received::Item(event) => Ok(event),
        Received::Failed(e) => Err(e),
        Received::Ended => Err(Failure::Loqui(LoquiError::ConnectionClosed)),
    }
}

/// What a running connection does with the outcome of an event.
#[derive(Debug)]
pub enum LoopAction<I> {
    /// Write the frame, then read on.
    Write(LoquiFrame),
    /// Hand the frame to the client or server logic, then read on.
    Delegate(DelegatedFrame),
    /// Hand the event to the client or server logic, then read on.
    Internal(I),
    /// Read on.
    Continue,
    /// Close the socket, after writing the `GoAway` when there is one, and
    /// end the connection cleanly.
    Close(Option<GoAway>),
}

/// An error from the event handler closes the connection, with a `GoAway`
/// that carries the error's code when this side sends them; any other
/// outcome is carried out and the connection reads on.
pub fn loop_action<I>(outcome: Result<Step<I>, LoquiError>, send_go_away: bool) -> (res: LoopAction<I>)
    ensures
        match outcome {
            Ok(Step::Send(f)) => res == LoopAction::<I>::Write(f),
            Ok(Step::Delegate(d)) => res == LoopAction::<I>::Delegate(d),
            Ok(Step::Internal(i)) => res == LoopAction::<I>::Internal(i),
            Ok(Step::Nothing) => res is Continue,
            Err(e) => res matches LoopAction::Close(g) && is_close_frame(
                send_go_away,
                Some(Failure::Loqui(e)),
                g,
            ),
        },
{
    match outcome {
        Ok(Step::Send(frame)) => LoopAction::Write(frame),
        Ok(Step::Delegate(frame)) => LoopAction::Delegate(frame),
        Ok(Step::Internal(event)) => LoopAction::Internal(event),
        Ok(Step::Nothing) => LoopAction::Continue,
        Err(error) => {
            let failure = Failure::Loqui(error);
            LoopAction::Close(close_frame(send_go_away, Some(&failure)))
        },
    }
}

} // verus!
