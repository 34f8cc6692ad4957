//! The core of a connection once the handshake is done: what it does with
//! each event (a frame from the socket, a ping tick, an internal event, a
//! computed response, a close request).
use vstd::prelude::*;
use vstd::utf8::*;
use crate::frames::{Error as ErrorFrame, FrameModel, LoquiFrame, Ping, Pong, Response};
use crate::handler::{DelegatedFrame, TransportOptions};
use crate::id_sequence::{IdSequence, successor};
use crate::loqui_error::{LoquiError, LoquiErrorCode};
use crate::wire::string_bytes;
use vstd::slice::slice_to_vec;

verus! {

/// The events that drive a running connection.
#[derive(Debug)]
pub enum Event<I> {
    /// A full frame was received on the socket.
    SocketReceive(LoquiFrame),
    /// A ping should be sent.
    Ping,
    /// An event for the client or server logic.
    InternalEvent(I),
    /// A response for a request was computed, or failed with a message, and
    /// should be sent back over the socket.
    ResponseComplete(Result<Response, (String, u32)>),
    /// Close the connection gracefully.
    Close,
}

/// What the connection does after an event.
#[derive(Debug)]
pub enum Step<I> {
    /// Write a frame to the socket.
    Send(LoquiFrame),
    /// Hand a frame to the client or server logic.
    Delegate(DelegatedFrame),
    /// Hand an internal event to the client or server logic.
    Internal(I),
    /// Nothing to do.
    Nothing,
}

/// The ping bookkeeping of a connection.
pub struct PingState {
    /// Whether the last ping sent was answered.
    pub pong_received: bool,
    /// The id the next ping or request gets.
    pub next_id: u32,
}

/// A ping tick: sends a ping with the next id when the last one was
/// answered, else the connection has timed out (`None`).
pub open spec fn ping_outcome(s: PingState) -> Option<(u32, PingState)> {
    if s.pong_received {
        Some((s.next_id, PingState { pong_received: false, next_id: successor(s.next_id) }))
    } else {
        None
    }
}

/// A pong arrived.
pub open spec fn after_pong(s: PingState) -> PingState {
    PingState { pong_received: true, next_id: s.next_id }
}

/// Renders a message as `format!("{:?}", ..)` does: quoted, with escapes.
pub uninterp spec fn debug_quoted(message: Seq<char>) -> Seq<char>;

/// Renders a message through std's `Debug` for `str`; the result depends on
/// the message alone.
#[verifier::external_body]
fn debug_quote(message: &String) -> (res: String)
    ensures
        res@ == debug_quoted(message@),
{
    format!("{:?}", message)
}

/// The `Error` frame sent back for a request that failed, given the
/// quoted message.
pub fn error_frame_for(sequence_id: u32, quoted: String) -> (res: ErrorFrame)
    ensures
        res.flags == 0,
        res.sequence_id == sequence_id,
        res.code == LoquiErrorCode::InternalServerError.spec_value(),
        res.payload@ == encode_utf8(quoted@),
{
    let payload = slice_to_vec(string_bytes(&quoted));
    ErrorFrame {
        flags: 0,
        sequence_id,
        code: LoquiErrorCode::InternalServerError.value(),
        payload,
    }
}

/// Main handler of connection events.
pub struct EventHandler {
    pong_received: bool,
    id_sequence: IdSequence,
    transport_options: TransportOptions,
}

impl View for EventHandler {
    type V = PingState;

    closed spec fn view(&self) -> PingState {
        PingState { pong_received: self.pong_received, next_id: self.id_sequence@ }
    }
}

impl EventHandler {
    /// The options negotiated by the handshake.
    pub closed spec fn options(&self) -> TransportOptions {
        self.transport_options
    }

    /// A handler for a connection that just completed its handshake.
    pub fn new(transport_options: TransportOptions) -> (res: Self)
        ensures
            res@ == (PingState { pong_received: true, next_id: 1 }),
            res.options() == transport_options,
    {
        Self { pong_received: true, id_sequence: IdSequence::default(), transport_options }
    }

    /// The options negotiated by the handshake.
    pub fn transport_options(&self) -> (res: TransportOptions)
        ensures
            res == self.options(),
    {
        self.transport_options
    }

    /// The sequence of ids for pings and requests; the client logic takes
    /// request ids from it.
    pub fn id_sequence(&mut self) -> (res: &mut IdSequence)
        ensures
            res@ == old(self)@.next_id,
            final(self)@ == (PingState { pong_received: old(self)@.pong_received, next_id: final(res)@ }),
            final(self).options() == old(self).options(),
    {
        &mut self.id_sequence
    }

    /// Entry point: what the connection does after an event. An error ends
    /// the connection.
    pub fn handle_event<I>(&mut self, event: Event<I>) -> (res: Result<Step<I>, LoquiError>)
        ensures
            final(self).options() == old(self).options(),
            match event {
                Event::Ping => match ping_outcome(old(self)@) {
                    Some((id, next)) => final(self)@ == next && (res matches Ok(
                        Step::Send(LoquiFrame::Ping(p)),
                    ) && p == (Ping { flags: 0, sequence_id: id })),
                    None => final(self)@ == old(self)@ && res == Err::<Step<I>, LoquiError>(
                        LoquiError::PingTimeout,
                    ),
                },
                Event::SocketReceive(frame) => frame_step(old(self)@, frame, final(self)@, res),
                Event::InternalEvent(i) => final(self)@ == old(self)@ && res == Ok::<
                    Step<I>,
                    LoquiError,
                >(Step::Internal(i)),
                Event::ResponseComplete(result) => final(self)@ == old(self)@ && response_step(
                    result,
                    res,
                ),
                Event::Close => final(self)@ == old(self)@ && res == Err::<Step<I>, LoquiError>(
                    LoquiError::ConnectionCloseRequested,
                ),
            },
    {
        match event {
            Event::Ping => self.handle_ping(),
            Event::SocketReceive(frame) => self.handle_frame(frame),
            Event::InternalEvent(internal_event) => Ok(Step::Internal(internal_event)),
            Event::ResponseComplete(result) => Ok(Step::Send(self.handle_response_complete(result))),
            Event::Close => Err(LoquiError::ConnectionCloseRequested),
        }
    }

    /// Handles a ping tick: pings the other side, or fails with
    /// `PingTimeout` when the last ping was not answered.
    fn handle_ping<I>(&mut self) -> (res: Result<Step<I>, LoquiError>)
        ensures
            final(self).options() == old(self).options(),
            match ping_outcome(old(self)@) {
                Some((id, next)) => final(self)@ == next && (res matches Ok(
                    Step::Send(LoquiFrame::Ping(p)),
                ) && p == (Ping { flags: 0, sequence_id: id })),
                None => final(self)@ == old(self)@ && res == Err::<Step<I>, LoquiError>(
                    LoquiError::PingTimeout,
                ),
            },
    {
        if self.pong_received {
            let sequence_id = self.id_sequence.next();
            let ping = Ping { sequence_id, flags: 0 };
            self.pong_received = false;
            Ok(Step::Send(LoquiFrame::Ping(ping)))
        } else {
            Err(LoquiError::PingTimeout)
        }
    }

    /// Handles a frame received from the socket.
    fn handle_frame<I>(&mut self, frame: LoquiFrame) -> (res: Result<Step<I>, LoquiError>)
        ensures
            final(self).options() == old(self).options(),
            frame_step(old(self)@, frame, final(self)@, res),
    {
        match frame {
            LoquiFrame::Hello(_) | LoquiFrame::HelloAck(_) => {
                // The handshake is over: a handshake frame is out of place.
                Err(LoquiError::InvalidOpcode { actual: frame.opcode(), expected: None })
            },
            LoquiFrame::Ping(ping) => Ok(
                Step::Send(LoquiFrame::Pong(Pong { flags: ping.flags, sequence_id: ping.sequence_id })),
            ),
            LoquiFrame::Pong(_) => {
                self.pong_received = true;
                Ok(Step::Nothing)
            },
            LoquiFrame::Request(request) => Ok(Step::Delegate(DelegatedFrame::Request(request))),
            LoquiFrame::Response(response) => Ok(Step::Delegate(DelegatedFrame::Response(response))),
            LoquiFrame::Push(push) => Ok(Step::Delegate(DelegatedFrame::Push(push))),
            LoquiFrame::GoAway(go_away) => Err(LoquiError::ToldToGoAway { go_away }),
            LoquiFrame::Error(_) => Ok(Step::Nothing),
        }
    }

    /// A response was computed: send it back; a failure goes back as an
    /// `Error` frame with the quoted message.
    fn handle_response_complete(&self, result: Result<Response, (String, u32)>) -> (res: LoquiFrame)
        ensures
            match result {
                Ok(r) => res == LoquiFrame::Response(r),
                Err((message, sequence_id)) => error_frame_matches(res, sequence_id, message@),
            },
    {
        match result {
            Ok(response) => LoquiFrame::Response(response),
            Err((error, sequence_id)) => {
                let quoted = debug_quote(&error);
                LoquiFrame::Error(error_frame_for(sequence_id, quoted))
            },
        }
    }
}

/// `frame` is the `Error` frame sent back for a request that failed with `message`.
pub open spec fn error_frame_matches(frame: LoquiFrame, sequence_id: u32, message: Seq<char>) -> bool {
    frame@ == FrameModel::Error(
        crate::frames::ErrorModel {
            flags: 0,
            sequence_id,
            code: LoquiErrorCode::InternalServerError.spec_value(),
            payload: encode_utf8(debug_quoted(message)),
        },
    )
}

/// What a completed response turns into.
pub open spec fn response_step<I>(result: Result<Response, (String, u32)>, res: Result<Step<I>, LoquiError>) -> bool {
    match result {
        Ok(r) => res matches Ok(Step::Send(LoquiFrame::Response(s))) && s == r,
        Err((message, sequence_id)) => res matches Ok(Step::Send(f)) && error_frame_matches(
            f,
            sequence_id,
            message@,
        ),
    }
}

/// What a frame received after the handshake turns into: a ping is answered
/// with a pong of the same flags and id, a pong re-arms pinging, requests,
/// responses and pushes go to the client or server logic, an error frame is
/// ignored, a go-away or a handshake frame ends the connection.
pub open spec fn frame_step<I>(
    before: PingState,
    frame: LoquiFrame,
    after: PingState,
    res: Result<Step<I>, LoquiError>,
) -> bool {
    match frame {
        LoquiFrame::Hello(_) | LoquiFrame::HelloAck(_) => after == before && res == Err::<
            Step<I>,
            LoquiError,
        >(LoquiError::InvalidOpcode { actual: frame@.opcode(), expected: None }),
        LoquiFrame::Ping(p) => after == before && (res matches Ok(Step::Send(LoquiFrame::Pong(q)))
            && q == (Pong { flags: p.flags, sequence_id: p.sequence_id })),
        LoquiFrame::Pong(_) => after == after_pong(before) && res matches Ok(Step::Nothing),
        LoquiFrame::Request(r) => after == before && (res matches Ok(
            Step::Delegate(DelegatedFrame::Request(d)),
        ) && d == r),
        LoquiFrame::Response(r) => after == before && (res matches Ok(
            Step::Delegate(DelegatedFrame::Response(d)),
        ) && d == r),
        LoquiFrame::Push(r) => after == before && (res matches Ok(
            Step::Delegate(DelegatedFrame::Push(d)),
        ) && d == r),
        LoquiFrame::GoAway(g) => after == before && (res matches Err(
            LoquiError::ToldToGoAway { go_away },
        ) && go_away == g),
        LoquiFrame::Error(_) => after == before && res matches Ok(Step::Nothing),
    }
}

/// A ping that goes out unanswered makes the next ping tick fail: after a
/// ping, a second tick without a pong in between times the connection out.
pub proof fn law_unanswered_ping_times_out(s: PingState)
    requires
        ping_outcome(s) is Some,
    ensures
        ping_outcome(ping_outcome(s)->Some_0.1) is None,
{
}

/// A pong lets the next ping tick ping again, with the next id.
pub proof fn law_pong_rearms_ping(s: PingState)
    ensures
        ping_outcome(after_pong(s)) == Some((s.next_id, PingState { pong_received: false, next_id: successor(s.next_id) })),
{
}

} // verus!
