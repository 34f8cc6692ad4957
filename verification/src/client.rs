//! The client side of a connection: the handshake and the bookkeeping of
//! requests that wait for their responses.
use vstd::prelude::*;
use vstd::utf8::*;
use std::collections::HashMap;
use vstd::std_specs::hash::spec_keys_iter;
use vstd::std_specs::iter::IteratorSpec;
use crate::frames::{
    Error as ErrorFrame, GoAway, Hello, HelloAck, HelloAckModel, LoquiFrame, Push, Request,
    Response,
};
use crate::handler::{DelegatedFrame, Ready, TransportOptions, find_encoding, str_views};
use crate::id_sequence::{IdSequence, successor};
use crate::loqui_error::{Failure, LoquiError};
use crate::settings::string_views;
use crate::wire::string_from_utf8;
use crate::VERSION;

verus! {

broadcast use vstd::std_specs::hash::group_hash_axioms;

/// Turns payloads into bytes and back. Implemented by users of the library
/// for the encodings they support.
pub trait Encoder {
    /// The type that is encoded into bytes.
    type Encoded;
    /// The type that bytes are decoded into.
    type Decoded;

    /// Encodes a value.
    fn encode(&self, payload: Self::Encoded) -> Result<Vec<u8>, Failure>;

    /// Decodes bytes.
    fn decode(&self, payload: Vec<u8>) -> Result<Self::Decoded, Failure>;
}

/// An encoder that hands bytes through unchanged, for connections whose
/// payloads are already encoded.
pub struct IdentityEncoder {}

impl Encoder for IdentityEncoder {
    type Encoded = Vec<u8>;
    type Decoded = Vec<u8>;

    fn encode(&self, payload: Vec<u8>) -> (res: Result<Vec<u8>, Failure>)
        ensures
            res == Ok::<Vec<u8>, Failure>(payload),
    {
        Ok(payload)
    }

    fn decode(&self, payload: Vec<u8>) -> (res: Result<Vec<u8>, Failure>)
        ensures
            res == Ok::<Vec<u8>, Failure>(payload),
    {
        Ok(payload)
    }
}

/// The `Hello` a client sends: our version and the encodings it supports,
/// with no compression.
pub fn make_hello(encodings: &[&'static str]) -> (res: Hello)
    ensures
        res.flags == 0,
        res.version == VERSION,
        res@.encodings == str_views(encodings@),
        res@.compressions.len() == 0,
{
    let mut owned: Vec<String> = Vec::new();
    let mut i: usize = 0;
    while i < encodings.len()
        invariant
            i <= encodings@.len(),
            string_views(owned@) == str_views(encodings@).take(i as int),
        decreases encodings@.len() - i,
    {
        let encoding: &'static str = encodings[i];
        let s: String = encoding.to_owned();
        assert(s@ == str_views(encodings@)[i as int]);
        let ghost before = string_views(owned@);
        owned.push(s);
        assert(string_views(owned@) =~= before.push(s@));
        assert(string_views(owned@) =~= str_views(encodings@).take(i + 1));
        i = i + 1;
    }
    assert(str_views(encodings@).take(i as int) =~= str_views(encodings@));
    let compressions: Vec<String> = Vec::new();
    let hello = Hello { flags: 0, version: VERSION, encodings: owned, compressions };
    assert(hello@.compressions =~= Seq::<Seq<char>>::empty());
    hello
}

/// The client's check of the server's `HelloAck`: the encoding must be one
/// the client supports, and no compression may be chosen.
pub open spec fn hello_ack_accepted(
    ack: HelloAckModel,
    supported: Seq<&'static str>,
    res: Result<Ready, LoquiError>,
) -> bool {
    if !str_views(supported).contains(ack.encoding) {
        res == Err::<Ready, LoquiError>(LoquiError::InvalidEncoding)
    } else if ack.compression is Some {
        res == Err::<Ready, LoquiError>(LoquiError::InvalidCompression)
    } else {
        res matches Ok(ready) && ready.ping_interval_ms == ack.ping_interval_ms
            && ready.transport_options.encoding@ == ack.encoding && supported.contains(
            ready.transport_options.encoding,
        ) && ready.transport_options.compression is None
    }
}

/// Checks the server's `HelloAck` and settles the transport options.
pub fn handle_handshake_hello_ack(hello_ack: HelloAck, supported_encodings: &[&'static str]) -> (res:
    Result<Ready, LoquiError>)
    ensures
        hello_ack_accepted(hello_ack@, supported_encodings@, res),
{
    // Validate the settings and convert them to &'static str.
    let encoding = match find_encoding(hello_ack.encoding.as_str(), supported_encodings) {
        Some(encoding) => encoding,
        None => return Err(LoquiError::InvalidEncoding),
    };
    // Compression is not supported.
    if hello_ack.compression.is_some() {
        return Err(LoquiError::InvalidCompression);
    }
    proof {
        let k = choose|k: int|
            0 <= k < supported_encodings@.len() && supported_encodings@[k] == encoding && forall|
                j: int,
            | 0 <= j < k ==> supported_encodings@[j]@ != hello_ack.encoding@;
        assert(supported_encodings@.contains(encoding));
    }
    Ok(
        Ready {
            ping_interval_ms: hello_ack.ping_interval_ms,
            transport_options: TransportOptions { encoding, compression: None },
        },
    )
}

/// The client's handshake step on the server's first frame: a `HelloAck` is
/// checked, a `GoAway` ends the handshake, anything else is out of place.
pub fn handle_handshake_frame(frame: LoquiFrame, supported_encodings: &[&'static str]) -> (res:
    Result<Ready, LoquiError>)
    ensures
        match frame {
            LoquiFrame::HelloAck(a) => hello_ack_accepted(a@, supported_encodings@, res),
            LoquiFrame::GoAway(g) => res matches Err(LoquiError::ToldToGoAway { go_away }) && go_away
                == g,
            _ => res == Err::<Ready, LoquiError>(
                LoquiError::InvalidOpcode {
                    actual: frame@.opcode(),
                    expected: Some(HelloAck::OPCODE),
                },
            ),
        },
{
    match frame {
        LoquiFrame::HelloAck(hello_ack) => handle_handshake_hello_ack(hello_ack, supported_encodings),
        LoquiFrame::GoAway(go_away) => Err(LoquiError::ToldToGoAway { go_away }),
        frame => Err(
            LoquiError::InvalidOpcode { actual: frame.opcode(), expected: Some(HelloAck::OPCODE) },
        ),
    }
}

/// Events the client sends to its connection.
pub enum InternalEvent<T, W> {
    /// Send a request; `waiter` is notified with the response. Once
    /// `deadline` has passed the request is not sent.
    Request { payload: T, waiter: W, deadline: u64 },
    /// Send a push.
    Push { payload: T },
}

/// What the client logic asks the connection to do.
pub enum ClientAction<W, D> {
    /// Write a frame to the socket.
    Send(LoquiFrame),
    /// Hand a result to a waiter.
    Notify(W, Result<D, Failure>),
    /// Answer the server with an error for this sequence id.
    Reject(LoquiError, u32),
    /// Nothing to do.
    Nothing,
}

/// The requests that wait for a response, by sequence id, with their deadlines.
pub struct ClientHandler<W> {
    waiters: HashMap<u32, (u64, W)>,
}

impl<W> View for ClientHandler<W> {
    type V = Map<u32, (u64, W)>;

    closed spec fn view(&self) -> Map<u32, (u64, W)> {
        self.waiters@
    }
}

/// The waiters whose deadline is after `now`.
pub open spec fn live_waiters<W>(waiters: Map<u32, (u64, W)>, now: u64) -> Map<u32, (u64, W)> {
    waiters.restrict(waiters.dom().filter(|k: u32| waiters[k].0 > now))
}

impl<W> ClientHandler<W> {
    /// A handler with no request waiting.
    pub fn new() -> (res: Self)
        ensures
            res@ == Map::<u32, (u64, W)>::empty(),
    {
        Self { waiters: HashMap::new() }
    }

    /// Handles an event from the client: a request takes the next sequence
    /// id; it is sent unless its deadline has passed or it cannot be encoded.
    pub fn handle_internal_event<E: Encoder>(
        &mut self,
        event: InternalEvent<E::Encoded, W>,
        id_sequence: &mut IdSequence,
        encoder: &E,
        now: u64,
    ) -> (res: ClientAction<W, E::Decoded>)
        ensures
            match event {
                InternalEvent::Request { payload, waiter, deadline } => {
                    &&& final(id_sequence)@ == successor(old(id_sequence)@)
                    &&& request_handled(old(self)@, final(self)@, old(id_sequence)@, waiter, deadline, now, res)
                    &&& deadline > now ==> exists|enc: Result<Vec<u8>, Failure>|
                        #[trigger] encodes_to(encoder, payload, enc) && request_sent(
                            old(self)@,
                            final(self)@,
                            old(id_sequence)@,
                            waiter,
                            deadline,
                            enc,
                            res,
                        )
                },
                InternalEvent::Push { payload } => {
                    &&& final(id_sequence)@ == old(id_sequence)@
                    &&& final(self)@ == old(self)@
                    &&& push_handled(res)
                    &&& exists|enc: Result<Vec<u8>, Failure>|
                        #[trigger] encodes_to(encoder, payload, enc) && push_sent(enc, res)
                },
            },
    {
        match event {
            InternalEvent::Request { payload, waiter, deadline } => {
                let sequence_id = id_sequence.next();
                self.handle_request(payload, sequence_id, waiter, deadline, now, encoder)
            },
            InternalEvent::Push { payload } => handle_push(payload, encoder),
        }
    }

    /// Sends a request, unless its deadline has passed (the waiter gets a
    /// timeout) or it cannot be encoded (the waiter gets the error).
    pub fn handle_request<E: Encoder>(
        &mut self,
        payload: E::Encoded,
        sequence_id: u32,
        waiter: W,
        deadline: u64,
        now: u64,
        encoder: &E,
    ) -> (res: ClientAction<W, E::Decoded>)
        ensures
            request_handled(old(self)@, final(self)@, sequence_id, waiter, deadline, now, res),
            deadline > now ==> exists|enc: Result<Vec<u8>, Failure>|
                #[trigger] encodes_to(encoder, payload, enc) && request_sent(
                    old(self)@,
                    final(self)@,
                    sequence_id,
                    waiter,
                    deadline,
                    enc,
                    res,
                ),
    {
        if deadline <= now {
            return ClientAction::Notify(waiter, Err(Failure::Loqui(LoquiError::RequestTimeout)));
        }
        let ghost given = payload;
        let encoded = encoder.encode(payload);
        assert(encodes_to(encoder, given, encoded));
        self.finish_request(sequence_id, waiter, deadline, encoded)
    }

    /// Sends an encoded request and keeps its waiter, or hands the encoding
    /// error to the waiter.
    pub fn finish_request<D>(
        &mut self,
        sequence_id: u32,
        waiter: W,
        deadline: u64,
        encoded: Result<Vec<u8>, Failure>,
    ) -> (res: ClientAction<W, D>)
        ensures
            request_sent(old(self)@, final(self)@, sequence_id, waiter, deadline, encoded, res),
    {
        match encoded {
            Ok(payload) => {
                // Keep the waiter so it is notified when the response comes.
                self.waiters.insert(sequence_id, (deadline, waiter));
                ClientAction::Send(LoquiFrame::Request(Request { payload, sequence_id, flags: 0 }))
            },
            Err(error) => ClientAction::Notify(waiter, Err(error)),
        }
    }

    /// Handles a frame the connection delegated: a response or an error
    /// goes to the waiter of its sequence id; a client takes no requests or
    /// pushes and rejects them.
    pub fn handle_frame<E: Encoder>(&mut self, frame: DelegatedFrame, encoder: &E) -> (res:
        ClientAction<W, E::Decoded>)
        ensures
            match frame {
                DelegatedFrame::Response(r) => response_handled(old(self)@, final(self)@, r.sequence_id, res)
                    && (res matches ClientAction::Notify(_, d) ==> decodes_to(encoder, r.payload, d)),
                DelegatedFrame::Error(e) => error_handled(old(self)@, final(self)@, e, res),
                _ => final(self)@ == old(self)@ && (res matches ClientAction::Reject(err, id) && id
                    == 0 && err == (LoquiError::InvalidOpcode {
                    actual: Request::OPCODE,
                    expected: None,
                })),
            },
    {
        match frame {
            DelegatedFrame::Response(response) => self.handle_response(response, encoder),
            DelegatedFrame::Error(error) => self.handle_error(error),
            DelegatedFrame::Push(_) | DelegatedFrame::Request(_) => ClientAction::Reject(
                LoquiError::InvalidOpcode { actual: Request::OPCODE, expected: None },
                0,
            ),
        }
    }

    /// Hands a response to the waiter of its sequence id, decoded.
    pub fn handle_response<E: Encoder>(&mut self, response: Response, encoder: &E) -> (res:
        ClientAction<W, E::Decoded>)
        ensures
            response_handled(old(self)@, final(self)@, response.sequence_id, res),
            res matches ClientAction::Notify(_, d) ==> decodes_to(encoder, response.payload, d),
    {
        let Response { flags: _flags, sequence_id, payload } = response;
        match self.waiters.remove(&sequence_id) {
            Some((_deadline, waiter)) => {
                let decoded = encoder.decode(payload);
                ClientAction::Notify(waiter, decoded)
            },
            None => ClientAction::Nothing,
        }
    }

    /// Hands the failure an error frame reports to the waiter of its
    /// sequence id: the payload is the message, which must be UTF-8.
    pub fn handle_error<D>(&mut self, error: ErrorFrame) -> (res: ClientAction<W, D>)
        ensures
            error_handled(old(self)@, final(self)@, error, res),
    {
        let ErrorFrame { sequence_id, payload, .. } = error;
        match self.waiters.remove(&sequence_id) {
            Some((_deadline, waiter)) => {
                // The payload is always a string.
                let failure = match string_from_utf8(payload) {
                    Some(reason) => {
                        proof {
                            encode_utf8_decode_utf8(reason@);
                        }
                        Failure::Message(reason)
                    },
                    None => Failure::InvalidUtf8,
                };
                ClientAction::Notify(waiter, Err(failure))
            },
            None => ClientAction::Nothing,
        }
    }

    /// Forgets the requests whose deadline has passed (at ping ticks); their
    /// waiters time out by themselves.
    pub fn handle_ping(&mut self, now: u64)
        ensures
            final(self)@ == live_waiters(old(self)@, now),
    {
        let ghost start = self.waiters@;
        let mut keys: Vec<u32> = Vec::new();
        assert(spec_keys_iter(&self.waiters).remaining().unref().to_set() == start.dom());
        for key in it: self.waiters.keys()
            invariant
                keys@ == it.seq().take(it.index()).unref(),
                keys@.len() == it.index(),
                it.seq().unref().to_set() == start.dom(),
                it.seq().unref().no_duplicates(),
                it.seq().len() == start.dom().len(),
                keys@.no_duplicates(),
                forall|j: int| 0 <= j < keys@.len() ==> start.dom().contains(#[trigger] keys@[j]),
        {
            let ghost before = keys@;
            keys.push(*key);
            assert(keys@ =~= it.seq().take(it.index() + 1).unref());
            proof {
                let all = it.seq().unref();
                assert(keys@ =~= all.take(keys@.len() as int));
                assert(start.dom().contains(all[keys@.len() - 1])) by {
                    assert(all.to_set().contains(all[keys@.len() - 1]));
                }
                assert forall|a: int, b: int| 0 <= a < keys@.len() && 0 <= b < keys@.len() && a != b
                    implies keys@[a] != keys@[b] by {
                    assert(keys@[a] == all[a] && keys@[b] == all[b]);
                }
            }
        }
        assert(keys@.len() == start.dom().len());
        proof {
            keys@.unique_seq_to_set();
            assert(keys@.to_set().subset_of(start.dom())) by {
                assert forall|k: u32| keys@.to_set().contains(k) implies start.dom().contains(k) by {
                    let j = choose|j: int| 0 <= j < keys@.len() && keys@[j] == k;
                    assert(start.dom().contains(keys@[j]));
                }
            }
            vstd::set_lib::lemma_subset_equality(keys@.to_set(), start.dom());
        }
        assert(keys@.to_set() =~= start.dom());
        let mut i: usize = 0;
        while i < keys.len()
            invariant
                i <= keys@.len(),
                keys@.to_set() == start.dom(),
                self.waiters@.dom().subset_of(start.dom()),
                forall|k: u32| #[trigger] start.contains_key(k) ==> (self.waiters@.contains_key(k) <==> !(
                    keys@.take(i as int).contains(k) && start[k].0 <= now)),
                forall|k: u32| #[trigger] self.waiters@.contains_key(k) ==> self.waiters@[k] == start[k],
            decreases keys@.len() - i,
        {
            let key = keys[i];
            let expired = match self.waiters.get(&key) {
                Some(entry) => entry.0 <= now,
                None => false,
            };
            if expired {
                self.waiters.remove(&key);
            }
            assert forall|k: u32| #[trigger] start.contains_key(k) implies (self.waiters@.contains_key(k) <==> !(
                keys@.take(i + 1).contains(k) && start[k].0 <= now)) by {
                if k == key {
                    assert(keys@.take(i + 1).contains(k)) by {
                        assert(keys@.take(i + 1)[i as int] == k);
                    }
                } else {
                    assert(keys@.take(i + 1).contains(k) == keys@.take(i as int).contains(k)) by {
                        if keys@.take(i + 1).contains(k) {
                            let j = choose|j: int| 0 <= j < i + 1 && #[trigger] keys@.take(i + 1)[j] == k;
                            assert(keys@.take(i as int)[j] == k);
                        }
                        if keys@.take(i as int).contains(k) {
                            let j = choose|j: int| 0 <= j < i && #[trigger] keys@.take(i as int)[j] == k;
                            assert(keys@.take(i + 1)[j] == k);
                        }
                    }
                }
            }
            i = i + 1;
        }
        assert(keys@.take(i as int) =~= keys@);
        assert(self.waiters@ =~= live_waiters(start, now));
    }
}

/// A push is sent when its payload encodes, else nothing is sent.
pub fn handle_push<W, E: Encoder>(payload: E::Encoded, encoder: &E) -> (res: ClientAction<W, E::Decoded>)
    ensures
        push_handled(res),
        exists|enc: Result<Vec<u8>, Failure>| #[trigger] encodes_to(encoder, payload, enc) && push_sent(enc, res),
{
    let ghost given = payload;
    let encoded = encoder.encode(payload);
    assert(encodes_to(encoder, given, encoded));
    finish_push(encoded)
}

/// Sends an encoded push; a push that failed to encode is dropped.
pub fn finish_push<W, D>(encoded: Result<Vec<u8>, Failure>) -> (res: ClientAction<W, D>)
    ensures
        push_sent(encoded, res),
{
    match encoded {
        Ok(payload) => ClientAction::Send(LoquiFrame::Push(Push { payload, flags: 0 })),
        Err(_error) => ClientAction::Nothing,
    }
}

/// `encoded` is what the user's encoder returns for `payload`.
pub open spec fn encodes_to<E: Encoder>(encoder: &E, payload: E::Encoded, encoded: Result<Vec<u8>, Failure>) -> bool {
    call_ensures(E::encode, (encoder, payload), encoded)
}

/// `decoded` is what the user's encoder decodes `payload` into.
pub open spec fn decodes_to<E: Encoder>(encoder: &E, payload: Vec<u8>, decoded: Result<E::Decoded, Failure>) -> bool {
    call_ensures(E::decode, (encoder, payload), decoded)
}

/// An encoded request is sent with exactly the encoded bytes, and its waiter
/// kept; an encoding error goes to the waiter, and nothing is kept.
pub open spec fn request_sent<W, D>(
    before: Map<u32, (u64, W)>,
    after: Map<u32, (u64, W)>,
    id: u32,
    waiter: W,
    deadline: u64,
    encoded: Result<Vec<u8>, Failure>,
    res: ClientAction<W, D>,
) -> bool {
    match encoded {
        Ok(payload) => after == before.insert(id, (deadline, waiter)) && (res matches ClientAction::Send(
            LoquiFrame::Request(r),
        ) && r.flags == 0 && r.sequence_id == id && r.payload == payload),
        Err(e) => after == before && (res matches ClientAction::Notify(w, Err(f)) && w == waiter && f
            == e),
    }
}

/// An encoded push is sent with exactly the encoded bytes; a push that
/// failed to encode is dropped.
pub open spec fn push_sent<W, D>(encoded: Result<Vec<u8>, Failure>, res: ClientAction<W, D>) -> bool {
    match encoded {
        Ok(payload) => res matches ClientAction::Send(LoquiFrame::Push(p)) && p.flags == 0 && p.payload
            == payload,
        Err(_) => res is Nothing,
    }
}

/// A push is sent as a `Push` frame, or dropped.
pub open spec fn push_handled<W, D>(res: ClientAction<W, D>) -> bool {
    ||| res matches ClientAction::Send(LoquiFrame::Push(p)) && p.flags == 0
    ||| res is Nothing
}

/// A request with id `id`: past its deadline the waiter gets a timeout;
/// else it is sent and its waiter kept, or its waiter gets the encoding error.
pub open spec fn request_handled<W, D>(
    before: Map<u32, (u64, W)>,
    after: Map<u32, (u64, W)>,
    id: u32,
    waiter: W,
    deadline: u64,
    now: u64,
    res: ClientAction<W, D>,
) -> bool {
    if deadline <= now {
        after == before && (res matches ClientAction::Notify(w, Err(f)) && w == waiter && f
            == Failure::Loqui(LoquiError::RequestTimeout))
    } else {
        ||| after == before.insert(id, (deadline, waiter)) && (res matches ClientAction::Send(
            LoquiFrame::Request(r),
        ) && r.flags == 0 && r.sequence_id == id)
        ||| after == before && (res matches ClientAction::Notify(w, Err(_)) && w == waiter)
    }
}

/// A response for `id` goes to the waiter kept for `id`, which is dropped
/// from the map; without a waiter, nothing happens.
pub open spec fn response_handled<W, D>(
    before: Map<u32, (u64, W)>,
    after: Map<u32, (u64, W)>,
    id: u32,
    res: ClientAction<W, D>,
) -> bool {
    &&& after == before.remove(id)
    &&& if before.contains_key(id) {
        res matches ClientAction::Notify(w, _) && w == before[id].1
    } else {
        res is Nothing
    }
}

/// An error frame for `id` fails the waiter kept for `id`, which is dropped
/// from the map, with the message in the payload; without a waiter, nothing
/// happens.
pub open spec fn error_handled<W, D>(
    before: Map<u32, (u64, W)>,
    after: Map<u32, (u64, W)>,
    error: ErrorFrame,
    res: ClientAction<W, D>,
) -> bool {
    let id = error.sequence_id;
    &&& after == before.remove(id)
    &&& if before.contains_key(id) {
        res matches ClientAction::Notify(w, Err(f)) && w == before[id].1 && if valid_utf8(
            error.payload@,
        ) {
            f matches Failure::Message(m) && m@ == decode_utf8(error.payload@)
        } else {
            f == Failure::InvalidUtf8
        }
    } else {
        res is Nothing
    }
}


/// A response reaches the waiter of the request it answers: after a request
/// with id `id` is kept, a response for `id` notifies its waiter and forgets it.
pub proof fn law_response_reaches_its_waiter<W, D>(
    before: Map<u32, (u64, W)>,
    id: u32,
    deadline: u64,
    waiter: W,
    after: Map<u32, (u64, W)>,
    res: ClientAction<W, D>,
)
    requires
        response_handled(before.insert(id, (deadline, waiter)), after, id, res),
    ensures
        res matches ClientAction::Notify(w, _) && w == waiter,
        !after.contains_key(id),
        after == before.remove(id),
{
    assert(before.insert(id, (deadline, waiter)).remove(id) =~= before.remove(id));
}

/// A response for another id leaves a waiting request as it is.
pub proof fn law_response_spares_other_waiters<W, D>(
    before: Map<u32, (u64, W)>,
    id: u32,
    other: u32,
    after: Map<u32, (u64, W)>,
    res: ClientAction<W, D>,
)
    requires
        before.contains_key(id),
        other != id,
        response_handled(before, after, other, res),
    ensures
        after.contains_key(id),
        after[id] == before[id],
{
}

/// A ping tick keeps exactly the requests whose deadline is still ahead.
pub proof fn law_sweep_keeps_live_requests<W>(before: Map<u32, (u64, W)>, now: u64, id: u32)
    ensures
        live_waiters(before, now).contains_key(id) <==> (before.contains_key(id) && before[id].0 > now),
        live_waiters(before, now).contains_key(id) ==> live_waiters(before, now)[id] == before[id],
{
}

/// What the first `i` requests leave behind when each was encoded and sent:
/// the id sequence stands at `i + 1`, and exactly ids `1..=i` wait, id
/// `j + 1` with the deadline and waiter of request `j`.
pub open spec fn requests_kept<W>(
    state: (Map<u32, (u64, W)>, u32),
    requests: Seq<(u64, W)>,
    i: int,
) -> bool {
    &&& state.1 == i + 1
    &&& forall|id: u32| #[trigger] state.0.contains_key(id) <==> 1 <= id <= i
    &&& forall|j: int| 0 <= j < i ==> #[trigger] state.0[(j + 1) as u32] == requests[j]
}

/// Requests take the ids of the sequence in order, and each response reaches
/// its own request: starting from a fresh handler and id sequence, when
/// requests are sent one after the other (each step as `request_sent` and
/// `IdSequence::next` state it, with the encoding succeeding), the `k`-th
/// request (from 0) goes out with id `k + 1` and its encoded payload, and a
/// response for id `k + 1` notifies that request's waiter and forgets it.
pub proof fn law_requests_take_ids_in_order<W, D>(
    states: Seq<(Map<u32, (u64, W)>, u32)>,
    requests: Seq<(u64, W)>,
    payloads: Seq<Vec<u8>>,
    sent: Seq<ClientAction<W, D>>,
    k: int,
    after: Map<u32, (u64, W)>,
    res: ClientAction<W, D>,
)
    requires
        requests.len() < u32::MAX,
        states.len() == requests.len() + 1,
        payloads.len() == requests.len(),
        sent.len() == requests.len(),
        states[0] == (Map::<u32, (u64, W)>::empty(), 1u32),
        forall|i: int| 0 <= i < requests.len() ==> {
            &&& #[trigger] request_sent(
                states[i].0,
                states[i + 1].0,
                states[i].1,
                requests[i].1,
                requests[i].0,
                Ok::<Vec<u8>, Failure>(payloads[i]),
                sent[i],
            )
            &&& states[i + 1].1 == successor(states[i].1)
        },
        0 <= k < requests.len(),
        response_handled(states[requests.len() as int].0, after, (k + 1) as u32, res),
    ensures
        sent[k] matches ClientAction::Send(LoquiFrame::Request(r)) && r.sequence_id == k + 1
            && r.flags == 0 && r.payload == payloads[k],
        states[requests.len() as int].1 == requests.len() + 1,
        res matches ClientAction::Notify(w, _) && w == requests[k].1,
        !after.contains_key((k + 1) as u32),
{
    let n = requests.len() as int;
    assert forall|i: int| 0 <= i <= n implies requests_kept(#[trigger] states[i], requests, i) by {
        lemma_requests_kept(states, requests, payloads, sent, i);
    }
    assert(requests_kept(states[k], requests, k));
    assert(request_sent(
        states[k].0,
        states[k + 1].0,
        states[k].1,
        requests[k].1,
        requests[k].0,
        Ok::<Vec<u8>, Failure>(payloads[k]),
        sent[k],
    ));
    assert(states[n].0.contains_key((k + 1) as u32));
}

/// The induction behind `law_requests_take_ids_in_order`.
proof fn lemma_requests_kept<W, D>(
    states: Seq<(Map<u32, (u64, W)>, u32)>,
    requests: Seq<(u64, W)>,
    payloads: Seq<Vec<u8>>,
    sent: Seq<ClientAction<W, D>>,
    i: int,
)
    requires
        requests.len() < u32::MAX,
        states.len() == requests.len() + 1,
        states[0] == (Map::<u32, (u64, W)>::empty(), 1u32),
        forall|i: int| 0 <= i < requests.len() ==> {
            &&& #[trigger] request_sent(
                states[i].0,
                states[i + 1].0,
                states[i].1,
                requests[i].1,
                requests[i].0,
                Ok::<Vec<u8>, Failure>(payloads[i]),
                sent[i],
            )
            &&& states[i + 1].1 == successor(states[i].1)
        },
        0 <= i <= requests.len(),
    ensures
        requests_kept(states[i], requests, i),
    decreases i,
{
    if i > 0 {
        lemma_requests_kept(states, requests, payloads, sent, i - 1);
        let p = i - 1;
        assert(request_sent(
            states[p].0,
            states[p + 1].0,
            states[p].1,
            requests[p].1,
            requests[p].0,
            Ok::<Vec<u8>, Failure>(payloads[p]),
            sent[p],
        ));
        assert(states[i].0 == states[p].0.insert(i as u32, (requests[p].0, requests[p].1)));
        assert forall|j: int| 0 <= j < i implies #[trigger] states[i].0[(j + 1) as u32] == requests[j] by {
            if j < p {
                assert(states[p].0[(j + 1) as u32] == requests[j]);
            }
        }
    }
}

/// The client accepts a `HelloAck` exactly when it names any one of the
/// client's encodings and chooses no compression; the settings then carry
/// that encoding and the ack's ping interval. An unknown encoding is refused
/// as such, and any compression is refused.
pub proof fn law_client_accepts_any_supported_encoding(
    ack: HelloAckModel,
    supported: Seq<&'static str>,
    res: Result<Ready, LoquiError>,
)
    requires
        hello_ack_accepted(ack, supported, res),
    ensures
        res is Ok <==> (ack.compression is None && exists|j: int|
            0 <= j < supported.len() && (#[trigger] supported[j])@ == ack.encoding),
        (forall|j: int| 0 <= j < supported.len() ==> (#[trigger] supported[j])@ != ack.encoding)
            ==> res == Err::<Ready, LoquiError>(LoquiError::InvalidEncoding),
        res matches Ok(ready) ==> ready.transport_options.encoding@ == ack.encoding
            && supported.contains(ready.transport_options.encoding)
            && ready.ping_interval_ms == ack.ping_interval_ms
            && ready.transport_options.compression is None,
{
    let views = str_views(supported);
    assert(views.contains(ack.encoding) <==> exists|j: int|
        0 <= j < supported.len() && (#[trigger] supported[j])@ == ack.encoding) by {
        if views.contains(ack.encoding) {
            let j = choose|j: int| 0 <= j < views.len() && views[j] == ack.encoding;
            assert(supported[j]@ == ack.encoding);
        }
        if exists|j: int| 0 <= j < supported.len() && (#[trigger] supported[j])@ == ack.encoding {
            let j = choose|j: int| 0 <= j < supported.len() && (#[trigger] supported[j])@ == ack.encoding;
            assert(views[j] == ack.encoding);
        }
    }
}

} // verus!
