//! The server side of a connection: answering the handshake and routing
//! requests and pushes to the request handler.
use vstd::prelude::*;
use crate::frames::{Hello, HelloAck, HelloAckModel, HelloModel, LoquiFrame, Push, Request, Response};
use crate::handler::{DelegatedFrame, Ready, TransportOptions, find_encoding, str_views};
use crate::loqui_error::LoquiError;
use crate::settings::string_views;
use crate::VERSION;

verus! {

/// The first of the client's encodings that the server supports.
pub open spec fn first_supported(client: Seq<Seq<char>>, supported: Seq<Seq<char>>) -> Option<
    Seq<char>,
>
    decreases client.len(),
{
    if client.len() == 0 {
        None
    } else if supported.contains(client[0]) {
        Some(client[0])
    } else {
        first_supported(client.drop_first(), supported)
    }
}

/// Picks the encoding: the first of the client's encodings, in the client's
/// order, that the server supports.
pub fn negotiate_encoding(client_encodings: &Vec<String>, supported_encodings: &[&'static str]) -> (res: Result<
    &'static str,
    LoquiError,
>)
    ensures
        match first_supported(string_views(client_encodings@), str_views(supported_encodings@)) {
            Some(e) => res matches Ok(s) && s@ == e && supported_encodings@.contains(s),
            None => res == Err::<&'static str, LoquiError>(LoquiError::NoCommonEncoding),
        },
{
    let ghost client = string_views(client_encodings@);
    let ghost supported = str_views(supported_encodings@);
    let mut i: usize = 0;
    assert(client.skip(0) =~= client);
    while i < client_encodings.len()
        invariant
            i <= client_encodings@.len(),
            client == string_views(client_encodings@),
            supported == str_views(supported_encodings@),
            first_supported(client, supported) == first_supported(client.skip(i as int), supported),
        decreases client_encodings@.len() - i,
    {
        let client_encoding = client_encodings[i].as_str();
        assert(client.skip(i as int)[0] == client_encoding@);
        assert(client.skip(i as int).drop_first() =~= client.skip(i + 1));
        if let Some(encoding) = find_encoding(client_encoding, supported_encodings) {
            proof {
                let k = choose|k: int|
                    0 <= k < supported_encodings@.len() && supported_encodings@[k] == encoding
                        && forall|j: int| 0 <= j < k ==> supported_encodings@[j]@ != client_encoding@;
                assert(supported_encodings@.contains(encoding));
            }
            return Ok(encoding);
        }
        i = i + 1;
    }
    assert(client.skip(i as int).len() == 0);
    Err(LoquiError::NoCommonEncoding)
}

/// The server's answer to a `Hello`: an unsupported version or no common
/// encoding is refused; else the handshake is ready with the first of the
/// client's encodings that the server supports, and the `HelloAck` echoes the
/// flags and carries the ping interval and that encoding, with no compression.
pub open spec fn hello_answered(
    hello: HelloModel,
    ping_interval_ms: u32,
    supported: Seq<&'static str>,
    res: Result<(Ready, HelloAck), LoquiError>,
) -> bool {
    if hello.version != VERSION {
        res == Err::<(Ready, HelloAck), LoquiError>(
            LoquiError::UnsupportedVersion { expected: VERSION, actual: hello.version },
        )
    } else {
        match first_supported(hello.encodings, str_views(supported)) {
            Some(e) => res matches Ok((ready, ack)) && ready.ping_interval_ms == ping_interval_ms
                && ready.transport_options.encoding@ == e && supported.contains(
                ready.transport_options.encoding,
            ) && ready.transport_options.compression is None && ack@ == (HelloAckModel {
                flags: hello.flags,
                ping_interval_ms,
                encoding: e,
                compression: None,
            }),
            None => res == Err::<(Ready, HelloAck), LoquiError>(LoquiError::NoCommonEncoding),
        }
    }
}

/// The server's answer to a `Hello`: the version must be ours and an
/// encoding must be common; the `HelloAck` echoes the flags and carries the
/// ping interval and the encoding, with no compression.
pub fn handle_handshake_hello(
    hello: Hello,
    ping_interval_ms: u32,
    supported_encodings: &[&'static str],
) -> (res: Result<(Ready, HelloAck), LoquiError>)
    ensures
        hello_answered(hello@, ping_interval_ms, supported_encodings@, res),
{
    if hello.version != VERSION {
        return Err(LoquiError::UnsupportedVersion { expected: VERSION, actual: hello.version });
    }
    let encoding = match negotiate_encoding(&hello.encodings, supported_encodings) {
        Ok(encoding) => encoding,
        Err(e) => return Err(e),
    };
    let hello_ack = HelloAck {
        flags: hello.flags,
        ping_interval_ms,
        encoding: encoding.to_owned(),
        compression: None,
    };
    let ready = Ready {
        ping_interval_ms,
        transport_options: TransportOptions { encoding, compression: None },
    };
    Ok((ready, hello_ack))
}

/// The server's handshake step on the first frame: a `Hello` is answered,
/// a `GoAway` ends the handshake, anything else is out of place.
pub fn handle_handshake_frame(
    frame: LoquiFrame,
    ping_interval_ms: u32,
    supported_encodings: &[&'static str],
) -> (res: Result<(Ready, HelloAck), LoquiError>)
    ensures
        match frame {
            LoquiFrame::Hello(h) => hello_answered(h@, ping_interval_ms, supported_encodings@, res),
            LoquiFrame::GoAway(g) => res matches Err(LoquiError::ToldToGoAway { go_away }) && go_away == g,
            _ => res == Err::<(Ready, HelloAck), LoquiError>(
                LoquiError::InvalidOpcode { actual: frame@.opcode(), expected: Some(Hello::OPCODE) },
            ),
        },
{
    match frame {
        LoquiFrame::Hello(hello) => handle_handshake_hello(hello, ping_interval_ms, supported_encodings),
        LoquiFrame::GoAway(go_away) => Err(LoquiError::ToldToGoAway { go_away }),
        frame => Err(LoquiError::InvalidOpcode { actual: frame.opcode(), expected: Some(Hello::OPCODE) }),
    }
}


/// What the server does with a delegated frame: a push goes to the request
/// handler, a request goes to it and its answer is sent back; responses and
/// errors from a client are ignored.
#[derive(Debug)]
pub enum ServerWork {
    Push { payload: Vec<u8> },
    Request { sequence_id: u32, payload: Vec<u8> },
    Ignore,
}

/// How a delegated frame is routed: a push's payload and a request's
/// payload and sequence id go to the request handler; the rest is ignored.
pub open spec fn routed(frame: DelegatedFrame, res: ServerWork) -> bool {
    match frame {
        DelegatedFrame::Push(p) => res matches ServerWork::Push { payload } && payload@ == p.payload@,
        DelegatedFrame::Request(r) => res matches ServerWork::Request { sequence_id, payload }
            && sequence_id == r.sequence_id && payload@ == r.payload@,
        _ => res is Ignore,
    }
}

/// Routes a delegated frame to the request handler.
pub fn route_frame(frame: DelegatedFrame) -> (res: ServerWork)
    ensures
        routed(frame, res),
{
    match frame {
        DelegatedFrame::Push(Push { payload, flags: _flags }) => ServerWork::Push { payload },
        DelegatedFrame::Request(Request { payload, flags: _flags, sequence_id }) => ServerWork::Request {
            sequence_id,
            payload,
        },
        DelegatedFrame::Error(_) => ServerWork::Ignore,
        DelegatedFrame::Response(_) => ServerWork::Ignore,
    }
}

/// `res` is the response with `sequence_id` and `payload`, with no flags set.
pub open spec fn response_for(sequence_id: u32, payload: Seq<u8>, res: Response) -> bool {
    res.flags == 0 && res.sequence_id == sequence_id && res.payload@ == payload
}

/// The response to a request: it carries the request's sequence id and the
/// request handler's answer.
pub fn make_response(sequence_id: u32, payload: Vec<u8>) -> (res: Response)
    ensures
        response_for(sequence_id, payload@, res),
        res.payload == payload,
{
    Response { flags: 0, sequence_id, payload }
}

/// The server replies to a request with a response that carries the
/// request's sequence id, whatever the request handler answers.
pub proof fn law_response_answers_its_request(request: Request, work: ServerWork, answer: Seq<u8>, response: Response)
    requires
        routed(DelegatedFrame::Request(request), work),
        work matches ServerWork::Request { sequence_id, .. } && response_for(sequence_id, answer, response),
    ensures
        response.sequence_id == request.sequence_id,
        response.payload@ == answer,
{
}

/// The negotiated encoding is one both sides support, and the client's most
/// preferred such one; there is none exactly when the two lists share nothing.
pub proof fn law_negotiated_encoding_is_common(client: Seq<Seq<char>>, supported: Seq<Seq<char>>)
    ensures
        first_supported(client, supported) matches Some(e) ==> client.contains(e) && supported.contains(e)
            && exists|i: int| 0 <= i < client.len() && client[i] == e && forall|j: int| 0 <= j < i ==> !supported.contains(#[trigger] client[j]),
        first_supported(client, supported) is None <==> forall|i: int| 0 <= i < client.len() ==> !supported.contains(#[trigger] client[i]),
    decreases client.len(),
{
    if client.len() > 0 {
        law_negotiated_encoding_is_common(client.drop_first(), supported);
        if !supported.contains(client[0]) {
            if let Some(e) = first_supported(client.drop_first(), supported) {
                let i = choose|i: int| 0 <= i < client.drop_first().len() && client.drop_first()[i] == e && forall|j: int| 0 <= j < i ==> !supported.contains(#[trigger] client.drop_first()[j]);
                assert(client[i + 1] == e);
                assert forall|j: int| 0 <= j < i + 1 implies !supported.contains(#[trigger] client[j]) by {
                    if j > 0 {
                        assert(client[j] == client.drop_first()[j - 1]);
                    }
                }
                assert(client.contains(e));
            } else {
                assert forall|i: int| 0 <= i < client.len() implies !supported.contains(#[trigger] client[i]) by {
                    if i > 0 {
                        assert(client[i] == client.drop_first()[i - 1]);
                    }
                }
            }
        } else {
            assert(client.contains(client[0]));
        }
    }
}

/// `e` is one of the supported encodings.
pub open spec fn supports(supported: Seq<&'static str>, e: Seq<char>) -> bool {
    exists|j: int| 0 <= j < supported.len() && (#[trigger] supported[j])@ == e
}

/// The server answers a `Hello` in the client's order of preference: it
/// succeeds exactly when the version is ours and some client encoding is
/// supported, and then the encoding of the `HelloAck` and of the settings is
/// the client's earliest encoding that the server supports, with the ping
/// interval and the `Hello`'s flags.
pub proof fn law_server_picks_clients_first_common_encoding(
    hello: HelloModel,
    ping_interval_ms: u32,
    supported: Seq<&'static str>,
    res: Result<(Ready, HelloAck), LoquiError>,
)
    requires
        hello_answered(hello, ping_interval_ms, supported, res),
    ensures
        res is Ok <==> (hello.version == VERSION && exists|i: int|
            0 <= i < hello.encodings.len() && supports(supported, #[trigger] hello.encodings[i])),
        hello.version != VERSION ==> res == Err::<(Ready, HelloAck), LoquiError>(
            LoquiError::UnsupportedVersion { expected: VERSION, actual: hello.version },
        ),
        res matches Ok((ready, ack)) ==> exists|i: int|
            0 <= i < hello.encodings.len() && #[trigger] hello.encodings[i] == ack@.encoding
                && ready.transport_options.encoding@ == hello.encodings[i]
                && supported.contains(ready.transport_options.encoding)
                && (forall|m: int| 0 <= m < i ==> !supports(supported, #[trigger] hello.encodings[m]))
                && ack@.flags == hello.flags && ack@.ping_interval_ms == ping_interval_ms
                && ready.ping_interval_ms == ping_interval_ms && ack@.compression is None,
{
    let client = hello.encodings;
    let views = str_views(supported);
    assert forall|e: Seq<char>| views.contains(e) <==> supports(supported, e) by {
        if views.contains(e) {
            let j = choose|j: int| 0 <= j < views.len() && views[j] == e;
            assert(supported[j]@ == e);
        }
        if supports(supported, e) {
            let j = choose|j: int| 0 <= j < supported.len() && (#[trigger] supported[j])@ == e;
            assert(views[j] == e);
        }
    }
    law_negotiated_encoding_is_common(client, views);
    if hello.version == VERSION {
        match first_supported(client, views) {
            Some(e) => {
                let i = choose|i: int|
                    0 <= i < client.len() && client[i] == e && forall|j: int|
                        0 <= j < i ==> !views.contains(#[trigger] client[j]);
                assert(supports(supported, client[i]));
            },
            None => {
                assert forall|i: int| 0 <= i < client.len() implies !supports(supported, #[trigger] client[i]) by {
                    assert(!views.contains(client[i]));
                }
            },
        }
    }
}

} // verus!
