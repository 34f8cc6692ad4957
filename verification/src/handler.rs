//! What a connection negotiates, and the frames it hands to the client or
//! server logic.
use vstd::prelude::*;
use vstd::utf8::*;
use crate::frames::{Error as ErrorFrame, Push, Request, Response};

verus! {

/// Negotiated transport options.
#[derive(Debug, Clone, Copy, PartialEq, Eq)]
pub struct TransportOptions {
    pub encoding: &'static str,
    pub compression: Option<&'static str>,
}

/// The frames a connection delegates to its client or server logic; it
/// handles the rest itself.
#[derive(Debug, PartialEq, Clone)]
pub enum DelegatedFrame {
    Push(Push),
    Request(Request),
    Response(Response),
    Error(ErrorFrame),
}

/// Settings negotiated by the handshake.
#[derive(Debug, Clone, Copy, PartialEq, Eq)]
pub struct Ready {
    /// How often each side pings the other, in milliseconds.
    pub ping_interval_ms: u32,
    pub transport_options: TransportOptions,
}

/// Whether two strings are equal, by their UTF-8 bytes.
pub fn str_eq(a: &str, b: &str) -> (res: bool)
    ensures
        res == (a@ == b@),
{
    let x = a.as_bytes();
    let y = b.as_bytes();
    assert(x@ == encode_utf8(a@));
    assert(y@ == encode_utf8(b@));
    proof {
        encode_utf8_decode_utf8(a@);
        encode_utf8_decode_utf8(b@);
    }
    if x.len() != y.len() {
        return false;
    }
    let mut i: usize = 0;
    while i < x.len()
        invariant
            i <= x@.len(),
            x@.len() == y@.len(),
            x@ == encode_utf8(a@),
            y@ == encode_utf8(b@),
            x@.take(i as int) == y@.take(i as int),
        decreases x@.len() - i,
    {
        if x[i] != y[i] {
            assert(x@[i as int] != y@[i as int]);
            assert(x@ != y@);
            return false;
        }
        assert(x@.take(i + 1) =~= x@.take(i as int).push(x@[i as int]));
        assert(y@.take(i + 1) =~= y@.take(i as int).push(y@[i as int]));
        i = i + 1;
    }
    assert(x@.take(i as int) =~= x@);
    assert(y@.take(i as int) =~= y@);
    true
}

/// The views of a list of strings.
pub open spec fn str_views(strs: Seq<&'static str>) -> Seq<Seq<char>> {
    strs.map_values(|s: &'static str| s@)
}

/// Finds `encoding` among the supported encodings. Returns the supported
/// entry that equals it, the first one, or nothing when none does.
pub fn find_encoding(encoding: &str, supported_encodings: &[&'static str]) -> (res: Option<
    &'static str,
>)
    ensures
        res is Some <==> str_views(supported_encodings@).contains(encoding@),
        res matches Some(s) ==> s@ == encoding@ && exists|i: int|
            0 <= i < supported_encodings@.len() && supported_encodings@[i] == s && forall|j: int|
                0 <= j < i ==> supported_encodings@[j]@ != encoding@,
{
    let mut i: usize = 0;
    while i < supported_encodings.len()
        invariant
            i <= supported_encodings@.len(),
            forall|j: int| 0 <= j < i ==> supported_encodings@[j]@ != encoding@,
        decreases supported_encodings@.len() - i,
    {
        let supported_encoding = supported_encodings[i];
        if str_eq(encoding, supported_encoding) {
            proof {
                assert(str_views(supported_encodings@)[i as int] == encoding@);
            }
            return Some(supported_encoding);
        }
        i = i + 1;
    }
    proof {
        if str_views(supported_encodings@).contains(encoding@) {
            let k = choose|k: int|
                0 <= k < str_views(supported_encodings@).len() && str_views(
                    supported_encodings@,
                )[k] == encoding@;
            assert(supported_encodings@[k]@ == encoding@);
        }
    }
    None
}

impl From<Push> for DelegatedFrame {
    fn from(push: Push) -> DelegatedFrame {
        DelegatedFrame::Push(push)
    }
}

impl vstd::std_specs::convert::FromSpecImpl<Push> for DelegatedFrame {
    open spec fn obeys_from_spec() -> bool {
        true
    }

    open spec fn from_spec(v: Push) -> DelegatedFrame {
        DelegatedFrame::Push(v)
    }
}

impl From<Request> for DelegatedFrame {
    fn from(request: Request) -> DelegatedFrame {
        DelegatedFrame::Request(request)
    }
}

impl vstd::std_specs::convert::FromSpecImpl<Request> for DelegatedFrame {
    open spec fn obeys_from_spec() -> bool {
        true
    }

    open spec fn from_spec(v: Request) -> DelegatedFrame {
        DelegatedFrame::Request(v)
    }
}

impl From<Response> for DelegatedFrame {
    fn from(response: Response) -> DelegatedFrame {
        DelegatedFrame::Response(response)
    }
}

impl vstd::std_specs::convert::FromSpecImpl<Response> for DelegatedFrame {
    open spec fn obeys_from_spec() -> bool {
        true
    }

    open spec fn from_spec(v: Response) -> DelegatedFrame {
        DelegatedFrame::Response(v)
    }
}

impl From<ErrorFrame> for DelegatedFrame {
    fn from(error: ErrorFrame) -> DelegatedFrame {
        DelegatedFrame::Error(error)
    }
}

impl vstd::std_specs::convert::FromSpecImpl<ErrorFrame> for DelegatedFrame {
    open spec fn obeys_from_spec() -> bool {
        true
    }

    open spec fn from_spec(v: ErrorFrame) -> DelegatedFrame {
        DelegatedFrame::Error(v)
    }
}

} // verus!
