//! Errors of a connection and the close codes sent for them.
use vstd::prelude::*;
use crate::error::ProtocolError;
use crate::frames::GoAway;
use crate::upgrade::UpgradeFrame;

verus! {

/// Why a connection failed or closed.
#[allow(inconsistent_fields)]
#[derive(Debug, PartialEq, Clone)]
pub enum LoquiError {
    TcpStreamClosed,
    ConnectionCloseRequested,
    ConnectionClosed,
    InvalidUpgradeFrame { frame: UpgradeFrame },
    NotReady,
    ToldToGoAway { go_away: GoAway },
    InvalidOpcode { actual: u8, expected: Option<u8> },
    UnsupportedVersion { expected: u8, actual: u8 },
    NoCommonEncoding,
    NoCommonCompression,
    InvalidEncoding,
    InvalidCompression,
    PingTimeout,
    InternalServerError { error: String },
    EventReceiveError,
    ReadySendFailed,
    RequestTimeout,
    ReachedMaxBackoffElapsedTime,
    NoClientEncoding,
}

/// The code a `GoAway` frame carries.
#[derive(Debug, PartialEq, Eq, Clone, Copy)]
pub enum LoquiErrorCode {
    /// The connection is closing cleanly.
    Normal,
    /// The connection received an opcode it cannot handle.
    InvalidOpcode,
    /// The connection does not support the version.
    UnsupportedVersion,
    /// There are no common encodings.
    NoCommonEncoding,
    /// The client refuses the encoding the server chose.
    InvalidEncoding,
    /// The client refuses the compression the server chose.
    InvalidCompression,
    /// No pong came back within a ping interval.
    PingTimeout,
    /// A single request died due to an error.
    InternalServerError,
}

impl LoquiErrorCode {
    /// The number of a code on the wire.
    pub open spec fn spec_value(self) -> u16 {
        match self {
            LoquiErrorCode::Normal => 0,
            LoquiErrorCode::InvalidOpcode => 1,
            LoquiErrorCode::UnsupportedVersion => 2,
            LoquiErrorCode::NoCommonEncoding => 3,
            LoquiErrorCode::InvalidEncoding => 4,
            LoquiErrorCode::InvalidCompression => 5,
            LoquiErrorCode::PingTimeout => 6,
            LoquiErrorCode::InternalServerError => 7,
        }
    }

    /// The number of a code on the wire.
    pub fn value(self) -> (res: u16)
        ensures
            res == self.spec_value(),
    {
        match self {
            LoquiErrorCode::Normal => 0,
            LoquiErrorCode::InvalidOpcode => 1,
            LoquiErrorCode::UnsupportedVersion => 2,
            LoquiErrorCode::NoCommonEncoding => 3,
            LoquiErrorCode::InvalidEncoding => 4,
            LoquiErrorCode::InvalidCompression => 5,
            LoquiErrorCode::PingTimeout => 6,
            LoquiErrorCode::InternalServerError => 7,
        }
    }
}

impl LoquiError {
    /// The close code for an error.
    pub open spec fn spec_code(&self) -> LoquiErrorCode {
        match self {
            LoquiError::InvalidOpcode { .. } => LoquiErrorCode::InvalidOpcode,
            LoquiError::UnsupportedVersion { .. } => LoquiErrorCode::UnsupportedVersion,
            LoquiError::NoCommonEncoding => LoquiErrorCode::NoCommonEncoding,
            LoquiError::InvalidEncoding => LoquiErrorCode::InvalidEncoding,
            LoquiError::InvalidCompression => LoquiErrorCode::InvalidCompression,
            LoquiError::PingTimeout => LoquiErrorCode::PingTimeout,
            LoquiError::ConnectionCloseRequested => LoquiErrorCode::Normal,
            _ => LoquiErrorCode::InternalServerError,
        }
    }

    /// The close code for an error: a requested close is normal, protocol
    /// violations have their own codes, anything else is an internal error.
    pub fn code(&self) -> (res: LoquiErrorCode)
        ensures
            res == self.spec_code(),
    {
        match self {
            LoquiError::InvalidOpcode { .. } => LoquiErrorCode::InvalidOpcode,
            LoquiError::UnsupportedVersion { .. } => LoquiErrorCode::UnsupportedVersion,
            LoquiError::NoCommonEncoding => LoquiErrorCode::NoCommonEncoding,
            LoquiError::InvalidEncoding => LoquiErrorCode::InvalidEncoding,
            LoquiError::InvalidCompression => LoquiErrorCode::InvalidCompression,
            LoquiError::PingTimeout => LoquiErrorCode::PingTimeout,
            // Normal close.
            LoquiError::ConnectionCloseRequested => LoquiErrorCode::Normal,
            _ => LoquiErrorCode::InternalServerError,
        }
    }
}

/// Any error that ends a connection or a request: a malformed frame, a
/// connection error, an I/O error (of which only whether it is a timeout
/// matters here), text that is not UTF-8, or an error with a message.
#[derive(Debug, PartialEq, Clone)]
pub enum Failure {
    Protocol(ProtocolError),
    Loqui(LoquiError),
    Io { timed_out: bool },
    /// Bytes that should have been UTF-8 text were not.
    InvalidUtf8,
    Message(String),
}

/// Whether an error is an I/O timeout.
pub open spec fn is_timeout(error: Failure) -> bool {
    match error {
        Failure::Io { timed_out } => timed_out,
        _ => false,
    }
}

/// The error an optional reference points to.
pub open spec fn deref_error(error: Option<&Failure>) -> Option<Failure> {
    match error {
        Some(e) => Some(*e),
        None => None,
    }
}

/// Turns an I/O timeout into `LoquiError::RequestTimeout`; keeps any other error.
pub fn convert_timeout_error(error: Failure) -> (res: Failure)
    ensures
        is_timeout(error) ==> res == Failure::Loqui(LoquiError::RequestTimeout),
        !is_timeout(error) ==> res == error,
{
    match error {
        Failure::Io { timed_out } => {
            if timed_out {
                Failure::Loqui(LoquiError::RequestTimeout)
            } else {
                Failure::Io { timed_out }
            }
        },
        error => error,
    }
}

/// The code sent in the `GoAway` for an error, or for a clean close.
pub open spec fn spec_go_away_code(error: Option<Failure>) -> LoquiErrorCode {
    match error {
        None => LoquiErrorCode::Normal,
        Some(Failure::Protocol(ProtocolError::InvalidOpcode { .. })) => LoquiErrorCode::InvalidOpcode,
        Some(Failure::Protocol(_)) => LoquiErrorCode::InternalServerError,
        Some(Failure::Loqui(e)) => e.spec_code(),
        Some(_) => LoquiErrorCode::InternalServerError,
    }
}

/// The code sent in the `GoAway` for an error, or for a clean close.
pub fn go_away_code(error: Option<&Failure>) -> (res: LoquiErrorCode)
    ensures
        res == spec_go_away_code(deref_error(error)),
{
    match error {
        None => LoquiErrorCode::Normal,
        Some(error) => match error {
            Failure::Protocol(protocol_error) => match protocol_error {
                ProtocolError::InvalidOpcode { .. } => LoquiErrorCode::InvalidOpcode,
                ProtocolError::PayloadTooLarge { .. }
                | ProtocolError::InvalidPayload { .. } => LoquiErrorCode::InternalServerError,
            },
            Failure::Loqui(loqui_error) => loqui_error.code(),
            _ => LoquiErrorCode::InternalServerError,
        },
    }
}

/// `res` is what is sent before closing for `error`: nothing when this side
/// sends no `GoAway`, else a `GoAway` with no payload and the error's code.
pub open spec fn is_close_frame(send_go_away: bool, error: Option<Failure>, res: Option<GoAway>) -> bool {
    if send_go_away {
        res matches Some(g) && g.flags == 0 && g.payload@.len() == 0 && g.code
            == spec_go_away_code(error).spec_value()
    } else {
        res is None
    }
}

/// The frame to send before closing a connection: a `GoAway` with the code
/// for the error, when the connection sends one.
pub fn close_frame(send_go_away: bool, error: Option<&Failure>) -> (res: Option<GoAway>)
    ensures
        is_close_frame(send_go_away, deref_error(error), res),
{
    if !send_go_away {
        return None;
    }
    Some(GoAway { flags: 0, code: go_away_code(error).value(), payload: Vec::new() })
}

/// Each connection error closes with its own code: a requested close is
/// normal (0), an invalid opcode 1, an unsupported version 2, no common
/// encoding 3, an invalid encoding 4, an invalid compression 5, a ping
/// timeout 6, and every other error 7; the `GoAway` sent for the error
/// carries that code.
pub proof fn law_error_close_codes(actual: u8, expected: Option<u8>, expected_version: u8, actual_version: u8, other: LoquiError)
    requires
        !(other is InvalidOpcode || other is UnsupportedVersion || other is NoCommonEncoding
            || other is InvalidEncoding || other is InvalidCompression || other is PingTimeout
            || other is ConnectionCloseRequested),
    ensures
        (LoquiError::ConnectionCloseRequested).spec_code().spec_value() == 0,
        (LoquiError::InvalidOpcode { actual, expected }).spec_code().spec_value() == 1,
        (LoquiError::UnsupportedVersion { expected: expected_version, actual: actual_version }).spec_code().spec_value() == 2,
        (LoquiError::NoCommonEncoding).spec_code().spec_value() == 3,
        (LoquiError::InvalidEncoding).spec_code().spec_value() == 4,
        (LoquiError::InvalidCompression).spec_code().spec_value() == 5,
        (LoquiError::PingTimeout).spec_code().spec_value() == 6,
        other.spec_code().spec_value() == 7,
        spec_go_away_code(Some(Failure::Loqui(LoquiError::InvalidOpcode { actual, expected }))).spec_value() == 1,
        spec_go_away_code(Some(Failure::Protocol(ProtocolError::InvalidOpcode { opcode: actual }))).spec_value() == 1,
        spec_go_away_code(Some(Failure::Loqui(LoquiError::PingTimeout))).spec_value() == 6,
        spec_go_away_code(Some(Failure::Loqui(other))).spec_value() == 7,
        spec_go_away_code(None).spec_value() == 0,
{
}

} // verus!
