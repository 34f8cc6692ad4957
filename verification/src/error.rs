//! Errors raised while decoding frames.
use vstd::prelude::*;

verus! {

/// A malformed frame on the wire.
#[derive(Debug, PartialEq, Clone)]
pub enum ProtocolError {
    /// The first byte of a frame is not one of the nine opcodes.
    InvalidOpcode { opcode: u8 },
    /// The payload of a frame could not be read.
    InvalidPayload { reason: String },
    /// The payload size announced in a frame header is above the codec's maximum.
    PayloadTooLarge { actual: u32, max: u32 },
}

/// The mathematical value of a `ProtocolError`.
pub enum ProtocolErrorModel {
    InvalidOpcode(u8),
    InvalidPayload(Seq<char>),
    PayloadTooLarge(u32, u32),
}

impl View for ProtocolError {
    type V = ProtocolErrorModel;

    open spec fn view(&self) -> ProtocolErrorModel {
        match self {
            ProtocolError::InvalidOpcode { opcode } => ProtocolErrorModel::InvalidOpcode(*opcode),
            ProtocolError::InvalidPayload { reason } => ProtocolErrorModel::InvalidPayload(reason@),
            ProtocolError::PayloadTooLarge { actual, max } => ProtocolErrorModel::PayloadTooLarge(
                *actual,
                *max,
            ),
        }
    }
}

/// The reason given when a handshake payload is not UTF-8.
pub open spec fn reason_not_utf8() -> Seq<char> {
    "Failed to decode as string"@
}

/// The reason given when a handshake payload does not hold two settings.
pub open spec fn reason_not_two_settings() -> Seq<char> {
    "Expected exactly two settings."@
}

impl ProtocolError {
    /// The error for a handshake payload that is not UTF-8.
    pub fn not_utf8() -> (res: ProtocolError)
        ensures
            res@ == ProtocolErrorModel::InvalidPayload(reason_not_utf8()),
    {
        ProtocolError::InvalidPayload { reason: "Failed to decode as string".to_owned() }
    }

    /// The error for a handshake payload that does not hold exactly two settings.
    pub fn not_two_settings() -> (res: ProtocolError)
        ensures
            res@ == ProtocolErrorModel::InvalidPayload(reason_not_two_settings()),
    {
        ProtocolError::InvalidPayload { reason: "Expected exactly two settings.".to_owned() }
    }
}

} // verus!
