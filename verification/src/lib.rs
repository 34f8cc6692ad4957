//! Loqui: a small framing protocol for request/response RPC over a raw socket.
//!
//! The crate holds the verified core of the protocol: the binary frame format
//! and its codec, the HTTP upgrade exchange, the handshake negotiation and the
//! connection state machine.
use vstd::prelude::*;

pub mod client;
pub mod codec;
pub mod connection;
pub mod error;
pub mod flags;
pub mod event_handler;
pub mod frames;
pub mod handler;
pub mod id_sequence;
pub mod loqui_error;
pub mod wire;
pub mod server;
pub mod settings;
pub mod supervisor;
pub mod upgrade;

pub use flags::{is_compressed, make_flags, Flags};

verus! {

/// The protocol version spoken by this implementation.
pub const VERSION: u8 = 1;

} // verus!
