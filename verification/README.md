# loqui

Loqui is a small framing protocol for request/response RPC over a raw TCP
socket: nine opcodes, a binary frame format, an HTTP upgrade to open the
connection, a `Hello`/`HelloAck` handshake that negotiates the encoding, and
pings that keep the connection alive.

This crate is written in Verus. Its library, under `src/`, holds the protocol
and the decisions of a connection, each with a contract that Verus proves:

- `frames`, `codec`, `settings`, `wire`, `flags`: the frame format, the codec
  that turns bytes into frames and back, and the proof that decoding what was
  encoded gives the frame back and consumes exactly its bytes.
- `upgrade`: the HTTP upgrade exchange and its codec.
- `server`, `client`: the handshake on each side (version and encoding
  negotiation), the routing of requests, and the bookkeeping of requests that
  wait for their responses.
- `event_handler`: what a running connection does with each event: pings,
  pongs, frames to delegate, responses to send back, and when it ends.
- `connection`, `supervisor`: what a connection does between its reads and
  writes, and the reconnect loop that keeps a client's connection alive.
- `loqui_error`, `error`, `handler`, `id_sequence`: errors and their close
  codes, negotiated options, and sequence ids.

`app/` is the ordinary Rust around the library: sockets, tasks, timers and
channels (tokio), the `tokio_util` codecs over the library's codecs, the
exponential backoff, and the client and server entry points. It makes no
decision of its own: it performs what the library decides and feeds back what
happened.

`tests/` runs the library on concrete inputs, including the frame examples of
the protocol description.
