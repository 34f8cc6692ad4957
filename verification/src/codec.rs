//! Encoding frames to bytes and decoding them back from a stream of bytes.
use vstd::prelude::*;
use crate::error::{ProtocolError, ProtocolErrorModel};
use crate::frames::{
    Error as ErrorFrame, FrameModel, GoAway, Hello, HelloAck, LoquiFrame, Ping, Pong, Push, Request,
    Response, header_size, is_opcode, parse_frame, payload_size_field, encoded_facts,
    lemma_encoded_frame,
};
use crate::wire::be_u32_value;
use crate::wire::put_u32;

verus! {

/// Encodes and decodes frames.
#[derive(Debug)]
pub struct Codec {
    /// Frames announcing a larger payload are refused.
    pub max_payload_size_in_bytes: u32,
}

/// What a decoder yields: a frame, nothing yet (more bytes are needed), or an error.
pub open spec fn decoded_view(res: Result<Option<LoquiFrame>, ProtocolError>) -> Result<
    Option<FrameModel>,
    ProtocolErrorModel,
> {
    match res {
        Ok(Some(f)) => Ok(Some(f@)),
        Ok(None) => Ok(None),
        Err(e) => Err(e@),
    }
}

/// The number of bytes a frame takes on the wire, announced by its header.
pub open spec fn required_len(opcode: u8, buf: Seq<u8>) -> int {
    header_size(opcode) + payload_size_field(opcode, buf)
}

/// What decoding the start of `buf` yields, with payloads limited to `max` bytes.
pub open spec fn decode_outcome(max: u32, buf: Seq<u8>) -> Result<Option<FrameModel>, ProtocolErrorModel> {
    if buf.len() == 0 {
        Ok(None)
    } else if !is_opcode(buf[0]) {
        Err(ProtocolErrorModel::InvalidOpcode(buf[0]))
    } else if buf.len() < header_size(buf[0]) {
        Ok(None)
    } else if payload_size_field(buf[0], buf) > max {
        Err(ProtocolErrorModel::PayloadTooLarge(payload_size_field(buf[0], buf), max))
    } else if buf.len() < required_len(buf[0], buf) {
        Ok(None)
    } else {
        match parse_frame(buf[0], buf.take(required_len(buf[0], buf))) {
            Ok(f) => Ok(Some(f)),
            Err(e) => Err(e),
        }
    }
}

/// How many bytes decoding the start of `buf` consumes: a whole frame once its
/// bytes are all there (even when its payload turns out malformed), else none.
pub open spec fn decode_consumed(max: u32, buf: Seq<u8>) -> int {
    if buf.len() == 0 || !is_opcode(buf[0]) || buf.len() < header_size(buf[0])
        || payload_size_field(buf[0], buf) > max || buf.len() < required_len(buf[0], buf) {
        0
    } else {
        required_len(buf[0], buf)
    }
}

impl Codec {
    /// A codec that refuses payloads above `max_payload_size` bytes; the size is
    /// kept as a `u32`, truncated as `as` does.
    pub fn new(max_payload_size: u64) -> (res: Codec)
        ensures
            res.max_payload_size_in_bytes == max_payload_size as u32,
    {
        Codec { max_payload_size_in_bytes: max_payload_size as u32 }
    }

    /// Appends the bytes of a frame to `dst`.
    pub fn encode(&mut self, item: LoquiFrame, dst: &mut Vec<u8>) -> (res: Result<(), ProtocolError>)
        ensures
            res is Ok,
            final(dst)@ == old(dst)@ + item@.encode(),
            *final(self) == *old(self),
    {
        match item {
            LoquiFrame::Hello(frame) => {
                frame.put_header(dst);
                let payload = frame.payload();
                put_payload(payload, dst);
            },
            LoquiFrame::HelloAck(frame) => {
                frame.put_header(dst);
                let payload = frame.payload();
                put_payload(payload, dst);
            },
            LoquiFrame::Ping(frame) => {
                frame.put_header(dst);
                let payload = frame.payload();
                put_payload(payload, dst);
            },
            LoquiFrame::Pong(frame) => {
                frame.put_header(dst);
                let payload = frame.payload();
                put_payload(payload, dst);
            },
            LoquiFrame::Request(frame) => {
                frame.put_header(dst);
                let payload = frame.payload();
                put_payload(payload, dst);
            },
            LoquiFrame::Response(frame) => {
                frame.put_header(dst);
                let payload = frame.payload();
                put_payload(payload, dst);
            },
            LoquiFrame::Push(frame) => {
                frame.put_header(dst);
                let payload = frame.payload();
                put_payload(payload, dst);
            },
            LoquiFrame::GoAway(frame) => {
                frame.put_header(dst);
                let payload = frame.payload();
                put_payload(payload, dst);
            },
            LoquiFrame::Error(frame) => {
                frame.put_header(dst);
                let payload = frame.payload();
                put_payload(payload, dst);
            },
        }
        Ok(())
    }

    /// Decodes one frame from the start of `buf`, removing its bytes. Yields
    /// `None`, and leaves `buf` as it is, while the frame is incomplete.
    pub fn decode(&mut self, buf: &mut Vec<u8>) -> (res: Result<Option<LoquiFrame>, ProtocolError>)
        ensures
            decoded_view(res) == decode_outcome(old(self).max_payload_size_in_bytes, old(buf)@),
            final(buf)@ == old(buf)@.skip(
                decode_consumed(old(self).max_payload_size_in_bytes, old(buf)@),
            ),
            *final(self) == *old(self),
    {
        if buf.len() == 0 {
            return Ok(None);
        }
        let opcode = buf[0];
        if opcode < Hello::OPCODE || opcode > ErrorFrame::OPCODE {
            return Err(ProtocolError::InvalidOpcode { opcode });
        }
        decode(self, opcode, buf)
    }
}

/// Appends the payload size and the payload, when there is a payload.
fn put_payload(payload: Option<Vec<u8>>, dst: &mut Vec<u8>)
    ensures
        final(dst)@ == old(dst)@ + match payload {
            Some(p) => crate::frames::with_len(p@),
            None => Seq::<u8>::empty(),
        },
{
    match payload {
        Some(p) => {
            put_u32(dst, p.len() as u32);
            dst.extend_from_slice(p.as_slice());
        },
        None => {},
    }
    assert(final(dst)@ =~= old(dst)@ + match payload {
        Some(p) => crate::frames::with_len(p@),
        None => Seq::<u8>::empty(),
    });
}

/// The header size of a frame, by opcode.
fn header_size_of(opcode: u8) -> (res: usize)
    requires
        is_opcode(opcode),
    ensures
        res == header_size(opcode),
{
    if opcode == Hello::OPCODE {
        Hello::HEADER_SIZE_IN_BYTES
    } else if opcode == HelloAck::OPCODE {
        HelloAck::HEADER_SIZE_IN_BYTES
    } else if opcode == Ping::OPCODE {
        Ping::HEADER_SIZE_IN_BYTES
    } else if opcode == Pong::OPCODE {
        Pong::HEADER_SIZE_IN_BYTES
    } else if opcode == Request::OPCODE {
        Request::HEADER_SIZE_IN_BYTES
    } else if opcode == Response::OPCODE {
        Response::HEADER_SIZE_IN_BYTES
    } else if opcode == Push::OPCODE {
        Push::HEADER_SIZE_IN_BYTES
    } else if opcode == GoAway::OPCODE {
        GoAway::HEADER_SIZE_IN_BYTES
    } else {
        ErrorFrame::HEADER_SIZE_IN_BYTES
    }
}

/// The payload size announced by a header, by opcode.
fn read_payload_size(opcode: u8, buf: &[u8]) -> (res: u32)
    requires
        is_opcode(opcode),
        buf@.len() >= header_size(opcode),
    ensures
        res == payload_size_field(opcode, buf@),
{
    if opcode == Hello::OPCODE {
        Hello::read_payload_size(buf)
    } else if opcode == HelloAck::OPCODE {
        HelloAck::read_payload_size(buf)
    } else if opcode == Ping::OPCODE {
        Ping::read_payload_size(buf)
    } else if opcode == Pong::OPCODE {
        Pong::read_payload_size(buf)
    } else if opcode == Request::OPCODE {
        Request::read_payload_size(buf)
    } else if opcode == Response::OPCODE {
        Response::read_payload_size(buf)
    } else if opcode == Push::OPCODE {
        Push::read_payload_size(buf)
    } else if opcode == GoAway::OPCODE {
        GoAway::read_payload_size(buf)
    } else {
        ErrorFrame::read_payload_size(buf)
    }
}

/// Reads a frame from its complete bytes, by opcode.
fn from_buf(opcode: u8, buf: &[u8]) -> (res: Result<Option<LoquiFrame>, ProtocolError>)
    requires
        is_opcode(opcode),
        buf@.len() >= header_size(opcode),
    ensures
        decoded_view(res) == match parse_frame(opcode, buf@) {
            Ok(f) => Ok(Some(f)),
            Err(e) => Err::<Option<FrameModel>, ProtocolErrorModel>(e),
        },
{
    if opcode == Hello::OPCODE {
        match Hello::from_buf(buf) {
            Ok(Some(f)) => Ok(Some(LoquiFrame::Hello(f))),
            Ok(None) => Ok(None),
            Err(e) => Err(e),
        }
    } else if opcode == HelloAck::OPCODE {
        match HelloAck::from_buf(buf) {
            Ok(Some(f)) => Ok(Some(LoquiFrame::HelloAck(f))),
            Ok(None) => Ok(None),
            Err(e) => Err(e),
        }
    } else if opcode == Ping::OPCODE {
        match Ping::from_buf(buf) {
            Ok(Some(f)) => Ok(Some(LoquiFrame::Ping(f))),
            Ok(None) => Ok(None),
            Err(e) => Err(e),
        }
    } else if opcode == Pong::OPCODE {
        match Pong::from_buf(buf) {
            Ok(Some(f)) => Ok(Some(LoquiFrame::Pong(f))),
            Ok(None) => Ok(None),
            Err(e) => Err(e),
        }
    } else if opcode == Request::OPCODE {
        match Request::from_buf(buf) {
            Ok(Some(f)) => Ok(Some(LoquiFrame::Request(f))),
            Ok(None) => Ok(None),
            Err(e) => Err(e),
        }
    } else if opcode == Response::OPCODE {
        match Response::from_buf(buf) {
            Ok(Some(f)) => Ok(Some(LoquiFrame::Response(f))),
            Ok(None) => Ok(None),
            Err(e) => Err(e),
        }
    } else if opcode == Push::OPCODE {
        match Push::from_buf(buf) {
            Ok(Some(f)) => Ok(Some(LoquiFrame::Push(f))),
            Ok(None) => Ok(None),
            Err(e) => Err(e),
        }
    } else if opcode == GoAway::OPCODE {
        match GoAway::from_buf(buf) {
            Ok(Some(f)) => Ok(Some(LoquiFrame::GoAway(f))),
            Ok(None) => Ok(None),
            Err(e) => Err(e),
        }
    } else {
        match ErrorFrame::from_buf(buf) {
            Ok(Some(f)) => Ok(Some(LoquiFrame::Error(f))),
            Ok(None) => Ok(None),
            Err(e) => Err(e),
        }
    }
}

/// Decodes a frame of a known opcode from the start of `buf`.
fn decode(codec: &Codec, opcode: u8, buf: &mut Vec<u8>) -> (res: Result<
    Option<LoquiFrame>,
    ProtocolError,
>)
    requires
        old(buf)@.len() > 0,
        old(buf)@[0] == opcode,
        is_opcode(opcode),
    ensures
        decoded_view(res) == decode_outcome(codec.max_payload_size_in_bytes, old(buf)@),
        final(buf)@ == old(buf)@.skip(decode_consumed(codec.max_payload_size_in_bytes, old(buf)@)),
{
    let header = header_size_of(opcode);
    if buf.len() < header {
        // Not enough data for a frame. Wait for more.
        assert(old(buf)@.skip(0) =~= old(buf)@);
        return Ok(None);
    }
    let payload_size = read_payload_size(opcode, buf.as_slice());
    if payload_size > codec.max_payload_size_in_bytes {
        assert(old(buf)@.skip(0) =~= old(buf)@);
        return Err(
            ProtocolError::PayloadTooLarge {
                actual: payload_size,
                max: codec.max_payload_size_in_bytes,
            },
        );
    }
    let required_len: u64 = header as u64 + payload_size as u64;
    if (buf.len() as u64) < required_len {
        // Don't have the complete payload. Wait for more.
        assert(old(buf)@.skip(0) =~= old(buf)@);
        return Ok(None);
    }
    let required_len = required_len as usize;
    let mut frame_buf = buf.split_off(required_len);
    std::mem::swap(&mut frame_buf, buf);
    assert(frame_buf@ =~= old(buf)@.take(required_len as int));
    assert(buf@ =~= old(buf)@.skip(required_len as int));
    from_buf(opcode, frame_buf.as_slice())
}


/// Decoding the bytes of a well-formed frame, whatever follows them, yields
/// that frame and consumes exactly its bytes.
pub proof fn law_decode_encode(max: u32, f: FrameModel, rest: Seq<u8>)
    requires
        f.well_formed(max),
    ensures
        decode_outcome(max, f.encode() + rest) == Ok::<Option<FrameModel>, ProtocolErrorModel>(
            Some(f),
        ),
        decode_consumed(max, f.encode() + rest) == f.encode().len(),
{
    lemma_encoded_frame(f, max, rest);
    let b = f.encode() + rest;
    assert(b.take(f.encode().len() as int) =~= f.encode());
}

/// While only part of a well-formed frame's bytes has arrived, decoding
/// yields nothing and consumes nothing.
pub proof fn law_decode_incomplete(max: u32, f: FrameModel, n: int)
    requires
        f.well_formed(max),
        0 <= n < f.encode().len(),
    ensures
        decode_outcome(max, f.encode().take(n)) == Ok::<Option<FrameModel>, ProtocolErrorModel>(
            None,
        ),
        decode_consumed(max, f.encode().take(n)) == 0,
{
    lemma_encoded_frame(f, max, Seq::<u8>::empty());
    let e = f.encode();
    assert(e + Seq::<u8>::empty() =~= e);
    let b = e.take(n);
    let op = f.opcode();
    if n > 0 && n >= header_size(op) {
        if op != 3 && op != 4 {
            let k = header_size(op) - 4;
            assert(b.skip(k).take(4) =~= e.skip(k).take(4));
            assert(be_u32_value(b.skip(k)) == be_u32_value(e.skip(k))) by {
                assert(b.skip(k)[0] == e.skip(k)[0]);
                assert(b.skip(k)[1] == e.skip(k)[1]);
                assert(b.skip(k)[2] == e.skip(k)[2]);
                assert(b.skip(k)[3] == e.skip(k)[3]);
            }
        }
        assert(payload_size_field(op, b) == payload_size_field(op, e));
    }
}

/// An empty buffer decodes to nothing.
pub proof fn law_decode_empty(max: u32)
    ensures
        decode_outcome(max, Seq::<u8>::empty()) == Ok::<Option<FrameModel>, ProtocolErrorModel>(
            None,
        ),
        decode_consumed(max, Seq::<u8>::empty()) == 0,
{
}

} // verus!
