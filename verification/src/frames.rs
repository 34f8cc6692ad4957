//! The nine frames of the protocol and their byte layout.
//!
//! Every frame starts with its opcode and a flags byte, then a fixed header.
//! Frames with a payload end their header with the payload size (a big-endian
//! `u32`), and the payload follows.
use vstd::prelude::*;
use vstd::slice::{slice_subrange, slice_to_vec};
use vstd::utf8::*;
use crate::error::{ProtocolError, ProtocolErrorModel, reason_not_utf8, reason_not_two_settings};
use crate::settings::{
    byte_pieces, decode_pieces, decoded_pieces, join_into, join_with, split_bytes, split_on,
    split_terminator_bytes, split_terminator_on, string_views, utf8_pieces,
    lemma_split_valid_utf8, lemma_split_nonempty, strings_free_of, free_of, lemma_encode_free_of,
    lemma_pieces_free_of, lemma_join_valid, lemma_utf8_pieces, lemma_join_free_of,
    lemma_encode_nonempty, lemma_split_concat, lemma_split_no_sep, lemma_split_terminator_join,
    lemma_ascii_byte_valid,
};
use crate::wire::{
    lemma_be_u16_round_trip, lemma_be_u32_round_trip, be_u16_bytes, be_u16_value, be_u32_bytes, be_u32_value, put_u16, put_u32, put_u8, read_u16,
    read_u32, string_bytes, string_from_utf8,
};

verus! {

/// Separates the settings of a handshake payload.
pub const SETTINGS_SEPARATOR: u8 = 0x7C;

/// Separates the values of one setting in a handshake payload.
pub const VALUES_SEPARATOR: u8 = 0x2C;

pub const HELLO_OPCODE: u8 = 1;
pub const HELLO_ACK_OPCODE: u8 = 2;
pub const PING_OPCODE: u8 = 3;
pub const PONG_OPCODE: u8 = 4;
pub const REQUEST_OPCODE: u8 = 5;
pub const RESPONSE_OPCODE: u8 = 6;
pub const PUSH_OPCODE: u8 = 7;
pub const GO_AWAY_OPCODE: u8 = 8;
pub const ERROR_OPCODE: u8 = 9;

/// The size field followed by the payload.
pub open spec fn with_len(payload: Seq<u8>) -> Seq<u8> {
    be_u32_bytes(payload.len() as u32) + payload
}

/// The header size of each frame, in bytes, including the payload size field.
pub open spec fn header_size(opcode: u8) -> int {
    if opcode == HELLO_OPCODE {
        7
    } else if opcode == PING_OPCODE || opcode == PONG_OPCODE || opcode == PUSH_OPCODE {
        6
    } else if opcode == GO_AWAY_OPCODE {
        8
    } else if opcode == ERROR_OPCODE {
        12
    } else {
        10
    }
}

/// Whether a byte is one of the nine opcodes.
pub open spec fn is_opcode(opcode: u8) -> bool {
    HELLO_OPCODE <= opcode <= ERROR_OPCODE
}

/// The payload size announced by a frame header: the last four header bytes,
/// or zero for the frames without a payload.
pub open spec fn payload_size_field(opcode: u8, buf: Seq<u8>) -> u32 {
    if opcode == PING_OPCODE || opcode == PONG_OPCODE {
        0
    } else {
        be_u32_value(buf.skip(header_size(opcode) - 4))
    }
}

/// The settings of a `Hello` payload: supported encodings, then compressions.
pub open spec fn parse_hello_payload(payload: Seq<u8>) -> Result<
    (Seq<Seq<char>>, Seq<Seq<char>>),
    ProtocolErrorModel,
> {
    if !valid_utf8(payload) {
        Err(ProtocolErrorModel::InvalidPayload(reason_not_utf8()))
    } else {
        let settings = split_on(payload, SETTINGS_SEPARATOR);
        if settings.len() != 2 {
            Err(ProtocolErrorModel::InvalidPayload(reason_not_two_settings()))
        } else {
            Ok(
                (
                    decoded_pieces(split_terminator_on(settings[0], VALUES_SEPARATOR)),
                    decoded_pieces(split_terminator_on(settings[1], VALUES_SEPARATOR)),
                ),
            )
        }
    }
}

/// The settings of a `HelloAck` payload: the chosen encoding, then the chosen
/// compression, which is absent when empty.
pub open spec fn parse_hello_ack_payload(payload: Seq<u8>) -> Result<
    (Seq<char>, Option<Seq<char>>),
    ProtocolErrorModel,
> {
    if !valid_utf8(payload) {
        Err(ProtocolErrorModel::InvalidPayload(reason_not_utf8()))
    } else {
        let settings = split_on(payload, SETTINGS_SEPARATOR);
        if settings.len() != 2 {
            Err(ProtocolErrorModel::InvalidPayload(reason_not_two_settings()))
        } else {
            Ok(
                (
                    decode_utf8(settings[0]),
                    if settings[1].len() == 0 {
                        None
                    } else {
                        Some(decode_utf8(settings[1]))
                    },
                ),
            )
        }
    }
}

/// Client greeting: protocol version and supported encodings and compressions.
#[derive(Debug, PartialEq, Clone)]
pub struct Hello {
    pub flags: u8,
    pub version: u8,
    pub encodings: Vec<String>,
    pub compressions: Vec<String>,
}

#[verifier::ext_equal]
pub struct HelloModel {
    pub flags: u8,
    pub version: u8,
    pub encodings: Seq<Seq<char>>,
    pub compressions: Seq<Seq<char>>,
}

impl View for Hello {
    type V = HelloModel;

    open spec fn view(&self) -> HelloModel {
        HelloModel {
            flags: self.flags,
            version: self.version,
            encodings: string_views(self.encodings@),
            compressions: string_views(self.compressions@),
        }
    }
}

impl HelloModel {
    pub open spec fn header(self) -> Seq<u8> {
        seq![HELLO_OPCODE, self.flags, self.version]
    }

    /// Encodings joined by `,`, then `|`, then compressions joined by `,`.
    pub open spec fn payload(self) -> Seq<u8> {
        join_with(utf8_pieces(self.encodings), VALUES_SEPARATOR).push(SETTINGS_SEPARATOR)
            + join_with(utf8_pieces(self.compressions), VALUES_SEPARATOR)
    }
}

/// The `Hello` held by a complete frame.
pub open spec fn parse_hello(buf: Seq<u8>) -> Result<HelloModel, ProtocolErrorModel> {
    match parse_hello_payload(buf.skip(7)) {
        Ok((encodings, compressions)) => Ok(
            HelloModel { flags: buf[1], version: buf[2], encodings, compressions },
        ),
        Err(e) => Err(e),
    }
}

impl Hello {
    pub const OPCODE: u8 = 1;

    pub const HEADER_SIZE_IN_BYTES: usize = 7;

    /// Writes the header, without the payload size.
    pub fn put_header(&self, dst: &mut Vec<u8>)
        ensures
            final(dst)@ == old(dst)@ + self@.header(),
    {
        put_u8(dst, HELLO_OPCODE);
        put_u8(dst, self.flags);
        put_u8(dst, self.version);
        assert(final(dst)@ =~= old(dst)@ + self@.header());
    }

    /// The payload bytes.
    pub fn payload(self) -> (res: Option<Vec<u8>>)
        ensures
            res matches Some(p) && p@ == self@.payload(),
    {
        let mut out: Vec<u8> = Vec::new();
        join_into(&mut out, &self.encodings, VALUES_SEPARATOR);
        put_u8(&mut out, SETTINGS_SEPARATOR);
        join_into(&mut out, &self.compressions, VALUES_SEPARATOR);
        assert(out@ =~= self@.payload());
        Some(out)
    }

    /// The payload size held by the header.
    pub fn read_payload_size(buf: &[u8]) -> (res: u32)
        requires
            buf@.len() >= 7,
        ensures
            res == payload_size_field(HELLO_OPCODE, buf@),
    {
        read_u32(slice_subrange(buf, 3, 7))
    }

    /// Reads a `Hello` from a complete frame.
    pub fn from_buf(buf: &[u8]) -> (res: Result<Option<Hello>, ProtocolError>)
        requires
            buf@.len() >= 7,
        ensures
            match res {
                Ok(Some(h)) => parse_hello(buf@) == Ok::<HelloModel, ProtocolErrorModel>(h@),
                Ok(None) => false,
                Err(e) => parse_hello(buf@) == Err::<HelloModel, ProtocolErrorModel>(e@),
            },
    {
        let flags = buf[1];
        let version = buf[2];
        let (encodings, compressions) = match read_hello_payload(slice_subrange(buf, 7, buf.len())) {
            Ok(settings) => settings,
            Err(e) => return Err(e),
        };
        let hello = Hello { flags, version, encodings, compressions };
        assert(hello@ =~= parse_hello(buf@)->Ok_0);
        Ok(Some(hello))
    }
}

/// Reads the settings of a `Hello` payload.
fn read_hello_payload(payload: &[u8]) -> (res: Result<(Vec<String>, Vec<String>), ProtocolError>)
    ensures
        match res {
            Ok((e, c)) => parse_hello_payload(payload@) == Ok::<
                (Seq<Seq<char>>, Seq<Seq<char>>),
                ProtocolErrorModel,
            >((string_views(e@), string_views(c@))),
            Err(err) => parse_hello_payload(payload@) == Err::<
                (Seq<Seq<char>>, Seq<Seq<char>>),
                ProtocolErrorModel,
            >(err@),
        },
{
    let text = match string_from_utf8(slice_to_vec(payload)) {
        Some(text) => text,
        None => return Err(ProtocolError::not_utf8()),
    };
    let bytes = string_bytes(&text);
    assert(bytes@ == payload@);
    let settings = split_bytes(bytes, SETTINGS_SEPARATOR);
    if settings.len() != 2 {
        return Err(ProtocolError::not_two_settings());
    }
    proof {
        lemma_split_valid_utf8(payload@, SETTINGS_SEPARATOR);
        assert(valid_utf8(byte_pieces(settings@)[0]));
        assert(valid_utf8(byte_pieces(settings@)[1]));
    }
    let encodings = decode_valid_list(settings[0].as_slice());
    let compressions = decode_valid_list(settings[1].as_slice());
    Ok((encodings, compressions))
}

/// Splits one valid UTF-8 setting into its values.
fn decode_valid_list(setting: &[u8]) -> (res: Vec<String>)
    requires
        valid_utf8(setting@),
    ensures
        string_views(res@) == decoded_pieces(split_terminator_on(setting@, VALUES_SEPARATOR)),
{
    let pieces = split_terminator_bytes(setting, VALUES_SEPARATOR);
    proof {
        lemma_split_valid_utf8(setting@, VALUES_SEPARATOR);
        lemma_split_nonempty(setting@, VALUES_SEPARATOR);
        let all = split_on(setting@, VALUES_SEPARATOR);
        assert forall|k: int| 0 <= k < byte_pieces(pieces@).len() implies valid_utf8(
            #[trigger] byte_pieces(pieces@)[k],
        ) by {
            assert(byte_pieces(pieces@)[k] == all[k]);
        }
    }
    decode_pieces(&pieces)
}


/// Server answer to `Hello`: ping interval and the chosen encoding and compression.
#[derive(Debug, PartialEq, Clone)]
pub struct HelloAck {
    pub flags: u8,
    pub ping_interval_ms: u32,
    pub encoding: String,
    pub compression: Option<String>,
}

#[verifier::ext_equal]
pub struct HelloAckModel {
    pub flags: u8,
    pub ping_interval_ms: u32,
    pub encoding: Seq<char>,
    pub compression: Option<Seq<char>>,
}

impl View for HelloAck {
    type V = HelloAckModel;

    open spec fn view(&self) -> HelloAckModel {
        HelloAckModel {
            flags: self.flags,
            ping_interval_ms: self.ping_interval_ms,
            encoding: self.encoding@,
            compression: match &self.compression {
                Some(c) => Some(c@),
                None => None,
            },
        }
    }
}

impl HelloAckModel {
    pub open spec fn header(self) -> Seq<u8> {
        seq![HELLO_ACK_OPCODE, self.flags] + be_u32_bytes(self.ping_interval_ms)
    }

    /// The encoding, `|`, and the compression (nothing when there is none).
    pub open spec fn payload(self) -> Seq<u8> {
        encode_utf8(self.encoding).push(SETTINGS_SEPARATOR) + match self.compression {
            Some(c) => encode_utf8(c),
            None => Seq::<u8>::empty(),
        }
    }
}

/// The `HelloAck` held by a complete frame.
pub open spec fn parse_hello_ack(buf: Seq<u8>) -> Result<HelloAckModel, ProtocolErrorModel> {
    match parse_hello_ack_payload(buf.skip(10)) {
        Ok((encoding, compression)) => Ok(
            HelloAckModel {
                flags: buf[1],
                ping_interval_ms: be_u32_value(buf.skip(2)),
                encoding,
                compression,
            },
        ),
        Err(e) => Err(e),
    }
}

impl HelloAck {
    pub const OPCODE: u8 = 2;

    pub const HEADER_SIZE_IN_BYTES: usize = 10;

    /// Writes the header, without the payload size.
    pub fn put_header(&self, dst: &mut Vec<u8>)
        ensures
            final(dst)@ == old(dst)@ + self@.header(),
    {
        put_u8(dst, HELLO_ACK_OPCODE);
        put_u8(dst, self.flags);
        put_u32(dst, self.ping_interval_ms);
        assert(final(dst)@ =~= old(dst)@ + self@.header());
    }

    /// The payload bytes.
    pub fn payload(self) -> (res: Option<Vec<u8>>)
        ensures
            res matches Some(p) && p@ == self@.payload(),
    {
        let mut out: Vec<u8> = Vec::new();
        out.extend_from_slice(string_bytes(&self.encoding));
        put_u8(&mut out, SETTINGS_SEPARATOR);
        match &self.compression {
            Some(c) => {
                out.extend_from_slice(string_bytes(c));
            },
            None => {},
        }
        assert(out@ =~= self@.payload());
        Some(out)
    }

    /// The payload size held by the header.
    pub fn read_payload_size(buf: &[u8]) -> (res: u32)
        requires
            buf@.len() >= 10,
        ensures
            res == payload_size_field(HELLO_ACK_OPCODE, buf@),
    {
        let res = read_u32(slice_subrange(buf, 6, 10));
        assert(buf@.subrange(6, 10) =~= buf@.skip(6).take(4));
        res
    }

    /// Reads a `HelloAck` from a complete frame.
    pub fn from_buf(buf: &[u8]) -> (res: Result<Option<HelloAck>, ProtocolError>)
        requires
            buf@.len() >= 10,
        ensures
            match res {
                Ok(Some(h)) => parse_hello_ack(buf@) == Ok::<HelloAckModel, ProtocolErrorModel>(
                    h@,
                ),
                Ok(None) => false,
                Err(e) => parse_hello_ack(buf@) == Err::<HelloAckModel, ProtocolErrorModel>(e@),
            },
    {
        let flags = buf[1];
        let ping_interval_ms = read_u32(slice_subrange(buf, 2, 6));
        let payload = slice_subrange(buf, 10, buf.len());
        let text = match string_from_utf8(slice_to_vec(payload)) {
            Some(text) => text,
            None => return Err(ProtocolError::not_utf8()),
        };
        let bytes = string_bytes(&text);
        assert(bytes@ == payload@);
        let settings = split_bytes(bytes, SETTINGS_SEPARATOR);
        if settings.len() != 2 {
            return Err(ProtocolError::not_two_settings());
        }
        proof {
            lemma_split_valid_utf8(payload@, SETTINGS_SEPARATOR);
            assert(valid_utf8(byte_pieces(settings@)[0]));
            assert(valid_utf8(byte_pieces(settings@)[1]));
        }
        let encoding = decode_valid(settings[0].as_slice());
        let compression = if settings[1].len() == 0 {
            None
        } else {
            Some(decode_valid(settings[1].as_slice()))
        };
        let hello_ack = HelloAck { flags, ping_interval_ms, encoding, compression };
        assert(buf@.subrange(2, 6) =~= buf@.skip(2).take(4));
        assert(hello_ack@ =~= parse_hello_ack(buf@)->Ok_0);
        Ok(Some(hello_ack))
    }
}

/// Decodes valid UTF-8 into a `String`.
fn decode_valid(bytes: &[u8]) -> (res: String)
    requires
        valid_utf8(bytes@),
    ensures
        res@ == decode_utf8(bytes@),
{
    match string_from_utf8(slice_to_vec(bytes)) {
        Some(s) => {
            proof {
                encode_utf8_decode_utf8(s@);
            }
            s
        },
        None => {
            assert(false);
            String::new()
        },
    }
}

/// Liveness probe; the other side answers with a `Pong` of the same sequence id.
#[derive(Debug, PartialEq, Clone, Copy)]
pub struct Ping {
    pub flags: u8,
    pub sequence_id: u32,
}

/// Answer to a `Ping`.
#[derive(Debug, PartialEq, Clone, Copy)]
pub struct Pong {
    pub flags: u8,
    pub sequence_id: u32,
}

impl Ping {
    pub const OPCODE: u8 = 3;

    pub const HEADER_SIZE_IN_BYTES: usize = 6;

    pub open spec fn header(self) -> Seq<u8> {
        seq![PING_OPCODE, self.flags] + be_u32_bytes(self.sequence_id)
    }

    /// Writes the header.
    pub fn put_header(&self, dst: &mut Vec<u8>)
        ensures
            final(dst)@ == old(dst)@ + self.header(),
    {
        put_u8(dst, PING_OPCODE);
        put_u8(dst, self.flags);
        put_u32(dst, self.sequence_id);
        assert(final(dst)@ =~= old(dst)@ + self.header());
    }

    /// A ping has no payload.
    pub fn payload(self) -> (res: Option<Vec<u8>>)
        ensures
            res is None,
    {
        None
    }

    /// A ping has no payload.
    pub fn read_payload_size(_buf: &[u8]) -> (res: u32)
        ensures
            res == 0,
    {
        0
    }

    /// Reads a `Ping` from a complete frame.
    pub fn from_buf(buf: &[u8]) -> (res: Result<Option<Ping>, ProtocolError>)
        requires
            buf@.len() >= 6,
        ensures
            res == Ok::<Option<Ping>, ProtocolError>(
                Some(Ping { flags: buf@[1], sequence_id: be_u32_value(buf@.skip(2)) }),
            ),
    {
        let flags = buf[1];
        let sequence_id = read_u32(slice_subrange(buf, 2, 6));
        assert(buf@.subrange(2, 6) =~= buf@.skip(2).take(4));
        Ok(Some(Ping { flags, sequence_id }))
    }
}

impl Pong {
    pub const OPCODE: u8 = 4;

    pub const HEADER_SIZE_IN_BYTES: usize = 6;

    pub open spec fn header(self) -> Seq<u8> {
        seq![PONG_OPCODE, self.flags] + be_u32_bytes(self.sequence_id)
    }

    /// Writes the header.
    pub fn put_header(&self, dst: &mut Vec<u8>)
        ensures
            final(dst)@ == old(dst)@ + self.header(),
    {
        put_u8(dst, PONG_OPCODE);
        put_u8(dst, self.flags);
        put_u32(dst, self.sequence_id);
        assert(final(dst)@ =~= old(dst)@ + self.header());
    }

    /// A pong has no payload.
    pub fn payload(self) -> (res: Option<Vec<u8>>)
        ensures
            res is None,
    {
        None
    }

    /// A pong has no payload.
    pub fn read_payload_size(_buf: &[u8]) -> (res: u32)
        ensures
            res == 0,
    {
        0
    }

    /// Reads a `Pong` from a complete frame.
    pub fn from_buf(buf: &[u8]) -> (res: Result<Option<Pong>, ProtocolError>)
        requires
            buf@.len() >= 6,
        ensures
            res == Ok::<Option<Pong>, ProtocolError>(
                Some(Pong { flags: buf@[1], sequence_id: be_u32_value(buf@.skip(2)) }),
            ),
    {
        let flags = buf[1];
        let sequence_id = read_u32(slice_subrange(buf, 2, 6));
        assert(buf@.subrange(2, 6) =~= buf@.skip(2).take(4));
        Ok(Some(Pong { flags, sequence_id }))
    }
}


/// A request; the server answers with a `Response` of the same sequence id.
#[derive(Debug, PartialEq, Clone)]
pub struct Request {
    pub flags: u8,
    pub sequence_id: u32,
    pub payload: Vec<u8>,
}

#[verifier::ext_equal]
pub struct RequestModel {
    pub flags: u8,
    pub sequence_id: u32,
    pub payload: Seq<u8>,
}

impl View for Request {
    type V = RequestModel;

    open spec fn view(&self) -> RequestModel {
        RequestModel { flags: self.flags, sequence_id: self.sequence_id, payload: self.payload@ }
    }
}

impl RequestModel {
    pub open spec fn header(self) -> Seq<u8> {
        seq![REQUEST_OPCODE, self.flags] + be_u32_bytes(self.sequence_id)
    }
}

/// The `Request` held by a complete frame.
pub open spec fn parse_request(buf: Seq<u8>) -> RequestModel {
    RequestModel { flags: buf[1], sequence_id: be_u32_value(buf.skip(2)), payload: buf.skip(10) }
}

impl Request {
    pub const OPCODE: u8 = 5;

    pub const HEADER_SIZE_IN_BYTES: usize = 10;

    /// Writes the header, without the payload size.
    pub fn put_header(&self, dst: &mut Vec<u8>)
        ensures
            final(dst)@ == old(dst)@ + self@.header(),
    {
        put_u8(dst, REQUEST_OPCODE);
        put_u8(dst, self.flags);
        put_u32(dst, self.sequence_id);
        assert(final(dst)@ =~= old(dst)@ + self@.header());
    }

    /// The payload bytes.
    pub fn payload(self) -> (res: Option<Vec<u8>>)
        ensures
            res matches Some(p) && p@ == self@.payload,
    {
        Some(self.payload)
    }

    /// The payload size held by the header.
    pub fn read_payload_size(buf: &[u8]) -> (res: u32)
        requires
            buf@.len() >= 10,
        ensures
            res == payload_size_field(REQUEST_OPCODE, buf@),
    {
        let res = read_u32(slice_subrange(buf, 6, 10));
        assert(buf@.subrange(6, 10) =~= buf@.skip(6).take(4));
        res
    }

    /// Reads a `Request` from a complete frame.
    pub fn from_buf(buf: &[u8]) -> (res: Result<Option<Request>, ProtocolError>)
        requires
            buf@.len() >= 10,
        ensures
            res matches Ok(Some(f)) && f@ == parse_request(buf@),
    {
        let flags = buf[1];
        let sequence_id = read_u32(slice_subrange(buf, 2, 6));
        let payload = slice_to_vec(slice_subrange(buf, 10, buf.len()));
        let frame = Request { flags, sequence_id, payload };
        assert(buf@.subrange(2, 6) =~= buf@.skip(2).take(4));
        assert(frame@ =~= parse_request(buf@));
        Ok(Some(frame))
    }
}

/// The answer to the `Request` with the same sequence id.
#[derive(Debug, PartialEq, Clone)]
pub struct Response {
    pub flags: u8,
    pub sequence_id: u32,
    pub payload: Vec<u8>,
}

#[verifier::ext_equal]
pub struct ResponseModel {
    pub flags: u8,
    pub sequence_id: u32,
    pub payload: Seq<u8>,
}

impl View for Response {
    type V = ResponseModel;

    open spec fn view(&self) -> ResponseModel {
        ResponseModel { flags: self.flags, sequence_id: self.sequence_id, payload: self.payload@ }
    }
}

impl ResponseModel {
    pub open spec fn header(self) -> Seq<u8> {
        seq![RESPONSE_OPCODE, self.flags] + be_u32_bytes(self.sequence_id)
    }
}

/// The `Response` held by a complete frame.
pub open spec fn parse_response(buf: Seq<u8>) -> ResponseModel {
    ResponseModel { flags: buf[1], sequence_id: be_u32_value(buf.skip(2)), payload: buf.skip(10) }
}

impl Response {
    pub const OPCODE: u8 = 6;

    pub const HEADER_SIZE_IN_BYTES: usize = 10;

    /// Writes the header, without the payload size.
    pub fn put_header(&self, dst: &mut Vec<u8>)
        ensures
            final(dst)@ == old(dst)@ + self@.header(),
    {
        put_u8(dst, RESPONSE_OPCODE);
        put_u8(dst, self.flags);
        put_u32(dst, self.sequence_id);
        assert(final(dst)@ =~= old(dst)@ + self@.header());
    }

    /// The payload bytes.
    pub fn payload(self) -> (res: Option<Vec<u8>>)
        ensures
            res matches Some(p) && p@ == self@.payload,
    {
        Some(self.payload)
    }

    /// The payload size held by the header.
    pub fn read_payload_size(buf: &[u8]) -> (res: u32)
        requires
            buf@.len() >= 10,
        ensures
            res == payload_size_field(RESPONSE_OPCODE, buf@),
    {
        let res = read_u32(slice_subrange(buf, 6, 10));
        assert(buf@.subrange(6, 10) =~= buf@.skip(6).take(4));
        res
    }

    /// Reads a `Response` from a complete frame.
    pub fn from_buf(buf: &[u8]) -> (res: Result<Option<Response>, ProtocolError>)
        requires
            buf@.len() >= 10,
        ensures
            res matches Ok(Some(f)) && f@ == parse_response(buf@),
    {
        let flags = buf[1];
        let sequence_id = read_u32(slice_subrange(buf, 2, 6));
        let payload = slice_to_vec(slice_subrange(buf, 10, buf.len()));
        let frame = Response { flags, sequence_id, payload };
        assert(buf@.subrange(2, 6) =~= buf@.skip(2).take(4));
        assert(frame@ =~= parse_response(buf@));
        Ok(Some(frame))
    }
}

/// A one-off message that is not acknowledged.
#[derive(Debug, PartialEq, Clone)]
pub struct Push {
    pub flags: u8,
    pub payload: Vec<u8>,
}

#[verifier::ext_equal]
pub struct PushModel {
    pub flags: u8,
    pub payload: Seq<u8>,
}

impl View for Push {
    type V = PushModel;

    open spec fn view(&self) -> PushModel {
        PushModel { flags: self.flags, payload: self.payload@ }
    }
}

impl PushModel {
    pub open spec fn header(self) -> Seq<u8> {
        seq![PUSH_OPCODE, self.flags]
    }
}

/// The `Push` held by a complete frame.
pub open spec fn parse_push(buf: Seq<u8>) -> PushModel {
    PushModel { flags: buf[1], payload: buf.skip(6) }
}

impl Push {
    pub const OPCODE: u8 = 7;

    pub const HEADER_SIZE_IN_BYTES: usize = 6;

    /// Writes the header, without the payload size.
    pub fn put_header(&self, dst: &mut Vec<u8>)
        ensures
            final(dst)@ == old(dst)@ + self@.header(),
    {
        put_u8(dst, PUSH_OPCODE);
        put_u8(dst, self.flags);
        assert(final(dst)@ =~= old(dst)@ + self@.header());
    }

    /// The payload bytes.
    pub fn payload(self) -> (res: Option<Vec<u8>>)
        ensures
            res matches Some(p) && p@ == self@.payload,
    {
        Some(self.payload)
    }

    /// The payload size held by the header.
    pub fn read_payload_size(buf: &[u8]) -> (res: u32)
        requires
            buf@.len() >= 6,
        ensures
            res == payload_size_field(PUSH_OPCODE, buf@),
    {
        let res = read_u32(slice_subrange(buf, 2, 6));
        assert(buf@.subrange(2, 6) =~= buf@.skip(2).take(4));
        res
    }

    /// Reads a `Push` from a complete frame.
    pub fn from_buf(buf: &[u8]) -> (res: Result<Option<Push>, ProtocolError>)
        requires
            buf@.len() >= 6,
        ensures
            res matches Ok(Some(f)) && f@ == parse_push(buf@),
    {
        let flags = buf[1];
        let payload = slice_to_vec(slice_subrange(buf, 6, buf.len()));
        let frame = Push { flags, payload };
        assert(frame@ =~= parse_push(buf@));
        Ok(Some(frame))
    }
}

/// The server is about to close the connection; the payload may say why.
#[derive(Debug, PartialEq, Clone)]
pub struct GoAway {
    pub flags: u8,
    pub code: u16,
    pub payload: Vec<u8>,
}

#[verifier::ext_equal]
pub struct GoAwayModel {
    pub flags: u8,
    pub code: u16,
    pub payload: Seq<u8>,
}

impl View for GoAway {
    type V = GoAwayModel;

    open spec fn view(&self) -> GoAwayModel {
        GoAwayModel { flags: self.flags, code: self.code, payload: self.payload@ }
    }
}

impl GoAwayModel {
    pub open spec fn header(self) -> Seq<u8> {
        seq![GO_AWAY_OPCODE, self.flags] + be_u16_bytes(self.code)
    }
}

/// The `GoAway` held by a complete frame.
pub open spec fn parse_go_away(buf: Seq<u8>) -> GoAwayModel {
    GoAwayModel { flags: buf[1], code: be_u16_value(buf.skip(2)), payload: buf.skip(8) }
}

impl GoAway {
    pub const OPCODE: u8 = 8;

    pub const HEADER_SIZE_IN_BYTES: usize = 8;

    /// Writes the header, without the payload size.
    pub fn put_header(&self, dst: &mut Vec<u8>)
        ensures
            final(dst)@ == old(dst)@ + self@.header(),
    {
        put_u8(dst, GO_AWAY_OPCODE);
        put_u8(dst, self.flags);
        put_u16(dst, self.code);
        assert(final(dst)@ =~= old(dst)@ + self@.header());
    }

    /// The payload bytes.
    pub fn payload(self) -> (res: Option<Vec<u8>>)
        ensures
            res matches Some(p) && p@ == self@.payload,
    {
        Some(self.payload)
    }

    /// The payload size held by the header.
    pub fn read_payload_size(buf: &[u8]) -> (res: u32)
        requires
            buf@.len() >= 8,
        ensures
            res == payload_size_field(GO_AWAY_OPCODE, buf@),
    {
        let res = read_u32(slice_subrange(buf, 4, 8));
        assert(buf@.subrange(4, 8) =~= buf@.skip(4).take(4));
        res
    }

    /// Reads a `GoAway` from a complete frame.
    pub fn from_buf(buf: &[u8]) -> (res: Result<Option<GoAway>, ProtocolError>)
        requires
            buf@.len() >= 8,
        ensures
            res matches Ok(Some(f)) && f@ == parse_go_away(buf@),
    {
        let flags = buf[1];
        let code = read_u16(slice_subrange(buf, 2, 4));
        let payload = slice_to_vec(slice_subrange(buf, 8, buf.len()));
        let frame = GoAway { flags, code, payload };
        assert(buf@.subrange(2, 4) =~= buf@.skip(2).take(2));
        assert(frame@ =~= parse_go_away(buf@));
        Ok(Some(frame))
    }
}

/// The server failed to process the request with the given sequence id.
#[derive(Debug, PartialEq, Clone)]
pub struct Error {
    pub flags: u8,
    pub sequence_id: u32,
    pub code: u16,
    pub payload: Vec<u8>,
}

#[verifier::ext_equal]
pub struct ErrorModel {
    pub flags: u8,
    pub sequence_id: u32,
    pub code: u16,
    pub payload: Seq<u8>,
}

impl View for Error {
    type V = ErrorModel;

    open spec fn view(&self) -> ErrorModel {
        ErrorModel {
            flags: self.flags,
            sequence_id: self.sequence_id,
            code: self.code,
            payload: self.payload@,
        }
    }
}

impl ErrorModel {
    pub open spec fn header(self) -> Seq<u8> {
        seq![ERROR_OPCODE, self.flags] + be_u32_bytes(self.sequence_id) + be_u16_bytes(self.code)
    }
}

/// The `Error` held by a complete frame.
pub open spec fn parse_error(buf: Seq<u8>) -> ErrorModel {
    ErrorModel {
        flags: buf[1],
        sequence_id: be_u32_value(buf.skip(2)),
        code: be_u16_value(buf.skip(6)),
        payload: buf.skip(12),
    }
}

impl Error {
    pub const OPCODE: u8 = 9;

    pub const HEADER_SIZE_IN_BYTES: usize = 12;

    /// Writes the header, without the payload size.
    pub fn put_header(&self, dst: &mut Vec<u8>)
        ensures
            final(dst)@ == old(dst)@ + self@.header(),
    {
        put_u8(dst, ERROR_OPCODE);
        put_u8(dst, self.flags);
        put_u32(dst, self.sequence_id);
        put_u16(dst, self.code);
        assert(final(dst)@ =~= old(dst)@ + self@.header());
    }

    /// The payload bytes.
    pub fn payload(self) -> (res: Option<Vec<u8>>)
        ensures
            res matches Some(p) && p@ == self@.payload,
    {
        Some(self.payload)
    }

    /// The payload size held by the header.
    pub fn read_payload_size(buf: &[u8]) -> (res: u32)
        requires
            buf@.len() >= 12,
        ensures
            res == payload_size_field(ERROR_OPCODE, buf@),
    {
        let res = read_u32(slice_subrange(buf, 8, 12));
        assert(buf@.subrange(8, 12) =~= buf@.skip(8).take(4));
        res
    }

    /// Reads an `Error` from a complete frame.
    pub fn from_buf(buf: &[u8]) -> (res: Result<Option<Error>, ProtocolError>)
        requires
            buf@.len() >= 12,
        ensures
            res matches Ok(Some(f)) && f@ == parse_error(buf@),
    {
        let flags = buf[1];
        let sequence_id = read_u32(slice_subrange(buf, 2, 6));
        let code = read_u16(slice_subrange(buf, 6, 8));
        let payload = slice_to_vec(slice_subrange(buf, 12, buf.len()));
        let frame = Error { flags, sequence_id, code, payload };
        assert(buf@.subrange(2, 6) =~= buf@.skip(2).take(4));
        assert(buf@.subrange(6, 8) =~= buf@.skip(6).take(2));
        assert(frame@ =~= parse_error(buf@));
        Ok(Some(frame))
    }
}


/// Any frame of the protocol.
#[derive(Debug, PartialEq, Clone)]
pub enum LoquiFrame {
    Hello(Hello),
    HelloAck(HelloAck),
    Ping(Ping),
    Pong(Pong),
    Request(Request),
    Response(Response),
    Push(Push),
    GoAway(GoAway),
    Error(Error),
}

/// The mathematical value of a frame.
#[verifier::ext_equal]
pub enum FrameModel {
    Hello(HelloModel),
    HelloAck(HelloAckModel),
    Ping(Ping),
    Pong(Pong),
    Request(RequestModel),
    Response(ResponseModel),
    Push(PushModel),
    GoAway(GoAwayModel),
    Error(ErrorModel),
}

impl View for LoquiFrame {
    type V = FrameModel;

    open spec fn view(&self) -> FrameModel {
        match self {
            LoquiFrame::Hello(f) => FrameModel::Hello(f@),
            LoquiFrame::HelloAck(f) => FrameModel::HelloAck(f@),
            LoquiFrame::Ping(f) => FrameModel::Ping(*f),
            LoquiFrame::Pong(f) => FrameModel::Pong(*f),
            LoquiFrame::Request(f) => FrameModel::Request(f@),
            LoquiFrame::Response(f) => FrameModel::Response(f@),
            LoquiFrame::Push(f) => FrameModel::Push(f@),
            LoquiFrame::GoAway(f) => FrameModel::GoAway(f@),
            LoquiFrame::Error(f) => FrameModel::Error(f@),
        }
    }
}

impl FrameModel {
    /// The opcode that starts the frame on the wire.
    pub open spec fn opcode(self) -> u8 {
        match self {
            FrameModel::Hello(_) => HELLO_OPCODE,
            FrameModel::HelloAck(_) => HELLO_ACK_OPCODE,
            FrameModel::Ping(_) => PING_OPCODE,
            FrameModel::Pong(_) => PONG_OPCODE,
            FrameModel::Request(_) => REQUEST_OPCODE,
            FrameModel::Response(_) => RESPONSE_OPCODE,
            FrameModel::Push(_) => PUSH_OPCODE,
            FrameModel::GoAway(_) => GO_AWAY_OPCODE,
            FrameModel::Error(_) => ERROR_OPCODE,
        }
    }

    /// The bytes of the frame on the wire: the header, then, for the frames
    /// that carry one, the payload size and the payload.
    pub open spec fn encode(self) -> Seq<u8> {
        match self {
            FrameModel::Hello(f) => f.header() + with_len(f.payload()),
            FrameModel::HelloAck(f) => f.header() + with_len(f.payload()),
            FrameModel::Ping(f) => f.header(),
            FrameModel::Pong(f) => f.header(),
            FrameModel::Request(f) => f.header() + with_len(f.payload),
            FrameModel::Response(f) => f.header() + with_len(f.payload),
            FrameModel::Push(f) => f.header() + with_len(f.payload),
            FrameModel::GoAway(f) => f.header() + with_len(f.payload),
            FrameModel::Error(f) => f.header() + with_len(f.payload),
        }
    }
}

/// The frame held by a complete frame's bytes, by its opcode.
pub open spec fn parse_frame(opcode: u8, buf: Seq<u8>) -> Result<FrameModel, ProtocolErrorModel> {
    if opcode == HELLO_OPCODE {
        match parse_hello(buf) {
            Ok(f) => Ok(FrameModel::Hello(f)),
            Err(e) => Err(e),
        }
    } else if opcode == HELLO_ACK_OPCODE {
        match parse_hello_ack(buf) {
            Ok(f) => Ok(FrameModel::HelloAck(f)),
            Err(e) => Err(e),
        }
    } else if opcode == PING_OPCODE {
        Ok(FrameModel::Ping(Ping { flags: buf[1], sequence_id: be_u32_value(buf.skip(2)) }))
    } else if opcode == PONG_OPCODE {
        Ok(FrameModel::Pong(Pong { flags: buf[1], sequence_id: be_u32_value(buf.skip(2)) }))
    } else if opcode == REQUEST_OPCODE {
        Ok(FrameModel::Request(parse_request(buf)))
    } else if opcode == RESPONSE_OPCODE {
        Ok(FrameModel::Response(parse_response(buf)))
    } else if opcode == PUSH_OPCODE {
        Ok(FrameModel::Push(parse_push(buf)))
    } else if opcode == GO_AWAY_OPCODE {
        Ok(FrameModel::GoAway(parse_go_away(buf)))
    } else {
        Ok(FrameModel::Error(parse_error(buf)))
    }
}

impl LoquiFrame {
    /// The opcode of the frame.
    pub fn opcode(&self) -> (res: u8)
        ensures
            res == self@.opcode(),
    {
        match self {
            LoquiFrame::Hello(_) => Hello::OPCODE,
            LoquiFrame::HelloAck(_) => HelloAck::OPCODE,
            LoquiFrame::Ping(_) => Ping::OPCODE,
            LoquiFrame::Pong(_) => Pong::OPCODE,
            LoquiFrame::Request(_) => Request::OPCODE,
            LoquiFrame::Response(_) => Response::OPCODE,
            LoquiFrame::Push(_) => Push::OPCODE,
            LoquiFrame::GoAway(_) => GoAway::OPCODE,
            LoquiFrame::Error(_) => Error::OPCODE,
        }
    }
}


/// The values of a setting that survive a round trip through a `Hello`
/// payload: no value holds a separator, and the last value is not empty.
pub open spec fn setting_values_ok(values: Seq<Seq<char>>) -> bool {
    &&& strings_free_of(values, VALUES_SEPARATOR)
    &&& strings_free_of(values, SETTINGS_SEPARATOR)
    &&& (values.len() == 0 || values.last().len() > 0)
}

impl FrameModel {
    /// The payload bytes; empty for the frames without a payload.
    pub open spec fn payload_bytes(self) -> Seq<u8> {
        match self {
            FrameModel::Hello(f) => f.payload(),
            FrameModel::HelloAck(f) => f.payload(),
            FrameModel::Ping(_) => Seq::<u8>::empty(),
            FrameModel::Pong(_) => Seq::<u8>::empty(),
            FrameModel::Request(f) => f.payload,
            FrameModel::Response(f) => f.payload,
            FrameModel::Push(f) => f.payload,
            FrameModel::GoAway(f) => f.payload,
            FrameModel::Error(f) => f.payload,
        }
    }

    /// The frames that a codec with payload limit `max` decodes back to
    /// themselves: the payload is within the limit, and the handshake
    /// settings hold no separator where one would split them.
    pub open spec fn well_formed(self, max: u32) -> bool {
        &&& self.payload_bytes().len() <= max
        &&& match self {
            FrameModel::Hello(f) => setting_values_ok(f.encodings) && setting_values_ok(
                f.compressions,
            ),
            FrameModel::HelloAck(f) => !f.encoding.contains(SETTINGS_SEPARATOR as char) && match f.compression {
                Some(c) => c.len() > 0 && !c.contains(SETTINGS_SEPARATOR as char),
                None => true,
            },
            _ => true,
        }
    }
}

proof fn lemma_join_setting(values: Seq<Seq<char>>)
    requires
        setting_values_ok(values),
    ensures
        valid_utf8(join_with(utf8_pieces(values), VALUES_SEPARATOR)),
        !join_with(utf8_pieces(values), VALUES_SEPARATOR).contains(SETTINGS_SEPARATOR),
        decoded_pieces(
            split_terminator_on(join_with(utf8_pieces(values), VALUES_SEPARATOR), VALUES_SEPARATOR),
        ) == values,
{
    let pieces = utf8_pieces(values);
    lemma_utf8_pieces(values);
    lemma_join_valid(pieces, VALUES_SEPARATOR);
    lemma_pieces_free_of(values, SETTINGS_SEPARATOR);
    lemma_pieces_free_of(values, VALUES_SEPARATOR);
    lemma_join_free_of(pieces, VALUES_SEPARATOR, SETTINGS_SEPARATOR);
    if values.len() > 0 {
        lemma_encode_nonempty(values.last());
        assert(pieces.last() == encode_utf8(values.last()));
    }
    lemma_split_terminator_join(pieces, VALUES_SEPARATOR);
}

/// Two valid byte strings without the settings separator, joined by it,
/// are valid and split back into the two.
proof fn lemma_two_settings(a: Seq<u8>, b: Seq<u8>)
    requires
        valid_utf8(a),
        valid_utf8(b),
        !a.contains(SETTINGS_SEPARATOR),
        !b.contains(SETTINGS_SEPARATOR),
    ensures
        valid_utf8(a.push(SETTINGS_SEPARATOR) + b),
        split_on(a.push(SETTINGS_SEPARATOR) + b, SETTINGS_SEPARATOR) == seq![a, b],
{
    lemma_ascii_byte_valid(SETTINGS_SEPARATOR);
    assert(a.push(SETTINGS_SEPARATOR) =~= a + seq![SETTINGS_SEPARATOR]);
    valid_utf8_concat(a, seq![SETTINGS_SEPARATOR]);
    valid_utf8_concat(a.push(SETTINGS_SEPARATOR), b);
    lemma_split_concat(a, b, SETTINGS_SEPARATOR);
    lemma_split_no_sep(a, SETTINGS_SEPARATOR);
    lemma_split_no_sep(b, SETTINGS_SEPARATOR);
    assert(seq![a] + seq![b] =~= seq![a, b]);
}

/// A `Hello` payload reads back as the settings it was written from.
pub proof fn lemma_hello_payload_round_trip(h: HelloModel)
    requires
        setting_values_ok(h.encodings),
        setting_values_ok(h.compressions),
    ensures
        parse_hello_payload(h.payload()) == Ok::<
            (Seq<Seq<char>>, Seq<Seq<char>>),
            ProtocolErrorModel,
        >((h.encodings, h.compressions)),
{
    lemma_join_setting(h.encodings);
    lemma_join_setting(h.compressions);
    lemma_two_settings(
        join_with(utf8_pieces(h.encodings), VALUES_SEPARATOR),
        join_with(utf8_pieces(h.compressions), VALUES_SEPARATOR),
    );
}

/// A `Hello` payload always holds exactly two settings: exactly one `|`,
/// with the encodings written before it and the compressions after it, each
/// list reading back value by value on `,` (so with no compressions the
/// payload ends with `|`).
pub proof fn law_hello_payload_has_two_settings(h: HelloModel)
    requires
        setting_values_ok(h.encodings),
        setting_values_ok(h.compressions),
    ensures
        exists|k: int|
            0 <= k < h.payload().len() && #[trigger] h.payload()[k] == SETTINGS_SEPARATOR && (forall|j: int|
                0 <= j < h.payload().len() && j != k ==> h.payload()[j] != SETTINGS_SEPARATOR)
                && decoded_pieces(split_terminator_on(h.payload().take(k), VALUES_SEPARATOR))
                == h.encodings && decoded_pieces(
                split_terminator_on(h.payload().skip(k + 1), VALUES_SEPARATOR),
            ) == h.compressions,
        split_on(h.payload(), SETTINGS_SEPARATOR).len() == 2,
        h.compressions.len() == 0 ==> h.payload().last() == SETTINGS_SEPARATOR,
{
    let a = join_with(utf8_pieces(h.encodings), VALUES_SEPARATOR);
    let b = join_with(utf8_pieces(h.compressions), VALUES_SEPARATOR);
    lemma_join_setting(h.encodings);
    lemma_join_setting(h.compressions);
    lemma_two_settings(a, b);
    let p = h.payload();
    let k = a.len() as int;
    assert(p =~= a.push(SETTINGS_SEPARATOR) + b);
    assert(p[k] == SETTINGS_SEPARATOR);
    assert forall|j: int| 0 <= j < p.len() && j != k implies p[j] != SETTINGS_SEPARATOR by {
        if j < k {
            assert(p[j] == a[j]);
            assert(!a.contains(SETTINGS_SEPARATOR));
        } else {
            assert(p[j] == b[j - k - 1]);
            assert(!b.contains(SETTINGS_SEPARATOR));
        }
    }
    assert(p.take(k) =~= a);
    assert(p.skip(k + 1) =~= b);
    if h.compressions.len() == 0 {
        assert(utf8_pieces(h.compressions) =~= Seq::<Seq<u8>>::empty());
        assert(b =~= Seq::<u8>::empty());
    }
}

/// A `HelloAck` payload reads back as the encoding and compression it was
/// written from.
pub proof fn lemma_hello_ack_payload_round_trip(h: HelloAckModel)
    requires
        !h.encoding.contains(SETTINGS_SEPARATOR as char),
        match h.compression {
            Some(c) => c.len() > 0 && !c.contains(SETTINGS_SEPARATOR as char),
            None => true,
        },
    ensures
        parse_hello_ack_payload(h.payload()) == Ok::<
            (Seq<char>, Option<Seq<char>>),
            ProtocolErrorModel,
        >((h.encoding, h.compression)),
{
    let a = encode_utf8(h.encoding);
    let b = match h.compression {
        Some(c) => encode_utf8(c),
        None => Seq::<u8>::empty(),
    };
    encode_utf8_valid_utf8(h.encoding);
    encode_utf8_decode_utf8(h.encoding);
    lemma_encode_free_of(h.encoding, SETTINGS_SEPARATOR);
    match h.compression {
        Some(c) => {
            encode_utf8_valid_utf8(c);
            encode_utf8_decode_utf8(c);
            lemma_encode_free_of(c, SETTINGS_SEPARATOR);
            lemma_encode_nonempty(c);
        },
        None => {},
    }
    lemma_two_settings(a, b);
}

/// The facts a decoder needs of the bytes of `f` followed by `rest`: they
/// start with its opcode, announce its payload size, and read back as `f`.
pub open spec fn encoded_facts(f: FrameModel, rest: Seq<u8>) -> bool {
    let b = f.encode() + rest;
    let op = f.opcode();
    &&& is_opcode(op)
    &&& b[0] == op
    &&& header_size(op) <= f.encode().len()
    &&& payload_size_field(op, b) == f.payload_bytes().len()
    &&& f.encode().len() == header_size(op) + f.payload_bytes().len()
    &&& parse_frame(op, f.encode()) == Ok::<FrameModel, ProtocolErrorModel>(f)
}

proof fn lemma_size_field(p: Seq<u8>, rest: Seq<u8>, head: Seq<u8>)
    requires
        p.len() <= u32::MAX,
    ensures
        be_u32_value((head + with_len(p) + rest).skip(head.len() as int)) == p.len(),
        (head + with_len(p)).skip(head.len() as int + 4) == p,
{
    lemma_be_u32_round_trip(p.len() as u32, p + rest);
    assert((head + with_len(p) + rest).skip(head.len() as int) =~= be_u32_bytes(p.len() as u32) + (
    p + rest));
    assert((head + with_len(p)).skip(head.len() as int + 4) =~= p);
}

proof fn lemma_encoded_hello(h: HelloModel, max: u32, rest: Seq<u8>)
    requires
        FrameModel::Hello(h).well_formed(max),
    ensures
        encoded_facts(FrameModel::Hello(h), rest),
{
    let f = FrameModel::Hello(h);
    lemma_size_field(h.payload(), rest, h.header());
    lemma_hello_payload_round_trip(h);
    assert(parse_hello(f.encode()) =~= Ok::<HelloModel, ProtocolErrorModel>(h));
}

proof fn lemma_encoded_hello_ack(h: HelloAckModel, max: u32, rest: Seq<u8>)
    requires
        FrameModel::HelloAck(h).well_formed(max),
    ensures
        encoded_facts(FrameModel::HelloAck(h), rest),
{
    let f = FrameModel::HelloAck(h);
    let e = f.encode();
    lemma_size_field(h.payload(), rest, h.header());
    assert(e == h.header() + with_len(h.payload()));
    assert(e.skip(10) == h.payload());
    assert(e[1] == h.flags);
    lemma_be_u32_round_trip(h.ping_interval_ms, e.skip(6));
    assert(e.skip(2) =~= be_u32_bytes(h.ping_interval_ms) + e.skip(6));
    lemma_hello_ack_payload_round_trip(h);
    let parsed = parse_hello_ack(e);
    assert(parsed == Ok::<HelloAckModel, ProtocolErrorModel>(
        HelloAckModel {
            flags: h.flags,
            ping_interval_ms: h.ping_interval_ms,
            encoding: h.encoding,
            compression: h.compression,
        },
    ));
    assert(parsed =~= Ok::<HelloAckModel, ProtocolErrorModel>(h));
}

proof fn lemma_encoded_ping_pong(f: FrameModel, rest: Seq<u8>)
    requires
        f is Ping || f is Pong,
    ensures
        encoded_facts(f, rest),
{
    let e = f.encode();
    let id = match f {
        FrameModel::Ping(g) => g.sequence_id,
        FrameModel::Pong(g) => g.sequence_id,
        _ => 0,
    };
    lemma_be_u32_round_trip(id, Seq::<u8>::empty());
    assert(e.skip(2) =~= be_u32_bytes(id) + Seq::<u8>::empty());
}

proof fn lemma_encoded_sequenced(f: FrameModel, max: u32, rest: Seq<u8>)
    requires
        f is Request || f is Response,
        f.well_formed(max),
    ensures
        encoded_facts(f, rest),
{
    let e = f.encode();
    let (flags, id, p) = match f {
        FrameModel::Request(r) => (r.flags, r.sequence_id, r.payload),
        FrameModel::Response(r) => (r.flags, r.sequence_id, r.payload),
        _ => (0u8, 0u32, Seq::<u8>::empty()),
    };
    let head = seq![f.opcode(), flags] + be_u32_bytes(id);
    assert(e == head + with_len(p));
    lemma_size_field(p, rest, head);
    lemma_be_u32_round_trip(id, e.skip(6));
    assert(e.skip(2) =~= be_u32_bytes(id) + e.skip(6));
    match f {
        FrameModel::Request(r) => {
            assert(parse_request(e) =~= r);
        },
        FrameModel::Response(r) => {
            assert(parse_response(e) =~= r);
        },
        _ => {},
    }
}

proof fn lemma_encoded_push(r: PushModel, max: u32, rest: Seq<u8>)
    requires
        FrameModel::Push(r).well_formed(max),
    ensures
        encoded_facts(FrameModel::Push(r), rest),
{
    let e = FrameModel::Push(r).encode();
    lemma_size_field(r.payload, rest, r.header());
    assert(parse_push(e) =~= r);
}

proof fn lemma_encoded_go_away(r: GoAwayModel, max: u32, rest: Seq<u8>)
    requires
        FrameModel::GoAway(r).well_formed(max),
    ensures
        encoded_facts(FrameModel::GoAway(r), rest),
{
    let e = FrameModel::GoAway(r).encode();
    lemma_size_field(r.payload, rest, r.header());
    lemma_be_u16_round_trip(r.code, e.skip(4));
    assert(e.skip(2) =~= be_u16_bytes(r.code) + e.skip(4));
    assert(parse_go_away(e) =~= r);
}

proof fn lemma_encoded_error(r: ErrorModel, max: u32, rest: Seq<u8>)
    requires
        FrameModel::Error(r).well_formed(max),
    ensures
        encoded_facts(FrameModel::Error(r), rest),
{
    let e = FrameModel::Error(r).encode();
    lemma_size_field(r.payload, rest, r.header());
    lemma_be_u32_round_trip(r.sequence_id, e.skip(6));
    assert(e.skip(2) =~= be_u32_bytes(r.sequence_id) + e.skip(6));
    lemma_be_u16_round_trip(r.code, e.skip(8));
    assert(e.skip(6) =~= be_u16_bytes(r.code) + e.skip(8));
    assert(parse_error(e) =~= r);
}

/// The bytes of a well-formed frame, followed by anything, start with its
/// opcode and announce its payload size; its bytes read back as the frame.
pub proof fn lemma_encoded_frame(f: FrameModel, max: u32, rest: Seq<u8>)
    requires
        f.well_formed(max),
    ensures
        encoded_facts(f, rest),
{
    match f {
        FrameModel::Hello(h) => lemma_encoded_hello(h, max, rest),
        FrameModel::HelloAck(h) => lemma_encoded_hello_ack(h, max, rest),
        FrameModel::Ping(_) => lemma_encoded_ping_pong(f, rest),
        FrameModel::Pong(_) => lemma_encoded_ping_pong(f, rest),
        FrameModel::Request(_) => lemma_encoded_sequenced(f, max, rest),
        FrameModel::Response(_) => lemma_encoded_sequenced(f, max, rest),
        FrameModel::Push(r) => lemma_encoded_push(r, max, rest),
        FrameModel::GoAway(r) => lemma_encoded_go_away(r, max, rest),
        FrameModel::Error(r) => lemma_encoded_error(r, max, rest),
    }
}


impl From<Hello> for LoquiFrame {
    fn from(hello: Hello) -> LoquiFrame {
        LoquiFrame::Hello(hello)
    }
}

impl vstd::std_specs::convert::FromSpecImpl<Hello> for LoquiFrame {
    open spec fn obeys_from_spec() -> bool {
        true
    }

    open spec fn from_spec(v: Hello) -> LoquiFrame {
        LoquiFrame::Hello(v)
    }
}

impl From<HelloAck> for LoquiFrame {
    fn from(hello_ack: HelloAck) -> LoquiFrame {
        LoquiFrame::HelloAck(hello_ack)
    }
}

impl vstd::std_specs::convert::FromSpecImpl<HelloAck> for LoquiFrame {
    open spec fn obeys_from_spec() -> bool {
        true
    }

    open spec fn from_spec(v: HelloAck) -> LoquiFrame {
        LoquiFrame::HelloAck(v)
    }
}

impl From<Ping> for LoquiFrame {
    fn from(ping: Ping) -> LoquiFrame {
        LoquiFrame::Ping(ping)
    }
}

impl vstd::std_specs::convert::FromSpecImpl<Ping> for LoquiFrame {
    open spec fn obeys_from_spec() -> bool {
        true
    }

    open spec fn from_spec(v: Ping) -> LoquiFrame {
        LoquiFrame::Ping(v)
    }
}

impl From<Pong> for LoquiFrame {
    fn from(pong: Pong) -> LoquiFrame {
        LoquiFrame::Pong(pong)
    }
}

impl vstd::std_specs::convert::FromSpecImpl<Pong> for LoquiFrame {
    open spec fn obeys_from_spec() -> bool {
        true
    }

    open spec fn from_spec(v: Pong) -> LoquiFrame {
        LoquiFrame::Pong(v)
    }
}

impl From<Request> for LoquiFrame {
    fn from(request: Request) -> LoquiFrame {
        LoquiFrame::Request(request)
    }
}

impl vstd::std_specs::convert::FromSpecImpl<Request> for LoquiFrame {
    open spec fn obeys_from_spec() -> bool {
        true
    }

    open spec fn from_spec(v: Request) -> LoquiFrame {
        LoquiFrame::Request(v)
    }
}

impl From<Response> for LoquiFrame {
    fn from(response: Response) -> LoquiFrame {
        LoquiFrame::Response(response)
    }
}

impl vstd::std_specs::convert::FromSpecImpl<Response> for LoquiFrame {
    open spec fn obeys_from_spec() -> bool {
        true
    }

    open spec fn from_spec(v: Response) -> LoquiFrame {
        LoquiFrame::Response(v)
    }
}

impl From<Push> for LoquiFrame {
    fn from(push: Push) -> LoquiFrame {
        LoquiFrame::Push(push)
    }
}

impl vstd::std_specs::convert::FromSpecImpl<Push> for LoquiFrame {
    open spec fn obeys_from_spec() -> bool {
        true
    }

    open spec fn from_spec(v: Push) -> LoquiFrame {
        LoquiFrame::Push(v)
    }
}

impl From<GoAway> for LoquiFrame {
    fn from(go_away: GoAway) -> LoquiFrame {
        LoquiFrame::GoAway(go_away)
    }
}

impl vstd::std_specs::convert::FromSpecImpl<GoAway> for LoquiFrame {
    open spec fn obeys_from_spec() -> bool {
        true
    }

    open spec fn from_spec(v: GoAway) -> LoquiFrame {
        LoquiFrame::GoAway(v)
    }
}

impl From<Error> for LoquiFrame {
    fn from(error: Error) -> LoquiFrame {
        LoquiFrame::Error(error)
    }
}

impl vstd::std_specs::convert::FromSpecImpl<Error> for LoquiFrame {
    open spec fn obeys_from_spec() -> bool {
        true
    }

    open spec fn from_spec(v: Error) -> LoquiFrame {
        LoquiFrame::Error(v)
    }
}

} // verus!
