//! The HTTP upgrade exchange that opens a connection: the client sends an
//! upgrade request, the server answers with an upgrade response.
use vstd::prelude::*;
use vstd::utf8::*;
use crate::error::{ProtocolError, ProtocolErrorModel};
use crate::wire::{string_bytes, string_from_utf8};
use vstd::slice::slice_to_vec;

verus! {

/// The two messages of the upgrade exchange.
#[derive(Debug, PartialEq, Eq, Clone, Copy)]
pub enum UpgradeFrame {
    Request,
    Response,
}

/// The upgrade request a client sends.
pub open spec fn request_text() -> Seq<char> {
    "GET /_rpc HTTP/1.1\r\nHost: 127.0.0.1 \r\nUpgrade: loqui\r\nConnection: upgrade\r\n\r\n"@
}

/// The upgrade response a server sends.
pub open spec fn response_text() -> Seq<char> {
    "HTTP/1.1 101 Switching Protocols\r\nUpgrade: loqui\r\nConnection: Upgrade\r\n\r\n"@
}

/// The bytes of an upgrade message.
pub open spec fn upgrade_bytes(frame: UpgradeFrame) -> Seq<u8> {
    match frame {
        UpgradeFrame::Request => encode_utf8(request_text()),
        UpgradeFrame::Response => encode_utf8(response_text()),
    }
}

/// The lowercase form of a string, as `str::to_lowercase` computes it by
/// the Unicode lowercase mapping.
pub uninterp spec fn lowercase(s: Seq<char>) -> Seq<char>;

/// Lowercases a string through `str::to_lowercase`; the result depends on
/// the string alone.
#[verifier::external_body]
fn to_lowercase(s: &String) -> (res: String)
    ensures
        res@ == lowercase(s@),
{
    s.to_lowercase()
}

/// `pat` occurs somewhere in `s`.
pub open spec fn has_infix(s: Seq<u8>, pat: Seq<u8>) -> bool {
    exists|i: int| 0 <= i && i + pat.len() <= s.len() && #[trigger] s.subrange(i, i + pat.len()) == pat
}

/// `s` starts with `pat`.
pub open spec fn has_prefix(s: Seq<u8>, pat: Seq<u8>) -> bool {
    pat.len() <= s.len() && s.take(pat.len() as int) == pat
}

/// `s` ends with `pat`.
pub open spec fn has_suffix(s: Seq<u8>, pat: Seq<u8>) -> bool {
    pat.len() <= s.len() && s.skip(s.len() - pat.len()) == pat
}

/// The bytes of `upgrade`.
pub open spec fn upgrade_word() -> Seq<u8> {
    seq![0x75u8, 0x70, 0x67, 0x72, 0x61, 0x64, 0x65]
}

/// The bytes of `get`.
pub open spec fn get_word() -> Seq<u8> {
    seq![0x67u8, 0x65, 0x74]
}

/// The bytes of the blank line that ends an HTTP head: `\r\n\r\n`.
pub open spec fn head_end() -> Seq<u8> {
    seq![0x0Du8, 0x0A, 0x0D, 0x0A]
}

/// Which message a complete, lowercased HTTP head is: it must mention
/// `upgrade`; a request starts with `get`.
pub open spec fn classify_head(lowered: Seq<char>) -> Result<UpgradeFrame, ProtocolErrorModel> {
    let bytes = encode_utf8(lowered);
    if has_infix(bytes, upgrade_word()) {
        if has_prefix(bytes, get_word()) {
            Ok(UpgradeFrame::Request)
        } else {
            Ok(UpgradeFrame::Response)
        }
    } else {
        Err(ProtocolErrorModel::InvalidPayload(lowered))
    }
}

/// What decoding an upgrade message from `buf` yields, with messages limited
/// to `max` bytes. A message is complete once the buffer is UTF-8 that ends
/// with a blank line.
pub open spec fn upgrade_decode_outcome(max: u32, buf: Seq<u8>) -> Result<
    Option<UpgradeFrame>,
    ProtocolErrorModel,
> {
    if buf.len() == 0 {
        Ok(None)
    } else if (buf.len() as u32) > max {
        Err(ProtocolErrorModel::PayloadTooLarge(buf.len() as u32, max))
    } else if !valid_utf8(buf) || !has_suffix(buf, head_end()) {
        Ok(None)
    } else {
        match classify_head(lowercase(decode_utf8(buf))) {
            Ok(frame) => Ok(Some(frame)),
            Err(e) => Err(e),
        }
    }
}

/// Whether decoding consumes the buffer: it does once a message is complete.
pub open spec fn upgrade_decode_consumes(max: u32, buf: Seq<u8>) -> bool {
    buf.len() > 0 && (buf.len() as u32) <= max && valid_utf8(buf) && has_suffix(buf, head_end())
}

/// Decoder view of an upgrade decoding result.
pub open spec fn upgrade_decoded_view(res: Result<Option<UpgradeFrame>, ProtocolError>) -> Result<
    Option<UpgradeFrame>,
    ProtocolErrorModel,
> {
    match res {
        Ok(f) => Ok(f),
        Err(e) => Err(e@),
    }
}

/// Codec for reading and writing the HTTP upgrade messages.
#[derive(Debug)]
pub struct Codec {
    /// Messages of more bytes are refused.
    pub max_payload_size_in_bytes: u32,
}

/// Whether `pat` occurs in `s` at `i`.
fn matches_at(s: &[u8], pat: &[u8], i: usize) -> (res: bool)
    requires
        i + pat@.len() <= s@.len(),
    ensures
        res == (s@.subrange(i as int, i + pat@.len()) == pat@),
{
    let n = s.len();
    let mut j: usize = 0;
    while j < pat.len()
        invariant
            j <= pat@.len(),
            i + pat@.len() <= s@.len(),
            n == s@.len(),
            s@.subrange(i as int, i + j) == pat@.take(j as int),
        decreases pat@.len() - j,
    {
        if s[i + j] != pat[j] {
            assert(s@.subrange(i as int, i + pat@.len())[j as int] != pat@[j as int]);
            return false;
        }
        assert(s@.subrange(i as int, i + j + 1) =~= pat@.take(j + 1));
        j = j + 1;
    }
    assert(pat@.take(j as int) =~= pat@);
    true
}

/// Whether `pat` occurs in `s`.
fn contains_bytes(s: &[u8], pat: &[u8]) -> (res: bool)
    ensures
        res == has_infix(s@, pat@),
{
    if pat.len() > s.len() {
        return false;
    }
    let last = s.len() - pat.len();
    let mut i: usize = 0;
    while i <= last
        invariant
            pat@.len() <= s@.len(),
            last == s@.len() - pat@.len(),
            i <= last + 1,
            forall|k: int| 0 <= k < i ==> #[trigger] s@.subrange(k, k + pat@.len()) != pat@,
        decreases last + 1 - i,
    {
        if matches_at(s, pat, i) {
            return true;
        }
        if i == last {
            return false;
        }
        i = i + 1;
    }
    false
}

/// Whether `s` starts with `pat`.
fn starts_with_bytes(s: &[u8], pat: &[u8]) -> (res: bool)
    ensures
        res == has_prefix(s@, pat@),
{
    if pat.len() > s.len() {
        return false;
    }
    let res = matches_at(s, pat, 0);
    assert(s@.subrange(0, pat@.len() as int) =~= s@.take(pat@.len() as int));
    res
}

/// Whether `s` ends with `pat`.
fn ends_with_bytes(s: &[u8], pat: &[u8]) -> (res: bool)
    ensures
        res == has_suffix(s@, pat@),
{
    if pat.len() > s.len() {
        return false;
    }
    let res = matches_at(s, pat, s.len() - pat.len());
    assert(s@.subrange(s@.len() - pat@.len(), s@.len() as int) =~= s@.skip(
        s@.len() - pat@.len(),
    ));
    res
}

/// Tells which upgrade message a complete, lowercased HTTP head is.
pub fn classify_lowered_head(lowered: String) -> (res: Result<UpgradeFrame, ProtocolError>)
    ensures
        match res {
            Ok(f) => classify_head(lowered@) == Ok::<UpgradeFrame, ProtocolErrorModel>(f),
            Err(e) => classify_head(lowered@) == Err::<UpgradeFrame, ProtocolErrorModel>(e@),
        },
{
    let upgrade: [u8; 7] = [0x75, 0x70, 0x67, 0x72, 0x61, 0x64, 0x65];
    let get: [u8; 3] = [0x67, 0x65, 0x74];
    assert(upgrade@ =~= upgrade_word());
    assert(get@ =~= get_word());
    let bytes = string_bytes(&lowered);
    if contains_bytes(bytes, upgrade.as_slice()) {
        if starts_with_bytes(bytes, get.as_slice()) {
            Ok(UpgradeFrame::Request)
        } else {
            Ok(UpgradeFrame::Response)
        }
    } else {
        Err(ProtocolError::InvalidPayload { reason: lowered })
    }
}

impl Codec {
    /// A codec that refuses messages above `max_payload_size` bytes; the size
    /// is kept as a `u32`, truncated as `as` does.
    pub fn new(max_payload_size: u64) -> (res: Codec)
        ensures
            res.max_payload_size_in_bytes == max_payload_size as u32,
    {
        Codec { max_payload_size_in_bytes: max_payload_size as u32 }
    }

    /// Appends the bytes of an upgrade message to `dst`.
    pub fn encode(&mut self, item: UpgradeFrame, dst: &mut Vec<u8>) -> (res: Result<(), ProtocolError>)
        ensures
            res is Ok,
            final(dst)@ == old(dst)@ + upgrade_bytes(item),
            *final(self) == *old(self),
    {
        match item {
            UpgradeFrame::Request => dst.extend_from_slice(
                "GET /_rpc HTTP/1.1\r\nHost: 127.0.0.1 \r\nUpgrade: loqui\r\nConnection: upgrade\r\n\r\n".as_bytes(),
            ),
            UpgradeFrame::Response => dst.extend_from_slice(
                "HTTP/1.1 101 Switching Protocols\r\nUpgrade: loqui\r\nConnection: Upgrade\r\n\r\n".as_bytes(),
            ),
        }
        Ok(())
    }

    /// Decodes an upgrade message once the buffer holds a complete HTTP head,
    /// and then clears the buffer; yields `None`, and leaves the buffer as it
    /// is, until then.
    pub fn decode(&mut self, buf: &mut Vec<u8>) -> (res: Result<Option<UpgradeFrame>, ProtocolError>)
        ensures
            upgrade_decoded_view(res) == upgrade_decode_outcome(
                old(self).max_payload_size_in_bytes,
                old(buf)@,
            ),
            final(buf)@ == if upgrade_decode_consumes(old(self).max_payload_size_in_bytes, old(buf)@) {
                Seq::<u8>::empty()
            } else {
                old(buf)@
            },
            *final(self) == *old(self),
    {
        if buf.len() == 0 {
            return Ok(None);
        }
        let payload_size = buf.len() as u32;
        if payload_size > self.max_payload_size_in_bytes {
            return Err(
                ProtocolError::PayloadTooLarge {
                    actual: payload_size,
                    max: self.max_payload_size_in_bytes,
                },
            );
        }
        match string_from_utf8(slice_to_vec(buf.as_slice())) {
            Some(payload) => {
                let end: [u8; 4] = [0x0D, 0x0A, 0x0D, 0x0A];
                assert(end@ =~= head_end());
                if !ends_with_bytes(string_bytes(&payload), end.as_slice()) {
                    return Ok(None);
                }
                // Clear buffer.
                buf.clear();
                proof {
                    encode_utf8_decode_utf8(payload@);
                }
                let lowered = to_lowercase(&payload);
                match classify_lowered_head(lowered) {
                    Ok(frame) => Ok(Some(frame)),
                    Err(e) => Err(e),
                }
            },
            None => Ok(None),
        }
    }
}

} // verus!
