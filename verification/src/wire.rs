//! Big-endian integers and UTF-8 text on the wire, through the `bytes` and
//! `byteorder` crates and std's UTF-8 conversion.
use vstd::prelude::*;
use vstd::utf8::*;

verus! {

/// The two bytes of a `u16` in network (big-endian) order.
pub open spec fn be_u16_bytes(x: u16) -> Seq<u8> {
    seq![(x / 256) as u8, (x % 256) as u8]
}

/// The four bytes of a `u32` in network (big-endian) order.
pub open spec fn be_u32_bytes(x: u32) -> Seq<u8> {
    seq![(x / 0x100_0000) as u8, ((x / 0x1_0000) % 256) as u8, ((x / 256) % 256) as u8, (x % 256) as u8]
}

/// The `u16` held by the first two bytes of `b`, read in network order.
pub open spec fn be_u16_value(b: Seq<u8>) -> u16
    recommends
        b.len() >= 2,
{
    (b[0] * 256 + b[1]) as u16
}

/// The `u32` held by the first four bytes of `b`, read in network order.
pub open spec fn be_u32_value(b: Seq<u8>) -> u32
    recommends
        b.len() >= 4,
{
    (b[0] * 0x100_0000 + b[1] * 0x1_0000 + b[2] * 256 + b[3]) as u32
}

/// Reading back the bytes written for a `u16` gives the `u16`.
pub proof fn lemma_be_u16_round_trip(x: u16, rest: Seq<u8>)
    ensures
        be_u16_value(be_u16_bytes(x) + rest) == x,
{
    let b = be_u16_bytes(x) + rest;
    assert(b[0] == (x / 256) as u8 && b[1] == (x % 256) as u8);
    assert((x / 256) * 256 + x % 256 == x) by (nonlinear_arith);
}

/// Reading back the bytes written for a `u32` gives the `u32`.
pub proof fn lemma_be_u32_round_trip(x: u32, rest: Seq<u8>)
    ensures
        be_u32_value(be_u32_bytes(x) + rest) == x,
{
    let b = be_u32_bytes(x) + rest;
    assert(b[0] == (x / 0x100_0000) as u8);
    assert(b[1] == ((x / 0x1_0000) % 256) as u8);
    assert(b[2] == ((x / 256) % 256) as u8);
    assert(b[3] == (x % 256) as u8);
    assert((x / 0x100_0000) * 0x100_0000 + ((x / 0x1_0000) % 256) * 0x1_0000 + ((x / 256) % 256)
        * 256 + x % 256 == x) by (nonlinear_arith);
}

/// Appends one byte to `dst` through `bytes::BufMut::put_u8`.
/// For a `Vec<u8>` the crate writes the byte after the existing contents.
#[verifier::external_body]
pub(crate) fn put_u8(dst: &mut Vec<u8>, n: u8)
    ensures
        final(dst)@ == old(dst)@.push(n),
{
    bytes::BufMut::put_u8(dst, n)
}

/// Appends a `u16` in big-endian order to `dst` through `bytes::BufMut::put_u16`.
/// For a `Vec<u8>` the crate appends `n.to_be_bytes()`.
#[verifier::external_body]
pub(crate) fn put_u16(dst: &mut Vec<u8>, n: u16)
    ensures
        final(dst)@ == old(dst)@ + be_u16_bytes(n),
{
    bytes::BufMut::put_u16(dst, n)
}

/// Appends a `u32` in big-endian order to `dst` through `bytes::BufMut::put_u32`.
/// For a `Vec<u8>` the crate appends `n.to_be_bytes()`.
#[verifier::external_body]
pub(crate) fn put_u32(dst: &mut Vec<u8>, n: u32)
    ensures
        final(dst)@ == old(dst)@ + be_u32_bytes(n),
{
    bytes::BufMut::put_u32(dst, n)
}

/// Reads a big-endian `u16` from the first two bytes of `buf` through
/// `byteorder::BigEndian::read_u16`, which panics on a shorter slice.
#[verifier::external_body]
pub(crate) fn read_u16(buf: &[u8]) -> (res: u16)
    requires
        buf@.len() >= 2,
    ensures
        res == be_u16_value(buf@),
{
    <byteorder::BigEndian as byteorder::ByteOrder>::read_u16(buf)
}

/// Reads a big-endian `u32` from the first four bytes of `buf` through
/// `byteorder::BigEndian::read_u32`, which panics on a shorter slice.
#[verifier::external_body]
pub(crate) fn read_u32(buf: &[u8]) -> (res: u32)
    requires
        buf@.len() >= 4,
    ensures
        res == be_u32_value(buf@),
{
    <byteorder::BigEndian as byteorder::ByteOrder>::read_u32(buf)
}

/// Converts bytes to a `String` through `String::from_utf8`, which succeeds
/// exactly when the bytes are well-formed UTF-8, and then holds those bytes.
#[verifier::external_body]
pub(crate) fn string_from_utf8(bytes: Vec<u8>) -> (res: Option<String>)
    ensures
        res is Some <==> valid_utf8(bytes@),
        res matches Some(s) ==> encode_utf8(s@) == bytes@,
{
    String::from_utf8(bytes).ok()
}

/// The UTF-8 bytes of a string.
pub fn string_bytes(s: &String) -> (res: &[u8])
    ensures
        res@ == encode_utf8(s@),
{
    s.as_str().as_bytes()
}

} // verus!
