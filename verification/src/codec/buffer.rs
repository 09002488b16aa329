//! The byte buffers of the `bytes` crate, as the codec sees them, and the
//! standard library's UTF-8 check.
use vstd::prelude::*;
use bytes::{Buf, Bytes, BytesMut};
use std::string::FromUtf8Error;

verus! {

#[verifier::external_type_specification]
#[verifier::external_body]
pub struct ExBytesMut(BytesMut);

#[verifier::external_type_specification]
#[verifier::external_body]
pub struct ExBytes(Bytes);

#[verifier::external_type_specification]
#[verifier::external_body]
pub struct ExFromUtf8Error(FromUtf8Error);

/// The bytes a `BytesMut` holds, front first.
pub uninterp spec fn buf_contents(buf: BytesMut) -> Seq<u8>;

/// The bytes a `Bytes` holds, front first.
pub uninterp spec fn bytes_contents(bytes: Bytes) -> Seq<u8>;

/// The big-endian `u16` in the first two bytes of `s`.
pub open spec fn be_u16_at(s: Seq<u8>, i: int) -> u16 {
    (s[i] as int * 256 + s[i + 1] as int) as u16
}

/// The big-endian `u32` in the four bytes of `s` from `i`.
pub open spec fn be_u32_at(s: Seq<u8>, i: int) -> u32 {
    (s[i] as int * 16777216 + s[i + 1] as int * 65536 + s[i + 2] as int * 256 + s[i + 3] as int) as u32
}

/// `BytesMut::len`: how many bytes are held.
#[verifier::external_body]
pub(crate) fn buf_len(buf: &BytesMut) -> (n: usize)
    ensures
        n == buf_contents(*buf).len(),
{
    buf.len()
}

/// `<BytesMut as Clone>::clone`: a new buffer holding the same bytes
/// (`BytesMut::from(&self[..])`).
#[verifier::external_body]
pub(crate) fn buf_clone(buf: &BytesMut) -> (r: BytesMut)
    ensures
        buf_contents(r) == buf_contents(*buf),
{
    buf.clone()
}

/// `<[u8]>::get` through `BytesMut`'s deref: the byte at `pos`, if there is one.
#[verifier::external_body]
pub(crate) fn buf_peek(buf: &BytesMut, pos: usize) -> (res: Option<u8>)
    ensures
        pos < buf_contents(*buf).len() ==> res == Some(buf_contents(*buf)[pos as int]),
        pos >= buf_contents(*buf).len() ==> res is None,
{
    buf.get(pos).copied()
}

/// `Buf::advance` on `BytesMut`: drops the first `cnt` bytes.
#[verifier::external_body]
pub(crate) fn buf_advance(buf: &mut BytesMut, cnt: usize)
    requires
        cnt <= buf_contents(*old(buf)).len(),
    ensures
        buf_contents(*final(buf)) == buf_contents(*old(buf)).skip(cnt as int),
{
    buf.advance(cnt)
}

/// `Buf::get_u8` on `BytesMut`: takes the first byte.
#[verifier::external_body]
pub(crate) fn buf_get_u8(buf: &mut BytesMut) -> (b: u8)
    requires
        buf_contents(*old(buf)).len() >= 1,
    ensures
        b == buf_contents(*old(buf))[0],
        buf_contents(*final(buf)) == buf_contents(*old(buf)).skip(1),
{
    buf.get_u8()
}

/// `Buf::get_u16` on `BytesMut`: takes the first two bytes, big-endian.
#[verifier::external_body]
pub(crate) fn buf_get_u16(buf: &mut BytesMut) -> (v: u16)
    requires
        buf_contents(*old(buf)).len() >= 2,
    ensures
        v == be_u16_at(buf_contents(*old(buf)), 0),
        buf_contents(*final(buf)) == buf_contents(*old(buf)).skip(2),
{
    buf.get_u16()
}

/// `Buf::get_u32` on `BytesMut`: takes the first four bytes, big-endian.
#[verifier::external_body]
pub(crate) fn buf_get_u32(buf: &mut BytesMut) -> (v: u32)
    requires
        buf_contents(*old(buf)).len() >= 4,
    ensures
        v == be_u32_at(buf_contents(*old(buf)), 0),
        buf_contents(*final(buf)) == buf_contents(*old(buf)).skip(4),
{
    buf.get_u32()
}

/// `BytesMut::split_to` then `BytesMut::freeze`: takes the first `at` bytes
/// as a `Bytes`.
#[verifier::external_body]
pub(crate) fn buf_split_to(buf: &mut BytesMut, at: usize) -> (front: Bytes)
    requires
        at <= buf_contents(*old(buf)).len(),
    ensures
        bytes_contents(front) == buf_contents(*old(buf)).take(at as int),
        buf_contents(*final(buf)) == buf_contents(*old(buf)).skip(at as int),
{
    buf.split_to(at).freeze()
}

/// `Bytes::len`: how many bytes are held.
#[verifier::external_body]
pub(crate) fn bytes_len(bytes: &Bytes) -> (n: usize)
    ensures
        n == bytes_contents(*bytes).len(),
{
    bytes.len()
}

/// `Bytes`'s deref to `[u8]`: the bytes held.
#[verifier::external_body]
pub(crate) fn bytes_as_slice(bytes: &Bytes) -> (s: &[u8])
    ensures
        s@ == bytes_contents(*bytes),
{
    bytes.as_ref()
}

/// `<[u8]>::to_vec` through `Bytes`'s deref: a copy of the bytes held.
#[verifier::external_body]
pub(crate) fn bytes_to_vec(bytes: &Bytes) -> (v: Vec<u8>)
    ensures
        v@ == bytes_contents(*bytes),
{
    bytes.to_vec()
}

/// `Bytes::from(String)`: the UTF-8 bytes of the string.
#[verifier::external_body]
pub(crate) fn bytes_from_string(string: String) -> (bytes: Bytes)
    ensures
        bytes_contents(bytes) == vstd::utf8::encode_utf8(string@),
{
    Bytes::from(string)
}

/// `Bytes::clone`: another handle on the same bytes.
pub assume_specification[ <Bytes as Clone>::clone ](bytes: &Bytes) -> (other: Bytes)
    ensures
        bytes_contents(other) == bytes_contents(*bytes),
;

/// `Bytes::new`: no bytes.
#[verifier::external_body]
pub(crate) fn bytes_new() -> (bytes: Bytes)
    ensures
        bytes_contents(bytes) == Seq::<u8>::empty(),
{
    Bytes::new()
}

/// `String::from_utf8`: the string the bytes encode, if they are valid UTF-8.
#[verifier::external_body]
pub(crate) fn string_from_utf8(bytes: Vec<u8>) -> (res: Result<String, FromUtf8Error>)
    ensures
        res is Ok <==> vstd::utf8::valid_utf8(bytes@),
        res matches Ok(s) ==> s@ == vstd::utf8::decode_utf8(bytes@),
{
    String::from_utf8(bytes)
}

/// `FromUtf8Error::utf8_error` then `ToString::to_string`: a description of
/// where the bytes stopped being valid UTF-8. Nothing is promised of its text.
#[verifier::external_body]
pub(crate) fn utf8_error_text(err: &FromUtf8Error) -> (text: String) {
    err.utf8_error().to_string()
}

} // verus!
