//! The MQTT 5 codec: primitive encodings, properties and control packets.
pub mod buffer;
pub mod error;
pub mod property;
pub mod property_encode;
pub mod property_laws;
pub mod header_laws;
pub mod packet_laws;
pub mod connect_laws;
pub mod parse_laws;
pub mod write;
pub mod write_laws;
pub mod fixed_header;
pub mod packet;
pub mod publish;
pub mod check;
pub mod puback;
pub mod pubrec;
pub mod pubcomp;
pub mod pubrel;
pub mod disconnect;
pub mod auth;
pub mod protocol;
pub mod pingreq;
pub mod pingresp;
pub mod connect;
pub mod connack;
pub mod subscribe;
pub mod unsubscribe;
pub mod suback;
pub mod unsuback;

use vstd::prelude::*;
use bytes::BytesMut;
use bytes::Bytes;
use crate::codec::buffer::{
    be_u16_at, buf_advance, buf_contents, buf_get_u16, buf_len, buf_peek, buf_split_to,
    bytes_as_slice, bytes_contents, bytes_from_string, bytes_len, bytes_to_vec, string_from_utf8,
    utf8_error_text,
};
use crate::codec::error::{Decoded, ErrorModel};
use vstd::utf8::{decode_utf8, encode_utf8, valid_utf8};
pub use crate::codec::error::Error;
pub use crate::codec::property::{Mqtt5Property, PropertyType, PropertyValue};

verus! {

/// One-byte codes: how a value is written as a byte and read back.
pub trait FromToU8<R>: Sized {
    fn to_u8(&self) -> u8;

    fn from_u8(byte: u8) -> Result<R, Error>;
}

/// Values with a wire format: written to the back of a byte vector, read
/// from the front of a buffer.
pub trait FromToBuf<R>: Sized {
    /// Whether `to_buf` writes this value (rather than panicking).
    spec fn writable(&self) -> bool;

    /// Whether `from_buf` returns on a buffer holding `s` (rather than
    /// panicking).
    spec fn readable(s: Seq<u8>) -> bool;

    fn to_buf(&self, buf: &mut Vec<u8>) -> (res: Result<usize, Error>)
        requires
            self.writable(),
    ;

    fn from_buf(buf: &mut BytesMut) -> (res: Result<R, Error>)
        requires
            Self::readable(buf_contents(*old(buf))),
    ;
}

/// The error the codec raises for a protocol violation, with its text.
pub(crate) fn protocol_error(msg: &str, code: u8) -> (e: Error)
    ensures
        e@ == ErrorModel::InvalidProtocol(msg@, code),
{
    Error::InvalidProtocol(msg.to_string(), code)
}

/// The value of the first `n` bytes of `s` read as a variable byte integer
/// (seven low bits per byte, least significant group first).
pub open spec fn varint_value(s: Seq<u8>, n: nat) -> nat
    decreases n,
{
    if n == 0 {
        0
    } else {
        varint_value(s, (n - 1) as nat) + (s[n - 1] % 128) as nat * pow128((n - 1) as nat)
    }
}

/// `128` to the power `e`.
pub open spec fn pow128(e: nat) -> nat
    decreases e,
{
    if e == 0 {
        1
    } else {
        128 * pow128((e - 1) as nat)
    }
}

/// Scanning from position `pos`: the length of the variable byte integer at the
/// front of `s`, if one of its first four bytes has the high bit clear.
pub open spec fn varint_len_from(s: Seq<u8>, pos: nat) -> Option<nat>
    decreases 4 - pos,
{
    if pos >= 4 {
        None
    } else if pos < s.len() && s[pos as int] < 128 {
        Some(pos + 1)
    } else {
        varint_len_from(s, pos + 1)
    }
}

/// The variable byte integer at the front of `s` and the number of bytes it takes.
pub open spec fn spec_read_varint(s: Seq<u8>) -> Option<(nat, nat)> {
    match varint_len_from(s, 0) {
        Some(n) => Some((varint_value(s, n), n)),
        None => None,
    }
}

/// The bytes `write_variable_bytes` emits for `value`: base-127 digits, least
/// significant first, every digit but the last replaced by `0x7F`.
pub open spec fn varint_encode(value: nat) -> Seq<u8>
    decreases value,
{
    if value / 127 > 0 {
        seq![0x7Fu8] + varint_encode(value / 127)
    } else {
        seq![(value % 127) as u8]
    }
}

pub(crate) proof fn lemma_varint_len_bounds(s: Seq<u8>, pos: nat)
    ensures
        varint_len_from(s, pos) matches Some(n) ==> pos < n <= 4 && n <= s.len() && s[n - 1] < 128
            && forall|i: int| pos <= i < n - 1 ==> #[trigger] s[i] >= 128,
    decreases 4 - pos,
{
    if pos < 4 {
        lemma_varint_len_bounds(s, pos + 1);
    }
}

proof fn lemma_pow128_values()
    ensures
        pow128(0) == 1,
        pow128(1) == 128,
        pow128(2) == 16384,
        pow128(3) == 2097152,
        pow128(4) == 268435456,
{
    reveal_with_fuel(pow128, 5);
}

proof fn lemma_varint_value_bound(s: Seq<u8>, n: nat)
    requires
        n <= 4,
        n <= s.len(),
    ensures
        varint_value(s, n) < pow128(n),
    decreases n,
{
    if n > 0 {
        lemma_varint_value_bound(s, (n - 1) as nat);
        let d = (s[n - 1] % 128) as nat;
        let p = pow128((n - 1) as nat);
        assert(d * p <= 127 * p) by (nonlinear_arith)
            requires
                d <= 127,
        ;
    }
}

/// The bounds on a variable byte integer at the front of `s`.
pub proof fn lemma_read_varint_consumed(s: Seq<u8>)
    ensures
        spec_read_varint(s) matches Some((v, n)) ==> 1 <= n <= 4 && n <= s.len() && v < 268435456,
{
    lemma_varint_len_bounds(s, 0);
    lemma_pow128_values();
    if let Some((v, n)) = spec_read_varint(s) {
        lemma_varint_value_bound(s, n);
        if n < 4 {
            assert(pow128(n) <= pow128(4));
        }
    }
}

/// Reads a variable byte integer from the front of `buf`, looking at no more
/// than four bytes. On success returns the value and the number of bytes
/// consumed, and advances `buf` past them; otherwise leaves `buf` unchanged.
///
/// # Examples
/// ```
/// use bytes::{BytesMut, BufMut};
/// use mqtt::codec::read_variable_bytes;
///
/// let mut buf = BytesMut::with_capacity(2);
/// buf.put_u8(0b1000_1000);
/// buf.put_u8(0b0000_0001);
/// let value = read_variable_bytes(&mut buf).unwrap();
/// assert_eq!(value.0, 0b1000_1000);
/// ```
pub fn read_variable_bytes(buf: &mut BytesMut) -> (res: Result<(usize, usize), Error>)
    ensures
        match spec_read_varint(buf_contents(*old(buf))) {
            Some((v, n)) => res == Ok::<(usize, usize), Error>((v as usize, n as usize))
                && v < 268435456 && buf_contents(*final(buf)) == buf_contents(*old(buf)).skip(n as int),
            None => res == Err::<(usize, usize), Error>(Error::MalformedVariableByteInteger)
                && buf_contents(*final(buf)) == buf_contents(*old(buf)),
        },
{
    let ghost s = buf_contents(*buf);
    proof {
        lemma_varint_len_bounds(s, 0);
        lemma_pow128_values();
    }
    let mut value: usize = 0;
    let mut multiplier: usize = 1;
    let mut pos: usize = 0;
    while pos <= 3
        invariant
            pos <= 4,
            buf_contents(*buf) == s,
            s == buf_contents(*old(buf)),
            pos < 4 ==> multiplier == pow128(pos as nat),
            multiplier <= 2097152,
            value == varint_value(s, if pos <= s.len() { pos as nat } else { s.len() }),
            value < pow128(pos as nat),
            varint_len_from(s, 0) == varint_len_from(s, pos as nat),
            forall|i: int| 0 <= i < pos && i < s.len() ==> #[trigger] s[i] >= 128,
            value < pow128(4),
        decreases 4 - pos,
    {
        proof {
            lemma_pow128_values();
        }
        if let Some(byte) = buf_peek(buf, pos) {
            assert(pos < s.len());
            proof {
                lemma_varint_value_bound(s, (pos + 1) as nat);
                let d = (byte % 128) as nat;
                assert(d * multiplier <= 127 * multiplier) by (nonlinear_arith)
                    requires d <= 127;
            }
            value = value + (byte as usize % 128) * multiplier;
            assert(value == varint_value(s, (pos + 1) as nat));
            if byte < 128 {
                assert(varint_len_from(s, pos as nat) == Some((pos + 1) as nat));
                assert(value < pow128(4));
                assert(spec_read_varint(s) == Some((value as nat, (pos + 1) as nat)));
                buf_advance(buf, pos + 1);
                return Ok((value, pos + 1));
            }
        }
        assert(pow128((pos + 1) as nat) == 128 * pow128(pos as nat));
        if pos < 3 {
            multiplier = multiplier * 128;
        }
        pos = pos + 1;
    }
    Err(Error::MalformedVariableByteInteger)
}


/// The two bytes of `v`, big-endian.
pub open spec fn be16(v: u16) -> Seq<u8> {
    seq![(v / 256) as u8, (v % 256) as u8]
}

/// The four bytes of `v`, big-endian.
pub open spec fn be32(v: u32) -> Seq<u8> {
    seq![(v / 16777216) as u8, ((v / 65536) % 256) as u8, ((v / 256) % 256) as u8, (v % 256) as u8]
}

/// Appends `v` to `buf`, big-endian.
pub(crate) fn put_u16(buf: &mut Vec<u8>, v: u16)
    ensures
        final(buf)@ == old(buf)@ + be16(v),
{
    buf.push((v / 256) as u8);
    buf.push((v % 256) as u8);
    assert(buf@ =~= old(buf)@ + be16(v));
}

/// Appends `v` to `buf`, big-endian.
pub(crate) fn put_u32(buf: &mut Vec<u8>, v: u32)
    ensures
        final(buf)@ == old(buf)@ + be32(v),
{
    buf.push((v / 16777216) as u8);
    buf.push(((v / 65536) % 256) as u8);
    buf.push(((v / 256) % 256) as u8);
    buf.push((v % 256) as u8);
    assert(buf@ =~= old(buf)@ + be32(v));
}

/// Appends the bytes of `src` to `buf`.
pub(crate) fn put_slice(buf: &mut Vec<u8>, src: &[u8])
    ensures
        final(buf)@ == old(buf)@ + src@,
{
    buf.extend_from_slice(src);
    assert(buf@ =~= old(buf)@ + src@);
}

/// The bytes `write_bytes` emits for `data`: its length as two bytes, then the data.
pub open spec fn length_prefixed(data: Seq<u8>) -> Seq<u8> {
    be16(data.len() as u16) + data
}

/// Decoding two-byte-length-prefixed binary data from the front of `s`.
pub open spec fn spec_read_bytes(s: Seq<u8>) -> Decoded<Seq<u8>> {
    if s.len() < 2 {
        Decoded::Panic
    } else if be_u16_at(s, 0) > s.len() - 2 {
        Decoded::Fail(ErrorModel::InvalidLength, 2)
    } else {
        Decoded::Done(s.subrange(2, 2 + be_u16_at(s, 0)), 2 + be_u16_at(s, 0) as nat)
    }
}

/// Decoding a length-prefixed UTF-8 string from the front of `s`, where any
/// failure is a panic (every caller expects success).
pub open spec fn spec_read_string_expect(s: Seq<u8>) -> Decoded<Seq<char>> {
    match spec_read_bytes(s) {
        Decoded::Done(data, n) => if valid_utf8(data) {
            Decoded::Done(decode_utf8(data), n)
        } else {
            Decoded::Panic
        },
        _ => Decoded::Panic,
    }
}

/// Writes `bytes` with a two-byte big-endian length in front; returns the
/// number of bytes written.
pub fn write_bytes(bytes: Bytes, buf: &mut Vec<u8>) -> (len: usize)
    requires
        bytes_contents(bytes).len() <= 65535,
    ensures
        final(buf)@ == old(buf)@ + length_prefixed(bytes_contents(bytes)),
        len == bytes_contents(bytes).len() + 2,
{
    let len = bytes_len(&bytes);
    put_u16(buf, len as u16);
    put_slice(buf, bytes_as_slice(&bytes));
    assert(buf@ =~= old(buf)@ + length_prefixed(bytes_contents(bytes)));
    len + 2
}

/// Writes the UTF-8 bytes of `string` with a two-byte big-endian length in
/// front; returns the number of bytes written.
pub fn write_string(string: String, buf: &mut Vec<u8>) -> (len: usize)
    requires
        encode_utf8(string@).len() <= 65535,
    ensures
        final(buf)@ == old(buf)@ + length_prefixed(encode_utf8(string@)),
        len == encode_utf8(string@).len() + 2,
{
    write_bytes(bytes_from_string(string), buf)
}

/// Reads two-byte-length-prefixed binary data from the front of `buf`.
pub fn read_bytes(buf: &mut BytesMut) -> (res: Result<Bytes, Error>)
    requires
        buf_contents(*old(buf)).len() >= 2,
    ensures
        match spec_read_bytes(buf_contents(*old(buf))) {
            Decoded::Done(data, n) => res matches Ok(b) && bytes_contents(b) == data
                && buf_contents(*final(buf)) == buf_contents(*old(buf)).skip(n as int),
            Decoded::Fail(e, n) => res matches Err(err) && err@ == e
                && buf_contents(*final(buf)) == buf_contents(*old(buf)).skip(n as int),
            Decoded::Panic => false,
        },
{
    let len = buf_get_u16(buf) as usize;
    if len > buf_len(buf) {
        Err(Error::InvalidLength)
    } else {
        let data = buf_split_to(buf, len);
        assert(bytes_contents(data) =~= buf_contents(*old(buf)).subrange(2, 2 + len));
        assert(buf_contents(*buf) =~= buf_contents(*old(buf)).skip(2 + len));
        Ok(data)
    }
}

/// Reads a two-byte-length-prefixed UTF-8 string from the front of `buf`.
/// Bytes that are not valid UTF-8 give `Error::InvalidString`.
pub fn read_string(buf: &mut BytesMut) -> (res: Result<String, Error>)
    requires
        buf_contents(*old(buf)).len() >= 2,
    ensures
        match spec_read_bytes(buf_contents(*old(buf))) {
            Decoded::Done(data, n) => buf_contents(*final(buf)) == buf_contents(*old(buf)).skip(n as int)
                && if valid_utf8(data) {
                    res matches Ok(s) && s@ == decode_utf8(data)
                } else {
                    res matches Err(Error::InvalidString(_))
                },
            Decoded::Fail(e, n) => res matches Err(err) && err@ == e
                && buf_contents(*final(buf)) == buf_contents(*old(buf)).skip(n as int),
            Decoded::Panic => false,
        },
{
    let data = match read_bytes(buf) {
        Ok(data) => data,
        Err(e) => return Err(e),
    };
    match string_from_utf8(bytes_to_vec(&data)) {
        Ok(s) => Ok(s),
        Err(e) => Err(Error::InvalidString(utf8_error_text(&e))),
    }
}

/// How many bytes `write_variable_bytes` emits for `value`.
pub(crate) fn variable_bytes_len(value: usize) -> (len: usize)
    ensures
        len == varint_encode(value as nat).len(),
        1 <= len <= value as nat + 1,
    decreases value,
{
    if value / 127 > 0 {
        1 + variable_bytes_len(value / 127)
    } else {
        1
    }
}


pub(crate) proof fn lemma_varint_encode_len(v: nat)
    ensures
        1 <= varint_encode(v).len() <= v / 127 + 1,
    decreases v,
{
    if v / 127 > 0 {
        lemma_varint_encode_len(v / 127);
    }
}

/// Writes `value` as the codec's variable byte integer: base-127 digits, least
/// significant first, each digit but the last or'ed with `0x7F`; zero is one
/// zero byte. Returns the number of bytes written.
///
/// # Examples
/// ```
/// use mqtt::codec::write_variable_bytes;
///
/// let mut buf = Vec::with_capacity(2);
/// let len = write_variable_bytes(136, &mut buf).unwrap();
/// assert_eq!(len, 2);
/// assert_eq!(buf, [127, 1])
/// ```
pub fn write_variable_bytes(value: usize, buf: &mut Vec<u8>) -> (res: Result<usize, Error>)
    ensures
        final(buf)@ == old(buf)@ + varint_encode(value as nat),
        res == Ok::<usize, Error>(varint_encode(value as nat).len() as usize),
{
    let ghost initial = value;
    let mut value = value;
    let mut len: usize = 0;
    loop
        invariant_except_break
            old(buf)@ + varint_encode(initial as nat) == buf@ + varint_encode(value as nat),
            len + varint_encode(value as nat).len() == varint_encode(initial as nat).len(),
        ensures
            final(buf)@ == old(buf)@ + varint_encode(initial as nat),
            len == varint_encode(initial as nat).len(),
        decreases value,
    {
        let ghost before = buf@;
        let ghost v = value;
        proof {
            lemma_varint_encode_len(value as nat);
            lemma_varint_encode_len(initial as nat);
        }
        let mut encoded_byte: u8 = (value % 0x7F) as u8;
        value = value / 0x7F;
        if value > 0 {
            assert((encoded_byte | 0x7F) == 0x7Fu8) by (bit_vector)
                requires
                    encoded_byte < 128,
            ;
            encoded_byte |= 0x7F;
        }
        buf.push(encoded_byte);
        len += 1;
        if value == 0 {
            assert(buf@ =~= before + varint_encode(v as nat));
            break;
        }
        assert(varint_encode(v as nat) =~= seq![0x7Fu8] + varint_encode(value as nat));
        assert(buf@ + varint_encode(value as nat) =~= before + varint_encode(v as nat));
    }
    Ok(len)
}

/// The same encoding as [`write_variable_bytes`].
pub fn write_variable_bytes2(value: usize, buf: &mut Vec<u8>) -> (res: Result<usize, Error>)
    ensures
        final(buf)@ == old(buf)@ + varint_encode(value as nat),
        res == Ok::<usize, Error>(varint_encode(value as nat).len() as usize),
{
    let ghost initial = value;
    let mut value = value;
    let mut len: usize = 0;
    loop
        invariant_except_break
            old(buf)@ + varint_encode(initial as nat) == buf@ + varint_encode(value as nat),
            len + varint_encode(value as nat).len() == varint_encode(initial as nat).len(),
        ensures
            final(buf)@ == old(buf)@ + varint_encode(initial as nat),
            len == varint_encode(initial as nat).len(),
        decreases value,
    {
        let ghost before = buf@;
        let ghost v = value;
        proof {
            lemma_varint_encode_len(value as nat);
            lemma_varint_encode_len(initial as nat);
        }
        let mut encoded_byte: u8 = (value % 0x7F) as u8;
        value = value / 0x7F;
        if value > 0 {
            assert((encoded_byte | 0x7F) == 0x7Fu8) by (bit_vector)
                requires
                    encoded_byte < 128,
            ;
            encoded_byte |= 0x7F;
        }
        buf.push(encoded_byte);
        len += 1;
        if value == 0 {
            assert(buf@ =~= before + varint_encode(v as nat));
            break;
        }
        assert(varint_encode(v as nat) =~= seq![0x7Fu8] + varint_encode(value as nat));
        assert(buf@ + varint_encode(value as nat) =~= before + varint_encode(v as nat));
    }
    Ok(len)
}

} // verus!
