//! Readers of single values: big-endian integers, byte runs, length-prefixed
//! data and strings, and variable byte integers.
use vstd::prelude::*;
use vstd::utf8::{decode_utf8, valid_utf8};
use crate::borrowed::{answers, Outcome, ParseError};
use crate::codec::buffer::{be_u16_at, be_u32_at};

verus! {

/// `std::str::from_utf8`: the bytes as a string slice, if they are valid
/// UTF-8 (the error, which says where they stop being valid, is dropped).
#[verifier::external_body]
fn str_from_utf8<'a>(bytes: &'a [u8]) -> (res: Option<&'a str>)
    ensures
        res is Some <==> valid_utf8(bytes@),
        res matches Some(s) ==> s@ == decode_utf8(bytes@),
{
    std::str::from_utf8(bytes).ok()
}

/// Reading one byte.
pub open spec fn spec_be_u8(s: Seq<u8>) -> Outcome<u8> {
    if s.len() < 1 { Outcome::Rejected } else { Outcome::Parsed(s[0], 1) }
}

/// Reading a big-endian `u16`.
pub open spec fn spec_be_u16(s: Seq<u8>) -> Outcome<u16> {
    if s.len() < 2 { Outcome::Rejected } else { Outcome::Parsed(be_u16_at(s, 0), 2) }
}

/// Reading a big-endian `u32`.
pub open spec fn spec_be_u32(s: Seq<u8>) -> Outcome<u32> {
    if s.len() < 4 { Outcome::Rejected } else { Outcome::Parsed(be_u32_at(s, 0), 4) }
}

/// Taking the first `n` bytes.
pub open spec fn spec_take(s: Seq<u8>, n: nat) -> Outcome<Seq<u8>> {
    if s.len() < n { Outcome::Rejected } else { Outcome::Parsed(s.take(n as int), n) }
}

/// Reading binary data behind a two-byte big-endian length.
pub open spec fn spec_read_bytes(s: Seq<u8>) -> Outcome<Seq<u8>> {
    if s.len() < 2 || s.len() - 2 < be_u16_at(s, 0) {
        Outcome::Rejected
    } else {
        Outcome::Parsed(s.subrange(2, 2 + be_u16_at(s, 0)), 2 + be_u16_at(s, 0) as nat)
    }
}

/// Reading a UTF-8 string behind a two-byte big-endian length.
pub open spec fn spec_read_string(s: Seq<u8>) -> Outcome<Seq<char>> {
    match spec_read_bytes(s) {
        Outcome::Parsed(data, n) => if valid_utf8(data) {
            Outcome::Parsed(decode_utf8(data), n)
        } else {
            Outcome::Rejected
        },
        _ => Outcome::Rejected,
    }
}

/// How many bytes at the front of `s` have the high bit set.
pub open spec fn high_run(s: Seq<u8>) -> nat
    decreases s.len(),
{
    if s.len() == 0 || s[0] < 128 {
        0
    } else {
        1 + high_run(s.skip(1))
    }
}

/// The value of the bytes of a variable byte integer: byte `i` gives its low
/// seven bits shifted left by `7 * i` places, and the bits that fall past the
/// width of `usize` are lost.
pub open spec fn vbi_value(bytes: Seq<u8>) -> usize
    decreases bytes.len(),
{
    if bytes.len() == 0 {
        0
    } else {
        vbi_value(bytes.drop_last()) | (((bytes.last() & 0x7F) as usize) << ((7 * (bytes.len() - 1)) as usize))
    }
}

/// Reading a variable byte integer: every byte with the high bit set, then
/// one more byte. The result is the value and the number of bytes. A shift
/// past the width of `usize` panics.
pub open spec fn spec_vbi(s: Seq<u8>) -> Outcome<(usize, usize)> {
    let r = high_run(s);
    if r >= s.len() {
        Outcome::Rejected
    } else if 7 * r >= usize::BITS {
        Outcome::Stuck
    } else {
        Outcome::Parsed((vbi_value(s.take(r + 1 as int)), (r + 1) as usize), r + 1)
    }
}

/// The bytes with the high bit set run from the front to position `high_run`.
pub proof fn lemma_high_run(s: Seq<u8>)
    ensures
        high_run(s) <= s.len(),
        forall|i: int| 0 <= i < high_run(s) ==> #[trigger] s[i] >= 128,
        high_run(s) < s.len() ==> s[high_run(s) as int] < 128,
    decreases s.len(),
{
    if s.len() > 0 && s[0] >= 128 {
        lemma_high_run(s.skip(1));
        assert forall|i: int| 0 <= i < high_run(s) implies #[trigger] s[i] >= 128 by {
            if i > 0 {
                assert(s[i] == s.skip(1)[i - 1]);
            }
        }
        if high_run(s) < s.len() {
            assert(s[high_run(s) as int] == s.skip(1)[high_run(s.skip(1)) as int]);
        }
    }
}

/// A string read takes its two length bytes and no more than there are.
pub proof fn lemma_read_string_len(s: Seq<u8>)
    ensures
        spec_read_string(s) matches Outcome::Parsed(_, n) ==> 2 <= n <= s.len(),
        spec_read_bytes(s) matches Outcome::Parsed(_, n) ==> 2 <= n <= s.len(),
{
}

/// Reads one byte.
pub fn be_u8<'a>(input: &'a [u8]) -> (res: Result<(&'a [u8], u8), ParseError>)
    ensures
        answers(spec_be_u8(input@), input@, res),
{
    if input.len() < 1 {
        return Err(ParseError);
    }
    let (front, rest) = input.split_at(1);
    assert(rest@ == input@.skip(1));
    Ok((rest, front[0]))
}

/// Reads a big-endian `u16`.
pub fn be_u16<'a>(input: &'a [u8]) -> (res: Result<(&'a [u8], u16), ParseError>)
    ensures
        answers(spec_be_u16(input@), input@, res),
{
    if input.len() < 2 {
        return Err(ParseError);
    }
    let v: u16 = (input[0] as u16) * 256 + input[1] as u16;
    let (_, rest) = input.split_at(2);
    assert(rest@ == input@.skip(2));
    Ok((rest, v))
}

/// Reads a big-endian `u32`.
pub fn be_u32<'a>(input: &'a [u8]) -> (res: Result<(&'a [u8], u32), ParseError>)
    ensures
        answers(spec_be_u32(input@), input@, res),
{
    if input.len() < 4 {
        return Err(ParseError);
    }
    let v: u32 = (input[0] as u32) * 16777216 + (input[1] as u32) * 65536 + (input[2] as u32) * 256 + input[3] as u32;
    let (_, rest) = input.split_at(4);
    assert(rest@ == input@.skip(4));
    Ok((rest, v))
}

/// Takes the first `n` bytes.
pub fn take<'a>(input: &'a [u8], n: usize) -> (res: Result<(&'a [u8], &'a [u8]), ParseError>)
    ensures
        answers(spec_take(input@, n as nat), input@, res),
{
    if input.len() < n {
        return Err(ParseError);
    }
    let (front, rest) = input.split_at(n);
    assert(rest@ == input@.skip(n as int));
    assert(front@ == input@.take(n as int));
    Ok((rest, front))
}

/// Reads binary data behind a two-byte big-endian length.
pub fn read_bytes<'a>(input: &'a [u8]) -> (res: Result<(&'a [u8], &'a [u8]), ParseError>)
    ensures
        answers(spec_read_bytes(input@), input@, res),
{
    let (rest, len) = be_u16(input)?;
    let (rest2, data) = take(rest, len as usize)?;
    assert(data@ == input@.subrange(2, 2 + len as int));
    assert(rest2@ == input@.skip(2 + len as int));
    Ok((rest2, data))
}

/// Reads a UTF-8 string behind a two-byte big-endian length.
pub fn read_string<'a>(input: &'a [u8]) -> (res: Result<(&'a [u8], &'a str), ParseError>)
    ensures
        answers(spec_read_string(input@), input@, res),
{
    let (rest, data) = read_bytes(input)?;
    match str_from_utf8(data) {
        Some(s) => Ok((rest, s)),
        None => Err(ParseError),
    }
}

/// Reads a variable byte integer: every byte with the high bit set, then
/// one more; returns its value and its length in bytes.
pub fn read_variable_bytes<'a>(input: &'a [u8]) -> (res: Result<(&'a [u8], (usize, usize)), ParseError>)
    requires
        !spec_vbi(input@).stuck(),
    ensures
        answers(spec_vbi(input@), input@, res),
{
    proof {
        lemma_high_run(input@);
    }
    let mut r: usize = 0;
    while r < input.len() && input[r] >= 128
        invariant
            r <= input@.len(),
            r <= high_run(input@),
            high_run(input@) <= input@.len(),
            forall|i: int| 0 <= i < high_run(input@) ==> #[trigger] input@[i] >= 128,
            high_run(input@) < input@.len() ==> input@[high_run(input@) as int] < 128,
        decreases input@.len() - r,
    {
        r = r + 1;
    }
    assert(r == high_run(input@));
    if r >= input.len() {
        return Err(ParseError);
    }
    let ghost bytes = input@.take(r + 1);
    let mut value: usize = 0;
    let mut i: usize = 0;
    while i <= r
        invariant
            r < input@.len(),
            7 * r < usize::BITS,
            bytes == input@.take(r + 1),
            i <= r + 1,
            value == vbi_value(bytes.take(i as int)),
        decreases r + 1 - i,
    {
        let b: u8 = input[i];
        let shift: usize = 7 * i;
        let term: usize = ((b & 0x7F) as usize) << shift;
        assert(bytes.take(i + 1).drop_last() == bytes.take(i as int));
        assert(bytes.take(i + 1).last() == b);
        value = value | term;
        i = i + 1;
    }
    assert(bytes.take(r + 1) == bytes);
    let (_, rest) = input.split_at(r + 1);
    assert(rest@ == input@.skip(r + 1));
    Ok((rest, (value, r + 1)))
}

} // verus!
