//! What the readers keyed by one-byte identifiers store for the two
//! request-information flags: a value byte of 1 is true, 0 is false.
use vstd::prelude::*;
use crate::codec::property::PropertyValueModel;
use crate::codec::spec_read_varint;
use crate::connect_defaults::decode::{connect_loop, connect_step, spec_connect_properties, Props};
use crate::connect_defaults::property::{list_loop, list_step, spec_property_list};
use crate::connect_defaults::{PropsModel, Read};
use crate::codec::connect::ConnectFlagsModel;
use crate::codec::length_prefixed;
use crate::codec::property_laws::lemma_string_roundtrip;
use crate::connect_defaults::decode::spec_connect_payload;
use vstd::utf8::encode_utf8;

verus! {

/// A one-byte variable byte integer reads as itself.
proof fn lemma_small_varint(s: Seq<u8>)
    requires
        s.len() >= 1,
        s[0] < 128,
    ensures
        spec_read_varint(s) == Some((s[0] as nat, 1nat)),
{
    assert(crate::codec::varint_len_from(s, 0) == Some(1nat));
    assert(crate::codec::pow128(0) == 1);
    assert(crate::codec::varint_value(s, 0) == 0);
    assert(s[0] % 128 == s[0]);
    assert(crate::codec::varint_value(s, 1) == crate::codec::varint_value(s, 0) + (s[0] % 128) as nat
        * crate::codec::pow128(0));
    assert(crate::codec::varint_value(s, 1) == s[0] as nat);
}

/// In a property list, Request Problem Information (0x17) or Request
/// Response Information (0x19) not read before, with a value byte of 0 or 1,
/// is stored as the flag "value byte is 1"; the byte is taken and counts one,
/// and nothing else read so far changes. Any other value byte, or the flag
/// read a second time, is an error.
pub proof fn lemma_list_request_flag(id: u8, r: Seq<u8>, p: Props)
    requires
        id == 0x17 || id == 0x19,
        r.len() >= 1,
    ensures
        (r[0] != 0 && r[0] != 1) || p.0.contains_key(id) ==> list_step(id as nat, r, p) is Fail,
        (r[0] == 0 || r[0] == 1) && !p.0.contains_key(id) ==> list_step(id as nat, r, p) == Read::Done(
            ((p.0.insert(id, PropertyValueModel::Bit(r[0] == 1)), p.1), 1nat),
            1,
        ),
{
    reveal(list_step);
}

/// In a property list, Payload Format Indicator (0x01) not read before is
/// stored as the flag "value byte is odd"; the byte is taken and counts one.
pub proof fn lemma_list_payload_format(r: Seq<u8>, p: Props)
    requires
        r.len() >= 1,
        !p.0.contains_key(0x01),
    ensures
        list_step(0x01, r, p) == Read::Done(((p.0.insert(0x01, PropertyValueModel::Bit(r[0] % 2 == 1)), p.1), 1nat), 1),
{
    reveal(list_step);
}

/// A property list of length 2 holding just Request Problem Information
/// (0x17) or Request Response Information (0x19) with value byte `v` of 0 or
/// 1, whatever follows it, reads as that one flag, true exactly when `v` is
/// 1, and takes its three bytes.
pub proof fn lemma_list_of_one_request_flag(id: u8, v: u8, rest: Seq<u8>)
    requires
        id == 0x17 || id == 0x19,
        v == 0 || v == 1,
    ensures
        spec_property_list(seq![2u8, id, v] + rest) == Read::Done(
            (2usize, Map::<u8, PropertyValueModel>::empty().insert(id, PropertyValueModel::Bit(v == 1))),
            3,
        ),
{
    let s = seq![2u8, id, v] + rest;
    let e: Props = (Map::empty(), Seq::empty());
    lemma_small_varint(s);
    let s1 = s.skip(1);
    lemma_small_varint(s1);
    lemma_list_request_flag(id, s1.skip(1), e);
    assert(s1.skip(1)[0] == v);
    reveal_with_fuel(list_loop, 2);
}

/// In the connect properties, Request Problem Information (0x17) or Request
/// Response Information (0x19) not read before, with a value byte of 0 or 1,
/// is stored as the flag "value byte is 1"; the byte is taken and counts one,
/// and nothing else read so far changes. Any other value byte, or the flag
/// read a second time, is an error.
pub proof fn lemma_connect_request_flag(id: u8, r: Seq<u8>, p: Props)
    requires
        id == 0x17 || id == 0x19,
        r.len() >= 1,
    ensures
        (r[0] != 0 && r[0] != 1) || p.0.contains_key(id) ==> connect_step(id as nat, r, p) is Fail,
        (r[0] == 0 || r[0] == 1) && !p.0.contains_key(id) ==> connect_step(id as nat, r, p) == Read::Done(
            ((p.0.insert(id, PropertyValueModel::Bit(r[0] == 1)), p.1), 1nat),
            1,
        ),
{
    reveal(connect_step);
}

/// Connect properties of length 1 holding just Request Problem Information
/// (0x17) or Request Response Information (0x19) with value byte `v` of 0 or
/// 1, whatever follows them, read with that flag stored as true exactly when
/// `v` is 1, and take their three bytes.
pub proof fn lemma_connect_properties_request_flag(id: u8, v: u8, rest: Seq<u8>)
    requires
        id == 0x17 || id == 0x19,
        v == 0 || v == 1,
    ensures
        spec_connect_properties(seq![1u8, id, v] + rest) matches Read::Done(m, n) && n == 3 && m.contains_key(id)
            && m[id] == PropertyValueModel::Bit(v == 1),
{
    let s = seq![1u8, id, v] + rest;
    let e: Props = (Map::empty(), Seq::empty());
    lemma_small_varint(s);
    let s1 = s.skip(1);
    lemma_small_varint(s1);
    lemma_connect_request_flag(id, s1.skip(1), e);
    assert(s1.skip(1)[0] == v);
    reveal_with_fuel(connect_loop, 2);
}

/// With no will and exactly one of the user name and password flags set,
/// the CONNECT payload after the client id `c` holds the one string `x`,
/// whatever follows: it is read as the user name when the user name flag is
/// set and as the password when the password flag is set, and the other is
/// absent.
pub proof fn lemma_payload_credential(c: Seq<char>, x: Seq<char>, f: ConnectFlagsModel, rest: Seq<u8>)
    requires
        !f.1,
        f.4 != f.5,
        encode_utf8(c).len() <= 65535,
        encode_utf8(x).len() <= 65535,
    ensures
        spec_connect_payload(length_prefixed(encode_utf8(c)) + length_prefixed(encode_utf8(x)) + rest, f)
            == Read::Done(
            (
                c,
                None::<PropsModel>,
                None::<Seq<char>>,
                None::<Seq<u8>>,
                if f.4 { Some(x) } else { None },
                if f.5 { Some(x) } else { None },
            ),
            encode_utf8(c).len() + 2 + encode_utf8(x).len() + 2,
        ),
{
    let cx = length_prefixed(encode_utf8(c));
    let xs = length_prefixed(encode_utf8(x));
    let s = cx + xs + rest;
    assert(s =~= cx + (xs + rest));
    lemma_string_roundtrip(c, xs + rest);
    let n1 = encode_utf8(c).len() + 2;
    assert(s.skip(n1 as int) =~= xs + rest);
    lemma_string_roundtrip(x, rest);
    let n3 = encode_utf8(x).len() + 2;
    assert((xs + rest).skip(n3 as int) =~= rest);
    assert(s.skip((n1 + n3) as int) =~= rest);
}

} // verus!
