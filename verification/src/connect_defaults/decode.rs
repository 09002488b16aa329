//! Reading a CONNECT packet with defaults for absent properties.
use vstd::prelude::*;
use bytes::BytesMut;
use std::collections::HashMap;
use crate::codec::buffer::{
    be_u16_at, be_u32_at, buf_contents, buf_get_u16, buf_get_u32, buf_get_u8, buf_len, buf_split_to, bytes_as_slice,
    bytes_contents, bytes_len, bytes_new, bytes_to_vec,
};
use crate::codec::connect::{lemma_connect_flags_view, spec_connect_flags, ConnectFlags, ConnectFlagsModel};
use crate::connect_defaults::flags::ConnectFlag;
use crate::codec::fixed_header::FixedHeader;
use crate::codec::packet::{packet_type_of, PacketType};
use crate::codec::protocol::Protocol;
use crate::codec::publish::Qos;
use crate::codec::{read_bytes, spec_read_bytes, FromToU8};
use crate::codec::error::Decoded;
use crate::codec::property::{lemma_string_consumed, string_pairs_model, PropertyValueModel};
use crate::codec::{lemma_read_varint_consumed, read_string, read_variable_bytes, spec_read_string_expect, spec_read_varint};
use crate::connect_defaults::{
    props_map_model, Connect, ConnectPayload, ConnectPayloadModel, ConnectVariableHeaderModel, Error, ErrorModel,
    Mqtt5Property, PropertyValue, Read, ConnectVariableHeader,
};
use vstd::utf8::encode_utf8;

verus! {

broadcast use vstd::std_specs::hash::group_hash_axioms;

/// The properties read so far: those stored by identifier, and the user
/// properties in order.
pub type Props = (Map<u8, PropertyValueModel>, Seq<(Seq<char>, Seq<char>)>);

/// The error for a connect property that came twice or has a value out of
/// range.
pub open spec fn connect_property_error(code: u8) -> ErrorModel {
    ErrorModel::InvalidProtocol(
        if code == 0x11 {
            "Connect properties cannot contains [Session Expire Interval] more than once"@
        } else if code == 0x21 {
            "Connect properties cannot contains [Receive Maximum] more than once or for it have the value 0"@
        } else if code == 0x27 {
            "Connect properties cannot contains [Maximum Packet Size] more than once or for it have the value 0"@
        } else if code == 0x22 {
            "Connect properties cannot contains [Topic Alias Maximum] more than once"@
        } else if code == 0x19 {
            "Connect properties cannot contains [Request Response Information] more than once or to have a value other than 0 or 1"@
        } else if code == 0x17 {
            "Connect properties cannot contains [Request Problem Information] more than once or to have a value other than 0 or 1"@
        } else if code == 0x15 {
            "Connect properties cannot contains [Authentication Method] more than once"@
        } else {
            "Connect properties cannot contains [Authentication Data] more than once"@
        },
        code,
    )
}

/// Reading a length-prefixed string that must be there: the string and
/// the count it adds (its bytes, without the two length bytes).
pub open spec fn string_step(r: Seq<u8>) -> Read<(Seq<char>, nat)> {
    match spec_read_string_expect(r) {
        Decoded::Done(s, n) => Read::Done((s, (n - 2) as nat), n),
        _ => Read::Panic,
    }
}

/// Reading binary data behind a two-byte length: the data and the count
/// it adds (its length). Data longer than what is left panics.
pub open spec fn binary_step(r: Seq<u8>) -> Read<(Seq<u8>, nat)> {
    if r.len() < 2 || be_u16_at(r, 0) > r.len() - 2 {
        Read::Panic
    } else {
        Read::Done((r.subrange(2, 2 + be_u16_at(r, 0) as int), be_u16_at(r, 0) as nat), 2 + be_u16_at(r, 0) as nat)
    }
}

/// Reading a user property: the name and value strings, with the counts
/// of their bytes added.
pub open spec fn user_step(r: Seq<u8>, p: Props) -> Read<(Props, nat)> {
    match string_step(r) {
        Read::Done((name, a1), n1) => match string_step(r.skip(n1 as int)) {
            Read::Done((value, a2), n2) => Read::Done(((p.0, p.1.push((name, value))), a1 + a2), n1 + n2),
            _ => Read::Panic,
        },
        _ => Read::Panic,
    }
}

/// Reading the value of connect property `id` at the front of `r`, given
/// what was read before: the properties after it, and the count it adds to
/// the property length. A duplicate is detected before the value is read.
/// Receive Maximum and Maximum Packet Size panic when they come the first
/// time (the check for a zero value looks the property up before it is
/// stored).
#[verifier::opaque]
pub open spec fn connect_step(id: nat, r: Seq<u8>, p: Props) -> Read<(Props, nat)> {
    let m = p.0;
    if id == 0x11 {
        if m.contains_key(0x11) {
            Read::Fail(connect_property_error(0x11), 0)
        } else if r.len() < 4 {
            Read::Panic
        } else {
            Read::Done(((m.insert(0x11, PropertyValueModel::FourByteInteger(be_u32_at(r, 0))), p.1), 4), 4)
        }
    } else if id == 0x21 {
        if m.contains_key(0x21) {
            Read::Fail(connect_property_error(0x21), 0)
        } else if r.len() < 2 {
            Read::Panic
        } else if be_u16_at(r, 0) == 0 {
            Read::Fail(connect_property_error(0x21), 2)
        } else {
            Read::Done(((m.insert(0x21, PropertyValueModel::TwoByteInteger(be_u16_at(r, 0))), p.1), 2), 2)
        }
    } else if id == 0x27 {
        if m.contains_key(0x27) {
            Read::Fail(connect_property_error(0x27), 0)
        } else if r.len() < 4 {
            Read::Panic
        } else if be_u32_at(r, 0) == 0 {
            Read::Fail(connect_property_error(0x27), 4)
        } else {
            Read::Done(((m.insert(0x27, PropertyValueModel::FourByteInteger(be_u32_at(r, 0))), p.1), 4), 4)
        }
    } else if id == 0x22 {
        if m.contains_key(0x22) {
            Read::Fail(connect_property_error(0x22), 0)
        } else if r.len() < 2 {
            Read::Panic
        } else {
            Read::Done(((m.insert(0x22, PropertyValueModel::TwoByteInteger(be_u16_at(r, 0))), p.1), 2), 2)
        }
    } else if id == 0x19 || id == 0x17 {
        if r.len() < 1 {
            Read::Panic
        } else if m.contains_key(id as u8) || (r[0] != 0 && r[0] != 1) {
            Read::Fail(connect_property_error(id as u8), 1)
        } else {
            Read::Done(((m.insert(id as u8, PropertyValueModel::Bit(r[0] == 1)), p.1), 1), 1)
        }
    } else if id == 0x26 {
        user_step(r, p)
    } else if id == 0x15 {
        if m.contains_key(0x15) {
            Read::Fail(connect_property_error(0x15), 0)
        } else {
            match string_step(r) {
                Read::Done((s, a), n) => Read::Done(((m.insert(0x15, PropertyValueModel::String(s)), p.1), a), n),
                _ => Read::Panic,
            }
        }
    } else if id == 0x16 {
        if m.contains_key(0x16) {
            Read::Fail(connect_property_error(0x16), 0)
        } else {
            match binary_step(r) {
                Read::Done((b, a), n) => Read::Done(((m.insert(0x16, PropertyValueModel::Binary(b)), p.1), a), n),
                _ => Read::Panic,
            }
        }
    } else {
        Read::Fail(ErrorModel::InvalidConnectPropertyType, 0)
    }
}

/// Reading connect properties from the front of `s` while the count is
/// below `length`: each identifier is a variable byte integer that does not
/// count; a malformed one is returned as an error.
#[verifier::opaque]
pub open spec fn connect_loop(s: Seq<u8>, length: nat, count: nat, p: Props) -> Read<Props>
    decreases s.len(),
{
    if length <= count {
        Read::Done(p, 0)
    } else {
        match spec_read_varint(s) {
            None => Read::Fail(ErrorModel::MalformedVariableByteInteger, 0),
            Some((id, k)) => match connect_step(id, s.skip(k as int), p) {
                Read::Done((p2, add), n) => if 1 <= k && k + n <= s.len() {
                    connect_loop(s.skip(k + n as int), length, count + add, p2).shifted(k + n)
                } else {
                    Read::Panic
                },
                Read::Fail(e, n) => Read::Fail(e, k + n),
                Read::Panic => Read::Panic,
            },
        }
    }
}

/// The bounds on what a step takes and adds.
proof fn lemma_step_len(id: nat, r: Seq<u8>, p: Props)
    ensures
        connect_step(id, r, p) matches Read::Done((_, a), n) ==> n <= r.len() && a <= 131070,
        will_step(id, r, p) matches Read::Done((_, a), n) ==> n <= r.len() && a <= 131070,
        connect_step(id, r, p) matches Read::Fail(_, n) ==> n <= r.len(),
        will_step(id, r, p) matches Read::Fail(_, n) ==> n <= r.len(),
{
    reveal(connect_step);
    reveal(will_step);
    lemma_string_consumed(r);
    if let Decoded::Done(_, n1) = spec_read_string_expect(r) {
        lemma_string_consumed(r.skip(n1 as int));
    }
}

/// One round of the connect property loop: where the count is below the
/// length and the identifier reads, the loop is the step then the rest.
proof fn lemma_connect_loop_unfold(s: Seq<u8>, length: nat, count: nat, p: Props)
    ensures
        length <= count ==> connect_loop(s, length, count, p) == Read::<Props>::Done(p, 0),
        length > count ==> match spec_read_varint(s) {
            None => connect_loop(s, length, count, p) == Read::<Props>::Fail(ErrorModel::MalformedVariableByteInteger, 0),
            Some((id, k)) => match connect_step(id, s.skip(k as int), p) {
                Read::Done((p2, add), n) => 1 <= k && k + n <= s.len()
                    ==> connect_loop(s, length, count, p) == connect_loop(s.skip(k + n as int), length, count + add, p2).shifted(k + n),
                Read::Fail(e, n) => connect_loop(s, length, count, p) == Read::<Props>::Fail(e, k + n),
                Read::Panic => connect_loop(s, length, count, p) == Read::<Props>::Panic,
            },
        },
{
    reveal(connect_loop);
}

/// One round of the will property loop.
proof fn lemma_will_loop_unfold(s: Seq<u8>, length: nat, count: nat, p: Props)
    ensures
        length <= count ==> will_loop(s, length, count, p) == Read::<Props>::Done(p, 0),
        length > count ==> match spec_read_varint(s) {
            None => will_loop(s, length, count, p) == Read::<Props>::Panic,
            Some((id, k)) => match will_step(id, s.skip(k as int), p) {
                Read::Done((p2, add), n) => 1 <= k && k + n <= s.len()
                    ==> will_loop(s, length, count, p) == will_loop(s.skip(k + n as int), length, count + add, p2).shifted(k + n),
                Read::Fail(e, n) => will_loop(s, length, count, p) == Read::<Props>::Fail(e, k + n),
                Read::Panic => will_loop(s, length, count, p) == Read::<Props>::Panic,
            },
        },
{
    reveal(will_loop);
}

/// What the connect property loop takes is no more than there is.
proof fn lemma_connect_loop_len(s: Seq<u8>, length: nat, count: nat, p: Props)
    ensures
        connect_loop(s, length, count, p) matches Read::Done(_, n) ==> n <= s.len(),
        connect_loop(s, length, count, p) matches Read::Fail(_, n) ==> n <= s.len(),
    decreases s.len(),
{
    lemma_connect_loop_unfold(s, length, count, p);
    lemma_read_varint_consumed(s);
    if length > count {
        if let Some((id, k)) = spec_read_varint(s) {
            lemma_step_len(id, s.skip(k as int), p);
            if let Read::Done((p2, add), n) = connect_step(id, s.skip(k as int), p) {
                if 1 <= k && k + n <= s.len() {
                    lemma_connect_loop_len(s.skip(k + n as int), length, count + add, p2);
                }
            }
        }
    }
}

/// What the will property loop takes is no more than there is.
proof fn lemma_will_loop_len(s: Seq<u8>, length: nat, count: nat, p: Props)
    ensures
        will_loop(s, length, count, p) matches Read::Done(_, n) ==> n <= s.len(),
        will_loop(s, length, count, p) matches Read::Fail(_, n) ==> n <= s.len(),
    decreases s.len(),
{
    lemma_will_loop_unfold(s, length, count, p);
    lemma_read_varint_consumed(s);
    if length > count {
        if let Some((id, k)) = spec_read_varint(s) {
            lemma_step_len(id, s.skip(k as int), p);
            if let Read::Done((p2, add), n) = will_step(id, s.skip(k as int), p) {
                if 1 <= k && k + n <= s.len() {
                    lemma_will_loop_len(s.skip(k + n as int), length, count + add, p2);
                }
            }
        }
    }
}

/// Counting bytes taken before twice is counting them once.
proof fn lemma_shifts<T>(d: Read<T>, a: nat, b: nat)
    ensures
        d.shifted(a).shifted(b) == d.shifted(a + b),
{
}

/// The error for a will property that came twice.
pub open spec fn will_property_error(code: u8) -> ErrorModel {
    ErrorModel::InvalidProtocol(
        if code == 0x18 {
            "Will properties cannot contains [Will Delay Interval] more than once"@
        } else if code == 0x01 {
            "Will properties cannot contains [Payload Format Indicator] more than once"@
        } else if code == 0x02 {
            "Will properties cannot contains [Message Expiry Interval] more than once"@
        } else if code == 0x03 {
            "Will properties cannot contains [Content Type] more than once"@
        } else if code == 0x08 {
            "Will properties cannot contains [Response Topic] more than once"@
        } else {
            "Will properties cannot contains [Correlation Data] more than once"@
        },
        if code == 0x01 { 0x18 } else { code },
    )
}

/// Reading the value of will property `id` at the front of `r`.
#[verifier::opaque]
pub open spec fn will_step(id: nat, r: Seq<u8>, p: Props) -> Read<(Props, nat)> {
    let m = p.0;
    if id == 0x18 || id == 0x02 {
        if m.contains_key(id as u8) {
            Read::Fail(will_property_error(id as u8), 0)
        } else if r.len() < 4 {
            Read::Panic
        } else {
            Read::Done(((m.insert(id as u8, PropertyValueModel::FourByteInteger(be_u32_at(r, 0))), p.1), 4), 4)
        }
    } else if id == 0x01 {
        if m.contains_key(0x01) {
            Read::Fail(will_property_error(0x01), 0)
        } else if r.len() < 1 {
            Read::Panic
        } else {
            Read::Done(((m.insert(0x01, PropertyValueModel::Bit(r[0] % 2 == 1)), p.1), 1), 1)
        }
    } else if id == 0x03 || id == 0x08 {
        if m.contains_key(id as u8) {
            Read::Fail(will_property_error(id as u8), 0)
        } else {
            match string_step(r) {
                Read::Done((s, a), n) => Read::Done(((m.insert(id as u8, PropertyValueModel::String(s)), p.1), a), n),
                _ => Read::Panic,
            }
        }
    } else if id == 0x09 {
        if m.contains_key(0x09) {
            Read::Fail(will_property_error(0x09), 0)
        } else {
            match binary_step(r) {
                Read::Done((b, a), n) => Read::Done(((m.insert(0x09, PropertyValueModel::Binary(b)), p.1), a), n),
                _ => Read::Panic,
            }
        }
    } else if id == 0x26 {
        user_step(r, p)
    } else {
        Read::Fail(ErrorModel::InvalidWillPropertyType, 0)
    }
}

/// Reading will properties from the front of `s` while the count is below
/// `length`; an identifier that cannot be read panics.
#[verifier::opaque]
pub open spec fn will_loop(s: Seq<u8>, length: nat, count: nat, p: Props) -> Read<Props>
    decreases s.len(),
{
    if length <= count {
        Read::Done(p, 0)
    } else {
        match spec_read_varint(s) {
            None => Read::Panic,
            Some((id, k)) => match will_step(id, s.skip(k as int), p) {
                Read::Done((p2, add), n) => if 1 <= k && k + n <= s.len() {
                    will_loop(s.skip(k + n as int), length, count + add, p2).shifted(k + n)
                } else {
                    Read::Panic
                },
                Read::Fail(e, n) => Read::Fail(e, k + n),
                Read::Panic => Read::Panic,
            },
        }
    }
}

/// The models of a list of user properties.
pub(crate) open spec fn users_model(users: Vec<(String, String)>) -> Seq<(Seq<char>, Seq<char>)> {
    string_pairs_model(users@)
}

/// Reads a length-prefixed string that must be there.
pub(crate) fn expect_string(buf: &mut BytesMut) -> (res: (String, usize))
    requires
        string_step(buf_contents(*old(buf))) is Done,
    ensures
        string_step(buf_contents(*old(buf))) matches Read::Done((s, a), n)
            && res.0@ == s && res.1 == a && buf_contents(*final(buf)) == buf_contents(*old(buf)).skip(n as int),
{
    proof {
        lemma_string_consumed(buf_contents(*buf));
    }
    match read_string(buf) {
        Ok(s) => {
            let len = s.as_str().len();
            (s, len)
        },
        Err(_) => {
            proof {
                assert(false);
            }
            (String::new(), 0)
        },
    }
}

/// Reads binary data behind a two-byte length that must all be there.
pub(crate) fn expect_binary(buf: &mut BytesMut) -> (res: (bytes::Bytes, usize))
    requires
        binary_step(buf_contents(*old(buf))) is Done,
    ensures
        binary_step(buf_contents(*old(buf))) matches Read::Done((b, a), n)
            && bytes_contents(res.0) == b && res.1 == a && buf_contents(*final(buf)) == buf_contents(*old(buf)).skip(n as int),
{
    let ghost s = buf_contents(*buf);
    let length = buf_get_u16(buf) as usize;
    let data = buf_split_to(buf, length);
    proof {
        assert(s.skip(2).take(length as int) =~= s.subrange(2, 2 + length as int));
        assert(s.skip(2).skip(length as int) =~= s.skip(2 + length as int));
    }
    (data, length)
}

/// The error of a protocol violation with its text.
pub(crate) fn invalid_protocol(msg: &str, code: u8) -> (e: Error)
    ensures
        e@ == ErrorModel::InvalidProtocol(msg@, code),
{
    Error::InvalidProtocol(msg.to_string(), code)
}

/// Reads a user property and appends it to `users`; returns the count it adds.
pub(crate) fn read_user(buf: &mut BytesMut, users: &mut Vec<(String, String)>) -> (add: usize)
    requires
        user_step(buf_contents(*old(buf)), (Map::empty(), users_model(*old(users)))) is Done,
    ensures
        user_step(buf_contents(*old(buf)), (Map::empty(), users_model(*old(users)))) matches Read::Done((p, a), n)
            && users_model(*final(users)) == p.1 && add == a
            && buf_contents(*final(buf)) == buf_contents(*old(buf)).skip(n as int),
{
    let ghost s = buf_contents(*buf);
    let (name, a1) = expect_string(buf);
    let ghost n1 = (s.len() - buf_contents(*buf).len()) as nat;
    let (value, a2) = expect_string(buf);
    proof {
        lemma_string_consumed(s);
        let n2 = (s.skip(n1 as int).len() - buf_contents(*buf).len()) as nat;
        assert(buf_contents(*buf) =~= s.skip(n1 + n2 as int));
    }
    let ghost before = users_model(*users);
    users.push((name, value));
    proof {
        assert(users_model(*users) =~= before.push((name@, value@)));
    }
    a1 + a2
}

/// Stores `v` under `k`.
pub(crate) fn store(props: &mut HashMap<u8, PropertyValue>, k: u8, v: PropertyValue)
    ensures
        props_map_model(final(props)@) == props_map_model(old(props)@).insert(k, v@),
{
    props.insert(k, v);
    assert(props_map_model(props@) =~= props_map_model(old(props)@).insert(k, v@));
}

/// Reads the value of connect property `id` into `props` or `users`;
/// returns the count it adds.
fn connect_property(
    buf: &mut BytesMut,
    id: usize,
    props: &mut HashMap<u8, PropertyValue>,
    users: &mut Vec<(String, String)>,
) -> (res: Result<usize, Error>)
    requires
        !connect_step(id as nat, buf_contents(*old(buf)), (props_map_model(old(props)@), users_model(*old(users)))).panics(),
    ensures
        match connect_step(id as nat, buf_contents(*old(buf)), (props_map_model(old(props)@), users_model(*old(users)))) {
            Read::Done((p, a), n) => res == Ok::<usize, Error>(a as usize) && props_map_model(final(props)@) == p.0
                && users_model(*final(users)) == p.1
                && buf_contents(*final(buf)) == buf_contents(*old(buf)).skip(n as int),
            Read::Fail(e, n) => res matches Err(err) && err@ == e
                && buf_contents(*final(buf)) == buf_contents(*old(buf)).skip(n as int),
            Read::Panic => false,
        },
{
    let ghost s = buf_contents(*buf);
    proof {
        reveal(connect_step);
        lemma_step_len(id as nat, s, (props_map_model(props@), users_model(*users)));
        assert(s.skip(0) =~= s);
    }
    if id == 0x11 {
        if props.contains_key(&0x11) {
            return Err(invalid_protocol("Connect properties cannot contains [Session Expire Interval] more than once", 0x11));
        }
        let v = buf_get_u32(buf);
        store(props, 0x11, PropertyValue::FourByteInteger(v));
        Ok(4)
    } else if id == 0x21 {
        if props.contains_key(&0x21) {
            return Err(invalid_protocol("Connect properties cannot contains [Receive Maximum] more than once or for it have the value 0", 0x21));
        }
        let v = buf_get_u16(buf);
        if v == 0 {
            return Err(invalid_protocol("Connect properties cannot contains [Receive Maximum] more than once or for it have the value 0", 0x21));
        }
        store(props, 0x21, PropertyValue::TwoByteInteger(v));
        Ok(2)
    } else if id == 0x27 {
        if props.contains_key(&0x27) {
            return Err(invalid_protocol("Connect properties cannot contains [Maximum Packet Size] more than once or for it have the value 0", 0x27));
        }
        let v = buf_get_u32(buf);
        if v == 0 {
            return Err(invalid_protocol("Connect properties cannot contains [Maximum Packet Size] more than once or for it have the value 0", 0x27));
        }
        store(props, 0x27, PropertyValue::FourByteInteger(v));
        Ok(4)
    } else if id == 0x22 {
        if props.contains_key(&0x22) {
            return Err(invalid_protocol("Connect properties cannot contains [Topic Alias Maximum] more than once", 0x22));
        }
        let v = buf_get_u16(buf);
        store(props, 0x22, PropertyValue::TwoByteInteger(v));
        Ok(2)
    } else if id == 0x19 || id == 0x17 {
        let b = buf_get_u8(buf);
        let key: u8 = if id == 0x19 { 0x19 } else { 0x17 };
        if props.contains_key(&key) || (b != 0 && b != 1) {
            if id == 0x19 {
                return Err(invalid_protocol("Connect properties cannot contains [Request Response Information] more than once or to have a value other than 0 or 1", 0x19));
            } else {
                return Err(invalid_protocol("Connect properties cannot contains [Request Problem Information] more than once or to have a value other than 0 or 1", 0x17));
            }
        }
        assert((b == 0u8 || b == 1u8) ==> ((b & 0x01u8 == 1u8) == (b == 1u8))) by (bit_vector);
        store(props, key, PropertyValue::Bit(b & 0x01 == 1));
        Ok(1)
    } else if id == 0x26 {
        let ghost m = props_map_model(props@);
        let add = read_user(buf, users);
        Ok(add)
    } else if id == 0x15 {
        if props.contains_key(&0x15) {
            return Err(invalid_protocol("Connect properties cannot contains [Authentication Method] more than once", 0x15));
        }
        let (method, add) = expect_string(buf);
        store(props, 0x15, PropertyValue::String(method));
        Ok(add)
    } else if id == 0x16 {
        if props.contains_key(&0x16) {
            return Err(invalid_protocol("Connect properties cannot contains [Authentication Data] more than once", 0x16));
        }
        let (data, add) = expect_binary(buf);
        store(props, 0x16, PropertyValue::Binary(data));
        Ok(add)
    } else {
        Err(Error::InvalidConnectPropertyType)
    }
}

/// The connect properties once the defaults of the absent ones are added;
/// `None` where there is authentication data but no authentication method.
pub open spec fn finish_connect(p: Props) -> Option<Map<u8, PropertyValueModel>> {
    let m = p.0;
    let m1 = if m.contains_key(0x11) { m } else { m.insert(0x11, PropertyValueModel::FourByteInteger(0)) };
    let m2 = if m1.contains_key(0x21) { m1 } else { m1.insert(0x21, PropertyValueModel::TwoByteInteger(65535)) };
    let m3 = if m2.contains_key(0x22) { m2 } else { m2.insert(0x22, PropertyValueModel::TwoByteInteger(0)) };
    let m4 = if m3.contains_key(0x19) { m3 } else { m3.insert(0x19, PropertyValueModel::Bit(false)) };
    let m5 = if p.1.len() > 0 { m4.insert(0x26, PropertyValueModel::StringPair(p.1)) } else { m4 };
    if m5.contains_key(0x16) && !m5.contains_key(0x15) { None } else { Some(m5) }
}

/// The error for authentication data without an authentication method.
pub open spec fn auth_data_error() -> ErrorModel {
    ErrorModel::InvalidProtocol(
        "Connect properties cannot contains Authentication Data if there is no Authentication Method"@,
        0x16,
    )
}

/// Reading the connect properties: their length (a malformed one is an
/// error), the properties, then the defaults.
pub open spec fn spec_connect_properties(s: Seq<u8>) -> Read<Map<u8, PropertyValueModel>> {
    match spec_read_varint(s) {
        None => Read::Fail(ErrorModel::MalformedVariableByteInteger, 0),
        Some((length, k)) => match connect_loop(s.skip(k as int), length, 0, (Map::empty(), Seq::empty())) {
            Read::Done(p, n) => match finish_connect(p) {
                Some(m) => Read::Done(m, k + n),
                None => Read::Fail(auth_data_error(), k + n),
            },
            Read::Fail(e, n) => Read::Fail(e, k + n),
            Read::Panic => Read::Panic,
        },
    }
}

/// Adds `v` under `k` where nothing is stored under `k`.
fn store_default(props: &mut HashMap<u8, PropertyValue>, k: u8, v: PropertyValue)
    ensures
        props_map_model(final(props)@) == if props_map_model(old(props)@).contains_key(k) {
            props_map_model(old(props)@)
        } else {
            props_map_model(old(props)@).insert(k, v@)
        },
{
    if !props.contains_key(&k) {
        store(props, k, v);
    }
}

/// Reads connect properties while the count is below `length`.
fn read_connect_loop(buf: &mut BytesMut, length: usize) -> (res: Result<(HashMap<u8, PropertyValue>, Vec<(String, String)>), Error>)
    requires
        length < 268435456,
        !connect_loop(buf_contents(*old(buf)), length as nat, 0, (Map::empty(), Seq::empty())).panics(),
    ensures
        match connect_loop(buf_contents(*old(buf)), length as nat, 0, (Map::empty(), Seq::empty())) {
            Read::Done(p, n) => res matches Ok((props, users)) && props_map_model(props@) == p.0
                && users_model(users) == p.1 && buf_contents(*final(buf)) == buf_contents(*old(buf)).skip(n as int),
            Read::Fail(e, n) => res matches Err(err) && err@ == e
                && buf_contents(*final(buf)) == buf_contents(*old(buf)).skip(n as int),
            Read::Panic => false,
        },
{
    let ghost s1 = buf_contents(*buf);
    let ghost whole = connect_loop(s1, length as nat, 0, (Map::empty(), Seq::empty()));
    let mut props: HashMap<u8, PropertyValue> = HashMap::new();
    let mut users: Vec<(String, String)> = Vec::new();
    let mut prop_len: usize = 0;
    proof {
        assert(props_map_model(props@) =~= Map::<u8, PropertyValueModel>::empty());
        assert(users_model(users) =~= Seq::<(Seq<char>, Seq<char>)>::empty());
        assert(s1.skip(0) =~= s1);
        lemma_shifts(whole, 0, 0);
    }
    while length > prop_len
        invariant
            length < 268435456,
            s1 == buf_contents(*old(buf)),
            whole == connect_loop(s1, length as nat, 0, (Map::empty(), Seq::empty())),
            !whole.panics(),
            s1.skip(s1.len() - buf_contents(*buf).len()) == buf_contents(*buf),
            buf_contents(*buf).len() <= s1.len(),
            whole == connect_loop(buf_contents(*buf), length as nat, prop_len as nat,
                (props_map_model(props@), users_model(users))).shifted((s1.len() - buf_contents(*buf).len()) as nat),
        decreases buf_contents(*buf).len(),
    {
        let ghost cur = buf_contents(*buf);
        let ghost st = (props_map_model(props@), users_model(users));
        let ghost done = (s1.len() - cur.len()) as nat;
        proof {
            lemma_read_varint_consumed(cur);
            lemma_connect_loop_unfold(cur, length as nat, prop_len as nat, st);
        }
        let id = match read_variable_bytes(buf) {
            Ok((id, _)) => id,
            Err(_) => {
                assert(cur.skip(0) =~= cur);
                return Err(Error::MalformedVariableByteInteger);
            },
        };
        let ghost r = buf_contents(*buf);
        let ghost kk = (cur.len() - r.len()) as nat;
        proof {
            lemma_step_len(id as nat, r, st);
        }
        let add = match connect_property(buf, id, &mut props, &mut users) {
            Ok(add) => add,
            Err(e) => {
                proof {
                    let n = (r.len() - buf_contents(*buf).len()) as nat;
                    assert(buf_contents(*buf) =~= s1.skip(done + kk + n as int));
                }
                return Err(e);
            },
        };
        proof {
            let n = (r.len() - buf_contents(*buf).len()) as nat;
            lemma_shifts(connect_loop(buf_contents(*buf), length as nat, (prop_len + add) as nat,
                (props_map_model(props@), users_model(users))), kk + n, done);
            assert(buf_contents(*buf) =~= s1.skip(done + kk + n as int));
            assert(cur.skip(kk + n as int) =~= buf_contents(*buf));
        }
        prop_len = prop_len + add;
    }
    proof {
        lemma_connect_loop_unfold(buf_contents(*buf), length as nat, prop_len as nat,
            (props_map_model(props@), users_model(users)));
    }
    Ok((props, users))
}

/// Reads the connect properties.
fn read_connect_properties(buf: &mut BytesMut) -> (res: Result<HashMap<u8, PropertyValue>, Error>)
    requires
        !spec_connect_properties(buf_contents(*old(buf))).panics(),
    ensures
        match spec_connect_properties(buf_contents(*old(buf))) {
            Read::Done(m, n) => res matches Ok(props) && props_map_model(props@) == m
                && buf_contents(*final(buf)) == buf_contents(*old(buf)).skip(n as int),
            Read::Fail(e, n) => res matches Err(err) && err@ == e
                && buf_contents(*final(buf)) == buf_contents(*old(buf)).skip(n as int),
            Read::Panic => false,
        },
{
    let ghost s0 = buf_contents(*buf);
    proof {
        lemma_read_varint_consumed(s0);
    }
    let length = match read_variable_bytes(buf) {
        Ok((length, _)) => length,
        Err(_) => {
            assert(s0.skip(0) =~= s0);
            return Err(Error::MalformedVariableByteInteger);
        },
    };
    let ghost s1 = buf_contents(*buf);
    let ghost k = (s0.len() - s1.len()) as nat;
    proof {
        lemma_connect_loop_len(s1, length as nat, 0, (Map::empty(), Seq::empty()));
    }
    let (mut props, users) = match read_connect_loop(buf, length) {
        Ok(x) => x,
        Err(e) => {
            proof {
                let n = (s1.len() - buf_contents(*buf).len()) as nat;
                assert(buf_contents(*buf) =~= s0.skip(k + n as int));
            }
            return Err(e);
        },
    };
    proof {
        let n = (s1.len() - buf_contents(*buf).len()) as nat;
        assert(buf_contents(*buf) =~= s0.skip(k + n as int));
    }
    store_default(&mut props, 0x11, PropertyValue::FourByteInteger(0));
    store_default(&mut props, 0x21, PropertyValue::TwoByteInteger(65535));
    store_default(&mut props, 0x22, PropertyValue::TwoByteInteger(0));
    store_default(&mut props, 0x19, PropertyValue::Bit(false));
    if users.len() > 0 {
        store(&mut props, 0x26, PropertyValue::StringPair(users));
    }
    if props.contains_key(&0x16) && !props.contains_key(&0x15) {
        return Err(invalid_protocol(
            "Connect properties cannot contains Authentication Data if there is no Authentication Method",
            0x16,
        ));
    }
    Ok(props)
}

/// Reads the value of will property `id` into `props` or `users`; returns
/// the count it adds.
fn will_property(
    buf: &mut BytesMut,
    id: usize,
    props: &mut HashMap<u8, PropertyValue>,
    users: &mut Vec<(String, String)>,
) -> (res: Result<usize, Error>)
    requires
        !will_step(id as nat, buf_contents(*old(buf)), (props_map_model(old(props)@), users_model(*old(users)))).panics(),
    ensures
        match will_step(id as nat, buf_contents(*old(buf)), (props_map_model(old(props)@), users_model(*old(users)))) {
            Read::Done((p, a), n) => res == Ok::<usize, Error>(a as usize) && props_map_model(final(props)@) == p.0
                && users_model(*final(users)) == p.1
                && buf_contents(*final(buf)) == buf_contents(*old(buf)).skip(n as int),
            Read::Fail(e, n) => res matches Err(err) && err@ == e
                && buf_contents(*final(buf)) == buf_contents(*old(buf)).skip(n as int),
            Read::Panic => false,
        },
{
    let ghost s = buf_contents(*buf);
    proof {
        reveal(will_step);
        lemma_step_len(id as nat, s, (props_map_model(props@), users_model(*users)));
        assert(s.skip(0) =~= s);
    }
    if id == 0x18 {
        if props.contains_key(&0x18) {
            return Err(invalid_protocol("Will properties cannot contains [Will Delay Interval] more than once", 0x18));
        }
        let v = buf_get_u32(buf);
        store(props, 0x18, PropertyValue::FourByteInteger(v));
        Ok(4)
    } else if id == 0x01 {
        if props.contains_key(&0x01) {
            return Err(invalid_protocol("Will properties cannot contains [Payload Format Indicator] more than once", 0x18));
        }
        let b = buf_get_u8(buf);
        assert((b & 0x01u8 == 1u8) == (b % 2 == 1)) by (bit_vector);
        store(props, 0x01, PropertyValue::Bit(b & 0x01 == 1));
        Ok(1)
    } else if id == 0x02 {
        if props.contains_key(&0x02) {
            return Err(invalid_protocol("Will properties cannot contains [Message Expiry Interval] more than once", 0x02));
        }
        let v = buf_get_u32(buf);
        store(props, 0x02, PropertyValue::FourByteInteger(v));
        Ok(4)
    } else if id == 0x03 {
        if props.contains_key(&0x03) {
            return Err(invalid_protocol("Will properties cannot contains [Content Type] more than once", 0x03));
        }
        let (content_type, add) = expect_string(buf);
        store(props, 0x03, PropertyValue::String(content_type));
        Ok(add)
    } else if id == 0x08 {
        if props.contains_key(&0x08) {
            return Err(invalid_protocol("Will properties cannot contains [Response Topic] more than once", 0x08));
        }
        let (response_topic, add) = expect_string(buf);
        store(props, 0x08, PropertyValue::String(response_topic));
        Ok(add)
    } else if id == 0x09 {
        if props.contains_key(&0x09) {
            return Err(invalid_protocol("Will properties cannot contains [Correlation Data] more than once", 0x09));
        }
        let (data, add) = expect_binary(buf);
        store(props, 0x09, PropertyValue::Binary(data));
        Ok(add)
    } else if id == 0x26 {
        let add = read_user(buf, users);
        Ok(add)
    } else {
        Err(Error::InvalidWillPropertyType)
    }
}

/// Reads will properties while the count is below `length`.
fn read_will_loop(buf: &mut BytesMut, length: usize) -> (res: Result<(HashMap<u8, PropertyValue>, Vec<(String, String)>), Error>)
    requires
        length < 268435456,
        !will_loop(buf_contents(*old(buf)), length as nat, 0, (Map::empty(), Seq::empty())).panics(),
    ensures
        match will_loop(buf_contents(*old(buf)), length as nat, 0, (Map::empty(), Seq::empty())) {
            Read::Done(p, n) => res matches Ok((props, users)) && props_map_model(props@) == p.0
                && users_model(users) == p.1 && buf_contents(*final(buf)) == buf_contents(*old(buf)).skip(n as int),
            Read::Fail(e, n) => res matches Err(err) && err@ == e
                && buf_contents(*final(buf)) == buf_contents(*old(buf)).skip(n as int),
            Read::Panic => false,
        },
{
    let ghost s1 = buf_contents(*buf);
    let ghost whole = will_loop(s1, length as nat, 0, (Map::empty(), Seq::empty()));
    let mut props: HashMap<u8, PropertyValue> = HashMap::new();
    let mut users: Vec<(String, String)> = Vec::new();
    let mut prop_len: usize = 0;
    proof {
        assert(props_map_model(props@) =~= Map::<u8, PropertyValueModel>::empty());
        assert(users_model(users) =~= Seq::<(Seq<char>, Seq<char>)>::empty());
        assert(s1.skip(0) =~= s1);
        lemma_shifts(whole, 0, 0);
    }
    while length > prop_len
        invariant
            length < 268435456,
            s1 == buf_contents(*old(buf)),
            whole == will_loop(s1, length as nat, 0, (Map::empty(), Seq::empty())),
            !whole.panics(),
            s1.skip(s1.len() - buf_contents(*buf).len()) == buf_contents(*buf),
            buf_contents(*buf).len() <= s1.len(),
            whole == will_loop(buf_contents(*buf), length as nat, prop_len as nat,
                (props_map_model(props@), users_model(users))).shifted((s1.len() - buf_contents(*buf).len()) as nat),
        decreases buf_contents(*buf).len(),
    {
        let ghost cur = buf_contents(*buf);
        let ghost st = (props_map_model(props@), users_model(users));
        let ghost done = (s1.len() - cur.len()) as nat;
        proof {
            lemma_read_varint_consumed(cur);
            lemma_will_loop_unfold(cur, length as nat, prop_len as nat, st);
        }
        let id = match read_variable_bytes(buf) {
            Ok((id, _)) => id,
            Err(_) => {
                proof {
                    assert(false);
                }
                return Err(Error::MalformedVariableByteInteger);
            },
        };
        let ghost r = buf_contents(*buf);
        let ghost kk = (cur.len() - r.len()) as nat;
        proof {
            lemma_step_len(id as nat, r, st);
        }
        let add = match will_property(buf, id, &mut props, &mut users) {
            Ok(add) => add,
            Err(e) => {
                proof {
                    let n = (r.len() - buf_contents(*buf).len()) as nat;
                    assert(buf_contents(*buf) =~= s1.skip(done + kk + n as int));
                }
                return Err(e);
            },
        };
        proof {
            let n = (r.len() - buf_contents(*buf).len()) as nat;
            lemma_shifts(will_loop(buf_contents(*buf), length as nat, (prop_len + add) as nat,
                (props_map_model(props@), users_model(users))), kk + n, done);
            assert(buf_contents(*buf) =~= s1.skip(done + kk + n as int));
            assert(cur.skip(kk + n as int) =~= buf_contents(*buf));
        }
        prop_len = prop_len + add;
    }
    proof {
        lemma_will_loop_unfold(buf_contents(*buf), length as nat, prop_len as nat,
            (props_map_model(props@), users_model(users)));
    }
    Ok((props, users))
}

/// The will properties once the default will delay is added.
pub open spec fn finish_will(p: Props) -> Map<u8, PropertyValueModel> {
    let m1 = if p.0.contains_key(0x18) { p.0 } else { p.0.insert(0x18, PropertyValueModel::FourByteInteger(0)) };
    if p.1.len() > 0 { m1.insert(0x26, PropertyValueModel::StringPair(p.1)) } else { m1 }
}

/// Reading the will: the will properties (a length that cannot be read
/// panics), the will topic and the will payload, each of which must be
/// there.
#[verifier::opaque]
pub open spec fn spec_will(s: Seq<u8>) -> Read<(Map<u8, PropertyValueModel>, Seq<char>, Seq<u8>)> {
    match spec_read_varint(s) {
        None => Read::Panic,
        Some((length, k)) => match will_loop(s.skip(k as int), length, 0, (Map::empty(), Seq::empty())) {
            Read::Done(p, n) => match string_step(s.skip(k + n as int)) {
                Read::Done((topic, _), n2) => match spec_read_bytes(s.skip(k + n + n2 as int)) {
                    Decoded::Done(data, n3) => Read::Done((finish_will(p), topic, data), k + n + n2 + n3),
                    _ => Read::Panic,
                },
                _ => Read::Panic,
            },
            Read::Fail(e, n) => Read::Fail(e, k + n),
            Read::Panic => Read::Panic,
        },
    }
}

/// What reading the will takes is no more than there is.
proof fn lemma_will_len(s: Seq<u8>)
    ensures
        spec_will(s) matches Read::Fail(_, n) ==> n <= s.len(),
        spec_will(s) matches Read::Done(_, n) ==> n <= s.len(),
{
    reveal(spec_will);
    lemma_read_varint_consumed(s);
    if let Some((length, k)) = spec_read_varint(s) {
        lemma_will_loop_len(s.skip(k as int), length, 0, (Map::empty(), Seq::empty()));
        if let Read::Done(_, n) = will_loop(s.skip(k as int), length, 0, (Map::empty(), Seq::empty())) {
            lemma_string_consumed(s.skip(k + n as int));
            if let Read::Done(_, n2) = string_step(s.skip(k + n as int)) {
                let r = s.skip(k + n + n2 as int);
                assert(spec_read_bytes(r) matches Decoded::Done(_, n3) ==> n3 <= r.len());
            }
        }
    }
}

/// Reads the will.
fn read_will(buf: &mut BytesMut) -> (res: Result<(Mqtt5Property, String, Vec<u8>), Error>)
    requires
        !spec_will(buf_contents(*old(buf))).panics(),
    ensures
        match spec_will(buf_contents(*old(buf))) {
            Read::Done(v, n) => res matches Ok((p, t, b)) && p@ == (0usize, v.0) && t@ == v.1 && b@ == v.2
                && buf_contents(*final(buf)) == buf_contents(*old(buf)).skip(n as int),
            Read::Fail(e, n) => res matches Err(err) && err@ == e
                && buf_contents(*final(buf)) == buf_contents(*old(buf)).skip(n as int),
            Read::Panic => false,
        },
{
    let ghost s0 = buf_contents(*buf);
    proof {
        reveal(spec_will);
        lemma_read_varint_consumed(s0);
    }
    let length = match read_variable_bytes(buf) {
        Ok((length, _)) => length,
        Err(_) => {
            proof {
                assert(false);
            }
            return Err(Error::MalformedVariableByteInteger);
        },
    };
    let ghost s1 = buf_contents(*buf);
    let ghost k = (s0.len() - s1.len()) as nat;
    proof {
        lemma_will_loop_len(s1, length as nat, 0, (Map::empty(), Seq::empty()));
    }
    let (mut props, users) = match read_will_loop(buf, length) {
        Ok(x) => x,
        Err(e) => {
            proof {
                let n = (s1.len() - buf_contents(*buf).len()) as nat;
                assert(buf_contents(*buf) =~= s0.skip(k + n as int));
            }
            return Err(e);
        },
    };
    let ghost s2 = buf_contents(*buf);
    let ghost n = (s1.len() - s2.len()) as nat;
    proof {
        assert(s2 =~= s0.skip(k + n as int));
        lemma_string_consumed(s2);
    }
    store_default(&mut props, 0x18, PropertyValue::FourByteInteger(0));
    if users.len() > 0 {
        store(&mut props, 0x26, PropertyValue::StringPair(users));
    }
    let (will_topic, _) = expect_string(buf);
    let ghost s3 = buf_contents(*buf);
    let ghost n2 = (s2.len() - s3.len()) as nat;
    proof {
        assert(s3 =~= s0.skip(k + n + n2 as int));
    }
    let will_payload = match read_bytes(buf) {
        Ok(b) => bytes_to_vec(&b),
        Err(_) => {
            proof {
                assert(false);
            }
            return Err(Error::InvalidLength);
        },
    };
    proof {
        let n3 = (s3.len() - buf_contents(*buf).len()) as nat;
        assert(buf_contents(*buf) =~= s0.skip(k + n + n2 + n3 as int));
    }
    Ok((Mqtt5Property { property_length: 0, properties: props }, will_topic, will_payload))
}

/// A string that must be there where `flag` announces one.
pub open spec fn opt_string_step(r: Seq<u8>, flag: bool) -> Read<Option<Seq<char>>> {
    if !flag {
        Read::Done(None, 0)
    } else {
        match string_step(r) {
            Read::Done((x, _), n) => Read::Done(Some(x), n),
            _ => Read::Panic,
        }
    }
}

/// The will where `flag` announces one.
pub open spec fn opt_will(r: Seq<u8>, flag: bool) -> Read<Option<(Map<u8, PropertyValueModel>, Seq<char>, Seq<u8>)>> {
    if !flag {
        Read::Done(None, 0)
    } else {
        match spec_will(r) {
            Read::Done(w, n) => Read::Done(Some(w), n),
            Read::Fail(e, n) => Read::Fail(e, n),
            Read::Panic => Read::Panic,
        }
    }
}

/// Reading the payload of a CONNECT packet with flags `f`: the client
/// identifier, then the will, user name and password where the flags
/// announce them; each must be there. The will properties keep a length
/// of zero.
pub open spec fn spec_connect_payload(s: Seq<u8>, f: ConnectFlagsModel) -> Read<ConnectPayloadModel> {
    match string_step(s) {
        Read::Done((cid, _), n1) => match opt_will(s.skip(n1 as int), f.1) {
            Read::Done(w, n2) => match opt_string_step(s.skip(n1 + n2 as int), f.4) {
                Read::Done(u, n3) => match opt_string_step(s.skip(n1 + n2 + n3 as int), f.5) {
                    Read::Done(pw, n4) => Read::Done(
                        (
                            cid,
                            match w { Some(x) => Some((0usize, x.0)), None => None },
                            match w { Some(x) => Some(x.1), None => None },
                            match w { Some(x) => Some(x.2), None => None },
                            u,
                            pw,
                        ),
                        n1 + n2 + n3 + n4,
                    ),
                    _ => Read::Panic,
                },
                _ => Read::Panic,
            },
            Read::Fail(e, n2) => Read::Fail(e, n1 + n2),
            Read::Panic => Read::Panic,
        },
        _ => Read::Panic,
    }
}

/// Reads a string where `flag` announces one.
fn read_opt_string(buf: &mut BytesMut, flag: bool) -> (res: Option<String>)
    requires
        !opt_string_step(buf_contents(*old(buf)), flag).panics(),
    ensures
        opt_string_step(buf_contents(*old(buf)), flag) matches Read::Done(v, n)
            && v == (match res { Some(x) => Some(x@), None => None::<Seq<char>> })
            && buf_contents(*final(buf)) == buf_contents(*old(buf)).skip(n as int),
{
    if !flag {
        assert(buf_contents(*buf).skip(0) =~= buf_contents(*buf));
        return None;
    }
    let (x, _) = expect_string(buf);
    Some(x)
}

/// Reads the payload of a CONNECT packet with flags `flags`.
#[verifier::spinoff_prover]
fn read_connect_payload(buf: &mut BytesMut, flags: &ConnectFlags) -> (res: Result<ConnectPayload, Error>)
    requires
        !spec_connect_payload(buf_contents(*old(buf)), flags@).panics(),
    ensures
        match spec_connect_payload(buf_contents(*old(buf)), flags@) {
            Read::Done(v, n) => res matches Ok(p) && p@ == v && buf_contents(*final(buf)) == buf_contents(*old(buf)).skip(n as int),
            Read::Fail(e, n) => res matches Err(err) && err@ == e
                && buf_contents(*final(buf)) == buf_contents(*old(buf)).skip(n as int),
            Read::Panic => false,
        },
{
    let ghost s0 = buf_contents(*buf);
    proof {
        lemma_string_consumed(s0);
        lemma_connect_flags_view(*flags);
    }
    let (client_id, _) = expect_string(buf);
    let ghost s1 = buf_contents(*buf);
    let ghost n1 = (s0.len() - s1.len()) as nat;
    let mut payload = ConnectPayload {
        client_id,
        will_property: None,
        will_topic: None,
        will_payload: None,
        username: None,
        password: None,
    };
    if flags.will_flag {
        proof {
            lemma_will_len(s1);
        }
        match read_will(buf) {
            Ok((p, t, b)) => {
                payload.will_property = Some(p);
                payload.will_topic = Some(t);
                payload.will_payload = Some(b);
            },
            Err(e) => {
                proof {
                    let n2 = (s1.len() - buf_contents(*buf).len()) as nat;
                    assert(buf_contents(*buf) =~= s0.skip(n1 + n2 as int));
                }
                return Err(e);
            },
        }
    } else {
        assert(s1.skip(0) =~= s1);
    }
    let ghost s2 = buf_contents(*buf);
    let ghost n2 = (s1.len() - s2.len()) as nat;
    proof {
        assert(s2 =~= s0.skip(n1 + n2 as int));
    }
    payload.username = read_opt_string(buf, flags.username_flag);
    let ghost s3 = buf_contents(*buf);
    let ghost n3 = (s2.len() - s3.len()) as nat;
    proof {
        assert(s3 =~= s0.skip(n1 + n2 + n3 as int));
    }
    payload.password = read_opt_string(buf, flags.password_flag);
    proof {
        let n4 = (s3.len() - buf_contents(*buf).len()) as nat;
        assert(buf_contents(*buf) =~= s0.skip(n1 + n2 + n3 + n4 as int));
    }
    Ok(payload)
}

/// The bytes of the protocol name, "MQTT".
pub open spec fn protocol_name() -> Seq<u8> {
    seq![77u8, 81u8, 84u8, 84u8]
}

/// Reading the fixed header and the variable header up to the properties:
/// the packet type (0 panics), the remaining length, the protocol name and
/// level (anything but "MQTT" and 5 panics), the flags (an error there
/// panics) and the keep alive. The header keeps only the packet type and
/// the remaining length.
pub open spec fn spec_connect_head(s: Seq<u8>) -> Read<(FixedHeader, ConnectFlagsModel, usize)> {
    if s.len() < 1 {
        Read::Panic
    } else {
        match packet_type_of(s[0] / 16) {
            None => Read::Panic,
            Some(t) => match spec_read_varint(s.skip(1)) {
                None => Read::Panic,
                Some((rl, k)) => match spec_read_bytes(s.skip(1 + k as int)) {
                    Decoded::Done(name, n2) => {
                        let r = s.skip(1 + k + n2 as int);
                        if r.len() < 4 || name != protocol_name() || r[0] != 5 {
                            Read::Panic
                        } else {
                            match spec_connect_flags(r[1]) {
                                Decoded::Done(f, _) => Read::Done(
                                    (
                                        FixedHeader {
                                            packet_type: t,
                                            dup: false,
                                            qos: Qos::AtMostOnce,
                                            retain: false,
                                            remaining_length: rl as usize,
                                        },
                                        f,
                                        be_u16_at(r, 2) as usize,
                                    ),
                                    1 + k + n2 + 4,
                                ),
                                _ => Read::Panic,
                            }
                        }
                    },
                    _ => Read::Panic,
                },
            },
        }
    }
}

/// Reads the fixed header and the variable header up to the properties.
fn read_connect_head(buf: &mut BytesMut) -> (res: (FixedHeader, ConnectFlags, usize))
    requires
        !spec_connect_head(buf_contents(*old(buf))).panics(),
    ensures
        spec_connect_head(buf_contents(*old(buf))) matches Read::Done(v, n) && res.0 == v.0 && res.1@ == v.1
            && res.2 == v.2 && buf_contents(*final(buf)) == buf_contents(*old(buf)).skip(n as int),
{
    let ghost s0 = buf_contents(*buf);
    let b = buf_get_u8(buf);
    assert(b >> 4u8 == b / 16) by (bit_vector);
    let packet_type = match PacketType::from_u8(b >> 4) {
        Ok(t) => t,
        Err(_) => {
            proof {
                assert(false);
            }
            PacketType::CONNECT
        },
    };
    let remaining_length = match read_variable_bytes(buf) {
        Ok((v, _)) => v,
        Err(_) => {
            proof {
                assert(false);
            }
            0
        },
    };
    let ghost s1 = buf_contents(*buf);
    proof {
        lemma_read_varint_consumed(s0.skip(1));
        let k = (s0.skip(1).len() - s1.len()) as nat;
        assert(s1 =~= s0.skip(1 + k as int));
    }
    let name = match read_bytes(buf) {
        Ok(name) => name,
        Err(_) => {
            proof {
                assert(false);
            }
            bytes_new()
        },
    };
    let ghost s2 = buf_contents(*buf);
    let level = buf_get_u8(buf);
    let name_bytes = bytes_as_slice(&name);
    if !(name_bytes.len() == 4 && name_bytes[0] == 77 && name_bytes[1] == 81 && name_bytes[2] == 84
        && name_bytes[3] == 84 && level == 5) {
        proof {
            assert(!(name_bytes@ =~= protocol_name()) || level != 5);
            assert(false);
        }
    }
    assert(name_bytes@ =~= protocol_name());
    let connect_flags = match ConnectFlags::from_buf(buf) {
        Ok(f) => f,
        Err(_) => {
            proof {
                assert(false);
            }
            ConnectFlags {
                clean_start: false,
                will_flag: false,
                will_qos: Qos::AtMostOnce,
                will_retain: false,
                username_flag: false,
                password_flag: false,
            }
        },
    };
    let keep_alive = buf_get_u16(buf) as usize;
    proof {
        let k = (s0.skip(1).len() - s1.len()) as nat;
        let n2 = (s1.len() - s2.len()) as nat;
        assert(s2 =~= s0.skip(1 + k + n2 as int));
        assert(buf_contents(*buf) =~= s0.skip(1 + k + n2 + 4 as int));
        assert(be_u16_at(s2, 2) == be_u16_at(s2.skip(2), 0));
    }
    (
        FixedHeader {
            packet_type,
            dup: false,
            qos: Qos::AtMostOnce,
            retain: false,
            remaining_length,
        },
        connect_flags,
        keep_alive,
    )
}

/// Reading a CONNECT packet: the head, the connect properties with their
/// defaults (whose length is left at zero), then the payload.
pub open spec fn spec_connect(s: Seq<u8>) -> Read<(FixedHeader, ConnectVariableHeaderModel, ConnectPayloadModel)> {
    match spec_connect_head(s) {
        Read::Done((h, f, keep_alive), n1) => match spec_connect_properties(s.skip(n1 as int)) {
            Read::Done(m, n2) => match spec_connect_payload(s.skip(n1 + n2 as int), f) {
                Read::Done(pl, n3) => Read::Done((h, (Protocol::MQTT5, f, keep_alive, (0usize, m)), pl), n1 + n2 + n3),
                Read::Fail(e, n3) => Read::Fail(e, n1 + n2 + n3),
                Read::Panic => Read::Panic,
            },
            Read::Fail(e, n2) => Read::Fail(e, n1 + n2),
            Read::Panic => Read::Panic,
        },
        _ => Read::Panic,
    }
}

/// The bounds on what the head and the connect properties take.
proof fn lemma_head_properties_len(s: Seq<u8>)
    ensures
        spec_connect_head(s) matches Read::Done(_, n) ==> n <= s.len(),
        spec_connect_properties(s) matches Read::Done(_, n) ==> n <= s.len(),
        spec_connect_properties(s) matches Read::Fail(_, n) ==> n <= s.len(),
{
    lemma_read_varint_consumed(s);
    if s.len() >= 1 {
        lemma_read_varint_consumed(s.skip(1));
    }
    if let Some((length, k)) = spec_read_varint(s) {
        lemma_connect_loop_len(s.skip(k as int), length, 0, (Map::empty(), Seq::empty()));
    }
}

/// The bounds on what the payload takes.
proof fn lemma_payload_len(s: Seq<u8>, f: ConnectFlagsModel)
    ensures
        spec_connect_payload(s, f) matches Read::Fail(_, n) ==> n <= s.len(),
        spec_connect_payload(s, f) matches Read::Done(_, n) ==> n <= s.len(),
{
    lemma_string_consumed(s);
    if let Read::Done(_, n1) = string_step(s) {
        lemma_will_len(s.skip(n1 as int));
        if let Read::Done(_, n2) = opt_will(s.skip(n1 as int), f.1) {
            lemma_string_consumed(s.skip(n1 + n2 as int));
            if let Read::Done(_, n3) = opt_string_step(s.skip(n1 + n2 as int), f.4) {
                lemma_string_consumed(s.skip(n1 + n2 + n3 as int));
            }
        }
    }
}

/// A CONNECT packet that is read always holds a session expiry interval,
/// a receive maximum, a topic alias maximum and a request response
/// information flag among its properties, holds authentication data only
/// beside an authentication method, and its will, if any, holds a will
/// delay interval.
pub proof fn lemma_connect_defaults(s: Seq<u8>)
    ensures
        spec_connect(s) matches Read::Done(c, _) ==> {
            let m = c.1.3.1;
            &&& m.contains_key(0x11)
            &&& m.contains_key(0x21)
            &&& m.contains_key(0x22)
            &&& m.contains_key(0x19)
            &&& (m.contains_key(0x16) ==> m.contains_key(0x15))
            &&& (c.2.1 matches Some(w) ==> w.1.contains_key(0x18))
        },
{
    reveal(spec_will);
}

impl Connect {
    /// Reads a CONNECT packet from the front of `buf`, filling in the
    /// defaults of absent properties.
    #[verifier::rlimit(40)]
    #[verifier::spinoff_prover]
    pub fn from_buf(buf: &mut BytesMut) -> (res: Result<Connect, Error>)
        requires
            !spec_connect(buf_contents(*old(buf))).panics(),
        ensures
            match spec_connect(buf_contents(*old(buf))) {
                Read::Done(v, n) => res matches Ok(c) && c@ == v
                    && buf_contents(*final(buf)) == buf_contents(*old(buf)).skip(n as int),
                Read::Fail(e, n) => res matches Err(err) && err@ == e
                    && buf_contents(*final(buf)) == buf_contents(*old(buf)).skip(n as int),
                Read::Panic => false,
            },
    {
        let ghost s0 = buf_contents(*buf);
        proof {
            lemma_head_properties_len(s0);
        }
        let (fixed_header, connect_flags, keep_alive) = read_connect_head(buf);
        let ghost s1 = buf_contents(*buf);
        let ghost n1 = (s0.len() - s1.len()) as nat;
        proof {
            lemma_head_properties_len(s1);
        }
        let connect_property_map = match read_connect_properties(buf) {
            Ok(m) => m,
            Err(e) => {
                proof {
                    let n2 = (s1.len() - buf_contents(*buf).len()) as nat;
                    assert(buf_contents(*buf) =~= s0.skip(n1 + n2 as int));
                }
                return Err(e);
            },
        };
        let ghost s2 = buf_contents(*buf);
        let ghost n2 = (s1.len() - s2.len()) as nat;
        proof {
            assert(s2 =~= s0.skip(n1 + n2 as int));
            lemma_payload_len(s2, connect_flags@);
        }
        let payload = match read_connect_payload(buf, &connect_flags) {
            Ok(p) => p,
            Err(e) => {
                proof {
                    let n3 = (s2.len() - buf_contents(*buf).len()) as nat;
                    assert(buf_contents(*buf) =~= s0.skip(n1 + n2 + n3 as int));
                }
                return Err(e);
            },
        };
        proof {
            let n3 = (s2.len() - buf_contents(*buf).len()) as nat;
            assert(buf_contents(*buf) =~= s0.skip(n1 + n2 + n3 as int));
        }
        Ok(Connect {
            fixed_header,
            variable_header: ConnectVariableHeader {
                protocol: Protocol::MQTT5,
                connect_flags: ConnectFlag::from_flags(connect_flags),
                keep_alive,
                connect_property: Mqtt5Property { property_length: 0, properties: connect_property_map },
            },
            payload,
        })
    }
}

} // verus!
