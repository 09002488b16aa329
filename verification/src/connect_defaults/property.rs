//! Reading a property list keyed by one-byte identifiers.
use vstd::prelude::*;
use bytes::BytesMut;
use std::collections::HashMap;
use crate::codec::buffer::{be_u16_at, be_u32_at, buf_contents, buf_get_u16, buf_get_u32, buf_get_u8};
use crate::codec::property::{lemma_string_consumed, PropertyValueModel};
use crate::codec::{lemma_read_varint_consumed, read_variable_bytes, spec_read_string_expect, spec_read_varint};
use crate::codec::error::Decoded;
use crate::connect_defaults::decode::{
    binary_step, expect_binary, expect_string, invalid_protocol, read_user, store, string_step, user_step,
    users_model, Props,
};
use crate::connect_defaults::{props_map_model, Error, ErrorModel, Mqtt5Property, PropertyValue, Read};

verus! {

broadcast use vstd::std_specs::hash::group_hash_axioms;

/// The error for a property that came twice or has a value out of range.
pub open spec fn list_error(code: u8) -> ErrorModel {
    ErrorModel::InvalidProtocol(
        if code == 0x01 {
            "Cannot contains [Payload Format Indicator] more than once"@
        } else if code == 0x02 {
            "Cannot contains [Message Expiry Interval] more than once"@
        } else if code == 0x03 {
            "Cannot contains [Content Type] more than once"@
        } else if code == 0x08 {
            "Cannot contains [Response Topic] more than once"@
        } else if code == 0x09 {
            "Cannot contains [Correlation Data] more than once"@
        } else if code == 0x11 {
            "Cannot contains [Session Expire Interval] more than once"@
        } else if code == 0x15 {
            "Cannot contains [Authentication Method] more than once"@
        } else if code == 0x16 {
            "Cannot contains [Authentication Data] more than once"@
        } else if code == 0x17 {
            "Cannot contains [Request Problem Information] more than once or to have a value other than 0 or 1"@
        } else if code == 0x18 {
            "Will properties cannot contains [Will Delay Interval] more than once"@
        } else if code == 0x19 {
            "Cannot contains [Request Response Information] more than once or to have a value other than 0 or 1"@
        } else if code == 0x21 {
            "Cannot contains [Receive Maximum] more than once or for it have the value 0"@
        } else if code == 0x22 {
            "Cannot contains [Topic Alias Maximum] more than once"@
        } else {
            "Cannot contains [Maximum Packet Size] more than once or for it have the value 0"@
        },
        if code == 0x01 { 0x18 } else { code },
    )
}

/// The error for an identifier that names no property.
pub open spec fn unknown_property() -> ErrorModel {
    ErrorModel::InvalidPropertyType("It's a invalid Property Type"@)
}

/// Reading the value of property `id` at the front of `r`, given what was
/// read before: the properties after it and the count it adds.
#[verifier::opaque]
pub open spec fn list_step(id: nat, r: Seq<u8>, p: Props) -> Read<(Props, nat)> {
    let m = p.0;
    if id == 0x01 {
        if m.contains_key(0x01) {
            Read::Fail(list_error(0x01), 0)
        } else if r.len() < 1 {
            Read::Panic
        } else {
            Read::Done(((m.insert(0x01, PropertyValueModel::Bit(r[0] % 2 == 1)), p.1), 1), 1)
        }
    } else if id == 0x02 || id == 0x11 || id == 0x18 {
        if m.contains_key(id as u8) {
            Read::Fail(list_error(id as u8), 0)
        } else if r.len() < 4 {
            Read::Panic
        } else {
            Read::Done(((m.insert(id as u8, PropertyValueModel::FourByteInteger(be_u32_at(r, 0))), p.1), 4), 4)
        }
    } else if id == 0x03 || id == 0x08 || id == 0x15 {
        if m.contains_key(id as u8) {
            Read::Fail(list_error(id as u8), 0)
        } else {
            match string_step(r) {
                Read::Done((s, a), n) => Read::Done(((m.insert(id as u8, PropertyValueModel::String(s)), p.1), a), n),
                _ => Read::Panic,
            }
        }
    } else if id == 0x09 || id == 0x16 {
        if m.contains_key(id as u8) {
            Read::Fail(list_error(id as u8), 0)
        } else {
            match binary_step(r) {
                Read::Done((b, a), n) => Read::Done(((m.insert(id as u8, PropertyValueModel::Binary(b)), p.1), a), n),
                _ => Read::Panic,
            }
        }
    } else if id == 0x17 || id == 0x19 {
        if r.len() < 1 {
            Read::Panic
        } else if m.contains_key(id as u8) || (r[0] != 0 && r[0] != 1) {
            Read::Fail(list_error(id as u8), 1)
        } else {
            Read::Done(((m.insert(id as u8, PropertyValueModel::Bit(r[0] == 1)), p.1), 1), 1)
        }
    } else if id == 0x21 {
        if r.len() < 2 {
            Read::Panic
        } else if m.contains_key(0x21) || be_u16_at(r, 0) == 0 {
            Read::Fail(list_error(0x21), 2)
        } else {
            Read::Done(((m.insert(0x21, PropertyValueModel::TwoByteInteger(be_u16_at(r, 0))), p.1), 2), 2)
        }
    } else if id == 0x22 {
        if m.contains_key(0x22) {
            Read::Fail(list_error(0x22), 0)
        } else if r.len() < 2 {
            Read::Panic
        } else {
            Read::Done(((m.insert(0x22, PropertyValueModel::TwoByteInteger(be_u16_at(r, 0))), p.1), 2), 2)
        }
    } else if id == 0x26 {
        user_step(r, p)
    } else if id == 0x27 {
        if r.len() < 4 {
            Read::Panic
        } else if m.contains_key(0x27) || be_u32_at(r, 0) == 0 {
            Read::Fail(list_error(0x27), 4)
        } else {
            Read::Done(((m.insert(0x27, PropertyValueModel::FourByteInteger(be_u32_at(r, 0))), p.1), 4), 4)
        }
    } else {
        Read::Fail(unknown_property(), 0)
    }
}

/// Reading properties from the front of `s` while the count is below
/// `length`: each identifier (which must read) counts one.
#[verifier::opaque]
pub open spec fn list_loop(s: Seq<u8>, length: nat, count: nat, p: Props) -> Read<Props>
    decreases s.len(),
{
    if length <= count {
        Read::Done(p, 0)
    } else {
        match spec_read_varint(s) {
            None => Read::Panic,
            Some((id, k)) => match list_step(id, s.skip(k as int), p) {
                Read::Done((p2, add), n) => if 1 <= k && k + n <= s.len() {
                    list_loop(s.skip(k + n as int), length, count + 1 + add, p2).shifted(k + n)
                } else {
                    Read::Panic
                },
                Read::Fail(e, n) => Read::Fail(e, k + n),
                Read::Panic => Read::Panic,
            },
        }
    }
}

/// The bounds on what a step takes and adds.
proof fn lemma_list_step_len(id: nat, r: Seq<u8>, p: Props)
    ensures
        list_step(id, r, p) matches Read::Done((_, a), n) ==> n <= r.len() && a <= 131070,
        list_step(id, r, p) matches Read::Fail(_, n) ==> n <= r.len(),
{
    reveal(list_step);
    lemma_string_consumed(r);
    if let Decoded::Done(_, n1) = spec_read_string_expect(r) {
        lemma_string_consumed(r.skip(n1 as int));
    }
}

/// One round of the loop.
proof fn lemma_list_loop_unfold(s: Seq<u8>, length: nat, count: nat, p: Props)
    ensures
        length <= count ==> list_loop(s, length, count, p) == Read::<Props>::Done(p, 0),
        length > count ==> match spec_read_varint(s) {
            None => list_loop(s, length, count, p) == Read::<Props>::Panic,
            Some((id, k)) => match list_step(id, s.skip(k as int), p) {
                Read::Done((p2, add), n) => 1 <= k && k + n <= s.len()
                    ==> list_loop(s, length, count, p) == list_loop(s.skip(k + n as int), length, count + 1 + add, p2).shifted(k + n),
                Read::Fail(e, n) => list_loop(s, length, count, p) == Read::<Props>::Fail(e, k + n),
                Read::Panic => list_loop(s, length, count, p) == Read::<Props>::Panic,
            },
        },
{
    reveal(list_loop);
}

/// What the loop takes is no more than there is.
proof fn lemma_list_loop_len(s: Seq<u8>, length: nat, count: nat, p: Props)
    ensures
        list_loop(s, length, count, p) matches Read::Done(_, n) ==> n <= s.len(),
        list_loop(s, length, count, p) matches Read::Fail(_, n) ==> n <= s.len(),
    decreases s.len(),
{
    lemma_list_loop_unfold(s, length, count, p);
    lemma_read_varint_consumed(s);
    if length > count {
        if let Some((id, k)) = spec_read_varint(s) {
            lemma_list_step_len(id, s.skip(k as int), p);
            if let Read::Done((p2, add), n) = list_step(id, s.skip(k as int), p) {
                if 1 <= k && k + n <= s.len() {
                    lemma_list_loop_len(s.skip(k + n as int), length, count + 1 + add, p2);
                }
            }
        }
    }
}

/// The stored properties, with the user properties, if any, as one list.
pub open spec fn finish_list(p: Props) -> Map<u8, PropertyValueModel> {
    if p.1.len() > 0 { p.0.insert(0x26, PropertyValueModel::StringPair(p.1)) } else { p.0 }
}

/// Reading a property list: its length (which must read), then properties
/// while the count is below it.
pub open spec fn spec_property_list(s: Seq<u8>) -> Read<(usize, Map<u8, PropertyValueModel>)> {
    match spec_read_varint(s) {
        None => Read::Panic,
        Some((length, k)) => match list_loop(s.skip(k as int), length, 0, (Map::empty(), Seq::empty())) {
            Read::Done(p, n) => Read::Done((length as usize, finish_list(p)), k + n),
            Read::Fail(e, n) => Read::Fail(e, k + n),
            Read::Panic => Read::Panic,
        },
    }
}

/// Reads the value of property `id`.
fn list_property(
    buf: &mut BytesMut,
    id: usize,
    props: &mut HashMap<u8, PropertyValue>,
    users: &mut Vec<(String, String)>,
) -> (res: Result<usize, Error>)
    requires
        !list_step(id as nat, buf_contents(*old(buf)), (props_map_model(old(props)@), users_model(*old(users)))).panics(),
    ensures
        match list_step(id as nat, buf_contents(*old(buf)), (props_map_model(old(props)@), users_model(*old(users)))) {
            Read::Done((p, a), n) => res == Ok::<usize, Error>(a as usize) && props_map_model(final(props)@) == p.0
                && users_model(*final(users)) == p.1
                && buf_contents(*final(buf)) == buf_contents(*old(buf)).skip(n as int),
            Read::Fail(e, n) => res matches Err(err) && err@ == e
                && buf_contents(*final(buf)) == buf_contents(*old(buf)).skip(n as int),
            Read::Panic => false,
        },
{
    let ghost s = buf_contents(*buf);
    proof {
        reveal(list_step);
        lemma_list_step_len(id as nat, s, (props_map_model(props@), users_model(*users)));
        assert(s.skip(0) =~= s);
    }
    if id == 0x01 {
        if props.contains_key(&0x01) {
            return Err(invalid_protocol("Cannot contains [Payload Format Indicator] more than once", 0x18));
        }
        let b = buf_get_u8(buf);
        assert((b & 0x01u8 == 1u8) == (b % 2 == 1)) by (bit_vector);
        store(props, 0x01, PropertyValue::Bit(b & 0x01 == 1));
        Ok(1)
    } else if id == 0x02 || id == 0x11 || id == 0x18 {
        let key: u8 = if id == 0x02 { 0x02 } else if id == 0x11 { 0x11 } else { 0x18 };
        if props.contains_key(&key) {
            return Err(if id == 0x02 {
                invalid_protocol("Cannot contains [Message Expiry Interval] more than once", 0x02)
            } else if id == 0x11 {
                invalid_protocol("Cannot contains [Session Expire Interval] more than once", 0x11)
            } else {
                invalid_protocol("Will properties cannot contains [Will Delay Interval] more than once", 0x18)
            });
        }
        let v = buf_get_u32(buf);
        store(props, key, PropertyValue::FourByteInteger(v));
        Ok(4)
    } else if id == 0x03 || id == 0x08 || id == 0x15 {
        let key: u8 = if id == 0x03 { 0x03 } else if id == 0x08 { 0x08 } else { 0x15 };
        if props.contains_key(&key) {
            return Err(if id == 0x03 {
                invalid_protocol("Cannot contains [Content Type] more than once", 0x03)
            } else if id == 0x08 {
                invalid_protocol("Cannot contains [Response Topic] more than once", 0x08)
            } else {
                invalid_protocol("Cannot contains [Authentication Method] more than once", 0x15)
            });
        }
        let (v, add) = expect_string(buf);
        store(props, key, PropertyValue::String(v));
        Ok(add)
    } else if id == 0x09 || id == 0x16 {
        let key: u8 = if id == 0x09 { 0x09 } else { 0x16 };
        if props.contains_key(&key) {
            return Err(if id == 0x09 {
                invalid_protocol("Cannot contains [Correlation Data] more than once", 0x09)
            } else {
                invalid_protocol("Cannot contains [Authentication Data] more than once", 0x16)
            });
        }
        let (data, add) = expect_binary(buf);
        store(props, key, PropertyValue::Binary(data));
        Ok(add)
    } else if id == 0x17 || id == 0x19 {
        let b = buf_get_u8(buf);
        let key: u8 = if id == 0x17 { 0x17 } else { 0x19 };
        if props.contains_key(&key) || (b != 0 && b != 1) {
            return Err(if id == 0x17 {
                invalid_protocol("Cannot contains [Request Problem Information] more than once or to have a value other than 0 or 1", 0x17)
            } else {
                invalid_protocol("Cannot contains [Request Response Information] more than once or to have a value other than 0 or 1", 0x19)
            });
        }
        assert((b == 0u8 || b == 1u8) ==> ((b & 0x01u8 == 1u8) == (b == 1u8))) by (bit_vector);
        store(props, key, PropertyValue::Bit(b & 0x01 == 1));
        Ok(1)
    } else if id == 0x21 {
        let receive_maximum = buf_get_u16(buf);
        if props.contains_key(&0x21) || receive_maximum == 0 {
            return Err(invalid_protocol("Cannot contains [Receive Maximum] more than once or for it have the value 0", 0x21));
        }
        store(props, 0x21, PropertyValue::TwoByteInteger(receive_maximum));
        Ok(2)
    } else if id == 0x22 {
        if props.contains_key(&0x22) {
            return Err(invalid_protocol("Cannot contains [Topic Alias Maximum] more than once", 0x22));
        }
        let v = buf_get_u16(buf);
        store(props, 0x22, PropertyValue::TwoByteInteger(v));
        Ok(2)
    } else if id == 0x26 {
        let add = read_user(buf, users);
        Ok(add)
    } else if id == 0x27 {
        let maximum_packet_size = buf_get_u32(buf);
        if props.contains_key(&0x27) || maximum_packet_size == 0 {
            return Err(invalid_protocol("Cannot contains [Maximum Packet Size] more than once or for it have the value 0", 0x27));
        }
        store(props, 0x27, PropertyValue::FourByteInteger(maximum_packet_size));
        Ok(4)
    } else {
        Err(Error::InvalidPropertyType("It's a invalid Property Type".to_string()))
    }
}

/// Counting bytes taken before twice is counting them once.
proof fn lemma_shifts(d: Read<Props>, a: nat, b: nat)
    ensures
        d.shifted(a).shifted(b) == d.shifted(a + b),
{
}

/// Reads properties while the count is below `length`.
fn read_list_loop(buf: &mut BytesMut, length: usize) -> (res: Result<(HashMap<u8, PropertyValue>, Vec<(String, String)>), Error>)
    requires
        length < 268435456,
        !list_loop(buf_contents(*old(buf)), length as nat, 0, (Map::empty(), Seq::empty())).panics(),
    ensures
        match list_loop(buf_contents(*old(buf)), length as nat, 0, (Map::empty(), Seq::empty())) {
            Read::Done(p, n) => res matches Ok((props, users)) && props_map_model(props@) == p.0
                && users_model(users) == p.1 && buf_contents(*final(buf)) == buf_contents(*old(buf)).skip(n as int),
            Read::Fail(e, n) => res matches Err(err) && err@ == e
                && buf_contents(*final(buf)) == buf_contents(*old(buf)).skip(n as int),
            Read::Panic => false,
        },
{
    let ghost s1 = buf_contents(*buf);
    let ghost whole = list_loop(s1, length as nat, 0, (Map::empty(), Seq::empty()));
    let mut props: HashMap<u8, PropertyValue> = HashMap::new();
    let mut users: Vec<(String, String)> = Vec::new();
    let mut prop_len: usize = 0;
    proof {
        assert(props_map_model(props@) =~= Map::<u8, PropertyValueModel>::empty());
        assert(users_model(users) =~= Seq::<(Seq<char>, Seq<char>)>::empty());
        assert(s1.skip(0) =~= s1);
        lemma_shifts(whole, 0, 0);
    }
    while length > prop_len
        invariant
            length < 268435456,
            s1 == buf_contents(*old(buf)),
            whole == list_loop(s1, length as nat, 0, (Map::empty(), Seq::empty())),
            !whole.panics(),
            s1.skip(s1.len() - buf_contents(*buf).len()) == buf_contents(*buf),
            buf_contents(*buf).len() <= s1.len(),
            whole == list_loop(buf_contents(*buf), length as nat, prop_len as nat,
                (props_map_model(props@), users_model(users))).shifted((s1.len() - buf_contents(*buf).len()) as nat),
        decreases buf_contents(*buf).len(),
    {
        let ghost cur = buf_contents(*buf);
        let ghost st = (props_map_model(props@), users_model(users));
        let ghost done = (s1.len() - cur.len()) as nat;
        proof {
            lemma_read_varint_consumed(cur);
            lemma_list_loop_unfold(cur, length as nat, prop_len as nat, st);
        }
        let id = match read_variable_bytes(buf) {
            Ok((id, _)) => id,
            Err(_) => {
                proof {
                    assert(false);
                }
                return Err(Error::MalformedVariableByteInteger);
            },
        };
        prop_len = prop_len + 1;
        let ghost r = buf_contents(*buf);
        let ghost kk = (cur.len() - r.len()) as nat;
        proof {
            lemma_list_step_len(id as nat, r, st);
        }
        let add = match list_property(buf, id, &mut props, &mut users) {
            Ok(add) => add,
            Err(e) => {
                proof {
                    let n = (r.len() - buf_contents(*buf).len()) as nat;
                    assert(buf_contents(*buf) =~= s1.skip(done + kk + n as int));
                }
                return Err(e);
            },
        };
        proof {
            let n = (r.len() - buf_contents(*buf).len()) as nat;
            lemma_shifts(list_loop(buf_contents(*buf), length as nat, (prop_len + add) as nat,
                (props_map_model(props@), users_model(users))), kk + n, done);
            assert(buf_contents(*buf) =~= s1.skip(done + kk + n as int));
            assert(cur.skip(kk + n as int) =~= buf_contents(*buf));
        }
        prop_len = prop_len + add;
    }
    proof {
        lemma_list_loop_unfold(buf_contents(*buf), length as nat, prop_len as nat,
            (props_map_model(props@), users_model(users)));
    }
    Ok((props, users))
}

impl Mqtt5Property {
    /// Reads a property list from the front of `buf`: its length, then
    /// properties while the count is below it. Each identifier counts one;
    /// a string or binary value counts its bytes without the two length
    /// bytes. User properties are gathered into one list.
    pub fn from_buf(buf: &mut BytesMut) -> (res: Result<Mqtt5Property, Error>)
        requires
            !spec_property_list(buf_contents(*old(buf))).panics(),
        ensures
            match spec_property_list(buf_contents(*old(buf))) {
                Read::Done(v, n) => res matches Ok(p) && p@ == v
                    && buf_contents(*final(buf)) == buf_contents(*old(buf)).skip(n as int),
                Read::Fail(e, n) => res matches Err(err) && err@ == e
                    && buf_contents(*final(buf)) == buf_contents(*old(buf)).skip(n as int),
                Read::Panic => false,
            },
    {
        let ghost s0 = buf_contents(*buf);
        proof {
            lemma_read_varint_consumed(s0);
        }
        let property_length = match read_variable_bytes(buf) {
            Ok((length, _)) => length,
            Err(_) => {
                proof {
                    assert(false);
                }
                return Err(Error::MalformedVariableByteInteger);
            },
        };
        let ghost s1 = buf_contents(*buf);
        let ghost k = (s0.len() - s1.len()) as nat;
        proof {
            lemma_list_loop_len(s1, property_length as nat, 0, (Map::empty(), Seq::empty()));
        }
        let (mut properties, users) = match read_list_loop(buf, property_length) {
            Ok(x) => x,
            Err(e) => {
                proof {
                    let n = (s1.len() - buf_contents(*buf).len()) as nat;
                    assert(buf_contents(*buf) =~= s0.skip(k + n as int));
                }
                return Err(e);
            },
        };
        proof {
            let n = (s1.len() - buf_contents(*buf).len()) as nat;
            assert(buf_contents(*buf) =~= s0.skip(k + n as int));
        }
        if users.len() > 0 {
            store(&mut properties, 0x26, PropertyValue::StringPair(users));
        }
        Ok(Mqtt5Property { property_length, properties })
    }
}

} // verus!
