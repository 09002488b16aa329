//! Writing a property list: the bytes each property takes, in the order the
//! map hands its entries out.
use vstd::prelude::*;
use vstd::std_specs::iter::IteratorSpec;
use crate::codec::buffer::bytes_contents;
use crate::codec::error::Error;
use crate::codec::property::{
    properties_model, string_pairs_model, Mqtt5Property, Mqtt5PropertyModel, PropertyValue,
    PropertyValueModel,
};
use crate::codec::{
    be16, be32, length_prefixed, variable_bytes_len, put_u16, put_u32, varint_encode, write_bytes, write_string,
    write_variable_bytes,
};
use vstd::utf8::encode_utf8;

verus! {

broadcast use vstd::std_specs::hash::group_hash_axioms;

/// The concatenation of `parts`, in order.
pub open spec fn concat_parts(parts: Seq<Seq<u8>>) -> Seq<u8>
    decreases parts.len(),
{
    if parts.len() == 0 {
        Seq::empty()
    } else {
        concat_parts(parts.drop_last()) + parts.last()
    }
}

/// Taking one more part appends it.
pub proof fn lemma_concat_step(parts: Seq<Seq<u8>>, i: int)
    requires
        0 <= i < parts.len(),
    ensures
        concat_parts(parts.take(i + 1)) == concat_parts(parts.take(i)) + parts[i],
{
    assert(parts.take(i + 1).drop_last() =~= parts.take(i));
}

/// A prefix of the parts is no longer than all of them.
pub proof fn lemma_concat_prefix_len(parts: Seq<Seq<u8>>, i: int)
    requires
        0 <= i <= parts.len(),
    ensures
        concat_parts(parts.take(i)).len() <= concat_parts(parts).len(),
    decreases parts.len() - i,
{
    if i < parts.len() {
        lemma_concat_prefix_len(parts, i + 1);
        lemma_concat_step(parts, i);
    } else {
        assert(parts.take(i) =~= parts);
    }
}

/// One user property as written: the identifier, then name and value.
pub open spec fn pair_bytes(id: Seq<u8>, pair: (Seq<char>, Seq<char>)) -> Seq<u8> {
    id + length_prefixed(encode_utf8(pair.0)) + length_prefixed(encode_utf8(pair.1))
}

/// The parts of a user property list, one per pair.
pub open spec fn pair_parts(id: Seq<u8>, pairs: Seq<(Seq<char>, Seq<char>)>) -> Seq<Seq<u8>> {
    pairs.map_values(|p: (Seq<char>, Seq<char>)| pair_bytes(id, p))
}

/// The parts of a list of variable byte integers, one per value.
pub open spec fn multiple_parts(id: Seq<u8>, values: Seq<PropertyValueModel>) -> Seq<Seq<u8>> {
    values.map_values(|v: PropertyValueModel| id + varint_encode(v->VariableByteInteger_0 as nat))
}

/// The bytes the encoder writes for property `key` holding `v`.
pub open spec fn entry_bytes(key: u32, v: PropertyValueModel) -> Seq<u8> {
    let id = varint_encode(key as nat);
    match v {
        PropertyValueModel::Bit(b) => id + seq![if b { 1u8 } else { 0u8 }],
        PropertyValueModel::Byte(x) => id + seq![x],
        PropertyValueModel::TwoByteInteger(x) => id + be16(x),
        PropertyValueModel::FourByteInteger(x) => id + be32(x),
        PropertyValueModel::String(s) => id + length_prefixed(encode_utf8(s)),
        PropertyValueModel::VariableByteInteger(x) => id + varint_encode(x as nat),
        PropertyValueModel::Binary(b) => id + length_prefixed(b),
        PropertyValueModel::StringPair(pairs) => concat_parts(pair_parts(id, pairs)),
        PropertyValueModel::Multiple(values) => concat_parts(multiple_parts(id, values)),
    }
}

/// A flag property with a one-byte identifier is written as that
/// identifier, then 1 for true and 0 for false.
pub proof fn lemma_flag_entry_bytes(key: u32, b: bool)
    requires
        key < 127,
    ensures
        entry_bytes(key, PropertyValueModel::Bit(b)) == seq![key as u8, if b { 1u8 } else { 0u8 }],
{
    assert(varint_encode(key as nat) == seq![key as u8]);
    assert(entry_bytes(key, PropertyValueModel::Bit(b)) =~= seq![key as u8, if b { 1u8 } else { 0u8 }]);
}

/// The parts of a property map written in the order `keys`.
pub open spec fn entry_parts(m: Map<u32, PropertyValueModel>, keys: Seq<u32>) -> Seq<Seq<u8>> {
    keys.map_values(|k: u32| entry_bytes(k, m[k]))
}

/// The bytes of a property map written in the order `keys`.
pub open spec fn entries_bytes(m: Map<u32, PropertyValueModel>, keys: Seq<u32>) -> Seq<u8> {
    concat_parts(entry_parts(m, keys))
}

/// `keys` lists each identifier of `dom` once.
pub open spec fn is_key_order(keys: Seq<u32>, dom: Set<u32>) -> bool {
    keys.no_duplicates() && keys.to_set() == dom
}

/// A value the encoder can write: strings and data fit a two-byte length,
/// and a list of values holds variable byte integers only.
pub open spec fn value_writable(v: PropertyValueModel) -> bool {
    match v {
        PropertyValueModel::String(s) => encode_utf8(s).len() <= 65535,
        PropertyValueModel::Binary(b) => b.len() <= 65535,
        PropertyValueModel::StringPair(pairs) => forall|i: int|
            0 <= i < pairs.len() ==> encode_utf8((#[trigger] pairs[i]).0).len() <= 65535 && encode_utf8(
                pairs[i].1,
            ).len() <= 65535,
        PropertyValueModel::Multiple(values) => forall|i: int|
            0 <= i < values.len() ==> (#[trigger] values[i]) is VariableByteInteger,
        _ => true,
    }
}

/// A property list the encoder writes without panicking: every value is
/// writable and the declared length is the number of bytes the properties
/// take (the same in every order).
pub open spec fn property_writable(p: Mqtt5PropertyModel) -> bool {
    &&& forall|k: u32| p.properties.contains_key(k) ==> value_writable(#[trigger] p.properties[k])
    &&& forall|keys: Seq<u32>|
        is_key_order(keys, p.properties.dom()) ==> #[trigger] entries_bytes(p.properties, keys).len()
            == p.property_length
}

/// `w` is how the encoder writes `p`: the declared length, then the
/// properties in some order of their identifiers.
pub open spec fn property_encoding(p: Mqtt5PropertyModel, w: Seq<u8>) -> bool {
    exists|keys: Seq<u32>|
        is_key_order(keys, p.properties.dom()) && w == varint_encode(p.property_length as nat) + entries_bytes(
            p.properties,
            keys,
        )
}

/// Writes the identifier `key` as a variable byte integer.
fn write_id(key: u32, buf: &mut Vec<u8>) -> (n: usize)
    ensures
        final(buf)@ == old(buf)@ + varint_encode(key as nat),
        n == varint_encode(key as nat).len(),
{
    proof {
        crate::codec::lemma_varint_encode_len(key as nat);
    }
    match write_variable_bytes(key as usize, buf) {
        Ok(n) => n,
        Err(_) => 0,
    }
}

/// Writes the user properties `pairs` under identifier `key`.
fn write_pairs(key: u32, pairs: &Vec<(String, String)>, buf: &mut Vec<u8>) -> (n: usize)
    requires
        value_writable(PropertyValueModel::StringPair(string_pairs_model(pairs@))),
        concat_parts(pair_parts(varint_encode(key as nat), string_pairs_model(pairs@))).len() <= usize::MAX,
    ensures
        final(buf)@ == old(buf)@ + concat_parts(pair_parts(varint_encode(key as nat), string_pairs_model(pairs@))),
        n == concat_parts(pair_parts(varint_encode(key as nat), string_pairs_model(pairs@))).len(),
{
    let ghost id = varint_encode(key as nat);
    let ghost model = string_pairs_model(pairs@);
    let ghost parts = pair_parts(id, model);
    let mut len: usize = 0;
    let mut i: usize = 0;
    assert(parts.take(0) =~= Seq::<Seq<u8>>::empty());
    assert(buf@ =~= old(buf)@ + concat_parts(parts.take(0)));
    assert forall|j: int| 0 <= j < model.len() implies encode_utf8((#[trigger] model[j]).0).len() <= 65535
        && encode_utf8(model[j].1).len() <= 65535 by {
        let v = PropertyValueModel::StringPair(model);
        assert(value_writable(v));
        assert(v->StringPair_0[j] == model[j]);
    }
    while i < pairs.len()
        invariant
            i <= pairs@.len(),
            forall|j: int| 0 <= j < model.len() ==> encode_utf8((#[trigger] model[j]).0).len() <= 65535
                && encode_utf8(model[j].1).len() <= 65535,
            model == string_pairs_model(pairs@),
            id == varint_encode(key as nat),
            parts == pair_parts(id, model),
            parts.len() == pairs@.len(),
            value_writable(PropertyValueModel::StringPair(model)),
            concat_parts(parts).len() <= usize::MAX,
            buf@ == old(buf)@ + concat_parts(parts.take(i as int)),
            len == concat_parts(parts.take(i as int)).len(),
        decreases pairs@.len() - i,
    {
        proof {
            lemma_concat_step(parts, i as int);
            lemma_concat_prefix_len(parts, i + 1);
            assert(model[i as int] == (pairs@[i as int].0@, pairs@[i as int].1@));
            assert(encode_utf8(model[i as int].0).len() <= 65535);
            assert(encode_utf8(model[i as int].1).len() <= 65535);
        }
        let a = write_id(key, buf);
        let b = write_string(pairs[i].0.clone(), buf);
        let c = write_string(pairs[i].1.clone(), buf);
        len = len + a + b + c;
        assert(buf@ =~= old(buf)@ + concat_parts(parts.take(i + 1)));
        i = i + 1;
    }
    assert(parts.take(i as int) =~= parts);
    len
}

/// Writes the variable byte integers `values` under identifier `key`.
fn write_multiple(key: u32, values: &Vec<PropertyValue>, buf: &mut Vec<u8>) -> (n: usize)
    requires
        forall|i: int| 0 <= i < values@.len() ==> (#[trigger] values@[i]) is VariableByteInteger,
        concat_parts(multiple_parts(varint_encode(key as nat), values@.map_values(|v: PropertyValue| v@))).len()
            <= usize::MAX,
    ensures
        final(buf)@ == old(buf)@ + concat_parts(
            multiple_parts(varint_encode(key as nat), values@.map_values(|v: PropertyValue| v@)),
        ),
        n == concat_parts(multiple_parts(varint_encode(key as nat), values@.map_values(|v: PropertyValue| v@))).len(),
{
    let ghost id = varint_encode(key as nat);
    let ghost model = values@.map_values(|v: PropertyValue| v@);
    let ghost parts = multiple_parts(id, model);
    let mut len: usize = 0;
    let mut i: usize = 0;
    assert(parts.take(0) =~= Seq::<Seq<u8>>::empty());
    assert(buf@ =~= old(buf)@ + concat_parts(parts.take(0)));
    while i < values.len()
        invariant
            i <= values@.len(),
            forall|j: int| 0 <= j < values@.len() ==> (#[trigger] values@[j]) is VariableByteInteger,
            model == values@.map_values(|v: PropertyValue| v@),
            id == varint_encode(key as nat),
            parts == multiple_parts(id, model),
            parts.len() == values@.len(),
            concat_parts(parts).len() <= usize::MAX,
            buf@ == old(buf)@ + concat_parts(parts.take(i as int)),
            len == concat_parts(parts.take(i as int)).len(),
        decreases values@.len() - i,
    {
        proof {
            lemma_concat_step(parts, i as int);
            lemma_concat_prefix_len(parts, i + 1);
        }
        let a = write_id(key, buf);
        let b = match &values[i] {
            PropertyValue::VariableByteInteger(v) => {
                assert(model[i as int] == PropertyValueModel::VariableByteInteger(*v));
                match write_variable_bytes(*v, buf) {
                    Ok(n) => n,
                    Err(_) => 0,
                }
            },
            _ => {
                proof {
                    assert(false);
                }
                0
            },
        };
        len = len + a + b;
        assert(buf@ =~= old(buf)@ + concat_parts(parts.take(i + 1)));
        i = i + 1;
    }
    assert(parts.take(i as int) =~= parts);
    len
}

/// Writes property `key` holding `value`; returns the number of bytes written.
fn write_entry(key: u32, value: &PropertyValue, buf: &mut Vec<u8>) -> (n: usize)
    requires
        value_writable(value@),
        entry_bytes(key, value@).len() <= usize::MAX,
    ensures
        final(buf)@ == old(buf)@ + entry_bytes(key, value@),
        n == entry_bytes(key, value@).len(),
{
    match value {
        PropertyValue::Bit(b) => {
            let a = write_id(key, buf);
            buf.push(if *b { 1u8 } else { 0u8 });
            assert(buf@ =~= old(buf)@ + entry_bytes(key, value@));
            a + 1
        },
        PropertyValue::Byte(x) => {
            let a = write_id(key, buf);
            buf.push(*x);
            assert(buf@ =~= old(buf)@ + entry_bytes(key, value@));
            a + 1
        },
        PropertyValue::TwoByteInteger(x) => {
            let a = write_id(key, buf);
            put_u16(buf, *x);
            assert(buf@ =~= old(buf)@ + entry_bytes(key, value@));
            a + 2
        },
        PropertyValue::FourByteInteger(x) => {
            let a = write_id(key, buf);
            put_u32(buf, *x);
            assert(buf@ =~= old(buf)@ + entry_bytes(key, value@));
            a + 4
        },
        PropertyValue::String(s) => {
            let a = write_id(key, buf);
            let b = write_string(s.clone(), buf);
            assert(buf@ =~= old(buf)@ + entry_bytes(key, value@));
            a + b
        },
        PropertyValue::VariableByteInteger(x) => {
            let a = write_id(key, buf);
            let b = match write_variable_bytes(*x, buf) {
                Ok(n) => n,
                Err(_) => 0,
            };
            assert(buf@ =~= old(buf)@ + entry_bytes(key, value@));
            a + b
        },
        PropertyValue::Binary(data) => {
            let a = write_id(key, buf);
            let b = write_bytes(data.clone(), buf);
            assert(buf@ =~= old(buf)@ + entry_bytes(key, value@));
            a + b
        },
        PropertyValue::StringPair(pairs) => write_pairs(key, pairs, buf),
        PropertyValue::Multiple(values) => {
            proof {
                let model = values@.map_values(|v: PropertyValue| v@);
                assert(value@ == PropertyValueModel::Multiple(model)) by {
                    assert(value@->Multiple_0 =~= model);
                }
                assert forall|i: int| 0 <= i < values@.len() implies (#[trigger] values@[i]) is VariableByteInteger by {
                    assert(model[i] is VariableByteInteger);
                }
            }
            write_multiple(key, values, buf)
        },
    }
}

impl Mqtt5Property {
    /// The number of bytes the list takes: its length field, then the
    /// declared length.
    pub fn length(&self) -> (n: usize)
        requires
            varint_encode(self.property_length as nat).len() + self.property_length <= usize::MAX,
        ensures
            n == varint_encode(self.property_length as nat).len() + self.property_length,
    {
        variable_bytes_len(self.property_length) + self.property_length
    }

    /// Writes the property list: its declared length as a variable byte
    /// integer, then every property in the order the map hands them out.
    /// Returns the declared length.
    pub(crate) fn write_to(&self, buf: &mut Vec<u8>) -> (res: Result<usize, Error>)
        requires
            property_writable(self@),
        ensures
            res == Ok::<usize, Error>(self.property_length),
            exists|w: Seq<u8>| property_encoding(self@, w) && final(buf)@ == old(buf)@ + w,
    {
        let ghost before = buf@;
        let _ = write_variable_bytes(self.property_length, buf);
        let ghost start = buf@;
        let ghost m = self@.properties;
        let iter = self.properties.iter();
        let ghost order = iter.remaining();
        let ghost keys = order.map_values(|p: (&u32, &PropertyValue)| *p.0);
        let ghost parts = entry_parts(m, keys);
        proof {
            assert forall|i: int, j: int| 0 <= i < keys.len() && 0 <= j < keys.len() && i != j implies keys[i]
                != keys[j] by {
                assert(self.properties@.contains_key(*order[i].0) && self.properties@[*order[i].0] == *order[i].1);
                assert(self.properties@.contains_key(*order[j].0) && self.properties@[*order[j].0] == *order[j].1);
            }
            assert(keys.to_set() =~= m.dom()) by {
                assert forall|k: u32| m.dom().contains(k) implies keys.to_set().contains(k) by {
                    assert(order.contains((&k, &self.properties@[k])));
                    let i = choose|i: int| 0 <= i < order.len() && order[i] == (&k, &self.properties@[k]);
                    assert(keys[i] == k);
                }
                assert forall|k: u32| keys.to_set().contains(k) implies m.dom().contains(k) by {
                    let i = choose|i: int| 0 <= i < keys.len() && keys[i] == k;
                    assert(self.properties@.contains_key(*order[i].0));
                }
            }
            assert(is_key_order(keys, m.dom()));
            assert(entries_bytes(self@.properties, keys).len() == self.property_length);
            assert(parts.take(0) =~= Seq::<Seq<u8>>::empty());
        }
        let mut len: usize = 0;
        assert(buf@ =~= start + concat_parts(parts.take(0)));
        for (key, value) in it: iter
            invariant
                it.seq() == order,
                forall|i: int| 0 <= i < order.len() ==> self.properties@.contains_key(*(#[trigger] order[i]).0)
                    && self.properties@[*order[i].0] == *order[i].1,
                concat_parts(parts).len() == self.property_length,
                keys == order.map_values(|p: (&u32, &PropertyValue)| *p.0),
                m == self@.properties,
                parts == entry_parts(m, keys),
                parts.len() == order.len(),
                property_writable(self@),
                is_key_order(keys, m.dom()),
                buf@ == start + concat_parts(parts.take(it.index() as int)),
                len == concat_parts(parts.take(it.index() as int)).len(),
        {
            let ghost i = it.index() as int;
            proof {
                assert(*order[i].0 == *key && *order[i].1 == *value);
                assert(self.properties@.contains_key(*key) && self.properties@[*key] == *value);
                assert(m[*key] == value@);
                assert(parts[i] == entry_bytes(*key, value@));
                lemma_concat_step(parts, i);
                lemma_concat_prefix_len(parts, i + 1);
                assert(concat_parts(parts).len() == self.property_length);
            }
            let n = write_entry(*key, value, buf);
            len = len + n;
            assert(buf@ =~= start + concat_parts(parts.take(i + 1)));
        }
        proof {
            assert(parts.take(parts.len() as int) =~= parts);
        }
        assert(len == self.property_length);
        proof {
            let w = varint_encode(self.property_length as nat) + entries_bytes(m, keys);
            assert(buf@ =~= before + w);
            assert(property_encoding(self@, w));
        }
        Ok(self.property_length)
    }
}

} // verus!
