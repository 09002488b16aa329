//! What reading a written property list gives back.
use vstd::prelude::*;
use crate::codec::buffer::{be_u16_at, be_u32_at};
use crate::codec::error::Decoded;
use crate::codec::property::{
    apply_step, finish_properties, spec_binary_value, spec_property_entry, spec_property_from_buf,
    spec_property_loop, spec_property_value, subscription_ids_model, Mqtt5PropertyModel, PropertyState,
    PropertyStepModel, PropertyValueModel,
};
use crate::codec::property_encode::{
    concat_parts, entries_bytes, entry_bytes, entry_parts, is_key_order, lemma_concat_step, multiple_parts,
    pair_bytes, pair_parts, property_encoding, property_writable,
};
use crate::codec::{
    be16, be32, length_prefixed, spec_read_bytes, spec_read_string_expect, spec_read_varint, varint_encode,
    varint_len_from, varint_value,
};
use vstd::utf8::{decode_utf8, encode_utf8, valid_utf8};

verus! {

/// Two big-endian bytes read back as the number they were written from.
pub proof fn lemma_be16_roundtrip(v: u16, rest: Seq<u8>)
    ensures
        be_u16_at(be16(v) + rest, 0) == v,
        (be16(v) + rest).len() == rest.len() + 2,
{
    let s = be16(v) + rest;
    let hi = (v / 256) as u8;
    let lo = (v % 256) as u8;
    assert(s[0] == hi && s[1] == lo);
    assert(hi as int * 256 + lo as int == v as int) by (nonlinear_arith)
        requires
            hi as int == v as int / 256,
            lo as int == v as int % 256,
            0 <= v <= 65535,
    ;
}

/// Four big-endian bytes read back as the number they were written from.
pub proof fn lemma_be32_roundtrip(v: u32, rest: Seq<u8>)
    ensures
        be_u32_at(be32(v) + rest, 0) == v,
        (be32(v) + rest).len() == rest.len() + 4,
{
    let s = be32(v) + rest;
    let a = (v / 16777216) as u8;
    let b = ((v / 65536) % 256) as u8;
    let c = ((v / 256) % 256) as u8;
    let d = (v % 256) as u8;
    assert(s[0] == a && s[1] == b && s[2] == c && s[3] == d);
    assert(a as int * 16777216 + b as int * 65536 + c as int * 256 + d as int == v as int) by (nonlinear_arith)
        requires
            a as int == v as int / 16777216,
            b as int == (v as int / 65536) % 256,
            c as int == (v as int / 256) % 256,
            d as int == v as int % 256,
            0 <= v <= 4294967295,
    ;
}

/// A number below 127 is written as one byte and read back.
pub proof fn lemma_varint_small(x: nat, rest: Seq<u8>)
    requires
        x <= 126,
    ensures
        varint_encode(x) == seq![x as u8],
        spec_read_varint(varint_encode(x) + rest) == Some((x, 1nat)),
{
    let s = varint_encode(x) + rest;
    assert(varint_encode(x) == seq![x as u8]);
    assert(s[0] == x as u8);
    assert(varint_len_from(s, 0) == Some(1nat));
    reveal_with_fuel(varint_value, 2);
    assert(crate::codec::pow128(0) == 1);
    assert((s[0] % 128) as nat == x);
    assert(varint_value(s, 0) == 0);
    assert(varint_value(s, 1) == varint_value(s, 0) + (s[0] % 128) as nat * crate::codec::pow128(0));
    assert(varint_value(s, 1) == x);
}

/// A string written with its length is read back.
pub proof fn lemma_string_roundtrip(x: Seq<char>, rest: Seq<u8>)
    requires
        encode_utf8(x).len() <= 65535,
    ensures
        spec_read_string_expect(length_prefixed(encode_utf8(x)) + rest) == Decoded::Done(
            x,
            encode_utf8(x).len() + 2,
        ),
        (length_prefixed(encode_utf8(x)) + rest).len() == encode_utf8(x).len() + 2 + rest.len(),
{
    let data = encode_utf8(x);
    let s = length_prefixed(data) + rest;
    lemma_be16_roundtrip(data.len() as u16, data + rest);
    assert(s =~= be16(data.len() as u16) + (data + rest));
    assert(s.subrange(2, 2 + data.len() as int) =~= data);
    vstd::utf8::encode_utf8_valid_utf8(x);
    vstd::utf8::encode_utf8_decode_utf8(x);
}

/// Data written with its length is read back.
pub proof fn lemma_bytes_roundtrip(data: Seq<u8>, rest: Seq<u8>)
    requires
        data.len() <= 65535,
    ensures
        spec_read_bytes(length_prefixed(data) + rest) == Decoded::Done(data, data.len() + 2),
{
    let s = length_prefixed(data) + rest;
    lemma_be16_roundtrip(data.len() as u16, data + rest);
    assert(s =~= be16(data.len() as u16) + (data + rest));
    assert(s.subrange(2, 2 + data.len() as int) =~= data);
}

/// The concatenation starts with the first part.
pub proof fn lemma_concat_front(parts: Seq<Seq<u8>>)
    requires
        parts.len() > 0,
    ensures
        concat_parts(parts) == parts[0] + concat_parts(parts.drop_first()),
    decreases parts.len(),
{
    if parts.len() == 1 {
        assert(parts.drop_last() =~= Seq::<Seq<u8>>::empty());
        assert(parts.drop_first() =~= Seq::<Seq<u8>>::empty());
        assert(concat_parts(parts) =~= parts[0] + concat_parts(parts.drop_first()));
    } else {
        lemma_concat_front(parts.drop_last());
        assert(parts.drop_last().drop_first() =~= parts.drop_first().drop_last());
        assert(parts.drop_first().last() == parts.last());
        assert(concat_parts(parts) =~= parts[0] + concat_parts(parts.drop_first()));
    }
}

/// Concatenating two lists of parts concatenates their concatenations.
pub proof fn lemma_concat_append(a: Seq<Seq<u8>>, b: Seq<Seq<u8>>)
    ensures
        concat_parts(a + b) == concat_parts(a) + concat_parts(b),
    decreases b.len(),
{
    if b.len() == 0 {
        assert(a + b =~= a);
        assert(concat_parts(a) + concat_parts(b) =~= concat_parts(a));
    } else {
        lemma_concat_append(a, b.drop_last());
        assert((a + b).drop_last() =~= a + b.drop_last());
        assert((a + b).last() == b.last());
        assert(concat_parts(a + b) =~= concat_parts(a) + concat_parts(b));
    }
}

/// A value that the decoder reads back, in one step, as the value stored
/// under identifier `k`.
pub open spec fn scalar_roundtrips(k: u32, v: PropertyValueModel) -> bool {
    if k == 0x01 || k == 0x17 || k == 0x19 {
        v is Bit
    } else if k == 0x02 || k == 0x11 || k == 0x18 {
        v is FourByteInteger
    } else if k == 0x27 {
        v matches PropertyValueModel::FourByteInteger(x) && x != 0
    } else if k == 0x13 || k == 0x22 || k == 0x23 {
        v is TwoByteInteger
    } else if k == 0x21 {
        v matches PropertyValueModel::TwoByteInteger(x) && x != 0
    } else if k == 0x03 || k == 0x08 || k == 0x12 || k == 0x15 || k == 0x1A || k == 0x1C || k == 0x1F {
        v matches PropertyValueModel::String(x) && encode_utf8(x).len() <= 65535
    } else if k == 0x24 || k == 0x25 || k == 0x28 || k == 0x29 || k == 0x2A {
        v matches PropertyValueModel::Byte(b) && b <= 1
    } else {
        false
    }
}

/// The bytes the encoder writes for what one decoding step reads.
pub open spec fn step_bytes(step: PropertyStepModel) -> Seq<u8> {
    match step {
        PropertyStepModel::Put(k, v) => entry_bytes(k, v),
        PropertyStepModel::User(n, v) => pair_bytes(varint_encode(0x26), (n, v)),
        PropertyStepModel::SubscriptionId(x) => varint_encode(0x0B) + varint_encode(x as nat),
    }
}

/// A step that reads back as written, given the identifiers already stored.
pub open spec fn step_ok(step: PropertyStepModel, dom: Set<u32>) -> bool {
    match step {
        PropertyStepModel::Put(k, v) => scalar_roundtrips(k, v) && !dom.contains(k) && (k == 0x2A ==> !dom.contains(
            0x29,
        )),
        PropertyStepModel::User(n, v) => encode_utf8(n).len() <= 65535 && encode_utf8(v).len() <= 65535,
        PropertyStepModel::SubscriptionId(x) => 1 <= x <= 126,
    }
}

proof fn lemma_put_decodes(k: u32, v: PropertyValueModel, rest: Seq<u8>, dom: Set<u32>)
    requires
        step_ok(PropertyStepModel::Put(k, v), dom),
    ensures
        spec_property_value(k as nat, entry_bytes(k, v).skip(1) + rest, dom) == Decoded::Done(
            (PropertyStepModel::Put(k, v), (entry_bytes(k, v).len() - 1) as nat),
            (entry_bytes(k, v).len() - 1) as nat,
        ),
        entry_bytes(k, v).len() >= 1,
        entry_bytes(k, v) == varint_encode(k as nat) + entry_bytes(k, v).skip(1),
{
    lemma_varint_small(k as nat, Seq::empty());
    let r = entry_bytes(k, v).skip(1) + rest;
    assert(entry_bytes(k, v) =~= varint_encode(k as nat) + entry_bytes(k, v).skip(1));
    match v {
        PropertyValueModel::Bit(b) => {
            assert(entry_bytes(k, v).skip(1) =~= seq![if b { 1u8 } else { 0u8 }]);
            assert(1u8 & 0x01u8 == 1u8) by (bit_vector);
            assert(0u8 & 0x01u8 == 0u8) by (bit_vector);
            assert(r[0] == if b { 1u8 } else { 0u8 });
        },
        PropertyValueModel::Byte(x) => {
            assert(entry_bytes(k, v).skip(1) =~= seq![x]);
            assert(r[0] == x);
        },
        PropertyValueModel::TwoByteInteger(x) => {
            assert(entry_bytes(k, v).skip(1) =~= be16(x));
            lemma_be16_roundtrip(x, rest);
            assert(r =~= be16(x) + rest);
        },
        PropertyValueModel::FourByteInteger(x) => {
            assert(entry_bytes(k, v).skip(1) =~= be32(x));
            lemma_be32_roundtrip(x, rest);
            assert(r =~= be32(x) + rest);
        },
        PropertyValueModel::String(x) => {
            assert(entry_bytes(k, v).skip(1) =~= length_prefixed(encode_utf8(x)));
            lemma_string_roundtrip(x, rest);
            assert(r =~= length_prefixed(encode_utf8(x)) + rest);
        },
        _ => {},
    }
}

proof fn lemma_put_entry_decodes(k: u32, v: PropertyValueModel, rest: Seq<u8>, dom: Set<u32>)
    requires
        step_ok(PropertyStepModel::Put(k, v), dom),
    ensures
        spec_property_entry(entry_bytes(k, v) + rest, dom) == Decoded::Done(
            (PropertyStepModel::Put(k, v), entry_bytes(k, v).len()),
            entry_bytes(k, v).len(),
        ),
        entry_bytes(k, v).len() > 0,
{
    let s = entry_bytes(k, v) + rest;
    lemma_put_decodes(k, v, rest, dom);
    let vb = entry_bytes(k, v).skip(1);
    lemma_varint_small(k as nat, vb + rest);
    assert(s =~= varint_encode(k as nat) + (vb + rest));
    assert(s.skip(1) =~= vb + rest);
}

proof fn lemma_user_entry_decodes(n: Seq<char>, v: Seq<char>, rest: Seq<u8>, dom: Set<u32>)
    requires
        encode_utf8(n).len() <= 65535,
        encode_utf8(v).len() <= 65535,
    ensures
        spec_property_entry(step_bytes(PropertyStepModel::User(n, v)) + rest, dom) == Decoded::Done(
            (PropertyStepModel::User(n, v), step_bytes(PropertyStepModel::User(n, v)).len()),
            step_bytes(PropertyStepModel::User(n, v)).len(),
        ),
        step_bytes(PropertyStepModel::User(n, v)).len() > 0,
{
    let s = step_bytes(PropertyStepModel::User(n, v)) + rest;
    let id = varint_encode(0x26);
    lemma_varint_small(0x26, Seq::empty());
    let a = length_prefixed(encode_utf8(n));
    let b = length_prefixed(encode_utf8(v));
    lemma_varint_small(0x26, a + (b + rest));
    assert(s =~= id + (a + (b + rest)));
    assert(spec_read_varint(s) == Some((0x26nat, 1nat)));
    assert(s.skip(1) =~= a + (b + rest));
    lemma_string_roundtrip(n, b + rest);
    assert(s.skip(1).skip((encode_utf8(n).len() + 2) as int) =~= b + rest);
    lemma_string_roundtrip(v, rest);
    assert(step_bytes(PropertyStepModel::User(n, v)).len() == 1 + (encode_utf8(n).len() + 2) + (encode_utf8(v).len()
        + 2));
}

proof fn lemma_id_entry_decodes(x: usize, rest: Seq<u8>, dom: Set<u32>)
    requires
        1 <= x <= 126,
    ensures
        spec_property_entry(step_bytes(PropertyStepModel::SubscriptionId(x)) + rest, dom) == Decoded::Done(
            (PropertyStepModel::SubscriptionId(x), step_bytes(PropertyStepModel::SubscriptionId(x)).len()),
            step_bytes(PropertyStepModel::SubscriptionId(x)).len(),
        ),
        step_bytes(PropertyStepModel::SubscriptionId(x)).len() > 0,
{
    let s = step_bytes(PropertyStepModel::SubscriptionId(x)) + rest;
    lemma_varint_small(0x0B, Seq::empty());
    lemma_varint_small(x as nat, rest);
    lemma_varint_small(0x0B, varint_encode(x as nat) + rest);
    assert(s =~= varint_encode(0x0B) + (varint_encode(x as nat) + rest));
    assert(s.skip(1) =~= varint_encode(x as nat) + rest);
}

/// One step, written, decodes back to itself and takes exactly its bytes.
pub proof fn lemma_step_decodes(step: PropertyStepModel, rest: Seq<u8>, dom: Set<u32>)
    requires
        step_ok(step, dom),
    ensures
        spec_property_entry(step_bytes(step) + rest, dom) == Decoded::Done(
            (step, step_bytes(step).len()),
            step_bytes(step).len(),
        ),
        step_bytes(step).len() > 0,
{
    match step {
        PropertyStepModel::Put(k, v) => lemma_put_entry_decodes(k, v, rest, dom),
        PropertyStepModel::User(n, v) => lemma_user_entry_decodes(n, v, rest, dom),
        PropertyStepModel::SubscriptionId(x) => lemma_id_entry_decodes(x, rest, dom),
    }
}

/// The bytes of a sequence of steps, in order.
pub open spec fn steps_bytes(steps: Seq<PropertyStepModel>) -> Seq<u8> {
    concat_parts(steps.map_values(|st: PropertyStepModel| step_bytes(st)))
}

/// The state after taking `steps` in order.
pub open spec fn apply_steps(st: PropertyState, steps: Seq<PropertyStepModel>) -> PropertyState
    decreases steps.len(),
{
    if steps.len() == 0 {
        st
    } else {
        apply_steps(apply_step(st, steps[0]), steps.drop_first())
    }
}

/// Every step reads back, given the identifiers stored by those before it.
pub open spec fn steps_ok(steps: Seq<PropertyStepModel>, st: PropertyState) -> bool
    decreases steps.len(),
{
    steps.len() == 0 || (step_ok(steps[0], st.properties.dom()) && steps_ok(
        steps.drop_first(),
        apply_step(st, steps[0]),
    ))
}

/// The bytes of steps start with those of the first step.
proof fn lemma_steps_bytes_front(steps: Seq<PropertyStepModel>)
    requires
        steps.len() > 0,
    ensures
        steps_bytes(steps) == step_bytes(steps[0]) + steps_bytes(steps.drop_first()),
{
    let parts = steps.map_values(|st: PropertyStepModel| step_bytes(st));
    lemma_concat_front(parts);
    assert(parts.drop_first() =~= steps.drop_first().map_values(|st: PropertyStepModel| step_bytes(st)));
}

/// Decoding the bytes of steps that read back takes the steps, one by one,
/// and leaves the bytes after them.
#[verifier::rlimit(40)]
#[verifier::spinoff_prover]
pub proof fn lemma_loop_steps(
    steps: Seq<PropertyStepModel>,
    more: Seq<u8>,
    target: nat,
    counted: nat,
    st: PropertyState,
)
    requires
        steps_ok(steps, st),
        counted + steps_bytes(steps).len() <= target,
    ensures
        spec_property_loop(steps_bytes(steps) + more, target, counted, st) == spec_property_loop(
            more,
            target,
            counted + steps_bytes(steps).len(),
            apply_steps(st, steps),
        ).shifted(steps_bytes(steps).len()),
    decreases steps.len(),
{
    if steps.len() == 0 {
        assert(steps.map_values(|st: PropertyStepModel| step_bytes(st)) =~= Seq::<Seq<u8>>::empty());
        assert(steps_bytes(steps) + more =~= more);
        let d = spec_property_loop(more, target, counted, st);
        assert(d.shifted(0) == d);
    } else {
        let h = steps[0];
        let tail = steps.drop_first();
        lemma_steps_bytes_front(steps);
        let hb = step_bytes(h);
        let s = steps_bytes(steps) + more;
        assert(s =~= hb + (steps_bytes(tail) + more));
        lemma_step_decodes(h, steps_bytes(tail) + more, st.properties.dom());
        assert(s.skip(hb.len() as int) =~= steps_bytes(tail) + more);
        lemma_loop_steps(tail, more, target, counted + hb.len(), apply_step(st, h));
        let rest = spec_property_loop(
            more,
            target,
            counted + hb.len() + steps_bytes(tail).len(),
            apply_steps(apply_step(st, h), tail),
        );
        crate::codec::error::lemma_shift_shift(rest, steps_bytes(tail).len(), hb.len());
    }
}

/// The steps the decoder takes for property `k` holding `v`.
pub open spec fn entry_steps(k: u32, v: PropertyValueModel) -> Seq<PropertyStepModel> {
    match v {
        PropertyValueModel::StringPair(pairs) => pairs.map_values(
            |p: (Seq<char>, Seq<char>)| PropertyStepModel::User(p.0, p.1),
        ),
        PropertyValueModel::Multiple(values) => values.map_values(
            |x: PropertyValueModel| PropertyStepModel::SubscriptionId(x->VariableByteInteger_0),
        ),
        _ => seq![PropertyStepModel::Put(k, v)],
    }
}

/// The steps for the properties of `m` in the order `keys`.
pub open spec fn all_steps(m: Map<u32, PropertyValueModel>, keys: Seq<u32>) -> Seq<PropertyStepModel>
    decreases keys.len(),
{
    if keys.len() == 0 {
        Seq::empty()
    } else {
        entry_steps(keys[0], m[keys[0]]) + all_steps(m, keys.drop_first())
    }
}

/// A property that the decoder reads back as it was written: a single
/// value of the type its identifier calls for, a non-empty list of user
/// properties under `0x26`, or a non-empty list of subscription identifiers
/// from 1 to 126 under `0x0B`.
pub open spec fn entry_roundtrips(k: u32, v: PropertyValueModel) -> bool {
    if scalar_roundtrips(k, v) {
        true
    } else if k == 0x26 {
        match v {
            PropertyValueModel::StringPair(pairs) => pairs.len() > 0 && forall|i: int|
                0 <= i < pairs.len() ==> encode_utf8((#[trigger] pairs[i]).0).len() <= 65535 && encode_utf8(
                    pairs[i].1,
                ).len() <= 65535,
            _ => false,
        }
    } else if k == 0x0B {
        match v {
            PropertyValueModel::Multiple(values) => values.len() > 0 && forall|i: int|
                0 <= i < values.len() ==> small_id(#[trigger] values[i]),
            _ => false,
        }
    } else {
        false
    }
}

/// A subscription identifier from 1 to 126.
pub open spec fn small_id(v: PropertyValueModel) -> bool {
    match v {
        PropertyValueModel::VariableByteInteger(x) => 1 <= x <= 126,
        _ => false,
    }
}

/// The state once the steps for property `k` holding `v` are taken.
pub open spec fn entry_effect(st: PropertyState, k: u32, v: PropertyValueModel) -> PropertyState {
    match v {
        PropertyValueModel::StringPair(pairs) => PropertyState { users: st.users + pairs, ..st },
        PropertyValueModel::Multiple(values) => PropertyState {
            ids: st.ids + values.map_values(|x: PropertyValueModel| x->VariableByteInteger_0),
            ..st
        },
        _ => PropertyState { properties: st.properties.insert(k, v), ..st },
    }
}

/// The state once the properties of `m` are taken in the order `keys`.
pub open spec fn entries_effect(st: PropertyState, m: Map<u32, PropertyValueModel>, keys: Seq<u32>) -> PropertyState
    decreases keys.len(),
{
    if keys.len() == 0 {
        st
    } else {
        entries_effect(entry_effect(st, keys[0], m[keys[0]]), m, keys.drop_first())
    }
}

proof fn lemma_steps_append(a: Seq<PropertyStepModel>, b: Seq<PropertyStepModel>, st: PropertyState)
    ensures
        apply_steps(st, a + b) == apply_steps(apply_steps(st, a), b),
        steps_ok(a, st) && steps_ok(b, apply_steps(st, a)) ==> steps_ok(a + b, st),
        steps_bytes(a + b) == steps_bytes(a) + steps_bytes(b),
    decreases a.len(),
{
    let f = |x: PropertyStepModel| step_bytes(x);
    assert((a + b).map_values(f) =~= a.map_values(f) + b.map_values(f));
    lemma_concat_append(a.map_values(f), b.map_values(f));
    if a.len() == 0 {
        assert(a + b =~= b);
    } else {
        assert((a + b)[0] == a[0]);
        assert((a + b).drop_first() =~= a.drop_first() + b);
        lemma_steps_append(a.drop_first(), b, apply_step(st, a[0]));
    }
}

proof fn lemma_user_steps(pairs: Seq<(Seq<char>, Seq<char>)>, st: PropertyState)
    requires
        forall|i: int|
            0 <= i < pairs.len() ==> encode_utf8((#[trigger] pairs[i]).0).len() <= 65535 && encode_utf8(pairs[i].1).len()
                <= 65535,
    ensures
        apply_steps(st, pairs.map_values(|p: (Seq<char>, Seq<char>)| PropertyStepModel::User(p.0, p.1)))
            == (PropertyState { users: st.users + pairs, ..st }),
        steps_ok(pairs.map_values(|p: (Seq<char>, Seq<char>)| PropertyStepModel::User(p.0, p.1)), st),
    decreases pairs.len(),
{
    let steps = pairs.map_values(|p: (Seq<char>, Seq<char>)| PropertyStepModel::User(p.0, p.1));
    if pairs.len() == 0 {
        assert(st.users + pairs =~= st.users);
    } else {
        assert(steps.drop_first() =~= pairs.drop_first().map_values(
            |p: (Seq<char>, Seq<char>)| PropertyStepModel::User(p.0, p.1),
        ));
        let st1 = apply_step(st, steps[0]);
        assert(pairs[0] == pairs[0]);
        lemma_user_steps(pairs.drop_first(), st1);
        assert(st1.users + pairs.drop_first() =~= st.users + pairs);
    }
}

proof fn lemma_id_steps(values: Seq<PropertyValueModel>, st: PropertyState)
    requires
        forall|i: int| 0 <= i < values.len() ==> small_id(#[trigger] values[i]),
    ensures
        apply_steps(
            st,
            values.map_values(|x: PropertyValueModel| PropertyStepModel::SubscriptionId(x->VariableByteInteger_0)),
        ) == (PropertyState {
            ids: st.ids + values.map_values(|x: PropertyValueModel| x->VariableByteInteger_0),
            ..st
        }),
        steps_ok(
            values.map_values(|x: PropertyValueModel| PropertyStepModel::SubscriptionId(x->VariableByteInteger_0)),
            st,
        ),
    decreases values.len(),
{
    let steps = values.map_values(|x: PropertyValueModel| PropertyStepModel::SubscriptionId(x->VariableByteInteger_0));
    let ids = values.map_values(|x: PropertyValueModel| x->VariableByteInteger_0);
    if values.len() == 0 {
        assert(st.ids + ids =~= st.ids);
    } else {
        assert(steps.drop_first() =~= values.drop_first().map_values(
            |x: PropertyValueModel| PropertyStepModel::SubscriptionId(x->VariableByteInteger_0),
        ));
        assert(values[0] == values[0]);
        let st1 = apply_step(st, steps[0]);
        lemma_id_steps(values.drop_first(), st1);
        assert(st1.ids + values.drop_first().map_values(|x: PropertyValueModel| x->VariableByteInteger_0) =~= st.ids
            + ids);
    }
}

/// The steps of one property: their bytes are the property's bytes, and
/// taking them has the property's effect.
proof fn lemma_entry_steps(k: u32, v: PropertyValueModel, st: PropertyState)
    requires
        entry_roundtrips(k, v),
        scalar_roundtrips(k, v) ==> !st.properties.dom().contains(k) && (k == 0x2A ==> !st.properties.dom().contains(
            0x29,
        )),
    ensures
        steps_bytes(entry_steps(k, v)) == entry_bytes(k, v),
        apply_steps(st, entry_steps(k, v)) == entry_effect(st, k, v),
        steps_ok(entry_steps(k, v), st),
{
    let f = |x: PropertyStepModel| step_bytes(x);
    if scalar_roundtrips(k, v) {
        assert(v !is StringPair && v !is Multiple);
        let steps = seq![PropertyStepModel::Put(k, v)];
        assert(entry_steps(k, v) == steps);
        assert(steps.map_values(f) =~= seq![entry_bytes(k, v)]);
        let one = seq![entry_bytes(k, v)];
        assert(one.drop_last() =~= Seq::<Seq<u8>>::empty());
        assert(concat_parts(one.drop_last()) == Seq::<u8>::empty());
        assert(concat_parts(one) =~= entry_bytes(k, v));
        assert(steps.drop_first() =~= Seq::<PropertyStepModel>::empty());
        assert(steps_ok(steps.drop_first(), apply_step(st, steps[0])));
        assert(apply_steps(apply_step(st, steps[0]), steps.drop_first()) == apply_step(st, steps[0]));
    } else if k == 0x26 {
        let pairs = v->StringPair_0;
        lemma_user_steps(pairs, st);
        lemma_varint_small(0x26, Seq::empty());
        assert(entry_steps(k, v).map_values(f) =~= pair_parts(varint_encode(k as nat), pairs));
    } else {
        let values = v->Multiple_0;
        lemma_id_steps(values, st);
        assert(entry_steps(k, v).map_values(f) =~= multiple_parts(varint_encode(k as nat), values));
    }
}

proof fn lemma_all_steps(m: Map<u32, PropertyValueModel>, keys: Seq<u32>, st: PropertyState)
    requires
        keys.no_duplicates(),
        forall|i: int| 0 <= i < keys.len() ==> entry_roundtrips(#[trigger] keys[i], m[keys[i]]),
        forall|i: int|
            0 <= i < keys.len() && scalar_roundtrips(#[trigger] keys[i], m[keys[i]]) ==> !st.properties.dom().contains(
                keys[i],
            ),
        keys.contains(0x2A) ==> !keys.contains(0x29) && !st.properties.dom().contains(0x29),
    ensures
        steps_bytes(all_steps(m, keys)) == entries_bytes(m, keys),
        steps_ok(all_steps(m, keys), st),
        apply_steps(st, all_steps(m, keys)) == entries_effect(st, m, keys),
    decreases keys.len(),
{
    if keys.len() == 0 {
        let f = |x: PropertyStepModel| step_bytes(x);
        assert(all_steps(m, keys).map_values(f) =~= Seq::<Seq<u8>>::empty());
        assert(entry_parts(m, keys) =~= Seq::<Seq<u8>>::empty());
    } else {
        let k = keys[0];
        let v = m[k];
        let rest = keys.drop_first();
        assert(entry_roundtrips(keys[0], m[keys[0]]));
        if k == 0x2A {
            assert(keys.contains(0x2A));
        }
        lemma_entry_steps(k, v, st);
        let st1 = entry_effect(st, k, v);
        assert forall|i: int| 0 <= i < rest.len() implies entry_roundtrips(#[trigger] rest[i], m[rest[i]]) by {
            assert(rest[i] == keys[i + 1]);
        }
        assert forall|i: int|
            0 <= i < rest.len() && scalar_roundtrips(#[trigger] rest[i], m[rest[i]]) implies !st1.properties.dom().contains(
            rest[i],
        ) by {
            assert(rest[i] == keys[i + 1]);
            assert(keys[i + 1] != keys[0]);
        }
        assert(rest.no_duplicates()) by {
            assert forall|i: int, j: int| 0 <= i < rest.len() && 0 <= j < rest.len() && i != j implies rest[i]
                != rest[j] by {
                assert(rest[i] == keys[i + 1] && rest[j] == keys[j + 1]);
            }
        }
        if rest.contains(0x2A) {
            let j = choose|j: int| 0 <= j < rest.len() && rest[j] == 0x2A;
            assert(keys[j + 1] == 0x2A);
            assert(keys.contains(0x2A));
            if rest.contains(0x29) {
                let i = choose|i: int| 0 <= i < rest.len() && rest[i] == 0x29;
                assert(keys[i + 1] == 0x29);
            }
            if k == 0x29 {
                assert(keys[0] == 0x29);
            }
        }
        lemma_all_steps(m, rest, st1);
        lemma_steps_append(entry_steps(k, v), all_steps(m, rest), st);
        lemma_concat_front(entry_parts(m, keys));
        assert(entry_parts(m, keys).drop_first() =~= entry_parts(m, rest));
    }
}

/// The scalar properties of `m` among `keys`.
pub open spec fn scalars_among(m: Map<u32, PropertyValueModel>, keys: Seq<u32>) -> Map<u32, PropertyValueModel> {
    Map::new(|k: u32| keys.contains(k) && scalar_roundtrips(k, m[k]), |k: u32| m[k])
}

/// The user properties of `m` when `keys` holds `0x26`.
pub open spec fn users_among(m: Map<u32, PropertyValueModel>, keys: Seq<u32>) -> Seq<(Seq<char>, Seq<char>)> {
    if keys.contains(0x26) {
        m[0x26]->StringPair_0
    } else {
        Seq::empty()
    }
}

/// The subscription identifiers of `m` when `keys` holds `0x0B`.
pub open spec fn ids_among(m: Map<u32, PropertyValueModel>, keys: Seq<u32>) -> Seq<usize> {
    if keys.contains(0x0B) {
        m[0x0B]->Multiple_0.map_values(|x: PropertyValueModel| x->VariableByteInteger_0)
    } else {
        Seq::empty()
    }
}

proof fn lemma_entries_effect(m: Map<u32, PropertyValueModel>, keys: Seq<u32>, st: PropertyState)
    requires
        keys.no_duplicates(),
        forall|i: int| 0 <= i < keys.len() ==> entry_roundtrips(#[trigger] keys[i], m[keys[i]]),
    ensures
        entries_effect(st, m, keys).properties == st.properties.union_prefer_right(scalars_among(m, keys)),
        entries_effect(st, m, keys).users == st.users + users_among(m, keys),
        entries_effect(st, m, keys).ids == st.ids + ids_among(m, keys),
    decreases keys.len(),
{
    if keys.len() == 0 {
        assert(st.properties.union_prefer_right(scalars_among(m, keys)) =~= st.properties);
        assert(st.users + users_among(m, keys) =~= st.users);
        assert(st.ids + ids_among(m, keys) =~= st.ids);
    } else {
        let k = keys[0];
        let v = m[k];
        let rest = keys.drop_first();
        assert(entry_roundtrips(keys[0], m[keys[0]]));
        assert forall|i: int| 0 <= i < rest.len() implies entry_roundtrips(#[trigger] rest[i], m[rest[i]]) by {
            assert(rest[i] == keys[i + 1]);
        }
        assert(rest.no_duplicates()) by {
            assert forall|i: int, j: int| 0 <= i < rest.len() && 0 <= j < rest.len() && i != j implies rest[i]
                != rest[j] by {
                assert(rest[i] == keys[i + 1] && rest[j] == keys[j + 1]);
            }
        }
        let st1 = entry_effect(st, k, v);
        lemma_entries_effect(m, rest, st1);
        assert(!rest.contains(k)) by {
            if rest.contains(k) {
                let j = choose|j: int| 0 <= j < rest.len() && rest[j] == k;
                assert(keys[j + 1] == keys[0]);
            }
        }
        assert forall|x: u32| #[trigger] keys.contains(x) <==> (x == k || rest.contains(x)) by {
            if keys.contains(x) {
                let j = choose|j: int| 0 <= j < keys.len() && keys[j] == x;
                if j > 0 {
                    assert(rest[j - 1] == x);
                }
            }
            if rest.contains(x) {
                let j = choose|j: int| 0 <= j < rest.len() && rest[j] == x;
                assert(keys[j + 1] == x);
            }
            if x == k {
                assert(keys[0] == x);
            }
        }
        if scalar_roundtrips(k, v) {
            assert(st1.properties.union_prefer_right(scalars_among(m, rest)) =~= st.properties.union_prefer_right(
                scalars_among(m, keys),
            ));
            assert(users_among(m, keys) =~= users_among(m, rest));
            assert(ids_among(m, keys) =~= ids_among(m, rest));
        } else if k == 0x26 {
            assert(scalars_among(m, keys) =~= scalars_among(m, rest));
            assert(users_among(m, rest) =~= Seq::<(Seq<char>, Seq<char>)>::empty());
            assert(st1.users + users_among(m, rest) =~= st.users + users_among(m, keys));
            assert(ids_among(m, keys) =~= ids_among(m, rest));
        } else {
            assert(k == 0x0B);
            assert(scalars_among(m, keys) =~= scalars_among(m, rest));
            assert(ids_among(m, rest) =~= Seq::<usize>::empty());
            assert(st1.ids + ids_among(m, rest) =~= st.ids + ids_among(m, keys));
            assert(users_among(m, keys) =~= users_among(m, rest));
        }
    }
}

/// A property list that the decoder reads back as it was written: nothing
/// appended, a declared length below 127 (one length byte), every property
/// one that reads back, not both `0x29` and `0x2A` (the decoder checks
/// `0x2A` against `0x29`), and a declared length that is the number of bytes
/// the properties take.
pub open spec fn property_roundtrips(p: Mqtt5PropertyModel) -> bool {
    &&& p.append_length == 0
    &&& p.property_length <= 126
    &&& forall|k: u32| p.properties.contains_key(k) ==> entry_roundtrips(k, #[trigger] p.properties[k])
    &&& !(p.properties.contains_key(0x29) && p.properties.contains_key(0x2A))
    &&& forall|keys: Seq<u32>|
        is_key_order(keys, p.properties.dom()) ==> #[trigger] entries_bytes(p.properties, keys).len()
            == p.property_length
}

proof fn lemma_finish_is_model(p: Mqtt5PropertyModel, keys: Seq<u32>, st: PropertyState)
    requires
        property_roundtrips(p),
        is_key_order(keys, p.properties.dom()),
        st.properties == scalars_among(p.properties, keys),
        st.users == users_among(p.properties, keys),
        st.ids == ids_among(p.properties, keys),
    ensures
        finish_properties(p.property_length, st) == p,
{
    let m = p.properties;
    assert forall|k: u32| #[trigger] keys.contains(k) <==> m.contains_key(k) by {
        assert(keys.to_set().contains(k) <==> keys.contains(k));
    }
    let f = finish_properties(p.property_length, st);
    if keys.contains(0x26) {
        assert(entry_roundtrips(0x26, m[0x26]));
        assert(!scalar_roundtrips(0x26, m[0x26]));
    }
    if keys.contains(0x0B) {
        assert(entry_roundtrips(0x0B, m[0x0B]));
        assert(!scalar_roundtrips(0x0B, m[0x0B]));
        let values = m[0x0B]->Multiple_0;
        let ids = ids_among(m, keys);
        assert forall|i: int| 0 <= i < values.len() implies subscription_ids_model(ids)[i] == values[i] by {
            assert(small_id(values[i]));
        }
        assert(subscription_ids_model(ids) =~= values);
    }
    assert forall|k: u32| #[trigger] f.properties.contains_key(k) <==> m.contains_key(k) by {
        if m.contains_key(k) {
            assert(entry_roundtrips(k, m[k]));
        }
    }
    assert forall|k: u32| f.properties.contains_key(k) implies #[trigger] f.properties[k] == m[k] by {
        assert(entry_roundtrips(k, m[k]));
    }
    assert(f.properties =~= m);
}

/// Reading a written property list gives it back: for every way `w` the
/// encoder writes a list that reads back, decoding `w` followed by any bytes
/// returns the list and takes exactly `w`.
pub proof fn lemma_property_roundtrip(p: Mqtt5PropertyModel, w: Seq<u8>, rest: Seq<u8>)
    requires
        property_roundtrips(p),
        property_encoding(p, w),
    ensures
        spec_property_from_buf(w + rest) == Decoded::Done(p, w.len()),
{
    let m = p.properties;
    let keys = choose|keys: Seq<u32>|
        is_key_order(keys, m.dom()) && w == varint_encode(p.property_length as nat) + entries_bytes(m, keys);
    let entries = entries_bytes(m, keys);
    let target = p.property_length as nat;
    let empty = PropertyState { properties: Map::empty(), users: Seq::empty(), ids: Seq::empty() };
    assert(entries.len() == p.property_length);
    lemma_varint_small(target, entries + rest);
    assert(w + rest =~= varint_encode(target) + (entries + rest));
    assert((w + rest).skip(1) =~= entries + rest);
    assert forall|k: u32| #[trigger] keys.contains(k) <==> m.contains_key(k) by {
        assert(keys.to_set().contains(k) <==> keys.contains(k));
    }
    assert forall|i: int| 0 <= i < keys.len() implies entry_roundtrips(#[trigger] keys[i], m[keys[i]]) by {
        assert(keys.contains(keys[i]));
    }
    lemma_all_steps(m, keys, empty);
    lemma_entries_effect(m, keys, empty);
    let steps = all_steps(m, keys);
    let last = entries_effect(empty, m, keys);
    lemma_loop_steps(steps, rest, target, 0, empty);
    assert(spec_property_loop(rest, target, target, last) == Decoded::Done(last, 0nat));
    assert(spec_property_loop(entries + rest, target, 0, empty) == Decoded::Done(last, entries.len()));
    assert(empty.properties.union_prefer_right(scalars_among(m, keys)) =~= scalars_among(m, keys));
    assert(empty.users + users_among(m, keys) =~= users_among(m, keys));
    assert(empty.ids + ids_among(m, keys) =~= ids_among(m, keys));
    lemma_finish_is_model(p, keys, last);
}

} // verus!
