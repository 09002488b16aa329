//! Property lists read from a byte slice: each value borrows its strings and
//! binary data from the input.
use vstd::prelude::*;
use std::collections::HashMap;
use crate::borrowed::{answers, Outcome, ParseError};
use crate::borrowed::primitives::{
    be_u16, be_u32, be_u8, lemma_high_run, read_bytes, read_string, read_variable_bytes, spec_be_u16,
    spec_be_u32, spec_be_u8, spec_read_bytes, spec_read_string, spec_take, spec_vbi, take,
};

verus! {

broadcast use vstd::std_specs::hash::group_hash_axioms;

/// The value of one property, borrowing from the input.
#[derive(Debug, PartialEq, Eq)]
pub enum PropertyValue<'a> {
    Bit(bool),
    Byte(u8),
    TwoByteInteger(u16),
    FourByteInteger(u32),
    String(&'a str),
    VariableByteInteger(usize),
    Binary(&'a [u8]),
    StringPair(&'a str, &'a str),
    Multiple(Vec<PropertyValue<'a>>),
}

/// A [`PropertyValue`] with its strings and bytes as sequences.
pub enum PropertyValueModel {
    Bit(bool),
    Byte(u8),
    TwoByteInteger(u16),
    FourByteInteger(u32),
    String(Seq<char>),
    VariableByteInteger(usize),
    Binary(Seq<u8>),
    StringPair(Seq<char>, Seq<char>),
    Multiple(Seq<PropertyValueModel>),
}

/// The model of a property value, nested values included.
pub open spec fn value_model<'a>(v: PropertyValue<'a>) -> PropertyValueModel
    decreases v,
{
    match v {
        PropertyValue::Bit(b) => PropertyValueModel::Bit(b),
        PropertyValue::Byte(b) => PropertyValueModel::Byte(b),
        PropertyValue::TwoByteInteger(x) => PropertyValueModel::TwoByteInteger(x),
        PropertyValue::FourByteInteger(x) => PropertyValueModel::FourByteInteger(x),
        PropertyValue::String(s) => PropertyValueModel::String(s@),
        PropertyValue::VariableByteInteger(x) => PropertyValueModel::VariableByteInteger(x),
        PropertyValue::Binary(b) => PropertyValueModel::Binary(b@),
        PropertyValue::StringPair(n, s) => PropertyValueModel::StringPair(n@, s@),
        PropertyValue::Multiple(values) => PropertyValueModel::Multiple(
            Seq::new(
                values@.len(),
                |i: int|
                    if 0 <= i < values@.len() {
                        value_model(values@[i])
                    } else {
                        PropertyValueModel::Bit(false)
                    },
            ),
        ),
    }
}

impl<'a> View for PropertyValue<'a> {
    type V = PropertyValueModel;

    open spec fn view(&self) -> PropertyValueModel {
        value_model(*self)
    }
}

/// A copy of `v`, nested values included.
fn clone_value<'a>(v: &PropertyValue<'a>) -> (r: PropertyValue<'a>)
    ensures
        r@ == v@,
    decreases v,
{
    match v {
        PropertyValue::Bit(b) => PropertyValue::Bit(*b),
        PropertyValue::Byte(b) => PropertyValue::Byte(*b),
        PropertyValue::TwoByteInteger(x) => PropertyValue::TwoByteInteger(*x),
        PropertyValue::FourByteInteger(x) => PropertyValue::FourByteInteger(*x),
        PropertyValue::String(s) => PropertyValue::String(*s),
        PropertyValue::VariableByteInteger(x) => PropertyValue::VariableByteInteger(*x),
        PropertyValue::Binary(b) => PropertyValue::Binary(*b),
        PropertyValue::StringPair(n, s) => PropertyValue::StringPair(*n, *s),
        PropertyValue::Multiple(values) => {
            assert forall|j: int| 0 <= j < values@.len() implies decreases_to!(*v => #[trigger] values@[j]) by {
                assert(decreases_to!(*v => *values));
                assert(decreases_to!(*values => values@));
                assert(decreases_to!(values@ => values@[j]));
            }
            let mut out: Vec<PropertyValue<'a>> = Vec::new();
            for i in 0..values.len()
                invariant
                    out@.len() == i,
                    forall|j: int| 0 <= j < i ==> (#[trigger] out@[j])@ == values@[j]@,
                    forall|j: int| 0 <= j < values@.len() ==> decreases_to!(*v => #[trigger] values@[j]),
            {
                let item = clone_value(&values[i]);
                out.push(item);
            }
            let r = PropertyValue::Multiple(out);
            assert(value_model(r) == value_model(*v)) by {
                assert(value_model(r)->Multiple_0 =~= value_model(*v)->Multiple_0);
            }
            r
        },
    }
}

impl<'a> Clone for PropertyValue<'a> {
    fn clone(&self) -> (r: Self)
        ensures
            r@ == self@,
    {
        clone_value(self)
    }
}

/// The models of a sequence of values.
pub open spec fn values_model<'a>(vs: Seq<PropertyValue<'a>>) -> Seq<PropertyValueModel> {
    vs.map_values(|v: PropertyValue<'a>| v@)
}

/// A property list: its length in bytes and the properties by identifier.
/// Subscription identifiers (`0x0B`) and user properties (`0x26`) may come
/// more than once: each is kept as a `Multiple` of its values, in order.
#[derive(Debug, Clone, PartialEq, Eq)]
pub struct Mqtt5Property<'a> {
    pub property_length: usize,
    pub properties: HashMap<u32, PropertyValue<'a>>,
}

/// A [`Mqtt5Property`] with its values as models.
pub struct Mqtt5PropertyModel {
    pub property_length: usize,
    pub properties: Map<u32, PropertyValueModel>,
}

/// The models of the values of a property map.
pub open spec fn map_model<'a>(m: Map<u32, PropertyValue<'a>>) -> Map<u32, PropertyValueModel> {
    m.map_values(|v: PropertyValue<'a>| v@)
}

impl<'a> View for Mqtt5Property<'a> {
    type V = Mqtt5PropertyModel;

    open spec fn view(&self) -> Mqtt5PropertyModel {
        Mqtt5PropertyModel { property_length: self.property_length, properties: map_model(self.properties@) }
    }
}

impl<'a> Mqtt5Property<'a> {
    /// An empty property list of length zero.
    pub fn new() -> (p: Self)
        ensures
            p@.property_length == 0,
            p@.properties == Map::<u32, PropertyValueModel>::empty(),
    {
        let p = Mqtt5Property { property_length: 0, properties: HashMap::new() };
        assert(map_model(p.properties@) =~= Map::<u32, PropertyValueModel>::empty());
        p
    }
}

/// The outcome of `o` with its value passed through `f`.
pub open spec fn map_outcome<A, B>(o: Outcome<A>, f: spec_fn(A) -> B) -> Outcome<B> {
    match o {
        Outcome::Parsed(v, n) => Outcome::Parsed(f(v), n),
        Outcome::Rejected => Outcome::Rejected,
        Outcome::Stuck => Outcome::Stuck,
    }
}

/// Reading the value of property `id` (its identifier already taken).
pub open spec fn spec_property_body(id: u8, r: Seq<u8>) -> Outcome<PropertyValueModel> {
    if id == 0x01 || id == 0x17 || id == 0x19 {
        map_outcome(spec_be_u8(r), |b: u8| PropertyValueModel::Bit(b & 0x01 == 1))
    } else if id == 0x02 || id == 0x11 || id == 0x18 || id == 0x27 {
        map_outcome(spec_be_u32(r), |x: u32| PropertyValueModel::FourByteInteger(x))
    } else if id == 0x03 || id == 0x08 || id == 0x12 || id == 0x15 || id == 0x1A || id == 0x1C || id == 0x1F {
        map_outcome(spec_read_string(r), |s: Seq<char>| PropertyValueModel::String(s))
    } else if id == 0x09 || id == 0x16 {
        map_outcome(spec_read_bytes(r), |b: Seq<u8>| PropertyValueModel::Binary(b))
    } else if id == 0x0B {
        match spec_vbi(r) {
            Outcome::Parsed((v, _), n) => if v == 0 {
                Outcome::Rejected
            } else {
                Outcome::Parsed(PropertyValueModel::VariableByteInteger(v), n)
            },
            Outcome::Rejected => Outcome::Rejected,
            Outcome::Stuck => Outcome::Stuck,
        }
    } else if id == 0x13 || id == 0x21 || id == 0x22 || id == 0x23 {
        map_outcome(spec_be_u16(r), |x: u16| PropertyValueModel::TwoByteInteger(x))
    } else if id == 0x24 || id == 0x25 || id == 0x28 || id == 0x29 || id == 0x2A {
        map_outcome(spec_be_u8(r), |b: u8| PropertyValueModel::Byte(b))
    } else if id == 0x26 {
        match spec_read_string(r) {
            Outcome::Parsed(name, n1) => match spec_read_string(r.skip(n1 as int)) {
                Outcome::Parsed(value, n2) => Outcome::Parsed(PropertyValueModel::StringPair(name, value), n1 + n2),
                _ => Outcome::Rejected,
            },
            _ => Outcome::Rejected,
        }
    } else {
        Outcome::Rejected
    }
}

/// Payload Format Indicator (0x01), Request Problem Information (0x17) and
/// Request Response Information (0x19) read their one value byte as a flag
/// that is true exactly when the byte is odd; nothing else is taken.
pub proof fn lemma_flag_property_body(id: u8, r: Seq<u8>)
    requires
        id == 0x01 || id == 0x17 || id == 0x19,
        r.len() >= 1,
    ensures
        spec_property_body(id, r) == Outcome::Parsed(PropertyValueModel::Bit(r[0] % 2 == 1), 1),
{
    let b = r[0];
    assert((b & 0x01 == 1) == (b % 2 == 1)) by (bit_vector);
}

/// Reading one property: its identifier byte, then its value.
pub open spec fn spec_property_value(s: Seq<u8>) -> Outcome<(usize, PropertyValueModel)> {
    if s.len() < 1 {
        Outcome::Rejected
    } else {
        match spec_property_body(s[0], s.skip(1)) {
            Outcome::Parsed(v, n) => Outcome::Parsed((s[0] as usize, v), n + 1),
            Outcome::Rejected => Outcome::Rejected,
            Outcome::Stuck => Outcome::Stuck,
        }
    }
}

/// A read that returns takes at least one byte and no more than there are.
pub proof fn lemma_property_value_len(s: Seq<u8>)
    ensures
        spec_property_value(s) matches Outcome::Parsed(_, n) ==> 1 <= n <= s.len(),
{
    if s.len() >= 1 {
        let r = s.skip(1);
        lemma_high_run(r);
    }
}

/// The properties gathered so far: the map of single properties, the
/// subscription identifiers and the user properties.
pub type Gathered = (Map<u32, PropertyValueModel>, Seq<PropertyValueModel>, Seq<PropertyValueModel>);

/// Adding the property `id` with value `v` to what has been gathered.
pub open spec fn gather(acc: Gathered, id: usize, v: PropertyValueModel) -> Gathered {
    if id == 0x0B {
        (acc.0, acc.1.push(v), acc.2)
    } else if id == 0x26 {
        (acc.0, acc.1, acc.2.push(v))
    } else {
        (acc.0.insert(id as u32, v), acc.1, acc.2)
    }
}

/// Reading properties until `body` is used up, starting from `acc`; `None`
/// where a property cannot be read, on which the reader never returns.
pub open spec fn gather_all(body: Seq<u8>, acc: Gathered) -> Option<Gathered>
    decreases body.len(),
{
    if body.len() == 0 {
        Some(acc)
    } else {
        match spec_property_value(body) {
            Outcome::Parsed((id, v), n) => if 1 <= n <= body.len() {
                gather_all(body.skip(n as int), gather(acc, id, v))
            } else {
                None
            },
            _ => None,
        }
    }
}

/// The property map once the repeated properties are added: each kind that
/// came at least once, as a `Multiple` of its values in order.
pub open spec fn finish(acc: Gathered) -> Map<u32, PropertyValueModel> {
    let m1 = if acc.1.len() > 0 { acc.0.insert(0x0B, PropertyValueModel::Multiple(acc.1)) } else { acc.0 };
    if acc.2.len() > 0 { m1.insert(0x26, PropertyValueModel::Multiple(acc.2)) } else { m1 }
}

/// Reading a property list: its length as a variable byte integer, then
/// that many bytes of properties.
pub open spec fn spec_mqtt5_property(s: Seq<u8>) -> Outcome<Mqtt5PropertyModel> {
    match spec_vbi(s) {
        Outcome::Parsed((len, _), k) => match spec_take(s.skip(k as int), len as nat) {
            Outcome::Parsed(body, _) => match gather_all(body, (Map::empty(), Seq::empty(), Seq::empty())) {
                Some(acc) => Outcome::Parsed(
                    Mqtt5PropertyModel { property_length: len, properties: finish(acc) },
                    k + len as nat,
                ),
                None => Outcome::Stuck,
            },
            _ => Outcome::Rejected,
        },
        Outcome::Rejected => Outcome::Rejected,
        Outcome::Stuck => Outcome::Stuck,
    }
}

/// Reads one property: its identifier byte, then its value, whose kind the
/// identifier fixes. An unknown identifier, or a subscription identifier
/// of zero, is an error.
pub fn property_value<'a>(input: &'a [u8]) -> (res: Result<(&'a [u8], (usize, PropertyValue<'a>)), ParseError>)
    requires
        !spec_property_value(input@).stuck(),
    ensures
        answers(spec_property_value(input@), input@, res),
{
    let (input1, id) = be_u8(input)?;
    assert(input1@ == input@.skip(1));
    let ghost r = input@.skip(1);
    let (rest, value) = if id == 0x01 || id == 0x17 || id == 0x19 {
        let (rest, b) = be_u8(input1)?;
        (rest, PropertyValue::Bit(b & 0x01 == 1))
    } else if id == 0x02 || id == 0x11 || id == 0x18 || id == 0x27 {
        let (rest, x) = be_u32(input1)?;
        (rest, PropertyValue::FourByteInteger(x))
    } else if id == 0x03 || id == 0x08 || id == 0x12 || id == 0x15 || id == 0x1A || id == 0x1C || id == 0x1F {
        let (rest, s) = read_string(input1)?;
        (rest, PropertyValue::String(s))
    } else if id == 0x09 || id == 0x16 {
        let (rest, b) = read_bytes(input1)?;
        (rest, PropertyValue::Binary(b))
    } else if id == 0x0B {
        let (rest, (v, _)) = read_variable_bytes(input1)?;
        if v == 0 {
            return Err(ParseError);
        }
        (rest, PropertyValue::VariableByteInteger(v))
    } else if id == 0x13 || id == 0x21 || id == 0x22 || id == 0x23 {
        let (rest, x) = be_u16(input1)?;
        (rest, PropertyValue::TwoByteInteger(x))
    } else if id == 0x24 || id == 0x25 || id == 0x28 || id == 0x29 || id == 0x2A {
        let (rest, b) = be_u8(input1)?;
        (rest, PropertyValue::Byte(b))
    } else if id == 0x26 {
        let (rest1, name) = read_string(input1)?;
        let (rest, value) = read_string(rest1)?;
        proof {
            let n1 = (r.len() - rest1@.len()) as nat;
            assert(r.skip(n1 as int) == rest1@);
        }
        (rest, PropertyValue::StringPair(name, value))
    } else {
        return Err(ParseError);
    };
    proof {
        if let Outcome::Parsed(v, n) = spec_property_body(id, r) {
            assert(rest@ == r.skip(n as int));
            assert(rest@ == input@.skip(n + 1 as int));
        }
    }
    Ok((rest, (id as usize, value)))
}

/// The model of a `Multiple` is the sequence of the models of its values.
proof fn lemma_multiple_model<'a>(vs: Vec<PropertyValue<'a>>)
    ensures
        PropertyValue::Multiple(vs)@ == PropertyValueModel::Multiple(values_model(vs@)),
{
    assert(value_model(PropertyValue::Multiple(vs))->Multiple_0 =~= values_model(vs@));
}

/// What the maps, vectors and models of the loop in `mqtt5_property` hold.
spec fn gathered_model<'a>(
    m: HashMap<u32, PropertyValue<'a>>,
    subs: Vec<PropertyValue<'a>>,
    users: Vec<PropertyValue<'a>>,
) -> Gathered {
    (map_model(m@), values_model(subs@), values_model(users@))
}

/// Reads a property list: its length as a variable byte integer, then that
/// many bytes of properties. A later property replaces an earlier one with
/// the same identifier, except subscription identifiers and user
/// properties, which are gathered in order. A property that cannot be read
/// stops the list from ever ending, so `requires` leaves such input out.
pub fn mqtt5_property<'a>(input: &'a [u8]) -> (res: Result<(&'a [u8], Mqtt5Property<'a>), ParseError>)
    requires
        !spec_mqtt5_property(input@).stuck(),
    ensures
        answers(spec_mqtt5_property(input@), input@, res),
{
    let (input1, (property_length, _)) = read_variable_bytes(input)?;
    let ghost k = (input@.len() - input1@.len()) as nat;
    let (next_input, body) = take(input1, property_length)?;
    let ghost init: Gathered = (Map::empty(), Seq::empty(), Seq::empty());
    let mut property_input = body;
    let mut properties: HashMap<u32, PropertyValue<'a>> = HashMap::new();
    let mut subscription_identifiers: Vec<PropertyValue<'a>> = Vec::new();
    let mut user_properties: Vec<PropertyValue<'a>> = Vec::new();
    proof {
        assert(map_model(properties@) =~= Map::<u32, PropertyValueModel>::empty());
        assert(values_model(subscription_identifiers@) =~= Seq::<PropertyValueModel>::empty());
        assert(values_model(user_properties@) =~= Seq::<PropertyValueModel>::empty());
    }
    while property_input.len() > 0
        invariant
            gather_all(body@, init) is Some,
            gather_all(property_input@, gathered_model(properties, subscription_identifiers, user_properties))
                == gather_all(body@, init),
        decreases property_input@.len(),
    {
        let ghost acc = gathered_model(properties, subscription_identifiers, user_properties);
        proof {
            lemma_property_value_len(property_input@);
        }
        let (next, (property_id, value)) = property_value(property_input)?;
        let ghost n = (property_input@.len() - next@.len()) as nat;
        proof {
            assert(next@ == property_input@.skip(n as int));
        }
        if property_id == 0x0B {
            subscription_identifiers.push(value);
            proof {
                assert(values_model(subscription_identifiers@) =~= acc.1.push(value@));
            }
        } else if property_id == 0x26 {
            user_properties.push(value);
            proof {
                assert(values_model(user_properties@) =~= acc.2.push(value@));
            }
        } else {
            properties.insert(property_id as u32, value);
            proof {
                assert(map_model(properties@) =~= acc.0.insert(property_id as u32, value@));
            }
        }
        property_input = next;
    }
    let ghost acc = gathered_model(properties, subscription_identifiers, user_properties);
    assert(gather_all(property_input@, acc) == Some(acc));
    proof {
        lemma_multiple_model(subscription_identifiers);
        lemma_multiple_model(user_properties);
    }
    let ghost m1 = if acc.1.len() > 0 { acc.0.insert(0x0B, PropertyValueModel::Multiple(acc.1)) } else { acc.0 };
    if subscription_identifiers.len() > 0 {
        properties.insert(0x0B, PropertyValue::Multiple(subscription_identifiers));
    }
    assert(map_model(properties@) =~= m1);
    if user_properties.len() > 0 {
        properties.insert(0x26, PropertyValue::Multiple(user_properties));
    }
    assert(map_model(properties@) =~= finish(acc));
    proof {
        assert(next_input@ == input@.skip(k + property_length as int));
    }
    Ok((next_input, Mqtt5Property { property_length, properties }))
}

} // verus!
