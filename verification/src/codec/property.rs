//! MQTT 5 properties: the identifier/value list carried by most packets.
use vstd::prelude::*;
use bytes::{Bytes, BytesMut};
use std::collections::HashMap;
use crate::codec::buffer::{
    be_u16_at, be_u32_at, buf_contents, buf_get_u16, buf_get_u32, buf_get_u8, buf_len,
    buf_split_to, bytes_contents,
};
use crate::codec::error::{Decoded, Error, ErrorModel};
use crate::codec::{
    protocol_error, read_string, read_variable_bytes, FromToBuf, spec_read_string_expect, spec_read_varint,
    spec_read_bytes, FromToU8,
};
use vstd::utf8::{decode_utf8, encode_utf8};
use crate::codec::property_encode::{property_encoding, property_writable};

verus! {

broadcast use vstd::std_specs::hash::group_hash_axioms;

/// A property list: its declared length in bytes, the properties by
/// identifier, and a length the codec leaves at zero.
#[derive(Debug, Clone, PartialEq, Eq)]
pub struct Mqtt5Property {
    pub property_length: usize,
    pub properties: HashMap<u32, PropertyValue>,
    pub append_length: usize,
}

/// The value of one property.
#[derive(Debug, PartialEq, Eq)]
pub enum PropertyValue {
    Bit(bool),
    Byte(u8),
    TwoByteInteger(u16),
    FourByteInteger(u32),
    String(String),
    VariableByteInteger(usize),
    Binary(Bytes),
    StringPair(Vec<(String, String)>),
    Multiple(Vec<PropertyValue>),
}

/// A copy of `v`, nested values included.
fn clone_property_value(v: &PropertyValue) -> (r: PropertyValue)
    ensures
        r@ == v@,
    decreases v,
{
    match v {
        PropertyValue::Bit(b) => PropertyValue::Bit(*b),
        PropertyValue::Byte(b) => PropertyValue::Byte(*b),
        PropertyValue::TwoByteInteger(x) => PropertyValue::TwoByteInteger(*x),
        PropertyValue::FourByteInteger(x) => PropertyValue::FourByteInteger(*x),
        PropertyValue::String(s) => PropertyValue::String(s.clone()),
        PropertyValue::VariableByteInteger(x) => PropertyValue::VariableByteInteger(*x),
        PropertyValue::Binary(b) => PropertyValue::Binary(b.clone()),
        PropertyValue::StringPair(pairs) => {
            let mut out: Vec<(String, String)> = Vec::new();
            for i in 0..pairs.len()
                invariant
                    out@.len() == i,
                    forall|j: int| 0 <= j < i ==> (#[trigger] out@[j]).0@ == pairs@[j].0@ && out@[j].1@ == pairs@[j].1@,
            {
                out.push((pairs[i].0.clone(), pairs[i].1.clone()));
            }
            assert(string_pairs_model(out@) =~= string_pairs_model(pairs@));
            PropertyValue::StringPair(out)
        },
        PropertyValue::Multiple(values) => {
            assert forall|j: int| 0 <= j < values@.len() implies decreases_to!(*v => #[trigger] values@[j]) by {
                assert(decreases_to!(*v => *values));
                assert(decreases_to!(*values => values@));
                assert(decreases_to!(values@ => values@[j]));
            }
            let mut out: Vec<PropertyValue> = Vec::new();
            for i in 0..values.len()
                invariant
                    out@.len() == i,
                    forall|j: int| 0 <= j < i ==> (#[trigger] out@[j])@ == values@[j]@,
                    forall|j: int| 0 <= j < values@.len() ==> decreases_to!(*v => #[trigger] values@[j]),
            {
                let item = clone_property_value(&values[i]);
                out.push(item);
            }
            let r = PropertyValue::Multiple(out);
            assert(property_value_model(r) == property_value_model(*v)) by {
                assert(property_value_model(r)->Multiple_0 =~= property_value_model(*v)->Multiple_0);
            }
            r
        },
    }
}

impl Clone for PropertyValue {
    fn clone(&self) -> (r: Self)
        ensures
            r@ == self@,
    {
        clone_property_value(self)
    }
}

/// A [`PropertyValue`] with its strings and bytes as sequences.
pub enum PropertyValueModel {
    Bit(bool),
    Byte(u8),
    TwoByteInteger(u16),
    FourByteInteger(u32),
    String(Seq<char>),
    VariableByteInteger(usize),
    Binary(Seq<u8>),
    StringPair(Seq<(Seq<char>, Seq<char>)>),
    Multiple(Seq<PropertyValueModel>),
}

/// The model of a property value, nested values included.
pub open spec fn property_value_model(v: PropertyValue) -> PropertyValueModel
    decreases v,
{
    match v {
        PropertyValue::Bit(b) => PropertyValueModel::Bit(b),
        PropertyValue::Byte(b) => PropertyValueModel::Byte(b),
        PropertyValue::TwoByteInteger(x) => PropertyValueModel::TwoByteInteger(x),
        PropertyValue::FourByteInteger(x) => PropertyValueModel::FourByteInteger(x),
        PropertyValue::String(s) => PropertyValueModel::String(s@),
        PropertyValue::VariableByteInteger(x) => PropertyValueModel::VariableByteInteger(x),
        PropertyValue::Binary(b) => PropertyValueModel::Binary(bytes_contents(b)),
        PropertyValue::StringPair(pairs) => PropertyValueModel::StringPair(string_pairs_model(pairs@)),
        PropertyValue::Multiple(values) => PropertyValueModel::Multiple(
            Seq::new(
                values@.len(),
                |i: int|
                    if 0 <= i < values@.len() {
                        property_value_model(values@[i])
                    } else {
                        PropertyValueModel::Bit(false)
                    },
            ),
        ),
    }
}

/// The pairs of a user property list as character sequences.
pub open spec fn string_pairs_model(pairs: Seq<(String, String)>) -> Seq<(Seq<char>, Seq<char>)> {
    pairs.map_values(|p: (String, String)| (p.0@, p.1@))
}

impl View for PropertyValue {
    type V = PropertyValueModel;

    open spec fn view(&self) -> PropertyValueModel {
        property_value_model(*self)
    }
}

/// A [`Mqtt5Property`] with its values as models.
pub struct Mqtt5PropertyModel {
    pub property_length: usize,
    pub properties: Map<u32, PropertyValueModel>,
    pub append_length: usize,
}

/// The models of the values of a property map.
pub open spec fn properties_model(m: Map<u32, PropertyValue>) -> Map<u32, PropertyValueModel> {
    m.map_values(|v: PropertyValue| v@)
}

impl View for Mqtt5Property {
    type V = Mqtt5PropertyModel;

    open spec fn view(&self) -> Mqtt5PropertyModel {
        Mqtt5PropertyModel {
            property_length: self.property_length,
            properties: properties_model(self.properties@),
            append_length: self.append_length,
        }
    }
}

/// What one decoded property contributes.
pub enum PropertyStepModel {
    /// A property stored under its identifier.
    Put(u32, PropertyValueModel),
    /// A user property (name, value).
    User(Seq<char>, Seq<char>),
    /// A subscription identifier.
    SubscriptionId(usize),
}

enum PropertyStep {
    Put(u32, PropertyValue),
    User(String, String),
    SubscriptionId(usize),
}

impl View for PropertyStep {
    type V = PropertyStepModel;

    closed spec fn view(&self) -> PropertyStepModel {
        match self {
            PropertyStep::Put(k, v) => PropertyStepModel::Put(*k, v@),
            PropertyStep::User(n, v) => PropertyStepModel::User(n@, v@),
            PropertyStep::SubscriptionId(v) => PropertyStepModel::SubscriptionId(*v),
        }
    }
}

/// The error for a property identifier that may not appear again, or whose
/// value is out of range.
pub open spec fn property_error(code: u8) -> ErrorModel {
    ErrorModel::InvalidProtocol(
        if code == 0x01 || code == 0x18 {
            if code == 0x01 {
                "Cannot contains [Payload Format Indicator] more than once"@
            } else {
                "Will properties cannot contains [Will Delay Interval] more than once"@
            }
        } else if code == 0x02 {
            "Cannot contains [Message Expiry Interval] more than once"@
        } else if code == 0x03 {
            "Cannot contains [Content Type] more than once"@
        } else if code == 0x08 {
            "Cannot contains [Response Topic] more than once"@
        } else if code == 0x09 {
            "Cannot contains [Correlation Data] more than once"@
        } else if code == 0x0B {
            "The value of Subscription Identifier can not be zero"@
        } else if code == 0x11 {
            "Cannot contains [Session Expire Interval] more than once"@
        } else if code == 0x12 {
            "Cannot contains [Assigned Client Identifier] more than once"@
        } else if code == 0x13 {
            "Cannot contains [Server Keep Alive] more than once"@
        } else if code == 0x15 {
            "Cannot contains [Authentication Method] more than once"@
        } else if code == 0x16 {
            "Cannot contains [Authentication Data] more than once"@
        } else if code == 0x17 {
            "Cannot contains [Request Problem Information] more than once or to have a value other than 0 or 1"@
        } else if code == 0x19 {
            "Cannot contains [Request Response Information] more than once or to have a value other than 0 or 1"@
        } else if code == 0x1A {
            "Cannot contains [Response Information] more than once"@
        } else if code == 0x1C {
            "Cannot contains [Server Reference] more than once"@
        } else if code == 0x1F {
            "Cannot contains [Reason String] more than once or for it have the value 0"@
        } else if code == 0x21 {
            "Cannot contains [Receive Maximum] more than once or for it have the value 0"@
        } else if code == 0x22 {
            "Cannot contains [Topic Alias Maximum] more than once"@
        } else if code == 0x23 {
            "Cannot contains [Topic Alias] more than once"@
        } else if code == 0x24 {
            "Cannot contains [Maximum Qos] more than once"@
        } else if code == 0x25 {
            "Cannot contains [Retain Available] more than once"@
        } else if code == 0x27 {
            "Cannot contains [Maximum Packet Size] more than once"@
        } else if code == 0x28 {
            "Cannot contains [Wildcard Subscription Available] more than once or for it have the value 0 or 1"@
        } else if code == 0x29 {
            "Cannot contains [Subscription Identifiers Available] more than once or for it have the value 0 or 1"@
        } else {
            "Cannot contains [Shared Subscription Available] more than once or for it have the value 0 or 1"@
        },
        if code == 0x01 { 0x18 } else { code },
    )
}

/// The error for a flag property whose byte is neither 0 nor 1.
pub open spec fn property_range_error(code: u8) -> ErrorModel {
    ErrorModel::InvalidProtocol(
        if code == 0x24 {
            "Maximum Qos cannot have a value other than 0 or 1"@
        } else if code == 0x25 {
            "Retain Available cannot have a value other than 0 or 1"@
        } else if code == 0x28 {
            "Wildcard Subscription Available cannot have a value other than 0 or 1"@
        } else if code == 0x29 {
            "Subscription Identifiers Available cannot have a value other than 0 or 1"@
        } else {
            "Shared Subscription Available cannot have a value other than 0 or 1"@
        },
        code,
    )
}

/// The error for an identifier that names no property.
pub open spec fn unknown_property_error() -> ErrorModel {
    ErrorModel::InvalidPropertyType("It's a invalid Property Type"@)
}

/// Decoding a value of `width` bytes (1, 2 or 4) at the front of `r`.
pub open spec fn spec_fixed(r: Seq<u8>, id: u32, width: nat) -> Decoded<(PropertyStepModel, nat)> {
    if r.len() < width {
        Decoded::Panic
    } else {
        let v = if width == 1 {
            PropertyValueModel::Byte(r[0])
        } else if width == 2 {
            PropertyValueModel::TwoByteInteger(be_u16_at(r, 0))
        } else {
            PropertyValueModel::FourByteInteger(be_u32_at(r, 0))
        };
        Decoded::Done((PropertyStepModel::Put(id, v), width), width)
    }
}

/// Decoding a string property value at the front of `r`.
pub open spec fn spec_string_value(r: Seq<u8>, id: u32) -> Decoded<(PropertyStepModel, nat)> {
    match spec_read_string_expect(r) {
        Decoded::Done(s, n) => Decoded::Done((PropertyStepModel::Put(id, PropertyValueModel::String(s)), n), n),
        _ => Decoded::Panic,
    }
}

/// Decoding a binary property value at the front of `r`; the count it adds
/// to the property length leaves out the two length bytes.
pub open spec fn spec_binary_value(r: Seq<u8>, id: u32) -> Decoded<(PropertyStepModel, nat)> {
    if r.len() < 2 || be_u16_at(r, 0) > r.len() - 2 {
        Decoded::Panic
    } else {
        let n = be_u16_at(r, 0) as nat;
        Decoded::Done(
            (PropertyStepModel::Put(id, PropertyValueModel::Binary(r.subrange(2, 2 + n as int))), n),
            2 + n,
        )
    }
}

/// Decoding a 0-or-1 flag byte whose duplicate is detected before reading.
pub open spec fn spec_flag_byte(r: Seq<u8>, dom: Set<u32>, id: u32, dup_key: u32) -> Decoded<(PropertyStepModel, nat)> {
    if dom.contains(dup_key) {
        Decoded::Fail(property_error(id as u8), 0)
    } else if r.len() < 1 {
        Decoded::Panic
    } else if r[0] != 0 && r[0] != 1 {
        Decoded::Fail(property_range_error(id as u8), 1)
    } else {
        Decoded::Done((PropertyStepModel::Put(id, PropertyValueModel::Byte(r[0])), 1), 1)
    }
}

/// Decoding the value of property `id` at the front of `r`, given the
/// identifiers already stored; the result holds what the property
/// contributes and the count it adds to the property length, and the bytes
/// it takes.
pub open spec fn spec_property_value(id: nat, r: Seq<u8>, dom: Set<u32>) -> Decoded<(PropertyStepModel, nat)> {
    let dup = dom.contains(id as u32);
    if id == 0x01 {
        if dup {
            Decoded::Fail(property_error(0x01), 0)
        } else if r.len() < 1 {
            Decoded::Panic
        } else {
            Decoded::Done((PropertyStepModel::Put(0x01, PropertyValueModel::Bit(r[0] & 0x01 == 1)), 1), 1)
        }
    } else if id == 0x02 || id == 0x11 || id == 0x18 {
        if dup { Decoded::Fail(property_error(id as u8), 0) } else { spec_fixed(r, id as u32, 4) }
    } else if id == 0x13 || id == 0x22 || id == 0x23 {
        if dup { Decoded::Fail(property_error(id as u8), 0) } else { spec_fixed(r, id as u32, 2) }
    } else if id == 0x03 || id == 0x08 || id == 0x12 || id == 0x15 || id == 0x1A || id == 0x1C || id == 0x1F {
        if dup { Decoded::Fail(property_error(id as u8), 0) } else { spec_string_value(r, id as u32) }
    } else if id == 0x09 || id == 0x16 {
        if dup { Decoded::Fail(property_error(id as u8), 0) } else { spec_binary_value(r, id as u32) }
    } else if id == 0x0B {
        match spec_read_varint(r) {
            None => Decoded::Panic,
            Some((v, n)) => if v == 0 {
                Decoded::Fail(property_error(0x0B), n)
            } else {
                Decoded::Done((PropertyStepModel::SubscriptionId(v as usize), n), n)
            },
        }
    } else if id == 0x17 || id == 0x19 {
        if r.len() < 1 {
            Decoded::Panic
        } else if dup || (r[0] != 0 && r[0] != 1) {
            Decoded::Fail(property_error(id as u8), 1)
        } else {
            Decoded::Done((PropertyStepModel::Put(id as u32, PropertyValueModel::Bit(r[0] & 0x01 == 1)), 1), 1)
        }
    } else if id == 0x21 {
        if r.len() < 2 {
            Decoded::Panic
        } else if dup || be_u16_at(r, 0) == 0 {
            Decoded::Fail(property_error(0x21), 2)
        } else {
            spec_fixed(r, 0x21, 2)
        }
    } else if id == 0x27 {
        if r.len() < 4 {
            Decoded::Panic
        } else if dup || be_u32_at(r, 0) == 0 {
            Decoded::Fail(property_error(0x27), 4)
        } else {
            spec_fixed(r, 0x27, 4)
        }
    } else if id == 0x24 || id == 0x25 || id == 0x28 || id == 0x29 {
        spec_flag_byte(r, dom, id as u32, id as u32)
    } else if id == 0x2A {
        spec_flag_byte(r, dom, 0x2A, 0x29)
    } else if id == 0x26 {
        match spec_read_string_expect(r) {
            Decoded::Done(name, n1) => match spec_read_string_expect(r.skip(n1 as int)) {
                Decoded::Done(value, n2) => Decoded::Done((PropertyStepModel::User(name, value), n1 + n2), n1 + n2),
                _ => Decoded::Panic,
            },
            _ => Decoded::Panic,
        }
    } else {
        Decoded::Fail(unknown_property_error(), 0)
    }
}

/// Flag properties read as their value byte: Payload Format Indicator
/// (0x01) not stored before is true exactly when the byte is odd, and
/// Request Problem Information (0x17) or Request Response Information (0x19)
/// not stored before, with a byte of 0 or 1, is true exactly when the byte
/// is 1; each takes the one byte and counts one.
pub proof fn lemma_flag_property_values(id: nat, r: Seq<u8>, dom: Set<u32>)
    requires
        r.len() >= 1,
        !dom.contains(id as u32),
    ensures
        id == 0x01 ==> spec_property_value(id, r, dom) == Decoded::Done(
            (PropertyStepModel::Put(0x01, PropertyValueModel::Bit(r[0] % 2 == 1)), 1nat),
            1,
        ),
        (id == 0x17 || id == 0x19) && (r[0] == 0 || r[0] == 1) ==> spec_property_value(id, r, dom)
            == Decoded::Done((PropertyStepModel::Put(id as u32, PropertyValueModel::Bit(r[0] == 1)), 1nat), 1),
{
    let b = r[0];
    assert((b & 0x01 == 1) == (b % 2 == 1)) by (bit_vector);
}

/// Decoding one property (identifier, then value) at the front of `s`.
pub open spec fn spec_property_entry(s: Seq<u8>, dom: Set<u32>) -> Decoded<(PropertyStepModel, nat)> {
    match spec_read_varint(s) {
        None => Decoded::Panic,
        Some((id, k)) => match spec_property_value(id, s.skip(k as int), dom) {
            Decoded::Done((step, c), n) => Decoded::Done((step, k + c), k + n),
            Decoded::Fail(e, n) => Decoded::Fail(e, k + n),
            Decoded::Panic => Decoded::Panic,
        },
    }
}

/// The bounds on a length-prefixed string at the front of `r`.
pub proof fn lemma_string_consumed(r: Seq<u8>)
    ensures
        spec_read_string_expect(r) matches Decoded::Done(s, n) ==> 2 <= n <= r.len()
            && encode_utf8(s).len() + 2 == n,
{
    if let Decoded::Done(data, n) = spec_read_bytes(r) {
        if vstd::utf8::valid_utf8(data) {
            vstd::utf8::decode_utf8_encode_utf8(data);
        }
    }
}

proof fn lemma_property_value_consumed(id: nat, r: Seq<u8>, dom: Set<u32>)
    ensures
        match spec_property_value(id, r, dom) {
            Decoded::Done((_, c), n) => c <= n <= r.len(),
            Decoded::Fail(_, n) => n <= r.len(),
            Decoded::Panic => true,
        },
{
    lemma_string_consumed(r);
    if let Decoded::Done(_, n1) = spec_read_string_expect(r) {
        lemma_string_consumed(r.skip(n1 as int));
    }
    crate::codec::lemma_read_varint_consumed(r);
}

/// The bounds on what decoding one property takes.
pub proof fn lemma_property_entry_consumed(s: Seq<u8>, dom: Set<u32>)
    ensures
        match spec_property_entry(s, dom) {
            Decoded::Done((_, c), n) => 1 <= n <= s.len() && c <= n,
            Decoded::Fail(_, n) => n <= s.len(),
            Decoded::Panic => true,
        },
{
    crate::codec::lemma_read_varint_consumed(s);
    if let Some((id, k)) = spec_read_varint(s) {
        lemma_property_value_consumed(id, s.skip(k as int), dom);
    }
}

/// The identifiers of the MQTT 5 properties.
#[derive(Debug, Clone, Copy, PartialEq)]
pub enum PropertyType {
    PayloadFormatIndicator, 
    MessageExpiryInterval, 
    ContentType, 
    ResponseTopic, 
    CorrelationData, 
    SubscriptionIdentifier, 
    SessionExpiryInterval, 
    AssignedClientIdentifier, 
    ServerKeepAlive, 
    AuthenticationMethod, 
    AuthenticationData, 
    RequestProblemInformation, 
    WillDelayInterval, 
    RequestResponseInformation, 
    ResponseInformation, 
    ServerReference, 
    ReasonString, 
    ReceiveMaximum, 
    TopicAliasMaximum, 
    TopicAlias, 
    MaximumQos, 
    RetainAvailable, 
    UserProperty, 
    MaximumPacketSize, 
    WildcardSubscriptionAvailable, 
    SubscriptionIdentifierAvailable, 
    SharedSubscriptionAvailable,
}

/// The identifier of a property type.
pub open spec fn property_type_code(t: PropertyType) -> u8 {
    match t {
        PropertyType::PayloadFormatIndicator => 1,
        PropertyType::MessageExpiryInterval => 2,
        PropertyType::ContentType => 3,
        PropertyType::ResponseTopic => 8,
        PropertyType::CorrelationData => 9,
        PropertyType::SubscriptionIdentifier => 11,
        PropertyType::SessionExpiryInterval => 17,
        PropertyType::AssignedClientIdentifier => 18,
        PropertyType::ServerKeepAlive => 19,
        PropertyType::AuthenticationMethod => 21,
        PropertyType::AuthenticationData => 22,
        PropertyType::RequestProblemInformation => 23,
        PropertyType::WillDelayInterval => 24,
        PropertyType::RequestResponseInformation => 25,
        PropertyType::ResponseInformation => 26,
        PropertyType::ServerReference => 28,
        PropertyType::ReasonString => 31,
        PropertyType::ReceiveMaximum => 33,
        PropertyType::TopicAliasMaximum => 34,
        PropertyType::TopicAlias => 35,
        PropertyType::MaximumQos => 36,
        PropertyType::RetainAvailable => 37,
        PropertyType::UserProperty => 38,
        PropertyType::MaximumPacketSize => 39,
        PropertyType::WildcardSubscriptionAvailable => 40,
        PropertyType::SubscriptionIdentifierAvailable => 41,
        PropertyType::SharedSubscriptionAvailable => 42,
    }
}

/// The property type with identifier `byte`, if any.
pub open spec fn property_type_of(byte: u8) -> Option<PropertyType> {
        if byte == 1 { Some(PropertyType::PayloadFormatIndicator) } else        if byte == 2 { Some(PropertyType::MessageExpiryInterval) } else        if byte == 3 { Some(PropertyType::ContentType) } else        if byte == 8 { Some(PropertyType::ResponseTopic) } else        if byte == 9 { Some(PropertyType::CorrelationData) } else        if byte == 11 { Some(PropertyType::SubscriptionIdentifier) } else        if byte == 17 { Some(PropertyType::SessionExpiryInterval) } else        if byte == 18 { Some(PropertyType::AssignedClientIdentifier) } else        if byte == 19 { Some(PropertyType::ServerKeepAlive) } else        if byte == 21 { Some(PropertyType::AuthenticationMethod) } else        if byte == 22 { Some(PropertyType::AuthenticationData) } else        if byte == 23 { Some(PropertyType::RequestProblemInformation) } else        if byte == 24 { Some(PropertyType::WillDelayInterval) } else        if byte == 25 { Some(PropertyType::RequestResponseInformation) } else        if byte == 26 { Some(PropertyType::ResponseInformation) } else        if byte == 28 { Some(PropertyType::ServerReference) } else        if byte == 31 { Some(PropertyType::ReasonString) } else        if byte == 33 { Some(PropertyType::ReceiveMaximum) } else        if byte == 34 { Some(PropertyType::TopicAliasMaximum) } else        if byte == 35 { Some(PropertyType::TopicAlias) } else        if byte == 36 { Some(PropertyType::MaximumQos) } else        if byte == 37 { Some(PropertyType::RetainAvailable) } else        if byte == 38 { Some(PropertyType::UserProperty) } else        if byte == 39 { Some(PropertyType::MaximumPacketSize) } else        if byte == 40 { Some(PropertyType::WildcardSubscriptionAvailable) } else        if byte == 41 { Some(PropertyType::SubscriptionIdentifierAvailable) } else        if byte == 42 { Some(PropertyType::SharedSubscriptionAvailable) } else { None }
}

impl FromToU8<PropertyType> for PropertyType {
    fn to_u8(&self) -> (b: u8)
        ensures
            b == property_type_code(*self),
    {
        match *self {
            PropertyType::PayloadFormatIndicator => 1,
            PropertyType::MessageExpiryInterval => 2,
            PropertyType::ContentType => 3,
            PropertyType::ResponseTopic => 8,
            PropertyType::CorrelationData => 9,
            PropertyType::SubscriptionIdentifier => 11,
            PropertyType::SessionExpiryInterval => 17,
            PropertyType::AssignedClientIdentifier => 18,
            PropertyType::ServerKeepAlive => 19,
            PropertyType::AuthenticationMethod => 21,
            PropertyType::AuthenticationData => 22,
            PropertyType::RequestProblemInformation => 23,
            PropertyType::WillDelayInterval => 24,
            PropertyType::RequestResponseInformation => 25,
            PropertyType::ResponseInformation => 26,
            PropertyType::ServerReference => 28,
            PropertyType::ReasonString => 31,
            PropertyType::ReceiveMaximum => 33,
            PropertyType::TopicAliasMaximum => 34,
            PropertyType::TopicAlias => 35,
            PropertyType::MaximumQos => 36,
            PropertyType::RetainAvailable => 37,
            PropertyType::UserProperty => 38,
            PropertyType::MaximumPacketSize => 39,
            PropertyType::WildcardSubscriptionAvailable => 40,
            PropertyType::SubscriptionIdentifierAvailable => 41,
            PropertyType::SharedSubscriptionAvailable => 42,
        }
    }

    fn from_u8(byte: u8) -> (res: Result<PropertyType, Error>)
        ensures
            match property_type_of(byte) {
                Some(t) => res == Ok::<PropertyType, Error>(t),
                None => res matches Err(e) && e@ == unknown_property_error(),
            },
    {
        match byte {
            1 => Ok(PropertyType::PayloadFormatIndicator),
            2 => Ok(PropertyType::MessageExpiryInterval),
            3 => Ok(PropertyType::ContentType),
            8 => Ok(PropertyType::ResponseTopic),
            9 => Ok(PropertyType::CorrelationData),
            11 => Ok(PropertyType::SubscriptionIdentifier),
            17 => Ok(PropertyType::SessionExpiryInterval),
            18 => Ok(PropertyType::AssignedClientIdentifier),
            19 => Ok(PropertyType::ServerKeepAlive),
            21 => Ok(PropertyType::AuthenticationMethod),
            22 => Ok(PropertyType::AuthenticationData),
            23 => Ok(PropertyType::RequestProblemInformation),
            24 => Ok(PropertyType::WillDelayInterval),
            25 => Ok(PropertyType::RequestResponseInformation),
            26 => Ok(PropertyType::ResponseInformation),
            28 => Ok(PropertyType::ServerReference),
            31 => Ok(PropertyType::ReasonString),
            33 => Ok(PropertyType::ReceiveMaximum),
            34 => Ok(PropertyType::TopicAliasMaximum),
            35 => Ok(PropertyType::TopicAlias),
            36 => Ok(PropertyType::MaximumQos),
            37 => Ok(PropertyType::RetainAvailable),
            38 => Ok(PropertyType::UserProperty),
            39 => Ok(PropertyType::MaximumPacketSize),
            40 => Ok(PropertyType::WildcardSubscriptionAvailable),
            41 => Ok(PropertyType::SubscriptionIdentifierAvailable),
            42 => Ok(PropertyType::SharedSubscriptionAvailable),
            _ => Err(Error::InvalidPropertyType("It's a invalid Property Type".to_string())),
        }
    }
}

/// What the codec's decoder of a property value promises, given the outcome
/// its specification describes.
pub open spec fn step_result_matches(
    res: Result<(PropertyStepModel, usize), ErrorModel>,
    d: Decoded<(PropertyStepModel, nat)>,
) -> bool {
    match d {
        Decoded::Done((step, c), _) => res == Ok::<(PropertyStepModel, usize), ErrorModel>((step, c as usize)),
        Decoded::Fail(e, _) => res == Err::<(PropertyStepModel, usize), ErrorModel>(e),
        Decoded::Panic => false,
    }
}

/// The bytes a decoder consumed, as its specification describes.
pub open spec fn consumed<T>(d: Decoded<T>) -> nat {
    match d {
        Decoded::Done(_, n) => n,
        Decoded::Fail(_, n) => n,
        Decoded::Panic => 0,
    }
}

spec fn step_result_model(res: Result<(PropertyStep, usize), Error>) -> Result<(PropertyStepModel, usize), ErrorModel> {
    match res {
        Ok((step, c)) => Ok((step@, c)),
        Err(e) => Err(e@),
    }
}

/// Reads one fixed-width value (1, 2 or 4 bytes) of property `id`.
fn read_fixed(buf: &mut BytesMut, id: u32, width: usize) -> (res: Result<(PropertyStep, usize), Error>)
    requires
        width == 1 || width == 2 || width == 4,
        buf_contents(*old(buf)).len() >= width,
    ensures
        step_result_matches(step_result_model(res), spec_fixed(buf_contents(*old(buf)), id, width as nat)),
        buf_contents(*final(buf)) == buf_contents(*old(buf)).skip(width as int),
{
    if width == 1 {
        let b = buf_get_u8(buf);
        Ok((PropertyStep::Put(id, PropertyValue::Byte(b)), 1))
    } else if width == 2 {
        let v = buf_get_u16(buf);
        Ok((PropertyStep::Put(id, PropertyValue::TwoByteInteger(v)), 2))
    } else {
        let v = buf_get_u32(buf);
        Ok((PropertyStep::Put(id, PropertyValue::FourByteInteger(v)), 4))
    }
}

/// Reads a string value of property `id`.
fn read_string_value(buf: &mut BytesMut, id: u32) -> (res: Result<(PropertyStep, usize), Error>)
    requires
        !(spec_string_value(buf_contents(*old(buf)), id) is Panic),
    ensures
        step_result_matches(step_result_model(res), spec_string_value(buf_contents(*old(buf)), id)),
        buf_contents(*final(buf)) == buf_contents(*old(buf)).skip(
            consumed(spec_string_value(buf_contents(*old(buf)), id)) as int,
        ),
{
    proof {
        lemma_string_consumed(buf_contents(*buf));
    }
    let s = match read_string(buf) {
        Ok(s) => s,
        Err(e) => return Err(e),
    };
    let len = s.as_str().len();
    Ok((PropertyStep::Put(id, PropertyValue::String(s)), len + 2))
}

/// Reads a binary value of property `id`.
fn read_binary_value(buf: &mut BytesMut, id: u32) -> (res: Result<(PropertyStep, usize), Error>)
    requires
        !(spec_binary_value(buf_contents(*old(buf)), id) is Panic),
    ensures
        step_result_matches(step_result_model(res), spec_binary_value(buf_contents(*old(buf)), id)),
        buf_contents(*final(buf)) == buf_contents(*old(buf)).skip(
            consumed(spec_binary_value(buf_contents(*old(buf)), id)) as int,
        ),
{
    let ghost s = buf_contents(*buf);
    let length = buf_get_u16(buf) as usize;
    let data = buf_split_to(buf, length);
    assert(bytes_contents(data) =~= s.subrange(2, 2 + length));
    assert(buf_contents(*buf) =~= s.skip(2 + length));
    Ok((PropertyStep::Put(id, PropertyValue::Binary(data)), length))
}

/// Reads a 0-or-1 flag byte of property `id`, checking first that `dup_key`
/// is not stored yet.
fn read_flag_byte(
    buf: &mut BytesMut,
    properties: &HashMap<u32, PropertyValue>,
    id: u32,
    dup_key: u32,
    dup_msg: &str,
    range_msg: &str,
) -> (res: Result<(PropertyStep, usize), Error>)
    requires
        !(spec_flag_byte(buf_contents(*old(buf)), properties@.dom(), id, dup_key) is Panic),
        ErrorModel::InvalidProtocol(dup_msg@, id as u8) == property_error(id as u8),
        ErrorModel::InvalidProtocol(range_msg@, id as u8) == property_range_error(id as u8),
    ensures
        step_result_matches(step_result_model(res), spec_flag_byte(buf_contents(*old(buf)), properties@.dom(), id, dup_key)),
        buf_contents(*final(buf)) == buf_contents(*old(buf)).skip(
            consumed(spec_flag_byte(buf_contents(*old(buf)), properties@.dom(), id, dup_key)) as int,
        ),
{
    if properties.contains_key(&dup_key) {
        return Err(protocol_error(dup_msg, id as u8));
    }
    let b = buf_get_u8(buf);
    if b != 0 && b != 1 {
        return Err(protocol_error(range_msg, id as u8));
    }
    Ok((PropertyStep::Put(id, PropertyValue::Byte(b)), 1))
}

/// Reads the value of property `id` from the front of `buf`, given the
/// properties stored so far.
fn read_property_value(
    id: usize,
    buf: &mut BytesMut,
    properties: &HashMap<u32, PropertyValue>,
) -> (res: Result<(PropertyStep, usize), Error>)
    requires
        !(spec_property_value(id as nat, buf_contents(*old(buf)), properties@.dom()) is Panic),
    ensures
        step_result_matches(
            step_result_model(res),
            spec_property_value(id as nat, buf_contents(*old(buf)), properties@.dom()),
        ),
        buf_contents(*final(buf)) == buf_contents(*old(buf)).skip(
            consumed(spec_property_value(id as nat, buf_contents(*old(buf)), properties@.dom())) as int,
        ),
{
    match id {
        0x01 => {
            if properties.contains_key(&0x01u32) {
                return Err(protocol_error("Cannot contains [Payload Format Indicator] more than once", 0x18));
            }
            let b = buf_get_u8(buf);
            Ok((PropertyStep::Put(0x01, PropertyValue::Bit(b & 0x01 == 1)), 1))
        }
        0x2 => {
            if properties.contains_key(&0x2u32) {
                return Err(protocol_error("Cannot contains [Message Expiry Interval] more than once", 0x2));
            }
            read_fixed(buf, 0x2, 4)
        }
        0x11 => {
            if properties.contains_key(&0x11u32) {
                return Err(protocol_error("Cannot contains [Session Expire Interval] more than once", 0x11));
            }
            read_fixed(buf, 0x11, 4)
        }
        0x18 => {
            if properties.contains_key(&0x18u32) {
                return Err(protocol_error("Will properties cannot contains [Will Delay Interval] more than once", 0x18));
            }
            read_fixed(buf, 0x18, 4)
        }
        0x13 => {
            if properties.contains_key(&0x13u32) {
                return Err(protocol_error("Cannot contains [Server Keep Alive] more than once", 0x13));
            }
            read_fixed(buf, 0x13, 2)
        }
        0x22 => {
            if properties.contains_key(&0x22u32) {
                return Err(protocol_error("Cannot contains [Topic Alias Maximum] more than once", 0x22));
            }
            read_fixed(buf, 0x22, 2)
        }
        0x23 => {
            if properties.contains_key(&0x23u32) {
                return Err(protocol_error("Cannot contains [Topic Alias] more than once", 0x23));
            }
            read_fixed(buf, 0x23, 2)
        }
        0x3 => {
            if properties.contains_key(&0x3u32) {
                return Err(protocol_error("Cannot contains [Content Type] more than once", 0x3));
            }
            read_string_value(buf, 0x3)
        }
        0x8 => {
            if properties.contains_key(&0x8u32) {
                return Err(protocol_error("Cannot contains [Response Topic] more than once", 0x8));
            }
            read_string_value(buf, 0x8)
        }
        0x12 => {
            if properties.contains_key(&0x12u32) {
                return Err(protocol_error("Cannot contains [Assigned Client Identifier] more than once", 0x12));
            }
            read_string_value(buf, 0x12)
        }
        0x15 => {
            if properties.contains_key(&0x15u32) {
                return Err(protocol_error("Cannot contains [Authentication Method] more than once", 0x15));
            }
            read_string_value(buf, 0x15)
        }
        0x1a => {
            if properties.contains_key(&0x1au32) {
                return Err(protocol_error("Cannot contains [Response Information] more than once", 0x1a));
            }
            read_string_value(buf, 0x1a)
        }
        0x1c => {
            if properties.contains_key(&0x1cu32) {
                return Err(protocol_error("Cannot contains [Server Reference] more than once", 0x1c));
            }
            read_string_value(buf, 0x1c)
        }
        0x1f => {
            if properties.contains_key(&0x1fu32) {
                return Err(protocol_error("Cannot contains [Reason String] more than once or for it have the value 0", 0x1f));
            }
            read_string_value(buf, 0x1f)
        }
        0x9 => {
            if properties.contains_key(&0x9u32) {
                return Err(protocol_error("Cannot contains [Correlation Data] more than once", 0x9));
            }
            read_binary_value(buf, 0x9)
        }
        0x16 => {
            if properties.contains_key(&0x16u32) {
                return Err(protocol_error("Cannot contains [Authentication Data] more than once", 0x16));
            }
            read_binary_value(buf, 0x16)
        }
        0x0b => {
            let (v, n) = match read_variable_bytes(buf) {
                Ok(x) => x,
                Err(e) => return Err(e),
            };
            if v == 0 {
                let e = protocol_error("The value of Subscription Identifier can not be zero", 0x0B);

                return Err(e);
            }
            Ok((PropertyStep::SubscriptionId(v), n))
        }
        0x17 => {
            let b = buf_get_u8(buf);
            if properties.contains_key(&0x17u32) || (b != 0 && b != 1) {
                return Err(protocol_error("Cannot contains [Request Problem Information] more than once or to have a value other than 0 or 1", 0x17));
            }
            Ok((PropertyStep::Put(0x17, PropertyValue::Bit(b & 0x01 == 1)), 1))
        }
        0x19 => {
            let b = buf_get_u8(buf);
            if properties.contains_key(&0x19u32) || (b != 0 && b != 1) {
                return Err(protocol_error("Cannot contains [Request Response Information] more than once or to have a value other than 0 or 1", 0x19));
            }
            Ok((PropertyStep::Put(0x19, PropertyValue::Bit(b & 0x01 == 1)), 1))
        }
        0x21 => {
            let ghost s = buf_contents(*buf);
            let v = buf_get_u16(buf);
            if properties.contains_key(&0x21u32) || v == 0 {
                return Err(protocol_error("Cannot contains [Receive Maximum] more than once or for it have the value 0", 0x21));
            }
            Ok((PropertyStep::Put(0x21, PropertyValue::TwoByteInteger(v)), 2))
        }
        0x27 => {
            let v = buf_get_u32(buf);
            if properties.contains_key(&0x27u32) || v == 0 {
                return Err(protocol_error("Cannot contains [Maximum Packet Size] more than once", 0x27));
            }
            Ok((PropertyStep::Put(0x27, PropertyValue::FourByteInteger(v)), 4))
        }
        0x24 => read_flag_byte(buf, properties, 0x24, 0x24, "Cannot contains [Maximum Qos] more than once", "Maximum Qos cannot have a value other than 0 or 1"),
        0x25 => read_flag_byte(buf, properties, 0x25, 0x25, "Cannot contains [Retain Available] more than once", "Retain Available cannot have a value other than 0 or 1"),
        0x28 => read_flag_byte(buf, properties, 0x28, 0x28, "Cannot contains [Wildcard Subscription Available] more than once or for it have the value 0 or 1", "Wildcard Subscription Available cannot have a value other than 0 or 1"),
        0x29 => read_flag_byte(buf, properties, 0x29, 0x29, "Cannot contains [Subscription Identifiers Available] more than once or for it have the value 0 or 1", "Subscription Identifiers Available cannot have a value other than 0 or 1"),
        0x2a => read_flag_byte(buf, properties, 0x2a, 0x29, "Cannot contains [Shared Subscription Available] more than once or for it have the value 0 or 1", "Shared Subscription Available cannot have a value other than 0 or 1"),
        0x26 => {
            proof {
                lemma_string_consumed(buf_contents(*buf));
            }
            let name = match read_string(buf) {
                Ok(s) => s,
                Err(e) => return Err(e),
            };
            proof {
                lemma_string_consumed(buf_contents(*buf));
            }
            let value = match read_string(buf) {
                Ok(s) => s,
                Err(e) => return Err(e),
            };
            let counted = name.as_str().len() + 2 + value.as_str().len() + 2;
            Ok((PropertyStep::User(name, value), counted))
        }
        _ => Err(Error::InvalidPropertyType("It's a invalid Property Type".to_string())),
    }
}

/// Reads one property (identifier, then value) from the front of `buf`.
fn read_property(buf: &mut BytesMut, properties: &HashMap<u32, PropertyValue>) -> (res: Result<(PropertyStep, usize), Error>)
    requires
        !(spec_property_entry(buf_contents(*old(buf)), properties@.dom()) is Panic),
    ensures
        step_result_matches(step_result_model(res), spec_property_entry(buf_contents(*old(buf)), properties@.dom())),
        buf_contents(*final(buf)) == buf_contents(*old(buf)).skip(
            consumed(spec_property_entry(buf_contents(*old(buf)), properties@.dom())) as int,
        ),
{
    let ghost s = buf_contents(*buf);
    let ghost dom = properties@.dom();
    let _total = buf_len(buf);
    proof {
        crate::codec::lemma_read_varint_consumed(s);
    }
    let (id, k) = match read_variable_bytes(buf) {
        Ok(x) => x,
        Err(e) => return Err(e),
    };
    let ghost r = buf_contents(*buf);
    proof {
        lemma_property_value_consumed(id as nat, r, dom);
        assert(r == s.skip(k as int));
    }
    let ghost d = spec_property_value(id as nat, r, dom);
    match read_property_value(id, buf, properties) {
        Ok((step, c)) => {
            proof {
                assert(d matches Decoded::Done((_, c2), n) && c2 == c && c <= n && n <= r.len());
                assert(buf_contents(*buf) =~= s.skip(consumed(spec_property_entry(s, dom)) as int));
            }
            Ok((step, k + c))
        },
        Err(e) => {
            proof {
                assert(buf_contents(*buf) =~= s.skip(consumed(spec_property_entry(s, dom)) as int));
            }
            Err(e)
        },
    }
}

/// The properties decoded so far: those stored by identifier, the user
/// properties, and the subscription identifiers, in the order read.
pub struct PropertyState {
    pub properties: Map<u32, PropertyValueModel>,
    pub users: Seq<(Seq<char>, Seq<char>)>,
    pub ids: Seq<usize>,
}

/// The state once `step` is taken in.
pub open spec fn apply_step(st: PropertyState, step: PropertyStepModel) -> PropertyState {
    match step {
        PropertyStepModel::Put(k, v) => PropertyState { properties: st.properties.insert(k, v), ..st },
        PropertyStepModel::User(n, v) => PropertyState { users: st.users.push((n, v)), ..st },
        PropertyStepModel::SubscriptionId(v) => PropertyState { ids: st.ids.push(v), ..st },
    }
}

/// Decoding properties from the front of `s` while the count of property
/// bytes, `counted`, is below `target`.
pub open spec fn spec_property_loop(s: Seq<u8>, target: nat, counted: nat, st: PropertyState) -> Decoded<PropertyState>
    decreases s.len(),
{
    if counted >= target {
        Decoded::Done(st, 0)
    } else {
        match spec_property_entry(s, st.properties.dom()) {
            Decoded::Done((step, c), n) => if n == 0 || n > s.len() {
                Decoded::Panic
            } else {
                spec_property_loop(s.skip(n as int), target, counted + c, apply_step(st, step)).shifted(n)
            },
            Decoded::Fail(e, n) => Decoded::Fail(e, n),
            Decoded::Panic => Decoded::Panic,
        }
    }
}

/// The subscription identifiers as values.
pub open spec fn subscription_ids_model(ids: Seq<usize>) -> Seq<PropertyValueModel> {
    ids.map_values(|v: usize| PropertyValueModel::VariableByteInteger(v))
}

/// The property list a decoding ends with: user properties under `0x26` and
/// subscription identifiers under `0x0B`, each when there is any.
pub open spec fn finish_properties(length: usize, st: PropertyState) -> Mqtt5PropertyModel {
    let with_users = if st.users.len() > 0 {
        st.properties.insert(0x26, PropertyValueModel::StringPair(st.users))
    } else {
        st.properties
    };
    let all = if st.ids.len() > 0 {
        with_users.insert(0x0B, PropertyValueModel::Multiple(subscription_ids_model(st.ids)))
    } else {
        with_users
    };
    Mqtt5PropertyModel { property_length: length, properties: all, append_length: 0 }
}

proof fn lemma_loop_consumed(s: Seq<u8>, target: nat, counted: nat, st: PropertyState)
    ensures
        match spec_property_loop(s, target, counted, st) {
            Decoded::Done(_, n) => n <= s.len(),
            Decoded::Fail(_, n) => n <= s.len(),
            Decoded::Panic => true,
        },
    decreases s.len(),
{
    if counted < target {
        lemma_property_entry_consumed(s, st.properties.dom());
        if let Decoded::Done((step, c), n) = spec_property_entry(s, st.properties.dom()) {
            if n > 0 && n <= s.len() {
                lemma_loop_consumed(s.skip(n as int), target, counted + c, apply_step(st, step));
            }
        }
    }
}

/// Decoding a property list takes no more bytes than there are.
pub proof fn lemma_property_from_buf_consumed(s: Seq<u8>)
    ensures
        match spec_property_from_buf(s) {
            Decoded::Done(_, n) => n <= s.len(),
            Decoded::Fail(_, n) => n <= s.len(),
            Decoded::Panic => true,
        },
{
    crate::codec::lemma_read_varint_consumed(s);
    if let Some((length, k)) = spec_read_varint(s) {
        let empty = PropertyState { properties: Map::empty(), users: Seq::empty(), ids: Seq::empty() };
        lemma_loop_consumed(s.skip(k as int), length, 0, empty);
    }
}

/// Decoding a property list (its length, then properties until the count
/// of property bytes reaches it) from the front of `s`.
pub open spec fn spec_property_from_buf(s: Seq<u8>) -> Decoded<Mqtt5PropertyModel> {
    match spec_read_varint(s) {
        None => Decoded::Panic,
        Some((length, k)) => {
            let empty = PropertyState { properties: Map::empty(), users: Seq::empty(), ids: Seq::empty() };
            match spec_property_loop(s.skip(k as int), length, 0, empty) {
                Decoded::Done(st, n) => Decoded::Done(finish_properties(length as usize, st), k + n),
                Decoded::Fail(e, n) => Decoded::Fail(e, k + n),
                Decoded::Panic => Decoded::Panic,
            }
        },
    }
}

/// What a decoder returning `res` promises, given the outcome its
/// specification describes.
pub open spec fn result_matches<T: View>(res: Result<T, Error>, d: Decoded<T::V>) -> bool {
    match d {
        Decoded::Done(v, _) => res matches Ok(x) && x@ == v,
        Decoded::Fail(e, _) => res matches Err(err) && err@ == e,
        Decoded::Panic => false,
    }
}

proof fn lemma_loop_advance(
    s0: Seq<u8>,
    target: nat,
    empty: PropertyState,
    pos: nat,
    counted: nat,
    st: PropertyState,
    step: PropertyStepModel,
    c: nat,
    n: nat,
)
    requires
        spec_property_loop(s0, target, 0, empty) == spec_property_loop(s0.skip(pos as int), target, counted, st).shifted(pos),
        counted < target,
        spec_property_entry(s0.skip(pos as int), st.properties.dom()) == Decoded::Done((step, c), n),
        1 <= n,
        pos + n <= s0.len(),
    ensures
        spec_property_loop(s0, target, 0, empty) == spec_property_loop(
            s0.skip((pos + n) as int),
            target,
            counted + c,
            apply_step(st, step),
        ).shifted(pos + n),
{
    let cur = s0.skip(pos as int);
    assert(cur.skip(n as int) =~= s0.skip((pos + n) as int));
    let rest = spec_property_loop(cur.skip(n as int), target, counted + c, apply_step(st, step));
    assert(spec_property_loop(cur, target, counted, st) == rest.shifted(n));
    assert(rest.shifted(n).shifted(pos) == rest.shifted(pos + n));
}

proof fn lemma_loop_fail(
    s0: Seq<u8>,
    target: nat,
    empty: PropertyState,
    pos: nat,
    counted: nat,
    st: PropertyState,
    e: ErrorModel,
    n: nat,
)
    requires
        spec_property_loop(s0, target, 0, empty) == spec_property_loop(s0.skip(pos as int), target, counted, st).shifted(pos),
        counted < target,
        spec_property_entry(s0.skip(pos as int), st.properties.dom()) == Decoded::<(PropertyStepModel, nat)>::Fail(e, n),
    ensures
        spec_property_loop(s0, target, 0, empty) == Decoded::<PropertyState>::Fail(e, pos + n),
{
}

proof fn lemma_loop_exit(s0: Seq<u8>, target: nat, empty: PropertyState, pos: nat, counted: nat, st: PropertyState)
    requires
        spec_property_loop(s0, target, 0, empty) == spec_property_loop(s0.skip(pos as int), target, counted, st).shifted(pos),
        counted >= target,
    ensures
        spec_property_loop(s0, target, 0, empty) == Decoded::Done(st, pos),
{
}

proof fn lemma_subscription_ids(value: PropertyValue, ids: Seq<usize>)
    requires
        value matches PropertyValue::Multiple(vals) && vals@ == ids.map_values(|v: usize| PropertyValue::VariableByteInteger(v)),
    ensures
        value@ == PropertyValueModel::Multiple(subscription_ids_model(ids)),
{
    if let PropertyValue::Multiple(vals) = value {
        assert forall|i: int| 0 <= i < ids.len() implies property_value_model(#[trigger] vals@[i])
            == PropertyValueModel::VariableByteInteger(ids[i]) by {
            assert(vals@[i] == PropertyValue::VariableByteInteger(ids[i]));
        }
        assert(property_value_model(value)->Multiple_0 =~= subscription_ids_model(ids));
    }
}

proof fn lemma_from_buf_outcome(s: Seq<u8>, target: nat, k: nat, s0: Seq<u8>, d: Decoded<PropertyState>)
    requires
        spec_read_varint(s) == Some((target, k)),
        s0 == s.skip(k as int),
        spec_property_loop(
            s0,
            target,
            0,
            PropertyState { properties: Map::empty(), users: Seq::empty(), ids: Seq::empty() },
        ) == d,
    ensures
        spec_property_from_buf(s) == match d {
            Decoded::Done(st, n) => Decoded::Done(finish_properties(target as usize, st), k + n),
            Decoded::Fail(e, n) => Decoded::Fail(e, k + n),
            Decoded::Panic => Decoded::<Mqtt5PropertyModel>::Panic,
        },
{
}

/// An empty property list.
pub open spec fn empty_property_model() -> Mqtt5PropertyModel {
    Mqtt5PropertyModel { property_length: 0, properties: Map::empty(), append_length: 0 }
}

impl Default for Mqtt5Property {
    fn default() -> (p: Self)
        ensures
            p@ == empty_property_model(),
    {
        Mqtt5Property::new()
    }
}

impl Mqtt5Property {
    /// An empty property list.
    pub fn new() -> (p: Mqtt5Property)
        ensures
            p@ == empty_property_model(),
    {
        let p = Mqtt5Property {
            property_length: 0,
            properties: HashMap::<u32, PropertyValue>::new(),
            append_length: 0,
        };
        assert(properties_model(p.properties@) =~= Map::empty());
        p
    }

}

impl FromToBuf<Mqtt5Property> for Mqtt5Property {
    open spec fn writable(&self) -> bool {
        property_writable(self@)
    }

    open spec fn readable(s: Seq<u8>) -> bool {
        !spec_property_from_buf(s).panics()
    }

    /// Writes the property list: its declared length as a variable byte
    /// integer, then every property in the order the map hands them out.
    /// Returns the declared length.
    fn to_buf(&self, buf: &mut Vec<u8>) -> (res: Result<usize, Error>)
        ensures
            res == Ok::<usize, Error>(self.property_length),
            exists|w: Seq<u8>| property_encoding(self@, w) && final(buf)@ == old(buf)@ + w,
    {
        self.write_to(buf)
    }

    /// Decodes a property list from the front of `buf`: its length, then
    /// properties until their byte count reaches the length. User properties
    /// gather under `0x26` and subscription identifiers under `0x0B`.
    #[verifier::rlimit(60)]
    #[verifier::spinoff_prover]
    fn from_buf(buf: &mut BytesMut) -> (res: Result<Mqtt5Property, Error>)
        ensures
            result_matches(res, spec_property_from_buf(buf_contents(*old(buf)))),
            buf_contents(*final(buf)) == buf_contents(*old(buf)).skip(
                consumed(spec_property_from_buf(buf_contents(*old(buf)))) as int,
            ),
    {
        let ghost s = buf_contents(*buf);
        let _total = buf_len(buf);
        proof {
            crate::codec::lemma_read_varint_consumed(s);
        }
        let property_length = match read_variable_bytes(buf) {
            Ok(x) => x.0,
            Err(e) => return Err(e),
        };
        let ghost k: nat = (s.len() - buf_contents(*buf).len()) as nat;
        let ghost s0 = buf_contents(*buf);
        let ghost target = property_length as nat;
        let mut prop_len: usize = 0;
        let mut property = Mqtt5Property::new();
        property.property_length = property_length;
        let mut user_properties: Vec<(String, String)> = Vec::new();
        let mut subscription_identifiers: Vec<PropertyValue> = Vec::new();
        let ghost mut ids: Seq<usize> = Seq::empty();
        let ghost mut pos: nat = 0;
        let ghost empty = PropertyState { properties: Map::empty(), users: Seq::empty(), ids: Seq::empty() };
        proof {
            assert(string_pairs_model(user_properties@) =~= Seq::empty());
            assert(subscription_identifiers@ =~= ids.map_values(|v: usize| PropertyValue::VariableByteInteger(v)));
            assert(s0 =~= s0.skip(0));
            assert(properties_model(property.properties@) =~= Map::empty());
        }
        while property_length > prop_len
            invariant
                s == buf_contents(*old(buf)),
                spec_read_varint(s) == Some((target, k)),
                empty == (PropertyState { properties: Map::empty(), users: Seq::empty(), ids: Seq::empty() }),
                s0.len() <= s.len(),
                s.len() <= usize::MAX,
                s0 == s.skip(k as int),
                k + s0.len() == s.len(),
                target == property_length,
                buf_contents(*buf) == s0.skip(pos as int),
                pos <= s0.len(),
                prop_len <= pos,
                property.property_length == property_length,
                property.append_length == 0,
                spec_property_loop(s0, target, 0, empty) == spec_property_loop(
                    s0.skip(pos as int),
                    target,
                    prop_len as nat,
                    PropertyState {
                        properties: properties_model(property.properties@),
                        users: string_pairs_model(user_properties@),
                        ids,
                    },
                ).shifted(pos),
                subscription_identifiers@ == ids.map_values(|v: usize| PropertyValue::VariableByteInteger(v)),
                !spec_property_loop(s0, target, 0, empty).panics(),
            decreases s0.len() - pos,
        {
            let ghost cur = buf_contents(*buf);
            let ghost st = PropertyState {
                properties: properties_model(property.properties@),
                users: string_pairs_model(user_properties@),
                ids,
            };
            let ghost dom = property.properties@.dom();
            proof {
                lemma_property_entry_consumed(cur, dom);
                assert(st.properties.dom() =~= dom);
            }
            let (step, counted) = match read_property(buf, &property.properties) {
                Ok(x) => x,
                Err(e) => {
                    proof {
                        let n = consumed(spec_property_entry(cur, dom));
                        lemma_loop_fail(s0, target, empty, pos, prop_len as nat, st, e@, n);
                        lemma_from_buf_outcome(s, target, k, s0, Decoded::Fail(e@, pos + n));
                        assert(buf_contents(*buf) =~= s.skip((k + pos + n) as int));
                    }
                    return Err(e);
                },
            };
            let ghost n = consumed(spec_property_entry(cur, dom));
            let ghost step_model = step@;
            proof {
                lemma_loop_advance(s0, target, empty, pos, prop_len as nat, st, step_model, counted as nat, n);
                assert(cur.skip(n as int) =~= s0.skip((pos + n) as int));
            }
            prop_len = prop_len + counted;
            match step {
                PropertyStep::Put(key, value) => {
                    let ghost vm = value@;
                    property.properties.insert(key, value);
                    assert(properties_model(property.properties@) =~= st.properties.insert(key, vm));
                },
                PropertyStep::User(name, value) => {
                    user_properties.push((name, value));
                    assert(string_pairs_model(user_properties@) =~= st.users.push((name@, value@)));
                },
                PropertyStep::SubscriptionId(v) => {
                    subscription_identifiers.push(PropertyValue::VariableByteInteger(v));
                    proof {
                        ids = ids.push(v);
                    }
                    assert(subscription_identifiers@ =~= ids.map_values(|v: usize| PropertyValue::VariableByteInteger(v)));
                },
            }
            proof {
                pos = pos + n;
            }
        }
        let ghost st = PropertyState {
            properties: properties_model(property.properties@),
            users: string_pairs_model(user_properties@),
            ids,
        };
        proof {
            lemma_loop_exit(s0, target, empty, pos, prop_len as nat, st);
            lemma_from_buf_outcome(s, target, k, s0, Decoded::Done(st, pos));
            assert(buf_contents(*buf) =~= s.skip((k + pos) as int));
        }
        let ghost with_users = if st.users.len() > 0 {
            st.properties.insert(0x26, PropertyValueModel::StringPair(st.users))
        } else {
            st.properties
        };
        if user_properties.len() > 0 {
            let ghost users = string_pairs_model(user_properties@);
            property.properties.insert(0x26, PropertyValue::StringPair(user_properties));
            assert(properties_model(property.properties@) =~= st.properties.insert(0x26, PropertyValueModel::StringPair(users)));
        }
        assert(properties_model(property.properties@) == with_users);
        if subscription_identifiers.len() > 0 {
            let value = PropertyValue::Multiple(subscription_identifiers);
            proof {
                lemma_subscription_ids(value, ids);
            }
            property.properties.insert(0x0B, value);
            assert(properties_model(property.properties@) =~= with_users.insert(0x0B, PropertyValueModel::Multiple(subscription_ids_model(ids))));
        }
        assert(property@ == finish_properties(property_length, st));
        Ok(property)
    }
}

} // verus!
