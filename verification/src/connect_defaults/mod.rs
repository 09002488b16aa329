//! Readers whose property lists are keyed by one-byte identifiers, with the
//! user properties gathered into one list of (name, value) pairs: a fixed
//! header reader that checks the flags it expects, a property list reader,
//! and a CONNECT reader that fills in the MQTT 5 default of every connect
//! and will property that is absent (session expiry 0, receive maximum
//! 65535, topic alias maximum 0, request response information off, will
//! delay 0) and refuses authentication data without an authentication
//! method.
pub mod decode;
pub mod flags;
pub mod header;
pub mod property;
pub mod laws;

use vstd::prelude::*;
use bytes::Bytes;
use std::collections::HashMap;
use crate::codec::buffer::bytes_contents;
use crate::codec::connect::ConnectFlagsModel;
use crate::connect_defaults::flags::ConnectFlag;
use crate::codec::fixed_header::FixedHeader;
use crate::codec::property::{string_pairs_model, PropertyValueModel};
use crate::codec::protocol::Protocol;

verus! {

broadcast use vstd::std_specs::hash::group_hash_axioms;

/// The errors of the reader.
#[derive(Debug, Clone, PartialEq, Eq)]
pub enum Error {
    InvalidDataFormat(String),
    MalformedVariableByteInteger,
    InvalidProtocol(String, u8),
    InvalidQos(u8),
    InvalidReasonCode(u8),
    InvalidHeader,
    InvalidLength,
    InvalidString(String),
    InvalidPropertyType(String),
    InvalidPacketType(u8),
    MalformedPacket,
    /// A fixed header whose flags are not the ones expected.
    MalformedFixedHeader(String),
    /// An identifier that names no connect property.
    InvalidConnectPropertyType,
    /// An identifier that names no will property.
    InvalidWillPropertyType,
}

/// An [`Error`] with its texts as character sequences.
pub enum ErrorModel {
    InvalidDataFormat(Seq<char>),
    MalformedVariableByteInteger,
    InvalidProtocol(Seq<char>, u8),
    InvalidQos(u8),
    InvalidReasonCode(u8),
    InvalidHeader,
    InvalidLength,
    InvalidString(Seq<char>),
    InvalidPropertyType(Seq<char>),
    InvalidPacketType(u8),
    MalformedPacket,
    MalformedFixedHeader(Seq<char>),
    InvalidConnectPropertyType,
    InvalidWillPropertyType,
}

impl View for Error {
    type V = ErrorModel;

    open spec fn view(&self) -> ErrorModel {
        match self {
            Error::InvalidDataFormat(s) => ErrorModel::InvalidDataFormat(s@),
            Error::MalformedVariableByteInteger => ErrorModel::MalformedVariableByteInteger,
            Error::InvalidProtocol(s, c) => ErrorModel::InvalidProtocol(s@, *c),
            Error::InvalidQos(q) => ErrorModel::InvalidQos(*q),
            Error::InvalidReasonCode(c) => ErrorModel::InvalidReasonCode(*c),
            Error::InvalidHeader => ErrorModel::InvalidHeader,
            Error::InvalidLength => ErrorModel::InvalidLength,
            Error::InvalidString(s) => ErrorModel::InvalidString(s@),
            Error::InvalidPropertyType(s) => ErrorModel::InvalidPropertyType(s@),
            Error::InvalidPacketType(t) => ErrorModel::InvalidPacketType(*t),
            Error::MalformedPacket => ErrorModel::MalformedPacket,
            Error::MalformedFixedHeader(s) => ErrorModel::MalformedFixedHeader(s@),
            Error::InvalidConnectPropertyType => ErrorModel::InvalidConnectPropertyType,
            Error::InvalidWillPropertyType => ErrorModel::InvalidWillPropertyType,
        }
    }
}

/// What the reader does on given bytes.
pub enum Read<T> {
    /// It returns the value, having taken this many bytes.
    Done(T, nat),
    /// It returns this error, having taken this many bytes.
    Fail(ErrorModel, nat),
    /// It panics.
    Panic,
}

impl<T> Read<T> {
    /// The outcome once `k` bytes taken before it are counted.
    pub open spec fn shifted(self, k: nat) -> Read<T> {
        match self {
            Read::Done(v, n) => Read::Done(v, n + k),
            Read::Fail(e, n) => Read::Fail(e, n + k),
            Read::Panic => Read::Panic,
        }
    }

    /// Whether the reader panics.
    pub open spec fn panics(self) -> bool {
        self is Panic
    }
}

/// The value of one property.
#[derive(Debug, PartialEq, Eq)]
pub enum PropertyValue {
    Bit(bool),
    Byte(u8),
    TwoByteInteger(u16),
    FourByteInteger(u32),
    String(String),
    VariableByteInteger(usize),
    Binary(Bytes),
    StringPair(Vec<(String, String)>),
}

impl View for PropertyValue {
    type V = PropertyValueModel;

    open spec fn view(&self) -> PropertyValueModel {
        match self {
            PropertyValue::Bit(b) => PropertyValueModel::Bit(*b),
            PropertyValue::Byte(b) => PropertyValueModel::Byte(*b),
            PropertyValue::TwoByteInteger(x) => PropertyValueModel::TwoByteInteger(*x),
            PropertyValue::FourByteInteger(x) => PropertyValueModel::FourByteInteger(*x),
            PropertyValue::String(s) => PropertyValueModel::String(s@),
            PropertyValue::VariableByteInteger(x) => PropertyValueModel::VariableByteInteger(*x),
            PropertyValue::Binary(b) => PropertyValueModel::Binary(bytes_contents(*b)),
            PropertyValue::StringPair(pairs) => PropertyValueModel::StringPair(string_pairs_model(pairs@)),
        }
    }
}

/// A property list: its length and the properties by identifier.
#[derive(Debug, PartialEq, Eq)]
pub struct Mqtt5Property {
    pub property_length: usize,
    pub properties: HashMap<u8, PropertyValue>,
}

/// A [`Mqtt5Property`] as its length and the models of its values.
pub type PropsModel = (usize, Map<u8, PropertyValueModel>);

/// The models of the values of a property map.
pub open spec fn props_map_model(m: Map<u8, PropertyValue>) -> Map<u8, PropertyValueModel> {
    m.map_values(|v: PropertyValue| v@)
}

impl View for Mqtt5Property {
    type V = PropsModel;

    open spec fn view(&self) -> PropsModel {
        (self.property_length, props_map_model(self.properties@))
    }
}

impl Mqtt5Property {
    /// An empty property list of length zero.
    pub fn new() -> (p: Mqtt5Property)
        ensures
            p@ == (0usize, Map::<u8, PropertyValueModel>::empty()),
    {
        let p = Mqtt5Property { property_length: 0, properties: HashMap::new() };
        assert(props_map_model(p.properties@) =~= Map::<u8, PropertyValueModel>::empty());
        p
    }
}

/// The protocol, flags, keep alive and properties of a CONNECT packet.
#[derive(Debug)]
pub struct ConnectVariableHeader {
    pub protocol: Protocol,
    pub connect_flags: ConnectFlag,
    pub keep_alive: usize,
    pub connect_property: Mqtt5Property,
}

/// The payload of a CONNECT packet.
#[derive(Debug, PartialEq)]
pub struct ConnectPayload {
    pub client_id: String,
    pub will_property: Option<Mqtt5Property>,
    pub will_topic: Option<String>,
    pub will_payload: Option<Vec<u8>>,
    pub username: Option<String>,
    pub password: Option<String>,
}

/// A [`ConnectPayload`] with its strings, bytes and properties as models.
pub type ConnectPayloadModel = (
    Seq<char>,
    Option<PropsModel>,
    Option<Seq<char>>,
    Option<Seq<u8>>,
    Option<Seq<char>>,
    Option<Seq<char>>,
);

impl View for ConnectPayload {
    type V = ConnectPayloadModel;

    open spec fn view(&self) -> ConnectPayloadModel {
        (
            self.client_id@,
            match self.will_property { Some(p) => Some(p@), None => None },
            match self.will_topic { Some(t) => Some(t@), None => None },
            match self.will_payload { Some(b) => Some(b@), None => None },
            match self.username { Some(u) => Some(u@), None => None },
            match self.password { Some(p) => Some(p@), None => None },
        )
    }
}

/// A CONNECT packet.
#[derive(Debug)]
pub struct Connect {
    pub fixed_header: FixedHeader,
    pub variable_header: ConnectVariableHeader,
    pub payload: ConnectPayload,
}

/// The variable header of a CONNECT packet as its model.
pub type ConnectVariableHeaderModel = (Protocol, ConnectFlagsModel, usize, PropsModel);

impl View for Connect {
    type V = (FixedHeader, ConnectVariableHeaderModel, ConnectPayloadModel);

    open spec fn view(&self) -> (FixedHeader, ConnectVariableHeaderModel, ConnectPayloadModel) {
        (
            self.fixed_header,
            (self.variable_header.protocol, self.variable_header.connect_flags@, self.variable_header.keep_alive,
                self.variable_header.connect_property@),
            self.payload@,
        )
    }
}

} // verus!
