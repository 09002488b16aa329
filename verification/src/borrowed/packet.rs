//! Control packets read from a byte slice: the packet types, the fixed
//! header, and the frame (fixed header plus the bytes it counts).
use vstd::prelude::*;
use crate::borrowed::{answers, Outcome, ParseError};
use crate::borrowed::primitives::{be_u8, read_variable_bytes, spec_take, spec_vbi, take};
use crate::borrowed::property::{Mqtt5Property, Mqtt5PropertyModel};
use crate::codec::FromToU8;
use crate::codec::auth::AuthenticateReasonCode;
use crate::codec::connack::ConnAckFlags;
use crate::codec::connect::ConnectReasonCode;
use crate::codec::disconnect::DisconnectReasonCode;
use crate::codec::fixed_header::FixedHeader;
use crate::codec::packet::{packet_type_of, PacketType};
use crate::codec::protocol::Protocol;
use crate::codec::puback::PubAckReasonCode;
use crate::codec::pubcomp::PubCompReasonCode;
use crate::codec::publish::{qos_of, Qos};
use crate::codec::pubrec::PubRecReasonCode;
use crate::codec::pubrel::PubRelReasonCode;
use crate::codec::subscribe::SubscribeReasonCode;
use crate::codec::unsubscribe::UnSubscribeReasonCode;

verus! {

/// A PUBLISH packet.
#[derive(Debug, Clone, PartialEq)]
pub struct Publish<'a> {
    pub fixed_header: FixedHeader,
    pub variable_header: PublishVariableHeader<'a>,
    pub payload: &'a [u8],
}

/// The topic, packet identifier and properties of a PUBLISH packet.
#[derive(Debug, Clone, PartialEq)]
pub struct PublishVariableHeader<'a> {
    pub topic_name: &'a str,
    pub packet_id: u16,
    pub publish_property: Mqtt5Property<'a>,
}

impl<'a> View for PublishVariableHeader<'a> {
    type V = (Seq<char>, u16, Mqtt5PropertyModel);

    open spec fn view(&self) -> (Seq<char>, u16, Mqtt5PropertyModel) {
        (self.topic_name@, self.packet_id, self.publish_property@)
    }
}

impl<'a> View for Publish<'a> {
    type V = (FixedHeader, (Seq<char>, u16, Mqtt5PropertyModel), Seq<u8>);

    open spec fn view(&self) -> (FixedHeader, (Seq<char>, u16, Mqtt5PropertyModel), Seq<u8>) {
        (self.fixed_header, self.variable_header@, self.payload@)
    }
}

/// A PUBACK packet.
#[derive(Debug, Clone, PartialEq)]
pub struct PubAck<'a> {
    pub fixed_header: FixedHeader,
    pub variable_header: PubAckVariableHeader<'a>,
}

/// The packet identifier, reason code and properties of a PUBACK packet.
#[derive(Debug, Clone, PartialEq)]
pub struct PubAckVariableHeader<'a> {
    pub packet_id: u16,
    pub puback_reason_code: PubAckReasonCode,
    pub puback_property: Mqtt5Property<'a>,
}

impl<'a> View for PubAck<'a> {
    type V = (FixedHeader, (u16, PubAckReasonCode, Mqtt5PropertyModel));

    open spec fn view(&self) -> (FixedHeader, (u16, PubAckReasonCode, Mqtt5PropertyModel)) {
        (self.fixed_header, (self.variable_header.packet_id, self.variable_header.puback_reason_code,
            self.variable_header.puback_property@))
    }
}

/// A PUBREC packet.
#[derive(Debug, Clone, PartialEq)]
pub struct PubRec<'a> {
    pub fixed_header: FixedHeader,
    pub variable_header: PubRecVariableHeader<'a>,
}

/// The packet identifier, reason code and properties of a PUBREC packet.
#[derive(Debug, Clone, PartialEq)]
pub struct PubRecVariableHeader<'a> {
    pub packet_id: u16,
    pub pubrec_reason_code: PubRecReasonCode,
    pub pubrec_property: Mqtt5Property<'a>,
}

impl<'a> View for PubRec<'a> {
    type V = (FixedHeader, (u16, PubRecReasonCode, Mqtt5PropertyModel));

    open spec fn view(&self) -> (FixedHeader, (u16, PubRecReasonCode, Mqtt5PropertyModel)) {
        (self.fixed_header, (self.variable_header.packet_id, self.variable_header.pubrec_reason_code,
            self.variable_header.pubrec_property@))
    }
}

/// A PUBREL packet.
#[derive(Debug, Clone, PartialEq)]
pub struct PubRel<'a> {
    pub fixed_header: FixedHeader,
    pub variable_header: PubRelVariableHeader<'a>,
}

/// The packet identifier, reason code and properties of a PUBREL packet.
#[derive(Debug, Clone, PartialEq)]
pub struct PubRelVariableHeader<'a> {
    pub packet_id: u16,
    pub pubrel_reason_code: PubRelReasonCode,
    pub pubrel_property: Mqtt5Property<'a>,
}

impl<'a> View for PubRel<'a> {
    type V = (FixedHeader, (u16, PubRelReasonCode, Mqtt5PropertyModel));

    open spec fn view(&self) -> (FixedHeader, (u16, PubRelReasonCode, Mqtt5PropertyModel)) {
        (self.fixed_header, (self.variable_header.packet_id, self.variable_header.pubrel_reason_code,
            self.variable_header.pubrel_property@))
    }
}

/// A PUBCOMP packet.
#[derive(Debug, Clone, PartialEq)]
pub struct PubComp<'a> {
    pub fixed_header: FixedHeader,
    pub variable_header: PubCompVariableHeader<'a>,
}

/// The packet identifier, reason code and properties of a PUBCOMP packet.
#[derive(Debug, Clone, PartialEq)]
pub struct PubCompVariableHeader<'a> {
    pub packet_id: u16,
    pub pubcomp_reason_code: PubCompReasonCode,
    pub pubcomp_property: Mqtt5Property<'a>,
}

impl<'a> View for PubComp<'a> {
    type V = (FixedHeader, (u16, PubCompReasonCode, Mqtt5PropertyModel));

    open spec fn view(&self) -> (FixedHeader, (u16, PubCompReasonCode, Mqtt5PropertyModel)) {
        (self.fixed_header, (self.variable_header.packet_id, self.variable_header.pubcomp_reason_code,
            self.variable_header.pubcomp_property@))
    }
}

/// The options of one subscription.
#[derive(Debug, Clone, Copy, PartialEq, Eq, Structural)]
pub struct SubscriptionOptions {
    pub maximum_qos: Qos,
    pub no_local: bool,
    pub retain_as_published: bool,
    pub retain_handling: u8,
}

impl View for SubscriptionOptions {
    type V = SubscriptionOptions;

    open spec fn view(&self) -> SubscriptionOptions {
        *self
    }
}

/// A SUBSCRIBE packet: its subscriptions are (topic filter, options) pairs.
#[derive(Debug, Clone, PartialEq)]
pub struct Subscribe<'a> {
    pub fixed_header: FixedHeader,
    pub variable_header: SubscribeVariableHeader<'a>,
    pub payload: Vec<(&'a str, SubscriptionOptions)>,
}

/// The packet identifier and properties of a SUBSCRIBE packet.
#[derive(Debug, Clone, PartialEq)]
pub struct SubscribeVariableHeader<'a> {
    pub packet_id: u16,
    pub subscribe_property: Mqtt5Property<'a>,
}

/// The subscriptions of a SUBSCRIBE packet with their filters as character
/// sequences.
pub open spec fn subscriptions_model<'a>(p: Seq<(&'a str, SubscriptionOptions)>) -> Seq<(Seq<char>, SubscriptionOptions)> {
    p.map_values(|e: (&'a str, SubscriptionOptions)| (e.0@, e.1))
}

impl<'a> View for Subscribe<'a> {
    type V = (FixedHeader, (u16, Mqtt5PropertyModel), Seq<(Seq<char>, SubscriptionOptions)>);

    open spec fn view(&self) -> (FixedHeader, (u16, Mqtt5PropertyModel), Seq<(Seq<char>, SubscriptionOptions)>) {
        (self.fixed_header, (self.variable_header.packet_id, self.variable_header.subscribe_property@),
            subscriptions_model(self.payload@))
    }
}

/// A SUBACK packet.
#[derive(Debug, Clone, PartialEq)]
pub struct SubAck<'a> {
    pub fixed_header: FixedHeader,
    pub variable_header: SubAckVariableHeader<'a>,
    pub payload: Vec<SubscribeReasonCode>,
}

/// The packet identifier and properties of a SUBACK packet.
#[derive(Debug, Clone, PartialEq)]
pub struct SubAckVariableHeader<'a> {
    pub packet_id: u16,
    pub suback_property: Mqtt5Property<'a>,
}

impl<'a> View for SubAck<'a> {
    type V = (FixedHeader, (u16, Mqtt5PropertyModel), Seq<SubscribeReasonCode>);

    open spec fn view(&self) -> (FixedHeader, (u16, Mqtt5PropertyModel), Seq<SubscribeReasonCode>) {
        (self.fixed_header, (self.variable_header.packet_id, self.variable_header.suback_property@),
            self.payload@)
    }
}

/// An UNSUBSCRIBE packet: its payload is the topic filters.
#[derive(Debug, Clone, PartialEq)]
pub struct UnSubscribe<'a> {
    pub fixed_header: FixedHeader,
    pub variable_header: UnSubscribeVariableHeader<'a>,
    pub payload: Vec<&'a str>,
}

/// The packet identifier and properties of an UNSUBSCRIBE packet.
#[derive(Debug, Clone, PartialEq)]
pub struct UnSubscribeVariableHeader<'a> {
    pub packet_id: u16,
    pub unsubscribe_property: Mqtt5Property<'a>,
}

/// The topic filters of an UNSUBSCRIBE packet as character sequences.
pub open spec fn filters_model<'a>(p: Seq<&'a str>) -> Seq<Seq<char>> {
    p.map_values(|e: &'a str| e@)
}

impl<'a> View for UnSubscribe<'a> {
    type V = (FixedHeader, (u16, Mqtt5PropertyModel), Seq<Seq<char>>);

    open spec fn view(&self) -> (FixedHeader, (u16, Mqtt5PropertyModel), Seq<Seq<char>>) {
        (self.fixed_header, (self.variable_header.packet_id, self.variable_header.unsubscribe_property@),
            filters_model(self.payload@))
    }
}

/// An UNSUBACK packet.
#[derive(Debug, Clone, PartialEq)]
pub struct UnSubAck<'a> {
    pub fixed_header: FixedHeader,
    pub variable_header: UnSubAckVariableHeader<'a>,
    pub payload: Vec<UnSubscribeReasonCode>,
}

/// The packet identifier and properties of an UNSUBACK packet.
#[derive(Debug, Clone, PartialEq)]
pub struct UnSubAckVariableHeader<'a> {
    pub packet_id: u16,
    pub unsuback_property: Mqtt5Property<'a>,
}

impl<'a> View for UnSubAck<'a> {
    type V = (FixedHeader, (u16, Mqtt5PropertyModel), Seq<UnSubscribeReasonCode>);

    open spec fn view(&self) -> (FixedHeader, (u16, Mqtt5PropertyModel), Seq<UnSubscribeReasonCode>) {
        (self.fixed_header, (self.variable_header.packet_id, self.variable_header.unsuback_property@),
            self.payload@)
    }
}

/// A PINGREQ packet.
#[derive(Debug, Clone, PartialEq)]
pub struct PingReq {
    pub fixed_header: FixedHeader,
}

/// A PINGRESP packet.
#[derive(Debug, Clone, PartialEq)]
pub struct PingResp {
    pub fixed_header: FixedHeader,
}

/// A DISCONNECT packet.
#[derive(Debug, Clone, PartialEq)]
pub struct Disconnect<'a> {
    pub fixed_header: FixedHeader,
    pub variable_header: DisconnectVariableHeader<'a>,
}

/// The reason code and properties of a DISCONNECT packet.
#[derive(Debug, Clone, PartialEq)]
pub struct DisconnectVariableHeader<'a> {
    pub disconnect_reason_code: DisconnectReasonCode,
    pub disconnect_property: Mqtt5Property<'a>,
}

impl<'a> View for Disconnect<'a> {
    type V = (FixedHeader, (DisconnectReasonCode, Mqtt5PropertyModel));

    open spec fn view(&self) -> (FixedHeader, (DisconnectReasonCode, Mqtt5PropertyModel)) {
        (self.fixed_header, (self.variable_header.disconnect_reason_code, self.variable_header.disconnect_property@))
    }
}

/// An AUTH packet.
#[derive(Debug, Clone, PartialEq)]
pub struct Auth<'a> {
    pub fixed_header: FixedHeader,
    pub variable_header: AuthVariableHeader<'a>,
}

/// The reason code and properties of an AUTH packet.
#[derive(Debug, Clone, PartialEq)]
pub struct AuthVariableHeader<'a> {
    pub auth_reason_code: AuthenticateReasonCode,
    pub auth_property: Mqtt5Property<'a>,
}

impl<'a> View for Auth<'a> {
    type V = (FixedHeader, (AuthenticateReasonCode, Mqtt5PropertyModel));

    open spec fn view(&self) -> (FixedHeader, (AuthenticateReasonCode, Mqtt5PropertyModel)) {
        (self.fixed_header, (self.variable_header.auth_reason_code, self.variable_header.auth_property@))
    }
}

/// The flags byte of a CONNECT packet.
#[derive(Debug, Clone, Copy, PartialEq, Eq, Structural)]
pub struct ConnectFlags {
    pub clean_start: bool,
    pub will_flag: bool,
    pub will_qos: Qos,
    pub will_retain: bool,
    pub username_flag: bool,
    pub password_flag: bool,
}

impl View for ConnectFlags {
    type V = ConnectFlags;

    open spec fn view(&self) -> ConnectFlags {
        *self
    }
}

/// A CONNECT packet.
#[derive(Debug, Clone, PartialEq)]
pub struct Connect<'a> {
    pub fixed_header: FixedHeader,
    pub variable_header: ConnectVariableHeader<'a>,
    pub payload: ConnectPayload<'a>,
}

/// The protocol, flags, keep alive and properties of a CONNECT packet.
#[derive(Debug, Clone, PartialEq)]
pub struct ConnectVariableHeader<'a> {
    pub protocol: Protocol,
    pub connect_flags: ConnectFlags,
    pub keep_alive: u16,
    pub connect_property: Mqtt5Property<'a>,
}

/// The payload of a CONNECT packet: the client identifier, then the will
/// (properties, topic, payload), user name and password where the flags
/// announce them.
#[derive(Debug, Clone, PartialEq)]
pub struct ConnectPayload<'a> {
    pub client_id: &'a str,
    pub will_property: Option<Mqtt5Property<'a>>,
    pub will_topic: Option<&'a str>,
    pub will_payload: Option<&'a [u8]>,
    pub username: Option<&'a str>,
    pub password: Option<&'a str>,
}

/// A [`ConnectPayload`] with its strings and bytes as sequences.
pub type ConnectPayloadModel = (
    Seq<char>,
    Option<Mqtt5PropertyModel>,
    Option<Seq<char>>,
    Option<Seq<u8>>,
    Option<Seq<char>>,
    Option<Seq<char>>,
);

impl<'a> View for ConnectPayload<'a> {
    type V = ConnectPayloadModel;

    open spec fn view(&self) -> ConnectPayloadModel {
        (
            self.client_id@,
            match self.will_property { Some(p) => Some(p@), None => None },
            match self.will_topic { Some(t) => Some(t@), None => None },
            match self.will_payload { Some(b) => Some(b@), None => None },
            match self.username { Some(u) => Some(u@), None => None },
            match self.password { Some(p) => Some(p@), None => None },
        )
    }
}

impl<'a> View for Connect<'a> {
    type V = (FixedHeader, (Protocol, ConnectFlags, u16, Mqtt5PropertyModel), ConnectPayloadModel);

    open spec fn view(&self) -> (FixedHeader, (Protocol, ConnectFlags, u16, Mqtt5PropertyModel), ConnectPayloadModel) {
        (
            self.fixed_header,
            (self.variable_header.protocol, self.variable_header.connect_flags, self.variable_header.keep_alive,
                self.variable_header.connect_property@),
            self.payload@,
        )
    }
}

/// A CONNACK packet.
#[derive(Debug, Clone, PartialEq)]
pub struct ConnAck<'a> {
    pub fixed_header: FixedHeader,
    pub variable_header: ConnAckVariableHeader<'a>,
}

/// The flags, reason code and properties of a CONNACK packet.
#[derive(Debug, Clone, PartialEq)]
pub struct ConnAckVariableHeader<'a> {
    pub connack_flags: ConnAckFlags,
    pub connect_reason_code: ConnectReasonCode,
    pub connack_property: Mqtt5Property<'a>,
}

impl<'a> View for ConnAck<'a> {
    type V = (FixedHeader, (bool, ConnectReasonCode, Mqtt5PropertyModel));

    open spec fn view(&self) -> (FixedHeader, (bool, ConnectReasonCode, Mqtt5PropertyModel)) {
        (self.fixed_header, (self.variable_header.connack_flags.session_present,
            self.variable_header.connect_reason_code, self.variable_header.connack_property@))
    }
}

/// Any control packet.
#[derive(Debug, Clone, PartialEq)]
pub enum Packet<'a> {
    Connect(Connect<'a>),
    ConnAck(ConnAck<'a>),
    Publish(Publish<'a>),
    PubAck(PubAck<'a>),
    PubRec(PubRec<'a>),
    PubRel(PubRel<'a>),
    PubComp(PubComp<'a>),
    Subscribe(Subscribe<'a>),
    SubAck(SubAck<'a>),
    UnSubscribe(UnSubscribe<'a>),
    UnSubAck(UnSubAck<'a>),
    PingReq(PingReq),
    PingResp(PingResp),
    Disconnect(Disconnect<'a>),
    Auth(Auth<'a>),
}

/// A [`Packet`] as the views of its variants.
pub enum PacketModel {
    Connect((FixedHeader, (Protocol, ConnectFlags, u16, Mqtt5PropertyModel), ConnectPayloadModel)),
    ConnAck((FixedHeader, (bool, ConnectReasonCode, Mqtt5PropertyModel))),
    Publish((FixedHeader, (Seq<char>, u16, Mqtt5PropertyModel), Seq<u8>)),
    PubAck((FixedHeader, (u16, PubAckReasonCode, Mqtt5PropertyModel))),
    PubRec((FixedHeader, (u16, PubRecReasonCode, Mqtt5PropertyModel))),
    PubRel((FixedHeader, (u16, PubRelReasonCode, Mqtt5PropertyModel))),
    PubComp((FixedHeader, (u16, PubCompReasonCode, Mqtt5PropertyModel))),
    Subscribe((FixedHeader, (u16, Mqtt5PropertyModel), Seq<(Seq<char>, SubscriptionOptions)>)),
    SubAck((FixedHeader, (u16, Mqtt5PropertyModel), Seq<SubscribeReasonCode>)),
    UnSubscribe((FixedHeader, (u16, Mqtt5PropertyModel), Seq<Seq<char>>)),
    UnSubAck((FixedHeader, (u16, Mqtt5PropertyModel), Seq<UnSubscribeReasonCode>)),
    PingReq(FixedHeader),
    PingResp(FixedHeader),
    Disconnect((FixedHeader, (DisconnectReasonCode, Mqtt5PropertyModel))),
    Auth((FixedHeader, (AuthenticateReasonCode, Mqtt5PropertyModel))),
}

impl<'a> View for Packet<'a> {
    type V = PacketModel;

    open spec fn view(&self) -> PacketModel {
        match self {
            Packet::Connect(p) => PacketModel::Connect(p@),
            Packet::ConnAck(p) => PacketModel::ConnAck(p@),
            Packet::Publish(p) => PacketModel::Publish(p@),
            Packet::PubAck(p) => PacketModel::PubAck(p@),
            Packet::PubRec(p) => PacketModel::PubRec(p@),
            Packet::PubRel(p) => PacketModel::PubRel(p@),
            Packet::PubComp(p) => PacketModel::PubComp(p@),
            Packet::Subscribe(p) => PacketModel::Subscribe(p@),
            Packet::SubAck(p) => PacketModel::SubAck(p@),
            Packet::UnSubscribe(p) => PacketModel::UnSubscribe(p@),
            Packet::UnSubAck(p) => PacketModel::UnSubAck(p@),
            Packet::PingReq(p) => PacketModel::PingReq(p.fixed_header),
            Packet::PingResp(p) => PacketModel::PingResp(p.fixed_header),
            Packet::Disconnect(p) => PacketModel::Disconnect(p@),
            Packet::Auth(p) => PacketModel::Auth(p@),
        }
    }
}

/// Reading a fixed header: the first byte, then the remaining length as a
/// variable byte integer. A packet type of 0 or a qos of 3 panics.
pub open spec fn spec_header(s: Seq<u8>) -> Outcome<FixedHeader> {
    if s.len() < 1 {
        Outcome::Rejected
    } else {
        match spec_vbi(s.skip(1)) {
            Outcome::Parsed((len, _), k) => {
                let b = s[0];
                match (packet_type_of(b / 16), qos_of((b / 2) % 4)) {
                    (Some(t), Some(q)) => Outcome::Parsed(
                        FixedHeader {
                            packet_type: t,
                            dup: (b / 8) % 2 == 1,
                            qos: q,
                            retain: b % 2 == 1,
                            remaining_length: len,
                        },
                        1 + k,
                    ),
                    _ => Outcome::Stuck,
                }
            },
            Outcome::Rejected => Outcome::Rejected,
            Outcome::Stuck => Outcome::Stuck,
        }
    }
}

/// Reading the frame of a packet of type `t`: its fixed header, then the
/// remaining length's worth of bytes, which the result holds.
pub open spec fn spec_frame(s: Seq<u8>, t: PacketType) -> Outcome<(FixedHeader, Seq<u8>)> {
    match spec_header(s) {
        Outcome::Parsed(h, k) => if h.packet_type != t {
            Outcome::Rejected
        } else {
            match spec_take(s.skip(k as int), h.remaining_length as nat) {
                Outcome::Parsed(body, n) => Outcome::Parsed((h, body), k + n),
                _ => Outcome::Rejected,
            }
        },
        Outcome::Rejected => Outcome::Rejected,
        Outcome::Stuck => Outcome::Stuck,
    }
}

/// Reads a fixed header: the packet type, dup, qos and retain from the
/// first byte, then the remaining length.
pub fn fixed_header<'a>(input: &'a [u8]) -> (res: Result<(&'a [u8], FixedHeader), ParseError>)
    requires
        !spec_header(input@).stuck(),
    ensures
        answers(spec_header(input@), input@, res),
{
    let (input1, b) = be_u8(input)?;
    let (rest, (remaining_length, _)) = read_variable_bytes(input1)?;
    assert(b >> 4u8 == b / 16 && (b >> 1u8) & 0x03u8 == (b / 2) % 4 && (b >> 3u8) & 0x01u8 == (b / 8) % 2
        && b & 0x01u8 == b % 2) by (bit_vector);
    let packet_type = match PacketType::from_u8(b >> 4) {
        Ok(t) => t,
        Err(_) => return Err(ParseError),
    };
    let qos = match Qos::from_u8((b >> 1) & 0x03) {
        Ok(q) => q,
        Err(_) => return Err(ParseError),
    };
    proof {
        let k = (input1@.len() - rest@.len()) as nat;
        assert(rest@ == input@.skip(1 + k as int));
    }
    Ok((rest, FixedHeader {
        packet_type,
        dup: (b >> 3) & 0x01 == 1,
        qos,
        retain: b & 0x01 == 1,
        remaining_length,
    }))
}

/// Reads the frame of a packet of type `packet_type`: its fixed header,
/// then the bytes the remaining length counts. Returns the input after the
/// frame, the header, and the counted bytes (variable header and payload).
pub fn map_fixed_header<'a>(input: &'a [u8], packet_type: PacketType) -> (res: Result<(&'a [u8], (FixedHeader, &'a [u8])), ParseError>)
    requires
        !spec_frame(input@, packet_type).stuck(),
    ensures
        answers(spec_frame(input@, packet_type), input@, res),
{
    let (input1, header) = fixed_header(input)?;
    if header.packet_type != packet_type {
        return Err(ParseError);
    }
    let ghost k = (input@.len() - input1@.len()) as nat;
    let (rest, body) = take(input1, header.remaining_length)?;
    proof {
        assert(rest@ == input@.skip(k + header.remaining_length as int));
    }
    Ok((rest, (header, body)))
}

/// Reading a packet that is a fixed header alone, of type `t`.
pub open spec fn spec_header_only(s: Seq<u8>, t: PacketType) -> Outcome<FixedHeader> {
    match spec_header(s) {
        Outcome::Parsed(h, k) => if h.packet_type == t { Outcome::Parsed(h, k) } else { Outcome::Rejected },
        other => other,
    }
}

/// Reads a PINGREQ packet: a fixed header of that type. The bytes its
/// remaining length counts are not taken.
pub fn ping_req<'a>(input: &'a [u8]) -> (res: Result<(&'a [u8], PingReq), ParseError>)
    requires
        !spec_header_only(input@, PacketType::PINGREQ).stuck(),
    ensures
        match spec_header_only(input@, PacketType::PINGREQ) {
            Outcome::Parsed(h, n) => res matches Ok((rest, p)) && p.fixed_header == h && rest@ == input@.skip(n as int),
            _ => res is Err,
        },
{
    let (rest, fixed_header) = fixed_header(input)?;
    if fixed_header.packet_type != PacketType::PINGREQ {
        return Err(ParseError);
    }
    Ok((rest, PingReq { fixed_header }))
}

/// Reads a PINGRESP packet: a fixed header of that type. The bytes its
/// remaining length counts are not taken.
pub fn ping_resp<'a>(input: &'a [u8]) -> (res: Result<(&'a [u8], PingResp), ParseError>)
    requires
        !spec_header_only(input@, PacketType::PINGRESP).stuck(),
    ensures
        match spec_header_only(input@, PacketType::PINGRESP) {
            Outcome::Parsed(h, n) => res matches Ok((rest, p)) && p.fixed_header == h && rest@ == input@.skip(n as int),
            _ => res is Err,
        },
{
    let (rest, fixed_header) = fixed_header(input)?;
    if fixed_header.packet_type != PacketType::PINGRESP {
        return Err(ParseError);
    }
    Ok((rest, PingResp { fixed_header }))
}

} // verus!
