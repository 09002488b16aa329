//! Readers of the packets whose variable header is all there is: the
//! acknowledgements, PUBLISH (whose payload must be empty here), DISCONNECT,
//! AUTH and CONNACK.
use vstd::prelude::*;
use crate::borrowed::{answers, Outcome, ParseError};
use crate::borrowed::primitives::{be_u16, be_u8, read_string, spec_be_u16, spec_be_u8, spec_read_string};
use crate::borrowed::property::{map_outcome, mqtt5_property, spec_mqtt5_property, Mqtt5PropertyModel};
use crate::borrowed::packet::{
    map_fixed_header, spec_frame, Auth, AuthVariableHeader, ConnAck, ConnAckVariableHeader, Disconnect,
    DisconnectVariableHeader, Packet, PacketModel, PubAck, PubAckVariableHeader, PubComp, PubCompVariableHeader,
    PubRec, PubRecVariableHeader, PubRel, PubRelVariableHeader, Publish, PublishVariableHeader,
};
use crate::codec::FromToU8;
use crate::codec::auth::AuthenticateReasonCode;
use crate::codec::connack::ConnAckFlags;
use crate::codec::connect::ConnectReasonCode;
use crate::codec::disconnect::DisconnectReasonCode;
use crate::codec::fixed_header::FixedHeader;
use crate::codec::packet::PacketType;
use crate::codec::puback::PubAckReasonCode;
use crate::codec::pubcomp::PubCompReasonCode;
use crate::codec::pubrec::PubRecReasonCode;
use crate::codec::pubrel::PubRelReasonCode;

verus! {

/// Reading a one-byte reason code, then a property list; the code must be
/// one that `code` knows. The code is looked at once the properties are read.
pub open spec fn spec_code_property<C>(s: Seq<u8>, code: spec_fn(u8) -> Option<C>) -> Outcome<(C, Mqtt5PropertyModel)> {
    match spec_be_u8(s) {
        Outcome::Parsed(b, _) => match spec_mqtt5_property(s.skip(1)) {
            Outcome::Parsed(p, m) => match code(b) {
                Some(c) => Outcome::Parsed((c, p), 1 + m),
                None => Outcome::Rejected,
            },
            Outcome::Rejected => Outcome::Rejected,
            Outcome::Stuck => Outcome::Stuck,
        },
        _ => Outcome::Rejected,
    }
}

/// Reading a packet identifier, then a reason code and a property list.
pub open spec fn spec_id_code_property<C>(s: Seq<u8>, code: spec_fn(u8) -> Option<C>) -> Outcome<(u16, C, Mqtt5PropertyModel)> {
    match spec_be_u16(s) {
        Outcome::Parsed(id, _) => match spec_code_property(s.skip(2), code) {
            Outcome::Parsed((c, p), m) => Outcome::Parsed((id, c, p), 2 + m),
            Outcome::Rejected => Outcome::Rejected,
            Outcome::Stuck => Outcome::Stuck,
        },
        _ => Outcome::Rejected,
    }
}

/// Reading a packet of type `t` whose variable header, read by `vh`, must
/// take every byte the fixed header counts.
pub open spec fn spec_whole<V>(s: Seq<u8>, t: PacketType, vh: spec_fn(Seq<u8>) -> Outcome<V>) -> Outcome<(FixedHeader, V)> {
    match spec_frame(s, t) {
        Outcome::Parsed((h, body), n) => match vh(body) {
            Outcome::Parsed(v, m) => if m == body.len() { Outcome::Parsed((h, v), n) } else { Outcome::Rejected },
            Outcome::Rejected => Outcome::Rejected,
            Outcome::Stuck => Outcome::Stuck,
        },
        Outcome::Rejected => Outcome::Rejected,
        Outcome::Stuck => Outcome::Stuck,
    }
}

/// Reading a PUBACK packet.
pub open spec fn spec_puback(s: Seq<u8>) -> Outcome<PacketModel> {
    map_outcome(
        spec_whole(s, PacketType::PUBACK, |b: Seq<u8>| spec_id_code_property(b, |c: u8| PubAckReasonCode::from_wire(c))),
        |x: (FixedHeader, (u16, PubAckReasonCode, Mqtt5PropertyModel))| PacketModel::PubAck(x),
    )
}

/// Reading a PUBREC packet.
pub open spec fn spec_pubrec(s: Seq<u8>) -> Outcome<PacketModel> {
    map_outcome(
        spec_whole(s, PacketType::PUBREC, |b: Seq<u8>| spec_id_code_property(b, |c: u8| PubRecReasonCode::from_wire(c))),
        |x: (FixedHeader, (u16, PubRecReasonCode, Mqtt5PropertyModel))| PacketModel::PubRec(x),
    )
}

/// Reading a PUBREL packet.
pub open spec fn spec_pubrel(s: Seq<u8>) -> Outcome<PacketModel> {
    map_outcome(
        spec_whole(s, PacketType::PUBREL, |b: Seq<u8>| spec_id_code_property(b, |c: u8| PubRelReasonCode::from_wire(c))),
        |x: (FixedHeader, (u16, PubRelReasonCode, Mqtt5PropertyModel))| PacketModel::PubRel(x),
    )
}

/// Reading a PUBCOMP packet.
pub open spec fn spec_pubcomp(s: Seq<u8>) -> Outcome<PacketModel> {
    map_outcome(
        spec_whole(s, PacketType::PUBCOMP, |b: Seq<u8>| spec_id_code_property(b, |c: u8| PubCompReasonCode::from_wire(c))),
        |x: (FixedHeader, (u16, PubCompReasonCode, Mqtt5PropertyModel))| PacketModel::PubComp(x),
    )
}

/// Reading a DISCONNECT packet.
pub open spec fn spec_disconnect(s: Seq<u8>) -> Outcome<PacketModel> {
    map_outcome(
        spec_whole(s, PacketType::DISCONNECT, |b: Seq<u8>| spec_code_property(b, |c: u8| DisconnectReasonCode::from_wire(c))),
        |x: (FixedHeader, (DisconnectReasonCode, Mqtt5PropertyModel))| PacketModel::Disconnect(x),
    )
}

/// Reading an AUTH packet.
pub open spec fn spec_auth(s: Seq<u8>) -> Outcome<PacketModel> {
    map_outcome(
        spec_whole(s, PacketType::AUTH, |b: Seq<u8>| spec_code_property(b, |c: u8| AuthenticateReasonCode::from_wire(c))),
        |x: (FixedHeader, (AuthenticateReasonCode, Mqtt5PropertyModel))| PacketModel::Auth(x),
    )
}

/// Reading the variable header of a CONNACK packet: the flags byte (the
/// session is taken as present when it is above 1), the reason code and
/// the properties.
pub open spec fn spec_connack_variable_header(s: Seq<u8>) -> Outcome<(bool, ConnectReasonCode, Mqtt5PropertyModel)> {
    match spec_be_u8(s) {
        Outcome::Parsed(flag, _) => match spec_code_property(s.skip(1), |c: u8| ConnectReasonCode::from_wire(c)) {
            Outcome::Parsed((c, p), m) => Outcome::Parsed((flag > 1, c, p), 1 + m),
            Outcome::Rejected => Outcome::Rejected,
            Outcome::Stuck => Outcome::Stuck,
        },
        _ => Outcome::Rejected,
    }
}

/// Reading a CONNACK packet.
pub open spec fn spec_connack(s: Seq<u8>) -> Outcome<PacketModel> {
    map_outcome(
        spec_whole(s, PacketType::CONNACK, |b: Seq<u8>| spec_connack_variable_header(b)),
        |x: (FixedHeader, (bool, ConnectReasonCode, Mqtt5PropertyModel))| PacketModel::ConnAck(x),
    )
}

/// Reading the variable header of a PUBLISH packet: the topic, the packet
/// identifier (always present here) and the properties.
pub open spec fn spec_publish_variable_header(s: Seq<u8>) -> Outcome<(Seq<char>, u16, Mqtt5PropertyModel)> {
    match spec_read_string(s) {
        Outcome::Parsed(topic, n) => match spec_be_u16(s.skip(n as int)) {
            Outcome::Parsed(id, _) => match spec_mqtt5_property(s.skip(n + 2 as int)) {
                Outcome::Parsed(p, m) => Outcome::Parsed((topic, id, p), n + 2 + m),
                Outcome::Rejected => Outcome::Rejected,
                Outcome::Stuck => Outcome::Stuck,
            },
            _ => Outcome::Rejected,
        },
        _ => Outcome::Rejected,
    }
}

/// Reading a PUBLISH packet: the variable header must take every byte the
/// fixed header counts, so the payload is always empty.
pub open spec fn spec_publish(s: Seq<u8>) -> Outcome<PacketModel> {
    map_outcome(
        spec_whole(s, PacketType::PUBLISH, |b: Seq<u8>| spec_publish_variable_header(b)),
        |x: (FixedHeader, (Seq<char>, u16, Mqtt5PropertyModel))| PacketModel::Publish((x.0, x.1, Seq::empty())),
    )
}

/// Reads the variable header of a PUBACK packet.
fn puback_variable_header<'a>(input: &'a [u8]) -> (res: Result<(&'a [u8], PubAckVariableHeader<'a>), ParseError>)
    requires
        !spec_id_code_property(input@, |c: u8| PubAckReasonCode::from_wire(c)).stuck(),
    ensures
        match spec_id_code_property(input@, |c: u8| PubAckReasonCode::from_wire(c)) {
            Outcome::Parsed(v, n) => res matches Ok((rest, x)) && (x.packet_id, x.puback_reason_code, x.puback_property@) == v
                && rest@ == input@.skip(n as int),
            _ => res is Err,
        },
{
    let (input1, packet_id) = be_u16(input)?;
    let (input2, b) = be_u8(input1)?;
    let (rest, puback_property) = mqtt5_property(input2)?;
    let puback_reason_code = match PubAckReasonCode::from_u8(b) {
        Ok(c) => c,
        Err(_) => return Err(ParseError),
    };
    proof {
        assert(input2@ == input@.skip(3));
        let m = (input2@.len() - rest@.len()) as nat;
        assert(rest@ == input@.skip(3 + m as int));
    }
    Ok((rest, PubAckVariableHeader { packet_id, puback_reason_code, puback_property }))
}

/// Reads a PUBACK packet.
pub fn puback<'a>(input: &'a [u8]) -> (res: Result<(&'a [u8], Packet<'a>), ParseError>)
    requires
        !spec_puback(input@).stuck(),
    ensures
        answers(spec_puback(input@), input@, res),
{
    let (rest, (fixed_header, body)) = map_fixed_header(input, PacketType::PUBACK)?;
    let (payload, variable_header) = puback_variable_header(body)?;
    if payload.len() != 0 {
        return Err(ParseError);
    }
    Ok((rest, Packet::PubAck(PubAck { fixed_header, variable_header })))
}

/// Reads the variable header of a PUBREC packet.
fn pubrec_variable_header<'a>(input: &'a [u8]) -> (res: Result<(&'a [u8], PubRecVariableHeader<'a>), ParseError>)
    requires
        !spec_id_code_property(input@, |c: u8| PubRecReasonCode::from_wire(c)).stuck(),
    ensures
        match spec_id_code_property(input@, |c: u8| PubRecReasonCode::from_wire(c)) {
            Outcome::Parsed(v, n) => res matches Ok((rest, x)) && (x.packet_id, x.pubrec_reason_code, x.pubrec_property@) == v
                && rest@ == input@.skip(n as int),
            _ => res is Err,
        },
{
    let (input1, packet_id) = be_u16(input)?;
    let (input2, b) = be_u8(input1)?;
    let (rest, pubrec_property) = mqtt5_property(input2)?;
    let pubrec_reason_code = match PubRecReasonCode::from_u8(b) {
        Ok(c) => c,
        Err(_) => return Err(ParseError),
    };
    proof {
        assert(input2@ == input@.skip(3));
        let m = (input2@.len() - rest@.len()) as nat;
        assert(rest@ == input@.skip(3 + m as int));
    }
    Ok((rest, PubRecVariableHeader { packet_id, pubrec_reason_code, pubrec_property }))
}

/// Reads a PUBREC packet.
pub fn pubrec<'a>(input: &'a [u8]) -> (res: Result<(&'a [u8], Packet<'a>), ParseError>)
    requires
        !spec_pubrec(input@).stuck(),
    ensures
        answers(spec_pubrec(input@), input@, res),
{
    let (rest, (fixed_header, body)) = map_fixed_header(input, PacketType::PUBREC)?;
    let (payload, variable_header) = pubrec_variable_header(body)?;
    if payload.len() != 0 {
        return Err(ParseError);
    }
    Ok((rest, Packet::PubRec(PubRec { fixed_header, variable_header })))
}

/// Reads the variable header of a PUBREL packet.
fn pubrel_variable_header<'a>(input: &'a [u8]) -> (res: Result<(&'a [u8], PubRelVariableHeader<'a>), ParseError>)
    requires
        !spec_id_code_property(input@, |c: u8| PubRelReasonCode::from_wire(c)).stuck(),
    ensures
        match spec_id_code_property(input@, |c: u8| PubRelReasonCode::from_wire(c)) {
            Outcome::Parsed(v, n) => res matches Ok((rest, x)) && (x.packet_id, x.pubrel_reason_code, x.pubrel_property@) == v
                && rest@ == input@.skip(n as int),
            _ => res is Err,
        },
{
    let (input1, packet_id) = be_u16(input)?;
    let (input2, b) = be_u8(input1)?;
    let (rest, pubrel_property) = mqtt5_property(input2)?;
    let pubrel_reason_code = match PubRelReasonCode::from_u8(b) {
        Ok(c) => c,
        Err(_) => return Err(ParseError),
    };
    proof {
        assert(input2@ == input@.skip(3));
        let m = (input2@.len() - rest@.len()) as nat;
        assert(rest@ == input@.skip(3 + m as int));
    }
    Ok((rest, PubRelVariableHeader { packet_id, pubrel_reason_code, pubrel_property }))
}

/// Reads a PUBREL packet.
pub fn pubrel<'a>(input: &'a [u8]) -> (res: Result<(&'a [u8], Packet<'a>), ParseError>)
    requires
        !spec_pubrel(input@).stuck(),
    ensures
        answers(spec_pubrel(input@), input@, res),
{
    let (rest, (fixed_header, body)) = map_fixed_header(input, PacketType::PUBREL)?;
    let (payload, variable_header) = pubrel_variable_header(body)?;
    if payload.len() != 0 {
        return Err(ParseError);
    }
    Ok((rest, Packet::PubRel(PubRel { fixed_header, variable_header })))
}

/// Reads the variable header of a PUBCOMP packet.
fn pubcomp_variable_header<'a>(input: &'a [u8]) -> (res: Result<(&'a [u8], PubCompVariableHeader<'a>), ParseError>)
    requires
        !spec_id_code_property(input@, |c: u8| PubCompReasonCode::from_wire(c)).stuck(),
    ensures
        match spec_id_code_property(input@, |c: u8| PubCompReasonCode::from_wire(c)) {
            Outcome::Parsed(v, n) => res matches Ok((rest, x)) && (x.packet_id, x.pubcomp_reason_code, x.pubcomp_property@) == v
                && rest@ == input@.skip(n as int),
            _ => res is Err,
        },
{
    let (input1, packet_id) = be_u16(input)?;
    let (input2, b) = be_u8(input1)?;
    let (rest, pubcomp_property) = mqtt5_property(input2)?;
    let pubcomp_reason_code = match PubCompReasonCode::from_u8(b) {
        Ok(c) => c,
        Err(_) => return Err(ParseError),
    };
    proof {
        assert(input2@ == input@.skip(3));
        let m = (input2@.len() - rest@.len()) as nat;
        assert(rest@ == input@.skip(3 + m as int));
    }
    Ok((rest, PubCompVariableHeader { packet_id, pubcomp_reason_code, pubcomp_property }))
}

/// Reads a PUBCOMP packet.
pub fn pubcomp<'a>(input: &'a [u8]) -> (res: Result<(&'a [u8], Packet<'a>), ParseError>)
    requires
        !spec_pubcomp(input@).stuck(),
    ensures
        answers(spec_pubcomp(input@), input@, res),
{
    let (rest, (fixed_header, body)) = map_fixed_header(input, PacketType::PUBCOMP)?;
    let (payload, variable_header) = pubcomp_variable_header(body)?;
    if payload.len() != 0 {
        return Err(ParseError);
    }
    Ok((rest, Packet::PubComp(PubComp { fixed_header, variable_header })))
}

/// Reads the variable header of a DISCONNECT packet.
fn disconnect_variable_header<'a>(input: &'a [u8]) -> (res: Result<(&'a [u8], DisconnectVariableHeader<'a>), ParseError>)
    requires
        !spec_code_property(input@, |c: u8| DisconnectReasonCode::from_wire(c)).stuck(),
    ensures
        match spec_code_property(input@, |c: u8| DisconnectReasonCode::from_wire(c)) {
            Outcome::Parsed(v, n) => res matches Ok((rest, x)) && (x.disconnect_reason_code, x.disconnect_property@) == v
                && rest@ == input@.skip(n as int),
            _ => res is Err,
        },
{
    let (input1, b) = be_u8(input)?;
    let (rest, disconnect_property) = mqtt5_property(input1)?;
    let disconnect_reason_code = match DisconnectReasonCode::from_u8(b) {
        Ok(c) => c,
        Err(_) => return Err(ParseError),
    };
    proof {
        let m = (input1@.len() - rest@.len()) as nat;
        assert(rest@ == input@.skip(1 + m as int));
    }
    Ok((rest, DisconnectVariableHeader { disconnect_reason_code, disconnect_property }))
}

/// Reads a DISCONNECT packet.
pub fn disconnect<'a>(input: &'a [u8]) -> (res: Result<(&'a [u8], Packet<'a>), ParseError>)
    requires
        !spec_disconnect(input@).stuck(),
    ensures
        answers(spec_disconnect(input@), input@, res),
{
    let (rest, (fixed_header, body)) = map_fixed_header(input, PacketType::DISCONNECT)?;
    let (payload, variable_header) = disconnect_variable_header(body)?;
    if payload.len() != 0 {
        return Err(ParseError);
    }
    Ok((rest, Packet::Disconnect(Disconnect { fixed_header, variable_header })))
}

/// Reads the variable header of an AUTH packet.
fn auth_variable_header<'a>(input: &'a [u8]) -> (res: Result<(&'a [u8], AuthVariableHeader<'a>), ParseError>)
    requires
        !spec_code_property(input@, |c: u8| AuthenticateReasonCode::from_wire(c)).stuck(),
    ensures
        match spec_code_property(input@, |c: u8| AuthenticateReasonCode::from_wire(c)) {
            Outcome::Parsed(v, n) => res matches Ok((rest, x)) && (x.auth_reason_code, x.auth_property@) == v
                && rest@ == input@.skip(n as int),
            _ => res is Err,
        },
{
    let (input1, b) = be_u8(input)?;
    let (rest, auth_property) = mqtt5_property(input1)?;
    let auth_reason_code = match AuthenticateReasonCode::from_u8(b) {
        Ok(c) => c,
        Err(_) => return Err(ParseError),
    };
    proof {
        let m = (input1@.len() - rest@.len()) as nat;
        assert(rest@ == input@.skip(1 + m as int));
    }
    Ok((rest, AuthVariableHeader { auth_reason_code, auth_property }))
}

/// Reads an AUTH packet.
pub fn auth<'a>(input: &'a [u8]) -> (res: Result<(&'a [u8], Packet<'a>), ParseError>)
    requires
        !spec_auth(input@).stuck(),
    ensures
        answers(spec_auth(input@), input@, res),
{
    let (rest, (fixed_header, body)) = map_fixed_header(input, PacketType::AUTH)?;
    let (payload, variable_header) = auth_variable_header(body)?;
    if payload.len() != 0 {
        return Err(ParseError);
    }
    Ok((rest, Packet::Auth(Auth { fixed_header, variable_header })))
}

/// Reads the variable header of a CONNACK packet.
fn connack_variable_header<'a>(input: &'a [u8]) -> (res: Result<(&'a [u8], ConnAckVariableHeader<'a>), ParseError>)
    requires
        !spec_connack_variable_header(input@).stuck(),
    ensures
        match spec_connack_variable_header(input@) {
            Outcome::Parsed(v, n) => res matches Ok((rest, x))
                && (x.connack_flags.session_present, x.connect_reason_code, x.connack_property@) == v
                && rest@ == input@.skip(n as int),
            _ => res is Err,
        },
{
    let (input1, flag) = be_u8(input)?;
    let (input2, b) = be_u8(input1)?;
    let (rest, connack_property) = mqtt5_property(input2)?;
    let connect_reason_code = match ConnectReasonCode::from_u8(b) {
        Ok(c) => c,
        Err(_) => return Err(ParseError),
    };
    proof {
        assert(input2@ == input@.skip(2));
        let m = (input2@.len() - rest@.len()) as nat;
        assert(rest@ == input@.skip(2 + m as int));
        assert(input@.skip(1).skip(1) == input@.skip(2));
    }
    Ok((rest, ConnAckVariableHeader {
        connack_flags: ConnAckFlags { session_present: flag > 1 },
        connect_reason_code,
        connack_property,
    }))
}

/// Reads a CONNACK packet.
pub fn connack<'a>(input: &'a [u8]) -> (res: Result<(&'a [u8], Packet<'a>), ParseError>)
    requires
        !spec_connack(input@).stuck(),
    ensures
        answers(spec_connack(input@), input@, res),
{
    let (rest, (fixed_header, body)) = map_fixed_header(input, PacketType::CONNACK)?;
    let (payload, variable_header) = connack_variable_header(body)?;
    if payload.len() != 0 {
        return Err(ParseError);
    }
    Ok((rest, Packet::ConnAck(ConnAck { fixed_header, variable_header })))
}

/// Reads the variable header of a PUBLISH packet.
fn publish_variable_header<'a>(input: &'a [u8]) -> (res: Result<(&'a [u8], PublishVariableHeader<'a>), ParseError>)
    requires
        !spec_publish_variable_header(input@).stuck(),
    ensures
        match spec_publish_variable_header(input@) {
            Outcome::Parsed(v, n) => res matches Ok((rest, x)) && x@ == v && rest@ == input@.skip(n as int),
            _ => res is Err,
        },
{
    let (input1, topic_name) = read_string(input)?;
    let ghost n = (input@.len() - input1@.len()) as nat;
    let (input2, packet_id) = be_u16(input1)?;
    proof {
        assert(input2@ == input@.skip(n + 2 as int));
    }
    let (rest, publish_property) = mqtt5_property(input2)?;
    proof {
        let m = (input2@.len() - rest@.len()) as nat;
        assert(rest@ == input@.skip(n + 2 + m as int));
    }
    Ok((rest, PublishVariableHeader { topic_name, packet_id, publish_property }))
}

/// Reads a PUBLISH packet. The variable header must take every byte the
/// fixed header counts: a packet with a payload is refused.
pub fn publish<'a>(input: &'a [u8]) -> (res: Result<(&'a [u8], Packet<'a>), ParseError>)
    requires
        !spec_publish(input@).stuck(),
    ensures
        answers(spec_publish(input@), input@, res),
{
    let (rest, (fixed_header, body)) = map_fixed_header(input, PacketType::PUBLISH)?;
    let (payload, variable_header) = publish_variable_header(body)?;
    if payload.len() != 0 {
        return Err(ParseError);
    }
    assert(payload@ =~= Seq::<u8>::empty());
    Ok((rest, Packet::Publish(Publish { fixed_header, variable_header, payload })))
}

} // verus!
