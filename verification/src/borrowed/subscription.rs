//! Readers of the subscription packets: SUBSCRIBE, SUBACK, UNSUBSCRIBE and
//! UNSUBACK.
use vstd::prelude::*;
use crate::borrowed::{answers, Outcome, ParseError};
use crate::borrowed::primitives::{
    be_u16, be_u8, lemma_read_string_len, read_string, spec_be_u16, spec_be_u8, spec_read_string,
};
use crate::borrowed::property::{mqtt5_property, spec_mqtt5_property, Mqtt5PropertyModel};
use crate::borrowed::packet::{
    filters_model, map_fixed_header, spec_frame, subscriptions_model, Packet, PacketModel, SubAck,
    SubAckVariableHeader, Subscribe, SubscribeVariableHeader, SubscriptionOptions, UnSubAck,
    UnSubAckVariableHeader, UnSubscribe, UnSubscribeVariableHeader,
};
use crate::codec::FromToU8;
use crate::codec::packet::PacketType;
use crate::codec::publish::{qos_of, Qos};
use crate::codec::subscribe::SubscribeReasonCode;
use crate::codec::unsubscribe::UnSubscribeReasonCode;

verus! {

/// Reading a packet identifier, then a property list.
pub open spec fn spec_id_property(s: Seq<u8>) -> Outcome<(u16, Mqtt5PropertyModel)> {
    match spec_be_u16(s) {
        Outcome::Parsed(id, _) => match spec_mqtt5_property(s.skip(2)) {
            Outcome::Parsed(p, m) => Outcome::Parsed((id, p), 2 + m),
            Outcome::Rejected => Outcome::Rejected,
            Outcome::Stuck => Outcome::Stuck,
        },
        _ => Outcome::Rejected,
    }
}

/// Reads a packet identifier, then a property list.
fn id_property<'a>(input: &'a [u8]) -> (res: Result<(&'a [u8], (u16, crate::borrowed::property::Mqtt5Property<'a>)), ParseError>)
    requires
        !spec_id_property(input@).stuck(),
    ensures
        answers(spec_id_property(input@), input@, res),
{
    let (input1, packet_id) = be_u16(input)?;
    let (rest, property) = mqtt5_property(input1)?;
    proof {
        let m = (input1@.len() - rest@.len()) as nat;
        assert(rest@ == input@.skip(2 + m as int));
    }
    Ok((rest, (packet_id, property)))
}

/// The options a byte gives: maximum qos in bits 0-1 (3 panics), no local
/// in bit 2, retain as published in bit 3, retain handling in bits 4-5.
pub open spec fn spec_subscription_options(s: Seq<u8>) -> Outcome<SubscriptionOptions> {
    match spec_be_u8(s) {
        Outcome::Parsed(o, _) => match qos_of(o % 4) {
            Some(q) => Outcome::Parsed(
                SubscriptionOptions {
                    maximum_qos: q,
                    no_local: (o / 4) % 2 == 1,
                    retain_as_published: (o / 8) % 2 == 1,
                    retain_handling: (o / 16) % 4,
                },
                1,
            ),
            None => Outcome::Stuck,
        },
        _ => Outcome::Rejected,
    }
}

/// Reads the options byte of a subscription.
pub fn subscription_options<'a>(input: &'a [u8]) -> (res: Result<(&'a [u8], SubscriptionOptions), ParseError>)
    requires
        !spec_subscription_options(input@).stuck(),
    ensures
        match spec_subscription_options(input@) {
            Outcome::Parsed(o, n) => res matches Ok((rest, x)) && x == o && rest@ == input@.skip(n as int),
            _ => res is Err,
        },
{
    let (rest, option) = be_u8(input)?;
    assert(option & 0x03u8 == option % 4 && (option >> 2u8) & 0x01u8 == (option / 4) % 2
        && (option >> 3u8) & 0x01u8 == (option / 8) % 2 && (option >> 4u8) & 0x03u8 == (option / 16) % 4) by (bit_vector);
    let maximum_qos = match Qos::from_u8(option & 0x03) {
        Ok(q) => q,
        Err(_) => return Err(ParseError),
    };
    Ok((rest, SubscriptionOptions {
        maximum_qos,
        no_local: (option >> 2) & 0x01 == 1,
        retain_as_published: (option >> 3) & 0x01 == 1,
        retain_handling: (option >> 4) & 0x03,
    }))
}

/// Reading (topic filter, options) pairs for as long as they can be read;
/// `None` where an options byte panics.
pub open spec fn spec_subscriptions(s: Seq<u8>) -> Option<Seq<(Seq<char>, SubscriptionOptions)>>
    decreases s.len(),
{
    match spec_read_string(s) {
        Outcome::Parsed(f, n) => match spec_subscription_options(s.skip(n as int)) {
            Outcome::Parsed(o, _) => if n + 1 <= s.len() {
                match spec_subscriptions(s.skip(n + 1 as int)) {
                    Some(rest) => Some(seq![(f, o)] + rest),
                    None => None,
                }
            } else {
                None
            },
            Outcome::Rejected => Some(Seq::empty()),
            Outcome::Stuck => None,
        },
        _ => Some(Seq::empty()),
    }
}

/// Reading a SUBSCRIBE packet: its frame, the packet identifier and
/// properties, then as many subscriptions as can be read from the rest of
/// the frame.
pub open spec fn spec_subscribe(s: Seq<u8>) -> Outcome<PacketModel> {
    match spec_frame(s, PacketType::SUBSCRIBE) {
        Outcome::Parsed((h, body), n) => match spec_id_property(body) {
            Outcome::Parsed(v, m) => match spec_subscriptions(body.skip(m as int)) {
                Some(subs) => Outcome::Parsed(PacketModel::Subscribe((h, v, subs)), n),
                None => Outcome::Stuck,
            },
            Outcome::Rejected => Outcome::Rejected,
            Outcome::Stuck => Outcome::Stuck,
        },
        Outcome::Rejected => Outcome::Rejected,
        Outcome::Stuck => Outcome::Stuck,
    }
}

/// Reads a SUBSCRIBE packet.
pub fn subscribe<'a>(input: &'a [u8]) -> (res: Result<(&'a [u8], Packet<'a>), ParseError>)
    requires
        !spec_subscribe(input@).stuck(),
    ensures
        answers(spec_subscribe(input@), input@, res),
{
    let (rest, (fixed_header, body)) = map_fixed_header(input, PacketType::SUBSCRIBE)?;
    let (payloads, (packet_id, subscribe_property)) = id_property(body)?;
    let ghost all = spec_subscriptions(payloads@)->Some_0;
    let mut payload: Vec<(&'a str, SubscriptionOptions)> = Vec::new();
    let mut p = payloads;
    assert(subscriptions_model(payload@) =~= Seq::<(Seq<char>, SubscriptionOptions)>::empty());
    loop
        invariant_except_break
            spec_subscriptions(p@) is Some,
            all == subscriptions_model(payload@) + spec_subscriptions(p@)->Some_0,
        ensures
            all == subscriptions_model(payload@),
        decreases p@.len(),
    {
        proof {
            lemma_read_string_len(p@);
        }
        let (p1, filter) = match read_string(p) {
            Ok(x) => x,
            Err(_) => {
                assert(all =~= subscriptions_model(payload@));
                break;
            },
        };
        let ghost n = (p@.len() - p1@.len()) as nat;
        let (p2, options) = match subscription_options(p1) {
            Ok(x) => x,
            Err(_) => {
                assert(all =~= subscriptions_model(payload@));
                break;
            },
        };
        proof {
            assert(p2@ == p@.skip(n + 1 as int));
            let tail = spec_subscriptions(p2@)->Some_0;
            assert(subscriptions_model(payload@.push((filter, options))) =~= subscriptions_model(payload@).push((filter@, options)));
            assert(subscriptions_model(payload@) + (seq![(filter@, options)] + tail)
                =~= subscriptions_model(payload@).push((filter@, options)) + tail);
        }
        payload.push((filter, options));
        p = p2;
    }
    Ok((rest, Packet::Subscribe(Subscribe {
        fixed_header,
        variable_header: SubscribeVariableHeader { packet_id, subscribe_property },
        payload,
    })))
}

/// Reading topic filters for as long as they can be read.
pub open spec fn spec_filters(s: Seq<u8>) -> Seq<Seq<char>>
    decreases s.len(),
{
    match spec_read_string(s) {
        Outcome::Parsed(f, n) => if 1 <= n <= s.len() { seq![f] + spec_filters(s.skip(n as int)) } else { Seq::empty() },
        _ => Seq::empty(),
    }
}

/// Reading an UNSUBSCRIBE packet: its frame, the packet identifier and
/// properties, then as many topic filters as can be read from the rest of
/// the frame.
pub open spec fn spec_unsubscribe(s: Seq<u8>) -> Outcome<PacketModel> {
    match spec_frame(s, PacketType::UNSUBSCRIBE) {
        Outcome::Parsed((h, body), n) => match spec_id_property(body) {
            Outcome::Parsed(v, m) => Outcome::Parsed(
                PacketModel::UnSubscribe((h, v, spec_filters(body.skip(m as int)))),
                n,
            ),
            Outcome::Rejected => Outcome::Rejected,
            Outcome::Stuck => Outcome::Stuck,
        },
        Outcome::Rejected => Outcome::Rejected,
        Outcome::Stuck => Outcome::Stuck,
    }
}

/// Reads an UNSUBSCRIBE packet.
pub fn unsubscribe<'a>(input: &'a [u8]) -> (res: Result<(&'a [u8], Packet<'a>), ParseError>)
    requires
        !spec_unsubscribe(input@).stuck(),
    ensures
        answers(spec_unsubscribe(input@), input@, res),
{
    let (rest, (fixed_header, body)) = map_fixed_header(input, PacketType::UNSUBSCRIBE)?;
    let (payloads, (packet_id, unsubscribe_property)) = id_property(body)?;
    let ghost all = spec_filters(payloads@);
    let mut payload: Vec<&'a str> = Vec::new();
    let mut p = payloads;
    assert(filters_model(payload@) =~= Seq::<Seq<char>>::empty());
    loop
        invariant_except_break
            all == filters_model(payload@) + spec_filters(p@),
        ensures
            all == filters_model(payload@),
        decreases p@.len(),
    {
        proof {
            lemma_read_string_len(p@);
        }
        let (p1, filter) = match read_string(p) {
            Ok(x) => x,
            Err(_) => {
                assert(all =~= filters_model(payload@));
                break;
            },
        };
        proof {
            assert(filters_model(payload@.push(filter)) =~= filters_model(payload@).push(filter@));
            assert(filters_model(payload@) + (seq![filter@] + spec_filters(p1@))
                =~= filters_model(payload@).push(filter@) + spec_filters(p1@));
        }
        payload.push(filter);
        p = p1;
    }
    Ok((rest, Packet::UnSubscribe(UnSubscribe {
        fixed_header,
        variable_header: UnSubscribeVariableHeader { packet_id, unsubscribe_property },
        payload,
    })))
}

/// The SUBACK reason codes of the bytes `s`, where each byte is one.
pub open spec fn spec_subscribe_codes(s: Seq<u8>) -> Option<Seq<SubscribeReasonCode>> {
    if forall|i: int| 0 <= i < s.len() ==> #[trigger] SubscribeReasonCode::from_wire(s[i]) is Some {
        Some(Seq::new(s.len(), |i: int| SubscribeReasonCode::from_wire(s[i])->Some_0))
    } else {
        None
    }
}

/// The UNSUBACK reason codes of the bytes `s`, where each byte is one.
pub open spec fn spec_unsubscribe_codes(s: Seq<u8>) -> Option<Seq<UnSubscribeReasonCode>> {
    if forall|i: int| 0 <= i < s.len() ==> #[trigger] UnSubscribeReasonCode::from_wire(s[i]) is Some {
        Some(Seq::new(s.len(), |i: int| UnSubscribeReasonCode::from_wire(s[i])->Some_0))
    } else {
        None
    }
}

/// Reads a reason code from every byte of `bytes`.
fn subscribe_codes(bytes: &[u8]) -> (res: Result<Vec<SubscribeReasonCode>, ParseError>)
    ensures
        match spec_subscribe_codes(bytes@) {
            Some(codes) => res matches Ok(v) && v@ == codes,
            None => res is Err,
        },
{
    let mut payload: Vec<SubscribeReasonCode> = Vec::new();
    let mut i: usize = 0;
    while i < bytes.len()
        invariant
            i <= bytes@.len(),
            payload@.len() == i,
            forall|j: int| 0 <= j < i ==> SubscribeReasonCode::from_wire(#[trigger] bytes@[j]) == Some(payload@[j]),
        decreases bytes@.len() - i,
    {
        let code = match SubscribeReasonCode::from_u8(bytes[i]) {
            Ok(c) => c,
            Err(_) => {
                proof {
                    assert(!(SubscribeReasonCode::from_wire(bytes@[i as int]) is Some));
                }
                return Err(ParseError);
            },
        };
        payload.push(code);
        i = i + 1;
    }
    assert(payload@ =~= Seq::new(bytes@.len(), |j: int| SubscribeReasonCode::from_wire(bytes@[j])->Some_0));
    Ok(payload)
}

/// Reads a reason code from every byte of `bytes`.
fn unsubscribe_codes(bytes: &[u8]) -> (res: Result<Vec<UnSubscribeReasonCode>, ParseError>)
    ensures
        match spec_unsubscribe_codes(bytes@) {
            Some(codes) => res matches Ok(v) && v@ == codes,
            None => res is Err,
        },
{
    let mut payload: Vec<UnSubscribeReasonCode> = Vec::new();
    let mut i: usize = 0;
    while i < bytes.len()
        invariant
            i <= bytes@.len(),
            payload@.len() == i,
            forall|j: int| 0 <= j < i ==> UnSubscribeReasonCode::from_wire(#[trigger] bytes@[j]) == Some(payload@[j]),
        decreases bytes@.len() - i,
    {
        let code = match UnSubscribeReasonCode::from_u8(bytes[i]) {
            Ok(c) => c,
            Err(_) => {
                proof {
                    assert(!(UnSubscribeReasonCode::from_wire(bytes@[i as int]) is Some));
                }
                return Err(ParseError);
            },
        };
        payload.push(code);
        i = i + 1;
    }
    assert(payload@ =~= Seq::new(bytes@.len(), |j: int| UnSubscribeReasonCode::from_wire(bytes@[j])->Some_0));
    Ok(payload)
}

/// Reading a SUBACK packet: its frame, the packet identifier and
/// properties; the reason codes are then every byte of the input after the
/// frame (the bytes the frame counts after the properties are left unread).
pub open spec fn spec_suback(s: Seq<u8>) -> Outcome<PacketModel> {
    match spec_frame(s, PacketType::SUBACK) {
        Outcome::Parsed((h, body), n) => match spec_id_property(body) {
            Outcome::Parsed(v, _) => match spec_subscribe_codes(s.skip(n as int)) {
                Some(codes) => Outcome::Parsed(PacketModel::SubAck((h, v, codes)), s.len()),
                None => Outcome::Rejected,
            },
            Outcome::Rejected => Outcome::Rejected,
            Outcome::Stuck => Outcome::Stuck,
        },
        Outcome::Rejected => Outcome::Rejected,
        Outcome::Stuck => Outcome::Stuck,
    }
}

/// Reads a SUBACK packet.
pub fn suback<'a>(input: &'a [u8]) -> (res: Result<(&'a [u8], Packet<'a>), ParseError>)
    requires
        !spec_suback(input@).stuck(),
    ensures
        answers(spec_suback(input@), input@, res),
{
    let (rest, (fixed_header, body)) = map_fixed_header(input, PacketType::SUBACK)?;
    let (_, (packet_id, suback_property)) = id_property(body)?;
    let payload = subscribe_codes(rest)?;
    let (_, end) = rest.split_at(rest.len());
    assert(end@ == input@.skip(input@.len() as int));
    Ok((end, Packet::SubAck(SubAck {
        fixed_header,
        variable_header: SubAckVariableHeader { packet_id, suback_property },
        payload,
    })))
}

/// Reading an UNSUBACK packet: its frame, the packet identifier and
/// properties, then a reason code for every remaining byte of the frame.
pub open spec fn spec_unsuback(s: Seq<u8>) -> Outcome<PacketModel> {
    match spec_frame(s, PacketType::UNSUBACK) {
        Outcome::Parsed((h, body), n) => match spec_id_property(body) {
            Outcome::Parsed(v, m) => match spec_unsubscribe_codes(body.skip(m as int)) {
                Some(codes) => Outcome::Parsed(PacketModel::UnSubAck((h, v, codes)), n),
                None => Outcome::Rejected,
            },
            Outcome::Rejected => Outcome::Rejected,
            Outcome::Stuck => Outcome::Stuck,
        },
        Outcome::Rejected => Outcome::Rejected,
        Outcome::Stuck => Outcome::Stuck,
    }
}

/// Reads an UNSUBACK packet.
pub fn unsuback<'a>(input: &'a [u8]) -> (res: Result<(&'a [u8], Packet<'a>), ParseError>)
    requires
        !spec_unsuback(input@).stuck(),
    ensures
        answers(spec_unsuback(input@), input@, res),
{
    let (rest, (fixed_header, body)) = map_fixed_header(input, PacketType::UNSUBACK)?;
    let (payloads, (packet_id, unsuback_property)) = id_property(body)?;
    let payload = unsubscribe_codes(payloads)?;
    Ok((rest, Packet::UnSubAck(UnSubAck {
        fixed_header,
        variable_header: UnSubAckVariableHeader { packet_id, unsuback_property },
        payload,
    })))
}

} // verus!
