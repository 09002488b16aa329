//! What reading a written packet gives back, for the packets made of a fixed
//! header and a variable header: the acknowledgements, DISCONNECT, AUTH and
//! CONNACK. Each is read back by its own decoder and by `Packet::parse`.
use vstd::prelude::*;
use crate::codec::check::keys_within;
use crate::codec::error::Decoded;
use crate::codec::fixed_header::{fixed_header_bytes, FixedHeader};
use crate::codec::header_laws::{
    lemma_fixed_header_roundtrip, lemma_puback_variable_header_roundtrip, lemma_pubrec_variable_header_roundtrip, lemma_pubrel_variable_header_roundtrip, lemma_pubcomp_variable_header_roundtrip, lemma_disconnect_variable_header_roundtrip, lemma_auth_variable_header_roundtrip, lemma_connack_variable_header_roundtrip,
};
use crate::codec::packet::{spec_packet, PacketModel, PacketType};
use crate::codec::property::Mqtt5PropertyModel;
use crate::codec::property_laws::property_roundtrips;
use crate::codec::publish::Qos;
use crate::codec::connect::ConnectReasonCode;
use crate::codec::pingreq::{pingreq_header, spec_pingreq};
use crate::codec::pingresp::{pingresp_header, spec_pingresp};
use crate::codec::property_encode::{is_key_order, property_encoding, entries_bytes};
use crate::codec::property_laws::lemma_varint_small;
use crate::codec::subscribe::SubscribeReasonCode;
use crate::codec::unsubscribe::UnSubscribeReasonCode;
use crate::codec::suback::{
    spec_suback, spec_suback_codes, suback_codes_bytes, suback_property_ids, suback_variable_header_encoding,
};
use crate::codec::unsuback::{
    spec_unsuback, spec_unsuback_codes, unsuback_codes_bytes, unsuback_property_ids,
    unsuback_variable_header_encoding,
};
use crate::codec::header_laws::{lemma_suback_variable_header_roundtrip, lemma_unsuback_variable_header_roundtrip};
use crate::codec::header_laws::lemma_publish_variable_header_roundtrip;

use crate::codec::publish::{publish_property_ids, publish_variable_header_encoding, spec_publish, spec_publish_extra};
use crate::codec::length_prefixed;
use vstd::utf8::encode_utf8;
use crate::codec::header_laws::{lemma_subscribe_variable_header_roundtrip, lemma_unsubscribe_variable_header_roundtrip};
use crate::codec::publish::{lemma_qos_code_roundtrip, qos_code};
use crate::codec::property_laws::{lemma_concat_front, lemma_string_roundtrip};
use crate::codec::subscribe::{
    options_byte, options_of, spec_subscribe, spec_subscribe_extra, spec_subscribe_topics, subscribe_item_bytes,
    subscribe_payload_bytes, subscribe_property_ids, subscribe_variable_header_encoding,
};
use crate::codec::unsubscribe::{
    spec_unsubscribe, spec_unsubscribe_extra, spec_unsubscribe_topics, unsubscribe_item_bytes,
    unsubscribe_payload_bytes, unsubscribe_property_ids, unsubscribe_variable_header_encoding,
};
use crate::codec::puback::{puback_property_ids, puback_variable_header_encoding, spec_puback, PubAckReasonCode};
use crate::codec::pubrec::{pubrec_property_ids, pubrec_variable_header_encoding, spec_pubrec, PubRecReasonCode};
use crate::codec::pubrel::{pubrel_property_ids, pubrel_variable_header_encoding, spec_pubrel, PubRelReasonCode};
use crate::codec::pubcomp::{pubcomp_property_ids, pubcomp_variable_header_encoding, spec_pubcomp, PubCompReasonCode};
use crate::codec::disconnect::{disconnect_property_ids, disconnect_variable_header_encoding, spec_disconnect, DisconnectReasonCode};
use crate::codec::auth::{auth_property_ids, auth_variable_header_encoding, spec_auth, AuthenticateReasonCode};
use crate::codec::connack::{connack_property_ids, connack_variable_header_encoding, spec_connack};

verus! {

/// Reading a written PUBACK packet gives it back: for a fixed header of type
/// PUBACK with qos 0 and no other flag, whose remaining length is the length
/// (below 127) of the variable header written after it, and a variable
/// header that reads back, the bytes written decode to the packet, both by
/// the PUBACK decoder and as any packet.
pub proof fn lemma_puback_roundtrip(p: (FixedHeader, (u16, PubAckReasonCode, Mqtt5PropertyModel)), wv: Seq<u8>)
    requires
        p.0.packet_type == PacketType::PUBACK,
        !p.0.dup,
        p.0.qos == Qos::AtMostOnce,
        !p.0.retain,
        p.0.remaining_length == wv.len(),
        wv.len() <= 126,
        p.1.0 != 0,
        property_roundtrips(p.1.2),
        keys_within(p.1.2.properties, puback_property_ids()),
        puback_variable_header_encoding(p.1, wv),
    ensures
        spec_puback(fixed_header_bytes(p.0) + wv) == Decoded::Done(p, 2 + wv.len()),
        spec_packet(fixed_header_bytes(p.0) + wv) == Decoded::Done(PacketModel::PubAck(p), 2 + wv.len()),
{
    reveal(crate::codec::packet::spec_packet_body);
    let s = fixed_header_bytes(p.0) + wv;
    lemma_fixed_header_roundtrip(p.0, wv);
    assert(s.skip(2) =~= wv);
    assert(wv + Seq::<u8>::empty() =~= wv);
    lemma_puback_variable_header_roundtrip(p.1, wv, Seq::<u8>::empty());
}

/// Reading a written PUBREC packet gives it back: for a fixed header of type
/// PUBREC with qos 0 and no other flag, whose remaining length is the length
/// (below 127) of the variable header written after it, and a variable
/// header that reads back, the bytes written decode to the packet, both by
/// the PUBREC decoder and as any packet.
pub proof fn lemma_pubrec_roundtrip(p: (FixedHeader, (u16, PubRecReasonCode, Mqtt5PropertyModel)), wv: Seq<u8>)
    requires
        p.0.packet_type == PacketType::PUBREC,
        !p.0.dup,
        p.0.qos == Qos::AtMostOnce,
        !p.0.retain,
        p.0.remaining_length == wv.len(),
        wv.len() <= 126,
        p.1.0 != 0,
        property_roundtrips(p.1.2),
        keys_within(p.1.2.properties, pubrec_property_ids()),
        pubrec_variable_header_encoding(p.1, wv),
    ensures
        spec_pubrec(fixed_header_bytes(p.0) + wv) == Decoded::Done(p, 2 + wv.len()),
        spec_packet(fixed_header_bytes(p.0) + wv) == Decoded::Done(PacketModel::PubRec(p), 2 + wv.len()),
{
    reveal(crate::codec::packet::spec_packet_body);
    let s = fixed_header_bytes(p.0) + wv;
    lemma_fixed_header_roundtrip(p.0, wv);
    assert(s.skip(2) =~= wv);
    assert(wv + Seq::<u8>::empty() =~= wv);
    lemma_pubrec_variable_header_roundtrip(p.1, wv, Seq::<u8>::empty());
}

/// Reading a written PUBREL packet gives it back: for a fixed header of type
/// PUBREL with qos 1 and no other flag, whose remaining length is the length
/// (below 127) of the variable header written after it, and a variable
/// header that reads back, the bytes written decode to the packet, both by
/// the PUBREL decoder and as any packet.
pub proof fn lemma_pubrel_roundtrip(p: (FixedHeader, (u16, PubRelReasonCode, Mqtt5PropertyModel)), wv: Seq<u8>)
    requires
        p.0.packet_type == PacketType::PUBREL,
        !p.0.dup,
        p.0.qos == Qos::AtLeastOnce,
        !p.0.retain,
        p.0.remaining_length == wv.len(),
        wv.len() <= 126,
        p.1.0 != 0,
        property_roundtrips(p.1.2),
        keys_within(p.1.2.properties, pubrel_property_ids()),
        pubrel_variable_header_encoding(p.1, wv),
    ensures
        spec_pubrel(fixed_header_bytes(p.0) + wv) == Decoded::Done(p, 2 + wv.len()),
        spec_packet(fixed_header_bytes(p.0) + wv) == Decoded::Done(PacketModel::PubRel(p), 2 + wv.len()),
{
    reveal(crate::codec::packet::spec_packet_body);
    let s = fixed_header_bytes(p.0) + wv;
    lemma_fixed_header_roundtrip(p.0, wv);
    assert(s.skip(2) =~= wv);
    assert(wv + Seq::<u8>::empty() =~= wv);
    lemma_pubrel_variable_header_roundtrip(p.1, wv, Seq::<u8>::empty());
}

/// Reading a written PUBCOMP packet gives it back: for a fixed header of type
/// PUBCOMP with qos 0 and no other flag, whose remaining length is the length
/// (below 127) of the variable header written after it, and a variable
/// header that reads back, the bytes written decode to the packet, both by
/// the PUBCOMP decoder and as any packet.
pub proof fn lemma_pubcomp_roundtrip(p: (FixedHeader, (u16, PubCompReasonCode, Mqtt5PropertyModel)), wv: Seq<u8>)
    requires
        p.0.packet_type == PacketType::PUBCOMP,
        !p.0.dup,
        p.0.qos == Qos::AtMostOnce,
        !p.0.retain,
        p.0.remaining_length == wv.len(),
        wv.len() <= 126,
        p.1.0 != 0,
        property_roundtrips(p.1.2),
        keys_within(p.1.2.properties, pubcomp_property_ids()),
        pubcomp_variable_header_encoding(p.1, wv),
    ensures
        spec_pubcomp(fixed_header_bytes(p.0) + wv) == Decoded::Done(p, 2 + wv.len()),
        spec_packet(fixed_header_bytes(p.0) + wv) == Decoded::Done(PacketModel::PubComp(p), 2 + wv.len()),
{
    reveal(crate::codec::packet::spec_packet_body);
    let s = fixed_header_bytes(p.0) + wv;
    lemma_fixed_header_roundtrip(p.0, wv);
    assert(s.skip(2) =~= wv);
    assert(wv + Seq::<u8>::empty() =~= wv);
    lemma_pubcomp_variable_header_roundtrip(p.1, wv, Seq::<u8>::empty());
}

/// Reading a written DISCONNECT packet gives it back: for a fixed header of type
/// DISCONNECT with qos 0 and no other flag, whose remaining length is the length
/// (below 127) of the variable header written after it, and a variable
/// header that reads back, the bytes written decode to the packet, both by
/// the DISCONNECT decoder and as any packet.
pub proof fn lemma_disconnect_roundtrip(p: (FixedHeader, (DisconnectReasonCode, Mqtt5PropertyModel)), wv: Seq<u8>)
    requires
        p.0.packet_type == PacketType::DISCONNECT,
        !p.0.dup,
        p.0.qos == Qos::AtMostOnce,
        !p.0.retain,
        p.0.remaining_length == wv.len(),
        wv.len() <= 126,
        property_roundtrips(p.1.1),
        keys_within(p.1.1.properties, disconnect_property_ids()),
        disconnect_variable_header_encoding(p.1, wv),
    ensures
        spec_disconnect(fixed_header_bytes(p.0) + wv) == Decoded::Done(p, 2 + wv.len()),
        spec_packet(fixed_header_bytes(p.0) + wv) == Decoded::Done(PacketModel::Disconnect(p), 2 + wv.len()),
{
    reveal(crate::codec::packet::spec_packet_body);
    let s = fixed_header_bytes(p.0) + wv;
    lemma_fixed_header_roundtrip(p.0, wv);
    assert(s.skip(2) =~= wv);
    assert(wv + Seq::<u8>::empty() =~= wv);
    lemma_disconnect_variable_header_roundtrip(p.1, wv, Seq::<u8>::empty());
}

/// Reading a written AUTH packet gives it back: for a fixed header of type
/// AUTH with qos 0 and no other flag, whose remaining length is the length
/// (below 127) of the variable header written after it, and a variable
/// header that reads back, the bytes written decode to the packet, both by
/// the AUTH decoder and as any packet.
pub proof fn lemma_auth_roundtrip(p: (FixedHeader, (AuthenticateReasonCode, Mqtt5PropertyModel)), wv: Seq<u8>)
    requires
        p.0.packet_type == PacketType::AUTH,
        !p.0.dup,
        p.0.qos == Qos::AtMostOnce,
        !p.0.retain,
        p.0.remaining_length == wv.len(),
        wv.len() <= 126,
        property_roundtrips(p.1.1),
        keys_within(p.1.1.properties, auth_property_ids()),
        auth_variable_header_encoding(p.1, wv),
    ensures
        spec_auth(fixed_header_bytes(p.0) + wv) == Decoded::Done(p, 2 + wv.len()),
        spec_packet(fixed_header_bytes(p.0) + wv) == Decoded::Done(PacketModel::Auth(p), 2 + wv.len()),
{
    reveal(crate::codec::packet::spec_packet_body);
    let s = fixed_header_bytes(p.0) + wv;
    lemma_fixed_header_roundtrip(p.0, wv);
    assert(s.skip(2) =~= wv);
    assert(wv + Seq::<u8>::empty() =~= wv);
    lemma_auth_variable_header_roundtrip(p.1, wv, Seq::<u8>::empty());
}

/// Reading a written CONNACK packet gives it back: for a fixed header of type
/// CONNACK with qos 0 and no other flag, whose remaining length is the length
/// (below 127) of the variable header written after it, and a variable
/// header that reads back, the bytes written decode to the packet, both by
/// the CONNACK decoder and as any packet.
pub proof fn lemma_connack_roundtrip(p: (FixedHeader, (bool, ConnectReasonCode, Mqtt5PropertyModel)), wv: Seq<u8>)
    requires
        p.0.packet_type == PacketType::CONNACK,
        !p.0.dup,
        p.0.qos == Qos::AtMostOnce,
        !p.0.retain,
        p.0.remaining_length == wv.len(),
        wv.len() <= 126,
        property_roundtrips(p.1.2),
        keys_within(p.1.2.properties, connack_property_ids()),
        connack_variable_header_encoding(p.1, wv),
    ensures
        spec_connack(fixed_header_bytes(p.0) + wv) == Decoded::Done(p, 2 + wv.len()),
        spec_packet(fixed_header_bytes(p.0) + wv) == Decoded::Done(PacketModel::ConnAck(p), 2 + wv.len()),
{
    reveal(crate::codec::packet::spec_packet_body);
    let s = fixed_header_bytes(p.0) + wv;
    lemma_fixed_header_roundtrip(p.0, wv);
    assert(s.skip(2) =~= wv);
    assert(wv + Seq::<u8>::empty() =~= wv);
    lemma_connack_variable_header_roundtrip(p.1, wv, Seq::<u8>::empty());
}

/// Reading a written PINGREQ packet gives it back.
pub proof fn lemma_pingreq_roundtrip()
    ensures
        spec_pingreq(fixed_header_bytes(pingreq_header())) == Decoded::Done(pingreq_header(), 2),
        spec_packet(fixed_header_bytes(pingreq_header())) == Decoded::Done(PacketModel::PingReq(pingreq_header()), 2),
{
    reveal(crate::codec::packet::spec_packet_body);
    lemma_fixed_header_roundtrip(pingreq_header(), Seq::empty());
    assert(fixed_header_bytes(pingreq_header()) + Seq::<u8>::empty() =~= fixed_header_bytes(pingreq_header()));
}

/// Reading a written PINGRESP packet gives it back.
pub proof fn lemma_pingresp_roundtrip()
    ensures
        spec_pingresp(fixed_header_bytes(pingresp_header())) == Decoded::Done(pingresp_header(), 2),
        spec_packet(fixed_header_bytes(pingresp_header())) == Decoded::Done(PacketModel::PingResp(pingresp_header()), 2),
{
    reveal(crate::codec::packet::spec_packet_body);
    lemma_fixed_header_roundtrip(pingresp_header(), Seq::empty());
    assert(fixed_header_bytes(pingresp_header()) + Seq::<u8>::empty() =~= fixed_header_bytes(pingresp_header()));
}

/// A property list that reads back is written as its one length byte and
/// its declared length of entries.
pub(crate) proof fn lemma_property_encoding_len(p: Mqtt5PropertyModel, w: Seq<u8>)
    requires
        property_roundtrips(p),
        property_encoding(p, w),
    ensures
        w.len() == 1 + p.property_length,
{
    let keys = choose|keys: Seq<u32>|
        is_key_order(keys, p.properties.dom()) && w == crate::codec::varint_encode(p.property_length as nat)
            + entries_bytes(p.properties, keys);
    lemma_varint_small(p.property_length as nat, Seq::empty());
}

/// Written SUBACK reason codes read back, after the codes read before.
proof fn lemma_suback_codes_roundtrip(codes: Seq<SubscribeReasonCode>, acc: Seq<SubscribeReasonCode>)
    ensures
        spec_suback_codes(suback_codes_bytes(codes), codes.len(), acc) == Decoded::Done(acc + codes, codes.len()),
    decreases codes.len(),
{
    if codes.len() == 0 {
        assert(acc + codes =~= acc);
    } else {
        let b = suback_codes_bytes(codes);
        codes[0].lemma_wire_code(codes[0].wire_code());
        assert(b[0] == codes[0].wire_code());
        assert(b.skip(1) =~= suback_codes_bytes(codes.skip(1)));
        lemma_suback_codes_roundtrip(codes.skip(1), acc.push(codes[0]));
        assert(acc.push(codes[0]) + codes.skip(1) =~= acc + codes);
    }
}

/// Written UNSUBACK reason codes read back, after the codes read before.
proof fn lemma_unsuback_codes_roundtrip(codes: Seq<UnSubscribeReasonCode>, acc: Seq<UnSubscribeReasonCode>)
    ensures
        spec_unsuback_codes(unsuback_codes_bytes(codes), codes.len(), acc) == Decoded::Done(acc + codes, codes.len()),
    decreases codes.len(),
{
    if codes.len() == 0 {
        assert(acc + codes =~= acc);
    } else {
        let b = unsuback_codes_bytes(codes);
        codes[0].lemma_wire_code(codes[0].wire_code());
        assert(b[0] == codes[0].wire_code());
        assert(b.skip(1) =~= unsuback_codes_bytes(codes.skip(1)));
        lemma_unsuback_codes_roundtrip(codes.skip(1), acc.push(codes[0]));
        assert(acc.push(codes[0]) + codes.skip(1) =~= acc + codes);
    }
}

/// The part of a written SUBACK packet after its fixed header reads back.
#[verifier::spinoff_prover]
pub(crate) proof fn lemma_suback_extra_roundtrip(
    p: (FixedHeader, (u16, Mqtt5PropertyModel), Seq<SubscribeReasonCode>),
    wv: Seq<u8>,
)
    requires
        p.0.remaining_length == wv.len() + p.2.len(),
        p.1.0 != 0,
        property_roundtrips(p.1.1),
        keys_within(p.1.1.properties, suback_property_ids()),
        suback_variable_header_encoding(p.1, wv),
    ensures
        crate::codec::suback::spec_suback_extra(wv + suback_codes_bytes(p.2), p.0) == Decoded::Done(p, wv.len() + p.2.len()),
{
    let cb = suback_codes_bytes(p.2);
    let body = wv + cb;
    lemma_suback_variable_header_roundtrip(p.1, wv, cb);
    let pw = choose|pw: Seq<u8>| property_encoding(p.1.1, pw) && wv == crate::codec::be16(p.1.0) + pw;
    lemma_property_encoding_len(p.1.1, pw);
    lemma_varint_small(p.1.1.property_length as nat, Seq::empty());
    assert(body.skip(wv.len() as int) =~= cb);
    lemma_suback_codes_roundtrip(p.2, Seq::empty());
    assert(Seq::<SubscribeReasonCode>::empty() + p.2 =~= p.2);
}

/// Reading a written SUBACK packet gives it back: for a fixed header of
/// type SUBACK with no flags, whose remaining length is the length (below
/// 127) of the variable header and reason codes written after it, a nonzero
/// packet identifier and properties that read back, the bytes written
/// decode to the packet, both by the SUBACK decoder and as any packet.
#[verifier::rlimit(40)]
#[verifier::spinoff_prover]
pub proof fn lemma_suback_roundtrip(
    p: (FixedHeader, (u16, Mqtt5PropertyModel), Seq<SubscribeReasonCode>),
    wv: Seq<u8>,
)
    requires
        p.0.packet_type == PacketType::SUBACK,
        !p.0.dup,
        p.0.qos == Qos::AtMostOnce,
        !p.0.retain,
        p.0.remaining_length == wv.len() + p.2.len(),
        wv.len() + p.2.len() <= 126,
        p.1.0 != 0,
        property_roundtrips(p.1.1),
        keys_within(p.1.1.properties, suback_property_ids()),
        suback_variable_header_encoding(p.1, wv),
    ensures
        spec_suback(fixed_header_bytes(p.0) + wv + suback_codes_bytes(p.2))
            == Decoded::Done(p, 2 + wv.len() + p.2.len()),
        spec_packet(fixed_header_bytes(p.0) + wv + suback_codes_bytes(p.2))
            == Decoded::Done(PacketModel::SubAck(p), 2 + wv.len() + p.2.len()),
{
    reveal(crate::codec::packet::spec_packet_body);
    let cb = suback_codes_bytes(p.2);
    let body = wv + cb;
    let s = fixed_header_bytes(p.0) + wv + cb;
    assert(s =~= fixed_header_bytes(p.0) + body);
    lemma_fixed_header_roundtrip(p.0, body);
    assert(s.skip(2) =~= body);
    lemma_suback_extra_roundtrip(p, wv);
    assert(crate::codec::packet::spec_packet_body(s.skip(2), p.0) == Decoded::Done(PacketModel::SubAck(p), wv.len() + p.2.len()));
}

/// The part of a written UNSUBACK packet after its fixed header reads back.
#[verifier::spinoff_prover]
pub(crate) proof fn lemma_unsuback_extra_roundtrip(
    p: (FixedHeader, (u16, Mqtt5PropertyModel), Seq<UnSubscribeReasonCode>),
    wv: Seq<u8>,
)
    requires
        p.0.remaining_length == wv.len() + p.2.len(),
        p.1.0 != 0,
        property_roundtrips(p.1.1),
        keys_within(p.1.1.properties, unsuback_property_ids()),
        unsuback_variable_header_encoding(p.1, wv),
    ensures
        crate::codec::unsuback::spec_unsuback_extra(wv + unsuback_codes_bytes(p.2), p.0) == Decoded::Done(p, wv.len() + p.2.len()),
{
    let cb = unsuback_codes_bytes(p.2);
    let body = wv + cb;
    lemma_unsuback_variable_header_roundtrip(p.1, wv, cb);
    let pw = choose|pw: Seq<u8>| property_encoding(p.1.1, pw) && wv == crate::codec::be16(p.1.0) + pw;
    lemma_property_encoding_len(p.1.1, pw);
    lemma_varint_small(p.1.1.property_length as nat, Seq::empty());
    assert(body.skip(wv.len() as int) =~= cb);
    lemma_unsuback_codes_roundtrip(p.2, Seq::empty());
    assert(Seq::<UnSubscribeReasonCode>::empty() + p.2 =~= p.2);
}

/// Reading a written UNSUBACK packet gives it back: for a fixed header of
/// type UNSUBACK with no flags, whose remaining length is the length (below
/// 127) of the variable header and reason codes written after it, a nonzero
/// packet identifier and properties that read back, the bytes written
/// decode to the packet, both by the UNSUBACK decoder and as any packet.
#[verifier::rlimit(40)]
#[verifier::spinoff_prover]
pub proof fn lemma_unsuback_roundtrip(
    p: (FixedHeader, (u16, Mqtt5PropertyModel), Seq<UnSubscribeReasonCode>),
    wv: Seq<u8>,
)
    requires
        p.0.packet_type == PacketType::UNSUBACK,
        !p.0.dup,
        p.0.qos == Qos::AtMostOnce,
        !p.0.retain,
        p.0.remaining_length == wv.len() + p.2.len(),
        wv.len() + p.2.len() <= 126,
        p.1.0 != 0,
        property_roundtrips(p.1.1),
        keys_within(p.1.1.properties, unsuback_property_ids()),
        unsuback_variable_header_encoding(p.1, wv),
    ensures
        spec_unsuback(fixed_header_bytes(p.0) + wv + unsuback_codes_bytes(p.2))
            == Decoded::Done(p, 2 + wv.len() + p.2.len()),
        spec_packet(fixed_header_bytes(p.0) + wv + unsuback_codes_bytes(p.2))
            == Decoded::Done(PacketModel::UnSubAck(p), 2 + wv.len() + p.2.len()),
{
    reveal(crate::codec::packet::spec_packet_body);
    let cb = unsuback_codes_bytes(p.2);
    let body = wv + cb;
    let s = fixed_header_bytes(p.0) + wv + cb;
    assert(s =~= fixed_header_bytes(p.0) + body);
    lemma_fixed_header_roundtrip(p.0, body);
    assert(s.skip(2) =~= body);
    lemma_unsuback_extra_roundtrip(p, wv);
    assert(crate::codec::packet::spec_packet_body(s.skip(2), p.0) == Decoded::Done(PacketModel::UnSubAck(p), wv.len() + p.2.len()));
}

/// The part of a written PUBLISH packet after its fixed header reads back.
#[verifier::rlimit(40)]
#[verifier::spinoff_prover]
pub(crate) proof fn lemma_publish_extra_roundtrip(
    p: (FixedHeader, (Seq<char>, u16, Mqtt5PropertyModel), Seq<u8>),
    wv: Seq<u8>,
)
    requires
        p.0.remaining_length == wv.len() + p.2.len(),
        encode_utf8(p.1.0).len() <= 65535,
        p.1.1 != 0,
        property_roundtrips(p.1.2),
        keys_within(p.1.2.properties, publish_property_ids()),
        publish_variable_header_encoding(p.1, wv),
    ensures
        spec_publish_extra(wv + p.2, p.0) == Decoded::Done(p, wv.len() + p.2.len()),
{
    let body = wv + p.2;
    lemma_publish_variable_header_roundtrip(p.1, wv, p.2);
    let pw = choose|pw: Seq<u8>| property_encoding(p.1.2, pw)
        && wv == length_prefixed(encode_utf8(p.1.0)) + crate::codec::be16(p.1.1) + pw;
    lemma_property_encoding_len(p.1.2, pw);
    lemma_varint_small(p.1.2.property_length as nat, Seq::empty());
    assert(body.subrange(wv.len() as int, (wv.len() + p.2.len()) as int) =~= p.2);
}

/// Reading a written PUBLISH packet gives it back: for a fixed header of
/// type PUBLISH with a usable qos, whose remaining length is the length
/// (below 127) of the variable header and payload written after it, a topic
/// of at most 65535 bytes, a nonzero packet identifier and properties that
/// read back, the bytes written decode to the packet, both by the PUBLISH
/// decoder and as any packet.
#[verifier::rlimit(60)]
#[verifier::spinoff_prover]
pub proof fn lemma_publish_roundtrip(
    p: (FixedHeader, (Seq<char>, u16, Mqtt5PropertyModel), Seq<u8>),
    wv: Seq<u8>,
)
    requires
        p.0.packet_type == PacketType::PUBLISH,
        p.0.qos != Qos::Reserved,
        p.0.remaining_length == wv.len() + p.2.len(),
        wv.len() + p.2.len() <= 126,
        encode_utf8(p.1.0).len() <= 65535,
        p.1.1 != 0,
        property_roundtrips(p.1.2),
        keys_within(p.1.2.properties, publish_property_ids()),
        publish_variable_header_encoding(p.1, wv),
    ensures
        spec_publish(fixed_header_bytes(p.0) + wv + p.2) == Decoded::Done(p, 2 + wv.len() + p.2.len()),
        spec_packet(fixed_header_bytes(p.0) + wv + p.2)
            == Decoded::Done(PacketModel::Publish(p), 2 + wv.len() + p.2.len()),
{
    reveal(crate::codec::packet::spec_packet_body);
    let body = wv + p.2;
    let s = fixed_header_bytes(p.0) + wv + p.2;
    assert(s =~= fixed_header_bytes(p.0) + body);
    lemma_fixed_header_roundtrip(p.0, body);
    assert(s.skip(2) =~= body);
    lemma_publish_extra_roundtrip(p, wv);
    assert(spec_publish_extra(s.skip(2), p.0) == Decoded::Done(p, wv.len() + p.2.len()));
}

/// Subscription options read back from their byte when the maximum qos is
/// usable and the retain handling fits in its two bits.
pub open spec fn options_roundtrip(o: (Qos, bool, bool, u8)) -> bool {
    o.0 != Qos::Reserved && o.3 < 4
}

/// A topic filter with its options reads back from its bytes.
pub open spec fn subscribe_item_roundtrips(item: (Seq<char>, (Qos, bool, bool, u8))) -> bool {
    encode_utf8(item.0).len() <= 65535 && options_roundtrip(item.1)
}

/// Subscription options are read back from the byte written for them.
pub proof fn lemma_options_roundtrip(o: (Qos, bool, bool, u8))
    requires
        options_roundtrip(o),
    ensures
        options_of(options_byte(o)) == Some(o),
{
    lemma_qos_code_roundtrip(o.0);
    let q = qos_code(o.0) as int;
    let a: int = if o.1 { 1 } else { 0 };
    let c: int = if o.2 { 1 } else { 0 };
    let r = o.3 as int;
    assert(0 <= q <= 2);
    assert((o.3 % 16) as int == r);
    let b = q + a * 4 + c * 8 + r * 16;
    assert(0 <= b < 64);
    assert(options_byte(o) as int == b);
    assert(b % 4 == q && (b / 4) % 2 == a && (b / 8) % 2 == c && (b / 16) % 4 == r) by (nonlinear_arith)
        requires
            0 <= q <= 2,
            0 <= a <= 1,
            0 <= c <= 1,
            0 <= r <= 3,
            b == q + a * 4 + c * 8 + r * 16,
    ;
}

/// Written topic filters with their options read back, after the filters
/// read before, when the count of bytes left is the length of the bytes.
proof fn lemma_subscribe_topics_roundtrip(
    items: Seq<(Seq<char>, (Qos, bool, bool, u8))>,
    acc: Seq<(Seq<char>, (Qos, bool, bool, u8))>,
)
    requires
        forall|i: int| 0 <= i < items.len() ==> subscribe_item_roundtrips(#[trigger] items[i]),
    ensures
        spec_subscribe_topics(subscribe_payload_bytes(items), subscribe_payload_bytes(items).len(), acc)
            == Decoded::Done(acc + items, subscribe_payload_bytes(items).len()),
    decreases items.len(),
{
    let parts = items.map_values(|item: (Seq<char>, (Qos, bool, bool, u8))| subscribe_item_bytes(item));
    if items.len() == 0 {
        assert(parts =~= Seq::<Seq<u8>>::empty());
        assert(acc + items =~= acc);
    } else {
        let tail = items.skip(1);
        lemma_concat_front(parts);
        assert(parts.drop_first()
            =~= tail.map_values(|item: (Seq<char>, (Qos, bool, bool, u8))| subscribe_item_bytes(item)));
        let b = subscribe_payload_bytes(items);
        let tb = subscribe_payload_bytes(tail);
        assert(b == subscribe_item_bytes(items[0]) + tb);
        let t = items[0].0;
        let o = items[0].1;
        assert(subscribe_item_roundtrips(items[0]));
        lemma_string_roundtrip(t, seq![options_byte(o)] + tb);
        assert(b =~= length_prefixed(encode_utf8(t)) + (seq![options_byte(o)] + tb));
        let n = encode_utf8(t).len() + 2;
        assert(b[n as int] == options_byte(o));
        lemma_options_roundtrip(o);
        assert(b.skip((n + 1) as int) =~= tb);
        assert forall|i: int| 0 <= i < tail.len() implies subscribe_item_roundtrips(#[trigger] tail[i]) by {
            assert(tail[i] == items[i + 1]);
        }
        lemma_subscribe_topics_roundtrip(tail, acc.push(items[0]));
        assert(acc.push(items[0]) + tail =~= acc + items);
    }
}

/// The part of a written SUBSCRIBE packet after its fixed header reads back.
#[verifier::spinoff_prover]
pub(crate) proof fn lemma_subscribe_extra_roundtrip(
    p: (FixedHeader, (u16, Mqtt5PropertyModel), Seq<(Seq<char>, (Qos, bool, bool, u8))>),
    wv: Seq<u8>,
)
    requires
        p.0.remaining_length == wv.len() + subscribe_payload_bytes(p.2).len(),
        p.1.0 != 0,
        property_roundtrips(p.1.1),
        keys_within(p.1.1.properties, subscribe_property_ids()),
        subscribe_variable_header_encoding(p.1, wv),
        forall|i: int| 0 <= i < p.2.len() ==> subscribe_item_roundtrips(#[trigger] p.2[i]),
    ensures
        spec_subscribe_extra(wv + subscribe_payload_bytes(p.2), p.0)
            == Decoded::Done(p, wv.len() + subscribe_payload_bytes(p.2).len()),
{
    let pb = subscribe_payload_bytes(p.2);
    let body = wv + pb;
    lemma_subscribe_variable_header_roundtrip(p.1, wv, pb);
    let pw = choose|pw: Seq<u8>| property_encoding(p.1.1, pw) && wv == crate::codec::be16(p.1.0) + pw;
    lemma_property_encoding_len(p.1.1, pw);
    lemma_varint_small(p.1.1.property_length as nat, Seq::empty());
    assert(body.skip(wv.len() as int) =~= pb);
    lemma_subscribe_topics_roundtrip(p.2, Seq::empty());
    assert(Seq::<(Seq<char>, (Qos, bool, bool, u8))>::empty() + p.2 =~= p.2);
}

/// Reading a written SUBSCRIBE packet gives it back: for a fixed header of
/// type SUBSCRIBE with qos 1 and no other flag, whose remaining length is
/// the length (below 127) of the variable header and payload written after
/// it, a nonzero packet identifier, properties that read back, and topic
/// filters of at most 65535 bytes with a usable maximum qos and a retain
/// handling below 4, the bytes written decode to the packet, both by the
/// SUBSCRIBE decoder and as any packet.
#[verifier::rlimit(40)]
pub proof fn lemma_subscribe_roundtrip(
    p: (FixedHeader, (u16, Mqtt5PropertyModel), Seq<(Seq<char>, (Qos, bool, bool, u8))>),
    wv: Seq<u8>,
)
    requires
        p.0.packet_type == PacketType::SUBSCRIBE,
        !p.0.dup,
        p.0.qos == Qos::AtLeastOnce,
        !p.0.retain,
        p.0.remaining_length == wv.len() + subscribe_payload_bytes(p.2).len(),
        wv.len() + subscribe_payload_bytes(p.2).len() <= 126,
        p.1.0 != 0,
        property_roundtrips(p.1.1),
        keys_within(p.1.1.properties, subscribe_property_ids()),
        subscribe_variable_header_encoding(p.1, wv),
        forall|i: int| 0 <= i < p.2.len() ==> subscribe_item_roundtrips(#[trigger] p.2[i]),
    ensures
        spec_subscribe(fixed_header_bytes(p.0) + wv + subscribe_payload_bytes(p.2))
            == Decoded::Done(p, 2 + wv.len() + subscribe_payload_bytes(p.2).len()),
        spec_packet(fixed_header_bytes(p.0) + wv + subscribe_payload_bytes(p.2))
            == Decoded::Done(PacketModel::Subscribe(p), 2 + wv.len() + subscribe_payload_bytes(p.2).len()),
{
    reveal(crate::codec::packet::spec_packet_body);
    let pb = subscribe_payload_bytes(p.2);
    let body = wv + pb;
    let s = fixed_header_bytes(p.0) + wv + pb;
    assert(s =~= fixed_header_bytes(p.0) + body);
    lemma_fixed_header_roundtrip(p.0, body);
    assert(s.skip(2) =~= body);
    lemma_subscribe_extra_roundtrip(p, wv);
    assert(spec_subscribe_extra(s.skip(2), p.0) == Decoded::Done(p, wv.len() + pb.len()));
}

/// Written topic filters read back, after the filters read before, when the
/// count of bytes left is the length of the bytes.
proof fn lemma_unsubscribe_topics_roundtrip(items: Seq<Seq<char>>, acc: Seq<Seq<char>>)
    requires
        forall|i: int| 0 <= i < items.len() ==> encode_utf8(#[trigger] items[i]).len() <= 65535,
    ensures
        spec_unsubscribe_topics(unsubscribe_payload_bytes(items), unsubscribe_payload_bytes(items).len(), acc)
            == Decoded::Done(acc + items, unsubscribe_payload_bytes(items).len()),
    decreases items.len(),
{
    let parts = items.map_values(|item: Seq<char>| unsubscribe_item_bytes(item));
    if items.len() == 0 {
        assert(parts =~= Seq::<Seq<u8>>::empty());
        assert(acc + items =~= acc);
    } else {
        let tail = items.skip(1);
        lemma_concat_front(parts);
        assert(parts.drop_first() =~= tail.map_values(|item: Seq<char>| unsubscribe_item_bytes(item)));
        let b = unsubscribe_payload_bytes(items);
        let tb = unsubscribe_payload_bytes(tail);
        assert(b == unsubscribe_item_bytes(items[0]) + tb);
        let t = items[0];
        assert(encode_utf8(items[0]).len() <= 65535);
        lemma_string_roundtrip(t, tb);
        let n = encode_utf8(t).len() + 2;
        assert(b.skip(n as int) =~= tb);
        assert forall|i: int| 0 <= i < tail.len() implies encode_utf8(#[trigger] tail[i]).len() <= 65535 by {
            assert(tail[i] == items[i + 1]);
        }
        lemma_unsubscribe_topics_roundtrip(tail, acc.push(items[0]));
        assert(acc.push(items[0]) + tail =~= acc + items);
    }
}

/// The part of a written UNSUBSCRIBE packet after its fixed header reads back.
#[verifier::spinoff_prover]
pub(crate) proof fn lemma_unsubscribe_extra_roundtrip(
    p: (FixedHeader, (u16, Mqtt5PropertyModel), Seq<Seq<char>>),
    wv: Seq<u8>,
)
    requires
        p.0.remaining_length == wv.len() + unsubscribe_payload_bytes(p.2).len(),
        p.1.0 != 0,
        property_roundtrips(p.1.1),
        keys_within(p.1.1.properties, unsubscribe_property_ids()),
        unsubscribe_variable_header_encoding(p.1, wv),
        forall|i: int| 0 <= i < p.2.len() ==> encode_utf8(#[trigger] p.2[i]).len() <= 65535,
    ensures
        spec_unsubscribe_extra(wv + unsubscribe_payload_bytes(p.2), p.0)
            == Decoded::Done(p, wv.len() + unsubscribe_payload_bytes(p.2).len()),
{
    let pb = unsubscribe_payload_bytes(p.2);
    let body = wv + pb;
    lemma_unsubscribe_variable_header_roundtrip(p.1, wv, pb);
    let pw = choose|pw: Seq<u8>| property_encoding(p.1.1, pw) && wv == crate::codec::be16(p.1.0) + pw;
    lemma_property_encoding_len(p.1.1, pw);
    lemma_varint_small(p.1.1.property_length as nat, Seq::empty());
    assert(body.skip(wv.len() as int) =~= pb);
    lemma_unsubscribe_topics_roundtrip(p.2, Seq::empty());
    assert(Seq::<Seq<char>>::empty() + p.2 =~= p.2);
}

/// Reading a written UNSUBSCRIBE packet gives it back: for a fixed header
/// of type UNSUBSCRIBE with qos 1 and no other flag, whose remaining length
/// is the length (below 127) of the variable header and payload written
/// after it, a nonzero packet identifier, properties that read back, and
/// topic filters of at most 65535 bytes, the bytes written decode to the
/// packet, both by the UNSUBSCRIBE decoder and as any packet.
#[verifier::rlimit(40)]
pub proof fn lemma_unsubscribe_roundtrip(p: (FixedHeader, (u16, Mqtt5PropertyModel), Seq<Seq<char>>), wv: Seq<u8>)
    requires
        p.0.packet_type == PacketType::UNSUBSCRIBE,
        !p.0.dup,
        p.0.qos == Qos::AtLeastOnce,
        !p.0.retain,
        p.0.remaining_length == wv.len() + unsubscribe_payload_bytes(p.2).len(),
        wv.len() + unsubscribe_payload_bytes(p.2).len() <= 126,
        p.1.0 != 0,
        property_roundtrips(p.1.1),
        keys_within(p.1.1.properties, unsubscribe_property_ids()),
        unsubscribe_variable_header_encoding(p.1, wv),
        forall|i: int| 0 <= i < p.2.len() ==> encode_utf8(#[trigger] p.2[i]).len() <= 65535,
    ensures
        spec_unsubscribe(fixed_header_bytes(p.0) + wv + unsubscribe_payload_bytes(p.2))
            == Decoded::Done(p, 2 + wv.len() + unsubscribe_payload_bytes(p.2).len()),
        spec_packet(fixed_header_bytes(p.0) + wv + unsubscribe_payload_bytes(p.2))
            == Decoded::Done(PacketModel::UnSubscribe(p), 2 + wv.len() + unsubscribe_payload_bytes(p.2).len()),
{
    reveal(crate::codec::packet::spec_packet_body);
    let pb = unsubscribe_payload_bytes(p.2);
    let body = wv + pb;
    let s = fixed_header_bytes(p.0) + wv + pb;
    assert(s =~= fixed_header_bytes(p.0) + body);
    lemma_fixed_header_roundtrip(p.0, body);
    assert(s.skip(2) =~= body);
    lemma_unsubscribe_extra_roundtrip(p, wv);
    assert(spec_unsubscribe_extra(s.skip(2), p.0) == Decoded::Done(p, wv.len() + pb.len()));
}

} // verus!
