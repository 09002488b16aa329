//! What reading gives back of a packet of any kind written by
//! `write_packet`: the packet itself.
use vstd::prelude::*;
use crate::codec::check::keys_within;
use crate::codec::error::Decoded;
use crate::codec::fixed_header::{fixed_header_bytes, FixedHeader};
use crate::codec::header_laws::{
    lemma_auth_variable_header_roundtrip, lemma_connack_variable_header_roundtrip,
    lemma_disconnect_variable_header_roundtrip, lemma_fixed_header_roundtrip, lemma_puback_variable_header_roundtrip,
    lemma_pubcomp_variable_header_roundtrip, lemma_pubrec_variable_header_roundtrip,
    lemma_pubrel_variable_header_roundtrip,
};
use crate::codec::packet::{spec_packet, PacketModel, PacketType};
use crate::codec::property_laws::{lemma_varint_small, property_roundtrips};
use crate::codec::property::Mqtt5PropertyModel;
use crate::codec::publish::Qos;
use crate::codec::write::{
    auth_packet_encoding, connack_packet_encoding, connect_packet_encoding, disconnect_packet_encoding,
    packet_encoding, puback_packet_encoding, pubcomp_packet_encoding, publish_packet_encoding,
    pubrec_packet_encoding, pubrel_packet_encoding, suback_packet_encoding, subscribe_packet_encoding,
    unsuback_packet_encoding, unsubscribe_packet_encoding,
};
use crate::codec::auth::auth_property_ids;
use crate::codec::connack::connack_property_ids;
use crate::codec::connect::connect_property_ids;
use crate::codec::connect_laws::{
    connect_flags_roundtrip, connect_payload_roundtrips, lemma_connect_extra_roundtrip,
};
use crate::codec::disconnect::disconnect_property_ids;
use crate::codec::packet_laws::{
    lemma_publish_extra_roundtrip, lemma_suback_extra_roundtrip, lemma_subscribe_extra_roundtrip,
    lemma_unsuback_extra_roundtrip, lemma_unsubscribe_extra_roundtrip, subscribe_item_roundtrips,
};
use crate::codec::puback::puback_property_ids;
use crate::codec::pubcomp::pubcomp_property_ids;
use crate::codec::publish::publish_property_ids;
use crate::codec::pubrec::pubrec_property_ids;
use crate::codec::pubrel::pubrel_property_ids;
use crate::codec::suback::suback_property_ids;
use crate::codec::subscribe::subscribe_property_ids;
use crate::codec::unsuback::unsuback_property_ids;
use crate::codec::unsubscribe::unsubscribe_property_ids;
use vstd::utf8::encode_utf8;

verus! {

/// The fixed header of a packet.
pub open spec fn header_of(p: PacketModel) -> FixedHeader {
    match p {
        PacketModel::Connect(c) => c.0,
        PacketModel::ConnAck(c) => c.0,
        PacketModel::Publish(c) => c.0,
        PacketModel::PubAck(c) => c.0,
        PacketModel::PubRec(c) => c.0,
        PacketModel::PubRel(c) => c.0,
        PacketModel::PubComp(c) => c.0,
        PacketModel::Subscribe(c) => c.0,
        PacketModel::SubAck(c) => c.0,
        PacketModel::UnSubscribe(c) => c.0,
        PacketModel::UnSubAck(c) => c.0,
        PacketModel::PingReq(h) => h,
        PacketModel::PingResp(h) => h,
        PacketModel::Disconnect(c) => c.0,
        PacketModel::Auth(c) => c.0,
    }
}

/// The packet type of a packet's kind.
pub open spec fn kind_of(p: PacketModel) -> PacketType {
    match p {
        PacketModel::Connect(_) => PacketType::CONNECT,
        PacketModel::ConnAck(_) => PacketType::CONNACK,
        PacketModel::Publish(_) => PacketType::PUBLISH,
        PacketModel::PubAck(_) => PacketType::PUBACK,
        PacketModel::PubRec(_) => PacketType::PUBREC,
        PacketModel::PubRel(_) => PacketType::PUBREL,
        PacketModel::PubComp(_) => PacketType::PUBCOMP,
        PacketModel::Subscribe(_) => PacketType::SUBSCRIBE,
        PacketModel::SubAck(_) => PacketType::SUBACK,
        PacketModel::UnSubscribe(_) => PacketType::UNSUBSCRIBE,
        PacketModel::UnSubAck(_) => PacketType::UNSUBACK,
        PacketModel::PingReq(_) => PacketType::PINGREQ,
        PacketModel::PingResp(_) => PacketType::PINGRESP,
        PacketModel::Disconnect(_) => PacketType::DISCONNECT,
        PacketModel::Auth(_) => PacketType::AUTH,
    }
}

/// What a packet needs to read back from the bytes `w` written for it:
/// its fixed header names its kind with a usable qos and counts, below
/// 127, the bytes after it; packet identifiers are not zero; properties are
/// allowed for the kind and read back; strings and data fit a two-byte
/// length; subscription options read back; CONNECT flags and payload read
/// back.
pub open spec fn packet_roundtrips(p: PacketModel, w: Seq<u8>) -> bool {
    &&& header_of(p).packet_type == kind_of(p)
    &&& header_of(p).qos != Qos::Reserved
    &&& header_of(p).remaining_length <= 126
    &&& w.len() == header_of(p).remaining_length + 2
    &&& match p {
        PacketModel::Connect(c) => {
            &&& connect_flags_roundtrip(c.1.1)
            &&& property_roundtrips(c.1.3)
            &&& keys_within(c.1.3.properties, connect_property_ids())
            &&& connect_payload_roundtrips(c.2, c.1.1)
        },
        PacketModel::ConnAck(c) => property_roundtrips(c.1.2) && keys_within(
            c.1.2.properties,
            connack_property_ids(),
        ),
        PacketModel::Publish(c) => {
            &&& encode_utf8(c.1.0).len() <= 65535
            &&& c.1.1 != 0
            &&& property_roundtrips(c.1.2)
            &&& keys_within(c.1.2.properties, publish_property_ids())
        },
        PacketModel::PubAck(c) => c.1.0 != 0 && property_roundtrips(c.1.2) && keys_within(
            c.1.2.properties,
            puback_property_ids(),
        ),
        PacketModel::PubRec(c) => c.1.0 != 0 && property_roundtrips(c.1.2) && keys_within(
            c.1.2.properties,
            pubrec_property_ids(),
        ),
        PacketModel::PubRel(c) => c.1.0 != 0 && property_roundtrips(c.1.2) && keys_within(
            c.1.2.properties,
            pubrel_property_ids(),
        ),
        PacketModel::PubComp(c) => c.1.0 != 0 && property_roundtrips(c.1.2) && keys_within(
            c.1.2.properties,
            pubcomp_property_ids(),
        ),
        PacketModel::Subscribe(c) => {
            &&& c.1.0 != 0
            &&& property_roundtrips(c.1.1)
            &&& keys_within(c.1.1.properties, subscribe_property_ids())
            &&& forall|i: int| 0 <= i < c.2.len() ==> subscribe_item_roundtrips(#[trigger] c.2[i])
        },
        PacketModel::SubAck(c) => c.1.0 != 0 && property_roundtrips(c.1.1) && keys_within(
            c.1.1.properties,
            suback_property_ids(),
        ),
        PacketModel::UnSubscribe(c) => {
            &&& c.1.0 != 0
            &&& property_roundtrips(c.1.1)
            &&& keys_within(c.1.1.properties, unsubscribe_property_ids())
            &&& forall|i: int| 0 <= i < c.2.len() ==> encode_utf8(#[trigger] c.2[i]).len() <= 65535
        },
        PacketModel::UnSubAck(c) => c.1.0 != 0 && property_roundtrips(c.1.1) && keys_within(
            c.1.1.properties,
            unsuback_property_ids(),
        ),
        PacketModel::PingReq(_) => true,
        PacketModel::PingResp(_) => true,
        PacketModel::Disconnect(c) => property_roundtrips(c.1.1) && keys_within(
            c.1.1.properties,
            disconnect_property_ids(),
        ),
        PacketModel::Auth(c) => property_roundtrips(c.1.1) && keys_within(c.1.1.properties, auth_property_ids()),
    }
}

/// A fixed header with a remaining length below 127 takes two bytes.
proof fn lemma_short_header_len(h: FixedHeader)
    requires
        h.remaining_length <= 126,
    ensures
        fixed_header_bytes(h).len() == 2,
{
    lemma_varint_small(h.remaining_length as nat, Seq::empty());
}

/// A written CONNECT packet reads back.
#[verifier::spinoff_prover]
proof fn lemma_written_connect(c: (FixedHeader, crate::codec::connect::ConnectVariableHeaderModel, crate::codec::connect::ConnectPayloadModel), w: Seq<u8>)
    requires
        packet_encoding(PacketModel::Connect(c), w),
        packet_roundtrips(PacketModel::Connect(c), w),
    ensures
        spec_packet(w) == Decoded::Done(PacketModel::Connect(c), w.len()),
{
    reveal(crate::codec::packet::spec_packet_body);
    let h = header_of(PacketModel::Connect(c));
    lemma_short_header_len(h);
    let e = Seq::<u8>::empty();
    assert(connect_packet_encoding(c, w));
    let (w1, w2) = choose|w1: Seq<u8>, w2: Seq<u8>|
        #![trigger crate::codec::connect::connect_variable_header_encoding(c.1, w1), crate::codec::connect::connect_payload_encoding(c.2, c.1.1, w2)]
        crate::codec::connect::connect_variable_header_encoding(c.1, w1)
            && crate::codec::connect::connect_payload_encoding(c.2, c.1.1, w2) && w == fixed_header_bytes(c.0)
            + w1 + w2;
    assert(w =~= fixed_header_bytes(h) + (w1 + w2));
    lemma_fixed_header_roundtrip(h, w1 + w2);
    assert(w.skip(2) =~= w1 + w2);
    lemma_connect_extra_roundtrip(c, w1, w2);
}

/// A written CONNACK packet reads back.
#[verifier::spinoff_prover]
proof fn lemma_written_connack(c: (FixedHeader, (bool, crate::codec::connect::ConnectReasonCode, Mqtt5PropertyModel)), w: Seq<u8>)
    requires
        packet_encoding(PacketModel::ConnAck(c), w),
        packet_roundtrips(PacketModel::ConnAck(c), w),
    ensures
        spec_packet(w) == Decoded::Done(PacketModel::ConnAck(c), w.len()),
{
    reveal(crate::codec::packet::spec_packet_body);
    let h = header_of(PacketModel::ConnAck(c));
    lemma_short_header_len(h);
    let e = Seq::<u8>::empty();
    assert(connack_packet_encoding(c, w));
    let v = choose|v: Seq<u8>|
        #[trigger] crate::codec::connack::connack_variable_header_encoding(c.1, v) && w == fixed_header_bytes(
            c.0,
        ) + v;
    lemma_fixed_header_roundtrip(h, v);
    assert(w.skip(2) =~= v + e);
    lemma_connack_variable_header_roundtrip(c.1, v, e);
}

/// A written PUBLISH packet reads back.
#[verifier::spinoff_prover]
proof fn lemma_written_publish(c: (FixedHeader, (Seq<char>, u16, Mqtt5PropertyModel), Seq<u8>), w: Seq<u8>)
    requires
        packet_encoding(PacketModel::Publish(c), w),
        packet_roundtrips(PacketModel::Publish(c), w),
    ensures
        spec_packet(w) == Decoded::Done(PacketModel::Publish(c), w.len()),
{
    reveal(crate::codec::packet::spec_packet_body);
    let h = header_of(PacketModel::Publish(c));
    lemma_short_header_len(h);
    let e = Seq::<u8>::empty();
    assert(publish_packet_encoding(c, w));
    let v = choose|v: Seq<u8>|
        #[trigger] crate::codec::publish::publish_variable_header_encoding(c.1, v) && w == fixed_header_bytes(
            c.0,
        ) + v + c.2;
    assert(w =~= fixed_header_bytes(h) + (v + c.2));
    lemma_fixed_header_roundtrip(h, v + c.2);
    assert(w.skip(2) =~= v + c.2);
    lemma_publish_extra_roundtrip(c, v);
}

/// A written PUBACK packet reads back.
#[verifier::spinoff_prover]
proof fn lemma_written_puback(c: (FixedHeader, (u16, crate::codec::puback::PubAckReasonCode, Mqtt5PropertyModel)), w: Seq<u8>)
    requires
        packet_encoding(PacketModel::PubAck(c), w),
        packet_roundtrips(PacketModel::PubAck(c), w),
    ensures
        spec_packet(w) == Decoded::Done(PacketModel::PubAck(c), w.len()),
{
    reveal(crate::codec::packet::spec_packet_body);
    let h = header_of(PacketModel::PubAck(c));
    lemma_short_header_len(h);
    let e = Seq::<u8>::empty();
    assert(puback_packet_encoding(c, w));
    let v = choose|v: Seq<u8>|
        #[trigger] crate::codec::puback::puback_variable_header_encoding(c.1, v) && w == fixed_header_bytes(
            c.0,
        ) + v;
    lemma_fixed_header_roundtrip(h, v);
    assert(w.skip(2) =~= v + e);
    lemma_puback_variable_header_roundtrip(c.1, v, e);
}

/// A written PUBREC packet reads back.
#[verifier::spinoff_prover]
proof fn lemma_written_pubrec(c: (FixedHeader, (u16, crate::codec::pubrec::PubRecReasonCode, Mqtt5PropertyModel)), w: Seq<u8>)
    requires
        packet_encoding(PacketModel::PubRec(c), w),
        packet_roundtrips(PacketModel::PubRec(c), w),
    ensures
        spec_packet(w) == Decoded::Done(PacketModel::PubRec(c), w.len()),
{
    reveal(crate::codec::packet::spec_packet_body);
    let h = header_of(PacketModel::PubRec(c));
    lemma_short_header_len(h);
    let e = Seq::<u8>::empty();
    assert(pubrec_packet_encoding(c, w));
    let v = choose|v: Seq<u8>|
        #[trigger] crate::codec::pubrec::pubrec_variable_header_encoding(c.1, v) && w == fixed_header_bytes(
            c.0,
        ) + v;
    lemma_fixed_header_roundtrip(h, v);
    assert(w.skip(2) =~= v + e);
    lemma_pubrec_variable_header_roundtrip(c.1, v, e);
}

/// A written PUBREL packet reads back.
#[verifier::spinoff_prover]
proof fn lemma_written_pubrel(c: (FixedHeader, (u16, crate::codec::pubrel::PubRelReasonCode, Mqtt5PropertyModel)), w: Seq<u8>)
    requires
        packet_encoding(PacketModel::PubRel(c), w),
        packet_roundtrips(PacketModel::PubRel(c), w),
    ensures
        spec_packet(w) == Decoded::Done(PacketModel::PubRel(c), w.len()),
{
    reveal(crate::codec::packet::spec_packet_body);
    let h = header_of(PacketModel::PubRel(c));
    lemma_short_header_len(h);
    let e = Seq::<u8>::empty();
    assert(pubrel_packet_encoding(c, w));
    let v = choose|v: Seq<u8>|
        #[trigger] crate::codec::pubrel::pubrel_variable_header_encoding(c.1, v) && w == fixed_header_bytes(
            c.0,
        ) + v;
    lemma_fixed_header_roundtrip(h, v);
    assert(w.skip(2) =~= v + e);
    lemma_pubrel_variable_header_roundtrip(c.1, v, e);
}

/// A written PUBCOMP packet reads back.
#[verifier::spinoff_prover]
proof fn lemma_written_pubcomp(c: (FixedHeader, (u16, crate::codec::pubcomp::PubCompReasonCode, Mqtt5PropertyModel)), w: Seq<u8>)
    requires
        packet_encoding(PacketModel::PubComp(c), w),
        packet_roundtrips(PacketModel::PubComp(c), w),
    ensures
        spec_packet(w) == Decoded::Done(PacketModel::PubComp(c), w.len()),
{
    reveal(crate::codec::packet::spec_packet_body);
    let h = header_of(PacketModel::PubComp(c));
    lemma_short_header_len(h);
    let e = Seq::<u8>::empty();
    assert(pubcomp_packet_encoding(c, w));
    let v = choose|v: Seq<u8>|
        #[trigger] crate::codec::pubcomp::pubcomp_variable_header_encoding(c.1, v) && w == fixed_header_bytes(
            c.0,
        ) + v;
    lemma_fixed_header_roundtrip(h, v);
    assert(w.skip(2) =~= v + e);
    lemma_pubcomp_variable_header_roundtrip(c.1, v, e);
}

/// A written SUBSCRIBE packet reads back.
#[verifier::spinoff_prover]
proof fn lemma_written_subscribe(c: (FixedHeader, (u16, Mqtt5PropertyModel), Seq<(Seq<char>, (Qos, bool, bool, u8))>), w: Seq<u8>)
    requires
        packet_encoding(PacketModel::Subscribe(c), w),
        packet_roundtrips(PacketModel::Subscribe(c), w),
    ensures
        spec_packet(w) == Decoded::Done(PacketModel::Subscribe(c), w.len()),
{
    reveal(crate::codec::packet::spec_packet_body);
    let h = header_of(PacketModel::Subscribe(c));
    lemma_short_header_len(h);
    let e = Seq::<u8>::empty();
    assert(subscribe_packet_encoding(c, w));
    let pb = crate::codec::subscribe::subscribe_payload_bytes(c.2);
    let v = choose|v: Seq<u8>|
        #[trigger] crate::codec::subscribe::subscribe_variable_header_encoding(c.1, v) && w
            == fixed_header_bytes(c.0) + v + crate::codec::subscribe::subscribe_payload_bytes(c.2);
    assert(w =~= fixed_header_bytes(h) + (v + pb));
    lemma_fixed_header_roundtrip(h, v + pb);
    assert(w.skip(2) =~= v + pb);
    lemma_subscribe_extra_roundtrip(c, v);
}

/// A written SUBACK packet reads back.
#[verifier::rlimit(40)]
#[verifier::spinoff_prover]
proof fn lemma_written_suback(c: (FixedHeader, (u16, Mqtt5PropertyModel), Seq<crate::codec::subscribe::SubscribeReasonCode>), w: Seq<u8>)
    requires
        packet_encoding(PacketModel::SubAck(c), w),
        packet_roundtrips(PacketModel::SubAck(c), w),
    ensures
        spec_packet(w) == Decoded::Done(PacketModel::SubAck(c), w.len()),
{
    reveal(crate::codec::packet::spec_packet_body);
    let h = header_of(PacketModel::SubAck(c));
    lemma_short_header_len(h);
    let e = Seq::<u8>::empty();
    assert(suback_packet_encoding(c, w));
    let cb = crate::codec::suback::suback_codes_bytes(c.2);
    let v = choose|v: Seq<u8>|
        #[trigger] crate::codec::suback::suback_variable_header_encoding(c.1, v) && w == fixed_header_bytes(
            c.0,
        ) + v + crate::codec::suback::suback_codes_bytes(c.2);
    assert(cb.len() == c.2.len());
    assert(w =~= fixed_header_bytes(h) + (v + cb));
    lemma_fixed_header_roundtrip(h, v + cb);
    assert(w.skip(2) =~= v + cb);
    lemma_suback_extra_roundtrip(c, v);
    assert(crate::codec::packet::spec_packet_body(w.skip(2), h) == Decoded::Done(PacketModel::SubAck(c), (v + cb).len()));
}

/// A written UNSUBSCRIBE packet reads back.
#[verifier::rlimit(40)]
#[verifier::spinoff_prover]
proof fn lemma_written_unsubscribe(c: (FixedHeader, (u16, Mqtt5PropertyModel), Seq<Seq<char>>), w: Seq<u8>)
    requires
        packet_encoding(PacketModel::UnSubscribe(c), w),
        packet_roundtrips(PacketModel::UnSubscribe(c), w),
    ensures
        spec_packet(w) == Decoded::Done(PacketModel::UnSubscribe(c), w.len()),
{
    reveal(crate::codec::packet::spec_packet_body);
    let h = header_of(PacketModel::UnSubscribe(c));
    lemma_short_header_len(h);
    let e = Seq::<u8>::empty();
    assert(unsubscribe_packet_encoding(c, w));
    let pb = crate::codec::unsubscribe::unsubscribe_payload_bytes(c.2);
    let v = choose|v: Seq<u8>|
        #[trigger] crate::codec::unsubscribe::unsubscribe_variable_header_encoding(c.1, v) && w
            == fixed_header_bytes(c.0) + v + crate::codec::unsubscribe::unsubscribe_payload_bytes(c.2);
    assert(w =~= fixed_header_bytes(h) + (v + pb));
    lemma_fixed_header_roundtrip(h, v + pb);
    assert(w.skip(2) =~= v + pb);
    lemma_unsubscribe_extra_roundtrip(c, v);
    assert(crate::codec::packet::spec_packet_body(w.skip(2), h) == Decoded::Done(PacketModel::UnSubscribe(c), (v + pb).len()));
}

/// A written UNSUBACK packet reads back.
#[verifier::rlimit(40)]
#[verifier::spinoff_prover]
proof fn lemma_written_unsuback(c: (FixedHeader, (u16, Mqtt5PropertyModel), Seq<crate::codec::unsubscribe::UnSubscribeReasonCode>), w: Seq<u8>)
    requires
        packet_encoding(PacketModel::UnSubAck(c), w),
        packet_roundtrips(PacketModel::UnSubAck(c), w),
    ensures
        spec_packet(w) == Decoded::Done(PacketModel::UnSubAck(c), w.len()),
{
    reveal(crate::codec::packet::spec_packet_body);
    let h = header_of(PacketModel::UnSubAck(c));
    lemma_short_header_len(h);
    let e = Seq::<u8>::empty();
    assert(unsuback_packet_encoding(c, w));
    let cb = crate::codec::unsuback::unsuback_codes_bytes(c.2);
    let v = choose|v: Seq<u8>|
        #[trigger] crate::codec::unsuback::unsuback_variable_header_encoding(c.1, v) && w
            == fixed_header_bytes(c.0) + v + crate::codec::unsuback::unsuback_codes_bytes(c.2);
    assert(cb.len() == c.2.len());
    assert(w =~= fixed_header_bytes(h) + (v + cb));
    lemma_fixed_header_roundtrip(h, v + cb);
    assert(w.skip(2) =~= v + cb);
    lemma_unsuback_extra_roundtrip(c, v);
    assert(crate::codec::packet::spec_packet_body(w.skip(2), h) == Decoded::Done(PacketModel::UnSubAck(c), (v + cb).len()));
}

/// A written PINGREQ packet reads back.
#[verifier::spinoff_prover]
proof fn lemma_written_pingreq(hh: FixedHeader, w: Seq<u8>)
    requires
        packet_encoding(PacketModel::PingReq(hh), w),
        packet_roundtrips(PacketModel::PingReq(hh), w),
    ensures
        spec_packet(w) == Decoded::Done(PacketModel::PingReq(hh), w.len()),
{
    reveal(crate::codec::packet::spec_packet_body);
    let h = header_of(PacketModel::PingReq(hh));
    lemma_short_header_len(h);
    let e = Seq::<u8>::empty();
    assert(w =~= fixed_header_bytes(h) + e);
    lemma_fixed_header_roundtrip(h, e);
}

/// A written PINGRESP packet reads back.
#[verifier::spinoff_prover]
proof fn lemma_written_pingresp(hh: FixedHeader, w: Seq<u8>)
    requires
        packet_encoding(PacketModel::PingResp(hh), w),
        packet_roundtrips(PacketModel::PingResp(hh), w),
    ensures
        spec_packet(w) == Decoded::Done(PacketModel::PingResp(hh), w.len()),
{
    reveal(crate::codec::packet::spec_packet_body);
    let h = header_of(PacketModel::PingResp(hh));
    lemma_short_header_len(h);
    let e = Seq::<u8>::empty();
    assert(w =~= fixed_header_bytes(h) + e);
    lemma_fixed_header_roundtrip(h, e);
}

/// A written DISCONNECT packet reads back.
#[verifier::spinoff_prover]
proof fn lemma_written_disconnect(c: (FixedHeader, (crate::codec::disconnect::DisconnectReasonCode, Mqtt5PropertyModel)), w: Seq<u8>)
    requires
        packet_encoding(PacketModel::Disconnect(c), w),
        packet_roundtrips(PacketModel::Disconnect(c), w),
    ensures
        spec_packet(w) == Decoded::Done(PacketModel::Disconnect(c), w.len()),
{
    reveal(crate::codec::packet::spec_packet_body);
    let h = header_of(PacketModel::Disconnect(c));
    lemma_short_header_len(h);
    let e = Seq::<u8>::empty();
    assert(disconnect_packet_encoding(c, w));
    let v = choose|v: Seq<u8>|
        #[trigger] crate::codec::disconnect::disconnect_variable_header_encoding(c.1, v) && w
            == fixed_header_bytes(c.0) + v;
    lemma_fixed_header_roundtrip(h, v);
    assert(w.skip(2) =~= v + e);
    lemma_disconnect_variable_header_roundtrip(c.1, v, e);
}

/// A written AUTH packet reads back.
#[verifier::spinoff_prover]
proof fn lemma_written_auth(c: (FixedHeader, (crate::codec::auth::AuthenticateReasonCode, Mqtt5PropertyModel)), w: Seq<u8>)
    requires
        packet_encoding(PacketModel::Auth(c), w),
        packet_roundtrips(PacketModel::Auth(c), w),
    ensures
        spec_packet(w) == Decoded::Done(PacketModel::Auth(c), w.len()),
{
    reveal(crate::codec::packet::spec_packet_body);
    let h = header_of(PacketModel::Auth(c));
    lemma_short_header_len(h);
    let e = Seq::<u8>::empty();
    assert(auth_packet_encoding(c, w));
    let v = choose|v: Seq<u8>|
        #[trigger] crate::codec::auth::auth_variable_header_encoding(c.1, v) && w == fixed_header_bytes(c.0)
            + v;
    lemma_fixed_header_roundtrip(h, v);
    assert(w.skip(2) =~= v + e);
    lemma_auth_variable_header_roundtrip(c.1, v, e);
}

/// Reading what `write_packet` writes gives the packet back: for every
/// packet that reads back from the bytes written for it, decoding those
/// bytes as any packet returns the packet and takes all of them.
pub proof fn lemma_written_packet_reads_back(p: PacketModel, w: Seq<u8>)
    requires
        packet_encoding(p, w),
        packet_roundtrips(p, w),
    ensures
        spec_packet(w) == Decoded::Done(p, w.len()),
{
    reveal(crate::codec::packet::spec_packet_body);
    match p {
        PacketModel::Connect(c) => lemma_written_connect(c, w),
        PacketModel::ConnAck(c) => lemma_written_connack(c, w),
        PacketModel::Publish(c) => lemma_written_publish(c, w),
        PacketModel::PubAck(c) => lemma_written_puback(c, w),
        PacketModel::PubRec(c) => lemma_written_pubrec(c, w),
        PacketModel::PubRel(c) => lemma_written_pubrel(c, w),
        PacketModel::PubComp(c) => lemma_written_pubcomp(c, w),
        PacketModel::Subscribe(c) => lemma_written_subscribe(c, w),
        PacketModel::SubAck(c) => lemma_written_suback(c, w),
        PacketModel::UnSubscribe(c) => lemma_written_unsubscribe(c, w),
        PacketModel::UnSubAck(c) => lemma_written_unsuback(c, w),
        PacketModel::PingReq(hh) => lemma_written_pingreq(hh, w),
        PacketModel::PingResp(hh) => lemma_written_pingresp(hh, w),
        PacketModel::Disconnect(c) => lemma_written_disconnect(c, w),
        PacketModel::Auth(c) => lemma_written_auth(c, w),
    }
}

} // verus!
