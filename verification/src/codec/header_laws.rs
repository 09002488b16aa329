//! What reading a written variable header gives back, for every packet
//! whose variable header is a packet identifier, reason code, flags, topic
//! or properties.
use vstd::prelude::*;
use crate::codec::check::keys_within;
use crate::codec::error::Decoded;
use crate::codec::property::Mqtt5PropertyModel;
use crate::codec::property_laws::{lemma_be16_roundtrip, lemma_property_roundtrip, property_roundtrips};
use crate::codec::be16;
use crate::codec::fixed_header::{fixed_header_bytes, header_byte, spec_fixed_header, FixedHeader};
use crate::codec::packet::{lemma_packet_type_code, packet_type_code};
use crate::codec::publish::{lemma_qos_code_roundtrip, qos_code, Qos};
use crate::codec::property_laws::lemma_varint_small;
use crate::codec::buffer::be_u16_at;
use crate::codec::disconnect::{disconnect_property_ids, disconnect_variable_header_encoding, spec_disconnect_variable_header, DisconnectReasonCode};
use crate::codec::auth::{auth_property_ids, auth_variable_header_encoding, spec_auth_variable_header, AuthenticateReasonCode};
use crate::codec::subscribe::{subscribe_property_ids, subscribe_variable_header_encoding, spec_subscribe_variable_header};
use crate::codec::unsubscribe::{unsubscribe_property_ids, unsubscribe_variable_header_encoding, spec_unsubscribe_variable_header};
use crate::codec::suback::{suback_property_ids, suback_variable_header_encoding, spec_suback_variable_header};
use crate::codec::unsuback::{unsuback_property_ids, unsuback_variable_header_encoding, spec_unsuback_variable_header};
use crate::codec::connack::{connack_property_ids, connack_variable_header_encoding, spec_connack_variable_header};
use crate::codec::connect::ConnectReasonCode;
use crate::codec::publish::{publish_property_ids, publish_variable_header_encoding, spec_publish_variable_header};
use crate::codec::length_prefixed;
use crate::codec::property_laws::lemma_string_roundtrip;
use vstd::utf8::encode_utf8;
use crate::codec::puback::{puback_property_ids, puback_variable_header_encoding, spec_puback_variable_header, PubAckReasonCode};
use crate::codec::pubrec::{pubrec_property_ids, pubrec_variable_header_encoding, spec_pubrec_variable_header, PubRecReasonCode};
use crate::codec::pubrel::{pubrel_property_ids, pubrel_variable_header_encoding, spec_pubrel_variable_header, PubRelReasonCode};
use crate::codec::pubcomp::{pubcomp_property_ids, pubcomp_variable_header_encoding, spec_pubcomp_variable_header, PubCompReasonCode};

verus! {

/// Reading a written PUBACK variable header gives it back: for a nonzero
/// packet identifier and properties that are allowed in PUBACK and read back,
/// decoding the bytes written, followed by any bytes, returns the header and
/// takes exactly the bytes written.
pub proof fn lemma_puback_variable_header_roundtrip(
    v: (u16, PubAckReasonCode, Mqtt5PropertyModel),
    w: Seq<u8>,
    rest: Seq<u8>,
)
    requires
        v.0 != 0,
        property_roundtrips(v.2),
        keys_within(v.2.properties, puback_property_ids()),
        puback_variable_header_encoding(v, w),
    ensures
        spec_puback_variable_header(w + rest) == Decoded::Done(v, w.len()),
{
    let pw = choose|pw: Seq<u8>| crate::codec::property_encode::property_encoding(v.2, pw)
        && w == be16(v.0) + seq![v.1.wire_code()] + pw;
    let s = w + rest;
    lemma_be16_roundtrip(v.0, seq![v.1.wire_code()] + pw + rest);
    assert(s =~= be16(v.0) + (seq![v.1.wire_code()] + pw + rest));
    assert(s[2] == v.1.wire_code());
    v.1.lemma_wire_code(v.1.wire_code());
    assert(s.skip(3) =~= pw + rest);
    lemma_property_roundtrip(v.2, pw, rest);
}

/// Reading a written PUBREC variable header gives it back: for a nonzero
/// packet identifier and properties that are allowed in PUBREC and read back,
/// decoding the bytes written, followed by any bytes, returns the header and
/// takes exactly the bytes written.
pub proof fn lemma_pubrec_variable_header_roundtrip(
    v: (u16, PubRecReasonCode, Mqtt5PropertyModel),
    w: Seq<u8>,
    rest: Seq<u8>,
)
    requires
        v.0 != 0,
        property_roundtrips(v.2),
        keys_within(v.2.properties, pubrec_property_ids()),
        pubrec_variable_header_encoding(v, w),
    ensures
        spec_pubrec_variable_header(w + rest) == Decoded::Done(v, w.len()),
{
    let pw = choose|pw: Seq<u8>| crate::codec::property_encode::property_encoding(v.2, pw)
        && w == be16(v.0) + seq![v.1.wire_code()] + pw;
    let s = w + rest;
    lemma_be16_roundtrip(v.0, seq![v.1.wire_code()] + pw + rest);
    assert(s =~= be16(v.0) + (seq![v.1.wire_code()] + pw + rest));
    assert(s[2] == v.1.wire_code());
    v.1.lemma_wire_code(v.1.wire_code());
    assert(s.skip(3) =~= pw + rest);
    lemma_property_roundtrip(v.2, pw, rest);
}

/// Reading a written PUBREL variable header gives it back: for a nonzero
/// packet identifier and properties that are allowed in PUBREL and read back,
/// decoding the bytes written, followed by any bytes, returns the header and
/// takes exactly the bytes written.
pub proof fn lemma_pubrel_variable_header_roundtrip(
    v: (u16, PubRelReasonCode, Mqtt5PropertyModel),
    w: Seq<u8>,
    rest: Seq<u8>,
)
    requires
        v.0 != 0,
        property_roundtrips(v.2),
        keys_within(v.2.properties, pubrel_property_ids()),
        pubrel_variable_header_encoding(v, w),
    ensures
        spec_pubrel_variable_header(w + rest) == Decoded::Done(v, w.len()),
{
    let pw = choose|pw: Seq<u8>| crate::codec::property_encode::property_encoding(v.2, pw)
        && w == be16(v.0) + seq![v.1.wire_code()] + pw;
    let s = w + rest;
    lemma_be16_roundtrip(v.0, seq![v.1.wire_code()] + pw + rest);
    assert(s =~= be16(v.0) + (seq![v.1.wire_code()] + pw + rest));
    assert(s[2] == v.1.wire_code());
    v.1.lemma_wire_code(v.1.wire_code());
    assert(s.skip(3) =~= pw + rest);
    lemma_property_roundtrip(v.2, pw, rest);
}

/// Reading a written PUBCOMP variable header gives it back: for a nonzero
/// packet identifier and properties that are allowed in PUBCOMP and read back,
/// decoding the bytes written, followed by any bytes, returns the header and
/// takes exactly the bytes written.
pub proof fn lemma_pubcomp_variable_header_roundtrip(
    v: (u16, PubCompReasonCode, Mqtt5PropertyModel),
    w: Seq<u8>,
    rest: Seq<u8>,
)
    requires
        v.0 != 0,
        property_roundtrips(v.2),
        keys_within(v.2.properties, pubcomp_property_ids()),
        pubcomp_variable_header_encoding(v, w),
    ensures
        spec_pubcomp_variable_header(w + rest) == Decoded::Done(v, w.len()),
{
    let pw = choose|pw: Seq<u8>| crate::codec::property_encode::property_encoding(v.2, pw)
        && w == be16(v.0) + seq![v.1.wire_code()] + pw;
    let s = w + rest;
    lemma_be16_roundtrip(v.0, seq![v.1.wire_code()] + pw + rest);
    assert(s =~= be16(v.0) + (seq![v.1.wire_code()] + pw + rest));
    assert(s[2] == v.1.wire_code());
    v.1.lemma_wire_code(v.1.wire_code());
    assert(s.skip(3) =~= pw + rest);
    lemma_property_roundtrip(v.2, pw, rest);
}

/// Reading a written DISCONNECT variable header gives it back: for properties
/// that are allowed in DISCONNECT and read back, decoding the bytes written,
/// followed by any bytes, returns the header and takes exactly the bytes
/// written.
pub proof fn lemma_disconnect_variable_header_roundtrip(v: (DisconnectReasonCode, Mqtt5PropertyModel), w: Seq<u8>, rest: Seq<u8>)
    requires
        property_roundtrips(v.1),
        keys_within(v.1.properties, disconnect_property_ids()),
        disconnect_variable_header_encoding(v, w),
    ensures
        spec_disconnect_variable_header(w + rest) == Decoded::Done(v, w.len()),
{
    let pw = choose|pw: Seq<u8>| crate::codec::property_encode::property_encoding(v.1, pw)
        && w == seq![v.0.wire_code()] + pw;
    let s = w + rest;
    assert(s[0] == v.0.wire_code());
    v.0.lemma_wire_code(v.0.wire_code());
    assert(s.skip(1) =~= pw + rest);
    lemma_property_roundtrip(v.1, pw, rest);
}

/// Reading a written AUTH variable header gives it back: for properties
/// that are allowed in AUTH and read back, decoding the bytes written,
/// followed by any bytes, returns the header and takes exactly the bytes
/// written.
pub proof fn lemma_auth_variable_header_roundtrip(v: (AuthenticateReasonCode, Mqtt5PropertyModel), w: Seq<u8>, rest: Seq<u8>)
    requires
        property_roundtrips(v.1),
        keys_within(v.1.properties, auth_property_ids()),
        auth_variable_header_encoding(v, w),
    ensures
        spec_auth_variable_header(w + rest) == Decoded::Done(v, w.len()),
{
    let pw = choose|pw: Seq<u8>| crate::codec::property_encode::property_encoding(v.1, pw)
        && w == seq![v.0.wire_code()] + pw;
    let s = w + rest;
    assert(s[0] == v.0.wire_code());
    v.0.lemma_wire_code(v.0.wire_code());
    assert(s.skip(1) =~= pw + rest);
    lemma_property_roundtrip(v.1, pw, rest);
}

/// Reading a written SUBSCRIBE variable header gives it back: for a nonzero
/// packet identifier and properties that are allowed in SUBSCRIBE and read back,
/// decoding the bytes written, followed by any bytes, returns the header and
/// takes exactly the bytes written.
pub proof fn lemma_subscribe_variable_header_roundtrip(v: (u16, Mqtt5PropertyModel), w: Seq<u8>, rest: Seq<u8>)
    requires
        v.0 != 0,
        property_roundtrips(v.1),
        keys_within(v.1.properties, subscribe_property_ids()),
        subscribe_variable_header_encoding(v, w),
    ensures
        spec_subscribe_variable_header(w + rest) == Decoded::Done(v, w.len()),
{
    let pw = choose|pw: Seq<u8>| crate::codec::property_encode::property_encoding(v.1, pw) && w == be16(v.0) + pw;
    let s = w + rest;
    lemma_be16_roundtrip(v.0, pw + rest);
    assert(s =~= be16(v.0) + (pw + rest));
    assert(s.skip(2) =~= pw + rest);
    lemma_property_roundtrip(v.1, pw, rest);
}

/// Reading a written UNSUBSCRIBE variable header gives it back: for a nonzero
/// packet identifier and properties that are allowed in UNSUBSCRIBE and read back,
/// decoding the bytes written, followed by any bytes, returns the header and
/// takes exactly the bytes written.
pub proof fn lemma_unsubscribe_variable_header_roundtrip(v: (u16, Mqtt5PropertyModel), w: Seq<u8>, rest: Seq<u8>)
    requires
        v.0 != 0,
        property_roundtrips(v.1),
        keys_within(v.1.properties, unsubscribe_property_ids()),
        unsubscribe_variable_header_encoding(v, w),
    ensures
        spec_unsubscribe_variable_header(w + rest) == Decoded::Done(v, w.len()),
{
    let pw = choose|pw: Seq<u8>| crate::codec::property_encode::property_encoding(v.1, pw) && w == be16(v.0) + pw;
    let s = w + rest;
    lemma_be16_roundtrip(v.0, pw + rest);
    assert(s =~= be16(v.0) + (pw + rest));
    assert(s.skip(2) =~= pw + rest);
    lemma_property_roundtrip(v.1, pw, rest);
}

/// Reading a written SUBACK variable header gives it back: for a nonzero
/// packet identifier and properties that are allowed in SUBACK and read back,
/// decoding the bytes written, followed by any bytes, returns the header and
/// takes exactly the bytes written.
pub proof fn lemma_suback_variable_header_roundtrip(v: (u16, Mqtt5PropertyModel), w: Seq<u8>, rest: Seq<u8>)
    requires
        v.0 != 0,
        property_roundtrips(v.1),
        keys_within(v.1.properties, suback_property_ids()),
        suback_variable_header_encoding(v, w),
    ensures
        spec_suback_variable_header(w + rest) == Decoded::Done(v, w.len()),
{
    let pw = choose|pw: Seq<u8>| crate::codec::property_encode::property_encoding(v.1, pw) && w == be16(v.0) + pw;
    let s = w + rest;
    lemma_be16_roundtrip(v.0, pw + rest);
    assert(s =~= be16(v.0) + (pw + rest));
    assert(s.skip(2) =~= pw + rest);
    lemma_property_roundtrip(v.1, pw, rest);
}

/// Reading a written UNSUBACK variable header gives it back: for a nonzero
/// packet identifier and properties that are allowed in UNSUBACK and read back,
/// decoding the bytes written, followed by any bytes, returns the header and
/// takes exactly the bytes written.
pub proof fn lemma_unsuback_variable_header_roundtrip(v: (u16, Mqtt5PropertyModel), w: Seq<u8>, rest: Seq<u8>)
    requires
        v.0 != 0,
        property_roundtrips(v.1),
        keys_within(v.1.properties, unsuback_property_ids()),
        unsuback_variable_header_encoding(v, w),
    ensures
        spec_unsuback_variable_header(w + rest) == Decoded::Done(v, w.len()),
{
    let pw = choose|pw: Seq<u8>| crate::codec::property_encode::property_encoding(v.1, pw) && w == be16(v.0) + pw;
    let s = w + rest;
    lemma_be16_roundtrip(v.0, pw + rest);
    assert(s =~= be16(v.0) + (pw + rest));
    assert(s.skip(2) =~= pw + rest);
    lemma_property_roundtrip(v.1, pw, rest);
}

/// Reading a written CONNACK variable header gives it back: for properties
/// that are allowed in CONNACK and read back, decoding the bytes written,
/// followed by any bytes, returns the header and takes exactly the bytes
/// written.
pub proof fn lemma_connack_variable_header_roundtrip(v: (bool, ConnectReasonCode, Mqtt5PropertyModel), w: Seq<u8>, rest: Seq<u8>)
    requires
        property_roundtrips(v.2),
        keys_within(v.2.properties, connack_property_ids()),
        connack_variable_header_encoding(v, w),
    ensures
        spec_connack_variable_header(w + rest) == Decoded::Done(v, w.len()),
{
    let pw = choose|pw: Seq<u8>| crate::codec::property_encode::property_encoding(v.2, pw)
        && w == seq![if v.0 { 1u8 } else { 0u8 }] + seq![v.1.wire_code()] + pw;
    let s = w + rest;
    assert(s[0] == if v.0 { 1u8 } else { 0u8 });
    assert(s[1] == v.1.wire_code());
    v.1.lemma_wire_code(v.1.wire_code());
    assert(s.skip(2) =~= pw + rest);
    lemma_property_roundtrip(v.2, pw, rest);
}

/// Reading a written PUBLISH variable header gives it back: for a topic of
/// at most 65535 bytes, a nonzero packet identifier and properties that are
/// allowed in PUBLISH and read back, decoding the bytes written, followed by
/// any bytes, returns the header and takes exactly the bytes written.
pub proof fn lemma_publish_variable_header_roundtrip(v: (Seq<char>, u16, Mqtt5PropertyModel), w: Seq<u8>, rest: Seq<u8>)
    requires
        encode_utf8(v.0).len() <= 65535,
        v.1 != 0,
        property_roundtrips(v.2),
        keys_within(v.2.properties, publish_property_ids()),
        publish_variable_header_encoding(v, w),
    ensures
        spec_publish_variable_header(w + rest) == Decoded::Done(v, w.len()),
{
    let pw = choose|pw: Seq<u8>| crate::codec::property_encode::property_encoding(v.2, pw)
        && w == length_prefixed(encode_utf8(v.0)) + be16(v.1) + pw;
    let s = w + rest;
    let t = length_prefixed(encode_utf8(v.0));
    assert(s =~= t + (be16(v.1) + pw + rest));
    lemma_string_roundtrip(v.0, be16(v.1) + pw + rest);
    let n = encode_utf8(v.0).len() + 2;
    assert(t.len() == n);
    assert(s.skip(n as int) =~= be16(v.1) + (pw + rest));
    lemma_be16_roundtrip(v.1, pw + rest);
    assert(be_u16_at(s, n as int) == be_u16_at(s.skip(n as int), 0));
    assert(s.skip(n + 2 as int) =~= pw + rest);
    lemma_property_roundtrip(v.2, pw, rest);
}

/// The fields of a fixed header's first byte are read back from it.
proof fn lemma_header_byte_fields(h: FixedHeader)
    ensures
        header_byte(h) / 16 == packet_type_code(h.packet_type),
        (header_byte(h) / 8) % 2 == 1 <==> h.dup,
        (header_byte(h) / 2) % 4 == qos_code(h.qos),
        header_byte(h) % 2 == 1 <==> h.retain,
{
    lemma_packet_type_code(h.packet_type, 0);
    let t = packet_type_code(h.packet_type) as int;
    let d: int = if h.dup { 1 } else { 0 };
    let q = qos_code(h.qos) as int;
    let r: int = if h.retain { 1 } else { 0 };
    assert(0 <= q <= 3);
    let b = t * 16 + d * 8 + q * 2 + r;
    assert(0 <= b < 256);
    assert(header_byte(h) as int == b);
    assert(b / 16 == t && (b / 8) % 2 == d && (b / 2) % 4 == q && b % 2 == r) by (nonlinear_arith)
        requires
            1 <= t <= 15,
            0 <= d <= 1,
            0 <= q <= 3,
            0 <= r <= 1,
            b == t * 16 + d * 8 + q * 2 + r,
    ;
}

/// Reading a written fixed header gives it back: for a usable qos and a
/// remaining length below 127 that is the number of bytes that follow,
/// decoding the header's bytes followed by those bytes returns the header
/// and takes its two bytes.
pub proof fn lemma_fixed_header_roundtrip(h: FixedHeader, body: Seq<u8>)
    requires
        h.qos != Qos::Reserved,
        h.remaining_length <= 126,
        body.len() == h.remaining_length,
    ensures
        spec_fixed_header(fixed_header_bytes(h) + body) == Decoded::Done(h, 2),
{
    let s = fixed_header_bytes(h) + body;
    lemma_varint_small(h.remaining_length as nat, body);
    lemma_header_byte_fields(h);
    lemma_packet_type_code(h.packet_type, header_byte(h) / 16);
    lemma_qos_code_roundtrip(h.qos);
    assert(s[0] == header_byte(h));
    assert(s.skip(1) =~= crate::codec::varint_encode(h.remaining_length as nat) + body);
}

} // verus!
