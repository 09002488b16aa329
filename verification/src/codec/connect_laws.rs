//! What reading a written CONNECT packet gives back: its protocol name,
//! flags, variable header, payload, and the whole packet.
use vstd::prelude::*;
use crate::codec::check::keys_within;
use crate::codec::error::Decoded;
use crate::codec::fixed_header::{fixed_header_bytes, FixedHeader};
use crate::codec::header_laws::lemma_fixed_header_roundtrip;
use crate::codec::packet::{spec_packet, PacketModel, PacketType};
use crate::codec::property_encode::property_encoding;
use crate::codec::property_laws::{
    lemma_be16_roundtrip, lemma_bytes_roundtrip, lemma_property_roundtrip, lemma_string_roundtrip, property_roundtrips,
};
use crate::codec::publish::{lemma_qos_code_roundtrip, qos_code, Qos};
use crate::codec::connect::{
    connect_flags_byte, connect_payload_encoding, connect_property_ids, connect_variable_header_encoding,
    optional_string_bytes, spec_connect, spec_connect_extra, spec_connect_flags, spec_connect_payload,
    spec_connect_variable_header, spec_optional_string, spec_will, will_property_ids, ConnectFlagsModel,
    ConnectPayloadModel, ConnectVariableHeaderModel,
};
use crate::codec::protocol::{protocol_bytes, spec_protocol, Protocol};
use crate::codec::{length_prefixed, spec_read_string_expect};
use crate::codec::property::spec_property_from_buf;
use vstd::utf8::encode_utf8;

verus! {

/// The protocol name and level are read back from the bytes written for
/// them, whatever follows.
pub proof fn lemma_protocol_roundtrip(rest: Seq<u8>)
    ensures
        spec_protocol(protocol_bytes() + rest) == Decoded::Done(Protocol::MQTT5, 7),
{
    reveal_strlit("MQTT");
    let name: Seq<char> = "MQTT"@;
    assert(name == seq!['M', 'Q', 'T', 'T']);
    assert(encode_utf8(name) =~= seq![77u8, 81u8, 84u8, 84u8]) by {
        reveal_with_fuel(encode_utf8, 5);
        assert(name.drop_first() =~= seq!['Q', 'T', 'T']);
        assert(name.drop_first().drop_first() =~= seq!['T', 'T']);
        assert(name.drop_first().drop_first().drop_first() =~= seq!['T']);
        assert(name.drop_first().drop_first().drop_first().drop_first() =~= Seq::<char>::empty());
        assert(('M' as u32) == 77);
        assert(('Q' as u32) == 81);
        assert(('T' as u32) == 84);
        assert(77u32 & 0x7F == 77u32) by (bit_vector);
        assert(81u32 & 0x7F == 81u32) by (bit_vector);
        assert(84u32 & 0x7F == 84u32) by (bit_vector);
        assert(vstd::utf8::encode_scalar(77u32) =~= seq![77u8]);
        assert(vstd::utf8::encode_scalar(81u32) =~= seq![81u8]);
        assert(vstd::utf8::encode_scalar(84u32) =~= seq![84u8]);
        assert(encode_utf8(seq!['T']) =~= seq![84u8]);
        assert(encode_utf8(seq!['T', 'T']) =~= seq![84u8, 84u8]);
        assert(encode_utf8(seq!['Q', 'T', 'T']) =~= seq![81u8, 84u8, 84u8]);
    }
    let s = protocol_bytes() + rest;
    lemma_string_roundtrip(name, seq![5u8] + rest);
    assert(length_prefixed(encode_utf8(name)) =~= seq![0u8, 4u8, 77u8, 81u8, 84u8, 84u8]);
    assert(s =~= length_prefixed(encode_utf8(name)) + (seq![5u8] + rest));
    assert(s[6] == 5);
}

/// CONNECT flags that read back from their byte: a usable will qos, and
/// without a will neither a will qos nor will retain.
pub open spec fn connect_flags_roundtrip(f: ConnectFlagsModel) -> bool {
    &&& f.2 != Qos::Reserved
    &&& !f.1 ==> f.2 == Qos::AtMostOnce && !f.3
}

/// CONNECT flags are read back from the byte written for them.
pub proof fn lemma_connect_flags_roundtrip(f: ConnectFlagsModel)
    requires
        connect_flags_roundtrip(f),
    ensures
        spec_connect_flags(connect_flags_byte(f)) == Decoded::Done(f, 1),
{
    lemma_qos_code_roundtrip(f.2);
    let c: int = if f.0 { 1 } else { 0 };
    let w: int = if f.1 { 1 } else { 0 };
    let q = qos_code(f.2) as int;
    let r: int = if f.3 { 1 } else { 0 };
    let u: int = if f.4 { 1 } else { 0 };
    let pw: int = if f.5 { 1 } else { 0 };
    assert(0 <= q <= 2);
    let b = c * 2 + w * 4 + q * 8 + r * 32 + pw * 64 + u * 128;
    assert(0 <= b < 256);
    assert(connect_flags_byte(f) as int == b);
    assert(b % 2 == 0 && (b / 2) % 2 == c && (b / 4) % 2 == w && (b / 8) % 4 == q && (b / 32) % 2 == r && (b / 64)
        % 2 == pw && (b / 128) % 2 == u) by (nonlinear_arith)
        requires
            0 <= c <= 1,
            0 <= w <= 1,
            0 <= q <= 2,
            0 <= r <= 1,
            0 <= pw <= 1,
            0 <= u <= 1,
            b == c * 2 + w * 4 + q * 8 + r * 32 + pw * 64 + u * 128,
    ;
}

/// The bits of a flags byte made of one-bit values and a two-bit value.
proof fn lemma_flag_bits(c: u8, w: u8, q: u8, r: u8, p: u8, u: u8, b: u8)
    by (bit_vector)
    requires
        c <= 1,
        w <= 1,
        q <= 3,
        r <= 1,
        p <= 1,
        u <= 1,
        b == c * 2 + w * 4 + q * 8 + r * 32 + p * 64 + u * 128,
    ensures
        b & 1 == 0,
        (b >> 1) & 1 == c,
        (b >> 2) & 1 == w,
        (b >> 3) & 3 == q,
        (b >> 5) & 1 == r,
        (b >> 6) & 1 == p,
        (b >> 7) & 1 == u,
{
}

/// The byte written for CONNECT flags `f` has bit 0 clear, clean start in
/// bit 1, will in bit 2, the will qos code in bits 3-4, will retain in bit
/// 5, the password flag in bit 6 and the user name flag in bit 7.
pub proof fn lemma_connect_flags_byte_bits(f: ConnectFlagsModel)
    ensures
        connect_flags_byte(f) & 1 == 0,
        (connect_flags_byte(f) >> 1) & 1 == (if f.0 { 1u8 } else { 0u8 }),
        (connect_flags_byte(f) >> 2) & 1 == (if f.1 { 1u8 } else { 0u8 }),
        (connect_flags_byte(f) >> 3) & 3 == qos_code(f.2),
        (connect_flags_byte(f) >> 5) & 1 == (if f.3 { 1u8 } else { 0u8 }),
        (connect_flags_byte(f) >> 6) & 1 == (if f.5 { 1u8 } else { 0u8 }),
        (connect_flags_byte(f) >> 7) & 1 == (if f.4 { 1u8 } else { 0u8 }),
{
    let c: u8 = if f.0 { 1 } else { 0 };
    let w: u8 = if f.1 { 1 } else { 0 };
    let q: u8 = qos_code(f.2);
    let r: u8 = if f.3 { 1 } else { 0 };
    let u: u8 = if f.4 { 1 } else { 0 };
    let p: u8 = if f.5 { 1 } else { 0 };
    assert(q <= 3);
    let b = connect_flags_byte(f);
    assert(b == c * 2 + w * 4 + q * 8 + r * 32 + p * 64 + u * 128);
    lemma_flag_bits(c, w, q, r, p, u, b);
}

/// The shifted bits of a byte are its quotients' remainders.
proof fn lemma_byte_bits(b: u8)
    by (bit_vector)
    ensures
        b & 1 == b % 2,
        (b >> 1) & 1 == (b / 2) % 2,
        (b >> 2) & 1 == (b / 4) % 2,
        (b >> 3) & 3 == (b / 8) % 4,
        (b >> 5) & 1 == (b / 32) % 2,
        (b >> 6) & 1 == (b / 64) % 2,
        (b >> 7) & 1 == (b / 128) % 2,
{
}

/// A CONNECT flags byte `b` reads exactly when bit 0 is clear, the will qos
/// in bits 3-4 is not 3, and, without a will (bit 2), the will qos is 0 and
/// will retain (bit 5) is clear; otherwise it is a malformed packet. What it
/// reads is clean start from bit 1, will from bit 2, the will qos from bits
/// 3-4, will retain from bit 5, the password flag from bit 6 and the user
/// name flag from bit 7, and it takes the one byte.
pub proof fn lemma_connect_flags_byte_read(b: u8)
    ensures
        (spec_connect_flags(b) is Done) == (b & 1 == 0 && (b >> 3) & 3 != 3 && ((b >> 2) & 1 == 1 || ((b >> 3)
            & 3 == 0 && (b >> 5) & 1 == 0))),
        spec_connect_flags(b) matches Decoded::Done(f, n) ==> {
            &&& n == 1
            &&& f.0 == ((b >> 1) & 1 == 1)
            &&& f.1 == ((b >> 2) & 1 == 1)
            &&& qos_code(f.2) == (b >> 3) & 3
            &&& f.3 == ((b >> 5) & 1 == 1)
            &&& f.4 == ((b >> 7) & 1 == 1)
            &&& f.5 == ((b >> 6) & 1 == 1)
        },
        !(spec_connect_flags(b) is Done) ==> spec_connect_flags(b) == Decoded::<ConnectFlagsModel>::Fail(
            crate::codec::error::ErrorModel::MalformedPacket,
            1,
        ),
{
    lemma_byte_bits(b);
    let x = (b / 8) % 4;
    assert(x <= 3);
}

/// With no will and exactly one of the user name and password flags set,
/// the payload after the client id `c` holds the one string `x`, whatever
/// follows: it is read as the user name when the user name flag is set and
/// as the password when the password flag is set, and the other is absent.
pub proof fn lemma_connect_payload_credential(c: Seq<char>, x: Seq<char>, f: ConnectFlagsModel, rest: Seq<u8>)
    requires
        !f.1,
        f.4 != f.5,
        encode_utf8(c).len() <= 65535,
        encode_utf8(x).len() <= 65535,
    ensures
        spec_connect_payload(length_prefixed(encode_utf8(c)) + length_prefixed(encode_utf8(x)) + rest, f)
            == Decoded::Done(
            (
                c,
                None::<crate::codec::property::Mqtt5PropertyModel>,
                None::<Seq<char>>,
                None::<Seq<u8>>,
                if f.4 { Some(x) } else { None },
                if f.5 { Some(x) } else { None },
            ),
            encode_utf8(c).len() + 2 + encode_utf8(x).len() + 2,
        ),
{
    let cx = length_prefixed(encode_utf8(c));
    let xs = length_prefixed(encode_utf8(x));
    let s = cx + xs + rest;
    assert(s =~= cx + (xs + rest));
    lemma_string_roundtrip(c, xs + rest);
    let n1 = encode_utf8(c).len() + 2;
    assert(s.skip(n1 as int) =~= xs + rest);
    lemma_string_roundtrip(x, rest);
    let n3 = encode_utf8(x).len() + 2;
    assert((xs + rest).skip(n3 as int) =~= rest);
    assert(s.skip((n1 + n3) as int) =~= rest);
}

/// Reading a written CONNECT variable header gives it back: for flags that
/// read back and properties that are allowed in CONNECT and read back,
/// decoding the bytes written, followed by any bytes, returns the header
/// and takes exactly the bytes written.
#[verifier::rlimit(40)]
#[verifier::spinoff_prover]
pub proof fn lemma_connect_variable_header_roundtrip(v: ConnectVariableHeaderModel, w: Seq<u8>, rest: Seq<u8>)
    requires
        connect_flags_roundtrip(v.1),
        property_roundtrips(v.3),
        keys_within(v.3.properties, connect_property_ids()),
        connect_variable_header_encoding(v, w),
    ensures
        spec_connect_variable_header(w + rest) == Decoded::Done(v, w.len()),
{
    let pw = choose|pw: Seq<u8>|
        property_encoding(v.3, pw) && w == protocol_bytes() + seq![connect_flags_byte(v.1)] + crate::codec::be16(v.2)
            + pw;
    let s = w + rest;
    let after = seq![connect_flags_byte(v.1)] + crate::codec::be16(v.2) + pw + rest;
    assert(s =~= protocol_bytes() + after);
    lemma_protocol_roundtrip(after);
    assert(s[7] == connect_flags_byte(v.1));
    lemma_connect_flags_roundtrip(v.1);
    lemma_be16_roundtrip(v.2, pw + rest);
    assert(s.skip(8) =~= crate::codec::be16(v.2) + (pw + rest));
    assert(crate::codec::buffer::be_u16_at(s, 8) == crate::codec::buffer::be_u16_at(s.skip(8), 0));
    assert(s.skip(10) =~= pw + rest);
    lemma_property_roundtrip(v.3, pw, rest);
    assert(v.0 == Protocol::MQTT5);
}

/// A CONNECT payload that reads back under flags `f`: what the flags
/// announce is there and nothing else, every string and datum fits a
/// two-byte length, and the will properties are allowed and read back.
pub open spec fn connect_payload_roundtrips(p: ConnectPayloadModel, f: ConnectFlagsModel) -> bool {
    &&& encode_utf8(p.0).len() <= 65535
    &&& if f.1 {
        &&& p.1 is Some && p.2 is Some && p.3 is Some
        &&& property_roundtrips(p.1->0)
        &&& keys_within(p.1->0.properties, will_property_ids())
        &&& encode_utf8(p.2->0).len() <= 65535
        &&& p.3->0.len() <= 65535
    } else {
        p.1 is None && p.2 is None && p.3 is None
    }
    &&& if f.4 {
        p.4 is Some && encode_utf8(p.4->0).len() <= 65535
    } else {
        p.4 is None
    }
    &&& if f.5 {
        p.5 is Some && encode_utf8(p.5->0).len() <= 65535
    } else {
        p.5 is None
    }
}

/// An optional string written when its flag is set reads back.
proof fn lemma_optional_string_roundtrip(flag: bool, x: Option<Seq<char>>, rest: Seq<u8>)
    requires
        flag ==> x is Some && encode_utf8(x->0).len() <= 65535,
        !flag ==> x is None,
    ensures
        spec_optional_string(optional_string_bytes(flag, x) + rest, flag)
            == Decoded::Done(x, optional_string_bytes(flag, x).len()),
{
    if flag {
        lemma_string_roundtrip(x->0, rest);
    }
}

/// A written will (properties, topic, payload) reads back, whatever
/// follows.
#[verifier::rlimit(40)]
#[verifier::spinoff_prover]
proof fn lemma_will_roundtrip(
    wp: crate::codec::property::Mqtt5PropertyModel,
    topic: Seq<char>,
    data: Seq<u8>,
    ww: Seq<u8>,
    rest: Seq<u8>,
)
    requires
        property_roundtrips(wp),
        keys_within(wp.properties, will_property_ids()),
        property_encoding(wp, ww),
        encode_utf8(topic).len() <= 65535,
        data.len() <= 65535,
    ensures
        spec_will(ww + length_prefixed(encode_utf8(topic)) + length_prefixed(data) + rest, true) == Decoded::Done(
            (Some(wp), Some(topic), Some(data)),
            ww.len() + encode_utf8(topic).len() + 2 + data.len() + 2,
        ),
{
    let tb = length_prefixed(encode_utf8(topic));
    let db = length_prefixed(data);
    let s = ww + tb + db + rest;
    let n1 = ww.len();
    let n2 = tb.len();
    assert(s =~= ww + (tb + db + rest));
    lemma_property_roundtrip(wp, ww, tb + db + rest);
    assert(spec_property_from_buf(s) == Decoded::Done(wp, n1));
    assert(s.skip(n1 as int) =~= tb + (db + rest));
    lemma_string_roundtrip(topic, db + rest);
    assert(spec_read_string_expect(s.skip(n1 as int)) == Decoded::Done(topic, n2));
    assert(s.skip((n1 + n2) as int) =~= db + rest);
    lemma_bytes_roundtrip(data, rest);
    assert(crate::codec::spec_read_bytes(s.skip((n1 + n2) as int)) == Decoded::Done(data, data.len() + 2));
    assert(s.len() >= n1 + n2 + 2);
}

/// The bytes written for the will of a payload under flags `f`, which sit
/// between the client identifier and the user name, read back as the will.
#[verifier::rlimit(40)]
#[verifier::spinoff_prover]
proof fn lemma_payload_will(p: ConnectPayloadModel, f: ConnectFlagsModel, w: Seq<u8>, rest: Seq<u8>) -> (wb: Seq<u8>)
    requires
        connect_payload_roundtrips(p, f),
        connect_payload_encoding(p, f, w),
    ensures
        w == length_prefixed(encode_utf8(p.0)) + wb + optional_string_bytes(f.4, p.4) + optional_string_bytes(f.5, p.5),
        spec_will(wb + rest, f.1) == Decoded::Done((p.1, p.2, p.3), wb.len()),
{
    let tail = optional_string_bytes(f.4, p.4) + optional_string_bytes(f.5, p.5);
    let cid = length_prefixed(encode_utf8(p.0));
    if f.1 {
        let ww = choose|ww: Seq<u8>|
            #[trigger] property_encoding(p.1->0, ww) && w == cid + ww + length_prefixed(encode_utf8(p.2->0))
                + length_prefixed(p.3->0) + tail;
        let wb = ww + length_prefixed(encode_utf8(p.2->0)) + length_prefixed(p.3->0);
        assert(w =~= cid + wb + optional_string_bytes(f.4, p.4) + optional_string_bytes(f.5, p.5));
        lemma_will_roundtrip(p.1->0, p.2->0, p.3->0, ww, rest);
        wb
    } else {
        let wb = Seq::<u8>::empty();
        assert(w =~= cid + wb + optional_string_bytes(f.4, p.4) + optional_string_bytes(f.5, p.5));
        wb
    }
}

/// Where the parts of a written payload begin, followed by any bytes.
proof fn lemma_payload_parts(cid: Seq<u8>, wb: Seq<u8>, us: Seq<u8>, ps: Seq<u8>, rest: Seq<u8>)
    ensures
        cid + wb + us + ps + rest == cid + (wb + (us + ps + rest)),
        (cid + wb + us + ps + rest).skip(cid.len() as int) == wb + (us + ps + rest),
        (cid + wb + us + ps + rest).skip((cid.len() + wb.len()) as int) == us + (ps + rest),
        (cid + wb + us + ps + rest).skip((cid.len() + wb.len() + us.len()) as int) == ps + rest,
{
    assert(cid + wb + us + ps + rest =~= cid + (wb + (us + ps + rest)));
    assert((cid + wb + us + ps + rest).skip(cid.len() as int) =~= wb + (us + ps + rest));
    assert((cid + wb + us + ps + rest).skip((cid.len() + wb.len()) as int) =~= us + (ps + rest));
    assert((cid + wb + us + ps + rest).skip((cid.len() + wb.len() + us.len()) as int) =~= ps + rest);
}

/// Reading a written CONNECT payload gives it back: for a payload that
/// reads back under flags `f`, decoding the bytes written, followed by any
/// bytes, returns the payload and takes exactly the bytes written.
#[verifier::rlimit(40)]
#[verifier::spinoff_prover]
pub proof fn lemma_connect_payload_roundtrip(p: ConnectPayloadModel, f: ConnectFlagsModel, w: Seq<u8>, rest: Seq<u8>)
    requires
        connect_payload_roundtrips(p, f),
        connect_payload_encoding(p, f, w),
    ensures
        spec_connect_payload(w + rest, f) == Decoded::Done(p, w.len()),
{
    let us = optional_string_bytes(f.4, p.4);
    let ps = optional_string_bytes(f.5, p.5);
    let cid = length_prefixed(encode_utf8(p.0));
    let wb = lemma_payload_will(p, f, w, us + ps + rest);
    lemma_payload_parts(cid, wb, us, ps, rest);
    lemma_string_roundtrip(p.0, wb + (us + ps + rest));
    lemma_optional_string_roundtrip(f.4, p.4, ps + rest);
    lemma_optional_string_roundtrip(f.5, p.5, rest);
}

/// The part of a written CONNECT packet after its fixed header reads back.
#[verifier::rlimit(40)]
#[verifier::spinoff_prover]
pub(crate) proof fn lemma_connect_extra_roundtrip(
    p: (FixedHeader, ConnectVariableHeaderModel, ConnectPayloadModel),
    wv: Seq<u8>,
    wp: Seq<u8>,
)
    requires
        connect_flags_roundtrip(p.1.1),
        property_roundtrips(p.1.3),
        keys_within(p.1.3.properties, connect_property_ids()),
        connect_variable_header_encoding(p.1, wv),
        connect_payload_roundtrips(p.2, p.1.1),
        connect_payload_encoding(p.2, p.1.1, wp),
    ensures
        spec_connect_extra(wv + wp, p.0) == Decoded::Done(p, wv.len() + wp.len()),
{
    lemma_connect_variable_header_roundtrip(p.1, wv, wp);
    assert((wv + wp).skip(wv.len() as int) =~= wp + Seq::<u8>::empty());
    lemma_connect_payload_roundtrip(p.2, p.1.1, wp, Seq::empty());
}

/// Reading a written CONNECT packet gives it back: for a fixed header of
/// type CONNECT with no flags, whose remaining length is the length (below
/// 127) of the variable header and payload written after it, flags that
/// read back, properties that are allowed in CONNECT and read back, and a
/// payload that reads back under the flags, the bytes written decode to the
/// packet, both by the CONNECT decoder and as any packet.
#[verifier::rlimit(40)]
#[verifier::spinoff_prover]
pub proof fn lemma_connect_roundtrip(
    p: (FixedHeader, ConnectVariableHeaderModel, ConnectPayloadModel),
    wv: Seq<u8>,
    wp: Seq<u8>,
)
    requires
        p.0.packet_type == PacketType::CONNECT,
        !p.0.dup,
        p.0.qos == Qos::AtMostOnce,
        !p.0.retain,
        p.0.remaining_length == wv.len() + wp.len(),
        wv.len() + wp.len() <= 126,
        connect_flags_roundtrip(p.1.1),
        property_roundtrips(p.1.3),
        keys_within(p.1.3.properties, connect_property_ids()),
        connect_variable_header_encoding(p.1, wv),
        connect_payload_roundtrips(p.2, p.1.1),
        connect_payload_encoding(p.2, p.1.1, wp),
    ensures
        spec_connect(fixed_header_bytes(p.0) + wv + wp) == Decoded::Done(p, 2 + wv.len() + wp.len()),
        spec_packet(fixed_header_bytes(p.0) + wv + wp) == Decoded::Done(PacketModel::Connect(p), 2 + wv.len() + wp.len()),
{
    let body = wv + wp;
    let s = fixed_header_bytes(p.0) + wv + wp;
    assert(s =~= fixed_header_bytes(p.0) + body);
    lemma_fixed_header_roundtrip(p.0, body);
    assert(s.skip(2) =~= body);
    lemma_connect_extra_roundtrip(p, wv, wp);
    assert(spec_connect_extra(s.skip(2), p.0) == Decoded::Done(p, wv.len() + wp.len()));
    assert(crate::codec::packet::spec_packet_body(s.skip(2), p.0) == Decoded::Done(
        PacketModel::Connect(p),
        wv.len() + wp.len(),
    )) by {
        reveal(crate::codec::packet::spec_packet_body);
    }
}

} // verus!
