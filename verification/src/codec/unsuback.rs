//! The UNSUBACK packet: a packet identifier, properties, then a reason code
//! for each topic filter.
use vstd::prelude::*;
use bytes::BytesMut;
use crate::codec::buffer::{be_u16_at, buf_contents, buf_get_u16, buf_get_u8};
use crate::codec::check::{keys_allowed, keys_within};
use crate::codec::error::{Decoded, Error, ErrorModel};
use crate::codec::fixed_header::{default_fixed_header, fixed_header_bytes, spec_fixed_header, FixedHeader};
use crate::codec::packet::{PacketCodec, PacketId, PacketType};
use crate::codec::property::{
    consumed, empty_property_model, lemma_property_from_buf_consumed, spec_property_from_buf, Mqtt5Property,
    Mqtt5PropertyModel,
};
use crate::codec::property_encode::{property_encoding, property_writable};
use crate::codec::publish::Qos;
use crate::codec::unsubscribe::UnSubscribeReasonCode;
use crate::codec::error::lemma_shift_shift;
use crate::codec::{be16, variable_bytes_len, varint_encode, FromToBuf, FromToU8};

verus! {

/// A UNSUBACK packet.
#[derive(Debug, Clone, PartialEq)]
pub struct UnSubAck {
    fixed_header: FixedHeader,
    variable_header: UnSubAckVariableHeader,
    payload: Vec<UnSubscribeReasonCode>,
}

impl View for UnSubAck {
    type V = (FixedHeader, (u16, Mqtt5PropertyModel), Seq<UnSubscribeReasonCode>);

    closed spec fn view(&self) -> (FixedHeader, (u16, Mqtt5PropertyModel), Seq<UnSubscribeReasonCode>) {
        (self.fixed_header, self.variable_header@, self.payload@)
    }
}

/// Decoding `count` reason codes from the front of `s`, after `acc`.
pub open spec fn spec_unsuback_codes(s: Seq<u8>, count: nat, acc: Seq<UnSubscribeReasonCode>) -> Decoded<Seq<UnSubscribeReasonCode>>
    decreases count,
{
    if count == 0 {
        Decoded::Done(acc, 0)
    } else if s.len() < 1 {
        Decoded::Panic
    } else {
        match UnSubscribeReasonCode::from_wire(s[0]) {
            None => Decoded::Fail(ErrorModel::InvalidReasonCode(s[0]), 1),
            Some(c) => spec_unsuback_codes(s.skip(1), (count - 1) as nat, acc.push(c)).shifted(1),
        }
    }
}

/// The number of payload bytes the headers announce: the remaining length
/// less the packet identifier and the property list.
pub open spec fn unsuback_payload_count(h: FixedHeader, v: (u16, Mqtt5PropertyModel)) -> int {
    h.remaining_length - 2 - varint_encode(v.1.property_length as nat).len() - v.1.property_length
}

/// Decoding the rest of a UNSUBACK packet after its fixed header `h`.
pub open spec fn spec_unsuback_extra(s: Seq<u8>, h: FixedHeader) -> Decoded<(FixedHeader, (u16, Mqtt5PropertyModel), Seq<UnSubscribeReasonCode>)> {
    match spec_unsuback_variable_header(s) {
        Decoded::Done(v, n) => if unsuback_payload_count(h, v) < 0 {
            Decoded::Panic
        } else {
            match spec_unsuback_codes(s.skip(n as int), unsuback_payload_count(h, v) as nat, Seq::empty()) {
                Decoded::Done(codes, m) => Decoded::Done((h, v, codes), n + m),
                Decoded::Fail(e, m) => Decoded::Fail(e, n + m),
                Decoded::Panic => Decoded::Panic,
            }
        },
        _ => Decoded::Panic,
    }
}

/// Decoding a UNSUBACK packet from the front of `s`.
pub open spec fn spec_unsuback(s: Seq<u8>) -> Decoded<(FixedHeader, (u16, Mqtt5PropertyModel), Seq<UnSubscribeReasonCode>)> {
    match spec_fixed_header(s) {
        Decoded::Done(h, n) => if h.packet_type != PacketType::UNSUBACK || h.dup || h.qos != Qos::AtMostOnce || h.retain {
            Decoded::Panic
        } else {
            spec_unsuback_extra(s.skip(n as int), h).shifted(n)
        },
        _ => Decoded::Panic,
    }
}

/// The bytes of a list of reason codes.
pub open spec fn unsuback_codes_bytes(codes: Seq<UnSubscribeReasonCode>) -> Seq<u8> {
    codes.map_values(|c: UnSubscribeReasonCode| c.wire_code())
}

proof fn lemma_unsuback_codes_consumed(s: Seq<u8>, count: nat, acc: Seq<UnSubscribeReasonCode>)
    ensures
        spec_unsuback_codes(s, count, acc).taken() <= s.len(),
    decreases count,
{
    if count > 0 && s.len() >= 1 {
        if let Some(c) = UnSubscribeReasonCode::from_wire(s[0]) {
            lemma_unsuback_codes_consumed(s.skip(1), (count - 1) as nat, acc.push(c));
        }
    }
}

impl PacketCodec<UnSubAck> for UnSubAck {
    open spec fn extra_readable(s: Seq<u8>, fixed_header: FixedHeader) -> bool {
        !spec_unsuback_extra(s, fixed_header).panics()
    }

    fn from_buf_extra(buf: &mut BytesMut, fixed_header: FixedHeader) -> (res: Result<UnSubAck, Error>)
        ensures
            match spec_unsuback_extra(buf_contents(*old(buf)), fixed_header) {
                Decoded::Done(v, n) => res matches Ok(r) && r@ == v
                    && buf_contents(*final(buf)) == buf_contents(*old(buf)).skip(n as int)
                    && n <= buf_contents(*old(buf)).len(),
                Decoded::Fail(e, n) => res matches Err(err) && err@ == e
                    && buf_contents(*final(buf)) == buf_contents(*old(buf)).skip(n as int),
                Decoded::Panic => false,
            },
    {
        let ghost s = buf_contents(*buf);
        proof {
            lemma_unsuback_variable_header_consumed(s);
        }
        let variable_header = match UnSubAckVariableHeader::from_buf(buf) {
            Ok(v) => v,
            Err(e) => {
                proof {
                    assert(false);
                }
                return Err(e);
            },
        };
        let ghost n = (s.len() - buf_contents(*buf).len()) as nat;
        let ghost s1 = buf_contents(*buf);
        let property_length = variable_header.property_length();
        let mut payload_len: usize = fixed_header.remaining_length - 2 - variable_bytes_len(property_length)
            - property_length;
        let ghost total = payload_len as nat;
        let mut payload: Vec<UnSubscribeReasonCode> = Vec::new();
        let ghost mut pos: nat = 0;
        proof {
            assert(s1 =~= s1.skip(0));
            assert(payload@ =~= Seq::<UnSubscribeReasonCode>::empty());
        }
        let ghost vm = variable_header@;
        proof {
            assert(spec_unsuback_extra(s, fixed_header) == match spec_unsuback_codes(s1, total, Seq::empty()) {
                Decoded::Done(codes, m) => Decoded::Done((fixed_header, vm, codes), n + m),
                Decoded::Fail(e, m) => Decoded::Fail(e, n + m),
                Decoded::Panic => Decoded::<(FixedHeader, (u16, Mqtt5PropertyModel), Seq<UnSubscribeReasonCode>)>::Panic,
            });
        }
        while payload_len > 0
            invariant
                s == buf_contents(*old(buf)),
                s1 == s.skip(n as int),
                n + s1.len() == s.len(),
                spec_unsuback_extra(s, fixed_header) == match spec_unsuback_codes(s1, total, Seq::empty()) {
                    Decoded::Done(codes, m) => Decoded::Done((fixed_header, vm, codes), n + m),
                    Decoded::Fail(e, m) => Decoded::Fail(e, n + m),
                    Decoded::Panic => Decoded::<(FixedHeader, (u16, Mqtt5PropertyModel), Seq<UnSubscribeReasonCode>)>::Panic,
                },
                spec_unsuback_codes(s1, total, Seq::empty()) == spec_unsuback_codes(
                    buf_contents(*buf),
                    payload_len as nat,
                    payload@,
                ).shifted(pos),
                buf_contents(*buf) == s1.skip(pos as int),
                pos <= s1.len(),
                !spec_unsuback_codes(s1, total, Seq::empty()).panics(),
            decreases payload_len,
        {
            let ghost cur = buf_contents(*buf);
            proof {
                lemma_shift_shift(
                    spec_unsuback_codes(cur.skip(1), (payload_len - 1) as nat, payload@.push(UnSubscribeReasonCode::from_wire(cur[0])->0)),
                    1,
                    pos,
                );
            }
            let code = match UnSubscribeReasonCode::from_u8(buf_get_u8(buf)) {
                Ok(c) => c,
                Err(e) => {
                    proof {
                        assert(spec_unsuback_codes(s1, total, Seq::empty()) == Decoded::<Seq<UnSubscribeReasonCode>>::Fail(e@, pos + 1));
                        assert(buf_contents(*buf) =~= s1.skip((pos + 1) as int));
                        assert(buf_contents(*buf) =~= s.skip((n + pos + 1) as int));
                    }
                    return Err(e);
                },
            };
            payload.push(code);
            payload_len = payload_len - 1;
            proof {
                assert(buf_contents(*buf) =~= s1.skip((pos + 1) as int));
                pos = pos + 1;
            }
        }
        proof {
            assert(buf_contents(*buf) =~= s.skip((n + pos) as int));
        }
        Ok(UnSubAck { fixed_header, variable_header, payload })
    }
}

impl FromToBuf<UnSubAck> for UnSubAck {
    open spec fn writable(&self) -> bool {
        property_writable(self@.1.1) && fixed_header_bytes(self@.0).len() + 2 + self@.1.1.property_length
            + self@.2.len() <= usize::MAX
    }

    open spec fn readable(s: Seq<u8>) -> bool {
        !spec_unsuback(s).panics()
    }

    /// Writes the fixed header, the variable header and the reason codes;
    /// returns the lengths they report, added.
    fn to_buf(&self, buf: &mut Vec<u8>) -> (res: Result<usize, Error>)
        ensures
            res == Ok::<usize, Error>(
                (fixed_header_bytes(self@.0).len() + 2 + self@.1.1.property_length + self@.2.len()) as usize,
            ),
            exists|w: Seq<u8>|
                unsuback_variable_header_encoding(self@.1, w) && final(buf)@ == old(buf)@ + fixed_header_bytes(self@.0) + w
                    + unsuback_codes_bytes(self@.2),
    {
        let ghost start = buf@;
        let mut len = match self.fixed_header.to_buf(buf) {
            Ok(n) => n,
            Err(_) => 0,
        };
        let ghost mid = buf@;
        let b = match self.variable_header.to_buf(buf) {
            Ok(n) => n,
            Err(_) => 0,
        };
        len = len + b;
        let ghost w = choose|w: Seq<u8>| unsuback_variable_header_encoding(self.variable_header@, w) && buf@ == mid + w;
        let ghost head = buf@;
        let mut i: usize = 0;
        while i < self.payload.len()
            invariant
                i <= self.payload@.len(),
                buf@ == head + unsuback_codes_bytes(self.payload@.take(i as int)),
                len == fixed_header_bytes(self.fixed_header).len() + 2 + self.variable_header@.1.property_length + i,
                fixed_header_bytes(self.fixed_header).len() + 2 + self.variable_header@.1.property_length
                    + self.payload@.len() <= usize::MAX,
            decreases self.payload@.len() - i,
        {
            buf.push(self.payload[i].to_u8());
            len = len + 1;
            assert(unsuback_codes_bytes(self.payload@.take(i + 1)) =~= unsuback_codes_bytes(self.payload@.take(i as int)).push(
                self.payload@[i as int].wire_code(),
            ));
            i = i + 1;
        }
        proof {
            assert(self.payload@.take(i as int) =~= self.payload@);
            assert(buf@ =~= start + fixed_header_bytes(self.fixed_header) + w + unsuback_codes_bytes(self.payload@));
        }
        Ok(len)
    }

    /// Reads a UNSUBACK packet: a fixed header of the right type and flags,
    /// the variable header, then as many reason codes as the remaining
    /// length leaves room for.
    fn from_buf(buf: &mut BytesMut) -> (res: Result<UnSubAck, Error>)
        ensures
            match spec_unsuback(buf_contents(*old(buf))) {
                Decoded::Done(v, n) => res matches Ok(r) && r@ == v
                    && buf_contents(*final(buf)) == buf_contents(*old(buf)).skip(n as int),
                Decoded::Fail(e, n) => res matches Err(err) && err@ == e
                    && buf_contents(*final(buf)) == buf_contents(*old(buf)).skip(n as int),
                Decoded::Panic => false,
            },
    {
        let ghost s = buf_contents(*buf);
        let fixed_header = UnSubAck::decode_fixed_header(buf);
        if fixed_header.packet_type != PacketType::UNSUBACK || fixed_header.dup || fixed_header.qos != Qos::AtMostOnce
            || fixed_header.retain {
            proof {
                assert(false);
            }
        }
        let ghost rest = buf_contents(*buf);
        let res = UnSubAck::from_buf_extra(buf, fixed_header);
        proof {
            let n = (s.len() - rest.len()) as nat;
            assert(rest == s.skip(n as int));
            let d = spec_unsuback_extra(rest, fixed_header);
            if !d.panics() {
                lemma_unsuback_extra_consumed(rest, fixed_header);
                assert(buf_contents(*buf) =~= s.skip((n + d.taken()) as int));
            }
        }
        res
    }
}

proof fn lemma_unsuback_extra_consumed(s: Seq<u8>, h: FixedHeader)
    ensures
        spec_unsuback_extra(s, h).taken() <= s.len(),
{
    lemma_unsuback_variable_header_consumed(s);
    if let Decoded::Done(v, n) = spec_unsuback_variable_header(s) {
        if unsuback_payload_count(h, v) >= 0 {
            lemma_unsuback_codes_consumed(s.skip(n as int), unsuback_payload_count(h, v) as nat, Seq::empty());
        }
    }
}

impl Default for UnSubAck {
    fn default() -> (p: Self)
        ensures
            p@ == (
                FixedHeader {
                    packet_type: PacketType::UNSUBACK,
                    dup: false,
                    qos: Qos::AtMostOnce,
                    retain: false,
                    remaining_length: 3,
                },
                (1u16, empty_property_model()),
                Seq::<UnSubscribeReasonCode>::empty(),
            ),
    {
        let variable_header = UnSubAckVariableHeader::default();
        let payload: Vec<UnSubscribeReasonCode> = Vec::new();
        proof {
            reveal_with_fuel(varint_encode, 2);
        }
        let fixed_header = FixedHeader {
            packet_type: PacketType::UNSUBACK,
            dup: false,
            qos: Qos::AtMostOnce,
            retain: false,
            remaining_length: variable_header.length() + payload.len(),
        };
        UnSubAck { fixed_header, variable_header, payload }
    }
}

impl UnSubAck {
    /// The number of bytes the packet takes.
    pub fn length(&self) -> (n: usize)
        requires
            fixed_header_bytes(self@.0).len() + self@.0.remaining_length <= usize::MAX,
        ensures
            n == fixed_header_bytes(self@.0).len() + self@.0.remaining_length,
    {
        self.fixed_header.length() + self.fixed_header.remaining_length
    }
}

/// The variable header of a UNSUBACK packet.
#[derive(Debug, Clone, PartialEq)]
pub struct UnSubAckVariableHeader {
    packet_id: PacketId,
    unsuback_property: Mqtt5Property,
}

impl View for UnSubAckVariableHeader {
    type V = (u16, Mqtt5PropertyModel);

    closed spec fn view(&self) -> (u16, Mqtt5PropertyModel) {
        (self.packet_id@, self.unsuback_property@)
    }
}

/// The property identifiers a UNSUBACK packet may carry.
pub open spec fn unsuback_property_ids() -> Seq<u32> {
    seq![0x1Fu32, 0x26u32]
}

/// Decoding the variable header of a UNSUBACK packet from the front of `s`.
pub open spec fn spec_unsuback_variable_header(s: Seq<u8>) -> Decoded<(u16, Mqtt5PropertyModel)> {
    if s.len() < 2 || be_u16_at(s, 0) == 0 {
        Decoded::Panic
    } else {
        match spec_property_from_buf(s.skip(2)) {
            Decoded::Done(p, n) => if keys_within(p.properties, unsuback_property_ids()) {
                Decoded::Done((be_u16_at(s, 0), p), 2 + n)
            } else {
                Decoded::Fail(ErrorModel::InvalidPropertyType("UnSubAck Properties contains a invalid property"@), 2 + n)
            },
            _ => Decoded::Panic,
        }
    }
}

/// Decoding the variable header takes no more bytes than there are.
pub proof fn lemma_unsuback_variable_header_consumed(s: Seq<u8>)
    ensures
        match spec_unsuback_variable_header(s) {
            Decoded::Done(_, n) => n <= s.len(),
            Decoded::Fail(_, n) => n <= s.len(),
            Decoded::Panic => true,
        },
{
    if s.len() >= 2 {
        lemma_property_from_buf_consumed(s.skip(2));
    }
}

/// `w` is how the variable header `v` is written.
pub open spec fn unsuback_variable_header_encoding(v: (u16, Mqtt5PropertyModel), w: Seq<u8>) -> bool {
    exists|pw: Seq<u8>| property_encoding(v.1, pw) && w == be16(v.0) + pw
}

impl UnSubAckVariableHeader {
    fn check_unsuback_property(unsuback_property: &mut Mqtt5Property) -> (res: Result<(), Error>)
        ensures
            *final(unsuback_property) == *old(unsuback_property),
            res is Ok <==> keys_within(old(unsuback_property)@.properties, unsuback_property_ids()),
            res matches Err(e) ==> e@ == ErrorModel::InvalidPropertyType("UnSubAck Properties contains a invalid property"@),
    {
        let allowed: [u32; 2] = [0x1F, 0x26];
        assert(allowed@ == unsuback_property_ids());
        if keys_allowed(&unsuback_property.properties, &allowed) {
            Ok(())
        } else {
            Err(Error::InvalidPropertyType("UnSubAck Properties contains a invalid property".to_string()))
        }
    }

    /// The declared length of the properties.
    pub(crate) fn property_length(&self) -> (n: usize)
        ensures
            n == self@.1.property_length,
    {
        self.unsuback_property.property_length
    }

    /// The number of bytes the variable header takes.
    pub fn length(&self) -> (n: usize)
        requires
            varint_encode(self@.1.property_length as nat).len() + self@.1.property_length + 2 <= usize::MAX,
        ensures
            n == 2 + varint_encode(self@.1.property_length as nat).len() + self@.1.property_length,
    {
        self.packet_id.length() + self.unsuback_property.length()
    }
}

impl Default for UnSubAckVariableHeader {
    fn default() -> (v: Self)
        ensures
            v@ == (1u16, empty_property_model()),
    {
        UnSubAckVariableHeader { packet_id: PacketId::default(), unsuback_property: Mqtt5Property::default() }
    }
}

impl FromToBuf<UnSubAckVariableHeader> for UnSubAckVariableHeader {
    open spec fn writable(&self) -> bool {
        property_writable(self@.1) && self@.1.property_length + 2 <= usize::MAX
    }

    open spec fn readable(s: Seq<u8>) -> bool {
        !spec_unsuback_variable_header(s).panics()
    }

    /// Writes the packet identifier and the properties; returns 2 plus the
    /// declared property length.
    fn to_buf(&self, buf: &mut Vec<u8>) -> (res: Result<usize, Error>)
        ensures
            res == Ok::<usize, Error>((2 + self@.1.property_length) as usize),
            exists|w: Seq<u8>| unsuback_variable_header_encoding(self@, w) && final(buf)@ == old(buf)@ + w,
    {
        let ghost start = buf@;
        let mut len = self.packet_id.to_buf(buf);
        let ghost mid = buf@;
        let n = match self.unsuback_property.to_buf(buf) {
            Ok(n) => n,
            Err(_) => 0,
        };
        len = len + n;
        proof {
            let pw = choose|pw: Seq<u8>| property_encoding(self.unsuback_property@, pw) && buf@ == mid + pw;
            let w = be16(self.packet_id@) + pw;
            assert(buf@ =~= start + w);
            assert(unsuback_variable_header_encoding(self@, w));
        }
        Ok(len)
    }

    fn from_buf(buf: &mut BytesMut) -> (res: Result<UnSubAckVariableHeader, Error>)
        ensures
            match spec_unsuback_variable_header(buf_contents(*old(buf))) {
                Decoded::Done(v, n) => res matches Ok(r) && r@ == v
                    && buf_contents(*final(buf)) == buf_contents(*old(buf)).skip(n as int),
                Decoded::Fail(e, n) => res matches Err(err) && err@ == e
                    && buf_contents(*final(buf)) == buf_contents(*old(buf)).skip(n as int),
                Decoded::Panic => false,
            },
    {
        let ghost s = buf_contents(*buf);
        proof {
            lemma_unsuback_variable_header_consumed(s);
            lemma_property_from_buf_consumed(s.skip(2));
        }
        let packet_id = PacketId::new(buf_get_u16(buf));
        assert(buf_contents(*buf) =~= s.skip(2));
        let mut unsuback_property = match Mqtt5Property::from_buf(buf) {
            Ok(p) => p,
            Err(e) => {
                proof {
                    assert(false);
                }
                return Err(e);
            },
        };
        proof {
            assert(buf_contents(*buf) =~= s.skip(2).skip(consumed(spec_property_from_buf(s.skip(2))) as int));
            assert(buf_contents(*buf) =~= s.skip(2 + consumed(spec_property_from_buf(s.skip(2))) as int));
        }
        match UnSubAckVariableHeader::check_unsuback_property(&mut unsuback_property) {
            Ok(()) => {},
            Err(e) => return Err(e),
        }
        Ok(UnSubAckVariableHeader { packet_id, unsuback_property })
    }
}

} // verus!
