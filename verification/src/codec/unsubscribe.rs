//! The UNSUBSCRIBE packet: a packet identifier, properties, then topic
//! filters.
use vstd::prelude::*;
use bytes::BytesMut;
use crate::codec::buffer::{be_u16_at, buf_contents, buf_get_u16, buf_get_u8};
use crate::codec::check::{keys_allowed, keys_within};
use crate::codec::error::{Decoded, Error, ErrorModel};
use crate::codec::fixed_header::{default_fixed_header, fixed_header_bytes, spec_fixed_header, FixedHeader};
use crate::codec::packet::{PacketCodec, PacketId, PacketType};
use crate::codec::property::{
    consumed, empty_property_model, lemma_property_from_buf_consumed, spec_property_from_buf, Mqtt5Property,
    Mqtt5PropertyModel,
};
use crate::codec::property_encode::{property_encoding, property_writable};
use crate::codec::publish::Qos;
use crate::codec::{
    be16, length_prefixed, read_string, spec_read_string_expect, variable_bytes_len, varint_encode, write_string,
    FromToBuf, FromToU8,
};
use crate::codec::error::lemma_shift_shift;
use crate::codec::property::lemma_string_consumed;
use crate::codec::property_encode::{concat_parts, lemma_concat_prefix_len, lemma_concat_step};
use vstd::utf8::encode_utf8;

verus! {

/// A UNSUBSCRIBE packet.
#[derive(Debug, Clone, PartialEq)]
pub struct UnSubscribe {
    fixed_header: FixedHeader,
    variable_header: UnSubscribeVariableHeader,
    payload: Vec<String>,
}

impl View for UnSubscribe {
    type V = (FixedHeader, (u16, Mqtt5PropertyModel), Seq<Seq<char>>);

    closed spec fn view(&self) -> (FixedHeader, (u16, Mqtt5PropertyModel), Seq<Seq<char>>) {
        (self.fixed_header, self.variable_header@, self.payload@.map_values(|p: String| p@))
    }
}

/// Decoding topic filters from the front of `s` while the count of payload
/// bytes left, `remaining`, is above zero, after `acc`.
pub open spec fn spec_unsubscribe_topics(s: Seq<u8>, remaining: nat, acc: Seq<Seq<char>>) -> Decoded<Seq<Seq<char>>>
    decreases remaining,
{
    if remaining == 0 {
        Decoded::Done(acc, 0)
    } else {
        match spec_read_string_expect(s) {
            Decoded::Done(t, n) => if remaining < encode_utf8(t).len() + 2 {
                Decoded::Panic
            } else {
                spec_unsubscribe_topics(s.skip(n as int), (remaining - (encode_utf8(t).len() + 2)) as nat, acc.push(t)).shifted(n)
            },
            _ => Decoded::Panic,
        }
    }
}

/// The number of payload bytes the headers announce: the remaining length
/// less the packet identifier and the property list.
pub open spec fn unsubscribe_payload_count(h: FixedHeader, v: (u16, Mqtt5PropertyModel)) -> int {
    h.remaining_length - 2 - v.1.property_length - varint_encode(v.1.property_length as nat).len()
}

/// Decoding the rest of a UNSUBSCRIBE packet after its fixed header `h`.
pub open spec fn spec_unsubscribe_extra(s: Seq<u8>, h: FixedHeader) -> Decoded<(FixedHeader, (u16, Mqtt5PropertyModel), Seq<Seq<char>>)> {
    match spec_unsubscribe_variable_header(s) {
        Decoded::Done(v, n) => if unsubscribe_payload_count(h, v) < 0 {
            Decoded::Panic
        } else {
            match spec_unsubscribe_topics(s.skip(n as int), unsubscribe_payload_count(h, v) as nat, Seq::empty()) {
                Decoded::Done(items, m) => Decoded::Done((h, v, items), n + m),
                _ => Decoded::Panic,
            }
        },
        _ => Decoded::Panic,
    }
}

/// Decoding a UNSUBSCRIBE packet from the front of `s`.
pub open spec fn spec_unsubscribe(s: Seq<u8>) -> Decoded<(FixedHeader, (u16, Mqtt5PropertyModel), Seq<Seq<char>>)> {
    match spec_fixed_header(s) {
        Decoded::Done(h, n) => if h.packet_type != PacketType::UNSUBSCRIBE || h.dup || h.qos != Qos::AtLeastOnce || h.retain {
            Decoded::Panic
        } else {
            spec_unsubscribe_extra(s.skip(n as int), h).shifted(n)
        },
        _ => Decoded::Panic,
    }
}

/// The bytes of one topic filter.
pub open spec fn unsubscribe_item_bytes(item: Seq<char>) -> Seq<u8> {
    length_prefixed(encode_utf8(item))
}

/// Whether the encoder can write `item`.
pub open spec fn unsubscribe_item_writable(item: Seq<char>) -> bool {
    encode_utf8(item).len() <= 65535
}

/// The bytes of the payload.
pub open spec fn unsubscribe_payload_bytes(items: Seq<Seq<char>>) -> Seq<u8> {
    concat_parts(items.map_values(|item: Seq<char>| unsubscribe_item_bytes(item)))
}

proof fn lemma_unsubscribe_topics_consumed(s: Seq<u8>, remaining: nat, acc: Seq<Seq<char>>)
    ensures
        spec_unsubscribe_topics(s, remaining, acc).taken() <= s.len(),
    decreases remaining,
{
    if remaining > 0 {
        lemma_string_consumed(s);
            if let Decoded::Done(t, n) = spec_read_string_expect(s) {
                if remaining >= encode_utf8(t).len() + 2 {
                    lemma_unsubscribe_topics_consumed(s.skip(n as int), (remaining - (encode_utf8(t).len() + 2)) as nat, acc.push(t));
                }
            }
    }
}

proof fn lemma_unsubscribe_extra_consumed(s: Seq<u8>, h: FixedHeader)
    ensures
        spec_unsubscribe_extra(s, h).taken() <= s.len(),
{
    lemma_unsubscribe_variable_header_consumed(s);
    if let Decoded::Done(v, n) = spec_unsubscribe_variable_header(s) {
        if unsubscribe_payload_count(h, v) >= 0 {
            lemma_unsubscribe_topics_consumed(s.skip(n as int), unsubscribe_payload_count(h, v) as nat, Seq::empty());
        }
    }
}

impl PacketCodec<UnSubscribe> for UnSubscribe {
    open spec fn extra_readable(s: Seq<u8>, fixed_header: FixedHeader) -> bool {
        !spec_unsubscribe_extra(s, fixed_header).panics()
    }

    fn from_buf_extra(buf: &mut BytesMut, fixed_header: FixedHeader) -> (res: Result<UnSubscribe, Error>)
        ensures
            match spec_unsubscribe_extra(buf_contents(*old(buf)), fixed_header) {
                Decoded::Done(v, n) => res matches Ok(r) && r@ == v
                    && buf_contents(*final(buf)) == buf_contents(*old(buf)).skip(n as int)
                    && n <= buf_contents(*old(buf)).len(),
                _ => false,
            },
    {
        let ghost s = buf_contents(*buf);
        proof {
            lemma_unsubscribe_variable_header_consumed(s);
        }
        let variable_header = match UnSubscribeVariableHeader::from_buf(buf) {
            Ok(v) => v,
            Err(e) => {
                proof {
                    assert(false);
                }
                return Err(e);
            },
        };
        let ghost n = (s.len() - buf_contents(*buf).len()) as nat;
        let ghost s1 = buf_contents(*buf);
        let property_length = variable_header.property_length();
        let mut remaining: usize = fixed_header.remaining_length - 2 - property_length - variable_bytes_len(
            property_length,
        );
        let ghost total = remaining as nat;
        let mut payload: Vec<String> = Vec::new();
        let ghost mut pos: nat = 0;
        let ghost vm = variable_header@;
        proof {
            assert(s1 =~= s1.skip(0));
            assert(payload@.map_values(|p: String| p@) =~= Seq::<Seq<char>>::empty());
        }
        while remaining > 0
            invariant
                s == buf_contents(*old(buf)),
                s1 == s.skip(n as int),
                n + s1.len() == s.len(),
                spec_unsubscribe_extra(s, fixed_header) == match spec_unsubscribe_topics(s1, total, Seq::empty()) {
                    Decoded::Done(items, m) => Decoded::Done((fixed_header, vm, items), n + m),
                    _ => Decoded::<(FixedHeader, (u16, Mqtt5PropertyModel), Seq<Seq<char>>)>::Panic,
                },
                spec_unsubscribe_topics(s1, total, Seq::empty()) == spec_unsubscribe_topics(
                    buf_contents(*buf),
                    remaining as nat,
                    payload@.map_values(|p: String| p@),
                ).shifted(pos),
                buf_contents(*buf) == s1.skip(pos as int),
                pos <= s1.len(),
                !spec_unsubscribe_topics(s1, total, Seq::empty()).panics(),
            decreases remaining,
        {
            let ghost cur = buf_contents(*buf);
            let ghost before = payload@.map_values(|p: String| p@);
            proof {
                lemma_string_consumed(cur);
            }
            let topic_filter = match read_string(buf) {
                Ok(t) => t,
                Err(e) => {
                    proof {
                        assert(false);
                    }
                    return Err(e);
                },
            };
            let ghost item = topic_filter@;
            let used = topic_filter.as_str().as_bytes().len() + 2;
            payload.push(topic_filter);
            assert(payload@.map_values(|p: String| p@) =~= before.push(item));
            let ghost step: nat = (cur.len() - buf_contents(*buf).len()) as nat;
            proof {
                lemma_shift_shift(spec_unsubscribe_topics(buf_contents(*buf), (remaining - used) as nat, before.push(item)), step, pos);
                assert(buf_contents(*buf) =~= s1.skip((pos + step) as int));
            }
            remaining = remaining - used;
            proof {
                pos = pos + step;
            }
        }
        proof {
            assert(buf_contents(*buf) =~= s.skip((n + pos) as int));
        }
        Ok(UnSubscribe { fixed_header, variable_header, payload })
    }
}

impl FromToBuf<UnSubscribe> for UnSubscribe {
    open spec fn writable(&self) -> bool {
        &&& property_writable(self@.1.1)
        &&& forall|i: int| 0 <= i < self@.2.len() ==> unsubscribe_item_writable(#[trigger] self@.2[i])
        &&& fixed_header_bytes(self@.0).len() + 2 + self@.1.1.property_length + unsubscribe_payload_bytes(self@.2).len()
            <= usize::MAX
    }

    open spec fn readable(s: Seq<u8>) -> bool {
        !spec_unsubscribe(s).panics()
    }

    /// Writes the fixed header, the variable header and the payload;
    /// returns the lengths they report, added.
    fn to_buf(&self, buf: &mut Vec<u8>) -> (res: Result<usize, Error>)
        ensures
            res == Ok::<usize, Error>(
                (fixed_header_bytes(self@.0).len() + 2 + self@.1.1.property_length + unsubscribe_payload_bytes(self@.2).len()) as usize,
            ),
            exists|w: Seq<u8>|
                unsubscribe_variable_header_encoding(self@.1, w) && final(buf)@ == old(buf)@ + fixed_header_bytes(self@.0) + w
                    + unsubscribe_payload_bytes(self@.2),
    {
        let ghost start = buf@;
        let mut len = match self.fixed_header.to_buf(buf) {
            Ok(n) => n,
            Err(_) => 0,
        };
        let ghost mid = buf@;
        let b = match self.variable_header.to_buf(buf) {
            Ok(n) => n,
            Err(_) => 0,
        };
        len = len + b;
        let ghost w = choose|w: Seq<u8>| unsubscribe_variable_header_encoding(self.variable_header@, w) && buf@ == mid + w;
        let ghost head = buf@;
        let ghost items = self@.2;
        let ghost parts = items.map_values(|item: Seq<char>| unsubscribe_item_bytes(item));
        let ghost base = fixed_header_bytes(self.fixed_header).len() + 2 + self.variable_header@.1.property_length;
        let mut i: usize = 0;
        proof {
            assert(parts.take(0) =~= Seq::<Seq<u8>>::empty());
            assert(buf@ =~= head + concat_parts(parts.take(0)));
        }
        while i < self.payload.len()
            invariant
                i <= self.payload@.len(),
                items == self@.2,
                items.len() == self.payload@.len(),
                parts == items.map_values(|item: Seq<char>| unsubscribe_item_bytes(item)),
                self.writable(),
                base == fixed_header_bytes(self.fixed_header).len() + 2 + self.variable_header@.1.property_length,
                base + concat_parts(parts).len() <= usize::MAX,
                buf@ == head + concat_parts(parts.take(i as int)),
                len == base + concat_parts(parts.take(i as int)).len(),
            decreases self.payload@.len() - i,
        {
            proof {
                lemma_concat_step(parts, i as int);
                lemma_concat_prefix_len(parts, i + 1);
                assert(items[i as int] == self.payload@[i as int]@);
                assert(unsubscribe_item_writable(items[i as int]));
            }
            let a = write_string(self.payload[i].clone(), buf);
            len = len + a;
            assert(buf@ =~= head + concat_parts(parts.take(i + 1)));
            i = i + 1;
        }
        proof {
            assert(parts.take(i as int) =~= parts);
            assert(buf@ =~= start + fixed_header_bytes(self.fixed_header) + w + unsubscribe_payload_bytes(self@.2));
        }
        Ok(len)
    }

    /// Reads a UNSUBSCRIBE packet: a fixed header of the right type and flags,
    /// the variable header, then topic filters until the remaining length is
    /// used up.
    fn from_buf(buf: &mut BytesMut) -> (res: Result<UnSubscribe, Error>)
        ensures
            match spec_unsubscribe(buf_contents(*old(buf))) {
                Decoded::Done(v, n) => res matches Ok(r) && r@ == v
                    && buf_contents(*final(buf)) == buf_contents(*old(buf)).skip(n as int),
                _ => false,
            },
    {
        let ghost s = buf_contents(*buf);
        let fixed_header = UnSubscribe::decode_fixed_header(buf);
        if fixed_header.packet_type != PacketType::UNSUBSCRIBE || fixed_header.dup || fixed_header.qos != Qos::AtLeastOnce
            || fixed_header.retain {
            proof {
                assert(false);
            }
        }
        let ghost rest = buf_contents(*buf);
        let res = UnSubscribe::from_buf_extra(buf, fixed_header);
        proof {
            let n = (s.len() - rest.len()) as nat;
            assert(rest == s.skip(n as int));
            let d = spec_unsubscribe_extra(rest, fixed_header);
            if !d.panics() {
                lemma_unsubscribe_extra_consumed(rest, fixed_header);
                assert(buf_contents(*buf) =~= s.skip((n + d.taken()) as int));
            }
        }
        res
    }
}

impl Default for UnSubscribe {
    fn default() -> (p: Self)
        ensures
            p@ == (
                FixedHeader {
                    packet_type: PacketType::UNSUBACK,
                    dup: false,
                    qos: Qos::AtMostOnce,
                    retain: false,
                    remaining_length: 3,
                },
                (1u16, empty_property_model()),
                Seq::<Seq<char>>::empty(),
            ),
    {
        let variable_header = UnSubscribeVariableHeader::default();
        let payload: Vec<String> = Vec::new();
        let mut payload_bytes_len: usize = 0;
        proof {
            reveal_with_fuel(varint_encode, 2);
        }
        let fixed_header = FixedHeader {
            packet_type: PacketType::UNSUBACK,
            dup: false,
            qos: Qos::AtMostOnce,
            retain: false,
            remaining_length: variable_header.length() + payload_bytes_len,
        };
        let p = UnSubscribe { fixed_header, variable_header, payload };
        assert(p.payload@.map_values(|q: String| q@) =~= Seq::empty());
        p
    }
}

impl UnSubscribe {
    /// The number of bytes the packet takes.
    pub fn length(&self) -> (n: usize)
        requires
            fixed_header_bytes(self@.0).len() + self@.0.remaining_length <= usize::MAX,
        ensures
            n == fixed_header_bytes(self@.0).len() + self@.0.remaining_length,
    {
        self.fixed_header.length() + self.fixed_header.remaining_length
    }
}

/// The variable header of a UNSUBSCRIBE packet.
#[derive(Debug, Clone, PartialEq)]
pub struct UnSubscribeVariableHeader {
    packet_id: PacketId,
    unsubscribe_property: Mqtt5Property,
}

impl View for UnSubscribeVariableHeader {
    type V = (u16, Mqtt5PropertyModel);

    closed spec fn view(&self) -> (u16, Mqtt5PropertyModel) {
        (self.packet_id@, self.unsubscribe_property@)
    }
}

/// The property identifiers a UNSUBSCRIBE packet may carry.
pub open spec fn unsubscribe_property_ids() -> Seq<u32> {
    seq![0x26u32]
}

/// Decoding the variable header of a UNSUBSCRIBE packet from the front of `s`.
pub open spec fn spec_unsubscribe_variable_header(s: Seq<u8>) -> Decoded<(u16, Mqtt5PropertyModel)> {
    if s.len() < 2 || be_u16_at(s, 0) == 0 {
        Decoded::Panic
    } else {
        match spec_property_from_buf(s.skip(2)) {
            Decoded::Done(p, n) => if keys_within(p.properties, unsubscribe_property_ids()) {
                Decoded::Done((be_u16_at(s, 0), p), 2 + n)
            } else {
                Decoded::Fail(ErrorModel::InvalidPropertyType("UnSubscribe Properties contains a invalid property"@), 2 + n)
            },
            _ => Decoded::Panic,
        }
    }
}

/// Decoding the variable header takes no more bytes than there are.
pub proof fn lemma_unsubscribe_variable_header_consumed(s: Seq<u8>)
    ensures
        match spec_unsubscribe_variable_header(s) {
            Decoded::Done(_, n) => n <= s.len(),
            Decoded::Fail(_, n) => n <= s.len(),
            Decoded::Panic => true,
        },
{
    if s.len() >= 2 {
        lemma_property_from_buf_consumed(s.skip(2));
    }
}

/// `w` is how the variable header `v` is written.
pub open spec fn unsubscribe_variable_header_encoding(v: (u16, Mqtt5PropertyModel), w: Seq<u8>) -> bool {
    exists|pw: Seq<u8>| property_encoding(v.1, pw) && w == be16(v.0) + pw
}

impl UnSubscribeVariableHeader {
    fn check_unsubscribe_property(unsubscribe_property: &mut Mqtt5Property) -> (res: Result<(), Error>)
        ensures
            *final(unsubscribe_property) == *old(unsubscribe_property),
            res is Ok <==> keys_within(old(unsubscribe_property)@.properties, unsubscribe_property_ids()),
            res matches Err(e) ==> e@ == ErrorModel::InvalidPropertyType("UnSubscribe Properties contains a invalid property"@),
    {
        let allowed: [u32; 1] = [0x26];
        assert(allowed@ == unsubscribe_property_ids());
        if keys_allowed(&unsubscribe_property.properties, &allowed) {
            Ok(())
        } else {
            Err(Error::InvalidPropertyType("UnSubscribe Properties contains a invalid property".to_string()))
        }
    }

    /// The declared length of the properties.
    pub(crate) fn property_length(&self) -> (n: usize)
        ensures
            n == self@.1.property_length,
    {
        self.unsubscribe_property.property_length
    }

    /// The number of bytes the variable header takes.
    pub fn length(&self) -> (n: usize)
        requires
            varint_encode(self@.1.property_length as nat).len() + self@.1.property_length + 2 <= usize::MAX,
        ensures
            n == 2 + varint_encode(self@.1.property_length as nat).len() + self@.1.property_length,
    {
        self.packet_id.length() + self.unsubscribe_property.length()
    }
}

impl Default for UnSubscribeVariableHeader {
    fn default() -> (v: Self)
        ensures
            v@ == (1u16, empty_property_model()),
    {
        UnSubscribeVariableHeader { packet_id: PacketId::default(), unsubscribe_property: Mqtt5Property::default() }
    }
}

impl FromToBuf<UnSubscribeVariableHeader> for UnSubscribeVariableHeader {
    open spec fn writable(&self) -> bool {
        property_writable(self@.1) && self@.1.property_length + 2 <= usize::MAX
    }

    open spec fn readable(s: Seq<u8>) -> bool {
        !spec_unsubscribe_variable_header(s).panics()
    }

    /// Writes the packet identifier and the properties; returns 2 plus the
    /// declared property length.
    fn to_buf(&self, buf: &mut Vec<u8>) -> (res: Result<usize, Error>)
        ensures
            res == Ok::<usize, Error>((2 + self@.1.property_length) as usize),
            exists|w: Seq<u8>| unsubscribe_variable_header_encoding(self@, w) && final(buf)@ == old(buf)@ + w,
    {
        let ghost start = buf@;
        let mut len = self.packet_id.to_buf(buf);
        let ghost mid = buf@;
        let n = match self.unsubscribe_property.to_buf(buf) {
            Ok(n) => n,
            Err(_) => 0,
        };
        len = len + n;
        proof {
            let pw = choose|pw: Seq<u8>| property_encoding(self.unsubscribe_property@, pw) && buf@ == mid + pw;
            let w = be16(self.packet_id@) + pw;
            assert(buf@ =~= start + w);
            assert(unsubscribe_variable_header_encoding(self@, w));
        }
        Ok(len)
    }

    fn from_buf(buf: &mut BytesMut) -> (res: Result<UnSubscribeVariableHeader, Error>)
        ensures
            match spec_unsubscribe_variable_header(buf_contents(*old(buf))) {
                Decoded::Done(v, n) => res matches Ok(r) && r@ == v
                    && buf_contents(*final(buf)) == buf_contents(*old(buf)).skip(n as int),
                Decoded::Fail(e, n) => res matches Err(err) && err@ == e
                    && buf_contents(*final(buf)) == buf_contents(*old(buf)).skip(n as int),
                Decoded::Panic => false,
            },
    {
        let ghost s = buf_contents(*buf);
        proof {
            lemma_unsubscribe_variable_header_consumed(s);
            lemma_property_from_buf_consumed(s.skip(2));
        }
        let packet_id = PacketId::new(buf_get_u16(buf));
        assert(buf_contents(*buf) =~= s.skip(2));
        let mut unsubscribe_property = match Mqtt5Property::from_buf(buf) {
            Ok(p) => p,
            Err(e) => {
                proof {
                    assert(false);
                }
                return Err(e);
            },
        };
        proof {
            assert(buf_contents(*buf) =~= s.skip(2).skip(consumed(spec_property_from_buf(s.skip(2))) as int));
            assert(buf_contents(*buf) =~= s.skip(2 + consumed(spec_property_from_buf(s.skip(2))) as int));
        }
        match UnSubscribeVariableHeader::check_unsubscribe_property(&mut unsubscribe_property) {
            Ok(()) => {},
            Err(e) => return Err(e),
        }
        Ok(UnSubscribeVariableHeader { packet_id, unsubscribe_property })
    }
}

/// The reason codes an UNSUBACK packet answers each topic filter with.
#[derive(Debug, Clone, Copy, PartialEq, Eq, Structural)]
pub enum UnSubscribeReasonCode {
    /// 0[0x00]
    Success,
    /// 17[0x11]
    NoSubscriptionFound,
    /// 128[0x80]
    UnspecifiedError,
    /// 131[0x83]
    ImplementationSpecificError,
    /// 135[0x87]
    NotAuthorized,
    /// 143[0x8F]
    TopicFilterInValid,
    /// 145[0x91]
    PacketIdentifierInUse,
}

impl UnSubscribeReasonCode {
    /// The byte that stands for this code.
    pub open spec fn wire_code(self) -> u8 {
        match self {
            UnSubscribeReasonCode::Success => 0,
            UnSubscribeReasonCode::NoSubscriptionFound => 17,
            UnSubscribeReasonCode::UnspecifiedError => 128,
            UnSubscribeReasonCode::ImplementationSpecificError => 131,
            UnSubscribeReasonCode::NotAuthorized => 135,
            UnSubscribeReasonCode::TopicFilterInValid => 143,
            UnSubscribeReasonCode::PacketIdentifierInUse => 145,
        }
    }

    /// The code a byte stands for, if any.
    pub open spec fn from_wire(byte: u8) -> Option<UnSubscribeReasonCode> {
        if byte == 0 {
            Some(UnSubscribeReasonCode::Success)
        } else if byte == 17 {
            Some(UnSubscribeReasonCode::NoSubscriptionFound)
        } else if byte == 128 {
            Some(UnSubscribeReasonCode::UnspecifiedError)
        } else if byte == 131 {
            Some(UnSubscribeReasonCode::ImplementationSpecificError)
        } else if byte == 135 {
            Some(UnSubscribeReasonCode::NotAuthorized)
        } else if byte == 143 {
            Some(UnSubscribeReasonCode::TopicFilterInValid)
        } else if byte == 145 {
            Some(UnSubscribeReasonCode::PacketIdentifierInUse)
        } else {
            None
        }
    }

    /// A byte stands for a code exactly when it is that code's byte.
    pub proof fn lemma_wire_code(self, byte: u8)
        ensures
            UnSubscribeReasonCode::from_wire(byte) == Some(self) <==> self.wire_code() == byte,
    {
    }
}

impl Default for UnSubscribeReasonCode {
    fn default() -> (c: Self)
        ensures
            c == UnSubscribeReasonCode::UnspecifiedError,
    {
        UnSubscribeReasonCode::UnspecifiedError
    }
}

impl FromToU8<UnSubscribeReasonCode> for UnSubscribeReasonCode {
    fn to_u8(&self) -> (b: u8)
        ensures
            b == self.wire_code(),
    {
        match *self {
            UnSubscribeReasonCode::Success => 0,
            UnSubscribeReasonCode::NoSubscriptionFound => 17,
            UnSubscribeReasonCode::UnspecifiedError => 128,
            UnSubscribeReasonCode::ImplementationSpecificError => 131,
            UnSubscribeReasonCode::NotAuthorized => 135,
            UnSubscribeReasonCode::TopicFilterInValid => 143,
            UnSubscribeReasonCode::PacketIdentifierInUse => 145,
        }
    }

    fn from_u8(byte: u8) -> (res: Result<UnSubscribeReasonCode, Error>)
        ensures
            match UnSubscribeReasonCode::from_wire(byte) {
                Some(c) => res == Ok::<UnSubscribeReasonCode, Error>(c),
                None => res == Err::<UnSubscribeReasonCode, Error>(Error::InvalidReasonCode(byte)),
            },
    {
        match byte {
            0 => Ok(UnSubscribeReasonCode::Success),
            17 => Ok(UnSubscribeReasonCode::NoSubscriptionFound),
            128 => Ok(UnSubscribeReasonCode::UnspecifiedError),
            131 => Ok(UnSubscribeReasonCode::ImplementationSpecificError),
            135 => Ok(UnSubscribeReasonCode::NotAuthorized),
            143 => Ok(UnSubscribeReasonCode::TopicFilterInValid),
            145 => Ok(UnSubscribeReasonCode::PacketIdentifierInUse),
            n => Err(Error::InvalidReasonCode(n)),
        }
    }
}

} // verus!
