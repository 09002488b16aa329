//! The SUBSCRIBE packet: a packet identifier, properties, then topic filters
//! with their subscription options.
use vstd::prelude::*;
use bytes::BytesMut;
use crate::codec::buffer::{be_u16_at, buf_contents, buf_get_u16, buf_get_u8};
use crate::codec::check::{keys_allowed, keys_within};
use crate::codec::error::{Decoded, Error, ErrorModel};
use crate::codec::fixed_header::{default_fixed_header, fixed_header_bytes, spec_fixed_header, FixedHeader};
use crate::codec::packet::{PacketCodec, PacketId, PacketType};
use crate::codec::property::{
    consumed, empty_property_model, lemma_property_from_buf_consumed, spec_property_from_buf, Mqtt5Property,
    Mqtt5PropertyModel,
};
use crate::codec::property_encode::{property_encoding, property_writable};
use crate::codec::publish::Qos;
use crate::codec::{
    be16, length_prefixed, read_string, spec_read_string_expect, variable_bytes_len, varint_encode, write_string,
    FromToBuf, FromToU8,
};
use crate::codec::error::lemma_shift_shift;
use crate::codec::property::lemma_string_consumed;
use crate::codec::property_encode::{concat_parts, lemma_concat_prefix_len, lemma_concat_step};
use crate::codec::publish::{qos_code, qos_of};
use vstd::utf8::encode_utf8;

verus! {

/// A SUBSCRIBE packet.
#[derive(Debug, Clone, PartialEq)]
pub struct Subscribe {
    fixed_header: FixedHeader,
    variable_header: SubscribeVariableHeader,
    payload: Vec<(String, SubscriptionOptions)>,
}

impl View for Subscribe {
    type V = (FixedHeader, (u16, Mqtt5PropertyModel), Seq<(Seq<char>, (Qos, bool, bool, u8))>);

    closed spec fn view(&self) -> (FixedHeader, (u16, Mqtt5PropertyModel), Seq<(Seq<char>, (Qos, bool, bool, u8))>) {
        (self.fixed_header, self.variable_header@, self.payload@.map_values(|p: (String, SubscriptionOptions)| (p.0@, p.1@)))
    }
}

/// Decoding topic filters from the front of `s` while the count of payload
/// bytes left, `remaining`, is above zero, after `acc`.
pub open spec fn spec_subscribe_topics(s: Seq<u8>, remaining: nat, acc: Seq<(Seq<char>, (Qos, bool, bool, u8))>) -> Decoded<Seq<(Seq<char>, (Qos, bool, bool, u8))>>
    decreases remaining,
{
    if remaining == 0 {
        Decoded::Done(acc, 0)
    } else {
        match spec_read_string_expect(s) {
            Decoded::Done(t, n) => if s.len() <= n {
                Decoded::Panic
            } else {
                match options_of(s[n as int]) {
                    None => Decoded::Panic,
                    Some(o) => if remaining < encode_utf8(t).len() + 3 {
                        Decoded::Panic
                    } else {
                        spec_subscribe_topics(
                            s.skip((n + 1) as int),
                            (remaining - (encode_utf8(t).len() + 3)) as nat,
                            acc.push((t, o)),
                        ).shifted(n + 1)
                    },
                }
            },
            _ => Decoded::Panic,
        }
    }
}

/// The number of payload bytes the headers announce: the remaining length
/// less the packet identifier and the property list.
pub open spec fn subscribe_payload_count(h: FixedHeader, v: (u16, Mqtt5PropertyModel)) -> int {
    h.remaining_length - 2 - v.1.property_length - varint_encode(v.1.property_length as nat).len()
}

/// Decoding the rest of a SUBSCRIBE packet after its fixed header `h`.
pub open spec fn spec_subscribe_extra(s: Seq<u8>, h: FixedHeader) -> Decoded<(FixedHeader, (u16, Mqtt5PropertyModel), Seq<(Seq<char>, (Qos, bool, bool, u8))>)> {
    match spec_subscribe_variable_header(s) {
        Decoded::Done(v, n) => if subscribe_payload_count(h, v) < 0 {
            Decoded::Panic
        } else {
            match spec_subscribe_topics(s.skip(n as int), subscribe_payload_count(h, v) as nat, Seq::empty()) {
                Decoded::Done(items, m) => Decoded::Done((h, v, items), n + m),
                _ => Decoded::Panic,
            }
        },
        _ => Decoded::Panic,
    }
}

/// Decoding a SUBSCRIBE packet from the front of `s`.
pub open spec fn spec_subscribe(s: Seq<u8>) -> Decoded<(FixedHeader, (u16, Mqtt5PropertyModel), Seq<(Seq<char>, (Qos, bool, bool, u8))>)> {
    match spec_fixed_header(s) {
        Decoded::Done(h, n) => if h.packet_type != PacketType::SUBSCRIBE || h.dup || h.qos != Qos::AtLeastOnce || h.retain {
            Decoded::Panic
        } else {
            spec_subscribe_extra(s.skip(n as int), h).shifted(n)
        },
        _ => Decoded::Panic,
    }
}

/// The bytes of one topic filter with its options.
pub open spec fn subscribe_item_bytes(item: (Seq<char>, (Qos, bool, bool, u8))) -> Seq<u8> {
    length_prefixed(encode_utf8(item.0)) + seq![options_byte(item.1)]
}

/// Whether the encoder can write the topic filter of `item`.
pub open spec fn subscribe_item_writable(item: (Seq<char>, (Qos, bool, bool, u8))) -> bool {
    encode_utf8(item.0).len() <= 65535
}

/// The bytes of the payload.
pub open spec fn subscribe_payload_bytes(items: Seq<(Seq<char>, (Qos, bool, bool, u8))>) -> Seq<u8> {
    concat_parts(items.map_values(|item: (Seq<char>, (Qos, bool, bool, u8))| subscribe_item_bytes(item)))
}

proof fn lemma_subscribe_topics_consumed(s: Seq<u8>, remaining: nat, acc: Seq<(Seq<char>, (Qos, bool, bool, u8))>)
    ensures
        spec_subscribe_topics(s, remaining, acc).taken() <= s.len(),
    decreases remaining,
{
    if remaining > 0 {
        lemma_string_consumed(s);
            if let Decoded::Done(t, n) = spec_read_string_expect(s) {
                if s.len() > n {
                    if let Some(o) = options_of(s[n as int]) {
                        if remaining >= encode_utf8(t).len() + 3 {
                            lemma_subscribe_topics_consumed(
                                s.skip((n + 1) as int),
                                (remaining - (encode_utf8(t).len() + 3)) as nat,
                                acc.push((t, o)),
                            );
                        }
                    }
                }
            }
    }
}

proof fn lemma_subscribe_extra_consumed(s: Seq<u8>, h: FixedHeader)
    ensures
        spec_subscribe_extra(s, h).taken() <= s.len(),
{
    lemma_subscribe_variable_header_consumed(s);
    if let Decoded::Done(v, n) = spec_subscribe_variable_header(s) {
        if subscribe_payload_count(h, v) >= 0 {
            lemma_subscribe_topics_consumed(s.skip(n as int), subscribe_payload_count(h, v) as nat, Seq::empty());
        }
    }
}

impl PacketCodec<Subscribe> for Subscribe {
    open spec fn extra_readable(s: Seq<u8>, fixed_header: FixedHeader) -> bool {
        !spec_subscribe_extra(s, fixed_header).panics()
    }

    fn from_buf_extra(buf: &mut BytesMut, fixed_header: FixedHeader) -> (res: Result<Subscribe, Error>)
        ensures
            match spec_subscribe_extra(buf_contents(*old(buf)), fixed_header) {
                Decoded::Done(v, n) => res matches Ok(r) && r@ == v
                    && buf_contents(*final(buf)) == buf_contents(*old(buf)).skip(n as int)
                    && n <= buf_contents(*old(buf)).len(),
                _ => false,
            },
    {
        let ghost s = buf_contents(*buf);
        proof {
            lemma_subscribe_variable_header_consumed(s);
        }
        let variable_header = match SubscribeVariableHeader::from_buf(buf) {
            Ok(v) => v,
            Err(e) => {
                proof {
                    assert(false);
                }
                return Err(e);
            },
        };
        let ghost n = (s.len() - buf_contents(*buf).len()) as nat;
        let ghost s1 = buf_contents(*buf);
        let property_length = variable_header.property_length();
        let mut remaining: usize = fixed_header.remaining_length - 2 - property_length - variable_bytes_len(
            property_length,
        );
        let ghost total = remaining as nat;
        let mut payload: Vec<(String, SubscriptionOptions)> = Vec::new();
        let ghost mut pos: nat = 0;
        let ghost vm = variable_header@;
        proof {
            assert(s1 =~= s1.skip(0));
            assert(payload@.map_values(|p: (String, SubscriptionOptions)| (p.0@, p.1@)) =~= Seq::<(Seq<char>, (Qos, bool, bool, u8))>::empty());
        }
        while remaining > 0
            invariant
                s == buf_contents(*old(buf)),
                s1 == s.skip(n as int),
                n + s1.len() == s.len(),
                spec_subscribe_extra(s, fixed_header) == match spec_subscribe_topics(s1, total, Seq::empty()) {
                    Decoded::Done(items, m) => Decoded::Done((fixed_header, vm, items), n + m),
                    _ => Decoded::<(FixedHeader, (u16, Mqtt5PropertyModel), Seq<(Seq<char>, (Qos, bool, bool, u8))>)>::Panic,
                },
                spec_subscribe_topics(s1, total, Seq::empty()) == spec_subscribe_topics(
                    buf_contents(*buf),
                    remaining as nat,
                    payload@.map_values(|p: (String, SubscriptionOptions)| (p.0@, p.1@)),
                ).shifted(pos),
                buf_contents(*buf) == s1.skip(pos as int),
                pos <= s1.len(),
                !spec_subscribe_topics(s1, total, Seq::empty()).panics(),
            decreases remaining,
        {
            let ghost cur = buf_contents(*buf);
            let ghost before = payload@.map_values(|p: (String, SubscriptionOptions)| (p.0@, p.1@));
            proof {
                lemma_string_consumed(cur);
            }
            let topic_filter = match read_string(buf) {
                Ok(t) => t,
                Err(e) => {
                    proof {
                        assert(false);
                    }
                    return Err(e);
                },
            };
            let ghost n1 = (cur.len() - buf_contents(*buf).len()) as nat;
            let subscription_options = match SubscriptionOptions::from_buf(buf) {
                Ok(o) => o,
                Err(e) => {
                    proof {
                        assert(false);
                    }
                    return Err(e);
                },
            };
            let ghost item = (topic_filter@, subscription_options@);
            payload.push((topic_filter.clone(), subscription_options));
            let used = topic_filter.as_str().len() + 3;
            assert(payload@.map_values(|p: (String, SubscriptionOptions)| (p.0@, p.1@)) =~= before.push(item));
            proof {
                assert(cur.skip(n1 as int).skip(1) =~= cur.skip((n1 + 1) as int));
            }
            let ghost step: nat = n1 + 1;
            proof {
                lemma_shift_shift(spec_subscribe_topics(buf_contents(*buf), (remaining - used) as nat, before.push(item)), step, pos);
                assert(buf_contents(*buf) =~= s1.skip((pos + step) as int));
            }
            remaining = remaining - used;
            proof {
                pos = pos + step;
            }
        }
        proof {
            assert(buf_contents(*buf) =~= s.skip((n + pos) as int));
        }
        Ok(Subscribe { fixed_header, variable_header, payload })
    }
}

impl FromToBuf<Subscribe> for Subscribe {
    open spec fn writable(&self) -> bool {
        &&& property_writable(self@.1.1)
        &&& forall|i: int| 0 <= i < self@.2.len() ==> subscribe_item_writable(#[trigger] self@.2[i])
        &&& fixed_header_bytes(self@.0).len() + 2 + self@.1.1.property_length + subscribe_payload_bytes(self@.2).len()
            <= usize::MAX
    }

    open spec fn readable(s: Seq<u8>) -> bool {
        !spec_subscribe(s).panics()
    }

    /// Writes the fixed header, the variable header and the payload;
    /// returns the lengths they report, added.
    fn to_buf(&self, buf: &mut Vec<u8>) -> (res: Result<usize, Error>)
        ensures
            res == Ok::<usize, Error>(
                (fixed_header_bytes(self@.0).len() + 2 + self@.1.1.property_length + subscribe_payload_bytes(self@.2).len()) as usize,
            ),
            exists|w: Seq<u8>|
                subscribe_variable_header_encoding(self@.1, w) && final(buf)@ == old(buf)@ + fixed_header_bytes(self@.0) + w
                    + subscribe_payload_bytes(self@.2),
    {
        let ghost start = buf@;
        let mut len = match self.fixed_header.to_buf(buf) {
            Ok(n) => n,
            Err(_) => 0,
        };
        let ghost mid = buf@;
        let b = match self.variable_header.to_buf(buf) {
            Ok(n) => n,
            Err(_) => 0,
        };
        len = len + b;
        let ghost w = choose|w: Seq<u8>| subscribe_variable_header_encoding(self.variable_header@, w) && buf@ == mid + w;
        let ghost head = buf@;
        let ghost items = self@.2;
        let ghost parts = items.map_values(|item: (Seq<char>, (Qos, bool, bool, u8))| subscribe_item_bytes(item));
        let ghost base = fixed_header_bytes(self.fixed_header).len() + 2 + self.variable_header@.1.property_length;
        let mut i: usize = 0;
        proof {
            assert(parts.take(0) =~= Seq::<Seq<u8>>::empty());
            assert(buf@ =~= head + concat_parts(parts.take(0)));
        }
        while i < self.payload.len()
            invariant
                i <= self.payload@.len(),
                items == self@.2,
                items.len() == self.payload@.len(),
                parts == items.map_values(|item: (Seq<char>, (Qos, bool, bool, u8))| subscribe_item_bytes(item)),
                self.writable(),
                base == fixed_header_bytes(self.fixed_header).len() + 2 + self.variable_header@.1.property_length,
                base + concat_parts(parts).len() <= usize::MAX,
                buf@ == head + concat_parts(parts.take(i as int)),
                len == base + concat_parts(parts.take(i as int)).len(),
            decreases self.payload@.len() - i,
        {
            proof {
                lemma_concat_step(parts, i as int);
                lemma_concat_prefix_len(parts, i + 1);
                assert(items[i as int] == (self.payload@[i as int].0@, self.payload@[i as int].1@));
                assert(subscribe_item_writable(items[i as int]));
            }
            let a = write_string(self.payload[i].0.clone(), buf);
            let b = self.payload[i].1.to_buf(buf);
            len = len + a + b;
            assert(buf@ =~= head + concat_parts(parts.take(i + 1)));
            i = i + 1;
        }
        proof {
            assert(parts.take(i as int) =~= parts);
            assert(buf@ =~= start + fixed_header_bytes(self.fixed_header) + w + subscribe_payload_bytes(self@.2));
        }
        Ok(len)
    }

    /// Reads a SUBSCRIBE packet: a fixed header of the right type and flags,
    /// the variable header, then topic filters until the remaining length is
    /// used up.
    fn from_buf(buf: &mut BytesMut) -> (res: Result<Subscribe, Error>)
        ensures
            match spec_subscribe(buf_contents(*old(buf))) {
                Decoded::Done(v, n) => res matches Ok(r) && r@ == v
                    && buf_contents(*final(buf)) == buf_contents(*old(buf)).skip(n as int),
                _ => false,
            },
    {
        let ghost s = buf_contents(*buf);
        let fixed_header = Subscribe::decode_fixed_header(buf);
        if fixed_header.packet_type != PacketType::SUBSCRIBE || fixed_header.dup || fixed_header.qos != Qos::AtLeastOnce
            || fixed_header.retain {
            proof {
                assert(false);
            }
        }
        let ghost rest = buf_contents(*buf);
        let res = Subscribe::from_buf_extra(buf, fixed_header);
        proof {
            let n = (s.len() - rest.len()) as nat;
            assert(rest == s.skip(n as int));
            let d = spec_subscribe_extra(rest, fixed_header);
            if !d.panics() {
                lemma_subscribe_extra_consumed(rest, fixed_header);
                assert(buf_contents(*buf) =~= s.skip((n + d.taken()) as int));
            }
        }
        res
    }
}

impl Default for Subscribe {
    fn default() -> (p: Self)
        ensures
            p@ == (default_fixed_header(), (1u16, empty_property_model()), Seq::<(Seq<char>, (Qos, bool, bool, u8))>::empty()),
    {
        let p = Subscribe {
            fixed_header: FixedHeader::default(),
            variable_header: SubscribeVariableHeader::default(),
            payload: Vec::new(),
        };
        assert(p.payload@.map_values(|q: (String, SubscriptionOptions)| (q.0@, q.1@)) =~= Seq::empty());
        p
    }
}

/// The variable header of a SUBSCRIBE packet.
#[derive(Debug, Clone, PartialEq)]
pub struct SubscribeVariableHeader {
    packet_id: PacketId,
    subscribe_property: Mqtt5Property,
}

impl View for SubscribeVariableHeader {
    type V = (u16, Mqtt5PropertyModel);

    closed spec fn view(&self) -> (u16, Mqtt5PropertyModel) {
        (self.packet_id@, self.subscribe_property@)
    }
}

/// The property identifiers a SUBSCRIBE packet may carry.
pub open spec fn subscribe_property_ids() -> Seq<u32> {
    seq![0x0Bu32, 0x26u32]
}

/// Decoding the variable header of a SUBSCRIBE packet from the front of `s`.
pub open spec fn spec_subscribe_variable_header(s: Seq<u8>) -> Decoded<(u16, Mqtt5PropertyModel)> {
    if s.len() < 2 || be_u16_at(s, 0) == 0 {
        Decoded::Panic
    } else {
        match spec_property_from_buf(s.skip(2)) {
            Decoded::Done(p, n) => if keys_within(p.properties, subscribe_property_ids()) {
                Decoded::Done((be_u16_at(s, 0), p), 2 + n)
            } else {
                Decoded::Fail(ErrorModel::InvalidPropertyType("Subscribe Properties contains a invalid property"@), 2 + n)
            },
            _ => Decoded::Panic,
        }
    }
}

/// Decoding the variable header takes no more bytes than there are.
pub proof fn lemma_subscribe_variable_header_consumed(s: Seq<u8>)
    ensures
        match spec_subscribe_variable_header(s) {
            Decoded::Done(_, n) => n <= s.len(),
            Decoded::Fail(_, n) => n <= s.len(),
            Decoded::Panic => true,
        },
{
    if s.len() >= 2 {
        lemma_property_from_buf_consumed(s.skip(2));
    }
}

/// `w` is how the variable header `v` is written.
pub open spec fn subscribe_variable_header_encoding(v: (u16, Mqtt5PropertyModel), w: Seq<u8>) -> bool {
    exists|pw: Seq<u8>| property_encoding(v.1, pw) && w == be16(v.0) + pw
}

impl SubscribeVariableHeader {
    fn check_subscribe_property(subscribe_property: &mut Mqtt5Property) -> (res: Result<(), Error>)
        ensures
            *final(subscribe_property) == *old(subscribe_property),
            res is Ok <==> keys_within(old(subscribe_property)@.properties, subscribe_property_ids()),
            res matches Err(e) ==> e@ == ErrorModel::InvalidPropertyType("Subscribe Properties contains a invalid property"@),
    {
        let allowed: [u32; 2] = [0x0B, 0x26];
        assert(allowed@ == subscribe_property_ids());
        if keys_allowed(&subscribe_property.properties, &allowed) {
            Ok(())
        } else {
            Err(Error::InvalidPropertyType("Subscribe Properties contains a invalid property".to_string()))
        }
    }

    /// The declared length of the properties.
    pub(crate) fn property_length(&self) -> (n: usize)
        ensures
            n == self@.1.property_length,
    {
        self.subscribe_property.property_length
    }
}

impl Default for SubscribeVariableHeader {
    fn default() -> (v: Self)
        ensures
            v@ == (1u16, empty_property_model()),
    {
        SubscribeVariableHeader { packet_id: PacketId::default(), subscribe_property: Mqtt5Property::default() }
    }
}

impl FromToBuf<SubscribeVariableHeader> for SubscribeVariableHeader {
    open spec fn writable(&self) -> bool {
        property_writable(self@.1) && self@.1.property_length + 2 <= usize::MAX
    }

    open spec fn readable(s: Seq<u8>) -> bool {
        !spec_subscribe_variable_header(s).panics()
    }

    /// Writes the packet identifier and the properties; returns 2 plus the
    /// declared property length.
    fn to_buf(&self, buf: &mut Vec<u8>) -> (res: Result<usize, Error>)
        ensures
            res == Ok::<usize, Error>((2 + self@.1.property_length) as usize),
            exists|w: Seq<u8>| subscribe_variable_header_encoding(self@, w) && final(buf)@ == old(buf)@ + w,
    {
        let ghost start = buf@;
        let mut len = self.packet_id.to_buf(buf);
        let ghost mid = buf@;
        let n = match self.subscribe_property.to_buf(buf) {
            Ok(n) => n,
            Err(_) => 0,
        };
        len = len + n;
        proof {
            let pw = choose|pw: Seq<u8>| property_encoding(self.subscribe_property@, pw) && buf@ == mid + pw;
            let w = be16(self.packet_id@) + pw;
            assert(buf@ =~= start + w);
            assert(subscribe_variable_header_encoding(self@, w));
        }
        Ok(len)
    }

    fn from_buf(buf: &mut BytesMut) -> (res: Result<SubscribeVariableHeader, Error>)
        ensures
            match spec_subscribe_variable_header(buf_contents(*old(buf))) {
                Decoded::Done(v, n) => res matches Ok(r) && r@ == v
                    && buf_contents(*final(buf)) == buf_contents(*old(buf)).skip(n as int),
                Decoded::Fail(e, n) => res matches Err(err) && err@ == e
                    && buf_contents(*final(buf)) == buf_contents(*old(buf)).skip(n as int),
                Decoded::Panic => false,
            },
    {
        let ghost s = buf_contents(*buf);
        proof {
            lemma_subscribe_variable_header_consumed(s);
            lemma_property_from_buf_consumed(s.skip(2));
        }
        let packet_id = PacketId::new(buf_get_u16(buf));
        assert(buf_contents(*buf) =~= s.skip(2));
        let mut subscribe_property = match Mqtt5Property::from_buf(buf) {
            Ok(p) => p,
            Err(e) => {
                proof {
                    assert(false);
                }
                return Err(e);
            },
        };
        proof {
            assert(buf_contents(*buf) =~= s.skip(2).skip(consumed(spec_property_from_buf(s.skip(2))) as int));
            assert(buf_contents(*buf) =~= s.skip(2 + consumed(spec_property_from_buf(s.skip(2))) as int));
        }
        match SubscribeVariableHeader::check_subscribe_property(&mut subscribe_property) {
            Ok(()) => {},
            Err(e) => return Err(e),
        }
        Ok(SubscribeVariableHeader { packet_id, subscribe_property })
    }
}

/// The options of one subscription.
#[derive(Debug, Clone, Copy, PartialEq, Eq, Structural)]
pub struct SubscriptionOptions {
    maximum_qos: Qos,
    no_local: bool,
    retain_as_published: bool,
    retain_handling: u8,
}

impl View for SubscriptionOptions {
    type V = (Qos, bool, bool, u8);

    closed spec fn view(&self) -> (Qos, bool, bool, u8) {
        (self.maximum_qos, self.no_local, self.retain_as_published, self.retain_handling)
    }
}

/// The options byte: maximum qos in bits 0-1, no-local in bit 2, retain as
/// published in bit 3, retain handling from bit 4 (its high bits drop off).
pub open spec fn options_byte(o: (Qos, bool, bool, u8)) -> u8 {
    (qos_code(o.0) + (if o.1 { 4int } else { 0int }) + (if o.2 { 8int } else { 0int }) + (o.3 % 16) * 16) as u8
}

/// The options an options byte gives, if its maximum qos may be used;
/// bits 6 and 7 are ignored.
pub open spec fn options_of(byte: u8) -> Option<(Qos, bool, bool, u8)> {
    match qos_of(byte % 4) {
        None => None,
        Some(q) => Some((q, (byte / 4) % 2 == 1, (byte / 8) % 2 == 1, (byte / 16) % 4)),
    }
}

impl Default for SubscriptionOptions {
    fn default() -> (o: Self)
        ensures
            o@ == (Qos::AtMostOnce, false, false, 0u8),
    {
        SubscriptionOptions {
            maximum_qos: Qos::default(),
            no_local: false,
            retain_as_published: false,
            retain_handling: 0,
        }
    }
}

impl SubscriptionOptions {
    /// Writes the options byte; returns 1.
    pub fn to_buf(&self, buf: &mut Vec<u8>) -> (n: usize)
        ensures
            final(buf)@ == old(buf)@ + seq![options_byte(self@)],
            n == 1,
    {
        let mut option_byte: u8 = 0b0000_0000;
        option_byte = option_byte + self.maximum_qos.to_u8();
        if self.no_local {
            option_byte = option_byte + 0b0000_0100;
        }
        if self.retain_as_published {
            option_byte = option_byte + 0b0000_1000;
        }
        option_byte = option_byte + (self.retain_handling % 16) * 16;
        buf.push(option_byte);
        1
    }

    /// Reads an options byte; a maximum qos of 3 panics.
    pub fn from_buf(buf: &mut BytesMut) -> (res: Result<SubscriptionOptions, Error>)
        requires
            buf_contents(*old(buf)).len() >= 1,
            options_of(buf_contents(*old(buf))[0]) is Some,
        ensures
            res matches Ok(o) && Some(o@) == options_of(buf_contents(*old(buf))[0]),
            buf_contents(*final(buf)) == buf_contents(*old(buf)).skip(1),
    {
        let subscription_options = buf_get_u8(buf);
        let maximum_qos = match Qos::from_u8(subscription_options % 4) {
            Ok(q) => q,
            Err(e) => {
                proof {
                    assert(false);
                }
                return Err(e);
            },
        };
        let no_local = (subscription_options / 4) % 2 == 1;
        let retain_as_published = (subscription_options / 8) % 2 == 1;
        let retain_handling = (subscription_options / 16) % 4;
        Ok(SubscriptionOptions { maximum_qos, no_local, retain_as_published, retain_handling })
    }
}

/// The reason codes a SUBACK packet answers each subscription with.
#[derive(Debug, Clone, Copy, PartialEq, Eq, Structural)]
pub enum SubscribeReasonCode {
    /// 0[0x00]
    GrantedQos0,
    /// 1[0x01]
    GrantedQos1,
    /// 2[0x02]
    GrantedQos2,
    /// 128[0x80]
    UnspecifiedError,
    /// 131[0x83]
    ImplementationSpecificError,
    /// 135[0x87]
    NotAuthorized,
    /// 143[0x8F]
    TopicFilterInvalid,
    /// 145[0x91]
    PacketIdentifierInUse,
    /// 151[0x97]
    QuotaExceeded,
    /// 158[0x9E]
    SharedSubscriptionNotSupported,
    /// 161[0xA1]
    SubscriptionIdentifierNotSupported,
    /// 162[0xA2]
    WildcardSubscriptionNotSupported,
}

impl SubscribeReasonCode {
    /// The byte that stands for this code.
    pub open spec fn wire_code(self) -> u8 {
        match self {
            SubscribeReasonCode::GrantedQos0 => 0,
            SubscribeReasonCode::GrantedQos1 => 1,
            SubscribeReasonCode::GrantedQos2 => 2,
            SubscribeReasonCode::UnspecifiedError => 128,
            SubscribeReasonCode::ImplementationSpecificError => 131,
            SubscribeReasonCode::NotAuthorized => 135,
            SubscribeReasonCode::TopicFilterInvalid => 143,
            SubscribeReasonCode::PacketIdentifierInUse => 145,
            SubscribeReasonCode::QuotaExceeded => 151,
            SubscribeReasonCode::SharedSubscriptionNotSupported => 158,
            SubscribeReasonCode::SubscriptionIdentifierNotSupported => 161,
            SubscribeReasonCode::WildcardSubscriptionNotSupported => 162,
        }
    }

    /// The code a byte stands for, if any.
    pub open spec fn from_wire(byte: u8) -> Option<SubscribeReasonCode> {
        if byte == 0 {
            Some(SubscribeReasonCode::GrantedQos0)
        } else if byte == 1 {
            Some(SubscribeReasonCode::GrantedQos1)
        } else if byte == 2 {
            Some(SubscribeReasonCode::GrantedQos2)
        } else if byte == 128 {
            Some(SubscribeReasonCode::UnspecifiedError)
        } else if byte == 131 {
            Some(SubscribeReasonCode::ImplementationSpecificError)
        } else if byte == 135 {
            Some(SubscribeReasonCode::NotAuthorized)
        } else if byte == 143 {
            Some(SubscribeReasonCode::TopicFilterInvalid)
        } else if byte == 145 {
            Some(SubscribeReasonCode::PacketIdentifierInUse)
        } else if byte == 151 {
            Some(SubscribeReasonCode::QuotaExceeded)
        } else if byte == 158 {
            Some(SubscribeReasonCode::SharedSubscriptionNotSupported)
        } else if byte == 161 {
            Some(SubscribeReasonCode::SubscriptionIdentifierNotSupported)
        } else if byte == 162 {
            Some(SubscribeReasonCode::WildcardSubscriptionNotSupported)
        } else {
            None
        }
    }

    /// A byte stands for a code exactly when it is that code's byte.
    pub proof fn lemma_wire_code(self, byte: u8)
        ensures
            SubscribeReasonCode::from_wire(byte) == Some(self) <==> self.wire_code() == byte,
    {
    }
}

impl Default for SubscribeReasonCode {
    fn default() -> (c: Self)
        ensures
            c == SubscribeReasonCode::UnspecifiedError,
    {
        SubscribeReasonCode::UnspecifiedError
    }
}

impl FromToU8<SubscribeReasonCode> for SubscribeReasonCode {
    fn to_u8(&self) -> (b: u8)
        ensures
            b == self.wire_code(),
    {
        match *self {
            SubscribeReasonCode::GrantedQos0 => 0,
            SubscribeReasonCode::GrantedQos1 => 1,
            SubscribeReasonCode::GrantedQos2 => 2,
            SubscribeReasonCode::UnspecifiedError => 128,
            SubscribeReasonCode::ImplementationSpecificError => 131,
            SubscribeReasonCode::NotAuthorized => 135,
            SubscribeReasonCode::TopicFilterInvalid => 143,
            SubscribeReasonCode::PacketIdentifierInUse => 145,
            SubscribeReasonCode::QuotaExceeded => 151,
            SubscribeReasonCode::SharedSubscriptionNotSupported => 158,
            SubscribeReasonCode::SubscriptionIdentifierNotSupported => 161,
            SubscribeReasonCode::WildcardSubscriptionNotSupported => 162,
        }
    }

    fn from_u8(byte: u8) -> (res: Result<SubscribeReasonCode, Error>)
        ensures
            match SubscribeReasonCode::from_wire(byte) {
                Some(c) => res == Ok::<SubscribeReasonCode, Error>(c),
                None => res == Err::<SubscribeReasonCode, Error>(Error::InvalidReasonCode(byte)),
            },
    {
        match byte {
            0 => Ok(SubscribeReasonCode::GrantedQos0),
            1 => Ok(SubscribeReasonCode::GrantedQos1),
            2 => Ok(SubscribeReasonCode::GrantedQos2),
            128 => Ok(SubscribeReasonCode::UnspecifiedError),
            131 => Ok(SubscribeReasonCode::ImplementationSpecificError),
            135 => Ok(SubscribeReasonCode::NotAuthorized),
            143 => Ok(SubscribeReasonCode::TopicFilterInvalid),
            145 => Ok(SubscribeReasonCode::PacketIdentifierInUse),
            151 => Ok(SubscribeReasonCode::QuotaExceeded),
            158 => Ok(SubscribeReasonCode::SharedSubscriptionNotSupported),
            161 => Ok(SubscribeReasonCode::SubscriptionIdentifierNotSupported),
            162 => Ok(SubscribeReasonCode::WildcardSubscriptionNotSupported),
            n => Err(Error::InvalidReasonCode(n)),
        }
    }
}

} // verus!
