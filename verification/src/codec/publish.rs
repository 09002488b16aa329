//! The PUBLISH packet and the quality-of-service levels.
use vstd::prelude::*;
use bytes::{Bytes, BytesMut};
use crate::codec::buffer::{
    be_u16_at, buf_contents, buf_get_u16, buf_len, buf_split_to, bytes_as_slice, bytes_contents, bytes_len,
    bytes_new,
};
use crate::codec::check::{keys_allowed, keys_within};
use crate::codec::error::{Decoded, Error, ErrorModel};
use crate::codec::fixed_header::{fixed_header_bytes, spec_fixed_header, FixedHeader};
use crate::codec::packet::{PacketCodec, PacketId, PacketType};
use crate::codec::property::{
    consumed, empty_property_model, lemma_property_from_buf_consumed, lemma_string_consumed,
    spec_property_from_buf, Mqtt5Property, Mqtt5PropertyModel,
};
use crate::codec::property_encode::{property_encoding, property_writable};
use crate::codec::{
    be16, length_prefixed, put_slice, read_string, spec_read_string_expect, variable_bytes_len, varint_encode,
    write_string, FromToBuf, FromToU8,
};
use vstd::utf8::encode_utf8;

verus! {

/// A quality-of-service level.
#[derive(Debug, Clone, Copy, PartialEq, Eq, Structural)]
pub enum Qos {
    /// Qos value: 0
    AtMostOnce,
    /// Qos value: 1
    AtLeastOnce,
    /// Qos value: 2
    ExactlyOnce,
    /// Reserved, must not be used
    Reserved,
}

/// The two-bit code of a level.
pub open spec fn qos_code(q: Qos) -> u8 {
    match q {
        Qos::AtMostOnce => 0,
        Qos::AtLeastOnce => 1,
        Qos::ExactlyOnce => 2,
        Qos::Reserved => 3,
    }
}

/// The level a byte names, if it names one that may be used.
pub open spec fn qos_of(byte: u8) -> Option<Qos> {
    if byte == 0 {
        Some(Qos::AtMostOnce)
    } else if byte == 1 {
        Some(Qos::AtLeastOnce)
    } else if byte == 2 {
        Some(Qos::ExactlyOnce)
    } else {
        None
    }
}

/// Reading back the code of a usable level gives the level.
pub proof fn lemma_qos_code_roundtrip(q: Qos)
    ensures
        q != Qos::Reserved ==> qos_of(qos_code(q)) == Some(q),
        qos_of(qos_code(q)) is None <==> q == Qos::Reserved,
{
}

impl Default for Qos {
    fn default() -> (q: Self)
        ensures
            q == Qos::AtMostOnce,
    {
        Qos::AtMostOnce
    }
}

impl FromToU8<Qos> for Qos {
    fn to_u8(&self) -> (b: u8)
        ensures
            b == qos_code(*self),
    {
        match *self {
            Qos::AtMostOnce => 0,
            Qos::AtLeastOnce => 1,
            Qos::ExactlyOnce => 2,
            _ => 3,
        }
    }

    fn from_u8(byte: u8) -> (res: Result<Qos, Error>)
        ensures
            match qos_of(byte) {
                Some(q) => res == Ok::<Qos, Error>(q),
                None => res == Err::<Qos, Error>(Error::InvalidQos(byte)),
            },
    {
        match byte {
            0 => Ok(Qos::AtMostOnce),
            1 => Ok(Qos::AtLeastOnce),
            2 => Ok(Qos::ExactlyOnce),
            n => Err(Error::InvalidQos(n)),
        }
    }
}

/// A PUBLISH packet.
#[derive(Debug, Clone, PartialEq)]
pub struct Publish {
    fixed_header: FixedHeader,
    variable_header: PublishVariableHeader,
    payload: Bytes,
}

/// The variable header of a PUBLISH packet.
#[derive(Debug, Clone, PartialEq)]
pub struct PublishVariableHeader {
    topic_name: String,
    packet_id: PacketId,
    publish_property: Mqtt5Property,
}

impl View for PublishVariableHeader {
    type V = (Seq<char>, u16, Mqtt5PropertyModel);

    closed spec fn view(&self) -> (Seq<char>, u16, Mqtt5PropertyModel) {
        (self.topic_name@, self.packet_id@, self.publish_property@)
    }
}

impl View for Publish {
    type V = (FixedHeader, (Seq<char>, u16, Mqtt5PropertyModel), Seq<u8>);

    closed spec fn view(&self) -> (FixedHeader, (Seq<char>, u16, Mqtt5PropertyModel), Seq<u8>) {
        (self.fixed_header, self.variable_header@, bytes_contents(self.payload))
    }
}

/// The property identifiers a PUBLISH packet may carry.
pub open spec fn publish_property_ids() -> Seq<u32> {
    seq![0x01u32, 0x02u32, 0x03u32, 0x08u32, 0x09u32, 0x0Bu32, 0x23u32, 0x26u32]
}

/// Decoding the variable header of a PUBLISH packet from the front of `s`:
/// the topic name, the packet identifier, then the properties.
pub open spec fn spec_publish_variable_header(s: Seq<u8>) -> Decoded<(Seq<char>, u16, Mqtt5PropertyModel)> {
    match spec_read_string_expect(s) {
        Decoded::Done(topic, n) => if s.len() < n + 2 || be_u16_at(s, n as int) == 0 {
            Decoded::Panic
        } else {
            match spec_property_from_buf(s.skip((n + 2) as int)) {
                Decoded::Done(p, m) => if keys_within(p.properties, publish_property_ids()) {
                    Decoded::Done((topic, be_u16_at(s, n as int), p), n + 2 + m)
                } else {
                    Decoded::Fail(
                        ErrorModel::InvalidPropertyType("Publish Properties contains a invalid property"@),
                        n + 2 + m,
                    )
                },
                _ => Decoded::Panic,
            }
        },
        _ => Decoded::Panic,
    }
}

/// Decoding the variable header takes no more bytes than there are.
pub proof fn lemma_publish_variable_header_consumed(s: Seq<u8>)
    ensures
        spec_publish_variable_header(s).taken() <= s.len(),
{
    lemma_string_consumed(s);
    if let Decoded::Done(topic, n) = spec_read_string_expect(s) {
        if s.len() >= n + 2 {
            lemma_property_from_buf_consumed(s.skip((n + 2) as int));
        }
    }
}

/// The number of payload bytes the headers announce: the remaining length
/// less the topic name, the packet identifier and the property list.
pub open spec fn publish_payload_count(h: FixedHeader, v: (Seq<char>, u16, Mqtt5PropertyModel)) -> int {
    h.remaining_length - encode_utf8(v.0).len() - 4 - v.2.property_length - varint_encode(
        v.2.property_length as nat,
    ).len()
}

/// Decoding the rest of a PUBLISH packet after its fixed header `h`.
pub open spec fn spec_publish_extra(s: Seq<u8>, h: FixedHeader) -> Decoded<
    (FixedHeader, (Seq<char>, u16, Mqtt5PropertyModel), Seq<u8>),
> {
    match spec_publish_variable_header(s) {
        Decoded::Done(v, n) => if publish_payload_count(h, v) < 0 || n + publish_payload_count(h, v) > s.len() {
            Decoded::Panic
        } else {
            Decoded::Done(
                (h, v, s.subrange(n as int, n + publish_payload_count(h, v))),
                (n + publish_payload_count(h, v)) as nat,
            )
        },
        _ => Decoded::Panic,
    }
}

/// Decoding a PUBLISH packet from the front of `s`.
pub open spec fn spec_publish(s: Seq<u8>) -> Decoded<(FixedHeader, (Seq<char>, u16, Mqtt5PropertyModel), Seq<u8>)> {
    match spec_fixed_header(s) {
        Decoded::Done(h, n) => if h.packet_type != PacketType::PUBLISH {
            Decoded::Panic
        } else {
            spec_publish_extra(s.skip(n as int), h).shifted(n)
        },
        _ => Decoded::Panic,
    }
}

/// `w` is how the variable header `v` is written.
pub open spec fn publish_variable_header_encoding(v: (Seq<char>, u16, Mqtt5PropertyModel), w: Seq<u8>) -> bool {
    exists|pw: Seq<u8>| property_encoding(v.2, pw) && w == length_prefixed(encode_utf8(v.0)) + be16(v.1) + pw
}

impl PublishVariableHeader {
    fn check_publish_property(publish_property: &mut Mqtt5Property) -> (res: Result<(), Error>)
        ensures
            *final(publish_property) == *old(publish_property),
            res is Ok <==> keys_within(old(publish_property)@.properties, publish_property_ids()),
            res matches Err(e) ==> e@ == ErrorModel::InvalidPropertyType(
                "Publish Properties contains a invalid property"@,
            ),
    {
        let allowed: [u32; 8] = [0x01, 0x02, 0x03, 0x08, 0x09, 0x0B, 0x23, 0x26];
        assert(allowed@ == publish_property_ids());
        if keys_allowed(&publish_property.properties, &allowed) {
            Ok(())
        } else {
            Err(Error::InvalidPropertyType("Publish Properties contains a invalid property".to_string()))
        }
    }

    /// The number of bytes the topic name, packet identifier and property
    /// list take, leaving out the topic name's length field.
    pub fn length(&self) -> (n: usize)
        requires
            2 + encode_utf8(self@.0).len() + varint_encode(self@.2.property_length as nat).len()
                + self@.2.property_length <= usize::MAX,
        ensures
            n == 2 + encode_utf8(self@.0).len() + varint_encode(self@.2.property_length as nat).len()
                + self@.2.property_length,
    {
        self.packet_id.length() + self.topic_name.as_str().as_bytes().len() + self.publish_property.length()
    }
}

impl Default for PublishVariableHeader {
    fn default() -> (v: Self)
        ensures
            v@ == (Seq::<char>::empty(), 1u16, empty_property_model()),
    {
        PublishVariableHeader {
            topic_name: String::new(),
            packet_id: PacketId::default(),
            publish_property: Mqtt5Property::default(),
        }
    }
}

impl FromToBuf<PublishVariableHeader> for PublishVariableHeader {
    open spec fn writable(&self) -> bool {
        property_writable(self@.2) && encode_utf8(self@.0).len() <= 65535 && encode_utf8(self@.0).len() + 4
            + self@.2.property_length <= usize::MAX
    }

    open spec fn readable(s: Seq<u8>) -> bool {
        !spec_publish_variable_header(s).panics()
    }

    /// Writes the topic name, the packet identifier and the properties;
    /// returns their byte counts with the declared property length, added.
    fn to_buf(&self, buf: &mut Vec<u8>) -> (res: Result<usize, Error>)
        ensures
            res == Ok::<usize, Error>((encode_utf8(self@.0).len() + 4 + self@.2.property_length) as usize),
            exists|w: Seq<u8>| publish_variable_header_encoding(self@, w) && final(buf)@ == old(buf)@ + w,
    {
        let ghost start = buf@;
        let mut len = write_string(self.topic_name.clone(), buf);
        len = len + self.packet_id.to_buf(buf);
        let ghost mid = buf@;
        let n = match self.publish_property.to_buf(buf) {
            Ok(n) => n,
            Err(_) => 0,
        };
        len = len + n;
        proof {
            let pw = choose|pw: Seq<u8>| property_encoding(self.publish_property@, pw) && buf@ == mid + pw;
            let w = length_prefixed(encode_utf8(self.topic_name@)) + be16(self.packet_id@) + pw;
            assert(buf@ =~= start + w);
            assert(publish_variable_header_encoding(self@, w));
        }
        Ok(len)
    }

    fn from_buf(buf: &mut BytesMut) -> (res: Result<PublishVariableHeader, Error>)
        ensures
            match spec_publish_variable_header(buf_contents(*old(buf))) {
                Decoded::Done(v, n) => res matches Ok(r) && r@ == v
                    && buf_contents(*final(buf)) == buf_contents(*old(buf)).skip(n as int),
                Decoded::Fail(e, n) => res matches Err(err) && err@ == e
                    && buf_contents(*final(buf)) == buf_contents(*old(buf)).skip(n as int),
                Decoded::Panic => false,
            },
    {
        let ghost s = buf_contents(*buf);
        proof {
            lemma_publish_variable_header_consumed(s);
            lemma_string_consumed(s);
        }
        let topic_name = match read_string(buf) {
            Ok(t) => t,
            Err(e) => {
                proof {
                    assert(false);
                }
                return Err(e);
            },
        };
        let ghost n = (s.len() - buf_contents(*buf).len()) as nat;
        assert(buf_contents(*buf) =~= s.skip(n as int));
        let packet_id = PacketId::new(buf_get_u16(buf));
        assert(buf_contents(*buf) =~= s.skip((n + 2) as int));
        proof {
            lemma_property_from_buf_consumed(s.skip((n + 2) as int));
        }
        let mut publish_property = match Mqtt5Property::from_buf(buf) {
            Ok(p) => p,
            Err(e) => {
                proof {
                    assert(false);
                }
                return Err(e);
            },
        };
        proof {
            assert(buf_contents(*buf) =~= s.skip((n + 2 + consumed(spec_property_from_buf(s.skip((n + 2) as int)))) as int));
        }
        match PublishVariableHeader::check_publish_property(&mut publish_property) {
            Ok(()) => {},
            Err(e) => return Err(e),
        }
        Ok(PublishVariableHeader { topic_name, packet_id, publish_property })
    }
}

impl PacketCodec<Publish> for Publish {
    open spec fn extra_readable(s: Seq<u8>, fixed_header: FixedHeader) -> bool {
        !spec_publish_extra(s, fixed_header).panics()
    }

    fn from_buf_extra(buf: &mut BytesMut, fixed_header: FixedHeader) -> (res: Result<Publish, Error>)
        ensures
            match spec_publish_extra(buf_contents(*old(buf)), fixed_header) {
                Decoded::Done(v, n) => res matches Ok(r) && r@ == v
                    && buf_contents(*final(buf)) == buf_contents(*old(buf)).skip(n as int)
                    && n <= buf_contents(*old(buf)).len(),
                _ => false,
            },
    {
        let ghost s = buf_contents(*buf);
        proof {
            lemma_publish_variable_header_consumed(s);
        }
        let variable_header = match PublishVariableHeader::from_buf(buf) {
            Ok(v) => v,
            Err(e) => {
                proof {
                    assert(false);
                }
                return Err(e);
            },
        };
        let ghost n = (s.len() - buf_contents(*buf).len()) as nat;
        let property_length = variable_header.publish_property.property_length;
        let payload_len = fixed_header.remaining_length - variable_header.topic_name.as_str().as_bytes().len() - 4
            - property_length - variable_bytes_len(property_length);
        let payload = buf_split_to(buf, payload_len);
        proof {
            assert(bytes_contents(payload) =~= s.subrange(n as int, n + payload_len));
            assert(buf_contents(*buf) =~= s.skip((n + payload_len) as int));
        }
        Ok(Publish { fixed_header, variable_header, payload })
    }
}

impl FromToBuf<Publish> for Publish {
    open spec fn writable(&self) -> bool {
        &&& property_writable(self@.1.2)
        &&& encode_utf8(self@.1.0).len() <= 65535
        &&& fixed_header_bytes(self@.0).len() + encode_utf8(self@.1.0).len() + 4 + self@.1.2.property_length
            + self@.2.len() <= usize::MAX
    }

    open spec fn readable(s: Seq<u8>) -> bool {
        !spec_publish(s).panics()
    }

    /// Writes the fixed header, the variable header and the payload; returns
    /// the lengths they report, added.
    fn to_buf(&self, buf: &mut Vec<u8>) -> (res: Result<usize, Error>)
        ensures
            res == Ok::<usize, Error>(
                (fixed_header_bytes(self@.0).len() + encode_utf8(self@.1.0).len() + 4 + self@.1.2.property_length
                    + self@.2.len()) as usize,
            ),
            exists|w: Seq<u8>|
                publish_variable_header_encoding(self@.1, w) && final(buf)@ == old(buf)@ + fixed_header_bytes(self@.0)
                    + w + self@.2,
    {
        let ghost start = buf@;
        let mut len = match self.fixed_header.to_buf(buf) {
            Ok(n) => n,
            Err(_) => 0,
        };
        let ghost mid = buf@;
        let b = match self.variable_header.to_buf(buf) {
            Ok(n) => n,
            Err(_) => 0,
        };
        len = len + b;
        let ghost w = choose|w: Seq<u8>| publish_variable_header_encoding(self.variable_header@, w) && buf@ == mid + w;
        put_slice(buf, bytes_as_slice(&self.payload));
        len = len + bytes_len(&self.payload);
        assert(buf@ =~= start + fixed_header_bytes(self.fixed_header) + w + bytes_contents(self.payload));
        Ok(len)
    }

    /// Reads a PUBLISH packet: a fixed header of that type, the variable
    /// header, then the payload the remaining length leaves room for.
    fn from_buf(buf: &mut BytesMut) -> (res: Result<Publish, Error>)
        ensures
            match spec_publish(buf_contents(*old(buf))) {
                Decoded::Done(v, n) => res matches Ok(r) && r@ == v
                    && buf_contents(*final(buf)) == buf_contents(*old(buf)).skip(n as int),
                _ => false,
            },
    {
        let ghost s = buf_contents(*buf);
        let fixed_header = Publish::decode_fixed_header(buf);
        if fixed_header.packet_type != PacketType::PUBLISH {
            proof {
                assert(false);
            }
        }
        let ghost rest = buf_contents(*buf);
        let res = Publish::from_buf_extra(buf, fixed_header);
        proof {
            let n = (s.len() - rest.len()) as nat;
            assert(rest == s.skip(n as int));
            let d = spec_publish_extra(rest, fixed_header);
            if let Decoded::Done(v, m) = d {
                assert(buf_contents(*buf) =~= s.skip((n + m) as int));
            }
        }
        res
    }
}

impl Publish {
    /// The number of bytes the packet takes.
    pub fn length(&self) -> (n: usize)
        requires
            fixed_header_bytes(self@.0).len() + self@.0.remaining_length <= usize::MAX,
        ensures
            n == fixed_header_bytes(self@.0).len() + self@.0.remaining_length,
    {
        self.fixed_header.length() + self.fixed_header.remaining_length
    }
}

impl Default for Publish {
    fn default() -> (p: Self)
        ensures
            p@ == (
                FixedHeader {
                    packet_type: PacketType::PUBLISH,
                    dup: false,
                    qos: Qos::AtMostOnce,
                    retain: false,
                    remaining_length: 3,
                },
                (Seq::<char>::empty(), 1u16, empty_property_model()),
                Seq::<u8>::empty(),
            ),
    {
        let variable_header = PublishVariableHeader::default();
        let payload = bytes_new();
        proof {
            reveal_with_fuel(varint_encode, 2);
            assert(encode_utf8(Seq::<char>::empty()).len() == 0);
        }
        let fixed_header = FixedHeader {
            packet_type: PacketType::PUBLISH,
            dup: false,
            qos: Qos::AtMostOnce,
            retain: false,
            remaining_length: variable_header.length() + bytes_len(&payload),
        };
        Publish { fixed_header, variable_header, payload }
    }
}

} // verus!
