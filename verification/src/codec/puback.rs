//! The PUBACK packet: a packet identifier, a reason code and properties.
use vstd::prelude::*;
use bytes::BytesMut;
use crate::codec::buffer::{be_u16_at, buf_contents, buf_get_u16, buf_get_u8};
use crate::codec::check::{keys_allowed, keys_within};
use crate::codec::error::{Decoded, Error, ErrorModel};
use crate::codec::fixed_header::{default_fixed_header, fixed_header_bytes, spec_fixed_header, FixedHeader};
use crate::codec::packet::{PacketCodec, PacketId, PacketType};
use crate::codec::property::{consumed, empty_property_model, lemma_property_from_buf_consumed, spec_property_from_buf, Mqtt5Property, Mqtt5PropertyModel};
use crate::codec::property_encode::{property_encoding, property_writable};
use crate::codec::publish::Qos;
use crate::codec::{be16, varint_encode, FromToBuf, FromToU8};

verus! {

/// A PUBACK packet.
#[derive(Debug, Clone, PartialEq)]
pub struct PubAck {
    fixed_header: FixedHeader,
    variable_header: PubAckVariableHeader,
}

/// The variable header of a PUBACK packet.
#[derive(Debug, Clone, PartialEq)]
pub struct PubAckVariableHeader {
    packet_id: PacketId,
    puback_reason_code: PubAckReasonCode,
    puback_property: Mqtt5Property,
}

impl View for PubAckVariableHeader {
    type V = (u16, PubAckReasonCode, Mqtt5PropertyModel);

    closed spec fn view(&self) -> (u16, PubAckReasonCode, Mqtt5PropertyModel) {
        (self.packet_id@, self.puback_reason_code, self.puback_property@)
    }
}

impl View for PubAck {
    type V = (FixedHeader, (u16, PubAckReasonCode, Mqtt5PropertyModel));

    closed spec fn view(&self) -> (FixedHeader, (u16, PubAckReasonCode, Mqtt5PropertyModel)) {
        (self.fixed_header, self.variable_header@)
    }
}

/// The property identifiers a PUBACK packet may carry.
pub open spec fn puback_property_ids() -> Seq<u32> {
    seq![0x1Fu32, 0x26u32]
}

/// Decoding the variable header of a PUBACK packet from the front of `s`.
pub open spec fn spec_puback_variable_header(s: Seq<u8>) -> Decoded<(u16, PubAckReasonCode, Mqtt5PropertyModel)> {
    if s.len() < 2 || be_u16_at(s, 0) == 0 || s.len() < 3 {
        Decoded::Panic
    } else {
        match PubAckReasonCode::from_wire(s[2]) {
            None => Decoded::Panic,
            Some(code) => match spec_property_from_buf(s.skip(3)) {
                Decoded::Done(p, n) => if keys_within(p.properties, puback_property_ids()) {
                    Decoded::Done((be_u16_at(s, 0), code, p), 3 + n)
                } else {
                    Decoded::Fail(ErrorModel::InvalidPropertyType("PubAck Properties contains a invalid property"@), 3 + n)
                },
                _ => Decoded::Panic,
            },
        }
    }
}

/// Decoding the variable header takes no more bytes than there are.
pub proof fn lemma_puback_variable_header_consumed(s: Seq<u8>)
    ensures
        match spec_puback_variable_header(s) {
            Decoded::Done(_, n) => n <= s.len(),
            Decoded::Fail(_, n) => n <= s.len(),
            Decoded::Panic => true,
        },
{
    if s.len() >= 3 {
        lemma_property_from_buf_consumed(s.skip(3));
    }
}

/// Decoding the rest of a PUBACK packet after its fixed header `h`.
pub open spec fn spec_puback_extra(s: Seq<u8>, h: FixedHeader) -> Decoded<(FixedHeader, (u16, PubAckReasonCode, Mqtt5PropertyModel))> {
    match spec_puback_variable_header(s) {
        Decoded::Done(v, n) => Decoded::Done((h, v), n),
        _ => Decoded::Panic,
    }
}

/// Decoding a PUBACK packet from the front of `s`.
pub open spec fn spec_puback(s: Seq<u8>) -> Decoded<(FixedHeader, (u16, PubAckReasonCode, Mqtt5PropertyModel))> {
    match spec_fixed_header(s) {
        Decoded::Done(h, n) => if h.packet_type != PacketType::PUBACK || h.dup || h.qos != Qos::AtMostOnce || h.retain {
            Decoded::Panic
        } else {
            spec_puback_extra(s.skip(n as int), h).shifted(n)
        },
        _ => Decoded::Panic,
    }
}

/// `w` is how the variable header `v` is written.
pub open spec fn puback_variable_header_encoding(v: (u16, PubAckReasonCode, Mqtt5PropertyModel), w: Seq<u8>) -> bool {
    exists|pw: Seq<u8>| property_encoding(v.2, pw) && w == be16(v.0) + seq![v.1.wire_code()] + pw
}

impl PubAckVariableHeader {
    fn check_puback_property(puback_property: &mut Mqtt5Property) -> (res: Result<(), Error>)
        ensures
            *final(puback_property) == *old(puback_property),
            res is Ok <==> keys_within(old(puback_property)@.properties, puback_property_ids()),
            res matches Err(e) ==> e@ == ErrorModel::InvalidPropertyType("PubAck Properties contains a invalid property"@),
    {
        let allowed: [u32; 2] = [0x1F, 0x26];
        assert(allowed@ == puback_property_ids());
        if keys_allowed(&puback_property.properties, &allowed) {
            Ok(())
        } else {
            Err(Error::InvalidPropertyType("PubAck Properties contains a invalid property".to_string()))
        }
    }

    /// The number of bytes the variable header takes.
    pub fn length(&self) -> (n: usize)
        requires
            varint_encode(self@.2.property_length as nat).len() + self@.2.property_length + 3 <= usize::MAX,
        ensures
            n == 3 + varint_encode(self@.2.property_length as nat).len() + self@.2.property_length,
    {
        1 + self.packet_id.length() + self.puback_property.length()
    }
}

impl FromToBuf<PubAckVariableHeader> for PubAckVariableHeader {
    open spec fn writable(&self) -> bool {
        property_writable(self@.2) && self@.2.property_length + 3 <= usize::MAX
    }

    open spec fn readable(s: Seq<u8>) -> bool {
        !spec_puback_variable_header(s).panics()
    }

    /// Writes the packet identifier, the reason code and the properties;
    /// returns 3 plus the declared property length.
    fn to_buf(&self, buf: &mut Vec<u8>) -> (res: Result<usize, Error>)
        ensures
            res == Ok::<usize, Error>((3 + self@.2.property_length) as usize),
            exists|w: Seq<u8>| puback_variable_header_encoding(self@, w) && final(buf)@ == old(buf)@ + w,
    {
        let ghost start = buf@;
        let mut len = self.packet_id.to_buf(buf);
        buf.push(self.puback_reason_code.to_u8());
        len = len + 1;
        let ghost mid = buf@;
        let n = match self.puback_property.to_buf(buf) {
            Ok(n) => n,
            Err(_) => 0,
        };
        len = len + n;
        proof {
            let pw = choose|pw: Seq<u8>| property_encoding(self.puback_property@, pw) && buf@ == mid + pw;
            let w = be16(self.packet_id@) + seq![self.puback_reason_code.wire_code()] + pw;
            assert(buf@ =~= start + w);
            assert(puback_variable_header_encoding(self@, w));
        }
        Ok(len)
    }

    fn from_buf(buf: &mut BytesMut) -> (res: Result<PubAckVariableHeader, Error>)
        ensures
            match spec_puback_variable_header(buf_contents(*old(buf))) {
                Decoded::Done(v, n) => res matches Ok(r) && r@ == v
                    && buf_contents(*final(buf)) == buf_contents(*old(buf)).skip(n as int),
                Decoded::Fail(e, n) => res matches Err(err) && err@ == e
                    && buf_contents(*final(buf)) == buf_contents(*old(buf)).skip(n as int),
                Decoded::Panic => false,
            },
    {
        let ghost s = buf_contents(*buf);
        proof {
            lemma_puback_variable_header_consumed(s);
            lemma_property_from_buf_consumed(s.skip(3));
        }
        let packet_id = PacketId::new(buf_get_u16(buf));
        let puback_reason_code = match PubAckReasonCode::from_u8(buf_get_u8(buf)) {
            Ok(c) => c,
            Err(e) => {
                proof {
                    assert(false);
                }
                return Err(e);
            },
        };
        assert(buf_contents(*buf) =~= s.skip(3));
        let mut puback_property = match Mqtt5Property::from_buf(buf) {
            Ok(p) => p,
            Err(e) => {
                proof {
                    assert(false);
                }
                return Err(e);
            },
        };
        proof {
            assert(buf_contents(*buf) =~= s.skip(3).skip(
                consumed(spec_property_from_buf(s.skip(3))) as int,
            ));
            assert(buf_contents(*buf) =~= s.skip(3 + consumed(spec_property_from_buf(s.skip(3))) as int));
        }
        match PubAckVariableHeader::check_puback_property(&mut puback_property) {
            Ok(()) => {},
            Err(e) => return Err(e),
        }
        Ok(PubAckVariableHeader { packet_id, puback_reason_code, puback_property })
    }
}

impl PacketCodec<PubAck> for PubAck {
    open spec fn extra_readable(s: Seq<u8>, fixed_header: FixedHeader) -> bool {
        !spec_puback_extra(s, fixed_header).panics()
    }

    fn from_buf_extra(buf: &mut BytesMut, fixed_header: FixedHeader) -> (res: Result<PubAck, Error>)
        ensures
            match spec_puback_extra(buf_contents(*old(buf)), fixed_header) {
                Decoded::Done(v, n) => res matches Ok(r) && r@ == v
                    && buf_contents(*final(buf)) == buf_contents(*old(buf)).skip(n as int)
                    && n <= buf_contents(*old(buf)).len(),
                _ => false,
            },
    {
        proof {
            lemma_puback_variable_header_consumed(buf_contents(*buf));
        }
        let variable_header = match PubAckVariableHeader::from_buf(buf) {
            Ok(v) => v,
            Err(e) => {
                proof {
                    assert(false);
                }
                return Err(e);
            },
        };
        Ok(PubAck { fixed_header, variable_header })
    }
}

impl FromToBuf<PubAck> for PubAck {
    open spec fn writable(&self) -> bool {
        property_writable(self@.1.2) && fixed_header_bytes(self@.0).len() + self@.1.2.property_length + 3
            <= usize::MAX
    }

    open spec fn readable(s: Seq<u8>) -> bool {
        !spec_puback(s).panics()
    }

    /// Writes the fixed header, then the variable header; returns the
    /// lengths the two report, added.
    fn to_buf(&self, buf: &mut Vec<u8>) -> (res: Result<usize, Error>)
        ensures
            res == Ok::<usize, Error>((fixed_header_bytes(self@.0).len() + 3 + self@.1.2.property_length) as usize),
            exists|w: Seq<u8>|
                puback_variable_header_encoding(self@.1, w) && final(buf)@ == old(buf)@ + fixed_header_bytes(self@.0) + w,
    {
        let ghost start = buf@;
        let a = match self.fixed_header.to_buf(buf) {
            Ok(n) => n,
            Err(_) => 0,
        };
        let ghost mid = buf@;
        let b = match self.variable_header.to_buf(buf) {
            Ok(n) => n,
            Err(_) => 0,
        };
        proof {
            let w = choose|w: Seq<u8>| puback_variable_header_encoding(self.variable_header@, w) && buf@ == mid + w;
            assert(buf@ =~= start + fixed_header_bytes(self.fixed_header) + w);
        }
        Ok(a + b)
    }

    /// Reads a PUBACK packet: a fixed header of the right type and flags,
    /// then the variable header.
    fn from_buf(buf: &mut BytesMut) -> (res: Result<PubAck, Error>)
        ensures
            match spec_puback(buf_contents(*old(buf))) {
                Decoded::Done(v, n) => res matches Ok(r) && r@ == v
                    && buf_contents(*final(buf)) == buf_contents(*old(buf)).skip(n as int),
                _ => false,
            },
    {
        let ghost s = buf_contents(*buf);
        let fixed_header = PubAck::decode_fixed_header(buf);
        if fixed_header.packet_type != PacketType::PUBACK || fixed_header.dup || fixed_header.qos != Qos::AtMostOnce
            || fixed_header.retain {
            proof {
                assert(false);
            }
        }
        let ghost rest = buf_contents(*buf);
        let res = PubAck::from_buf_extra(buf, fixed_header);
        proof {
            let n = (s.len() - rest.len()) as nat;
            assert(rest == s.skip(n as int));
            lemma_puback_variable_header_consumed(rest);
            if let Decoded::Done(v, m) = spec_puback_extra(rest, fixed_header) {
                assert(buf_contents(*buf) =~= s.skip((n + m) as int));
            }
        }
        res
    }
}

impl PubAck {
    /// The number of bytes the packet takes.
    pub fn length(&self) -> (n: usize)
        requires
            fixed_header_bytes(self@.0).len() + self@.0.remaining_length <= usize::MAX,
        ensures
            n == fixed_header_bytes(self@.0).len() + self@.0.remaining_length,
    {
        self.fixed_header.length() + self.fixed_header.remaining_length
    }
}

impl Default for PubAckVariableHeader {
    fn default() -> (v: Self)
        ensures
            v@ == (1u16, PubAckReasonCode::UnspecifiedError, empty_property_model()),
    {
        PubAckVariableHeader {
            packet_id: PacketId::default(),
            puback_reason_code: PubAckReasonCode::default(),
            puback_property: Mqtt5Property::default(),
        }
    }
}

impl Default for PubAck {
    fn default() -> (p: Self)
        ensures
            p@ == (
                FixedHeader {
                    packet_type: PacketType::PUBACK,
                    dup: false,
                    qos: Qos::AtMostOnce,
                    retain: false,
                    remaining_length: 4,
                },
                (1u16, PubAckReasonCode::UnspecifiedError, empty_property_model()),
            ),
    {
        let variable_header = PubAckVariableHeader::default();
        proof {
            crate::codec::lemma_varint_encode_len(0);
            reveal_with_fuel(varint_encode, 2);
        }
        let fixed_header = FixedHeader {
            packet_type: PacketType::PUBACK,
            dup: false,
            qos: Qos::AtMostOnce,
            retain: false,
            remaining_length: variable_header.length(),
        };
        PubAck { fixed_header, variable_header }
    }
}

/// The reason codes of a PUBACK packet.
#[derive(Debug, Clone, Copy, PartialEq, Eq, Structural)]
pub enum PubAckReasonCode {
    /// 0[0x00]
    Success,
    /// 16[0x10]
    NoMatchingSubscribers,
    /// 128[0x80]
    UnspecifiedError,
    /// 131[0x83]
    ImplementationSpecificError,
    /// 135[0x87]
    NotAuthorized,
    /// 144[0x90]
    TopicNameInvalid,
    /// 145[0x91]
    PacketIdentifierInUse,
    /// 151[0x97]
    QuotaExceeded,
    /// 153[0x99]
    PayloadFormatInvalid,
}

impl PubAckReasonCode {
    /// The byte that stands for this code.
    pub open spec fn wire_code(self) -> u8 {
        match self {
            PubAckReasonCode::Success => 0,
            PubAckReasonCode::NoMatchingSubscribers => 16,
            PubAckReasonCode::UnspecifiedError => 128,
            PubAckReasonCode::ImplementationSpecificError => 131,
            PubAckReasonCode::NotAuthorized => 135,
            PubAckReasonCode::TopicNameInvalid => 144,
            PubAckReasonCode::PacketIdentifierInUse => 145,
            PubAckReasonCode::QuotaExceeded => 151,
            PubAckReasonCode::PayloadFormatInvalid => 153,
        }
    }

    /// The code a byte stands for, if any.
    pub open spec fn from_wire(byte: u8) -> Option<PubAckReasonCode> {
        if byte == 0 {
            Some(PubAckReasonCode::Success)
        } else if byte == 16 {
            Some(PubAckReasonCode::NoMatchingSubscribers)
        } else if byte == 128 {
            Some(PubAckReasonCode::UnspecifiedError)
        } else if byte == 131 {
            Some(PubAckReasonCode::ImplementationSpecificError)
        } else if byte == 135 {
            Some(PubAckReasonCode::NotAuthorized)
        } else if byte == 144 {
            Some(PubAckReasonCode::TopicNameInvalid)
        } else if byte == 145 {
            Some(PubAckReasonCode::PacketIdentifierInUse)
        } else if byte == 151 {
            Some(PubAckReasonCode::QuotaExceeded)
        } else if byte == 153 {
            Some(PubAckReasonCode::PayloadFormatInvalid)
        } else {
            None
        }
    }

    /// A byte stands for a code exactly when it is that code's byte.
    pub proof fn lemma_wire_code(self, byte: u8)
        ensures
            PubAckReasonCode::from_wire(byte) == Some(self) <==> self.wire_code() == byte,
    {
    }
}

impl Default for PubAckReasonCode {
    fn default() -> (c: Self)
        ensures
            c == PubAckReasonCode::UnspecifiedError,
    {
        PubAckReasonCode::UnspecifiedError
    }
}

impl FromToU8<PubAckReasonCode> for PubAckReasonCode {
    fn to_u8(&self) -> (b: u8)
        ensures
            b == self.wire_code(),
    {
        match *self {
            PubAckReasonCode::Success => 0,
            PubAckReasonCode::NoMatchingSubscribers => 16,
            PubAckReasonCode::UnspecifiedError => 128,
            PubAckReasonCode::ImplementationSpecificError => 131,
            PubAckReasonCode::NotAuthorized => 135,
            PubAckReasonCode::TopicNameInvalid => 144,
            PubAckReasonCode::PacketIdentifierInUse => 145,
            PubAckReasonCode::QuotaExceeded => 151,
            PubAckReasonCode::PayloadFormatInvalid => 153,
        }
    }

    fn from_u8(byte: u8) -> (res: Result<PubAckReasonCode, Error>)
        ensures
            match PubAckReasonCode::from_wire(byte) {
                Some(c) => res == Ok::<PubAckReasonCode, Error>(c),
                None => res == Err::<PubAckReasonCode, Error>(Error::InvalidReasonCode(byte)),
            },
    {
        match byte {
            0 => Ok(PubAckReasonCode::Success),
            16 => Ok(PubAckReasonCode::NoMatchingSubscribers),
            128 => Ok(PubAckReasonCode::UnspecifiedError),
            131 => Ok(PubAckReasonCode::ImplementationSpecificError),
            135 => Ok(PubAckReasonCode::NotAuthorized),
            144 => Ok(PubAckReasonCode::TopicNameInvalid),
            145 => Ok(PubAckReasonCode::PacketIdentifierInUse),
            151 => Ok(PubAckReasonCode::QuotaExceeded),
            153 => Ok(PubAckReasonCode::PayloadFormatInvalid),
            n => Err(Error::InvalidReasonCode(n)),
        }
    }
}

} // verus!
