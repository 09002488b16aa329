//! The PUBCOMP packet: a packet identifier, a reason code and properties.
use vstd::prelude::*;
use bytes::BytesMut;
use crate::codec::buffer::{be_u16_at, buf_contents, buf_get_u16, buf_get_u8};
use crate::codec::check::{keys_allowed, keys_within};
use crate::codec::error::{Decoded, Error, ErrorModel};
use crate::codec::fixed_header::{default_fixed_header, fixed_header_bytes, spec_fixed_header, FixedHeader};
use crate::codec::packet::{PacketCodec, PacketId, PacketType};
use crate::codec::property::{consumed, empty_property_model, lemma_property_from_buf_consumed, spec_property_from_buf, Mqtt5Property, Mqtt5PropertyModel};
use crate::codec::property_encode::{property_encoding, property_writable};
use crate::codec::publish::Qos;
use crate::codec::{be16, varint_encode, FromToBuf, FromToU8};

verus! {

/// A PUBCOMP packet.
#[derive(Debug, Clone, PartialEq)]
pub struct PubComp {
    fixed_header: FixedHeader,
    variable_header: PubCompVariableHeader,
}

/// The variable header of a PUBCOMP packet.
#[derive(Debug, Clone, PartialEq)]
pub struct PubCompVariableHeader {
    packet_id: PacketId,
    pubcomp_reason_code: PubCompReasonCode,
    pubcomp_property: Mqtt5Property,
}

impl View for PubCompVariableHeader {
    type V = (u16, PubCompReasonCode, Mqtt5PropertyModel);

    closed spec fn view(&self) -> (u16, PubCompReasonCode, Mqtt5PropertyModel) {
        (self.packet_id@, self.pubcomp_reason_code, self.pubcomp_property@)
    }
}

impl View for PubComp {
    type V = (FixedHeader, (u16, PubCompReasonCode, Mqtt5PropertyModel));

    closed spec fn view(&self) -> (FixedHeader, (u16, PubCompReasonCode, Mqtt5PropertyModel)) {
        (self.fixed_header, self.variable_header@)
    }
}

/// The property identifiers a PUBCOMP packet may carry.
pub open spec fn pubcomp_property_ids() -> Seq<u32> {
    seq![0x1Fu32, 0x26u32]
}

/// Decoding the variable header of a PUBCOMP packet from the front of `s`.
pub open spec fn spec_pubcomp_variable_header(s: Seq<u8>) -> Decoded<(u16, PubCompReasonCode, Mqtt5PropertyModel)> {
    if s.len() < 2 || be_u16_at(s, 0) == 0 || s.len() < 3 {
        Decoded::Panic
    } else {
        match PubCompReasonCode::from_wire(s[2]) {
            None => Decoded::Panic,
            Some(code) => match spec_property_from_buf(s.skip(3)) {
                Decoded::Done(p, n) => if keys_within(p.properties, pubcomp_property_ids()) {
                    Decoded::Done((be_u16_at(s, 0), code, p), 3 + n)
                } else {
                    Decoded::Fail(ErrorModel::InvalidPropertyType("PubComp Properties contains a invalid property"@), 3 + n)
                },
                _ => Decoded::Panic,
            },
        }
    }
}

/// Decoding the variable header takes no more bytes than there are.
pub proof fn lemma_pubcomp_variable_header_consumed(s: Seq<u8>)
    ensures
        match spec_pubcomp_variable_header(s) {
            Decoded::Done(_, n) => n <= s.len(),
            Decoded::Fail(_, n) => n <= s.len(),
            Decoded::Panic => true,
        },
{
    if s.len() >= 3 {
        lemma_property_from_buf_consumed(s.skip(3));
    }
}

/// Decoding the rest of a PUBCOMP packet after its fixed header `h`.
pub open spec fn spec_pubcomp_extra(s: Seq<u8>, h: FixedHeader) -> Decoded<(FixedHeader, (u16, PubCompReasonCode, Mqtt5PropertyModel))> {
    match spec_pubcomp_variable_header(s) {
        Decoded::Done(v, n) => Decoded::Done((h, v), n),
        _ => Decoded::Panic,
    }
}

/// Decoding a PUBCOMP packet from the front of `s`.
pub open spec fn spec_pubcomp(s: Seq<u8>) -> Decoded<(FixedHeader, (u16, PubCompReasonCode, Mqtt5PropertyModel))> {
    match spec_fixed_header(s) {
        Decoded::Done(h, n) => if h.packet_type != PacketType::PUBCOMP || h.dup || h.qos != Qos::AtMostOnce || h.retain {
            Decoded::Panic
        } else {
            spec_pubcomp_extra(s.skip(n as int), h).shifted(n)
        },
        _ => Decoded::Panic,
    }
}

/// `w` is how the variable header `v` is written.
pub open spec fn pubcomp_variable_header_encoding(v: (u16, PubCompReasonCode, Mqtt5PropertyModel), w: Seq<u8>) -> bool {
    exists|pw: Seq<u8>| property_encoding(v.2, pw) && w == be16(v.0) + seq![v.1.wire_code()] + pw
}

impl PubCompVariableHeader {
    fn check_pubcomp_property(pubcomp_property: &mut Mqtt5Property) -> (res: Result<(), Error>)
        ensures
            *final(pubcomp_property) == *old(pubcomp_property),
            res is Ok <==> keys_within(old(pubcomp_property)@.properties, pubcomp_property_ids()),
            res matches Err(e) ==> e@ == ErrorModel::InvalidPropertyType("PubComp Properties contains a invalid property"@),
    {
        let allowed: [u32; 2] = [0x1F, 0x26];
        assert(allowed@ == pubcomp_property_ids());
        if keys_allowed(&pubcomp_property.properties, &allowed) {
            Ok(())
        } else {
            Err(Error::InvalidPropertyType("PubComp Properties contains a invalid property".to_string()))
        }
    }
}

impl FromToBuf<PubCompVariableHeader> for PubCompVariableHeader {
    open spec fn writable(&self) -> bool {
        property_writable(self@.2) && self@.2.property_length + 3 <= usize::MAX
    }

    open spec fn readable(s: Seq<u8>) -> bool {
        !spec_pubcomp_variable_header(s).panics()
    }

    /// Writes the packet identifier, the reason code and the properties;
    /// returns 3 plus the declared property length.
    fn to_buf(&self, buf: &mut Vec<u8>) -> (res: Result<usize, Error>)
        ensures
            res == Ok::<usize, Error>((3 + self@.2.property_length) as usize),
            exists|w: Seq<u8>| pubcomp_variable_header_encoding(self@, w) && final(buf)@ == old(buf)@ + w,
    {
        let ghost start = buf@;
        let mut len = self.packet_id.to_buf(buf);
        buf.push(self.pubcomp_reason_code.to_u8());
        len = len + 1;
        let ghost mid = buf@;
        let n = match self.pubcomp_property.to_buf(buf) {
            Ok(n) => n,
            Err(_) => 0,
        };
        len = len + n;
        proof {
            let pw = choose|pw: Seq<u8>| property_encoding(self.pubcomp_property@, pw) && buf@ == mid + pw;
            let w = be16(self.packet_id@) + seq![self.pubcomp_reason_code.wire_code()] + pw;
            assert(buf@ =~= start + w);
            assert(pubcomp_variable_header_encoding(self@, w));
        }
        Ok(len)
    }

    fn from_buf(buf: &mut BytesMut) -> (res: Result<PubCompVariableHeader, Error>)
        ensures
            match spec_pubcomp_variable_header(buf_contents(*old(buf))) {
                Decoded::Done(v, n) => res matches Ok(r) && r@ == v
                    && buf_contents(*final(buf)) == buf_contents(*old(buf)).skip(n as int),
                Decoded::Fail(e, n) => res matches Err(err) && err@ == e
                    && buf_contents(*final(buf)) == buf_contents(*old(buf)).skip(n as int),
                Decoded::Panic => false,
            },
    {
        let ghost s = buf_contents(*buf);
        proof {
            lemma_pubcomp_variable_header_consumed(s);
            lemma_property_from_buf_consumed(s.skip(3));
        }
        let packet_id = PacketId::new(buf_get_u16(buf));
        let pubcomp_reason_code = match PubCompReasonCode::from_u8(buf_get_u8(buf)) {
            Ok(c) => c,
            Err(e) => {
                proof {
                    assert(false);
                }
                return Err(e);
            },
        };
        assert(buf_contents(*buf) =~= s.skip(3));
        let mut pubcomp_property = match Mqtt5Property::from_buf(buf) {
            Ok(p) => p,
            Err(e) => {
                proof {
                    assert(false);
                }
                return Err(e);
            },
        };
        proof {
            assert(buf_contents(*buf) =~= s.skip(3).skip(
                consumed(spec_property_from_buf(s.skip(3))) as int,
            ));
            assert(buf_contents(*buf) =~= s.skip(3 + consumed(spec_property_from_buf(s.skip(3))) as int));
        }
        match PubCompVariableHeader::check_pubcomp_property(&mut pubcomp_property) {
            Ok(()) => {},
            Err(e) => return Err(e),
        }
        Ok(PubCompVariableHeader { packet_id, pubcomp_reason_code, pubcomp_property })
    }
}

impl PacketCodec<PubComp> for PubComp {
    open spec fn extra_readable(s: Seq<u8>, fixed_header: FixedHeader) -> bool {
        !spec_pubcomp_extra(s, fixed_header).panics()
    }

    fn from_buf_extra(buf: &mut BytesMut, fixed_header: FixedHeader) -> (res: Result<PubComp, Error>)
        ensures
            match spec_pubcomp_extra(buf_contents(*old(buf)), fixed_header) {
                Decoded::Done(v, n) => res matches Ok(r) && r@ == v
                    && buf_contents(*final(buf)) == buf_contents(*old(buf)).skip(n as int)
                    && n <= buf_contents(*old(buf)).len(),
                _ => false,
            },
    {
        proof {
            lemma_pubcomp_variable_header_consumed(buf_contents(*buf));
        }
        let variable_header = match PubCompVariableHeader::from_buf(buf) {
            Ok(v) => v,
            Err(e) => {
                proof {
                    assert(false);
                }
                return Err(e);
            },
        };
        Ok(PubComp { fixed_header, variable_header })
    }
}

impl FromToBuf<PubComp> for PubComp {
    open spec fn writable(&self) -> bool {
        property_writable(self@.1.2) && fixed_header_bytes(self@.0).len() + self@.1.2.property_length + 3
            <= usize::MAX
    }

    open spec fn readable(s: Seq<u8>) -> bool {
        !spec_pubcomp(s).panics()
    }

    /// Writes the fixed header, then the variable header; returns the
    /// lengths the two report, added.
    fn to_buf(&self, buf: &mut Vec<u8>) -> (res: Result<usize, Error>)
        ensures
            res == Ok::<usize, Error>((fixed_header_bytes(self@.0).len() + 3 + self@.1.2.property_length) as usize),
            exists|w: Seq<u8>|
                pubcomp_variable_header_encoding(self@.1, w) && final(buf)@ == old(buf)@ + fixed_header_bytes(self@.0) + w,
    {
        let ghost start = buf@;
        let a = match self.fixed_header.to_buf(buf) {
            Ok(n) => n,
            Err(_) => 0,
        };
        let ghost mid = buf@;
        let b = match self.variable_header.to_buf(buf) {
            Ok(n) => n,
            Err(_) => 0,
        };
        proof {
            let w = choose|w: Seq<u8>| pubcomp_variable_header_encoding(self.variable_header@, w) && buf@ == mid + w;
            assert(buf@ =~= start + fixed_header_bytes(self.fixed_header) + w);
        }
        Ok(a + b)
    }

    /// Reads a PUBCOMP packet: a fixed header of the right type and flags,
    /// then the variable header.
    fn from_buf(buf: &mut BytesMut) -> (res: Result<PubComp, Error>)
        ensures
            match spec_pubcomp(buf_contents(*old(buf))) {
                Decoded::Done(v, n) => res matches Ok(r) && r@ == v
                    && buf_contents(*final(buf)) == buf_contents(*old(buf)).skip(n as int),
                _ => false,
            },
    {
        let ghost s = buf_contents(*buf);
        let fixed_header = PubComp::decode_fixed_header(buf);
        if fixed_header.packet_type != PacketType::PUBCOMP || fixed_header.dup || fixed_header.qos != Qos::AtMostOnce
            || fixed_header.retain {
            proof {
                assert(false);
            }
        }
        let ghost rest = buf_contents(*buf);
        let res = PubComp::from_buf_extra(buf, fixed_header);
        proof {
            let n = (s.len() - rest.len()) as nat;
            assert(rest == s.skip(n as int));
            lemma_pubcomp_variable_header_consumed(rest);
            if let Decoded::Done(v, m) = spec_pubcomp_extra(rest, fixed_header) {
                assert(buf_contents(*buf) =~= s.skip((n + m) as int));
            }
        }
        res
    }
}

/// The reason codes of a PUBCOMP packet.
#[derive(Debug, Clone, Copy, PartialEq, Eq, Structural)]
pub enum PubCompReasonCode {
    /// 0[0x00]
    Success,
    /// 146[0x92]
    PacketIdentifierNotFound,
}

impl PubCompReasonCode {
    /// The byte that stands for this code.
    pub open spec fn wire_code(self) -> u8 {
        match self {
            PubCompReasonCode::Success => 0,
            PubCompReasonCode::PacketIdentifierNotFound => 146,
        }
    }

    /// The code a byte stands for, if any.
    pub open spec fn from_wire(byte: u8) -> Option<PubCompReasonCode> {
        if byte == 0 {
            Some(PubCompReasonCode::Success)
        } else if byte == 146 {
            Some(PubCompReasonCode::PacketIdentifierNotFound)
        } else {
            None
        }
    }

    /// A byte stands for a code exactly when it is that code's byte.
    pub proof fn lemma_wire_code(self, byte: u8)
        ensures
            PubCompReasonCode::from_wire(byte) == Some(self) <==> self.wire_code() == byte,
    {
    }
}

impl FromToU8<PubCompReasonCode> for PubCompReasonCode {
    fn to_u8(&self) -> (b: u8)
        ensures
            b == self.wire_code(),
    {
        match *self {
            PubCompReasonCode::Success => 0,
            PubCompReasonCode::PacketIdentifierNotFound => 146,
        }
    }

    fn from_u8(byte: u8) -> (res: Result<PubCompReasonCode, Error>)
        ensures
            match PubCompReasonCode::from_wire(byte) {
                Some(c) => res == Ok::<PubCompReasonCode, Error>(c),
                None => res == Err::<PubCompReasonCode, Error>(Error::InvalidReasonCode(byte)),
            },
    {
        match byte {
            0 => Ok(PubCompReasonCode::Success),
            146 => Ok(PubCompReasonCode::PacketIdentifierNotFound),
            n => Err(Error::InvalidReasonCode(n)),
        }
    }
}

} // verus!
