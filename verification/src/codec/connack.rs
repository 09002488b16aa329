//! The CONNACK packet: acknowledgement flags, a reason code and properties.
use vstd::prelude::*;
use bytes::BytesMut;
use crate::codec::buffer::{buf_contents, buf_get_u8};
use crate::codec::connect::ConnectReasonCode;
use crate::codec::check::{keys_allowed, keys_within};
use crate::codec::error::{Decoded, Error, ErrorModel};
use crate::codec::fixed_header::{default_fixed_header, fixed_header_bytes, spec_fixed_header, FixedHeader};
use crate::codec::packet::{PacketCodec, PacketType};
use crate::codec::property::{consumed, empty_property_model, lemma_property_from_buf_consumed, spec_property_from_buf, Mqtt5Property, Mqtt5PropertyModel};
use crate::codec::property_encode::{property_encoding, property_writable};
use crate::codec::publish::Qos;
use crate::codec::{varint_encode, FromToBuf, FromToU8};

verus! {

/// A CONNACK packet.
#[derive(Debug, Clone, PartialEq)]
pub struct ConnAck {
    pub fixed_header: FixedHeader,
    pub variable_header: ConnAckVariableHeader,
}

/// The variable header of a CONNACK packet.
#[derive(Debug, Clone, PartialEq)]
pub struct ConnAckVariableHeader {
    pub connack_flags: ConnAckFlags,
    pub connect_reason_code: ConnectReasonCode,
    pub connack_property: Mqtt5Property,
}

impl View for ConnAckVariableHeader {
    type V = (bool, ConnectReasonCode, Mqtt5PropertyModel);

    closed spec fn view(&self) -> (bool, ConnectReasonCode, Mqtt5PropertyModel) {
        (self.connack_flags.session_present, self.connect_reason_code, self.connack_property@)
    }
}

impl View for ConnAck {
    type V = (FixedHeader, (bool, ConnectReasonCode, Mqtt5PropertyModel));

    closed spec fn view(&self) -> (FixedHeader, (bool, ConnectReasonCode, Mqtt5PropertyModel)) {
        (self.fixed_header, self.variable_header@)
    }
}

/// The property identifiers a CONNACK packet may carry.
pub open spec fn connack_property_ids() -> Seq<u32> {
    seq![0x11u32, 0x12u32, 0x13u32, 0x15u32, 0x16u32, 0x1Au32, 0x1Cu32, 0x1Fu32, 0x21u32, 0x22u32, 0x24u32, 0x25u32, 0x26u32, 0x27u32, 0x28u32, 0x29u32, 0x2Au32]
}

/// Decoding the variable header of a CONNACK packet from the front of `s`.
pub open spec fn spec_connack_variable_header(s: Seq<u8>) -> Decoded<(bool, ConnectReasonCode, Mqtt5PropertyModel)> {
    if s.len() < 1 || s[0] > 1 || s.len() < 2 {
        Decoded::Panic
    } else {
        match ConnectReasonCode::from_wire(s[1]) {
            None => Decoded::Panic,
            Some(code) => match spec_property_from_buf(s.skip(2)) {
                Decoded::Done(p, n) => if keys_within(p.properties, connack_property_ids()) {
                    Decoded::Done((s[0] == 1, code, p), 2 + n)
                } else {
                    Decoded::Fail(ErrorModel::InvalidPropertyType("ConnAck Properties contains a invalid property"@), 2 + n)
                },
                _ => Decoded::Panic,
            },
        }
    }
}

/// Decoding the variable header takes no more bytes than there are.
pub proof fn lemma_connack_variable_header_consumed(s: Seq<u8>)
    ensures
        match spec_connack_variable_header(s) {
            Decoded::Done(_, n) => n <= s.len(),
            Decoded::Fail(_, n) => n <= s.len(),
            Decoded::Panic => true,
        },
{
    if s.len() >= 2 {
        lemma_property_from_buf_consumed(s.skip(2));
    }
}

/// Decoding the rest of a CONNACK packet after its fixed header `h`.
pub open spec fn spec_connack_extra(s: Seq<u8>, h: FixedHeader) -> Decoded<(FixedHeader, (bool, ConnectReasonCode, Mqtt5PropertyModel))> {
    match spec_connack_variable_header(s) {
        Decoded::Done(v, n) => Decoded::Done((h, v), n),
        _ => Decoded::Panic,
    }
}

/// Decoding a CONNACK packet from the front of `s`.
pub open spec fn spec_connack(s: Seq<u8>) -> Decoded<(FixedHeader, (bool, ConnectReasonCode, Mqtt5PropertyModel))> {
    match spec_fixed_header(s) {
        Decoded::Done(h, n) => if h.packet_type != PacketType::CONNACK || h.dup || h.qos != Qos::AtMostOnce || h.retain {
            Decoded::Panic
        } else {
            spec_connack_extra(s.skip(n as int), h).shifted(n)
        },
        _ => Decoded::Panic,
    }
}

/// `w` is how the variable header `v` is written.
pub open spec fn connack_variable_header_encoding(v: (bool, ConnectReasonCode, Mqtt5PropertyModel), w: Seq<u8>) -> bool {
    exists|pw: Seq<u8>| property_encoding(v.2, pw) && w == seq![if v.0 { 1u8 } else { 0u8 }] + seq![v.1.wire_code()] + pw
}

impl ConnAckVariableHeader {
    fn check_connack_property(connack_property: &mut Mqtt5Property) -> (res: Result<(), Error>)
        ensures
            *final(connack_property) == *old(connack_property),
            res is Ok <==> keys_within(old(connack_property)@.properties, connack_property_ids()),
            res matches Err(e) ==> e@ == ErrorModel::InvalidPropertyType("ConnAck Properties contains a invalid property"@),
    {
        let allowed: [u32; 17] = [
            0x11, 0x12, 0x13, 0x15, 0x16, 0x1A, 0x1C, 0x1F, 0x21, 0x22, 0x24, 0x25, 0x26, 0x27, 0x28, 0x29, 0x2A,
        ];
        assert(allowed@ == connack_property_ids());
        if keys_allowed(&connack_property.properties, &allowed) {
            Ok(())
        } else {
            Err(Error::InvalidPropertyType("ConnAck Properties contains a invalid property".to_string()))
        }
    }

    /// The number of bytes the variable header takes.
    pub fn length(&self) -> (n: usize)
        requires
            varint_encode(self@.2.property_length as nat).len() + self@.2.property_length + 2 <= usize::MAX,
        ensures
            n == 2 + varint_encode(self@.2.property_length as nat).len() + self@.2.property_length,
    {
        2 + self.connack_property.length()
    }
}

impl FromToBuf<ConnAckVariableHeader> for ConnAckVariableHeader {
    open spec fn writable(&self) -> bool {
        property_writable(self@.2) && self@.2.property_length + 2 <= usize::MAX
    }

    open spec fn readable(s: Seq<u8>) -> bool {
        !spec_connack_variable_header(s).panics()
    }

    /// Writes the packet identifier, the reason code and the properties;
    /// returns 3 plus the declared property length.
    fn to_buf(&self, buf: &mut Vec<u8>) -> (res: Result<usize, Error>)
        ensures
            res == Ok::<usize, Error>((2 + self@.2.property_length) as usize),
            exists|w: Seq<u8>| connack_variable_header_encoding(self@, w) && final(buf)@ == old(buf)@ + w,
    {
        let ghost start = buf@;
        let mut len = self.connack_flags.to_buf(buf);
        buf.push(self.connect_reason_code.to_u8());
        len = len + 1;
        let ghost mid = buf@;
        let n = match self.connack_property.to_buf(buf) {
            Ok(n) => n,
            Err(_) => 0,
        };
        len = len + n;
        proof {
            let pw = choose|pw: Seq<u8>| property_encoding(self.connack_property@, pw) && buf@ == mid + pw;
            let w = seq![if self.connack_flags.session_present { 1u8 } else { 0u8 }] + seq![
                self.connect_reason_code.wire_code(),
            ] + pw;
            assert(buf@ =~= start + w);
            assert(connack_variable_header_encoding(self@, w));
        }
        Ok(len)
    }

    fn from_buf(buf: &mut BytesMut) -> (res: Result<ConnAckVariableHeader, Error>)
        ensures
            match spec_connack_variable_header(buf_contents(*old(buf))) {
                Decoded::Done(v, n) => res matches Ok(r) && r@ == v
                    && buf_contents(*final(buf)) == buf_contents(*old(buf)).skip(n as int),
                Decoded::Fail(e, n) => res matches Err(err) && err@ == e
                    && buf_contents(*final(buf)) == buf_contents(*old(buf)).skip(n as int),
                Decoded::Panic => false,
            },
    {
        let ghost s = buf_contents(*buf);
        proof {
            lemma_connack_variable_header_consumed(s);
            lemma_property_from_buf_consumed(s.skip(2));
        }
        let connack_flags = match ConnAckFlags::from_buf(buf) {
            Ok(f) => f,
            Err(e) => {
                proof {
                    assert(false);
                }
                return Err(e);
            },
        };
        let connect_reason_code = match ConnectReasonCode::from_u8(buf_get_u8(buf)) {
            Ok(c) => c,
            Err(e) => {
                proof {
                    assert(false);
                }
                return Err(e);
            },
        };
        assert(buf_contents(*buf) =~= s.skip(2));
        let mut connack_property = match Mqtt5Property::from_buf(buf) {
            Ok(p) => p,
            Err(e) => {
                proof {
                    assert(false);
                }
                return Err(e);
            },
        };
        proof {
            assert(buf_contents(*buf) =~= s.skip(2).skip(
                consumed(spec_property_from_buf(s.skip(2))) as int,
            ));
            assert(buf_contents(*buf) =~= s.skip(2 + consumed(spec_property_from_buf(s.skip(2))) as int));
        }
        match ConnAckVariableHeader::check_connack_property(&mut connack_property) {
            Ok(()) => {},
            Err(e) => return Err(e),
        }
        Ok(ConnAckVariableHeader { connack_flags, connect_reason_code, connack_property })
    }
}

impl PacketCodec<ConnAck> for ConnAck {
    open spec fn extra_readable(s: Seq<u8>, fixed_header: FixedHeader) -> bool {
        !spec_connack_extra(s, fixed_header).panics()
    }

    fn from_buf_extra(buf: &mut BytesMut, fixed_header: FixedHeader) -> (res: Result<ConnAck, Error>)
        ensures
            match spec_connack_extra(buf_contents(*old(buf)), fixed_header) {
                Decoded::Done(v, n) => res matches Ok(r) && r@ == v
                    && buf_contents(*final(buf)) == buf_contents(*old(buf)).skip(n as int)
                    && n <= buf_contents(*old(buf)).len(),
                _ => false,
            },
    {
        proof {
            lemma_connack_variable_header_consumed(buf_contents(*buf));
        }
        let variable_header = match ConnAckVariableHeader::from_buf(buf) {
            Ok(v) => v,
            Err(e) => {
                proof {
                    assert(false);
                }
                return Err(e);
            },
        };
        Ok(ConnAck { fixed_header, variable_header })
    }
}

impl FromToBuf<ConnAck> for ConnAck {
    open spec fn writable(&self) -> bool {
        property_writable(self@.1.2) && fixed_header_bytes(self@.0).len() + self@.1.2.property_length + 2
            <= usize::MAX
    }

    open spec fn readable(s: Seq<u8>) -> bool {
        !spec_connack(s).panics()
    }

    /// Writes the fixed header, then the variable header; returns the
    /// lengths the two report, added.
    fn to_buf(&self, buf: &mut Vec<u8>) -> (res: Result<usize, Error>)
        ensures
            res == Ok::<usize, Error>((fixed_header_bytes(self@.0).len() + 2 + self@.1.2.property_length) as usize),
            exists|w: Seq<u8>|
                connack_variable_header_encoding(self@.1, w) && final(buf)@ == old(buf)@ + fixed_header_bytes(self@.0) + w,
    {
        let ghost start = buf@;
        let a = match self.fixed_header.to_buf(buf) {
            Ok(n) => n,
            Err(_) => 0,
        };
        let ghost mid = buf@;
        let b = match self.variable_header.to_buf(buf) {
            Ok(n) => n,
            Err(_) => 0,
        };
        proof {
            let w = choose|w: Seq<u8>| connack_variable_header_encoding(self.variable_header@, w) && buf@ == mid + w;
            assert(buf@ =~= start + fixed_header_bytes(self.fixed_header) + w);
        }
        Ok(a + b)
    }

    /// Reads a CONNACK packet: a fixed header of the right type and flags,
    /// then the variable header.
    fn from_buf(buf: &mut BytesMut) -> (res: Result<ConnAck, Error>)
        ensures
            match spec_connack(buf_contents(*old(buf))) {
                Decoded::Done(v, n) => res matches Ok(r) && r@ == v
                    && buf_contents(*final(buf)) == buf_contents(*old(buf)).skip(n as int),
                _ => false,
            },
    {
        let ghost s = buf_contents(*buf);
        let fixed_header = ConnAck::decode_fixed_header(buf);
        if fixed_header.packet_type != PacketType::CONNACK || fixed_header.dup || fixed_header.qos != Qos::AtMostOnce
            || fixed_header.retain {
            proof {
                assert(false);
            }
        }
        let ghost rest = buf_contents(*buf);
        let res = ConnAck::from_buf_extra(buf, fixed_header);
        proof {
            let n = (s.len() - rest.len()) as nat;
            assert(rest == s.skip(n as int));
            lemma_connack_variable_header_consumed(rest);
            if let Decoded::Done(v, m) = spec_connack_extra(rest, fixed_header) {
                assert(buf_contents(*buf) =~= s.skip((n + m) as int));
            }
        }
        res
    }
}

impl ConnAck {
    /// The number of bytes the packet takes.
    pub fn length(&self) -> (n: usize)
        requires
            fixed_header_bytes(self@.0).len() + self@.0.remaining_length <= usize::MAX,
        ensures
            n == fixed_header_bytes(self@.0).len() + self@.0.remaining_length,
    {
        self.fixed_header.length() + self.fixed_header.remaining_length
    }
}

impl Default for ConnAckVariableHeader {
    fn default() -> (v: Self)
        ensures
            v@ == (false, ConnectReasonCode::Success, empty_property_model()),
    {
        ConnAckVariableHeader {
            connack_flags: ConnAckFlags::default(),
            connect_reason_code: ConnectReasonCode::default(),
            connack_property: Mqtt5Property::default(),
        }
    }
}

impl Default for ConnAck {
    fn default() -> (p: Self)
        ensures
            p@ == (
                FixedHeader {
                    packet_type: PacketType::CONNACK,
                    dup: false,
                    qos: Qos::AtMostOnce,
                    retain: false,
                    remaining_length: 3,
                },
                (false, ConnectReasonCode::Success, empty_property_model()),
            ),
    {
        let variable_header = ConnAckVariableHeader::default();
        proof {
            crate::codec::lemma_varint_encode_len(0);
            reveal_with_fuel(varint_encode, 2);
        }
        let fixed_header = FixedHeader {
            packet_type: PacketType::CONNACK,
            dup: false,
            qos: Qos::AtMostOnce,
            retain: false,
            remaining_length: variable_header.length(),
        };
        ConnAck { fixed_header, variable_header }
    }
}


/// The acknowledgement flags of a CONNACK packet.
#[derive(Debug, Clone, PartialEq, Eq)]
pub struct ConnAckFlags {
    pub session_present: bool,
}

impl Default for ConnAckFlags {
    fn default() -> (f: Self)
        ensures
            f.session_present == false,
    {
        ConnAckFlags { session_present: false }
    }
}

impl ConnAckFlags {
    /// Writes the flags byte; returns 1.
    pub fn to_buf(&self, buf: &mut Vec<u8>) -> (n: usize)
        ensures
            final(buf)@ == old(buf)@ + seq![if self.session_present { 1u8 } else { 0u8 }],
            n == 1,
    {
        if self.session_present {
            buf.push(1);
        } else {
            buf.push(0);
        }
        1
    }

    /// Reads the flags byte: 0 or 1, anything else is malformed.
    pub fn from_buf(buf: &mut BytesMut) -> (res: Result<ConnAckFlags, Error>)
        requires
            buf_contents(*old(buf)).len() >= 1,
        ensures
            buf_contents(*final(buf)) == buf_contents(*old(buf)).skip(1),
            buf_contents(*old(buf))[0] > 1 ==> res == Err::<ConnAckFlags, Error>(Error::MalformedPacket),
            buf_contents(*old(buf))[0] <= 1 ==> (res matches Ok(f) && f.session_present == (buf_contents(*old(buf))[0] == 1)),
    {
        let conn_ack_flags = buf_get_u8(buf);
        if conn_ack_flags > 1 {
            return Err(Error::MalformedPacket);
        }
        let mut session_present = false;
        if conn_ack_flags == 1 {
            session_present = true;
        }
        Ok(ConnAckFlags { session_present })
    }

    /// The number of bytes the flags take.
    pub fn length(&self) -> (n: usize)
        ensures
            n == 1,
    {
        1
    }
}

} // verus!
