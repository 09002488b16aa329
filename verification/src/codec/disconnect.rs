//! The DISCONNECT packet: a reason code and properties.
use vstd::prelude::*;
use bytes::BytesMut;
use crate::codec::buffer::{buf_contents, buf_get_u8};
use crate::codec::check::{keys_allowed, keys_within};
use crate::codec::error::{Decoded, Error, ErrorModel};
use crate::codec::fixed_header::{fixed_header_bytes, spec_fixed_header, FixedHeader};
use crate::codec::packet::{PacketCodec, PacketType};
use crate::codec::property::{consumed, empty_property_model, lemma_property_from_buf_consumed, spec_property_from_buf, Mqtt5Property, Mqtt5PropertyModel};
use crate::codec::property_encode::{property_encoding, property_writable};
use crate::codec::publish::Qos;
use crate::codec::{varint_encode, FromToBuf, FromToU8};

verus! {

/// A DISCONNECT packet.
#[derive(Debug, Clone, PartialEq)]
pub struct Disconnect {
    fixed_header: FixedHeader,
    variable_header: DisconnectVariableHeader,
}

/// The variable header of a DISCONNECT packet.
#[derive(Debug, Clone, PartialEq)]
pub struct DisconnectVariableHeader {
    reason_code: DisconnectReasonCode,
    disconnect_property: Mqtt5Property,
}

impl View for DisconnectVariableHeader {
    type V = (DisconnectReasonCode, Mqtt5PropertyModel);

    closed spec fn view(&self) -> (DisconnectReasonCode, Mqtt5PropertyModel) {
        (self.reason_code, self.disconnect_property@)
    }
}

impl View for Disconnect {
    type V = (FixedHeader, (DisconnectReasonCode, Mqtt5PropertyModel));

    closed spec fn view(&self) -> (FixedHeader, (DisconnectReasonCode, Mqtt5PropertyModel)) {
        (self.fixed_header, self.variable_header@)
    }
}

/// The property identifiers a DISCONNECT packet may carry.
pub open spec fn disconnect_property_ids() -> Seq<u32> {
    seq![0x11u32, 0x1Cu32, 0x1Fu32, 0x26u32]
}

/// Decoding the variable header of a DISCONNECT packet from the front of `s`.
pub open spec fn spec_disconnect_variable_header(s: Seq<u8>) -> Decoded<(DisconnectReasonCode, Mqtt5PropertyModel)> {
    if s.len() < 1 {
        Decoded::Panic
    } else {
        match DisconnectReasonCode::from_wire(s[0]) {
            None => Decoded::Panic,
            Some(code) => match spec_property_from_buf(s.skip(1)) {
                Decoded::Done(p, n) => if keys_within(p.properties, disconnect_property_ids()) {
                    Decoded::Done((code, p), 1 + n)
                } else {
                    Decoded::Fail(ErrorModel::InvalidPropertyType("Disconnect Properties contains a invalid property"@), 1 + n)
                },
                _ => Decoded::Panic,
            },
        }
    }
}

/// Decoding the variable header takes no more bytes than there are.
pub proof fn lemma_disconnect_variable_header_consumed(s: Seq<u8>)
    ensures
        match spec_disconnect_variable_header(s) {
            Decoded::Done(_, n) => n <= s.len(),
            Decoded::Fail(_, n) => n <= s.len(),
            Decoded::Panic => true,
        },
{
    if s.len() >= 1 {
        lemma_property_from_buf_consumed(s.skip(1));
    }
}

/// Decoding the rest of a DISCONNECT packet after its fixed header `h`.
pub open spec fn spec_disconnect_extra(s: Seq<u8>, h: FixedHeader) -> Decoded<(FixedHeader, (DisconnectReasonCode, Mqtt5PropertyModel))> {
    match spec_disconnect_variable_header(s) {
        Decoded::Done(v, n) => Decoded::Done((h, v), n),
        _ => Decoded::Panic,
    }
}

/// Decoding a DISCONNECT packet from the front of `s`.
pub open spec fn spec_disconnect(s: Seq<u8>) -> Decoded<(FixedHeader, (DisconnectReasonCode, Mqtt5PropertyModel))> {
    match spec_fixed_header(s) {
        Decoded::Done(h, n) => if h.packet_type != PacketType::DISCONNECT || h.dup || h.qos != Qos::AtMostOnce || h.retain {
            Decoded::Panic
        } else {
            spec_disconnect_extra(s.skip(n as int), h).shifted(n)
        },
        _ => Decoded::Panic,
    }
}

/// `w` is how the variable header `v` is written.
pub open spec fn disconnect_variable_header_encoding(v: (DisconnectReasonCode, Mqtt5PropertyModel), w: Seq<u8>) -> bool {
    exists|pw: Seq<u8>| property_encoding(v.1, pw) && w == seq![v.0.wire_code()] + pw
}

impl DisconnectVariableHeader {
    fn check_disconnect_property(disconnect_property: &mut Mqtt5Property) -> (res: Result<(), Error>)
        ensures
            *final(disconnect_property) == *old(disconnect_property),
            res is Ok <==> keys_within(old(disconnect_property)@.properties, disconnect_property_ids()),
            res matches Err(e) ==> e@ == ErrorModel::InvalidPropertyType("Disconnect Properties contains a invalid property"@),
    {
        let allowed: [u32; 4] = [0x11, 0x1C, 0x1F, 0x26];
        assert(allowed@ == disconnect_property_ids());
        if keys_allowed(&disconnect_property.properties, &allowed) {
            Ok(())
        } else {
            Err(Error::InvalidPropertyType("Disconnect Properties contains a invalid property".to_string()))
        }
    }

    /// The number of bytes the variable header takes.
    pub fn length(&self) -> (n: usize)
        requires
            varint_encode(self@.1.property_length as nat).len() + self@.1.property_length + 1 <= usize::MAX,
        ensures
            n == 1 + varint_encode(self@.1.property_length as nat).len() + self@.1.property_length,
    {
        1 + self.disconnect_property.length()
    }
}

impl FromToBuf<DisconnectVariableHeader> for DisconnectVariableHeader {
    open spec fn writable(&self) -> bool {
        property_writable(self@.1) && self@.1.property_length + 1 <= usize::MAX
    }

    open spec fn readable(s: Seq<u8>) -> bool {
        !spec_disconnect_variable_header(s).panics()
    }

    /// Writes the packet identifier, the reason code and the properties;
    /// returns 3 plus the declared property length.
    fn to_buf(&self, buf: &mut Vec<u8>) -> (res: Result<usize, Error>)
        ensures
            res == Ok::<usize, Error>((1 + self@.1.property_length) as usize),
            exists|w: Seq<u8>| disconnect_variable_header_encoding(self@, w) && final(buf)@ == old(buf)@ + w,
    {
        let ghost start = buf@;
        buf.push(self.reason_code.to_u8());
        let mut len: usize = 1;
        let ghost mid = buf@;
        let n = match self.disconnect_property.to_buf(buf) {
            Ok(n) => n,
            Err(_) => 0,
        };
        len = len + n;
        proof {
            let pw = choose|pw: Seq<u8>| property_encoding(self.disconnect_property@, pw) && buf@ == mid + pw;
            let w = seq![self.reason_code.wire_code()] + pw;
            assert(buf@ =~= start + w);
            assert(disconnect_variable_header_encoding(self@, w));
        }
        Ok(len)
    }

    fn from_buf(buf: &mut BytesMut) -> (res: Result<DisconnectVariableHeader, Error>)
        ensures
            match spec_disconnect_variable_header(buf_contents(*old(buf))) {
                Decoded::Done(v, n) => res matches Ok(r) && r@ == v
                    && buf_contents(*final(buf)) == buf_contents(*old(buf)).skip(n as int),
                Decoded::Fail(e, n) => res matches Err(err) && err@ == e
                    && buf_contents(*final(buf)) == buf_contents(*old(buf)).skip(n as int),
                Decoded::Panic => false,
            },
    {
        let ghost s = buf_contents(*buf);
        proof {
            lemma_disconnect_variable_header_consumed(s);
            lemma_property_from_buf_consumed(s.skip(1));
        }
        let reason_code = match DisconnectReasonCode::from_u8(buf_get_u8(buf)) {
            Ok(c) => c,
            Err(e) => {
                proof {
                    assert(false);
                }
                return Err(e);
            },
        };
        assert(buf_contents(*buf) =~= s.skip(1));
        let mut disconnect_property = match Mqtt5Property::from_buf(buf) {
            Ok(p) => p,
            Err(e) => {
                proof {
                    assert(false);
                }
                return Err(e);
            },
        };
        proof {
            assert(buf_contents(*buf) =~= s.skip(1).skip(
                consumed(spec_property_from_buf(s.skip(1))) as int,
            ));
            assert(buf_contents(*buf) =~= s.skip(1 + consumed(spec_property_from_buf(s.skip(1))) as int));
        }
        match DisconnectVariableHeader::check_disconnect_property(&mut disconnect_property) {
            Ok(()) => {},
            Err(e) => return Err(e),
        }
        Ok(DisconnectVariableHeader { reason_code, disconnect_property })
    }
}

impl PacketCodec<Disconnect> for Disconnect {
    open spec fn extra_readable(s: Seq<u8>, fixed_header: FixedHeader) -> bool {
        !spec_disconnect_extra(s, fixed_header).panics()
    }

    fn from_buf_extra(buf: &mut BytesMut, fixed_header: FixedHeader) -> (res: Result<Disconnect, Error>)
        ensures
            match spec_disconnect_extra(buf_contents(*old(buf)), fixed_header) {
                Decoded::Done(v, n) => res matches Ok(r) && r@ == v
                    && buf_contents(*final(buf)) == buf_contents(*old(buf)).skip(n as int)
                    && n <= buf_contents(*old(buf)).len(),
                _ => false,
            },
    {
        proof {
            lemma_disconnect_variable_header_consumed(buf_contents(*buf));
        }
        let variable_header = match DisconnectVariableHeader::from_buf(buf) {
            Ok(v) => v,
            Err(e) => {
                proof {
                    assert(false);
                }
                return Err(e);
            },
        };
        Ok(Disconnect { fixed_header, variable_header })
    }
}

impl FromToBuf<Disconnect> for Disconnect {
    open spec fn writable(&self) -> bool {
        property_writable(self@.1.1) && fixed_header_bytes(self@.0).len() + self@.1.1.property_length + 1
            <= usize::MAX
    }

    open spec fn readable(s: Seq<u8>) -> bool {
        !spec_disconnect(s).panics()
    }

    /// Writes the fixed header, then the variable header; returns the
    /// lengths the two report, added.
    fn to_buf(&self, buf: &mut Vec<u8>) -> (res: Result<usize, Error>)
        ensures
            res == Ok::<usize, Error>(
                (fixed_header_bytes(self@.0).len() + 1 + self@.1.1.property_length) as usize,
            ),
            exists|w: Seq<u8>|
                disconnect_variable_header_encoding(self@.1, w) && final(buf)@ == old(buf)@ + fixed_header_bytes(self@.0) + w,
    {
        let ghost start = buf@;
        let a = match self.fixed_header.to_buf(buf) {
            Ok(n) => n,
            Err(_) => 0,
        };
        let ghost mid = buf@;
        let b = match self.variable_header.to_buf(buf) {
            Ok(n) => n,
            Err(_) => 0,
        };
        proof {
            let w = choose|w: Seq<u8>| disconnect_variable_header_encoding(self.variable_header@, w) && buf@ == mid + w;
            assert(buf@ =~= start + fixed_header_bytes(self.fixed_header) + w);
        }
        Ok(a + b)
    }

    /// Reads a DISCONNECT packet: a fixed header of the right type and flags,
    /// then the variable header.
    fn from_buf(buf: &mut BytesMut) -> (res: Result<Disconnect, Error>)
        ensures
            match spec_disconnect(buf_contents(*old(buf))) {
                Decoded::Done(v, n) => res matches Ok(r) && r@ == v
                    && buf_contents(*final(buf)) == buf_contents(*old(buf)).skip(n as int),
                _ => false,
            },
    {
        let ghost s = buf_contents(*buf);
        let fixed_header = Disconnect::decode_fixed_header(buf);
        if fixed_header.packet_type != PacketType::DISCONNECT || fixed_header.dup || fixed_header.qos != Qos::AtMostOnce
            || fixed_header.retain {
            proof {
                assert(false);
            }
        }
        let ghost rest = buf_contents(*buf);
        let res = Disconnect::from_buf_extra(buf, fixed_header);
        proof {
            let n = (s.len() - rest.len()) as nat;
            assert(rest == s.skip(n as int));
            lemma_disconnect_variable_header_consumed(rest);
            if let Decoded::Done(v, m) = spec_disconnect_extra(rest, fixed_header) {
                assert(buf_contents(*buf) =~= s.skip((n + m) as int));
            }
        }
        res
    }
}

impl Disconnect {
    /// The number of bytes the packet takes.
    pub fn length(&self) -> (n: usize)
        requires
            fixed_header_bytes(self@.0).len() + self@.0.remaining_length <= usize::MAX,
        ensures
            n == fixed_header_bytes(self@.0).len() + self@.0.remaining_length,
    {
        self.fixed_header.length() + self.fixed_header.remaining_length
    }

    /// A DISCONNECT packet with `reason_code` and no properties.
    pub fn with_reason(reason_code: DisconnectReasonCode) -> (p: Self)
        ensures
            p@ == (
                FixedHeader {
                    packet_type: PacketType::DISCONNECT,
                    dup: false,
                    qos: Qos::AtMostOnce,
                    retain: false,
                    remaining_length: 2,
                },
                (reason_code, empty_property_model()),
            ),
    {
        let mut p = Disconnect::default();
        p.variable_header.reason_code = reason_code;
        p
    }
}

impl Default for DisconnectVariableHeader {
    fn default() -> (v: Self)
        ensures
            v@ == (DisconnectReasonCode::UnspecifiedError, empty_property_model()),
    {
        DisconnectVariableHeader {
            reason_code: DisconnectReasonCode::default(),
            disconnect_property: Mqtt5Property::default(),
        }
    }
}

impl Default for Disconnect {
    fn default() -> (p: Self)
        ensures
            p@ == (
                FixedHeader {
                    packet_type: PacketType::DISCONNECT,
                    dup: false,
                    qos: Qos::AtMostOnce,
                    retain: false,
                    remaining_length: 2,
                },
                (DisconnectReasonCode::UnspecifiedError, empty_property_model()),
            ),
    {
        let variable_header = DisconnectVariableHeader::default();
        proof {
            crate::codec::lemma_varint_encode_len(0);
            reveal_with_fuel(varint_encode, 2);
        }
        let fixed_header = FixedHeader {
            packet_type: PacketType::DISCONNECT,
            dup: false,
            qos: Qos::AtMostOnce,
            retain: false,
            remaining_length: variable_header.length(),
        };
        Disconnect { fixed_header, variable_header }
    }
}

/// The reason codes of a DISCONNECT packet.
#[derive(Debug, Clone, Copy, PartialEq, Eq, Structural)]
pub enum DisconnectReasonCode {
    /// 0[0x00]
    NormalDisconnection,
    /// 4[0x04]
    DisconnectWithWillMessage,
    /// 128[0x80]
    UnspecifiedError,
    /// 129[0x81]
    MalformedPacket,
    /// 130[0x82]
    ProtocolError,
    /// 131[0x83]
    ImplementationSpecificError,
    /// 135[0x87]
    NotAuthorized,
    /// 137[0x89]
    ServerBusy,
    /// 139[0x8B]
    ServerShuttingDown,
    /// 141[0x8D]
    KeepAliveTimeout,
    /// 142[0x8E]
    SessionTakenOver,
    /// 143[0x8F]
    TopicFilterInvalid,
    /// 144[0x90]
    TopicNameInvalid,
    /// 147[0x93]
    ReceiveMaximumExceeded,
    /// 148[0x94]
    TopicAliasInvalid,
    /// 149[0x95]
    PacketTooLarge,
    /// 150[0x96]
    MessageRateTooHigh,
    /// 151[0x97]
    QuotaExceeded,
    /// 152[0x98]
    AdministrativeAction,
    /// 153[0x99]
    PayloadFormatInvalid,
    /// 154[0x9A]
    RetainNotSupported,
    /// 155[0x9B]
    QosNotSupported,
    /// 156[0x9C]
    UseAnotherServer,
    /// 157[0x9D]
    ServerMoved,
    /// 158[0x9E]
    SharedSubscriptionNotSupported,
    /// 159[0x9F]
    ConnectionRateExceeded,
    /// 160[0xA0]
    MaximumConnectTime,
    /// 161[0xA1]
    SubscriptionIdentifiersNotSupported,
    /// 162[0xA2]
    WildcardSubscriptionsNotSupported,
}

impl DisconnectReasonCode {
    /// The byte that stands for this code.
    pub open spec fn wire_code(self) -> u8 {
        match self {
            DisconnectReasonCode::NormalDisconnection => 0,
            DisconnectReasonCode::DisconnectWithWillMessage => 4,
            DisconnectReasonCode::UnspecifiedError => 128,
            DisconnectReasonCode::MalformedPacket => 129,
            DisconnectReasonCode::ProtocolError => 130,
            DisconnectReasonCode::ImplementationSpecificError => 131,
            DisconnectReasonCode::NotAuthorized => 135,
            DisconnectReasonCode::ServerBusy => 137,
            DisconnectReasonCode::ServerShuttingDown => 139,
            DisconnectReasonCode::KeepAliveTimeout => 141,
            DisconnectReasonCode::SessionTakenOver => 142,
            DisconnectReasonCode::TopicFilterInvalid => 143,
            DisconnectReasonCode::TopicNameInvalid => 144,
            DisconnectReasonCode::ReceiveMaximumExceeded => 147,
            DisconnectReasonCode::TopicAliasInvalid => 148,
            DisconnectReasonCode::PacketTooLarge => 149,
            DisconnectReasonCode::MessageRateTooHigh => 150,
            DisconnectReasonCode::QuotaExceeded => 151,
            DisconnectReasonCode::AdministrativeAction => 152,
            DisconnectReasonCode::PayloadFormatInvalid => 153,
            DisconnectReasonCode::RetainNotSupported => 154,
            DisconnectReasonCode::QosNotSupported => 155,
            DisconnectReasonCode::UseAnotherServer => 156,
            DisconnectReasonCode::ServerMoved => 157,
            DisconnectReasonCode::SharedSubscriptionNotSupported => 158,
            DisconnectReasonCode::ConnectionRateExceeded => 159,
            DisconnectReasonCode::MaximumConnectTime => 160,
            DisconnectReasonCode::SubscriptionIdentifiersNotSupported => 161,
            DisconnectReasonCode::WildcardSubscriptionsNotSupported => 162,
        }
    }

    /// The code a byte stands for, if any.
    pub open spec fn from_wire(byte: u8) -> Option<DisconnectReasonCode> {
        if byte == 0 {
            Some(DisconnectReasonCode::NormalDisconnection)
        } else if byte == 4 {
            Some(DisconnectReasonCode::DisconnectWithWillMessage)
        } else if byte == 128 {
            Some(DisconnectReasonCode::UnspecifiedError)
        } else if byte == 129 {
            Some(DisconnectReasonCode::MalformedPacket)
        } else if byte == 130 {
            Some(DisconnectReasonCode::ProtocolError)
        } else if byte == 131 {
            Some(DisconnectReasonCode::ImplementationSpecificError)
        } else if byte == 135 {
            Some(DisconnectReasonCode::NotAuthorized)
        } else if byte == 137 {
            Some(DisconnectReasonCode::ServerBusy)
        } else if byte == 139 {
            Some(DisconnectReasonCode::ServerShuttingDown)
        } else if byte == 141 {
            Some(DisconnectReasonCode::KeepAliveTimeout)
        } else if byte == 142 {
            Some(DisconnectReasonCode::SessionTakenOver)
        } else if byte == 143 {
            Some(DisconnectReasonCode::TopicFilterInvalid)
        } else if byte == 144 {
            Some(DisconnectReasonCode::TopicNameInvalid)
        } else if byte == 147 {
            Some(DisconnectReasonCode::ReceiveMaximumExceeded)
        } else if byte == 148 {
            Some(DisconnectReasonCode::TopicAliasInvalid)
        } else if byte == 149 {
            Some(DisconnectReasonCode::PacketTooLarge)
        } else if byte == 150 {
            Some(DisconnectReasonCode::MessageRateTooHigh)
        } else if byte == 151 {
            Some(DisconnectReasonCode::QuotaExceeded)
        } else if byte == 152 {
            Some(DisconnectReasonCode::AdministrativeAction)
        } else if byte == 153 {
            Some(DisconnectReasonCode::PayloadFormatInvalid)
        } else if byte == 154 {
            Some(DisconnectReasonCode::RetainNotSupported)
        } else if byte == 155 {
            Some(DisconnectReasonCode::QosNotSupported)
        } else if byte == 156 {
            Some(DisconnectReasonCode::UseAnotherServer)
        } else if byte == 157 {
            Some(DisconnectReasonCode::ServerMoved)
        } else if byte == 158 {
            Some(DisconnectReasonCode::SharedSubscriptionNotSupported)
        } else if byte == 159 {
            Some(DisconnectReasonCode::ConnectionRateExceeded)
        } else if byte == 160 {
            Some(DisconnectReasonCode::MaximumConnectTime)
        } else if byte == 161 {
            Some(DisconnectReasonCode::SubscriptionIdentifiersNotSupported)
        } else if byte == 162 {
            Some(DisconnectReasonCode::WildcardSubscriptionsNotSupported)
        } else {
            None
        }
    }

    /// A byte stands for a code exactly when it is that code's byte.
    pub proof fn lemma_wire_code(self, byte: u8)
        ensures
            DisconnectReasonCode::from_wire(byte) == Some(self) <==> self.wire_code() == byte,
    {
    }
}

impl Default for DisconnectReasonCode {
    fn default() -> (c: Self)
        ensures
            c == DisconnectReasonCode::UnspecifiedError,
    {
        DisconnectReasonCode::UnspecifiedError
    }
}

impl FromToU8<DisconnectReasonCode> for DisconnectReasonCode {
    fn to_u8(&self) -> (b: u8)
        ensures
            b == self.wire_code(),
    {
        match *self {
            DisconnectReasonCode::NormalDisconnection => 0,
            DisconnectReasonCode::DisconnectWithWillMessage => 4,
            DisconnectReasonCode::UnspecifiedError => 128,
            DisconnectReasonCode::MalformedPacket => 129,
            DisconnectReasonCode::ProtocolError => 130,
            DisconnectReasonCode::ImplementationSpecificError => 131,
            DisconnectReasonCode::NotAuthorized => 135,
            DisconnectReasonCode::ServerBusy => 137,
            DisconnectReasonCode::ServerShuttingDown => 139,
            DisconnectReasonCode::KeepAliveTimeout => 141,
            DisconnectReasonCode::SessionTakenOver => 142,
            DisconnectReasonCode::TopicFilterInvalid => 143,
            DisconnectReasonCode::TopicNameInvalid => 144,
            DisconnectReasonCode::ReceiveMaximumExceeded => 147,
            DisconnectReasonCode::TopicAliasInvalid => 148,
            DisconnectReasonCode::PacketTooLarge => 149,
            DisconnectReasonCode::MessageRateTooHigh => 150,
            DisconnectReasonCode::QuotaExceeded => 151,
            DisconnectReasonCode::AdministrativeAction => 152,
            DisconnectReasonCode::PayloadFormatInvalid => 153,
            DisconnectReasonCode::RetainNotSupported => 154,
            DisconnectReasonCode::QosNotSupported => 155,
            DisconnectReasonCode::UseAnotherServer => 156,
            DisconnectReasonCode::ServerMoved => 157,
            DisconnectReasonCode::SharedSubscriptionNotSupported => 158,
            DisconnectReasonCode::ConnectionRateExceeded => 159,
            DisconnectReasonCode::MaximumConnectTime => 160,
            DisconnectReasonCode::SubscriptionIdentifiersNotSupported => 161,
            DisconnectReasonCode::WildcardSubscriptionsNotSupported => 162,
        }
    }

    fn from_u8(byte: u8) -> (res: Result<DisconnectReasonCode, Error>)
        ensures
            match DisconnectReasonCode::from_wire(byte) {
                Some(c) => res == Ok::<DisconnectReasonCode, Error>(c),
                None => res == Err::<DisconnectReasonCode, Error>(Error::InvalidReasonCode(byte)),
            },
    {
        match byte {
            0 => Ok(DisconnectReasonCode::NormalDisconnection),
            4 => Ok(DisconnectReasonCode::DisconnectWithWillMessage),
            128 => Ok(DisconnectReasonCode::UnspecifiedError),
            129 => Ok(DisconnectReasonCode::MalformedPacket),
            130 => Ok(DisconnectReasonCode::ProtocolError),
            131 => Ok(DisconnectReasonCode::ImplementationSpecificError),
            135 => Ok(DisconnectReasonCode::NotAuthorized),
            137 => Ok(DisconnectReasonCode::ServerBusy),
            139 => Ok(DisconnectReasonCode::ServerShuttingDown),
            141 => Ok(DisconnectReasonCode::KeepAliveTimeout),
            142 => Ok(DisconnectReasonCode::SessionTakenOver),
            143 => Ok(DisconnectReasonCode::TopicFilterInvalid),
            144 => Ok(DisconnectReasonCode::TopicNameInvalid),
            147 => Ok(DisconnectReasonCode::ReceiveMaximumExceeded),
            148 => Ok(DisconnectReasonCode::TopicAliasInvalid),
            149 => Ok(DisconnectReasonCode::PacketTooLarge),
            150 => Ok(DisconnectReasonCode::MessageRateTooHigh),
            151 => Ok(DisconnectReasonCode::QuotaExceeded),
            152 => Ok(DisconnectReasonCode::AdministrativeAction),
            153 => Ok(DisconnectReasonCode::PayloadFormatInvalid),
            154 => Ok(DisconnectReasonCode::RetainNotSupported),
            155 => Ok(DisconnectReasonCode::QosNotSupported),
            156 => Ok(DisconnectReasonCode::UseAnotherServer),
            157 => Ok(DisconnectReasonCode::ServerMoved),
            158 => Ok(DisconnectReasonCode::SharedSubscriptionNotSupported),
            159 => Ok(DisconnectReasonCode::ConnectionRateExceeded),
            160 => Ok(DisconnectReasonCode::MaximumConnectTime),
            161 => Ok(DisconnectReasonCode::SubscriptionIdentifiersNotSupported),
            162 => Ok(DisconnectReasonCode::WildcardSubscriptionsNotSupported),
            n => Err(Error::InvalidReasonCode(n)),
        }
    }
}

} // verus!
