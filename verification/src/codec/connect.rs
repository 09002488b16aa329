//! The CONNECT packet: protocol, flags, keep-alive and properties, then the
//! client identifier, will, user name and password.
use vstd::prelude::*;
use bytes::{Bytes, BytesMut};
use crate::codec::buffer::{be_u16_at, buf_contents, buf_get_u16, buf_get_u8, bytes_contents};
use crate::codec::check::{keys_allowed, keys_within};
use crate::codec::error::{Decoded, Error, ErrorModel};
use crate::codec::fixed_header::{fixed_header_bytes, spec_fixed_header, FixedHeader};
use crate::codec::packet::{PacketCodec, PacketType};
use crate::codec::property::{
    consumed, lemma_property_from_buf_consumed, lemma_string_consumed, spec_property_from_buf, Mqtt5Property,
    Mqtt5PropertyModel,
};
use crate::codec::property_encode::{property_encoding, property_writable};
use crate::codec::protocol::{protocol_bytes, spec_protocol, Protocol};
use crate::codec::publish::{qos_code, qos_of, Qos};
use crate::codec::{
    be16, length_prefixed, put_u16, read_bytes, read_string, spec_read_bytes, spec_read_string_expect,
    write_bytes, write_string, FromToBuf, FromToU8,
};
use vstd::utf8::encode_utf8;

verus! {

/// The reason codes a CONNACK packet answers a CONNECT with.
#[derive(Debug, Clone, Copy, PartialEq, Eq, Structural)]
pub enum ConnectReasonCode {
    /// 0[0x00]
    Success,
    /// 128[0x80]
    UnspecifiedError,
    /// 129[0x81]
    MalformedPacket,
    /// 130[0x82]
    ProtocolError,
    /// 131[0x83]
    ImplementationSpecificError,
    /// 132[0x84]
    UnsupportedProtocolVersion,
    /// 133[0x85]
    ClientIdentifierNotValid,
    /// 134[0x86]
    BadUsernameOrPassword,
    /// 135[0x87]
    NotAuthorized,
    /// 136[0x88]
    ServerUnavailable,
    /// 137[0x89]
    ServerBusy,
    /// 138[0x8A]
    Banned,
    /// 140[0x8C]
    BadAuthenticationMethod,
    /// 144[0x90]
    TopicNameInvalid,
    /// 149[0x95]
    PacketTooLarge,
    /// 151[0x97]
    QuotaExceeded,
    /// 153[0x99]
    PayloadFormatInvalid,
    /// 154[0x9A]
    RetainNotSupported,
    /// 155[0x9B]
    QoSNotSupported,
    /// 156[0x9C]
    UseAnotherServer,
    /// 157[0x9D]
    ServerMoved,
    /// 159[0x9F]
    ConnectionRateExceeded,
}

impl ConnectReasonCode {
    /// The byte that stands for this code.
    pub open spec fn wire_code(self) -> u8 {
        match self {
            ConnectReasonCode::Success => 0,
            ConnectReasonCode::UnspecifiedError => 128,
            ConnectReasonCode::MalformedPacket => 129,
            ConnectReasonCode::ProtocolError => 130,
            ConnectReasonCode::ImplementationSpecificError => 131,
            ConnectReasonCode::UnsupportedProtocolVersion => 132,
            ConnectReasonCode::ClientIdentifierNotValid => 133,
            ConnectReasonCode::BadUsernameOrPassword => 134,
            ConnectReasonCode::NotAuthorized => 135,
            ConnectReasonCode::ServerUnavailable => 136,
            ConnectReasonCode::ServerBusy => 137,
            ConnectReasonCode::Banned => 138,
            ConnectReasonCode::BadAuthenticationMethod => 140,
            ConnectReasonCode::TopicNameInvalid => 144,
            ConnectReasonCode::PacketTooLarge => 149,
            ConnectReasonCode::QuotaExceeded => 151,
            ConnectReasonCode::PayloadFormatInvalid => 153,
            ConnectReasonCode::RetainNotSupported => 154,
            ConnectReasonCode::QoSNotSupported => 155,
            ConnectReasonCode::UseAnotherServer => 156,
            ConnectReasonCode::ServerMoved => 157,
            ConnectReasonCode::ConnectionRateExceeded => 159,
        }
    }

    /// The code a byte stands for, if any.
    pub open spec fn from_wire(byte: u8) -> Option<ConnectReasonCode> {
        if byte == 0 {
            Some(ConnectReasonCode::Success)
        } else if byte == 128 {
            Some(ConnectReasonCode::UnspecifiedError)
        } else if byte == 129 {
            Some(ConnectReasonCode::MalformedPacket)
        } else if byte == 130 {
            Some(ConnectReasonCode::ProtocolError)
        } else if byte == 131 {
            Some(ConnectReasonCode::ImplementationSpecificError)
        } else if byte == 132 {
            Some(ConnectReasonCode::UnsupportedProtocolVersion)
        } else if byte == 133 {
            Some(ConnectReasonCode::ClientIdentifierNotValid)
        } else if byte == 134 {
            Some(ConnectReasonCode::BadUsernameOrPassword)
        } else if byte == 135 {
            Some(ConnectReasonCode::NotAuthorized)
        } else if byte == 136 {
            Some(ConnectReasonCode::ServerUnavailable)
        } else if byte == 137 {
            Some(ConnectReasonCode::ServerBusy)
        } else if byte == 138 {
            Some(ConnectReasonCode::Banned)
        } else if byte == 140 {
            Some(ConnectReasonCode::BadAuthenticationMethod)
        } else if byte == 144 {
            Some(ConnectReasonCode::TopicNameInvalid)
        } else if byte == 149 {
            Some(ConnectReasonCode::PacketTooLarge)
        } else if byte == 151 {
            Some(ConnectReasonCode::QuotaExceeded)
        } else if byte == 153 {
            Some(ConnectReasonCode::PayloadFormatInvalid)
        } else if byte == 154 {
            Some(ConnectReasonCode::RetainNotSupported)
        } else if byte == 155 {
            Some(ConnectReasonCode::QoSNotSupported)
        } else if byte == 156 {
            Some(ConnectReasonCode::UseAnotherServer)
        } else if byte == 157 {
            Some(ConnectReasonCode::ServerMoved)
        } else if byte == 159 {
            Some(ConnectReasonCode::ConnectionRateExceeded)
        } else {
            None
        }
    }

    /// A byte stands for a code exactly when it is that code's byte.
    pub proof fn lemma_wire_code(self, byte: u8)
        ensures
            ConnectReasonCode::from_wire(byte) == Some(self) <==> self.wire_code() == byte,
    {
    }
}

impl Default for ConnectReasonCode {
    fn default() -> (c: Self)
        ensures
            c == ConnectReasonCode::Success,
    {
        ConnectReasonCode::Success
    }
}

impl FromToU8<ConnectReasonCode> for ConnectReasonCode {
    fn to_u8(&self) -> (b: u8)
        ensures
            b == self.wire_code(),
    {
        match *self {
            ConnectReasonCode::Success => 0,
            ConnectReasonCode::UnspecifiedError => 128,
            ConnectReasonCode::MalformedPacket => 129,
            ConnectReasonCode::ProtocolError => 130,
            ConnectReasonCode::ImplementationSpecificError => 131,
            ConnectReasonCode::UnsupportedProtocolVersion => 132,
            ConnectReasonCode::ClientIdentifierNotValid => 133,
            ConnectReasonCode::BadUsernameOrPassword => 134,
            ConnectReasonCode::NotAuthorized => 135,
            ConnectReasonCode::ServerUnavailable => 136,
            ConnectReasonCode::ServerBusy => 137,
            ConnectReasonCode::Banned => 138,
            ConnectReasonCode::BadAuthenticationMethod => 140,
            ConnectReasonCode::TopicNameInvalid => 144,
            ConnectReasonCode::PacketTooLarge => 149,
            ConnectReasonCode::QuotaExceeded => 151,
            ConnectReasonCode::PayloadFormatInvalid => 153,
            ConnectReasonCode::RetainNotSupported => 154,
            ConnectReasonCode::QoSNotSupported => 155,
            ConnectReasonCode::UseAnotherServer => 156,
            ConnectReasonCode::ServerMoved => 157,
            ConnectReasonCode::ConnectionRateExceeded => 159,
        }
    }

    fn from_u8(byte: u8) -> (res: Result<ConnectReasonCode, Error>)
        ensures
            match ConnectReasonCode::from_wire(byte) {
                Some(c) => res == Ok::<ConnectReasonCode, Error>(c),
                None => res == Err::<ConnectReasonCode, Error>(Error::InvalidReasonCode(byte)),
            },
    {
        match byte {
            0 => Ok(ConnectReasonCode::Success),
            128 => Ok(ConnectReasonCode::UnspecifiedError),
            129 => Ok(ConnectReasonCode::MalformedPacket),
            130 => Ok(ConnectReasonCode::ProtocolError),
            131 => Ok(ConnectReasonCode::ImplementationSpecificError),
            132 => Ok(ConnectReasonCode::UnsupportedProtocolVersion),
            133 => Ok(ConnectReasonCode::ClientIdentifierNotValid),
            134 => Ok(ConnectReasonCode::BadUsernameOrPassword),
            135 => Ok(ConnectReasonCode::NotAuthorized),
            136 => Ok(ConnectReasonCode::ServerUnavailable),
            137 => Ok(ConnectReasonCode::ServerBusy),
            138 => Ok(ConnectReasonCode::Banned),
            140 => Ok(ConnectReasonCode::BadAuthenticationMethod),
            144 => Ok(ConnectReasonCode::TopicNameInvalid),
            149 => Ok(ConnectReasonCode::PacketTooLarge),
            151 => Ok(ConnectReasonCode::QuotaExceeded),
            153 => Ok(ConnectReasonCode::PayloadFormatInvalid),
            154 => Ok(ConnectReasonCode::RetainNotSupported),
            155 => Ok(ConnectReasonCode::QoSNotSupported),
            156 => Ok(ConnectReasonCode::UseAnotherServer),
            157 => Ok(ConnectReasonCode::ServerMoved),
            159 => Ok(ConnectReasonCode::ConnectionRateExceeded),
            n => Err(Error::InvalidReasonCode(n)),
        }
    }
}

/// A CONNECT packet.
#[derive(Debug, Clone, PartialEq)]
pub struct Connect {
    fixed_header: FixedHeader,
    variable_header: ConnectVariableHeader,
    payload: ConnectPayload,
}

/// The variable header of a CONNECT packet.
#[derive(Debug, Clone, PartialEq)]
pub struct ConnectVariableHeader {
    pub protocol: Protocol,
    pub connect_flags: ConnectFlags,
    pub keep_alive: u16,
    pub connect_property: Mqtt5Property,
}

/// The flags of a CONNECT packet.
#[derive(Debug, Clone, Copy, PartialEq, Eq, Structural)]
pub struct ConnectFlags {
    pub(crate) clean_start: bool,
    pub(crate) will_flag: bool,
    pub(crate) will_qos: Qos,
    pub(crate) will_retain: bool,
    pub(crate) username_flag: bool,
    pub(crate) password_flag: bool,
}

/// The payload of a CONNECT packet.
#[derive(Debug, Clone, PartialEq)]
pub struct ConnectPayload {
    client_id: String,
    will_property: Option<Mqtt5Property>,
    will_topic: Option<String>,
    will_payload: Option<Bytes>,
    username: Option<String>,
    password: Option<String>,
}

/// The flags as (clean start, will, will qos, will retain, user name, password).
pub type ConnectFlagsModel = (bool, bool, Qos, bool, bool, bool);

/// The payload as (client id, will properties, will topic, will payload,
/// user name, password).
pub type ConnectPayloadModel = (
    Seq<char>,
    Option<Mqtt5PropertyModel>,
    Option<Seq<char>>,
    Option<Seq<u8>>,
    Option<Seq<char>>,
    Option<Seq<char>>,
);

/// The variable header as (protocol, flags, keep alive, properties).
pub type ConnectVariableHeaderModel = (Protocol, ConnectFlagsModel, u16, Mqtt5PropertyModel);

impl View for ConnectFlags {
    type V = ConnectFlagsModel;

    closed spec fn view(&self) -> ConnectFlagsModel {
        (self.clean_start, self.will_flag, self.will_qos, self.will_retain, self.username_flag, self.password_flag)
    }
}

/// The model of the flags is their fields in order.
pub(crate) proof fn lemma_connect_flags_view(f: ConnectFlags)
    ensures
        f@ == (f.clean_start, f.will_flag, f.will_qos, f.will_retain, f.username_flag, f.password_flag),
{
}

impl View for ConnectVariableHeader {
    type V = ConnectVariableHeaderModel;

    closed spec fn view(&self) -> ConnectVariableHeaderModel {
        (self.protocol, self.connect_flags@, self.keep_alive, self.connect_property@)
    }
}

impl View for ConnectPayload {
    type V = ConnectPayloadModel;

    closed spec fn view(&self) -> ConnectPayloadModel {
        (
            self.client_id@,
            match self.will_property {
                Some(p) => Some(p@),
                None => None,
            },
            match self.will_topic {
                Some(t) => Some(t@),
                None => None,
            },
            match self.will_payload {
                Some(b) => Some(bytes_contents(b)),
                None => None,
            },
            match self.username {
                Some(u) => Some(u@),
                None => None,
            },
            match self.password {
                Some(p) => Some(p@),
                None => None,
            },
        )
    }
}

impl Connect {
    /// The variable header: protocol, flags, keep alive and properties.
    pub fn variable_header(&self) -> (v: &ConnectVariableHeader)
        ensures
            v@ == self@.1,
            v.keep_alive == self@.1.2,
    {
        &self.variable_header
    }
}

impl View for Connect {
    type V = (FixedHeader, ConnectVariableHeaderModel, ConnectPayloadModel);

    closed spec fn view(&self) -> (FixedHeader, ConnectVariableHeaderModel, ConnectPayloadModel) {
        (self.fixed_header, self.variable_header@, self.payload@)
    }
}

/// The flags byte: clean start in bit 1, will in bit 2, will qos in bits
/// 3-4, will retain in bit 5, password in bit 6, user name in bit 7.
pub open spec fn connect_flags_byte(f: ConnectFlagsModel) -> u8 {
    ((if f.0 { 2int } else { 0int }) + (if f.1 { 4int } else { 0int }) + qos_code(f.2) * 8 + (if f.3 {
        32int
    } else {
        0int
    }) + (if f.5 { 64int } else { 0int }) + (if f.4 { 128int } else { 0int })) as u8
}

/// Decoding a flags byte: the reserved bit must be clear, and without a
/// will there may be neither a will qos nor will retain; a will qos of 3
/// is a malformed packet.
pub open spec fn spec_connect_flags(b: u8) -> Decoded<ConnectFlagsModel> {
    if b % 2 != 0 {
        Decoded::Fail(ErrorModel::MalformedPacket, 1)
    } else {
        match qos_of((b / 8) % 4) {
            None => Decoded::Fail(ErrorModel::MalformedPacket, 1),
            Some(q) => {
                let will_flag = (b / 4) % 2 > 0;
                let will_retain = (b / 32) % 2 > 0;
                if !will_flag && q != Qos::AtMostOnce {
                    Decoded::Fail(ErrorModel::MalformedPacket, 1)
                } else if !will_flag && will_retain {
                    Decoded::Fail(ErrorModel::MalformedPacket, 1)
                } else {
                    Decoded::Done(((b / 2) % 2 > 0, will_flag, q, will_retain, (b / 128) % 2 > 0, (b / 64) % 2 > 0), 1)
                }
            },
        }
    }
}

/// The property identifiers a CONNECT packet may carry.
pub open spec fn connect_property_ids() -> Seq<u32> {
    seq![0x11u32, 0x15u32, 0x16u32, 0x17u32, 0x19u32, 0x21u32, 0x22u32, 0x26u32, 0x27u32]
}

/// The property identifiers a will may carry.
pub open spec fn will_property_ids() -> Seq<u32> {
    seq![0x01u32, 0x02u32, 0x03u32, 0x08u32, 0x09u32, 0x18u32, 0x26u32]
}

/// Decoding the variable header of a CONNECT packet from the front of `s`.
pub open spec fn spec_connect_variable_header(s: Seq<u8>) -> Decoded<ConnectVariableHeaderModel> {
    match spec_protocol(s) {
        Decoded::Done(pr, n) => if s.len() <= n {
            Decoded::Panic
        } else {
            match spec_connect_flags(s[n as int]) {
                Decoded::Done(f, _) => if s.len() < n + 3 {
                    Decoded::Panic
                } else {
                    match spec_property_from_buf(s.skip((n + 3) as int)) {
                        Decoded::Done(p, m) => if keys_within(p.properties, connect_property_ids()) {
                            Decoded::Done((pr, f, be_u16_at(s, (n + 1) as int), p), n + 3 + m)
                        } else {
                            Decoded::Fail(
                                ErrorModel::InvalidPropertyType("Connect Properties contains a invalid property"@),
                                n + 3 + m,
                            )
                        },
                        _ => Decoded::Panic,
                    }
                },
                _ => Decoded::Panic,
            }
        },
        _ => Decoded::Panic,
    }
}

/// Decoding a string that is there when `flag` is set.
pub open spec fn spec_optional_string(s: Seq<u8>, flag: bool) -> Decoded<Option<Seq<char>>> {
    if !flag {
        Decoded::Done(None, 0)
    } else {
        match spec_read_string_expect(s) {
            Decoded::Done(x, n) => Decoded::Done(Some(x), n),
            _ => Decoded::Panic,
        }
    }
}

/// Decoding the will (properties, topic, payload) that is there when
/// `flag` is set.
pub open spec fn spec_will(s: Seq<u8>, flag: bool) -> Decoded<
    (Option<Mqtt5PropertyModel>, Option<Seq<char>>, Option<Seq<u8>>),
> {
    if !flag {
        Decoded::Done((None, None, None), 0)
    } else {
        match spec_property_from_buf(s) {
            Decoded::Done(p, n1) => if !keys_within(p.properties, will_property_ids()) {
                Decoded::Fail(ErrorModel::InvalidPropertyType("Will Properties contains a invalid property"@), n1)
            } else {
                match spec_read_string_expect(s.skip(n1 as int)) {
                    Decoded::Done(topic, n2) => if s.len() < n1 + n2 + 2 {
                        Decoded::Panic
                    } else {
                        match spec_read_bytes(s.skip((n1 + n2) as int)) {
                            Decoded::Done(data, n3) => Decoded::Done((Some(p), Some(topic), Some(data)), n1 + n2 + n3),
                            _ => Decoded::Panic,
                        }
                    },
                    _ => Decoded::Panic,
                }
            },
            _ => Decoded::Panic,
        }
    }
}

/// Decoding the payload of a CONNECT packet with flags `f` from the front
/// of `s`.
pub open spec fn spec_connect_payload(s: Seq<u8>, f: ConnectFlagsModel) -> Decoded<ConnectPayloadModel> {
    match spec_read_string_expect(s) {
        Decoded::Done(client_id, n1) => match spec_will(s.skip(n1 as int), f.1) {
            Decoded::Done(w, n2) => match spec_optional_string(s.skip((n1 + n2) as int), f.4) {
                Decoded::Done(username, n3) => match spec_optional_string(s.skip((n1 + n2 + n3) as int), f.5) {
                    Decoded::Done(password, n4) => Decoded::Done(
                        (client_id, w.0, w.1, w.2, username, password),
                        n1 + n2 + n3 + n4,
                    ),
                    _ => Decoded::Panic,
                },
                _ => Decoded::Panic,
            },
            Decoded::Fail(e, n2) => Decoded::Fail(e, n1 + n2),
            Decoded::Panic => Decoded::Panic,
        },
        _ => Decoded::Panic,
    }
}

/// Decoding the rest of a CONNECT packet after its fixed header `h`.
pub open spec fn spec_connect_extra(s: Seq<u8>, h: FixedHeader) -> Decoded<
    (FixedHeader, ConnectVariableHeaderModel, ConnectPayloadModel),
> {
    match spec_connect_variable_header(s) {
        Decoded::Done(v, n) => match spec_connect_payload(s.skip(n as int), v.1) {
            Decoded::Done(p, m) => Decoded::Done((h, v, p), n + m),
            _ => Decoded::Panic,
        },
        _ => Decoded::Panic,
    }
}

/// Decoding a CONNECT packet from the front of `s`.
pub open spec fn spec_connect(s: Seq<u8>) -> Decoded<(FixedHeader, ConnectVariableHeaderModel, ConnectPayloadModel)> {
    match spec_fixed_header(s) {
        Decoded::Done(h, n) => if h.packet_type != PacketType::CONNECT || h.dup || h.qos != Qos::AtMostOnce || h.retain {
            Decoded::Panic
        } else {
            spec_connect_extra(s.skip(n as int), h).shifted(n)
        },
        _ => Decoded::Panic,
    }
}

/// `w` is how the variable header `v` is written.
pub open spec fn connect_variable_header_encoding(v: ConnectVariableHeaderModel, w: Seq<u8>) -> bool {
    exists|pw: Seq<u8>|
        property_encoding(v.3, pw) && w == protocol_bytes() + seq![connect_flags_byte(v.1)] + be16(v.2) + pw
}

/// The bytes of a string that is written when `flag` is set.
pub open spec fn optional_string_bytes(flag: bool, x: Option<Seq<char>>) -> Seq<u8> {
    if flag {
        length_prefixed(encode_utf8(x->0))
    } else {
        Seq::empty()
    }
}

/// `w` is how the payload `p` is written under flags `f`.
pub open spec fn connect_payload_encoding(p: ConnectPayloadModel, f: ConnectFlagsModel, w: Seq<u8>) -> bool {
    let tail = optional_string_bytes(f.4, p.4) + optional_string_bytes(f.5, p.5);
    if f.1 {
        exists|ww: Seq<u8>|
            #[trigger] property_encoding(p.1->0, ww) && w == length_prefixed(encode_utf8(p.0)) + ww + length_prefixed(
                encode_utf8(p.2->0),
            ) + length_prefixed(p.3->0) + tail
    } else {
        w == length_prefixed(encode_utf8(p.0)) + tail
    }
}

/// The count `to_buf` reports for a payload written under flags `f`.
pub open spec fn connect_payload_count(p: ConnectPayloadModel, f: ConnectFlagsModel) -> int {
    encode_utf8(p.0).len() + 2 + (if f.1 {
        p.1->0.property_length + encode_utf8(p.2->0).len() + 2 + p.3->0.len() + 2
    } else {
        0
    }) + (if f.4 { encode_utf8(p.4->0).len() + 2 } else { 0 }) + (if f.5 {
        encode_utf8(p.5->0).len() + 2
    } else {
        0
    })
}

/// Whether a payload can be written under flags `f`: what the flags
/// announce is there, and every string and datum fits a two-byte length.
pub open spec fn connect_payload_writable(p: ConnectPayloadModel, f: ConnectFlagsModel) -> bool {
    &&& encode_utf8(p.0).len() <= 65535
    &&& f.1 ==> p.1 is Some && p.2 is Some && p.3 is Some && property_writable(p.1->0) && encode_utf8(p.2->0).len()
        <= 65535 && p.3->0.len() <= 65535
    &&& f.4 ==> p.4 is Some && encode_utf8(p.4->0).len() <= 65535
    &&& f.5 ==> p.5 is Some && encode_utf8(p.5->0).len() <= 65535
    &&& connect_payload_count(p, f) <= usize::MAX
}

impl ConnectFlags {
    /// Writes the flags byte; returns the byte's value.
    pub fn to_buf(&self, buf: &mut Vec<u8>) -> (res: Result<usize, Error>)
        ensures
            final(buf)@ == old(buf)@ + seq![connect_flags_byte(self@)],
            res == Ok::<usize, Error>(connect_flags_byte(self@) as usize),
    {
        let mut connect_flags: u8 = 0b0000_0000;
        if self.clean_start {
            connect_flags = connect_flags + 0b0000_0010;
        }
        if self.will_flag {
            connect_flags = connect_flags + 0b0000_0100;
        }
        connect_flags = connect_flags + self.will_qos.to_u8() * 8;
        if self.will_retain {
            connect_flags = connect_flags + 0b0010_0000;
        }
        if self.password_flag {
            connect_flags = connect_flags + 0b0100_0000;
        }
        if self.username_flag {
            connect_flags = connect_flags + 0b1000_0000;
        }
        assert(connect_flags & 0b1111_1110 == connect_flags) by (bit_vector)
            requires
                connect_flags % 2 == 0,
        ;
        connect_flags = connect_flags & 0b1111_1110;
        buf.push(connect_flags);
        Ok(connect_flags as usize)
    }

    /// Reads the flags byte.
    pub fn from_buf(buf: &mut BytesMut) -> (res: Result<ConnectFlags, Error>)
        requires
            buf_contents(*old(buf)).len() >= 1,
        ensures
            buf_contents(*final(buf)) == buf_contents(*old(buf)).skip(1),
            match spec_connect_flags(buf_contents(*old(buf))[0]) {
                Decoded::Done(f, _) => res matches Ok(r) && r@ == f,
                Decoded::Fail(e, _) => res matches Err(err) && err@ == e,
                Decoded::Panic => false,
            },
    {
        let connect_flags = buf_get_u8(buf);
        let reserved_flag = connect_flags % 2 != 0;
        if reserved_flag {
            return Err(Error::MalformedPacket);
        }
        let clean_start = (connect_flags / 2) % 2 > 0;
        let will_flag = (connect_flags / 4) % 2 > 0;
        let will_qos = match Qos::from_u8((connect_flags / 8) % 4) {
            Ok(q) => q,
            Err(_) => return Err(Error::MalformedPacket),
        };
        if !will_flag && will_qos != Qos::AtMostOnce {
            return Err(Error::MalformedPacket);
        }
        let will_retain = (connect_flags / 32) % 2 > 0;
        if !will_flag && will_retain {
            return Err(Error::MalformedPacket);
        }
        let password_flag = (connect_flags / 64) % 2 > 0;
        let username_flag = (connect_flags / 128) % 2 > 0;
        Ok(ConnectFlags { clean_start, will_flag, will_qos, will_retain, password_flag, username_flag })
    }
}

impl ConnectVariableHeader {
    fn check_connect_property(connect_property: &mut Mqtt5Property) -> (res: Result<(), Error>)
        ensures
            *final(connect_property) == *old(connect_property),
            res is Ok <==> keys_within(old(connect_property)@.properties, connect_property_ids()),
            res matches Err(e) ==> e@ == ErrorModel::InvalidPropertyType(
                "Connect Properties contains a invalid property"@,
            ),
    {
        let allowed: [u32; 9] = [0x11, 0x15, 0x16, 0x17, 0x19, 0x21, 0x22, 0x26, 0x27];
        assert(allowed@ == connect_property_ids());
        if keys_allowed(&connect_property.properties, &allowed) {
            Ok(())
        } else {
            Err(Error::InvalidPropertyType("Connect Properties contains a invalid property".to_string()))
        }
    }
}

/// Decoding the variable header takes no more bytes than there are.
pub proof fn lemma_connect_variable_header_consumed(s: Seq<u8>)
    ensures
        spec_connect_variable_header(s).taken() <= s.len(),
{
    if let Decoded::Done(pr, n) = spec_protocol(s) {
        if s.len() >= n + 3 {
            lemma_property_from_buf_consumed(s.skip((n + 3) as int));
        }
    }
}

impl FromToBuf<ConnectVariableHeader> for ConnectVariableHeader {
    open spec fn writable(&self) -> bool {
        property_writable(self@.3) && 9 + connect_flags_byte(self@.1) + self@.3.property_length <= usize::MAX
    }

    open spec fn readable(s: Seq<u8>) -> bool {
        !spec_connect_variable_header(s).panics()
    }

    /// Writes the protocol, the flags, the keep-alive and the properties;
    /// returns 7, plus the flags byte's value, plus 2, plus the declared
    /// property length.
    fn to_buf(&self, buf: &mut Vec<u8>) -> (res: Result<usize, Error>)
        ensures
            res == Ok::<usize, Error>((9 + connect_flags_byte(self@.1) + self@.3.property_length) as usize),
            exists|w: Seq<u8>| connect_variable_header_encoding(self@, w) && final(buf)@ == old(buf)@ + w,
    {
        let ghost start = buf@;
        let mut len: usize = 0;
        len = len + match self.protocol.to_buf(buf) {
            Ok(n) => n,
            Err(_) => 0,
        };
        len = len + match self.connect_flags.to_buf(buf) {
            Ok(n) => n,
            Err(_) => 0,
        };
        put_u16(buf, self.keep_alive);
        len = len + 2;
        let ghost mid = buf@;
        len = len + match self.connect_property.to_buf(buf) {
            Ok(n) => n,
            Err(_) => 0,
        };
        proof {
            let pw = choose|pw: Seq<u8>| property_encoding(self.connect_property@, pw) && buf@ == mid + pw;
            let w = protocol_bytes() + seq![connect_flags_byte(self.connect_flags@)] + be16(self.keep_alive) + pw;
            assert(buf@ =~= start + w);
            assert(connect_variable_header_encoding(self@, w));
        }
        Ok(len)
    }

    fn from_buf(buf: &mut BytesMut) -> (res: Result<ConnectVariableHeader, Error>)
        ensures
            match spec_connect_variable_header(buf_contents(*old(buf))) {
                Decoded::Done(v, n) => res matches Ok(r) && r@ == v
                    && buf_contents(*final(buf)) == buf_contents(*old(buf)).skip(n as int),
                Decoded::Fail(e, n) => res matches Err(err) && err@ == e
                    && buf_contents(*final(buf)) == buf_contents(*old(buf)).skip(n as int),
                Decoded::Panic => false,
            },
    {
        let ghost s = buf_contents(*buf);
        proof {
            lemma_connect_variable_header_consumed(s);
        }
        let protocol = match Protocol::from_buf(buf) {
            Ok(p) => p,
            Err(e) => {
                proof {
                    assert(false);
                }
                return Err(e);
            },
        };
        let ghost n = (s.len() - buf_contents(*buf).len()) as nat;
        assert(buf_contents(*buf) =~= s.skip(n as int));
        let connect_flags = match ConnectFlags::from_buf(buf) {
            Ok(f) => f,
            Err(e) => {
                proof {
                    assert(false);
                }
                return Err(e);
            },
        };
        let keep_alive = buf_get_u16(buf);
        assert(buf_contents(*buf) =~= s.skip((n + 3) as int));
        proof {
            lemma_property_from_buf_consumed(s.skip((n + 3) as int));
        }
        let mut connect_property = match Mqtt5Property::from_buf(buf) {
            Ok(p) => p,
            Err(e) => {
                proof {
                    assert(false);
                }
                return Err(e);
            },
        };
        proof {
            assert(buf_contents(*buf) =~= s.skip((n + 3 + consumed(spec_property_from_buf(s.skip((n + 3) as int)))) as int));
        }
        match ConnectVariableHeader::check_connect_property(&mut connect_property) {
            Ok(()) => {},
            Err(e) => return Err(e),
        }
        Ok(ConnectVariableHeader { protocol, connect_flags, keep_alive, connect_property })
    }
}

impl ConnectPayload {
    /// A payload with an empty client identifier and nothing else.
    pub fn new() -> (p: ConnectPayload)
        ensures
            p@ == (Seq::<char>::empty(), None::<Mqtt5PropertyModel>, None::<Seq<char>>, None::<Seq<u8>>, None::<Seq<char>>, None::<Seq<char>>),
    {
        ConnectPayload {
            client_id: String::new(),
            will_property: None,
            will_topic: None,
            will_payload: None,
            username: None,
            password: None,
        }
    }

    fn check_will_property(will_property: &mut Mqtt5Property) -> (res: Result<(), Error>)
        ensures
            *final(will_property) == *old(will_property),
            res is Ok <==> keys_within(old(will_property)@.properties, will_property_ids()),
            res matches Err(e) ==> e@ == ErrorModel::InvalidPropertyType("Will Properties contains a invalid property"@),
    {
        let allowed: [u32; 7] = [0x01, 0x02, 0x03, 0x08, 0x09, 0x18, 0x26];
        assert(allowed@ == will_property_ids());
        if keys_allowed(&will_property.properties, &allowed) {
            Ok(())
        } else {
            Err(Error::InvalidPropertyType("Will Properties contains a invalid property".to_string()))
        }
    }

    /// Writes the client identifier, then the will, user name and password
    /// as the flags announce them; returns the count the parts report.
    #[verifier::rlimit(50)]
    #[verifier::spinoff_prover]
    pub fn to_buf(&self, buf: &mut Vec<u8>, connect_flags: &ConnectFlags) -> (res: Result<usize, Error>)
        requires
            connect_payload_writable(self@, connect_flags@),
        ensures
            res == Ok::<usize, Error>(connect_payload_count(self@, connect_flags@) as usize),
            exists|w: Seq<u8>| connect_payload_encoding(self@, connect_flags@, w) && final(buf)@ == old(buf)@ + w,
    {
        let ghost start = buf@;
        let ghost f = connect_flags@;
        let mut len: usize = 0;
        len = len + write_string(self.client_id.clone(), buf);
        let ghost after_id = buf@;
        let ghost mut ww: Seq<u8> = Seq::empty();
        if connect_flags.will_flag {
            let n = match self.will_property.as_ref() {
                Some(p) => {
                    let ghost before = buf@;
                    assert(p@ == self@.1->0);
                    let n = match p.to_buf(buf) {
                        Ok(n) => n,
                        Err(_) => 0,
                    };
                    proof {
                        ww = choose|pw: Seq<u8>| property_encoding(p@, pw) && buf@ == before + pw;
                    }
                    n
                },
                None => {
                    proof {
                        assert(false);
                    }
                    0
                },
            };
            len = len + n;
            let will_topic = match self.will_topic.as_ref() {
                Some(t) => t,
                None => {
                    proof {
                        assert(false);
                    }
                    return Err(Error::MalformedPacket);
                },
            };
            len = len + write_string(will_topic.clone(), buf);
            let will_payload = match self.will_payload.as_ref() {
                Some(b) => b,
                None => {
                    proof {
                        assert(false);
                    }
                    return Err(Error::MalformedPacket);
                },
            };
            len = len + write_bytes(will_payload.clone(), buf);
        }
        let ghost after_will = buf@;
        if connect_flags.username_flag {
            let username = match self.username.as_ref() {
                Some(u) => u,
                None => {
                    proof {
                        assert(false);
                    }
                    return Err(Error::MalformedPacket);
                },
            };
            len = len + write_string(username.clone(), buf);
        }
        let ghost after_user = buf@;
        if connect_flags.password_flag {
            let password = match self.password.as_ref() {
                Some(p) => p,
                None => {
                    proof {
                        assert(false);
                    }
                    return Err(Error::MalformedPacket);
                },
            };
            len = len + write_string(password.clone(), buf);
        }
        proof {
            let tail = optional_string_bytes(f.4, self@.4) + optional_string_bytes(f.5, self@.5);
            if f.1 {
                let w = length_prefixed(encode_utf8(self@.0)) + ww + length_prefixed(encode_utf8(self@.2->0))
                    + length_prefixed(self@.3->0) + tail;
                assert(buf@ =~= start + w);
                assert(property_encoding(self@.1->0, ww));
                assert(connect_payload_encoding(self@, f, w));
            } else {
                let w = length_prefixed(encode_utf8(self@.0)) + tail;
                assert(buf@ =~= start + w);
                assert(connect_payload_encoding(self@, f, w));
            }
        }
        Ok(len)
    }

    /// Reads the will (properties, topic, payload) when `will_flag` is set.
    fn read_will(buf: &mut BytesMut, will_flag: bool) -> (res: Result<
        (Option<Mqtt5Property>, Option<String>, Option<Bytes>),
        Error,
    >)
        requires
            !spec_will(buf_contents(*old(buf)), will_flag).panics(),
        ensures
            match spec_will(buf_contents(*old(buf)), will_flag) {
                Decoded::Done(v, n) => (res matches Ok(r) && v == (
                    match r.0 {
                        Some(p) => Some(p@),
                        None => None,
                    },
                    match r.1 {
                        Some(t) => Some(t@),
                        None => None,
                    },
                    match r.2 {
                        Some(b) => Some(bytes_contents(b)),
                        None => None,
                    },
                )) && buf_contents(*final(buf)) == buf_contents(*old(buf)).skip(n as int),
                Decoded::Fail(e, n) => res matches Err(err) && err@ == e
                    && buf_contents(*final(buf)) == buf_contents(*old(buf)).skip(n as int),
                Decoded::Panic => false,
            },
    {
        if !will_flag {
            assert(buf_contents(*buf) =~= buf_contents(*buf).skip(0));
            return Ok((None, None, None));
        }
        let ghost s = buf_contents(*buf);
        proof {
            lemma_property_from_buf_consumed(s);
        }
        let mut will_property = match Mqtt5Property::from_buf(buf) {
            Ok(p) => p,
            Err(e) => {
                proof {
                    assert(false);
                }
                return Err(e);
            },
        };
        let ghost n1 = (s.len() - buf_contents(*buf).len()) as nat;
        match ConnectPayload::check_will_property(&mut will_property) {
            Ok(()) => {},
            Err(e) => return Err(e),
        }
        proof {
            lemma_string_consumed(buf_contents(*buf));
        }
        let will_topic = match read_string(buf) {
            Ok(t) => t,
            Err(e) => {
                proof {
                    assert(false);
                }
                return Err(e);
            },
        };
        let ghost n2 = (s.len() - n1 - buf_contents(*buf).len()) as nat;
        proof {
            assert(buf_contents(*buf) =~= s.skip((n1 + n2) as int));
        }
        let will_payload = match read_bytes(buf) {
            Ok(b) => b,
            Err(e) => {
                proof {
                    assert(false);
                }
                return Err(e);
            },
        };
        proof {
            let n = (s.len() - buf_contents(*buf).len()) as nat;
            assert(buf_contents(*buf) =~= s.skip(n as int));
        }
        Ok((Some(will_property), Some(will_topic), Some(will_payload)))
    }

    /// Reads a string when `flag` is set.
    fn read_optional_string(buf: &mut BytesMut, flag: bool) -> (res: Option<String>)
        requires
            !spec_optional_string(buf_contents(*old(buf)), flag).panics(),
        ensures
            spec_optional_string(buf_contents(*old(buf)), flag) matches Decoded::Done(v, n) && v == (
                match res {
                    Some(x) => Some(x@),
                    None => None,
                }
            ) && buf_contents(*final(buf)) == buf_contents(*old(buf)).skip(n as int),
    {
        if !flag {
            assert(buf_contents(*buf) =~= buf_contents(*buf).skip(0));
            return None;
        }
        proof {
            lemma_string_consumed(buf_contents(*buf));
        }
        match read_string(buf) {
            Ok(x) => Some(x),
            Err(_) => {
                proof {
                    assert(false);
                }
                None
            },
        }
    }

    /// Reads the client identifier, then the will, user name and password
    /// as the flags announce them.
    #[verifier::rlimit(50)]
    #[verifier::spinoff_prover]
    pub fn from_buf(buf: &mut BytesMut, connect_flags: &ConnectFlags) -> (res: Result<ConnectPayload, Error>)
        requires
            !spec_connect_payload(buf_contents(*old(buf)), connect_flags@).panics(),
        ensures
            match spec_connect_payload(buf_contents(*old(buf)), connect_flags@) {
                Decoded::Done(v, n) => res matches Ok(r) && r@ == v
                    && buf_contents(*final(buf)) == buf_contents(*old(buf)).skip(n as int),
                Decoded::Fail(e, n) => res matches Err(err) && err@ == e
                    && buf_contents(*final(buf)) == buf_contents(*old(buf)).skip(n as int),
                Decoded::Panic => false,
            },
    {
        let ghost s = buf_contents(*buf);
        let mut connect_payload = ConnectPayload::new();
        proof {
            lemma_string_consumed(s);
        }
        let client_id = match read_string(buf) {
            Ok(c) => c,
            Err(e) => {
                proof {
                    assert(false);
                }
                return Err(e);
            },
        };
        connect_payload.client_id = client_id;
        let ghost n1 = (s.len() - buf_contents(*buf).len()) as nat;
        assert(buf_contents(*buf) =~= s.skip(n1 as int));
        proof {
            lemma_will_consumed(buf_contents(*buf), connect_flags@.1);
        }
        let (will_property, will_topic, will_payload) = match ConnectPayload::read_will(buf, connect_flags.will_flag) {
            Ok(w) => w,
            Err(e) => {
                proof {
                    let n = (s.len() - buf_contents(*buf).len()) as nat;
                    assert(buf_contents(*buf) =~= s.skip(n as int));
                }
                return Err(e);
            },
        };
        connect_payload.will_property = will_property;
        connect_payload.will_topic = will_topic;
        connect_payload.will_payload = will_payload;
        let ghost n2 = (s.len() - buf_contents(*buf).len()) as nat;
        proof {
            assert(buf_contents(*buf) =~= s.skip(n2 as int));
            lemma_string_consumed(buf_contents(*buf));
        }
        connect_payload.username = ConnectPayload::read_optional_string(buf, connect_flags.username_flag);
        let ghost n3 = (s.len() - buf_contents(*buf).len()) as nat;
        proof {
            assert(buf_contents(*buf) =~= s.skip(n3 as int));
            lemma_string_consumed(buf_contents(*buf));
        }
        connect_payload.password = ConnectPayload::read_optional_string(buf, connect_flags.password_flag);
        proof {
            let n = (s.len() - buf_contents(*buf).len()) as nat;
            assert(buf_contents(*buf) =~= s.skip(n as int));
        }
        Ok(connect_payload)
    }
}

/// Decoding a will takes no more bytes than there are.
pub proof fn lemma_will_consumed(s: Seq<u8>, flag: bool)
    ensures
        spec_will(s, flag).taken() <= s.len(),
{
    lemma_property_from_buf_consumed(s);
    if let Decoded::Done(p, n1) = spec_property_from_buf(s) {
        lemma_string_consumed(s.skip(n1 as int));
    }
}

/// Decoding the payload takes no more bytes than there are.
pub proof fn lemma_connect_payload_consumed(s: Seq<u8>, f: ConnectFlagsModel)
    ensures
        spec_connect_payload(s, f).taken() <= s.len(),
{
    lemma_string_consumed(s);
    if let Decoded::Done(client_id, n1) = spec_read_string_expect(s) {
        let s2 = s.skip(n1 as int);
        lemma_property_from_buf_consumed(s2);
        if let Decoded::Done(p, m1) = spec_property_from_buf(s2) {
            lemma_string_consumed(s2.skip(m1 as int));
        }
        if let Decoded::Done(w, n2) = spec_will(s2, f.1) {
            lemma_string_consumed(s.skip((n1 + n2) as int));
            if let Decoded::Done(u, n3) = spec_optional_string(s.skip((n1 + n2) as int), f.4) {
                lemma_string_consumed(s.skip((n1 + n2 + n3) as int));
            }
        }
    }
}

/// Decoding the rest of a packet takes no more bytes than there are.
pub proof fn lemma_connect_extra_consumed(s: Seq<u8>, h: FixedHeader)
    ensures
        spec_connect_extra(s, h).taken() <= s.len(),
{
    lemma_connect_variable_header_consumed(s);
    if let Decoded::Done(v, n) = spec_connect_variable_header(s) {
        lemma_connect_payload_consumed(s.skip(n as int), v.1);
    }
}

impl PacketCodec<Connect> for Connect {
    open spec fn extra_readable(s: Seq<u8>, fixed_header: FixedHeader) -> bool {
        !spec_connect_extra(s, fixed_header).panics()
    }

    #[verifier::rlimit(50)]
    #[verifier::spinoff_prover]
    fn from_buf_extra(buf: &mut BytesMut, fixed_header: FixedHeader) -> (res: Result<Connect, Error>)
        ensures
            match spec_connect_extra(buf_contents(*old(buf)), fixed_header) {
                Decoded::Done(v, n) => res matches Ok(r) && r@ == v
                    && buf_contents(*final(buf)) == buf_contents(*old(buf)).skip(n as int)
                    && n <= buf_contents(*old(buf)).len(),
                _ => false,
            },
    {
        let ghost s = buf_contents(*buf);
        proof {
            lemma_connect_variable_header_consumed(s);
        }
        let variable_header = match ConnectVariableHeader::from_buf(buf) {
            Ok(v) => v,
            Err(e) => {
                proof {
                    assert(false);
                }
                return Err(e);
            },
        };
        let ghost n = (s.len() - buf_contents(*buf).len()) as nat;
        proof {
            assert(buf_contents(*buf) =~= s.skip(n as int));
            lemma_connect_payload_consumed(buf_contents(*buf), variable_header@.1);
        }
        let payload = match ConnectPayload::from_buf(buf, &variable_header.connect_flags) {
            Ok(p) => p,
            Err(e) => {
                proof {
                    assert(false);
                }
                return Err(e);
            },
        };
        proof {
            let m = (s.len() - buf_contents(*buf).len()) as nat;
            assert(buf_contents(*buf) =~= s.skip(m as int));
        }
        Ok(Connect { fixed_header, variable_header, payload })
    }
}

impl FromToBuf<Connect> for Connect {
    open spec fn writable(&self) -> bool {
        &&& property_writable(self@.1.3)
        &&& connect_payload_writable(self@.2, self@.1.1)
        &&& fixed_header_bytes(self@.0).len() + 9 + connect_flags_byte(self@.1.1) + self@.1.3.property_length
            + connect_payload_count(self@.2, self@.1.1) <= usize::MAX
    }

    open spec fn readable(s: Seq<u8>) -> bool {
        !spec_connect(s).panics()
    }

    /// Writes the fixed header, the variable header and the payload; returns
    /// the counts they report, added.
    fn to_buf(&self, buf: &mut Vec<u8>) -> (res: Result<usize, Error>)
        ensures
            res == Ok::<usize, Error>(
                (fixed_header_bytes(self@.0).len() + 9 + connect_flags_byte(self@.1.1) + self@.1.3.property_length
                    + connect_payload_count(self@.2, self@.1.1)) as usize,
            ),
            exists|w1: Seq<u8>, w2: Seq<u8>|
                connect_variable_header_encoding(self@.1, w1) && connect_payload_encoding(self@.2, self@.1.1, w2)
                    && final(buf)@ == old(buf)@ + fixed_header_bytes(self@.0) + w1 + w2,
    {
        let ghost start = buf@;
        let mut len = match self.fixed_header.to_buf(buf) {
            Ok(n) => n,
            Err(_) => 0,
        };
        let ghost m1 = buf@;
        len = len + match self.variable_header.to_buf(buf) {
            Ok(n) => n,
            Err(_) => 0,
        };
        let ghost w1 = choose|w: Seq<u8>| connect_variable_header_encoding(self.variable_header@, w) && buf@ == m1 + w;
        let ghost m2 = buf@;
        let connect_flags = self.variable_header.connect_flags.clone();
        len = len + match self.payload.to_buf(buf, &connect_flags) {
            Ok(n) => n,
            Err(e) => return Err(e),
        };
        proof {
            let w2 = choose|w: Seq<u8>| connect_payload_encoding(self.payload@, connect_flags@, w) && buf@ == m2 + w;
            assert(buf@ =~= start + fixed_header_bytes(self.fixed_header) + w1 + w2);
        }
        Ok(len)
    }

    /// Reads a CONNECT packet: a fixed header of that type and flags, the
    /// variable header, then the payload its flags announce.
    #[verifier::rlimit(40)]
    #[verifier::spinoff_prover]
    fn from_buf(buf: &mut BytesMut) -> (res: Result<Connect, Error>)
        ensures
            match spec_connect(buf_contents(*old(buf))) {
                Decoded::Done(v, n) => res matches Ok(r) && r@ == v
                    && buf_contents(*final(buf)) == buf_contents(*old(buf)).skip(n as int),
                _ => false,
            },
    {
        let ghost s = buf_contents(*buf);
        let fixed_header = Connect::decode_fixed_header(buf);
        if fixed_header.packet_type != PacketType::CONNECT || fixed_header.dup || fixed_header.qos != Qos::AtMostOnce
            || fixed_header.retain {
            proof {
                assert(false);
            }
        }
        let ghost rest = buf_contents(*buf);
        let res = Connect::from_buf_extra(buf, fixed_header);
        proof {
            let n = (s.len() - rest.len()) as nat;
            assert(rest == s.skip(n as int));
            lemma_connect_extra_consumed(rest, fixed_header);
            if let Decoded::Done(v, m) = spec_connect_extra(rest, fixed_header) {
                assert(buf_contents(*buf) =~= s.skip((n + m) as int));
            }
        }
        res
    }
}

} // verus!
