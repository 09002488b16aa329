//! Packet identifiers, packet types, and the dispatch from a fixed header
//! to the packet it announces.
use vstd::prelude::*;
use bytes::BytesMut;
use crate::codec::buffer::buf_contents;
use crate::codec::error::{Decoded, Error};
use crate::codec::fixed_header::{spec_fixed_header, FixedHeader};
use crate::codec::{be16, put_u16, FromToBuf, FromToU8};
use crate::codec::auth::{spec_auth_extra, Auth, AuthenticateReasonCode};
use crate::codec::buffer::buf_len;
use crate::codec::connack::{spec_connack_extra, ConnAck};
use crate::codec::connect::{
    spec_connect_extra, Connect, ConnectPayloadModel, ConnectReasonCode, ConnectVariableHeaderModel,
};
use crate::codec::disconnect::{spec_disconnect_extra, Disconnect, DisconnectReasonCode};
use crate::codec::error::ErrorModel;
use crate::codec::pingreq::PingReq;
use crate::codec::pingresp::PingResp;
use crate::codec::property::Mqtt5PropertyModel;
use crate::codec::puback::{spec_puback_extra, PubAck, PubAckReasonCode};
use crate::codec::pubcomp::{spec_pubcomp_extra, PubComp, PubCompReasonCode};
use crate::codec::publish::{spec_publish_extra, Publish, Qos};
use crate::codec::pubrec::{spec_pubrec_extra, PubRec, PubRecReasonCode};
use crate::codec::pubrel::{spec_pubrel_extra, PubRel, PubRelReasonCode};
use crate::codec::suback::{spec_suback_extra, SubAck};
use crate::codec::subscribe::{spec_subscribe_extra, Subscribe, SubscribeReasonCode};
use crate::codec::unsuback::{spec_unsuback_extra, UnSubAck};
use crate::codec::unsubscribe::{spec_unsubscribe_extra, UnSubscribe, UnSubscribeReasonCode};


verus! {

/// A packet identifier: a nonzero 16-bit number.
#[derive(Debug, Clone, Copy, PartialEq, Eq, PartialOrd, Ord, Hash)]
pub struct PacketId(u16);

impl View for PacketId {
    type V = u16;

    closed spec fn view(&self) -> u16 {
        self.0
    }
}

impl PacketId {
    #[verifier::type_invariant]
    spec fn is_nonzero(self) -> bool {
        self.0 != 0
    }

    /// The identifier `value`; zero is no identifier. What `get` gives back
    /// is `value`.
    pub fn new(value: u16) -> (id: Self)
        requires
            value != 0,
        ensures
            id@ == value,
            id.get() == value,
    {
        PacketId(value)
    }

    /// The number this identifier stands for, never zero.
    #[verifier::allow_in_spec]
    pub fn get(self) -> (v: u16)
        ensures
            v != 0,
        returns
            self@,
    {
        proof {
            use_type_invariant(self);
        }
        self.0
    }

    /// Writes the identifier as two big-endian bytes; returns 2.
    pub fn to_buf(self, buf: &mut Vec<u8>) -> (n: usize)
        ensures
            final(buf)@ == old(buf)@ + be16(self@),
            n == 2,
    {
        put_u16(buf, self.get());
        2
    }

    /// The number of bytes the identifier takes.
    pub fn length(&self) -> (n: usize)
        ensures
            n == 2,
    {
        2
    }
}

impl Default for PacketId {
    fn default() -> (id: Self)
        ensures
            id@ == 1,
    {
        PacketId::new(1)
    }
}

/// The control packet types.
#[derive(Debug, Clone, Copy, PartialEq, Eq, Structural)]
pub enum PacketType {
    /// 1, Client to server, Connection request
    CONNECT,
    /// 2, Server to client, Connect acknowledgement
    CONNACK,
    /// 3, Two-way, Publish message
    PUBLISH,
    /// 4, Two-way, Publish acknowledgement (QoS 1)
    PUBACK,
    /// 5, Two-way, Publish received (QoS 2 delivery part 1)
    PUBREC,
    /// 6, Two-way, Publish release (QoS 2 delivery part 2)
    PUBREL,
    /// 7, Two-way, Publish complete (Qos 2 delivery part 3)
    PUBCOMP,
    /// 8, Client to server, Subscribe request
    SUBSCRIBE,
    /// 9, Server to client, Subscribe acknowledgement
    SUBACK,
    /// 10, Client to server, Unsubscribe request
    UNSUBSCRIBE,
    /// 11, Server to client, Unsubscribe acknowledgement
    UNSUBACK,
    /// 12, Client to server, Ping request
    PINGREQ,
    /// 13, Server to client, Ping response
    PINGRESP,
    /// 14, Two-way, Disconnect notification
    DISCONNECT,
    /// 15, Two-way, Authentication exchange
    AUTH,
}

/// The four-bit code of a packet type.
pub open spec fn packet_type_code(t: PacketType) -> u8 {
    match t {
        PacketType::CONNECT => 1,
        PacketType::CONNACK => 2,
        PacketType::PUBLISH => 3,
        PacketType::PUBACK => 4,
        PacketType::PUBREC => 5,
        PacketType::PUBREL => 6,
        PacketType::PUBCOMP => 7,
        PacketType::SUBSCRIBE => 8,
        PacketType::SUBACK => 9,
        PacketType::UNSUBSCRIBE => 10,
        PacketType::UNSUBACK => 11,
        PacketType::PINGREQ => 12,
        PacketType::PINGRESP => 13,
        PacketType::DISCONNECT => 14,
        PacketType::AUTH => 15,
    }
}

/// The packet type a code names, if any.
pub open spec fn packet_type_of(byte: u8) -> Option<PacketType> {
    if byte == 1 {
        Some(PacketType::CONNECT)
    } else if byte == 2 {
        Some(PacketType::CONNACK)
    } else if byte == 3 {
        Some(PacketType::PUBLISH)
    } else if byte == 4 {
        Some(PacketType::PUBACK)
    } else if byte == 5 {
        Some(PacketType::PUBREC)
    } else if byte == 6 {
        Some(PacketType::PUBREL)
    } else if byte == 7 {
        Some(PacketType::PUBCOMP)
    } else if byte == 8 {
        Some(PacketType::SUBSCRIBE)
    } else if byte == 9 {
        Some(PacketType::SUBACK)
    } else if byte == 10 {
        Some(PacketType::UNSUBSCRIBE)
    } else if byte == 11 {
        Some(PacketType::UNSUBACK)
    } else if byte == 12 {
        Some(PacketType::PINGREQ)
    } else if byte == 13 {
        Some(PacketType::PINGRESP)
    } else if byte == 14 {
        Some(PacketType::DISCONNECT)
    } else if byte == 15 {
        Some(PacketType::AUTH)
    } else {
        None
    }
}

/// A code names a packet type exactly when it is the code of that type.
pub proof fn lemma_packet_type_code(t: PacketType, byte: u8)
    ensures
        packet_type_of(packet_type_code(t)) == Some(t),
        1 <= packet_type_code(t) <= 15,
        packet_type_of(byte) == Some(t) <==> packet_type_code(t) == byte,
        packet_type_of(byte) is None <==> byte == 0 || byte > 15,
{
}

impl Default for PacketType {
    fn default() -> (t: Self)
        ensures
            t == PacketType::DISCONNECT,
    {
        PacketType::DISCONNECT
    }
}

impl FromToU8<PacketType> for PacketType {
    fn to_u8(&self) -> (b: u8)
        ensures
            b == packet_type_code(*self),
    {
        match *self {
            PacketType::CONNECT => 1,
            PacketType::CONNACK => 2,
            PacketType::PUBLISH => 3,
            PacketType::PUBACK => 4,
            PacketType::PUBREC => 5,
            PacketType::PUBREL => 6,
            PacketType::PUBCOMP => 7,
            PacketType::SUBSCRIBE => 8,
            PacketType::SUBACK => 9,
            PacketType::UNSUBSCRIBE => 10,
            PacketType::UNSUBACK => 11,
            PacketType::PINGREQ => 12,
            PacketType::PINGRESP => 13,
            PacketType::DISCONNECT => 14,
            PacketType::AUTH => 15,
        }
    }

    fn from_u8(byte: u8) -> (res: Result<PacketType, Error>)
        ensures
            match packet_type_of(byte) {
                Some(t) => res == Ok::<PacketType, Error>(t),
                None => res == Err::<PacketType, Error>(Error::InvalidPacketType(byte)),
            },
    {
        match byte {
            1 => Ok(PacketType::CONNECT),
            2 => Ok(PacketType::CONNACK),
            3 => Ok(PacketType::PUBLISH),
            4 => Ok(PacketType::PUBACK),
            5 => Ok(PacketType::PUBREC),
            6 => Ok(PacketType::PUBREL),
            7 => Ok(PacketType::PUBCOMP),
            8 => Ok(PacketType::SUBSCRIBE),
            9 => Ok(PacketType::SUBACK),
            10 => Ok(PacketType::UNSUBSCRIBE),
            11 => Ok(PacketType::UNSUBACK),
            12 => Ok(PacketType::PINGREQ),
            13 => Ok(PacketType::PINGRESP),
            14 => Ok(PacketType::DISCONNECT),
            15 => Ok(PacketType::AUTH),
            n => Err(Error::InvalidPacketType(n)),
        }
    }
}

/// Packets that are read after their fixed header.
pub trait PacketCodec<R>: Sized {
    /// Whether `from_buf_extra` returns on a buffer holding `s`, after the
    /// fixed header `fixed_header` (rather than panicking).
    spec fn extra_readable(s: Seq<u8>, fixed_header: FixedHeader) -> bool;

    /// Reads a fixed header, which must be there.
    fn decode_fixed_header(buf: &mut BytesMut) -> (fixed_header: FixedHeader)
        requires
            spec_fixed_header(buf_contents(*old(buf))) is Done,
        ensures
            spec_fixed_header(buf_contents(*old(buf))) matches Decoded::Done(h, n) && h == fixed_header
                && buf_contents(*final(buf)) == buf_contents(*old(buf)).skip(n as int),
    {
        match FixedHeader::from_buf(buf) {
            Ok(fixed_header) => fixed_header,
            Err(_) => {
                proof {
                    assert(false);
                }
                FixedHeader::default()
            },
        }
    }

    /// Reads the rest of a packet whose fixed header has been read.
    fn from_buf_extra(buf: &mut BytesMut, fixed_header: FixedHeader) -> (res: Result<R, Error>)
        requires
            Self::extra_readable(buf_contents(*old(buf)), fixed_header),
    ;
}

/// A control packet of any type.
#[derive(Debug, Clone, PartialEq)]
pub enum Packet {
    Connect(Connect),
    ConnAck(ConnAck),
    Publish(Publish),
    PubAck(PubAck),
    PubRec(PubRec),
    PubRel(PubRel),
    PubComp(PubComp),
    Subscribe(Subscribe),
    SubAck(SubAck),
    UnSubscribe(UnSubscribe),
    UnSubAck(UnSubAck),
    PingReq(PingReq),
    PingResp(PingResp),
    Disconnect(Disconnect),
    Auth(Auth),
}

/// A [`Packet`] as the model of the packet it holds.
pub enum PacketModel {
    Connect((FixedHeader, ConnectVariableHeaderModel, ConnectPayloadModel)),
    ConnAck((FixedHeader, (bool, ConnectReasonCode, Mqtt5PropertyModel))),
    Publish((FixedHeader, (Seq<char>, u16, Mqtt5PropertyModel), Seq<u8>)),
    PubAck((FixedHeader, (u16, PubAckReasonCode, Mqtt5PropertyModel))),
    PubRec((FixedHeader, (u16, PubRecReasonCode, Mqtt5PropertyModel))),
    PubRel((FixedHeader, (u16, PubRelReasonCode, Mqtt5PropertyModel))),
    PubComp((FixedHeader, (u16, PubCompReasonCode, Mqtt5PropertyModel))),
    Subscribe((FixedHeader, (u16, Mqtt5PropertyModel), Seq<(Seq<char>, (Qos, bool, bool, u8))>)),
    SubAck((FixedHeader, (u16, Mqtt5PropertyModel), Seq<SubscribeReasonCode>)),
    UnSubscribe((FixedHeader, (u16, Mqtt5PropertyModel), Seq<Seq<char>>)),
    UnSubAck((FixedHeader, (u16, Mqtt5PropertyModel), Seq<UnSubscribeReasonCode>)),
    PingReq(FixedHeader),
    PingResp(FixedHeader),
    Disconnect((FixedHeader, (DisconnectReasonCode, Mqtt5PropertyModel))),
    Auth((FixedHeader, (AuthenticateReasonCode, Mqtt5PropertyModel))),
}

impl View for Packet {
    type V = PacketModel;

    open spec fn view(&self) -> PacketModel {
        match self {
            Packet::Connect(p) => PacketModel::Connect(p@),
            Packet::ConnAck(p) => PacketModel::ConnAck(p@),
            Packet::Publish(p) => PacketModel::Publish(p@),
            Packet::PubAck(p) => PacketModel::PubAck(p@),
            Packet::PubRec(p) => PacketModel::PubRec(p@),
            Packet::PubRel(p) => PacketModel::PubRel(p@),
            Packet::PubComp(p) => PacketModel::PubComp(p@),
            Packet::Subscribe(p) => PacketModel::Subscribe(p@),
            Packet::SubAck(p) => PacketModel::SubAck(p@),
            Packet::UnSubscribe(p) => PacketModel::UnSubscribe(p@),
            Packet::UnSubAck(p) => PacketModel::UnSubAck(p@),
            Packet::PingReq(p) => PacketModel::PingReq(p@),
            Packet::PingResp(p) => PacketModel::PingResp(p@),
            Packet::Disconnect(p) => PacketModel::Disconnect(p@),
            Packet::Auth(p) => PacketModel::Auth(p@),
        }
    }
}

/// Decoding a packet of any type from the front of `s`: fewer than two
/// bytes are incomplete; otherwise the fixed header says which packet follows.
pub open spec fn spec_packet(s: Seq<u8>) -> Decoded<PacketModel> {
    if s.len() <= 1 {
        Decoded::Fail(ErrorModel::Incomplete, 0)
    } else {
        match spec_fixed_header(s) {
            Decoded::Done(h, n) => spec_packet_body(s.skip(n as int), h).shifted(n),
            _ => Decoded::Panic,
        }
    }
}

/// Decoding the rest of a packet from `r`, after its fixed header `h`:
/// the packet the header's type names.
#[verifier::opaque]
pub open spec fn spec_packet_body(r: Seq<u8>, h: FixedHeader) -> Decoded<PacketModel> {
    match h.packet_type {
        PacketType::CONNECT => match spec_connect_extra(r, h) {
            Decoded::Done(v, m) => Decoded::Done(PacketModel::Connect(v), m),
            _ => Decoded::Panic,
        },
        PacketType::CONNACK => match spec_connack_extra(r, h) {
            Decoded::Done(v, m) => Decoded::Done(PacketModel::ConnAck(v), m),
            _ => Decoded::Panic,
        },
        PacketType::PUBLISH => match spec_publish_extra(r, h) {
            Decoded::Done(v, m) => Decoded::Done(PacketModel::Publish(v), m),
            _ => Decoded::Panic,
        },
        PacketType::PUBACK => match spec_puback_extra(r, h) {
            Decoded::Done(v, m) => Decoded::Done(PacketModel::PubAck(v), m),
            _ => Decoded::Panic,
        },
        PacketType::PUBREC => match spec_pubrec_extra(r, h) {
            Decoded::Done(v, m) => Decoded::Done(PacketModel::PubRec(v), m),
            _ => Decoded::Panic,
        },
        PacketType::PUBREL => match spec_pubrel_extra(r, h) {
            Decoded::Done(v, m) => Decoded::Done(PacketModel::PubRel(v), m),
            _ => Decoded::Panic,
        },
        PacketType::PUBCOMP => match spec_pubcomp_extra(r, h) {
            Decoded::Done(v, m) => Decoded::Done(PacketModel::PubComp(v), m),
            _ => Decoded::Panic,
        },
        PacketType::SUBSCRIBE => match spec_subscribe_extra(r, h) {
            Decoded::Done(v, m) => Decoded::Done(PacketModel::Subscribe(v), m),
            _ => Decoded::Panic,
        },
        PacketType::SUBACK => match spec_suback_extra(r, h) {
            Decoded::Done(v, m) => Decoded::Done(PacketModel::SubAck(v), m),
            _ => Decoded::Panic,
        },
        PacketType::UNSUBSCRIBE => match spec_unsubscribe_extra(r, h) {
            Decoded::Done(v, m) => Decoded::Done(PacketModel::UnSubscribe(v), m),
            _ => Decoded::Panic,
        },
        PacketType::UNSUBACK => match spec_unsuback_extra(r, h) {
            Decoded::Done(v, m) => Decoded::Done(PacketModel::UnSubAck(v), m),
            _ => Decoded::Panic,
        },
        PacketType::PINGREQ => Decoded::Done(PacketModel::PingReq(h), 0),
        PacketType::PINGRESP => Decoded::Done(PacketModel::PingResp(h), 0),
        PacketType::DISCONNECT => match spec_disconnect_extra(r, h) {
            Decoded::Done(v, m) => Decoded::Done(PacketModel::Disconnect(v), m),
            _ => Decoded::Panic,
        },
        PacketType::AUTH => match spec_auth_extra(r, h) {
            Decoded::Done(v, m) => Decoded::Done(PacketModel::Auth(v), m),
            _ => Decoded::Panic,
        },
    }
}

/// Decoding a packet reads its fixed header, then the rest.
pub(crate) proof fn lemma_packet_body(s: Seq<u8>, h: FixedHeader, n: nat)
    requires
        s.len() > 1,
        spec_fixed_header(s) == Decoded::Done(h, n),
    ensures
        spec_packet(s) == spec_packet_body(s.skip(n as int), h).shifted(n),
{
}

/// A packet that decodes has a fixed header that decodes.
proof fn lemma_packet_header(s: Seq<u8>)
    requires
        s.len() > 1,
        !spec_packet(s).panics(),
    ensures
        spec_fixed_header(s) is Done,
{
}

impl Packet {
    /// Reads a packet of any type from the front of `buf`; what is left in
    /// the buffer is what follows the packet.
    #[verifier::rlimit(60)]
    #[verifier::spinoff_prover]
    pub fn parse(buf: &mut BytesMut) -> (res: Result<Packet, Error>)
        requires
            !spec_packet(buf_contents(*old(buf))).panics(),
        ensures
            match spec_packet(buf_contents(*old(buf))) {
                Decoded::Done(v, n) => res matches Ok(r) && r@ == v
                    && buf_contents(*final(buf)) == buf_contents(*old(buf)).skip(n as int),
                Decoded::Fail(e, n) => res matches Err(err) && err@ == e
                    && buf_contents(*final(buf)) == buf_contents(*old(buf)).skip(n as int),
                Decoded::Panic => false,
            },
    {
        let ghost s = buf_contents(*buf);
        if buf_len(buf) <= 1 {
            assert(buf_contents(*buf) =~= buf_contents(*buf).skip(0));
            return Err(Error::Incomplete);
        }
        proof {
            lemma_packet_header(s);
        }
        let fixed_header = match FixedHeader::from_buf(buf) {
            Ok(h) => h,
            Err(e) => {
                proof {
                    assert(false);
                }
                return Err(e);
            },
        };
        let ghost r = buf_contents(*buf);
        let ghost n: nat = match spec_fixed_header(s) {
            Decoded::Done(_, k) => k,
            _ => 0,
        };
        proof {
            assert(spec_fixed_header(s) == Decoded::Done(fixed_header, n));
            assert(r == s.skip(n as int));
            lemma_packet_body(s, fixed_header, n);
        }
        let res = Packet::parse_body(buf, fixed_header);
        proof {
            if let Decoded::Done(v, m) = spec_packet_body(r, fixed_header) {
                assert(buf_contents(*buf) == r.skip(m as int));
                assert(m <= r.len());
                assert(s.skip(n as int).skip(m as int) =~= s.skip((n + m) as int));
            }
        }
        res
    }

    /// Reads the rest of a packet after its fixed header `h`, with the
    /// decoder of the type `h` names; what is left in the buffer is what
    /// follows the packet.
    #[verifier::rlimit(100)]
    #[verifier::spinoff_prover]
    fn parse_body(buf: &mut BytesMut, h: FixedHeader) -> (res: Result<Packet, Error>)
        requires
            !spec_packet_body(buf_contents(*old(buf)), h).panics(),
        ensures
            match spec_packet_body(buf_contents(*old(buf)), h) {
                Decoded::Done(v, n) => res matches Ok(r) && r@ == v
                    && buf_contents(*final(buf)) == buf_contents(*old(buf)).skip(n as int)
                    && n <= buf_contents(*old(buf)).len(),
                _ => false,
            },
    {
        let ghost r = buf_contents(*buf);
        assert(r.skip(0) =~= r);
        reveal(spec_packet_body);
        let packet = match h.packet_type {
            PacketType::CONNECT => {
                let connect = match Connect::from_buf_extra(buf, h) {
                    Ok(p) => p,
                    Err(e) => {
                        proof {
                            assert(false);
                        }
                        return Err(e);
                    },
                };
                Packet::Connect(connect)
            },
            PacketType::CONNACK => {
                let connack = match ConnAck::from_buf_extra(buf, h) {
                    Ok(p) => p,
                    Err(e) => {
                        proof {
                            assert(false);
                        }
                        return Err(e);
                    },
                };
                Packet::ConnAck(connack)
            },
            PacketType::PUBLISH => {
                let publish = match Publish::from_buf_extra(buf, h) {
                    Ok(p) => p,
                    Err(e) => {
                        proof {
                            assert(false);
                        }
                        return Err(e);
                    },
                };
                Packet::Publish(publish)
            },
            PacketType::PUBACK => {
                let puback = match PubAck::from_buf_extra(buf, h) {
                    Ok(p) => p,
                    Err(e) => {
                        proof {
                            assert(false);
                        }
                        return Err(e);
                    },
                };
                Packet::PubAck(puback)
            },
            PacketType::PUBREC => {
                let pubrec = match PubRec::from_buf_extra(buf, h) {
                    Ok(p) => p,
                    Err(e) => {
                        proof {
                            assert(false);
                        }
                        return Err(e);
                    },
                };
                Packet::PubRec(pubrec)
            },
            PacketType::PUBREL => {
                let pubrel = match PubRel::from_buf_extra(buf, h) {
                    Ok(p) => p,
                    Err(e) => {
                        proof {
                            assert(false);
                        }
                        return Err(e);
                    },
                };
                Packet::PubRel(pubrel)
            },
            PacketType::PUBCOMP => {
                let pubcomp = match PubComp::from_buf_extra(buf, h) {
                    Ok(p) => p,
                    Err(e) => {
                        proof {
                            assert(false);
                        }
                        return Err(e);
                    },
                };
                Packet::PubComp(pubcomp)
            },
            PacketType::SUBSCRIBE => {
                let subscribe = match Subscribe::from_buf_extra(buf, h) {
                    Ok(p) => p,
                    Err(e) => {
                        proof {
                            assert(false);
                        }
                        return Err(e);
                    },
                };
                Packet::Subscribe(subscribe)
            },
            PacketType::SUBACK => {
                let suback = match SubAck::from_buf_extra(buf, h) {
                    Ok(p) => p,
                    Err(e) => {
                        proof {
                            assert(false);
                        }
                        return Err(e);
                    },
                };
                Packet::SubAck(suback)
            },
            PacketType::UNSUBSCRIBE => {
                let unsubscribe = match UnSubscribe::from_buf_extra(buf, h) {
                    Ok(p) => p,
                    Err(e) => {
                        proof {
                            assert(false);
                        }
                        return Err(e);
                    },
                };
                Packet::UnSubscribe(unsubscribe)
            },
            PacketType::UNSUBACK => {
                let unsuback = match UnSubAck::from_buf_extra(buf, h) {
                    Ok(p) => p,
                    Err(e) => {
                        proof {
                            assert(false);
                        }
                        return Err(e);
                    },
                };
                Packet::UnSubAck(unsuback)
            },
            PacketType::PINGREQ => {
                let pingreq = match PingReq::from_buf_extra(buf, h) {
                    Ok(p) => p,
                    Err(e) => {
                        proof {
                            assert(false);
                        }
                        return Err(e);
                    },
                };
                Packet::PingReq(pingreq)
            },
            PacketType::PINGRESP => {
                let pingresp = match PingResp::from_buf_extra(buf, h) {
                    Ok(p) => p,
                    Err(e) => {
                        proof {
                            assert(false);
                        }
                        return Err(e);
                    },
                };
                Packet::PingResp(pingresp)
            },
            PacketType::DISCONNECT => {
                let disconnect = match Disconnect::from_buf_extra(buf, h) {
                    Ok(p) => p,
                    Err(e) => {
                        proof {
                            assert(false);
                        }
                        return Err(e);
                    },
                };
                Packet::Disconnect(disconnect)
            },
            PacketType::AUTH => {
                let auth = match Auth::from_buf_extra(buf, h) {
                    Ok(p) => p,
                    Err(e) => {
                        proof {
                            assert(false);
                        }
                        return Err(e);
                    },
                };
                Packet::Auth(auth)
            },
        };
        Ok(packet)
    }
}

} // verus!
