//! Writing a packet of any type: the bytes its own encoder writes.
use vstd::prelude::*;
use crate::codec::FromToBuf;
use crate::codec::auth::auth_variable_header_encoding;
use crate::codec::connack::connack_variable_header_encoding;
use crate::codec::connect::{connect_payload_encoding, connect_variable_header_encoding};
use crate::codec::disconnect::disconnect_variable_header_encoding;
use crate::codec::fixed_header::{fixed_header_bytes, FixedHeader};
use crate::codec::connect::{ConnectPayloadModel, ConnectReasonCode, ConnectVariableHeaderModel};
use crate::codec::property::Mqtt5PropertyModel;
use crate::codec::auth::AuthenticateReasonCode;
use crate::codec::disconnect::DisconnectReasonCode;
use crate::codec::puback::PubAckReasonCode;
use crate::codec::pubcomp::PubCompReasonCode;
use crate::codec::publish::Qos;
use crate::codec::pubrec::PubRecReasonCode;
use crate::codec::pubrel::PubRelReasonCode;
use crate::codec::subscribe::SubscribeReasonCode;
use crate::codec::unsubscribe::UnSubscribeReasonCode;
use crate::codec::packet::{Packet, PacketModel};
use crate::codec::puback::puback_variable_header_encoding;
use crate::codec::pubcomp::pubcomp_variable_header_encoding;
use crate::codec::publish::publish_variable_header_encoding;
use crate::codec::pubrec::pubrec_variable_header_encoding;
use crate::codec::pubrel::pubrel_variable_header_encoding;
use crate::codec::suback::{suback_codes_bytes, suback_variable_header_encoding};
use crate::codec::subscribe::{subscribe_payload_bytes, subscribe_variable_header_encoding};
use crate::codec::unsuback::{unsuback_codes_bytes, unsuback_variable_header_encoding};
use crate::codec::unsubscribe::{unsubscribe_payload_bytes, unsubscribe_variable_header_encoding};

verus! {

/// `w` is how CONNECT packet `c` is written: its fixed header, variable
/// header and payload.
pub open spec fn connect_packet_encoding(
    c: (FixedHeader, ConnectVariableHeaderModel, ConnectPayloadModel),
    w: Seq<u8>,
) -> bool {
    exists|w1: Seq<u8>, w2: Seq<u8>|
        #![trigger connect_variable_header_encoding(c.1, w1), connect_payload_encoding(c.2, c.1.1, w2)]
        connect_variable_header_encoding(c.1, w1) && connect_payload_encoding(c.2, c.1.1, w2) && w
            == fixed_header_bytes(c.0) + w1 + w2
}

/// `w` is how CONNACK packet `c` is written.
pub open spec fn connack_packet_encoding(
    c: (FixedHeader, (bool, ConnectReasonCode, Mqtt5PropertyModel)),
    w: Seq<u8>,
) -> bool {
    exists|v: Seq<u8>| #[trigger] connack_variable_header_encoding(c.1, v) && w == fixed_header_bytes(c.0) + v
}

/// `w` is how PUBLISH packet `c` is written.
pub open spec fn publish_packet_encoding(
    c: (FixedHeader, (Seq<char>, u16, Mqtt5PropertyModel), Seq<u8>),
    w: Seq<u8>,
) -> bool {
    exists|v: Seq<u8>| #[trigger] publish_variable_header_encoding(c.1, v) && w == fixed_header_bytes(c.0) + v + c.2
}

/// `w` is how PUBACK packet `c` is written.
pub open spec fn puback_packet_encoding(c: (FixedHeader, (u16, PubAckReasonCode, Mqtt5PropertyModel)), w: Seq<u8>) -> bool {
    exists|v: Seq<u8>| #[trigger] puback_variable_header_encoding(c.1, v) && w == fixed_header_bytes(c.0) + v
}

/// `w` is how PUBREC packet `c` is written.
pub open spec fn pubrec_packet_encoding(c: (FixedHeader, (u16, PubRecReasonCode, Mqtt5PropertyModel)), w: Seq<u8>) -> bool {
    exists|v: Seq<u8>| #[trigger] pubrec_variable_header_encoding(c.1, v) && w == fixed_header_bytes(c.0) + v
}

/// `w` is how PUBREL packet `c` is written.
pub open spec fn pubrel_packet_encoding(c: (FixedHeader, (u16, PubRelReasonCode, Mqtt5PropertyModel)), w: Seq<u8>) -> bool {
    exists|v: Seq<u8>| #[trigger] pubrel_variable_header_encoding(c.1, v) && w == fixed_header_bytes(c.0) + v
}

/// `w` is how PUBCOMP packet `c` is written.
pub open spec fn pubcomp_packet_encoding(c: (FixedHeader, (u16, PubCompReasonCode, Mqtt5PropertyModel)), w: Seq<u8>) -> bool {
    exists|v: Seq<u8>| #[trigger] pubcomp_variable_header_encoding(c.1, v) && w == fixed_header_bytes(c.0) + v
}

/// `w` is how SUBSCRIBE packet `c` is written.
pub open spec fn subscribe_packet_encoding(c: (FixedHeader, (u16, Mqtt5PropertyModel), Seq<(Seq<char>, (Qos, bool, bool, u8))>), w: Seq<u8>) -> bool {
    exists|v: Seq<u8>| #[trigger] subscribe_variable_header_encoding(c.1, v) && w == fixed_header_bytes(c.0) + v + subscribe_payload_bytes(c.2)
}

/// `w` is how SUBACK packet `c` is written.
pub open spec fn suback_packet_encoding(c: (FixedHeader, (u16, Mqtt5PropertyModel), Seq<SubscribeReasonCode>), w: Seq<u8>) -> bool {
    exists|v: Seq<u8>| #[trigger] suback_variable_header_encoding(c.1, v) && w == fixed_header_bytes(c.0) + v + suback_codes_bytes(c.2)
}

/// `w` is how UNSUBSCRIBE packet `c` is written.
pub open spec fn unsubscribe_packet_encoding(c: (FixedHeader, (u16, Mqtt5PropertyModel), Seq<Seq<char>>), w: Seq<u8>) -> bool {
    exists|v: Seq<u8>| #[trigger] unsubscribe_variable_header_encoding(c.1, v) && w == fixed_header_bytes(c.0) + v + unsubscribe_payload_bytes(c.2)
}

/// `w` is how UNSUBACK packet `c` is written.
pub open spec fn unsuback_packet_encoding(c: (FixedHeader, (u16, Mqtt5PropertyModel), Seq<UnSubscribeReasonCode>), w: Seq<u8>) -> bool {
    exists|v: Seq<u8>| #[trigger] unsuback_variable_header_encoding(c.1, v) && w == fixed_header_bytes(c.0) + v + unsuback_codes_bytes(c.2)
}

/// `w` is how DISCONNECT packet `c` is written.
pub open spec fn disconnect_packet_encoding(c: (FixedHeader, (DisconnectReasonCode, Mqtt5PropertyModel)), w: Seq<u8>) -> bool {
    exists|v: Seq<u8>| #[trigger] disconnect_variable_header_encoding(c.1, v) && w == fixed_header_bytes(c.0) + v
}

/// `w` is how AUTH packet `c` is written.
pub open spec fn auth_packet_encoding(c: (FixedHeader, (AuthenticateReasonCode, Mqtt5PropertyModel)), w: Seq<u8>) -> bool {
    exists|v: Seq<u8>| #[trigger] auth_variable_header_encoding(c.1, v) && w == fixed_header_bytes(c.0) + v
}

/// `w` is how packet `p` is written: its fixed header, then the variable
/// header as its encoder writes it, then the payload.
pub open spec fn packet_encoding(p: PacketModel, w: Seq<u8>) -> bool {
    match p {
        PacketModel::Connect(c) => connect_packet_encoding(c, w),
        PacketModel::ConnAck(c) => connack_packet_encoding(c, w),
        PacketModel::Publish(c) => publish_packet_encoding(c, w),
        PacketModel::PubAck(c) => puback_packet_encoding(c, w),
        PacketModel::PubRec(c) => pubrec_packet_encoding(c, w),
        PacketModel::PubRel(c) => pubrel_packet_encoding(c, w),
        PacketModel::PubComp(c) => pubcomp_packet_encoding(c, w),
        PacketModel::Subscribe(c) => subscribe_packet_encoding(c, w),
        PacketModel::SubAck(c) => suback_packet_encoding(c, w),
        PacketModel::UnSubscribe(c) => unsubscribe_packet_encoding(c, w),
        PacketModel::UnSubAck(c) => unsuback_packet_encoding(c, w),
        PacketModel::PingReq(h) => w == fixed_header_bytes(h),
        PacketModel::PingResp(h) => w == fixed_header_bytes(h),
        PacketModel::Disconnect(c) => disconnect_packet_encoding(c, w),
        PacketModel::Auth(c) => auth_packet_encoding(c, w),
    }
}

/// Writes `packet` to the back of `buf` with the encoder of its type.
#[verifier::rlimit(80)]
#[verifier::spinoff_prover]
pub fn write_packet(packet: &Packet, buf: &mut Vec<u8>)
    requires
        match packet {
            Packet::Connect(x) => x.writable(),
            Packet::ConnAck(x) => x.writable(),
            Packet::Publish(x) => x.writable(),
            Packet::PubAck(x) => x.writable(),
            Packet::PubRec(x) => x.writable(),
            Packet::PubRel(x) => x.writable(),
            Packet::PubComp(x) => x.writable(),
            Packet::Subscribe(x) => x.writable(),
            Packet::SubAck(x) => x.writable(),
            Packet::UnSubscribe(x) => x.writable(),
            Packet::UnSubAck(x) => x.writable(),
            Packet::PingReq(x) => x.writable(),
            Packet::PingResp(x) => x.writable(),
            Packet::Disconnect(x) => x.writable(),
            Packet::Auth(x) => x.writable(),
        },
    ensures
        exists|w: Seq<u8>| packet_encoding(packet@, w) && final(buf)@ == old(buf)@ + w,
{
    let ghost start = buf@;
    match packet {
        Packet::Connect(x) => {
            let _ = x.to_buf(buf);
            proof {
                let (w1, w2) = choose|w1: Seq<u8>, w2: Seq<u8>|
                    connect_variable_header_encoding(x@.1, w1) && connect_payload_encoding(x@.2, x@.1.1, w2)
                        && buf@ == start + fixed_header_bytes(x@.0) + w1 + w2;
                assert(connect_variable_header_encoding(x@.1, w1));
                assert(connect_payload_encoding(x@.2, x@.1.1, w2));
                assert(buf@ =~= start + (fixed_header_bytes(x@.0) + w1 + w2));
                assert(connect_packet_encoding(x@, fixed_header_bytes(x@.0) + w1 + w2));
                assert(packet_encoding(packet@, fixed_header_bytes(x@.0) + w1 + w2));
            }
        },
        Packet::ConnAck(x) => {
            let _ = x.to_buf(buf);
            proof {
                let v = choose|v: Seq<u8>|
                    connack_variable_header_encoding(x@.1, v) && buf@ == start + fixed_header_bytes(x@.0) + v;
                assert(buf@ =~= start + (fixed_header_bytes(x@.0) + v));
                assert(connack_packet_encoding(x@, fixed_header_bytes(x@.0) + v));
                assert(packet_encoding(packet@, fixed_header_bytes(x@.0) + v));
            }
        },
        Packet::Publish(x) => {
            let _ = x.to_buf(buf);
            proof {
                let v = choose|v: Seq<u8>|
                    publish_variable_header_encoding(x@.1, v) && buf@ == start + fixed_header_bytes(x@.0) + v + x@.2;
                assert(buf@ =~= start + (fixed_header_bytes(x@.0) + v + x@.2));
                assert(publish_packet_encoding(x@, fixed_header_bytes(x@.0) + v + x@.2));
                assert(packet_encoding(packet@, fixed_header_bytes(x@.0) + v + x@.2));
            }
        },
        Packet::PubAck(x) => {
            let _ = x.to_buf(buf);
            proof {
                let v = choose|v: Seq<u8>|
                    puback_variable_header_encoding(x@.1, v) && buf@ == start + fixed_header_bytes(x@.0) + v;
                assert(buf@ =~= start + (fixed_header_bytes(x@.0) + v));
                assert(puback_packet_encoding(x@, fixed_header_bytes(x@.0) + v));
                assert(packet_encoding(packet@, fixed_header_bytes(x@.0) + v));
            }
        },
        Packet::PubRec(x) => {
            let _ = x.to_buf(buf);
            proof {
                let v = choose|v: Seq<u8>|
                    pubrec_variable_header_encoding(x@.1, v) && buf@ == start + fixed_header_bytes(x@.0) + v;
                assert(buf@ =~= start + (fixed_header_bytes(x@.0) + v));
                assert(pubrec_packet_encoding(x@, fixed_header_bytes(x@.0) + v));
                assert(packet_encoding(packet@, fixed_header_bytes(x@.0) + v));
            }
        },
        Packet::PubRel(x) => {
            let _ = x.to_buf(buf);
            proof {
                let v = choose|v: Seq<u8>|
                    pubrel_variable_header_encoding(x@.1, v) && buf@ == start + fixed_header_bytes(x@.0) + v;
                assert(buf@ =~= start + (fixed_header_bytes(x@.0) + v));
                assert(pubrel_packet_encoding(x@, fixed_header_bytes(x@.0) + v));
                assert(packet_encoding(packet@, fixed_header_bytes(x@.0) + v));
            }
        },
        Packet::PubComp(x) => {
            let _ = x.to_buf(buf);
            proof {
                let v = choose|v: Seq<u8>|
                    pubcomp_variable_header_encoding(x@.1, v) && buf@ == start + fixed_header_bytes(x@.0) + v;
                assert(buf@ =~= start + (fixed_header_bytes(x@.0) + v));
                assert(pubcomp_packet_encoding(x@, fixed_header_bytes(x@.0) + v));
                assert(packet_encoding(packet@, fixed_header_bytes(x@.0) + v));
            }
        },
        Packet::Subscribe(x) => {
            let _ = x.to_buf(buf);
            proof {
                let v = choose|v: Seq<u8>|
                    subscribe_variable_header_encoding(x@.1, v) && buf@ == start + fixed_header_bytes(x@.0) + v
                        + subscribe_payload_bytes(x@.2);
                assert(buf@ =~= start + (fixed_header_bytes(x@.0) + v + subscribe_payload_bytes(x@.2)));
                assert(subscribe_packet_encoding(x@, fixed_header_bytes(x@.0) + v + subscribe_payload_bytes(x@.2)));
                assert(packet_encoding(packet@, fixed_header_bytes(x@.0) + v + subscribe_payload_bytes(x@.2)));
            }
        },
        Packet::SubAck(x) => {
            let _ = x.to_buf(buf);
            proof {
                let v = choose|v: Seq<u8>|
                    suback_variable_header_encoding(x@.1, v) && buf@ == start + fixed_header_bytes(x@.0) + v
                        + suback_codes_bytes(x@.2);
                assert(buf@ =~= start + (fixed_header_bytes(x@.0) + v + suback_codes_bytes(x@.2)));
                assert(suback_packet_encoding(x@, fixed_header_bytes(x@.0) + v + suback_codes_bytes(x@.2)));
                assert(packet_encoding(packet@, fixed_header_bytes(x@.0) + v + suback_codes_bytes(x@.2)));
            }
        },
        Packet::UnSubscribe(x) => {
            let _ = x.to_buf(buf);
            proof {
                let v = choose|v: Seq<u8>|
                    unsubscribe_variable_header_encoding(x@.1, v) && buf@ == start + fixed_header_bytes(x@.0) + v
                        + unsubscribe_payload_bytes(x@.2);
                assert(buf@ =~= start + (fixed_header_bytes(x@.0) + v + unsubscribe_payload_bytes(x@.2)));
                assert(unsubscribe_packet_encoding(x@, fixed_header_bytes(x@.0) + v + unsubscribe_payload_bytes(x@.2)));
                assert(packet_encoding(packet@, fixed_header_bytes(x@.0) + v + unsubscribe_payload_bytes(x@.2)));
            }
        },
        Packet::UnSubAck(x) => {
            let _ = x.to_buf(buf);
            proof {
                let v = choose|v: Seq<u8>|
                    unsuback_variable_header_encoding(x@.1, v) && buf@ == start + fixed_header_bytes(x@.0) + v
                        + unsuback_codes_bytes(x@.2);
                assert(buf@ =~= start + (fixed_header_bytes(x@.0) + v + unsuback_codes_bytes(x@.2)));
                assert(unsuback_packet_encoding(x@, fixed_header_bytes(x@.0) + v + unsuback_codes_bytes(x@.2)));
                assert(packet_encoding(packet@, fixed_header_bytes(x@.0) + v + unsuback_codes_bytes(x@.2)));
            }
        },
        Packet::PingReq(x) => {
            let _ = x.to_buf(buf);
            assert(packet_encoding(packet@, fixed_header_bytes(x@)));
        },
        Packet::PingResp(x) => {
            let _ = x.to_buf(buf);
            assert(packet_encoding(packet@, fixed_header_bytes(x@)));
        },
        Packet::Disconnect(x) => {
            let _ = x.to_buf(buf);
            proof {
                let v = choose|v: Seq<u8>|
                    disconnect_variable_header_encoding(x@.1, v) && buf@ == start + fixed_header_bytes(x@.0) + v;
                assert(buf@ =~= start + (fixed_header_bytes(x@.0) + v));
                assert(disconnect_packet_encoding(x@, fixed_header_bytes(x@.0) + v));
                assert(packet_encoding(packet@, fixed_header_bytes(x@.0) + v));
            }
        },
        Packet::Auth(x) => {
            let _ = x.to_buf(buf);
            proof {
                let v = choose|v: Seq<u8>|
                    auth_variable_header_encoding(x@.1, v) && buf@ == start + fixed_header_bytes(x@.0) + v;
                assert(buf@ =~= start + (fixed_header_bytes(x@.0) + v));
                assert(auth_packet_encoding(x@, fixed_header_bytes(x@.0) + v));
                assert(packet_encoding(packet@, fixed_header_bytes(x@.0) + v));
            }
        },
    }
}

} // verus!
