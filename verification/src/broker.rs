//! What the broker keeps per channel, how it answers the packets it
//! receives, and what it reads from its configuration.
use vstd::prelude::*;
use crate::codec::connack::ConnAck;
use crate::codec::connect::ConnectReasonCode;
use crate::codec::disconnect::{Disconnect, DisconnectReasonCode};
use crate::codec::fixed_header::{default_fixed_header, FixedHeader};
use crate::codec::packet::{Packet, PacketModel, PacketType};
use crate::codec::pingresp::PingResp;
use crate::codec::property::empty_property_model;
use crate::codec::publish::Qos;

verus! {

/// The port the broker listens on when none is configured.
pub const DEFAULT_PORT: &'static str = "8888";

/// What the broker keeps about a channel.
#[derive(Debug)]
pub struct ChannelContext {
    pub keep_alive: usize,
}

impl Default for ChannelContext {
    fn default() -> (c: Self)
        ensures
            c.keep_alive == 0,
    {
        ChannelContext { keep_alive: 0 }
    }
}

/// How long, in seconds, a channel may stay silent before the broker
/// disconnects it.
pub const IDLE_TIMEOUT_SECS: u64 = 3;

impl ChannelContext {
    /// Answers a packet received on the channel: a CONNECT sets the keep
    /// alive it announces, when that is not zero, and is answered with a
    /// CONNACK; a PINGREQ is answered with a PINGRESP; any other packet goes
    /// unanswered.
    pub fn handle(&mut self, packet: &Packet) -> (reply: Option<Packet>)
        ensures
            match packet@ {
                PacketModel::Connect(c) => {
                    &&& final(self).keep_alive == if c.1.2 > 0 {
                        c.1.2 as usize
                    } else {
                        old(self).keep_alive
                    }
                    &&& reply matches Some(r) && r@ == PacketModel::ConnAck(
                        (
                            FixedHeader {
                                packet_type: PacketType::CONNACK,
                                dup: false,
                                qos: Qos::AtMostOnce,
                                retain: false,
                                remaining_length: 3,
                            },
                            (false, ConnectReasonCode::Success, empty_property_model()),
                        ),
                    )
                },
                PacketModel::PingReq(_) => {
                    &&& final(self).keep_alive == old(self).keep_alive
                    &&& reply matches Some(r) && r@ == PacketModel::PingResp(default_fixed_header())
                },
                _ => final(self).keep_alive == old(self).keep_alive && reply is None,
            },
    {
        match packet {
            Packet::Connect(connect) => {
                let keep_alive = connect.variable_header().keep_alive;
                if keep_alive > 0 {
                    self.keep_alive = keep_alive as usize;
                }
                Some(Packet::ConnAck(ConnAck::default()))
            },
            Packet::PingReq(_) => Some(Packet::PingResp(PingResp::default())),
            _ => None,
        }
    }
}

/// The packet that closes a channel that stayed silent too long: a
/// DISCONNECT with reason "keep alive timeout".
pub fn idle_disconnect() -> (p: Packet)
    ensures
        p@ == PacketModel::Disconnect(
            (
                FixedHeader {
                    packet_type: PacketType::DISCONNECT,
                    dup: false,
                    qos: Qos::AtMostOnce,
                    retain: false,
                    remaining_length: 2,
                },
                (DisconnectReasonCode::KeepAliveTimeout, empty_property_model()),
            ),
        ),
{
    Packet::Disconnect(Disconnect::with_reason(DisconnectReasonCode::KeepAliveTimeout))
}

/// Where the broker listens.
#[derive(Debug)]
pub struct Config {
    pub host: String,
    pub port: u16,
}

} // verus!
