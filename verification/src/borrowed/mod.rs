//! A second reader of the MQTT 5 wire format: one pass over a byte slice,
//! whose packets borrow their strings and binary data from that slice.
//!
//! Each reader takes the input and returns what is left of it with the value
//! read, or a [`ParseError`]. Its contract is stated over a spec function
//! from the input's bytes to an [`Outcome`].
pub mod primitives;
pub mod property;
pub mod packet;
pub mod ack;
pub mod subscription;
pub mod connect;

use vstd::prelude::*;
use crate::borrowed::ack::{
    auth, connack, disconnect, puback, pubcomp, publish, pubrec, pubrel, spec_auth, spec_connack,
    spec_disconnect, spec_puback, spec_pubcomp, spec_publish, spec_pubrec, spec_pubrel,
};
use crate::borrowed::connect::{connect, spec_connect};
use crate::borrowed::packet::{fixed_header, ping_req, ping_resp, spec_header, spec_header_only, Packet, PacketModel};
use crate::borrowed::property::map_outcome;
use crate::borrowed::subscription::{
    spec_suback, spec_subscribe, spec_unsuback, spec_unsubscribe, suback, subscribe, unsuback, unsubscribe,
};
use crate::codec::fixed_header::FixedHeader;
use crate::codec::packet::PacketType;

verus! {

/// What a reader does on given input bytes.
pub enum Outcome<T> {
    /// It returns the value, having taken this many bytes.
    Parsed(T, nat),
    /// It returns an error.
    Rejected,
    /// It panics or never returns.
    Stuck,
}

impl<T> Outcome<T> {
    /// Whether the reader panics or never returns.
    pub open spec fn stuck(self) -> bool {
        self is Stuck
    }
}

/// The error every reader of this module returns: the input does not hold
/// what was asked for.
#[derive(Debug, Clone, Copy, PartialEq, Eq, Structural)]
pub struct ParseError;

/// Whether `res`, returned on `input`, is what `o` says: on `Parsed(v, n)`
/// the value with view `v` and the input after its first `n` bytes, on
/// `Rejected` an error.
pub open spec fn answers<'a, U: View>(o: Outcome<U::V>, input: Seq<u8>, res: Result<(&'a [u8], U), ParseError>) -> bool {
    match o {
        Outcome::Parsed(v, n) => res matches Ok((rest, x)) && x@ == v && rest@ == input.skip(n as int),
        Outcome::Rejected => res is Err,
        Outcome::Stuck => true,
    }
}

/// Reading a packet of type `t`.
pub open spec fn spec_packet_of(s: Seq<u8>, t: PacketType) -> Outcome<PacketModel> {
    match t {
        PacketType::CONNECT => spec_connect(s),
        PacketType::CONNACK => spec_connack(s),
        PacketType::PUBLISH => spec_publish(s),
        PacketType::PUBACK => spec_puback(s),
        PacketType::PUBREC => spec_pubrec(s),
        PacketType::PUBREL => spec_pubrel(s),
        PacketType::PUBCOMP => spec_pubcomp(s),
        PacketType::SUBSCRIBE => spec_subscribe(s),
        PacketType::SUBACK => spec_suback(s),
        PacketType::UNSUBSCRIBE => spec_unsubscribe(s),
        PacketType::UNSUBACK => spec_unsuback(s),
        PacketType::PINGREQ => map_outcome(
            spec_header_only(s, PacketType::PINGREQ),
            |h: FixedHeader| PacketModel::PingReq(h),
        ),
        PacketType::PINGRESP => map_outcome(
            spec_header_only(s, PacketType::PINGRESP),
            |h: FixedHeader| PacketModel::PingResp(h),
        ),
        PacketType::DISCONNECT => spec_disconnect(s),
        PacketType::AUTH => spec_auth(s),
    }
}

/// Reading one whole packet: the packet type in its fixed header says which
/// reader applies, and that reader must take every byte of the input.
pub open spec fn spec_parse(s: Seq<u8>) -> Outcome<PacketModel> {
    match spec_header(s) {
        Outcome::Parsed(h, _) => match spec_packet_of(s, h.packet_type) {
            Outcome::Parsed(p, n) => if n == s.len() { Outcome::Parsed(p, n) } else { Outcome::Rejected },
            Outcome::Rejected => Outcome::Rejected,
            Outcome::Stuck => Outcome::Stuck,
        },
        Outcome::Rejected => Outcome::Rejected,
        Outcome::Stuck => Outcome::Stuck,
    }
}

/// Reads one packet that takes the whole input.
pub fn parse<'a>(input: &'a [u8]) -> (res: Result<(&'a [u8], Packet<'a>), ParseError>)
    requires
        !spec_parse(input@).stuck(),
    ensures
        answers(spec_parse(input@), input@, res),
{
    let (_, header) = fixed_header(input)?;
    let (rest, packet) = match header.packet_type {
        PacketType::CONNECT => connect(input)?,
        PacketType::CONNACK => connack(input)?,
        PacketType::PUBLISH => publish(input)?,
        PacketType::PUBACK => puback(input)?,
        PacketType::PUBREC => pubrec(input)?,
        PacketType::PUBREL => pubrel(input)?,
        PacketType::PUBCOMP => pubcomp(input)?,
        PacketType::SUBSCRIBE => subscribe(input)?,
        PacketType::SUBACK => suback(input)?,
        PacketType::UNSUBSCRIBE => unsubscribe(input)?,
        PacketType::UNSUBACK => unsuback(input)?,
        PacketType::PINGREQ => {
            let (rest, p) = ping_req(input)?;
            (rest, Packet::PingReq(p))
        },
        PacketType::PINGRESP => {
            let (rest, p) = ping_resp(input)?;
            (rest, Packet::PingResp(p))
        },
        PacketType::DISCONNECT => disconnect(input)?,
        PacketType::AUTH => auth(input)?,
    };
    if rest.len() != 0 {
        return Err(ParseError);
    }
    Ok((rest, packet))
}

} // verus!
