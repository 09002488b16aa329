//! The PINGREQ packet: a fixed header and nothing else.
use vstd::prelude::*;
use bytes::BytesMut;
use crate::codec::buffer::buf_contents;
use crate::codec::error::{Decoded, Error};
use crate::codec::fixed_header::{fixed_header_bytes, spec_fixed_header, FixedHeader};
use crate::codec::packet::{PacketCodec, PacketType};
use crate::codec::publish::Qos;
use crate::codec::FromToBuf;

verus! {

/// A PINGREQ packet.
#[derive(Debug, Clone, PartialEq)]
pub struct PingReq {
    pub fixed_header: FixedHeader,
}

impl View for PingReq {
    type V = FixedHeader;

    open spec fn view(&self) -> FixedHeader {
        self.fixed_header
    }
}

/// The fixed header of a PINGREQ packet.
pub open spec fn pingreq_header() -> FixedHeader {
    FixedHeader {
        packet_type: PacketType::PINGREQ,
        dup: false,
        qos: Qos::AtMostOnce,
        retain: false,
        remaining_length: 0,
    }
}

/// Decoding a PINGREQ packet from the front of `s`.
pub open spec fn spec_pingreq(s: Seq<u8>) -> Decoded<FixedHeader> {
    match spec_fixed_header(s) {
        Decoded::Done(h, n) => if h != pingreq_header() {
            Decoded::Panic
        } else {
            Decoded::Done(h, n)
        },
        _ => Decoded::Panic,
    }
}

impl Default for PingReq {
    fn default() -> (p: Self)
        ensures
            p@ == pingreq_header(),
    {
        PingReq {
            fixed_header: FixedHeader {
                packet_type: PacketType::PINGREQ,
                dup: false,
                qos: Qos::AtMostOnce,
                retain: false,
                remaining_length: 0,
            },
        }
    }
}

impl PingReq {
    /// The number of bytes the packet takes.
    pub fn length(&self) -> (n: usize)
        requires
            fixed_header_bytes(self@).len() + self@.remaining_length <= usize::MAX,
        ensures
            n == fixed_header_bytes(self@).len() + self@.remaining_length,
    {
        self.fixed_header.length() + self.fixed_header.remaining_length
    }
}

impl PacketCodec<PingReq> for PingReq {
    open spec fn extra_readable(s: Seq<u8>, fixed_header: FixedHeader) -> bool {
        true
    }

    fn from_buf_extra(_buf: &mut BytesMut, fixed_header: FixedHeader) -> (res: Result<PingReq, Error>)
        ensures
            res matches Ok(p) && p@ == fixed_header,
            buf_contents(*final(_buf)) == buf_contents(*old(_buf)),
    {
        Ok(PingReq { fixed_header })
    }
}

impl FromToBuf<PingReq> for PingReq {
    open spec fn writable(&self) -> bool {
        true
    }

    open spec fn readable(s: Seq<u8>) -> bool {
        !spec_pingreq(s).panics()
    }

    /// Writes the fixed header; returns its length.
    fn to_buf(&self, buf: &mut Vec<u8>) -> (res: Result<usize, Error>)
        ensures
            final(buf)@ == old(buf)@ + fixed_header_bytes(self@),
            res == Ok::<usize, Error>(fixed_header_bytes(self@).len() as usize),
    {
        self.fixed_header.to_buf(buf)
    }

    /// Reads a PINGREQ packet: a fixed header of the right type, flags and
    /// a remaining length of zero.
    fn from_buf(buf: &mut BytesMut) -> (res: Result<PingReq, Error>)
        ensures
            match spec_pingreq(buf_contents(*old(buf))) {
                Decoded::Done(h, n) => res matches Ok(p) && p@ == h
                    && buf_contents(*final(buf)) == buf_contents(*old(buf)).skip(n as int),
                _ => false,
            },
    {
        let fixed_header = PingReq::decode_fixed_header(buf);
        if fixed_header.packet_type != PacketType::PINGREQ || fixed_header.dup || fixed_header.qos != Qos::AtMostOnce
            || fixed_header.retain || fixed_header.remaining_length != 0 {
            proof {
                assert(false);
            }
        }
        PingReq::from_buf_extra(buf, fixed_header)
    }
}

} // verus!
