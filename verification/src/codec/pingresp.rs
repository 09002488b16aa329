//! The PINGRESP packet: a fixed header and nothing else.
use vstd::prelude::*;
use bytes::BytesMut;
use crate::codec::buffer::buf_contents;
use crate::codec::error::{Decoded, Error};
use crate::codec::fixed_header::{default_fixed_header, fixed_header_bytes, spec_fixed_header, FixedHeader};
use crate::codec::packet::{PacketCodec, PacketType};
use crate::codec::publish::Qos;
use crate::codec::FromToBuf;

verus! {

/// A PINGRESP packet.
#[derive(Debug, Clone, PartialEq)]
pub struct PingResp {
    fixed_header: FixedHeader,
}

impl View for PingResp {
    type V = FixedHeader;

    closed spec fn view(&self) -> FixedHeader {
        self.fixed_header
    }
}

/// The fixed header of a PINGRESP packet.
pub open spec fn pingresp_header() -> FixedHeader {
    FixedHeader {
        packet_type: PacketType::PINGRESP,
        dup: false,
        qos: Qos::AtMostOnce,
        retain: false,
        remaining_length: 0,
    }
}

/// Decoding a PINGRESP packet from the front of `s`.
pub open spec fn spec_pingresp(s: Seq<u8>) -> Decoded<FixedHeader> {
    match spec_fixed_header(s) {
        Decoded::Done(h, n) => if h != pingresp_header() {
            Decoded::Panic
        } else {
            Decoded::Done(h, n)
        },
        _ => Decoded::Panic,
    }
}

impl Default for PingResp {
    fn default() -> (p: Self)
        ensures
            p@ == default_fixed_header(),
    {
        PingResp { fixed_header: FixedHeader::default() }
    }
}

impl PacketCodec<PingResp> for PingResp {
    open spec fn extra_readable(s: Seq<u8>, fixed_header: FixedHeader) -> bool {
        true
    }

    fn from_buf_extra(_buf: &mut BytesMut, fixed_header: FixedHeader) -> (res: Result<PingResp, Error>)
        ensures
            res matches Ok(p) && p@ == fixed_header,
            buf_contents(*final(_buf)) == buf_contents(*old(_buf)),
    {
        Ok(PingResp { fixed_header })
    }
}

impl FromToBuf<PingResp> for PingResp {
    open spec fn writable(&self) -> bool {
        true
    }

    open spec fn readable(s: Seq<u8>) -> bool {
        !spec_pingresp(s).panics()
    }

    /// Writes the fixed header; returns its length.
    fn to_buf(&self, buf: &mut Vec<u8>) -> (res: Result<usize, Error>)
        ensures
            final(buf)@ == old(buf)@ + fixed_header_bytes(self@),
            res == Ok::<usize, Error>(fixed_header_bytes(self@).len() as usize),
    {
        self.fixed_header.to_buf(buf)
    }

    /// Reads a PINGRESP packet: a fixed header of the right type, flags and
    /// a remaining length of zero.
    fn from_buf(buf: &mut BytesMut) -> (res: Result<PingResp, Error>)
        ensures
            match spec_pingresp(buf_contents(*old(buf))) {
                Decoded::Done(h, n) => res matches Ok(p) && p@ == h
                    && buf_contents(*final(buf)) == buf_contents(*old(buf)).skip(n as int),
                _ => false,
            },
    {
        let fixed_header = PingResp::decode_fixed_header(buf);
        if fixed_header.packet_type != PacketType::PINGRESP || fixed_header.dup || fixed_header.qos != Qos::AtMostOnce
            || fixed_header.retain || fixed_header.remaining_length != 0 {
            proof {
                assert(false);
            }
        }
        PingResp::from_buf_extra(buf, fixed_header)
    }
}

} // verus!
