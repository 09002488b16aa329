//! The fixed header that starts every control packet: a byte of packet type
//! and flags, then the remaining length.
use vstd::prelude::*;
use bytes::BytesMut;
use crate::codec::buffer::{buf_clone, buf_contents, buf_get_u8, buf_len};
use crate::codec::error::{Decoded, Error, ErrorModel};
use crate::codec::packet::{packet_type_code, packet_type_of, PacketType};
use crate::codec::publish::{qos_code, qos_of, Qos};
use crate::codec::{
    read_variable_bytes, spec_read_varint, variable_bytes_len, varint_encode, write_variable_bytes,
    FromToBuf, FromToU8,
};

verus! {

/// The fixed header of a packet.
#[derive(Debug, Clone, Copy, PartialEq, Eq, Structural)]
pub struct FixedHeader {
    pub packet_type: PacketType,
    pub dup: bool,
    pub qos: Qos,
    pub retain: bool,
    /// This is the length of the Variable Header plus the length of the Payload. It is encoded as a Variable Byte Integer
    pub remaining_length: usize,
}

impl View for FixedHeader {
    type V = FixedHeader;

    open spec fn view(&self) -> FixedHeader {
        *self
    }
}

/// The fixed header `default` gives.
pub open spec fn default_fixed_header() -> FixedHeader {
    FixedHeader {
        packet_type: PacketType::DISCONNECT,
        dup: false,
        qos: Qos::AtMostOnce,
        retain: false,
        remaining_length: 0,
    }
}

impl Default for FixedHeader {
    fn default() -> (h: Self)
        ensures
            h == default_fixed_header(),
    {
        FixedHeader {
            packet_type: PacketType::default(),
            dup: false,
            qos: Qos::default(),
            retain: false,
            remaining_length: 0,
        }
    }
}

/// The first byte of a fixed header: the packet type in the high four bits,
/// then dup, qos (two bits) and retain.
pub open spec fn header_byte(h: FixedHeader) -> u8 {
    (packet_type_code(h.packet_type) * 16 + (if h.dup { 8int } else { 0int }) + qos_code(h.qos) * 2 + (if h.retain {
        1int
    } else {
        0int
    })) as u8
}

/// The bytes of a fixed header.
pub open spec fn fixed_header_bytes(h: FixedHeader) -> Seq<u8> {
    seq![header_byte(h)] + varint_encode(h.remaining_length as nat)
}

/// Decoding a fixed header from the front of `s`. The remaining length must
/// be exactly the number of bytes after the header.
pub open spec fn spec_fixed_header(s: Seq<u8>) -> Decoded<FixedHeader> {
    if s.len() < 1 {
        Decoded::Panic
    } else {
        let b = s[0];
        match packet_type_of(b / 16) {
            None => Decoded::Panic,
            Some(t) => match qos_of((b / 2) % 4) {
                None => Decoded::Fail(ErrorModel::InvalidQos((b / 2) % 4), 1),
                Some(q) => match spec_read_varint(s.skip(1)) {
                    None => Decoded::Panic,
                    Some((len, k)) => if len != s.len() - 1 - k {
                        Decoded::Panic
                    } else {
                        Decoded::Done(
                            FixedHeader {
                                packet_type: t,
                                dup: (b / 8) % 2 == 1,
                                qos: q,
                                retain: b % 2 == 1,
                                remaining_length: len as usize,
                            },
                            1 + k,
                        )
                    },
                },
            },
        }
    }
}

impl FixedHeader {
    /// The number of bytes the fixed header takes.
    pub fn length(&self) -> (n: usize)
        ensures
            n == fixed_header_bytes(*self).len(),
    {
        proof {
            crate::codec::lemma_varint_encode_len(self.remaining_length as nat);
        }
        1 + variable_bytes_len(self.remaining_length)
    }
}

/// Whether the fixed header at the front of `buf` reads without panicking,
/// looking at a copy: a known packet type, and then either flags with an
/// invalid QoS (which are an error) or a remaining length that is exactly
/// the number of bytes after the header, so that `buf` holds one whole
/// packet.
pub fn fixed_header_ready(buf: &BytesMut) -> (b: bool)
    ensures
        b == !spec_fixed_header(buf_contents(*buf)).panics(),
{
    let ghost s = buf_contents(*buf);
    let mut copy = buf_clone(buf);
    if buf_len(&copy) < 1 {
        return false;
    }
    let byte = buf_get_u8(&mut copy);
    if PacketType::from_u8(byte / 16).is_err() {
        return false;
    }
    if Qos::from_u8((byte / 2) % 4).is_err() {
        return true;
    }
    assert(buf_contents(copy) == s.skip(1));
    proof {
        crate::codec::lemma_varint_len_bounds(s.skip(1), 0);
    }
    match read_variable_bytes(&mut copy) {
        Err(_) => false,
        Ok((len, _)) => len == buf_len(&copy),
    }
}

impl FromToBuf<FixedHeader> for FixedHeader {
    open spec fn writable(&self) -> bool {
        true
    }

    open spec fn readable(s: Seq<u8>) -> bool {
        !spec_fixed_header(s).panics()
    }

    /// Writes the header byte and the remaining length; returns the number
    /// of bytes written.
    fn to_buf(&self, buf: &mut Vec<u8>) -> (res: Result<usize, Error>)
        ensures
            final(buf)@ == old(buf)@ + fixed_header_bytes(*self),
            res == Ok::<usize, Error>(fixed_header_bytes(*self).len() as usize),
    {
        let packet_type = self.packet_type;
        let mut byte: u8 = packet_type.to_u8() * 16;
        if self.retain {
            byte = byte + 1;
        }
        byte = byte + self.qos.to_u8() * 2;
        if self.dup {
            byte = byte + 8;
        }
        let mut len: usize = 1;
        buf.push(byte);
        let n = match write_variable_bytes(self.remaining_length, buf) {
            Ok(n) => n,
            Err(_) => 0,
        };
        proof {
            crate::codec::lemma_varint_encode_len(self.remaining_length as nat);
        }
        len = len + n;
        assert(buf@ =~= old(buf)@ + fixed_header_bytes(*self));
        Ok(len)
    }

    /// Reads a fixed header; the remaining length must be exactly the number
    /// of bytes left in `buf` after the header.
    fn from_buf(buf: &mut BytesMut) -> (res: Result<FixedHeader, Error>)
        ensures
            match spec_fixed_header(buf_contents(*old(buf))) {
                Decoded::Done(h, n) => res == Ok::<FixedHeader, Error>(h)
                    && buf_contents(*final(buf)) == buf_contents(*old(buf)).skip(n as int),
                Decoded::Fail(e, n) => res matches Err(err) && err@ == e
                    && buf_contents(*final(buf)) == buf_contents(*old(buf)).skip(n as int),
                Decoded::Panic => false,
            },
    {
        let ghost s = buf_contents(*buf);
        assert(Self::readable(s));
        assert(!spec_fixed_header(s).panics());
        let fixed_header_byte = buf_get_u8(buf);
        let packet_type = match PacketType::from_u8(fixed_header_byte / 16) {
            Ok(t) => t,
            Err(e) => {
                proof {
                    assert(false);
                }
                return Err(e);
            },
        };
        let dup = (fixed_header_byte / 8) % 2 == 1;
        let qos = match Qos::from_u8((fixed_header_byte / 2) % 4) {
            Ok(q) => q,
            Err(e) => return Err(e),
        };
        let retain = fixed_header_byte % 2 == 1;
        let ghost rest = buf_contents(*buf);
        proof {
            crate::codec::lemma_read_varint_consumed(rest);
        }
        let remaining_length = match read_variable_bytes(buf) {
            Ok(x) => x.0,
            Err(e) => {
                proof {
                    assert(false);
                }
                return Err(e);
            },
        };
        let left = buf_len(buf);
        if remaining_length != left {
            proof {
                assert(false);
            }
        }
        proof {
            assert(buf_contents(*buf) =~= s.skip((1 + (rest.len() - buf_contents(*buf).len())) as int));
        }
        Ok(FixedHeader { packet_type, dup, qos, retain, remaining_length })
    }
}

} // verus!
