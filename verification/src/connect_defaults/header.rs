//! Reading a fixed header whose flags are known in advance.
use vstd::prelude::*;
use bytes::BytesMut;
use crate::codec::buffer::{buf_contents, buf_get_u8};
use crate::codec::fixed_header::FixedHeader;
use crate::codec::packet::{packet_type_of, PacketType};
use crate::codec::publish::{qos_of, Qos};
use crate::codec::protocol::Protocol;
use crate::connect_defaults::decode::protocol_name;
use vstd::string::StringSliceAdditionalSpecFns;
use crate::codec::{lemma_read_varint_consumed, read_variable_bytes, spec_read_varint, FromToU8};
use crate::connect_defaults::{Error, ErrorModel, Read};

verus! {

/// Reading a fixed header that must carry the flags `dup`, `qos` and
/// `retain`: a packet type of 0 and a remaining length that cannot be read
/// panic; a qos of 3 is a malformed packet; a flag that differs is a
/// malformed fixed header. The first byte is taken in every case.
pub open spec fn spec_header_new(s: Seq<u8>, dup: bool, qos: Qos, retain: bool) -> Read<FixedHeader> {
    if s.len() < 1 {
        Read::Panic
    } else {
        let b = s[0];
        match packet_type_of(b / 16) {
            None => Read::Panic,
            Some(t) => if dup != ((b / 8) % 2 == 1) {
                Read::Fail(ErrorModel::MalformedFixedHeader("It's a Malformed FixedHeader, Please check it Dup again"@), 1)
            } else {
                match qos_of((b / 2) % 4) {
                    None => Read::Fail(ErrorModel::MalformedPacket, 1),
                    Some(q) => if qos != q {
                        Read::Fail(ErrorModel::MalformedFixedHeader("It's a Malformed FixedHeader, Please check it Qos again"@), 1)
                    } else if retain != (b % 2 == 1) {
                        Read::Fail(ErrorModel::MalformedFixedHeader("It's a Malformed FixedHeader, Please check it Retain again"@), 1)
                    } else {
                        match spec_read_varint(s.skip(1)) {
                            None => Read::Panic,
                            Some((rl, k)) => Read::Done(
                                FixedHeader { packet_type: t, dup, qos, retain, remaining_length: rl as usize },
                                1 + k,
                            ),
                        }
                    },
                }
            },
        }
    }
}

/// The error of a fixed header with unexpected flags.
fn malformed_header(msg: &str) -> (e: Error)
    ensures
        e@ == ErrorModel::MalformedFixedHeader(msg@),
{
    Error::MalformedFixedHeader(msg.to_string())
}

impl FixedHeader {
    /// Reads a fixed header from the front of `buf` that must carry the
    /// flags `dup`, `qos` and `retain`.
    pub fn new(buf: &mut BytesMut, dup: bool, qos: Qos, retain: bool) -> (res: Result<FixedHeader, Error>)
        requires
            !spec_header_new(buf_contents(*old(buf)), dup, qos, retain).panics(),
        ensures
            match spec_header_new(buf_contents(*old(buf)), dup, qos, retain) {
                Read::Done(h, n) => res == Ok::<FixedHeader, Error>(h)
                    && buf_contents(*final(buf)) == buf_contents(*old(buf)).skip(n as int),
                Read::Fail(e, n) => res matches Err(err) && err@ == e
                    && buf_contents(*final(buf)) == buf_contents(*old(buf)).skip(n as int),
                Read::Panic => false,
            },
    {
        let ghost s = buf_contents(*buf);
        let fixed_header_byte = buf_get_u8(buf);
        assert(fixed_header_byte >> 4u8 == fixed_header_byte / 16 && (fixed_header_byte >> 3u8) & 0x01u8 == (
        fixed_header_byte / 8) % 2 && (fixed_header_byte >> 1u8) & 0x03u8 == (fixed_header_byte / 2) % 4
            && fixed_header_byte & 0x01u8 == fixed_header_byte % 2) by (bit_vector);
        let packet_type = match PacketType::from_u8(fixed_header_byte >> 4) {
            Ok(t) => t,
            Err(_) => {
                proof {
                    assert(false);
                }
                PacketType::CONNECT
            },
        };
        if dup != ((fixed_header_byte >> 3) & 0x01 == 1) {
            return Err(malformed_header("It's a Malformed FixedHeader, Please check it Dup again"));
        }
        let read_qos = match Qos::from_u8((fixed_header_byte >> 1) & 0x03) {
            Ok(q) => q,
            Err(_) => return Err(Error::MalformedPacket),
        };
        if qos != read_qos {
            return Err(malformed_header("It's a Malformed FixedHeader, Please check it Qos again"));
        }
        if retain != (fixed_header_byte & 0x01 == 1) {
            return Err(malformed_header("It's a Malformed FixedHeader, Please check it Retain again"));
        }
        proof {
            lemma_read_varint_consumed(s.skip(1));
        }
        let remaining_length = match read_variable_bytes(buf) {
            Ok((v, _)) => v,
            Err(_) => {
                proof {
                    assert(false);
                }
                0
            },
        };
        proof {
            let k = (s.skip(1).len() - buf_contents(*buf).len()) as nat;
            assert(buf_contents(*buf) =~= s.skip(1 + k as int));
        }
        Ok(FixedHeader { packet_type, dup, qos, retain, remaining_length })
    }
}

impl Protocol {
    /// The protocol a name and level stand for: only "MQTT" at level 5 is
    /// known; any other pair is an error that carries them.
    pub fn new(name: &str, level: u8) -> (res: Result<Protocol, Error>)
        ensures
            name.spec_bytes() == protocol_name() && level == 5 ==> res == Ok::<Protocol, Error>(Protocol::MQTT5),
            !(name.spec_bytes() == protocol_name() && level == 5) ==> (res matches Err(e)
                && e@ == ErrorModel::InvalidProtocol(name@, level)),
    {
        let bytes = name.as_bytes();
        if bytes.len() == 4 && bytes[0] == 77 && bytes[1] == 81 && bytes[2] == 84 && bytes[3] == 84 && level == 5 {
            assert(bytes@ =~= protocol_name());
            Ok(Protocol::MQTT5)
        } else {
            assert(!(bytes@ =~= protocol_name()) || level != 5);
            Err(Error::InvalidProtocol(name.to_string(), level))
        }
    }
}

} // verus!
