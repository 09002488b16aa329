//! `Packet::parse` reads whatever the reader of a packet's own type reads:
//! it dispatches on the packet type of the fixed header alone.
use vstd::prelude::*;
use crate::codec::error::Decoded;
use crate::codec::fixed_header::spec_fixed_header;
use crate::codec::packet::{lemma_packet_body, spec_packet, spec_packet_body, PacketModel};
use crate::codec::connect::spec_connect;
use crate::codec::connack::spec_connack;
use crate::codec::publish::spec_publish;
use crate::codec::puback::spec_puback;
use crate::codec::pubrec::spec_pubrec;
use crate::codec::pubrel::spec_pubrel;
use crate::codec::pubcomp::spec_pubcomp;
use crate::codec::subscribe::spec_subscribe;
use crate::codec::suback::spec_suback;
use crate::codec::unsubscribe::spec_unsubscribe;
use crate::codec::unsuback::spec_unsuback;
use crate::codec::pingreq::spec_pingreq;
use crate::codec::pingresp::spec_pingresp;
use crate::codec::disconnect::spec_disconnect;
use crate::codec::auth::spec_auth;

verus! {

/// What decodes as a fixed header takes at least two bytes.
proof fn lemma_header_two_bytes(s: Seq<u8>)
    ensures
        spec_fixed_header(s) is Done ==> s.len() > 1,
{
    if s.len() >= 1 {
        crate::codec::lemma_varint_len_bounds(s.skip(1), 0);
    }
}

proof fn lemma_parse_reads_connect(s: Seq<u8>)
    ensures
        spec_connect(s) matches Decoded::Done(v, n) ==> spec_packet(s) == Decoded::Done(PacketModel::Connect(v), n),
{
    if let Decoded::Done(v, n) = spec_connect(s) {
        lemma_header_two_bytes(s);
        if let Decoded::Done(h, k) = spec_fixed_header(s) {
            lemma_packet_body(s, h, k);
            assert(spec_packet_body(s.skip(k as int), h) == Decoded::Done(PacketModel::Connect(v), (n - k) as nat)) by {
                reveal(spec_packet_body);
            }
        }
    }
}

proof fn lemma_parse_reads_connack(s: Seq<u8>)
    ensures
        spec_connack(s) matches Decoded::Done(v, n) ==> spec_packet(s) == Decoded::Done(PacketModel::ConnAck(v), n),
{
    if let Decoded::Done(v, n) = spec_connack(s) {
        lemma_header_two_bytes(s);
        if let Decoded::Done(h, k) = spec_fixed_header(s) {
            lemma_packet_body(s, h, k);
            assert(spec_packet_body(s.skip(k as int), h) == Decoded::Done(PacketModel::ConnAck(v), (n - k) as nat)) by {
                reveal(spec_packet_body);
            }
        }
    }
}

proof fn lemma_parse_reads_publish(s: Seq<u8>)
    ensures
        spec_publish(s) matches Decoded::Done(v, n) ==> spec_packet(s) == Decoded::Done(PacketModel::Publish(v), n),
{
    if let Decoded::Done(v, n) = spec_publish(s) {
        lemma_header_two_bytes(s);
        if let Decoded::Done(h, k) = spec_fixed_header(s) {
            lemma_packet_body(s, h, k);
            assert(spec_packet_body(s.skip(k as int), h) == Decoded::Done(PacketModel::Publish(v), (n - k) as nat)) by {
                reveal(spec_packet_body);
            }
        }
    }
}

proof fn lemma_parse_reads_puback(s: Seq<u8>)
    ensures
        spec_puback(s) matches Decoded::Done(v, n) ==> spec_packet(s) == Decoded::Done(PacketModel::PubAck(v), n),
{
    if let Decoded::Done(v, n) = spec_puback(s) {
        lemma_header_two_bytes(s);
        if let Decoded::Done(h, k) = spec_fixed_header(s) {
            lemma_packet_body(s, h, k);
            assert(spec_packet_body(s.skip(k as int), h) == Decoded::Done(PacketModel::PubAck(v), (n - k) as nat)) by {
                reveal(spec_packet_body);
            }
        }
    }
}

proof fn lemma_parse_reads_pubrec(s: Seq<u8>)
    ensures
        spec_pubrec(s) matches Decoded::Done(v, n) ==> spec_packet(s) == Decoded::Done(PacketModel::PubRec(v), n),
{
    if let Decoded::Done(v, n) = spec_pubrec(s) {
        lemma_header_two_bytes(s);
        if let Decoded::Done(h, k) = spec_fixed_header(s) {
            lemma_packet_body(s, h, k);
            assert(spec_packet_body(s.skip(k as int), h) == Decoded::Done(PacketModel::PubRec(v), (n - k) as nat)) by {
                reveal(spec_packet_body);
            }
        }
    }
}

proof fn lemma_parse_reads_pubrel(s: Seq<u8>)
    ensures
        spec_pubrel(s) matches Decoded::Done(v, n) ==> spec_packet(s) == Decoded::Done(PacketModel::PubRel(v), n),
{
    if let Decoded::Done(v, n) = spec_pubrel(s) {
        lemma_header_two_bytes(s);
        if let Decoded::Done(h, k) = spec_fixed_header(s) {
            lemma_packet_body(s, h, k);
            assert(spec_packet_body(s.skip(k as int), h) == Decoded::Done(PacketModel::PubRel(v), (n - k) as nat)) by {
                reveal(spec_packet_body);
            }
        }
    }
}

proof fn lemma_parse_reads_pubcomp(s: Seq<u8>)
    ensures
        spec_pubcomp(s) matches Decoded::Done(v, n) ==> spec_packet(s) == Decoded::Done(PacketModel::PubComp(v), n),
{
    if let Decoded::Done(v, n) = spec_pubcomp(s) {
        lemma_header_two_bytes(s);
        if let Decoded::Done(h, k) = spec_fixed_header(s) {
            lemma_packet_body(s, h, k);
            assert(spec_packet_body(s.skip(k as int), h) == Decoded::Done(PacketModel::PubComp(v), (n - k) as nat)) by {
                reveal(spec_packet_body);
            }
        }
    }
}

proof fn lemma_parse_reads_subscribe(s: Seq<u8>)
    ensures
        spec_subscribe(s) matches Decoded::Done(v, n) ==> spec_packet(s) == Decoded::Done(PacketModel::Subscribe(v), n),
{
    if let Decoded::Done(v, n) = spec_subscribe(s) {
        lemma_header_two_bytes(s);
        if let Decoded::Done(h, k) = spec_fixed_header(s) {
            lemma_packet_body(s, h, k);
            assert(spec_packet_body(s.skip(k as int), h) == Decoded::Done(PacketModel::Subscribe(v), (n - k) as nat)) by {
                reveal(spec_packet_body);
            }
        }
    }
}

proof fn lemma_parse_reads_suback(s: Seq<u8>)
    ensures
        spec_suback(s) matches Decoded::Done(v, n) ==> spec_packet(s) == Decoded::Done(PacketModel::SubAck(v), n),
{
    if let Decoded::Done(v, n) = spec_suback(s) {
        lemma_header_two_bytes(s);
        if let Decoded::Done(h, k) = spec_fixed_header(s) {
            lemma_packet_body(s, h, k);
            assert(spec_packet_body(s.skip(k as int), h) == Decoded::Done(PacketModel::SubAck(v), (n - k) as nat)) by {
                reveal(spec_packet_body);
            }
        }
    }
}

proof fn lemma_parse_reads_unsubscribe(s: Seq<u8>)
    ensures
        spec_unsubscribe(s) matches Decoded::Done(v, n) ==> spec_packet(s) == Decoded::Done(PacketModel::UnSubscribe(v), n),
{
    if let Decoded::Done(v, n) = spec_unsubscribe(s) {
        lemma_header_two_bytes(s);
        if let Decoded::Done(h, k) = spec_fixed_header(s) {
            lemma_packet_body(s, h, k);
            assert(spec_packet_body(s.skip(k as int), h) == Decoded::Done(PacketModel::UnSubscribe(v), (n - k) as nat)) by {
                reveal(spec_packet_body);
            }
        }
    }
}

proof fn lemma_parse_reads_unsuback(s: Seq<u8>)
    ensures
        spec_unsuback(s) matches Decoded::Done(v, n) ==> spec_packet(s) == Decoded::Done(PacketModel::UnSubAck(v), n),
{
    if let Decoded::Done(v, n) = spec_unsuback(s) {
        lemma_header_two_bytes(s);
        if let Decoded::Done(h, k) = spec_fixed_header(s) {
            lemma_packet_body(s, h, k);
            assert(spec_packet_body(s.skip(k as int), h) == Decoded::Done(PacketModel::UnSubAck(v), (n - k) as nat)) by {
                reveal(spec_packet_body);
            }
        }
    }
}

proof fn lemma_parse_reads_pingreq(s: Seq<u8>)
    ensures
        spec_pingreq(s) matches Decoded::Done(v, n) ==> spec_packet(s) == Decoded::Done(PacketModel::PingReq(v), n),
{
    if let Decoded::Done(v, n) = spec_pingreq(s) {
        lemma_header_two_bytes(s);
        if let Decoded::Done(h, k) = spec_fixed_header(s) {
            lemma_packet_body(s, h, k);
            assert(spec_packet_body(s.skip(k as int), h) == Decoded::Done(PacketModel::PingReq(v), (n - k) as nat)) by {
                reveal(spec_packet_body);
            }
        }
    }
}

proof fn lemma_parse_reads_pingresp(s: Seq<u8>)
    ensures
        spec_pingresp(s) matches Decoded::Done(v, n) ==> spec_packet(s) == Decoded::Done(PacketModel::PingResp(v), n),
{
    if let Decoded::Done(v, n) = spec_pingresp(s) {
        lemma_header_two_bytes(s);
        if let Decoded::Done(h, k) = spec_fixed_header(s) {
            lemma_packet_body(s, h, k);
            assert(spec_packet_body(s.skip(k as int), h) == Decoded::Done(PacketModel::PingResp(v), (n - k) as nat)) by {
                reveal(spec_packet_body);
            }
        }
    }
}

proof fn lemma_parse_reads_disconnect(s: Seq<u8>)
    ensures
        spec_disconnect(s) matches Decoded::Done(v, n) ==> spec_packet(s) == Decoded::Done(PacketModel::Disconnect(v), n),
{
    if let Decoded::Done(v, n) = spec_disconnect(s) {
        lemma_header_two_bytes(s);
        if let Decoded::Done(h, k) = spec_fixed_header(s) {
            lemma_packet_body(s, h, k);
            assert(spec_packet_body(s.skip(k as int), h) == Decoded::Done(PacketModel::Disconnect(v), (n - k) as nat)) by {
                reveal(spec_packet_body);
            }
        }
    }
}

proof fn lemma_parse_reads_auth(s: Seq<u8>)
    ensures
        spec_auth(s) matches Decoded::Done(v, n) ==> spec_packet(s) == Decoded::Done(PacketModel::Auth(v), n),
{
    if let Decoded::Done(v, n) = spec_auth(s) {
        lemma_header_two_bytes(s);
        if let Decoded::Done(h, k) = spec_fixed_header(s) {
            lemma_packet_body(s, h, k);
            assert(spec_packet_body(s.skip(k as int), h) == Decoded::Done(PacketModel::Auth(v), (n - k) as nat)) by {
                reveal(spec_packet_body);
            }
        }
    }
}

/// Whatever the reader of one packet type reads from `s`, `Packet::parse`
/// reads from `s` as a packet of that type, taking as many bytes: parsing
/// dispatches on the packet type of the fixed header alone.
pub proof fn lemma_parse_dispatches(s: Seq<u8>)
    ensures
        spec_connect(s) matches Decoded::Done(v, n) ==> spec_packet(s) == Decoded::Done(PacketModel::Connect(v), n),
        spec_connack(s) matches Decoded::Done(v, n) ==> spec_packet(s) == Decoded::Done(PacketModel::ConnAck(v), n),
        spec_publish(s) matches Decoded::Done(v, n) ==> spec_packet(s) == Decoded::Done(PacketModel::Publish(v), n),
        spec_puback(s) matches Decoded::Done(v, n) ==> spec_packet(s) == Decoded::Done(PacketModel::PubAck(v), n),
        spec_pubrec(s) matches Decoded::Done(v, n) ==> spec_packet(s) == Decoded::Done(PacketModel::PubRec(v), n),
        spec_pubrel(s) matches Decoded::Done(v, n) ==> spec_packet(s) == Decoded::Done(PacketModel::PubRel(v), n),
        spec_pubcomp(s) matches Decoded::Done(v, n) ==> spec_packet(s) == Decoded::Done(PacketModel::PubComp(v), n),
        spec_subscribe(s) matches Decoded::Done(v, n) ==> spec_packet(s) == Decoded::Done(PacketModel::Subscribe(v), n),
        spec_suback(s) matches Decoded::Done(v, n) ==> spec_packet(s) == Decoded::Done(PacketModel::SubAck(v), n),
        spec_unsubscribe(s) matches Decoded::Done(v, n) ==> spec_packet(s) == Decoded::Done(PacketModel::UnSubscribe(v), n),
        spec_unsuback(s) matches Decoded::Done(v, n) ==> spec_packet(s) == Decoded::Done(PacketModel::UnSubAck(v), n),
        spec_pingreq(s) matches Decoded::Done(v, n) ==> spec_packet(s) == Decoded::Done(PacketModel::PingReq(v), n),
        spec_pingresp(s) matches Decoded::Done(v, n) ==> spec_packet(s) == Decoded::Done(PacketModel::PingResp(v), n),
        spec_disconnect(s) matches Decoded::Done(v, n) ==> spec_packet(s) == Decoded::Done(PacketModel::Disconnect(v), n),
        spec_auth(s) matches Decoded::Done(v, n) ==> spec_packet(s) == Decoded::Done(PacketModel::Auth(v), n),
{
    lemma_parse_reads_connect(s);
    lemma_parse_reads_connack(s);
    lemma_parse_reads_publish(s);
    lemma_parse_reads_puback(s);
    lemma_parse_reads_pubrec(s);
    lemma_parse_reads_pubrel(s);
    lemma_parse_reads_pubcomp(s);
    lemma_parse_reads_subscribe(s);
    lemma_parse_reads_suback(s);
    lemma_parse_reads_unsubscribe(s);
    lemma_parse_reads_unsuback(s);
    lemma_parse_reads_pingreq(s);
    lemma_parse_reads_pingresp(s);
    lemma_parse_reads_disconnect(s);
    lemma_parse_reads_auth(s);
}

} // verus!
