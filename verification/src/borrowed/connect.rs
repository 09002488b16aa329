//! Reader of the CONNECT packet.
use vstd::prelude::*;
use crate::borrowed::{answers, Outcome, ParseError};
use crate::borrowed::primitives::{
    be_u16, be_u8, read_bytes, read_string, spec_be_u16, spec_be_u8, spec_read_bytes, spec_read_string,
};
use crate::borrowed::property::{mqtt5_property, spec_mqtt5_property, Mqtt5Property, Mqtt5PropertyModel};
use crate::borrowed::packet::{
    map_fixed_header, spec_frame, Connect, ConnectFlags, ConnectPayload, ConnectPayloadModel,
    ConnectVariableHeader, Packet, PacketModel,
};
use crate::codec::FromToU8;
use crate::codec::packet::PacketType;
use crate::codec::protocol::Protocol;
use crate::codec::publish::{qos_code, qos_of, Qos};

verus! {

/// The bytes of the protocol name, "MQTT".
pub open spec fn protocol_name() -> Seq<u8> {
    seq![77u8, 81u8, 84u8, 84u8]
}

/// Reading the protocol: its name as a length-prefixed string, which must
/// be "MQTT", then its level, which must be 5.
pub open spec fn spec_protocol(s: Seq<u8>) -> Outcome<Protocol> {
    match spec_read_bytes(s) {
        Outcome::Parsed(name, n) => match spec_be_u8(s.skip(n as int)) {
            Outcome::Parsed(level, _) => if name == protocol_name() && level == 5 {
                Outcome::Parsed(Protocol::MQTT5, n + 1)
            } else {
                Outcome::Rejected
            },
            _ => Outcome::Rejected,
        },
        _ => Outcome::Rejected,
    }
}

/// Reads the protocol name and level; only MQTT 5 is accepted.
pub fn protocol<'a>(input: &'a [u8]) -> (res: Result<(&'a [u8], Protocol), ParseError>)
    ensures
        answers(spec_protocol(input@), input@, res),
{
    let (input1, name) = read_bytes(input)?;
    let ghost n = (input@.len() - input1@.len()) as nat;
    let (rest, level) = be_u8(input1)?;
    if name.len() == 4 && name[0] == 77 && name[1] == 81 && name[2] == 84 && name[3] == 84 && level == 5 {
        assert(name@ =~= protocol_name());
        assert(rest@ == input@.skip(n + 1 as int));
        Ok((rest, Protocol::MQTT5))
    } else {
        assert(!(name@ == protocol_name() && level == 5));
        Err(ParseError)
    }
}

/// The flags a byte gives: clean start in bit 1, will in bit 2, will qos
/// in bits 3-4 (3 panics), will retain in bit 5, password in bit 6 and
/// user name in bit 7.
pub open spec fn spec_connect_flag(s: Seq<u8>) -> Outcome<ConnectFlags> {
    match spec_be_u8(s) {
        Outcome::Parsed(f, _) => match qos_of((f / 8) % 4) {
            Some(q) => Outcome::Parsed(
                ConnectFlags {
                    clean_start: (f / 2) % 2 == 1,
                    will_flag: (f / 4) % 2 == 1,
                    will_qos: q,
                    will_retain: (f / 32) % 2 == 1,
                    username_flag: (f / 128) % 2 == 1,
                    password_flag: (f / 64) % 2 == 1,
                },
                1,
            ),
            None => Outcome::Stuck,
        },
        _ => Outcome::Rejected,
    }
}

/// The shifted bits of a byte are its quotients' remainders.
proof fn lemma_flag_byte_bits(b: u8)
    by (bit_vector)
    ensures
        (b >> 1) & 1 == (b / 2) % 2,
        (b >> 2) & 1 == (b / 4) % 2,
        (b >> 3) & 3 == (b / 8) % 4,
        (b >> 5) & 1 == (b / 32) % 2,
        (b >> 6) & 1 == (b / 64) % 2,
        (b >> 7) & 1 == (b / 128) % 2,
{
}

/// The connect flags read from the front of `s`: nothing is rejected, a
/// will qos of 3 (bits 3-4) never reads, and otherwise the one byte `f`
/// gives clean start from bit 1, will from bit 2, the will qos from bits
/// 3-4, will retain from bit 5, the password flag from bit 6 and the user
/// name flag from bit 7, each bit independent of the others.
pub proof fn lemma_connect_flag_bits(s: Seq<u8>)
    ensures
        s.len() == 0 ==> spec_connect_flag(s) is Rejected,
        s.len() >= 1 && (s[0] >> 3) & 3 == 3 ==> spec_connect_flag(s) is Stuck,
        s.len() >= 1 && (s[0] >> 3) & 3 != 3 ==> (spec_connect_flag(s) matches Outcome::Parsed(c, n) && {
            &&& n == 1
            &&& c.clean_start == ((s[0] >> 1) & 1 == 1)
            &&& c.will_flag == ((s[0] >> 2) & 1 == 1)
            &&& qos_code(c.will_qos) == (s[0] >> 3) & 3
            &&& c.will_retain == ((s[0] >> 5) & 1 == 1)
            &&& c.password_flag == ((s[0] >> 6) & 1 == 1)
            &&& c.username_flag == ((s[0] >> 7) & 1 == 1)
        }),
{
    if s.len() >= 1 {
        lemma_flag_byte_bits(s[0]);
        let x = (s[0] / 8) % 4;
        assert(x <= 3);
    }
}

/// Reads the connect flags byte.
pub fn connect_flag<'a>(input: &'a [u8]) -> (res: Result<(&'a [u8], ConnectFlags), ParseError>)
    requires
        !spec_connect_flag(input@).stuck(),
    ensures
        answers(spec_connect_flag(input@), input@, res),
{
    let (rest, flag) = be_u8(input)?;
    assert((flag >> 1u8) & 0x01u8 == (flag / 2) % 2 && (flag >> 2u8) & 0x01u8 == (flag / 4) % 2
        && (flag >> 3u8) & 0x03u8 == (flag / 8) % 4 && (flag >> 5u8) & 0x01u8 == (flag / 32) % 2
        && (flag >> 6u8) & 0x01u8 == (flag / 64) % 2 && (flag >> 7u8) & 0x01u8 == (flag / 128) % 2) by (bit_vector);
    let will_qos = match Qos::from_u8((flag >> 3) & 0x03) {
        Ok(q) => q,
        Err(_) => return Err(ParseError),
    };
    Ok((rest, ConnectFlags {
        clean_start: (flag >> 1) & 0x01 > 0,
        will_flag: (flag >> 2) & 0x01 > 0,
        will_qos,
        will_retain: (flag >> 5) & 0x01 > 0,
        password_flag: (flag >> 6) & 0x01 > 0,
        username_flag: (flag >> 7) & 0x01 > 0,
    }))
}

/// Reading the variable header of a CONNECT packet: protocol, flags, keep
/// alive, properties.
pub open spec fn spec_connect_variable_header(s: Seq<u8>) -> Outcome<(Protocol, ConnectFlags, u16, Mqtt5PropertyModel)> {
    match spec_protocol(s) {
        Outcome::Parsed(p, n1) => match spec_connect_flag(s.skip(n1 as int)) {
            Outcome::Parsed(f, _) => match spec_be_u16(s.skip(n1 + 1 as int)) {
                Outcome::Parsed(k, _) => match spec_mqtt5_property(s.skip(n1 + 3 as int)) {
                    Outcome::Parsed(pr, m) => Outcome::Parsed((p, f, k, pr), n1 + 3 + m),
                    Outcome::Rejected => Outcome::Rejected,
                    Outcome::Stuck => Outcome::Stuck,
                },
                _ => Outcome::Rejected,
            },
            Outcome::Rejected => Outcome::Rejected,
            Outcome::Stuck => Outcome::Stuck,
        },
        _ => Outcome::Rejected,
    }
}

/// Reads the variable header of a CONNECT packet.
fn connect_variable_header<'a>(input: &'a [u8]) -> (res: Result<(&'a [u8], ConnectVariableHeader<'a>), ParseError>)
    requires
        !spec_connect_variable_header(input@).stuck(),
    ensures
        match spec_connect_variable_header(input@) {
            Outcome::Parsed(v, n) => res matches Ok((rest, x))
                && (x.protocol, x.connect_flags, x.keep_alive, x.connect_property@) == v
                && rest@ == input@.skip(n as int),
            _ => res is Err,
        },
{
    let (input1, protocol) = protocol(input)?;
    let ghost n1 = (input@.len() - input1@.len()) as nat;
    let (input2, connect_flags) = connect_flag(input1)?;
    let (input3, keep_alive) = be_u16(input2)?;
    proof {
        assert(input3@ == input@.skip(n1 + 3 as int));
    }
    let (rest, connect_property) = mqtt5_property(input3)?;
    proof {
        let m = (input3@.len() - rest@.len()) as nat;
        assert(rest@ == input@.skip(n1 + 3 + m as int));
    }
    Ok((rest, ConnectVariableHeader { protocol, connect_flags, keep_alive, connect_property }))
}

/// The will of a CONNECT payload where `flag` announces one: its
/// properties, topic and payload.
pub open spec fn spec_will(r: Seq<u8>, flag: bool) -> Outcome<(Option<Mqtt5PropertyModel>, Option<Seq<char>>, Option<Seq<u8>>)> {
    if !flag {
        Outcome::Parsed((None, None, None), 0)
    } else {
        match spec_mqtt5_property(r) {
            Outcome::Parsed(p, m1) => match spec_read_string(r.skip(m1 as int)) {
                Outcome::Parsed(t, m2) => match spec_read_bytes(r.skip(m1 + m2 as int)) {
                    Outcome::Parsed(b, m3) => Outcome::Parsed((Some(p), Some(t), Some(b)), m1 + m2 + m3),
                    _ => Outcome::Rejected,
                },
                _ => Outcome::Rejected,
            },
            Outcome::Rejected => Outcome::Rejected,
            Outcome::Stuck => Outcome::Stuck,
        }
    }
}

/// A string where `flag` announces one.
pub open spec fn spec_opt_string(r: Seq<u8>, flag: bool) -> Outcome<Option<Seq<char>>> {
    if !flag {
        Outcome::Parsed(None, 0)
    } else {
        match spec_read_string(r) {
            Outcome::Parsed(s, n) => Outcome::Parsed(Some(s), n),
            _ => Outcome::Rejected,
        }
    }
}

/// Reading the payload of a CONNECT packet with flags `f`: the client
/// identifier, then the will, user name and password where the flags
/// announce them.
pub open spec fn spec_connect_payload(p: Seq<u8>, f: ConnectFlags) -> Outcome<ConnectPayloadModel> {
    match spec_read_string(p) {
        Outcome::Parsed(cid, n1) => match spec_will(p.skip(n1 as int), f.will_flag) {
            Outcome::Parsed(w, n2) => match spec_opt_string(p.skip(n1 + n2 as int), f.username_flag) {
                Outcome::Parsed(u, n3) => match spec_opt_string(p.skip(n1 + n2 + n3 as int), f.password_flag) {
                    Outcome::Parsed(pw, n4) => Outcome::Parsed((cid, w.0, w.1, w.2, u, pw), n1 + n2 + n3 + n4),
                    _ => Outcome::Rejected,
                },
                _ => Outcome::Rejected,
            },
            Outcome::Rejected => Outcome::Rejected,
            Outcome::Stuck => Outcome::Stuck,
        },
        _ => Outcome::Rejected,
    }
}

/// With no will and exactly one of the user name and password flags set,
/// a payload made of the client id `c` and then one string `x` reads the
/// string as the user name when the user name flag is set and as the
/// password when the password flag is set; the other is absent.
pub proof fn lemma_payload_credential(p: Seq<u8>, f: ConnectFlags, c: Seq<char>, n1: nat, x: Seq<char>, n3: nat)
    requires
        !f.will_flag,
        f.username_flag != f.password_flag,
        spec_read_string(p) == Outcome::Parsed(c, n1),
        spec_read_string(p.skip(n1 as int)) == Outcome::Parsed(x, n3),
    ensures
        spec_connect_payload(p, f) matches Outcome::Parsed(v, n) && n == n1 + n3 && v.0 == c && v.4 == (if f.username_flag {
            Some(x)
        } else {
            None
        }) && v.5 == (if f.password_flag {
            Some(x)
        } else {
            None
        }),
{
    assert(p.skip(n1 + 0 as int) =~= p.skip(n1 as int));
}

/// Reads the will of a CONNECT payload where `flag` announces one.
fn will<'a>(input: &'a [u8], flag: bool) -> (res: Result<(&'a [u8], (Option<Mqtt5Property<'a>>, Option<&'a str>, Option<&'a [u8]>)), ParseError>)
    requires
        !spec_will(input@, flag).stuck(),
    ensures
        match spec_will(input@, flag) {
            Outcome::Parsed(v, n) => res matches Ok((rest, (p, t, b)))
                && v == (match p { Some(x) => Some(x@), None => None::<Mqtt5PropertyModel> },
                    match t { Some(x) => Some(x@), None => None::<Seq<char>> },
                    match b { Some(x) => Some(x@), None => None::<Seq<u8>> })
                && rest@ == input@.skip(n as int),
            _ => res is Err,
        },
{
    if !flag {
        return Ok((input, (None, None, None)));
    }
    let (input1, property) = mqtt5_property(input)?;
    let ghost m1 = (input@.len() - input1@.len()) as nat;
    let (input2, topic) = read_string(input1)?;
    let ghost m2 = (input1@.len() - input2@.len()) as nat;
    let (rest, payload) = read_bytes(input2)?;
    proof {
        let m3 = (input2@.len() - rest@.len()) as nat;
        assert(input2@ == input@.skip(m1 + m2 as int));
        assert(rest@ == input@.skip(m1 + m2 + m3 as int));
    }
    Ok((rest, (Some(property), Some(topic), Some(payload))))
}

/// Reads a string where `flag` announces one.
fn opt_string<'a>(input: &'a [u8], flag: bool) -> (res: Result<(&'a [u8], Option<&'a str>), ParseError>)
    ensures
        match spec_opt_string(input@, flag) {
            Outcome::Parsed(v, n) => res matches Ok((rest, s))
                && v == (match s { Some(x) => Some(x@), None => None::<Seq<char>> })
                && rest@ == input@.skip(n as int),
            _ => res is Err,
        },
{
    if !flag {
        return Ok((input, None));
    }
    let (rest, s) = read_string(input)?;
    Ok((rest, Some(s)))
}

/// Reads the payload of a CONNECT packet with flags `flags`.
#[verifier::rlimit(40)]
#[verifier::spinoff_prover]
fn connect_payload<'a>(input: &'a [u8], flags: ConnectFlags) -> (res: Result<(&'a [u8], ConnectPayload<'a>), ParseError>)
    requires
        !spec_connect_payload(input@, flags).stuck(),
    ensures
        answers(spec_connect_payload(input@, flags), input@, res),
{
    let (p1, client_id) = read_string(input)?;
    let ghost n1 = (input@.len() - p1@.len()) as nat;
    let (p2, (will_property, will_topic, will_payload)) = will(p1, flags.will_flag)?;
    let ghost n2 = (p1@.len() - p2@.len()) as nat;
    proof {
        assert(p2@ == input@.skip(n1 + n2 as int));
    }
    let (p3, username) = opt_string(p2, flags.username_flag)?;
    let ghost n3 = (p2@.len() - p3@.len()) as nat;
    proof {
        assert(p3@ == input@.skip(n1 + n2 + n3 as int));
    }
    let (rest, password) = opt_string(p3, flags.password_flag)?;
    proof {
        let n4 = (p3@.len() - rest@.len()) as nat;
        assert(rest@ == input@.skip(n1 + n2 + n3 + n4 as int));
    }
    Ok((rest, ConnectPayload { client_id, will_property, will_topic, will_payload, username, password }))
}

/// Reading a CONNECT packet: its frame, the variable header, then the
/// payload from the rest of the frame (bytes after the payload are left
/// unread).
pub open spec fn spec_connect(s: Seq<u8>) -> Outcome<PacketModel> {
    match spec_frame(s, PacketType::CONNECT) {
        Outcome::Parsed((h, body), n) => match spec_connect_variable_header(body) {
            Outcome::Parsed(v, m) => match spec_connect_payload(body.skip(m as int), v.1) {
                Outcome::Parsed(p, _) => Outcome::Parsed(PacketModel::Connect((h, v, p)), n),
                Outcome::Rejected => Outcome::Rejected,
                Outcome::Stuck => Outcome::Stuck,
            },
            Outcome::Rejected => Outcome::Rejected,
            Outcome::Stuck => Outcome::Stuck,
        },
        Outcome::Rejected => Outcome::Rejected,
        Outcome::Stuck => Outcome::Stuck,
    }
}

/// Reads a CONNECT packet.
pub fn connect<'a>(input: &'a [u8]) -> (res: Result<(&'a [u8], Packet<'a>), ParseError>)
    requires
        !spec_connect(input@).stuck(),
    ensures
        answers(spec_connect(input@), input@, res),
{
    let (next_input, (fixed_header, body)) = map_fixed_header(input, PacketType::CONNECT)?;
    let (payloads, variable_header) = connect_variable_header(body)?;
    let (_, payload) = connect_payload(payloads, variable_header.connect_flags)?;
    Ok((next_input, Packet::Connect(Connect { fixed_header, variable_header, payload })))
}

} // verus!
