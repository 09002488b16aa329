//! The AUTH packet: a reason code and properties.
use vstd::prelude::*;
use bytes::BytesMut;
use crate::codec::buffer::{buf_contents, buf_get_u8};
use crate::codec::check::{keys_allowed, keys_within};
use crate::codec::error::{Decoded, Error, ErrorModel};
use crate::codec::fixed_header::{fixed_header_bytes, spec_fixed_header, FixedHeader};
use crate::codec::packet::{PacketCodec, PacketType};
use crate::codec::property::{consumed, empty_property_model, lemma_property_from_buf_consumed, spec_property_from_buf, Mqtt5Property, Mqtt5PropertyModel};
use crate::codec::property_encode::{property_encoding, property_writable};
use crate::codec::publish::Qos;
use crate::codec::{varint_encode, FromToBuf, FromToU8};

verus! {

/// A AUTH packet.
#[derive(Debug, Clone, PartialEq)]
pub struct Auth {
    pub fixed_header: FixedHeader,
    pub variable_header: AuthVariableHeader,
}

/// The variable header of a AUTH packet.
#[derive(Debug, Clone, PartialEq)]
pub struct AuthVariableHeader {
    pub reason_code: AuthenticateReasonCode,
    pub auth_property: Mqtt5Property,
}

impl View for AuthVariableHeader {
    type V = (AuthenticateReasonCode, Mqtt5PropertyModel);

    closed spec fn view(&self) -> (AuthenticateReasonCode, Mqtt5PropertyModel) {
        (self.reason_code, self.auth_property@)
    }
}

impl View for Auth {
    type V = (FixedHeader, (AuthenticateReasonCode, Mqtt5PropertyModel));

    closed spec fn view(&self) -> (FixedHeader, (AuthenticateReasonCode, Mqtt5PropertyModel)) {
        (self.fixed_header, self.variable_header@)
    }
}

/// The property identifiers a AUTH packet may carry.
pub open spec fn auth_property_ids() -> Seq<u32> {
    seq![0x15u32, 0x16u32, 0x1Fu32, 0x26u32]
}

/// Decoding the variable header of a AUTH packet from the front of `s`.
pub open spec fn spec_auth_variable_header(s: Seq<u8>) -> Decoded<(AuthenticateReasonCode, Mqtt5PropertyModel)> {
    if s.len() < 1 {
        Decoded::Panic
    } else {
        match AuthenticateReasonCode::from_wire(s[0]) {
            None => Decoded::Panic,
            Some(code) => match spec_property_from_buf(s.skip(1)) {
                Decoded::Done(p, n) => if keys_within(p.properties, auth_property_ids()) {
                    Decoded::Done((code, p), 1 + n)
                } else {
                    Decoded::Fail(ErrorModel::InvalidPropertyType("Auth Properties contains a invalid property"@), 1 + n)
                },
                _ => Decoded::Panic,
            },
        }
    }
}

/// Decoding the variable header takes no more bytes than there are.
pub proof fn lemma_auth_variable_header_consumed(s: Seq<u8>)
    ensures
        match spec_auth_variable_header(s) {
            Decoded::Done(_, n) => n <= s.len(),
            Decoded::Fail(_, n) => n <= s.len(),
            Decoded::Panic => true,
        },
{
    if s.len() >= 1 {
        lemma_property_from_buf_consumed(s.skip(1));
    }
}

/// Decoding the rest of a AUTH packet after its fixed header `h`.
pub open spec fn spec_auth_extra(s: Seq<u8>, h: FixedHeader) -> Decoded<(FixedHeader, (AuthenticateReasonCode, Mqtt5PropertyModel))> {
    match spec_auth_variable_header(s) {
        Decoded::Done(v, n) => Decoded::Done((h, v), n),
        _ => Decoded::Panic,
    }
}

/// Decoding a AUTH packet from the front of `s`.
pub open spec fn spec_auth(s: Seq<u8>) -> Decoded<(FixedHeader, (AuthenticateReasonCode, Mqtt5PropertyModel))> {
    match spec_fixed_header(s) {
        Decoded::Done(h, n) => if h.packet_type != PacketType::AUTH || h.dup || h.qos != Qos::AtMostOnce || h.retain {
            Decoded::Panic
        } else {
            spec_auth_extra(s.skip(n as int), h).shifted(n)
        },
        _ => Decoded::Panic,
    }
}

/// `w` is how the variable header `v` is written.
pub open spec fn auth_variable_header_encoding(v: (AuthenticateReasonCode, Mqtt5PropertyModel), w: Seq<u8>) -> bool {
    exists|pw: Seq<u8>| property_encoding(v.1, pw) && w == seq![v.0.wire_code()] + pw
}

impl AuthVariableHeader {
    fn check_auth_property(auth_property: &mut Mqtt5Property) -> (res: Result<(), Error>)
        ensures
            *final(auth_property) == *old(auth_property),
            res is Ok <==> keys_within(old(auth_property)@.properties, auth_property_ids()),
            res matches Err(e) ==> e@ == ErrorModel::InvalidPropertyType("Auth Properties contains a invalid property"@),
    {
        let allowed: [u32; 4] = [0x15, 0x16, 0x1F, 0x26];
        assert(allowed@ == auth_property_ids());
        if keys_allowed(&auth_property.properties, &allowed) {
            Ok(())
        } else {
            Err(Error::InvalidPropertyType("Auth Properties contains a invalid property".to_string()))
        }
    }

    /// The number of bytes the variable header takes.
    pub fn length(&self) -> (n: usize)
        requires
            varint_encode(self@.1.property_length as nat).len() + self@.1.property_length + 1 <= usize::MAX,
        ensures
            n == 1 + varint_encode(self@.1.property_length as nat).len() + self@.1.property_length,
    {
        1 + self.auth_property.length()
    }
}

impl FromToBuf<AuthVariableHeader> for AuthVariableHeader {
    open spec fn writable(&self) -> bool {
        property_writable(self@.1) && self@.1.property_length + 1 <= usize::MAX
    }

    open spec fn readable(s: Seq<u8>) -> bool {
        !spec_auth_variable_header(s).panics()
    }

    /// Writes the packet identifier, the reason code and the properties;
    /// returns 3 plus the declared property length.
    fn to_buf(&self, buf: &mut Vec<u8>) -> (res: Result<usize, Error>)
        ensures
            res == Ok::<usize, Error>((0 + self@.1.property_length) as usize),
            exists|w: Seq<u8>| auth_variable_header_encoding(self@, w) && final(buf)@ == old(buf)@ + w,
    {
        let ghost start = buf@;
        buf.push(self.reason_code.to_u8());
        let mut len: usize = 0;
        let ghost mid = buf@;
        let n = match self.auth_property.to_buf(buf) {
            Ok(n) => n,
            Err(_) => 0,
        };
        len = len + n;
        proof {
            let pw = choose|pw: Seq<u8>| property_encoding(self.auth_property@, pw) && buf@ == mid + pw;
            let w = seq![self.reason_code.wire_code()] + pw;
            assert(buf@ =~= start + w);
            assert(auth_variable_header_encoding(self@, w));
        }
        Ok(len)
    }

    fn from_buf(buf: &mut BytesMut) -> (res: Result<AuthVariableHeader, Error>)
        ensures
            match spec_auth_variable_header(buf_contents(*old(buf))) {
                Decoded::Done(v, n) => res matches Ok(r) && r@ == v
                    && buf_contents(*final(buf)) == buf_contents(*old(buf)).skip(n as int),
                Decoded::Fail(e, n) => res matches Err(err) && err@ == e
                    && buf_contents(*final(buf)) == buf_contents(*old(buf)).skip(n as int),
                Decoded::Panic => false,
            },
    {
        let ghost s = buf_contents(*buf);
        proof {
            lemma_auth_variable_header_consumed(s);
            lemma_property_from_buf_consumed(s.skip(1));
        }
        let reason_code = match AuthenticateReasonCode::from_u8(buf_get_u8(buf)) {
            Ok(c) => c,
            Err(e) => {
                proof {
                    assert(false);
                }
                return Err(e);
            },
        };
        assert(buf_contents(*buf) =~= s.skip(1));
        let mut auth_property = match Mqtt5Property::from_buf(buf) {
            Ok(p) => p,
            Err(e) => {
                proof {
                    assert(false);
                }
                return Err(e);
            },
        };
        proof {
            assert(buf_contents(*buf) =~= s.skip(1).skip(
                consumed(spec_property_from_buf(s.skip(1))) as int,
            ));
            assert(buf_contents(*buf) =~= s.skip(1 + consumed(spec_property_from_buf(s.skip(1))) as int));
        }
        match AuthVariableHeader::check_auth_property(&mut auth_property) {
            Ok(()) => {},
            Err(e) => return Err(e),
        }
        Ok(AuthVariableHeader { reason_code, auth_property })
    }
}

impl PacketCodec<Auth> for Auth {
    open spec fn extra_readable(s: Seq<u8>, fixed_header: FixedHeader) -> bool {
        !spec_auth_extra(s, fixed_header).panics()
    }

    fn from_buf_extra(buf: &mut BytesMut, fixed_header: FixedHeader) -> (res: Result<Auth, Error>)
        ensures
            match spec_auth_extra(buf_contents(*old(buf)), fixed_header) {
                Decoded::Done(v, n) => res matches Ok(r) && r@ == v
                    && buf_contents(*final(buf)) == buf_contents(*old(buf)).skip(n as int)
                    && n <= buf_contents(*old(buf)).len(),
                _ => false,
            },
    {
        proof {
            lemma_auth_variable_header_consumed(buf_contents(*buf));
        }
        let variable_header = match AuthVariableHeader::from_buf(buf) {
            Ok(v) => v,
            Err(e) => {
                proof {
                    assert(false);
                }
                return Err(e);
            },
        };
        Ok(Auth { fixed_header, variable_header })
    }
}

impl FromToBuf<Auth> for Auth {
    open spec fn writable(&self) -> bool {
        property_writable(self@.1.1) && fixed_header_bytes(self@.0).len() + self@.1.1.property_length + 1
            <= usize::MAX
    }

    open spec fn readable(s: Seq<u8>) -> bool {
        !spec_auth(s).panics()
    }

    /// Writes the fixed header, then the variable header; returns the
    /// lengths the two report, added.
    fn to_buf(&self, buf: &mut Vec<u8>) -> (res: Result<usize, Error>)
        ensures
            res == Ok::<usize, Error>(
                (fixed_header_bytes(self@.0).len() + 0 + self@.1.1.property_length) as usize,
            ),
            exists|w: Seq<u8>|
                auth_variable_header_encoding(self@.1, w) && final(buf)@ == old(buf)@ + fixed_header_bytes(self@.0) + w,
    {
        let ghost start = buf@;
        let a = match self.fixed_header.to_buf(buf) {
            Ok(n) => n,
            Err(_) => 0,
        };
        let ghost mid = buf@;
        let b = match self.variable_header.to_buf(buf) {
            Ok(n) => n,
            Err(_) => 0,
        };
        proof {
            let w = choose|w: Seq<u8>| auth_variable_header_encoding(self.variable_header@, w) && buf@ == mid + w;
            assert(buf@ =~= start + fixed_header_bytes(self.fixed_header) + w);
        }
        Ok(a + b)
    }

    /// Reads a AUTH packet: a fixed header of the right type and flags,
    /// then the variable header.
    fn from_buf(buf: &mut BytesMut) -> (res: Result<Auth, Error>)
        ensures
            match spec_auth(buf_contents(*old(buf))) {
                Decoded::Done(v, n) => res matches Ok(r) && r@ == v
                    && buf_contents(*final(buf)) == buf_contents(*old(buf)).skip(n as int),
                _ => false,
            },
    {
        let ghost s = buf_contents(*buf);
        let fixed_header = Auth::decode_fixed_header(buf);
        if fixed_header.packet_type != PacketType::AUTH || fixed_header.dup || fixed_header.qos != Qos::AtMostOnce
            || fixed_header.retain {
            proof {
                assert(false);
            }
        }
        let ghost rest = buf_contents(*buf);
        let res = Auth::from_buf_extra(buf, fixed_header);
        proof {
            let n = (s.len() - rest.len()) as nat;
            assert(rest == s.skip(n as int));
            lemma_auth_variable_header_consumed(rest);
            if let Decoded::Done(v, m) = spec_auth_extra(rest, fixed_header) {
                assert(buf_contents(*buf) =~= s.skip((n + m) as int));
            }
        }
        res
    }
}

impl Auth {
    /// The number of bytes the packet takes.
    pub fn length(&self) -> (n: usize)
        requires
            fixed_header_bytes(self@.0).len() + self@.0.remaining_length <= usize::MAX,
        ensures
            n == fixed_header_bytes(self@.0).len() + self@.0.remaining_length,
    {
        self.fixed_header.length() + self.fixed_header.remaining_length
    }
}

impl Default for AuthVariableHeader {
    fn default() -> (v: Self)
        ensures
            v@ == (AuthenticateReasonCode::ReAuthenticate, empty_property_model()),
    {
        AuthVariableHeader {
            reason_code: AuthenticateReasonCode::default(),
            auth_property: Mqtt5Property::default(),
        }
    }
}

impl Default for Auth {
    fn default() -> (p: Self)
        ensures
            p@ == (
                FixedHeader {
                    packet_type: PacketType::AUTH,
                    dup: false,
                    qos: Qos::AtMostOnce,
                    retain: false,
                    remaining_length: 2,
                },
                (AuthenticateReasonCode::ReAuthenticate, empty_property_model()),
            ),
    {
        let variable_header = AuthVariableHeader::default();
        proof {
            crate::codec::lemma_varint_encode_len(0);
            reveal_with_fuel(varint_encode, 2);
        }
        let fixed_header = FixedHeader {
            packet_type: PacketType::AUTH,
            dup: false,
            qos: Qos::AtMostOnce,
            retain: false,
            remaining_length: variable_header.length(),
        };
        Auth { fixed_header, variable_header }
    }
}

/// The reason codes of a AUTH packet.
#[derive(Debug, Clone, Copy, PartialEq, Eq, Structural)]
pub enum AuthenticateReasonCode {
    /// 0[0x00]
    Success,
    /// 24[0x18]
    ContinueAuthentication,
    /// 25[0x19]
    ReAuthenticate,
}

impl AuthenticateReasonCode {
    /// The byte that stands for this code.
    pub open spec fn wire_code(self) -> u8 {
        match self {
            AuthenticateReasonCode::Success => 0,
            AuthenticateReasonCode::ContinueAuthentication => 24,
            AuthenticateReasonCode::ReAuthenticate => 25,
        }
    }

    /// The code a byte stands for, if any.
    pub open spec fn from_wire(byte: u8) -> Option<AuthenticateReasonCode> {
        if byte == 0 {
            Some(AuthenticateReasonCode::Success)
        } else if byte == 24 {
            Some(AuthenticateReasonCode::ContinueAuthentication)
        } else if byte == 25 {
            Some(AuthenticateReasonCode::ReAuthenticate)
        } else {
            None
        }
    }

    /// A byte stands for a code exactly when it is that code's byte.
    pub proof fn lemma_wire_code(self, byte: u8)
        ensures
            AuthenticateReasonCode::from_wire(byte) == Some(self) <==> self.wire_code() == byte,
    {
    }
}

impl Default for AuthenticateReasonCode {
    fn default() -> (c: Self)
        ensures
            c == AuthenticateReasonCode::ReAuthenticate,
    {
        AuthenticateReasonCode::ReAuthenticate
    }
}

impl FromToU8<AuthenticateReasonCode> for AuthenticateReasonCode {
    fn to_u8(&self) -> (b: u8)
        ensures
            b == self.wire_code(),
    {
        match *self {
            AuthenticateReasonCode::Success => 0,
            AuthenticateReasonCode::ContinueAuthentication => 24,
            AuthenticateReasonCode::ReAuthenticate => 25,
        }
    }

    fn from_u8(byte: u8) -> (res: Result<AuthenticateReasonCode, Error>)
        ensures
            match AuthenticateReasonCode::from_wire(byte) {
                Some(c) => res == Ok::<AuthenticateReasonCode, Error>(c),
                None => res == Err::<AuthenticateReasonCode, Error>(Error::InvalidReasonCode(byte)),
            },
    {
        match byte {
            0 => Ok(AuthenticateReasonCode::Success),
            24 => Ok(AuthenticateReasonCode::ContinueAuthentication),
            25 => Ok(AuthenticateReasonCode::ReAuthenticate),
            n => Err(Error::InvalidReasonCode(n)),
        }
    }
}

} // verus!
