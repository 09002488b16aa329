//! The protocol name and level a CONNECT packet opens with.
use vstd::prelude::*;
use bytes::BytesMut;
use crate::codec::buffer::{buf_contents, buf_get_u8, buf_len};
use crate::codec::error::{Decoded, Error, ErrorModel};
use crate::codec::{put_slice, read_string, spec_read_string_expect, FromToBuf};

verus! {

/// The protocol versions the codec speaks.
#[derive(Debug, Clone, Copy, PartialEq, Eq, Structural)]
pub enum Protocol {
    MQTT5,
}

/// The bytes of the protocol name "MQTT" with its length, then level 5.
pub open spec fn protocol_bytes() -> Seq<u8> {
    seq![0u8, 4u8, 77u8, 81u8, 84u8, 84u8, 5u8]
}

/// Decoding the protocol name and level from the front of `s`.
pub open spec fn spec_protocol(s: Seq<u8>) -> Decoded<Protocol> {
    match spec_read_string_expect(s) {
        Decoded::Done(name, n) => if s.len() <= n {
            Decoded::Panic
        } else if name == "MQTT"@ && s[n as int] == 5 {
            Decoded::Done(Protocol::MQTT5, n + 1)
        } else {
            Decoded::Fail(ErrorModel::InvalidProtocol(name, s[n as int]), n + 1)
        },
        _ => Decoded::Panic,
    }
}

impl View for Protocol {
    type V = Protocol;

    open spec fn view(&self) -> Protocol {
        *self
    }
}

impl Protocol {
    /// The number of bytes the protocol name and level take.
    pub fn length(&self) -> (n: usize)
        ensures
            n == protocol_bytes().len(),
    {
        7
    }
}

impl Default for Protocol {
    fn default() -> (p: Self)
        ensures
            p == Protocol::MQTT5,
    {
        Protocol::MQTT5
    }
}

impl FromToBuf<Protocol> for Protocol {
    open spec fn writable(&self) -> bool {
        true
    }

    open spec fn readable(s: Seq<u8>) -> bool {
        !spec_protocol(s).panics()
    }

    /// Writes the protocol name and level; returns 7.
    fn to_buf(&self, buf: &mut Vec<u8>) -> (res: Result<usize, Error>)
        ensures
            final(buf)@ == old(buf)@ + protocol_bytes(),
            res == Ok::<usize, Error>(7),
    {
        match self {
            Protocol::MQTT5 => {
                // offset: 0, length: 4, body: MQTT, level: 5
                let slice: [u8; 7] = [0u8, 4u8, 77u8, 81u8, 84u8, 84u8, 5u8];
                put_slice(buf, &slice);
                assert(slice@ == protocol_bytes());
                Ok(7)
            },
        }
    }

    /// Reads the protocol name and level: "MQTT" and 5 give `MQTT5`, any other
    /// pair is an error that carries them.
    fn from_buf(buf: &mut BytesMut) -> (res: Result<Protocol, Error>)
        ensures
            match spec_protocol(buf_contents(*old(buf))) {
                Decoded::Done(p, n) => res == Ok::<Protocol, Error>(p)
                    && buf_contents(*final(buf)) == buf_contents(*old(buf)).skip(n as int),
                Decoded::Fail(e, n) => res matches Err(err) && err@ == e
                    && buf_contents(*final(buf)) == buf_contents(*old(buf)).skip(n as int),
                Decoded::Panic => false,
            },
    {
        let ghost s = buf_contents(*buf);
        assert(!spec_protocol(s).panics());
        let name = match read_string(buf) {
            Ok(name) => name,
            Err(e) => {
                proof {
                    assert(false);
                }
                return Err(e);
            },
        };
        let level = buf_get_u8(buf);
        let ghost n = (s.len() - buf_contents(*buf).len() - 1) as nat;
        proof {
            assert(buf_contents(*buf) =~= s.skip((n + 1) as int));
        }
        let mqtt: String = "MQTT".to_string();
        if name == mqtt && level == 5 {
            Ok(Protocol::MQTT5)
        } else {
            Err(Error::InvalidProtocol(name, level))
        }
    }
}

} // verus!
