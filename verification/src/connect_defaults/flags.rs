//! The flags byte of a CONNECT packet as this reader keeps, writes and
//! reads it.
use vstd::prelude::*;
use bytes::BytesMut;
use crate::codec::buffer::buf_contents;
use crate::codec::connect::{connect_flags_byte, spec_connect_flags, ConnectFlags, ConnectFlagsModel};
use crate::codec::error::Decoded;
use crate::connect_defaults::Error;

verus! {

/// The flags of a CONNECT packet.
#[derive(Debug, Clone, Copy, PartialEq, Eq, Structural)]
pub struct ConnectFlag {
    pub(crate) flags: ConnectFlags,
}

impl View for ConnectFlag {
    type V = ConnectFlagsModel;

    closed spec fn view(&self) -> ConnectFlagsModel {
        self.flags@
    }
}

impl ConnectFlag {
    /// The same flags.
    pub(crate) fn from_flags(flags: ConnectFlags) -> (r: ConnectFlag)
        ensures
            r@ == flags@,
    {
        ConnectFlag { flags }
    }

    /// Writes the flags byte: clean start in bit 1, will in bit 2, will qos
    /// in bits 3-4, will retain in bit 5, password in bit 6, user name in
    /// bit 7, the reserved bit 0 clear; returns the byte's value.
    pub fn to_buf(&self, buf: &mut Vec<u8>) -> (res: Result<usize, Error>)
        ensures
            final(buf)@ == old(buf)@ + seq![connect_flags_byte(self@)],
            res == Ok::<usize, Error>(connect_flags_byte(self@) as usize),
    {
        match self.flags.to_buf(buf) {
            Ok(n) => Ok(n),
            Err(_) => Err(Error::MalformedPacket),
        }
    }

    /// Reads the flags byte: the reserved bit must be clear, and without a
    /// will there may be neither a will qos nor will retain.
    pub fn from_buf(buf: &mut BytesMut) -> (res: Result<ConnectFlag, Error>)
        requires
            buf_contents(*old(buf)).len() >= 1,
            !spec_connect_flags(buf_contents(*old(buf))[0]).panics(),
        ensures
            buf_contents(*final(buf)) == buf_contents(*old(buf)).skip(1),
            match spec_connect_flags(buf_contents(*old(buf))[0]) {
                Decoded::Done(f, _) => res matches Ok(r) && r@ == f,
                Decoded::Fail(_, _) => res == Err::<ConnectFlag, Error>(Error::MalformedPacket),
                Decoded::Panic => false,
            },
    {
        match ConnectFlags::from_buf(buf) {
            Ok(flags) => Ok(ConnectFlag { flags }),
            Err(_) => Err(Error::MalformedPacket),
        }
    }
}

} // verus!
