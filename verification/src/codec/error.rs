//! Errors raised while encoding or decoding packets.
use vstd::prelude::*;

verus! {

/// What went wrong while decoding a packet.
#[derive(Debug, Clone, PartialEq, Eq)]
pub enum Error {
    MalformedVariableByteInteger,
    MalformedFixedHeader,
    InvalidProtocol(String, u8),
    InvalidQos(u8),
    InvalidReasonCode(u8),
    InvalidLength,
    InvalidString(String),
    InvalidPropertyType(String),
    InvalidPacketType(u8),
    MalformedPacket,
    Incomplete,
    Other(String),
}

/// An [`Error`] with its texts as character sequences.
pub enum ErrorModel {
    MalformedVariableByteInteger,
    MalformedFixedHeader,
    InvalidProtocol(Seq<char>, u8),
    InvalidQos(u8),
    InvalidReasonCode(u8),
    InvalidLength,
    InvalidString(Seq<char>),
    InvalidPropertyType(Seq<char>),
    InvalidPacketType(u8),
    MalformedPacket,
    Incomplete,
    Other(Seq<char>),
}

impl View for Error {
    type V = ErrorModel;

    open spec fn view(&self) -> ErrorModel {
        match self {
            Error::MalformedVariableByteInteger => ErrorModel::MalformedVariableByteInteger,
            Error::MalformedFixedHeader => ErrorModel::MalformedFixedHeader,
            Error::InvalidProtocol(s, code) => ErrorModel::InvalidProtocol(s@, *code),
            Error::InvalidQos(q) => ErrorModel::InvalidQos(*q),
            Error::InvalidReasonCode(c) => ErrorModel::InvalidReasonCode(*c),
            Error::InvalidLength => ErrorModel::InvalidLength,
            Error::InvalidString(s) => ErrorModel::InvalidString(s@),
            Error::InvalidPropertyType(s) => ErrorModel::InvalidPropertyType(s@),
            Error::InvalidPacketType(t) => ErrorModel::InvalidPacketType(*t),
            Error::MalformedPacket => ErrorModel::MalformedPacket,
            Error::Incomplete => ErrorModel::Incomplete,
            Error::Other(s) => ErrorModel::Other(s@),
        }
    }
}

/// The text that describes an error.
pub open spec fn error_text(e: ErrorModel) -> Seq<char> {
    match e {
        ErrorModel::MalformedVariableByteInteger => "Malformed variable byte integer"@,
        ErrorModel::MalformedFixedHeader => "Malformed Fixed Header"@,
        ErrorModel::InvalidProtocol(s, _) => s,
        ErrorModel::InvalidQos(_) => "Invalid Qos"@,
        ErrorModel::InvalidReasonCode(_) => "Invalid Reason Code"@,
        ErrorModel::InvalidLength => "Invalid length"@,
        ErrorModel::InvalidString(s) => s,
        ErrorModel::InvalidPropertyType(s) => s,
        ErrorModel::InvalidPacketType(_) => "Invalid packet type"@,
        ErrorModel::MalformedPacket => "Malformed packet"@,
        ErrorModel::Incomplete => "Incomplete Packet"@,
        ErrorModel::Other(s) => s,
    }
}

impl Error {
    /// The text that describes the error.
    pub fn to_string(&self) -> (text: String)
        ensures
            text@ == error_text(self@),
    {
        match self {
            Error::MalformedVariableByteInteger => "Malformed variable byte integer".to_string(),
            Error::MalformedFixedHeader => "Malformed Fixed Header".to_string(),
            Error::InvalidProtocol(err, _) => err.clone(),
            Error::InvalidQos(_) => "Invalid Qos".to_string(),
            Error::InvalidReasonCode(_) => "Invalid Reason Code".to_string(),
            Error::InvalidLength => "Invalid length".to_string(),
            Error::InvalidString(err) => err.clone(),
            Error::InvalidPropertyType(err) => err.clone(),
            Error::InvalidPacketType(_) => "Invalid packet type".to_string(),
            Error::MalformedPacket => "Malformed packet".to_string(),
            Error::Incomplete => "Incomplete Packet".to_string(),
            Error::Other(s) => s.clone(),
        }
    }
}

impl From<String> for Error {
    fn from(src: String) -> (e: Error) {
        Error::Other(src)
    }
}

impl vstd::std_specs::convert::FromSpecImpl<String> for Error {
    open spec fn obeys_from_spec() -> bool {
        true
    }

    open spec fn from_spec(src: String) -> Error {
        Error::Other(src)
    }
}

/// What decoding a value from the front of a byte sequence comes to.
pub enum Decoded<T> {
    /// The value, and how many bytes it took.
    Done(T, nat),
    /// The decoder returns an error, having taken this many bytes.
    Fail(ErrorModel, nat),
    /// The decoder panics (it reads past the end of the buffer, or an
    /// expectation on a nested result fails).
    Panic,
}

impl<T> Decoded<T> {
    /// The same outcome, counted from `k` bytes earlier in the input.
    pub open spec fn shifted(self, k: nat) -> Decoded<T> {
        match self {
            Decoded::Done(v, n) => Decoded::Done(v, n + k),
            Decoded::Fail(e, n) => Decoded::Fail(e, n + k),
            Decoded::Panic => Decoded::Panic,
        }
    }

    /// Whether decoding panics.
    pub open spec fn panics(self) -> bool {
        self is Panic
    }

    /// The bytes taken, where the decoder returns.
    pub open spec fn taken(self) -> nat {
        match self {
            Decoded::Done(_, n) => n,
            Decoded::Fail(_, n) => n,
            Decoded::Panic => 0,
        }
    }

    /// The outcome once a failure is turned into a panic, as `expect` does.
    pub open spec fn expect(self) -> Decoded<T> {
        match self {
            Decoded::Fail(_, _) => Decoded::Panic,
            other => other,
        }
    }
}

/// Shifting twice is shifting by the sum.
pub proof fn lemma_shift_shift<T>(d: Decoded<T>, a: nat, b: nat)
    ensures
        d.shifted(a).shifted(b) == d.shifted(a + b),
{
}

} // verus!
