//! Error types shared by the codec and the session.

use vstd::prelude::*;

verus! {

/// What can go wrong while encoding, decoding or queueing a packet.
#[derive(Debug, PartialEq, Eq, Clone, Copy)]
pub enum Error {
    /// The kind byte of a frame names no known packet kind.
    UnknownPacket(&'static str),
    /// A send was submitted while another one was still unacknowledged.
    PacketPending,
    /// A byte that selects a variant holds a value outside the variant's range.
    InvalidValueForEnum { what: &'static str, value: u8 },
    /// The command byte of a body has no entry in the catalogue.
    UnknownPayloadType(u8),
    /// The input ends before the bytes that the layout asks for.
    MissingBytes,
    /// The command is recognised but its body codec is not written.
    NotImplemented(&'static str),
}

/// A parse failure together with the sequence number of the frame, where the
/// frame was long enough to hold one.
#[derive(Debug, PartialEq, Eq, Clone, Copy)]
pub enum TryFromPacketError {
    /// The frame ended before its sequence number.
    ProtocolError(Error),
    /// The frame carried a sequence number, so it can still be acknowledged.
    SequencedError { seqnum: u8, error: Error },
}

impl TryFromPacketError {
    /// The sequence number attached to the failure, if any.
    pub open spec fn spec_seqnum(self) -> Option<u8> {
        match self {
            TryFromPacketError::ProtocolError(_) => None,
            TryFromPacketError::SequencedError { seqnum, .. } => Some(seqnum),
        }
    }

    /// The sequence number attached to the failure, if any.
    pub fn seqnum(&self) -> (r: Option<u8>)
        ensures
            r == self.spec_seqnum(),
    {
        match self {
            TryFromPacketError::ProtocolError(_) => None,
            TryFromPacketError::SequencedError { seqnum, .. } => Some(*seqnum),
        }
    }
}

/// The hexadecimal digit of a number below sixteen.
pub open spec fn hex_digit(n: u8) -> &'static str {
    match n {
        0 => "0",
        1 => "1",
        2 => "2",
        3 => "3",
        4 => "4",
        5 => "5",
        6 => "6",
        7 => "7",
        8 => "8",
        9 => "9",
        10 => "a",
        11 => "b",
        12 => "c",
        13 => "d",
        14 => "e",
        _ => "f",
    }
}

/// The hexadecimal digit of a number below sixteen.
pub fn hex_digit_of(n: u8) -> (r: &'static str)
    ensures
        r == hex_digit(n),
{
    match n {
        0 => "0",
        1 => "1",
        2 => "2",
        3 => "3",
        4 => "4",
        5 => "5",
        6 => "6",
        7 => "7",
        8 => "8",
        9 => "9",
        10 => "a",
        11 => "b",
        12 => "c",
        13 => "d",
        14 => "e",
        _ => "f",
    }
}

/// The two hexadecimal digits of a byte.
pub open spec fn hex_byte(value: u8) -> Seq<char> {
    hex_digit(value / 16)@ + hex_digit(value % 16)@
}

impl Error {
    /// The text that describes the error to a user.
    pub open spec fn spec_message(self) -> Seq<char> {
        match self {
            Error::UnknownPacket(name) => "unknown packet (type = \""@ + name@ + "\")"@,
            Error::PacketPending => "already in sending state"@,
            Error::InvalidValueForEnum { what, value } => "invalid value for "@ + what@ + " : "@
                + hex_byte(value),
            Error::UnknownPayloadType(code) => "unknown payload type : "@ + hex_byte(code),
            Error::MissingBytes => "missing data to parse packet"@,
            Error::NotImplemented(what) => what@ + " is not implemented"@,
        }
    }

    /// The text that describes the error to a user.
    pub fn message(&self) -> (r: String)
        ensures
            r@ == self.spec_message(),
    {
        match self {
            Error::UnknownPacket(name) => {
                let mut text = String::from_str("unknown packet (type = \"");
                text.append(name);
                text.append("\")");
                text
            },
            Error::PacketPending => String::from_str("already in sending state"),
            Error::InvalidValueForEnum { what, value } => {
                let mut text = String::from_str("invalid value for ");
                text.append(what);
                text.append(" : ");
                text.append(hex_digit_of(*value / 16));
                text.append(hex_digit_of(*value % 16));
                assert(text@ =~= self.spec_message());
                text
            },
            Error::UnknownPayloadType(code) => {
                let mut text = String::from_str("unknown payload type : ");
                text.append(hex_digit_of(*code / 16));
                text.append(hex_digit_of(*code % 16));
                assert(text@ =~= self.spec_message());
                text
            },
            Error::MissingBytes => String::from_str("missing data to parse packet"),
            Error::NotImplemented(what) => {
                let mut text = String::from_str(what);
                text.append(" is not implemented");
                text
            },
        }
    }
}

impl TryFromPacketError {
    /// The error without its sequence number.
    pub open spec fn spec_error(self) -> Error {
        match self {
            TryFromPacketError::ProtocolError(error) => error,
            TryFromPacketError::SequencedError { error, .. } => error,
        }
    }

    /// The error without its sequence number.
    #[verifier::when_used_as_spec(spec_error)]
    pub fn error(self) -> (r: Error)
        ensures
            r == self.spec_error(),
    {
        match self {
            TryFromPacketError::ProtocolError(error) => error,
            TryFromPacketError::SequencedError { error, .. } => error,
        }
    }
}

impl From<Error> for TryFromPacketError {
    fn from(value: Error) -> (r: Self) {
        TryFromPacketError::ProtocolError(value)
    }
}

impl vstd::std_specs::convert::FromSpecImpl<Error> for TryFromPacketError {
    open spec fn obeys_from_spec() -> bool {
        true
    }

    open spec fn from_spec(value: Error) -> Self {
        TryFromPacketError::ProtocolError(value)
    }
}

} // verus!
