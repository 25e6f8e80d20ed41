//! The typed packet and its frame.
//!
//! A frame is the header byte, the kind byte, the sequence number, the length
//! of the body as four big-endian bytes, the body, the checksum of everything
//! between header and checksum, and the trailer byte.

use crate::error::{Error, TryFromPacketError};
use crate::frame::{
    checksum, compute_checksum, copy_onto, escape, escape_onto, MESSAGE_HEADER, MESSAGE_TRAILER,
};
use crate::v1::catalogue::{parse_payload, PayloadCommand1};
use vstd::prelude::*;
use vstd::std_specs::convert::TryFromSpecImpl;

verus! {

/// Kind byte of an acknowledgement.
pub const KIND_ACK: u8 = 0x01;

/// Kind byte of a packet of the primary command family.
pub const KIND_COMMAND1: u8 = 0x0c;

/// Kind byte of a packet of the reserved command family.
pub const KIND_COMMAND2: u8 = 0x0e;

/// Offset of the body in a frame.
pub const BODY_OFFSET: usize = 7;

/// What a packet carries.
#[derive(Debug, PartialEq, Eq, Clone, Copy)]
pub enum PacketContent {
    /// An acknowledgement: no body.
    Ack,
    /// A command of the primary family.
    Command1(PayloadCommand1),
    /// A command of the reserved family; only its envelope is kept.
    Command2,
}

/// A packet: a sequence number and what it carries.
#[derive(Debug, PartialEq, Eq, Clone, Copy)]
pub struct Packet {
    pub seqnum: u8,
    pub content: PacketContent,
}

/// The four big-endian bytes of `n`.
pub open spec fn be32(n: u32) -> Seq<u8> {
    seq![
        (n / 0x100_0000) as u8,
        ((n / 0x1_0000) % 0x100) as u8,
        ((n / 0x100) % 0x100) as u8,
        (n % 0x100) as u8,
    ]
}

/// The number whose big-endian bytes are `b0` to `b3`.
pub open spec fn from_be32(b0: u8, b1: u8, b2: u8, b3: u8) -> u32 {
    (b0 * 0x100_0000 + b1 * 0x1_0000 + b2 * 0x100 + b3) as u32
}

/// Reading the big-endian bytes of a number gives the number back.
pub proof fn lemma_be32_round_trip(n: u32)
    ensures
        be32(n).len() == 4,
        from_be32(be32(n)[0], be32(n)[1], be32(n)[2], be32(n)[3]) == n,
{
}

/// What the checksum of a frame covers: kind, sequence number, length and
/// body.
pub open spec fn covered(kind: u8, seqnum: u8, body: Seq<u8>) -> Seq<u8> {
    seq![kind, seqnum] + be32(body.len() as u32) + body
}

/// Everything between the header and the trailer of a frame.
pub open spec fn inner(kind: u8, seqnum: u8, body: Seq<u8>) -> Seq<u8> {
    covered(kind, seqnum, body) + seq![checksum(covered(kind, seqnum, body))]
}

/// The frame of a packet before escaping.
pub open spec fn frame(kind: u8, seqnum: u8, body: Seq<u8>) -> Seq<u8> {
    seq![MESSAGE_HEADER] + inner(kind, seqnum, body) + seq![MESSAGE_TRAILER]
}

/// The frame of a packet as it travels: header and trailer as they are, what
/// lies between them escaped.
pub open spec fn wire(kind: u8, seqnum: u8, body: Seq<u8>) -> Seq<u8> {
    seq![MESSAGE_HEADER] + escape(inner(kind, seqnum, body)) + seq![MESSAGE_TRAILER]
}

impl PacketContent {
    /// The kind byte of a packet with this content.
    pub open spec fn spec_kind(self) -> u8 {
        match self {
            PacketContent::Ack => KIND_ACK,
            PacketContent::Command1(_) => KIND_COMMAND1,
            PacketContent::Command2 => KIND_COMMAND2,
        }
    }

    /// The kind byte of a packet with this content.
    #[verifier::when_used_as_spec(spec_kind)]
    pub fn kind(self) -> (r: u8)
        ensures
            r == self.spec_kind(),
    {
        match self {
            PacketContent::Ack => KIND_ACK,
            PacketContent::Command1(_) => KIND_COMMAND1,
            PacketContent::Command2 => KIND_COMMAND2,
        }
    }

    /// The body of a packet with this content. The reserved family has no
    /// body codec.
    pub open spec fn body(self) -> Result<Seq<u8>, Error> {
        match self {
            PacketContent::Ack => Ok(Seq::empty()),
            PacketContent::Command1(p) => p.bytes(),
            PacketContent::Command2 => Err(Error::NotImplemented("Command2")),
        }
    }

    /// Whether reading the frame of a packet with this content gives the
    /// content back.
    pub open spec fn survives_round_trip(self) -> bool {
        match self {
            PacketContent::Ack => true,
            PacketContent::Command1(p) => p.survives_round_trip(),
            PacketContent::Command2 => false,
        }
    }
}

/// The outcome of writing a frame at the front of a buffer: as for a payload,
/// with the length as a `usize`.
pub open spec fn frame_written(
    encoding: Result<Seq<u8>, Error>,
    before: Seq<u8>,
    after: Seq<u8>,
    result: Result<usize, Error>,
) -> bool {
    match encoding {
        Err(e) => result == Err::<usize, Error>(e) && after == before,
        Ok(bytes) => if bytes.len() <= before.len() {
            result == Ok::<usize, Error>(bytes.len() as usize) && after == bytes + before.skip(
                bytes.len() as int,
            )
        } else {
            result == Err::<usize, Error>(Error::MissingBytes) && after == before
        },
    }
}

/// Copies `bytes` to the front of `buf`, or leaves `buf` alone where it is too
/// short.
pub fn put_frame(buf: &mut [u8], bytes: &Vec<u8>) -> (r: Result<usize, Error>)
    ensures
        frame_written(Ok(bytes@), old(buf)@, final(buf)@, r),
{
    if bytes.len() > buf.len() {
        return Err(Error::MissingBytes);
    }
    let mut i: usize = 0;
    while i < bytes.len()
        invariant
            i <= bytes@.len() <= buf@.len(),
            buf@.len() == old(buf)@.len(),
            buf@ == bytes@.take(i as int) + old(buf)@.skip(i as int),
        decreases bytes@.len() - i,
    {
        buf[i] = bytes[i];
        i += 1;
    }
    assert(bytes@.take(i as int) =~= bytes@);
    Ok(i)
}

impl Packet {
    pub fn new(seqnum: u8, content: PacketContent) -> (r: Self)
        ensures
            r == (Packet { seqnum, content }),
    {
        Self { seqnum, content }
    }

    pub open spec fn spec_seqnum(&self) -> u8 {
        self.seqnum
    }

    #[verifier::when_used_as_spec(spec_seqnum)]
    pub fn seqnum(&self) -> (r: u8)
        ensures
            r == self.seqnum,
    {
        self.seqnum
    }

    pub open spec fn spec_is_ack(&self) -> bool {
        self.content == PacketContent::Ack
    }

    #[verifier::when_used_as_spec(spec_is_ack)]
    pub fn is_ack(&self) -> (r: bool)
        ensures
            r == (self.content == PacketContent::Ack),
    {
        match self.content {
            PacketContent::Ack => true,
            _ => false,
        }
    }

    /// The frame of the packet before escaping, or why it has none.
    pub open spec fn frame(self) -> Result<Seq<u8>, Error> {
        match self.content.body() {
            Ok(body) => Ok(frame(self.content.spec_kind(), self.seqnum, body)),
            Err(e) => Err(e),
        }
    }

    /// The frame of the packet as it travels, or why it has none.
    pub open spec fn wire(self) -> Result<Seq<u8>, Error> {
        match self.content.body() {
            Ok(body) => Ok(wire(self.content.spec_kind(), self.seqnum, body)),
            Err(e) => Err(e),
        }
    }

    /// The body of the packet, as a vector.
    fn write_payload(&self) -> (r: Result<Vec<u8>, Error>)
        ensures
            match self.content.body() {
                Ok(body) => r matches Ok(v) && v@ == body,
                Err(e) => r matches Err(f) && f == e,
            },
            r matches Ok(v) ==> v@.len() <= 8,
    {
        match &self.content {
            PacketContent::Ack => Ok(Vec::new()),
            PacketContent::Command1(p) => p.to_bytes(),
            PacketContent::Command2 => Err(Error::NotImplemented("Command2")),
        }
    }

    /// Everything between header and trailer, as a vector.
    fn to_inner(&self) -> (r: Result<Vec<u8>, Error>)
        ensures
            match self.content.body() {
                Ok(body) => r matches Ok(v) && v@ == inner(
                    self.content.spec_kind(),
                    self.seqnum,
                    body,
                ),
                Err(e) => r matches Err(f) && f == e,
            },
    {
        let body = match self.write_payload() {
            Ok(body) => body,
            Err(e) => { return Err(e); },
        };
        let size: u32 = body.len() as u32;
        let mut out: Vec<u8> = Vec::new();
        out.push(self.content.kind());
        out.push(self.seqnum);
        out.push((size / 0x100_0000) as u8);
        out.push(((size / 0x1_0000) % 0x100) as u8);
        out.push(((size / 0x100) % 0x100) as u8);
        out.push((size % 0x100) as u8);
        assert(out@ =~= seq![self.content.spec_kind(), self.seqnum] + be32(size));
        copy_onto(&mut out, body.as_slice());
        let sum = compute_checksum(out.as_slice());
        out.push(sum);
        Ok(out)
    }

    /// The frame of the packet before escaping, as a vector.
    pub fn to_frame(&self) -> (r: Result<Vec<u8>, Error>)
        ensures
            match self.frame() {
                Ok(bytes) => r matches Ok(v) && v@ == bytes,
                Err(e) => r matches Err(f) && f == e,
            },
    {
        let middle = match self.to_inner() {
            Ok(middle) => middle,
            Err(e) => { return Err(e); },
        };
        let mut out: Vec<u8> = Vec::new();
        out.push(MESSAGE_HEADER);
        copy_onto(&mut out, middle.as_slice());
        out.push(MESSAGE_TRAILER);
        Ok(out)
    }

    /// The frame of the packet as it travels, as a vector.
    pub fn to_wire(&self) -> (r: Result<Vec<u8>, Error>)
        ensures
            match self.wire() {
                Ok(bytes) => r matches Ok(v) && v@ == bytes,
                Err(e) => r matches Err(f) && f == e,
            },
    {
        let middle = match self.to_inner() {
            Ok(middle) => middle,
            Err(e) => { return Err(e); },
        };
        let mut out: Vec<u8> = Vec::new();
        out.push(MESSAGE_HEADER);
        escape_onto(&mut out, middle.as_slice());
        out.push(MESSAGE_TRAILER);
        Ok(out)
    }

    /// Writes the frame of the packet, before escaping, at the front of `buf`
    /// and returns its length.
    pub fn write_into(self, buf: &mut [u8]) -> (r: Result<usize, Error>)
        ensures
            frame_written(self.frame(), old(buf)@, final(buf)@, r),
    {
        match self.to_frame() {
            Ok(bytes) => put_frame(buf, &bytes),
            Err(e) => Err(e),
        }
    }
}

/// The packet that the frame `value` holds. Header, checksum and trailer are
/// taken on trust.
///
/// A frame that ends before its sequence number is `MissingBytes` without a
/// sequence number. Every later failure carries the sequence number: a kind
/// byte that names no kind is `UnknownPacket`; a length field that is cut
/// short, or that promises more bytes than follow it, is `MissingBytes`; and
/// what reading the body reports is handed on.
pub open spec fn parse_frame(value: Seq<u8>) -> Result<Packet, TryFromPacketError> {
    if value.len() < 3 {
        Err(TryFromPacketError::ProtocolError(Error::MissingBytes))
    } else {
        let seqnum = value[2];
        if value[1] == KIND_ACK {
            Ok(Packet { seqnum, content: PacketContent::Ack })
        } else if value[1] == KIND_COMMAND2 {
            Ok(Packet { seqnum, content: PacketContent::Command2 })
        } else if value[1] != KIND_COMMAND1 {
            Err(
                TryFromPacketError::SequencedError {
                    seqnum,
                    error: Error::UnknownPacket("unknown kind"),
                },
            )
        } else if value.len() < BODY_OFFSET {
            Err(TryFromPacketError::SequencedError { seqnum, error: Error::MissingBytes })
        } else {
            let size = from_be32(value[3], value[4], value[5], value[6]);
            if size > value.len() - BODY_OFFSET {
                Err(TryFromPacketError::SequencedError { seqnum, error: Error::MissingBytes })
            } else {
                match parse_payload(value.subrange(BODY_OFFSET as int, BODY_OFFSET + size)) {
                    Ok(p) => Ok(Packet { seqnum, content: PacketContent::Command1(p) }),
                    Err(error) => Err(TryFromPacketError::SequencedError { seqnum, error }),
                }
            }
        }
    }
}

impl<'a> TryFrom<&'a [u8]> for Packet {
    type Error = TryFromPacketError;

    fn try_from(value: &'a [u8]) -> (r: Result<Self, TryFromPacketError>) {
        if value.len() < 3 {
            return Err(TryFromPacketError::ProtocolError(Error::MissingBytes));
        }
        let seqnum = value[2];
        let kind = value[1];
        if kind == KIND_ACK {
            Ok(Packet { seqnum, content: PacketContent::Ack })
        } else if kind == KIND_COMMAND2 {
            Ok(Packet { seqnum, content: PacketContent::Command2 })
        } else if kind != KIND_COMMAND1 {
            Err(
                TryFromPacketError::SequencedError {
                    seqnum,
                    error: Error::UnknownPacket("unknown kind"),
                },
            )
        } else if value.len() < BODY_OFFSET {
            Err(TryFromPacketError::SequencedError { seqnum, error: Error::MissingBytes })
        } else {
            let size: u32 = (value[3] as u32) * 0x100_0000 + (value[4] as u32) * 0x1_0000 + (
            value[5] as u32) * 0x100 + (value[6] as u32);
            if size as usize > value.len() - BODY_OFFSET {
                Err(TryFromPacketError::SequencedError { seqnum, error: Error::MissingBytes })
            } else {
                let body = vstd::slice::slice_subrange(
                    value,
                    BODY_OFFSET,
                    BODY_OFFSET + size as usize,
                );
                match PayloadCommand1::try_from(body) {
                    Ok(p) => Ok(Packet { seqnum, content: PacketContent::Command1(p) }),
                    Err(error) => Err(TryFromPacketError::SequencedError { seqnum, error }),
                }
            }
        }
    }
}

impl<'a> TryFromSpecImpl<&'a [u8]> for Packet {
    open spec fn obeys_try_from_spec() -> bool {
        true
    }

    open spec fn try_from_spec(value: &'a [u8]) -> Result<Self, TryFromPacketError> {
        parse_frame(value@)
    }
}

} // verus!
