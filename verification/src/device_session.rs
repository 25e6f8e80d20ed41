//! A session that keeps no buffers: the caller owns the bytes read from the
//! transport and the room for the bytes to write, and the session keeps the
//! sequence number and whether a command is outstanding.

use crate::device::ack_seqnum;
use crate::error::{Error, TryFromPacketError};
use crate::frame::{MESSAGE_ESCAPE, MESSAGE_ESCAPE_BIT, MESSAGE_TRAILER};
use crate::intake::Inbound;
use crate::v1::packet::{frame_written, parse_frame, put_frame, Packet, PacketContent};
use vstd::prelude::*;

verus! {

/// The read side after bytes of `bytes` were taken in up to the end of the
/// first frame, and how many bytes that took. Nothing more is taken in once
/// a frame is complete.
pub open spec fn collect(v: Inbound, bytes: Seq<u8>) -> (Inbound, nat)
    decreases bytes.len(),
{
    if bytes.len() == 0 || v.frames.len() > 0 {
        (v, 0)
    } else {
        let (w, n) = collect(v.step(bytes[0]), bytes.skip(1));
        (w, n + 1)
    }
}

/// The first frame in the wire bytes `buffer`, unescaped, and the number of
/// bytes up to its end; `None` where no frame ends in `buffer`.
pub open spec fn first_frame(buffer: Seq<u8>) -> Option<(Seq<u8>, nat)> {
    let (w, n) = collect(Inbound::empty(), buffer);
    if w.frames.len() > 0 {
        Some((w.frames[0], n))
    } else {
        None
    }
}

/// A buffer-less session as a value.
pub struct DeviceSessionView {
    /// The sequence number that the next command carries.
    pub seqnum: u8,
    /// How many commands wait for their acknowledgement: none or one.
    pub pending_ack: u8,
}

impl DeviceSessionView {
    /// The session after it read `packet`: an acknowledgement completes the
    /// outstanding command and hands its sequence number to the next one.
    pub open spec fn parsed(self, packet: Packet) -> DeviceSessionView {
        if packet.spec_is_ack() && self.pending_ack > 0 {
            DeviceSessionView { seqnum: packet.seqnum, pending_ack: (self.pending_ack - 1) as u8 }
        } else {
            self
        }
    }

    /// The sequence number of a packet with content `command` for which the
    /// caller gave `seqnum`: for a command the given number, or the session's
    /// own; for an acknowledgement the complement of it.
    pub open spec fn number(self, command: PacketContent, seqnum: Option<u8>) -> u8 {
        let base = match seqnum {
            Some(given) => given,
            None => self.seqnum,
        };
        if command == PacketContent::Ack {
            ack_seqnum(base)
        } else {
            base
        }
    }

    /// What encoding a packet with content `command` writes, or why it
    /// writes nothing: a command is refused while another is outstanding.
    pub open spec fn encoding(self, command: PacketContent, seqnum: Option<u8>) -> Result<
        Seq<u8>,
        Error,
    > {
        if command != PacketContent::Ack && self.pending_ack > 0 {
            Err(Error::PacketPending)
        } else {
            (Packet { seqnum: self.number(command, seqnum), content: command }).wire()
        }
    }
}

/// A session whose buffers the caller owns.
pub struct DeviceSession {
    seqnum: u8,
    pending_ack: u8,
}

impl View for DeviceSession {
    type V = DeviceSessionView;

    closed spec fn view(&self) -> DeviceSessionView {
        DeviceSessionView { seqnum: self.seqnum, pending_ack: self.pending_ack }
    }
}

impl DeviceSession {
    /// The invariant of a session: at most one command is outstanding.
    pub closed spec fn wf(&self) -> bool {
        self.pending_ack <= 1
    }

    pub fn new() -> (r: Self)
        ensures
            r.wf(),
            r@ == (DeviceSessionView { seqnum: 0, pending_ack: 0 }),
    {
        Self { seqnum: 0, pending_ack: 0 }
    }

    /// Reads the first frame in the wire bytes `buffer` and returns how many
    /// bytes it took, with the packet or the reason why it could not be read.
    ///
    /// Where no frame ends in `buffer`, all of it counts as taken and the
    /// result is `MissingBytes`.
    pub fn parse_packet(&mut self, buffer: &[u8]) -> (r: (usize, Result<Packet, TryFromPacketError>))
        requires
            old(self).wf(),
        ensures
            final(self).wf(),
            match first_frame(buffer@) {
                None => r.0 == buffer@.len() && r.1 == Err::<Packet, TryFromPacketError>(
                    TryFromPacketError::ProtocolError(Error::MissingBytes),
                ) && final(self)@ == old(self)@,
                Some((frame, taken)) => r.0 == taken && r.1 == parse_frame(frame) && final(self)@
                    == match parse_frame(frame) {
                    Ok(packet) => old(self)@.parsed(packet),
                    Err(_) => old(self)@,
                },
            },
    {
        let mut frame: Vec<u8> = Vec::new();
        let mut escaping = false;
        let mut complete = false;
        let mut index: usize = 0;
        let ghost mut cur = Inbound::empty();
        assert(buffer@.skip(0) =~= buffer@);
        while index < buffer.len() && !complete
            invariant
                index <= buffer@.len(),
                cur.escaping == escaping,
                complete ==> cur.frames.len() == 1 && cur.frames[0] == frame@,
                !complete ==> cur.frames.len() == 0 && cur.partial == frame@,
                collect(Inbound::empty(), buffer@).0 == collect(cur, buffer@.skip(index as int)).0,
                collect(Inbound::empty(), buffer@).1 == index + collect(
                    cur,
                    buffer@.skip(index as int),
                ).1,
            decreases buffer@.len() - index,
        {
            let b = buffer[index];
            assert(buffer@.skip(index as int)[0] == b);
            assert(buffer@.skip(index as int).skip(1) =~= buffer@.skip(index + 1));
            if escaping {
                frame.push(b | MESSAGE_ESCAPE_BIT);
                escaping = false;
            } else if b == MESSAGE_ESCAPE {
                escaping = true;
            } else if b == MESSAGE_TRAILER {
                frame.push(b);
                complete = true;
            } else {
                frame.push(b);
            }
            proof {
                cur = cur.step(b);
            }
            index += 1;
        }
        if !complete {
            return (index, Err(TryFromPacketError::ProtocolError(Error::MissingBytes)));
        }
        let packet = Packet::try_from(frame.as_slice());
        if let Ok(p) = &packet {
            if p.is_ack() && self.pending_ack > 0 {
                self.pending_ack -= 1;
                self.seqnum = p.seqnum();
            }
        }
        (index, packet)
    }

    /// Writes the frame of a packet with content `command`, as it travels,
    /// at the front of `buffer` and returns its length. A command that was
    /// written is outstanding until its acknowledgement is read.
    pub fn encode_packet(
        &mut self,
        buffer: &mut [u8],
        command: PacketContent,
        seqnum: Option<u8>,
    ) -> (r: Result<usize, Error>)
        requires
            old(self).wf(),
        ensures
            final(self).wf(),
            frame_written(
                old(self)@.encoding(command, seqnum),
                old(buffer)@,
                final(buffer)@,
                r,
            ),
            final(self)@ == if r is Ok && command != PacketContent::Ack {
                DeviceSessionView { pending_ack: 1, ..old(self)@ }
            } else {
                old(self)@
            },
    {
        let is_ack = match command {
            PacketContent::Ack => true,
            _ => false,
        };
        let base = match seqnum {
            Some(given) => given,
            None => self.seqnum,
        };
        let number = if is_ack {
            1u8 ^ base
        } else {
            if self.pending_ack > 0 {
                return Err(Error::PacketPending);
            }
            base
        };
        let bytes = match Packet::new(number, command).to_wire() {
            Ok(bytes) => bytes,
            Err(e) => { return Err(e); },
        };
        let written = put_frame(buffer, &bytes);
        if written.is_ok() && !is_ack {
            self.pending_ack = 1;
        }
        written
    }
}

} // verus!
