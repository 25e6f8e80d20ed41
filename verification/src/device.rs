//! The session state machine.
//!
//! A `Device` is handed the bytes that the transport delivered and is polled
//! for what to do next: deliver a packet, transmit bytes, or wait. Every
//! packet that is not an acknowledgement is acknowledged before it is
//! delivered; at most one command is outstanding, and it is transmitted again
//! whenever the retry interval has passed without an acknowledgement.
//!
//! Time is a count of milliseconds on a clock of the caller's choosing that
//! never runs backwards.

use crate::error::{Error, TryFromPacketError};
use crate::frame::{copy_onto, MESSAGE_ESCAPE, MESSAGE_ESCAPE_BIT, MESSAGE_TRAILER};
use crate::intake::{Inbound, READ_CAPACITY};
use crate::v1::packet::{parse_frame, wire, Packet, PacketContent, KIND_ACK};
use vstd::prelude::*;

verus! {

/// Milliseconds between two transmissions of an unacknowledged command.
pub const RETRY_DURATION: u64 = 1000;

/// What the caller of `poll` has to do next.
#[derive(Debug)]
pub enum State<'a> {
    /// Nothing to do before the given time, or before more bytes arrive.
    WaitingPacket(Option<u64>),
    /// A packet to deliver upward.
    ReceivedPacket(Packet),
    /// Bytes to transmit before polling again.
    SendPacket(&'a [u8]),
}

/// A `State` as a value.
pub enum StateView {
    WaitingPacket(Option<u64>),
    ReceivedPacket(Packet),
    SendPacket(Seq<u8>),
}

impl<'a> View for State<'a> {
    type V = StateView;

    open spec fn view(&self) -> StateView {
        match *self {
            State::WaitingPacket(deadline) => StateView::WaitingPacket(deadline),
            State::ReceivedPacket(packet) => StateView::ReceivedPacket(packet),
            State::SendPacket(bytes) => StateView::SendPacket(bytes@),
        }
    }
}

/// The outstanding command as a value.
pub struct SendingView {
    /// The frame as it travels.
    pub bytes: Seq<u8>,
    /// When the frame was last transmitted, if ever.
    pub last_sent_at: Option<u64>,
    /// How long to wait for an acknowledgement before transmitting again.
    pub retry_interval: u64,
}

/// A session as a value.
pub struct DeviceView {
    /// A packet that was acknowledged and waits to be delivered.
    pub pending_packet: Option<Packet>,
    /// The read side.
    pub inbound: Inbound,
    /// The outstanding command, if any.
    pub sending: Option<SendingView>,
    /// The sequence number of the last acknowledgement that completed a
    /// command: the one that the next command carries.
    pub seqnum: u8,
}

/// The sequence number that acknowledges a packet with sequence number
/// `seqnum`.
pub open spec fn ack_seqnum(seqnum: u8) -> u8 {
    1u8 ^ seqnum
}

/// The acknowledgement of a packet with sequence number `seqnum`, as it
/// travels.
pub open spec fn ack_wire(seqnum: u8) -> Seq<u8> {
    wire(KIND_ACK, ack_seqnum(seqnum), Seq::empty())
}

/// The time until which a command sent at `last_sent_at` is given to be
/// acknowledged; the end of time where the sum passes it.
pub open spec fn deadline(last_sent_at: u64, retry_interval: u64) -> u64 {
    if last_sent_at + retry_interval > u64::MAX {
        u64::MAX
    } else {
        (last_sent_at + retry_interval) as u64
    }
}

impl DeviceView {
    /// What holds of every session: a packet that waits to be delivered is
    /// not an acknowledgement, since those are delivered at once.
    pub open spec fn well_formed(self) -> bool {
        self.pending_packet matches Some(p) ==> !p.spec_is_ack()
    }

    /// A fresh session.
    pub open spec fn initial() -> DeviceView {
        DeviceView { pending_packet: None, inbound: Inbound::empty(), sending: None, seqnum: 0 }
    }

    /// The session after `bytes` were offered to it.
    pub open spec fn received(self, bytes: Seq<u8>) -> DeviceView {
        DeviceView { inbound: self.inbound.ingest(bytes), ..self }
    }

    /// The sequence number that a queued packet with `content` carries: the
    /// session's own for a command, its complement for an acknowledgement.
    pub open spec fn outgoing_seqnum(self, content: PacketContent) -> u8 {
        if content == PacketContent::Ack {
            ack_seqnum(self.seqnum)
        } else {
            self.seqnum
        }
    }

    /// The session after `content` was submitted, and what the submission
    /// returns: `PacketPending` while a command is outstanding, else the
    /// error of the encoder if the content has no frame, else success.
    pub open spec fn sent(self, content: PacketContent) -> (DeviceView, Result<(), Error>) {
        if self.sending is Some {
            (self, Err(Error::PacketPending))
        } else {
            match (Packet { seqnum: self.outgoing_seqnum(content), content }).wire() {
                Err(e) => (self, Err(e)),
                Ok(bytes) => (
                    DeviceView {
                        sending: Some(
                            SendingView {
                                bytes,
                                last_sent_at: None,
                                retry_interval: RETRY_DURATION,
                            },
                        ),
                        ..self
                    },
                    Ok(()),
                ),
            }
        }
    }

    /// One tick on the frame `frame` that was just taken out of the read
    /// side, which is now `rest`.
    ///
    /// An acknowledgement completes the outstanding command, if there is one,
    /// and is delivered. Any other packet is kept for the next tick and
    /// acknowledged now. A frame that cannot be read but shows its sequence
    /// number is acknowledged and dropped; one that does not is reported.
    pub open spec fn on_frame(self, rest: Inbound, frame: Seq<u8>) -> (
        DeviceView,
        Result<StateView, TryFromPacketError>,
    ) {
        match parse_frame(frame) {
            Ok(packet) => if packet.spec_is_ack() {
                (
                    DeviceView {
                        inbound: rest,
                        sending: None,
                        seqnum: if self.sending is Some {
                            packet.seqnum
                        } else {
                            self.seqnum
                        },
                        ..self
                    },
                    Ok(StateView::ReceivedPacket(packet)),
                )
            } else {
                (
                    DeviceView { inbound: rest, pending_packet: Some(packet), ..self },
                    Ok(StateView::SendPacket(ack_wire(packet.seqnum))),
                )
            },
            Err(e) => match e.spec_seqnum() {
                Some(seqnum) => (
                    DeviceView { inbound: rest, ..self },
                    Ok(StateView::SendPacket(ack_wire(seqnum))),
                ),
                None => (DeviceView { inbound: rest, ..self }, Err(e)),
            },
        }
    }

    /// One tick of the retransmission timer on the outstanding command `s`.
    pub open spec fn on_timer(self, s: SendingView, now: u64) -> (
        DeviceView,
        Result<StateView, TryFromPacketError>,
    ) {
        let due = match s.last_sent_at {
            None => true,
            Some(t) => now > t + s.retry_interval,
        };
        if due {
            (
                DeviceView { sending: Some(SendingView { last_sent_at: Some(now), ..s }), ..self },
                Ok(StateView::SendPacket(s.bytes)),
            )
        } else {
            (
                self,
                Ok(
                    StateView::WaitingPacket(
                        Some(deadline(s.last_sent_at.unwrap(), s.retry_interval)),
                    ),
                ),
            )
        }
    }

    /// The session after one tick at time `now`, and what the tick returns.
    ///
    /// A packet that waits to be delivered goes first; then the oldest
    /// complete frame; then the outstanding command; and with none of these
    /// there is nothing to wait for but more bytes.
    pub open spec fn polled(self, now: u64) -> (DeviceView, Result<StateView, TryFromPacketError>) {
        if let Some(packet) = self.pending_packet {
            (DeviceView { pending_packet: None, ..self }, Ok(StateView::ReceivedPacket(packet)))
        } else if self.inbound.frames.len() > 0 {
            self.on_frame(self.inbound.pop(), self.inbound.frames[0])
        } else if let Some(s) = self.sending {
            self.on_timer(s, now)
        } else {
            (self, Ok(StateView::WaitingPacket(None)))
        }
    }
}

/// A tick completes the outstanding command exactly when it delivers an
/// acknowledgement; every other tick leaves it outstanding, or leaves none.
pub proof fn lemma_tick_and_outstanding_command(v: DeviceView, now: u64)
    requires
        v.well_formed(),
    ensures
        v.polled(now).0.well_formed(),
        (v.polled(now).1 matches Ok(StateView::ReceivedPacket(p)) && p.spec_is_ack()) ==> v.polled(
            now,
        ).0.sending is None,
        !(v.polled(now).1 matches Ok(StateView::ReceivedPacket(p)) && p.spec_is_ack()) ==> (
        v.polled(now).0.sending is Some) == (v.sending is Some),
{
}

/// The outstanding command: where its frame ends in the write buffer, and its
/// timer.
#[derive(Clone, Copy)]
struct Sending {
    end: usize,
    last_sent_at: Option<u64>,
    retry_interval: u64,
}

/// A session with one device.
pub struct Device {
    pending_packet: Option<Packet>,
    /// Unescaped bytes; those before `read_start` were taken out already.
    read_buf: Vec<u8>,
    read_start: usize,
    /// Where each complete frame in `read_buf` ends, oldest first.
    frame_ends: Vec<usize>,
    escaping: bool,
    /// The frame of the outstanding command, then the latest acknowledgement.
    write_buf: Vec<u8>,
    sending: Option<Sending>,
    seqnum: u8,
}

/// Where the frame number `i` starts in a read buffer whose frames end at
/// `ends` and whose first one starts at `start`.
spec fn frame_start_in(start: int, ends: Seq<usize>, i: int) -> int {
    if i <= 0 {
        start
    } else {
        ends[i - 1] as int
    }
}

/// The read side that a read buffer and its cursors stand for.
spec fn inbound_of(buf: Seq<u8>, start: int, ends: Seq<usize>, escaping: bool) -> Inbound {
    Inbound {
        frames: Seq::new(
            ends.len(),
            |i: int| buf.subrange(frame_start_in(start, ends, i), ends[i] as int),
        ),
        partial: buf.subrange(frame_start_in(start, ends, ends.len() as int), buf.len() as int),
        escaping,
        used: buf.len(),
    }
}

impl Device {
    /// Where the frame number `i` starts in the read buffer.
    spec fn frame_start(&self, i: int) -> int {
        frame_start_in(self.read_start as int, self.frame_ends@, i)
    }

    /// The invariant of the representation.
    pub closed spec fn wf(&self) -> bool {
        &&& self.read_start <= self.read_buf@.len() <= READ_CAPACITY
        &&& forall|i: int|
            0 <= i < self.frame_ends@.len() ==> self.frame_start(i) < #[trigger] self.frame_ends@[i]
                <= self.read_buf@.len()
        &&& (self.frame_ends@.len() == 0 && self.read_start == self.read_buf@.len())
            ==> self.read_buf@.len() == 0
        &&& self.sending matches Some(s) ==> s.end <= self.write_buf@.len()
        &&& self.pending_packet matches Some(p) ==> !p.spec_is_ack()
    }

    /// The value of a session in good order is well formed.
    pub proof fn lemma_view_is_well_formed(&self)
        requires
            self.wf(),
        ensures
            self@.well_formed(),
    {
    }

    /// The read side as a value.
    closed spec fn inbound(&self) -> Inbound {
        inbound_of(self.read_buf@, self.read_start as int, self.frame_ends@, self.escaping)
    }
}

impl View for Device {
    type V = DeviceView;

    closed spec fn view(&self) -> DeviceView {
        DeviceView {
            pending_packet: self.pending_packet,
            inbound: self.inbound(),
            sending: match self.sending {
                None => None,
                Some(s) => Some(
                    SendingView {
                        bytes: self.write_buf@.subrange(0, s.end as int),
                        last_sent_at: s.last_sent_at,
                        retry_interval: s.retry_interval,
                    },
                ),
            },
            seqnum: self.seqnum,
        }
    }
}

impl Default for Device {
    fn default() -> (r: Self)
        ensures
            r.wf(),
            r@ == DeviceView::initial(),
    {
        let r = Device {
            pending_packet: None,
            read_buf: Vec::with_capacity(1024),
            read_start: 0,
            frame_ends: Vec::new(),
            escaping: false,
            write_buf: Vec::with_capacity(1024),
            sending: None,
            seqnum: 0,
        };
        assert(r.inbound().frames =~= Seq::<Seq<u8>>::empty());
        assert(r.inbound().partial =~= Seq::<u8>::empty());
        r
    }
}

impl Device {
    /// Whether `self` and `other` agree on everything but the read side.
    spec fn same_write_side(&self, other: &Device) -> bool {
        &&& self.pending_packet == other.pending_packet
        &&& self.write_buf == other.write_buf
        &&& self.sending == other.sending
        &&& self.seqnum == other.seqnum
    }

    /// Whether `self` and `other` agree on the read side.
    spec fn same_read_side(&self, other: &Device) -> bool {
        &&& self.read_buf == other.read_buf
        &&& self.read_start == other.read_start
        &&& self.frame_ends == other.frame_ends
        &&& self.escaping == other.escaping
    }

    /// Stores one unescaped data byte.
    fn store(&mut self, b: u8)
        requires
            old(self).wf(),
            old(self).read_buf@.len() < READ_CAPACITY,
        ensures
            final(self).wf(),
            final(self).same_write_side(old(self)),
            final(self).inbound() == old(self).inbound().store(b),
    {
        self.read_buf.push(b);
        self.escaping = false;
        proof {
            let before = old(self).inbound();
            let after = self.inbound();
            assert forall|i: int| 0 <= i < self.frame_ends@.len() implies self.frame_start(i)
                == old(self).frame_start(i) by {}
            assert forall|i: int| 0 <= i < after.frames.len() implies after.frames[i]
                == before.frames[i] by {
                assert(after.frames[i] =~= before.frames[i]);
            }
            assert(after.frames =~= before.frames);
            assert(after.partial =~= before.partial.push(b));
        }
    }

    /// Stores a trailer and closes the frame that was arriving.
    fn close(&mut self)
        requires
            old(self).wf(),
            old(self).read_buf@.len() < READ_CAPACITY,
        ensures
            final(self).wf(),
            final(self).same_write_side(old(self)),
            final(self).inbound() == old(self).inbound().close(),
    {
        self.read_buf.push(MESSAGE_TRAILER);
        self.frame_ends.push(self.read_buf.len());
        self.escaping = false;
        proof {
            let before = old(self).inbound();
            let after = self.inbound();
            let n = old(self).frame_ends@.len() as int;
            assert forall|i: int| 0 <= i <= n + 1 implies self.frame_start(i) == if i <= n {
                old(self).frame_start(i)
            } else {
                self.read_buf@.len() as int
            } by {}
            assert(old(self).frame_start(n) <= old(self).read_buf@.len());
            let closed = before.frames.push(before.partial.push(MESSAGE_TRAILER));
            assert(after.frames.len() == closed.len());
            assert forall|i: int| 0 <= i < after.frames.len() implies after.frames[i]
                == closed[i] by {
                assert(after.frames[i] =~= closed[i]);
            }
            assert(after.frames =~= closed);
            assert(after.partial =~= Seq::<u8>::empty());
        }
    }

    /// Takes the oldest complete frame out of the read side.
    fn pop_frame(&mut self)
        requires
            old(self).wf(),
            old(self).frame_ends@.len() > 0,
        ensures
            final(self).wf(),
            final(self).same_write_side(old(self)),
            final(self).inbound() == old(self).inbound().pop(),
    {
        let end = self.frame_ends[0];
        self.read_start = end;
        self.frame_ends.remove(0);
        proof {
            let before = old(self).inbound();
            let after = self.inbound();
            assert forall|i: int| 0 <= i <= self.frame_ends@.len() implies self.frame_start(i)
                == old(self).frame_start(i + 1) by {}
            assert forall|i: int| 0 <= i < self.frame_ends@.len() implies self.frame_start(i)
                < #[trigger] self.frame_ends@[i] <= self.read_buf@.len() by {
                assert(self.frame_ends@[i] == old(self).frame_ends@[i + 1]);
            }
            assert(after.frames.len() == before.frames.skip(1).len());
            assert forall|i: int| 0 <= i < after.frames.len() implies after.frames[i]
                == before.frames.skip(1)[i] by {
                assert(self.frame_ends@[i] == old(self).frame_ends@[i + 1]);
                assert(after.frames[i] =~= before.frames[i + 1]);
            }
            assert(after.frames =~= before.frames.skip(1));
            assert(after.partial =~= before.partial);
        }
        if self.frame_ends.len() == 0 && self.read_start == self.read_buf.len() {
            self.read_buf.clear();
            self.read_start = 0;
            proof {
                assert(self.inbound().frames =~= old(self).inbound().pop().frames);
                assert(self.inbound().partial =~= old(self).inbound().pop().partial);
            }
        }
    }

    /// Takes in bytes that the transport delivered and returns how many of
    /// them were consumed.
    ///
    /// The bytes are unescaped on the way in; an escape pair may be split
    /// between two calls. Intake stops where the read buffer is full: what is
    /// left of `content` is not consumed.
    pub fn received_packet(&mut self, content: &[u8]) -> (consumed: usize)
        requires
            old(self).wf(),
        ensures
            final(self).wf(),
            final(self)@ == old(self)@.received(content@),
            consumed == old(self)@.inbound.consumed(content@),
    {
        let mut index: usize = 0;
        assert(content@.skip(0) =~= content@);
        while index < content.len() && self.read_buf.len() < READ_CAPACITY
            invariant
                self.wf(),
                self.same_write_side(old(self)),
                index <= content@.len(),
                old(self).inbound().ingest(content@) == self.inbound().ingest(
                    content@.skip(index as int),
                ),
                old(self).inbound().consumed(content@) == index + self.inbound().consumed(
                    content@.skip(index as int),
                ),
            decreases content@.len() - index,
        {
            let b = content[index];
            let ghost before = self.inbound();
            assert(content@.skip(index as int)[0] == b);
            assert(content@.skip(index as int).skip(1) =~= content@.skip(index + 1));
            if self.escaping {
                self.store(b | MESSAGE_ESCAPE_BIT);
            } else if b == MESSAGE_ESCAPE {
                self.escaping = true;
                proof {
                    assert(self.inbound().frames =~= before.frames);
                    assert(self.inbound().partial =~= before.partial);
                }
            } else if b == MESSAGE_TRAILER {
                self.close();
            } else {
                self.store(b);
            }
            assert(self.inbound() == before.step(b));
            index += 1;
        }
        index
    }

    /// Writes the frame of a packet with `command` behind the frame of the
    /// outstanding command, and returns where it starts and ends in the write
    /// buffer.
    ///
    /// A command carries the given sequence number, or the session's own; an
    /// acknowledgement carries the complement of it. A command is refused
    /// while another one is outstanding.
    fn encode_packet(&mut self, command: PacketContent, seqnum: Option<u8>) -> (r: Result<
        (usize, usize),
        Error,
    >)
        requires
            old(self).wf(),
        ensures
            final(self).wf(),
            final(self).same_read_side(old(self)),
            final(self).pending_packet == old(self).pending_packet,
            final(self).sending == old(self).sending,
            final(self).seqnum == old(self).seqnum,
            final(self)@ == old(self)@,
            command != PacketContent::Ack && old(self).sending is Some ==> r == Err::<
                (usize, usize),
                Error,
            >(Error::PacketPending),
            command == PacketContent::Ack || old(self).sending is None ==> ({
                let base = match seqnum {
                    Some(given) => given,
                    None => old(self).seqnum,
                };
                let number = if command == PacketContent::Ack {
                    ack_seqnum(base)
                } else {
                    base
                };
                match (Packet { seqnum: number, content: command }).wire() {
                    Err(e) => r == Err::<(usize, usize), Error>(e),
                    Ok(bytes) => {
                        &&& r matches Ok((start, end))
                        &&& start <= end
                        &&& end == final(self).write_buf@.len()
                        &&& final(self).write_buf@.subrange(start as int, end as int) == bytes
                        &&& old(self).sending matches Some(s) ==> start == s.end
                        &&& old(self).sending is None ==> start == 0
                    },
                }
            }),
    {
        let is_ack = match command {
            PacketContent::Ack => true,
            _ => false,
        };
        let base = match seqnum {
            Some(given) => given,
            None => self.seqnum,
        };
        let number = if is_ack {
            1u8 ^ base
        } else {
            if self.sending.is_some() {
                return Err(Error::PacketPending);
            }
            base
        };
        let bytes = match Packet::new(number, command).to_wire() {
            Ok(bytes) => bytes,
            Err(e) => { return Err(e); },
        };
        let start = match &self.sending {
            Some(s) => s.end,
            None => 0,
        };
        self.write_buf.truncate(start);
        copy_onto(&mut self.write_buf, bytes.as_slice());
        proof {
            assert(self.write_buf@.subrange(start as int, self.write_buf@.len() as int)
                =~= bytes@);
            if let Some(s) = self.sending {
                assert(self.write_buf@.subrange(0, s.end as int) =~= old(self).write_buf@.subrange(
                    0,
                    s.end as int,
                ));
            }
        }
        Ok((start, self.write_buf.len()))
    }

    /// Submits a packet for transmission. The packet goes out at the next
    /// tick and again after every retry interval until an acknowledgement
    /// arrives.
    pub fn send_packet(&mut self, content: PacketContent) -> (r: Result<(), Error>)
        requires
            old(self).wf(),
        ensures
            final(self).wf(),
            final(self)@ == old(self)@.sent(content).0,
            r == old(self)@.sent(content).1,
    {
        if self.sending.is_some() {
            return Err(Error::PacketPending);
        }
        match self.encode_packet(content, None) {
            Err(e) => Err(e),
            Ok((start, end)) => {
                self.sending = Some(
                    Sending { end, last_sent_at: None, retry_interval: RETRY_DURATION },
                );
                Ok(())
            },
        }
    }

    /// Acknowledges a packet with sequence number `seqnum`: writes the
    /// acknowledgement into the write buffer and hands it out.
    fn acknowledge<'a>(&'a mut self, seqnum: u8) -> (r: &'a [u8])
        requires
            old(self).wf(),
        ensures
            final(self).wf(),
            final(self)@ == old(self)@,
            r@ == ack_wire(seqnum),
    {
        match self.encode_packet(PacketContent::Ack, Some(seqnum)) {
            Ok((start, end)) => vstd::slice::slice_subrange(self.write_buf.as_slice(), start, end),
            Err(_) => vstd::pervasive::unreached(),
        }
    }

    /// One tick of the session at time `now`.
    ///
    /// Returns what the caller has to do next; an error is returned for a
    /// frame that could not be read and showed no sequence number to
    /// acknowledge. The frame is gone either way.
    pub fn poll<'a>(&'a mut self, now: u64) -> (r: Result<State<'a>, TryFromPacketError>)
        requires
            old(self).wf(),
        ensures
            final(self).wf(),
            final(self)@ == old(self)@.polled(now).0,
            match old(self)@.polled(now).1 {
                Ok(state) => r matches Ok(s) && s@ == state,
                Err(e) => r matches Err(f) && f == e,
            },
    {
        if let Some(packet) = self.pending_packet {
            self.pending_packet = None;
            return Ok(State::ReceivedPacket(packet));
        }
        if self.frame_ends.len() > 0 {
            let end = self.frame_ends[0];
            let parsed = Packet::try_from(
                vstd::slice::slice_subrange(self.read_buf.as_slice(), self.read_start, end),
            );
            self.pop_frame();
            return match parsed {
                Ok(packet) => {
                    if packet.is_ack() {
                        if self.sending.is_some() {
                            self.seqnum = packet.seqnum();
                            self.sending = None;
                        }
                        Ok(State::ReceivedPacket(packet))
                    } else {
                        self.pending_packet = Some(packet);
                        Ok(State::SendPacket(self.acknowledge(packet.seqnum())))
                    }
                },
                Err(e) => match e.seqnum() {
                    Some(seqnum) => Ok(State::SendPacket(self.acknowledge(seqnum))),
                    None => Err(e),
                },
            };
        }
        let (end, last_sent_at, retry_interval) = match &self.sending {
            Some(s) => (s.end, s.last_sent_at, s.retry_interval),
            None => { return Ok(State::WaitingPacket(None)); },
        };
        let due = match last_sent_at {
            None => true,
            Some(t) => now > t && now - t > retry_interval,
        };
        if due {
            self.sending = Some(Sending { end, last_sent_at: Some(now), retry_interval });
            Ok(State::SendPacket(vstd::slice::slice_subrange(self.write_buf.as_slice(), 0, end)))
        } else {
            let t = last_sent_at.unwrap();
            let until = if t > u64::MAX - retry_interval {
                u64::MAX
            } else {
                t + retry_interval
            };
            Ok(State::WaitingPacket(Some(until)))
        }
    }
}

} // verus!
