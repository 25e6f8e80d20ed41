//! The decisions of the loop that drives a session.
//!
//! The loop itself reads the transport, sleeps and notifies; it belongs to
//! the caller. After every event the caller asks for the next action until
//! the answer is to sleep.

use crate::device::{lemma_tick_and_outstanding_command, Device, DeviceView, State, StateView};
use crate::error::{Error, TryFromPacketError};
use crate::v1::packet::{Packet, PacketContent};
use vstd::prelude::*;

verus! {

/// Milliseconds after which an idle loop looks at the session again.
pub const IDLE_WAKEUP: u64 = 10_000;

/// What the loop has to do next.
#[derive(Debug)]
pub enum Action<'a> {
    /// Write these bytes to the transport.
    Transmit(&'a [u8]),
    /// Tell the caller of the outstanding send that it was acknowledged.
    CompleteSend,
    /// Hand this packet to every observer.
    Broadcast(Packet),
    /// An acknowledgement that nobody waits for; nothing to do.
    Discard,
    /// Wait for bytes, for a send, or until the time given.
    Sleep(u64),
}

/// An `Action` as a value.
pub enum ActionView {
    Transmit(Seq<u8>),
    CompleteSend,
    Broadcast(Packet),
    Discard,
    Sleep(u64),
}

impl<'a> View for Action<'a> {
    type V = ActionView;

    open spec fn view(&self) -> ActionView {
        match *self {
            Action::Transmit(bytes) => ActionView::Transmit(bytes@),
            Action::CompleteSend => ActionView::CompleteSend,
            Action::Broadcast(packet) => ActionView::Broadcast(packet),
            Action::Discard => ActionView::Discard,
            Action::Sleep(until) => ActionView::Sleep(until),
        }
    }
}

/// The time at which an idle loop wakes up: `IDLE_WAKEUP` after `now`, or
/// the end of time where the sum passes it.
pub open spec fn idle_wakeup(now: u64) -> u64 {
    if now + IDLE_WAKEUP > u64::MAX {
        u64::MAX
    } else {
        (now + IDLE_WAKEUP) as u64
    }
}

/// What the loop does with the outcome `state` of a tick at time `now`,
/// where `awaited` says whether a send waits for its acknowledgement.
pub open spec fn action_for(state: StateView, awaited: bool, now: u64) -> ActionView {
    match state {
        StateView::WaitingPacket(Some(until)) => ActionView::Sleep(until),
        StateView::WaitingPacket(None) => ActionView::Sleep(idle_wakeup(now)),
        StateView::ReceivedPacket(packet) => if packet.spec_is_ack() {
            if awaited {
                ActionView::CompleteSend
            } else {
                ActionView::Discard
            }
        } else {
            ActionView::Broadcast(packet)
        },
        StateView::SendPacket(bytes) => ActionView::Transmit(bytes),
    }
}

/// A session together with what its loop has to remember.
pub struct Facade {
    device: Device,
    awaiting_ack: bool,
}

impl View for Facade {
    type V = DeviceView;

    closed spec fn view(&self) -> DeviceView {
        self.device@
    }
}

impl Facade {
    /// The invariant: a send waits for its acknowledgement exactly while the
    /// session has a command outstanding.
    pub closed spec fn wf(&self) -> bool {
        &&& self.device.wf()
        &&& self.awaiting_ack == (self.device@.sending is Some)
    }

    /// A loop state around a fresh session.
    pub fn new() -> (r: Self)
        ensures
            r.wf(),
            r@ == DeviceView::initial(),
    {
        Facade { device: Device::default(), awaiting_ack: false }
    }

    /// Whether a send can be submitted now.
    pub fn accepts_send(&self) -> (r: bool)
        requires
            self.wf(),
        ensures
            r == (self@.sending is None),
    {
        !self.awaiting_ack
    }

    /// Hands bytes read from the transport to the session and returns how
    /// many of them it took.
    pub fn feed(&mut self, bytes: &[u8]) -> (consumed: usize)
        requires
            old(self).wf(),
        ensures
            final(self).wf(),
            final(self)@ == old(self)@.received(bytes@),
            consumed == old(self)@.inbound.consumed(bytes@),
    {
        self.device.received_packet(bytes)
    }

    /// Submits a send. It is refused as pending while an earlier one waits
    /// for its acknowledgement.
    pub fn submit(&mut self, content: PacketContent) -> (r: Result<(), Error>)
        requires
            old(self).wf(),
        ensures
            final(self).wf(),
            final(self)@ == old(self)@.sent(content).0,
            r == old(self)@.sent(content).1,
    {
        let r = self.device.send_packet(content);
        if r.is_ok() {
            self.awaiting_ack = true;
        }
        r
    }

    /// One tick of the session at time `now`, turned into what the loop has
    /// to do.
    pub fn next_action<'a>(&'a mut self, now: u64) -> (r: Result<Action<'a>, TryFromPacketError>)
        requires
            old(self).wf(),
        ensures
            final(self).wf(),
            final(self)@ == old(self)@.polled(now).0,
            match old(self)@.polled(now).1 {
                Ok(state) => r matches Ok(a) && a@ == action_for(
                    state,
                    old(self)@.sending is Some,
                    now,
                ),
                Err(e) => r matches Err(f) && f == e,
            },
    {
        let awaited = self.awaiting_ack;
        proof {
            self.device.lemma_view_is_well_formed();
            lemma_tick_and_outstanding_command(self.device@, now);
        }
        let state = match self.device.poll(now) {
            Ok(state) => state,
            Err(e) => { return Err(e); },
        };
        match state {
            State::WaitingPacket(Some(until)) => Ok(Action::Sleep(until)),
            State::WaitingPacket(None) => {
                let until = if now > u64::MAX - IDLE_WAKEUP {
                    u64::MAX
                } else {
                    now + IDLE_WAKEUP
                };
                Ok(Action::Sleep(until))
            },
            State::ReceivedPacket(packet) => {
                if packet.is_ack() {
                    if awaited {
                        self.awaiting_ack = false;
                        Ok(Action::CompleteSend)
                    } else {
                        Ok(Action::Discard)
                    }
                } else {
                    Ok(Action::Broadcast(packet))
                }
            },
            State::SendPacket(bytes) => Ok(Action::Transmit(bytes)),
        }
    }
}

} // verus!
