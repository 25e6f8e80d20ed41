//! The model of the read side: what the bytes taken in so far amount to.
//!
//! Bytes from the transport are unescaped as they arrive. A trailer byte that
//! arrives outside an escape pair closes the frame that is being collected; a
//! trailer value that arrives as the second byte of a pair is data.

use crate::frame::{unmask_byte, MESSAGE_ESCAPE, MESSAGE_TRAILER};
use vstd::prelude::*;

verus! {

/// The read buffer holds at most this many unescaped bytes, frames that were
/// already taken out included, until it runs empty and starts over.
pub const READ_CAPACITY: usize = 1023;

/// The read side as a value.
pub struct Inbound {
    /// Complete frames that wait to be taken out, oldest first, unescaped.
    pub frames: Seq<Seq<u8>>,
    /// The unescaped bytes of the frame that is still arriving.
    pub partial: Seq<u8>,
    /// Whether the last byte taken in opened an escape pair.
    pub escaping: bool,
    /// How many positions of the read buffer are used up.
    pub used: nat,
}

impl Inbound {
    /// The read side of a fresh session.
    pub open spec fn empty() -> Inbound {
        Inbound { frames: Seq::empty(), partial: Seq::empty(), escaping: false, used: 0 }
    }

    /// Whether no further byte is taken in.
    pub open spec fn full(self) -> bool {
        self.used >= READ_CAPACITY
    }

    /// The read side after the data byte `b` was stored.
    pub open spec fn store(self, b: u8) -> Inbound {
        Inbound {
            frames: self.frames,
            partial: self.partial.push(b),
            escaping: false,
            used: self.used + 1,
        }
    }

    /// The read side after a trailer closed the frame that was arriving.
    pub open spec fn close(self) -> Inbound {
        Inbound {
            frames: self.frames.push(self.partial.push(MESSAGE_TRAILER)),
            partial: Seq::empty(),
            escaping: false,
            used: self.used + 1,
        }
    }

    /// The read side after one more byte of the stream.
    pub open spec fn step(self, b: u8) -> Inbound {
        if self.escaping {
            self.store(unmask_byte(b))
        } else if b == MESSAGE_ESCAPE {
            Inbound { escaping: true, ..self }
        } else if b == MESSAGE_TRAILER {
            self.close()
        } else {
            self.store(b)
        }
    }

    /// The read side after `bytes` were offered: they are taken in one by one
    /// until they run out or the buffer is full.
    pub open spec fn ingest(self, bytes: Seq<u8>) -> Inbound
        decreases bytes.len(),
    {
        if bytes.len() == 0 || self.full() {
            self
        } else {
            self.step(bytes[0]).ingest(bytes.skip(1))
        }
    }

    /// How many of `bytes` are taken in.
    pub open spec fn consumed(self, bytes: Seq<u8>) -> nat
        decreases bytes.len(),
    {
        if bytes.len() == 0 || self.full() {
            0
        } else {
            1 + self.step(bytes[0]).consumed(bytes.skip(1))
        }
    }

    /// The read side after its oldest frame was taken out. A buffer that runs
    /// empty starts over.
    pub open spec fn pop(self) -> Inbound {
        let frames = self.frames.skip(1);
        Inbound {
            frames,
            partial: self.partial,
            escaping: self.escaping,
            used: if frames.len() == 0 && self.partial.len() == 0 {
                0
            } else {
                self.used
            },
        }
    }
}

/// Offering a stream in two pieces leaves the read side where offering it in
/// one piece does, wherever the cut falls, and takes in as many bytes.
pub proof fn lemma_ingest_split(v: Inbound, a: Seq<u8>, b: Seq<u8>)
    ensures
        v.ingest(a + b) == v.ingest(a).ingest(b),
        v.consumed(a + b) == v.consumed(a) + v.ingest(a).consumed(b),
    decreases a.len(),
{
    if a.len() == 0 {
        assert(a + b =~= b);
    } else if v.full() {
        lemma_full_takes_nothing(v, b);
    } else {
        assert((a + b).skip(1) =~= a.skip(1) + b);
        lemma_ingest_split(v.step(a[0]), a.skip(1), b);
    }
}

/// A full read side takes nothing in.
pub proof fn lemma_full_takes_nothing(v: Inbound, bytes: Seq<u8>)
    requires
        v.full(),
    ensures
        v.ingest(bytes) == v,
        v.consumed(bytes) == 0,
{
}

/// Taking bytes in neither drops nor alters a frame that already waits, and
/// never takes in more than was offered.
pub proof fn lemma_ingest_keeps_frames(v: Inbound, bytes: Seq<u8>)
    ensures
        v.ingest(bytes).frames.len() >= v.frames.len(),
        v.ingest(bytes).frames.take(v.frames.len() as int) == v.frames,
        v.consumed(bytes) <= bytes.len(),
        v.ingest(bytes).used >= v.used,
        v.used <= READ_CAPACITY ==> v.ingest(bytes).used <= READ_CAPACITY,
    decreases bytes.len(),
{
    if bytes.len() == 0 || v.full() {
        assert(v.frames.take(v.frames.len() as int) =~= v.frames);
    } else {
        let w = v.step(bytes[0]);
        lemma_ingest_keeps_frames(w, bytes.skip(1));
        let z = w.ingest(bytes.skip(1));
        assert(w.frames.take(v.frames.len() as int) =~= v.frames);
        assert(z.frames.take(v.frames.len() as int) =~= z.frames.take(
            w.frames.len() as int,
        ).take(v.frames.len() as int));
    }
}

} // verus!
