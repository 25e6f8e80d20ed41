//! What holds of the codec and of the session, whatever the input.

use crate::device::{ack_seqnum, ack_wire, DeviceView, SendingView, StateView};
use crate::device_session::{collect, first_frame};
use crate::error::{Error, TryFromPacketError};
use crate::frame::{
    checksum, escape, escape_byte, is_sentinel, lemma_escape_concat,
    lemma_escape_has_no_bare_sentinel, lemma_escape_single, lemma_unescape_escape, lemma_unmask_mask, mask_byte,
    unescape, unmask_byte, MESSAGE_ESCAPE, MESSAGE_HEADER, MESSAGE_TRAILER,
};
use crate::intake::{lemma_ingest_split, Inbound, READ_CAPACITY};
use crate::v1::battery::{BatteryState, BatteryType};
use crate::v1::catalogue::{
    lemma_body_starts_with_code, lemma_payload_round_trip, parse_payload, PayloadCommand1,
};
use crate::v1::packet::{
    be32, covered, frame, inner, lemma_be32_round_trip, parse_frame, wire, Packet,
    PacketContent, BODY_OFFSET, KIND_ACK, KIND_COMMAND1,
};
use vstd::prelude::*;

verus! {

/// Where the fields of a frame lie: the header, the kind byte, the sequence
/// number, the length of the body in four bytes, the body, the checksum of
/// everything between header and checksum, and the trailer.
pub proof fn lemma_frame_layout(kind: u8, seqnum: u8, body: Seq<u8>)
    requires
        body.len() <= u32::MAX,
    ensures
        ({
            let f = frame(kind, seqnum, body);
            &&& f.len() == body.len() + 9
            &&& f[0] == MESSAGE_HEADER
            &&& f[1] == kind
            &&& f[2] == seqnum
            &&& f.subrange(3, 7) == be32(body.len() as u32)
            &&& f.subrange(BODY_OFFSET as int, BODY_OFFSET + body.len()) == body
            &&& f[BODY_OFFSET + body.len()] == checksum(f.subrange(1, BODY_OFFSET + body.len()))
            &&& f[f.len() - 1] == MESSAGE_TRAILER
        }),
{
    let f = frame(kind, seqnum, body);
    let c = covered(kind, seqnum, body);
    assert(f.subrange(3, 7) =~= be32(body.len() as u32));
    assert(f.subrange(BODY_OFFSET as int, BODY_OFFSET + body.len()) =~= body);
    assert(f.subrange(1, BODY_OFFSET + body.len()) =~= c);
}

/// Reading a frame of the primary command family comes down to reading its
/// body: the packet carries what the body holds, and a failure of the body
/// carries the frame's sequence number.
pub proof fn lemma_parse_command_frame(seqnum: u8, body: Seq<u8>)
    requires
        body.len() <= u32::MAX,
    ensures
        parse_frame(frame(KIND_COMMAND1, seqnum, body)) == match parse_payload(body) {
            Ok(c) => Ok::<Packet, TryFromPacketError>(
                Packet { seqnum, content: PacketContent::Command1(c) },
            ),
            Err(error) => Err::<Packet, TryFromPacketError>(
                TryFromPacketError::SequencedError { seqnum, error },
            ),
        },
{
    lemma_frame_layout(KIND_COMMAND1, seqnum, body);
    lemma_be32_round_trip(body.len() as u32);
    let f = frame(KIND_COMMAND1, seqnum, body);
    assert(f.subrange(3, 7)[0] == f[3]);
    assert(f.subrange(3, 7)[1] == f[4]);
    assert(f.subrange(3, 7)[2] == f[5]);
    assert(f.subrange(3, 7)[3] == f[6]);
    let size = crate::v1::packet::from_be32(f[3], f[4], f[5], f[6]);
    assert(size == body.len());
    assert(f.subrange(BODY_OFFSET as int, BODY_OFFSET + size) == body);
}

/// Reading the frame of a packet gives the packet back, for every packet
/// whose content survives the round trip.
pub proof fn lemma_frame_round_trip(p: Packet)
    requires
        p.content.survives_round_trip(),
    ensures
        p.frame() is Ok,
        parse_frame(p.frame().unwrap()) == Ok::<Packet, TryFromPacketError>(p),
{
    match p.content {
        PacketContent::Ack => {
            lemma_frame_layout(KIND_ACK, p.seqnum, Seq::empty());
        },
        PacketContent::Command1(c) => {
            lemma_command_frame_round_trip(p.seqnum, c);
        },
        PacketContent::Command2 => {},
    }
}

/// Reading the frame of a command gives the command back, where its body
/// survives the round trip.
pub proof fn lemma_command_frame_round_trip(seqnum: u8, c: PayloadCommand1)
    requires
        c.survives_round_trip(),
    ensures
        c.bytes() is Ok,
        parse_frame(frame(KIND_COMMAND1, seqnum, c.bytes().unwrap())) == Ok::<
            Packet,
            TryFromPacketError,
        >(Packet { seqnum, content: PacketContent::Command1(c) }),
{
    lemma_payload_round_trip(c);
    lemma_body_starts_with_code(c);
    lemma_parse_command_frame(seqnum, c.bytes().unwrap());
}

/// A frame shows its sequence number to the reader whether or not its body
/// can be read: what comes back is a packet with that number and the frame's
/// kind, or a failure with that number.
pub proof fn lemma_frame_shows_seqnum(kind: u8, seqnum: u8, body: Seq<u8>)
    requires
        body.len() <= u32::MAX,
    ensures
        match parse_frame(frame(kind, seqnum, body)) {
            Ok(q) => q.seqnum == seqnum && q.content.spec_kind() == kind,
            Err(e) => e.spec_seqnum() == Some(seqnum),
        },
{
    lemma_frame_layout(kind, seqnum, body);
}

/// The frame of a packet as it travels starts with the header and ends with
/// the trailer. Unescaping what lies between them gives kind, sequence
/// number, length and body, followed by their checksum. Between header and
/// trailer neither of the two occurs, and an escape byte occurs only in
/// front of the masked form of a sentinel.
pub proof fn lemma_wire_is_framed(p: Packet)
    requires
        p.wire() is Ok,
    ensures
        ({
            let w = p.wire().unwrap();
            let body = p.content.body().unwrap();
            let c = covered(p.content.spec_kind(), p.seqnum, body);
            &&& w.len() >= 2
            &&& w[0] == MESSAGE_HEADER
            &&& w[w.len() - 1] == MESSAGE_TRAILER
            &&& unescape(w.subrange(1, w.len() - 1)) == c + seq![checksum(c)]
            &&& seq![MESSAGE_HEADER] + unescape(w.subrange(1, w.len() - 1)) + seq![
                MESSAGE_TRAILER,
            ] == p.frame().unwrap()
            &&& forall|i: int|
                1 <= i < w.len() - 1 ==> #[trigger] w[i] != MESSAGE_HEADER && w[i]
                    != MESSAGE_TRAILER
            &&& forall|i: int|
                1 <= i < w.len() - 1 && #[trigger] w[i] == MESSAGE_ESCAPE ==> i + 1 < w.len() - 1
                    && is_sentinel(unmask_byte(w[i + 1])) && !is_sentinel(w[i + 1])
        }),
{
    let w = p.wire().unwrap();
    let body = p.content.body().unwrap();
    let m = inner(p.content.spec_kind(), p.seqnum, body);
    let e = escape(m);
    assert(w.subrange(1, w.len() - 1) =~= e);
    lemma_unescape_escape(m);
    lemma_escape_has_no_bare_sentinel(m);
    assert forall|i: int| 1 <= i < w.len() - 1 implies #[trigger] w[i] != MESSAGE_HEADER && w[i]
        != MESSAGE_TRAILER by {
        assert(w[i] == e[i - 1]);
    }
    assert forall|i: int| 1 <= i < w.len() - 1 && #[trigger] w[i] == MESSAGE_ESCAPE implies i + 1
        < w.len() - 1 && is_sentinel(unmask_byte(w[i + 1])) && !is_sentinel(w[i + 1]) by {
        assert(w[i] == e[i - 1]);
        assert(w[i + 1] == e[i]);
    }
}

/// An escape byte at the end of one intake and its partner at the start of
/// the next amount to the byte that the pair stands for.
pub proof fn lemma_split_escape_pair(v: Inbound, second: u8)
    requires
        !v.escaping,
        !v.full(),
    ensures
        v.ingest(seq![MESSAGE_ESCAPE]).ingest(seq![second]) == v.store(unmask_byte(second)),
        v.ingest(seq![MESSAGE_ESCAPE]).ingest(seq![second]) == v.ingest(
            seq![MESSAGE_ESCAPE, second],
        ),
{
    let first = seq![MESSAGE_ESCAPE];
    let rest = seq![second];
    let opened = v.step(MESSAGE_ESCAPE);
    assert(first.skip(1) =~= Seq::<u8>::empty());
    assert(rest.skip(1) =~= Seq::<u8>::empty());
    assert(v.ingest(first) == opened.ingest(first.skip(1)));
    assert(opened.ingest(rest) == opened.step(second).ingest(rest.skip(1)));
    assert(first + rest =~= seq![MESSAGE_ESCAPE, second]);
    lemma_ingest_split(v, first, rest);
}

/// Taking in the escaped image of `s` adds `s` itself to the frame that is
/// arriving, and closes no frame, whatever bytes `s` holds.
pub proof fn lemma_ingest_escaped(v: Inbound, s: Seq<u8>)
    requires
        !v.escaping,
        v.used + s.len() <= READ_CAPACITY,
    ensures
        v.ingest(escape(s)) == (Inbound {
            frames: v.frames,
            partial: v.partial + s,
            escaping: false,
            used: v.used + s.len(),
        }),
        v.consumed(escape(s)) == escape(s).len(),
    decreases s.len(),
{
    if s.len() == 0 {
        assert(v.partial + s =~= v.partial);
    } else {
        let b = s[0];
        let tail = s.skip(1);
        assert(seq![b] + tail =~= s);
        lemma_escape_single(b);
        lemma_escape_concat(seq![b], tail);
        let head = escape_byte(b);
        let w = v.store(b);
        assert(v.ingest(head) == w && v.consumed(head) == head.len()) by {
            if is_sentinel(b) {
                lemma_unmask_mask(b);
                let opened = v.step(MESSAGE_ESCAPE);
                assert(head.skip(1) =~= seq![mask_byte(b)]);
                assert(head.skip(1).skip(1) =~= Seq::<u8>::empty());
                assert(v.ingest(head) == opened.ingest(head.skip(1)));
                assert(opened.ingest(head.skip(1)) == opened.step(mask_byte(b)).ingest(
                    head.skip(1).skip(1),
                ));
                assert(v.consumed(head) == 1 + opened.consumed(head.skip(1)));
                assert(opened.consumed(head.skip(1)) == 1 + opened.step(mask_byte(b)).consumed(
                    head.skip(1).skip(1),
                ));
            } else {
                assert(head.skip(1) =~= Seq::<u8>::empty());
                assert(v.ingest(head) == v.step(b).ingest(head.skip(1)));
                assert(v.consumed(head) == 1 + v.step(b).consumed(head.skip(1)));
            }
        }
        lemma_ingest_split(v, head, escape(tail));
        lemma_ingest_escaped(w, tail);
        assert(w.partial + tail =~= v.partial + s);
    }
}

/// Taking in a frame as it travels puts exactly that frame, unescaped, at the
/// end of the queue of complete frames: no byte inside it ends it early.
pub proof fn lemma_ingest_wire(v: Inbound, kind: u8, seqnum: u8, body: Seq<u8>)
    requires
        !v.escaping,
        v.partial.len() == 0,
        v.used + frame(kind, seqnum, body).len() <= READ_CAPACITY,
    ensures
        v.ingest(wire(kind, seqnum, body)) == (Inbound {
            frames: v.frames.push(frame(kind, seqnum, body)),
            partial: Seq::empty(),
            escaping: false,
            used: v.used + frame(kind, seqnum, body).len(),
        }),
        v.consumed(wire(kind, seqnum, body)) == wire(kind, seqnum, body).len(),
{
    let m = inner(kind, seqnum, body);
    let head = seq![MESSAGE_HEADER];
    let tail = seq![MESSAGE_TRAILER];
    let w = wire(kind, seqnum, body);
    assert(w =~= head + (escape(m) + tail));
    let a = v.store(MESSAGE_HEADER);
    assert(head.skip(1) =~= Seq::<u8>::empty());
    assert(v.ingest(head) == v.step(MESSAGE_HEADER).ingest(head.skip(1)));
    assert(v.consumed(head) == 1 + v.step(MESSAGE_HEADER).consumed(head.skip(1)));
    lemma_ingest_split(v, head, escape(m) + tail);
    lemma_ingest_escaped(a, m);
    let b = a.ingest(escape(m));
    lemma_ingest_split(a, escape(m), tail);
    assert(tail.skip(1) =~= Seq::<u8>::empty());
    assert(b.ingest(tail) == b.step(MESSAGE_TRAILER).ingest(tail.skip(1)));
    assert(b.consumed(tail) == 1 + b.step(MESSAGE_TRAILER).consumed(tail.skip(1)));
    assert(v.partial =~= Seq::<u8>::empty());
    assert((a.partial + m).push(MESSAGE_TRAILER) =~= frame(kind, seqnum, body));
}

/// Whether a session has nothing in its read side and room for a frame of
/// the largest packet.
pub open spec fn idle_read_side(v: DeviceView) -> bool {
    &&& v.inbound.frames.len() == 0
    &&& v.inbound.partial.len() == 0
    &&& !v.inbound.escaping
    &&& v.inbound.used + 17 <= READ_CAPACITY
}

/// A packet that one side puts on the wire is the packet that the other side
/// delivers: the tick after the bytes arrive acknowledges it, and the tick
/// after that hands it over unchanged.
pub proof fn lemma_session_round_trip(v: DeviceView, p: Packet, now: u64, later: u64)
    requires
        v.pending_packet is None,
        idle_read_side(v),
        p.content.survives_round_trip(),
        !p.spec_is_ack(),
    ensures
        p.wire() is Ok,
        v.received(p.wire().unwrap()).polled(now).1 == Ok::<StateView, TryFromPacketError>(
            StateView::SendPacket(ack_wire(p.seqnum)),
        ),
        v.received(p.wire().unwrap()).polled(now).0.polled(later).1 == Ok::<
            StateView,
            TryFromPacketError,
        >(StateView::ReceivedPacket(p)),
{
    lemma_frame_round_trip(p);
    let body = p.content.body().unwrap();
    lemma_body_is_short(p.content);
    lemma_ingest_wire(v.inbound, p.content.spec_kind(), p.seqnum, body);
    let after = v.received(p.wire().unwrap());
    assert(after.inbound.frames[0] == p.frame().unwrap());
}

/// No body is longer than eight bytes.
pub proof fn lemma_body_is_short(content: PacketContent)
    requires
        content.body() is Ok,
    ensures
        content.body().unwrap().len() <= 8,
{
}

/// Every packet but an acknowledgement is acknowledged by the tick that
/// follows its arrival, with the complement of its sequence number, whether
/// or not its body can be read.
pub proof fn lemma_auto_ack(v: DeviceView, p: Packet, now: u64)
    requires
        v.pending_packet is None,
        idle_read_side(v),
        p.wire() is Ok,
        !p.spec_is_ack(),
    ensures
        v.received(p.wire().unwrap()).polled(now).1 == Ok::<StateView, TryFromPacketError>(
            StateView::SendPacket(ack_wire(p.seqnum)),
        ),
        ack_wire(p.seqnum) == (Packet {
            seqnum: ack_seqnum(p.seqnum),
            content: PacketContent::Ack,
        }).wire().unwrap(),
{
    let body = p.content.body().unwrap();
    lemma_body_is_short(p.content);
    lemma_ingest_wire(v.inbound, p.content.spec_kind(), p.seqnum, body);
    lemma_frame_shows_seqnum(p.content.spec_kind(), p.seqnum, body);
    let after = v.received(p.wire().unwrap());
    assert(after.inbound.frames[0] == p.frame().unwrap());
}

/// The tick on a frame that holds a packet other than an acknowledgement
/// answers with the acknowledgement of that packet and keeps the packet for
/// the next tick.
pub proof fn lemma_frame_is_acknowledged(v: DeviceView, now: u64)
    requires
        v.pending_packet is None,
        v.inbound.frames.len() > 0,
        parse_frame(v.inbound.frames[0]) matches Ok(p) && !p.spec_is_ack(),
    ensures
        ({
            let p = parse_frame(v.inbound.frames[0]).unwrap();
            &&& v.polled(now).1 == Ok::<StateView, TryFromPacketError>(
                StateView::SendPacket(ack_wire(p.seqnum)),
            )
            &&& v.polled(now).0.pending_packet == Some(p)
            &&& v.polled(now).0.sending == v.sending
            &&& v.polled(now).0.seqnum == v.seqnum
        }),
{
}

/// Once a submission has succeeded, the next one is refused as pending.
pub proof fn lemma_second_send_is_refused(v: DeviceView, first: PacketContent, second: PacketContent)
    requires
        v.sent(first).1 is Ok,
    ensures
        v.sent(first).0.sent(second).1 == Err::<(), Error>(Error::PacketPending),
        v.sent(first).0.sent(second).0 == v.sent(first).0,
{
}

/// A command stays outstanding through every intake and every tick but the
/// tick that takes an acknowledgement out of the read side.
pub proof fn lemma_outstanding_until_ack(v: DeviceView, bytes: Seq<u8>, now: u64)
    requires
        v.sending is Some,
    ensures
        v.received(bytes).sending == v.sending,
        v.received(bytes).sent(PacketContent::Ack).1 == Err::<(), Error>(Error::PacketPending),
        v.polled(now).0.sending is None ==> v.pending_packet is None && v.inbound.frames.len() > 0
            && (parse_frame(v.inbound.frames[0]) matches Ok(p) && p.spec_is_ack()),
        v.polled(now).0.sending matches Some(s) ==> s.bytes == v.sending.unwrap().bytes,
{
}

/// A tick later than the retry interval after the last transmission, with
/// nothing to deliver and no frame to read, hands out the bytes of the
/// outstanding command again and restarts the timer.
pub proof fn lemma_retransmission(v: DeviceView, now: u64)
    requires
        v.pending_packet is None,
        v.inbound.frames.len() == 0,
        v.sending matches Some(s) && (s.last_sent_at matches Some(t) && now > t
            + s.retry_interval),
    ensures
        v.polled(now).1 == Ok::<StateView, TryFromPacketError>(
            StateView::SendPacket(v.sending.unwrap().bytes),
        ),
        v.polled(now).0.sending == Some(
            SendingView { last_sent_at: Some(now), ..v.sending.unwrap() },
        ),
{
}

/// A tick within the retry interval waits until the interval ends.
pub proof fn lemma_waits_within_interval(v: DeviceView, now: u64)
    requires
        v.pending_packet is None,
        v.inbound.frames.len() == 0,
        v.sending matches Some(s) && (s.last_sent_at matches Some(t) && now <= t
            + s.retry_interval && t + s.retry_interval <= u64::MAX),
    ensures
        v.polled(now).0 == v,
        v.polled(now).1 matches Ok(StateView::WaitingPacket(Some(until))) && until
            == v.sending.unwrap().last_sent_at.unwrap() + v.sending.unwrap().retry_interval,
{
}

/// What is submitted goes out at the first tick that has nothing to deliver
/// and no frame to read: the frame of the packet with the session's sequence
/// number.
pub proof fn lemma_first_transmission(v: DeviceView, content: PacketContent, now: u64)
    requires
        v.pending_packet is None,
        v.inbound.frames.len() == 0,
        v.sent(content).1 is Ok,
    ensures
        v.sent(content).0.polled(now).1 == Ok::<StateView, TryFromPacketError>(
            StateView::SendPacket(
                (Packet { seqnum: v.outgoing_seqnum(content), content }).wire().unwrap(),
            ),
        ),
{
}

/// When an acknowledgement with sequence number `s` completes the
/// outstanding command, the next command carries `s`.
pub proof fn lemma_sequence_advance(v: DeviceView, content: PacketContent, now: u64)
    requires
        v.pending_packet is None,
        v.sending is Some,
        v.inbound.frames.len() > 0,
        parse_frame(v.inbound.frames[0]) matches Ok(ack) && ack.spec_is_ack(),
        content != PacketContent::Ack,
        content.body() is Ok,
    ensures
        ({
            let s = parse_frame(v.inbound.frames[0]).unwrap().seqnum;
            let acked = v.polled(now).0;
            &&& v.polled(now).1 == Ok::<StateView, TryFromPacketError>(
                StateView::ReceivedPacket(Packet { seqnum: s, content: PacketContent::Ack }),
            )
            &&& acked.seqnum == s
            &&& acked.sending is None
            &&& acked.sent(content).1 is Ok
            &&& acked.sent(content).0.sending.unwrap().bytes == (Packet {
                seqnum: s,
                content,
            }).wire().unwrap()
        }),
{
}

/// A battery reply for two batteries whose left level is zero reads as the
/// right battery alone.
pub proof fn lemma_reply_without_left_is_single_right(body: Seq<u8>)
    requires
        body.len() >= 6,
        body[0] == 0x11,
        body[1] == BatteryType::Dual.spec_code(),
        body[2] == 0,
    ensures
        parse_payload(body) == Ok::<PayloadCommand1, Error>(
            PayloadCommand1::BatteryLevelReply(
                BatteryState::Single { level: body[4], is_charging: body[5] == 1 },
            ),
        ),
{
    let report = body.skip(1);
    assert(report[0] == body[1] && report[1] == body[2] && report[3] == body[4] && report[4]
        == body[5]);
}

/// Looking for the first frame in a stream that is cut in two: where the
/// first piece closes no frame, the search goes on in the second piece.
pub proof fn lemma_collect_split(v: Inbound, a: Seq<u8>, b: Seq<u8>)
    requires
        collect(v, a).0.frames.len() == 0,
    ensures
        collect(v, a).1 == a.len(),
        collect(v, a + b).0 == collect(collect(v, a).0, b).0,
        collect(v, a + b).1 == a.len() + collect(collect(v, a).0, b).1,
    decreases a.len(),
{
    if a.len() == 0 {
        assert(a + b =~= b);
    } else {
        assert((a + b).skip(1) =~= a.skip(1) + b);
        lemma_collect_split(v.step(a[0]), a.skip(1), b);
    }
}

/// Looking for the first frame in the escaped image of `s` finds none: all
/// of `s` joins the frame that is arriving.
pub proof fn lemma_collect_escaped(v: Inbound, s: Seq<u8>)
    requires
        !v.escaping,
        v.frames.len() == 0,
    ensures
        collect(v, escape(s)).0 == (Inbound {
            frames: v.frames,
            partial: v.partial + s,
            escaping: false,
            used: v.used + s.len(),
        }),
        collect(v, escape(s)).1 == escape(s).len(),
    decreases s.len(),
{
    if s.len() == 0 {
        assert(v.partial + s =~= v.partial);
    } else {
        let b = s[0];
        let tail = s.skip(1);
        assert(seq![b] + tail =~= s);
        lemma_escape_single(b);
        lemma_escape_concat(seq![b], tail);
        let head = escape_byte(b);
        let w = v.store(b);
        assert(collect(v, head).0 == w && collect(v, head).1 == head.len()) by {
            if is_sentinel(b) {
                lemma_unmask_mask(b);
                let opened = v.step(MESSAGE_ESCAPE);
                assert(head.skip(1) =~= seq![mask_byte(b)]);
                assert(head.skip(1).skip(1) =~= Seq::<u8>::empty());
                assert(collect(v, head).0 == collect(opened, head.skip(1)).0);
                assert(collect(opened, head.skip(1)).0 == collect(
                    opened.step(mask_byte(b)),
                    head.skip(1).skip(1),
                ).0);
                assert(collect(v, head).1 == 1 + collect(opened, head.skip(1)).1);
                assert(collect(opened, head.skip(1)).1 == 1 + collect(
                    opened.step(mask_byte(b)),
                    head.skip(1).skip(1),
                ).1);
            } else {
                assert(head.skip(1) =~= Seq::<u8>::empty());
                assert(collect(v, head).0 == collect(v.step(b), head.skip(1)).0);
                assert(collect(v, head).1 == 1 + collect(v.step(b), head.skip(1)).1);
            }
        }
        lemma_collect_split(v, head, escape(tail));
        lemma_collect_escaped(w, tail);
        assert(w.partial + tail =~= v.partial + s);
    }
}

/// The first frame in a stream that starts with a frame as it travels is
/// that frame, unescaped, and it ends where its wire form ends, whatever
/// follows.
pub proof fn lemma_first_frame_of_wire(kind: u8, seqnum: u8, body: Seq<u8>, rest: Seq<u8>)
    ensures
        first_frame(wire(kind, seqnum, body) + rest) == Some(
            (frame(kind, seqnum, body), wire(kind, seqnum, body).len()),
        ),
{
    let m = inner(kind, seqnum, body);
    let head = seq![MESSAGE_HEADER];
    let tail = seq![MESSAGE_TRAILER];
    let v = Inbound::empty();
    let a = v.store(MESSAGE_HEADER);
    assert(wire(kind, seqnum, body) + rest =~= head + (escape(m) + (tail + rest)));
    assert(head.skip(1) =~= Seq::<u8>::empty());
    assert(collect(v, head).0 == collect(v.step(MESSAGE_HEADER), head.skip(1)).0);
    assert(collect(v, head).1 == 1 + collect(v.step(MESSAGE_HEADER), head.skip(1)).1);
    lemma_collect_split(v, head, escape(m) + (tail + rest));
    lemma_collect_escaped(a, m);
    lemma_collect_split(a, escape(m), tail + rest);
    let b = collect(a, escape(m)).0;
    let closed = b.step(MESSAGE_TRAILER);
    assert((tail + rest)[0] == MESSAGE_TRAILER);
    assert(collect(b, tail + rest).0 == collect(closed, (tail + rest).skip(1)).0);
    assert(collect(b, tail + rest).1 == 1 + collect(closed, (tail + rest).skip(1)).1);
    assert(collect(closed, (tail + rest).skip(1)).0 == closed);
    assert(collect(closed, (tail + rest).skip(1)).1 == 0);
    assert((a.partial + m).push(MESSAGE_TRAILER) =~= frame(kind, seqnum, body));
    assert(v.partial.push(MESSAGE_HEADER) =~= head);
}

/// What a session without buffers writes for a packet is what it reads back
/// as that packet, whatever bytes follow in the buffer.
pub proof fn lemma_buffered_round_trip(p: Packet, rest: Seq<u8>)
    requires
        p.content.survives_round_trip(),
    ensures
        p.wire() is Ok,
        first_frame(p.wire().unwrap() + rest) matches Some((f, taken)) && taken
            == p.wire().unwrap().len() && parse_frame(f) == Ok::<Packet, TryFromPacketError>(p),
{
    lemma_frame_round_trip(p);
    lemma_first_frame_of_wire(p.content.spec_kind(), p.seqnum, p.content.body().unwrap(), rest);
}

} // verus!
