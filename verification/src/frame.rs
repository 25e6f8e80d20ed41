//! The wire framing: sentinel bytes, escape coding and the checksum.
//!
//! A frame on the wire is the header byte, the escaped image of everything
//! from the kind byte to the checksum, and the trailer byte. Inside the escaped
//! image no sentinel value occurs except the escape byte that opens a pair.

use vstd::prelude::*;

verus! {

/// First byte of every frame.
pub const MESSAGE_HEADER: u8 = 0x3e;

/// Last byte of every frame.
pub const MESSAGE_TRAILER: u8 = 0x3c;

/// Opens a two-byte escape pair.
pub const MESSAGE_ESCAPE: u8 = 0x3d;

/// Clears bit 4 of a byte that follows the escape byte.
pub const MESSAGE_ESCAPE_MASK: u8 = 0b1110_1111;

/// Bit 4, which reading an escape pair sets again.
pub const MESSAGE_ESCAPE_BIT: u8 = 0b0001_0000;

/// Whether `b` is one of the three bytes that framing reserves.
pub open spec fn is_sentinel(b: u8) -> bool {
    b == MESSAGE_HEADER || b == MESSAGE_TRAILER || b == MESSAGE_ESCAPE
}

/// The second byte of the escape pair that stands for `b`.
pub open spec fn mask_byte(b: u8) -> u8 {
    b & MESSAGE_ESCAPE_MASK
}

/// The byte that the second byte `b` of an escape pair stands for.
pub open spec fn unmask_byte(b: u8) -> u8 {
    b | MESSAGE_ESCAPE_BIT
}

/// The wire image of one byte: itself, or an escape pair for a sentinel.
pub open spec fn escape_byte(b: u8) -> Seq<u8> {
    if is_sentinel(b) {
        seq![MESSAGE_ESCAPE, mask_byte(b)]
    } else {
        seq![b]
    }
}

/// The wire image of a run of bytes.
pub open spec fn escape(s: Seq<u8>) -> Seq<u8>
    decreases s.len(),
{
    if s.len() == 0 {
        Seq::empty()
    } else {
        escape(s.drop_last()) + escape_byte(s.last())
    }
}

/// The bytes that a wire image stands for. An escape byte at the very end has
/// no partner and stands for nothing.
pub open spec fn unescape(s: Seq<u8>) -> Seq<u8>
    decreases s.len(),
{
    if s.len() == 0 {
        Seq::empty()
    } else if s[0] != MESSAGE_ESCAPE {
        seq![s[0]] + unescape(s.skip(1))
    } else if s.len() == 1 {
        Seq::empty()
    } else {
        seq![unmask_byte(s[1])] + unescape(s.skip(2))
    }
}

/// The sum of the bytes of `s` modulo 256.
pub open spec fn checksum(s: Seq<u8>) -> u8
    decreases s.len(),
{
    if s.len() == 0 {
        0u8
    } else {
        ((checksum(s.drop_last()) + s.last()) % 256) as u8
    }
}

/// Whether `b` may stand in an escaped image without opening a pair.
pub open spec fn is_plain(b: u8) -> bool {
    !is_sentinel(b)
}

/// Reading back the second byte of a sentinel's escape pair restores it.
pub proof fn lemma_unmask_mask(b: u8)
    requires
        is_sentinel(b),
    ensures
        unmask_byte(mask_byte(b)) == b,
        !is_sentinel(mask_byte(b)),
{
    assert((0x3eu8 & 0b1110_1111u8) | 0b0001_0000u8 == 0x3eu8) by (bit_vector);
    assert((0x3cu8 & 0b1110_1111u8) | 0b0001_0000u8 == 0x3cu8) by (bit_vector);
    assert((0x3du8 & 0b1110_1111u8) | 0b0001_0000u8 == 0x3du8) by (bit_vector);
    assert(0x3eu8 & 0b1110_1111u8 == 0x2eu8) by (bit_vector);
    assert(0x3cu8 & 0b1110_1111u8 == 0x2cu8) by (bit_vector);
    assert(0x3du8 & 0b1110_1111u8 == 0x2du8) by (bit_vector);
}

/// The escaped image of a single byte is the wire image of that byte.
pub proof fn lemma_escape_single(b: u8)
    ensures
        escape(seq![b]) == escape_byte(b),
{
    reveal_with_fuel(escape, 2);
    assert(seq![b].drop_last() =~= Seq::<u8>::empty());
    assert(escape(seq![b]) =~= escape_byte(b));
}

/// The escaped image of a concatenation is the concatenation of the images.
pub proof fn lemma_escape_concat(a: Seq<u8>, b: Seq<u8>)
    ensures
        escape(a + b) == escape(a) + escape(b),
    decreases b.len(),
{
    if b.len() == 0 {
        assert(a + b =~= a);
        assert(escape(a) + escape(b) =~= escape(a));
    } else {
        assert((a + b).drop_last() =~= a + b.drop_last());
        assert((a + b).last() == b.last());
        lemma_escape_concat(a, b.drop_last());
        assert(escape(a + b) =~= escape(a) + escape(b));
    }
}

/// Unescaping an image that starts with the image of one byte yields that
/// byte and then what the rest stands for.
pub proof fn lemma_unescape_step(b: u8, rest: Seq<u8>)
    ensures
        unescape(escape_byte(b) + rest) == seq![b] + unescape(rest),
{
    let s = escape_byte(b) + rest;
    if is_sentinel(b) {
        lemma_unmask_mask(b);
        assert(s[0] == MESSAGE_ESCAPE);
        assert(s[1] == mask_byte(b));
        assert(s.skip(2) =~= rest);
    } else {
        assert(s[0] == b);
        assert(s.skip(1) =~= rest);
    }
}

/// Unescaping an escaped image gives the bytes back that it was made from.
pub proof fn lemma_unescape_escape(s: Seq<u8>)
    ensures
        unescape(escape(s)) == s,
    decreases s.len(),
{
    lemma_unescape_escape_then(s, Seq::empty());
    assert(escape(s) + Seq::<u8>::empty() =~= escape(s));
    assert(s + unescape(Seq::<u8>::empty()) =~= s);
}

/// Unescaping an escaped image followed by more wire bytes gives the bytes
/// that the image was made from and then what the rest stands for.
pub proof fn lemma_unescape_escape_then(s: Seq<u8>, rest: Seq<u8>)
    ensures
        unescape(escape(s) + rest) == s + unescape(rest),
    decreases s.len(),
{
    if s.len() == 0 {
        assert(escape(s) + rest =~= rest);
        assert(s + unescape(rest) =~= unescape(rest));
    } else {
        let init = s.drop_last();
        let b = s.last();
        assert(escape(s) + rest =~= escape(init) + (escape_byte(b) + rest));
        lemma_unescape_escape_then(init, escape_byte(b) + rest);
        lemma_unescape_step(b, rest);
        assert(init + (seq![b] + unescape(rest)) =~= s + unescape(rest));
    }
}

/// In an escaped image neither the header nor the trailer byte occurs, and
/// every escape byte is followed by the masked form of a sentinel.
pub proof fn lemma_escape_has_no_bare_sentinel(s: Seq<u8>)
    ensures
        forall|i: int|
            0 <= i < escape(s).len() ==> #[trigger] escape(s)[i] != MESSAGE_HEADER && escape(
                s,
            )[i] != MESSAGE_TRAILER,
        forall|i: int|
            0 <= i < escape(s).len() && #[trigger] escape(s)[i] == MESSAGE_ESCAPE ==> i + 1
                < escape(s).len() && is_sentinel(unmask_byte(escape(s)[i + 1])) && !is_sentinel(
                escape(s)[i + 1],
            ),
    decreases s.len(),
{
    if s.len() > 0 {
        let init = s.drop_last();
        let b = s.last();
        lemma_escape_has_no_bare_sentinel(init);
        if is_sentinel(b) {
            lemma_unmask_mask(b);
        }
        let e = escape(s);
        let ei = escape(init);
        assert forall|i: int| 0 <= i < e.len() implies #[trigger] e[i] != MESSAGE_HEADER && e[i]
            != MESSAGE_TRAILER by {
            if i < ei.len() {
                assert(e[i] == ei[i]);
            }
        }
        assert forall|i: int| 0 <= i < e.len() && #[trigger] e[i] == MESSAGE_ESCAPE implies i + 1
            < e.len() && is_sentinel(unmask_byte(e[i + 1])) && !is_sentinel(e[i + 1]) by {
            if i < ei.len() {
                assert(e[i] == ei[i]);
                assert(e[i + 1] == ei[i + 1]);
            }
        }
    }
}

/// Computes the checksum of `s`.
pub fn compute_checksum(s: &[u8]) -> (r: u8)
    ensures
        r == checksum(s@),
{
    let mut acc: u8 = 0;
    let mut i: usize = 0;
    while i < s.len()
        invariant
            i <= s@.len(),
            acc == checksum(s@.take(i as int)),
        decreases s@.len() - i,
    {
        assert(s@.take(i + 1).drop_last() =~= s@.take(i as int));
        let wide: u16 = acc as u16 + s[i] as u16;
        acc = (wide % 256) as u8;
        i += 1;
    }
    assert(s@.take(i as int) =~= s@);
    acc
}

/// Appends the wire image of `s` to `out`.
pub fn escape_onto(out: &mut Vec<u8>, s: &[u8])
    ensures
        final(out)@ == old(out)@ + escape(s@),
{
    let mut i: usize = 0;
    assert(escape(s@.take(0)) =~= Seq::<u8>::empty());
    assert(out@ =~= old(out)@ + escape(s@.take(0)));
    while i < s.len()
        invariant
            i <= s@.len(),
            out@ == old(out)@ + escape(s@.take(i as int)),
        decreases s@.len() - i,
    {
        let b = s[i];
        assert(s@.take(i + 1).drop_last() =~= s@.take(i as int));
        assert(s@.take(i + 1).last() == b);
        if b == MESSAGE_HEADER || b == MESSAGE_TRAILER || b == MESSAGE_ESCAPE {
            out.push(MESSAGE_ESCAPE);
            out.push(b & MESSAGE_ESCAPE_MASK);
        } else {
            out.push(b);
        }
        assert(out@ =~= old(out)@ + (escape(s@.take(i as int)) + escape_byte(b)));
        i += 1;
    }
    assert(s@.take(i as int) =~= s@);
}

/// Appends `bytes` to `out` as they are.
pub fn copy_onto(out: &mut Vec<u8>, bytes: &[u8])
    ensures
        final(out)@ == old(out)@ + bytes@,
{
    let mut i: usize = 0;
    assert(out@ =~= old(out)@ + bytes@.take(0));
    while i < bytes.len()
        invariant
            i <= bytes@.len(),
            out@ == old(out)@ + bytes@.take(i as int),
        decreases bytes@.len() - i,
    {
        out.push(bytes[i]);
        assert(bytes@.take(i + 1) =~= bytes@.take(i as int).push(bytes@[i as int]));
        assert(out@ =~= old(out)@ + bytes@.take(i + 1));
        i += 1;
    }
    assert(bytes@.take(i as int) =~= bytes@);
}

} // verus!
