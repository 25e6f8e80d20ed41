//! What every payload can do: write its wire bytes into a caller's buffer.

use crate::error::Error;
use vstd::prelude::*;

verus! {

/// The outcome of writing an encoding at the front of a buffer.
///
/// Where the value has no encoding the error is handed on and the buffer is
/// untouched. Where the buffer is shorter than the encoding, the outcome is
/// `MissingBytes` and the buffer is untouched. Otherwise the encoding replaces
/// the front of the buffer and the result is its length.
pub open spec fn written(
    encoding: Result<Seq<u8>, Error>,
    before: Seq<u8>,
    after: Seq<u8>,
    result: Result<u32, Error>,
) -> bool {
    match encoding {
        Err(e) => result == Err::<u32, Error>(e) && after == before,
        Ok(bytes) => if bytes.len() <= before.len() {
            result == Ok::<u32, Error>(bytes.len() as u32) && after == bytes + before.skip(
                bytes.len() as int,
            )
        } else {
            result == Err::<u32, Error>(Error::MissingBytes) && after == before
        },
    }
}

/// A value with a wire encoding.
pub trait Payload {
    /// The bytes that stand for the value, or why it has none.
    spec fn encoding(&self) -> Result<Seq<u8>, Error>;

    /// The encoding is short enough for its length to be reported.
    proof fn encoding_is_short(&self)
        ensures
            self.encoding() matches Ok(bytes) ==> bytes.len() <= u32::MAX,
    ;

    /// Writes the encoding at the front of `buf` and returns its length.
    fn write_into(&self, buf: &mut [u8]) -> (r: Result<u32, Error>)
        ensures
            written(self.encoding(), old(buf)@, final(buf)@, r),
    ;
}

/// Copies `bytes` to the front of `buf`, or leaves `buf` alone where it is too
/// short.
pub fn put(buf: &mut [u8], bytes: &Vec<u8>) -> (r: Result<u32, Error>)
    requires
        bytes@.len() <= u32::MAX,
    ensures
        written(Ok(bytes@), old(buf)@, final(buf)@, r),
{
    if bytes.len() > buf.len() {
        return Err(Error::MissingBytes);
    }
    let mut i: usize = 0;
    while i < bytes.len()
        invariant
            i <= bytes@.len() <= buf@.len(),
            buf@.len() == old(buf)@.len(),
            buf@ == bytes@.take(i as int) + old(buf)@.skip(i as int),
        decreases bytes@.len() - i,
    {
        buf[i] = bytes[i];
        i += 1;
    }
    assert(bytes@.take(i as int) =~= bytes@);
    Ok(i as u32)
}

/// The byte that stands for a flag.
pub open spec fn flag_byte(b: bool) -> u8 {
    if b {
        1
    } else {
        0
    }
}

impl Payload for () {
    open spec fn encoding(&self) -> Result<Seq<u8>, Error> {
        Ok(Seq::empty())
    }

    proof fn encoding_is_short(&self) {
    }

    fn write_into(&self, buf: &mut [u8]) -> (r: Result<u32, Error>) {
        assert(buf@ =~= Seq::<u8>::empty() + buf@.skip(0));
        Ok(0)
    }
}

} // verus!
