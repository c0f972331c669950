//! Bounded copies into fixed-capacity byte buffers.
//!
//! Every write in this crate goes through [`write_bytes`]: a source that does not
//! fit is cut short, and nothing is ever written behind the destination's end.

use vstd::prelude::*;

verus! {

/// The number of bytes that a copy of `source_len` bytes places in a destination
/// of `capacity` bytes: the smaller of the two.
pub open spec fn copied_len(source_len: int, capacity: int) -> int {
    if source_len <= capacity {
        source_len
    } else {
        capacity
    }
}

/// What a destination holds after `source` was copied to its front: the bytes of
/// `source` that fit, followed by what the destination held behind them.
pub open spec fn overwrite_front(dest: Seq<u8>, source: Seq<u8>) -> Seq<u8> {
    let n = copied_len(source.len() as int, dest.len() as int);
    source.take(n) + dest.skip(n)
}

/// The part of a buffer that a declared length covers: nothing for a length of
/// zero or less, the whole buffer for a length beyond its end.
pub open spec fn span(data: Seq<u8>, len: int) -> Seq<u8> {
    if len <= 0 {
        Seq::empty()
    } else if len >= data.len() {
        data
    } else {
        data.take(len)
    }
}

/// `content` laid out in a fresh buffer of `capacity` zero bytes.
pub open spec fn zero_padded(content: Seq<u8>, capacity: nat) -> Seq<u8> {
    overwrite_front(Seq::new(capacity, |i: int| 0u8), content)
}

/// Copying `first` to the front of a buffer and then `second` behind the bytes
/// just written gives the same buffer as copying their concatenation at once.
pub proof fn lemma_overwrite_front_in_two_steps(dest: Seq<u8>, first: Seq<u8>, second: Seq<u8>)
    ensures
        ({
            let n = copied_len(first.len() as int, dest.len() as int);
            let after_first = overwrite_front(dest, first);
            after_first.take(n) + overwrite_front(after_first.skip(n), second)
        }) == overwrite_front(dest, first + second),
        copied_len(first.len() as int, dest.len() as int) + copied_len(
            second.len() as int,
            dest.len() - copied_len(first.len() as int, dest.len() as int),
        ) == copied_len((first + second).len() as int, dest.len() as int),
{
}

/// Copies as many bytes of `bytes` as fit to the front of `out` and returns how
/// many were copied. Bytes of `out` behind the copy keep their values; a source
/// longer than `out` is cut short.
pub fn write_bytes(out: &mut [u8], bytes: &[u8]) -> (written: usize)
    ensures
        written == copied_len(bytes@.len() as int, old(out)@.len() as int),
        final(out)@ == overwrite_front(old(out)@, bytes@),
{
    let mut i: usize = 0;
    while i < bytes.len() && i < out.len()
        invariant
            i <= bytes@.len(),
            i <= out@.len(),
            out@.len() == old(out)@.len(),
            out@ == bytes@.take(i as int) + old(out)@.skip(i as int),
        decreases bytes@.len() - i,
    {
        out[i] = bytes[i];
        i += 1;
    }
    i
}

/// Copies `bytes` into `out` behind its first `len` bytes, as far as they fit,
/// and returns the new fill length.
pub(crate) fn append_bytes(out: &mut [u8], len: usize, bytes: &[u8]) -> (filled: usize)
    requires
        len <= old(out)@.len(),
    ensures
        filled == len + copied_len(bytes@.len() as int, old(out)@.len() - len),
        final(out)@ == old(out)@.take(len as int) + overwrite_front(
            old(out)@.skip(len as int),
            bytes@,
        ),
{
    assert(out@.len() == out.len());
    let (_, tail) = out.split_at_mut(len);
    len + write_bytes(tail, bytes)
}

} // verus!
