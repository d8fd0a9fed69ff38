//! Byte-carving primitives: bounds-checked extraction of fixed-size
//! sub-slices, shared and exclusive, plus the big-endian 16-bit scalar
//! helpers. These are the sole bounds-checking chokepoint of the crate;
//! out-of-range never panics, it yields absence.
use vstd::prelude::*;
use vstd::slice::slice_subrange;
use crate::wire::{be16, be16_bytes, ceil4, splice_seq};

verus! {

/// A shared sub-slice of `n` bytes starting at `off`, or absent when
/// `off + n` overruns `s`.
pub fn carve<'a>(s: &'a [u8], off: usize, n: usize) -> (r: Option<&'a [u8]>)
    ensures
        (r is Some) <==> off + n <= s@.len(),
        (r matches Some(w) ==> w@ == s@.subrange(off as int, off + n)),
{
    if n <= s.len() && off <= s.len() - n {
        Some(slice_subrange(s, off, off + n))
    } else {
        None
    }
}

/// An exclusive sub-slice of `n` bytes starting at `off`, or absent when
/// `off + n` overruns `s`. On success the parent finally holds whatever the
/// window finally holds, framed by its untouched outer parts.
pub fn carve_mut<'a>(s: &'a mut [u8], off: usize, n: usize) -> (r: Option<&'a mut [u8]>)
    ensures
        (r is Some) <==> off + n <= old(s)@.len(),
        (r matches Some(w) ==> {
            &&& w@ == old(s)@.subrange(off as int, off + n)
            &&& final(s)@ == old(s)@.subrange(0, off as int) + final(w)@ + old(s)@.subrange(
                off + n,
                old(s)@.len() as int,
            )
        }),
        (r is None ==> final(s)@ == old(s)@),
{
    if n <= s.len() && off <= s.len() - n {
        let (_head, rest) = s.split_at_mut(off);
        let (mid, _tail) = rest.split_at_mut(n);
        Some(mid)
    } else {
        None
    }
}

/// Divides the head of a slice into an exclusive `n`-byte prefix and the
/// exclusive remainder, or absent when the slice is shorter than `n`. The
/// two windows never alias; the parent finally holds their concatenation.
pub fn splice_mut<'a>(s: &'a mut [u8], n: usize) -> (r: Option<(&'a mut [u8], &'a mut [u8])>)
    ensures
        (r is Some) <==> n <= old(s)@.len(),
        (r matches Some((head, tail)) ==> {
            &&& head@ == old(s)@.subrange(0, n as int)
            &&& tail@ == old(s)@.subrange(n as int, old(s)@.len() as int)
            &&& final(s)@ == final(head)@ + final(tail)@
        }),
        (r is None ==> final(s)@ == old(s)@),
{
    if n <= s.len() {
        let (head, tail) = s.split_at_mut(n);
        Some((head, tail))
    } else {
        None
    }
}

/// Reads the big-endian unsigned 16-bit value of `s[off]`, `s[off + 1]`.
pub fn read_be16(s: &[u8], off: usize) -> (r: u16)
    requires
        off + 2 <= s@.len(),
    ensures
        r == be16(s@[off as int], s@[off + 1]),
{
    let hi = s[off];
    let lo = s[off + 1];
    (hi as u16) * 256 + (lo as u16)
}

/// Stores `v` big-endian into `s[off]`, `s[off + 1]`.
pub fn write_be16(s: &mut [u8], off: usize, v: u16)
    requires
        off + 2 <= old(s)@.len(),
    ensures
        final(s)@ == splice_seq(old(s)@, off as int, be16_bytes(v as int)),
{
    let slen = s.len();
    assert(off + 2 <= slen);
    s[off] = (v / 256) as u8;
    s[off + 1] = (v % 256) as u8;
    proof {
        assert(final(s)@ =~= splice_seq(old(s)@, off as int, be16_bytes(v as int)));
    }
}

/// Copies `src` into `s` starting at `off`; everything outside the window
/// keeps its bytes.
pub fn write_bytes(s: &mut [u8], off: usize, src: &[u8])
    requires
        off + src@.len() <= old(s)@.len(),
    ensures
        final(s)@ == splice_seq(old(s)@, off as int, src@),
{
    let n = src.len();
    let slen = s.len();
    let mut i: usize = 0;
    while i < n
        invariant
            i <= n,
            n == src@.len(),
            off + n <= slen,
            slen == s@.len(),
            slen == old(s)@.len(),
            s@ == old(s)@.subrange(0, off as int) + src@.subrange(0, i as int) + old(s)@.subrange(
                off + i,
                old(s)@.len() as int,
            ),
        decreases n - i,
    {
        s[off + i] = src[i];
        proof {
            assert(s@ =~= old(s)@.subrange(0, off as int) + src@.subrange(0, i + 1)
                + old(s)@.subrange(off + i + 1, old(s)@.len() as int));
        }
        i = i + 1;
    }
    proof {
        assert(s@ =~= splice_seq(old(s)@, off as int, src@));
    }
}

/// The smallest multiple of 4 that is at least `n`.
pub fn ceil4_usize(n: usize) -> (r: usize)
    requires
        n + 3 <= usize::MAX,
    ensures
        r == ceil4(n as int),
{
    ((n + 3) / 4) * 4
}

} // verus!
