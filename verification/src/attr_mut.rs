//! Mutating attribute views and iterators. A mutating view owns an
//! exclusive window into the parent buffer; the iterator yields disjoint
//! windows by splitting off each attribute's consumed prefix, so several
//! yielded attributes may be held and written at the same time.
use vstd::prelude::*;
use crate::carve::{carve_mut, ceil4_usize, read_be16, splice_mut};
use crate::wire::{attr_size, attr_sizes, attr_val_seq, lemma_attr_count_le_len,
    lemma_attr_size_bounds, lemma_ceil4_bounds};

verus! {

/// A mutating view of one attribute over an exclusive byte window.
pub struct ByteAttrMut<'a> {
    buf: &'a mut [u8],
}

impl<'a> View for ByteAttrMut<'a> {
    type V = Seq<u8>;

    closed spec fn view(&self) -> Seq<u8> {
        self.buf@
    }
}

impl<'a> ByteAttrMut<'a> {
    pub fn new(buf: &'a mut [u8]) -> (r: Self)
        ensures
            r@ == old(buf)@,
    {
        ByteAttrMut { buf }
    }

    /// The 2-byte attribute type field, as an exclusive window.
    pub fn typ(&mut self) -> (r: Option<&mut [u8]>)
        ensures
            (r is Some) <==> old(self)@.len() >= 2,
            (r matches Some(w) ==> {
                &&& w@ == old(self)@.subrange(0, 2)
                &&& final(self)@ == final(w)@ + old(self)@.subrange(2, old(self)@.len() as int)
            }),
            (r is None ==> final(self)@ == old(self)@),
    {
        let r = carve_mut(self.buf, 0, 2);
        proof {
            if r is Some {
                assert(old(self)@.subrange(0, 0).len() == 0);
            }
        }
        r
    }

    /// The raw 2-byte value-length field, as an exclusive window.
    pub fn len(&mut self) -> (r: Option<&mut [u8]>)
        ensures
            (r is Some) <==> old(self)@.len() >= 4,
            (r matches Some(w) ==> {
                &&& w@ == old(self)@.subrange(2, 4)
                &&& final(self)@ == old(self)@.subrange(0, 2) + final(w)@ + old(self)@.subrange(
                    4,
                    old(self)@.len() as int,
                )
            }),
            (r is None ==> final(self)@ == old(self)@),
    {
        carve_mut(self.buf, 2, 2)
    }

    /// The value region as an exclusive window, with the same
    /// truncation-tolerant extent as the read-only view.
    pub fn val(&mut self) -> (r: Option<&mut [u8]>)
        ensures
            (r is Some) <==> old(self)@.len() >= 4,
            (r matches Some(w) ==> {
                &&& w@ == attr_val_seq(old(self)@)
                &&& final(self)@ == old(self)@.subrange(0, 4) + final(w)@ + old(self)@.subrange(
                    4 + attr_val_seq(old(self)@).len() as int,
                    old(self)@.len() as int,
                )
            }),
            (r is None ==> final(self)@ == old(self)@),
    {
        let n = self.buf.len();
        if n < 4 {
            return None;
        }
        let v = read_be16(self.buf, 2);
        let p = ceil4_usize(v as usize);
        proof {
            lemma_ceil4_bounds(v as int);
        }
        let take: usize = if 4 + p <= n {
            p
        } else {
            n - 4
        };
        carve_mut(self.buf, 4, take)
    }
}

/// A lazy, finite, forward iterator that yields exclusive, pairwise disjoint
/// attribute windows out of one parent region.
pub struct ByteAttrIterMut<'a> {
    buf: &'a mut [u8],
}

impl<'a> View for ByteAttrIterMut<'a> {
    type V = Seq<u8>;

    closed spec fn view(&self) -> Seq<u8> {
        self.buf@
    }
}

impl<'a> ByteAttrIterMut<'a> {
    pub fn new(buf: &'a mut [u8]) -> (r: Self)
        ensures
            r@ == old(buf)@,
    {
        ByteAttrIterMut { buf }
    }

    /// Splits the attribute at the head of the remaining region off as an
    /// exclusive window and keeps the tail, so that successively yielded
    /// attributes never overlap.
    pub fn next(&mut self) -> (r: Option<ByteAttrMut<'a>>)
        ensures
            (r is None) <==> old(self)@.len() == 0,
            (r is None ==> final(self)@ == old(self)@),
            (r matches Some(a) ==> {
                &&& a@ == old(self)@.subrange(0, attr_size(old(self)@))
                &&& final(self)@ == old(self)@.skip(attr_size(old(self)@))
            }),
    {
        let n = self.buf.len();
        if n == 0 {
            return None;
        }
        let consumed: usize = if n < 4 {
            n
        } else {
            let v = read_be16(self.buf, 2);
            let p = ceil4_usize(v as usize);
            proof {
                lemma_ceil4_bounds(v as int);
            }
            if 4 + p <= n {
                4 + p
            } else {
                n
            }
        };
        proof {
            lemma_attr_size_bounds(self.buf@);
            assert(consumed == attr_size(self.buf@));
        }
        let mut region: &mut [u8] = &mut [];
        core::mem::swap(&mut region, &mut self.buf);
        let (head, tail) = splice_mut(region, consumed).unwrap();
        self.buf = tail;
        proof {
            assert(self.buf@ =~= old(self)@.skip(consumed as int));
        }
        Some(ByteAttrMut::new(head))
    }

    /// The number of attributes from here to the end of the region.
    pub fn count(self) -> (r: usize)
        ensures
            r == attr_sizes(self@).len(),
    {
        let mut it = self;
        let mut n: usize = 0;
        let whole = it.buf.len();
        proof {
            lemma_attr_count_le_len(it@);
            assert(attr_sizes(it@).len() <= whole);
        }
        loop
            invariant
                n + attr_sizes(it@).len() == attr_sizes(self@).len(),
                attr_sizes(self@).len() <= usize::MAX,
            decreases it@.len(),
        {
            proof {
                if it@.len() > 0 {
                    lemma_attr_size_bounds(it@);
                    assert(attr_sizes(it@) == seq![attr_size(it@)]
                        + attr_sizes(it@.skip(attr_size(it@))));
                }
            }
            match it.next() {
                Some(_a) => {
                    n = n + 1;
                },
                None => {
                    return n;
                },
            }
        }
    }
}

} // verus!
