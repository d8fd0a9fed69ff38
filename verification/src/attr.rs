//! Attribute views and iterators over the TLV attribute region: a 2-byte
//! type, a 2-byte big-endian value length V, V value bytes, and zero padding
//! up to a 4-byte boundary.
use vstd::prelude::*;
use vstd::slice::slice_subrange;
use crate::carve::{carve, ceil4_usize, read_be16};
use crate::wire::{attr_size, attr_sizes, attr_val_seq, lemma_attr_count_le_len,
    lemma_attr_size_bounds, lemma_ceil4_bounds};

verus! {

/// A read-only view of one attribute over a borrowed byte slice.
pub struct ByteAttr<'a> {
    buf: &'a [u8],
}

impl<'a> View for ByteAttr<'a> {
    type V = Seq<u8>;

    closed spec fn view(&self) -> Seq<u8> {
        self.buf@
    }
}

impl<'a> ByteAttr<'a> {
    pub fn new(buf: &'a [u8]) -> (r: Self)
        ensures
            r@ == buf@,
    {
        ByteAttr { buf }
    }

    /// The 2-byte attribute type field.
    pub fn typ(&self) -> (r: Option<&'a [u8]>)
        ensures
            (r is Some) <==> self@.len() >= 2,
            (r matches Some(w) ==> w@ == self@.subrange(0, 2)),
    {
        carve(self.buf, 0, 2)
    }

    /// The raw 2-byte value-length field.
    pub fn len(&self) -> (r: Option<&'a [u8]>)
        ensures
            (r is Some) <==> self@.len() >= 4,
            (r matches Some(w) ==> w@ == self@.subrange(2, 4)),
    {
        carve(self.buf, 2, 2)
    }

    /// The value region: the padded value (`ceil4(V)` bytes from offset 4)
    /// when the buffer holds that much, otherwise whatever remains past
    /// offset 4; absent when the buffer is shorter than the 4-byte header.
    pub fn val(&self) -> (r: Option<&'a [u8]>)
        ensures
            (r is Some) <==> self@.len() >= 4,
            (r matches Some(w) ==> w@ == attr_val_seq(self@)),
    {
        let n = self.buf.len();
        if n < 4 {
            return None;
        }
        let v = read_be16(self.buf, 2);
        let p = ceil4_usize(v as usize);
        proof {
            lemma_ceil4_bounds(v as int);
        }
        if 4 + p <= n {
            Some(slice_subrange(self.buf, 4, 4 + p))
        } else {
            Some(slice_subrange(self.buf, 4, n))
        }
    }
}

/// A lazy, finite, forward iterator over the attributes of a region. Each
/// yielded attribute views the whole remaining region; the iterator then
/// drops the attribute's consumed size from its own view.
#[derive(Clone, Copy)]
pub struct ByteAttrIter<'a> {
    buf: &'a [u8],
}

impl<'a> View for ByteAttrIter<'a> {
    type V = Seq<u8>;

    closed spec fn view(&self) -> Seq<u8> {
        self.buf@
    }
}

impl<'a> ByteAttrIter<'a> {
    pub fn new(buf: &'a [u8]) -> (r: Self)
        ensures
            r@ == buf@,
    {
        ByteAttrIter { buf }
    }

    /// Yields the attribute at the head of the remaining region, or signals
    /// the end when the region is exhausted.
    pub fn next(&mut self) -> (r: Option<ByteAttr<'a>>)
        ensures
            (r is None) <==> old(self)@.len() == 0,
            (r is None ==> final(self)@ == old(self)@),
            (r matches Some(a) ==> {
                &&& a@ == old(self)@
                &&& final(self)@ == old(self)@.skip(attr_size(old(self)@))
            }),
    {
        let n = self.buf.len();
        if n == 0 {
            return None;
        }
        let attr = ByteAttr::new(self.buf);
        let consumed: usize = if n < 4 {
            n
        } else {
            let v = read_be16(self.buf, 2);
            let p = ceil4_usize(v as usize);
            proof {
                lemma_ceil4_bounds(v as int);
            }
            if 4 + p <= n {
                4 + p
            } else {
                n
            }
        };
        proof {
            lemma_attr_size_bounds(self.buf@);
            assert(consumed == attr_size(self.buf@));
        }
        self.buf = slice_subrange(self.buf, consumed, n);
        proof {
            assert(self.buf@ =~= old(self)@.skip(consumed as int));
        }
        Some(attr)
    }

    /// The number of attributes from here to the end of the region.
    pub fn count(self) -> (r: usize)
        ensures
            r == attr_sizes(self@).len(),
    {
        let mut it = self;
        let mut n: usize = 0;
        let whole = it.buf.len();
        proof {
            lemma_attr_count_le_len(it@);
            assert(attr_sizes(it@).len() <= whole);
        }
        loop
            invariant
                n + attr_sizes(it@).len() == attr_sizes(self@).len(),
                attr_sizes(self@).len() <= usize::MAX,
            decreases it@.len(),
        {
            proof {
                if it@.len() > 0 {
                    lemma_attr_size_bounds(it@);
                    assert(attr_sizes(it@) == seq![attr_size(it@)] + attr_sizes(
                        it@.skip(attr_size(it@)),
                    ));
                }
            }
            match it.next() {
                Some(_a) => {
                    n = n + 1;
                },
                None => {
                    return n;
                },
            }
        }
    }
}

} // verus!
