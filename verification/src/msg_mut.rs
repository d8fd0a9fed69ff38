//! Mutating message view and builder: exclusive header windows, a mutating
//! attribute iterator, and `add_attr` / `add_attr2`, which append one
//! attribute at the tail of the attribute region and keep the header length
//! field consistent (padding counted, stored big-endian).
use vstd::prelude::*;
use crate::attr_mut::ByteAttrIterMut;
use crate::carve::{carve_mut, ceil4_usize, read_be16, write_be16, write_bytes};
use crate::wire::{add_attr_seq, as_bytes_spec, be16_bytes, ceil4, lemma_ceil4_bounds,
    msg_attrs_or_empty, msg_attrs_present, msg_attrs_seq, msg_len_field, splice_seq};

verus! {

/// A mutating view of a message over an exclusive byte buffer.
pub struct ByteMsgMut<'a> {
    buf: &'a mut [u8],
    cookie: bool,
}

impl<'a> View for ByteMsgMut<'a> {
    type V = Seq<u8>;

    closed spec fn view(&self) -> Seq<u8> {
        self.buf@
    }
}

impl<'a> ByteMsgMut<'a> {
    /// Whether bytes 4..8 are read as a magic cookie (and the transaction id
    /// as 12 bytes) rather than as the head of a 16-byte transaction id.
    pub closed spec fn cookie_mode(&self) -> bool {
        self.cookie
    }

    pub fn new(buf: &'a mut [u8], cookie: bool) -> (r: Self)
        ensures
            r@ == old(buf)@,
            r.cookie_mode() == cookie,
    {
        ByteMsgMut { buf, cookie }
    }

    /// The 2-byte message type field, as an exclusive window.
    pub fn typ(&mut self) -> (r: Option<&mut [u8]>)
        ensures
            (r is Some) <==> old(self)@.len() >= 2,
            (r matches Some(w) ==> {
                &&& w@ == old(self)@.subrange(0, 2)
                &&& final(self)@ == final(w)@ + old(self)@.subrange(2, old(self)@.len() as int)
            }),
            (r is None ==> final(self)@ == old(self)@),
            final(self).cookie_mode() == old(self).cookie_mode(),
    {
        let r = carve_mut(self.buf, 0, 2);
        proof {
            if r is Some {
                assert(old(self)@.subrange(0, 0).len() == 0);
            }
        }
        r
    }

    /// The raw 2-byte attribute-region length field, as an exclusive window.
    pub fn len(&mut self) -> (r: Option<&mut [u8]>)
        ensures
            (r is Some) <==> old(self)@.len() >= 4,
            (r matches Some(w) ==> {
                &&& w@ == old(self)@.subrange(2, 4)
                &&& final(self)@ == old(self)@.subrange(0, 2) + final(w)@ + old(self)@.subrange(
                    4,
                    old(self)@.len() as int,
                )
            }),
            (r is None ==> final(self)@ == old(self)@),
            final(self).cookie_mode() == old(self).cookie_mode(),
    {
        carve_mut(self.buf, 2, 2)
    }

    /// The 4-byte magic cookie window; absent outside cookie mode and, like
    /// the transaction id, absent below the full 20-byte header.
    pub fn cookie(&mut self) -> (r: Option<&mut [u8]>)
        ensures
            (r is Some) <==> (old(self).cookie_mode() && old(self)@.len() >= 20),
            (r matches Some(w) ==> {
                &&& w@ == old(self)@.subrange(4, 8)
                &&& final(self)@ == old(self)@.subrange(0, 4) + final(w)@ + old(self)@.subrange(
                    8,
                    old(self)@.len() as int,
                )
            }),
            (r is None ==> final(self)@ == old(self)@),
            final(self).cookie_mode() == old(self).cookie_mode(),
    {
        if self.cookie && self.buf.len() >= 20 {
            carve_mut(self.buf, 4, 4)
        } else {
            None
        }
    }

    /// The transaction id window: 12 bytes from offset 8 in cookie mode, 16
    /// bytes from offset 4 otherwise.
    pub fn tid(&mut self) -> (r: Option<&mut [u8]>)
        ensures
            (r is Some) <==> old(self)@.len() >= 20,
            (r matches Some(w) ==> if old(self).cookie_mode() {
                &&& w@ == old(self)@.subrange(8, 20)
                &&& final(self)@ == old(self)@.subrange(0, 8) + final(w)@ + old(self)@.subrange(
                    20,
                    old(self)@.len() as int,
                )
            } else {
                &&& w@ == old(self)@.subrange(4, 20)
                &&& final(self)@ == old(self)@.subrange(0, 4) + final(w)@ + old(self)@.subrange(
                    20,
                    old(self)@.len() as int,
                )
            }),
            (r is None ==> final(self)@ == old(self)@),
            final(self).cookie_mode() == old(self).cookie_mode(),
    {
        if self.cookie {
            carve_mut(self.buf, 8, 12)
        } else {
            carve_mut(self.buf, 4, 16)
        }
    }

    /// The attribute region as an exclusive window: L bytes from offset 20,
    /// absent when the buffer is shorter than `20 + L`.
    pub fn attrs(&mut self) -> (r: Option<&mut [u8]>)
        ensures
            (r is Some) <==> msg_attrs_present(old(self)@),
            (r matches Some(w) ==> w@.len() == msg_len_field(old(self)@)),
            (r matches Some(w) ==> {
                &&& w@ == msg_attrs_seq(old(self)@)
                &&& final(self)@ == old(self)@.subrange(0, 20) + final(w)@ + old(self)@.subrange(
                    20 + msg_len_field(old(self)@),
                    old(self)@.len() as int,
                )
            }),
            (r is None ==> final(self)@ == old(self)@),
            final(self).cookie_mode() == old(self).cookie_mode(),
    {
        if self.buf.len() < 4 {
            return None;
        }
        let l = read_be16(self.buf, 2);
        carve_mut(self.buf, 20, l as usize)
    }

    /// A mutating iterator over the attribute region; empty when the region
    /// is absent.
    pub fn attrs_iter(&mut self) -> (r: ByteAttrIterMut<'_>)
        ensures
            r@ == msg_attrs_or_empty(old(self)@),
            (!msg_attrs_present(old(self)@) ==> final(self)@ == old(self)@),
    {
        match self.attrs() {
            Some(region) => ByteAttrIterMut::new(region),
            None => {
                let empty: &mut [u8] = &mut [];
                ByteAttrIterMut::new(empty)
            },
        }
    }

    /// Appends one attribute: the caller-supplied 2-byte type and 2-byte
    /// length field are copied verbatim (the length field is not recomputed
    /// from `val`), the value bytes follow, and the header length is updated
    /// to `L + 4 + ceil4(val.len())`, stored big-endian as a 16-bit value.
    /// Returns absence, with the buffer untouched, when the three windows do
    /// not fit.
    pub fn add_attr(&mut self, typ: &[u8; 2], len: &[u8; 2], val: &[u8]) -> (r: Option<()>)
        ensures
            (r is Some) <==> (old(self)@.len() >= 4 && 20 + msg_len_field(old(self)@) + 4
                + val@.len() <= old(self)@.len()),
            (r is Some ==> final(self)@ == add_attr_seq(old(self)@, typ@, len@, val@)),
            (r is Some ==> msg_len_field(final(self)@) == (msg_len_field(old(self)@) + 4 + ceil4(
                val@.len() as int,
            )) % 0x10000),
            (r is Some && msg_len_field(old(self)@) + 4 + ceil4(val@.len() as int) < 0x10000
                ==> msg_len_field(final(self)@) == msg_len_field(old(self)@) + 4 + ceil4(
                val@.len() as int,
            )),
            (r is None ==> final(self)@ == old(self)@),
            final(self)@.len() == old(self)@.len(),
            final(self).cookie_mode() == old(self).cookie_mode(),
    {
        let n = self.buf.len();
        if n < 4 {
            return None;
        }
        let l = read_be16(self.buf, 2) as usize;
        if n < 24 || l > n - 24 {
            return None;
        }
        if val.len() > n - 24 - l {
            return None;
        }
        let ghost b0 = self.buf@;
        write_bytes(self.buf, 20 + l, typ.as_slice());
        write_bytes(self.buf, 22 + l, len.as_slice());
        write_bytes(self.buf, 24 + l, val);
        let ghost b3 = self.buf@;
        let pad = ceil4_usize(val.len());
        proof {
            lemma_ceil4_bounds(val@.len() as int);
        }
        let total = l + 4 + pad;
        write_be16(self.buf, 2, (total % 0x10000) as u16);
        proof {
            let t = typ@;
            let le = len@;
            let v = val@;
            assert(b3 =~= splice_seq(b0, 20 + l, t + le + v));
            assert(self.buf@ == splice_seq(b3, 2, be16_bytes((total % 0x10000) as u16 as int)));
            assert(self.buf@ =~= add_attr_seq(b0, t, le, v));
            assert(msg_len_field(self.buf@) == (msg_len_field(b0) + 4 + ceil4(v.len() as int))
                % 0x10000) by {
                assert(self.buf@[2] == ((total % 0x10000) / 256) as u8);
                assert(self.buf@[3] == ((total % 0x10000) % 256) as u8);
                assert(total % 0x10000 < 0x10000);
                assert(crate::wire::be16(((total % 0x10000) / 256) as u8, ((total % 0x10000) % 256)
                    as u8) == total % 0x10000) by (nonlinear_arith);
            };
        }
        Some(())
    }

    /// Appends one attribute whose contents are produced by `callback`,
    /// which is handed the free space past the three headers and returns the
    /// type field, the length field, and the value bytes, or absence to
    /// abort. The header length is updated as for `add_attr`.
    pub fn add_attr2<F: Fn(usize) -> Option<([u8; 2], [u8; 2], Vec<u8>)>>(
        &mut self,
        callback: F,
    ) -> (r: Option<()>)
        requires
            forall|n: usize| #[trigger] call_requires(callback, (n,)),
        ensures
            (r is Some ==> exists|t: [u8; 2], l: [u8; 2], v: Vec<u8>|
                {
                    &&& #[trigger] call_ensures(
                        callback,
                        ((old(self)@.len() - 24 - msg_len_field(old(self)@)) as usize,),
                        Some((t, l, v)),
                    )
                    &&& old(self)@.len() >= 4
                    &&& 20 + msg_len_field(old(self)@) + 4 + v@.len() <= old(self)@.len()
                    &&& final(self)@ == add_attr_seq(old(self)@, t@, l@, v@)
                }),
            (r is None ==> final(self)@ == old(self)@),
            (r is None ==> {
                ||| old(self)@.len() < 4
                ||| 24 + msg_len_field(old(self)@) > old(self)@.len()
                ||| call_ensures(
                    callback,
                    (((old(self)@.len() - 24 - msg_len_field(old(self)@)) as usize),),
                    None,
                )
                ||| exists|t: [u8; 2], l: [u8; 2], v: Vec<u8>|
                    {
                        &&& #[trigger] call_ensures(
                            callback,
                            (((old(self)@.len() - 24 - msg_len_field(old(self)@)) as usize),),
                            Some((t, l, v)),
                        )
                        &&& 24 + msg_len_field(old(self)@) + v@.len() > old(self)@.len()
                    }
            }),
            final(self)@.len() == old(self)@.len(),
            final(self).cookie_mode() == old(self).cookie_mode(),
    {
        let n = self.buf.len();
        if n < 4 {
            return None;
        }
        let l = read_be16(self.buf, 2) as usize;
        if n < 24 || l > n - 24 {
            return None;
        }
        let room = n - 24 - l;
        match callback(room) {
            Some((typ, len, val)) => {
                if val.len() > room {
                    return None;
                }
                self.add_attr(&typ, &len, val.as_slice())
            },
            None => None,
        }
    }

    /// The bytes to send: the logical message, padding included, when it
    /// fits within the buffer; the whole buffer otherwise.
    pub fn as_bytes(&self) -> (r: &[u8])
        ensures
            r@ == as_bytes_spec(self@),
    {
        let n = self.buf.len();
        if n < 4 {
            return vstd::slice::slice_subrange(self.buf, 0, n);
        }
        let l = read_be16(self.buf, 2);
        let p = ceil4_usize(l as usize);
        proof {
            lemma_ceil4_bounds(l as int);
        }
        if 20 + p <= n {
            vstd::slice::slice_subrange(self.buf, 0, 20 + p)
        } else {
            vstd::slice::slice_subrange(self.buf, 0, n)
        }
    }
}

} // verus!
