//! Read-only message view: header-field accessors over a borrowed byte
//! buffer, the attribute region, and an iterator over its attributes.
//!
//! The header is always 20 bytes: a 2-byte type, a 2-byte big-endian
//! attribute-region length L, and then either a 4-byte magic cookie plus a
//! 12-byte transaction id (cookie mode) or a single 16-byte transaction id.
//! The split is a constructor-time mode choice; the wire format is identical
//! bytewise.
use vstd::prelude::*;
use crate::attr::ByteAttrIter;
use crate::carve::{carve, read_be16};
use crate::wire::{msg_attrs_or_empty, msg_attrs_present, msg_attrs_seq, msg_len_field,
    msg_size_spec};

verus! {

/// A read-only view of a message over a borrowed byte buffer.
pub struct ByteMsg<'a> {
    buf: &'a [u8],
    cookie: bool,
}

impl<'a> View for ByteMsg<'a> {
    type V = Seq<u8>;

    closed spec fn view(&self) -> Seq<u8> {
        self.buf@
    }
}

impl<'a> ByteMsg<'a> {
    /// Whether bytes 4..8 are read as a magic cookie (and the transaction id
    /// as 12 bytes) rather than as the head of a 16-byte transaction id.
    pub closed spec fn cookie_mode(&self) -> bool {
        self.cookie
    }

    pub fn new(buf: &'a [u8], cookie: bool) -> (r: Self)
        ensures
            r@ == buf@,
            r.cookie_mode() == cookie,
    {
        ByteMsg { buf, cookie }
    }

    /// The 2-byte message type field.
    pub fn typ(&self) -> (r: Option<&'a [u8]>)
        ensures
            (r is Some) <==> self@.len() >= 2,
            (r matches Some(w) ==> w@ == self@.subrange(0, 2)),
    {
        carve(self.buf, 0, 2)
    }

    /// The raw 2-byte attribute-region length field.
    pub fn len(&self) -> (r: Option<&'a [u8]>)
        ensures
            (r is Some) <==> self@.len() >= 4,
            (r matches Some(w) ==> w@ == self@.subrange(2, 4)),
    {
        carve(self.buf, 2, 2)
    }

    /// The 4-byte magic cookie; absent outside cookie mode and, like the
    /// transaction id, absent below the full 20-byte header.
    pub fn cookie(&self) -> (r: Option<&'a [u8]>)
        ensures
            (r is Some) <==> (self.cookie_mode() && self@.len() >= 20),
            (r matches Some(w) ==> w@ == self@.subrange(4, 8)),
    {
        if self.cookie && self.buf.len() >= 20 {
            carve(self.buf, 4, 4)
        } else {
            None
        }
    }

    /// The transaction id: 12 bytes from offset 8 in cookie mode, 16 bytes
    /// from offset 4 otherwise. Present exactly when the full 20-byte header
    /// is.
    pub fn tid(&self) -> (r: Option<&'a [u8]>)
        ensures
            (r is Some) <==> self@.len() >= 20,
            (r matches Some(w) ==> w@ == if self.cookie_mode() {
                self@.subrange(8, 20)
            } else {
                self@.subrange(4, 20)
            }),
    {
        if self.cookie {
            carve(self.buf, 8, 12)
        } else {
            carve(self.buf, 4, 16)
        }
    }

    /// The attribute region: L bytes from offset 20, absent when the buffer
    /// is shorter than `20 + L`. When present, its length equals the
    /// big-endian decoding of the length field.
    pub fn attrs(&self) -> (r: Option<&'a [u8]>)
        ensures
            (r is Some) <==> msg_attrs_present(self@),
            (r matches Some(w) ==> w@ == msg_attrs_seq(self@)),
            (r matches Some(w) ==> w@.len() == msg_len_field(self@)),
    {
        if self.buf.len() < 4 {
            return None;
        }
        let l = read_be16(self.buf, 2);
        carve(self.buf, 20, l as usize)
    }

    /// An iterator over the attribute region; empty when the region is
    /// absent.
    pub fn attrs_iter(&self) -> (r: ByteAttrIter<'a>)
        ensures
            r@ == msg_attrs_or_empty(self@),
    {
        match self.attrs() {
            Some(region) => ByteAttrIter::new(region),
            None => {
                let empty: &[u8] = &[];
                ByteAttrIter::new(empty)
            },
        }
    }

    /// The logical size `20 + L` when the length field can be read, the
    /// physical buffer length otherwise.
    pub fn size(&self) -> (r: usize)
        ensures
            r == msg_size_spec(self@),
    {
        if self.buf.len() < 4 {
            self.buf.len()
        } else {
            20 + read_be16(self.buf, 2) as usize
        }
    }
}

} // verus!
