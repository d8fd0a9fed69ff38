//! Mathematical model of the wire format: big-endian 16-bit fields,
//! 4-byte-padded TLV attributes, and the layout of the attribute region.
use vstd::prelude::*;

verus! {

/// The smallest multiple of 4 that is at least `n` (for `n >= 0`).
pub open spec fn ceil4(n: int) -> int {
    ((n + 3) / 4) * 4
}

/// The big-endian unsigned 16-bit value of two bytes.
pub open spec fn be16(hi: u8, lo: u8) -> int {
    hi * 256 + lo
}

/// The two-byte big-endian encoding of `n` (for `0 <= n < 0x10000`).
pub open spec fn be16_bytes(n: int) -> Seq<u8> {
    seq![(n / 256) as u8, (n % 256) as u8]
}

/// `b` with the bytes at `off .. off + s.len()` replaced by `s`.
pub open spec fn splice_seq(b: Seq<u8>, off: int, s: Seq<u8>) -> Seq<u8>
    recommends
        0 <= off,
        off + s.len() <= b.len(),
{
    b.subrange(0, off) + s + b.subrange(off + s.len(), b.len() as int)
}

/// The declared value length V of the attribute at the head of `b`
/// (the big-endian decoding of bytes 2..4).
pub open spec fn attr_len_field(b: Seq<u8>) -> int
    recommends
        b.len() >= 4,
{
    be16(b[2], b[3])
}

/// The value region of the attribute at the head of `b`: the padded value
/// (`ceil4(V)` bytes from offset 4) if that many bytes remain, otherwise
/// whatever remains past offset 4 (a truncation-tolerant read).
pub open spec fn attr_val_seq(b: Seq<u8>) -> Seq<u8>
    recommends
        b.len() >= 4,
{
    if 4 + ceil4(attr_len_field(b)) <= b.len() {
        b.subrange(4, 4 + ceil4(attr_len_field(b)))
    } else {
        b.subrange(4, b.len() as int)
    }
}

/// The on-wire size of the attribute at the head of `b`: header plus padded
/// value, capped at the remaining buffer; a head shorter than 4 bytes is
/// consumed whole.
pub open spec fn attr_size(b: Seq<u8>) -> int {
    if b.len() < 4 {
        b.len() as int
    } else {
        4 + attr_val_seq(b).len() as int
    }
}

pub proof fn lemma_ceil4_bounds(n: int)
    requires
        n >= 0,
    ensures
        n <= ceil4(n) < n + 4,
        ceil4(n) % 4 == 0,
{
    assert(n <= ((n + 3) / 4) * 4 < n + 4 && (((n + 3) / 4) * 4) % 4 == 0) by (nonlinear_arith);
}

pub proof fn lemma_attr_size_bounds(b: Seq<u8>)
    requires
        b.len() > 0,
    ensures
        1 <= attr_size(b) <= b.len(),
{
    if b.len() >= 4 {
        lemma_ceil4_bounds(attr_len_field(b));
    }
}

/// The sizes of the successive attributes of the region `b`, in order.
pub open spec fn attr_sizes(b: Seq<u8>) -> Seq<int>
    decreases b.len(),
{
    if b.len() == 0 {
        Seq::empty()
    } else {
        seq![attr_size(b)] + attr_sizes(b.skip(attr_size(b)))
    }
}

/// The start offset of the `k`-th attribute of the region `b`.
pub open spec fn attr_offset(b: Seq<u8>, k: int) -> int
    decreases k,
{
    if k <= 0 {
        0
    } else {
        attr_size(b) + attr_offset(b.skip(attr_size(b)), k - 1)
    }
}

pub open spec fn sum_sizes(s: Seq<int>) -> int
    decreases s.len(),
{
    if s.len() == 0 {
        0
    } else {
        s[0] + sum_sizes(s.skip(1))
    }
}

proof fn lemma_sum_cons(x: int, s: Seq<int>)
    ensures
        sum_sizes(seq![x] + s) == x + sum_sizes(s),
{
    assert((seq![x] + s).skip(1) =~= s);
}

/// Iterator coverage: the consumed sizes of the attributes of a region add
/// up to the region's length exactly (a final truncated attribute consumes
/// whatever remains).
pub proof fn lemma_attr_sizes_cover(b: Seq<u8>)
    ensures
        sum_sizes(attr_sizes(b)) == b.len(),
    decreases b.len(),
{
    if b.len() > 0 {
        lemma_attr_size_bounds(b);
        let tail = b.skip(attr_size(b));
        lemma_attr_sizes_cover(tail);
        lemma_sum_cons(attr_size(b), attr_sizes(tail));
    }
}

pub proof fn lemma_attr_sizes_pos(b: Seq<u8>, k: int)
    requires
        0 <= k < attr_sizes(b).len(),
    ensures
        1 <= attr_sizes(b)[k],
    decreases b.len(),
{
    lemma_attr_size_bounds(b);
    if k > 0 {
        lemma_attr_sizes_pos(b.skip(attr_size(b)), k - 1);
    }
}

pub proof fn lemma_attr_count_le_len(b: Seq<u8>)
    ensures
        attr_sizes(b).len() <= b.len(),
    decreases b.len(),
{
    if b.len() > 0 {
        lemma_attr_size_bounds(b);
        lemma_attr_count_le_len(b.skip(attr_size(b)));
    }
}

proof fn lemma_attr_offset_next(b: Seq<u8>, k: int)
    requires
        0 <= k < attr_sizes(b).len(),
    ensures
        attr_offset(b, k + 1) == attr_offset(b, k) + attr_sizes(b)[k],
    decreases k,
{
    assert(b.len() > 0);
    lemma_attr_size_bounds(b);
    let tail = b.skip(attr_size(b));
    assert(attr_sizes(b) == seq![attr_size(b)] + attr_sizes(tail));
    assert(attr_offset(b, k + 1) == attr_size(b) + attr_offset(tail, k));
    assert(attr_offset(b, k) == if k == 0 {
        0int
    } else {
        attr_size(b) + attr_offset(tail, k - 1)
    });
    if k > 0 {
        assert(attr_sizes(b)[k] == attr_sizes(tail)[k - 1]);
        lemma_attr_offset_next(tail, k - 1);
    } else {
        assert(attr_sizes(b)[0] == attr_size(b));
        assert(attr_offset(tail, 0) == 0);
    }
}

proof fn lemma_attr_offset_mono(b: Seq<u8>, i: int, j: int)
    requires
        0 <= i <= j <= attr_sizes(b).len(),
    ensures
        attr_offset(b, i) <= attr_offset(b, j),
    decreases j - i,
{
    if i < j {
        lemma_attr_offset_next(b, j - 1);
        lemma_attr_sizes_pos(b, j - 1);
        lemma_attr_offset_mono(b, i, j - 1);
    }
}

proof fn lemma_attr_offset_total(b: Seq<u8>)
    ensures
        attr_offset(b, attr_sizes(b).len() as int) == b.len(),
    decreases b.len(),
{
    if b.len() > 0 {
        lemma_attr_size_bounds(b);
        lemma_attr_offset_total(b.skip(attr_size(b)));
    }
}

/// Iterator disjointness: two distinct attributes of one region occupy
/// non-overlapping windows `[offset, offset + size)` of that region, and
/// every window lies within the region.
pub proof fn lemma_attr_windows_disjoint(b: Seq<u8>, i: int, j: int)
    requires
        0 <= i < j < attr_sizes(b).len(),
    ensures
        0 <= attr_offset(b, i),
        attr_offset(b, i) + attr_sizes(b)[i] <= attr_offset(b, j),
        attr_offset(b, j) + attr_sizes(b)[j] <= b.len(),
{
    lemma_attr_offset_mono(b, 0, i);
    lemma_attr_offset_next(b, i);
    lemma_attr_offset_mono(b, i + 1, j);
    lemma_attr_offset_next(b, j);
    lemma_attr_offset_mono(b, j + 1, attr_sizes(b).len() as int);
    lemma_attr_offset_total(b);
}

/// The attribute-region length L declared in a message header (the
/// big-endian decoding of bytes 2..4).
pub open spec fn msg_len_field(b: Seq<u8>) -> int
    recommends
        b.len() >= 4,
{
    be16(b[2], b[3])
}

/// The attribute region of a message: L bytes starting at offset 20.
pub open spec fn msg_attrs_seq(b: Seq<u8>) -> Seq<u8>
    recommends
        b.len() >= 4,
        20 + msg_len_field(b) <= b.len(),
{
    b.subrange(20, 20 + msg_len_field(b))
}

/// Whether the attribute region declared by the header lies inside `b`.
pub open spec fn msg_attrs_present(b: Seq<u8>) -> bool {
    b.len() >= 4 && 20 + msg_len_field(b) <= b.len()
}

/// The attribute region if present, the empty region otherwise.
pub open spec fn msg_attrs_or_empty(b: Seq<u8>) -> Seq<u8> {
    if msg_attrs_present(b) {
        msg_attrs_seq(b)
    } else {
        Seq::empty()
    }
}

/// The logical size of a message: `20 + L` when the length field can be
/// read, the physical buffer length otherwise.
pub open spec fn msg_size_spec(b: Seq<u8>) -> int {
    if b.len() >= 4 {
        20 + msg_len_field(b)
    } else {
        b.len() as int
    }
}

/// The bytes a builder hands out to be sent: the logical message rounded up
/// to the padding boundary when it fits inside the buffer, the whole buffer
/// otherwise.
pub open spec fn as_bytes_spec(b: Seq<u8>) -> Seq<u8> {
    if b.len() >= 4 && 20 + ceil4(msg_len_field(b)) <= b.len() {
        b.subrange(0, 20 + ceil4(msg_len_field(b)))
    } else {
        b
    }
}

/// The buffer after one attribute `(t, l, v)` is appended at the tail of the
/// attribute region: the three fields written back to back at `20 + L`, and
/// the header length field updated to `L + 4 + ceil4(v.len())` (stored as a
/// 16-bit value).
pub open spec fn add_attr_seq(b: Seq<u8>, t: Seq<u8>, l: Seq<u8>, v: Seq<u8>) -> Seq<u8>
    recommends
        b.len() >= 4,
        20 + msg_len_field(b) + 4 + v.len() <= b.len(),
        t.len() == 2,
        l.len() == 2,
{
    let at = 20 + msg_len_field(b);
    let new_len = (msg_len_field(b) + 4 + ceil4(v.len() as int)) % 0x10000;
    splice_seq(splice_seq(b, at, t + l + v), 2, be16_bytes(new_len))
}

/// The buffer after a message is built from scratch: the 2-byte type
/// written at offset 0, the 16 header bytes after the length field (cookie
/// plus transaction id, or a 16-byte transaction id) written at offset 4,
/// and one attribute `(at, al, av)` appended.
pub open spec fn built_msg(
    b0: Seq<u8>,
    typ2: Seq<u8>,
    mid16: Seq<u8>,
    at: Seq<u8>,
    al: Seq<u8>,
    av: Seq<u8>,
) -> Seq<u8> {
    add_attr_seq(splice_seq(splice_seq(b0, 0, typ2), 4, mid16), at, al, av)
}

/// Round trip: a message built into a buffer whose header length field
/// starts at zero — type, the sixteen bytes after the length field, and one
/// appended attribute whose length field decodes to the value's length —
/// reads back field for field: the header fields are the ones written, the
/// header length is `4 + ceil4(av.len())`, the attribute region parses as
/// exactly one attribute carrying the written type, length field and value,
/// and the sendable bytes are the logical message with its padding drawn
/// unchanged from the prior buffer contents. The sendable bytes, re-parsed
/// as a message of their own, read back the same header fields and the same
/// attribute region.
pub proof fn lemma_build_round_trip(
    b0: Seq<u8>,
    typ2: Seq<u8>,
    mid16: Seq<u8>,
    at: Seq<u8>,
    al: Seq<u8>,
    av: Seq<u8>,
)
    requires
        b0.len() >= 24 + ceil4(av.len() as int),
        msg_len_field(b0) == 0,
        typ2.len() == 2,
        mid16.len() == 16,
        at.len() == 2,
        al.len() == 2,
        be16(al[0], al[1]) == av.len(),
        4 + ceil4(av.len() as int) < 0x10000,
    ensures
        built_msg(b0, typ2, mid16, at, al, av).len() == b0.len(),
        built_msg(b0, typ2, mid16, at, al, av).subrange(0, 2) == typ2,
        built_msg(b0, typ2, mid16, at, al, av).subrange(4, 20) == mid16,
        msg_len_field(built_msg(b0, typ2, mid16, at, al, av)) == 4 + ceil4(av.len() as int),
        msg_attrs_present(built_msg(b0, typ2, mid16, at, al, av)),
        msg_attrs_seq(built_msg(b0, typ2, mid16, at, al, av)).subrange(0, 2) == at,
        msg_attrs_seq(built_msg(b0, typ2, mid16, at, al, av)).subrange(2, 4) == al,
        attr_val_seq(msg_attrs_seq(built_msg(b0, typ2, mid16, at, al, av))) == built_msg(
            b0,
            typ2,
            mid16,
            at,
            al,
            av,
        ).subrange(24, 24 + ceil4(av.len() as int)),
        attr_val_seq(msg_attrs_seq(built_msg(b0, typ2, mid16, at, al, av))).subrange(
            0,
            av.len() as int,
        ) == av,
        attr_sizes(msg_attrs_seq(built_msg(b0, typ2, mid16, at, al, av))).len() == 1,
        as_bytes_spec(built_msg(b0, typ2, mid16, at, al, av)) == built_msg(
            b0,
            typ2,
            mid16,
            at,
            al,
            av,
        ).subrange(0, 24 + ceil4(av.len() as int)),
        built_msg(b0, typ2, mid16, at, al, av).subrange(
            24 + av.len() as int,
            24 + ceil4(av.len() as int),
        ) == b0.subrange(24 + av.len() as int, 24 + ceil4(av.len() as int)),
        as_bytes_spec(built_msg(b0, typ2, mid16, at, al, av)).len() == 24 + ceil4(
            av.len() as int,
        ),
        as_bytes_spec(built_msg(b0, typ2, mid16, at, al, av)).subrange(0, 2) == typ2,
        as_bytes_spec(built_msg(b0, typ2, mid16, at, al, av)).subrange(4, 20) == mid16,
        msg_len_field(as_bytes_spec(built_msg(b0, typ2, mid16, at, al, av))) == 4 + ceil4(
            av.len() as int,
        ),
        msg_attrs_present(as_bytes_spec(built_msg(b0, typ2, mid16, at, al, av))),
        msg_attrs_seq(as_bytes_spec(built_msg(b0, typ2, mid16, at, al, av))) == msg_attrs_seq(
            built_msg(b0, typ2, mid16, at, al, av),
        ),
{
    let vl = av.len() as int;
    let hl = 4 + ceil4(vl);
    lemma_ceil4_bounds(vl);
    let b2 = splice_seq(splice_seq(b0, 0, typ2), 4, mid16);
    let b4 = built_msg(b0, typ2, mid16, at, al, av);
    assert(b2.len() == b0.len());
    assert(msg_len_field(b2) == 0) by {
        assert(b2[2] == b0[2] && b2[3] == b0[3]);
    };
    assert(hl % 0x10000 == hl) by (nonlinear_arith)
        requires
            0 <= hl < 0x10000,
    ;
    assert(be16((hl / 256) as u8, (hl % 256) as u8) == hl) by (nonlinear_arith)
        requires
            0 <= hl < 0x10000,
    ;
    assert(b4 == splice_seq(splice_seq(b2, 20, at + al + av), 2, be16_bytes(hl)));
    assert(b4.len() == b0.len());
    assert(b4[2] == (hl / 256) as u8 && b4[3] == (hl % 256) as u8);
    assert(msg_len_field(b4) == hl);
    assert(b4.subrange(0, 2) =~= typ2);
    assert(b4.subrange(4, 20) =~= mid16);
    assert(msg_attrs_present(b4));
    let region = msg_attrs_seq(b4);
    assert(region.len() == hl);
    assert(region.subrange(0, 2) =~= at);
    assert(region.subrange(2, 4) =~= al);
    assert(attr_len_field(region) == vl) by {
        assert(region[2] == al[0] && region[3] == al[1]);
    };
    assert(4 + ceil4(attr_len_field(region)) <= region.len());
    assert(attr_val_seq(region) =~= b4.subrange(24, 24 + ceil4(vl)));
    assert(attr_val_seq(region).subrange(0, vl) =~= av);
    assert(attr_size(region) == region.len());
    assert(region.skip(attr_size(region)) =~= Seq::<u8>::empty());
    assert(attr_sizes(region) == seq![attr_size(region)] + attr_sizes(
        region.skip(attr_size(region)),
    ));
    assert(attr_sizes(region).len() == 1);
    assert(ceil4(hl) == hl) by (nonlinear_arith)
        requires
            hl % 4 == 0,
            hl >= 0,
    ;
    assert(as_bytes_spec(b4) == b4.subrange(0, 24 + ceil4(vl)));
    assert(b4.subrange(24 + vl, 24 + ceil4(vl)) =~= b0.subrange(24 + vl, 24 + ceil4(vl)));
    let c = as_bytes_spec(b4);
    assert(c.len() == 20 + hl);
    assert(c.subrange(0, 2) =~= typ2);
    assert(c.subrange(4, 20) =~= mid16);
    assert(c[2] == b4[2] && c[3] == b4[3]);
    assert(msg_len_field(c) == hl);
    assert(msg_attrs_present(c));
    assert(msg_attrs_seq(c) =~= region);
}

} // verus!
