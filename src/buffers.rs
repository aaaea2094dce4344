//! Splitting and merging of raw vertex records, and renumbering of index
//! records.
use vstd::prelude::*;

verus! {

/// Bytes of a position record.
pub const POSITION_BYTES: usize = 40;

/// Offset of the end of the blend part in a vertex record.
pub const BLEND_END: usize = 72;

/// Number of whole records of `stride` bytes in `len` bytes; a shorter
/// remainder is left out.
pub open spec fn record_count(len: nat, stride: nat) -> nat {
    if stride == 0 { 0 } else { len / stride }
}

/// Bytes `[lo, hi)` of each of the first `n` records of `stride` bytes, one
/// record after the other.
pub open spec fn field_stream(buf: Seq<u8>, stride: nat, lo: nat, hi: nat, n: nat) -> Seq<u8>
    decreases n,
{
    if n == 0 {
        Seq::empty()
    } else {
        field_stream(buf, stride, lo, hi, (n - 1) as nat) + buf.subrange(
            (n - 1) * stride + lo,
            (n - 1) * stride + hi,
        )
    }
}

/// The position stream of a buffer: the first 40 bytes of every record.
pub open spec fn position_part(buf: Seq<u8>, stride: nat) -> Seq<u8> {
    field_stream(buf, stride, 0, 40, record_count(buf.len(), stride))
}

/// The blend stream of a buffer: bytes 40 to 72 of every record.
pub open spec fn blend_part(buf: Seq<u8>, stride: nat) -> Seq<u8> {
    field_stream(buf, stride, 40, 72, record_count(buf.len(), stride))
}

/// The texcoord stream of a buffer: bytes 72 to the stride of every record.
pub open spec fn texcoord_part(buf: Seq<u8>, stride: nat) -> Seq<u8> {
    field_stream(buf, stride, 72, stride, record_count(buf.len(), stride))
}

/// The whole records of a buffer, unchanged.
pub open spec fn whole_part(buf: Seq<u8>, stride: nat) -> Seq<u8> {
    buf.subrange(0, (record_count(buf.len(), stride) * stride) as int)
}

proof fn lemma_record_in_bounds(r: nat, n: nat, stride: nat, len: nat)
    requires
        r < n,
        stride > 0,
        n == len / stride,
    ensures
        r * stride + stride <= n * stride,
        n * stride <= len,
{
    assert(r * stride + stride <= n * stride) by (nonlinear_arith)
        requires r < n, stride > 0;
    assert(n * stride <= len) by (nonlinear_arith)
        requires stride > 0, n == len / stride;
}

fn append_range(out: &mut Vec<u8>, buf: &Vec<u8>, lo: usize, hi: usize)
    requires
        lo <= hi <= buf.len(),
    ensures
        final(out)@ == old(out)@ + buf@.subrange(lo as int, hi as int),
{
    let mut k: usize = lo;
    while k < hi
        invariant
            lo <= k <= hi <= buf.len(),
            out@ == old(out)@ + buf@.subrange(lo as int, k as int),
        decreases hi - k,
    {
        out.push(buf[k]);
        k = k + 1;
        assert(out@ =~= old(out)@ + buf@.subrange(lo as int, k as int));
    }
}

/// Splits each whole record of `buf` into its position bytes `[0, 40)`,
/// blend bytes `[40, 72)` and texcoord bytes `[72, stride)`, appending each
/// part to its stream. A remainder shorter than a record is left out.
pub fn split_records(
    buf: &Vec<u8>,
    stride: usize,
    position: &mut Vec<u8>,
    blend: &mut Vec<u8>,
    texcoord: &mut Vec<u8>,
)
    requires
        stride >= BLEND_END,
    ensures
        final(position)@ == old(position)@ + position_part(buf@, stride as nat),
        final(blend)@ == old(blend)@ + blend_part(buf@, stride as nat),
        final(texcoord)@ == old(texcoord)@ + texcoord_part(buf@, stride as nat),
{
    let n: usize = buf.len() / stride;
    let mut r: usize = 0;
    let mut i: usize = 0;
    while r < n
        invariant
            stride >= BLEND_END,
            n == buf.len() / stride,
            r <= n,
            i == r * stride,
            position@ == old(position)@ + field_stream(buf@, stride as nat, 0, 40, r as nat),
            blend@ == old(blend)@ + field_stream(buf@, stride as nat, 40, 72, r as nat),
            texcoord@ == old(texcoord)@ + field_stream(buf@, stride as nat, 72, stride as nat, r as nat),
        decreases n - r,
    {
        proof {
            lemma_record_in_bounds(r as nat, n as nat, stride as nat, buf.len() as nat);
        }
        append_range(position, buf, i, i + POSITION_BYTES);
        append_range(blend, buf, i + POSITION_BYTES, i + BLEND_END);
        append_range(texcoord, buf, i + BLEND_END, i + stride);
        proof {
            assert((r + 1) * stride == r * stride + stride) by (nonlinear_arith);
        }
        i = i + stride;
        r = r + 1;
        assert(position@ =~= old(position)@ + field_stream(buf@, stride as nat, 0, 40, r as nat));
        assert(blend@ =~= old(blend)@ + field_stream(buf@, stride as nat, 40, 72, r as nat));
        assert(texcoord@ =~= old(texcoord)@ + field_stream(buf@, stride as nat, 72, stride as nat, r as nat));
    }
}

/// Appends the whole records of `buf` unchanged; a remainder shorter than a
/// record is left out.
pub fn copy_records(buf: &Vec<u8>, stride: usize, out: &mut Vec<u8>)
    requires
        stride > 0,
    ensures
        final(out)@ == old(out)@ + whole_part(buf@, stride as nat),
{
    let n: usize = buf.len() / stride;
    proof {
        assert(n * stride <= buf.len()) by (nonlinear_arith)
            requires stride > 0, n == buf.len() / stride;
    }
    append_range(out, buf, 0, n * stride);
}

/// The unsigned value of the little-endian four-byte record `k`.
pub open spec fn le_value(b: Seq<u8>, k: int) -> nat {
    (b[4 * k] + 256 * b[4 * k + 1] + 65536 * b[4 * k + 2] + 16777216 * b[4 * k + 3]) as nat
}

/// The four little-endian bytes of `v` below 2^32.
pub open spec fn le_bytes(v: nat) -> Seq<u8> {
    seq![
        (v % 256) as u8,
        ((v / 256) % 256) as u8,
        ((v / 65536) % 256) as u8,
        ((v / 16777216) % 256) as u8,
    ]
}

/// Number of whole four-byte index records in `len` bytes.
pub open spec fn index_count(len: nat) -> nat {
    len / 4
}

/// The first `n` index records of `b`, each with `offset` added modulo 2^32.
pub open spec fn renumbered(b: Seq<u8>, offset: nat, n: nat) -> Seq<u8>
    decreases n,
{
    if n == 0 {
        Seq::empty()
    } else {
        renumbered(b, offset, (n - 1) as nat) + le_bytes(
            (le_value(b, n - 1) + offset) % 0x1_0000_0000,
        )
    }
}

/// The index values of the first `n` records of `b`.
pub open spec fn index_values(b: Seq<u8>, n: nat) -> Seq<nat> {
    Seq::new(n, |k: int| le_value(b, k))
}

/// Re-encodes each whole four-byte little-endian index of `buf` with
/// `offset` added (modulo 2^32, as four bytes hold it).
pub fn renumber_indices(buf: &Vec<u8>, offset: usize) -> (r: Vec<u8>)
    ensures
        r@ == renumbered(buf@, offset as nat, index_count(buf.len() as nat)),
{
    let n: usize = buf.len() / 4;
    let off: u64 = (offset as u64) % 0x1_0000_0000;
    let mut r: Vec<u8> = Vec::new();
    let mut k: usize = 0;
    while k < n
        invariant
            n == buf.len() / 4,
            k <= n,
            off == (offset as nat) % 0x1_0000_0000,
            r@ == renumbered(buf@, offset as nat, k as nat),
        decreases n - k,
    {
        let b0 = buf[4 * k] as u64;
        let b1 = buf[4 * k + 1] as u64;
        let b2 = buf[4 * k + 2] as u64;
        let b3 = buf[4 * k + 3] as u64;
        let v: u64 = b0 + 256 * b1 + 65536 * b2 + 16777216 * b3;
        let w: u64 = (v + off) % 0x1_0000_0000;
        proof {
            assert(v == le_value(buf@, k as int));
            assert(w == (le_value(buf@, k as int) + offset as nat) % 0x1_0000_0000) by (nonlinear_arith)
                requires
                    w == (v + off) % 0x1_0000_0000,
                    off == (offset as nat) % 0x1_0000_0000,
                    v == le_value(buf@, k as int),
            ;
        }
        r.push((w % 256) as u8);
        r.push(((w / 256) % 256) as u8);
        r.push(((w / 65536) % 256) as u8);
        r.push(((w / 16777216) % 256) as u8);
        k = k + 1;
        assert(r@ =~= renumbered(buf@, offset as nat, k as nat));
    }
    r
}

proof fn lemma_field_stream(buf: Seq<u8>, stride: nat, lo: nat, hi: nat, n: nat, r: int)
    requires
        lo <= hi <= stride,
        n * stride <= buf.len(),
        0 <= r < n,
    ensures
        field_stream(buf, stride, lo, hi, n).len() == n * (hi - lo),
        field_stream(buf, stride, lo, hi, n).subrange(r * (hi - lo), r * (hi - lo) + (hi - lo))
            == buf.subrange(r * stride + lo, r * stride + hi),
    decreases n,
{
    let w: int = hi - lo;
    let m: int = n - 1;
    let prev = field_stream(buf, stride, lo, hi, (n - 1) as nat);
    let cur = field_stream(buf, stride, lo, hi, n);
    assert(m * stride + hi <= n * stride) by (nonlinear_arith)
        requires hi <= stride, m == n - 1;
    assert(n * w == m * w + w) by (nonlinear_arith)
        requires m == n - 1;
    assert(m * stride <= n * stride) by (nonlinear_arith)
        requires m == n - 1;
    if n == 1 {
        assert(prev.len() == 0);
        assert(m * w == 0) by (nonlinear_arith)
            requires m == 0;
    } else {
        lemma_field_stream(buf, stride, lo, hi, (n - 1) as nat, 0);
    }
    assert(prev.len() == m * w);
    assert(cur.len() == n * w);
    if r < m {
        lemma_field_stream(buf, stride, lo, hi, (n - 1) as nat, r);
        assert(r * w + w <= m * w) by (nonlinear_arith)
            requires r < m, w >= 0;
        assert(r * w >= 0) by (nonlinear_arith)
            requires r >= 0, w >= 0;
        assert(cur.subrange(r * w, r * w + w) =~= prev.subrange(r * w, r * w + w));
    } else {
        assert(r == m);
        assert(cur.subrange(r * w, r * w + w) =~= buf.subrange(m * stride + lo, m * stride + hi));
    }
}

/// Splitting a record into its position, blend and texcoord parts loses
/// nothing: for a stride of at least 72 bytes, the three parts of record `r`,
/// taken from their streams and put back in that order, are the record's
/// bytes.
pub proof fn law_split_round_trip(buf: Seq<u8>, stride: nat, r: int)
    requires
        stride >= 72,
        0 <= r < record_count(buf.len(), stride),
    ensures
        position_part(buf, stride).subrange(40 * r, 40 * r + 40)
            + blend_part(buf, stride).subrange(32 * r, 32 * r + 32)
            + texcoord_part(buf, stride).subrange(
                (stride - 72) * r,
                (stride - 72) * r + (stride - 72),
            ) == buf.subrange(r * stride, r * stride + stride),
{
    let n = record_count(buf.len(), stride);
    let t: int = stride - 72;
    assert(n * stride <= buf.len()) by (nonlinear_arith)
        requires stride > 0, n == buf.len() / stride;
    assert(r * stride + stride <= n * stride) by (nonlinear_arith)
        requires r < n;
    lemma_field_stream(buf, stride, 0, 40, n, r);
    lemma_field_stream(buf, stride, 40, 72, n, r);
    lemma_field_stream(buf, stride, 72, stride, n, r);
    assert(r * 40 == 40 * r && r * 32 == 32 * r) by (nonlinear_arith);
    assert(r * t == t * r) by (nonlinear_arith);
    let base: int = r * stride;
    assert(base >= 0) by (nonlinear_arith)
        requires r >= 0, stride >= 72, base == r * stride;
    assert(buf.subrange(base, base + 40) + buf.subrange(base + 40, base + 72)
        + buf.subrange(base + 72, base + stride) =~= buf.subrange(base, base + stride));
}

proof fn lemma_le_round_trip(v: nat)
    requires
        v < 0x1_0000_0000,
    ensures
        le_value(le_bytes(v), 0) == v,
{
    assert(v == v % 256 + 256 * ((v / 256) % 256) + 65536 * ((v / 65536) % 256) + 16777216 * ((v / 16777216) % 256)) by (nonlinear_arith)
        requires v < 0x1_0000_0000;
}

proof fn lemma_renumbered(b: Seq<u8>, offset: nat, n: nat, k: int)
    requires
        0 <= k < n,
    ensures
        renumbered(b, offset, n).len() == 4 * n,
        renumbered(b, offset, n).subrange(4 * k, 4 * k + 4) == le_bytes(
            (le_value(b, k) + offset) % 0x1_0000_0000,
        ),
    decreases n,
{
    let cur = renumbered(b, offset, n);
    let prev = renumbered(b, offset, (n - 1) as nat);
    if n > 1 {
        lemma_renumbered(b, offset, (n - 1) as nat, 0);
    }
    if k < n - 1 {
        lemma_renumbered(b, offset, (n - 1) as nat, k);
        assert(cur.subrange(4 * k, 4 * k + 4) =~= prev.subrange(4 * k, 4 * k + 4));
    } else {
        assert(cur.subrange(4 * k, 4 * k + 4) =~= le_bytes((le_value(b, k) + offset) % 0x1_0000_0000));
    }
}

/// Renumbering adds the offset to every index: read back, record `k` of the
/// renumbered stream holds the input record's value plus `offset`
/// (modulo 2^32).
pub proof fn law_renumber_adds_offset(b: Seq<u8>, offset: nat)
    ensures
        index_values(renumbered(b, offset, index_count(b.len())), index_count(b.len()))
            == Seq::new(index_count(b.len()), |k: int| (le_value(b, k) + offset) % 0x1_0000_0000),
{
    let n = index_count(b.len());
    let out = renumbered(b, offset, n);
    assert forall|k: int| 0 <= k < n implies le_value(out, k) == (le_value(b, k) + offset)
        % 0x1_0000_0000 by {
        lemma_renumbered(b, offset, n, k);
        let v = (le_value(b, k) + offset) % 0x1_0000_0000;
        lemma_le_round_trip(v);
        let part = out.subrange(4 * k, 4 * k + 4);
        assert(part[0] == out[4 * k] && part[1] == out[4 * k + 1] && part[2] == out[4 * k + 2]
            && part[3] == out[4 * k + 3]);
    }
    assert(index_values(out, n) =~= Seq::new(n, |k: int| (le_value(b, k) + offset) % 0x1_0000_0000));
}

/// The length of each part stream: a whole number of parts.
pub(crate) proof fn lemma_part_lengths(buf: Seq<u8>, stride: nat)
    requires
        stride > 0,
    ensures
        stride >= 72 ==> position_part(buf, stride).len() == 40 * record_count(buf.len(), stride),
        whole_part(buf, stride).len() == record_count(buf.len(), stride) * stride,
        stride >= 72 ==> blend_part(buf, stride).len() == 32 * record_count(buf.len(), stride),
        stride >= 72 ==> texcoord_part(buf, stride).len() == (stride - 72) * record_count(buf.len(), stride),
{
    let n = record_count(buf.len(), stride);
    assert(n * stride <= buf.len()) by (nonlinear_arith)
        requires stride > 0, n == buf.len() / stride;
    assert(n * 40 == 40 * n && n * 32 == 32 * n) by (nonlinear_arith);
    assert(n * ((stride - 72) as int) == (stride - 72) * n) by (nonlinear_arith);
    if n > 0 && stride >= 72 {
        lemma_field_stream(buf, stride, 0, 40, n, 0);
        lemma_field_stream(buf, stride, 40, 72, n, 0);
        lemma_field_stream(buf, stride, 72, stride, n, 0);
    }
}

/// A renumbered stream holds four bytes for each index record.
pub(crate) proof fn lemma_renumbered_len(b: Seq<u8>, offset: nat, n: nat)
    ensures
        renumbered(b, offset, n).len() == 4 * n,
    decreases n,
{
    if n > 0 {
        lemma_renumbered_len(b, offset, (n - 1) as nat);
    }
}

} // verus!
