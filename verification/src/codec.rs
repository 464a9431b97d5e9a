use vstd::prelude::*;
use vstd::bytes::{
    spec_u16_from_le_bytes, spec_u16_to_le_bytes, spec_u32_from_le_bytes, spec_u32_to_le_bytes,
    spec_u64_from_le_bytes, spec_u64_to_le_bytes, u16_from_le_bytes, u16_to_le_bytes,
    u32_from_le_bytes, u32_to_le_bytes, u64_from_le_bytes, u64_to_le_bytes,
    lemma_auto_spec_u16_to_from_le_bytes, lemma_auto_spec_u32_to_from_le_bytes,
    lemma_auto_spec_u64_to_from_le_bytes,
};
use vstd::slice::slice_subrange;

verus! {

// Little-endian field access over a byte image, shared by the header and
// metadata codecs and by the column readers.

pub open spec fn spec_le_u16_at(b: Seq<u8>, off: int) -> u16 {
    spec_u16_from_le_bytes(b.subrange(off, off + 2))
}

pub open spec fn spec_le_u32_at(b: Seq<u8>, off: int) -> u32 {
    spec_u32_from_le_bytes(b.subrange(off, off + 4))
}

pub open spec fn spec_le_u64_at(b: Seq<u8>, off: int) -> u64 {
    spec_u64_from_le_bytes(b.subrange(off, off + 8))
}

pub open spec fn spec_le_i64_at(b: Seq<u8>, off: int) -> i64 {
    spec_le_u64_at(b, off) as i64
}

pub fn le_u16_at(b: &[u8], off: usize) -> (r: u16)
    requires
        off + 2 <= b@.len(),
    ensures
        r == spec_le_u16_at(b@, off as int),
{
    let n: usize = b.len();
    assert(off + 2 <= n);
    u16_from_le_bytes(slice_subrange(b, off, off + 2))
}

pub fn le_u32_at(b: &[u8], off: usize) -> (r: u32)
    requires
        off + 4 <= b@.len(),
    ensures
        r == spec_le_u32_at(b@, off as int),
{
    let n: usize = b.len();
    assert(off + 4 <= n);
    u32_from_le_bytes(slice_subrange(b, off, off + 4))
}

pub fn le_u64_at(b: &[u8], off: usize) -> (r: u64)
    requires
        off + 8 <= b@.len(),
    ensures
        r == spec_le_u64_at(b@, off as int),
{
    let n: usize = b.len();
    assert(off + 8 <= n);
    u64_from_le_bytes(slice_subrange(b, off, off + 8))
}

pub fn le_i64_at(b: &[u8], off: usize) -> (r: i64)
    requires
        off + 8 <= b@.len(),
    ensures
        r == spec_le_i64_at(b@, off as int),
{
    le_u64_at(b, off) as i64
}

pub fn put_u16(out: &mut Vec<u8>, x: u16)
    ensures
        final(out)@ == old(out)@ + spec_u16_to_le_bytes(x),
{
    let mut s = u16_to_le_bytes(x);
    out.append(&mut s);
}

pub fn put_u32(out: &mut Vec<u8>, x: u32)
    ensures
        final(out)@ == old(out)@ + spec_u32_to_le_bytes(x),
{
    let mut s = u32_to_le_bytes(x);
    out.append(&mut s);
}

pub fn put_u64(out: &mut Vec<u8>, x: u64)
    ensures
        final(out)@ == old(out)@ + spec_u64_to_le_bytes(x),
{
    let mut s = u64_to_le_bytes(x);
    out.append(&mut s);
}

pub fn put_i64(out: &mut Vec<u8>, x: i64)
    ensures
        final(out)@ == old(out)@ + spec_u64_to_le_bytes(x as u64),
{
    put_u64(out, x as u64);
}

/// Casting an `i64` through `u64` and back is the identity.
pub proof fn lemma_i64_u64_roundtrip(x: i64)
    ensures
        (x as u64) as i64 == x,
{
    assert((x as u64) as i64 == x) by (bit_vector);
}

// Column bodies: tightly packed little-endian arrays of fixed-width
// values. Timestamps are stored by their two's-complement bit patterns.

pub open spec fn spec_i64_body(s: Seq<i64>) -> Seq<u8>
    decreases s.len(),
{
    if s.len() == 0 {
        Seq::empty()
    } else {
        spec_i64_body(s.drop_last()) + spec_u64_to_le_bytes(s.last() as u64)
    }
}

pub open spec fn spec_u32_body(s: Seq<u32>) -> Seq<u8>
    decreases s.len(),
{
    if s.len() == 0 {
        Seq::empty()
    } else {
        spec_u32_body(s.drop_last()) + spec_u32_to_le_bytes(s.last())
    }
}

pub open spec fn spec_u64_body(s: Seq<u64>) -> Seq<u8>
    decreases s.len(),
{
    if s.len() == 0 {
        Seq::empty()
    } else {
        spec_u64_body(s.drop_last()) + spec_u64_to_le_bytes(s.last())
    }
}

pub proof fn lemma_i64_body_len(s: Seq<i64>)
    ensures
        spec_i64_body(s).len() == 8 * s.len(),
    decreases s.len(),
{
    if s.len() > 0 {
        lemma_i64_body_len(s.drop_last());
        lemma_le_u64_roundtrip(s.last() as u64);
    }
}

pub proof fn lemma_u32_body_len(s: Seq<u32>)
    ensures
        spec_u32_body(s).len() == 4 * s.len(),
    decreases s.len(),
{
    if s.len() > 0 {
        lemma_u32_body_len(s.drop_last());
        lemma_le_u32_roundtrip(s.last());
    }
}

pub proof fn lemma_u64_body_len(s: Seq<u64>)
    ensures
        spec_u64_body(s).len() == 8 * s.len(),
    decreases s.len(),
{
    if s.len() > 0 {
        lemma_u64_body_len(s.drop_last());
        lemma_le_u64_roundtrip(s.last());
    }
}

/// Element `i` of an i64 body reads back as the stored value.
pub proof fn lemma_i64_body_entry(s: Seq<i64>, i: int)
    requires
        0 <= i < s.len(),
    ensures
        spec_i64_body(s).subrange(8 * i, 8 * i + 8) == spec_u64_to_le_bytes(s[i] as u64),
        spec_le_i64_at(spec_i64_body(s), 8 * i) == s[i],
    decreases s.len(),
{
    lemma_i64_body_len(s);
    lemma_i64_body_len(s.drop_last());
    lemma_le_u64_roundtrip(s.last() as u64);
    if i == s.len() - 1 {
        assert(spec_i64_body(s).subrange(8 * i, 8 * i + 8) =~= spec_u64_to_le_bytes(
            s.last() as u64,
        ));
    } else {
        lemma_i64_body_entry(s.drop_last(), i);
        assert(spec_i64_body(s).subrange(8 * i, 8 * i + 8) =~= spec_i64_body(
            s.drop_last(),
        ).subrange(8 * i, 8 * i + 8));
    }
    lemma_le_u64_roundtrip(s[i] as u64);
    lemma_i64_u64_roundtrip(s[i]);
}

/// Element `i` of a u32 body reads back as the stored value.
pub proof fn lemma_u32_body_entry(s: Seq<u32>, i: int)
    requires
        0 <= i < s.len(),
    ensures
        spec_u32_body(s).subrange(4 * i, 4 * i + 4) == spec_u32_to_le_bytes(s[i]),
        spec_le_u32_at(spec_u32_body(s), 4 * i) == s[i],
    decreases s.len(),
{
    lemma_u32_body_len(s);
    lemma_u32_body_len(s.drop_last());
    lemma_le_u32_roundtrip(s.last());
    if i == s.len() - 1 {
        assert(spec_u32_body(s).subrange(4 * i, 4 * i + 4) =~= spec_u32_to_le_bytes(s.last()));
    } else {
        lemma_u32_body_entry(s.drop_last(), i);
        assert(spec_u32_body(s).subrange(4 * i, 4 * i + 4) =~= spec_u32_body(
            s.drop_last(),
        ).subrange(4 * i, 4 * i + 4));
    }
    lemma_le_u32_roundtrip(s[i]);
}

/// Element `i` of a u64 body reads back as the stored value.
pub proof fn lemma_u64_body_entry(s: Seq<u64>, i: int)
    requires
        0 <= i < s.len(),
    ensures
        spec_u64_body(s).subrange(8 * i, 8 * i + 8) == spec_u64_to_le_bytes(s[i]),
        spec_le_u64_at(spec_u64_body(s), 8 * i) == s[i],
    decreases s.len(),
{
    lemma_u64_body_len(s);
    lemma_u64_body_len(s.drop_last());
    lemma_le_u64_roundtrip(s.last());
    if i == s.len() - 1 {
        assert(spec_u64_body(s).subrange(8 * i, 8 * i + 8) =~= spec_u64_to_le_bytes(s.last()));
    } else {
        lemma_u64_body_entry(s.drop_last(), i);
        assert(spec_u64_body(s).subrange(8 * i, 8 * i + 8) =~= spec_u64_body(
            s.drop_last(),
        ).subrange(8 * i, 8 * i + 8));
    }
    lemma_le_u64_roundtrip(s[i]);
}

/// A window into a window of a byte image is a window into the image.
pub proof fn lemma_subrange_at(outer: Seq<u8>, inner: Seq<u8>, base: int, i: int, j: int)
    requires
        0 <= base,
        base + inner.len() <= outer.len(),
        outer.subrange(base, base + inner.len()) == inner,
        0 <= i <= j <= inner.len(),
    ensures
        outer.subrange(base + i, base + j) == inner.subrange(i, j),
{
    assert(outer.subrange(base + i, base + j) =~= inner.subrange(i, j));
}

/// Reading back the bytes just written yields the written value.
pub proof fn lemma_le_u16_roundtrip(x: u16)
    ensures
        spec_u16_to_le_bytes(x).len() == 2,
        spec_u16_from_le_bytes(spec_u16_to_le_bytes(x)) == x,
{
    lemma_auto_spec_u16_to_from_le_bytes();
    assert(spec_u16_to_le_bytes(x).len() == 2);
    assert(spec_u16_from_le_bytes(spec_u16_to_le_bytes(x)) == x);
}

pub proof fn lemma_le_u32_roundtrip(x: u32)
    ensures
        spec_u32_to_le_bytes(x).len() == 4,
        spec_u32_from_le_bytes(spec_u32_to_le_bytes(x)) == x,
{
    lemma_auto_spec_u32_to_from_le_bytes();
    assert(spec_u32_to_le_bytes(x).len() == 4);
    assert(spec_u32_from_le_bytes(spec_u32_to_le_bytes(x)) == x);
}

pub proof fn lemma_le_u64_roundtrip(x: u64)
    ensures
        spec_u64_to_le_bytes(x).len() == 8,
        spec_u64_from_le_bytes(spec_u64_to_le_bytes(x)) == x,
{
    lemma_auto_spec_u64_to_from_le_bytes();
    assert(spec_u64_to_le_bytes(x).len() == 8);
    assert(spec_u64_from_le_bytes(spec_u64_to_le_bytes(x)) == x);
}

} // verus!
