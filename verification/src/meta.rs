use vstd::prelude::*;
use vstd::bytes::{spec_u16_to_le_bytes, spec_u32_to_le_bytes, spec_u64_to_le_bytes};
use crate::codec::{
    le_i64_at, le_u16_at, le_u32_at, le_u64_at, put_i64, put_u16, put_u32, put_u64,
    spec_le_i64_at, spec_le_u16_at, spec_le_u32_at, spec_le_u64_at,
    lemma_i64_u64_roundtrip, lemma_le_u16_roundtrip, lemma_le_u32_roundtrip,
    lemma_le_u64_roundtrip,
};
use crate::error::Error;

verus! {

// Chunk metadata: a fixed 24-byte base followed by one 20-byte entry
// per column, all integers little-endian.
//   row_count : u32
//   ts_min    : i64
//   ts_max    : i64
//   col_count : u32
//   per column: col_id u16, encoding u16, offset u64, len u64

pub const META_BASE_LEN: usize = 24;

pub const META_COL_LEN: usize = 20;

#[derive(Debug, Clone, Copy, PartialEq, Eq, Structural)]
pub struct ColumnMeta {
    pub col_id: u16,
    pub encoding: u16,
    pub offset: u64,
    pub len: u64,
}

#[derive(Debug, Clone)]
pub struct ChunkMeta {
    pub row_count: u32,
    pub ts_min: i64,
    pub ts_max: i64,
    pub cols: Vec<ColumnMeta>,
}

/// The 20-byte encoding of one column entry.
pub open spec fn spec_col_bytes(c: ColumnMeta) -> Seq<u8> {
    spec_u16_to_le_bytes(c.col_id) + spec_u16_to_le_bytes(c.encoding)
        + spec_u64_to_le_bytes(c.offset) + spec_u64_to_le_bytes(c.len)
}

/// The concatenated encodings of a column list.
pub open spec fn spec_cols_bytes(cols: Seq<ColumnMeta>) -> Seq<u8>
    decreases cols.len(),
{
    if cols.len() == 0 {
        Seq::empty()
    } else {
        spec_cols_bytes(cols.drop_last()) + spec_col_bytes(cols.last())
    }
}

/// The full meta-section encoding.
pub open spec fn spec_meta_bytes(rc: u32, ts_min: i64, ts_max: i64, cols: Seq<ColumnMeta>) -> Seq<
    u8,
> {
    spec_u32_to_le_bytes(rc) + spec_u64_to_le_bytes(ts_min as u64)
        + spec_u64_to_le_bytes(ts_max as u64) + spec_u32_to_le_bytes(cols.len() as u32)
        + spec_cols_bytes(cols)
}

/// The column entry decoded at byte offset `off`.
pub open spec fn spec_decode_col(b: Seq<u8>, off: int) -> ColumnMeta {
    ColumnMeta {
        col_id: spec_le_u16_at(b, off),
        encoding: spec_le_u16_at(b, off + 2),
        offset: spec_le_u64_at(b, off + 4),
        len: spec_le_u64_at(b, off + 12),
    }
}

/// The `n` column entries decoded after the 24-byte base.
pub open spec fn spec_decode_cols(b: Seq<u8>, n: int) -> Seq<ColumnMeta> {
    Seq::new(n as nat, |i: int| spec_decode_col(b, 24 + 20 * i))
}

/// A meta buffer decodes successfully: it holds the base and exactly
/// the entries its own column count announces.
pub open spec fn spec_meta_ok(b: Seq<u8>) -> bool {
    &&& b.len() >= 24
    &&& b.len() == 24 + 20 * (spec_le_u32_at(b, 20) as int)
}

pub open spec fn spec_decoded_row_count(b: Seq<u8>) -> u32 {
    spec_le_u32_at(b, 0)
}

pub open spec fn spec_decoded_ts_min(b: Seq<u8>) -> i64 {
    spec_le_i64_at(b, 4)
}

pub open spec fn spec_decoded_ts_max(b: Seq<u8>) -> i64 {
    spec_le_i64_at(b, 12)
}

pub open spec fn spec_decoded_cols(b: Seq<u8>) -> Seq<ColumnMeta> {
    spec_decode_cols(b, spec_le_u32_at(b, 20) as int)
}

/// Encodes a chunk meta into its byte form.
pub fn encode_meta(meta: &ChunkMeta) -> (r: Vec<u8>)
    requires
        meta.cols@.len() <= u32::MAX,
    ensures
        r@ == spec_meta_bytes(meta.row_count, meta.ts_min, meta.ts_max, meta.cols@),
        r@.len() == 24 + 20 * meta.cols@.len(),
{
    let mut buf: Vec<u8> = Vec::new();
    put_u32(&mut buf, meta.row_count);
    put_i64(&mut buf, meta.ts_min);
    put_i64(&mut buf, meta.ts_max);
    let col_count = meta.cols.len() as u32;
    put_u32(&mut buf, col_count);
    let ghost base = buf@;
    let mut i: usize = 0;
    while i < meta.cols.len()
        invariant
            i <= meta.cols@.len(),
            buf@ == base + spec_cols_bytes(meta.cols@.subrange(0, i as int)),
        decreases meta.cols@.len() - i,
    {
        let c = meta.cols[i];
        let ghost before = buf@;
        put_u16(&mut buf, c.col_id);
        put_u16(&mut buf, c.encoding);
        put_u64(&mut buf, c.offset);
        put_u64(&mut buf, c.len);
        i = i + 1;
        proof {
            let pre = meta.cols@.subrange(0, i as int);
            assert(pre.drop_last() =~= meta.cols@.subrange(0, i - 1));
            assert(pre.last() == c);
            assert(buf@ =~= before + spec_col_bytes(c));
            assert(buf@ =~= base + spec_cols_bytes(pre));
        }
    }
    proof {
        assert(meta.cols@.subrange(0, meta.cols@.len() as int) =~= meta.cols@);
        lemma_meta_bytes_len(meta.row_count, meta.ts_min, meta.ts_max, meta.cols@);
        assert(buf@ =~= spec_meta_bytes(meta.row_count, meta.ts_min, meta.ts_max, meta.cols@));
    }
    buf
}

/// Decodes a meta buffer, validating that the buffer length agrees
/// exactly with the announced column count.
pub fn decode_meta(buf: &[u8]) -> (r: Result<ChunkMeta, Error>)
    ensures
        r is Ok <==> spec_meta_ok(buf@),
        match r {
            Ok(m) => {
                &&& m.row_count == spec_decoded_row_count(buf@)
                &&& m.ts_min == spec_decoded_ts_min(buf@)
                &&& m.ts_max == spec_decoded_ts_max(buf@)
                &&& m.cols@ == spec_decoded_cols(buf@)
            },
            Err(e) => e is Corrupt,
        },
{
    if buf.len() < 24 {
        return Err(Error::Corrupt("meta too short".to_string()));
    }
    let row_count = le_u32_at(buf, 0);
    let ts_min = le_i64_at(buf, 4);
    let ts_max = le_i64_at(buf, 12);
    let col_count = le_u32_at(buf, 20);

    let col_count_usize = col_count as usize;
    let cols_len = match col_count_usize.checked_mul(20) {
        Some(v) => v,
        None => {
            return Err(Error::Corrupt("col_count too large".to_string()));
        },
    };
    let expected_len = match cols_len.checked_add(24) {
        Some(v) => v,
        None => {
            return Err(Error::Corrupt("meta length overflow".to_string()));
        },
    };
    let buf_len: usize = buf.len();
    if buf_len != expected_len {
        return Err(Error::Corrupt("meta length mismatch".to_string()));
    }

    let mut cols: Vec<ColumnMeta> = Vec::new();
    let mut i: usize = 0;
    while i < col_count_usize
        invariant
            i <= col_count_usize,
            buf@.len() == buf_len,
            buf_len == 24 + 20 * col_count_usize,
            cols@ == spec_decode_cols(buf@, i as int),
        decreases col_count_usize - i,
    {
        let off = 24 + 20 * i;
        let col_id = le_u16_at(buf, off);
        let encoding = le_u16_at(buf, off + 2);
        let offset = le_u64_at(buf, off + 4);
        let len = le_u64_at(buf, off + 12);
        cols.push(ColumnMeta { col_id, encoding, offset, len });
        i = i + 1;
        proof {
            assert(cols@ =~= spec_decode_cols(buf@, i as int));
        }
    }
    Ok(ChunkMeta { row_count, ts_min, ts_max, cols })
}

/// The concatenated column encodings occupy 20 bytes per entry.
pub proof fn lemma_cols_bytes_len(cols: Seq<ColumnMeta>)
    ensures
        spec_cols_bytes(cols).len() == 20 * cols.len(),
    decreases cols.len(),
{
    if cols.len() > 0 {
        lemma_cols_bytes_len(cols.drop_last());
        lemma_col_bytes_len(cols.last());
    }
}

/// One column entry encodes to 20 bytes.
pub proof fn lemma_col_bytes_len(c: ColumnMeta)
    ensures
        spec_col_bytes(c).len() == 20,
{
    lemma_le_u16_roundtrip(c.col_id);
    lemma_le_u16_roundtrip(c.encoding);
    lemma_le_u64_roundtrip(c.offset);
    lemma_le_u64_roundtrip(c.len);
}

/// The meta section encodes to its deterministic length.
pub proof fn lemma_meta_bytes_len(rc: u32, ts_min: i64, ts_max: i64, cols: Seq<ColumnMeta>)
    ensures
        spec_meta_bytes(rc, ts_min, ts_max, cols).len() == 24 + 20 * cols.len(),
{
    lemma_le_u32_roundtrip(rc);
    lemma_le_u32_roundtrip(cols.len() as u32);
    lemma_le_u64_roundtrip(ts_min as u64);
    lemma_le_u64_roundtrip(ts_max as u64);
    lemma_cols_bytes_len(cols);
}

/// Entry `i` of the concatenated column encodings sits at byte offset
/// `20 * i`.
pub proof fn lemma_cols_bytes_entry(cols: Seq<ColumnMeta>, i: int)
    requires
        0 <= i < cols.len(),
    ensures
        spec_cols_bytes(cols).subrange(20 * i, 20 * i + 20) == spec_col_bytes(cols[i]),
    decreases cols.len(),
{
    lemma_cols_bytes_len(cols);
    lemma_cols_bytes_len(cols.drop_last());
    if i == cols.len() - 1 {
        assert(spec_cols_bytes(cols).subrange(20 * i, 20 * i + 20) =~= spec_col_bytes(
            cols.last(),
        ));
    } else {
        lemma_cols_bytes_entry(cols.drop_last(), i);
        assert(spec_cols_bytes(cols).subrange(20 * i, 20 * i + 20) =~= spec_cols_bytes(
            cols.drop_last(),
        ).subrange(20 * i, 20 * i + 20));
    }
}

/// Decoding an encoded column entry yields the entry.
pub proof fn lemma_col_roundtrip(b: Seq<u8>, off: int, c: ColumnMeta)
    requires
        0 <= off,
        off + 20 <= b.len(),
        b.subrange(off, off + 20) == spec_col_bytes(c),
    ensures
        spec_decode_col(b, off) == c,
{
    lemma_le_u16_roundtrip(c.col_id);
    lemma_le_u16_roundtrip(c.encoding);
    lemma_le_u64_roundtrip(c.offset);
    lemma_le_u64_roundtrip(c.len);
    let piece = b.subrange(off, off + 20);
    assert(b.subrange(off, off + 2) =~= piece.subrange(0, 2));
    assert(b.subrange(off + 2, off + 4) =~= piece.subrange(2, 4));
    assert(b.subrange(off + 4, off + 12) =~= piece.subrange(4, 12));
    assert(b.subrange(off + 12, off + 20) =~= piece.subrange(12, 20));
    assert(piece.subrange(0, 2) =~= spec_u16_to_le_bytes(c.col_id));
    assert(piece.subrange(2, 4) =~= spec_u16_to_le_bytes(c.encoding));
    assert(piece.subrange(4, 12) =~= spec_u64_to_le_bytes(c.offset));
    assert(piece.subrange(12, 20) =~= spec_u64_to_le_bytes(c.len));
}

/// Decoding an encoded meta yields the encoded fields.
pub proof fn lemma_meta_roundtrip(rc: u32, ts_min: i64, ts_max: i64, cols: Seq<ColumnMeta>)
    requires
        cols.len() <= u32::MAX,
    ensures
        spec_meta_ok(spec_meta_bytes(rc, ts_min, ts_max, cols)),
        spec_decoded_row_count(spec_meta_bytes(rc, ts_min, ts_max, cols)) == rc,
        spec_decoded_ts_min(spec_meta_bytes(rc, ts_min, ts_max, cols)) == ts_min,
        spec_decoded_ts_max(spec_meta_bytes(rc, ts_min, ts_max, cols)) == ts_max,
        spec_decoded_cols(spec_meta_bytes(rc, ts_min, ts_max, cols)) == cols,
        spec_meta_bytes(rc, ts_min, ts_max, cols).len() == 24 + 20 * cols.len(),
{
    let b = spec_meta_bytes(rc, ts_min, ts_max, cols);
    lemma_cols_bytes_len(cols);
    lemma_le_u32_roundtrip(rc);
    lemma_le_u32_roundtrip(cols.len() as u32);
    lemma_le_u64_roundtrip(ts_min as u64);
    lemma_le_u64_roundtrip(ts_max as u64);
    lemma_i64_u64_roundtrip(ts_min);
    lemma_i64_u64_roundtrip(ts_max);
    assert(b.subrange(0, 4) =~= spec_u32_to_le_bytes(rc));
    assert(b.subrange(4, 12) =~= spec_u64_to_le_bytes(ts_min as u64));
    assert(b.subrange(12, 20) =~= spec_u64_to_le_bytes(ts_max as u64));
    assert(b.subrange(20, 24) =~= spec_u32_to_le_bytes(cols.len() as u32));
    assert(spec_le_u32_at(b, 20) == cols.len() as u32);
    assert forall|i: int| 0 <= i < cols.len() implies spec_decode_col(b, 24 + 20 * i)
        == cols[i] by {
        lemma_cols_bytes_entry(cols, i);
        assert(b.subrange(24 + 20 * i, 24 + 20 * i + 20) =~= spec_cols_bytes(cols).subrange(
            20 * i,
            20 * i + 20,
        ));
        lemma_col_roundtrip(b, 24 + 20 * i, cols[i]);
    }
    assert(spec_decoded_cols(b) =~= cols);
}

} // verus!
