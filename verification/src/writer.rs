use vstd::prelude::*;
use crate::batch::RecordBatch;
use crate::codec::{put_i64, put_u32, put_u64, spec_i64_body, spec_u32_body, spec_u64_body};
use crate::crc::{crc32, crc32_of};
use crate::error::Error;
use crate::format::{write_header, spec_header_bytes, Header};
use crate::meta::{encode_meta, spec_meta_bytes, ChunkMeta, ColumnMeta};

verus! {

// The writer produces the complete byte image of a chunk file for one
// batch: header, CRC-guarded meta section, then the three column bodies
// in the fixed order ts, series_id, value. Storing the image at a path
// is the caller's concern.

/// The minimum of a timestamp column; 0 when the column is empty.
pub open spec fn spec_ts_min(ts: Seq<i64>) -> i64
    decreases ts.len(),
{
    if ts.len() == 0 {
        0
    } else if ts.len() == 1 {
        ts[0]
    } else {
        let m = spec_ts_min(ts.drop_last());
        if ts.last() < m {
            ts.last()
        } else {
            m
        }
    }
}

/// The maximum of a timestamp column; 0 when the column is empty.
pub open spec fn spec_ts_max(ts: Seq<i64>) -> i64
    decreases ts.len(),
{
    if ts.len() == 0 {
        0
    } else if ts.len() == 1 {
        ts[0]
    } else {
        let m = spec_ts_max(ts.drop_last());
        if ts.last() > m {
            ts.last()
        } else {
            m
        }
    }
}

/// The three column entries of a written chunk with `n` rows: data
/// starts right after the 16-byte header and the 84-byte meta section.
pub open spec fn spec_chunk_cols(n: nat) -> Seq<ColumnMeta> {
    seq![
        ColumnMeta { col_id: 0, encoding: 0, offset: 100, len: (8 * n) as u64 },
        ColumnMeta { col_id: 1, encoding: 0, offset: (100 + 8 * n) as u64, len: (4 * n) as u64 },
        ColumnMeta { col_id: 2, encoding: 0, offset: (100 + 12 * n) as u64, len: (8 * n) as u64 },
    ]
}

/// The meta section of a written chunk.
pub open spec fn spec_chunk_meta_bytes(ts: Seq<i64>) -> Seq<u8> {
    spec_meta_bytes(ts.len() as u32, spec_ts_min(ts), spec_ts_max(ts), spec_chunk_cols(ts.len()))
}

/// The full byte image of a written chunk.
pub open spec fn spec_chunk_bytes(ts: Seq<i64>, sid: Seq<u32>, val: Seq<u64>) -> Seq<u8> {
    let mb = spec_chunk_meta_bytes(ts);
    spec_header_bytes(Header { meta_len: 84, meta_crc32: crc32_of(mb) }) + mb + spec_i64_body(ts)
        + spec_u32_body(sid) + spec_u64_body(val)
}

/// The meta section length for a chunk of `col_count` columns.
pub fn meta_len_for_cols(col_count: usize) -> (r: usize)
    requires
        24 + 20 * col_count <= usize::MAX,
    ensures
        r == 24 + 20 * col_count,
{
    24 + 20 * col_count
}

/// Encodes one batch as a chunk file image.
///
/// Succeeds exactly on a well-formed batch whose row count fits in u32;
/// a column length mismatch is `Corrupt`, a row count beyond u32 is
/// `Unsupported`. On success the returned bytes are exactly the layout
/// `spec_chunk_bytes` describes.
pub fn write_chunk(batch: &RecordBatch) -> (r: Result<Vec<u8>, Error>)
    ensures
        r is Ok <==> (batch.well_formed() && batch.ts@.len() <= u32::MAX),
        match r {
            Ok(bytes) => bytes@ == spec_chunk_bytes(batch.ts@, batch.series_id@, batch.value@),
            Err(e) => {
                ||| (!batch.well_formed() && e is Corrupt)
                ||| (batch.well_formed() && batch.ts@.len() > u32::MAX && e is Unsupported)
            },
        },
{
    let row_count = batch.ts.len();
    if batch.series_id.len() != row_count || batch.value.len() != row_count {
        return Err(Error::Corrupt("column length mismatch".to_string()));
    }
    if row_count > u32::MAX as usize {
        return Err(Error::Unsupported("row_count exceeds u32".to_string()));
    }

    let mut ts_min: i64 = 0;
    let mut ts_max: i64 = 0;
    if row_count > 0 {
        ts_min = batch.ts[0];
        ts_max = batch.ts[0];
        let mut i: usize = 1;
        while i < row_count
            invariant
                1 <= i <= row_count,
                row_count == batch.ts@.len(),
                ts_min == spec_ts_min(batch.ts@.subrange(0, i as int)),
                ts_max == spec_ts_max(batch.ts@.subrange(0, i as int)),
            decreases row_count - i,
        {
            let ghost pre = batch.ts@.subrange(0, i as int);
            let t = batch.ts[i];
            if t < ts_min {
                ts_min = t;
            }
            if t > ts_max {
                ts_max = t;
            }
            i = i + 1;
            proof {
                let cur = batch.ts@.subrange(0, i as int);
                assert(cur.drop_last() =~= pre);
                assert(cur.last() == t);
            }
        }
        proof {
            assert(batch.ts@.subrange(0, row_count as int) =~= batch.ts@);
        }
    }

    let n64 = row_count as u64;
    let mut cols: Vec<ColumnMeta> = Vec::new();
    cols.push(ColumnMeta { col_id: 0, encoding: 0, offset: 100, len: 8 * n64 });
    cols.push(ColumnMeta { col_id: 1, encoding: 0, offset: 100 + 8 * n64, len: 4 * n64 });
    cols.push(ColumnMeta { col_id: 2, encoding: 0, offset: 100 + 12 * n64, len: 8 * n64 });
    proof {
        assert(cols@ =~= spec_chunk_cols(batch.ts@.len()));
    }

    let meta = ChunkMeta { row_count: row_count as u32, ts_min, ts_max, cols };
    let mut meta_bytes = encode_meta(&meta);
    let meta_len = meta_len_for_cols(3);
    assert(meta_bytes@.len() == meta_len);
    let crc = crc32(meta_bytes.as_slice());
    proof {
        assert(meta_bytes@ == spec_chunk_meta_bytes(batch.ts@));
    }

    let mut out: Vec<u8> = Vec::new();
    write_header(&mut out, &Header { meta_len: meta_len as u32, meta_crc32: crc });
    out.append(&mut meta_bytes);
    let ghost after_meta = out@;

    let mut i: usize = 0;
    while i < row_count
        invariant
            i <= row_count,
            row_count == batch.ts@.len(),
            out@ == after_meta + spec_i64_body(batch.ts@.subrange(0, i as int)),
        decreases row_count - i,
    {
        let ghost pre = batch.ts@.subrange(0, i as int);
        put_i64(&mut out, batch.ts[i]);
        i = i + 1;
        proof {
            let cur = batch.ts@.subrange(0, i as int);
            assert(cur.drop_last() =~= pre);
            assert(out@ =~= after_meta + spec_i64_body(cur));
        }
    }
    proof {
        assert(batch.ts@.subrange(0, row_count as int) =~= batch.ts@);
    }
    let ghost after_ts = out@;

    let mut i: usize = 0;
    while i < row_count
        invariant
            i <= row_count,
            row_count == batch.series_id@.len(),
            out@ == after_ts + spec_u32_body(batch.series_id@.subrange(0, i as int)),
        decreases row_count - i,
    {
        let ghost pre = batch.series_id@.subrange(0, i as int);
        put_u32(&mut out, batch.series_id[i]);
        i = i + 1;
        proof {
            let cur = batch.series_id@.subrange(0, i as int);
            assert(cur.drop_last() =~= pre);
            assert(out@ =~= after_ts + spec_u32_body(cur));
        }
    }
    proof {
        assert(batch.series_id@.subrange(0, row_count as int) =~= batch.series_id@);
    }
    let ghost after_sid = out@;

    let mut i: usize = 0;
    while i < row_count
        invariant
            i <= row_count,
            row_count == batch.value@.len(),
            out@ == after_sid + spec_u64_body(batch.value@.subrange(0, i as int)),
        decreases row_count - i,
    {
        let ghost pre = batch.value@.subrange(0, i as int);
        put_u64(&mut out, batch.value[i]);
        i = i + 1;
        proof {
            let cur = batch.value@.subrange(0, i as int);
            assert(cur.drop_last() =~= pre);
            assert(out@ =~= after_sid + spec_u64_body(cur));
        }
    }
    proof {
        assert(batch.value@.subrange(0, row_count as int) =~= batch.value@);
        assert(out@ =~= spec_chunk_bytes(batch.ts@, batch.series_id@, batch.value@));
    }
    Ok(out)
}

} // verus!
