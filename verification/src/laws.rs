use vstd::prelude::*;
use crate::batch::RecordBatch;
use crate::codec::{
    lemma_i64_body_entry, lemma_i64_body_len, lemma_subrange_at, lemma_u32_body_entry,
    lemma_u32_body_len, lemma_u64_body_entry, lemma_u64_body_len, spec_i64_body, spec_u32_body,
    spec_u64_body,
};
use crate::crc::crc32_of;
use crate::format::{lemma_header_roundtrip, spec_header_bytes, spec_header_of, spec_header_ok, Header};
use crate::meta::{lemma_meta_bytes_len, lemma_meta_roundtrip, ChunkMeta};
use crate::reader::{
    read_range_contract_f64, read_range_contract_i64, read_range_contract_u32, spec_batch_col_ok,
    spec_chunk_source_ok, spec_find_col, spec_find_col_last, spec_meta_matches, spec_meta_region,
    spec_read_batch_ok, spec_read_batch_result, ChunkFile,
};
use crate::filter::FilterOp;
use crate::operators::{sat_u64, sat_usize, Operator};
use crate::project::ProjectOp;
use crate::scan::{
    spec_chunk_series, spec_chunk_ts, spec_chunk_value, spec_row_width, spec_sorted,
    spec_time_range_pred, SeqScan,
};
use crate::writer::{spec_chunk_bytes, spec_chunk_cols, spec_chunk_meta_bytes, spec_ts_max, spec_ts_min};

verus! {

// Laws of the storage layer: what holds of every chunk image the writer
// produces, stated over the same spec functions the writer's and
// reader's contracts use.

/// `spec_ts_min` and `spec_ts_max` are the literal minimum and maximum
/// of a non-empty timestamp column.
pub proof fn lemma_ts_min_max_are_extrema(ts: Seq<i64>)
    requires
        ts.len() > 0,
    ensures
        forall|i: int| 0 <= i < ts.len() ==> spec_ts_min(ts) <= ts[i],
        forall|i: int| 0 <= i < ts.len() ==> ts[i] <= spec_ts_max(ts),
        exists|i: int| 0 <= i < ts.len() && ts[i] == spec_ts_min(ts),
        exists|i: int| 0 <= i < ts.len() && ts[i] == spec_ts_max(ts),
    decreases ts.len(),
{
    if ts.len() > 1 {
        lemma_ts_min_max_are_extrema(ts.drop_last());
        let prior = ts.drop_last();
        assert forall|i: int| 0 <= i < ts.len() implies spec_ts_min(ts) <= ts[i] && ts[i]
            <= spec_ts_max(ts) by {
            if i < ts.len() - 1 {
                assert(prior[i] == ts[i]);
            }
        }
        if spec_ts_min(ts) != ts.last() {
            let i = choose|i: int| 0 <= i < prior.len() && prior[i] == spec_ts_min(prior);
            assert(ts[i] == spec_ts_min(ts));
        }
        if spec_ts_max(ts) != ts.last() {
            let i = choose|i: int| 0 <= i < prior.len() && prior[i] == spec_ts_max(prior);
            assert(ts[i] == spec_ts_max(ts));
        }
    } else {
        assert(ts[0] == spec_ts_min(ts));
        assert(ts[0] == spec_ts_max(ts));
    }
}

/// The layout of a written chunk image: a valid header announcing an
/// 84-byte meta section, the meta section itself, then the three column
/// bodies at offsets 100, 100 + 8n and 100 + 12n.
pub proof fn lemma_chunk_layout(ts: Seq<i64>, sid: Seq<u32>, val: Seq<u64>)
    requires
        ts.len() == sid.len(),
        ts.len() == val.len(),
        ts.len() <= u32::MAX,
    ensures
        ({
            let b = spec_chunk_bytes(ts, sid, val);
            let mb = spec_chunk_meta_bytes(ts);
            let n = ts.len() as int;
            &&& b.len() == 100 + 20 * n
            &&& mb.len() == 84
            &&& spec_header_ok(b)
            &&& spec_header_of(b) == Header { meta_len: 84u32, meta_crc32: crc32_of(mb) }
            &&& spec_meta_region(b) == mb
            &&& spec_chunk_source_ok(b)
            &&& b.subrange(100, 100 + 8 * n) == spec_i64_body(ts)
            &&& b.subrange(100 + 8 * n, 100 + 12 * n) == spec_u32_body(sid)
            &&& b.subrange(100 + 12 * n, 100 + 20 * n) == spec_u64_body(val)
        }),
{
    let b = spec_chunk_bytes(ts, sid, val);
    let mb = spec_chunk_meta_bytes(ts);
    let n = ts.len() as int;
    let cols = spec_chunk_cols(ts.len());
    let h = Header { meta_len: 84u32, meta_crc32: crc32_of(mb) };
    assert(cols.len() == 3);
    lemma_meta_bytes_len(ts.len() as u32, spec_ts_min(ts), spec_ts_max(ts), cols);
    lemma_i64_body_len(ts);
    lemma_u32_body_len(sid);
    lemma_u64_body_len(val);
    let rest = mb + spec_i64_body(ts) + spec_u32_body(sid) + spec_u64_body(val);
    assert(b =~= spec_header_bytes(h) + rest);
    lemma_header_roundtrip(h, rest);
    assert(spec_meta_region(b) =~= mb);
    lemma_meta_roundtrip(ts.len() as u32, spec_ts_min(ts), spec_ts_max(ts), cols);
    assert(b.subrange(100, 100 + 8 * n) =~= spec_i64_body(ts));
    assert(b.subrange(100 + 8 * n, 100 + 12 * n) =~= spec_u32_body(sid));
    assert(b.subrange(100 + 12 * n, 100 + 20 * n) =~= spec_u64_body(val));
}

/// The meta decoded from a written chunk carries the batch's row count,
/// the literal minimum and maximum of its timestamps (0 for an empty
/// batch), and the canonical three column entries.
pub proof fn lemma_open_meta_of_written_chunk(
    ts: Seq<i64>,
    sid: Seq<u32>,
    val: Seq<u64>,
    m: ChunkMeta,
)
    requires
        ts.len() == sid.len(),
        ts.len() == val.len(),
        ts.len() <= u32::MAX,
        spec_meta_matches(spec_chunk_bytes(ts, sid, val), m),
    ensures
        spec_chunk_source_ok(spec_chunk_bytes(ts, sid, val)),
        m.row_count == ts.len(),
        m.ts_min == spec_ts_min(ts),
        m.ts_max == spec_ts_max(ts),
        m.cols@ == spec_chunk_cols(ts.len()),
        ts.len() == 0 ==> m.ts_min == 0 && m.ts_max == 0,
        ts.len() > 0 ==> forall|i: int| 0 <= i < ts.len() ==> m.ts_min <= ts[i] && ts[i] <= m.ts_max,
        ts.len() > 0 ==> exists|i: int| 0 <= i < ts.len() && ts[i] == m.ts_min,
        ts.len() > 0 ==> exists|i: int| 0 <= i < ts.len() && ts[i] == m.ts_max,
{
    lemma_chunk_layout(ts, sid, val);
    lemma_meta_roundtrip(
        ts.len() as u32,
        spec_ts_min(ts),
        spec_ts_max(ts),
        spec_chunk_cols(ts.len()),
    );
    if ts.len() > 0 {
        lemma_ts_min_max_are_extrema(ts);
    }
}

/// The three canonical column entries are found under their ids,
/// whether searching from the front or from the back.
proof fn lemma_find_chunk_cols(n: nat)
    ensures
        spec_find_col(spec_chunk_cols(n), 0) == Some(spec_chunk_cols(n)[0]),
        spec_find_col(spec_chunk_cols(n), 1) == Some(spec_chunk_cols(n)[1]),
        spec_find_col(spec_chunk_cols(n), 2) == Some(spec_chunk_cols(n)[2]),
        spec_find_col_last(spec_chunk_cols(n), 0) == Some(spec_chunk_cols(n)[0]),
        spec_find_col_last(spec_chunk_cols(n), 1) == Some(spec_chunk_cols(n)[1]),
        spec_find_col_last(spec_chunk_cols(n), 2) == Some(spec_chunk_cols(n)[2]),
{
    let cols = spec_chunk_cols(n);
    let t1 = cols.subrange(1, 3);
    let t2 = t1.subrange(1, 2);
    assert(cols.len() == 3 && t1.len() == 2 && t2.len() == 1);
    assert(cols[0].col_id == 0 && cols[1].col_id == 1 && cols[2].col_id == 2);
    assert(t1[0] == cols[1] && t1[1] == cols[2]);
    assert(t2[0] == cols[2]);
    assert(spec_find_col(cols, 0) == Some(cols[0]));
    assert(spec_find_col(cols, 1) == spec_find_col(t1, 1));
    assert(spec_find_col(t1, 1) == Some(cols[1]));
    assert(spec_find_col(cols, 2) == spec_find_col(t1, 2));
    assert(spec_find_col(t1, 2) == spec_find_col(t2, 2));
    assert(spec_find_col(t2, 2) == Some(cols[2]));
    let d1 = cols.drop_last();
    let d2 = d1.drop_last();
    assert(cols.last() == cols[2] && d1.len() == 2 && d1.last() == cols[1] && d2.len() == 1
        && d2.last() == cols[0]);
    assert(spec_find_col_last(cols, 2) == Some(cols[2]));
    assert(spec_find_col_last(cols, 1) == spec_find_col_last(d1, 1));
    assert(spec_find_col_last(d1, 1) == Some(cols[1]));
    assert(spec_find_col_last(cols, 0) == spec_find_col_last(d1, 0));
    assert(spec_find_col_last(d1, 0) == spec_find_col_last(d2, 0));
    assert(spec_find_col_last(d2, 0) == Some(cols[0]));
}

/// Writing a well-formed batch and reading the image back in full
/// yields the batch, column by column.
pub proof fn lemma_chunk_roundtrip(
    c: ChunkFile,
    rb: RecordBatch,
    ts: Seq<i64>,
    sid: Seq<u32>,
    val: Seq<u64>,
)
    requires
        ts.len() == sid.len(),
        ts.len() == val.len(),
        ts.len() <= u32::MAX,
        c.wf(),
        c.bytes@ == spec_chunk_bytes(ts, sid, val),
        spec_read_batch_result(c, rb),
    ensures
        spec_read_batch_ok(c),
        rb.ts@ == ts,
        rb.series_id@ == sid,
        rb.value@ == val,
{
    lemma_chunk_layout(ts, sid, val);
    lemma_written_chunk_read_ok(c, ts, sid, val);
    let n = ts.len() as int;
    let b = c.bytes@;
    let cols = spec_chunk_cols(ts.len());
    lemma_find_chunk_cols(ts.len());
    lemma_i64_body_len(ts);
    lemma_u32_body_len(sid);
    lemma_u64_body_len(val);
    assert forall|i: int| 0 <= i < n implies rb.ts@[i] == ts[i] by {
        lemma_subrange_at(b, spec_i64_body(ts), 100, 8 * i, 8 * i + 8);
        lemma_i64_body_entry(ts, i);
    }
    assert forall|i: int| 0 <= i < n implies rb.series_id@[i] == sid[i] by {
        lemma_subrange_at(b, spec_u32_body(sid), 100 + 8 * n, 4 * i, 4 * i + 4);
        lemma_u32_body_entry(sid, i);
    }
    assert forall|i: int| 0 <= i < n implies rb.value@[i] == val[i] by {
        lemma_subrange_at(b, spec_u64_body(val), 100 + 12 * n, 8 * i, 8 * i + 8);
        lemma_u64_body_entry(val, i);
    }
    assert(rb.ts@ =~= ts);
    assert(rb.series_id@ =~= sid);
    assert(rb.value@ =~= val);
}

/// A full-batch read of a written chunk is owed success.
pub proof fn lemma_written_chunk_read_ok(c: ChunkFile, ts: Seq<i64>, sid: Seq<u32>, val: Seq<u64>)
    requires
        ts.len() == sid.len(),
        ts.len() == val.len(),
        ts.len() <= u32::MAX,
        c.wf(),
        c.bytes@ == spec_chunk_bytes(ts, sid, val),
    ensures
        spec_read_batch_ok(c),
        c.meta.cols@ == spec_chunk_cols(ts.len()),
        c.meta.row_count == ts.len(),
{
    lemma_chunk_layout(ts, sid, val);
    lemma_meta_roundtrip(
        ts.len() as u32,
        spec_ts_min(ts),
        spec_ts_max(ts),
        spec_chunk_cols(ts.len()),
    );
    vstd::std_specs::vec::axiom_spec_len(&c.bytes);
    let n = ts.len() as int;
    let b = c.bytes@;
    let cols = spec_chunk_cols(ts.len());
    lemma_find_chunk_cols(ts.len());
    assert(b.len() <= usize::MAX);
    assert(8 * n <= 20 * n && 12 * n <= 20 * n && 4 * n <= 8 * n) by (nonlinear_arith)
        requires
            n >= 0,
    ;
    assert((8 * n) % 8 == 0 && (8 * n) / 8 == n && (4 * n) % 4 == 0 && (4 * n) / 4 == n)
        by (nonlinear_arith)
        requires
            n >= 0,
    ;
    assert forall|j: int| 0 <= j < cols.len() implies spec_batch_col_ok(
        b,
        cols[j],
        n,
        16 + 24 + 20 * (cols.len() as int),
    ) by {
        assert(cols.len() == 3);
        assert(cols[j] == cols[0] || cols[j] == cols[1] || cols[j] == cols[2]);
    }
}

/// A range read of the ts column of a written chunk is owed success and
/// returns exactly the requested slice of the written column.
pub proof fn lemma_range_read_ts(
    c: ChunkFile,
    ts: Seq<i64>,
    sid: Seq<u32>,
    val: Seq<u64>,
    s: int,
    e: int,
    r: Result<Vec<i64>, crate::error::Error>,
)
    requires
        ts.len() == sid.len(),
        ts.len() == val.len(),
        ts.len() <= u32::MAX,
        c.wf(),
        c.bytes@ == spec_chunk_bytes(ts, sid, val),
        0 <= s <= e <= ts.len(),
        read_range_contract_i64(&c, 0, s, e, r),
    ensures
        r is Ok,
        r matches Ok(v) ==> v@ == ts.subrange(s, e),
{
    lemma_chunk_layout(ts, sid, val);
    lemma_written_chunk_read_ok(c, ts, sid, val);
    vstd::std_specs::vec::axiom_spec_len(&c.bytes);
    let n = ts.len() as int;
    let b = c.bytes@;
    lemma_find_chunk_cols(ts.len());
    lemma_i64_body_len(ts);
    assert(8 * e <= 8 * n && 8 * n <= 20 * n) by (nonlinear_arith)
        requires
            0 <= e <= n,
    ;
    if let Ok(v) = r {
        assert forall|i: int| 0 <= i < e - s implies v@[i] == ts[s + i] by {
            lemma_subrange_at(b, spec_i64_body(ts), 100, 8 * (s + i), 8 * (s + i) + 8);
            lemma_i64_body_entry(ts, s + i);
        }
        assert(v@ =~= ts.subrange(s, e));
    }
}

/// A range read of the series_id column of a written chunk is owed
/// success and returns exactly the requested slice.
pub proof fn lemma_range_read_series(
    c: ChunkFile,
    ts: Seq<i64>,
    sid: Seq<u32>,
    val: Seq<u64>,
    s: int,
    e: int,
    r: Result<Vec<u32>, crate::error::Error>,
)
    requires
        ts.len() == sid.len(),
        ts.len() == val.len(),
        ts.len() <= u32::MAX,
        c.wf(),
        c.bytes@ == spec_chunk_bytes(ts, sid, val),
        0 <= s <= e <= ts.len(),
        read_range_contract_u32(&c, 1, s, e, r),
    ensures
        r is Ok,
        r matches Ok(v) ==> v@ == sid.subrange(s, e),
{
    lemma_chunk_layout(ts, sid, val);
    lemma_written_chunk_read_ok(c, ts, sid, val);
    vstd::std_specs::vec::axiom_spec_len(&c.bytes);
    let n = ts.len() as int;
    let b = c.bytes@;
    lemma_find_chunk_cols(ts.len());
    lemma_u32_body_len(sid);
    assert(4 * e <= 4 * n && 12 * n <= 20 * n) by (nonlinear_arith)
        requires
            0 <= e <= n,
    ;
    if let Ok(v) = r {
        assert forall|i: int| 0 <= i < e - s implies v@[i] == sid[s + i] by {
            lemma_subrange_at(b, spec_u32_body(sid), 100 + 8 * n, 4 * (s + i), 4 * (s + i) + 4);
            lemma_u32_body_entry(sid, s + i);
        }
        assert(v@ =~= sid.subrange(s, e));
    }
}

/// A range read of the value column of a written chunk is owed success
/// and returns exactly the requested slice of bit patterns.
pub proof fn lemma_range_read_value(
    c: ChunkFile,
    ts: Seq<i64>,
    sid: Seq<u32>,
    val: Seq<u64>,
    s: int,
    e: int,
    r: Result<Vec<u64>, crate::error::Error>,
)
    requires
        ts.len() == sid.len(),
        ts.len() == val.len(),
        ts.len() <= u32::MAX,
        c.wf(),
        c.bytes@ == spec_chunk_bytes(ts, sid, val),
        0 <= s <= e <= ts.len(),
        read_range_contract_f64(&c, 2, s, e, r),
    ensures
        r is Ok,
        r matches Ok(v) ==> v@ == val.subrange(s, e),
{
    lemma_chunk_layout(ts, sid, val);
    lemma_written_chunk_read_ok(c, ts, sid, val);
    vstd::std_specs::vec::axiom_spec_len(&c.bytes);
    let n = ts.len() as int;
    let b = c.bytes@;
    lemma_find_chunk_cols(ts.len());
    lemma_u64_body_len(val);
    assert(8 * e <= 8 * n && 12 * n + 8 * n <= 20 * n) by (nonlinear_arith)
        requires
            0 <= e <= n,
    ;
    if let Ok(v) = r {
        assert forall|i: int| 0 <= i < e - s implies v@[i] == val[s + i] by {
            lemma_subrange_at(b, spec_u64_body(val), 100 + 12 * n, 8 * (s + i), 8 * (s + i) + 8);
            lemma_u64_body_entry(val, s + i);
        }
        assert(v@ =~= val.subrange(s, e));
    }
}

/// The column sequences a written chunk serves are the written
/// columns themselves.
pub proof fn lemma_written_chunk_columns(c: ChunkFile, ts: Seq<i64>, sid: Seq<u32>, val: Seq<u64>)
    requires
        ts.len() == sid.len(),
        ts.len() == val.len(),
        ts.len() <= u32::MAX,
        c.wf(),
        c.bytes@ == spec_chunk_bytes(ts, sid, val),
    ensures
        spec_chunk_ts(c) == ts,
        spec_chunk_series(c) == sid,
        spec_chunk_value(c) == val,
{
    lemma_chunk_layout(ts, sid, val);
    lemma_written_chunk_read_ok(c, ts, sid, val);
    let n = ts.len() as int;
    let b = c.bytes@;
    lemma_find_chunk_cols(ts.len());
    lemma_i64_body_len(ts);
    lemma_u32_body_len(sid);
    lemma_u64_body_len(val);
    assert forall|i: int| 0 <= i < n implies spec_chunk_ts(c)[i] == ts[i] by {
        lemma_subrange_at(b, spec_i64_body(ts), 100, 8 * i, 8 * i + 8);
        lemma_i64_body_entry(ts, i);
    }
    assert forall|i: int| 0 <= i < n implies spec_chunk_series(c)[i] == sid[i] by {
        lemma_subrange_at(b, spec_u32_body(sid), 100 + 8 * n, 4 * i, 4 * i + 4);
        lemma_u32_body_entry(sid, i);
    }
    assert forall|i: int| 0 <= i < n implies spec_chunk_value(c)[i] == val[i] by {
        lemma_subrange_at(b, spec_u64_body(val), 100 + 12 * n, 8 * i, 8 * i + 8);
        lemma_u64_body_entry(val, i);
    }
    assert(spec_chunk_ts(c) =~= ts);
    assert(spec_chunk_series(c) =~= sid);
    assert(spec_chunk_value(c) =~= val);
}

/// Filtering keeps exactly a contiguous window when the rows inside
/// the window all match and the rows outside all fail.
pub proof fn lemma_contiguous_filter(ts: Seq<i64>, lo: int, hi: int, pred: spec_fn(i64) -> bool)
    requires
        0 <= lo <= hi <= ts.len(),
        forall|i: int| lo <= i < hi ==> pred(ts[i]),
        forall|i: int| 0 <= i < lo ==> !pred(ts[i]),
        forall|i: int| hi <= i < ts.len() ==> !pred(ts[i]),
    ensures
        ts.filter(pred) == ts.subrange(lo, hi),
    decreases ts.len(),
{
    reveal(Seq::filter);
    let n = ts.len() as int;
    if n == 0 {
        assert(ts.filter(pred) =~= ts.subrange(lo, hi));
    } else {
        let pre = ts.drop_last();
        assert(forall|i: int| 0 <= i < n - 1 ==> pre[i] == ts[i]);
        if hi == n {
            if lo == n {
                lemma_contiguous_filter(pre, n - 1, n - 1, pred);
                assert(ts.filter(pred) =~= ts.subrange(lo, hi));
            } else {
                lemma_contiguous_filter(pre, lo, n - 1, pred);
                assert(ts.filter(pred) =~= pre.subrange(lo, n - 1).push(ts.last()));
                assert(ts.filter(pred) =~= ts.subrange(lo, hi));
            }
        } else {
            lemma_contiguous_filter(pre, lo, hi, pred);
            assert(pre.subrange(lo, hi) =~= ts.subrange(lo, hi));
        }
    }
}

/// For a scan over a written chunk with sorted timestamps, the
/// concatenation of all emitted batches is exactly the rows whose
/// timestamps lie in `[t0, t1)`: the timestamp stream equals the
/// filtered column, and every kept column streams the same row window.
pub proof fn lemma_scan_stream_is_time_range(
    s: SeqScan,
    ts: Seq<i64>,
    sid: Seq<u32>,
    val: Seq<u64>,
)
    requires
        ts.len() == sid.len(),
        ts.len() == val.len(),
        ts.len() <= u32::MAX,
        s.file.wf(),
        s.file.bytes@ == spec_chunk_bytes(ts, sid, val),
        spec_sorted(ts),
        s.t0 <= s.t1,
        s.inv(),
        s.finished(),
        s.skipped == SeqScan::spec_pruned(s.t0, s.t1, s.file.meta.ts_min, s.file.meta.ts_max),
        !s.skipped ==> {
            &&& (forall|i: int| 0 <= i < s.lo ==> spec_chunk_ts(s.file)[i] < s.t0)
            &&& (forall|i: int|
                s.lo <= i < s.file.meta.row_count ==> spec_chunk_ts(s.file)[i] >= s.t0)
            &&& (forall|i: int| 0 <= i < s.hi ==> spec_chunk_ts(s.file)[i] < s.t1)
            &&& (forall|i: int|
                s.hi <= i < s.file.meta.row_count ==> spec_chunk_ts(s.file)[i] >= s.t1)
        },
    ensures
        s.cols.ts ==> s.out_ts() == ts.filter(spec_time_range_pred(s.t0, s.t1)),
        s.skipped ==> {
            &&& s.out_ts() == Seq::<i64>::empty()
            &&& s.out_series() == Seq::<u32>::empty()
            &&& s.out_value() == Seq::<u64>::empty()
            &&& forall|i: int|
                0 <= i < ts.len() ==> !spec_time_range_pred(s.t0, s.t1)(ts[i])
        },
        !s.skipped ==> {
            &&& s.lo <= s.hi <= ts.len()
            &&& (forall|i: int|
                0 <= i < ts.len() ==> (spec_time_range_pred(s.t0, s.t1)(ts[i]) <==> s.lo <= i
                    < s.hi))
            &&& (s.cols.ts ==> s.out_ts() == ts.subrange(s.lo as int, s.hi as int))
            &&& (s.cols.series_id ==> s.out_series() == sid.subrange(s.lo as int, s.hi as int))
            &&& (s.cols.value ==> s.out_value() == val.subrange(s.lo as int, s.hi as int))
        },
{
    lemma_written_chunk_columns(s.file, ts, sid, val);
    lemma_written_chunk_read_ok(s.file, ts, sid, val);
    let n = ts.len() as int;
    let pred = spec_time_range_pred(s.t0, s.t1);
    if s.skipped {
        if ts.len() > 0 {
            lemma_ts_min_max_are_extrema(ts);
            lemma_open_meta_of_written_chunk(ts, sid, val, s.file.meta);
            assert forall|i: int| 0 <= i < n implies !pred(ts[i]) by {
                assert(s.file.meta.ts_min <= ts[i] <= s.file.meta.ts_max);
            }
        }
        assert(s.out_ts() =~= Seq::<i64>::empty());
        assert(s.out_series() =~= Seq::<u32>::empty());
        assert(s.out_value() =~= Seq::<u64>::empty());
        lemma_contiguous_filter(ts, 0, 0, pred);
        assert(ts.subrange(0, 0) =~= Seq::<i64>::empty());
        if s.cols.ts {
            assert(s.out_ts() == ts.filter(pred));
        }
    } else {
        assert(s.file.meta.row_count == n);
        if s.hi < s.lo {
            assert(spec_chunk_ts(s.file)[s.hi as int] < s.t0);
            assert(spec_chunk_ts(s.file)[s.hi as int] >= s.t1);
            assert(false);
        }
        assert(s.lo <= s.hi);
        if s.cur == s.lo && s.lo < s.hi {
            assert(!s.finished());
            assert(false);
        }
        assert(s.cur == s.hi);
        assert forall|i: int| 0 <= i < n implies (pred(ts[i]) <==> s.lo <= i < s.hi) by {
            assert(ts[i] == spec_chunk_ts(s.file)[i]);
        }
        lemma_contiguous_filter(ts, s.lo as int, s.hi as int, pred);
        if s.cols.ts {
            assert(s.out_ts() =~= ts.subrange(s.lo as int, s.hi as int));
        }
        if s.cols.series_id {
            assert(s.out_series() =~= sid.subrange(s.lo as int, s.hi as int));
        }
        if s.cols.value {
            assert(s.out_value() =~= val.subrange(s.lo as int, s.hi as int));
        }
    }
}

/// A scan's counters track its stream at every point, end-of-stream
/// included: `output_rows` is the total of rows returned and
/// `bytes_read` the column bytes transferred, each frozen at its
/// counter's width instead of wrapping.
pub proof fn lemma_scan_stats(s: SeqScan)
    requires
        s.inv(),
    ensures
        s.stats.output_rows == sat_usize(s.out_ts().len() as int),
        s.stats.bytes_read == s.bytes_read,
        s.bytes_read == sat_u64(spec_row_width(s.cols) * (s.cur - s.lo)),
        s.stats.input_rows == 0,
{
}

/// A filter's counters track its streams: rows pulled in and rows
/// emitted.
pub proof fn lemma_filter_stats<C: Operator>(f: FilterOp<C>)
    requires
        f.inv(),
    ensures
        f.stats.input_rows == sat_usize(f.seen@.ts.len() as int),
        f.stats.output_rows == sat_usize(f.out_ts().len() as int),
        f.stats.bytes_read == 0,
{
}

/// A projection's counters track its streams: rows pulled in and the
/// rows of the first kept column emitted.
pub proof fn lemma_project_stats<C: Operator>(p: ProjectOp<C>)
    requires
        p.inv(),
    ensures
        p.stats.input_rows == sat_usize(p.child.out_ts().len() - p.base_ts@),
        p.stats.output_rows == sat_usize(p.spec_out_len()),
        p.stats.bytes_read == 0,
{
}

/// A scan opened over a written chunk is ready: every remaining batch
/// is owed, whatever columns the mask requests.
pub proof fn lemma_scan_ready(s: SeqScan, ts: Seq<i64>, sid: Seq<u32>, val: Seq<u64>)
    requires
        ts.len() == sid.len(),
        ts.len() == val.len(),
        ts.len() <= u32::MAX,
        s.file.wf(),
        s.file.bytes@ == spec_chunk_bytes(ts, sid, val),
        s.inv(),
    ensures
        s.ready(),
{
    lemma_chunk_layout(ts, sid, val);
    lemma_written_chunk_read_ok(s.file, ts, sid, val);
    lemma_find_chunk_cols(ts.len());
    vstd::std_specs::vec::axiom_spec_len(&s.file.bytes);
    let n = ts.len() as int;
    let hi = s.hi as int;
    assert(hi <= n);
    assert(8 * hi <= 8 * n && 4 * hi <= 4 * n && 4 * n <= 8 * n && 8 * n <= 20 * n)
        by (nonlinear_arith)
        requires
            0 <= hi <= n,
    ;
}

} // verus!
