use vstd::prelude::*;
use vstd::string::StringExecFns;
use crate::batch::RecordBatch;
use crate::codec::{spec_le_i64_at, spec_le_u32_at, spec_le_u64_at};
use crate::error::Error;
use crate::expr::Pred;
use crate::operators::{
    child_indent, sat_add_u64, sat_add_usize, sat_u64, sat_usize, OpStats, Operator,
};
use crate::reader::{
    open_chunk, spec_chunk_source_ok, spec_find_col, spec_range_in_file, spec_range_ok,
    spec_range_pos_ok, ChunkFile,
};
use crate::render::{fmt_i64, fmt_usize, spec_dec_i64, spec_dec_usize, spec_spaces, spaces};

verus! {

/// The column mask of a scan.
#[derive(Debug, Clone, Copy, PartialEq, Eq, Structural)]
pub struct Cols {
    pub ts: bool,
    pub series_id: bool,
    pub value: bool,
}

/// The rendering of a column mask: the kept names in schema order,
/// comma-separated; `none` when empty.
pub open spec fn spec_cols_describe(ts: bool, series_id: bool, value: bool) -> Seq<char> {
    if ts && series_id && value {
        "ts,series_id,value"@
    } else if ts && series_id {
        "ts,series_id"@
    } else if ts && value {
        "ts,value"@
    } else if ts {
        "ts"@
    } else if series_id && value {
        "series_id,value"@
    } else if series_id {
        "series_id"@
    } else if value {
        "value"@
    } else {
        "none"@
    }
}

impl Cols {
    /// All three columns.
    pub fn all() -> (r: Self)
        ensures
            r == (Cols { ts: true, series_id: true, value: true }),
    {
        Cols { ts: true, series_id: true, value: true }
    }

    /// Timestamps and values only.
    pub fn ts_value() -> (r: Self)
        ensures
            r == (Cols { ts: true, series_id: false, value: true }),
    {
        Cols { ts: true, series_id: false, value: true }
    }

    /// The kept column names, for `explain`.
    pub fn describe(&self) -> (r: String)
        ensures
            r@ == spec_cols_describe(self.ts, self.series_id, self.value),
    {
        if self.ts && self.series_id && self.value {
            String::from_str("ts,series_id,value")
        } else if self.ts && self.series_id {
            String::from_str("ts,series_id")
        } else if self.ts && self.value {
            String::from_str("ts,value")
        } else if self.ts {
            String::from_str("ts")
        } else if self.series_id && self.value {
            String::from_str("series_id,value")
        } else if self.series_id {
            String::from_str("series_id")
        } else if self.value {
            String::from_str("value")
        } else {
            String::from_str("none")
        }
    }
}

/// The ts column of a chunk, element by element as stored.
pub open spec fn spec_chunk_ts(f: ChunkFile) -> Seq<i64> {
    match spec_find_col(f.meta.cols@, 0) {
        Some(c) => Seq::new(
            f.meta.row_count as nat,
            |i: int| spec_le_i64_at(f.bytes@, c.offset + 8 * i),
        ),
        None => Seq::empty(),
    }
}

/// The series_id column of a chunk.
pub open spec fn spec_chunk_series(f: ChunkFile) -> Seq<u32> {
    match spec_find_col(f.meta.cols@, 1) {
        Some(c) => Seq::new(
            f.meta.row_count as nat,
            |i: int| spec_le_u32_at(f.bytes@, c.offset + 4 * i),
        ),
        None => Seq::empty(),
    }
}

/// The value column of a chunk, as bit patterns.
pub open spec fn spec_chunk_value(f: ChunkFile) -> Seq<u64> {
    match spec_find_col(f.meta.cols@, 2) {
        Some(c) => Seq::new(
            f.meta.row_count as nat,
            |i: int| spec_le_u64_at(f.bytes@, c.offset + 8 * i),
        ),
        None => Seq::empty(),
    }
}

/// The decoded meta a chunk image announces, read straight off the
/// bytes: what `open` prunes and probes against.
pub open spec fn spec_image_ts_min(b: Seq<u8>) -> i64 {
    crate::meta::spec_decoded_ts_min(crate::reader::spec_meta_region(b))
}

pub open spec fn spec_image_ts_max(b: Seq<u8>) -> i64 {
    crate::meta::spec_decoded_ts_max(crate::reader::spec_meta_region(b))
}

/// The ts column the image announces is present, plainly encoded and
/// wholly inside the image, so every row's timestamp can be probed.
pub open spec fn spec_image_ts_readable(b: Seq<u8>) -> bool {
    match spec_find_col(
        crate::meta::spec_decoded_cols(crate::reader::spec_meta_region(b)),
        0,
    ) {
        Some(c) => c.encoding == 0 && c.offset + 8 * (crate::meta::spec_decoded_row_count(
            crate::reader::spec_meta_region(b),
        ) as int) <= b.len(),
        None => false,
    }
}

/// The ts column is present, plainly encoded and wholly inside the
/// image, so that every row's timestamp can be probed.
pub open spec fn spec_ts_readable(f: ChunkFile) -> bool {
    match spec_find_col(f.meta.cols@, 0) {
        Some(c) => c.encoding == 0 && c.offset + 8 * (f.meta.row_count as int) <= f.bytes@.len(),
        None => false,
    }
}

/// One requested column is wholly inside the image for the scan's
/// slice: present, plainly encoded, long enough for `hi` rows, and its
/// data within the image, so every remaining range read must succeed.
pub open spec fn spec_scan_col_ready(f: ChunkFile, col_id: u16, w: int, hi: int) -> bool {
    match spec_find_col(f.meta.cols@, col_id) {
        Some(c) => {
            &&& c.encoding == 0
            &&& hi * w <= c.len
            &&& hi * w <= usize::MAX
            &&& c.offset + hi * w <= f.bytes@.len()
        },
        None => false,
    }
}

/// Membership in the half-open query range `[t0, t1)`.
pub open spec fn spec_time_range_pred(t0: i64, t1: i64) -> spec_fn(i64) -> bool {
    |t: i64| t0 <= t && t < t1
}

/// Timestamps are monotonically non-decreasing.
pub open spec fn spec_sorted(ts: Seq<i64>) -> bool {
    forall|i: int, j: int| 0 <= i <= j < ts.len() ==> ts[i] <= ts[j]
}

/// Binary search for the first row whose timestamp reaches `target`,
/// probing one timestamp per step. The position is exact under sorted
/// timestamps; on unsorted data it is only within bounds.
fn lower_bound_in_file(chunk: &ChunkFile, target: i64) -> (r: Result<usize, Error>)
    ensures
        match r {
            Ok(lb) => {
                &&& lb <= chunk.meta.row_count
                &&& spec_sorted(spec_chunk_ts(*chunk)) ==> {
                    &&& forall|i: int| 0 <= i < lb ==> spec_chunk_ts(*chunk)[i] < target
                    &&& forall|i: int|
                        lb <= i < chunk.meta.row_count ==> spec_chunk_ts(*chunk)[i] >= target
                }
            },
            Err(e) => {
                &&& !spec_ts_readable(*chunk)
                &&& match spec_find_col(chunk.meta.cols@, 0) {
                    None => e is Corrupt,
                    Some(c) => {
                        if c.encoding != 0 {
                            e is Unsupported
                        } else {
                            e is Corrupt || e is Io
                        }
                    },
                }
            },
        },
        spec_ts_readable(*chunk) ==> r is Ok,
{
    proof {
        vstd::std_specs::vec::axiom_spec_len(&chunk.bytes);
    }
    let mut left: usize = 0;
    let mut right: usize = chunk.meta.row_count as usize;
    while left < right
        invariant
            left <= right,
            right <= chunk.meta.row_count,
            chunk.bytes@.len() <= usize::MAX,
            spec_sorted(spec_chunk_ts(*chunk)) ==> forall|i: int|
                0 <= i < left ==> spec_chunk_ts(*chunk)[i] < target,
            spec_sorted(spec_chunk_ts(*chunk)) ==> forall|i: int|
                right <= i < chunk.meta.row_count ==> spec_chunk_ts(*chunk)[i] >= target,
        decreases right - left,
    {
        let mid = left + (right - left) / 2;
        let ts_mid = match chunk.read_ts_at(mid) {
            Ok(t) => t,
            Err(e) => {
                proof {
                    assert(!spec_ts_readable(*chunk));
                }
                return Err(e);
            },
        };
        proof {
            assert(ts_mid == spec_chunk_ts(*chunk)[mid as int]);
        }
        if ts_mid < target {
            proof {
                if spec_sorted(spec_chunk_ts(*chunk)) {
                    assert forall|i: int| 0 <= i < mid + 1 implies spec_chunk_ts(*chunk)[i]
                        < target by {
                        assert(spec_chunk_ts(*chunk)[i] <= spec_chunk_ts(*chunk)[mid as int]);
                    }
                }
            }
            left = mid + 1;
        } else {
            proof {
                if spec_sorted(spec_chunk_ts(*chunk)) {
                    assert forall|i: int|
                        mid <= i < chunk.meta.row_count implies spec_chunk_ts(*chunk)[i]
                        >= target by {
                        assert(spec_chunk_ts(*chunk)[mid as int] <= spec_chunk_ts(*chunk)[i]);
                    }
                }
            }
            right = mid;
        }
    }
    Ok(left)
}

/// A leaf operator: streams the rows of one chunk whose timestamps lie
/// in `[t0, t1)`, in batches of at most `batch_rows` rows.
pub struct SeqScan {
    pub file: ChunkFile,
    pub t0: i64,
    pub t1: i64,
    pub lo: usize,
    pub hi: usize,
    pub cur: usize,
    pub batch_rows: usize,
    pub skipped: bool,
    pub bytes_read: u64,
    pub pred: Option<Pred>,
    pub cols: Cols,
    pub stats: OpStats,
}

/// The bytes one emitted row costs under a column mask.
pub open spec fn spec_row_width(cols: Cols) -> int {
    (if cols.ts {
        8int
    } else {
        0int
    }) + (if cols.series_id {
        4int
    } else {
        0int
    }) + (if cols.value {
        8int
    } else {
        0int
    })
}

impl SeqScan {
    /// Whether the scan was pruned away: the query range misses the
    /// chunk's closed interval `[ts_min, ts_max]` entirely.
    pub open spec fn spec_pruned(t0: i64, t1: i64, ts_min: i64, ts_max: i64) -> bool {
        t1 <= ts_min || t0 > ts_max
    }

    /// Opens a scan over a chunk image.
    ///
    /// Rejects `batch_rows == 0` as `Unsupported`, propagates any
    /// failure of opening the image, prunes against the chunk's
    /// time bounds, and otherwise locates the slice `[lo, hi)` by
    /// binary search over the ts column — exact when the timestamps
    /// are sorted.
    pub fn open(bytes: Vec<u8>, t0: i64, t1: i64, batch_rows: usize, cols: Cols) -> (r: Result<
        SeqScan,
        Error,
    >)
        ensures
            match r {
                Ok(s) => {
                    &&& batch_rows > 0
                    &&& spec_chunk_source_ok(bytes@)
                    &&& s.inv()
                    &&& s.file.bytes@ == bytes@
                    &&& s.file.wf()
                    &&& s.t0 == t0 && s.t1 == t1 && s.batch_rows == batch_rows && s.cols == cols
                    &&& s.pred is None
                    &&& s.cur == s.lo
                    &&& s.bytes_read == 0
                    &&& s.stats == OpStats::spec_zero()
                    &&& s.skipped == Self::spec_pruned(t0, t1, s.file.meta.ts_min,
                        s.file.meta.ts_max)
                    &&& (s.skipped ==> s.lo == 0 && s.hi == 0)
                    &&& (!s.skipped ==> {
                        &&& spec_sorted(spec_chunk_ts(s.file)) ==> {
                            &&& (forall|i: int|
                                0 <= i < s.lo ==> spec_chunk_ts(s.file)[i] < t0)
                            &&& (forall|i: int|
                                s.lo <= i < s.file.meta.row_count ==> spec_chunk_ts(s.file)[i]
                                    >= t0)
                            &&& (forall|i: int|
                                0 <= i < s.hi ==> spec_chunk_ts(s.file)[i] < t1)
                            &&& (forall|i: int|
                                s.hi <= i < s.file.meta.row_count ==> spec_chunk_ts(s.file)[i]
                                    >= t1)
                        }
                    })
                },
                Err(e) => {
                    ||| (batch_rows == 0 && e is Unsupported)
                    ||| (batch_rows > 0 && !spec_chunk_source_ok(bytes@)
                        && crate::reader::spec_open_failure(bytes@, e))
                    ||| (batch_rows > 0 && spec_chunk_source_ok(bytes@) && !Self::spec_pruned(
                        t0,
                        t1,
                        spec_image_ts_min(bytes@),
                        spec_image_ts_max(bytes@),
                    ) && !spec_image_ts_readable(bytes@) && (match spec_find_col(
                        crate::meta::spec_decoded_cols(crate::reader::spec_meta_region(bytes@)),
                        0,
                    ) {
                        None => e is Corrupt,
                        Some(c) => {
                            if c.encoding != 0 {
                                e is Unsupported
                            } else {
                                e is Corrupt || e is Io
                            }
                        },
                    }))
                },
            },
            (batch_rows > 0 && spec_chunk_source_ok(bytes@) && (Self::spec_pruned(
                t0,
                t1,
                spec_image_ts_min(bytes@),
                spec_image_ts_max(bytes@),
            ) || spec_image_ts_readable(bytes@))) ==> r is Ok,
    {
        if batch_rows == 0 {
            return Err(Error::Unsupported("batch_rows must be > 0".to_string()));
        }
        let file = match open_chunk(bytes) {
            Ok(f) => f,
            Err(e) => {
                return Err(e);
            },
        };
        let mut skipped = false;
        let (lo, hi) = if t1 <= file.meta.ts_min || t0 > file.meta.ts_max {
            skipped = true;
            (0usize, 0usize)
        } else {
            proof {
                assert(spec_image_ts_readable(bytes@) == spec_ts_readable(file));
            }
            let lo = match lower_bound_in_file(&file, t0) {
                Ok(v) => v,
                Err(e) => {
                    return Err(e);
                },
            };
            let hi = match lower_bound_in_file(&file, t1) {
                Ok(v) => v,
                Err(e) => {
                    return Err(e);
                },
            };
            (lo, hi)
        };
        Ok(
            SeqScan {
                file,
                t0,
                t1,
                lo,
                hi,
                cur: lo,
                batch_rows,
                skipped,
                bytes_read: 0,
                pred: None,
                cols,
                stats: OpStats::default(),
            },
        )
    }

    /// Attaches a predicate hint. The scan does not evaluate it; it is
    /// carried for explain and stats parity, for a planner to honour.
    pub fn with_predicate(self, pred: Option<Pred>) -> (r: Self)
        ensures
            r == (SeqScan { pred, ..self }),
    {
        SeqScan { pred, ..self }
    }

    pub fn skipped(&self) -> (r: bool)
        ensures
            r == self.skipped,
    {
        self.skipped
    }

    pub fn bytes_read(&self) -> (r: u64)
        ensures
            r == self.bytes_read,
    {
        self.bytes_read
    }

    pub fn range(&self) -> (r: (usize, usize))
        ensures
            r == (self.lo, self.hi),
    {
        (self.lo, self.hi)
    }

    pub fn time_range(&self) -> (r: (i64, i64))
        ensures
            r == (self.t0, self.t1),
    {
        (self.t0, self.t1)
    }

    /// A snapshot of the running counters.
    pub fn stats_handle(&self) -> (r: OpStats)
        ensures
            r == self.stats,
    {
        self.stats
    }
}


/// For a ready scan, every range read of the slice's remainder meets
/// the reader's success conditions.
proof fn lemma_scan_reads_in_bounds(s: SeqScan, end: int)
    requires
        s.inv(),
        s.ready(),
        s.cur <= end <= s.hi,
    ensures
        s.cols.ts ==> (match spec_find_col(s.file.meta.cols@, 0) {
            Some(c) => {
                &&& c.encoding == 0
                &&& spec_range_ok(c, s.cur as int, end, 8, s.file.meta.row_count as int)
                &&& spec_range_pos_ok(c, s.cur as int, 8)
                &&& spec_range_in_file(c, end, 8, s.file.bytes@.len() as int)
            },
            None => false,
        }),
        s.cols.series_id ==> (match spec_find_col(s.file.meta.cols@, 1) {
            Some(c) => {
                &&& c.encoding == 0
                &&& spec_range_ok(c, s.cur as int, end, 4, s.file.meta.row_count as int)
                &&& spec_range_pos_ok(c, s.cur as int, 4)
                &&& spec_range_in_file(c, end, 4, s.file.bytes@.len() as int)
            },
            None => false,
        }),
        s.cols.value ==> (match spec_find_col(s.file.meta.cols@, 2) {
            Some(c) => {
                &&& c.encoding == 0
                &&& spec_range_ok(c, s.cur as int, end, 8, s.file.meta.row_count as int)
                &&& spec_range_pos_ok(c, s.cur as int, 8)
                &&& spec_range_in_file(c, end, 8, s.file.bytes@.len() as int)
            },
            None => false,
        }),
{
    vstd::std_specs::vec::axiom_spec_len(&s.file.bytes);
    let hi = s.hi as int;
    let cur = s.cur as int;
    assert(cur * 8 <= end * 8 && end * 8 <= hi * 8 && cur * 4 <= end * 4 && end * 4 <= hi * 4)
        by (nonlinear_arith)
        requires
            0 <= cur <= end <= hi,
    ;
}

impl Operator for SeqScan {
    /// The scan's slice bookkeeping and its counters: the cursor walks
    /// `[lo, hi)`, and the counters reflect the rows and bytes emitted
    /// so far.
    open spec fn inv(&self) -> bool {
        &&& self.batch_rows > 0
        &&& (self.skipped ==> self.lo == 0 && self.hi == 0 && self.cur == 0)
        &&& self.lo <= self.cur
        &&& self.cur <= self.file.meta.row_count
        &&& self.hi <= self.file.meta.row_count
        &&& (self.cur > self.lo ==> self.cur <= self.hi)
        &&& self.stats.input_rows == 0
        &&& self.stats.output_rows == sat_usize(self.out_ts().len() as int)
        &&& self.stats.bytes_read == self.bytes_read
        &&& self.bytes_read == sat_u64(spec_row_width(self.cols) * (self.cur - self.lo))
    }

    open spec fn out_ts(&self) -> Seq<i64> {
        if self.cols.ts {
            Seq::new(
                (self.cur - self.lo) as nat,
                |i: int| spec_chunk_ts(self.file)[self.lo + i],
            )
        } else {
            Seq::empty()
        }
    }

    open spec fn out_series(&self) -> Seq<u32> {
        if self.cols.series_id {
            Seq::new(
                (self.cur - self.lo) as nat,
                |i: int| spec_chunk_series(self.file)[self.lo + i],
            )
        } else {
            Seq::empty()
        }
    }

    open spec fn out_value(&self) -> Seq<u64> {
        if self.cols.value {
            Seq::new(
                (self.cur - self.lo) as nat,
                |i: int| spec_chunk_value(self.file)[self.lo + i],
            )
        } else {
            Seq::empty()
        }
    }

    open spec fn finished(&self) -> bool {
        self.skipped || self.cur >= self.hi
    }

    open spec fn remaining(&self) -> nat {
        if self.skipped || self.cur >= self.hi {
            0
        } else {
            (self.hi - self.cur) as nat
        }
    }

    /// One emitted batch leaves the chunk, the query range, the slice,
    /// the mask and the predicate hint untouched, advances the cursor
    /// by at most `batch_rows` rows up to `hi`, returns exactly that
    /// many rows in every requested column and none in an omitted one,
    /// and counts one more batch.
    open spec fn step(pre: Self, post: Self, b: RecordBatch) -> bool {
        &&& post.file == pre.file
        &&& post.t0 == pre.t0
        &&& post.t1 == pre.t1
        &&& post.lo == pre.lo
        &&& post.hi == pre.hi
        &&& post.batch_rows == pre.batch_rows
        &&& post.skipped == pre.skipped
        &&& post.cols == pre.cols
        &&& post.pred == pre.pred
        &&& post.cur as int == (if pre.cur + pre.batch_rows >= pre.hi {
            pre.hi as int
        } else {
            pre.cur + pre.batch_rows
        })
        &&& b.ts@.len() == (if pre.cols.ts {
            post.cur - pre.cur
        } else {
            0int
        })
        &&& b.series_id@.len() == (if pre.cols.series_id {
            post.cur - pre.cur
        } else {
            0int
        })
        &&& b.value@.len() == (if pre.cols.value {
            post.cur - pre.cur
        } else {
            0int
        })
        &&& post.stats.num_batches == sat_usize(pre.stats.num_batches + 1)
    }

    /// Every column the mask requests lies inside the image up to the
    /// slice's end, so the scan owes every remaining batch.
    open spec fn ready(&self) -> bool {
        &&& (self.cols.ts ==> spec_scan_col_ready(self.file, 0, 8, self.hi as int))
        &&& (self.cols.series_id ==> spec_scan_col_ready(self.file, 1, 4, self.hi as int))
        &&& (self.cols.value ==> spec_scan_col_ready(self.file, 2, 8, self.hi as int))
    }

    open spec fn explain_spec(&self, indent: int) -> Seq<char> {
        spec_spaces(indent) + "SeqScan(range=["@ + spec_dec_i64(self.t0) + ", "@ + spec_dec_i64(
            self.t1,
        ) + "), slice_range=["@ + spec_dec_usize(self.lo) + ", "@ + spec_dec_usize(self.hi)
            + "), cols="@ + spec_cols_describe(self.cols.ts, self.cols.series_id, self.cols.value)
            + ", batch_rows="@ + spec_dec_usize(self.batch_rows) + ")"@
    }

    #[verifier::rlimit(60)]
    fn next_batch(&mut self) -> (r: Result<Option<RecordBatch>, Error>) {
        if self.skipped || self.cur >= self.hi {
            return Ok(None);
        }
        let remaining = self.hi - self.cur;
        let end = if self.batch_rows >= remaining {
            self.hi
        } else {
            self.cur + self.batch_rows
        };
        let n_rows = end - self.cur;
        proof {
            vstd::std_specs::vec::axiom_spec_len(&self.file.bytes);
            if self.ready() {
                lemma_scan_reads_in_bounds(*self, end as int);
            }
        }
        let mut bytes: u64 = 0;
        let ts: Vec<i64> = if self.cols.ts {
            bytes = bytes + (n_rows as u64) * 8;
            match self.file.read_range_i64(0, self.cur, end) {
                Ok(v) => v,
                Err(e) => {
                    proof {
                        assert(!self.ready());
                    }
                    return Err(e);
                },
            }
        } else {
            Vec::new()
        };
        let series_id: Vec<u32> = if self.cols.series_id {
            bytes = bytes + (n_rows as u64) * 4;
            match self.file.read_range_u32(1, self.cur, end) {
                Ok(v) => v,
                Err(e) => {
                    proof {
                        assert(!self.ready());
                    }
                    return Err(e);
                },
            }
        } else {
            Vec::new()
        };
        let value: Vec<u64> = if self.cols.value {
            bytes = bytes + (n_rows as u64) * 8;
            match self.file.read_range_f64(2, self.cur, end) {
                Ok(v) => v,
                Err(e) => {
                    proof {
                        assert(!self.ready());
                    }
                    return Err(e);
                },
            }
        } else {
            Vec::new()
        };
        let ghost pre = *self;
        self.bytes_read = sat_add_u64(self.bytes_read, bytes);
        self.cur = end;

        let batch = RecordBatch { ts, series_id, value };
        let blen = batch.len();
        self.stats.output_rows = sat_add_usize(self.stats.output_rows, blen);
        self.stats.num_batches = sat_add_usize(self.stats.num_batches, 1);
        self.stats.bytes_read = sat_add_u64(self.stats.bytes_read, bytes);
        proof {
            if self.cols.ts {
                assert(self.out_ts() =~= pre.out_ts() + batch.ts@);
            }
            if self.cols.series_id {
                assert(self.out_series() =~= pre.out_series() + batch.series_id@);
            }
            if self.cols.value {
                assert(self.out_value() =~= pre.out_value() + batch.value@);
            }
            assert(bytes == spec_row_width(self.cols) * n_rows) by (nonlinear_arith)
                requires
                    bytes == (if self.cols.ts { (n_rows as int) * 8 } else { 0int }) + (
                    if self.cols.series_id { (n_rows as int) * 4 } else { 0int }) + (
                    if self.cols.value { (n_rows as int) * 8 } else { 0int }),
                    spec_row_width(self.cols) == (if self.cols.ts { 8int } else { 0int }) + (
                    if self.cols.series_id { 4int } else { 0int }) + (if self.cols.value {
                        8int
                    } else {
                        0int
                    }),
            ;
            assert(spec_row_width(self.cols) * (pre.cur - pre.lo) + spec_row_width(self.cols) * (
            end - pre.cur) == spec_row_width(self.cols) * (end - pre.lo)) by (nonlinear_arith);
            assert(self.remaining() < pre.remaining());
        }
        Ok(Some(batch))
    }

    fn explain(&self, indent: usize) -> (r: String) {
        let mut s = spaces(indent);
        s.append("SeqScan(range=[");
        s.append(fmt_i64(self.t0).as_str());
        s.append(", ");
        s.append(fmt_i64(self.t1).as_str());
        s.append("), slice_range=[");
        s.append(fmt_usize(self.lo).as_str());
        s.append(", ");
        s.append(fmt_usize(self.hi).as_str());
        s.append("), cols=");
        s.append(self.cols.describe().as_str());
        s.append(", batch_rows=");
        s.append(fmt_usize(self.batch_rows).as_str());
        s.append(")");
        proof {
            assert(s@ =~= self.explain_spec(indent as int));
        }
        s
    }
}

} // verus!
