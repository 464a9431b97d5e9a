use vstd::prelude::*;

verus! {

/// An in-memory columnar batch: three parallel ordered columns.
///
/// `value` holds IEEE-754 double-precision measurements by their bit
/// patterns, so that byte-exact storage and pipeline behaviour can be
/// stated over plain integers. A batch is well-formed when the three
/// columns have equal length; projection may hand consumers a
/// column-sparse batch in which some columns are empty.
#[derive(Clone, Debug)]
pub struct RecordBatch {
    pub ts: Vec<i64>,
    pub series_id: Vec<u32>,
    pub value: Vec<u64>,
}

impl RecordBatch {
    /// All three columns have the same length.
    pub open spec fn well_formed(self) -> bool {
        self.ts@.len() == self.series_id@.len() && self.ts@.len() == self.value@.len()
    }

    /// Row count, defined by the timestamp column.
    pub fn len(&self) -> (r: usize)
        ensures
            r == self.ts@.len(),
    {
        self.ts.len()
    }

    pub fn is_empty(&self) -> (r: bool)
        ensures
            r == (self.ts@.len() == 0),
    {
        self.ts.is_empty()
    }

    /// The rows in `[start, end)` of every column, as a fresh batch.
    pub fn slice(&self, start: usize, end: usize) -> (r: RecordBatch)
        requires
            start <= end,
            end <= self.ts@.len(),
            end <= self.series_id@.len(),
            end <= self.value@.len(),
        ensures
            r.ts@ == self.ts@.subrange(start as int, end as int),
            r.series_id@ == self.series_id@.subrange(start as int, end as int),
            r.value@ == self.value@.subrange(start as int, end as int),
    {
        RecordBatch {
            ts: copy_range_i64(&self.ts, start, end),
            series_id: copy_range_u32(&self.series_id, start, end),
            value: copy_range_u64(&self.value, start, end),
        }
    }
}

pub(crate) fn copy_range_i64(v: &Vec<i64>, start: usize, end: usize) -> (r: Vec<i64>)
    requires
        start <= end <= v@.len(),
    ensures
        r@ == v@.subrange(start as int, end as int),
{
    let mut out: Vec<i64> = Vec::new();
    let mut i: usize = start;
    while i < end
        invariant
            start <= i <= end <= v@.len(),
            out@ == v@.subrange(start as int, i as int),
        decreases end - i,
    {
        out.push(v[i]);
        i = i + 1;
        proof {
            assert(out@ =~= v@.subrange(start as int, i as int));
        }
    }
    out
}

pub(crate) fn copy_range_u32(v: &Vec<u32>, start: usize, end: usize) -> (r: Vec<u32>)
    requires
        start <= end <= v@.len(),
    ensures
        r@ == v@.subrange(start as int, end as int),
{
    let mut out: Vec<u32> = Vec::new();
    let mut i: usize = start;
    while i < end
        invariant
            start <= i <= end <= v@.len(),
            out@ == v@.subrange(start as int, i as int),
        decreases end - i,
    {
        out.push(v[i]);
        i = i + 1;
        proof {
            assert(out@ =~= v@.subrange(start as int, i as int));
        }
    }
    out
}

pub(crate) fn copy_range_u64(v: &Vec<u64>, start: usize, end: usize) -> (r: Vec<u64>)
    requires
        start <= end <= v@.len(),
    ensures
        r@ == v@.subrange(start as int, end as int),
{
    let mut out: Vec<u64> = Vec::new();
    let mut i: usize = start;
    while i < end
        invariant
            start <= i <= end <= v@.len(),
            out@ == v@.subrange(start as int, i as int),
        decreases end - i,
    {
        out.push(v[i]);
        i = i + 1;
        proof {
            assert(out@ =~= v@.subrange(start as int, i as int));
        }
    }
    out
}

} // verus!
