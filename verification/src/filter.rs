use vstd::prelude::*;
use vstd::string::StringExecFns;
use crate::batch::RecordBatch;
use crate::error::Error;
use crate::expr::{spec_pred_cols_present, spec_pred_mask, spec_pred_row, Pred};
use crate::operators::{child_indent, sat_add_usize, sat_usize, spec_child_indent, OpStats, Operator};
use crate::render::spec_spaces;
use crate::render::spaces;

verus! {

/// A spec-level row stream: three aligned columns.
#[verifier::ext_equal]
pub struct Rows {
    pub ts: Seq<i64>,
    pub series_id: Seq<u32>,
    pub value: Seq<u64>,
}

impl Rows {
    pub open spec fn empty() -> Rows {
        Rows { ts: Seq::empty(), series_id: Seq::empty(), value: Seq::empty() }
    }

    pub open spec fn len(self) -> nat {
        self.ts.len()
    }

    /// The three columns have equal length.
    pub open spec fn aligned(self) -> bool {
        self.ts.len() == self.series_id.len() && self.ts.len() == self.value.len()
    }

    pub open spec fn push(self, t: i64, s: u32, v: u64) -> Rows {
        Rows { ts: self.ts.push(t), series_id: self.series_id.push(s), value: self.value.push(v) }
    }

    pub open spec fn drop_last(self) -> Rows {
        Rows {
            ts: self.ts.drop_last(),
            series_id: self.series_id.drop_last(),
            value: self.value.drop_last(),
        }
    }

    pub open spec fn cat(self, o: Rows) -> Rows {
        Rows {
            ts: self.ts + o.ts,
            series_id: self.series_id + o.series_id,
            value: self.value + o.value,
        }
    }
}

/// The rows of `r` that satisfy `p`, in order.
pub open spec fn spec_filter_rows(p: Pred, r: Rows) -> Rows
    decreases r.ts.len(),
{
    if r.ts.len() == 0 {
        Rows::empty()
    } else {
        let prefix = spec_filter_rows(p, r.drop_last());
        if spec_pred_row(p, r.ts.last(), r.series_id.last(), r.value.last()) {
            prefix.push(r.ts.last(), r.series_id.last(), r.value.last())
        } else {
            prefix
        }
    }
}

/// The indices of the rows of `r` that satisfy `p`, in increasing
/// order.
pub open spec fn spec_matching_indices(p: Pred, r: Rows) -> Seq<int>
    decreases r.ts.len(),
{
    if r.ts.len() == 0 {
        Seq::empty()
    } else {
        let prefix = spec_matching_indices(p, r.drop_last());
        if spec_pred_row(p, r.ts.last(), r.series_id.last(), r.value.last()) {
            prefix.push(r.ts.len() - 1)
        } else {
            prefix
        }
    }
}

/// What filtering keeps: every output row satisfies the predicate; the
/// output rows are exactly the input rows at the matching indices, in
/// increasing index order; and every matching input row appears.
pub proof fn lemma_filter_rows_sound(p: Pred, r: Rows)
    requires
        r.aligned(),
    ensures
        spec_filter_rows(p, r).aligned(),
        spec_filter_rows(p, r).len() == spec_matching_indices(p, r).len(),
        forall|k: int|
            0 <= k < spec_matching_indices(p, r).len() ==> {
                let i = #[trigger] spec_matching_indices(p, r)[k];
                &&& 0 <= i < r.len()
                &&& spec_pred_row(p, r.ts[i], r.series_id[i], r.value[i])
                &&& spec_filter_rows(p, r).ts[k] == r.ts[i]
                &&& spec_filter_rows(p, r).series_id[k] == r.series_id[i]
                &&& spec_filter_rows(p, r).value[k] == r.value[i]
            },
        forall|k1: int, k2: int|
            0 <= k1 < k2 < spec_matching_indices(p, r).len() ==> spec_matching_indices(p, r)[k1]
                < spec_matching_indices(p, r)[k2],
        forall|i: int|
            0 <= i < r.len() && spec_pred_row(p, r.ts[i], r.series_id[i], r.value[i])
                ==> spec_matching_indices(p, r).contains(i),
    decreases r.ts.len(),
{
    if r.ts.len() > 0 {
        lemma_filter_rows_sound(p, r.drop_last());
        let pre = r.drop_last();
        let out = spec_filter_rows(p, r);
        let idx = spec_matching_indices(p, r);
        assert forall|i: int|
            0 <= i < r.len() && spec_pred_row(p, r.ts[i], r.series_id[i], r.value[i]) implies
            idx.contains(i) by {
            if i < r.len() - 1 {
                assert(pre.ts[i] == r.ts[i] && pre.series_id[i] == r.series_id[i] && pre.value[i]
                    == r.value[i]);
                assert(spec_matching_indices(p, pre).contains(i));
                let k = choose|k: int|
                    0 <= k < spec_matching_indices(p, pre).len() && spec_matching_indices(
                        p,
                        pre,
                    )[k] == i;
                assert(0 <= k < idx.len());
                assert(idx[k] == i);
            } else {
                assert(idx[idx.len() - 1] == i);
            }
        }
    }
}

/// Filtering a concatenation filters each part: batch-at-a-time
/// filtering of an aligned stream equals filtering the whole stream.
pub proof fn lemma_filter_rows_cat(p: Pred, a: Rows, b: Rows)
    requires
        a.aligned(),
        b.aligned(),
    ensures
        spec_filter_rows(p, a.cat(b)) == spec_filter_rows(p, a).cat(spec_filter_rows(p, b)),
    decreases b.ts.len(),
{
    if b.ts.len() == 0 {
        assert(a.cat(b) =~= a);
        assert(spec_filter_rows(p, a).cat(spec_filter_rows(p, b)) =~= spec_filter_rows(p, a));
    } else {
        lemma_filter_rows_cat(p, a, b.drop_last());
        let whole = a.cat(b);
        assert(whole.drop_last() =~= a.cat(b.drop_last()));
        assert(whole.ts.last() == b.ts.last());
        assert(whole.series_id.last() == b.series_id.last());
        assert(whole.value.last() == b.value.last());
        if spec_pred_row(p, b.ts.last(), b.series_id.last(), b.value.last()) {
            assert(spec_filter_rows(p, whole) =~= spec_filter_rows(p, a).cat(
                spec_filter_rows(p, b),
            ));
        } else {
            assert(spec_filter_rows(p, whole) =~= spec_filter_rows(p, a).cat(
                spec_filter_rows(p, b),
            ));
        }
    }
}

/// Pulls batches from its child and keeps the rows that satisfy a
/// predicate, preserving their order.
pub struct FilterOp<C: Operator> {
    pub child: C,
    pub pred: Pred,
    pub stats: OpStats,
    /// The child's streams at construction: consumption starts here.
    pub base: Ghost<Rows>,
    /// The rows consumed from the child since construction.
    pub seen: Ghost<Rows>,
    /// The rows emitted since construction.
    pub emitted: Ghost<Rows>,
    /// Every consumed batch was well-formed, so the emitted rows are
    /// exactly the filter of the consumed rows.
    pub clean: Ghost<bool>,
}

impl<C: Operator> FilterOp<C> {
    pub fn new(child: C, pred: Pred) -> (r: Self)
        requires
            child.inv(),
        ensures
            r.inv(),
            r.child == child,
            r.pred == pred,
            r.stats == OpStats::spec_zero(),
            r.seen@ == Rows::empty(),
            r.emitted@ == Rows::empty(),
            r.clean@ == true,
    {
        let ghost base = Rows {
            ts: child.out_ts(),
            series_id: child.out_series(),
            value: child.out_value(),
        };
        let r = FilterOp {
            child,
            pred,
            stats: OpStats::default(),
            base: Ghost(base),
            seen: Ghost(Rows::empty()),
            emitted: Ghost(Rows::empty()),
            clean: Ghost(true),
        };
        proof {
            assert(r.child.out_ts() =~= r.base@.ts + r.seen@.ts);
            assert(r.child.out_series() =~= r.base@.series_id + r.seen@.series_id);
            assert(r.child.out_value() =~= r.base@.value + r.seen@.value);
        }
        r
    }

    /// A snapshot of the running counters.
    pub fn stats_handle(&self) -> (r: OpStats)
        ensures
            r == self.stats,
    {
        self.stats
    }
}

impl<C: Operator> Operator for FilterOp<C> {
    /// The child is sound; the consumed rows continue the child's
    /// streams; the counters track rows in and out; and as long as
    /// every consumed batch was well-formed, the emitted rows are the
    /// filter of the consumed rows.
    open spec fn inv(&self) -> bool {
        &&& self.child.inv()
        &&& self.child.out_ts() == self.base@.ts + self.seen@.ts
        &&& self.child.out_series() == self.base@.series_id + self.seen@.series_id
        &&& self.child.out_value() == self.base@.value + self.seen@.value
        &&& self.stats.input_rows == sat_usize(self.seen@.ts.len() as int)
        &&& self.stats.output_rows == sat_usize(self.emitted@.ts.len() as int)
        &&& self.stats.bytes_read == 0
        &&& (self.clean@ ==> {
            &&& self.seen@.aligned()
            &&& self.emitted@ == spec_filter_rows(self.pred, self.seen@)
        })
    }

    open spec fn out_ts(&self) -> Seq<i64> {
        self.emitted@.ts
    }

    open spec fn out_series(&self) -> Seq<u32> {
        self.emitted@.series_id
    }

    open spec fn out_value(&self) -> Seq<u64> {
        self.emitted@.value
    }

    open spec fn finished(&self) -> bool {
        self.child.finished()
    }

    open spec fn remaining(&self) -> nat {
        self.child.remaining()
    }

    /// One emitted batch keeps the predicate and the base marks, feeds
    /// exactly the child's new rows into `seen`, keeps `clean` exactly
    /// while every consumed batch was well-formed, counts the rows in
    /// and the batch, and — for a well-formed input batch — returns
    /// exactly the rows that satisfy the predicate, in order.
    open spec fn step(pre: Self, post: Self, b: RecordBatch) -> bool {
        let in_rows = Rows {
            ts: post.child.out_ts().skip(pre.child.out_ts().len() as int),
            series_id: post.child.out_series().skip(pre.child.out_series().len() as int),
            value: post.child.out_value().skip(pre.child.out_value().len() as int),
        };
        let uniform = in_rows.aligned();
        &&& post.pred == pre.pred
        &&& post.base == pre.base
        &&& post.seen@ == pre.seen@.cat(in_rows)
        &&& post.clean@ == (pre.clean@ && uniform)
        &&& (uniform ==> {
            let flt = spec_filter_rows(pre.pred, in_rows);
            &&& b.ts@ == flt.ts
            &&& b.series_id@ == flt.series_id
            &&& b.value@ == flt.value
        })
        &&& post.stats.num_batches == sat_usize(pre.stats.num_batches + 1)
        &&& post.stats.input_rows == sat_usize(pre.stats.input_rows + in_rows.ts.len())
    }

    /// Success hangs on the child, which callers choose: never owed
    /// through the trait.
    open spec fn ready(&self) -> bool {
        false
    }

    open spec fn explain_spec(&self, indent: int) -> Seq<char> {
        spec_spaces(indent) + "Filter(pred="@ + crate::expr::spec_pred_render(self.pred) + ")"@
            + "\n"@ + self.child.explain_spec(spec_child_indent(indent) as int)
    }

    /// Pulls one batch, evaluates the predicate row-at-a-time, and
    /// emits the rows whose mask bit is set, copying each column that
    /// is present (has as many rows as the batch). A batch on which
    /// the predicate cannot be evaluated — it reads a column the batch
    /// does not carry — is refused as `Corrupt`.
    #[verifier::rlimit(60)]
    fn next_batch(&mut self) -> (r: Result<Option<RecordBatch>, Error>) {
        let ghost pre_self = *self;
        let batch = match self.child.next_batch() {
            Ok(Some(b)) => b,
            Ok(None) => {
                return Ok(None);
            },
            Err(e) => {
                return Err(e);
            },
        };
        let ghost batch_rows = Rows { ts: batch.ts@, series_id: batch.series_id@, value: batch.value@ };
        let ghost seen0 = self.seen@;
        let n = batch.len();

        let has_series = batch.series_id.len() == n;
        let has_value = batch.value.len() == n;
        let evaluable = pred_cols_available(&self.pred, &batch);
        proof {
            self.seen@ = self.seen@.cat(batch_rows);
        }
        if !evaluable {
            proof {
                self.clean@ = false;
                assert(self.child.out_ts() =~= self.base@.ts + self.seen@.ts);
                assert(self.child.out_series() =~= self.base@.series_id + self.seen@.series_id);
                assert(self.child.out_value() =~= self.base@.value + self.seen@.value);
            }
            self.stats.input_rows = sat_add_usize(self.stats.input_rows, n);
            return Err(Error::Corrupt("filter predicate reads a missing column".to_string()));
        }
        let mask = self.pred.eval_batch(&batch);

        let mut ts: Vec<i64> = Vec::new();
        let mut series_id: Vec<u32> = Vec::new();
        let mut value: Vec<u64> = Vec::new();
        let uniform = has_series && has_value;
        let mut i: usize = 0;
        while i < n
            invariant
                i <= n,
                n == batch.ts@.len(),
                mask@.len() == n,
                has_series ==> batch.series_id@.len() == n,
                has_value ==> batch.value@.len() == n,
                uniform == (has_series && has_value),
                forall|j: int| 0 <= j < n ==> mask@[j] == spec_pred_mask(self.pred, batch, j),
                batch_rows == (Rows { ts: batch.ts@, series_id: batch.series_id@, value: batch.value@ }),
                uniform ==> {
                    let part = spec_filter_rows(
                        self.pred,
                        Rows {
                            ts: batch.ts@.subrange(0, i as int),
                            series_id: batch.series_id@.subrange(0, i as int),
                            value: batch.value@.subrange(0, i as int),
                        },
                    );
                    &&& ts@ == part.ts
                    &&& series_id@ == part.series_id
                    &&& value@ == part.value
                },
                ts@.len() <= i,
                !uniform ==> (has_series ==> series_id@.len() <= i) && (has_value ==> value@.len()
                    <= i),
            decreases n - i,
        {
            let ghost pre = Rows {
                ts: batch.ts@.subrange(0, i as int),
                series_id: batch.series_id@.subrange(0, i as int),
                value: batch.value@.subrange(0, i as int),
            };
            if mask[i] {
                ts.push(batch.ts[i]);
                if has_series {
                    series_id.push(batch.series_id[i]);
                }
                if has_value {
                    value.push(batch.value[i]);
                }
            }
            i = i + 1;
            proof {
                if uniform {
                    let cur = Rows {
                        ts: batch.ts@.subrange(0, i as int),
                        series_id: batch.series_id@.subrange(0, i as int),
                        value: batch.value@.subrange(0, i as int),
                    };
                    assert(cur.drop_last() =~= pre);
                    assert(cur.ts.last() == batch.ts@[i - 1]);
                }
            }
        }
        let filtered = RecordBatch { ts, series_id, value };
        let flen = filtered.len();
        self.stats.input_rows = sat_add_usize(self.stats.input_rows, n);
        self.stats.output_rows = sat_add_usize(self.stats.output_rows, flen);
        self.stats.num_batches = sat_add_usize(self.stats.num_batches, 1);
        proof {
            let out_rows = Rows {
                ts: filtered.ts@,
                series_id: filtered.series_id@,
                value: filtered.value@,
            };
            self.emitted@ = self.emitted@.cat(out_rows);
            assert(self.child.out_ts() =~= self.base@.ts + self.seen@.ts);
            assert(self.child.out_series() =~= self.base@.series_id + self.seen@.series_id);
            assert(self.child.out_value() =~= self.base@.value + self.seen@.value);
            let was_clean = self.clean@;
            self.clean@ = self.clean@ && uniform;
            let in_rows = Rows {
                ts: self.child.out_ts().skip(pre_self.child.out_ts().len() as int),
                series_id: self.child.out_series().skip(
                    pre_self.child.out_series().len() as int,
                ),
                value: self.child.out_value().skip(pre_self.child.out_value().len() as int),
            };
            assert(in_rows.ts =~= batch_rows.ts);
            assert(in_rows.series_id =~= batch_rows.series_id);
            assert(in_rows.value =~= batch_rows.value);
            assert(in_rows =~= batch_rows);
            assert(in_rows.aligned() == uniform);
            if uniform {
                assert(batch.ts@.subrange(0, n as int) =~= batch.ts@);
                assert(batch.series_id@.subrange(0, n as int) =~= batch.series_id@);
                assert(batch.value@.subrange(0, n as int) =~= batch.value@);
                assert(out_rows =~= spec_filter_rows(self.pred, batch_rows));
            }
            if was_clean && uniform {
                lemma_filter_rows_cat(self.pred, seen0, batch_rows);
                assert(self.emitted@ =~= spec_filter_rows(self.pred, self.seen@));
            }
            assert(Self::step(pre_self, *self, filtered));
        }
        Ok(Some(filtered))
    }

    fn explain(&self, indent: usize) -> (r: String) {
        let mut s = spaces(indent);
        s.append("Filter(pred=");
        s.append(self.pred.render().as_str());
        s.append(")");
        s.append("\n");
        let next = child_indent(indent);
        s.append(self.child.explain(next).as_str());
        proof {
            assert(s@ =~= self.explain_spec(indent as int));
        }
        s
    }
}

/// Whether every column the predicate reads is present in the batch.
fn pred_cols_available(p: &Pred, batch: &RecordBatch) -> (r: bool)
    ensures
        r == spec_pred_cols_present(*p, *batch),
    decreases *p,
{
    match p {
        Pred::GtF64(c, _) => col_available(*c, batch),
        Pred::LtI64(c, _) => col_available(*c, batch),
        Pred::And(l, r) => pred_cols_available(l, batch) && pred_cols_available(r, batch),
    }
}

fn col_available(c: crate::expr::Col, batch: &RecordBatch) -> (r: bool)
    ensures
        r == crate::expr::spec_col_present(c, *batch),
{
    match c {
        crate::expr::Col::Ts => true,
        crate::expr::Col::SeriesId => batch.series_id.len() == batch.ts.len(),
        crate::expr::Col::Value => batch.value.len() == batch.ts.len(),
    }
}

} // verus!
