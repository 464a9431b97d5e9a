use vstd::prelude::*;
use vstd::arithmetic::div_mod::{
    lemma_fundamental_div_mod, lemma_mod_division_less_than_divisor, lemma_remainder_lower,
};
use crate::agg::{AggResult, AggRow};
use crate::batch::RecordBatch;
use crate::error::Error;
use crate::fbits::{f64_bits_add, f64_bits_gt, f64_bits_lt, spec_f64_add, spec_f64_gt, spec_f64_lt};
use crate::operators::Operator;
use crate::scan::spec_sorted;

verus! {

// Time-window downsampling. Each input row is assigned to the bucket
// whose start is `floor_div(ts, window) * window`, where the division
// truncates toward zero; rows are folded into a running accumulator
// that is emitted whenever the bucket changes, and once more at the
// end of the stream.

/// Division truncating toward zero, as the machine division does.
pub open spec fn spec_trunc_div(x: int, d: int) -> int {
    if x == 0 {
        0
    } else if x > 0 && d > 0 {
        x / d
    } else if x < 0 && d < 0 {
        (x * -1) / (d * -1)
    } else if x < 0 {
        ((x * -1) / d) * -1
    } else {
        (x / (d * -1)) * -1
    }
}

/// The left edge of the bucket a timestamp falls in.
pub open spec fn spec_window_start(t: i64, w: i64) -> int {
    spec_trunc_div(t as int, w as int) * w
}

/// For a positive window, the bucket edge lies between the timestamp
/// and zero, so it always fits in i64.
pub proof fn lemma_window_start_bounds(t: i64, w: i64)
    requires
        w > 0,
    ensures
        t >= 0 ==> 0 <= spec_window_start(t, w) <= t,
        t < 0 ==> t <= spec_window_start(t, w) <= 0,
        i64::MIN <= spec_window_start(t, w) <= i64::MAX,
        i64::MIN <= spec_trunc_div(t as int, w as int) <= i64::MAX,
{
    let ti = t as int;
    let wi = w as int;
    if t > 0 {
        let q = ti / wi;
        let r = ti % wi;
        lemma_fundamental_div_mod(ti, wi);
        lemma_mod_division_less_than_divisor(ti, wi);
        lemma_remainder_lower(ti, wi);
        assert(ti == wi * q + r);
        assert(q * wi == ti - r) by (nonlinear_arith)
            requires
                ti == wi * q + r,
        ;
        assert(q >= 0) by (nonlinear_arith)
            requires
                q * wi == ti - r,
                0 <= r < wi,
                ti > 0,
        ;
    } else if t < 0 {
        let m = ti * -1;
        let q = m / wi;
        let r = m % wi;
        lemma_fundamental_div_mod(m, wi);
        lemma_mod_division_less_than_divisor(m, wi);
        lemma_remainder_lower(m, wi);
        assert(m == wi * q + r);
        assert(spec_window_start(t, w) == (q * -1) * wi);
        assert((q * -1) * wi == ti + r) by (nonlinear_arith)
            requires
                m == wi * q + r,
                m == ti * -1,
        ;
        assert(r <= m) by (nonlinear_arith)
            requires
                m == wi * q + r,
                0 <= r < wi,
                q >= 0,
        ;
        assert(q >= 0) by (nonlinear_arith)
            requires
                m == wi * q + r,
                0 <= r < wi,
                m > 0,
        ;
    }
}

/// The bucket edge is a multiple of the window.
pub proof fn lemma_window_start_multiple(t: i64, w: i64)
    requires
        w > 0,
    ensures
        spec_window_start(t, w) % (w as int) == 0,
{
    let q = spec_trunc_div(t as int, w as int);
    vstd::arithmetic::div_mod::lemma_mod_multiples_basic(q, w as int);
}

/// The bucket edge is monotone in the timestamp.
pub proof fn lemma_window_start_monotone(t1: i64, t2: i64, w: i64)
    requires
        w > 0,
        t1 <= t2,
    ensures
        spec_window_start(t1, w) <= spec_window_start(t2, w),
{
    let wi = w as int;
    let a = t1 as int;
    let b = t2 as int;
    let q1 = spec_trunc_div(a, wi);
    let q2 = spec_trunc_div(b, wi);
    if a >= 0 {
        if a > 0 {
            vstd::arithmetic::div_mod::lemma_div_is_ordered(a, b, wi);
            vstd::arithmetic::div_mod::lemma_div_pos_is_pos(a, wi);
        } else {
            vstd::arithmetic::div_mod::lemma_div_pos_is_pos(b, wi);
        }
    } else if b >= 0 {
        vstd::arithmetic::div_mod::lemma_div_pos_is_pos(a * -1, wi);
        if b > 0 {
            vstd::arithmetic::div_mod::lemma_div_pos_is_pos(b, wi);
        }
    } else {
        vstd::arithmetic::div_mod::lemma_div_is_ordered(b * -1, a * -1, wi);
        vstd::arithmetic::div_mod::lemma_div_pos_is_pos(b * -1, wi);
    }
    assert(q1 <= q2);
    assert(q1 * wi <= q2 * wi) by (nonlinear_arith)
        requires
            q1 <= q2,
            wi > 0,
    ;
}

/// The machine computation of the bucket edge.
fn window_start(t: i64, w: i64) -> (r: i64)
    requires
        w > 0,
    ensures
        r == spec_window_start(t, w),
{
    proof {
        lemma_window_start_bounds(t, w);
    }
    let q = match t.checked_div(w) {
        Some(q) => q,
        None => {
            proof {
                assert(false);
            }
            0
        },
    };
    match q.checked_mul(w) {
        Some(ws) => ws,
        None => {
            proof {
                assert(false);
            }
            0
        },
    }
}

/// A fresh accumulator holding one row.
pub open spec fn spec_new_acc(ws: i64, v: u64) -> AggRow {
    AggRow { window_start: ws, count: 1, sum: v, min: v, max: v }
}

/// One more row folded into an accumulator: IEEE-754 sum, running
/// minimum and maximum.
pub open spec fn spec_add_value(acc: AggRow, v: u64) -> AggRow {
    AggRow {
        window_start: acc.window_start,
        count: (acc.count + 1) as u32,
        sum: spec_f64_add(acc.sum, v),
        min: if spec_f64_lt(v, acc.min) {
            v
        } else {
            acc.min
        },
        max: if spec_f64_gt(v, acc.max) {
            v
        } else {
            acc.max
        },
    }
}

/// One row fed to the accumulation state machine; `None` marks a row
/// count overflowing u32, a hard error.
pub open spec fn spec_agg_step(
    out: Seq<AggRow>,
    cur: Option<AggRow>,
    w: i64,
    t: i64,
    v: u64,
) -> Option<(Seq<AggRow>, Option<AggRow>)> {
    let ws = spec_window_start(t, w);
    match cur {
        None => Some((out, Some(spec_new_acc(ws as i64, v)))),
        Some(acc) => {
            if acc.window_start == ws {
                if acc.count == u32::MAX {
                    None
                } else {
                    Some((out, Some(spec_add_value(acc, v))))
                }
            } else {
                Some((out.push(acc), Some(spec_new_acc(ws as i64, v))))
            }
        },
    }
}

/// The accumulation state after a whole row stream.
pub open spec fn spec_agg_run(w: i64, ts: Seq<i64>, vs: Seq<u64>) -> Option<
    (Seq<AggRow>, Option<AggRow>),
>
    decreases ts.len(),
{
    if ts.len() == 0 {
        Some((Seq::empty(), None))
    } else {
        match spec_agg_run(w, ts.drop_last(), vs.drop_last()) {
            None => None,
            Some(st) => spec_agg_step(st.0, st.1, w, ts.last(), vs.last()),
        }
    }
}

/// The rows a drain returns: the flushed buckets, and the open bucket
/// if one remains.
pub open spec fn spec_agg_finish(st: (Seq<AggRow>, Option<AggRow>)) -> Seq<AggRow> {
    match st.1 {
        Some(a) => st.0.push(a),
        None => st.0,
    }
}

/// Drains its child once and downsamples the stream into time-window
/// buckets.
pub struct AggDownsampleOp<C: Operator> {
    pub child: C,
    pub window: i64,
    pub current_window_start: Option<i64>,
    pub current_acc: Option<AggRow>,
    pub output: Vec<AggRow>,
    /// The rows consumed since the last reset.
    pub consumed_ts: Ghost<Seq<i64>>,
    pub consumed_vs: Ghost<Seq<u64>>,
}

impl<C: Operator> AggDownsampleOp<C> {
    /// The operator's state is exactly the accumulation state machine
    /// run over the rows consumed so far.
    pub open spec fn wf(&self) -> bool {
        &&& self.child.inv()
        &&& self.window > 0
        &&& self.consumed_ts@.len() == self.consumed_vs@.len()
        &&& match spec_agg_run(self.window, self.consumed_ts@, self.consumed_vs@) {
            Some(st) => {
                &&& self.output@ == st.0
                &&& self.current_acc == st.1
                &&& self.current_window_start == (match st.1 {
                    Some(a) => Some(a.window_start),
                    None => None::<i64>,
                })
            },
            None => false,
        }
    }

    /// Rejects a non-positive window as `Unsupported`.
    pub fn new(child: C, window: i64) -> (r: Result<Self, Error>)
        requires
            child.inv(),
        ensures
            r is Ok <==> window > 0,
            match r {
                Ok(op) => {
                    &&& op.wf()
                    &&& op.child == child
                    &&& op.window == window
                    &&& op.output@ == Seq::<AggRow>::empty()
                    &&& op.current_acc is None
                },
                Err(e) => e is Unsupported,
            },
    {
        if window <= 0 {
            return Err(Error::Unsupported("window must be > 0".to_string()));
        }
        Ok(
            AggDownsampleOp {
                child,
                window,
                current_window_start: None,
                current_acc: None,
                output: Vec::new(),
                consumed_ts: Ghost(Seq::empty()),
                consumed_vs: Ghost(Seq::empty()),
            },
        )
    }

    /// Drains the child, folds every row into its bucket, flushes the
    /// trailing bucket, and returns all buckets in emission order.
    ///
    /// On success the result is exactly the accumulation state machine
    /// run over the rows the child delivered during this drain.
    pub fn execute_all(&mut self) -> (r: Result<AggResult, Error>)
        requires
            old(self).wf(),
        ensures
            final(self).window == old(self).window,
            match r {
                Ok(res) => {
                    &&& final(self).wf()
                    &&& final(self).child.finished()
                    &&& ({
                        let dts = final(self).child.out_ts().skip(
                            old(self).child.out_ts().len() as int,
                        );
                        let dvs = final(self).child.out_value().skip(
                            old(self).child.out_value().len() as int,
                        );
                        &&& dts.len() == dvs.len()
                        &&& match spec_agg_run(old(self).window, dts, dvs) {
                            Some(st) => res.rows@ == spec_agg_finish(st),
                            None => false,
                        }
                    })
                },
                Err(e) => final(self).wf(),
            },
    {
        self.reset_state();
        let ghost base_ts = self.child.out_ts().len();
        let ghost base_vs = self.child.out_value().len();
        proof {
            assert(self.consumed_ts@ =~= self.child.out_ts().skip(base_ts as int));
            assert(self.consumed_vs@ =~= self.child.out_value().skip(base_vs as int));
        }
        let mut done = false;
        while !done
            invariant
                self.wf(),
                self.window == old(self).window,
                base_ts == old(self).child.out_ts().len(),
                base_vs == old(self).child.out_value().len(),
                base_ts <= self.child.out_ts().len(),
                base_vs <= self.child.out_value().len(),
                self.consumed_ts@ == self.child.out_ts().skip(base_ts as int),
                self.consumed_vs@ == self.child.out_value().skip(base_vs as int),
                done ==> self.child.finished(),
            decreases self.child.remaining(), (if done { 0int } else { 1int }),
        {
            let batch = match self.child.next_batch() {
                Ok(Some(b)) => Some(b),
                Ok(None) => {
                    done = true;
                    None
                },
                Err(e) => {
                    return Err(e);
                },
            };
            if let Some(b) = batch {
                match self.consume_batch(&b) {
                    Ok(()) => {},
                    Err(e) => {
                        return Err(e);
                    },
                }
                proof {
                    assert(self.consumed_ts@ =~= self.child.out_ts().skip(base_ts as int));
                    assert(self.consumed_vs@ =~= self.child.out_value().skip(base_vs as int));
                }
            }
        }
        match self.flush_current() {
            Ok(()) => {},
            Err(e) => {
                return Err(e);
            },
        }
        let ghost dts = self.consumed_ts@;
        let ghost dvs = self.consumed_vs@;
        let mut rows: Vec<AggRow> = Vec::new();
        core::mem::swap(&mut rows, &mut self.output);
        proof {
            self.consumed_ts@ = Seq::empty();
            self.consumed_vs@ = Seq::empty();
        }
        Ok(AggResult { rows })
    }

    /// Folds one batch into the accumulation state. The batch must
    /// carry as many values as timestamps; a bucket of more than
    /// u32::MAX rows is a hard `Unsupported` error.
    fn consume_batch(&mut self, batch: &RecordBatch) -> (r: Result<(), Error>)
        requires
            old(self).wf(),
        ensures
            final(self).wf(),
            final(self).child == old(self).child,
            final(self).window == old(self).window,
            match r {
                Ok(()) => {
                    &&& batch.ts@.len() == batch.value@.len()
                    &&& final(self).consumed_ts@ == old(self).consumed_ts@ + batch.ts@
                    &&& final(self).consumed_vs@ == old(self).consumed_vs@ + batch.value@
                },
                Err(e) => e is Corrupt || e is Unsupported,
            },
    {
        let n = batch.ts.len();
        if batch.value.len() != n {
            return Err(Error::Corrupt("ts/value length mismatch".to_string()));
        }
        let ghost base_ts = self.consumed_ts@;
        let ghost base_vs = self.consumed_vs@;
        let mut i: usize = 0;
        while i < n
            invariant
                i <= n,
                n == batch.ts@.len(),
                n == batch.value@.len(),
                self.wf(),
                self.child == old(self).child,
                self.window == old(self).window,
                self.consumed_ts@ == base_ts + batch.ts@.subrange(0, i as int),
                self.consumed_vs@ == base_vs + batch.value@.subrange(0, i as int),
            decreases n - i,
        {
            let t = batch.ts[i];
            let v = batch.value[i];
            let ghost pre_ts = self.consumed_ts@;
            let ghost pre_vs = self.consumed_vs@;
            let ws = window_start(t, self.window);
            match self.current_window_start {
                None => {
                    self.current_window_start = Some(ws);
                    self.current_acc = Some(new_acc(ws, v));
                },
                Some(current_start) => {
                    if ws == current_start {
                        match self.current_acc {
                            Some(acc) => {
                                let updated = match add_value(acc, v) {
                                    Ok(a) => a,
                                    Err(e) => {
                                        return Err(e);
                                    },
                                };
                                self.current_acc = Some(updated);
                            },
                            None => {
                                proof {
                                    assert(false);
                                }
                            },
                        }
                    } else {
                        match self.flush_current() {
                            Ok(()) => {},
                            Err(e) => {
                                return Err(e);
                            },
                        }
                        self.current_window_start = Some(ws);
                        self.current_acc = Some(new_acc(ws, v));
                    }
                },
            }
            i = i + 1;
            proof {
                self.consumed_ts@ = pre_ts.push(t);
                self.consumed_vs@ = pre_vs.push(v);
                assert(self.consumed_ts@.drop_last() =~= pre_ts);
                assert(self.consumed_vs@.drop_last() =~= pre_vs);
                assert(self.consumed_ts@ =~= base_ts + batch.ts@.subrange(0, i as int));
                assert(self.consumed_vs@ =~= base_vs + batch.value@.subrange(0, i as int));
            }
        }
        proof {
            assert(batch.ts@.subrange(0, n as int) =~= batch.ts@);
            assert(batch.value@.subrange(0, n as int) =~= batch.value@);
        }
        Ok(())
    }

    /// Emits the open bucket, if any, and closes it.
    fn flush_current(&mut self) -> (r: Result<(), Error>)
        ensures
            r is Ok,
            final(self).child == old(self).child,
            final(self).window == old(self).window,
            final(self).consumed_ts@ == old(self).consumed_ts@,
            final(self).consumed_vs@ == old(self).consumed_vs@,
            final(self).output@ == spec_agg_finish((old(self).output@, old(self).current_acc)),
            final(self).current_acc is None,
            final(self).current_window_start is None,
    {
        match self.current_acc {
            Some(acc) => {
                self.output.push(acc);
                self.current_acc = None;
                self.current_window_start = None;
            },
            None => {
                self.current_window_start = None;
            },
        }
        Ok(())
    }

    /// Clears all accumulation state; a drain starts from scratch.
    fn reset_state(&mut self)
        ensures
            final(self).child == old(self).child,
            final(self).window == old(self).window,
            final(self).output@ == Seq::<AggRow>::empty(),
            final(self).current_acc is None,
            final(self).current_window_start is None,
            final(self).consumed_ts@ == Seq::<i64>::empty(),
            final(self).consumed_vs@ == Seq::<u64>::empty(),
    {
        self.current_window_start = None;
        self.current_acc = None;
        self.output.clear();
        proof {
            self.consumed_ts@ = Seq::empty();
            self.consumed_vs@ = Seq::empty();
        }
    }
}

/// A fresh accumulator from one row.
fn new_acc(window_start: i64, value: u64) -> (r: AggRow)
    ensures
        r == spec_new_acc(window_start, value),
{
    AggRow { window_start, count: 1, sum: value, min: value, max: value }
}

/// Folds one value into an accumulator; an overflowing row count is a
/// hard `Unsupported` error.
fn add_value(acc: AggRow, value: u64) -> (r: Result<AggRow, Error>)
    ensures
        r is Ok <==> acc.count < u32::MAX,
        match r {
            Ok(a) => a == spec_add_value(acc, value),
            Err(e) => e is Unsupported,
        },
{
    let count = match acc.count.checked_add(1) {
        Some(c) => c,
        None => {
            return Err(Error::Unsupported("count overflow".to_string()));
        },
    };
    let sum = f64_bits_add(acc.sum, value);
    let min = if f64_bits_lt(value, acc.min) {
        value
    } else {
        acc.min
    };
    let max = if f64_bits_gt(value, acc.max) {
        value
    } else {
        acc.max
    };
    Ok(AggRow { window_start: acc.window_start, count, sum, min, max })
}

/// The total of the bucket counts.
pub open spec fn spec_count_sum(rows: Seq<AggRow>) -> int
    decreases rows.len(),
{
    if rows.len() == 0 {
        0
    } else {
        spec_count_sum(rows.drop_last()) + rows.last().count
    }
}

/// The accumulation state after a sorted stream: the open bucket sits
/// at the last row's window, every flushed bucket starts on a multiple
/// of the window, the bucket starts strictly increase, and the counts
/// add up to the rows consumed.
pub proof fn lemma_agg_run_state(w: i64, ts: Seq<i64>, vs: Seq<u64>)
    requires
        w > 0,
        ts.len() == vs.len(),
        spec_sorted(ts),
        spec_agg_run(w, ts, vs) is Some,
    ensures
        ({
            let st = spec_agg_run(w, ts, vs).unwrap();
            &&& (st.1 is None <==> ts.len() == 0)
            &&& (ts.len() > 0 ==> st.1.unwrap().window_start == spec_window_start(ts.last(), w)
                && st.1.unwrap().count >= 1)
            &&& spec_count_sum(st.0) + (match st.1 {
                Some(a) => a.count as int,
                None => 0int,
            }) == ts.len()
            &&& (forall|k: int|
                0 <= k < st.0.len() ==> (#[trigger] st.0[k].window_start) as int % (w as int)
                    == 0)
            &&& (ts.len() > 0 ==> st.1.unwrap().window_start as int % (w as int) == 0)
            &&& (forall|k1: int, k2: int|
                0 <= k1 < k2 < st.0.len() ==> st.0[k1].window_start < st.0[k2].window_start)
            &&& (st.0.len() > 0 && st.1 is Some ==> st.0.last().window_start
                < st.1.unwrap().window_start)
        }),
    decreases ts.len(),
{
    if ts.len() > 0 {
        let pre_ts = ts.drop_last();
        let pre_vs = vs.drop_last();
        assert(spec_sorted(pre_ts)) by {
            assert forall|i: int, j: int| 0 <= i <= j < pre_ts.len() implies pre_ts[i]
                <= pre_ts[j] by {
                assert(pre_ts[i] == ts[i] && pre_ts[j] == ts[j]);
            }
        }
        lemma_agg_run_state(w, pre_ts, pre_vs);
        let t = ts.last();
        let v = vs.last();
        let pre_st = spec_agg_run(w, pre_ts, pre_vs).unwrap();
        let st = spec_agg_run(w, ts, vs).unwrap();
        lemma_window_start_bounds(t, w);
        lemma_window_start_multiple(t, w);
        let ws = spec_window_start(t, w);
        match pre_st.1 {
            None => {
                assert(pre_ts.len() == 0);
                assert(st.0 == pre_st.0);
                assert(spec_count_sum(st.0) == 0);
            },
            Some(acc) => {
                assert(pre_ts.len() > 0);
                assert(pre_ts.last() == ts[ts.len() - 2]);
                assert(pre_ts.last() <= t);
                lemma_window_start_monotone(pre_ts.last(), t, w);
                if acc.window_start == ws {
                    assert(st.0 == pre_st.0);
                    assert(st.1 == Some(spec_add_value(acc, v)));
                } else {
                    assert(acc.window_start < ws);
                    assert(st.0 == pre_st.0.push(acc));
                    assert(st.0.drop_last() =~= pre_st.0);
                    assert(st.0.last() == acc);
                    assert(spec_count_sum(st.0) == spec_count_sum(pre_st.0) + acc.count);
                    assert forall|k1: int, k2: int|
                        0 <= k1 < k2 < st.0.len() implies st.0[k1].window_start
                        < st.0[k2].window_start by {
                        if k2 < st.0.len() - 1 {
                            assert(st.0[k1] == pre_st.0[k1] && st.0[k2] == pre_st.0[k2]);
                        } else {
                            if k1 < st.0.len() - 1 {
                                assert(st.0[k1] == pre_st.0[k1]);
                                if k1 < pre_st.0.len() - 1 {
                                    assert(pre_st.0[k1].window_start
                                        < pre_st.0.last().window_start);
                                }
                            }
                        }
                    }
                }
            },
        }
    }
}

/// What downsampling a sorted stream yields (P-style soundness): every
/// returned bucket starts on a multiple of the window, the starts
/// strictly increase, and the bucket counts add up to exactly the
/// number of input rows.
pub proof fn lemma_downsample_sound(w: i64, ts: Seq<i64>, vs: Seq<u64>)
    requires
        w > 0,
        ts.len() == vs.len(),
        spec_sorted(ts),
        spec_agg_run(w, ts, vs) is Some,
    ensures
        ({
            let rows = spec_agg_finish(spec_agg_run(w, ts, vs).unwrap());
            &&& spec_count_sum(rows) == ts.len()
            &&& (forall|k: int|
                0 <= k < rows.len() ==> (#[trigger] rows[k].window_start) as int % (w as int)
                    == 0)
            &&& (forall|k1: int, k2: int|
                0 <= k1 < k2 < rows.len() ==> rows[k1].window_start < rows[k2].window_start)
        }),
{
    lemma_agg_run_state(w, ts, vs);
    let st = spec_agg_run(w, ts, vs).unwrap();
    let rows = spec_agg_finish(st);
    match st.1 {
        Some(a) => {
            assert(rows == st.0.push(a));
            assert(rows.drop_last() =~= st.0);
            assert(rows.last() == a);
            assert(spec_count_sum(rows) == spec_count_sum(st.0) + a.count);
            assert forall|k1: int, k2: int|
                0 <= k1 < k2 < rows.len() implies rows[k1].window_start
                < rows[k2].window_start by {
                if k2 < rows.len() - 1 {
                    assert(rows[k1] == st.0[k1] && rows[k2] == st.0[k2]);
                } else {
                    if k1 < rows.len() - 1 {
                        assert(rows[k1] == st.0[k1]);
                        if k1 < st.0.len() - 1 {
                            assert(st.0[k1].window_start < st.0.last().window_start);
                        }
                    }
                }
            }
        },
        None => {
            assert(rows == st.0);
        },
    }
}

} // verus!
