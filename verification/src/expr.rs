use vstd::prelude::*;
use vstd::string::StringExecFns;
use crate::batch::RecordBatch;
use crate::fbits::{
    f64_bits_gt, f64_bits_of_i64, f64_bits_render, f64_bits_trunc_i64, spec_f64_gt,
    spec_f64_of_i64, spec_f64_render, spec_f64_trunc_i64,
};
use crate::render::{fmt_i64, spec_dec_i64};

verus! {

/// A named column of the fixed schema.
#[derive(Debug, Clone, Copy, PartialEq, Eq, Structural)]
pub enum Col {
    Ts,
    SeriesId,
    Value,
}

/// An immutable predicate tree over one row. Double-precision
/// thresholds are carried as bit patterns.
#[derive(Debug)]
pub enum Pred {
    GtF64(Col, u64),
    LtI64(Col, i64),
    And(Box<Pred>, Box<Pred>),
}

impl Clone for Pred {
    /// A structural copy of the tree.
    fn clone(&self) -> (r: Self)
        ensures
            r == *self,
        decreases *self,
    {
        match self {
            Pred::GtF64(c, t) => Pred::GtF64(*c, *t),
            Pred::LtI64(c, t) => Pred::LtI64(*c, *t),
            Pred::And(l, r) => Pred::And(Box::new((**l).clone()), Box::new((**r).clone())),
        }
    }
}

/// The row's value in the named column, widened to a double.
pub open spec fn spec_col_f64(c: Col, t: i64, s: u32, v: u64) -> u64 {
    match c {
        Col::Ts => spec_f64_of_i64(t),
        Col::SeriesId => spec_f64_of_i64(s as i64),
        Col::Value => v,
    }
}

/// The row's value in the named column, narrowed to an i64: integer
/// columns are widened, a double is truncated toward zero.
pub open spec fn spec_col_i64(c: Col, t: i64, s: u32, v: u64) -> i64 {
    match c {
        Col::Ts => t,
        Col::SeriesId => s as i64,
        Col::Value => spec_f64_trunc_i64(v),
    }
}

/// Whether the predicate holds of one row `(t, s, v)`.
pub open spec fn spec_pred_row(p: Pred, t: i64, s: u32, v: u64) -> bool
    decreases p,
{
    match p {
        Pred::GtF64(c, thr) => spec_f64_gt(spec_col_f64(c, t, s, v), thr),
        Pred::LtI64(c, thr) => spec_col_i64(c, t, s, v) < thr,
        Pred::And(l, r) => spec_pred_row(*l, t, s, v) && spec_pred_row(*r, t, s, v),
    }
}

/// The named column is present in the batch: it has as many rows as
/// the timestamp column, which defines the batch's row count.
pub open spec fn spec_col_present(c: Col, b: RecordBatch) -> bool {
    match c {
        Col::Ts => true,
        Col::SeriesId => b.series_id@.len() == b.ts@.len(),
        Col::Value => b.value@.len() == b.ts@.len(),
    }
}

/// Every column the predicate reads is present in the batch.
pub open spec fn spec_pred_cols_present(p: Pred, b: RecordBatch) -> bool
    decreases p,
{
    match p {
        Pred::GtF64(c, _) => spec_col_present(c, b),
        Pred::LtI64(c, _) => spec_col_present(c, b),
        Pred::And(l, r) => spec_pred_cols_present(*l, b) && spec_pred_cols_present(*r, b),
    }
}

/// The boolean mask of `p` over a batch: position `i` tells whether
/// row `i` satisfies `p`.
pub open spec fn spec_pred_mask(p: Pred, b: RecordBatch, i: int) -> bool {
    spec_pred_row(p, b.ts@[i], b.series_id@[i], b.value@[i])
}

fn eval_gt_f64(col: Col, threshold: u64, batch: &RecordBatch) -> (r: Vec<bool>)
    requires
        spec_col_present(col, *batch),
    ensures
        r@.len() == batch.ts@.len(),
        forall|i: int|
            0 <= i < r@.len() ==> r@[i] == spec_f64_gt(
                spec_col_f64(col, batch.ts@[i], batch.series_id@[i], batch.value@[i]),
                threshold,
            ),
{
    let n = batch.ts.len();
    let mut mask: Vec<bool> = Vec::new();
    let mut i: usize = 0;
    while i < n
        invariant
            i <= n,
            n == batch.ts@.len(),
            spec_col_present(col, *batch),
            mask@.len() == i,
            forall|j: int|
                0 <= j < i ==> mask@[j] == spec_f64_gt(
                    spec_col_f64(col, batch.ts@[j], batch.series_id@[j], batch.value@[j]),
                    threshold,
                ),
        decreases n - i,
    {
        let x: u64 = match col {
            Col::Ts => f64_bits_of_i64(batch.ts[i]),
            Col::SeriesId => f64_bits_of_i64(batch.series_id[i] as i64),
            Col::Value => batch.value[i],
        };
        mask.push(f64_bits_gt(x, threshold));
        i = i + 1;
    }
    mask
}

fn eval_lt_i64(col: Col, threshold: i64, batch: &RecordBatch) -> (r: Vec<bool>)
    requires
        spec_col_present(col, *batch),
    ensures
        r@.len() == batch.ts@.len(),
        forall|i: int|
            0 <= i < r@.len() ==> r@[i] == (spec_col_i64(
                col,
                batch.ts@[i],
                batch.series_id@[i],
                batch.value@[i],
            ) < threshold),
{
    let n = batch.ts.len();
    let mut mask: Vec<bool> = Vec::new();
    let mut i: usize = 0;
    while i < n
        invariant
            i <= n,
            n == batch.ts@.len(),
            spec_col_present(col, *batch),
            mask@.len() == i,
            forall|j: int|
                0 <= j < i ==> mask@[j] == (spec_col_i64(
                    col,
                    batch.ts@[j],
                    batch.series_id@[j],
                    batch.value@[j],
                ) < threshold),
        decreases n - i,
    {
        let x: i64 = match col {
            Col::Ts => batch.ts[i],
            Col::SeriesId => batch.series_id[i] as i64,
            Col::Value => f64_bits_trunc_i64(batch.value[i]),
        };
        mask.push(x < threshold);
        i = i + 1;
    }
    mask
}

impl Pred {
    /// Evaluates the predicate row by row over a whole batch, yielding
    /// one mask bit per row.
    pub fn eval_batch(&self, batch: &RecordBatch) -> (r: Vec<bool>)
        requires
            spec_pred_cols_present(*self, *batch),
        ensures
            r@.len() == batch.ts@.len(),
            forall|i: int| 0 <= i < r@.len() ==> r@[i] == spec_pred_mask(*self, *batch, i),
        decreases *self,
    {
        match self {
            Pred::GtF64(col, threshold) => eval_gt_f64(*col, *threshold, batch),
            Pred::LtI64(col, threshold) => eval_lt_i64(*col, *threshold, batch),
            Pred::And(left, right) => {
                let left_mask = left.eval_batch(batch);
                let right_mask = right.eval_batch(batch);
                let n = left_mask.len();
                let mut mask: Vec<bool> = Vec::new();
                let mut i: usize = 0;
                while i < n
                    invariant
                        i <= n,
                        n == left_mask@.len(),
                        n == right_mask@.len(),
                        n == batch.ts@.len(),
                        mask@.len() == i,
                        forall|j: int|
                            0 <= j < n ==> left_mask@[j] == spec_pred_mask(
                                **left,
                                *batch,
                                j,
                            ),
                        forall|j: int|
                            0 <= j < n ==> right_mask@[j] == spec_pred_mask(
                                **right,
                                *batch,
                                j,
                            ),
                        forall|j: int|
                            0 <= j < i ==> mask@[j] == (left_mask@[j] && right_mask@[j]),
                    decreases n - i,
                {
                    mask.push(left_mask[i] && right_mask[i]);
                    i = i + 1;
                }
                proof {
                    assert forall|j: int| 0 <= j < n implies mask@[j] == spec_pred_mask(
                        *self,
                        *batch,
                        j,
                    ) by {
                        assert(spec_pred_row(*self, batch.ts@[j], batch.series_id@[j],
                            batch.value@[j]) == (spec_pred_row(**left, batch.ts@[j],
                            batch.series_id@[j], batch.value@[j]) && spec_pred_row(**right,
                            batch.ts@[j], batch.series_id@[j], batch.value@[j])));
                    }
                }
                mask
            },
        }
    }

    /// Renders the predicate: `value > 0.5`, `ts < 1000`,
    /// `(A) AND (B)`.
    pub fn render(&self) -> (r: String)
        ensures
            r@ == spec_pred_render(*self),
        decreases *self,
    {
        match self {
            Pred::GtF64(col, threshold) => {
                let mut s = String::from_str(col.describe());
                s.append(" > ");
                s.append(f64_bits_render(*threshold).as_str());
                proof {
                    assert(s@ =~= spec_pred_render(*self));
                }
                s
            },
            Pred::LtI64(col, threshold) => {
                let mut s = String::from_str(col.describe());
                s.append(" < ");
                s.append(fmt_i64(*threshold).as_str());
                proof {
                    assert(s@ =~= spec_pred_render(*self));
                }
                s
            },
            Pred::And(left, right) => {
                let mut s = String::from_str("(");
                s.append(left.render().as_str());
                s.append(") AND (");
                s.append(right.render().as_str());
                s.append(")");
                proof {
                    assert(s@ =~= spec_pred_render(*self));
                }
                s
            },
        }
    }
}

impl Col {
    /// The column's name.
    pub fn describe(&self) -> (r: &'static str)
        ensures
            r@ == spec_col_name(*self),
    {
        match self {
            Col::Ts => "ts",
            Col::SeriesId => "series_id",
            Col::Value => "value",
        }
    }
}

pub open spec fn spec_col_name(c: Col) -> Seq<char> {
    match c {
        Col::Ts => "ts"@,
        Col::SeriesId => "series_id"@,
        Col::Value => "value"@,
    }
}

/// The rendering of a predicate tree.
pub open spec fn spec_pred_render(p: Pred) -> Seq<char>
    decreases p,
{
    match p {
        Pred::GtF64(c, thr) => spec_col_name(c) + " > "@ + spec_f64_render(thr),
        Pred::LtI64(c, thr) => spec_col_name(c) + " < "@ + spec_dec_i64(thr),
        Pred::And(l, r) => "("@ + spec_pred_render(*l) + ") AND ("@ + spec_pred_render(*r)
            + ")"@,
    }
}

} // verus!
