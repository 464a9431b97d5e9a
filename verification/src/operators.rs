use vstd::prelude::*;
use crate::batch::RecordBatch;
use crate::error::Error;

verus! {

// The pull-based operator protocol. Each operator models the rows it
// has emitted so far as three column streams; `next_batch` appends the
// returned batch's columns to those streams, and end-of-stream is
// sticky. The operator-specific meaning of the streams lives in each
// implementation's `inv`.

/// Per-operator counters, snapshot-readable by observers.
#[derive(Debug, Clone, Copy, PartialEq, Eq, Structural)]
pub struct OpStats {
    pub input_rows: usize,
    pub output_rows: usize,
    pub num_batches: usize,
    pub bytes_read: u64,
}

impl OpStats {
    /// Zeroed counters.
    pub open spec fn spec_zero() -> OpStats {
        OpStats { input_rows: 0, output_rows: 0, num_batches: 0, bytes_read: 0 }
    }
}

impl Default for OpStats {
    /// All counters start at zero.
    fn default() -> (r: Self)
        ensures
            r == (OpStats { input_rows: 0, output_rows: 0, num_batches: 0, bytes_read: 0 }),
    {
        OpStats { input_rows: 0, output_rows: 0, num_batches: 0, bytes_read: 0 }
    }
}

/// A count clamped into `usize`: counters freeze at the top instead of
/// wrapping.
pub open spec fn sat_usize(x: int) -> usize {
    if x > usize::MAX {
        usize::MAX
    } else if x < 0 {
        0
    } else {
        x as usize
    }
}

/// A count clamped into `u64`.
pub open spec fn sat_u64(x: int) -> u64 {
    if x > u64::MAX {
        u64::MAX
    } else if x < 0 {
        0
    } else {
        x as u64
    }
}

/// Adds a row count to a clamped counter, keeping it clamped.
pub fn sat_add_usize(counter: usize, add: usize) -> (r: usize)
    ensures
        r == sat_usize(counter + add),
{
    if counter > usize::MAX - add {
        usize::MAX
    } else {
        counter + add
    }
}

pub fn sat_add_u64(counter: u64, add: u64) -> (r: u64)
    ensures
        r == sat_u64(counter + add),
{
    if counter > u64::MAX - add {
        u64::MAX
    } else {
        counter + add
    }
}

/// The indent of a child in an `explain` rendering: two more spaces,
/// frozen at the top of `usize`.
pub open spec fn spec_child_indent(indent: int) -> usize {
    sat_usize(indent + 2)
}

pub fn child_indent(indent: usize) -> (r: usize)
    ensures
        r == spec_child_indent(indent as int),
{
    sat_add_usize(indent, 2)
}

/// A pull-based operator. `next_batch` produces the next batch or
/// end-of-stream; `explain` renders the operator tree.
pub trait Operator: Sized {
    /// The operator's internal well-formedness, preserved across calls.
    spec fn inv(&self) -> bool;

    /// The concatenated ts columns of every batch emitted so far.
    spec fn out_ts(&self) -> Seq<i64>;

    /// The concatenated series_id columns of every batch emitted so far.
    spec fn out_series(&self) -> Seq<u32>;

    /// The concatenated value columns (bit patterns) of every batch
    /// emitted so far.
    spec fn out_value(&self) -> Seq<u64>;

    /// End-of-stream was reached: every further call returns it again.
    spec fn finished(&self) -> bool;

    /// An upper bound on the batches still to come: every emitted
    /// batch strictly lowers it, so a drain terminates.
    spec fn remaining(&self) -> nat;

    /// The exact rendering `explain` returns.
    spec fn explain_spec(&self, indent: int) -> Seq<char>;

    /// What one successful pull pins beyond the streams: which fields
    /// stay put, how the cursorly state and counters move, and how the
    /// returned batch relates to what was consumed. Defined per
    /// operator, like `inv` and the streams.
    spec fn step(pre: Self, post: Self, b: RecordBatch) -> bool;

    /// Success is owed: whenever the operator is not finished and
    /// ready, `next_batch` may not fail. A leaf defines readiness from
    /// its own state; an operator whose outcome hangs on a child of
    /// the caller's choosing cannot owe success and defines it as
    /// false.
    spec fn ready(&self) -> bool;

    /// Produces the next batch, or `None` at end-of-stream. A returned
    /// batch extends the emitted streams by exactly its columns and
    /// satisfies the operator's `step` relation; end-of-stream leaves
    /// the operator untouched and is sticky; an error leaves the
    /// streams put.
    fn next_batch(&mut self) -> (r: Result<Option<RecordBatch>, Error>)
        requires
            old(self).inv(),
        ensures
            final(self).inv(),
            match r {
                Ok(Some(b)) => {
                    &&& !old(self).finished()
                    &&& final(self).out_ts() == old(self).out_ts() + b.ts@
                    &&& final(self).out_series() == old(self).out_series() + b.series_id@
                    &&& final(self).out_value() == old(self).out_value() + b.value@
                    &&& final(self).remaining() < old(self).remaining()
                    &&& Self::step(*old(self), *final(self), b)
                },
                Ok(None) => {
                    &&& old(self).finished()
                    &&& *final(self) == *old(self)
                },
                Err(_) => {
                    &&& final(self).out_ts() == old(self).out_ts()
                    &&& final(self).out_series() == old(self).out_series()
                    &&& final(self).out_value() == old(self).out_value()
                },
            },
            old(self).finished() ==> r == Ok::<Option<RecordBatch>, Error>(None) && *final(self)
                == *old(self),
            !old(self).finished() && old(self).ready() ==> r is Ok,
    ;

    /// Renders a left-aligned, two-space-indented tree description:
    /// parents precede children.
    fn explain(&self, indent: usize) -> (r: String)
        requires
            self.inv(),
        ensures
            r@ == self.explain_spec(indent as int),
    ;
}

} // verus!
