use vstd::prelude::*;
use vstd::string::StringExecFns;
use crate::batch::RecordBatch;
use crate::error::Error;
use crate::operators::{child_indent, sat_add_usize, sat_usize, spec_child_indent, OpStats, Operator};
use crate::render::{spaces, spec_spaces};
use crate::scan::spec_cols_describe;

verus! {

/// Passes the kept columns of each batch through unchanged and
/// replaces the dropped columns with empty ones.
pub struct ProjectOp<C: Operator> {
    pub child: C,
    pub keep_ts: bool,
    pub keep_series: bool,
    pub keep_value: bool,
    pub stats: OpStats,
    /// The child's streams at construction: consumption starts here.
    pub base_ts: Ghost<nat>,
    pub base_series: Ghost<nat>,
    pub base_value: Ghost<nat>,
}

/// The kept column names, `none` when all are dropped.
pub fn describe_cols(keep_ts: bool, keep_series: bool, keep_value: bool) -> (r: String)
    ensures
        r@ == spec_cols_describe(keep_ts, keep_series, keep_value),
{
    if keep_ts && keep_series && keep_value {
        String::from_str("ts,series_id,value")
    } else if keep_ts && keep_series {
        String::from_str("ts,series_id")
    } else if keep_ts && keep_value {
        String::from_str("ts,value")
    } else if keep_ts {
        String::from_str("ts")
    } else if keep_series && keep_value {
        String::from_str("series_id,value")
    } else if keep_series {
        String::from_str("series_id")
    } else if keep_value {
        String::from_str("value")
    } else {
        String::from_str("none")
    }
}

impl<C: Operator> ProjectOp<C> {
    pub fn new(child: C, keep_ts: bool, keep_series: bool, keep_value: bool) -> (r: Self)
        requires
            child.inv(),
        ensures
            r.inv(),
            r.child == child,
            r.keep_ts == keep_ts && r.keep_series == keep_series && r.keep_value == keep_value,
            r.stats == OpStats::spec_zero(),
            r.out_ts() == Seq::<i64>::empty(),
            r.out_series() == Seq::<u32>::empty(),
            r.out_value() == Seq::<u64>::empty(),
    {
        let r = ProjectOp {
            child,
            keep_ts,
            keep_series,
            keep_value,
            stats: OpStats::default(),
            base_ts: Ghost(0nat),
            base_series: Ghost(0nat),
            base_value: Ghost(0nat),
        };
        let r = ProjectOp {
            base_ts: Ghost(r.child.out_ts().len()),
            base_series: Ghost(r.child.out_series().len()),
            base_value: Ghost(r.child.out_value().len()),
            ..r
        };
        proof {
            assert(r.out_ts() =~= Seq::<i64>::empty());
            assert(r.out_series() =~= Seq::<u32>::empty());
            assert(r.out_value() =~= Seq::<u64>::empty());
        }
        r
    }

    /// A snapshot of the running counters.
    pub fn stats_handle(&self) -> (r: OpStats)
        ensures
            r == self.stats,
    {
        self.stats
    }

    /// The row count of the first kept column's stream: what
    /// `output_rows` counts.
    pub open spec fn spec_out_len(&self) -> int {
        if self.keep_ts {
            self.child.out_ts().len() - self.base_ts@
        } else if self.keep_series {
            self.child.out_series().len() - self.base_series@
        } else if self.keep_value {
            self.child.out_value().len() - self.base_value@
        } else {
            0
        }
    }
}

impl<C: Operator> Operator for ProjectOp<C> {
    /// The child is sound, consumption started at the recorded marks,
    /// and the counters track the rows that flowed through.
    open spec fn inv(&self) -> bool {
        &&& self.child.inv()
        &&& self.base_ts@ <= self.child.out_ts().len()
        &&& self.base_series@ <= self.child.out_series().len()
        &&& self.base_value@ <= self.child.out_value().len()
        &&& self.stats.input_rows == sat_usize(
            self.child.out_ts().len() - self.base_ts@,
        )
        &&& self.stats.output_rows == sat_usize(self.spec_out_len())
        &&& self.stats.bytes_read == 0
    }

    open spec fn out_ts(&self) -> Seq<i64> {
        if self.keep_ts {
            self.child.out_ts().skip(self.base_ts@ as int)
        } else {
            Seq::empty()
        }
    }

    open spec fn out_series(&self) -> Seq<u32> {
        if self.keep_series {
            self.child.out_series().skip(self.base_series@ as int)
        } else {
            Seq::empty()
        }
    }

    open spec fn out_value(&self) -> Seq<u64> {
        if self.keep_value {
            self.child.out_value().skip(self.base_value@ as int)
        } else {
            Seq::empty()
        }
    }

    open spec fn finished(&self) -> bool {
        self.child.finished()
    }

    open spec fn remaining(&self) -> nat {
        self.child.remaining()
    }

    /// One emitted batch keeps the column flags and the base marks,
    /// passes every kept column of the child's batch through unchanged,
    /// empties the dropped ones, and counts the rows in and the batch.
    open spec fn step(pre: Self, post: Self, b: RecordBatch) -> bool {
        let in_ts = post.child.out_ts().skip(pre.child.out_ts().len() as int);
        let in_series = post.child.out_series().skip(pre.child.out_series().len() as int);
        let in_value = post.child.out_value().skip(pre.child.out_value().len() as int);
        &&& post.keep_ts == pre.keep_ts
        &&& post.keep_series == pre.keep_series
        &&& post.keep_value == pre.keep_value
        &&& post.base_ts == pre.base_ts
        &&& post.base_series == pre.base_series
        &&& post.base_value == pre.base_value
        &&& b.ts@ == (if pre.keep_ts {
            in_ts
        } else {
            Seq::<i64>::empty()
        })
        &&& b.series_id@ == (if pre.keep_series {
            in_series
        } else {
            Seq::<u32>::empty()
        })
        &&& b.value@ == (if pre.keep_value {
            in_value
        } else {
            Seq::<u64>::empty()
        })
        &&& post.stats.num_batches == sat_usize(pre.stats.num_batches + 1)
        &&& post.stats.input_rows == sat_usize(pre.stats.input_rows + in_ts.len())
    }

    /// Success hangs on the child, which callers choose: never owed
    /// through the trait.
    open spec fn ready(&self) -> bool {
        false
    }

    open spec fn explain_spec(&self, indent: int) -> Seq<char> {
        spec_spaces(indent) + "Project(cols="@ + spec_cols_describe(
            self.keep_ts,
            self.keep_series,
            self.keep_value,
        ) + ")"@ + "\n"@ + self.child.explain_spec(spec_child_indent(indent) as int)
    }

    /// Pulls one batch and moves the kept columns through unchanged;
    /// dropped columns come out empty. `output_rows` counts the rows
    /// of the first kept column in schema order.
    fn next_batch(&mut self) -> (r: Result<Option<RecordBatch>, Error>) {
        let ghost pre = *self;
        let batch = match self.child.next_batch() {
            Ok(Some(b)) => b,
            Ok(None) => {
                return Ok(None);
            },
            Err(e) => {
                return Err(e);
            },
        };
        let ghost bts = batch.ts@;
        let ghost bsid = batch.series_id@;
        let ghost bval = batch.value@;
        let input_rows = batch.len();

        let ts: Vec<i64> = if self.keep_ts {
            batch.ts
        } else {
            Vec::new()
        };
        let series_id: Vec<u32> = if self.keep_series {
            batch.series_id
        } else {
            Vec::new()
        };
        let value: Vec<u64> = if self.keep_value {
            batch.value
        } else {
            Vec::new()
        };

        let output_len = if self.keep_ts {
            ts.len()
        } else if self.keep_series {
            series_id.len()
        } else if self.keep_value {
            value.len()
        } else {
            0
        };

        let projected = RecordBatch { ts, series_id, value };
        self.stats.input_rows = sat_add_usize(self.stats.input_rows, input_rows);
        self.stats.output_rows = sat_add_usize(self.stats.output_rows, output_len);
        self.stats.num_batches = sat_add_usize(self.stats.num_batches, 1);
        proof {
            assert(self.out_ts() =~= pre.out_ts() + projected.ts@);
            assert(self.out_series() =~= pre.out_series() + projected.series_id@);
            assert(self.out_value() =~= pre.out_value() + projected.value@);
            assert(self.child.out_ts().skip(pre.child.out_ts().len() as int) =~= bts);
            assert(self.child.out_series().skip(pre.child.out_series().len() as int) =~= bsid);
            assert(self.child.out_value().skip(pre.child.out_value().len() as int) =~= bval);
        }
        Ok(Some(projected))
    }

    fn explain(&self, indent: usize) -> (r: String) {
        let mut s = spaces(indent);
        s.append("Project(cols=");
        s.append(describe_cols(self.keep_ts, self.keep_series, self.keep_value).as_str());
        s.append(")");
        s.append("\n");
        let next = child_indent(indent);
        s.append(self.child.explain(next).as_str());
        proof {
            assert(s@ =~= self.explain_spec(indent as int));
        }
        s
    }
}

} // verus!
