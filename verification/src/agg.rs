use vstd::prelude::*;

verus! {

/// One downsampling bucket: its left edge, the number of rows it
/// absorbed, and the running IEEE-754 sum, minimum and maximum of
/// their values, carried as bit patterns.
#[derive(Debug, Clone, Copy, PartialEq, Eq, Structural)]
pub struct AggRow {
    pub window_start: i64,
    pub count: u32,
    pub sum: u64,
    pub min: u64,
    pub max: u64,
}

/// The full result of draining a downsampling operator.
#[derive(Debug, Clone)]
pub struct AggResult {
    pub rows: Vec<AggRow>,
}

impl Default for AggResult {
    /// No rows.
    fn default() -> (r: Self)
        ensures
            r.rows@ == Seq::<AggRow>::empty(),
    {
        AggResult { rows: Vec::new() }
    }
}

} // verus!
