//! The results writer's bookkeeping.
//!
//! The writer itself is a background thread doing file output and lives in
//! the application; what is decided — and verified — here is the content of
//! the series index it writes at the end: one entry per received snapshot,
//! the `k`-th at time `k · snapshot_period`.

use vstd::arithmetic::mul::lemma_mul_inequality;
use vstd::prelude::*;

verus! {

/// The time stamps of a series of `size` snapshots taken every
/// `snapshot_period` ticks.
pub fn vtk_series_times(size: usize, snapshot_period: i64) -> (r: Vec<i64>)
    requires
        snapshot_period >= 0,
        size as int <= i64::MAX,
        size as int * snapshot_period as int <= i64::MAX,
    ensures
        r@.len() == size,
        forall|k: int| 0 <= k < size ==> r@[k] == k * snapshot_period as int,
{
    let mut times: Vec<i64> = Vec::new();
    let mut i: usize = 0;
    while i < size
        invariant
            i <= size,
            snapshot_period >= 0,
            size as int <= i64::MAX,
            size as int * snapshot_period as int <= i64::MAX,
            times@.len() == i,
            forall|k: int| 0 <= k < i ==> times@[k] == k * snapshot_period as int,
        decreases size - i,
    {
        proof {
            lemma_mul_inequality(i as int, size as int, snapshot_period as int);
            assert(i as int * snapshot_period as int >= 0) by (nonlinear_arith)
                requires
                    i as int >= 0,
                    snapshot_period as int >= 0,
            ;
        }
        let t: i64 = (i as i64) * snapshot_period;
        times.push(t);
        i += 1;
    }
    times
}

} // verus!
