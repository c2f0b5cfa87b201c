//! Orbit phase management: expanding the user's orbit divisions with the
//! eclipse window, labelling each division with its eclipse state, and mapping
//! a simulation time to the division that contains it.
//!
//! Times are integer ticks.  A negative eclipse bound is the sentinel for "no
//! eclipse"; all real orbit times are non-negative and below the orbit period.

use vstd::prelude::*;

verus! {

/// The user's description of one orbit.
pub struct OrbitParameters {
    pub orbit_period: i64,
    pub orbit_divisions: Vec<i64>,
    pub eclipse_start: i64,
    pub eclipse_end: i64,
}

/// Phase cursor over the expanded division list.
pub struct OrbitManager {
    pub orbit_period: i64,
    pub time_divisions: Vec<i64>,
    pub eclipse_divisions: Vec<(usize, bool)>,
    pub division_idx: usize,
}

/// Whether `orbit_time` lies in the eclipse window `[eclipse_start,
/// eclipse_end)`, which may wrap around the end of the orbit.
pub open spec fn in_eclipse(eclipse_start: i64, eclipse_end: i64, orbit_time: i64) -> bool {
    if eclipse_start <= eclipse_end {
        eclipse_start <= orbit_time && orbit_time < eclipse_end
    } else {
        orbit_time < eclipse_end || orbit_time >= eclipse_start
    }
}

/// A division list is well formed when it starts at 0, is strictly
/// increasing, and stays below the orbit period.
pub open spec fn wf_divisions(divs: Seq<i64>, period: i64) -> bool {
    &&& divs.len() >= 1
    &&& divs[0] == 0
    &&& forall|i: int| 0 <= i && i + 1 < divs.len() ==> #[trigger] divs[i] < divs[i + 1]
    &&& forall|i: int| 0 <= i < divs.len() ==> 0 <= #[trigger] divs[i] < period
}

/// The boundary that closes division `idx`: the next division's start, or the
/// orbit period for the last division.
pub open spec fn next_boundary(divs: Seq<i64>, period: i64, idx: int) -> i64 {
    if idx + 1 == divs.len() {
        period
    } else {
        divs[idx + 1]
    }
}

/// Whether orbit-local time `t` falls in the half-open interval of division
/// `idx`.
pub open spec fn division_contains(divs: Seq<i64>, period: i64, idx: int, t: i64) -> bool {
    &&& 0 <= idx < divs.len()
    &&& divs[idx] <= t
    &&& t < next_boundary(divs, period, idx)
}

/// In a well-formed list, indices order the same way as their times.
pub proof fn lemma_divisions_sorted(divs: Seq<i64>, period: i64, i: int, j: int)
    requires
        wf_divisions(divs, period),
        0 <= i <= j < divs.len(),
    ensures
        divs[i] <= divs[j],
    decreases j - i,
{
    if i < j {
        lemma_divisions_sorted(divs, period, i, j - 1);
    }
}

/// At most one division contains a given orbit-local time.
pub proof fn lemma_division_unique(divs: Seq<i64>, period: i64, i: int, j: int, t: i64)
    requires
        wf_divisions(divs, period),
        division_contains(divs, period, i, t),
        division_contains(divs, period, j, t),
    ensures
        i == j,
{
    if i < j {
        lemma_divisions_sorted(divs, period, i + 1, j);
        assert(t < divs[i + 1]);
        assert(divs[j] <= t);
    }
    if j < i {
        lemma_divisions_sorted(divs, period, j + 1, i);
        assert(t < divs[j + 1]);
        assert(divs[i] <= t);
    }
}

/// Some division contains every orbit-local time in `[0, period)`.
pub proof fn lemma_division_exists(divs: Seq<i64>, period: i64, t: i64) -> (idx: int)
    requires
        wf_divisions(divs, period),
        0 <= t < period,
    ensures
        division_contains(divs, period, idx, t),
    decreases divs.len(),
{
    let n = divs.len() as int;
    if divs[n - 1] <= t {
        n - 1
    } else {
        assert(n >= 2);
        let shorter = divs.drop_last();
        assert(wf_divisions(shorter, period));
        let idx = lemma_division_exists(shorter, period, t);
        if idx + 1 == shorter.len() {
            assert(t < divs[idx + 1]);
        }
        idx
    }
}

/// Orbit determinism, index half: within one orbit, a later time never maps
/// to an earlier division.  The companion fact, that the time to the next
/// boundary added to the orbit-local time lands exactly on that boundary, is
/// part of the contract of [`OrbitManager::time_to_next`].
pub proof fn lemma_division_index_monotone(
    divs: Seq<i64>,
    period: i64,
    i: int,
    j: int,
    t1: i64,
    t2: i64,
)
    requires
        wf_divisions(divs, period),
        division_contains(divs, period, i, t1),
        division_contains(divs, period, j, t2),
        t1 <= t2,
    ensures
        i <= j,
{
    if j < i {
        lemma_divisions_sorted(divs, period, j + 1, i);
        assert(t2 < divs[j + 1]);
        assert(divs[i] <= t1);
    }
}

/// The index reached after advancing `j` places from `start` in a cyclic
/// list of length `n`.
pub open spec fn cyclic_index(start: int, j: int, n: int) -> int {
    if start + j < n {
        start + j
    } else {
        start + j - n
    }
}

/// The entries that the expansion appends for division `idx`: the division
/// itself, then whichever eclipse bounds fall strictly inside its interval —
/// up to the next division, or to the orbit period for the last division —
/// smaller bound first.  `first` and `last` are the ordered eclipse bounds
/// and `ins` says whether insertion is enabled at all.
pub open spec fn division_group(
    divs: Seq<i64>,
    period: i64,
    first: i64,
    last: i64,
    ins: bool,
    idx: int,
) -> Seq<(usize, i64)> {
    let upper = next_boundary(divs, period, idx);
    let base = seq![(idx as usize, divs[idx])];
    let with_first = if ins && first < upper && first > divs[idx] {
        base.push((idx as usize, first))
    } else {
        base
    };
    if ins && last < upper && last > divs[idx] {
        with_first.push((idx as usize, last))
    } else {
        with_first
    }
}

/// The expansion of the first `k` divisions.
pub open spec fn expand_prefix(
    divs: Seq<i64>,
    period: i64,
    first: i64,
    last: i64,
    ins: bool,
    k: int,
) -> Seq<(usize, i64)>
    decreases k,
{
    if k <= 0 {
        Seq::empty()
    } else {
        expand_prefix(divs, period, first, last, ins, k - 1) + division_group(
            divs,
            period,
            first,
            last,
            ins,
            k - 1,
        )
    }
}

/// Whether the eclipse bounds are inserted at all: both bounds real (the
/// sentinel is negative) and the window non-empty.
pub open spec fn eclipse_insertion(eclipse_start: i64, eclipse_end: i64) -> bool {
    eclipse_start != eclipse_end && eclipse_start >= 0 && eclipse_end >= 0
}

/// The full expanded division list for the given eclipse window.
pub open spec fn expand_divisions(
    divs: Seq<i64>,
    period: i64,
    eclipse_start: i64,
    eclipse_end: i64,
) -> Seq<(usize, i64)> {
    let first = if eclipse_end < eclipse_start {
        eclipse_end
    } else {
        eclipse_start
    };
    let last = if eclipse_end < eclipse_start {
        eclipse_start
    } else {
        eclipse_end
    };
    expand_prefix(
        divs,
        period,
        first,
        last,
        eclipse_insertion(eclipse_start, eclipse_end),
        divs.len() as int,
    )
}

/// The times of an expanded division list.
pub open spec fn expanded_times(expanded: Seq<(usize, i64)>) -> Seq<i64> {
    Seq::new(expanded.len(), |i: int| expanded[i].1)
}

/// The eclipse labels of an expanded division list.
pub open spec fn eclipse_labels(
    expanded: Seq<(usize, i64)>,
    eclipse_start: i64,
    eclipse_end: i64,
) -> Seq<(usize, bool)> {
    Seq::new(expanded.len(), |i: int| (expanded[i].0, in_eclipse(eclipse_start, eclipse_end, expanded[i].1)))
}

/// Shape of a prefix of the expansion: at least one entry per division, every
/// entry's provenance index below `k`, times strictly increasing, all times
/// within `[divs[0], divs[k])` (or `[0, period)` for the full list).
pub proof fn lemma_expand_prefix_wf(
    divs: Seq<i64>,
    period: i64,
    first: i64,
    last: i64,
    ins: bool,
    k: int,
)
    requires
        wf_divisions(divs, period),
        ins ==> 0 <= first < last,
        0 <= k <= divs.len(),
    ensures
        expand_prefix(divs, period, first, last, ins, k).len() >= k,
        forall|i: int|
            0 <= i < expand_prefix(divs, period, first, last, ins, k).len() ==> (
            #[trigger] expand_prefix(divs, period, first, last, ins, k)[i]).0 < k,
        forall|i: int|
            0 <= i < expand_prefix(divs, period, first, last, ins, k).len() ==> 0 <= (
            #[trigger] expand_prefix(divs, period, first, last, ins, k)[i]).1 < period,
        forall|i: int|
            0 <= i < expand_prefix(divs, period, first, last, ins, k).len() && k < divs.len()
                ==> (#[trigger] expand_prefix(divs, period, first, last, ins, k)[i]).1 < divs[k],
        forall|i: int, j: int|
            0 <= i < j < expand_prefix(divs, period, first, last, ins, k).len() ==> (
            #[trigger] expand_prefix(divs, period, first, last, ins, k)[i]).1 < (
            #[trigger] expand_prefix(divs, period, first, last, ins, k)[j]).1,
        k >= 1 ==> expand_prefix(divs, period, first, last, ins, k)[0] == (0usize, divs[0]),
    decreases k,
{
    if k > 0 {
        lemma_expand_prefix_wf(divs, period, first, last, ins, k - 1);
        let prev = expand_prefix(divs, period, first, last, ins, k - 1);
        let grp = division_group(divs, period, first, last, ins, k - 1);
        let cur = expand_prefix(divs, period, first, last, ins, k);
        assert(cur == prev + grp);
        // Entries of the group carry index k - 1 and times in
        // [divs[k-1], next_boundary(k-1)): up to divs[k], or up to the period
        // for the last division.
        if k < divs.len() {
            lemma_divisions_sorted(divs, period, k - 1, k);
        }
        assert forall|i: int| 0 <= i < cur.len() implies (#[trigger] cur[i]).0 < k by {
            if i < prev.len() {
                assert(cur[i] == prev[i]);
            } else {
                assert(cur[i] == grp[i - prev.len()]);
            }
        }
        assert forall|i: int| 0 <= i < cur.len() implies 0 <= (#[trigger] cur[i]).1 < period by {
            if i < prev.len() {
                assert(cur[i] == prev[i]);
            } else {
                assert(cur[i] == grp[i - prev.len()]);
            }
        }
        assert forall|i: int| 0 <= i < cur.len() && k < divs.len() implies (#[trigger] cur[i]).1
            < divs[k] by {
            if i < prev.len() {
                assert(cur[i] == prev[i]);
                assert(prev[i].1 < divs[k - 1]);
            } else {
                assert(cur[i] == grp[i - prev.len()]);
            }
        }
        assert forall|i: int, j: int| 0 <= i < j < cur.len() implies (#[trigger] cur[i]).1 < (
        #[trigger] cur[j]).1 by {
            if j < prev.len() {
                assert(cur[i] == prev[i] && cur[j] == prev[j]);
            } else if i >= prev.len() {
                assert(cur[i] == grp[i - prev.len()] && cur[j] == grp[j - prev.len()]);
            } else {
                assert(cur[i] == prev[i] && cur[j] == grp[j - prev.len()]);
                assert(prev[i].1 < divs[k - 1]);
            }
        }
    }
}

impl OrbitManager {
    /// The manager's state is meaningful: a well-formed expanded division
    /// list, one eclipse label per division, and a cursor inside the list.
    pub open spec fn wf(&self) -> bool {
        &&& wf_divisions(self.time_divisions@, self.orbit_period)
        &&& self.eclipse_divisions@.len() == self.time_divisions@.len()
        &&& self.division_idx < self.time_divisions@.len()
    }

    /// Expands the user's divisions with the eclipse bounds.  Each produced
    /// pair carries the index of the user division it came from.  A bound is
    /// inserted only strictly inside the interval of the division it lies in
    /// — the last division's interval runs to the orbit period; an empty
    /// window (equal bounds) or a sentinel bound (negative) inserts nothing.
    pub fn expand_time_divisions(
        orbit_divisions: &Vec<i64>,
        orbit_period: i64,
        eclipse_start: i64,
        eclipse_end: i64,
    ) -> (r: Vec<(usize, i64)>)
        requires
            orbit_divisions@.len() >= 1,
        ensures
            r@ == expand_divisions(orbit_divisions@, orbit_period, eclipse_start, eclipse_end),
    {
        let first: i64 = if eclipse_end < eclipse_start {
            eclipse_end
        } else {
            eclipse_start
        };
        let last: i64 = if eclipse_end < eclipse_start {
            eclipse_start
        } else {
            eclipse_end
        };
        let ins: bool = eclipse_start != eclipse_end && eclipse_start >= 0 && eclipse_end >= 0;
        let n: usize = orbit_divisions.len();
        let mut expanded: Vec<(usize, i64)> = Vec::new();
        let mut idx: usize = 0;
        while idx < n
            invariant
                n == orbit_divisions@.len(),
                idx <= n,
                expanded@ == expand_prefix(
                    orbit_divisions@,
                    orbit_period,
                    first,
                    last,
                    ins,
                    idx as int,
                ),
            decreases n - idx,
        {
            let upper: i64 = if idx + 1 == n {
                orbit_period
            } else {
                orbit_divisions[idx + 1]
            };
            expanded.push((idx, orbit_divisions[idx]));
            if ins && first < upper && first > orbit_divisions[idx] {
                expanded.push((idx, first));
            }
            if ins && last < upper && last > orbit_divisions[idx] {
                expanded.push((idx, last));
            }
            proof {
                assert(expanded@ =~= expand_prefix(
                    orbit_divisions@,
                    orbit_period,
                    first,
                    last,
                    ins,
                    idx as int,
                ) + division_group(orbit_divisions@, orbit_period, first, last, ins, idx as int));
            }
            idx += 1;
        }
        expanded
    }

    /// Labels every expanded division with whether its start lies in the
    /// eclipse window.
    pub fn expand_eclipse_divisions(
        expanded_time_divisions: &Vec<(usize, i64)>,
        eclipse_start: i64,
        eclipse_end: i64,
    ) -> (r: Vec<(usize, bool)>)
        ensures
            r@ == eclipse_labels(expanded_time_divisions@, eclipse_start, eclipse_end),
    {
        let n: usize = expanded_time_divisions.len();
        let mut labels: Vec<(usize, bool)> = Vec::new();
        let mut i: usize = 0;
        while i < n
            invariant
                n == expanded_time_divisions@.len(),
                i <= n,
                labels@.len() == i,
                forall|j: int|
                    0 <= j < i ==> labels@[j] == (eclipse_labels(
                        expanded_time_divisions@,
                        eclipse_start,
                        eclipse_end,
                    ))[j],
            decreases n - i,
        {
            let (orig_idx, t) = expanded_time_divisions[i];
            let lab: bool = Self::is_in_eclipse(eclipse_start, eclipse_end, t);
            labels.push((orig_idx, lab));
            i += 1;
        }
        proof {
            assert(labels@ =~= eclipse_labels(expanded_time_divisions@, eclipse_start, eclipse_end));
        }
        labels
    }

    /// Whether `orbit_time` is inside the (possibly wrapping) eclipse window.
    pub fn is_in_eclipse(eclipse_start: i64, eclipse_end: i64, orbit_time: i64) -> (r: bool)
        ensures
            r == in_eclipse(eclipse_start, eclipse_end, orbit_time),
    {
        if eclipse_start <= eclipse_end {
            orbit_time >= eclipse_start && orbit_time < eclipse_end
        } else {
            orbit_time < eclipse_end || orbit_time >= eclipse_start
        }
    }

    /// Builds the manager: expands the divisions, labels them, and places the
    /// cursor on the first division.
    pub fn new(parameters: &OrbitParameters) -> (r: OrbitManager)
        requires
            wf_divisions(parameters.orbit_divisions@, parameters.orbit_period),
        ensures
            r.wf(),
            r.orbit_period == parameters.orbit_period,
            r.time_divisions@ == expanded_times(
                expand_divisions(
                    parameters.orbit_divisions@,
                    parameters.orbit_period,
                    parameters.eclipse_start,
                    parameters.eclipse_end,
                ),
            ),
            r.eclipse_divisions@ == eclipse_labels(
                expand_divisions(
                    parameters.orbit_divisions@,
                    parameters.orbit_period,
                    parameters.eclipse_start,
                    parameters.eclipse_end,
                ),
                parameters.eclipse_start,
                parameters.eclipse_end,
            ),
            r.division_idx == 0,
    {
        let expanded = Self::expand_time_divisions(
            &parameters.orbit_divisions,
            parameters.orbit_period,
            parameters.eclipse_start,
            parameters.eclipse_end,
        );
        let eclipse_divisions = Self::expand_eclipse_divisions(
            &expanded,
            parameters.eclipse_start,
            parameters.eclipse_end,
        );
        let n: usize = expanded.len();
        let mut time_divisions: Vec<i64> = Vec::new();
        let mut i: usize = 0;
        while i < n
            invariant
                n == expanded@.len(),
                i <= n,
                time_divisions@.len() == i,
                forall|j: int| 0 <= j < i ==> time_divisions@[j] == (expanded_times(expanded@))[j],
            decreases n - i,
        {
            let (_orig_idx, t) = expanded[i];
            time_divisions.push(t);
            i += 1;
        }
        proof {
            assert(time_divisions@ =~= expanded_times(expanded@));
            let first = if parameters.eclipse_end < parameters.eclipse_start {
                parameters.eclipse_end
            } else {
                parameters.eclipse_start
            };
            let last = if parameters.eclipse_end < parameters.eclipse_start {
                parameters.eclipse_start
            } else {
                parameters.eclipse_end
            };
            let ins = eclipse_insertion(parameters.eclipse_start, parameters.eclipse_end);
            lemma_expand_prefix_wf(
                parameters.orbit_divisions@,
                parameters.orbit_period,
                first,
                last,
                ins,
                parameters.orbit_divisions@.len() as int,
            );
            assert(wf_divisions(time_divisions@, parameters.orbit_period));
        }
        OrbitManager {
            orbit_period: parameters.orbit_period,
            time_divisions,
            eclipse_divisions,
            division_idx: 0,
        }
    }

    /// The expanded division list with eclipse labels, as consumed by
    /// assembly to build one forcing vector per entry.
    pub fn eclipse_divisions(&self) -> (r: &Vec<(usize, bool)>)
        ensures
            r@ == self.eclipse_divisions@,
    {
        &self.eclipse_divisions
    }

    /// Finds the division containing `orbit_time`, scanning cyclically from
    /// `start` so that a sequence of nearby queries stays amortized constant.
    fn find_division_idx(divs: &Vec<i64>, period: i64, start: usize, orbit_time: i64) -> (r: usize)
        requires
            wf_divisions(divs@, period),
            start < divs@.len(),
            0 <= orbit_time < period,
        ensures
            division_contains(divs@, period, r as int, orbit_time),
    {
        let n: usize = divs.len();
        let mut k: usize = 0;
        while k < n
            invariant
                n == divs@.len(),
                wf_divisions(divs@, period),
                start < n,
                0 <= orbit_time < period,
                k <= n,
                forall|j: int|
                    0 <= j < k ==> !#[trigger] division_contains(
                        divs@,
                        period,
                        cyclic_index(start as int, j, n as int),
                        orbit_time,
                    ),
            decreases n - k,
        {
            let cand: usize = if start < n - k {
                start + k
            } else {
                start - (n - k)
            };
            proof {
                assert(cand as int == cyclic_index(start as int, k as int, n as int));
            }
            let lower_ok: bool = divs[cand] <= orbit_time;
            let upper_ok: bool = if cand + 1 == n {
                orbit_time < period
            } else {
                orbit_time < divs[cand + 1]
            };
            if lower_ok && upper_ok {
                return cand;
            }
            k += 1;
        }
        proof {
            let idx = lemma_division_exists(divs@, period, orbit_time);
            let j = if idx >= start {
                idx - start
            } else {
                idx + n - start
            };
            assert(0 <= j < n);
            assert(cyclic_index(start as int, j, n as int) == idx);
            assert(false);
        }
        0
    }

    /// Moves the cursor to the division containing `orbit_time`.  Only the
    /// cursor changes.
    pub fn update_division_idx(&mut self, orbit_time: i64)
        requires
            old(self).wf(),
            0 <= orbit_time < old(self).orbit_period,
        ensures
            final(self).wf(),
            final(self).orbit_period == old(self).orbit_period,
            final(self).time_divisions == old(self).time_divisions,
            final(self).eclipse_divisions == old(self).eclipse_divisions,
            division_contains(
                old(self).time_divisions@,
                old(self).orbit_period,
                final(self).division_idx as int,
                orbit_time,
            ),
    {
        let idx = Self::find_division_idx(
            &self.time_divisions,
            self.orbit_period,
            self.division_idx,
            orbit_time,
        );
        self.division_idx = idx;
    }

    /// The index into the expanded division list that applies at simulation
    /// time `time`.  Idempotent: querying the same or any time in the same
    /// division again returns the same index.
    pub fn current_index(&mut self, time: i64) -> (r: usize)
        requires
            old(self).wf(),
            time >= 0,
        ensures
            final(self).wf(),
            final(self).orbit_period == old(self).orbit_period,
            final(self).time_divisions == old(self).time_divisions,
            final(self).eclipse_divisions == old(self).eclipse_divisions,
            r == final(self).division_idx,
            division_contains(
                old(self).time_divisions@,
                old(self).orbit_period,
                r as int,
                time % old(self).orbit_period,
            ),
    {
        let orbit_time: i64 = time % self.orbit_period;
        self.update_division_idx(orbit_time);
        self.division_idx
    }

    /// The time from `time` to the next division boundary (wrapping to the
    /// orbit period after the last division).  Adding the result to the
    /// orbit-local time lands exactly on that boundary, and the result is
    /// always at least one tick: a run bounded by it never crosses a change
    /// of forcing vector.
    pub fn time_to_next(&mut self, time: i64) -> (r: i64)
        requires
            old(self).wf(),
            time >= 0,
        ensures
            final(self).wf(),
            final(self).orbit_period == old(self).orbit_period,
            final(self).time_divisions == old(self).time_divisions,
            final(self).eclipse_divisions == old(self).eclipse_divisions,
            division_contains(
                old(self).time_divisions@,
                old(self).orbit_period,
                final(self).division_idx as int,
                time % old(self).orbit_period,
            ),
            time % old(self).orbit_period + r == next_boundary(
                old(self).time_divisions@,
                old(self).orbit_period,
                final(self).division_idx as int,
            ),
            r >= 1,
    {
        let orbit_time: i64 = time % self.orbit_period;
        self.update_division_idx(orbit_time);
        let n: usize = self.time_divisions.len();
        let next_idx: usize = if self.division_idx + 1 == n {
            0
        } else {
            self.division_idx + 1
        };
        if next_idx == 0 {
            self.orbit_period - orbit_time
        } else {
            self.time_divisions[next_idx] - orbit_time
        }
    }
}

} // verus!
