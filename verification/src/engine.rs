//! The engine's outer loop, as a schedule.
//!
//! The engine decides, for the whole simulation, when a snapshot is taken,
//! when the forcing vector changes phase, and how many steps each solver run
//! may take so that no run crosses a snapshot boundary and every run starts
//! under the forcing vector of its own orbit division.  Those decisions are
//! computed and verified here as a list of [`Action`]s; executing them
//! against a concrete solver and writer is the surrounding application's job.

use vstd::arithmetic::div_mod::{
    lemma_fundamental_div_mod, lemma_fundamental_div_mod_converse, lemma_mod_bound,
};
use vstd::arithmetic::mul::lemma_mul_inequality;
use vstd::prelude::*;

use crate::orbit_manager::{division_contains, next_boundary, OrbitManager};
use crate::FemError;

verus! {

/// The two supported solver variants.
#[derive(Clone, Copy, Debug, PartialEq, Eq, Structural)]
pub enum Solver {
    Implicit,
    GPU,
}

/// Simulation timing, in integer ticks.
pub struct FEMParameters {
    pub simulation_time: i64,
    pub time_step: i64,
    pub snapshot_period: i64,
}

/// One instruction of the engine's schedule, in order: read the temperature
/// vector and hand it to the results writer; switch the solver to the forcing
/// vector of the given expanded-division index; advance the solver by the
/// given number of steps.
#[derive(Clone, Copy, Debug, PartialEq, Eq, Structural)]
pub enum Action {
    Snapshot,
    SetPhase(usize),
    RunFor(u64),
}

/// The engine: step counts derived from the timing parameters, plus the
/// orbit phase cursor and the last phase index handed to the solver.
pub struct FEMEngine {
    pub simulation_steps: u64,
    pub time_step: i64,
    pub snapshot_steps: u64,
    pub orbit_manager: OrbitManager,
    pub f_index: usize,
}

/// Whether `dividend` is a non-negative whole number of `divisor`s, for a
/// positive divisor.
pub open spec fn spec_is_multiple(dividend: i64, divisor: i64) -> bool {
    dividend >= 0 && divisor >= 1 && dividend as int % divisor as int == 0
}

/// Division of non-negative `a` by positive `b`, rounded up.
pub open spec fn ceil_div(a: int, b: int) -> int {
    (a + b - 1) / b
}

/// How many snapshots the schedule has emitted strictly before reaching
/// `step`: one per multiple of `snap` in `[0, step)`.
pub open spec fn snapshots_before(step: int, snap: int) -> int {
    step / snap + if step % snap == 0 {
        0int
    } else {
        1int
    }
}

/// The number of `Snapshot` actions in a schedule.
pub open spec fn count_snapshots(s: Seq<Action>) -> int
    decreases s.len(),
{
    if s.len() == 0 {
        0
    } else {
        count_snapshots(s.drop_last()) + match s.last() {
            Action::Snapshot => 1int,
            _ => 0int,
        }
    }
}

/// The total number of solver steps a schedule requests.
pub open spec fn run_total(s: Seq<Action>) -> int
    decreases s.len(),
{
    if s.len() == 0 {
        0
    } else {
        run_total(s.drop_last()) + match s.last() {
            Action::RunFor(x) => x as int,
            _ => 0int,
        }
    }
}

/// Every run is between one step and one snapshot period, and every phase
/// index points into the expanded division list.
pub open spec fn plan_ok(s: Seq<Action>, snap: u64, n_divisions: int) -> bool {
    forall|i: int|
        0 <= i < s.len() ==> match #[trigger] s[i] {
            Action::Snapshot => true,
            Action::SetPhase(p) => p < n_divisions,
            Action::RunFor(x) => 1 <= x <= snap,
        }
}

/// The solver steps taken before the schedule's `i`-th action.
pub open spec fn prefix_run(s: Seq<Action>, i: int) -> int {
    run_total(s.take(i))
}

/// Snapshot cadence, alignment half: the `k`-th snapshot of the schedule is
/// taken after exactly `k * snap` solver steps — every frame lies on a
/// snapshot boundary of the step grid.
#[verifier::opaque]
pub open spec fn snapshots_aligned(s: Seq<Action>, snap: u64) -> bool {
    forall|i: int|
        0 <= i < s.len() && (#[trigger] s[i]) is Snapshot ==> prefix_run(s, i)
            == count_snapshots(s.take(i)) * snap
}

/// Appending keeps the schedule aligned, provided a new snapshot lands on
/// the boundary its count demands.
proof fn lemma_aligned_push(s: Seq<Action>, a: Action, snap: u64)
    requires
        snapshots_aligned(s, snap),
        a is Snapshot ==> run_total(s) == count_snapshots(s) * snap,
    ensures
        snapshots_aligned(s.push(a), snap),
{
    reveal(snapshots_aligned);
    let t = s.push(a);
    assert forall|i: int| 0 <= i < t.len() && (#[trigger] t[i]) is Snapshot implies prefix_run(
        t,
        i,
    ) == count_snapshots(t.take(i)) * snap by {
        assert(t.take(i) =~= s.take(i));
        if i < s.len() {
            assert(s[i] == t[i]);
        } else {
            assert(s.take(i) =~= s);
        }
    }
}

/// The phase index in effect just before the schedule's `i`-th action,
/// starting from `init`.
pub open spec fn phase_at(s: Seq<Action>, init: int, i: int) -> int
    decreases i,
{
    if i <= 0 {
        init
    } else {
        match s[i - 1] {
            Action::SetPhase(p) => p as int,
            _ => phase_at(s, init, i - 1),
        }
    }
}

/// The orbit-local time at which the schedule's `i`-th action happens.
pub open spec fn orbit_time_at(s: Seq<Action>, i: int, dt: i64, period: i64) -> int {
    (prefix_run(s, i) * dt) % (period as int)
}

/// Phase discipline over an expanded division list `divs`: the forcing
/// vector is switched only on an actual change, and then to exactly the
/// division containing the current orbit-local time; and when a run starts,
/// the phase in effect is the division containing the run's start time, and
/// every one of the run's steps begins strictly before that division's
/// closing boundary — the forcing vector is the right one throughout the
/// run.
#[verifier::opaque]
pub open spec fn plan_phases_ok(
    s: Seq<Action>,
    init: int,
    divs: Seq<i64>,
    period: i64,
    dt: i64,
) -> bool {
    forall|i: int|
        0 <= i < s.len() ==> match #[trigger] s[i] {
            Action::Snapshot => true,
            Action::SetPhase(p) => p as int != phase_at(s, init, i) && division_contains(
                divs,
                period,
                p as int,
                orbit_time_at(s, i, dt, period) as i64,
            ),
            Action::RunFor(n) => {
                let ph = phase_at(s, init, i);
                let tau = orbit_time_at(s, i, dt, period);
                &&& division_contains(divs, period, ph, tau as i64)
                &&& tau + (n as int - 1) * dt < next_boundary(divs, period, ph)
            },
        }
}

/// The empty schedule satisfies both quantified plan predicates.
proof fn lemma_plan_empty(init: int, divs: Seq<i64>, period: i64, dt: i64, snap: u64)
    ensures
        snapshots_aligned(Seq::<Action>::empty(), snap),
        plan_phases_ok(Seq::<Action>::empty(), init, divs, period, dt),
{
    reveal(snapshots_aligned);
    reveal(plan_phases_ok);
}

/// An appended action sees the same phase history as the list it extends.
proof fn lemma_phase_at_push(s: Seq<Action>, a: Action, init: int, i: int)
    requires
        0 <= i <= s.len(),
    ensures
        phase_at(s.push(a), init, i) == phase_at(s, init, i),
    decreases i,
{
    if i > 0 {
        assert(s.push(a)[i - 1] == s[i - 1]);
        lemma_phase_at_push(s, a, init, i - 1);
    }
}

/// An appended action leaves every earlier prefix's run total alone.
proof fn lemma_prefix_run_push(s: Seq<Action>, a: Action, i: int)
    requires
        0 <= i <= s.len(),
    ensures
        prefix_run(s.push(a), i) == prefix_run(s, i),
{
    assert(s.push(a).take(i) =~= s.take(i));
}

/// Appending keeps the phase discipline, provided the new action obeys it
/// at the end of the list.
proof fn lemma_phases_push(
    s: Seq<Action>,
    a: Action,
    init: int,
    divs: Seq<i64>,
    period: i64,
    dt: i64,
)
    requires
        plan_phases_ok(s, init, divs, period, dt),
        ({
            let ph = phase_at(s, init, s.len() as int);
            let tau = (run_total(s) * dt) % (period as int);
            match a {
                Action::Snapshot => true,
                Action::SetPhase(p) => p as int != ph && division_contains(
                    divs,
                    period,
                    p as int,
                    tau as i64,
                ),
                Action::RunFor(n) => division_contains(divs, period, ph, tau as i64) && tau + (
                n as int - 1) * dt < next_boundary(divs, period, ph),
            }
        }),
    ensures
        plan_phases_ok(s.push(a), init, divs, period, dt),
{
    reveal(plan_phases_ok);
    let t = s.push(a);
    assert(s.take(s.len() as int) =~= s);
    assert forall|i: int| 0 <= i < t.len() implies match #[trigger] t[i] {
        Action::Snapshot => true,
        Action::SetPhase(p) => p as int != phase_at(t, init, i) && division_contains(
            divs,
            period,
            p as int,
            orbit_time_at(t, i, dt, period) as i64,
        ),
        Action::RunFor(n) => {
            let ph = phase_at(t, init, i);
            let tau = orbit_time_at(t, i, dt, period);
            &&& division_contains(divs, period, ph, tau as i64)
            &&& tau + (n as int - 1) * dt < next_boundary(divs, period, ph)
        },
    } by {
        lemma_phase_at_push(s, a, init, i);
        lemma_prefix_run_push(s, a, i);
        if i < s.len() {
            assert(t[i] == s[i]);
        } else {
            assert(t[i] == a);
        }
    }
}

/// Appending one action adds its snapshot and its run steps to the counts.
proof fn lemma_plan_push(s: Seq<Action>, a: Action)
    ensures
        count_snapshots(s.push(a)) == count_snapshots(s) + match a {
            Action::Snapshot => 1int,
            _ => 0int,
        },
        run_total(s.push(a)) == run_total(s) + match a {
            Action::RunFor(x) => x as int,
            _ => 0int,
        },
{
    assert(s.push(a).drop_last() =~= s);
    assert(s.push(a).last() == a);
}

/// A run of at most the ceiling of `ttn / dt` steps has every step begin
/// strictly before `ttn` has elapsed.
proof fn lemma_run_before_boundary(n: int, ttn: int, dt: int)
    requires
        dt >= 1,
        ttn >= 1,
        1 <= n <= ceil_div(ttn, dt),
    ensures
        (n - 1) * dt <= ttn - 1,
{
    let q = ceil_div(ttn, dt);
    lemma_fundamental_div_mod(ttn + dt - 1, dt);
    lemma_mod_bound(ttn + dt - 1, dt);
    assert(dt * q <= ttn + dt - 1);
    assert(dt * (q - 1) <= ttn - 1) by (nonlinear_arith)
        requires
            dt * q <= ttn + dt - 1,
    ;
    lemma_mul_inequality(n - 1, q - 1, dt);
    assert((q - 1) * dt == dt * (q - 1)) by (nonlinear_arith);
}

/// Advancing by at most the distance to the next snapshot boundary stays
/// within the simulation and passes at most the one boundary it may start on.
proof fn lemma_schedule_advance(step: int, n: int, snap: int, sim: int)
    requires
        snap >= 1,
        0 <= step < sim,
        sim % snap == 0,
        1 <= n <= snap - step % snap,
    ensures
        step + n <= sim,
        snapshots_before(step + n, snap) == snapshots_before(step, snap) + if step % snap == 0 {
            1int
        } else {
            0int
        },
{
    let q = step / snap;
    let r = step % snap;
    lemma_fundamental_div_mod(step, snap);
    lemma_mod_bound(step, snap);
    if r + n < snap {
        lemma_fundamental_div_mod_converse(step + n, snap, q, r + n);
    } else {
        assert(step + n == (q + 1) * snap + 0) by (nonlinear_arith)
            requires
                step == snap * q + r,
                r + n == snap,
        ;
        lemma_fundamental_div_mod_converse(step + n, snap, q + 1, 0);
    }
    let m = sim / snap;
    lemma_fundamental_div_mod(sim, snap);
    lemma_mod_bound(sim, snap);
    assert(sim == snap * m);
    if q + 1 > m {
        lemma_mul_inequality(m, q, snap);
        assert(step >= snap * q) by (nonlinear_arith)
            requires
                step == snap * q + r,
                r >= 0,
        ;
        assert(false);
    }
    lemma_mul_inequality(q + 1, m, snap);
    assert(step + n <= snap * (q + 1)) by (nonlinear_arith)
        requires
            step == snap * q + r,
            r + n <= snap,
    ;
    assert(snap * (q + 1) == (q + 1) * snap) by (nonlinear_arith);
    assert(snap * m == m * snap) by (nonlinear_arith);
}

impl FEMEngine {
    /// The engine's state is meaningful: positive step counts, a simulation
    /// that is a whole number of snapshot intervals, times that stay within
    /// the tick range, and a well-formed orbit.
    pub open spec fn wf(&self) -> bool {
        &&& self.time_step >= 1
        &&& self.snapshot_steps >= 1
        &&& self.simulation_steps as int % self.snapshot_steps as int == 0
        &&& self.simulation_steps as int * self.time_step as int <= i64::MAX as int
        &&& self.orbit_manager.wf()
        &&& self.f_index < self.orbit_manager.time_divisions@.len()
    }

    /// Whether `dividend` is a whole number of `divisor`s.
    pub fn is_multiple(dividend: i64, divisor: i64) -> (r: bool)
        ensures
            r == spec_is_multiple(dividend, divisor),
    {
        if dividend < 0 || divisor < 1 {
            false
        } else {
            dividend % divisor == 0
        }
    }

    /// Checks the timing parameters and derives the step counts.  Fails, in
    /// this order, when the time step exceeds the snapshot period, when the
    /// simulation time is not a whole number of snapshot periods, and when
    /// the snapshot period is not a whole number of time steps.
    pub fn new(params: &FEMParameters, orbit_manager: OrbitManager) -> (r: Result<
        FEMEngine,
        FemError,
    >)
        requires
            orbit_manager.wf(),
        ensures
            r is Err <==> params.time_step > params.snapshot_period || !spec_is_multiple(
                params.simulation_time,
                params.snapshot_period,
            ) || !spec_is_multiple(params.snapshot_period, params.time_step),
            params.time_step > params.snapshot_period <==> r == Err::<FEMEngine, FemError>(
                FemError::TimeStepAboveSnapshotPeriod,
            ),
            params.time_step <= params.snapshot_period && !spec_is_multiple(
                params.simulation_time,
                params.snapshot_period,
            ) <==> r == Err::<FEMEngine, FemError>(FemError::SimulationTimeNotMultiple),
            params.time_step <= params.snapshot_period && spec_is_multiple(
                params.simulation_time,
                params.snapshot_period,
            ) && !spec_is_multiple(params.snapshot_period, params.time_step) <==> r == Err::<
                FEMEngine,
                FemError,
            >(FemError::SnapshotPeriodNotMultiple),
            r is Ok ==> {
                let e = r->Ok_0;
                &&& e.wf()
                &&& e.time_step == params.time_step
                &&& e.simulation_steps == params.simulation_time as int / params.time_step as int
                &&& e.snapshot_steps == params.snapshot_period as int / params.time_step as int
                &&& e.orbit_manager == orbit_manager
                &&& e.f_index == 0
            },
    {
        if params.time_step > params.snapshot_period {
            return Err(FemError::TimeStepAboveSnapshotPeriod);
        }
        if !Self::is_multiple(params.simulation_time, params.snapshot_period) {
            return Err(FemError::SimulationTimeNotMultiple);
        }
        if !Self::is_multiple(params.snapshot_period, params.time_step) {
            return Err(FemError::SnapshotPeriodNotMultiple);
        }
        let simulation_steps: u64 = (params.simulation_time / params.time_step) as u64;
        let snapshot_steps: u64 = (params.snapshot_period / params.time_step) as u64;
        proof {
            Self::lemma_new_wf(
                params.simulation_time as int,
                params.snapshot_period as int,
                params.time_step as int,
            );
        }
        Ok(
            FEMEngine {
                simulation_steps,
                time_step: params.time_step,
                snapshot_steps,
                orbit_manager,
                f_index: 0,
            },
        )
    }

    /// The derived step counts inherit divisibility and stay in range.
    proof fn lemma_new_wf(sim: int, snap: int, dt: int)
        requires
            dt >= 1,
            dt <= snap,
            sim >= 0,
            sim % snap == 0,
            snap % dt == 0,
        ensures
            snap / dt >= 1,
            (sim / dt) % (snap / dt) == 0,
            (sim / dt) * dt <= sim,
            0 <= sim / dt <= sim,
    {
        let b = snap / dt;
        lemma_fundamental_div_mod(snap, dt);
        assert(snap == dt * b);
        assert(b >= 1) by (nonlinear_arith)
            requires
                snap == dt * b,
                dt >= 1,
                snap >= dt,
        ;
        let a = sim / snap;
        lemma_fundamental_div_mod(sim, snap);
        assert(sim == snap * a);
        assert(sim == dt * (a * b) && a * b == b * a + 0) by (nonlinear_arith)
            requires
                sim == snap * a,
                snap == dt * b,
        ;
        assert(a * b >= 0) by (nonlinear_arith)
            requires
                sim == dt * (a * b),
                sim >= 0,
                dt >= 1,
        ;
        lemma_fundamental_div_mod_converse(sim, dt, a * b, 0);
        assert(sim / dt == a * b);
        lemma_fundamental_div_mod_converse(a * b, b, a, 0);
        assert((sim / dt) * dt == sim) by (nonlinear_arith)
            requires
                sim / dt == a * b,
                sim == dt * (a * b),
        ;
        assert(sim / dt <= sim) by (nonlinear_arith)
            requires
                (sim / dt) * dt <= sim,
                dt >= 1,
                sim / dt >= 0,
        ;
    }

    /// The bounded run length: up to the next snapshot boundary, and no more
    /// than the steps that cover the time to the next orbit division.
    pub fn calculate_iteration_steps(
        next_division_time: i64,
        snapshot_steps: u64,
        current_step: u64,
        time_step: i64,
    ) -> (r: u64)
        requires
            snapshot_steps >= 1,
            time_step >= 1,
            next_division_time >= 0,
        ensures
            r as int == vstd::math::min(
                snapshot_steps as int - current_step as int % snapshot_steps as int,
                ceil_div(next_division_time as int, time_step as int),
            ),
    {
        let next_snap_steps: u64 = snapshot_steps - current_step % snapshot_steps;
        let nd: u64 = next_division_time as u64;
        let dtu: u64 = time_step as u64;
        let q: u64 = nd / dtu;
        let rem: u64 = nd % dtu;
        let next_division_steps: u64 = if rem != 0 {
            q + 1
        } else {
            q
        };
        proof {
            lemma_fundamental_div_mod(nd as int, dtu as int);
            lemma_mod_bound(nd as int, dtu as int);
            assert(nd as int == dtu as int * q as int + rem as int);
            if rem != 0 {
                assert(nd as int + dtu as int - 1 == (q as int + 1) * dtu as int + (rem as int
                    - 1)) by (nonlinear_arith)
                    requires
                        nd as int == dtu as int * q as int + rem as int,
                ;
                lemma_fundamental_div_mod_converse(
                    nd as int + dtu as int - 1,
                    dtu as int,
                    q as int + 1,
                    rem as int - 1,
                );
            } else {
                assert(nd as int + dtu as int - 1 == q as int * dtu as int + (dtu as int
                    - 1)) by (nonlinear_arith)
                    requires
                        nd as int == dtu as int * q as int + rem as int,
                        rem as int == 0,
                ;
                lemma_fundamental_div_mod_converse(
                    nd as int + dtu as int - 1,
                    dtu as int,
                    q as int,
                    dtu as int - 1,
                );
            }
        }
        if next_snap_steps < next_division_steps {
            next_snap_steps
        } else {
            next_division_steps
        }
    }

    /// Produces the whole schedule: starting from step zero, take a snapshot
    /// at every multiple of the snapshot interval, switch phase whenever the
    /// orbit's division changes, and run the solver up to the nearer of the
    /// next snapshot boundary and the next division boundary; one final
    /// snapshot closes the simulation.
    ///
    /// Snapshot cadence: the writer receives exactly
    /// `simulation_steps / snapshot_steps + 1` snapshots, the runs add up to
    /// exactly the simulation's step count, and the `k`-th snapshot is taken
    /// after exactly `k * snapshot_steps` solver steps.
    #[verifier::rlimit(100)]
    pub fn run(&mut self) -> (plan: Vec<Action>)
        requires
            old(self).wf(),
        ensures
            final(self).wf(),
            final(self).simulation_steps == old(self).simulation_steps,
            final(self).snapshot_steps == old(self).snapshot_steps,
            final(self).time_step == old(self).time_step,
            final(self).orbit_manager.time_divisions == old(self).orbit_manager.time_divisions,
            final(self).orbit_manager.eclipse_divisions == old(
                self,
            ).orbit_manager.eclipse_divisions,
            count_snapshots(plan@) == old(self).simulation_steps as int / old(
                self,
            ).snapshot_steps as int + 1,
            run_total(plan@) == old(self).simulation_steps as int,
            plan_ok(
                plan@,
                old(self).snapshot_steps,
                old(self).orbit_manager.time_divisions@.len() as int,
            ),
            snapshots_aligned(plan@, old(self).snapshot_steps),
            plan_phases_ok(
                plan@,
                old(self).f_index as int,
                old(self).orbit_manager.time_divisions@,
                old(self).orbit_manager.orbit_period,
                old(self).time_step,
            ),
    {
        let ghost orig = *self;
        let mut plan: Vec<Action> = Vec::new();
        proof {
            lemma_plan_empty(
                orig.f_index as int,
                self.orbit_manager.time_divisions@,
                self.orbit_manager.orbit_period,
                self.time_step,
                self.snapshot_steps,
            );
            assert(plan@ =~= Seq::<Action>::empty());
        }
        let mut step: u64 = 0;
        while step < self.simulation_steps
            invariant
                self.wf(),
                self.simulation_steps == orig.simulation_steps,
                self.snapshot_steps == orig.snapshot_steps,
                self.time_step == orig.time_step,
                self.orbit_manager.orbit_period == orig.orbit_manager.orbit_period,
                self.orbit_manager.time_divisions == orig.orbit_manager.time_divisions,
                self.orbit_manager.eclipse_divisions == orig.orbit_manager.eclipse_divisions,
                step <= self.simulation_steps,
                count_snapshots(plan@) == snapshots_before(
                    step as int,
                    self.snapshot_steps as int,
                ),
                run_total(plan@) == step as int,
                plan_ok(plan@, self.snapshot_steps, self.orbit_manager.time_divisions@.len() as int),
                snapshots_aligned(plan@, self.snapshot_steps),
                self.f_index as int == phase_at(plan@, orig.f_index as int, plan@.len() as int),
                plan_phases_ok(
                    plan@,
                    orig.f_index as int,
                    self.orbit_manager.time_divisions@,
                    self.orbit_manager.orbit_period,
                    self.time_step,
                ),
            decreases self.simulation_steps - step,
        {
            proof {
                lemma_mod_bound(step as int, self.snapshot_steps as int);
            }
            if step % self.snapshot_steps == 0 {
                proof {
                    lemma_plan_push(plan@, Action::Snapshot);
                    lemma_fundamental_div_mod(step as int, self.snapshot_steps as int);
                    assert(step as int == (step as int / self.snapshot_steps as int)
                        * self.snapshot_steps as int) by (nonlinear_arith)
                        requires
                            step as int == self.snapshot_steps as int * (step as int
                                / self.snapshot_steps as int),
                    ;
                    lemma_aligned_push(plan@, Action::Snapshot, self.snapshot_steps);
                    lemma_phase_at_push(
                        plan@,
                        Action::Snapshot,
                        orig.f_index as int,
                        plan@.len() as int,
                    );
                    lemma_phases_push(
                        plan@,
                        Action::Snapshot,
                        orig.f_index as int,
                        self.orbit_manager.time_divisions@,
                        self.orbit_manager.orbit_period,
                        self.time_step,
                    );
                }
                plan.push(Action::Snapshot);
            }
            proof {
                lemma_mul_inequality(
                    step as int,
                    self.simulation_steps as int,
                    self.time_step as int,
                );
                lemma_mul_inequality(1, self.time_step as int, self.simulation_steps as int);
                assert(step as int * self.time_step as int >= 0) by (nonlinear_arith)
                    requires
                        step as int >= 0,
                        self.time_step as int >= 1,
                ;
            }
            let time: i64 = (step as i64) * self.time_step;
            proof {
                assert((run_total(plan@) * self.time_step as int) % (
                self.orbit_manager.orbit_period as int) == time as int
                    % self.orbit_manager.orbit_period as int);
            }
            let idx: usize = self.orbit_manager.current_index(time);
            if idx != self.f_index {
                self.f_index = idx;
                proof {
                    lemma_plan_push(plan@, Action::SetPhase(idx));
                    lemma_aligned_push(plan@, Action::SetPhase(idx), self.snapshot_steps);
                    lemma_phase_at_push(
                        plan@,
                        Action::SetPhase(idx),
                        orig.f_index as int,
                        plan@.len() as int,
                    );
                    lemma_phases_push(
                        plan@,
                        Action::SetPhase(idx),
                        orig.f_index as int,
                        self.orbit_manager.time_divisions@,
                        self.orbit_manager.orbit_period,
                        self.time_step,
                    );
                }
                plan.push(Action::SetPhase(idx));
            }
            let next_division_time: i64 = self.orbit_manager.time_to_next(time);
            let ghost boundary_idx = self.orbit_manager.division_idx;
            let n: u64 = Self::calculate_iteration_steps(
                next_division_time,
                self.snapshot_steps,
                step,
                self.time_step,
            );
            proof {
                lemma_plan_push(plan@, Action::RunFor(n));
                lemma_aligned_push(plan@, Action::RunFor(n), self.snapshot_steps);
                // The phase in effect is the division that both queries found.
                crate::orbit_manager::lemma_division_unique(
                    self.orbit_manager.time_divisions@,
                    self.orbit_manager.orbit_period,
                    boundary_idx as int,
                    idx as int,
                    time % self.orbit_manager.orbit_period,
                );
                // Every step of the run begins before the division's closing
                // boundary: n is at most the ceiling of the time to it.
                assert(ceil_div(next_division_time as int, self.time_step as int) >= 1) by {
                    vstd::arithmetic::div_mod::lemma_div_non_zero(
                        next_division_time as int + self.time_step as int - 1,
                        self.time_step as int,
                    );
                }
                lemma_run_before_boundary(
                    n as int,
                    next_division_time as int,
                    self.time_step as int,
                );
                lemma_phase_at_push(
                    plan@,
                    Action::RunFor(n),
                    orig.f_index as int,
                    plan@.len() as int,
                );
                lemma_phases_push(
                    plan@,
                    Action::RunFor(n),
                    orig.f_index as int,
                    self.orbit_manager.time_divisions@,
                    self.orbit_manager.orbit_period,
                    self.time_step,
                );
            }
            plan.push(Action::RunFor(n));
            proof {
                assert(ceil_div(next_division_time as int, self.time_step as int) >= 1) by {
                    vstd::arithmetic::div_mod::lemma_div_non_zero(
                        next_division_time as int + self.time_step as int - 1,
                        self.time_step as int,
                    );
                }
                lemma_schedule_advance(
                    step as int,
                    n as int,
                    self.snapshot_steps as int,
                    self.simulation_steps as int,
                );
            }
            step = step + n;
        }
        proof {
            lemma_plan_push(plan@, Action::Snapshot);
            lemma_fundamental_div_mod(self.simulation_steps as int, self.snapshot_steps as int);
            assert(self.simulation_steps as int == (self.simulation_steps as int
                / self.snapshot_steps as int) * self.snapshot_steps as int) by (nonlinear_arith)
                requires
                    self.simulation_steps as int == self.snapshot_steps as int * (
                    self.simulation_steps as int / self.snapshot_steps as int),
            ;
            lemma_aligned_push(plan@, Action::Snapshot, self.snapshot_steps);
            lemma_phases_push(
                plan@,
                Action::Snapshot,
                orig.f_index as int,
                self.orbit_manager.time_divisions@,
                self.orbit_manager.orbit_period,
                self.time_step,
            );
        }
        plan.push(Action::Snapshot);
        plan
    }
}

} // verus!
