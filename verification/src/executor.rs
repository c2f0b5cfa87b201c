//! The front of a solver run: choosing the solver variant and laying out the
//! whole simulation as a schedule.
//!
//! The surrounding application reads the case files, builds the
//! floating-point matrices, and then executes the returned schedule action by
//! action against the chosen solver and the results writer.

use vstd::prelude::*;

use crate::engine::{
    count_snapshots, plan_ok, plan_phases_ok, run_total, snapshots_aligned, spec_is_multiple,
    Action, FEMEngine, FEMParameters, Solver,
};
use crate::orbit_manager::{
    expand_divisions, expanded_times, wf_divisions, OrbitManager, OrbitParameters,
};
use crate::FemError;
use vstd::string::StringSliceAdditionalSpecFns;

verus! {

/// A fully decided simulation: which solver runs, and every snapshot, phase
/// switch and bounded run in order.
pub struct SimulationPlan {
    pub solver: Solver,
    pub actions: Vec<Action>,
}

/// String equality by bytes.
fn str_eq(a: &str, b: &str) -> (r: bool)
    ensures
        r == (a@ == b@),
{
    let ab: &[u8] = a.as_bytes();
    let bb: &[u8] = b.as_bytes();
    proof {
        vstd::utf8::encode_utf8_decode_utf8(a@);
        vstd::utf8::encode_utf8_decode_utf8(b@);
    }
    if ab.len() != bb.len() {
        return false;
    }
    let mut i: usize = 0;
    while i < ab.len()
        invariant
            ab@ == a.spec_bytes(),
            bb@ == b.spec_bytes(),
            ab@.len() == bb@.len(),
            i <= ab@.len(),
            forall|j: int| 0 <= j < i ==> ab@[j] == bb@[j],
        decreases ab@.len() - i,
    {
        if ab[i] != bb[i] {
            proof {
                vstd::utf8::encode_utf8_decode_utf8(a@);
                vstd::utf8::encode_utf8_decode_utf8(b@);
            }
            return false;
        }
        i += 1;
    }
    proof {
        assert(ab@ =~= bb@);
        vstd::utf8::encode_utf8_decode_utf8(a@);
        vstd::utf8::encode_utf8_decode_utf8(b@);
    }
    true
}

/// Chooses the solver variant by its name; any name but the two supported
/// ones is a configuration error.
pub fn build_solver(solver_id: &str) -> (r: Result<Solver, FemError>)
    ensures
        r == Ok::<Solver, FemError>(Solver::Implicit) <==> solver_id@ == "Implicit"@,
        r == Ok::<Solver, FemError>(Solver::GPU) <==> solver_id@ == "GPU"@,
        r is Err <==> solver_id@ != "Implicit"@ && solver_id@ != "GPU"@,
        r is Err ==> r == Err::<Solver, FemError>(FemError::SolverNotRecognized),
{
    proof {
        reveal_strlit("Implicit");
        reveal_strlit("GPU");
        assert("Implicit"@.len() == 8);
        assert("GPU"@.len() == 3);
        assert("Implicit"@ != "GPU"@);
    }
    if str_eq(solver_id, "Implicit") {
        Ok(Solver::Implicit)
    } else if str_eq(solver_id, "GPU") {
        Ok(Solver::GPU)
    } else {
        Err(FemError::SolverNotRecognized)
    }
}

/// Decides one whole run: checks the solver name and the timing parameters,
/// expands the orbit, and returns the schedule the application executes.
///
/// The solver name is checked first; with a good name, the timing checks
/// fail exactly as [`FEMEngine::new`] fails.  A returned plan carries
/// exactly `simulation_steps / snapshot_steps + 1` snapshots, each on its
/// snapshot boundary, its runs add up to the simulation's step count, every
/// phase index points into the expanded division list, and the phase
/// discipline holds: switches happen exactly on division changes and every
/// run starts (and steps off) under the forcing vector of its own division.
pub fn run_solver(
    solver_id: &str,
    parameters: &FEMParameters,
    orbit_parameters: &OrbitParameters,
) -> (r: Result<SimulationPlan, FemError>)
    requires
        wf_divisions(orbit_parameters.orbit_divisions@, orbit_parameters.orbit_period),
    ensures
        r is Err <==> (solver_id@ != "Implicit"@ && solver_id@ != "GPU"@)
            || parameters.time_step > parameters.snapshot_period || !spec_is_multiple(
            parameters.simulation_time,
            parameters.snapshot_period,
        ) || !spec_is_multiple(parameters.snapshot_period, parameters.time_step),
        solver_id@ != "Implicit"@ && solver_id@ != "GPU"@ <==> r == Err::<
            SimulationPlan,
            FemError,
        >(FemError::SolverNotRecognized),
        ({
            let good = solver_id@ == "Implicit"@ || solver_id@ == "GPU"@;
            &&& (good && parameters.time_step > parameters.snapshot_period <==> r == Err::<
                SimulationPlan,
                FemError,
            >(FemError::TimeStepAboveSnapshotPeriod))
            &&& (good && parameters.time_step <= parameters.snapshot_period && !spec_is_multiple(
                parameters.simulation_time,
                parameters.snapshot_period,
            ) <==> r == Err::<SimulationPlan, FemError>(FemError::SimulationTimeNotMultiple))
            &&& (good && parameters.time_step <= parameters.snapshot_period && spec_is_multiple(
                parameters.simulation_time,
                parameters.snapshot_period,
            ) && !spec_is_multiple(parameters.snapshot_period, parameters.time_step) <==> r
                == Err::<SimulationPlan, FemError>(FemError::SnapshotPeriodNotMultiple))
        }),
        r matches Ok(plan) ==> {
            let steps = parameters.simulation_time as int / parameters.time_step as int;
            let snap_steps = parameters.snapshot_period as int / parameters.time_step as int;
            &&& (plan.solver == Solver::Implicit <==> solver_id@ == "Implicit"@)
            &&& (plan.solver == Solver::GPU <==> solver_id@ == "GPU"@)
            &&& count_snapshots(plan.actions@) == steps / snap_steps + 1
            &&& run_total(plan.actions@) == steps
            &&& snapshots_aligned(plan.actions@, snap_steps as u64)
            &&& plan_ok(
                plan.actions@,
                snap_steps as u64,
                expand_divisions(
                    orbit_parameters.orbit_divisions@,
                    orbit_parameters.orbit_period,
                    orbit_parameters.eclipse_start,
                    orbit_parameters.eclipse_end,
                ).len() as int,
            )
            &&& plan_phases_ok(
                plan.actions@,
                0,
                expanded_times(
                    expand_divisions(
                        orbit_parameters.orbit_divisions@,
                        orbit_parameters.orbit_period,
                        orbit_parameters.eclipse_start,
                        orbit_parameters.eclipse_end,
                    ),
                ),
                orbit_parameters.orbit_period,
                parameters.time_step,
            )
        },
{
    let solver = match build_solver(solver_id) {
        Err(e) => {
            return Err(e);
        },
        Ok(s) => s,
    };
    let orbit_manager = OrbitManager::new(orbit_parameters);
    let mut engine = match FEMEngine::new(parameters, orbit_manager) {
        Err(e) => {
            return Err(e);
        },
        Ok(en) => en,
    };
    let actions = engine.run();
    Ok(SimulationPlan { solver, actions })
}

} // verus!
