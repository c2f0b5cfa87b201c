//! Core of a transient thermal finite-element solver for thin triangulated
//! shells in low-Earth orbit.
//!
//! The crate holds the solver's decision logic, verified: orbit phase
//! management, the engine's step schedule, the view-factor file grammar, and
//! the mesh indexing used by matrix assembly.  Floating-point numerics (the
//! element matrices, the linear solves, the GPU kernels) live in the
//! surrounding application, which drives them by the schedules and index maps
//! computed here.  Times are integer ticks; scalar payloads that the logic
//! only moves, never computes with, are carried as opaque 64-bit patterns.

use vstd::prelude::*;

pub mod element;
pub mod engine;
pub mod executor;
pub mod orbit_manager;
pub mod parser;
pub mod point;
pub mod results_writer;
pub mod solver;

verus! {

/// Everything that can go wrong while building or scheduling a simulation.
#[derive(Clone, Copy, Debug, PartialEq, Eq, Structural)]
pub enum FemError {
    /// The solver method is neither of the two supported ones.
    SolverNotRecognized,
    /// A mesh point's position is not three-dimensional.
    PointDimension,
    /// The time step exceeds the snapshot period.
    TimeStepAboveSnapshotPeriod,
    /// The simulation time is not a whole number of snapshot periods.
    SimulationTimeNotMultiple,
    /// The snapshot period is not a whole number of time steps.
    SnapshotPeriodNotMultiple,
    /// The view-factor stream ends before the grammar is satisfied.
    ViewFactorsTruncated,
}

} // verus!
