//! The interactive simulation state and the per-frame decision logic.
//!
//! In interactive mode the background context owns this state and decides,
//! frame by frame, whether a generation may run: when "running", a
//! caller-controlled tick gates the advance; a single-step request advances
//! one generation immediately and is consumed.

use vstd::prelude::*;

use crate::cell_configuration::CellConfiguration;
use crate::lifecycle::{encloses, lifecycle_pass, tight, LifecycleReport};
use crate::transition::{engine_step, simulation};

verus! {

/// The state the interactive driver owns: the live set, whether the
/// simulation is ticking, and whether a single step was requested.
pub struct SimulationState {
    pub cell_configuration: CellConfiguration,
    pub is_running: bool,
    pub step_once: bool,
}

impl SimulationState {
    /// A paused simulation over an empty lattice.
    pub fn new() -> (state: Self)
        ensures
            state.cell_configuration@ == Set::<(int, int)>::empty(),
            !state.is_running,
            !state.step_once,
    {
        SimulationState {
            cell_configuration: CellConfiguration::new(),
            is_running: false,
            step_once: false,
        }
    }
}

/// One logical step: the read-only lifecycle pass over the current
/// configuration, then the transition.  The report describes the
/// configuration that was stepped away from.
pub fn logical_step(configuration: &mut CellConfiguration) -> (report: LifecycleReport)
    ensures
        final(configuration)@ == engine_step(old(configuration)@),
        report.population == old(configuration)@.len(),
        match report.bounds {
            Some(b) => encloses(b, old(configuration)@) && tight(b, old(configuration)@),
            None => old(configuration)@.len() == 0,
        },
{
    let report = lifecycle_pass(configuration);
    simulation(configuration);
    report
}

/// One frame of the interactive loop.  The configuration advances exactly
/// when the simulation is running and the tick interval has elapsed, or
/// when a single step was requested; a single-step request is consumed
/// whether or not the simulation is ticking.  Stopping never loses a
/// generation: a generation either runs whole or does not start.
pub fn interactive_tick(state: &mut SimulationState, tick_elapsed: bool) -> (advanced: bool)
    ensures
        advanced == ((old(state).is_running && tick_elapsed) || old(state).step_once),
        final(state).is_running == old(state).is_running,
        !final(state).step_once,
        advanced ==> final(state).cell_configuration@ == engine_step(
            old(state).cell_configuration@,
        ),
        !advanced ==> final(state).cell_configuration@ == old(state).cell_configuration@,
{
    let run_now = (state.is_running && tick_elapsed) || state.step_once;
    state.step_once = false;
    if run_now {
        let _report = logical_step(&mut state.cell_configuration);
    }
    run_now
}

} // verus!
