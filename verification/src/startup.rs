//! Startup configuration: what a caller supplies once, before anything runs.

use vstd::prelude::*;

use crate::feed::SnapshotFeed;
use crate::orchestrator::SimulationParameters;

verus! {

/// The caller's startup request: the run and generation budgets, and
/// whether to run headless (blocking, no visual consumer) or interactive.
pub struct StartupParameters {
    pub max_runs: u32,
    pub max_generations: u32,
    pub run_headless: bool,
}

impl StartupParameters {
    /// The orchestration parameters this request asks for: a headless
    /// session blocks the caller and is never gated by a tick interval.
    pub fn simulation_parameters(&self, feed: SnapshotFeed) -> (parameters: SimulationParameters)
        ensures
            parameters.max_run_count == self.max_runs,
            parameters.max_generation_count == self.max_generations,
            parameters.run_uncapped == self.run_headless,
            parameters.blocking == self.run_headless,
    {
        SimulationParameters {
            feed,
            max_run_count: self.max_runs,
            max_generation_count: self.max_generations,
            run_uncapped: self.run_headless,
            blocking: self.run_headless,
        }
    }
}

} // verus!
