//! The run controller: drives one run of the simulation, generation by
//! generation, up to its generation cap.
//!
//! Within a run no generation is ever skipped or applied out of order: each
//! advance runs the lifecycle pass, then the transition, and increments the
//! generation counter by exactly one.

use vstd::prelude::*;

use crate::cell_configuration::CellConfiguration;
use crate::feed::SimulationPayload;
use crate::lifecycle::{encloses, lifecycle_pass, tight, LifecycleReport};
use crate::transition::{engine_step, step_n, transition};

verus! {

/// One run: a generation counter, the current configuration, and the
/// generation cap the run was started with.
pub struct RunController {
    configuration: CellConfiguration,
    generation: u32,
    max_generation_count: u32,
    seed: Ghost<Set<(int, int)>>,
}

impl RunController {
    /// The seed configuration this run started from.
    pub closed spec fn spec_seed(self) -> Set<(int, int)> {
        self.seed@
    }

    /// How many generations this run has completed.
    pub closed spec fn spec_generation(self) -> u32 {
        self.generation
    }

    /// The generation cap this run was started with.
    pub closed spec fn spec_max_generations(self) -> u32 {
        self.max_generation_count
    }

    /// The current configuration.
    pub closed spec fn spec_configuration(self) -> Set<(int, int)> {
        self.configuration@
    }

    /// The controller's invariant: the generation counter never passes the
    /// cap, and the configuration is exactly the seed advanced by
    /// `generation` applications of the engine's step — each snapshot thus
    /// belongs to exactly one completed generation.
    pub open spec fn wf(self) -> bool {
        &&& self.spec_generation() <= self.spec_max_generations()
        &&& self.spec_configuration() == step_n(self.spec_seed(), self.spec_generation() as nat)
    }

    /// A run in its idle state: generation zero, at the seed.
    pub fn new(seed: CellConfiguration, max_generation_count: u32) -> (controller: Self)
        ensures
            controller.wf(),
            controller.spec_seed() == seed@,
            controller.spec_generation() == 0,
            controller.spec_max_generations() == max_generation_count,
            controller.spec_configuration() == seed@,
    {
        let ghost seed_view = seed@;
        RunController {
            configuration: seed,
            generation: 0,
            max_generation_count,
            seed: Ghost(seed_view),
        }
    }

    /// Whether the run has reached its generation cap.  An exhausted run
    /// ends regardless of caller intent; the orchestrator then starts the
    /// next run or stops.
    pub fn is_exhausted(&self) -> (exhausted: bool)
        ensures
            exhausted == (self.spec_generation() == self.spec_max_generations()),
    {
        self.generation == self.max_generation_count
    }

    /// How many generations this run has completed.
    pub fn generation(&self) -> (generation: u32)
        ensures
            generation == self.spec_generation(),
    {
        self.generation
    }

    /// Advance by exactly one generation: run the lifecycle pass over the
    /// current configuration, then the transition, and count the
    /// generation.  The diagnostic report describes the configuration that
    /// was left behind.
    pub fn advance(&mut self) -> (report: LifecycleReport)
        requires
            old(self).wf(),
            old(self).spec_generation() < old(self).spec_max_generations(),
        ensures
            final(self).wf(),
            final(self).spec_seed() == old(self).spec_seed(),
            final(self).spec_max_generations() == old(self).spec_max_generations(),
            final(self).spec_generation() == old(self).spec_generation() + 1,
            final(self).spec_configuration() == engine_step(old(self).spec_configuration()),
            report.population == old(self).spec_configuration().len(),
            match report.bounds {
                Some(b) => encloses(b, old(self).spec_configuration()) && tight(
                    b,
                    old(self).spec_configuration(),
                ),
                None => old(self).spec_configuration().len() == 0,
            },
    {
        let report = lifecycle_pass(&self.configuration);
        let next = transition(&self.configuration);
        self.configuration = next;
        self.generation = self.generation + 1;
        report
    }

    /// The snapshot of the run's current state, ready for publication: its
    /// configuration is consistent with exactly one completed generation,
    /// namely `generation` applications of the engine's step to the seed.
    pub fn snapshot(&self, run_index: u32) -> (payload: SimulationPayload)
        requires
            self.wf(),
        ensures
            payload.cell_configuration@ == self.spec_configuration(),
            payload.generation == self.spec_generation(),
            payload.run_index == run_index,
            payload.cell_configuration@ == step_n(
                self.spec_seed(),
                payload.generation as nat,
            ),
    {
        SimulationPayload {
            cell_configuration: self.configuration.duplicate(),
            generation: self.generation,
            run_index,
        }
    }
}

} // verus!
