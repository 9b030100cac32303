//! The orchestrator: drives a bounded sequence of runs against the
//! run-count budget, publishing a snapshot after every generation.
//!
//! In blocking (headless) mode the whole budget runs on the calling
//! context and the call returns only once it is exhausted.  In interactive
//! mode the embedder launches its own background context and drives the
//! same per-frame logic through `interactive_tick`, polling the feed at its
//! own cadence.

use vstd::arithmetic::mul::{lemma_mul_is_distributive_add_other_way, lemma_mul_upper_bound};
use vstd::prelude::*;

use crate::cell_configuration::CellConfiguration;
use crate::feed::SnapshotFeed;
use crate::run_controller::RunController;

verus! {

/// Why an orchestration session refused to start.
#[derive(Debug, Clone, Copy, PartialEq, Eq, Structural)]
pub enum StartupError {
    /// The generation cap was zero: the caller asked for runs that could
    /// never advance.
    ZeroGenerationCap,
}

/// What a completed blocking session did.
#[derive(Debug, Clone, Copy, PartialEq, Eq, Structural)]
pub struct RunStats {
    pub runs_completed: u32,
    pub generations_published: u64,
}

/// Everything an orchestration session is configured with, immutable for
/// the session's lifetime.
pub struct SimulationParameters {
    pub feed: SnapshotFeed,
    pub max_run_count: u32,
    pub max_generation_count: u32,
    /// In interactive mode, whether the background context may advance as
    /// fast as it can rather than being gated by the tick interval.  The
    /// blocking driver always runs uncapped.
    pub run_uncapped: bool,
    /// Blocking (headless) versus background (interactive) execution.
    pub blocking: bool,
}

/// A zero generation cap is a caller contract violation: report it and
/// refuse to start rather than silently degrade.
pub fn validate_parameters(max_run_count: u32, max_generation_count: u32) -> (outcome: Result<
    (),
    StartupError,
>)
    ensures
        outcome == if max_generation_count == 0 {
            Err::<(), StartupError>(StartupError::ZeroGenerationCap)
        } else {
            Ok::<(), StartupError>(())
        },
{
    if max_generation_count == 0 {
        Err(StartupError::ZeroGenerationCap)
    } else {
        Ok(())
    }
}

/// Blocking, headless orchestration: drive exactly `max_run_count` runs
/// from the seed, each run exactly `max_generation_count` generations,
/// publishing a snapshot after every generation, and return only after the
/// full budget is exhausted.  No run publishes more than the generation
/// cap, and nothing is published after the budget is spent.
pub fn run_blocking(parameters: &SimulationParameters, seed: &CellConfiguration) -> (outcome:
    Result<RunStats, StartupError>)
    ensures
        parameters.max_generation_count == 0 ==> outcome == Err::<RunStats, StartupError>(
            StartupError::ZeroGenerationCap,
        ),
        parameters.max_generation_count > 0 ==> (outcome matches Ok(stats)
            && stats.runs_completed == parameters.max_run_count
            && stats.generations_published == parameters.max_run_count as int
            * parameters.max_generation_count as int),
{
    if let Err(refused) = validate_parameters(
        parameters.max_run_count,
        parameters.max_generation_count,
    ) {
        return Err(refused);
    }
    let runs_cap = parameters.max_run_count;
    let gen_cap = parameters.max_generation_count;
    let mut runs: u32 = 0;
    let mut published: u64 = 0;
    while runs < runs_cap
        invariant
            runs <= runs_cap,
            runs_cap == parameters.max_run_count,
            gen_cap == parameters.max_generation_count,
            gen_cap > 0,
            published == runs as int * gen_cap as int,
        decreases runs_cap - runs,
    {
        let mut controller = RunController::new(seed.duplicate(), gen_cap);
        let mut g: u32 = 0;
        while g < gen_cap
            invariant
                controller.wf(),
                controller.spec_generation() == g,
                controller.spec_max_generations() == gen_cap,
                g <= gen_cap,
                runs < runs_cap,
                runs_cap == parameters.max_run_count,
                gen_cap == parameters.max_generation_count,
                published == runs as int * gen_cap as int + g as int,
            decreases gen_cap - g,
        {
            let _report = controller.advance();
            let payload = controller.snapshot(runs);
            parameters.feed.publish(payload);
            proof {
                lemma_mul_upper_bound(runs as int, 0xffff_ffff, gen_cap as int, 0xffff_ffff);
            }
            published = published + 1;
            g = g + 1;
        }
        proof {
            lemma_mul_is_distributive_add_other_way(gen_cap as int, runs as int, 1);
        }
        runs = runs + 1;
    }
    Ok(RunStats { runs_completed: runs, generations_published: published })
}

} // verus!
