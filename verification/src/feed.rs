//! The snapshot feed: a single-slot broadcast cell holding the most recent
//! immutable configuration, written by the run driver and read by any number
//! of consumers at their own cadence.
//!
//! The slot holds one shared reference to the latest published payload.  A
//! publish replaces that reference whole; a read takes a shared reference to
//! whatever complete payload is current.  A reader therefore observes either
//! the previous or the latest complete configuration, never a partially
//! updated one; a reader that polls rarely simply misses intermediate
//! generations.

use std::sync::Arc;

use vstd::prelude::*;

use crate::cell_configuration::CellConfiguration;

verus! {

#[verifier::external_type_specification]
#[verifier::external_body]
#[verifier::reject_recursive_types(T)]
pub struct ExShardedLock<T: ?Sized>(crossbeam::sync::ShardedLock<T>);

/// An immutable snapshot of one completed generation: the configuration, the
/// generation counter it belongs to, and the index of the run that made it.
pub struct SimulationPayload {
    pub cell_configuration: CellConfiguration,
    pub generation: u32,
    pub run_index: u32,
}

impl Default for SimulationPayload {
    /// The payload seen before anything is published: the empty
    /// configuration at generation zero of run zero.
    fn default() -> (payload: Self)
        ensures
            payload.cell_configuration@ == Set::<(int, int)>::empty(),
            payload.generation == 0,
            payload.run_index == 0,
    {
        SimulationPayload {
            cell_configuration: CellConfiguration::new(),
            generation: 0,
            run_index: 0,
        }
    }
}

/// A handle on the single-slot broadcast cell.  Cloning the handle shares
/// the same slot; the writer and every reader hold such a handle.
#[derive(Clone)]
pub struct SnapshotFeed {
    slot: Arc<crossbeam::sync::ShardedLock<Arc<SimulationPayload>>>,
}

/// Relies on crossbeam's ShardedLock::new: makes the lock-protected slot
/// that holds the initial payload reference.
#[verifier::external_body]
fn slot_new(initial: Arc<SimulationPayload>) -> Arc<
    crossbeam::sync::ShardedLock<Arc<SimulationPayload>>,
> {
    Arc::new(crossbeam::sync::ShardedLock::new(initial))
}

/// Relies on crossbeam's ShardedLock::write: takes the exclusive lock and
/// replaces the slot's reference whole, so no reader ever observes a
/// partially replaced payload.  A poisoned lock still holds a payload that
/// some publish put there whole, so publishing proceeds.
#[verifier::external_body]
fn slot_store(
    slot: &Arc<crossbeam::sync::ShardedLock<Arc<SimulationPayload>>>,
    payload: Arc<SimulationPayload>,
) {
    let mut guard = match slot.write() {
        Ok(guard) => guard,
        Err(poisoned) => poisoned.into_inner(),
    };
    *guard = payload;
}

/// Relies on crossbeam's ShardedLock::read: takes a shared lock and clones
/// the current reference out.  Readers never block each other, and which
/// payload comes back depends on what the independent run driver has
/// published so far, so nothing more is promised of the value.
#[verifier::external_body]
fn slot_load(
    slot: &Arc<crossbeam::sync::ShardedLock<Arc<SimulationPayload>>>,
) -> Arc<SimulationPayload> {
    let guard = match slot.read() {
        Ok(guard) => guard,
        Err(poisoned) => poisoned.into_inner(),
    };
    Arc::clone(&*guard)
}

impl SnapshotFeed {
    /// A fresh feed, holding the default payload: an empty configuration,
    /// so a reader that polls before any publish still sees a valid value.
    pub fn new() -> (feed: Self) {
        let initial = Arc::new(SimulationPayload::default());
        SnapshotFeed { slot: slot_new(initial) }
    }

    /// Replace the current snapshot with `payload`.  The replacement is
    /// atomic with respect to readers: they see the old payload or the new
    /// one, never a mixture.
    pub fn publish(&self, payload: SimulationPayload) {
        let shared = Arc::new(payload);
        slot_store(&self.slot, shared);
    }

    /// The most recently published snapshot.  Non-blocking with respect to
    /// the writer; always returns a complete payload.  Which one comes back
    /// depends on how far the independent run driver has advanced, so no
    /// more can be said of the value here; what the driver promises of every
    /// payload it publishes stands at the publishing call sites.
    pub fn read_snapshot(&self) -> (snapshot: Arc<SimulationPayload>) {
        slot_load(&self.slot)
    }
}

/// A reader never regresses: the run driver publishes generation indices in
/// non-decreasing order, and a reader samples the feed at non-decreasing
/// positions of that publish sequence, so the generation indices it observes
/// are non-decreasing as well.
pub proof fn lemma_reader_never_regresses(published: Seq<u32>, samples: Seq<int>)
    requires
        forall|i: int, j: int| 0 <= i <= j < published.len() ==> published[i] <= published[j],
        forall|k: int| 0 <= k < samples.len() ==> 0 <= #[trigger] samples[k] < published.len(),
        forall|k: int, l: int| 0 <= k <= l < samples.len() ==> samples[k] <= samples[l],
    ensures
        forall|k: int, l: int|
            0 <= k <= l < samples.len() ==> published[samples[k]] <= published[samples[l]],
{
    assert forall|k: int, l: int| 0 <= k <= l < samples.len() implies published[samples[k]]
        <= published[samples[l]] by {
        let i = samples[k];
        let j = samples[l];
        assert(0 <= i <= j < published.len());
    }
}

} // verus!
