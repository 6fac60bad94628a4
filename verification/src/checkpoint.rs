//! Checkpoint tracking, recovery and periodic persistence.
//!
//! The consumer advances an in-memory tracker from finality markers; a
//! periodic persister snapshots the tracker into the store. The persisted
//! value is a safe lower bound: it never exceeds a block whose events have
//! not all been processed, and it never decreases.

use vstd::prelude::*;
use crate::store::MemoryStore;
use crate::store::StoreModel;
use crate::types::ChainId;
use crate::types::ChainState;
use crate::types::ChainStateUpdate;
use crate::store::VerifierKey;
use crate::types::ShareId;

verus! {

/// Milliseconds between two snapshots of the checkpoint tracker into the
/// store.
pub const CHECKPOINT_PERIOD_MS: u64 = 5 * 60 * 1000;

/// The last block of a chain known to have been fully processed, shared
/// within one pipeline between the event consumer, which advances it, and
/// the checkpoint persister, which snapshots it. It never regresses.
pub struct CheckpointTracker {
    block: u64,
}

impl CheckpointTracker {
    /// The tracked block.
    pub closed spec fn spec_block(self) -> u64 {
        self.block
    }

    /// A tracker starting at the resume point of the chain.
    pub fn new(start: u64) -> (t: Self)
        ensures
            t.spec_block() == start,
    {
        CheckpointTracker { block: start }
    }

    /// Monotonic advance: moves the tracker to `block` when that is ahead
    /// of it, and never regresses.
    pub fn advance(&mut self, block: u64)
        ensures
            final(self).spec_block() == (if block >= old(self).spec_block() {
                block
            } else {
                old(self).spec_block()
            }),
            final(self).spec_block() >= old(self).spec_block(),
    {
        if block > self.block {
            self.block = block;
        }
    }

    /// Reads the tracked block.
    pub fn current(&self) -> (r: u64)
        ensures
            r == self.spec_block(),
    {
        self.block
    }
}

/// Where consumption resumes for a chain: the persisted checkpoint when
/// one exists, else the contract-creation block.
pub open spec fn spec_resume_block(stored: Option<u64>, creation_block: u64) -> u64 {
    match stored {
        Some(b) => b,
        None => creation_block,
    }
}

/// Checkpoint recovery: decides the block at which to resume consuming a
/// chain's events, from the persisted chain state when one exists and from
/// the contract-creation block on a first run.
pub fn resume_block(stored: Option<ChainState>, creation_block: u64) -> (r: u64)
    ensures
        (stored matches Some(cs) ==> r == cs.block),
        (stored is None ==> r == creation_block),
{
    match stored {
        Some(cs) => cs.block,
        None => creation_block,
    }
}

/// The persisted checkpoint of a chain never exceeds the tracker: the
/// invariant coupling one chain's pipeline to the store.
pub open spec fn checkpoint_bounded(
    store: MemoryStore,
    chain: ChainId,
    tracker: CheckpointTracker,
) -> bool {
    match store.spec_checkpoint(chain) {
        Some(b) => b <= tracker.spec_block(),
        None => true,
    }
}

/// One periodic snapshot of the tracker into the store.
///
/// The snapshot writes the tracker's current block. Under the pipeline
/// invariant the previously persisted value cannot exceed it, so the
/// persisted checkpoint never decreases; shares, policies and other
/// chains' checkpoints are untouched.
pub fn persist_checkpoint(store: &mut MemoryStore, chain: ChainId, tracker: &CheckpointTracker)
    requires
        checkpoint_bounded(*old(store), chain, *tracker),
    ensures
        final(store).spec_checkpoint(chain) == Some(tracker.spec_block()),
        (old(store).spec_checkpoint(chain) matches Some(b) ==> b <= tracker.spec_block()),
        checkpoint_bounded(*final(store), chain, *tracker),
        forall|c: ChainId|
            c != chain ==> final(store).spec_checkpoint(c) == old(store).spec_checkpoint(c),
        forall|k: VerifierKey| final(store).spec_verifier(k) == old(store).spec_verifier(k),
        forall|i: ShareId| final(store).spec_share(i) == old(store).spec_share(i),
        final(store).spec_share_count() == old(store).spec_share_count(),
        final(store).model() == (StoreModel {
            checkpoints: old(store).model().checkpoints.insert(chain, tracker.spec_block()),
            verifiers: old(store).model().verifiers,
            shares: old(store).model().shares,
        }),
{
    store.update_chain_state(chain, ChainStateUpdate { block: Some(tracker.current()) });
}

/// Law: resume correctness. Resuming against a persisted checkpoint block
/// starts consumption at exactly that block; when the checkpoint is a safe
/// lower bound of the fully processed prefix — the invariant every
/// snapshot preserves — the resume point cannot pass a block whose events
/// were never fully processed. Without a checkpoint, consumption starts at
/// the contract-creation block.
pub proof fn lemma_resume_correctness(stored: Option<u64>, creation_block: u64, processed: u64)
    requires
        (stored matches Some(b) ==> b <= processed),
    ensures
        (stored matches Some(b) ==> spec_resume_block(stored, creation_block) == b),
        (stored is Some ==> spec_resume_block(stored, creation_block) <= processed),
        (stored is None ==> spec_resume_block(stored, creation_block) == creation_block),
{
}

/// Law: monotonic checkpoint. Across one snapshot of a tracker that the
/// persisted value cannot exceed, the persisted checkpoint of the chain
/// never decreases.
pub proof fn lemma_checkpoint_monotonic(
    before: MemoryStore,
    after: MemoryStore,
    chain: ChainId,
    tracker: CheckpointTracker,
)
    requires
        checkpoint_bounded(before, chain, tracker),
        after.spec_checkpoint(chain) == Some(tracker.spec_block()),
    ensures
        (before.spec_checkpoint(chain) matches Some(b) ==> b
            <= after.spec_checkpoint(chain).unwrap()),
        after.spec_checkpoint(chain) is Some,
{
}

} // verus!
