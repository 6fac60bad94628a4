//! The per-chain event consumer.
//!
//! Drains a chain's ordered event stream, dispatching by event kind:
//! finality markers advance the checkpoint tracker, policy updates are
//! decompressed and persisted, and posted shares are scanned for the one
//! position addressed to this node, which is decrypted and stored
//! idempotently.

use vstd::prelude::*;
use crate::checkpoint::CheckpointTracker;
use crate::checkpoint::checkpoint_bounded;
use crate::checkpoint::resume_block;
use crate::checkpoint::spec_resume_block;
use crate::compress::brotli_decompress;
use crate::compress::brotli_plain;
use crate::crypto::SecretBuf;
use crate::crypto::SecretShare;
use crate::crypto::aead_decrypt;
use crate::crypto::aead_open;
use crate::store::MemoryStore;
use crate::store::StoreModel;
use crate::store::VerifierKey;
use crate::types::Address;
use crate::types::ChainId;
use crate::types::Event;
use crate::types::EventKind;
use crate::types::IdentityId;
use crate::types::IdentityLocator;
use crate::types::PermitterLocator;
use crate::types::ShareId;
use crate::types::CIPHER_KEY_BYTES;
use crate::types::NONCE_BYTES;

verus! {

/// Milliseconds a chain's supervisor waits before relaunching the chain's
/// pipeline after any exit.
pub const RESTART_DELAY_MS: u64 = 1000;

/// One chain's supervision phase: its pipeline is running, or it exited
/// and is relaunched after a fixed delay.
#[derive(Clone, Copy, Debug, PartialEq, Eq, Structural)]
pub enum SupervisorPhase {
    Running,
    Restarting { delay_ms: u64 },
}

/// The supervisor's transition when a chain's pipeline exits: every exit,
/// error and unexpected normal return alike, leads to a relaunch after the
/// fixed backoff delay. One chain's failures never affect another chain's
/// pipeline, and each pipeline is restarted indefinitely.
pub fn on_pipeline_exit(failed: bool) -> (p: SupervisorPhase)
    ensures
        p == (SupervisorPhase::Restarting { delay_ms: RESTART_DELAY_MS }),
{
    let _failed = failed;
    SupervisorPhase::Restarting { delay_ms: RESTART_DELAY_MS }
}

/// The first position at or after `from` whose ciphertext decrypts under
/// the derived cipher; the position of this node's share, if any.
pub open spec fn spec_first_owned(
    key: Seq<u8>,
    nonce: Seq<u8>,
    shares: Seq<Seq<u8>>,
    from: int,
) -> Option<int>
    decreases shares.len() - from,
{
    if from < 0 || from >= shares.len() {
        None
    } else if aead_open(key, nonce, shares[from]) is Some {
        Some(from)
    } else {
        spec_first_owned(key, nonce, shares, from + 1)
    }
}

/// A verified byte-for-byte copy of a buffer.
fn copy_bytes(src: &Vec<u8>) -> (r: Vec<u8>)
    ensures
        r@ == src@,
{
    let mut r: Vec<u8> = Vec::new();
    let n = src.len();
    let mut i: usize = 0;
    while i < n
        invariant
            n == src@.len(),
            i <= n,
            r@ == src@.take(i as int),
        decreases n - i,
    {
        r.push(src[i]);
        proof {
            assert(src@.take(i as int).push(src@[i as int]) =~= src@.take(i as int + 1));
        }
        i = i + 1;
    }
    proof {
        assert(src@.take(n as int) =~= src@);
    }
    r
}

/// Scans the positionally aligned ciphertexts and blindings of a posted
/// shares event for this node's share: the first position that decrypts
/// under the derived cipher wins; all later positions are ignored, and an
/// event in which no position decrypts does not concern this node.
pub fn find_my_share(
    key: &Vec<u8>,
    nonce: &Vec<u8>,
    shares: &Vec<Vec<u8>>,
    blindings: &Vec<Vec<u8>>,
) -> (r: Option<SecretShare>)
    requires
        key@.len() == CIPHER_KEY_BYTES,
        nonce@.len() == NONCE_BYTES,
        shares@.len() == blindings@.len(),
    ensures
        (r is Some) == (spec_first_owned(key@, nonce@, shares.deep_view(), 0) is Some),
        (r matches Some(s) ==> {
            &&& spec_first_owned(key@, nonce@, shares.deep_view(), 0) == Some(s.index as int)
            &&& 0 <= s.index < shares@.len()
            &&& Some(s.share_bytes()) == aead_open(key@, nonce@, shares.deep_view()[s.index as int])
            &&& s.blinding@ == blindings.deep_view()[s.index as int]
        }),
{
    let n = shares.len();
    let mut i: usize = 0;
    while i < n
        invariant
            n == shares@.len(),
            blindings@.len() == n,
            key@.len() == CIPHER_KEY_BYTES,
            nonce@.len() == NONCE_BYTES,
            i <= n,
            spec_first_owned(key@, nonce@, shares.deep_view(), 0) == spec_first_owned(
                key@,
                nonce@,
                shares.deep_view(),
                i as int,
            ),
        decreases n - i,
    {
        proof {
            assert(shares.deep_view()[i as int] == shares@[i as int].deep_view());
            assert(blindings.deep_view()[i as int] == blindings@[i as int].deep_view());
            assert(shares@[i as int].deep_view() =~= shares@[i as int]@);
            assert(blindings@[i as int].deep_view() =~= blindings@[i as int]@);
        }
        match aead_decrypt(key, nonce, &shares[i]) {
            Some(plain) => {
                let blinding = copy_bytes(&blindings[i]);
                return Some(
                    SecretShare { index: i as u64, share: SecretBuf::wrap(plain), blinding },
                );
            },
            None => {},
        }
        i = i + 1;
    }
    None
}

/// The cipher bytes handed along with an event, empty when the event
/// needs none.
pub open spec fn spec_key_view(key: Option<Vec<u8>>) -> Seq<u8> {
    match key {
        Some(k) => k@,
        None => Seq::empty(),
    }
}

/// The store contents after one event of a pipeline's stream: the
/// mathematical specification of what dispatching the event persists. A
/// finality marker stores nothing; a policy update whose payload
/// decompresses overwrites that identity's configuration, and a corrupt
/// one stores nothing; a posted-shares event stores the first position
/// that decrypts under the derived cipher, at a fresh share id only.
pub open spec fn spec_apply_event(
    sync: ChainSync,
    m: StoreModel,
    key: Seq<u8>,
    e: Event,
) -> StoreModel {
    match e.kind {
        EventKind::ProcessedBlock => m,
        EventKind::PolicyChange(pc) => match brotli_plain(pc.config@) {
            Some(cfg) => StoreModel {
                checkpoints: m.checkpoints,
                verifiers: m.verifiers.insert(
                    VerifierKey { locator: sync.locator(), identity: pc.identity },
                    (cfg, e.index),
                ),
                shares: m.shares,
            },
            None => m,
        },
        EventKind::SharesPosted(sp) => match spec_first_owned(
            key,
            sp.nonce@,
            sp.shares.deep_view(),
            0,
        ) {
            Some(pos) => {
                let sid = sync.share_id_for(sp.identity);
                if m.shares.contains_key(sid) {
                    m
                } else {
                    StoreModel {
                        checkpoints: m.checkpoints,
                        verifiers: m.verifiers,
                        shares: m.shares.insert(
                            sid,
                            (
                                pos as u64,
                                aead_open(key, sp.nonce@, sp.shares.deep_view()[pos]).unwrap(),
                                sp.blindings.deep_view()[pos],
                            ),
                        ),
                    }
                }
            },
            None => m,
        },
    }
}

/// The store contents after a batch of events, folded in stream order.
pub open spec fn spec_apply_events(
    sync: ChainSync,
    m: StoreModel,
    keys: Seq<Option<Vec<u8>>>,
    events: Seq<Event>,
) -> StoreModel
    decreases events.len(),
{
    if events.len() == 0 || keys.len() != events.len() {
        m
    } else {
        spec_apply_events(
            sync,
            spec_apply_event(sync, m, spec_key_view(keys[0]), events[0]),
            keys.drop_first(),
            events.drop_first(),
        )
    }
}

/// How one event moves the checkpoint tracker: a finality marker advances
/// it to the marker's block, never regressing; other events leave it
/// unchanged.
pub open spec fn spec_step_tracker(block: u64, event: Event) -> u64 {
    match event.kind {
        EventKind::ProcessedBlock => if event.index.block >= block {
            event.index.block
        } else {
            block
        },
        _ => block,
    }
}

/// The tracker after a sequence of events, folded in stream order.
pub open spec fn spec_tracker_after(block: u64, events: Seq<Event>) -> u64
    decreases events.len(),
{
    if events.len() == 0 {
        block
    } else {
        spec_tracker_after(spec_step_tracker(block, events[0]), events.drop_first())
    }
}

/// The synchronization state of one chain's pipeline: the authority
/// contract being followed, the registry shares are addressed under, and
/// the checkpoint tracker shared with the persister.
pub struct ChainSync {
    pub chain: ChainId,
    pub permitter: Address,
    pub registry: Address,
    pub tracker: CheckpointTracker,
}

impl ChainSync {
    /// The authority locator of this pipeline's chain.
    pub open spec fn locator(self) -> PermitterLocator {
        PermitterLocator { chain: self.chain, permitter: self.permitter }
    }

    /// The id under which this pipeline stores shares of an identity;
    /// shares are stored at version 1.
    pub open spec fn share_id_for(self, identity: IdentityId) -> ShareId {
        ShareId {
            identity: IdentityLocator {
                chain: self.chain,
                registry: self.registry,
                id: identity,
            },
            version: 1,
        }
    }

    /// The id under which this pipeline stores shares of an identity.
    pub fn share_id(&self, identity: IdentityId) -> (r: ShareId)
        ensures
            r == self.share_id_for(identity),
    {
        ShareId {
            identity: IdentityLocator {
                chain: self.chain,
                registry: self.registry,
                id: identity,
            },
            version: 1,
        }
    }

    /// A pipeline resuming at a given block.
    pub fn new(chain: ChainId, permitter: Address, registry: Address, start_block: u64) -> (s:
        ChainSync)
        ensures
            s.chain == chain,
            s.permitter == permitter,
            s.registry == registry,
            s.tracker.spec_block() == start_block,
    {
        ChainSync { chain, permitter, registry, tracker: CheckpointTracker::new(start_block) }
    }

    /// Checkpoint recovery against a store: resumes from the chain's
    /// persisted checkpoint when one exists, else from the
    /// contract-creation block, establishing the pipeline invariant.
    pub fn start(
        chain: ChainId,
        permitter: Address,
        registry: Address,
        store: &MemoryStore,
        creation_block: u64,
    ) -> (s: ChainSync)
        ensures
            s.chain == chain,
            s.permitter == permitter,
            s.registry == registry,
            s.tracker.spec_block() == spec_resume_block(
                store.spec_checkpoint(chain),
                creation_block,
            ),
            checkpoint_bounded(*store, chain, s.tracker),
    {
        let stored = store.get_chain_state(chain);
        let start_block = resume_block(stored, creation_block);
        ChainSync::new(chain, permitter, registry, start_block)
    }

    /// Dispatches one event of the chain's stream.
    ///
    /// A finality marker advances the tracker and touches no storage. A
    /// policy update is decompressed and persisted; a corrupt payload is
    /// skipped without failing the pipeline, leaving the store untouched,
    /// so later events of the stream are processed as if it had not
    /// occurred. A posted-shares event is scanned for this node's share
    /// under the cipher derived from the event's ephemeral public key; the
    /// first decrypting position is stored idempotently, and an event in
    /// which no position decrypts is skipped. No event writes a
    /// checkpoint.
    pub fn process_event(
        &mut self,
        store: &mut MemoryStore,
        shared_key: &Option<Vec<u8>>,
        event: &Event,
    )
        requires
            event.wf(),
            (event.kind matches EventKind::SharesPosted(_) ==> shared_key matches Some(k)
                && k@.len() == CIPHER_KEY_BYTES),
        ensures
            final(self).chain == old(self).chain,
            final(self).permitter == old(self).permitter,
            final(self).registry == old(self).registry,
            final(self).tracker.spec_block() == spec_step_tracker(
                old(self).tracker.spec_block(),
                *event,
            ),
            final(self).tracker.spec_block() >= old(self).tracker.spec_block(),
            forall|c: ChainId| final(store).spec_checkpoint(c) == old(store).spec_checkpoint(c),
            checkpoint_bounded(*old(store), old(self).chain, old(self).tracker)
                ==> checkpoint_bounded(*final(store), final(self).chain, final(self).tracker),
            final(store).model() == spec_apply_event(
                *old(self),
                old(store).model(),
                spec_key_view(*shared_key),
                *event,
            ),
            (match event.kind {
                EventKind::ProcessedBlock => *final(store) == *old(store),
                EventKind::PolicyChange(pc) => {
                    &&& (brotli_plain(pc.config@) is None ==> *final(store) == *old(store))
                    &&& (brotli_plain(pc.config@) matches Some(cfg) ==> {
                        &&& final(store).spec_verifier(
                            (VerifierKey { locator: old(self).locator(), identity: pc.identity }),
                        ) == Some((cfg, event.index))
                        &&& (forall|k: VerifierKey|
                            k != (VerifierKey {
                                locator: old(self).locator(),
                                identity: pc.identity,
                            }) ==> final(store).spec_verifier(k) == old(store).spec_verifier(k))
                        &&& (forall|i: ShareId|
                            final(store).spec_share(i) == old(store).spec_share(i))
                        &&& final(store).spec_share_count() == old(store).spec_share_count()
                    })
                },
                EventKind::SharesPosted(sp) => {
                    let key = shared_key.unwrap()@;
                    let found = spec_first_owned(key, sp.nonce@, sp.shares.deep_view(), 0);
                    &&& (found is None ==> *final(store) == *old(store))
                    &&& (found matches Some(pos) ==> {
                        let sid = old(self).share_id_for(sp.identity);
                        let model = (
                            pos as u64,
                            aead_open(key, sp.nonce@, sp.shares.deep_view()[pos]).unwrap(),
                            sp.blindings.deep_view()[pos],
                        );
                        &&& (old(store).has_share(sid) ==> *final(store) == *old(store))
                        &&& (!old(store).has_share(sid) ==> {
                            &&& final(store).spec_share(sid) == Some(model)
                            &&& final(store).spec_share_count() == old(store).spec_share_count()
                                + 1
                            &&& (forall|i: ShareId|
                                i != sid ==> final(store).spec_share(i) == old(store).spec_share(
                                    i,
                                ))
                            &&& (forall|k: VerifierKey|
                                final(store).spec_verifier(k) == old(store).spec_verifier(k))
                        })
                    })
                },
            }),
    {
        match &event.kind {
            EventKind::ProcessedBlock => {
                self.tracker.advance(event.index.block);
            },
            EventKind::PolicyChange(pc) => {
                match brotli_decompress(&pc.config) {
                    Some(config) => {
                        let locator = PermitterLocator::new(self.chain, self.permitter);
                        store.update_verifier(locator, pc.identity, config, event.index);
                    },
                    None => {
                        // corrupt payload: skipped, recoverable at the next
                        // policy update for the identity
                    },
                }
            },
            EventKind::SharesPosted(sp) => {
                match shared_key {
                    Some(key) => {
                        match find_my_share(key, &sp.nonce, &sp.shares, &sp.blindings) {
                            Some(share) => {
                                let id = ShareId {
                                    identity: IdentityLocator {
                                        chain: self.chain,
                                        registry: self.registry,
                                        id: sp.identity,
                                    },
                                    version: 1,
                                };
                                // a duplicate delivery reports "not newly
                                // stored", which is success
                                let _newly_stored = store.put_share(id, share);
                            },
                            None => {
                                // no position addressed to this node
                            },
                        }
                    },
                    None => {
                        // excluded by the caller's obligation to derive a
                        // cipher for every posted-shares event
                    },
                }
            },
        }
    }

    /// Consumes a batch of events in strict stream order, with the cipher
    /// derived for each posted-shares event supplied positionally.
    ///
    /// The tracker ends at the fold of the finality markers over the
    /// batch, so it never passes a block that no marker confirmed; no
    /// event writes a checkpoint.
    pub fn run_events(
        &mut self,
        store: &mut MemoryStore,
        events: &Vec<Event>,
        keys: &Vec<Option<Vec<u8>>>,
    )
        requires
            keys@.len() == events@.len(),
            forall|i: int| 0 <= i < events@.len() ==> (#[trigger] events@[i]).wf(),
            forall|i: int|
                0 <= i < events@.len() ==> ((#[trigger] events@[i]).kind matches
                EventKind::SharesPosted(_) ==> keys@[i] matches Some(k) && k@.len()
                    == CIPHER_KEY_BYTES),
        ensures
            final(self).chain == old(self).chain,
            final(self).permitter == old(self).permitter,
            final(self).registry == old(self).registry,
            final(self).tracker.spec_block() == spec_tracker_after(
                old(self).tracker.spec_block(),
                events@,
            ),
            final(self).tracker.spec_block() >= old(self).tracker.spec_block(),
            forall|c: ChainId| final(store).spec_checkpoint(c) == old(store).spec_checkpoint(c),
            checkpoint_bounded(*old(store), old(self).chain, old(self).tracker)
                ==> checkpoint_bounded(*final(store), final(self).chain, final(self).tracker),
            events@.len() == 0 ==> *final(store) == *old(store) && *final(self) == *old(self),
            forall|i: ShareId|
                old(store).has_share(i) ==> final(store).spec_share(i) == old(store).spec_share(
                    i,
                ),
            final(store).model() == spec_apply_events(
                *old(self),
                old(store).model(),
                keys@,
                events@,
            ),
    {
        let n = events.len();
        if n == 0 {
            return;
        }
        let ghost sync0: ChainSync = *self;
        let ghost block0: u64 = self.tracker.spec_block();
        let ghost store0: MemoryStore = *store;
        let mut i: usize = 0;
        proof {
            assert(events@.skip(0) =~= events@);
            assert(keys@.skip(0) =~= keys@);
        }
        while i < n
            invariant
                n == events@.len(),
                keys@.len() == n,
                i <= n,
                forall|j: int| 0 <= j < n ==> (#[trigger] events@[j]).wf(),
                forall|j: int|
                    0 <= j < n ==> ((#[trigger] events@[j]).kind matches EventKind::SharesPosted(
                        _,
                    ) ==> keys@[j] matches Some(k) && k@.len() == CIPHER_KEY_BYTES),
                self.chain == sync0.chain,
                self.permitter == sync0.permitter,
                self.registry == sync0.registry,
                self.tracker.spec_block() >= block0,
                spec_tracker_after(block0, events@) == spec_tracker_after(
                    self.tracker.spec_block(),
                    events@.skip(i as int),
                ),
                forall|c: ChainId| store.spec_checkpoint(c) == store0.spec_checkpoint(c),
                forall|s: ShareId|
                    store0.has_share(s) ==> store.spec_share(s) == store0.spec_share(s),
                spec_apply_events(sync0, store0.model(), keys@, events@) == spec_apply_events(
                    sync0,
                    store.model(),
                    keys@.skip(i as int),
                    events@.skip(i as int),
                ),
            decreases n - i,
        {
            proof {
                assert(events@.skip(i as int)[0] == events@[i as int]);
                assert(events@.skip(i as int).drop_first() =~= events@.skip(i as int + 1));
                assert(keys@.skip(i as int)[0] == keys@[i as int]);
                assert(keys@.skip(i as int).drop_first() =~= keys@.skip(i as int + 1));
            }
            let ghost pre_self: ChainSync = *self;
            let ghost pre_store: MemoryStore = *store;
            self.process_event(store, &keys[i], &events[i]);
            proof {
                assert(forall|idt: IdentityId| #[trigger]
                    pre_self.share_id_for(idt) == sync0.share_id_for(idt));
                assert(pre_self.locator() == sync0.locator());
                assert(spec_apply_event(
                    pre_self,
                    pre_store.model(),
                    spec_key_view(keys@[i as int]),
                    events@[i as int],
                ) == spec_apply_event(
                    sync0,
                    pre_store.model(),
                    spec_key_view(keys@[i as int]),
                    events@[i as int],
                ));
            }
            i = i + 1;
        }
        proof {
            assert(events@.skip(n as int) =~= Seq::<Event>::empty());
        }
    }
}

/// Law: decompression failure isolation. A policy event whose payload does
/// not decompress stores nothing and does not move the tracker, and a
/// stream beginning with such an event synchronizes to exactly the state
/// of the stream without it: the pipeline is not aborted and every later
/// event is processed unaffected.
pub proof fn lemma_corrupt_policy_isolated(
    sync: ChainSync,
    m: StoreModel,
    block: u64,
    keys: Seq<Option<Vec<u8>>>,
    events: Seq<Event>,
)
    requires
        events.len() > 0,
        keys.len() == events.len(),
        (events[0].kind matches EventKind::PolicyChange(pc) && brotli_plain(pc.config@)
            is None),
    ensures
        spec_apply_event(sync, m, spec_key_view(keys[0]), events[0]) == m,
        spec_step_tracker(block, events[0]) == block,
        spec_apply_events(sync, m, keys, events) == spec_apply_events(
            sync,
            m,
            keys.drop_first(),
            events.drop_first(),
        ),
        spec_tracker_after(block, events) == spec_tracker_after(block, events.drop_first()),
{
}

/// Law: the consumer never invents progress. After draining any batch the
/// tracker holds either its starting block or the block of some finality
/// marker in the batch — a marker's block is one whose events were all
/// delivered, so a later checkpoint snapshot can never pass a block whose
/// events were not all applied.
pub proof fn lemma_tracker_from_markers(block: u64, events: Seq<Event>)
    ensures
        spec_tracker_after(block, events) == block || exists|i: int|
            0 <= i < events.len() && ((#[trigger] events[i]).kind matches
                EventKind::ProcessedBlock) && events[i].index.block == spec_tracker_after(
                block,
                events,
            ),
    decreases events.len(),
{
    if events.len() > 0 {
        let stepped = spec_step_tracker(block, events[0]);
        lemma_tracker_from_markers(stepped, events.drop_first());
        let result = spec_tracker_after(block, events);
        if result != block {
            if result == stepped && stepped != block {
                assert(events[0].kind matches EventKind::ProcessedBlock && events[0].index.block
                    == result);
            } else {
                let rest = events.drop_first();
                let j = choose|j: int|
                    0 <= j < rest.len() && ((#[trigger] rest[j]).kind matches
                        EventKind::ProcessedBlock) && rest[j].index.block == result;
                assert(rest[j] == events[j + 1]);
            }
        }
    }
}

/// Law: share ownership. In a posted-shares event whose positions are
/// encrypted to distinct recipients, a node whose derived cipher opens
/// exactly one position recovers exactly that position's share.
pub proof fn lemma_share_ownership_unique(
    key: Seq<u8>,
    nonce: Seq<u8>,
    shares: Seq<Seq<u8>>,
    i: int,
)
    requires
        0 <= i < shares.len(),
        aead_open(key, nonce, shares[i]) is Some,
        forall|j: int|
            0 <= j < shares.len() && j != i ==> #[trigger] aead_open(key, nonce, shares[j])
                is None,
    ensures
        spec_first_owned(key, nonce, shares, 0) == Some(i),
{
    lemma_first_owned_from(key, nonce, shares, 0, i);
}

/// Law: share ownership, negative half. A node whose derived cipher opens
/// no position of a posted-shares event recovers nothing.
pub proof fn lemma_share_ownership_none(key: Seq<u8>, nonce: Seq<u8>, shares: Seq<Seq<u8>>)
    requires
        forall|j: int|
            0 <= j < shares.len() ==> #[trigger] aead_open(key, nonce, shares[j]) is None,
    ensures
        spec_first_owned(key, nonce, shares, 0) == None::<int>,
{
    lemma_none_owned_from(key, nonce, shares, 0);
}

/// The scan from `from` lands on `i`, the only position at or after `from`
/// that decrypts.
proof fn lemma_first_owned_from(key: Seq<u8>, nonce: Seq<u8>, shares: Seq<Seq<u8>>, from: int, i: int)
    requires
        0 <= from <= i < shares.len(),
        aead_open(key, nonce, shares[i]) is Some,
        forall|j: int|
            from <= j < shares.len() && j != i ==> #[trigger] aead_open(key, nonce, shares[j])
                is None,
    ensures
        spec_first_owned(key, nonce, shares, from) == Some(i),
    decreases i - from,
{
    if from < i {
        lemma_first_owned_from(key, nonce, shares, from + 1, i);
    }
}

/// The scan from `from` finds nothing when no position decrypts.
proof fn lemma_none_owned_from(key: Seq<u8>, nonce: Seq<u8>, shares: Seq<Seq<u8>>, from: int)
    requires
        0 <= from,
        forall|j: int|
            0 <= j < shares.len() ==> #[trigger] aead_open(key, nonce, shares[j]) is None,
    ensures
        spec_first_owned(key, nonce, shares, from) == None::<int>,
    decreases shares.len() - from,
{
    if from < shares.len() {
        lemma_none_owned_from(key, nonce, shares, from + 1);
    }
}

} // verus!
