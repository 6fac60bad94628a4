//! In-memory model of the durable store.
//!
//! The store is keyed persistence with idempotent write semantics: a
//! checkpoint per chain, a policy configuration per (permitter, identity),
//! and a secret share per versioned share id. It is kept as an append-only
//! log of writes per table; a lookup returns the latest write for a key, so
//! every table behaves as a map.

use vstd::prelude::*;
use crate::types::ChainId;
use crate::types::ChainState;
use crate::types::ChainStateUpdate;
use crate::types::EventIndex;
use crate::types::IdentityId;
use crate::types::PermitterLocator;
use crate::types::ShareId;
use crate::crypto::SecretShare;

verus! {

/// The latest value written for a key in an append-only association log:
/// the last pair holding the key, if any.
pub closed spec fn assoc_last<K, V>(s: Seq<(K, V)>, k: K) -> Option<V>
    decreases s.len(),
{
    if s.len() == 0 {
        None
    } else if s.last().0 == k {
        Some(s.last().1)
    } else {
        assoc_last(s.drop_last(), k)
    }
}

/// Key of a stored policy configuration: the authorizing contract together
/// with the identity the policy concerns.
#[derive(Clone, Copy, Debug, PartialEq, Eq, Structural)]
pub struct VerifierKey {
    pub locator: PermitterLocator,
    pub identity: IdentityId,
}

/// A stored policy configuration: the decompressed payload and the position
/// of the event that carried it.
pub struct VerifierEntry {
    pub config: Vec<u8>,
    pub index: EventIndex,
}

impl VerifierEntry {
    /// Mathematical content of a stored policy configuration.
    pub open spec fn model(self) -> (Seq<u8>, EventIndex) {
        (self.config@, self.index)
    }
}

/// The mathematical content of the store: one map per table.
pub ghost struct StoreModel {
    pub checkpoints: Map<ChainId, u64>,
    pub verifiers: Map<VerifierKey, (Seq<u8>, EventIndex)>,
    pub shares: Map<ShareId, (u64, Seq<u8>, Seq<u8>)>,
}

/// How one put of `(id, share)` reporting `r` relates the store before it
/// to the store after it: a put of a fresh id reports "newly stored" and
/// adds exactly that record; a put whose id the store already holds
/// reports `false` and is observationally the identity.
pub open spec fn put_share_rel(
    pre: MemoryStore,
    post: MemoryStore,
    id: ShareId,
    share: SecretShare,
    r: bool,
) -> bool {
    &&& r == !pre.has_share(id)
    &&& (pre.has_share(id) ==> post == pre)
    &&& (!pre.has_share(id) ==> {
        &&& post.spec_share(id) == Some(share.model())
        &&& post.spec_share_count() == pre.spec_share_count() + 1
        &&& (forall|other: ShareId|
            other != id ==> post.spec_share(other) == pre.spec_share(other))
        &&& (forall|c: ChainId| post.spec_checkpoint(c) == pre.spec_checkpoint(c))
        &&& (forall|k: VerifierKey| post.spec_verifier(k) == pre.spec_verifier(k))
        &&& post.model() == (StoreModel {
            checkpoints: pre.model().checkpoints,
            verifiers: pre.model().verifiers,
            shares: pre.model().shares.insert(id, share.model()),
        })
    })
}

/// Law: idempotent share storage. Putting the same `(id, share)` pair
/// twice does not error and leaves the store exactly as one put leaves
/// it: the first put of a fresh id reports "newly stored", the second
/// reports `false` and changes nothing, so "newly stored" is reported
/// exactly once for a given key.
pub proof fn lemma_put_share_idempotent(
    s0: MemoryStore,
    s1: MemoryStore,
    s2: MemoryStore,
    id: ShareId,
    share: SecretShare,
    r1: bool,
    r2: bool,
)
    requires
        !s0.has_share(id),
        put_share_rel(s0, s1, id, share, r1),
        put_share_rel(s1, s2, id, share, r2),
    ensures
        r1 == true,
        r2 == false,
        s2 == s1,
{
}

/// In-memory durable store: one checkpoint per chain, one policy
/// configuration per verifier key, one secret share per share id.
pub struct MemoryStore {
    chain_states: Vec<(ChainId, u64)>,
    verifiers: Vec<(VerifierKey, VerifierEntry)>,
    shares: Vec<(ShareId, SecretShare)>,
}

impl MemoryStore {
    /// The checkpoint block persisted for a chain, if any.
    pub closed spec fn spec_checkpoint(self, chain: ChainId) -> Option<u64> {
        assoc_last(self.chain_states@, chain)
    }

    /// The policy configuration stored for a verifier key, if any.
    pub closed spec fn spec_verifier(self, key: VerifierKey) -> Option<(Seq<u8>, EventIndex)> {
        match assoc_last(self.verifiers@, key) {
            Some(e) => Some(e.model()),
            None => None,
        }
    }

    /// The secret share stored under a share id, if any.
    pub closed spec fn spec_share(self, id: ShareId) -> Option<(u64, Seq<u8>, Seq<u8>)> {
        match assoc_last(self.shares@, id) {
            Some(s) => Some(s.model()),
            None => None,
        }
    }

    /// Whether a share is stored under this id.
    pub open spec fn has_share(self, id: ShareId) -> bool {
        self.spec_share(id) is Some
    }

    /// The store as maps.
    pub open spec fn model(self) -> StoreModel {
        StoreModel {
            checkpoints: Map::new(
                |c: ChainId| self.spec_checkpoint(c) is Some,
                |c: ChainId| self.spec_checkpoint(c).unwrap(),
            ),
            verifiers: Map::new(
                |k: VerifierKey| self.spec_verifier(k) is Some,
                |k: VerifierKey| self.spec_verifier(k).unwrap(),
            ),
            shares: Map::new(
                |i: ShareId| self.spec_share(i) is Some,
                |i: ShareId| self.spec_share(i).unwrap(),
            ),
        }
    }

    /// How many share records the store holds.
    pub closed spec fn spec_share_count(self) -> nat {
        self.shares@.len()
    }

    /// An empty store: nothing persisted for any key.
    pub fn new() -> (s: MemoryStore)
        ensures
            forall|c: ChainId| s.spec_checkpoint(c) is None,
            forall|k: VerifierKey| s.spec_verifier(k) is None,
            forall|i: ShareId| s.spec_share(i) is None,
            s.spec_share_count() == 0,
            s.model() == (StoreModel {
                checkpoints: Map::empty(),
                verifiers: Map::empty(),
                shares: Map::empty(),
            }),
    {
        let s = MemoryStore { chain_states: Vec::new(), verifiers: Vec::new(), shares: Vec::new() };
        proof {
            assert(s.model().checkpoints =~= Map::<ChainId, u64>::empty());
            assert(s.model().verifiers =~= Map::<VerifierKey, (Seq<u8>, EventIndex)>::empty());
            assert(s.model().shares =~= Map::<ShareId, (u64, Seq<u8>, Seq<u8>)>::empty());
        }
        s
    }

    /// Reads the persisted checkpoint of a chain.
    pub fn get_chain_state(&self, chain: ChainId) -> (r: Option<ChainState>)
        ensures
            (r is Some) == (self.spec_checkpoint(chain) is Some),
            (r matches Some(cs) ==> self.spec_checkpoint(chain) == Some(cs.block)),
    {
        let mut i: usize = self.chain_states.len();
        proof {
            assert(self.chain_states@.take(i as int) =~= self.chain_states@);
        }
        while i > 0
            invariant
                i <= self.chain_states@.len(),
                assoc_last(self.chain_states@, chain) == assoc_last(
                    self.chain_states@.take(i as int),
                    chain,
                ),
            decreases i,
        {
            let pair = self.chain_states[i - 1];
            proof {
                assert(self.chain_states@.take(i as int).last() == self.chain_states@[i - 1]);
                assert(self.chain_states@.take(i as int).drop_last() =~= self.chain_states@.take(
                    i - 1,
                ));
            }
            if pair.0 == chain {
                return Some(ChainState { block: pair.1 });
            }
            i = i - 1;
        }
        None
    }

    /// Overwrites the persisted checkpoint of a chain when the update
    /// carries a block; leaves every other key untouched.
    pub fn update_chain_state(&mut self, chain: ChainId, update: ChainStateUpdate)
        ensures
            (match update.block {
                Some(b) => final(self).spec_checkpoint(chain) == Some(b),
                None => final(self).spec_checkpoint(chain) == old(self).spec_checkpoint(chain),
            }),
            forall|c: ChainId| c != chain ==> final(self).spec_checkpoint(c) == old(
                self,
            ).spec_checkpoint(c),
            forall|k: VerifierKey| final(self).spec_verifier(k) == old(self).spec_verifier(k),
            forall|i: ShareId| final(self).spec_share(i) == old(self).spec_share(i),
            final(self).spec_share_count() == old(self).spec_share_count(),
            (update.block is None ==> *final(self) == *old(self)),
            (update.block matches Some(b) ==> final(self).model() == (StoreModel {
                checkpoints: old(self).model().checkpoints.insert(chain, b),
                verifiers: old(self).model().verifiers,
                shares: old(self).model().shares,
            })),
    {
        match update.block {
            Some(b) => {
                self.chain_states.push((chain, b));
                proof {
                    assert(self.chain_states@.drop_last() =~= old(self).chain_states@);
                    assert(self.model().checkpoints =~= old(self).model().checkpoints.insert(
                        chain,
                        b,
                    ));
                    assert(self.model().verifiers =~= old(self).model().verifiers);
                    assert(self.model().shares =~= old(self).model().shares);
                }
            },
            None => {},
        }
    }

    /// Stores the policy configuration for a verifier key, overwriting any
    /// earlier one; leaves every other key untouched.
    pub fn update_verifier(
        &mut self,
        locator: PermitterLocator,
        identity: IdentityId,
        config: Vec<u8>,
        index: EventIndex,
    )
        ensures
            final(self).spec_verifier((VerifierKey { locator, identity })) == Some(
                (config@, index),
            ),
            forall|k: VerifierKey|
                k != (VerifierKey { locator, identity }) ==> final(self).spec_verifier(k) == old(
                    self,
                ).spec_verifier(k),
            forall|c: ChainId| final(self).spec_checkpoint(c) == old(self).spec_checkpoint(c),
            forall|i: ShareId| final(self).spec_share(i) == old(self).spec_share(i),
            final(self).spec_share_count() == old(self).spec_share_count(),
            final(self).model() == (StoreModel {
                checkpoints: old(self).model().checkpoints,
                verifiers: old(self).model().verifiers.insert(
                    (VerifierKey { locator, identity }),
                    (config@, index),
                ),
                shares: old(self).model().shares,
            }),
    {
        self.verifiers.push((VerifierKey { locator, identity }, VerifierEntry { config, index }));
        proof {
            assert(self.verifiers@.drop_last() =~= old(self).verifiers@);
            assert(self.model().checkpoints =~= old(self).model().checkpoints);
            assert(self.model().verifiers =~= old(self).model().verifiers.insert(
                VerifierKey { locator, identity },
                (config@, index),
            ));
            assert(self.model().shares =~= old(self).model().shares);
        }
    }

    /// Reads the policy configuration stored for a verifier key.
    pub fn get_verifier(&self, locator: PermitterLocator, identity: IdentityId) -> (r: Option<
        &VerifierEntry,
    >)
        ensures
            (r is Some) == (self.spec_verifier((VerifierKey { locator, identity })) is Some),
            (r matches Some(e) ==> self.spec_verifier((VerifierKey { locator, identity })) == Some(
                e.model(),
            )),
    {
        let key = VerifierKey { locator, identity };
        let mut i: usize = self.verifiers.len();
        proof {
            assert(self.verifiers@.take(i as int) =~= self.verifiers@);
        }
        while i > 0
            invariant
                i <= self.verifiers@.len(),
                key == (VerifierKey { locator, identity }),
                assoc_last(self.verifiers@, key) == assoc_last(
                    self.verifiers@.take(i as int),
                    key,
                ),
            decreases i,
        {
            proof {
                assert(self.verifiers@.take(i as int).last() == self.verifiers@[i - 1]);
                assert(self.verifiers@.take(i as int).drop_last() =~= self.verifiers@.take(i - 1));
            }
            if self.verifiers[i - 1].0 == key {
                return Some(&self.verifiers[i - 1].1);
            }
            i = i - 1;
        }
        None
    }

    /// Reads the secret share stored under a share id.
    pub fn get_share(&self, id: ShareId) -> (r: Option<&SecretShare>)
        ensures
            (r is Some) == self.has_share(id),
            (r matches Some(s) ==> self.spec_share(id) == Some(s.model())),
    {
        let mut i: usize = self.shares.len();
        proof {
            assert(self.shares@.take(i as int) =~= self.shares@);
        }
        while i > 0
            invariant
                i <= self.shares@.len(),
                assoc_last(self.shares@, id) == assoc_last(self.shares@.take(i as int), id),
            decreases i,
        {
            proof {
                assert(self.shares@.take(i as int).last() == self.shares@[i - 1]);
                assert(self.shares@.take(i as int).drop_last() =~= self.shares@.take(i - 1));
            }
            if self.shares[i - 1].0 == id {
                return Some(&self.shares[i - 1].1);
            }
            i = i - 1;
        }
        None
    }

    /// Stores a share under its id, reporting whether it was newly stored.
    ///
    /// Storage is idempotent: a put whose key the store already holds
    /// reports `false` and leaves the store exactly as it was, so putting
    /// the same pair twice leaves the state the first put left, and `true`
    /// is reported exactly once for a given key.
    pub fn put_share(&mut self, id: ShareId, share: SecretShare) -> (r: bool)
        ensures
            put_share_rel(*old(self), *final(self), id, share, r),
    {
        if self.get_share(id).is_some() {
            return false;
        }
        self.shares.push((id, share));
        proof {
            assert(self.shares@.drop_last() =~= old(self).shares@);
            assert(self.model().shares =~= old(self).model().shares.insert(id, share.model()));
            assert(self.model().checkpoints =~= old(self).model().checkpoints);
            assert(self.model().verifiers =~= old(self).model().verifiers);
        }
        true
    }

    /// How many share records the store holds.
    pub fn share_count(&self) -> (r: usize)
        ensures
            r == self.spec_share_count(),
    {
        self.shares.len()
    }
}

} // verus!
