//! Data model of the synchronization engine.

use vstd::prelude::*;

verus! {

/// Identifier of a blockchain network; an opaque partition key.
pub type ChainId = u64;

/// An on-chain account or contract address, kept opaque by the engine.
pub type Address = u64;

/// Identifier of a logical secret-bearing identity on a registry.
pub type IdentityId = u64;

/// Position of an event within a chain, used both for ordering and as a
/// monotonic progress marker.
#[derive(Clone, Copy, Debug, PartialEq, Eq, Structural)]
pub struct EventIndex {
    pub block: u64,
}

/// Persisted checkpoint of a chain: the last block known to have been fully
/// processed. A safe lower bound, never an overestimate.
#[derive(Clone, Copy, Debug, PartialEq, Eq, Structural)]
pub struct ChainState {
    pub block: u64,
}

/// A partial update of a chain's persisted state; `None` leaves the stored
/// block untouched.
#[derive(Clone, Copy, Debug)]
pub struct ChainStateUpdate {
    pub block: Option<u64>,
}

/// Locates the on-chain coordination contract that is the authority for a
/// chain's event stream and policy state.
#[derive(Clone, Copy, Debug, PartialEq, Eq, Structural)]
pub struct PermitterLocator {
    pub chain: ChainId,
    pub permitter: Address,
}

impl PermitterLocator {
    pub fn new(chain: ChainId, permitter: Address) -> (r: Self)
        ensures
            r.chain == chain,
            r.permitter == permitter,
    {
        PermitterLocator { chain, permitter }
    }
}

/// Globally addressable secret identity whose shares are being distributed.
#[derive(Clone, Copy, Debug, PartialEq, Eq, Structural)]
pub struct IdentityLocator {
    pub chain: ChainId,
    pub registry: Address,
    pub id: IdentityId,
}

/// Versioned key of a stored secret share.
#[derive(Clone, Copy, Debug, PartialEq, Eq, Structural)]
pub struct ShareId {
    pub identity: IdentityLocator,
    pub version: u64,
}

/// A policy update event: a compressed configuration payload for one
/// identity.
#[derive(Clone, Debug)]
pub struct PolicyChange {
    pub identity: IdentityId,
    pub config: Vec<u8>,
}

/// A share distribution event: one ciphertext and one blinding per
/// recipient, positionally aligned, encrypted under a fresh ephemeral key.
#[derive(Clone, Debug)]
pub struct SharesPosted {
    pub identity: IdentityId,
    pub pk: Vec<u8>,
    pub nonce: Vec<u8>,
    pub shares: Vec<Vec<u8>>,
    pub blindings: Vec<Vec<u8>>,
}

/// The kinds of coordination events the engine consumes.
#[derive(Clone, Debug)]
pub enum EventKind {
    PolicyChange(PolicyChange),
    ProcessedBlock,
    SharesPosted(SharesPosted),
}

/// One event of a chain's ordered stream.
#[derive(Clone, Debug)]
pub struct Event {
    pub index: EventIndex,
    pub kind: EventKind,
}

/// Number of bytes of a symmetric cipher key derived by key agreement.
pub const CIPHER_KEY_BYTES: usize = 32;

/// Number of bytes of an authenticated-encryption nonce.
pub const NONCE_BYTES: usize = 12;

impl SharesPosted {
    /// Structural invariant of a share distribution event: ciphertexts and
    /// blindings are positionally aligned, and the nonce has the cipher's
    /// nonce size.
    pub open spec fn wf(self) -> bool {
        &&& self.shares@.len() == self.blindings@.len()
        &&& self.nonce@.len() == NONCE_BYTES
    }
}

impl Event {
    /// Structural invariant of an event as delivered by the event source.
    pub open spec fn wf(self) -> bool {
        match self.kind {
            EventKind::SharesPosted(sp) => sp.wf(),
            _ => true,
        }
    }
}

} // verus!
