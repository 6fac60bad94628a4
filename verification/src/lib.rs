//! Per-chain synchronization engine for a threshold secret-sharing node.
//!
//! The engine follows an ordered stream of on-chain coordination events,
//! decrypts the secret-share fragments addressed to this node, persists them
//! together with policy metadata, and tracks a checkpoint so that it can
//! resume safely after a restart. The decision logic — checkpoint recovery,
//! per-event dispatch, share ownership detection, idempotent persistence,
//! monotonic checkpoint tracking — is verified here; the surrounding
//! process supplies the event stream, the node identity and durable storage.

pub mod checkpoint;
pub mod compress;
pub mod crypto;
pub mod engine;
pub mod store;
pub mod types;
