use aes_gcm_siv::aead::Aead;
use aes_gcm_siv::aead::KeyInit;
use aes_gcm_siv::Aes256GcmSiv;
use aes_gcm_siv::Nonce;
use ssss_sync::checkpoint::persist_checkpoint;
use ssss_sync::checkpoint::resume_block;
use ssss_sync::checkpoint::CheckpointTracker;
use ssss_sync::engine::find_my_share;
use ssss_sync::engine::on_pipeline_exit;
use ssss_sync::engine::ChainSync;
use ssss_sync::engine::SupervisorPhase;
use ssss_sync::engine::RESTART_DELAY_MS;
use ssss_sync::store::MemoryStore;
use ssss_sync::types::ChainState;
use ssss_sync::types::Event;
use ssss_sync::types::EventIndex;
use ssss_sync::types::EventKind;
use ssss_sync::types::PermitterLocator;
use ssss_sync::types::PolicyChange;
use ssss_sync::types::SharesPosted;

fn encrypt(key: &[u8], nonce: &[u8], plaintext: &[u8]) -> Vec<u8> {
    let cipher = Aes256GcmSiv::new_from_slice(key).expect("key size");
    let nonce = Nonce::try_from(nonce).expect("nonce size");
    cipher.encrypt(&nonce, plaintext).expect("encryption")
}

fn compress(payload: &[u8]) -> Vec<u8> {
    let mut out = Vec::new();
    let params = brotli::enc::BrotliEncoderParams::default();
    brotli::enc::BrotliCompress(&mut &payload[..], &mut out, &params).expect("compression");
    out
}

fn test_key(seed: u8) -> Vec<u8> {
    vec![seed; 32]
}

fn test_nonce() -> Vec<u8> {
    vec![7; 12]
}

#[test]
fn find_my_share_recovers_exactly_our_position() {
    let key0 = test_key(1);
    let key1 = test_key(2);
    let nonce = test_nonce();
    let shares = vec![
        encrypt(&key0, &nonce, b"share for node zero"),
        encrypt(&key1, &nonce, b"share for node one"),
    ];
    let blindings = vec![vec![10, 10], vec![11, 11]];

    let ours = find_my_share(&key1, &nonce, &shares, &blindings)
        .expect("the node holding key one owns position one");
    assert_eq!(ours.index, 1);
    assert_eq!(ours.share.bytes().as_slice(), b"share for node one");
    assert_eq!(ours.blinding, vec![11, 11]);

    let other = find_my_share(&key0, &nonce, &shares, &blindings)
        .expect("the node holding key zero owns position zero");
    assert_eq!(other.index, 0);
    assert_eq!(other.share.bytes().as_slice(), b"share for node zero");
    assert_eq!(other.blinding, vec![10, 10]);
}

#[test]
fn first_decrypting_position_wins() {
    // Per-recipient encryption should make at most one position ours; if
    // two nevertheless decrypt, the first in order silently wins.
    let key = test_key(1);
    let nonce = test_nonce();
    let shares = vec![
        encrypt(&key, &nonce, b"first"),
        encrypt(&key, &nonce, b"second"),
    ];
    let blindings = vec![vec![0], vec![1]];
    let ours = find_my_share(&key, &nonce, &shares, &blindings).expect("both positions decrypt");
    assert_eq!(ours.index, 0);
    assert_eq!(ours.share.bytes().as_slice(), b"first");
}

#[test]
fn empty_shares_event_concerns_nobody() {
    let ours = find_my_share(&test_key(1), &test_nonce(), &Vec::new(), &Vec::new());
    assert!(ours.is_none());
}

#[test]
fn out_of_order_markers_never_regress_the_tracker() {
    let mut store = MemoryStore::new();
    let mut sync = ChainSync::new(1, 0xcc, 0xaa, 100);
    let events = vec![
        Event { index: EventIndex { block: 110 }, kind: EventKind::ProcessedBlock },
        Event { index: EventIndex { block: 105 }, kind: EventKind::ProcessedBlock },
    ];
    let keys = vec![None, None];
    sync.run_events(&mut store, &events, &keys);
    assert_eq!(sync.tracker.current(), 110);
}

#[test]
fn find_my_share_recovers_nothing_without_a_key() {
    let nonce = test_nonce();
    let shares = vec![
        encrypt(&test_key(1), &nonce, b"a"),
        encrypt(&test_key(2), &nonce, b"b"),
    ];
    let blindings = vec![vec![0], vec![1]];
    assert!(find_my_share(&test_key(3), &nonce, &shares, &blindings).is_none());
}

#[test]
fn policy_change_persists_decompressed_config() {
    let mut store = MemoryStore::new();
    let mut sync = ChainSync::new(1, 0xcc, 0xaa, 100);
    let config = b"threshold policy configuration".to_vec();
    let event = Event {
        index: EventIndex { block: 101 },
        kind: EventKind::PolicyChange(PolicyChange { identity: 7, config: compress(&config) }),
    };

    sync.process_event(&mut store, &None, &event);

    let entry = store
        .get_verifier(PermitterLocator::new(1, 0xcc), 7)
        .expect("the policy must be persisted");
    assert_eq!(entry.config, config);
    assert_eq!(entry.index, EventIndex { block: 101 });
}

#[test]
fn corrupt_policy_payload_is_isolated() {
    let mut store = MemoryStore::new();
    let mut sync = ChainSync::new(1, 0xcc, 0xaa, 100);
    let corrupt = Event {
        index: EventIndex { block: 101 },
        kind: EventKind::PolicyChange(PolicyChange {
            identity: 7,
            config: vec![0xff, 0xfe, 0xfd, 0xfc],
        }),
    };
    let key = test_key(4);
    let nonce = test_nonce();
    let posted = Event {
        index: EventIndex { block: 102 },
        kind: EventKind::SharesPosted(SharesPosted {
            identity: 7,
            pk: vec![1, 2, 3],
            nonce: nonce.clone(),
            shares: vec![encrypt(&key, &nonce, b"late share")],
            blindings: vec![vec![5]],
        }),
    };
    let marker = Event { index: EventIndex { block: 103 }, kind: EventKind::ProcessedBlock };

    let events = vec![corrupt, posted, marker];
    let keys = vec![None, Some(key), None];
    sync.run_events(&mut store, &events, &keys);

    assert!(
        store.get_verifier(PermitterLocator::new(1, 0xcc), 7).is_none(),
        "a corrupt payload must store nothing",
    );
    let stored = store
        .get_share(sync.share_id(7))
        .expect("events after the corrupt payload must still be processed");
    assert_eq!(stored.share.bytes().as_slice(), b"late share");
    assert_eq!(sync.tracker.current(), 103);
}

#[test]
fn resume_block_prefers_the_checkpoint() {
    assert_eq!(resume_block(Some(ChainState { block: 42 }), 100), 42);
    assert_eq!(resume_block(None, 100), 100);
}

#[test]
fn persisted_checkpoint_never_decreases() {
    let mut store = MemoryStore::new();
    let mut tracker = CheckpointTracker::new(10);
    persist_checkpoint(&mut store, 1, &tracker);
    assert_eq!(store.get_chain_state(1).unwrap().block, 10);

    tracker.advance(25);
    tracker.advance(13);
    assert_eq!(tracker.current(), 25, "the tracker never regresses");

    persist_checkpoint(&mut store, 1, &tracker);
    assert_eq!(store.get_chain_state(1).unwrap().block, 25);
}

#[test]
fn every_pipeline_exit_restarts_after_the_fixed_delay() {
    assert_eq!(
        on_pipeline_exit(true),
        SupervisorPhase::Restarting { delay_ms: RESTART_DELAY_MS },
    );
    assert_eq!(
        on_pipeline_exit(false),
        SupervisorPhase::Restarting { delay_ms: RESTART_DELAY_MS },
    );
    assert_eq!(RESTART_DELAY_MS, 1000);
}
