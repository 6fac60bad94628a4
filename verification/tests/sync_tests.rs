use aes_gcm_siv::aead::Aead;
use aes_gcm_siv::aead::KeyInit;
use aes_gcm_siv::Aes256GcmSiv;
use aes_gcm_siv::Nonce;
use ssss_sync::checkpoint::persist_checkpoint;
use ssss_sync::engine::ChainSync;
use ssss_sync::store::MemoryStore;
use ssss_sync::types::Event;
use ssss_sync::types::EventIndex;
use ssss_sync::types::EventKind;
use ssss_sync::types::SharesPosted;

const CHAIN: u64 = 31337;
const PERMITTER: u64 = 0xcc;
const REGISTRY: u64 = 0xaa;
const CREATION_BLOCK: u64 = 100;

fn encrypt(key: &[u8], nonce: &[u8], plaintext: &[u8]) -> Vec<u8> {
    let cipher = Aes256GcmSiv::new_from_slice(key).expect("key size");
    let nonce = Nonce::try_from(nonce).expect("nonce size");
    cipher.encrypt(&nonce, plaintext).expect("encryption")
}

fn marker(block: u64) -> Event {
    Event { index: EventIndex { block }, kind: EventKind::ProcessedBlock }
}

#[test]
fn full_sync_then_restart_performs_no_extra_writes() {
    let our_key = vec![5; 32];
    let other_key = vec![6; 32];
    let nonce = vec![7; 12];

    let posted = Event {
        index: EventIndex { block: 101 },
        kind: EventKind::SharesPosted(SharesPosted {
            identity: 7,
            pk: vec![1, 2, 3],
            nonce: nonce.clone(),
            shares: vec![
                encrypt(&other_key, &nonce, b"fragment zero"),
                encrypt(&our_key, &nonce, b"fragment one"),
            ],
            blindings: vec![vec![20], vec![21]],
        }),
    };

    let mut store = MemoryStore::new();

    // First run: nothing persisted yet, so the pipeline resumes at the
    // contract-creation block and drains the stream.
    let mut sync = ChainSync::start(CHAIN, PERMITTER, REGISTRY, &store, CREATION_BLOCK);
    assert_eq!(sync.tracker.current(), CREATION_BLOCK);

    let events = vec![marker(100), posted, marker(102)];
    let keys = vec![None, Some(our_key), None];
    sync.run_events(&mut store, &events, &keys);

    let stored = store.get_share(sync.share_id(7)).expect("one share must be persisted");
    assert_eq!(stored.index, 1, "this node is recipient one");
    assert_eq!(stored.share.bytes().as_slice(), b"fragment one");
    assert_eq!(stored.blinding, vec![21]);
    assert_eq!(store.share_count(), 1);

    assert_eq!(sync.tracker.current(), 102);
    persist_checkpoint(&mut store, CHAIN, &sync.tracker);
    assert_eq!(store.get_chain_state(CHAIN).unwrap().block, 102);

    // Second run: resumes from the persisted checkpoint; an empty further
    // stream performs no additional writes.
    let mut restarted = ChainSync::start(CHAIN, PERMITTER, REGISTRY, &store, CREATION_BLOCK);
    assert_eq!(restarted.tracker.current(), 102, "restart resumes at the checkpoint");

    restarted.run_events(&mut store, &Vec::new(), &Vec::new());
    persist_checkpoint(&mut store, CHAIN, &restarted.tracker);

    assert_eq!(store.share_count(), 1, "no additional share writes");
    assert_eq!(store.get_chain_state(CHAIN).unwrap().block, 102);
    let kept = store.get_share(restarted.share_id(7)).expect("the share is kept");
    assert_eq!(kept.share.bytes().as_slice(), b"fragment one");
}

#[test]
fn duplicate_delivery_after_restart_is_idempotent() {
    let our_key = vec![5; 32];
    let nonce = vec![9; 12];
    let posted = Event {
        index: EventIndex { block: 101 },
        kind: EventKind::SharesPosted(SharesPosted {
            identity: 7,
            pk: vec![1],
            nonce: nonce.clone(),
            shares: vec![encrypt(&our_key, &nonce, b"fragment")],
            blindings: vec![vec![2]],
        }),
    };

    let mut store = MemoryStore::new();
    let mut sync = ChainSync::start(CHAIN, PERMITTER, REGISTRY, &store, CREATION_BLOCK);

    // The same block's events are re-delivered after a restart; handling
    // must tolerate the replay.
    let events = vec![posted.clone(), marker(102), posted, marker(102)];
    let keys = vec![Some(our_key.clone()), None, Some(our_key), None];
    sync.run_events(&mut store, &events, &keys);

    assert_eq!(store.share_count(), 1, "replayed share events store nothing new");
    assert_eq!(sync.tracker.current(), 102);
}
