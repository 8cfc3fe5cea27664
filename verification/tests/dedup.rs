//! Suppression of replayed updates.

use bytes::Bytes;
use std::sync::Arc;
use zakura_grpc::dedup::{update_height, DedupState, DEFAULT_HEIGHT_RETENTION};
use zakura_grpc::proto::{
    BestChainUpdate, BlockUpdate, MempoolUpdate, PingUpdate, SubscribeUpdate, TransactionUpdate,
    Update, UtxoUpdate,
};

fn update(session: u8, height: u32, sequence: u64) -> SubscribeUpdate {
    SubscribeUpdate {
        session_id: Bytes::from(vec![session]),
        sequence,
        update: Some(Update::Block(BlockUpdate {
            height,
            ..BlockUpdate::default()
        })),
        ..SubscribeUpdate::default()
    }
}

fn mempool(sequence: u64) -> SubscribeUpdate {
    SubscribeUpdate {
        sequence,
        update: Some(Update::Mempool(Arc::new(MempoolUpdate::default()))),
        ..SubscribeUpdate::default()
    }
}

#[test]
fn suppresses_replayed_key() {
    let mut state = DedupState::default();
    let update = update(1, 10, 20);
    assert!(state.observe(&update));
    assert!(!state.observe(&update));
}

#[test]
fn same_sequence_from_new_server_session_is_new() {
    let mut state = DedupState::default();
    assert!(state.observe(&update(1, 10, 20)));
    assert!(state.observe(&update(2, 10, 20)));
}

#[test]
fn evicted_height_can_be_observed_again() {
    let mut state = DedupState::with_height_retention(1);
    assert!(state.observe(&update(1, 10, 20)));
    assert!(state.observe(&update(1, 11, 21)));
    assert!(state.observe(&update(1, 10, 20)));
}

#[test]
fn retained_heights_stay_suppressed() {
    let mut state = DedupState::with_height_retention(2);
    assert!(state.observe(&update(1, 10, 20)));
    assert!(state.observe(&update(1, 11, 21)));
    assert!(state.observe(&update(1, 10, 22)));
    assert!(!state.observe(&update(1, 10, 20)));
    assert!(!state.observe(&update(1, 11, 21)));
    assert!(!state.observe(&update(1, 10, 22)));
    assert!(state.observe(&update(1, 12, 23)));
    assert!(!state.observe(&update(1, 11, 21)));
    assert!(state.observe(&update(1, 10, 22)));
}

#[test]
fn keys_do_not_depend_on_the_height() {
    let mut state = DedupState::default();
    assert!(state.observe(&update(1, 10, 20)));
    assert!(!state.observe(&update(1, 11, 20)));
}

#[test]
fn updates_without_height_are_always_new() {
    let mut state = DedupState::default();
    assert!(state.observe(&mempool(1)));
    assert!(state.observe(&mempool(1)));
}

#[test]
fn zero_retention_suppresses_nothing() {
    let mut state = DedupState::with_height_retention(0);
    assert!(state.observe(&update(1, 10, 20)));
    assert!(state.observe(&update(1, 10, 20)));
}

#[test]
fn heights_come_from_block_scoped_updates() {
    assert_eq!(DEFAULT_HEIGHT_RETENTION, 250);
    let of = |update: Update| {
        update_height(&SubscribeUpdate {
            update: Some(update),
            ..SubscribeUpdate::default()
        })
    };
    assert_eq!(update_height(&update(1, 10, 20)), Some(10));
    assert_eq!(
        of(Update::BestChain(Arc::new(BestChainUpdate {
            height: 3,
            ..BestChainUpdate::default()
        }))),
        Some(3)
    );
    assert_eq!(
        of(Update::Transaction(Arc::new(TransactionUpdate {
            height: 4,
            ..TransactionUpdate::default()
        }))),
        Some(4)
    );
    assert_eq!(
        of(Update::Utxo(Arc::new(UtxoUpdate {
            height: 5,
            ..UtxoUpdate::default()
        }))),
        Some(5)
    );
    assert_eq!(of(Update::Ping(PingUpdate { id: 1 })), None);
    assert_eq!(update_height(&mempool(1)), None);
    assert_eq!(update_height(&SubscribeUpdate::default()), None);
}
