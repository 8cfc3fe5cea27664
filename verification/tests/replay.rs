//! The replay window.

use std::sync::Arc;
use zakura_grpc::proto::{
    BlockUpdate, EventType, MempoolUpdate, SubscribeUpdate, Update,
};
use zakura_grpc::replay::{PublishedUpdate, ReplayBuffer, ReplayLimits};
use zakura_grpc::status::Code;

const SECOND: u128 = 1_000_000_000;

fn replay_limits(max_heights: usize) -> ReplayLimits {
    ReplayLimits {
        height_capacity: max_heights,
        event_capacity: 100,
        byte_capacity: 1024 * 1024,
        max_age: None,
    }
}

fn block_update(height: u32, sequence: u64) -> SubscribeUpdate {
    SubscribeUpdate {
        sequence,
        event_type: EventType::BlockFinalized.into(),
        update: Some(Update::Block(BlockUpdate {
            height,
            finalized: true,
            ..BlockUpdate::default()
        })),
        ..SubscribeUpdate::default()
    }
}

fn mempool_update(sequence: u64) -> SubscribeUpdate {
    SubscribeUpdate {
        sequence,
        event_type: EventType::MempoolChanged.into(),
        update: Some(Update::Mempool(Arc::new(MempoolUpdate::default()))),
        ..SubscribeUpdate::default()
    }
}

fn published_block(height: u32, sequence: u64) -> Arc<PublishedUpdate> {
    Arc::new(PublishedUpdate::new(block_update(height, sequence)))
}

fn sequences(updates: &[Arc<PublishedUpdate>]) -> Vec<u64> {
    updates
        .iter()
        .map(|update| update.message.sequence)
        .collect()
}

#[test]
fn replay_retains_distinct_block_heights() {
    let mut replay = ReplayBuffer::new(replay_limits(2));
    replay.push_batch(&[published_block(10, 1), published_block(10, 2)]);
    replay.push_batch(&[published_block(11, 3)]);
    replay.push_batch(&[published_block(12, 4)]);

    assert_eq!(replay.first_available_height(), Some(11));
    let snapshot = replay.snapshot(Some(11)).unwrap();
    assert_eq!(snapshot.updates.len(), 2);
    assert_eq!(snapshot.watermark, 4);
}

#[test]
fn replay_rejects_evicted_height() {
    let mut replay = ReplayBuffer::new(replay_limits(1));
    replay.push_batch(&[published_block(20, 1)]);
    replay.push_batch(&[published_block(21, 2)]);

    let status = replay.snapshot(Some(20)).unwrap_err();
    assert_eq!(status.code(), Code::OutOfRange);
    assert_eq!(
        status.message,
        "events from height 20 are not available; first available height is 21"
    );
}

#[test]
fn evicted_heights_are_refused_when_nothing_is_left() {
    let mut limits = replay_limits(10);
    limits.event_capacity = 2;
    let mut replay = ReplayBuffer::new(limits);
    replay.push_batch(&[
        published_block(20, 1),
        published_block(20, 2),
        published_block(20, 3),
    ]);
    assert_eq!(replay.bucket_count(), 0);

    for height in [0, 19, 20] {
        let status = replay.snapshot(Some(height)).unwrap_err();
        assert_eq!(status.code(), Code::OutOfRange);
        assert_eq!(
            status.message,
            format!("events from height {height} are not available")
        );
    }
    let snapshot = replay.snapshot(Some(21)).unwrap();
    assert!(snapshot.updates.is_empty());
    assert_eq!(snapshot.watermark, 0);
    assert!(replay.snapshot(None).is_ok());

    replay.push_batch(&[published_block(21, 4)]);
    assert_eq!(sequences(&replay.snapshot(Some(21)).unwrap().updates), [4]);
    assert_eq!(
        replay.snapshot(Some(20)).unwrap_err().message,
        "events from height 20 are not available; first available height is 21"
    );
}

#[test]
fn expired_heights_are_refused() {
    let mut limits = replay_limits(10);
    limits.max_age = Some(10 * SECOND);
    let mut replay = ReplayBuffer::new(limits);
    assert!(replay.snapshot_at(Some(5), 0).is_ok());
    replay.push_batch_at(&[published_block(7, 1)], SECOND);
    replay.push_batch_at(&[published_block(6, 2)], 2 * SECOND);
    let status = replay.snapshot_at(Some(7), 20 * SECOND).unwrap_err();
    assert_eq!(status.code(), Code::OutOfRange);
    assert_eq!(status.message, "events from height 7 are not available");
    assert!(replay.snapshot_at(Some(8), 20 * SECOND).is_ok());
}

#[test]
fn the_watermark_is_that_of_the_last_retained_update() {
    let mut replay = ReplayBuffer::new(replay_limits(10));
    replay.push_batch(&[published_block(10, 1), published_block(10, 2)]);
    replay.push_batch(&[Arc::new(PublishedUpdate::new(mempool_update(3)))]);
    assert_eq!(replay.snapshot(None).unwrap().watermark, 2);
}

#[test]
fn replay_evicts_whole_buckets_by_event_limit() {
    let mut limits = replay_limits(10);
    limits.event_capacity = 2;
    let mut replay = ReplayBuffer::new(limits);
    replay.push_batch(&[published_block(10, 1), published_block(10, 2)]);
    replay.push_batch(&[published_block(11, 3)]);

    let snapshot = replay.snapshot(Some(11)).unwrap();
    assert_eq!(snapshot.updates.len(), 1);
    assert_eq!(snapshot.updates[0].message.sequence, 3);
    assert_eq!(replay.event_count(), 1);
}

#[test]
fn replay_evicts_whole_buckets_by_byte_limit() {
    let first = published_block(10, 1);
    let second = published_block(11, 2);
    let mut limits = replay_limits(10);
    limits.byte_capacity = first.encoded_len.max(second.encoded_len);
    let mut replay = ReplayBuffer::new(limits);
    replay.push_batch(&[first]);
    replay.push_batch(&[second]);

    assert_eq!(replay.first_available_height(), Some(11));
    assert_eq!(replay.event_count(), 1);
}

#[test]
fn replay_evicts_expired_buckets() {
    let mut limits = replay_limits(10);
    limits.max_age = Some(10 * SECOND);
    let mut replay = ReplayBuffer::new(limits);
    let inserted_at = 5 * SECOND;
    replay.push_batch_at(&[published_block(10, 1)], inserted_at);

    replay.evict(inserted_at + 11 * SECOND);

    assert_eq!(replay.bucket_count(), 0);
    assert_eq!(replay.event_count(), 0);
    assert_eq!(replay.encoded_bytes(), 0);
}

#[test]
fn replay_range_uses_height_values_not_arrival_order() {
    let mut replay = ReplayBuffer::new(replay_limits(10));
    replay.push_batch(&[published_block(200, 1)]);
    replay.push_batch(&[published_block(100, 2)]);

    assert_eq!(replay.first_available_height(), Some(100));
    assert_eq!(replay.latest_height(), Some(200));
}

#[test]
fn buckets_of_exactly_the_allowed_age_stay() {
    let mut limits = replay_limits(10);
    limits.max_age = Some(10 * SECOND);
    let mut replay = ReplayBuffer::new(limits);
    replay.push_batch_at(&[published_block(10, 1)], SECOND);
    replay.evict(11 * SECOND);
    assert_eq!(replay.bucket_count(), 1);
    replay.evict(0);
    assert_eq!(replay.bucket_count(), 1);
    replay.evict(11 * SECOND + 1);
    assert_eq!(replay.bucket_count(), 0);
}

#[test]
fn no_bucket_outlives_the_allowed_age() {
    let mut limits = replay_limits(10);
    limits.max_age = Some(10 * SECOND);
    let mut replay = ReplayBuffer::new(limits);
    replay.push_batch_at(&[published_block(10, 1)], SECOND);
    replay.push_batch_at(&[published_block(11, 2)], 2 * SECOND);
    replay.push_batch_at(&[published_block(12, 3)], 5 * SECOND);
    assert_eq!(replay.bucket_count(), 3);

    replay.push_batch_at(&[published_block(13, 4)], 13 * SECOND);
    assert_eq!(replay.bucket_count(), 2);
    assert_eq!(replay.first_available_height(), Some(12));

    let snapshot = replay.snapshot_at(Some(12), 15 * SECOND).unwrap();
    assert_eq!(sequences(&snapshot.updates), [3, 4]);
    let snapshot = replay.snapshot_at(Some(13), 15 * SECOND + 1).unwrap();
    assert_eq!(sequences(&snapshot.updates), [4]);
    assert_eq!(replay.bucket_count(), 1);
}

#[test]
fn buckets_age_with_the_clock() {
    let mut limits = replay_limits(10);
    limits.max_age = Some(1_000);
    let mut replay = ReplayBuffer::new(limits);
    replay.push_batch(&[published_block(10, 1)]);
    let mut snapshots = 0;
    while replay.bucket_count() > 0 && snapshots < 10_000_000 {
        replay.snapshot(None).unwrap();
        snapshots += 1;
    }
    assert_eq!(replay.bucket_count(), 0);
}

#[test]
fn zero_height_capacity_disables_replay() {
    let mut replay = ReplayBuffer::new(replay_limits(0));
    replay.push_batch(&[published_block(10, 1)]);
    assert_eq!(replay.bucket_count(), 0);
    assert_eq!(replay.first_available_height(), None);
    let snapshot = replay.snapshot(Some(5)).unwrap();
    assert!(snapshot.updates.is_empty());
    assert_eq!(snapshot.watermark, 0);
}

#[test]
fn updates_without_height_are_not_retained() {
    let mut replay = ReplayBuffer::new(replay_limits(10));
    replay.push_batch(&[Arc::new(PublishedUpdate::new(mempool_update(1)))]);
    assert_eq!(replay.bucket_count(), 0);
    replay.push_batch(&[
        Arc::new(PublishedUpdate::new(mempool_update(2))),
        published_block(7, 3),
        Arc::new(PublishedUpdate::new(mempool_update(4))),
    ]);
    assert_eq!(replay.bucket_count(), 1);
    assert_eq!(replay.event_count(), 1);
    let snapshot = replay.snapshot(Some(7)).unwrap();
    assert_eq!(sequences(&snapshot.updates), vec![3]);
    assert_eq!(snapshot.watermark, 3);
}

#[test]
fn same_height_counts_once() {
    let mut replay = ReplayBuffer::new(replay_limits(2));
    for sequence in 1..=5 {
        replay.push_batch(&[published_block(10, sequence)]);
    }
    assert_eq!(replay.height_count(), 1);
    assert_eq!(replay.bucket_count(), 5);
    replay.push_batch(&[published_block(11, 6)]);
    replay.push_batch(&[published_block(12, 7)]);
    assert_eq!(replay.height_count(), 2);
    assert_eq!(replay.bucket_count(), 2);
    assert_eq!(replay.first_available_height(), Some(11));
}

#[test]
fn snapshots_start_at_the_requested_height() {
    let mut replay = ReplayBuffer::new(replay_limits(10));
    replay.push_batch(&[published_block(10, 1), published_block(10, 2)]);
    replay.push_batch(&[published_block(12, 3)]);
    replay.push_batch(&[published_block(11, 4)]);
    assert_eq!(
        sequences(&replay.snapshot(Some(10)).unwrap().updates),
        vec![1, 2, 3, 4]
    );
    assert_eq!(
        sequences(&replay.snapshot(Some(11)).unwrap().updates),
        vec![3, 4]
    );
    assert_eq!(
        sequences(&replay.snapshot(Some(12)).unwrap().updates),
        vec![3]
    );
    let ahead = replay.snapshot(Some(13)).unwrap();
    assert!(ahead.updates.is_empty());
    assert_eq!(ahead.watermark, 4);
    let live = replay.snapshot(None).unwrap();
    assert!(live.updates.is_empty());
    assert_eq!(live.watermark, 4);
    assert_eq!(replay.snapshot(Some(9)).unwrap_err().code(), Code::OutOfRange);
}

#[test]
fn byte_counter_follows_the_window() {
    let first = published_block(10, 1);
    let second = published_block(11, 2);
    let total = first.encoded_len + second.encoded_len;
    let mut replay = ReplayBuffer::new(replay_limits(2));
    replay.push_batch(&[first]);
    replay.push_batch(&[second.clone()]);
    assert_eq!(replay.encoded_bytes(), total);
    let third = published_block(12, 3);
    let kept = second.encoded_len + third.encoded_len;
    replay.push_batch(&[third]);
    assert_eq!(replay.encoded_bytes(), kept);
    assert_eq!(replay.limits(), replay_limits(2));
}

#[test]
fn a_bucket_over_the_byte_limit_is_not_kept() {
    let mut limits = replay_limits(10);
    limits.byte_capacity = published_block(10, 1).encoded_len - 1;
    let mut replay = ReplayBuffer::new(limits);
    replay.push_batch(&[published_block(10, 1)]);
    assert_eq!(replay.bucket_count(), 0);
    assert_eq!(replay.encoded_bytes(), 0);
}

#[test]
fn evictions_are_counted_by_reason() {
    let length = published_block(10, 1).encoded_len as u64;
    let mut limits = replay_limits(2);
    limits.event_capacity = 3;
    limits.max_age = Some(10 * SECOND);
    let mut replay = ReplayBuffer::new(limits);
    replay.push_batch_at(&[published_block(10, 1)], 0);
    replay.push_batch_at(&[published_block(11, 2)], 0);
    assert_eq!(replay.evictions().height.buckets, 0);
    replay.push_batch_at(&[published_block(12, 3)], SECOND);
    assert_eq!(replay.evictions().height.buckets, 1);
    assert_eq!(replay.evictions().height.events, 1);
    assert_eq!(replay.evictions().height.bytes, length);
    replay.push_batch_at(
        &[published_block(12, 4), published_block(12, 5)],
        SECOND,
    );
    assert_eq!(replay.evictions().event_count.buckets, 1);
    assert_eq!(replay.evictions().event_count.events, 1);
    replay.evict(12 * SECOND);
    assert_eq!(replay.evictions().age.buckets, 2);
    assert_eq!(replay.evictions().age.events, 3);
    assert_eq!(replay.evictions().age.bytes, 3 * length);
    assert_eq!(replay.evictions().encoded_bytes.buckets, 0);

    let mut limits = replay_limits(2);
    limits.byte_capacity = 0;
    let mut replay = ReplayBuffer::new(limits);
    replay.push_batch(&[published_block(10, 1)]);
    assert_eq!(replay.evictions().encoded_bytes.buckets, 1);
    assert_eq!(replay.evictions().encoded_bytes.bytes, length);
}
