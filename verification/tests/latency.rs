//! Measurements of the load test.

use zakura_grpc::latency::{update_latency_ms, LatencyHistogram, Stats, MAX_LATENCY_MS};
use zakura_grpc::node::SinceEpoch;
use zakura_grpc::proto::{EventType, SubscribeUpdate, Timestamp};

fn at(seconds: u64, nanos: u32) -> SinceEpoch {
    SinceEpoch { seconds, nanos }
}

fn observed(seconds: i64, nanos: i32) -> SubscribeUpdate {
    SubscribeUpdate {
        observed_at: Some(Timestamp { seconds, nanos }),
        event_type: EventType::Utxo.into(),
        ..SubscribeUpdate::default()
    }
}

#[test]
fn latency_histogram_reports_percentiles() {
    let mut histogram = LatencyHistogram::new();
    for latency in [10, 20, 30, 40] {
        histogram.record(latency);
    }

    assert_eq!(histogram.percentile(50), Some(20));
    assert_eq!(histogram.percentile(95), Some(40));
    assert_eq!(histogram.percentile(99), Some(40));
}

#[test]
fn latency_histogram_caps_large_samples() {
    let mut histogram = LatencyHistogram::new();
    histogram.record(u64::MAX);

    assert_eq!(histogram.percentile(50), Some(MAX_LATENCY_MS));
}

#[test]
fn empty_histograms_have_no_percentile() {
    let histogram = LatencyHistogram::new();
    assert_eq!(histogram.percentile(50), None);
    assert_eq!(histogram.samples(), 0);
}

#[test]
fn histograms_merge() {
    let mut left = LatencyHistogram::new();
    let mut right = LatencyHistogram::new();
    left.record(10);
    right.record(20);
    right.record(30);
    left.merge(&right);
    assert_eq!(left.samples(), 3);
    assert_eq!(left.percentile(0), Some(0));
    assert_eq!(left.percentile(33), Some(10));
    assert_eq!(left.percentile(34), Some(20));
    assert_eq!(left.percentile(100), Some(30));
    assert_eq!(left.percentile(101), None);
}

#[test]
fn latency_is_the_time_since_observation() {
    assert_eq!(
        update_latency_ms(&observed(10, 999_000_000), at(12, 1_999_999)),
        Some(1_002)
    );
    assert_eq!(update_latency_ms(&observed(10, 1), at(10, 0)), None);
    assert_eq!(update_latency_ms(&observed(-1, 0), at(10, 0)), None);
    assert_eq!(update_latency_ms(&observed(1, -1), at(10, 0)), None);
    assert_eq!(update_latency_ms(&observed(1, 1_000_000_000), at(10, 0)), None);
    assert_eq!(update_latency_ms(&SubscribeUpdate::default(), at(10, 0)), None);
    assert_eq!(update_latency_ms(&observed(0, 0), at(u64::MAX, 0)), None);
}

#[test]
fn statistics_add_up() {
    let mut stats = Stats::new();
    stats.record(&observed(10, 0), at(10, 5_000_000));
    stats.record(&SubscribeUpdate::default(), at(10, 0));
    assert_eq!(stats.messages, 2);
    assert_eq!(stats.bytes, 6);
    assert_eq!(stats.events[6], 1);
    assert_eq!(stats.events[0], 1);
    assert_eq!(stats.latency.samples(), 1);
    assert_eq!(stats.latency.percentile(50), Some(5));
    stats.active_nanos = 7;
    let mut other = Stats::new();
    other.record(
        &SubscribeUpdate {
            event_type: 99,
            ..SubscribeUpdate::default()
        },
        at(10, 0),
    );
    other.active_nanos = 5;
    stats.merge(other);
    assert_eq!(stats.messages, 3);
    assert_eq!(stats.events[0], 2);
    assert_eq!(stats.active_nanos, 7);
}
