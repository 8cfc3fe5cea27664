//! Measurements of a subscription: throughput and the time from event to client.

use crate::node::SinceEpoch;
use crate::proto::{EventType, SubscribeUpdate, Timestamp};
use crate::transparent::sum;
use crate::wire::capped;
use vstd::prelude::*;

verus! {

/// The largest latency that is told apart, in milliseconds.
pub const MAX_LATENCY_MS: usize = 10_000;

/// One more, or the largest number.
pub open spec fn one_more(count: u64) -> u64 {
    saturated(count, 1)
}

/// A sum, or the largest number.
pub open spec fn saturated(left: u64, right: u64) -> u64 {
    if left + right > u64::MAX {
        u64::MAX
    } else {
        (left + right) as u64
    }
}

/// Counts latencies by the millisecond. Longer ones than the largest are counted as the largest.
#[derive(Debug)]
pub struct LatencyHistogram {
    buckets: Vec<u64>,
    samples: u64,
}

/// The bucket of a latency.
pub open spec fn latency_bucket(latency_ms: u64) -> int {
    if latency_ms > MAX_LATENCY_MS {
        MAX_LATENCY_MS as int
    } else {
        latency_ms as int
    }
}

/// The number of samples that a percentile has to cover.
pub open spec fn covered(samples: u64, percentile: u64) -> u64 {
    let product = samples * percentile;
    let capped_product: int = if product > u64::MAX {
        u64::MAX as int
    } else {
        product
    };
    let rounded: int = if capped_product + 99 > u64::MAX {
        u64::MAX as int
    } else {
        capped_product + 99
    };
    (rounded / 100) as u64
}

impl View for LatencyHistogram {
    type V = Seq<u64>;

    closed spec fn view(&self) -> Seq<u64> {
        self.buckets@
    }
}

impl LatencyHistogram {
    /// The number of latencies that were counted.
    pub closed spec fn spec_samples(self) -> u64 {
        self.samples
    }

    /// Whether there is a bucket for each millisecond.
    pub open spec fn well_formed(self) -> bool {
        self@.len() == MAX_LATENCY_MS + 1
    }

    /// Creates an empty histogram.
    pub fn new() -> (histogram: Self)
        ensures
            histogram.well_formed(),
            histogram.spec_samples() == 0,
            forall|i: int| 0 <= i < histogram@.len() ==> histogram@[i] == 0,
    {
        let mut buckets: Vec<u64> = Vec::new();
        while buckets.len() < MAX_LATENCY_MS + 1
            invariant
                buckets@.len() <= MAX_LATENCY_MS + 1,
                forall|i: int| 0 <= i < buckets@.len() ==> buckets@[i] == 0,
            decreases MAX_LATENCY_MS + 1 - buckets@.len(),
        {
            buckets.push(0);
        }
        LatencyHistogram { buckets, samples: 0 }
    }

    /// The number of latencies that were counted.
    pub fn samples(&self) -> (samples: u64)
        ensures
            samples == self.spec_samples(),
    {
        self.samples
    }

    /// Counts a latency.
    pub fn record(&mut self, latency_ms: u64)
        requires
            old(self).well_formed(),
        ensures
            final(self).well_formed(),
            final(self).spec_samples() == one_more(old(self).spec_samples()),
            final(self)@ == old(self)@.update(
                latency_bucket(latency_ms),
                one_more(old(self)@[latency_bucket(latency_ms)]),
            ),
    {
        let bucket: usize = if latency_ms > MAX_LATENCY_MS as u64 {
            MAX_LATENCY_MS
        } else {
            latency_ms as usize
        };
        let count: u64 = self.buckets[bucket].saturating_add(1);
        self.buckets.set(bucket, count);
        self.samples = self.samples.saturating_add(1);
    }

    /// Adds the counts of another histogram.
    pub fn merge(&mut self, other: &Self)
        requires
            old(self).well_formed(),
            other.well_formed(),
        ensures
            final(self).well_formed(),
            final(self).spec_samples() == saturated(old(self).spec_samples(), other.spec_samples()),
            forall|i: int|
                0 <= i < final(self)@.len() ==> (#[trigger] final(self)@[i]) == saturated(
                    old(self)@[i],
                    other@[i],
                ),
    {
        self.samples = self.samples.saturating_add(other.samples);
        for index in 0..MAX_LATENCY_MS + 1
            invariant
                self@.len() == MAX_LATENCY_MS + 1,
                other@.len() == MAX_LATENCY_MS + 1,
                old(self)@.len() == MAX_LATENCY_MS + 1,
                self.samples == saturated(old(self).samples, other.samples),
                forall|i: int|
                    0 <= i < index ==> (#[trigger] self@[i]) == saturated(old(self)@[i], other@[i]),
                forall|i: int| index <= i < self@.len() ==> (#[trigger] self@[i]) == old(self)@[i],
        {
            let total: u64 = self.buckets[index].saturating_add(other.buckets[index]);
            self.buckets.set(index, total);
        }
    }

    /// The smallest latency that a percentage of the samples does not exceed.
    pub fn percentile(&self, percentile: u64) -> (latency_ms: Option<usize>)
        requires
            self.well_formed(),
        ensures
            match latency_ms {
                Some(latency) => {
                    let target = covered(self.spec_samples(), percentile);
                    &&& self.spec_samples() > 0
                    &&& latency <= MAX_LATENCY_MS
                    &&& sum(self@.take(latency + 1)) >= target
                    &&& forall|fewer: int|
                        0 <= fewer < latency ==> sum(#[trigger] self@.take(fewer + 1)) < target
                },
                None => self.spec_samples() == 0 || sum(self@) < covered(
                    self.spec_samples(),
                    percentile,
                ),
            },
    {
        if self.samples == 0 {
            return None;
        }
        let product: u64 = match self.samples.checked_mul(percentile) {
            Some(product) => product,
            None => u64::MAX,
        };
        let target: u64 = product.saturating_add(99) / 100;
        let mut seen: u64 = 0;
        proof {
            assert(self@.take(0) =~= Seq::empty());
        }
        for index in 0..self.buckets.len()
            invariant
                self.well_formed(),
                self.samples > 0,
                target == covered(self.samples, percentile),
                seen == (if sum(self@.take(index as int)) > u64::MAX {
                    u64::MAX as nat
                } else {
                    sum(self@.take(index as int))
                }),
                forall|fewer: int|
                    0 <= fewer < index ==> sum(#[trigger] self@.take(fewer + 1)) < target,
        {
            proof {
                assert(self@.take(index + 1).drop_last() =~= self@.take(index as int));
            }
            seen = seen.saturating_add(self.buckets[index]);
            if seen >= target {
                return Some(index);
            }
        }
        proof {
            assert(self@.take(self@.len() as int) =~= self@);
            assert(sum(self@.take((self@.len() - 1) + 1)) < target);
        }
        None
    }
}

/// A point in time, in nanoseconds since the Unix epoch.
pub open spec fn epoch_nanos(seconds: nat, nanos: nat) -> nat {
    seconds * 1_000_000_000 + nanos
}

/// Whether a timestamp is a proper point in time after the Unix epoch.
pub open spec fn is_proper(time: Timestamp) -> bool {
    time.seconds >= 0 && 0 <= time.nanos < 1_000_000_000
}

/// The milliseconds from the observation of an event until now, if both are known and in order.
pub open spec fn latency_ms(observed_at: Option<Timestamp>, now: SinceEpoch) -> Option<nat> {
    match observed_at {
        Some(time) if is_proper(time) => {
            let observed = epoch_nanos(time.seconds as nat, time.nanos as nat);
            let current = epoch_nanos(now.seconds as nat, now.nanos as nat);
            if current < observed {
                None
            } else {
                let latency = ((current - observed) / 1_000_000) as nat;
                if latency > u64::MAX {
                    None
                } else {
                    Some(latency)
                }
            }
        },
        _ => None,
    }
}

/// The milliseconds from the observation of an update's event until now.
pub fn update_latency_ms(update: &SubscribeUpdate, now: SinceEpoch) -> (latency: Option<u64>)
    requires
        now.nanos < 1_000_000_000,
    ensures
        match latency {
            Some(latency) => latency_ms(update.observed_at, now) == Some(latency as nat),
            None => latency_ms(update.observed_at, now) is None,
        },
{
    let time = match update.observed_at {
        Some(time) => time,
        None => {
            return None;
        },
    };
    if time.seconds < 0 || time.nanos < 0 || time.nanos >= 1_000_000_000 {
        return None;
    }
    let observed: u128 = (time.seconds as u128) * 1_000_000_000 + time.nanos as u128;
    let current: u128 = (now.seconds as u128) * 1_000_000_000 + now.nanos as u128;
    if current < observed {
        return None;
    }
    let latency: u128 = (current - observed) / 1_000_000;
    if latency > u64::MAX as u128 {
        None
    } else {
        Some(latency as u64)
    }
}

/// The number of event types.
pub const EVENT_TYPE_COUNT: usize = 8;

/// What one client measured.
#[derive(Debug)]
pub struct Stats {
    pub messages: u64,
    pub bytes: u64,
    /// How long the client was subscribed, in nanoseconds.
    pub active_nanos: u128,
    /// The number of updates by the wire number of their event type.
    pub events: Vec<u64>,
    pub latency: LatencyHistogram,
}

/// The position of the count of an event type. Unknown ones are counted as unspecified.
pub open spec fn event_position(event_type: i32) -> int {
    match EventType::spec_from_number(event_type) {
        Some(kind) => kind.spec_number() as int,
        None => 0,
    }
}

impl Stats {
    /// Whether there is a count for each event type and a bucket for each millisecond.
    pub open spec fn well_formed(self) -> bool {
        self.events@.len() == EVENT_TYPE_COUNT && self.latency.well_formed()
    }

    /// Starts without measurements.
    pub fn new() -> (stats: Self)
        ensures
            stats.well_formed(),
            stats.messages == 0,
            stats.bytes == 0,
            stats.active_nanos == 0,
            forall|i: int| 0 <= i < EVENT_TYPE_COUNT ==> stats.events@[i] == 0,
            stats.latency.spec_samples() == 0,
            forall|i: int| 0 <= i < stats.latency@.len() ==> stats.latency@[i] == 0,
    {
        Stats {
            messages: 0,
            bytes: 0,
            active_nanos: 0,
            events: vec![0, 0, 0, 0, 0, 0, 0, 0],
            latency: LatencyHistogram::new(),
        }
    }

    /// Counts an update that arrived at some time.
    pub fn record(&mut self, update: &SubscribeUpdate, now: SinceEpoch)
        requires
            old(self).well_formed(),
            now.nanos < 1_000_000_000,
        ensures
            final(self).well_formed(),
            final(self).messages == one_more(old(self).messages),
            final(self).bytes == saturated(
                old(self).bytes,
                capped(update.spec_encoded_len()) as u64,
            ),
            final(self).active_nanos == old(self).active_nanos,
            final(self).events@ == old(self).events@.update(
                event_position(update.event_type),
                one_more(old(self).events@[event_position(update.event_type)]),
            ),
            match latency_ms(update.observed_at, now) {
                Some(latency) => {
                    let bucket = latency_bucket(latency as u64);
                    &&& final(self).latency.spec_samples() == one_more(
                        old(self).latency.spec_samples(),
                    )
                    &&& final(self).latency@ == old(self).latency@.update(
                        bucket,
                        one_more(old(self).latency@[bucket]),
                    )
                },
                None => final(self).latency == old(self).latency,
            },
    {
        self.messages = self.messages.saturating_add(1);
        self.bytes = self.bytes.saturating_add(update.encoded_len() as u64);
        let kind = match EventType::from_number(update.event_type) {
            Some(kind) => kind,
            None => EventType::Unspecified,
        };
        let position: usize = kind.number() as usize;
        let count: u64 = self.events[position].saturating_add(1);
        self.events.set(position, count);
        if let Some(latency) = update_latency_ms(update, now) {
            self.latency.record(latency);
        }
    }

    /// Adds what another client measured. The clients ran side by side, so the longest time
    /// counts.
    pub fn merge(&mut self, other: Self)
        requires
            old(self).well_formed(),
            other.well_formed(),
        ensures
            final(self).well_formed(),
            final(self).messages == saturated(old(self).messages, other.messages),
            final(self).bytes == saturated(old(self).bytes, other.bytes),
            final(self).active_nanos == (if old(self).active_nanos >= other.active_nanos {
                old(self).active_nanos
            } else {
                other.active_nanos
            }),
            forall|i: int|
                0 <= i < EVENT_TYPE_COUNT ==> (#[trigger] final(self).events@[i]) == saturated(
                    old(self).events@[i],
                    other.events@[i],
                ),
            final(self).latency.spec_samples() == saturated(
                old(self).latency.spec_samples(),
                other.latency.spec_samples(),
            ),
            forall|i: int|
                0 <= i < final(self).latency@.len() ==> (#[trigger] final(self).latency@[i])
                    == saturated(old(self).latency@[i], other.latency@[i]),
    {
        self.messages = self.messages.saturating_add(other.messages);
        self.bytes = self.bytes.saturating_add(other.bytes);
        if other.active_nanos > self.active_nanos {
            self.active_nanos = other.active_nanos;
        }
        for index in 0..EVENT_TYPE_COUNT
            invariant
                self.events@.len() == EVENT_TYPE_COUNT,
                other.events@.len() == EVENT_TYPE_COUNT,
                old(self).events@.len() == EVENT_TYPE_COUNT,
                self.messages == saturated(old(self).messages, other.messages),
                self.bytes == saturated(old(self).bytes, other.bytes),
                self.active_nanos == (if old(self).active_nanos >= other.active_nanos {
                    old(self).active_nanos
                } else {
                    other.active_nanos
                }),
                self.latency == old(self).latency,
                forall|i: int|
                    0 <= i < index ==> (#[trigger] self.events@[i]) == saturated(
                        old(self).events@[i],
                        other.events@[i],
                    ),
                forall|i: int|
                    index <= i < EVENT_TYPE_COUNT ==> (#[trigger] self.events@[i])
                        == old(self).events@[i],
        {
            let total: u64 = self.events[index].saturating_add(other.events[index]);
            self.events.set(index, total);
        }
        self.latency.merge(&other.latency);
    }
}

} // verus!
