//! What a client measures.

use crate::latency::{covered, update_latency_ms, LatencyHistogram, Stats};
use crate::node::SinceEpoch;
use crate::proto::SubscribeUpdate;
use crate::transparent::{lemma_sum_grows, sum};
use vstd::prelude::*;

verus! {

/// A latency as far as it is told apart: up to ten seconds, in milliseconds.
pub open spec fn told_apart(latency_ms: u64) -> u64 {
    if latency_ms <= 10_000 {
        latency_ms
    } else {
        10_000
    }
}

proof fn lemma_sum_of_zeros(counts: Seq<u64>)
    requires
        forall|i: int| 0 <= i < counts.len() ==> counts[i] == 0,
    ensures
        sum(counts) == 0,
    decreases counts.len(),
{
    if counts.len() > 0 {
        lemma_sum_of_zeros(counts.drop_last());
    }
}

/// One more in one place raises the totals from that place on.
proof fn lemma_sum_of_more(counts: Seq<u64>, place: int, n: int)
    requires
        0 <= place < counts.len(),
        counts[place] < u64::MAX,
        0 <= n <= counts.len(),
    ensures
        sum(counts.update(place, (counts[place] + 1) as u64).take(n)) == sum(counts.take(n)) + (
        if place < n {
            1int
        } else {
            0
        }),
    decreases n,
{
    let more = counts.update(place, (counts[place] + 1) as u64);
    if n > 0 {
        lemma_sum_of_more(counts, place, n - 1);
        assert(more.take(n).drop_last() =~= more.take(n - 1));
        assert(counts.take(n).drop_last() =~= counts.take(n - 1));
    }
}

proof fn lemma_target(samples: u64, percentile: u64)
    requires
        0 < percentile <= 100,
        0 < samples <= 2,
    ensures
        samples == 1 ==> covered(samples, percentile) == 1,
        samples == 2 && percentile <= 50 ==> covered(samples, percentile) == 1,
        samples == 2 && percentile > 50 ==> covered(samples, percentile) == 2,
{
    assert(samples * percentile == if samples == 1 {
        percentile as int
    } else {
        2 * percentile
    }) by (nonlinear_arith)
        requires
            samples == 1 || samples == 2,
    ;
}

/// A histogram without samples has no percentiles. With one sample, every percentile is that
/// sample. With two, the percentiles up to the fiftieth are the smaller one, and those beyond it
/// the larger one. Latencies over ten seconds count as ten seconds.
pub proof fn law_percentiles_are_samples(
    empty: &mut LatencyHistogram,
    one: &mut LatencyHistogram,
    lower: u64,
    higher: u64,
    percentile: u64,
    without: Option<usize>,
    with_one: Option<usize>,
    with_two: Option<usize>,
    samples: (u64, u64, u64),
)
    requires
        call_ensures(LatencyHistogram::new, (), *empty),
        call_ensures(LatencyHistogram::percentile, (&*empty, percentile), without),
        call_ensures(LatencyHistogram::samples, (&*empty,), samples.0),
        call_ensures(LatencyHistogram::record, (empty, higher), ()),
        *one == *final(empty),
        call_ensures(LatencyHistogram::percentile, (&*one, percentile), with_one),
        call_ensures(LatencyHistogram::samples, (&*one,), samples.1),
        call_ensures(LatencyHistogram::record, (one, lower), ()),
        call_ensures(LatencyHistogram::percentile, (&*final(one), percentile), with_two),
        call_ensures(LatencyHistogram::samples, (&*final(one),), samples.2),
        lower <= higher,
        0 < percentile <= 100,
    ensures
        samples == (0u64, 1u64, 2u64),
        without is None,
        with_one == Some(told_apart(higher) as usize),
        with_two == Some(
            (if percentile <= 50 {
                told_apart(lower)
            } else {
                told_apart(higher)
            }) as usize,
        ),
{
    let a = told_apart(lower) as int;
    let b = told_apart(higher) as int;
    let zero = empty@;
    let single = one@;
    let both = final(one)@;
    lemma_target(1, percentile);
    lemma_target(2, percentile);
    assert forall|n: int| 0 <= n <= zero.len() implies sum(#[trigger] zero.take(n)) == 0 by {
        lemma_sum_of_zeros(zero.take(n));
    }
    assert forall|n: int| 0 <= n <= zero.len() implies sum(#[trigger] single.take(n)) == (if b < n {
        1int
    } else {
        0
    }) by {
        lemma_sum_of_more(zero, b, n);
        assert(sum(zero.take(n)) == 0);
    }
    assert forall|n: int| 0 <= n <= zero.len() implies sum(#[trigger] both.take(n)) == (if b < n {
        1int
    } else {
        0
    }) + (if a < n {
        1int
    } else {
        0
    }) by {
        lemma_sum_of_more(single, a, n);
        assert(sum(single.take(n)) == (if b < n {
            1int
        } else {
            0
        }));
    }
    assert(single.take(single.len() as int) =~= single);
    assert(both.take(both.len() as int) =~= both);
    if with_one is Some {
        let found = with_one->0 as int;
        assert(sum(single.take(found + 1)) >= 1);
        if b < found {
            assert(sum(single.take(b + 1)) < 1);
        }
    }
    if with_two is Some {
        let found = with_two->0 as int;
        let expected = if percentile <= 50 {
            a
        } else {
            b
        };
        assert(sum(both.take(found + 1)) >= covered(2, percentile));
        if expected < found {
            assert(sum(both.take(expected + 1)) < covered(2, percentile));
        }
    }
}

/// A higher percentile is never a smaller latency.
pub proof fn law_percentiles_are_ordered(
    histogram: LatencyHistogram,
    one: u64,
    other: u64,
    lower: Option<usize>,
    higher: Option<usize>,
)
    requires
        histogram.well_formed(),
        one <= other,
        call_ensures(LatencyHistogram::percentile, (&histogram, one), lower),
        call_ensures(LatencyHistogram::percentile, (&histogram, other), higher),
    ensures
        higher is Some ==> lower is Some && lower->0 <= higher->0,
        lower matches Some(latency) ==> latency <= 10_000,
{
    let samples = histogram.spec_samples();
    assert(samples * one <= samples * other) by (nonlinear_arith)
        requires
            one <= other,
            0 <= samples,
    ;
    let counts = histogram@;
    if higher is Some {
        let found = higher->0 as int;
        assert(sum(counts.take(found + 1)) >= covered(samples, one));
        lemma_sum_grows(counts, found + 1, counts.len() as int);
        assert(counts.take(counts.len() as int) =~= counts);
        if lower is Some && found < lower->0 {
            assert(sum(counts.take(found + 1)) < covered(samples, one));
        }
    }
}

/// Adding a histogram of one sample is the same as counting that sample.
pub proof fn law_merging_counts_every_sample(
    merging: &mut LatencyHistogram,
    recording: &mut LatencyHistogram,
    fresh: &mut LatencyHistogram,
    latency: u64,
    percentile: u64,
    merged: Option<usize>,
    recorded: Option<usize>,
    samples: (u64, u64),
)
    requires
        merging.well_formed(),
        *recording == *merging,
        call_ensures(LatencyHistogram::new, (), *fresh),
        call_ensures(LatencyHistogram::record, (fresh, latency), ()),
        call_ensures(LatencyHistogram::merge, (merging, &*final(fresh)), ()),
        call_ensures(LatencyHistogram::record, (recording, latency), ()),
        call_ensures(LatencyHistogram::percentile, (&*final(merging), percentile), merged),
        call_ensures(LatencyHistogram::percentile, (&*final(recording), percentile), recorded),
        call_ensures(LatencyHistogram::samples, (&*final(merging),), samples.0),
        call_ensures(LatencyHistogram::samples, (&*final(recording),), samples.1),
    ensures
        merged == recorded,
        samples.0 == samples.1,
{
    assert(final(merging)@ =~= final(recording)@);
    let counts = final(merging)@;
    let target = covered(final(merging).spec_samples(), percentile);
    if merged is Some && recorded is Some {
        let one = merged->0 as int;
        let other = recorded->0 as int;
        if one < other {
            assert(sum(counts.take(one + 1)) < target);
        }
        if other < one {
            assert(sum(counts.take(other + 1)) < target);
        }
    }
    assert(counts.take(counts.len() as int) =~= counts);
    if merged is Some {
        lemma_sum_grows(counts, merged->0 + 1, counts.len() as int);
    }
    if recorded is Some {
        lemma_sum_grows(counts, recorded->0 + 1, counts.len() as int);
    }
}

/// The latency of an update is the number of whole milliseconds from its observation until now.
/// There is none when the time of observation is missing or improper, or later than now.
pub proof fn law_latency_is_the_time_passed(
    update: SubscribeUpdate,
    now: SinceEpoch,
    latency: Option<u64>,
)
    requires
        now.nanos < 1_000_000_000,
        call_ensures(update_latency_ms, (&update, now), latency),
    ensures
        match update.observed_at {
            Some(time) => {
                let observed = time.seconds * 1_000_000_000 + time.nanos;
                let current = now.seconds * 1_000_000_000 + now.nanos;
                &&& time.seconds < 0 || time.nanos < 0 || time.nanos >= 1_000_000_000 || current
                    < observed ==> latency is None
                &&& latency matches Some(passed) ==> {
                    &&& observed + passed * 1_000_000 <= current
                    &&& current < observed + (passed + 1) * 1_000_000
                }
                &&& time.seconds >= 0 && 0 <= time.nanos < 1_000_000_000 && observed <= current
                    && current - observed <= 1_000_000_000_000_000_000 ==> latency is Some
            },
            None => latency is None,
        },
{
}

/// An update adds one to the number of updates and to the number of its event type, and its
/// latency, if it has one, to the histogram. What is of no known type is counted with what has
/// none.
pub proof fn law_updates_are_counted(
    stats: &mut Stats,
    update: SubscribeUpdate,
    now: SinceEpoch,
    latency: Option<u64>,
    samples: (u64, u64),
)
    requires
        stats.well_formed(),
        stats.messages < u64::MAX,
        forall|i: int| 0 <= i < 8 ==> (#[trigger] stats.events@[i]) < u64::MAX,
        now.nanos < 1_000_000_000,
        call_ensures(LatencyHistogram::samples, (&stats.latency,), samples.0),
        samples.0 < u64::MAX,
        call_ensures(Stats::record, (stats, &update, now), ()),
        call_ensures(LatencyHistogram::samples, (&final(stats).latency,), samples.1),
        call_ensures(update_latency_ms, (&update, now), latency),
    ensures
        final(stats).messages == old(stats).messages + 1,
        final(stats).active_nanos == old(stats).active_nanos,
        final(stats).events@.len() == 8,
        forall|i: int|
            0 <= i < 8 ==> (#[trigger] final(stats).events@[i]) == old(stats).events@[i] + (if i == (
            if 0 <= update.event_type < 8 {
                update.event_type as int
            } else {
                0
            }) {
                1int
            } else {
                0
            }),
        samples.1 == samples.0 + (if latency is Some {
            1int
        } else {
            0
        }),
{
}

/// Measurements of two clients add up. They ran side by side, so the longer time counts.
pub proof fn law_measurements_add_up(
    stats: &mut Stats,
    other: Stats,
    samples: (u64, u64, u64),
)
    requires
        stats.well_formed(),
        other.well_formed(),
        stats.messages + other.messages <= u64::MAX,
        stats.bytes + other.bytes <= u64::MAX,
        forall|i: int|
            0 <= i < 8 ==> (#[trigger] stats.events@[i]) + other.events@[i] <= u64::MAX,
        call_ensures(LatencyHistogram::samples, (&stats.latency,), samples.0),
        call_ensures(LatencyHistogram::samples, (&other.latency,), samples.1),
        samples.0 + samples.1 <= u64::MAX,
        call_ensures(Stats::merge, (stats, other), ()),
        call_ensures(LatencyHistogram::samples, (&final(stats).latency,), samples.2),
    ensures
        final(stats).messages == old(stats).messages + other.messages,
        final(stats).bytes == old(stats).bytes + other.bytes,
        final(stats).active_nanos >= old(stats).active_nanos,
        final(stats).active_nanos >= other.active_nanos,
        final(stats).active_nanos == old(stats).active_nanos || final(stats).active_nanos
            == other.active_nanos,
        forall|i: int|
            0 <= i < 8 ==> (#[trigger] final(stats).events@[i]) == old(stats).events@[i]
                + other.events@[i],
        samples.2 == samples.0 + samples.1,
{
}

} // verus!
