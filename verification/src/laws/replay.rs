//! What the replay window gives back of what was published.

use crate::laws::scope::{at_height, is_unscoped};
use crate::replay::{
    batch_height, byte_total, distinct_heights, encoded_bytes, entered, event_total,
    eviction_reason, evictions_after, expired, filled, heights, highest_height,
    law_eviction_is_minimal, law_first_available_height_is_lowest, law_latest_height_is_highest,
    lemma_filter_is_part, lowest_height, no_evictions, published_height, replayed, scoped,
    surviving, updates_at, watermark, with_eviction, BucketView, EvictionReason, Evictions,
    Published, ReplayBuffer, ReplayLimits, ReplaySnapshot, Tally,
};
use crate::status::{Code, Status};
use vstd::prelude::*;

verus! {

/// Whether an update is about a block, or a tip, of some height or of a higher one.
pub open spec fn from_height_on(update: Published, height: u32) -> bool {
    exists|at: u32| at >= height && at_height(update.message, at)
}

/// The updates of a batch that are about one height, in their order.
pub open spec fn of_height(updates: Seq<Published>, height: u32) -> Seq<Published> {
    updates.filter(|update: Published| at_height(update.message, height))
}

/// Whether every update of a batch is about one height, or about none.
pub open spec fn is_event_at(updates: Seq<Published>, height: u32) -> bool {
    forall|i: int|
        0 <= i < updates.len() ==> at_height((#[trigger] updates[i]).message, height)
            || is_unscoped(updates[i].message)
}

/// The encoded lengths of updates, added up.
pub open spec fn total_length(updates: Seq<Published>) -> int {
    updates.fold_left(0int, |sum: int, update: Published| sum + update.encoded_len)
}

/// The heights that updates are about.
pub open spec fn heights_of(updates: Seq<Published>) -> Set<u32> {
    Set::new(
        |height: u32|
            exists|i: int| 0 <= i < updates.len() && at_height(updates[i].message, height),
    )
}

/// Whether a window with some counts has room for more updates of one height.
pub open spec fn has_room(
    limits: ReplayLimits,
    height_count: usize,
    event_count: usize,
    byte_count: usize,
    more: Seq<Published>,
) -> bool {
    &&& height_count < limits.height_capacity
    &&& event_count + more.len() <= limits.event_capacity
    &&& byte_count + total_length(more) <= limits.byte_capacity
}

proof fn lemma_heights_agree(height: u32)
    ensures
        (|update: Published| at_height(update.message, height)) == (|update: Published|
            published_height(update) == Some(height)),
{
    assert((|update: Published| at_height(update.message, height)) =~= (|update: Published|
        published_height(update) == Some(height)));
}

proof fn lemma_first_height(updates: Seq<Published>)
    ensures
        match batch_height(updates) {
            Some(height) => exists|i: int|
                0 <= i < updates.len() && published_height(updates[i]) == Some(height),
            None => forall|i: int|
                0 <= i < updates.len() ==> published_height(#[trigger] updates[i]) is None,
        },
    decreases updates.len(),
{
    if updates.len() > 0 && published_height(updates[0]) is None {
        let rest = updates.drop_first();
        lemma_first_height(rest);
        match batch_height(rest) {
            Some(height) => {
                let i = choose|i: int|
                    0 <= i < rest.len() && published_height(rest[i]) == Some(height);
                assert(published_height(updates[i + 1]) == Some(height));
            },
            None => {
                assert forall|i: int| 0 <= i < updates.len() implies published_height(
                    #[trigger] updates[i],
                ) is None by {
                    if i > 0 {
                        assert(rest[i - 1] == updates[i]);
                    }
                }
            },
        }
    }
}

/// What of a batch enters the window.
proof fn lemma_batch(updates: Seq<Published>, height: u32)
    requires
        is_event_at(updates, height),
    ensures
        of_height(updates, height) == updates_at(updates, height),
        of_height(updates, height).len() > 0 ==> batch_height(updates) == Some(height),
        of_height(updates, height).len() == 0 ==> batch_height(updates) is None,
{
    lemma_heights_agree(height);
    lemma_first_height(updates);
    let kept = of_height(updates, height);
    let wanted = |update: Published| at_height(update.message, height);
    updates.filter_lemma(wanted);
    lemma_filter_is_part(updates, wanted);
    if kept.len() > 0 {
        assert(wanted(kept[0]));
        assert(kept.contains(kept[0]));
        assert(updates.contains(kept[0]));
        let i = choose|i: int| 0 <= i < updates.len() && updates[i] == kept[0];
        assert(published_height(updates[i]) is Some);
    }
    if batch_height(updates) is Some {
        let i = choose|i: int|
            0 <= i < updates.len() && published_height(updates[i]) == batch_height(updates);
        assert(wanted(updates[i]));
        assert(kept.contains(updates[i]));
    }
}

/// A batch that is about one height throughout enters the window whole.
pub(crate) proof fn lemma_whole_batch(updates: Seq<Published>, height: u32)
    requires
        forall|i: int|
            0 <= i < updates.len() ==> at_height((#[trigger] updates[i]).message, height),
    ensures
        of_height(updates, height) == updates,
    decreases updates.len(),
{
    reveal(Seq::filter);
    if updates.len() > 0 {
        lemma_whole_batch(updates.drop_last(), height);
        assert(updates.drop_last().push(updates.last()) =~= updates);
    }
}

proof fn lemma_lengths(updates: Seq<Published>)
    ensures
        total_length(updates) == encoded_bytes(updates),
    decreases updates.len(),
{
    if updates.len() > 0 {
        lemma_lengths(updates.drop_last());
    }
}

proof fn lemma_lengths_join(first: Seq<Published>, second: Seq<Published>)
    ensures
        encoded_bytes(first + second) == encoded_bytes(first) + encoded_bytes(second),
    decreases second.len(),
{
    if second.len() > 0 {
        lemma_lengths_join(first, second.drop_last());
        assert((first + second).drop_last() =~= first + second.drop_last());
    } else {
        assert(first + second =~= first);
    }
}

/// A bucket that fits stays, and so does everything before it.
pub(crate) proof fn lemma_room(
    limits: ReplayLimits,
    buckets: Seq<BucketView>,
    updates: Seq<Published>,
    height: u32,
    from: u32,
    now: u128,
    later: u128,
)
    requires
        is_event_at(updates, height),
        distinct_heights(buckets) < limits.height_capacity,
        event_total(buckets) + of_height(updates, height).len() <= limits.event_capacity,
        byte_total(buckets) + total_length(of_height(updates, height)) <= limits.byte_capacity,
        buckets.len() > 0 ==> !expired(buckets[0], limits, now) && !expired(
            buckets[0],
            limits,
            later,
        ),
        limits.max_age is None || later == now,
    ensures
        surviving(limits, entered(buckets, updates, now), now) == entered(buckets, updates, now),
        surviving(limits, entered(buckets, updates, now), later) == entered(buckets, updates, now),
        replayed(entered(buckets, updates, now), from) == replayed(buckets, from) + (if height
            >= from {
            of_height(updates, height)
        } else {
            Seq::empty()
        }),
        of_height(updates, height).len() > 0 ==> watermark(entered(buckets, updates, now))
            == of_height(updates, height).last().message.sequence && lowest_height(
            entered(buckets, updates, now),
        ) is Some,
        of_height(updates, height).len() == 0 ==> entered(buckets, updates, now) == buckets,
        lowest_height(buckets) is Some && lowest_height(buckets)->0 <= from ==> lowest_height(
            entered(buckets, updates, now),
        )->0 <= from,
        of_height(updates, height).len() > 0 && height <= from ==> lowest_height(
            entered(buckets, updates, now),
        )->0 <= from,
{
    let kept = of_height(updates, height);
    let after = entered(buckets, updates, now);
    lemma_batch(updates, height);
    lemma_lengths(kept);
    if kept.len() > 0 {
        let bucket = BucketView { height, inserted_at: now, updates: kept };
        assert(after == buckets.push(bucket));
        assert(after.drop_last() =~= buckets);
        assert(heights(after) =~= heights(buckets).push(height));
        assert(heights(after).to_set() =~= heights(buckets).to_set().insert(height)) by {
            let before = heights(buckets);
            assert(before.push(height)[before.len() as int] == height);
            assert forall|h: u32| before.contains(h) implies before.push(height).contains(h) by {
                let i = before.index_of(h);
                assert(before.push(height)[i] == h);
            }
        }
        assert(replayed(after, from) =~= replayed(buckets, from) + (if height >= from {
            kept
        } else {
            Seq::empty()
        }));
    } else {
        assert(replayed(after, from) =~= replayed(buckets, from) + (if height >= from {
            kept
        } else {
            Seq::empty()
        }));
    }
}

/// What is published into a window that has room for it is replayed at once, every update of its
/// height and in its order, after everything that was replayed before. Nothing that was there
/// leaves, and live delivery goes on after the last one.
pub proof fn law_published_batch_is_replayed(
    before: &mut ReplayBuffer,
    publishing: &mut ReplayBuffer,
    after: &mut ReplayBuffer,
    limits: ReplayLimits,
    counts: (usize, usize, usize),
    lowest: Option<u32>,
    updates: &[Published],
    height: u32,
    from: u32,
    now: u128,
    previous: ReplaySnapshot,
    result: Result<ReplaySnapshot, Status>,
)
    requires
        before.well_formed(),
        call_ensures(ReplayBuffer::snapshot_at, (before, Some(from), now), Ok(previous)),
        *publishing == *final(before),
        call_ensures(ReplayBuffer::limits, (&*publishing,), limits),
        call_ensures(ReplayBuffer::height_count, (&*publishing,), counts.0),
        call_ensures(ReplayBuffer::event_count, (&*publishing,), counts.1),
        call_ensures(ReplayBuffer::encoded_bytes, (&*publishing,), counts.2),
        call_ensures(ReplayBuffer::first_available_height, (&*publishing,), lowest),
        is_event_at(updates@, height),
        has_room(limits, counts.0, counts.1, counts.2, of_height(updates@, height)),
        call_ensures(ReplayBuffer::push_batch_at, (publishing, updates, now), ()),
        *after == *final(publishing),
        call_ensures(ReplayBuffer::snapshot_at, (after, Some(from), now), result),
        lowest is Some || height <= from || of_height(updates@, height).len() == 0,
    ensures
        result is Ok,
        height >= from ==> result->Ok_0.updates@ == previous.updates@ + of_height(
            updates@,
            height,
        ),
        height < from ==> result->Ok_0.updates@ == previous.updates@,
        of_height(updates@, height).len() > 0 ==> result->Ok_0.watermark == of_height(
            updates@,
            height,
        ).last().message.sequence,
        of_height(updates@, height).len() == 0 ==> result->Ok_0.watermark == previous.watermark,
        (forall|i: int|
            0 <= i < updates@.len() ==> at_height((#[trigger] updates@[i]).message, height))
            ==> of_height(updates@, height) == updates@,
{
    law_eviction_is_minimal(limits, before@, now);
    lemma_room(limits, publishing@, updates@, height, from, now, now);
    if forall|i: int|
        0 <= i < updates@.len() ==> at_height((#[trigger] updates@[i]).message, height) {
        lemma_whole_batch(updates@, height);
    }
    law_eviction_is_minimal(limits, after@, now);
    assert(previous.updates@ + Seq::<Published>::empty() =~= previous.updates@);
}

/// The newest batch stays as long as it fits by itself, whatever has to leave for it: a replay from
/// its height ends with its updates. A batch that exceeds a bound by itself is not replayed.
pub proof fn law_newest_batch_stays(
    publishing: &mut ReplayBuffer,
    after: &mut ReplayBuffer,
    limits: ReplayLimits,
    updates: &[Published],
    height: u32,
    now: u128,
    result: Result<ReplaySnapshot, Status>,
)
    requires
        publishing.well_formed(),
        call_ensures(ReplayBuffer::limits, (&*publishing,), limits),
        limits.height_capacity > 0,
        is_event_at(updates@, height),
        of_height(updates@, height).len() > 0,
        call_ensures(ReplayBuffer::push_batch_at, (publishing, updates, now), ()),
        *after == *final(publishing),
        call_ensures(ReplayBuffer::snapshot_at, (after, Some(height), now), result),
    ensures
        result is Ok <==> of_height(updates@, height).len() <= limits.event_capacity
            && total_length(of_height(updates@, height)) <= limits.byte_capacity,
        match result {
            Ok(snapshot) => {
                let kept = of_height(updates@, height);
                &&& kept.is_suffix_of(snapshot.updates@)
                &&& snapshot.watermark == kept.last().message.sequence
            },
            Err(status) => status.code == Code::OutOfRange,
        },
{
    let kept = of_height(updates@, height);
    let buckets = entered(publishing@, updates@, now);
    let stay = surviving(limits, buckets, now);
    lemma_batch(updates@, height);
    lemma_lengths(kept);
    law_eviction_is_minimal(limits, buckets, now);
    let evicted = choose|evicted: int|
        {
            &&& 0 <= evicted <= buckets.len()
            &&& stay == #[trigger] buckets.skip(evicted)
            &&& forall|fewer: int|
                0 <= fewer < evicted ==> eviction_reason(
                    limits,
                    #[trigger] buckets.skip(fewer),
                    now,
                ) is Some
        };
    let bucket = BucketView { height, inserted_at: now, updates: kept };
    assert(buckets.last() == bucket);
    assert(surviving(limits, stay, now) == stay);
    if evicted < buckets.len() {
        assert(stay.last() == bucket);
        assert(kept.len() <= event_total(stay));
        assert(encoded_bytes(kept) <= byte_total(stay));
        law_first_available_height_is_lowest(stay);
        assert(stay[stay.len() - 1].height == height);
        let shown = replayed(stay, height);
        assert(shown == replayed(stay.drop_last(), height) + kept);
        assert(shown.skip(shown.len() - kept.len()) =~= kept);
    } else {
        let last = buckets.skip(buckets.len() - 1);
        assert(last =~= seq![bucket]);
        assert(eviction_reason(limits, last, now) is Some);
        assert(last.drop_last() =~= Seq::empty());
        assert(event_total(last) == kept.len()) by {
            assert(event_total(last.drop_last()) == 0);
        }
        assert(byte_total(last) == encoded_bytes(kept)) by {
            assert(byte_total(last.drop_last()) == 0);
        }
        lemma_one_height(bucket);
        assert(stay =~= Seq::empty());
        assert(buckets.take(buckets.len() as int) =~= buckets);
        law_latest_height_is_highest(buckets);
        assert(buckets[buckets.len() - 1].height == height);
        assert(stay.take(0) =~= Seq::empty());
    }
}

proof fn lemma_one_height(bucket: BucketView)
    ensures
        distinct_heights(seq![bucket]) == 1,
{
    assert(heights(seq![bucket]) =~= seq![bucket.height]);
    assert(seq![bucket.height].to_set() =~= set![bucket.height]) by {
        assert(seq![bucket.height][0] == bucket.height);
    }
}

/// A replay from the end of the buckets is the end of the replay.
proof fn lemma_replayed_end(buckets: Seq<BucketView>, evicted: int, from: u32)
    requires
        0 <= evicted <= buckets.len(),
    ensures
        exists|gone: int|
            0 <= gone <= replayed(buckets, from).len() && replayed(buckets.skip(evicted), from)
                == #[trigger] replayed(buckets, from).skip(gone),
    decreases buckets.len(),
{
    let all = replayed(buckets, from);
    let end = buckets.skip(evicted);
    if evicted == buckets.len() {
        assert(end =~= Seq::empty());
        assert(replayed(end, from) =~= all.skip(all.len() as int));
    } else {
        let rest = buckets.drop_last();
        lemma_replayed_end(rest, evicted, from);
        let shown = replayed(rest, from);
        let gone = choose|gone: int|
            0 <= gone <= shown.len() && replayed(rest.skip(evicted), from) == #[trigger] shown.skip(
                gone,
            );
        assert(end.drop_last() =~= rest.skip(evicted));
        assert(end.last() == buckets.last());
        assert(replayed(end, from) =~= all.skip(gone));
    }
}

/// Publishing only ever takes away from the front of a replay: what is replayed afterwards is the
/// end of what was replayed before and of the new batch.
pub proof fn law_oldest_updates_leave_first(
    before: &mut ReplayBuffer,
    publishing: &mut ReplayBuffer,
    after: &mut ReplayBuffer,
    updates: &[Published],
    height: u32,
    from: u32,
    now: u128,
    later: u128,
    previous: ReplaySnapshot,
    next: ReplaySnapshot,
)
    requires
        before.well_formed(),
        call_ensures(ReplayBuffer::snapshot_at, (before, Some(from), now), Ok(previous)),
        *publishing == *final(before),
        is_event_at(updates@, height),
        call_ensures(ReplayBuffer::push_batch_at, (publishing, updates, now), ()),
        *after == *final(publishing),
        call_ensures(ReplayBuffer::snapshot_at, (after, Some(from), later), Ok(next)),
    ensures
        next.updates@.is_suffix_of(
            previous.updates@ + (if height >= from {
                of_height(updates@, height)
            } else {
                Seq::empty()
            }),
        ),
{
    let limits = publishing.spec_limits();
    let kept = of_height(updates@, height);
    let all = previous.updates@ + (if height >= from {
        kept
    } else {
        Seq::empty()
    });
    let buckets = entered(publishing@, updates@, now);
    lemma_batch(updates@, height);
    if limits.height_capacity == 0 {
        publishing.law_bounds_are_kept();
        lemma_no_heights(publishing@);
        law_eviction_is_minimal(limits, after@, later);
        assert(next.updates@ =~= Seq::empty());
    } else {
        if kept.len() > 0 {
            assert(buckets.drop_last() =~= publishing@);
        }
        assert(replayed(buckets, from) =~= all);
        law_eviction_is_minimal(limits, buckets, now);
        let evicted = choose|evicted: int|
            0 <= evicted <= buckets.len() && surviving(limits, buckets, now)
                == #[trigger] buckets.skip(evicted);
        let stay = buckets.skip(evicted);
        law_eviction_is_minimal(limits, stay, later);
        let aged = choose|aged: int|
            0 <= aged <= stay.len() && surviving(limits, stay, later) == #[trigger] stay.skip(aged);
        assert(stay.skip(aged) =~= buckets.skip(evicted + aged));
        lemma_replayed_end(buckets, evicted + aged, from);
    }
}

proof fn lemma_no_heights(buckets: Seq<BucketView>)
    requires
        distinct_heights(buckets) == 0,
    ensures
        buckets.len() == 0,
{
    if buckets.len() > 0 {
        assert(heights(buckets)[0] == buckets[0].height);
        assert(heights(buckets).to_set().contains(buckets[0].height));
    }
}

proof fn lemma_filter_bucket(updates: Seq<Published>, height: u32, from: u32)
    requires
        forall|i: int|
            0 <= i < updates.len() ==> published_height(#[trigger] updates[i]) == Some(height),
    ensures
        updates.filter(|update: Published| from_height_on(update, from)) == (if height >= from {
            updates
        } else {
            Seq::empty()
        }),
    decreases updates.len(),
{
    reveal(Seq::filter);
    if updates.len() > 0 {
        lemma_filter_bucket(updates.drop_last(), height, from);
        assert(at_height(updates.last().message, height));
        assert(updates.drop_last().push(updates.last()) =~= updates);
    }
}

proof fn lemma_replayed_filter(buckets: Seq<BucketView>, from: u32, higher: u32)
    requires
        scoped(buckets),
        from <= higher,
    ensures
        replayed(buckets, higher) == replayed(buckets, from).filter(
            |update: Published| from_height_on(update, higher),
        ),
    decreases buckets.len(),
{
    let wanted = |update: Published| from_height_on(update, higher);
    reveal(Seq::filter);
    if buckets.len() > 0 {
        let rest = buckets.drop_last();
        let last = buckets.last();
        assert(scoped(rest)) by {
            assert forall|i: int, k: int|
                #![trigger rest[i].updates[k]]
                0 <= i < rest.len() && 0 <= k < rest[i].updates.len() implies published_height(
                rest[i].updates[k],
            ) == Some(rest[i].height) by {
                assert(buckets[i].updates[k] == rest[i].updates[k]);
            }
        }
        lemma_replayed_filter(rest, from, higher);
        assert forall|k: int| 0 <= k < last.updates.len() implies published_height(
            #[trigger] last.updates[k],
        ) == Some(last.height) by {
            assert(buckets[buckets.len() - 1].updates[k] == last.updates[k]);
        }
        lemma_filter_bucket(last.updates, last.height, higher);
        Seq::filter_distributes_over_add(replayed(rest, from), last.updates, wanted);
        assert(replayed(rest, higher) + Seq::<Published>::empty() =~= replayed(rest, higher));
    }
}

/// A replay from a higher height leaves out exactly the updates below that height. Without a height
/// nothing is replayed, and live delivery goes on from the same point.
pub proof fn law_replay_starts_at_the_requested_height(
    one: &mut ReplayBuffer,
    other: &mut ReplayBuffer,
    live: &mut ReplayBuffer,
    from: u32,
    higher: u32,
    now: u128,
    lower_part: ReplaySnapshot,
    upper_part: Result<ReplaySnapshot, Status>,
    nothing: Result<ReplaySnapshot, Status>,
)
    requires
        one.well_formed(),
        *other == *one,
        *live == *one,
        from <= higher,
        call_ensures(ReplayBuffer::snapshot_at, (one, Some(from), now), Ok(lower_part)),
        call_ensures(ReplayBuffer::snapshot_at, (other, Some(higher), now), upper_part),
        call_ensures(ReplayBuffer::snapshot_at, (live, None, now), nothing),
    ensures
        upper_part is Ok,
        upper_part->Ok_0.updates@ == lower_part.updates@.filter(
            |update: Published| from_height_on(update, higher),
        ),
        upper_part->Ok_0.watermark == lower_part.watermark,
        nothing is Ok,
        nothing->Ok_0.updates@.len() == 0,
        nothing->Ok_0.watermark == lower_part.watermark,
        forall|i: int|
            0 <= i < lower_part.updates@.len() ==> from_height_on(
                #[trigger] lower_part.updates@[i],
                from,
            ),
{
    final(one).law_buckets_are_scoped();
    lemma_replayed_filter(final(one)@, from, higher);
    lemma_replayed_filter(final(one)@, from, from);
    let shown = lower_part.updates@;
    let wanted = |update: Published| from_height_on(update, from);
    assert forall|i: int| 0 <= i < shown.len() implies from_height_on(#[trigger] shown[i], from) by {
        shown.lemma_filter_pred(wanted, i);
        assert(wanted(shown[i]));
    }
}

/// A batch is replayed as long as it is not older than the allowed age, and not any longer. It is
/// then counted as evicted for its age, with its updates and their bytes, and its height is
/// refused.
pub proof fn law_batches_outlive_their_age(
    limits: ReplayLimits,
    publishing: &mut ReplayBuffer,
    after: &mut ReplayBuffer,
    updates: &[Published],
    height: u32,
    now: u128,
    later: u128,
    result: Result<ReplaySnapshot, Status>,
    evictions: Evictions,
)
    requires
        call_ensures(ReplayBuffer::new, (limits,), *publishing),
        limits.height_capacity > 0,
        is_event_at(updates@, height),
        of_height(updates@, height).len() > 0,
        of_height(updates@, height).len() <= limits.event_capacity,
        total_length(of_height(updates@, height)) <= limits.byte_capacity,
        call_ensures(ReplayBuffer::push_batch_at, (publishing, updates, now), ()),
        *after == *final(publishing),
        call_ensures(ReplayBuffer::snapshot_at, (after, Some(height), later), result),
        call_ensures(ReplayBuffer::evictions, (&*final(after),), evictions),
    ensures
        result is Err <==> limits.max_age is Some && later > now + limits.max_age->0,
        match result {
            Ok(snapshot) => {
                &&& snapshot.updates@ == of_height(updates@, height)
                &&& evictions.age == (Tally { buckets: 0, events: 0, bytes: 0 })
            },
            Err(status) => {
                &&& status.code == Code::OutOfRange
                &&& evictions.age.buckets == 1
                &&& evictions.age.events == of_height(updates@, height).len()
                &&& evictions.age.bytes == total_length(of_height(updates@, height))
            },
        },
        evictions.height.buckets == 0,
        evictions.event_count.buckets == 0,
        evictions.encoded_bytes.buckets == 0,
{
    let kept = of_height(updates@, height);
    let bucket = BucketView { height, inserted_at: now, updates: kept };
    let empty = Seq::<BucketView>::empty();
    lemma_batch(updates@, height);
    lemma_lengths(kept);
    lemma_one_height(bucket);
    let buckets = entered(empty, updates@, now);
    assert(buckets =~= seq![bucket]);
    assert(buckets.drop_last() =~= empty);
    assert(buckets.drop_first() =~= empty);
    assert(event_total(empty) == 0 && byte_total(empty) == 0);
    assert(event_total(buckets) == kept.len());
    assert(byte_total(buckets) == encoded_bytes(kept));
    assert(heights(empty) =~= Seq::empty());
    assert(Seq::<u32>::empty().to_set() =~= Set::empty());
    assert(distinct_heights(empty) == 0);
    assert(surviving(limits, buckets, now) == buckets);
    assert(after@ == buckets);
    assert(buckets.take(0) =~= empty);
    assert(empty.take(0) =~= empty);
    assert(evictions_after(no_evictions(), limits, buckets, now) == no_evictions());
    if limits.max_age is Some && later > now + limits.max_age->0 {
        assert(expired(buckets[0], limits, later));
        assert(surviving(limits, empty, later) == empty);
        assert(surviving(limits, buckets, later) == empty);
        assert(buckets.take(1) =~= buckets);
        assert(highest_height(buckets) == Some(height)) by {
            assert(highest_height(buckets.drop_last()) is None);
        }
        assert(eviction_reason(limits, empty, later) is None);
        assert(lowest_height(empty) is None);
        let counted = with_eviction(no_evictions(), EvictionReason::Age, bucket);
        assert(evictions_after(counted, limits, empty, later) == counted);
        assert(evictions == counted);
    } else {
        assert(surviving(limits, buckets, later) == buckets);
        assert(eviction_reason(limits, buckets, later) is None);
        assert(evictions == no_evictions());
        assert(lowest_height(buckets) == Some(height)) by {
            assert(lowest_height(buckets.drop_last()) is None);
        }
        assert(replayed(buckets, height) =~= kept) by {
            assert(replayed(buckets.drop_last(), height) =~= Seq::empty());
        }
    }
}

proof fn lemma_replayed_whole(buckets: Seq<BucketView>, from: u32)
    requires
        forall|i: int| 0 <= i < buckets.len() ==> (#[trigger] buckets[i]).height >= from,
    ensures
        replayed(buckets, from).len() == event_total(buckets),
        encoded_bytes(replayed(buckets, from)) == byte_total(buckets),
    decreases buckets.len(),
{
    if buckets.len() > 0 {
        let rest = buckets.drop_last();
        lemma_replayed_whole(rest, from);
        assert(buckets[buckets.len() - 1].height >= from);
        lemma_lengths_join(replayed(rest, from), buckets.last().updates);
    }
}

pub(crate) proof fn lemma_replayed_heights(buckets: Seq<BucketView>, from: u32)
    requires
        forall|i: int| 0 <= i < buckets.len() ==> (#[trigger] buckets[i]).height >= from,
        scoped(buckets),
        filled(buckets),
    ensures
        heights_of(replayed(buckets, from)) == heights(buckets).to_set(),
    decreases buckets.len(),
{
    let shown = replayed(buckets, from);
    if buckets.len() > 0 {
        let rest = buckets.drop_last();
        let last = buckets.last();
        let before = replayed(rest, from);
        assert forall|i: int, k: int|
            #![trigger rest[i].updates[k]]
            0 <= i < rest.len() && 0 <= k < rest[i].updates.len() implies published_height(
            rest[i].updates[k],
        ) == Some(rest[i].height) by {
            assert(buckets[i].updates[k] == rest[i].updates[k]);
        }
        assert forall|i: int| 0 <= i < rest.len() implies (#[trigger] rest[i]).updates.len() > 0 by {
            assert(buckets[i].updates.len() > 0);
        }
        lemma_replayed_heights(rest, from);
        assert(buckets[buckets.len() - 1].height >= from);
        assert(buckets[buckets.len() - 1].updates.len() > 0);
        assert(shown == before + last.updates);
        assert(heights(buckets) =~= heights(rest).push(last.height));
        assert forall|height: u32| heights_of(shown).contains(height) <==> heights(
            buckets,
        ).to_set().contains(height) by {
            if heights_of(shown).contains(height) {
                let i = choose|i: int|
                    0 <= i < shown.len() && at_height(shown[i].message, height);
                if i < before.len() {
                    assert(at_height(before[i].message, height));
                    assert(heights_of(before).contains(height));
                    let k = heights(rest).index_of(height);
                    assert(heights(buckets)[k] == height);
                } else {
                    let k = i - before.len();
                    assert(published_height(buckets[buckets.len() - 1].updates[k]) == Some(
                        last.height,
                    ));
                    assert(heights(buckets)[heights(rest).len() as int] == height);
                }
            }
            if heights(buckets).to_set().contains(height) {
                let k = heights(buckets).index_of(height);
                if k < rest.len() {
                    assert(heights(rest)[k] == height);
                    assert(heights_of(before).contains(height));
                    let i = choose|i: int|
                        0 <= i < before.len() && at_height(before[i].message, height);
                    assert(at_height(shown[i].message, height));
                } else {
                    assert(published_height(buckets[buckets.len() - 1].updates[0]) == Some(
                        last.height,
                    ));
                    assert(shown[before.len() as int] == last.updates[0]);
                    assert(at_height(shown[before.len() as int].message, height));
                }
            }
        }
        assert(heights_of(shown) =~= heights(buckets).to_set());
    } else {
        assert(heights(buckets) =~= Seq::empty());
        assert(heights_of(shown) =~= heights(buckets).to_set());
    }
}

/// What the window reports of itself is what a replay from its first height hands out: that many
/// updates, of that many encoded bytes and heights, from that first height to that latest one.
/// Their numbers keep the bounds. A window that reports no first height is empty.
pub proof fn law_window_reports_what_it_replays(
    before: &mut ReplayBuffer,
    limits: ReplayLimits,
    counts: (usize, usize, usize),
    lowest: Option<u32>,
    latest: Option<u32>,
    now: u128,
    from: u32,
    result: Result<ReplaySnapshot, Status>,
)
    requires
        before.well_formed(),
        call_ensures(ReplayBuffer::snapshot_at, (before, Some(from), now), result),
        call_ensures(ReplayBuffer::limits, (&*final(before),), limits),
        call_ensures(ReplayBuffer::height_count, (&*final(before),), counts.0),
        call_ensures(ReplayBuffer::event_count, (&*final(before),), counts.1),
        call_ensures(ReplayBuffer::encoded_bytes, (&*final(before),), counts.2),
        call_ensures(ReplayBuffer::first_available_height, (&*final(before),), lowest),
        call_ensures(ReplayBuffer::latest_height, (&*final(before),), latest),
    ensures
        counts.0 <= limits.height_capacity,
        counts.1 <= limits.event_capacity,
        counts.2 <= limits.byte_capacity,
        lowest is Some <==> counts.1 > 0,
        lowest is Some <==> latest is Some,
        lowest is Some ==> (result is Ok <==> from >= lowest->0),
        lowest is None && result is Ok ==> result->Ok_0.updates@.len() == 0,
        lowest == Some(from) ==> {
            let updates = result->Ok_0.updates@;
            &&& result is Ok
            &&& updates.len() == counts.1
            &&& total_length(updates) == counts.2
            &&& heights_of(updates).len() == counts.0
            &&& heights_of(updates).contains(from)
            &&& heights_of(updates).contains(latest->0)
            &&& forall|height: u32| #[trigger]
                heights_of(updates).contains(height) ==> from <= height <= latest->0
            &&& result->Ok_0.watermark == updates.last().message.sequence
        },
{
    let buckets = final(before)@;
    final(before).law_bounds_are_kept();
    final(before).law_buckets_are_scoped();
    law_first_available_height_is_lowest(buckets);
    law_latest_height_is_highest(buckets);
    if buckets.len() > 0 {
        assert(buckets[buckets.len() - 1].updates.len() > 0);
        assert(event_total(buckets) > 0);
    } else {
        assert(event_total(buckets) == 0);
    }
    if lowest == Some(from) {
        lemma_replayed_whole(buckets, from);
        lemma_replayed_heights(buckets, from);
        lemma_lengths(replayed(buckets, from));
        assert forall|height: u32| #[trigger]
            heights_of(replayed(buckets, from)).contains(height) implies from <= height
            <= latest->0 by {
            let k = heights(buckets).index_of(height);
            assert(buckets[k].height == height);
        }
        assert(buckets[buckets.len() - 1].height >= from);
        let rest = replayed(buckets.drop_last(), from);
        assert((rest + buckets.last().updates).last() == buckets.last().updates.last());
    }
}

/// A window for no heights replays nothing of what is published.
pub proof fn law_no_heights_no_replay(
    limits: ReplayLimits,
    publishing: &mut ReplayBuffer,
    after: &mut ReplayBuffer,
    updates: &[Published],
    from: Option<u32>,
    now: u128,
    later: u128,
    result: Result<ReplaySnapshot, Status>,
)
    requires
        call_ensures(ReplayBuffer::new, (limits,), *publishing),
        limits.height_capacity == 0,
        call_ensures(ReplayBuffer::push_batch_at, (publishing, updates, now), ()),
        *after == *final(publishing),
        call_ensures(ReplayBuffer::snapshot_at, (after, from, later), result),
    ensures
        result is Ok,
        result->Ok_0.updates@.len() == 0,
        result->Ok_0.watermark == 0,
{
    let empty = Seq::<BucketView>::empty();
    assert(surviving(limits, empty, later) == empty);
    assert(empty.take(0) =~= empty);
    assert(highest_height(empty) is None && lowest_height(empty) is None);
}

/// With no bound on the age, what is published into a window that has room for it is replayed
/// whenever the clock is read.
pub proof fn law_published_batch_is_replayed_later(
    before: &mut ReplayBuffer,
    publishing: &mut ReplayBuffer,
    after: &mut ReplayBuffer,
    limits: ReplayLimits,
    counts: (usize, usize, usize),
    lowest: Option<u32>,
    updates: &[Published],
    height: u32,
    from: u32,
    previous: ReplaySnapshot,
    result: Result<ReplaySnapshot, Status>,
)
    requires
        before.well_formed(),
        call_ensures(ReplayBuffer::snapshot, (before, Some(from)), Ok(previous)),
        *publishing == *final(before),
        call_ensures(ReplayBuffer::limits, (&*publishing,), limits),
        limits.max_age is None,
        call_ensures(ReplayBuffer::height_count, (&*publishing,), counts.0),
        call_ensures(ReplayBuffer::event_count, (&*publishing,), counts.1),
        call_ensures(ReplayBuffer::encoded_bytes, (&*publishing,), counts.2),
        call_ensures(ReplayBuffer::first_available_height, (&*publishing,), lowest),
        is_event_at(updates@, height),
        has_room(limits, counts.0, counts.1, counts.2, of_height(updates@, height)),
        call_ensures(ReplayBuffer::push_batch, (publishing, updates), ()),
        *after == *final(publishing),
        call_ensures(ReplayBuffer::snapshot, (after, Some(from)), result),
        lowest is Some || height <= from || of_height(updates@, height).len() == 0,
    ensures
        result is Ok,
        height >= from ==> result->Ok_0.updates@ == previous.updates@ + of_height(
            updates@,
            height,
        ),
        height < from ==> result->Ok_0.updates@ == previous.updates@,
{
    let now = final(publishing).spec_time();
    let later = final(after).spec_time();
    lemma_room(limits, publishing@, updates@, height, from, now, later);
    law_eviction_is_minimal(limits, before@, final(before).spec_time());
    assert(previous.updates@ + Seq::<Published>::empty() =~= previous.updates@);
    let empty = Seq::<BucketView>::empty();
    assert(after@.take(0) =~= empty);
    assert(highest_height(empty) is None);
}

/// Whether something was counted as evicted once, and how much of it.
pub open spec fn counts_once(tally: Tally, updates: Seq<Published>) -> bool {
    &&& tally.buckets == 1
    &&& tally.events == updates.len()
    &&& tally.bytes == total_length(updates)
}

/// A batch that exceeds one bound by itself is counted as evicted for that bound, with its updates
/// and their bytes, and for no other one.
pub proof fn law_evictions_are_counted_by_reason(
    limits: ReplayLimits,
    publishing: &mut ReplayBuffer,
    updates: &[Published],
    height: u32,
    now: u128,
    evictions: Evictions,
)
    requires
        call_ensures(ReplayBuffer::new, (limits,), *publishing),
        limits.height_capacity > 0,
        is_event_at(updates@, height),
        of_height(updates@, height).len() > 0,
        of_height(updates@, height).len() <= u64::MAX,
        total_length(of_height(updates@, height)) <= u64::MAX,
        call_ensures(ReplayBuffer::push_batch_at, (publishing, updates, now), ()),
        call_ensures(ReplayBuffer::evictions, (&*final(publishing),), evictions),
    ensures
        evictions.age.buckets == 0,
        evictions.height.buckets == 0,
        of_height(updates@, height).len() > limits.event_capacity ==> counts_once(
            evictions.event_count,
            of_height(updates@, height),
        ) && evictions.encoded_bytes.buckets == 0,
        of_height(updates@, height).len() <= limits.event_capacity && total_length(
            of_height(updates@, height),
        ) > limits.byte_capacity ==> counts_once(
            evictions.encoded_bytes,
            of_height(updates@, height),
        ) && evictions.event_count.buckets == 0,
        of_height(updates@, height).len() <= limits.event_capacity && total_length(
            of_height(updates@, height),
        ) <= limits.byte_capacity ==> evictions.event_count.buckets == 0
            && evictions.encoded_bytes.buckets == 0,
{
    let kept = of_height(updates@, height);
    let bucket = BucketView { height, inserted_at: now, updates: kept };
    let empty = Seq::<BucketView>::empty();
    lemma_batch(updates@, height);
    lemma_lengths(kept);
    lemma_one_height(bucket);
    let buckets = entered(empty, updates@, now);
    assert(buckets =~= seq![bucket]);
    assert(buckets.drop_last() =~= empty);
    assert(buckets.drop_first() =~= empty);
    assert(event_total(empty) == 0 && byte_total(empty) == 0);
    assert(event_total(buckets) == kept.len());
    assert(byte_total(buckets) == encoded_bytes(kept));
    assert(heights(empty) =~= Seq::empty());
    assert(Seq::<u32>::empty().to_set() =~= Set::empty());
    assert(distinct_heights(empty) == 0);
    assert(eviction_reason(limits, empty, now) is None);
    match eviction_reason(limits, buckets, now) {
        Some(reason) => {
            let counted = with_eviction(no_evictions(), reason, bucket);
            assert(evictions_after(counted, limits, empty, now) == counted);
            assert(evictions == counted);
        },
        None => {
            assert(evictions == no_evictions());
        },
    }
}

/// When a second height comes into a window for one height, the first one leaves and is counted as
/// evicted for the number of heights. A replay from the first height is then refused, and one from
/// the second has its updates alone.
pub proof fn law_heights_make_room(
    limits: ReplayLimits,
    first: &mut ReplayBuffer,
    second: &mut ReplayBuffer,
    one: &[Published],
    other: &[Published],
    lower: u32,
    higher: u32,
    now: u128,
    evictions: Evictions,
    asking: &mut ReplayBuffer,
    again: &mut ReplayBuffer,
    refused: Result<ReplaySnapshot, Status>,
    replayed_result: Result<ReplaySnapshot, Status>,
)
    requires
        call_ensures(ReplayBuffer::new, (limits,), *first),
        limits.height_capacity == 1,
        lower < higher,
        is_event_at(one@, lower),
        is_event_at(other@, higher),
        of_height(one@, lower).len() > 0,
        of_height(other@, higher).len() > 0,
        of_height(one@, lower).len() + of_height(other@, higher).len() <= limits.event_capacity,
        total_length(of_height(one@, lower)) + total_length(of_height(other@, higher))
            <= limits.byte_capacity,
        call_ensures(ReplayBuffer::push_batch_at, (first, one, now), ()),
        *second == *final(first),
        call_ensures(ReplayBuffer::push_batch_at, (second, other, now), ()),
        call_ensures(ReplayBuffer::evictions, (&*final(second),), evictions),
        *asking == *final(second),
        *again == *final(second),
        call_ensures(ReplayBuffer::snapshot_at, (asking, Some(lower), now), refused),
        call_ensures(ReplayBuffer::snapshot_at, (again, Some(higher), now), replayed_result),
    ensures
        counts_once(evictions.height, of_height(one@, lower)),
        evictions.age.buckets == 0,
        evictions.event_count.buckets == 0,
        evictions.encoded_bytes.buckets == 0,
        refused is Err && refused->Err_0.code == Code::OutOfRange,
        replayed_result is Ok && replayed_result->Ok_0.updates@ == of_height(other@, higher),
{
    let low = BucketView { height: lower, inserted_at: now, updates: of_height(one@, lower) };
    let high = BucketView { height: higher, inserted_at: now, updates: of_height(other@, higher) };
    let empty = Seq::<BucketView>::empty();
    let single = entered(empty, one@, now);
    lemma_batch(one@, lower);
    lemma_batch(other@, higher);
    lemma_lengths(low.updates);
    lemma_lengths(high.updates);
    lemma_one_height(low);
    lemma_one_height(high);
    assert(single =~= seq![low]);
    assert(single.drop_last() =~= empty);
    assert(event_total(empty) == 0 && byte_total(empty) == 0);
    assert(event_total(single) == low.updates.len());
    assert(byte_total(single) == encoded_bytes(low.updates));
    assert(eviction_reason(limits, single, now) is None);
    assert(second@ == single);
    assert(second.spec_evictions() == no_evictions());
    let both = entered(single, other@, now);
    assert(both =~= seq![low, high]);
    assert(both.drop_last() =~= single);
    assert(both.drop_first() =~= seq![high]);
    assert(heights(both) =~= seq![lower, higher]);
    assert(seq![lower, higher].to_set() =~= set![lower, higher]) by {
        assert(seq![lower, higher][0] == lower && seq![lower, higher][1] == higher);
    }
    assert(distinct_heights(both) == 2);
    assert(eviction_reason(limits, both, now) == Some(EvictionReason::Height));
    let rest = seq![high];
    assert(rest.drop_last() =~= empty);
    assert(event_total(rest) == high.updates.len());
    assert(byte_total(rest) == encoded_bytes(high.updates));
    assert(eviction_reason(limits, rest, now) is None);
    assert(surviving(limits, rest, now) == rest);
    assert(both.drop_first() == rest);
    assert(surviving(limits, both, now) == rest);
    let counted = with_eviction(no_evictions(), EvictionReason::Height, low);
    assert(evictions_after(counted, limits, rest, now) == counted);
    assert(evictions == counted);
    assert(lowest_height(rest) == Some(higher)) by {
        assert(lowest_height(rest.drop_last()) is None);
    }
    assert(replayed(rest, higher) =~= high.updates) by {
        assert(replayed(rest.drop_last(), higher) =~= Seq::empty());
    }
}

/// Asking for a replay evicts by itself: it makes no difference whether the window was cleared of
/// what is too old or too much just before.
pub proof fn law_eviction_before_asking_makes_no_difference(
    clearing: &mut ReplayBuffer,
    cleared: &mut ReplayBuffer,
    asking: &mut ReplayBuffer,
    from: Option<u32>,
    now: u128,
    one: Result<ReplaySnapshot, Status>,
    other: Result<ReplaySnapshot, Status>,
)
    requires
        clearing.well_formed(),
        *asking == *clearing,
        call_ensures(ReplayBuffer::evict, (clearing, now), ()),
        *cleared == *final(clearing),
        call_ensures(ReplayBuffer::snapshot_at, (cleared, from, now), one),
        call_ensures(ReplayBuffer::snapshot_at, (asking, from, now), other),
    ensures
        match (one, other) {
            (Ok(one), Ok(other)) => one.updates@ == other.updates@ && one.watermark
                == other.watermark,
            (Err(one), Err(other)) => one.code == other.code && one.message@ == other.message@,
            _ => false,
        },
{
    let limits = clearing.spec_limits();
    law_eviction_is_minimal(limits, clearing@, now);
    assert(surviving(limits, cleared@, now) == cleared@);
    let empty = Seq::<BucketView>::empty();
    assert(cleared@.take(0) =~= empty);
    assert(highest_height(empty) is None);
}

} // verus!
