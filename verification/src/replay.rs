//! The bounded window of recent updates from which subscribers catch up.
//!
//! The window keeps one bucket for each node event, oldest first. It is bounded by the number of
//! distinct heights, the number of updates, their encoded bytes, and the age of the buckets.
//! Whole buckets leave the window, from the front.

use crate::clock::Clock;
use crate::event::{block_height, spec_block_height};
use crate::proto::SubscribeUpdate;
use crate::status::{Code, Status};
use crate::text::{decimal, decimal_text, join3};
use crate::wire::capped;
use std::collections::{HashMap, VecDeque};
use std::sync::Arc;
use vstd::prelude::*;

verus! {

/// An update with its encoded length.
#[derive(Debug)]
pub struct PublishedUpdate {
    pub message: SubscribeUpdate,
    pub encoded_len: usize,
}

impl PublishedUpdate {
    /// Measures an update.
    pub fn new(message: SubscribeUpdate) -> (published: Self)
        ensures
            published.message == message,
            published.encoded_len == capped(message.spec_encoded_len()),
    {
        let encoded_len: usize = message.encoded_len();
        PublishedUpdate { message, encoded_len }
    }
}

/// The bounds of the window.
#[derive(Clone, Copy, Debug, PartialEq, Eq, Structural)]
pub struct ReplayLimits {
    /// The number of distinct heights; zero disables the window.
    pub height_capacity: usize,
    /// The number of updates.
    pub event_capacity: usize,
    /// The encoded bytes of all updates.
    pub byte_capacity: usize,
    /// The age of a bucket, in nanoseconds.
    pub max_age: Option<u128>,
}

/// Updates, as the window shares them.
pub type Published = Arc<PublishedUpdate>;

/// The block-scoped updates of one node event.
pub struct BucketView {
    pub height: u32,
    /// When the bucket entered the window, in nanoseconds of the window's clock.
    pub inserted_at: u128,
    pub updates: Seq<Published>,
}

/// The block height that a published update belongs to, if it belongs to one.
pub open spec fn published_height(update: Published) -> Option<u32> {
    spec_block_height(update.message)
}

/// The encoded bytes of updates.
pub open spec fn encoded_bytes(updates: Seq<Published>) -> nat
    decreases updates.len(),
{
    if updates.len() == 0 {
        0
    } else {
        encoded_bytes(updates.drop_last()) + updates.last().encoded_len as nat
    }
}

/// The number of updates in buckets.
pub open spec fn event_total(buckets: Seq<BucketView>) -> nat
    decreases buckets.len(),
{
    if buckets.len() == 0 {
        0
    } else {
        event_total(buckets.drop_last()) + buckets.last().updates.len()
    }
}

/// The encoded bytes of the updates in buckets.
pub open spec fn byte_total(buckets: Seq<BucketView>) -> nat
    decreases buckets.len(),
{
    if buckets.len() == 0 {
        0
    } else {
        byte_total(buckets.drop_last()) + encoded_bytes(buckets.last().updates)
    }
}

/// The heights of buckets.
pub open spec fn heights(buckets: Seq<BucketView>) -> Seq<u32> {
    buckets.map_values(|bucket: BucketView| bucket.height)
}

/// The number of distinct heights.
pub open spec fn distinct_heights(buckets: Seq<BucketView>) -> nat {
    heights(buckets).to_set().len()
}

/// Why a bucket leaves the window.
#[derive(Clone, Copy, Debug, PartialEq, Eq, Structural)]
pub enum EvictionReason {
    Age,
    Height,
    EventCount,
    EncodedBytes,
}

/// Whether a bucket has outlived the allowed age.
pub open spec fn expired(bucket: BucketView, limits: ReplayLimits, now: u128) -> bool {
    limits.max_age is Some && now - bucket.inserted_at > limits.max_age->0
}

/// Which bound the window exceeds, if it exceeds one.
pub open spec fn eviction_reason(
    limits: ReplayLimits,
    buckets: Seq<BucketView>,
    now: u128,
) -> Option<EvictionReason> {
    if buckets.len() > 0 && expired(buckets[0], limits, now) {
        Some(EvictionReason::Age)
    } else if distinct_heights(buckets) > limits.height_capacity {
        Some(EvictionReason::Height)
    } else if event_total(buckets) > limits.event_capacity {
        Some(EvictionReason::EventCount)
    } else if byte_total(buckets) > limits.byte_capacity {
        Some(EvictionReason::EncodedBytes)
    } else {
        None
    }
}

/// The buckets that stay: the longest run of the newest ones that exceeds no bound.
pub open spec fn surviving(
    limits: ReplayLimits,
    buckets: Seq<BucketView>,
    now: u128,
) -> Seq<BucketView>
    decreases buckets.len(),
{
    if buckets.len() == 0 || eviction_reason(limits, buckets, now) is None {
        buckets
    } else {
        surviving(limits, buckets.drop_first(), now)
    }
}

/// What left the window for one reason. The counts stop at the largest number.
#[derive(Clone, Copy, Debug, PartialEq, Eq, Structural)]
pub struct Tally {
    pub buckets: u64,
    pub events: u64,
    pub bytes: u64,
}

/// What left the window so far, by reason.
#[derive(Clone, Copy, Debug, PartialEq, Eq, Structural)]
pub struct Evictions {
    pub age: Tally,
    pub height: Tally,
    pub event_count: Tally,
    pub encoded_bytes: Tally,
}

/// The tally of nothing.
pub open spec fn empty_tally() -> Tally {
    Tally { buckets: 0, events: 0, bytes: 0 }
}

/// The evictions of a new window.
pub open spec fn no_evictions() -> Evictions {
    Evictions {
        age: empty_tally(),
        height: empty_tally(),
        event_count: empty_tally(),
        encoded_bytes: empty_tally(),
    }
}

/// A count with more added, up to the largest number.
pub open spec fn counted(count: u64, more: nat) -> u64 {
    if count + more > u64::MAX {
        u64::MAX
    } else {
        (count + more) as u64
    }
}

/// A tally with one more bucket.
pub open spec fn tallied(tally: Tally, bucket: BucketView) -> Tally {
    Tally {
        buckets: counted(tally.buckets, 1),
        events: counted(tally.events, bucket.updates.len()),
        bytes: counted(tally.bytes, encoded_bytes(bucket.updates)),
    }
}

/// The evictions with one more bucket.
pub open spec fn with_eviction(
    evictions: Evictions,
    reason: EvictionReason,
    bucket: BucketView,
) -> Evictions {
    match reason {
        EvictionReason::Age => Evictions { age: tallied(evictions.age, bucket), ..evictions },
        EvictionReason::Height => Evictions {
            height: tallied(evictions.height, bucket),
            ..evictions
        },
        EvictionReason::EventCount => Evictions {
            event_count: tallied(evictions.event_count, bucket),
            ..evictions
        },
        EvictionReason::EncodedBytes => Evictions {
            encoded_bytes: tallied(evictions.encoded_bytes, bucket),
            ..evictions
        },
    }
}

/// The evictions after the buckets that do not stay have left, each for the bound that the window
/// exceeded at that point.
pub open spec fn evictions_after(
    evictions: Evictions,
    limits: ReplayLimits,
    buckets: Seq<BucketView>,
    now: u128,
) -> Evictions
    decreases buckets.len(),
{
    match eviction_reason(limits, buckets, now) {
        Some(reason) if buckets.len() > 0 => evictions_after(
            with_eviction(evictions, reason, buckets[0]),
            limits,
            buckets.drop_first(),
            now,
        ),
        _ => evictions,
    }
}

/// The height of the first block-scoped update of a batch.
pub open spec fn batch_height(updates: Seq<Published>) -> Option<u32>
    decreases updates.len(),
{
    if updates.len() == 0 {
        None
    } else {
        match published_height(updates[0]) {
            Some(height) => Some(height),
            None => batch_height(updates.drop_first()),
        }
    }
}

/// The updates of a batch that belong to a height.
pub open spec fn updates_at(updates: Seq<Published>, height: u32) -> Seq<Published> {
    updates.filter(|update: Published| published_height(update) == Some(height))
}

/// The buckets together with that of a batch, if the batch has one.
pub open spec fn entered(
    buckets: Seq<BucketView>,
    updates: Seq<Published>,
    now: u128,
) -> Seq<BucketView> {
    match batch_height(updates) {
        Some(height) => buckets.push(
            BucketView { height, inserted_at: now, updates: updates_at(updates, height) },
        ),
        None => buckets,
    }
}

/// The window after a batch was published.
pub open spec fn pushed(
    limits: ReplayLimits,
    buckets: Seq<BucketView>,
    updates: Seq<Published>,
    now: u128,
) -> Seq<BucketView> {
    if limits.height_capacity == 0 {
        buckets
    } else {
        surviving(limits, entered(buckets, updates, now), now)
    }
}

/// The evictions after a batch was published.
pub open spec fn evictions_after_push(
    evictions: Evictions,
    limits: ReplayLimits,
    buckets: Seq<BucketView>,
    updates: Seq<Published>,
    now: u128,
) -> Evictions {
    if limits.height_capacity == 0 {
        evictions
    } else {
        evictions_after(evictions, limits, entered(buckets, updates, now), now)
    }
}

/// The higher one of two heights, as far as there are any.
pub open spec fn higher(first: Option<u32>, second: Option<u32>) -> Option<u32> {
    match (first, second) {
        (Some(one), Some(other)) => Some(
            if one >= other {
                one
            } else {
                other
            },
        ),
        (Some(one), None) => Some(one),
        (None, other) => other,
    }
}

/// The buckets that do not stay.
pub open spec fn leaving(
    limits: ReplayLimits,
    buckets: Seq<BucketView>,
    now: u128,
) -> Seq<BucketView> {
    buckets.take(buckets.len() - surviving(limits, buckets, now).len())
}

/// The highest height that ever left the window, after the buckets that do not stay have left.
pub open spec fn evicted_through_after(
    through: Option<u32>,
    limits: ReplayLimits,
    buckets: Seq<BucketView>,
    now: u128,
) -> Option<u32> {
    higher(through, highest_height(leaving(limits, buckets, now)))
}

/// The highest height that ever left the window, after a batch was published.
pub open spec fn evicted_through_after_push(
    through: Option<u32>,
    limits: ReplayLimits,
    buckets: Seq<BucketView>,
    updates: Seq<Published>,
    now: u128,
) -> Option<u32> {
    if limits.height_capacity == 0 {
        through
    } else {
        evicted_through_after(through, limits, entered(buckets, updates, now), now)
    }
}

/// The lowest height of buckets.
pub open spec fn lowest_height(buckets: Seq<BucketView>) -> Option<u32>
    decreases buckets.len(),
{
    if buckets.len() == 0 {
        None
    } else {
        match lowest_height(buckets.drop_last()) {
            Some(height) if height <= buckets.last().height => Some(height),
            _ => Some(buckets.last().height),
        }
    }
}

/// The highest height of buckets.
pub open spec fn highest_height(buckets: Seq<BucketView>) -> Option<u32>
    decreases buckets.len(),
{
    if buckets.len() == 0 {
        None
    } else {
        match highest_height(buckets.drop_last()) {
            Some(height) if height >= buckets.last().height => Some(height),
            _ => Some(buckets.last().height),
        }
    }
}

/// The sequence number of the newest update in the window, or zero.
pub open spec fn watermark(buckets: Seq<BucketView>) -> u64 {
    if buckets.len() > 0 && buckets.last().updates.len() > 0 {
        buckets.last().updates.last().message.sequence
    } else {
        0
    }
}

/// The updates of the buckets from a height on, oldest first.
pub open spec fn replayed(buckets: Seq<BucketView>, height: u32) -> Seq<Published>
    decreases buckets.len(),
{
    if buckets.len() == 0 {
        Seq::empty()
    } else if buckets.last().height >= height {
        replayed(buckets.drop_last(), height) + buckets.last().updates
    } else {
        replayed(buckets.drop_last(), height)
    }
}

/// Whether a height is asked for that the window has lost: one that is lower than any in the
/// window or, when the window is empty, one that is not higher than any that left it.
pub open spec fn evicted_height(
    buckets: Seq<BucketView>,
    through: Option<u32>,
    from_height: Option<u32>,
) -> bool {
    match from_height {
        Some(requested) => match lowest_height(buckets) {
            Some(lowest) => requested < lowest,
            None => through is Some && requested <= through->0,
        },
        None => false,
    }
}

/// What a subscriber is told who asks for a height that the window has lost.
pub open spec fn evicted_message(requested: u32, first_available: Option<u32>) -> Seq<char> {
    let head = "events from height "@ + decimal(requested as nat) + " are not available"@;
    match first_available {
        Some(first_available) => head + "; first available height is "@ + decimal(
            first_available as nat,
        ),
        None => head,
    }
}

/// Refuses a height that the window has lost.
fn refuse_evicted(requested: u32, first_available: Option<u32>) -> (status: Status)
    ensures
        status.code == Code::OutOfRange,
        status.message@ == evicted_message(requested, first_available),
{
    let head = join3(
        "events from height ",
        decimal_text(requested as u64).as_str(),
        " are not available",
    );
    let message = match first_available {
        Some(first_available) => join3(
            head.as_str(),
            "; first available height is ",
            decimal_text(first_available as u64).as_str(),
        ),
        None => head,
    };
    Status::new(Code::OutOfRange, message)
}

/// What a subscriber gets of the window.
#[derive(Debug)]
pub struct ReplaySnapshot {
    /// The updates to deliver first, oldest first.
    pub updates: Vec<Published>,
    /// The sequence number up to which live updates are skipped.
    pub watermark: u64,
}

/// What a subscriber gets of the window, or is told.
pub open spec fn snapshot_outcome(
    result: Result<ReplaySnapshot, Status>,
    buckets: Seq<BucketView>,
    through: Option<u32>,
    from_height: Option<u32>,
) -> bool {
    match result {
        Ok(snapshot) => {
            &&& !evicted_height(buckets, through, from_height)
            &&& snapshot.watermark == watermark(buckets)
            &&& snapshot.updates@ == (match from_height {
                Some(height) => replayed(buckets, height),
                None => Seq::empty(),
            })
        },
        Err(status) => {
            &&& evicted_height(buckets, through, from_height)
            &&& status.code == Code::OutOfRange
            &&& status.message@ == evicted_message(from_height->0, lowest_height(buckets))
        },
    }
}

/// One bucket of the window.
#[derive(Debug)]
struct ReplayBucket {
    height: u32,
    inserted_at: u128,
    updates: Vec<Published>,
    encoded_bytes: u128,
}

impl View for ReplayBucket {
    type V = BucketView;

    closed spec fn view(&self) -> BucketView {
        BucketView {
            height: self.height,
            inserted_at: self.inserted_at,
            updates: self.updates@,
        }
    }
}

impl ReplayBucket {
    spec fn well_formed(self) -> bool {
        self.encoded_bytes == encoded_bytes(self.updates@)
    }
}

/// The window of recent updates.
pub struct ReplayBuffer {
    limits: ReplayLimits,
    clock: Clock,
    buckets: VecDeque<ReplayBucket>,
    height_counts: HashMap<u32, u128>,
    event_count: u128,
    encoded_bytes: u128,
    evictions: Evictions,
    evicted_through: Option<u32>,
}

impl View for ReplayBuffer {
    type V = Seq<BucketView>;

    closed spec fn view(&self) -> Seq<BucketView> {
        self.buckets@.map_values(|bucket: ReplayBucket| bucket@)
    }
}

/// Whether every bucket holds an update.
pub open spec fn filled(buckets: Seq<BucketView>) -> bool {
    forall|i: int| 0 <= i < buckets.len() ==> (#[trigger] buckets[i]).updates.len() > 0
}

/// Whether every bucket holds updates of its own height only.
pub open spec fn scoped(buckets: Seq<BucketView>) -> bool {
    forall|i: int, k: int|
        #![trigger buckets[i].updates[k]]
        0 <= i < buckets.len() && 0 <= k < buckets[i].updates.len() ==> published_height(
            buckets[i].updates[k],
        ) == Some(buckets[i].height)
}

/// Whether counts are the numbers of buckets at each height.
spec fn counts_heights(counts: Map<u32, u128>, heights: Seq<u32>) -> bool {
    &&& counts.dom() =~= heights.to_set()
    &&& forall|height: u32| #[trigger]
        counts.contains_key(height) ==> counts[height] == heights.to_multiset().count(height)
}

/// One more bucket raises the count of its height.
proof fn lemma_counts_push(counts: Map<u32, u128>, heights: Seq<u32>, height: u32, count: u128)
    requires
        counts_heights(counts, heights),
        count == heights.to_multiset().count(height) + 1,
    ensures
        counts_heights(counts.insert(height, count), heights.push(height)),
{
    broadcast use vstd::seq_lib::group_to_multiset_ensures;

    assert(heights.push(height).to_set() =~= heights.to_set().insert(height)) by {
        assert(heights.push(height)[heights.len() as int] == height);
        assert forall|h: u32| heights.contains(h) implies heights.push(height).contains(h) by {
            let i = heights.index_of(h);
            assert(heights.push(height)[i] == h);
        }
    }
}

/// The front bucket leaves the counts.
proof fn lemma_counts_pop(counts: Map<u32, u128>, heights: Seq<u32>)
    requires
        counts_heights(counts, heights),
        heights.len() > 0,
    ensures
        counts.contains_key(heights[0]),
        counts[heights[0]] > 0,
        counts[heights[0]] == 1 ==> counts_heights(
            counts.remove(heights[0]),
            heights.drop_first(),
        ),
        counts[heights[0]] > 1 ==> counts_heights(
            counts.insert(heights[0], (counts[heights[0]] - 1) as u128),
            heights.drop_first(),
        ),
{
    broadcast use vstd::seq_lib::group_to_multiset_ensures;

    let height = heights[0];
    let rest = heights.drop_first();
    assert(rest =~= heights.remove(0));
    assert(heights.contains(height));
    assert(rest.to_multiset() == heights.to_multiset().remove(height));
    assert(heights.to_set().contains(height));
    assert(counts.contains_key(height));
    assert(heights.to_multiset().count(height) > 0);
    assert forall|h: u32| #[trigger]
        rest.to_set().contains(h) == (heights.to_set().contains(h) && (h == height ==> counts[height]
            > 1)) by {
        assert(rest.contains(h) == (rest.to_multiset().count(h) > 0));
        assert(heights.contains(h) == (heights.to_multiset().count(h) > 0));
    }
    if counts[height] == 1 {
        assert(counts.remove(height).dom() =~= rest.to_set());
    } else {
        assert(counts.insert(height, (counts[height] - 1) as u128).dom() =~= rest.to_set());
    }
}

/// The totals of buckets, split at the front.
proof fn lemma_totals_front(buckets: Seq<BucketView>)
    requires
        buckets.len() > 0,
    ensures
        event_total(buckets) == buckets[0].updates.len() + event_total(buckets.drop_first()),
        byte_total(buckets) == encoded_bytes(buckets[0].updates) + byte_total(buckets.drop_first()),
    decreases buckets.len(),
{
    if buckets.len() > 1 {
        lemma_totals_front(buckets.drop_last());
        assert(buckets.drop_last().drop_first() =~= buckets.drop_first().drop_last());
    } else {
        assert(buckets.drop_last() =~= Seq::empty());
        assert(buckets.drop_first() =~= Seq::empty());
    }
}

impl Tally {
    /// Adds a bucket.
    fn add(&mut self, events: usize, bytes: u128)
        ensures
            final(self).buckets == counted(old(self).buckets, 1),
            final(self).events == counted(old(self).events, events as nat),
            final(self).bytes == counted(old(self).bytes, bytes as nat),
    {
        let bytes: u64 = if bytes > u64::MAX as u128 {
            u64::MAX
        } else {
            bytes as u64
        };
        self.buckets = self.buckets.saturating_add(1);
        self.events = self.events.saturating_add(events as u64);
        self.bytes = self.bytes.saturating_add(bytes);
    }
}

impl ReplayBuffer {
    /// The bounds of the window.
    pub closed spec fn spec_limits(self) -> ReplayLimits {
        self.limits
    }

    /// What left the window so far.
    pub closed spec fn spec_evictions(self) -> Evictions {
        self.evictions
    }

    /// The highest height that ever left the window.
    pub closed spec fn spec_evicted_through(self) -> Option<u32> {
        self.evicted_through
    }

    /// When the window's clock was last read.
    pub closed spec fn spec_time(self) -> u128 {
        self.clock.spec_latest()
    }

    /// Whether the counters agree with the buckets.
    spec fn consistent(self) -> bool {
        &&& forall|i: int|
            0 <= i < self.buckets@.len() ==> (#[trigger] self.buckets@[i]).well_formed()
        &&& scoped(self@)
        &&& filled(self@)
        &&& counts_heights(self.height_counts@, heights(self@))
        &&& self.event_count == event_total(self@)
        &&& self.encoded_bytes == byte_total(self@)
    }

    /// Whether the counters agree with the buckets and, apart from their age, the buckets keep
    /// the bounds.
    pub closed spec fn well_formed(self) -> bool {
        &&& self.consistent()
        &&& distinct_heights(self@) <= self.limits.height_capacity
        &&& event_total(self@) <= self.limits.event_capacity
        &&& byte_total(self@) <= self.limits.byte_capacity
    }

    /// Creates an empty window.
    pub fn new(limits: ReplayLimits) -> (buffer: Self)
        ensures
            buffer.well_formed(),
            buffer.spec_limits() == limits,
            buffer@ == Seq::<BucketView>::empty(),
            buffer.spec_evictions() == no_evictions(),
            buffer.spec_evicted_through() is None,
            buffer.spec_time() == 0,
    {
        let none = Tally { buckets: 0, events: 0, bytes: 0 };
        let buffer = ReplayBuffer {
            limits,
            clock: Clock::start(),
            buckets: VecDeque::new(),
            height_counts: HashMap::new(),
            event_count: 0,
            encoded_bytes: 0,
            evictions: Evictions {
                age: none,
                height: none,
                event_count: none,
                encoded_bytes: none,
            },
            evicted_through: None,
        };
        proof {
            assert(buffer@ =~= Seq::<BucketView>::empty());
            assert(heights(buffer@) =~= Seq::<u32>::empty());
            assert(heights(buffer@).to_set() =~= Set::<u32>::empty());
        }
        buffer
    }

    /// Which bound the window exceeds, if it exceeds one.
    fn reason(&self, now: u128) -> (reason: Option<EvictionReason>)
        requires
            self.consistent(),
        ensures
            reason == eviction_reason(self.limits, self@, now),
    {
        let mut outlived = false;
        if self.buckets.len() > 0 {
            proof {
                assert(self@[0] == self.buckets@[0]@);
            }
            match self.limits.max_age {
                Some(max_age) => {
                    let inserted_at: u128 = self.buckets[0].inserted_at;
                    outlived = now > inserted_at && now - inserted_at > max_age;
                },
                None => {},
            }
        }
        if outlived {
            Some(EvictionReason::Age)
        } else if self.height_counts.len() > self.limits.height_capacity {
            Some(EvictionReason::Height)
        } else if self.event_count > self.limits.event_capacity as u128 {
            Some(EvictionReason::EventCount)
        } else if self.encoded_bytes > self.limits.byte_capacity as u128 {
            Some(EvictionReason::EncodedBytes)
        } else {
            None
        }
    }

    /// Removes the oldest bucket for some reason.
    fn evict_front(&mut self, reason: EvictionReason)
        requires
            old(self).consistent(),
            old(self)@.len() > 0,
        ensures
            final(self).consistent(),
            final(self).limits == old(self).limits,
            final(self).clock == old(self).clock,
            final(self)@ == old(self)@.drop_first(),
            final(self).evictions == with_eviction(old(self).evictions, reason, old(self)@[0]),
            final(self).evicted_through == higher(
                old(self).evicted_through,
                Some(old(self)@[0].height),
            ),
    {
        let ghost before = self@;
        proof {
            lemma_totals_front(before);
            lemma_counts_pop(self.height_counts@, heights(before));
            assert(before[0] == self.buckets@[0]@);
            assert(heights(before)[0] == before[0].height);
            assert(self.buckets@[0].well_formed());
        }
        match self.buckets.pop_front() {
            Some(bucket) => {
                self.event_count = self.event_count - bucket.updates.len() as u128;
                self.encoded_bytes = self.encoded_bytes - bucket.encoded_bytes;
                let count: u128 = match self.height_counts.get(&bucket.height) {
                    Some(count) => *count,
                    None => 1,
                };
                if count == 1 {
                    self.height_counts.remove(&bucket.height);
                } else {
                    self.height_counts.insert(bucket.height, count - 1);
                }
                self.evicted_through = match self.evicted_through {
                    Some(through) if through >= bucket.height => Some(through),
                    _ => Some(bucket.height),
                };
                let events: usize = bucket.updates.len();
                match reason {
                    EvictionReason::Age => {
                        self.evictions.age.add(events, bucket.encoded_bytes);
                    },
                    EvictionReason::Height => {
                        self.evictions.height.add(events, bucket.encoded_bytes);
                    },
                    EvictionReason::EventCount => {
                        self.evictions.event_count.add(events, bucket.encoded_bytes);
                    },
                    EvictionReason::EncodedBytes => {
                        self.evictions.encoded_bytes.add(events, bucket.encoded_bytes);
                    },
                }
            },
            None => {},
        }
        proof {
            assert(self@ =~= before.drop_first());
            assert(heights(self@) =~= heights(before).drop_first());
        }
    }

    /// Removes buckets from the front until the window exceeds no bound.
    pub fn evict(&mut self, now: u128)
        requires
            old(self).well_formed(),
        ensures
            final(self).well_formed(),
            final(self).spec_limits() == old(self).spec_limits(),
            final(self).spec_time() == old(self).spec_time(),
            final(self)@ == surviving(old(self).spec_limits(), old(self)@, now),
            final(self).spec_evictions() == evictions_after(
                old(self).spec_evictions(),
                old(self).spec_limits(),
                old(self)@,
                now,
            ),
            final(self).spec_evicted_through() == evicted_through_after(
                old(self).spec_evicted_through(),
                old(self).spec_limits(),
                old(self)@,
                now,
            ),
    {
        self.settle(now);
    }

    /// Removes buckets from the front until the window exceeds no bound.
    fn settle(&mut self, now: u128)
        requires
            old(self).consistent(),
        ensures
            final(self).well_formed(),
            final(self).limits == old(self).limits,
            final(self).clock == old(self).clock,
            final(self)@ == surviving(old(self).limits, old(self)@, now),
            final(self).evictions == evictions_after(
                old(self).evictions,
                old(self).limits,
                old(self)@,
                now,
            ),
            final(self).evicted_through == evicted_through_after(
                old(self).evicted_through,
                old(self).limits,
                old(self)@,
                now,
            ),
    {
        let ghost before = self@;
        let ghost limits = self.limits;
        let ghost mut gone: int = 0;
        proof {
            assert(before.skip(0) =~= before);
            assert(before.take(0) =~= Seq::empty());
            lemma_empty_window(limits, now);
        }
        while self.buckets.len() > 0
            invariant_except_break
                self.consistent(),
                self.limits == limits,
                self.clock == old(self).clock,
                0 <= gone <= before.len(),
                self@ == before.skip(gone),
                self.evicted_through == higher(
                    old(self).evicted_through,
                    highest_height(before.take(gone)),
                ),
                surviving(limits, self@, now) == surviving(limits, before, now),
                evictions_after(self.evictions, limits, self@, now) == evictions_after(
                    old(self).evictions,
                    limits,
                    before,
                    now,
                ),
            ensures
                self.consistent(),
                self.limits == limits,
                self.clock == old(self).clock,
                0 <= gone <= before.len(),
                self@ == before.skip(gone),
                self.evicted_through == higher(
                    old(self).evicted_through,
                    highest_height(before.take(gone)),
                ),
                self@.len() == 0 || eviction_reason(limits, self@, now) is None,
                surviving(limits, self@, now) == surviving(limits, before, now),
                evictions_after(self.evictions, limits, self@, now) == evictions_after(
                    old(self).evictions,
                    limits,
                    before,
                    now,
                ),
            decreases self.buckets@.len(),
        {
            match self.reason(now) {
                Some(reason) => {
                    self.evict_front(reason);
                    proof {
                        assert(before.skip(gone).drop_first() =~= before.skip(gone + 1));
                        assert(before.take(gone + 1).drop_last() =~= before.take(gone));
                        gone = gone + 1;
                    }
                },
                None => {
                    break;
                },
            }
        }
        proof {
            if self@.len() == 0 {
                assert(self@ =~= Seq::empty());
            }
        }
    }
}

/// The encoded bytes of updates, bounded by their number.
proof fn lemma_encoded_bytes_bound(updates: Seq<Published>)
    ensures
        encoded_bytes(updates) <= updates.len() * 0xffff_ffff_ffff_ffff,
    decreases updates.len(),
{
    if updates.len() > 0 {
        lemma_encoded_bytes_bound(updates.drop_last());
        assert(updates.len() * 0xffff_ffff_ffff_ffff == (updates.len() - 1) * 0xffff_ffff_ffff_ffff
            + 0xffff_ffff_ffff_ffff) by (nonlinear_arith)
            requires
                updates.len() > 0,
        ;
    }
}

/// The updates of a height, with one more update taken into account.
proof fn lemma_updates_at_step(updates: Seq<Published>, height: u32, n: int)
    requires
        0 <= n < updates.len(),
    ensures
        updates_at(updates.take(n + 1), height) == (if published_height(updates[n]) == Some(
            height,
        ) {
            updates_at(updates.take(n), height).push(updates[n])
        } else {
            updates_at(updates.take(n), height)
        }),
{
    reveal(Seq::filter);
    assert(updates.take(n + 1).drop_last() =~= updates.take(n));
}

/// The height of the first block-scoped update.
fn find_height(updates: &[Published]) -> (height: Option<u32>)
    ensures
        height == batch_height(updates@),
{
    proof {
        assert(updates@.skip(0) =~= updates@);
    }
    for index in 0..updates.len()
        invariant
            batch_height(updates@) == batch_height(updates@.skip(index as int)),
    {
        proof {
            assert(updates@.skip(index as int).drop_first() =~= updates@.skip(index + 1));
        }
        match block_height(&updates[index].message) {
            Some(height) => {
                return Some(height);
            },
            None => {},
        }
    }
    None
}

impl ReplayBuffer {
    /// Publishes the updates of one node event at some time of the window's clock.
    ///
    /// Updates that belong to no height are not retained.
    pub fn push_batch_at(&mut self, updates: &[Published], now: u128)
        requires
            old(self).well_formed(),
        ensures
            final(self).well_formed(),
            final(self).spec_limits() == old(self).spec_limits(),
            final(self).spec_time() == old(self).spec_time(),
            final(self)@ == pushed(old(self).spec_limits(), old(self)@, updates@, now),
            final(self).spec_evictions() == evictions_after_push(
                old(self).spec_evictions(),
                old(self).spec_limits(),
                old(self)@,
                updates@,
                now,
            ),
            final(self).spec_evicted_through() == evicted_through_after_push(
                old(self).spec_evicted_through(),
                old(self).spec_limits(),
                old(self)@,
                updates@,
                now,
            ),
    {
        if self.limits.height_capacity == 0 {
            return;
        }
        let height: u32 = match find_height(updates) {
            Some(height) => height,
            None => {
                self.evict(now);
                return;
            },
        };
        let ghost before = self@;
        let ghost counts = self.height_counts@;
        let mut retained: Vec<Published> = Vec::new();
        let mut bytes: u128 = 0;
        proof {
            reveal(Seq::filter);
            assert(updates@.take(0) =~= Seq::empty());
        }
        for index in 0..updates.len()
            invariant
                retained@ == updates_at(updates@.take(index as int), height),
                retained@.len() <= index,
                bytes == encoded_bytes(retained@),
        {
            proof {
                lemma_updates_at_step(updates@, height, index as int);
                lemma_encoded_bytes_bound(retained@);
                assert(index * 0xffff_ffff_ffff_ffff <= 0xffff_ffff_ffff_ffff
                    * 0xffff_ffff_ffff_ffff) by (nonlinear_arith)
                    requires
                        0 <= index <= 0xffff_ffff_ffff_ffff,
                ;
                assert(retained@.len() * 0xffff_ffff_ffff_ffff <= index * 0xffff_ffff_ffff_ffff)
                    by (nonlinear_arith)
                    requires
                        0 <= retained@.len() <= index,
                ;
            }
            if block_height(&updates[index].message) == Some(height) {
                proof {
                    assert(retained@.push(updates@[index as int]).drop_last() =~= retained@);
                }
                bytes = bytes + updates[index].encoded_len as u128;
                retained.push(updates[index].clone());
            }
        }
        proof {
            assert(updates@.take(updates@.len() as int) =~= updates@);
            lemma_encoded_bytes_bound(retained@);
            assert(retained@.len() * 0xffff_ffff_ffff_ffff <= 0xffff_ffff_ffff_ffff
                * 0xffff_ffff_ffff_ffff) by (nonlinear_arith)
                requires
                    0 <= retained@.len() <= 0xffff_ffff_ffff_ffff,
            ;
        }
        proof {
            lemma_batch_height_occurs(updates@);
        }
        let ghost bucket_view = BucketView { height, inserted_at: now, updates: retained@ };
        let buckets_before: usize = self.buckets.len();
        let count: u128 = match self.height_counts.get(&height) {
            Some(count) => *count,
            None => 0,
        };
        proof {
            broadcast use vstd::seq_lib::group_to_multiset_ensures;

            let hs = heights(before);
            assert(hs.to_multiset().count(height) <= hs.to_multiset().len());
            assert(hs.to_multiset().len() == hs.len());
            assert(hs.len() == buckets_before);
            assert(counts.contains_key(height) == hs.to_set().contains(height));
            assert(hs.contains(height) == (hs.to_multiset().count(height) > 0));
            assert(count == hs.to_multiset().count(height));
            lemma_counts_push(counts, hs, height, (count + 1) as u128);
            assert(heights(before.push(bucket_view)) =~= hs.push(height));
            assert(before.push(bucket_view).drop_last() =~= before);
        }
        self.height_counts.insert(height, count + 1);
        self.event_count = self.event_count + retained.len() as u128;
        self.encoded_bytes = self.encoded_bytes + bytes;
        self.buckets.push_back(
            ReplayBucket { height, inserted_at: now, updates: retained, encoded_bytes: bytes },
        );
        proof {
            assert(self@ =~= before.push(bucket_view));
        }
        self.settle(now);
    }

    /// Publishes the updates of one node event.
    pub fn push_batch(&mut self, updates: &[Published])
        requires
            old(self).well_formed(),
        ensures
            final(self).well_formed(),
            final(self).spec_limits() == old(self).spec_limits(),
            final(self).spec_time() >= old(self).spec_time(),
            final(self)@ == pushed(
                old(self).spec_limits(),
                old(self)@,
                updates@,
                final(self).spec_time(),
            ),
            final(self).spec_evictions() == evictions_after_push(
                old(self).spec_evictions(),
                old(self).spec_limits(),
                old(self)@,
                updates@,
                final(self).spec_time(),
            ),
            final(self).spec_evicted_through() == evicted_through_after_push(
                old(self).spec_evicted_through(),
                old(self).spec_limits(),
                old(self)@,
                updates@,
                final(self).spec_time(),
            ),
    {
        let now: u128 = self.now();
        self.push_batch_at(updates, now);
    }

    /// The lowest height in the window.
    pub fn first_available_height(&self) -> (height: Option<u32>)
        requires
            self.well_formed(),
        ensures
            height == lowest_height(self@),
    {
        let mut lowest: Option<u32> = None;
        proof {
            assert(self@.take(0) =~= Seq::empty());
        }
        for index in 0..self.buckets.len()
            invariant
                lowest == lowest_height(self@.take(index as int)),
        {
            let height: u32 = self.buckets[index].height;
            proof {
                assert(self@.take(index + 1).drop_last() =~= self@.take(index as int));
                assert(self@[index as int] == self.buckets@[index as int]@);
            }
            lowest =
            match lowest {
                Some(found) if found <= height => Some(found),
                _ => Some(height),
            };
        }
        proof {
            assert(self@.take(self@.len() as int) =~= self@);
        }
        lowest
    }

    /// The highest height in the window.
    pub fn latest_height(&self) -> (height: Option<u32>)
        requires
            self.well_formed(),
        ensures
            height == highest_height(self@),
    {
        let mut highest: Option<u32> = None;
        proof {
            assert(self@.take(0) =~= Seq::empty());
        }
        for index in 0..self.buckets.len()
            invariant
                highest == highest_height(self@.take(index as int)),
        {
            let height: u32 = self.buckets[index].height;
            proof {
                assert(self@.take(index + 1).drop_last() =~= self@.take(index as int));
                assert(self@[index as int] == self.buckets@[index as int]@);
            }
            highest =
            match highest {
                Some(found) if found >= height => Some(found),
                _ => Some(height),
            };
        }
        proof {
            assert(self@.take(self@.len() as int) =~= self@);
        }
        highest
    }
}

impl ReplayBuffer {
    /// What a subscriber gets of the window at some time of its clock.
    pub fn snapshot_at(&mut self, from_height: Option<u32>, now: u128) -> (result: Result<
        ReplaySnapshot,
        Status,
    >)
        requires
            old(self).well_formed(),
        ensures
            final(self).well_formed(),
            final(self).spec_limits() == old(self).spec_limits(),
            final(self).spec_time() == old(self).spec_time(),
            final(self)@ == surviving(old(self).spec_limits(), old(self)@, now),
            final(self).spec_evictions() == evictions_after(
                old(self).spec_evictions(),
                old(self).spec_limits(),
                old(self)@,
                now,
            ),
            final(self).spec_evicted_through() == evicted_through_after(
                old(self).spec_evicted_through(),
                old(self).spec_limits(),
                old(self)@,
                now,
            ),
            snapshot_outcome(
                result,
                final(self)@,
                final(self).spec_evicted_through(),
                from_height,
            ),
    {
        self.evict(now);
        if let Some(requested) = from_height {
            let first_available: Option<u32> = self.first_available_height();
            let evicted = match first_available {
                Some(lowest) => requested < lowest,
                None => match self.evicted_through {
                    Some(through) => requested <= through,
                    None => false,
                },
            };
            if evicted {
                return Err(refuse_evicted(requested, first_available));
            }
        }
        let count: usize = self.buckets.len();
        let mut watermark: u64 = 0;
        if count > 0 {
            let newest = &self.buckets[count - 1];
            proof {
                assert(self@.last() == self.buckets@[count - 1]@);
            }
            let length: usize = newest.updates.len();
            if length > 0 {
                watermark = newest.updates[length - 1].message.sequence;
            }
        }
        let updates = match from_height {
            Some(requested) => self.collect_from(requested),
            None => Vec::new(),
        };
        Ok(ReplaySnapshot { updates, watermark })
    }

    /// Collects the updates of the buckets from a height on.
    fn collect_from(&self, height: u32) -> (updates: Vec<Published>)
        ensures
            updates@ == replayed(self@, height),
    {
        let mut updates: Vec<Published> = Vec::new();
        proof {
            assert(self@.take(0) =~= Seq::empty());
        }
        for index in 0..self.buckets.len()
            invariant
                updates@ == replayed(self@.take(index as int), height),
        {
            let bucket = &self.buckets[index];
            proof {
                assert(self@.take(index + 1).drop_last() =~= self@.take(index as int));
                assert(self@[index as int] == bucket@);
            }
            if bucket.height >= height {
                let ghost before = updates@;
                for position in 0..bucket.updates.len()
                    invariant
                        updates@ == before + bucket.updates@.take(position as int),
                {
                    updates.push(bucket.updates[position].clone());
                    proof {
                        assert(before + bucket.updates@.take(position + 1) =~= (before
                            + bucket.updates@.take(position as int)).push(
                            bucket.updates@[position as int],
                        ));
                    }
                }
                proof {
                    assert(bucket.updates@.take(bucket.updates@.len() as int) =~= bucket.updates@);
                }
            }
        }
        proof {
            assert(self@.take(self@.len() as int) =~= self@);
        }
        updates
    }

    /// What a subscriber gets of the window.
    pub fn snapshot(&mut self, from_height: Option<u32>) -> (result: Result<ReplaySnapshot, Status>)
        requires
            old(self).well_formed(),
        ensures
            final(self).well_formed(),
            final(self).spec_limits() == old(self).spec_limits(),
            final(self).spec_time() >= old(self).spec_time(),
            final(self)@ == surviving(
                old(self).spec_limits(),
                old(self)@,
                final(self).spec_time(),
            ),
            final(self).spec_evictions() == evictions_after(
                old(self).spec_evictions(),
                old(self).spec_limits(),
                old(self)@,
                final(self).spec_time(),
            ),
            final(self).spec_evicted_through() == evicted_through_after(
                old(self).spec_evicted_through(),
                old(self).spec_limits(),
                old(self)@,
                final(self).spec_time(),
            ),
            snapshot_outcome(
                result,
                final(self)@,
                final(self).spec_evicted_through(),
                from_height,
            ),
    {
        let now: u128 = self.now();
        self.snapshot_at(from_height, now)
    }

    /// Reads the window's clock, which never goes back.
    pub(crate) fn now(&mut self) -> (now: u128)
        requires
            old(self).well_formed(),
        ensures
            final(self).well_formed(),
            final(self).spec_limits() == old(self).spec_limits(),
            final(self)@ == old(self)@,
            final(self).spec_evictions() == old(self).spec_evictions(),
            final(self).spec_evicted_through() == old(self).spec_evicted_through(),
            now >= old(self).spec_time(),
            now == final(self).spec_time(),
    {
        self.clock.now()
    }

    /// The bounds of the window.
    pub fn limits(&self) -> (limits: ReplayLimits)
        ensures
            limits == self.spec_limits(),
    {
        self.limits
    }

    /// The number of buckets.
    pub fn bucket_count(&self) -> (count: usize)
        ensures
            count == self@.len(),
    {
        self.buckets.len()
    }

    /// The number of distinct heights.
    pub fn height_count(&self) -> (count: usize)
        requires
            self.well_formed(),
        ensures
            count == distinct_heights(self@),
    {
        self.height_counts.len()
    }

    /// The number of updates.
    pub fn event_count(&self) -> (count: usize)
        requires
            self.well_formed(),
        ensures
            count == event_total(self@),
    {
        self.event_count as usize
    }

    /// The encoded bytes of all updates.
    pub fn encoded_bytes(&self) -> (bytes: usize)
        requires
            self.well_formed(),
        ensures
            bytes == byte_total(self@),
    {
        self.encoded_bytes as usize
    }

    /// What left the window so far, by reason.
    pub fn evictions(&self) -> (evictions: Evictions)
        ensures
            evictions == self.spec_evictions(),
    {
        self.evictions
    }

    /// The window always keeps its bounds on heights, updates and bytes.
    pub proof fn law_bounds_are_kept(&self)
        requires
            self.well_formed(),
        ensures
            distinct_heights(self@) <= self.spec_limits().height_capacity,
            event_total(self@) <= self.spec_limits().event_capacity,
            byte_total(self@) <= self.spec_limits().byte_capacity,
    {
    }

    /// Only block-scoped updates are retained, each in a bucket of its own height, and no bucket
    /// is empty.
    pub proof fn law_buckets_are_scoped(&self)
        requires
            self.well_formed(),
        ensures
            scoped(self@),
            filled(self@),
    {
    }
}

/// When an eviction empties the window, whoever asks for a height that left it, then or earlier,
/// is refused.
pub proof fn law_evicted_height_is_refused(
    limits: ReplayLimits,
    buckets: Seq<BucketView>,
    through: Option<u32>,
    now: u128,
    requested: u32,
    result: Result<ReplaySnapshot, Status>,
)
    requires
        surviving(limits, buckets, now).len() == 0,
        heights(buckets).contains(requested) || through is Some && requested <= through->0,
        snapshot_outcome(
            result,
            surviving(limits, buckets, now),
            evicted_through_after(through, limits, buckets, now),
            Some(requested),
        ),
    ensures
        result matches Err(status) && status.code == Code::OutOfRange,
{
    let gone = leaving(limits, buckets, now);
    assert(gone =~= buckets);
    law_latest_height_is_highest(buckets);
    if heights(buckets).contains(requested) {
        let i = heights(buckets).index_of(requested);
        assert(buckets[i].height == requested);
    }
}

/// When publishing empties the window, whoever asks for a height that left it, or for the height
/// that was published, is refused.
pub proof fn law_height_evicted_by_publishing_is_refused(
    limits: ReplayLimits,
    buckets: Seq<BucketView>,
    updates: Seq<Published>,
    through: Option<u32>,
    now: u128,
    requested: u32,
    result: Result<ReplaySnapshot, Status>,
)
    requires
        limits.height_capacity > 0,
        pushed(limits, buckets, updates, now).len() == 0,
        heights(buckets).contains(requested) || batch_height(updates) == Some(requested)
            || through is Some && requested <= through->0,
        snapshot_outcome(
            result,
            pushed(limits, buckets, updates, now),
            evicted_through_after_push(through, limits, buckets, updates, now),
            Some(requested),
        ),
    ensures
        result matches Err(status) && status.code == Code::OutOfRange,
{
    let all = entered(buckets, updates, now);
    if heights(buckets).contains(requested) {
        let i = heights(buckets).index_of(requested);
        assert(heights(all)[i] == requested);
    } else if batch_height(updates) == Some(requested) {
        assert(heights(all)[all.len() - 1] == requested);
    }
    law_evicted_height_is_refused(limits, all, through, now, requested, result);
}

/// What left the window stays refused as long as the window is empty: the highest height that
/// left it never falls.
pub proof fn law_evicted_through_never_falls(
    limits: ReplayLimits,
    buckets: Seq<BucketView>,
    through: Option<u32>,
    now: u128,
)
    requires
        through is Some,
    ensures
        evicted_through_after(through, limits, buckets, now) is Some,
        evicted_through_after(through, limits, buckets, now)->0 >= through->0,
{
}

/// A replay from the first available height hands out an update of that height.
pub proof fn law_first_available_height_is_replayed(buckets: Seq<BucketView>)
    requires
        scoped(buckets),
        filled(buckets),
        lowest_height(buckets) is Some,
    ensures
        exists|k: int|
            0 <= k < replayed(buckets, lowest_height(buckets)->0).len() && published_height(
                #[trigger] replayed(buckets, lowest_height(buckets)->0)[k],
            ) == lowest_height(buckets),
{
    let lowest = lowest_height(buckets)->0;
    law_first_available_height_is_lowest(buckets);
    let i = heights(buckets).index_of(lowest);
    assert(buckets[i].height == lowest);
    let update = buckets[i].updates[0];
    assert(published_height(update) == Some(lowest));
    lemma_all_updates_contain(buckets, i);
    assert(buckets[i].updates.contains(update));
    law_replay_starts_at_height(buckets, lowest, update);
    let k = replayed(buckets, lowest).index_of(update);
    assert(replayed(buckets, lowest)[k] == update);
}

/// The updates of every bucket are among all updates.
proof fn lemma_all_updates_contain(buckets: Seq<BucketView>, index: int)
    requires
        0 <= index < buckets.len(),
    ensures
        forall|update: Published| #[trigger]
            buckets[index].updates.contains(update) ==> all_updates(buckets).contains(update),
    decreases buckets.len(),
{
    let rest = buckets.drop_last();
    if index < rest.len() {
        lemma_all_updates_contain(rest, index);
        assert(rest[index] == buckets[index]);
    }
    assert forall|update: Published| #[trigger]
        buckets[index].updates.contains(update) implies all_updates(buckets).contains(update) by {
        lemma_contains_concat(all_updates(rest), buckets.last().updates, update);
    }
}

/// The watermark of a window that is not empty is the sequence number of the last update in it.
pub proof fn law_watermark_is_last_retained(buckets: Seq<BucketView>)
    requires
        filled(buckets),
        buckets.len() > 0,
    ensures
        all_updates(buckets).len() > 0,
        watermark(buckets) == all_updates(buckets).last().message.sequence,
{
    assert(buckets[buckets.len() - 1].updates.len() > 0);
}

/// A replay from some height hands out the retained updates of that height and of higher ones,
/// and no others.
pub proof fn law_replay_starts_at_height(buckets: Seq<BucketView>, height: u32, update: Published)
    requires
        scoped(buckets),
    ensures
        replayed(buckets, height).contains(update) <==> all_updates(buckets).contains(update)
            && published_height(update) is Some && published_height(update)->0 >= height,
    decreases buckets.len(),
{
    if buckets.len() > 0 {
        let rest = buckets.drop_last();
        let last = buckets.last().updates;
        assert forall|i: int, k: int|
            #![trigger rest[i].updates[k]]
            0 <= i < rest.len() && 0 <= k < rest[i].updates.len() implies published_height(
            rest[i].updates[k],
        ) == Some(rest[i].height) by {
            assert(buckets[i].updates[k] == rest[i].updates[k]);
        }
        law_replay_starts_at_height(rest, height, update);
        if last.contains(update) {
            let k = last.index_of(update);
            assert(buckets[buckets.len() - 1].updates[k] == update);
        }
        lemma_contains_concat(all_updates(rest), last, update);
        lemma_contains_concat(replayed(rest, height), last, update);
    }
}

/// What a concatenation holds.
proof fn lemma_contains_concat(first: Seq<Published>, second: Seq<Published>, update: Published)
    ensures
        (first + second).contains(update) <==> first.contains(update) || second.contains(update),
{
    let all = first + second;
    if first.contains(update) {
        assert(all[first.index_of(update)] == update);
    }
    if second.contains(update) {
        assert(all[first.len() + second.index_of(update)] == update);
    }
    if all.contains(update) {
        let i = all.index_of(update);
        if i < first.len() {
            assert(first[i] == update);
        } else {
            assert(second[i - first.len()] == update);
        }
    }
}

/// Eviction removes whole buckets from the front, until the window exceeds no bound, and not one
/// bucket more.
pub proof fn law_eviction_is_minimal(limits: ReplayLimits, buckets: Seq<BucketView>, now: u128)
    ensures
        eviction_reason(limits, surviving(limits, buckets, now), now) is None,
        exists|evicted: int|
            {
                &&& 0 <= evicted <= buckets.len()
                &&& surviving(limits, buckets, now) == #[trigger] buckets.skip(evicted)
                &&& forall|fewer: int|
                    0 <= fewer < evicted ==> eviction_reason(
                        limits,
                        #[trigger] buckets.skip(fewer),
                        now,
                    ) is Some
            },
    decreases buckets.len(),
{
    assert(buckets.skip(0) =~= buckets);
    if buckets.len() == 0 {
        lemma_empty_window(limits, now);
        assert(buckets =~= Seq::empty());
        assert(surviving(limits, buckets, now) == buckets.skip(0));
    } else if eviction_reason(limits, buckets, now) is None {
        assert(surviving(limits, buckets, now) == buckets.skip(0));
    } else {
        let rest = buckets.drop_first();
        law_eviction_is_minimal(limits, rest, now);
        let inner = choose|evicted: int|
            {
                &&& 0 <= evicted <= rest.len()
                &&& surviving(limits, rest, now) == #[trigger] rest.skip(evicted)
                &&& forall|fewer: int|
                    0 <= fewer < evicted ==> eviction_reason(
                        limits,
                        #[trigger] rest.skip(fewer),
                        now,
                    ) is Some
            };
        assert(rest.skip(inner) =~= buckets.skip(inner + 1));
        assert forall|fewer: int| 0 <= fewer < inner + 1 implies eviction_reason(
            limits,
            #[trigger] buckets.skip(fewer),
            now,
        ) is Some by {
            if fewer > 0 {
                assert(rest.skip(fewer - 1) =~= buckets.skip(fewer));
            }
        }
    }
}

/// Whether buckets entered the window one after the other, and none after some time.
pub open spec fn timely(buckets: Seq<BucketView>, now: u128) -> bool {
    &&& forall|i: int, j: int|
        0 <= i < j < buckets.len() ==> (#[trigger] buckets[i]).inserted_at <= (
        #[trigger] buckets[j]).inserted_at
    &&& forall|i: int| 0 <= i < buckets.len() ==> (#[trigger] buckets[i]).inserted_at <= now
}

/// Whether no bucket has outlived the allowed age.
pub open spec fn none_expired(buckets: Seq<BucketView>, limits: ReplayLimits, now: u128) -> bool {
    forall|i: int| 0 <= i < buckets.len() ==> !expired(#[trigger] buckets[i], limits, now)
}

/// An eviction leaves no bucket that has outlived the allowed age, as long as the clock does not
/// go back.
pub proof fn law_eviction_keeps_age(
    limits: ReplayLimits,
    buckets: Seq<BucketView>,
    earlier: u128,
    now: u128,
)
    requires
        timely(buckets, earlier),
        earlier <= now,
    ensures
        timely(surviving(limits, buckets, now), now),
        none_expired(surviving(limits, buckets, now), limits, now),
{
    law_eviction_is_minimal(limits, buckets, now);
    let evicted = choose|evicted: int|
        0 <= evicted <= buckets.len() && surviving(limits, buckets, now)
            == #[trigger] buckets.skip(evicted);
    let kept = buckets.skip(evicted);
    assert forall|i: int| 0 <= i < kept.len() implies !expired(#[trigger] kept[i], limits, now) by {
        assert(kept[i] == buckets[evicted + i]);
        assert(kept[0] == buckets[evicted]);
        assert(!expired(kept[0], limits, now));
    }
}

/// Publishing leaves no bucket that has outlived the allowed age, as long as the clock does not
/// go back.
pub proof fn law_publishing_keeps_age(
    limits: ReplayLimits,
    buckets: Seq<BucketView>,
    updates: Seq<Published>,
    earlier: u128,
    now: u128,
)
    requires
        limits.height_capacity > 0,
        timely(buckets, earlier),
        earlier <= now,
    ensures
        timely(pushed(limits, buckets, updates, now), now),
        none_expired(pushed(limits, buckets, updates, now), limits, now),
{
    law_eviction_keeps_age(limits, entered(buckets, updates, now), now, now);
}

/// The first available height is the lowest height of any bucket in the window, whatever the
/// order in which the buckets arrived; there is none only when the window is empty.
pub proof fn law_first_available_height_is_lowest(buckets: Seq<BucketView>)
    ensures
        match lowest_height(buckets) {
            Some(height) => {
                &&& heights(buckets).contains(height)
                &&& forall|i: int| 0 <= i < buckets.len() ==> height <= (#[trigger] buckets[i]).height
            },
            None => buckets.len() == 0,
        },
    decreases buckets.len(),
{
    if buckets.len() > 0 {
        let rest = buckets.drop_last();
        law_first_available_height_is_lowest(rest);
        let found = lowest_height(buckets)->0;
        assert(heights(buckets).last() == buckets.last().height);
        if lowest_height(rest) == Some(found) {
            let i = heights(rest).index_of(found);
            assert(heights(buckets)[i] == found);
        } else {
            assert(heights(buckets)[buckets.len() - 1] == found);
        }
        assert forall|i: int| 0 <= i < buckets.len() implies found <= (#[trigger] buckets[i]).height by {
            if i < rest.len() {
                assert(rest[i] == buckets[i]);
            }
        }
    }
}

/// The latest height is the highest height of any bucket in the window, whatever the order in
/// which the buckets arrived; there is none only when the window is empty.
pub proof fn law_latest_height_is_highest(buckets: Seq<BucketView>)
    ensures
        match highest_height(buckets) {
            Some(height) => {
                &&& heights(buckets).contains(height)
                &&& forall|i: int| 0 <= i < buckets.len() ==> height >= (#[trigger] buckets[i]).height
            },
            None => buckets.len() == 0,
        },
    decreases buckets.len(),
{
    if buckets.len() > 0 {
        let rest = buckets.drop_last();
        law_latest_height_is_highest(rest);
        let found = highest_height(buckets)->0;
        if highest_height(rest) == Some(found) {
            let i = heights(rest).index_of(found);
            assert(heights(buckets)[i] == found);
        } else {
            assert(heights(buckets)[buckets.len() - 1] == found);
        }
        assert forall|i: int| 0 <= i < buckets.len() implies found >= (#[trigger] buckets[i]).height by {
            if i < rest.len() {
                assert(rest[i] == buckets[i]);
            }
        }
    }
}

/// Without a height capacity nothing is ever retained.
pub proof fn law_zero_capacity_disables_replay(
    limits: ReplayLimits,
    updates: Seq<Published>,
    now: u128,
)
    requires
        limits.height_capacity == 0,
    ensures
        pushed(limits, Seq::empty(), updates, now) == Seq::<BucketView>::empty(),
{
}

/// All updates in buckets, oldest first.
pub open spec fn all_updates(buckets: Seq<BucketView>) -> Seq<Published>
    decreases buckets.len(),
{
    if buckets.len() == 0 {
        Seq::empty()
    } else {
        all_updates(buckets.drop_last()) + buckets.last().updates
    }
}

/// Whether sequence numbers rise from each update to the next.
pub open spec fn increasing(updates: Seq<Published>) -> bool {
    forall|i: int, j: int|
        0 <= i < j < updates.len() ==> (#[trigger] updates[i]).message.sequence < (
        #[trigger] updates[j]).message.sequence
}

/// Whether all updates come after a sequence number.
pub open spec fn all_after(updates: Seq<Published>, sequence: u64) -> bool {
    forall|i: int| 0 <= i < updates.len() ==> (#[trigger] updates[i]).message.sequence > sequence
}

/// Whether no update comes after a sequence number.
pub open spec fn none_after(updates: Seq<Published>, sequence: u64) -> bool {
    forall|i: int| 0 <= i < updates.len() ==> (#[trigger] updates[i]).message.sequence <= sequence
}

/// Whether the window holds updates in the order of their sequence numbers, and no empty bucket.
pub open spec fn ordered(buckets: Seq<BucketView>) -> bool {
    &&& increasing(all_updates(buckets))
    &&& filled(buckets)
}

/// All updates in buckets, split at the front.
proof fn lemma_all_updates_front(buckets: Seq<BucketView>)
    requires
        buckets.len() > 0,
    ensures
        all_updates(buckets) == buckets[0].updates + all_updates(buckets.drop_first()),
    decreases buckets.len(),
{
    if buckets.len() > 1 {
        lemma_all_updates_front(buckets.drop_last());
        assert(buckets.drop_last().drop_first() =~= buckets.drop_first().drop_last());
        assert(all_updates(buckets) =~= buckets[0].updates + all_updates(buckets.drop_first()));
    } else {
        assert(buckets.drop_last() =~= Seq::empty());
        assert(buckets.drop_first() =~= Seq::empty());
        assert(all_updates(buckets) =~= buckets[0].updates + all_updates(buckets.drop_first()));
    }
}

/// Eviction keeps the order of the window.
pub proof fn law_eviction_keeps_order(limits: ReplayLimits, buckets: Seq<BucketView>, now: u128)
    requires
        ordered(buckets),
    ensures
        ordered(surviving(limits, buckets, now)),
    decreases buckets.len(),
{
    if buckets.len() > 0 && eviction_reason(limits, buckets, now) is Some {
        let rest = buckets.drop_first();
        lemma_all_updates_front(buckets);
        let offset = buckets[0].updates.len() as int;
        assert forall|i: int, j: int| 0 <= i < j < all_updates(rest).len() implies (
        #[trigger] all_updates(rest)[i]).message.sequence < (
        #[trigger] all_updates(rest)[j]).message.sequence by {
            assert(all_updates(buckets)[offset + i] == all_updates(rest)[i]);
            assert(all_updates(buckets)[offset + j] == all_updates(rest)[j]);
        }
        law_eviction_keeps_order(limits, rest, now);
    }
}

/// The updates of a height are some of the updates, in their order.
proof fn lemma_updates_at_keeps_order(updates: Seq<Published>, height: u32, bound: u64)
    requires
        increasing(updates),
        all_after(updates, bound),
    ensures
        increasing(updates_at(updates, height)),
        all_after(updates_at(updates, height), bound),
        updates_at(updates, height).len() > 0 ==> updates_at(
            updates,
            height,
        ).last().message.sequence <= updates.last().message.sequence,
    decreases updates.len(),
{
    reveal(Seq::filter);
    if updates.len() > 0 {
        let rest = updates.drop_last();
        assert forall|i: int, j: int| 0 <= i < j < rest.len() implies (
        #[trigger] rest[i]).message.sequence < (#[trigger] rest[j]).message.sequence by {
            assert(updates[i].message.sequence < updates[j].message.sequence);
        }
        lemma_updates_at_keeps_order(rest, height, bound);
        let kept = updates_at(rest, height);
        if rest.len() > 0 {
            assert(updates[rest.len() - 1].message.sequence < updates[updates.len()
                - 1].message.sequence);
        }
        if published_height(updates.last()) == Some(height) {
            let now = updates_at(updates, height);
            assert(now == kept.push(updates.last()));
            assert forall|i: int, j: int| 0 <= i < j < now.len() implies (
            #[trigger] now[i]).message.sequence < (#[trigger] now[j]).message.sequence by {
                if j == kept.len() {
                    if i < kept.len() - 1 {
                        assert(kept[i].message.sequence < kept[kept.len() - 1].message.sequence);
                    }
                }
            }
        }
    }
}

/// A batch with a height has an update of that height.
proof fn lemma_batch_height_occurs(updates: Seq<Published>)
    ensures
        batch_height(updates) is Some ==> updates_at(updates, batch_height(updates)->0).len() > 0,
    decreases updates.len(),
{
    if batch_height(updates) is Some {
        let height = batch_height(updates)->0;
        let wanted = |update: Published| published_height(update) == Some(height);
        lemma_batch_height_position(updates);
        let i = choose|i: int|
            0 <= i < updates.len() && published_height(#[trigger] updates[i]) == Some(
                height,
            );
        updates.lemma_filter_contains(wanted, i);
        assert(updates.filter(wanted).contains(updates[i]));
    }
}

/// The height of a batch is the height of one of its updates.
proof fn lemma_batch_height_position(updates: Seq<Published>)
    requires
        batch_height(updates) is Some,
    ensures
        exists|i: int|
            0 <= i < updates.len() && published_height(#[trigger] updates[i])
                == batch_height(updates),
    decreases updates.len(),
{
    if published_height(updates[0]) is None {
        let rest = updates.drop_first();
        lemma_batch_height_position(rest);
        let i = choose|i: int|
            0 <= i < rest.len() && published_height(#[trigger] rest[i]) == batch_height(
                rest,
            );
        assert(updates[i + 1] == rest[i]);
    }
}

/// Nothing in an ordered window comes after its watermark.
pub proof fn law_watermark_covers_window(buckets: Seq<BucketView>)
    requires
        ordered(buckets),
    ensures
        none_after(all_updates(buckets), watermark(buckets)),
{
    if buckets.len() > 0 {
        let all = all_updates(buckets);
        let last = buckets.last().updates;
        assert(buckets[buckets.len() - 1].updates.len() > 0);
        assert(all[all.len() - 1] == last.last());
    }
}

/// Publishing updates that come after everything in the window keeps the window in order.
pub proof fn law_publishing_keeps_order(
    limits: ReplayLimits,
    buckets: Seq<BucketView>,
    updates: Seq<Published>,
    now: u128,
)
    requires
        ordered(buckets),
        increasing(updates),
        all_after(updates, watermark(buckets)),
    ensures
        ordered(pushed(limits, buckets, updates, now)),
{
    if limits.height_capacity > 0 {
        match batch_height(updates) {
            Some(height) => {
                let kept = updates_at(updates, height);
                let grown = buckets.push(
                    BucketView { height, inserted_at: now, updates: kept },
                );
                lemma_updates_at_keeps_order(updates, height, watermark(buckets));
                lemma_batch_height_occurs(updates);
                law_watermark_covers_window(buckets);
                assert(grown.drop_last() =~= buckets);
                let before = all_updates(buckets);
                let after = all_updates(grown);
                assert(after == before + kept);
                assert forall|i: int, j: int| 0 <= i < j < after.len() implies (
                #[trigger] after[i]).message.sequence < (#[trigger] after[j]).message.sequence by {
                    if j < before.len() {
                        assert(before[i].message.sequence < before[j].message.sequence);
                    } else if i >= before.len() {
                        assert(kept[i - before.len()].message.sequence < kept[j
                            - before.len()].message.sequence);
                    } else {
                        assert(before[i].message.sequence <= watermark(buckets));
                        assert(kept[j - before.len()].message.sequence > watermark(buckets));
                    }
                }
                assert forall|i: int| 0 <= i < grown.len() implies (
                #[trigger] grown[i]).updates.len() > 0 by {
                    if i < buckets.len() {
                        assert(grown[i] == buckets[i]);
                    }
                }
                law_eviction_keeps_order(limits, grown, now);
            },
            None => {
                law_eviction_keeps_order(limits, buckets, now);
            },
        }
    }
}

/// Eviction leaves the newest update alone, or nothing.
proof fn lemma_eviction_keeps_watermark(limits: ReplayLimits, buckets: Seq<BucketView>, now: u128)
    ensures
        watermark(surviving(limits, buckets, now)) <= watermark(buckets),
    decreases buckets.len(),
{
    if buckets.len() > 0 && eviction_reason(limits, buckets, now) is Some {
        let rest = buckets.drop_first();
        lemma_eviction_keeps_watermark(limits, rest, now);
        if rest.len() > 0 {
            assert(rest.last() == buckets.last());
        }
    }
}

/// The watermark does not run ahead of the sequence numbers that were published.
pub proof fn law_watermark_is_published(
    limits: ReplayLimits,
    buckets: Seq<BucketView>,
    updates: Seq<Published>,
    now: u128,
    bound: u64,
)
    requires
        watermark(buckets) <= bound,
        none_after(updates, bound),
    ensures
        watermark(pushed(limits, buckets, updates, now)) <= bound,
{
    if limits.height_capacity > 0 {
        match batch_height(updates) {
            Some(height) => {
                let kept = updates_at(updates, height);
                let grown = buckets.push(BucketView { height, inserted_at: now, updates: kept });
                let wanted = |update: Published| published_height(update) == Some(height);
                assert(grown.last().updates == kept);
                if kept.len() > 0 {
                    assert(updates.contains(kept.last())) by {
                        broadcast use vstd::seq_lib::group_filter_ensures;

                        assert(kept == updates.filter(wanted));
                        assert(kept.contains(kept.last()));
                        lemma_filter_is_part(updates, wanted);
                    }
                    let i = updates.index_of(kept.last());
                    assert(updates[i].message.sequence <= bound);
                }
                lemma_eviction_keeps_watermark(limits, grown, now);
            },
            None => {
                lemma_eviction_keeps_watermark(limits, buckets, now);
            },
        }
    }
}

/// What a filter keeps was there before.
pub(crate) proof fn lemma_filter_is_part(updates: Seq<Published>, wanted: spec_fn(Published) -> bool)
    ensures
        forall|update: Published| #[trigger]
            updates.filter(wanted).contains(update) ==> updates.contains(update),
    decreases updates.len(),
{
    reveal(Seq::filter);
    if updates.len() > 0 {
        let rest = updates.drop_last();
        lemma_filter_is_part(rest, wanted);
        assert forall|update: Published| #[trigger]
            updates.filter(wanted).contains(update) implies updates.contains(update) by {
            let kept = updates.filter(wanted);
            let i = kept.index_of(update);
            if i < rest.filter(wanted).len() {
                assert(rest.filter(wanted)[i] == update);
                assert(rest.filter(wanted).contains(update));
                assert(rest.contains(update));
                let k = rest.index_of(update);
                assert(updates[k] == update);
            } else {
                assert(updates[updates.len() - 1] == update);
            }
        }
    }
}

/// A replay delivers updates in the order of their sequence numbers, each once, and none after
/// the watermark from which live delivery goes on.
pub proof fn law_replay_is_ordered(buckets: Seq<BucketView>, height: u32)
    requires
        ordered(buckets),
    ensures
        increasing(replayed(buckets, height)),
        none_after(replayed(buckets, height), watermark(buckets)),
    decreases buckets.len(),
{
    lemma_replayed_bounds(buckets, height);
    law_watermark_covers_window(buckets);
    let part = replayed(buckets, height);
    assert forall|i: int| 0 <= i < part.len() implies (#[trigger] part[i]).message.sequence
        <= watermark(buckets) by {
        assert(all_updates(buckets).contains(part[i]));
        let k = all_updates(buckets).index_of(part[i]);
        assert(all_updates(buckets)[k].message.sequence <= watermark(buckets));
    }
}

/// A replay takes its updates from the window, in their order.
proof fn lemma_replayed_bounds(buckets: Seq<BucketView>, height: u32)
    requires
        increasing(all_updates(buckets)),
    ensures
        increasing(replayed(buckets, height)),
        forall|i: int|
            0 <= i < replayed(buckets, height).len() ==> all_updates(buckets).contains(
                #[trigger] replayed(buckets, height)[i],
            ),
    decreases buckets.len(),
{
    if buckets.len() > 0 {
        let rest = buckets.drop_last();
        let last = buckets.last().updates;
        let all = all_updates(buckets);
        let before = all_updates(rest);
        assert forall|i: int, j: int| 0 <= i < j < before.len() implies (
        #[trigger] before[i]).message.sequence < (#[trigger] before[j]).message.sequence by {
            assert(all[i] == before[i] && all[j] == before[j]);
        }
        lemma_replayed_bounds(rest, height);
        let earlier = replayed(rest, height);
        let now = replayed(buckets, height);
        assert forall|i: int| 0 <= i < now.len() implies all.contains(#[trigger] now[i]) by {
            if i < earlier.len() {
                assert(before.contains(earlier[i]));
                let k = before.index_of(earlier[i]);
                assert(all[k] == now[i]);
            } else {
                assert(all[before.len() + (i - earlier.len())] == now[i]);
            }
        }
        assert forall|i: int, j: int| 0 <= i < j < now.len() implies (
        #[trigger] now[i]).message.sequence < (#[trigger] now[j]).message.sequence by {
            if j < earlier.len() {
                assert(earlier[i].message.sequence < earlier[j].message.sequence);
            } else {
                let at = before.len() + (j - earlier.len());
                assert(all[at] == now[j]);
                if i < earlier.len() {
                    assert(before.contains(earlier[i]));
                    let k = before.index_of(earlier[i]);
                    assert(all[k] == now[i]);
                } else {
                    assert(all[before.len() + (i - earlier.len())] == now[i]);
                }
            }
        }
    }
}

/// An empty window exceeds no bound.
proof fn lemma_empty_window(limits: ReplayLimits, now: u128)
    ensures
        eviction_reason(limits, Seq::<BucketView>::empty(), now) is None,
{
    let none = Seq::<BucketView>::empty();
    assert(heights(none) =~= Seq::<u32>::empty());
    assert(heights(none).to_set() =~= Set::<u32>::empty());
}

} // verus!
