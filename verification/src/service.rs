//! What the server answers.

use crate::auth::{
    acquired, is_authorized, is_unauthenticated, limit_message, stream_count, subscriber_name,
    SubscriptionGuard, SubscriptionTracker, TokenAuth,
};
use crate::config::{same_limits, Config, FilterLimits};
use crate::filter::{compiles, request_error, EventFilter};
use crate::metadata::metadata_contents;
use crate::proto::{
    GetVersionResponse, PongResponse, SubscribeReplayInfoResponse, SubscribeRequest,
    SubscribeUpdate,
};
use crate::replay::{
    batch_height, byte_total, distinct_heights, event_total, evicted_height, evicted_through_after,
    evicted_through_after_push, evictions_after, evictions_after_push, filled, heights,
    highest_height, law_evicted_height_is_refused, law_eviction_keeps_age,
    law_first_available_height_is_lowest, law_first_available_height_is_replayed,
    law_height_evicted_by_publishing_is_refused, law_latest_height_is_highest,
    law_publishing_keeps_age, lowest_height, no_evictions, none_expired, published_height, pushed,
    replayed, scoped, snapshot_outcome, surviving, timely, watermark, BucketView, Evictions,
    Published, PublishedUpdate, ReplayBuffer, ReplayLimits, ReplaySnapshot,
};
use crate::session::{Session, FIRST_PING_ID};
use crate::status::{Code, Status};
use crate::text::text_view;
use crate::wire::capped;
use std::sync::Arc;
use tonic::metadata::MetadataMap;
use vstd::prelude::*;

verus! {

/// The bounds of the replay window that a configuration asks for.
pub open spec fn configured_limits(config: Config) -> ReplayLimits {
    ReplayLimits {
        height_capacity: config.replay_stored_blocks,
        event_capacity: config.replay_max_events,
        byte_capacity: config.replay_max_bytes,
        max_age: match config.replay_max_age_seconds {
            Some(seconds) => Some((seconds * 1_000_000_000) as u128),
            None => None,
        },
    }
}

/// Whether published updates are measured updates, in their order.
pub open spec fn publishes(published: Seq<Published>, updates: Seq<SubscribeUpdate>) -> bool {
    &&& published.len() == updates.len()
    &&& forall|i: int|
        0 <= i < updates.len() ==> {
            &&& (#[trigger] published[i]).message == updates[i]
            &&& published[i].encoded_len == capped(updates[i].spec_encoded_len())
        }
}

/// What the server and the plugin share: the replay window.
pub struct SharedState {
    replay: ReplayBuffer,
    client_channel_capacity: usize,
}

impl View for SharedState {
    type V = Seq<BucketView>;

    closed spec fn view(&self) -> Seq<BucketView> {
        self.replay@
    }
}

impl SharedState {
    /// The bounds of the replay window.
    pub closed spec fn spec_limits(self) -> ReplayLimits {
        self.replay.spec_limits()
    }

    /// The capacity of the outbound queue of each subscriber.
    pub closed spec fn spec_capacity(self) -> usize {
        self.client_channel_capacity
    }

    /// What left the replay window so far.
    pub closed spec fn spec_evictions(self) -> Evictions {
        self.replay.spec_evictions()
    }

    /// The highest height that ever left the replay window.
    pub closed spec fn spec_evicted_through(self) -> Option<u32> {
        self.replay.spec_evicted_through()
    }

    /// When the clock of the replay window was last read.
    pub closed spec fn spec_time(self) -> u128 {
        self.replay.spec_time()
    }

    /// Whether the replay window is well formed, and its buckets entered one after the other and
    /// had not outlived the allowed age when the clock was last read.
    pub closed spec fn well_formed(self) -> bool {
        &&& self.replay.well_formed()
        &&& timely(self@, self.spec_time())
        &&& none_expired(self@, self.spec_limits(), self.spec_time())
    }

    /// Whether the bounds and the capacity are the same.
    pub open spec fn same_settings(self, other: Self) -> bool {
        &&& self.spec_limits() == other.spec_limits()
        &&& self.spec_capacity() == other.spec_capacity()
    }

    /// Whether this is an earlier state after an eviction at the time of the clock.
    pub open spec fn settled(self, before: Self) -> bool {
        &&& self.same_settings(before)
        &&& self.spec_time() >= before.spec_time()
        &&& self@ == surviving(before.spec_limits(), before@, self.spec_time())
        &&& self.spec_evictions() == evictions_after(
            before.spec_evictions(),
            before.spec_limits(),
            before@,
            self.spec_time(),
        )
        &&& self.spec_evicted_through() == evicted_through_after(
            before.spec_evicted_through(),
            before.spec_limits(),
            before@,
            self.spec_time(),
        )
    }

    /// Whether this is an earlier state after updates were published at the time of the clock.
    pub open spec fn received(self, before: Self, updates: Seq<Published>) -> bool {
        &&& self.same_settings(before)
        &&& self.spec_time() >= before.spec_time()
        &&& self@ == pushed(before.spec_limits(), before@, updates, self.spec_time())
        &&& self.spec_evictions() == evictions_after_push(
            before.spec_evictions(),
            before.spec_limits(),
            before@,
            updates,
            self.spec_time(),
        )
        &&& self.spec_evicted_through() == evicted_through_after_push(
            before.spec_evicted_through(),
            before.spec_limits(),
            before@,
            updates,
            self.spec_time(),
        )
    }

    /// Creates the shared state for a configuration.
    pub fn new(config: &Config) -> (state: Self)
        ensures
            state.well_formed(),
            state.spec_limits() == configured_limits(*config),
            state.spec_capacity() == config.client_channel_capacity,
            state@ == Seq::<BucketView>::empty(),
            state.spec_evictions() == no_evictions(),
            state.spec_evicted_through() is None,
            state.spec_time() == 0,
    {
        let max_age: Option<u128> = match config.replay_max_age_seconds {
            Some(seconds) => Some(seconds as u128 * 1_000_000_000),
            None => None,
        };
        SharedState {
            replay: ReplayBuffer::new(
                ReplayLimits {
                    height_capacity: config.replay_stored_blocks,
                    event_capacity: config.replay_max_events,
                    byte_capacity: config.replay_max_bytes,
                    max_age,
                },
            ),
            client_channel_capacity: config.client_channel_capacity,
        }
    }

    /// The capacity of the outbound queue of each subscriber.
    pub fn client_channel_capacity(&self) -> (capacity: usize)
        ensures
            capacity == self.spec_capacity(),
    {
        self.client_channel_capacity
    }

    /// Measures the updates of one event, retains them for replay, and returns them for live
    /// delivery, in their order.
    pub fn publish_batch(&mut self, updates: Vec<SubscribeUpdate>) -> (published: Vec<Published>)
        requires
            old(self).well_formed(),
        ensures
            final(self).well_formed(),
            publishes(published@, updates@),
            final(self).received(*old(self), published@),
    {
        let ghost all = updates@;
        let mut published: Vec<Published> = Vec::new();
        for update in iter: updates
            invariant
                iter.seq() == all,
                published@.len() == iter.index(),
                forall|i: int|
                    0 <= i < published@.len() ==> {
                        &&& (#[trigger] published@[i]).message == all[i]
                        &&& published@[i].encoded_len == capped(all[i].spec_encoded_len())
                    },
        {
            published.push(Arc::new(PublishedUpdate::new(update)));
        }
        let ghost before = *self;
        self.replay.push_batch(published.as_slice());
        proof {
            if before.spec_limits().height_capacity == 0 {
                before.replay.law_bounds_are_kept();
                lemma_no_heights(before@);
            } else {
                law_publishing_keeps_age(
                    before.spec_limits(),
                    before@,
                    published@,
                    before.spec_time(),
                    self.spec_time(),
                );
            }
        }
        published
    }

    /// What a new subscriber gets of the replay window.
    pub fn subscribe(&mut self, from_height: Option<u32>) -> (result: Result<
        ReplaySnapshot,
        Status,
    >)
        requires
            old(self).well_formed(),
        ensures
            final(self).well_formed(),
            final(self).settled(*old(self)),
            snapshot_outcome(
                result,
                final(self)@,
                final(self).spec_evicted_through(),
                from_height,
            ),
    {
        let ghost before = *self;
        let result = self.replay.snapshot(from_height);
        proof {
            law_eviction_keeps_age(
                before.spec_limits(),
                before@,
                before.spec_time(),
                self.spec_time(),
            );
        }
        result
    }

    /// The heights that the replay window holds.
    pub fn replay_info(&mut self) -> (info: SubscribeReplayInfoResponse)
        requires
            old(self).well_formed(),
        ensures
            final(self).well_formed(),
            final(self).settled(*old(self)),
            replay_info_of(info, final(self)@, final(self).spec_limits()),
    {
        let ghost before = *self;
        let now: u128 = self.replay.now();
        self.replay.evict(now);
        proof {
            law_eviction_keeps_age(
                before.spec_limits(),
                before@,
                before.spec_time(),
                self.spec_time(),
            );
        }
        let capacity: usize = self.replay.limits().height_capacity;
        SubscribeReplayInfoResponse {
            first_available_height: self.replay.first_available_height(),
            latest_height: self.replay.latest_height(),
            retained_block_capacity: match u32::try_from(capacity) {
                Ok(capacity) => capacity,
                Err(_) => u32::MAX,
            },
        }
    }

    /// The replay window.
    pub fn replay(&self) -> (replay: &ReplayBuffer)
        ensures
            replay@ == self@,
            replay.spec_limits() == self.spec_limits(),
            replay.spec_evictions() == self.spec_evictions(),
            replay.spec_evicted_through() == self.spec_evicted_through(),
            replay.spec_time() == self.spec_time(),
            self.well_formed() ==> replay.well_formed(),
    {
        &self.replay
    }
}

impl SharedState {
    /// The replay window always keeps its bounds on heights, updates and bytes.
    pub proof fn law_bounds_are_kept(&self)
        requires
            self.well_formed(),
        ensures
            distinct_heights(self@) <= self.spec_limits().height_capacity,
            event_total(self@) <= self.spec_limits().event_capacity,
            byte_total(self@) <= self.spec_limits().byte_capacity,
    {
        self.replay.law_bounds_are_kept();
    }

    /// No bucket of the replay window had outlived the allowed age when the clock was last read.
    pub proof fn law_age_is_kept(&self)
        requires
            self.well_formed(),
        ensures
            none_expired(self@, self.spec_limits(), self.spec_time()),
    {
    }

    /// Only block-scoped updates are retained, each in a bucket of its own height, and no bucket
    /// is empty.
    pub proof fn law_buckets_are_scoped(&self)
        requires
            self.well_formed(),
        ensures
            scoped(self@),
            filled(self@),
    {
        self.replay.law_buckets_are_scoped();
    }
}

impl SharedState {
    /// When an eviction empties the replay window, a subscriber who asks for a height that left
    /// it, then or earlier, is refused.
    pub proof fn law_evicted_height_is_refused(
        &self,
        before: SharedState,
        requested: u32,
        result: Result<ReplaySnapshot, Status>,
    )
        requires
            self.settled(before),
            self@.len() == 0,
            heights(before@).contains(requested) || before.spec_evicted_through() is Some
                && requested <= before.spec_evicted_through()->0,
            snapshot_outcome(result, self@, self.spec_evicted_through(), Some(requested)),
        ensures
            result matches Err(status) && status.code == Code::OutOfRange,
    {
        law_evicted_height_is_refused(
            before.spec_limits(),
            before@,
            before.spec_evicted_through(),
            self.spec_time(),
            requested,
            result,
        );
    }

    /// When publishing empties the replay window, a subscriber who asks for a height that left
    /// it, or for the height that was published, is refused.
    pub proof fn law_height_evicted_by_publishing_is_refused(
        &self,
        before: SharedState,
        updates: Seq<Published>,
        requested: u32,
        result: Result<ReplaySnapshot, Status>,
    )
        requires
            before.spec_limits().height_capacity > 0,
            self.received(before, updates),
            self@.len() == 0,
            heights(before@).contains(requested) || batch_height(updates) == Some(requested)
                || before.spec_evicted_through() is Some && requested
                <= before.spec_evicted_through()->0,
            snapshot_outcome(result, self@, self.spec_evicted_through(), Some(requested)),
        ensures
            result matches Err(status) && status.code == Code::OutOfRange,
    {
        law_height_evicted_by_publishing_is_refused(
            before.spec_limits(),
            before@,
            updates,
            before.spec_evicted_through(),
            self.spec_time(),
            requested,
            result,
        );
    }

    /// What the server says of the replay window is what a subscriber finds there, as long as
    /// nothing is published and nothing expires in between: heights below the first available one
    /// are refused, and a replay from it hands out an update of it. The latest height is the
    /// greatest one retained. There are no heights only when nothing is retained.
    pub proof fn law_replay_info_tells_what_is_available(
        &self,
        info: SubscribeReplayInfoResponse,
        later: SharedState,
        requested: u32,
        result: Result<ReplaySnapshot, Status>,
    )
        requires
            self.well_formed(),
            replay_info_of(info, self@, self.spec_limits()),
            later@ == self@,
            snapshot_outcome(result, later@, later.spec_evicted_through(), Some(requested)),
        ensures
            info.first_available_height is None <==> self@.len() == 0,
            info.latest_height is None <==> self@.len() == 0,
            info.retained_block_capacity == (if self.spec_limits().height_capacity > u32::MAX {
                u32::MAX as usize
            } else {
                self.spec_limits().height_capacity
            }),
            info.first_available_height matches Some(first) ==> {
                &&& requested < first ==> {
                    &&& result matches Err(status)
                    &&& status.code == Code::OutOfRange
                }
                &&& requested == first ==> {
                    &&& result matches Ok(snapshot)
                    &&& exists|k: int|
                        0 <= k < snapshot.updates@.len() && published_height(
                            #[trigger] snapshot.updates@[k],
                        ) == Some(first)
                }
                &&& info.latest_height matches Some(latest) && latest >= first && heights(
                    self@,
                ).contains(latest)
                &&& forall|i: int|
                    0 <= i < self@.len() ==> (#[trigger] self@[i]).height
                        <= info.latest_height->0
            },
    {
        self.law_buckets_are_scoped();
        law_first_available_height_is_lowest(self@);
        law_latest_height_is_highest(self@);
        if let Some(first) = info.first_available_height {
            law_first_available_height_is_replayed(self@);
            let i = heights(self@).index_of(first);
            assert(self@[i].height == first);
        }
    }
}

/// A window without heights has no buckets.
proof fn lemma_no_heights(buckets: Seq<BucketView>)
    requires
        distinct_heights(buckets) == 0,
    ensures
        buckets.len() == 0,
{
    if buckets.len() > 0 {
        let all = heights(buckets);
        assert(all[0] == buckets[0].height);
        assert(all.to_set().contains(all[0]));
        vstd::seq_lib::seq_to_set_is_finite(all);
        assert(all.to_set().len() > 0);
    }
}

/// Whether this describes a replay window. A capacity that does not fit is cut off.
pub open spec fn replay_info_of(
    info: SubscribeReplayInfoResponse,
    buckets: Seq<BucketView>,
    limits: ReplayLimits,
) -> bool {
    &&& info.first_available_height == lowest_height(buckets)
    &&& info.latest_height == highest_height(buckets)
    &&& info.retained_block_capacity == (if limits.height_capacity > u32::MAX {
        u32::MAX as usize
    } else {
        limits.height_capacity
    })
}

/// The versions that the server reports.
#[derive(Clone, Debug)]
pub struct ServerVersion {
    pub version: String,
    pub interface_version: u32,
    pub event_schema_version: u32,
}

/// The answers of the server to its callers.
pub struct GrpcService {
    auth: TokenAuth,
    subscriptions: SubscriptionTracker,
    filter_limits: Arc<FilterLimits>,
    subscription_ping_interval_seconds: Option<u64>,
}

/// A subscription that is about to start: the updates to replay, and the session behind them.
pub struct OpenedSession {
    pub replay: Vec<Published>,
    pub session: Session,
}

/// The outcome of a subscriber's first request.
pub open spec fn open_outcome(
    result: Result<OpenedSession, Status>,
    initial: Option<SubscribeRequest>,
    limits: FilterLimits,
    buckets: Seq<BucketView>,
    through: Option<u32>,
) -> bool {
    match initial {
        None => {
            &&& result matches Err(status)
            &&& status.code == Code::InvalidArgument
            &&& status.message@ == "the first subscribe request is required"@
        },
        Some(request) => match request_error(request, limits) {
            Some(error) => {
                &&& result matches Err(status)
                &&& status.code == error.spec_code()
                &&& status.message@ == error.spec_message()
            },
            None => match result {
                Ok(opened) => {
                    &&& !evicted_height(buckets, through, request.from_height)
                    &&& opened.session.well_formed()
                    &&& opened.session.spec_limits() == limits
                    &&& compiles(opened.session@.filter, request)
                    &&& opened.session@.watermark == watermark(buckets)
                    &&& opened.session@.ping_id == FIRST_PING_ID
                    &&& opened.replay@ == (match request.from_height {
                        Some(height) => replayed(buckets, height),
                        None => Seq::empty(),
                    })
                },
                Err(status) => {
                    &&& evicted_height(buckets, through, request.from_height)
                    &&& status.code == Code::OutOfRange
                    &&& status.message@ == crate::replay::evicted_message(
                        request.from_height->0,
                        lowest_height(buckets),
                    )
                },
            },
        },
    }
}

impl GrpcService {
    /// The token that requests have to carry, if any.
    pub closed spec fn token(self) -> Option<Seq<char>> {
        self.auth.token()
    }

    /// The number of live streams of each subscriber.
    pub closed spec fn streams(self) -> Map<Seq<char>, usize> {
        self.subscriptions@
    }

    /// The number of streams that a subscriber may have.
    pub closed spec fn stream_limit(self) -> usize {
        self.subscriptions.spec_limit()
    }

    /// Whether subscribers over the limit are turned away.
    pub closed spec fn enforces_limit(self) -> bool {
        self.subscriptions.spec_enforce()
    }

    /// The limits on requests.
    pub closed spec fn spec_filter_limits(self) -> FilterLimits {
        *self.filter_limits
    }

    /// The interval of the keepalives, if there are any.
    pub closed spec fn spec_ping_interval(self) -> Option<u64> {
        self.subscription_ping_interval_seconds
    }

    /// Whether the stream counts are well formed.
    pub closed spec fn well_formed(self) -> bool {
        self.subscriptions.well_formed()
    }

    /// Whether everything but the stream counts is the same.
    pub open spec fn same_settings(self, other: Self) -> bool {
        &&& self.token() == other.token()
        &&& self.stream_limit() == other.stream_limit()
        &&& self.enforces_limit() == other.enforces_limit()
        &&& self.spec_filter_limits() == other.spec_filter_limits()
        &&& self.spec_ping_interval() == other.spec_ping_interval()
    }

    /// Where the limit is enforced, no subscriber ever has more live streams than it.
    pub proof fn law_limit_is_kept(&self, subscriber: Seq<char>)
        requires
            self.well_formed(),
            self.enforces_limit(),
        ensures
            stream_count(self.streams(), subscriber) <= self.stream_limit(),
    {
        self.subscriptions.law_limit_is_kept(subscriber);
    }

    /// Creates the service for a configuration.
    pub fn new(config: &Config) -> (service: Self)
        requires
            config.subscription_limit > 0,
        ensures
            service.well_formed(),
            service.token() == text_view(config.x_token),
            service.streams() == Map::<Seq<char>, usize>::empty(),
            service.stream_limit() == config.subscription_limit,
            service.enforces_limit() == config.subscription_limit_enforce,
            same_limits(service.spec_filter_limits(), config.filter_limits),
            service.spec_ping_interval() == config.subscription_ping_interval_seconds,
    {
        GrpcService {
            auth: TokenAuth::new(config.x_token.clone()),
            subscriptions: SubscriptionTracker::new(
                config.subscription_limit,
                config.subscription_limit_enforce,
            ),
            filter_limits: Arc::new(config.filter_limits.clone()),
            subscription_ping_interval_seconds: config.subscription_ping_interval_seconds,
        }
    }

    /// The interval of the keepalives, in seconds, if there are any.
    pub fn ping_interval_seconds(&self) -> (interval: Option<u64>)
        ensures
            interval == self.spec_ping_interval(),
    {
        self.subscription_ping_interval_seconds
    }

    /// Lets a subscriber in: checks the token, and counts one more stream.
    pub fn begin(&mut self, metadata: &MetadataMap, remote_ip: Option<String>) -> (result: Result<
        SubscriptionGuard,
        Status,
    >)
        requires
            old(self).well_formed(),
        ensures
            final(self).well_formed(),
            final(self).same_settings(*old(self)),
            ({
                let contents = metadata_contents(*metadata);
                let subscriber = subscriber_name(contents, text_view(remote_ip));
                let reached = stream_count(old(self).streams(), subscriber) >= old(
                    self,
                ).stream_limit();
                if !is_authorized(old(self).token(), contents) {
                    &&& result matches Err(status)
                    &&& is_unauthenticated(status)
                    &&& final(self).streams() == old(self).streams()
                } else if reached && old(self).enforces_limit() {
                    &&& result matches Err(status)
                    &&& status.code == Code::ResourceExhausted
                    &&& status.message@ == limit_message(subscriber, old(self).stream_limit())
                    &&& final(self).streams() == old(self).streams()
                } else {
                    &&& result matches Ok(guard)
                    &&& guard.subscriber() == subscriber
                    &&& guard.over_limit() == reached
                    &&& final(self).streams() == acquired(old(self).streams(), subscriber)
                }
            }),
    {
        match self.auth.authorize(metadata) {
            Ok(_) => self.subscriptions.acquire(metadata, remote_ip),
            Err(status) => Err(status),
        }
    }

    /// Gives a subscriber's stream back.
    pub fn release(&mut self, guard: SubscriptionGuard)
        requires
            old(self).well_formed(),
        ensures
            final(self).well_formed(),
            final(self).same_settings(*old(self)),
            final(self).streams() == crate::auth::released(
                old(self).streams(),
                guard.subscriber(),
            ),
    {
        self.subscriptions.release(guard);
    }

    /// Opens a subscription with the subscriber's first request, if there is one.
    ///
    /// Live updates have to be collected from before this call on: the watermark of the session
    /// then removes the overlap with the replay without leaving a gap.
    pub fn open(&self, state: &mut SharedState, initial: Option<SubscribeRequest>) -> (result: Result<
        OpenedSession,
        Status,
    >)
        requires
            old(state).well_formed(),
        ensures
            final(state).well_formed(),
            if initial is None || request_error(initial->0, self.spec_filter_limits()) is Some {
                *final(state) == *old(state)
            } else {
                final(state).settled(*old(state))
            },
            open_outcome(
                result,
                initial,
                self.spec_filter_limits(),
                final(state)@,
                final(state).spec_evicted_through(),
            ),
    {
        let initial = match initial {
            Some(initial) => initial,
            None => {
                return Err(
                    Status::new(
                        Code::InvalidArgument,
                        "the first subscribe request is required".to_owned(),
                    ),
                );
            },
        };
        let filter = match EventFilter::new(&initial, &self.filter_limits) {
            Ok(filter) => filter,
            Err(status) => {
                return Err(status);
            },
        };
        match state.subscribe(initial.from_height) {
            Ok(snapshot) => Ok(
                OpenedSession {
                    replay: snapshot.updates,
                    session: Session::new(filter, self.filter_limits.clone(), snapshot.watermark),
                },
            ),
            Err(status) => Err(status),
        }
    }

    /// Answers a question about the replay window.
    pub fn subscribe_replay_info(&self, state: &mut SharedState, metadata: &MetadataMap) -> (result:
        Result<SubscribeReplayInfoResponse, Status>)
        requires
            old(state).well_formed(),
        ensures
            final(state).well_formed(),
            match result {
                Ok(info) => {
                    &&& is_authorized(self.token(), metadata_contents(*metadata))
                    &&& final(state).settled(*old(state))
                    &&& replay_info_of(info, final(state)@, final(state).spec_limits())
                },
                Err(status) => {
                    &&& !is_authorized(self.token(), metadata_contents(*metadata))
                    &&& is_unauthenticated(status)
                    &&& *final(state) == *old(state)
                },
            },
    {
        match self.auth.authorize(metadata) {
            Ok(_) => Ok(state.replay_info()),
            Err(status) => Err(status),
        }
    }

    /// Answers a unary ping.
    pub fn ping(&self, metadata: &MetadataMap, count: i32) -> (result: Result<PongResponse, Status>)
        ensures
            match result {
                Ok(pong) => {
                    &&& is_authorized(self.token(), metadata_contents(*metadata))
                    &&& pong.count == count
                },
                Err(status) => {
                    &&& !is_authorized(self.token(), metadata_contents(*metadata))
                    &&& is_unauthenticated(status)
                },
            },
    {
        match self.auth.authorize(metadata) {
            Ok(_) => Ok(PongResponse { count }),
            Err(status) => Err(status),
        }
    }

    /// Answers a question about versions.
    pub fn get_version(&self, metadata: &MetadataMap, server: &ServerVersion) -> (result: Result<
        GetVersionResponse,
        Status,
    >)
        ensures
            match result {
                Ok(response) => {
                    &&& is_authorized(self.token(), metadata_contents(*metadata))
                    &&& response.version == server.version
                    &&& response.interface_version == server.interface_version
                    &&& response.event_schema_version == server.event_schema_version
                },
                Err(status) => {
                    &&& !is_authorized(self.token(), metadata_contents(*metadata))
                    &&& is_unauthenticated(status)
                },
            },
    {
        match self.auth.authorize(metadata) {
            Ok(_) => Ok(
                GetVersionResponse {
                    version: server.version.clone(),
                    interface_version: server.interface_version,
                    event_schema_version: server.event_schema_version,
                },
            ),
            Err(status) => Err(status),
        }
    }
}

} // verus!
