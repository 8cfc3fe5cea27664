//! How updates are numbered, published and handed to new subscribers.

use crate::config::Config;
use crate::equality::{same_update, same_updates};
use crate::event::{
    encode_event, event_outcome, law_parallel_encoding_equals_sequential, EncodingOptions,
    UpdateMetadata,
};
use crate::filter::{law_request_order_does_not_matter, requested_filters, EventFilter, FilterMatch};
use crate::laws::replay::{
    has_room, heights_of, is_event_at, lemma_replayed_heights, lemma_room, lemma_whole_batch,
};
use crate::laws::scope::at_height;
use crate::laws::sessions::follows_filter;
use crate::node::{EventEnvelope, PluginError};
use crate::plugin::{configured_options, numbered, published_as, EventSubscriptions, GrpcPlugin};
use crate::proto::{SubscribeReplayInfoResponse, SubscribeRequest, SubscribeUpdate};
use crate::replay::{
    highest_height, law_eviction_is_minimal, law_first_available_height_is_lowest,
    law_latest_height_is_highest, surviving, BucketView, Published, ReplayBuffer, ReplayLimits,
    ReplaySnapshot,
};
use crate::service::{publishes, GrpcService, OpenedSession, SharedState};
use crate::session::{Session, SessionAction, SessionEvent};
use crate::status::{Code, Status};
use vstd::prelude::*;

verus! {

/// Whether updates were published as they are, but for their sequence numbers, which follow one
/// another behind the last one.
pub open spec fn follow_in_sequence(
    published: Seq<Published>,
    updates: Seq<SubscribeUpdate>,
    last: int,
) -> bool {
    &&& published.len() == updates.len()
    &&& forall|i: int|
        0 <= i < updates.len() ==> {
            &&& (#[trigger] published[i]).message.sequence == last + 1 + i
            &&& published[i].message.schema_version == updates[i].schema_version
            &&& published[i].message.session_id == updates[i].session_id
            &&& published[i].message.observed_at == updates[i].observed_at
            &&& published[i].message.event_type == updates[i].event_type
            &&& published[i].message.filters == updates[i].filters
            &&& published[i].message.source_sequence == updates[i].source_sequence
            &&& published[i].message.update == updates[i].update
        }
}

proof fn lemma_follow(published: Seq<Published>, updates: Seq<SubscribeUpdate>, last: u64)
    requires
        published_as(published, updates, last),
        last + updates.len() <= u64::MAX,
    ensures
        follow_in_sequence(published, updates, last as int),
{
    let messages = choose|messages: Seq<SubscribeUpdate>|
        numbered(messages, updates, last) && #[trigger] publishes(published, messages);
    assert forall|i: int| 0 <= i < updates.len() implies (#[trigger] published[i]).message == (
    SubscribeUpdate { sequence: (last + 1 + i) as u64, ..updates[i] }) by {
        assert(messages[i] == (SubscribeUpdate { sequence: (last + 1 + i) as u64, ..updates[i] }));
    }
}

/// The numbers of a plugin start at one and go on from batch to batch, so that no two updates have
/// the same number and none is left out. Nothing else of an update is changed.
pub proof fn law_numbers_go_on_from_batch_to_batch(
    config: Config,
    subscriptions: EventSubscriptions,
    first: &mut GrpcPlugin,
    second: &mut GrpcPlugin,
    state: &mut SharedState,
    later: &mut SharedState,
    one: Vec<SubscribeUpdate>,
    other: Vec<SubscribeUpdate>,
    one_result: Result<Vec<Published>, PluginError>,
    other_result: Result<Vec<Published>, PluginError>,
)
    requires
        call_ensures(GrpcPlugin::new, (config, subscriptions), *first),
        state.well_formed(),
        call_ensures(GrpcPlugin::publish, (first, state, one), one_result),
        *second == *final(first),
        *later == *final(state),
        call_ensures(GrpcPlugin::publish, (second, later, other), other_result),
        one@.len() + other@.len() <= u64::MAX,
    ensures
        one_result is Ok,
        follow_in_sequence(one_result->Ok_0@, one@, 0),
        other_result is Ok,
        follow_in_sequence(other_result->Ok_0@, other@, one@.len() as int),
{
    lemma_follow(one_result->Ok_0@, one@, 0);
    lemma_follow(other_result->Ok_0@, other@, one@.len() as u64);
}

/// Whatever was published before, the numbers of a batch follow those of the batch before it. When
/// the numbers run out nothing is published, and nothing will be.
pub proof fn law_numbers_are_never_used_again(
    first: &mut GrpcPlugin,
    second: &mut GrpcPlugin,
    state: &mut SharedState,
    later: &mut SharedState,
    one: Vec<SubscribeUpdate>,
    other: Vec<SubscribeUpdate>,
    one_result: Result<Vec<Published>, PluginError>,
    other_result: Result<Vec<Published>, PluginError>,
)
    requires
        state.well_formed(),
        call_ensures(GrpcPlugin::publish, (first, state, one), one_result),
        *second == *final(first),
        *later == *final(state),
        call_ensures(GrpcPlugin::publish, (second, later, other), other_result),
        one@.len() > 0,
        other@.len() > 0,
    ensures
        match one_result {
            Ok(published) => {
                let last = published@.last().message.sequence;
                match other_result {
                    Ok(following) => follow_in_sequence(following@, other@, last as int),
                    Err(error) => {
                        &&& last + other@.len() > u64::MAX
                        &&& error is SequenceExhausted
                        &&& *final(later) == *old(later)
                    },
                }
            },
            Err(error) => {
                &&& error is SequenceExhausted
                &&& *final(state) == *old(state)
                &&& other_result is Err
            },
        },
{
    if one_result is Ok {
        lemma_follow(one_result->Ok_0@, one@, first.last_sequence());
        if other_result is Ok {
            lemma_follow(other_result->Ok_0@, other@, second.last_sequence());
        }
    }
}

/// An event is published as it is encoded, with the updates that the configuration asks for. What
/// cannot be encoded is not published, and the reason is reported.
pub proof fn law_events_are_published_as_encoded(
    config: Config,
    subscriptions: EventSubscriptions,
    plugin: &mut GrpcPlugin,
    state: &mut SharedState,
    event: EventEnvelope,
    encoded: Result<Vec<SubscribeUpdate>, PluginError>,
    result: Result<Vec<Published>, PluginError>,
)
    requires
        event.well_formed(),
        state.well_formed(),
        call_ensures(
            encode_event,
            (
                &event,
                EncodingOptions {
                    transaction_updates: config.transaction_updates,
                    utxo_updates: config.utxo_updates,
                    mempool_transaction_updates: config.mempool_transaction_updates,
                },
            ),
            encoded,
        ),
        encoded is Ok ==> encoded->Ok_0@.len() <= u64::MAX,
        call_ensures(GrpcPlugin::new, (config, subscriptions), *plugin),
        call_ensures(GrpcPlugin::on_event, (plugin, state, &event), result),
    ensures
        match encoded {
            Ok(updates) => {
                &&& result matches Ok(published)
                &&& published@.len() == updates@.len()
                &&& forall|i: int|
                    0 <= i < updates@.len() ==> {
                        &&& (#[trigger] published@[i]).message.sequence == 1 + i
                        &&& same_update(
                            (SubscribeUpdate { sequence: 0, ..published@[i].message }),
                            (SubscribeUpdate { sequence: 0, ..updates@[i] }),
                        )
                    }
            },
            Err(error) => {
                &&& result == Err::<Vec<Published>, PluginError>(error)
                &&& *final(state) == *old(state)
            },
        },
{
    let options = configured_options(config);
    let metadata = choose|metadata: UpdateMetadata|
        {
            &&& #[trigger] metadata.describes(event)
            &&& event_outcome(encoded, metadata, event, options)
        };
    match result {
        Ok(published) => {
            let (other_metadata, updates) = choose|
                other_metadata: UpdateMetadata,
                updates: Vec<SubscribeUpdate>,
            |
                {
                    &&& #[trigger] other_metadata.describes(event)
                    &&& #[trigger] event_outcome(
                        Ok::<Vec<SubscribeUpdate>, PluginError>(updates),
                        other_metadata,
                        event,
                        options,
                    )
                    &&& published_as(published@, updates@, 0)
                    &&& final(plugin).last_sequence() == 0 + updates@.len()
                };
            law_parallel_encoding_equals_sequential(
                Ok::<Vec<SubscribeUpdate>, PluginError>(updates),
                encoded,
                other_metadata,
                metadata,
                event,
                options,
            );
            let expected = encoded->Ok_0;
            lemma_follow(published@, updates@, 0);
            assert(same_updates(updates@, expected@));
            assert forall|i: int| 0 <= i < expected@.len() implies {
                &&& (#[trigger] published@[i]).message.sequence == 1 + i
                &&& same_update(
                    (SubscribeUpdate { sequence: 0, ..published@[i].message }),
                    (SubscribeUpdate { sequence: 0, ..expected@[i] }),
                )
            } by {
                assert(same_update(updates@[i], expected@[i]));
            }
        },
        Err(error) => {
            if final(plugin).last_sequence() == 0 && crate::event::first_error(
                error,
                event,
                options,
            ) {
                law_parallel_encoding_equals_sequential(
                    Err::<Vec<SubscribeUpdate>, PluginError>(error),
                    encoded,
                    metadata,
                    metadata,
                    event,
                    options,
                );
            } else {
                let (other_metadata, updates) = choose|
                    other_metadata: UpdateMetadata,
                    updates: Vec<SubscribeUpdate>,
                |
                    {
                        &&& #[trigger] other_metadata.describes(event)
                        &&& #[trigger] event_outcome(
                            Ok::<Vec<SubscribeUpdate>, PluginError>(updates),
                            other_metadata,
                            event,
                            options,
                        )
                        &&& 0 + updates@.len() > u64::MAX
                    };
                law_parallel_encoding_equals_sequential(
                    Ok::<Vec<SubscribeUpdate>, PluginError>(updates),
                    encoded,
                    other_metadata,
                    metadata,
                    event,
                    options,
                );
            }
        },
    }
}

/// With no bound on the age, a subscriber who asks for a height gets everything that was published
/// for it as long as the replay window has room, after what it would have got before.
pub proof fn law_subscribers_get_what_was_published(
    before: &mut SharedState,
    publishing: &mut SharedState,
    after: &mut SharedState,
    window: &ReplayBuffer,
    limits: ReplayLimits,
    counts: (usize, usize, usize),
    lowest: Option<u32>,
    updates: Vec<SubscribeUpdate>,
    published: Vec<Published>,
    height: u32,
    from: u32,
    previous: ReplaySnapshot,
    result: Result<ReplaySnapshot, Status>,
)
    requires
        before.well_formed(),
        call_ensures(SharedState::subscribe, (before, Some(from)), Ok(previous)),
        *publishing == *final(before),
        call_ensures(SharedState::replay, (&*publishing,), window),
        call_ensures(ReplayBuffer::limits, (window,), limits),
        limits.max_age is None,
        call_ensures(ReplayBuffer::height_count, (window,), counts.0),
        call_ensures(ReplayBuffer::event_count, (window,), counts.1),
        call_ensures(ReplayBuffer::encoded_bytes, (window,), counts.2),
        call_ensures(ReplayBuffer::first_available_height, (window,), lowest),
        forall|i: int| 0 <= i < updates@.len() ==> at_height(#[trigger] updates@[i], height),
        call_ensures(SharedState::publish_batch, (publishing, updates), published),
        has_room(limits, counts.0, counts.1, counts.2, published@),
        *after == *final(publishing),
        call_ensures(SharedState::subscribe, (after, Some(from)), result),
        height == from || lowest is Some && height > from,
    ensures
        published@.len() == updates@.len(),
        forall|i: int|
            0 <= i < updates@.len() ==> (#[trigger] published@[i]).message == updates@[i],
        result is Ok,
        result->Ok_0.updates@ == previous.updates@ + published@,
{
    let now = final(publishing).spec_time();
    let later = final(after).spec_time();
    assert forall|i: int| 0 <= i < published@.len() implies at_height(
        (#[trigger] published@[i]).message,
        height,
    ) by {
        assert(at_height(updates@[i], height));
    }
    lemma_whole_batch(published@, height);
    assert(is_event_at(published@, height));
    lemma_room(limits, publishing@, published@, height, from, now, later);
    law_eviction_is_minimal(limits, before@, final(before).spec_time());
    let empty = Seq::<BucketView>::empty();
    assert(after@.take(0) =~= empty);
    assert(highest_height(empty) is None);
}

/// What the server says of the replay window is what a subscriber finds there, with no bound on the
/// age and nothing published in between: a height is refused if it is lower than the first
/// available one, and a replay from that one goes up to the latest one.
pub proof fn law_available_heights_are_told(
    asking: &mut SharedState,
    after: &mut SharedState,
    window: &ReplayBuffer,
    limits: ReplayLimits,
    info: SubscribeReplayInfoResponse,
    from: u32,
    result: Result<ReplaySnapshot, Status>,
)
    requires
        asking.well_formed(),
        call_ensures(SharedState::replay, (&*asking,), window),
        call_ensures(ReplayBuffer::limits, (window,), limits),
        limits.max_age is None,
        call_ensures(SharedState::replay_info, (asking,), info),
        *after == *final(asking),
        call_ensures(SharedState::subscribe, (after, Some(from)), result),
    ensures
        info.retained_block_capacity == (if limits.height_capacity <= u32::MAX {
            limits.height_capacity as int
        } else {
            u32::MAX as int
        }),
        info.first_available_height is Some <==> info.latest_height is Some,
        info.first_available_height matches Some(first) ==> {
            &&& result is Ok <==> from >= first
            &&& result matches Err(status) ==> status.code == Code::OutOfRange
            &&& from == first ==> {
                let found = heights_of(result->Ok_0.updates@);
                &&& found.contains(first)
                &&& found.contains(info.latest_height->0)
                &&& forall|height: u32| #[trigger]
                    found.contains(height) ==> first <= height <= info.latest_height->0
            }
        },
        info.first_available_height is None && result is Ok ==> result->Ok_0.updates@.len() == 0,
{
    let buckets = after@;
    after.law_buckets_are_scoped();
    law_eviction_is_minimal(limits, asking@, after.spec_time());
    assert(surviving(limits, buckets, final(after).spec_time()) == buckets);
    law_first_available_height_is_lowest(buckets);
    law_latest_height_is_highest(buckets);
    if info.first_available_height == Some(from) {
        lemma_replayed_heights(buckets, from);
        let found = heights_of(result->Ok_0.updates@);
        assert forall|height: u32| #[trigger] found.contains(height) implies from <= height
            <= info.latest_height->0 by {
            let k = crate::replay::heights(buckets).index_of(height);
            assert(buckets[k].height == height);
        }
    }
}

/// A first request is needed, and has to be valid. The subscription that it opens starts with the
/// replay from the height that it asks for. What is published is then delivered as its filters,
/// which have different names, select it, from behind the replay on.
pub proof fn law_first_request_opens_a_subscription(
    service: GrpcService,
    asking: &mut SharedState,
    opening: &mut SharedState,
    window: &ReplayBuffer,
    limits: ReplayLimits,
    initial: Option<SubscribeRequest>,
    snapshot: Result<ReplaySnapshot, Status>,
    compiled: Result<EventFilter, Status>,
    result: Result<OpenedSession, Status>,
    session: &mut Session,
    update: Published,
    found: Option<FilterMatch>,
    action: SessionAction,
)
    requires
        asking.well_formed(),
        *opening == *asking,
        call_ensures(SharedState::replay, (&*asking,), window),
        call_ensures(ReplayBuffer::limits, (window,), limits),
        limits.max_age is None,
        initial matches Some(request) ==> {
            &&& call_ensures(SharedState::subscribe, (asking, request.from_height), snapshot)
            &&& call_ensures(
                EventFilter::new,
                (&request, &service.spec_filter_limits()),
                compiled,
            )
            &&& forall|i: int, j: int|
                0 <= i < j < request.filters@.len() ==> (#[trigger] request.filters@[i]).0@ != (
                #[trigger] request.filters@[j]).0@
        },
        call_ensures(GrpcService::open, (&service, opening, initial), result),
        result matches Ok(opened) ==> {
            &&& *session == opened.session
            &&& call_ensures(EventFilter::matched, (&compiled->Ok_0, &update.message), found)
            &&& call_ensures(Session::step, (session, SessionEvent::Live(update)), action)
        },
    ensures
        match initial {
            None => result matches Err(status) && status.code == Code::InvalidArgument,
            Some(_) => match compiled {
                Err(status) => {
                    &&& result matches Err(told)
                    &&& told.code == status.code
                    &&& told.message@ == status.message@
                },
                Ok(_) => match snapshot {
                    Err(status) => {
                        &&& result matches Err(told)
                        &&& told.code == status.code
                        &&& told.message@ == status.message@
                    },
                    Ok(snapshot) => {
                        &&& result matches Ok(opened)
                        &&& opened.replay@ == snapshot.updates@
                        &&& update.message.sequence <= snapshot.watermark ==> action is Wait
                        &&& update.message.sequence > snapshot.watermark ==> follows_filter(
                            action,
                            update,
                            found,
                        )
                    },
                },
            },
        },
{
    if initial is Some {
        let request = initial->0;
        law_eviction_is_minimal(limits, asking@, final(asking).spec_time());
        lemma_ageless(limits, asking@, final(asking).spec_time(), final(opening).spec_time());
        if result is Ok && compiled is Ok {
            let named = requested_filters(request.filters@);
            assert forall|i: int, j: int| 0 <= i < j < named.len() implies (#[trigger] named[i]).0
                != (#[trigger] named[j]).0 by {
                assert(request.filters@[i].0@ != request.filters@[j].0@);
            }
            law_request_order_does_not_matter(
                compiled->Ok_0@,
                request,
                session@.filter,
                request,
            );
        }
    }
}

proof fn lemma_ageless(limits: ReplayLimits, buckets: Seq<BucketView>, now: u128, later: u128)
    requires
        limits.max_age is None,
    ensures
        surviving(limits, buckets, now) == surviving(limits, buckets, later),
    decreases buckets.len(),
{
    if buckets.len() > 0 {
        lemma_ageless(limits, buckets.drop_first(), now, later);
    }
}

/// The replay window has the bounds of the configuration, with the age in nanoseconds, and is empty
/// at first. The queues of subscribers have the configured capacity.
pub proof fn law_configured_bounds_apply(
    config: Config,
    state: SharedState,
    window: &ReplayBuffer,
    limits: ReplayLimits,
    lowest: Option<u32>,
    capacity: usize,
)
    requires
        call_ensures(SharedState::new, (&config,), state),
        call_ensures(SharedState::replay, (&state,), window),
        call_ensures(ReplayBuffer::limits, (window,), limits),
        call_ensures(ReplayBuffer::first_available_height, (window,), lowest),
        call_ensures(SharedState::client_channel_capacity, (&state,), capacity),
    ensures
        limits.height_capacity == config.replay_stored_blocks,
        limits.event_capacity == config.replay_max_events,
        limits.byte_capacity == config.replay_max_bytes,
        limits.max_age is Some <==> config.replay_max_age_seconds is Some,
        limits.max_age matches Some(age) ==> age == config.replay_max_age_seconds->0
            * 1_000_000_000,
        lowest is None,
        capacity == config.client_channel_capacity,
{
}

} // verus!
