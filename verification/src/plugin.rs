//! The plugin: numbers the updates of node events and publishes them.

use crate::config::Config;
use crate::event::{
    encode_event, event_outcome, first_error, EncodingOptions, UpdateMetadata,
};
use crate::node::{EventEnvelope, PluginError};
use crate::proto::SubscribeUpdate;
use crate::replay::{
    all_after, increasing, law_eviction_is_minimal, law_eviction_keeps_order,
    law_publishing_keeps_order, law_replay_is_ordered, law_watermark_is_published, none_after,
    ordered, pushed, replayed, surviving, watermark, BucketView, Published, ReplayLimits,
};
use crate::service::{publishes, SharedState};
use crate::session::{law_replay_and_live_have_no_overlap_and_no_gap, not_skipped};
use vstd::prelude::*;

verus! {

/// The kinds of node events that the plugin asks for.
#[derive(Clone, Copy, Debug, PartialEq, Eq, Structural)]
pub struct EventSubscriptions {
    pub block_accepted: bool,
    pub best_chain: bool,
    pub finalized_blocks: bool,
    pub mempool: bool,
}

/// One in-process Zakura gRPC server plugin.
pub struct GrpcPlugin {
    config: Config,
    subscriptions: EventSubscriptions,
    next_sequence: u64,
    running: bool,
}

/// Whether updates are numbered, starting behind the last number that was assigned.
pub open spec fn numbered(
    after: Seq<SubscribeUpdate>,
    before: Seq<SubscribeUpdate>,
    last: u64,
) -> bool {
    &&& after.len() == before.len()
    &&& forall|i: int|
        0 <= i < before.len() ==> (#[trigger] after[i]) == (SubscribeUpdate {
            sequence: (last + 1 + i) as u64,
            ..before[i]
        })
}

/// Whether the replay window is in order, and nothing in it comes after the last number that was
/// assigned.
pub open spec fn in_step(buckets: Seq<BucketView>, last: u64) -> bool {
    ordered(buckets) && watermark(buckets) <= last
}

/// The updates that a configuration asks for.
pub open spec fn configured_options(config: Config) -> EncodingOptions {
    EncodingOptions {
        transaction_updates: config.transaction_updates,
        utxo_updates: config.utxo_updates,
        mempool_transaction_updates: config.mempool_transaction_updates,
    }
}

/// Whether updates were numbered and published.
pub open spec fn published_as(
    published: Seq<Published>,
    updates: Seq<SubscribeUpdate>,
    last: u64,
) -> bool {
    exists|messages: Seq<SubscribeUpdate>|
        numbered(messages, updates, last) && #[trigger] publishes(published, messages)
}

/// Numbered updates are published in the order of their numbers, all behind the last number that
/// was assigned before, so that no number is used twice.
pub proof fn law_sequence_numbers_rise(
    published: Seq<Published>,
    updates: Seq<SubscribeUpdate>,
    last: u64,
)
    requires
        published_as(published, updates, last),
        last + updates.len() <= u64::MAX,
    ensures
        increasing(published),
        all_after(published, last),
        none_after(published, (last + updates.len()) as u64),
{
    let messages = choose|messages: Seq<SubscribeUpdate>|
        numbered(messages, updates, last) && #[trigger] publishes(published, messages);
    assert forall|i: int| 0 <= i < published.len() implies (
    #[trigger] published[i]).message.sequence == last + 1 + i by {
        assert(published[i].message == messages[i]);
        assert(messages[i].sequence == (last + 1 + i) as u64);
    }
}

/// Publishing numbered updates keeps the replay window in step with the numbers.
pub proof fn law_publishing_keeps_step(
    limits: ReplayLimits,
    buckets: Seq<BucketView>,
    published: Seq<Published>,
    updates: Seq<SubscribeUpdate>,
    last: u64,
    now: u128,
)
    requires
        in_step(buckets, last),
        published_as(published, updates, last),
        last + updates.len() <= u64::MAX,
    ensures
        in_step(pushed(limits, buckets, published, now), (last + updates.len()) as u64),
{
    law_sequence_numbers_rise(published, updates, last);
    assert(all_after(published, watermark(buckets)));
    law_publishing_keeps_order(limits, buckets, published, now);
    law_watermark_is_published(
        limits,
        buckets,
        published,
        now,
        (last + updates.len()) as u64,
    );
}

/// Eviction keeps the replay window in step with the numbers.
pub proof fn law_eviction_keeps_step(
    limits: ReplayLimits,
    buckets: Seq<BucketView>,
    last: u64,
    now: u128,
)
    requires
        in_step(buckets, last),
    ensures
        in_step(surviving(limits, buckets, now), last),
{
    law_eviction_keeps_order(limits, buckets, now);
    law_eviction_is_minimal(limits, buckets, now);
    let evicted = choose|evicted: int|
        0 <= evicted <= buckets.len() && surviving(limits, buckets, now)
            == #[trigger] buckets.skip(evicted);
    if evicted < buckets.len() {
        assert(buckets.skip(evicted).last() == buckets.last());
    }
}

/// A subscriber that joins gets its replay and then every update that is published from then on,
/// each of them once and in the order of publication, no matter which of the updates that were
/// published before are still on their way to live subscribers.
pub proof fn law_subscriber_gets_every_later_update_once(
    buckets: Seq<BucketView>,
    last: u64,
    height: u32,
    underway: Seq<Published>,
    later: Seq<Published>,
)
    requires
        in_step(buckets, last),
        none_after(underway, last),
        all_after(later, last),
        increasing(underway + later),
    ensures
        ({
            let delivered = replayed(buckets, height) + not_skipped(
                watermark(buckets),
                underway + later,
            );
            &&& increasing(delivered)
            &&& forall|i: int| 0 <= i < later.len() ==> delivered.contains(#[trigger] later[i])
        }),
{
    let replay = replayed(buckets, height);
    let live = underway + later;
    let followed = not_skipped(watermark(buckets), live);
    law_replay_is_ordered(buckets, height);
    law_replay_and_live_have_no_overlap_and_no_gap(replay, watermark(buckets), live);
    assert forall|i: int| 0 <= i < later.len() implies (replay + followed).contains(
        #[trigger] later[i],
    ) by {
        assert(live[underway.len() + i] == later[i]);
        let position = followed.index_of(later[i]);
        assert((replay + followed)[replay.len() + position] == later[i]);
    }
}

impl GrpcPlugin {
    /// The configuration.
    pub closed spec fn spec_config(self) -> Config {
        self.config
    }

    /// The kinds of node events that the plugin asks for.
    pub closed spec fn spec_subscriptions(self) -> EventSubscriptions {
        self.subscriptions
    }

    /// The last sequence number that was assigned.
    pub closed spec fn last_sequence(self) -> u64 {
        self.next_sequence
    }

    /// Whether the server is running.
    pub closed spec fn spec_running(self) -> bool {
        self.running
    }

    /// Whether nothing but the last sequence number differs.
    pub open spec fn same_but_sequence(self, other: Self) -> bool {
        &&& self.spec_config() == other.spec_config()
        &&& self.spec_subscriptions() == other.spec_subscriptions()
        &&& self.spec_running() == other.spec_running()
    }

    /// Creates a stopped plugin instance.
    pub fn new(config: Config, subscriptions: EventSubscriptions) -> (plugin: Self)
        ensures
            plugin.spec_config() == config,
            plugin.spec_subscriptions() == subscriptions,
            plugin.last_sequence() == 0,
            !plugin.spec_running(),
    {
        GrpcPlugin { config, subscriptions, next_sequence: 0, running: false }
    }

    /// The name of the plugin.
    pub fn name(&self) -> (name: &'static str)
        ensures
            name@ == "zakura-grpc"@,
    {
        "zakura-grpc"
    }

    /// The kinds of node events that the plugin asks for.
    pub fn subscriptions(&self) -> (subscriptions: EventSubscriptions)
        ensures
            subscriptions == self.spec_subscriptions(),
    {
        self.subscriptions
    }

    /// The configuration.
    pub fn config(&self) -> (config: &Config)
        ensures
            *config == self.spec_config(),
    {
        &self.config
    }

    /// Whether the server is running.
    pub fn is_running(&self) -> (running: bool)
        ensures
            running == self.spec_running(),
    {
        self.running
    }

    /// The updates that the configuration asks for.
    pub fn encoding_options(&self) -> (options: EncodingOptions)
        ensures
            options == configured_options(self.spec_config()),
    {
        EncodingOptions {
            transaction_updates: self.config.transaction_updates,
            utxo_updates: self.config.utxo_updates,
            mempool_transaction_updates: self.config.mempool_transaction_updates,
        }
    }

    /// Checks that the plugin can be loaded, and tells whether it still needs encoding threads.
    pub fn begin_load(&self, has_encoding_pool: bool) -> (result: Result<bool, PluginError>)
        ensures
            match result {
                Ok(needs_pool) => {
                    &&& !self.spec_running()
                    &&& needs_pool == (self.spec_config().event_encoding_threads > 1
                        && !has_encoding_pool)
                },
                Err(error) => self.spec_running() && error is AlreadyRunning,
            },
    {
        if self.running {
            return Err(PluginError::AlreadyRunning);
        }
        Ok(self.config.event_encoding_threads > 1 && !has_encoding_pool)
    }

    /// Takes note that the server is running.
    pub fn loaded(&mut self)
        ensures
            final(self).spec_running(),
            final(self).spec_config() == old(self).spec_config(),
            final(self).spec_subscriptions() == old(self).spec_subscriptions(),
            final(self).last_sequence() == old(self).last_sequence(),
    {
        self.running = true;
    }

    /// Takes note that the server is stopped.
    pub fn on_unload(&mut self)
        ensures
            !final(self).spec_running(),
            final(self).spec_config() == old(self).spec_config(),
            final(self).spec_subscriptions() == old(self).spec_subscriptions(),
            final(self).last_sequence() == old(self).last_sequence(),
    {
        self.running = false;
    }

    /// Numbers the updates of one event and publishes them; returns them for live delivery.
    ///
    /// When the numbers run out, nothing is published.
    pub fn publish(&mut self, state: &mut SharedState, updates: Vec<SubscribeUpdate>) -> (result: Result<
        Vec<Published>,
        PluginError,
    >)
        requires
            old(state).well_formed(),
        ensures
            final(state).well_formed(),
            final(self).same_but_sequence(*old(self)),
            match result {
                Ok(published) => {
                    &&& old(self).last_sequence() + updates@.len() <= u64::MAX
                    &&& final(self).last_sequence() == old(self).last_sequence() + updates@.len()
                    &&& published_as(published@, updates@, old(self).last_sequence())
                    &&& final(state).received(*old(state), published@)
                    &&& in_step(old(state)@, old(self).last_sequence()) ==> in_step(
                        final(state)@,
                        final(self).last_sequence(),
                    )
                },
                Err(error) => {
                    &&& error is SequenceExhausted
                    &&& old(self).last_sequence() + updates@.len() > u64::MAX
                    &&& final(self).last_sequence() == u64::MAX
                    &&& *final(state) == *old(state)
                },
            },
    {
        let ghost all = updates@;
        let ghost last = self.next_sequence;
        let mut messages: Vec<SubscribeUpdate> = Vec::new();
        for update in iter: updates
            invariant
                iter.seq() == all,
                self.same_but_sequence(*old(self)),
                *state == *old(state),
                old(state).well_formed(),
                last == old(self).next_sequence,
                messages@.len() == iter.index(),
                self.next_sequence == last + iter.index(),
                numbered(messages@, all.take(iter.index()), last),
        {
            let ghost n = messages@.len() as int;
            match self.next_sequence.checked_add(1) {
                Some(next) => {
                    self.next_sequence = next;
                },
                None => {
                    return Err(PluginError::SequenceExhausted);
                },
            }
            let mut message = update;
            message.sequence = self.next_sequence;
            let ghost before = messages@;
            messages.push(message);
            proof {
                let now = all.take(n + 1);
                assert forall|i: int| 0 <= i < now.len() implies (#[trigger] messages@[i]) == (
                SubscribeUpdate { sequence: (last + 1 + i) as u64, ..now[i] }) by {
                    if i < n {
                        assert(messages@[i] == before[i]);
                        assert(now[i] == all.take(n)[i]);
                    } else {
                        assert(now[i] == all[n]);
                    }
                }
            }
        }
        proof {
            assert(all.take(all.len() as int) =~= all);
        }
        let ghost numbered_messages = messages@;
        let ghost buckets = state@;
        let published = state.publish_batch(messages);
        proof {
            assert(numbered(numbered_messages, all, last) && publishes(
                published@,
                numbered_messages,
            ));
            if in_step(buckets, last) {
                law_publishing_keeps_step(
                    old(state).spec_limits(),
                    buckets,
                    published@,
                    all,
                    last,
                    state.spec_time(),
                );
            }
        }
        Ok(published)
    }

    /// Encodes a node event and publishes its updates; returns them for live delivery.
    pub fn on_event(&mut self, state: &mut SharedState, event: &EventEnvelope) -> (result: Result<
        Vec<Published>,
        PluginError,
    >)
        requires
            old(state).well_formed(),
            event.well_formed(),
        ensures
            final(state).well_formed(),
            final(self).same_but_sequence(*old(self)),
            match result {
                Ok(published) => {
                    &&& exists|metadata: UpdateMetadata, updates: Vec<SubscribeUpdate>|
                        {
                            &&& #[trigger] metadata.describes(*event)
                            &&& #[trigger] event_outcome(
                                Ok(updates),
                                metadata,
                                *event,
                                configured_options(old(self).spec_config()),
                            )
                            &&& published_as(published@, updates@, old(self).last_sequence())
                            &&& final(self).last_sequence() == old(self).last_sequence()
                                + updates@.len()
                        }
                    &&& final(state).received(*old(state), published@)
                    &&& in_step(old(state)@, old(self).last_sequence()) ==> in_step(
                        final(state)@,
                        final(self).last_sequence(),
                    )
                },
                Err(error) => {
                    &&& *final(state) == *old(state)
                    &&& {
                        ||| {
                            &&& first_error(
                                error,
                                *event,
                                configured_options(old(self).spec_config()),
                            )
                            &&& final(self).last_sequence() == old(self).last_sequence()
                        }
                        ||| {
                            &&& error is SequenceExhausted
                            &&& final(self).last_sequence() == u64::MAX
                            &&& exists|metadata: UpdateMetadata, updates: Vec<SubscribeUpdate>|
                                {
                                    &&& #[trigger] metadata.describes(*event)
                                    &&& #[trigger] event_outcome(
                                        Ok(updates),
                                        metadata,
                                        *event,
                                        configured_options(old(self).spec_config()),
                                    )
                                    &&& old(self).last_sequence() + updates@.len() > u64::MAX
                                }
                        }
                    }
                },
            },
    {
        let options = self.encoding_options();
        match encode_event(event, options) {
            Ok(updates) => self.publish(state, updates),
            Err(error) => Err(error),
        }
    }
}

} // verus!
