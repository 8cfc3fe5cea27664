//! How a client's subscription goes on after an outage, and what reaches the application.

use crate::dedup::{key_of, law_other_keys_stay_new, law_repeated_update_is_suppressed};
use crate::event::spec_block_height;
use crate::laws::dedup::{is_scoped, lemma_scope, same_position};
use crate::laws::scope::{at_height, is_unscoped};
use crate::proto::{SubscribeRequest, SubscribeRequestPing, SubscribeUpdate, Update};
use crate::reconnect::{
    is_recoverable_client_error, is_recoverable_status, Attempts, Backoff, ClientAction,
    ClientEvent, ConnectFailure, ReconnectConfig, ReconnectionPolicy, Subscription,
};
use crate::status::{Code, Status};
use vstd::prelude::*;

verus! {

/// The height that lies some number of heights below another one, but not below zero.
pub open spec fn height_below(height: u32, distance: u32) -> u32 {
    if distance <= height {
        (height - distance) as u32
    } else {
        0
    }
}

/// Whether an action opens a new stream from some height on, or from the live head.
pub open spec fn resumes_from(action: ClientAction, from_height: Option<u32>) -> bool {
    action matches ClientAction::Reconnect { request, from_height: height } && height
        == from_height
}

/// Whether an event is an outage after which a stream resumes where it was: its end, or a failure
/// for a passing reason.
pub open spec fn is_passing_outage(event: ClientEvent) -> bool {
    match event {
        ClientEvent::Ended => true,
        ClientEvent::RequestRefused => true,
        ClientEvent::PongRefused => true,
        ClientEvent::Failed(status) => match status.code {
            Code::Cancelled => true,
            Code::Unknown => true,
            Code::DeadlineExceeded => true,
            Code::ResourceExhausted => true,
            Code::Aborted => true,
            Code::Internal => true,
            Code::Unavailable => true,
            Code::DataLoss => true,
            _ => false,
        },
        _ => false,
    }
}

/// Whether a subscription recovers missed data, with some distance below the latest height.
pub open spec fn recovers(subscription: Subscription, distance: u32) -> bool {
    &&& subscription.well_formed()
    &&& subscription.spec_reconnect() matches Some(config)
    &&& config.policy is RecoverMissedData
    &&& config.checkpoint_height_buffer == distance
}

/// After any message that belongs to a block, whatever its kind, a stream that recovers missed data
/// resumes the configured number of heights below that block.
pub proof fn law_recovery_resumes_below_the_last_block(
    first: &mut Subscription,
    second: &mut Subscription,
    update: SubscribeUpdate,
    height: u32,
    distance: u32,
    outage: ClientEvent,
    got: ClientAction,
    action: ClientAction,
)
    requires
        recovers(*first, distance),
        call_ensures(Subscription::step, (first, ClientEvent::Message(update)), got),
        *second == *final(first),
        call_ensures(Subscription::step, (second, outage), action),
        at_height(update, height),
        is_passing_outage(outage),
    ensures
        resumes_from(action, Some(height_below(height, distance))),
{
    lemma_scope(update);
}

/// What belongs to no block does not change where a stream resumes; neither do the end of the
/// application's requests and a new stream.
pub proof fn law_other_events_do_not_move_the_checkpoint(
    direct: &mut Subscription,
    first: &mut Subscription,
    second: &mut Subscription,
    event: ClientEvent,
    outage: ClientEvent,
    direct_action: ClientAction,
    got: ClientAction,
    action: ClientAction,
)
    requires
        first.well_formed(),
        *direct == *first,
        call_ensures(Subscription::step, (direct, outage), direct_action),
        call_ensures(Subscription::step, (first, event), got),
        *second == *final(first),
        call_ensures(Subscription::step, (second, outage), action),
        is_passing_outage(outage),
        first.spec_reconnect() is Some,
        match event {
            ClientEvent::Message(update) => is_unscoped(update),
            ClientEvent::Command(request) => request.ping is Some,
            ClientEvent::CommandsClosed => true,
            ClientEvent::Reconnected => true,
            _ => false,
        },
    ensures
        action == direct_action,
        action is Reconnect,
{
    if let ClientEvent::Message(update) = event {
        lemma_scope(update);
    }
}

/// A stream that was asked to start at a height resumes below it, and one that was not resumes at
/// the live head, as long as no block was seen. The request is the first one.
pub proof fn law_recovery_starts_where_the_request_did(
    initial: SubscribeRequest,
    config: ReconnectConfig,
    created: Subscription,
    subscription: &mut Subscription,
    outage: ClientEvent,
    action: ClientAction,
)
    requires
        call_ensures(Subscription::new, (initial, Some(config)), created),
        config.policy is RecoverMissedData,
        *subscription == created,
        call_ensures(Subscription::step, (subscription, outage), action),
        is_passing_outage(outage),
    ensures
        recovers(created, config.checkpoint_height_buffer),
        resumes_from(
            action,
            match initial.from_height {
                Some(height) => Some(height_below(height, config.checkpoint_height_buffer)),
                None => None,
            },
        ),
        *action->request == initial,
{
}

/// A stream for which no height is known to have been seen resumes where its request asked to
/// start. Outages that follow one another resume at the same height, with the same request.
pub proof fn law_outages_do_not_move_the_checkpoint(
    first: &mut Subscription,
    second: &mut Subscription,
    one: ClientEvent,
    other: ClientEvent,
    one_action: ClientAction,
    other_action: ClientAction,
)
    requires
        first.well_formed(),
        first.spec_reconnect() is Some,
        call_ensures(Subscription::step, (first, one), one_action),
        *second == *final(first),
        call_ensures(Subscription::step, (second, other), other_action),
        is_passing_outage(one),
        is_passing_outage(other),
    ensures
        one_action is Reconnect,
        other_action == one_action,
        old(first).spec_reconnect()->0.policy is RecoverMissedData && old(first)@.checkpoint is None
            ==> resumes_from(one_action, old(first)@.from_height),
        final(first)@.from_height == old(first)@.from_height,
        final(first)@.checkpoint == old(first)@.checkpoint,
{
}

/// A stream that skips missed data resumes at the live head, whatever was seen.
pub proof fn law_skipping_resumes_at_the_live_head(
    subscription: &mut Subscription,
    config: ReconnectConfig,
    outage: ClientEvent,
    action: ClientAction,
)
    requires
        subscription.well_formed(),
        subscription.spec_reconnect() == Some(config),
        config.policy == ReconnectionPolicy::SkipMissedData,
        call_ensures(Subscription::step, (subscription, outage), action),
        is_passing_outage(outage),
    ensures
        resumes_from(action, None),
{
}

/// Without a reconnect configuration an outage ends the subscription: with its status, if it has
/// one. With a configuration only lasting reasons end it.
pub proof fn law_lasting_failures_end_the_subscription(
    subscription: &mut Subscription,
    status: Status,
    action: ClientAction,
    plain: &mut Subscription,
    plain_action: ClientAction,
    ended: &mut Subscription,
    ended_action: ClientAction,
)
    requires
        subscription.well_formed(),
        call_ensures(Subscription::step, (subscription, ClientEvent::Failed(status)), action),
        !is_passing_outage(ClientEvent::Failed(status)),
        status.code != Code::OutOfRange,
        plain.well_formed(),
        plain.spec_reconnect() is None,
        call_ensures(Subscription::step, (plain, ClientEvent::Failed(status)), plain_action),
        ended.well_formed(),
        ended.spec_reconnect() is None,
        call_ensures(Subscription::step, (ended, ClientEvent::Ended), ended_action),
    ensures
        action == ClientAction::Fail(status),
        plain_action == ClientAction::Fail(status),
        ended_action is End,
{
}

/// When the server has lost the height, the stream resumes at the live head, and so it does after
/// the next outages until a block is seen.
pub proof fn law_lost_height_is_given_up(
    first: &mut Subscription,
    second: &mut Subscription,
    status: Status,
    outage: ClientEvent,
    action: ClientAction,
    next_action: ClientAction,
)
    requires
        first.well_formed(),
        first.spec_reconnect() is Some,
        status.code == Code::OutOfRange,
        call_ensures(Subscription::step, (first, ClientEvent::Failed(status)), action),
        *second == *final(first),
        is_passing_outage(outage),
        call_ensures(Subscription::step, (second, outage), next_action),
    ensures
        resumes_from(action, None),
        resumes_from(next_action, None),
{
}

/// A request of the application replaces the one in force: it is sent without a starting height,
/// and new streams open with it. A keepalive is sent as it is, and replaces nothing.
pub proof fn law_requests_take_effect(
    before: &mut Subscription,
    first: &mut Subscription,
    second: &mut Subscription,
    request: SubscribeRequest,
    outage: ClientEvent,
    old_action: ClientAction,
    sent: ClientAction,
    action: ClientAction,
)
    requires
        first.well_formed(),
        first.spec_reconnect() is Some,
        *before == *first,
        is_passing_outage(outage),
        call_ensures(Subscription::step, (before, outage), old_action),
        call_ensures(Subscription::step, (first, ClientEvent::Command(request)), sent),
        *second == *final(first),
        call_ensures(Subscription::step, (second, outage), action),
    ensures
        sent is Send,
        action is Reconnect,
        request.ping is Some ==> *sent->Send_0 == request && action == old_action,
        request.ping is None ==> {
            let stored = *sent->Send_0;
            &&& stored.from_height is None
            &&& stored.event_types == request.event_types
            &&& stored.filters == request.filters
            &&& stored.ping is None
            &&& *action->request == stored
        },
{
}

/// Whether a message is handed to the application as it is.
pub open spec fn hands_over(action: ClientAction, update: SubscribeUpdate) -> bool {
    action matches ClientAction::Deliver(delivered) && delivered == update
}

/// Whether a message is a keepalive of the server, or the answer to one.
pub open spec fn is_server_keepalive(update: SubscribeUpdate) -> bool {
    match update.update {
        Some(Update::Ping(_)) => true,
        Some(Update::Pong(pong)) => pong.id < 0,
        _ => false,
    }
}

/// Without recovery, and for what belongs to no block, every message but the server's keepalives
/// reaches the application unchanged.
pub proof fn law_messages_reach_the_application(
    subscription: &mut Subscription,
    update: SubscribeUpdate,
    action: ClientAction,
)
    requires
        subscription.well_formed(),
        call_ensures(Subscription::step, (subscription, ClientEvent::Message(update)), action),
        !is_server_keepalive(update),
        is_unscoped(update) || subscription.spec_reconnect() is None
            || subscription.spec_reconnect()->0.policy == ReconnectionPolicy::SkipMissedData,
    ensures
        hands_over(action, update),
{
    lemma_scope(update);
}

/// The server's keepalives do not reach the application: a keepalive is answered with its number
/// and nothing else, and the answer to one is dropped.
pub proof fn law_server_keepalives_are_answered(
    subscription: &mut Subscription,
    update: SubscribeUpdate,
    action: ClientAction,
)
    requires
        subscription.well_formed(),
        call_ensures(Subscription::step, (subscription, ClientEvent::Message(update)), action),
        is_server_keepalive(update),
    ensures
        match update.update {
            Some(Update::Ping(ping)) => {
                &&& action matches ClientAction::Answer(request)
                &&& request.ping == Some(SubscribeRequestPing { id: ping.id })
                &&& request.event_types@.len() == 0
                &&& request.filters@.len() == 0
                &&& request.from_height is None
            },
            _ => action is Wait,
        },
{
}

/// While missed data is recovered, a block's update reaches the application once: when its session
/// and sequence number come again, it is dropped.
pub proof fn law_repetitions_are_dropped(
    first: &mut Subscription,
    second: &mut Subscription,
    one: SubscribeUpdate,
    other: SubscribeUpdate,
    action: ClientAction,
    again: ClientAction,
)
    requires
        first.well_formed(),
        first.spec_reconnect() matches Some(config)
            && config.policy matches ReconnectionPolicy::RecoverMissedData { height_retention }
            && height_retention > 0,
        call_ensures(Subscription::step, (first, ClientEvent::Message(one)), action),
        *second == *final(first),
        call_ensures(Subscription::step, (second, ClientEvent::Message(other)), again),
        is_scoped(one),
        is_scoped(other),
        same_position(one, other),
    ensures
        again is Wait,
{
    lemma_scope(one);
    lemma_scope(other);
    first.law_memory_is_bounded();
    law_repeated_update_is_suppressed(
        first@.heights->0,
        spec_block_height(one)->0,
        key_of(one),
        first.spec_reconnect()->0.policy->height_retention,
    );
}

/// A message that would reach the application reaches it also after another message with another
/// session or sequence number. At first every message of a block does.
pub proof fn law_new_updates_are_delivered(
    alone: &mut Subscription,
    first: &mut Subscription,
    second: &mut Subscription,
    one: SubscribeUpdate,
    other: SubscribeUpdate,
    alone_action: ClientAction,
    action: ClientAction,
    next_action: ClientAction,
)
    requires
        first.well_formed(),
        *alone == *first,
        call_ensures(Subscription::step, (alone, ClientEvent::Message(other)), alone_action),
        call_ensures(Subscription::step, (first, ClientEvent::Message(one)), action),
        *second == *final(first),
        call_ensures(Subscription::step, (second, ClientEvent::Message(other)), next_action),
        hands_over(alone_action, other),
        !same_position(one, other),
    ensures
        hands_over(next_action, other),
{
    lemma_scope(one);
    lemma_scope(other);
    first.law_memory_is_bounded();
    if first@.heights is Some && is_scoped(one) && is_scoped(other) {
        let retention = first.spec_reconnect()->0.policy->height_retention;
        if retention > 0 {
            law_other_keys_stay_new(
                first@.heights->0,
                spec_block_height(one)->0,
                key_of(one),
                key_of(other),
                retention,
            );
        }
    }
}

/// The first message of a block reaches the application.
pub proof fn law_first_update_is_delivered(
    initial: SubscribeRequest,
    reconnect: Option<ReconnectConfig>,
    created: Subscription,
    subscription: &mut Subscription,
    update: SubscribeUpdate,
    action: ClientAction,
)
    requires
        call_ensures(Subscription::new, (initial, reconnect), created),
        *subscription == created,
        call_ensures(Subscription::step, (subscription, ClientEvent::Message(update)), action),
        is_scoped(update),
    ensures
        hands_over(action, update),
{
    lemma_scope(update);
}

/// A failed attempt to connect is worth another one if there was no connection, or if the server
/// refused it for a passing reason; a lost height is one of them.
pub proof fn law_passing_failures_are_retried(
    code: Code,
    retried: bool,
    transport: bool,
    refused: bool,
)
    requires
        call_ensures(is_recoverable_status, (code,), retried),
        call_ensures(is_recoverable_client_error, (ConnectFailure::Transport,), transport),
        call_ensures(is_recoverable_client_error, (ConnectFailure::Refused(code),), refused),
    ensures
        transport,
        refused == retried,
        !retried <==> {
            ||| code == Code::Success
            ||| code == Code::InvalidArgument
            ||| code == Code::NotFound
            ||| code == Code::AlreadyExists
            ||| code == Code::PermissionDenied
            ||| code == Code::FailedPrecondition
            ||| code == Code::Unimplemented
            ||| code == Code::Unauthenticated
        },
{
}

/// An outage allows as many retries as configured, one after the other, for passing reasons only.
pub proof fn law_retries_are_counted(
    backoff: Backoff,
    created: Attempts,
    attempts: &mut Attempts,
    failure: ConnectFailure,
    retry: bool,
)
    requires
        call_ensures(Attempts::new, (&backoff,), created),
        attempts.well_formed(),
        call_ensures(Attempts::failed, (attempts, failure), retry),
    ensures
        created.well_formed(),
        created.made() == 0,
        created.allowed() == backoff.max_retries,
        final(attempts).allowed() == old(attempts).allowed(),
        retry ==> final(attempts).made() == old(attempts).made() + 1,
        !retry ==> final(attempts).made() == old(attempts).made(),
        failure is Transport ==> retry == (old(attempts).made() < old(attempts).allowed()),
{
}

} // verus!
