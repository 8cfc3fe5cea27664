//! What a subscriber is sent.

use crate::buffer::bytes_contents;
use crate::config::FilterLimits;
use crate::filter::{law_request_order_does_not_matter, requested_filters, EventFilter, FilterMatch};
use crate::proto::{BlockPayload, SubscribeRequest, SubscribeUpdate, Update};
use crate::replay::{Published, PublishedUpdate};
use crate::session::{project, Delivery, PingSend, Session, SessionAction, SessionEvent};
use crate::status::{Code, Status};
use crate::text::texts;
use std::sync::Arc;
use vstd::prelude::*;

verus! {

/// Whether an action delivers an update as a filter selects it, or waits where the filter does not.
pub open spec fn follows_filter(
    action: SessionAction,
    update: Published,
    found: Option<FilterMatch>,
) -> bool {
    match found {
        Some(found) => {
            &&& action matches SessionAction::Deliver(delivered, matched)
            &&& delivered == update
            &&& texts(matched.names@) == texts(found.names@)
            &&& matched.block_payload == found.block_payload
        },
        None => action is Wait,
    }
}

/// Whether an update belongs to no event.
pub open spec fn is_bare(update: SubscribeUpdate) -> bool {
    &&& update.schema_version == 0
    &&& bytes_contents(update.session_id).len() == 0
    &&& update.sequence == 0
    &&& update.observed_at is None
    &&& update.event_type == 0
    &&& update.filters@.len() == 0
    &&& update.source_sequence == 0
}

/// A session delivers the published updates that its filter selects, each once: it passes over
/// those up to its watermark, and after an update over those up to that update, whether or not the
/// filter selected it.
pub proof fn law_live_updates_are_delivered_once(
    filter: EventFilter,
    limits: Arc<FilterLimits>,
    watermark: u64,
    first: &mut Session,
    second: &mut Session,
    one: Published,
    other: Published,
    one_found: Option<FilterMatch>,
    other_found: Option<FilterMatch>,
    one_action: SessionAction,
    other_action: SessionAction,
)
    requires
        filter.well_formed(),
        call_ensures(Session::new, (filter, limits, watermark), *first),
        call_ensures(EventFilter::matched, (&filter, &one.message), one_found),
        call_ensures(EventFilter::matched, (&filter, &other.message), other_found),
        call_ensures(Session::step, (first, SessionEvent::Live(one)), one_action),
        *second == *final(first),
        call_ensures(Session::step, (second, SessionEvent::Live(other)), other_action),
    ensures
        one.message.sequence <= watermark ==> one_action is Wait,
        one.message.sequence > watermark ==> follows_filter(one_action, one, one_found),
        other.message.sequence <= watermark || other.message.sequence <= one.message.sequence
            ==> other_action is Wait,
        other.message.sequence > watermark && other.message.sequence > one.message.sequence
            ==> follows_filter(other_action, other, other_found),
{
}

/// A replayed update is delivered as the filter selects it, whatever its sequence number.
pub proof fn law_replayed_updates_are_filtered(
    filter: EventFilter,
    limits: Arc<FilterLimits>,
    watermark: u64,
    session: Session,
    update: Published,
    found: Option<FilterMatch>,
    action: SessionAction,
)
    requires
        filter.well_formed(),
        call_ensures(Session::new, (filter, limits, watermark), session),
        call_ensures(EventFilter::matched, (&filter, &update.message), found),
        call_ensures(Session::replay, (&session, &update), action),
    ensures
        follows_filter(action, update, found),
{
}

/// A new request, whose filters have different names, takes the place of the filter for what is
/// published afterwards. A request that is
/// not valid ends the session with the status of the request. Neither makes the session deliver
/// anything again.
pub proof fn law_requests_replace_the_filter(
    filter: EventFilter,
    limits: Arc<FilterLimits>,
    watermark: u64,
    first: &mut Session,
    second: &mut Session,
    request: SubscribeRequest,
    compiled: Result<EventFilter, Status>,
    answer: SessionAction,
    update: Published,
    found: Option<FilterMatch>,
    action: SessionAction,
)
    requires
        filter.well_formed(),
        call_ensures(Session::new, (filter, limits, watermark), *first),
        request.ping is None,
        forall|i: int, j: int|
            0 <= i < j < request.filters@.len() ==> (#[trigger] request.filters@[i]).0@ != (
            #[trigger] request.filters@[j]).0@,
        call_ensures(EventFilter::new, (&request, &*limits), compiled),
        call_ensures(Session::step, (first, SessionEvent::Request(request)), answer),
        *second == *final(first),
        compiled matches Ok(replacement) ==> call_ensures(
            EventFilter::matched,
            (&replacement, &update.message),
            found,
        ),
        call_ensures(Session::step, (second, SessionEvent::Live(update)), action),
    ensures
        match compiled {
            Ok(_) => {
                &&& answer is Wait
                &&& update.message.sequence <= watermark ==> action is Wait
                &&& update.message.sequence > watermark ==> {
                    &&& found is Some <==> action is Deliver
                    &&& found is None <==> action is Wait
                    &&& action matches SessionAction::Deliver(delivered, matched) ==> {
                        &&& delivered == update
                        &&& matched.block_payload == found->0.block_payload
                        &&& texts(matched.names@) == texts(found->0.names@)
                    }
                }
            },
            Err(status) => {
                &&& answer matches SessionAction::Fail(told)
                &&& told.code == status.code
                &&& told.message@ == status.message@
            },
        },
{
    if compiled is Ok && update.message.sequence > watermark {
        let replacement = compiled->Ok_0;
        let named = requested_filters(request.filters@);
        assert forall|i: int, j: int| 0 <= i < j < named.len() implies (#[trigger] named[i]).0 != (
        #[trigger] named[j]).0 by {
            assert(request.filters@[i].0@ != request.filters@[j].0@);
        }
        law_request_order_does_not_matter(replacement@, request, second@.filter, request);
    }
}

/// A keepalive of the subscriber is answered with its number and changes nothing: what is published
/// afterwards is delivered as before.
pub proof fn law_keepalives_change_nothing(
    filter: EventFilter,
    limits: Arc<FilterLimits>,
    watermark: u64,
    first: &mut Session,
    second: &mut Session,
    request: SubscribeRequest,
    answer: SessionAction,
    update: Published,
    found: Option<FilterMatch>,
    action: SessionAction,
)
    requires
        filter.well_formed(),
        call_ensures(Session::new, (filter, limits, watermark), *first),
        request.ping is Some,
        call_ensures(EventFilter::matched, (&filter, &update.message), found),
        call_ensures(Session::step, (first, SessionEvent::Request(request)), answer),
        *second == *final(first),
        call_ensures(Session::step, (second, SessionEvent::Live(update)), action),
    ensures
        answer matches SessionAction::Send(pong) && is_bare(pong) && (pong.update matches Some(
            Update::Pong(message),
        ) && message.id == request.ping->0.id),
        update.message.sequence <= watermark ==> action is Wait,
        update.message.sequence > watermark ==> follows_filter(action, update, found),
{
}

/// The keepalives of a session count down from minus one, and the next number is taken only when a
/// keepalive was sent. A subscriber that is gone ends the session.
pub proof fn law_keepalives_count_down(
    filter: EventFilter,
    limits: Arc<FilterLimits>,
    watermark: u64,
    first: &mut Session,
    sending: &mut Session,
    second: &mut Session,
    outcome: PingSend,
    goes_on: bool,
    one: SessionAction,
    other: SessionAction,
)
    requires
        filter.well_formed(),
        call_ensures(Session::new, (filter, limits, watermark), *first),
        call_ensures(Session::step, (first, SessionEvent::Tick), one),
        *sending == *final(first),
        call_ensures(Session::ping_sent, (sending, outcome), goes_on),
        *second == *final(sending),
        call_ensures(Session::step, (second, SessionEvent::Tick), other),
    ensures
        one matches SessionAction::Ping(ping) && is_bare(ping) && (ping.update matches Some(
            Update::Ping(message),
        ) && message.id == -1),
        other matches SessionAction::Ping(ping) && is_bare(ping) && (ping.update matches Some(
            Update::Ping(message),
        ) && message.id == (if outcome == PingSend::Sent {
            -2int
        } else {
            -1
        })),
        goes_on <==> outcome != PingSend::Closed,
{
}

/// Each keepalive that was sent is followed by the next lower number, and the lowest number by
/// minus one: the numbers are never zero or above.
pub proof fn law_keepalives_stay_negative(
    first: &mut Session,
    sending: &mut Session,
    second: &mut Session,
    goes_on: bool,
    one: SubscribeUpdate,
    other: SubscribeUpdate,
)
    requires
        first.well_formed(),
        call_ensures(Session::step, (first, SessionEvent::Tick), SessionAction::Ping(one)),
        *sending == *final(first),
        call_ensures(Session::ping_sent, (sending, PingSend::Sent), goes_on),
        *second == *final(sending),
        call_ensures(Session::step, (second, SessionEvent::Tick), SessionAction::Ping(other)),
    ensures
        one.update matches Some(Update::Ping(before)) && other.update matches Some(
            Update::Ping(after),
        ) && before.id < 0 && after.id < 0 && (after.id == before.id - 1 || before.id == i32::MIN
            && after.id == -1),
{
    first.law_server_ping_ids_are_negative();
}

/// A session ends when the subscriber sends no more requests, when its requests cannot be read, and
/// when nothing is published any more. A subscriber that missed updates is told so.
pub proof fn law_sessions_end(session: &mut Session, event: SessionEvent, action: SessionAction)
    requires
        session.well_formed(),
        call_ensures(Session::step, (session, event), action),
    ensures
        event is RequestsEnded || event is RequestsFailed || event is LiveClosed ==> action is End,
        event is Lagged ==> action is FailIfRoom && action->FailIfRoom_0.code
            == Code::ResourceExhausted,
        action is End ==> event is RequestsEnded || event is RequestsFailed || event is LiveClosed,
        action is FailIfRoom ==> event is Lagged,
{
}

/// What is delivered is what was published, with the names of the filters that selected it. Only a
/// block for which metadata is enough goes without its bytes. Blocks say how much of them is there.
pub proof fn law_deliveries_are_what_was_published(
    update: PublishedUpdate,
    matched: FilterMatch,
    delivery: Delivery,
)
    requires
        call_ensures(project, (&update, matched), delivery),
    ensures
        delivery.message.schema_version == update.message.schema_version,
        bytes_contents(delivery.message.session_id) == bytes_contents(update.message.session_id),
        delivery.message.sequence == update.message.sequence,
        delivery.message.observed_at == update.message.observed_at,
        delivery.message.event_type == update.message.event_type,
        delivery.message.source_sequence == update.message.source_sequence,
        texts(delivery.message.filters@) == texts(matched.names@),
        match update.message.update {
            Some(Update::Block(block)) => {
                &&& delivery.message.update matches Some(Update::Block(message))
                &&& message.height == block.height
                &&& message.hash == block.hash
                &&& message.receipt_order == block.receipt_order
                &&& message.finalized == block.finalized
                &&& matched.block_payload == BlockPayload::MetaOnly ==> message.payload == 2
                    && bytes_contents(message.block).len() == 0
                &&& matched.block_payload == BlockPayload::Full ==> message.payload == 1
                &&& matched.block_payload != BlockPayload::MetaOnly ==> bytes_contents(
                    message.block,
                ) == bytes_contents(block.block)
            },
            _ => delivery.message.update == update.message.update,
        },
        matched.block_payload != BlockPayload::MetaOnly ==> delivery.encoded_len
            == update.encoded_len,
{
}

} // verus!
