//! One subscription: what a subscriber is sent for each thing that happens.
//!
//! A session is driven from outside: the driver waits for an event, hands it to
//! [`Session::step`], and performs the action that comes back.

use crate::buffer::bytes_contents;
use crate::config::FilterLimits;
use crate::filter::{
    compiles, match_outcome, request_error, EventFilter, FilterMatch, RequestView,
};
use crate::proto::{
    BlockPayload, BlockUpdate, EventType, PingUpdate, PongUpdate, SubscribeRequest, SubscribeUpdate,
    Update,
};
use crate::replay::{increasing, none_after, Published, PublishedUpdate};
use crate::status::{Code, Status};
use crate::text::{decimal, decimal_text, join3, texts};
use crate::wire::capped;
use bytes::Bytes;
use std::sync::Arc;
use vstd::prelude::*;

verus! {

/// The name of an event type for metrics.
pub open spec fn spec_event_type_label(event_type: i32) -> Seq<char> {
    match EventType::spec_from_number(event_type) {
        Some(kind) => kind.spec_name(),
        None => EventType::Unspecified.spec_name(),
    }
}

/// The name of an event type for metrics. Unknown event types share one name.
pub fn event_type_label(event_type: i32) -> (label: &'static str)
    ensures
        label@ == spec_event_type_label(event_type),
{
    match EventType::from_number(event_type) {
        Some(kind) => kind.as_str_name(),
        None => EventType::Unspecified.as_str_name(),
    }
}

/// Whether an update carries nothing but a payload: it belongs to no event.
pub open spec fn is_control(update: SubscribeUpdate) -> bool {
    &&& update.schema_version == 0
    &&& bytes_contents(update.session_id).len() == 0
    &&& update.sequence == 0
    &&& update.observed_at is None
    &&& update.event_type == EventType::Unspecified.spec_number()
    &&& update.filters@.len() == 0
    &&& update.source_sequence == 0
}

/// Whether an update answers a keepalive.
pub open spec fn is_pong(update: SubscribeUpdate, id: i32) -> bool {
    is_control(update) && update.update == Some(Update::Pong(PongUpdate { id }))
}

/// Whether an update is a keepalive of the server.
pub open spec fn is_ping(update: SubscribeUpdate, id: i32) -> bool {
    is_control(update) && update.update == Some(Update::Ping(PingUpdate { id }))
}

/// Wraps a payload that belongs to no event.
fn control_update(update: Update) -> (message: SubscribeUpdate)
    ensures
        is_control(message),
        message.update == Some(update),
{
    SubscribeUpdate {
        schema_version: 0,
        session_id: Bytes::new(),
        sequence: 0,
        observed_at: None,
        event_type: EventType::Unspecified.number(),
        filters: Vec::new(),
        source_sequence: 0,
        update: Some(update),
    }
}

/// The answer to a keepalive.
pub fn subscription_pong(id: i32) -> (update: SubscribeUpdate)
    ensures
        is_pong(update, id),
{
    control_update(Update::Pong(PongUpdate { id }))
}

/// A keepalive of the server.
pub fn subscription_ping(id: i32) -> (update: SubscribeUpdate)
    ensures
        is_ping(update, id),
{
    control_update(Update::Ping(PingUpdate { id }))
}

/// What became of a keepalive that the driver tried to send.
#[derive(Clone, Copy, Debug, PartialEq, Eq, Structural)]
pub enum PingSend {
    /// It is in the outbound queue.
    Sent,
    /// The outbound queue was full.
    Skipped,
    /// The subscriber is gone.
    Closed,
}

/// The identifier of the first keepalive of the server.
pub const FIRST_PING_ID: i32 = -1;

/// The identifier of the keepalive after one that was sent. Keepalives of the server count down
/// from minus one, and start over.
pub open spec fn next_ping_id(id: i32) -> i32 {
    if id == i32::MIN {
        FIRST_PING_ID
    } else {
        (id - 1) as i32
    }
}

/// Whether a payload is what a subscriber gets of an update: block bytes only where full blocks
/// are asked for, and everything else unchanged.
pub open spec fn projected(
    delivered: Option<Update>,
    published: Option<Update>,
    payload: BlockPayload,
) -> bool {
    match published {
        Some(Update::Block(block)) => {
            &&& delivered matches Some(Update::Block(message))
            &&& message.height == block.height
            &&& message.hash == block.hash
            &&& message.receipt_order == block.receipt_order
            &&& message.finalized == block.finalized
            &&& message.payload == payload.spec_number()
            &&& if payload == BlockPayload::MetaOnly {
                bytes_contents(message.block).len() == 0
            } else {
                bytes_contents(message.block) == bytes_contents(block.block)
            }
        },
        _ => delivered == published,
    }
}

/// Whether an update is what a subscriber gets of a published one.
pub open spec fn delivers(
    message: SubscribeUpdate,
    published: SubscribeUpdate,
    names: Seq<Seq<char>>,
    payload: BlockPayload,
) -> bool {
    &&& message.schema_version == published.schema_version
    &&& bytes_contents(message.session_id) == bytes_contents(published.session_id)
    &&& message.sequence == published.sequence
    &&& message.observed_at == published.observed_at
    &&& message.event_type == published.event_type
    &&& texts(message.filters@) == names
    &&& message.source_sequence == published.source_sequence
    &&& projected(message.update, published.update, payload)
}

/// An update that is ready for one subscriber.
#[derive(Debug)]
pub struct Delivery {
    pub message: SubscribeUpdate,
    /// The encoded length to account for.
    pub encoded_len: usize,
}

/// What a subscriber gets of a payload.
fn project_payload(update: &Option<Update>, payload: BlockPayload) -> (delivered: Option<Update>)
    ensures
        projected(delivered, *update, payload),
{
    match update {
        Some(Update::Block(block)) => {
            let bytes = match payload {
                BlockPayload::MetaOnly => Bytes::new(),
                BlockPayload::Unspecified | BlockPayload::Full => block.block.clone(),
            };
            Some(
                Update::Block(
                    BlockUpdate {
                        height: block.height,
                        hash: block.hash.clone(),
                        block: bytes,
                        receipt_order: block.receipt_order,
                        finalized: block.finalized,
                        payload: payload.number(),
                    },
                ),
            )
        },
        Some(Update::BestChain(message)) => Some(Update::BestChain(message.clone())),
        Some(Update::Mempool(message)) => Some(Update::Mempool(message.clone())),
        Some(Update::Transaction(message)) => Some(Update::Transaction(message.clone())),
        Some(Update::Utxo(message)) => Some(Update::Utxo(message.clone())),
        Some(Update::MempoolTransaction(message)) => Some(
            Update::MempoolTransaction(message.clone()),
        ),
        Some(Update::Ping(message)) => Some(Update::Ping(*message)),
        Some(Update::Pong(message)) => Some(Update::Pong(*message)),
        None => None,
    }
}

/// Prepares a published update for one subscriber.
pub fn project(update: &PublishedUpdate, matched: FilterMatch) -> (delivery: Delivery)
    ensures
        delivers(
            delivery.message,
            update.message,
            texts(matched.names@),
            matched.block_payload,
        ),
        delivery.encoded_len == (if matched.block_payload == BlockPayload::MetaOnly {
            capped(delivery.message.spec_encoded_len())
        } else {
            update.encoded_len
        }),
{
    let message = SubscribeUpdate {
        schema_version: update.message.schema_version,
        session_id: update.message.session_id.clone(),
        sequence: update.message.sequence,
        observed_at: update.message.observed_at,
        event_type: update.message.event_type,
        filters: matched.names,
        source_sequence: update.message.source_sequence,
        update: project_payload(&update.message.update, matched.block_payload),
    };
    let encoded_len: usize = match matched.block_payload {
        BlockPayload::MetaOnly => message.encoded_len(),
        BlockPayload::Unspecified | BlockPayload::Full => update.encoded_len,
    };
    Delivery { message, encoded_len }
}

/// Something that happens to a session.
pub enum SessionEvent {
    /// The subscriber sent a request.
    Request(SubscribeRequest),
    /// The subscriber sends no more requests.
    RequestsEnded,
    /// The subscriber's requests cannot be read any more.
    RequestsFailed,
    /// An update was published.
    Live(Published),
    /// The subscriber was too slow and missed published updates.
    Lagged(u64),
    /// No more updates will be published.
    LiveClosed,
    /// It is time for a keepalive.
    Tick,
}

/// What the driver of a session does next.
pub enum SessionAction {
    /// Waits for the next event.
    Wait,
    /// Sends an update, and ends the session if the subscriber is gone.
    Send(SubscribeUpdate),
    /// Waits for room in the outbound queue and sends what [`project`] makes of the update.
    Deliver(Published, FilterMatch),
    /// Sends a keepalive if there is room, and reports to [`Session::ping_sent`].
    Ping(SubscribeUpdate),
    /// Sends a status, and ends the session.
    Fail(Status),
    /// Sends a status if there is room, and ends the session.
    FailIfRoom(Status),
    /// Ends the session.
    End,
}

/// What a session depends on.
pub struct SessionView {
    pub filter: RequestView,
    /// The sequence number up to which published updates are skipped.
    pub watermark: u64,
    /// The identifier of the next keepalive.
    pub ping_id: i32,
}

/// One subscription.
pub struct Session {
    filter: EventFilter,
    limits: Arc<FilterLimits>,
    watermark: u64,
    ping_id: i32,
}

impl View for Session {
    type V = SessionView;

    closed spec fn view(&self) -> SessionView {
        SessionView {
            filter: self.filter@,
            watermark: self.watermark,
            ping_id: self.ping_id,
        }
    }
}

/// What a subscriber is told who missed published updates.
pub open spec fn lag_message(skipped: u64) -> Seq<char> {
    "subscriber lagged by "@ + decimal(skipped as nat) + " events; reconnect with from_height"@
}

/// Whether an action delivers an update to a subscriber who selects it, or waits otherwise.
pub open spec fn delivers_or_waits(
    action: SessionAction,
    view: RequestView,
    update: Published,
) -> bool {
    if view.selects(update.message) {
        &&& action matches SessionAction::Deliver(delivered, matched)
        &&& delivered == update
        &&& match_outcome(Some(matched), view, update.message)
    } else {
        action is Wait
    }
}

/// The outcome of an event.
pub open spec fn step_outcome(
    before: SessionView,
    limits: FilterLimits,
    event: SessionEvent,
    action: SessionAction,
    after: SessionView,
) -> bool {
    match event {
        SessionEvent::Request(request) => match request.ping {
            Some(ping) => {
                &&& action matches SessionAction::Send(update)
                &&& is_pong(update, ping.id)
                &&& after == before
            },
            None => match request_error(request, limits) {
                Some(error) => {
                    &&& action matches SessionAction::Fail(status)
                    &&& status.code == error.spec_code()
                    &&& status.message@ == error.spec_message()
                    &&& after == before
                },
                None => {
                    &&& action is Wait
                    &&& compiles(after.filter, request)
                    &&& after.watermark == before.watermark
                    &&& after.ping_id == before.ping_id
                },
            },
        },
        SessionEvent::RequestsEnded | SessionEvent::RequestsFailed | SessionEvent::LiveClosed => {
            &&& action is End
            &&& after == before
        },
        SessionEvent::Live(update) => {
            &&& after.filter == before.filter
            &&& after.ping_id == before.ping_id
            &&& if update.message.sequence <= before.watermark {
                &&& action is Wait
                &&& after.watermark == before.watermark
            } else {
                &&& delivers_or_waits(action, before.filter, update)
                &&& after.watermark == update.message.sequence
            }
        },
        SessionEvent::Lagged(skipped) => {
            &&& action matches SessionAction::FailIfRoom(status)
            &&& status.code == Code::ResourceExhausted
            &&& status.message@ == lag_message(skipped)
            &&& after == before
        },
        SessionEvent::Tick => {
            &&& action matches SessionAction::Ping(update)
            &&& is_ping(update, before.ping_id)
            &&& after == before
        },
    }
}

impl Session {
    /// The limits on the requests of the subscriber.
    pub closed spec fn spec_limits(self) -> FilterLimits {
        *self.limits
    }

    /// Whether the filter is well formed and the next keepalive is told from those of the
    /// subscriber by its sign.
    pub closed spec fn well_formed(self) -> bool {
        &&& self.filter.well_formed()
        &&& self.ping_id < 0
    }

    /// Starts a session behind a replay.
    pub fn new(filter: EventFilter, limits: Arc<FilterLimits>, watermark: u64) -> (session: Self)
        requires
            filter.well_formed(),
        ensures
            session.well_formed(),
            session.spec_limits() == *limits,
            session@ == (SessionView { filter: filter@, watermark, ping_id: FIRST_PING_ID }),
    {
        Session { filter, limits, watermark, ping_id: FIRST_PING_ID }
    }

    /// What to do with an update of the replay.
    pub fn replay(&self, update: &Published) -> (action: SessionAction)
        requires
            self.well_formed(),
        ensures
            delivers_or_waits(action, self@.filter, *update),
    {
        match self.filter.matched(&update.message) {
            Some(matched) => SessionAction::Deliver(update.clone(), matched),
            None => SessionAction::Wait,
        }
    }

    /// Decides what to do about an event.
    pub fn step(&mut self, event: SessionEvent) -> (action: SessionAction)
        requires
            old(self).well_formed(),
        ensures
            final(self).well_formed(),
            final(self).spec_limits() == old(self).spec_limits(),
            step_outcome(old(self)@, old(self).spec_limits(), event, action, final(self)@),
    {
        match event {
            SessionEvent::Request(request) => {
                if let Some(ping) = request.ping {
                    return SessionAction::Send(subscription_pong(ping.id));
                }
                match EventFilter::new(&request, &self.limits) {
                    Ok(filter) => {
                        self.filter = filter;
                        SessionAction::Wait
                    },
                    Err(status) => SessionAction::Fail(status),
                }
            },
            SessionEvent::RequestsEnded => SessionAction::End,
            SessionEvent::RequestsFailed => SessionAction::End,
            SessionEvent::Live(update) => {
                if update.message.sequence <= self.watermark {
                    return SessionAction::Wait;
                }
                self.watermark = update.message.sequence;
                self.replay(&update)
            },
            SessionEvent::Lagged(skipped) => {
                let message = join3(
                    "subscriber lagged by ",
                    decimal_text(skipped).as_str(),
                    " events; reconnect with from_height",
                );
                SessionAction::FailIfRoom(Status::new(Code::ResourceExhausted, message))
            },
            SessionEvent::LiveClosed => SessionAction::End,
            SessionEvent::Tick => SessionAction::Ping(subscription_ping(self.ping_id)),
        }
    }

    /// Takes note of what became of a keepalive, and tells whether the session goes on.
    pub fn ping_sent(&mut self, outcome: PingSend) -> (goes_on: bool)
        requires
            old(self).well_formed(),
        ensures
            final(self).well_formed(),
            final(self).spec_limits() == old(self).spec_limits(),
            goes_on == (outcome != PingSend::Closed),
            final(self)@.filter == old(self)@.filter,
            final(self)@.watermark == old(self)@.watermark,
            final(self)@.ping_id == (if outcome == PingSend::Sent {
                next_ping_id(old(self)@.ping_id)
            } else {
                old(self)@.ping_id
            }),
    {
        match outcome {
            PingSend::Sent => {
                self.ping_id =
                if self.ping_id == i32::MIN {
                    FIRST_PING_ID
                } else {
                    self.ping_id - 1
                };
                true
            },
            PingSend::Skipped => true,
            PingSend::Closed => false,
        }
    }
}

impl Session {
    /// Keepalives of the server always have negative identifiers, so that they are told apart from
    /// those of a subscriber that counts up.
    pub proof fn law_server_ping_ids_are_negative(&self)
        requires
            self.well_formed(),
        ensures
            self@.ping_id < 0,
            next_ping_id(self@.ping_id) < 0,
    {
    }
}

/// The published updates that a session does not skip, from a watermark on.
pub open spec fn not_skipped(watermark: u64, updates: Seq<Published>) -> Seq<Published>
    decreases updates.len(),
{
    if updates.len() == 0 {
        Seq::empty()
    } else if updates[0].message.sequence <= watermark {
        not_skipped(watermark, updates.drop_first())
    } else {
        seq![updates[0]] + not_skipped(updates[0].message.sequence, updates.drop_first())
    }
}

/// Every step of a session on a published update skips it or goes on behind it.
pub proof fn law_step_skips_or_goes_on(
    before: SessionView,
    limits: FilterLimits,
    update: Published,
    action: SessionAction,
    after: SessionView,
    rest: Seq<Published>,
)
    requires
        step_outcome(before, limits, SessionEvent::Live(update), action, after),
    ensures
        not_skipped(before.watermark, seq![update] + rest) == (if update.message.sequence
            <= before.watermark {
            Seq::empty()
        } else {
            seq![update]
        }) + not_skipped(after.watermark, rest),
        action is Deliver <==> update.message.sequence > before.watermark && before.filter.selects(
            update.message,
        ),
{
    let all = seq![update] + rest;
    assert(all.drop_first() =~= rest);
    assert(all[0] == update);
    assert(Seq::<Published>::empty() + not_skipped(after.watermark, rest) =~= not_skipped(
        after.watermark,
        rest,
    ));
}

/// A session that follows updates in the order of their sequence numbers skips those up to its
/// watermark, and no others.
pub proof fn law_live_delivery_starts_at_watermark(watermark: u64, updates: Seq<Published>)
    requires
        increasing(updates),
    ensures
        exists|skipped: int|
            {
                &&& 0 <= skipped <= updates.len()
                &&& not_skipped(watermark, updates) == #[trigger] updates.skip(skipped)
                &&& forall|i: int|
                    0 <= i < skipped ==> (#[trigger] updates[i]).message.sequence <= watermark
                &&& forall|i: int|
                    skipped <= i < updates.len() ==> (#[trigger] updates[i]).message.sequence
                        > watermark
            },
    decreases updates.len(),
{
    assert(updates.skip(0) =~= updates);
    if updates.len() > 0 {
        let rest = updates.drop_first();
        assert forall|i: int, j: int| 0 <= i < j < rest.len() implies (
        #[trigger] rest[i]).message.sequence < (#[trigger] rest[j]).message.sequence by {
            assert(updates[i + 1].message.sequence < updates[j + 1].message.sequence);
        }
        if updates[0].message.sequence <= watermark {
            law_live_delivery_starts_at_watermark(watermark, rest);
            let inner = choose|skipped: int|
                {
                    &&& 0 <= skipped <= rest.len()
                    &&& not_skipped(watermark, rest) == #[trigger] rest.skip(skipped)
                    &&& forall|i: int|
                        0 <= i < skipped ==> (#[trigger] rest[i]).message.sequence <= watermark
                    &&& forall|i: int|
                        skipped <= i < rest.len() ==> (#[trigger] rest[i]).message.sequence
                            > watermark
                };
            assert(rest.skip(inner) =~= updates.skip(inner + 1));
            assert forall|i: int| 0 <= i < inner + 1 implies (
            #[trigger] updates[i]).message.sequence <= watermark by {
                if i > 0 {
                    assert(rest[i - 1] == updates[i]);
                }
            }
            assert forall|i: int| inner + 1 <= i < updates.len() implies (
            #[trigger] updates[i]).message.sequence > watermark by {
                assert(rest[i - 1] == updates[i]);
            }
        } else {
            let next = updates[0].message.sequence;
            law_live_delivery_starts_at_watermark(next, rest);
            let inner = choose|skipped: int|
                {
                    &&& 0 <= skipped <= rest.len()
                    &&& not_skipped(next, rest) == #[trigger] rest.skip(skipped)
                    &&& forall|i: int|
                        0 <= i < skipped ==> (#[trigger] rest[i]).message.sequence <= next
                    &&& forall|i: int|
                        skipped <= i < rest.len() ==> (#[trigger] rest[i]).message.sequence > next
                };
            if inner > 0 {
                assert(updates[0].message.sequence < updates[1].message.sequence);
                assert(rest[0] == updates[1]);
            }
            assert(rest.skip(0) =~= rest);
            assert(seq![updates[0]] + rest =~= updates);
            assert forall|i: int| 0 <= i < updates.len() implies (
            #[trigger] updates[i]).message.sequence > watermark by {
                if i > 0 {
                    assert(updates[0].message.sequence < updates[i].message.sequence);
                }
            }
        }
    } else {
        assert(not_skipped(watermark, updates) =~= updates.skip(0));
    }
}

/// A replay followed by live delivery from the replay's watermark on hands every update out at
/// most once, in the order of the sequence numbers, and loses no later one: it does not matter
/// how many of the live updates were published before the replay was taken.
pub proof fn law_replay_and_live_have_no_overlap_and_no_gap(
    replay: Seq<Published>,
    watermark: u64,
    live: Seq<Published>,
)
    requires
        increasing(replay),
        none_after(replay, watermark),
        increasing(live),
    ensures
        increasing(replay + not_skipped(watermark, live)),
        forall|i: int|
            0 <= i < live.len() && (#[trigger] live[i]).message.sequence > watermark
                ==> not_skipped(watermark, live).contains(live[i]),
{
    law_live_delivery_starts_at_watermark(watermark, live);
    let skipped = choose|skipped: int|
        {
            &&& 0 <= skipped <= live.len()
            &&& not_skipped(watermark, live) == #[trigger] live.skip(skipped)
            &&& forall|i: int|
                0 <= i < skipped ==> (#[trigger] live[i]).message.sequence <= watermark
            &&& forall|i: int|
                skipped <= i < live.len() ==> (#[trigger] live[i]).message.sequence > watermark
        };
    let kept = live.skip(skipped);
    let all = replay + kept;
    assert forall|i: int, j: int| 0 <= i < j < all.len() implies (
    #[trigger] all[i]).message.sequence < (#[trigger] all[j]).message.sequence by {
        if j < replay.len() {
            assert(replay[i].message.sequence < replay[j].message.sequence);
        } else {
            let at = j - replay.len() + skipped;
            assert(all[j] == live[at]);
            if i < replay.len() {
                assert(replay[i].message.sequence <= watermark);
            } else {
                assert(all[i] == live[i - replay.len() + skipped]);
            }
        }
    }
    assert forall|i: int|
        0 <= i < live.len() && (#[trigger] live[i]).message.sequence > watermark implies kept.contains(
        live[i],
    ) by {
        assert(i >= skipped);
        assert(kept[i - skipped] == live[i]);
    }
}

} // verus!
