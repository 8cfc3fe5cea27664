//! The client's side of a subscription: follows the stream, answers keepalives, and resumes after
//! an outage.
//!
//! A subscription is driven from outside: the driver waits for an event, hands it to
//! [`Subscription::step`], and performs the action that comes back.

use crate::config::FilterLimits;
use crate::dedup::{
    disjoint_keys, distinct_heights, key_of, law_repeated_update_is_suppressed, observed,
    remembered, update_height, DedupState, HeightView, DEFAULT_HEIGHT_RETENTION,
};
use crate::event::spec_block_height;
use crate::proto::{EventType, SubscribeRequest, SubscribeRequestPing, SubscribeUpdate, Update};
use crate::session::{step_outcome, SessionAction, SessionEvent, SessionView};
use crate::status::{Code, Status};
use crate::text::join2;
use std::sync::Arc;
use vstd::prelude::*;

verus! {

/// Exponential retry schedule for one connection outage.
#[derive(Clone, Copy, Debug, PartialEq, Eq, Structural)]
pub struct Backoff {
    /// Delay before the first retry, in nanoseconds.
    pub initial_interval_nanos: u128,
    /// Multiplier applied after each retry, as the bit pattern of a double-precision number.
    pub multiplier_bits: u64,
    /// Number of retries after the first reconnect attempt.
    pub max_retries: u32,
}

/// The bit pattern of the double-precision number two.
pub const MULTIPLIER_TWO: u64 = 0x4000_0000_0000_0000;

impl Backoff {
    /// Creates a retry schedule.
    pub fn new(initial_interval_nanos: u128, multiplier_bits: u64, max_retries: u32) -> (backoff:
        Self)
        ensures
            backoff == (Backoff { initial_interval_nanos, multiplier_bits, max_retries }),
    {
        Backoff { initial_interval_nanos, multiplier_bits, max_retries }
    }
}

impl Default for Backoff {
    fn default() -> (backoff: Self)
        ensures
            backoff.initial_interval_nanos == 100_000_000,
            backoff.multiplier_bits == MULTIPLIER_TWO,
            backoff.max_retries == 8,
    {
        // Covers a normal graceful node restart while still terminating a dead
        // stream after a bounded amount of time (about 25 seconds).
        Self::new(100_000_000, MULTIPLIER_TWO, 8)
    }
}

/// Whether reconnect should resume from a retained block checkpoint.
#[derive(Clone, Copy, Debug, PartialEq, Eq, Structural)]
pub enum ReconnectionPolicy {
    /// Reconnect at the live head and intentionally discard events from the outage.
    SkipMissedData,
    /// Replay from the latest checkpoint and suppress duplicates already delivered.
    RecoverMissedData {
        /// Number of distinct block heights retained by client-side deduplication.
        height_retention: usize,
    },
}

/// Automatic reconnect behavior for subscription streams.
#[derive(Clone, Copy, Debug, PartialEq, Eq, Structural)]
pub struct ReconnectConfig {
    /// Retry schedule applied independently to every outage.
    pub backoff: Backoff,
    /// Gap recovery policy.
    pub policy: ReconnectionPolicy,
    /// Heights replayed before the latest observed height to cover same-height ordering races.
    pub checkpoint_height_buffer: u32,
}

impl Default for ReconnectConfig {
    fn default() -> (config: Self)
        ensures
            config.backoff.initial_interval_nanos == 100_000_000,
            config.backoff.multiplier_bits == MULTIPLIER_TWO,
            config.backoff.max_retries == 8,
            config.policy == (ReconnectionPolicy::RecoverMissedData {
                height_retention: DEFAULT_HEIGHT_RETENTION,
            }),
            config.checkpoint_height_buffer == 2,
    {
        ReconnectConfig {
            backoff: Backoff::default(),
            policy: ReconnectionPolicy::RecoverMissedData {
                height_retention: DEFAULT_HEIGHT_RETENTION,
            },
            checkpoint_height_buffer: 2,
        }
    }
}

impl ReconnectConfig {
    /// Replaces the retry schedule.
    pub fn with_backoff(self, backoff: Backoff) -> (config: Self)
        ensures
            config == (ReconnectConfig { backoff, ..self }),
    {
        ReconnectConfig {
            backoff,
            policy: self.policy,
            checkpoint_height_buffer: self.checkpoint_height_buffer,
        }
    }

    /// Selects gap recovery with the requested deduplication retention.
    pub fn with_height_retention(self, height_retention: usize) -> (config: Self)
        ensures
            config == (ReconnectConfig {
                policy: ReconnectionPolicy::RecoverMissedData { height_retention },
                ..self
            }),
    {
        ReconnectConfig {
            backoff: self.backoff,
            policy: ReconnectionPolicy::RecoverMissedData { height_retention },
            checkpoint_height_buffer: self.checkpoint_height_buffer,
        }
    }
}

/// Whether a stream that failed with a code is worth another attempt.
pub open spec fn recoverable(code: Code) -> bool {
    ||| code == Code::Cancelled
    ||| code == Code::Unknown
    ||| code == Code::DeadlineExceeded
    ||| code == Code::ResourceExhausted
    ||| code == Code::Aborted
    ||| code == Code::Internal
    ||| code == Code::Unavailable
    ||| code == Code::DataLoss
    ||| code == Code::OutOfRange
}

/// Whether a stream that failed with a code is worth another attempt.
pub fn is_recoverable_status(code: Code) -> (worthwhile: bool)
    ensures
        worthwhile == recoverable(code),
{
    matches!(
        code,
        Code::Cancelled | Code::Unknown | Code::DeadlineExceeded | Code::ResourceExhausted
            | Code::Aborted | Code::Internal | Code::Unavailable | Code::DataLoss | Code::OutOfRange
    )
}

/// Why an attempt to connect failed.
#[derive(Clone, Copy, Debug, PartialEq, Eq, Structural)]
pub enum ConnectFailure {
    /// There is no connection.
    Transport,
    /// The server refused the subscription.
    Refused(Code),
}

/// Whether an attempt that failed is worth another one.
pub open spec fn recoverable_failure(failure: ConnectFailure) -> bool {
    match failure {
        ConnectFailure::Transport => true,
        ConnectFailure::Refused(code) => recoverable(code),
    }
}

/// Whether an attempt that failed is worth another one.
pub fn is_recoverable_client_error(failure: ConnectFailure) -> (worthwhile: bool)
    ensures
        worthwhile == recoverable_failure(failure),
{
    match failure {
        ConnectFailure::Transport => true,
        ConnectFailure::Refused(code) => is_recoverable_status(code),
    }
}

/// The attempts to connect during one outage.
#[derive(Clone, Copy, Debug, PartialEq, Eq, Structural)]
pub struct Attempts {
    /// The retries that were made.
    retries: u32,
    max_retries: u32,
}

impl Attempts {
    /// The retries that were made.
    pub closed spec fn made(self) -> u32 {
        self.retries
    }

    /// The retries that may be made.
    pub closed spec fn allowed(self) -> u32 {
        self.max_retries
    }

    /// Whether no more retries were made than allowed.
    pub open spec fn well_formed(self) -> bool {
        self.made() <= self.allowed()
    }

    /// The attempts of a new outage, of which the first one is about to be made.
    pub fn new(backoff: &Backoff) -> (attempts: Self)
        ensures
            attempts.well_formed(),
            attempts.made() == 0,
            attempts.allowed() == backoff.max_retries,
    {
        Attempts { retries: 0, max_retries: backoff.max_retries }
    }

    /// Decides after a failed attempt whether to wait and try again, or to give up.
    pub fn failed(&mut self, failure: ConnectFailure) -> (retry: bool)
        requires
            old(self).well_formed(),
        ensures
            final(self).well_formed(),
            final(self).allowed() == old(self).allowed(),
            retry == (recoverable_failure(failure) && old(self).made() < old(self).allowed()),
            final(self).made() == old(self).made() + (if retry {
                1int
            } else {
                0
            }),
    {
        if self.retries < self.max_retries && is_recoverable_client_error(failure) {
            self.retries = self.retries + 1;
            true
        } else {
            false
        }
    }
}

/// Something that happens to a subscription.
pub enum ClientEvent {
    /// The application sent a request.
    Command(SubscribeRequest),
    /// The application sends no more requests.
    CommandsClosed,
    /// The server sent an update.
    Message(SubscribeUpdate),
    /// The server ended the stream.
    Ended,
    /// The stream failed.
    Failed(Status),
    /// A request of the application could not be sent.
    RequestRefused,
    /// The answer to a keepalive could not be sent.
    PongRefused,
    /// There is a new stream.
    Reconnected,
    /// There is no new stream, for some reason.
    ReconnectFailed(String),
}

/// What the driver of a subscription does next.
pub enum ClientAction {
    /// Waits for the next event.
    Wait,
    /// Sends a request to the server, or reports [`ClientEvent::RequestRefused`].
    Send(Arc<SubscribeRequest>),
    /// Answers a keepalive of the server, or reports [`ClientEvent::PongRefused`].
    Answer(SubscribeRequest),
    /// Hands an update to the application, and ends if the application is gone.
    Deliver(SubscribeUpdate),
    /// Opens a new stream with a request, from some height on.
    Reconnect { request: Arc<SubscribeRequest>, from_height: Option<u32> },
    /// Hands a status to the application, and ends.
    Fail(Status),
    /// Ends.
    End,
}

/// What a subscription depends on.
pub struct ClientView {
    /// The request that is in force.
    pub request: Arc<SubscribeRequest>,
    /// The height from which the request in force asked for replay.
    pub from_height: Option<u32>,
    /// The latest height that was observed.
    pub checkpoint: Option<u32>,
    /// The remembered keys, if duplicates are suppressed.
    pub heights: Option<Seq<HeightView>>,
    /// Whether the application still sends requests.
    pub commands_open: bool,
}

/// A subscription of the client.
pub struct Subscription {
    request: Arc<SubscribeRequest>,
    from_height: Option<u32>,
    checkpoint: Option<u32>,
    dedup: Option<DedupState>,
    commands_open: bool,
    reconnect: Option<ReconnectConfig>,
}

impl View for Subscription {
    type V = ClientView;

    closed spec fn view(&self) -> ClientView {
        ClientView {
            request: self.request,
            from_height: self.from_height,
            checkpoint: self.checkpoint,
            heights: match self.dedup {
                Some(state) => Some(state@),
                None => None,
            },
            commands_open: self.commands_open,
        }
    }
}

/// Whether a request is a keepalive and nothing else.
pub open spec fn is_ping_request(request: SubscribeRequest, id: i32) -> bool {
    &&& request.event_types@.len() == 0
    &&& request.from_height is None
    &&& request.filters@.len() == 0
    &&& request.ping == Some(SubscribeRequestPing { id })
}

/// A keepalive, or the answer to one.
pub fn ping_request(id: i32) -> (request: SubscribeRequest)
    ensures
        is_ping_request(request, id),
{
    SubscribeRequest {
        event_types: Vec::new(),
        from_height: None,
        filters: Vec::new(),
        ping: Some(SubscribeRequestPing { id }),
    }
}

/// Whether a request selects event types without a name, and nothing else.
pub open spec fn selects_types(request: SubscribeRequest, event_types: Seq<EventType>) -> bool {
    &&& request.event_types@ == event_types.map_values(|kind: EventType| kind.spec_number())
    &&& request.from_height is None
    &&& request.filters@.len() == 0
    &&& request.ping is None
}

/// Replaces the active event filter without starting another replay.
pub fn event_types_request(event_types: &[EventType]) -> (request: SubscribeRequest)
    ensures
        selects_types(request, event_types@),
{
    let mut numbers: Vec<i32> = Vec::new();
    for index in 0..event_types.len()
        invariant
            numbers@.len() == index,
            forall|i: int| 0 <= i < index ==> numbers@[i] == event_types@[i].spec_number(),
    {
        numbers.push(event_types[index].number());
    }
    proof {
        assert(numbers@ =~= event_types@.map_values(|kind: EventType| kind.spec_number()));
    }
    SubscribeRequest {
        event_types: numbers,
        from_height: None,
        filters: Vec::new(),
        ping: None,
    }
}

/// The height from which a new stream resumes.
pub open spec fn resume_height(
    config: ReconnectConfig,
    checkpoint: Option<u32>,
    from_height: Option<u32>,
) -> Option<u32> {
    match config.policy {
        ReconnectionPolicy::SkipMissedData => None,
        ReconnectionPolicy::RecoverMissedData { .. } => match checkpoint {
            Some(height) => Some(
                if height < config.checkpoint_height_buffer {
                    0
                } else {
                    (height - config.checkpoint_height_buffer) as u32
                },
            ),
            None => from_height,
        },
    }
}

/// Whether a status tells that the requested height is not retained any more.
pub open spec fn is_out_of_range(status: Option<Status>) -> bool {
    status is Some && status->0.code == Code::OutOfRange
}

/// The outcome of an outage, with the status that ended the stream, if there was one.
pub open spec fn disconnect_outcome(
    before: ClientView,
    reconnect: Option<ReconnectConfig>,
    status: Option<Status>,
    action: ClientAction,
    after: ClientView,
) -> bool {
    match reconnect {
        None => {
            &&& after == before
            &&& match status {
                Some(status) => action == ClientAction::Fail(status),
                None => action is End,
            }
        },
        Some(config) => {
            if status is Some && !recoverable(status->0.code) {
                &&& after == before
                &&& action == ClientAction::Fail(status->0)
            } else {
                let checkpoint = if is_out_of_range(status) {
                    None
                } else {
                    before.checkpoint
                };
                let from_height = if is_out_of_range(status) {
                    None
                } else {
                    before.from_height
                };
                &&& after == (ClientView { checkpoint, from_height, ..before })
                &&& action == (ClientAction::Reconnect {
                    request: before.request,
                    from_height: resume_height(config, checkpoint, from_height),
                })
            }
        },
    }
}

/// Whether a status reports an outage with some text.
pub open spec fn is_unavailable(status: Status, message: Seq<char>) -> bool {
    status.code == Code::Unavailable && status.message@ == message
}

/// The outcome of an update that is neither a keepalive nor the answer to one of the client's.
pub open spec fn update_outcome(
    before: ClientView,
    retention: Option<usize>,
    update: SubscribeUpdate,
    action: ClientAction,
    after: ClientView,
) -> bool {
    &&& after.request == before.request
    &&& after.from_height == before.from_height
    &&& after.commands_open == before.commands_open
    &&& after.checkpoint == (match spec_block_height(update) {
        Some(height) => Some(height),
        None => before.checkpoint,
    })
    &&& match (before.heights, retention, spec_block_height(update)) {
        (Some(heights), Some(retention), Some(height)) if retention > 0 => {
            &&& after.heights == Some(observed(heights, height, key_of(update), retention))
            &&& if remembered(heights, key_of(update)) {
                action is Wait
            } else {
                action == ClientAction::Deliver(update)
            }
        },
        _ => {
            &&& after.heights == before.heights
            &&& action == ClientAction::Deliver(update)
        },
    }
}

/// The outcome of a message of the server.
pub open spec fn message_outcome(
    before: ClientView,
    retention: Option<usize>,
    update: SubscribeUpdate,
    action: ClientAction,
    after: ClientView,
) -> bool {
    match update.update {
        Some(Update::Ping(ping)) => {
            &&& after == before
            &&& action matches ClientAction::Answer(request)
            &&& is_ping_request(request, ping.id)
        },
        Some(Update::Pong(pong)) if pong.id < 0 => {
            &&& after == before
            &&& action is Wait
        },
        _ => update_outcome(before, retention, update, action, after),
    }
}

/// The outcome of an event.
pub open spec fn client_outcome(
    before: ClientView,
    reconnect: Option<ReconnectConfig>,
    retention: Option<usize>,
    event: ClientEvent,
    action: ClientAction,
    after: ClientView,
) -> bool {
    match event {
        ClientEvent::Command(request) => {
            &&& action matches ClientAction::Send(sent)
            &&& if request.ping is Some {
                &&& *sent == request
                &&& after == before
            } else {
                &&& *sent == (SubscribeRequest { from_height: None, ..request })
                &&& after == (ClientView { request: sent, from_height: None, ..before })
            }
        },
        ClientEvent::CommandsClosed => {
            &&& action is Wait
            &&& after == (ClientView { commands_open: false, ..before })
        },
        ClientEvent::Message(update) => message_outcome(before, retention, update, action, after),
        ClientEvent::Ended => disconnect_outcome(before, reconnect, None, action, after),
        ClientEvent::Failed(status) => disconnect_outcome(
            before,
            reconnect,
            Some(status),
            action,
            after,
        ),
        ClientEvent::RequestRefused => exists|status: Status|
            {
                &&& is_unavailable(status, "subscription request stream closed"@)
                &&& #[trigger] disconnect_outcome(before, reconnect, Some(status), action, after)
            },
        ClientEvent::PongRefused => exists|status: Status|
            {
                &&& is_unavailable(
                    status,
                    "subscription request stream closed while replying to server ping"@,
                )
                &&& #[trigger] disconnect_outcome(before, reconnect, Some(status), action, after)
            },
        ClientEvent::Reconnected => {
            &&& action is Wait
            &&& after == before
        },
        ClientEvent::ReconnectFailed(reason) => {
            &&& action matches ClientAction::Fail(status)
            &&& is_unavailable(status, "subscription reconnect failed: "@ + reason@)
            &&& after == before
        },
    }
}

/// The number of heights that are remembered, if duplicates are suppressed.
pub open spec fn configured_retention(reconnect: Option<ReconnectConfig>) -> Option<usize> {
    match reconnect {
        Some(config) => match config.policy {
            ReconnectionPolicy::RecoverMissedData { height_retention } => Some(height_retention),
            ReconnectionPolicy::SkipMissedData => None,
        },
        None => None,
    }
}

impl Subscription {
    /// How the subscription reconnects, if it does.
    pub closed spec fn spec_reconnect(self) -> Option<ReconnectConfig> {
        self.reconnect
    }

    /// Whether duplicates are suppressed if and only if missed data is recovered.
    pub closed spec fn well_formed(self) -> bool {
        match (self.dedup, configured_retention(self.reconnect)) {
            (Some(state), Some(retention)) => {
                &&& state.well_formed()
                &&& state.spec_retention() == retention
            },
            (None, None) => true,
            _ => false,
        }
    }

    /// Starts behind the first request.
    pub fn new(initial: SubscribeRequest, reconnect: Option<ReconnectConfig>) -> (subscription: Self)
        ensures
            subscription.well_formed(),
            subscription.spec_reconnect() == reconnect,
            *subscription@.request == initial,
            subscription@.from_height == initial.from_height,
            subscription@.checkpoint == initial.from_height,
            subscription@.heights == (match configured_retention(reconnect) {
                Some(_) => Some(Seq::<HeightView>::empty()),
                None => None,
            }),
            subscription@.commands_open,
    {
        let dedup: Option<DedupState> = match reconnect {
            Some(config) => match config.policy {
                ReconnectionPolicy::SkipMissedData => None,
                ReconnectionPolicy::RecoverMissedData { height_retention } => Some(
                    DedupState::with_height_retention(height_retention),
                ),
            },
            None => None,
        };
        let from_height = initial.from_height;
        Subscription {
            request: Arc::new(initial),
            from_height,
            checkpoint: from_height,
            dedup,
            commands_open: true,
            reconnect,
        }
    }

    /// Whether the application still sends requests.
    pub fn commands_open(&self) -> (open: bool)
        ensures
            open == self@.commands_open,
    {
        self.commands_open
    }

    /// Decides what to do with an update.
    fn handle_update(&mut self, update: SubscribeUpdate) -> (action: ClientAction)
        requires
            old(self).well_formed(),
        ensures
            final(self).well_formed(),
            final(self).spec_reconnect() == old(self).spec_reconnect(),
            message_outcome(
                old(self)@,
                configured_retention(old(self).spec_reconnect()),
                update,
                action,
                final(self)@,
            ),
    {
        match &update.update {
            Some(Update::Ping(ping)) => {
                return ClientAction::Answer(ping_request(ping.id));
            },
            Some(Update::Pong(pong)) => {
                if pong.id < 0 {
                    return ClientAction::Wait;
                }
            },
            _ => {},
        }
        if let Some(height) = update_height(&update) {
            self.checkpoint = Some(height);
        }
        let mut fresh = true;
        let dedup = self.dedup.take();
        self.dedup =
        match dedup {
            Some(state) => {
                let mut state = state;
                fresh = state.observe(&update);
                Some(state)
            },
            None => None,
        };
        if fresh {
            ClientAction::Deliver(update)
        } else {
            ClientAction::Wait
        }
    }

    /// Decides what to do about an outage.
    fn handle_disconnect(&mut self, status: Option<Status>) -> (action: ClientAction)
        requires
            old(self).well_formed(),
        ensures
            final(self).well_formed(),
            final(self).spec_reconnect() == old(self).spec_reconnect(),
            disconnect_outcome(
                old(self)@,
                old(self).spec_reconnect(),
                status,
                action,
                final(self)@,
            ),
    {
        let config = match self.reconnect {
            Some(config) => config,
            None => {
                return match status {
                    Some(status) => ClientAction::Fail(status),
                    None => ClientAction::End,
                };
            },
        };
        if let Some(status) = status {
            if !is_recoverable_status(status.code) {
                return ClientAction::Fail(status);
            }
            if status.code == Code::OutOfRange {
                self.checkpoint = None;
                self.from_height = None;
            }
        }
        let from_height: Option<u32> = match config.policy {
            ReconnectionPolicy::SkipMissedData => None,
            ReconnectionPolicy::RecoverMissedData { .. } => match self.checkpoint {
                Some(height) => Some(height.saturating_sub(config.checkpoint_height_buffer)),
                None => self.from_height,
            },
        };
        ClientAction::Reconnect { request: self.request.clone(), from_height }
    }

    /// Decides what to do about an event.
    pub fn step(&mut self, event: ClientEvent) -> (action: ClientAction)
        requires
            old(self).well_formed(),
        ensures
            final(self).well_formed(),
            final(self).spec_reconnect() == old(self).spec_reconnect(),
            client_outcome(
                old(self)@,
                old(self).spec_reconnect(),
                configured_retention(old(self).spec_reconnect()),
                event,
                action,
                final(self)@,
            ),
    {
        match event {
            ClientEvent::Command(request) => {
                if request.ping.is_some() {
                    return ClientAction::Send(Arc::new(request));
                }
                let mut request = request;
                request.from_height = None;
                self.request = Arc::new(request);
                self.from_height = None;
                ClientAction::Send(self.request.clone())
            },
            ClientEvent::CommandsClosed => {
                self.commands_open = false;
                ClientAction::Wait
            },
            ClientEvent::Message(update) => self.handle_update(update),
            ClientEvent::Ended => self.handle_disconnect(None),
            ClientEvent::Failed(status) => self.handle_disconnect(Some(status)),
            ClientEvent::RequestRefused => {
                let status = Status::new(
                    Code::Unavailable,
                    "subscription request stream closed".to_owned(),
                );
                self.handle_disconnect(Some(status))
            },
            ClientEvent::PongRefused => {
                let status = Status::new(
                    Code::Unavailable,
                    "subscription request stream closed while replying to server ping".to_owned(),
                );
                self.handle_disconnect(Some(status))
            },
            ClientEvent::Reconnected => ClientAction::Wait,
            ClientEvent::ReconnectFailed(reason) => ClientAction::Fail(
                Status::new(
                    Code::Unavailable,
                    join2("subscription reconnect failed: ", reason.as_str()),
                ),
            ),
        }
    }
}

impl Subscription {
    /// What a subscription remembers is bounded by the configured number of heights; each height
    /// occurs once, and each key at one height only.
    pub proof fn law_memory_is_bounded(&self)
        requires
            self.well_formed(),
        ensures
            match configured_retention(self.spec_reconnect()) {
                Some(retention) => {
                    &&& self@.heights is Some
                    &&& self@.heights->0.len() <= retention
                    &&& distinct_heights(self@.heights->0)
                    &&& disjoint_keys(self@.heights->0)
                },
                None => self@.heights is None,
            },
    {
        match self.dedup {
            Some(state) => state.law_memory_is_bounded(),
            None => {},
        }
    }
}

/// A stream that recovers missed data resumes at most the configured number of heights below the
/// latest observed one, and never above it.
pub proof fn law_recovery_resumes_at_or_below_checkpoint(
    config: ReconnectConfig,
    checkpoint: u32,
    from_height: Option<u32>,
)
    requires
        config.policy is RecoverMissedData,
    ensures
        resume_height(config, Some(checkpoint), from_height) is Some,
        resume_height(config, Some(checkpoint), from_height)->0 <= checkpoint,
        resume_height(config, Some(checkpoint), from_height)->0 + config.checkpoint_height_buffer
            >= checkpoint,
{
}

/// A stream that skips missed data never asks for replay after an outage.
pub proof fn law_skipping_never_replays(
    config: ReconnectConfig,
    checkpoint: Option<u32>,
    from_height: Option<u32>,
)
    requires
        config.policy is SkipMissedData,
    ensures
        resume_height(config, checkpoint, from_height) is None,
{
}

/// A stream whose height is not retained any more resumes at the live head instead of failing
/// over and over.
pub proof fn law_lost_height_resumes_live(
    before: ClientView,
    config: ReconnectConfig,
    status: Status,
    action: ClientAction,
    after: ClientView,
)
    requires
        status.code == Code::OutOfRange,
        disconnect_outcome(before, Some(config), Some(status), action, after),
    ensures
        action == (ClientAction::Reconnect { request: before.request, from_height: None }),
        after.checkpoint is None,
{
}

/// A block-scoped update that the server sends again, as a replay does, is not handed to the
/// application again.
pub proof fn law_replayed_update_is_not_delivered_again(
    before: ClientView,
    retention: usize,
    update: SubscribeUpdate,
    first: ClientAction,
    between: ClientView,
    second: ClientAction,
    after: ClientView,
)
    requires
        retention > 0,
        before.heights is Some,
        distinct_heights(before.heights->0),
        disjoint_keys(before.heights->0),
        before.heights->0.len() <= retention,
        spec_block_height(update) is Some,
        message_outcome(before, Some(retention), update, first, between),
        message_outcome(between, Some(retention), update, second, after),
    ensures
        second is Wait,
        after == between,
{
    let heights = before.heights->0;
    let height = spec_block_height(update)->0;
    law_repeated_update_is_suppressed(heights, height, key_of(update), retention);
}

/// A subscriber that was too slow is told so with a status that is worth another attempt: it
/// resumes from its checkpoint.
pub proof fn law_lagging_subscriber_resumes(
    session: SessionView,
    limits: FilterLimits,
    skipped: u64,
    told: SessionAction,
    next: SessionView,
    before: ClientView,
    config: ReconnectConfig,
    action: ClientAction,
    after: ClientView,
)
    requires
        step_outcome(session, limits, SessionEvent::Lagged(skipped), told, next),
        told is FailIfRoom,
        disconnect_outcome(before, Some(config), Some(told->FailIfRoom_0), action, after),
    ensures
        after == before,
        action == (ClientAction::Reconnect {
            request: before.request,
            from_height: resume_height(config, before.checkpoint, before.from_height),
        }),
{
}

/// The answers to the server's keepalives never reach the application: the server counts them
/// with negative numbers, the client repeats the number, and hides what comes back.
pub proof fn law_keepalives_are_hidden(
    session: SessionView,
    limits: FilterLimits,
    sent: SessionAction,
    next: SessionView,
    before: ClientView,
    retention: Option<usize>,
    answered: ClientAction,
    between: ClientView,
    replied: SessionAction,
    last: SessionView,
    action: ClientAction,
    after: ClientView,
)
    requires
        session.ping_id < 0,
        step_outcome(session, limits, SessionEvent::Tick, sent, next),
        sent is Ping,
        message_outcome(before, retention, sent->Ping_0, answered, between),
        answered is Answer,
        step_outcome(next, limits, SessionEvent::Request(answered->Answer_0), replied, last),
        replied is Send,
        message_outcome(between, retention, replied->Send_0, action, after),
    ensures
        action is Wait,
        after == before,
        last == session,
{
}

} // verus!
