//! What messages tell.

use crate::auth::{subscriber_id, SubscriptionGuard, SubscriptionTracker};
use crate::builder::ZakuraGrpcBuilderError;
use crate::node::PluginError;
use crate::reconnect::{ClientAction, ClientEvent, Subscription};
use crate::rejection::{FilterError, ListField};
use crate::replay::{ReplayBuffer, ReplaySnapshot};
use crate::session::{Session, SessionAction, SessionEvent};
use crate::status::{Code, Status};
use crate::text::{decimal, quoted_text};
use tonic::metadata::MetadataMap;
use vstd::prelude::*;

verus! {

/// Whether a text stands in a message.
pub open spec fn mentions(message: Seq<char>, text: Seq<char>) -> bool {
    exists|at: int|
        0 <= at <= message.len() - text.len() && #[trigger] message.subrange(
            at,
            at + text.len(),
        ) == text
}

pub(crate) proof fn lemma_mentions(head: Seq<char>, text: Seq<char>, tail: Seq<char>)
    ensures
        mentions(head + text + tail, text),
{
    let message = head + text + tail;
    let at = head.len() as int;
    assert(message.subrange(at, at + text.len()) =~= text);
}

pub(crate) proof fn lemma_ends_with(head: Seq<char>, text: Seq<char>)
    ensures
        mentions(head + text, text),
{
    lemma_mentions(head, text, Seq::empty());
    assert(head + text + Seq::<char>::empty() =~= head + text);
}

/// Who asks for a height that is not available is told the height, and the first one that is.
pub proof fn law_refused_heights_are_named(
    asking: &mut ReplayBuffer,
    from: u32,
    now: u128,
    status: Status,
    lowest: Option<u32>,
)
    requires
        asking.well_formed(),
        call_ensures(
            ReplayBuffer::snapshot_at,
            (asking, Some(from), now),
            Err::<ReplaySnapshot, Status>(status),
        ),
        call_ensures(ReplayBuffer::first_available_height, (&*final(asking),), lowest),
    ensures
        mentions(status.message@, decimal(from as nat)),
        lowest matches Some(first) ==> mentions(status.message@, decimal(first as nat)),
{
    let head = "events from height "@;
    let asked = decimal(from as nat);
    let middle = " are not available"@;
    lemma_mentions(head, asked, middle);
    if lowest is Some {
        let before = "; first available height is "@;
        let first = decimal(lowest->0 as nat);
        lemma_mentions(head, asked, middle + before + first);
        assert(head + asked + (middle + before + first) =~= head + asked + middle + (before
            + first));
        assert(status.message@ =~= head + asked + middle + before + first);
        assert(head + asked + middle + (before + first) =~= head + asked + middle + before + first);
        lemma_ends_with(head + asked + middle + before, first);
    }
}

/// A subscriber that missed updates is told how many.
pub proof fn law_missed_updates_are_counted(session: &mut Session, skipped: u64, status: Status)
    requires
        session.well_formed(),
        call_ensures(
            Session::step,
            (session, SessionEvent::Lagged(skipped)),
            SessionAction::FailIfRoom(status),
        ),
    ensures
        mentions(status.message@, decimal(skipped as nat)),
{
    lemma_mentions(
        "subscriber lagged by "@,
        decimal(skipped as nat),
        " events; reconnect with from_height"@,
    );
}

/// A subscriber that is turned away is told its identity and the limit.
pub proof fn law_reached_limits_are_named(
    opening: &mut SubscriptionTracker,
    metadata: MetadataMap,
    remote_ip: Option<String>,
    id: String,
    status: Status,
)
    requires
        opening.well_formed(),
        call_ensures(subscriber_id, (&metadata, remote_ip), id),
        call_ensures(
            SubscriptionTracker::acquire,
            (opening, &metadata, remote_ip),
            Err::<SubscriptionGuard, Status>(status),
        ),
    ensures
        mentions(status.message@, quoted_text(id@)),
        mentions(status.message@, decimal(old(opening).spec_limit() as nat)),
{
    let head = "subscriber "@;
    let name = quoted_text(id@);
    let middle = " reached the concurrent subscription limit ("@;
    let limit = decimal(opening.spec_limit() as nat);
    let tail = ")"@;
    lemma_mentions(head, name, middle + limit + tail);
    assert(head + name + (middle + limit + tail) =~= head + name + middle + limit + tail);
    lemma_mentions(head + name + middle, limit, tail);
}

/// A subscription that cannot be resumed ends with the reason.
pub proof fn law_failed_reconnects_give_the_reason(
    subscription: &mut Subscription,
    reason: String,
    action: ClientAction,
)
    requires
        subscription.well_formed(),
        call_ensures(
            Subscription::step,
            (subscription, ClientEvent::ReconnectFailed(reason)),
            action,
        ),
    ensures
        action matches ClientAction::Fail(status) && status.code == Code::Unavailable && mentions(
            status.message@,
            reason@,
        ),
{
    lemma_ends_with("subscription reconnect failed: "@, reason@);
}

/// Errors of the plugin and of the client give the reason that they were given.
pub proof fn law_reasons_are_passed_on(
    reason: String,
    block: String,
    transaction: String,
    transport: String,
)
    requires
        call_ensures(PluginError::message, (&PluginError::Block(reason),), block),
        call_ensures(PluginError::message, (&PluginError::Transaction(reason),), transaction),
        call_ensures(
            ZakuraGrpcBuilderError::message,
            (&ZakuraGrpcBuilderError::Transport(reason),),
            transport,
        ),
    ensures
        mentions(block@, reason@),
        mentions(transaction@, reason@),
        mentions(transport@, reason@),
{
    lemma_ends_with("failed to encode block: "@, reason@);
    lemma_ends_with("failed to encode transaction: "@, reason@);
    lemma_ends_with("gRPC transport error: "@, reason@);
}

/// What is wrong with a request is named: the limit that it exceeds, or the value that is refused.
pub proof fn law_rejections_name_what_is_wrong(error: FilterError, status: Status, field: &str)
    requires
        call_ensures(FilterError::status, (&error,), status),
        error matches FilterError::ListTooLong { field: list, .. } ==> call_ensures(
            ListField::name,
            (list,),
            field,
        ),
        error matches FilterError::RejectedEntry { field: list, .. } ==> call_ensures(
            ListField::name,
            (list,),
            field,
        ),
    ensures
        match error {
            FilterError::TooManyNamedFilters { maximum } => mentions(
                status.message@,
                decimal(maximum as nat),
            ),
            FilterError::NameTooLong { maximum } => mentions(
                status.message@,
                decimal(maximum as nat),
            ),
            FilterError::TooManyEventTypes { maximum } => mentions(
                status.message@,
                decimal(maximum as nat),
            ),
            FilterError::ListTooLong { maximum, .. } => mentions(
                status.message@,
                decimal(maximum as nat),
            ) && mentions(status.message@, field@),
            FilterError::NamedCatchAllDisabled { name } => mentions(
                status.message@,
                quoted_text(name@),
            ),
            FilterError::InvalidEntry { value, .. } => mentions(
                status.message@,
                quoted_text(value@),
            ),
            FilterError::RejectedEntry { value, .. } => mentions(
                status.message@,
                quoted_text(value@),
            ) && mentions(status.message@, field@),
            FilterError::UnknownEventType { value } => value >= 0 ==> mentions(
                status.message@,
                decimal(value as nat),
            ),
            FilterError::UnknownBlockPayload { value } => value >= 0 ==> mentions(
                status.message@,
                decimal(value as nat),
            ),
            _ => true,
        },
{
    match error {
        FilterError::TooManyNamedFilters { maximum } => {
            lemma_mentions("at most "@, decimal(maximum as nat), " named filters are allowed"@);
        },
        FilterError::NameTooLong { maximum } => {
            lemma_mentions("filter name is longer than "@, decimal(maximum as nat), " bytes"@);
        },
        FilterError::TooManyEventTypes { maximum } => {
            lemma_mentions(
                "at most "@,
                decimal(maximum as nat),
                " event types are allowed per filter"@,
            );
        },
        FilterError::ListTooLong { maximum, .. } => {
            let head = "at most "@ + decimal(maximum as nat);
            let middle = " values are allowed in "@;
            let tail = " per filter"@;
            lemma_mentions("at most "@, decimal(maximum as nat), middle + field@ + tail);
            assert(head + (middle + field@ + tail) =~= head + middle + field@ + tail);
            lemma_mentions(head + middle, field@, tail);
        },
        FilterError::NamedCatchAllDisabled { name } => {
            lemma_mentions(
                "named filter "@,
                quoted_text(name@),
                " must select at least one event type"@,
            );
        },
        FilterError::InvalidEntry { field: list, value } => {
            lemma_ends_with("invalid "@ + list.spec_entry() + " "@, quoted_text(value@));
        },
        FilterError::RejectedEntry { field: list, value } => {
            let rest = " contains rejected "@ + list.spec_entry() + " "@ + quoted_text(value@);
            lemma_ends_with(
                field@ + " contains rejected "@ + list.spec_entry() + " "@,
                quoted_text(value@),
            );
            lemma_mentions(Seq::empty(), field@, rest);
            assert(Seq::<char>::empty() + field@ + rest =~= field@ + " contains rejected "@
                + list.spec_entry() + " "@ + quoted_text(value@));
        },
        FilterError::UnknownEventType { value } => {
            lemma_ends_with("unknown event type "@, decimal(value as nat));
        },
        FilterError::UnknownBlockPayload { value } => {
            lemma_ends_with("unknown block payload mode "@, decimal(value as nat));
        },
        _ => {},
    }
}

} // verus!
