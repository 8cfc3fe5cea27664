//! Who may call, how often at a time, and with which settings.

use crate::auth::{subscriber_id, SubscriptionGuard, SubscriptionTracker, TokenAuth};
use crate::config::{Config, ConfigError, FilterLimits};
use crate::metadata::metadata_contents;
use crate::proto::{GetVersionResponse, PongResponse, SubscribeReplayInfoResponse};
use crate::service::{GrpcService, ServerVersion, SharedState};
use crate::status::{Code, Status};
use tonic::metadata::MetadataMap;
use vstd::prelude::*;

verus! {

/// Whether a request carries a readable text under a name.
pub open spec fn carries(metadata: MetadataMap, name: Seq<char>, text: Seq<char>) -> bool {
    let contents = metadata_contents(metadata);
    &&& contents.contains_key(name)
    &&& contents[name].len() == text.len()
    &&& forall|i: int|
        0 <= i < text.len() ==> {
            &&& (#[trigger] contents[name][i]) as int == text[i] as int
            &&& 32 <= contents[name][i] < 127 || contents[name][i] == 9
        }
}

/// Whether a request may be answered: where a token is required, the request has to carry it.
pub open spec fn may_be_answered(token: Option<String>, metadata: MetadataMap) -> bool {
    token is None || carries(metadata, "x-token"@, token->0@)
}

proof fn lemma_carries(metadata: MetadataMap, name: Seq<char>, text: Seq<char>)
    ensures
        carries(metadata, name, text) <==> crate::metadata::header_text(
            metadata_contents(metadata),
            name,
        ) == Some(text),
{
    let contents = metadata_contents(metadata);
    if contents.contains_key(name) {
        let bytes = contents[name];
        let shown = bytes.map_values(|byte: u8| byte as char);
        if carries(metadata, name, text) {
            assert forall|i: int| 0 <= i < bytes.len() implies crate::metadata::visible(
                #[trigger] bytes[i],
            ) && shown[i] == text[i] by {
                assert(contents[name][i] as int == text[i] as int);
            }
            assert(shown =~= text);
        }
        if crate::metadata::header_text(contents, name) == Some(text) {
            assert(shown == text);
            assert forall|i: int| 0 <= i < text.len() implies (#[trigger] contents[name][i]) as int
                == text[i] as int && (32 <= contents[name][i] < 127 || contents[name][i] == 9) by {
                assert(crate::metadata::visible(bytes[i]));
                assert(shown[i] == text[i]);
            }
        }
    }
}

/// Without a token every request is answered. With one, the requests that carry exactly this token
/// are, and all others are turned away as unauthenticated.
pub proof fn law_the_token_is_required(
    expected: Option<String>,
    auth: TokenAuth,
    metadata: MetadataMap,
    result: Result<(), Status>,
)
    requires
        call_ensures(TokenAuth::new, (expected,), auth),
        call_ensures(TokenAuth::authorize, (&auth, &metadata), result),
    ensures
        result is Ok <==> may_be_answered(expected, metadata),
        result matches Err(status) ==> status.code == Code::Unauthenticated,
{
    if expected is Some {
        lemma_carries(metadata, "x-token"@, expected->0@);
    }
}

/// A stream is counted under the identity that its request states, if it states one, or else under
/// the address that it comes from.
pub proof fn law_streams_are_counted_by_identity(
    metadata: MetadataMap,
    remote_ip: Option<String>,
    stated: Seq<char>,
    id: String,
)
    requires
        call_ensures(subscriber_id, (&metadata, remote_ip), id),
    ensures
        stated.len() > 0 && carries(metadata, "x-subscription-id"@, stated) ==> id@ == stated,
        (forall|text: Seq<char>|
            text.len() > 0 ==> !carries(metadata, "x-subscription-id"@, text)) ==> match remote_ip {
            Some(ip) => id@ == ip@,
            None => id@ == "anonymous"@,
        },
{
    lemma_carries(metadata, "x-subscription-id"@, stated);
    let named = crate::metadata::header_text(metadata_contents(metadata), "x-subscription-id"@);
    if named is Some {
        lemma_carries(metadata, "x-subscription-id"@, named->0);
    }
}

/// A stream raises the count of its subscriber by one and nobody else's. Where the limit is
/// enforced, a subscriber with that many streams is turned away and nothing is counted; where it is
/// not, the stream is marked as exceeding the limit. Giving the stream back undoes it.
pub proof fn law_streams_are_counted(
    opening: &mut SubscriptionTracker,
    closing: &mut SubscriptionTracker,
    metadata: MetadataMap,
    remote_ip: Option<String>,
    id: String,
    own: &str,
    other: &str,
    result: Result<SubscriptionGuard, Status>,
    before: (usize, usize),
    during: (usize, usize),
    after: (usize, usize),
    exceeds: bool,
)
    requires
        opening.well_formed(),
        call_ensures(subscriber_id, (&metadata, remote_ip), id),
        own@ == id@,
        other@ != id@,
        call_ensures(SubscriptionTracker::active, (&*opening, own), before.0),
        call_ensures(SubscriptionTracker::active, (&*opening, other), before.1),
        before.0 < usize::MAX,
        call_ensures(SubscriptionTracker::acquire, (opening, &metadata, remote_ip), result),
        call_ensures(SubscriptionTracker::active, (&*final(opening), own), during.0),
        call_ensures(SubscriptionTracker::active, (&*final(opening), other), during.1),
        *closing == *final(opening),
        result matches Ok(guard) ==> {
            &&& call_ensures(SubscriptionGuard::exceeds_limit, (&guard,), exceeds)
            &&& call_ensures(SubscriptionTracker::release, (closing, guard), ())
            &&& call_ensures(SubscriptionTracker::active, (&*final(closing), own), after.0)
            &&& call_ensures(SubscriptionTracker::active, (&*final(closing), other), after.1)
        },
    ensures
        match result {
            Ok(_) => {
                &&& before.0 >= old(opening).spec_limit() ==> !old(opening).spec_enforce()
                &&& exceeds <==> before.0 >= old(opening).spec_limit()
                &&& during == (((before.0 + 1) as usize, before.1))
                &&& after == before
            },
            Err(status) => {
                &&& before.0 >= old(opening).spec_limit() && old(opening).spec_enforce()
                &&& status.code == Code::ResourceExhausted
                &&& during == before
            },
        },
{
}

/// A subscriber gets as many streams as the limit allows: the first one is always let in, and with
/// a limit of one that is enforced the second one is not, until the first one is given back.
pub proof fn law_the_limit_is_reached(
    limit: usize,
    enforce: bool,
    first: &mut SubscriptionTracker,
    second: &mut SubscriptionTracker,
    closing: &mut SubscriptionTracker,
    third: &mut SubscriptionTracker,
    metadata: MetadataMap,
    remote_ip: Option<String>,
    one: Result<SubscriptionGuard, Status>,
    other: Result<SubscriptionGuard, Status>,
    again: Result<SubscriptionGuard, Status>,
)
    requires
        limit > 0,
        call_ensures(SubscriptionTracker::new, (limit, enforce), *first),
        call_ensures(SubscriptionTracker::acquire, (first, &metadata, remote_ip), one),
        *second == *final(first),
        call_ensures(SubscriptionTracker::acquire, (second, &metadata, remote_ip), other),
        *closing == *final(second),
        one matches Ok(guard) ==> call_ensures(SubscriptionTracker::release, (closing, guard), ()),
        *third == *final(closing),
        call_ensures(SubscriptionTracker::acquire, (third, &metadata, remote_ip), again),
    ensures
        one is Ok,
        other is Ok <==> !enforce || limit > 1,
        again is Ok <==> !enforce || limit >= 2 || other is Err,
{
}

/// Every question to the server is answered only with the token, and then in full: the version, a
/// ping with its number, and the replay window.
pub proof fn law_questions_need_the_token(
    config: Config,
    service: GrpcService,
    state: &mut SharedState,
    metadata: MetadataMap,
    server: ServerVersion,
    count: i32,
    version: Result<GetVersionResponse, Status>,
    pong: Result<PongResponse, Status>,
    info: Result<SubscribeReplayInfoResponse, Status>,
)
    requires
        config.subscription_limit > 0,
        call_ensures(GrpcService::new, (&config,), service),
        state.well_formed(),
        call_ensures(GrpcService::get_version, (&service, &metadata, &server), version),
        call_ensures(GrpcService::ping, (&service, &metadata, count), pong),
        call_ensures(GrpcService::subscribe_replay_info, (&service, state, &metadata), info),
    ensures
        version is Ok <==> may_be_answered(config.x_token, metadata),
        version matches Ok(response) ==> {
            &&& response.version == server.version
            &&& response.interface_version == server.interface_version
            &&& response.event_schema_version == server.event_schema_version
        },
        version matches Err(status) ==> status.code == Code::Unauthenticated,
        pong is Ok <==> may_be_answered(config.x_token, metadata),
        pong matches Ok(response) ==> response.count == count,
        pong matches Err(status) ==> status.code == Code::Unauthenticated,
        info is Ok <==> may_be_answered(config.x_token, metadata),
        info matches Err(status) ==> status.code == Code::Unauthenticated && *final(state) == *old(
            state,
        ),
{
    if config.x_token is Some {
        lemma_carries(metadata, "x-token"@, config.x_token->0@);
    }
}

/// A subscriber is let in with the token, and as long as the configured limit allows it: with a
/// limit of one that is enforced not a second time, until the first stream is given back.
pub proof fn law_subscribers_need_the_token(
    config: Config,
    first: &mut GrpcService,
    second: &mut GrpcService,
    closing: &mut GrpcService,
    third: &mut GrpcService,
    metadata: MetadataMap,
    remote_ip: Option<String>,
    one: Result<SubscriptionGuard, Status>,
    other: Result<SubscriptionGuard, Status>,
    again: Result<SubscriptionGuard, Status>,
)
    requires
        config.subscription_limit > 0,
        call_ensures(GrpcService::new, (&config,), *first),
        call_ensures(GrpcService::begin, (first, &metadata, remote_ip), one),
        *second == *final(first),
        call_ensures(GrpcService::begin, (second, &metadata, remote_ip), other),
        *closing == *final(second),
        one matches Ok(guard) ==> call_ensures(GrpcService::release, (closing, guard), ()),
        one is Ok ==> *third == *final(closing),
        one is Ok ==> call_ensures(GrpcService::begin, (third, &metadata, remote_ip), again),
    ensures
        one is Ok <==> may_be_answered(config.x_token, metadata),
        one matches Err(status) ==> status.code == Code::Unauthenticated && other is Err,
        one is Ok ==> {
            &&& other is Ok <==> !config.subscription_limit_enforce || config.subscription_limit > 1
            &&& other matches Err(status) ==> status.code == Code::ResourceExhausted
            &&& other is Err ==> again is Ok
        },
{
    if config.x_token is Some {
        lemma_carries(metadata, "x-token"@, config.x_token->0@);
    }
}

/// A caller without the token takes up no room: whoever has the token is let in after it, whatever
/// the limit is.
pub proof fn law_strangers_are_not_counted(
    config: Config,
    first: &mut GrpcService,
    second: &mut GrpcService,
    stranger: MetadataMap,
    metadata: MetadataMap,
    stranger_ip: Option<String>,
    remote_ip: Option<String>,
    refused: Result<SubscriptionGuard, Status>,
    result: Result<SubscriptionGuard, Status>,
    exceeds: bool,
)
    requires
        config.subscription_limit > 0,
        call_ensures(GrpcService::new, (&config,), *first),
        !may_be_answered(config.x_token, stranger),
        may_be_answered(config.x_token, metadata),
        call_ensures(GrpcService::begin, (first, &stranger, stranger_ip), refused),
        *second == *final(first),
        call_ensures(GrpcService::begin, (second, &metadata, remote_ip), result),
        result matches Ok(guard) ==> call_ensures(
            SubscriptionGuard::exceeds_limit,
            (&guard,),
            exceeds,
        ),
    ensures
        refused is Err && refused->Err_0.code == Code::Unauthenticated,
        result is Ok,
        !exceeds,
{
    if config.x_token is Some {
        lemma_carries(stranger, "x-token"@, config.x_token->0@);
        lemma_carries(metadata, "x-token"@, config.x_token->0@);
    }
}

/// Whether limits allow at least one filter with one event type and a name.
pub open spec fn allow_something(limits: FilterLimits) -> bool {
    &&& limits.max_named_filters > 0
    &&& limits.max_event_types > 0
    &&& limits.max_name_bytes > 0
}

/// Limits are accepted if and only if they allow something, and what is zero is named.
pub proof fn law_limits_allow_something(limits: FilterLimits, result: Result<(), ConfigError>)
    requires
        call_ensures(FilterLimits::validate, (&limits,), result),
    ensures
        result is Ok <==> allow_something(limits),
        result matches Err(error) ==> match error {
            ConfigError::ZeroMaxNamedFilters => limits.max_named_filters == 0,
            ConfigError::ZeroMaxEventTypes => limits.max_event_types == 0,
            ConfigError::ZeroMaxFilterNameBytes => limits.max_name_bytes == 0,
            _ => false,
        },
{
}

/// A configuration is accepted if and only if every queue and message has room, the token is absent
/// or can be carried by a request, and the limits allow something. What is wrong is named.
pub proof fn law_configurations_are_usable(config: Config, result: Result<(), ConfigError>)
    requires
        call_ensures(Config::validate, (&config,), result),
    ensures
        result is Ok <==> {
            &&& config.broadcast_capacity > 0
            &&& config.client_channel_capacity > 0
            &&& config.max_decoding_message_size > 0
            &&& config.max_encoding_message_size > 0
            &&& config.x_token matches Some(token) ==> {
                &&& token@.len() > 0
                &&& forall|i: int|
                    0 <= i < token@.len() ==> 32 <= (#[trigger] token@[i]) as int && token@[i] as int
                        <= 126 || token@[i] as int == 9
            }
            &&& allow_something(config.filter_limits)
        },
        result matches Err(error) ==> match error {
            ConfigError::ZeroBroadcastCapacity => config.broadcast_capacity == 0,
            ConfigError::ZeroClientChannelCapacity => config.client_channel_capacity == 0,
            ConfigError::ZeroMaxDecodingMessageSize => config.max_decoding_message_size == 0,
            ConfigError::ZeroMaxEncodingMessageSize => config.max_encoding_message_size == 0,
            ConfigError::EmptyToken => config.x_token is Some && config.x_token->0@.len() == 0,
            ConfigError::InvalidToken => config.x_token is Some && config.x_token->0@.len() > 0,
            _ => !allow_something(config.filter_limits),
        },
{
    if config.x_token is Some {
        let token = config.x_token->0@;
        if crate::metadata::is_ascii_metadata(token) {
            assert forall|i: int| 0 <= i < token.len() implies 32 <= (#[trigger] token[i]) as int
                && token[i] as int <= 126 || token[i] as int == 9 by {
                assert(crate::metadata::readable(token[i]));
            }
        }
        if forall|i: int|
            0 <= i < token.len() ==> 32 <= (#[trigger] token[i]) as int && token[i] as int <= 126
                || token[i] as int == 9 {
            assert forall|i: int| 0 <= i < token.len() implies crate::metadata::readable(
                #[trigger] token[i],
            ) by {
                assert(32 <= token[i] as int && token[i] as int <= 126 || token[i] as int == 9);
            }
        }
    }
}

/// The default configuration is accepted, as are the default limits. A copy of limits says the
/// same. Keepalives are sent at the configured interval.
pub proof fn law_defaults_are_usable(
    config: Config,
    limits: FilterLimits,
    verdicts: (Result<(), ConfigError>, Result<(), ConfigError>),
    other: FilterLimits,
    copy: FilterLimits,
    chosen: Config,
    service: GrpcService,
    interval: Option<u64>,
)
    requires
        call_ensures(<Config as Default>::default, (), config),
        call_ensures(<FilterLimits as Default>::default, (), limits),
        call_ensures(Config::validate, (&config,), verdicts.0),
        call_ensures(FilterLimits::validate, (&limits,), verdicts.1),
        call_ensures(<FilterLimits as Clone>::clone, (&other,), copy),
        chosen.subscription_limit > 0,
        call_ensures(GrpcService::new, (&chosen,), service),
        call_ensures(GrpcService::ping_interval_seconds, (&service,), interval),
    ensures
        verdicts.0 is Ok,
        verdicts.1 is Ok,
        copy.max_named_filters == other.max_named_filters,
        copy.max_event_types == other.max_event_types,
        copy.max_name_bytes == other.max_name_bytes,
        copy.max_transaction_ids == other.max_transaction_ids,
        copy.max_transparent_addresses == other.max_transparent_addresses,
        copy.max_address_include == other.max_address_include,
        copy.max_address_exclude == other.max_address_exclude,
        copy.max_address_required == other.max_address_required,
        copy.transaction_id_reject@ == other.transaction_id_reject@,
        copy.transparent_address_reject@ == other.transparent_address_reject@,
        copy.address_include_reject@ == other.address_include_reject@,
        copy.address_exclude_reject@ == other.address_exclude_reject@,
        copy.address_required_reject@ == other.address_required_reject@,
        copy.allow_all == other.allow_all,
        interval == chosen.subscription_ping_interval_seconds,
{
}

} // verus!
