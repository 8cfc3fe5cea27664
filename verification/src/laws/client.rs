//! How a client is set up, and what its requests carry.

use crate::auth::{subscriber_id, TokenAuth};
use crate::builder::{
    ClientSettings, MetadataInterceptor, ZakuraGrpcBuilder, ZakuraGrpcBuilderError,
};
use crate::config::Compression;
use crate::metadata::{is_ascii_metadata, law_visible_text_survives, metadata_contents, readable};
use crate::proto::{EventType, SubscribeRequest};
use crate::reconnect::{
    event_types_request, ping_request, Backoff, ReconnectConfig, ReconnectionPolicy,
};
use crate::status::Status;
use std::time::Duration;
use tonic::metadata::MetadataMap;
use vstd::prelude::*;

verus! {

/// One choice for every setting of a client.
pub struct ChosenSettings {
    pub connect_timeout: Duration,
    pub timeout: Duration,
    pub http2_adaptive_window: bool,
    pub http2_keep_alive_interval: Duration,
    pub keep_alive_timeout: Duration,
    pub keep_alive_while_idle: bool,
    pub initial_connection_window_size: Option<u32>,
    pub initial_stream_window_size: Option<u32>,
    pub tcp_keepalive: Option<Duration>,
    pub tcp_nodelay: bool,
    pub send_compressed: Compression,
    pub accept_compressed: Compression,
    pub max_decoding_message_size: usize,
    pub max_encoding_message_size: usize,
    pub reconnect: ReconnectConfig,
    pub x_token: Option<String>,
    pub subscription_id: Option<String>,
}

/// Whether a client is set up as chosen.
pub open spec fn all_chosen(
    settings: ClientSettings,
    address: Seq<char>,
    chosen: ChosenSettings,
) -> bool {
    &&& settings.endpoint.address@ == address
    &&& settings.endpoint.connect_timeout == Some(chosen.connect_timeout)
    &&& settings.endpoint.timeout == Some(chosen.timeout)
    &&& settings.endpoint.http2_adaptive_window == Some(chosen.http2_adaptive_window)
    &&& settings.endpoint.http2_keep_alive_interval == Some(chosen.http2_keep_alive_interval)
    &&& settings.endpoint.keep_alive_timeout == Some(chosen.keep_alive_timeout)
    &&& settings.endpoint.keep_alive_while_idle == Some(chosen.keep_alive_while_idle)
    &&& settings.endpoint.initial_connection_window_size == chosen.initial_connection_window_size
    &&& settings.endpoint.initial_stream_window_size == chosen.initial_stream_window_size
    &&& settings.endpoint.tcp_keepalive == chosen.tcp_keepalive
    &&& settings.endpoint.tcp_nodelay == Some(chosen.tcp_nodelay)
    &&& settings.options.send_compressed == Some(chosen.send_compressed)
    &&& settings.options.accept_compressed == Some(chosen.accept_compressed)
    &&& settings.options.max_decoding_message_size == Some(chosen.max_decoding_message_size)
    &&& settings.options.max_encoding_message_size == Some(chosen.max_encoding_message_size)
    &&& settings.reconnect == Some(chosen.reconnect)
    &&& settings.interceptor.x_token == chosen.x_token
    &&& settings.interceptor.subscription_id == chosen.subscription_id
}

/// Whether a text consists of visible ASCII characters, spaces and tabs.
pub open spec fn is_plain(text: Seq<char>) -> bool {
    forall|i: int|
        0 <= i < text.len() ==> 32 <= (#[trigger] text[i]) as int && text[i] as int <= 126
            || text[i] as int == 9
}

/// Whether a value is absent, or can be carried by a request and read by the server.
pub open spec fn can_be_carried(value: Option<String>) -> bool {
    value is Some ==> is_plain(value->0@)
}

proof fn lemma_plain(text: Seq<char>)
    ensures
        is_plain(text) <==> is_ascii_metadata(text),
{
    if is_plain(text) {
        assert forall|i: int| 0 <= i < text.len() implies readable(#[trigger] text[i]) by {
            assert(32 <= text[i] as int && text[i] as int <= 126 || text[i] as int == 9);
        }
    }
    if is_ascii_metadata(text) {
        assert forall|i: int| 0 <= i < text.len() implies 32 <= (#[trigger] text[i]) as int
            && text[i] as int <= 126 || text[i] as int == 9 by {
            assert(readable(text[i]));
        }
    }
}

proof fn lemma_can_be_carried(value: Option<String>)
    ensures
        can_be_carried(value) <==> crate::builder::is_optional_header(value),
{
    if value is Some {
        lemma_plain(value->0@);
    }
}

/// Every setting of a client arrives where it is used, and none is lost when others are chosen
/// after it.
pub proof fn law_every_setting_arrives(
    address: &str,
    chosen: ChosenSettings,
    steps: Seq<ZakuraGrpcBuilder>,
    with_token: Result<ZakuraGrpcBuilder, ZakuraGrpcBuilderError>,
    with_identity: Result<ZakuraGrpcBuilder, ZakuraGrpcBuilderError>,
    settings: ClientSettings,
)
    requires
        call_ensures(ZakuraGrpcBuilder::from_static, (address,), steps[0]),
        steps.len() == 16,
        call_ensures(
            ZakuraGrpcBuilder::connect_timeout,
            (steps[0], chosen.connect_timeout),
            steps[1],
        ),
        call_ensures(ZakuraGrpcBuilder::timeout, (steps[1], chosen.timeout), steps[2]),
        call_ensures(
            ZakuraGrpcBuilder::http2_adaptive_window,
            (steps[2], chosen.http2_adaptive_window),
            steps[3],
        ),
        call_ensures(
            ZakuraGrpcBuilder::http2_keep_alive_interval,
            (steps[3], chosen.http2_keep_alive_interval),
            steps[4],
        ),
        call_ensures(
            ZakuraGrpcBuilder::keep_alive_timeout,
            (steps[4], chosen.keep_alive_timeout),
            steps[5],
        ),
        call_ensures(
            ZakuraGrpcBuilder::keep_alive_while_idle,
            (steps[5], chosen.keep_alive_while_idle),
            steps[6],
        ),
        call_ensures(
            ZakuraGrpcBuilder::initial_connection_window_size,
            (steps[6], chosen.initial_connection_window_size),
            steps[7],
        ),
        call_ensures(
            ZakuraGrpcBuilder::initial_stream_window_size,
            (steps[7], chosen.initial_stream_window_size),
            steps[8],
        ),
        call_ensures(ZakuraGrpcBuilder::tcp_keepalive, (steps[8], chosen.tcp_keepalive), steps[9]),
        call_ensures(ZakuraGrpcBuilder::tcp_nodelay, (steps[9], chosen.tcp_nodelay), steps[10]),
        call_ensures(
            ZakuraGrpcBuilder::send_compressed,
            (steps[10], chosen.send_compressed),
            steps[11],
        ),
        call_ensures(
            ZakuraGrpcBuilder::accept_compressed,
            (steps[11], chosen.accept_compressed),
            steps[12],
        ),
        call_ensures(
            ZakuraGrpcBuilder::max_decoding_message_size,
            (steps[12], chosen.max_decoding_message_size),
            steps[13],
        ),
        call_ensures(
            ZakuraGrpcBuilder::max_encoding_message_size,
            (steps[13], chosen.max_encoding_message_size),
            steps[14],
        ),
        call_ensures(
            ZakuraGrpcBuilder::set_reconnect_config,
            (steps[14], chosen.reconnect),
            steps[15],
        ),
        call_ensures(ZakuraGrpcBuilder::x_token, (steps[15], chosen.x_token), with_token),
        with_token matches Ok(builder) ==> call_ensures(
            ZakuraGrpcBuilder::subscription_id,
            (builder, chosen.subscription_id),
            with_identity,
        ),
        with_token is Ok && with_identity is Ok ==> call_ensures(
            ZakuraGrpcBuilder::build,
            (with_identity->Ok_0,),
            settings,
        ),
    ensures
        with_token is Ok <==> can_be_carried(chosen.x_token),
        with_token is Ok ==> (with_identity is Ok <==> can_be_carried(chosen.subscription_id)),
        with_token is Ok && with_identity is Ok ==> all_chosen(settings, address@, chosen),
{
    lemma_can_be_carried(chosen.x_token);
    lemma_can_be_carried(chosen.subscription_id);
}

/// Every setting of a client arrives where it is used when they are chosen the other way round as
/// well.
pub proof fn law_settings_may_come_in_reverse(
    address: &str,
    chosen: ChosenSettings,
    steps: Seq<ZakuraGrpcBuilder>,
    with_token: Result<ZakuraGrpcBuilder, ZakuraGrpcBuilderError>,
    with_identity: Result<ZakuraGrpcBuilder, ZakuraGrpcBuilderError>,
    settings: ClientSettings,
)
    requires
        call_ensures(ZakuraGrpcBuilder::from_static, (address,), steps[0]),
        steps.len() == 16,
        call_ensures(
            ZakuraGrpcBuilder::set_reconnect_config,
            (steps[0], chosen.reconnect),
            steps[1],
        ),
        call_ensures(
            ZakuraGrpcBuilder::max_encoding_message_size,
            (steps[1], chosen.max_encoding_message_size),
            steps[2],
        ),
        call_ensures(
            ZakuraGrpcBuilder::max_decoding_message_size,
            (steps[2], chosen.max_decoding_message_size),
            steps[3],
        ),
        call_ensures(
            ZakuraGrpcBuilder::accept_compressed,
            (steps[3], chosen.accept_compressed),
            steps[4],
        ),
        call_ensures(
            ZakuraGrpcBuilder::send_compressed,
            (steps[4], chosen.send_compressed),
            steps[5],
        ),
        call_ensures(ZakuraGrpcBuilder::tcp_nodelay, (steps[5], chosen.tcp_nodelay), steps[6]),
        call_ensures(ZakuraGrpcBuilder::tcp_keepalive, (steps[6], chosen.tcp_keepalive), steps[7]),
        call_ensures(
            ZakuraGrpcBuilder::initial_stream_window_size,
            (steps[7], chosen.initial_stream_window_size),
            steps[8],
        ),
        call_ensures(
            ZakuraGrpcBuilder::initial_connection_window_size,
            (steps[8], chosen.initial_connection_window_size),
            steps[9],
        ),
        call_ensures(
            ZakuraGrpcBuilder::keep_alive_while_idle,
            (steps[9], chosen.keep_alive_while_idle),
            steps[10],
        ),
        call_ensures(
            ZakuraGrpcBuilder::keep_alive_timeout,
            (steps[10], chosen.keep_alive_timeout),
            steps[11],
        ),
        call_ensures(
            ZakuraGrpcBuilder::http2_keep_alive_interval,
            (steps[11], chosen.http2_keep_alive_interval),
            steps[12],
        ),
        call_ensures(
            ZakuraGrpcBuilder::http2_adaptive_window,
            (steps[12], chosen.http2_adaptive_window),
            steps[13],
        ),
        call_ensures(ZakuraGrpcBuilder::timeout, (steps[13], chosen.timeout), steps[14]),
        call_ensures(
            ZakuraGrpcBuilder::connect_timeout,
            (steps[14], chosen.connect_timeout),
            steps[15],
        ),
        call_ensures(ZakuraGrpcBuilder::x_token, (steps[15], chosen.x_token), with_token),
        with_token matches Ok(builder) ==> call_ensures(
            ZakuraGrpcBuilder::subscription_id,
            (builder, chosen.subscription_id),
            with_identity,
        ),
        with_token is Ok && with_identity is Ok ==> call_ensures(
            ZakuraGrpcBuilder::build,
            (with_identity->Ok_0,),
            settings,
        ),
    ensures
        with_token is Ok <==> can_be_carried(chosen.x_token),
        with_token is Ok ==> (with_identity is Ok <==> can_be_carried(chosen.subscription_id)),
        with_token is Ok && with_identity is Ok ==> all_chosen(settings, address@, chosen),
{
    lemma_can_be_carried(chosen.x_token);
    lemma_can_be_carried(chosen.subscription_id);
}

/// The headers of a client reach the server: a server that expects the token of the client answers
/// its requests, and counts its streams under the identity that the client has, if it has one.
/// Other headers stay as they are.
pub proof fn law_headers_reach_the_server(
    interceptor: MetadataInterceptor,
    metadata: &mut MetadataMap,
    added: bool,
    auth: TokenAuth,
    verdict: Result<(), Status>,
    remote_ip: Option<String>,
    id: String,
    name: Seq<char>,
)
    requires
        can_be_carried(interceptor.x_token),
        can_be_carried(interceptor.subscription_id),
        call_ensures(MetadataInterceptor::call_if_room, (&interceptor, metadata), added),
        call_ensures(TokenAuth::new, (interceptor.x_token,), auth),
        call_ensures(TokenAuth::authorize, (&auth, &*final(metadata)), verdict),
        call_ensures(subscriber_id, (&*final(metadata), remote_ip), id),
    ensures
        metadata_contents(*old(metadata)).dom().len() <= 6_000 ==> added,
        interceptor.x_token is None && interceptor.subscription_id is None ==> added
            && metadata_contents(*final(metadata)) == metadata_contents(*old(metadata)),
        added ==> verdict is Ok,
        added && interceptor.subscription_id is Some && interceptor.subscription_id->0@.len() > 0
            ==> id@ == interceptor.subscription_id->0@,
        name != "x-token"@ && name != "x-subscription-id"@ ==> {
            &&& metadata_contents(*final(metadata)).contains_key(name) <==> metadata_contents(
                *old(metadata),
            ).contains_key(name)
            &&& metadata_contents(*final(metadata)).contains_key(name) ==> metadata_contents(
                *final(metadata),
            )[name] == metadata_contents(*old(metadata))[name]
        },
        !added ==> *final(metadata) == *old(metadata),
{
    reveal_strlit("x-token");
    reveal_strlit("x-subscription-id");
    assert("x-token"@.len() == 7);
    assert("x-subscription-id"@.len() == 17);
    lemma_can_be_carried(interceptor.x_token);
    lemma_can_be_carried(interceptor.subscription_id);
    if interceptor.x_token is Some {
        law_visible_text_survives(interceptor.x_token->0@);
    }
    if interceptor.subscription_id is Some {
        law_visible_text_survives(interceptor.subscription_id->0@);
    }
}

/// A keepalive of the client carries its number and nothing else. A change of event types carries
/// the types, in their order, and nothing else: it neither starts a replay nor names filters.
pub proof fn law_client_requests_say_one_thing(
    id: i32,
    keepalive: SubscribeRequest,
    event_types: &[EventType],
    numbers: Seq<i32>,
    change: SubscribeRequest,
)
    requires
        call_ensures(ping_request, (id,), keepalive),
        call_ensures(event_types_request, (event_types,), change),
        numbers.len() == event_types@.len(),
        forall|i: int|
            0 <= i < numbers.len() ==> call_ensures(
                EventType::number,
                (event_types@[i],),
                #[trigger] numbers[i],
            ),
    ensures
        keepalive.ping is Some && keepalive.ping->0.id == id,
        keepalive.event_types@.len() == 0,
        keepalive.filters@.len() == 0,
        keepalive.from_height is None,
        change.event_types@ == numbers,
        change.filters@.len() == 0,
        change.from_height is None,
        change.ping is None,
{
    assert(change.event_types@ =~= numbers);
}

/// A schedule and a retention are taken over as they are, and choosing one keeps the other. What is
/// not chosen is two heights of overlap.
pub proof fn law_reconnect_settings_are_kept(
    defaults: ReconnectConfig,
    backoff: Backoff,
    height_retention: usize,
    scheduled: ReconnectConfig,
    retained: ReconnectConfig,
)
    requires
        call_ensures(<ReconnectConfig as Default>::default, (), defaults),
        call_ensures(ReconnectConfig::with_backoff, (defaults, backoff), scheduled),
        call_ensures(
            ReconnectConfig::with_height_retention,
            (scheduled, height_retention),
            retained,
        ),
    ensures
        scheduled.backoff == backoff,
        scheduled.policy == defaults.policy,
        defaults.policy is RecoverMissedData,
        retained.backoff == backoff,
        retained.policy == (ReconnectionPolicy::RecoverMissedData { height_retention }),
        retained.checkpoint_height_buffer == 2,
{
}

} // verus!
