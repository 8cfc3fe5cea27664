//! The plugin and the answers of the server.

use bytes::Bytes;
use std::sync::Arc;
use tonic::metadata::MetadataMap;
use zakura_grpc::config::{Config, FilterLimits};
use zakura_grpc::event::block_height;
use zakura_grpc::node::{
    BestChainChange, ChainBlock, EventEnvelope, PluginEvent, SinceEpoch,
};
use zakura_grpc::plugin::{EventSubscriptions, GrpcPlugin};
use zakura_grpc::proto::{
    BlockUpdate, EventType, SubscribeRequest, SubscribeUpdate, Update,
};
use zakura_grpc::reconnect::{ClientAction, ClientEvent, ReconnectConfig, Subscription};
use zakura_grpc::replay::PublishedUpdate;
use zakura_grpc::service::{GrpcService, ServerVersion, SharedState};
use zakura_grpc::session::{Session, SessionAction, SessionEvent};
use zakura_grpc::status::Code;

const SUBSCRIPTIONS: EventSubscriptions = EventSubscriptions {
    block_accepted: true,
    best_chain: true,
    finalized_blocks: true,
    mempool: false,
};

fn block(height: u32) -> SubscribeUpdate {
    SubscribeUpdate {
        event_type: EventType::BlockAccepted.into(),
        update: Some(Update::Block(BlockUpdate {
            height,
            block: Bytes::from(vec![1, 2, 3]),
            ..BlockUpdate::default()
        })),
        ..SubscribeUpdate::default()
    }
}

fn growth(height: u32) -> EventEnvelope {
    EventEnvelope {
        schema_version: 1,
        session_id: 7,
        sequence: u64::from(height),
        observed_at: Some(SinceEpoch {
            seconds: 1,
            nanos: 2,
        }),
        payload: PluginEvent::BestChainChanged(BestChainChange::Reset {
            height,
            hash: [1; 32],
            disconnected_blocks: Vec::new(),
            connected_blocks: vec![ChainBlock {
                height,
                hash: [1; 32],
                previous_block_hash: [0; 32],
            }],
            diff_complete: false,
        }),
    }
}

fn sequences(published: &[Arc<PublishedUpdate>]) -> Vec<u64> {
    published
        .iter()
        .map(|update| update.message.sequence)
        .collect()
}

fn published(
    plugin: &mut GrpcPlugin,
    state: &mut SharedState,
    updates: Vec<SubscribeUpdate>,
) -> Vec<Arc<PublishedUpdate>> {
    match plugin.publish(state, updates) {
        Ok(published) => published,
        Err(error) => panic!("there are numbers left: {}", error.message()),
    }
}

fn with_token(token: &str) -> MetadataMap {
    let mut metadata = MetadataMap::new();
    metadata.insert("x-token", token.parse().unwrap());
    metadata
}

fn live(session: &mut Session, update: &Arc<PublishedUpdate>) -> Option<u64> {
    match session.step(SessionEvent::Live(update.clone())) {
        SessionAction::Deliver(update, _) => Some(update.message.sequence),
        _ => None,
    }
}

#[test]
fn updates_are_numbered_across_events() {
    let config = Config::default();
    let mut state = SharedState::new(&config);
    let mut plugin = GrpcPlugin::new(config, SUBSCRIPTIONS);
    let first = published(&mut plugin, &mut state, vec![block(1), block(1)]);
    assert_eq!(sequences(&first), vec![1, 2]);
    assert!(published(&mut plugin, &mut state, Vec::new()).is_empty());
    let second = match plugin.on_event(&mut state, &growth(2)) {
        Ok(published) => published,
        Err(error) => panic!("the event has an encoding: {}", error.message()),
    };
    assert_eq!(sequences(&second), vec![3]);
    assert_eq!(second[0].message.source_sequence, 2);
    assert_eq!(second[0].encoded_len, second[0].message.encoded_len());
    assert_eq!(state.replay().event_count(), 3);
    assert_eq!(state.replay().latest_height(), Some(2));
}

#[test]
fn plugins_load_once() {
    let mut plugin = GrpcPlugin::new(Config::default(), SUBSCRIPTIONS);
    assert_eq!(plugin.name(), "zakura-grpc");
    assert_eq!(plugin.subscriptions(), SUBSCRIPTIONS);
    assert!(!plugin.is_running());
    assert!(matches!(plugin.begin_load(false), Ok(false)));
    plugin.loaded();
    assert!(plugin.is_running());
    match plugin.begin_load(false) {
        Ok(_) => panic!("the plugin is running"),
        Err(error) => assert_eq!(error.message(), "Zakura gRPC plugin is already running"),
    }
    plugin.on_unload();
    assert!(!plugin.is_running());
    assert!(plugin.begin_load(false).is_ok());
}

#[test]
fn several_threads_need_a_pool() {
    let plugin = GrpcPlugin::new(
        Config {
            event_encoding_threads: 2,
            utxo_updates: false,
            mempool_transaction_updates: true,
            ..Config::default()
        },
        SUBSCRIPTIONS,
    );
    assert!(matches!(plugin.begin_load(false), Ok(true)));
    assert!(matches!(plugin.begin_load(true), Ok(false)));
    let options = plugin.encoding_options();
    assert!(options.transaction_updates);
    assert!(!options.utxo_updates);
    assert!(options.mempool_transaction_updates);
    assert_eq!(plugin.config().event_encoding_threads, 2);
}

#[test]
fn configurations_bound_the_replay_window() {
    let state = SharedState::new(&Config {
        replay_stored_blocks: 1,
        replay_max_events: 2,
        replay_max_bytes: 3,
        replay_max_age_seconds: Some(4),
        client_channel_capacity: 5,
        ..Config::default()
    });
    let limits = state.replay().limits();
    assert_eq!(limits.height_capacity, 1);
    assert_eq!(limits.event_capacity, 2);
    assert_eq!(limits.byte_capacity, 3);
    assert_eq!(limits.max_age, Some(4_000_000_000));
    assert_eq!(state.client_channel_capacity(), 5);
}

#[test]
fn replay_info_tells_what_is_available() {
    let config = Config {
        replay_stored_blocks: 2,
        ..Config::default()
    };
    let mut state = SharedState::new(&config);
    let info = state.replay_info();
    assert_eq!(info.first_available_height, None);
    assert_eq!(info.latest_height, None);
    assert_eq!(info.retained_block_capacity, 2);

    for height in [10, 12, 11] {
        state.publish_batch(vec![block(height)]);
    }
    let info = state.replay_info();
    assert_eq!(info.first_available_height, Some(11));
    assert_eq!(info.latest_height, Some(12));
    let status = state.subscribe(Some(10)).unwrap_err();
    assert_eq!(status.code(), Code::OutOfRange);
    let snapshot = state.subscribe(Some(11)).unwrap();
    assert_eq!(snapshot.updates.len(), 2);
    assert!(snapshot
        .updates
        .iter()
        .any(|update| block_height(&update.message) == Some(11)));
}

#[test]
fn heights_lost_by_an_empty_window_are_refused() {
    let mut state = SharedState::new(&Config {
        replay_max_events: 1,
        ..Config::default()
    });
    state.publish_batch(vec![block(20), block(20)]);
    assert_eq!(state.replay_info().first_available_height, None);
    let status = state.subscribe(Some(20)).unwrap_err();
    assert_eq!(status.code(), Code::OutOfRange);
    assert!(state.subscribe(Some(21)).is_ok());
}

#[test]
fn replay_and_live_delivery_join_without_gap_or_overlap() {
    let config = Config::default();
    let mut state = SharedState::new(&config);
    let mut plugin = GrpcPlugin::new(config.clone(), SUBSCRIPTIONS);
    let service = GrpcService::new(&config);
    let mut ring = Vec::new();
    for height in 10..13 {
        ring.extend(published(&mut plugin, &mut state, vec![block(height)]));
    }
    let opened = service.open(
        &mut state,
        Some(SubscribeRequest {
            from_height: Some(11),
            ..SubscribeRequest::default()
        }),
    );
    let mut opened = match opened {
        Ok(opened) => opened,
        Err(status) => panic!("the height is retained: {}", status.message),
    };
    for height in 13..15 {
        ring.extend(published(&mut plugin, &mut state, vec![block(height)]));
    }
    let mut delivered = sequences(&opened.replay);
    for update in &ring {
        delivered.extend(live(&mut opened.session, update));
    }
    assert_eq!(delivered, vec![2, 3, 4, 5]);
}

#[test]
fn subscriptions_need_a_valid_first_request() {
    let config = Config {
        replay_stored_blocks: 1,
        ..Config::default()
    };
    let mut state = SharedState::new(&config);
    let service = GrpcService::new(&config);
    let mut refuse = |initial: Option<SubscribeRequest>| match service.open(&mut state, initial) {
        Ok(_) => panic!("the request is refused"),
        Err(status) => (status.code(), status.message),
    };
    assert_eq!(
        refuse(None),
        (
            Code::InvalidArgument,
            "the first subscribe request is required".to_owned()
        )
    );
    assert_eq!(
        refuse(Some(SubscribeRequest {
            event_types: vec![0],
            ..SubscribeRequest::default()
        })),
        (
            Code::InvalidArgument,
            "EVENT_TYPE_UNSPECIFIED cannot be used as a filter".to_owned()
        )
    );
    state.publish_batch(vec![block(5)]);
    state.publish_batch(vec![block(6)]);
    let status = service
        .open(
            &mut state,
            Some(SubscribeRequest {
                from_height: Some(5),
                ..SubscribeRequest::default()
            }),
        )
        .err()
        .unwrap();
    assert_eq!(status.code(), Code::OutOfRange);
}

#[test]
fn requests_are_held_to_the_configured_limits() {
    let config = Config {
        filter_limits: FilterLimits {
            allow_all: false,
            ..FilterLimits::default()
        },
        ..Config::default()
    };
    let mut state = SharedState::new(&config);
    let service = GrpcService::new(&config);
    let status = service
        .open(&mut state, Some(SubscribeRequest::default()))
        .err()
        .unwrap();
    assert_eq!(status.code(), Code::InvalidArgument);

    let unlimited = GrpcService::new(&Config::default());
    assert!(unlimited
        .open(&mut state, Some(SubscribeRequest::default()))
        .is_ok());
}

#[test]
fn every_method_checks_the_token() {
    let config = Config {
        x_token: Some("secret".to_owned()),
        subscription_limit: 1,
        subscription_limit_enforce: true,
        subscription_ping_interval_seconds: Some(15),
        ..Config::default()
    };
    let mut state = SharedState::new(&config);
    let mut service = GrpcService::new(&config);
    assert_eq!(service.ping_interval_seconds(), Some(15));
    let version = ServerVersion {
        version: "1.2.3".to_owned(),
        interface_version: 4,
        event_schema_version: 5,
    };
    let stranger = MetadataMap::new();
    let denied = Code::Unauthenticated;
    assert_eq!(service.ping(&stranger, 1).unwrap_err().code(), denied);
    assert_eq!(
        service.get_version(&stranger, &version).unwrap_err().code(),
        denied
    );
    assert_eq!(
        service
            .subscribe_replay_info(&mut state, &stranger)
            .unwrap_err()
            .code(),
        denied
    );
    assert_eq!(service.begin(&stranger, None).unwrap_err().code(), denied);

    let friend = with_token("secret");
    assert_eq!(service.ping(&friend, 41).unwrap().count, 41);
    let answer = service.get_version(&friend, &version).unwrap();
    assert_eq!(answer.version, "1.2.3");
    assert_eq!(answer.interface_version, 4);
    assert_eq!(answer.event_schema_version, 5);
    let guard = service.begin(&friend, Some("10.0.0.1".to_owned())).unwrap();
    assert_eq!(
        service
            .begin(&friend, Some("10.0.0.1".to_owned()))
            .unwrap_err()
            .code(),
        Code::ResourceExhausted
    );
    assert!(service.begin(&friend, Some("10.0.0.2".to_owned())).is_ok());
    service.release(guard);
    assert!(service.begin(&friend, Some("10.0.0.1".to_owned())).is_ok());
}

#[test]
fn replay_info_describes_the_window() {
    let config = Config::default();
    let mut state = SharedState::new(&config);
    let service = GrpcService::new(&config);
    let metadata = MetadataMap::new();
    let info = service.subscribe_replay_info(&mut state, &metadata).unwrap();
    assert_eq!(info.first_available_height, None);
    assert_eq!(info.latest_height, None);
    assert_eq!(info.retained_block_capacity, 150);
    state.publish_batch(vec![block(9)]);
    state.publish_batch(vec![block(4)]);
    let info = state.replay_info();
    assert_eq!(info.first_available_height, Some(4));
    assert_eq!(info.latest_height, Some(9));
    let mut wide = SharedState::new(&Config {
        replay_stored_blocks: usize::MAX,
        ..Config::default()
    });
    assert_eq!(wide.replay_info().retained_block_capacity, u32::MAX);
}

fn opened_session() -> Session {
    let config = Config::default();
    let mut state = SharedState::new(&config);
    let service = GrpcService::new(&config);
    match service.open(&mut state, Some(SubscribeRequest::default())) {
        Ok(opened) => opened.session,
        Err(status) => panic!("the request is valid: {}", status.message),
    }
}

#[test]
fn keepalives_of_the_server_stay_between_server_and_client() {
    let mut session = opened_session();
    let mut client = Subscription::new(
        SubscribeRequest::default(),
        Some(ReconnectConfig::default()),
    );
    let SessionAction::Ping(ping) = session.step(SessionEvent::Tick) else {
        panic!("a tick sends a keepalive");
    };
    let ClientAction::Answer(answer) = client.step(ClientEvent::Message(ping)) else {
        panic!("keepalives are answered");
    };
    let SessionAction::Send(pong) = session.step(SessionEvent::Request(answer)) else {
        panic!("answers are confirmed");
    };
    assert!(matches!(
        client.step(ClientEvent::Message(pong)),
        ClientAction::Wait
    ));
}

#[test]
fn lagging_subscribers_resume_from_their_checkpoint() {
    let mut session = opened_session();
    let mut client = Subscription::new(
        SubscribeRequest::default(),
        Some(ReconnectConfig::default()),
    );
    assert!(matches!(
        client.step(ClientEvent::Message(block(90))),
        ClientAction::Deliver(_)
    ));
    let SessionAction::FailIfRoom(status) = session.step(SessionEvent::Lagged(3)) else {
        panic!("lagging ends the session");
    };
    match client.step(ClientEvent::Failed(status)) {
        ClientAction::Reconnect { from_height, .. } => assert_eq!(from_height, Some(88)),
        _ => panic!("the stream must be reopened"),
    }
}
