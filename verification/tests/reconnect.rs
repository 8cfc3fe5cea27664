//! The reconnecting subscription of the client.

use bytes::Bytes;
use zakura_grpc::proto::{
    BlockUpdate, EventType, PingUpdate, PongUpdate, SubscribeRequest, SubscribeRequestPing,
    SubscribeUpdate, Update,
};
use zakura_grpc::reconnect::{
    event_types_request, is_recoverable_client_error, is_recoverable_status, ping_request,
    Attempts, Backoff, ClientAction, ClientEvent, ConnectFailure, ReconnectConfig,
    ReconnectionPolicy, Subscription,
};
use zakura_grpc::status::{Code, Status};

fn block(height: u32, sequence: u64) -> SubscribeUpdate {
    SubscribeUpdate {
        session_id: Bytes::from(vec![1]),
        sequence,
        update: Some(Update::Block(BlockUpdate {
            height,
            ..BlockUpdate::default()
        })),
        ..SubscribeUpdate::default()
    }
}

fn control(update: Update) -> SubscribeUpdate {
    SubscribeUpdate {
        update: Some(update),
        ..SubscribeUpdate::default()
    }
}

fn failed(code: Code) -> ClientEvent {
    ClientEvent::Failed(Status::new(code, "gone".to_owned()))
}

fn resumed_height(action: ClientAction) -> Option<u32> {
    match action {
        ClientAction::Reconnect { from_height, .. } => from_height,
        _ => panic!("the stream must be reopened"),
    }
}

fn status(action: ClientAction) -> (Code, String) {
    match action {
        ClientAction::Fail(status) => (status.code(), status.message),
        _ => panic!("the subscription must fail"),
    }
}

#[test]
fn retryable_codes_match_stream_failures() {
    assert!(is_recoverable_status(Code::Unavailable));
    assert!(is_recoverable_status(Code::OutOfRange));
    assert!(!is_recoverable_status(Code::Unauthenticated));
    assert!(!is_recoverable_status(Code::InvalidArgument));
}

#[test]
fn default_policy_recovers_missed_data() {
    assert!(matches!(
        ReconnectConfig::default().policy,
        ReconnectionPolicy::RecoverMissedData { .. }
    ));
}

#[test]
fn every_code_is_classified() {
    let recoverable = [
        Code::Cancelled,
        Code::Unknown,
        Code::DeadlineExceeded,
        Code::ResourceExhausted,
        Code::Aborted,
        Code::Internal,
        Code::Unavailable,
        Code::DataLoss,
        Code::OutOfRange,
    ];
    let terminal = [
        Code::Success,
        Code::InvalidArgument,
        Code::NotFound,
        Code::AlreadyExists,
        Code::PermissionDenied,
        Code::FailedPrecondition,
        Code::Unimplemented,
        Code::Unauthenticated,
    ];
    for code in recoverable {
        assert!(is_recoverable_status(code));
        assert!(is_recoverable_client_error(ConnectFailure::Refused(code)));
    }
    for code in terminal {
        assert!(!is_recoverable_status(code));
        assert!(!is_recoverable_client_error(ConnectFailure::Refused(code)));
    }
    assert!(is_recoverable_client_error(ConnectFailure::Transport));
}

#[test]
fn defaults_cover_a_restart() {
    let config = ReconnectConfig::default();
    assert_eq!(config.backoff.initial_interval_nanos, 100_000_000);
    assert_eq!(f64::from_bits(config.backoff.multiplier_bits), 2.0);
    assert_eq!(config.backoff.max_retries, 8);
    assert_eq!(config.checkpoint_height_buffer, 2);
    assert_eq!(
        config.policy,
        ReconnectionPolicy::RecoverMissedData {
            height_retention: 250
        }
    );
    let changed = config
        .with_height_retention(3)
        .with_backoff(Backoff::new(7, 1.5f64.to_bits(), 1));
    assert_eq!(changed.backoff.initial_interval_nanos, 7);
    assert_eq!(
        changed.policy,
        ReconnectionPolicy::RecoverMissedData {
            height_retention: 3
        }
    );
    assert_eq!(changed.checkpoint_height_buffer, 2);
}

#[test]
fn attempts_are_bounded() {
    let mut attempts = Attempts::new(&Backoff::new(1, 0, 2));
    assert!(attempts.failed(ConnectFailure::Transport));
    assert!(attempts.failed(ConnectFailure::Refused(Code::Unavailable)));
    assert!(!attempts.failed(ConnectFailure::Transport));
    let mut attempts = Attempts::new(&Backoff::new(1, 0, 2));
    assert!(!attempts.failed(ConnectFailure::Refused(Code::Unauthenticated)));
    let mut attempts = Attempts::new(&Backoff::new(1, 0, 0));
    assert!(!attempts.failed(ConnectFailure::Transport));
}

#[test]
fn recovery_resumes_below_the_checkpoint() {
    let mut subscription = Subscription::new(
        SubscribeRequest {
            from_height: Some(40),
            ..SubscribeRequest::default()
        },
        Some(ReconnectConfig::default()),
    );
    assert_eq!(resumed_height(subscription.step(ClientEvent::Ended)), Some(38));
    assert!(matches!(
        subscription.step(ClientEvent::Reconnected),
        ClientAction::Wait
    ));
    assert!(matches!(
        subscription.step(ClientEvent::Message(block(50, 1))),
        ClientAction::Deliver(_)
    ));
    assert_eq!(
        resumed_height(subscription.step(failed(Code::Unavailable))),
        Some(48)
    );
    assert!(matches!(
        subscription.step(ClientEvent::Message(block(50, 1))),
        ClientAction::Wait
    ));
    assert!(matches!(
        subscription.step(ClientEvent::Message(block(1, 2))),
        ClientAction::Deliver(_)
    ));
    assert_eq!(resumed_height(subscription.step(ClientEvent::Ended)), Some(0));
}

#[test]
fn lost_heights_resume_live() {
    let mut subscription = Subscription::new(
        SubscribeRequest {
            from_height: Some(40),
            ..SubscribeRequest::default()
        },
        Some(ReconnectConfig::default()),
    );
    assert_eq!(
        resumed_height(subscription.step(failed(Code::OutOfRange))),
        None
    );
    assert_eq!(resumed_height(subscription.step(ClientEvent::Ended)), None);
}

#[test]
fn skipping_never_replays() {
    let config = ReconnectConfig {
        policy: ReconnectionPolicy::SkipMissedData,
        ..ReconnectConfig::default()
    };
    let mut subscription = Subscription::new(
        SubscribeRequest {
            from_height: Some(40),
            ..SubscribeRequest::default()
        },
        Some(config),
    );
    for _ in 0..2 {
        assert!(matches!(
            subscription.step(ClientEvent::Message(block(50, 1))),
            ClientAction::Deliver(_)
        ));
    }
    assert_eq!(resumed_height(subscription.step(ClientEvent::Ended)), None);
}

#[test]
fn streams_without_reconnect_end() {
    let mut subscription = Subscription::new(SubscribeRequest::default(), None);
    assert_eq!(
        status(subscription.step(failed(Code::Unavailable))),
        (Code::Unavailable, "gone".to_owned())
    );
    let mut subscription = Subscription::new(SubscribeRequest::default(), None);
    assert!(matches!(
        subscription.step(ClientEvent::Ended),
        ClientAction::End
    ));
    assert_eq!(
        status(subscription.step(ClientEvent::RequestRefused)),
        (
            Code::Unavailable,
            "subscription request stream closed".to_owned()
        )
    );
    assert_eq!(
        status(subscription.step(ClientEvent::PongRefused)),
        (
            Code::Unavailable,
            "subscription request stream closed while replying to server ping".to_owned()
        )
    );
}

#[test]
fn terminal_failures_reach_the_application() {
    let mut subscription = Subscription::new(
        SubscribeRequest::default(),
        Some(ReconnectConfig::default()),
    );
    assert_eq!(
        status(subscription.step(failed(Code::Unauthenticated))),
        (Code::Unauthenticated, "gone".to_owned())
    );
    assert_eq!(
        status(subscription.step(ClientEvent::ReconnectFailed("no route".to_owned()))),
        (
            Code::Unavailable,
            "subscription reconnect failed: no route".to_owned()
        )
    );
}

#[test]
fn keepalives_are_answered_and_hidden() {
    let mut subscription = Subscription::new(
        SubscribeRequest::default(),
        Some(ReconnectConfig::default()),
    );
    match subscription.step(ClientEvent::Message(control(Update::Ping(PingUpdate {
        id: -3,
    })))) {
        ClientAction::Answer(request) => {
            assert_eq!(request.ping, Some(SubscribeRequestPing { id: -3 }));
            assert!(request.event_types.is_empty());
            assert!(request.filters.is_empty());
            assert_eq!(request.from_height, None);
        }
        _ => panic!("keepalives are answered"),
    }
    assert!(matches!(
        subscription.step(ClientEvent::Message(control(Update::Pong(PongUpdate {
            id: -1
        })))),
        ClientAction::Wait
    ));
    assert!(matches!(
        subscription.step(ClientEvent::Message(control(Update::Pong(PongUpdate {
            id: 0
        })))),
        ClientAction::Deliver(_)
    ));
}

#[test]
fn commands_replace_the_request() {
    let mut subscription = Subscription::new(
        SubscribeRequest {
            from_height: Some(40),
            ..SubscribeRequest::default()
        },
        Some(ReconnectConfig::default()),
    );
    match subscription.step(ClientEvent::Command(ping_request(5))) {
        ClientAction::Send(request) => {
            assert_eq!(request.ping, Some(SubscribeRequestPing { id: 5 }));
        }
        _ => panic!("commands are sent"),
    }
    let command = SubscribeRequest {
        from_height: Some(7),
        ..event_types_request(&[EventType::Utxo, EventType::Transaction])
    };
    match subscription.step(ClientEvent::Command(command)) {
        ClientAction::Send(request) => {
            assert_eq!(request.event_types, vec![6, 5]);
            assert_eq!(request.from_height, None);
        }
        _ => panic!("commands are sent"),
    }
    match subscription.step(ClientEvent::RequestRefused) {
        ClientAction::Reconnect {
            request,
            from_height,
        } => {
            assert_eq!(request.event_types, vec![6, 5]);
            assert_eq!(from_height, Some(38));
        }
        _ => panic!("the stream must be reopened"),
    }
    assert!(subscription.commands_open());
    assert!(matches!(
        subscription.step(ClientEvent::CommandsClosed),
        ClientAction::Wait
    ));
    assert!(!subscription.commands_open());
}
