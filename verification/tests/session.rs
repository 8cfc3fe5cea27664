//! Delivery to one subscriber.

use bytes::Bytes;
use std::sync::Arc;
use zakura_grpc::config::FilterLimits;
use zakura_grpc::filter::EventFilter;
use zakura_grpc::proto::{
    BlockPayload, BlockUpdate, EventType, MempoolUpdate, PongUpdate, SubscribeRequest,
    SubscribeRequestFilter, SubscribeRequestPing, SubscribeUpdate, Update,
};
use zakura_grpc::replay::PublishedUpdate;
use zakura_grpc::session::{
    event_type_label, project, PingSend, Session, SessionAction, SessionEvent,
};
use zakura_grpc::status::Code;

fn block_update(height: u32, sequence: u64) -> SubscribeUpdate {
    SubscribeUpdate {
        sequence,
        event_type: EventType::BlockFinalized.into(),
        update: Some(Update::Block(BlockUpdate {
            height,
            finalized: true,
            ..BlockUpdate::default()
        })),
        ..SubscribeUpdate::default()
    }
}

fn published(height: u32, sequence: u64) -> Arc<PublishedUpdate> {
    Arc::new(PublishedUpdate::new(block_update(height, sequence)))
}

fn filter(request: &SubscribeRequest) -> EventFilter {
    match EventFilter::new(request, &FilterLimits::default()) {
        Ok(filter) => filter,
        Err(status) => panic!("the request is valid: {}", status.message),
    }
}

fn session(watermark: u64) -> Session {
    Session::new(
        filter(&SubscribeRequest::default()),
        Arc::new(FilterLimits::default()),
        watermark,
    )
}

fn delivered_sequence(action: SessionAction) -> Option<u64> {
    match action {
        SessionAction::Deliver(update, _) => Some(update.message.sequence),
        SessionAction::Wait => None,
        _ => panic!("an update is delivered or skipped"),
    }
}

fn ping_id(action: SessionAction) -> i32 {
    let SessionAction::Ping(message) = action else {
        panic!("a tick sends a keepalive");
    };
    assert_eq!(message.event_type, EventType::Unspecified.number());
    let Some(Update::Ping(ping)) = message.update else {
        panic!("a keepalive is a ping");
    };
    ping.id
}

#[test]
fn meta_only_filter_strips_raw_block_bytes() {
    let filter = filter(&SubscribeRequest {
        filters: vec![(
            "metadata".to_owned(),
            SubscribeRequestFilter {
                event_types: vec![EventType::BlockFinalized.into()],
                block_payload: BlockPayload::MetaOnly.into(),
                ..SubscribeRequestFilter::default()
            },
        )],
        ..SubscribeRequest::default()
    });
    let mut message = block_update(10, 1);
    let Some(Update::Block(block)) = message.update.as_mut() else {
        panic!("test update is a block");
    };
    block.block = vec![1, 2, 3, 4].into();
    block.payload = BlockPayload::Full.into();
    let published = PublishedUpdate::new(message);

    let matched = filter.matched(&published.message).unwrap();
    let delivery = project(&published, matched);
    let delivered = delivery.message;
    assert_eq!(delivered.filters, vec!["metadata"]);
    assert_eq!(delivery.encoded_len, delivered.encoded_len());
    assert_ne!(delivery.encoded_len, published.encoded_len);
    let Some(Update::Block(block)) = delivered.update else {
        panic!("delivered update is a block");
    };
    assert!(block.block.is_empty());
    assert_eq!(block.payload, BlockPayload::MetaOnly.number());
}

#[test]
fn full_payloads_are_delivered_unchanged() {
    let mut message = block_update(10, 3);
    message.session_id = Bytes::from(vec![5]);
    message.source_sequence = 8;
    let Some(Update::Block(block)) = message.update.as_mut() else {
        panic!("test update is a block");
    };
    block.block = vec![1, 2, 3, 4].into();
    let published = PublishedUpdate::new(message);
    let matched = filter(&SubscribeRequest::default())
        .matched(&published.message)
        .unwrap();
    let delivery = project(&published, matched);
    assert_eq!(delivery.encoded_len, published.encoded_len);
    assert_eq!(delivery.message.sequence, 3);
    assert_eq!(delivery.message.session_id.as_ref(), [5]);
    assert_eq!(delivery.message.source_sequence, 8);
    let Some(Update::Block(block)) = delivery.message.update else {
        panic!("delivered update is a block");
    };
    assert_eq!(block.block.as_ref(), [1, 2, 3, 4]);
    assert_eq!(block.payload, BlockPayload::Full.number());
    assert!(block.finalized);
}

#[test]
fn other_payloads_are_shared() {
    let mempool = Arc::new(MempoolUpdate::default());
    let published = PublishedUpdate::new(SubscribeUpdate {
        update: Some(Update::Mempool(mempool.clone())),
        ..SubscribeUpdate::default()
    });
    let matched = filter(&SubscribeRequest::default())
        .matched(&published.message)
        .unwrap();
    let Some(Update::Mempool(delivered)) = project(&published, matched).message.update else {
        panic!("delivered update describes the mempool");
    };
    assert!(Arc::ptr_eq(&delivered, &mempool));
}

#[test]
fn live_updates_start_behind_the_watermark() {
    let mut session = session(5);
    let mut delivered = Vec::new();
    for sequence in [4, 5, 6, 7, 7, 6, 8] {
        let action = session.step(SessionEvent::Live(published(1, sequence)));
        delivered.extend(delivered_sequence(action));
    }
    assert_eq!(delivered, vec![6, 7, 8]);
}

#[test]
fn replay_ignores_the_watermark() {
    let session = session(5);
    assert_eq!(delivered_sequence(session.replay(&published(1, 3))), Some(3));
}

#[test]
fn requests_replace_the_filter() {
    let mut session = session(0);
    let request = SubscribeRequest {
        event_types: vec![EventType::BlockAccepted.into()],
        from_height: Some(3),
        ..SubscribeRequest::default()
    };
    assert!(matches!(
        session.step(SessionEvent::Request(request)),
        SessionAction::Wait
    ));
    assert_eq!(
        delivered_sequence(session.step(SessionEvent::Live(published(1, 1)))),
        None
    );
    assert!(matches!(
        session.step(SessionEvent::Request(SubscribeRequest::default())),
        SessionAction::Wait
    ));
    assert_eq!(
        delivered_sequence(session.step(SessionEvent::Live(published(1, 1)))),
        None
    );
    assert_eq!(
        delivered_sequence(session.step(SessionEvent::Live(published(1, 2)))),
        Some(2)
    );
    let invalid = SubscribeRequest {
        event_types: vec![0],
        ..SubscribeRequest::default()
    };
    match session.step(SessionEvent::Request(invalid)) {
        SessionAction::Fail(status) => assert_eq!(status.code(), Code::InvalidArgument),
        _ => panic!("invalid requests end the session"),
    }
}

#[test]
fn pings_are_answered_without_touching_the_filter() {
    let mut session = session(0);
    let request = SubscribeRequest {
        event_types: vec![0],
        ping: Some(SubscribeRequestPing { id: 17 }),
        ..SubscribeRequest::default()
    };
    match session.step(SessionEvent::Request(request)) {
        SessionAction::Send(message) => {
            assert!(matches!(
                message.update,
                Some(Update::Pong(PongUpdate { id: 17 }))
            ));
            assert_eq!(message.event_type, 0);
        }
        _ => panic!("pings are answered"),
    }
    assert_eq!(
        delivered_sequence(session.step(SessionEvent::Live(published(1, 1)))),
        Some(1)
    );
}

#[test]
fn keepalives_count_down() {
    let mut session = session(0);
    assert_eq!(ping_id(session.step(SessionEvent::Tick)), -1);
    assert!(session.ping_sent(PingSend::Sent));
    assert_eq!(ping_id(session.step(SessionEvent::Tick)), -2);
    assert!(session.ping_sent(PingSend::Skipped));
    assert_eq!(ping_id(session.step(SessionEvent::Tick)), -2);
    assert!(!session.ping_sent(PingSend::Closed));
}

#[test]
fn slow_subscribers_are_told() {
    let mut session = session(0);
    match session.step(SessionEvent::Lagged(12)) {
        SessionAction::FailIfRoom(status) => {
            assert_eq!(status.code(), Code::ResourceExhausted);
            assert_eq!(
                status.message,
                "subscriber lagged by 12 events; reconnect with from_height"
            );
        }
        _ => panic!("lagging ends the session"),
    }
}

#[test]
fn skipped_events_are_counted_in_decimal() {
    for skipped in [0, 7, 9, 10, 100, 1_000_000_007, u64::MAX] {
        match session(0).step(SessionEvent::Lagged(skipped)) {
            SessionAction::FailIfRoom(status) => assert_eq!(
                status.message,
                format!("subscriber lagged by {skipped} events; reconnect with from_height")
            ),
            _ => panic!("lagging ends the session"),
        }
    }
}

#[test]
fn sessions_end_with_either_side() {
    for event in [
        SessionEvent::RequestsEnded,
        SessionEvent::RequestsFailed,
        SessionEvent::LiveClosed,
    ] {
        assert!(matches!(session(0).step(event), SessionAction::End));
    }
}

#[test]
fn labels_name_event_types() {
    assert_eq!(event_type_label(5), "EVENT_TYPE_TRANSACTION");
    assert_eq!(event_type_label(7), "EVENT_TYPE_MEMPOOL_TRANSACTION");
    assert_eq!(event_type_label(99), "EVENT_TYPE_UNSPECIFIED");
    assert_eq!(EventType::from_number(3), Some(EventType::BlockFinalized));
    assert_eq!(EventType::from_number(8), None);
    assert_eq!(
        EventType::BestChainChanged.as_str_name(),
        "EVENT_TYPE_BEST_CHAIN_CHANGED"
    );
}
