//! Tokens and stream limits.

use tonic::metadata::MetadataMap;
use zakura_grpc::auth::{subscriber_id, SubscriptionTracker, TokenAuth};
use zakura_grpc::status::Code;

fn with_header(name: &'static str, value: &str) -> MetadataMap {
    let mut metadata = MetadataMap::new();
    metadata.insert(name, value.parse().unwrap());
    metadata
}

#[test]
fn enforced_limit_is_released_with_guard() {
    let mut tracker = SubscriptionTracker::new(1, true);
    let request = MetadataMap::new();
    let guard = tracker.acquire(&request, None).unwrap();
    let status = tracker.acquire(&request, None).unwrap_err();
    assert_eq!(status.code(), Code::ResourceExhausted);
    assert_eq!(
        status.message,
        "subscriber \"anonymous\" reached the concurrent subscription limit (1)"
    );
    tracker.release(guard);
    assert!(tracker.acquire(&request, None).is_ok());
}

#[test]
fn token_is_required_when_configured() {
    let auth = TokenAuth::new(Some("secret".to_owned()));
    let status = auth.authorize(&MetadataMap::new()).unwrap_err();
    assert_eq!(status.code(), Code::Unauthenticated);
    assert_eq!(status.message, "missing or invalid x-token");
    assert!(auth.authorize(&with_header("x-token", "secret")).is_ok());
}

#[test]
fn wrong_tokens_are_refused() {
    let auth = TokenAuth::new(Some("secret".to_owned()));
    for token in ["Secret", "secret ", "", "secretsecret"] {
        assert!(auth.authorize(&with_header("x-token", token)).is_err());
    }
    assert!(auth.authorize(&with_header("x-subscription-id", "secret")).is_err());
}

#[test]
fn no_token_is_needed_when_none_is_configured() {
    let auth = TokenAuth::new(None);
    assert!(auth.authorize(&MetadataMap::new()).is_ok());
    assert!(auth.authorize(&with_header("x-token", "anything")).is_ok());
}

#[test]
fn tokens_outside_visible_ascii_are_never_recognized() {
    let auth = TokenAuth::new(Some("é".to_owned()));
    assert!(auth.authorize(&with_header("x-token", "é")).is_err());
}

#[test]
fn subscribers_are_named_by_header_address_or_default() {
    let ip = Some("10.0.0.1".to_owned());
    assert_eq!(
        subscriber_id(&with_header("x-subscription-id", "indexer-a"), ip.clone()),
        "indexer-a"
    );
    assert_eq!(
        subscriber_id(&with_header("x-subscription-id", ""), ip.clone()),
        "10.0.0.1"
    );
    assert_eq!(
        subscriber_id(&with_header("x-subscription-id", "é"), ip.clone()),
        "10.0.0.1"
    );
    assert_eq!(subscriber_id(&MetadataMap::new(), ip), "10.0.0.1");
    assert_eq!(subscriber_id(&MetadataMap::new(), None), "anonymous");
}

#[test]
fn limits_apply_to_each_subscriber() {
    let mut tracker = SubscriptionTracker::new(2, true);
    let first = with_header("x-subscription-id", "a\"b");
    let second = with_header("x-subscription-id", "c");
    let one = tracker.acquire(&first, None).unwrap();
    let _two = tracker.acquire(&first, None).unwrap();
    assert_eq!(tracker.active("a\"b"), 2);
    assert!(tracker.acquire(&second, None).is_ok());
    assert_eq!(tracker.active("c"), 1);
    assert_eq!(
        tracker.acquire(&first, None).unwrap_err().message,
        "subscriber \"a\\\"b\" reached the concurrent subscription limit (2)"
    );
    tracker.release(one);
    assert_eq!(tracker.active("a\"b"), 1);
    assert_eq!(tracker.active("c"), 1);
    assert_eq!(tracker.active("nobody"), 0);
}

#[test]
fn unenforced_limits_only_count() {
    let mut tracker = SubscriptionTracker::new(1, false);
    let metadata = MetadataMap::new();
    let guards: Vec<_> = (0..3)
        .map(|_| tracker.acquire(&metadata, None).unwrap())
        .collect();
    assert_eq!(tracker.active("anonymous"), 3);
    let exceeding: Vec<bool> = guards.iter().map(|guard| guard.exceeds_limit()).collect();
    assert_eq!(exceeding, vec![false, true, true]);
    assert_eq!(guards[0].subscriber_id(), "anonymous");
    for guard in guards {
        tracker.release(guard);
    }
    assert_eq!(tracker.active("anonymous"), 0);
}
