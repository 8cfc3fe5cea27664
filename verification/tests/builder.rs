//! The client builder.

use std::time::Duration;
use tonic::metadata::MetadataMap;
use zakura_grpc::auth::TokenAuth;
use zakura_grpc::builder::{MetadataInterceptor, ZakuraGrpcBuilder, ZakuraGrpcBuilderError};
use zakura_grpc::config::Compression;
use zakura_grpc::reconnect::ReconnectConfig;

const ENDPOINT: &str = "http://127.0.0.1:10000";

#[test]
fn rejects_non_ascii_token() {
    let result = ZakuraGrpcBuilder::from_static("http://127.0.0.1:10000")
        .x_token(Some("bad\ntoken".to_owned()));
    assert!(matches!(result, Err(ZakuraGrpcBuilderError::Metadata)));
}

#[test]
fn endpoints_are_checked() {
    assert!(ZakuraGrpcBuilder::from_shared(ENDPOINT.to_owned()).is_ok());
    let error = match ZakuraGrpcBuilder::from_shared("not an address".to_owned()) {
        Ok(_) => panic!("the address is invalid"),
        Err(error) => error,
    };
    let reason = tonic::transport::Endpoint::from_shared("not an address".to_owned())
        .unwrap_err()
        .to_string();
    assert_eq!(error.message(), format!("gRPC transport error: {reason}"));
    assert_eq!(error.message(), "gRPC transport error: invalid URI");
}

#[test]
fn metadata_errors_have_the_message_of_the_transport() {
    let error = "bad\ntoken"
        .parse::<tonic::metadata::AsciiMetadataValue>()
        .unwrap_err();
    assert_eq!(
        ZakuraGrpcBuilderError::Metadata.message(),
        format!("invalid gRPC metadata value: {error}")
    );
}

#[test]
fn settings_reach_the_client() {
    let settings = ZakuraGrpcBuilder::from_static(ENDPOINT)
        .x_token(Some("secret".to_owned()))
        .ok()
        .unwrap()
        .subscription_id(Some("indexer-a".to_owned()))
        .ok()
        .unwrap()
        .connect_timeout(Duration::from_secs(5))
        .timeout(Duration::from_secs(6))
        .http2_adaptive_window(false)
        .http2_keep_alive_interval(Duration::from_secs(7))
        .keep_alive_timeout(Duration::from_secs(8))
        .keep_alive_while_idle(true)
        .initial_connection_window_size(Some(9))
        .initial_stream_window_size(Some(10))
        .tcp_keepalive(Some(Duration::from_secs(11)))
        .tcp_nodelay(true)
        .send_compressed(Compression::Gzip)
        .accept_compressed(Compression::Zstd)
        .max_decoding_message_size(12)
        .max_encoding_message_size(13)
        .set_reconnect_config(ReconnectConfig::default())
        .build();
    let endpoint = settings.endpoint;
    assert_eq!(endpoint.address, ENDPOINT);
    assert_eq!(endpoint.connect_timeout, Some(Duration::from_secs(5)));
    assert_eq!(endpoint.timeout, Some(Duration::from_secs(6)));
    assert_eq!(endpoint.http2_adaptive_window, Some(false));
    assert_eq!(
        endpoint.http2_keep_alive_interval,
        Some(Duration::from_secs(7))
    );
    assert_eq!(endpoint.keep_alive_timeout, Some(Duration::from_secs(8)));
    assert_eq!(endpoint.keep_alive_while_idle, Some(true));
    assert_eq!(endpoint.initial_connection_window_size, Some(9));
    assert_eq!(endpoint.initial_stream_window_size, Some(10));
    assert_eq!(endpoint.tcp_keepalive, Some(Duration::from_secs(11)));
    assert_eq!(endpoint.tcp_nodelay, Some(true));
    assert_eq!(settings.interceptor.x_token.as_deref(), Some("secret"));
    assert_eq!(
        settings.interceptor.subscription_id.as_deref(),
        Some("indexer-a")
    );
    assert_eq!(settings.options.send_compressed, Some(Compression::Gzip));
    assert_eq!(settings.options.accept_compressed, Some(Compression::Zstd));
    assert_eq!(settings.options.max_decoding_message_size, Some(12));
    assert_eq!(settings.options.max_encoding_message_size, Some(13));
    assert_eq!(settings.reconnect, Some(ReconnectConfig::default()));
}

#[test]
fn defaults_limit_messages() {
    let settings = ZakuraGrpcBuilder::from_static(ENDPOINT).build();
    assert_eq!(settings.endpoint.http2_adaptive_window, Some(true));
    assert_eq!(
        settings.options.max_decoding_message_size,
        Some(50 * 1024 * 1024)
    );
    assert_eq!(
        settings.options.max_encoding_message_size,
        Some(50 * 1024 * 1024)
    );
    assert_eq!(settings.options.send_compressed, None);
    assert_eq!(settings.reconnect, None);
}

#[test]
fn absent_headers_clear_the_setting() {
    let builder = ZakuraGrpcBuilder::from_static(ENDPOINT)
        .x_token(Some("secret".to_owned()))
        .ok()
        .unwrap()
        .x_token(None)
        .ok()
        .unwrap();
    assert_eq!(builder.x_token, None);
    assert!(matches!(
        builder.subscription_id(Some("\u{0}".to_owned())),
        Err(ZakuraGrpcBuilderError::Metadata)
    ));
}

#[test]
fn headers_must_be_ascii() {
    assert!(matches!(
        ZakuraGrpcBuilder::from_static(ENDPOINT).x_token(Some("é".to_owned())),
        Err(ZakuraGrpcBuilderError::Metadata)
    ));
    assert!(matches!(
        ZakuraGrpcBuilder::from_static(ENDPOINT).subscription_id(Some("indexer-é".to_owned())),
        Err(ZakuraGrpcBuilderError::Metadata)
    ));
    assert!(ZakuraGrpcBuilder::from_static(ENDPOINT)
        .x_token(Some("with\ttab and space~".to_owned()))
        .is_ok());
}

#[test]
fn the_token_of_the_client_is_accepted_by_the_server() {
    let interceptor = MetadataInterceptor {
        x_token: Some("secret token".to_owned()),
        subscription_id: Some("indexer-a".to_owned()),
    };
    let mut metadata = MetadataMap::new();
    metadata.insert("x-token", "stale".parse().unwrap());
    interceptor.call(&mut metadata);
    assert_eq!(metadata.get("x-token").unwrap(), "secret token");
    assert_eq!(metadata.get("x-subscription-id").unwrap(), "indexer-a");
    assert_eq!(metadata.len(), 2);
    let auth = TokenAuth::new(Some("secret token".to_owned()));
    assert!(auth.authorize(&metadata).is_ok());

    let silent = MetadataInterceptor {
        x_token: None,
        subscription_id: None,
    };
    let mut metadata = MetadataMap::new();
    silent.call(&mut metadata);
    assert!(metadata.is_empty());
}

#[test]
fn headers_are_added_while_there_is_room() {
    let interceptor = MetadataInterceptor {
        x_token: Some("secret".to_owned()),
        subscription_id: None,
    };
    let mut metadata = MetadataMap::new();
    assert!(interceptor.call_if_room(&mut metadata));
    assert_eq!(metadata.get("x-token").unwrap(), "secret");

    let crowd = |names: usize| {
        let mut metadata = MetadataMap::new();
        for index in 0..names {
            let name = format!("name-{index}");
            let key: tonic::metadata::AsciiMetadataKey = name.parse().unwrap();
            metadata.insert(key, "value".parse().unwrap());
        }
        metadata
    };
    let mut crowded = crowd(6_553);
    assert!(interceptor.call_if_room(&mut crowded));
    assert_eq!(crowded.get("x-token").unwrap(), "secret");
    assert_eq!(crowded.keys_len(), 6_554);
    assert!(!interceptor.call_if_room(&mut crowded));
    assert_eq!(crowded.keys_len(), 6_554);

    let both = MetadataInterceptor {
        x_token: Some("secret".to_owned()),
        subscription_id: Some("indexer-a".to_owned()),
    };
    let mut crowded = crowd(6_553);
    assert!(!both.call_if_room(&mut crowded));
    assert!(crowded.get("x-token").is_none());
    let mut crowded = crowd(6_552);
    assert!(both.call_if_room(&mut crowded));
    assert_eq!(crowded.get("x-subscription-id").unwrap(), "indexer-a");

    let silent = MetadataInterceptor {
        x_token: None,
        subscription_id: None,
    };
    let mut crowded = crowd(7_000);
    assert!(silent.call_if_room(&mut crowded));
    assert_eq!(crowded.keys_len(), 7_000);
}
