//! Configuration defaults and validation.

use zakura_grpc::config::{Compression, Config, ConfigError, FilterLimits};

#[test]
fn defaults_match_short_reconnect_replay() {
    let config = Config::default();
    assert_eq!(config.listen_addr, "127.0.0.1:10000");
    assert_eq!(config.replay_stored_blocks, 150);
    assert!(config.validate().is_ok());
}

#[test]
fn empty_token_is_rejected() {
    let config = Config {
        x_token: Some(String::new()),
        ..Config::default()
    };
    assert_eq!(config.validate(), Err(ConfigError::EmptyToken));
}

#[test]
fn defaults_have_their_documented_values() {
    let config = Config::default();
    assert!(config.transaction_updates);
    assert!(config.utxo_updates);
    assert!(!config.mempool_transaction_updates);
    assert_eq!(config.replay_max_events, 250_000);
    assert_eq!(config.replay_max_bytes, 536_870_912);
    assert_eq!(config.replay_max_age_seconds, Some(14_400));
    assert_eq!(config.broadcast_capacity, 100_000);
    assert_eq!(config.client_channel_capacity, 10_000);
    assert_eq!(config.max_decoding_message_size, 4_194_304);
    assert_eq!(config.max_encoding_message_size, 52_428_800);
    assert_eq!(
        config.compression.accept,
        vec![Compression::Gzip, Compression::Zstd]
    );
    assert_eq!(
        config.compression.send,
        vec![Compression::Gzip, Compression::Zstd]
    );
    assert_eq!(config.x_token, None);
    assert_eq!(config.subscription_limit, 1_000);
    assert!(!config.subscription_limit_enforce);
    assert_eq!(config.event_encoding_threads, 1);
    assert_eq!(config.parallel_encoding_min_transactions, 32);
    assert_eq!(config.server_http2_adaptive_window, Some(true));
    assert_eq!(config.server_http2_keepalive_interval_ms, None);
    assert_eq!(config.filter_limits.max_named_filters, 32);
    assert_eq!(config.filter_limits.max_event_types, 4);
    assert_eq!(config.filter_limits.max_name_bytes, 128);
    assert_eq!(config.filter_limits.max_transaction_ids, 256);
    assert_eq!(config.filter_limits.max_transparent_addresses, 256);
    assert!(config.filter_limits.allow_all);
}

#[test]
fn each_zero_is_rejected() {
    let check = |config: Config, error: ConfigError, message: &str| {
        assert_eq!(config.validate(), Err(error.clone()));
        assert_eq!(error.message(), message);
    };
    check(
        Config {
            broadcast_capacity: 0,
            ..Config::default()
        },
        ConfigError::ZeroBroadcastCapacity,
        "broadcast_capacity must be greater than zero",
    );
    check(
        Config {
            client_channel_capacity: 0,
            ..Config::default()
        },
        ConfigError::ZeroClientChannelCapacity,
        "client_channel_capacity must be greater than zero",
    );
    check(
        Config {
            max_decoding_message_size: 0,
            ..Config::default()
        },
        ConfigError::ZeroMaxDecodingMessageSize,
        "max_decoding_message_size must be greater than zero",
    );
    check(
        Config {
            max_encoding_message_size: 0,
            ..Config::default()
        },
        ConfigError::ZeroMaxEncodingMessageSize,
        "max_encoding_message_size must be greater than zero",
    );
    let limited = |filter_limits: FilterLimits| Config {
        filter_limits,
        ..Config::default()
    };
    check(
        limited(FilterLimits {
            max_named_filters: 0,
            ..FilterLimits::default()
        }),
        ConfigError::ZeroMaxNamedFilters,
        "filter_limits.max_named_filters must be greater than zero",
    );
    check(
        limited(FilterLimits {
            max_event_types: 0,
            ..FilterLimits::default()
        }),
        ConfigError::ZeroMaxEventTypes,
        "filter_limits.max_event_types must be greater than zero",
    );
    check(
        limited(FilterLimits {
            max_name_bytes: 0,
            ..FilterLimits::default()
        }),
        ConfigError::ZeroMaxFilterNameBytes,
        "filter_limits.max_name_bytes must be greater than zero",
    );
}

#[test]
fn tokens_must_fit_a_header() {
    let config = |token: &str| Config {
        x_token: Some(token.to_owned()),
        ..Config::default()
    };
    assert_eq!(config("bad\ntoken").validate(), Err(ConfigError::InvalidToken));
    assert_eq!(config("\u{7f}").validate(), Err(ConfigError::InvalidToken));
    assert!(config("with\ttab and space").validate().is_ok());
    assert_eq!(config("é").validate(), Err(ConfigError::InvalidToken));
    assert_eq!(config("token \u{80}").validate(), Err(ConfigError::InvalidToken));
    assert!(config(" ~!").validate().is_ok());
    assert_eq!(
        ConfigError::InvalidToken.message(),
        "x_token must be valid ASCII gRPC metadata"
    );
    assert_eq!(
        ConfigError::EmptyToken.message(),
        "x_token must be omitted or contain at least one character"
    );
}
