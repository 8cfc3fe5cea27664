//! Configuration of the plugin.

use crate::metadata::{check_ascii_metadata, is_ascii_metadata};
use crate::text::is_empty;
use vstd::prelude::*;

verus! {

/// Configuration owned by one Zakura gRPC plugin instance.
#[derive(Clone, Debug)]
pub struct Config {
    /// Address used by the gRPC server.
    pub listen_addr: String,
    /// Publish an update for each transaction of a block.
    pub transaction_updates: bool,
    /// Publish an update for the transparent outputs that each transaction of a block spends and
    /// creates.
    pub utxo_updates: bool,
    /// Publish an update for each transaction that enters the mempool.
    pub mempool_transaction_updates: bool,
    /// Number of distinct block heights retained for short reconnect replay.
    pub replay_stored_blocks: usize,
    /// Number of updates retained for replay.
    pub replay_max_events: usize,
    /// Encoded bytes of the updates retained for replay.
    pub replay_max_bytes: usize,
    /// Age up to which updates are retained for replay.
    pub replay_max_age_seconds: Option<u64>,
    /// Capacity of the live event broadcast ring.
    pub broadcast_capacity: usize,
    /// Bounded outbound queue capacity for each connected client.
    pub client_channel_capacity: usize,
    /// Maximum decoded inbound gRPC message size in bytes.
    pub max_decoding_message_size: usize,
    /// Maximum encoded outbound gRPC message size in bytes.
    pub max_encoding_message_size: usize,
    /// Accepted and emitted gRPC compression formats.
    pub compression: CompressionConfig,
    /// Optional shared token required in the `x-token` metadata header.
    pub x_token: Option<String>,
    /// Maximum concurrent subscriptions for one `x-subscription-id` or IP; at least one.
    pub subscription_limit: usize,
    /// Reject excessive subscriptions instead of only recording a metric and warning.
    pub subscription_limit_enforce: bool,
    /// Limits applied whenever a client installs a subscription filter.
    pub filter_limits: FilterLimits,
    /// Number of threads that encode the transactions of an event.
    pub event_encoding_threads: usize,
    /// Number of transactions from which on an event is encoded by several threads.
    pub parallel_encoding_min_transactions: usize,
    /// Interval of the keepalives that the server sends to each subscriber.
    pub subscription_ping_interval_seconds: Option<u64>,
    /// Enable Tonic's adaptive HTTP/2 flow-control window.
    pub server_http2_adaptive_window: Option<bool>,
    /// HTTP/2 keepalive interval in milliseconds.
    pub server_http2_keepalive_interval_ms: Option<u64>,
    /// HTTP/2 keepalive timeout in milliseconds.
    pub server_http2_keepalive_timeout_ms: Option<u64>,
    /// Initial connection flow-control window in bytes.
    pub server_initial_connection_window_size: Option<u32>,
    /// Initial stream flow-control window in bytes.
    pub server_initial_stream_window_size: Option<u32>,
}

/// The first thing that is wrong with a configuration, if anything is.
pub open spec fn config_error(config: Config) -> Option<ConfigError> {
    if config.broadcast_capacity == 0 {
        Some(ConfigError::ZeroBroadcastCapacity)
    } else if config.client_channel_capacity == 0 {
        Some(ConfigError::ZeroClientChannelCapacity)
    } else if config.max_decoding_message_size == 0 {
        Some(ConfigError::ZeroMaxDecodingMessageSize)
    } else if config.max_encoding_message_size == 0 {
        Some(ConfigError::ZeroMaxEncodingMessageSize)
    } else if config.x_token is Some && config.x_token->0@.len() == 0 {
        Some(ConfigError::EmptyToken)
    } else if config.x_token is Some && !is_ascii_metadata(config.x_token->0@) {
        Some(ConfigError::InvalidToken)
    } else {
        limits_error(config.filter_limits)
    }
}

impl Config {
    /// Checks the configuration.
    pub fn validate(&self) -> (result: Result<(), ConfigError>)
        ensures
            match result {
                Ok(_) => config_error(*self) is None,
                Err(error) => config_error(*self) == Some(error),
            },
    {
        if self.broadcast_capacity == 0 {
            return Err(ConfigError::ZeroBroadcastCapacity);
        }
        if self.client_channel_capacity == 0 {
            return Err(ConfigError::ZeroClientChannelCapacity);
        }
        if self.max_decoding_message_size == 0 {
            return Err(ConfigError::ZeroMaxDecodingMessageSize);
        }
        if self.max_encoding_message_size == 0 {
            return Err(ConfigError::ZeroMaxEncodingMessageSize);
        }
        if let Some(token) = &self.x_token {
            if is_empty(token.as_str()) {
                return Err(ConfigError::EmptyToken);
            }
            if !check_ascii_metadata(token.as_str()) {
                return Err(ConfigError::InvalidToken);
            }
        }
        self.filter_limits.validate()
    }
}

impl Default for Config {
    fn default() -> (config: Self)
        ensures
            config.listen_addr@ == "127.0.0.1:10000"@,
            config.transaction_updates,
            config.utxo_updates,
            !config.mempool_transaction_updates,
            config.replay_stored_blocks == 150,
            config.replay_max_events == 250_000,
            config.replay_max_bytes == 536_870_912,
            config.replay_max_age_seconds == Some(14_400u64),
            config.broadcast_capacity == 100_000,
            config.client_channel_capacity == 10_000,
            config.max_decoding_message_size == 4 * 1024 * 1024,
            config.max_encoding_message_size == 50 * 1024 * 1024,
            config.compression.accept@ == seq![Compression::Gzip, Compression::Zstd],
            config.compression.send@ == seq![Compression::Gzip, Compression::Zstd],
            config.x_token is None,
            config.subscription_limit == 1_000,
            !config.subscription_limit_enforce,
            default_limits(config.filter_limits),
            config.event_encoding_threads == 1,
            config.parallel_encoding_min_transactions == 32,
            config.subscription_ping_interval_seconds is None,
            config.server_http2_adaptive_window == Some(true),
            config.server_http2_keepalive_interval_ms is None,
            config.server_http2_keepalive_timeout_ms is None,
            config.server_initial_connection_window_size is None,
            config.server_initial_stream_window_size is None,
            config_error(config) is None,
    {
        Config {
            listen_addr: "127.0.0.1:10000".to_owned(),
            transaction_updates: true,
            utxo_updates: true,
            mempool_transaction_updates: false,
            replay_stored_blocks: 150,
            replay_max_events: 250_000,
            replay_max_bytes: 536_870_912,
            replay_max_age_seconds: Some(14_400),
            broadcast_capacity: 100_000,
            client_channel_capacity: 10_000,
            max_decoding_message_size: 4 * 1024 * 1024,
            max_encoding_message_size: 50 * 1024 * 1024,
            compression: CompressionConfig::default(),
            x_token: None,
            subscription_limit: 1_000,
            subscription_limit_enforce: false,
            filter_limits: FilterLimits::default(),
            event_encoding_threads: 1,
            parallel_encoding_min_transactions: 32,
            subscription_ping_interval_seconds: None,
            server_http2_adaptive_window: Some(true),
            server_http2_keepalive_interval_ms: None,
            server_http2_keepalive_timeout_ms: None,
            server_initial_connection_window_size: None,
            server_initial_stream_window_size: None,
        }
    }
}

/// Supported gRPC compression algorithm.
#[derive(Clone, Copy, Debug, PartialEq, Eq, Structural)]
pub enum Compression {
    /// Gzip compression.
    Gzip,
    /// Zstandard compression.
    Zstd,
}

/// Compression formats accepted from and sent to clients.
#[derive(Clone, Debug)]
pub struct CompressionConfig {
    /// Formats accepted on inbound requests.
    pub accept: Vec<Compression>,
    /// Formats available for outbound responses.
    pub send: Vec<Compression>,
}

impl Default for CompressionConfig {
    fn default() -> (config: Self)
        ensures
            config.accept@ == seq![Compression::Gzip, Compression::Zstd],
            config.send@ == seq![Compression::Gzip, Compression::Zstd],
    {
        CompressionConfig {
            accept: vec![Compression::Gzip, Compression::Zstd],
            send: vec![Compression::Gzip, Compression::Zstd],
        }
    }
}

/// Limits for legacy and named subscription filters.
#[derive(Debug)]
pub struct FilterLimits {
    /// Maximum named filters in one request.
    pub max_named_filters: usize,
    /// Maximum event types in each legacy or named filter.
    pub max_event_types: usize,
    /// Maximum UTF-8 byte length of a filter name.
    pub max_name_bytes: usize,
    /// Maximum transaction IDs in each named filter.
    pub max_transaction_ids: usize,
    /// Maximum addresses in the legacy list of each named filter.
    pub max_transparent_addresses: usize,
    /// Maximum included addresses in each named filter.
    pub max_address_include: usize,
    /// Maximum excluded addresses in each named filter.
    pub max_address_exclude: usize,
    /// Maximum required addresses in each named filter.
    pub max_address_required: usize,
    /// Transaction IDs that no filter may name.
    pub transaction_id_reject: Vec<String>,
    /// Addresses that no legacy list may name.
    pub transparent_address_reject: Vec<String>,
    /// Addresses that no filter may include.
    pub address_include_reject: Vec<String>,
    /// Addresses that no filter may exclude.
    pub address_exclude_reject: Vec<String>,
    /// Addresses that no filter may require.
    pub address_required_reject: Vec<String>,
    /// Allow an empty filter to subscribe to every event type.
    pub allow_all: bool,
}

/// The first thing that is wrong with limits, if anything is.
pub open spec fn limits_error(limits: FilterLimits) -> Option<ConfigError> {
    if limits.max_named_filters == 0 {
        Some(ConfigError::ZeroMaxNamedFilters)
    } else if limits.max_event_types == 0 {
        Some(ConfigError::ZeroMaxEventTypes)
    } else if limits.max_name_bytes == 0 {
        Some(ConfigError::ZeroMaxFilterNameBytes)
    } else {
        None
    }
}

/// Whether limits are the default ones.
pub open spec fn default_limits(limits: FilterLimits) -> bool {
    &&& limits.max_named_filters == 32
    &&& limits.max_event_types == 4
    &&& limits.max_name_bytes == 128
    &&& limits.max_transaction_ids == 256
    &&& limits.max_transparent_addresses == 256
    &&& limits.max_address_include == 256
    &&& limits.max_address_exclude == 256
    &&& limits.max_address_required == 256
    &&& limits.transaction_id_reject@.len() == 0
    &&& limits.transparent_address_reject@.len() == 0
    &&& limits.address_include_reject@.len() == 0
    &&& limits.address_exclude_reject@.len() == 0
    &&& limits.address_required_reject@.len() == 0
    &&& limits.allow_all
}

/// Whether limits have the same contents.
pub open spec fn same_limits(left: FilterLimits, right: FilterLimits) -> bool {
    &&& left.max_named_filters == right.max_named_filters
    &&& left.max_event_types == right.max_event_types
    &&& left.max_name_bytes == right.max_name_bytes
    &&& left.max_transaction_ids == right.max_transaction_ids
    &&& left.max_transparent_addresses == right.max_transparent_addresses
    &&& left.max_address_include == right.max_address_include
    &&& left.max_address_exclude == right.max_address_exclude
    &&& left.max_address_required == right.max_address_required
    &&& left.transaction_id_reject@ == right.transaction_id_reject@
    &&& left.transparent_address_reject@ == right.transparent_address_reject@
    &&& left.address_include_reject@ == right.address_include_reject@
    &&& left.address_exclude_reject@ == right.address_exclude_reject@
    &&& left.address_required_reject@ == right.address_required_reject@
    &&& left.allow_all == right.allow_all
}

impl Clone for FilterLimits {
    fn clone(&self) -> (limits: Self)
        ensures
            same_limits(limits, *self),
    {
        let limits = FilterLimits {
            max_named_filters: self.max_named_filters,
            max_event_types: self.max_event_types,
            max_name_bytes: self.max_name_bytes,
            max_transaction_ids: self.max_transaction_ids,
            max_transparent_addresses: self.max_transparent_addresses,
            max_address_include: self.max_address_include,
            max_address_exclude: self.max_address_exclude,
            max_address_required: self.max_address_required,
            transaction_id_reject: self.transaction_id_reject.clone(),
            transparent_address_reject: self.transparent_address_reject.clone(),
            address_include_reject: self.address_include_reject.clone(),
            address_exclude_reject: self.address_exclude_reject.clone(),
            address_required_reject: self.address_required_reject.clone(),
            allow_all: self.allow_all,
        };
        proof {
            assert(limits.transaction_id_reject@ =~= self.transaction_id_reject@);
            assert(limits.transparent_address_reject@ =~= self.transparent_address_reject@);
            assert(limits.address_include_reject@ =~= self.address_include_reject@);
            assert(limits.address_exclude_reject@ =~= self.address_exclude_reject@);
            assert(limits.address_required_reject@ =~= self.address_required_reject@);
        }
        limits
    }
}

impl FilterLimits {
    /// Checks the limits.
    pub fn validate(&self) -> (result: Result<(), ConfigError>)
        ensures
            match result {
                Ok(_) => limits_error(*self) is None,
                Err(error) => limits_error(*self) == Some(error),
            },
    {
        if self.max_named_filters == 0 {
            return Err(ConfigError::ZeroMaxNamedFilters);
        }
        if self.max_event_types == 0 {
            return Err(ConfigError::ZeroMaxEventTypes);
        }
        if self.max_name_bytes == 0 {
            return Err(ConfigError::ZeroMaxFilterNameBytes);
        }
        Ok(())
    }
}

impl Default for FilterLimits {
    fn default() -> (limits: Self)
        ensures
            default_limits(limits),
    {
        FilterLimits {
            max_named_filters: 32,
            max_event_types: 4,
            max_name_bytes: 128,
            max_transaction_ids: 256,
            max_transparent_addresses: 256,
            max_address_include: 256,
            max_address_exclude: 256,
            max_address_required: 256,
            transaction_id_reject: Vec::new(),
            transparent_address_reject: Vec::new(),
            address_include_reject: Vec::new(),
            address_exclude_reject: Vec::new(),
            address_required_reject: Vec::new(),
            allow_all: true,
        }
    }
}

/// Invalid plugin configuration.
#[derive(Clone, Copy, Debug, PartialEq, Eq, Structural)]
pub enum ConfigError {
    /// The live broadcast ring cannot be empty.
    ZeroBroadcastCapacity,
    /// Every client needs a bounded non-empty outbound queue.
    ZeroClientChannelCapacity,
    /// Tonic must accept at least one byte per inbound request.
    ZeroMaxDecodingMessageSize,
    /// Tonic must be able to encode at least one byte per response.
    ZeroMaxEncodingMessageSize,
    /// Empty tokens can be confused with disabled authentication.
    EmptyToken,
    /// The token must be representable as ASCII gRPC metadata.
    InvalidToken,
    /// At least one named filter must be representable.
    ZeroMaxNamedFilters,
    /// At least one event type must be representable.
    ZeroMaxEventTypes,
    /// Filter names need a positive size limit.
    ZeroMaxFilterNameBytes,
}

impl ConfigError {
    /// The text of an error.
    pub open spec fn spec_message(self) -> Seq<char> {
        match self {
            ConfigError::ZeroBroadcastCapacity => "broadcast_capacity must be greater than zero"@,
            ConfigError::ZeroClientChannelCapacity
                => "client_channel_capacity must be greater than zero"@,
            ConfigError::ZeroMaxDecodingMessageSize
                => "max_decoding_message_size must be greater than zero"@,
            ConfigError::ZeroMaxEncodingMessageSize
                => "max_encoding_message_size must be greater than zero"@,
            ConfigError::EmptyToken => "x_token must be omitted or contain at least one character"@,
            ConfigError::InvalidToken => "x_token must be valid ASCII gRPC metadata"@,
            ConfigError::ZeroMaxNamedFilters
                => "filter_limits.max_named_filters must be greater than zero"@,
            ConfigError::ZeroMaxEventTypes
                => "filter_limits.max_event_types must be greater than zero"@,
            ConfigError::ZeroMaxFilterNameBytes
                => "filter_limits.max_name_bytes must be greater than zero"@,
        }
    }

    /// Describes the error.
    pub fn message(&self) -> (message: String)
        ensures
            message@ == self.spec_message(),
    {
        match self {
            ConfigError::ZeroBroadcastCapacity
                => "broadcast_capacity must be greater than zero".to_owned(),
            ConfigError::ZeroClientChannelCapacity
                => "client_channel_capacity must be greater than zero".to_owned(),
            ConfigError::ZeroMaxDecodingMessageSize
                => "max_decoding_message_size must be greater than zero".to_owned(),
            ConfigError::ZeroMaxEncodingMessageSize
                => "max_encoding_message_size must be greater than zero".to_owned(),
            ConfigError::EmptyToken
                => "x_token must be omitted or contain at least one character".to_owned(),
            ConfigError::InvalidToken => "x_token must be valid ASCII gRPC metadata".to_owned(),
            ConfigError::ZeroMaxNamedFilters
                => "filter_limits.max_named_filters must be greater than zero".to_owned(),
            ConfigError::ZeroMaxEventTypes
                => "filter_limits.max_event_types must be greater than zero".to_owned(),
            ConfigError::ZeroMaxFilterNameBytes
                => "filter_limits.max_name_bytes must be greater than zero".to_owned(),
        }
    }
}

} // verus!
