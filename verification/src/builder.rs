//! Settings of the client: transport, authentication and streaming.

use crate::auth::is_authorized;
use crate::config::Compression;
use crate::metadata::{
    check_ascii_metadata, insert_metadata, is_ascii_metadata, law_visible_text_survives,
    metadata_contents, metadata_names, MAX_METADATA_NAMES, SUBSCRIPTION_HEADER, TOKEN_HEADER,
};
use crate::reconnect::ReconnectConfig;
use crate::text::join2;
use std::time::Duration;
use tonic::metadata::MetadataMap;
use vstd::prelude::*;
use vstd::utf8::encode_utf8;

verus! {

/// Whether `tonic::transport::Endpoint` accepts a text as the address of a server.
pub uninterp spec fn is_endpoint(text: Seq<char>) -> bool;

/// Checks the address of a server with `tonic::transport::Endpoint::from_shared`, whose verdict
/// is named by [`is_endpoint`]. It rejects an address for one reason only.
#[verifier::external_body]
fn check_endpoint(text: &str) -> (result: Result<(), String>)
    ensures
        result is Ok <==> is_endpoint(text@),
        result matches Err(reason) ==> reason@ == "invalid URI"@,
{
    tonic::transport::Endpoint::from_shared(text.to_owned())
        .map(|_| ())
        .map_err(|error| error.to_string())
}

/// Error while configuring or connecting a Zakura gRPC client.
#[derive(Clone, Debug)]
pub enum ZakuraGrpcBuilderError {
    /// Metadata such as `x-token` was not valid ASCII metadata.
    Metadata,
    /// The channel endpoint or transport could not be configured, for some reason.
    Transport(String),
}

impl ZakuraGrpcBuilderError {
    /// The text of an error.
    pub open spec fn spec_message(self) -> Seq<char> {
        match self {
            ZakuraGrpcBuilderError::Metadata
                => "invalid gRPC metadata value: failed to parse metadata value"@,
            ZakuraGrpcBuilderError::Transport(reason) => "gRPC transport error: "@ + reason@,
        }
    }

    /// Describes the error.
    pub fn message(&self) -> (message: String)
        ensures
            message@ == self.spec_message(),
    {
        match self {
            ZakuraGrpcBuilderError::Metadata
                => "invalid gRPC metadata value: failed to parse metadata value".to_owned(),
            ZakuraGrpcBuilderError::Transport(reason) => join2(
                "gRPC transport error: ",
                reason.as_str(),
            ),
        }
    }
}

/// Settings of the transport. What is absent is left to the transport.
#[derive(Debug)]
pub struct EndpointSettings {
    /// The address of the server.
    pub address: String,
    pub connect_timeout: Option<Duration>,
    pub timeout: Option<Duration>,
    pub http2_adaptive_window: Option<bool>,
    pub http2_keep_alive_interval: Option<Duration>,
    pub keep_alive_timeout: Option<Duration>,
    pub keep_alive_while_idle: Option<bool>,
    pub initial_connection_window_size: Option<u32>,
    pub initial_stream_window_size: Option<u32>,
    pub tcp_keepalive: Option<Duration>,
    pub tcp_nodelay: Option<bool>,
}

/// Settings of the message encoding.
#[derive(Clone, Copy, Debug, PartialEq, Eq, Structural)]
pub struct ClientOptions {
    pub send_compressed: Option<Compression>,
    pub accept_compressed: Option<Compression>,
    pub max_decoding_message_size: Option<usize>,
    pub max_encoding_message_size: Option<usize>,
}

/// The headers that every request of the client carries.
#[derive(Debug)]
pub struct MetadataInterceptor {
    pub x_token: Option<String>,
    pub subscription_id: Option<String>,
}

/// Whether an optional text can be sent as a header value, and read by the server.
pub open spec fn is_optional_header(text: Option<String>) -> bool {
    text is Some ==> is_ascii_metadata(text->0@)
}

/// The contents of a map with a header set, if there is a value for it.
pub open spec fn with_header(
    contents: Map<Seq<char>, Seq<u8>>,
    name: Seq<char>,
    value: Option<String>,
) -> Map<Seq<char>, Seq<u8>> {
    match value {
        Some(value) => contents.insert(name, encode_utf8(value@)),
        None => contents,
    }
}

impl MetadataInterceptor {
    /// Whether the headers can be sent.
    pub open spec fn well_formed(self) -> bool {
        is_optional_header(self.x_token) && is_optional_header(self.subscription_id)
    }

    /// The number of headers.
    pub open spec fn spec_header_count(self) -> nat {
        (if self.x_token is Some {
            1nat
        } else {
            0
        }) + (if self.subscription_id is Some {
            1nat
        } else {
            0
        })
    }

    /// Whether metadata with so many names has room for the headers.
    pub open spec fn fits(self, names: nat) -> bool {
        self.spec_header_count() == 0 || names + self.spec_header_count() <= MAX_METADATA_NAMES + 1
    }

    /// The number of headers.
    fn header_count(&self) -> (count: usize)
        ensures
            count == self.spec_header_count(),
    {
        let token: usize = if self.x_token.is_some() {
            1
        } else {
            0
        };
        let subscription: usize = if self.subscription_id.is_some() {
            1
        } else {
            0
        };
        token + subscription
    }

    /// Adds the headers to the metadata of a request.
    pub fn call(&self, metadata: &mut MetadataMap)
        requires
            self.well_formed(),
            metadata_contents(*old(metadata)).dom().finite(),
            self.fits(metadata_contents(*old(metadata)).dom().len()),
        ensures
            metadata_contents(*final(metadata)) == with_header(
                with_header(metadata_contents(*old(metadata)), TOKEN_HEADER@, self.x_token),
                SUBSCRIPTION_HEADER@,
                self.subscription_id,
            ),
    {
        proof {
            if self.x_token is Some {
                law_visible_text_survives(self.x_token->0@);
            }
            if self.subscription_id is Some {
                law_visible_text_survives(self.subscription_id->0@);
            }
        }
        if let Some(value) = &self.x_token {
            insert_metadata(metadata, TOKEN_HEADER, value.as_str());
        }
        if let Some(value) = &self.subscription_id {
            insert_metadata(metadata, SUBSCRIPTION_HEADER, value.as_str());
        }
    }

    /// Adds the headers to the metadata of a request if there is room, and tells whether there
    /// was.
    pub fn call_if_room(&self, metadata: &mut MetadataMap) -> (added: bool)
        requires
            self.well_formed(),
        ensures
            added == self.fits(metadata_contents(*old(metadata)).dom().len()),
            if added {
                metadata_contents(*final(metadata)) == with_header(
                    with_header(metadata_contents(*old(metadata)), TOKEN_HEADER@, self.x_token),
                    SUBSCRIPTION_HEADER@,
                    self.subscription_id,
                )
            } else {
                *final(metadata) == *old(metadata)
            },
    {
        let count: usize = self.header_count();
        let names: usize = metadata_names(metadata);
        if count == 0 || names <= MAX_METADATA_NAMES + 1 - count {
            self.call(metadata);
            true
        } else {
            false
        }
    }
}

/// Everything that it takes to connect.
#[derive(Debug)]
pub struct ClientSettings {
    pub endpoint: EndpointSettings,
    pub interceptor: MetadataInterceptor,
    pub options: ClientOptions,
    pub reconnect: Option<ReconnectConfig>,
}

/// The largest message that the client sends or accepts, unless it is told otherwise.
pub const DEFAULT_MAX_MESSAGE_SIZE: usize = 52_428_800;

/// Fluent transport and streaming configuration for a client.
#[derive(Debug)]
pub struct ZakuraGrpcBuilder {
    pub endpoint: EndpointSettings,
    pub x_token: Option<String>,
    pub subscription_id: Option<String>,
    pub send_compressed: Option<Compression>,
    pub accept_compressed: Option<Compression>,
    pub max_decoding_message_size: Option<usize>,
    pub max_encoding_message_size: Option<usize>,
    pub reconnect: Option<ReconnectConfig>,
}

/// Whether a builder has nothing but an address and the default settings.
pub open spec fn is_default_builder(builder: ZakuraGrpcBuilder, address: Seq<char>) -> bool {
    &&& builder.endpoint.address@ == address
    &&& builder.endpoint.connect_timeout is None
    &&& builder.endpoint.timeout is None
    &&& builder.endpoint.http2_adaptive_window == Some(true)
    &&& builder.endpoint.http2_keep_alive_interval is None
    &&& builder.endpoint.keep_alive_timeout is None
    &&& builder.endpoint.keep_alive_while_idle is None
    &&& builder.endpoint.initial_connection_window_size is None
    &&& builder.endpoint.initial_stream_window_size is None
    &&& builder.endpoint.tcp_keepalive is None
    &&& builder.endpoint.tcp_nodelay is None
    &&& builder.x_token is None
    &&& builder.subscription_id is None
    &&& builder.send_compressed is None
    &&& builder.accept_compressed is None
    &&& builder.max_decoding_message_size == Some(DEFAULT_MAX_MESSAGE_SIZE)
    &&& builder.max_encoding_message_size == Some(DEFAULT_MAX_MESSAGE_SIZE)
    &&& builder.reconnect is None
}

impl ZakuraGrpcBuilder {
    /// Whether the headers can be sent.
    pub open spec fn well_formed(self) -> bool {
        is_optional_header(self.x_token) && is_optional_header(self.subscription_id)
    }

    /// Creates a builder from a runtime endpoint string.
    pub fn from_shared(endpoint: String) -> (result: Result<Self, ZakuraGrpcBuilderError>)
        ensures
            match result {
                Ok(builder) => {
                    &&& is_endpoint(endpoint@)
                    &&& is_default_builder(builder, endpoint@)
                },
                Err(error) => {
                    &&& !is_endpoint(endpoint@)
                    &&& error matches ZakuraGrpcBuilderError::Transport(reason)
                    &&& reason@ == "invalid URI"@
                },
            },
    {
        match check_endpoint(endpoint.as_str()) {
            Ok(_) => Ok(Self::from_static(endpoint.as_str())),
            Err(reason) => Err(ZakuraGrpcBuilderError::Transport(reason)),
        }
    }

    /// Creates a builder from an endpoint string that is known to be valid.
    pub fn from_static(endpoint: &str) -> (builder: Self)
        requires
            is_endpoint(endpoint@),
        ensures
            is_default_builder(builder, endpoint@),
            builder.well_formed(),
    {
        ZakuraGrpcBuilder {
            endpoint: EndpointSettings {
                address: endpoint.to_owned(),
                connect_timeout: None,
                timeout: None,
                http2_adaptive_window: Some(true),
                http2_keep_alive_interval: None,
                keep_alive_timeout: None,
                keep_alive_while_idle: None,
                initial_connection_window_size: None,
                initial_stream_window_size: None,
                tcp_keepalive: None,
                tcp_nodelay: None,
            },
            x_token: None,
            subscription_id: None,
            send_compressed: None,
            accept_compressed: None,
            max_decoding_message_size: Some(DEFAULT_MAX_MESSAGE_SIZE),
            max_encoding_message_size: Some(DEFAULT_MAX_MESSAGE_SIZE),
            reconnect: None,
        }
    }

    /// Finishes the configuration.
    pub fn build(self) -> (settings: ClientSettings)
        requires
            self.well_formed(),
        ensures
            settings.endpoint == self.endpoint,
            settings.interceptor == (MetadataInterceptor {
                x_token: self.x_token,
                subscription_id: self.subscription_id,
            }),
            settings.interceptor.well_formed(),
            settings.options == (ClientOptions {
                send_compressed: self.send_compressed,
                accept_compressed: self.accept_compressed,
                max_decoding_message_size: self.max_decoding_message_size,
                max_encoding_message_size: self.max_encoding_message_size,
            }),
            settings.reconnect == self.reconnect,
    {
        ClientSettings {
            endpoint: self.endpoint,
            interceptor: MetadataInterceptor {
                x_token: self.x_token,
                subscription_id: self.subscription_id,
            },
            options: ClientOptions {
                send_compressed: self.send_compressed,
                accept_compressed: self.accept_compressed,
                max_decoding_message_size: self.max_decoding_message_size,
                max_encoding_message_size: self.max_encoding_message_size,
            },
            reconnect: self.reconnect,
        }
    }

    /// Adds the shared authentication token to every request.
    pub fn x_token(self, value: Option<String>) -> (result: Result<Self, ZakuraGrpcBuilderError>)
        ensures
            match result {
                Ok(builder) => {
                    &&& is_optional_header(value)
                    &&& builder == (ZakuraGrpcBuilder { x_token: value, ..self })
                },
                Err(error) => !is_optional_header(value) && error is Metadata,
            },
    {
        if let Some(text) = &value {
            if !check_ascii_metadata(text.as_str()) {
                return Err(ZakuraGrpcBuilderError::Metadata);
            }
        }
        let mut builder = self;
        builder.x_token = value;
        Ok(builder)
    }

    /// Adds a stable identity used by server-side concurrent stream limits.
    pub fn subscription_id(self, value: Option<String>) -> (result: Result<
        Self,
        ZakuraGrpcBuilderError,
    >)
        ensures
            match result {
                Ok(builder) => {
                    &&& is_optional_header(value)
                    &&& builder == (ZakuraGrpcBuilder { subscription_id: value, ..self })
                },
                Err(error) => !is_optional_header(value) && error is Metadata,
            },
    {
        if let Some(text) = &value {
            if !check_ascii_metadata(text.as_str()) {
                return Err(ZakuraGrpcBuilderError::Metadata);
            }
        }
        let mut builder = self;
        builder.subscription_id = value;
        Ok(builder)
    }

    /// Sets the connection establishment timeout.
    pub fn connect_timeout(self, duration: Duration) -> (builder: Self)
        ensures
            builder == (ZakuraGrpcBuilder {
                endpoint: EndpointSettings { connect_timeout: Some(duration), ..self.endpoint },
                ..self
            }),
    {
        let mut builder = self;
        builder.endpoint.connect_timeout = Some(duration);
        builder
    }

    /// Sets the whole-request timeout.
    pub fn timeout(self, duration: Duration) -> (builder: Self)
        ensures
            builder == (ZakuraGrpcBuilder {
                endpoint: EndpointSettings { timeout: Some(duration), ..self.endpoint },
                ..self
            }),
    {
        let mut builder = self;
        builder.endpoint.timeout = Some(duration);
        builder
    }

    /// Enables or disables adaptive HTTP/2 flow control.
    pub fn http2_adaptive_window(self, enabled: bool) -> (builder: Self)
        ensures
            builder == (ZakuraGrpcBuilder {
                endpoint: EndpointSettings {
                    http2_adaptive_window: Some(enabled),
                    ..self.endpoint
                },
                ..self
            }),
    {
        let mut builder = self;
        builder.endpoint.http2_adaptive_window = Some(enabled);
        builder
    }

    /// Sets the HTTP/2 keepalive interval.
    pub fn http2_keep_alive_interval(self, interval: Duration) -> (builder: Self)
        ensures
            builder == (ZakuraGrpcBuilder {
                endpoint: EndpointSettings {
                    http2_keep_alive_interval: Some(interval),
                    ..self.endpoint
                },
                ..self
            }),
    {
        let mut builder = self;
        builder.endpoint.http2_keep_alive_interval = Some(interval);
        builder
    }

    /// Sets the keepalive acknowledgement timeout.
    pub fn keep_alive_timeout(self, duration: Duration) -> (builder: Self)
        ensures
            builder == (ZakuraGrpcBuilder {
                endpoint: EndpointSettings { keep_alive_timeout: Some(duration), ..self.endpoint },
                ..self
            }),
    {
        let mut builder = self;
        builder.endpoint.keep_alive_timeout = Some(duration);
        builder
    }

    /// Sends keepalives while no streams are active.
    pub fn keep_alive_while_idle(self, enabled: bool) -> (builder: Self)
        ensures
            builder == (ZakuraGrpcBuilder {
                endpoint: EndpointSettings {
                    keep_alive_while_idle: Some(enabled),
                    ..self.endpoint
                },
                ..self
            }),
    {
        let mut builder = self;
        builder.endpoint.keep_alive_while_idle = Some(enabled);
        builder
    }

    /// Sets the initial HTTP/2 connection window.
    pub fn initial_connection_window_size(self, size: Option<u32>) -> (builder: Self)
        ensures
            builder == (ZakuraGrpcBuilder {
                endpoint: EndpointSettings {
                    initial_connection_window_size: size,
                    ..self.endpoint
                },
                ..self
            }),
    {
        let mut builder = self;
        builder.endpoint.initial_connection_window_size = size;
        builder
    }

    /// Sets the initial HTTP/2 stream window.
    pub fn initial_stream_window_size(self, size: Option<u32>) -> (builder: Self)
        ensures
            builder == (ZakuraGrpcBuilder {
                endpoint: EndpointSettings { initial_stream_window_size: size, ..self.endpoint },
                ..self
            }),
    {
        let mut builder = self;
        builder.endpoint.initial_stream_window_size = size;
        builder
    }

    /// Sets TCP keepalive on the socket.
    pub fn tcp_keepalive(self, duration: Option<Duration>) -> (builder: Self)
        ensures
            builder == (ZakuraGrpcBuilder {
                endpoint: EndpointSettings { tcp_keepalive: duration, ..self.endpoint },
                ..self
            }),
    {
        let mut builder = self;
        builder.endpoint.tcp_keepalive = duration;
        builder
    }

    /// Enables or disables Nagle's algorithm.
    pub fn tcp_nodelay(self, enabled: bool) -> (builder: Self)
        ensures
            builder == (ZakuraGrpcBuilder {
                endpoint: EndpointSettings { tcp_nodelay: Some(enabled), ..self.endpoint },
                ..self
            }),
    {
        let mut builder = self;
        builder.endpoint.tcp_nodelay = Some(enabled);
        builder
    }

    /// Compresses requests using the selected encoding.
    pub fn send_compressed(self, encoding: Compression) -> (builder: Self)
        ensures
            builder == (ZakuraGrpcBuilder { send_compressed: Some(encoding), ..self }),
    {
        let mut builder = self;
        builder.send_compressed = Some(encoding);
        builder
    }

    /// Accepts compressed responses using the selected encoding.
    pub fn accept_compressed(self, encoding: Compression) -> (builder: Self)
        ensures
            builder == (ZakuraGrpcBuilder { accept_compressed: Some(encoding), ..self }),
    {
        let mut builder = self;
        builder.accept_compressed = Some(encoding);
        builder
    }

    /// Sets the largest decoded response accepted by this client.
    pub fn max_decoding_message_size(self, limit: usize) -> (builder: Self)
        ensures
            builder == (ZakuraGrpcBuilder { max_decoding_message_size: Some(limit), ..self }),
    {
        let mut builder = self;
        builder.max_decoding_message_size = Some(limit);
        builder
    }

    /// Sets the largest encoded request emitted by this client.
    pub fn max_encoding_message_size(self, limit: usize) -> (builder: Self)
        ensures
            builder == (ZakuraGrpcBuilder { max_encoding_message_size: Some(limit), ..self }),
    {
        let mut builder = self;
        builder.max_encoding_message_size = Some(limit);
        builder
    }

    /// Enables automatic stream reconnection using the selected policy.
    pub fn set_reconnect_config(self, config: ReconnectConfig) -> (builder: Self)
        ensures
            builder == (ZakuraGrpcBuilder { reconnect: Some(config), ..self }),
    {
        let mut builder = self;
        builder.reconnect = Some(config);
        builder
    }
}

/// A server that expects the token of a client lets the client's requests in, whatever token the
/// client was given.
pub proof fn law_client_token_is_accepted(
    interceptor: MetadataInterceptor,
    contents: Map<Seq<char>, Seq<u8>>,
)
    requires
        interceptor.x_token is Some,
        interceptor.well_formed(),
    ensures
        is_authorized(
            Some(interceptor.x_token->0@),
            with_header(
                with_header(contents, TOKEN_HEADER@, interceptor.x_token),
                SUBSCRIPTION_HEADER@,
                interceptor.subscription_id,
            ),
        ),
{
    reveal_strlit("x-token");
    reveal_strlit("x-subscription-id");
    let token = interceptor.x_token->0@;
    law_visible_text_survives(token);
    assert(TOKEN_HEADER@.len() == 7);
    assert(SUBSCRIPTION_HEADER@.len() == 17);
}

} // verus!
