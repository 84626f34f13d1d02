use crate::backend::quinn::proto;
use quinn_proto::ClientConfig as QuinnClientConfig;
use quinn_proto::ServerConfig as QuinnServerConfig;
use vstd::prelude::*;

verus! {

/// The least size of a buffer that data is sent to network from.
pub const MIN_OUT_BUFFER_SIZE: usize = 1500;

/// `quinn-proto` backend configuration.
pub struct Config {
    /// Shared endpoint configuration that applies for both: server and client connections.
    pub endpoint: quinn_proto::EndpointConfig,
    /// Client configuration, or `None` to reject all local connection attempts.
    pub client: Option<ClientConfig>,
    /// Server configuration, or `None` to reject all remote connection attempts.
    pub server: Option<ServerConfig>,
    /// Number of primary buffers that are used to send data from QUIC backend to network.
    ///
    /// Multiple buffers are going to be used in `sendmmsg`-like syscalls.
    /// Number of buffers are going to be scaled down to `1` automatically
    /// if a socket doesn't support `sendmmsg`-like feature.
    ///
    /// Must be > 0.
    /// Default is `3`.
    pub out_buffers_count: usize,
    /// Number of reserved small buffers (1500 bytes long each) that are only used for the first packets
    /// like `Initial`, `Retry`, `Version Negotiation`, even when the primary `out_buffers` are busy.
    ///
    /// May be `zero`, and if a current socket doesn't support `sendmmsg` this will automatically
    /// be clamped to `zero`.
    ///
    /// Default is `3`.
    pub reserved_out_buffers_count: usize,
    /// Size of a single primary `out_buffer`.
    ///
    /// Must be >= `1500`.
    /// Default is `1500`.
    pub out_buffer_size: usize,
    /// Size of a single primary `out_buffer`, if a socket supports GSO.
    ///
    /// Must be >= `1500`.
    /// Default is `8192`.
    pub out_buffer_gso_size: usize,
}

/// Locally-initiated connections configuration.
pub struct ClientConfig {
    /// `quinn-proto` client configuration.
    pub config: QuinnClientConfig,
    /// Transport configuration.
    ///
    /// - If `Some`, it will replace the one of `config`, with some overridden values,
    ///   depending on a socket features.
    /// - If `None`, the default one will replace the one of `config`, with some overridden values.
    ///
    /// Default is `None`.
    pub transport: Option<quinn_proto::TransportConfig>,
}

/// Remote-initiated connections configuration.
pub struct ServerConfig {
    /// `quinn-proto` server configuration.
    pub config: QuinnServerConfig,
    /// Transport configuration.
    ///
    /// - If `Some`, it will replace the one of `config`, with some overridden values,
    ///   depending on a socket features.
    /// - If `None`, the default one will replace the one of `config`, with some overridden values.
    ///
    /// Default is `None`.
    pub transport: Option<quinn_proto::TransportConfig>,
}

impl Config {
    /// The values are valid.
    pub open spec fn is_valid(&self) -> bool {
        &&& self.out_buffers_count > 0
        &&& self.out_buffer_size >= MIN_OUT_BUFFER_SIZE
        &&& self.out_buffer_gso_size >= self.out_buffer_size
    }

    /// The configuration with valid values.
    pub open spec fn fixed(self) -> Config {
        let out_buffer_size = if self.out_buffer_size < MIN_OUT_BUFFER_SIZE {
            MIN_OUT_BUFFER_SIZE
        } else {
            self.out_buffer_size
        };
        Config {
            out_buffers_count: if self.out_buffers_count == 0 {
                1
            } else {
                self.out_buffers_count
            },
            out_buffer_size,
            out_buffer_gso_size: if self.out_buffer_gso_size < out_buffer_size {
                out_buffer_size
            } else {
                self.out_buffer_gso_size
            },
            ..self
        }
    }

    /// Adjusts config values if they are invalid.
    pub fn fix(&mut self)
        ensures
            final(self).is_valid(),
            *final(self) == old(self).fixed(),
    {
        if self.out_buffers_count == 0 {
            self.out_buffers_count = 1;
        }
        if self.out_buffer_size < MIN_OUT_BUFFER_SIZE {
            self.out_buffer_size = MIN_OUT_BUFFER_SIZE;
        }
        if self.out_buffer_gso_size < self.out_buffer_size {
            self.out_buffer_gso_size = self.out_buffer_size;
        }
    }
}

impl Default for Config {
    fn default() -> (r: Self)
        ensures
            r.is_valid(),
            r.client is None,
            r.server is None,
            r.out_buffers_count == 3,
            r.reserved_out_buffers_count == 3,
            r.out_buffer_size == 1500,
            r.out_buffer_gso_size == 8192,
    {
        Self {
            endpoint: proto::endpoint_config_default(),
            server: None,
            client: None,
            out_buffers_count: 3,
            reserved_out_buffers_count: 3,
            out_buffer_size: 1500,
            out_buffer_gso_size: 8192,
        }
    }
}

/// A transport configuration, without segmentation offload if the socket does not support it.
pub open spec fn adapted(
    transport: quinn_proto::TransportConfig,
    has_offload: bool,
) -> quinn_proto::TransportConfig {
    if has_offload {
        transport
    } else {
        proto::without_offload(transport)
    }
}

/// The transport configuration that connections use: the given one or a default one, adapted
/// to the socket.
pub open spec fn is_transport(
    given: Option<quinn_proto::TransportConfig>,
    has_offload: bool,
    used: quinn_proto::TransportConfig,
) -> bool {
    exists|transport: quinn_proto::TransportConfig|
        used == #[trigger] adapted(transport, has_offload) && (given is Some ==> given
            == Some(transport))
}

/// Returns the transport configuration that connections use.
pub(crate) fn adapt_transport(
    given: Option<quinn_proto::TransportConfig>,
    has_offload: bool,
) -> (r: quinn_proto::TransportConfig)
    ensures
        is_transport(given, has_offload, r),
{
    let transport = match given {
        Some(transport) => transport,
        None => proto::transport_default(),
    };
    let ghost base = transport;
    let used = if has_offload {
        transport
    } else {
        proto::disable_offload(transport)
    };
    assert(used == adapted(base, has_offload));
    used
}

impl ClientConfig {
    /// The configuration of client connections, with the transport configuration.
    pub open spec fn is_used(self, has_offload: bool, used: QuinnClientConfig) -> bool {
        exists|transport: quinn_proto::TransportConfig|
            is_transport(self.transport, has_offload, transport) && used
                == #[trigger] proto::with_client_transport(self.config, transport)
    }

    /// Returns the configuration of client connections, with the transport configuration.
    pub(crate) fn into_quinn(self, has_offload: bool) -> (r: QuinnClientConfig)
        ensures
            self.is_used(has_offload, r),
    {
        let transport = adapt_transport(self.transport, has_offload);
        proto::client_with_transport(self.config, transport)
    }

    /// Creates a default `ClientConfig` with the provided `quinn-proto` client configuration.
    pub fn new(config: QuinnClientConfig) -> (r: Self)
        ensures
            r == (ClientConfig { config, transport: None }),
    {
        Self { config, transport: None }
    }
}

impl ServerConfig {
    /// The configuration of server connections, with the transport configuration.
    pub open spec fn is_used(self, has_offload: bool, used: QuinnServerConfig) -> bool {
        exists|transport: quinn_proto::TransportConfig|
            is_transport(self.transport, has_offload, transport) && used
                == #[trigger] proto::with_server_transport(self.config, transport)
    }

    /// Returns the configuration of server connections, with the transport configuration.
    pub(crate) fn into_quinn(self, has_offload: bool) -> (r: QuinnServerConfig)
        ensures
            self.is_used(has_offload, r),
    {
        let transport = adapt_transport(self.transport, has_offload);
        proto::server_with_transport(self.config, transport)
    }

    /// Creates a default `ServerConfig` with the provided `quinn-proto` server configuration.
    pub fn new(config: QuinnServerConfig) -> (r: Self)
        ensures
            r == (ServerConfig { config, transport: None }),
    {
        Self { config, transport: None }
    }
}

/// Values that are valid stay as they are, and those that are too small become the least valid
/// ones: one buffer of fifteen hundred bytes, and no smaller ones for several segments.
pub proof fn law_invalid_values_are_raised(config: Config)
    ensures
        config.fixed().fixed() == config.fixed(),
        config.is_valid() ==> config.fixed() == config,
        config.fixed().out_buffers_count >= 1,
        config.out_buffers_count >= 1 ==> config.fixed().out_buffers_count
            == config.out_buffers_count,
        config.out_buffers_count == 0 ==> config.fixed().out_buffers_count == 1,
        config.out_buffer_size >= 1500 ==> config.fixed().out_buffer_size == config.out_buffer_size,
        config.out_buffer_size < 1500 ==> config.fixed().out_buffer_size == 1500,
        config.fixed().out_buffer_gso_size >= config.fixed().out_buffer_size,
        config.out_buffer_gso_size >= config.fixed().out_buffer_size
            ==> config.fixed().out_buffer_gso_size == config.out_buffer_gso_size,
        config.out_buffer_gso_size < config.fixed().out_buffer_size
            ==> config.fixed().out_buffer_gso_size == config.fixed().out_buffer_size,
        config.fixed().reserved_out_buffers_count == config.reserved_out_buffers_count,
        config.fixed().client == config.client,
        config.fixed().server == config.server,
        config.fixed().endpoint == config.endpoint,
{
}

/// The transport configuration that was given is used as it is, if the socket can do the
/// segmentation, and otherwise without it. It replaces the one of the connections.
pub proof fn law_given_transport_is_used(
    client: ClientConfig,
    server: ServerConfig,
    transport: quinn_proto::TransportConfig,
    has_offload: bool,
    used_client: QuinnClientConfig,
    used_server: QuinnServerConfig,
)
    requires
        client.transport == Some(transport),
        server.transport == Some(transport),
        client.is_used(has_offload, used_client),
        server.is_used(has_offload, used_server),
    ensures
        has_offload ==> {
            &&& used_client == proto::with_client_transport(client.config, transport)
            &&& used_server == proto::with_server_transport(server.config, transport)
        },
        !has_offload ==> {
            let without = proto::without_offload(transport);
            &&& used_client == proto::with_client_transport(client.config, without)
            &&& used_server == proto::with_server_transport(server.config, without)
        },
{
}

} // verus!
