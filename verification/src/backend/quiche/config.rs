use crate::backend::cid::ConnectionIdGenerator;
use crate::backend::firewall::Firewall;
use crate::backend::quiche::session;
use crate::backend::token::TokenGenerator;
use crate::net::msg;
use crate::net::SoFeat;
use crate::time::Duration;
use vstd::prelude::*;

verus! {

/// The least size of the buffer that data is sent to network from.
pub const MIN_OUT_BUFFER_SIZE: usize = 2048;

/// `quiche` backend configuration.
pub struct Config<G, F, T> {
    /// Client configuration, or `None` to reject all local connection attempts.
    pub client: Option<ClientConfig>,
    /// Server configuration, or `None` to reject all remote connection attempts.
    pub server: Option<ServerConfig<F, T>>,
    /// Connection ID generator to use.
    pub connection_id_generator: G,
    /// A fixed size of a single contiguous buffer that is used to send data from QUIC backend to network.
    ///
    /// Note: this buffer is shared for all connections.
    ///
    /// Must be >= `2048`.
    pub out_buffer_size: usize,
}

/// Remote-initiated connections configuration.
pub struct ServerConfig<F, T> {
    /// Firewall to use for incoming connections.
    ///
    /// See [StrictFirewall](crate::backend::StrictFirewall) for a simple one.
    pub firewall: F,
    /// Token generator to use.
    ///
    /// See [PaddedTokenGenerator](crate::backend::token::PaddedTokenGenerator).
    pub token_generator: T,
    /// Maximum duration to accept for a connection to fully establish, before timing out the connection.
    ///
    /// Default is `15` seconds.
    ///
    /// # Security Warning
    ///
    /// A lifetime of a `Retry` token depends on this timeout,
    /// so it should be set to a reasonable value to prevent replay attacks.
    ///
    /// See [TokenGenerator::generate_retry_token].
    pub establish_timeout: Duration,
}

/// Locally-initiated connections configuration.
pub struct ClientConfig {
    /// Maximum duration to accept for a connection to fully establish, before timing out the connection.
    ///
    /// Default is `30` seconds.
    pub establish_timeout: Option<Duration>,
    /// Maximum number of entries in the session cache.
    ///
    /// Session cache is used to store QUIC sessions to open 0-RTT connections.
    ///
    /// Default is `256`.
    pub session_cache_max_capacity: usize,
    /// Time to live for entries in the session cache.
    ///
    /// The difference between `time_to_live` and `time_to_idle`
    /// is that the former is the maximum lifetime of an entry since its creation,
    /// while the latter is the maximum lifetime of an entry since its last access.
    ///
    /// Default is `24h`.
    pub session_cache_time_to_live: Option<Duration>,
    /// Time to idle for entries in the session cache.
    ///
    /// See [`session_cache_time_to_live`][Self::session_cache_time_to_live].
    ///
    /// Default is `3h`.
    pub session_cache_time_to_idle: Option<Duration>,
}

impl<G: ConnectionIdGenerator, F: Firewall, T: TokenGenerator> Config<G, F, T> {
    /// Adjusts config values if they are invalid.
    pub fn fix(&mut self)
        ensures
            *final(self) == (Config {
                out_buffer_size: if old(self).out_buffer_size < MIN_OUT_BUFFER_SIZE {
                    MIN_OUT_BUFFER_SIZE
                } else {
                    old(self).out_buffer_size
                },
                ..*old(self)
            }),
            final(self).out_buffer_size >= 2048,
            old(self).out_buffer_size >= 2048 ==> *final(self) == *old(self),
            old(self).out_buffer_size < 2048 ==> final(self).out_buffer_size == 2048,
    {
        if self.out_buffer_size < MIN_OUT_BUFFER_SIZE {
            self.out_buffer_size = MIN_OUT_BUFFER_SIZE;
        }
    }

    /// The times of the session cache are ones that it takes.
    pub open spec fn has_cache_times(&self) -> bool {
        self.client matches Some(client) ==> session::is_cache_time(
            client.session_cache_time_to_live,
        ) && session::is_cache_time(client.session_cache_time_to_idle)
    }
}

impl ClientConfig {
    /// Creates a default `ClientConfig`.
    pub fn new() -> (r: Self)
        ensures
            r.establish_timeout == Some(Duration { nanos: 30_000_000_000 }),
            r.session_cache_max_capacity == 256,
            r.session_cache_time_to_live == Some(Duration { nanos: 86_400_000_000_000 }),
            r.session_cache_time_to_idle == Some(Duration { nanos: 10_800_000_000_000 }),
    {
        Self {
            establish_timeout: Some(Duration::from_secs(30)),
            session_cache_max_capacity: 256,
            session_cache_time_to_live: Some(Duration::from_secs(24 * 3600)),
            session_cache_time_to_idle: Some(Duration::from_secs(3 * 3600)),
        }
    }
}

impl<F: Firewall, T: TokenGenerator> ServerConfig<F, T> {
    /// Creates a default `ServerConfig`.
    pub fn new(firewall: F, token_generator: T) -> (r: Self)
        ensures
            r.firewall == firewall,
            r.token_generator == token_generator,
            r.establish_timeout == (Duration { nanos: 15_000_000_000 }),
    {
        Self { firewall, token_generator, establish_timeout: Duration::from_secs(15) }
    }
}

/// Returns `true` if path MTU discovery is to be enabled:
/// the socket returns an error if packet size exceeds MTU.
pub fn discovers_pmtu(socket_features: &Vec<SoFeat>) -> (r: bool)
    ensures
        r == socket_features@.contains(SoFeat::DontFragment),
{
    msg::supports(socket_features, SoFeat::DontFragment)
}

/// Both times of the session cache are at most a thousand years, if they are bounded at all.
pub proof fn law_times_of_the_cache_are_bounded<G, F, T>(config: Config<G, F, T>, client: ClientConfig)
    where G: ConnectionIdGenerator, F: Firewall, T: TokenGenerator
    requires
        config.client == Some(client),
    ensures
        config.has_cache_times() <==> {
            &&& client.session_cache_time_to_live matches Some(time) ==> time.nanos
                <= 31_536_000_000_000_000_000
            &&& client.session_cache_time_to_idle matches Some(time) ==> time.nanos
                <= 31_536_000_000_000_000_000
        },
{
}

} // verus!
