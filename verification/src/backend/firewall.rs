use crate::net::SocketAddr;
use vstd::prelude::*;

verus! {

/// A simple QUIC backend level firewall.
///
/// It **must not** replace any existing firewall.
/// It exists only to make certain connections decisions
/// based on local observations.
pub trait Firewall {
    /// [`allow_unverified()`][Firewall::allow_unverified] may return `result`.
    open spec fn may_allow(
        &self,
        source_addr: SocketAddr,
        total_server_connections: usize,
        total_unverified_connections: usize,
        result: bool,
    ) -> bool {
        true
    }

    /// Returns `true` if a QUIC backend may accept a new connection,
    /// without verifying peer's real identity using `Retry` packet.
    ///
    /// The [anti-amplification limit](https://datatracker.ietf.org/doc/html/rfc9000#section-8-2)
    /// will be applied for this connection.
    ///
    /// This method is invoked only for `Initial` packets with an absent or invalid
    /// token.
    fn allow_unverified(
        &self,
        source_addr: SocketAddr,
        total_server_connections: usize,
        total_unverified_connections: usize,
    ) -> (r: bool)
        ensures
            self.may_allow(source_addr, total_server_connections, total_unverified_connections, r),
    ;
}

/// A [Firewall] that allows no unverified connection.
#[derive(Debug, Clone, Copy)]
pub struct StrictFirewall;

impl Firewall for StrictFirewall {
    open spec fn may_allow(
        &self,
        _source_addr: SocketAddr,
        _total_server_connections: usize,
        _total_unverified_connections: usize,
        result: bool,
    ) -> bool {
        !result
    }

    fn allow_unverified(
        &self,
        _source_addr: SocketAddr,
        _total_server_connections: usize,
        _total_unverified_connections: usize,
    ) -> (r: bool) {
        false
    }
}

} // verus!
