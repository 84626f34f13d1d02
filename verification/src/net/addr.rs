use crate::util::octets;
use vstd::prelude::*;

verus! {

/// An IP address.
#[derive(Debug, Clone, Copy, PartialEq, Eq, Hash, Structural)]
pub enum IpAddr {
    /// An IPv4 address: the number that its four octets stand for.
    V4(u32),
    /// An IPv6 address: the number that its sixteen octets stand for.
    V6(u128),
}

/// An address of a socket.
#[allow(inconsistent_fields)]
#[derive(Debug, Clone, Copy, PartialEq, Eq, Hash, Structural)]
pub enum SocketAddr {
    /// An IPv4 socket address.
    V4 {
        /// The number that the four octets of the IP address stand for.
        ip: u32,
        /// Port.
        port: u16,
    },
    /// An IPv6 socket address.
    V6 {
        /// The number that the sixteen octets of the IP address stand for.
        ip: u128,
        /// Port.
        port: u16,
        /// Flow information.
        flowinfo: u32,
        /// Scope ID.
        scope_id: u32,
    },
}

impl IpAddr {
    /// The octets, in network order.
    pub open spec fn octets(self) -> Seq<u8> {
        match self {
            IpAddr::V4(ip) => octets::be_bytes(ip as nat, 4),
            IpAddr::V6(ip) => octets::be_bytes(ip as nat, 16),
        }
    }

    /// All octets are zero.
    pub open spec fn unspecified(self) -> bool {
        match self {
            IpAddr::V4(ip) => ip == 0,
            IpAddr::V6(ip) => ip == 0,
        }
    }

    /// Returns `true` if all octets of the address are zero.
    pub fn is_unspecified(&self) -> (r: bool)
        ensures
            r == self.unspecified(),
    {
        match *self {
            IpAddr::V4(ip) => ip == 0,
            IpAddr::V6(ip) => ip == 0,
        }
    }

    /// Returns `true` if this is an IPv4 address.
    pub fn is_ipv4(&self) -> (r: bool)
        ensures
            r == (*self is V4),
    {
        matches!(*self, IpAddr::V4(_))
    }

    /// Appends the octets, in network order.
    pub fn write_octets(&self, out: &mut Vec<u8>)
        ensures
            final(out)@ == old(out)@ + self.octets(),
    {
        match *self {
            IpAddr::V4(ip) => octets::push_be(out, ip as u128, 4),
            IpAddr::V6(ip) => octets::push_be(out, ip, 16),
        }
    }

    /// The address of four or sixteen octets, `None` for another number of them.
    pub fn from_octets(octets: &[u8]) -> (r: Option<IpAddr>)
        ensures
            r is Some <==> octets@.len() == 4 || octets@.len() == 16,
            r matches Some(ip) ==> match ip {
                IpAddr::V4(n) => octets@.len() == 4 && n == octets::be_value(octets@),
                IpAddr::V6(n) => octets@.len() == 16 && n == octets::be_value(octets@),
            },
    {
        if octets.len() == 4 {
            let n: u128 = octets::read_be(octets);
            proof {
                octets::lemma_be_value_u32(octets@);
            }
            Some(IpAddr::V4(n as u32))
        } else if octets.len() == 16 {
            Some(IpAddr::V6(octets::read_be(octets)))
        } else {
            None
        }
    }
}

impl SocketAddr {
    /// The address without flow information.
    pub open spec fn without_flow(self) -> SocketAddr {
        match self {
            SocketAddr::V4 { ip, port } => SocketAddr::V4 { ip, port },
            SocketAddr::V6 { ip, port, scope_id, .. } => SocketAddr::V6 {
                ip,
                port,
                flowinfo: 0,
                scope_id,
            },
        }
    }

    /// The IP address.
    pub open spec fn spec_ip(self) -> IpAddr {
        match self {
            SocketAddr::V4 { ip, .. } => IpAddr::V4(ip),
            SocketAddr::V6 { ip, .. } => IpAddr::V6(ip),
        }
    }

    /// The port.
    pub open spec fn spec_port(self) -> u16 {
        match self {
            SocketAddr::V4 { port, .. } => port,
            SocketAddr::V6 { port, .. } => port,
        }
    }

    /// The IP address is unspecified, or the port is zero.
    pub open spec fn unspecified(self) -> bool {
        self.spec_ip().unspecified() || self.spec_port() == 0
    }

    /// The address `ip:port`.
    pub open spec fn of(ip: IpAddr, port: u16) -> SocketAddr {
        match ip {
            IpAddr::V4(ip) => SocketAddr::V4 { ip, port },
            IpAddr::V6(ip) => SocketAddr::V6 { ip, port, flowinfo: 0, scope_id: 0 },
        }
    }

    /// Creates the address `ip:port`.
    pub fn new(ip: IpAddr, port: u16) -> (r: SocketAddr)
        ensures
            r == SocketAddr::of(ip, port),
    {
        match ip {
            IpAddr::V4(ip) => SocketAddr::V4 { ip, port },
            IpAddr::V6(ip) => SocketAddr::V6 { ip, port, flowinfo: 0, scope_id: 0 },
        }
    }

    /// Returns the IP address.
    pub fn ip(&self) -> (r: IpAddr)
        ensures
            r == self.spec_ip(),
    {
        match *self {
            SocketAddr::V4 { ip, .. } => IpAddr::V4(ip),
            SocketAddr::V6 { ip, .. } => IpAddr::V6(ip),
        }
    }

    /// Returns the port.
    pub fn port(&self) -> (r: u16)
        ensures
            r == self.spec_port(),
    {
        match *self {
            SocketAddr::V4 { port, .. } => port,
            SocketAddr::V6 { port, .. } => port,
        }
    }

    /// Returns `true` if the IP address is unspecified, or the port is zero.
    pub fn is_unspecified(&self) -> (r: bool)
        ensures
            r == self.unspecified(),
    {
        self.ip().is_unspecified() || self.port() == 0
    }
}

/// Both addresses belong to one address family.
pub open spec fn same_family(a: IpAddr, b: IpAddr) -> bool {
    (a is V4) == (b is V4)
}

/// The octets of an address are those of no other address of its family.
pub proof fn law_octets_tell_addresses_apart(a: IpAddr, b: IpAddr)
    requires
        a.octets() == b.octets(),
    ensures
        a == b,
{
    match a {
        IpAddr::V4(n) => {
            octets::lemma_widths(n, 0, 0);
            octets::law_be_round_trip(n as nat, 4);
        },
        IpAddr::V6(n) => {
            octets::lemma_widths(0, 0, n);
            octets::law_be_round_trip(n as nat, 16);
        },
    }
    match b {
        IpAddr::V4(n) => {
            octets::lemma_widths(n, 0, 0);
            octets::law_be_round_trip(n as nat, 4);
        },
        IpAddr::V6(n) => {
            octets::lemma_widths(0, 0, n);
            octets::law_be_round_trip(n as nat, 16);
        },
    }
}

/// An address is made of its IP address and its port, and is unspecified without either.
pub proof fn law_addresses_have_their_parts(addr: SocketAddr, ip: IpAddr, port: u16)
    ensures
        SocketAddr::of(ip, port).spec_ip() == ip,
        SocketAddr::of(ip, port).spec_port() == port,
        SocketAddr::of(ip, port).without_flow() == SocketAddr::of(ip, port),
        addr is V4 ==> SocketAddr::of(addr.spec_ip(), addr.spec_port()) == addr,
        addr.without_flow().spec_ip() == addr.spec_ip(),
        addr.without_flow().spec_port() == addr.spec_port(),
        addr is V4 ==> addr.without_flow() == addr,
        addr matches SocketAddr::V6 { ip, port, scope_id, .. } ==> addr.without_flow() == (
        SocketAddr::V6 { ip, port, flowinfo: 0, scope_id }),
        ip.unspecified() <==> ip == IpAddr::V4(0) || ip == IpAddr::V6(0),
        addr.unspecified() <==> addr.spec_port() == 0 || addr.spec_ip() == IpAddr::V4(0)
            || addr.spec_ip() == IpAddr::V6(0),
{
}

/// Two addresses belong to one family if and only if they have the same number of octets,
/// which is four or sixteen.
pub proof fn law_families_have_their_lengths(a: IpAddr, b: IpAddr)
    ensures
        same_family(a, b) <==> a.octets().len() == b.octets().len(),
        a is V4 <==> a.octets().len() == 4,
        a is V6 <==> a.octets().len() == 16,
{
    match a {
        IpAddr::V4(n) => {
            octets::lemma_be_bytes_len(n as nat, 4);
        },
        IpAddr::V6(n) => {
            octets::lemma_be_bytes_len(n as nat, 16);
        },
    }
    match b {
        IpAddr::V4(n) => {
            octets::lemma_be_bytes_len(n as nat, 4);
        },
        IpAddr::V6(n) => {
            octets::lemma_be_bytes_len(n as nat, 16);
        },
    }
}

} // verus!
