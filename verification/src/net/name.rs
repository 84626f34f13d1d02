use crate::net::IpAddr;
use crate::util::octets;
use vstd::prelude::*;

verus! {

/// Invalid [ServerName].
#[derive(Debug, Clone, Copy, PartialEq, Eq, Structural)]
pub struct ServerNameError;

impl ServerNameError {
    /// Returns the description of the error.
    pub fn message(&self) -> (r: &'static str)
        ensures
            r@ == "provided server name is neither valid DNS name nor valid IP address"@,
    {
        "provided server name is neither valid DNS name nor valid IP address"
    }
}

/// Server name, which can be a relative or absolute Domain Name,
/// or simply an IPv4/IPv6 address.
#[derive(Debug)]
pub enum ServerName {
    /// A domain name in wire format, relative if it does not end with the root label.
    Domain(Vec<u8>),
    /// An IP address.
    Ip(IpAddr),
}

/// The wire format of the domain name that a text stands for in zone file representation.
pub uninterp spec fn domain_of_text(text: Seq<char>) -> Option<Seq<u8>>;

/// The octets of the IP address that a text stands for.
pub uninterp spec fn ip_of_text(text: Seq<char>) -> Option<Seq<u8>>;

/// The text of a domain name in wire format.
pub uninterp spec fn text_of_domain(octets: Seq<u8>) -> Option<Seq<char>>;

/// The text of an IPv4 address that has the octets.
pub uninterp spec fn text_of_ipv4(octets: Seq<u8>) -> Seq<char>;

/// The text of an IPv6 address that has the groups of sixteen bits.
pub uninterp spec fn text_of_ipv6(groups: Seq<u16>) -> Seq<char>;

/// `domain::base::name::UncertainName::from_str`: the wire format of the name that the text
/// stands for, `None` if it stands for none. The result depends on the text alone.
#[verifier::external_body]
fn parse_domain(text: &str) -> (r: Option<Vec<u8>>)
    ensures
        r is Some <==> domain_of_text(text@) is Some,
        r matches Some(octets) ==> domain_of_text(text@) == Some(octets@),
{
    let name: Option<domain::base::name::UncertainName<Vec<u8>>> = text.parse().ok();
    name.map(|name| AsRef::<Vec<u8>>::as_ref(&name).clone())
}

/// `rustls::pki_types::IpAddr::try_from`: the four or sixteen octets of the IP address that the
/// text stands for, `None` if it stands for none. The result depends on the text alone.
#[verifier::external_body]
fn parse_ip(text: &str) -> (r: Option<Vec<u8>>)
    ensures
        r is Some <==> ip_of_text(text@) is Some,
        r matches Some(octets) ==> ip_of_text(text@) == Some(octets@) && (octets@.len() == 4
            || octets@.len() == 16),
{
    match rustls::pki_types::IpAddr::try_from(text) {
        Ok(rustls::pki_types::IpAddr::V4(ip)) => Some(ip.as_ref().to_vec()),
        Ok(rustls::pki_types::IpAddr::V6(ip)) => Some(ip.as_ref().to_vec()),
        Err(_) => None,
    }
}

/// `domain::base::name::UncertainName::from_octets` and its `Display`: the text of a name in wire
/// format, `None` if the octets are no such name. The result depends on the octets alone.
#[verifier::external_body]
fn format_domain(octets: &Vec<u8>) -> (r: Option<String>)
    ensures
        r is Some <==> text_of_domain(octets@) is Some,
        r matches Some(text) ==> text_of_domain(octets@) == Some(text@),
{
    let name = domain::base::name::UncertainName::from_octets(octets.as_slice()).ok();
    name.map(|name| name.to_string())
}

/// `rustls::pki_types::ServerName::to_str` of an IPv4 address: its text, which depends on the
/// octets alone.
#[verifier::external_body]
fn format_ipv4(octets: [u8; 4]) -> (r: String)
    ensures
        r@ == text_of_ipv4(octets@),
{
    let ip = rustls::pki_types::IpAddr::V4(octets.into());
    rustls::pki_types::ServerName::from(ip).to_str().into_owned()
}

/// `rustls::pki_types::ServerName::to_str` of an IPv6 address: its text, which depends on the
/// groups alone.
#[verifier::external_body]
fn format_ipv6(groups: [u16; 8]) -> (r: String)
    ensures
        r@ == text_of_ipv6(groups@),
{
    let ip = rustls::pki_types::IpAddr::V6(groups.into());
    rustls::pki_types::ServerName::from(ip).to_str().into_owned()
}

/// The octets of an IPv4 address.
pub open spec fn octets_of(ip: u32) -> Seq<u8> {
    seq![
        (ip / 0x100_0000) as u8,
        (ip / 0x1_0000 % 0x100) as u8,
        (ip / 0x100 % 0x100) as u8,
        (ip % 0x100) as u8,
    ]
}

/// The groups of sixteen bits of an IPv6 address.
pub open spec fn groups_of(ip: u128) -> Seq<u16> {
    seq![
        (ip / 0x1_0000_0000_0000_0000_0000_0000_0000) as u16,
        (ip / 0x1_0000_0000_0000_0000_0000_0000 % 0x1_0000) as u16,
        (ip / 0x1_0000_0000_0000_0000_0000 % 0x1_0000) as u16,
        (ip / 0x1_0000_0000_0000_0000 % 0x1_0000) as u16,
        (ip / 0x1_0000_0000_0000 % 0x1_0000) as u16,
        (ip / 0x1_0000_0000 % 0x1_0000) as u16,
        (ip / 0x1_0000 % 0x1_0000) as u16,
        (ip % 0x1_0000) as u16,
    ]
}

/// What a server name is, given what its text stands for.
pub open spec fn name_of(ip: Option<Seq<u8>>, domain: Option<Seq<u8>>, r: Result<
    ServerName,
    ServerNameError,
>) -> bool {
    match r {
        Ok(ServerName::Ip(IpAddr::V4(n))) => ip matches Some(octets) && octets.len() == 4 && n
            == octets::be_value(octets),
        Ok(ServerName::Ip(IpAddr::V6(n))) => ip matches Some(octets) && octets.len() == 16 && n
            == octets::be_value(octets),
        Ok(ServerName::Domain(name)) => ip is None && domain == Some(name@),
        Err(_) => ip is None && domain is None,
    }
}

impl ServerName {
    /// Returns the server name, given the octets of the IP address that its text stands for,
    /// and the wire format of the domain name.
    pub fn from_parts(ip: Option<Vec<u8>>, domain: Option<Vec<u8>>) -> (r: Result<
        Self,
        ServerNameError,
    >)
        requires
            ip matches Some(octets) ==> octets@.len() == 4 || octets@.len() == 16,
        ensures
            name_of(
                match ip {
                    Some(octets) => Some(octets@),
                    None => None,
                },
                match domain {
                    Some(octets) => Some(octets@),
                    None => None,
                },
                r,
            ),
    {
        if let Some(octets) = ip {
            match IpAddr::from_octets(octets.as_slice()) {
                Some(ip) => Ok(ServerName::Ip(ip)),
                None => Err(ServerNameError),
            }
        } else if let Some(octets) = domain {
            Ok(ServerName::Domain(octets))
        } else {
            Err(ServerNameError)
        }
    }

    /// Returns the server name that a text stands for: an IP address or a domain name.
    pub fn try_from(value: &str) -> (r: Result<Self, ServerNameError>)
        ensures
            name_of(ip_of_text(value@), domain_of_text(value@), r),
    {
        Self::from_parts(parse_ip(value), parse_domain(value))
    }

    /// The text of the name. It is empty for an empty domain name,
    /// and for octets that are no domain name.
    pub open spec fn text(&self) -> Seq<char> {
        match *self {
            ServerName::Domain(octets) => match text_of_domain(octets@) {
                Some(text) => text,
                None => Seq::empty(),
            },
            ServerName::Ip(IpAddr::V4(ip)) => text_of_ipv4(octets_of(ip)),
            ServerName::Ip(IpAddr::V6(ip)) => text_of_ipv6(groups_of(ip)),
        }
    }

    /// Returns the text of the name.
    pub fn to_text(&self) -> (r: String)
        ensures
            r@ == self.text(),
    {
        match self {
            ServerName::Domain(octets) => match format_domain(octets) {
                Some(text) => text,
                None => {
                    let text = String::new();
                    assert(text@ =~= Seq::<char>::empty());
                    text
                },
            },
            ServerName::Ip(IpAddr::V4(ip)) => {
                let n: u32 = *ip;
                let octets: [u8; 4] = [
                    (n / 0x100_0000) as u8,
                    (n / 0x1_0000 % 0x100) as u8,
                    (n / 0x100 % 0x100) as u8,
                    (n % 0x100) as u8,
                ];
                assert(octets@ =~= octets_of(n));
                format_ipv4(octets)
            },
            ServerName::Ip(IpAddr::V6(ip)) => {
                let n: u128 = *ip;
                let groups: [u16; 8] = [
                    (n / 0x1_0000_0000_0000_0000_0000_0000_0000) as u16,
                    (n / 0x1_0000_0000_0000_0000_0000_0000 % 0x1_0000) as u16,
                    (n / 0x1_0000_0000_0000_0000_0000 % 0x1_0000) as u16,
                    (n / 0x1_0000_0000_0000_0000 % 0x1_0000) as u16,
                    (n / 0x1_0000_0000_0000 % 0x1_0000) as u16,
                    (n / 0x1_0000_0000 % 0x1_0000) as u16,
                    (n / 0x1_0000 % 0x1_0000) as u16,
                    (n % 0x1_0000) as u16,
                ];
                assert(groups@ =~= groups_of(n));
                format_ipv6(groups)
            },
        }
    }
}

/// The octets of an address are its digits, the most significant one first.
pub proof fn law_octets_are_digits(ip: u32)
    ensures
        octets_of(ip).len() == 4,
        ip == octets_of(ip)[0] * 0x100_0000 + octets_of(ip)[1] * 0x1_0000 + octets_of(ip)[2] * 0x100
            + octets_of(ip)[3],
{
}

/// The groups of an address are its digits, the most significant one first.
pub proof fn law_groups_are_digits(ip: u128)
    ensures
        groups_of(ip).len() == 8,
        ip == groups_value(groups_of(ip)),
{
    let v = ip as int;
    lemma_group(v, 1);
    lemma_group(v, 0x1_0000);
    lemma_group(v, 0x1_0000_0000);
    lemma_group(v, 0x1_0000_0000_0000);
    lemma_group(v, 0x1_0000_0000_0000_0000);
    lemma_group(v, 0x1_0000_0000_0000_0000_0000);
    lemma_group(v, 0x1_0000_0000_0000_0000_0000_0000);
    assert(v / 1 == v);
    assert(v / 0x1_0000_0000_0000_0000_0000_0000_0000 < 0x1_0000);
    reveal_with_fuel(groups_value, 9);
    let g = groups_of(ip);
    assert(g.drop_last().len() == 7);
}

/// The number that has the groups as its digits, the most significant one first.
pub open spec fn groups_value(groups: Seq<u16>) -> int
    decreases groups.len(),
{
    if groups.len() == 0 {
        0
    } else {
        groups_value(groups.drop_last()) * 0x1_0000 + groups.last()
    }
}

proof fn lemma_group(v: int, d: int)
    requires
        v >= 0,
        d > 0,
    ensures
        v / d == 0x1_0000 * (v / (d * 0x1_0000)) + (v / d) % 0x1_0000,
{
    vstd::arithmetic::div_mod::lemma_div_denominator(v, d, 0x1_0000);
    vstd::arithmetic::div_mod::lemma_fundamental_div_mod(v / d, 0x1_0000);
}

/// A name is an IP address if its text stands for one, and else a domain name.
/// It is refused only if its text stands for neither.
pub proof fn law_names_are_addresses_or_domains(
    ip: Option<Seq<u8>>,
    domain: Option<Seq<u8>>,
    r: Result<ServerName, ServerNameError>,
)
    requires
        name_of(ip, domain, r),
    ensures
        r is Err <==> ip is None && domain is None,
        ip is Some <==> (r matches Ok(ServerName::Ip(_))),
        r matches Ok(ServerName::Domain(name)) ==> domain == Some(name@),
        r matches Ok(ServerName::Ip(IpAddr::V4(n))) ==> (ip matches Some(octets) && octets.len() == 4
            && octets::be_value(octets) == n),
        r matches Ok(ServerName::Ip(IpAddr::V6(n))) ==> (ip matches Some(octets) && octets.len()
            == 16 && octets::be_value(octets) == n),
{
}

} // verus!
