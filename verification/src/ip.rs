//! IP addresses and interface addresses (an address with a prefix length).
//!
//! Addresses are held as plain integers in network bit order: the first
//! octet of an IPv4 address is the most significant byte of the `u32`.
//! Reading and printing text is delegated to the `cidr` crate.

use vstd::prelude::*;

verus! {

/// An IPv4 or IPv6 address.
#[derive(Clone, Copy, Debug, PartialEq, Eq, Structural)]
pub enum IpAddress {
    V4(u32),
    V6(u128),
}

/// A host address together with the prefix length of its network.
#[derive(Clone, Copy, Debug, PartialEq, Eq, Structural)]
pub struct IpInet {
    pub address: IpAddress,
    pub network_length: u8,
}

/// The address that the standard library's parser reads from `s`, if `s` is
/// an IPv4 address in dotted decimal notation or an IPv6 address.
pub uninterp spec fn parsed_ip_address(s: Seq<char>) -> Option<IpAddress>;

/// The interface address that `cidr` reads from `s`: an address, optionally
/// followed by `/` and a prefix length.
pub uninterp spec fn parsed_ip_inet(s: Seq<char>) -> Option<IpInet>;

/// The text that `cidr` prints for an interface address: the address, and
/// `/` with the prefix length unless the prefix covers the whole address.
pub uninterp spec fn inet_text(inet: IpInet) -> Seq<char>;

/// The bits of an IPv4 address that lie outside a prefix of `len` bits.
pub open spec fn host_mask_v4(len: u8) -> u32 {
    if len >= 32 {
        0u32
    } else {
        0xffff_ffffu32 >> (len as u32)
    }
}

/// The bits of an IPv6 address that lie outside a prefix of `len` bits.
pub open spec fn host_mask_v6(len: u8) -> u128 {
    if len >= 128 {
        0u128
    } else {
        0xffff_ffff_ffff_ffff_ffff_ffff_ffff_ffffu128 >> (len as u128)
    }
}

impl IpAddress {
    pub open spec fn spec_is_ipv4(&self) -> bool {
        self is V4
    }

    /// Whether this is an IPv4 address.
    #[verifier::when_used_as_spec(spec_is_ipv4)]
    pub fn is_ipv4(&self) -> (r: bool)
        ensures
            r == (self is V4),
    {
        match self {
            IpAddress::V4(_) => true,
            IpAddress::V6(_) => false,
        }
    }

    /// The number of bits of an address of this family.
    pub open spec fn bits(&self) -> u8 {
        if self is V4 {
            32u8
        } else {
            128u8
        }
    }

    /// Reads an address from text; `None` when the text is no address.
    pub fn parse(s: &str) -> (r: Option<IpAddress>)
        ensures
            r == parsed_ip_address(s@),
    {
        parse_ip_address(s)
    }

    /// The usual text form of the address.
    pub fn to_string(&self) -> (r: String)
        ensures
            r@ == inet_text(IpInet::spec_host(*self)),
    {
        IpInet::host(*self).to_string()
    }
}

impl IpInet {
    /// The prefix length does not exceed the width of the address.
    pub open spec fn wf(&self) -> bool {
        self.network_length <= self.address.bits()
    }

    pub open spec fn spec_host(address: IpAddress) -> IpInet {
        IpInet { address, network_length: address.bits() }
    }

    /// The single-host network of `address`.
    pub fn host(address: IpAddress) -> (r: IpInet)
        ensures
            r == Self::spec_host(address),
            r.wf(),
    {
        match address {
            IpAddress::V4(_) => IpInet { address, network_length: 32 },
            IpAddress::V6(_) => IpInet { address, network_length: 128 },
        }
    }

    /// An interface address, or `None` if `network_length` is too long for
    /// the address family.
    pub fn new(address: IpAddress, network_length: u8) -> (r: Option<IpInet>)
        ensures
            r == if network_length <= address.bits() {
                Some(IpInet { address, network_length })
            } else {
                None
            },
    {
        let limit: u8 = match address {
            IpAddress::V4(_) => 32,
            IpAddress::V6(_) => 128,
        };
        if network_length <= limit {
            Some(IpInet { address, network_length })
        } else {
            None
        }
    }

    /// Reads an interface address from text; `None` when the text is none.
    pub fn parse(s: &str) -> (r: Option<IpInet>)
        ensures
            r == parsed_ip_inet(s@),
            r is Some ==> r.unwrap().wf(),
    {
        parse_ip_inet(s)
    }

    /// The host address.
    pub fn address(&self) -> (r: IpAddress)
        ensures
            r == self.address,
    {
        self.address
    }

    /// The prefix length.
    pub fn network_length(&self) -> (r: u8)
        ensures
            r == self.network_length,
    {
        self.network_length
    }

    /// The highest address of the network: every host bit set.
    pub open spec fn spec_last_address(&self) -> IpAddress {
        match self.address {
            IpAddress::V4(a) => IpAddress::V4(a | host_mask_v4(self.network_length)),
            IpAddress::V6(a) => IpAddress::V6(a | host_mask_v6(self.network_length)),
        }
    }

    /// The highest address of the network, which is its broadcast address.
    pub fn last_address(&self) -> (r: IpAddress)
        requires
            self.wf(),
        ensures
            r == self.spec_last_address(),
    {
        inet_last_address(self)
    }

    /// The text form: `address/length`, or the bare address for a host.
    pub fn to_string(&self) -> (r: String)
        requires
            self.wf(),
        ensures
            r@ == inet_text(*self),
    {
        format_inet(self)
    }
}

/// Trusted: `str::parse` into the standard library's IP address type.
/// The result is named, not described; the address bits are taken over
/// in network order.
#[verifier::external_body]
fn parse_ip_address(s: &str) -> (r: Option<IpAddress>)
    ensures
        r == parsed_ip_address(s@),
{
    match s.parse() {
        Ok(a) => match cidr::IpInet::new_host(a) {
            cidr::IpInet::V4(i) => Some(IpAddress::V4(u32::from(i.address()))),
            cidr::IpInet::V6(i) => Some(IpAddress::V6(u128::from(i.address()))),
        },
        Err(_) => None,
    }
}

/// Trusted: `cidr::IpInet`'s `FromStr`. The result is named; `cidr` refuses
/// a prefix length beyond the width of the address, so what comes back is
/// well formed.
#[verifier::external_body]
fn parse_ip_inet(s: &str) -> (r: Option<IpInet>)
    ensures
        r == parsed_ip_inet(s@),
        r is Some ==> r.unwrap().wf(),
{
    match s.parse::<cidr::IpInet>() {
        Ok(cidr::IpInet::V4(i)) => Some(
            IpInet { address: IpAddress::V4(u32::from(i.address())), network_length: i.network_length() },
        ),
        Ok(cidr::IpInet::V6(i)) => Some(
            IpInet { address: IpAddress::V6(u128::from(i.address())), network_length: i.network_length() },
        ),
        Err(_) => None,
    }
}

/// Trusted: `last_address` of `cidr::Ipv4Inet` and `cidr::Ipv6Inet`, which
/// sets every bit behind the prefix.
#[verifier::external_body]
fn inet_last_address(inet: &IpInet) -> (r: IpAddress)
    requires
        inet.wf(),
    ensures
        r == inet.spec_last_address(),
{
    match inet.address {
        IpAddress::V4(a) => IpAddress::V4(
            u32::from(cidr::Ipv4Inet::new(a.into(), inet.network_length).unwrap().last_address()),
        ),
        IpAddress::V6(a) => IpAddress::V6(
            u128::from(cidr::Ipv6Inet::new(a.into(), inet.network_length).unwrap().last_address()),
        ),
    }
}

/// Trusted: `Display` of `cidr::Ipv4Inet` and `cidr::Ipv6Inet`. The text is
/// named, not described.
#[verifier::external_body]
fn format_inet(inet: &IpInet) -> (r: String)
    requires
        inet.wf(),
    ensures
        r@ == inet_text(*inet),
{
    match inet.address {
        IpAddress::V4(a) => cidr::Ipv4Inet::new(a.into(), inet.network_length).unwrap().to_string(),
        IpAddress::V6(a) => cidr::Ipv6Inet::new(a.into(), inet.network_length).unwrap().to_string(),
    }
}

} // verus!
