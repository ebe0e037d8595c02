//! Interface records of the legacy configuration and their translation
//! into connections.

use vstd::prelude::*;
use crate::bond::Bond;
use crate::bridge::Bridge;
use crate::infiniband::{Infiniband, InfinibandChild};
use crate::ip::{parsed_ip_address, parsed_ip_inet, IpAddress, IpInet};
use crate::model::{
    BridgePortConfig, Dhcp4Settings, Dhcp4SettingsView, Dhcp6Settings, Dhcp6SettingsView,
    DhcpClientId, DhcpDuid, DhcpIaid, IpConfig, IpConfigView, IpRoute, Ipv4Method, Ipv6Method,
    OvsBridgePortConfig, PortConfig,
};
use crate::netconfig_dhcp::{HostnameOption, NetconfigDhcp};
use crate::ovs::OvsBridge;
use crate::report::{
    any_warning, has_warnings, result_view, Failure, FailureView, Warning, WarningView,
};
use crate::text::str_eq;
use crate::tuntap::{Tap, Tun};
use crate::vlan::Vlan;
use crate::wireless::Wireless;

verus! {

/// One interface of the legacy configuration. At most one of the
/// technology fields (`dummy`, `ethernet`, `bond`, ...) is expected to be
/// set; where several are, the first in the order of translation counts.
#[derive(Clone, Debug, PartialEq, Eq, Default)]
pub struct Interface {
    pub name: String,
    pub firewall: Firewall,
    pub link: Link,
    pub ipv4: Ipv4,
    pub ipv4_static: Option<Ipv4Static>,
    pub ipv4_dhcp: Option<Ipv4Dhcp>,
    pub ipv6: Ipv6,
    pub ipv6_static: Option<Ipv6Static>,
    pub ipv6_dhcp: Option<Ipv6Dhcp>,
    pub ipv6_auto: Option<Ipv6Auto>,
    pub dummy: Option<Dummy>,
    pub ethernet: Option<Ethernet>,
    pub bond: Option<Bond>,
    pub wireless: Option<Wireless>,
    pub origin: String,
    pub vlan: Option<Vlan>,
    pub bridge: Option<Bridge>,
    pub infiniband: Option<Infiniband>,
    pub infiniband_child: Option<InfinibandChild>,
    pub tun: Option<Tun>,
    pub tap: Option<Tap>,
    pub ovs_bridge: Option<OvsBridge>,
    pub control: Control,
}

#[derive(Clone, Debug, PartialEq, Eq, Default)]
pub struct Firewall {
    pub zone: Option<String>,
}

/// The place of an interface below another: the interface of its parent
/// and, where it is a port, what kind of port.
#[derive(Clone, Debug, PartialEq, Eq, Default)]
pub struct Link {
    pub master: Option<String>,
    pub mtu: Option<u32>,
    pub port: Option<LinkPort>,
}

#[derive(Clone, Copy, Debug, PartialEq, Eq, Structural)]
pub struct LinkPort {
    pub port_type: LinkPortType,
    pub priority: Option<u32>,
    pub path_cost: Option<u32>,
}

#[derive(Clone, Copy, Debug, PartialEq, Eq, Structural)]
pub enum LinkPortType {
    Bridge,
    Bond,
    OvsBridge,
}

/// The default of the switches that are on unless turned off.
pub fn default_true() -> (r: bool)
    ensures
        r,
{
    true
}

#[derive(Clone, Copy, Debug, PartialEq, Eq, Structural)]
pub struct Ipv4 {
    pub enabled: bool,
    pub arp_verify: bool,
}

impl Default for Ipv4 {
    fn default() -> (r: Self)
        ensures
            r == (Ipv4 { enabled: true, arp_verify: true }),
    {
        Ipv4 { enabled: true, arp_verify: true }
    }
}

#[derive(Clone, Copy, Debug, PartialEq, Eq, Structural)]
pub struct Ipv6 {
    pub enabled: bool,
    pub privacy: Option<Ip6Privacy>,
    pub accept_redirects: bool,
}

#[derive(Clone, Copy, Debug, PartialEq, Eq, Structural, Default)]
pub enum Ip6Privacy {
    Disable,
    #[default]
    PreferPublic,
    PreferTemporary,
}

impl Ip6Privacy {
    pub open spec fn spec_value(&self) -> i32 {
        match self {
            Ip6Privacy::Disable => 0i32,
            Ip6Privacy::PreferPublic => 1i32,
            Ip6Privacy::PreferTemporary => 2i32,
        }
    }

    /// The number that stands for the setting: 0, 1 or 2.
    pub fn value(&self) -> (r: i32)
        ensures
            r == self.spec_value(),
    {
        match self {
            Ip6Privacy::Disable => 0,
            Ip6Privacy::PreferPublic => 1,
            Ip6Privacy::PreferTemporary => 2,
        }
    }
}

impl Default for Ipv6 {
    fn default() -> (r: Self)
        ensures
            r == (Ipv6 { enabled: true, privacy: None, accept_redirects: false }),
    {
        Ipv6 { enabled: true, privacy: None, accept_redirects: false }
    }
}

#[derive(Clone, Debug, PartialEq, Eq)]
pub struct Ipv4Static {
    pub addresses: Option<Vec<Address>>,
    pub routes: Option<Vec<Route>>,
}

#[derive(Clone, Debug, PartialEq, Eq)]
pub struct Ipv4Dhcp {
    pub enabled: bool,
    pub flags: String,
    pub update: String,
    pub hostname: Option<String>,
    pub defer_timeout: u32,
    pub recover_lease: bool,
    pub release_lease: bool,
}

/// The default of the DHCP `flags`.
pub fn default_flags() -> (r: String)
    ensures
        r@ == "group"@,
{
    "group".to_owned()
}

/// The default of what a DHCPv4 lease may update.
pub fn default_v4_update() -> (r: String)
    ensures
        r@ == "default-route,dns,nis,ntp,nds,mtu,tz,boot"@,
{
    "default-route,dns,nis,ntp,nds,mtu,tz,boot".to_owned()
}

/// The default of the DHCP defer timeout, in seconds.
pub fn default_defer_timeout() -> (r: u32)
    ensures
        r == 15,
{
    15
}

impl Default for Ipv4Dhcp {
    fn default() -> (r: Self)
        ensures
            r.enabled,
            r.flags@ == "group"@,
            r.update@ == "default-route,dns,nis,ntp,nds,mtu,tz,boot"@,
            r.hostname is None,
            r.defer_timeout == 15,
            r.recover_lease,
            !r.release_lease,
    {
        Ipv4Dhcp {
            enabled: true,
            flags: default_flags(),
            update: default_v4_update(),
            hostname: None,
            defer_timeout: default_defer_timeout(),
            recover_lease: true,
            release_lease: false,
        }
    }
}

#[derive(Clone, Debug, PartialEq, Eq)]
pub struct Ipv6Static {
    pub addresses: Option<Vec<Address>>,
    pub routes: Option<Vec<Route>>,
}

#[derive(Clone, Debug, PartialEq, Eq, Default)]
pub struct Address {
    pub local: String,
    pub broadcast: Option<String>,
}

#[derive(Clone, Debug, PartialEq, Eq)]
pub struct Ipv6Dhcp {
    pub enabled: bool,
    pub mode: String,
    pub flags: String,
    pub update: String,
    pub rapid_commit: bool,
    pub hostname: Option<String>,
    pub defer_timeout: u32,
    pub recover_lease: bool,
    pub refresh_lease: bool,
    pub release_lease: bool,
}

/// The default of what a DHCPv6 lease may update.
pub fn default_v6_dhcp_update() -> (r: String)
    ensures
        r@ == "dns,nis,ntp,tz,boot"@,
{
    "dns,nis,ntp,tz,boot".to_owned()
}

impl Default for Ipv6Dhcp {
    fn default() -> (r: Self)
        ensures
            r.enabled,
            r.mode@ == "auto"@,
            r.flags@ == "group"@,
            r.update@ == "dns,nis,ntp,tz,boot"@,
            r.rapid_commit,
            r.hostname is None,
            r.defer_timeout == 15,
            r.recover_lease,
            !r.refresh_lease,
            !r.release_lease,
    {
        Ipv6Dhcp {
            enabled: true,
            mode: "auto".to_owned(),
            flags: default_flags(),
            update: default_v6_dhcp_update(),
            rapid_commit: true,
            hostname: None,
            defer_timeout: default_defer_timeout(),
            recover_lease: true,
            refresh_lease: false,
            release_lease: false,
        }
    }
}

#[derive(Clone, Debug, PartialEq, Eq)]
pub struct Ipv6Auto {
    pub enabled: bool,
    pub update: String,
}

/// The default of what IPv6 autoconfiguration may update.
pub fn default_v6_auto_update() -> (r: String)
    ensures
        r@ == "dns"@,
{
    "dns".to_owned()
}

impl Default for Ipv6Auto {
    fn default() -> (r: Self)
        ensures
            r.enabled,
            r.update@ == "dns"@,
    {
        Ipv6Auto { enabled: true, update: default_v6_auto_update() }
    }
}

#[derive(Clone, Debug, PartialEq, Eq, Default)]
pub struct Dummy {
    pub address: Option<String>,
}

#[derive(Clone, Debug, PartialEq, Eq, Default)]
pub struct Route {
    pub destination: Option<String>,
    pub nexthops: Option<Vec<Nexthop>>,
    pub priority: Option<u32>,
}

#[derive(Clone, Debug, PartialEq, Eq, Default)]
pub struct Ethernet {
    pub address: Option<String>,
}

#[derive(Clone, Debug, PartialEq, Eq)]
pub struct Nexthop {
    pub gateway: String,
}

#[derive(Clone, Debug, PartialEq, Eq, Default)]
pub struct Control {
    pub mode: ControlMode,
    pub boot_stage: Option<String>,
    pub persistent: Option<String>,
}

/// When an interface is brought up.
#[derive(Clone, Copy, Debug, PartialEq, Eq, Structural, Default)]
pub enum ControlMode {
    #[default]
    Manual,
    Off,
    Boot,
    Hotplug,
}

impl ControlMode {
    pub open spec fn spec_autoconnect(&self) -> bool {
        self is Boot || self is Hotplug
    }

    /// Whether the connection connects by itself: at boot and on hotplug.
    #[verifier::when_used_as_spec(spec_autoconnect)]
    pub fn autoconnect(&self) -> (r: bool)
        ensures
            r == self.spec_autoconnect(),
    {
        match self {
            ControlMode::Manual => false,
            ControlMode::Off => false,
            ControlMode::Boot => true,
            ControlMode::Hotplug => true,
        }
    }
}

impl LinkPort {
    pub open spec fn spec_port_config(&self) -> PortConfig {
        match self.port_type {
            LinkPortType::Bridge => PortConfig::Bridge(
                BridgePortConfig { priority: self.priority, path_cost: self.path_cost },
            ),
            LinkPortType::Bond => PortConfig::Unset,
            LinkPortType::OvsBridge => PortConfig::OvsBridge(OvsBridgePortConfig {  }),
        }
    }

    /// How the port behaves below its controller: a bridge port carries its
    /// priority and path cost, a bond port nothing.
    pub fn to_port_config(&self) -> (r: PortConfig)
        ensures
            r == self.spec_port_config(),
    {
        match self.port_type {
            LinkPortType::Bridge => PortConfig::Bridge(
                BridgePortConfig { priority: self.priority, path_cost: self.path_cost },
            ),
            LinkPortType::Bond => PortConfig::Unset,
            LinkPortType::OvsBridge => PortConfig::OvsBridge(OvsBridgePortConfig {  }),
        }
    }
}

/// Why a route record gives no route.
#[derive(Clone, Copy, Debug, PartialEq, Eq, Structural)]
pub enum RouteError {
    /// More than one next hop; the target model has no such routes.
    Multipath,
    /// The gateway is no IP address.
    InvalidGateway,
    /// The destination is no network.
    InvalidDestination,
    /// Neither a destination nor a next hop.
    EmptyRoute,
}

impl RouteError {
    /// The failure that the error stands for where it is one: a multipath
    /// route is left out with a warning, every other error is a failure.
    pub open spec fn spec_failure(&self) -> Option<FailureView> {
        match self {
            RouteError::Multipath => None,
            RouteError::InvalidGateway => Some(FailureView::InvalidGateway),
            RouteError::InvalidDestination => Some(FailureView::InvalidDestination),
            RouteError::EmptyRoute => Some(FailureView::EmptyRoute),
        }
    }

    /// The failure that the error stands for, `None` for a multipath route.
    pub fn failure(&self) -> (r: Option<Failure>)
        ensures
            r.deep_view() == self.spec_failure(),
    {
        match self {
            RouteError::Multipath => None,
            RouteError::InvalidGateway => Some(Failure::InvalidGateway),
            RouteError::InvalidDestination => Some(Failure::InvalidDestination),
            RouteError::EmptyRoute => Some(Failure::EmptyRoute),
        }
    }
}

/// The default route of the family of `next_hop`: `0.0.0.0/0` or `::/0`.
pub open spec fn default_destination(next_hop: IpAddress) -> IpInet {
    if next_hop is V4 {
        IpInet { address: IpAddress::V4(0), network_length: 0 }
    } else {
        IpInet { address: IpAddress::V6(0), network_length: 0 }
    }
}

impl Route {
    /// The next hops of the record; none where the list is missing.
    pub open spec fn spec_hops(&self) -> Seq<Nexthop> {
        match self.nexthops {
            Some(v) => v@,
            None => Seq::empty(),
        }
    }

    /// The gateway of the record as it is read: that of its first next hop.
    pub open spec fn spec_gateway(&self) -> Option<IpAddress> {
        if self.spec_hops().len() >= 1 {
            parsed_ip_address(self.spec_hops()[0].gateway@)
        } else {
            None
        }
    }

    /// The destination of the record as it is read, where it has one.
    pub open spec fn spec_destination(&self) -> Option<Option<IpInet>> {
        match self.destination {
            Some(d) => Some(parsed_ip_inet(d@)),
            None => None,
        }
    }

    /// The route that the record stands for: the route of its number of
    /// next hops, its gateway and destination as they are read, and its
    /// priority.
    pub open spec fn spec_ip_route(&self) -> Result<IpRoute, RouteError> {
        spec_route_of(
            self.spec_hops().len(),
            self.spec_gateway(),
            self.spec_destination(),
            self.priority,
        )
    }

    /// Translates the record into a route.
    pub fn to_ip_route(&self) -> (r: Result<IpRoute, RouteError>)
        ensures
            r == self.spec_ip_route(),
            r is Ok ==> r.unwrap().destination.wf(),
    {
        let (hops, gateway) = match &self.nexthops {
            Some(hops) => {
                if hops.len() >= 1 {
                    (hops.len(), IpAddress::parse(hops[0].gateway.as_str()))
                } else {
                    (0, None)
                }
            },
            None => (0, None),
        };
        let destination = match &self.destination {
            Some(d) => Some(IpInet::parse(d.as_str())),
            None => None,
        };
        route_of(hops, gateway, destination, self.priority)
    }
}

/// The route of a record with `hops` next hops, whose texts are read
/// already: `gateway` is what the gateway of the first next hop reads as,
/// `destination` what the destination reads as where there is one.
///
/// More than one next hop gives no route. The gateway of the one next hop
/// has to be an IP address. With a destination, that is the destination;
/// without one, the route is the default route of the family of the next
/// hop, and a record without either gives none. The priority becomes the
/// metric.
pub open spec fn spec_route_of(
    hops: nat,
    gateway: Option<IpAddress>,
    destination: Option<Option<IpInet>>,
    priority: Option<u32>,
) -> Result<IpRoute, RouteError> {
    if hops > 1 {
        Err(RouteError::Multipath)
    } else if hops == 1 && gateway is None {
        Err(RouteError::InvalidGateway)
    } else {
        let next_hop = if hops == 1 {
            gateway
        } else {
            None
        };
        match destination {
            Some(Some(d)) => Ok(IpRoute { destination: d, next_hop, metric: priority }),
            Some(None) => Err(RouteError::InvalidDestination),
            None => match next_hop {
                Some(hop) => Ok(
                    IpRoute { destination: default_destination(hop), next_hop, metric: priority },
                ),
                None => Err(RouteError::EmptyRoute),
            },
        }
    }
}

/// The route of a record with `hops` next hops, whose gateway and
/// destination are read already.
pub fn route_of(
    hops: usize,
    gateway: Option<IpAddress>,
    destination: Option<Option<IpInet>>,
    priority: Option<u32>,
) -> (r: Result<IpRoute, RouteError>)
    ensures
        r == spec_route_of(hops as nat, gateway, destination, priority),
        r is Ok && (destination matches Some(Some(d)) ==> d.wf()) ==> r.unwrap().destination.wf(),
{
    if hops > 1 {
        return Err(RouteError::Multipath);
    }
    let next_hop = if hops == 1 {
        match gateway {
            Some(a) => Some(a),
            None => {
                return Err(RouteError::InvalidGateway);
            },
        }
    } else {
        None
    };
    let destination = match destination {
        Some(Some(d)) => d,
        Some(None) => {
            return Err(RouteError::InvalidDestination);
        },
        None => match next_hop {
            Some(hop) => {
                if hop.is_ipv4() {
                    IpInet { address: IpAddress::V4(0), network_length: 0 }
                } else {
                    IpInet { address: IpAddress::V6(0), network_length: 0 }
                }
            },
            None => {
                return Err(RouteError::EmptyRoute);
            },
        },
    };
    Ok(IpRoute { destination, next_hop, metric: priority })
}

/// What a static address gives whose texts are read already: `inet` is
/// what the address `local` reads as, `broadcast_address` what the
/// broadcast address reads as where there is one.
///
/// It gives the interface address, and a warning where the broadcast
/// address is checked and is not the last address of the network. It fails
/// where the address is none, and where the broadcast address is checked
/// and is none; the failure carries the text.
pub open spec fn spec_address_of(
    name: Seq<char>,
    local: Seq<char>,
    inet: Option<IpInet>,
    broadcast: Option<Seq<char>>,
    broadcast_address: Option<IpAddress>,
    check_broadcast: bool,
) -> Result<(IpInet, Seq<WarningView>), FailureView> {
    match inet {
        None => Err(FailureView::InvalidAddress(local)),
        Some(inet) => match broadcast {
            Some(b) => if check_broadcast {
                match broadcast_address {
                    None => Err(FailureView::InvalidBroadcast(b)),
                    Some(address) => Ok(
                        (
                            inet,
                            if address != inet.spec_last_address() {
                                seq![WarningView::CustomBroadcast { interface: name, broadcast: b }]
                            } else {
                                Seq::empty()
                            },
                        ),
                    ),
                }
            } else {
                Ok((inet, Seq::empty()))
            },
            None => Ok((inet, Seq::empty())),
        },
    }
}

/// What one static address gives, its texts read.
pub open spec fn spec_address(name: Seq<char>, addr: Address, check_broadcast: bool) -> Result<
    (IpInet, Seq<WarningView>),
    FailureView,
> {
    spec_address_of(
        name,
        addr.local@,
        parsed_ip_inet(addr.local@),
        addr.broadcast.deep_view(),
        match addr.broadcast {
            Some(b) => parsed_ip_address(b@),
            None => None,
        },
        check_broadcast,
    )
}

/// What a static address of the interface `name` gives whose address and
/// broadcast address are read already.
pub fn address_of(
    name: &str,
    local: &str,
    inet: Option<IpInet>,
    broadcast: Option<&String>,
    broadcast_address: Option<IpAddress>,
    check_broadcast: bool,
) -> (r: Result<(IpInet, Vec<Warning>), Failure>)
    requires
        inet is Some ==> inet.unwrap().wf(),
    ensures
        match r {
            Ok((i, ws)) => spec_address_of(
                name@,
                local@,
                inet,
                broadcast.deep_view(),
                broadcast_address,
                check_broadcast,
            ) == Ok::<(IpInet, Seq<WarningView>), FailureView>((i, ws.deep_view())) && i.wf(),
            Err(e) => spec_address_of(
                name@,
                local@,
                inet,
                broadcast.deep_view(),
                broadcast_address,
                check_broadcast,
            ) == Err::<(IpInet, Seq<WarningView>), FailureView>(e.deep_view()),
        },
{
    let mut ws: Vec<Warning> = Vec::new();
    assert(ws.deep_view() =~= Seq::empty());
    let inet = match inet {
        Some(inet) => inet,
        None => {
            return Err(Failure::InvalidAddress(local.to_owned()));
        },
    };
    match broadcast {
        Some(b) => {
            if check_broadcast {
                let address = match broadcast_address {
                    Some(a) => a,
                    None => {
                        return Err(Failure::InvalidBroadcast(b.clone()));
                    },
                };
                if address != inet.last_address() {
                    ws.push(
                        Warning::CustomBroadcast { interface: name.to_owned(), broadcast: b.clone() },
                    );
                    assert(ws.deep_view() =~= seq![
                        WarningView::CustomBroadcast { interface: name@, broadcast: b@ },
                    ]);
                }
            }
        },
        None => {},
    }
    Ok((inet, ws))
}

/// The addresses and warnings gathered so far, continued with what the
/// addresses in `rest` give, one after the other; the first address that
/// fails ends it.
pub open spec fn spec_addresses_onto(
    name: Seq<char>,
    done: (Seq<IpInet>, Seq<WarningView>),
    rest: Seq<Address>,
    check_broadcast: bool,
) -> Result<(Seq<IpInet>, Seq<WarningView>), FailureView>
    decreases rest.len(),
{
    if rest.len() == 0 {
        Ok(done)
    } else {
        match spec_address(name, rest[0], check_broadcast) {
            Err(e) => Err(e),
            Ok((inet, warnings)) => spec_addresses_onto(
                name,
                (done.0.push(inet), done.1 + warnings),
                rest.drop_first(),
                check_broadcast,
            ),
        }
    }
}

/// What a list of static addresses gives: the interface addresses in
/// order, and the warnings about custom broadcast addresses.
pub open spec fn spec_addresses(name: Seq<char>, addrs: Seq<Address>, check_broadcast: bool) -> Result<
    (Seq<IpInet>, Seq<WarningView>),
    FailureView,
> {
    spec_addresses_onto(name, (Seq::empty(), Seq::empty()), addrs, check_broadcast)
}

/// The routes and warnings gathered so far, continued with what the route
/// records in `rest` give: a route each, but for a multipath record, which
/// gives a warning and no route; the first record that fails ends it.
pub open spec fn spec_routes_onto(
    name: Seq<char>,
    done: (Seq<IpRoute>, Seq<WarningView>),
    rest: Seq<Route>,
) -> Result<(Seq<IpRoute>, Seq<WarningView>), FailureView>
    decreases rest.len(),
{
    if rest.len() == 0 {
        Ok(done)
    } else {
        match rest[0].spec_ip_route() {
            Ok(route) => spec_routes_onto(name, (done.0.push(route), done.1), rest.drop_first()),
            Err(e) => match e.spec_failure() {
                Some(f) => Err(f),
                None => spec_routes_onto(
                    name,
                    (done.0, done.1.push(WarningView::MultipathRoute { interface: name })),
                    rest.drop_first(),
                ),
            },
        }
    }
}

/// What a list of route records gives: the routes in order, and one
/// warning for each multipath record.
pub open spec fn spec_routes(name: Seq<char>, routes: Seq<Route>) -> Result<
    (Seq<IpRoute>, Seq<WarningView>),
    FailureView,
> {
    spec_routes_onto(name, (Seq::empty(), Seq::empty()), routes)
}

/// A list that may be missing, as a sequence.
pub open spec fn opt_seq<T>(v: Option<Vec<T>>) -> Seq<T> {
    match v {
        Some(items) => items@,
        None => Seq::empty(),
    }
}

fn convert_addresses(name: &str, addrs: &Option<Vec<Address>>, check_broadcast: bool) -> (r: Result<
    (Vec<IpInet>, Vec<Warning>),
    Failure,
>)
    ensures
        match r {
            Ok((ips, ws)) => spec_addresses(name@, opt_seq(*addrs), check_broadcast) == Ok::<
                (Seq<IpInet>, Seq<WarningView>),
                FailureView,
            >((ips@, ws.deep_view())) && forall|i: int| 0 <= i < ips@.len() ==> (#[trigger] ips@[i]).wf(),
            Err(e) => spec_addresses(name@, opt_seq(*addrs), check_broadcast) == Err::<
                (Seq<IpInet>, Seq<WarningView>),
                FailureView,
            >(e.deep_view()),
        },
{
    let mut ips: Vec<IpInet> = Vec::new();
    let mut ws: Vec<Warning> = Vec::new();
    assert(ws.deep_view() =~= Seq::empty());
    let list = match addrs {
        Some(list) => list,
        None => {
            return Ok((ips, ws));
        },
    };
    let mut i: usize = 0;
    assert(list@.skip(0) =~= list@);
    while i < list.len()
        invariant
            i <= list.len(),
            opt_seq(*addrs) == list@,
            spec_addresses(name@, list@, check_broadcast) == spec_addresses_onto(
                name@,
                (ips@, ws.deep_view()),
                list@.skip(i as int),
                check_broadcast,
            ),
            forall|k: int| 0 <= k < ips@.len() ==> (#[trigger] ips@[k]).wf(),
        decreases list.len() - i,
    {
        let addr = &list[i];
        let ghost before = ws.deep_view();
        assert(before.len() == ws@.len());
        assert(list@.skip(i as int)[0] == *addr);
        assert(list@.skip(i as int).drop_first() =~= list@.skip(i + 1));
        let inet = IpInet::parse(addr.local.as_str());
        let (broadcast, broadcast_address) = match &addr.broadcast {
            Some(b) => (
                Some(b),
                if check_broadcast {
                    IpAddress::parse(b.as_str())
                } else {
                    None
                },
            ),
            None => (None, None),
        };
        match address_of(
            name,
            addr.local.as_str(),
            inet,
            broadcast,
            broadcast_address,
            check_broadcast,
        ) {
            Ok((inet, mut more)) => {
                let ghost added = more.deep_view();
                assert(added.len() == more@.len());
                ws.append(&mut more);
                assert(ws.deep_view() =~= before + added);
                ips.push(inet);
            },
            Err(e) => {
                return Err(e);
            },
        }
        i = i + 1;
    }
    Ok((ips, ws))
}

fn convert_routes(name: &str, routes: &Option<Vec<Route>>) -> (r: Result<
    (Vec<IpRoute>, Vec<Warning>),
    Failure,
>)
    ensures
        match r {
            Ok((rs, ws)) => spec_routes(name@, opt_seq(*routes)) == Ok::<
                (Seq<IpRoute>, Seq<WarningView>),
                FailureView,
            >((rs@, ws.deep_view())) && forall|i: int| 0 <= i < rs@.len() ==> (#[trigger] rs@[i]).destination.wf(),
            Err(e) => spec_routes(name@, opt_seq(*routes)) == Err::<
                (Seq<IpRoute>, Seq<WarningView>),
                FailureView,
            >(e.deep_view()),
        },
{
    let mut rs: Vec<IpRoute> = Vec::new();
    let mut ws: Vec<Warning> = Vec::new();
    assert(ws.deep_view() =~= Seq::empty());
    let list = match routes {
        Some(list) => list,
        None => {
            return Ok((rs, ws));
        },
    };
    let mut i: usize = 0;
    assert(list@.skip(0) =~= list@);
    while i < list.len()
        invariant
            i <= list.len(),
            opt_seq(*routes) == list@,
            spec_routes(name@, list@) == spec_routes_onto(
                name@,
                (rs@, ws.deep_view()),
                list@.skip(i as int),
            ),
            forall|k: int| 0 <= k < rs@.len() ==> (#[trigger] rs@[k]).destination.wf(),
        decreases list.len() - i,
    {
        let ghost before = ws.deep_view();
        assert(before.len() == ws@.len());
        assert(list@.skip(i as int)[0] == list[i as int]);
        assert(list@.skip(i as int).drop_first() =~= list@.skip(i + 1));
        match list[i].to_ip_route() {
            Ok(route) => {
                rs.push(route);
            },
            Err(e) => match e.failure() {
                Some(f) => {
                    return Err(f);
                },
                None => {
                    ws.push(Warning::MultipathRoute { interface: name.to_owned() });
                    assert(ws.deep_view() =~= before.push(
                        WarningView::MultipathRoute { interface: name@ },
                    ));
                },
            },
        }
        i = i + 1;
    }
    Ok((rs, ws))
}


/// What translating the IP settings of an interface gives.
#[derive(Clone, Debug, PartialEq, Eq)]
pub struct IpConfigResult {
    pub ip_config: IpConfig,
    pub warnings: Vec<Warning>,
}

impl DeepView for IpConfigResult {
    type V = (IpConfigView, Seq<WarningView>);

    open spec fn deep_view(&self) -> (IpConfigView, Seq<WarningView>) {
        (self.ip_config.deep_view(), self.warnings.deep_view())
    }
}

impl IpConfigResult {
    /// Whether a warning came up (a notice does not count).
    pub fn has_warnings(&self) -> (r: bool)
        ensures
            r == any_warning(self.warnings.deep_view()),
    {
        has_warnings(&self.warnings)
    }
}

/// The host name that the DHCP client sends: the configured one, unless
/// the netconfig option says that the name of the system is sent.
pub open spec fn spec_dhcp_hostname(hostname: Option<String>, option: Option<HostnameOption>) -> Option<
    Seq<char>,
> {
    match hostname {
        Some(h) => if option is Some && option.unwrap() is Auto {
            None
        } else {
            Some(h@)
        },
        None => None,
    }
}

fn dhcp_hostname(hostname: &Option<String>, option: Option<&HostnameOption>) -> (r: Option<String>)
    ensures
        r.deep_view() == spec_dhcp_hostname(
            *hostname,
            match option {
                Some(o) => Some(*o),
                None => None,
            },
        ),
{
    match hostname {
        Some(h) => {
            let auto = match option {
                Some(o) => o.is_auto(),
                None => false,
            };
            if auto {
                None
            } else {
                Some(h.clone())
            }
        },
        None => None,
    }
}

impl Interface {
    /// The IPv4 method: manual with static settings, else disabled where
    /// IPv4 is turned off, else automatic, be DHCP configured or left at its
    /// default.
    pub open spec fn spec_method4(&self) -> Ipv4Method {
        if self.ipv4_static is Some {
            Ipv4Method::Manual
        } else if !self.ipv4.enabled {
            Ipv4Method::Disabled
        } else {
            Ipv4Method::Auto
        }
    }

    /// The IPv6 method: manual with static settings, else DHCP where the
    /// DHCP mode is `managed`, else disabled where IPv6 is turned off, else
    /// automatic.
    pub open spec fn spec_method6(&self) -> Ipv6Method {
        if self.ipv6_static is Some {
            Ipv6Method::Manual
        } else if self.ipv6_dhcp is Some && self.ipv6_dhcp.unwrap().mode@ == "managed"@ {
            Ipv6Method::Dhcp
        } else if !self.ipv6.enabled {
            Ipv6Method::Disabled
        } else {
            Ipv6Method::Auto
        }
    }

    /// The DHCPv4 client settings.
    pub open spec fn spec_dhcp4_settings(&self, netconfig_dhcp: Option<NetconfigDhcp>) -> Dhcp4SettingsView {
        match self.ipv4_dhcp {
            Some(d) => Dhcp4SettingsView {
                send_hostname: Some(d.hostname is Some),
                hostname: spec_dhcp_hostname(
                    d.hostname,
                    match netconfig_dhcp {
                        Some(n) => Some(n.dhclient_hostname_option),
                        None => None,
                    },
                ),
                send_release: Some(d.release_lease),
                client_id: DhcpClientId::Ipv6Duid,
                iaid: DhcpIaid::Mac,
            },
            None => Dhcp4SettingsView::unset(),
        }
    }

    /// The DHCPv6 client settings. The DUID is link-layer plus time where
    /// either DHCP client is configured.
    pub open spec fn spec_dhcp6_settings(&self, netconfig_dhcp: Option<NetconfigDhcp>) -> Dhcp6SettingsView {
        match self.ipv6_dhcp {
            Some(d) => Dhcp6SettingsView {
                send_hostname: Some(d.hostname is Some),
                hostname: spec_dhcp_hostname(
                    d.hostname,
                    match netconfig_dhcp {
                        Some(n) => Some(n.dhclient6_hostname_option),
                        None => None,
                    },
                ),
                send_release: Some(d.release_lease),
                duid: DhcpDuid::Llt,
                iaid: DhcpIaid::Mac,
            },
            None => Dhcp6SettingsView {
                duid: if self.ipv4_dhcp is Some {
                    DhcpDuid::Llt
                } else {
                    DhcpDuid::Unset
                },
                ..Dhcp6SettingsView::unset()
            },
        }
    }

    pub open spec fn spec_addresses4(&self) -> Seq<Address> {
        match self.ipv4_static {
            Some(s) => opt_seq(s.addresses),
            None => Seq::empty(),
        }
    }

    pub open spec fn spec_routes4(&self) -> Seq<Route> {
        match self.ipv4_static {
            Some(s) => opt_seq(s.routes),
            None => Seq::empty(),
        }
    }

    pub open spec fn spec_addresses6(&self) -> Seq<Address> {
        match self.ipv6_static {
            Some(s) => opt_seq(s.addresses),
            None => Seq::empty(),
        }
    }

    pub open spec fn spec_routes6(&self) -> Seq<Route> {
        match self.ipv6_static {
            Some(s) => opt_seq(s.routes),
            None => Seq::empty(),
        }
    }

    /// The IP settings of the interface with the warnings of their
    /// translation, or the first failure, going through the static IPv4
    /// addresses, the IPv4 routes, the static IPv6 addresses and the IPv6
    /// routes in this order. Broadcast addresses are checked for IPv4 only.
    pub open spec fn spec_ip_config(&self, netconfig_dhcp: Option<NetconfigDhcp>) -> Result<
        (IpConfigView, Seq<WarningView>),
        FailureView,
    > {
        match spec_addresses(self.name@, self.spec_addresses4(), true) {
            Err(e) => Err(e),
            Ok((a4, wa4)) => match spec_routes(self.name@, self.spec_routes4()) {
                Err(e) => Err(e),
                Ok((r4, wr4)) => match spec_addresses(self.name@, self.spec_addresses6(), false) {
                    Err(e) => Err(e),
                    Ok((a6, wa6)) => match spec_routes(self.name@, self.spec_routes6()) {
                        Err(e) => Err(e),
                        Ok((r6, wr6)) => Ok(
                            (
                                IpConfigView {
                                    method4: self.spec_method4(),
                                    method6: self.spec_method6(),
                                    addresses: a4 + a6,
                                    routes4: r4,
                                    routes6: r6,
                                    dhcp4_settings: Some(self.spec_dhcp4_settings(netconfig_dhcp)),
                                    dhcp6_settings: Some(self.spec_dhcp6_settings(netconfig_dhcp)),
                                    ip6_privacy: match self.ipv6.privacy {
                                        Some(p) => Some(p.spec_value()),
                                        None => None,
                                    },
                                    ..IpConfigView::blank()
                                },
                                wa4 + wr4 + wa6 + wr6,
                            ),
                        ),
                    },
                },
            },
        }
    }

    fn method4(&self) -> (r: Ipv4Method)
        ensures
            r == self.spec_method4(),
    {
        if self.ipv4_static.is_some() {
            Ipv4Method::Manual
        } else if !self.ipv4.enabled {
            Ipv4Method::Disabled
        } else {
            Ipv4Method::Auto
        }
    }

    fn method6(&self) -> (r: Ipv6Method)
        ensures
            r == self.spec_method6(),
    {
        if self.ipv6_static.is_some() {
            return Ipv6Method::Manual;
        }
        let managed = match &self.ipv6_dhcp {
            Some(d) => str_eq(d.mode.as_str(), "managed"),
            None => false,
        };
        if managed {
            Ipv6Method::Dhcp
        } else if !self.ipv6.enabled {
            Ipv6Method::Disabled
        } else {
            Ipv6Method::Auto
        }
    }

    fn dhcp4_settings(&self, netconfig_dhcp: &Option<NetconfigDhcp>) -> (r: Dhcp4Settings)
        ensures
            r.deep_view() == self.spec_dhcp4_settings(*netconfig_dhcp),
    {
        match &self.ipv4_dhcp {
            Some(d) => {
                let option: Option<&HostnameOption> = match netconfig_dhcp {
                    Some(n) => Some(&n.dhclient_hostname_option),
                    None => None,
                };
                Dhcp4Settings {
                    send_hostname: Some(d.hostname.is_some()),
                    hostname: dhcp_hostname(&d.hostname, option),
                    send_release: Some(d.release_lease),
                    client_id: DhcpClientId::Ipv6Duid,
                    iaid: DhcpIaid::Mac,
                }
            },
            None => Dhcp4Settings::default(),
        }
    }

    fn dhcp6_settings(&self, netconfig_dhcp: &Option<NetconfigDhcp>) -> (r: Dhcp6Settings)
        ensures
            r.deep_view() == self.spec_dhcp6_settings(*netconfig_dhcp),
    {
        match &self.ipv6_dhcp {
            Some(d) => {
                let option: Option<&HostnameOption> = match netconfig_dhcp {
                    Some(n) => Some(&n.dhclient6_hostname_option),
                    None => None,
                };
                Dhcp6Settings {
                    send_hostname: Some(d.hostname.is_some()),
                    hostname: dhcp_hostname(&d.hostname, option),
                    send_release: Some(d.release_lease),
                    duid: DhcpDuid::Llt,
                    iaid: DhcpIaid::Mac,
                }
            },
            None => {
                let mut settings = Dhcp6Settings::default();
                if self.ipv4_dhcp.is_some() {
                    settings.duid = DhcpDuid::Llt;
                }
                settings
            },
        }
    }

    /// Translates the IP settings of the interface: methods, static
    /// addresses and routes, DHCP client settings and IPv6 privacy.
    ///
    /// A route with more than one next hop is left out with a warning, and
    /// so is reported a broadcast address that is not the last address of
    /// its network. An address, gateway or destination that cannot be read
    /// and a route without destination and next hop are failures.
    pub fn to_ip_config(&self, netconfig_dhcp: &Option<NetconfigDhcp>) -> (r: Result<
        IpConfigResult,
        Failure,
    >)
        ensures
            result_view(r) == self.spec_ip_config(*netconfig_dhcp),
            r is Ok ==> r.unwrap().ip_config.deep_view().wf(),
    {
        let no_addresses: Option<Vec<Address>> = None;
        let no_routes: Option<Vec<Route>> = None;
        let name = self.name.as_str();
        let (list_a4, list_r4) = match &self.ipv4_static {
            Some(s) => (&s.addresses, &s.routes),
            None => (&no_addresses, &no_routes),
        };
        let (list_a6, list_r6) = match &self.ipv6_static {
            Some(s) => (&s.addresses, &s.routes),
            None => (&no_addresses, &no_routes),
        };
        assert(opt_seq(*list_a4) == self.spec_addresses4());
        assert(opt_seq(*list_r4) == self.spec_routes4());
        assert(opt_seq(*list_a6) == self.spec_addresses6());
        assert(opt_seq(*list_r6) == self.spec_routes6());
        let (mut addresses, mut warnings) = match convert_addresses(name, list_a4, true) {
            Ok(x) => x,
            Err(e) => {
                return Err(e);
            },
        };
        let ghost wa4 = warnings.deep_view();
        let ghost a4 = addresses@;
        let (routes4, mut more) = match convert_routes(name, list_r4) {
            Ok(x) => x,
            Err(e) => {
                return Err(e);
            },
        };
        let ghost wr4 = more.deep_view();
        assert(wa4.len() == warnings@.len() && wr4.len() == more@.len());
        warnings.append(&mut more);
        assert(warnings.deep_view() =~= wa4 + wr4);
        let (mut addresses6, mut more) = match convert_addresses(name, list_a6, false) {
            Ok(x) => x,
            Err(e) => {
                return Err(e);
            },
        };
        let ghost wa6 = more.deep_view();
        let ghost a6 = addresses6@;
        assert(wa6.len() == more@.len());
        warnings.append(&mut more);
        assert(warnings.deep_view() =~= wa4 + wr4 + wa6);
        addresses.append(&mut addresses6);
        assert(addresses@ =~= a4 + a6);
        let (routes6, mut more) = match convert_routes(name, list_r6) {
            Ok(x) => x,
            Err(e) => {
                return Err(e);
            },
        };
        let ghost wr6 = more.deep_view();
        assert(wr6.len() == more@.len());
        warnings.append(&mut more);
        assert(warnings.deep_view() =~= wa4 + wr4 + wa6 + wr6);
        let ip6_privacy: Option<i32> = match self.ipv6.privacy {
            Some(p) => Some(p.value()),
            None => None,
        };
        let dns_searchlist: Vec<String> = Vec::new();
        assert(dns_searchlist.deep_view() =~= Seq::empty());
        let ip_config = IpConfig {
            method4: self.method4(),
            method6: self.method6(),
            addresses,
            nameservers: Vec::new(),
            dns_searchlist,
            ignore_auto_dns: false,
            routes4,
            routes6,
            dhcp4_settings: Some(self.dhcp4_settings(netconfig_dhcp)),
            dhcp6_settings: Some(self.dhcp6_settings(netconfig_dhcp)),
            ip6_privacy,
            dns_priority4: None,
            dns_priority6: None,
        };
        Ok(IpConfigResult { ip_config, warnings })
    }
}


/// A route record without destination and with one next hop, whose gateway
/// is an IP address, gives the default route of the family of the gateway
/// (`0.0.0.0/0` or `::/0`), and the gateway is its next hop.
pub proof fn lemma_default_route(route: Route, gateway: IpAddress)
    requires
        route.destination is None,
        route.spec_hops().len() == 1,
        parsed_ip_address(route.spec_hops()[0].gateway@) == Some(gateway),
    ensures
        route.spec_ip_route() == Ok::<IpRoute, RouteError>(
            IpRoute {
                destination: default_destination(gateway),
                next_hop: Some(gateway),
                metric: route.priority,
            },
        ),
        default_destination(gateway) == if gateway is V4 {
            IpInet { address: IpAddress::V4(0), network_length: 0 }
        } else {
            IpInet { address: IpAddress::V6(0), network_length: 0 }
        },
{
}

/// Whether `route` is the route of one of `records`.
pub open spec fn is_route_of(records: Seq<Route>, route: IpRoute) -> bool {
    exists|k: int|
        0 <= k < records.len() && (#[trigger] records[k]).spec_ip_route() == Ok::<IpRoute, RouteError>(
            route,
        )
}

/// What a list of route records gives, seen record by record: the routes
/// that were there before stay in front; every record that gives a route
/// has that route in the list; every route of the list beyond those that
/// were there is the route of a record; and a record with more than one
/// next hop leaves the warning about multipath routes.
pub proof fn lemma_routes_onto(
    name: Seq<char>,
    done: (Seq<IpRoute>, Seq<WarningView>),
    rest: Seq<Route>,
)
    requires
        spec_routes_onto(name, done, rest) is Ok,
    ensures
        ({
            let out = spec_routes_onto(name, done, rest)->Ok_0;
            &&& out.0.len() >= done.0.len()
            &&& out.1.len() >= done.1.len()
            &&& forall|j: int| 0 <= j < done.0.len() ==> out.0[j] == done.0[j]
            &&& forall|j: int| 0 <= j < done.1.len() ==> out.1[j] == done.1[j]
            &&& forall|k: int|
                0 <= k < rest.len() && (#[trigger] rest[k]).spec_ip_route() is Ok ==> out.0.contains(
                    rest[k].spec_ip_route()->Ok_0,
                )
            &&& forall|j: int| done.0.len() <= j < out.0.len() ==> is_route_of(rest, #[trigger] out.0[j])
            &&& forall|k: int|
                0 <= k < rest.len() && (#[trigger] rest[k]).spec_hops().len() > 1
                    ==> out.1.contains(WarningView::MultipathRoute { interface: name })
        }),
    decreases rest.len(),
{
    if rest.len() > 0 {
        let out = spec_routes_onto(name, done, rest)->Ok_0;
        let tail = rest.drop_first();
        let next = match rest[0].spec_ip_route() {
            Ok(route) => (done.0.push(route), done.1),
            Err(e) => (done.0, done.1.push(WarningView::MultipathRoute { interface: name })),
        };
        lemma_routes_onto(name, next, tail);
        assert forall|k: int|
            0 <= k < rest.len() && (#[trigger] rest[k]).spec_ip_route() is Ok implies out.0.contains(
            rest[k].spec_ip_route()->Ok_0,
        ) by {
            if k == 0 {
                assert(out.0[done.0.len() as int] == next.0[done.0.len() as int]);
            } else {
                assert(tail[k - 1] == rest[k]);
            }
        }
        assert forall|j: int| done.0.len() <= j < out.0.len() implies is_route_of(
            rest,
            #[trigger] out.0[j],
        ) by {
            if j < next.0.len() {
                assert(out.0[j] == next.0[j]);
                assert(rest[0].spec_ip_route() == Ok::<IpRoute, RouteError>(out.0[j]));
            } else {
                assert(is_route_of(tail, out.0[j]));
                let k = choose|k: int|
                    0 <= k < tail.len() && (#[trigger] tail[k]).spec_ip_route() == Ok::<
                        IpRoute,
                        RouteError,
                    >(out.0[j]);
                assert(rest[k + 1] == tail[k]);
            }
        }
        assert forall|k: int|
            0 <= k < rest.len() && (#[trigger] rest[k]).spec_hops().len() > 1 implies out.1.contains(
            WarningView::MultipathRoute { interface: name },
        ) by {
            if k == 0 {
                assert(out.1[done.1.len() as int] == next.1[done.1.len() as int]);
            } else {
                assert(tail[k - 1] == rest[k]);
            }
        }
    }
}

/// The route records of one protocol of an interface.
pub open spec fn route_records(ifc: Interface, v6: bool) -> Seq<Route> {
    if v6 {
        ifc.spec_routes6()
    } else {
        ifc.spec_routes4()
    }
}

/// The routes of one protocol of a connection.
pub open spec fn routes_of(ip: IpConfigView, v6: bool) -> Seq<IpRoute> {
    if v6 {
        ip.routes6
    } else {
        ip.routes4
    }
}

/// Of an interface whose IP settings can be translated: a record among its
/// IPv4 (or IPv6) routes that has no destination and one next hop, whose
/// gateway is an IP address, gives the default route of the family of the
/// gateway through that gateway, and that route is among the IPv4 (or
/// IPv6) routes of the connection.
pub proof fn lemma_default_route_of_interface(
    ifc: Interface,
    netconfig_dhcp: Option<NetconfigDhcp>,
    v6: bool,
    k: int,
    gateway: IpAddress,
)
    requires
        ifc.spec_ip_config(netconfig_dhcp) is Ok,
        0 <= k < route_records(ifc, v6).len(),
        route_records(ifc, v6)[k].destination is None,
        route_records(ifc, v6)[k].spec_hops().len() == 1,
        parsed_ip_address(route_records(ifc, v6)[k].spec_hops()[0].gateway@) == Some(gateway),
    ensures
        routes_of(ifc.spec_ip_config(netconfig_dhcp)->Ok_0.0, v6).contains(
            IpRoute {
                destination: default_destination(gateway),
                next_hop: Some(gateway),
                metric: route_records(ifc, v6)[k].priority,
            },
        ),
{
    let routes = route_records(ifc, v6);
    lemma_default_route(routes[k], gateway);
    lemma_routes_onto(ifc.name@, (Seq::empty(), Seq::empty()), routes);
}

/// Of an interface whose IP settings can be translated: a record among its
/// IPv4 (or IPv6) routes that has more than one next hop gives no route but
/// a warning about multipath routes, and every IPv4 (or IPv6) route of the
/// connection is the route of one of the records.
pub proof fn lemma_multipath_route_left_out(
    ifc: Interface,
    netconfig_dhcp: Option<NetconfigDhcp>,
    v6: bool,
    k: int,
)
    requires
        ifc.spec_ip_config(netconfig_dhcp) is Ok,
        0 <= k < route_records(ifc, v6).len(),
        route_records(ifc, v6)[k].spec_hops().len() > 1,
    ensures
        ifc.spec_ip_config(netconfig_dhcp)->Ok_0.1.contains(
            WarningView::MultipathRoute { interface: ifc.name@ },
        ),
        route_records(ifc, v6)[k].spec_ip_route() == Err::<IpRoute, RouteError>(RouteError::Multipath),
        forall|j: int|
            0 <= j < routes_of(ifc.spec_ip_config(netconfig_dhcp)->Ok_0.0, v6).len() ==> is_route_of(
                route_records(ifc, v6),
                #[trigger] routes_of(ifc.spec_ip_config(netconfig_dhcp)->Ok_0.0, v6)[j],
            ),
{
    let routes = route_records(ifc, v6);
    let a4 = spec_addresses(ifc.name@, ifc.spec_addresses4(), true)->Ok_0;
    let r4 = spec_routes(ifc.name@, ifc.spec_routes4())->Ok_0;
    let a6 = spec_addresses(ifc.name@, ifc.spec_addresses6(), false)->Ok_0;
    let r6 = spec_routes(ifc.name@, ifc.spec_routes6())->Ok_0;
    let out = if v6 {
        r6
    } else {
        r4
    };
    let warnings = ifc.spec_ip_config(netconfig_dhcp)->Ok_0.1;
    assert(warnings == a4.1 + r4.1 + a6.1 + r6.1);
    lemma_routes_onto(ifc.name@, (Seq::empty(), Seq::empty()), routes);
    let w = WarningView::MultipathRoute { interface: ifc.name@ };
    assert(out.1.contains(w));
    let i = choose|i: int| 0 <= i < out.1.len() && out.1[i] == w;
    if v6 {
        assert(warnings[a4.1.len() + r4.1.len() + a6.1.len() + i] == w);
    } else {
        assert(warnings[a4.1.len() + i] == w);
    }
}

} // verus!
