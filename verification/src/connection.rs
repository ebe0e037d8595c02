//! The translation of one interface record into its connections.

use vstd::prelude::*;
use crate::bond::Bond;
use crate::bridge::Bridge;
use crate::infiniband::{Infiniband, InfinibandChild};
use crate::interface::{Dummy, Ethernet, Interface, LinkPortType};
use crate::mac::MacAddress;
use crate::model::{
    fresh_uuid, Connection, ConnectionConfig, ConnectionConfigView, ConnectionView, IpConfig, IpConfigView, OvsBridgeConfig, OvsInterfaceConfig,
    OvsInterfaceType, OvsPortConfig, PortConfig, Status,
};
use crate::outcome::{is_duplicate, lemma_translation_failure};
use crate::netconfig_dhcp::NetconfigDhcp;
use crate::ovs::OvsBridge;
use crate::report::{any_warning, has_warnings, result_view, Failure, FailureView, Warning, WarningView};
use crate::settings::MigrationSettings;
use crate::text::{decimal, u64_to_string};
use crate::topology::{
    addresses_ok, all_differ, distinct_uuids, lemma_translation_addresses_ok,
    lemma_translation_distinct,
};
use crate::tuntap::{Tap, Tun};
use crate::vlan::Vlan;
use crate::wireless::{Network, Wireless};

verus! {

/// The connections that an interface record gives, with the warnings of
/// their translation.
#[derive(Clone, Debug, PartialEq, Eq, Default)]
pub struct ConnectionResult {
    pub connections: Vec<Connection>,
    pub warnings: Vec<Warning>,
}

impl DeepView for ConnectionResult {
    type V = (Seq<ConnectionView>, Seq<WarningView>);

    open spec fn deep_view(&self) -> (Seq<ConnectionView>, Seq<WarningView>) {
        (self.connections.deep_view(), self.warnings.deep_view())
    }
}

impl ConnectionResult {
    /// Whether a warning came up (a notice does not count).
    pub fn has_warnings(&self) -> (r: bool)
        ensures
            r == any_warning(self.warnings.deep_view()),
    {
        has_warnings(&self.warnings)
    }
}

/// The technology of an interface record.
pub ghost enum Technology {
    Ethernet(Ethernet),
    Dummy(Dummy),
    Bond(Bond),
    Vlan(Vlan),
    Bridge(Bridge),
    Wireless(Wireless),
    Infiniband(Infiniband),
    InfinibandChild(InfinibandChild),
    Tun(Tun),
    Tap(Tap),
    OvsBridge(OvsBridge),
    /// None is set: a plain connection.
    Plain,
}

/// The warning about multicast settings of an infiniband device, where the
/// record has any.
pub open spec fn multicast_warning(multicast: Option<String>) -> Seq<WarningView> {
    if multicast is Some {
        seq![WarningView::InfinibandMulticast]
    } else {
        Seq::empty()
    }
}

/// `lead` followed by `base` with the MAC address that `address` stands
/// for and with `config`; a failure where `address` stands for none.
pub open spec fn spec_with_mac(
    lead: Seq<ConnectionView>,
    warnings: Seq<WarningView>,
    base: ConnectionView,
    address: Option<String>,
    config: ConnectionConfigView,
) -> Result<(Seq<ConnectionView>, Seq<WarningView>), FailureView> {
    match MacAddress::spec_from_setting(address) {
        Some(mac) => Ok(
            (lead.push(ConnectionView { custom_mac_address: mac, config, ..base }), warnings),
        ),
        None => Err(FailureView::InvalidMacAddress),
    }
}

impl Interface {
    pub open spec fn spec_ovs_port_name(&self) -> Seq<char> {
        self.name@ + "-port"@
    }

    pub open spec fn spec_ovs_bridge_name(&self) -> Seq<char> {
        self.name@ + "-bridge"@
    }

    /// The name of the open-vswitch port connection of the interface.
    pub fn to_ovs_port_name(&self) -> (r: String)
        ensures
            r@ == self.spec_ovs_port_name(),
    {
        let mut s = self.name.clone();
        s.append("-port");
        s
    }

    /// The name of the open-vswitch bridge connection of the interface.
    pub fn to_ovs_bridge_name(&self) -> (r: String)
        ensures
            r@ == self.spec_ovs_bridge_name(),
    {
        let mut s = self.name.clone();
        s.append("-bridge");
        s
    }

    /// The technology of the record: the first that is set, in this order.
    pub open spec fn spec_technology(&self) -> Technology {
        if self.ethernet is Some {
            Technology::Ethernet(self.ethernet.unwrap())
        } else if self.dummy is Some {
            Technology::Dummy(self.dummy.unwrap())
        } else if self.bond is Some {
            Technology::Bond(self.bond.unwrap())
        } else if self.vlan is Some {
            Technology::Vlan(self.vlan.unwrap())
        } else if self.bridge is Some {
            Technology::Bridge(self.bridge.unwrap())
        } else if self.wireless is Some {
            Technology::Wireless(self.wireless.unwrap())
        } else if self.infiniband is Some {
            Technology::Infiniband(self.infiniband.unwrap())
        } else if self.infiniband_child is Some {
            Technology::InfinibandChild(self.infiniband_child.unwrap())
        } else if self.tun is Some {
            Technology::Tun(self.tun.unwrap())
        } else if self.tap is Some {
            Technology::Tap(self.tap.unwrap())
        } else if self.ovs_bridge is Some {
            Technology::OvsBridge(self.ovs_bridge.unwrap())
        } else {
            Technology::Plain
        }
    }

    /// The number of connections that the technology of the record gives:
    /// one for each network of a wireless interface, two for a fake
    /// open-vswitch bridge (port and interface), three for a real one
    /// (bridge, port and interface), else one.
    pub open spec fn spec_technology_count(&self) -> nat {
        match self.spec_technology() {
            Technology::Wireless(w) => match w.networks {
                Some(n) => n@.len(),
                None => 0,
            },
            Technology::OvsBridge(o) => if o.vlan is Some {
                2
            } else {
                3
            },
            _ => 1,
        }
    }

    /// The number of connections that the technology of the record gives.
    pub fn technology_count(&self) -> (r: usize)
        ensures
            r == self.spec_technology_count(),
    {
        if self.ethernet.is_some() || self.dummy.is_some() || self.bond.is_some()
            || self.vlan.is_some() || self.bridge.is_some() {
            return 1;
        }
        match &self.wireless {
            Some(w) => {
                return match &w.networks {
                    Some(n) => n.len(),
                    None => 0,
                };
            },
            None => {},
        }
        if self.infiniband.is_some() || self.infiniband_child.is_some() || self.tun.is_some()
            || self.tap.is_some() {
            return 1;
        }
        match &self.ovs_bridge {
            Some(o) => if o.vlan.is_some() {
                2
            } else {
                3
            },
            None => 1,
        }
    }

    /// Whether the interface is a port of an open-vswitch bridge.
    pub open spec fn spec_has_ovs_link(&self) -> bool {
        self.link.port is Some && self.link.port.unwrap().port_type == LinkPortType::OvsBridge
    }

    /// Up where connections are activated and this one connects by itself.
    pub open spec fn spec_status(&self, settings: MigrationSettings) -> Status {
        if settings.activate_connections && self.control.mode.spec_autoconnect() {
            Status::Up
        } else {
            Status::Down
        }
    }

    /// The connection of the interface itself, before its technology is
    /// filled in.
    pub open spec fn spec_base(
        &self,
        settings: MigrationSettings,
        ip: IpConfigView,
        uuid: u128,
        controller: Option<u128>,
    ) -> ConnectionView {
        ConnectionView {
            id: self.name@,
            interface: Some(self.name@),
            ip_config: ip,
            firewall_zone: self.firewall.zone.deep_view(),
            mtu: match self.link.mtu {
                Some(m) => m,
                None => 0,
            },
            autoconnect: self.control.mode.spec_autoconnect(),
            status: self.spec_status(settings),
            controller,
            port_config: match self.link.port {
                Some(p) => p.spec_port_config(),
                None => PortConfig::Unset,
            },
            ..ConnectionView::blank(uuid)
        }
    }

    /// The open-vswitch port connection of the interface.
    pub open spec fn spec_ovs_port(&self, uuid: u128, tag: Option<u16>, controller: Option<u128>) -> ConnectionView {
        ConnectionView {
            id: self.spec_ovs_port_name(),
            interface: Some(self.spec_ovs_port_name()),
            autoconnect: self.control.mode.spec_autoconnect(),
            config: ConnectionConfigView::OvsPort(OvsPortConfig { tag }),
            controller,
            ..ConnectionView::blank(uuid)
        }
    }

    /// The open-vswitch bridge connection of the interface.
    pub open spec fn spec_ovs_bridge(&self, uuid: u128) -> ConnectionView {
        ConnectionView {
            id: self.spec_ovs_bridge_name(),
            interface: Some(self.spec_ovs_bridge_name()),
            autoconnect: self.control.mode.spec_autoconnect(),
            config: ConnectionConfigView::OvsBridge(OvsBridgeConfig {  }),
            ..ConnectionView::blank(uuid)
        }
    }

    /// The connection of one network of a wireless interface: the
    /// connection of the interface with the wireless settings of the
    /// network and, where the network has them, its 802.1X settings. Where
    /// the interface has more than one network, the id carries the index of
    /// the network behind a dash.
    pub open spec fn spec_network_connection(
        &self,
        settings: MigrationSettings,
        ip: IpConfigView,
        controller: Option<u128>,
        uuid: u128,
        network: Network,
        index: nat,
        total: nat,
    ) -> Result<(ConnectionView, Seq<WarningView>), FailureView> {
        match network.spec_config(settings.continue_migration) {
            Err(e) => Err(e),
            Ok((config, warnings)) => {
                let base = self.spec_base(settings, ip, uuid, controller);
                let id = if total > 1 {
                    self.name@ + "-"@ + decimal(index)
                } else {
                    self.name@
                };
                match network.wpa_eap {
                    Some(eap) => match eap.spec_ieee_8021x_config() {
                        Err(e) => Err(e),
                        Ok(x) => Ok(
                            (
                                ConnectionView { id, config, ieee_8021x_config: Some(x), ..base },
                                warnings,
                            ),
                        ),
                    },
                    None => Ok((ConnectionView { id, config, ..base }, warnings)),
                }
            },
        }
    }

    /// The connections and warnings gathered so far, continued with the
    /// connections of the networks from `index` on; the first network that
    /// fails ends it.
    pub open spec fn spec_networks_onto(
        &self,
        settings: MigrationSettings,
        ip: IpConfigView,
        controller: Option<u128>,
        uuids: Seq<u128>,
        networks: Seq<Network>,
        index: nat,
        done: (Seq<ConnectionView>, Seq<WarningView>),
    ) -> Result<(Seq<ConnectionView>, Seq<WarningView>), FailureView>
        decreases networks.len() - index,
    {
        if index >= networks.len() {
            Ok(done)
        } else {
            match self.spec_network_connection(
                settings,
                ip,
                controller,
                uuids[index as int],
                networks[index as int],
                index,
                networks.len(),
            ) {
                Err(e) => Err(e),
                Ok((c, warnings)) => self.spec_networks_onto(
                    settings,
                    ip,
                    controller,
                    uuids,
                    networks,
                    index + 1,
                    (done.0.push(c), done.1 + warnings),
                ),
            }
        }
    }

    /// The connections of an open-vswitch bridge record behind `lead`. A
    /// fake bridge gives its port, tagged, and its interface below the
    /// port; which bridge the port belongs to is left open. A real bridge
    /// gives the bridge, the port below it and the interface below the
    /// port.
    pub open spec fn spec_ovs_connections(
        &self,
        lead: Seq<ConnectionView>,
        base: ConnectionView,
        ovs: OvsBridge,
        uuids: Seq<u128>,
    ) -> Seq<ConnectionView> {
        let config = ConnectionConfigView::OvsInterface(
            OvsInterfaceConfig { interface_type: OvsInterfaceType::Internal },
        );
        match ovs.vlan {
            Some(vlan) => lead.push(self.spec_ovs_port(uuids[0], Some(vlan.tag), None)).push(
                ConnectionView { uuid: uuids[1], config, controller: Some(uuids[0]), ..base },
            ),
            None => lead.push(self.spec_ovs_bridge(uuids[0])).push(
                self.spec_ovs_port(uuids[1], None, Some(uuids[0])),
            ).push(ConnectionView { uuid: uuids[2], config, controller: Some(uuids[1]), ..base }),
        }
    }

    /// The connections of the technology of the record behind `lead`, with
    /// `warnings` and what the technology adds to them. `controller` is the
    /// controller of the connection of the interface, `uuids` are the uuids
    /// of the connections of the technology, in their order.
    pub open spec fn spec_technology_connections(
        &self,
        settings: MigrationSettings,
        ip: IpConfigView,
        lead: Seq<ConnectionView>,
        warnings: Seq<WarningView>,
        controller: Option<u128>,
        uuids: Seq<u128>,
    ) -> Result<(Seq<ConnectionView>, Seq<WarningView>), FailureView> {
        let base = self.spec_base(settings, ip, uuids[0], controller);
        match self.spec_technology() {
            Technology::Ethernet(e) => spec_with_mac(
                lead,
                warnings,
                base,
                e.address,
                ConnectionConfigView::Ethernet,
            ),
            Technology::Dummy(d) => spec_with_mac(
                lead,
                warnings,
                base,
                d.address,
                ConnectionConfigView::Dummy,
            ),
            Technology::Bond(b) => spec_with_mac(lead, warnings, base, b.address, b.spec_config()),
            Technology::Vlan(v) => spec_with_mac(lead, warnings, base, v.address, v.spec_config()),
            Technology::Bridge(b) => spec_with_mac(lead, warnings, base, b.address, b.spec_config()),
            Technology::Wireless(w) => match w.networks {
                Some(networks) => self.spec_networks_onto(
                    settings,
                    ip,
                    controller,
                    uuids,
                    networks@,
                    0,
                    (lead, warnings),
                ),
                None => Ok((lead, warnings)),
            },
            Technology::Infiniband(i) => match i.spec_config() {
                Some(config) => Ok(
                    (
                        lead.push(ConnectionView { config, ..base }),
                        warnings + multicast_warning(i.multicast),
                    ),
                ),
                None => Err(FailureView::InvalidInfinibandMode),
            },
            Technology::InfinibandChild(i) => match i.spec_config() {
                Some(config) => Ok(
                    (
                        lead.push(ConnectionView { config, ..base }),
                        warnings + multicast_warning(i.multicast),
                    ),
                ),
                None => Err(FailureView::InvalidInfinibandMode),
            },
            Technology::Tun(t) => Ok(
                (lead.push(ConnectionView { config: t.spec_config(), ..base }), warnings),
            ),
            Technology::Tap(t) => Ok(
                (lead.push(ConnectionView { config: t.spec_config(), ..base }), warnings),
            ),
            Technology::OvsBridge(o) => Ok(
                (self.spec_ovs_connections(lead, base, o, uuids), warnings),
            ),
            Technology::Plain => Ok((lead.push(base), warnings)),
        }
    }

    /// The connections of the interface with the warnings of their
    /// translation, or the reason why there are none.
    ///
    /// The warnings are those of the IP settings, those about unhandled
    /// fields and those of the technology. A port of an open-vswitch bridge
    /// gets a port connection of its own in front, which controls the
    /// connection of the interface; `port_uuid` is its uuid. `uuids` are
    /// the uuids of the connections of the technology, in their order.
    pub open spec fn spec_connections(
        &self,
        settings: MigrationSettings,
        netconfig_dhcp: Option<NetconfigDhcp>,
        port_uuid: u128,
        uuids: Seq<u128>,
    ) -> Result<(Seq<ConnectionView>, Seq<WarningView>), FailureView> {
        match self.spec_ip_config(netconfig_dhcp) {
            Err(e) => Err(e),
            Ok((ip, ip_warnings)) => self.spec_technology_connections(
                settings,
                ip,
                if self.spec_has_ovs_link() {
                    seq![self.spec_ovs_port(port_uuid, None, None)]
                } else {
                    Seq::empty()
                },
                ip_warnings + self.spec_unhandled_warnings(),
                if self.spec_has_ovs_link() {
                    Some(port_uuid)
                } else {
                    None
                },
                uuids,
            ),
        }
    }
}

fn push_connection(connections: &mut Vec<Connection>, c: Connection)
    ensures
        final(connections).deep_view() == old(connections).deep_view().push(c.deep_view()),
{
    let ghost before = connections.deep_view();
    assert(before.len() == connections@.len());
    connections.push(c);
    assert(connections.deep_view() =~= before.push(c.deep_view()));
}

fn append_warnings(warnings: &mut Vec<Warning>, more: Vec<Warning>)
    ensures
        final(warnings).deep_view() == old(warnings).deep_view() + more.deep_view(),
{
    let mut more = more;
    let ghost a = warnings.deep_view();
    let ghost b = more.deep_view();
    assert(a.len() == warnings@.len() && b.len() == more@.len());
    warnings.append(&mut more);
    assert(warnings.deep_view() =~= a + b);
}

fn with_mac(
    connections: Vec<Connection>,
    warnings: Vec<Warning>,
    base: Connection,
    address: &Option<String>,
    config: ConnectionConfig,
) -> (r: Result<ConnectionResult, Failure>)
    ensures
        result_view(r) == spec_with_mac(
            connections.deep_view(),
            warnings.deep_view(),
            base.deep_view(),
            *address,
            config.deep_view(),
        ),
{
    let mut connections = connections;
    let mut base = base;
    match MacAddress::from_setting(address) {
        Some(mac) => {
            base.custom_mac_address = mac;
            base.config = config;
            push_connection(&mut connections, base);
            Ok(ConnectionResult { connections, warnings })
        },
        None => Err(Failure::InvalidMacAddress),
    }
}

fn with_config(
    connections: Vec<Connection>,
    warnings: Vec<Warning>,
    base: Connection,
    config: ConnectionConfig,
) -> (r: ConnectionResult)
    ensures
        r.deep_view() == (
            connections.deep_view().push(
                ConnectionView { config: config.deep_view(), ..base.deep_view() },
            ),
            warnings.deep_view(),
        ),
{
    let mut connections = connections;
    let mut base = base;
    base.config = config;
    push_connection(&mut connections, base);
    ConnectionResult { connections, warnings }
}

fn push_multicast_warning(warnings: &mut Vec<Warning>, multicast: &Option<String>)
    ensures
        final(warnings).deep_view() == old(warnings).deep_view() + multicast_warning(*multicast),
{
    let ghost before = warnings.deep_view();
    assert(before.len() == warnings@.len());
    if multicast.is_some() {
        warnings.push(Warning::InfinibandMulticast);
        assert(warnings.deep_view() =~= before + seq![WarningView::InfinibandMulticast]);
    } else {
        assert(warnings.deep_view() =~= before + Seq::empty());
    }
}

impl Interface {
    fn status(&self, settings: &MigrationSettings) -> (r: Status)
        ensures
            r == self.spec_status(*settings),
    {
        if settings.activate_connections && self.control.mode.autoconnect() {
            Status::Up
        } else {
            Status::Down
        }
    }

    fn base_connection(
        &self,
        settings: &MigrationSettings,
        ip_config: IpConfig,
        uuid: u128,
        controller: Option<u128>,
    ) -> (r: Connection)
        ensures
            r.deep_view() == self.spec_base(*settings, ip_config.deep_view(), uuid, controller),
    {
        let mut c = Connection::with_uuid(uuid);
        c.id = self.name.clone();
        c.interface = Some(self.name.clone());
        c.ip_config = ip_config;
        c.firewall_zone = self.firewall.zone.clone();
        c.mtu = match self.link.mtu {
            Some(m) => m,
            None => 0,
        };
        c.autoconnect = self.control.mode.autoconnect();
        c.status = self.status(settings);
        c.controller = controller;
        c.port_config = match &self.link.port {
            Some(p) => p.to_port_config(),
            None => PortConfig::Unset,
        };
        c
    }

    fn ovs_port(&self, uuid: u128, tag: Option<u16>, controller: Option<u128>) -> (r: Connection)
        ensures
            r.deep_view() == self.spec_ovs_port(uuid, tag, controller),
    {
        let mut c = Connection::with_uuid(uuid);
        c.id = self.to_ovs_port_name();
        c.interface = Some(self.to_ovs_port_name());
        c.autoconnect = self.control.mode.autoconnect();
        c.config = ConnectionConfig::OvsPort(OvsPortConfig { tag });
        c.controller = controller;
        c
    }

    fn ovs_bridge(&self, uuid: u128) -> (r: Connection)
        ensures
            r.deep_view() == self.spec_ovs_bridge(uuid),
    {
        let mut c = Connection::with_uuid(uuid);
        c.id = self.to_ovs_bridge_name();
        c.interface = Some(self.to_ovs_bridge_name());
        c.autoconnect = self.control.mode.autoconnect();
        c.config = ConnectionConfig::OvsBridge(OvsBridgeConfig {  });
        c
    }

    fn network_connection(
        &self,
        settings: &MigrationSettings,
        ip_config: &IpConfig,
        controller: Option<u128>,
        uuid: u128,
        network: &Network,
        index: usize,
        total: usize,
    ) -> (r: Result<(Connection, Vec<Warning>), Failure>)
        ensures
            result_view(r) == self.spec_network_connection(
                *settings,
                ip_config.deep_view(),
                controller,
                uuid,
                *network,
                index as nat,
                total as nat,
            ),
    {
        let (config, warnings) = match network.to_config(settings) {
            Ok(x) => x,
            Err(e) => {
                return Err(e);
            },
        };
        let mut c = self.base_connection(settings, ip_config.duplicate(), uuid, controller);
        if total > 1 {
            c.id.append("-");
            let number = u64_to_string(index as u64);
            c.id.append(number.as_str());
        }
        c.config = config;
        match &network.wpa_eap {
            Some(eap) => {
                match eap.to_ieee_8021x_config() {
                    Ok(x) => {
                        c.ieee_8021x_config = Some(x);
                    },
                    Err(e) => {
                        return Err(e);
                    },
                }
            },
            None => {},
        }
        Ok((c, warnings))
    }

    fn network_connections(
        &self,
        settings: &MigrationSettings,
        ip_config: &IpConfig,
        controller: Option<u128>,
        uuids: &Vec<u128>,
        networks: &Vec<Network>,
        connections: Vec<Connection>,
        warnings: Vec<Warning>,
    ) -> (r: Result<ConnectionResult, Failure>)
        requires
            uuids.len() == networks.len(),
        ensures
            result_view(r) == self.spec_networks_onto(
                *settings,
                ip_config.deep_view(),
                controller,
                uuids@,
                networks@,
                0,
                (connections.deep_view(), warnings.deep_view()),
            ),
    {
        let mut conns = connections;
        let mut warns = warnings;
        let mut i: usize = 0;
        while i < networks.len()
            invariant
                i <= networks.len(),
                uuids.len() == networks.len(),
                self.spec_networks_onto(
                    *settings,
                    ip_config.deep_view(),
                    controller,
                    uuids@,
                    networks@,
                    0,
                    (connections.deep_view(), warnings.deep_view()),
                ) == self.spec_networks_onto(
                    *settings,
                    ip_config.deep_view(),
                    controller,
                    uuids@,
                    networks@,
                    i as nat,
                    (conns.deep_view(), warns.deep_view()),
                ),
            decreases networks.len() - i,
        {
            match self.network_connection(
                settings,
                ip_config,
                controller,
                uuids[i],
                &networks[i],
                i,
                networks.len(),
            ) {
                Ok((c, more)) => {
                    push_connection(&mut conns, c);
                    append_warnings(&mut warns, more);
                },
                Err(e) => {
                    return Err(e);
                },
            }
            i = i + 1;
        }
        Ok(ConnectionResult { connections: conns, warnings: warns })
    }

    fn ovs_connections(
        &self,
        connections: Vec<Connection>,
        base: Connection,
        ovs: &OvsBridge,
        uuids: &Vec<u128>,
    ) -> (r: Vec<Connection>)
        requires
            uuids.len() == if ovs.vlan is Some {
                2int
            } else {
                3int
            },
        ensures
            r.deep_view() == self.spec_ovs_connections(
                connections.deep_view(),
                base.deep_view(),
                *ovs,
                uuids@,
            ),
    {
        let mut connections = connections;
        let mut base = base;
        base.config = ConnectionConfig::OvsInterface(
            OvsInterfaceConfig { interface_type: OvsInterfaceType::Internal },
        );
        match &ovs.vlan {
            Some(vlan) => {
                push_connection(&mut connections, self.ovs_port(uuids[0], Some(vlan.tag), None));
                base.uuid = uuids[1];
                base.controller = Some(uuids[0]);
                push_connection(&mut connections, base);
            },
            None => {
                push_connection(&mut connections, self.ovs_bridge(uuids[0]));
                push_connection(&mut connections, self.ovs_port(uuids[1], None, Some(uuids[0])));
                base.uuid = uuids[2];
                base.controller = Some(uuids[1]);
                push_connection(&mut connections, base);
            },
        }
        connections
    }

    fn technology_connections(
        &self,
        settings: &MigrationSettings,
        ip_config: IpConfig,
        connections: Vec<Connection>,
        warnings: Vec<Warning>,
        controller: Option<u128>,
        uuids: &Vec<u128>,
    ) -> (r: Result<ConnectionResult, Failure>)
        requires
            uuids.len() == self.spec_technology_count(),
        ensures
            result_view(r) == self.spec_technology_connections(
                *settings,
                ip_config.deep_view(),
                connections.deep_view(),
                warnings.deep_view(),
                controller,
                uuids@,
            ),
    {
        let mut conns = connections;
        let mut warns = warnings;
        match &self.ethernet {
            Some(e) => {
                let base = self.base_connection(settings, ip_config, uuids[0], controller);
                return with_mac(conns, warns, base, &e.address, ConnectionConfig::Ethernet);
            },
            None => {},
        }
        match &self.dummy {
            Some(d) => {
                let base = self.base_connection(settings, ip_config, uuids[0], controller);
                return with_mac(conns, warns, base, &d.address, ConnectionConfig::Dummy);
            },
            None => {},
        }
        match &self.bond {
            Some(b) => {
                let base = self.base_connection(settings, ip_config, uuids[0], controller);
                return with_mac(conns, warns, base, &b.address, b.to_config());
            },
            None => {},
        }
        match &self.vlan {
            Some(v) => {
                let base = self.base_connection(settings, ip_config, uuids[0], controller);
                return with_mac(conns, warns, base, &v.address, v.to_config());
            },
            None => {},
        }
        match &self.bridge {
            Some(b) => {
                let base = self.base_connection(settings, ip_config, uuids[0], controller);
                return with_mac(conns, warns, base, &b.address, b.to_config());
            },
            None => {},
        }
        match &self.wireless {
            Some(w) => {
                return match &w.networks {
                    Some(networks) => self.network_connections(
                        settings,
                        &ip_config,
                        controller,
                        uuids,
                        networks,
                        conns,
                        warns,
                    ),
                    None => Ok(ConnectionResult { connections: conns, warnings: warns }),
                };
            },
            None => {},
        }
        match &self.infiniband {
            Some(i) => {
                return match i.to_config() {
                    Some(config) => {
                        push_multicast_warning(&mut warns, &i.multicast);
                        let base = self.base_connection(settings, ip_config, uuids[0], controller);
                        Ok(with_config(conns, warns, base, config))
                    },
                    None => Err(Failure::InvalidInfinibandMode),
                };
            },
            None => {},
        }
        match &self.infiniband_child {
            Some(i) => {
                return match i.to_config() {
                    Some(config) => {
                        push_multicast_warning(&mut warns, &i.multicast);
                        let base = self.base_connection(settings, ip_config, uuids[0], controller);
                        Ok(with_config(conns, warns, base, config))
                    },
                    None => Err(Failure::InvalidInfinibandMode),
                };
            },
            None => {},
        }
        match &self.tun {
            Some(t) => {
                let base = self.base_connection(settings, ip_config, uuids[0], controller);
                return Ok(with_config(conns, warns, base, t.to_config()));
            },
            None => {},
        }
        match &self.tap {
            Some(t) => {
                let base = self.base_connection(settings, ip_config, uuids[0], controller);
                return Ok(with_config(conns, warns, base, t.to_config()));
            },
            None => {},
        }
        let base = self.base_connection(settings, ip_config, uuids[0], controller);
        match &self.ovs_bridge {
            Some(o) => {
                let conns = self.ovs_connections(conns, base, o, uuids);
                Ok(ConnectionResult { connections: conns, warnings: warns })
            },
            None => {
                push_connection(&mut conns, base);
                Ok(ConnectionResult { connections: conns, warnings: warns })
            },
        }
    }

    /// Translates the interface with the uuids given: `port_uuid` for the
    /// port connection that a port of an open-vswitch bridge gets in front
    /// of its own, `uuids` for the connections of the technology.
    pub fn to_connection_with_uuids(
        &self,
        settings: &MigrationSettings,
        netconfig_dhcp: &Option<NetconfigDhcp>,
        port_uuid: u128,
        uuids: &Vec<u128>,
    ) -> (r: Result<ConnectionResult, Failure>)
        requires
            uuids.len() == self.spec_technology_count(),
        ensures
            result_view(r) == self.spec_connections(
                *settings,
                *netconfig_dhcp,
                port_uuid,
                uuids@,
            ),
            r is Ok ==> addresses_ok(r.unwrap().connections.deep_view()),
            r is Ok && all_differ(seq![port_uuid] + uuids@) ==> distinct_uuids(
                r.unwrap().connections.deep_view(),
            ),
    {
        let (ip_config, mut warnings) = match self.to_ip_config(netconfig_dhcp) {
            Ok(x) => (x.ip_config, x.warnings),
            Err(e) => {
                return Err(e);
            },
        };
        proof {
            if self.spec_connections(*settings, *netconfig_dhcp, port_uuid, uuids@) is Ok {
                lemma_translation_addresses_ok(
                    *self,
                    *settings,
                    *netconfig_dhcp,
                    port_uuid,
                    uuids@,
                );
                if all_differ(seq![port_uuid] + uuids@) {
                    lemma_translation_distinct(
                        *self,
                        *settings,
                        *netconfig_dhcp,
                        port_uuid,
                        uuids@,
                    );
                }
            }
        }
        append_warnings(&mut warnings, self.unhandled_warnings());
        let mut connections: Vec<Connection> = Vec::new();
        assert(connections.deep_view() =~= Seq::empty());
        let mut controller: Option<u128> = None;
        match &self.link.port {
            Some(port) => match port.port_type {
                LinkPortType::OvsBridge => {
                    push_connection(&mut connections, self.ovs_port(port_uuid, None, None));
                    assert(connections.deep_view() =~= seq![self.spec_ovs_port(port_uuid, None, None)]);
                    controller = Some(port_uuid);
                },
                _ => {},
            },
            None => {},
        }
        self.technology_connections(settings, ip_config, connections, warnings, controller, uuids)
    }

    /// Translates the interface into its connections, each with a uuid of
    /// its own.
    ///
    /// The uuids are drawn at random, and drawn again where one comes up
    /// twice; should that not help, the translation fails. That cannot be
    /// where the technology gives no connection: one uuid is drawn then,
    /// and nothing can come up twice. What comes back
    /// else is what `spec_connections` describes for uuids that all differ:
    /// the IP settings, the MAC address override, firewall zone, MTU and
    /// start mode of the record, and the settings of its technology. A
    /// wireless interface gives one connection for each of its networks,
    /// an open-vswitch bridge two or three.
    pub fn to_connection(
        &self,
        settings: &MigrationSettings,
        netconfig_dhcp: &Option<NetconfigDhcp>,
    ) -> (r: Result<ConnectionResult, Failure>)
        ensures
            result_view(r) == Err::<(Seq<ConnectionView>, Seq<WarningView>), FailureView>(
                FailureView::DuplicateUuid,
            ) || exists|port_uuid: u128, uuids: Seq<u128>|
                uuids.len() == self.spec_technology_count() && all_differ(seq![port_uuid] + uuids)
                    && result_view(r) == #[trigger] self.spec_connections(
                    *settings,
                    *netconfig_dhcp,
                    port_uuid,
                    uuids,
                ),
            self.spec_technology_count() == 0 ==> !is_duplicate(result_view(r)),
            r is Ok ==> addresses_ok(r.unwrap().connections.deep_view()),
            r is Ok ==> distinct_uuids(r.unwrap().connections.deep_view()),
    {
        let count = self.technology_count();
        match draw_uuids(count) {
            Some(drawn) => {
                proof {
                    lemma_translation_failure(
                        *self,
                        *settings,
                        *netconfig_dhcp,
                        drawn@[0],
                        drawn@.skip(1),
                    );
                }
                assert(drawn@[0] == (seq![drawn@[0]] + drawn@.skip(1))[0]);
                let port_uuid = drawn[0];
                let mut uuids = drawn;
                uuids.remove(0);
                assert(seq![port_uuid] + uuids@ =~= drawn@);
                self.to_connection_with_uuids(settings, netconfig_dhcp, port_uuid, &uuids)
            },
            None => Err(Failure::DuplicateUuid),
        }
    }
}

/// How often a uuid is drawn again where it comes up a second time.
pub const MAX_DRAWS: usize = 16;

fn is_taken(taken: &Vec<u128>, uuid: u128) -> (r: bool)
    ensures
        r == taken@.contains(uuid),
{
    let mut i: usize = 0;
    while i < taken.len()
        invariant
            i <= taken.len(),
            forall|k: int| 0 <= k < i ==> taken@[k] != uuid,
        decreases taken.len() - i,
    {
        if taken[i] == uuid {
            return true;
        }
        i = i + 1;
    }
    false
}

/// Draws one more uuid than `count`, all different; `None` where a uuid
/// came up twice as often as it was drawn again, which cannot be where
/// `count` is zero.
fn draw_uuids(count: usize) -> (r: Option<Vec<u128>>)
    ensures
        r is Some ==> r.unwrap()@.len() == count + 1 && all_differ(r.unwrap()@),
        count == 0 ==> r is Some,
{
    let mut drawn: Vec<u128> = Vec::new();
    drawn.push(fresh_uuid());
    let mut i: usize = 0;
    while i < count
        invariant
            i <= count,
            drawn@.len() == i + 1,
            all_differ(drawn@),
        decreases count - i,
    {
        let mut uuid = fresh_uuid();
        let mut draws: usize = 0;
        while draws < MAX_DRAWS && is_taken(&drawn, uuid)
            invariant
                draws <= MAX_DRAWS,
            decreases MAX_DRAWS - draws,
        {
            uuid = fresh_uuid();
            draws = draws + 1;
        }
        if is_taken(&drawn, uuid) {
            return None;
        }
        drawn.push(uuid);
        i = i + 1;
    }
    Some(drawn)
}

} // verus!
