//! The connection model that the migration produces.
//!
//! Each type that owns text has a mathematical counterpart (its deep view)
//! in which strings are sequences of characters and vectors are sequences;
//! the contracts of the translators are stated over these.

use vstd::prelude::*;
use crate::ip::{IpAddress, IpInet};
use crate::mac::{MacAddr6, MacAddress};

verus! {

/// Whether a connection is to be brought up.
#[derive(Clone, Copy, Debug, PartialEq, Eq, Structural)]
pub enum Status {
    Up,
    Down,
}

#[derive(Clone, Copy, Debug, PartialEq, Eq, Structural)]
pub enum Ipv4Method {
    Disabled,
    Auto,
    Manual,
    LinkLocal,
}

#[derive(Clone, Copy, Debug, PartialEq, Eq, Structural)]
pub enum Ipv6Method {
    Disabled,
    Auto,
    Manual,
    LinkLocal,
    Ignore,
    Dhcp,
}

#[derive(Clone, Copy, Debug, PartialEq, Eq, Structural)]
pub enum DhcpClientId {
    Mac,
    PermMac,
    Ipv6Duid,
    Duid,
    Stable,
    NoId,
    Unset,
}

#[derive(Clone, Copy, Debug, PartialEq, Eq, Structural)]
pub enum DhcpIaid {
    Mac,
    PermMac,
    Ifname,
    Stable,
    Unset,
}

#[derive(Clone, Copy, Debug, PartialEq, Eq, Structural)]
pub enum DhcpDuid {
    Lease,
    Llt,
    Ll,
    StableLlt,
    StableLl,
    StableUuid,
    Unset,
}

/// A static route.
#[derive(Clone, Copy, Debug, PartialEq, Eq, Structural)]
pub struct IpRoute {
    pub destination: IpInet,
    pub next_hop: Option<IpAddress>,
    pub metric: Option<u32>,
}

#[derive(Clone, Debug, PartialEq, Eq)]
pub struct Dhcp4Settings {
    pub send_hostname: Option<bool>,
    pub hostname: Option<String>,
    pub send_release: Option<bool>,
    pub client_id: DhcpClientId,
    pub iaid: DhcpIaid,
}

pub ghost struct Dhcp4SettingsView {
    pub send_hostname: Option<bool>,
    pub hostname: Option<Seq<char>>,
    pub send_release: Option<bool>,
    pub client_id: DhcpClientId,
    pub iaid: DhcpIaid,
}

impl DeepView for Dhcp4Settings {
    type V = Dhcp4SettingsView;

    open spec fn deep_view(&self) -> Dhcp4SettingsView {
        Dhcp4SettingsView {
            send_hostname: self.send_hostname,
            hostname: self.hostname.deep_view(),
            send_release: self.send_release,
            client_id: self.client_id,
            iaid: self.iaid,
        }
    }
}

impl Dhcp4SettingsView {
    /// Nothing asked of the DHCP client.
    pub open spec fn unset() -> Self {
        Dhcp4SettingsView {
            send_hostname: None,
            hostname: None,
            send_release: None,
            client_id: DhcpClientId::Unset,
            iaid: DhcpIaid::Unset,
        }
    }
}

impl Default for Dhcp4Settings {
    fn default() -> (r: Self)
        ensures
            r.deep_view() == Dhcp4SettingsView::unset(),
    {
        Dhcp4Settings {
            send_hostname: None,
            hostname: None,
            send_release: None,
            client_id: DhcpClientId::Unset,
            iaid: DhcpIaid::Unset,
        }
    }
}


#[derive(Clone, Debug, PartialEq, Eq)]
pub struct Dhcp6Settings {
    pub send_hostname: Option<bool>,
    pub hostname: Option<String>,
    pub send_release: Option<bool>,
    pub duid: DhcpDuid,
    pub iaid: DhcpIaid,
}

pub ghost struct Dhcp6SettingsView {
    pub send_hostname: Option<bool>,
    pub hostname: Option<Seq<char>>,
    pub send_release: Option<bool>,
    pub duid: DhcpDuid,
    pub iaid: DhcpIaid,
}

impl DeepView for Dhcp6Settings {
    type V = Dhcp6SettingsView;

    open spec fn deep_view(&self) -> Dhcp6SettingsView {
        Dhcp6SettingsView {
            send_hostname: self.send_hostname,
            hostname: self.hostname.deep_view(),
            send_release: self.send_release,
            duid: self.duid,
            iaid: self.iaid,
        }
    }
}

impl Dhcp6SettingsView {
    /// Nothing asked of the DHCPv6 client.
    pub open spec fn unset() -> Self {
        Dhcp6SettingsView {
            send_hostname: None,
            hostname: None,
            send_release: None,
            duid: DhcpDuid::Unset,
            iaid: DhcpIaid::Unset,
        }
    }
}

impl Default for Dhcp6Settings {
    fn default() -> (r: Self)
        ensures
            r.deep_view() == Dhcp6SettingsView::unset(),
    {
        Dhcp6Settings {
            send_hostname: None,
            hostname: None,
            send_release: None,
            duid: DhcpDuid::Unset,
            iaid: DhcpIaid::Unset,
        }
    }
}

/// The IP settings of a connection.
#[derive(Clone, Debug, PartialEq, Eq)]
pub struct IpConfig {
    pub method4: Ipv4Method,
    pub method6: Ipv6Method,
    pub addresses: Vec<IpInet>,
    pub nameservers: Vec<IpAddress>,
    pub dns_searchlist: Vec<String>,
    pub ignore_auto_dns: bool,
    pub routes4: Vec<IpRoute>,
    pub routes6: Vec<IpRoute>,
    pub dhcp4_settings: Option<Dhcp4Settings>,
    pub dhcp6_settings: Option<Dhcp6Settings>,
    pub ip6_privacy: Option<i32>,
    pub dns_priority4: Option<i32>,
    pub dns_priority6: Option<i32>,
}

pub ghost struct IpConfigView {
    pub method4: Ipv4Method,
    pub method6: Ipv6Method,
    pub addresses: Seq<IpInet>,
    pub nameservers: Seq<IpAddress>,
    pub dns_searchlist: Seq<Seq<char>>,
    pub ignore_auto_dns: bool,
    pub routes4: Seq<IpRoute>,
    pub routes6: Seq<IpRoute>,
    pub dhcp4_settings: Option<Dhcp4SettingsView>,
    pub dhcp6_settings: Option<Dhcp6SettingsView>,
    pub ip6_privacy: Option<i32>,
    pub dns_priority4: Option<i32>,
    pub dns_priority6: Option<i32>,
}

impl DeepView for IpConfig {
    type V = IpConfigView;

    open spec fn deep_view(&self) -> IpConfigView {
        IpConfigView {
            method4: self.method4,
            method6: self.method6,
            addresses: self.addresses@,
            nameservers: self.nameservers@,
            dns_searchlist: self.dns_searchlist.deep_view(),
            ignore_auto_dns: self.ignore_auto_dns,
            routes4: self.routes4@,
            routes6: self.routes6@,
            dhcp4_settings: self.dhcp4_settings.deep_view(),
            dhcp6_settings: self.dhcp6_settings.deep_view(),
            ip6_privacy: self.ip6_privacy,
            dns_priority4: self.dns_priority4,
            dns_priority6: self.dns_priority6,
        }
    }
}

impl IpConfigView {
    /// No protocol enabled, nothing configured.
    pub open spec fn blank() -> Self {
        IpConfigView {
            method4: Ipv4Method::Disabled,
            method6: Ipv6Method::Disabled,
            addresses: Seq::empty(),
            nameservers: Seq::empty(),
            dns_searchlist: Seq::empty(),
            ignore_auto_dns: false,
            routes4: Seq::empty(),
            routes6: Seq::empty(),
            dhcp4_settings: None,
            dhcp6_settings: None,
            ip6_privacy: None,
            dns_priority4: None,
            dns_priority6: None,
        }
    }

    /// Every address and every route destination has a prefix length that
    /// fits its family.
    pub open spec fn wf(&self) -> bool {
        &&& forall|i: int| 0 <= i < self.addresses.len() ==> (#[trigger] self.addresses[i]).wf()
        &&& forall|i: int| 0 <= i < self.routes4.len() ==> (#[trigger] self.routes4[i]).destination.wf()
        &&& forall|i: int| 0 <= i < self.routes6.len() ==> (#[trigger] self.routes6[i]).destination.wf()
    }
}

impl IpConfig {
    /// A copy of the settings.
    pub fn duplicate(&self) -> (r: IpConfig)
        ensures
            r.deep_view() == self.deep_view(),
    {
        let dhcp4_settings = match &self.dhcp4_settings {
            Some(d) => Some(
                Dhcp4Settings {
                    send_hostname: d.send_hostname,
                    hostname: d.hostname.clone(),
                    send_release: d.send_release,
                    client_id: d.client_id,
                    iaid: d.iaid,
                },
            ),
            None => None,
        };
        let dhcp6_settings = match &self.dhcp6_settings {
            Some(d) => Some(
                Dhcp6Settings {
                    send_hostname: d.send_hostname,
                    hostname: d.hostname.clone(),
                    send_release: d.send_release,
                    duid: d.duid,
                    iaid: d.iaid,
                },
            ),
            None => None,
        };
        let dns_searchlist = self.dns_searchlist.clone();
        assert(dns_searchlist.deep_view() =~= self.dns_searchlist.deep_view());
        let addresses = self.addresses.clone();
        let nameservers = self.nameservers.clone();
        let routes4 = self.routes4.clone();
        let routes6 = self.routes6.clone();
        assert(addresses@ =~= self.addresses@);
        assert(nameservers@ =~= self.nameservers@);
        assert(routes4@ =~= self.routes4@);
        assert(routes6@ =~= self.routes6@);
        IpConfig {
            method4: self.method4,
            method6: self.method6,
            addresses,
            nameservers,
            dns_searchlist,
            ignore_auto_dns: self.ignore_auto_dns,
            routes4,
            routes6,
            dhcp4_settings,
            dhcp6_settings,
            ip6_privacy: self.ip6_privacy,
            dns_priority4: self.dns_priority4,
            dns_priority6: self.dns_priority6,
        }
    }
}

impl Default for IpConfig {
    fn default() -> (r: Self)
        ensures
            r.deep_view() == IpConfigView::blank(),
    {
        let r = IpConfig {
            method4: Ipv4Method::Disabled,
            method6: Ipv6Method::Disabled,
            addresses: Vec::new(),
            nameservers: Vec::new(),
            dns_searchlist: Vec::new(),
            ignore_auto_dns: false,
            routes4: Vec::new(),
            routes6: Vec::new(),
            dhcp4_settings: None,
            dhcp6_settings: None,
            ip6_privacy: None,
            dns_priority4: None,
            dns_priority6: None,
        };
        assert(r.dns_searchlist.deep_view() =~= Seq::empty());
        r
    }
}

/// How a bond spreads traffic over its ports.
#[derive(Clone, Copy, Debug, PartialEq, Eq, Structural)]
pub enum BondMode {
    RoundRobin,
    ActiveBackup,
    BalanceXOR,
    Broadcast,
    LACP,
    BalanceTLB,
    BalanceALB,
}

/// Bond tuning options by name, in the order in which they were set.
/// No name occurs twice.
#[derive(Clone, Debug, PartialEq, Eq)]
pub struct BondOptions(pub Vec<(String, String)>);

#[derive(Clone, Debug, PartialEq, Eq)]
pub struct BondConfig {
    pub mode: BondMode,
    pub options: BondOptions,
}

pub ghost struct BondConfigView {
    pub mode: BondMode,
    pub options: Seq<(Seq<char>, Seq<char>)>,
}

impl DeepView for BondOptions {
    type V = Seq<(Seq<char>, Seq<char>)>;

    open spec fn deep_view(&self) -> Seq<(Seq<char>, Seq<char>)> {
        self.0.deep_view()
    }
}

impl DeepView for BondConfig {
    type V = BondConfigView;

    open spec fn deep_view(&self) -> BondConfigView {
        BondConfigView { mode: self.mode, options: self.options.deep_view() }
    }
}

/// The value that the first entry named `key` gives, if there is one.
pub open spec fn option_value(options: Seq<(Seq<char>, Seq<char>)>, key: Seq<char>) -> Option<
    Seq<char>,
>
    decreases options.len(),
{
    if options.len() == 0 {
        None
    } else if options[0].0 == key {
        Some(options[0].1)
    } else {
        option_value(options.drop_first(), key)
    }
}

impl BondOptions {
    /// The value set for `key`, if any.
    pub fn get(&self, key: &str) -> (r: Option<&String>)
        ensures
            r.deep_view() == option_value(self.deep_view(), key@),
    {
        let mut i: usize = 0;
        assert(self.deep_view().skip(0) =~= self.deep_view());
        while i < self.0.len()
            invariant
                i <= self.0.len(),
                option_value(self.deep_view(), key@) == option_value(
                    self.deep_view().skip(i as int),
                    key@,
                ),
            decreases self.0.len() - i,
        {
            proof {
                let rest = self.deep_view().skip(i as int);
                assert(rest[0] == self.0[i as int].deep_view());
                assert(rest.drop_first() =~= self.deep_view().skip(i + 1));
            }
            if crate::text::str_eq(self.0[i].0.as_str(), key) {
                return Some(&self.0[i].1);
            }
            i = i + 1;
        }
        None
    }
}

#[allow(non_camel_case_types)]
#[derive(Clone, Copy, Debug, PartialEq, Eq, Structural)]
pub enum VlanProtocol {
    IEEE802_1Q,
    IEEE802_1ad,
}

#[derive(Clone, Debug, PartialEq, Eq)]
pub struct VlanConfig {
    pub parent: String,
    pub id: u32,
    pub protocol: VlanProtocol,
}

pub ghost struct VlanConfigView {
    pub parent: Seq<char>,
    pub id: u32,
    pub protocol: VlanProtocol,
}

impl DeepView for VlanConfig {
    type V = VlanConfigView;

    open spec fn deep_view(&self) -> VlanConfigView {
        VlanConfigView { parent: self.parent@, id: self.id, protocol: self.protocol }
    }
}

/// Bridge settings; the timers are in whole seconds.
#[derive(Clone, Copy, Debug, PartialEq, Eq, Structural)]
pub struct BridgeConfig {
    pub stp: Option<bool>,
    pub priority: Option<u32>,
    pub forward_delay: Option<u32>,
    pub hello_time: Option<u32>,
    pub max_age: Option<u32>,
    pub ageing_time: Option<u32>,
}

#[derive(Clone, Copy, Debug, PartialEq, Eq, Structural)]
pub enum InfinibandTransportMode {
    Datagram,
    Connected,
}

#[derive(Clone, Debug, PartialEq, Eq)]
pub struct InfinibandConfig {
    pub p_key: Option<i32>,
    pub parent: Option<String>,
    pub transport_mode: InfinibandTransportMode,
}

pub ghost struct InfinibandConfigView {
    pub p_key: Option<i32>,
    pub parent: Option<Seq<char>>,
    pub transport_mode: InfinibandTransportMode,
}

impl DeepView for InfinibandConfig {
    type V = InfinibandConfigView;

    open spec fn deep_view(&self) -> InfinibandConfigView {
        InfinibandConfigView {
            p_key: self.p_key,
            parent: self.parent.deep_view(),
            transport_mode: self.transport_mode,
        }
    }
}

#[derive(Clone, Copy, Debug, PartialEq, Eq, Structural)]
pub enum TunMode {
    Tun,
    Tap,
}

#[derive(Clone, Debug, PartialEq, Eq)]
pub struct TunConfig {
    pub mode: TunMode,
    pub group: Option<String>,
    pub owner: Option<String>,
}

pub ghost struct TunConfigView {
    pub mode: TunMode,
    pub group: Option<Seq<char>>,
    pub owner: Option<Seq<char>>,
}

impl DeepView for TunConfig {
    type V = TunConfigView;

    open spec fn deep_view(&self) -> TunConfigView {
        TunConfigView {
            mode: self.mode,
            group: self.group.deep_view(),
            owner: self.owner.deep_view(),
        }
    }
}

#[derive(Clone, Copy, Debug, PartialEq, Eq, Structural)]
pub struct OvsBridgeConfig {}

/// An open-vswitch port; `tag` is the VLAN tag of a fake bridge.
#[derive(Clone, Copy, Debug, PartialEq, Eq, Structural)]
pub struct OvsPortConfig {
    pub tag: Option<u16>,
}

#[derive(Clone, Copy, Debug, PartialEq, Eq, Structural)]
pub enum OvsInterfaceType {
    Internal,
    System,
}

#[derive(Clone, Copy, Debug, PartialEq, Eq, Structural)]
pub struct OvsInterfaceConfig {
    pub interface_type: OvsInterfaceType,
}

#[derive(Clone, Copy, Debug, PartialEq, Eq, Structural)]
pub struct BridgePortConfig {
    pub priority: Option<u32>,
    pub path_cost: Option<u32>,
}

#[derive(Clone, Copy, Debug, PartialEq, Eq, Structural)]
pub struct OvsBridgePortConfig {}

/// How a connection behaves as a port of its controller.
#[derive(Clone, Copy, Debug, PartialEq, Eq, Structural)]
pub enum PortConfig {
    Unset,
    Bridge(BridgePortConfig),
    OvsBridge(OvsBridgePortConfig),
}

#[derive(Clone, Copy, Debug, PartialEq, Eq, Structural)]
pub enum WirelessMode {
    Unset,
    AdHoc,
    Infra,
    AP,
    Mesh,
}

#[derive(Clone, Copy, Debug, PartialEq, Eq, Structural)]
pub enum SecurityProtocol {
    WEP,
    OWE,
    DynamicWEP,
    WPA2,
    WPA3Personal,
    WPA2Enterprise,
    WPA3Only,
}

#[derive(Clone, Copy, Debug, PartialEq, Eq, Structural)]
pub enum WirelessBand {
    /// 5 GHz.
    A,
    /// 2.4 GHz.
    BG,
}

impl SecurityProtocol {
    pub open spec fn spec_name(&self) -> Seq<char> {
        match self {
            SecurityProtocol::WEP => "none"@,
            SecurityProtocol::OWE => "owe"@,
            SecurityProtocol::DynamicWEP => "ieee8021x"@,
            SecurityProtocol::WPA2 => "wpa-psk"@,
            SecurityProtocol::WPA3Personal => "sae"@,
            SecurityProtocol::WPA2Enterprise => "wpa-eap"@,
            SecurityProtocol::WPA3Only => "wpa-eap-suite-b-192"@,
        }
    }

    /// The key-management keyword that stands for the protocol.
    pub fn name(&self) -> (r: &'static str)
        ensures
            r@ == self.spec_name(),
    {
        match self {
            SecurityProtocol::WEP => "none",
            SecurityProtocol::OWE => "owe",
            SecurityProtocol::DynamicWEP => "ieee8021x",
            SecurityProtocol::WPA2 => "wpa-psk",
            SecurityProtocol::WPA3Personal => "sae",
            SecurityProtocol::WPA2Enterprise => "wpa-eap",
            SecurityProtocol::WPA3Only => "wpa-eap-suite-b-192",
        }
    }
}

impl WirelessBand {
    pub open spec fn spec_name(&self) -> Seq<char> {
        match self {
            WirelessBand::A => "a"@,
            WirelessBand::BG => "bg"@,
        }
    }

    /// The short name of the band, `a` or `bg`.
    pub fn name(&self) -> (r: &'static str)
        ensures
            r@ == self.spec_name(),
    {
        match self {
            WirelessBand::A => "a",
            WirelessBand::BG => "bg",
        }
    }
}

#[derive(Clone, Copy, Debug, PartialEq, Eq, Structural)]
pub enum WEPKeyType {
    Unset,
    Key,
    Passphrase,
}

#[derive(Clone, Copy, Debug, PartialEq, Eq, Structural)]
pub enum WEPAuthAlg {
    Unset,
    Open,
    Shared,
    Leap,
}

#[derive(Clone, Copy, Debug, PartialEq, Eq, Structural)]
pub enum WPAProtocolVersion {
    Wpa,
    Rsn,
}

#[derive(Clone, Copy, Debug, PartialEq, Eq, Structural)]
pub enum PairwiseAlgorithm {
    Tkip,
    Ccmp,
}

#[derive(Clone, Copy, Debug, PartialEq, Eq, Structural)]
pub enum GroupAlgorithm {
    Wep40,
    Wep104,
    Tkip,
    Ccmp,
}

#[derive(Clone, Copy, Debug, PartialEq, Eq, Structural)]
pub enum EAPMethod {
    LEAP,
    MD5,
    TLS,
    PEAP,
    TTLS,
    PWD,
    FAST,
}

#[derive(Clone, Copy, Debug, PartialEq, Eq, Structural)]
pub enum Phase2AuthMethod {
    PAP,
    CHAP,
    MSCHAP,
    MSCHAPV2,
    GTC,
    OTP,
    MD5,
    TLS,
}

#[derive(Clone, Debug, PartialEq, Eq)]
pub struct WEPSecurity {
    pub auth_alg: WEPAuthAlg,
    pub wep_key_type: WEPKeyType,
    pub keys: Vec<String>,
    pub wep_key_index: u32,
}

pub ghost struct WEPSecurityView {
    pub auth_alg: WEPAuthAlg,
    pub wep_key_type: WEPKeyType,
    pub keys: Seq<Seq<char>>,
    pub wep_key_index: u32,
}

impl DeepView for WEPSecurity {
    type V = WEPSecurityView;

    open spec fn deep_view(&self) -> WEPSecurityView {
        WEPSecurityView {
            auth_alg: self.auth_alg,
            wep_key_type: self.wep_key_type,
            keys: self.keys.deep_view(),
            wep_key_index: self.wep_key_index,
        }
    }
}

#[derive(Clone, Debug, PartialEq, Eq)]
pub struct WirelessConfig {
    pub mode: WirelessMode,
    pub ssid: Vec<u8>,
    pub password: Option<String>,
    pub security: SecurityProtocol,
    pub band: Option<WirelessBand>,
    pub channel: u32,
    pub bssid: Option<MacAddr6>,
    pub wep_security: Option<WEPSecurity>,
    pub hidden: bool,
    pub group_algorithms: Vec<GroupAlgorithm>,
    pub pairwise_algorithms: Vec<PairwiseAlgorithm>,
    pub wpa_protocol_versions: Vec<WPAProtocolVersion>,
    pub pmf: i32,
}

pub ghost struct WirelessConfigView {
    pub mode: WirelessMode,
    pub ssid: Seq<u8>,
    pub password: Option<Seq<char>>,
    pub security: SecurityProtocol,
    pub band: Option<WirelessBand>,
    pub channel: u32,
    pub bssid: Option<MacAddr6>,
    pub wep_security: Option<WEPSecurityView>,
    pub hidden: bool,
    pub group_algorithms: Seq<GroupAlgorithm>,
    pub pairwise_algorithms: Seq<PairwiseAlgorithm>,
    pub wpa_protocol_versions: Seq<WPAProtocolVersion>,
    pub pmf: i32,
}

impl DeepView for WirelessConfig {
    type V = WirelessConfigView;

    open spec fn deep_view(&self) -> WirelessConfigView {
        WirelessConfigView {
            mode: self.mode,
            ssid: self.ssid@,
            password: self.password.deep_view(),
            security: self.security,
            band: self.band,
            channel: self.channel,
            bssid: self.bssid,
            wep_security: self.wep_security.deep_view(),
            hidden: self.hidden,
            group_algorithms: self.group_algorithms@,
            pairwise_algorithms: self.pairwise_algorithms@,
            wpa_protocol_versions: self.wpa_protocol_versions@,
            pmf: self.pmf,
        }
    }
}

/// 802.1X (enterprise) authentication settings.
#[derive(Clone, Debug, PartialEq, Eq)]
pub struct IEEE8021XConfig {
    pub eap: Vec<EAPMethod>,
    pub phase2_auth: Option<Phase2AuthMethod>,
    pub identity: Option<String>,
    pub password: Option<String>,
    pub ca_cert: Option<String>,
    pub ca_cert_password: Option<String>,
    pub client_cert: Option<String>,
    pub client_cert_password: Option<String>,
    pub private_key: Option<String>,
    pub private_key_password: Option<String>,
    pub anonymous_identity: Option<String>,
    pub peap_version: Option<String>,
    pub peap_label: bool,
}

pub ghost struct IEEE8021XConfigView {
    pub eap: Seq<EAPMethod>,
    pub phase2_auth: Option<Phase2AuthMethod>,
    pub identity: Option<Seq<char>>,
    pub password: Option<Seq<char>>,
    pub ca_cert: Option<Seq<char>>,
    pub ca_cert_password: Option<Seq<char>>,
    pub client_cert: Option<Seq<char>>,
    pub client_cert_password: Option<Seq<char>>,
    pub private_key: Option<Seq<char>>,
    pub private_key_password: Option<Seq<char>>,
    pub anonymous_identity: Option<Seq<char>>,
    pub peap_version: Option<Seq<char>>,
    pub peap_label: bool,
}

impl DeepView for IEEE8021XConfig {
    type V = IEEE8021XConfigView;

    open spec fn deep_view(&self) -> IEEE8021XConfigView {
        IEEE8021XConfigView {
            eap: self.eap@,
            phase2_auth: self.phase2_auth,
            identity: self.identity.deep_view(),
            password: self.password.deep_view(),
            ca_cert: self.ca_cert.deep_view(),
            ca_cert_password: self.ca_cert_password.deep_view(),
            client_cert: self.client_cert.deep_view(),
            client_cert_password: self.client_cert_password.deep_view(),
            private_key: self.private_key.deep_view(),
            private_key_password: self.private_key_password.deep_view(),
            anonymous_identity: self.anonymous_identity.deep_view(),
            peap_version: self.peap_version.deep_view(),
            peap_label: self.peap_label,
        }
    }
}

/// The technology-specific part of a connection.
#[derive(Clone, Debug, PartialEq, Eq)]
pub enum ConnectionConfig {
    Ethernet,
    Wireless(WirelessConfig),
    Loopback,
    Dummy,
    Bond(BondConfig),
    Vlan(VlanConfig),
    Bridge(BridgeConfig),
    Infiniband(InfinibandConfig),
    Tun(TunConfig),
    OvsBridge(OvsBridgeConfig),
    OvsPort(OvsPortConfig),
    OvsInterface(OvsInterfaceConfig),
}

pub ghost enum ConnectionConfigView {
    Ethernet,
    Wireless(WirelessConfigView),
    Loopback,
    Dummy,
    Bond(BondConfigView),
    Vlan(VlanConfigView),
    Bridge(BridgeConfig),
    Infiniband(InfinibandConfigView),
    Tun(TunConfigView),
    OvsBridge(OvsBridgeConfig),
    OvsPort(OvsPortConfig),
    OvsInterface(OvsInterfaceConfig),
}

impl DeepView for ConnectionConfig {
    type V = ConnectionConfigView;

    open spec fn deep_view(&self) -> ConnectionConfigView {
        match self {
            ConnectionConfig::Ethernet => ConnectionConfigView::Ethernet,
            ConnectionConfig::Wireless(c) => ConnectionConfigView::Wireless(c.deep_view()),
            ConnectionConfig::Loopback => ConnectionConfigView::Loopback,
            ConnectionConfig::Dummy => ConnectionConfigView::Dummy,
            ConnectionConfig::Bond(c) => ConnectionConfigView::Bond(c.deep_view()),
            ConnectionConfig::Vlan(c) => ConnectionConfigView::Vlan(c.deep_view()),
            ConnectionConfig::Bridge(c) => ConnectionConfigView::Bridge(*c),
            ConnectionConfig::Infiniband(c) => ConnectionConfigView::Infiniband(c.deep_view()),
            ConnectionConfig::Tun(c) => ConnectionConfigView::Tun(c.deep_view()),
            ConnectionConfig::OvsBridge(c) => ConnectionConfigView::OvsBridge(*c),
            ConnectionConfig::OvsPort(c) => ConnectionConfigView::OvsPort(*c),
            ConnectionConfig::OvsInterface(c) => ConnectionConfigView::OvsInterface(*c),
        }
    }
}

/// One connection of the target system.
#[derive(Clone, Debug, PartialEq, Eq)]
pub struct Connection {
    pub id: String,
    pub uuid: u128,
    pub interface: Option<String>,
    pub ip_config: IpConfig,
    pub custom_mac_address: MacAddress,
    pub firewall_zone: Option<String>,
    pub mtu: u32,
    pub autoconnect: bool,
    pub status: Status,
    /// The uuid of the connection that controls this one.
    pub controller: Option<u128>,
    pub port_config: PortConfig,
    pub config: ConnectionConfig,
    pub ieee_8021x_config: Option<IEEE8021XConfig>,
}

pub ghost struct ConnectionView {
    pub id: Seq<char>,
    pub uuid: u128,
    pub interface: Option<Seq<char>>,
    pub ip_config: IpConfigView,
    pub custom_mac_address: MacAddress,
    pub firewall_zone: Option<Seq<char>>,
    pub mtu: u32,
    pub autoconnect: bool,
    pub status: Status,
    pub controller: Option<u128>,
    pub port_config: PortConfig,
    pub config: ConnectionConfigView,
    pub ieee_8021x_config: Option<IEEE8021XConfigView>,
}

impl DeepView for Connection {
    type V = ConnectionView;

    open spec fn deep_view(&self) -> ConnectionView {
        ConnectionView {
            id: self.id@,
            uuid: self.uuid,
            interface: self.interface.deep_view(),
            ip_config: self.ip_config.deep_view(),
            custom_mac_address: self.custom_mac_address,
            firewall_zone: self.firewall_zone.deep_view(),
            mtu: self.mtu,
            autoconnect: self.autoconnect,
            status: self.status,
            controller: self.controller,
            port_config: self.port_config,
            config: self.config.deep_view(),
            ieee_8021x_config: self.ieee_8021x_config.deep_view(),
        }
    }
}

impl ConnectionView {
    /// A connection with nothing set but its uuid: an ethernet connection
    /// without a name that connects by itself and is up.
    pub open spec fn blank(uuid: u128) -> Self {
        ConnectionView {
            id: Seq::empty(),
            uuid,
            interface: None,
            ip_config: IpConfigView::blank(),
            custom_mac_address: MacAddress::Unset,
            firewall_zone: None,
            mtu: 0,
            autoconnect: true,
            status: Status::Up,
            controller: None,
            port_config: PortConfig::Unset,
            config: ConnectionConfigView::Ethernet,
            ieee_8021x_config: None,
        }
    }
}

/// Trusted: `uuid::Uuid::new_v4`, a random uuid, taken as its 128 bits.
/// Nothing is known of the value.
#[verifier::external_body]
pub(crate) fn fresh_uuid() -> (r: u128) {
    uuid::Uuid::new_v4().as_u128()
}

impl Connection {
    /// A connection with nothing set but its uuid.
    pub fn with_uuid(uuid: u128) -> (r: Connection)
        ensures
            r.deep_view() == ConnectionView::blank(uuid),
    {
        Connection {
            id: String::new(),
            uuid,
            interface: None,
            ip_config: IpConfig::default(),
            custom_mac_address: MacAddress::Unset,
            firewall_zone: None,
            mtu: 0,
            autoconnect: true,
            status: Status::Up,
            controller: None,
            port_config: PortConfig::Unset,
            config: ConnectionConfig::Ethernet,
            ieee_8021x_config: None,
        }
    }
}

impl Default for Connection {
    /// A connection with nothing set and a random uuid.
    fn default() -> (r: Self)
        ensures
            r.deep_view() == ConnectionView::blank(r.uuid),
    {
        Connection::with_uuid(fresh_uuid())
    }
}

} // verus!
