//! What a migration reports besides its result: warnings, which the caller
//! may choose to abort on, and failures, which always abort.

use vstd::prelude::*;
use crate::model::{SecurityProtocol, WirelessBand};
use crate::text::{join_with, joined};

verus! {

/// A result seen through the deep views of its two sides.
pub open spec fn result_view<T: DeepView, E: DeepView>(r: Result<T, E>) -> Result<T::V, E::V> {
    match r {
        Ok(v) => Ok(v.deep_view()),
        Err(e) => Err(e.deep_view()),
    }
}

/// How much a report weighs.
#[derive(Clone, Copy, Debug, PartialEq, Eq, Structural)]
pub enum Severity {
    /// Aborts the migration unless the caller chose to continue.
    Warning,
    /// Reported, never a reason to abort.
    Notice,
}

/// A field of an interface record that has no counterpart in the target
/// model and was set to something else than its default.
#[derive(Clone, Copy, Debug, PartialEq, Eq, Structural)]
pub enum UnhandledField {
    Ipv4ArpVerify,
    Ipv6AcceptRedirects,
    Ipv4DhcpFlags,
    Ipv4DhcpUpdate,
    Ipv4DhcpDeferTimeout,
    Ipv4DhcpRecoverLease,
    Ipv6DhcpFlags,
    Ipv6DhcpUpdate,
    Ipv6DhcpRapidCommit,
    Ipv6DhcpDeferTimeout,
    Ipv6DhcpRecoverLease,
    Ipv6DhcpRefreshLease,
    Ipv6AutoUpdate,
}

impl UnhandledField {
    pub open spec fn spec_severity(&self) -> Severity {
        match self {
            UnhandledField::Ipv4DhcpUpdate | UnhandledField::Ipv6DhcpUpdate => Severity::Notice,
            _ => Severity::Warning,
        }
    }

    /// A changed DHCP `update` list is only noted; every other field warns.
    pub fn severity(&self) -> (r: Severity)
        ensures
            r == self.spec_severity(),
    {
        match self {
            UnhandledField::Ipv4DhcpUpdate | UnhandledField::Ipv6DhcpUpdate => Severity::Notice,
            _ => Severity::Warning,
        }
    }

    pub open spec fn spec_name(&self) -> Seq<char> {
        match self {
            UnhandledField::Ipv4ArpVerify => "ipv4.arp_verify"@,
            UnhandledField::Ipv6AcceptRedirects => "ipv6.accept_redirects"@,
            UnhandledField::Ipv4DhcpFlags => "ipv4_dhcp.flags"@,
            UnhandledField::Ipv4DhcpUpdate => "ipv4_dhcp.update"@,
            UnhandledField::Ipv4DhcpDeferTimeout => "ipv4_dhcp.defer_timeout"@,
            UnhandledField::Ipv4DhcpRecoverLease => "ipv4_dhcp.recover_lease"@,
            UnhandledField::Ipv6DhcpFlags => "ipv6_dhcp.flags"@,
            UnhandledField::Ipv6DhcpUpdate => "ipv6_dhcp.update"@,
            UnhandledField::Ipv6DhcpRapidCommit => "ipv6_dhcp.rapid_commit"@,
            UnhandledField::Ipv6DhcpDeferTimeout => "ipv6_dhcp.defer_timeout"@,
            UnhandledField::Ipv6DhcpRecoverLease => "ipv6_dhcp.recover_lease"@,
            UnhandledField::Ipv6DhcpRefreshLease => "ipv6_dhcp.refresh_lease"@,
            UnhandledField::Ipv6AutoUpdate => "ipv6_auto.update"@,
        }
    }

    /// The dotted path of the field in the interface record.
    pub fn name(&self) -> (r: &'static str)
        ensures
            r@ == self.spec_name(),
    {
        match self {
            UnhandledField::Ipv4ArpVerify => "ipv4.arp_verify",
            UnhandledField::Ipv6AcceptRedirects => "ipv6.accept_redirects",
            UnhandledField::Ipv4DhcpFlags => "ipv4_dhcp.flags",
            UnhandledField::Ipv4DhcpUpdate => "ipv4_dhcp.update",
            UnhandledField::Ipv4DhcpDeferTimeout => "ipv4_dhcp.defer_timeout",
            UnhandledField::Ipv4DhcpRecoverLease => "ipv4_dhcp.recover_lease",
            UnhandledField::Ipv6DhcpFlags => "ipv6_dhcp.flags",
            UnhandledField::Ipv6DhcpUpdate => "ipv6_dhcp.update",
            UnhandledField::Ipv6DhcpRapidCommit => "ipv6_dhcp.rapid_commit",
            UnhandledField::Ipv6DhcpDeferTimeout => "ipv6_dhcp.defer_timeout",
            UnhandledField::Ipv6DhcpRecoverLease => "ipv6_dhcp.recover_lease",
            UnhandledField::Ipv6DhcpRefreshLease => "ipv6_dhcp.refresh_lease",
            UnhandledField::Ipv6AutoUpdate => "ipv6_auto.update",
        }
    }
}

/// Something the migration could not carry over as it stands.
#[derive(Clone, Debug, PartialEq, Eq)]
pub enum Warning {
    /// A field without counterpart differs from its default.
    UnhandledField { interface: String, field: UnhandledField },
    /// A broadcast address that is not the last address of its network.
    CustomBroadcast { interface: String, broadcast: String },
    /// A route with more than one next hop; the route is left out.
    MultipathRoute { interface: String },
    InfinibandMulticast,
    /// The key-management protocols of a wireless network (here joined by
    /// commas) fit no rule; the security protocol was guessed.
    GuessedSecurity { key_management: String, protocol: SecurityProtocol },
    /// A band was derived from the channel of a wireless network.
    WirelessBand { band: WirelessBand },
    /// No connection has the interface that a port names as its parent.
    MissingParent { parent: String, port: String },
    /// The input held fields that the reader does not know.
    UnrecognizedInput,
    /// The DNS policy `STATIC_FALLBACK` is not supported.
    UnsupportedDnsPolicy,
    /// An entry of the static DNS server list is no IP address.
    InvalidDnsServer { value: String },
    /// Gratuitous ARP is configured to something else than `auto`.
    GratuitousArp,
}

pub ghost enum WarningView {
    UnhandledField { interface: Seq<char>, field: UnhandledField },
    CustomBroadcast { interface: Seq<char>, broadcast: Seq<char> },
    MultipathRoute { interface: Seq<char> },
    InfinibandMulticast,
    GuessedSecurity { key_management: Seq<char>, protocol: SecurityProtocol },
    WirelessBand { band: WirelessBand },
    MissingParent { parent: Seq<char>, port: Seq<char> },
    UnrecognizedInput,
    UnsupportedDnsPolicy,
    InvalidDnsServer { value: Seq<char> },
    GratuitousArp,
}

impl DeepView for Warning {
    type V = WarningView;

    open spec fn deep_view(&self) -> WarningView {
        match self {
            Warning::UnhandledField { interface, field } => WarningView::UnhandledField {
                interface: interface@,
                field: *field,
            },
            Warning::CustomBroadcast { interface, broadcast } => WarningView::CustomBroadcast {
                interface: interface@,
                broadcast: broadcast@,
            },
            Warning::MultipathRoute { interface } => WarningView::MultipathRoute {
                interface: interface@,
            },
            Warning::InfinibandMulticast => WarningView::InfinibandMulticast,
            Warning::GuessedSecurity { key_management, protocol } => WarningView::GuessedSecurity {
                key_management: key_management@,
                protocol: *protocol,
            },
            Warning::WirelessBand { band } => WarningView::WirelessBand { band: *band },
            Warning::MissingParent { parent, port } => WarningView::MissingParent {
                parent: parent@,
                port: port@,
            },
            Warning::UnrecognizedInput => WarningView::UnrecognizedInput,
            Warning::UnsupportedDnsPolicy => WarningView::UnsupportedDnsPolicy,
            Warning::InvalidDnsServer { value } => WarningView::InvalidDnsServer { value: value@ },
            Warning::GratuitousArp => WarningView::GratuitousArp,
        }
    }
}

impl WarningView {
    pub open spec fn severity(&self) -> Severity {
        match self {
            WarningView::UnhandledField { interface, field } => field.spec_severity(),
            WarningView::WirelessBand { band } => Severity::Notice,
            _ => Severity::Warning,
        }
    }

    /// The message that the warning is reported with.
    pub open spec fn text(&self) -> Seq<char> {
        match self {
            WarningView::UnhandledField { interface, field } => "Unhandled field in interface "@
                + *interface + ": "@ + field.spec_name(),
            WarningView::CustomBroadcast { interface, broadcast } => "Broadcast \""@ + *broadcast
                + "\" for "@ + *interface
                + ": Custom broadcast addresses are not supported by NetworkManager"@,
            WarningView::MultipathRoute { interface } => "Route of "@ + *interface
                + ": Multipath routing isn't natively supported by NetworkManager"@,
            WarningView::InfinibandMulticast =>
                "Infiniband multicast isn't supported by NetworkManager"@,
            WarningView::GuessedSecurity { key_management, protocol } =>
                "Unsupported key-management protocol(s) '"@ + *key_management + "' guessing '"@
                    + protocol.spec_name() + "'"@,
            WarningView::WirelessBand { band } =>
                "NetworkManager requires setting a band for wireless when a channel is set. The band has been set to \""@
                    + band.spec_name() + "\". This may in certain regions be incorrect."@,
            WarningView::MissingParent { parent, port } =>
                "Missing parent connection with interface "@ + *parent + " for port "@ + *port,
            WarningView::UnrecognizedInput => "Unhandled fields"@,
            WarningView::UnsupportedDnsPolicy =>
                "NETCONFIG_DNS_POLICY \"STATIC_FALLBACK\" is not supported"@,
            WarningView::InvalidDnsServer { value } => "Invalid value '"@ + *value
                + "' in NETCONFIG_DNS_STATIC_SERVERS"@,
            WarningView::GratuitousArp =>
                "SEND_GRATUITOUS_ARP differs from 'auto', consider net.ipv4.conf.{all,default}.arp_notify variable in /etc/sysctl.conf"@,
        }
    }
}

/// Whether any of `warnings` weighs as a warning (and not as a notice).
pub open spec fn any_warning(warnings: Seq<WarningView>) -> bool {
    exists|i: int| 0 <= i < warnings.len() && (#[trigger] warnings[i]).severity() == Severity::Warning
}

impl Warning {
    /// The weight of the warning.
    pub fn severity(&self) -> (r: Severity)
        ensures
            r == self.deep_view().severity(),
    {
        match self {
            Warning::UnhandledField { interface, field } => field.severity(),
            Warning::WirelessBand { band } => Severity::Notice,
            _ => Severity::Warning,
        }
    }

    /// The message that the warning is reported with.
    pub fn to_string(&self) -> (r: String)
        ensures
            r@ == self.deep_view().text(),
    {
        match self {
            Warning::UnhandledField { interface, field } => {
                let mut s = "Unhandled field in interface ".to_owned();
                s.append(interface.as_str());
                s.append(": ");
                s.append(field.name());
                s
            },
            Warning::CustomBroadcast { interface, broadcast } => {
                let mut s = "Broadcast \"".to_owned();
                s.append(broadcast.as_str());
                s.append("\" for ");
                s.append(interface.as_str());
                s.append(": Custom broadcast addresses are not supported by NetworkManager");
                s
            },
            Warning::MultipathRoute { interface } => {
                let mut s = "Route of ".to_owned();
                s.append(interface.as_str());
                s.append(": Multipath routing isn't natively supported by NetworkManager");
                s
            },
            Warning::InfinibandMulticast => {
                "Infiniband multicast isn't supported by NetworkManager".to_owned()
            },
            Warning::GuessedSecurity { key_management, protocol } => {
                let mut s = "Unsupported key-management protocol(s) '".to_owned();
                s.append(key_management.as_str());
                s.append("' guessing '");
                s.append(protocol.name());
                s.append("'");
                s
            },
            Warning::WirelessBand { band } => {
                let mut s =
                    "NetworkManager requires setting a band for wireless when a channel is set. The band has been set to \"".to_owned();
                s.append(band.name());
                s.append("\". This may in certain regions be incorrect.");
                s
            },
            Warning::MissingParent { parent, port } => {
                let mut s = "Missing parent connection with interface ".to_owned();
                s.append(parent.as_str());
                s.append(" for port ");
                s.append(port.as_str());
                s
            },
            Warning::UnrecognizedInput => "Unhandled fields".to_owned(),
            Warning::UnsupportedDnsPolicy => {
                "NETCONFIG_DNS_POLICY \"STATIC_FALLBACK\" is not supported".to_owned()
            },
            Warning::InvalidDnsServer { value } => {
                let mut s = "Invalid value '".to_owned();
                s.append(value.as_str());
                s.append("' in NETCONFIG_DNS_STATIC_SERVERS");
                s
            },
            Warning::GratuitousArp => {
                "SEND_GRATUITOUS_ARP differs from 'auto', consider net.ipv4.conf.{all,default}.arp_notify variable in /etc/sysctl.conf".to_owned()
            },
        }
    }
}

impl Warning {
    /// A copy of the warning.
    pub fn duplicate(&self) -> (r: Warning)
        ensures
            r.deep_view() == self.deep_view(),
    {
        match self {
            Warning::UnhandledField { interface, field } => Warning::UnhandledField {
                interface: interface.clone(),
                field: *field,
            },
            Warning::CustomBroadcast { interface, broadcast } => Warning::CustomBroadcast {
                interface: interface.clone(),
                broadcast: broadcast.clone(),
            },
            Warning::MultipathRoute { interface } => Warning::MultipathRoute {
                interface: interface.clone(),
            },
            Warning::InfinibandMulticast => Warning::InfinibandMulticast,
            Warning::GuessedSecurity { key_management, protocol } => Warning::GuessedSecurity {
                key_management: key_management.clone(),
                protocol: *protocol,
            },
            Warning::WirelessBand { band } => Warning::WirelessBand { band: *band },
            Warning::MissingParent { parent, port } => Warning::MissingParent {
                parent: parent.clone(),
                port: port.clone(),
            },
            Warning::UnrecognizedInput => Warning::UnrecognizedInput,
            Warning::UnsupportedDnsPolicy => Warning::UnsupportedDnsPolicy,
            Warning::InvalidDnsServer { value } => Warning::InvalidDnsServer { value: value.clone() },
            Warning::GratuitousArp => Warning::GratuitousArp,
        }
    }
}

/// A copy of `warnings`.
pub fn duplicate_warnings(warnings: &Vec<Warning>) -> (r: Vec<Warning>)
    ensures
        r.deep_view() == warnings.deep_view(),
{
    let mut out: Vec<Warning> = Vec::new();
    let mut i: usize = 0;
    assert(out.deep_view() =~= warnings.deep_view().take(0));
    while i < warnings.len()
        invariant
            i <= warnings.len(),
            out.deep_view() == warnings.deep_view().take(i as int),
        decreases warnings.len() - i,
    {
        let ghost before = out.deep_view();
        assert(before.len() == out@.len());
        assert(warnings.deep_view().len() == warnings@.len());
        let w = warnings[i].duplicate();
        out.push(w);
        assert(out.deep_view() =~= before.push(w.deep_view()));
        i = i + 1;
        assert(out.deep_view() =~= warnings.deep_view().take(i as int));
    }
    assert(warnings.deep_view().len() == warnings@.len());
    assert(warnings.deep_view().take(warnings.len() as int) =~= warnings.deep_view());
    out
}

/// Whether any of `warnings` weighs as a warning.
pub fn has_warnings(warnings: &Vec<Warning>) -> (r: bool)
    ensures
        r == any_warning(warnings.deep_view()),
{
    let mut i: usize = 0;
    while i < warnings.len()
        invariant
            i <= warnings.len(),
            forall|j: int| 0 <= j < i ==> (#[trigger] warnings.deep_view()[j]).severity() != Severity::Warning,
        decreases warnings.len() - i,
    {
        match warnings[i].severity() {
            Severity::Warning => {
                assert(warnings.deep_view()[i as int] == warnings[i as int].deep_view());
                return true;
            },
            Severity::Notice => {},
        }
        i = i + 1;
    }
    false
}

/// Why a migration cannot go on.
#[derive(Clone, Debug, PartialEq, Eq)]
pub enum Failure {
    /// A static address, given here, is no interface address.
    InvalidAddress(String),
    /// A broadcast address, given here, is no IP address.
    InvalidBroadcast(String),
    /// The gateway of a route is no IP address.
    InvalidGateway,
    /// The destination of a route is no network.
    InvalidDestination,
    /// A route names neither a destination nor a next hop.
    EmptyRoute,
    /// A MAC address setting is neither a keyword nor a hardware address.
    InvalidMacAddress,
    /// The access point of a wireless network is no hardware address.
    InvalidAccessPoint,
    /// The EAP method is none that can stand as outer method.
    InvalidEapMethod,
    /// The phase 2 method is none that can stand as inner method.
    InvalidPhase2Method,
    /// Certificates given as hexadecimal data are not supported.
    HexCertificate,
    /// The key-management protocols of a wireless network, given here with
    /// commas between them, fit no rule.
    UnrecognizedKeyManagement(String),
    /// The WEP authentication algorithm is not known.
    InvalidWepAuthAlg,
    /// The infiniband transport mode is not known.
    InvalidInfinibandMode,
    /// No connection has the interface that the connection `port` names as
    /// its parent, and the caller does not continue on warnings.
    MissingParent { parent: String, port: String },
    /// A pending link belongs to no connection.
    MissingPort,
    /// These connections name a controller that cannot be resolved.
    MissingController(Vec<String>),
    /// A connection with this id exists already.
    ConnectionExists,
    /// Two connections have the same uuid.
    DuplicateUuid,
    /// The DNS policy asks for the loopback connection and there is none.
    MissingLoopback,
    /// A DNS policy entry is no valid glob pattern.
    InvalidGlob,
}

pub ghost enum FailureView {
    InvalidAddress(Seq<char>),
    InvalidBroadcast(Seq<char>),
    InvalidGateway,
    InvalidDestination,
    EmptyRoute,
    InvalidMacAddress,
    InvalidAccessPoint,
    InvalidEapMethod,
    InvalidPhase2Method,
    HexCertificate,
    UnrecognizedKeyManagement(Seq<char>),
    InvalidWepAuthAlg,
    InvalidInfinibandMode,
    MissingParent { parent: Seq<char>, port: Seq<char> },
    MissingPort,
    MissingController(Seq<Seq<char>>),
    ConnectionExists,
    DuplicateUuid,
    MissingLoopback,
    InvalidGlob,
}

impl DeepView for Failure {
    type V = FailureView;

    open spec fn deep_view(&self) -> FailureView {
        match self {
            Failure::InvalidAddress(text) => FailureView::InvalidAddress(text@),
            Failure::InvalidBroadcast(text) => FailureView::InvalidBroadcast(text@),
            Failure::InvalidGateway => FailureView::InvalidGateway,
            Failure::InvalidDestination => FailureView::InvalidDestination,
            Failure::EmptyRoute => FailureView::EmptyRoute,
            Failure::InvalidMacAddress => FailureView::InvalidMacAddress,
            Failure::InvalidAccessPoint => FailureView::InvalidAccessPoint,
            Failure::InvalidEapMethod => FailureView::InvalidEapMethod,
            Failure::InvalidPhase2Method => FailureView::InvalidPhase2Method,
            Failure::HexCertificate => FailureView::HexCertificate,
            Failure::UnrecognizedKeyManagement(tokens) => FailureView::UnrecognizedKeyManagement(
                tokens@,
            ),
            Failure::InvalidWepAuthAlg => FailureView::InvalidWepAuthAlg,
            Failure::InvalidInfinibandMode => FailureView::InvalidInfinibandMode,
            Failure::MissingParent { parent, port } => FailureView::MissingParent {
                parent: parent@,
                port: port@,
            },
            Failure::MissingPort => FailureView::MissingPort,
            Failure::MissingController(ids) => FailureView::MissingController(ids.deep_view()),
            Failure::ConnectionExists => FailureView::ConnectionExists,
            Failure::DuplicateUuid => FailureView::DuplicateUuid,
            Failure::MissingLoopback => FailureView::MissingLoopback,
            Failure::InvalidGlob => FailureView::InvalidGlob,
        }
    }
}

impl FailureView {
    /// The message that the failure is reported with.
    pub open spec fn text(&self) -> Seq<char> {
        match self {
            FailureView::InvalidAddress(text) => "Failed to parse address \""@ + *text + "\""@,
            FailureView::InvalidBroadcast(text) => "Failed to parse broadcast address \""@ + *text
                + "\""@,
            FailureView::InvalidGateway => "Failed to parse the gateway of a route"@,
            FailureView::InvalidDestination => "Failed to parse the destination of a route"@,
            FailureView::EmptyRoute => "Error occurred when parsing route"@,
            FailureView::InvalidMacAddress => "Invalid MAC address"@,
            FailureView::InvalidAccessPoint => "Invalid access point address"@,
            FailureView::InvalidEapMethod => "Invalid EAP (outer) method"@,
            FailureView::InvalidPhase2Method => "Invalid phase 2 (inner) method"@,
            FailureView::HexCertificate => "Hex certificate type is currently not supported"@,
            FailureView::UnrecognizedKeyManagement(tokens) =>
                "Unrecognized key-management protocol(s): "@ + *tokens,
            FailureView::InvalidWepAuthAlg => "Invalid WEP authentication algorithm"@,
            FailureView::InvalidInfinibandMode => "Invalid infiniband transport mode"@,
            FailureView::MissingParent { parent, port } =>
                "Missing parent connection with interface "@ + *parent + " for port "@ + *port,
            FailureView::MissingPort => "Unexpected failure - missing port connection"@,
            FailureView::MissingController(ids) =>
                "Unexpected error, port connection is missing controller: "@ + joined(
                    *ids,
                    "\n"@,
                ),
            FailureView::ConnectionExists => "A connection with this id exists already"@,
            FailureView::DuplicateUuid => "Two connections have the same uuid"@,
            FailureView::MissingLoopback => "Failed to get loopback connection"@,
            FailureView::InvalidGlob => "Invalid glob pattern in the DNS policy"@,
        }
    }
}

impl Failure {
    /// The message that the failure is reported with.
    pub fn to_string(&self) -> (r: String)
        ensures
            r@ == self.deep_view().text(),
    {
        match self {
            Failure::InvalidAddress(text) => {
                let mut s = "Failed to parse address \"".to_owned();
                s.append(text.as_str());
                s.append("\"");
                s
            },
            Failure::InvalidBroadcast(text) => {
                let mut s = "Failed to parse broadcast address \"".to_owned();
                s.append(text.as_str());
                s.append("\"");
                s
            },
            Failure::InvalidGateway => "Failed to parse the gateway of a route".to_owned(),
            Failure::InvalidDestination => "Failed to parse the destination of a route".to_owned(),
            Failure::EmptyRoute => "Error occurred when parsing route".to_owned(),
            Failure::InvalidMacAddress => "Invalid MAC address".to_owned(),
            Failure::InvalidAccessPoint => "Invalid access point address".to_owned(),
            Failure::InvalidEapMethod => "Invalid EAP (outer) method".to_owned(),
            Failure::InvalidPhase2Method => "Invalid phase 2 (inner) method".to_owned(),
            Failure::HexCertificate => "Hex certificate type is currently not supported".to_owned(),
            Failure::UnrecognizedKeyManagement(tokens) => {
                let mut s = "Unrecognized key-management protocol(s): ".to_owned();
                s.append(tokens.as_str());
                s
            },
            Failure::InvalidWepAuthAlg => "Invalid WEP authentication algorithm".to_owned(),
            Failure::InvalidInfinibandMode => "Invalid infiniband transport mode".to_owned(),
            Failure::MissingParent { parent, port } => {
                let mut s = "Missing parent connection with interface ".to_owned();
                s.append(parent.as_str());
                s.append(" for port ");
                s.append(port.as_str());
                s
            },
            Failure::MissingPort => "Unexpected failure - missing port connection".to_owned(),
            Failure::MissingController(ids) => {
                let mut s = "Unexpected error, port connection is missing controller: ".to_owned();
                let list = join_with(ids, "\n");
                s.append(list.as_str());
                s
            },
            Failure::ConnectionExists => "A connection with this id exists already".to_owned(),
            Failure::DuplicateUuid => "Two connections have the same uuid".to_owned(),
            Failure::MissingLoopback => "Failed to get loopback connection".to_owned(),
            Failure::InvalidGlob => "Invalid glob pattern in the DNS policy".to_owned(),
        }
    }
}

} // verus!
