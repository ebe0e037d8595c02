//! Wireless records and their translation, including the derivation of the
//! security protocol from the key-management protocols of a network.

use vstd::prelude::*;
use crate::mac::{parsed_mac, MacAddr6};
use crate::model::{
    ConnectionConfig, ConnectionConfigView, EAPMethod, GroupAlgorithm, IEEE8021XConfig,
    IEEE8021XConfigView, PairwiseAlgorithm, Phase2AuthMethod, SecurityProtocol, WEPAuthAlg,
    WEPKeyType, WEPSecurity, WEPSecurityView, WPAProtocolVersion, WirelessBand, WirelessConfig,
    WirelessConfigView, WirelessMode,
};
use crate::report::{result_view, Failure, FailureView, Warning, WarningView};
use crate::settings::MigrationSettings;
use crate::text::{decimal, join_with_comma, joined, replaced, str_eq, str_replace, u32_to_string};

verus! {

#[derive(Clone, Debug, PartialEq, Eq)]
pub struct Wireless {
    pub ap_scan: u32,
    pub networks: Option<Vec<Network>>,
}

/// One network that a wireless interface may join.
#[derive(Clone, Debug, PartialEq, Eq, Default)]
pub struct Network {
    pub essid: String,
    pub scan_ssid: bool,
    pub mode: WickedWirelessMode,
    pub wpa_psk: Option<WpaPsk>,
    pub key_management: Vec<String>,
    pub channel: Option<u32>,
    pub access_point: Option<String>,
    pub wep: Option<Wep>,
    pub wpa_eap: Option<WpaEap>,
}

#[derive(Clone, Copy, Debug, PartialEq, Eq, Structural, Default)]
pub enum WickedWirelessMode {
    AdHoc,
    #[default]
    Infrastructure,
    AP,
}

#[derive(Clone, Debug, PartialEq, Eq, Default)]
pub struct WpaPsk {
    pub passphrase: String,
    pub auth_proto: Vec<EapAuthProto>,
    pub pairwise_cipher: Vec<EapPairwiseCipher>,
    pub group_cipher: Vec<EapGroupCipher>,
    pub pmf: Option<Pmf>,
}

#[derive(Clone, Debug, PartialEq, Eq)]
pub struct Wep {
    pub auth_algo: String,
    pub default_key: u32,
    pub key: Vec<String>,
}

#[derive(Clone, Debug, PartialEq, Eq, Default)]
pub struct WpaEap {
    pub method: WickedEapMethods,
    pub identity: Option<String>,
    pub phase1: Option<Phase1>,
    pub phase2: Option<Phase2>,
    pub anonid: Option<String>,
    pub tls: Option<EapTLS>,
    pub auth_proto: Vec<EapAuthProto>,
    pub pairwise_cipher: Vec<EapPairwiseCipher>,
    pub group_cipher: Vec<EapGroupCipher>,
    pub pmf: Option<Pmf>,
}

#[derive(Clone, Debug, PartialEq, Eq)]
pub struct Phase1 {
    pub peap_version: Option<u32>,
    pub peap_label: Option<bool>,
}

#[derive(Clone, Debug, PartialEq, Eq)]
pub struct Phase2 {
    pub method: Option<WickedEapMethods>,
    pub password: Option<String>,
}

/// Protected management frames.
#[derive(Clone, Copy, Debug, PartialEq, Eq, Structural)]
pub enum Pmf {
    Disabled,
    Optional,
    Required,
}

#[derive(Clone, Copy, Debug, PartialEq, Eq, Structural)]
pub enum EapAuthProto {
    Wpa,
    Rsn,
}

#[derive(Clone, Copy, Debug, PartialEq, Eq, Structural, Default)]
pub enum WickedEapMethods {
    Wpa,
    #[default]
    Nil,
    Md5,
    Tls,
    Pap,
    Chap,
    Mschap,
    Mschapv2,
    Peap,
    Ttls,
    Gtc,
    Otp,
    Leap,
    Psk,
    Pax,
    Sake,
    Gpsk,
    Wsc,
    Ikev2,
    Tnc,
    Fast,
    Aka,
    AkaPrime,
    Sim,
}

#[allow(non_camel_case_types)]
#[derive(Clone, Copy, Debug, PartialEq, Eq, Structural)]
pub enum EapPairwiseCipher {
    Tkip,
    Ccmp,
    Ccmp_256,
    Gcmp,
    Gcmp_256,
}

#[allow(non_camel_case_types)]
#[derive(Clone, Copy, Debug, PartialEq, Eq, Structural)]
pub enum EapGroupCipher {
    Tkip,
    Ccmp,
    Ccmp_256,
    Gcmp,
    Gcmp_256,
    Wep104,
    Wep40,
}

#[derive(Clone, Debug, PartialEq, Eq)]
pub struct EapTLS {
    pub ca_cert: Option<WickedCertificate>,
    pub client_cert: Option<WickedCertificate>,
    pub client_key: Option<WickedCertificate>,
    pub client_key_passwd: Option<String>,
}

#[derive(Clone, Debug, PartialEq, Eq)]
pub struct WickedCertificate {
    pub cert: String,
    pub cert_type: WickedCertType,
}

#[derive(Clone, Copy, Debug, PartialEq, Eq, Structural)]
pub enum WickedCertType {
    Path,
    File,
    Hex,
}

impl WickedWirelessMode {
    pub open spec fn spec_mode(&self) -> WirelessMode {
        match self {
            WickedWirelessMode::AdHoc => WirelessMode::AdHoc,
            WickedWirelessMode::Infrastructure => WirelessMode::Infra,
            WickedWirelessMode::AP => WirelessMode::AP,
        }
    }

    /// The mode in the target model.
    pub fn to_mode(&self) -> (r: WirelessMode)
        ensures
            r == self.spec_mode(),
    {
        match self {
            WickedWirelessMode::AdHoc => WirelessMode::AdHoc,
            WickedWirelessMode::Infrastructure => WirelessMode::Infra,
            WickedWirelessMode::AP => WirelessMode::AP,
        }
    }
}

impl Pmf {
    pub open spec fn spec_value(&self) -> i32 {
        match self {
            Pmf::Disabled => 1i32,
            Pmf::Optional => 2i32,
            Pmf::Required => 3i32,
        }
    }

    /// The number that stands for the setting: 1, 2 or 3.
    pub fn value(&self) -> (r: i32)
        ensures
            r == self.spec_value(),
    {
        match self {
            Pmf::Disabled => 1,
            Pmf::Optional => 2,
            Pmf::Required => 3,
        }
    }
}

impl EapAuthProto {
    pub open spec fn spec_version(&self) -> WPAProtocolVersion {
        match self {
            EapAuthProto::Wpa => WPAProtocolVersion::Wpa,
            EapAuthProto::Rsn => WPAProtocolVersion::Rsn,
        }
    }

    /// The protocol version in the target model.
    pub fn to_version(&self) -> (r: WPAProtocolVersion)
        ensures
            r == self.spec_version(),
    {
        match self {
            EapAuthProto::Wpa => WPAProtocolVersion::Wpa,
            EapAuthProto::Rsn => WPAProtocolVersion::Rsn,
        }
    }
}

impl WickedEapMethods {
    pub open spec fn spec_eap_method(&self) -> Option<EAPMethod> {
        match self {
            WickedEapMethods::Leap => Some(EAPMethod::LEAP),
            WickedEapMethods::Md5 => Some(EAPMethod::MD5),
            WickedEapMethods::Tls => Some(EAPMethod::TLS),
            WickedEapMethods::Peap => Some(EAPMethod::PEAP),
            WickedEapMethods::Ttls => Some(EAPMethod::TTLS),
            WickedEapMethods::Fast => Some(EAPMethod::FAST),
            _ => None,
        }
    }

    /// The method as outer EAP method, where it can stand as one.
    pub fn to_eap_method(&self) -> (r: Option<EAPMethod>)
        ensures
            r == self.spec_eap_method(),
    {
        match self {
            WickedEapMethods::Leap => Some(EAPMethod::LEAP),
            WickedEapMethods::Md5 => Some(EAPMethod::MD5),
            WickedEapMethods::Tls => Some(EAPMethod::TLS),
            WickedEapMethods::Peap => Some(EAPMethod::PEAP),
            WickedEapMethods::Ttls => Some(EAPMethod::TTLS),
            WickedEapMethods::Fast => Some(EAPMethod::FAST),
            _ => None,
        }
    }

    pub open spec fn spec_phase2_method(&self) -> Option<Phase2AuthMethod> {
        match self {
            WickedEapMethods::Pap => Some(Phase2AuthMethod::PAP),
            WickedEapMethods::Chap => Some(Phase2AuthMethod::CHAP),
            WickedEapMethods::Mschap => Some(Phase2AuthMethod::MSCHAP),
            WickedEapMethods::Mschapv2 => Some(Phase2AuthMethod::MSCHAPV2),
            WickedEapMethods::Gtc => Some(Phase2AuthMethod::GTC),
            WickedEapMethods::Otp => Some(Phase2AuthMethod::OTP),
            WickedEapMethods::Md5 => Some(Phase2AuthMethod::MD5),
            WickedEapMethods::Tls => Some(Phase2AuthMethod::TLS),
            _ => None,
        }
    }

    /// The method as inner (phase 2) method, where it can stand as one.
    pub fn to_phase2_method(&self) -> (r: Option<Phase2AuthMethod>)
        ensures
            r == self.spec_phase2_method(),
    {
        match self {
            WickedEapMethods::Pap => Some(Phase2AuthMethod::PAP),
            WickedEapMethods::Chap => Some(Phase2AuthMethod::CHAP),
            WickedEapMethods::Mschap => Some(Phase2AuthMethod::MSCHAP),
            WickedEapMethods::Mschapv2 => Some(Phase2AuthMethod::MSCHAPV2),
            WickedEapMethods::Gtc => Some(Phase2AuthMethod::GTC),
            WickedEapMethods::Otp => Some(Phase2AuthMethod::OTP),
            WickedEapMethods::Md5 => Some(Phase2AuthMethod::MD5),
            WickedEapMethods::Tls => Some(Phase2AuthMethod::TLS),
            _ => None,
        }
    }
}

impl EapPairwiseCipher {
    pub open spec fn spec_algorithm(&self) -> Option<PairwiseAlgorithm> {
        match self {
            EapPairwiseCipher::Ccmp => Some(PairwiseAlgorithm::Ccmp),
            EapPairwiseCipher::Tkip => Some(PairwiseAlgorithm::Tkip),
            _ => None,
        }
    }

    /// The cipher in the target model, where it has one.
    pub fn to_algorithm(&self) -> (r: Option<PairwiseAlgorithm>)
        ensures
            r == self.spec_algorithm(),
    {
        match self {
            EapPairwiseCipher::Ccmp => Some(PairwiseAlgorithm::Ccmp),
            EapPairwiseCipher::Tkip => Some(PairwiseAlgorithm::Tkip),
            _ => None,
        }
    }
}

impl EapGroupCipher {
    pub open spec fn spec_algorithm(&self) -> Option<GroupAlgorithm> {
        match self {
            EapGroupCipher::Ccmp => Some(GroupAlgorithm::Ccmp),
            EapGroupCipher::Tkip => Some(GroupAlgorithm::Tkip),
            EapGroupCipher::Wep104 => Some(GroupAlgorithm::Wep104),
            EapGroupCipher::Wep40 => Some(GroupAlgorithm::Wep40),
            _ => None,
        }
    }

    /// The cipher in the target model, where it has one.
    pub fn to_algorithm(&self) -> (r: Option<GroupAlgorithm>)
        ensures
            r == self.spec_algorithm(),
    {
        match self {
            EapGroupCipher::Ccmp => Some(GroupAlgorithm::Ccmp),
            EapGroupCipher::Tkip => Some(GroupAlgorithm::Tkip),
            EapGroupCipher::Wep104 => Some(GroupAlgorithm::Wep104),
            EapGroupCipher::Wep40 => Some(GroupAlgorithm::Wep40),
            _ => None,
        }
    }
}

/// The path of a certificate; certificates given as hexadecimal data are
/// refused.
pub open spec fn spec_cert_path(cert: &WickedCertificate) -> Result<Seq<char>, FailureView> {
    if cert.cert_type == WickedCertType::Hex {
        Err(FailureView::HexCertificate)
    } else {
        Ok(cert.cert@)
    }
}

/// The path of a certificate that is given by path or by file.
pub fn wicked_cert_to_path(wicked_cert: &WickedCertificate) -> (r: Result<String, Failure>)
    ensures
        result_view(r) == spec_cert_path(wicked_cert),
{
    match wicked_cert.cert_type {
        WickedCertType::Hex => Err(Failure::HexCertificate),
        _ => Ok(wicked_cert.cert.clone()),
    }
}


/// Every entry of `array` is one of `needle`, and there is an entry.
pub open spec fn spec_all(array: Seq<Seq<char>>, needle: Seq<Seq<char>>) -> bool {
    array.len() > 0 && forall|i: int| 0 <= i < array.len() ==> needle.contains(#[trigger] array[i])
}

/// Some entry of `array` is one of `needle`.
pub open spec fn spec_any(array: Seq<Seq<char>>, needle: Seq<Seq<char>>) -> bool {
    exists|i: int| 0 <= i < array.len() && needle.contains(#[trigger] array[i])
}

fn is_one_of(x: &str, needle: &Vec<&str>) -> (r: bool)
    ensures
        r == needle.deep_view().contains(x@),
{
    let mut j: usize = 0;
    while j < needle.len()
        invariant
            j <= needle.len(),
            forall|k: int| 0 <= k < j ==> needle.deep_view()[k] != x@,
        decreases needle.len() - j,
    {
        if str_eq(needle[j], x) {
            assert(needle.deep_view()[j as int] == x@);
            return true;
        }
        j = j + 1;
    }
    false
}

/// Whether `array` is not empty and holds nothing but entries of `needle`.
pub fn all(array: &Vec<String>, needle: &Vec<&str>) -> (r: bool)
    ensures
        r == spec_all(array.deep_view(), needle.deep_view()),
{
    if array.len() == 0 {
        return false;
    }
    let mut i: usize = 0;
    while i < array.len()
        invariant
            i <= array.len(),
            forall|k: int| 0 <= k < i ==> needle.deep_view().contains(#[trigger] array.deep_view()[k]),
        decreases array.len() - i,
    {
        if !is_one_of(array[i].as_str(), needle) {
            assert(array.deep_view()[i as int] == array[i as int]@);
            return false;
        }
        i = i + 1;
    }
    true
}

/// Whether `array` holds an entry of `needle`.
pub fn any(array: &Vec<String>, needle: &Vec<&str>) -> (r: bool)
    ensures
        r == spec_any(array.deep_view(), needle.deep_view()),
{
    let mut i: usize = 0;
    while i < array.len()
        invariant
            i <= array.len(),
            forall|k: int| 0 <= k < i ==> !needle.deep_view().contains(#[trigger] array.deep_view()[k]),
        decreases array.len() - i,
    {
        if is_one_of(array[i].as_str(), needle) {
            assert(array.deep_view()[i as int] == array[i as int]@);
            return true;
        }
        i = i + 1;
    }
    false
}

/// The key-management protocols of WPA3 personal.
pub open spec fn sae_protocols() -> Seq<Seq<char>> {
    seq!["sae"@, "ft-sae"@]
}

/// The key-management protocols of WPA2 personal.
pub open spec fn psk_protocols() -> Seq<Seq<char>> {
    seq!["wpa-psk"@, "wpa-psk-sha256"@]
}

/// The key-management protocols of WPA2 enterprise.
pub open spec fn eap_protocols() -> Seq<Seq<char>> {
    seq!["wpa-eap"@, "wpa-eap-sha256"@]
}

/// The key-management protocols of WPA3 enterprise.
pub open spec fn suite_b_protocols() -> Seq<Seq<char>> {
    seq!["wpa-eap-suite-b-192"@, "wpa-eap-suite-b"@]
}

/// The security protocol where no key management is named: by the
/// credentials that the network carries.
pub open spec fn spec_security_by_credentials(has_eap: bool, has_psk: bool) -> SecurityProtocol {
    if has_eap {
        SecurityProtocol::WPA2Enterprise
    } else if has_psk {
        SecurityProtocol::WPA2
    } else {
        SecurityProtocol::WEP
    }
}

/// The strict rule table: the security protocol that a set of
/// key-management protocols stands for, `None` where no rule covers it.
pub open spec fn spec_strict_security(mgmt: Seq<Seq<char>>, has_eap: bool, has_psk: bool) -> Option<
    SecurityProtocol,
> {
    if spec_all(mgmt, sae_protocols()) {
        Some(SecurityProtocol::WPA3Personal)
    } else if spec_all(mgmt, psk_protocols() + sae_protocols()) {
        Some(SecurityProtocol::WPA2)
    } else if spec_all(mgmt, suite_b_protocols()) {
        Some(SecurityProtocol::WPA3Only)
    } else if spec_all(mgmt, eap_protocols() + suite_b_protocols()) {
        Some(SecurityProtocol::WPA2Enterprise)
    } else if spec_all(mgmt, seq!["owe"@]) {
        Some(SecurityProtocol::OWE)
    } else if spec_all(mgmt, seq!["none"@]) {
        Some(SecurityProtocol::WEP)
    } else if mgmt.len() == 0 {
        Some(spec_security_by_credentials(has_eap, has_psk))
    } else {
        None
    }
}

/// The fallback table: the strongest family of which a protocol is named,
/// enterprise before personal, and by the credentials where none is.
pub open spec fn spec_guessed_security(mgmt: Seq<Seq<char>>, has_eap: bool, has_psk: bool) -> SecurityProtocol {
    if spec_any(mgmt, eap_protocols()) {
        SecurityProtocol::WPA2Enterprise
    } else if spec_any(mgmt, suite_b_protocols()) {
        SecurityProtocol::WPA3Only
    } else if spec_any(mgmt, psk_protocols()) {
        SecurityProtocol::WPA2
    } else if spec_any(mgmt, sae_protocols()) {
        SecurityProtocol::WPA3Personal
    } else if spec_any(mgmt, seq!["owe"@]) {
        SecurityProtocol::OWE
    } else if spec_any(mgmt, seq!["none"@]) {
        SecurityProtocol::WEP
    } else {
        spec_security_by_credentials(has_eap, has_psk)
    }
}

fn security_by_credentials(network: &Network) -> (r: SecurityProtocol)
    ensures
        r == spec_security_by_credentials(network.wpa_eap is Some, network.wpa_psk is Some),
{
    if network.wpa_eap.is_some() {
        SecurityProtocol::WPA2Enterprise
    } else if network.wpa_psk.is_some() {
        SecurityProtocol::WPA2
    } else {
        SecurityProtocol::WEP
    }
}

/// The security protocol that the fallback table gives for the network.
/// It always gives one.
pub fn guess_wireless_security_protocol(network: &Network) -> (r: Result<SecurityProtocol, Failure>)
    ensures
        r == Ok::<SecurityProtocol, Failure>(
            spec_guessed_security(
                network.key_management.deep_view(),
                network.wpa_eap is Some,
                network.wpa_psk is Some,
            ),
        ),
{
    let mgmt = &network.key_management;
    let eap = vec!["wpa-eap", "wpa-eap-sha256"];
    let suite_b = vec!["wpa-eap-suite-b-192", "wpa-eap-suite-b"];
    let psk = vec!["wpa-psk", "wpa-psk-sha256"];
    let sae = vec!["sae", "ft-sae"];
    let owe = vec!["owe"];
    let none = vec!["none"];
    assert(eap.deep_view() =~= eap_protocols());
    assert(suite_b.deep_view() =~= suite_b_protocols());
    assert(psk.deep_view() =~= psk_protocols());
    assert(sae.deep_view() =~= sae_protocols());
    assert(owe.deep_view() =~= seq!["owe"@]);
    assert(none.deep_view() =~= seq!["none"@]);
    let result = if any(mgmt, &eap) {
        SecurityProtocol::WPA2Enterprise
    } else if any(mgmt, &suite_b) {
        SecurityProtocol::WPA3Only
    } else if any(mgmt, &psk) {
        SecurityProtocol::WPA2
    } else if any(mgmt, &sae) {
        SecurityProtocol::WPA3Personal
    } else if any(mgmt, &owe) {
        SecurityProtocol::OWE
    } else if any(mgmt, &none) {
        SecurityProtocol::WEP
    } else {
        security_by_credentials(network)
    };
    Ok(result)
}

/// The security protocol that the strict rule table gives for the network;
/// fails where the key-management protocols fit no rule, and names them in
/// the failure.
pub fn wireless_security_protocol(network: &Network) -> (r: Result<SecurityProtocol, Failure>)
    ensures
        match r {
            Ok(p) => network.spec_strict() == Some(p),
            Err(e) => network.spec_strict() is None && e.deep_view()
                == FailureView::UnrecognizedKeyManagement(
                joined(network.key_management.deep_view(), seq![',']),
            ),
        },
{
    let mgmt = &network.key_management;
    let sae = vec!["sae", "ft-sae"];
    let personal = vec!["wpa-psk", "wpa-psk-sha256", "sae", "ft-sae"];
    let suite_b = vec!["wpa-eap-suite-b-192", "wpa-eap-suite-b"];
    let enterprise = vec!["wpa-eap", "wpa-eap-sha256", "wpa-eap-suite-b-192", "wpa-eap-suite-b"];
    let owe = vec!["owe"];
    let none = vec!["none"];
    assert(sae.deep_view() =~= sae_protocols());
    assert(personal.deep_view() =~= psk_protocols() + sae_protocols());
    assert(suite_b.deep_view() =~= suite_b_protocols());
    assert(enterprise.deep_view() =~= eap_protocols() + suite_b_protocols());
    assert(owe.deep_view() =~= seq!["owe"@]);
    assert(none.deep_view() =~= seq!["none"@]);
    if all(mgmt, &sae) {
        Ok(SecurityProtocol::WPA3Personal)
    } else if all(mgmt, &personal) {
        Ok(SecurityProtocol::WPA2)
    } else if all(mgmt, &suite_b) {
        Ok(SecurityProtocol::WPA3Only)
    } else if all(mgmt, &enterprise) {
        Ok(SecurityProtocol::WPA2Enterprise)
    } else if all(mgmt, &owe) {
        Ok(SecurityProtocol::OWE)
    } else if all(mgmt, &none) {
        Ok(SecurityProtocol::WEP)
    } else if mgmt.len() == 0 {
        assert(network.key_management.deep_view().len() == 0);
        Ok(security_by_credentials(network))
    } else {
        assert(network.key_management.deep_view().len() != 0);
        Err(Failure::UnrecognizedKeyManagement(join_with_comma(mgmt)))
    }
}


/// The protocol versions of a list of authentication protocols.
pub open spec fn spec_versions(protos: Seq<EapAuthProto>) -> Seq<WPAProtocolVersion> {
    Seq::new(protos.len(), |i: int| protos[i].spec_version())
}

/// The pairwise algorithms of a list of ciphers: all of them where each has
/// a counterpart, none at all where one has not.
pub open spec fn spec_pairwise_algorithms(ciphers: Seq<EapPairwiseCipher>) -> Seq<PairwiseAlgorithm> {
    if forall|i: int| 0 <= i < ciphers.len() ==> (#[trigger] ciphers[i]).spec_algorithm() is Some {
        Seq::new(ciphers.len(), |i: int| ciphers[i].spec_algorithm().unwrap())
    } else {
        Seq::empty()
    }
}

/// The group algorithms of a list of ciphers: all of them where each has a
/// counterpart, none at all where one has not.
pub open spec fn spec_group_algorithms(ciphers: Seq<EapGroupCipher>) -> Seq<GroupAlgorithm> {
    if forall|i: int| 0 <= i < ciphers.len() ==> (#[trigger] ciphers[i]).spec_algorithm() is Some {
        Seq::new(ciphers.len(), |i: int| ciphers[i].spec_algorithm().unwrap())
    } else {
        Seq::empty()
    }
}

/// `config` with the protocol versions and ciphers replaced by those given,
/// and the PMF setting replaced where one is given.
pub open spec fn spec_common_settings(
    config: WirelessConfigView,
    auth_protos: Seq<EapAuthProto>,
    pairwise_ciphers: Seq<EapPairwiseCipher>,
    group_ciphers: Seq<EapGroupCipher>,
    pmf: Option<Pmf>,
) -> WirelessConfigView {
    WirelessConfigView {
        wpa_protocol_versions: spec_versions(auth_protos),
        pairwise_algorithms: spec_pairwise_algorithms(pairwise_ciphers),
        group_algorithms: spec_group_algorithms(group_ciphers),
        pmf: match pmf {
            Some(p) => p.spec_value(),
            None => config.pmf,
        },
        ..config
    }
}

fn versions(protos: &Vec<EapAuthProto>) -> (r: Vec<WPAProtocolVersion>)
    ensures
        r@ == spec_versions(protos@),
{
    let mut out: Vec<WPAProtocolVersion> = Vec::new();
    let mut i: usize = 0;
    while i < protos.len()
        invariant
            i <= protos.len(),
            out@ == spec_versions(protos@.take(i as int)),
        decreases protos.len() - i,
    {
        out.push(protos[i].to_version());
        i = i + 1;
        assert(out@ =~= spec_versions(protos@.take(i as int)));
    }
    assert(protos@.take(protos.len() as int) =~= protos@);
    out
}

fn pairwise_algorithms(ciphers: &Vec<EapPairwiseCipher>) -> (r: Vec<PairwiseAlgorithm>)
    ensures
        r@ == spec_pairwise_algorithms(ciphers@),
{
    let mut out: Vec<PairwiseAlgorithm> = Vec::new();
    let mut i: usize = 0;
    while i < ciphers.len()
        invariant
            i <= ciphers.len(),
            out@.len() == i,
            forall|k: int| 0 <= k < i ==> (#[trigger] ciphers[k]).spec_algorithm() == Some(out@[k]),
        decreases ciphers.len() - i,
    {
        match ciphers[i].to_algorithm() {
            Some(a) => {
                out.push(a);
            },
            None => {
                return Vec::new();
            },
        }
        i = i + 1;
    }
    assert(out@ =~= spec_pairwise_algorithms(ciphers@));
    out
}

fn group_algorithms(ciphers: &Vec<EapGroupCipher>) -> (r: Vec<GroupAlgorithm>)
    ensures
        r@ == spec_group_algorithms(ciphers@),
{
    let mut out: Vec<GroupAlgorithm> = Vec::new();
    let mut i: usize = 0;
    while i < ciphers.len()
        invariant
            i <= ciphers.len(),
            out@.len() == i,
            forall|k: int| 0 <= k < i ==> (#[trigger] ciphers[k]).spec_algorithm() == Some(out@[k]),
        decreases ciphers.len() - i,
    {
        match ciphers[i].to_algorithm() {
            Some(a) => {
                out.push(a);
            },
            None => {
                return Vec::new();
            },
        }
        i = i + 1;
    }
    assert(out@ =~= spec_group_algorithms(ciphers@));
    out
}

/// Writes the protocol versions, the ciphers and, where one is given, the
/// PMF setting into `config`.
pub fn common_settings_to_config(
    auth_protos: &Vec<EapAuthProto>,
    pairwise_ciphers: &Vec<EapPairwiseCipher>,
    group_ciphers: &Vec<EapGroupCipher>,
    pmf: &Option<Pmf>,
    config: &mut WirelessConfig,
)
    ensures
        final(config).deep_view() == spec_common_settings(
            old(config).deep_view(),
            auth_protos@,
            pairwise_ciphers@,
            group_ciphers@,
            *pmf,
        ),
{
    config.wpa_protocol_versions = versions(auth_protos);
    config.pairwise_algorithms = pairwise_algorithms(pairwise_ciphers);
    config.group_algorithms = group_algorithms(group_ciphers);
    match pmf {
        Some(p) => {
            config.pmf = p.value();
        },
        None => {},
    }
}

/// The WEP authentication algorithm that a keyword stands for.
pub open spec fn spec_wep_auth_alg(s: Seq<char>) -> Option<WEPAuthAlg> {
    if s == "open"@ {
        Some(WEPAuthAlg::Open)
    } else if s == "shared"@ {
        Some(WEPAuthAlg::Shared)
    } else if s == "leap"@ {
        Some(WEPAuthAlg::Leap)
    } else if s == ""@ {
        Some(WEPAuthAlg::Unset)
    } else {
        None
    }
}

fn wep_auth_alg(s: &str) -> (r: Option<WEPAuthAlg>)
    ensures
        r == spec_wep_auth_alg(s@),
{
    if str_eq(s, "open") {
        Some(WEPAuthAlg::Open)
    } else if str_eq(s, "shared") {
        Some(WEPAuthAlg::Shared)
    } else if str_eq(s, "leap") {
        Some(WEPAuthAlg::Leap)
    } else if str_eq(s, "") {
        Some(WEPAuthAlg::Unset)
    } else {
        None
    }
}

/// A WEP key without its type markers: `s:`, `h:`, then every colon, then
/// every dash taken out.
pub open spec fn spec_wep_key(key: Seq<char>) -> Seq<char> {
    replaced(replaced(replaced(replaced(key, "s:"@, ""@), "h:"@, ""@), ":"@, ""@), "-"@, ""@)
}

/// The WEP keys of a record, each without its type markers.
pub open spec fn spec_wep_keys(keys: Seq<String>) -> Seq<Seq<char>> {
    Seq::new(keys.len(), |i: int| spec_wep_key(keys[i]@))
}

fn wep_key(key: &str) -> (r: String)
    ensures
        r@ == spec_wep_key(key@),
{
    proof {
        reveal_strlit("s:");
        reveal_strlit("h:");
        reveal_strlit(":");
        reveal_strlit("-");
    }
    let a = str_replace(key, "s:", "");
    let b = str_replace(a.as_str(), "h:", "");
    let c = str_replace(b.as_str(), ":", "");
    str_replace(c.as_str(), "-", "")
}

fn wep_keys(keys: &Vec<String>) -> (r: Vec<String>)
    ensures
        r.deep_view() == spec_wep_keys(keys@),
{
    let mut out: Vec<String> = Vec::new();
    let mut i: usize = 0;
    while i < keys.len()
        invariant
            i <= keys.len(),
            out.deep_view() == spec_wep_keys(keys@.take(i as int)),
        decreases keys.len() - i,
    {
        let ghost before = out.deep_view();
        let stripped = wep_key(keys[i].as_str());
        assert(before.len() == out@.len());
        out.push(stripped);
        i = i + 1;
        assert(out.deep_view() =~= before.push(stripped@));
        assert(out.deep_view() =~= spec_wep_keys(keys@.take(i as int)));
    }
    assert(keys@.take(keys.len() as int) =~= keys@);
    out
}

/// The band that a channel lies in: 2.4 GHz up to channel 14, 5 GHz above.
pub open spec fn spec_band(channel: u32) -> WirelessBand {
    if channel <= 14 {
        WirelessBand::BG
    } else {
        WirelessBand::A
    }
}

impl Wep {
    /// The WEP settings of the record, `None` where the authentication
    /// algorithm is not known.
    pub open spec fn spec_security(&self) -> Option<WEPSecurityView> {
        match spec_wep_auth_alg(self.auth_algo@) {
            Some(auth_alg) => Some(
                WEPSecurityView {
                    auth_alg,
                    wep_key_type: WEPKeyType::Key,
                    keys: spec_wep_keys(self.key@),
                    wep_key_index: self.default_key,
                },
            ),
            None => None,
        }
    }

    /// The WEP settings of the record: the keys without their type markers,
    /// the index of the default key, the authentication algorithm.
    pub fn to_security(&self) -> (r: Option<WEPSecurity>)
        ensures
            r.deep_view() == self.spec_security(),
    {
        match wep_auth_alg(self.auth_algo.as_str()) {
            Some(auth_alg) => Some(
                WEPSecurity {
                    auth_alg,
                    wep_key_type: WEPKeyType::Key,
                    keys: wep_keys(&self.key),
                    wep_key_index: self.default_key,
                },
            ),
            None => None,
        }
    }
}

impl Network {
    /// The security protocol of the network by the strict rule table.
    pub open spec fn spec_strict(&self) -> Option<SecurityProtocol> {
        spec_strict_security(
            self.key_management.deep_view(),
            self.wpa_eap is Some,
            self.wpa_psk is Some,
        )
    }

    /// The security protocol of the network by the fallback table.
    pub open spec fn spec_guess(&self) -> SecurityProtocol {
        spec_guessed_security(
            self.key_management.deep_view(),
            self.wpa_eap is Some,
            self.wpa_psk is Some,
        )
    }

    /// The security protocol of the network: by the strict table, and where
    /// that gives none, by the fallback table if the caller goes on in spite
    /// of warnings.
    pub open spec fn spec_security(&self, continue_migration: bool) -> Option<SecurityProtocol> {
        match self.spec_strict() {
            Some(p) => Some(p),
            None => if continue_migration {
                Some(self.spec_guess())
            } else {
                None
            },
        }
    }

    /// What the translation of the network reports: the guess of a security
    /// protocol, and the band that was derived from a channel.
    pub open spec fn spec_warnings(&self, continue_migration: bool) -> Seq<WarningView> {
        (if self.spec_strict() is None && continue_migration {
            seq![
                WarningView::GuessedSecurity {
                    key_management: joined(self.key_management.deep_view(), seq![',']),
                    protocol: self.spec_guess(),
                },
            ]
        } else {
            Seq::empty()
        }) + (match self.channel {
            Some(c) => seq![WarningView::WirelessBand { band: spec_band(c) }],
            None => Seq::empty(),
        })
    }

    /// The settings that the WPA-PSK part of the record contributes.
    pub open spec fn spec_with_psk(&self, config: WirelessConfigView) -> WirelessConfigView {
        match self.wpa_psk {
            Some(psk) => spec_common_settings(
                WirelessConfigView { password: Some(psk.passphrase@), ..config },
                psk.auth_proto@,
                psk.pairwise_cipher@,
                psk.group_cipher@,
                psk.pmf,
            ),
            None => config,
        }
    }

    /// The settings that the WPA-EAP part of the record contributes.
    pub open spec fn spec_with_eap(&self, config: WirelessConfigView) -> WirelessConfigView {
        match self.wpa_eap {
            Some(eap) => spec_common_settings(
                config,
                eap.auth_proto@,
                eap.pairwise_cipher@,
                eap.group_cipher@,
                eap.pmf,
            ),
            None => config,
        }
    }

    /// The wireless settings of the network. It fails, in this order, where
    /// no security protocol can be derived, where the access point is no
    /// hardware address, and where the WEP authentication algorithm is not
    /// known.
    pub open spec fn spec_wireless_config(&self, continue_migration: bool) -> Result<
        WirelessConfigView,
        FailureView,
    > {
        if self.spec_security(continue_migration) is None {
            Err(
                FailureView::UnrecognizedKeyManagement(
                    joined(self.key_management.deep_view(), seq![',']),
                ),
            )
        } else if self.access_point is Some && parsed_mac(self.access_point.unwrap()@) is None {
            Err(FailureView::InvalidAccessPoint)
        } else if self.wep is Some && self.wep.unwrap().spec_security() is None {
            Err(FailureView::InvalidWepAuthAlg)
        } else {
            Ok(
                self.spec_with_eap(
                    WirelessConfigView {
                        band: match self.channel {
                            Some(c) => Some(spec_band(c)),
                            None => None,
                        },
                        channel: match self.channel {
                            Some(c) => c,
                            None => 0,
                        },
                        bssid: match self.access_point {
                            Some(ap) => parsed_mac(ap@),
                            None => None,
                        },
                        wep_security: match self.wep {
                            Some(wep) => wep.spec_security(),
                            None => None,
                        },
                        mode: self.mode.spec_mode(),
                        ..self.spec_with_psk(
                            WirelessConfigView {
                                mode: WirelessMode::Infra,
                                ssid: vstd::utf8::encode_utf8(self.essid@),
                                password: None,
                                security: self.spec_security(continue_migration).unwrap(),
                                band: None,
                                channel: 0,
                                bssid: None,
                                wep_security: None,
                                hidden: self.scan_ssid,
                                group_algorithms: Seq::empty(),
                                pairwise_algorithms: Seq::empty(),
                                wpa_protocol_versions: Seq::empty(),
                                pmf: 0,
                            },
                        )
                    },
                ),
            )
        }
    }

    /// The connection configuration of the network with what its
    /// translation reports, or the reason why there is none.
    pub open spec fn spec_config(&self, continue_migration: bool) -> Result<
        (ConnectionConfigView, Seq<WarningView>),
        FailureView,
    > {
        match self.spec_wireless_config(continue_migration) {
            Ok(c) => Ok((ConnectionConfigView::Wireless(c), self.spec_warnings(continue_migration))),
            Err(e) => Err(e),
        }
    }

    /// Translates the network. The security protocol is derived from the
    /// key-management protocols; where the strict rules give none, the
    /// translation fails unless `settings.continue_migration` allows a
    /// guess, which is reported as a warning.
    pub fn to_config(&self, settings: &MigrationSettings) -> (r: Result<
        (ConnectionConfig, Vec<Warning>),
        Failure,
    >)
        ensures
            result_view(r) == self.spec_config(settings.continue_migration),
    {
        let mut warnings: Vec<Warning> = Vec::new();
        assert(warnings.deep_view() =~= Seq::empty());
        let security = match wireless_security_protocol(self) {
            Ok(p) => p,
            Err(e) => {
                if !settings.continue_migration {
                    return Err(e);
                }
                match guess_wireless_security_protocol(self) {
                    Ok(p) => {
                        warnings.push(
                            Warning::GuessedSecurity {
                                key_management: join_with_comma(&self.key_management),
                                protocol: p,
                            },
                        );
                        p
                    },
                    Err(e) => {
                        return Err(e);
                    },
                }
            },
        };
        let ghost guess_warnings = warnings.deep_view();
        assert(guess_warnings =~= if self.spec_strict() is None && settings.continue_migration {
            seq![
                WarningView::GuessedSecurity {
                    key_management: joined(self.key_management.deep_view(), seq![',']),
                    protocol: self.spec_guess(),
                },
            ]
        } else {
            Seq::empty()
        });
        let mut config = WirelessConfig {
            mode: WirelessMode::Infra,
            ssid: self.essid.as_str().as_bytes_vec(),
            password: None,
            security,
            band: None,
            channel: 0,
            bssid: None,
            wep_security: None,
            hidden: self.scan_ssid,
            group_algorithms: Vec::new(),
            pairwise_algorithms: Vec::new(),
            wpa_protocol_versions: Vec::new(),
            pmf: 0,
        };
        match &self.wpa_psk {
            Some(psk) => {
                config.password = Some(psk.passphrase.clone());
                common_settings_to_config(
                    &psk.auth_proto,
                    &psk.pairwise_cipher,
                    &psk.group_cipher,
                    &psk.pmf,
                    &mut config,
                );
            },
            None => {},
        }
        match self.channel {
            Some(channel) => {
                config.channel = channel;
                let band = if channel <= 14 {
                    WirelessBand::BG
                } else {
                    WirelessBand::A
                };
                config.band = Some(band);
                warnings.push(Warning::WirelessBand { band });
                assert(warnings.deep_view() =~= guess_warnings + seq![
                    WarningView::WirelessBand { band: spec_band(channel) },
                ]);
            },
            None => {
                assert(warnings.deep_view() =~= guess_warnings + Seq::empty());
            },
        }
        match &self.access_point {
            Some(ap) => {
                match MacAddr6::parse(ap.as_str()) {
                    Some(m) => {
                        config.bssid = Some(m);
                    },
                    None => {
                        return Err(Failure::InvalidAccessPoint);
                    },
                }
            },
            None => {},
        }
        match &self.wep {
            Some(wep) => {
                match wep.to_security() {
                    Some(s) => {
                        config.wep_security = Some(s);
                    },
                    None => {
                        return Err(Failure::InvalidWepAuthAlg);
                    },
                }
            },
            None => {},
        }
        match &self.wpa_eap {
            Some(eap) => {
                common_settings_to_config(
                    &eap.auth_proto,
                    &eap.pairwise_cipher,
                    &eap.group_cipher,
                    &eap.pmf,
                    &mut config,
                );
            },
            None => {},
        }
        config.mode = self.mode.to_mode();
        Ok((ConnectionConfig::Wireless(config), warnings))
    }
}

/// The path of a certificate, if there is one and it is not given as
/// hexadecimal data.
pub open spec fn spec_opt_cert_path(cert: Option<WickedCertificate>) -> Option<Seq<char>> {
    match cert {
        Some(c) => match spec_cert_path(&c) {
            Ok(p) => Some(p),
            Err(_) => None,
        },
        None => None,
    }
}

/// Whether a certificate is given as hexadecimal data.
pub open spec fn is_hex(cert: Option<WickedCertificate>) -> bool {
    cert is Some && cert.unwrap().cert_type == WickedCertType::Hex
}

impl WpaEap {
    /// The 802.1X settings of the record. It fails, in this order, where
    /// the method cannot stand as outer method, where the phase 2 method
    /// cannot stand as inner method, and where a certificate is given as
    /// hexadecimal data.
    pub open spec fn spec_ieee_8021x_config(&self) -> Result<IEEE8021XConfigView, FailureView> {
        if self.method.spec_eap_method() is None {
            Err(FailureView::InvalidEapMethod)
        } else if self.phase2 is Some && self.phase2.unwrap().method is Some
            && self.phase2.unwrap().method.unwrap().spec_phase2_method() is None {
            Err(FailureView::InvalidPhase2Method)
        } else if self.tls is Some && (is_hex(self.tls.unwrap().ca_cert) || is_hex(
            self.tls.unwrap().client_cert,
        ) || is_hex(self.tls.unwrap().client_key)) {
            Err(FailureView::HexCertificate)
        } else {
            Ok(
                IEEE8021XConfigView {
                    eap: seq![self.method.spec_eap_method().unwrap()],
                    phase2_auth: match self.phase2 {
                        Some(p) => match p.method {
                            Some(m) => m.spec_phase2_method(),
                            None => None,
                        },
                        None => None,
                    },
                    identity: self.identity.deep_view(),
                    password: match self.phase2 {
                        Some(p) => p.password.deep_view(),
                        None => None,
                    },
                    ca_cert: match self.tls {
                        Some(t) => spec_opt_cert_path(t.ca_cert),
                        None => None,
                    },
                    ca_cert_password: None,
                    client_cert: match self.tls {
                        Some(t) => spec_opt_cert_path(t.client_cert),
                        None => None,
                    },
                    client_cert_password: None,
                    private_key: match self.tls {
                        Some(t) => spec_opt_cert_path(t.client_key),
                        None => None,
                    },
                    private_key_password: match self.tls {
                        Some(t) => t.client_key_passwd.deep_view(),
                        None => None,
                    },
                    anonymous_identity: self.anonid.deep_view(),
                    peap_version: match self.phase1 {
                        Some(p) => match p.peap_version {
                            Some(v) => Some(decimal(v as nat)),
                            None => None,
                        },
                        None => None,
                    },
                    peap_label: match self.phase1 {
                        Some(p) => match p.peap_label {
                            Some(l) => l,
                            None => false,
                        },
                        None => false,
                    },
                },
            )
        }
    }

    /// Translates the enterprise authentication settings.
    pub fn to_ieee_8021x_config(&self) -> (r: Result<IEEE8021XConfig, Failure>)
        ensures
            result_view(r) == self.spec_ieee_8021x_config(),
    {
        let method = match self.method.to_eap_method() {
            Some(m) => m,
            None => {
                return Err(Failure::InvalidEapMethod);
            },
        };
        let mut eap: Vec<EAPMethod> = Vec::new();
        eap.push(method);
        assert(eap@ =~= seq![method]);
        let mut config = IEEE8021XConfig {
            eap,
            phase2_auth: None,
            identity: self.identity.clone(),
            password: None,
            ca_cert: None,
            ca_cert_password: None,
            client_cert: None,
            client_cert_password: None,
            private_key: None,
            private_key_password: None,
            anonymous_identity: self.anonid.clone(),
            peap_version: None,
            peap_label: false,
        };
        match &self.phase1 {
            Some(phase1) => {
                match phase1.peap_label {
                    Some(l) => {
                        config.peap_label = l;
                    },
                    None => {},
                }
                match phase1.peap_version {
                    Some(v) => {
                        config.peap_version = Some(u32_to_string(v));
                    },
                    None => {},
                }
            },
            None => {},
        }
        match &self.phase2 {
            Some(phase2) => {
                match phase2.method {
                    Some(m) => {
                        match m.to_phase2_method() {
                            Some(p) => {
                                config.phase2_auth = Some(p);
                            },
                            None => {
                                return Err(Failure::InvalidPhase2Method);
                            },
                        }
                    },
                    None => {},
                }
                config.password = phase2.password.clone();
            },
            None => {},
        }
        match &self.tls {
            Some(tls) => {
                match &tls.ca_cert {
                    Some(c) => {
                        match wicked_cert_to_path(c) {
                            Ok(p) => {
                                config.ca_cert = Some(p);
                            },
                            Err(e) => {
                                return Err(e);
                            },
                        }
                    },
                    None => {},
                }
                match &tls.client_cert {
                    Some(c) => {
                        match wicked_cert_to_path(c) {
                            Ok(p) => {
                                config.client_cert = Some(p);
                            },
                            Err(e) => {
                                return Err(e);
                            },
                        }
                    },
                    None => {},
                }
                match &tls.client_key {
                    Some(c) => {
                        match wicked_cert_to_path(c) {
                            Ok(p) => {
                                config.private_key = Some(p);
                            },
                            Err(e) => {
                                return Err(e);
                            },
                        }
                    },
                    None => {},
                }
                config.private_key_password = tls.client_key_passwd.clone();
            },
            None => {},
        }
        Ok(config)
    }
}

} // verus!
