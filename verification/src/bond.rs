//! Bond records and their translation into bond options.

use vstd::prelude::*;
use crate::model::{BondConfig, BondConfigView, BondMode, BondOptions, ConnectionConfig, ConnectionConfigView};
use crate::text::{decimal, joined, join_with_comma, u32_to_string};

verus! {

#[derive(Clone, Copy, Debug, PartialEq, Eq, Structural)]
pub enum ParentKind {
    Bond,
}

#[derive(Clone, Copy, Debug, PartialEq, Eq, Structural)]
pub enum FailOverMac {
    Nil,
    Active,
    Follow,
}

#[derive(Clone, Copy, Debug, PartialEq, Eq, Structural)]
pub enum XmitHashPolicy {
    Layer2,
    Layer23,
    Layer34,
    Encap23,
    Encap34,
}

#[derive(Clone, Copy, Debug, PartialEq, Eq, Structural)]
pub enum LacpRate {
    Slow,
    Fast,
}

#[derive(Clone, Copy, Debug, PartialEq, Eq, Structural)]
pub enum AdSelect {
    Stable,
    Bandwidth,
    Count,
}

#[derive(Clone, Copy, Debug, PartialEq, Eq, Structural)]
pub enum PrimaryReselect {
    Always,
    Better,
    Failure,
}

#[derive(Clone, Copy, Debug, PartialEq, Eq, Structural)]
pub enum WickedBondMode {
    BalanceRr,
    ActiveBackup,
    BalanceXor,
    Broadcast,
    IEEE8023ad,
    BalanceTlb,
    BalanceAlb,
}

#[derive(Clone, Debug, PartialEq, Eq)]
pub struct Bond {
    pub mode: WickedBondMode,
    pub miimon: Option<Miimon>,
    pub arpmon: Option<ArpMon>,
    pub slaves: Vec<Slave>,
    pub xmit_hash_policy: Option<XmitHashPolicy>,
    pub packets_per_slave: Option<u32>,
    pub tlb_dynamic_lb: Option<bool>,
    pub lacp_rate: Option<LacpRate>,
    pub ad_select: Option<AdSelect>,
    pub ad_user_port_key: Option<u32>,
    pub ad_actor_sys_prio: Option<u32>,
    pub ad_actor_system: Option<String>,
    pub min_links: Option<u32>,
    pub primary_reselect: Option<PrimaryReselect>,
    pub fail_over_mac: Option<FailOverMac>,
    pub num_grat_arp: Option<u32>,
    pub num_unsol_na: Option<u32>,
    pub lp_interval: Option<u32>,
    pub resend_igmp: Option<u32>,
    pub all_slaves_active: Option<bool>,
    pub address: Option<String>,
}

#[derive(Clone, Debug, PartialEq, Eq, Default)]
pub struct Slave {
    pub device: String,
    pub primary: Option<bool>,
}

#[derive(Clone, Copy, Debug, PartialEq, Eq, Structural, Default)]
pub enum CarrierDetect {
    Ioctl,
    #[default]
    Netif,
}

#[derive(Clone, Debug, PartialEq, Eq, Default)]
pub struct Miimon {
    pub frequency: u32,
    pub carrier_detect: CarrierDetect,
    pub downdelay: Option<u32>,
    pub updelay: Option<u32>,
}

#[derive(Clone, Copy, Debug, PartialEq, Eq, Structural)]
pub enum ArpValidateTargets {
    Any,
    All,
}

#[derive(Clone, Copy, Debug, PartialEq, Eq, Structural)]
pub enum ArpValidate {
    Nil,
    Active,
    Backup,
    All,
    Filter,
    FilterActive,
    FilterBackup,
}

#[derive(Clone, Debug, PartialEq, Eq)]
pub struct ArpMon {
    pub interval: u32,
    pub validate: ArpValidate,
    pub validate_targets: Option<ArpValidateTargets>,
    pub targets: Vec<String>,
}

impl FailOverMac {
    /// The keyword of a setting, if it is set.
    pub open spec fn spec_option_name(v: Option<FailOverMac>) -> Option<Seq<char>> {
        match v {
            Some(x) => Some(x.spec_name()),
            None => None,
        }
    }

    /// The keyword of a setting, if it is set.
    pub fn option_name(v: Option<FailOverMac>) -> (r: Option<String>)
        ensures
            r.deep_view() == Self::spec_option_name(v),
    {
        match v {
            Some(x) => Some(x.name().to_owned()),
            None => None,
        }
    }

    pub open spec fn spec_name(&self) -> Seq<char> {
        match self {
            FailOverMac::Nil => "none"@,
            FailOverMac::Active => "active"@,
            FailOverMac::Follow => "follow"@,
        }
    }

    /// The keyword of the policy.
    pub fn name(&self) -> (r: &'static str)
        ensures
            r@ == self.spec_name(),
    {
        match self {
            FailOverMac::Nil => "none",
            FailOverMac::Active => "active",
            FailOverMac::Follow => "follow",
        }
    }
}

impl XmitHashPolicy {
    /// The keyword of a setting, if it is set.
    pub open spec fn spec_option_name(v: Option<XmitHashPolicy>) -> Option<Seq<char>> {
        match v {
            Some(x) => Some(x.spec_name()),
            None => None,
        }
    }

    /// The keyword of a setting, if it is set.
    pub fn option_name(v: Option<XmitHashPolicy>) -> (r: Option<String>)
        ensures
            r.deep_view() == Self::spec_option_name(v),
    {
        match v {
            Some(x) => Some(x.name().to_owned()),
            None => None,
        }
    }

    pub open spec fn spec_name(&self) -> Seq<char> {
        match self {
            XmitHashPolicy::Layer2 => "layer2"@,
            XmitHashPolicy::Layer23 => "layer23"@,
            XmitHashPolicy::Layer34 => "layer34"@,
            XmitHashPolicy::Encap23 => "encap23"@,
            XmitHashPolicy::Encap34 => "encap34"@,
        }
    }

    /// The keyword of the policy.
    pub fn name(&self) -> (r: &'static str)
        ensures
            r@ == self.spec_name(),
    {
        match self {
            XmitHashPolicy::Layer2 => "layer2",
            XmitHashPolicy::Layer23 => "layer23",
            XmitHashPolicy::Layer34 => "layer34",
            XmitHashPolicy::Encap23 => "encap23",
            XmitHashPolicy::Encap34 => "encap34",
        }
    }
}

impl LacpRate {
    /// The keyword of a setting, if it is set.
    pub open spec fn spec_option_name(v: Option<LacpRate>) -> Option<Seq<char>> {
        match v {
            Some(x) => Some(x.spec_name()),
            None => None,
        }
    }

    /// The keyword of a setting, if it is set.
    pub fn option_name(v: Option<LacpRate>) -> (r: Option<String>)
        ensures
            r.deep_view() == Self::spec_option_name(v),
    {
        match v {
            Some(x) => Some(x.name().to_owned()),
            None => None,
        }
    }

    pub open spec fn spec_name(&self) -> Seq<char> {
        match self {
            LacpRate::Slow => "slow"@,
            LacpRate::Fast => "fast"@,
        }
    }

    /// The keyword of the rate.
    pub fn name(&self) -> (r: &'static str)
        ensures
            r@ == self.spec_name(),
    {
        match self {
            LacpRate::Slow => "slow",
            LacpRate::Fast => "fast",
        }
    }
}

impl AdSelect {
    /// The keyword of a setting, if it is set.
    pub open spec fn spec_option_name(v: Option<AdSelect>) -> Option<Seq<char>> {
        match v {
            Some(x) => Some(x.spec_name()),
            None => None,
        }
    }

    /// The keyword of a setting, if it is set.
    pub fn option_name(v: Option<AdSelect>) -> (r: Option<String>)
        ensures
            r.deep_view() == Self::spec_option_name(v),
    {
        match v {
            Some(x) => Some(x.name().to_owned()),
            None => None,
        }
    }

    pub open spec fn spec_name(&self) -> Seq<char> {
        match self {
            AdSelect::Stable => "stable"@,
            AdSelect::Bandwidth => "bandwidth"@,
            AdSelect::Count => "count"@,
        }
    }

    /// The keyword of the selection logic.
    pub fn name(&self) -> (r: &'static str)
        ensures
            r@ == self.spec_name(),
    {
        match self {
            AdSelect::Stable => "stable",
            AdSelect::Bandwidth => "bandwidth",
            AdSelect::Count => "count",
        }
    }
}

impl PrimaryReselect {
    /// The keyword of a setting, if it is set.
    pub open spec fn spec_option_name(v: Option<PrimaryReselect>) -> Option<Seq<char>> {
        match v {
            Some(x) => Some(x.spec_name()),
            None => None,
        }
    }

    /// The keyword of a setting, if it is set.
    pub fn option_name(v: Option<PrimaryReselect>) -> (r: Option<String>)
        ensures
            r.deep_view() == Self::spec_option_name(v),
    {
        match v {
            Some(x) => Some(x.name().to_owned()),
            None => None,
        }
    }

    pub open spec fn spec_name(&self) -> Seq<char> {
        match self {
            PrimaryReselect::Always => "always"@,
            PrimaryReselect::Better => "better"@,
            PrimaryReselect::Failure => "failure"@,
        }
    }

    /// The keyword of the reselection policy.
    pub fn name(&self) -> (r: &'static str)
        ensures
            r@ == self.spec_name(),
    {
        match self {
            PrimaryReselect::Always => "always",
            PrimaryReselect::Better => "better",
            PrimaryReselect::Failure => "failure",
        }
    }
}

impl ArpValidateTargets {
    /// The keyword of a setting, if it is set.
    pub open spec fn spec_option_name(v: Option<ArpValidateTargets>) -> Option<Seq<char>> {
        match v {
            Some(x) => Some(x.spec_name()),
            None => None,
        }
    }

    /// The keyword of a setting, if it is set.
    pub fn option_name(v: Option<ArpValidateTargets>) -> (r: Option<String>)
        ensures
            r.deep_view() == Self::spec_option_name(v),
    {
        match v {
            Some(x) => Some(x.name().to_owned()),
            None => None,
        }
    }

    pub open spec fn spec_name(&self) -> Seq<char> {
        match self {
            ArpValidateTargets::Any => "any"@,
            ArpValidateTargets::All => "all"@,
        }
    }

    /// The keyword of the setting.
    pub fn name(&self) -> (r: &'static str)
        ensures
            r@ == self.spec_name(),
    {
        match self {
            ArpValidateTargets::Any => "any",
            ArpValidateTargets::All => "all",
        }
    }
}

impl ArpValidate {
    pub open spec fn spec_name(&self) -> Seq<char> {
        match self {
            ArpValidate::Nil => "none"@,
            ArpValidate::Active => "active"@,
            ArpValidate::Backup => "backup"@,
            ArpValidate::All => "all"@,
            ArpValidate::Filter => "filter"@,
            ArpValidate::FilterActive => "filter_active"@,
            ArpValidate::FilterBackup => "filter_backup"@,
        }
    }

    /// The keyword of the setting.
    pub fn name(&self) -> (r: &'static str)
        ensures
            r@ == self.spec_name(),
    {
        match self {
            ArpValidate::Nil => "none",
            ArpValidate::Active => "active",
            ArpValidate::Backup => "backup",
            ArpValidate::All => "all",
            ArpValidate::Filter => "filter",
            ArpValidate::FilterActive => "filter_active",
            ArpValidate::FilterBackup => "filter_backup",
        }
    }
}

impl CarrierDetect {
    /// The value of `use_carrier`: `0` for ioctl, `1` for netif.
    pub open spec fn spec_use_carrier(&self) -> Seq<char> {
        match self {
            CarrierDetect::Ioctl => "0"@,
            CarrierDetect::Netif => "1"@,
        }
    }

    /// The value of the bond option `use_carrier`.
    pub fn use_carrier(&self) -> (r: &'static str)
        ensures
            r@ == self.spec_use_carrier(),
    {
        match self {
            CarrierDetect::Ioctl => "0",
            CarrierDetect::Netif => "1",
        }
    }
}

impl WickedBondMode {
    pub open spec fn spec_bond_mode(&self) -> BondMode {
        match self {
            WickedBondMode::BalanceRr => BondMode::RoundRobin,
            WickedBondMode::ActiveBackup => BondMode::ActiveBackup,
            WickedBondMode::BalanceXor => BondMode::BalanceXOR,
            WickedBondMode::Broadcast => BondMode::Broadcast,
            WickedBondMode::IEEE8023ad => BondMode::LACP,
            WickedBondMode::BalanceTlb => BondMode::BalanceTLB,
            WickedBondMode::BalanceAlb => BondMode::BalanceALB,
        }
    }

    /// The bonding mode in the target model.
    pub fn to_bond_mode(&self) -> (r: BondMode)
        ensures
            r == self.spec_bond_mode(),
    {
        match self {
            WickedBondMode::BalanceRr => BondMode::RoundRobin,
            WickedBondMode::ActiveBackup => BondMode::ActiveBackup,
            WickedBondMode::BalanceXor => BondMode::BalanceXOR,
            WickedBondMode::Broadcast => BondMode::Broadcast,
            WickedBondMode::IEEE8023ad => BondMode::LACP,
            WickedBondMode::BalanceTlb => BondMode::BalanceTLB,
            WickedBondMode::BalanceAlb => BondMode::BalanceALB,
        }
    }
}

/// The device of the first port that is marked as primary.
pub open spec fn primary_of(slaves: Seq<Slave>) -> Option<String>
    decreases slaves.len(),
{
    if slaves.len() == 0 {
        None
    } else if slaves[0].primary == Some(true) {
        Some(slaves[0].device)
    } else {
        primary_of(slaves.drop_first())
    }
}

/// One option if the value is set, none if it is not.
pub open spec fn entry(key: Seq<char>, value: Option<Seq<char>>) -> Seq<(Seq<char>, Seq<char>)> {
    match value {
        Some(v) => seq![(key, v)],
        None => Seq::empty(),
    }
}

/// A number in decimal, if there is one.
pub open spec fn number(v: Option<u32>) -> Option<Seq<char>> {
    match v {
        Some(n) => Some(decimal(n as nat)),
        None => None,
    }
}

/// `1` for true and `0` for false, if there is a value.
pub open spec fn flag(v: Option<bool>) -> Option<Seq<char>> {
    match v {
        Some(b) => Some(
            if b {
                "1"@
            } else {
                "0"@
            },
        ),
        None => None,
    }
}

impl Miimon {
    /// The options of link monitoring: frequency and carrier detection
    /// always, the delays where set.
    pub open spec fn spec_options(&self) -> Seq<(Seq<char>, Seq<char>)> {
        seq![
            ("miimon"@, decimal(self.frequency as nat)),
            ("use_carrier"@, self.carrier_detect.spec_use_carrier()),
        ] + entry("downdelay"@, number(self.downdelay)) + entry("updelay"@, number(self.updelay))
    }
}

impl ArpMon {
    /// The options of ARP monitoring: interval and validation always, the
    /// targets (joined by commas) where there are any, the target policy
    /// where set.
    pub open spec fn spec_options(&self) -> Seq<(Seq<char>, Seq<char>)> {
        seq![
            ("arp_interval"@, decimal(self.interval as nat)),
            ("arp_validate"@, self.validate.spec_name()),
        ] + entry(
            "arp_ip_target"@,
            if self.targets@.len() > 0 {
                Some(joined(self.targets.deep_view(), seq![',']))
            } else {
                None
            },
        ) + entry("arp_all_targets"@, ArpValidateTargets::spec_option_name(self.validate_targets))
    }
}

impl Miimon {
    /// The options of link monitoring.
    pub fn options(&self) -> (r: Vec<(String, String)>)
        ensures
            r.deep_view() == self.spec_options(),
    {
        let mut h: Vec<(String, String)> = Vec::new();
        h.push(("miimon".to_owned(), u32_to_string(self.frequency)));
        h.push(("use_carrier".to_owned(), self.carrier_detect.use_carrier().to_owned()));
        assert(h.deep_view() =~= seq![
            ("miimon"@, decimal(self.frequency as nat)),
            ("use_carrier"@, self.carrier_detect.spec_use_carrier()),
        ]);
        push_entry(&mut h, "downdelay", number_text(self.downdelay));
        push_entry(&mut h, "updelay", number_text(self.updelay));
        h
    }
}

impl ArpMon {
    /// The options of ARP monitoring.
    pub fn options(&self) -> (r: Vec<(String, String)>)
        ensures
            r.deep_view() == self.spec_options(),
    {
        let mut h: Vec<(String, String)> = Vec::new();
        h.push(("arp_interval".to_owned(), u32_to_string(self.interval)));
        h.push(("arp_validate".to_owned(), self.validate.name().to_owned()));
        assert(h.deep_view() =~= seq![
            ("arp_interval"@, decimal(self.interval as nat)),
            ("arp_validate"@, self.validate.spec_name()),
        ]);
        let targets: Option<String> = if self.targets.len() > 0 {
            Some(join_with_comma(&self.targets))
        } else {
            None
        };
        push_entry(&mut h, "arp_ip_target", targets);
        push_entry(&mut h, "arp_all_targets", ArpValidateTargets::option_name(self.validate_targets));
        h
    }
}

fn push_entry(options: &mut Vec<(String, String)>, key: &str, value: Option<String>)
    ensures
        final(options).deep_view() == old(options).deep_view() + entry(key@, value.deep_view()),
{
    match value {
        Some(v) => {
            options.push((key.to_owned(), v));
            assert(options.deep_view() =~= old(options).deep_view() + seq![(key@, v@)]);
        },
        None => {
            assert(options.deep_view() =~= old(options).deep_view() + Seq::empty());
        },
    }
}

fn number_text(v: Option<u32>) -> (r: Option<String>)
    ensures
        r.deep_view() == number(v),
{
    match v {
        Some(n) => Some(u32_to_string(n)),
        None => None,
    }
}

fn flag_text(v: Option<bool>) -> (r: Option<String>)
    ensures
        r.deep_view() == flag(v),
{
    match v {
        Some(b) => Some(
            if b {
                "1".to_owned()
            } else {
                "0".to_owned()
            },
        ),
        None => None,
    }
}

impl Bond {
    pub open spec fn spec_primary(&self) -> Option<String> {
        primary_of(self.slaves@)
    }

    /// The device of the first port that is marked as primary.
    pub fn primary(&self) -> (r: Option<&String>)
        ensures
            r == match self.spec_primary() {
                Some(s) => Some(&s),
                None => None,
            },
    {
        let mut i: usize = 0;
        assert(self.slaves@.skip(0) =~= self.slaves@);
        while i < self.slaves.len()
            invariant
                i <= self.slaves.len(),
                primary_of(self.slaves@) == primary_of(self.slaves@.skip(i as int)),
            decreases self.slaves.len() - i,
        {
            assert(self.slaves@.skip(i as int).drop_first() =~= self.slaves@.skip(i + 1));
            match self.slaves[i].primary {
                Some(true) => {
                    return Some(&self.slaves[i].device);
                },
                _ => {},
            }
            i = i + 1;
        }
        None
    }

    /// The tuning options that the record sets, each under its kernel name.
    pub open spec fn spec_tuning_options(&self) -> Seq<(Seq<char>, Seq<char>)> {
        entry("fail_over_mac"@, FailOverMac::spec_option_name(self.fail_over_mac)) + entry(
            "xmit_hash_policy"@,
            XmitHashPolicy::spec_option_name(self.xmit_hash_policy),
        ) + entry("packets_per_slave"@, number(self.packets_per_slave)) + entry(
            "tlb_dynamic_lb"@,
            flag(self.tlb_dynamic_lb),
        ) + entry("lacp_rate"@, LacpRate::spec_option_name(self.lacp_rate)) + entry(
            "ad_select"@,
            AdSelect::spec_option_name(self.ad_select),
        ) + entry("ad_user_port_key"@, number(self.ad_user_port_key)) + entry(
            "ad_actor_sys_prio"@,
            number(self.ad_actor_sys_prio),
        ) + entry("ad_actor_system"@, self.ad_actor_system.deep_view()) + entry(
            "min_links"@,
            number(self.min_links),
        ) + entry(
            "primary_reselect"@,
            PrimaryReselect::spec_option_name(self.primary_reselect),
        ) + entry("num_grat_arp"@, number(self.num_grat_arp)) + entry(
            "num_unsol_na"@,
            number(self.num_unsol_na),
        ) + entry("lp_interval"@, number(self.lp_interval)) + entry(
            "resend_igmp"@,
            number(self.resend_igmp),
        ) + entry("all_slaves_active"@, flag(self.all_slaves_active))
    }

    /// The primary port and the options of link and ARP monitoring.
    pub open spec fn spec_monitor_options(&self) -> Seq<(Seq<char>, Seq<char>)> {
        entry("primary"@, self.spec_primary().deep_view()) + (match self.miimon {
            Some(m) => m.spec_options(),
            None => Seq::empty(),
        }) + (match self.arpmon {
            Some(a) => a.spec_options(),
            None => Seq::empty(),
        })
    }

    /// The bond options that the record sets, in a fixed order: the primary
    /// port, link monitoring, ARP monitoring, then the tuning options.
    /// Only what the record sets is there.
    pub open spec fn spec_options(&self) -> Seq<(Seq<char>, Seq<char>)> {
        self.spec_monitor_options() + self.spec_tuning_options()
    }

    pub open spec fn spec_config(&self) -> ConnectionConfigView {
        ConnectionConfigView::Bond(
            BondConfigView { mode: self.mode.spec_bond_mode(), options: self.spec_options() },
        )
    }

    fn tuning_options(&self) -> (r: Vec<(String, String)>)
        ensures
            r.deep_view() == self.spec_tuning_options(),
    {
        let mut h: Vec<(String, String)> = Vec::new();
        assert(h.deep_view() =~= Seq::empty());
        push_entry(&mut h, "fail_over_mac", FailOverMac::option_name(self.fail_over_mac));
        assert(h.deep_view() =~= entry(
            "fail_over_mac"@,
            FailOverMac::spec_option_name(self.fail_over_mac),
        ));
        push_entry(&mut h, "xmit_hash_policy", XmitHashPolicy::option_name(self.xmit_hash_policy));
        push_entry(&mut h, "packets_per_slave", number_text(self.packets_per_slave));
        push_entry(&mut h, "tlb_dynamic_lb", flag_text(self.tlb_dynamic_lb));
        push_entry(&mut h, "lacp_rate", LacpRate::option_name(self.lacp_rate));
        push_entry(&mut h, "ad_select", AdSelect::option_name(self.ad_select));
        push_entry(&mut h, "ad_user_port_key", number_text(self.ad_user_port_key));
        push_entry(&mut h, "ad_actor_sys_prio", number_text(self.ad_actor_sys_prio));
        push_entry(&mut h, "ad_actor_system", self.ad_actor_system.clone());
        push_entry(&mut h, "min_links", number_text(self.min_links));
        push_entry(&mut h, "primary_reselect", PrimaryReselect::option_name(self.primary_reselect));
        push_entry(&mut h, "num_grat_arp", number_text(self.num_grat_arp));
        push_entry(&mut h, "num_unsol_na", number_text(self.num_unsol_na));
        push_entry(&mut h, "lp_interval", number_text(self.lp_interval));
        push_entry(&mut h, "resend_igmp", number_text(self.resend_igmp));
        push_entry(&mut h, "all_slaves_active", flag_text(self.all_slaves_active));
        h
    }

    /// The bond configuration: the translated mode and the options that the
    /// record sets. No option name occurs twice.
    pub fn to_config(&self) -> (r: ConnectionConfig)
        ensures
            r.deep_view() == self.spec_config(),
            distinct_names(self.spec_options()),
    {
        proof {
            lemma_bond_options_distinct(*self);
        }
        let mut h: Vec<(String, String)> = Vec::new();
        assert(h.deep_view() =~= Seq::empty());
        let primary: Option<String> = match self.primary() {
            Some(p) => Some(p.clone()),
            None => None,
        };
        push_entry(&mut h, "primary", primary);
        let ghost g0 = h.deep_view();
        assert(g0 =~= entry("primary"@, self.spec_primary().deep_view()));
        match &self.miimon {
            Some(m) => {
                let mut part = m.options();
                h.append(&mut part);
                assert(h.deep_view() =~= g0 + m.spec_options());
            },
            None => {
                assert(h.deep_view() =~= g0 + Seq::empty());
            },
        }
        let ghost g1 = h.deep_view();
        match &self.arpmon {
            Some(a) => {
                let mut part = a.options();
                h.append(&mut part);
                assert(h.deep_view() =~= g1 + a.spec_options());
            },
            None => {
                assert(h.deep_view() =~= g1 + Seq::empty());
            },
        }
        let ghost g2 = h.deep_view();
        let mut tuning = self.tuning_options();
        h.append(&mut tuning);
        assert(h.deep_view() =~= g2 + self.spec_tuning_options());
        ConnectionConfig::Bond(
            BondConfig { mode: self.mode.to_bond_mode(), options: BondOptions(h) },
        )
    }
}


/// The place of an option name in the order in which the options are set;
/// any other text comes behind all of them.
#[verifier::opaque]
pub open spec fn option_rank(key: Seq<char>) -> int {
    if key == "primary"@ {
        0
    } else if key == "miimon"@ {
        1
    } else if key == "use_carrier"@ {
        2
    } else if key == "downdelay"@ {
        3
    } else if key == "updelay"@ {
        4
    } else if key == "arp_interval"@ {
        5
    } else if key == "arp_validate"@ {
        6
    } else if key == "arp_ip_target"@ {
        7
    } else if key == "arp_all_targets"@ {
        8
    } else if key == "fail_over_mac"@ {
        9
    } else if key == "xmit_hash_policy"@ {
        10
    } else if key == "packets_per_slave"@ {
        11
    } else if key == "tlb_dynamic_lb"@ {
        12
    } else if key == "lacp_rate"@ {
        13
    } else if key == "ad_select"@ {
        14
    } else if key == "ad_user_port_key"@ {
        15
    } else if key == "ad_actor_sys_prio"@ {
        16
    } else if key == "ad_actor_system"@ {
        17
    } else if key == "min_links"@ {
        18
    } else if key == "primary_reselect"@ {
        19
    } else if key == "num_grat_arp"@ {
        20
    } else if key == "num_unsol_na"@ {
        21
    } else if key == "lp_interval"@ {
        22
    } else if key == "resend_igmp"@ {
        23
    } else if key == "all_slaves_active"@ {
        24
    } else {
        25
    }
}

/// The options are in the order of their names' places, all before
/// `bound`.
#[verifier::opaque]
pub open spec fn ascending(options: Seq<(Seq<char>, Seq<char>)>, bound: int) -> bool {
    &&& forall|i: int| 0 <= i < options.len() ==> option_rank((#[trigger] options[i]).0) < bound
    &&& forall|i: int, j: int|
        0 <= i < j < options.len() ==> option_rank((#[trigger] options[i]).0) < option_rank(
            (#[trigger] options[j]).0,
        )
}

/// No name occurs twice among the options.
pub open spec fn distinct_names(options: Seq<(Seq<char>, Seq<char>)>) -> bool {
    forall|i: int, j: int|
        0 <= i < j < options.len() ==> (#[trigger] options[i]).0 != (#[trigger] options[j]).0
}

/// Each option name has a place of its own: the names differ in their
/// length, their first or their fifth letter.
pub proof fn lemma_option_ranks()
    ensures
        option_rank("primary"@) == 0,
        option_rank("miimon"@) == 1,
        option_rank("use_carrier"@) == 2,
        option_rank("downdelay"@) == 3,
        option_rank("updelay"@) == 4,
        option_rank("arp_interval"@) == 5,
        option_rank("arp_validate"@) == 6,
        option_rank("arp_ip_target"@) == 7,
        option_rank("arp_all_targets"@) == 8,
        option_rank("fail_over_mac"@) == 9,
        option_rank("xmit_hash_policy"@) == 10,
        option_rank("packets_per_slave"@) == 11,
        option_rank("tlb_dynamic_lb"@) == 12,
        option_rank("lacp_rate"@) == 13,
        option_rank("ad_select"@) == 14,
        option_rank("ad_user_port_key"@) == 15,
        option_rank("ad_actor_sys_prio"@) == 16,
        option_rank("ad_actor_system"@) == 17,
        option_rank("min_links"@) == 18,
        option_rank("primary_reselect"@) == 19,
        option_rank("num_grat_arp"@) == 20,
        option_rank("num_unsol_na"@) == 21,
        option_rank("lp_interval"@) == 22,
        option_rank("resend_igmp"@) == 23,
        option_rank("all_slaves_active"@) == 24,
{
    reveal(option_rank);
    reveal_strlit("primary");
    assert("primary"@.len() == 7 && "primary"@[0] == 'p' && "primary"@[4] == 'a');
    reveal_strlit("miimon");
    assert("miimon"@.len() == 6 && "miimon"@[0] == 'm' && "miimon"@[4] == 'o');
    reveal_strlit("use_carrier");
    assert("use_carrier"@.len() == 11 && "use_carrier"@[0] == 'u' && "use_carrier"@[4] == 'c');
    reveal_strlit("downdelay");
    assert("downdelay"@.len() == 9 && "downdelay"@[0] == 'd' && "downdelay"@[4] == 'd');
    reveal_strlit("updelay");
    assert("updelay"@.len() == 7 && "updelay"@[0] == 'u' && "updelay"@[4] == 'l');
    reveal_strlit("arp_interval");
    assert("arp_interval"@.len() == 12 && "arp_interval"@[0] == 'a' && "arp_interval"@[4] == 'i');
    reveal_strlit("arp_validate");
    assert("arp_validate"@.len() == 12 && "arp_validate"@[0] == 'a' && "arp_validate"@[4] == 'v');
    reveal_strlit("arp_ip_target");
    assert("arp_ip_target"@.len() == 13 && "arp_ip_target"@[0] == 'a' && "arp_ip_target"@[4] == 'i');
    reveal_strlit("arp_all_targets");
    assert("arp_all_targets"@.len() == 15 && "arp_all_targets"@[0] == 'a' && "arp_all_targets"@[4] == 'a');
    reveal_strlit("fail_over_mac");
    assert("fail_over_mac"@.len() == 13 && "fail_over_mac"@[0] == 'f' && "fail_over_mac"@[4] == '_');
    reveal_strlit("xmit_hash_policy");
    assert("xmit_hash_policy"@.len() == 16 && "xmit_hash_policy"@[0] == 'x' && "xmit_hash_policy"@[4] == '_');
    reveal_strlit("packets_per_slave");
    assert("packets_per_slave"@.len() == 17 && "packets_per_slave"@[0] == 'p' && "packets_per_slave"@[4] == 'e');
    reveal_strlit("tlb_dynamic_lb");
    assert("tlb_dynamic_lb"@.len() == 14 && "tlb_dynamic_lb"@[0] == 't' && "tlb_dynamic_lb"@[4] == 'd');
    reveal_strlit("lacp_rate");
    assert("lacp_rate"@.len() == 9 && "lacp_rate"@[0] == 'l' && "lacp_rate"@[4] == '_');
    reveal_strlit("ad_select");
    assert("ad_select"@.len() == 9 && "ad_select"@[0] == 'a' && "ad_select"@[4] == 'e');
    reveal_strlit("ad_user_port_key");
    assert("ad_user_port_key"@.len() == 16 && "ad_user_port_key"@[0] == 'a' && "ad_user_port_key"@[4] == 's');
    reveal_strlit("ad_actor_sys_prio");
    assert("ad_actor_sys_prio"@.len() == 17 && "ad_actor_sys_prio"@[0] == 'a' && "ad_actor_sys_prio"@[4] == 'c');
    reveal_strlit("ad_actor_system");
    assert("ad_actor_system"@.len() == 15 && "ad_actor_system"@[0] == 'a' && "ad_actor_system"@[4] == 'c');
    reveal_strlit("min_links");
    assert("min_links"@.len() == 9 && "min_links"@[0] == 'm' && "min_links"@[4] == 'l');
    reveal_strlit("primary_reselect");
    assert("primary_reselect"@.len() == 16 && "primary_reselect"@[0] == 'p' && "primary_reselect"@[4] == 'a');
    reveal_strlit("num_grat_arp");
    assert("num_grat_arp"@.len() == 12 && "num_grat_arp"@[0] == 'n' && "num_grat_arp"@[4] == 'g');
    reveal_strlit("num_unsol_na");
    assert("num_unsol_na"@.len() == 12 && "num_unsol_na"@[0] == 'n' && "num_unsol_na"@[4] == 'u');
    reveal_strlit("lp_interval");
    assert("lp_interval"@.len() == 11 && "lp_interval"@[0] == 'l' && "lp_interval"@[4] == 'n');
    reveal_strlit("resend_igmp");
    assert("resend_igmp"@.len() == 11 && "resend_igmp"@[0] == 'r' && "resend_igmp"@[4] == 'n');
    reveal_strlit("all_slaves_active");
    assert("all_slaves_active"@.len() == 17 && "all_slaves_active"@[0] == 'a' && "all_slaves_active"@[4] == 's');
}

/// An option whose name comes behind those that are there can be put
/// behind them.
pub proof fn lemma_append_entry(
    options: Seq<(Seq<char>, Seq<char>)>,
    key: Seq<char>,
    value: Option<Seq<char>>,
)
    requires
        ascending(options, option_rank(key)),
    ensures
        ascending(options + entry(key, value), option_rank(key) + 1),
{
    reveal(ascending);
    let out = options + entry(key, value);
    assert forall|i: int| 0 <= i < out.len() implies option_rank((#[trigger] out[i]).0)
        < option_rank(key) + 1 by {
        if i < options.len() {
            assert(out[i] == options[i]);
        }
    }
    assert forall|i: int, j: int| 0 <= i < j < out.len() implies option_rank(
        (#[trigger] out[i]).0,
    ) < option_rank((#[trigger] out[j]).0) by {
        assert(out[i] == options[i]);
        if j < options.len() {
            assert(out[j] == options[j]);
        }
    }
}

proof fn lemma_miimon_ascending(base: Seq<(Seq<char>, Seq<char>)>, miimon: Option<Miimon>)
    requires
        ascending(base, 1),
    ensures
        ascending(
            base + match miimon {
                Some(m) => m.spec_options(),
                None => Seq::empty(),
            },
            5,
        ),
{
    lemma_option_ranks();
    match miimon {
        Some(m) => {
            let s = base;
            lemma_append_entry(s, "miimon"@, Some(decimal(m.frequency as nat)));
            let s = s + entry("miimon"@, Some(decimal(m.frequency as nat)));
            lemma_append_entry(s, "use_carrier"@, Some(m.carrier_detect.spec_use_carrier()));
            let s = s + entry("use_carrier"@, Some(m.carrier_detect.spec_use_carrier()));
            lemma_append_entry(s, "downdelay"@, number(m.downdelay));
            let s = s + entry("downdelay"@, number(m.downdelay));
            lemma_append_entry(s, "updelay"@, number(m.updelay));
            let s = s + entry("updelay"@, number(m.updelay));
            assert(s =~= base + m.spec_options());
        },
        None => {
            reveal(ascending);
            assert(base + Seq::<(Seq<char>, Seq<char>)>::empty() =~= base);
        },
    }
}

proof fn lemma_arpmon_ascending(base: Seq<(Seq<char>, Seq<char>)>, arpmon: Option<ArpMon>)
    requires
        ascending(base, 5),
    ensures
        ascending(
            base + match arpmon {
                Some(a) => a.spec_options(),
                None => Seq::empty(),
            },
            9,
        ),
{
    lemma_option_ranks();
    match arpmon {
        Some(a) => {
            let targets = if a.targets@.len() > 0 {
                Some(joined(a.targets.deep_view(), seq![',']))
            } else {
                None
            };
            let s = base;
            lemma_append_entry(s, "arp_interval"@, Some(decimal(a.interval as nat)));
            let s = s + entry("arp_interval"@, Some(decimal(a.interval as nat)));
            lemma_append_entry(s, "arp_validate"@, Some(a.validate.spec_name()));
            let s = s + entry("arp_validate"@, Some(a.validate.spec_name()));
            lemma_append_entry(s, "arp_ip_target"@, targets);
            let s = s + entry("arp_ip_target"@, targets);
            lemma_append_entry(
                s,
                "arp_all_targets"@,
                ArpValidateTargets::spec_option_name(a.validate_targets),
            );
            let s = s + entry(
                "arp_all_targets"@,
                ArpValidateTargets::spec_option_name(a.validate_targets),
            );
            assert(s =~= base + a.spec_options());
        },
        None => {
            reveal(ascending);
            assert(base + Seq::<(Seq<char>, Seq<char>)>::empty() =~= base);
        },
    }
}

/// Puts one more option behind `base + behind`, and says what is behind
/// `base` then.
proof fn lemma_append_after(
    base: Seq<(Seq<char>, Seq<char>)>,
    all: Seq<(Seq<char>, Seq<char>)>,
    behind: Seq<(Seq<char>, Seq<char>)>,
    key: Seq<char>,
    value: Option<Seq<char>>,
) -> (r: (Seq<(Seq<char>, Seq<char>)>, Seq<(Seq<char>, Seq<char>)>))
    requires
        all == base + behind,
        ascending(all, option_rank(key)),
    ensures
        r.0 == base + r.1,
        r.1 == behind + entry(key, value),
        ascending(r.0, option_rank(key) + 1),
{
    lemma_append_entry(all, key, value);
    let e = entry(key, value);
    assert((base + behind) + e =~= base + (behind + e));
    (all + e, behind + e)
}

proof fn lemma_tuning_ascending(base: Seq<(Seq<char>, Seq<char>)>, bond: Bond)
    requires
        ascending(base, 9),
    ensures
        ascending(base + bond.spec_tuning_options(), 25),
{
    lemma_option_ranks();
    lemma_append_entry(base, "fail_over_mac"@, FailOverMac::spec_option_name(bond.fail_over_mac));
    let t = entry("fail_over_mac"@, FailOverMac::spec_option_name(bond.fail_over_mac));
    let s = base + t;
    let (s, t) = lemma_append_after(base, s, t, "xmit_hash_policy"@, XmitHashPolicy::spec_option_name(bond.xmit_hash_policy));
    let (s, t) = lemma_append_after(base, s, t, "packets_per_slave"@, number(bond.packets_per_slave));
    let (s, t) = lemma_append_after(base, s, t, "tlb_dynamic_lb"@, flag(bond.tlb_dynamic_lb));
    let (s, t) = lemma_append_after(base, s, t, "lacp_rate"@, LacpRate::spec_option_name(bond.lacp_rate));
    let (s, t) = lemma_append_after(base, s, t, "ad_select"@, AdSelect::spec_option_name(bond.ad_select));
    let (s, t) = lemma_append_after(base, s, t, "ad_user_port_key"@, number(bond.ad_user_port_key));
    let (s, t) = lemma_append_after(base, s, t, "ad_actor_sys_prio"@, number(bond.ad_actor_sys_prio));
    let (s, t) = lemma_append_after(base, s, t, "ad_actor_system"@, bond.ad_actor_system.deep_view());
    let (s, t) = lemma_append_after(base, s, t, "min_links"@, number(bond.min_links));
    let (s, t) = lemma_append_after(base, s, t, "primary_reselect"@, PrimaryReselect::spec_option_name(bond.primary_reselect));
    let (s, t) = lemma_append_after(base, s, t, "num_grat_arp"@, number(bond.num_grat_arp));
    let (s, t) = lemma_append_after(base, s, t, "num_unsol_na"@, number(bond.num_unsol_na));
    let (s, t) = lemma_append_after(base, s, t, "lp_interval"@, number(bond.lp_interval));
    let (s, t) = lemma_append_after(base, s, t, "resend_igmp"@, number(bond.resend_igmp));
    let (s, t) = lemma_append_after(base, s, t, "all_slaves_active"@, flag(bond.all_slaves_active));
    assert(t == bond.spec_tuning_options());
}

/// The options that a bond record sets are in the order of their names'
/// places, so no name occurs twice among them.
pub proof fn lemma_bond_options_distinct(bond: Bond)
    ensures
        ascending(bond.spec_options(), 25),
        distinct_names(bond.spec_options()),
{
    lemma_option_ranks();
    let empty: Seq<(Seq<char>, Seq<char>)> = Seq::empty();
    assert(ascending(empty, 0)) by {
        reveal(ascending);
    }
    lemma_append_entry(empty, "primary"@, bond.spec_primary().deep_view());
    let s = entry("primary"@, bond.spec_primary().deep_view());
    assert(empty + s =~= s);
    lemma_miimon_ascending(s, bond.miimon);
    let s = s + match bond.miimon {
        Some(m) => m.spec_options(),
        None => Seq::empty(),
    };
    lemma_arpmon_ascending(s, bond.arpmon);
    let s = s + match bond.arpmon {
        Some(a) => a.spec_options(),
        None => Seq::empty(),
    };
    lemma_tuning_ascending(s, bond);
    let s = bond.spec_options();
    assert forall|i: int, j: int| 0 <= i < j < s.len() implies (#[trigger] s[i]).0 != (
    #[trigger] s[j]).0 by {
        reveal(ascending);
        assert(option_rank(s[i].0) < option_rank(s[j].0));
    }
}

} // verus!
