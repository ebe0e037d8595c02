use wicked2nm::bond::{
    AdSelect, ArpMon, ArpValidate, ArpValidateTargets, Bond, CarrierDetect, FailOverMac, LacpRate,
    Miimon, PrimaryReselect, Slave, WickedBondMode, XmitHashPolicy,
};
use wicked2nm::interface::Interface;
use wicked2nm::model::{BondMode, ConnectionConfig};
use wicked2nm::settings::MigrationSettings;

fn plain_bond(mode: WickedBondMode) -> Bond {
    Bond {
        mode,
        miimon: None,
        arpmon: None,
        slaves: vec![],
        xmit_hash_policy: None,
        packets_per_slave: None,
        tlb_dynamic_lb: None,
        lacp_rate: None,
        ad_select: None,
        ad_user_port_key: None,
        ad_actor_sys_prio: None,
        ad_actor_system: None,
        min_links: None,
        primary_reselect: None,
        fail_over_mac: None,
        num_grat_arp: None,
        num_unsol_na: None,
        lp_interval: None,
        resend_igmp: None,
        all_slaves_active: None,
        address: None,
    }
}

#[test]
fn test_bond_options() {
    let bond_interface = Interface {
        bond: Some(Bond {
            mode: WickedBondMode::IEEE8023ad,
            xmit_hash_policy: Some(XmitHashPolicy::Encap34),
            fail_over_mac: Some(FailOverMac::Active),
            packets_per_slave: Some(23),
            tlb_dynamic_lb: Some(true),
            lacp_rate: Some(LacpRate::Slow),
            ad_select: Some(AdSelect::Bandwidth),
            ad_user_port_key: Some(42),
            ad_actor_sys_prio: Some(5),
            ad_actor_system: Some(String::from("00:de:ad:be:ef:00")),
            min_links: Some(3),
            primary_reselect: Some(PrimaryReselect::Better),
            num_grat_arp: Some(7),
            num_unsol_na: Some(13),
            lp_interval: Some(17),
            resend_igmp: Some(19),
            all_slaves_active: Some(true),
            miimon: Some(Miimon {
                frequency: 42,
                carrier_detect: CarrierDetect::Netif,
                downdelay: Some(23),
                updelay: Some(5),
            }),
            arpmon: Some(ArpMon {
                interval: 23,
                validate: ArpValidate::FilterBackup,
                validate_targets: Some(ArpValidateTargets::Any),
                targets: vec![String::from("1.2.3.4"), String::from("4.3.2.1")],
            }),
            slaves: vec![],
            address: Some(String::from("02:11:22:33:44:55")),
        }),
        ..Default::default()
    };

    let result = bond_interface
        .to_connection(&MigrationSettings::default(), &None)
        .unwrap();
    let connection = &result.connections[0];
    assert!(matches!(connection.config, ConnectionConfig::Bond(_)));
    assert_eq!(
        connection.custom_mac_address.to_string(),
        "02:11:22:33:44:55"
    );

    if let ConnectionConfig::Bond(bond) = &connection.config {
        assert_eq!(bond.mode, BondMode::LACP);
        let s = vec![
            ("xmit_hash_policy", String::from("encap34")),
            ("packets_per_slave", 23.to_string()),
            ("tlb_dynamic_lb", 1.to_string()),
            ("lacp_rate", String::from("slow")),
            ("ad_select", String::from("bandwidth")),
            ("ad_user_port_key", 42.to_string()),
            ("ad_actor_sys_prio", 5.to_string()),
            ("ad_actor_system", String::from("00:de:ad:be:ef:00")),
            ("min_links", 3.to_string()),
            ("primary_reselect", String::from("better")),
            ("fail_over_mac", String::from("active")),
            ("num_grat_arp", 7.to_string()),
            ("num_unsol_na", 13.to_string()),
            ("lp_interval", 17.to_string()),
            ("resend_igmp", 19.to_string()),
            ("all_slaves_active", 1.to_string()),
            // miimon
            ("miimon", 42.to_string()),
            ("use_carrier", 1.to_string()),
            ("downdelay", 23.to_string()),
            ("updelay", 5.to_string()),
            // arpmon
            ("arp_validate", String::from("filter_backup")),
            ("arp_all_targets", String::from("any")),
            ("arp_ip_target", String::from("1.2.3.4,4.3.2.1")),
            ("arp_interval", 23.to_string()),
        ];

        for (k, v) in s.iter() {
            assert!(
                bond.options.get(k).is_some(),
                "Missing key '{}' in bond hash {:?}",
                k,
                bond.options.0
            );
            assert_eq!(
                bond.options.get(k).unwrap(),
                v,
                "Unexpected value '{}' in key '{}'",
                k,
                v
            );
        }
        assert_eq!(bond.options.0.len(), s.len());
    } else {
        panic!()
    }
}

#[test]
fn bond_sets_only_what_the_record_sets() {
    let bond = plain_bond(WickedBondMode::ActiveBackup);
    let ConnectionConfig::Bond(config) = bond.to_config() else {
        panic!()
    };
    assert_eq!(config.mode, BondMode::ActiveBackup);
    assert!(config.options.0.is_empty());
    assert_eq!(config.options.get("miimon"), None);
}

#[test]
fn bond_option_names_are_unique() {
    let mut bond = plain_bond(WickedBondMode::BalanceRr);
    bond.miimon = Some(Miimon {
        frequency: 100,
        carrier_detect: CarrierDetect::Ioctl,
        downdelay: None,
        updelay: None,
    });
    bond.tlb_dynamic_lb = Some(false);
    bond.slaves = vec![Slave {
        device: "en0".to_string(),
        primary: Some(true),
    }];
    let ConnectionConfig::Bond(config) = bond.to_config() else {
        panic!()
    };
    let names: Vec<&String> = config.options.0.iter().map(|(k, _)| k).collect();
    for (i, a) in names.iter().enumerate() {
        for b in names.iter().skip(i + 1) {
            assert_ne!(a, b);
        }
    }
    assert_eq!(config.options.get("primary"), Some(&"en0".to_string()));
    assert_eq!(config.options.get("miimon"), Some(&"100".to_string()));
    assert_eq!(config.options.get("use_carrier"), Some(&"0".to_string()));
    assert_eq!(config.options.get("tlb_dynamic_lb"), Some(&"0".to_string()));
    assert_eq!(config.options.get("downdelay"), None);
}

#[test]
fn bond_primary_is_the_first_marked_port() {
    let mut bond = plain_bond(WickedBondMode::ActiveBackup);
    assert_eq!(bond.primary(), None);
    bond.slaves = vec![
        Slave {
            device: "en0".to_string(),
            primary: None,
        },
        Slave {
            device: "en1".to_string(),
            primary: Some(false),
        },
        Slave {
            device: "en2".to_string(),
            primary: Some(true),
        },
        Slave {
            device: "en3".to_string(),
            primary: Some(true),
        },
    ];
    assert_eq!(bond.primary(), Some(&"en2".to_string()));
}

#[test]
fn bond_modes_are_translated() {
    let pairs = vec![
        (WickedBondMode::BalanceRr, BondMode::RoundRobin),
        (WickedBondMode::ActiveBackup, BondMode::ActiveBackup),
        (WickedBondMode::BalanceXor, BondMode::BalanceXOR),
        (WickedBondMode::Broadcast, BondMode::Broadcast),
        (WickedBondMode::IEEE8023ad, BondMode::LACP),
        (WickedBondMode::BalanceTlb, BondMode::BalanceTLB),
        (WickedBondMode::BalanceAlb, BondMode::BalanceALB),
    ];
    for (from, to) in pairs {
        assert_eq!(from.to_bond_mode(), to);
    }
}

#[test]
fn bond_keywords() {
    assert_eq!(FailOverMac::Nil.name(), "none");
    assert_eq!(FailOverMac::Follow.name(), "follow");
    assert_eq!(XmitHashPolicy::Layer23.name(), "layer23");
    assert_eq!(LacpRate::Fast.name(), "fast");
    assert_eq!(AdSelect::Count.name(), "count");
    assert_eq!(PrimaryReselect::Failure.name(), "failure");
    assert_eq!(ArpValidate::FilterActive.name(), "filter_active");
    assert_eq!(ArpValidate::Nil.name(), "none");
    assert_eq!(ArpValidateTargets::All.name(), "all");
}
