use wicked2nm::ip::IpAddress;
use wicked2nm::model::{Connection, ConnectionConfig, Ipv4Method};
use wicked2nm::netconfig::{
    apply_dns_policy, apply_netconfig, create_lo_connection, dns_server, handle_netconfig_values,
    is_within_globset, match_glob, Netconfig,
};
use wicked2nm::report::{Failure, Warning};
use wicked2nm::state::NetworkState;

fn some(s: &str) -> Option<String> {
    Some(s.to_string())
}

#[test]
fn test_handle_netconfig_values() {
    let servers = some("192.168.0.10 192.168.1.10 2001:db8::10");
    let searchlist = some("suse.com suse.de");

    assert!(
        handle_netconfig_values(&some("STATIC_FALLBACK NetworkManager"), &None, &None, &None)
            .warnings
            .len()
            == 1
    );

    assert!(
        handle_netconfig_values(&some("STATIC_FALLBACK"), &None, &None, &None)
            .warnings
            .len()
            == 1
    );

    assert!(handle_netconfig_values(&some(""), &servers, &searchlist, &None)
        .dns_policy
        .is_empty());

    assert_eq!(
        handle_netconfig_values(&some("STATIC"), &servers, &searchlist, &None),
        Netconfig {
            static_dns_servers: vec![
                IpAddress::parse("192.168.0.10").unwrap(),
                IpAddress::parse("192.168.1.10").unwrap(),
                IpAddress::parse("2001:db8::10").unwrap()
            ],
            static_dns_searchlist: Some(vec!["suse.com".to_string(), "suse.de".to_string()]),
            dns_policy: vec!["STATIC".to_string()],
            ..Default::default()
        }
    );

    assert_eq!(
        handle_netconfig_values(&some(""), &some(""), &some(""), &None),
        Netconfig {
            static_dns_servers: vec![],
            static_dns_searchlist: None,
            ..Default::default()
        }
    );

    assert_eq!(
        handle_netconfig_values(&some("auto"), &some(""), &some(""), &None).dns_policy,
        vec!["STATIC".to_string(), "*".to_string(),]
    );

    assert_eq!(
        handle_netconfig_values(&some("STATIC eth* ppp?"), &some(""), &some(""), &None).dns_policy,
        vec!["STATIC".to_string(), "eth*".to_string(), "ppp?".to_string()]
    );
}

#[test]
fn netconfig_warnings() {
    let n = handle_netconfig_values(
        &some("STATIC_FALLBACK"),
        &some("10.0.0.1  dns.example.org\t::1"),
        &None,
        &some("yes"),
    );
    assert!(n.dns_policy.is_empty());
    assert_eq!(
        n.static_dns_servers,
        vec![IpAddress::V4(0x0a00_0001), IpAddress::V6(1)]
    );
    assert_eq!(
        n.warnings,
        vec![
            Warning::UnsupportedDnsPolicy,
            Warning::InvalidDnsServer {
                value: "dns.example.org".to_string()
            },
            Warning::GratuitousArp
        ]
    );
    assert_eq!(
        n.warnings[1].to_string(),
        "Invalid value 'dns.example.org' in NETCONFIG_DNS_STATIC_SERVERS"
    );
    let quiet = handle_netconfig_values(&None, &None, &None, &some("auto"));
    assert_eq!(quiet, Netconfig::default());
    let spaced = handle_netconfig_values(&some("STATIC  eth0"), &None, &None, &None);
    assert_eq!(
        spaced.dns_policy,
        vec!["STATIC".to_string(), "".to_string(), "eth0".to_string()]
    );
}

fn named(id: &str, interface: &str) -> Connection {
    Connection {
        id: id.to_string(),
        interface: Some(interface.to_string()),
        ..Default::default()
    }
}

#[test]
fn test_apply_dns_policy() {
    let netconfig = Netconfig {
        dns_policy: vec![
            "STATIC".to_string(),
            "e???".to_string(),
            "ppp?".to_string(),
            "eth0.??".to_string(),
            "eth*".to_string(),
            "wlan?".to_string(),
        ],
        ..Default::default()
    };
    let mut nm_state = NetworkState::default();
    // Should match with e???
    assert!(nm_state
        .add_connection(Connection {
            id: "eth0".to_string(),
            interface: Some("eth0".to_string()),
            ..Default::default()
        })
        .is_ok());
    // Should match with eth0.??
    assert!(nm_state
        .add_connection(Connection {
            id: "eth0.11".to_string(),
            interface: Some("eth0.11".to_string()),
            ..Default::default()
        })
        .is_ok());
    // Should match with eth*
    assert!(nm_state
        .add_connection(Connection {
            id: "eth0211".to_string(),
            interface: Some("eth0211".to_string()),
            ..Default::default()
        })
        .is_ok());
    // Should not match
    assert!(nm_state
        .add_connection(Connection {
            id: "neth0".to_string(),
            interface: Some("neth0".to_string()),
            ..Default::default()
        })
        .is_ok());
    // Should match with ppp?
    assert!(nm_state
        .add_connection(Connection {
            id: "ppp0".to_string(),
            interface: Some("ppp0".to_string()),
            ..Default::default()
        })
        .is_ok());
    // Should not match
    assert!(nm_state
        .add_connection(Connection {
            id: "en0".to_string(),
            interface: Some("en0".to_string()),
            ..Default::default()
        })
        .is_ok());
    // Should match with wlan?
    assert!(nm_state
        .add_connection(Connection {
            id: "wlan0-0".to_string(),
            interface: Some("wlan0".to_string()),
            ..Default::default()
        })
        .is_ok());
    // Should match with wlan?
    assert!(nm_state
        .add_connection(Connection {
            id: "wlan0-1".to_string(),
            interface: Some("wlan0".to_string()),
            ..Default::default()
        })
        .is_ok());
    // Missing loopback
    assert!(apply_dns_policy(&netconfig, &mut nm_state).is_err());

    assert!(nm_state
        .add_connection(Connection {
            id: "lo".to_string(),
            config: ConnectionConfig::Loopback,
            ..Default::default()
        })
        .is_ok());
    assert!(apply_dns_policy(&netconfig, &mut nm_state).is_ok());
    assert_eq!(
        nm_state
            .get_connection("lo")
            .unwrap()
            .ip_config
            .dns_priority4,
        Some(10)
    );
    assert_eq!(
        nm_state
            .get_connection("lo")
            .unwrap()
            .ip_config
            .dns_priority6,
        Some(10)
    );
    assert_eq!(
        nm_state
            .get_connection("eth0")
            .unwrap()
            .ip_config
            .dns_priority4,
        Some(20)
    );
    assert_eq!(
        nm_state
            .get_connection("eth0")
            .unwrap()
            .ip_config
            .dns_priority6,
        Some(20)
    );
    assert_eq!(
        nm_state
            .get_connection("eth0.11")
            .unwrap()
            .ip_config
            .dns_priority4,
        Some(40)
    );
    assert_eq!(
        nm_state
            .get_connection("eth0.11")
            .unwrap()
            .ip_config
            .dns_priority6,
        Some(40)
    );
    assert_eq!(
        nm_state
            .get_connection("eth0211")
            .unwrap()
            .ip_config
            .dns_priority4,
        Some(50)
    );
    assert_eq!(
        nm_state
            .get_connection("eth0211")
            .unwrap()
            .ip_config
            .dns_priority6,
        Some(50)
    );
    assert_eq!(
        nm_state
            .get_connection("neth0")
            .unwrap()
            .ip_config
            .dns_priority4,
        None
    );
    assert_eq!(
        nm_state
            .get_connection("neth0")
            .unwrap()
            .ip_config
            .dns_priority6,
        None
    );
    assert_eq!(
        nm_state
            .get_connection("ppp0")
            .unwrap()
            .ip_config
            .dns_priority4,
        Some(30)
    );
    assert_eq!(
        nm_state
            .get_connection("ppp0")
            .unwrap()
            .ip_config
            .dns_priority6,
        Some(30)
    );
    assert_eq!(
        nm_state
            .get_connection("wlan0-0")
            .unwrap()
            .ip_config
            .dns_priority4,
        Some(60)
    );
    assert_eq!(
        nm_state
            .get_connection("wlan0-0")
            .unwrap()
            .ip_config
            .dns_priority6,
        Some(60)
    );
    assert_eq!(
        nm_state
            .get_connection("wlan0-1")
            .unwrap()
            .ip_config
            .dns_priority4,
        Some(60)
    );
    assert_eq!(
        nm_state
            .get_connection("wlan0-1")
            .unwrap()
            .ip_config
            .dns_priority6,
        Some(60)
    );
    assert_eq!(
        nm_state
            .get_connection("en0")
            .unwrap()
            .ip_config
            .dns_priority4,
        None
    );
    assert_eq!(
        nm_state
            .get_connection("en0")
            .unwrap()
            .ip_config
            .dns_priority6,
        None
    );
}

#[test]
fn static_then_glob_policy() {
    let netconfig = Netconfig {
        dns_policy: vec!["STATIC".to_string(), "eth*".to_string()],
        static_dns_servers: vec![IpAddress::V4(0x0808_0808)],
        static_dns_searchlist: Some(vec!["example.org".to_string()]),
        ..Default::default()
    };
    let mut state = NetworkState::default();
    state.add_connection(named("eth0", "eth0")).unwrap();
    state.add_connection(named("ppp0", "ppp0")).unwrap();
    apply_netconfig(&mut state, &netconfig, create_lo_connection(7)).unwrap();

    let lo = state.get_connection("lo").unwrap();
    assert_eq!(lo.uuid, 7);
    assert_eq!(lo.ip_config.dns_priority4, Some(10));
    assert_eq!(lo.ip_config.dns_priority6, Some(10));
    assert_eq!(lo.ip_config.nameservers, vec![IpAddress::V4(0x0808_0808)]);
    assert_eq!(lo.ip_config.dns_searchlist, vec!["example.org".to_string()]);
    assert!(!lo.ip_config.ignore_auto_dns);
    assert_eq!(lo.ip_config.method4, Ipv4Method::Manual);
    assert_eq!(lo.ip_config.addresses[0].to_string(), "127.0.0.1/8");
    assert_eq!(lo.ip_config.addresses[1].to_string(), "::1");
    assert!(matches!(lo.config, ConnectionConfig::Loopback));

    let eth0 = state.get_connection("eth0").unwrap();
    assert_eq!(eth0.ip_config.dns_priority4, Some(20));
    assert_eq!(eth0.ip_config.dns_priority6, Some(20));
    assert!(!eth0.ip_config.ignore_auto_dns);

    let ppp0 = state.get_connection("ppp0").unwrap();
    assert_eq!(ppp0.ip_config.dns_priority4, None);
    assert_eq!(ppp0.ip_config.dns_priority6, None);
    assert!(ppp0.ip_config.ignore_auto_dns);
}

#[test]
fn same_glob_same_tier_and_no_override() {
    let netconfig = Netconfig {
        dns_policy: vec![
            "eth?".to_string(),
            "".to_string(),
            "eth*".to_string(),
            "*".to_string(),
        ],
        ..Default::default()
    };
    let mut state = NetworkState::default();
    state.add_connection(named("a", "eth0")).unwrap();
    state.add_connection(named("b", "eth1")).unwrap();
    state.add_connection(named("c", "eth10")).unwrap();
    state.add_connection(named("d", "wlan0")).unwrap();
    state
        .add_connection(Connection {
            id: "nameless".to_string(),
            ..Default::default()
        })
        .unwrap();
    apply_dns_policy(&netconfig, &mut state).unwrap();
    for id in ["a", "b"] {
        let c = state.get_connection(id).unwrap();
        assert_eq!(c.ip_config.dns_priority4, Some(10));
        assert_eq!(c.ip_config.dns_priority6, Some(10));
    }
    assert_eq!(
        state.get_connection("c").unwrap().ip_config.dns_priority4,
        Some(20)
    );
    assert_eq!(
        state.get_connection("d").unwrap().ip_config.dns_priority6,
        Some(30)
    );
    assert_eq!(
        state
            .get_connection("nameless")
            .unwrap()
            .ip_config
            .dns_priority4,
        None
    );
}

#[test]
fn dns_policy_failures() {
    let mut state = NetworkState::default();
    state.add_connection(named("eth0", "eth0")).unwrap();
    let missing = Netconfig {
        dns_policy: vec!["eth*".to_string(), "STATIC".to_string()],
        ..Default::default()
    };
    assert_eq!(
        apply_dns_policy(&missing, &mut state),
        Err(Failure::MissingLoopback)
    );
    assert_eq!(
        state.get_connection("eth0").unwrap().ip_config.dns_priority4,
        Some(10)
    );

    let mut state = NetworkState::default();
    let invalid = Netconfig {
        dns_policy: vec!["eth[".to_string()],
        ..Default::default()
    };
    assert_eq!(
        apply_dns_policy(&invalid, &mut state),
        Err(Failure::InvalidGlob)
    );
    let too_long = Netconfig {
        dns_policy: vec!["e".repeat(4097)],
        ..Default::default()
    };
    assert_eq!(
        apply_dns_policy(&too_long, &mut state),
        Err(Failure::InvalidGlob)
    );
    let longest = Netconfig {
        dns_policy: vec!["e".repeat(4096)],
        ..Default::default()
    };
    assert_eq!(apply_dns_policy(&longest, &mut state), Ok(()));

    let mut state = NetworkState::default();
    state.add_connection(named("lo", "lo")).unwrap();
    assert_eq!(
        apply_netconfig(&mut state, &Netconfig::default(), create_lo_connection(1)),
        Err(Failure::ConnectionExists)
    );
    assert_eq!(state.connections.len(), 1);
}

#[test]
fn state_keeps_ids_unique() {
    let mut state = NetworkState::default();
    assert_eq!(state.position("x"), None);
    assert_eq!(state.add_connection(named("x", "eth0")), Ok(()));
    assert_eq!(
        state.add_connection(named("x", "eth1")),
        Err(Failure::ConnectionExists)
    );
    assert_eq!(state.add_connection(named("y", "eth0")), Ok(()));
    assert_eq!(state.position("y"), Some(1));
    assert_eq!(
        state.get_connection("x").unwrap().interface,
        Some("eth0".to_string())
    );
    assert!(state.get_connection("z").is_none());
}

#[test]
fn default_connections_get_uuids_of_their_own() {
    let a = Connection::default();
    let b = Connection::default();
    assert_ne!(a.uuid, b.uuid);
    assert!(a.autoconnect);
    assert_eq!(a.id, "");
    assert_eq!(a.controller, None);
}

#[test]
fn policy_is_split_at_single_spaces() {
    let policy = |s: &str| handle_netconfig_values(&some(s), &None, &None, &None).dns_policy;
    assert_eq!(policy(" a "), vec!["", "a", ""]);
    assert_eq!(policy(" "), vec!["", ""]);
    assert_eq!(policy("eth0"), vec!["eth0"]);
    assert_eq!(policy("a\tb c"), vec!["a\tb", "c"]);
    let searchlist =
        |s: &str| handle_netconfig_values(&None, &None, &some(s), &None).static_dns_searchlist;
    assert_eq!(
        searchlist("a.example  b.example"),
        Some(vec![
            "a.example".to_string(),
            "".to_string(),
            "b.example".to_string()
        ])
    );
    assert_eq!(searchlist(""), None);
}

#[test]
fn policy_marks_what_it_did_not_claim() {
    let netconfig = Netconfig {
        dns_policy: vec!["STATIC".to_string(), "eth*".to_string()],
        ..Default::default()
    };
    let mut state = NetworkState::default();
    state
        .add_connection(Connection {
            id: "lo".to_string(),
            config: ConnectionConfig::Loopback,
            ..Default::default()
        })
        .unwrap();
    state.add_connection(named("eth0", "eth0")).unwrap();
    state.add_connection(named("ppp0", "ppp0")).unwrap();
    assert_eq!(apply_dns_policy(&netconfig, &mut state), Ok(()));
    let lo = state.get_connection("lo").unwrap();
    assert_eq!(lo.ip_config.dns_priority4, Some(10));
    assert_eq!(lo.ip_config.dns_priority6, Some(10));
    assert!(!lo.ip_config.ignore_auto_dns);
    let eth0 = state.get_connection("eth0").unwrap();
    assert_eq!(eth0.ip_config.dns_priority4, Some(20));
    assert_eq!(eth0.ip_config.dns_priority6, Some(20));
    assert!(!eth0.ip_config.ignore_auto_dns);
    let ppp0 = state.get_connection("ppp0").unwrap();
    assert_eq!(ppp0.ip_config.dns_priority4, None);
    assert_eq!(ppp0.ip_config.dns_priority6, None);
    assert!(ppp0.ip_config.ignore_auto_dns);

    let mut state = NetworkState::default();
    state.add_connection(named("lo", "lo")).unwrap();
    state.add_connection(named("eth0", "eth0")).unwrap();
    let empty = Netconfig::default();
    assert_eq!(apply_dns_policy(&empty, &mut state), Ok(()));
    assert!(state.get_connection("lo").unwrap().ip_config.ignore_auto_dns);
    assert!(state.get_connection("eth0").unwrap().ip_config.ignore_auto_dns);

    let mut state = NetworkState::default();
    state.add_connection(named("eth0", "eth0")).unwrap();
    state.add_connection(named("ppp0", "ppp0")).unwrap();
    let failing = Netconfig {
        dns_policy: vec!["eth*".to_string(), "STATIC".to_string()],
        ..Default::default()
    };
    assert_eq!(
        apply_dns_policy(&failing, &mut state),
        Err(Failure::MissingLoopback)
    );
    assert!(!state.get_connection("ppp0").unwrap().ip_config.ignore_auto_dns);
}

#[test]
fn deeply_braced_patterns_are_refused() {
    let nested = |depth: usize| format!("{}a{}", "{".repeat(depth), "}".repeat(depth));
    assert!(is_within_globset(&nested(64)));
    assert!(!is_within_globset(&nested(65)));
    assert!(is_within_globset(&"e".repeat(4096)));
    assert!(!is_within_globset(&"e".repeat(4097)));
    assert!(is_within_globset(""));
    assert!(is_within_globset(&"{a,b}".repeat(64)));
    assert!(!is_within_globset(&"{a,b}".repeat(65)));

    assert_eq!(match_glob(&nested(64), "a"), Some(true));
    assert_eq!(match_glob(&nested(64), "b"), Some(false));
    assert_eq!(match_glob(&nested(65), "a"), None);
    assert_eq!(match_glob(&nested(250), "a"), None);
    assert_eq!(match_glob(&"?".repeat(4096), &"x".repeat(4096)), Some(true));
    assert_eq!(match_glob(&"?".repeat(4096), "x"), Some(false));
    assert_eq!(match_glob(&"\u{e9}".repeat(4096), "e"), Some(false));
    assert_eq!(match_glob(&"\u{1d11e}".repeat(4096), "e"), Some(false));
    assert_eq!(match_glob(&"[a-c]".repeat(819), &"b".repeat(819)), Some(true));
    assert_eq!(match_glob(&"[!\u{1d11e}]".repeat(1024), &"b".repeat(1024)), Some(true));
    assert_eq!(match_glob(&"{a,[b-c]*}".repeat(64), &"a".repeat(64)), Some(true));
    let leaf = |inner: &str| format!("{}{}{}", "{".repeat(64), inner, "}".repeat(64));
    assert_eq!(match_glob(&leaf("[a-c]*"), "bxyz"), Some(true));
    assert_eq!(match_glob(&leaf("x,**/y"), "x"), Some(true));
    assert_eq!(match_glob("eth{0,1}", "eth1"), Some(true));
    assert_eq!(match_glob("eth{0,1}", "eth2"), Some(false));
    assert_eq!(match_glob("eth[", "eth1"), None);
    assert_eq!(match_glob("{a", "a"), None);

    let mut state = NetworkState::default();
    state.add_connection(named("a", "a")).unwrap();
    let policy = Netconfig {
        dns_policy: vec![nested(250)],
        ..Default::default()
    };
    assert_eq!(
        apply_dns_policy(&policy, &mut state),
        Err(Failure::InvalidGlob)
    );
    assert_eq!(
        apply_netconfig(&mut state, &policy, create_lo_connection(1)),
        Err(Failure::InvalidGlob)
    );
    let policy = Netconfig {
        dns_policy: vec![nested(64)],
        ..Default::default()
    };
    let mut state = NetworkState::default();
    state.add_connection(named("a", "a")).unwrap();
    assert_eq!(apply_dns_policy(&policy, &mut state), Ok(()));
    assert_eq!(
        state.get_connection("a").unwrap().ip_config.dns_priority4,
        Some(10)
    );
}

#[test]
fn server_entries_as_they_were_read() {
    let entry = "10.0.0.1".to_string();
    let (servers, warnings) = dns_server(
        vec![IpAddress::V6(1)],
        vec![Warning::GratuitousArp],
        &entry,
        Some(IpAddress::V4(7)),
    );
    assert_eq!(servers, vec![IpAddress::V6(1), IpAddress::V4(7)]);
    assert_eq!(warnings, vec![Warning::GratuitousArp]);
    let (servers, warnings) = dns_server(servers, warnings, &entry, None);
    assert_eq!(servers, vec![IpAddress::V6(1), IpAddress::V4(7)]);
    assert_eq!(
        warnings,
        vec![
            Warning::GratuitousArp,
            Warning::InvalidDnsServer {
                value: "10.0.0.1".to_string()
            }
        ]
    );
}
