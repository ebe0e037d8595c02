use wicked2nm::bridge::Bridge;
use wicked2nm::cli::{reading_aborts, CliResult, Commands, Format, MigrationError};
use wicked2nm::interface::Interface;
use wicked2nm::ip::{IpAddress, IpInet};
use wicked2nm::mac::{MacAddr6, MacAddress};
use wicked2nm::model::{
    BridgeConfig, ConnectionConfig, SecurityProtocol, TunConfig, TunMode,
};
use wicked2nm::reader::{replace_colons, InterfacesResult};
use wicked2nm::report::{has_warnings, Failure, Severity, UnhandledField, Warning};
use wicked2nm::settings::MigrationSettings;
use wicked2nm::text::{join_with, join_with_comma, u32_to_string};
use wicked2nm::tuntap::{Tap, Tun};

#[test]
fn ip_addresses_are_read_and_printed() {
    assert_eq!(IpAddress::parse("1.2.3.4"), Some(IpAddress::V4(0x0102_0304)));
    assert_eq!(IpAddress::parse("::ffff"), Some(IpAddress::V6(0xffff)));
    assert_eq!(IpAddress::parse("1.2.3"), None);
    assert_eq!(IpAddress::parse("1.2.3.4/8"), None);
    assert!(IpAddress::V4(1).is_ipv4());
    assert!(!IpAddress::V6(1).is_ipv4());
    assert_eq!(IpAddress::V4(0xc0a8_0001).to_string(), "192.168.0.1");
    assert_eq!(IpAddress::V6(0).to_string(), "::");
    assert_eq!(
        IpInet::parse("10.1.2.3/16"),
        Some(IpInet {
            address: IpAddress::V4(0x0a01_0203),
            network_length: 16
        })
    );
    assert_eq!(
        IpInet::parse("10.1.2.3"),
        Some(IpInet {
            address: IpAddress::V4(0x0a01_0203),
            network_length: 32
        })
    );
    assert_eq!(IpInet::parse("10.1.2.3/33"), None);
    assert_eq!(IpInet::parse("::1/129"), None);
    assert_eq!(IpInet::new(IpAddress::V4(1), 33), None);
    assert_eq!(
        IpInet::new(IpAddress::V6(1), 33),
        Some(IpInet {
            address: IpAddress::V6(1),
            network_length: 33
        })
    );
    assert_eq!(
        IpInet::host(IpAddress::V4(7)),
        IpInet {
            address: IpAddress::V4(7),
            network_length: 32
        }
    );
    let inet = IpInet::parse("10.1.2.3/16").unwrap();
    assert_eq!(inet.to_string(), "10.1.2.3/16");
    assert_eq!(inet.address(), IpAddress::V4(0x0a01_0203));
    assert_eq!(inet.network_length(), 16);
}

#[test]
fn last_address_sets_every_host_bit() {
    let last = |s: &str| IpInet::parse(s).unwrap().last_address();
    assert_eq!(last("192.168.100.10/24"), IpAddress::V4(0xc0a8_64ff));
    assert_eq!(last("10.0.0.0/0"), IpAddress::V4(0xffff_ffff));
    assert_eq!(last("10.0.0.1/32"), IpAddress::V4(0x0a00_0001));
    assert_eq!(last("10.0.0.1/31"), IpAddress::V4(0x0a00_0001));
    assert_eq!(last("10.0.0.0/31"), IpAddress::V4(0x0a00_0001));
    assert_eq!(
        last("2001:db8::/32"),
        IpAddress::V6(0x2001_0db8_ffff_ffff_ffff_ffff_ffff_ffff)
    );
    assert_eq!(last("::/0"), IpAddress::V6(u128::MAX));
    assert_eq!(last("::1/128"), IpAddress::V6(1));
}

#[test]
fn mac_settings() {
    assert_eq!(MacAddress::from_setting(&None), Some(MacAddress::Unset));
    assert_eq!(MacAddress::from_str(""), Some(MacAddress::Unset));
    assert_eq!(MacAddress::from_str("preserve"), Some(MacAddress::Preserve));
    assert_eq!(
        MacAddress::from_str("permanent"),
        Some(MacAddress::Permanent)
    );
    assert_eq!(MacAddress::from_str("random"), Some(MacAddress::Random));
    assert_eq!(MacAddress::from_str("stable"), Some(MacAddress::Stable));
    assert_eq!(MacAddress::from_str("Random"), None);
    assert_eq!(
        MacAddress::from_setting(&Some("02:11:22:33:44:5f".to_string())),
        Some(MacAddress::MacAddress(MacAddr6 {
            bytes: [2, 0x11, 0x22, 0x33, 0x44, 0x5f]
        }))
    );
    assert_eq!(
        MacAddr6 {
            bytes: [0, 0xab, 0x0c, 0xd0, 0xff, 0x10]
        }
        .to_string(),
        "00:AB:0C:D0:FF:10"
    );
    assert_eq!(MacAddress::Stable.to_string(), "stable");
    assert_eq!(MacAddress::Unset.to_string(), "");
    assert_eq!(MacAddr6::parse("02:11:22:33:44"), None);
}

#[test]
fn numbers_and_lists_as_text() {
    assert_eq!(u32_to_string(0), "0");
    assert_eq!(u32_to_string(10), "10");
    assert_eq!(u32_to_string(4_294_967_295), "4294967295");
    assert_eq!(join_with_comma(&vec![]), "");
    assert_eq!(join_with(&vec![], "\n"), "");
    assert_eq!(
        join_with(&vec!["a".to_string(), "b".to_string()], "\n"),
        "a\nb"
    );
    assert_eq!(join_with(&vec!["a".to_string()], "--"), "a");
    assert_eq!(join_with_comma(&vec!["a".to_string()]), "a");
    assert_eq!(
        join_with_comma(&vec!["a".to_string(), "".to_string(), "c".to_string()]),
        "a,,c"
    );
}

#[test]
fn tun_and_tap() {
    let tun = Tun {
        owner: Some(1000),
        group: None,
    };
    assert_eq!(
        tun.to_config(),
        ConnectionConfig::Tun(TunConfig {
            mode: TunMode::Tun,
            group: None,
            owner: Some("1000".to_string())
        })
    );
    let tap = Tap {
        owner: None,
        group: Some(0),
    };
    assert_eq!(
        tap.to_config(),
        ConnectionConfig::Tun(TunConfig {
            mode: TunMode::Tap,
            group: Some("0".to_string()),
            owner: None
        })
    );
    let ifc = Interface {
        name: "tap0".to_string(),
        tap: Some(tap),
        ..Default::default()
    };
    let result = ifc
        .to_connection(&MigrationSettings::default(), &None)
        .unwrap();
    assert!(matches!(result.connections[0].config, ConnectionConfig::Tun(_)));
}

#[test]
fn bridge_settings() {
    let bridge = Bridge::default();
    assert_eq!(
        bridge.to_config(),
        ConnectionConfig::Bridge(BridgeConfig {
            stp: Some(false),
            priority: None,
            forward_delay: None,
            hello_time: None,
            max_age: None,
            ageing_time: None
        })
    );
    let bridge = Bridge {
        stp: true,
        priority: Some(65535),
        forward_delay: Some(15),
        hello_time: Some(2),
        max_age: Some(20),
        aging_time: Some(300),
        address: Some("permanent".to_string()),
    };
    assert_eq!(
        bridge.to_config(),
        ConnectionConfig::Bridge(BridgeConfig {
            stp: Some(true),
            priority: Some(65535),
            forward_delay: Some(15),
            hello_time: Some(2),
            max_age: Some(20),
            ageing_time: Some(300)
        })
    );
}

#[test]
fn warnings_and_notices() {
    assert!(!has_warnings(&vec![]));
    let notice = Warning::UnhandledField {
        interface: "eth0".to_string(),
        field: UnhandledField::Ipv6DhcpUpdate,
    };
    assert_eq!(notice.severity(), Severity::Notice);
    assert!(!has_warnings(&vec![notice.clone()]));
    assert!(has_warnings(&vec![notice, Warning::GratuitousArp]));
    assert_eq!(
        Warning::CustomBroadcast {
            interface: "eth0".to_string(),
            broadcast: "10.0.0.254".to_string()
        }
        .to_string(),
        "Broadcast \"10.0.0.254\" for eth0: Custom broadcast addresses are not supported by NetworkManager"
    );
    assert_eq!(
        Warning::MultipathRoute {
            interface: "eth0".to_string()
        }
        .to_string(),
        "Route of eth0: Multipath routing isn't natively supported by NetworkManager"
    );
    assert_eq!(
        Warning::UnsupportedDnsPolicy.to_string(),
        "NETCONFIG_DNS_POLICY \"STATIC_FALLBACK\" is not supported"
    );
    assert_eq!(Warning::UnrecognizedInput.to_string(), "Unhandled fields");
    assert_eq!(SecurityProtocol::WPA3Personal.name(), "sae");
    assert_eq!(UnhandledField::Ipv6AutoUpdate.name(), "ipv6_auto.update");
    assert_eq!(
        Failure::MissingController(vec!["a".to_string(), "b".to_string()]).to_string(),
        "Unexpected error, port connection is missing controller: a\nb"
    );
    assert_eq!(
        Failure::MissingLoopback.to_string(),
        "Failed to get loopback connection"
    );
    assert_eq!(
        Failure::HexCertificate.to_string(),
        "Hex certificate type is currently not supported"
    );
}

#[test]
fn run_results() {
    assert_eq!(CliResult::Success.exit_code(), 0);
    assert_eq!(CliResult::Error.exit_code(), 1);
    assert_eq!(CliResult::Warnings.exit_code(), 3);
    let ok: Result<(), MigrationError> = Ok(());
    assert_eq!(CliResult::of(&ok), CliResult::Success);
    let show: Result<(), MigrationError> =
        Err(MigrationError::ShowError(Failure::InvalidAddress("x".to_string())));
    assert_eq!(CliResult::of(&show), CliResult::Error);
    assert_eq!(
        show.unwrap_err().to_string(),
        "Show failed: Failed to parse address \"x\""
    );
    assert_eq!(
        MigrationError::Warnings.to_string(),
        "Migration failed because of warnings"
    );
    assert_eq!(
        MigrationError::of_failure(Failure::MissingParent {
            parent: "a".to_string(),
            port: "b".to_string()
        }),
        MigrationError::Warnings
    );
    assert_eq!(
        MigrationError::of_failure(Failure::MissingPort),
        MigrationError::MigrationError(Failure::MissingPort)
    );
}

#[test]
fn command_settings() {
    let show = Commands::Show {
        format: Format::Json,
        paths: vec![],
    };
    assert_eq!(
        show.settings(false),
        MigrationSettings {
            continue_migration: true,
            activate_connections: true,
            with_netconfig: true
        }
    );
    let migrate = Commands::Migrate {
        paths: vec!["/etc".to_string()],
        continue_migration: false,
        dry_run: true,
        activate_connections: false,
    };
    assert_eq!(
        migrate.settings(true),
        MigrationSettings {
            continue_migration: false,
            activate_connections: false,
            with_netconfig: false
        }
    );
    assert_eq!(
        MigrationSettings::default(),
        MigrationSettings {
            continue_migration: false,
            activate_connections: true,
            with_netconfig: false
        }
    );
}

#[test]
fn loopback_interface_is_not_migrated() {
    let named = |name: &str| Interface {
        name: name.to_string(),
        ..Default::default()
    };
    let mut result = InterfacesResult::default();
    result.append(
        vec![named("lo"), named("eth0")],
        vec![Warning::UnrecognizedInput],
    );
    result.append(vec![named("lo0"), named("lo")], vec![]);
    assert_eq!(result.interfaces.len(), 4);
    assert_eq!(result.warnings, vec![Warning::UnrecognizedInput]);
    result.retain_without_loopback();
    let names: Vec<&str> = result.interfaces.iter().map(|i| i.name.as_str()).collect();
    assert_eq!(names, vec!["eth0", "lo0"]);
    assert_eq!(result.warnings, vec![Warning::UnrecognizedInput]);
}

#[test]
fn colons_in_tag_names_become_dashes() {
    assert_eq!(
        replace_colons("<ipv4:static><address>10.0.0.1/8</address></ipv4:static>"),
        "<ipv4-static><address>10.0.0.1/8</address></ipv4-static>"
    );
    assert_eq!(replace_colons("<ipv6:dhcp/>"), "<ipv6-dhcp/>");
    assert_eq!(replace_colons("<name>a:b</name>"), "<name>a:b</name>");
    assert_eq!(replace_colons("<local>fe80::1/64</local>"), "<local>fe80::1/64</local>");
    assert_eq!(replace_colons("<a:b:c>"), "<a-b:c>");
    assert_eq!(replace_colons(""), "");
}

#[test]
fn reading_warnings_end_the_run_unless_continued() {
    let quiet = InterfacesResult::default();
    let warned = InterfacesResult {
        warnings: vec![Warning::UnrecognizedInput],
        ..Default::default()
    };
    let strict = MigrationSettings {
        continue_migration: false,
        activate_connections: false,
        with_netconfig: false,
    };
    let lenient = MigrationSettings {
        continue_migration: true,
        ..strict
    };
    assert!(!reading_aborts(&quiet, &strict));
    assert!(reading_aborts(&warned, &strict));
    assert!(!reading_aborts(&warned, &lenient));
}
