use wicked2nm::infiniband::{parse_pkey, Infiniband, InfinibandChild};
use wicked2nm::interface::Interface;
use wicked2nm::model::{ConnectionConfig, InfinibandTransportMode};
use wicked2nm::report::Failure;
use wicked2nm::settings::MigrationSettings;

fn settings() -> MigrationSettings {
    MigrationSettings {
        continue_migration: false,
        activate_connections: true,
        with_netconfig: false,
    }
}

#[test]
fn test_infiniband_migration() {
    let infiniband_interface = Interface {
        infiniband: Some(Infiniband {
            mode: Some("datagram".to_string()),
            multicast: Some("allowed".to_string()),
        }),
        ..Default::default()
    };

    let connections = infiniband_interface.to_connection(&settings(), &None);
    assert!(connections.is_ok());
    let connection = &connections.unwrap().connections[0];
    let ConnectionConfig::Infiniband(infiniband) = &connection.config else {
        panic!()
    };
    assert_eq!(
        infiniband.transport_mode,
        InfinibandTransportMode::Datagram
    );
}

#[test]
fn test_infiniband_child_migration() {
    let infiniband_child_interface = Interface {
        infiniband_child: Some(InfinibandChild {
            mode: Some("datagram".to_string()),
            multicast: Some("allowed".to_string()),
            pkey: 0x8001,
            device: "ib0".to_string(),
        }),
        ..Default::default()
    };

    let connections = infiniband_child_interface.to_connection(&settings(), &None);
    assert!(connections.is_ok());

    // Check multicast warning is generated
    assert_eq!(connections.as_ref().unwrap().warnings.len(), 1);
    assert_eq!(
        connections.as_ref().unwrap().warnings[0].to_string(),
        "Infiniband multicast isn't supported by NetworkManager"
    );
    assert!(connections.as_ref().unwrap().has_warnings());

    let connection = &connections.unwrap().connections[0];
    let ConnectionConfig::Infiniband(infiniband_child) = &connection.config else {
        panic!()
    };
    assert_eq!(
        infiniband_child.transport_mode,
        InfinibandTransportMode::Datagram
    );
    assert_eq!(infiniband_child.p_key, Some(0x8001));
    assert_eq!(infiniband_child.parent, Some("ib0".to_string()));
}

#[test]
fn infiniband_mode_defaults_to_datagram() {
    let ib = Infiniband {
        mode: None,
        multicast: None,
    };
    let Some(ConnectionConfig::Infiniband(config)) = ib.to_config() else {
        panic!()
    };
    assert_eq!(config.transport_mode, InfinibandTransportMode::Datagram);
    assert_eq!(config.p_key, None);
    assert_eq!(config.parent, None);

    let ib = Infiniband {
        mode: Some("connected".to_string()),
        multicast: None,
    };
    let Some(ConnectionConfig::Infiniband(config)) = ib.to_config() else {
        panic!()
    };
    assert_eq!(config.transport_mode, InfinibandTransportMode::Connected);
}

#[test]
fn infiniband_without_multicast_gives_no_warning() {
    let ifc = Interface {
        infiniband: Some(Infiniband {
            mode: None,
            multicast: None,
        }),
        ..Default::default()
    };
    let result = ifc.to_connection(&settings(), &None).unwrap();
    assert!(result.warnings.is_empty());
    assert!(!result.has_warnings());
}

#[test]
fn infiniband_unknown_mode_is_a_failure() {
    let ifc = Interface {
        infiniband: Some(Infiniband {
            mode: Some("broadcast".to_string()),
            multicast: None,
        }),
        ..Default::default()
    };
    assert_eq!(
        ifc.to_connection(&settings(), &None).unwrap_err(),
        Failure::InvalidInfinibandMode
    );
    let child = Interface {
        infiniband_child: Some(InfinibandChild {
            mode: Some("".to_string()),
            multicast: None,
            pkey: 1,
            device: "ib0".to_string(),
        }),
        ..Default::default()
    };
    assert_eq!(
        child.to_connection(&settings(), &None).unwrap_err(),
        Failure::InvalidInfinibandMode
    );
}

#[test]
fn test_deserialize_pkey() {
    let infiniband_child = InfinibandChild {
        pkey: parse_pkey("0x8001").unwrap(),
        device: "ib0".to_string(),
        ..Default::default()
    };
    assert_eq!(infiniband_child.pkey, 0x8001);
}

#[test]
fn partition_keys_as_they_are_written() {
    assert_eq!(parse_pkey("0x8001"), Some(0x8001));
    assert_eq!(parse_pkey("8001"), Some(0x8001));
    assert_eq!(parse_pkey("0xffff"), Some(0xffff));
    assert_eq!(parse_pkey("0xFFFF"), Some(0xffff));
    assert_eq!(parse_pkey("0x0"), Some(0));
    assert_eq!(parse_pkey("0"), Some(0));
    assert_eq!(parse_pkey("0x0x1f"), Some(0x1f));
    assert_eq!(parse_pkey("0x+1f"), Some(0x1f));
    assert_eq!(parse_pkey("+1f"), Some(0x1f));
    assert_eq!(parse_pkey("0x000000001"), Some(1));
    assert_eq!(parse_pkey("aBc"), Some(0xabc));

    assert_eq!(parse_pkey(""), None);
    assert_eq!(parse_pkey("0x"), None);
    assert_eq!(parse_pkey("+"), None);
    assert_eq!(parse_pkey("++1"), None);
    assert_eq!(parse_pkey("-1"), None);
    assert_eq!(parse_pkey("0x10000"), None);
    assert_eq!(parse_pkey("0xfffff"), None);
    assert_eq!(parse_pkey("0x80g1"), None);
    assert_eq!(parse_pkey(" 0x8001"), None);
    assert_eq!(parse_pkey("0X8001"), None);
    assert_eq!(parse_pkey("1 "), None);
    assert_eq!(parse_pkey("\u{e9}"), None);
}

#[test]
fn partition_keys_are_read_as_the_standard_library_reads_them() {
    let texts = [
        "0x8001", "8001", "0x", "", "+", "+7", "0x0x0x12", "x12", "0xx12", "00x12", "10000",
        "ffff", "0x+ffff", "+0x1", "0x-1", "1_0", "0x00000000000000001", "fffffffffffff",
    ];
    for text in texts {
        let expected = u16::from_str_radix(text.trim_start_matches("0x"), 16).ok();
        assert_eq!(parse_pkey(text), expected, "{text}");
    }
}
