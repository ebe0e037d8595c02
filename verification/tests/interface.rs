use wicked2nm::interface::{
    address_of, route_of, default_defer_timeout, default_flags, default_true, default_v4_update, default_v6_auto_update,
    default_v6_dhcp_update, Address, ControlMode, Dummy, Ethernet, Firewall, Interface, Ip6Privacy,
    Ipv4, Ipv4Dhcp, Ipv4Static, Ipv6, Ipv6Auto, Ipv6Dhcp, Ipv6Static, Link, LinkPort, LinkPortType,
    Nexthop, Route, RouteError,
};
use wicked2nm::ip::{IpAddress, IpInet};
use wicked2nm::mac::MacAddress;
use wicked2nm::model::{
    BridgePortConfig, ConnectionConfig, DhcpClientId, DhcpDuid, DhcpIaid, Ipv4Method, Ipv6Method,
    PortConfig, Status,
};
use wicked2nm::netconfig_dhcp::{handle_netconfig_dhcp_values, HostnameOption, NetconfigDhcp};
use wicked2nm::report::{Failure, Severity, UnhandledField, Warning};
use wicked2nm::settings::MigrationSettings;
use wicked2nm::unhandled::has_unhandled_field;

fn settings() -> MigrationSettings {
    MigrationSettings::default()
}

#[test]
fn test_static_interface_to_connection() {
    let static_interface = Interface {
        ipv4: Ipv4::default(),
        ipv4_static: Some(Ipv4Static {
            addresses: Some(vec![Address {
                local: "127.0.0.1/8".to_string(),
                ..Default::default()
            }]),
            routes: Some(vec![Route {
                nexthops: Some(vec![Nexthop {
                    gateway: "127.0.0.1".to_string(),
                }]),
                ..Default::default()
            }]),
        }),
        ipv6: Ipv6::default(),
        ipv6_static: Some(Ipv6Static {
            addresses: Some(vec![Address {
                local: "::1/128".to_string(),
                ..Default::default()
            }]),
            routes: Some(vec![Route {
                nexthops: Some(vec![Nexthop {
                    gateway: "::1".to_string(),
                }]),
                ..Default::default()
            }]),
        }),
        ..Default::default()
    };

    let static_connection = static_interface
        .to_connection(&settings(), &None)
        .unwrap()
        .connections[0]
        .to_owned();
    assert_eq!(static_connection.ip_config.method4, Ipv4Method::Manual);
    assert_eq!(
        static_connection.ip_config.addresses[0].to_string(),
        "127.0.0.1/8"
    );
    assert_eq!(static_connection.ip_config.method6, Ipv6Method::Manual);
    assert_eq!(static_connection.ip_config.addresses[1].to_string(), "::1");
    assert_eq!(
        static_connection.ip_config.addresses[1]
            .network_length()
            .to_string(),
        "128"
    );
    assert!(static_connection.ip_config.routes4.len() == 1);
    assert_eq!(
        static_connection.ip_config.routes4[0]
            .destination
            .to_string(),
        "0.0.0.0/0"
    );
    assert_eq!(
        static_connection.ip_config.routes4[0]
            .next_hop
            .unwrap()
            .to_string(),
        "127.0.0.1"
    );
    assert!(static_connection.ip_config.routes6.len() == 1);
    assert_eq!(
        static_connection.ip_config.routes6[0]
            .destination
            .to_string(),
        "::/0"
    );
    assert_eq!(
        static_connection.ip_config.routes6[0]
            .next_hop
            .unwrap()
            .to_string(),
        "::1"
    );
}

#[test]
fn test_dhcp_interface_to_connection() {
    let dhcp_interface = Interface {
        ipv4_dhcp: Some(Ipv4Dhcp {
            enabled: true,
            ..Default::default()
        }),
        ..Default::default()
    };

    let dhcp_connection = dhcp_interface
        .to_connection(&settings(), &None)
        .unwrap()
        .connections[0]
        .to_owned();
    assert_eq!(dhcp_connection.ip_config.method4, Ipv4Method::Auto);
    assert_eq!(dhcp_connection.ip_config.method6, Ipv6Method::Auto);
    assert_eq!(dhcp_connection.ip_config.addresses.len(), 0);
}

#[test]
fn test_dummy_interface_to_connection() {
    let dummy_interface = Interface {
        dummy: Some(Dummy {
            address: Some("12:34:56:78:9A:BC".to_string()),
        }),
        ..Default::default()
    };

    let result = dummy_interface.to_connection(&settings(), &None).unwrap();
    let connection = &result.connections[0];
    assert!(matches!(connection.config, ConnectionConfig::Dummy));
    assert_eq!(
        connection.custom_mac_address.to_string(),
        "12:34:56:78:9A:BC"
    );

    let dummy_interface = Interface {
        dummy: Some(Dummy {
            ..Default::default()
        }),
        ..Default::default()
    };

    let result = dummy_interface.to_connection(&settings(), &None).unwrap();
    let connection = &result.connections[0];
    assert!(matches!(connection.config, ConnectionConfig::Dummy));
    assert_eq!(dummy_interface.dummy.unwrap().address, None);
    assert!(matches!(connection.custom_mac_address, MacAddress::Unset));
}

#[test]
fn test_firewall_zone_to_connection() {
    let ifc = Interface {
        firewall: Firewall {
            zone: Some("topsecret".to_string()),
        },
        ..Default::default()
    };

    let con = ifc.to_connection(&settings(), &None).unwrap().connections[0].to_owned();
    assert_eq!(con.firewall_zone, Some("topsecret".to_string()));
}

#[test]
fn test_startmode_to_connection() {
    let mut ifc = Interface::default();

    let con = ifc.to_connection(&settings(), &None).unwrap().connections[0].to_owned();
    assert!(!con.autoconnect);

    ifc.control.mode = ControlMode::Boot;
    let con = ifc.to_connection(&settings(), &None).unwrap().connections[0].to_owned();
    assert!(con.autoconnect);
}

#[test]
fn test_ignored_default() {
    let ifc = Interface::default();
    assert!(!has_unhandled_field(&ifc));

    let ifc = Interface {
        ipv4_dhcp: Some(Ipv4Dhcp {
            flags: String::from("123"),
            update: String::from("456"),
            defer_timeout: 0,
            recover_lease: false,
            ..Default::default()
        }),
        ipv6_dhcp: Some(Ipv6Dhcp {
            flags: String::from("123"),
            update: String::from("456"),
            rapid_commit: false,
            defer_timeout: 0,
            recover_lease: false,
            refresh_lease: true,
            ..Default::default()
        }),
        ipv6_auto: Some(Ipv6Auto {
            update: String::from("123"),
            ..Default::default()
        }),
        ..Default::default()
    };
    assert!(has_unhandled_field(&ifc));
    let captured_logs = ifc.unhandled_warnings();
    for l in &captured_logs {
        println!("{:?}", l.to_string());
    }
    assert_eq!(
        captured_logs
            .iter()
            .filter(|l| l.severity() == Severity::Warning)
            .count(),
        9
    );
    assert_eq!(
        captured_logs
            .iter()
            .filter(|l| l.severity() == Severity::Notice)
            .count(),
        2
    );
}

#[test]
fn test_broadcast() {
    let ifc = Interface {
        ipv4_static: Some(Ipv4Static {
            addresses: Some(vec![Address {
                local: "192.168.100.10/24".to_string(),
                broadcast: Some("192.168.100.255".to_string()),
            }]),
            routes: None,
        }),
        ..Default::default()
    };

    let ip_result = ifc.to_ip_config(&None).unwrap();
    assert!(!ip_result.has_warnings());

    let ifc = Interface {
        ipv4_static: Some(Ipv4Static {
            addresses: Some(vec![Address {
                local: "192.168.100.10/24".to_string(),
                broadcast: Some("192.168.100.254".to_string()),
            }]),
            routes: None,
        }),
        ..Default::default()
    };

    let ip_result = ifc.to_ip_config(&None).unwrap();
    assert!(ip_result.has_warnings());
    assert_eq!(
        ip_result.warnings,
        vec![Warning::CustomBroadcast {
            interface: "".to_string(),
            broadcast: "192.168.100.254".to_string()
        }]
    );
}

#[test]
fn broadcast_of_ipv6_is_not_checked() {
    let ifc = Interface {
        ipv6_static: Some(Ipv6Static {
            addresses: Some(vec![Address {
                local: "2001:db8::1/64".to_string(),
                broadcast: Some("not an address".to_string()),
            }]),
            routes: None,
        }),
        ..Default::default()
    };
    let ip_result = ifc.to_ip_config(&None).unwrap();
    assert!(ip_result.warnings.is_empty());
    assert_eq!(
        ip_result.ip_config.addresses,
        vec![IpInet {
            address: IpAddress::V6(0x2001_0db8_0000_0000_0000_0000_0000_0001),
            network_length: 64
        }]
    );
}

#[test]
fn default_route_follows_the_family_of_the_gateway() {
    let route = Route {
        destination: None,
        nexthops: Some(vec![Nexthop {
            gateway: "10.0.0.1".to_string(),
        }]),
        priority: Some(7),
    };
    let r = route.to_ip_route().unwrap();
    assert_eq!(
        r.destination,
        IpInet {
            address: IpAddress::V4(0),
            network_length: 0
        }
    );
    assert_eq!(r.next_hop, Some(IpAddress::V4(0x0a00_0001)));
    assert_eq!(r.metric, Some(7));

    let route = Route {
        destination: None,
        nexthops: Some(vec![Nexthop {
            gateway: "fe80::1".to_string(),
        }]),
        priority: None,
    };
    let r = route.to_ip_route().unwrap();
    assert_eq!(
        r.destination,
        IpInet {
            address: IpAddress::V6(0),
            network_length: 0
        }
    );
    assert_eq!(
        r.next_hop,
        Some(IpAddress::V6(0xfe80_0000_0000_0000_0000_0000_0000_0001))
    );
    assert_eq!(r.metric, None);
}

#[test]
fn route_with_destination() {
    let route = Route {
        destination: Some("192.168.7.0/24".to_string()),
        nexthops: None,
        priority: None,
    };
    let r = route.to_ip_route().unwrap();
    assert_eq!(
        r.destination,
        IpInet {
            address: IpAddress::V4(0xc0a8_0700),
            network_length: 24
        }
    );
    assert_eq!(r.next_hop, None);

    let route = Route {
        destination: Some("192.168.7.0/24".to_string()),
        nexthops: Some(vec![]),
        priority: None,
    };
    assert_eq!(route.to_ip_route().unwrap().next_hop, None);
}

#[test]
fn route_errors() {
    let two = Route {
        destination: Some("192.168.7.0/24".to_string()),
        nexthops: Some(vec![
            Nexthop {
                gateway: "10.0.0.1".to_string(),
            },
            Nexthop {
                gateway: "10.0.0.2".to_string(),
            },
        ]),
        priority: None,
    };
    assert_eq!(two.to_ip_route(), Err(RouteError::Multipath));
    assert_eq!(RouteError::Multipath.failure(), None);

    let bad_gateway = Route {
        destination: None,
        nexthops: Some(vec![Nexthop {
            gateway: "gateway".to_string(),
        }]),
        priority: None,
    };
    assert_eq!(bad_gateway.to_ip_route(), Err(RouteError::InvalidGateway));
    assert_eq!(
        RouteError::InvalidGateway.failure(),
        Some(Failure::InvalidGateway)
    );

    let bad_destination = Route {
        destination: Some("192.168.7.0/33".to_string()),
        nexthops: None,
        priority: None,
    };
    assert_eq!(
        bad_destination.to_ip_route(),
        Err(RouteError::InvalidDestination)
    );
    assert_eq!(
        RouteError::InvalidDestination.failure(),
        Some(Failure::InvalidDestination)
    );

    let empty = Route::default();
    assert_eq!(empty.to_ip_route(), Err(RouteError::EmptyRoute));
    assert_eq!(RouteError::EmptyRoute.failure(), Some(Failure::EmptyRoute));
}

#[test]
fn multipath_route_is_left_out_with_a_warning() {
    let ifc = Interface {
        name: "eth0".to_string(),
        ipv4_static: Some(Ipv4Static {
            addresses: None,
            routes: Some(vec![
                Route {
                    destination: Some("10.1.0.0/16".to_string()),
                    nexthops: Some(vec![
                        Nexthop {
                            gateway: "10.0.0.1".to_string(),
                        },
                        Nexthop {
                            gateway: "10.0.0.2".to_string(),
                        },
                    ]),
                    priority: None,
                },
                Route {
                    destination: Some("10.2.0.0/16".to_string()),
                    nexthops: Some(vec![Nexthop {
                        gateway: "10.0.0.3".to_string(),
                    }]),
                    priority: None,
                },
            ]),
        }),
        ..Default::default()
    };
    let result = ifc.to_ip_config(&None).unwrap();
    assert_eq!(
        result.warnings,
        vec![Warning::MultipathRoute {
            interface: "eth0".to_string()
        }]
    );
    assert!(result.has_warnings());
    assert_eq!(result.ip_config.routes4.len(), 1);
    assert_eq!(
        result.ip_config.routes4[0].next_hop,
        Some(IpAddress::V4(0x0a00_0003))
    );
    assert_eq!(
        result.ip_config.routes4[0].destination.to_string(),
        "10.2.0.0/16"
    );
}

#[test]
fn ip_failures() {
    let bad_address = Interface {
        ipv4_static: Some(Ipv4Static {
            addresses: Some(vec![Address {
                local: "300.0.0.1/8".to_string(),
                broadcast: None,
            }]),
            routes: None,
        }),
        ..Default::default()
    };
    assert_eq!(
        bad_address.to_ip_config(&None).unwrap_err(),
        Failure::InvalidAddress("300.0.0.1/8".to_string())
    );
    assert_eq!(
        bad_address.to_ip_config(&None).unwrap_err().to_string(),
        "Failed to parse address \"300.0.0.1/8\""
    );

    let bad_broadcast = Interface {
        ipv4_static: Some(Ipv4Static {
            addresses: Some(vec![Address {
                local: "10.0.0.1/8".to_string(),
                broadcast: Some("everyone".to_string()),
            }]),
            routes: None,
        }),
        ..Default::default()
    };
    assert_eq!(
        bad_broadcast.to_ip_config(&None).unwrap_err(),
        Failure::InvalidBroadcast("everyone".to_string())
    );
    assert_eq!(
        bad_broadcast.to_ip_config(&None).unwrap_err().to_string(),
        "Failed to parse broadcast address \"everyone\""
    );

    let bad_gateway = Interface {
        ipv6_static: Some(Ipv6Static {
            addresses: None,
            routes: Some(vec![Route {
                destination: None,
                nexthops: Some(vec![Nexthop {
                    gateway: "".to_string(),
                }]),
                priority: None,
            }]),
        }),
        ..Default::default()
    };
    assert_eq!(
        bad_gateway.to_ip_config(&None).unwrap_err(),
        Failure::InvalidGateway
    );

    let bad_destination = Interface {
        ipv4_static: Some(Ipv4Static {
            addresses: None,
            routes: Some(vec![Route {
                destination: Some("nowhere".to_string()),
                nexthops: None,
                priority: None,
            }]),
        }),
        ..Default::default()
    };
    assert_eq!(
        bad_destination.to_ip_config(&None).unwrap_err(),
        Failure::InvalidDestination
    );

    let empty_route = Interface {
        ipv4_static: Some(Ipv4Static {
            addresses: None,
            routes: Some(vec![Route::default()]),
        }),
        ..Default::default()
    };
    assert_eq!(
        empty_route.to_ip_config(&None).unwrap_err(),
        Failure::EmptyRoute
    );
    assert_eq!(
        empty_route.to_connection(&settings(), &None).unwrap_err(),
        Failure::EmptyRoute
    );
}

#[test]
fn ip_methods() {
    let mut ifc = Interface::default();
    let ip = ifc.to_ip_config(&None).unwrap().ip_config;
    assert_eq!(ip.method4, Ipv4Method::Auto);
    assert_eq!(ip.method6, Ipv6Method::Auto);

    ifc.ipv4.enabled = false;
    assert_eq!(
        ifc.to_ip_config(&None).unwrap().ip_config.method4,
        Ipv4Method::Disabled
    );
    ifc.ipv4.enabled = true;

    ifc.ipv6.enabled = false;
    assert_eq!(
        ifc.to_ip_config(&None).unwrap().ip_config.method6,
        Ipv6Method::Disabled
    );

    ifc.ipv6_dhcp = Some(Ipv6Dhcp {
        mode: "managed".to_string(),
        ..Default::default()
    });
    assert_eq!(
        ifc.to_ip_config(&None).unwrap().ip_config.method6,
        Ipv6Method::Dhcp
    );

    ifc.ipv4_dhcp = Some(Ipv4Dhcp::default());
    ifc.ipv4.enabled = false;
    assert_eq!(
        ifc.to_ip_config(&None).unwrap().ip_config.method4,
        Ipv4Method::Disabled
    );

    ifc.ipv4_static = Some(Ipv4Static {
        addresses: None,
        routes: None,
    });
    assert_eq!(
        ifc.to_ip_config(&None).unwrap().ip_config.method4,
        Ipv4Method::Manual
    );
}

#[test]
fn dhcp_settings() {
    let ifc = Interface {
        ipv4_dhcp: Some(Ipv4Dhcp {
            hostname: Some("box".to_string()),
            release_lease: true,
            ..Default::default()
        }),
        ipv6: Ipv6 {
            enabled: true,
            privacy: Some(Ip6Privacy::PreferTemporary),
            accept_redirects: false,
        },
        ..Default::default()
    };
    let ip = ifc.to_ip_config(&None).unwrap().ip_config;
    let d4 = ip.dhcp4_settings.unwrap();
    assert_eq!(d4.send_hostname, Some(true));
    assert_eq!(d4.hostname, Some("box".to_string()));
    assert_eq!(d4.send_release, Some(true));
    assert_eq!(d4.client_id, DhcpClientId::Ipv6Duid);
    assert_eq!(d4.iaid, DhcpIaid::Mac);
    let d6 = ip.dhcp6_settings.unwrap();
    assert_eq!(d6.send_hostname, None);
    assert_eq!(d6.duid, DhcpDuid::Llt);
    assert_eq!(d6.iaid, DhcpIaid::Unset);
    assert_eq!(ip.ip6_privacy, Some(2));

    let auto = Some(NetconfigDhcp {
        dhclient_hostname_option: HostnameOption::Auto,
        dhclient6_hostname_option: HostnameOption::Empty,
    });
    let ip = ifc.to_ip_config(&auto).unwrap().ip_config;
    let d4 = ip.dhcp4_settings.unwrap();
    assert_eq!(d4.send_hostname, Some(true));
    assert_eq!(d4.hostname, None);

    let plain = Interface::default();
    let ip = plain.to_ip_config(&None).unwrap().ip_config;
    let d4 = ip.dhcp4_settings.unwrap();
    assert_eq!(d4.send_hostname, None);
    assert_eq!(d4.client_id, DhcpClientId::Unset);
    assert_eq!(ip.dhcp6_settings.unwrap().duid, DhcpDuid::Unset);
    assert_eq!(ip.ip6_privacy, None);
}

#[test]
fn netconfig_dhcp_values() {
    let n = handle_netconfig_dhcp_values(Some("AUTO".to_string()), None);
    assert_eq!(n.dhclient_hostname_option, HostnameOption::Auto);
    assert_eq!(n.dhclient6_hostname_option, HostnameOption::Empty);
    let n = handle_netconfig_dhcp_values(Some("".to_string()), Some("myhost".to_string()));
    assert_eq!(n.dhclient_hostname_option, HostnameOption::Empty);
    assert_eq!(
        n.dhclient6_hostname_option,
        HostnameOption::Value("myhost".to_string())
    );
    assert_eq!(
        HostnameOption::from("auto".to_string()),
        HostnameOption::Value("auto".to_string())
    );
}

#[test]
fn defaults_of_the_records() {
    assert!(default_true());
    assert_eq!(default_flags(), "group");
    assert_eq!(
        default_v4_update(),
        "default-route,dns,nis,ntp,nds,mtu,tz,boot"
    );
    assert_eq!(default_defer_timeout(), 15);
    assert_eq!(default_v6_dhcp_update(), "dns,nis,ntp,tz,boot");
    assert_eq!(default_v6_auto_update(), "dns");
    assert_eq!(
        Ipv4::default(),
        Ipv4 {
            enabled: true,
            arp_verify: true
        }
    );
    assert_eq!(Ipv6Dhcp::default().mode, "auto");
    assert_eq!(Ipv6Auto::default().update, "dns");
    assert!(Ipv4Dhcp::default().recover_lease);
    assert_eq!(Ip6Privacy::Disable.value(), 0);
    assert_eq!(Ip6Privacy::PreferPublic.value(), 1);
    assert_eq!(Ip6Privacy::default(), Ip6Privacy::PreferPublic);
    assert_eq!(ControlMode::default(), ControlMode::Manual);
    assert!(!ControlMode::Off.autoconnect());
    assert!(ControlMode::Hotplug.autoconnect());
}

#[test]
fn unhandled_fields_are_named() {
    let ifc = Interface {
        name: "eth7".to_string(),
        ipv4: Ipv4 {
            enabled: true,
            arp_verify: false,
        },
        ipv4_dhcp: Some(Ipv4Dhcp {
            update: "dns".to_string(),
            ..Default::default()
        }),
        ..Default::default()
    };
    assert_eq!(
        ifc.unhandled_fields(),
        vec![UnhandledField::Ipv4ArpVerify, UnhandledField::Ipv4DhcpUpdate]
    );
    assert!(has_unhandled_field(&ifc));
    let warnings = ifc.unhandled_warnings();
    assert_eq!(
        warnings[0].to_string(),
        "Unhandled field in interface eth7: ipv4.arp_verify"
    );
    assert_eq!(warnings[1].severity(), Severity::Notice);
    let result = ifc.to_connection(&settings(), &None).unwrap();
    assert_eq!(result.warnings, warnings);

    let only_update = Interface {
        ipv6_dhcp: Some(Ipv6Dhcp {
            update: "dns".to_string(),
            ..Default::default()
        }),
        ..Default::default()
    };
    assert!(!has_unhandled_field(&only_update));
    let result = only_update.to_connection(&settings(), &None).unwrap();
    assert_eq!(result.warnings.len(), 1);
    assert!(!result.has_warnings());
}

#[test]
fn connection_carries_the_fields_of_the_record() {
    let ifc = Interface {
        name: "eth0".to_string(),
        link: Link {
            master: Some("br0".to_string()),
            mtu: Some(1400),
            port: Some(LinkPort {
                port_type: LinkPortType::Bridge,
                priority: Some(32),
                path_cost: None,
            }),
        },
        ethernet: Some(Ethernet {
            address: Some("random".to_string()),
        }),
        control: wicked2nm::interface::Control {
            mode: ControlMode::Boot,
            ..Default::default()
        },
        ..Default::default()
    };
    let result = ifc.to_connection(&settings(), &None).unwrap();
    assert_eq!(result.connections.len(), 1);
    let c = &result.connections[0];
    assert_eq!(c.id, "eth0");
    assert_eq!(c.interface, Some("eth0".to_string()));
    assert_eq!(c.mtu, 1400);
    assert_eq!(c.custom_mac_address, MacAddress::Random);
    assert_eq!(c.status, Status::Up);
    assert_eq!(c.controller, None);
    assert_eq!(
        c.port_config,
        PortConfig::Bridge(BridgePortConfig {
            priority: Some(32),
            path_cost: None
        })
    );
    assert!(matches!(c.config, ConnectionConfig::Ethernet));

    let no_activation = MigrationSettings {
        activate_connections: false,
        ..settings()
    };
    let c = &ifc.to_connection(&no_activation, &None).unwrap().connections[0];
    assert_eq!(c.status, Status::Down);
    assert!(c.autoconnect);
}

#[test]
fn invalid_mac_address_is_a_failure() {
    let ifc = Interface {
        ethernet: Some(Ethernet {
            address: Some("12:34:56".to_string()),
        }),
        ..Default::default()
    };
    assert_eq!(
        ifc.to_connection(&settings(), &None).unwrap_err(),
        Failure::InvalidMacAddress
    );
}

#[test]
fn first_technology_counts() {
    let ifc = Interface {
        ethernet: Some(Ethernet { address: None }),
        dummy: Some(Dummy { address: None }),
        ..Default::default()
    };
    assert_eq!(ifc.technology_count(), 1);
    let result = ifc.to_connection(&settings(), &None).unwrap();
    assert_eq!(result.connections.len(), 1);
    assert!(matches!(
        result.connections[0].config,
        ConnectionConfig::Ethernet
    ));
}

#[test]
fn route_of_what_was_read() {
    let v4 = IpAddress::V4(0x0a00_0001);
    let net = IpInet {
        address: IpAddress::V4(0x0a01_0000),
        network_length: 16,
    };
    assert_eq!(
        route_of(1, Some(v4), None, Some(5)),
        Ok(wicked2nm::model::IpRoute {
            destination: IpInet {
                address: IpAddress::V4(0),
                network_length: 0
            },
            next_hop: Some(v4),
            metric: Some(5)
        })
    );
    assert_eq!(
        route_of(1, Some(IpAddress::V6(1)), None, None)
            .unwrap()
            .destination,
        IpInet {
            address: IpAddress::V6(0),
            network_length: 0
        }
    );
    assert_eq!(
        route_of(0, Some(v4), Some(Some(net)), None),
        Ok(wicked2nm::model::IpRoute {
            destination: net,
            next_hop: None,
            metric: None
        })
    );
    assert_eq!(
        route_of(2, Some(v4), Some(Some(net)), None),
        Err(RouteError::Multipath)
    );
    assert_eq!(
        route_of(1, None, Some(Some(net)), None),
        Err(RouteError::InvalidGateway)
    );
    assert_eq!(
        route_of(1, Some(v4), Some(None), None),
        Err(RouteError::InvalidDestination)
    );
    assert_eq!(route_of(0, None, None, None), Err(RouteError::EmptyRoute));
    assert_eq!(route_of(0, Some(v4), None, None), Err(RouteError::EmptyRoute));
}

#[test]
fn address_of_what_was_read() {
    let inet = IpInet {
        address: IpAddress::V4(0xc0a8_640a),
        network_length: 24,
    };
    let text = "192.168.100.255".to_string();
    let last = IpAddress::V4(0xc0a8_64ff);
    let other = IpAddress::V4(0xc0a8_64fe);
    assert_eq!(
        address_of("eth0", "a", Some(inet), Some(&text), Some(last), true),
        Ok((inet, vec![]))
    );
    assert_eq!(
        address_of("eth0", "a", Some(inet), Some(&text), Some(other), true),
        Ok((
            inet,
            vec![Warning::CustomBroadcast {
                interface: "eth0".to_string(),
                broadcast: text.clone()
            }]
        ))
    );
    assert_eq!(
        address_of("eth0", "a", Some(inet), Some(&text), Some(other), false),
        Ok((inet, vec![]))
    );
    assert_eq!(
        address_of("eth0", "a", Some(inet), Some(&text), None, false),
        Ok((inet, vec![]))
    );
    assert_eq!(
        address_of("eth0", "a", Some(inet), Some(&text), None, true),
        Err(Failure::InvalidBroadcast(text.clone()))
    );
    assert_eq!(
        address_of("eth0", "a", None, Some(&text), Some(last), true),
        Err(Failure::InvalidAddress("a".to_string()))
    );
    assert_eq!(
        address_of("eth0", "a", Some(inet), None, None, true),
        Ok((inet, vec![]))
    );
}
