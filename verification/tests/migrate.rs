use wicked2nm::cli::{plan_migration, CliResult, MigrationError};
use wicked2nm::infiniband::InfinibandChild;
use wicked2nm::interface::{
    Control, ControlMode, Ethernet, Interface, Link, LinkPort, LinkPortType,
};
use wicked2nm::migrate::{
    assemble_networkstate, correct_activation, get_parentmatch_ovsbridge, resolve_parents,
    to_networkstate, update_parent_connection, ParentMatch, PendingLink,
};
use wicked2nm::model::{
    Connection, ConnectionConfig, OvsBridgeConfig, OvsPortConfig, PortConfig, Status,
};
use wicked2nm::ovs::{OvsBridge, OvsBridgeVlan};
use wicked2nm::reader::InterfacesResult;
use wicked2nm::report::{Failure, Warning};
use wicked2nm::settings::MigrationSettings;
use wicked2nm::wireless::{Network, Wireless};

fn strict() -> MigrationSettings {
    MigrationSettings {
        continue_migration: false,
        activate_connections: false,
        with_netconfig: false,
    }
}

fn lenient() -> MigrationSettings {
    MigrationSettings {
        continue_migration: true,
        ..strict()
    }
}

fn input(interfaces: Vec<Interface>) -> InterfacesResult {
    InterfacesResult {
        interfaces,
        ..Default::default()
    }
}

fn port_of(name: &str, master: &str, port_type: LinkPortType) -> Interface {
    Interface {
        name: name.to_string(),
        link: Link {
            master: Some(master.to_string()),
            mtu: None,
            port: Some(LinkPort {
                port_type,
                priority: None,
                path_cost: None,
            }),
        },
        ..Default::default()
    }
}

fn bridge(name: &str) -> Interface {
    Interface {
        name: name.to_string(),
        bridge: Some(wicked2nm::bridge::Bridge::default()),
        ..Default::default()
    }
}

fn conn(id: &str, uuid: u128) -> Connection {
    Connection {
        id: id.to_string(),
        uuid,
        interface: Some(id.to_string()),
        ..Default::default()
    }
}

fn link(port_uuid: u128, port_id: &str, master: &str, port_type: Option<LinkPortType>) -> PendingLink {
    PendingLink {
        port_uuid,
        port_id: port_id.to_string(),
        master: master.to_string(),
        port: port_type.map(|port_type| LinkPort {
            port_type,
            priority: None,
            path_cost: None,
        }),
    }
}

#[test]
fn bridge_port_is_linked_to_its_bridge() {
    let result = to_networkstate(
        &input(vec![
            port_of("eth0", "br0", LinkPortType::Bridge),
            bridge("br0"),
            port_of("eth1", "br0", LinkPortType::Bond),
        ]),
        &strict(),
        &vec![],
    )
    .unwrap();
    assert!(result.warnings.is_empty());
    let state = result.network_state;
    assert_eq!(state.connections.len(), 3);
    let br0 = state.get_connection("br0").unwrap();
    assert_eq!(br0.controller, None);
    assert!(matches!(br0.config, ConnectionConfig::Bridge(_)));
    for id in ["eth0", "eth1"] {
        let port = state.get_connection(id).unwrap();
        assert_eq!(port.controller, Some(br0.uuid));
        assert_ne!(port.uuid, br0.uuid);
    }
}

#[test]
fn real_ovs_bridge_gives_three_linked_connections() {
    let ifc = Interface {
        name: "ovsbr0".to_string(),
        ovs_bridge: Some(OvsBridge { vlan: None }),
        control: Control {
            mode: ControlMode::Boot,
            ..Default::default()
        },
        ..Default::default()
    };
    assert_eq!(ifc.technology_count(), 3);
    let result = ifc.to_connection(&strict(), &None).unwrap();
    let c = &result.connections;
    assert_eq!(c.len(), 3);
    assert_eq!(c[0].id, "ovsbr0-bridge");
    assert_eq!(c[0].interface, Some("ovsbr0-bridge".to_string()));
    assert_eq!(c[0].config, ConnectionConfig::OvsBridge(OvsBridgeConfig {}));
    assert_eq!(c[0].controller, None);
    assert!(c[0].autoconnect);
    assert_eq!(c[1].id, "ovsbr0-port");
    assert_eq!(
        c[1].config,
        ConnectionConfig::OvsPort(OvsPortConfig { tag: None })
    );
    assert_eq!(c[1].controller, Some(c[0].uuid));
    assert_eq!(c[2].id, "ovsbr0");
    assert!(matches!(c[2].config, ConnectionConfig::OvsInterface(_)));
    assert_eq!(c[2].controller, Some(c[1].uuid));
    assert_eq!(c[2].status, Status::Down);
    assert_eq!(c[1].status, Status::Up);
    assert_ne!(c[0].uuid, c[1].uuid);
    assert_ne!(c[0].uuid, c[2].uuid);
    assert_ne!(c[1].uuid, c[2].uuid);
    assert_eq!(ifc.to_ovs_port_name(), "ovsbr0-port");
    assert_eq!(ifc.to_ovs_bridge_name(), "ovsbr0-bridge");
}

fn fake_bridge_setup() -> Vec<Interface> {
    vec![
        port_of("eth0", "ovsbr1", LinkPortType::OvsBridge),
        Interface {
            name: "ovsbr1".to_string(),
            ovs_bridge: Some(OvsBridge {
                vlan: Some(OvsBridgeVlan {
                    parent: "ovsbr0".to_string(),
                    tag: 10,
                }),
            }),
            ..Default::default()
        },
        Interface {
            name: "ovsbr0".to_string(),
            ovs_bridge: Some(OvsBridge { vlan: None }),
            ..Default::default()
        },
        port_of("eth1", "ovsbr1", LinkPortType::OvsBridge),
    ]
}

#[test]
fn fake_bridge_ports_are_linked_to_the_real_bridge() {
    let result = to_networkstate(&input(fake_bridge_setup()), &strict(), &vec![]).unwrap();
    let state = result.network_state;
    let real = state.get_connection("ovsbr0-bridge").unwrap().uuid;
    let fake_iface = state.get_connection("ovsbr1").unwrap();
    let fake_port = state.get_connection("ovsbr1-port").unwrap();
    assert_eq!(fake_iface.controller, Some(fake_port.uuid));
    assert_eq!(fake_port.controller, Some(real));
    assert_eq!(
        fake_port.config,
        ConnectionConfig::OvsPort(OvsPortConfig { tag: Some(10) })
    );
    for name in ["eth0", "eth1"] {
        let port = state.get_connection(&format!("{name}-port")).unwrap();
        assert_eq!(port.controller, Some(real));
        assert_ne!(port.controller, Some(fake_iface.uuid));
        assert_eq!(
            port.config,
            ConnectionConfig::OvsPort(OvsPortConfig { tag: Some(10) })
        );
        let iface = state.get_connection(name).unwrap();
        assert_eq!(iface.controller, Some(port.uuid));
        assert_eq!(
            iface.port_config,
            PortConfig::OvsBridge(wicked2nm::model::OvsBridgePortConfig {})
        );
    }
    for c in &state.connections {
        assert_ne!(c.controller, Some(c.uuid));
        if let Some(controller) = c.controller {
            assert!(state.connections.iter().any(|d| d.uuid == controller));
        }
    }
}

#[test]
fn fake_bridge_resolves_in_two_passes() {
    // real bridge 1 <- port 2 <- interface ovsbr0 (3);
    // fake bridge: port 4 (tag 10) <- interface ovsbr1 (5); eth0: port 6 <- interface 7
    let mut bridge = conn("ovsbr0-bridge", 1);
    bridge.config = ConnectionConfig::OvsBridge(OvsBridgeConfig {});
    let mut port = conn("ovsbr0-port", 2);
    port.config = ConnectionConfig::OvsPort(OvsPortConfig { tag: None });
    port.controller = Some(1);
    let mut iface = conn("ovsbr0", 3);
    iface.controller = Some(2);
    let mut fake_port = conn("ovsbr1-port", 4);
    fake_port.config = ConnectionConfig::OvsPort(OvsPortConfig { tag: Some(10) });
    let mut fake_iface = conn("ovsbr1", 5);
    fake_iface.controller = Some(4);
    let mut eth_port = conn("eth0-port", 6);
    eth_port.config = ConnectionConfig::OvsPort(OvsPortConfig { tag: None });
    let mut eth = conn("eth0", 7);
    eth.controller = Some(6);
    let connections = vec![eth_port, eth, bridge, port, iface, fake_port, fake_iface];
    let pending = vec![
        link(6, "eth0-port", "ovsbr1", Some(LinkPortType::OvsBridge)),
        link(4, "ovsbr1-port", "ovsbr0", Some(LinkPortType::OvsBridge)),
    ];

    assert_eq!(
        get_parentmatch_ovsbridge(&connections[4], &connections),
        Some(ParentMatch {
            uuid: 1,
            tag: None
        })
    );
    assert_eq!(get_parentmatch_ovsbridge(&connections[6], &connections), None);
    assert_eq!(get_parentmatch_ovsbridge(&connections[2], &connections), None);

    let first = update_parent_connection(connections, &pending, &strict()).unwrap();
    assert_eq!(first.pending, vec![pending[0].clone()]);
    assert!(first.warnings.is_empty());
    assert_eq!(first.connections[5].controller, Some(1));
    assert_eq!(first.connections[0].controller, None);
    assert_eq!(
        get_parentmatch_ovsbridge(&first.connections[6], &first.connections),
        Some(ParentMatch {
            uuid: 1,
            tag: Some(10)
        })
    );

    let second = update_parent_connection(first.connections, &first.pending, &strict()).unwrap();
    assert!(second.pending.is_empty());
    assert_eq!(second.connections[0].controller, Some(1));
    assert_eq!(
        second.connections[0].config,
        ConnectionConfig::OvsPort(OvsPortConfig { tag: Some(10) })
    );
    assert_eq!(
        second.connections[5].config,
        ConnectionConfig::OvsPort(OvsPortConfig { tag: Some(10) })
    );

    let again = resolve_parents(second.connections.clone(), vec![], vec![], &strict()).unwrap();
    assert_eq!(again.connections, second.connections);
    assert!(again.warnings.is_empty());
}

#[test]
fn resolution_without_pending_links_changes_nothing() {
    let connections = vec![conn("a", 1), conn("b", 2)];
    let warnings = vec![Warning::InfinibandMulticast];
    let pass = update_parent_connection(connections.clone(), &vec![], &strict()).unwrap();
    assert_eq!(pass.connections, connections);
    assert!(pass.pending.is_empty());
    assert!(pass.warnings.is_empty());
    let result =
        resolve_parents(connections.clone(), vec![], warnings.clone(), &strict()).unwrap();
    assert_eq!(result.connections, connections);
    assert_eq!(result.warnings, warnings);
}

#[test]
fn missing_parent_is_reported() {
    let connections = vec![conn("eth0", 1)];
    let pending = vec![link(1, "eth0", "br9", Some(LinkPortType::Bridge))];
    let failure = Failure::MissingParent {
        parent: "br9".to_string(),
        port: "eth0".to_string(),
    };
    assert_eq!(
        update_parent_connection(connections.clone(), &pending, &strict()),
        Err(failure.clone())
    );
    assert_eq!(
        failure.to_string(),
        "Missing parent connection with interface br9 for port eth0"
    );

    let pass = update_parent_connection(connections.clone(), &pending, &lenient()).unwrap();
    assert_eq!(pass.pending, pending);
    assert_eq!(pass.connections, connections);
    assert_eq!(
        pass.warnings,
        vec![Warning::MissingParent {
            parent: "br9".to_string(),
            port: "eth0".to_string()
        }]
    );
    assert_eq!(
        pass.warnings[0].to_string(),
        "Missing parent connection with interface br9 for port eth0"
    );
    assert_eq!(
        resolve_parents(connections, pending, vec![], &lenient()),
        Err(Failure::MissingController(vec!["eth0".to_string()]))
    );
}

#[test]
fn missing_parent_aborts_the_run() {
    let interfaces = input(vec![port_of("eth0", "br9", LinkPortType::Bridge)]);
    assert_eq!(
        to_networkstate(&interfaces, &strict(), &vec![]),
        Err(Failure::MissingParent {
            parent: "br9".to_string(),
            port: "eth0".to_string()
        })
    );
    let plan = plan_migration(&interfaces, &strict(), false, &vec![]);
    assert_eq!(plan, Err(MigrationError::Warnings));
    assert_eq!(CliResult::of(&plan), CliResult::Warnings);
    assert_eq!(CliResult::of(&plan).exit_code(), 3);

    let plan = plan_migration(&interfaces, &lenient(), false, &vec![]);
    assert_eq!(
        plan,
        Err(MigrationError::MigrationError(Failure::MissingController(
            vec!["eth0".to_string()]
        )))
    );
    assert_eq!(CliResult::of(&plan).exit_code(), 1);
    assert_eq!(
        plan.unwrap_err().to_string(),
        "Migration failed: Unexpected error, port connection is missing controller: eth0"
    );
}

#[test]
fn link_without_port_is_dropped() {
    let connections = vec![conn("eth0", 1), conn("br0", 2)];
    let pending = vec![link(1, "eth0", "br0", None)];
    let pass = update_parent_connection(connections.clone(), &pending, &strict()).unwrap();
    assert!(pass.pending.is_empty());
    assert_eq!(pass.connections, connections);
}

#[test]
fn link_to_itself_is_a_cycle() {
    let connections = vec![conn("br0", 1)];
    let pending = vec![link(1, "br0", "br0", Some(LinkPortType::Bridge))];
    let pass = update_parent_connection(connections.clone(), &pending, &strict()).unwrap();
    assert_eq!(pass.pending, pending);
    assert_eq!(pass.connections[0].controller, None);
    assert_eq!(
        resolve_parents(connections, pending, vec![], &strict()),
        Err(Failure::MissingController(vec!["br0".to_string()]))
    );
}

#[test]
fn link_of_a_port_that_is_no_connection() {
    let connections = vec![conn("br0", 2)];
    let pending = vec![link(1, "eth0", "br0", Some(LinkPortType::Bridge))];
    assert_eq!(
        update_parent_connection(connections, &pending, &strict()),
        Err(Failure::MissingPort)
    );
}

#[test]
fn first_connection_with_the_interface_is_the_parent() {
    let mut other = conn("br0-copy", 3);
    other.interface = Some("br0".to_string());
    let connections = vec![conn("eth0", 1), conn("br0", 2), other];
    let pending = vec![link(1, "eth0", "br0", Some(LinkPortType::Bond))];
    let result = resolve_parents(connections, pending, vec![], &strict()).unwrap();
    assert_eq!(result.connections[0].controller, Some(2));
    assert_eq!(result.connections[1].controller, None);
}

#[test]
fn duplicate_ids_are_a_failure() {
    let interfaces = vec![bridge("br0"), bridge("br0")];
    assert_eq!(
        to_networkstate(&input(interfaces), &strict(), &vec![]),
        Err(Failure::ConnectionExists)
    );
}

#[test]
fn failing_interface_fails_the_migration() {
    let interfaces = vec![
        bridge("br0"),
        Interface {
            name: "eth0".to_string(),
            ethernet: Some(Ethernet {
                address: Some("zz".to_string()),
            }),
            ..Default::default()
        },
    ];
    assert_eq!(
        to_networkstate(&input(interfaces), &lenient(), &vec![]),
        Err(Failure::InvalidMacAddress)
    );
}

#[test]
fn absent_interfaces_are_taken_down() {
    let boot = Control {
        mode: ControlMode::Boot,
        ..Default::default()
    };
    let interfaces = vec![
        Interface {
            name: "eth0".to_string(),
            ethernet: Some(Ethernet::default()),
            control: boot.clone(),
            ..Default::default()
        },
        Interface {
            name: "eth1".to_string(),
            ethernet: Some(Ethernet::default()),
            control: boot.clone(),
            ..Default::default()
        },
        Interface {
            name: "br0".to_string(),
            bridge: Some(wicked2nm::bridge::Bridge::default()),
            control: boot.clone(),
            ..Default::default()
        },
        Interface {
            name: "wlan0".to_string(),
            wireless: Some(Wireless {
                ap_scan: 1,
                networks: Some(vec![Network::default()]),
            }),
            control: boot.clone(),
            ..Default::default()
        },
        Interface {
            name: "ib0.8001".to_string(),
            infiniband_child: Some(InfinibandChild {
                device: "ib0".to_string(),
                pkey: 0x8001,
                mode: None,
                multicast: None,
            }),
            control: boot.clone(),
            ..Default::default()
        },
        Interface {
            name: "eth2".to_string(),
            ethernet: Some(Ethernet::default()),
            ..Default::default()
        },
    ];
    let settings = MigrationSettings {
        activate_connections: true,
        ..strict()
    };
    let present = vec!["eth1".to_string(), "lo".to_string()];
    let state = to_networkstate(&input(interfaces.clone()), &settings, &present)
        .unwrap()
        .network_state;
    assert_eq!(state.get_connection("eth0").unwrap().status, Status::Down);
    assert_eq!(state.get_connection("eth1").unwrap().status, Status::Up);
    assert_eq!(state.get_connection("br0").unwrap().status, Status::Up);
    assert_eq!(state.get_connection("wlan0").unwrap().status, Status::Down);
    assert_eq!(
        state.get_connection("ib0.8001").unwrap().status,
        Status::Down
    );
    assert_eq!(state.get_connection("eth2").unwrap().status, Status::Down);
    assert!(state.get_connection("eth0").unwrap().autoconnect);

    let with_ib = vec!["ib0".to_string()];
    let state = to_networkstate(&input(interfaces), &settings, &with_ib)
        .unwrap()
        .network_state;
    assert_eq!(state.get_connection("ib0.8001").unwrap().status, Status::Up);
    assert_eq!(state.get_connection("eth1").unwrap().status, Status::Down);

    let mut connections = vec![conn("eth9", 1)];
    connections[0].status = Status::Up;
    correct_activation(&mut connections, &strict(), &vec![]);
    assert_eq!(connections[0].status, Status::Up);
    correct_activation(&mut connections, &settings, &vec![]);
    assert_eq!(connections[0].status, Status::Down);
}

#[test]
fn assembling_takes_the_translations_as_they_are() {
    let interfaces = vec![
        port_of("eth0", "br0", LinkPortType::Bridge),
        bridge("br0"),
    ];
    let results = vec![
        interfaces[0]
            .to_connection_with_uuids(&strict(), &None, 100, &vec![1])
            .unwrap(),
        interfaces[1]
            .to_connection_with_uuids(&strict(), &None, 100, &vec![2])
            .unwrap(),
    ];
    let result = assemble_networkstate(
        &interfaces,
        results,
        vec![Warning::UnrecognizedInput],
        &strict(),
        &vec![],
    )
    .unwrap();
    assert_eq!(result.warnings, vec![Warning::UnrecognizedInput]);
    assert!(result.has_warnings());
    let eth0 = result.network_state.get_connection("eth0").unwrap();
    assert_eq!(eth0.uuid, 1);
    assert_eq!(eth0.controller, Some(2));
}

#[test]
fn reading_warnings_abort_before_translation() {
    let mut interfaces = input(vec![Interface {
        name: "eth0".to_string(),
        ethernet: Some(Ethernet {
            address: Some("zz".to_string()),
        }),
        ..Default::default()
    }]);
    interfaces.warnings = vec![Warning::UnrecognizedInput];
    assert_eq!(
        plan_migration(&interfaces, &strict(), false, &vec![]),
        Err(MigrationError::Warnings)
    );
    assert_eq!(
        plan_migration(&interfaces, &lenient(), false, &vec![]),
        Err(MigrationError::MigrationError(Failure::InvalidMacAddress))
    );
}

#[test]
fn migration_plan() {
    let interfaces = input(vec![bridge("br0")]);
    let plan = plan_migration(&interfaces, &strict(), true, &vec![]).unwrap();
    assert!(!plan.write);
    assert_eq!(plan.result.network_state.connections.len(), 1);
    let plan = plan_migration(&interfaces, &strict(), false, &vec![]);
    assert!(plan.as_ref().unwrap().write);
    assert_eq!(CliResult::of(&plan), CliResult::Success);
    assert_eq!(CliResult::of(&plan).exit_code(), 0);

    let warned = input(vec![Interface {
        name: "ib0".to_string(),
        infiniband: Some(wicked2nm::infiniband::Infiniband {
            mode: None,
            multicast: Some("allowed".to_string()),
        }),
        ..Default::default()
    }]);
    assert_eq!(
        plan_migration(&warned, &strict(), false, &vec![]),
        Err(MigrationError::Warnings)
    );
    let plan = plan_migration(&warned, &lenient(), false, &vec![]).unwrap();
    assert_eq!(plan.result.warnings, vec![Warning::InfinibandMulticast]);
    assert!(plan.write);
}

#[test]
fn duplicate_uuids_are_a_failure() {
    let interfaces = vec![bridge("br0"), bridge("br1")];
    let results = vec![
        interfaces[0]
            .to_connection_with_uuids(&strict(), &None, 100, &vec![1])
            .unwrap(),
        interfaces[1]
            .to_connection_with_uuids(&strict(), &None, 100, &vec![1])
            .unwrap(),
    ];
    assert_eq!(
        assemble_networkstate(&interfaces, results, vec![], &strict(), &vec![]),
        Err(Failure::DuplicateUuid)
    );
    assert_eq!(
        Failure::DuplicateUuid.to_string(),
        "Two connections have the same uuid"
    );
}

#[test]
fn migrated_connections_are_sound() {
    let mut interfaces = fake_bridge_setup();
    interfaces.push(port_of("eth2", "br0", LinkPortType::Bridge));
    interfaces.push(bridge("br0"));
    interfaces.push(Interface {
        name: "wlan0".to_string(),
        wireless: Some(Wireless {
            ap_scan: 1,
            networks: Some(vec![Network::default(), Network::default()]),
        }),
        ..Default::default()
    });
    let state = to_networkstate(&input(interfaces), &strict(), &vec![])
        .unwrap()
        .network_state;
    assert_eq!(state.connections.len(), 13);
    for (i, c) in state.connections.iter().enumerate() {
        for d in state.connections.iter().skip(i + 1) {
            assert_ne!(c.id, d.id);
            assert_ne!(c.uuid, d.uuid);
        }
        assert_ne!(c.controller, Some(c.uuid));
        if let Some(controller) = c.controller {
            assert!(state.connections.iter().any(|d| d.uuid == controller));
        }
    }
}

fn wireless_without_networks(name: &str) -> Interface {
    Interface {
        name: name.to_string(),
        wireless: Some(Wireless {
            ap_scan: 1,
            networks: None,
        }),
        ..Default::default()
    }
}

#[test]
fn interface_without_connections_always_translates() {
    let none = wireless_without_networks("wlan0");
    let result = none.to_connection(&strict(), &None).unwrap();
    assert!(result.connections.is_empty());

    let empty = Interface {
        wireless: Some(Wireless {
            ap_scan: 1,
            networks: Some(vec![]),
        }),
        ..wireless_without_networks("wlan1")
    };
    let result = empty.to_connection(&strict(), &None).unwrap();
    assert!(result.connections.is_empty());

    let port = Interface {
        link: port_of("wlan2", "br0", LinkPortType::OvsBridge).link,
        ..wireless_without_networks("wlan2")
    };
    let result = port.to_connection(&strict(), &None).unwrap();
    assert_eq!(result.connections.len(), 1);
    assert_eq!(result.connections[0].id, "wlan2-port");
}

#[test]
fn batch_without_connections_gives_an_empty_state() {
    let batch = input(vec![
        wireless_without_networks("wlan0"),
        wireless_without_networks("wlan1"),
    ]);
    let result = to_networkstate(&batch, &strict(), &vec![]).unwrap();
    assert!(result.network_state.connections.is_empty());

    let plan = plan_migration(&batch, &strict(), false, &vec![]).unwrap();
    assert!(plan.write);
    assert!(plan.result.network_state.connections.is_empty());
}

#[test]
fn empty_batch_keeps_the_warnings_of_reading() {
    let warning = Warning::MissingParent {
        parent: "br0".to_string(),
        port: "eth0".to_string(),
    };
    let batch = InterfacesResult {
        warnings: vec![warning.duplicate()],
        ..input(vec![])
    };
    let result = to_networkstate(&batch, &lenient(), &vec![]).unwrap();
    assert!(result.network_state.connections.is_empty());
    assert_eq!(result.warnings, vec![warning]);
}

#[test]
fn fake_bridge_batch_in_any_order() {
    let mut interfaces = fake_bridge_setup();
    interfaces.reverse();
    let result = to_networkstate(&input(interfaces), &strict(), &vec![]).unwrap();
    assert!(result.warnings.is_empty());
    let state = result.network_state;
    let bridge = state.get_connection("ovsbr0-bridge").unwrap().uuid;
    for c in &state.connections {
        if let ConnectionConfig::OvsPort(port) = &c.config {
            assert_eq!(c.controller, Some(bridge), "{}", c.id);
            if c.id != "ovsbr0-port" {
                assert_eq!(port.tag, Some(10), "{}", c.id);
            }
        }
    }
}
