use wicked2nm::interface::Interface;
use wicked2nm::model::{ConnectionConfig, VlanProtocol};
use wicked2nm::settings::MigrationSettings;
use wicked2nm::vlan::{Vlan, WickedVlanProtocol};

#[test]
fn test_vlan_protocol() {
    let v: WickedVlanProtocol = Default::default();
    assert_eq!(v, WickedVlanProtocol::Ieee802_1Q);
    assert_eq!(v.to_string(), String::from("ieee802-1Q"));
    let v = WickedVlanProtocol::Ieee802Ad;
    assert_eq!(v.to_string(), String::from("ieee802-ad"));
}

#[test]
fn test_vlan_interface() {
    let vlan_interface = Interface {
        vlan: Some(Vlan {
            device: String::from("en0"),
            tag: 10,
            protocol: WickedVlanProtocol::Ieee802Ad,
            address: Some(String::from("02:11:22:33:44:55")),
        }),
        ..Default::default()
    };

    let ifc = vlan_interface.to_connection(&MigrationSettings::default(), &None);

    assert!(ifc.is_ok());
    let ifc = &ifc.unwrap().connections[0];
    assert!(matches!(ifc.config, ConnectionConfig::Vlan(_)));
    if let ConnectionConfig::Vlan(v) = &ifc.config {
        assert_eq!(v.id, 10);
        assert_eq!(v.protocol, VlanProtocol::IEEE802_1ad);
        assert_eq!(v.parent, "en0");
    }

    assert_eq!(ifc.custom_mac_address.to_string(), "02:11:22:33:44:55");
}
