use wicked2nm::interface::Interface;
use wicked2nm::mac::MacAddr6;
use wicked2nm::model::{
    ConnectionConfig, EAPMethod, GroupAlgorithm, PairwiseAlgorithm, Phase2AuthMethod,
    SecurityProtocol, WEPAuthAlg, WEPKeyType, WEPSecurity, WPAProtocolVersion, WirelessBand,
    WirelessMode,
};
use wicked2nm::report::{Failure, Severity, Warning};
use wicked2nm::settings::MigrationSettings;
use wicked2nm::wireless::{
    all, any, guess_wireless_security_protocol, wicked_cert_to_path, wireless_security_protocol,
    EapAuthProto, EapGroupCipher, EapPairwiseCipher, EapTLS, Network, Phase1, Phase2, Pmf, Wep,
    WickedCertType, WickedCertificate, WickedEapMethods, WickedWirelessMode, Wireless, WpaEap,
    WpaPsk,
};

fn settings() -> MigrationSettings {
    MigrationSettings {
        continue_migration: false,
        activate_connections: true,
        with_netconfig: false,
    }
}

fn continuing() -> MigrationSettings {
    MigrationSettings {
        continue_migration: true,
        ..settings()
    }
}

#[test]
fn test_wireless_bands() {
    let mut wireless_interface = Interface {
        wireless: Some(Wireless {
            networks: Some(vec![Network {
                channel: Some(0),
                essid: "testssid".to_string(),
                scan_ssid: false,
                mode: WickedWirelessMode::AP,
                wpa_psk: None,
                key_management: vec!["wpa-psk".to_string()],
                access_point: None,
                wep: None,
                wpa_eap: None,
            }]),
            ap_scan: 0,
        }),
        ..Default::default()
    };
    let connections = wireless_interface.to_connection(&settings(), &None);
    assert!(connections.is_ok());
    let connection = &connections.unwrap().connections[0];
    let ConnectionConfig::Wireless(wireless) = &connection.config else {
        panic!()
    };
    assert_eq!(wireless.band, Some(WirelessBand::BG));
    assert_eq!(wireless.band.unwrap().name(), "bg");

    wireless_interface
        .wireless
        .as_mut()
        .unwrap()
        .networks
        .as_mut()
        .unwrap()[0]
        .channel = Some(32);
    let ifc = wireless_interface.to_connection(&settings(), &None);
    assert!(ifc.is_ok());
    let ifc = &ifc.unwrap().connections[0];
    let ConnectionConfig::Wireless(wireless) = &ifc.config else {
        panic!()
    };
    assert_eq!(wireless.band, Some(WirelessBand::A));
    assert_eq!(wireless.band.unwrap().name(), "a");
}

#[test]
fn test_wireless_migration() {
    let wireless_interface = Interface {
        wireless: Some(Wireless {
            networks: Some(vec![Network {
                essid: "testssid".to_string(),
                scan_ssid: true,
                mode: WickedWirelessMode::Infrastructure,
                wpa_psk: Some(WpaPsk {
                    passphrase: "testpassword".to_string(),
                    ..Default::default()
                }),
                key_management: vec!["wpa-psk".to_string()],
                channel: Some(14),
                access_point: Some("12:34:56:78:9A:BC".to_string()),
                wep: Some(Wep {
                    auth_algo: "open".to_string(),
                    default_key: 1,
                    key: vec!["01020304ff".to_string(), "s:hello".to_string()],
                }),
                wpa_eap: None,
            }]),
            ap_scan: 0,
        }),
        ..Default::default()
    };
    let connections = wireless_interface.to_connection(&settings(), &None);
    assert!(connections.is_ok());
    let connection = &connections.unwrap().connections[0];
    let ConnectionConfig::Wireless(wireless) = &connection.config else {
        panic!()
    };
    assert_eq!(wireless.ssid, "testssid".as_bytes().to_vec());
    assert!(wireless.hidden);
    assert_eq!(wireless.mode, WirelessMode::Infra);
    assert_eq!(wireless.password, Some("testpassword".to_string()));
    assert_eq!(wireless.security, SecurityProtocol::WPA2);
    assert_eq!(wireless.bssid, MacAddr6::parse("12:34:56:78:9A:BC"));
    assert_eq!(
        wireless.bssid,
        Some(MacAddr6 {
            bytes: [0x12, 0x34, 0x56, 0x78, 0x9a, 0xbc]
        })
    );
    assert_eq!(
        wireless.wep_security,
        Some(WEPSecurity {
            auth_alg: WEPAuthAlg::Open,
            wep_key_type: WEPKeyType::Key,
            keys: vec!["01020304ff".to_string(), "hello".to_string()],
            wep_key_index: 1,
        })
    );
    assert_eq!(wireless.band, Some(WirelessBand::BG));
}

#[test]
fn wireless_security_protocol_strict() {
    let mut net = Network {
        ..Default::default()
    };

    net.key_management = vec![];
    assert_eq!(
        wireless_security_protocol(&net).unwrap(),
        SecurityProtocol::WEP
    );

    net.key_management = vec![];
    net.wpa_eap = Some(WpaEap {
        ..Default::default()
    });

    assert_eq!(
        wireless_security_protocol(&net).unwrap(),
        SecurityProtocol::WPA2Enterprise
    );

    net.wpa_eap = None;
    net.wpa_psk = Some(WpaPsk {
        ..Default::default()
    });
    assert_eq!(
        wireless_security_protocol(&net).unwrap(),
        SecurityProtocol::WPA2
    );

    net.wpa_psk = None;
    net.key_management = vec!["wpa-psk".to_string()];
    assert_eq!(
        wireless_security_protocol(&net).unwrap(),
        SecurityProtocol::WPA2
    );
    net.key_management = vec!["sae".to_string(), "wpa-psk".to_string()];
    assert_eq!(
        wireless_security_protocol(&net).unwrap(),
        SecurityProtocol::WPA2
    );
    net.key_management = vec!["sae".to_string()];
    assert_eq!(
        wireless_security_protocol(&net).unwrap(),
        SecurityProtocol::WPA3Personal
    );

    net.key_management = vec!["wpa-eap".to_string()];
    assert_eq!(
        wireless_security_protocol(&net).unwrap(),
        SecurityProtocol::WPA2Enterprise
    );
    net.key_management = vec!["wpa-eap".to_string(), "wpa-eap-suite-b".to_string()];
    assert_eq!(
        wireless_security_protocol(&net).unwrap(),
        SecurityProtocol::WPA2Enterprise
    );
    net.key_management = vec!["wpa-eap-suite-b".to_string()];
    assert_eq!(
        wireless_security_protocol(&net).unwrap(),
        SecurityProtocol::WPA3Only
    );

    net.key_management = vec!["owe".to_string()];
    assert_eq!(
        wireless_security_protocol(&net).unwrap(),
        SecurityProtocol::OWE
    );

    net.key_management = vec!["none".to_string()];
    assert_eq!(
        wireless_security_protocol(&net).unwrap(),
        SecurityProtocol::WEP
    );

    net.key_management = vec!["none".to_string(), "wpa-psk".to_string()];
    assert!(wireless_security_protocol(&net).is_err());
    net.key_management = vec!["wpa-eap".to_string(), "wpa-psk".to_string()];
    assert!(wireless_security_protocol(&net).is_err());
    net.key_management = vec!["wpa-eap".to_string(), "sae".to_string()];
    assert!(wireless_security_protocol(&net).is_err());
    net.key_management = vec!["wpa-eap-suite-b".to_string(), "sae".to_string()];
    assert!(wireless_security_protocol(&net).is_err());
    net.key_management = vec!["wpa-eap-suite-b".to_string(), "owe".to_string()];
    assert!(wireless_security_protocol(&net).is_err());
    net.key_management = vec!["wpa-psk".to_string(), "owe".to_string()];
    assert!(wireless_security_protocol(&net).is_err());
}

#[test]
fn wireless_security_protocol_continue_migration() {
    let mut net = Network {
        ..Default::default()
    };

    net.key_management = vec![];
    assert_eq!(
        wireless_security_protocol(&net).unwrap(),
        SecurityProtocol::WEP
    );

    net.key_management = vec![];
    net.wpa_eap = Some(WpaEap {
        ..Default::default()
    });

    net.key_management = vec!["none".to_string(), "wpa-psk".to_string()];
    assert_eq!(
        guess_wireless_security_protocol(&net).unwrap(),
        SecurityProtocol::WPA2
    );
    net.key_management = vec!["wpa-eap".to_string(), "wpa-psk".to_string()];
    assert_eq!(
        guess_wireless_security_protocol(&net).unwrap(),
        SecurityProtocol::WPA2Enterprise
    );
    net.key_management = vec!["wpa-eap".to_string(), "sae".to_string()];
    assert_eq!(
        guess_wireless_security_protocol(&net).unwrap(),
        SecurityProtocol::WPA2Enterprise
    );
    net.key_management = vec!["wpa-eap-suite-b".to_string(), "sae".to_string()];
    assert_eq!(
        guess_wireless_security_protocol(&net).unwrap(),
        SecurityProtocol::WPA3Only
    );
    net.key_management = vec!["wpa-eap-suite-b".to_string(), "owe".to_string()];
    assert_eq!(
        guess_wireless_security_protocol(&net).unwrap(),
        SecurityProtocol::WPA3Only
    );
    net.key_management = vec!["wpa-psk".to_string(), "owe".to_string()];
    assert_eq!(
        guess_wireless_security_protocol(&net).unwrap(),
        SecurityProtocol::WPA2
    );
}

#[test]
fn conflicting_key_management_fails_unless_guessing_is_allowed() {
    let net = Network {
        essid: "home".to_string(),
        key_management: vec!["wpa-eap".to_string(), "wpa-psk".to_string()],
        ..Default::default()
    };
    assert_eq!(
        net.to_config(&settings()).unwrap_err(),
        Failure::UnrecognizedKeyManagement("wpa-eap,wpa-psk".to_string())
    );
    assert_eq!(
        wireless_security_protocol(&net).unwrap_err().to_string(),
        "Unrecognized key-management protocol(s): wpa-eap,wpa-psk"
    );

    let (config, warnings) = net.to_config(&continuing()).unwrap();
    let ConnectionConfig::Wireless(wireless) = config else {
        panic!()
    };
    assert_eq!(wireless.security, SecurityProtocol::WPA2Enterprise);
    assert_eq!(
        warnings,
        vec![Warning::GuessedSecurity {
            key_management: "wpa-eap,wpa-psk".to_string(),
            protocol: SecurityProtocol::WPA2Enterprise
        }]
    );
    assert_eq!(warnings[0].severity(), Severity::Warning);
    assert_eq!(
        warnings[0].to_string(),
        "Unsupported key-management protocol(s) 'wpa-eap,wpa-psk' guessing 'wpa-eap'"
    );

    let sae = Network {
        key_management: vec!["sae".to_string()],
        ..Default::default()
    };
    let (config, warnings) = sae.to_config(&settings()).unwrap();
    let ConnectionConfig::Wireless(wireless) = config else {
        panic!()
    };
    assert_eq!(wireless.security, SecurityProtocol::WPA3Personal);
    assert!(warnings.is_empty());
    let (_, warnings) = sae.to_config(&continuing()).unwrap();
    assert!(warnings.is_empty());
}

#[test]
fn all_and_any() {
    let tokens = vec!["sae".to_string(), "ft-sae".to_string()];
    assert!(all(&tokens, &vec!["sae", "ft-sae", "owe"]));
    assert!(!all(&tokens, &vec!["sae"]));
    assert!(any(&tokens, &vec!["owe", "ft-sae"]));
    assert!(!any(&tokens, &vec!["owe"]));
    let empty: Vec<String> = vec![];
    assert!(!all(&empty, &vec!["sae"]));
    assert!(!any(&empty, &vec!["sae"]));
    assert!(!all(&tokens, &vec![]));
}

#[test]
fn channel_gives_the_band_and_a_notice() {
    let mut net = Network {
        channel: Some(14),
        ..Default::default()
    };
    let (config, warnings) = net.to_config(&settings()).unwrap();
    let ConnectionConfig::Wireless(w) = config else {
        panic!()
    };
    assert_eq!(w.band, Some(WirelessBand::BG));
    assert_eq!(w.channel, 14);
    assert_eq!(
        warnings,
        vec![Warning::WirelessBand {
            band: WirelessBand::BG
        }]
    );
    assert_eq!(warnings[0].severity(), Severity::Notice);
    assert_eq!(
        warnings[0].to_string(),
        "NetworkManager requires setting a band for wireless when a channel is set. The band has been set to \"bg\". This may in certain regions be incorrect."
    );

    net.channel = Some(15);
    let (config, _) = net.to_config(&settings()).unwrap();
    let ConnectionConfig::Wireless(w) = config else {
        panic!()
    };
    assert_eq!(w.band, Some(WirelessBand::A));

    net.channel = None;
    let (config, warnings) = net.to_config(&settings()).unwrap();
    let ConnectionConfig::Wireless(w) = config else {
        panic!()
    };
    assert_eq!(w.band, None);
    assert_eq!(w.channel, 0);
    assert!(warnings.is_empty());
}

#[test]
fn wep_keys_lose_their_markers() {
    let wep = Wep {
        auth_algo: "shared".to_string(),
        default_key: 2,
        key: vec![
            "h:01-02-03".to_string(),
            "s:a:b".to_string(),
            "0102:0304".to_string(),
            "plain".to_string(),
        ],
    };
    let security = wep.to_security().unwrap();
    assert_eq!(security.auth_alg, WEPAuthAlg::Shared);
    assert_eq!(security.wep_key_index, 2);
    assert_eq!(
        security.keys,
        vec![
            "010203".to_string(),
            "ab".to_string(),
            "01020304".to_string(),
            "plain".to_string()
        ]
    );
    let leap = Wep {
        auth_algo: "leap".to_string(),
        default_key: 0,
        key: vec![],
    };
    assert_eq!(leap.to_security().unwrap().auth_alg, WEPAuthAlg::Leap);
    let unset = Wep {
        auth_algo: "".to_string(),
        default_key: 0,
        key: vec![],
    };
    assert_eq!(unset.to_security().unwrap().auth_alg, WEPAuthAlg::Unset);
}

#[test]
fn wireless_failures() {
    let bad_ap = Network {
        access_point: Some("somewhere".to_string()),
        ..Default::default()
    };
    assert_eq!(
        bad_ap.to_config(&settings()).unwrap_err(),
        Failure::InvalidAccessPoint
    );
    let bad_wep = Network {
        wep: Some(Wep {
            auth_algo: "closed".to_string(),
            default_key: 0,
            key: vec![],
        }),
        ..Default::default()
    };
    assert_eq!(
        bad_wep.to_config(&settings()).unwrap_err(),
        Failure::InvalidWepAuthAlg
    );
    let both = Network {
        key_management: vec!["bogus".to_string()],
        access_point: Some("somewhere".to_string()),
        ..Default::default()
    };
    assert_eq!(
        both.to_config(&settings()).unwrap_err(),
        Failure::UnrecognizedKeyManagement("bogus".to_string())
    );
    assert_eq!(
        both.to_config(&continuing()).unwrap_err(),
        Failure::InvalidAccessPoint
    );
}

#[test]
fn common_settings() {
    let net = Network {
        wpa_psk: Some(WpaPsk {
            passphrase: "secret".to_string(),
            auth_proto: vec![EapAuthProto::Rsn, EapAuthProto::Wpa],
            pairwise_cipher: vec![EapPairwiseCipher::Ccmp, EapPairwiseCipher::Tkip],
            group_cipher: vec![EapGroupCipher::Wep40, EapGroupCipher::Gcmp],
            pmf: Some(Pmf::Required),
        }),
        ..Default::default()
    };
    let (config, _) = net.to_config(&settings()).unwrap();
    let ConnectionConfig::Wireless(w) = config else {
        panic!()
    };
    assert_eq!(
        w.wpa_protocol_versions,
        vec![WPAProtocolVersion::Rsn, WPAProtocolVersion::Wpa]
    );
    assert_eq!(
        w.pairwise_algorithms,
        vec![PairwiseAlgorithm::Ccmp, PairwiseAlgorithm::Tkip]
    );
    assert_eq!(w.group_algorithms, Vec::<GroupAlgorithm>::new());
    assert_eq!(w.pmf, 3);
    assert_eq!(w.security, SecurityProtocol::WPA2);

    let with_eap = Network {
        wpa_eap: Some(WpaEap {
            method: WickedEapMethods::Peap,
            group_cipher: vec![EapGroupCipher::Wep104],
            ..Default::default()
        }),
        ..net
    };
    let (config, _) = with_eap.to_config(&settings()).unwrap();
    let ConnectionConfig::Wireless(w) = config else {
        panic!()
    };
    assert_eq!(w.wpa_protocol_versions, Vec::<WPAProtocolVersion>::new());
    assert_eq!(w.group_algorithms, vec![GroupAlgorithm::Wep104]);
    assert_eq!(w.pmf, 3);
    assert_eq!(w.password, Some("secret".to_string()));
    assert_eq!(w.security, SecurityProtocol::WPA2Enterprise);
    assert_eq!(Pmf::Disabled.value(), 1);
    assert_eq!(Pmf::Optional.value(), 2);
}

fn path_cert(path: &str) -> Option<WickedCertificate> {
    Some(WickedCertificate {
        cert: path.to_string(),
        cert_type: WickedCertType::Path,
    })
}

#[test]
fn eap_settings() {
    let eap = WpaEap {
        method: WickedEapMethods::Ttls,
        identity: Some("me".to_string()),
        phase1: Some(Phase1 {
            peap_version: Some(1),
            peap_label: Some(true),
        }),
        phase2: Some(Phase2 {
            method: Some(WickedEapMethods::Mschapv2),
            password: Some("pw".to_string()),
        }),
        anonid: Some("anon".to_string()),
        tls: Some(EapTLS {
            ca_cert: path_cert("/ca.pem"),
            client_cert: Some(WickedCertificate {
                cert: "client.pem".to_string(),
                cert_type: WickedCertType::File,
            }),
            client_key: None,
            client_key_passwd: Some("kp".to_string()),
        }),
        ..Default::default()
    };
    let config = eap.to_ieee_8021x_config().unwrap();
    assert_eq!(config.eap, vec![EAPMethod::TTLS]);
    assert_eq!(config.phase2_auth, Some(Phase2AuthMethod::MSCHAPV2));
    assert_eq!(config.identity, Some("me".to_string()));
    assert_eq!(config.anonymous_identity, Some("anon".to_string()));
    assert_eq!(config.password, Some("pw".to_string()));
    assert_eq!(config.ca_cert, Some("/ca.pem".to_string()));
    assert_eq!(config.client_cert, Some("client.pem".to_string()));
    assert_eq!(config.private_key, None);
    assert_eq!(config.private_key_password, Some("kp".to_string()));
    assert_eq!(config.peap_version, Some("1".to_string()));
    assert!(config.peap_label);

    let ifc = Interface {
        name: "wlan0".to_string(),
        wireless: Some(Wireless {
            ap_scan: 1,
            networks: Some(vec![Network {
                essid: "corp".to_string(),
                wpa_eap: Some(eap),
                ..Default::default()
            }]),
        }),
        ..Default::default()
    };
    let result = ifc.to_connection(&settings(), &None).unwrap();
    assert_eq!(result.connections[0].ieee_8021x_config, Some(config));
    assert_eq!(result.connections[0].id, "wlan0");
}

#[test]
fn eap_failures() {
    let outer = WpaEap {
        method: WickedEapMethods::Nil,
        ..Default::default()
    };
    assert_eq!(
        outer.to_ieee_8021x_config().unwrap_err(),
        Failure::InvalidEapMethod
    );
    let inner = WpaEap {
        method: WickedEapMethods::Peap,
        phase2: Some(Phase2 {
            method: Some(WickedEapMethods::Peap),
            password: None,
        }),
        ..Default::default()
    };
    assert_eq!(
        inner.to_ieee_8021x_config().unwrap_err(),
        Failure::InvalidPhase2Method
    );
    let hex = WpaEap {
        method: WickedEapMethods::Tls,
        tls: Some(EapTLS {
            ca_cert: None,
            client_cert: None,
            client_key: Some(WickedCertificate {
                cert: "0a0b".to_string(),
                cert_type: WickedCertType::Hex,
            }),
            client_key_passwd: None,
        }),
        ..Default::default()
    };
    assert_eq!(
        hex.to_ieee_8021x_config().unwrap_err(),
        Failure::HexCertificate
    );
    assert_eq!(
        wicked_cert_to_path(&WickedCertificate {
            cert: "0a0b".to_string(),
            cert_type: WickedCertType::Hex,
        }),
        Err(Failure::HexCertificate)
    );
    assert_eq!(
        wicked_cert_to_path(&path_cert("/x").unwrap()),
        Ok("/x".to_string())
    );
}

#[test]
fn one_connection_for_each_network() {
    let ifc = Interface {
        name: "wlan0".to_string(),
        wireless: Some(Wireless {
            ap_scan: 1,
            networks: Some(vec![
                Network {
                    essid: "one".to_string(),
                    ..Default::default()
                },
                Network {
                    essid: "two".to_string(),
                    ..Default::default()
                },
            ]),
        }),
        ..Default::default()
    };
    assert_eq!(ifc.technology_count(), 2);
    let result = ifc.to_connection(&settings(), &None).unwrap();
    assert_eq!(result.connections.len(), 2);
    assert_eq!(result.connections[0].id, "wlan0-0");
    assert_eq!(result.connections[1].id, "wlan0-1");
    assert_eq!(result.connections[0].interface, Some("wlan0".to_string()));
    assert_eq!(result.connections[1].interface, Some("wlan0".to_string()));
    let ConnectionConfig::Wireless(w) = &result.connections[1].config else {
        panic!()
    };
    assert_eq!(w.ssid, b"two".to_vec());

    let none = Interface {
        wireless: Some(Wireless {
            ap_scan: 1,
            networks: None,
        }),
        ..Default::default()
    };
    assert_eq!(none.technology_count(), 0);
    assert!(none
        .to_connection(&settings(), &None)
        .unwrap()
        .connections
        .is_empty());
}

#[test]
fn wireless_modes() {
    assert_eq!(WickedWirelessMode::AdHoc.to_mode(), WirelessMode::AdHoc);
    assert_eq!(WickedWirelessMode::AP.to_mode(), WirelessMode::AP);
    assert_eq!(
        WickedWirelessMode::default().to_mode(),
        WirelessMode::Infra
    );
    assert_eq!(WickedEapMethods::Leap.to_eap_method(), Some(EAPMethod::LEAP));
    assert_eq!(WickedEapMethods::Pap.to_eap_method(), None);
    assert_eq!(
        WickedEapMethods::Md5.to_phase2_method(),
        Some(Phase2AuthMethod::MD5)
    );
    assert_eq!(EapPairwiseCipher::Gcmp_256.to_algorithm(), None);
    assert_eq!(
        EapGroupCipher::Tkip.to_algorithm(),
        Some(GroupAlgorithm::Tkip)
    );
}

#[test]
fn wep_key_markers_are_taken_out_from_the_left() {
    let keys = |k: &str| {
        Wep {
            auth_algo: "open".to_string(),
            default_key: 0,
            key: vec![k.to_string()],
        }
        .to_security()
        .unwrap()
        .keys
    };
    assert_eq!(keys("s:s:"), vec![""]);
    assert_eq!(keys("ss::"), vec!["s"]);
    assert_eq!(keys("hh:-:x"), vec!["hx"]);
    assert_eq!(keys(""), vec![""]);
    assert_eq!(keys("sh:"), vec!["s"]);
}
