use opncheck::config::Config;
use opncheck::opnsense::config_tree;
use opncheck::opnsense::config_xml::enabled::{parse_bool, EnabledFlag, MvcGeneral};
use opncheck::opnsense::config_xml::gateways::{GatewayItem, GatewayItems, Gateways};
use opncheck::opnsense::config_xml::wireguard::{
    WireguardClientHolder, WireguardPeer, WireguardPeers, WireguardSection,
};
use opncheck::opnsense::config_xml::{LegacyServiceSection, MvcServiceSection, OPNsenseSection, OpnsenseConfig};

fn flag(text: &str) -> EnabledFlag {
    EnabledFlag::from_text(Some(text))
}

fn peer(enabled: &str, name: &str, pubkey: &str) -> WireguardPeer {
    WireguardPeer {
        enabled: flag(enabled),
        name: Some(name.to_string()),
        pubkey: Some(pubkey.to_string()),
    }
}

fn section() -> OPNsenseSection {
    OPNsenseSection { gateways: None, haproxy: None, nginx: None, wireguard: None, unboundplus: None }
}

pub fn wireguard_fixture() -> OpnsenseConfig {
    let mut s = section();
    s.wireguard = Some(WireguardSection {
        general: MvcGeneral { enabled: flag("1") },
        client: WireguardClientHolder {
            clients: WireguardPeers {
                peers: vec![
                    peer("1", "laptop", "ABC="),
                    peer("0", "disabled-peer", "XYZ="),
                    peer("1", "phone", "DEF="),
                ],
            },
        },
    });
    OpnsenseConfig { unbound: None, opnsense: Some(s) }
}

#[test]
fn wireguard_peer_lookup_resolves_pubkey_to_name() {
    let cfg = wireguard_fixture();
    assert!(cfg.wireguard_enabled());
    assert_eq!(cfg.wireguard_peer_name("ABC="), Some("laptop"));
    assert_eq!(cfg.wireguard_peer_name("DEF="), Some("phone"));
    assert_eq!(cfg.wireguard_peer_name("XYZ="), None);
    assert_eq!(cfg.wireguard_peer_name("not-a-key"), None);
}

#[test]
fn parses_mvc_gateways_items_wrapper() {
    let mut s = section();
    s.gateways = Some(Gateways {
        items: GatewayItems {
            gateway_item: vec![GatewayItem {
                name: Some("WAN_DHCP".to_string()),
                interface: Some("wan".to_string()),
                gateway: Some("198.51.100.1".to_string()),
                monitor: None,
                descr: None,
                disabled: flag("0"),
            }],
        },
    });
    let cfg = OpnsenseConfig { unbound: None, opnsense: Some(s) };
    assert!(cfg.has_gateways());
    assert_eq!(
        cfg.opnsense
            .as_ref()
            .and_then(|opnsense| opnsense.gateways.as_ref())
            .and_then(|gateways| gateways.items.gateway_item.first())
            .and_then(|gateway| gateway.name.as_deref()),
        Some("WAN_DHCP")
    );
    assert!(cfg.opnsense.as_ref().unwrap().gateways.as_ref().unwrap().has_items());
}

#[test]
fn flags_are_read_in_any_case_with_blanks() {
    assert_eq!(parse_bool(" YES "), Some(true));
    assert_eq!(parse_bool("Enabled"), Some(true));
    assert_eq!(parse_bool("0"), Some(false));
    assert_eq!(parse_bool("Disabled\n"), Some(false));
    assert_eq!(parse_bool("maybe"), None);
    assert!(flag("").is_enabled_or_present());
    assert!(!flag("").is_enabled());
    assert!(flag("no").is_explicitly_disabled());
}

#[test]
fn unbound_runs_unless_disabled() {
    let mut cfg = OpnsenseConfig { unbound: None, opnsense: None };
    assert!(cfg.unbound_enabled());
    cfg.unbound = Some(LegacyServiceSection { enable: flag("0") });
    assert!(!cfg.unbound_enabled());
    let mut s = section();
    s.unboundplus = Some(MvcServiceSection { general: Some(MvcGeneral { enabled: flag("false") }) });
    let cfg = OpnsenseConfig { unbound: None, opnsense: Some(s) };
    assert!(!cfg.unbound_enabled());
}

#[test]
fn nginx_needs_its_general_section() {
    let mut s = section();
    s.nginx = Some(MvcServiceSection { general: None });
    let cfg = OpnsenseConfig { unbound: None, opnsense: Some(s) };
    assert!(!cfg.nginx_enabled());
    let mut s = section();
    s.nginx = Some(MvcServiceSection { general: Some(MvcGeneral { enabled: flag("") }) });
    let cfg = OpnsenseConfig { unbound: None, opnsense: Some(s) };
    assert!(cfg.nginx_enabled());
}

fn tree_config() -> config_tree::OpnsenseConfig {
    config_tree::OpnsenseConfig {
        system: config_tree::System { hostname: None, domain: None },
        interfaces: Vec::new(),
        dhcpd: None,
        gateways: None,
        ipsec: None,
        unbound: None,
        opnsense: None,
    }
}

fn tree_section(text: Option<&str>) -> config_tree::EnableSection {
    config_tree::EnableSection {
        enabled: text.and_then(config_tree::EnabledFlag::parse),
        enable: None,
        enabled_upper: None,
    }
}

#[test]
fn whole_config_sections() {
    let mut cfg = tree_config();
    assert!(!cfg.has_dhcp());
    assert!(!cfg.has_gateways());
    assert!(cfg.unbound_enabled());
    assert!(!cfg.ipsec_enabled());
    cfg.dhcpd = Some(tree_section(None));
    cfg.ipsec = Some(tree_section(Some("1")));
    cfg.unbound = Some(tree_section(Some("0")));
    assert!(cfg.has_dhcp());
    assert!(cfg.ipsec_enabled());
    assert!(!cfg.unbound_enabled());
    cfg.opnsense = Some(config_tree::OPNsenseSection {
        gateways: Some(config_tree::Gateways { gateway_item: Vec::new() }),
        haproxy: Some(config_tree::PluginSection { general: Some(tree_section(None)) }),
        nginx: Some(config_tree::PluginSection { general: None }),
        openvpn: None,
        wireguard: Some(config_tree::WireguardConfig {
            enabled: None,
            clients: config_tree::WireguardClients {
                client: vec![
                    config_tree::WireguardClient { name: None, pubkey: Some("K1".to_string()) },
                    config_tree::WireguardClient { name: Some("late".to_string()), pubkey: Some("K1".to_string()) },
                    config_tree::WireguardClient { name: Some("box".to_string()), pubkey: Some("K2".to_string()) },
                ],
            },
        }),
        unboundplus: None,
    });
    assert!(cfg.has_gateways());
    assert!(cfg.haproxy_enabled());
    assert!(!cfg.nginx_enabled());
    assert!(cfg.wireguard_enabled());
    assert_eq!(cfg.wireguard_peer_name("K1"), None);
    assert_eq!(cfg.wireguard_peer_name("K2"), Some("box"));
}

#[test]
fn enable_section_spellings() {
    let s = config_tree::EnableSection {
        enabled: None,
        enable: config_tree::EnabledFlag::parse("no"),
        enabled_upper: config_tree::EnabledFlag::parse("yes"),
    };
    assert_eq!(s.enabled_value(), Some(false));
    assert!(s.is_explicitly_disabled());
    assert!(!s.is_enabled_or_present());
    assert!(config_tree::EnabledFlag::parse("bogus").is_none());
    assert!(config_tree::EnabledFlag::parse(" TRUE ").unwrap().get());
}

#[test]
fn skipped_checks_do_not_run() {
    let mut config = Config::default();
    assert!(config.check_enabled("wireguard"));
    config.checks.skip.push("wireguard".to_string());
    assert!(!config.check_enabled("wireguard"));
    assert!(config.check_enabled("kea"));
}
