//! The whole of `config.xml` as the older checks read it: the classic
//! sections (`dhcpd`, `gateways`, `ipsec`, `unbound`) and the plugin sections
//! under `<OPNsense>`, each enabled unless it says otherwise.
use vstd::prelude::*;

use crate::opnsense::config_xml::enabled::{parse_bool, parse_bool_spec};
use crate::text::{chars_of, eq_chars};

verus! {

pub struct OpnsenseConfig {
    pub system: System,
    /// The interfaces by their key, in key order.
    pub interfaces: Vec<(String, Interface)>,
    pub dhcpd: Option<EnableSection>,
    pub gateways: Option<Gateways>,
    pub ipsec: Option<EnableSection>,
    pub unbound: Option<EnableSection>,
    pub opnsense: Option<OPNsenseSection>,
}

pub struct OPNsenseSection {
    pub gateways: Option<Gateways>,
    pub haproxy: Option<PluginSection>,
    pub nginx: Option<PluginSection>,
    pub openvpn: Option<EnableSection>,
    pub wireguard: Option<WireguardConfig>,
    pub unboundplus: Option<PluginSection>,
}

pub struct WireguardConfig {
    pub enabled: Option<EnabledFlag>,
    pub clients: WireguardClients,
}

pub struct WireguardClients {
    pub client: Vec<WireguardClient>,
}

pub struct WireguardClient {
    pub name: Option<String>,
    pub pubkey: Option<String>,
}

pub struct PluginSection {
    pub general: Option<EnableSection>,
}

pub struct Gateways {
    pub gateway_item: Vec<GatewayItem>,
}

/// A section's enable flag, which may be spelled `enabled`, `enable` or
/// `Enabled`; the first one present counts.
pub struct EnableSection {
    pub enabled: Option<EnabledFlag>,
    pub enable: Option<EnabledFlag>,
    pub enabled_upper: Option<EnabledFlag>,
}

pub struct GatewayItem {
    pub name: Option<String>,
    pub interface: Option<String>,
    pub gateway: Option<String>,
    pub monitor: Option<String>,
    pub descr: Option<String>,
    pub disabled: Option<EnabledFlag>,
}

/// A recognised enable flag.
#[derive(Debug, Clone, Copy, PartialEq, Eq, Structural)]
pub struct EnabledFlag(bool);

pub struct System {
    pub hostname: Option<String>,
    pub domain: Option<String>,
}

pub struct Interface {
    pub device: Option<String>,
    pub descr: Option<String>,
    pub enable: Option<EnabledFlag>,
}

impl EnabledFlag {
    pub closed spec fn value(self) -> bool {
        self.0
    }

    /// The flag that the text `value` sets, none when the text is not a
    /// recognised flag.
    pub fn parse(value: &str) -> (r: Option<Self>)
        ensures
            match r {
                Some(f) => parse_bool_spec(value@) == Some(f.value()),
                None => parse_bool_spec(value@) is None,
            },
    {
        match parse_bool(value) {
            Some(b) => Some(EnabledFlag(b)),
            None => None,
        }
    }

    pub fn get(self) -> (r: bool)
        ensures
            r == self.value(),
    {
        self.0
    }
}

pub open spec fn flag_value(f: Option<EnabledFlag>) -> Option<bool> {
    match f {
        Some(f) => Some(f.value()),
        None => None,
    }
}

/// The value of the first of the three spellings that is present.
pub open spec fn section_value(s: EnableSection) -> Option<bool> {
    if s.enabled is Some {
        flag_value(s.enabled)
    } else if s.enable is Some {
        flag_value(s.enable)
    } else {
        flag_value(s.enabled_upper)
    }
}

impl WireguardConfig {
    /// Enabled, or no flag at all.
    pub fn is_enabled_or_present(&self) -> (r: bool)
        ensures
            r == (flag_value(self.enabled) != Some(false)),
    {
        match self.enabled {
            Some(f) => f.get(),
            None => true,
        }
    }
}

impl EnableSection {
    /// Enabled, or no flag at all.
    pub fn is_enabled_or_present(&self) -> (r: bool)
        ensures
            r == (section_value(*self) != Some(false)),
    {
        match self.enabled_value() {
            Some(b) => b,
            None => true,
        }
    }

    /// A flag that says disabled.
    pub fn is_explicitly_disabled(&self) -> (r: bool)
        ensures
            r == (section_value(*self) == Some(false)),
    {
        match self.enabled_value() {
            Some(b) => !b,
            None => false,
        }
    }

    pub fn enabled_value(&self) -> (r: Option<bool>)
        ensures
            r == section_value(*self),
    {
        let f = match self.enabled {
            Some(f) => Some(f),
            None => match self.enable {
                Some(f) => Some(f),
                None => self.enabled_upper,
            },
        };
        match f {
            Some(f) => Some(f.get()),
            None => None,
        }
    }
}

pub open spec fn plugin_value(p: Option<PluginSection>) -> Option<Option<bool>> {
    match p {
        Some(p) => match p.general {
            Some(g) => Some(section_value(g)),
            None => None,
        },
        None => None,
    }
}

/// The name of the first WireGuard client with this public key.
pub open spec fn client_name_spec(cs: Seq<WireguardClient>, pubkey: Seq<char>) -> Option<Seq<char>>
    decreases cs.len(),
{
    if cs.len() == 0 {
        None
    } else if cs[0].pubkey matches Some(k) && k@ == pubkey {
        match cs[0].name {
            Some(n) => Some(n@),
            None => None,
        }
    } else {
        client_name_spec(cs.drop_first(), pubkey)
    }
}

pub open spec fn tree_peer_name_spec(c: OpnsenseConfig, pubkey: Seq<char>) -> Option<Seq<char>> {
    match c.opnsense {
        Some(o) => match o.wireguard {
            Some(w) => client_name_spec(w.clients.client@, pubkey),
            None => None,
        },
        None => None,
    }
}

pub open spec fn tree_has_gateways(c: OpnsenseConfig) -> bool {
    c.gateways is Some || (c.opnsense matches Some(o) && o.gateways is Some)
}

pub open spec fn tree_unbound_enabled(c: OpnsenseConfig) -> bool {
    !(c.unbound matches Some(u) && section_value(u) == Some(false)) && !(c.opnsense matches Some(o)
        && plugin_value(o.unboundplus) == Some(Some(false)))
}

pub open spec fn tree_haproxy_enabled(c: OpnsenseConfig) -> bool {
    c.opnsense matches Some(o) && (plugin_value(o.haproxy) matches Some(v) && v != Some(false))
}

pub open spec fn tree_nginx_enabled(c: OpnsenseConfig) -> bool {
    c.opnsense matches Some(o) && (plugin_value(o.nginx) matches Some(v) && v != Some(false))
}

pub open spec fn tree_ipsec_enabled(c: OpnsenseConfig) -> bool {
    c.ipsec matches Some(s) && section_value(s) != Some(false)
}

pub open spec fn tree_wireguard_enabled(c: OpnsenseConfig) -> bool {
    c.opnsense matches Some(o) && (o.wireguard matches Some(w) && flag_value(w.enabled) != Some(
        false,
    ))
}

fn plugin_enabled(p: &Option<PluginSection>) -> (r: bool)
    ensures
        r == (plugin_value(*p) matches Some(v) && v != Some(false)),
{
    match p {
        Some(p) => match &p.general {
            Some(g) => g.is_enabled_or_present(),
            None => false,
        },
        None => false,
    }
}

impl OpnsenseConfig {
    pub fn has_dhcp(&self) -> (r: bool)
        ensures
            r == self.dhcpd is Some,
    {
        self.dhcpd.is_some()
    }

    /// Gateways configured in the classic section or under `<OPNsense>`.
    pub fn has_gateways(&self) -> (r: bool)
        ensures
            r == tree_has_gateways(*self),
    {
        self.gateways.is_some() || match &self.opnsense {
            Some(o) => o.gateways.is_some(),
            None => false,
        }
    }

    /// On unless the classic section or the Unbound plugin says disabled.
    pub fn unbound_enabled(&self) -> (r: bool)
        ensures
            r == tree_unbound_enabled(*self),
    {
        let classic_off = match &self.unbound {
            Some(u) => u.is_explicitly_disabled(),
            None => false,
        };
        let plugin_off = match &self.opnsense {
            Some(o) => match &o.unboundplus {
                Some(p) => match &p.general {
                    Some(g) => g.is_explicitly_disabled(),
                    None => false,
                },
                None => false,
            },
            None => false,
        };
        !classic_off && !plugin_off
    }

    pub fn haproxy_enabled(&self) -> (r: bool)
        ensures
            r == tree_haproxy_enabled(*self),
    {
        match &self.opnsense {
            Some(o) => plugin_enabled(&o.haproxy),
            None => false,
        }
    }

    pub fn nginx_enabled(&self) -> (r: bool)
        ensures
            r == tree_nginx_enabled(*self),
    {
        match &self.opnsense {
            Some(o) => plugin_enabled(&o.nginx),
            None => false,
        }
    }

    pub fn ipsec_enabled(&self) -> (r: bool)
        ensures
            r == tree_ipsec_enabled(*self),
    {
        match &self.ipsec {
            Some(s) => s.is_enabled_or_present(),
            None => false,
        }
    }

    pub fn wireguard_enabled(&self) -> (r: bool)
        ensures
            r == tree_wireguard_enabled(*self),
    {
        match &self.opnsense {
            Some(o) => match &o.wireguard {
                Some(w) => w.is_enabled_or_present(),
                None => false,
            },
            None => false,
        }
    }

    /// The name of the first WireGuard client with this public key.
    pub fn wireguard_peer_name(&self, pubkey: &str) -> (r: Option<&str>)
        ensures
            match r {
                Some(n) => tree_peer_name_spec(*self, pubkey@) == Some(n@),
                None => tree_peer_name_spec(*self, pubkey@) is None,
            },
    {
        let clients = match &self.opnsense {
            Some(o) => match &o.wireguard {
                Some(w) => &w.clients.client,
                None => return None,
            },
            None => return None,
        };
        let key = chars_of(pubkey);
        let mut i: usize = 0;
        assert(clients@.skip(0) =~= clients@);
        while i < clients.len()
            invariant
                i <= clients.len(),
                key@ == pubkey@,
                tree_peer_name_spec(*self, pubkey@) == client_name_spec(
                    clients@.skip(i as int),
                    pubkey@,
                ),
            decreases clients.len() - i,
        {
            let c = &clients[i];
            assert(clients@.skip(i as int)[0] == *c);
            assert(clients@.skip(i as int).drop_first() =~= clients@.skip(i + 1));
            let matched = match &c.pubkey {
                Some(k) => eq_chars(chars_of(k.as_str()).as_slice(), key.as_slice()),
                None => false,
            };
            if matched {
                return match &c.name {
                    Some(n) => Some(n.as_str()),
                    None => None,
                };
            }
            i = i + 1;
        }
        None
    }
}

} // verus!

verus! {

/// A section is enabled-or-present exactly when it is not explicitly
/// disabled, and a section with no flag at all counts as enabled.
pub proof fn lemma_enabled_iff_not_disabled(s: EnableSection)
    ensures
        (section_value(s) != Some(false)) == !(section_value(s) == Some(false)),
        (s.enabled is None && s.enable is None && s.enabled_upper is None) ==> section_value(s) is None,
{
}

} // verus!
