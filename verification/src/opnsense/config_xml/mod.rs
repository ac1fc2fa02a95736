//! The parts of the OPNsense `config.xml` that decide which checks run.
use vstd::prelude::*;

pub mod dhcpd;
pub mod enabled;
pub mod gateways;
pub mod haproxy;
pub mod interfaces;
pub mod ipsec;
pub mod nginx;
pub mod opnsense_section;
pub mod system;
pub mod unbound;
pub mod wireguard;

use self::enabled::{EnabledFlag, MvcGeneral};
pub use self::opnsense_section::OPNsenseSection;
use self::wireguard::{peer_name_spec, WireguardSection};

verus! {

/// `<unbound><enable>…</enable></unbound>`.
#[derive(Debug, Clone, Copy)]
pub struct LegacyServiceSection {
    pub enable: EnabledFlag,
}

impl LegacyServiceSection {
    pub fn is_explicitly_disabled(&self) -> (r: bool)
        ensures
            r == (self.enable.0 == Some(false)),
    {
        self.enable.is_explicitly_disabled()
    }
}

/// An MVC service section: `<general><enabled>…</enabled></general>`.
#[derive(Debug, Clone, Copy)]
pub struct MvcServiceSection {
    pub general: Option<MvcGeneral>,
}

/// There is a `<general>` part and its flag is not false.
pub open spec fn mvc_enabled(s: MvcServiceSection) -> bool {
    s.general matches Some(g) && g.enabled.0 != Some(false)
}

/// There is a `<general>` part and its flag is false.
pub open spec fn mvc_disabled(s: MvcServiceSection) -> bool {
    s.general matches Some(g) && g.enabled.0 == Some(false)
}

impl MvcServiceSection {
    pub fn is_enabled_or_present(&self) -> (r: bool)
        ensures
            r == mvc_enabled(*self),
    {
        match &self.general {
            Some(g) => g.is_enabled_or_present(),
            None => false,
        }
    }

    pub fn is_explicitly_disabled(&self) -> (r: bool)
        ensures
            r == mvc_disabled(*self),
    {
        match &self.general {
            Some(g) => g.is_explicitly_disabled(),
            None => false,
        }
    }
}

pub struct OpnsenseConfig {
    pub unbound: Option<LegacyServiceSection>,
    pub opnsense: Option<OPNsenseSection>,
}

/// Unbound runs unless its legacy section or its MVC section says it is
/// disabled.
pub open spec fn unbound_enabled_spec(c: OpnsenseConfig) -> bool {
    !(c.unbound matches Some(u) && u.enable.0 == Some(false)) && !(c.opnsense matches Some(o)
        && o.unboundplus matches Some(u) && mvc_disabled(u))
}

pub open spec fn nginx_enabled_spec(c: OpnsenseConfig) -> bool {
    c.opnsense matches Some(o) && o.nginx matches Some(n) && mvc_enabled(n)
}

pub open spec fn wireguard_enabled_spec(c: OpnsenseConfig) -> bool {
    c.opnsense matches Some(o) && o.wireguard matches Some(w) && w.general.enabled.0 != Some(false)
}

pub open spec fn config_peer_name_spec(c: OpnsenseConfig, pubkey: Seq<char>) -> Option<Seq<char>> {
    match c.opnsense {
        Some(o) => match o.wireguard {
            Some(w) => peer_name_spec(w.client.clients.peers@, pubkey),
            None => None,
        },
        None => None,
    }
}

impl OpnsenseConfig {
    /// Gateways are configured under `<OPNsense><Gateways>`.
    pub fn has_gateways(&self) -> (r: bool)
        ensures
            r == (self.opnsense matches Some(o) && o.gateways is Some),
    {
        match &self.opnsense {
            Some(o) => o.gateways.is_some(),
            None => false,
        }
    }

    pub fn unbound_enabled(&self) -> (r: bool)
        ensures
            r == unbound_enabled_spec(*self),
    {
        let legacy_disabled = match &self.unbound {
            Some(u) => u.is_explicitly_disabled(),
            None => false,
        };
        let mvc_disabled = match &self.opnsense {
            Some(o) => match &o.unboundplus {
                Some(u) => u.is_explicitly_disabled(),
                None => false,
            },
            None => false,
        };
        !legacy_disabled && !mvc_disabled
    }

    pub fn nginx_enabled(&self) -> (r: bool)
        ensures
            r == nginx_enabled_spec(*self),
    {
        match &self.opnsense {
            Some(o) => match &o.nginx {
                Some(n) => n.is_enabled_or_present(),
                None => false,
            },
            None => false,
        }
    }

    pub fn wireguard_enabled(&self) -> (r: bool)
        ensures
            r == wireguard_enabled_spec(*self),
    {
        match &self.opnsense {
            Some(o) => match &o.wireguard {
                Some(w) => w.is_enabled_or_present(),
                None => false,
            },
            None => false,
        }
    }

    /// The name of the enabled WireGuard peer with this public key.
    pub fn wireguard_peer_name(&self, pubkey: &str) -> (r: Option<&str>)
        ensures
            r matches Some(n) ==> config_peer_name_spec(*self, pubkey@) == Some(n@),
            r is None ==> config_peer_name_spec(*self, pubkey@) is None,
    {
        match &self.opnsense {
            Some(o) => match &o.wireguard {
                Some(w) => w.find_peer_name(pubkey),
                None => None,
            },
            None => None,
        }
    }
}

} // verus!
