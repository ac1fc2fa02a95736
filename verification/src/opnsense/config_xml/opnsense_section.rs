use vstd::prelude::*;

use super::gateways::Gateways;
use super::haproxy::HaproxySection;
use super::nginx::NginxSection;
use super::unbound::UnboundPlusSection;
use super::wireguard::WireguardSection;

verus! {

/// The MVC sections under `<OPNsense>` in `config.xml`.
pub struct OPNsenseSection {
    pub gateways: Option<Gateways>,
    pub haproxy: Option<HaproxySection>,
    pub nginx: Option<NginxSection>,
    pub wireguard: Option<WireguardSection>,
    pub unboundplus: Option<UnboundPlusSection>,
}

} // verus!
