use vstd::prelude::*;

use super::enabled::EnabledFlag;

verus! {

pub struct Gateways {
    pub items: GatewayItems,
}

pub struct GatewayItems {
    pub gateway_item: Vec<GatewayItem>,
}

pub struct GatewayItem {
    pub name: Option<String>,
    pub interface: Option<String>,
    pub gateway: Option<String>,
    pub monitor: Option<String>,
    pub descr: Option<String>,
    pub disabled: EnabledFlag,
}

impl Gateways {
    /// Whether any gateway is configured.
    pub fn has_items(&self) -> (r: bool)
        ensures
            r == (self.items.gateway_item@.len() > 0),
    {
        self.items.gateway_item.len() > 0
    }
}

} // verus!
