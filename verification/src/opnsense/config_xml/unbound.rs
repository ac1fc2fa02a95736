use vstd::prelude::*;

verus! {

/// `<unbound><enable>1</enable></unbound>`.
pub type UnboundSection = super::LegacyServiceSection;

/// `<OPNsense><unboundplus><general><enabled>…</enabled></general></unboundplus>`.
pub type UnboundPlusSection = super::MvcServiceSection;

} // verus!
