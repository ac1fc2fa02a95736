use vstd::prelude::*;

verus! {

/// `<OPNsense><Nginx><general><enabled>…</enabled></general></Nginx>`.
pub type NginxSection = super::MvcServiceSection;

} // verus!
