use vstd::prelude::*;

verus! {

/// `<OPNsense><HAProxy><general><enabled>…</enabled></general></HAProxy>`.
pub type HaproxySection = super::MvcServiceSection;

} // verus!
