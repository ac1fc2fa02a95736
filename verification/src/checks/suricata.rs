//! Suricata IDS/IPS events, read incrementally from the EVE log; the reading
//! and reporting live in `checks::opnsense::suricata`.
use vstd::prelude::*;

verus! {

/// The Suricata event check of the agent output.
pub struct Suricata;

impl Suricata {
    pub fn name(&self) -> (r: &'static str)
        ensures
            r@ == "suricata"@,
    {
        "suricata"
    }
}

} // verus!
