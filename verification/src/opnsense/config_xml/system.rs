use vstd::prelude::*;

verus! {

pub struct System {
    pub hostname: Option<String>,
    pub domain: Option<String>,
}

} // verus!
