use vstd::prelude::*;

use super::enabled::EnabledFlag;

verus! {

pub struct Interface {
    pub device: Option<String>,
    pub descr: Option<String>,
    pub enable: EnabledFlag,
}

} // verus!
