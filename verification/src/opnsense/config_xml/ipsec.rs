use vstd::prelude::*;

use super::enabled::EnabledFlag;

verus! {

pub struct IpsecSection {
    pub enable: EnabledFlag,
}

impl IpsecSection {
    /// True or not set.
    pub fn is_enabled_or_present(&self) -> (r: bool)
        ensures
            r == (self.enable.0 != Some(false)),
    {
        self.enable.is_enabled_or_present()
    }
}

} // verus!
