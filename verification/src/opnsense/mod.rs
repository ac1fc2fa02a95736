pub mod config_tree;
pub mod config_xml;

use vstd::prelude::*;

verus! {

/// The product file `/usr/local/opnsense/version/core`, as far as it is read.
pub struct CoreVersion {
    pub product_name: Option<String>,
    pub product_version: Option<String>,
    pub product_series: Option<String>,
}

impl Default for CoreVersion {
    fn default() -> (r: Self)
        ensures
            r.product_name is None,
            r.product_version is None,
            r.product_series is None,
    {
        CoreVersion { product_name: None, product_version: None, product_series: None }
    }
}

} // verus!
