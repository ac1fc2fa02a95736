//! Unbound DNS, written straight into the agent output.
use vstd::prelude::*;

use crate::agent::output::AgentOutput;
use crate::checks::opnsense::{unbound_local_lines, write_unbound_local};
use crate::opnsense::config_tree::{tree_unbound_enabled, OpnsenseConfig};

verus! {

/// The Unbound check of the agent output.
pub struct Unbound;

impl Unbound {
    pub fn name(&self) -> (r: &'static str)
        ensures
            r@ == "unbound"@,
    {
        "unbound"
    }

    /// Writes the Unbound rows when Unbound is on and configured
    /// (`conf_exists`); `data` is what `unbound-control stats_noreset` printed.
    pub fn write(&self, out: &mut AgentOutput, cfg: &OpnsenseConfig, conf_exists: bool, data: &str)
        ensures
            final(out)@ == if tree_unbound_enabled(*cfg) && conf_exists {
                old(out)@ + unbound_local_lines(data@)
            } else {
                old(out)@
            },
    {
        if cfg.unbound_enabled() && conf_exists {
            write_unbound_local(out, data);
        }
    }
}

} // verus!
