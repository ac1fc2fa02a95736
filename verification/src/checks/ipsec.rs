//! IPsec tunnels from the OPNsense status script.
use vstd::prelude::*;

use crate::agent::output::{section_line, AgentOutput};
use crate::checks::opnsense::{ipsec_line, write_ipsec, IpsecConnection};
use crate::opnsense::config_tree::{tree_ipsec_enabled, OpnsenseConfig};

verus! {

/// The IPsec check.
pub struct Ipsec;

impl Ipsec {
    pub fn name(&self) -> (r: &'static str)
        ensures
            r@ == "ipsec"@,
    {
        "ipsec"
    }

    /// Writes the tunnel rows when IPsec is on and the status was JSON:
    /// `status` is none when it was not, `Some(None)` when it was JSON but
    /// not an object.
    pub fn write(
        &self,
        out: &mut AgentOutput,
        cfg: &OpnsenseConfig,
        status: &Option<Option<Vec<IpsecConnection>>>,
    )
        ensures
            final(out)@ == if tree_ipsec_enabled(*cfg) && status is Some {
                old(out)@.push(section_line("local:sep(0)"@)) + match status->0 {
                    Some(cs) => cs@.map_values(|c: IpsecConnection| ipsec_line(c)),
                    None => Seq::empty(),
                }
            } else {
                old(out)@
            },
    {
        if cfg.ipsec_enabled() {
            match status {
                Some(cs) => write_ipsec(out, cs),
                None => {},
            }
        }
    }
}

} // verus!
