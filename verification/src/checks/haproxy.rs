//! HAProxy statistics from its stats socket.
use vstd::prelude::*;

use crate::agent::output::{section_line, AgentOutput};
use crate::checks::opnsense::write_haproxy;
use crate::opnsense::config_tree::{tree_haproxy_enabled, OpnsenseConfig};
use crate::text::{lines_seq, trim_end_seq};

verus! {

/// The HAProxy check.
pub struct Haproxy;

impl Haproxy {
    pub fn name(&self) -> (r: &'static str)
        ensures
            r@ == "haproxy"@,
    {
        "haproxy"
    }

    /// Whether the stats socket is to be asked: HAProxy is on and its socket
    /// exists.
    pub fn wanted(&self, cfg: &OpnsenseConfig, socket_exists: bool) -> (r: bool)
        ensures
            r == (tree_haproxy_enabled(*cfg) && socket_exists),
    {
        cfg.haproxy_enabled() && socket_exists
    }

    /// Writes what the socket answered to `show stat`; nothing when it did
    /// not answer.
    pub fn write(&self, out: &mut AgentOutput, answer: Option<&str>)
        ensures
            final(out)@ == match answer {
                Some(d) => old(out)@.push(section_line("haproxy:sep(44)"@)) + lines_seq(
                    trim_end_seq(d@),
                ),
                None => old(out)@,
            },
    {
        match answer {
            Some(d) => write_haproxy(out, d),
            None => {},
        }
    }
}

} // verus!
