//! Nginx uptime, written straight into the agent output.
use vstd::prelude::*;

use crate::agent::output::{local_line, section_line, AgentOutput};
use crate::opnsense::config_tree::{tree_nginx_enabled, OpnsenseConfig};
use crate::plugin::output::LocalState;
use crate::text::{append_str, chars_of, string_of};

verus! {

/// The Nginx check of the agent output.
pub struct Nginx;

impl Nginx {
    pub fn name(&self) -> (r: &'static str)
        ensures
            r@ == "nginx"@,
    {
        "nginx"
    }

    /// Whether the status socket is to be asked: Nginx is on and its socket
    /// exists.
    pub fn wanted(&self, cfg: &OpnsenseConfig, socket_exists: bool) -> (r: bool)
        ensures
            r == (tree_nginx_enabled(*cfg) && socket_exists),
    {
        cfg.nginx_enabled() && socket_exists
    }

    /// Writes the uptime row; `uptime` is the number of seconds, written out.
    pub fn write(&self, out: &mut AgentOutput, uptime: &str)
        ensures
            final(out)@ == old(out)@ + seq![
                section_line("local:sep(0)"@),
                local_line(
                    LocalState::Okay,
                    "Nginx Uptime"@,
                    "uptime="@ + uptime@,
                    "Nginx VTS status socket responding"@,
                ),
            ],
    {
        out.section("local:sep(0)");
        let mut m = chars_of("uptime=");
        append_str(&mut m, uptime);
        let ms = string_of(m.as_slice());
        out.local(LocalState::Okay, "Nginx Uptime", ms.as_str(), "Nginx VTS status socket responding");
        assert(out@ =~= old(out)@ + seq![
            section_line("local:sep(0)"@),
            local_line(
                LocalState::Okay,
                "Nginx Uptime"@,
                "uptime="@ + uptime@,
                "Nginx VTS status socket responding"@,
            ),
        ]);
    }
}

} // verus!
