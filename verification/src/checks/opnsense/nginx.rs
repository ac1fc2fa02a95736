//! Nginx: its uptime from the VTS status page on its unix socket.
use vstd::prelude::*;

use crate::plugin::output::{LocalSection, LocalState, RowView};

verus! {

/// The Nginx check.
pub struct Nginx;

impl Nginx {
    pub fn name(&self) -> (r: &'static str)
        ensures
            r@ == "nginx"@,
    {
        "nginx"
    }
}

/// The uptime row: `uptime` is the number of seconds, written out.
pub open spec fn vts_row(uptime: Seq<char>, summary: Seq<char>) -> RowView {
    RowView {
        state: LocalState::Okay,
        service: "Nginx Uptime"@,
        metrics: seq![("uptime"@, uptime)],
        summary: summary,
    }
}

/// Adds the uptime row to the section.
pub fn write_vts_result(out: &mut LocalSection, uptime: &str, summary: &str)
    ensures
        final(out)@ == old(out)@.push(vts_row(uptime@, summary@)),
{
    out.row(LocalState::Okay, "Nginx Uptime", summary).with_metric("uptime", uptime);
    assert(out@.last().metrics =~= seq![("uptime"@, uptime@)]);
    assert(out@ =~= old(out)@.push(vts_row(uptime@, summary@)));
}

} // verus!
