//! The plugin's version and what the auto-update did.
use vstd::prelude::*;

use crate::plugin::output::{LocalSection, LocalState, RowView};
use crate::text::{append_str, chars_of, string_of};

verus! {

/// What the auto-update check found or did.
pub enum UpdateOutcome {
    /// Auto-updates are off.
    Disabled,
    /// The last check is too recent for another one.
    NotDue,
    /// The running version is the newest.
    UpToDate { current: String },
    /// A newer release exists and was not installed.
    UpdateAvailable { current: String, latest: String },
    /// The binary was replaced by a newer release.
    Updated { from: String, to: String },
}

/// `Next check …`, or that there is none.
pub open spec fn next_check_text(next_check: Option<Seq<char>>) -> Seq<char> {
    match next_check {
        Some(n) => "Next check "@ + n,
        None => "Next check disabled"@,
    }
}

pub fn next_check_summary(next_check: &Option<String>) -> (r: String)
    ensures
        r@ == next_check_text(crate::pattern::opt_view(*next_check)),
{
    match next_check {
        Some(n) => {
            let mut s = chars_of("Next check ");
            append_str(&mut s, n.as_str());
            string_of(s.as_slice())
        },
        None => "Next check disabled".to_string(),
    }
}

/// The version row for the update outcome (`Err` holding the failure,
/// written out), the running `version`, and the time of the next check.
pub open spec fn version_row(
    outcome: Result<UpdateOutcome, String>,
    version: Seq<char>,
    next_check: Option<Seq<char>>,
) -> RowView {
    let up_to_date = "Up to date ("@ + version + "), "@ + next_check_text(next_check);
    match outcome {
        Ok(UpdateOutcome::Disabled) => RowView {
            state: LocalState::Okay,
            service: "OPNCheck Version"@,
            metrics: seq![("status"@, "disabled"@)],
            summary: up_to_date,
        },
        Ok(UpdateOutcome::NotDue) | Ok(UpdateOutcome::UpToDate { .. }) => RowView {
            state: LocalState::Okay,
            service: "OPNCheck Version"@,
            metrics: seq![("status"@, "ok"@)],
            summary: up_to_date,
        },
        Ok(UpdateOutcome::UpdateAvailable { current: _, latest }) => RowView {
            state: LocalState::Okay,
            service: "OPNCheck Version"@,
            metrics: seq![("status"@, "update_available"@)],
            summary: "Update available: "@ + latest@ + " (current: "@ + version + ")"@,
        },
        Ok(UpdateOutcome::Updated { from: _, to }) => RowView {
            state: LocalState::Okay,
            service: "OPNCheck Version"@,
            metrics: seq![("status"@, "updated"@)],
            summary: "Up to date ("@ + to@ + "), "@ + next_check_text(next_check),
        },
        Err(e) => RowView {
            state: LocalState::Crit,
            service: "OPNCheck Version"@,
            metrics: seq![("status"@, "err"@)],
            summary: "Auto-update failed: "@ + e@,
        },
    }
}

pub fn section(update_result: &Result<UpdateOutcome, String>, version: &str, next_check: &Option<String>) -> (r: LocalSection)
    ensures
        r@ == seq![version_row(*update_result, version@, crate::pattern::opt_view(*next_check))],
{
    let next = next_check_summary(next_check);
    let mut up = chars_of("Up to date (");
    append_str(&mut up, version);
    append_str(&mut up, "), ");
    append_str(&mut up, next.as_str());
    let up_s = string_of(up.as_slice());
    let mut out = LocalSection::new();
    match update_result {
        Ok(UpdateOutcome::Disabled) => {
            out.row(LocalState::Okay, "OPNCheck Version", up_s.as_str()).with_metric("status", "disabled");
        },
        Ok(UpdateOutcome::NotDue) | Ok(UpdateOutcome::UpToDate { .. }) => {
            out.row(LocalState::Okay, "OPNCheck Version", up_s.as_str()).with_metric("status", "ok");
        },
        Ok(UpdateOutcome::UpdateAvailable { current: _, latest }) => {
            let mut s = chars_of("Update available: ");
            append_str(&mut s, latest.as_str());
            append_str(&mut s, " (current: ");
            append_str(&mut s, version);
            append_str(&mut s, ")");
            let sv = string_of(s.as_slice());
            out.row(LocalState::Okay, "OPNCheck Version", sv.as_str()).with_metric(
                "status",
                "update_available",
            );
        },
        Ok(UpdateOutcome::Updated { from: _, to }) => {
            let mut s = chars_of("Up to date (");
            append_str(&mut s, to.as_str());
            append_str(&mut s, "), ");
            append_str(&mut s, next.as_str());
            let sv = string_of(s.as_slice());
            out.row(LocalState::Okay, "OPNCheck Version", sv.as_str()).with_metric("status", "updated");
        },
        Err(e) => {
            let mut s = chars_of("Auto-update failed: ");
            append_str(&mut s, e.as_str());
            let sv = string_of(s.as_slice());
            out.row(LocalState::Crit, "OPNCheck Version", sv.as_str()).with_metric("status", "err");
        },
    }
    proof {
        let row = version_row(*update_result, version@, crate::pattern::opt_view(*next_check));
        assert(out@[0].metrics =~= row.metrics);
        assert(out@[0].summary =~= row.summary);
        assert(out@ =~= seq![row]);
    }
    out
}

} // verus!
