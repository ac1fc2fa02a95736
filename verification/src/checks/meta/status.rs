//! Which checks failed.
use vstd::prelude::*;

use crate::plugin::output::{LocalMetric, LocalRow, LocalSection, LocalState, RowView};
use crate::text::{append_chars, append_str, chars_of, join_chars, join_seq, string_of, views};

verus! {

/// A check that failed: its name, the error, and how long it ran, written
/// out.
pub struct CheckError {
    pub section: String,
    pub error: String,
    pub elapsed_text: String,
}

/// `section: error (after elapsed)`.
pub open spec fn error_line(e: CheckError) -> Seq<char> {
    e.section@ + ": "@ + e.error@ + " (after "@ + e.elapsed_text@ + ")"@
}

/// The status row: fine when no check failed, else critical, listing each
/// failure on a line of its own.
pub open spec fn status_row(errors: Seq<CheckError>) -> RowView {
    if errors.len() == 0 {
        RowView {
            state: LocalState::Okay,
            service: "OPNCheck Status"@,
            metrics: seq![("status"@, "ok"@)],
            summary: "All checks completed successfully"@,
        }
    } else {
        RowView {
            state: LocalState::Crit,
            service: "OPNCheck Status"@,
            metrics: seq![("status"@, "err"@)],
            summary: "Errors occurred during some checks: \n"@ + join_seq(
                errors.map_values(|e: CheckError| error_line(e)),
                seq!['\n'],
            ),
        }
    }
}

pub fn section(check_errors: &Vec<CheckError>) -> (r: LocalSection)
    ensures
        r@ == seq![status_row(check_errors@)],
{
    let mut out = LocalSection::new();
    if check_errors.len() == 0 {
        out.row(LocalState::Okay, "OPNCheck Status", "All checks completed successfully").with_metric(
            "status",
            "ok",
        );
        assert(out@[0].metrics =~= seq![("status"@, "ok"@)]);
        assert(out@ =~= seq![status_row(check_errors@)]);
        return out;
    }
    let mut lines: Vec<Vec<char>> = Vec::new();
    let mut i: usize = 0;
    while i < check_errors.len()
        invariant
            i <= check_errors.len(),
            views(lines@) == check_errors@.take(i as int).map_values(|e: CheckError| error_line(e)),
        decreases check_errors.len() - i,
    {
        let e = &check_errors[i];
        let mut l = chars_of(e.section.as_str());
        append_str(&mut l, ": ");
        append_str(&mut l, e.error.as_str());
        append_str(&mut l, " (after ");
        append_str(&mut l, e.elapsed_text.as_str());
        append_str(&mut l, ")");
        proof {
            crate::text::lemma_views_push(lines@, l);
            assert(check_errors@.take(i + 1).map_values(|e: CheckError| error_line(e)) =~= check_errors@.take(
                i as int,
            ).map_values(|e: CheckError| error_line(e)).push(l@));
        }
        lines.push(l);
        i = i + 1;
    }
    assert(check_errors@.take(check_errors.len() as int) =~= check_errors@);
    let joined = join_chars(&lines, "\n");
    let mut summary = chars_of("Errors occurred during some checks: \n");
    append_chars(&mut summary, joined.as_slice());
    let sv = string_of(summary.as_slice());
    out.row(LocalState::Crit, "OPNCheck Status", sv.as_str()).with_metric("status", "err");
    proof {
        reveal_strlit("\n");
        assert(("\n")@ =~= seq!['\n']);
        assert(out@[0].metrics =~= seq![("status"@, "err"@)]);
        assert(out@ =~= seq![status_row(check_errors@)]);
    }
    out
}

} // verus!
