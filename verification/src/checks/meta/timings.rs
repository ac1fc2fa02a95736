//! How long each check took.
use vstd::prelude::*;

use crate::plugin::output::{LocalMetric, LocalRow, LocalSection, LocalState, RowView};
use crate::text::{append_str, chars_of, is_ascii_alnum, is_ascii_alphanumeric, string_of};

verus! {

/// Checks that take longer than this in total (10 s, in nanoseconds) warn.
pub const WARN_AFTER_NANOS: u128 = 10_000_000_000;

/// The longest duration there is, in nanoseconds.
pub const MAX_DURATION_NANOS: u128 = 18_446_744_073_709_551_615_999_999_999;

/// How long one check took: in nanoseconds, and written out.
pub struct CheckTiming {
    pub section: String,
    pub elapsed_nanos: u128,
    pub elapsed_text: String,
}

pub open spec fn total_nanos(ts: Seq<CheckTiming>) -> int
    decreases ts.len(),
{
    if ts.len() == 0 {
        0
    } else {
        total_nanos(ts.drop_last()) + ts.last().elapsed_nanos
    }
}

proof fn lemma_total_prefix(ts: Seq<CheckTiming>, i: int)
    requires
        0 <= i <= ts.len(),
    ensures
        total_nanos(ts.take(i)) <= total_nanos(ts),
    decreases ts.len() - i,
{
    if i < ts.len() {
        lemma_total_prefix(ts, i + 1);
        assert(ts.take(i + 1).drop_last() =~= ts.take(i));
    } else {
        assert(ts.take(i) =~= ts);
    }
}

/// The time all checks took together.
pub fn total_elapsed(timings: &Vec<CheckTiming>) -> (r: u128)
    requires
        total_nanos(timings@) <= MAX_DURATION_NANOS,
    ensures
        r == total_nanos(timings@),
{
    let mut total: u128 = 0;
    let mut i: usize = 0;
    while i < timings.len()
        invariant
            i <= timings.len(),
            total == total_nanos(timings@.take(i as int)),
            total_nanos(timings@) <= MAX_DURATION_NANOS,
        decreases timings.len() - i,
    {
        proof {
            lemma_total_prefix(timings@, i + 1);
            assert(timings@.take(i + 1).drop_last() =~= timings@.take(i as int));
        }
        total = total + timings[i].elapsed_nanos;
        i = i + 1;
    }
    assert(timings@.take(timings.len() as int) =~= timings@);
    total
}

pub open spec fn key_char(c: char) -> char {
    if is_ascii_alnum(c) || c == '_' {
        c
    } else {
        '_'
    }
}

/// A check name as a metric name: ASCII letters, digits and `_` stay, any
/// other character becomes `_`.
pub open spec fn key_suffix(s: Seq<char>) -> Seq<char> {
    s.map_values(|c: char| key_char(c))
}

pub fn metric_key_suffix(input: &str) -> (r: String)
    ensures
        r@ == key_suffix(input@),
{
    let s = chars_of(input);
    let mut out: Vec<char> = Vec::new();
    let mut i: usize = 0;
    while i < s.len()
        invariant
            i <= s.len(),
            s@ == input@,
            out@ == key_suffix(s@.take(i as int)),
        decreases s.len() - i,
    {
        let c = s[i];
        let k = if is_ascii_alphanumeric(c) || c == '_' {
            c
        } else {
            '_'
        };
        out.push(k);
        assert(key_suffix(s@.take(i + 1)) =~= key_suffix(s@.take(i as int)).push(k));
        i = i + 1;
    }
    assert(s@.take(s.len() as int) =~= s@);
    string_of(out.as_slice())
}

pub open spec fn timing_metric(t: CheckTiming) -> (Seq<char>, Seq<char>) {
    (key_suffix(t.section@) + "_took"@, t.elapsed_text@)
}

/// The timings row: a warning when all checks took more than 10 s, the
/// total in the summary, each check's time as a metric.
pub open spec fn timings_row(ts: Seq<CheckTiming>, total_text: Seq<char>) -> RowView {
    RowView {
        state: if total_nanos(ts) > WARN_AFTER_NANOS {
            LocalState::Warn
        } else {
            LocalState::Okay
        },
        service: "OPNCheck Timings"@,
        metrics: ts.map_values(|t: CheckTiming| timing_metric(t)),
        summary: "Checks completed in "@ + total_text,
    }
}

/// The timings section; `total_text` is the total time, written out.
pub fn section(timings: &Vec<CheckTiming>, total_text: &str) -> (r: LocalSection)
    requires
        total_nanos(timings@) <= MAX_DURATION_NANOS,
    ensures
        r@ == seq![timings_row(timings@, total_text@)],
{
    let total = total_elapsed(timings);
    let state = if total > WARN_AFTER_NANOS {
        LocalState::Warn
    } else {
        LocalState::Okay
    };
    let mut summary = chars_of("Checks completed in ");
    append_str(&mut summary, total_text);
    let sv = string_of(summary.as_slice());
    let mut metrics: Vec<LocalMetric> = Vec::new();
    let mut i: usize = 0;
    while i < timings.len()
        invariant
            i <= timings.len(),
            metrics@.map_values(|m: LocalMetric| (m.key@, m.value@)) == timings@.take(i as int).map_values(
                |t: CheckTiming| timing_metric(t),
            ),
        decreases timings.len() - i,
    {
        let mut key = chars_of(metric_key_suffix(timings[i].section.as_str()).as_str());
        append_str(&mut key, "_took");
        let kv = string_of(key.as_slice());
        metrics.push(LocalMetric { key: kv, value: timings[i].elapsed_text.clone() });
        assert(timings@.take(i + 1).map_values(|t: CheckTiming| timing_metric(t)) =~= timings@.take(
            i as int,
        ).map_values(|t: CheckTiming| timing_metric(t)).push(timing_metric(timings@[i as int])));
        assert(metrics@.map_values(|m: LocalMetric| (m.key@, m.value@)) =~= timings@.take(i + 1).map_values(
            |t: CheckTiming| timing_metric(t),
        ));
        i = i + 1;
    }
    assert(timings@.take(timings.len() as int) =~= timings@);
    let row = LocalRow { state, service: "OPNCheck Timings".to_string(), metrics, summary: sv };
    let mut rows: Vec<LocalRow> = Vec::new();
    rows.push(row);
    let out = LocalSection { rows };
    assert(out@ =~= seq![timings_row(timings@, total_text@)]);
    out
}

} // verus!
