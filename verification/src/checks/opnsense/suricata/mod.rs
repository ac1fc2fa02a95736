//! The Suricata check: where to resume reading the EVE log, and what to
//! report about the events read.
use vstd::prelude::*;

pub mod eve;
pub mod reader;
pub mod state;

use self::eve::EveEvent;
use self::reader::{
    collect_lines_spec, first_error, frames_spec, lemma_resume_reads_nothing_new, CollectionResult,
    CollectionView,
};
use self::state::{matches_spec, LogIdentity, SuricataState};
use crate::config::Config;
use crate::plugin::output::{LocalSection, LocalState, RowView};
use crate::text::{
    append_chars, append_str, chars_of, decimal, decimal_u64, join_chars, join_seq, string_of,
    u64_to_string, views,
};

verus! {

/// The Suricata event check.
pub struct Suricata;

impl Suricata {
    pub fn name(&self) -> (r: &'static str)
        ensures
            r@ == "suricata"@,
    {
        "suricata"
    }
}

pub open spec fn service_name() -> Seq<char> {
    "OPNsense Suricata Events"@
}

/// The path that the log has after one rotation: `<path>.0`.
pub open spec fn rotated_path_spec(path: Seq<char>) -> Seq<char> {
    path + seq!['.', '0']
}

pub fn rotated_log_path(path: &str) -> (r: String)
    ensures
        r@ == rotated_path_spec(path@),
{
    let mut v = chars_of(path);
    v.push('.');
    v.push('0');
    string_of(v.as_slice())
}

/// What a run does with the log.
pub enum CollectionPlan {
    /// First run, starting at the end: store a cursor at the end of the log
    /// and report nothing.
    InitializeAtEnd { state: SuricataState },
    /// Read the rotated log from `rotated_start` (when there is one to
    /// read), then the current log from `current_start`.
    Read { rotated_start: Option<u64>, current_start: u64, rotation_gap: bool },
}

/// Whether the plan depends on the rotated log: there is a cursor and it
/// does not belong to the current log.
pub open spec fn needs_rotated_spec(previous: Option<SuricataState>, current: LogIdentity) -> bool {
    previous matches Some(s) && !matches_spec(s, current)
}

pub fn needs_rotated_identity(previous: &Option<SuricataState>, current: &LogIdentity) -> (r: bool)
    ensures
        r == needs_rotated_spec(*previous, *current),
{
    match previous {
        Some(s) => !s.matches(current),
        None => false,
    }
}

/// The plan: without a cursor, start at the end (when so configured) or at
/// the beginning; with a cursor on the current log, resume there (or from
/// the beginning, noting a gap, when the log is now shorter); with a cursor
/// on the rotated log, finish that first and then read the current log from
/// the beginning; with a cursor on neither, note a gap and read the current
/// log from the beginning.
pub open spec fn plan_spec(
    previous: Option<SuricataState>,
    current: LogIdentity,
    rotated: Option<LogIdentity>,
    initialize_from_end: bool,
) -> CollectionPlan {
    match previous {
        None => if initialize_from_end {
            CollectionPlan::InitializeAtEnd {
                state: SuricataState {
                    device: current.device,
                    inode: current.inode,
                    offset: current.len,
                    last_timestamp: None,
                    last_flow_id: None,
                },
            }
        } else {
            CollectionPlan::Read { rotated_start: None, current_start: 0, rotation_gap: false }
        },
        Some(s) => if matches_spec(s, current) {
            if s.offset <= current.len {
                CollectionPlan::Read {
                    rotated_start: None,
                    current_start: s.offset,
                    rotation_gap: false,
                }
            } else {
                CollectionPlan::Read { rotated_start: None, current_start: 0, rotation_gap: true }
            }
        } else {
            match rotated {
                Some(r) => if matches_spec(s, r) {
                    CollectionPlan::Read {
                        rotated_start: Some(if s.offset <= r.len {
                            s.offset
                        } else {
                            r.len
                        }),
                        current_start: 0,
                        rotation_gap: false,
                    }
                } else {
                    CollectionPlan::Read {
                        rotated_start: None,
                        current_start: 0,
                        rotation_gap: true,
                    }
                },
                None => CollectionPlan::Read {
                    rotated_start: None,
                    current_start: 0,
                    rotation_gap: true,
                },
            }
        },
    }
}

/// `rotated` is the identity of the rotated log when it could be read (only
/// looked at when `needs_rotated_identity` says so).
pub fn plan_collection(
    previous: &Option<SuricataState>,
    current: &LogIdentity,
    rotated: &Option<LogIdentity>,
    initialize_from_end: bool,
) -> (r: CollectionPlan)
    ensures
        r == plan_spec(*previous, *current, *rotated, initialize_from_end),
{
    match previous {
        None => {
            if initialize_from_end {
                CollectionPlan::InitializeAtEnd { state: current.to_state() }
            } else {
                CollectionPlan::Read { rotated_start: None, current_start: 0, rotation_gap: false }
            }
        },
        Some(s) => {
            if s.matches(current) {
                if s.offset <= current.len {
                    CollectionPlan::Read {
                        rotated_start: None,
                        current_start: s.offset,
                        rotation_gap: false,
                    }
                } else {
                    CollectionPlan::Read {
                        rotated_start: None,
                        current_start: 0,
                        rotation_gap: true,
                    }
                }
            } else {
                match rotated {
                    Some(r) => {
                        if s.matches(r) {
                            let start = if s.offset <= r.len {
                                s.offset
                            } else {
                                r.len
                            };
                            CollectionPlan::Read {
                                rotated_start: Some(start),
                                current_start: 0,
                                rotation_gap: false,
                            }
                        } else {
                            CollectionPlan::Read {
                                rotated_start: None,
                                current_start: 0,
                                rotation_gap: true,
                            }
                        }
                    },
                    None => CollectionPlan::Read {
                        rotated_start: None,
                        current_start: 0,
                        rotation_gap: true,
                    },
                }
            }
        },
    }
}

/// The cursor to store after a run that read the current log up to
/// `next_offset`: none when a line could not be parsed (the cursor stays
/// where it was, so the line is read again), else one at `next_offset` with
/// the last timestamp and flow id seen.
pub fn next_state(current: &LogIdentity, next_offset: u64, result: &CollectionResult) -> (r: Option<
    SuricataState,
>)
    ensures
        r is None <==> result.parse_errors > 0,
        r matches Some(s) ==> s.device == current.device && s.inode == current.inode && s.offset
            == next_offset && s.last_timestamp == result.last_timestamp && s.last_flow_id
            == result.last_flow_id,
{
    if result.parse_errors == 0 {
        Some(
            SuricataState {
                device: current.device,
                inode: current.inode,
                offset: next_offset,
                last_timestamp: result.last_timestamp.clone(),
                last_flow_id: result.last_flow_id,
            },
        )
    } else {
        None
    }
}

/// The first run, started at the end, stores a cursor at the end of the log;
/// the next run on the same log, grown or not, reads from that cursor: only
/// what was appended in between, with no gap and nothing of the rotated log.
pub proof fn lemma_first_run_then_only_appended(
    current: LogIdentity,
    later: LogIdentity,
    rotated: Option<LogIdentity>,
    later_rotated: Option<LogIdentity>,
    initialize_from_end: bool,
)
    requires
        later.device == current.device,
        later.inode == current.inode,
        current.len <= later.len,
    ensures
        plan_spec(None, current, rotated, true) matches CollectionPlan::InitializeAtEnd { state }
            && plan_spec(Some(state), later, later_rotated, initialize_from_end)
            == (CollectionPlan::Read {
            rotated_start: None,
            current_start: current.len,
            rotation_gap: false,
        }),
{
}

/// A clean run stores a cursor that the next run resumes from: when the log
/// is the same file and has not shrunk below `next_offset`, the next run
/// reads the current log from `next_offset`, with no gap.
pub proof fn lemma_stored_cursor_resumes(
    stored: SuricataState,
    later: LogIdentity,
    rotated: Option<LogIdentity>,
    initialize_from_end: bool,
)
    requires
        matches_spec(stored, later),
        stored.offset <= later.len,
    ensures
        plan_spec(Some(stored), later, rotated, initialize_from_end) == (CollectionPlan::Read {
            rotated_start: None,
            current_start: stored.offset,
            rotation_gap: false,
        }),
{
}

/// An event is never reported twice: after a run over the current log
/// `content` from `start` that met no line it could not parse, the next run
/// over the same log with the cursor the first run stored (`next_state`
/// stores the same file at the offset it reached) reads that log from the
/// cursor, finds no line to read, counts nothing (whatever result it starts
/// from, it ends with that result) and leaves the cursor where it was.
pub proof fn lemma_second_run_reports_nothing(
    first: CollectionView,
    content: Seq<u8>,
    current: LogIdentity,
    start: int,
    parsed: Seq<Option<EveEvent>>,
    stored: SuricataState,
    rotated: Option<LogIdentity>,
    initialize_from_end: bool,
    second: CollectionView,
)
    requires
        current.len == content.len(),
        0 <= start <= content.len(),
        parsed.len() == frames_spec(content.skip(start), start, current.len as int).len(),
        first_error(frames_spec(content.skip(start), start, current.len as int), parsed, 0)
            == frames_spec(content.skip(start), start, current.len as int).len(),
        stored.device == current.device,
        stored.inode == current.inode,
        stored.offset == collect_lines_spec(
            first,
            frames_spec(content.skip(start), start, current.len as int),
            parsed,
            start,
        ).1,
    ensures
        plan_spec(Some(stored), current, rotated, initialize_from_end) == (CollectionPlan::Read {
            rotated_start: None,
            current_start: stored.offset,
            rotation_gap: false,
        }),
        frames_spec(content.skip(stored.offset as int), stored.offset as int, current.len as int).len()
            == 0,
        collect_lines_spec(
            second,
            frames_spec(content.skip(stored.offset as int), stored.offset as int, current.len as int),
            Seq::empty(),
            stored.offset as int,
        ) == (second, stored.offset as int),
{
    let rest = content.skip(start);
    let fs = frames_spec(rest, start, current.len as int);
    lemma_resume_reads_nothing_new(first, rest, parsed, start, current.len as int);
    let o = collect_lines_spec(first, fs, parsed, start).1;
    assert(rest.skip(o - start) =~= content.skip(o));
    let fs2 = frames_spec(content.skip(stored.offset as int), stored.offset as int, current.len as int);
    assert(fs2.len() == 0);
    assert(first_error(fs2, Seq::empty(), 0) == 0);
}

} // verus!

verus! {

/// The texts of the summaries to show, in order: all of them, or only
/// those of blocked events.
pub open spec fn detail_texts(sums: Seq<(bool, Seq<char>)>, include_allowed: bool) -> Seq<
    Seq<char>,
>
    decreases sums.len(),
{
    if sums.len() == 0 {
        Seq::empty()
    } else {
        let rest = detail_texts(sums.drop_last(), include_allowed);
        if include_allowed || sums.last().0 {
            rest.push(sums.last().1)
        } else {
            rest
        }
    }
}

/// The first `n` items of `s`, or all of them when there are fewer.
pub open spec fn take_at_most<A>(s: Seq<A>, n: nat) -> Seq<A> {
    if n >= s.len() {
        s
    } else {
        s.take(n as int)
    }
}

pub open spec fn result_state_spec(v: CollectionView) -> LocalState {
    if v.parse_errors > 0 {
        LocalState::Unknown
    } else if v.blocked > 0 {
        LocalState::Warn
    } else {
        LocalState::Okay
    }
}

pub open spec fn result_summary_spec(v: CollectionView, include_allowed: bool, max: nat) -> Seq<
    char,
> {
    if v.parse_errors > 0 {
        "Could not parse "@ + decimal(v.parse_errors) + " Suricata EVE line(s); state not advanced"@
    } else if v.events == 0 {
        "No new Suricata events"@
    } else {
        let base = decimal(v.events) + " new Suricata event(s), "@ + decimal(v.alerts)
            + " alert(s), "@ + decimal(v.blocked) + " blocked"@;
        let details = take_at_most(detail_texts(v.summaries, include_allowed), max);
        if details.len() > 0 {
            base + ": "@ + join_seq(details, "; "@)
        } else {
            base
        }
    }
}

/// The row the check reports after a run.
pub open spec fn result_row_spec(v: CollectionView, include_allowed: bool, max: nat) -> RowView {
    RowView {
        state: result_state_spec(v),
        service: service_name(),
        metrics: seq![
            ("new_events"@, decimal(v.events)),
            ("new_alerts"@, decimal(v.alerts)),
            ("new_blocked"@, decimal(v.blocked)),
            ("parse_errors"@, decimal(v.parse_errors)),
            ("rotation_gap"@, decimal(if v.rotation_gap { 1 } else { 0 })),
        ],
        summary: result_summary_spec(v, include_allowed, max),
    }
}

fn details_of(result: &CollectionResult, include_allowed: bool, max: usize) -> (r: Vec<Vec<char>>)
    ensures
        views(r@) == take_at_most(detail_texts(result@.summaries, include_allowed), max as nat),
{
    let ghost all = detail_texts(result@.summaries, include_allowed);
    let mut r: Vec<Vec<char>> = Vec::new();
    let mut i: usize = 0;
    while i < result.summaries.len()
        invariant
            i <= result.summaries.len(),
            all == detail_texts(result@.summaries, include_allowed),
            views(r@) == take_at_most(detail_texts(result@.summaries.take(i as int), include_allowed), max as nat),
        decreases result.summaries.len() - i,
    {
        let s = &result.summaries[i];
        assert(result@.summaries.take(i + 1).drop_last() == result@.summaries.take(i as int));
        assert(result@.summaries[i as int] == (s.blocked, s.text@));
        if include_allowed || s.blocked {
            if r.len() < max {
                let t = chars_of(s.text.as_str());
                proof {
                    crate::text::lemma_views_push(r@, t);
                }
                r.push(t);
            }
        }
        i = i + 1;
    }
    assert(result@.summaries.take(result.summaries.len() as int) == result@.summaries);
    r
}

proof fn lemma_detail_texts_len(sums: Seq<(bool, Seq<char>)>, include_allowed: bool)
    ensures
        detail_texts(sums, include_allowed).len() <= sums.len(),
    decreases sums.len(),
{
    if sums.len() > 0 {
        lemma_detail_texts_len(sums.drop_last(), include_allowed);
    }
}

/// What the row's state says of a run, for every result: unknown when a line
/// could not be parsed; otherwise a warning as soon as one event was blocked
/// (an IPS drop), and OK exactly when nothing was blocked and every line was
/// parsed. Blocked events always raise at least a warning.
pub proof fn lemma_blocked_events_warn(v: CollectionView, include_allowed: bool, max: nat)
    ensures
        v.parse_errors > 0 ==> result_row_spec(v, include_allowed, max).state == LocalState::Unknown,
        v.parse_errors == 0 && v.blocked > 0 ==> result_row_spec(v, include_allowed, max).state
            == LocalState::Warn,
        result_row_spec(v, include_allowed, max).state == LocalState::Okay <==> (v.parse_errors == 0
            && v.blocked == 0),
        v.blocked > 0 ==> result_row_spec(v, include_allowed, max).state != LocalState::Okay,
{
}

/// Reports the result of a run as one row.
pub fn write_result(out: &mut LocalSection, config: &Config, result: &CollectionResult)
    ensures
        final(out)@ == old(out)@.push(
            result_row_spec(
                result@,
                config.checks.suricata.include_allowed_in_summary,
                config.checks.suricata.max_summary_events as nat,
            ),
        ),
{
    let include_allowed = config.checks.suricata.include_allowed_in_summary;
    let max = config.checks.suricata.max_summary_events;
    let state = if result.parse_errors > 0 {
        LocalState::Unknown
    } else if result.blocked > 0 {
        LocalState::Warn
    } else {
        LocalState::Okay
    };
    let summary: Vec<char> = if result.parse_errors > 0 {
        let mut v = chars_of("Could not parse ");
        append_chars(&mut v, decimal_u64(result.parse_errors as u64).as_slice());
        append_str(&mut v, " Suricata EVE line(s); state not advanced");
        v
    } else if result.events == 0 {
        chars_of("No new Suricata events")
    } else {
        let mut v = decimal_u64(result.events as u64);
        append_str(&mut v, " new Suricata event(s), ");
        append_chars(&mut v, decimal_u64(result.alerts as u64).as_slice());
        append_str(&mut v, " alert(s), ");
        append_chars(&mut v, decimal_u64(result.blocked as u64).as_slice());
        append_str(&mut v, " blocked");
        let details = details_of(result, include_allowed, max);
        if details.len() > 0 {
            append_str(&mut v, ": ");
            append_chars(&mut v, join_chars(&details, "; ").as_slice());
        }
        v
    };
    assert(summary@ =~= result_summary_spec(result@, include_allowed, max as nat));
    let summary = string_of(summary.as_slice());
    let gap: u64 = if result.rotation_gap {
        1
    } else {
        0
    };
    let e = u64_to_string(result.events as u64);
    let a = u64_to_string(result.alerts as u64);
    let b = u64_to_string(result.blocked as u64);
    let p = u64_to_string(result.parse_errors as u64);
    let g = u64_to_string(gap);
    out.row(state, "OPNsense Suricata Events", summary.as_str()).with_metric(
        "new_events",
        e.as_str(),
    ).with_metric("new_alerts", a.as_str()).with_metric("new_blocked", b.as_str()).with_metric(
        "parse_errors",
        p.as_str(),
    ).with_metric("rotation_gap", g.as_str());
    assert(out@.last().metrics =~= result_row_spec(
        result@,
        include_allowed,
        max as nat,
    ).metrics);
}

/// Reports a run that failed with `message`, all counts zero.
pub fn write_failure(out: &mut LocalSection, message: &str)
    ensures
        final(out)@ == old(out)@.push(
            RowView {
                state: LocalState::Unknown,
                service: service_name(),
                metrics: seq![
                    ("new_events"@, seq!['0']),
                    ("new_alerts"@, seq!['0']),
                    ("new_blocked"@, seq!['0']),
                    ("parse_errors"@, seq!['0']),
                    ("rotation_gap"@, seq!['0']),
                ],
                summary: "Failed: "@ + message@,
            },
        ),
{
    let mut s = chars_of("Failed: ");
    append_str(&mut s, message);
    let summary = string_of(s.as_slice());
    proof {
        reveal_strlit("0");
        assert(("0")@ =~= seq!['0']);
    }
    out.row(LocalState::Unknown, "OPNsense Suricata Events", summary.as_str()).with_metric(
        "new_events",
        "0",
    ).with_metric("new_alerts", "0").with_metric("new_blocked", "0").with_metric(
        "parse_errors",
        "0",
    ).with_metric("rotation_gap", "0");
    assert(out@.last().metrics =~= seq![
        ("new_events"@, seq!['0']),
        ("new_alerts"@, seq!['0']),
        ("new_blocked"@, seq!['0']),
        ("parse_errors"@, seq!['0']),
        ("rotation_gap"@, seq!['0']),
    ]);
}

} // verus!
