//! Unbound DNS: query counters from `unbound-control stats_noreset`.
use vstd::prelude::*;

use crate::opnsense::config_xml::{unbound_enabled_spec, OpnsenseConfig};
use crate::plugin::output::{LocalSection, LocalState, RowView};
use crate::text::{
    chars_of, eq_str, is_blank, lines_of, lines_seq, replace_chars, replace_seq, split_once_spec,
    string_of, strip_prefix_spec, strip_prefix_str, trim_seq, views,
};

verus! {

/// The Unbound check.
pub struct Unbound;

impl Unbound {
    pub fn name(&self) -> (r: &'static str)
        ensures
            r@ == "unbound"@,
    {
        "unbound"
    }
}

/// The statistic a line gives: for `total.a.b=v`, the key `a_b` and the
/// value `v`.
pub open spec fn stat_entry(l: Seq<char>) -> Option<(Seq<char>, Seq<char>)> {
    match strip_prefix_spec(l, "total."@) {
        Some(rest) => match split_once_spec(rest, seq!['=']) {
            Some((k, v)) => Some((replace_seq(k, '.', seq!['_']), v)),
            None => None,
        },
        None => None,
    }
}

/// The statistics of the lines, in order.
pub open spec fn stat_entries(ls: Seq<Seq<char>>) -> Seq<(Seq<char>, Seq<char>)>
    decreases ls.len(),
{
    if ls.len() == 0 {
        Seq::empty()
    } else {
        match stat_entry(ls.last()) {
            Some(e) => stat_entries(ls.drop_last()).push(e),
            None => stat_entries(ls.drop_last()),
        }
    }
}

/// The value of `key`: the last one given for it.
pub open spec fn stat_lookup(es: Seq<(Seq<char>, Seq<char>)>, key: Seq<char>) -> Option<Seq<char>>
    decreases es.len(),
{
    if es.len() == 0 {
        None
    } else if es.last().0 == key {
        Some(es.last().1)
    } else {
        stat_lookup(es.drop_last(), key)
    }
}

/// The value of `key`, `0` when there is none.
pub open spec fn stat_or_zero(es: Seq<(Seq<char>, Seq<char>)>, key: Seq<char>) -> Seq<char> {
    match stat_lookup(es, key) {
        Some(v) => v,
        None => seq!['0'],
    }
}

pub open spec fn entry_views(v: Seq<(String, String)>) -> Seq<(Seq<char>, Seq<char>)> {
    v.map_values(|e: (String, String)| (e.0@, e.1@))
}

fn read_stat_entry(l: &[char]) -> (r: Option<(String, String)>)
    ensures
        match r {
            Some(e) => stat_entry(l@) == Some((e.0@, e.1@)),
            None => stat_entry(l@) is None,
        },
{
    match strip_prefix_str(l, "total.") {
        Some(rest) => match crate::text::split_once_str(rest.as_slice(), "=") {
            Some((k, v)) => {
                proof {
                    reveal_strlit("=");
                    assert(("=")@ =~= seq!['=']);
                }
                let k2 = replace_chars(k.as_slice(), '.', "_");
                proof {
                    reveal_strlit("_");
                    assert(("_")@ =~= seq!['_']);
                }
                Some((string_of(k2.as_slice()), string_of(v.as_slice())))
            },
            None => {
                proof {
                    reveal_strlit("=");
                    assert(("=")@ =~= seq!['=']);
                }
                None
            },
        },
        None => None,
    }
}

/// The statistics in the output of `unbound-control stats_noreset`: the
/// `total.` lines, dots in their keys turned into underscores.
pub fn unbound_stats(data: &str) -> (r: Vec<(String, String)>)
    ensures
        entry_views(r@) == stat_entries(lines_seq(data@)),
{
    let d = chars_of(data);
    let lines = lines_of(d.as_slice());
    let ghost lv = views(lines@);
    let mut r: Vec<(String, String)> = Vec::new();
    let mut i: usize = 0;
    while i < lines.len()
        invariant
            i <= lines.len(),
            lv == views(lines@),
            entry_views(r@) == stat_entries(lv.take(i as int)),
        decreases lines.len() - i,
    {
        assert(lv.take(i + 1).drop_last() =~= lv.take(i as int));
        assert(lv.take(i + 1).last() == lines@[i as int]@);
        match read_stat_entry(lines[i].as_slice()) {
            Some(e) => {
                let ghost ev = (e.0@, e.1@);
                r.push(e);
                assert(entry_views(r@) =~= stat_entries(lv.take(i as int)).push(ev));
            },
            None => {},
        }
        i = i + 1;
    }
    assert(lv.take(lines.len() as int) =~= lv);
    r
}

/// The value of `key` in `stats` (the last one given), `0` when it is missing.
pub fn stat_value<'a>(stats: &'a Vec<(String, String)>, key: &str) -> (r: &'a str)
    ensures
        r@ == stat_or_zero(entry_views(stats@), key@),
{
    let ghost ev = entry_views(stats@);
    let k = chars_of(key);
    let mut i: usize = stats.len();
    assert(ev.take(i as int) =~= ev);
    while i > 0
        invariant
            i <= stats.len(),
            ev == entry_views(stats@),
            k@ == key@,
            stat_lookup(ev, key@) == stat_lookup(ev.take(i as int), key@),
        decreases i,
    {
        assert(ev.take(i as int).drop_last() =~= ev.take(i - 1));
        assert(ev.take(i as int).last() == ev[i - 1]);
        if eq_str(k.as_slice(), stats[i - 1].0.as_str()) {
            return stats[i - 1].1.as_str();
        }
        i = i - 1;
    }
    proof {
        reveal_strlit("0");
        assert(("0")@ =~= seq!['0']);
    }
    "0"
}

/// The names of the reported metrics and the statistics they come from.
pub open spec fn stat_metrics(es: Seq<(Seq<char>, Seq<char>)>) -> Seq<(Seq<char>, Seq<char>)> {
    seq![
        ("dns_successes"@, stat_or_zero(es, "num_queries"@)),
        ("dns_recursion"@, stat_or_zero(es, "num_recursivereplies"@)),
        ("dns_cachehits"@, stat_or_zero(es, "num_cachehits"@)),
        ("dns_cachemiss"@, stat_or_zero(es, "num_cachemiss"@)),
        ("avg_response_time"@, stat_or_zero(es, "recursion_time_avg"@)),
    ]
}

/// The Unbound section: nothing when Unbound is off or not configured,
/// critical with zero counters when it did not answer, else its counters.
pub open spec fn unbound_rows(cfg: OpnsenseConfig, conf_exists: bool, data: Seq<char>) -> Seq<RowView> {
    if !unbound_enabled_spec(cfg) || !conf_exists {
        Seq::empty()
    } else if trim_seq(data).len() == 0 {
        seq![
            RowView {
                state: LocalState::Crit,
                service: "Unbound DNS"@,
                metrics: stat_metrics(Seq::empty()),
                summary: "Unbound not running"@,
            },
        ]
    } else {
        seq![
            RowView {
                state: LocalState::Okay,
                service: "Unbound DNS"@,
                metrics: stat_metrics(stat_entries(lines_seq(data))),
                summary: "Unbound running"@,
            },
        ]
    }
}

/// The Unbound section for the statistics `data`, where `conf_exists` tells
/// whether Unbound's configuration file is there.
pub fn unbound_section(cfg: &OpnsenseConfig, conf_exists: bool, data: &str) -> (r: LocalSection)
    ensures
        r@ == unbound_rows(*cfg, conf_exists, data@),
{
    let mut out = LocalSection::new();
    if !cfg.unbound_enabled() || !conf_exists {
        return out;
    }
    let d = chars_of(data);
    let blank = is_blank(d.as_slice());
    let stats: Vec<(String, String)> = if blank {
        Vec::new()
    } else {
        unbound_stats(data)
    };
    let ghost es = entry_views(stats@);
    assert(blank ==> es =~= Seq::<(Seq<char>, Seq<char>)>::empty());
    let (state, summary) = if blank {
        (LocalState::Crit, "Unbound not running")
    } else {
        (LocalState::Okay, "Unbound running")
    };
    out.row(state, "Unbound DNS", summary).with_metric(
        "dns_successes",
        stat_value(&stats, "num_queries"),
    ).with_metric("dns_recursion", stat_value(&stats, "num_recursivereplies")).with_metric(
        "dns_cachehits",
        stat_value(&stats, "num_cachehits"),
    ).with_metric("dns_cachemiss", stat_value(&stats, "num_cachemiss")).with_metric(
        "avg_response_time",
        stat_value(&stats, "recursion_time_avg"),
    );
    proof {
        assert(out@[0].metrics =~= stat_metrics(es));
        assert(out@ =~= unbound_rows(*cfg, conf_exists, data@));
    }
    out
}

} // verus!

verus! {

/// A statistic given twice counts with its later value.
pub proof fn lemma_later_value_wins(es: Seq<(Seq<char>, Seq<char>)>, key: Seq<char>, value: Seq<char>)
    ensures
        stat_lookup(es.push((key, value)), key) == Some(value),
        stat_or_zero(es.push((key, value)), key) == value,
{
    assert(es.push((key, value)).last() == (key, value));
}

/// A statistic that was never given reads as `0`.
pub proof fn lemma_missing_reads_zero(key: Seq<char>)
    ensures
        stat_or_zero(Seq::empty(), key) == seq!['0'],
{
}

} // verus!
