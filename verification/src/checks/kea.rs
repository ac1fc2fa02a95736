//! Kea DHCP: address pool usage from the control agent's `statistic-get-all`.
use vstd::prelude::*;

use std::collections::BTreeMap;

use crate::agent::output::{local_line, AgentOutput};
use crate::pattern::{first_captures, regex_first_captures};
use crate::plugin::output::LocalState;
use crate::text::{
    append_chars, append_str, chars_of, decimal, decimal_i64, decimal_u64, eq_str, number_error_text,
    parse_u64_or_error, parse_u64_spec, signed_decimal, string_of, u64_error, NumberError,
};

verus! {

/// A pool statistic name: subnet id, pool index, and which count it is.
pub const POOL_STAT_PATTERN: &'static str = "^subnet\\[(\\d+)\\]\\.pool\\[(\\d+)\\]\\.(assigned-addresses|total-addresses)$";

/// The Kea check.
pub struct Kea;

impl Kea {
    pub fn name(&self) -> (r: &'static str)
        ensures
            r@ == "kea"@,
    {
        "kea"
    }
}

/// A statistic sample's value as JSON gives it: as an unsigned and as a
/// signed integer, where it is one.
pub struct KeaSample {
    pub unsigned: Option<u64>,
    pub signed: Option<i64>,
}

pub open spec fn sample_u64(s: KeaSample) -> Option<u64> {
    match s.unsigned {
        Some(v) => Some(v),
        None => match s.signed {
            Some(v) => if v >= 0 {
                Some(v as u64)
            } else {
                None
            },
            None => None,
        },
    }
}

impl KeaSample {
    /// The sample as an unsigned count, when it is a non-negative integer.
    pub fn as_u64(&self) -> (r: Option<u64>)
        ensures
            r == sample_u64(*self),
    {
        match self.unsigned {
            Some(v) => Some(v),
            None => match self.signed {
                Some(v) => if v >= 0 {
                    Some(v as u64)
                } else {
                    None
                },
                None => None,
            },
        }
    }
}

/// A named statistic and its samples, newest first.
pub struct KeaStatistic {
    pub name: String,
    pub samples: Vec<KeaSample>,
}

/// One element of the control agent's answer.
pub struct KeaResponseItem {
    pub result: i64,
    pub text: Option<String>,
    /// The statistics by name, in name order.
    pub arguments: Vec<KeaStatistic>,
}

/// The usage of one address pool.
#[derive(Debug, Clone, Copy, PartialEq, Eq, Structural)]
pub struct PoolStats {
    pub subnet: u64,
    pub pool: u64,
    pub assigned: u64,
    pub total: u64,
}

/// Why the pool statistics could not be read.
#[derive(Debug)]
pub enum KeaError {
    /// The answer held no element.
    EmptyResponse,
    /// The control agent reported a failure, with its text if any.
    Failed { result: i64, text: Option<String> },
    /// A subnet id or pool index of the named statistic could not be read as
    /// a `u64`, for the reason given.
    BadNumber { name: String, error: NumberError },
    /// The named statistic has no numeric first sample.
    NoSample { name: String },
}

/// The text of a failure, as the check reports it.
pub open spec fn kea_error_text(e: KeaError) -> Seq<char> {
    match e {
        KeaError::EmptyResponse => "Kea Control Agent returned an empty response"@,
        KeaError::Failed { result, text } => "Kea Control Agent statistic-get-all failed with result "@
            + signed_decimal(result as int) + ": "@ + match text {
            Some(t) => t@,
            None => "no response text"@,
        },
        KeaError::BadNumber { error, .. } => number_error_text(error),
        KeaError::NoSample { name } => "Kea statistic "@ + name@ + " has no numeric sample"@,
    }
}

impl KeaError {
    pub fn message(&self) -> (r: String)
        ensures
            r@ == kea_error_text(*self),
    {
        match self {
            KeaError::EmptyResponse => "Kea Control Agent returned an empty response".to_string(),
            KeaError::Failed { result, text } => {
                let mut s = chars_of("Kea Control Agent statistic-get-all failed with result ");
                let d = decimal_i64(*result);
                append_chars(&mut s, d.as_slice());
                append_str(&mut s, ": ");
                match text {
                    Some(t) => append_str(&mut s, t.as_str()),
                    None => append_str(&mut s, "no response text"),
                }
                string_of(s.as_slice())
            },
            KeaError::BadNumber { error, .. } => error.message().to_string(),
            KeaError::NoSample { name } => {
                let mut s = chars_of("Kea statistic ");
                append_str(&mut s, name.as_str());
                append_str(&mut s, " has no numeric sample");
                string_of(s.as_slice())
            },
        }
    }
}

/// What a statistic contributes: nothing (not a pool count), a count for a
/// pool (`true` for assigned, `false` for total), or a failure.
pub enum StatItem {
    Skip,
    Count { key: (u64, u64), assigned: bool, value: u64 },
    BadNumber { error: NumberError },
    NoSample,
}

pub open spec fn first_sample(s: Seq<KeaSample>) -> Option<u64> {
    if s.len() > 0 {
        sample_u64(s[0])
    } else {
        None
    }
}

/// What a statistic contributes, from the groups of its name's match (none
/// when the name does not match): groups 1 and 2 the subnet id and pool
/// index, group 3 which count it is. The subnet id is read first.
pub open spec fn item_of_groups(g: Option<Seq<Option<Seq<char>>>>, samples: Seq<KeaSample>) -> StatItem {
    match g {
        Some(g) => if g.len() >= 4 && g[1] is Some && g[2] is Some && g[3] is Some {
            match (parse_u64_spec(g[1]->0), parse_u64_spec(g[2]->0)) {
                (Some(subnet), Some(pool)) => match first_sample(samples) {
                    Some(v) => if g[3]->0 == "assigned-addresses"@ {
                        StatItem::Count { key: (subnet, pool), assigned: true, value: v }
                    } else if g[3]->0 == "total-addresses"@ {
                        StatItem::Count { key: (subnet, pool), assigned: false, value: v }
                    } else {
                        StatItem::Skip
                    },
                    None => StatItem::NoSample,
                },
                (None, _) => StatItem::BadNumber { error: u64_error(g[1]->0)->0 },
                (Some(_), None) => StatItem::BadNumber { error: u64_error(g[2]->0)->0 },
            }
        } else {
            StatItem::Skip
        },
        None => StatItem::Skip,
    }
}

pub open spec fn stat_item(name: Seq<char>, samples: Seq<KeaSample>) -> StatItem {
    item_of_groups(regex_first_captures(POOL_STAT_PATTERN@, name), samples)
}

/// The counts gathered per pool, or the index of the first statistic that
/// failed.
pub open spec fn gather(stats: Seq<KeaStatistic>) -> Result<Map<(u64, u64), (Option<u64>, Option<u64>)>, int>
    decreases stats.len(),
{
    if stats.len() == 0 {
        Ok(Map::empty())
    } else {
        match gather(stats.drop_last()) {
            Err(i) => Err(i),
            Ok(m) => match stat_item(stats.last().name@, stats.last().samples@) {
                StatItem::Skip => Ok(m),
                StatItem::Count { key, assigned, value } => {
                    let prev = if m.contains_key(key) {
                        m[key]
                    } else {
                        (None, None)
                    };
                    Ok(
                        m.insert(
                            key,
                            if assigned {
                                (Some(value), prev.1)
                            } else {
                                (prev.0, Some(value))
                            },
                        ),
                    )
                },
                _ => Err(stats.len() - 1),
            },
        }
    }
}

pub open spec fn key_lt(a: (u64, u64), b: (u64, u64)) -> bool {
    a.0 < b.0 || (a.0 == b.0 && a.1 < b.1)
}

pub open spec fn pool_key(p: PoolStats) -> (u64, u64) {
    (p.subnet, p.pool)
}

/// The pools that have both counts, each once, in (subnet, pool) order.
pub open spec fn complete_pools(v: Seq<PoolStats>, m: Map<(u64, u64), (Option<u64>, Option<u64>)>) -> bool {
    &&& forall|i: int, j: int| 0 <= i < j < v.len() ==> key_lt(pool_key(#[trigger] v[i]), pool_key(#[trigger] v[j]))
    &&& forall|i: int| 0 <= i < v.len() ==> m.contains_key(pool_key(#[trigger] v[i])) && m[pool_key(v[i])] == (Some(v[i].assigned), Some(v[i].total))
    &&& forall|k: (u64, u64)| #[trigger] m.contains_key(k) && m[k].0 is Some && m[k].1 is Some ==> exists|i: int| 0 <= i < v.len() && pool_key(v[i]) == k
}

pub open spec fn pool_stats_spec(stats: Seq<KeaStatistic>, r: Result<Vec<PoolStats>, KeaError>) -> bool {
    match gather(stats) {
        Ok(m) => r matches Ok(v) && complete_pools(v@, m),
        Err(i) => match stat_item(stats[i].name@, stats[i].samples@) {
            StatItem::NoSample => r matches Err(e) && (e matches KeaError::NoSample { name } && name@ == stats[i].name@),
            StatItem::BadNumber { error } => r matches Err(e) && (e matches KeaError::BadNumber { name, error: found }
                && name@ == stats[i].name@ && found == error),
            _ => false,
        },
    }
}

/// What a statistic with the samples `samples` contributes, given the groups
/// of its name's match.
pub fn stat_item_of_groups(groups: &Option<Vec<Option<String>>>, samples: &Vec<KeaSample>) -> (r: StatItem)
    ensures
        r == item_of_groups(crate::pattern::opt_groups(*groups), samples@),
{
    let g = match groups {
        Some(g) => g,
        None => return StatItem::Skip,
    };
    if g.len() < 4 {
        return StatItem::Skip;
    }
    let (a, b, c) = match (&g[1], &g[2], &g[3]) {
        (Some(a), Some(b), Some(c)) => (a, b, c),
        _ => return StatItem::Skip,
    };
    let subnet = match parse_u64_or_error(chars_of(a.as_str()).as_slice()) {
        Ok(v) => v,
        Err(error) => return StatItem::BadNumber { error },
    };
    let pool = match parse_u64_or_error(chars_of(b.as_str()).as_slice()) {
        Ok(v) => v,
        Err(error) => return StatItem::BadNumber { error },
    };
    let value = if samples.len() > 0 {
        samples[0].as_u64()
    } else {
        None
    };
    let value = match value {
        Some(v) => v,
        None => return StatItem::NoSample,
    };
    let kind = chars_of(c.as_str());
    if eq_str(kind.as_slice(), "assigned-addresses") {
        StatItem::Count { key: (subnet, pool), assigned: true, value }
    } else if eq_str(kind.as_slice(), "total-addresses") {
        StatItem::Count { key: (subnet, pool), assigned: false, value }
    } else {
        StatItem::Skip
    }
}

fn read_item(name: &str, samples: &Vec<KeaSample>) -> (r: StatItem)
    ensures
        r == stat_item(name@, samples@),
{
    let groups = first_captures(POOL_STAT_PATTERN, name);
    stat_item_of_groups(&groups, samples)
}

/// The pools with both counts in the Kea statistics, in (subnet, pool)
/// order; the later of two counts for the same pool wins.
pub fn pool_stats(statistics: &Vec<KeaStatistic>) -> (r: Result<Vec<PoolStats>, KeaError>)
    ensures
        pool_stats_spec(statistics@, r),
{
    proof {
        lemma_pool_key_order();
    }
    let mut pools: BTreeMap<(u64, u64), (Option<u64>, Option<u64>)> = BTreeMap::new();
    let mut i: usize = 0;
    while i < statistics.len()
        invariant
            i <= statistics.len(),
            pool_keys_ordered(),
            gather(statistics@.take(i as int)) == Ok::<Map<(u64, u64), (Option<u64>, Option<u64>)>, int>(pools@),
        decreases statistics.len() - i,
    {
        let s = &statistics[i];
        assert(statistics@.take(i + 1).drop_last() =~= statistics@.take(i as int));
        assert(statistics@.take(i + 1).last() == *s);
        match read_item(s.name.as_str(), &s.samples) {
            StatItem::Skip => {},
            StatItem::Count { key, assigned, value } => {
                let prev = match pools.get(&key) {
                    Some(p) => *p,
                    None => (None, None),
                };
                let next = if assigned {
                    (Some(value), prev.1)
                } else {
                    (prev.0, Some(value))
                };
                pools.insert(key, next);
            },
            StatItem::BadNumber { error } => {
                proof {
                    lemma_gather_error(statistics@, i as int);
                }
                return Err(KeaError::BadNumber { name: s.name.clone(), error });
            },
            StatItem::NoSample => {
                proof {
                    lemma_gather_error(statistics@, i as int);
                }
                return Err(KeaError::NoSample { name: s.name.clone() });
            },
        }
        i = i + 1;
    }
    assert(statistics@.take(statistics.len() as int) =~= statistics@);
    let ghost m = pools@;
    let counts = pools.iter();
    let ghost s0 = vstd::std_specs::iter::IteratorSpec::remaining(&counts);
    let ghost keys = s0.map_values(|kv: (&(u64, u64), &(Option<u64>, Option<u64>))| *kv.0);
    proof {
        lemma_pool_keys_ordered(keys);
    }
    assert(forall|x: int| 0 <= x < s0.len() ==> m.contains_key(*s0[x].0) && m[*s0[x].0] == *s0[x].1);
    let mut out: Vec<PoolStats> = Vec::new();
    for kv in it: counts
        invariant
            it.seq() == s0,
            keys == s0.map_values(|kv: (&(u64, u64), &(Option<u64>, Option<u64>))| *kv.0),
            forall|a: int, b: int| 0 <= a < b < keys.len() ==> key_lt(keys[a], keys[b]),
            forall|x: int| 0 <= x < s0.len() ==> m.contains_key(*s0[x].0) && m[*s0[x].0] == *s0[x].1,
            forall|a: int, b: int| 0 <= a < b < out.len() ==> key_lt(pool_key(#[trigger] out@[a]), pool_key(#[trigger] out@[b])),
            forall|a: int| 0 <= a < out.len() ==> m.contains_key(pool_key(#[trigger] out@[a])) && m[pool_key(out@[a])] == (Some(out@[a].assigned), Some(out@[a].total)),
            forall|a: int, y: int| 0 <= a < out.len() && it.index() <= y < keys.len() ==> key_lt(pool_key(#[trigger] out@[a]), #[trigger] keys[y]),
            forall|x: int| 0 <= x < it.index() && (#[trigger] s0[x]).1.0 is Some && s0[x].1.1 is Some ==> exists|a: int| 0 <= a < out.len() && pool_key(out@[a]) == keys[x],
    {
        let ghost j = it.index();
        let (key, counted) = kv;
        assert(*key == keys[j]);
        match *counted {
            (Some(a), Some(t)) => {
                let p = PoolStats { subnet: key.0, pool: key.1, assigned: a, total: t };
                let ghost before = out@;
                out.push(p);
                proof {
                    assert(out@[out.len() - 1] == p);
                    assert(forall|a: int| 0 <= a < before.len() ==> out@[a] == before[a]);
                    assert forall|x: int| 0 <= x < j + 1 && (#[trigger] s0[x]).1.0 is Some && s0[x].1.1 is Some implies exists|a: int| 0 <= a < out.len() && pool_key(out@[a]) == keys[x] by {
                        if x == j {
                            assert(pool_key(out@[out.len() - 1]) == keys[x]);
                        } else {
                            let a = choose|a: int| 0 <= a < before.len() && pool_key(before[a]) == keys[x];
                            assert(pool_key(out@[a]) == keys[x]);
                        }
                    }
                }
            },
            _ => {},
        }
    }
    proof {
        assert forall|k: (u64, u64)| #[trigger] m.contains_key(k) && m[k].0 is Some && m[k].1 is Some implies exists|i: int| 0 <= i < out@.len() && pool_key(out@[i]) == k by {
            assert(exists|x: int| 0 <= x < s0.len() && *s0[x].0 == k);
            let x = choose|x: int| 0 <= x < s0.len() && *s0[x].0 == k;
            assert(keys[x] == k);
            assert(s0[x].1.0 is Some && s0[x].1.1 is Some);
        }
    }
    Ok(out)
}

proof fn lemma_gather_error(stats: Seq<KeaStatistic>, i: int)
    requires
        0 <= i < stats.len(),
        gather(stats.take(i)) is Ok,
        !(stat_item(stats[i].name@, stats[i].samples@) is Skip),
        !(stat_item(stats[i].name@, stats[i].samples@) is Count),
    ensures
        gather(stats) == Err::<Map<(u64, u64), (Option<u64>, Option<u64>)>, int>(i),
    decreases stats.len(),
{
    if i == stats.len() - 1 {
        assert(stats.drop_last() =~= stats.take(i));
    } else {
        assert(stats.drop_last().take(i) =~= stats.take(i));
        assert(stats.drop_last()[i] == stats[i]);
        lemma_gather_error(stats.drop_last(), i);
    }
}

/// The pools of the control agent's answer: the first element counts, and
/// it must report success.
pub open spec fn kea_pools_spec(items: Seq<KeaResponseItem>, r: Result<Vec<PoolStats>, KeaError>) -> bool {
    if items.len() == 0 {
        r matches Err(e) && e is EmptyResponse
    } else if items[0].result != 0 {
        r matches Err(e) && (e matches KeaError::Failed { result, text } && result == items[0].result
            && crate::pattern::opt_view(text) == crate::pattern::opt_view(items[0].text))
    } else {
        pool_stats_spec(items[0].arguments@, r)
    }
}

pub fn kea_pools(items: &Vec<KeaResponseItem>) -> (r: Result<Vec<PoolStats>, KeaError>)
    ensures
        kea_pools_spec(items@, r),
{
    if items.len() == 0 {
        return Err(KeaError::EmptyResponse);
    }
    let first = &items[0];
    if first.result != 0 {
        let text = match &first.text {
            Some(t) => Some(t.clone()),
            None => None,
        };
        return Err(KeaError::Failed { result: first.result, text });
    }
    pool_stats(&first.arguments)
}

/// The addresses of a pool that are free (none when more are assigned than
/// there are).
pub open spec fn free_of(p: PoolStats) -> u64 {
    if p.total >= p.assigned {
        (p.total - p.assigned) as u64
    } else {
        0
    }
}

/// The row of a pool; `usage` is the percentage in use, written out.
pub open spec fn pool_line(p: PoolStats, usage: Seq<char>) -> Seq<char> {
    local_line(
        LocalState::Okay,
        "Kea DHCP Pool subnet "@ + decimal(p.subnet as nat) + " pool "@ + decimal(p.pool as nat),
        "used="@ + decimal(p.assigned as nat) + "|total="@ + decimal(p.total as nat) + "|free="@
            + decimal(free_of(p) as nat) + "|usage="@ + usage + "%"@,
        decimal(p.assigned as nat) + "/"@ + decimal(p.total as nat) + " addresses used ("@ + usage
            + "%)"@,
    )
}

pub fn write_pool(out: &mut AgentOutput, p: &PoolStats, usage: &str)
    ensures
        final(out)@ == old(out)@.push(pool_line(*p, usage@)),
{
    let free = p.total.saturating_sub(p.assigned);
    let used = decimal_u64(p.assigned);
    let total = decimal_u64(p.total);
    let fr = decimal_u64(free);
    let mut service = chars_of("Kea DHCP Pool subnet ");
    append_chars(&mut service, decimal_u64(p.subnet).as_slice());
    append_str(&mut service, " pool ");
    append_chars(&mut service, decimal_u64(p.pool).as_slice());
    let mut m = chars_of("used=");
    append_chars(&mut m, used.as_slice());
    append_str(&mut m, "|total=");
    append_chars(&mut m, total.as_slice());
    append_str(&mut m, "|free=");
    append_chars(&mut m, fr.as_slice());
    append_str(&mut m, "|usage=");
    append_str(&mut m, usage);
    append_str(&mut m, "%");
    let mut s = used.clone();
    append_str(&mut s, "/");
    append_chars(&mut s, total.as_slice());
    append_str(&mut s, " addresses used (");
    append_str(&mut s, usage);
    append_str(&mut s, "%)");
    let sv = string_of(service.as_slice());
    let mv = string_of(m.as_slice());
    let smv = string_of(s.as_slice());
    out.local(LocalState::Okay, sv.as_str(), mv.as_str(), smv.as_str());
    assert(free == free_of(*p));
    assert(out@ =~= old(out)@.push(pool_line(*p, usage@)));
}

} // verus!

verus! {

/// Keys that a `BTreeMap` yields in increasing order are in (subnet, pool)
/// order.
proof fn lemma_pool_keys_ordered(keys: Seq<(u64, u64)>)
    requires
        vstd::std_specs::btree::increasing_seq(keys),
    ensures
        forall|a: int, b: int| 0 <= a < b < keys.len() ==> key_lt(keys[a], keys[b]),
{
    assert(vstd::laws_cmp::obeys_cmp::<u64>());
    assert(vstd::laws_cmp::obeys_cmp::<(u64, u64)>());
    assert forall|a: int, b: int| 0 <= a < b < keys.len() implies key_lt(keys[a], keys[b]) by {
        assert(vstd::std_specs::cmp::OrdSpec::cmp_spec(&keys[a], &keys[b]) is Less);
    }
}

/// std's `Ord` on pairs of `u64`s, which orders the pool keys, obeys the
/// laws of a total order.
pub open spec fn pool_keys_ordered() -> bool {
    vstd::laws_cmp::obeys_cmp::<(u64, u64)>()
}

proof fn lemma_pool_key_order()
    ensures
        pool_keys_ordered(),
        vstd::std_specs::btree::key_obeys_cmp_spec::<(u64, u64)>(),
{
    assert(vstd::laws_cmp::obeys_cmp::<u64>());
    assert(vstd::laws_cmp::obeys_cmp::<(u64, u64)>());
}

} // verus!
