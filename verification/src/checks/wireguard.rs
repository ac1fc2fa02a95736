//! WireGuard peers from `wg show all dump`: one row per peer, its state from
//! the age of the latest handshake.
use vstd::prelude::*;

use crate::config::Config;
use crate::opnsense::config_xml::{config_peer_name_spec, wireguard_enabled_spec, OpnsenseConfig};
use crate::pattern::{first_captures, regex_first_captures};
use crate::plugin::output::{LocalSection, LocalState, RowView};
use crate::text::{
    append_str, chars_of, decimal, is_blank, lines_of, lines_seq, parse_i64, parse_i64_spec,
    parse_u64, parse_u64_spec, string_of, trim_seq, u64_to_string, views,
};

verus! {

/// A peer line of the dump: nine tab-separated fields, the sixth a signed
/// and the seventh and eighth unsigned decimal numbers.
pub const DUMP_LINE_PATTERN: &'static str = "^(.+?)\t(.+?)\t(.+?)\t(.+?)\t(.+?)\t([-+]?\\d{1,20})\t(\\+?\\d{1,20})\t(\\+?\\d{1,20})\t(.+?)$";

/// The WireGuard check.
pub struct Wireguard;

impl Wireguard {
    pub fn name(&self) -> (r: &'static str)
        ensures
            r@ == "wireguard"@,
    {
        "wireguard"
    }
}

/// The fields of a peer line that the check reports.
pub struct WireguardPeerDump {
    pub interface: String,
    pub public_key: String,
    pub endpoint: String,
    pub latest_handshake: i64,
    pub received: u64,
    pub sent: u64,
}

pub struct PeerView {
    pub interface: Seq<char>,
    pub public_key: Seq<char>,
    pub endpoint: Seq<char>,
    pub latest_handshake: i64,
    pub received: u64,
    pub sent: u64,
}

impl View for WireguardPeerDump {
    type V = PeerView;

    open spec fn view(&self) -> PeerView {
        PeerView {
            interface: self.interface@,
            public_key: self.public_key@,
            endpoint: self.endpoint@,
            latest_handshake: self.latest_handshake,
            received: self.received,
            sent: self.sent,
        }
    }
}

pub open spec fn group(g: Seq<Option<Seq<char>>>, i: int) -> Seq<char> {
    match g[i] {
        Some(s) => s,
        None => Seq::empty(),
    }
}

pub open spec fn groups_complete(g: Seq<Option<Seq<char>>>) -> bool {
    g.len() >= 10 && forall|i: int| 1 <= i < 10 ==> (#[trigger] g[i]) is Some
}

/// The peer that the groups of a dump-line match describe: groups 1, 2 and 4
/// are the interface, the public key and the endpoint, groups 6, 7 and 8 the
/// latest handshake (an `i64`) and the bytes received and sent (`u64`s);
/// none when one of groups 1 to 9 is missing or a number does not fit.
pub open spec fn peer_of_groups(g: Seq<Option<Seq<char>>>) -> Option<PeerView> {
    if groups_complete(g) && parse_i64_spec(group(g, 6)) is Some && parse_u64_spec(group(g, 7)) is Some
        && parse_u64_spec(group(g, 8)) is Some {
        Some(
            PeerView {
                interface: group(g, 1),
                public_key: group(g, 2),
                endpoint: group(g, 4),
                latest_handshake: parse_i64_spec(group(g, 6))->0,
                received: parse_u64_spec(group(g, 7))->0,
                sent: parse_u64_spec(group(g, 8))->0,
            },
        )
    } else {
        None
    }
}

/// The peer that a dump line describes, if it is a peer line whose numbers
/// fit their types.
pub open spec fn peer_spec(line: Seq<char>) -> Option<PeerView> {
    match regex_first_captures(DUMP_LINE_PATTERN@, line) {
        Some(g) => peer_of_groups(g),
        None => None,
    }
}

fn take_group(g: &Vec<Option<String>>, i: usize) -> (r: Vec<char>)
    requires
        i < g.len(),
        g@[i as int] is Some,
    ensures
        r@ == g@[i as int]->0@,
{
    match &g[i] {
        Some(s) => chars_of(s.as_str()),
        None => Vec::new(),
    }
}

/// The peer that the groups `g` of a dump-line match describe.
pub fn peer_from_groups(g: &Vec<Option<String>>) -> (r: Option<WireguardPeerDump>)
    ensures
        match r {
            Some(p) => peer_of_groups(crate::pattern::group_views(g@)) == Some(p@),
            None => peer_of_groups(crate::pattern::group_views(g@)) is None,
        },
{
    let ghost gv = crate::pattern::group_views(g@);
    if g.len() < 10 {
        return None;
    }
    let mut k: usize = 1;
    while k < 10
        invariant
            1 <= k <= 10,
            g.len() >= 10,
            gv == crate::pattern::group_views(g@),
            forall|i: int| 1 <= i < k ==> (#[trigger] g@[i]) is Some,
        decreases 10 - k,
    {
        if g[k].is_none() {
            assert(gv[k as int] is None);
            return None;
        }
        k = k + 1;
    }
    assert(groups_complete(gv)) by {
        assert forall|i: int| 1 <= i < 10 implies (#[trigger] gv[i]) is Some by {
            assert(g@[i] is Some);
        }
    }
    let handshake = take_group(g, 6);
    let rx = take_group(g, 7);
    let tx = take_group(g, 8);
    let latest_handshake = match parse_i64(handshake.as_slice()) {
        Some(v) => v,
        None => return None,
    };
    let received = match parse_u64(rx.as_slice()) {
        Some(v) => v,
        None => return None,
    };
    let sent = match parse_u64(tx.as_slice()) {
        Some(v) => v,
        None => return None,
    };
    let interface = string_of(take_group(g, 1).as_slice());
    let public_key = string_of(take_group(g, 2).as_slice());
    let endpoint = string_of(take_group(g, 4).as_slice());
    Some(WireguardPeerDump { interface, public_key, endpoint, latest_handshake, received, sent })
}

/// Reads a peer line of the dump.
pub fn parse_peer(line: &str) -> (r: Option<WireguardPeerDump>)
    ensures
        match r {
            Some(p) => peer_spec(line@) == Some(p@),
            None => peer_spec(line@) is None,
        },
{
    match first_captures(DUMP_LINE_PATTERN, line) {
        Some(g) => peer_from_groups(&g),
        None => None,
    }
}

/// Whether the age of a handshake at `latest` seen at `now` can be computed
/// without overflow (a handshake at 0 has none to compute).
pub open spec fn age_fits(latest: i64, now: i64) -> bool {
    latest == 0 || (i64::MIN <= now - latest <= i64::MAX)
}

/// The state of a peer, the age of its latest handshake in seconds, and a
/// note for the summary.
pub open spec fn classify_spec(latest: i64, now: i64, warn: u64, crit: u64) -> (
    LocalState,
    u64,
    Seq<char>,
) {
    if latest == 0 {
        (LocalState::Crit, 0u64, " (never connected)"@)
    } else {
        let age: u64 = if now - latest < 0 {
            0u64
        } else {
            (now - latest) as u64
        };
        if age > crit {
            (LocalState::Crit, age, Seq::empty())
        } else if age > warn {
            (LocalState::Warn, age, Seq::empty())
        } else {
            (LocalState::Okay, age, Seq::empty())
        }
    }
}

/// Never connected is critical; otherwise the age of the latest handshake
/// (negative ages count as 0) against the two limits.
pub fn classify_peer(latest_handshake: i64, now: i64, warn_secs: u64, crit_secs: u64) -> (r: (
    LocalState,
    u64,
    &'static str,
))
    requires
        age_fits(latest_handshake, now),
    ensures
        (r.0, r.1, r.2@) == classify_spec(latest_handshake, now, warn_secs, crit_secs),
{
    if latest_handshake == 0 {
        return (LocalState::Crit, 0, " (never connected)");
    }
    let diff: i64 = now - latest_handshake;
    let age: u64 = if diff < 0 {
        0
    } else {
        diff as u64
    };
    proof {
        reveal_strlit("");
    }
    if age > crit_secs {
        (LocalState::Crit, age, "")
    } else if age > warn_secs {
        (LocalState::Warn, age, "")
    } else {
        (LocalState::Okay, age, "")
    }
}

/// The row of a peer: the name from the configuration (else the public key),
/// interface and endpoint, and the traffic and handshake-age metrics.
pub open spec fn peer_row(p: PeerView, now: i64, warn: u64, crit: u64, cfg: OpnsenseConfig) -> RowView {
    let c = classify_spec(p.latest_handshake, now, warn, crit);
    let display = match config_peer_name_spec(cfg, p.public_key) {
        Some(n) => n,
        None => p.public_key,
    };
    RowView {
        state: c.0,
        service: "WireGuard: "@ + display,
        metrics: seq![
            ("if_in_octets"@, decimal(p.received as nat)),
            ("if_out_octets"@, decimal(p.sent as nat)),
            ("latest_handshake_age"@, decimal(c.1 as nat)),
        ],
        summary: p.interface + ": "@ + p.endpoint + c.2,
    }
}

/// The rows of the peer lines among `lines`, in order.
pub open spec fn peer_rows(lines: Seq<Seq<char>>, now: i64, warn: u64, crit: u64, cfg: OpnsenseConfig) -> Seq<
    RowView,
>
    decreases lines.len(),
{
    if lines.len() == 0 {
        Seq::empty()
    } else {
        let prev = peer_rows(lines.drop_last(), now, warn, crit, cfg);
        match peer_spec(lines.last()) {
            Some(p) => prev.push(peer_row(p, now, warn, crit, cfg)),
            None => prev,
        }
    }
}

/// Every peer line's handshake age can be computed at `now`.
pub open spec fn ages_fit(lines: Seq<Seq<char>>, now: i64) -> bool {
    forall|i: int|
        0 <= i < lines.len() ==> ((#[trigger] peer_spec(lines[i])) matches Some(p) ==> age_fits(
            p.latest_handshake,
            now,
        ))
}

/// The check's rows: none when WireGuard is off or the dump is blank.
pub open spec fn wireguard_rows(
    config: Config,
    cfg: OpnsenseConfig,
    dump: Seq<char>,
    now: i64,
) -> Seq<RowView> {
    if !wireguard_enabled_spec(cfg) || trim_seq(dump).len() == 0 {
        Seq::empty()
    } else {
        peer_rows(
            lines_seq(dump),
            now,
            config.checks.wireguard.stale_warn_seconds,
            config.checks.wireguard.stale_crit_seconds,
            cfg,
        )
    }
}

/// Writes the row of peer `p` at time `now`: its state from the handshake
/// age against `warn` and `crit` seconds, its name from the configuration.
pub fn write_peer(out: &mut LocalSection, p: &WireguardPeerDump, now: i64, warn: u64, crit: u64, cfg: &OpnsenseConfig)
    requires
        age_fits(p.latest_handshake, now),
    ensures
        final(out)@ == old(out)@.push(peer_row(p@, now, warn, crit, *cfg)),
{
    let (state, age, detail) = classify_peer(p.latest_handshake, now, warn, crit);
    let mut summary = chars_of(p.interface.as_str());
    append_str(&mut summary, ": ");
    append_str(&mut summary, p.endpoint.as_str());
    append_str(&mut summary, detail);
    let display: &str = match cfg.wireguard_peer_name(p.public_key.as_str()) {
        Some(n) => n,
        None => p.public_key.as_str(),
    };
    let mut service = chars_of("WireGuard: ");
    append_str(&mut service, display);
    let service_s = string_of(service.as_slice());
    let summary_s = string_of(summary.as_slice());
    let rx = u64_to_string(p.received);
    let tx = u64_to_string(p.sent);
    let ag = u64_to_string(age);
    out.row(state, service_s.as_str(), summary_s.as_str()).with_metric(
        "if_in_octets",
        rx.as_str(),
    ).with_metric("if_out_octets", tx.as_str()).with_metric("latest_handshake_age", ag.as_str());
    proof {
        let row = peer_row(p@, now, warn, crit, *cfg);
        assert(out@.last().metrics =~= row.metrics);
        assert(out@.last().service =~= row.service);
        assert(out@.last().summary =~= row.summary);
        assert(out@ =~= old(out)@.push(row));
    }
}

/// The WireGuard section for the output of `wg show all dump`, read at the
/// time `now` (seconds since the epoch).
pub fn wireguard_section(config: &Config, cfg: &OpnsenseConfig, dump: &str, now: i64) -> (r: LocalSection)
    requires
        ages_fit(lines_seq(dump@), now),
    ensures
        r@ == wireguard_rows(*config, *cfg, dump@, now),
{
    let mut out = LocalSection::new();
    let d = chars_of(dump);
    if !cfg.wireguard_enabled() || is_blank(d.as_slice()) {
        return out;
    }
    let warn = config.checks.wireguard.stale_warn_seconds;
    let crit = config.checks.wireguard.stale_crit_seconds;
    let lines = lines_of(d.as_slice());
    let ghost lv = views(lines@);
    let mut i: usize = 0;
    while i < lines.len()
        invariant
            i <= lines.len(),
            lv == views(lines@),
            lv == lines_seq(dump@),
            ages_fit(lv, now),
            warn == config.checks.wireguard.stale_warn_seconds,
            crit == config.checks.wireguard.stale_crit_seconds,
            out@ == peer_rows(lv.take(i as int), now, warn, crit, *cfg),
        decreases lines.len() - i,
    {
        let line = string_of(lines[i].as_slice());
        assert(lv.take(i + 1).drop_last() =~= lv.take(i as int));
        assert(lv.take(i + 1).last() == lv[i as int]);
        assert(peer_spec(lv[i as int]) matches Some(p) ==> age_fits(p.latest_handshake, now));
        match parse_peer(line.as_str()) {
            Some(p) => {
                write_peer(&mut out, &p, now, warn, crit, cfg);
            },
            None => {},
        }
        i = i + 1;
    }
    assert(lv.take(lines.len() as int) =~= lv);
    out
}

/// Whether every peer line of `dump` has a handshake age that can be
/// computed at `now`.
pub fn dump_ages_fit(dump: &str, now: i64) -> (r: bool)
    ensures
        r == ages_fit(lines_seq(dump@), now),
{
    let d = chars_of(dump);
    let lines = lines_of(d.as_slice());
    let ghost lv = views(lines@);
    let mut i: usize = 0;
    while i < lines.len()
        invariant
            i <= lines.len(),
            lv == views(lines@),
            lv == lines_seq(dump@),
            forall|k: int|
                0 <= k < i ==> ((#[trigger] peer_spec(lv[k])) matches Some(p) ==> age_fits(
                    p.latest_handshake,
                    now,
                )),
        decreases lines.len() - i,
    {
        let line = string_of(lines[i].as_slice());
        match parse_peer(line.as_str()) {
            Some(p) => {
                if p.latest_handshake != 0 {
                    let lo = now as i128 - p.latest_handshake as i128;
                    if lo < i64::MIN as i128 || lo > i64::MAX as i128 {
                        assert(lv[i as int] == line@);
                        assert(peer_spec(lv[i as int]) == Some(p@));
                        assert(!age_fits(p.latest_handshake, now));
                        return false;
                    }
                }
            },
            None => {},
        }
        i = i + 1;
    }
    true
}

/// The WireGuard section, or none when some handshake age cannot be
/// computed at `now` without overflow.
pub fn wireguard_section_checked(config: &Config, cfg: &OpnsenseConfig, dump: &str, now: i64) -> (r: Option<
    LocalSection,
>)
    ensures
        match r {
            Some(s) => ages_fit(lines_seq(dump@), now) && s@ == wireguard_rows(*config, *cfg, dump@, now),
            None => !ages_fit(lines_seq(dump@), now),
        },
{
    if dump_ages_fit(dump, now) {
        Some(wireguard_section(config, cfg, dump, now))
    } else {
        None
    }
}

} // verus!

verus! {

/// How bad a state is: fine, warning, critical.
pub open spec fn severity(s: LocalState) -> int {
    match s {
        LocalState::Okay => 0,
        LocalState::Warn => 1,
        LocalState::Crit => 2,
        LocalState::Unknown => 3,
        LocalState::Dynamic => 3,
    }
}

/// An older handshake is never judged better than a newer one, and a peer
/// that never connected is critical.
pub proof fn lemma_older_handshake_never_better(newer: i64, older: i64, now: i64, warn: u64, crit: u64)
    requires
        older != 0,
        newer != 0,
        older <= newer,
        age_fits(newer, now),
        age_fits(older, now),
    ensures
        severity(classify_spec(older, now, warn, crit).0) >= severity(
            classify_spec(newer, now, warn, crit).0,
        ),
        classify_spec(older, now, warn, crit).1 >= classify_spec(newer, now, warn, crit).1,
        classify_spec(0, now, warn, crit).0 == LocalState::Crit,
{
}

} // verus!
