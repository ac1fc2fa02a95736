//! The OPNsense checks written straight into the agent output: each turns
//! what a command, socket or file gave into section lines.
use vstd::prelude::*;

use crate::agent::output::{local_line, section_line, AgentOutput};
use crate::checks::opnsense::unbound::{entry_views, stat_entries, stat_or_zero, stat_value, unbound_stats};
use crate::plugin::output::LocalState;
use crate::text::{
    append_chars, append_str, chars_of, eq_str, is_blank, lines_of, lines_seq, parse_i64,
    parse_i64_spec, parse_u16, parse_u16_spec, split_chars, split_once_spec, split_once_str,
    split_seq, string_of, trim_end_chars, trim_end_seq, trim_seq, views, words_of, words_seq,
};

pub mod nginx;
pub mod suricata;
pub mod unbound;

verus! {

// ---------------------------------------------------------------------------
// Processes.

/// The pid that a `ps ax -c -o command,pid` line gives for `name`: the line
/// is exactly the name and a number.
pub open spec fn pid_of_line(l: Seq<char>, name: Seq<char>) -> Option<i64> {
    let w = words_seq(l);
    if w.len() == 2 && w[0] == name {
        parse_i64_spec(w[1])
    } else {
        None
    }
}

/// The pid of the first line that names `name` with a readable pid.
pub open spec fn pid_of(ls: Seq<Seq<char>>, name: Seq<char>) -> Option<i64>
    decreases ls.len(),
{
    if ls.len() == 0 {
        None
    } else {
        match pid_of_line(ls[0], name) {
            Some(p) => Some(p),
            None => pid_of(ls.drop_first(), name),
        }
    }
}

/// The pid of the process `process_name` in the output of
/// `ps ax -c -o command,pid`.
pub fn pidof(ps_output: &str, process_name: &str) -> (r: Option<i64>)
    ensures
        r == pid_of(lines_seq(ps_output@), process_name@),
{
    let d = chars_of(ps_output);
    let lines = lines_of(d.as_slice());
    let ghost lv = views(lines@);
    let mut i: usize = 0;
    assert(lv.skip(0) =~= lv);
    while i < lines.len()
        invariant
            i <= lines.len(),
            lv == views(lines@),
            pid_of(lines_seq(ps_output@), process_name@) == pid_of(lv.skip(i as int), process_name@),
            lv == lines_seq(ps_output@),
        decreases lines.len() - i,
    {
        assert(lv.skip(i as int)[0] == lines@[i as int]@);
        assert(lv.skip(i as int).drop_first() =~= lv.skip(i + 1));
        let parts = words_of(lines[i].as_slice());
        if parts.len() == 2 && eq_str(parts[0].as_slice(), process_name) {
            assert(views(parts@)[0] == parts@[0]@);
            assert(views(parts@)[1] == parts@[1]@);
            match parse_i64(parts[1].as_slice()) {
                Some(p) => {
                    return Some(p);
                },
                None => {},
            }
        }
        i = i + 1;
    }
    None
}

// ---------------------------------------------------------------------------
// HTTP over a socket.

/// The status code of an HTTP response: the second word of its first line.
pub open spec fn http_status(response: Seq<char>) -> Option<u16> {
    let ls = lines_seq(response);
    if ls.len() > 0 && words_seq(ls[0]).len() > 1 {
        parse_u16_spec(words_seq(ls[0])[1])
    } else {
        None
    }
}

/// The body of an HTTP response: what follows the first blank line (CRLF or
/// LF), else the whole response.
pub open spec fn http_body(response: Seq<char>) -> Seq<char> {
    match split_once_spec(response, "\r\n\r\n"@) {
        Some((_, b)) => b,
        None => match split_once_spec(response, "\n\n"@) {
            Some((_, b)) => b,
            None => response,
        },
    }
}

/// The status code and the body of an HTTP response.
pub fn split_http_response(response: &str) -> (r: (Option<u16>, String))
    ensures
        r.0 == http_status(response@),
        r.1@ == http_body(response@),
{
    let d = chars_of(response);
    let lines = lines_of(d.as_slice());
    let status = if lines.len() > 0 {
        let w = words_of(lines[0].as_slice());
        assert(views(lines@)[0] == lines@[0]@);
        if w.len() > 1 {
            assert(views(w@)[1] == w@[1]@);
            parse_u16(w[1].as_slice())
        } else {
            None
        }
    } else {
        None
    };
    let body = match split_once_str(d.as_slice(), "\r\n\r\n") {
        Some((_, b)) => string_of(b.as_slice()),
        None => match split_once_str(d.as_slice(), "\n\n") {
            Some((_, b)) => string_of(b.as_slice()),
            None => response.to_owned(),
        },
    };
    (status, body)
}

/// A status page is read when the response has no status line or a 2xx one.
pub fn nginx_status_ok(status: Option<u16>) -> (r: bool)
    ensures
        r == match status {
            Some(s) => 200 <= s <= 299,
            None => true,
        },
{
    match status {
        Some(s) => 200 <= s && s <= 299,
        None => true,
    }
}

/// What the Nginx status body said.
pub enum NginxBody {
    /// Not JSON.
    NotJson,
    /// JSON without a start time.
    NoLoadMsec,
    /// The uptime in seconds, written out.
    Uptime(String),
}

pub open spec fn nginx_local_line(body: NginxBody) -> Seq<char> {
    match body {
        NginxBody::Uptime(u) => local_line(
            LocalState::Okay,
            "Nginx Uptime"@,
            "uptime="@ + u@,
            "Nginx VTS status socket responding"@,
        ),
        NginxBody::NoLoadMsec => local_line(
            LocalState::Okay,
            "Nginx Uptime"@,
            "uptime=0"@,
            "Nginx status socket responding without loadMsec"@,
        ),
        NginxBody::NotJson => local_line(
            LocalState::Okay,
            "Nginx Uptime"@,
            "uptime=0"@,
            "Nginx status socket responding"@,
        ),
    }
}

/// Writes the Nginx uptime row.
pub fn write_nginx_local(out: &mut AgentOutput, body: NginxBody)
    ensures
        final(out)@ == old(out)@ + seq![section_line("local:sep(0)"@), nginx_local_line(body)],
{
    out.section("local:sep(0)");
    match &body {
        NginxBody::Uptime(u) => {
            let mut m = chars_of("uptime=");
            append_str(&mut m, u.as_str());
            let ms = string_of(m.as_slice());
            out.local(
                LocalState::Okay,
                "Nginx Uptime",
                ms.as_str(),
                "Nginx VTS status socket responding",
            );
        },
        NginxBody::NoLoadMsec => {
            out.local(
                LocalState::Okay,
                "Nginx Uptime",
                "uptime=0",
                "Nginx status socket responding without loadMsec",
            );
        },
        NginxBody::NotJson => {
            out.local(LocalState::Okay, "Nginx Uptime", "uptime=0", "Nginx status socket responding");
        },
    }
    assert(out@ =~= old(out)@ + seq![section_line("local:sep(0)"@), nginx_local_line(body)]);
}

// ---------------------------------------------------------------------------
// Unbound, HAProxy.

/// The metrics column of the Unbound row.
pub open spec fn unbound_metrics_line(es: Seq<(Seq<char>, Seq<char>)>) -> Seq<char> {
    "dns_successes="@ + stat_or_zero(es, "num_queries"@) + "|dns_recursion="@ + stat_or_zero(
        es,
        "num_recursivereplies"@,
    ) + "|dns_cachehits="@ + stat_or_zero(es, "num_cachehits"@) + "|dns_cachemiss="@
        + stat_or_zero(es, "num_cachemiss"@) + "|avg_response_time="@ + stat_or_zero(
        es,
        "recursion_time_avg"@,
    )
}

pub open spec fn unbound_local_lines(data: Seq<char>) -> Seq<Seq<char>> {
    if trim_seq(data).len() == 0 {
        seq![
            section_line("local:sep(0)"@),
            local_line(
                LocalState::Crit,
                "Unbound DNS"@,
                unbound_metrics_line(Seq::empty()),
                "Unbound not running"@,
            ),
        ]
    } else {
        seq![
            section_line("local:sep(0)"@),
            local_line(
                LocalState::Okay,
                "Unbound DNS"@,
                unbound_metrics_line(stat_entries(lines_seq(data))),
                "Unbound running"@,
            ),
        ]
    }
}

/// Writes the Unbound row for the statistics `data`: critical with zero
/// counters when Unbound did not answer.
pub fn write_unbound_local(out: &mut AgentOutput, data: &str)
    ensures
        final(out)@ == old(out)@ + unbound_local_lines(data@),
{
    let d = chars_of(data);
    let blank = is_blank(d.as_slice());
    let stats: Vec<(String, String)> = if blank {
        Vec::new()
    } else {
        unbound_stats(data)
    };
    let ghost es = entry_views(stats@);
    assert(blank ==> es =~= Seq::<(Seq<char>, Seq<char>)>::empty());
    let mut m = chars_of("dns_successes=");
    append_str(&mut m, stat_value(&stats, "num_queries"));
    append_str(&mut m, "|dns_recursion=");
    append_str(&mut m, stat_value(&stats, "num_recursivereplies"));
    append_str(&mut m, "|dns_cachehits=");
    append_str(&mut m, stat_value(&stats, "num_cachehits"));
    append_str(&mut m, "|dns_cachemiss=");
    append_str(&mut m, stat_value(&stats, "num_cachemiss"));
    append_str(&mut m, "|avg_response_time=");
    append_str(&mut m, stat_value(&stats, "recursion_time_avg"));
    assert(m@ =~= unbound_metrics_line(es));
    let ms = string_of(m.as_slice());
    out.section("local:sep(0)");
    if blank {
        out.local(LocalState::Crit, "Unbound DNS", ms.as_str(), "Unbound not running");
    } else {
        out.local(LocalState::Okay, "Unbound DNS", ms.as_str(), "Unbound running");
    }
    assert(out@ =~= old(out)@ + unbound_local_lines(data@));
}

/// Writes the HAProxy `show stat` output as the `haproxy:sep(44)` section.
pub fn write_haproxy(out: &mut AgentOutput, data: &str)
    ensures
        final(out)@ == old(out)@.push(section_line("haproxy:sep(44)"@)) + lines_seq(
            trim_end_seq(data@),
        ),
{
    out.section("haproxy:sep(44)");
    let d = chars_of(data);
    let t = string_of(trim_end_chars(d.as_slice()).as_slice());
    out.raw_block(t.as_str());
}

// ---------------------------------------------------------------------------
// IPsec.

/// A configured IPsec connection and the states of its security
/// associations.
pub struct IpsecConnection {
    pub name: String,
    pub sa_states: Vec<Option<String>>,
}

pub open spec fn established(states: Seq<Option<String>>) -> bool {
    exists|i: int| 0 <= i < states.len() && ((#[trigger] states[i]) matches Some(s) && s@
        == "ESTABLISHED"@)
}

pub open spec fn ipsec_line(c: IpsecConnection) -> Seq<char> {
    let up = established(c.sa_states@);
    local_line(
        if up {
            LocalState::Okay
        } else {
            LocalState::Crit
        },
        "IPsec Tunnel: "@ + c.name@,
        "if_in_octets=0|if_out_octets=0|lifetime=0"@,
        if up {
            "ESTABLISHED"@
        } else {
            "not connected"@
        },
    )
}

/// A tunnel is up whatever the position of its established association:
/// the associations of two lists together are established exactly when those
/// of one of them are; a single association is established exactly when its
/// state is `ESTABLISHED`; and no association is never established.
pub proof fn lemma_established_anywhere(a: Seq<Option<String>>, b: Seq<Option<String>>, x: Option<String>)
    ensures
        established(a + b) <==> (established(a) || established(b)),
        established(seq![x]) <==> (x matches Some(s) && s@ == "ESTABLISHED"@),
        !established(Seq::<Option<String>>::empty()),
{
    if established(a) {
        let i = choose|i: int| 0 <= i < a.len() && ((#[trigger] a[i]) matches Some(s) && s@ == "ESTABLISHED"@);
        assert((a + b)[i] == a[i]);
    }
    if established(b) {
        let i = choose|i: int| 0 <= i < b.len() && ((#[trigger] b[i]) matches Some(s) && s@ == "ESTABLISHED"@);
        assert((a + b)[a.len() + i] == b[i]);
    }
    if established(a + b) {
        let i = choose|i: int| 0 <= i < (a + b).len() && ((#[trigger] (a + b)[i]) matches Some(s) && s@ == "ESTABLISHED"@);
        if i < a.len() {
            assert(a[i] == (a + b)[i]);
        } else {
            assert(b[i - a.len()] == (a + b)[i]);
        }
    }
    if x matches Some(s) && s@ == "ESTABLISHED"@ {
        assert(seq![x][0] == x);
    }
}

/// Whether one of the security associations is established.
pub fn is_established(states: &Vec<Option<String>>) -> (r: bool)
    ensures
        r == established(states@),
{
    let mut i: usize = 0;
    while i < states.len()
        invariant
            i <= states.len(),
            forall|k: int|
                0 <= k < i ==> !((#[trigger] states@[k]) matches Some(s) && s@ == "ESTABLISHED"@),
        decreases states.len() - i,
    {
        match &states[i] {
            Some(s) => {
                let c = chars_of(s.as_str());
                if eq_str(c.as_slice(), "ESTABLISHED") {
                    return true;
                }
            },
            None => {},
        }
        i = i + 1;
    }
    false
}

/// Writes the IPsec rows: the section header, then (when the status was a
/// JSON object, `Some`) one row per connection, up when an association is
/// established.
pub fn write_ipsec(out: &mut AgentOutput, connections: &Option<Vec<IpsecConnection>>)
    ensures
        final(out)@ == old(out)@.push(section_line("local:sep(0)"@)) + match connections {
            Some(cs) => cs@.map_values(|c: IpsecConnection| ipsec_line(c)),
            None => Seq::empty(),
        },
{
    out.section("local:sep(0)");
    let ghost head = out@;
    match connections {
        Some(cs) => {
            let mut i: usize = 0;
            while i < cs.len()
                invariant
                    i <= cs.len(),
                    out@ == head + cs@.take(i as int).map_values(|c: IpsecConnection| ipsec_line(c)),
                decreases cs.len() - i,
            {
                let c = &cs[i];
                let up = is_established(&c.sa_states);
                let mut service = chars_of("IPsec Tunnel: ");
                append_str(&mut service, c.name.as_str());
                let sv = string_of(service.as_slice());
                if up {
                    out.local(
                        LocalState::Okay,
                        sv.as_str(),
                        "if_in_octets=0|if_out_octets=0|lifetime=0",
                        "ESTABLISHED",
                    );
                } else {
                    out.local(
                        LocalState::Crit,
                        sv.as_str(),
                        "if_in_octets=0|if_out_octets=0|lifetime=0",
                        "not connected",
                    );
                }
                assert(cs@.take(i + 1).map_values(|c: IpsecConnection| ipsec_line(c)) =~= cs@.take(
                    i as int,
                ).map_values(|c: IpsecConnection| ipsec_line(c)).push(ipsec_line(cs@[i as int])));
                i = i + 1;
            }
            assert(cs@.take(cs.len() as int) =~= cs@);
        },
        None => {
            assert(out@ =~= head + Seq::<Seq<char>>::empty());
        },
    }
}

// ---------------------------------------------------------------------------
// WireGuard, from the raw dump.

/// The row of a nine-field dump line, none for any other line.
pub open spec fn wireguard_local_line(l: Seq<char>) -> Option<Seq<char>> {
    let f = split_seq(l, '\t');
    if f.len() == 9 {
        Some(
            local_line(
                LocalState::Okay,
                "WireGuard Client: "@ + f[1],
                "if_in_octets="@ + f[6] + "|if_out_octets="@ + f[7],
                f[0] + ": "@ + f[3],
            ),
        )
    } else {
        None
    }
}

pub open spec fn wireguard_local_rows(ls: Seq<Seq<char>>) -> Seq<Seq<char>>
    decreases ls.len(),
{
    if ls.len() == 0 {
        Seq::empty()
    } else {
        match wireguard_local_line(ls.last()) {
            Some(r) => wireguard_local_rows(ls.drop_last()).push(r),
            None => wireguard_local_rows(ls.drop_last()),
        }
    }
}

/// Writes one row per peer line of `wg show all dump`; nothing when the
/// dump is blank.
pub fn write_wireguard_local(out: &mut AgentOutput, data: &str)
    ensures
        final(out)@ == if trim_seq(data@).len() == 0 {
            old(out)@
        } else {
            old(out)@.push(section_line("local:sep(0)"@)) + wireguard_local_rows(lines_seq(data@))
        },
{
    let d = chars_of(data);
    if is_blank(d.as_slice()) {
        return;
    }
    out.section("local:sep(0)");
    let ghost head = out@;
    let lines = lines_of(d.as_slice());
    let ghost lv = views(lines@);
    let mut i: usize = 0;
    while i < lines.len()
        invariant
            i <= lines.len(),
            lv == views(lines@),
            out@ == head + wireguard_local_rows(lv.take(i as int)),
        decreases lines.len() - i,
    {
        assert(lv.take(i + 1).drop_last() =~= lv.take(i as int));
        assert(lv.take(i + 1).last() == lines@[i as int]@);
        let f = split_chars(lines[i].as_slice(), '\t');
        if f.len() == 9 {
            let ghost fv = views(f@);
            let mut service = chars_of("WireGuard Client: ");
            append_chars(&mut service, f[1].as_slice());
            let mut metrics = chars_of("if_in_octets=");
            append_chars(&mut metrics, f[6].as_slice());
            append_str(&mut metrics, "|if_out_octets=");
            append_chars(&mut metrics, f[7].as_slice());
            let mut summary = f[0].clone();
            append_str(&mut summary, ": ");
            append_chars(&mut summary, f[3].as_slice());
            let sv = string_of(service.as_slice());
            let mv = string_of(metrics.as_slice());
            let smv = string_of(summary.as_slice());
            out.local(LocalState::Okay, sv.as_str(), mv.as_str(), smv.as_str());
            proof {
                assert(fv[0] == f@[0]@);
                assert(fv[1] == f@[1]@);
                assert(fv[3] == f@[3]@);
                assert(fv[6] == f@[6]@);
                assert(fv[7] == f@[7]@);
                assert(service@ =~= "WireGuard Client: "@ + fv[1]);
                assert(metrics@ =~= "if_in_octets="@ + fv[6] + "|if_out_octets="@ + fv[7]);
                assert(summary@ =~= fv[0] + ": "@ + fv[3]);
            }
        }
        i = i + 1;
    }
    assert(lv.take(lines.len() as int) =~= lv);
}


// ---------------------------------------------------------------------------
// Package audit, services, firmware.

/// What `pkg audit --raw=json-compact` reported, as far as the row needs it.
pub struct AuditReport {
    /// `pkg_count`, when it is an unsigned number.
    pub pkg_count: Option<u64>,
    /// The names under `packages`, in key order, when that is an object.
    pub packages: Option<Vec<String>>,
}

pub open spec fn names_view(v: Seq<String>) -> Seq<Seq<char>> {
    v.map_values(|s: String| s@)
}

/// The audit row: fine when the output was not JSON or counts no
/// vulnerable package, else a warning naming the packages.
pub open spec fn audit_local_line(service: Seq<char>, report: Option<AuditReport>) -> Seq<char> {
    let n: u64 = match report {
        Some(r) => match r.pkg_count {
            Some(n) => n,
            None => 0,
        },
        None => 0,
    };
    if n == 0 {
        local_line(LocalState::Okay, service, "issues=0"@, "OK"@)
    } else {
        let pkgs = match report {
            Some(r) => match r.packages {
                Some(p) => crate::text::join_seq(names_view(p@), ", "@),
                None => Seq::empty(),
            },
            None => Seq::empty(),
        };
        local_line(
            LocalState::Warn,
            service,
            "issues="@ + crate::text::decimal(n as nat),
            "Pkg: "@ + pkgs + " vulnerable"@,
        )
    }
}

/// Writes the package audit section; `report` is none when the audit output
/// was not JSON.
pub fn write_pkgaudit_local(out: &mut AgentOutput, service: &str, report: &Option<AuditReport>)
    ensures
        final(out)@ == old(out)@ + seq![section_line("local:sep(0)"@), audit_local_line(service@, *report)],
{
    out.section("local:sep(0)");
    let n: u64 = match report {
        Some(r) => match r.pkg_count {
            Some(n) => n,
            None => 0,
        },
        None => 0,
    };
    if n == 0 {
        out.local(LocalState::Okay, service, "issues=0", "OK");
        assert(out@ =~= old(out)@ + seq![section_line("local:sep(0)"@), audit_local_line(service@, *report)]);
        return;
    }
    let mut parts: Vec<Vec<char>> = Vec::new();
    match report {
        Some(r) => match &r.packages {
            Some(p) => {
                let mut i: usize = 0;
                while i < p.len()
                    invariant
                        i <= p.len(),
                        views(parts@) == names_view(p@).take(i as int),
                    decreases p.len() - i,
                {
                    let c = chars_of(p[i].as_str());
                    proof {
                        crate::text::lemma_views_push(parts@, c);
                        assert(names_view(p@).take(i + 1) =~= names_view(p@).take(i as int).push(p@[i as int]@));
                    }
                    parts.push(c);
                    i = i + 1;
                }
                assert(names_view(p@).take(p.len() as int) =~= names_view(p@));
            },
            None => {},
        },
        None => {},
    }
    let joined = crate::text::join_chars(&parts, ", ");
    assert(report matches Some(r) && r.packages is None ==> views(parts@) =~= Seq::<Seq<char>>::empty());
    let mut m = chars_of("issues=");
    let d = crate::text::decimal_u64(n);
    append_chars(&mut m, d.as_slice());
    let mut sm = chars_of("Pkg: ");
    append_chars(&mut sm, joined.as_slice());
    append_str(&mut sm, " vulnerable");
    let ms = string_of(m.as_slice());
    let sms = string_of(sm.as_slice());
    out.local(LocalState::Warn, service, ms.as_str(), sms.as_str());
    proof {
        if report matches Some(r) && r.packages is None {
            assert(crate::text::join_seq(Seq::<Seq<char>>::empty(), ", "@) =~= Seq::<char>::empty());
        }
        assert(out@ =~= old(out)@ + seq![section_line("local:sep(0)"@), audit_local_line(service@, *report)]);
    }
}

/// A `name;description;status` line of the PHP service listing: the name,
/// the description, and whether the status is `1`.
pub open spec fn service_entry(l: Seq<char>) -> Option<(Seq<char>, Seq<char>, bool)> {
    match split_once_spec(l, seq![';']) {
        Some((name, rest)) => match split_once_spec(rest, seq![';']) {
            Some((descr, status)) => Some((name, descr, status == seq!['1'])),
            None => None,
        },
        None => None,
    }
}

/// The services that are listed and not ignored: description and whether
/// they run.
pub open spec fn listed_services(ls: Seq<Seq<char>>, ignored: Seq<Seq<char>>) -> Seq<(Seq<char>, bool)>
    decreases ls.len(),
{
    if ls.len() == 0 {
        Seq::empty()
    } else {
        let prev = listed_services(ls.drop_last(), ignored);
        match service_entry(ls.last()) {
            Some((n, d, up)) => if crate::checks::services::is_ignored_spec(ignored, n) {
                prev
            } else {
                prev.push((d, up))
            },
            None => prev,
        }
    }
}

pub open spec fn stopped_of(s: Seq<(Seq<char>, bool)>) -> Seq<Seq<char>>
    decreases s.len(),
{
    if s.len() == 0 {
        Seq::empty()
    } else if s.last().1 {
        stopped_of(s.drop_last())
    } else {
        stopped_of(s.drop_last()).push(s.last().0)
    }
}

pub open spec fn services_local_lines(data: Seq<char>, ignored: Seq<Seq<char>>) -> Seq<Seq<char>> {
    let s = listed_services(lines_seq(data), ignored);
    let stopped = stopped_of(s);
    if s.len() == 0 {
        Seq::empty()
    } else if stopped.len() == 0 {
        seq![
            section_line("local:sep(0)"@),
            local_line(
                LocalState::Okay,
                "OPNsense Services"@,
                "running_services="@ + crate::text::decimal(s.len()) + "|stopped_service=0"@,
                "All Services running"@,
            ),
        ]
    } else {
        seq![
            section_line("local:sep(0)"@),
            local_line(
                LocalState::Crit,
                "OPNsense Services"@,
                "running_services="@ + crate::text::decimal((s.len() - stopped.len()) as nat)
                    + "|stopped_service="@ + crate::text::decimal(stopped.len()),
                "Services: "@ + crate::text::join_seq(stopped, ", "@) + " not running"@,
            ),
        ]
    }
}

proof fn lemma_stopped_len(s: Seq<(Seq<char>, bool)>)
    ensures
        stopped_of(s).len() <= s.len(),
    decreases s.len(),
{
    if s.len() > 0 {
        lemma_stopped_len(s.drop_last());
    }
}

/// Writes the services row for the PHP service listing `data`: nothing when
/// no service is left after the ignore list, else critical when one is
/// stopped.
pub fn write_services_local(out: &mut AgentOutput, config: &crate::config::Config, data: &str)
    ensures
        final(out)@ == old(out)@ + services_local_lines(data@, crate::config::names(config.checks.services.ignored@)),
{
    let ghost ig = crate::config::names(config.checks.services.ignored@);
    let d = chars_of(data);
    let lines = lines_of(d.as_slice());
    let ghost lv = views(lines@);
    let mut count: usize = 0;
    let mut stopped: Vec<Vec<char>> = Vec::new();
    let ghost mut listed: Seq<(Seq<char>, bool)> = Seq::empty();
    let mut i: usize = 0;
    while i < lines.len()
        invariant
            i <= lines.len(),
            lv == views(lines@),
            listed == listed_services(lv.take(i as int), ig),
            count == listed.len(),
            count <= i,
            views(stopped@) == stopped_of(listed),
            ig == crate::config::names(config.checks.services.ignored@),
        decreases lines.len() - i,
    {
        assert(lv.take(i + 1).drop_last() =~= lv.take(i as int));
        assert(lv.take(i + 1).last() == lines@[i as int]@);
        match split_once_str(lines[i].as_slice(), ";") {
            Some((name, rest)) => match split_once_str(rest.as_slice(), ";") {
                Some((descr, status)) => {
                    proof {
                        reveal_strlit(";");
                        assert((";")@ =~= seq![';']);
                    }
                    let ns = string_of(name.as_slice());
                    if !crate::checks::services::is_ignored(config, ns.as_str()) {
                        let up = eq_str(status.as_slice(), "1");
                        proof {
                            reveal_strlit("1");
                            assert(("1")@ =~= seq!['1']);
                            let prev = listed;
                            listed = listed.push((descr@, up));
                            assert(listed.drop_last() =~= prev);
                        }
                        if !up {
                            proof {
                                crate::text::lemma_views_push(stopped@, descr);
                            }
                            stopped.push(descr);
                        }
                        proof {
                            lemma_stopped_len(listed);
                        }
                        assert(count < usize::MAX) by {
                            assert(count <= i);
                        }
                        count = count + 1;
                    }
                },
                None => {
                    proof {
                        reveal_strlit(";");
                        assert((";")@ =~= seq![';']);
                    }
                },
            },
            None => {
                proof {
                    reveal_strlit(";");
                    assert((";")@ =~= seq![';']);
                }
            },
        }
        i = i + 1;
    }
    assert(lv.take(lines.len() as int) =~= lv);
    if count == 0 {
        assert(old(out)@ + Seq::<Seq<char>>::empty() =~= old(out)@);
        return;
    }
    proof {
        lemma_stopped_len(listed);
    }
    out.section("local:sep(0)");
    let total = crate::text::decimal_u64(count as u64);
    if stopped.len() == 0 {
        let mut m = chars_of("running_services=");
        append_chars(&mut m, total.as_slice());
        append_str(&mut m, "|stopped_service=0");
        let ms = string_of(m.as_slice());
        out.local(LocalState::Okay, "OPNsense Services", ms.as_str(), "All Services running");
    } else {
        let running = crate::text::decimal_u64((count - stopped.len()) as u64);
        let ns = crate::text::decimal_u64(stopped.len() as u64);
        let mut m = chars_of("running_services=");
        append_chars(&mut m, running.as_slice());
        append_str(&mut m, "|stopped_service=");
        append_chars(&mut m, ns.as_slice());
        let joined = crate::text::join_chars(&stopped, ", ");
        let mut sm = chars_of("Services: ");
        append_chars(&mut sm, joined.as_slice());
        append_str(&mut sm, " not running");
        let ms = string_of(m.as_slice());
        let sms = string_of(sm.as_slice());
        out.local(LocalState::Crit, "OPNsense Services", ms.as_str(), sms.as_str());
    }
    assert(out@ =~= old(out)@ + services_local_lines(data@, ig));
}

/// The firmware row of the OPNsense firmware check: the product version
/// (`unknown` when the version file has none) and the age of `config.xml`.
pub open spec fn firmware_local_line(version: Option<Seq<char>>, age: u64) -> Seq<char> {
    local_line(
        LocalState::Okay,
        "OPNsense Firmware"@,
        "update_available=0|apply_finish_time="@ + crate::text::decimal(age as nat),
        "Version "@ + match version {
            Some(v) => v,
            None => "unknown"@,
        },
    )
}

pub fn write_firmware_local(out: &mut AgentOutput, product_version: &Option<String>, config_age: u64)
    ensures
        final(out)@ == old(out)@ + seq![
            section_line("local:sep(0)"@),
            firmware_local_line(crate::pattern::opt_view(*product_version), config_age),
        ],
{
    out.section("local:sep(0)");
    let mut m = chars_of("update_available=0|apply_finish_time=");
    let a = crate::text::decimal_u64(config_age);
    append_chars(&mut m, a.as_slice());
    let mut sm = chars_of("Version ");
    match product_version {
        Some(v) => append_str(&mut sm, v.as_str()),
        None => append_str(&mut sm, "unknown"),
    }
    let ms = string_of(m.as_slice());
    let sms = string_of(sm.as_slice());
    out.local(LocalState::Okay, "OPNsense Firmware", ms.as_str(), sms.as_str());
    assert(out@ =~= old(out)@ + seq![
        section_line("local:sep(0)"@),
        firmware_local_line(crate::pattern::opt_view(*product_version), config_age),
    ]);
}

} // verus!
