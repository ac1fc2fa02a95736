//! The services check: which services are stopped (OPNsense) or failed or
//! changing state (systemd on Linux), leaving out ignored ones.
use vstd::prelude::*;

use crate::config::{names, Config};
use crate::plugin::output::{LocalSection, LocalState, RowView};
use crate::text::{
    append_str, chars_of, contains_seq, decimal, ends_with_str, eq_str, has_suffix, is_blank,
    is_ws, join_chars, join_seq, lines_of, lines_seq, lowercase, string_of, sub_chars,
    to_lowercase, trim_seq, u64_to_string, views, words_of, words_seq,
};

verus! {

/// The services check.
pub struct Services;

impl Services {
    pub fn name(&self) -> (r: &'static str)
        ensures
            r@ == "services"@,
    {
        "services"
    }
}

/// A service as `configctl service list` reports it.
pub struct Service {
    pub name: String,
    pub description: String,
    pub status: String,
}

pub open spec fn is_running_spec(s: Service) -> bool {
    contains_seq(s.status@, " is running"@)
}

impl Service {
    /// Whether the status says the service is running.
    pub fn is_running(&self) -> (r: bool)
        ensures
            r == is_running_spec(*self),
    {
        crate::text::contains_str(chars_of(self.status.as_str()).as_slice(), " is running")
    }
}

/// A service is ignored when its name, in lower case, contains one of the
/// ignored names in lower case.
pub open spec fn is_ignored_spec(ignored: Seq<Seq<char>>, name: Seq<char>) -> bool {
    exists|i: int| 0 <= i < ignored.len() && contains_seq(lowercase(name), lowercase(#[trigger] ignored[i]))
}

pub fn is_ignored(config: &Config, service_name: &str) -> (r: bool)
    ensures
        r == is_ignored_spec(names(config.checks.services.ignored@), service_name@),
{
    let ghost ig = names(config.checks.services.ignored@);
    let name = to_lowercase(service_name);
    let name = chars_of(name.as_str());
    let mut i: usize = 0;
    while i < config.checks.services.ignored.len()
        invariant
            i <= config.checks.services.ignored.len(),
            ig == names(config.checks.services.ignored@),
            name@ == lowercase(service_name@),
            forall|j: int| 0 <= j < i ==> !contains_seq(lowercase(service_name@), lowercase(#[trigger] ig[j])),
        decreases config.checks.services.ignored.len() - i,
    {
        let l = to_lowercase(config.checks.services.ignored[i].as_str());
        assert(ig[i as int] == config.checks.services.ignored@[i as int]@);
        if crate::text::contains_str(name.as_slice(), l.as_str()) {
            return true;
        }
        i = i + 1;
    }
    false
}

pub open spec fn service_name() -> Seq<char> {
    "OPNsense Services"@
}

pub open spec fn descriptions(services: Seq<Service>) -> Seq<Seq<char>> {
    services.map_values(|s: Service| s.description@)
}

/// The descriptions of the services that are not running, in order.
pub open spec fn stopped_spec(services: Seq<Service>) -> Seq<Seq<char>>
    decreases services.len(),
{
    if services.len() == 0 {
        Seq::empty()
    } else {
        let rest = stopped_spec(services.drop_last());
        if is_running_spec(services.last()) {
            rest
        } else {
            rest.push(services.last().description@)
        }
    }
}

proof fn lemma_stopped_len(services: Seq<Service>)
    ensures
        stopped_spec(services).len() <= services.len(),
    decreases services.len(),
{
    if services.len() > 0 {
        lemma_stopped_len(services.drop_last());
    }
}

/// The row for the OPNsense services: OK when all run, else critical with
/// the stopped services named.
pub open spec fn services_row_spec(services: Seq<Service>, ignored: nat) -> RowView {
    let stopped = stopped_spec(services);
    if stopped.len() == 0 {
        RowView {
            state: LocalState::Okay,
            service: service_name(),
            metrics: seq![
                ("running_services"@, decimal(services.len())),
                ("stopped_service"@, seq!['0']),
                ("ignored_services"@, decimal(ignored)),
            ],
            summary: "All Services running"@,
        }
    } else {
        RowView {
            state: LocalState::Crit,
            service: service_name(),
            metrics: seq![
                ("running_services"@, decimal((services.len() - stopped.len()) as nat)),
                ("stopped_service"@, decimal(stopped.len())),
                ("ignored_services"@, decimal(ignored)),
            ],
            summary: "Services: "@ + join_seq(stopped, ", "@) + " not running"@,
        }
    }
}

proof fn lemma_stopped_contains(services: Seq<Service>, i: int)
    requires
        0 <= i < services.len(),
        !contains_seq(services[i].status@, " is running"@),
    ensures
        stopped_spec(services).contains(services[i].description@),
    decreases services.len(),
{
    if i == services.len() - 1 {
        assert(stopped_spec(services).last() == services[i].description@);
    } else {
        assert(services.drop_last()[i] == services[i]);
        lemma_stopped_contains(services.drop_last(), i);
        let d = stopped_spec(services.drop_last());
        let k = choose|k: int| 0 <= k < d.len() && d[k] == services[i].description@;
        if !is_running_spec(services.last()) {
            assert(d.push(services.last().description@)[k] == d[k]);
        }
    }
}

proof fn lemma_none_stopped(services: Seq<Service>)
    requires
        forall|i: int| 0 <= i < services.len() ==> contains_seq((#[trigger] services[i]).status@, " is running"@),
    ensures
        stopped_spec(services).len() == 0,
    decreases services.len(),
{
    if services.len() > 0 {
        assert(services.last() == services[services.len() - 1]);
        assert forall|i: int| 0 <= i < services.drop_last().len() implies contains_seq(
            (#[trigger] services.drop_last()[i]).status@,
            " is running"@,
        ) by {
            assert(services.drop_last()[i] == services[i]);
        }
        lemma_none_stopped(services.drop_last());
    }
}

/// A service counts as running only when its status says ` is running`: one
/// whose status does not (such as `ntpd is not running`) makes the row
/// critical and is named among the stopped services, and the row is OK when
/// every status says ` is running`.
pub proof fn lemma_stopped_service_is_reported(services: Seq<Service>, ignored: nat, i: int)
    ensures
        0 <= i < services.len() && !contains_seq(services[i].status@, " is running"@) ==> {
            &&& services_row_spec(services, ignored).state == LocalState::Crit
            &&& stopped_spec(services).contains(services[i].description@)
            &&& services_row_spec(services, ignored).summary == "Services: "@ + join_seq(
                stopped_spec(services),
                ", "@,
            ) + " not running"@
        },
        (forall|j: int| 0 <= j < services.len() ==> contains_seq((#[trigger] services[j]).status@, " is running"@))
            ==> services_row_spec(services, ignored).state == LocalState::Okay,
{
    if 0 <= i < services.len() && !contains_seq(services[i].status@, " is running"@) {
        lemma_stopped_contains(services, i);
    }
    if forall|j: int| 0 <= j < services.len() ==> contains_seq((#[trigger] services[j]).status@, " is running"@) {
        lemma_none_stopped(services);
    }
}

pub fn write_services_result(out: &mut LocalSection, services: &Vec<Service>, ignored_services: usize)
    ensures
        final(out)@ == old(out)@.push(services_row_spec(services@, ignored_services as nat)),
{
    let mut stopped: Vec<Vec<char>> = Vec::new();
    let mut i: usize = 0;
    while i < services.len()
        invariant
            i <= services.len(),
            views(stopped@) == stopped_spec(services@.take(i as int)),
        decreases services.len() - i,
    {
        assert(services@.take(i + 1).drop_last() == services@.take(i as int));
        if !services[i].is_running() {
            let d = chars_of(services[i].description.as_str());
            proof {
                crate::text::lemma_views_push(stopped@, d);
            }
            stopped.push(d);
        }
        i = i + 1;
    }
    assert(services@.take(services.len() as int) == services@);
    proof {
        lemma_stopped_len(services@);
        reveal_strlit("0");
        assert(("0")@ =~= seq!['0']);
    }
    let ig = u64_to_string(ignored_services as u64);
    if stopped.len() == 0 {
        let n = u64_to_string(services.len() as u64);
        out.row(LocalState::Okay, "OPNsense Services", "All Services running").with_metric(
            "running_services",
            n.as_str(),
        ).with_metric("stopped_service", "0").with_metric("ignored_services", ig.as_str());
        assert(out@.last().metrics =~= services_row_spec(services@, ignored_services as nat).metrics);
    } else {
        let mut s = chars_of("Services: ");
        crate::text::append_chars(&mut s, join_chars(&stopped, ", ").as_slice());
        append_str(&mut s, " not running");
        let summary = string_of(s.as_slice());
        let running = u64_to_string((services.len() - stopped.len()) as u64);
        let st = u64_to_string(stopped.len() as u64);
        out.row(LocalState::Crit, "OPNsense Services", summary.as_str()).with_metric(
            "running_services",
            running.as_str(),
        ).with_metric("stopped_service", st.as_str()).with_metric(
            "ignored_services",
            ig.as_str(),
        );
        assert(out@.last().metrics =~= services_row_spec(services@, ignored_services as nat).metrics);
        assert(out@.last().summary =~= services_row_spec(services@, ignored_services as nat).summary);
    }
}

/// The services that are not ignored, in order.
pub open spec fn kept_services(ignored: Seq<Seq<char>>, services: Seq<Service>) -> Seq<Service>
    decreases services.len(),
{
    if services.len() == 0 {
        Seq::empty()
    } else {
        let rest = kept_services(ignored, services.drop_last());
        if is_ignored_spec(ignored, services.last().name@) {
            rest
        } else {
            rest.push(services.last())
        }
    }
}

proof fn lemma_kept_len(ignored: Seq<Seq<char>>, services: Seq<Service>)
    ensures
        kept_services(ignored, services).len() <= services.len(),
    decreases services.len(),
{
    if services.len() > 0 {
        lemma_kept_len(ignored, services.drop_last());
    }
}

/// The OPNsense services section, from what `configctl service list`
/// listed: nothing when every service is ignored, else the row for the
/// services that are not ignored, with the number of ignored ones.
pub open spec fn opnsense_services_spec(ignored: Seq<Seq<char>>, services: Seq<Service>) -> Seq<RowView> {
    let kept = kept_services(ignored, services);
    if kept.len() == 0 {
        Seq::empty()
    } else {
        seq![services_row_spec(kept, (services.len() - kept.len()) as nat)]
    }
}

pub fn opnsense_services_section(config: &Config, services: Vec<Service>) -> (r: LocalSection)
    ensures
        r@ == opnsense_services_spec(names(config.checks.services.ignored@), services@),
{
    let ghost ig = names(config.checks.services.ignored@);
    let ghost all = services@;
    let mut services = services;
    let mut kept: Vec<Service> = Vec::new();
    let mut ignored: usize = 0;
    let mut i: usize = 0;
    let n = services.len();
    while i < n
        invariant
            n == services.len() == all.len(),
            ig == names(config.checks.services.ignored@),
            i <= n,
            forall|j: int| i <= j < n ==> services@[j] == all[j],
            kept@ == kept_services(ig, all.take(i as int)),
            ignored + kept.len() == i,
        decreases n - i,
    {
        assert(all.take(i + 1).drop_last() == all.take(i as int));
        let mut s = Service { name: String::new(), description: String::new(), status: String::new() };
        std::mem::swap(&mut s, &mut services[i]);
        assert(s == all[i as int]);
        if is_ignored(config, s.name.as_str()) {
            ignored = ignored + 1;
        } else {
            kept.push(s);
        }
        i = i + 1;
    }
    assert(all.take(n as int) == all);
    let mut out = LocalSection::new();
    if kept.len() == 0 {
        return out;
    }
    write_services_result(&mut out, &kept, ignored);
    out
}

} // verus!

verus! {

/// A unit line of `systemctl list-units`.
pub struct SystemdService {
    pub unit: String,
    pub active: String,
    pub description: String,
}

pub struct SystemdView {
    pub unit: Seq<char>,
    pub active: Seq<char>,
    pub description: Seq<char>,
}

pub open spec fn systemd_view(s: SystemdService) -> SystemdView {
    SystemdView { unit: s.unit@, active: s.active@, description: s.description@ }
}

/// `s` without its leading blanks and `●` marks.
pub open spec fn trim_marks(s: Seq<char>) -> Seq<char>
    decreases s.len(),
{
    if s.len() > 0 && (s[0] == ' ' || s[0] == '●') {
        trim_marks(s.drop_first())
    } else {
        s
    }
}

/// A line of `systemctl list-units`: the unit, load state and active state
/// are its first three words, the description the words from the fifth on;
/// only loaded `.service` units count.
pub open spec fn parse_systemd_spec(line: Seq<char>) -> Option<SystemdView> {
    let w = words_seq(trim_marks(line));
    if w.len() < 3 || w[1] != "loaded"@ || !has_suffix(w[0], ".service"@) {
        None
    } else {
        Some(
            SystemdView {
                unit: w[0],
                active: w[2],
                description: if w.len() > 4 {
                    join_seq(w.skip(4), " "@)
                } else {
                    Seq::empty()
                },
            },
        )
    }
}

fn trim_marks_chars(s: &[char]) -> (r: Vec<char>)
    ensures
        r@ == trim_marks(s@),
{
    let mut a: usize = 0;
    assert(s@.skip(0) == s@);
    while a < s.len() && (s[a] == ' ' || s[a] == '●')
        invariant
            a <= s.len(),
            trim_marks(s@) == trim_marks(s@.skip(a as int)),
        decreases s.len() - a,
    {
        assert(s@.skip(a as int).drop_first() == s@.skip(a + 1));
        a = a + 1;
    }
    assert(s@.skip(a as int) == s@.subrange(a as int, s@.len() as int));
    let r = sub_chars(s, a, s.len());
    proof {
        let t = s@.skip(a as int);
        assert(!(t.len() > 0 && (t[0] == ' ' || t[0] == '●')));
    }
    r
}

pub fn parse_systemd_service(line: &[char]) -> (r: Option<SystemdService>)
    ensures
        r matches Some(s) ==> parse_systemd_spec(line@) == Some(systemd_view(s)),
        r is None ==> parse_systemd_spec(line@) is None,
{
    let t = trim_marks_chars(line);
    let fields = words_of(t.as_slice());
    if fields.len() < 3 {
        return None;
    }
    proof {
        assert(views(fields@)[0] == fields@[0]@);
        assert(views(fields@)[1] == fields@[1]@);
        assert(views(fields@)[2] == fields@[2]@);
    }
    if !eq_str(fields[1].as_slice(), "loaded") || !ends_with_str(fields[0].as_slice(), ".service") {
        return None;
    }
    let description: Vec<char> = if fields.len() > 4 {
        let mut rest: Vec<Vec<char>> = Vec::new();
        let mut i: usize = 4;
        while i < fields.len()
            invariant
                4 <= i <= fields.len(),
                views(rest@) == views(fields@).subrange(4, i as int),
            decreases fields.len() - i,
        {
            proof {
                crate::text::lemma_views_push(rest@, fields@[i as int]);
                assert(views(fields@).subrange(4, i + 1) =~= views(fields@).subrange(4, i as int).push(
                    fields@[i as int]@,
                ));
            }
            rest.push(fields[i].clone());
            i = i + 1;
        }
        assert(views(fields@).subrange(4, fields.len() as int) == views(fields@).skip(4));
        join_chars(&rest, " ")
    } else {
        Vec::new()
    };
    Some(
        SystemdService {
            unit: string_of(fields[0].as_slice()),
            active: string_of(fields[2].as_slice()),
            description: string_of(description.as_slice()),
        },
    )
}

/// The units that have been read, the services among them that are not
/// ignored, and how many were ignored.
pub open spec fn systemd_scan(ignored: Seq<Seq<char>>, lines: Seq<Seq<char>>) -> (Seq<SystemdView>, nat)
    decreases lines.len(),
{
    if lines.len() == 0 {
        (Seq::empty(), 0)
    } else {
        let (kept, n) = systemd_scan(ignored, lines.drop_last());
        match parse_systemd_spec(lines.last()) {
            Some(s) => if is_ignored_spec(ignored, s.unit) || is_ignored_spec(ignored, s.description) {
                (kept, n + 1)
            } else {
                (kept.push(s), n)
            },
            None => (kept, n),
        }
    }
}

pub open spec fn is_failed(s: SystemdView) -> bool {
    s.active == "failed"@
}

pub open spec fn is_changing(s: SystemdView) -> bool {
    s.active == "activating"@ || s.active == "deactivating"@
}

/// The units of the services for which `p` holds, in order.
pub open spec fn units_where(services: Seq<SystemdView>, failed: bool) -> Seq<Seq<char>>
    decreases services.len(),
{
    if services.len() == 0 {
        Seq::empty()
    } else {
        let rest = units_where(services.drop_last(), failed);
        let s = services.last();
        if (failed && is_failed(s)) || (!failed && is_changing(s)) {
            rest.push(s.unit)
        } else {
            rest
        }
    }
}

/// At most eight unit names joined by `, `, with `...` after them when
/// there are more.
pub open spec fn linux_summary_spec(units: Seq<Seq<char>>) -> Seq<char> {
    if units.len() > 8 {
        join_seq(units.take(8).push("..."@), ", "@)
    } else {
        join_seq(units, ", "@)
    }
}

pub fn linux_service_summary(units: &Vec<Vec<char>>) -> (r: Vec<char>)
    ensures
        r@ == linux_summary_spec(views(units@)),
{
    let mut names: Vec<Vec<char>> = Vec::new();
    let mut i: usize = 0;
    while i < units.len() && i < 8
        invariant
            i <= units.len(),
            i <= 8,
            views(names@) == views(units@).take(i as int),
        decreases units.len() - i,
    {
        proof {
            crate::text::lemma_views_push(names@, units@[i as int]);
            assert(views(units@).take(i + 1) =~= views(units@).take(i as int).push(units@[i as int]@));
        }
        names.push(units[i].clone());
        i = i + 1;
    }
    if units.len() > 8 {
        let dots = chars_of("...");
        proof {
            crate::text::lemma_views_push(names@, dots);
        }
        names.push(dots);
    } else {
        assert(views(units@).take(units.len() as int) == views(units@));
    }
    join_chars(&names, ", ")
}

pub open spec fn linux_row_spec(kept: Seq<SystemdView>, ignored: nat) -> RowView {
    let failed = units_where(kept, true);
    let changing = units_where(kept, false);
    if failed.len() > 0 {
        RowView {
            state: LocalState::Crit,
            service: "Linux Services"@,
            metrics: seq![
                ("failed_services"@, decimal(failed.len())),
                ("changing_services"@, decimal(changing.len())),
                ("ignored_services"@, decimal(ignored)),
            ],
            summary: "Failed services: "@ + linux_summary_spec(failed),
        }
    } else if changing.len() > 0 {
        RowView {
            state: LocalState::Warn,
            service: "Linux Services"@,
            metrics: seq![
                ("failed_services"@, seq!['0']),
                ("changing_services"@, decimal(changing.len())),
                ("ignored_services"@, decimal(ignored)),
            ],
            summary: "Changing services: "@ + linux_summary_spec(changing),
        }
    } else {
        RowView {
            state: LocalState::Okay,
            service: "Linux Services"@,
            metrics: seq![
                ("failed_services"@, seq!['0']),
                ("changing_services"@, seq!['0']),
                ("ignored_services"@, decimal(ignored)),
            ],
            summary: "No failed services"@,
        }
    }
}

/// The Linux services section from the output of `systemctl list-units`:
/// nothing when the output is blank, else one row (see `linux_row_spec`).
pub open spec fn linux_services_spec(ignored: Seq<Seq<char>>, output: Seq<char>) -> Seq<RowView> {
    if trim_seq(output).len() == 0 {
        Seq::empty()
    } else {
        let (kept, n) = systemd_scan(ignored, lines_seq(output));
        seq![linux_row_spec(kept, n)]
    }
}

proof fn lemma_units_where_len(services: Seq<SystemdView>, failed: bool)
    ensures
        units_where(services, failed).len() <= services.len(),
    decreases services.len(),
{
    if services.len() > 0 {
        lemma_units_where_len(services.drop_last(), failed);
    }
}

proof fn lemma_scan_len(ignored: Seq<Seq<char>>, lines: Seq<Seq<char>>)
    ensures
        systemd_scan(ignored, lines).0.len() + systemd_scan(ignored, lines).1 <= lines.len(),
    decreases lines.len(),
{
    if lines.len() > 0 {
        lemma_scan_len(ignored, lines.drop_last());
    }
}

pub fn linux_services_section(config: &Config, output: &str) -> (r: LocalSection)
    ensures
        r@ == linux_services_spec(names(config.checks.services.ignored@), output@),
{
    let ghost ig = names(config.checks.services.ignored@);
    let mut out = LocalSection::new();
    let o = chars_of(output);
    if is_blank(o.as_slice()) {
        return out;
    }
    let lines = lines_of(o.as_slice());
    let ghost lv = views(lines@);
    let mut kept: Vec<SystemdService> = Vec::new();
    let mut ignored: usize = 0;
    let mut i: usize = 0;
    while i < lines.len()
        invariant
            i <= lines.len(),
            lv == views(lines@),
            ig == names(config.checks.services.ignored@),
            kept@.map_values(|s: SystemdService| systemd_view(s)) == systemd_scan(ig, lv.take(i as int)).0,
            ignored as nat == systemd_scan(ig, lv.take(i as int)).1,
            ignored + kept.len() <= i,
        decreases lines.len() - i,
    {
        assert(lv.take(i + 1).drop_last() == lv.take(i as int));
        proof {
            lemma_scan_len(ig, lv.take(i as int));
        }
        match parse_systemd_service(lines[i].as_slice()) {
            Some(s) => {
                if is_ignored(config, s.unit.as_str()) || is_ignored(config, s.description.as_str()) {
                    ignored = ignored + 1;
                } else {
                    proof {
                        assert(kept@.push(s).map_values(|s: SystemdService| systemd_view(s))
                            =~= kept@.map_values(|s: SystemdService| systemd_view(s)).push(
                            systemd_view(s),
                        ));
                    }
                    kept.push(s);
                }
            },
            None => {},
        }
        i = i + 1;
    }
    assert(lv.take(lines.len() as int) == lv);
    let ghost kv = kept@.map_values(|s: SystemdService| systemd_view(s));
    let mut failed: Vec<Vec<char>> = Vec::new();
    let mut changing: Vec<Vec<char>> = Vec::new();
    let mut j: usize = 0;
    while j < kept.len()
        invariant
            j <= kept.len(),
            kv == kept@.map_values(|s: SystemdService| systemd_view(s)),
            views(failed@) == units_where(kv.take(j as int), true),
            views(changing@) == units_where(kv.take(j as int), false),
        decreases kept.len() - j,
    {
        assert(kv.take(j + 1).drop_last() == kv.take(j as int));
        assert(kv[j as int] == systemd_view(kept@[j as int]));
        let a = chars_of(kept[j].active.as_str());
        let u = chars_of(kept[j].unit.as_str());
        proof {
            reveal_strlit("failed");
            reveal_strlit("activating");
            reveal_strlit("deactivating");
        }
        if eq_str(a.as_slice(), "failed") {
            proof {
                crate::text::lemma_views_push(failed@, u);
                assert(("failed")@.len() == 6);
                assert(("activating")@.len() == 10);
                assert(("deactivating")@.len() == 12);
                assert(!is_changing(kv[j as int]));
            }
            failed.push(u);
        } else if eq_str(a.as_slice(), "activating") || eq_str(a.as_slice(), "deactivating") {
            proof {
                crate::text::lemma_views_push(changing@, u);
            }
            changing.push(u);
        }
        j = j + 1;
    }
    assert(kv.take(kept.len() as int) == kv);
    proof {
        lemma_units_where_len(kv, true);
        lemma_units_where_len(kv, false);
        reveal_strlit("0");
        assert(("0")@ =~= seq!['0']);
    }
    let ig_s = u64_to_string(ignored as u64);
    if failed.len() > 0 {
        let mut s = chars_of("Failed services: ");
        crate::text::append_chars(&mut s, linux_service_summary(&failed).as_slice());
        let summary = string_of(s.as_slice());
        let f = u64_to_string(failed.len() as u64);
        let c = u64_to_string(changing.len() as u64);
        out.row(LocalState::Crit, "Linux Services", summary.as_str()).with_metric(
            "failed_services",
            f.as_str(),
        ).with_metric("changing_services", c.as_str()).with_metric(
            "ignored_services",
            ig_s.as_str(),
        );
        assert(out@[0].metrics =~= linux_row_spec(kv, ignored as nat).metrics);
        assert(out@[0].summary =~= linux_row_spec(kv, ignored as nat).summary);
    } else if changing.len() > 0 {
        let mut s = chars_of("Changing services: ");
        crate::text::append_chars(&mut s, linux_service_summary(&changing).as_slice());
        let summary = string_of(s.as_slice());
        let c = u64_to_string(changing.len() as u64);
        out.row(LocalState::Warn, "Linux Services", summary.as_str()).with_metric(
            "failed_services",
            "0",
        ).with_metric("changing_services", c.as_str()).with_metric(
            "ignored_services",
            ig_s.as_str(),
        );
        assert(out@[0].metrics =~= linux_row_spec(kv, ignored as nat).metrics);
        assert(out@[0].summary =~= linux_row_spec(kv, ignored as nat).summary);
    } else {
        out.row(LocalState::Okay, "Linux Services", "No failed services").with_metric(
            "failed_services",
            "0",
        ).with_metric("changing_services", "0").with_metric("ignored_services", ig_s.as_str());
        assert(out@[0].metrics =~= linux_row_spec(kv, ignored as nat).metrics);
    }
    assert(out@ =~= linux_services_spec(ig, output@));
    out
}

} // verus!
