//! The plugin configuration and its defaults.
use vstd::prelude::*;

use crate::platform::{OPNSenseX64, Platform};
use crate::text::{append_str, chars_of, string_of};

verus! {

/// `dir` joined with `name` as `Path::join` does: an absolute `name`
/// replaces `dir`, else a `/` separates them unless `dir` is empty or ends
/// in one.
pub open spec fn path_join_spec(dir: Seq<char>, name: Seq<char>) -> Seq<char> {
    if name.len() > 0 && name[0] == '/' {
        name
    } else if dir.len() == 0 || dir.last() == '/' {
        dir + name
    } else {
        dir + seq!['/'] + name
    }
}

pub fn path_join(dir: &str, name: &str) -> (r: String)
    ensures
        r@ == path_join_spec(dir@, name@),
{
    let n = chars_of(name);
    if n.len() > 0 && n[0] == '/' {
        return string_of(n.as_slice());
    }
    let mut d = chars_of(dir);
    if !(d.len() == 0 || d[d.len() - 1] == '/') {
        d.push('/');
    }
    append_str(&mut d, name);
    string_of(d.as_slice())
}

pub struct Config {
    pub checks: Checks,
    pub scripts: Scripts,
    pub security: Security,
    pub updates: Updates,
}

pub struct Checks {
    /// Names of checks not to run (a set: sorted, no name twice).
    pub skip: Vec<String>,
    pub nginx: Nginx,
    pub services: Services,
    pub wireguard: Wireguard,
    pub suricata: Suricata,
}

pub struct Services {
    /// Parts of service names to leave out (a set).
    pub ignored: Vec<String>,
}

pub struct Nginx {
    pub status_socket: String,
    pub status_urls: Vec<String>,
}

pub struct Wireguard {
    pub stale_warn_seconds: u64,
    pub stale_crit_seconds: u64,
}

pub struct Suricata {
    pub log_path: String,
    pub state_path: String,
    pub max_summary_events: usize,
    pub include_allowed_in_summary: bool,
    pub initialize_from_end: bool,
}

pub struct Scripts {
    /// Names of the bundled scripts to run (a set).
    pub enabled: Vec<String>,
}

pub struct Security {
    pub plugin_timeout_seconds: u64,
    pub command_timeout_seconds: u64,
}

/// Nanoseconds in an hour.
pub const NANOS_PER_HOUR: i128 = 3_600_000_000_000i128;

/// How far from zero, in nanoseconds, the update times and the interval
/// may lie: beyond any time or duration that the configuration file holds.
pub const UPDATE_TIME_LIMIT: i128 = 1_000_000_000_000_000_000_000_000_000_000i128;

/// The auto-update settings. Times are nanoseconds since the Unix epoch.
pub struct Updates {
    pub enabled: bool,
    /// How long after a check the next one is due, in nanoseconds.
    pub interval_nanos: i128,
    /// When releases were last looked for, if ever.
    pub last_checked_nanos: Option<i128>,
}

impl Updates {
    /// The times and the interval lie within `UPDATE_TIME_LIMIT` of zero.
    pub open spec fn in_range(self) -> bool {
        &&& -UPDATE_TIME_LIMIT <= self.interval_nanos <= UPDATE_TIME_LIMIT
        &&& self.last_checked_nanos matches Some(t) ==> -UPDATE_TIME_LIMIT <= t <= UPDATE_TIME_LIMIT
    }

    /// When the next check is due, asked at `now`: never while updates are
    /// off, at once when there was no check yet, else one interval after the
    /// last one.
    pub open spec fn next_check_at(self, now: int) -> Option<int> {
        if !self.enabled {
            None
        } else {
            match self.last_checked_nanos {
                Some(t) => Some(t + self.interval_nanos),
                None => Some(now),
            }
        }
    }

    /// Whether a check is due at `now`.
    pub open spec fn due_at(self, now: int) -> bool {
        match self.next_check_at(now) {
            Some(next) => now >= next,
            None => false,
        }
    }

    pub fn next_check(&self, now: i128) -> (r: Option<i128>)
        requires
            self.in_range(),
        ensures
            match r {
                Some(next) => self.next_check_at(now as int) == Some(next as int),
                None => self.next_check_at(now as int) is None,
            },
    {
        if !self.enabled {
            return None;
        }
        match self.last_checked_nanos {
            Some(t) => Some(t + self.interval_nanos),
            None => Some(now),
        }
    }

    pub fn is_due(&self, now: i128) -> (r: bool)
        requires
            self.in_range(),
        ensures
            r == self.due_at(now as int),
    {
        match self.next_check(now) {
            Some(next) => now >= next,
            None => false,
        }
    }
}

impl Default for Updates {
    /// Off, every six hours, never checked.
    fn default() -> (r: Self)
        ensures
            is_default_updates(r),
            r.in_range(),
    {
        Updates { enabled: false, interval_nanos: 6 * NANOS_PER_HOUR, last_checked_nanos: None }
    }
}

/// Releases are looked for at most once per interval: after a check at
/// `last`, a check is due at `now` exactly when updates are on and a whole
/// interval has passed.
pub proof fn lemma_update_check_gated(u: Updates, now: int)
    requires
        u.last_checked_nanos is Some,
    ensures
        u.due_at(now) <==> (u.enabled && now >= u.last_checked_nanos->0 + u.interval_nanos),
{
}

/// With updates on and no check recorded yet, a check is due at once; with
/// updates off, never.
pub proof fn lemma_first_check_due(u: Updates, now: int)
    ensures
        u.last_checked_nanos is None ==> (u.due_at(now) <==> u.enabled),
        !u.enabled ==> !u.due_at(now),
{
}

pub open spec fn names(v: Seq<String>) -> Seq<Seq<char>> {
    v.map_values(|s: String| s@)
}

/// Whether `name` is one of `v`.
pub fn contains_name(v: &Vec<String>, name: &str) -> (r: bool)
    ensures
        r == names(v@).contains(name@),
{
    let mut i: usize = 0;
    while i < v.len()
        invariant
            i <= v.len(),
            forall|j: int| 0 <= j < i ==> names(v@)[j] != name@,
        decreases v.len() - i,
    {
        if crate::text::eq_str(chars_of(v[i].as_str()).as_slice(), name) {
            assert(names(v@)[i as int] == name@);
            return true;
        }
        i = i + 1;
    }
    false
}

/// The status URLs tried by default, in order.
pub open spec fn default_status_urls() -> Seq<Seq<char>> {
    seq![
        "http://127.0.0.1/nginx_status"@,
        "http://127.0.0.1/status"@,
        "http://127.0.0.1/vts"@,
    ]
}

pub open spec fn is_default_nginx(n: Nginx) -> bool {
    &&& n.status_socket@ == "/var/run/nginx_status.sock"@
    &&& names(n.status_urls@) == default_status_urls()
}

/// The Suricata defaults, with the cursor in `state_dir`.
pub open spec fn is_default_suricata(s: Suricata, state_dir: Seq<char>) -> bool {
    &&& s.log_path@ == "/var/log/suricata/eve.json"@
    &&& s.state_path@ == path_join_spec(state_dir, "suricata-state.json"@)
    &&& s.max_summary_events == 5
    &&& s.include_allowed_in_summary
    &&& s.initialize_from_end
}

/// The check defaults: nothing skipped, `iperf` ignored, stale WireGuard
/// peers warned of after 300 s and critical after 900 s.
pub open spec fn is_default_checks(c: Checks, state_dir: Seq<char>) -> bool {
    &&& c.skip@.len() == 0
    &&& names(c.services.ignored@) == seq!["iperf"@]
    &&& is_default_nginx(c.nginx)
    &&& c.wireguard.stale_warn_seconds == 300
    &&& c.wireguard.stale_crit_seconds == 900
    &&& is_default_suricata(c.suricata, state_dir)
}

/// Auto-updates off, every six hours, never checked.
pub open spec fn is_default_updates(u: Updates) -> bool {
    &&& !u.enabled
    &&& u.interval_nanos == 6 * NANOS_PER_HOUR
    &&& u.last_checked_nanos is None
}

/// The whole default configuration for a platform whose state lives in
/// `state_dir`.
pub open spec fn is_default_config(c: Config, state_dir: Seq<char>) -> bool {
    &&& is_default_checks(c.checks, state_dir)
    &&& c.scripts.enabled@.len() == 0
    &&& c.security.plugin_timeout_seconds == 60
    &&& c.security.command_timeout_seconds == 30
    &&& is_default_updates(c.updates)
}

impl Default for Services {
    fn default() -> (r: Self)
        ensures
            names(r.ignored@) == seq!["iperf"@],
    {
        let r = Services { ignored: vec!["iperf".to_owned()] };
        assert(names(r.ignored@) =~= seq!["iperf"@]);
        r
    }
}

impl Default for Nginx {
    fn default() -> (r: Self)
        ensures
            is_default_nginx(r),
    {
        let r = Nginx {
            status_socket: "/var/run/nginx_status.sock".to_owned(),
            status_urls: vec![
                "http://127.0.0.1/nginx_status".to_owned(),
                "http://127.0.0.1/status".to_owned(),
                "http://127.0.0.1/vts".to_owned(),
            ],
        };
        assert(names(r.status_urls@) =~= default_status_urls());
        r
    }
}

impl Default for Wireguard {
    fn default() -> (r: Self)
        ensures
            r.stale_warn_seconds == 300,
            r.stale_crit_seconds == 900,
    {
        Wireguard { stale_warn_seconds: 300, stale_crit_seconds: 900 }
    }
}

impl Suricata {
    /// The defaults, with the cursor kept in the platform's state directory.
    pub fn default_for<P: Platform>() -> (r: Self)
        ensures
            is_default_suricata(r, P::state_dir_spec()),
    {
        Suricata {
            log_path: "/var/log/suricata/eve.json".to_owned(),
            state_path: path_join(P::state_dir(), "suricata-state.json"),
            max_summary_events: 5,
            include_allowed_in_summary: true,
            initialize_from_end: true,
        }
    }
}

impl Default for Suricata {
    /// The defaults on OPNsense, where the Suricata check runs.
    fn default() -> (r: Self)
        ensures
            is_default_suricata(r, OPNSenseX64::state_dir_spec()),
    {
        Self::default_for::<OPNSenseX64>()
    }
}

impl Default for Security {
    fn default() -> (r: Self)
        ensures
            r.plugin_timeout_seconds == 60,
            r.command_timeout_seconds == 30,
    {
        Security { plugin_timeout_seconds: 60, command_timeout_seconds: 30 }
    }
}

impl Default for Scripts {
    fn default() -> (r: Self)
        ensures
            r.enabled@.len() == 0,
    {
        Scripts { enabled: Vec::new() }
    }
}

impl Checks {
    pub fn default_for<P: Platform>() -> (r: Self)
        ensures
            is_default_checks(r, P::state_dir_spec()),
    {
        Checks {
            skip: Vec::new(),
            nginx: Nginx::default(),
            services: Services::default(),
            wireguard: Wireguard::default(),
            suricata: Suricata::default_for::<P>(),
        }
    }
}

impl Default for Checks {
    /// The defaults on OPNsense.
    fn default() -> (r: Self)
        ensures
            is_default_checks(r, OPNSenseX64::state_dir_spec()),
    {
        Self::default_for::<OPNSenseX64>()
    }
}

impl Config {
    pub fn default_for<P: Platform>() -> (r: Self)
        ensures
            is_default_config(r, P::state_dir_spec()),
    {
        Config {
            checks: Checks::default_for::<P>(),
            scripts: Scripts::default(),
            security: Security::default(),
            updates: Updates::default(),
        }
    }

    /// Whether the check `name` is to run (it is not in `checks.skip`).
    pub fn check_enabled(&self, name: &str) -> (r: bool)
        ensures
            r == !names(self.checks.skip@).contains(name@),
    {
        !contains_name(&self.checks.skip, name)
    }
}

impl Default for Config {
    /// The defaults on OPNsense.
    fn default() -> (r: Self)
        ensures
            is_default_config(r, OPNSenseX64::state_dir_spec()),
    {
        Self::default_for::<OPNSenseX64>()
    }
}

} // verus!
