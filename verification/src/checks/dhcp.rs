//! ISC DHCP: the daemon's pid and the addresses of the active leases.
use vstd::prelude::*;

use crate::agent::output::{AgentOutput, section_line, string_views};
use crate::pattern::{named_group_matches, regex_named_matches};
use crate::sorted::{sorted_unique, strictly_sorted};
use crate::text::{append_chars, chars_of, decimal_i64, signed_decimal, string_of};

verus! {

/// A lease block of `dhcpd.leases` whose binding state is active, its address
/// in the group `ip`.
pub const LEASE_PATTERN: &'static str = "lease\\s+(?P<ip>[0-9.]+)\\s+\\{(?s:.*?)binding state active";

/// The DHCP lease check.
pub struct Dhcp;

impl Dhcp {
    pub fn name(&self) -> (r: &'static str)
        ensures
            r@ == "dhcp"@,
    {
        "dhcp"
    }
}

/// The entries that are present, in order.
pub open spec fn present(ms: Seq<Option<Seq<char>>>) -> Seq<Seq<char>>
    decreases ms.len(),
{
    if ms.len() == 0 {
        Seq::empty()
    } else {
        match ms.last() {
            Some(s) => present(ms.drop_last()).push(s),
            None => present(ms.drop_last()),
        }
    }
}

/// The addresses that the lease matches `matches` found, sorted and each
/// once (a match without the address group counts for nothing).
pub fn lease_ips_of_matches(matches: &Vec<Option<String>>) -> (r: Vec<String>)
    ensures
        strictly_sorted(string_views(r@)),
        string_views(r@).to_set() == present(crate::pattern::group_views(matches@)).to_set(),
{
    let ghost mv = crate::pattern::group_views(matches@);
    let mut ips: Vec<String> = Vec::new();
    let mut i: usize = 0;
    while i < matches.len()
        invariant
            i <= matches.len(),
            mv == crate::pattern::group_views(matches@),
            string_views(ips@) == present(mv.take(i as int)),
        decreases matches.len() - i,
    {
        assert(mv.take(i + 1).drop_last() =~= mv.take(i as int));
        match &matches[i] {
            Some(s) => {
                ips.push(s.clone());
                assert(string_views(ips@) =~= present(mv.take(i as int)).push(s@));
            },
            None => {},
        }
        i = i + 1;
    }
    assert(mv.take(matches.len() as int) =~= mv);
    sorted_unique(&ips)
}

/// The addresses of the active leases in `leases`, sorted and each once;
/// none when the lease pattern does not compile.
pub fn lease_ips(leases: &str) -> (r: Option<Vec<String>>)
    ensures
        match regex_named_matches(LEASE_PATTERN@, leases@, "ip"@) {
            None => r is None,
            Some(ms) => r matches Some(ips) && strictly_sorted(string_views(ips@))
                && string_views(ips@).to_set() == present(ms).to_set(),
        },
{
    match named_group_matches(LEASE_PATTERN, leases, "ip") {
        None => None,
        Some(ms) => Some(lease_ips_of_matches(&ms)),
    }
}

/// `[general]\nPID: pid`.
pub open spec fn pid_line(pid: int) -> Seq<char> {
    "[general]\nPID: "@ + signed_decimal(pid)
}

/// Writes the `isc_dhcpd` section: the daemon's pid (-1 when it is not
/// running), then the active lease addresses, sorted and each once.
pub fn write_leases(out: &mut AgentOutput, pid: i64, leases: &str)
    ensures
        final(out)@.take(old(out)@.len() + 3 as int) == old(out)@ + seq![
            section_line("isc_dhcpd"@),
            pid_line(pid as int),
            "[leases]"@,
        ],
        match regex_named_matches(LEASE_PATTERN@, leases@, "ip"@) {
            None => final(out)@.len() == old(out)@.len() + 3,
            Some(ms) => strictly_sorted(final(out)@.skip(old(out)@.len() + 3 as int))
                && final(out)@.skip(old(out)@.len() + 3 as int).to_set() == present(ms).to_set(),
        },
{
    let ghost n = out@.len();
    out.section("isc_dhcpd");
    let mut l = chars_of("[general]\nPID: ");
    let p = decimal_i64(pid);
    append_chars(&mut l, p.as_slice());
    out.line(string_of(l.as_slice()));
    out.line("[leases]".to_string());
    let ghost head = out@;
    assert(head =~= old(out)@ + seq![
        section_line("isc_dhcpd"@),
        pid_line(pid as int),
        "[leases]"@,
    ]);
    match lease_ips(leases) {
        None => {
            assert(out@.take(n + 3 as int) =~= head);
        },
        Some(ips) => {
            let ghost iv = string_views(ips@);
            out.extend(ips);
            assert(out@.take(n + 3 as int) =~= head);
            assert(out@.skip(n + 3 as int) =~= iv);
        },
    }
}

} // verus!
