//! The package audit check: what `pkg audit` reports about vulnerable
//! packages, summarised in one row.
use vstd::prelude::*;

use crate::plugin::output::{LocalSection, LocalState, RowView};
use crate::text::{
    append_chars, append_str, chars_of, decimal, decimal_u64, is_blank, join_chars, join_seq,
    string_of, trim_chars, trim_seq, u64_to_string, views,
};

verus! {

/// The package audit check.
pub struct PkgAudit;

impl PkgAudit {
    pub fn name(&self) -> (r: &'static str)
        ensures
            r@ == "pkgaudit"@,
    {
        "pkgaudit"
    }
}

pub struct PkgAuditIssue {
    pub cve: Vec<String>,
    pub description: Option<String>,
}

pub struct PkgAuditPackage {
    pub version: String,
    pub issue_count: usize,
    pub issues: Vec<PkgAuditIssue>,
}

/// The audit report; `packages` is ordered by name, each name once.
pub struct PkgAuditResponse {
    pub pkg_count: usize,
    pub packages: Vec<(String, PkgAuditPackage)>,
}

pub open spec fn service_name() -> Seq<char> {
    "OPNsense Package Audit"@
}

pub open spec fn max(a: nat, b: nat) -> nat {
    if a >= b {
        a
    } else {
        b
    }
}

/// The CVEs of the issues, in order.
pub open spec fn all_cves(issues: Seq<PkgAuditIssue>) -> Seq<Seq<char>>
    decreases issues.len(),
{
    if issues.len() == 0 {
        Seq::empty()
    } else {
        all_cves(issues.drop_last()) + issues.last().cve@.map_values(|c: String| c@)
    }
}

pub open spec fn package_issue_count(p: PkgAuditPackage) -> nat {
    max(p.issue_count as nat, p.issues@.len())
}

/// The issues of all packages.
pub open spec fn issue_total(packages: Seq<(String, PkgAuditPackage)>) -> nat
    decreases packages.len(),
{
    if packages.len() == 0 {
        0
    } else {
        issue_total(packages.drop_last()) + package_issue_count(packages.last().1)
    }
}

pub open spec fn response_package_count(a: PkgAuditResponse) -> nat {
    max(a.pkg_count as nat, a.packages@.len())
}

/// `name version (details)`: the details are up to three CVEs (with `+n`
/// for the ones left out), or without CVEs the first issue's description.
pub open spec fn package_summary_spec(p: PkgAuditPackage, name: Seq<char>) -> Seq<char> {
    let cves = all_cves(p.issues@);
    let details = if cves.len() == 0 {
        if p.issues@.len() > 0 && p.issues@[0].description is Some {
            p.issues@[0].description.unwrap()@
        } else {
            "unknown issue"@
        }
    } else if cves.len() <= 3 {
        join_seq(cves, ", "@)
    } else {
        join_seq(cves.take(3), ", "@) + " +"@ + decimal((cves.len() - 3) as nat)
    };
    name + " "@ + p.version@ + " ("@ + details + ")"@
}

/// The summaries of the first five packages (then `and n more`), or the
/// package count when there are no packages.
pub open spec fn response_summary_spec(a: PkgAuditResponse) -> Seq<char> {
    let ps = a.packages@;
    let shown = if ps.len() > 5 {
        ps.take(5)
    } else {
        ps
    };
    let parts = shown.map_values(|e: (String, PkgAuditPackage)| package_summary_spec(e.1, e.0@));
    let parts = if ps.len() > 5 {
        parts.push("and "@ + decimal((ps.len() - 5) as nat) + " more"@)
    } else {
        parts
    };
    if parts.len() == 0 {
        decimal(response_package_count(a)) + " package(s)"@
    } else {
        join_seq(parts, ", "@)
    }
}

impl PkgAuditPackage {
    pub fn issue_count(&self) -> (r: usize)
        ensures
            r == package_issue_count(*self),
    {
        if self.issue_count >= self.issues.len() {
            self.issue_count
        } else {
            self.issues.len()
        }
    }

    pub fn summary(&self, name: &str) -> (r: String)
        requires
            all_cves(self.issues@).len() <= usize::MAX,
        ensures
            r@ == package_summary_spec(*self, name@),
    {
        let mut cves: Vec<Vec<char>> = Vec::new();
        let mut i: usize = 0;
        while i < self.issues.len()
            invariant
                i <= self.issues.len(),
                views(cves@) == all_cves(self.issues@.take(i as int)),
            decreases self.issues.len() - i,
        {
            assert(self.issues@.take(i + 1).drop_last() == self.issues@.take(i as int));
            let issue = &self.issues[i];
            let ghost before = cves@;
            let mut j: usize = 0;
            while j < issue.cve.len()
                invariant
                    j <= issue.cve.len(),
                    views(cves@) == views(before) + issue.cve@.take(j as int).map_values(
                        |c: String| c@,
                    ),
                decreases issue.cve.len() - j,
            {
                let c = chars_of(issue.cve[j].as_str());
                proof {
                    crate::text::lemma_views_push(cves@, c);
                    assert(issue.cve@.take(j + 1).map_values(|c: String| c@) =~= issue.cve@.take(
                        j as int,
                    ).map_values(|c: String| c@).push(c@));
                }
                cves.push(c);
                j = j + 1;
            }
            assert(issue.cve@.take(issue.cve.len() as int) == issue.cve@);
            assert(views(cves@) =~= all_cves(self.issues@.take(i + 1)));
            i = i + 1;
        }
        assert(self.issues@.take(self.issues.len() as int) == self.issues@);
        let details: Vec<char> = if cves.len() == 0 {
            if self.issues.len() > 0 {
                match &self.issues[0].description {
                    Some(d) => chars_of(d.as_str()),
                    None => chars_of("unknown issue"),
                }
            } else {
                chars_of("unknown issue")
            }
        } else if cves.len() <= 3 {
            join_chars(&cves, ", ")
        } else {
            let mut first: Vec<Vec<char>> = Vec::new();
            let mut k: usize = 0;
            while k < 3
                invariant
                    k <= 3 < cves.len(),
                    views(first@) == views(cves@).take(k as int),
                decreases 3 - k,
            {
                proof {
                    crate::text::lemma_views_push(first@, cves@[k as int]);
                    assert(views(cves@).take(k + 1) =~= views(cves@).take(k as int).push(
                        cves@[k as int]@,
                    ));
                }
                first.push(cves[k].clone());
                k = k + 1;
            }
            let mut d = join_chars(&first, ", ");
            append_str(&mut d, " +");
            append_chars(&mut d, decimal_u64((cves.len() - 3) as u64).as_slice());
            d
        };
        let mut out = chars_of(name);
        out.push(' ');
        append_str(&mut out, self.version.as_str());
        append_str(&mut out, " (");
        append_chars(&mut out, details.as_slice());
        out.push(')');
        proof {
            reveal_strlit(" ");
            reveal_strlit(")");
            assert((" ")@ =~= seq![' ']);
            assert((")")@ =~= seq![')']);
            assert(out@ =~= package_summary_spec(*self, name@));
        }
        string_of(out.as_slice())
    }
}

/// A package's summary shows at most three CVEs and then counts exactly the
/// ones left out: with `n > 3` CVEs in all, it names the first three and
/// ends in ` +k)` where the three shown and the `k` left out make `n`; with
/// one to three, it names them all.
pub proof fn lemma_summary_counts_left_out_cves(p: PkgAuditPackage, name: Seq<char>)
    ensures
        all_cves(p.issues@).len() > 3 ==> exists|k: nat|
            k + 3 == all_cves(p.issues@).len() && package_summary_spec(p, name) == name + " "@
                + p.version@ + " ("@ + join_seq(all_cves(p.issues@).take(3), ", "@) + " +"@
                + #[trigger] decimal(k) + ")"@,
        1 <= all_cves(p.issues@).len() <= 3 ==> package_summary_spec(p, name) == name + " "@
            + p.version@ + " ("@ + join_seq(all_cves(p.issues@), ", "@) + ")"@,
{
    let n = all_cves(p.issues@).len();
    if n > 3 {
        let k = (n - 3) as nat;
        assert(k + 3 == n);
        assert(package_summary_spec(p, name) == name + " "@ + p.version@ + " ("@ + join_seq(
            all_cves(p.issues@).take(3),
            ", "@,
        ) + " +"@ + decimal(k) + ")"@);
    }
}

proof fn lemma_issue_total_prefix(packages: Seq<(String, PkgAuditPackage)>, i: int)
    requires
        0 <= i <= packages.len(),
    ensures
        issue_total(packages.take(i)) <= issue_total(packages),
    decreases packages.len() - i,
{
    if i < packages.len() {
        lemma_issue_total_prefix(packages, i + 1);
        assert(packages.take(i + 1).drop_last() == packages.take(i));
    } else {
        assert(packages.take(i) == packages);
    }
}

/// Every package's CVEs can be counted.
pub open spec fn cves_countable(a: PkgAuditResponse) -> bool {
    forall|i: int|
        0 <= i < a.packages@.len() ==> all_cves((#[trigger] a.packages@[i]).1.issues@).len()
            <= usize::MAX
}

impl PkgAuditResponse {
    pub fn package_count(&self) -> (r: usize)
        ensures
            r == response_package_count(*self),
    {
        if self.pkg_count >= self.packages.len() {
            self.pkg_count
        } else {
            self.packages.len()
        }
    }

    /// The issues of all packages; the count must fit, as adding them up
    /// would otherwise overflow.
    pub fn issue_count(&self) -> (r: usize)
        requires
            issue_total(self.packages@) <= usize::MAX,
        ensures
            r == issue_total(self.packages@),
    {
        let mut total: usize = 0;
        let mut i: usize = 0;
        while i < self.packages.len()
            invariant
                i <= self.packages.len(),
                total == issue_total(self.packages@.take(i as int)),
                issue_total(self.packages@) <= usize::MAX,
            decreases self.packages.len() - i,
        {
            assert(self.packages@.take(i + 1).drop_last() == self.packages@.take(i as int));
            proof {
                lemma_issue_total_prefix(self.packages@, i + 1);
            }
            total = total + self.packages[i].1.issue_count();
            i = i + 1;
        }
        assert(self.packages@.take(self.packages.len() as int) == self.packages@);
        total
    }

    pub fn summary(&self) -> (r: String)
        requires
            cves_countable(*self),
        ensures
            r@ == response_summary_spec(*self),
    {
        let ghost ps = self.packages@;
        let ghost shown = if ps.len() > 5 {
            ps.take(5)
        } else {
            ps
        };
        let mut parts: Vec<Vec<char>> = Vec::new();
        let mut i: usize = 0;
        while i < self.packages.len() && i < 5
            invariant
                i <= self.packages.len(),
                i <= 5,
                ps == self.packages@,
                cves_countable(*self),
                views(parts@) == ps.take(i as int).map_values(
                    |e: (String, PkgAuditPackage)| package_summary_spec(e.1, e.0@),
                ),
            decreases 5 - i,
        {
            let s = self.packages[i].1.summary(self.packages[i].0.as_str());
            let c = chars_of(s.as_str());
            proof {
                crate::text::lemma_views_push(parts@, c);
                assert(ps.take(i + 1).map_values(
                    |e: (String, PkgAuditPackage)| package_summary_spec(e.1, e.0@),
                ) =~= ps.take(i as int).map_values(
                    |e: (String, PkgAuditPackage)| package_summary_spec(e.1, e.0@),
                ).push(c@));
            }
            parts.push(c);
            i = i + 1;
        }
        if self.packages.len() > 5 {
            let mut m = chars_of("and ");
            append_chars(&mut m, decimal_u64((self.packages.len() - 5) as u64).as_slice());
            append_str(&mut m, " more");
            proof {
                crate::text::lemma_views_push(parts@, m);
            }
            parts.push(m);
        } else {
            assert(ps.take(ps.len() as int) == ps);
        }
        if parts.len() == 0 {
            let mut v = decimal_u64(self.package_count() as u64);
            append_str(&mut v, " package(s)");
            return string_of(v.as_slice());
        }
        let j = join_chars(&parts, ", ");
        string_of(j.as_slice())
    }
}

pub open spec fn healthy_row() -> RowView {
    RowView {
        state: LocalState::Okay,
        service: service_name(),
        metrics: seq![("packages"@, seq!['0']), ("issues"@, seq!['0'])],
        summary: "OK"@,
    }
}

/// The row for an audit report: healthy when it names no package and no
/// issue, else a warning with the summary and the counts.
pub open spec fn audit_row_spec(a: PkgAuditResponse) -> RowView {
    if response_package_count(a) == 0 && issue_total(a.packages@) == 0 {
        healthy_row()
    } else {
        RowView {
            state: LocalState::Warn,
            service: service_name(),
            metrics: seq![
                ("packages"@, decimal(response_package_count(a))),
                ("issues"@, decimal(issue_total(a.packages@))),
            ],
            summary: "Vulnerable packages: "@ + response_summary_spec(a),
        }
    }
}

pub fn write_healthy_result(out: &mut LocalSection)
    ensures
        final(out)@ == old(out)@.push(healthy_row()),
{
    proof {
        reveal_strlit("0");
        assert(("0")@ =~= seq!['0']);
    }
    out.row(LocalState::Okay, "OPNsense Package Audit", "OK").with_metric("packages", "0").with_metric(
        "issues",
        "0",
    );
    assert(out@.last().metrics =~= healthy_row().metrics);
}

pub fn write_audit_result(out: &mut LocalSection, audit: &PkgAuditResponse)
    requires
        issue_total(audit.packages@) <= usize::MAX,
        cves_countable(*audit),
    ensures
        final(out)@ == old(out)@.push(audit_row_spec(*audit)),
{
    let package_count = audit.package_count();
    let issue_count = audit.issue_count();
    if package_count == 0 && issue_count == 0 {
        write_healthy_result(out);
        return;
    }
    let mut s = chars_of("Vulnerable packages: ");
    append_str(&mut s, audit.summary().as_str());
    let summary = string_of(s.as_slice());
    let p = u64_to_string(package_count as u64);
    let i = u64_to_string(issue_count as u64);
    out.row(LocalState::Warn, "OPNsense Package Audit", summary.as_str()).with_metric(
        "packages",
        p.as_str(),
    ).with_metric("issues", i.as_str());
    assert(out@.last().metrics =~= audit_row_spec(*audit).metrics);
}

/// What to make of the output of `pkg audit`.
pub enum PkgAuditOutcome {
    /// Nothing printed and success: no vulnerable packages.
    Healthy,
    /// Nothing printed and failure: the check fails with this message.
    Failed(String),
    /// A JSON report to parse (the trimmed output).
    Report(String),
}

/// Decides on the output of `pkg audit`: with blank output, success means a
/// healthy system and failure an error quoting the trimmed stderr; else the
/// trimmed output is the report.
pub fn pkg_audit_outcome(stdout: &str, stderr: &str, success: bool) -> (r: PkgAuditOutcome)
    ensures
        trim_seq(stdout@).len() == 0 && success ==> r is Healthy,
        trim_seq(stdout@).len() == 0 && !success ==> (r matches PkgAuditOutcome::Failed(m) && m@
            == "pkg audit failed without JSON output: "@ + trim_seq(stderr@)),
        trim_seq(stdout@).len() > 0 ==> (r matches PkgAuditOutcome::Report(j) && j@ == trim_seq(
            stdout@,
        )),
{
    let out = trim_chars(chars_of(stdout).as_slice());
    if out.len() == 0 {
        if success {
            return PkgAuditOutcome::Healthy;
        }
        let mut m = chars_of("pkg audit failed without JSON output: ");
        append_chars(&mut m, trim_chars(chars_of(stderr).as_slice()).as_slice());
        return PkgAuditOutcome::Failed(string_of(m.as_slice()));
    }
    PkgAuditOutcome::Report(string_of(out.as_slice()))
}

} // verus!

verus! {

proof fn lemma_all_cves_step(issues: Seq<PkgAuditIssue>, i: int)
    requires
        0 <= i < issues.len(),
    ensures
        all_cves(issues.take(i + 1)).len() == all_cves(issues.take(i)).len() + issues[i].cve@.len(),
{
    assert(issues.take(i + 1).drop_last() =~= issues.take(i));
}

fn cves_fit(p: &PkgAuditPackage) -> (r: bool)
    ensures
        r == (all_cves(p.issues@).len() <= usize::MAX),
{
    let mut total: usize = 0;
    let mut i: usize = 0;
    while i < p.issues.len()
        invariant
            i <= p.issues.len(),
            total == all_cves(p.issues@.take(i as int)).len(),
        decreases p.issues.len() - i,
    {
        proof {
            lemma_all_cves_step(p.issues@, i as int);
        }
        match total.checked_add(p.issues[i].cve.len()) {
            Some(t) => total = t,
            None => {
                proof {
                    lemma_cves_grow(p.issues@, i + 1);
                }
                return false;
            },
        }
        i = i + 1;
    }
    assert(p.issues@.take(p.issues.len() as int) =~= p.issues@);
    true
}

proof fn lemma_cves_grow(issues: Seq<PkgAuditIssue>, i: int)
    requires
        0 <= i <= issues.len(),
    ensures
        all_cves(issues.take(i)).len() <= all_cves(issues).len(),
    decreases issues.len() - i,
{
    if i < issues.len() {
        lemma_all_cves_step(issues, i);
        lemma_cves_grow(issues, i + 1);
    } else {
        assert(issues.take(i) =~= issues);
    }
}

proof fn lemma_issue_total_grow(ps: Seq<(String, PkgAuditPackage)>, i: int)
    requires
        0 <= i <= ps.len(),
    ensures
        issue_total(ps.take(i)) <= issue_total(ps),
    decreases ps.len() - i,
{
    if i < ps.len() {
        assert(ps.take(i + 1).drop_last() =~= ps.take(i));
        lemma_issue_total_grow(ps, i + 1);
    } else {
        assert(ps.take(i) =~= ps);
    }
}

/// Whether the report's counts fit the machine's integers, as the audit row
/// needs them to.
pub fn audit_countable(audit: &PkgAuditResponse) -> (r: bool)
    ensures
        r == (issue_total(audit.packages@) <= usize::MAX && cves_countable(*audit)),
{
    let mut total: usize = 0;
    let mut i: usize = 0;
    while i < audit.packages.len()
        invariant
            i <= audit.packages.len(),
            total == issue_total(audit.packages@.take(i as int)),
            forall|k: int| 0 <= k < i ==> all_cves((#[trigger] audit.packages@[k]).1.issues@).len() <= usize::MAX,
        decreases audit.packages.len() - i,
    {
        let p = &audit.packages[i].1;
        assert(audit.packages@.take(i + 1).drop_last() =~= audit.packages@.take(i as int));
        let n = if p.issue_count >= p.issues.len() {
            p.issue_count
        } else {
            p.issues.len()
        };
        match total.checked_add(n) {
            Some(t) => total = t,
            None => {
                proof {
                    lemma_issue_total_grow(audit.packages@, i + 1);
                }
                return false;
            },
        }
        if !cves_fit(p) {
            return false;
        }
        i = i + 1;
    }
    assert(audit.packages@.take(audit.packages.len() as int) =~= audit.packages@);
    true
}

} // verus!
