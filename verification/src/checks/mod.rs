pub mod dhcp;
pub mod firmware;
pub mod gateway;
pub mod meta;
pub mod haproxy;
pub mod ipsec;
pub mod kea;
pub mod nginx;
pub mod opnsense;
pub mod pkgaudit;
pub mod services;
pub mod suricata;
pub mod system;
pub mod unbound;
pub mod wireguard;

use vstd::prelude::*;

use self::meta::status::{status_row, CheckError};
use self::meta::timings::{timings_row, total_nanos, CheckTiming, MAX_DURATION_NANOS};
use crate::plugin::output::{section_text, LocalSection};
use crate::text::{chars_of, join_chars, join_seq, string_of, views};

verus! {

/// What the checks of one plugin run gave: the text of each section in
/// order, how long each check took, and which failed.
pub struct CheckReport {
    pub sections: Vec<String>,
    pub timings: Vec<CheckTiming>,
    pub errors: Vec<CheckError>,
}

pub open spec fn texts(v: Seq<String>) -> Seq<Seq<char>> {
    v.map_values(|s: String| s@)
}

/// The sections joined by newlines, ending in a newline unless empty (as
/// `collect_sections` writes them).
pub open spec fn report_text(parts: Seq<Seq<char>>) -> Seq<char> {
    let out = join_seq(parts, seq!['\n']);
    if out.len() == 0 {
        out
    } else {
        out.push('\n')
    }
}

impl CheckReport {
    pub fn new() -> (r: Self)
        ensures
            r.sections@.len() == 0,
            r.timings@.len() == 0,
            r.errors@.len() == 0,
    {
        CheckReport { sections: Vec::new(), timings: Vec::new(), errors: Vec::new() }
    }

    /// Records a check that ran: its time, and its output's text or its
    /// error.
    pub fn record(
        &mut self,
        name: &str,
        elapsed_nanos: u128,
        elapsed_text: &str,
        outcome: Result<String, String>,
    )
        ensures
            final(self).timings@.len() == old(self).timings@.len() + 1,
            final(self).timings@.take(old(self).timings@.len() as int) == old(self).timings@,
            final(self).timings@.last().section@ == name@,
            final(self).timings@.last().elapsed_nanos == elapsed_nanos,
            final(self).timings@.last().elapsed_text@ == elapsed_text@,
            match outcome {
                Ok(s) => texts(final(self).sections@) == texts(old(self).sections@).push(s@)
                    && final(self).errors@ == old(self).errors@,
                Err(e) => final(self).sections@ == old(self).sections@ && final(self).errors@.len()
                    == old(self).errors@.len() + 1 && final(self).errors@.take(
                    old(self).errors@.len() as int,
                ) == old(self).errors@ && final(self).errors@.last().section@ == name@
                    && final(self).errors@.last().error@ == e@
                    && final(self).errors@.last().elapsed_text@ == elapsed_text@,
            },
    {
        self.timings.push(
            CheckTiming {
                section: name.to_string(),
                elapsed_nanos,
                elapsed_text: elapsed_text.to_string(),
            },
        );
        assert(self.timings@.take(old(self).timings@.len() as int) =~= old(self).timings@);
        match outcome {
            Ok(s) => {
                self.sections.push(s);
                assert(texts(self.sections@) =~= texts(old(self).sections@).push(self.sections@.last()@));
            },
            Err(e) => {
                self.errors.push(
                    CheckError { section: name.to_string(), error: e, elapsed_text: elapsed_text.to_string() },
                );
                assert(self.errors@.take(old(self).errors@.len() as int) =~= old(self).errors@);
            },
        }
    }

    /// The output of the run: the checks' sections, then the timings and
    /// status sections, then `version`. `total_text` is the total time,
    /// written out.
    pub fn finish(self, total_text: &str, version: &LocalSection) -> (r: String)
        requires
            total_nanos(self.timings@) <= MAX_DURATION_NANOS,
        ensures
            r@ == report_text(texts(self.sections@) + seq![
                section_text(seq![timings_row(self.timings@, total_text@)]),
                section_text(seq![status_row(self.errors@)]),
                section_text(version@),
            ]),
    {
        let t = meta::timings::section(&self.timings, total_text);
        let s = meta::status::section(&self.errors);
        let mut parts: Vec<Vec<char>> = Vec::new();
        let mut i: usize = 0;
        while i < self.sections.len()
            invariant
                i <= self.sections.len(),
                views(parts@) == texts(self.sections@).take(i as int),
            decreases self.sections.len() - i,
        {
            let c = chars_of(self.sections[i].as_str());
            proof {
                crate::text::lemma_views_push(parts@, c);
                assert(texts(self.sections@).take(i + 1) =~= texts(self.sections@).take(i as int).push(
                    self.sections@[i as int]@,
                ));
            }
            parts.push(c);
            i = i + 1;
        }
        assert(texts(self.sections@).take(self.sections.len() as int) =~= texts(self.sections@));
        let a = chars_of(t.to_string().as_str());
        let b = chars_of(s.to_string().as_str());
        let c = chars_of(version.to_string().as_str());
        proof {
            crate::text::lemma_views_push(parts@, a);
        }
        parts.push(a);
        proof {
            crate::text::lemma_views_push(parts@, b);
        }
        parts.push(b);
        proof {
            crate::text::lemma_views_push(parts@, c);
        }
        parts.push(c);
        assert(views(parts@) =~= texts(self.sections@) + seq![
            section_text(seq![timings_row(self.timings@, total_text@)]),
            section_text(seq![status_row(self.errors@)]),
            section_text(version@),
        ]);
        let mut out = join_chars(&parts, "\n");
        proof {
            reveal_strlit("\n");
            assert(("\n")@ =~= seq!['\n']);
        }
        if out.len() > 0 {
            out.push('\n');
        }
        string_of(out.as_slice())
    }
}

} // verus!
