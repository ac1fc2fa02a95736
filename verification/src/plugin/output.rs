//! Checkmk "local" sections: rows of a service state, a service name,
//! metrics and a summary, rendered in the agent's text format.
use vstd::prelude::*;

use crate::text::{
    append_chars, append_str, chars_of, join_chars, join_seq, replace_chars, replace_seq, string_of,
    views,
};

verus! {

/// The state column of a local check row.
#[derive(Debug, Copy, Clone, PartialEq, Eq, Structural)]
pub enum LocalState {
    Okay,
    Warn,
    Crit,
    Unknown,
    Dynamic,
}

pub open spec fn state_text(s: LocalState) -> Seq<char> {
    match s {
        LocalState::Okay => seq!['0'],
        LocalState::Warn => seq!['1'],
        LocalState::Crit => seq!['2'],
        LocalState::Unknown => seq!['3'],
        LocalState::Dynamic => seq!['P'],
    }
}

impl LocalState {
    /// The code Checkmk reads in the first column.
    pub fn as_str(self) -> (r: &'static str)
        ensures
            r@ == state_text(self),
    {
        proof {
            reveal_strlit("0");
            reveal_strlit("1");
            reveal_strlit("2");
            reveal_strlit("3");
            reveal_strlit("P");
        }
        match self {
            LocalState::Okay => "0",
            LocalState::Warn => "1",
            LocalState::Crit => "2",
            LocalState::Unknown => "3",
            LocalState::Dynamic => "P",
        }
    }
}

/// One `key=value` metric of a row.
pub struct LocalMetric {
    pub key: String,
    pub value: String,
}

/// One row of a local section.
pub struct LocalRow {
    pub state: LocalState,
    pub service: String,
    pub metrics: Vec<LocalMetric>,
    pub summary: String,
}

/// The plain values of a row.
pub struct RowView {
    pub state: LocalState,
    pub service: Seq<char>,
    pub metrics: Seq<(Seq<char>, Seq<char>)>,
    pub summary: Seq<char>,
}

impl View for LocalRow {
    type V = RowView;

    open spec fn view(&self) -> RowView {
        RowView {
            state: self.state,
            service: self.service@,
            metrics: self.metrics@.map_values(|m: LocalMetric| (m.key@, m.value@)),
            summary: self.summary@,
        }
    }
}

impl LocalRow {
    /// Adds a metric to the row and hands the row back for further metrics.
    pub fn with_metric(&mut self, key: &str, value: &str) -> (r: &mut Self)
        ensures
            r@.state == old(self)@.state,
            r@.service == old(self)@.service,
            r@.summary == old(self)@.summary,
            r@.metrics == old(self)@.metrics.push((key@, value@)),
            *final(self) == *final(r),
    {
        let m = LocalMetric { key: key.to_owned(), value: value.to_owned() };
        self.metrics.push(m);
        proof {
            assert(self@.metrics =~= old(self)@.metrics.push((key@, value@)));
        }
        self
    }
}

} // verus!

verus! {

/// A local section: the rows that one check reports.
pub struct LocalSection {
    pub rows: Vec<LocalRow>,
}

impl View for LocalSection {
    type V = Seq<RowView>;

    open spec fn view(&self) -> Seq<RowView> {
        self.rows@.map_values(|r: LocalRow| r@)
    }
}

/// `key=value`.
pub open spec fn metric_text(m: (Seq<char>, Seq<char>)) -> Seq<char> {
    m.0 + seq!['='] + m.1
}

/// The metrics column: `-` when there are none, else the metrics joined by `|`.
pub open spec fn metrics_text(ms: Seq<(Seq<char>, Seq<char>)>) -> Seq<char> {
    if ms.len() == 0 {
        seq!['-']
    } else {
        join_seq(ms.map_values(|m: (Seq<char>, Seq<char>)| metric_text(m)), seq!['|'])
    }
}

/// A service name with `"` turned into `'` and newlines into blanks.
pub open spec fn escape_service(s: Seq<char>) -> Seq<char> {
    replace_seq(replace_seq(s, '"', seq!['\'']), '\n', seq![' '])
}

/// A row as Checkmk reads it: `state "service" metrics summary`, with the
/// summary's newlines written as `\n`.
pub open spec fn row_text(r: RowView) -> Seq<char> {
    state_text(r.state) + seq![' ', '"'] + escape_service(r.service) + seq!['"', ' ']
        + metrics_text(r.metrics) + seq![' '] + replace_seq(r.summary, '\n', seq!['\\', 'n'])
}

pub open spec fn section_header() -> Seq<char> {
    seq!['<', '<', '<', 'l', 'o', 'c', 'a', 'l', ':', 's', 'e', 'p', '(', '0', ')', '>', '>', '>']
}

/// A section: nothing when it has no rows, else the header line and the rows.
pub open spec fn section_text(rows: Seq<RowView>) -> Seq<char> {
    if rows.len() == 0 {
        Seq::empty()
    } else {
        section_header() + seq!['\n'] + join_seq(rows.map_values(|r: RowView| row_text(r)), seq!['\n'])
    }
}

/// All sections joined by newlines, with a final newline unless that is empty.
pub open spec fn sections_text(sections: Seq<Seq<RowView>>) -> Seq<char> {
    let out = join_seq(sections.map_values(|s: Seq<RowView>| section_text(s)), seq!['\n']);
    if out.len() == 0 {
        out
    } else {
        out.push('\n')
    }
}

impl LocalRow {
    /// The service name with `"` turned into `'` and newlines into blanks.
    pub fn escape_service_name(&self) -> (r: String)
        ensures
            r@ == escape_service(self.service@),
    {
        let s = chars_of(self.service.as_str());
        let a = replace_chars(s.as_slice(), '"', "'");
        let b = replace_chars(a.as_slice(), '\n', " ");
        proof {
            reveal_strlit("'");
            reveal_strlit(" ");
            assert(("'")@ =~= seq!['\'']);
            assert((" ")@ =~= seq![' ']);
        }
        string_of(b.as_slice())
    }

    /// The metrics column.
    pub fn render_metrics(&self) -> (r: String)
        ensures
            r@ == metrics_text(self@.metrics),
    {
        if self.metrics.len() == 0 {
            proof {
                reveal_strlit("-");
                assert(("-")@ =~= seq!['-']);
            }
            return "-".to_owned();
        }
        let mut parts: Vec<Vec<char>> = Vec::new();
        let mut i: usize = 0;
        while i < self.metrics.len()
            invariant
                i <= self.metrics.len(),
                views(parts@) == self@.metrics.take(i as int).map_values(
                    |m: (Seq<char>, Seq<char>)| metric_text(m),
                ),
            decreases self.metrics.len() - i,
        {
            let mut p = chars_of(self.metrics[i].key.as_str());
            p.push('=');
            append_str(&mut p, self.metrics[i].value.as_str());
            proof {
                let m = self.metrics@[i as int];
                assert(self@.metrics[i as int] == (m.key@, m.value@));
                assert(p@ =~= metric_text(self@.metrics[i as int]));
                crate::text::lemma_views_push(parts@, p);
                assert(self@.metrics.take(i + 1).map_values(
                    |m: (Seq<char>, Seq<char>)| metric_text(m),
                ) =~= self@.metrics.take(i as int).map_values(
                    |m: (Seq<char>, Seq<char>)| metric_text(m),
                ).push(p@));
            }
            parts.push(p);
            i = i + 1;
        }
        assert(self@.metrics.take(self.metrics.len() as int) == self@.metrics);
        let joined = join_chars(&parts, "|");
        proof {
            reveal_strlit("|");
            assert(("|")@ =~= seq!['|']);
        }
        string_of(joined.as_slice())
    }

    /// The row as Checkmk reads it.
    pub fn to_string(&self) -> (r: String)
        ensures
            r@ == row_text(self@),
    {
        let mut out = chars_of(self.state.as_str());
        out.push(' ');
        out.push('"');
        append_str(&mut out, self.escape_service_name().as_str());
        out.push('"');
        out.push(' ');
        append_str(&mut out, self.render_metrics().as_str());
        out.push(' ');
        let s = chars_of(self.summary.as_str());
        let esc = replace_chars(s.as_slice(), '\n', "\\n");
        proof {
            reveal_strlit("\\n");
            assert(("\\n")@ =~= seq!['\\', 'n']);
        }
        append_chars(&mut out, esc.as_slice());
        proof {
            assert(out@ =~= row_text(self@));
        }
        string_of(out.as_slice())
    }
}

impl LocalSection {
    pub fn new() -> (r: Self)
        ensures
            r@ == Seq::<RowView>::empty(),
    {
        LocalSection { rows: Vec::new() }
    }

    /// A section without rows, for a check that has nothing to report.
    pub fn empty() -> (r: Self)
        ensures
            r@ == Seq::<RowView>::empty(),
    {
        Self::new()
    }

    /// Adds a row without metrics and hands it back for metrics to be added.
    pub fn row(&mut self, state: LocalState, service: &str, summary: &str) -> (r: &mut LocalRow)
        ensures
            r@ == (RowView {
                state: state,
                service: service@,
                metrics: Seq::empty(),
                summary: summary@,
            }),
            final(self)@ == old(self)@.push(final(r)@),
    {
        let row = LocalRow {
            state,
            service: service.to_owned(),
            metrics: Vec::new(),
            summary: summary.to_owned(),
        };
        self.rows.push(row);
        let n = self.rows.len();
        proof {
            assert(self.rows@[n - 1]@.metrics =~= Seq::empty());
        }
        let r = &mut self.rows[n - 1];
        r
    }
}

} // verus!

verus! {

/// A row with one more metric.
pub open spec fn with_metric_view(r: RowView, key: Seq<char>, value: Seq<char>) -> RowView {
    RowView { metrics: r.metrics.push((key, value)), ..r }
}

impl LocalSection {
    /// Adds a metric to the first row, when there is one.
    pub fn inject(&mut self, key: &str, value: &str) -> (r: &mut Self)
        ensures
            old(self)@.len() == 0 ==> r@ == old(self)@,
            old(self)@.len() > 0 ==> r@ == old(self)@.update(
                0,
                with_metric_view(old(self)@[0], key@, value@),
            ),
            *final(self) == *final(r),
    {
        if self.rows.len() > 0 {
            let row = &mut self.rows[0];
            row.with_metric(key, value);
            proof {
                assert(self@ =~= old(self)@.update(0, with_metric_view(old(self)@[0], key@, value@)));
            }
        }
        self
    }

    /// The section as Checkmk reads it: nothing when it has no rows, else the
    /// `<<<local:sep(0)>>>` header and one line per row.
    pub fn to_string(&self) -> (r: String)
        ensures
            r@ == section_text(self@),
    {
        if self.rows.len() == 0 {
            return String::new();
        }
        let mut lines: Vec<Vec<char>> = Vec::new();
        let mut i: usize = 0;
        while i < self.rows.len()
            invariant
                i <= self.rows.len(),
                views(lines@) == self@.take(i as int).map_values(|r: RowView| row_text(r)),
            decreases self.rows.len() - i,
        {
            let t = chars_of(self.rows[i].to_string().as_str());
            proof {
                crate::text::lemma_views_push(lines@, t);
                assert(self@.take(i + 1).map_values(|r: RowView| row_text(r)) =~= self@.take(
                    i as int,
                ).map_values(|r: RowView| row_text(r)).push(t@));
            }
            lines.push(t);
            i = i + 1;
        }
        assert(self@.take(self.rows.len() as int) == self@);
        let body = join_chars(&lines, "\n");
        let mut out = chars_of("<<<local:sep(0)>>>");
        out.push('\n');
        append_chars(&mut out, body.as_slice());
        proof {
            reveal_strlit("<<<local:sep(0)>>>");
            reveal_strlit("\n");
            assert(("\n")@ =~= seq!['\n']);
            assert(("<<<local:sep(0)>>>")@ =~= section_header());
            assert(out@ =~= section_text(self@));
        }
        string_of(out.as_slice())
    }
}

/// The text of all sections, one after another, as the plugin prints it.
pub fn collect_sections(sections: Vec<LocalSection>) -> (r: String)
    ensures
        r@ == sections_text(sections@.map_values(|s: LocalSection| s@)),
{
    let ghost sv = sections@.map_values(|s: LocalSection| s@);
    let mut parts: Vec<Vec<char>> = Vec::new();
    let mut i: usize = 0;
    while i < sections.len()
        invariant
            i <= sections.len(),
            sv == sections@.map_values(|s: LocalSection| s@),
            views(parts@) == sv.take(i as int).map_values(|s: Seq<RowView>| section_text(s)),
        decreases sections.len() - i,
    {
        let t = chars_of(sections[i].to_string().as_str());
        proof {
            crate::text::lemma_views_push(parts@, t);
            assert(sv.take(i + 1).map_values(|s: Seq<RowView>| section_text(s)) =~= sv.take(
                i as int,
            ).map_values(|s: Seq<RowView>| section_text(s)).push(t@));
        }
        parts.push(t);
        i = i + 1;
    }
    assert(sv.take(sections.len() as int) == sv);
    let mut out = join_chars(&parts, "\n");
    proof {
        reveal_strlit("\n");
        assert(("\n")@ =~= seq!['\n']);
    }
    if out.len() > 0 {
        out.push('\n');
    }
    string_of(out.as_slice())
}

} // verus!

verus! {

/// `c` does not occur in `s`.
pub open spec fn lacks(s: Seq<char>, c: char) -> bool {
    forall|i: int| 0 <= i < s.len() ==> s[i] != c
}

proof fn lemma_lacks_concat(a: Seq<char>, b: Seq<char>, c: char)
    requires
        lacks(a, c),
        lacks(b, c),
    ensures
        lacks(a + b, c),
{
    assert forall|i: int| 0 <= i < (a + b).len() implies (a + b)[i] != c by {
        if i < a.len() {
            assert((a + b)[i] == a[i]);
        } else {
            assert((a + b)[i] == b[i - a.len()]);
        }
    }
}

/// Replacing `c` by text without `c` leaves no `c`.
pub proof fn lemma_replace_removes(s: Seq<char>, c: char, to: Seq<char>)
    requires
        lacks(to, c),
    ensures
        lacks(replace_seq(s, c, to), c),
    decreases s.len(),
{
    if s.len() > 0 {
        lemma_replace_removes(s.drop_last(), c, to);
        let last: Seq<char> = if s.last() == c {
            to
        } else {
            seq![s.last()]
        };
        lemma_lacks_concat(replace_seq(s.drop_last(), c, to), last, c);
    }
}

proof fn lemma_replace_keeps_lacking(s: Seq<char>, from: char, to: Seq<char>, c: char)
    requires
        lacks(s, c),
        lacks(to, c),
    ensures
        lacks(replace_seq(s, from, to), c),
    decreases s.len(),
{
    if s.len() > 0 {
        lemma_replace_keeps_lacking(s.drop_last(), from, to, c);
        let last: Seq<char> = if s.last() == from {
            to
        } else {
            seq![s.last()]
        };
        lemma_lacks_concat(replace_seq(s.drop_last(), from, to), last, c);
    }
}

proof fn lemma_join_lacks(parts: Seq<Seq<char>>, sep: Seq<char>, c: char)
    requires
        lacks(sep, c),
        forall|i: int| 0 <= i < parts.len() ==> lacks(#[trigger] parts[i], c),
    ensures
        lacks(join_seq(parts, sep), c),
    decreases parts.len(),
{
    if parts.len() > 1 {
        lemma_join_lacks(parts.drop_last(), sep, c);
        lemma_lacks_concat(join_seq(parts.drop_last(), sep), sep, c);
        lemma_lacks_concat(join_seq(parts.drop_last(), sep) + sep, parts.last(), c);
    } else if parts.len() == 1 {
        assert(lacks(parts[0], c));
    }
}

/// A row is one line of output: its service name and summary have their
/// newlines replaced, so the row holds a newline only where one of its
/// metric names or values does.
pub proof fn lemma_row_is_one_line(r: RowView)
    requires
        forall|i: int|
            0 <= i < r.metrics.len() ==> lacks((#[trigger] r.metrics[i]).0, '\n') && lacks(
                r.metrics[i].1,
                '\n',
            ),
    ensures
        lacks(row_text(r), '\n'),
{
    lemma_replace_keeps_lacking(seq!['\''], '"', seq!['\''], '\n');
    lemma_replace_removes(replace_seq(r.service, '"', seq!['\'']), '\n', seq![' ']);
    lemma_replace_removes(r.summary, '\n', seq!['\\', 'n']);
    let ms = r.metrics.map_values(|m: (Seq<char>, Seq<char>)| metric_text(m));
    assert forall|i: int| 0 <= i < ms.len() implies lacks(#[trigger] ms[i], '\n') by {
        lemma_lacks_concat(r.metrics[i].0, seq!['='], '\n');
        lemma_lacks_concat(r.metrics[i].0 + seq!['='], r.metrics[i].1, '\n');
    }
    lemma_join_lacks(ms, seq!['|'], '\n');
    let st = state_text(r.state);
    assert(lacks(st, '\n'));
    let a = st + seq![' ', '"'];
    lemma_lacks_concat(st, seq![' ', '"'], '\n');
    lemma_lacks_concat(a, escape_service(r.service), '\n');
    let b = a + escape_service(r.service);
    lemma_lacks_concat(b, seq!['"', ' '], '\n');
    let c = b + seq!['"', ' '];
    lemma_lacks_concat(c, metrics_text(r.metrics), '\n');
    let d = c + metrics_text(r.metrics);
    lemma_lacks_concat(d, seq![' '], '\n');
    lemma_lacks_concat(d + seq![' '], replace_seq(r.summary, '\n', seq!['\\', 'n']), '\n');
}

/// A service name never holds a double quote once escaped, so it cannot end
/// the quoted column early.
pub proof fn lemma_service_has_no_quote(service: Seq<char>)
    ensures
        lacks(escape_service(service), '"'),
{
    lemma_replace_removes(service, '"', seq!['\'']);
    lemma_replace_keeps_lacking(replace_seq(service, '"', seq!['\'']), '\n', seq![' '], '"');
}

} // verus!
