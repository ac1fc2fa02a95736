//! The agent output as a list of lines: section headers, local check rows
//! and raw blocks that plugins produced.
use vstd::prelude::*;

pub use crate::plugin::output::LocalState;
use crate::plugin::output::{escape_service, state_text};
use crate::text::{
    append_chars, append_str, chars_of, is_blank, join_chars, join_seq, lines_of, lines_seq,
    replace_chars, replace_seq, signed_decimal, decimal, string_of, trim_seq, views, decimal_i64,
    decimal_u64,
};

verus! {

/// The lines of the agent output, in order.
pub struct AgentOutput {
    pub lines: Vec<String>,
}

pub open spec fn string_views(v: Seq<String>) -> Seq<Seq<char>> {
    v.map_values(|s: String| s@)
}

impl View for AgentOutput {
    type V = Seq<Seq<char>>;

    open spec fn view(&self) -> Seq<Seq<char>> {
        string_views(self.lines@)
    }
}

/// `<<<name>>>`.
pub open spec fn section_line(name: Seq<char>) -> Seq<char> {
    seq!['<', '<', '<'] + name + seq!['>', '>', '>']
}

/// `<<<name:cached(created,cachetime)>>>`.
pub open spec fn cached_section_line(name: Seq<char>, created: int, cachetime: nat) -> Seq<char> {
    seq!['<', '<', '<'] + name + seq![':', 'c', 'a', 'c', 'h', 'e', 'd', '('] + signed_decimal(
        created,
    ) + seq![','] + decimal(cachetime) + seq![')', '>', '>', '>']
}

/// A local check line: `state "service" metrics summary`, `-` standing for
/// blank metrics and the summary's newlines written as `\n`.
pub open spec fn local_line(
    state: LocalState,
    service: Seq<char>,
    metrics: Seq<char>,
    summary: Seq<char>,
) -> Seq<char> {
    state_text(state) + seq![' ', '"'] + escape_service(service) + seq!['"', ' '] + (if trim_seq(
        metrics,
    ).len() == 0 {
        seq!['-']
    } else {
        metrics
    }) + seq![' '] + replace_seq(summary, '\n', seq!['\\', 'n'])
}

/// A service name with `"` turned into `'` and newlines into blanks.
pub fn escape_service_name(input: &str) -> (r: String)
    ensures
        r@ == escape_service(input@),
{
    let s = chars_of(input);
    let a = replace_chars(s.as_slice(), '"', "'");
    let b = replace_chars(a.as_slice(), '\n', " ");
    proof {
        reveal_strlit("'");
        reveal_strlit(" ");
        assert(("'")@ =~= seq!['\'']);
        assert((" ")@ =~= seq![' ']);
    }
    string_of(b.as_slice())
}

proof fn lemma_string_views_push(v: Seq<String>, s: String)
    ensures
        string_views(v.push(s)) == string_views(v).push(s@),
{
    assert(string_views(v.push(s)) =~= string_views(v).push(s@));
}

impl AgentOutput {
    pub fn new() -> (r: Self)
        ensures
            r@ == Seq::<Seq<char>>::empty(),
    {
        AgentOutput { lines: Vec::new() }
    }

    fn push_line(&mut self, line: String)
        ensures
            final(self)@ == old(self)@.push(line@),
    {
        proof {
            lemma_string_views_push(self.lines@, line);
        }
        self.lines.push(line);
    }

    /// Starts the section `name`.
    pub fn section(&mut self, name: &str)
        ensures
            final(self)@ == old(self)@.push(section_line(name@)),
    {
        let mut l = chars_of("<<<");
        append_str(&mut l, name);
        append_str(&mut l, ">>>");
        proof {
            reveal_strlit("<<<");
            reveal_strlit(">>>");
            assert(("<<<")@ =~= seq!['<', '<', '<']);
            assert((">>>")@ =~= seq!['>', '>', '>']);
            assert(l@ =~= section_line(name@));
        }
        self.push_line(string_of(l.as_slice()));
    }

    /// Starts the section `name`, marked as cached since `created` for
    /// `cachetime` seconds.
    pub fn section_cached(&mut self, name: &str, created: i64, cachetime: u64)
        ensures
            final(self)@ == old(self)@.push(
                cached_section_line(name@, created as int, cachetime as nat),
            ),
    {
        let mut l = chars_of("<<<");
        append_str(&mut l, name);
        append_str(&mut l, ":cached(");
        let c = decimal_i64(created);
        append_chars(&mut l, c.as_slice());
        l.push(',');
        let t = decimal_u64(cachetime);
        append_chars(&mut l, t.as_slice());
        append_str(&mut l, ")>>>");
        proof {
            reveal_strlit("<<<");
            reveal_strlit(":cached(");
            reveal_strlit(")>>>");
            assert(("<<<")@ =~= seq!['<', '<', '<']);
            assert((":cached(")@ =~= seq![':', 'c', 'a', 'c', 'h', 'e', 'd', '(']);
            assert((")>>>")@ =~= seq![')', '>', '>', '>']);
            assert(l@ =~= cached_section_line(name@, created as int, cachetime as nat));
        }
        self.push_line(string_of(l.as_slice()));
    }

    /// Adds one line as it is.
    pub fn line(&mut self, line: String)
        ensures
            final(self)@ == old(self)@.push(line@),
    {
        self.push_line(line);
    }

    /// Adds the lines in order.
    pub fn extend(&mut self, lines: Vec<String>)
        ensures
            final(self)@ == old(self)@ + string_views(lines@),
    {
        let mut i: usize = 0;
        while i < lines.len()
            invariant
                i <= lines.len(),
                self@ == old(self)@ + string_views(lines@.take(i as int)),
            decreases lines.len() - i,
        {
            let l = lines[i].clone();
            self.push_line(l);
            assert(string_views(lines@.take(i + 1)) =~= string_views(lines@.take(i as int)).push(
                lines@[i as int]@,
            ));
            i = i + 1;
        }
        assert(lines@.take(lines.len() as int) == lines@);
    }

    /// Adds the lines of `block`.
    pub fn raw_block(&mut self, block: &str)
        ensures
            final(self)@ == old(self)@ + lines_seq(block@),
    {
        let b = chars_of(block);
        let ls = lines_of(b.as_slice());
        let mut i: usize = 0;
        while i < ls.len()
            invariant
                i <= ls.len(),
                self@ == old(self)@ + views(ls@).take(i as int),
            decreases ls.len() - i,
        {
            let l = string_of(ls[i].as_slice());
            self.push_line(l);
            assert(views(ls@).take(i + 1) =~= views(ls@).take(i as int).push(ls@[i as int]@));
            i = i + 1;
        }
        assert(views(ls@).take(ls.len() as int) == views(ls@));
    }

    /// Adds a local check line.
    pub fn local(&mut self, state: LocalState, service: &str, metrics: &str, summary: &str)
        ensures
            final(self)@ == old(self)@.push(local_line(state, service@, metrics@, summary@)),
    {
        let mut l = chars_of(state.as_str());
        l.push(' ');
        l.push('"');
        append_str(&mut l, escape_service_name(service).as_str());
        l.push('"');
        l.push(' ');
        let m = chars_of(metrics);
        if is_blank(m.as_slice()) {
            l.push('-');
        } else {
            append_chars(&mut l, m.as_slice());
        }
        l.push(' ');
        let s = chars_of(summary);
        let esc = replace_chars(s.as_slice(), '\n', "\\n");
        append_chars(&mut l, esc.as_slice());
        proof {
            reveal_strlit("\\n");
            assert(("\\n")@ =~= seq!['\\', 'n']);
            assert(l@ =~= local_line(state, service@, metrics@, summary@));
        }
        self.push_line(string_of(l.as_slice()));
    }

    /// The whole output: the lines joined by newlines, ending in a newline.
    pub fn finish(self) -> (r: String)
        ensures
            r@ == join_seq(self@.push(Seq::empty()), seq!['\n']),
    {
        let mut parts: Vec<Vec<char>> = Vec::new();
        let mut i: usize = 0;
        while i < self.lines.len()
            invariant
                i <= self.lines.len(),
                views(parts@) == self@.take(i as int),
            decreases self.lines.len() - i,
        {
            let p = chars_of(self.lines[i].as_str());
            proof {
                crate::text::lemma_views_push(parts@, p);
            }
            parts.push(p);
            assert(self@.take(i + 1) =~= self@.take(i as int).push(self.lines@[i as int]@));
            i = i + 1;
        }
        let empty: Vec<char> = Vec::new();
        proof {
            crate::text::lemma_views_push(parts@, empty);
        }
        parts.push(empty);
        assert(self@.take(self.lines.len() as int) == self@);
        assert(views(parts@) =~= self@.push(Seq::empty()));
        let j = join_chars(&parts, "\n");
        proof {
            reveal_strlit("\n");
            assert(("\n")@ =~= seq!['\n']);
        }
        string_of(j.as_slice())
    }

    /// Appends the lines of another output (what `+=` does).
    pub fn add_assign(&mut self, rhs: Self)
        ensures
            final(self)@ == old(self)@ + rhs@,
    {
        self.extend(rhs.lines);
    }
}

} // verus!
