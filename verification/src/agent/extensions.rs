//! What the agent makes of plugin, local-check and spool output: cached
//! section headers, cache times read from directory names, spool expiry.
use vstd::prelude::*;

use crate::agent::output::{cached_section_line, string_views, AgentOutput};
use crate::text::{
    append_chars, chars_of, decimal, decimal_u64, eq_str, is_blank, lines_of, lines_seq,
    parse_u64, parse_u64_spec, split_chars, split_once_spec, split_seq, string_of,
    strip_prefix_spec, strip_prefix_str, strip_suffix_spec, strip_suffix_str, trim_end_chars,
    trim_end_seq, trim_seq, views,
};

verus! {

/// The components of a path: the pieces between `/` that are neither empty
/// nor `.` (what `Path::components` yields as normal or `..` components).
pub open spec fn path_parts(pieces: Seq<Seq<char>>) -> Seq<Seq<char>>
    decreases pieces.len(),
{
    if pieces.len() == 0 {
        Seq::empty()
    } else {
        let rest = path_parts(pieces.drop_last());
        let p = pieces.last();
        if p.len() == 0 || p == seq!['.'] {
            rest
        } else {
            rest.push(p)
        }
    }
}

pub open spec fn components(path: Seq<char>) -> Seq<Seq<char>> {
    path_parts(split_seq(path, '/'))
}

/// `Path::file_name`: the last component, unless it is `..` or missing.
pub open spec fn file_name_spec(path: Seq<char>) -> Option<Seq<char>> {
    let c = components(path);
    if c.len() == 0 || c.last() == seq!['.', '.'] {
        None
    } else {
        Some(c.last())
    }
}

/// The name of the directory that holds `path` (`path.parent()?.file_name()`).
pub open spec fn parent_name_spec(path: Seq<char>) -> Option<Seq<char>> {
    let c = components(path);
    if c.len() < 2 || c[c.len() - 2] == seq!['.', '.'] {
        None
    } else {
        Some(c[c.len() - 2])
    }
}

/// The cache time of a plugin: the number its directory is named by, else 0.
pub open spec fn cachetime_spec(path: Seq<char>) -> u64 {
    match parent_name_spec(path) {
        Some(name) => match parse_u64_spec(name) {
            Some(n) => n,
            None => 0,
        },
        None => 0,
    }
}

fn components_of(path: &str) -> (r: Vec<Vec<char>>)
    ensures
        views(r@) == components(path@),
{
    let p = chars_of(path);
    let pieces = split_chars(p.as_slice(), '/');
    let mut r: Vec<Vec<char>> = Vec::new();
    let mut i: usize = 0;
    while i < pieces.len()
        invariant
            i <= pieces.len(),
            views(r@) == path_parts(views(pieces@).take(i as int)),
        decreases pieces.len() - i,
    {
        assert(views(pieces@).take(i + 1).drop_last() == views(pieces@).take(i as int));
        let piece = &pieces[i];
        if !(piece.len() == 0 || eq_str(piece.as_slice(), ".")) {
            proof {
                reveal_strlit(".");
                assert((".")@ =~= seq!['.']);
                crate::text::lemma_views_push(r@, *piece);
            }
            r.push(piece.clone());
        } else {
            proof {
                reveal_strlit(".");
                assert((".")@ =~= seq!['.']);
            }
        }
        i = i + 1;
    }
    assert(views(pieces@).take(pieces.len() as int) == views(pieces@));
    r
}

/// The cache time that the name of a plugin's directory sets
/// (`/…/local/600/check` is cached for 600 seconds), 0 when it sets none.
pub fn cachetime_from_parent(path: &str) -> (r: u64)
    ensures
        r == cachetime_spec(path@),
{
    let c = components_of(path);
    if c.len() < 2 {
        return 0;
    }
    let name = &c[c.len() - 2];
    proof {
        reveal_strlit("..");
        assert(("..")@ =~= seq!['.', '.']);
    }
    if eq_str(name.as_slice(), "..") {
        return 0;
    }
    match parse_u64(name.as_slice()) {
        Some(n) => n,
        None => 0,
    }
}

/// The final component of `path`, as `Path::file_name` gives it.
pub fn file_name(path: &str) -> (r: Option<String>)
    ensures
        r matches Some(s) ==> file_name_spec(path@) == Some(s@),
        r is None ==> file_name_spec(path@) is None,
{
    let c = components_of(path);
    if c.len() == 0 {
        return None;
    }
    let name = &c[c.len() - 1];
    proof {
        reveal_strlit("..");
        assert(("..")@ =~= seq!['.', '.']);
    }
    if eq_str(name.as_slice(), "..") {
        return None;
    }
    Some(string_of(name.as_slice()))
}

/// The maximal age a spool file names in its prefix (`600_name` lives 600
/// seconds), when its name has one.
pub open spec fn spool_max_age(path: Seq<char>) -> Option<u64> {
    match file_name_spec(path) {
        Some(name) => match split_once_spec(name, seq!['_']) {
            Some(parts) => parse_u64_spec(parts.0),
            None => None,
        },
        None => None,
    }
}

/// Whether the spool file at `path`, last modified at `modified`, is too old
/// at `now` (all in seconds since the epoch).
pub open spec fn spool_expired_spec(path: Seq<char>, modified: u64, now: u64) -> bool {
    match spool_max_age(path) {
        Some(max_age) => (if now >= modified {
            now - modified
        } else {
            0
        }) > max_age,
        None => false,
    }
}

pub fn spool_file_expired(path: &str, modified: u64, now: u64) -> (r: bool)
    ensures
        r == spool_expired_spec(path@, modified, now),
{
    let name = match file_name(path) {
        Some(n) => n,
        None => return false,
    };
    let nc = chars_of(name.as_str());
    let parts = crate::text::split_once_str(nc.as_slice(), "_");
    proof {
        reveal_strlit("_");
        assert(("_")@ =~= seq!['_']);
    }
    let max_age = match parts {
        Some((prefix, _)) => match parse_u64(prefix.as_slice()) {
            Some(n) => n,
            None => return false,
        },
        None => return false,
    };
    now.saturating_sub(modified) > max_age
}

/// A line of cached plugin output: a section header is marked as cached,
/// anything else is kept as it is.
pub open spec fn cached_plugin_line(line: Seq<char>, created: u64, cachetime: u64) -> Seq<char> {
    match strip_prefix_spec(line, seq!['<', '<', '<']) {
        Some(rest) => match strip_suffix_spec(rest, seq!['>', '>', '>']) {
            Some(name) => cached_section_line(name, (created as i64) as int, cachetime as nat),
            None => line,
        },
        None => line,
    }
}

pub open spec fn cached_plugin_lines(lines: Seq<Seq<char>>, created: u64, cachetime: u64) -> Seq<
    Seq<char>,
> {
    lines.map_values(|l: Seq<char>| cached_plugin_line(l, created, cachetime))
}

/// Adds the output of a cached plugin, its section headers marked as cached
/// since `created` for `cachetime` seconds.
pub fn append_cached_plugin_output(out: &mut AgentOutput, data: &str, created: u64, cachetime: u64)
    ensures
        final(out)@ == old(out)@ + cached_plugin_lines(lines_seq(data@), created, cachetime),
{
    let d = chars_of(data);
    let ls = lines_of(d.as_slice());
    let ghost lv = views(ls@);
    let mut i: usize = 0;
    while i < ls.len()
        invariant
            i <= ls.len(),
            lv == views(ls@),
            lv == lines_seq(data@),
            out@ == old(out)@ + cached_plugin_lines(lv.take(i as int), created, cachetime),
        decreases ls.len() - i,
    {
        let line = &ls[i];
        proof {
            reveal_strlit("<<<");
            reveal_strlit(">>>");
            assert(("<<<")@ =~= seq!['<', '<', '<']);
            assert((">>>")@ =~= seq!['>', '>', '>']);
        }
        let mut done = false;
        if let Some(rest) = strip_prefix_str(line.as_slice(), "<<<") {
            if let Some(name) = strip_suffix_str(rest.as_slice(), ">>>") {
                let n = string_of(name.as_slice());
                out.section_cached(n.as_str(), created as i64, cachetime);
                done = true;
            }
        }
        if !done {
            out.line(string_of(line.as_slice()));
        }
        assert(cached_plugin_lines(lv.take(i + 1), created, cachetime) =~= cached_plugin_lines(
            lv.take(i as int),
            created,
            cachetime,
        ).push(cached_plugin_line(lv[i as int], created, cachetime)));
        i = i + 1;
    }
    assert(lv.take(ls.len() as int) == lv);
}

/// `cached(created,cachetime) line`.
pub open spec fn cached_local_line(line: Seq<char>, created: u64, cachetime: u64) -> Seq<char> {
    seq!['c', 'a', 'c', 'h', 'e', 'd', '('] + decimal(created as nat) + seq![','] + decimal(
        cachetime as nat,
    ) + seq![')', ' '] + line
}

/// The non-blank lines of `lines`, each marked as cached.
pub open spec fn cached_local_lines(lines: Seq<Seq<char>>, created: u64, cachetime: u64) -> Seq<
    Seq<char>,
>
    decreases lines.len(),
{
    if lines.len() == 0 {
        Seq::empty()
    } else {
        let rest = cached_local_lines(lines.drop_last(), created, cachetime);
        if trim_seq(lines.last()).len() == 0 {
            rest
        } else {
            rest.push(cached_local_line(lines.last(), created, cachetime))
        }
    }
}

/// What one plugin or local check adds to the output, given what it printed:
/// nothing when that is blank; for a cached local check its non-blank lines
/// marked as cached; for a cached plugin its output with cached section
/// headers; otherwise its output without trailing white space.
pub open spec fn executable_output_spec(
    data: Seq<char>,
    cachetime: u64,
    created: u64,
    is_local: bool,
) -> Seq<Seq<char>> {
    if trim_seq(data).len() == 0 {
        Seq::empty()
    } else if cachetime > 0 {
        if is_local {
            cached_local_lines(lines_seq(data), created, cachetime)
        } else {
            cached_plugin_lines(lines_seq(data), created, cachetime)
        }
    } else {
        lines_seq(trim_end_seq(data))
    }
}

pub fn executable_output(
    out: &mut AgentOutput,
    data: &str,
    cachetime: u64,
    created: u64,
    is_local: bool,
)
    ensures
        final(out)@ == old(out)@ + executable_output_spec(data@, cachetime, created, is_local),
{
    let d = chars_of(data);
    if is_blank(d.as_slice()) {
        assert(old(out)@ + Seq::<Seq<char>>::empty() == old(out)@);
        return;
    }
    if cachetime > 0 {
        if is_local {
            let ls = lines_of(d.as_slice());
            let ghost lv = views(ls@);
            let mut prefix = chars_of("cached(");
            let c = decimal_u64(created);
            append_chars(&mut prefix, c.as_slice());
            prefix.push(',');
            let t = decimal_u64(cachetime);
            append_chars(&mut prefix, t.as_slice());
            prefix.push(')');
            prefix.push(' ');
            proof {
                reveal_strlit("cached(");
                assert(("cached(")@ =~= seq!['c', 'a', 'c', 'h', 'e', 'd', '(']);
            }
            let mut i: usize = 0;
            while i < ls.len()
                invariant
                    i <= ls.len(),
                    lv == views(ls@),
                    lv == lines_seq(data@),
                    prefix@ == seq!['c', 'a', 'c', 'h', 'e', 'd', '('] + decimal(created as nat)
                        + seq![','] + decimal(cachetime as nat) + seq![')', ' '],
                    out@ == old(out)@ + cached_local_lines(lv.take(i as int), created, cachetime),
                decreases ls.len() - i,
            {
                assert(lv.take(i + 1).drop_last() == lv.take(i as int));
                if !is_blank(ls[i].as_slice()) {
                    let mut l = prefix.clone();
                    append_chars(&mut l, ls[i].as_slice());
                    out.line(string_of(l.as_slice()));
                    assert(out@ =~= old(out)@ + cached_local_lines(
                        lv.take(i + 1),
                        created,
                        cachetime,
                    ));
                }
                i = i + 1;
            }
            assert(lv.take(ls.len() as int) == lv);
        } else {
            append_cached_plugin_output(out, data, created, cachetime);
        }
    } else {
        let t = trim_end_chars(d.as_slice());
        let ts = string_of(t.as_slice());
        out.raw_block(ts.as_str());
    }
}

} // verus!
