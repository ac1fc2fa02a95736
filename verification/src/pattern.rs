//! Regular expressions, matched by the regex crate.
use vstd::prelude::*;

use regex::Regex;

verus! {

/// The groups of the leftmost-first match of `pattern` in `haystack`, as the
/// regex crate reports them (group 0 is the whole match, a group that took no
/// part in the match is none); none when the pattern does not compile or does
/// not match.
pub uninterp spec fn regex_first_captures(pattern: Seq<char>, haystack: Seq<char>) -> Option<
    Seq<Option<Seq<char>>>,
>;

/// The text that the group named `group` took in each successive
/// non-overlapping match of `pattern` in `haystack`; none when the pattern
/// does not compile.
pub uninterp spec fn regex_named_matches(pattern: Seq<char>, haystack: Seq<char>, group: Seq<char>) -> Option<
    Seq<Option<Seq<char>>>,
>;

/// Whether `pattern` matches somewhere in `haystack`; none when the pattern
/// does not compile.
pub uninterp spec fn regex_matches(pattern: Seq<char>, haystack: Seq<char>) -> Option<bool>;

pub open spec fn group_views(v: Seq<Option<String>>) -> Seq<Option<Seq<char>>> {
    v.map_values(|g: Option<String>| opt_view(g))
}

pub open spec fn opt_view(g: Option<String>) -> Option<Seq<char>> {
    match g {
        Some(s) => Some(s@),
        None => None,
    }
}

pub open spec fn opt_groups(r: Option<Vec<Option<String>>>) -> Option<Seq<Option<Seq<char>>>> {
    match r {
        Some(v) => Some(group_views(v@)),
        None => None,
    }
}

/// `Regex::new(pattern)` then `Regex::captures(haystack)`: believed to give
/// `regex_first_captures`, with group 0 present whenever there is a match.
#[verifier::external_body]
pub(crate) fn first_captures(pattern: &str, haystack: &str) -> (r: Option<Vec<Option<String>>>)
    ensures
        opt_groups(r) == regex_first_captures(pattern@, haystack@),
        r matches Some(v) ==> v@.len() >= 1 && v@[0] is Some,
{
    let re = Regex::new(pattern).ok()?;
    let caps = re.captures(haystack)?;
    Some(caps.iter().map(|m| m.map(|m| m.as_str().to_owned())).collect())
}

/// `Regex::new(pattern)` then `Regex::captures_iter(haystack)`, taking the
/// group named `group` of each match: believed to give `regex_named_matches`.
#[verifier::external_body]
pub(crate) fn named_group_matches(pattern: &str, haystack: &str, group: &str) -> (r: Option<
    Vec<Option<String>>,
>)
    ensures
        opt_groups(r) == regex_named_matches(pattern@, haystack@, group@),
{
    let re = Regex::new(pattern).ok()?;
    Some(re.captures_iter(haystack).map(|caps| caps.name(group).map(|m| m.as_str().to_owned())).collect())
}

/// `Regex::new(pattern)` then `Regex::is_match(haystack)`: believed to give
/// `regex_matches`.
#[verifier::external_body]
pub(crate) fn is_match(pattern: &str, haystack: &str) -> (r: Option<bool>)
    ensures
        r == regex_matches(pattern@, haystack@),
{
    let re = Regex::new(pattern).ok()?;
    Some(re.is_match(haystack))
}

} // verus!
