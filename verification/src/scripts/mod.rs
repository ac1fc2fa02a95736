//! Scripts bundled with the plugin: which of them run, where they are
//! written, and what their Python environment needs.
use vstd::prelude::*;

use crate::config::{names, Config};
use crate::text::{append_str, chars_of, join_chars, join_seq, string_of, trim_chars, trim_seq, views};

verus! {

/// The directory, under the platform's state directory, that scripts are
/// written to.
pub const SCRIPT_DIR: &'static str = "embedded-scripts";

/// A script bundled with the plugin.
pub enum EmbeddedScript {
    Bash(BashScript),
    Python(PythonScript),
}

pub struct BashScript {
    pub name: &'static str,
    pub source: &'static str,
}

/// A Python script and the packages its environment needs.
pub struct PythonScript {
    pub name: &'static str,
    pub source: &'static str,
    pub packages: &'static [&'static str],
}

pub open spec fn script_name(s: EmbeddedScript) -> Seq<char> {
    match s {
        EmbeddedScript::Bash(b) => b.name@,
        EmbeddedScript::Python(p) => p.name@,
    }
}

impl EmbeddedScript {
    pub fn bash(name: &'static str, source: &'static str) -> (r: Self)
        ensures
            r matches EmbeddedScript::Bash(b) && b.name == name && b.source == source,
    {
        EmbeddedScript::Bash(BashScript { name, source })
    }

    pub fn python(name: &'static str, source: &'static str, packages: &'static [&'static str]) -> (r: Self)
        ensures
            r matches EmbeddedScript::Python(p) && p.name == name && p.source == source && p.packages
                == packages,
    {
        EmbeddedScript::Python(PythonScript { name, source, packages })
    }

    pub fn name(&self) -> (r: &'static str)
        ensures
            r@ == script_name(*self),
    {
        match self {
            EmbeddedScript::Bash(s) => s.name,
            EmbeddedScript::Python(s) => s.name,
        }
    }
}

/// The positions of the scripts that the configuration enables, in order.
pub fn enabled_scripts(config: &Config, scripts: &[EmbeddedScript]) -> (r: Vec<usize>)
    ensures
        forall|k: int| 0 <= k < r.len() ==> (#[trigger] r@[k]) < scripts.len(),
        forall|a: int, b: int| 0 <= a < b < r.len() ==> (#[trigger] r@[a]) < (#[trigger] r@[b]),
        forall|i: int|
            0 <= i < scripts.len() ==> (names(config.scripts.enabled@).contains(
                #[trigger] script_name(scripts@[i]),
            ) <==> r@.contains(i as usize)),
{
    let mut r: Vec<usize> = Vec::new();
    let mut i: usize = 0;
    while i < scripts.len()
        invariant
            i <= scripts.len(),
            forall|k: int| 0 <= k < r.len() ==> (#[trigger] r@[k]) < i,
            forall|a: int, b: int| 0 <= a < b < r.len() ==> (#[trigger] r@[a]) < (#[trigger] r@[b]),
            forall|j: int|
                0 <= j < i ==> (names(config.scripts.enabled@).contains(
                    #[trigger] script_name(scripts@[j]),
                ) <==> r@.contains(j as usize)),
        decreases scripts.len() - i,
    {
        let name = scripts[i].name();
        let on = crate::config::contains_name(&config.scripts.enabled, name);
        proof {
            assert forall|j: int| i <= j < scripts.len() implies !#[trigger] r@.contains(j as usize) by {
                if r@.contains(j as usize) {
                    let k = choose|k: int| 0 <= k < r.len() && r@[k] == j as usize;
                    assert(r@[k] < i);
                }
            }
        }
        if on {
            let ghost before = r@;
            r.push(i);
            proof {
                assert forall|j: int| 0 <= j < i + 1 implies (names(config.scripts.enabled@).contains(
                    #[trigger] script_name(scripts@[j]),
                ) <==> r@.contains(j as usize)) by {
                    if j < i {
                        if before.contains(j as usize) {
                            let k = choose|k: int| 0 <= k < before.len() && before[k] == j as usize;
                            assert(r@[k] == j as usize);
                        }
                        if r@.contains(j as usize) {
                            let k = choose|k: int| 0 <= k < r.len() && r@[k] == j as usize;
                            if k < before.len() {
                                assert(before[k] == j as usize);
                            }
                        }
                    } else {
                        assert(r@[r.len() - 1] == i);
                        assert(r@.contains(i));
                    }
                }
            }
        }
        i = i + 1;
    }
    r
}

/// `name.extension`.
pub fn script_file_name(name: &str, extension: &str) -> (r: String)
    ensures
        r@ == name@ + seq!['.'] + extension@,
{
    let mut s = chars_of(name);
    s.push('.');
    append_str(&mut s, extension);
    string_of(s.as_slice())
}

pub open spec fn str_views(v: Seq<&'static str>) -> Seq<Seq<char>> {
    v.map_values(|s: &'static str| s@)
}

/// The record of the installed packages: their names, one per line.
pub fn package_state(packages: &[&'static str]) -> (r: String)
    ensures
        r@ == join_seq(str_views(packages@), seq!['\n']),
{
    let mut parts: Vec<Vec<char>> = Vec::new();
    let mut i: usize = 0;
    while i < packages.len()
        invariant
            i <= packages.len(),
            views(parts@) == str_views(packages@).take(i as int),
        decreases packages.len() - i,
    {
        let c = chars_of(packages[i]);
        proof {
            crate::text::lemma_views_push(parts@, c);
            assert(str_views(packages@).take(i + 1) =~= str_views(packages@).take(i as int).push(
                packages@[i as int]@,
            ));
        }
        parts.push(c);
        i = i + 1;
    }
    assert(str_views(packages@).take(packages.len() as int) =~= str_views(packages@));
    let j = join_chars(&parts, "\n");
    proof {
        reveal_strlit("\n");
        assert(("\n")@ =~= seq!['\n']);
    }
    string_of(j.as_slice())
}

/// The arguments of the `pip` call that installs the packages.
pub fn pip_install_args(packages: &[&'static str]) -> (r: Vec<&'static str>)
    ensures
        r@ == seq!["install"] + packages@,
{
    let mut args: Vec<&'static str> = Vec::new();
    args.push("install");
    let mut i: usize = 0;
    while i < packages.len()
        invariant
            i <= packages.len(),
            args@ == seq!["install"] + packages@.take(i as int),
        decreases packages.len() - i,
    {
        args.push(packages[i]);
        assert(packages@.take(i + 1) =~= packages@.take(i as int).push(packages@[i as int]));
        assert(args@ =~= seq!["install"] + packages@.take(i + 1));
        i = i + 1;
    }
    assert(packages@.take(packages.len() as int) =~= packages@);
    args
}

/// The message of a step that failed: what failed, then the command's
/// error output without surrounding blanks.
pub fn failure_message(what: &str, stderr: &str) -> (r: String)
    ensures
        r@ == what@ + ": "@ + trim_seq(stderr@),
{
    let mut m = chars_of(what);
    append_str(&mut m, ": ");
    let t = trim_chars(chars_of(stderr).as_slice());
    crate::text::append_chars(&mut m, t.as_slice());
    string_of(m.as_slice())
}

} // verus!
