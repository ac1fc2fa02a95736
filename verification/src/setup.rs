//! Installing the plugin: the answers to the setup questions, and the
//! line that grants the Checkmk site access.
use vstd::prelude::*;

use crate::text::{append_str, chars_of, contains_seq, contains_str, eq_str, has_prefix, starts_with_str, string_of, trim_chars, trim_seq};

verus! {

pub const INSTALL_PATH: &'static str = "/usr/local/bin/opncheck";
pub const PLUGIN_PATH: &'static str = "/usr/local/lib/check_mk_agent/plugins/opncheck";
pub const SSH_DIR: &'static str = "/root/.ssh";
pub const AUTHORIZED_KEYS: &'static str = "/root/.ssh/authorized_keys2";
pub const CHECKMK_AGENT: &'static str = "/usr/local/bin/check_mk_agent";

/// A yes is `y`, `Y`, `yes` or `YES`, blanks around it aside.
pub open spec fn is_yes_spec(input: Seq<char>) -> bool {
    let t = trim_seq(input);
    t == "y"@ || t == "Y"@ || t == "yes"@ || t == "YES"@
}

pub fn is_yes(input: &str) -> (r: bool)
    ensures
        r == is_yes_spec(input@),
{
    let t = trim_chars(chars_of(input).as_slice());
    let s = t.as_slice();
    eq_str(s, "y") || eq_str(s, "Y") || eq_str(s, "yes") || eq_str(s, "YES")
}

/// What the answer to the key question was.
pub enum KeyAnswer {
    /// Nothing: no key is installed.
    Empty,
    /// Not an ssh-ed25519 public key: no key is installed.
    NotEd25519,
    /// The key, without surrounding blanks.
    Key(String),
}

pub fn checkmk_key_answer(input: &str) -> (r: KeyAnswer)
    ensures
        r is Empty <==> trim_seq(input@).len() == 0,
        r is NotEd25519 <==> (trim_seq(input@).len() > 0 && !has_prefix(trim_seq(input@), "ssh-ed25519 "@)),
        r matches KeyAnswer::Key(k) ==> k@ == trim_seq(input@) && has_prefix(k@, "ssh-ed25519 "@),
{
    let t = trim_chars(chars_of(input).as_slice());
    if t.len() == 0 {
        return KeyAnswer::Empty;
    }
    if !starts_with_str(t.as_slice(), "ssh-ed25519 ") {
        return KeyAnswer::NotEd25519;
    }
    KeyAnswer::Key(string_of(t.as_slice()))
}

/// The `authorized_keys2` line that lets `key` run only the agent.
pub fn authorized_key_line(key: &str) -> (r: String)
    ensures
        r@ == "command=\""@ + CHECKMK_AGENT@ + "\" "@ + key@,
{
    let mut l = chars_of("command=\"");
    append_str(&mut l, CHECKMK_AGENT);
    append_str(&mut l, "\" ");
    append_str(&mut l, key);
    string_of(l.as_slice())
}

/// Whether the key is in the file already.
pub fn key_present(existing: &str, key: &str) -> (r: bool)
    ensures
        r == contains_seq(existing@, key@),
{
    contains_str(chars_of(existing).as_slice(), key)
}

/// Two paths are the same file when both exist and resolve to the same
/// place (`None` for one that does not exist).
pub fn same_file(left: &Option<String>, right: &Option<String>) -> (r: bool)
    ensures
        r == (left matches Some(a) && (right matches Some(b) && a@ == b@)),
{
    match (left, right) {
        (Some(a), Some(b)) => crate::text::eq_chars(chars_of(a.as_str()).as_slice(), chars_of(b.as_str()).as_slice()),
        _ => false,
    }
}

} // verus!
