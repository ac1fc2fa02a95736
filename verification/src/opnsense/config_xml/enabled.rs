//! Enable flags in `config.xml`: `1`/`yes`/`true`/`enabled` and
//! `0`/`no`/`false`/`disabled`, in any case and with blanks around.
use vstd::prelude::*;

use crate::text::{ascii_lower_chars, ascii_lower_seq, chars_of, eq_str, trim_chars, trim_seq};

verus! {

/// What a flag's text means: `Some(true)`, `Some(false)`, or `None` for
/// anything else.
pub open spec fn parse_bool_spec(value: Seq<char>) -> Option<bool> {
    let v = ascii_lower_seq(trim_seq(value));
    if v == "1"@ || v == "yes"@ || v == "true"@ || v == "enabled"@ {
        Some(true)
    } else if v == "0"@ || v == "no"@ || v == "false"@ || v == "disabled"@ {
        Some(false)
    } else {
        None
    }
}

pub fn parse_bool(value: &str) -> (r: Option<bool>)
    ensures
        r == parse_bool_spec(value@),
{
    let v = ascii_lower_chars(trim_chars(chars_of(value).as_slice()).as_slice());
    let s = v.as_slice();
    if eq_str(s, "1") || eq_str(s, "yes") || eq_str(s, "true") || eq_str(s, "enabled") {
        Some(true)
    } else if eq_str(s, "0") || eq_str(s, "no") || eq_str(s, "false") || eq_str(s, "disabled") {
        Some(false)
    } else {
        None
    }
}

/// An enable flag: what its text said, `None` when it was missing or said
/// nothing recognisable.
#[derive(Debug, Clone, Copy, PartialEq, Eq, Structural)]
pub struct EnabledFlag(pub Option<bool>);

impl Default for EnabledFlag {
    fn default() -> (r: Self)
        ensures
            r.0 is None,
    {
        EnabledFlag(None)
    }
}

impl EnabledFlag {
    /// The flag that the text `value` (when there is one) sets.
    pub fn from_text(value: Option<&str>) -> (r: Self)
        ensures
            r.0 == match value {
                Some(v) => parse_bool_spec(v@),
                None => None,
            },
    {
        match value {
            Some(v) => EnabledFlag(parse_bool(v)),
            None => EnabledFlag(None),
        }
    }

    /// Set and true.
    pub fn is_enabled(&self) -> (r: bool)
        ensures
            r == (self.0 == Some(true)),
    {
        match self.0 {
            Some(b) => b,
            None => false,
        }
    }

    /// True or not set.
    pub fn is_enabled_or_present(&self) -> (r: bool)
        ensures
            r == (self.0 != Some(false)),
    {
        match self.0 {
            Some(b) => b,
            None => true,
        }
    }

    /// Set and false.
    pub fn is_explicitly_disabled(&self) -> (r: bool)
        ensures
            r == (self.0 == Some(false)),
    {
        match self.0 {
            Some(b) => !b,
            None => false,
        }
    }
}

/// The `<general>` part of an MVC service section.
#[derive(Debug, Clone, Copy)]
pub struct MvcGeneral {
    pub enabled: EnabledFlag,
}

impl MvcGeneral {
    pub fn is_enabled_or_present(&self) -> (r: bool)
        ensures
            r == (self.enabled.0 != Some(false)),
    {
        self.enabled.is_enabled_or_present()
    }

    pub fn is_explicitly_disabled(&self) -> (r: bool)
        ensures
            r == (self.enabled.0 == Some(false)),
    {
        self.enabled.is_explicitly_disabled()
    }
}

} // verus!
