//! OPNsense firmware: the running version and the number of pending
//! upgrades, from `configctl firmware status`.
use vstd::prelude::*;

use crate::agent::output::{local_line, section_line, AgentOutput};
use crate::plugin::output::LocalState;
use crate::text::{
    append_chars, append_str, chars_of, decimal, lines_of, lines_seq, parse_u64, parse_u64_spec,
    split_once_spec, split_once_str, string_of, strip_prefix_spec, strip_prefix_str, views,
    words_of, words_seq,
};

verus! {

/// The firmware check.
pub struct Firmware;

impl Firmware {
    pub fn name(&self) -> (r: &'static str)
        ensures
            r@ == "firmware"@,
    {
        "firmware"
    }
}

/// Why the firmware status could not be read.
#[derive(Debug, Copy, Clone, PartialEq, Eq, Structural)]
pub enum FirmwareError {
    NoVersion,
    NoUpdateCount,
}

impl FirmwareError {
    pub fn message(self) -> (r: &'static str)
        ensures
            r@ == (match self {
                FirmwareError::NoVersion => "could not parse current OPNsense version"@,
                FirmwareError::NoUpdateCount => "could not parse upgrade candidate count"@,
            }),
    {
        match self {
            FirmwareError::NoVersion => "could not parse current OPNsense version",
            FirmwareError::NoUpdateCount => "could not parse upgrade candidate count",
        }
    }
}

/// What a line says of the version: none when it is not the version line,
/// else its first word (none when it has no word).
pub open spec fn line_version(l: Seq<char>) -> Option<Option<Seq<char>>> {
    match strip_prefix_spec(l, "Currently running OPNsense "@) {
        Some(rest) => Some(
            if words_seq(rest).len() > 0 {
                Some(words_seq(rest)[0])
            } else {
                None
            },
        ),
        None => None,
    }
}

/// The digits of a count, after its optional `'+'`.
pub open spec fn count_digits(count: Seq<char>) -> Seq<char> {
    if count.len() > 0 && count[0] == '+' {
        count.drop_first()
    } else {
        count
    }
}

/// The count that a line reports when it reads
/// `Checking for upgrades (<count> candidates): <text>`: `<count>` an
/// optional `'+'` and one to twenty digits whose value fits in a `u64`,
/// `<text>` not empty.
pub open spec fn line_updates(l: Seq<char>) -> Option<u64> {
    match strip_prefix_spec(l, "Checking for upgrades ("@) {
        Some(rest) => match split_once_spec(rest, " candidates): "@) {
            Some((count, text)) => if text.len() > 0 && count_digits(count).len() <= 20 {
                parse_u64_spec(count)
            } else {
                None
            },
            None => None,
        },
        None => None,
    }
}

/// The version as the last version line gives it.
pub open spec fn version_of(ls: Seq<Seq<char>>) -> Option<Seq<char>>
    decreases ls.len(),
{
    if ls.len() == 0 {
        None
    } else {
        match line_version(ls.last()) {
            Some(v) => v,
            None => version_of(ls.drop_last()),
        }
    }
}

/// The upgrade count of the last upgrade line.
pub open spec fn updates_of(ls: Seq<Seq<char>>) -> Option<u64>
    decreases ls.len(),
{
    if ls.len() == 0 {
        None
    } else {
        match line_updates(ls.last()) {
            Some(n) => Some(n),
            None => updates_of(ls.drop_last()),
        }
    }
}

pub open spec fn firmware_summary(version: Seq<char>, updates: u64) -> Seq<char> {
    if updates == 0 {
        "Version "@ + version + ", up to date"@
    } else {
        "Version "@ + version + ", "@ + decimal(updates as nat) + " update(s) available"@
    }
}

/// The output for a firmware status report, or why it could not be read.
pub open spec fn firmware_spec(response: Seq<char>) -> Result<Seq<Seq<char>>, FirmwareError> {
    let ls = lines_seq(response);
    match version_of(ls) {
        None => Err(FirmwareError::NoVersion),
        Some(v) => match updates_of(ls) {
            None => Err(FirmwareError::NoUpdateCount),
            Some(n) => Ok(
                seq![
                    section_line("local:sep(0)"@),
                    local_line(
                        if n == 0 {
                            LocalState::Okay
                        } else {
                            LocalState::Warn
                        },
                        "OPNsense Firmware"@,
                        "updates="@ + decimal(n as nat),
                        firmware_summary(v, n),
                    ),
                ],
            ),
        },
    }
}

fn read_line_version(l: &[char]) -> (r: Option<Option<Vec<char>>>)
    ensures
        match r {
            Some(Some(v)) => line_version(l@) == Some(Some(v@)),
            Some(None) => line_version(l@) == Some(None::<Seq<char>>),
            None => line_version(l@) is None,
        },
{
    match strip_prefix_str(l, "Currently running OPNsense ") {
        Some(rest) => {
            let words = words_of(rest.as_slice());
            if words.len() > 0 {
                let w = crate::text::sub_chars(words[0].as_slice(), 0, words[0].len());
                assert(w@ =~= views(words@)[0]);
                Some(Some(w))
            } else {
                Some(None)
            }
        },
        None => None,
    }
}

fn read_line_updates(l: &[char]) -> (r: Option<u64>)
    ensures
        r == line_updates(l@),
{
    let rest = match strip_prefix_str(l, "Checking for upgrades (") {
        Some(rest) => rest,
        None => return None,
    };
    let (count, text) = match split_once_str(rest.as_slice(), " candidates): ") {
        Some(parts) => parts,
        None => return None,
    };
    let digits = if count.len() > 0 && count[0] == '+' {
        count.len() - 1
    } else {
        count.len()
    };
    if text.len() == 0 || digits > 20 {
        return None;
    }
    parse_u64(count.as_slice())
}

/// Reads the firmware status report: the version from the last
/// `Currently running OPNsense` line, the count from the last upgrade line;
/// warns when upgrades are pending.
pub fn firmware_output(response: &str) -> (r: Result<AgentOutput, FirmwareError>)
    ensures
        match r {
            Ok(out) => firmware_spec(response@) == Ok::<Seq<Seq<char>>, FirmwareError>(out@),
            Err(e) => firmware_spec(response@) == Err::<Seq<Seq<char>>, FirmwareError>(e),
        },
{
    let d = chars_of(response);
    let lines = lines_of(d.as_slice());
    let ghost lv = views(lines@);
    let mut version: Option<Vec<char>> = None;
    let mut updates: Option<u64> = None;
    let mut i: usize = 0;
    while i < lines.len()
        invariant
            i <= lines.len(),
            lv == views(lines@),
            match version {
                Some(v) => version_of(lv.take(i as int)) == Some(v@),
                None => version_of(lv.take(i as int)) is None,
            },
            updates == updates_of(lv.take(i as int)),
        decreases lines.len() - i,
    {
        assert(lv.take(i + 1).drop_last() =~= lv.take(i as int));
        assert(lv.take(i + 1).last() == lines@[i as int]@);
        match read_line_version(lines[i].as_slice()) {
            Some(v) => {
                version = v;
            },
            None => {},
        }
        match read_line_updates(lines[i].as_slice()) {
            Some(n) => {
                updates = Some(n);
            },
            None => {},
        }
        i = i + 1;
    }
    assert(lv.take(lines.len() as int) =~= lv);
    assert(lv == lines_seq(response@));
    let version = match version {
        Some(v) => v,
        None => return Err(FirmwareError::NoVersion),
    };
    let updates = match updates {
        Some(n) => n,
        None => return Err(FirmwareError::NoUpdateCount),
    };
    let state = if updates == 0 {
        LocalState::Okay
    } else {
        LocalState::Warn
    };
    let count = crate::text::decimal_u64(updates);
    let mut summary = chars_of("Version ");
    append_chars(&mut summary, version.as_slice());
    if updates == 0 {
        append_str(&mut summary, ", up to date");
    } else {
        append_str(&mut summary, ", ");
        append_chars(&mut summary, count.as_slice());
        append_str(&mut summary, " update(s) available");
    }
    let mut metrics = chars_of("updates=");
    append_chars(&mut metrics, count.as_slice());
    let mut out = AgentOutput::new();
    out.section("local:sep(0)");
    let m = string_of(metrics.as_slice());
    let s = string_of(summary.as_slice());
    out.local(state, "OPNsense Firmware", m.as_str(), s.as_str());
    proof {
        assert(summary@ =~= firmware_summary(version@, updates));
        assert(out@ =~= firmware_spec(response@)->Ok_0);
    }
    Ok(out)
}

} // verus!
