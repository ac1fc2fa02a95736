//! Whether a file may be run or read: a regular file, not a link, and, where
//! safe paths are required, owned by root and writable by no one else.
use vstd::prelude::*;

use crate::text::{append_str, chars_of, string_of};

verus! {

/// What `lstat` says of a path, as far as the safety rules look at it.
#[derive(Debug, Clone, Copy)]
pub struct FileFacts {
    pub is_file: bool,
    pub is_symlink: bool,
    pub mode: u32,
    pub uid: u32,
}

/// The rule a path breaks.
#[derive(Debug, Clone, Copy, PartialEq, Eq, Structural)]
pub enum Violation {
    NotRegularFile,
    Symlink,
    NotExecutable,
    NotRootOwned,
    GroupOrWorldWritable,
}

pub open spec fn violation_text(v: Violation) -> Seq<char> {
    match v {
        Violation::NotRegularFile => " is not a regular file"@,
        Violation::Symlink => " is a symlink"@,
        Violation::NotExecutable => " is not executable"@,
        Violation::NotRootOwned => " is not root-owned"@,
        Violation::GroupOrWorldWritable => " is group/world writable"@,
    }
}

/// The message for a path that breaks a rule: the path, then the rule.
pub fn violation_message(path: &str, v: Violation) -> (r: String)
    ensures
        r@ == path@ + violation_text(v),
{
    let mut m = chars_of(path);
    match v {
        Violation::NotRegularFile => append_str(&mut m, " is not a regular file"),
        Violation::Symlink => append_str(&mut m, " is a symlink"),
        Violation::NotExecutable => append_str(&mut m, " is not executable"),
        Violation::NotRootOwned => append_str(&mut m, " is not root-owned"),
        Violation::GroupOrWorldWritable => append_str(&mut m, " is group/world writable"),
    }
    string_of(m.as_slice())
}

/// Owned by root, and neither group nor others may write.
pub open spec fn root_owned_spec(f: FileFacts) -> Result<(), Violation> {
    if f.uid != 0 {
        Err(Violation::NotRootOwned)
    } else if f.mode & 0o022u32 != 0 {
        Err(Violation::GroupOrWorldWritable)
    } else {
        Ok(())
    }
}

pub fn ensure_root_owned_not_writable_by_group_or_other(f: FileFacts) -> (r: Result<(), Violation>)
    ensures
        r == root_owned_spec(f),
{
    if f.uid != 0 {
        return Err(Violation::NotRootOwned);
    }
    if f.mode & 0o022u32 != 0 {
        return Err(Violation::GroupOrWorldWritable);
    }
    Ok(())
}

/// The rules for a file that is read: a regular file, no link, and when
/// safe paths are required, root-owned and not writable by others.
pub open spec fn regular_file_spec(f: FileFacts, require_safe_paths: bool) -> Result<(), Violation> {
    if !f.is_file {
        Err(Violation::NotRegularFile)
    } else if f.is_symlink {
        Err(Violation::Symlink)
    } else if require_safe_paths {
        root_owned_spec(f)
    } else {
        Ok(())
    }
}

pub fn check_regular_file(f: FileFacts, require_safe_paths: bool) -> (r: Result<(), Violation>)
    ensures
        r == regular_file_spec(f, require_safe_paths),
{
    if !f.is_file {
        return Err(Violation::NotRegularFile);
    }
    if f.is_symlink {
        return Err(Violation::Symlink);
    }
    if require_safe_paths {
        ensure_root_owned_not_writable_by_group_or_other(f)
    } else {
        Ok(())
    }
}

/// The rules for a file that is run: those of a file that is read, and some
/// execute bit set. (Its directory is held to the ownership rule apart.)
pub open spec fn executable_spec(f: FileFacts, require_safe_paths: bool) -> Result<(), Violation> {
    if !f.is_file {
        Err(Violation::NotRegularFile)
    } else if f.is_symlink {
        Err(Violation::Symlink)
    } else if f.mode & 0o111u32 == 0 {
        Err(Violation::NotExecutable)
    } else if require_safe_paths {
        root_owned_spec(f)
    } else {
        Ok(())
    }
}

pub fn check_executable(f: FileFacts, require_safe_paths: bool) -> (r: Result<(), Violation>)
    ensures
        r == executable_spec(f, require_safe_paths),
{
    if !f.is_file {
        return Err(Violation::NotRegularFile);
    }
    if f.is_symlink {
        return Err(Violation::Symlink);
    }
    if f.mode & 0o111u32 == 0 {
        return Err(Violation::NotExecutable);
    }
    if require_safe_paths {
        ensure_root_owned_not_writable_by_group_or_other(f)
    } else {
        Ok(())
    }
}

} // verus!
