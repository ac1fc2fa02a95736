//! Running external commands: the runner's settings and what a command
//! gave back.
use vstd::prelude::*;

pub mod safety;

verus! {

/// The `PATH` that commands run with.
pub const COMMAND_PATH: &'static str = "/sbin:/bin:/usr/sbin:/usr/bin:/usr/local/sbin:/usr/local/bin";

/// Runs commands with a default time limit.
#[derive(Debug, Clone, Copy)]
pub struct CommandRunner {
    default_timeout_seconds: u64,
}

impl CommandRunner {
    pub closed spec fn timeout_spec(self) -> u64 {
        self.default_timeout_seconds
    }

    pub fn new(default_timeout_seconds: u64) -> (r: Self)
        ensures
            r.timeout_spec() == default_timeout_seconds,
    {
        CommandRunner { default_timeout_seconds }
    }

    /// The time limit of a command run without one of its own, in seconds.
    pub fn default_timeout_seconds(&self) -> (r: u64)
        ensures
            r == self.timeout_spec(),
    {
        self.default_timeout_seconds
    }
}

/// What a finished command printed, and whether it exited successfully.
#[derive(Debug)]
pub struct CommandOutput {
    stdout: String,
    stderr: String,
    success: bool,
}

impl CommandOutput {
    pub closed spec fn stdout_spec(&self) -> Seq<char> {
        self.stdout@
    }

    pub closed spec fn stderr_spec(&self) -> Seq<char> {
        self.stderr@
    }

    pub closed spec fn success_spec(&self) -> bool {
        self.success
    }

    pub fn new(stdout: String, stderr: String, success: bool) -> (r: Self)
        ensures
            r.stdout_spec() == stdout@,
            r.stderr_spec() == stderr@,
            r.success_spec() == success,
    {
        CommandOutput { stdout, stderr, success }
    }

    pub fn stdout(&self) -> (r: &str)
        ensures
            r@ == self.stdout_spec(),
    {
        self.stdout.as_str()
    }

    pub fn stderr(&self) -> (r: &str)
        ensures
            r@ == self.stderr_spec(),
    {
        self.stderr.as_str()
    }

    pub fn success(&self) -> (r: bool)
        ensures
            r == self.success_spec(),
    {
        self.success
    }

    /// What a plain run hands back: the output of a successful command, and
    /// nothing for a failed one.
    pub fn into_stdout_if_success(self) -> (r: String)
        ensures
            r@ == if self.success_spec() {
                self.stdout_spec()
            } else {
                Seq::empty()
            },
    {
        if self.success {
            self.stdout
        } else {
            String::new()
        }
    }
}

} // verus!
