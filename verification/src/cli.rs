//! The command line: the configuration file, debug logging, and what to do.
use vstd::prelude::*;

verus! {

/// The default configuration file.
pub const DEFAULT_CONFIG: &'static str = "/usr/local/etc/opncheck.toml";

pub struct Cli {
    pub config: String,
    pub debug: bool,
    pub command: Option<Command>,
}

pub enum Command {
    /// Print plugin output for the stock Checkmk FreeBSD agent.
    Plugin,
    /// Print a redacted view of the effective configuration.
    Config,
    /// Check for a newer release, and install it when confirmed.
    Update,
    /// Install opncheck as a Checkmk agent plugin on this host.
    Setup(SetupOptions),
}

pub struct SetupOptions {
    /// Do not prompt for optional setup choices.
    pub yes: bool,
    /// Checkmk site's ssh-ed25519 public key to install for agent access.
    pub checkmk_key: Option<String>,
    /// Enable auto-updates in the configuration.
    pub enable_updates: bool,
    /// Disable auto-updates in the configuration.
    pub disable_updates: bool,
}

impl Cli {
    /// The log filter: `debug` when asked for, else `warn`.
    pub fn log_filter(&self) -> (r: &'static str)
        ensures
            r@ == if self.debug {
                "debug"@
            } else {
                "warn"@
            },
    {
        if self.debug {
            "debug"
        } else {
            "warn"
        }
    }

    /// What to do: printing the plugin output unless told otherwise.
    pub fn command_or_default(self) -> (r: Command)
        ensures
            r == match self.command {
                Some(c) => c,
                None => Command::Plugin,
            },
    {
        match self.command {
            Some(c) => c,
            None => Command::Plugin,
        }
    }
}

impl SetupOptions {
    /// What the options say of auto-updates: on, off, or nothing (the two
    /// flags exclude each other).
    pub fn updates_choice(&self) -> (r: Option<bool>)
        requires
            !(self.enable_updates && self.disable_updates),
        ensures
            r == if self.enable_updates {
                Some(true)
            } else if self.disable_updates {
                Some(false)
            } else {
                None
            },
    {
        if self.enable_updates {
            Some(true)
        } else if self.disable_updates {
            Some(false)
        } else {
            None
        }
    }
}

} // verus!
