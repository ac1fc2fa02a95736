//! The two supported platforms and the paths each of them uses.
use vstd::prelude::*;

use crate::opnsense::config_xml::OpnsenseConfig;

verus! {

/// A platform that opncheck runs on, with its fixed paths.
pub trait Platform {
    spec fn name_spec() -> Seq<char>;

    spec fn release_target_spec() -> Seq<char>;

    spec fn install_path_spec() -> Seq<char>;

    spec fn plugin_path_spec() -> Seq<char>;

    spec fn config_path_spec() -> Seq<char>;

    spec fn state_dir_spec() -> Seq<char>;

    spec fn checkmk_agent_path_spec() -> Seq<char>;

    fn name() -> (r: &'static str)
        ensures
            r@ == Self::name_spec(),
    ;

    fn release_target() -> (r: &'static str)
        ensures
            r@ == Self::release_target_spec(),
    ;

    fn install_path() -> (r: &'static str)
        ensures
            r@ == Self::install_path_spec(),
    ;

    fn plugin_path() -> (r: &'static str)
        ensures
            r@ == Self::plugin_path_spec(),
    ;

    fn config_path() -> (r: String)
        ensures
            r@ == Self::config_path_spec(),
    ;

    fn state_dir() -> (r: &'static str)
        ensures
            r@ == Self::state_dir_spec(),
    ;

    fn checkmk_agent_path() -> (r: &'static str)
        ensures
            r@ == Self::checkmk_agent_path_spec(),
    ;
}

#[derive(Debug, Clone, Copy)]
pub struct LinuxX64;

#[derive(Debug, Clone, Copy)]
pub struct OPNSenseX64;

/// What the OPNsense checks read once per run.
pub struct OPNSensePlatformData {
    pub opnsense_config: OpnsenseConfig,
}

impl Platform for LinuxX64 {
    open spec fn name_spec() -> Seq<char> {
        "linux-x86_64"@
    }

    open spec fn release_target_spec() -> Seq<char> {
        "x86_64-unknown-linux-gnu"@
    }

    open spec fn install_path_spec() -> Seq<char> {
        "/usr/local/bin/opncheck"@
    }

    open spec fn plugin_path_spec() -> Seq<char> {
        "/usr/lib/check_mk_agent/plugins/opncheck"@
    }

    open spec fn config_path_spec() -> Seq<char> {
        "/etc/opncheck.toml"@
    }

    open spec fn state_dir_spec() -> Seq<char> {
        "/var/lib/opncheck"@
    }

    open spec fn checkmk_agent_path_spec() -> Seq<char> {
        "/usr/bin/check_mk_agent"@
    }

    fn name() -> (r: &'static str) {
        "linux-x86_64"
    }

    fn release_target() -> (r: &'static str) {
        "x86_64-unknown-linux-gnu"
    }

    fn install_path() -> (r: &'static str) {
        "/usr/local/bin/opncheck"
    }

    fn plugin_path() -> (r: &'static str) {
        "/usr/lib/check_mk_agent/plugins/opncheck"
    }

    fn config_path() -> (r: String) {
        "/etc/opncheck.toml".to_owned()
    }

    fn state_dir() -> (r: &'static str) {
        "/var/lib/opncheck"
    }

    fn checkmk_agent_path() -> (r: &'static str) {
        "/usr/bin/check_mk_agent"
    }
}

impl Platform for OPNSenseX64 {
    open spec fn name_spec() -> Seq<char> {
        "opnsense-x86_64"@
    }

    open spec fn release_target_spec() -> Seq<char> {
        "x86_64-unknown-freebsd"@
    }

    open spec fn install_path_spec() -> Seq<char> {
        "/usr/local/bin/opncheck"@
    }

    open spec fn plugin_path_spec() -> Seq<char> {
        "/usr/local/lib/check_mk_agent/plugins/opncheck"@
    }

    open spec fn config_path_spec() -> Seq<char> {
        "/usr/local/etc/opncheck.toml"@
    }

    open spec fn state_dir_spec() -> Seq<char> {
        "/var/db/opncheck"@
    }

    open spec fn checkmk_agent_path_spec() -> Seq<char> {
        "/usr/local/bin/check_mk_agent"@
    }

    fn name() -> (r: &'static str) {
        "opnsense-x86_64"
    }

    fn release_target() -> (r: &'static str) {
        "x86_64-unknown-freebsd"
    }

    fn install_path() -> (r: &'static str) {
        "/usr/local/bin/opncheck"
    }

    fn plugin_path() -> (r: &'static str) {
        "/usr/local/lib/check_mk_agent/plugins/opncheck"
    }

    fn config_path() -> (r: String) {
        "/usr/local/etc/opncheck.toml".to_owned()
    }

    fn state_dir() -> (r: &'static str) {
        "/var/db/opncheck"
    }

    fn checkmk_agent_path() -> (r: &'static str) {
        "/usr/local/bin/check_mk_agent"
    }
}

} // verus!
