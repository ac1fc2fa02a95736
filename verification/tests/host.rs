use opncheck::agent::output::AgentOutput;
use opncheck::checks::system::{
    apcupsd, checkmk_header, cpu, df, emit_smart_summary, ipmi, kernel, labels, mem, mounts, netctr, ntp,
    parse_sysctl_colon, ps, smart_device, smart_value, ssh, tcp, uptime, write_uptime, zfs, zpool, AgentDirs,
};
use opncheck::cli::{Cli, Command, SetupOptions};
use opncheck::exec::safety::{check_executable, check_regular_file, violation_message, FileFacts, Violation};
use opncheck::exec::{CommandOutput, CommandRunner};
use opncheck::scripts::{enabled_scripts, failure_message, package_state, pip_install_args, script_file_name, EmbeddedScript};
use opncheck::setup::{authorized_key_line, checkmk_key_answer, is_yes, key_present, same_file, KeyAnswer};
use opncheck::config::{Config, Updates, NANOS_PER_HOUR};

fn text(out: AgentOutput) -> String {
    out.finish()
}

#[test]
fn blank_commands_give_no_section() {
    let mut out = AgentOutput::new();
    df(&mut out, " ");
    mounts(&mut out, "");
    ssh(&mut out, "\n");
    tcp(&mut out, "");
    assert_eq!(text(out), "");
}

#[test]
fn df_drops_the_header_and_raw_sections_trim() {
    let mut out = AgentOutput::new();
    df(&mut out, "Filesystem Type\n/dev/ada0 ufs 1 2\n");
    mounts(&mut out, "/dev/ada0 / ufs rw 1 1\n\n");
    assert_eq!(text(out), "<<<df>>>\n/dev/ada0 ufs 1 2\n<<<mounts>>>\n/dev/ada0 / ufs rw 1 1\n");
}

#[test]
fn tcp_counts_states() {
    let mut out = AgentOutput::new();
    tcp(&mut out, "tcp ESTABLISHED\ntcp LISTEN\ntcp ESTABLISHED\n");
    assert_eq!(text(out), "<<<tcp_conn_stats>>>\nESTABLISHED 2\nLISTEN 1\n");
}

#[test]
fn ps_rows() {
    let mut out = AgentOutput::new();
    ps(&mut out, "STAT USER VSZ RSS %CPU COMMAND\nS root 100 20 0.0 /sbin/init -v\nshort\n");
    assert_eq!(text(out), "<<<ps>>>\n(root,100,20,0.0) /sbin/init -v\n");
}

#[test]
fn ipmi_zpool_apcupsd() {
    let mut out = AgentOutput::new();
    ipmi(&mut out, "CPU Temp | 40 | ok\nFan | na | ns\n");
    zpool(&mut out, "all pools are healthy\nerrors: No known data errors\n");
    apcupsd(&mut out, "STATUS : ONLINE\n");
    assert_eq!(
        text(out),
        "<<<ipmi:sep(124)>>>\nCPU Temp | 40 | ok\n<<<zpool_status>>>\nall pools are healthy\n<<<apcaccess:sep(58)>>>\n[[apcupsd.conf]]\nSTATUS : ONLINE\n"
    );
}

#[test]
fn netctr_link_rows() {
    let mut out = AgentOutput::new();
    netctr(
        &mut out,
        "Name Mtu Network Address Ipkts Ierrs Idrop Ibytes Opkts Oerrs Obytes Coll\n\
         em0 1500 <Link#1> 00:11 1 2 3 4 5 6 7 8\n\
         lo0 16384 <Link#2> lo0 1 2 3 4 5 6 7 8\n",
    );
    assert_eq!(text(out), "<<<netctr>>>\n");
    let mut out = AgentOutput::new();
    netctr(&mut out, "em0 1500 Link x 1 2 3 4 5 6 7 8 9\n");
    assert_eq!(text(out), "<<<netctr>>>\nem0 4 1 2 3 0 0 0 0 7 5 6 0 0 0 0 0\n");
}

#[test]
fn ntp_peers() {
    let mut out = AgentOutput::new();
    ntp(&mut out, "     remote\n=====\n*time.example 1\n\n+b 2\n");
    assert_eq!(text(out), "<<<ntp>>>\n* time.example 1\n+ b 2\n");
}

#[test]
fn labels_for_virtual_machines() {
    let mut out = AgentOutput::new();
    labels(&mut out, "Hypervisor: Origin = \"KVMKVMKVM\"");
    assert_eq!(text(out), "<<<labels:sep(0)>>>\n{\"cmk/device_type\":\"vm\"}\n");
    let mut out = AgentOutput::new();
    labels(&mut out, "bare metal");
    assert_eq!(text(out), "");
}

#[test]
fn uptime_since_boot() {
    let mut out = AgentOutput::new();
    uptime(&mut out, "{ sec = 1000, usec = 5 } Thu", 1500);
    uptime(&mut out, "garbage", 1500);
    assert_eq!(text(out), "<<<uptime>>>\n500 0\n");
}

#[test]
fn uptime_from_match_groups() {
    let mut out = AgentOutput::new();
    write_uptime(&mut out, &Some(vec![Some("sec = 2000".to_string()), Some("2000".to_string())]), 1500);
    write_uptime(&mut out, &Some(vec![Some("sec = 9".to_string()), Some("99999999999999999999".to_string())]), 1500);
    write_uptime(&mut out, &None, 1500);
    write_uptime(&mut out, &Some(vec![Some("sec = 7".to_string()), Some("7".to_string())]), 10);
    assert_eq!(text(out), "<<<uptime>>>\n0 0\n<<<uptime>>>\n3 0\n");
}

#[test]
fn zfs_sections() {
    let mut out = AgentOutput::new();
    zfs(&mut out, "pool\tused\n", Some("df line\n"), Some("kstat.zfs.misc.arcstats.hits: 5\n"));
    assert_eq!(
        text(out),
        "<<<zfsget>>>\npool\tused\n[df]\ndf line\n<<<zfs_arc_cache>>>\nhits = 5\n"
    );
}

#[test]
fn header_lines() {
    let dirs = AgentDirs {
        config_dir: "/etc".to_string(),
        var: "/var".to_string(),
        spool: "/spool".to_string(),
        plugins: "/plugins".to_string(),
        local: "/local".to_string(),
    };
    let mut out = AgentOutput::new();
    checkmk_header(&mut out, &None, "1.0.0", " fw01\n", &dirs);
    assert_eq!(
        text(out),
        "<<<check_mk>>>\nAgentOS: OPNsense\nVersion: 1.0.0\nHostname: fw01\nAgentDirectory: /etc\nDataDirectory: /var\nSpoolDirectory: /spool\nPluginsDirectory: /plugins\nLocalDirectory: /local\n"
    );
}

#[test]
fn cpu_line() {
    let mut out = AgentOutput::new();
    cpu(&mut out, "{ 0.10 0.20 0.30 }\n", "last pid\n12 processes: 1 running 3\n", "345\n", "4\n");
    assert_eq!(text(out), "<<<cpu>>>\n 0.10 0.20 0.30  running/12 345 4\n");
}

#[test]
fn memory_in_bytes() {
    let mut out = AgentOutput::new();
    let stats = "vm.stats.vm.v_cache_count: 1\nvm.stats.vm.v_free_count: 2\nvm.stats.vm.v_inactive_count: 3\nvm.stats.vm.v_page_count: 10\n";
    assert!(mem(&mut out, "4096\n", stats));
    assert_eq!(
        text(out),
        "<<<statgrab_mem>>>\nmem.cache 4096\nmem.free 8192\nmem.total 40960\nmem.used 16384\nswap.free 0\nswap.total 0\nswap.used 0\n"
    );
    let mut out = AgentOutput::new();
    assert!(mem(&mut out, "0", stats));
    assert!(!mem(&mut out, "4096", "vm.stats.vm.v_page_count: 18446744073709551615\n"));
    assert_eq!(text(out), "");
}

#[test]
fn kernel_counters() {
    let mut out = AgentOutput::new();
    let stats = "vm.stats.sys.v_swtch: 77\nvm.stats.vm.v_forks: 1\nvm.stats.vm.v_vforks: 2\nvm.stats.vm.v_forks: 10\n";
    assert!(kernel(&mut out, stats, "1 2 3 4 5", 99));
    assert_eq!(text(out), "<<<kernel>>>\n99\ncpu 1 2 3 5 4\nctxt 77\nprocesses 12\n");
    let entries = parse_sysctl_colon("a: 1\nb 2\nc: 3\n");
    assert_eq!(entries.len(), 2);
}

#[test]
fn smart_values_and_rows() {
    assert_eq!(smart_value("Serial Number:    XYZ  ", "Serial Number"), Some("XYZ".to_string()));
    assert_eq!(
        smart_value("194 Temperature_Celsius 0x0022 036 045 000 Old_age Always - 36", "Temperature_Celsius"),
        Some("36".to_string())
    );
    assert_eq!(smart_value("nothing here", "Serial Number"), None);
    let mut out = AgentOutput::new();
    emit_smart_summary(&mut out, "ada0", "Device Model: Disk\nSMART Health Status: OK\n");
    assert_eq!(text(out), "ada0|model_type|Disk\nada0|smart_status|OK\n");
    assert_eq!(smart_device("ada0"), Some(true));
    assert_eq!(smart_device("ada0p1"), Some(false));
}

#[test]
fn command_results() {
    let ok = CommandOutput::new("out".to_string(), "err".to_string(), true);
    assert_eq!(ok.stdout(), "out");
    assert_eq!(ok.stderr(), "err");
    assert!(ok.success());
    assert_eq!(ok.into_stdout_if_success(), "out");
    let failed = CommandOutput::new("out".to_string(), String::new(), false);
    assert_eq!(failed.into_stdout_if_success(), "");
    assert_eq!(CommandRunner::new(30).default_timeout_seconds(), 30);
}

#[test]
fn file_safety_rules() {
    let f = FileFacts { is_file: true, is_symlink: false, mode: 0o755, uid: 0 };
    assert_eq!(check_executable(f, true), Ok(()));
    assert_eq!(check_executable(FileFacts { mode: 0o644, ..f }, false), Err(Violation::NotExecutable));
    assert_eq!(check_executable(FileFacts { mode: 0o775, ..f }, true), Err(Violation::GroupOrWorldWritable));
    assert_eq!(check_regular_file(FileFacts { uid: 1000, ..f }, true), Err(Violation::NotRootOwned));
    assert_eq!(check_regular_file(FileFacts { uid: 1000, ..f }, false), Ok(()));
    assert_eq!(check_regular_file(FileFacts { is_file: false, ..f }, false), Err(Violation::NotRegularFile));
    assert_eq!(violation_message("/x", Violation::Symlink), "/x is a symlink");
}

#[test]
fn bundled_script_helpers() {
    let scripts = [EmbeddedScript::bash("mk_apt", "echo"), EmbeddedScript::python("mk_docker", "print()", &["docker"])];
    let mut config = Config::default();
    assert!(enabled_scripts(&config, &scripts).is_empty());
    config.scripts.enabled.push("mk_docker".to_string());
    assert_eq!(enabled_scripts(&config, &scripts), vec![1]);
    assert_eq!(scripts[1].name(), "mk_docker");
    assert_eq!(script_file_name("mk_apt", "sh"), "mk_apt.sh");
    assert_eq!(package_state(&["a", "b"]), "a\nb");
    assert_eq!(pip_install_args(&["docker"]), vec!["install", "docker"]);
    assert_eq!(failure_message("embedded bash script mk_apt failed", " oops\n"), "embedded bash script mk_apt failed: oops");
}

#[test]
fn setup_answers() {
    assert!(is_yes(" y\n"));
    assert!(is_yes("YES"));
    assert!(!is_yes("Yes"));
    assert!(matches!(checkmk_key_answer("  \n"), KeyAnswer::Empty));
    assert!(matches!(checkmk_key_answer("ssh-rsa AAA"), KeyAnswer::NotEd25519));
    match checkmk_key_answer(" ssh-ed25519 AAAA site \n") {
        KeyAnswer::Key(k) => assert_eq!(k, "ssh-ed25519 AAAA site"),
        _ => panic!("expected a key"),
    }
    assert_eq!(authorized_key_line("ssh-ed25519 K"), "command=\"/usr/local/bin/check_mk_agent\" ssh-ed25519 K");
    assert!(key_present("a\nssh-ed25519 K\n", "ssh-ed25519 K"));
    assert!(same_file(&Some("/a".to_string()), &Some("/a".to_string())));
    assert!(!same_file(&None, &Some("/a".to_string())));
}

#[test]
fn command_line_defaults() {
    let cli = Cli { config: "/c.toml".to_string(), debug: false, command: None };
    assert_eq!(cli.log_filter(), "warn");
    assert!(matches!(cli.command_or_default(), Command::Plugin));
    let options = SetupOptions { yes: true, checkmk_key: None, enable_updates: false, disable_updates: true };
    assert_eq!(options.updates_choice(), Some(false));
}

#[test]
fn update_checks_are_gated_by_the_interval() {
    let defaults = Updates::default();
    assert!(!defaults.enabled);
    assert_eq!(defaults.interval_nanos, 6 * 3_600_000_000_000);
    assert_eq!(defaults.last_checked_nanos, None);
    assert!(!defaults.is_due(0));
    assert_eq!(defaults.next_check(5), None);
    assert!(!Config::default().updates.enabled);

    let first = Updates { enabled: true, ..Updates::default() };
    assert!(first.is_due(42));
    assert_eq!(first.next_check(42), Some(42));

    let last = 1_700_000_000_000_000_000i128;
    let checked = Updates { enabled: true, interval_nanos: 6 * NANOS_PER_HOUR, last_checked_nanos: Some(last) };
    assert_eq!(checked.next_check(0), Some(last + 6 * NANOS_PER_HOUR));
    assert!(!checked.is_due(last + NANOS_PER_HOUR));
    assert!(!checked.is_due(last + 6 * NANOS_PER_HOUR - 1));
    assert!(checked.is_due(last + 6 * NANOS_PER_HOUR));
    assert!(!Updates { enabled: false, ..checked }.is_due(last + 7 * NANOS_PER_HOUR));
}

#[test]
fn nginx_defaults_follow_the_documented_configuration() {
    let nginx = Config::default().checks.nginx;
    assert_eq!(nginx.status_socket, "/var/run/nginx_status.sock");
    assert_eq!(
        nginx.status_urls,
        vec![
            "http://127.0.0.1/nginx_status".to_string(),
            "http://127.0.0.1/status".to_string(),
            "http://127.0.0.1/vts".to_string(),
        ]
    );
}
