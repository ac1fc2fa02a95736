use opncheck::agent::extensions::{
    append_cached_plugin_output, cachetime_from_parent, file_name, spool_file_expired,
};
use opncheck::agent::output::{escape_service_name, AgentOutput, LocalState};

#[test]
fn parent_directory_number_sets_cachetime() {
    assert_eq!(cachetime_from_parent("/x/local/600/check"), 600);
    assert_eq!(cachetime_from_parent("/x/local/check"), 0);
}

#[test]
fn local_check_format_is_checkmk_compatible() {
    let mut out = AgentOutput::new();
    out.section("local:sep(0)");
    out.local(LocalState::Okay, "My Service", "value=1", "all good");
    assert_eq!(
        out.finish(),
        "<<<local:sep(0)>>>
0 \"My Service\" value=1 all good
"
    );
}

#[test]
fn blank_metrics_are_written_as_dash_and_newlines_escaped() {
    let mut out = AgentOutput::new();
    out.local(LocalState::Crit, "Svc \"x\"\nY", "  ", "line1\nline2");
    assert_eq!(out.finish(), "2 \"Svc 'x' Y\" - line1\\nline2\n");
}

#[test]
fn escape_replaces_quotes_and_newlines() {
    assert_eq!(escape_service_name("a\"b\nc"), "a'b c");
}

#[test]
fn cached_section_header_format() {
    let mut out = AgentOutput::new();
    out.section_cached("mk_apt", -5, 600);
    assert_eq!(out.finish(), "<<<mk_apt:cached(-5,600)>>>\n");
}

#[test]
fn empty_output_is_empty() {
    assert_eq!(AgentOutput::new().finish(), "");
}

#[test]
fn raw_block_and_extend_keep_lines() {
    let mut out = AgentOutput::new();
    out.raw_block("a\r\nb\n");
    out.extend(vec!["c".to_string()]);
    out.line("d".to_string());
    assert_eq!(out.finish(), "a\nb\nc\nd\n");
}

#[test]
fn add_assign_appends_lines() {
    let mut a = AgentOutput::new();
    a.line("x".to_string());
    let mut b = AgentOutput::new();
    b.line("y".to_string());
    a.add_assign(b);
    assert_eq!(a.finish(), "x\ny\n");
}

#[test]
fn cachetime_needs_a_numeric_parent() {
    assert_eq!(cachetime_from_parent("/x/local/abc/check"), 0);
    assert_eq!(cachetime_from_parent("check"), 0);
    assert_eq!(cachetime_from_parent("/x/3600/./check"), 3600);
}

#[test]
fn file_name_of_paths() {
    assert_eq!(file_name("/var/spool/600_apt"), Some("600_apt".to_string()));
    assert_eq!(file_name("/var/.."), None);
}

#[test]
fn spool_files_expire_after_their_prefix_age() {
    assert!(spool_file_expired("/spool/60_x", 100, 200));
    assert!(!spool_file_expired("/spool/60_x", 150, 200));
    assert!(!spool_file_expired("/spool/x", 0, 10_000));
    assert!(!spool_file_expired("/spool/60_x", 300, 200));
}

#[test]
fn cached_plugin_output_marks_section_headers() {
    let mut out = AgentOutput::new();
    append_cached_plugin_output(&mut out, "<<<foo>>>\nbar", 1000, 60);
    assert_eq!(out.finish(), "<<<foo:cached(1000,60)>>>\nbar\n");
}
