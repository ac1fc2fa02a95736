use opncheck::checks::opnsense::suricata::eve::{
    EveAction, EveAlert, EveEvent, EveVerdict, EventType, VerdictAction,
};
use opncheck::checks::opnsense::suricata::reader::{
    collect_parsed_lines, frame_lines, CollectionResult, LineFrame,
};
use opncheck::checks::opnsense::suricata::state::{LogIdentity, SuricataState};
use opncheck::checks::opnsense::suricata::{next_state, plan_collection, rotated_log_path, CollectionPlan};

fn alert(action: Option<EveAction>, signature_id: Option<u64>) -> Option<EveAlert> {
    Some(EveAlert { action, signature_id, signature: None, category: None, severity: None })
}

fn event(event_type: EventType, alert: Option<EveAlert>, verdict: Option<VerdictAction>) -> EveEvent {
    EveEvent {
        timestamp: None,
        flow_id: None,
        event_type,
        in_iface: None,
        src_ip: None,
        src_port: None,
        dest_ip: None,
        dest_port: None,
        proto: None,
        alert,
        verdict: verdict.map(|action| EveVerdict { action: Some(action) }),
    }
}

const ALLOWED: &str = r#"{"event_type":"alert","alert":{"action":"allowed"}}"#;
const BLOCKED: &str = r#"{"event_type":"alert","alert":{"action":"blocked"}}"#;
const STAMPED: &str = r#"{"event_type":"alert","timestamp":"2026-05-15T10:00:00.000000+0200","flow_id":42,"alert":{"action":"allowed"}}"#;

/// What an EVE parser gives for the lines these tests write.
fn parse(text: &str) -> Option<EveEvent> {
    if text == ALLOWED {
        Some(event(EventType::Alert, alert(Some(EveAction::Allowed), None), None))
    } else if text == BLOCKED {
        Some(event(EventType::Alert, alert(Some(EveAction::Blocked), None), None))
    } else if text == STAMPED {
        let mut e = event(EventType::Alert, alert(Some(EveAction::Allowed), None), None);
        e.timestamp = Some("2026-05-15T10:00:00.000000+0200".to_string());
        e.flow_id = Some(42);
        Some(e)
    } else {
        None
    }
}

fn read_from(content: &[u8], start: u64, result: &mut CollectionResult) -> u64 {
    let len = content.len() as u64;
    let frames: Vec<LineFrame> = frame_lines(&content[start as usize..], start, len);
    let parsed = frames.iter().map(|f| parse(f.text.as_str())).collect();
    collect_parsed_lines(&frames, parsed, start, result)
}

fn identity(inode: u64, content: &[u8]) -> LogIdentity {
    LogIdentity { device: 1, inode, len: content.len() as u64 }
}

fn line(text: &str) -> String {
    format!("{text}\n")
}

fn first_run_starts_at_end() {
    let content = line(BLOCKED);
    let current = identity(7, content.as_bytes());
    match plan_collection(&None, &current, &None, true) {
        CollectionPlan::InitializeAtEnd { state } => {
            assert_eq!(state.offset, content.len() as u64);
        }
        CollectionPlan::Read { .. } => panic!("first run must start at the end"),
    }
}

fn reads_only_appended() {
    let first = line(ALLOWED);
    let state = match plan_collection(&None, &identity(7, first.as_bytes()), &None, true) {
        CollectionPlan::InitializeAtEnd { state } => state,
        CollectionPlan::Read { .. } => panic!("expected a cursor at the end"),
    };
    let content = first + &line(ALLOWED) + &line(BLOCKED);
    let current = identity(7, content.as_bytes());
    let start = match plan_collection(&Some(state), &current, &None, true) {
        CollectionPlan::Read { rotated_start: None, current_start, rotation_gap: false } => current_start,
        _ => panic!("expected to resume on the current log"),
    };
    let mut result = CollectionResult::new();
    let offset = read_from(content.as_bytes(), start, &mut result);
    assert_eq!(result.events, 2);
    assert_eq!(result.alerts, 2);
    assert_eq!(result.blocked, 1);
    let state = next_state(&current, offset, &result).unwrap();
    let start = match plan_collection(&Some(state), &current, &None, true) {
        CollectionPlan::Read { current_start, .. } => current_start,
        CollectionPlan::InitializeAtEnd { .. } => panic!("expected to resume"),
    };
    let mut again = CollectionResult::new();
    read_from(content.as_bytes(), start, &mut again);
    assert_eq!(again.events, 0);
}

fn reads_rotated() {
    let first = line(ALLOWED);
    let state = match plan_collection(&None, &identity(7, first.as_bytes()), &None, true) {
        CollectionPlan::InitializeAtEnd { state } => state,
        CollectionPlan::Read { .. } => panic!("expected a cursor at the end"),
    };
    let rotated_content = first + &line(STAMPED);
    let rotated = identity(7, rotated_content.as_bytes());
    let content = line(BLOCKED);
    let current = identity(8, content.as_bytes());
    assert_eq!(rotated_log_path("/tmp/eve.json"), "/tmp/eve.json.0");
    let (rotated_start, gap) = match plan_collection(&Some(state), &current, &Some(rotated), true) {
        CollectionPlan::Read { rotated_start, current_start: 0, rotation_gap } => (rotated_start, rotation_gap),
        _ => panic!("expected to read the rotated log first"),
    };
    let mut result = CollectionResult::new();
    read_from(rotated_content.as_bytes(), rotated_start.unwrap(), &mut result);
    let offset = read_from(content.as_bytes(), 0, &mut result);
    result.rotation_gap = gap;
    let state = next_state(&current, offset, &result).unwrap();
    assert_eq!(result.events, 2);
    assert_eq!(result.blocked, 1);
    assert!(!result.rotation_gap);
    assert_eq!(state.last_timestamp.as_deref(), Some("2026-05-15T10:00:00.000000+0200"));
    assert_eq!(state.last_flow_id, Some(42));
}

fn malformed_keeps_state() {
    let content = line(ALLOWED) + &line(r#"{"event_type":"alert","alert":{"action":"blocked"}"#);
    let current = identity(7, content.as_bytes());
    let start = match plan_collection(&None, &current, &None, false) {
        CollectionPlan::Read { current_start, .. } => current_start,
        CollectionPlan::InitializeAtEnd { .. } => panic!("expected to read from the start"),
    };
    let mut result = CollectionResult::new();
    let offset = read_from(content.as_bytes(), start, &mut result);
    assert_eq!(result.events, 1);
    assert_eq!(result.parse_errors, 1);
    assert_eq!(offset, line(ALLOWED).len() as u64);
    let previous: Option<SuricataState> = next_state(&current, offset, &result);
    assert!(previous.is_none());
}

fn allowed_alert() {
    let e = event(EventType::Alert, alert(Some(EveAction::Allowed), Some(1)), None);
    assert!(e.is_interesting());
    assert!(!e.is_blocked());
}

fn blocked_alert() {
    let e = event(EventType::Alert, alert(Some(EveAction::Blocked), Some(1)), None);
    assert!(e.is_blocked());
}

fn drop_event() {
    let e = event(EventType::Drop, None, None);
    assert!(e.is_interesting());
    assert!(e.is_blocked());
}

fn drop_verdict() {
    let e = event(EventType::Alert, alert(Some(EveAction::Allowed), None), Some(VerdictAction::Drop));
    assert!(e.is_blocked());
}

#[test]
fn eve_detects_allowed_alert() {
    allowed_alert();
}

#[test]
fn eve_detects_blocked_alert() {
    blocked_alert();
}

#[test]
fn eve_detects_drop_event() {
    drop_event();
}

#[test]
fn eve_detects_drop_verdict() {
    drop_verdict();
}

#[test]
fn suricata_detects_allowed_alert() {
    allowed_alert();
}

#[test]
fn suricata_detects_blocked_alert() {
    blocked_alert();
}

#[test]
fn suricata_detects_drop_event() {
    drop_event();
}

#[test]
fn suricata_detects_drop_verdict() {
    drop_verdict();
}

#[test]
fn mod_first_run_starts_at_end_by_default() {
    first_run_starts_at_end();
}

#[test]
fn mod_reads_only_appended_events_after_initial_cursor() {
    reads_only_appended();
}

#[test]
fn mod_reads_rotated_file_when_identity_matches_previous_state() {
    reads_rotated();
}

#[test]
fn mod_malformed_line_keeps_state_behind_error() {
    malformed_keeps_state();
}

#[test]
fn suricata_first_run_starts_at_end_by_default() {
    first_run_starts_at_end();
}

#[test]
fn suricata_reads_only_appended_events_after_initial_cursor() {
    reads_only_appended();
}

#[test]
fn suricata_reads_rotated_file_when_identity_matches_previous_state() {
    reads_rotated();
}

#[test]
fn suricata_malformed_line_keeps_state_behind_error() {
    malformed_keeps_state();
}

#[test]
fn incomplete_last_line_is_left_for_later() {
    let content = line(ALLOWED) + BLOCKED;
    let mut result = CollectionResult::new();
    let offset = read_from(content.as_bytes(), 0, &mut result);
    assert_eq!(result.events, 1);
    assert_eq!(offset, line(ALLOWED).len() as u64);
}

#[test]
fn event_summary_names_action_signature_and_endpoints() {
    let mut e = event(
        EventType::Alert,
        Some(EveAlert {
            action: Some(EveAction::Blocked),
            signature_id: Some(2001),
            signature: Some("ET SCAN".to_string()),
            category: Some("Scan".to_string()),
            severity: Some(2),
        }),
        None,
    );
    e.timestamp = Some("t0".to_string());
    e.in_iface = Some("em0".to_string());
    e.src_ip = Some("10.0.0.1".to_string());
    e.src_port = Some(1234);
    e.dest_ip = Some("10.0.0.2".to_string());
    e.proto = Some("TCP".to_string());
    assert_eq!(e.summary(), "t0 blocked sid 2001 ET SCAN / Scan sev 2 on em0 10.0.0.1:1234 -> 10.0.0.2 TCP");
}

#[test]
fn second_run_over_unchanged_log_reports_nothing() {
    let content = line(ALLOWED) + &line(BLOCKED) + BLOCKED;
    let current = identity(3, content.as_bytes());
    let mut first = CollectionResult::new();
    let offset = read_from(content.as_bytes(), 0, &mut first);
    assert_eq!(first.events, 2);
    let stored = next_state(&current, offset, &first).unwrap();
    let start = match plan_collection(&Some(stored), &current, &None, false) {
        CollectionPlan::Read { rotated_start: None, current_start, rotation_gap: false } => current_start,
        _ => panic!("expected to resume at the stored cursor"),
    };
    assert_eq!(start, offset);
    let mut second = CollectionResult::new();
    assert_eq!(read_from(content.as_bytes(), start, &mut second), offset);
    assert_eq!((second.events, second.alerts, second.blocked, second.parse_errors), (0, 0, 0, 0));
}
