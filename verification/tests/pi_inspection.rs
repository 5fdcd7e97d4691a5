use aionui::records::pi_entry;
use aionui::summaries::{inspect_pi, PiSessionFile};
use aionui::transcripts::PiContent;

const LINES: [&str; 4] = [
    r#"{"type":"session","id":"session-pi","timestamp":"2026-08-01T00:00:00Z","cwd":"/tmp/project"}"#,
    r#"{"type":"message","id":"user-1","timestamp":"2026-08-01T00:00:01Z","message":{"role":"user","content":[{"type":"text","text":"run pwd"}]}}"#,
    r#"{"type":"message","id":"assistant-1","timestamp":"2026-08-01T00:00:02Z","message":{"role":"assistant","model":"glm","content":[{"type":"toolCall","id":"tool-1","name":"bash","arguments":{"command":"pwd"}}]}}"#,
    r#"{"type":"message","id":"result-1","timestamp":"2026-08-01T00:00:03Z","message":{"role":"toolResult","toolCallId":"tool-1","content":[{"type":"text","text":"/tmp/project"}],"isError":false}}"#,
];

fn session_file() -> PiSessionFile {
    PiSessionFile {
        path: "/pi/sessions/workspace/2026-08-01_session-pi.jsonl".into(),
        entries: LINES.iter().filter_map(|line| pi_entry(line)).collect(),
    }
}

#[test]
fn pi_lines_are_decoded_field_by_field() {
    let entries = session_file().entries;
    assert_eq!(entries.len(), 4);
    assert_eq!(entries[0].cwd.as_deref(), Some("/tmp/project"));
    assert_eq!(entries[0].timestamp.as_deref(), Some("2026-08-01T00:00:00Z"));
    assert_eq!(entries[1].role.as_deref(), Some("user"));
    assert_eq!(entries[1].content_json.as_deref(), Some(r#"[{"text":"run pwd","type":"text"}]"#));
    match &entries[2].content {
        Some(PiContent::Parts(parts)) => {
            assert_eq!(parts.len(), 1);
            assert_eq!(parts[0].part_type.as_deref(), Some("toolCall"));
            assert_eq!(parts[0].arguments.as_deref(), Some(r#"{"command":"pwd"}"#));
        }
        other => panic!("unexpected content {other:?}"),
    }
    assert_eq!(entries[3].tool_call_id.as_deref(), Some("tool-1"));
    assert_eq!(entries[3].is_error, Some(false));
    assert!(pi_entry("not json").is_none());
    let numeric = pi_entry(r#"{"type":"x","timestamp":1700,"message":{"timestamp":"t","content":"hi"}}"#).unwrap();
    assert_eq!(numeric.timestamp.as_deref(), Some("1700"));
    assert_eq!(numeric.message_timestamp.as_deref(), Some("t"));
    assert!(matches!(numeric.content, Some(PiContent::Text(ref t)) if t == "hi"));
    assert!(matches!(pi_entry(r#"{"message":{"content":7}}"#).unwrap().content, Some(PiContent::Other)));
}

#[test]
fn reads_pi_session_by_header_id() {
    let snapshot = inspect_pi("session-pi", vec![session_file()]).unwrap();
    assert_eq!(snapshot.session.id, "session-pi");
    assert_eq!(snapshot.session.cwd.as_deref(), Some("/tmp/project"));
    assert_eq!(snapshot.session.title.as_deref(), Some("run pwd"));
    assert_eq!(snapshot.session.model.as_deref(), Some("glm"));
    assert_eq!(snapshot.turns.len(), 1);
    assert_eq!(snapshot.turns[0].items[1].status.as_deref(), Some("completed"));
    assert!(snapshot.children.is_empty());
    assert!(snapshot.child_task.is_none());
    assert!(!snapshot.truncated);
}

#[test]
fn an_unknown_pi_session_is_not_found() {
    let err = inspect_pi("other", vec![session_file()]).unwrap_err();
    assert!(format!("{err:?}").contains("Pi session 'other' was not found"));
}
