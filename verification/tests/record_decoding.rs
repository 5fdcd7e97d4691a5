use aionui::api_errors::ConversationError;
use aionui::records::{opencode_message, rollout_entry};
use aionui::sessions::AgentSessionItemKind;
use aionui::transcripts::{parse_codex_rollout, parse_opencode_session};
use aionui::workspace::{workspace_setting, FileKind, WalkDecision, WalkedPath, WorkspaceSearchMode, WorkspaceWalk};

const PARENT_ROLLOUT: [&str; 5] = [
    r#"{"timestamp":"2026-08-01T00:00:00Z","type":"event_msg","payload":{"type":"task_started","turn_id":"turn-1"}}"#,
    r#"{"timestamp":"2026-08-01T00:00:01Z","type":"event_msg","payload":{"type":"user_message","message":"inspect"}}"#,
    r#"{"timestamp":"2026-08-01T00:00:02Z","type":"response_item","payload":{"type":"function_call","call_id":"call-1","name":"exec_command","arguments":"{\"cmd\":\"pwd\"}"}}"#,
    r#"{"timestamp":"2026-08-01T00:00:03Z","type":"response_item","payload":{"type":"function_call","call_id":"call-spawn","name":"spawn_agent","arguments":"{\"agent_type\":\"explorer\",\"fork_context\":true,\"message\":\"inspect child workspace\"}"}}"#,
    r#"{"timestamp":"2026-08-01T00:00:04Z","type":"response_item","payload":{"type":"function_call_output","call_id":"call-1","output":"ok"}}"#,
];

#[test]
fn codex_rollout_lines_decode_into_a_transcript() {
    let mut lines: Vec<&str> = PARENT_ROLLOUT.to_vec();
    lines.insert(2, "not json at all");
    let entries: Vec<_> = lines.iter().filter_map(|line| rollout_entry(line)).collect();
    assert_eq!(entries.len(), 5);
    assert_eq!(entries[0].turn_id.as_deref(), Some("turn-1"));
    assert_eq!(entries[2].arguments.as_deref(), Some(r#""{\"cmd\":\"pwd\"}""#));
    let spawn = entries[3].spawn.as_ref().expect("spawn arguments");
    assert_eq!(spawn.message.as_deref(), Some("inspect child workspace"));
    assert_eq!(spawn.agent_type.as_deref(), Some("explorer"));
    assert_eq!(spawn.fork_context, Some(true));
    assert_eq!(entries[4].output.as_deref(), Some(r#""ok""#));

    let (turns, truncated) = parse_codex_rollout(entries);
    assert!(!truncated);
    assert_eq!(turns.len(), 1);
    let tool = turns[0].items.iter().find(|item| item.kind == AgentSessionItemKind::ToolCall).unwrap();
    assert_eq!(tool.name.as_deref(), Some("exec_command"));
    assert_eq!(tool.status.as_deref(), Some("completed"));
    assert_eq!(tool.output.as_deref(), Some(r#""ok""#));
}

#[test]
fn a_payload_id_is_read_only_without_a_call_id_key() {
    let with_call_key = rollout_entry(r#"{"payload":{"call_id":5,"id":"x"}}"#).unwrap();
    assert_eq!(with_call_key.call_id, None);
    assert_eq!(with_call_key.id, None);
    let without = rollout_entry(r#"{"payload":{"id":"x"}}"#).unwrap();
    assert_eq!(without.id.as_deref(), Some("x"));
    let no_payload = rollout_entry(r#"{"type":"event_msg"}"#).unwrap();
    assert_eq!(no_payload.entry_type.as_deref(), Some("event_msg"));
    assert_eq!(no_payload.payload_type, None);
    assert!(no_payload.spawn.is_none());
    assert!(rollout_entry("{").is_none());
}

fn part(id: &str, created: i64, data: &str) -> (String, i64, String) {
    (id.to_string(), created, data.to_string())
}

#[test]
fn opencode_rows_decode_into_a_transcript() {
    let user = opencode_message(
        "msg-user",
        1100,
        1100,
        r#"{"role":"user"}"#,
        vec![part("part-user", 1100, r#"{"type":"text","text":"inspect"}"#)],
    )
    .unwrap();
    let agent = opencode_message(
        "msg-agent",
        1200,
        1500,
        r#"{"role":"assistant","time":{"completed":1500}}"#,
        vec![
            part("part-reasoning", 1200, r#"{"type":"reasoning","text":"checking"}"#),
            part("part-broken", 1250, "{not json"),
            part(
                "part-tool",
                1300,
                r#"{"type":"tool","tool":"bash","callID":"call-1","state":{"status":"completed","input":{"command":"pwd"},"output":"/tmp/project"}}"#,
            ),
            part("part-agent", 1400, r#"{"type":"text","text":"done","time":{"start":1450}}"#),
        ],
    )
    .unwrap();
    assert_eq!(agent.role.as_deref(), Some("assistant"));
    assert_eq!(agent.time_completed, Some(1500));
    assert_eq!(agent.parts.len(), 3);
    assert_eq!(agent.parts[1].call_id.as_deref(), Some("call-1"));
    assert_eq!(agent.parts[1].input.as_deref(), Some(r#"{"command":"pwd"}"#));
    assert_eq!(agent.parts[2].time_start, Some(1450));
    assert_eq!(agent.parts[0].time_start, None);

    let (turns, truncated) = parse_opencode_session(&vec![user, agent]);
    assert!(!truncated);
    assert_eq!(turns.len(), 1);
    assert_eq!(turns[0].id, "msg-user");
    assert_eq!(turns[0].completed_at.as_deref(), Some("1500"));
    let tool = turns[0].items.iter().find(|item| item.kind == AgentSessionItemKind::ToolCall).unwrap();
    assert_eq!(tool.name.as_deref(), Some("bash"));
    assert_eq!(tool.output.as_deref(), Some(r#""/tmp/project""#));
    let last = turns[0].items.last().unwrap();
    assert_eq!(last.timestamp.as_deref(), Some("1450"));
}

#[test]
fn opencode_message_data_that_is_not_json_is_left_out() {
    assert!(opencode_message("m", 1, 2, "nope", vec![]).is_none());
    let m = opencode_message("m", 1, 2, r#"{"time":{"completed":1.5}}"#, vec![]).unwrap();
    assert_eq!(m.role, None);
    assert_eq!(m.time_completed, None);
    let negative = opencode_message("m", 1, 2, r#"{"time":{"completed":-9223372036854775808}}"#, vec![]).unwrap();
    assert_eq!(negative.time_completed, Some(i64::MIN));
}

#[test]
fn the_workspace_setting_is_read_from_extra_json() {
    assert_eq!(workspace_setting(r#"{"workspace":"/w"}"#).unwrap().as_deref(), Some("/w"));
    assert_eq!(workspace_setting(r#"{"workspace":3}"#).unwrap(), None);
    assert_eq!(workspace_setting("{}").unwrap(), None);
    match workspace_setting("not json") {
        Err(ConversationError::Internal { reason }) => {
            assert!(reason.starts_with("Invalid extra JSON: "));
            assert!(reason.len() > "Invalid extra JSON: ".len());
        }
        other => panic!("unexpected {other:?}"),
    }
}

fn run_page(paths: &[WalkedPath], cursor: usize) -> (Vec<String>, usize, bool, Option<usize>) {
    let mut walk = WorkspaceWalk::new("/w".into(), "/w".into(), "match", WorkspaceSearchMode::Name, cursor);
    for p in paths {
        if walk.visit(p) == WalkDecision::Stop {
            break;
        }
    }
    let (entries, scanned, truncated, next) = walk.into_page("match".into(), true);
    (entries.into_iter().map(|e| e.name).collect(), scanned, truncated, next.map(|c| c.index))
}

#[test]
fn the_next_search_page_continues_where_the_last_stopped() {
    let mut paths = vec![WalkedPath { path: "/w".into(), kind: Some(FileKind::Dir), size: None }];
    for i in 0..210 {
        paths.push(WalkedPath { path: format!("/w/match-{i:03}.txt"), kind: Some(FileKind::File), size: Some(4) });
    }
    let (first, scanned, truncated, next) = run_page(&paths, 0);
    assert_eq!(first.len(), 200);
    assert_eq!(scanned, 200);
    assert!(truncated);
    assert_eq!(next, Some(200));
    let (second, scanned2, truncated2, next2) = run_page(&paths, 200);
    assert_eq!(second.len(), 10);
    assert_eq!(scanned2, 10);
    assert!(!truncated2);
    assert_eq!(next2, None);
    let all: Vec<String> = first.into_iter().chain(second).collect();
    let expected: Vec<String> = (0..210).map(|i| format!("match-{i:03}.txt")).collect();
    assert_eq!(all, expected);
}
