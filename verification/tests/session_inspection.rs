use aionui::sessions::{
    child_task_from_dispatches, list_limit, truncate_text, validate_session_id, CodexSpawnDispatch,
    DEFAULT_LIST_LIMIT, MAX_LIST_LIMIT, MAX_VALUE_CHARS, TRUNCATION_MARKER,
};
use aionui::transcripts::{clipped_value, normalize_stored_json};

#[test]
fn child_task_keeps_the_received_prompt_when_parent_dispatch_is_ambiguous() {
    let dispatches = vec![
        CodexSpawnDispatch {
            prompt: "same task".to_owned(),
            agent_type: Some("first".to_owned()),
            fork_context: Some(true),
        },
        CodexSpawnDispatch {
            prompt: "same task".to_owned(),
            agent_type: Some("second".to_owned()),
            fork_context: Some(false),
        },
    ];

    let task = child_task_from_dispatches("same task", false, &dispatches);
    assert_eq!(task.prompt, "same task");
    assert_eq!(task.agent_type, None);
    assert_eq!(task.fork_context, None);
}

#[test]
fn child_task_takes_the_options_of_the_single_matching_dispatch() {
    let dispatches = vec![
        CodexSpawnDispatch { prompt: "other".to_owned(), agent_type: Some("x".to_owned()), fork_context: None },
        CodexSpawnDispatch {
            prompt: "inspect".to_owned(),
            agent_type: Some("explorer".to_owned()),
            fork_context: Some(true),
        },
    ];
    let task = child_task_from_dispatches("inspect", false, &dispatches);
    assert_eq!(task.agent_type.as_deref(), Some("explorer"));
    assert_eq!(task.fork_context, Some(true));

    let clipped = child_task_from_dispatches("inspect", true, &dispatches);
    assert_eq!(clipped.agent_type, None);
    assert_eq!(clipped.fork_context, None);
}

#[test]
fn session_ids_are_checked() {
    assert!(validate_session_id("abc-DEF_123").is_ok());
    assert!(validate_session_id("").is_err());
    assert!(validate_session_id("../etc").is_err());
    assert!(validate_session_id(&"a".repeat(201)).is_err());
    assert!(validate_session_id(&"a".repeat(200)).is_ok());
}

#[test]
fn list_limit_is_clamped() {
    assert_eq!(list_limit(None), DEFAULT_LIST_LIMIT);
    assert_eq!(list_limit(Some(0)), 1);
    assert_eq!(list_limit(Some(7)), 7);
    assert_eq!(list_limit(Some(100_000)), MAX_LIST_LIMIT);
}

#[test]
fn long_text_is_clipped_with_a_marker() {
    let (short, cut) = truncate_text("hello");
    assert_eq!(short, "hello");
    assert!(!cut);
    let long = "x".repeat(MAX_VALUE_CHARS + 5);
    let (clipped, cut) = truncate_text(&long);
    assert!(cut);
    assert_eq!(clipped, format!("{}{}", "x".repeat(MAX_VALUE_CHARS), TRUNCATION_MARKER));
}

#[test]
fn stored_values_are_normalized_json() {
    assert_eq!(clipped_value(Some("{ \"a\" : 1 }")), (Some("{\"a\":1}".to_string()), false));
    assert_eq!(clipped_value(Some("\"{\\\"b\\\": 2}\"")), (Some("{\"b\":2}".to_string()), false));
    assert_eq!(clipped_value(Some("not json")), (Some("not json".to_string()), false));
    assert_eq!(clipped_value(None), (None, false));
}

#[test]
fn oversized_values_become_a_preview_object() {
    let raw = format!("\"{}\"", "y".repeat(MAX_VALUE_CHARS + 10));
    let (value, clipped) = clipped_value(Some(&raw));
    let value = value.unwrap();
    assert!(clipped);
    assert!(value.starts_with("{\"preview\":\"\\\"yyy"));
    assert!(value.ends_with("\\n...[truncated]\",\"truncated\":true}"));
}

#[test]
fn stored_json_cases() {
    assert_eq!(normalize_stored_json("not json"), "not json");
    assert_eq!(normalize_stored_json("{ \"a\" : [1, true] }"), "{\"a\":[1,true]}");
    assert_eq!(normalize_stored_json("\"{\\\"b\\\": 2}\""), "{\"b\":2}");
    assert_eq!(normalize_stored_json("\"plain\""), "\"plain\"");
}
