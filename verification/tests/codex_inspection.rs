use aionui::sessions::AgentError;
use aionui::summaries::{codex_inspect_step, CodexChildRow, CodexInspectAction, CodexInspectEvent, CodexInspectState, CodexThreadRow};
use aionui::transcripts::{CodexRolloutEntry, SpawnArguments};

fn entry(entry_type: &str, payload_type: &str) -> CodexRolloutEntry {
    CodexRolloutEntry {
        timestamp: None,
        entry_type: Some(entry_type.into()),
        payload_type: Some(payload_type.into()),
        turn_id: None,
        started_at: None,
        model: None,
        message: None,
        text: None,
        call_id: None,
        id: None,
        name: None,
        arguments: None,
        input: None,
        output: None,
        spawn: None,
    }
}

fn row(id: &str, parent: Option<&str>) -> CodexThreadRow {
    CodexThreadRow {
        id: id.into(),
        title: "T".into(),
        cwd: "".into(),
        model: Some("gpt".into()),
        source: "cli".into(),
        archived: 0,
        created_at_ms: Some(1),
        updated_at_ms: Some(2),
        parent_id: parent.map(Into::into),
    }
}

fn user(text: &str) -> CodexRolloutEntry {
    CodexRolloutEntry { message: Some(text.into()), ..entry("event_msg", "user_message") }
}

#[test]
fn missing_storage_and_threads_are_reported() {
    let (_, a) = codex_inspect_step(CodexInspectState::FindingStorage, CodexInspectEvent::HomeListed(vec!["/h/config.toml".into()]), "t1");
    assert!(matches!(a, CodexInspectAction::Fail(AgentError::NotFound(m)) if m == "Codex session storage was not found"));
    let (s, a) = codex_inspect_step(
        CodexInspectState::FindingStorage,
        CodexInspectEvent::HomeListed(vec!["/h/state_2.sqlite".into(), "/h/state_10.sqlite".into()]),
        "t1",
    );
    assert!(matches!(a, CodexInspectAction::LoadThread(p) if p == "/h/state_10.sqlite"));
    let (_, a) = codex_inspect_step(s, CodexInspectEvent::ThreadLoaded(Ok(None)), "t1");
    assert!(matches!(a, CodexInspectAction::Fail(AgentError::NotFound(m)) if m == "Codex thread 't1' was not found"));
}

#[test]
fn a_main_thread_is_inspected() {
    let (s, a) = codex_inspect_step(CodexInspectState::LoadingThread, CodexInspectEvent::ThreadLoaded(Ok(Some((row("t1", None), "/r/t1.jsonl".into())))), "t1");
    assert!(matches!(a, CodexInspectAction::LoadChildren));
    let child = CodexChildRow {
        id: "c1".into(),
        title: "".into(),
        cwd: "/w".into(),
        model: None,
        source: "".into(),
        status: Some("open".into()),
        created_at_ms: None,
        updated_at_ms: None,
    };
    let (s, a) = codex_inspect_step(s, CodexInspectEvent::ChildrenLoaded(Ok(vec![child])), "t1");
    assert!(matches!(a, CodexInspectAction::ReadRollout(p) if p == "/r/t1.jsonl"));
    let (s, a) = codex_inspect_step(s, CodexInspectEvent::RolloutRead(Ok(vec![user("hello")])), "t1");
    assert!(matches!(s, CodexInspectState::Finished));
    match a {
        CodexInspectAction::Respond(snap) => {
            assert_eq!(snap.session.id, "t1");
            assert_eq!(snap.session.status.as_deref(), Some("active"));
            assert_eq!(snap.session.cwd, None);
            assert_eq!(snap.children.len(), 1);
            assert_eq!(snap.children[0].parent_id.as_deref(), Some("t1"));
            assert_eq!(snap.turns.len(), 1);
            assert!(snap.child_task.is_none());
        }
        other => panic!("unexpected {other:?}"),
    }
}

#[test]
fn a_child_thread_takes_its_dispatch_from_the_parent() {
    let state = CodexInspectState::LoadingThread;
    let (s, _) = codex_inspect_step(state, CodexInspectEvent::ThreadLoaded(Ok(Some((row("c1", Some("p1")), "/r/c1.jsonl".into())))), "c1");
    let (s, _) = codex_inspect_step(s, CodexInspectEvent::ChildrenLoaded(Ok(vec![])), "c1");
    let (s, a) = codex_inspect_step(s, CodexInspectEvent::RolloutRead(Ok(vec![user("inspect child")])), "c1");
    assert!(matches!(a, CodexInspectAction::ReadParentRollout(p) if p == "p1"));
    let spawn = CodexRolloutEntry {
        name: Some("spawn_agent".into()),
        spawn: Some(SpawnArguments {
            message: Some("inspect child".into()),
            agent_type: Some("explorer".into()),
            fork_context: Some(true),
        }),
        ..entry("response_item", "function_call")
    };
    let (_, a) = codex_inspect_step(s, CodexInspectEvent::ParentRolloutRead(Ok(Some(vec![spawn]))), "c1");
    match a {
        CodexInspectAction::Respond(snap) => {
            let task = snap.child_task.expect("a child task");
            assert_eq!(task.prompt, "inspect child");
            assert_eq!(task.agent_type.as_deref(), Some("explorer"));
            assert_eq!(task.fork_context, Some(true));
        }
        other => panic!("unexpected {other:?}"),
    }
}
