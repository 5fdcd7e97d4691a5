use aionui::preview::{
    start_event_fits, start_step, DocType, ExistingSession, OfficeError, StartAction, StartEvent, StartState,
};

fn in_use() -> OfficeError {
    OfficeError::StartFailed("Address already in use (os error 98)".into())
}

#[test]
fn a_live_session_is_reused() {
    let existing = ExistingSession { aborted: false, alive: true, port: 4100 };
    let (state, action) = start_step(StartState::Checking, StartEvent::Begin(Some(existing)), DocType::Word);
    assert_eq!(state, StartState::Finished);
    assert!(matches!(action, StartAction::Reuse(4100)));
}

#[test]
fn a_stale_session_is_dropped_before_starting() {
    let existing = ExistingSession { aborted: true, alive: true, port: 4100 };
    let (state, action) = start_step(StartState::Checking, StartEvent::Begin(Some(existing)), DocType::Word);
    assert_eq!(state, StartState::Allocating(1));
    assert!(matches!(action, StartAction::Begin { drop_stale: true }));
}

#[test]
fn a_missing_officecli_is_installed_once() {
    let doc = DocType::Ppt;
    let (s, a) = start_step(StartState::Allocating(1), StartEvent::PortAllocated(Ok(4200)), doc);
    assert!(matches!(a, StartAction::Spawn(4200)));
    let (s, a) = start_step(s, StartEvent::Spawned(Err(OfficeError::OfficecliNotFound)), doc);
    assert!(matches!(a, StartAction::Install));
    let (s, a) = start_step(s, StartEvent::Installed(Ok(())), doc);
    assert!(matches!(a, StartAction::Spawn(4200)));
    let (s2, a2) = start_step(s, StartEvent::Spawned(Err(OfficeError::OfficecliNotFound)), doc);
    assert_eq!(s2, StartState::Finished);
    assert!(matches!(a2, StartAction::Fail { message, error: OfficeError::OfficecliNotFound } if message == "officecli not found"));
    let (s, a) = start_step(s, StartEvent::Spawned(Ok(())), doc);
    assert!(matches!(a, StartAction::WaitForPort(4200)));
    let (s, a) = start_step(s, StartEvent::PortReady(Ok(())), doc);
    assert_eq!(s, StartState::Finished);
    assert!(matches!(a, StartAction::Succeed { port: 4200, check_update: true }));
}

#[test]
fn a_taken_port_is_retried_until_the_last_attempt() {
    let doc = DocType::Word;
    let spawning = |attempt| StartState::Spawning { attempt, port: 4300, installed: false };
    let (s, a) = start_step(spawning(1), StartEvent::Spawned(Err(in_use())), doc);
    assert_eq!(s, StartState::Allocating(2));
    assert!(matches!(a, StartAction::AllocatePort));
    let (s, a) = start_step(spawning(3), StartEvent::Spawned(Err(in_use())), doc);
    assert_eq!(s, StartState::Finished);
    assert!(matches!(a, StartAction::Fail { error: OfficeError::StartFailed(_), .. }));
}

#[test]
fn installer_output_is_not_broadcast() {
    let state = StartState::Installing { attempt: 1, port: 4400 };
    let (_, a) = start_step(state, StartEvent::Installed(Err(OfficeError::InstallFailed("stderr".into()))), DocType::Excel);
    assert!(matches!(a, StartAction::Fail { message, error: OfficeError::InstallFailed(m) } if message == "officecli install failed" && m == "stderr"));
    let waiting = StartState::Waiting { attempt: 1, port: 4400 };
    let (_, a) = start_step(waiting, StartEvent::PortReady(Err(OfficeError::PortTimeout("/a.xlsx".into()))), DocType::Excel);
    assert!(matches!(a, StartAction::Fail { error: OfficeError::PortTimeout(_), .. }));
}

#[test]
fn events_must_answer_the_state() {
    assert!(start_event_fits(StartState::Checking, &StartEvent::Begin(None)));
    assert!(!start_event_fits(StartState::Checking, &StartEvent::Spawned(Ok(()))));
    assert!(!start_event_fits(StartState::Allocating(4), &StartEvent::PortAllocated(Ok(1))));
    assert!(!start_event_fits(StartState::Finished, &StartEvent::Begin(None)));
}
