use aionui::api_errors::{ApiError, ConversationError};
use aionui::config_options::{switch_answered, switch_begin, ConfigOptionInfo, RuntimePreferenceKind, SwitchAction, SwitchFailure, SwitchReply};
use aionui::ratings::{rating_step, ConversationRatingVote, MessagePosition, RatedMessage, RatingAction, RatingEvent, RatingState};
use aionui::workspace::{browse_allowed, browse_plan};

fn right() -> RatedMessage {
    RatedMessage { is_text: true, position: Some(MessagePosition::Right) }
}

fn left() -> RatedMessage {
    RatedMessage { is_text: true, position: Some(MessagePosition::Left) }
}

#[test]
fn a_rating_runs_through_every_check() {
    let vote = ConversationRatingVote::Up;
    let (s, a) = rating_step(RatingState::CheckingConversation, RatingEvent::ConversationChecked(Ok(())), vote, 8);
    assert!(matches!(a, RatingAction::LoadQuestion));
    let (s, a) = rating_step(s, RatingEvent::QuestionLoaded(Ok(right())), vote, 8);
    assert!(matches!(a, RatingAction::LoadAnswer));
    let (s, a) = rating_step(s, RatingEvent::AnswerLoaded(Ok(left())), vote, 8);
    assert_eq!(s, RatingState::Saving);
    assert!(matches!(a, RatingAction::Save));
    let (s, a) = rating_step(s, RatingEvent::Saved(Ok("up".into())), vote, 8);
    assert_eq!(s, RatingState::Finished);
    assert!(matches!(a, RatingAction::Respond(ConversationRatingVote::Up)));
}

#[test]
fn a_rating_stops_at_the_first_failed_check() {
    let (_, a) = rating_step(RatingState::CheckingConversation, RatingEvent::ConversationChecked(Ok(())), ConversationRatingVote::Down, 6);
    assert!(matches!(a, RatingAction::Fail(ApiError::BadRequest(m)) if m == "dislike score must be between 0 and 5"));
    let (_, a) = rating_step(RatingState::LoadingAnswer(left()), RatingEvent::AnswerLoaded(Ok(left())), ConversationRatingVote::Up, 7);
    assert!(matches!(a, RatingAction::Fail(ApiError::BadRequest(m)) if m == "question_message_id must reference a right-side text message"));
    let (_, a) = rating_step(RatingState::LoadingAnswer(right()), RatingEvent::AnswerLoaded(Ok(right())), ConversationRatingVote::Up, 7);
    assert!(matches!(a, RatingAction::Fail(ApiError::BadRequest(m)) if m == "answer_message_id must reference a left-side text message"));
    let (_, a) = rating_step(RatingState::Saving, RatingEvent::Saved(Ok("meh".into())), ConversationRatingVote::Up, 7);
    assert!(matches!(a, RatingAction::Fail(ApiError::Internal(m)) if m == "invalid stored rating vote"));
    let (_, a) = rating_step(RatingState::CheckingConversation, RatingEvent::ConversationChecked(Err(ApiError::NotFound("c".into()))), ConversationRatingVote::Up, 7);
    assert!(matches!(a, RatingAction::Fail(ApiError::NotFound(_))));
}

#[test]
fn an_observed_model_switch_is_saved() {
    assert!(matches!(switch_begin("model", "gpt"), SwitchAction::CallAgent));
    assert!(matches!(switch_begin(" ", "gpt"), SwitchAction::Fail { evict: false, .. }));
    let reply = SwitchReply {
        observed: true,
        options: Some(vec![ConfigOptionInfo { id: "o1".into(), category: Some("model".into()) }]),
    };
    assert!(matches!(switch_answered(Ok(reply), "o1"), SwitchAction::Persist(RuntimePreferenceKind::Model)));
    let ack = SwitchReply { observed: false, options: None };
    assert!(matches!(switch_answered(Ok(ack), "model"), SwitchAction::Respond));
    let gone = SwitchFailure { not_connected: true, error: ConversationError::Internal { reason: "gone".into() } };
    assert!(matches!(switch_answered(Err(gone), "model"), SwitchAction::Fail { evict: true, .. }));
}

#[test]
fn browse_requests_are_planned_and_checked() {
    let plan = browse_plan(Some(" /ws "), "/src/lib").unwrap();
    assert_eq!(plan.workspace, "/ws");
    assert_eq!(plan.target, "/ws/src/lib");
    assert!(browse_allowed(&plan, "/real/ws/src/lib", "/real/ws").is_ok());
    assert!(matches!(
        browse_plan(None, "/src"),
        Err(ConversationError::BadRequest { reason }) if reason == "Conversation has no workspace assigned"
    ));
    assert!(matches!(
        browse_plan(Some("/ws"), "../etc"),
        Err(ConversationError::BadRequest { reason }) if reason == "Path traversal outside workspace is not allowed"
    ));
    let deep = browse_plan(Some("/ws"), "a/b/c/d/e/f/g/h/i/j/k").unwrap();
    assert!(matches!(
        browse_allowed(&deep, "/ws/a/b/c/d/e/f/g/h/i/j/k", "/ws"),
        Err(ConversationError::BadRequest { reason }) if reason == "Directory depth exceeds maximum of 10"
    ));
}
