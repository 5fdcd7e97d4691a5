use aionui::api_errors::{api_error_from, ApiError, ConversationError, DetailValue};

#[test]
fn conversation_not_found_maps_to_app_not_found() {
    let app = api_error_from(ConversationError::NotFound { id: "conv_1".into() });
    assert!(matches!(app, ApiError::NotFound(message) if message == "Conversation conv_1 not found"));
}

#[test]
fn conversation_archived_maps_to_app_conversation_archived() {
    let app = api_error_from(ConversationError::Archived { id: "conv_1".into(), reason: "legacy runtime".into() });
    assert!(matches!(app, ApiError::ConversationArchived(message) if message == "legacy runtime"));
}

#[test]
fn message_not_found_maps_to_app_not_found() {
    let app = api_error_from(ConversationError::MessageNotFound { id: "msg_1".into() });
    assert!(matches!(app, ApiError::NotFound(message) if message == "Message msg_1 not found"));
}

#[test]
fn artifact_not_found_maps_to_app_not_found() {
    let app = api_error_from(ConversationError::ArtifactNotFound { id: "artifact_1".into() });
    assert!(matches!(app, ApiError::NotFound(message) if message == "Artifact artifact_1 not found"));
}

#[test]
fn active_agent_not_found_maps_to_app_not_found() {
    let app = api_error_from(ConversationError::ActiveAgentNotFound { conversation_id: "conv_1".into() });
    assert!(matches!(app, ApiError::NotFound(message) if message == "No active agent for this conversation"));
}

#[test]
fn conversation_api_error_compat_preserves_special_codes() {
    let app = api_error_from(ConversationError::WorkspacePathRuntimeUnavailable { path: "/tmp/my project".into() });
    assert!(matches!(
        app,
        ApiError::WorkspacePathRuntimeUnavailable(message) if message == "/tmp/my project"
    ));
}

#[test]
fn openclaw_gateway_unreachable_maps_to_coded_bad_gateway() {
    let app = api_error_from(ConversationError::OpenClawGatewayUnreachable {
        detail: "OpenClaw Gateway is not running or cannot be reached at 127.0.0.1:18789.".into(),
    });

    assert_eq!(app.status_code(), Some(502));
    assert_eq!(app.error_code().as_deref(), Some("USER_AGENT_OPENCLAW_GATEWAY_UNREACHABLE"));
    assert_eq!(app.public_message().as_deref(), Some("OpenClaw Gateway is not reachable"));
    assert_eq!(app.error_detail("backend"), Some(DetailValue::Text("openclaw".into())));
    assert_eq!(app.error_detail("port"), Some(DetailValue::Number(18789)));
}

#[test]
fn bad_request_keeps_its_reason() {
    let app = api_error_from(ConversationError::BadRequest { reason: "no".into() });
    assert!(matches!(app, ApiError::BadRequest(message) if message == "no"));
}

#[test]
fn plain_errors_carry_no_coded_details() {
    let app = api_error_from(ConversationError::NotFound { id: "c".into() });
    assert_eq!(app.error_detail("backend"), None);
}

#[test]
fn only_administrators_pass() {
    assert!(aionui::api_errors::require_admin(true).is_ok());
    assert!(matches!(
        aionui::api_errors::require_admin(false),
        Err(ApiError::Forbidden(m)) if m == "Administrator access required"
    ));
}
