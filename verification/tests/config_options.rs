use aionui::api_errors::ConversationError;
use aionui::config_options::{
    check_config_option_request, config_option_category, runtime_preference_for, ConfigOptionInfo,
    RuntimePreferenceKind,
};

#[test]
fn blank_option_id_is_refused_first() {
    assert!(matches!(
        check_config_option_request("  ", ""),
        Err(ConversationError::BadRequest { reason }) if reason == "option_id must not be empty"
    ));
    assert!(matches!(
        check_config_option_request("model", " "),
        Err(ConversationError::BadRequest { reason }) if reason == "value must not be empty"
    ));
    assert!(check_config_option_request("model", "gpt").is_ok());
}

#[test]
fn category_comes_from_the_reported_option() {
    let options = vec![
        ConfigOptionInfo { id: "opt-1".into(), category: Some("model".into()) },
        ConfigOptionInfo { id: "opt-2".into(), category: None },
        ConfigOptionInfo { id: "opt-1".into(), category: Some("mode".into()) },
    ];
    assert_eq!(config_option_category(Some(&options), "opt-1"), "model");
    assert_eq!(config_option_category(Some(&options), "opt-2"), "opt-2");
    assert_eq!(config_option_category(Some(&options), "other"), "other");
    assert_eq!(config_option_category(None, "mode"), "mode");
}

#[test]
fn categories_map_to_saved_preferences() {
    assert_eq!(runtime_preference_for("model"), Some(RuntimePreferenceKind::Model));
    assert_eq!(runtime_preference_for("mode"), Some(RuntimePreferenceKind::Permission));
    assert_eq!(runtime_preference_for("thought_level"), Some(RuntimePreferenceKind::ThoughtLevel));
    assert_eq!(runtime_preference_for("reasoning_effort"), Some(RuntimePreferenceKind::ThoughtLevel));
    assert_eq!(runtime_preference_for("temperature"), None);
}
