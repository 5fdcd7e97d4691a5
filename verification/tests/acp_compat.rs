use aionui::acp_compat::{normalize_incoming_line, normalize_value, JsonValue};
use serde_json::Value;

#[test]
fn model_aliases_are_normalized_without_dropping_valid_entries() {
    let line = r#"{"jsonrpc":"2.0","method":"session/update","params":{"update":{"availableModels":[{"id":"opus","name":"Opus"},{"model_id":"sonnet","name":"Sonnet"},{"name":"broken"}]}}}"#;
    let normalized: Value = serde_json::from_str(&normalize_incoming_line(line)).unwrap();
    let models = normalized.pointer("/params/update/availableModels").unwrap().as_array().unwrap();
    assert_eq!(models.len(), 2);
    assert_eq!(models[0]["modelId"], "opus");
    assert_eq!(models[1]["modelId"], "sonnet");
}

#[test]
fn unrelated_and_malformed_lines_are_forwarded_verbatim() {
    let unrelated = r#"{"jsonrpc":"2.0","method":"session/update","params":{"update":{"text":"hello"}}}"#;
    assert_eq!(normalize_incoming_line(unrelated), unrelated);
    assert_eq!(normalize_incoming_line("not-json"), "not-json");
}

#[test]
fn snake_case_catalog_key_is_renamed() {
    let line = r#"{"available_models":[{"modelId":"a"}],"n":1.5}"#;
    let normalized: Value = serde_json::from_str(&normalize_incoming_line(line)).unwrap();
    assert!(normalized.get("available_models").is_none());
    assert_eq!(normalized["availableModels"][0]["modelId"], "a");
    assert_eq!(normalized["n"], 1.5);
}

#[test]
fn blank_model_ids_are_dropped_and_model_id_wins_over_id() {
    let line = r#"{"availableModels":[{"modelId":"  "},{"model_id":"m","id":"i"},"text"]}"#;
    let normalized: Value = serde_json::from_str(&normalize_incoming_line(line)).unwrap();
    let models = normalized["availableModels"].as_array().unwrap();
    assert_eq!(models.len(), 1);
    assert_eq!(models[0]["modelId"], "m");
    assert_eq!(models[0]["id"], "i");
}

#[test]
fn nested_catalogs_are_rewritten_and_unchanged_values_flagged() {
    let (_, changed) = normalize_value(JsonValue::Array(vec![JsonValue::Null, JsonValue::Bool(true)]));
    assert!(!changed);
    let nested = JsonValue::Array(vec![JsonValue::Object(vec![(
        "available_models".to_string(),
        JsonValue::Array(vec![]),
    )])]);
    let (value, changed) = normalize_value(nested);
    assert!(changed);
    match value {
        JsonValue::Array(items) => match &items[0] {
            JsonValue::Object(fields) => assert_eq!(fields[0].0, "availableModels"),
            other => panic!("unexpected {other:?}"),
        },
        other => panic!("unexpected {other:?}"),
    }
}
