use aionui::api_errors::ConversationError;
use aionui::codec::{
    decode_message_cursor, decode_search_message_cursor, encode_message_cursor,
    encode_search_message_cursor, frame_workspace_cursor, message_cursor_fields,
    message_cursor_position, search_cursor_fields, search_cursor_position,
    unframe_workspace_cursor, MessageCursorV1, MessagePageCursor, MessageSearchCursorV1,
};
use serde_json::Value;

fn bad(reason: &str) -> ConversationError {
    ConversationError::BadRequest { reason: reason.to_string() }
}

fn page_json(f: &MessageCursorV1) -> Vec<u8> {
    let mut m = serde_json::Map::new();
    m.insert("created_at".to_string(), Value::from(f.created_at));
    m.insert("id".to_string(), Value::from(f.id.clone()));
    serde_json::to_vec(&Value::Object(m)).unwrap()
}

fn search_json(f: &MessageSearchCursorV1) -> Vec<u8> {
    let mut m = serde_json::Map::new();
    m.insert("created_at".to_string(), Value::from(f.created_at));
    m.insert("id".to_string(), Value::from(f.id.clone()));
    m.insert("keyword".to_string(), Value::from(f.keyword.clone()));
    m.insert("user_id".to_string(), Value::from(f.user_id.clone()));
    m.insert("user_only".to_string(), Value::from(f.user_only));
    serde_json::to_vec(&Value::Object(m)).unwrap()
}

fn encode_page(cursor: &MessagePageCursor) -> String {
    encode_message_cursor(&page_json(&message_cursor_fields(cursor)))
}

fn decode_page(raw: &str) -> Result<MessagePageCursor, ConversationError> {
    let bytes = decode_message_cursor(raw)?;
    let v: Value = serde_json::from_slice(&bytes).map_err(|_| bad("invalid message cursor"))?;
    let created_at = v.get("created_at").and_then(Value::as_i64).ok_or_else(|| bad("invalid message cursor"))?;
    let id = v.get("id").and_then(Value::as_str).ok_or_else(|| bad("invalid message cursor"))?;
    message_cursor_position(MessageCursorV1 { created_at, id: id.to_string() })
}

fn encode_search(cursor: &MessagePageCursor, keyword: &str, user_id: &str, user_only: bool) -> String {
    encode_search_message_cursor(&search_json(&search_cursor_fields(cursor, keyword, user_id, user_only)))
}

fn decode_search(raw: &str, keyword: &str, user_id: &str, user_only: bool) -> Result<MessagePageCursor, ConversationError> {
    let invalid = || bad("invalid message search cursor");
    let bytes = decode_search_message_cursor(raw)?;
    let v: Value = serde_json::from_slice(&bytes).map_err(|_| invalid())?;
    let fields = MessageSearchCursorV1 {
        created_at: v.get("created_at").and_then(Value::as_i64).ok_or_else(invalid)?,
        id: v.get("id").and_then(Value::as_str).ok_or_else(invalid)?.to_string(),
        keyword: v.get("keyword").and_then(Value::as_str).ok_or_else(invalid)?.to_string(),
        user_id: v.get("user_id").and_then(Value::as_str).ok_or_else(invalid)?.to_string(),
        user_only: v.get("user_only").and_then(Value::as_bool).unwrap_or(false),
    };
    search_cursor_position(fields, keyword, user_id, user_only)
}

fn key() -> MessagePageCursor {
    MessagePageCursor { created_at: 1234, id: "msg-b".to_string() }
}

#[test]
fn message_cursor_round_trips_created_at_and_id() {
    let cursor = encode_page(&key());
    assert!(cursor.starts_with("v1."));
    assert_eq!(decode_page(&cursor).unwrap(), key());
}

#[test]
fn message_cursor_rejects_invalid_shapes() {
    for raw in ["", "v2.abc", "v1.%%%%", "v1.e30", "v1.eyJjcmVhdGVkX2F0IjoxLCJpZCI6IiJ9"] {
        let err = decode_page(raw).unwrap_err();
        assert!(matches!(err, ConversationError::BadRequest { reason } if reason == "invalid message cursor"));
    }
}

#[test]
fn search_cursor_is_bound_to_keyword() {
    let cursor = encode_search(&key(), "  keyword ", "user-1", false);
    assert_eq!(decode_search(&cursor, "keyword", "user-1", false).unwrap(), key());
    assert!(matches!(
        decode_search(&cursor, "other", "user-1", false),
        Err(ConversationError::BadRequest { reason }) if reason == "invalid message search cursor"
    ));
    assert!(matches!(
        decode_search(&cursor, "keyword", "user-2", false),
        Err(ConversationError::BadRequest { reason }) if reason == "invalid message search cursor"
    ));
}

#[test]
fn search_cursor_is_bound_to_scope() {
    let all_scope = encode_search(&key(), "keyword", "user-1", false);
    assert_eq!(decode_search(&all_scope, "keyword", "user-1", false).unwrap(), key());
    assert!(matches!(
        decode_search(&all_scope, "keyword", "user-1", true),
        Err(ConversationError::BadRequest { reason }) if reason == "invalid message search cursor"
    ));

    let user_scope = encode_search(&key(), "keyword", "user-1", true);
    assert_eq!(decode_search(&user_scope, "keyword", "user-1", true).unwrap(), key());
    assert!(matches!(
        decode_search(&user_scope, "keyword", "user-1", false),
        Err(ConversationError::BadRequest { reason }) if reason == "invalid message search cursor"
    ));
}

#[test]
fn search_cursor_without_scope_decodes_as_whole_transcript() {
    let legacy = encode_search_message_cursor(
        b"{\"created_at\":1234,\"id\":\"msg-b\",\"keyword\":\"keyword\",\"user_id\":\"user-1\"}",
    );
    assert_eq!(decode_search(&legacy, "keyword", "user-1", false).unwrap(), key());
    assert!(matches!(
        decode_search(&legacy, "keyword", "user-1", true),
        Err(ConversationError::BadRequest { reason }) if reason == "invalid message search cursor"
    ));
}

#[test]
fn page_tokens_are_not_search_tokens() {
    let page = encode_page(&key());
    assert!(decode_search_message_cursor(&page).is_err());
    let search = encode_search(&key(), "k", "u", false);
    assert!(decode_message_cursor(&search).is_err());
}

#[test]
fn message_cursor_token_is_base64_of_the_json() {
    assert_eq!(encode_message_cursor(b"{}"), "v1.e30");
    assert_eq!(decode_message_cursor("v1.e30").unwrap(), b"{}".to_vec());
}

#[test]
fn workspace_cursor_frames_plain_base64() {
    assert_eq!(frame_workspace_cursor(b"{}"), "e30");
    assert_eq!(unframe_workspace_cursor("e30").unwrap(), b"{}".to_vec());
    assert!(matches!(
        unframe_workspace_cursor("%%%"),
        Err(ConversationError::BadRequest { reason }) if reason == "cursor is invalid"
    ));
}
