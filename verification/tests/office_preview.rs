use aionui::paths::is_csv_file_path;
use aionui::preview::{
    is_port_in_use_start_failure, public_preview_error_message, session_key, truncate_csv_cell,
    DocType, OfficeError, EXCEL_MAX_CELL_CHARS,
};

#[test]
fn session_key_preserves_fields() {
    let key = session_key("user-1", "/path/to/doc.docx", DocType::Word);
    assert_eq!(key.user_id, "user-1");
    assert_eq!(key.doc_type, DocType::Word);
    assert_eq!(key.resolved_path, "/path/to/doc.docx");
}

#[test]
fn session_key_different_doc_types() {
    let k1 = session_key("user-1", "/a.docx", DocType::Word);
    let k2 = session_key("user-1", "/a.docx", DocType::Excel);
    assert_ne!(k1, k2);
}

#[test]
fn session_key_different_users() {
    let k1 = session_key("user-1", "/a.docx", DocType::Word);
    let k2 = session_key("user-2", "/a.docx", DocType::Word);
    assert_ne!(k1, k2);
}

#[test]
fn session_key_keeps_user_type_and_path_boundaries() {
    let first = session_key("user:word", "/a.docx", DocType::Excel);
    let second = session_key("user", "word:/a.docx", DocType::Excel);
    assert_ne!(first, second);
}

#[test]
fn install_failed_public_preview_message_is_sanitized() {
    let err = OfficeError::InstallFailed("installer stderr".into());
    assert_eq!(public_preview_error_message(&err), "officecli install failed");
}

#[test]
fn port_in_use_start_failure_detects_platform_messages() {
    for message in [
        "Address already in use (os error 98)",
        "Address already in use (os error 48)",
        "Only one usage of each socket address (protocol/network address/port) is normally permitted. (os error 10048)",
    ] {
        assert!(is_port_in_use_start_failure(&OfficeError::StartFailed(message.into())));
    }
}

#[test]
fn port_in_use_start_failure_ignores_other_errors() {
    assert!(!is_port_in_use_start_failure(&OfficeError::StartFailed("mock spawn failure".into())));
    assert!(!is_port_in_use_start_failure(&OfficeError::OfficecliNotFound));
}

#[test]
fn csv_detection_is_case_insensitive() {
    assert!(is_csv_file_path("/tmp/data.csv"));
    assert!(is_csv_file_path("/tmp/data.CSV"));
    assert!(!is_csv_file_path("/tmp/data.xlsx"));
}

#[test]
fn csv_cell_is_truncated_at_excel_character_limit() {
    let value = "界".repeat(EXCEL_MAX_CELL_CHARS + 1);

    let truncated = truncate_csv_cell(&value);

    assert_eq!(truncated.chars().count(), EXCEL_MAX_CELL_CHARS);
}

#[test]
fn csv_cell_within_limit_is_kept_whole() {
    assert_eq!(truncate_csv_cell("Alice"), "Alice");
}
