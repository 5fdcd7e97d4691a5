use aionui::upload::{
    resolve_upload_max_size_bytes_from, upload_max_size_bytes, BootstrapErrorCode, MIB,
};

const DEFAULT_LIMIT: usize = 100 * 1024 * 1024;

#[test]
fn upload_max_size_converts_mib_to_bytes() {
    assert_eq!(upload_max_size_bytes(256, "test").unwrap(), 256 * 1024 * 1024);
}

#[test]
fn upload_max_size_rejects_zero() {
    let error = upload_max_size_bytes(0, "test").unwrap_err();
    assert_eq!(error.code(), BootstrapErrorCode::ConfigInvalid);
    assert_eq!(error.stage(), "config.upload_max_size_mb");
}

#[test]
fn upload_max_size_rejects_overflow() {
    let error = upload_max_size_bytes(usize::MAX, "test").unwrap_err();
    assert_eq!(error.code(), BootstrapErrorCode::ConfigInvalid);
}

#[test]
fn upload_max_size_uses_cli_before_environment() {
    assert_eq!(
        resolve_upload_max_size_bytes_from(Some(64), Some("invalid"), DEFAULT_LIMIT).unwrap(),
        64 * MIB
    );
}

#[test]
fn upload_max_size_uses_environment_when_cli_is_absent() {
    assert_eq!(
        resolve_upload_max_size_bytes_from(None, Some("128"), DEFAULT_LIMIT).unwrap(),
        128 * MIB
    );
}

#[test]
fn upload_max_size_uses_default_when_not_configured() {
    assert_eq!(resolve_upload_max_size_bytes_from(None, None, DEFAULT_LIMIT).unwrap(), DEFAULT_LIMIT);
}

#[test]
fn upload_max_size_rejects_invalid_environment_value() {
    let error = resolve_upload_max_size_bytes_from(None, Some("large"), DEFAULT_LIMIT).unwrap_err();
    assert_eq!(error.code(), BootstrapErrorCode::ConfigInvalid);
    assert_eq!(error.stage(), "config.upload_max_size_mb");
}

#[test]
fn upload_max_size_blank_environment_keeps_default() {
    assert_eq!(resolve_upload_max_size_bytes_from(None, Some("   "), DEFAULT_LIMIT).unwrap(), DEFAULT_LIMIT);
}

#[test]
fn upload_max_size_environment_value_is_trimmed() {
    assert_eq!(resolve_upload_max_size_bytes_from(None, Some(" 32 "), DEFAULT_LIMIT).unwrap(), 32 * MIB);
}

#[test]
fn upload_max_size_rejects_zero_from_command_line() {
    let error = resolve_upload_max_size_bytes_from(Some(0), None, DEFAULT_LIMIT).unwrap_err();
    assert_eq!(error.code(), BootstrapErrorCode::ConfigInvalid);
}

#[test]
fn logs_default_to_the_data_directory() {
    assert_eq!(aionui::upload::log_directory(None, "/var/aionui"), "/var/aionui/logs");
    assert_eq!(aionui::upload::log_directory(Some("/tmp/l".into()), "/var/aionui"), "/tmp/l");
}
