use aionui::csv_preview::{csv_delimiter, csv_preview_workbook_path};
use aionui::extension::{default_i18n_directory, I18nConfig};
use aionui::files::save_to_workspace_enabled;
use aionui::ratings::{check_approval_action, check_rating_score, rating_id, stored_vote, ConversationRatingVote};
use aionui::workspace::ContentCounter;

#[test]
fn csv_preview_path_uses_xlsx_extension_under_data_dir() {
    let target = csv_preview_workbook_path("/data/My Report.csv", "/data", b"/data/My Report.csv:8:0:0");
    assert!(target.starts_with("/data/office-preview/csv/"));
    assert!(target.ends_with(".xlsx"));
    let name = target.rsplit('/').next().unwrap();
    assert!(name.starts_with("My_Report-"));
}

#[test]
fn csv_preview_path_names_the_sha1_digest() {
    // SHA-1 of "abc" starts with a9993e364706.
    assert_eq!(csv_preview_workbook_path("/d/r.csv", "/data", b"abc"), "/data/office-preview/csv/r-a9993e364706.xlsx");
}

#[test]
fn csv_delimiter_prefers_the_most_frequent_candidate() {
    assert_eq!(csv_delimiter(b"a;b;c\n1;2;3\n"), b';');
    assert_eq!(csv_delimiter(b"\"x;y\",b\n"), b',');
    assert_eq!(csv_delimiter(b"plain\n"), b',');
    assert_eq!(csv_delimiter(b"a\tb\n"), b'\t');
}

#[test]
fn test_i18n_config_default_directory() {
    let config = I18nConfig::with_default_directory(vec!["en".to_string()]);
    assert_eq!(config.directory, "i18n");
    assert_eq!(default_i18n_directory(), "i18n");
}

#[test]
fn save_to_workspace_reads_a_json_true() {
    assert!(save_to_workspace_enabled(Some("true")));
    assert!(save_to_workspace_enabled(Some(" true ")));
    assert!(!save_to_workspace_enabled(Some("false")));
    assert!(!save_to_workspace_enabled(Some("\"true\"")));
    assert!(!save_to_workspace_enabled(Some("1")));
    assert!(!save_to_workspace_enabled(None));
}

#[test]
fn rating_scores_follow_the_vote() {
    assert!(check_rating_score(ConversationRatingVote::Up, 6).is_ok());
    assert!(check_rating_score(ConversationRatingVote::Up, 5).is_err());
    assert!(check_rating_score(ConversationRatingVote::Down, 0).is_ok());
    assert!(check_rating_score(ConversationRatingVote::Down, 6).is_err());
}

#[test]
fn stored_votes_are_read_back() {
    assert!(matches!(stored_vote("up"), Ok(ConversationRatingVote::Up)));
    assert!(matches!(stored_vote("down"), Ok(ConversationRatingVote::Down)));
    assert!(stored_vote("sideways").is_err());
    assert_eq!(rating_id("abc"), "rating_abc");
    assert!(check_approval_action("  ").is_err());
    assert!(check_approval_action("approve").is_ok());
}

#[test]
fn content_counter_counts_across_chunks_and_invalid_utf8() {
    let mut c = ContentCounter::new("ab");
    c.feed(b"xxa");
    c.feed(b"bxab");
    assert_eq!(c.finish(), Some(2));

    let mut split = ContentCounter::new("\u{754c}");
    let bytes = "\u{754c}\u{754c}".as_bytes();
    split.feed(&bytes[..2]);
    split.feed(&bytes[2..]);
    assert_eq!(split.finish(), Some(2));

    let mut bad = ContentCounter::new("a");
    bad.feed(&[0xff, b'a']);
    assert_eq!(bad.finish(), None);
}
