use aionui::preview::{session_key, DocType, WatchRegistry, WatchSession};
use aionui::search::{Budget, MatchMode, NameMatcher, SearchLimitReason};

#[test]
fn exactly_the_first_limit_slots_are_granted() {
    let mut b = Budget::new(3);
    let granted: Vec<bool> = (0..5).map(|_| b.try_take()).collect();
    assert_eq!(granted, vec![true, true, true, false, false]);
    assert!(b.limit_reached());
}

#[test]
fn content_bytes_are_reserved_until_the_limit() {
    let mut b = Budget::with_content_byte_limit(10, 100);
    assert!(b.try_take_content_bytes(60));
    assert!(!b.try_take_content_bytes(50));
    assert!(b.try_take_content_bytes(40));
    assert_eq!(b.progress().searched_content_bytes, 100);
    assert!(b.limit_reached());
}

#[test]
fn an_empty_query_matches_every_name() {
    for mode in [MatchMode::Substring, MatchMode::Subsequence] {
        let m = NameMatcher::new("", mode);
        assert!(m.matches("anything.txt"));
        assert!(m.matches(""));
    }
}

fn session(user: &str, port: u16) -> WatchSession {
    WatchSession { key: session_key(user, "/f.docx", DocType::Word), port, aborted: false, process: port as u64 }
}

#[test]
fn stopping_previews_keeps_other_users() {
    let mut r = WatchRegistry::new();
    r.insert(session("user-a", 1));
    r.insert(session("user-b", 2));
    r.insert(WatchSession { key: session_key("user-a", "/g.xlsx", DocType::Excel), port: 3, aborted: false, process: 3 });
    assert_eq!(r.len(), 3);
    let removed = r.remove(&session_key("user-a", "/f.docx", DocType::Word));
    assert_eq!(removed.map(|s| s.port), Some(1));
    assert_eq!(r.len(), 2);
    assert!(r.is_active_port_for_user("user-b", 2, DocType::Word));
    let gone = r.remove_for_user("user-a");
    assert_eq!(gone.len(), 1);
    assert_eq!(r.len(), 1);
    assert!(r.is_active_port_for_user("user-b", 2, DocType::Word));
    assert!(r.remove(&session_key("user-a", "/f.docx", DocType::Word)).is_none());
}

#[test]
fn a_skipped_large_file_does_not_stop_a_walk() {
    let mut b = Budget::new(5);
    b.record_skipped_large_file();
    assert!(!b.limit_reached());
    assert_eq!(b.limit_reasons(), vec![SearchLimitReason::FileSizeLimit]);
    assert_eq!(b.progress().skipped_large_files, 1);
    b.mark_limit_reached(SearchLimitReason::ScanLimit);
    assert!(b.limit_reached());
}
