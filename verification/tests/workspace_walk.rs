use aionui::workspace::{
    ContentCounter, FileKind, WalkDecision, WalkedPath, WorkspaceSearchMatchKind, WorkspaceSearchMode, WorkspaceWalk,
    MAX_WORKSPACE_SEARCH_RESULTS, WORKSPACE_SEARCH_CHUNK_BYTES,
};

fn file(path: &str, size: u64) -> WalkedPath {
    WalkedPath { path: path.into(), kind: Some(FileKind::File), size: Some(size) }
}

#[test]
fn a_content_count_is_asked_for_and_recorded() {
    let mut walk = WorkspaceWalk::new("/w".into(), "/w".into(), "needle", WorkspaceSearchMode::Content, 0);
    assert!(!walk.content_pending());
    assert_eq!(walk.visit(&file("/w/a.txt", 10)), WalkDecision::CountContent);
    assert!(walk.content_pending());
    walk.record_content(3);
    assert!(!walk.content_pending());
    assert_eq!(walk.visit(&file("/w/b.txt", 10)), WalkDecision::CountContent);
    walk.record_content(0);
    let (entries, scanned, truncated, next) = walk.into_page("needle".into(), false);
    assert_eq!(scanned, 2);
    assert!(!truncated);
    assert!(next.is_none());
    assert_eq!(entries.len(), 1);
    assert_eq!(entries[0].name, "a.txt");
    assert_eq!(entries[0].match_kind, Some(WorkspaceSearchMatchKind::Content));
    assert_eq!(entries[0].content_match_count, Some(3));
}

#[test]
fn a_path_without_a_file_type_is_passed_over_without_being_scanned() {
    let mut walk = WorkspaceWalk::new("/w".into(), "/w".into(), "x", WorkspaceSearchMode::Name, 0);
    let untyped = WalkedPath { path: "/w/x-link".into(), kind: None, size: None };
    assert_eq!(walk.visit(&untyped), WalkDecision::Skip);
    assert_eq!(walk.visit(&file("/w/x.txt", 1)), WalkDecision::Handled);
    let (entries, scanned, _, _) = walk.into_page("x".into(), false);
    assert_eq!(scanned, 1);
    assert_eq!(entries.len(), 1);
}

#[test]
fn a_page_passes_the_paths_before_its_cursor() {
    let mut walk = WorkspaceWalk::new("/w".into(), "/w".into(), "f", WorkspaceSearchMode::Name, 2);
    assert_eq!(walk.visit(&WalkedPath { path: "/w".into(), kind: Some(FileKind::Dir), size: None }), WalkDecision::Skip);
    assert_eq!(walk.visit(&file("/w/f1", 1)), WalkDecision::Skip);
    assert_eq!(walk.visit(&file("/w/f2", 1)), WalkDecision::Skip);
    assert_eq!(walk.visit(&file("/w/f3", 1)), WalkDecision::Handled);
    let (entries, scanned, _, _) = walk.into_page("f".into(), false);
    assert_eq!(scanned, 1);
    assert_eq!(entries[0].name, "f3");
}

fn content_page(cursor: usize) -> (Vec<String>, bool, Option<usize>) {
    let mut walk = WorkspaceWalk::new("/t".into(), "/t".into(), "needle", WorkspaceSearchMode::Content, cursor);
    let mut paths = vec![WalkedPath { path: "/t".into(), kind: Some(FileKind::Dir), size: None }];
    for index in 0..210 {
        paths.push(file(&format!("/t/match-{index:03}.txt"), 6));
    }
    for p in &paths {
        match walk.visit(p) {
            WalkDecision::Stop => break,
            WalkDecision::CountContent => {
                let mut counter = ContentCounter::new("needle");
                counter.feed(b"needle");
                walk.record_content(counter.finish().unwrap_or(0));
            }
            WalkDecision::Skip | WalkDecision::Handled => {}
        }
    }
    let (entries, _, truncated, next) = walk.into_page("needle".into(), false);
    (entries.into_iter().map(|e| e.name).collect(), truncated, next.map(|c| c.index))
}

#[test]
fn workspace_search_cursor_continues_after_result_limit() {
    let (first, truncated, next) = content_page(0);
    assert_eq!(first.len(), MAX_WORKSPACE_SEARCH_RESULTS);
    assert!(truncated);
    let next_cursor = next.expect("continuation cursor");
    let (second, truncated2, _) = content_page(next_cursor);
    assert_eq!(second.len(), 10);
    assert!(!truncated2);
    let first_names: std::collections::HashSet<_> = first.iter().collect();
    assert!(second.iter().all(|name| !first_names.contains(name)));
}

#[test]
fn workspace_search_reads_large_text_files() {
    let mut content = "x".repeat(600 * 1024);
    content.push_str(" needle");
    let mut walk = WorkspaceWalk::new("/t".into(), "/t".into(), "needle", WorkspaceSearchMode::Content, 0);
    let large = file("/t/large.txt", content.len() as u64);
    assert_eq!(walk.visit(&large), WalkDecision::CountContent);
    let mut counter = ContentCounter::new("needle");
    for chunk in content.as_bytes().chunks(WORKSPACE_SEARCH_CHUNK_BYTES) {
        counter.feed(chunk);
    }
    walk.record_content(counter.finish().unwrap_or(0));
    let (entries, _, _, _) = walk.into_page("needle".into(), false);
    assert_eq!(entries[0].name, "large.txt");
    assert_eq!(entries[0].content_match_count, Some(1));
}
