use aionui::catalog::SearchEntry;
use aionui::provider::{ContentSource, FileProbe, LocalFsProvider};
use aionui::search::{Budget, CancellationToken, MatchMode, SearchMode, SearchQuery};

struct NoContent;

impl ContentSource for NoContent {
    fn probe(&self, _path: &str) -> FileProbe {
        FileProbe::Missing
    }

    fn read(&self, _path: &str) -> Option<Vec<u8>> {
        None
    }
}

fn catalog() -> (Vec<SearchEntry>, bool) {
    let entries = ["a1.txt", "a2.txt", "b.txt", "a3.txt"]
        .iter()
        .map(|p| SearchEntry { relative_path: p.to_string(), is_directory: false })
        .collect();
    (entries, false)
}

#[test]
fn a_search_continues_under_a_fresh_token() {
    let mut provider = LocalFsProvider::new();
    let query = SearchQuery::new("a", SearchMode::Name, MatchMode::Substring);
    let cancel = CancellationToken::new();

    let mut hits = Vec::new();
    let mut budget = Budget::new(1);
    let first = provider
        .search_page("/root", &query, &NoContent, &mut hits, &mut budget, &cancel, None, catalog(), 1_000)
        .unwrap();
    assert_eq!(hits.len(), 1);
    assert_eq!(hits[0].relative_path, "a1.txt");
    let token = first.next_after.expect("a continuation token");
    assert_eq!(token.len(), 36);

    let mut rest = Vec::new();
    let mut budget = Budget::new(10);
    let second = provider
        .search_page("/root", &query, &NoContent, &mut rest, &mut budget, &cancel, Some(token.clone()), (Vec::new(), false), 2_000)
        .unwrap();
    let names: Vec<&str> = rest.iter().map(|h| h.relative_path.as_str()).collect();
    assert_eq!(names, vec!["a2.txt", "a3.txt"]);
    assert!(second.next_after.is_none());

    // The session left the store with the last page.
    let mut again = Vec::new();
    let mut budget = Budget::new(10);
    assert!(provider
        .search_page("/root", &query, &NoContent, &mut again, &mut budget, &cancel, Some(token), (Vec::new(), false), 3_000)
        .is_err());
}

#[test]
fn two_searches_get_different_tokens() {
    let mut provider = LocalFsProvider::new();
    let query = SearchQuery::new("a", SearchMode::Name, MatchMode::Substring);
    let cancel = CancellationToken::new();
    let mut tokens = Vec::new();
    for _ in 0..2 {
        let mut hits = Vec::new();
        let mut budget = Budget::new(1);
        let r = provider
            .search_page("/root", &query, &NoContent, &mut hits, &mut budget, &cancel, None, catalog(), 1_000)
            .unwrap();
        tokens.push(r.next_after.unwrap());
    }
    assert_ne!(tokens[0], tokens[1]);
}

#[test]
fn a_cancelled_page_is_not_reported_exhausted() {
    let mut provider = LocalFsProvider::new();
    let query = SearchQuery::new("a", SearchMode::Name, MatchMode::Substring);
    let mut cancel = CancellationToken::new();
    cancel.cancel();
    let mut hits = Vec::new();
    let mut budget = Budget::new(10);
    let r = provider
        .search_page("/root", &query, &NoContent, &mut hits, &mut budget, &cancel, None, catalog(), 1_000)
        .unwrap();
    assert!(hits.is_empty());
    assert_eq!(r.next_after.as_deref(), Some(""));

    let mut hits = Vec::new();
    let empty = provider
        .search_page("/root", &query, &NoContent, &mut hits, &mut budget, &cancel, None, (Vec::new(), false), 1_000)
        .unwrap();
    assert!(empty.next_after.is_none());
}
