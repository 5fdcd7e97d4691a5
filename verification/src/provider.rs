//! The local-disk search provider: content search of one file, the walk of
//! a catalog page, the bounded building of a catalog, and the paging of a
//! search across continuation sessions.
use vstd::prelude::*;
use vstd::utf8::{decode_utf8, valid_utf8};

use crate::catalog::{
    CONTINUATION_EXPIRED, CONTINUATION_MISMATCH, FsError, MAX_SEARCH_CATALOG_BYTES,
    MAX_SEARCH_FILE_BYTES, MAX_SEARCH_SCANNED_FILES, SearchEntry, SearchSession, SearchSessionStore,
    has_token,
};
use crate::content::{content_match, content_match_spec, is_binary, looks_binary, utf8_string};
use crate::paths::{file_name, file_name_spec};
use crate::search::{
    Budget, BudgetView, CancellationToken, ProviderSearchHit, SearchLimitReason, SearchMatchKind,
    SearchQuery, SearchWalkResult,
};
use crate::text::{chars_of, owned, push_str, str_ends_with, str_starts_with};

verus! {

/// What the filesystem says of a path before its content is read.
#[derive(Debug, Clone, Copy, PartialEq, Eq, Structural)]
pub enum FileProbe {
    /// The metadata could not be read.
    Missing,
    /// The path is not a regular file.
    NotFile,
    /// A regular file of the given length in bytes.
    File(u64),
}

/// Access to file contents for a content search. Implementations read the
/// disk; nothing is promised of what they return.
pub trait ContentSource {
    /// The metadata of `path`.
    fn probe(&self, path: &str) -> FileProbe;

    /// The whole content of `path`, or `None` when it cannot be read.
    fn read(&self, path: &str) -> Option<Vec<u8>>;
}

/// The outcome of searching one file's content.
#[derive(Debug, Clone, PartialEq, Eq)]
pub enum ContentSearch {
    NoMatch,
    /// The number of occurrences and the preview line.
    Match(usize, Option<String>),
    /// The content-byte budget cannot cover the file.
    BudgetExhausted,
}

/// What the admission of one file to content search decided.
#[derive(Debug, Clone, Copy, PartialEq, Eq, Structural)]
pub enum ContentAdmission {
    /// The file is not searched.
    Skip,
    /// The content-byte budget is exhausted.
    Exhausted,
    /// The file is to be read.
    Read,
}

/// Decides, from its metadata, whether a file's content is read: missing
/// paths and non-files are skipped, files over [`MAX_SEARCH_FILE_BYTES`] are
/// skipped and counted, and the file's length is reserved from the
/// content-byte budget before a read.
pub fn admit_content(probe: FileProbe, budget: &mut Budget) -> (r: ContentAdmission)
    ensures
        match probe {
            FileProbe::Missing | FileProbe::NotFile => r == ContentAdmission::Skip && final(budget)@ == old(budget)@,
            FileProbe::File(len) => if len > MAX_SEARCH_FILE_BYTES {
                r == ContentAdmission::Skip && final(budget)@ == (BudgetView {
                    skipped_large_files: crate::search::wrap_usize(
                        old(budget)@.skipped_large_files as int,
                        1,
                    ) as nat,
                    hit_cap: true,
                    reasons: old(budget)@.reasons.insert(SearchLimitReason::FileSizeLimit),
                    ..old(budget)@
                })
            } else if len <= old(budget)@.remaining_content_bytes {
                r == ContentAdmission::Read && final(budget)@ == (BudgetView {
                    remaining_content_bytes: (old(budget)@.remaining_content_bytes - len) as nat,
                    searched_content_bytes: crate::search::wrap_u64(
                        old(budget)@.searched_content_bytes as int,
                        len as int,
                    ) as nat,
                    ..old(budget)@
                })
            } else {
                r == ContentAdmission::Exhausted && final(budget)@ == (BudgetView {
                    hit_cap: true,
                    reasons: old(budget)@.reasons.insert(SearchLimitReason::ContentByteLimit),
                    ..old(budget)@
                })
            },
        },
{
    match probe {
        FileProbe::Missing | FileProbe::NotFile => ContentAdmission::Skip,
        FileProbe::File(len) => {
            if len > MAX_SEARCH_FILE_BYTES {
                budget.record_skipped_large_file();
                ContentAdmission::Skip
            } else if budget.try_take_content_bytes(len) {
                ContentAdmission::Read
            } else {
                ContentAdmission::Exhausted
            }
        },
    }
}

/// What the search of read bytes finds: nothing for unreadable, binary or
/// non-UTF-8 content, else the content match of the decoded text.
pub open spec fn read_content_spec(bytes: Option<Seq<u8>>, needle: Seq<char>) -> Option<
    (nat, Option<Seq<char>>),
> {
    match bytes {
        None => None,
        Some(b) => if looks_binary(b) || !valid_utf8(b) {
            None
        } else {
            content_match_spec(decode_utf8(b), needle)
        },
    }
}

/// Searches the bytes read from one file for a non-empty, lower-cased needle.
pub fn match_read_content(bytes: Option<Vec<u8>>, needle: &str) -> (r: ContentSearch)
    requires
        needle@.len() > 0,
    ensures
        match read_content_spec(
            match bytes {
                Some(b) => Some(b@),
                None => None,
            },
            needle@,
        ) {
            None => r == ContentSearch::NoMatch,
            Some((count, preview)) => r matches ContentSearch::Match(c, p) && c == count && match p {
                Some(s) => preview == Some(s@),
                None => preview is None,
            },
        },
{
    match bytes {
        None => ContentSearch::NoMatch,
        Some(b) => {
            if is_binary(&b) {
                return ContentSearch::NoMatch;
            }
            let ghost raw = b@;
            match utf8_string(b) {
                None => ContentSearch::NoMatch,
                Some(text) => {
                    assert(text@ == decode_utf8(raw));
                    match content_match(text.as_str(), needle) {
                        None => ContentSearch::NoMatch,
                        Some((c, p)) => ContentSearch::Match(c, p),
                    }
                },
            }
        },
    }
}

/// Whether `r` is a possible outcome of searching a file's content for
/// `needle`: a match only where some text holds the needle, with its exact
/// count and preview.
pub open spec fn possible_content_outcome(r: ContentSearch, needle: Seq<char>) -> bool {
    match r {
        ContentSearch::Match(c, p) => exists|text: Seq<char>|
            #[trigger] content_match_spec(text, needle) == Some(
                (
                    c as nat,
                    match p {
                        Some(s) => Some(s@),
                        None => None,
                    },
                ),
            ),
        _ => true,
    }
}

/// The decision of [`admit_content`] on the metadata `probe`, and the
/// budget it leaves behind.
pub open spec fn admission(probe: FileProbe, before: BudgetView) -> (ContentAdmission, BudgetView) {
    match probe {
        FileProbe::Missing | FileProbe::NotFile => (ContentAdmission::Skip, before),
        FileProbe::File(len) => if len > MAX_SEARCH_FILE_BYTES {
            (
                ContentAdmission::Skip,
                BudgetView {
                    skipped_large_files: crate::search::wrap_usize(before.skipped_large_files as int, 1) as nat,
                    hit_cap: true,
                    reasons: before.reasons.insert(SearchLimitReason::FileSizeLimit),
                    ..before
                },
            )
        } else if len <= before.remaining_content_bytes {
            (
                ContentAdmission::Read,
                BudgetView {
                    remaining_content_bytes: (before.remaining_content_bytes - len) as nat,
                    searched_content_bytes: crate::search::wrap_u64(
                        before.searched_content_bytes as int,
                        len as int,
                    ) as nat,
                    ..before
                },
            )
        } else {
            (
                ContentAdmission::Exhausted,
                BudgetView {
                    hit_cap: true,
                    reasons: before.reasons.insert(SearchLimitReason::ContentByteLimit),
                    ..before
                },
            )
        },
    }
}

/// Whether `r` is what matching the bytes `bytes` read from a file gives
/// (see [`read_content_spec`]).
pub open spec fn read_outcome(r: ContentSearch, bytes: Option<Seq<u8>>, needle: Seq<char>) -> bool {
    match read_content_spec(bytes, needle) {
        None => r == ContentSearch::NoMatch,
        Some((count, preview)) => r matches ContentSearch::Match(c, p) && c == count && match p {
            Some(s) => preview == Some(s@),
            None => preview is None,
        },
    }
}

/// Whether searching a file whose metadata read as `probe` and whose
/// content read as `bytes` gives `r` and leaves the budget `after`: the
/// metadata decides through [`admission`]; a skipped file gives no match,
/// an exhausted budget stops, and read bytes are matched.
pub open spec fn file_search_outcome(
    probe: FileProbe,
    bytes: Option<Seq<u8>>,
    needle: Seq<char>,
    before: BudgetView,
    r: ContentSearch,
    after: BudgetView,
) -> bool {
    let a = admission(probe, before);
    &&& after == a.1
    &&& match a.0 {
        ContentAdmission::Skip => r == ContentSearch::NoMatch,
        ContentAdmission::Exhausted => r == ContentSearch::BudgetExhausted,
        ContentAdmission::Read => read_outcome(r, bytes, needle),
    }
}

/// Searches one file's content: the metadata decides whether it is read
/// (see [`admit_content`]), the bytes read are then matched (see
/// [`match_read_content`]). Only an exhausted content-byte budget stops the
/// caller's walk.
pub fn search_file_content<S: ContentSource>(
    source: &S,
    path: &str,
    needle: &str,
    budget: &mut Budget,
) -> (r: ContentSearch)
    requires
        needle@.len() > 0,
    ensures
        final(budget)@.remaining == old(budget)@.remaining,
        final(budget)@.scanned_files == old(budget)@.scanned_files,
        old(budget)@.reasons.subset_of(final(budget)@.reasons),
        old(budget)@.hit_cap ==> final(budget)@.hit_cap,
        r is BudgetExhausted ==> final(budget)@.reasons.contains(
            SearchLimitReason::ContentByteLimit,
        ),
        possible_content_outcome(r, needle@),
        r matches ContentSearch::Match(c, _) ==> c > 0,
        exists|probe: FileProbe, bytes: Option<Seq<u8>>|
            #[trigger] file_search_outcome(probe, bytes, needle@, old(budget)@, r, final(budget)@),
{
    let ghost before = budget@;
    let probe = source.probe(path);
    let admitted = admit_content(probe, budget);
    proof {
        assert(admission(probe, before) == (admitted, budget@));
    }
    match admitted {
        ContentAdmission::Skip => {
            proof {
                assert(file_search_outcome(probe, None, needle@, before, ContentSearch::NoMatch, budget@));
            }
            ContentSearch::NoMatch
        },
        ContentAdmission::Exhausted => {
            proof {
                assert(file_search_outcome(probe, None, needle@, before, ContentSearch::BudgetExhausted, budget@));
            }
            ContentSearch::BudgetExhausted
        },
        ContentAdmission::Read => {
            let bytes = source.read(path);
            let ghost b: Option<Seq<u8>> = if bytes is Some {
                Some(bytes->0@)
            } else {
                None
            };
            let r = match_read_content(bytes, needle);
            proof {
                assert(read_outcome(r, b, needle@));
                assert(file_search_outcome(probe, b, needle@, before, r, budget@));
                if r is Match {
                    let c = r->0;
                    let p = r->1;
                    let bs = b.unwrap();
                    let text = decode_utf8(bs);
                    assert(content_match_spec(text, needle@) == Some(
                        (
                            c as nat,
                            match p {
                                Some(s) => Some(s@),
                                None => None,
                            },
                        ),
                    ));
                }
            }
            r
        },
    }
}

// ---------------------------------------------------------------------------
// Paths
// ---------------------------------------------------------------------------

/// `Path::join` on Unix: an absolute `rel` replaces `root`; otherwise a
/// separator is put between them unless `root` is empty or already ends in
/// one.
pub open spec fn join_path(root: Seq<char>, rel: Seq<char>) -> Seq<char> {
    if rel.len() > 0 && rel[0] == '/' {
        rel
    } else if root.len() == 0 || root.last() == '/' {
        root + rel
    } else {
        root + seq!['/'] + rel
    }
}

/// Executable form of [`join_path`].
pub fn join(root: &str, rel: &str) -> (r: String)
    ensures
        r@ == join_path(root@, rel@),
{
    let rv = chars_of(rel);
    let tv = chars_of(root);
    if rv.len() > 0 && rv[0] == '/' {
        return owned(rel);
    }
    let mut r = owned(root);
    if !(tv.len() == 0 || tv[tv.len() - 1] == '/') {
        push_str(&mut r, "/");
        proof {
            reveal_strlit("/");
        }
    }
    push_str(&mut r, rel);
    r
}

// ---------------------------------------------------------------------------
// Catalog walk
// ---------------------------------------------------------------------------

/// Whether catalog entry `e` takes part in a search: browse mode (an empty
/// needle) lists files only.
pub open spec fn entry_considered(query: SearchQuery, e: SearchEntry) -> bool {
    !(e.is_directory && query.needle_view().len() == 0)
}

/// Whether entry `e` of a catalog rooted at `root` is a name hit: it takes
/// part, and its file name matches the query.
pub open spec fn name_hit(root: Seq<char>, query: SearchQuery, e: SearchEntry) -> bool {
    &&& entry_considered(query, e)
    &&& exists|n: Seq<char>|
        #[trigger] file_name_spec(join_path(root, e.relative_path@), Some(n))
            && query.spec_matches_name(n)
}

/// Whether `h` is a correct hit for entry `e` of a catalog rooted at `root`.
pub open spec fn hit_for_entry(
    root: Seq<char>,
    query: SearchQuery,
    e: SearchEntry,
    h: ProviderSearchHit,
) -> bool {
    &&& entry_considered(query, e)
    &&& h.relative_path@ == e.relative_path@
    &&& h.is_directory == e.is_directory
    &&& file_name_spec(join_path(root, e.relative_path@), Some(h.name@))
    &&& (h.match_kind != SearchMatchKind::Content) == query.spec_matches_name(h.name@)
    &&& (h.match_kind != SearchMatchKind::Name) == (h.content_match_count is Some)
    &&& (h.content_match_count matches Some(c) ==> {
        &&& c > 0
        &&& !e.is_directory
        &&& query.spec_searches_content()
        &&& possible_content_outcome(ContentSearch::Match(c, h.content_preview), query.needle_view())
    })
    &&& (h.content_match_count is None ==> h.content_preview is None)
}

/// Whether `hits`, found while walking entries `lo..hi`, came from the
/// entries at the strictly increasing positions `idx`, one each, and every
/// name hit of the range is among them.
pub open spec fn catalog_trace(
    root: Seq<char>,
    query: SearchQuery,
    entries: Seq<SearchEntry>,
    lo: int,
    hi: int,
    hits: Seq<ProviderSearchHit>,
    idx: Seq<int>,
) -> bool {
    &&& idx.len() == hits.len()
    &&& forall|k: int|
        0 <= k < idx.len() ==> lo <= #[trigger] idx[k] < hi && hit_for_entry(
            root,
            query,
            entries[idx[k]],
            hits[k],
        )
    &&& forall|k1: int, k2: int| 0 <= k1 < k2 < idx.len() ==> #[trigger] idx[k1] < #[trigger] idx[k2]
    &&& forall|j: int|
        lo <= j < hi && #[trigger] name_hit(root, query, entries[j]) ==> exists|k: int|
            0 <= k < idx.len() && idx[k] == j
}

/// Whether `s2` is `s1` with at most its walk position changed.
pub open spec fn same_catalog(s1: SearchSession, s2: SearchSession) -> bool {
    &&& s2.root == s1.root
    &&& s2.entries == s1.entries
    &&& s2.query == s1.query
    &&& s2.mode == s1.mode
    &&& s2.truncated == s1.truncated
    &&& s2.updated_at_ms == s1.updated_at_ms
}

/// The result of a page that stopped before the end of its catalog: the
/// empty continuation marker, replaced by a session token by the caller.
pub fn incomplete_search_page() -> (r: SearchWalkResult)
    ensures
        r.next_after matches Some(t) && t@.len() == 0,
{
    let t = String::new();
    SearchWalkResult { next_after: Some(t) }
}

/// Walks the catalog of `session` from its position, appending a hit to
/// `hits` for every entry whose name or content matches `query`. Content
/// is read through `source` under the content-byte budget; every hit takes
/// a slot of the hit budget. The page stops early, with the empty
/// continuation marker, when either budget runs out (the entry that could
/// not be handled is walked again on the next page) or when the search was
/// cancelled before the end; it ends with `None` exactly when the catalog is
/// exhausted.
pub fn search_catalog<S: ContentSource>(
    session: &mut SearchSession,
    query: &SearchQuery,
    source: &S,
    hits: &mut Vec<ProviderSearchHit>,
    budget: &mut Budget,
    cancel: &CancellationToken,
) -> (r: SearchWalkResult)
    requires
        query.wf(),
        old(session).next_index <= old(session).entries.len(),
    ensures
        same_catalog(*old(session), *final(session)),
        old(session).next_index <= final(session).next_index <= final(session).entries.len(),
        final(hits)@.len() >= old(hits)@.len(),
        final(hits)@.take(old(hits)@.len() as int) == old(hits)@,
        exists|idx: Seq<int>|
            catalog_trace(
                old(session).root@,
                *query,
                old(session).entries@,
                old(session).next_index as int,
                final(session).next_index as int,
                final(hits)@.skip(old(hits)@.len() as int),
                idx,
            ),
        final(budget)@.remaining == old(budget)@.remaining - (final(hits)@.len() - old(hits)@.len()),
        final(budget)@.scanned_files == old(budget)@.scanned_files,
        old(budget)@.reasons.subset_of(final(budget)@.reasons),
        cancel@ ==> *final(session) == *old(session) && final(hits)@ == old(hits)@ && final(budget)@ == old(budget)@,
        r.next_after is None ==> final(session).next_index == final(session).entries.len(),
        r.next_after matches Some(t) ==> {
            &&& t@.len() == 0
            &&& final(session).next_index < final(session).entries.len()
            &&& (cancel@ || final(budget)@.reasons.contains(SearchLimitReason::ResultLimit) || final(budget)@.reasons.contains(SearchLimitReason::ContentByteLimit))
        },
{
    let ghost old_session = *session;
    let ghost old_hits = hits@;
    let ghost old_budget = budget@;
    let ghost root = session.root@;
    let ghost entries = session.entries@;
    let ghost lo = session.next_index as int;
    let ghost mut idx: Seq<int> = Seq::empty();
    let n = session.entries.len();
    let mut next = session.next_index;
    let mut early = false;
    let mut incomplete = false;
    proof {
        assert(hits@.skip(old_hits.len() as int) =~= Seq::<ProviderSearchHit>::empty());
        assert(hits@.take(old_hits.len() as int) =~= old_hits);
    }
    while next < n && !early
        invariant
            n == session.entries.len(),
            early == incomplete,
            early ==> next < n && (cancel@ || budget@.reasons.contains(
                SearchLimitReason::ResultLimit,
            ) || budget@.reasons.contains(SearchLimitReason::ContentByteLimit)),
            *session == old_session,
            old_session == *old(session),
            lo <= next <= n,
            lo == old_session.next_index,
            root == old_session.root@,
            entries == old_session.entries@,
            query.wf(),
            hits@.len() >= old_hits.len(),
            hits@.take(old_hits.len() as int) == old_hits,
            catalog_trace(root, *query, entries, lo, next as int, hits@.skip(old_hits.len() as int), idx),
            budget@.remaining == old_budget.remaining - (hits@.len() - old_hits.len()),
            budget@.scanned_files == old_budget.scanned_files,
            old_budget.reasons.subset_of(budget@.reasons),
            cancel@ ==> hits@ == old_hits && budget@ == old_budget && next == lo,
        decreases n - next + (if early { 0int } else { 1int }),
    {
        if cancel.is_cancelled() {
            early = true;
            incomplete = true;
            continue;
        }
        let ghost before_hits = hits@;
        let ghost before_budget = budget@;
        let entry_is_dir = session.entries[next].is_directory;
        let path = join(session.root.as_str(), session.entries[next].relative_path.as_str());
        let ghost e = entries[next as int];
        if entry_is_dir && query.needle().unicode_len() == 0 {
            proof {
                assert(!entry_considered(*query, e));
                assert(!name_hit(root, *query, e));
            }
            next += 1;
            continue;
        }
        let name = match file_name(path.as_str()) {
            Some(n) => n,
            None => {
                proof {
                    assert forall|nn: Seq<char>|
                        !(#[trigger] file_name_spec(join_path(root, e.relative_path@), Some(nn))
                            && query.spec_matches_name(nn)) by {
                        if file_name_spec(join_path(root, e.relative_path@), Some(nn)) {
                            crate::paths::lemma_file_name_unique(path@, None, Some(nn));
                        }
                    }
                    assert(!name_hit(root, *query, e));
                }
                next += 1;
                continue;
            },
        };
        let name_matches = query.matches_name(name.as_str());
        let content: Option<(usize, Option<String>)> = if !entry_is_dir && query.searches_content() {
            match search_file_content(source, path.as_str(), query.needle(), budget) {
                ContentSearch::Match(c, p) => Some((c, p)),
                ContentSearch::NoMatch => None,
                ContentSearch::BudgetExhausted => {
                    early = true;
                    incomplete = true;
                    continue;
                },
            }
        } else {
            None
        };
        next += 1;
        proof {
            assert forall|nn: Seq<char>|
                #[trigger] file_name_spec(join_path(root, e.relative_path@), Some(nn))
                    implies nn == name@ by {
                crate::paths::lemma_file_name_unique(path@, Some(name@), Some(nn));
            }
        }
        if !name_matches && content.is_none() {
            proof {
                assert(!name_hit(root, *query, e));
                let t = hits@.skip(old_hits.len() as int);
                assert forall|j: int|
                    lo <= j < next && #[trigger] name_hit(root, *query, entries[j]) implies exists|k: int|
                        0 <= k < idx.len() && idx[k] == j by {
                    if j < next - 1 {
                    }
                }
            }
            continue;
        }
        if !budget.try_take() {
            next -= 1;
            early = true;
            incomplete = true;
            continue;
        }
        let match_kind = if name_matches && content.is_some() {
            SearchMatchKind::Both
        } else if name_matches {
            SearchMatchKind::Name
        } else {
            SearchMatchKind::Content
        };
        let (content_match_count, content_preview) = match content {
            Some((c, p)) => (Some(c), p),
            None => (None, None),
        };
        let hit = ProviderSearchHit {
            relative_path: session.entries[next - 1].relative_path.clone(),
            name,
            is_directory: entry_is_dir,
            match_kind,
            content_match_count,
            content_preview,
        };
        hits.push(hit);
        proof {
            let old_t = before_hits.skip(old_hits.len() as int);
            let t = hits@.skip(old_hits.len() as int);
            assert(t =~= old_t.push(hit));
            let j0 = (next - 1) as int;
            let old_idx = idx;
            idx = idx.push(j0);
            assert(idx.drop_last() =~= old_idx);
            assert(hits@.take(old_hits.len() as int) =~= old_hits);
            assert(hit_for_entry(root, *query, e, hit));
            assert forall|k: int| 0 <= k < idx.len() implies lo <= #[trigger] idx[k] < next
                && hit_for_entry(root, *query, entries[idx[k]], t[k]) by {
                if k < idx.len() - 1 {
                    assert(t[k] == old_t[k]);
                }
            }
            assert forall|j: int|
                lo <= j < next && #[trigger] name_hit(root, *query, entries[j]) implies exists|k: int|
                    0 <= k < idx.len() && idx[k] == j by {
                if j == j0 {
                    assert(idx[idx.len() - 1] == j);
                } else {
                    let k = choose|k: int| 0 <= k < old_idx.len() && old_idx[k] == j;
                    assert(idx[k] == j);
                }
            }
        }
    }
    session.next_index = next;
    proof {
        assert(*session == SearchSession { next_index: next, ..old_session });
    }
    if incomplete {
        incomplete_search_page()
    } else {
        SearchWalkResult::exhausted()
    }
}

// ---------------------------------------------------------------------------
// Building a catalog
// ---------------------------------------------------------------------------

/// How often, in walked items, the walk looks at the cancel signal.
pub const CANCEL_CHECK_STRIDE: usize = 128;

/// One item of a directory walk.
#[derive(Debug, Clone)]
pub enum WalkItem {
    /// An entry the walk could not read.
    Unreadable,
    /// An entry, by its path, and whether it is (or links to) a directory.
    Entry { path: String, is_directory: bool },
}

/// The number of UTF-8 bytes of `s`, as the length of a string held in
/// memory (a `usize`).
pub open spec fn utf8_len(s: Seq<char>) -> nat {
    (vstd::utf8::encode_utf8(s).len() as usize) as nat
}

/// The bounded, ordered catalog of a search root, fed one walk item at a
/// time: it keeps directories and at most [`MAX_SEARCH_SCANNED_FILES`]
/// files, and at most [`MAX_SEARCH_CATALOG_BYTES`] bytes of relative paths;
/// hitting either bound marks the catalog truncated and ends the walk. A
/// cancel seen at a stride point empties the catalog and ends the walk.
#[derive(Debug)]
pub struct CatalogBuilder {
    root: String,
    seen: usize,
    scanned_files: usize,
    catalog_bytes: usize,
    entries: Vec<SearchEntry>,
    truncated: bool,
    finished: bool,
}

impl CatalogBuilder {
    pub closed spec fn root_view(&self) -> Seq<char> {
        self.root@
    }

    pub closed spec fn seen_view(&self) -> nat {
        self.seen as nat
    }

    pub closed spec fn scanned_view(&self) -> nat {
        self.scanned_files as nat
    }

    pub closed spec fn bytes_view(&self) -> nat {
        self.catalog_bytes as nat
    }

    pub closed spec fn entries_view(&self) -> Seq<SearchEntry> {
        self.entries@
    }

    pub closed spec fn truncated_view(&self) -> bool {
        self.truncated
    }

    pub closed spec fn finished_view(&self) -> bool {
        self.finished
    }

    /// The builder's bounds hold.
    pub closed spec fn wf(&self) -> bool {
        &&& self.scanned_files <= MAX_SEARCH_SCANNED_FILES
        &&& self.catalog_bytes <= MAX_SEARCH_CATALOG_BYTES
    }

    /// An empty catalog of `root`.
    pub fn new(root: String) -> (b: Self)
        ensures
            b.wf(),
            b.root_view() == root@,
            b.seen_view() == 0,
            b.scanned_view() == 0,
            b.bytes_view() == 0,
            b.entries_view() == Seq::<SearchEntry>::empty(),
            !b.truncated_view(),
            !b.finished_view(),
    {
        CatalogBuilder {
            root,
            seen: 0,
            scanned_files: 0,
            catalog_bytes: 0,
            entries: Vec::new(),
            truncated: false,
            finished: false,
        }
    }

    /// Feeds the next walk item; returns whether the walk goes on. Every
    /// file that enters the catalog counts as scanned in `budget`.
    pub fn step(&mut self, item: WalkItem, cancelled: bool, budget: &mut Budget) -> (go_on: bool)
        requires
            old(self).wf(),
        ensures
            final(self).wf(),
            final(self).root_view() == old(self).root_view(),
            old(self).finished_view() ==> !go_on && *final(self) == *old(self) && final(budget)@ == old(budget)@,
            !old(self).finished_view() ==> {
                let o = *old(self);
                let f = *final(self);
                if o.seen_view() % (CANCEL_CHECK_STRIDE as nat) == 0 && cancelled {
                    &&& !go_on && f.finished_view() && !f.truncated_view()
                    &&& f.entries_view() == Seq::<SearchEntry>::empty()
                    &&& final(budget)@ == old(budget)@
                } else {
                    &&& f.seen_view() == crate::search::wrap_usize(o.seen_view() as int, 1)
                    &&& match item {
                        WalkItem::Unreadable => go_on && f.entries_view() == o.entries_view()
                            && f.scanned_view() == o.scanned_view() && !f.finished_view()
                            && final(budget)@ == old(budget)@,
                        WalkItem::Entry { path, is_directory } => {
                            let rel = crate::components::rel_path_spec(o.root_view(), path@);
                            let bytes = o.bytes_view() + utf8_len(rel);
                            let scanned = if is_directory {
                                o.scanned_view()
                            } else {
                                o.scanned_view() + 1
                            };
                            let budget_after = if is_directory {
                                old(budget)@
                            } else {
                                BudgetView {
                                    scanned_files: crate::search::wrap_usize(
                                        old(budget)@.scanned_files as int,
                                        1,
                                    ) as nat,
                                    ..old(budget)@
                                }
                            };
                            if is_directory && path@ == o.root_view() {
                                go_on && f.entries_view() == o.entries_view() && !f.finished_view()
                                    && final(budget)@ == old(budget)@
                            } else if !is_directory && o.scanned_view() >= MAX_SEARCH_SCANNED_FILES {
                                !go_on && f.finished_view() && f.truncated_view() && f.entries_view()
                                    == o.entries_view() && final(budget)@ == old(budget)@
                            } else if bytes > MAX_SEARCH_CATALOG_BYTES {
                                !go_on && f.finished_view() && f.truncated_view() && f.entries_view()
                                    == o.entries_view() && f.scanned_view() == scanned && final(budget)@ == budget_after
                            } else {
                                &&& go_on && !f.finished_view()
                                &&& f.truncated_view() == o.truncated_view()
                                &&& f.scanned_view() == scanned
                                &&& f.bytes_view() == bytes
                                &&& final(budget)@ == budget_after
                                &&& f.entries_view().len() == o.entries_view().len() + 1
                                &&& f.entries_view().drop_last() == o.entries_view()
                                &&& f.entries_view().last().relative_path@ == rel
                                &&& f.entries_view().last().is_directory == is_directory
                            }
                        },
                    }
                }
            },
    {
        if self.finished {
            return false;
        }
        if self.seen % CANCEL_CHECK_STRIDE == 0 && cancelled {
            self.entries = Vec::new();
            self.truncated = false;
            self.finished = true;
            return false;
        }
        self.seen = self.seen.wrapping_add(1);
        match item {
            WalkItem::Unreadable => true,
            WalkItem::Entry { path, is_directory } => {
                if is_directory && crate::text::str_eq(path.as_str(), self.root.as_str()) {
                    return true;
                }
                if !is_directory && self.scanned_files >= MAX_SEARCH_SCANNED_FILES {
                    self.truncated = true;
                    self.finished = true;
                    return false;
                }
                if !is_directory {
                    self.scanned_files = self.scanned_files + 1;
                    budget.record_scanned_file();
                }
                let relative_path = crate::components::rel_path(self.root.as_str(), path.as_str());
                let len = relative_path.as_str().len();
                if len > MAX_SEARCH_CATALOG_BYTES - self.catalog_bytes {
                    self.truncated = true;
                    self.finished = true;
                    return false;
                }
                self.catalog_bytes = self.catalog_bytes + len;
                self.entries.push(SearchEntry { relative_path, is_directory });
                proof {
                    assert(self.entries@.drop_last() =~= old(self).entries@);
                }
                true
            },
        }
    }

    /// The catalog and whether a bound truncated it.
    pub fn finish(self) -> (r: (Vec<SearchEntry>, bool))
        ensures
            r.0@ == self.entries_view(),
            r.1 == self.truncated_view(),
    {
        (self.entries, self.truncated)
    }
}

// ---------------------------------------------------------------------------
// Paging
// ---------------------------------------------------------------------------

/// A fresh continuation token: the hyphenated text of a time-ordered UUID
/// (`Uuid::now_v7`, then `to_string`). The value depends on the clock and on
/// chance; the contract states only its length, which the uuid crate's
/// hyphenated format fixes at 36 characters.
#[verifier::external_body]
fn new_session_token() -> (t: String)
    ensures
        t@.len() == 36,
{
    uuid::Uuid::now_v7().to_string()
}

/// The `file:` search provider over the local disk, with its store of
/// search continuations.
#[derive(Debug)]
pub struct LocalFsProvider {
    sessions: SearchSessionStore,
}

impl LocalFsProvider {
    /// The stored continuation sessions, by token.
    pub closed spec fn store_view(&self) -> Seq<(String, SearchSession)> {
        self.sessions.entries()
    }

    /// The store's tokens are distinct.
    pub closed spec fn wf(&self) -> bool {
        self.sessions.wf()
    }

    /// A provider with no continuation sessions.
    pub fn new() -> (p: Self)
        ensures
            p.wf(),
            p.store_view().len() == 0,
    {
        LocalFsProvider { sessions: SearchSessionStore::new() }
    }

    /// One page of a search of `root`. A first page (no `cursor`) walks the
    /// given `catalog` (its entries and whether it was truncated) from the
    /// start; a continuation resumes the session stored under `cursor`,
    /// which must have been made for the same root, needle and mode. A
    /// truncated catalog records the scan limit in `budget`. When the page
    /// stops early and the search was not cancelled, the session is stored,
    /// last used at `now`, under the cursor or a fresh token, which the
    /// result carries; a cancelled page that stopped early carries the empty
    /// continuation marker and stores nothing.
    pub fn search_page<S: ContentSource>(
        &mut self,
        root: &str,
        query: &SearchQuery,
        source: &S,
        hits: &mut Vec<ProviderSearchHit>,
        budget: &mut Budget,
        cancel: &CancellationToken,
        cursor: Option<String>,
        catalog: (Vec<SearchEntry>, bool),
        now: u64,
    ) -> (r: Result<SearchWalkResult, FsError>)
        requires
            old(self).wf(),
            query.wf(),
        ensures
            final(self).wf(),
            final(hits)@.len() >= old(hits)@.len(),
            final(hits)@.take(old(hits)@.len() as int) == old(hits)@,
            final(budget)@.remaining == old(budget)@.remaining - (final(hits)@.len() - old(hits)@.len()),
            cursor is None ==> r is Ok,
            r is Err ==> {
                &&& cursor is Some
                &&& final(hits)@ == old(hits)@
                &&& r matches Err(FsError::Io { uri: u, message: m }) && u@ == root@ && (m@
                    == CONTINUATION_EXPIRED@ || m@ == CONTINUATION_MISMATCH@)
            },
            cursor is None && catalog.1 ==> final(budget)@.reasons.contains(
                SearchLimitReason::ScanLimit,
            ),
            cursor is None ==> exists|hi: int, idx: Seq<int>|
                catalog_trace(
                    root@,
                    *query,
                    catalog.0@,
                    0,
                    hi,
                    final(hits)@.skip(old(hits)@.len() as int),
                    idx,
                ),
            cancel@ ==> (r matches Ok(w) ==> (w.next_after matches Some(t) ==> t@.len() == 0)),
            r matches Ok(w) ==> match w.next_after {
                Some(t) => !cancel@ ==> {
                    &&& has_token(final(self).store_view(), t@)
                    &&& (cursor matches Some(c) ==> t@ == c@)
                    &&& (cursor is None ==> t@.len() == 36 && exists|i: int|
                        0 <= i < final(self).store_view().len() && final(self).store_view()[i].0@
                            == t@ && final(self).store_view()[i].1.entries@ == catalog.0@
                            && final(self).store_view()[i].1.root@ == root@
                            && final(self).store_view()[i].1.query@ == query.needle_view()
                            && final(self).store_view()[i].1.mode == query.mode_view()
                            && final(self).store_view()[i].1.updated_at_ms == now)
                },
                None => cursor matches Some(c) ==> !has_token(final(self).store_view(), c@),
            },
    {
        let mut session = match &cursor {
            Some(token) => match self.sessions.take(token.as_str(), root, query, now) {
                Ok(s) => s,
                Err(e) => return Err(e),
            },
            None => {
                let (entries, truncated) = catalog;
                SearchSession {
                    root: owned(root),
                    entries,
                    next_index: 0,
                    query: owned(query.needle()),
                    mode: query.mode(),
                    truncated,
                    updated_at_ms: now,
                }
            },
        };
        if session.truncated {
            budget.mark_limit_reached(SearchLimitReason::ScanLimit);
        }
        if session.next_index > session.entries.len() {
            proof {
                assert(hits@.take(hits@.len() as int) =~= hits@);
                assert(catalog_trace(root@, *query, catalog.0@, 0, 0, hits@.skip(hits@.len() as int), Seq::empty()));
            }
            return Ok(SearchWalkResult::exhausted());
        }
        let ghost walked = session;
        let outcome = search_catalog(&mut session, query, source, hits, budget, cancel);
        if cancel.is_cancelled() || outcome.next_after.is_none() {
            return Ok(outcome);
        }
        let token = match cursor {
            Some(t) => t,
            None => new_session_token(),
        };
        session.updated_at_ms = now;
        let ghost stored = session;
        self.sessions.store(token.clone(), session, now);
        Ok(SearchWalkResult { next_after: Some(token) })
    }
}

} // verus!
