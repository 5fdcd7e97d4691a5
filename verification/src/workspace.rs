//! Browsing and searching a conversation's workspace: the checks that keep
//! a request inside the workspace, the ordering of a directory listing, the
//! counting of content matches chunk by chunk, and the bounded, resumable
//! walk of a workspace search.
use vstd::prelude::*;
use vstd::utf8::{decode_utf8, valid_utf8};

use crate::acp_compat::{json_error, json_parsed, parse_json};
use crate::api_errors::ConversationError;
use crate::json_fields::{as_str, field_of, get, opt_text, str_of};
use crate::components::{
    component_count, has_parent_component, join_slash, mentions_parent, path_components,
    path_starts_with, same_path, starts_with_path, strip_base, stripped_spec,
};
use crate::content::utf8_string;
use crate::provider::{join, join_path};
use crate::text::{
    chars_of, contains_chars, lowercase, owned, push_char, push_str, seq_contains, str_eq,
    string_from_range, to_lowercase, trim, trim_seq,
};

verus! {

/// Most directory levels a browse request may descend.
pub const MAX_DIR_DEPTH: usize = 10;

/// Most entries one search page returns.
pub const MAX_WORKSPACE_SEARCH_RESULTS: usize = 200;

/// Most entries one search page scans.
pub const MAX_WORKSPACE_SEARCH_SCANNED: usize = 5000;

/// Largest file whose content is searched.
pub const MAX_WORKSPACE_SEARCH_FILE_BYTES: u64 = 268435456;

/// Most content bytes one search page reads.
pub const MAX_WORKSPACE_SEARCH_TOTAL_BYTES: u64 = 268435456;

/// How many bytes a content search reads at a time.
pub const WORKSPACE_SEARCH_CHUNK_BYTES: usize = 1048576;

// ---------------------------------------------------------------------------
// Counting matches chunk by chunk
// ---------------------------------------------------------------------------

/// The number of non-overlapping occurrences of `needle` in `hay`, found
/// left to right from position `i`, that end after position `floor`.
pub open spec fn count_ending_after(hay: Seq<char>, needle: Seq<char>, i: int, floor: int) -> nat
    decreases hay.len() - i,
{
    if needle.len() == 0 || i < 0 || hay.len() - i < needle.len() {
        0
    } else if hay.subrange(i, i + needle.len()) == needle {
        (if i + needle.len() > floor {
            1nat
        } else {
            0nat
        }) + count_ending_after(hay, needle, i + needle.len(), floor)
    } else {
        count_ending_after(hay, needle, i + 1, floor)
    }
}

/// The matches a chunk of text contributes: the occurrences of the
/// lower-case `needle` in the carried-over `overlap` followed by the
/// lower-cased chunk, counting only those that reach into the chunk.
pub open spec fn chunk_matches(text: Seq<char>, needle: Seq<char>, overlap: Seq<char>) -> nat {
    count_ending_after(overlap + lowercase(text), needle, 0, overlap.len() as int)
}

/// Content is matched without regard to case: the matches a chunk
/// contributes depend on its text only through its lower-cased form, so two
/// chunks that lower-case alike (say `Hello` and `hello`) count the same
/// matches, and a chunk counts as its lower-cased text does.
pub proof fn law_chunk_matches_ignore_case(t1: Seq<char>, t2: Seq<char>, needle: Seq<char>, overlap: Seq<char>)
    requires
        lowercase(t1) == lowercase(t2),
    ensures
        chunk_matches(t1, needle, overlap) == chunk_matches(t2, needle, overlap),
        chunk_matches(t1, needle, overlap) == count_ending_after(
            overlap + lowercase(t2),
            needle,
            0,
            overlap.len() as int,
        ),
{
}

/// Counts the matches of a non-empty `needle` in a chunk (see
/// [`chunk_matches`]).
pub fn count_workspace_chunk_matches(text: &str, needle: &str, overlap: &str) -> (r: usize)
    requires
        needle@.len() > 0,
    ensures
        r == chunk_matches(text@, needle@, overlap@),
{
    let lower = to_lowercase(text);
    let mut combined = owned(overlap);
    push_str(&mut combined, lower.as_str());
    let hay = chars_of(combined.as_str());
    let n = chars_of(needle);
    let floor = chars_of(overlap).len();
    let mut i: usize = 0;
    let mut count: usize = 0;
    while i < hay.len() && n.len() <= hay.len() - i
        invariant
            i <= hay.len(),
            n@.len() > 0,
            count <= i,
            count + count_ending_after(hay@, n@, i as int, floor as int) == count_ending_after(
                hay@,
                n@,
                0,
                floor as int,
            ),
        decreases hay.len() - i,
    {
        let at = crate::text::occurs_at_exec(&hay, &n, i);
        if at {
            if i + n.len() > floor {
                count = count + 1;
            }
            i = i + n.len();
        } else {
            i = i + 1;
        }
    }
    count
}

/// The overlap kept after a chunk: the last `needle_chars - 1` characters
/// of its lower-cased text (all of it when shorter).
pub open spec fn overlap_after(lower: Seq<char>, needle_chars: nat) -> Seq<char> {
    let keep = if needle_chars == 0 {
        0
    } else {
        needle_chars - 1
    };
    if lower.len() <= keep {
        lower
    } else {
        lower.skip(lower.len() - keep)
    }
}

/// The overlap kept after a chunk (see [`overlap_after`]).
pub fn take_workspace_overlap(lower: &str, needle_chars: usize) -> (r: String)
    ensures
        r@ == overlap_after(lower@, needle_chars as nat),
{
    let v = chars_of(lower);
    let keep = if needle_chars == 0 {
        0
    } else {
        needle_chars - 1
    };
    if v.len() <= keep {
        string_from_range(&v, 0, v.len())
    } else {
        string_from_range(&v, v.len() - keep, v.len())
    }
}

/// Where the longest valid UTF-8 prefix of `bytes` ends: `v` such that
/// `bytes[..v]` is valid and no longer prefix is.
pub open spec fn is_valid_up_to(bytes: Seq<u8>, v: int) -> bool {
    &&& 0 <= v <= bytes.len()
    &&& valid_utf8(bytes.take(v))
    &&& forall|j: int| v < j <= bytes.len() ==> !valid_utf8(#[trigger] bytes.take(j))
}

/// What `std::str::from_utf8` reports as the length of the invalid
/// sequence after the valid prefix of `bytes` (`None` when the input ends
/// inside a character).
pub uninterp spec fn utf8_error_len(bytes: Seq<u8>) -> Option<usize>;

/// `std::str::from_utf8`, reduced to what its error reports: `Ok` for valid
/// UTF-8, else the end of the longest valid prefix (`valid_up_to`) and the
/// length of the invalid sequence after it (`error_len`, named
/// [`utf8_error_len`]).
#[verifier::external_body]
fn check_utf8(bytes: &[u8]) -> (r: Result<(), (usize, Option<usize>)>)
    ensures
        r is Ok <==> valid_utf8(bytes@),
        r matches Err((v, e)) ==> is_valid_up_to(bytes@, v as int) && e == utf8_error_len(bytes@),
{
    match std::str::from_utf8(bytes) {
        Ok(_) => Ok(()),
        Err(e) => Err((e.valid_up_to(), e.error_len())),
    }
}

/// The state of a content count: the bytes not yet decoded, the overlap
/// carried to the next chunk, the matches so far, and whether the content
/// turned out not to be UTF-8.
pub struct CounterView {
    pub pending: Seq<u8>,
    pub overlap: Seq<char>,
    pub matches: nat,
    pub failed: bool,
}

/// The counter after the decoded text `text` was counted.
pub open spec fn counted(s: CounterView, text: Seq<char>, needle: Seq<char>, rest: Seq<u8>) -> CounterView {
    CounterView {
        pending: rest,
        overlap: overlap_after(lowercase(text), needle.len()),
        matches: sat_add(s.matches, chunk_matches(text, needle, s.overlap)),
        failed: false,
    }
}

/// Saturating addition at `usize::MAX`.
pub open spec fn sat_add(a: nat, b: nat) -> nat {
    if a + b > usize::MAX {
        usize::MAX as nat
    } else {
        a + b
    }
}

/// What feeding a chunk does: the pending bytes and the chunk are decoded
/// as far as they are valid UTF-8 and that text is counted; bytes that end
/// inside a character wait for the next chunk; invalid UTF-8 fails the
/// count.
pub open spec fn feed_spec(s: CounterView, chunk: Seq<u8>, needle: Seq<char>) -> CounterView {
    if s.failed {
        s
    } else {
        let raw = s.pending + chunk;
        if valid_utf8(raw) {
            counted(s, decode_utf8(raw), needle, Seq::empty())
        } else {
            let v = choose|v: int| is_valid_up_to(raw, v);
            if utf8_error_len(raw) is None {
                if v > 0 {
                    counted(s, decode_utf8(raw.take(v)), needle, raw.skip(v))
                } else {
                    CounterView { pending: raw, ..s }
                }
            } else {
                CounterView { pending: raw, failed: true, ..s }
            }
        }
    }
}

/// The count a content search ends with: none when the content is not
/// UTF-8; otherwise the matches, with those of the remaining bytes added
/// when they decode.
pub open spec fn finish_spec(s: CounterView, needle: Seq<char>) -> Option<nat> {
    if s.failed {
        None
    } else if s.pending.len() == 0 {
        Some(s.matches)
    } else if valid_utf8(s.pending) {
        Some(sat_add(s.matches, chunk_matches(decode_utf8(s.pending), needle, s.overlap)))
    } else {
        None
    }
}

/// Counts the occurrences of a lower-cased needle in a file's content read
/// chunk by chunk.
pub struct ContentCounter {
    needle: String,
    pending: Vec<u8>,
    overlap: String,
    matches: usize,
    failed: bool,
}

impl View for ContentCounter {
    type V = CounterView;

    closed spec fn view(&self) -> CounterView {
        CounterView {
            pending: self.pending@,
            overlap: self.overlap@,
            matches: self.matches as nat,
            failed: self.failed,
        }
    }
}

impl ContentCounter {
    /// The lower-cased needle counted.
    pub closed spec fn needle_view(&self) -> Seq<char> {
        self.needle@
    }

    /// A counter for the non-empty, lower-cased `needle`.
    pub fn new(needle: &str) -> (c: Self)
        requires
            needle@.len() > 0,
        ensures
            c.needle_view() == needle@,
            c@ == (CounterView { pending: Seq::empty(), overlap: Seq::empty(), matches: 0, failed: false }),
    {
        let c = ContentCounter {
            needle: owned(needle),
            pending: Vec::new(),
            overlap: String::new(),
            matches: 0,
            failed: false,
        };
        assert(c@.pending =~= Seq::<u8>::empty());
        c
    }

    /// Counts a decoded text and keeps `rest` pending.
    fn count_text(&mut self, text: &str, rest: Vec<u8>)
        requires
            old(self).needle_view().len() > 0,
        ensures
            final(self).needle_view() == old(self).needle_view(),
            final(self)@ == counted(old(self)@, text@, old(self).needle_view(), rest@),
    {
        let c = count_workspace_chunk_matches(text, self.needle.as_str(), self.overlap.as_str());
        self.matches = if c > usize::MAX - self.matches {
            usize::MAX
        } else {
            self.matches + c
        };
        let lower = to_lowercase(text);
        let n = chars_of(self.needle.as_str()).len();
        self.overlap = take_workspace_overlap(lower.as_str(), n);
        self.pending = rest;
        self.failed = false;
    }

    /// Feeds the next chunk of content (see [`feed_spec`]).
    pub fn feed(&mut self, chunk: &[u8])
        requires
            old(self).needle_view().len() > 0,
        ensures
            final(self).needle_view() == old(self).needle_view(),
            final(self)@ == feed_spec(old(self)@, chunk@, old(self).needle_view()),
    {
        if self.failed {
            return;
        }
        let ghost s0 = self@;
        let mut raw: Vec<u8> = Vec::new();
        std::mem::swap(&mut raw, &mut self.pending);
        let mut i: usize = 0;
        let ghost base = raw@;
        while i < chunk.len()
            invariant
                i <= chunk@.len(),
                raw@ == base + chunk@.take(i as int),
            decreases chunk.len() - i,
        {
            raw.push(chunk[i]);
            assert(chunk@.take(i + 1) =~= chunk@.take(i as int).push(chunk@[i as int]));
            i += 1;
        }
        assert(chunk@.take(chunk.len() as int) =~= chunk@);
        assert(raw@ == s0.pending + chunk@);
        match check_utf8(raw.as_slice()) {
            Ok(()) => {
                let ghost rv = raw@;
                match utf8_string(raw) {
                    Some(text) => {
                        let none: Vec<u8> = Vec::new();
                        assert(none@ =~= Seq::<u8>::empty());
                        self.count_text(text.as_str(), none);
                    },
                    None => {},
                }
            },
            Err((v, e)) => {
                match e {
                    None => {
                        if v > 0 {
                            let mut head: Vec<u8> = Vec::new();
                            let mut j: usize = 0;
                            while j < v
                                invariant
                                    j <= v,
                                    v <= raw@.len(),
                                    head@ == raw@.take(j as int),
                                decreases v - j,
                            {
                                head.push(raw[j]);
                                assert(raw@.take(j + 1) =~= raw@.take(j as int).push(raw@[j as int]));
                                j += 1;
                            }
                            let mut rest: Vec<u8> = Vec::new();
                            let mut k = v;
                            while k < raw.len()
                                invariant
                                    v <= k <= raw@.len(),
                                    rest@ == raw@.subrange(v as int, k as int),
                                decreases raw.len() - k,
                            {
                                rest.push(raw[k]);
                                assert(raw@.subrange(v as int, k + 1) =~= raw@.subrange(v as int, k as int).push(
                                    raw@[k as int],
                                ));
                                k += 1;
                            }
                            assert(raw@.subrange(v as int, raw@.len() as int) =~= raw@.skip(v as int));
                            let ghost hv = head@;
                            match utf8_string(head) {
                                Some(text) => {
                                    self.count_text(text.as_str(), rest);
                                },
                                None => {},
                            }
                        } else {
                            self.pending = raw;
                        }
                    },
                    Some(_) => {
                        self.pending = raw;
                        self.failed = true;
                    },
                }
            },
        }
    }
}

impl ContentCounter {
    /// The count once the whole content was fed (see [`finish_spec`]).
    pub fn finish(self) -> (r: Option<usize>)
        requires
            self.needle_view().len() > 0,
        ensures
            match finish_spec(self@, self.needle_view()) {
                Some(n) => r == Some(n as usize),
                None => r is None,
            },
    {
        if self.failed {
            return None;
        }
        if self.pending.len() == 0 {
            return Some(self.matches);
        }
        let s = self;
        match check_utf8(s.pending.as_slice()) {
            Ok(()) => {
                let needle = s.needle;
                let overlap = s.overlap;
                let matches = s.matches;
                match utf8_string(s.pending) {
                    Some(text) => {
                        let c = count_workspace_chunk_matches(text.as_str(), needle.as_str(), overlap.as_str());
                        Some(
                            if c > usize::MAX - matches {
                                usize::MAX
                            } else {
                                matches + c
                            },
                        )
                    },
                    None => None,
                }
            },
            Err(_) => None,
        }
    }
}

/// Whether a file's content is counted at all: the needle is not empty and
/// the file's length is known and at most
/// [`MAX_WORKSPACE_SEARCH_FILE_BYTES`]; other files count no match.
pub fn content_count_admitted(needle: &str, file_len: Option<u64>) -> (r: bool)
    ensures
        r == (needle@.len() > 0 && (file_len matches Some(l) && l <= MAX_WORKSPACE_SEARCH_FILE_BYTES)),
{
    needle.unicode_len() > 0 && match file_len {
        Some(l) => l <= MAX_WORKSPACE_SEARCH_FILE_BYTES,
        None => false,
    }
}

// ---------------------------------------------------------------------------
// Requests
// ---------------------------------------------------------------------------

/// Which parts of the workspace a search looks at.
#[derive(Debug, Clone, Copy, PartialEq, Eq, Structural)]
pub enum WorkspaceSearchMode {
    All,
    Name,
    Content,
}

/// Why a search result matched.
#[derive(Debug, Clone, Copy, PartialEq, Eq, Structural)]
pub enum WorkspaceSearchMatchKind {
    Name,
    Content,
}

/// One entry of a listing or of a search page.
#[derive(Debug, Clone)]
pub struct WorkspaceEntry {
    pub name: String,
    /// `directory` or `file`.
    pub entry_type: String,
    pub match_kind: Option<WorkspaceSearchMatchKind>,
    pub content_match_count: Option<usize>,
}

/// The continuation of a workspace search: where the next page starts and
/// the search it belongs to.
#[derive(Debug, Clone, PartialEq, Eq)]
pub struct WorkspaceSearchCursor {
    pub index: usize,
    pub query: String,
    pub path: String,
    pub mode: WorkspaceSearchMode,
    pub respect_gitignore: bool,
}

/// The error reason of a request that leaves the workspace.
pub const TRAVERSAL_REJECTED: &'static str = "Path traversal outside workspace is not allowed";

fn bad_request(reason: &str) -> (e: ConversationError)
    ensures
        e matches ConversationError::BadRequest { reason: r } && r@ == reason@,
{
    ConversationError::BadRequest { reason: owned(reason) }
}

/// A browse request must name a path that is not blank.
pub fn require_browse_path(path: &str) -> (r: Result<(), ConversationError>)
    ensures
        r is Ok <==> trim_seq(path@).len() > 0,
        r matches Err(e) ==> (e matches ConversationError::BadRequest { reason } && reason@
            == "path must not be empty"@),
{
    let t = trim(path);
    if t.as_str().unicode_len() == 0 {
        Err(bad_request("path must not be empty"))
    } else {
        Ok(())
    }
}

/// The workspace setting in a conversation's `extra` JSON: the string under
/// `workspace` (`None` when it is missing or not a string). Extra data that
/// is not JSON is an internal error carrying serde_json's message.
pub fn workspace_setting(extra: &str) -> (r: Result<Option<String>, ConversationError>)
    ensures
        match json_parsed(extra@) {
            None => r matches Err(ConversationError::Internal { reason }) && reason@ == "Invalid extra JSON: "@
                + json_error(extra@),
            Some(v) => r matches Ok(w) && opt_text(w) == as_str(field_of(v, "workspace"@)),
        },
{
    match parse_json(extra) {
        Err(m) => {
            let mut reason = owned("Invalid extra JSON: ");
            push_str(&mut reason, m.as_str());
            Err(ConversationError::Internal { reason })
        },
        Ok(v) => Ok(str_of(get(&v, "workspace"))),
    }
}

/// The workspace root a conversation's settings name, trimmed; a
/// conversation without one cannot be browsed or searched.
pub fn workspace_root(value: Option<&str>) -> (r: Result<String, ConversationError>)
    ensures
        ({
            let w = match value {
                Some(v) => trim_seq(v@),
                None => Seq::empty(),
            };
            &&& w.len() > 0 ==> (r matches Ok(s) && s@ == w)
            &&& w.len() == 0 ==> (r matches Err(ConversationError::BadRequest { reason }) && reason@
                == "Conversation has no workspace assigned"@)
        }),
{
    let w = match value {
        Some(v) => trim(v),
        None => String::new(),
    };
    if w.as_str().unicode_len() == 0 {
        Err(bad_request("Conversation has no workspace assigned"))
    } else {
        Ok(w)
    }
}

/// `s` without its leading `/` characters.
pub open spec fn trim_leading_slashes(s: Seq<char>) -> Seq<char>
    decreases s.len(),
{
    if s.len() > 0 && s[0] == '/' {
        trim_leading_slashes(s.drop_first())
    } else {
        s
    }
}

/// The request path relative to the workspace root; a path with a `..`
/// component is rejected.
pub fn relative_request_path(path: &str) -> (r: Result<String, ConversationError>)
    ensures
        !has_parent_component(trim_leading_slashes(path@)) ==> (r matches Ok(s) && s@
            == trim_leading_slashes(path@)),
        has_parent_component(trim_leading_slashes(path@)) ==> (r matches Err(
            ConversationError::BadRequest { reason },
        ) && reason@ == TRAVERSAL_REJECTED@),
{
    let v = chars_of(path);
    let mut i: usize = 0;
    assert(v@.skip(0) =~= v@);
    while i < v.len() && v[i] == '/'
        invariant
            i <= v.len(),
            trim_leading_slashes(v@) == trim_leading_slashes(v@.skip(i as int)),
        decreases v.len() - i,
    {
        assert(v@.skip(i as int).drop_first() =~= v@.skip(i + 1));
        i += 1;
    }
    assert(v@.skip(i as int) =~= v@.subrange(i as int, v.len() as int));
    let rel = string_from_range(&v, i, v.len());
    if mentions_parent(rel.as_str()) {
        Err(bad_request(TRAVERSAL_REJECTED))
    } else {
        Ok(rel)
    }
}

/// The directory a browse request names: the root itself for an empty
/// relative path, else the relative path below it.
pub open spec fn browse_target_spec(base: Seq<char>, rel: Seq<char>) -> Seq<char> {
    if rel.len() == 0 {
        base
    } else {
        join_path(base, rel)
    }
}

/// The directory a browse request names (see [`browse_target_spec`]).
pub fn browse_target(base: &str, rel: &str) -> (r: String)
    ensures
        r@ == browse_target_spec(base@, rel@),
{
    if rel.unicode_len() == 0 {
        owned(base)
    } else {
        join(base, rel)
    }
}

// ---------------------------------------------------------------------------
// Browsing, step by step
// ---------------------------------------------------------------------------

/// The directory a browse request names once the conversation's settings
/// are known.
#[derive(Debug)]
pub struct BrowsePlan {
    /// The workspace root, trimmed.
    pub workspace: String,
    /// The request path below it.
    pub rel: String,
    /// The directory to resolve and list.
    pub target: String,
}

/// After the request path was checked ([`require_browse_path`]) and the
/// conversation loaded: the conversation must have a workspace and the path
/// must not climb out of it; the directory to list is the path below the
/// workspace root.
pub fn browse_plan(setting: Option<&str>, path: &str) -> (r: Result<BrowsePlan, ConversationError>)
    ensures
        ({
            let w = match setting {
                Some(v) => trim_seq(v@),
                None => Seq::empty(),
            };
            let rel = trim_leading_slashes(path@);
            if w.len() == 0 {
                r matches Err(ConversationError::BadRequest { reason }) && reason@
                    == "Conversation has no workspace assigned"@
            } else if has_parent_component(rel) {
                r matches Err(ConversationError::BadRequest { reason }) && reason@ == TRAVERSAL_REJECTED@
            } else {
                r matches Ok(p) && p.workspace@ == w && p.rel@ == rel && p.target@ == browse_target_spec(w, rel)
            }
        }),
{
    let workspace = workspace_root(setting)?;
    let rel = relative_request_path(path)?;
    let target = browse_target(workspace.as_str(), rel.as_str());
    Ok(BrowsePlan { workspace, rel, target })
}

/// After the workspace root and the target directory were resolved on
/// disk: the target must lie inside the workspace (as written or as
/// resolved) and at most [`MAX_DIR_DEPTH`] levels below it.
pub fn browse_allowed(plan: &BrowsePlan, resolved_target: &str, resolved_base: &str) -> (r: Result<
    (),
    ConversationError,
>)
    ensures
        !(path_starts_with(plan.target@, plan.workspace@) || path_starts_with(resolved_target@, resolved_base@))
            ==> (r matches Err(ConversationError::BadRequest { reason }) && reason@ == TRAVERSAL_REJECTED@),
        (path_starts_with(plan.target@, plan.workspace@) || path_starts_with(resolved_target@, resolved_base@))
            ==> (r is Ok <==> path_components(plan.rel@).len() <= MAX_DIR_DEPTH),
        (path_starts_with(plan.target@, plan.workspace@) || path_starts_with(resolved_target@, resolved_base@))
            && r is Err ==> (r matches Err(ConversationError::BadRequest { reason }) && reason@
            == "Directory depth exceeds maximum of 10"@),
{
    check_containment(plan.target.as_str(), plan.workspace.as_str(), resolved_target, resolved_base)?;
    check_depth(plan.rel.as_str())
}

/// Whether a search starts at the workspace root: its relative path is
/// empty or `.`.
pub open spec fn is_project_root(rel: Seq<char>) -> bool {
    rel.len() == 0 || rel == seq!['.']
}

/// The directory a search request starts from.
pub fn search_root(base: &str, rel: &str) -> (r: (String, bool))
    ensures
        r.1 == is_project_root(rel@),
        r.0@ == (if is_project_root(rel@) {
            base@
        } else {
            join_path(base@, rel@)
        }),
{
    let v = chars_of(rel);
    let root = v.len() == 0 || (v.len() == 1 && v[0] == '.');
    proof {
        if v.len() == 1 && v[0] == '.' {
            assert(rel@ =~= seq!['.']);
        }
        if rel@ == seq!['.'] {
            assert(v@.len() == 1 && v@[0] == '.');
        }
    }
    if root {
        (owned(base), true)
    } else {
        (join(base, rel), false)
    }
}

/// A target stays inside the workspace when it lies below the root as
/// written, or its resolved form lies below the resolved root (which admits
/// directories linked into the workspace).
pub fn check_containment(
    target: &str,
    base: &str,
    resolved_target: &str,
    resolved_base: &str,
) -> (r: Result<(), ConversationError>)
    ensures
        r is Ok <==> (path_starts_with(target@, base@) || path_starts_with(
            resolved_target@,
            resolved_base@,
        )),
        r matches Err(e) ==> (e matches ConversationError::BadRequest { reason } && reason@
            == TRAVERSAL_REJECTED@),
{
    if !starts_with_path(target, base) && !starts_with_path(resolved_target, resolved_base) {
        Err(bad_request(TRAVERSAL_REJECTED))
    } else {
        Ok(())
    }
}

/// A browse request may descend at most [`MAX_DIR_DEPTH`] levels.
pub fn check_depth(rel: &str) -> (r: Result<(), ConversationError>)
    ensures
        r is Ok <==> path_components(rel@).len() <= MAX_DIR_DEPTH,
        r matches Err(e) ==> (e matches ConversationError::BadRequest { reason } && reason@
            == "Directory depth exceeds maximum of 10"@),
{
    if component_count(rel) > MAX_DIR_DEPTH {
        Err(bad_request("Directory depth exceeds maximum of 10"))
    } else {
        Ok(())
    }
}

/// The text a search request looks for, trimmed; a missing or blank text
/// is rejected.
pub fn search_text(search: Option<&str>) -> (r: Result<String, ConversationError>)
    ensures
        ({
            let t = match search {
                Some(s) => trim_seq(s@),
                None => Seq::empty(),
            };
            &&& t.len() > 0 ==> (r matches Ok(s) && s@ == t)
            &&& t.len() == 0 ==> (r matches Err(ConversationError::BadRequest { reason }) && reason@
                == "search must not be empty"@)
        }),
{
    let t = match search {
        Some(s) => trim(s),
        None => String::new(),
    };
    if t.as_str().unicode_len() == 0 {
        Err(bad_request("search must not be empty"))
    } else {
        Ok(t)
    }
}

/// The search mode and gitignore handling of a request: all parts by
/// default, and gitignore followed by default only from the workspace root.
pub fn search_options(
    mode: Option<WorkspaceSearchMode>,
    respect_gitignore: Option<bool>,
    project_root: bool,
) -> (r: (WorkspaceSearchMode, bool))
    ensures
        r.0 == (match mode {
            Some(m) => m,
            None => WorkspaceSearchMode::All,
        }),
        r.1 == (match respect_gitignore {
            Some(b) => b,
            None => project_root,
        }),
{
    (
        match mode {
            Some(m) => m,
            None => WorkspaceSearchMode::All,
        },
        match respect_gitignore {
            Some(b) => b,
            None => project_root,
        },
    )
}

/// Where a search page starts: at the beginning without a cursor, else at
/// the cursor's index when the cursor belongs to this very search.
pub fn cursor_start(
    cursor: Option<WorkspaceSearchCursor>,
    search: &str,
    root: &str,
    mode: WorkspaceSearchMode,
    respect_gitignore: bool,
) -> (r: Result<usize, ConversationError>)
    ensures
        match cursor {
            None => r == Ok::<usize, ConversationError>(0),
            Some(c) => if c.query@ == search@ && c.path@ == root@ && c.mode == mode
                && c.respect_gitignore == respect_gitignore {
                r == Ok::<usize, ConversationError>(c.index)
            } else {
                r matches Err(ConversationError::BadRequest { reason }) && reason@
                    == "cursor does not match this search"@
            },
        },
{
    match cursor {
        None => Ok(0),
        Some(c) => {
            if str_eq(c.query.as_str(), search) && str_eq(c.path.as_str(), root) && c.mode == mode
                && c.respect_gitignore == respect_gitignore {
                Ok(c.index)
            } else {
                Err(bad_request("cursor does not match this search"))
            }
        },
    }
}

// ---------------------------------------------------------------------------
// Directory listings
// ---------------------------------------------------------------------------

/// Whether an entry named `name` is listed under the filter `search`: no
/// filter (or an empty one) lists everything; otherwise the lower-cased
/// name must contain the lower-cased filter.
pub open spec fn listed(name: Seq<char>, search: Option<Seq<char>>) -> bool {
    match search {
        None => true,
        Some(f) => f.len() == 0 || seq_contains(lowercase(name), lowercase(f)),
    }
}

/// Whether listing entry `a` (name, is-directory) comes before `b`:
/// directories before files (`directory` sorts before `file`), then by
/// lower-cased name.
pub open spec fn listing_before(a: (Seq<char>, bool), b: (Seq<char>, bool)) -> bool {
    (a.1 && !b.1) || (a.1 == b.1 && crate::summaries::text_lt(lowercase(a.0), lowercase(b.0)))
}

/// Where a stable sort puts `x` into the sorted `s`: before the first entry
/// that `x` comes before.
pub open spec fn listing_position(s: Seq<(Seq<char>, bool)>, x: (Seq<char>, bool)) -> int
    decreases s.len(),
{
    if s.len() == 0 {
        0
    } else if listing_before(x, s[0]) {
        0
    } else {
        1 + listing_position(s.drop_first(), x)
    }
}

/// `s` in listing order; entries that compare equal keep their order.
pub open spec fn sorted_listing(s: Seq<(Seq<char>, bool)>) -> Seq<(Seq<char>, bool)>
    decreases s.len(),
{
    if s.len() == 0 {
        Seq::empty()
    } else {
        let r = sorted_listing(s.drop_last());
        r.insert(listing_position(r, s.last()), s.last())
    }
}

/// The listed entries of `items`, in order.
pub open spec fn listed_items(items: Seq<(Seq<char>, bool)>, search: Option<Seq<char>>) -> Seq<(Seq<char>, bool)>
    decreases items.len(),
{
    if items.len() == 0 {
        Seq::empty()
    } else {
        let r = listed_items(items.drop_last(), search);
        if listed(items.last().0, search) {
            r.push(items.last())
        } else {
            r
        }
    }
}

pub open spec fn pair_view(p: (String, bool)) -> (Seq<char>, bool) {
    (p.0@, p.1)
}

pub open spec fn pair_view_fn() -> spec_fn((String, bool)) -> (Seq<char>, bool) {
    |p: (String, bool)| pair_view(p)
}

proof fn lemma_listing_position_bounds(s: Seq<(Seq<char>, bool)>, x: (Seq<char>, bool))
    ensures
        0 <= listing_position(s, x) <= s.len(),
    decreases s.len(),
{
    if s.len() > 0 {
        lemma_listing_position_bounds(s.drop_first(), x);
    }
}

/// Whether `s` is in listing order: no entry comes before one ahead of it.
pub open spec fn in_listing_order(s: Seq<(Seq<char>, bool)>) -> bool {
    forall|a: int, b: int| 0 <= a < b < s.len() ==> !listing_before(#[trigger] s[b], #[trigger] s[a])
}

proof fn lemma_listing_before_order(a: (Seq<char>, bool), b: (Seq<char>, bool), c: (Seq<char>, bool))
    ensures
        !listing_before(a, a),
        listing_before(a, b) && listing_before(b, c) ==> listing_before(a, c),
{
    crate::summaries::lemma_text_lt_irreflexive(lowercase(a.0));
    if listing_before(a, b) && listing_before(b, c) && a.1 == b.1 && b.1 == c.1 {
        crate::summaries::lemma_text_lt_transitive(lowercase(a.0), lowercase(b.0), lowercase(c.0));
    }
}

proof fn lemma_listing_position_facts(s: Seq<(Seq<char>, bool)>, x: (Seq<char>, bool))
    ensures
        0 <= listing_position(s, x) <= s.len(),
        forall|k: int| 0 <= k < listing_position(s, x) ==> !listing_before(x, #[trigger] s[k]),
        listing_position(s, x) < s.len() ==> listing_before(x, s[listing_position(s, x)]),
    decreases s.len(),
{
    if s.len() > 0 && !listing_before(x, s[0]) {
        lemma_listing_position_facts(s.drop_first(), x);
        assert forall|k: int| 0 <= k < listing_position(s, x) implies !listing_before(x, #[trigger] s[k]) by {
            if k > 0 {
                assert(s[k] == s.drop_first()[k - 1]);
            }
        }
    }
}

proof fn lemma_listing_insert_keeps_order(s: Seq<(Seq<char>, bool)>, x: (Seq<char>, bool))
    requires
        in_listing_order(s),
    ensures
        in_listing_order(s.insert(listing_position(s, x), x)),
{
    lemma_listing_position_facts(s, x);
    let p = listing_position(s, x);
    let r = s.insert(p, x);
    assert forall|a: int, b: int| 0 <= a < b < r.len() implies !listing_before(#[trigger] r[b], #[trigger] r[a]) by {
        if a == p {
            let q = s[b - 1];
            assert(r[b] == q);
            lemma_listing_before_order(q, x, s[p]);
            lemma_listing_before_order(s[p], q, s[p]);
        } else if b == p {
            assert(r[a] == s[a]);
        } else {
            let a2 = if a < p {
                a
            } else {
                a - 1
            };
            let b2 = if b < p {
                b
            } else {
                b - 1
            };
            assert(r[a] == s[a2]);
            assert(r[b] == s[b2]);
        }
    }
}

/// A directory listing is in listing order and loses nothing: no entry
/// comes before one listed ahead of it (directories first, then by
/// lower-cased name), and it holds the entries it was given, each as often
/// as it occurs.
pub proof fn law_listing_is_in_order(s: Seq<(Seq<char>, bool)>)
    ensures
        in_listing_order(sorted_listing(s)),
        sorted_listing(s).to_multiset() == s.to_multiset(),
    decreases s.len(),
{
    broadcast use vstd::seq_lib::to_multiset_build, vstd::seq_lib::to_multiset_insert;

    if s.len() > 0 {
        law_listing_is_in_order(s.drop_last());
        let r = sorted_listing(s.drop_last());
        lemma_listing_insert_keeps_order(r, s.last());
        lemma_listing_position_bounds(r, s.last());
        assert(s.drop_last().push(s.last()) == s);
    } else {
        assert(sorted_listing(s) =~= s);
    }
}

/// A directory listing shows directories first: no file is listed ahead of
/// a directory, and entries of the same kind are listed by lower-cased
/// name (no entry's lower-cased name sorts before that of one listed ahead
/// of it).
pub proof fn law_listing_shows_directories_first(s: Seq<(Seq<char>, bool)>)
    ensures
        forall|a: int, b: int|
            0 <= a < b < sorted_listing(s).len() ==> !(!(#[trigger] sorted_listing(s)[a]).1 && (
            #[trigger] sorted_listing(s)[b]).1),
        forall|a: int, b: int|
            0 <= a < b < sorted_listing(s).len() && (#[trigger] sorted_listing(s)[a]).1 == (
            #[trigger] sorted_listing(s)[b]).1 ==> !crate::summaries::text_lt(
                lowercase(sorted_listing(s)[b].0),
                lowercase(sorted_listing(s)[a].0),
            ),
{
    law_listing_is_in_order(s);
}

fn comes_before(a: &(String, bool), b: &(String, bool)) -> (r: bool)
    ensures
        r == listing_before(pair_view(*a), pair_view(*b)),
{
    if a.1 && !b.1 {
        return true;
    }
    if a.1 != b.1 {
        return false;
    }
    let la = to_lowercase(a.0.as_str());
    let lb = to_lowercase(b.0.as_str());
    crate::summaries::text_less(la.as_str(), lb.as_str())
}

/// A directory listing: the entries (name, is-directory) that the filter
/// lists, directories first, then by lower-cased name.
pub fn browse_listing(items: Vec<(String, bool)>, search: Option<&str>) -> (r: Vec<WorkspaceEntry>)
    ensures
        ({
            let want = sorted_listing(
                listed_items(
                    items@.map_values(pair_view_fn()),
                    match search {
                        Some(f) => Some(f@),
                        None => None,
                    },
                ),
            );
            &&& r@.len() == want.len()
            &&& forall|k: int|
                0 <= k < r@.len() ==> {
                    &&& (#[trigger] r@[k]).name@ == want[k].0
                    &&& r@[k].entry_type@ == (if want[k].1 {
                        "directory"@
                    } else {
                        "file"@
                    })
                    &&& r@[k].match_kind is None
                    &&& r@[k].content_match_count is None
                }
        }),
{
    let ghost sv: Option<Seq<char>> = match search {
        Some(f) => Some(f@),
        None => None,
    };
    let ghost all = items@.map_values(pair_view_fn());
    let ghost n = all.len();
    let lower_filter = match search {
        Some(f) => if f.unicode_len() == 0 {
            None
        } else {
            Some(to_lowercase(f))
        },
        None => None,
    };
    let mut sorted: Vec<(String, bool)> = Vec::new();
    let mut rest = items;
    assert(all.take(0) =~= Seq::<(Seq<char>, bool)>::empty());
    assert(rest@.map_values(pair_view_fn()) =~= all.skip(0));
    while rest.len() > 0
        invariant
            n == all.len(),
            rest@.len() <= n,
            rest@.map_values(pair_view_fn()) == all.skip(n - rest@.len()),
            sorted@.map_values(pair_view_fn()) == sorted_listing(listed_items(all.take(n - rest@.len()), sv)),
            match lower_filter {
                Some(lf) => sv matches Some(f) && f.len() > 0 && lf@ == lowercase(f),
                None => sv is None || (sv matches Some(f) && f.len() == 0),
            },
        decreases rest.len(),
    {
        let ghost k = n - rest@.len();
        let ghost rb = rest@;
        let x = rest.remove(0);
        proof {
            assert(rb.map_values(pair_view_fn())[0] == all.skip(k)[0]);
            assert(pair_view(x) == all[k]);
            assert forall|j: int| 0 <= j < rest@.len() implies #[trigger] rest@.map_values(pair_view_fn())[j]
                == all.skip(k + 1)[j] by {
                assert(rb.map_values(pair_view_fn())[j + 1] == all.skip(k)[j + 1]);
            }
            assert(rest@.map_values(pair_view_fn()) =~= all.skip(k + 1));
            assert(all.take(k + 1).drop_last() =~= all.take(k));
            assert(all.take(k + 1).last() == all[k]);
        }
        let keep = match &lower_filter {
            None => true,
            Some(lf) => {
                let ln = to_lowercase(x.0.as_str());
                crate::text::str_contains(ln.as_str(), lf.as_str())
            },
        };
        let ghost lk = listed_items(all.take(k), sv);
        assert(keep == listed(x.0@, sv));
        proof {
            if keep {
                assert(listed_items(all.take(k + 1), sv) == lk.push(all[k]));
                assert(lk.push(all[k]).drop_last() =~= lk);
            } else {
                assert(listed_items(all.take(k + 1), sv) == lk);
            }
        }
        if keep {
            let ghost sb = sorted@.map_values(pair_view_fn());
            let mut p: usize = 0;
            assert(sb.skip(0) =~= sb);
            while p < sorted.len() && !comes_before(&x, &sorted[p])
                invariant
                    p <= sorted@.len(),
                    sb == sorted@.map_values(pair_view_fn()),
                    listing_position(sb, pair_view(x)) == p + listing_position(sb.skip(p as int), pair_view(x)),
                decreases sorted.len() - p,
            {
                proof {
                    assert(sb.skip(p as int).drop_first() =~= sb.skip(p + 1));
                    assert(sb.skip(p as int)[0] == pair_view(sorted@[p as int]));
                }
                p += 1;
            }
            proof {
                if p < sorted@.len() {
                    assert(sb.skip(p as int)[0] == pair_view(sorted@[p as int]));
                } else {
                    assert(sb.skip(p as int) =~= Seq::<(Seq<char>, bool)>::empty());
                }
            }
            let ghost xv = pair_view(x);
            sorted.insert(p, x);
            proof {
                assert(sorted@.map_values(pair_view_fn()) =~= sb.insert(p as int, xv));
            }
        }
    }
    assert(all.take(n as int) =~= all);
    let ghost want = sorted_listing(listed_items(all, sv));
    let mut out: Vec<WorkspaceEntry> = Vec::new();
    let ghost sv2 = sorted@.map_values(pair_view_fn());
    let mut src = sorted;
    while src.len() > 0
        invariant
            sv2 == want,
            src@.len() <= want.len(),
            src@.map_values(pair_view_fn()) == want.skip(want.len() - src@.len()),
            out@.len() == want.len() - src@.len(),
            forall|k: int|
                0 <= k < out@.len() ==> {
                    &&& (#[trigger] out@[k]).name@ == want[k].0
                    &&& out@[k].entry_type@ == (if want[k].1 {
                        "directory"@
                    } else {
                        "file"@
                    })
                    &&& out@[k].match_kind is None
                    &&& out@[k].content_match_count is None
                },
        decreases src.len(),
    {
        let ghost k = want.len() - src@.len();
        let ghost sb = src@;
        let (name, is_dir) = src.remove(0);
        proof {
            assert(sb.map_values(pair_view_fn())[0] == want.skip(k)[0]);
            assert forall|j: int| 0 <= j < src@.len() implies #[trigger] src@.map_values(pair_view_fn())[j]
                == want.skip(k + 1)[j] by {
                assert(sb.map_values(pair_view_fn())[j + 1] == want.skip(k)[j + 1]);
            }
            assert(src@.map_values(pair_view_fn()) =~= want.skip(k + 1));
        }
        let entry_type = if is_dir {
            owned("directory")
        } else {
            owned("file")
        };
        out.push(WorkspaceEntry { name, entry_type, match_kind: None, content_match_count: None });
    }
    out
}

// ---------------------------------------------------------------------------
// Search walk
// ---------------------------------------------------------------------------

/// What kind of filesystem object a walked path is.
#[derive(Debug, Clone, Copy, PartialEq, Eq, Structural)]
pub enum FileKind {
    Dir,
    File,
    Other,
}

/// One path of a workspace walk: its file kind when known, and its length
/// when its metadata could be read.
#[derive(Debug, Clone)]
pub struct WalkedPath {
    pub path: String,
    pub kind: Option<FileKind>,
    pub size: Option<u64>,
}

/// What the walk does with a path.
#[derive(Debug, Clone, Copy, PartialEq, Eq, Structural)]
pub enum WalkDecision {
    /// The path is passed over.
    Skip,
    /// The page is complete; the walk stops.
    Stop,
    /// The file's content must be counted and handed to `record_content`.
    CountContent,
    /// The path was handled.
    Handled,
}

/// The entry name of `path` below `base` (`\` turned into `/`), if it lies
/// below it and the name is not empty.
pub open spec fn search_entry_name(base: Seq<char>, path: Seq<char>) -> Option<Seq<char>> {
    match stripped_spec(path, base) {
        Some(rel) => {
            let name = rel.map_values(|c: char| if c == '\\' { '/' } else { c });
            if name.len() == 0 {
                None
            } else {
                Some(name)
            }
        },
        None => None,
    }
}

/// The search result for `path` below `base`, if it has a name there.
pub fn workspace_search_entry(
    base: &str,
    path: &str,
    is_dir: bool,
    match_kind: WorkspaceSearchMatchKind,
    content_match_count: usize,
) -> (r: Option<WorkspaceEntry>)
    ensures
        match search_entry_name(base@, path@) {
            Some(name) => r matches Some(e) && e.name@ == name && e.entry_type@ == (if is_dir {
                "directory"@
            } else {
                "file"@
            }) && e.match_kind == Some(match_kind) && e.content_match_count == (if content_match_count > 0 {
                Some(content_match_count)
            } else {
                None
            }),
            None => r is None,
        },
{
    let rel = match strip_base(path, base) {
        Some(r) => r,
        None => return None,
    };
    let v = chars_of(rel.as_str());
    let mut name = String::new();
    let mut i: usize = 0;
    while i < v.len()
        invariant
            i <= v.len(),
            name@ == v@.take(i as int).map_values(|c: char| if c == '\\' { '/' } else { c }),
        decreases v.len() - i,
    {
        let c = if v[i] == '\\' {
            '/'
        } else {
            v[i]
        };
        push_char(&mut name, c);
        assert(v@.take(i + 1).map_values(|c: char| if c == '\\' { '/' } else { c }) =~= v@.take(
            i as int,
        ).map_values(|c: char| if c == '\\' { '/' } else { c }).push(c));
        i += 1;
    }
    assert(v@.take(v.len() as int) =~= v@);
    if v.len() == 0 {
        return None;
    }
    let entry_type = if is_dir {
        owned("directory")
    } else {
        owned("file")
    };
    Some(
        WorkspaceEntry {
            name,
            entry_type,
            match_kind: Some(match_kind),
            content_match_count: if content_match_count > 0 {
                Some(content_match_count)
            } else {
                None
            },
        },
    )
}

/// `n`, saturated at `usize::MAX`.
pub open spec fn sat_index(n: nat) -> nat {
    if n > usize::MAX {
        usize::MAX as nat
    } else {
        n
    }
}

/// Whether `path` is a name hit: the search looks at names, and the
/// lower-cased path below `base` contains the needle.
pub open spec fn name_hit(base: Seq<char>, path: Seq<char>, needle: Seq<char>, mode: WorkspaceSearchMode) -> bool {
    mode != WorkspaceSearchMode::Content && match stripped_spec(path, base) {
        Some(rel) => seq_contains(lowercase(rel), needle),
        None => false,
    }
}

/// What a walk does with the path `path` (of kind `kind` and length
/// `size`): the search root itself and the paths a previous page covered
/// are skipped, a full page stops, a path of unknown kind is skipped; a file
/// whose content must be searched is counted when it fits the size and
/// total-bytes limits (a file over the size limit is recorded without
/// counting, one over the remaining bytes stops the page); every other path
/// is handled by name.
pub open spec fn walk_decision(
    base: Seq<char>,
    root: Seq<char>,
    needle: Seq<char>,
    mode: WorkspaceSearchMode,
    cursor: nat,
    index: nat,
    scanned: nat,
    results: nat,
    bytes: nat,
    path: Seq<char>,
    kind: Option<FileKind>,
    size: Option<u64>,
) -> WalkDecision {
    if path_components(path) == path_components(root) {
        WalkDecision::Skip
    } else if index < cursor {
        WalkDecision::Skip
    } else if scanned >= MAX_WORKSPACE_SEARCH_SCANNED || results >= MAX_WORKSPACE_SEARCH_RESULTS {
        WalkDecision::Stop
    } else {
        match kind {
            None => WalkDecision::Skip,
            Some(k) => if mode != WorkspaceSearchMode::Name && k == FileKind::File && !name_hit(
                base,
                path,
                needle,
                mode,
            ) {
                let s: nat = match size {
                    Some(v) => v as nat,
                    None => 0,
                };
                if s > MAX_WORKSPACE_SEARCH_FILE_BYTES {
                    WalkDecision::Handled
                } else if s + bytes > MAX_WORKSPACE_SEARCH_TOTAL_BYTES {
                    WalkDecision::Stop
                } else {
                    WalkDecision::CountContent
                }
            } else {
                WalkDecision::Handled
            },
        }
    }
}

/// A resumable, bounded workspace search page: it skips the paths a
/// previous page covered, scans at most [`MAX_WORKSPACE_SEARCH_SCANNED`]
/// paths, keeps at most [`MAX_WORKSPACE_SEARCH_RESULTS`] results, and reads
/// at most [`MAX_WORKSPACE_SEARCH_TOTAL_BYTES`] content bytes.
pub struct WorkspaceWalk {
    base: String,
    root: String,
    needle: String,
    mode: WorkspaceSearchMode,
    cursor: usize,
    absolute_index: usize,
    scanned: usize,
    scanned_bytes: u64,
    budget_exhausted: bool,
    entries: Vec<WorkspaceEntry>,
    pending: Option<String>,
    pending_dir: bool,
    visited: Ghost<Seq<(Seq<char>, Option<FileKind>)>>,
    handled: Ghost<Seq<Seq<char>>>,
}

/// Whether every path of `ps` from position `from` on has a file type.
pub open spec fn typed_from(ps: Seq<(Seq<char>, Option<FileKind>)>, from: int) -> bool {
    forall|i: int| from <= i < ps.len() ==> (#[trigger] ps[i]).1 is Some
}

/// The paths of a sequence of walked paths.
pub open spec fn walked_paths(ps: Seq<(Seq<char>, Option<FileKind>)>) -> Seq<Seq<char>> {
    ps.map_values(|p: (Seq<char>, Option<FileKind>)| p.0)
}

impl WorkspaceWalk {
    pub closed spec fn base_view(&self) -> Seq<char> {
        self.base@
    }

    pub closed spec fn root_view(&self) -> Seq<char> {
        self.root@
    }

    /// The lower-cased search text.
    pub closed spec fn needle_view(&self) -> Seq<char> {
        self.needle@
    }

    pub closed spec fn mode_view(&self) -> WorkspaceSearchMode {
        self.mode
    }

    /// Where this page starts.
    pub closed spec fn cursor_view(&self) -> nat {
        self.cursor as nat
    }

    /// How many of the paths a previous page covered were passed so far.
    pub closed spec fn index_view(&self) -> nat {
        self.absolute_index as nat
    }

    pub closed spec fn scanned_view(&self) -> nat {
        self.scanned as nat
    }

    pub closed spec fn bytes_view(&self) -> nat {
        self.scanned_bytes as nat
    }

    pub closed spec fn exhausted_view(&self) -> bool {
        self.budget_exhausted
    }

    pub closed spec fn entries_view(&self) -> Seq<WorkspaceEntry> {
        self.entries@
    }

    /// The path whose content count [`WorkspaceWalk::visit`] asked for and
    /// that is not recorded yet.
    pub closed spec fn pending_view(&self) -> Option<Seq<char>> {
        match self.pending {
            Some(p) => Some(p@),
            None => None,
        }
    }

    /// The paths other than the search root that the page consumed, in
    /// order, with their file types: those it passed before its cursor and
    /// those it handled, skipped or asked to count after it (not the path
    /// at which it stopped).
    pub closed spec fn visited_view(&self) -> Seq<(Seq<char>, Option<FileKind>)> {
        self.visited@
    }

    /// The paths the page counted as scanned, in order.
    pub closed spec fn handled_view(&self) -> Seq<Seq<char>> {
        self.handled@
    }

    pub closed spec fn wf(&self) -> bool {
        &&& self.scanned <= MAX_WORKSPACE_SEARCH_SCANNED
        &&& self.entries@.len() <= MAX_WORKSPACE_SEARCH_RESULTS
        &&& self.scanned_bytes <= MAX_WORKSPACE_SEARCH_TOTAL_BYTES
        &&& self.absolute_index <= self.cursor
        &&& self.absolute_index < self.cursor ==> self.scanned == 0
        &&& self.handled@.len() == self.scanned
        &&& self.absolute_index < self.cursor ==> self.visited@.len() == self.absolute_index && self.pending is None
            && self.entries@.len() == 0 && !self.budget_exhausted
        &&& (self.absolute_index == self.cursor && typed_from(self.visited@, self.cursor as int)) ==> {
            &&& self.visited@.len() == self.cursor + self.scanned + (if self.pending is Some {
                1int
            } else {
                0int
            })
            &&& forall|i: int| 0 <= i < self.scanned ==> #[trigger] self.handled@[i] == self.visited@[self.cursor + i].0
            &&& self.pending matches Some(p) ==> self.visited@.last().0 == p@
        }
        &&& self.pending is Some ==> self.absolute_index == self.cursor && self.scanned < MAX_WORKSPACE_SEARCH_SCANNED
            && self.entries@.len() < MAX_WORKSPACE_SEARCH_RESULTS
    }

    /// A search page below `base`, walking from `root`, for `search`,
    /// starting after the first `cursor` paths.
    pub fn new(base: String, root: String, search: &str, mode: WorkspaceSearchMode, cursor: usize) -> (w: Self)
        ensures
            w.wf(),
            w.base_view() == base@,
            w.root_view() == root@,
            w.needle_view() == lowercase(search@),
            w.mode_view() == mode,
            w.cursor_view() == cursor,
            w.index_view() == 0,
            w.scanned_view() == 0,
            w.bytes_view() == 0,
            !w.exhausted_view(),
            w.entries_view().len() == 0,
            w.pending_view() is None,
            w.visited_view().len() == 0,
            w.handled_view().len() == 0,
    {
        WorkspaceWalk {
            base,
            root,
            needle: to_lowercase(search),
            mode,
            cursor,
            absolute_index: 0,
            scanned: 0,
            scanned_bytes: 0,
            budget_exhausted: false,
            entries: Vec::new(),
            pending: None,
            pending_dir: false,
            visited: Ghost(Seq::empty()),
            handled: Ghost(Seq::empty()),
        }
    }

    /// Counts `path` as scanned and records it when it matched.
    fn record(&mut self, path: &str, is_dir: bool, name_matches: bool, count: usize)
        requires
            old(self).scanned < MAX_WORKSPACE_SEARCH_SCANNED,
            old(self).entries@.len() < MAX_WORKSPACE_SEARCH_RESULTS,
        ensures
            final(self).entries@.len() <= old(self).entries@.len() + 1,
            final(self).pending == old(self).pending,
            final(self).visited == old(self).visited,
            final(self).handled@ == old(self).handled@.push(path@),
            final(self).base == old(self).base,
            final(self).root == old(self).root,
            final(self).needle == old(self).needle,
            final(self).mode == old(self).mode,
            final(self).cursor == old(self).cursor,
            final(self).scanned_bytes == old(self).scanned_bytes,
            final(self).budget_exhausted == old(self).budget_exhausted,
            final(self).absolute_index == old(self).absolute_index,
            final(self).scanned == old(self).scanned + 1,
            ({
                let kind = if name_matches {
                    Some(WorkspaceSearchMatchKind::Name)
                } else if count > 0 {
                    Some(WorkspaceSearchMatchKind::Content)
                } else {
                    None
                };
                match (kind, search_entry_name(old(self).base@, path@)) {
                    (Some(k), Some(name)) => final(self).entries@.len() == old(self).entries@.len() + 1
                        && final(self).entries@.drop_last() == old(self).entries@ && final(self).entries@.last().name@ == name && final(self).entries@.last().match_kind == Some(k)
                        && final(self).entries@.last().entry_type@ == (if is_dir {
                        "directory"@
                    } else {
                        "file"@
                    }) && final(self).entries@.last().content_match_count == (if count > 0 {
                        Some(count)
                    } else {
                        None
                    }),
                    _ => final(self).entries@ == old(self).entries@,
                }
            }),
    {
        self.scanned = self.scanned + 1;
        self.handled = Ghost(self.handled@.push(path@));
        let kind = if name_matches {
            Some(WorkspaceSearchMatchKind::Name)
        } else if count > 0 {
            Some(WorkspaceSearchMatchKind::Content)
        } else {
            None
        };
        match kind {
            Some(k) => match workspace_search_entry(self.base.as_str(), path, is_dir, k, count) {
                Some(e) => {
                    self.entries.push(e);
                },
                None => {},
            },
            None => {},
        }
    }

    /// Whether a content count asked for by [`WorkspaceWalk::visit`] is
    /// still to be recorded.
    pub fn content_pending(&self) -> (r: bool)
        ensures
            r == (self.pending_view() is Some),
    {
        self.pending.is_some()
    }

    /// Handles the next walked path. Paths a previous page covered are
    /// passed; a full page stops the walk; a file whose content is to be
    /// counted is reserved against the byte budget (which, when exceeded,
    /// ends the page) and left to [`WorkspaceWalk::record_content`]; any
    /// other path is counted as scanned and recorded when its name matches.
    pub fn visit(&mut self, e: &WalkedPath) -> (d: WalkDecision)
        requires
            old(self).wf(),
            old(self).pending_view() is None,
        ensures
            final(self).wf(),
            final(self).base_view() == old(self).base_view(),
            final(self).root_view() == old(self).root_view(),
            final(self).needle_view() == old(self).needle_view(),
            final(self).mode_view() == old(self).mode_view(),
            final(self).cursor_view() == old(self).cursor_view(),
            d == walk_decision(
                old(self).base_view(),
                old(self).root_view(),
                old(self).needle_view(),
                old(self).mode_view(),
                old(self).cursor_view(),
                old(self).index_view(),
                old(self).scanned_view(),
                old(self).entries_view().len(),
                old(self).bytes_view(),
                e.path@,
                e.kind,
                e.size,
            ),
            final(self).index_view() == (if path_components(e.path@) != path_components(old(self).root_view())
                && old(self).index_view() < old(self).cursor_view() {
                old(self).index_view() + 1
            } else {
                old(self).index_view()
            }),
            final(self).visited_view() == (if d == WalkDecision::Stop || path_components(e.path@) == path_components(
                old(self).root_view(),
            ) {
                old(self).visited_view()
            } else {
                old(self).visited_view().push((e.path@, e.kind))
            }),
            final(self).handled_view() == (if d == WalkDecision::Handled {
                old(self).handled_view().push(e.path@)
            } else {
                old(self).handled_view()
            }),
            final(self).pending_view() == (if d == WalkDecision::CountContent {
                Some(e.path@)
            } else {
                None
            }),
            d == WalkDecision::Stop ==> (old(self).scanned_view() >= MAX_WORKSPACE_SEARCH_SCANNED
                || old(self).entries_view().len() >= MAX_WORKSPACE_SEARCH_RESULTS
                || final(self).exhausted_view()),
            d == WalkDecision::Skip ==> final(self).scanned_view() == old(self).scanned_view()
                && final(self).entries_view() == old(self).entries_view(),
            d == WalkDecision::CountContent ==> final(self).scanned_view() == old(self).scanned_view()
                && final(self).entries_view() == old(self).entries_view() && e.kind == Some(FileKind::File)
                && !name_hit(old(self).base_view(), e.path@, old(self).needle_view(), old(self).mode_view())
                && old(self).mode_view() != WorkspaceSearchMode::Name && final(self).index_view()
                == final(self).cursor_view() && final(self).scanned_view() < MAX_WORKSPACE_SEARCH_SCANNED
                && final(self).entries_view().len() < MAX_WORKSPACE_SEARCH_RESULTS,
            d == WalkDecision::Handled ==> final(self).scanned_view() == old(self).scanned_view() + 1
                && (final(self).entries_view() == old(self).entries_view() || (final(self).entries_view().drop_last() == old(self).entries_view() && search_entry_name(
                old(self).base_view(),
                e.path@,
            ) == Some(final(self).entries_view().last().name@) && final(self).entries_view().last().match_kind == Some(WorkspaceSearchMatchKind::Name)))
                && (name_hit(old(self).base_view(), e.path@, old(self).needle_view(), old(self).mode_view())
                && search_entry_name(old(self).base_view(), e.path@) is Some ==> final(self).entries_view().len() == old(self).entries_view().len() + 1),
    {
        if same_path(e.path.as_str(), self.root.as_str()) {
            return WalkDecision::Skip;
        }
        if self.absolute_index < self.cursor {
            self.absolute_index = self.absolute_index + 1;
            self.visited = Ghost(self.visited@.push((e.path@, e.kind)));
            return WalkDecision::Skip;
        }
        if self.scanned >= MAX_WORKSPACE_SEARCH_SCANNED || self.entries.len() >= MAX_WORKSPACE_SEARCH_RESULTS {
            return WalkDecision::Stop;
        }
        let ghost before = self.visited@;
        let kind = match e.kind {
            Some(k) => k,
            None => {
                self.visited = Ghost(self.visited@.push((e.path@, e.kind)));
                proof {
                    if typed_from(before, self.cursor as int) {
                        assert(before.len() >= self.cursor);
                    } else {
                        let j = choose|j: int| self.cursor <= j < before.len() && !((#[trigger] before[j]).1 is Some);
                        assert(self.visited@[j] == before[j]);
                    }
                    assert(self.visited@[before.len() as int].1 is None);
                    assert(!typed_from(self.visited@, self.cursor as int));
                }
                return WalkDecision::Skip;
            },
        };
        let is_dir = kind == FileKind::Dir;
        let is_file = kind == FileKind::File;
        let name_matches = match self.mode {
            WorkspaceSearchMode::Content => false,
            _ => match strip_base(e.path.as_str(), self.base.as_str()) {
                Some(rel) => {
                    let lower = to_lowercase(rel.as_str());
                    crate::text::str_contains(lower.as_str(), self.needle.as_str())
                },
                None => false,
            },
        };
        let wants_content = match self.mode {
            WorkspaceSearchMode::Name => false,
            _ => true,
        };
        proof {
            lemma_typed_push(before, self.cursor as int, (e.path@, e.kind));
        }
        if wants_content && is_file && !name_matches {
            let size = match e.size {
                Some(s) => s,
                None => 0,
            };
            if size > MAX_WORKSPACE_SEARCH_FILE_BYTES {
                self.visited = Ghost(self.visited@.push((e.path@, e.kind)));
                self.record(e.path.as_str(), is_dir, false, 0);
                return WalkDecision::Handled;
            }
            if size > MAX_WORKSPACE_SEARCH_TOTAL_BYTES - self.scanned_bytes {
                self.budget_exhausted = true;
                return WalkDecision::Stop;
            }
            self.scanned_bytes = self.scanned_bytes + size;
            self.pending_dir = is_dir;
            self.visited = Ghost(self.visited@.push((e.path@, e.kind)));
            self.pending = Some(owned(e.path.as_str()));
            return WalkDecision::CountContent;
        }
        self.visited = Ghost(self.visited@.push((e.path@, e.kind)));
        self.record(e.path.as_str(), is_dir, name_matches, 0);
        WalkDecision::Handled
    }

    /// Records the counted content matches of the file that
    /// [`WorkspaceWalk::visit`] asked to count.
    pub fn record_content(&mut self, count: usize)
        requires
            old(self).wf(),
            old(self).pending_view() is Some,
        ensures
            final(self).wf(),
            final(self).base_view() == old(self).base_view(),
            final(self).root_view() == old(self).root_view(),
            final(self).needle_view() == old(self).needle_view(),
            final(self).mode_view() == old(self).mode_view(),
            final(self).cursor_view() == old(self).cursor_view(),
            final(self).index_view() == old(self).index_view(),
            final(self).scanned_view() == old(self).scanned_view() + 1,
            final(self).pending_view() is None,
            final(self).visited_view() == old(self).visited_view(),
            final(self).handled_view() == old(self).handled_view().push(old(self).pending_view()->0),
            count > 0 ==> match search_entry_name(old(self).base_view(), old(self).pending_view()->0) {
                Some(name) => final(self).entries_view().len() == old(self).entries_view().len() + 1
                    && final(self).entries_view().last().name@ == name
                    && final(self).entries_view().last().match_kind == Some(
                    WorkspaceSearchMatchKind::Content,
                ) && final(self).entries_view().last().content_match_count == Some(count),
                None => final(self).entries_view() == old(self).entries_view(),
            },
            count == 0 ==> final(self).entries_view() == old(self).entries_view(),
    {
        let is_dir = self.pending_dir;
        let path = match &self.pending {
            Some(p) => owned(p.as_str()),
            None => owned(""),
        };
        self.pending = None;
        self.record(path.as_str(), is_dir, false, count);
    }

    /// Whether the page stopped short of the end of the walk.
    pub open spec fn truncated_spec(&self) -> bool {
        self.exhausted_view() || self.scanned_view() >= MAX_WORKSPACE_SEARCH_SCANNED
            || self.entries_view().len() >= MAX_WORKSPACE_SEARCH_RESULTS
    }

    /// The page: its entries, how many paths it scanned, whether it stopped
    /// short, and then the cursor of the next page (which starts after the
    /// paths this one scanned).
    pub fn into_page(self, search: String, respect_gitignore: bool) -> (r: (
        Vec<WorkspaceEntry>,
        usize,
        bool,
        Option<WorkspaceSearchCursor>,
    ))
        requires
            self.wf(),
        ensures
            r.0@ == self.entries_view(),
            r.1 == self.scanned_view(),
            r.2 == self.truncated_spec(),
            r.2 ==> (r.3 matches Some(c) && c.index == sat_index(self.cursor_view() + self.scanned_view()) && c.query@
                == search@ && c.path@ == self.root_view() && c.mode == self.mode_view()
                && c.respect_gitignore == respect_gitignore),
            !r.2 ==> r.3 is None,
    {
        let truncated = self.budget_exhausted || self.scanned >= MAX_WORKSPACE_SEARCH_SCANNED
            || self.entries.len() >= MAX_WORKSPACE_SEARCH_RESULTS;
        let next = if truncated {
            Some(
                WorkspaceSearchCursor {
                    index: if self.cursor <= usize::MAX - self.scanned {
                        self.cursor + self.scanned
                    } else {
                        usize::MAX
                    },
                    query: search,
                    path: owned(self.root.as_str()),
                    mode: self.mode,
                    respect_gitignore,
                },
            )
        } else {
            None
        };
        (self.entries, self.scanned, truncated, next)
    }
}

proof fn lemma_typed_push(ps: Seq<(Seq<char>, Option<FileKind>)>, from: int, x: (Seq<char>, Option<FileKind>))
    requires
        0 <= from,
    ensures
        typed_from(ps, from) && x.1 is Some ==> typed_from(ps.push(x), from),
        !typed_from(ps, from) ==> !typed_from(ps.push(x), from),
{
    if typed_from(ps, from) && x.1 is Some {
        assert forall|i: int| from <= i < ps.push(x).len() implies (#[trigger] ps.push(x)[i]).1 is Some by {
            if i < ps.len() {
                assert(ps.push(x)[i] == ps[i]);
            }
        }
    }
    if !typed_from(ps, from) {
        let j = choose|j: int| from <= j < ps.len() && !((#[trigger] ps[j]).1 is Some);
        assert(ps.push(x)[j] == ps[j]);
    }
}

/// A page of the workspace search handles exactly the paths that follow its
/// cursor: once it got past its cursor, with no content count pending and
/// every path it visited from the cursor on having a file type, it visited
/// its cursor's worth of paths plus those it scanned, and the paths it
/// counted as scanned are, in order, the visited paths after the cursor.
pub proof fn law_page_handles_the_paths_after_its_cursor(w: WorkspaceWalk)
    requires
        w.wf(),
        w.pending_view() is None,
        w.index_view() == w.cursor_view(),
        typed_from(w.visited_view(), w.cursor_view() as int),
    ensures
        w.visited_view().len() == w.cursor_view() + w.scanned_view(),
        w.handled_view() == walked_paths(w.visited_view()).subrange(
            w.cursor_view() as int,
            (w.cursor_view() + w.scanned_view()) as int,
        ),
{
    let v = walked_paths(w.visited_view());
    assert(w.handled_view() =~= v.subrange(w.cursor_view() as int, (w.cursor_view() + w.scanned_view()) as int));
}

/// The continuation of a workspace search: two pages walk the same paths
/// `ps` (the walk's paths other than the search root, each with a file
/// type); the first stopped short, so it handed out a cursor carrying its
/// start plus what it scanned, and the second starts at that index. Then
/// the first page visited exactly the paths before that index (it stopped
/// at the path the second page handles first), the second page handles
/// the paths from that index on, and the two pages together handle the
/// paths from the first page's start in order, each once. A second page
/// that walked all of `ps` handles exactly the paths from that index to
/// the end.
pub proof fn law_next_page_continues_where_the_last_stopped(
    ps: Seq<(Seq<char>, Option<FileKind>)>,
    first: WorkspaceWalk,
    second: WorkspaceWalk,
)
    requires
        typed_from(ps, 0),
        first.wf(),
        second.wf(),
        first.pending_view() is None,
        second.pending_view() is None,
        first.visited_view().len() <= ps.len(),
        first.visited_view() == ps.take(first.visited_view().len() as int),
        second.visited_view().len() <= ps.len(),
        second.visited_view() == ps.take(second.visited_view().len() as int),
        first.truncated_spec(),
        second.cursor_view() == first.cursor_view() + first.scanned_view(),
    ensures
        first.visited_view().len() == second.cursor_view(),
        second.index_view() == second.cursor_view() ==> second.handled_view() == walked_paths(ps).subrange(
            second.cursor_view() as int,
            (second.cursor_view() + second.scanned_view()) as int,
        ),
        second.index_view() == second.cursor_view() ==> first.handled_view() + second.handled_view()
            == walked_paths(ps).subrange(
            first.cursor_view() as int,
            (second.cursor_view() + second.scanned_view()) as int,
        ),
        second.visited_view() == ps ==> second.handled_view() == walked_paths(ps).skip(second.cursor_view() as int),
{
    let k = second.cursor_view() as int;
    let c = first.cursor_view() as int;
    assert(typed_from(first.visited_view(), c)) by {
        assert forall|i: int| c <= i < first.visited_view().len() implies (#[trigger] first.visited_view()[i]).1 is Some by {
            assert(first.visited_view()[i] == ps[i]);
        }
    }
    law_page_handles_the_paths_after_its_cursor(first);
    let wp = walked_paths(ps);
    assert(walked_paths(first.visited_view()) =~= wp.take(k));
    if second.visited_view() == ps {
        if second.index_view() < second.cursor_view() {
            assert(second.visited_view().len() == second.index_view());
            assert(false);
        }
    }
    if second.index_view() == second.cursor_view() {
        assert(typed_from(second.visited_view(), k)) by {
            assert forall|i: int| k <= i < second.visited_view().len() implies (#[trigger] second.visited_view()[i]).1 is Some by {
                assert(second.visited_view()[i] == ps[i]);
            }
        }
        law_page_handles_the_paths_after_its_cursor(second);
        let m = second.visited_view().len() as int;
        assert(walked_paths(second.visited_view()) =~= wp.take(m));
        assert(second.handled_view() =~= wp.subrange(k, k + second.scanned_view()));
        assert(first.handled_view() =~= wp.subrange(c, k));
        assert(first.handled_view() + second.handled_view() =~= wp.subrange(c, k + second.scanned_view()));
        if second.visited_view() == ps {
            assert(second.handled_view() =~= wp.skip(k));
        }
    }
}

} // verus!
