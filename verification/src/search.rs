//! Project-search predicates and the per-search resource budget.
//!
//! A search walks one or more roots, checks each candidate name (and, when
//! asked, file content) against a [`SearchQuery`], and draws every emitted hit
//! from a shared [`Budget`]. The budget also records why a search stopped early
//! ([`SearchLimitReason`]) and how much work it did ([`SearchProgress`]).
use vstd::prelude::*;

use crate::text::{chars_of, contains_chars, lowercase, seq_contains, to_lowercase};

verus! {

/// Total file-content bytes one interactive search page may read across all
/// roots. Individual providers may impose a lower per-file ceiling.
pub const DEFAULT_CONTENT_SEARCH_BYTES: u64 = 134217728;

/// How the cheap filename predicate matches a candidate name against the query.
#[derive(Debug, Clone, Copy, PartialEq, Eq, Structural)]
pub enum MatchMode {
    /// Case-insensitive substring: the query appears contiguously in the name.
    Substring,
    /// Case-insensitive subsequence: the query's characters appear in order, gaps allowed.
    Subsequence,
}

/// Which parts of a file participate in a project search.
#[derive(Debug, Clone, Copy, PartialEq, Eq, Structural)]
pub enum SearchMode {
    All,
    Name,
    Content,
}

impl Default for SearchMode {
    fn default() -> (m: Self)
        ensures
            m == SearchMode::Name,
    {
        SearchMode::Name
    }
}

/// Why one file matched the query.
#[derive(Debug, Clone, Copy, PartialEq, Eq, Structural)]
pub enum SearchMatchKind {
    Name,
    Content,
    Both,
}

/// A safety bound that made a search incomplete, or caused eligible files to be
/// skipped. Reasons are ordered as declared.
#[derive(Debug, Clone, Copy, PartialEq, Eq, PartialOrd, Ord, Structural)]
pub enum SearchLimitReason {
    ResultLimit,
    ScanLimit,
    ContentByteLimit,
    FileSizeLimit,
}

/// Metadata collected during one search page. It holds no paths or query text.
#[derive(Debug, Clone, Copy, PartialEq, Eq, Structural)]
pub struct SearchProgress {
    pub scanned_files: usize,
    pub searched_content_bytes: u64,
    pub skipped_large_files: usize,
}

/// The outcome of searching one root. `next_after` is an opaque continuation
/// token when the page stopped early; `None` means the root was exhausted.
#[derive(Debug, Clone, PartialEq, Eq)]
pub struct SearchWalkResult {
    pub next_after: Option<String>,
}

impl SearchWalkResult {
    /// The exhausted-root result (`next_after == None`).
    pub fn exhausted() -> (r: Self)
        ensures
            r.next_after is None,
    {
        SearchWalkResult { next_after: None }
    }
}

// ---------------------------------------------------------------------------
// Name matching
// ---------------------------------------------------------------------------

/// Whether the characters of `needle` appear in `hay` in order, gaps allowed.
pub open spec fn is_subseq(needle: Seq<char>, hay: Seq<char>) -> bool
    decreases hay.len(),
{
    if needle.len() == 0 {
        true
    } else if hay.len() == 0 {
        false
    } else if needle[0] == hay[0] {
        is_subseq(needle.drop_first(), hay.drop_first())
    } else {
        is_subseq(needle, hay.drop_first())
    }
}

/// Whether a name matches an (already lower-cased) needle under `mode`. An
/// empty needle matches every name.
pub open spec fn needle_matches(needle: Seq<char>, mode: MatchMode, name: Seq<char>) -> bool {
    needle.len() == 0 || match mode {
        MatchMode::Substring => seq_contains(lowercase(name), needle),
        MatchMode::Subsequence => is_subseq(needle, lowercase(name)),
    }
}

/// An empty query matches every name, in either matching mode (browse
/// mode).
pub proof fn law_empty_query_matches_every_name(needle: Seq<char>, mode: MatchMode, name: Seq<char>)
    requires
        needle.len() == 0,
    ensures
        needle_matches(needle, mode, name),
{
}

/// Whether every character of `needle` appears in `hay` in order (both
/// already lower-cased).
pub fn is_subsequence(needle: &str, hay: &str) -> (r: bool)
    ensures
        r == is_subseq(needle@, hay@),
{
    let n = chars_of(needle);
    let h = chars_of(hay);
    is_subsequence_chars(&n, &h)
}

fn is_subsequence_chars(n: &Vec<char>, h: &Vec<char>) -> (r: bool)
    ensures
        r == is_subseq(n@, h@),
{
    let mut k: usize = 0;
    let mut i: usize = 0;
    assert(n@.skip(0) == n@);
    assert(h@.skip(0) == h@);
    while i < h.len()
        invariant
            k <= n.len(),
            i <= h.len(),
            is_subseq(n@, h@) == is_subseq(n@.skip(k as int), h@.skip(i as int)),
        decreases h.len() - i,
    {
        if k == n.len() {
            assert(n@.skip(k as int).len() == 0);
            return true;
        }
        let ghost ns = n@.skip(k as int);
        let ghost hs = h@.skip(i as int);
        assert(ns[0] == n@[k as int]);
        assert(hs[0] == h@[i as int]);
        assert(ns.drop_first() == n@.skip(k + 1));
        assert(hs.drop_first() == h@.skip(i + 1));
        if n[k] == h[i] {
            k += 1;
        }
        i += 1;
    }
    assert(h@.skip(i as int).len() == 0);
    k == n.len()
}

/// A precompiled, case-insensitive filename predicate. An empty query
/// matches every file (browse mode).
#[derive(Debug, Clone)]
pub struct NameMatcher {
    needle: String,
    mode: MatchMode,
}

impl NameMatcher {
    /// The lower-cased needle.
    pub closed spec fn needle_view(&self) -> Seq<char> {
        self.needle@
    }

    /// The matching mode.
    pub closed spec fn mode_view(&self) -> MatchMode {
        self.mode
    }

    /// Compile a matcher from the raw query and mode.
    pub fn new(query: &str, mode: MatchMode) -> (m: Self)
        ensures
            m.needle_view() == lowercase(query@),
            m.needle_view().len() == 0 <==> query@.len() == 0,
            m.mode_view() == mode,
    {
        NameMatcher { needle: to_lowercase(query), mode }
    }

    /// Whether `name` matches. An empty query always matches.
    pub fn matches(&self, name: &str) -> (r: bool)
        ensures
            r == needle_matches(self.needle_view(), self.mode_view(), name@),
    {
        let needle = chars_of(self.needle.as_str());
        if needle.len() == 0 {
            return true;
        }
        let hay = to_lowercase(name);
        let h = chars_of(hay.as_str());
        match self.mode {
            MatchMode::Substring => contains_chars(&h, &needle),
            MatchMode::Subsequence => is_subsequence_chars(&needle, &h),
        }
    }
}

// ---------------------------------------------------------------------------
// Search query
// ---------------------------------------------------------------------------

/// Whether `mode` searches names.
pub open spec fn mode_searches_name(mode: SearchMode) -> bool {
    mode == SearchMode::All || mode == SearchMode::Name
}

/// Whether `mode` searches content (given a non-empty needle).
pub open spec fn mode_searches_content(mode: SearchMode) -> bool {
    mode == SearchMode::All || mode == SearchMode::Content
}

/// A precompiled project-search predicate shared by every root walk.
#[derive(Debug, Clone)]
pub struct SearchQuery {
    needle: String,
    name_matcher: NameMatcher,
    mode: SearchMode,
}

impl SearchQuery {
    /// The lower-cased query text.
    pub closed spec fn needle_view(&self) -> Seq<char> {
        self.needle@
    }

    /// Which parts of a file are searched.
    pub closed spec fn mode_view(&self) -> SearchMode {
        self.mode
    }

    /// How names are matched.
    pub closed spec fn match_mode_view(&self) -> MatchMode {
        self.name_matcher.mode_view()
    }

    /// The query's own consistency: the name matcher holds the same needle.
    pub closed spec fn wf(&self) -> bool {
        self.name_matcher.needle_view() == self.needle@
    }

    /// Whether this query searches file names.
    pub open spec fn spec_searches_name(&self) -> bool {
        mode_searches_name(self.mode_view())
    }

    /// Whether this query searches file content.
    pub open spec fn spec_searches_content(&self) -> bool {
        self.needle_view().len() > 0 && mode_searches_content(self.mode_view())
    }

    /// Whether `name` is a name hit for this query.
    pub open spec fn spec_matches_name(&self, name: Seq<char>) -> bool {
        self.spec_searches_name() && needle_matches(self.needle_view(), self.match_mode_view(), name)
    }

    pub fn new(query: &str, mode: SearchMode, match_mode: MatchMode) -> (q: Self)
        ensures
            q.wf(),
            q.needle_view() == lowercase(query@),
            q.needle_view().len() == 0 <==> query@.len() == 0,
            q.mode_view() == mode,
            q.match_mode_view() == match_mode,
    {
        SearchQuery { needle: to_lowercase(query), name_matcher: NameMatcher::new(query, match_mode), mode }
    }

    pub fn searches_name(&self) -> (r: bool)
        ensures
            r == self.spec_searches_name(),
    {
        match self.mode {
            SearchMode::All | SearchMode::Name => true,
            SearchMode::Content => false,
        }
    }

    pub fn searches_content(&self) -> (r: bool)
        ensures
            r == self.spec_searches_content(),
    {
        let n = chars_of(self.needle.as_str());
        n.len() > 0 && match self.mode {
            SearchMode::All | SearchMode::Content => true,
            SearchMode::Name => false,
        }
    }

    pub fn matches_name(&self, name: &str) -> (r: bool)
        requires
            self.wf(),
        ensures
            r == self.spec_matches_name(name@),
    {
        self.searches_name() && self.name_matcher.matches(name)
    }

    pub fn needle(&self) -> (r: &str)
        ensures
            r@ == self.needle_view(),
    {
        self.needle.as_str()
    }

    pub fn mode(&self) -> (r: SearchMode)
        ensures
            r == self.mode_view(),
    {
        self.mode
    }
}

// ---------------------------------------------------------------------------
// Budget
// ---------------------------------------------------------------------------

/// `a + b`, wrapping around at `u64::MAX + 1` as an atomic `fetch_add` does.
pub open spec fn wrap_u64(a: int, b: int) -> int {
    if a + b > u64::MAX {
        a + b - (u64::MAX + 1)
    } else {
        a + b
    }
}

/// `a + b`, wrapping around at `usize::MAX + 1`.
pub open spec fn wrap_usize(a: int, b: int) -> int {
    if a + b > usize::MAX {
        a + b - (usize::MAX + 1)
    } else {
        a + b
    }
}

/// The limit reasons in their declared order.
pub open spec fn reason_order() -> Seq<SearchLimitReason> {
    seq![
        SearchLimitReason::ResultLimit,
        SearchLimitReason::ScanLimit,
        SearchLimitReason::ContentByteLimit,
        SearchLimitReason::FileSizeLimit,
    ]
}

/// The members of `set`, in the declared order of the reasons.
pub open spec fn ordered_reasons(set: Set<SearchLimitReason>) -> Seq<SearchLimitReason> {
    reason_order().filter(|r: SearchLimitReason| set.contains(r))
}

/// Whether the searched and the still allowed content bytes add up to at
/// most `u64::MAX` (every budget keeps this).
pub open spec fn content_bytes_fit(b: BudgetView) -> bool {
    b.searched_content_bytes + b.remaining_content_bytes <= u64::MAX
}

/// One [`Budget::try_take`]: a slot is taken while one is left; otherwise
/// the result limit is recorded.
pub open spec fn take_step(b: BudgetView) -> (BudgetView, bool) {
    if b.remaining > 0 {
        (BudgetView { remaining: (b.remaining - 1) as nat, ..b }, true)
    } else {
        (BudgetView { hit_cap: true, reasons: b.reasons.insert(SearchLimitReason::ResultLimit), ..b }, false)
    }
}

/// `k` calls of [`Budget::try_take`] in a row: the budget after them, and
/// what each call returned.
pub open spec fn take_run(b: BudgetView, k: nat) -> (BudgetView, Seq<bool>)
    decreases k,
{
    if k == 0 {
        (b, Seq::empty())
    } else {
        let first = take_step(b);
        let rest = take_run(first.0, (k - 1) as nat);
        (rest.0, seq![first.1] + rest.1)
    }
}

/// One [`Budget::try_take_content_bytes`] of `bytes`: reserved while they
/// fit in what is left, and counted as searched; otherwise the
/// content-byte limit is recorded.
pub open spec fn content_step(b: BudgetView, bytes: u64) -> (BudgetView, bool) {
    if bytes <= b.remaining_content_bytes {
        (
            BudgetView {
                remaining_content_bytes: (b.remaining_content_bytes - bytes) as nat,
                searched_content_bytes: wrap_u64(b.searched_content_bytes as int, bytes as int) as nat,
                ..b
            },
            true,
        )
    } else {
        (
            BudgetView {
                hit_cap: true,
                reasons: b.reasons.insert(SearchLimitReason::ContentByteLimit),
                ..b
            },
            false,
        )
    }
}

/// Reservations of `sizes` in a row: the budget after them, and what each
/// returned.
pub open spec fn content_run(b: BudgetView, sizes: Seq<u64>) -> (BudgetView, Seq<bool>)
    decreases sizes.len(),
{
    if sizes.len() == 0 {
        (b, Seq::empty())
    } else {
        let first = content_step(b, sizes[0]);
        let rest = content_run(first.0, sizes.drop_first());
        (rest.0, seq![first.1] + rest.1)
    }
}

/// Of a run of `k` slot requests on a budget with `b.remaining` slots,
/// exactly the first `b.remaining` succeed; the slots run out and the
/// result limit is recorded once a request fails.
pub proof fn law_exactly_the_first_slots_succeed(b: BudgetView, k: nat)
    ensures
        take_run(b, k).1.len() == k,
        forall|i: int| 0 <= i < k ==> #[trigger] take_run(b, k).1[i] == (i < b.remaining),
        take_run(b, k).0.remaining == if k <= b.remaining {
            (b.remaining - k) as nat
        } else {
            0nat
        },
        k > b.remaining ==> take_run(b, k).0.reasons.contains(SearchLimitReason::ResultLimit),
        take_run(b, k).0.remaining_content_bytes == b.remaining_content_bytes,
        take_run(b, k).0.searched_content_bytes == b.searched_content_bytes,
    decreases k,
{
    if k > 0 {
        let first = take_step(b);
        law_exactly_the_first_slots_succeed(first.0, (k - 1) as nat);
        let rest = take_run(first.0, (k - 1) as nat);
        assert forall|i: int| 0 <= i < k implies #[trigger] take_run(b, k).1[i] == (i < b.remaining) by {
            if i > 0 {
                assert(take_run(b, k).1[i] == rest.1[i - 1]);
            }
        }
        if k - 1 > first.0.remaining && b.remaining == 0 {
        }
    }
}

/// Content-byte reservations move bytes from what is allowed to what was
/// searched, one for one: a request succeeds exactly when it fits in what
/// is left at that point, and the sum of the two counters never changes.
pub proof fn law_content_reservations_are_conserved(b: BudgetView, sizes: Seq<u64>)
    requires
        content_bytes_fit(b),
    ensures
        content_bytes_fit(content_run(b, sizes).0),
        content_run(b, sizes).0.searched_content_bytes + content_run(b, sizes).0.remaining_content_bytes
            == b.searched_content_bytes + b.remaining_content_bytes,
        content_run(b, sizes).0.remaining == b.remaining,
        content_run(b, sizes).1.len() == sizes.len(),
        sizes.len() > 0 ==> content_run(b, sizes).1[0] == (sizes[0] <= b.remaining_content_bytes),
    decreases sizes.len(),
{
    if sizes.len() > 0 {
        law_content_reservations_are_conserved(content_step(b, sizes[0]).0, sizes.drop_first());
    }
}

/// The abstract state of a [`Budget`].
pub struct BudgetView {
    /// Remaining emit slots.
    pub remaining: nat,
    /// Whether some walk was stopped by a limit.
    pub hit_cap: bool,
    /// Remaining content bytes that may still be read.
    pub remaining_content_bytes: nat,
    pub scanned_files: nat,
    pub searched_content_bytes: nat,
    pub skipped_large_files: nat,
    /// The limit reasons recorded so far.
    pub reasons: Set<SearchLimitReason>,
}

/// The hit and content-byte budget of one search, with the reasons that made
/// it incomplete. Methods take `&mut self`: one budget value is threaded
/// through every root walk of a search.
#[derive(Debug)]
pub struct Budget {
    remaining: usize,
    hit_cap: bool,
    remaining_content_bytes: u64,
    scanned_files: usize,
    searched_content_bytes: u64,
    skipped_large_files: usize,
    result_limit: bool,
    scan_limit: bool,
    content_byte_limit: bool,
    file_size_limit: bool,
}

impl View for Budget {
    type V = BudgetView;

    closed spec fn view(&self) -> BudgetView {
        BudgetView {
            remaining: self.remaining as nat,
            hit_cap: self.hit_cap,
            remaining_content_bytes: self.remaining_content_bytes as nat,
            scanned_files: self.scanned_files as nat,
            searched_content_bytes: self.searched_content_bytes as nat,
            skipped_large_files: self.skipped_large_files as nat,
            reasons: Set::new(
                |r: SearchLimitReason|
                    match r {
                        SearchLimitReason::ResultLimit => self.result_limit,
                        SearchLimitReason::ScanLimit => self.scan_limit,
                        SearchLimitReason::ContentByteLimit => self.content_byte_limit,
                        SearchLimitReason::FileSizeLimit => self.file_size_limit,
                    },
            ),
        }
    }
}

impl Default for Budget {
    fn default() -> (b: Self)
        ensures
            b@.remaining == 0,
            !b@.hit_cap,
            b@.remaining_content_bytes == 0,
            b@.scanned_files == 0,
            b@.searched_content_bytes == 0,
            b@.skipped_large_files == 0,
            b@.reasons == Set::<SearchLimitReason>::empty(),
    {
        let b = Budget {
            remaining: 0,
            hit_cap: false,
            remaining_content_bytes: 0,
            scanned_files: 0,
            searched_content_bytes: 0,
            skipped_large_files: 0,
            result_limit: false,
            scan_limit: false,
            content_byte_limit: false,
            file_size_limit: false,
        };
        assert(b@.reasons =~= Set::<SearchLimitReason>::empty());
        b
    }
}

impl Budget {
    /// The bytes searched and the bytes still allowed never add up to more
    /// than a `u64` holds.
    #[verifier::type_invariant]
    spec fn counters_fit(self) -> bool {
        self.searched_content_bytes as int + self.remaining_content_bytes as int <= u64::MAX
    }

    /// A budget allowing at most `limit` total hits, with no content-byte bound.
    pub fn new(limit: usize) -> (b: Self)
        ensures
            b@.remaining == limit,
            !b@.hit_cap,
            b@.remaining_content_bytes == u64::MAX,
            b@.scanned_files == 0,
            b@.searched_content_bytes == 0,
            b@.skipped_large_files == 0,
            b@.reasons == Set::<SearchLimitReason>::empty(),
    {
        let b = Budget {
            remaining: limit,
            hit_cap: false,
            remaining_content_bytes: u64::MAX,
            scanned_files: 0,
            searched_content_bytes: 0,
            skipped_large_files: 0,
            result_limit: false,
            scan_limit: false,
            content_byte_limit: false,
            file_size_limit: false,
        };
        assert(b@.reasons =~= Set::<SearchLimitReason>::empty());
        b
    }

    /// A hit budget with a shared upper bound on bytes read for content search.
    pub fn with_content_byte_limit(limit: usize, content_bytes: u64) -> (b: Self)
        ensures
            b@ == (BudgetView { remaining_content_bytes: content_bytes as nat, ..Budget::new_view(limit) }),
    {
        let mut b = Self::new(limit);
        b.remaining_content_bytes = content_bytes;
        b
    }

    /// The state [`Budget::new`] produces.
    pub open spec fn new_view(limit: usize) -> BudgetView {
        BudgetView {
            remaining: limit as nat,
            hit_cap: false,
            remaining_content_bytes: u64::MAX as nat,
            scanned_files: 0,
            searched_content_bytes: 0,
            skipped_large_files: 0,
            reasons: Set::empty(),
        }
    }

    /// Reserve one emit slot. Returns `true` when a slot was taken; otherwise
    /// records that the result cap forced a stop.
    pub fn try_take(&mut self) -> (taken: bool)
        ensures
            (final(self)@, taken) == take_step(old(self)@),
            taken == (old(self)@.remaining > 0),
            taken ==> final(self)@ == (BudgetView {
                remaining: (old(self)@.remaining - 1) as nat,
                ..old(self)@
            }),
            !taken ==> final(self)@ == (BudgetView {
                hit_cap: true,
                reasons: old(self)@.reasons.insert(SearchLimitReason::ResultLimit),
                ..old(self)@
            }),
    {
        proof {
            use_type_invariant(&*self);
        }
        if self.remaining > 0 {
            self.remaining = self.remaining - 1;
            true
        } else {
            self.mark_limit_reached(SearchLimitReason::ResultLimit);
            false
        }
    }

    /// Whether some walk was forced to stop because a cap was reached: the
    /// result cap, the scan cap or the content-byte cap. A file skipped for
    /// its size does not stop a walk, so that reason alone does not count.
    pub fn limit_reached(&self) -> (r: bool)
        ensures
            r == (self@.reasons.contains(SearchLimitReason::ResultLimit) || self@.reasons.contains(
                SearchLimitReason::ScanLimit,
            ) || self@.reasons.contains(SearchLimitReason::ContentByteLimit)),
    {
        self.result_limit || self.scan_limit || self.content_byte_limit
    }

    /// Record a named safety bound. Reasons accumulate.
    pub fn mark_limit_reached(&mut self, reason: SearchLimitReason)
        ensures
            final(self)@ == (BudgetView {
                hit_cap: true,
                reasons: old(self)@.reasons.insert(reason),
                ..old(self)@
            }),
    {
        proof {
            use_type_invariant(&*self);
        }
        self.hit_cap = true;
        match reason {
            SearchLimitReason::ResultLimit => self.result_limit = true,
            SearchLimitReason::ScanLimit => self.scan_limit = true,
            SearchLimitReason::ContentByteLimit => self.content_byte_limit = true,
            SearchLimitReason::FileSizeLimit => self.file_size_limit = true,
        }
        assert(final(self)@.reasons =~= old(self)@.reasons.insert(reason));
    }

    /// Reserve `bytes` before reading one content file. A failed reservation
    /// records the content-byte limit and leaves the byte counters unchanged.
    pub fn try_take_content_bytes(&mut self, bytes: u64) -> (taken: bool)
        ensures
            content_bytes_fit(old(self)@),
            content_bytes_fit(final(self)@),
            (final(self)@, taken) == content_step(old(self)@, bytes),
            taken == (bytes <= old(self)@.remaining_content_bytes),
            taken ==> final(self)@ == (BudgetView {
                remaining_content_bytes: (old(self)@.remaining_content_bytes - bytes) as nat,
                searched_content_bytes: wrap_u64(
                    old(self)@.searched_content_bytes as int,
                    bytes as int,
                ) as nat,
                ..old(self)@
            }),
            !taken ==> final(self)@ == (BudgetView {
                hit_cap: true,
                reasons: old(self)@.reasons.insert(SearchLimitReason::ContentByteLimit),
                ..old(self)@
            }),
    {
        proof {
            use_type_invariant(&*self);
        }
        if bytes <= self.remaining_content_bytes {
            self.remaining_content_bytes = self.remaining_content_bytes - bytes;
            self.searched_content_bytes = self.searched_content_bytes.wrapping_add(bytes);
            true
        } else {
            self.mark_limit_reached(SearchLimitReason::ContentByteLimit);
            false
        }
    }

    /// Count one scanned file.
    pub fn record_scanned_file(&mut self)
        ensures
            final(self)@ == (BudgetView {
                scanned_files: wrap_usize(old(self)@.scanned_files as int, 1) as nat,
                ..old(self)@
            }),
    {
        proof {
            use_type_invariant(&*self);
        }
        self.scanned_files = self.scanned_files.wrapping_add(1);
    }

    /// Count one file skipped for its size, and record the file-size limit.
    pub fn record_skipped_large_file(&mut self)
        ensures
            final(self)@ == (BudgetView {
                skipped_large_files: wrap_usize(old(self)@.skipped_large_files as int, 1) as nat,
                hit_cap: true,
                reasons: old(self)@.reasons.insert(SearchLimitReason::FileSizeLimit),
                ..old(self)@
            }),
    {
        proof {
            use_type_invariant(&*self);
        }
        self.skipped_large_files = self.skipped_large_files.wrapping_add(1);
        self.mark_limit_reached(SearchLimitReason::FileSizeLimit);
    }

    /// The work counters so far.
    pub fn progress(&self) -> (p: SearchProgress)
        ensures
            p.scanned_files == self@.scanned_files,
            p.searched_content_bytes == self@.searched_content_bytes,
            p.skipped_large_files == self@.skipped_large_files,
    {
        SearchProgress {
            scanned_files: self.scanned_files,
            searched_content_bytes: self.searched_content_bytes,
            skipped_large_files: self.skipped_large_files,
        }
    }

    /// The recorded limit reasons, each once, in their declared order.
    pub fn limit_reasons(&self) -> (r: Vec<SearchLimitReason>)
        ensures
            r@ == ordered_reasons(self@.reasons),
    {
        let mut r: Vec<SearchLimitReason> = Vec::new();
        if self.result_limit {
            r.push(SearchLimitReason::ResultLimit);
        }
        if self.scan_limit {
            r.push(SearchLimitReason::ScanLimit);
        }
        if self.content_byte_limit {
            r.push(SearchLimitReason::ContentByteLimit);
        }
        if self.file_size_limit {
            r.push(SearchLimitReason::FileSizeLimit);
        }
        proof {
            let set = self@.reasons;
            let order = reason_order();
            reveal_with_fuel(Seq::filter, 5);
            assert(order.drop_last().drop_last().drop_last().drop_last() =~= Seq::<
                SearchLimitReason,
            >::empty());
            assert(r@ =~= order.filter(|x: SearchLimitReason| set.contains(x)));
        }
        r
    }
}

// ---------------------------------------------------------------------------
// Cancellation
// ---------------------------------------------------------------------------

/// Cooperative cancel signal checked by every per-root walk of a search.
#[derive(Debug, Default)]
pub struct CancellationToken {
    cancelled: bool,
}

impl View for CancellationToken {
    type V = bool;

    closed spec fn view(&self) -> bool {
        self.cancelled
    }
}

impl CancellationToken {
    /// A fresh, un-cancelled token.
    pub fn new() -> (t: Self)
        ensures
            !t@,
    {
        CancellationToken { cancelled: false }
    }

    /// Request cancellation. Idempotent.
    pub fn cancel(&mut self)
        ensures
            final(self)@,
    {
        self.cancelled = true;
    }

    /// Whether cancellation has been requested.
    pub fn is_cancelled(&self) -> (r: bool)
        ensures
            r == self@,
    {
        self.cancelled
    }
}

// ---------------------------------------------------------------------------
// Hits
// ---------------------------------------------------------------------------

/// One matching entry within a root: its root-relative path (forward slashes,
/// no leading slash) and name.
#[derive(Debug, Clone, PartialEq, Eq)]
pub struct ProviderSearchHit {
    pub relative_path: String,
    pub name: String,
    pub is_directory: bool,
    pub match_kind: SearchMatchKind,
    pub content_match_count: Option<usize>,
    pub content_preview: Option<String>,
}

/// Hit outlet: a walk emits each matching entry through it.
pub trait SearchSink {
    /// Emit one matching file within the current root.
    fn emit(&self, hit: ProviderSearchHit);
}

} // verus!
