//! Paged project search over a local directory tree.
//!
//! The first page of a search enumerates a bounded, stably ordered catalog of
//! root-relative paths; every page then walks that catalog from where the
//! previous page stopped. Catalogs of unfinished searches are kept in a
//! small store of sessions, keyed by an opaque continuation token and
//! dropped after [`SEARCH_SESSION_TTL_MS`].
use vstd::prelude::*;
use vstd::utf8::{decode_utf8, valid_utf8};

use crate::content::{content_match, content_match_spec, is_binary, looks_binary, utf8_string};
use crate::paths::{file_name, file_name_spec};
use crate::search::{
    Budget, BudgetView, CancellationToken, ProviderSearchHit, SearchLimitReason, SearchMatchKind,
    SearchMode, SearchQuery, SearchSink, SearchWalkResult,
};
use crate::text::{chars_of, lowercase, owned, push_str, str_eq};

verus! {

/// Most sessions kept for continuation at once.
pub const MAX_SEARCH_SESSIONS: usize = 4;

/// How long an idle session stays available, in milliseconds.
pub const SEARCH_SESSION_TTL_MS: u64 = 120000;

/// Largest file whose content is searched.
pub const MAX_SEARCH_FILE_BYTES: u64 = 4194304;

/// Most files one catalog lists before it is marked truncated.
pub const MAX_SEARCH_SCANNED_FILES: usize = 100000;

/// Most bytes of relative paths one catalog holds.
pub const MAX_SEARCH_CATALOG_BYTES: usize = 16777216;

/// Failures of filesystem operations, by the URI they concern.
#[derive(Debug, Clone, PartialEq, Eq)]
pub enum FsError {
    NotFound { uri: String },
    PermissionDenied { uri: String },
    AlreadyExists { uri: String },
    NotADirectory { uri: String },
    Io { uri: String, message: String },
}

/// The kinds of I/O failure the provider distinguishes.
#[derive(Debug, Clone, Copy, PartialEq, Eq, Structural)]
pub enum IoErrorKind {
    NotFound,
    PermissionDenied,
    AlreadyExists,
    NotADirectory,
    Other,
}

/// Maps an I/O failure on `uri` (its kind and message) to the provider's
/// error taxonomy.
pub fn map_io(uri: &str, kind: IoErrorKind, message: &str) -> (e: FsError)
    ensures
        match kind {
            IoErrorKind::NotFound => e matches FsError::NotFound { uri: u } && u@ == uri@,
            IoErrorKind::PermissionDenied => e matches FsError::PermissionDenied { uri: u } && u@
                == uri@,
            IoErrorKind::AlreadyExists => e matches FsError::AlreadyExists { uri: u } && u@ == uri@,
            IoErrorKind::NotADirectory => e matches FsError::NotADirectory { uri: u } && u@ == uri@,
            IoErrorKind::Other => e matches FsError::Io { uri: u, message: m } && u@ == uri@ && m@
                == message@,
        },
{
    match kind {
        IoErrorKind::NotFound => FsError::NotFound { uri: owned(uri) },
        IoErrorKind::PermissionDenied => FsError::PermissionDenied { uri: owned(uri) },
        IoErrorKind::AlreadyExists => FsError::AlreadyExists { uri: owned(uri) },
        IoErrorKind::NotADirectory => FsError::NotADirectory { uri: owned(uri) },
        IoErrorKind::Other => FsError::Io { uri: owned(uri), message: owned(message) },
    }
}

/// One catalog entry: a root-relative path and whether it is a directory.
#[derive(Debug, Clone)]
pub struct SearchEntry {
    pub relative_path: String,
    pub is_directory: bool,
}

/// The state of one paged search.
#[derive(Debug)]
pub struct SearchSession {
    pub root: String,
    pub entries: Vec<SearchEntry>,
    pub next_index: usize,
    pub query: String,
    pub mode: SearchMode,
    pub truncated: bool,
    pub updated_at_ms: u64,
}

/// Whether a session last used at `updated` is still alive at `now`.
pub open spec fn is_fresh(updated: u64, now: u64) -> bool {
    (if now >= updated {
        now - updated
    } else {
        0
    }) <= SEARCH_SESSION_TTL_MS
}

/// The continuation sessions, each under a distinct token.
#[derive(Debug)]
pub struct SearchSessionStore {
    sessions: Vec<(String, SearchSession)>,
}

/// Whether the tokens of `s` are pairwise distinct.
pub open spec fn distinct_tokens(s: Seq<(String, SearchSession)>) -> bool {
    forall|i: int, j: int| 0 <= i < j < s.len() ==> #[trigger] s[i].0@ != #[trigger] s[j].0@
}

/// Whether some session in `s` is under `token`.
pub open spec fn has_token(s: Seq<(String, SearchSession)>, token: Seq<char>) -> bool {
    exists|i: int| 0 <= i < s.len() && #[trigger] s[i].0@ == token
}

/// The sessions of `s` still alive at `now`.
pub open spec fn live_sessions(s: Seq<(String, SearchSession)>, now: u64) -> Seq<(String, SearchSession)> {
    s.filter(|e: (String, SearchSession)| is_fresh(e.1.updated_at_ms, now))
}

/// What a take of `token` from the live sessions `live`, for a search of
/// `needle` in `mode` under `root`, returns and leaves behind (`after`).
pub open spec fn take_outcome(
    live: Seq<(String, SearchSession)>,
    token: Seq<char>,
    root: Seq<char>,
    needle: Seq<char>,
    mode: SearchMode,
    r: Result<SearchSession, FsError>,
    after: Seq<(String, SearchSession)>,
) -> bool {
    match r {
        Ok(s) => exists|i: int|
            0 <= i < live.len() && live[i].0@ == token && live[i].1 == s && after == live.remove(i)
                && s.root@ == root && s.query@ == needle && s.mode == mode,
        Err(e) => e matches FsError::Io { uri: u, message: m } && u@ == root && (if has_token(live, token) {
            m@ == CONTINUATION_MISMATCH@ && exists|i: int|
                0 <= i < live.len() && live[i].0@ == token && after == live.remove(i) && !(live[i].1.root@
                    == root && live[i].1.query@ == needle && live[i].1.mode == mode)
        } else {
            m@ == CONTINUATION_EXPIRED@ && after == live
        }),
    }
}

/// The live sessions of a store with distinct tokens have distinct tokens.
proof fn lemma_live_distinct(s: Seq<(String, SearchSession)>, now: u64)
    requires
        distinct_tokens(s),
    ensures
        distinct_tokens(live_sessions(s, now)),
{
    let p = |e: (String, SearchSession)| is_fresh(e.1.updated_at_ms, now);
    let l = live_sessions(s, now);
    assert forall|a: int, b: int| 0 <= a < b < l.len() implies #[trigger] l[a].0@ != #[trigger] l[b].0@ by {
        crate::preview::lemma_filter_keeps_order(s, p, a, b);
    }
}

/// A session that is in the store and still alive is handed back by a take
/// of its token for the search it was made for, and leaves the store.
pub proof fn law_stored_session_is_taken_back(
    entries: Seq<(String, SearchSession)>,
    token: Seq<char>,
    session: SearchSession,
    now: u64,
    r: Result<SearchSession, FsError>,
    after: Seq<(String, SearchSession)>,
)
    requires
        distinct_tokens(entries),
        exists|i: int| 0 <= i < entries.len() && #[trigger] entries[i].0@ == token && entries[i].1 == session,
        is_fresh(session.updated_at_ms, now),
        take_outcome(
            live_sessions(entries, now),
            token,
            session.root@,
            session.query@,
            session.mode,
            r,
            after,
        ),
    ensures
        r == Ok::<SearchSession, FsError>(session),
        after.len() + 1 == live_sessions(entries, now).len(),
{
    let p = |e: (String, SearchSession)| is_fresh(e.1.updated_at_ms, now);
    let live = live_sessions(entries, now);
    let i = choose|i: int| 0 <= i < entries.len() && #[trigger] entries[i].0@ == token && entries[i].1 == session;
    entries.lemma_filter_contains(p, i);
    assert(live.contains(entries[i]));
    let j = choose|j: int| 0 <= j < live.len() && live[j] == entries[i];
    assert(live[j].0@ == token);
    assert(has_token(live, token));
    lemma_live_distinct(entries, now);
    match r {
        Ok(s) => {
            let k = choose|k: int|
                0 <= k < live.len() && live[k].0@ == token && live[k].1 == s && after == live.remove(k)
                    && s.root@ == session.root@ && s.query@ == session.query@ && s.mode == session.mode;
            if k != j {
                if k < j {
                    assert(live[k].0@ != live[j].0@);
                } else {
                    assert(live[j].0@ != live[k].0@);
                }
            }
        },
        Err(e) => {
            let k = choose|k: int|
                0 <= k < live.len() && live[k].0@ == token && after == live.remove(k) && !(live[k].1.root@
                    == session.root@ && live[k].1.query@ == session.query@ && live[k].1.mode == session.mode);
            if k != j {
                if k < j {
                    assert(live[k].0@ != live[j].0@);
                } else {
                    assert(live[j].0@ != live[k].0@);
                }
            }
            assert(false);
        },
    }
}

impl SearchSessionStore {
    /// The sessions with their tokens, in insertion order.
    pub closed spec fn entries(&self) -> Seq<(String, SearchSession)> {
        self.sessions@
    }

    pub open spec fn wf(&self) -> bool {
        distinct_tokens(self.entries())
    }

    pub fn new() -> (s: Self)
        ensures
            s.wf(),
            s.entries().len() == 0,
    {
        SearchSessionStore { sessions: Vec::new() }
    }

    /// The number of stored sessions.
    pub fn len(&self) -> (n: usize)
        ensures
            n == self.entries().len(),
    {
        self.sessions.len()
    }

    /// Whether a session is stored under `token`.
    pub fn contains(&self, token: &str) -> (r: bool)
        ensures
            r == has_token(self.entries(), token@),
    {
        match self.position(token) {
            Some(_) => true,
            None => false,
        }
    }

    fn position(&self, token: &str) -> (r: Option<usize>)
        ensures
            match r {
                Some(i) => i < self.entries().len() && self.entries()[i as int].0@ == token@,
                None => !has_token(self.entries(), token@),
            },
    {
        let mut i: usize = 0;
        while i < self.sessions.len()
            invariant
                i <= self.sessions@.len(),
                forall|j: int| 0 <= j < i ==> #[trigger] self.sessions@[j].0@ != token@,
            decreases self.sessions.len() - i,
        {
            if str_eq(self.sessions[i].0.as_str(), token) {
                return Some(i);
            }
            i += 1;
        }
        None
    }

    /// Drops the sessions idle for longer than the time-to-live.
    pub fn prune(&mut self, now: u64)
        requires
            old(self).wf(),
        ensures
            final(self).wf(),
            final(self).entries() == live_sessions(old(self).entries(), now),
    {
        let ghost o = self.sessions@;
        let mut rest: Vec<(String, SearchSession)> = Vec::new();
        std::mem::swap(&mut rest, &mut self.sessions);
        let mut kept: Vec<(String, SearchSession)> = Vec::new();
        let ghost n = o.len();
        assert(o.skip(0) =~= o);
        while rest.len() > 0
            invariant
                n == o.len(),
                rest@.len() <= n,
                rest@ == o.skip(n - rest@.len()),
                kept@ == live_sessions(o.take(n - rest@.len()), now),
            decreases rest.len(),
        {
            let ghost k = n - rest@.len();
            let e = rest.remove(0);
            proof {
                assert(e == o[k]);
                assert(rest@ =~= o.skip(k + 1));
                assert(o.take(k + 1).drop_last() =~= o.take(k));
                assert(o.take(k + 1).last() == o[k]);
                reveal_with_fuel(Seq::filter, 1);
            }
            let age = if now >= e.1.updated_at_ms {
                now - e.1.updated_at_ms
            } else {
                0
            };
            if age <= SEARCH_SESSION_TTL_MS {
                kept.push(e);
            }
        }
        assert(o.take(n as int) =~= o);
        self.sessions = kept;
        proof {
            let p = |e: (String, SearchSession)| is_fresh(e.1.updated_at_ms, now);
            assert forall|a: int, b: int|
                0 <= a < b < self.sessions@.len() implies #[trigger] self.sessions@[a].0@
                != #[trigger] self.sessions@[b].0@ by {
                crate::preview::lemma_filter_keeps_order(o, p, a, b);
            }
        }
    }

    /// Removes and returns the session under `token`.
    fn remove_token(&mut self, token: &str) -> (r: Option<SearchSession>)
        requires
            old(self).wf(),
        ensures
            final(self).wf(),
            match r {
                Some(s) => exists|i: int|
                    0 <= i < old(self).entries().len() && old(self).entries()[i].0@ == token@
                        && old(self).entries()[i].1 == s && final(self).entries() == old(
                        self,
                    ).entries().remove(i),
                None => !has_token(old(self).entries(), token@) && final(self).entries() == old(
                    self,
                ).entries(),
            },
    {
        match self.position(token) {
            Some(i) => {
                let (_, s) = self.sessions.remove(i);
                proof {
                    lemma_remove_keeps_distinct(old(self).entries(), i as int);
                }
                Some(s)
            },
            None => None,
        }
    }

    /// The position of a session with the earliest last use.
    fn oldest(&self) -> (r: usize)
        requires
            self.entries().len() > 0,
        ensures
            r < self.entries().len(),
            forall|j: int|
                0 <= j < self.entries().len() ==> self.entries()[r as int].1.updated_at_ms
                    <= #[trigger] self.entries()[j].1.updated_at_ms,
    {
        let mut best: usize = 0;
        let mut i: usize = 1;
        while i < self.sessions.len()
            invariant
                1 <= i <= self.sessions@.len(),
                best < i,
                forall|j: int|
                    0 <= j < i ==> self.sessions@[best as int].1.updated_at_ms
                        <= #[trigger] self.sessions@[j].1.updated_at_ms,
            decreases self.sessions.len() - i,
        {
            if self.sessions[i].1.updated_at_ms < self.sessions[best].1.updated_at_ms {
                best = i;
            }
            i += 1;
        }
        best
    }

    /// Takes the session a continuation token refers to, after pruning
    /// expired sessions. The session leaves the store either way; it is
    /// returned only when it was made for the same root, needle and mode.
    pub fn take(&mut self, token: &str, root: &str, query: &SearchQuery, now: u64) -> (r: Result<
        SearchSession,
        FsError,
    >)
        requires
            old(self).wf(),
        ensures
            final(self).wf(),
            !has_token(final(self).entries(), token@),
            take_outcome(
                live_sessions(old(self).entries(), now),
                token@,
                root@,
                query.needle_view(),
                query.mode_view(),
                r,
                final(self).entries(),
            ),
    {
        self.prune(now);
        let ghost live = self.sessions@;
        match self.remove_token(token) {
            None => Err(FsError::Io { uri: owned(root), message: CONTINUATION_EXPIRED.to_owned() }),
            Some(s) => {
                proof {
                    lemma_removed_token_absent(live, token@);
                }
                if str_eq(s.root.as_str(), root) && str_eq(s.query.as_str(), query.needle())
                    && s.mode == query.mode() {
                    Ok(s)
                } else {
                    Err(FsError::Io { uri: owned(root), message: CONTINUATION_MISMATCH.to_owned() })
                }
            },
        }
    }

    /// Stores a session under `token` after pruning expired sessions,
    /// evicting the least recently used sessions while the store is full.
    /// A session already under `token` is replaced.
    pub fn store(&mut self, token: String, session: SearchSession, now: u64)
        requires
            old(self).wf(),
        ensures
            final(self).wf(),
            final(self).entries().len() <= MAX_SEARCH_SESSIONS,
            exists|i: int|
                0 <= i < final(self).entries().len() && final(self).entries()[i].0@ == token@
                    && final(self).entries()[i].1 == session,
            forall|i: int|
                0 <= i < final(self).entries().len() && final(self).entries()[i].0@ != token@
                    ==> live_sessions(old(self).entries(), now).contains(
                    #[trigger] final(self).entries()[i],
                ),
    {
        self.prune(now);
        let ghost live = self.sessions@;
        while self.sessions.len() >= MAX_SEARCH_SESSIONS
            invariant
                self.wf(),
                forall|i: int|
                    0 <= i < self.sessions@.len() ==> live.contains(#[trigger] self.sessions@[i]),
            decreases self.sessions.len(),
        {
            let i = self.oldest();
            let ghost before = self.sessions@;
            self.sessions.remove(i);
            proof {
                lemma_remove_keeps_distinct(before, i as int);
                assert forall|j: int| 0 <= j < self.sessions@.len() implies live.contains(
                    #[trigger] self.sessions@[j],
                ) by {
                    let j2 = if j < i { j } else { j + 1 };
                    assert(self.sessions@[j] == before[j2]);
                }
            }
        }
        let ghost before = self.sessions@;
        match self.position(token.as_str()) {
            Some(i) => {
                self.sessions.set(i, (token, session));
                proof {
                    assert forall|a: int, b: int|
                        0 <= a < b < self.sessions@.len() implies #[trigger] self.sessions@[a].0@
                        != #[trigger] self.sessions@[b].0@ by {
                        if a != i && b != i {
                            assert(self.sessions@[a] == before[a]);
                            assert(self.sessions@[b] == before[b]);
                        } else if a == i {
                            assert(self.sessions@[b] == before[b]);
                        } else {
                            assert(self.sessions@[a] == before[a]);
                        }
                    }
                    assert forall|j: int|
                        0 <= j < self.sessions@.len() && self.sessions@[j].0@ != token@ implies live.contains(
                        #[trigger] self.sessions@[j],
                    ) by {
                        assert(self.sessions@[j] == before[j]);
                    }
                    assert(self.sessions@[i as int].0@ == token@);
                }
            },
            None => {
                self.sessions.push((token, session));
                proof {
                    let last = self.sessions@.len() - 1;
                    assert forall|a: int, b: int|
                        0 <= a < b < self.sessions@.len() implies #[trigger] self.sessions@[a].0@
                        != #[trigger] self.sessions@[b].0@ by {
                        assert(self.sessions@[a] == before[a]);
                        if b < last {
                            assert(self.sessions@[b] == before[b]);
                        }
                    }
                    assert forall|j: int|
                        0 <= j < self.sessions@.len() && self.sessions@[j].0@ != token@ implies live.contains(
                        #[trigger] self.sessions@[j],
                    ) by {
                        assert(self.sessions@[j] == before[j]);
                    }
                    assert(self.sessions@[last].0@ == token@);
                }
            },
        }
    }
}

/// Message of the error for an unknown or expired continuation token.
pub const CONTINUATION_EXPIRED: &'static str = "search continuation expired or is no longer available";

/// Message of the error for a continuation token used with another search.
pub const CONTINUATION_MISMATCH: &'static str = "search continuation does not match this request";

proof fn lemma_remove_keeps_distinct(s: Seq<(String, SearchSession)>, i: int)
    requires
        distinct_tokens(s),
        0 <= i < s.len(),
    ensures
        distinct_tokens(s.remove(i)),
        !has_token(s.remove(i), s[i].0@),
{
    let r = s.remove(i);
    assert forall|a: int, b: int| 0 <= a < b < r.len() implies #[trigger] r[a].0@ != #[trigger] r[b].0@ by {
        let a2 = if a < i { a } else { a + 1 };
        let b2 = if b < i { b } else { b + 1 };
        assert(r[a] == s[a2]);
        assert(r[b] == s[b2]);
    }
    assert forall|j: int| 0 <= j < r.len() implies #[trigger] r[j].0@ != s[i].0@ by {
        let j2 = if j < i { j } else { j + 1 };
        assert(r[j] == s[j2]);
    }
}

proof fn lemma_removed_token_absent(s: Seq<(String, SearchSession)>, token: Seq<char>)
    requires
        distinct_tokens(s),
    ensures
        forall|i: int| 0 <= i < s.len() && s[i].0@ == token ==> !has_token(#[trigger] s.remove(i), token),
{
    assert forall|i: int| 0 <= i < s.len() && s[i].0@ == token implies !has_token(#[trigger] s.remove(i), token) by {
        lemma_remove_keeps_distinct(s, i);
    }
}

} // verus!
