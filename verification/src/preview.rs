//! Office document preview: session keys, start-failure classification,
//! and the naming and limits of CSV preview workbooks.
use vstd::prelude::*;

use crate::text::{
    chars_of, eq_ignore_ascii_case, chars_eq_ignore_ascii_case, is_whitespace, is_ws, owned,
    push_char, push_str, seq_contains, str_contains, str_eq, string_from_range,
};

verus! {

/// Largest number of characters Excel stores in one cell.
pub const EXCEL_MAX_CELL_CHARS: usize = 32767;

/// How many times a start is attempted when the allocated port is taken.
pub const START_PORT_MAX_ATTEMPTS: usize = 3;

/// The kinds of document that can be previewed.
#[derive(Debug, Clone, Copy, PartialEq, Eq, Structural)]
pub enum DocType {
    Word,
    Excel,
    Ppt,
}

/// Failures of the preview pipeline.
#[derive(Debug, Clone, PartialEq, Eq)]
pub enum OfficeError {
    OfficecliNotFound,
    InstallFailed(String),
    StartFailed(String),
    PortTimeout(String),
    /// An I/O failure, by its message.
    Io(String),
    Snapshot(String),
    /// A JSON failure, by its message.
    Json(String),
    Conversion(String),
    ToolNotFound(String),
}

// ---------------------------------------------------------------------------
// Session keys
// ---------------------------------------------------------------------------

/// Identity of one preview session: who watches which resolved file as
/// which kind of document.
#[derive(Clone, Debug)]
pub struct WatchSessionKey {
    pub user_id: String,
    pub doc_type: DocType,
    pub resolved_path: String,
}

/// The abstract value of a session key.
pub struct WatchSessionKeyView {
    pub user_id: Seq<char>,
    pub doc_type: DocType,
    pub resolved_path: Seq<char>,
}

impl View for WatchSessionKey {
    type V = WatchSessionKeyView;

    open spec fn view(&self) -> WatchSessionKeyView {
        WatchSessionKeyView {
            user_id: self.user_id@,
            doc_type: self.doc_type,
            resolved_path: self.resolved_path@,
        }
    }
}

impl WatchSessionKey {
    pub fn new(user_id: &str, resolved_path: &str, doc_type: DocType) -> (k: Self)
        ensures
            k@ == (WatchSessionKeyView {
                user_id: user_id@,
                doc_type,
                resolved_path: resolved_path@,
            }),
    {
        WatchSessionKey { user_id: owned(user_id), doc_type, resolved_path: owned(resolved_path) }
    }

    /// Whether two keys name the same session.
    pub fn same(&self, other: &Self) -> (r: bool)
        ensures
            r == (self@ == other@),
    {
        let r = self.user_id == other.user_id && self.doc_type == other.doc_type
            && self.resolved_path == other.resolved_path;
        r
    }
}

impl PartialEq for WatchSessionKey {
    fn eq(&self, other: &Self) -> (r: bool) {
        self.user_id == other.user_id && self.doc_type == other.doc_type && self.resolved_path
            == other.resolved_path
    }
}

impl vstd::std_specs::cmp::PartialEqSpecImpl for WatchSessionKey {
    open spec fn obeys_eq_spec() -> bool {
        true
    }

    open spec fn eq_spec(&self, other: &Self) -> bool {
        self@ == other@
    }
}

impl Eq for WatchSessionKey {

}

/// The key of the session for `user_id` watching `resolved_path` as `doc_type`.
pub fn session_key(user_id: &str, resolved_path: &str, doc_type: DocType) -> (k: WatchSessionKey)
    ensures
        k@ == (WatchSessionKeyView {
            user_id: user_id@,
            doc_type,
            resolved_path: resolved_path@,
        }),
{
    WatchSessionKey::new(user_id, resolved_path, doc_type)
}

// ---------------------------------------------------------------------------
// Start failures
// ---------------------------------------------------------------------------

/// Messages by which the platforms report that a port is already bound.
pub open spec fn port_in_use_markers() -> Seq<Seq<char>> {
    seq![
        "Address already in use"@,
        "Only one usage of each socket address"@,
        "os error 98"@,
        "os error 48"@,
        "os error 10048"@,
    ]
}

/// Whether a start-failure message says that the port was already in use.
pub open spec fn is_port_in_use_text(message: Seq<char>) -> bool {
    exists|i: int| 0 <= i < 5 && seq_contains(message, #[trigger] port_in_use_markers()[i])
}

/// Whether `message` reports a port already in use.
pub fn is_port_in_use_message(message: &str) -> (r: bool)
    ensures
        r == is_port_in_use_text(message@),
{
    let a = str_contains(message, "Address already in use");
    let b = str_contains(message, "Only one usage of each socket address");
    let c = str_contains(message, "os error 98");
    let d = str_contains(message, "os error 48");
    let e = str_contains(message, "os error 10048");
    proof {
        let m = port_in_use_markers();
        assert(m[0] == "Address already in use"@);
        assert(m[1] == "Only one usage of each socket address"@);
        assert(m[2] == "os error 98"@);
        assert(m[3] == "os error 48"@);
        assert(m[4] == "os error 10048"@);
        if !(a || b || c || d || e) {
            assert forall|i: int| 0 <= i < 5 implies !seq_contains(message@, #[trigger] m[i]) by {
                if i == 0 {
                } else if i == 1 {
                } else if i == 2 {
                } else if i == 3 {
                } else {
                }
            }
        } else if a {
            assert(seq_contains(message@, m[0]));
        } else if b {
            assert(seq_contains(message@, m[1]));
        } else if c {
            assert(seq_contains(message@, m[2]));
        } else if d {
            assert(seq_contains(message@, m[3]));
        } else {
            assert(seq_contains(message@, m[4]));
        }
    }
    a || b || c || d || e
}

/// Whether a start failure is worth a retry on another port.
pub open spec fn is_port_in_use_failure(error: OfficeError) -> bool {
    error matches OfficeError::StartFailed(m) && is_port_in_use_text(m@)
}

/// Whether `error` is a start failure caused by a port already in use.
pub fn is_port_in_use_start_failure(error: &OfficeError) -> (r: bool)
    ensures
        r == is_port_in_use_failure(*error),
{
    match error {
        OfficeError::StartFailed(message) => is_port_in_use_message(message.as_str()),
        _ => false,
    }
}

/// Whether a failed start attempt number `attempt` (counting from 1) is retried.
pub open spec fn retries_start(attempt: nat, error: OfficeError) -> bool {
    is_port_in_use_failure(error) && attempt < START_PORT_MAX_ATTEMPTS
}

/// Whether a failed start attempt is retried on a fresh port: only a
/// port-in-use failure, and only before the last attempt.
pub fn should_retry_start(attempt: usize, error: &OfficeError) -> (r: bool)
    ensures
        r == retries_start(attempt as nat, *error),
{
    is_port_in_use_start_failure(error) && attempt < START_PORT_MAX_ATTEMPTS
}

/// The text of an error as it is shown to users of a preview.
pub open spec fn error_text(error: OfficeError) -> Seq<char> {
    match error {
        OfficeError::OfficecliNotFound => "officecli not found"@,
        OfficeError::InstallFailed(_) => "officecli install failed"@,
        OfficeError::StartFailed(m) => m@,
        OfficeError::PortTimeout(m) => m@,
        OfficeError::Io(m) => m@,
        OfficeError::Snapshot(m) => m@,
        OfficeError::Json(m) => m@,
        OfficeError::Conversion(m) => m@,
        OfficeError::ToolNotFound(m) => m@,
    }
}

/// The preview error message that may be broadcast to clients. Installer
/// output is never exposed.
pub fn public_preview_error_message(error: &OfficeError) -> (s: String)
    ensures
        s@ == error_text(*error),
{
    match error {
        OfficeError::InstallFailed(_) => "officecli install failed".to_owned(),
        OfficeError::OfficecliNotFound => "officecli not found".to_owned(),
        OfficeError::StartFailed(m) => m.clone(),
        OfficeError::PortTimeout(m) => m.clone(),
        OfficeError::Io(m) => m.clone(),
        OfficeError::Snapshot(m) => m.clone(),
        OfficeError::Json(m) => m.clone(),
        OfficeError::Conversion(m) => m.clone(),
        OfficeError::ToolNotFound(m) => m.clone(),
    }
}

/// The message of the start failure that wraps `error`.
pub open spec fn wrapped_start_message(error: OfficeError) -> Seq<char> {
    match error {
        OfficeError::Io(m) => "IO error: "@ + m@,
        OfficeError::Json(m) => "JSON error: "@ + m@,
        OfficeError::Snapshot(m) => m@,
        OfficeError::Conversion(m) => m@,
        OfficeError::ToolNotFound(m) => m@,
        _ => Seq::empty(),
    }
}

/// Whether `out` is the error a failed start reports for `error`: the four
/// start-related errors unchanged, every other one as a start failure.
pub open spec fn is_start_error(error: OfficeError, out: OfficeError) -> bool {
    match error {
        OfficeError::OfficecliNotFound => out == OfficeError::OfficecliNotFound,
        OfficeError::InstallFailed(m) => out matches OfficeError::InstallFailed(n) && n@ == m@,
        OfficeError::StartFailed(m) => out matches OfficeError::StartFailed(n) && n@ == m@,
        OfficeError::PortTimeout(m) => out matches OfficeError::PortTimeout(n) && n@ == m@,
        _ => out matches OfficeError::StartFailed(n) && n@ == wrapped_start_message(error),
    }
}

fn prefixed(prefix: &str, m: &String) -> (s: String)
    ensures
        s@ == prefix@ + m@,
{
    let mut s = owned(prefix);
    push_str(&mut s, m.as_str());
    s
}

/// Maps the error of a failed start to the error its caller receives.
pub fn start_failure_error(error: &OfficeError) -> (out: OfficeError)
    ensures
        is_start_error(*error, out),
{
    match error {
        OfficeError::OfficecliNotFound => OfficeError::OfficecliNotFound,
        OfficeError::InstallFailed(m) => OfficeError::InstallFailed(m.clone()),
        OfficeError::StartFailed(m) => OfficeError::StartFailed(m.clone()),
        OfficeError::PortTimeout(m) => OfficeError::PortTimeout(m.clone()),
        OfficeError::Io(m) => OfficeError::StartFailed(prefixed("IO error: ", m)),
        OfficeError::Snapshot(m) => OfficeError::StartFailed(m.clone()),
        OfficeError::Json(m) => OfficeError::StartFailed(prefixed("JSON error: ", m)),
        OfficeError::Conversion(m) => OfficeError::StartFailed(m.clone()),
        OfficeError::ToolNotFound(m) => OfficeError::StartFailed(m.clone()),
    }
}

// ---------------------------------------------------------------------------
// Starting a preview
// ---------------------------------------------------------------------------

/// Where the start of a preview stands. Attempts count from 1.
#[derive(Debug, Clone, Copy, PartialEq, Eq, Structural)]
pub enum StartState {
    /// The session already registered under the key is looked at.
    Checking,
    /// A port is being allocated for attempt `0`.
    Allocating(usize),
    /// officecli is being spawned on `port`; `installed` once it was installed.
    Spawning { attempt: usize, port: u16, installed: bool },
    /// officecli is being installed, to be spawned on `port` afterwards.
    Installing { attempt: usize, port: u16 },
    /// The preview server on `port` is awaited.
    Waiting { attempt: usize, port: u16 },
    /// The start is over.
    Finished,
}

/// The session registered under the key when a start begins.
#[derive(Debug, Clone, Copy, PartialEq, Eq, Structural)]
pub struct ExistingSession {
    pub aborted: bool,
    pub alive: bool,
    pub port: u16,
}

/// What the outside work of the last action gave.
#[derive(Debug)]
pub enum StartEvent {
    /// The registered session, if any.
    Begin(Option<ExistingSession>),
    /// The allocated port, or why none could be allocated.
    PortAllocated(Result<u16, OfficeError>),
    /// The outcome of spawning officecli.
    Spawned(Result<(), OfficeError>),
    /// The outcome of installing officecli.
    Installed(Result<(), OfficeError>),
    /// Whether the preview server answered on its port in time.
    PortReady(Result<(), OfficeError>),
}

/// The outside work to do next.
#[derive(Debug)]
pub enum StartAction {
    /// Return the port of the live registered session.
    Reuse(u16),
    /// Drop the stale registered session when `drop_stale`, broadcast
    /// `starting`, and allocate a port.
    Begin { drop_stale: bool },
    /// Allocate a fresh port.
    AllocatePort,
    /// Spawn officecli on the port.
    Spawn(u16),
    /// Broadcast `installing` and install officecli.
    Install,
    /// Wait for the preview server on the port.
    WaitForPort(u16),
    /// Register the session on `port`, broadcast `ready`, check for an
    /// officecli update when `check_update`, and return the port.
    Succeed { port: u16, check_update: bool },
    /// Broadcast `error` with `message`, and return `error`.
    Fail { message: String, error: OfficeError },
}

/// Whether `event` answers the action a start in `state` asked for, and the
/// attempt counts are in range.
pub open spec fn event_fits(state: StartState, event: StartEvent) -> bool {
    match state {
        StartState::Checking => event is Begin,
        StartState::Allocating(a) => 1 <= a <= START_PORT_MAX_ATTEMPTS && event is PortAllocated,
        StartState::Spawning { attempt, .. } => 1 <= attempt <= START_PORT_MAX_ATTEMPTS && event is Spawned,
        StartState::Installing { attempt, .. } => 1 <= attempt <= START_PORT_MAX_ATTEMPTS && event is Installed,
        StartState::Waiting { attempt, .. } => 1 <= attempt <= START_PORT_MAX_ATTEMPTS && event is PortReady,
        StartState::Finished => false,
    }
}

/// Executable form of [`event_fits`].
pub fn start_event_fits(state: StartState, event: &StartEvent) -> (r: bool)
    ensures
        r == event_fits(state, *event),
{
    match state {
        StartState::Checking => matches!(event, StartEvent::Begin(_)),
        StartState::Allocating(a) => 1 <= a && a <= START_PORT_MAX_ATTEMPTS && matches!(event, StartEvent::PortAllocated(_)),
        StartState::Spawning { attempt, .. } => 1 <= attempt && attempt <= START_PORT_MAX_ATTEMPTS && matches!(event, StartEvent::Spawned(_)),
        StartState::Installing { attempt, .. } => 1 <= attempt && attempt <= START_PORT_MAX_ATTEMPTS && matches!(event, StartEvent::Installed(_)),
        StartState::Waiting { attempt, .. } => 1 <= attempt && attempt <= START_PORT_MAX_ATTEMPTS && matches!(event, StartEvent::PortReady(_)),
        StartState::Finished => false,
    }
}

/// Whether `action` fails the start for `error`: the broadcast message is
/// the public text of the error and the caller receives its start error.
pub open spec fn fails_with(action: StartAction, error: OfficeError) -> bool {
    action matches StartAction::Fail { message, error: out } && message@ == error_text(error) && is_start_error(
        error,
        out,
    )
}

/// What a failed spawn or install of attempt `attempt` leads to: another
/// attempt on a fresh port when the port was taken and attempts are left,
/// else the end of the start.
pub open spec fn after_failure(attempt: nat, error: OfficeError, next: StartState, action: StartAction) -> bool {
    if retries_start(attempt, error) {
        next == StartState::Allocating((attempt + 1) as usize) && action is AllocatePort
    } else {
        next == StartState::Finished && fails_with(action, error)
    }
}

fn fail_start(error: OfficeError) -> (r: (StartState, StartAction))
    ensures
        r.0 == StartState::Finished,
        fails_with(r.1, error),
{
    let message = public_preview_error_message(&error);
    let out = start_failure_error(&error);
    (StartState::Finished, StartAction::Fail { message, error: out })
}

fn spawn_failed(attempt: usize, error: OfficeError) -> (r: (StartState, StartAction))
    requires
        1 <= attempt <= START_PORT_MAX_ATTEMPTS,
    ensures
        after_failure(attempt as nat, error, r.0, r.1),
{
    if should_retry_start(attempt, &error) {
        (StartState::Allocating(attempt + 1), StartAction::AllocatePort)
    } else {
        fail_start(error)
    }
}

/// One step of starting a preview of kind `doc_type`: from where the start
/// stands and what the last outside work gave, the next state and the
/// outside work to do. A live, not aborted registered session is reused;
/// otherwise the start broadcasts `starting` (dropping a stale session) and
/// tries up to [`START_PORT_MAX_ATTEMPTS`] ports: officecli is spawned,
/// installed once when it is missing and spawned again, and the port is
/// awaited; a spawn that finds the port taken retries on a fresh port while
/// attempts are left. A ready server ends the start with its port (checking
/// for an update after a presentation), any other failure ends it with the
/// error.
pub fn start_step(state: StartState, event: StartEvent, doc_type: DocType) -> (r: (StartState, StartAction))
    requires
        event_fits(state, event),
    ensures
        match (state, event) {
            (StartState::Checking, StartEvent::Begin(existing)) => match existing {
                Some(s) => if !s.aborted && s.alive {
                    r.0 == StartState::Finished && r.1 == StartAction::Reuse(s.port)
                } else {
                    r.0 == StartState::Allocating(1) && r.1 == StartAction::Begin { drop_stale: true }
                },
                None => r.0 == StartState::Allocating(1) && r.1 == StartAction::Begin { drop_stale: false },
            },
            (StartState::Allocating(a), StartEvent::PortAllocated(p)) => match p {
                Ok(port) => r.0 == (StartState::Spawning { attempt: a, port, installed: false }) && r.1
                    == StartAction::Spawn(port),
                Err(e) => r.0 == StartState::Finished && fails_with(r.1, e),
            },
            (StartState::Spawning { attempt, port, installed }, StartEvent::Spawned(s)) => match s {
                Ok(()) => r.0 == (StartState::Waiting { attempt, port }) && r.1 == StartAction::WaitForPort(port),
                Err(e) => if e == OfficeError::OfficecliNotFound && !installed {
                    r.0 == (StartState::Installing { attempt, port }) && r.1 is Install
                } else {
                    after_failure(attempt as nat, e, r.0, r.1)
                },
            },
            (StartState::Installing { attempt, port }, StartEvent::Installed(s)) => match s {
                Ok(()) => r.0 == (StartState::Spawning { attempt, port, installed: true }) && r.1
                    == StartAction::Spawn(port),
                Err(e) => after_failure(attempt as nat, e, r.0, r.1),
            },
            (StartState::Waiting { port, .. }, StartEvent::PortReady(s)) => match s {
                Ok(()) => r.0 == StartState::Finished && r.1 == (StartAction::Succeed {
                    port,
                    check_update: doc_type == DocType::Ppt,
                }),
                Err(e) => r.0 == StartState::Finished && fails_with(r.1, e),
            },
            _ => false,
        },
{
    match state {
        StartState::Checking => match event {
            StartEvent::Begin(existing) => match existing {
                Some(s) => if !s.aborted && s.alive {
                    (StartState::Finished, StartAction::Reuse(s.port))
                } else {
                    (StartState::Allocating(1), StartAction::Begin { drop_stale: true })
                },
                None => (StartState::Allocating(1), StartAction::Begin { drop_stale: false }),
            },
            _ => (StartState::Finished, StartAction::AllocatePort),
        },
        StartState::Allocating(a) => match event {
            StartEvent::PortAllocated(p) => match p {
                Ok(port) => (StartState::Spawning { attempt: a, port, installed: false }, StartAction::Spawn(port)),
                Err(e) => fail_start(e),
            },
            _ => (StartState::Finished, StartAction::AllocatePort),
        },
        StartState::Spawning { attempt, port, installed } => match event {
            StartEvent::Spawned(s) => match s {
                Ok(()) => (StartState::Waiting { attempt, port }, StartAction::WaitForPort(port)),
                Err(e) => {
                    let missing = match e {
                        OfficeError::OfficecliNotFound => true,
                        _ => false,
                    };
                    if missing && !installed {
                        (StartState::Installing { attempt, port }, StartAction::Install)
                    } else {
                        spawn_failed(attempt, e)
                    }
                },
            },
            _ => (StartState::Finished, StartAction::AllocatePort),
        },
        StartState::Installing { attempt, port } => match event {
            StartEvent::Installed(s) => match s {
                Ok(()) => (StartState::Spawning { attempt, port, installed: true }, StartAction::Spawn(port)),
                Err(e) => spawn_failed(attempt, e),
            },
            _ => (StartState::Finished, StartAction::AllocatePort),
        },
        StartState::Waiting { attempt, port } => match event {
            StartEvent::PortReady(s) => match s {
                Ok(()) => (
                    StartState::Finished,
                    StartAction::Succeed { port, check_update: doc_type == DocType::Ppt },
                ),
                Err(e) => fail_start(e),
            },
            _ => (StartState::Finished, StartAction::AllocatePort),
        },
        StartState::Finished => (StartState::Finished, StartAction::AllocatePort),
    }
}

// ---------------------------------------------------------------------------
// Versions
// ---------------------------------------------------------------------------

/// `s` with every leading `v` removed (`trim_start_matches('v')`).
pub open spec fn strip_leading_v(s: Seq<char>) -> Seq<char>
    decreases s.len(),
{
    if s.len() > 0 && s[0] == 'v' {
        strip_leading_v(s.drop_first())
    } else {
        s
    }
}

/// Whether `t` is the last whitespace-separated word of `s`
/// (`split_whitespace().last()`), or empty when `s` holds no word.
pub open spec fn is_last_word(s: Seq<char>, t: Seq<char>) -> bool {
    ||| (forall|i: int| 0 <= i < s.len() ==> is_ws(#[trigger] s[i])) && t.len() == 0
    ||| exists|a: int, b: int|
        #![trigger s.subrange(a, b)]
        0 <= a < b <= s.len() && t == s.subrange(a, b) && (a == 0 || is_ws(s[a - 1])) && (forall|
            i: int,
        |
            a <= i < b ==> !is_ws(#[trigger] s[i])) && (forall|i: int|
            b <= i < s.len() ==> is_ws(#[trigger] s[i]))
}

/// The version number in the output of `officecli --version`: its last word,
/// without leading `v`s.
pub fn normalize_officecli_version(raw: &str) -> (r: String)
    ensures
        exists|t: Seq<char>| is_last_word(raw@, t) && r@ == strip_leading_v(t),
{
    let v = chars_of(raw);
    let mut b = v.len();
    while b > 0
        invariant
            b <= v.len(),
            forall|i: int| b <= i < v.len() ==> is_ws(#[trigger] v@[i]),
        ensures
            b <= v.len(),
            forall|i: int| b <= i < v.len() ==> is_ws(#[trigger] v@[i]),
            b == 0 || !is_ws(v@[b - 1]),
        decreases b,
    {
        if !is_whitespace(v[b - 1]) {
            break;
        }
        b -= 1;
    }
    let mut a = b;
    while a > 0
        invariant
            a <= b <= v.len(),
            forall|i: int| a <= i < b ==> !is_ws(#[trigger] v@[i]),
        ensures
            a <= b,
            forall|i: int| a <= i < b ==> !is_ws(#[trigger] v@[i]),
            a == 0 || is_ws(v@[a - 1]),
        decreases a,
    {
        if is_whitespace(v[a - 1]) {
            break;
        }
        a -= 1;
    }
    let ghost t = v@.subrange(a as int, b as int);
    proof {
        if a == b {
            assert(b == 0 || !is_ws(v@[b - 1]));
            assert(b == 0);
            assert(t.len() == 0);
            assert(is_last_word(raw@, t));
        } else {
            assert(is_last_word(raw@, t));
        }
    }
    let mut start = a;
    while start < b && v[start] == 'v'
        invariant
            a <= start <= b <= v.len(),
            strip_leading_v(t) == strip_leading_v(v@.subrange(start as int, b as int)),
        decreases b - start,
    {
        assert(v@.subrange(start as int, b as int).drop_first() == v@.subrange(start + 1, b as int));
        start += 1;
    }
    let ghost u = v@.subrange(start as int, b as int);
    assert(u.len() == 0 || u[0] != 'v');
    assert(strip_leading_v(u) == u);
    string_from_range(&v, start, b)
}

// ---------------------------------------------------------------------------
// CSV previews
// ---------------------------------------------------------------------------

/// Whether `c` is kept as is in a preview file stem.
pub open spec fn stem_keeps(c: char) -> bool {
    ('a' <= c <= 'z') || ('A' <= c <= 'Z') || ('0' <= c <= '9') || c == '-' || c == '_'
}

/// The preview stem: every character that is not an ASCII letter or digit,
/// `-` or `_` replaced by `_`.
pub open spec fn sanitized_stem(stem: Seq<char>) -> Seq<char> {
    stem.map_values(|c: char| if stem_keeps(c) { c } else { '_' })
}

/// Replaces every character of `stem` that is unsafe in a file name by `_`.
pub fn sanitize_preview_stem(stem: &str) -> (r: String)
    ensures
        r@ == sanitized_stem(stem@),
{
    let v = chars_of(stem);
    let mut s = String::new();
    let mut i: usize = 0;
    while i < v.len()
        invariant
            i <= v.len(),
            v@ == stem@,
            s@ == sanitized_stem(v@.take(i as int)),
        decreases v.len() - i,
    {
        let c = v[i];
        let keep = ('a' <= c && c <= 'z') || ('A' <= c && c <= 'Z') || ('0' <= c && c <= '9') || c
            == '-' || c == '_';
        if keep {
            push_char(&mut s, c);
        } else {
            push_char(&mut s, '_');
        }
        assert(sanitized_stem(v@.take(i + 1)) =~= sanitized_stem(v@.take(i as int)).push(
            if stem_keeps(c) {
                c
            } else {
                '_'
            },
        ));
        i += 1;
    }
    assert(v@.take(v@.len() as int) == v@);
    s
}

/// A CSV cell as an Excel cell stores it: at most
/// [`EXCEL_MAX_CELL_CHARS`] characters.
pub open spec fn truncated_cell(value: Seq<char>) -> Seq<char> {
    if value.len() <= EXCEL_MAX_CELL_CHARS {
        value
    } else {
        value.take(EXCEL_MAX_CELL_CHARS as int)
    }
}

/// Cuts a cell to the Excel character limit.
pub fn truncate_csv_cell(value: &str) -> (r: &str)
    ensures
        r@ == truncated_cell(value@),
{
    let n = value.unicode_len();
    if n <= EXCEL_MAX_CELL_CHARS {
        assert(value@.subrange(0, n as int) == value@);
        value.substring_char(0, n)
    } else {
        value.substring_char(0, EXCEL_MAX_CELL_CHARS)
    }
}

// ---------------------------------------------------------------------------
// Session registry
// ---------------------------------------------------------------------------

/// One running preview: its key, the port it serves, whether it was
/// aborted, and the handle of its process.
#[derive(Debug)]
pub struct WatchSession {
    pub key: WatchSessionKey,
    pub port: u16,
    pub aborted: bool,
    pub process: u64,
}

/// Whether a session serves `port` as `doc_type`.
pub open spec fn serves(s: WatchSession, port: u16, doc_type: DocType) -> bool {
    s.port == port && s.key.doc_type == doc_type
}

/// Whether a session serves `port` as a live-reloading (Word or Excel) preview.
pub open spec fn serves_watch(s: WatchSession, port: u16) -> bool {
    s.port == port && (s.key.doc_type == DocType::Word || s.key.doc_type == DocType::Excel)
}

/// Whether a session belongs to `user`.
pub open spec fn owned_by(s: WatchSession, user: Seq<char>) -> bool {
    s.key.user_id@ == user
}

/// The predicate "belongs to `user`".
pub open spec fn of_user(user: Seq<char>) -> spec_fn(WatchSession) -> bool {
    |x: WatchSession| owned_by(x, user)
}

/// The predicate "belongs to another user than `user`".
pub open spec fn of_other_user(user: Seq<char>) -> spec_fn(WatchSession) -> bool {
    |x: WatchSession| !owned_by(x, user)
}

/// The running previews, at most one per key.
#[derive(Debug)]
pub struct WatchRegistry {
    sessions: Vec<WatchSession>,
}

impl WatchRegistry {
    /// The sessions, in insertion order.
    pub closed spec fn sessions(&self) -> Seq<WatchSession> {
        self.sessions@
    }

    /// No two sessions share a key.
    pub open spec fn wf(&self) -> bool {
        forall|i: int, j: int|
            0 <= i < j < self.sessions().len() ==> #[trigger] self.sessions()[i].key@
                != #[trigger] self.sessions()[j].key@
    }

    /// Whether some session has key `key`.
    pub open spec fn has_key(&self, key: WatchSessionKeyView) -> bool {
        exists|i: int| 0 <= i < self.sessions().len() && #[trigger] self.sessions()[i].key@ == key
    }

    pub fn new() -> (r: Self)
        ensures
            r.wf(),
            r.sessions() == Seq::<WatchSession>::empty(),
    {
        WatchRegistry { sessions: Vec::new() }
    }

    /// The number of running sessions.
    pub fn len(&self) -> (n: usize)
        ensures
            n == self.sessions().len(),
    {
        self.sessions.len()
    }

    /// The position of the session with key `key`.
    pub fn find(&self, key: &WatchSessionKey) -> (r: Option<usize>)
        requires
            self.wf(),
        ensures
            match r {
                Some(i) => i < self.sessions().len() && self.sessions()[i as int].key@ == key@,
                None => !self.has_key(key@),
            },
    {
        let mut i: usize = 0;
        while i < self.sessions.len()
            invariant
                i <= self.sessions@.len(),
                forall|j: int| 0 <= j < i ==> #[trigger] self.sessions@[j].key@ != key@,
            decreases self.sessions.len() - i,
        {
            if self.sessions[i].key.same(key) {
                return Some(i);
            }
            i += 1;
        }
        proof {
            assert forall|j: int| 0 <= j < self.sessions().len() implies #[trigger] self.sessions()[j].key@ != key@ by {
                assert(self.sessions@[j].key@ != key@);
            }
        }
        None
    }

    /// The session with key `key`.
    pub fn get(&self, key: &WatchSessionKey) -> (r: Option<&WatchSession>)
        requires
            self.wf(),
        ensures
            match r {
                Some(s) => s.key@ == key@ && exists|i: int|
                    0 <= i < self.sessions().len() && self.sessions()[i] == *s,
                None => !self.has_key(key@),
            },
    {
        match self.find(key) {
            Some(i) => Some(&self.sessions[i]),
            None => None,
        }
    }

    /// Adds `session`, replacing the session with the same key.
    pub fn insert(&mut self, session: WatchSession)
        requires
            old(self).wf(),
        ensures
            final(self).wf(),
            old(self).has_key(session.key@) ==> exists|i: int|
                0 <= i < old(self).sessions().len() && old(self).sessions()[i].key@ == session.key@
                    && final(self).sessions() == old(self).sessions().update(i, session),
            !old(self).has_key(session.key@) ==> final(self).sessions() == old(
                self,
            ).sessions().push(session),
    {
        let ghost o = self.sessions@;
        let ghost k = session.key@;
        match self.find(&session.key) {
            Some(i) => {
                self.sessions.set(i, session);
                proof {
                    assert forall|a: int, b: int|
                        0 <= a < b < self.sessions@.len() implies #[trigger] self.sessions@[a].key@
                        != #[trigger] self.sessions@[b].key@ by {
                        if a != i && b != i {
                            assert(self.sessions@[a] == o[a]);
                            assert(self.sessions@[b] == o[b]);
                        } else if a == i {
                            assert(self.sessions@[b] == o[b]);
                            assert(o[i as int].key@ != o[b].key@);
                        } else {
                            assert(self.sessions@[a] == o[a]);
                            assert(o[a].key@ != o[i as int].key@);
                        }
                    }
                }
            },
            None => {
                self.sessions.push(session);
                proof {
                    assert forall|a: int, b: int|
                        0 <= a < b < self.sessions@.len() implies #[trigger] self.sessions@[a].key@
                        != #[trigger] self.sessions@[b].key@ by {
                        assert(self.sessions@[a] == o[a]);
                        if b < o.len() {
                            assert(self.sessions@[b] == o[b]);
                        } else {
                            assert(o[a].key@ != k);
                        }
                    }
                }
            },
        }
    }

    /// Removes and returns the session with key `key`.
    pub fn remove(&mut self, key: &WatchSessionKey) -> (r: Option<WatchSession>)
        requires
            old(self).wf(),
        ensures
            final(self).wf(),
            match r {
                Some(s) => exists|i: int|
                    0 <= i < old(self).sessions().len() && old(self).sessions()[i] == s && s.key@
                        == key@ && final(self).sessions() == old(self).sessions().remove(i),
                None => !old(self).has_key(key@) && final(self).sessions() == old(self).sessions(),
            },
            !final(self).has_key(key@),
    {
        match self.find(key) {
            Some(i) => {
                let s = self.sessions.remove(i);
                proof {
                    let o = old(self).sessions();
                    assert forall|a: int, b: int|
                        0 <= a < b < self.sessions@.len() implies #[trigger] self.sessions@[a].key@
                        != #[trigger] self.sessions@[b].key@ by {
                        let a2 = if a < i { a } else { a + 1 };
                        let b2 = if b < i { b } else { b + 1 };
                        assert(self.sessions@[a] == o[a2]);
                        assert(self.sessions@[b] == o[b2]);
                    }
                    assert forall|j: int|
                        0 <= j < self.sessions@.len() implies #[trigger] self.sessions@[j].key@
                        != key@ by {
                        let j2 = if j < i { j } else { j + 1 };
                        assert(self.sessions@[j] == o[j2]);
                        if j < i {
                            assert(o[j2].key@ != o[i as int].key@);
                        } else {
                            assert(o[i as int].key@ != o[j2].key@);
                        }
                    }
                }
                Some(s)
            },
            None => None,
        }
    }

    /// Removes every session of `user`; returns them in order.
    pub fn remove_for_user(&mut self, user: &str) -> (removed: Vec<WatchSession>)
        requires
            old(self).wf(),
        ensures
            final(self).wf(),
            removed@ == old(self).sessions().filter(of_user(user@)),
            final(self).sessions() == old(self).sessions().filter(of_other_user(user@)),
    {
        let ghost o = self.sessions@;
        let mut kept: Vec<WatchSession> = Vec::new();
        let mut removed: Vec<WatchSession> = Vec::new();
        let mut rest: Vec<WatchSession> = Vec::new();
        std::mem::swap(&mut rest, &mut self.sessions);
        let ghost n = o.len();
        assert(o.skip(0) =~= o);
        while rest.len() > 0
            invariant
                n == o.len(),
                rest@.len() <= n,
                rest@ == o.skip(n - rest@.len()),
                kept@ == o.take(n - rest@.len()).filter(of_other_user(user@)),
                removed@ == o.take(n - rest@.len()).filter(of_user(user@)),
            decreases rest.len(),
        {
            let ghost k = n - rest@.len();
            let s = rest.remove(0);
            proof {
                assert(s == o[k]);
                assert(rest@ =~= o.skip(k + 1));
                assert(o.take(k + 1).drop_last() =~= o.take(k));
                assert(o.take(k + 1).last() == o[k]);
                reveal_with_fuel(Seq::filter, 1);
            }
            if str_eq(s.key.user_id.as_str(), user) {
                removed.push(s);
            } else {
                kept.push(s);
            }
        }
        assert(o.take(n as int) =~= o);
        self.sessions = kept;
        proof {
            let p = of_other_user(user@);
            assert forall|a: int, b: int|
                0 <= a < b < self.sessions@.len() implies #[trigger] self.sessions@[a].key@
                != #[trigger] self.sessions@[b].key@ by {
                lemma_filter_keeps_order(o, p, a, b);
                let (i, j) = choose|i: int, j: int|
                    0 <= i < j < o.len() && o.filter(p)[a] == o[i] && o.filter(p)[b] == o[j];
                assert(o[i].key@ != o[j].key@);
            }
        }
        removed
    }

    /// Removes every session; returns them in order.
    pub fn clear(&mut self) -> (removed: Vec<WatchSession>)
        ensures
            final(self).wf(),
            removed@ == old(self).sessions(),
            final(self).sessions() == Seq::<WatchSession>::empty(),
    {
        let mut all: Vec<WatchSession> = Vec::new();
        std::mem::swap(&mut all, &mut self.sessions);
        all
    }

    /// Whether some session serves `port` as `doc_type`.
    pub fn is_active_port(&self, port: u16, doc_type: DocType) -> (r: bool)
        ensures
            r == exists|i: int|
                0 <= i < self.sessions().len() && serves(#[trigger] self.sessions()[i], port, doc_type),
    {
        let mut i: usize = 0;
        while i < self.sessions.len()
            invariant
                i <= self.sessions@.len(),
                forall|j: int| 0 <= j < i ==> !serves(#[trigger] self.sessions@[j], port, doc_type),
            decreases self.sessions.len() - i,
        {
            if self.sessions[i].port == port && self.sessions[i].key.doc_type == doc_type {
                assert(serves(self.sessions()[i as int], port, doc_type));
                return true;
            }
            i += 1;
        }
        false
    }

    /// Whether some session of `user` serves `port` as `doc_type`.
    pub fn is_active_port_for_user(&self, user: &str, port: u16, doc_type: DocType) -> (r: bool)
        ensures
            r == exists|i: int|
                0 <= i < self.sessions().len() && owned_by(#[trigger] self.sessions()[i], user@)
                    && serves(self.sessions()[i], port, doc_type),
    {
        let mut i: usize = 0;
        while i < self.sessions.len()
            invariant
                i <= self.sessions@.len(),
                forall|j: int|
                    0 <= j < i ==> !(owned_by(#[trigger] self.sessions@[j], user@) && serves(
                        self.sessions@[j],
                        port,
                        doc_type,
                    )),
            decreases self.sessions.len() - i,
        {
            if str_eq(self.sessions[i].key.user_id.as_str(), user) && self.sessions[i].port == port
                && self.sessions[i].key.doc_type == doc_type {
                assert(owned_by(self.sessions()[i as int], user@));
                return true;
            }
            i += 1;
        }
        false
    }

    /// Whether some Word or Excel session serves `port`.
    pub fn is_active_watch_port(&self, port: u16) -> (r: bool)
        ensures
            r == exists|i: int|
                0 <= i < self.sessions().len() && serves_watch(#[trigger] self.sessions()[i], port),
    {
        let mut i: usize = 0;
        while i < self.sessions.len()
            invariant
                i <= self.sessions@.len(),
                forall|j: int| 0 <= j < i ==> !serves_watch(#[trigger] self.sessions@[j], port),
            decreases self.sessions.len() - i,
        {
            let d = self.sessions[i].key.doc_type;
            if self.sessions[i].port == port && (d == DocType::Word || d == DocType::Excel) {
                assert(serves_watch(self.sessions()[i as int], port));
                return true;
            }
            i += 1;
        }
        false
    }

    /// Whether some Word or Excel session of `user` serves `port`.
    pub fn is_active_watch_port_for_user(&self, user: &str, port: u16) -> (r: bool)
        ensures
            r == exists|i: int|
                0 <= i < self.sessions().len() && owned_by(#[trigger] self.sessions()[i], user@)
                    && serves_watch(self.sessions()[i], port),
    {
        let mut i: usize = 0;
        while i < self.sessions.len()
            invariant
                i <= self.sessions@.len(),
                forall|j: int|
                    0 <= j < i ==> !(owned_by(#[trigger] self.sessions@[j], user@) && serves_watch(
                        self.sessions@[j],
                        port,
                    )),
            decreases self.sessions.len() - i,
        {
            let d = self.sessions[i].key.doc_type;
            if str_eq(self.sessions[i].key.user_id.as_str(), user) && self.sessions[i].port == port && (d
                == DocType::Word || d == DocType::Excel) {
                assert(owned_by(self.sessions()[i as int], user@));
                return true;
            }
            i += 1;
        }
        false
    }
}

/// The port of an existing session that a new start may reuse: one that was
/// not aborted and whose process is still alive.
pub fn reusable_port(session: &WatchSession, alive: bool) -> (r: Option<u16>)
    ensures
        r == (if !session.aborted && alive {
            Some(session.port)
        } else {
            None
        }),
{
    if !session.aborted && alive {
        Some(session.port)
    } else {
        None
    }
}

/// Stopping one session removes exactly that session: one fewer session
/// runs, and every other session, of this user or another, keeps running.
pub proof fn law_stopping_a_session_keeps_the_others(sessions: Seq<WatchSession>, i: int)
    requires
        0 <= i < sessions.len(),
    ensures
        sessions.remove(i).len() == sessions.len() - 1,
        forall|j: int| 0 <= j < sessions.len() && j != i ==> sessions.remove(i).contains(#[trigger] sessions[j]),
{
    assert forall|j: int| 0 <= j < sessions.len() && j != i implies sessions.remove(i).contains(#[trigger] sessions[j]) by {
        if j < i {
            assert(sessions.remove(i)[j] == sessions[j]);
        } else {
            assert(sessions.remove(i)[j - 1] == sessions[j]);
        }
    }
}

proof fn lemma_filter_partition(s: Seq<WatchSession>, user: Seq<char>)
    ensures
        s.filter(of_user(user)).len() + s.filter(of_other_user(user)).len()
            == s.len(),
    decreases s.len(),
{
    reveal_with_fuel(Seq::filter, 1);
    if s.len() > 0 {
        lemma_filter_partition(s.drop_last(), user);
    }
}

/// Stopping all sessions of `user` removes exactly that user's sessions:
/// the removed and the remaining sessions add up to those that ran before,
/// the removed ones all belong to `user`, and every session of another user
/// keeps running.
pub proof fn law_stopping_a_user_keeps_other_users(sessions: Seq<WatchSession>, user: Seq<char>)
    ensures
        sessions.filter(of_user(user)).len() + sessions.filter(
of_other_user(user)).len() == sessions.len(),
        forall|k: int|
            0 <= k < sessions.filter(of_user(user)).len() ==> owned_by(
                #[trigger] sessions.filter(of_user(user))[k],
                user,
            ),
        forall|j: int|
            0 <= j < sessions.len() && !owned_by(sessions[j], user) ==> sessions.filter(
                of_other_user(user),
            ).contains(#[trigger] sessions[j]),
{
    lemma_filter_partition(sessions, user);
    let p = of_user(user);
    let q = of_other_user(user);
    assert forall|k: int| 0 <= k < sessions.filter(p).len() implies owned_by(#[trigger] sessions.filter(p)[k], user) by {
        sessions.lemma_filter_pred(p, k);
    }
    assert forall|j: int| 0 <= j < sessions.len() && !owned_by(sessions[j], user) implies sessions.filter(q).contains(
        #[trigger] sessions[j],
    ) by {
        sessions.lemma_filter_contains(q, j);
    }
}


/// Every element of a filtered sequence comes from some position of the original.
pub proof fn lemma_filter_index<A>(s: Seq<A>, p: spec_fn(A) -> bool, a: int)
    requires
        0 <= a < s.filter(p).len(),
    ensures
        exists|i: int| 0 <= i < s.len() && s.filter(p)[a] == s[i],
    decreases s.len(),
{
    reveal_with_fuel(Seq::filter, 1);
    let d = s.drop_last();
    let t = d.filter(p);
    if p(s.last()) && a == t.len() {
        assert(s.filter(p)[a] == s[s.len() - 1]);
    } else {
        lemma_filter_index(d, p, a);
        let i = choose|i: int| 0 <= i < d.len() && d.filter(p)[a] == d[i];
        assert(s.filter(p)[a] == s[i]);
    }
}

/// Filtering keeps relative order: two kept elements come from two distinct
/// positions of the original, the earlier one first.
pub proof fn lemma_filter_keeps_order<A>(s: Seq<A>, p: spec_fn(A) -> bool, a: int, b: int)
    requires
        0 <= a < b < s.filter(p).len(),
    ensures
        exists|i: int, j: int|
            0 <= i < j < s.len() && s.filter(p)[a] == s[i] && s.filter(p)[b] == s[j],
    decreases s.len(),
{
    reveal_with_fuel(Seq::filter, 1);
    let d = s.drop_last();
    let t = d.filter(p);
    if p(s.last()) && b == t.len() {
        lemma_filter_index(d, p, a);
        let i = choose|i: int| 0 <= i < d.len() && d.filter(p)[a] == d[i];
        assert(s.filter(p)[a] == s[i]);
        assert(s.filter(p)[b] == s[s.len() - 1]);
    } else {
        lemma_filter_keeps_order(d, p, a, b);
        let (i, j) = choose|i: int, j: int|
            0 <= i < j < d.len() && d.filter(p)[a] == d[i] && d.filter(p)[b] == d[j];
        assert(s.filter(p)[a] == s[i]);
        assert(s.filter(p)[b] == s[j]);
    }
}

} // verus!
