//! Inspection of the sessions that command-line agents (Codex, OpenCode, Pi)
//! keep on disk: identifier checks, clipping of long values, turn/item
//! assembly and the child-task metadata of a spawned sub-agent.
use vstd::prelude::*;

use crate::text::{
    chars_of, i64_to_string, owned, push_str, signed_decimal, str_eq, string_from_range,
};

verus! {

/// Default number of sessions a listing returns.
pub const DEFAULT_LIST_LIMIT: usize = 100;

/// Largest number of sessions a listing returns.
pub const MAX_LIST_LIMIT: usize = 500;

/// Most items a session snapshot holds, over all its turns.
pub const MAX_ITEMS: usize = 4000;

/// Most characters a text or value keeps before it is clipped.
pub const MAX_VALUE_CHARS: usize = 100000;

/// Longest accepted session identifier, in bytes.
pub const MAX_SESSION_ID_LEN: usize = 200;

/// Failures of session inspection.
#[derive(Debug, Clone, PartialEq, Eq)]
pub enum AgentError {
    BadRequest(String),
    NotFound(String),
    Internal(String),
}

/// The command-line agents whose sessions can be inspected.
#[derive(Debug, Clone, Copy, PartialEq, Eq, Structural)]
pub enum AgentSessionBackend {
    Codex,
    Opencode,
    Pi,
}

/// Which sessions a listing returns.
#[derive(Debug, Clone, Copy, PartialEq, Eq, Structural)]
pub enum AgentSessionScope {
    All,
    Main,
    Child,
}

/// What one item of a turn is.
#[derive(Debug, Clone, Copy, PartialEq, Eq, Structural)]
pub enum AgentSessionItemKind {
    UserMessage,
    AgentMessage,
    Thinking,
    ToolCall,
}

/// One item of a turn: a message, a thought or a tool call. Tool inputs and
/// outputs are carried as JSON text.
#[derive(Debug, Clone)]
pub struct AgentSessionItem {
    pub kind: AgentSessionItemKind,
    pub id: Option<String>,
    pub name: Option<String>,
    pub text: Option<String>,
    pub input: Option<String>,
    pub output: Option<String>,
    pub status: Option<String>,
    pub timestamp: Option<String>,
    pub truncated: bool,
}

/// One turn of a session.
#[derive(Debug, Clone)]
pub struct AgentSessionTurn {
    pub id: String,
    pub model: Option<String>,
    pub started_at: Option<String>,
    pub completed_at: Option<String>,
    pub items: Vec<AgentSessionItem>,
}

/// The task a sub-agent was started with.
#[derive(Debug, Clone)]
pub struct AgentSessionChildTask {
    pub prompt: String,
    pub agent_type: Option<String>,
    pub fork_context: Option<bool>,
}

/// One `spawn_agent` call found in a parent session.
#[derive(Debug, Clone)]
pub struct CodexSpawnDispatch {
    pub prompt: String,
    pub agent_type: Option<String>,
    pub fork_context: Option<bool>,
}

/// The summary line of one session.
#[derive(Debug, Clone)]
pub struct AgentSessionSummary {
    pub id: String,
    pub backend: AgentSessionBackend,
    pub title: Option<String>,
    pub cwd: Option<String>,
    pub model: Option<String>,
    pub source: Option<String>,
    pub status: Option<String>,
    pub parent_id: Option<String>,
    pub created_at: Option<String>,
    pub updated_at: Option<String>,
}

/// Where the session stores of the three agents live.
#[derive(Debug, Clone)]
pub struct AgentSessionInspectionService {
    pub codex_home: String,
    pub opencode_data_dir: String,
    pub pi_agent_dir: String,
}

impl AgentSessionInspectionService {
    /// A service reading the given store locations.
    pub fn with_roots(codex_home: String, opencode_data_dir: String, pi_agent_dir: String) -> (s: Self)
        ensures
            s.codex_home == codex_home,
            s.opencode_data_dir == opencode_data_dir,
            s.pi_agent_dir == pi_agent_dir,
    {
        AgentSessionInspectionService { codex_home, opencode_data_dir, pi_agent_dir }
    }
}

// ---------------------------------------------------------------------------
// Identifiers and limits
// ---------------------------------------------------------------------------

/// Whether `c` may appear in a session identifier.
pub open spec fn id_char(c: char) -> bool {
    ('a' <= c <= 'z') || ('A' <= c <= 'Z') || ('0' <= c <= '9') || c == '-' || c == '_'
}

/// Whether `id` is an acceptable session identifier: non-empty, at most
/// [`MAX_SESSION_ID_LEN`] bytes, ASCII letters, digits, `-` and `_` only.
pub open spec fn valid_session_id(id: Seq<char>) -> bool {
    id.len() > 0 && id.len() <= MAX_SESSION_ID_LEN && forall|i: int|
        0 <= i < id.len() ==> id_char(#[trigger] id[i])
}

/// Message of the error for a rejected session identifier.
pub const INVALID_SESSION_ID: &'static str = "Invalid CLI session ID";

/// Rejects identifiers that could escape a session store.
pub fn validate_session_id(id: &str) -> (r: Result<(), AgentError>)
    ensures
        r is Ok <==> valid_session_id(id@),
        r matches Err(e) ==> e matches AgentError::BadRequest(m) && m@ == INVALID_SESSION_ID@,
{
    let v = chars_of(id);
    let mut ok = v.len() > 0 && v.len() <= MAX_SESSION_ID_LEN;
    let mut i: usize = 0;
    while ok && i < v.len()
        invariant
            i <= v.len(),
            v@ == id@,
            ok ==> forall|j: int| 0 <= j < i ==> id_char(#[trigger] v@[j]),
            ok ==> v.len() > 0 && v.len() <= MAX_SESSION_ID_LEN,
            !ok ==> !valid_session_id(id@),
        decreases v.len() - i,
    {
        let c = v[i];
        if !(('a' <= c && c <= 'z') || ('A' <= c && c <= 'Z') || ('0' <= c && c <= '9') || c == '-'
            || c == '_') {
            ok = false;
        }
        i += 1;
    }
    if ok {
        Ok(())
    } else {
        Err(AgentError::BadRequest(INVALID_SESSION_ID.to_owned()))
    }
}

/// How many sessions a listing returns for the requested limit: the default
/// when none is given, clamped to `1..=MAX_LIST_LIMIT`.
pub open spec fn list_limit_spec(limit: Option<usize>) -> nat {
    let l = match limit {
        Some(l) => l as nat,
        None => DEFAULT_LIST_LIMIT as nat,
    };
    if l < 1 {
        1
    } else if l > MAX_LIST_LIMIT {
        MAX_LIST_LIMIT as nat
    } else {
        l
    }
}

/// The effective listing limit.
pub fn list_limit(limit: Option<usize>) -> (r: usize)
    ensures
        r == list_limit_spec(limit),
{
    let l = match limit {
        Some(l) => l,
        None => DEFAULT_LIST_LIMIT,
    };
    if l < 1 {
        1
    } else if l > MAX_LIST_LIMIT {
        MAX_LIST_LIMIT
    } else {
        l
    }
}

// ---------------------------------------------------------------------------
// Clipping
// ---------------------------------------------------------------------------

/// Suffix that marks clipped text.
pub const TRUNCATION_MARKER: &'static str = "\n...[truncated]";

/// `text` clipped to [`MAX_VALUE_CHARS`] characters, with the marker when
/// anything was cut.
pub open spec fn truncated_text(text: Seq<char>) -> (Seq<char>, bool) {
    if text.len() <= MAX_VALUE_CHARS {
        (text, false)
    } else {
        (text.take(MAX_VALUE_CHARS as int) + TRUNCATION_MARKER@, true)
    }
}

/// Clips long text; the flag says whether anything was cut.
pub fn truncate_text(text: &str) -> (r: (String, bool))
    ensures
        (r.0@, r.1) == truncated_text(text@),
{
    let v = chars_of(text);
    if v.len() <= MAX_VALUE_CHARS {
        assert(v@.subrange(0, v@.len() as int) == v@);
        (string_from_range(&v, 0, v.len()), false)
    } else {
        let mut s = string_from_range(&v, 0, MAX_VALUE_CHARS);
        push_str(&mut s, TRUNCATION_MARKER);
        (s, true)
    }
}

/// `Some(value)` unless it is empty.
pub fn non_empty(value: String) -> (r: Option<String>)
    ensures
        r == (if value@.len() == 0 {
            None
        } else {
            Some(value)
        }),
{
    let n = value.as_str().unicode_len();
    if n == 0 {
        None
    } else {
        Some(value)
    }
}

/// A millisecond timestamp as decimal text.
pub fn millis_string(value: Option<i64>) -> (r: Option<String>)
    ensures
        match value {
            Some(v) => r matches Some(s) && s@ == signed_decimal(v as int),
            None => r is None,
        },
{
    match value {
        Some(v) => Some(i64_to_string(v)),
        None => None,
    }
}

/// An internal error for a failed file operation: `Failed to <action>: <error>`.
pub fn io_error(action: &str, error: &str) -> (e: AgentError)
    ensures
        e matches AgentError::Internal(m) && m@ == "Failed to "@ + action@ + ": "@ + error@,
{
    let mut m = owned("Failed to ");
    push_str(&mut m, action);
    push_str(&mut m, ": ");
    push_str(&mut m, error);
    AgentError::Internal(m)
}

// ---------------------------------------------------------------------------
// Turns and items
// ---------------------------------------------------------------------------

/// The number of items over all turns.
pub open spec fn item_count(turns: Seq<AgentSessionTurn>) -> nat
    decreases turns.len(),
{
    if turns.len() == 0 {
        0
    } else {
        item_count(turns.drop_last()) + turns.last().items@.len()
    }
}

proof fn lemma_item_count_update(turns: Seq<AgentSessionTurn>, i: int, t: AgentSessionTurn)
    requires
        0 <= i < turns.len(),
        t.items@.len() == turns[i].items@.len() + 1,
    ensures
        item_count(turns.update(i, t)) == item_count(turns) + 1,
    decreases turns.len(),
{
    if i < turns.len() - 1 {
        assert(turns.update(i, t).drop_last() == turns.drop_last().update(i, t));
        lemma_item_count_update(turns.drop_last(), i, t);
    } else {
        assert(turns.update(i, t).drop_last() == turns.drop_last());
    }
}

/// Counts the items of all turns, saturating at `MAX_ITEMS`.
fn count_items_capped(turns: &Vec<AgentSessionTurn>) -> (r: usize)
    ensures
        r == (if item_count(turns@) >= MAX_ITEMS {
            MAX_ITEMS as nat
        } else {
            item_count(turns@)
        }),
{
    let mut total: usize = 0;
    let mut i: usize = 0;
    while i < turns.len()
        invariant
            i <= turns.len(),
            total <= MAX_ITEMS,
            total == (if item_count(turns@.take(i as int)) >= MAX_ITEMS {
                MAX_ITEMS as nat
            } else {
                item_count(turns@.take(i as int))
            }),
        decreases turns.len() - i,
    {
        assert(turns@.take(i + 1).drop_last() == turns@.take(i as int));
        let n = turns[i].items.len();
        if n >= MAX_ITEMS - total {
            total = MAX_ITEMS;
        } else {
            total = total + n;
        }
        i += 1;
    }
    assert(turns@.take(turns.len() as int) == turns@);
    total
}

/// Adds `item` to turn `turn_index`, unless the snapshot already holds
/// [`MAX_ITEMS`] items, in which case the item is dropped and the snapshot
/// is marked truncated. An added item that was itself clipped marks the
/// snapshot truncated too.
pub fn push_item(
    turns: &mut Vec<AgentSessionTurn>,
    turn_index: usize,
    item: AgentSessionItem,
    truncated: &mut bool,
)
    requires
        turn_index < old(turns).len(),
    ensures
        final(turns).len() == old(turns).len(),
        item_count(old(turns)@) >= MAX_ITEMS ==> final(turns)@ == old(turns)@ && *final(truncated),
        item_count(old(turns)@) < MAX_ITEMS ==> {
            &&& final(turns)@[turn_index as int].items@ == old(turns)@[turn_index as int].items@.push(
                item,
            )
            &&& final(turns)@[turn_index as int].id == old(turns)@[turn_index as int].id
            &&& final(turns)@[turn_index as int].model == old(turns)@[turn_index as int].model
            &&& final(turns)@[turn_index as int].started_at == old(
                turns,
            )@[turn_index as int].started_at
            &&& final(turns)@[turn_index as int].completed_at == old(
                turns,
            )@[turn_index as int].completed_at
            &&& forall|j: int|
                0 <= j < old(turns).len() && j != turn_index ==> final(turns)@[j] == old(turns)@[j]
            &&& *final(truncated) == (*old(truncated) || item.truncated)
            &&& item_count(final(turns)@) == item_count(old(turns)@) + 1
        },
{
    if count_items_capped(turns) >= MAX_ITEMS {
        *truncated = true;
        return;
    }
    *truncated = *truncated || item.truncated;
    let mut turn = turns.remove(turn_index);
    turn.items.push(item);
    turns.insert(turn_index, turn);
    proof {
        let o = old(turns)@;
        assert(turns@ =~= o.update(turn_index as int, turn));
        lemma_item_count_update(o, turn_index as int, turn);
    }
}

// ---------------------------------------------------------------------------
// Child tasks
// ---------------------------------------------------------------------------

/// The dispatches whose prompt is exactly `prompt`.
pub open spec fn matching_dispatches(prompt: Seq<char>, dispatches: Seq<CodexSpawnDispatch>) -> Seq<
    CodexSpawnDispatch,
> {
    dispatches.filter(prompt_is(prompt))
}

/// The predicate "carries exactly `prompt`".
pub open spec fn prompt_is(prompt: Seq<char>) -> spec_fn(CodexSpawnDispatch) -> bool {
    |d: CodexSpawnDispatch| d.prompt@ == prompt
}

/// Child-task metadata for a sub-agent that received `prompt`. The dispatch
/// options are taken over only when exactly one dispatch carried that very
/// prompt, and never for a clipped prompt.
pub fn child_task_from_dispatches(
    prompt: &str,
    prompt_truncated: bool,
    dispatches: &Vec<CodexSpawnDispatch>,
) -> (task: AgentSessionChildTask)
    ensures
        task.prompt@ == prompt@,
        ({
            let m = matching_dispatches(prompt@, dispatches@);
            if !prompt_truncated && m.len() == 1 {
                task.agent_type == m[0].agent_type && task.fork_context == m[0].fork_context
            } else {
                task.agent_type is None && task.fork_context is None
            }
        }),
{
    let mut task = AgentSessionChildTask { prompt: owned(prompt), agent_type: None, fork_context: None };
    if prompt_truncated {
        return task;
    }
    let ghost p = prompt@;
    let mut found: Option<usize> = None;
    let mut count: usize = 0;
    let mut i: usize = 0;
    while i < dispatches.len()
        invariant
            i <= dispatches.len(),
            p == prompt@,
            count as nat == matching_dispatches(p, dispatches@.take(i as int)).len(),
            count <= i,
            count >= 1 ==> (found matches Some(k) && k < i && matching_dispatches(
                p,
                dispatches@.take(i as int),
            )[0] == dispatches@[k as int]),
        decreases dispatches.len() - i,
    {
        proof {
            assert(dispatches@.take(i + 1).drop_last() == dispatches@.take(i as int));
            reveal_with_fuel(Seq::filter, 1);
            if count >= 1 {
                lemma_filter_first_stable(dispatches@.take(i + 1), prompt_is(p));
            }
        }
        if str_eq(dispatches[i].prompt.as_str(), prompt) {
            if count == 0 {
                found = Some(i);
            }
            count = count + 1;
        }
        i += 1;
    }
    assert(dispatches@.take(dispatches.len() as int) == dispatches@);
    if count == 1 {
        match found {
            Some(k) => {
                task.agent_type = dispatches[k].agent_type.clone();
                task.fork_context = dispatches[k].fork_context;
            },
            None => {},
        }
    }
    task
}

/// Extending a sequence keeps the first element of its filter.
proof fn lemma_filter_first_stable<A>(s: Seq<A>, p: spec_fn(A) -> bool)
    requires
        s.len() > 0,
        s.drop_last().filter(p).len() >= 1,
    ensures
        s.filter(p).len() >= 1,
        s.filter(p)[0] == s.drop_last().filter(p)[0],
{
    reveal_with_fuel(Seq::filter, 1);
}

} // verus!
