//! Assembly of session transcripts from the records that command-line
//! agents store: Codex rollout lines, Pi session lines and OpenCode message
//! parts. Each record arrives as plain values (the fields the assembly
//! reads); the assembly groups items into turns, clips long texts and
//! values, pairs tool calls with their outputs, and caps the number of
//! items of a snapshot.
use vstd::prelude::*;

use crate::sessions::{
    AgentSessionItem, AgentSessionItemKind, AgentSessionTurn, MAX_ITEMS, MAX_VALUE_CHARS, item_count,
    push_item, truncate_text, truncated_text,
};
use crate::acp_compat::{json_parsed, json_written, parse_json, write_json, JsonValue, JsonView};
use crate::text::{chars_of, owned, push_decimal, push_str, decimal};

verus! {

// ---------------------------------------------------------------------------
// Views
// ---------------------------------------------------------------------------

/// The text of an optional string.
pub open spec fn opt_view(o: Option<String>) -> Option<Seq<char>> {
    match o {
        Some(s) => Some(s@),
        None => None,
    }
}

/// The abstract value of a transcript item.
pub struct ItemView {
    pub kind: AgentSessionItemKind,
    pub id: Option<Seq<char>>,
    pub name: Option<Seq<char>>,
    pub text: Option<Seq<char>>,
    pub input: Option<Seq<char>>,
    pub output: Option<Seq<char>>,
    pub status: Option<Seq<char>>,
    pub timestamp: Option<Seq<char>>,
    pub truncated: bool,
}

/// The abstract value of a turn.
pub struct TurnView {
    pub id: Seq<char>,
    pub model: Option<Seq<char>>,
    pub started_at: Option<Seq<char>>,
    pub completed_at: Option<Seq<char>>,
    pub items: Seq<ItemView>,
}

pub open spec fn item_view(i: AgentSessionItem) -> ItemView {
    ItemView {
        kind: i.kind,
        id: opt_view(i.id),
        name: opt_view(i.name),
        text: opt_view(i.text),
        input: opt_view(i.input),
        output: opt_view(i.output),
        status: opt_view(i.status),
        timestamp: opt_view(i.timestamp),
        truncated: i.truncated,
    }
}

pub open spec fn item_view_fn() -> spec_fn(AgentSessionItem) -> ItemView {
    |i: AgentSessionItem| item_view(i)
}

pub open spec fn turn_view(t: AgentSessionTurn) -> TurnView {
    TurnView {
        id: t.id@,
        model: opt_view(t.model),
        started_at: opt_view(t.started_at),
        completed_at: opt_view(t.completed_at),
        items: t.items@.map_values(item_view_fn()),
    }
}

pub open spec fn turn_view_fn() -> spec_fn(AgentSessionTurn) -> TurnView {
    |t: AgentSessionTurn| turn_view(t)
}

/// The abstract turns of a transcript.
pub open spec fn turns_view(ts: Seq<AgentSessionTurn>) -> Seq<TurnView> {
    ts.map_values(turn_view_fn())
}

/// The number of items over all abstract turns.
pub open spec fn view_item_count(turns: Seq<TurnView>) -> nat
    decreases turns.len(),
{
    if turns.len() == 0 {
        0
    } else {
        view_item_count(turns.drop_last()) + turns.last().items.len()
    }
}

proof fn lemma_item_count_view(ts: Seq<AgentSessionTurn>)
    ensures
        view_item_count(turns_view(ts)) == item_count(ts),
    decreases ts.len(),
{
    if ts.len() > 0 {
        lemma_item_count_view(ts.drop_last());
        assert(turns_view(ts).drop_last() =~= turns_view(ts.drop_last()));
    }
}

/// Adding `item` to turn `ti`: dropped, with the transcript marked
/// truncated, once [`MAX_ITEMS`] items are held; else appended, and a
/// clipped item marks the transcript truncated.
pub open spec fn pushed(turns: Seq<TurnView>, ti: int, item: ItemView, truncated: bool) -> (
    Seq<TurnView>,
    bool,
) {
    if view_item_count(turns) >= MAX_ITEMS {
        (turns, true)
    } else {
        (
            turns.update(ti, TurnView { items: turns[ti].items.push(item), ..turns[ti] }),
            truncated || item.truncated,
        )
    }
}

/// [`push_item`] over abstract turns.
fn push_view_item(
    turns: &mut Vec<AgentSessionTurn>,
    ti: usize,
    item: AgentSessionItem,
    truncated: &mut bool,
)
    requires
        ti < old(turns).len(),
    ensures
        (turns_view(final(turns)@), *final(truncated)) == pushed(
            turns_view(old(turns)@),
            ti as int,
            item_view(item),
            *old(truncated),
        ),
{
    let ghost o = old(turns)@;
    let ghost iv = item_view(item);
    proof {
        lemma_item_count_view(o);
    }
    push_item(turns, ti, item, truncated);
    proof {
        let ov = turns_view(o);
        if item_count(o) < MAX_ITEMS {
            let nt = TurnView { items: ov[ti as int].items.push(iv), ..ov[ti as int] };
            assert(turns@[ti as int].items@.map_values(item_view_fn()) =~= o[ti as int].items@.map_values(
                item_view_fn(),
            ).push(iv));
            assert(turns_view(turns@) =~= ov.update(ti as int, nt));
        }
    }
}

// ---------------------------------------------------------------------------
// Clipping JSON values
// ---------------------------------------------------------------------------

/// The stored form of the JSON text `raw`: text that is not JSON stays as
/// it is; a JSON string whose content is itself JSON is replaced by that
/// content, written compactly (other strings are written as strings); any
/// other value is written compactly.
pub open spec fn stored_json(raw: Seq<char>) -> Seq<char> {
    match json_parsed(raw) {
        None => raw,
        Some(JsonView::Str(t)) => match json_parsed(t) {
            Some(inner) => json_written(inner),
            None => json_written(JsonView::Str(t)),
        },
        Some(v) => json_written(v),
    }
}

/// Normalizes the JSON text of a stored value (see [`stored_json`]).
pub fn normalize_stored_json(raw: &str) -> (r: String)
    ensures
        r@ == stored_json(raw@),
{
    match parse_json(raw) {
        Err(_) => owned(raw),
        Ok(JsonValue::Str(t)) => match parse_json(t.as_str()) {
            Ok(inner) => write_json(&inner),
            Err(_) => write_json(&JsonValue::Str(t)),
        },
        Ok(v) => write_json(&v),
    }
}

/// The stored form of a value given by its JSON text: the normalized text
/// when it has at most [`MAX_VALUE_CHARS`] characters, else the JSON object
/// `{"preview":…,"truncated":true}` around the clipped text; the flag says
/// whether it was clipped.
pub open spec fn clipped_spec(raw: Option<Seq<char>>) -> (Option<Seq<char>>, bool) {
    match raw {
        None => (None, false),
        Some(r) => {
            let v = stored_json(r);
            if v.len() <= MAX_VALUE_CHARS {
                (Some(v), false)
            } else {
                (
                    Some(
                        "{\"preview\":"@ + json_written(JsonView::Str(truncated_text(v).0)) + ",\"truncated\":true}"@,
                    ),
                    true,
                )
            }
        },
    }
}

/// Clips a stored value (see [`clipped_spec`]).
pub fn clipped_value(raw: Option<&str>) -> (r: (Option<String>, bool))
    ensures
        (opt_view(r.0), r.1) == clipped_spec(
            match raw {
                Some(s) => Some(s@),
                None => None,
            },
        ),
{
    match raw {
        None => (None, false),
        Some(r) => {
            let v = normalize_stored_json(r);
            let n = chars_of(v.as_str()).len();
            if n <= MAX_VALUE_CHARS {
                (Some(v), false)
            } else {
                let (preview, _) = truncate_text(v.as_str());
                let mut out = owned("{\"preview\":");
                let q = write_json(&JsonValue::Str(preview));
                push_str(&mut out, q.as_str());
                push_str(&mut out, ",\"truncated\":true}");
                (Some(out), true)
            }
        },
    }
}

// ---------------------------------------------------------------------------
// Items
// ---------------------------------------------------------------------------

/// A text item of `kind` holding `text` clipped, at `timestamp`.
pub open spec fn text_item_spec(
    kind: AgentSessionItemKind,
    text: Seq<char>,
    timestamp: Option<Seq<char>>,
) -> ItemView {
    ItemView {
        kind,
        id: None,
        name: None,
        text: Some(truncated_text(text).0),
        input: None,
        output: None,
        status: None,
        timestamp,
        truncated: truncated_text(text).1,
    }
}

/// The text item of `kind` for `text` (see [`text_item_spec`]).
pub fn text_item(kind: AgentSessionItemKind, text: &str, timestamp: Option<String>) -> (r:
    AgentSessionItem)
    ensures
        item_view(r) == text_item_spec(kind, text@, opt_view(timestamp)),
{
    let (t, truncated) = truncate_text(text);
    AgentSessionItem {
        kind,
        id: None,
        name: None,
        text: Some(t),
        input: None,
        output: None,
        status: None,
        timestamp,
        truncated,
    }
}

/// A copy of an optional string.
pub fn copy_opt(o: &Option<String>) -> (r: Option<String>)
    ensures
        opt_view(r) == opt_view(*o),
{
    match o {
        Some(s) => Some(owned(s.as_str())),
        None => None,
    }
}

/// `"turn-<n>"`, the name of the `n`-th turn when its record names none.
pub open spec fn turn_name(n: nat) -> Seq<char> {
    "turn-"@ + decimal(n)
}

/// The name of the next turn of `turns`.
fn next_turn_name(count: usize) -> (r: String)
    requires
        count < usize::MAX,
    ensures
        r@ == turn_name((count + 1) as nat),
{
    let mut s = owned("turn-");
    push_decimal(&mut s, (count + 1) as u64);
    s
}

/// An empty turn.
pub open spec fn new_turn(id: Seq<char>, started_at: Option<Seq<char>>) -> TurnView {
    TurnView { id, model: None, started_at, completed_at: None, items: Seq::empty() }
}

/// A fresh empty turn.
fn empty_turn(id: String, started_at: Option<String>) -> (t: AgentSessionTurn)
    ensures
        turn_view(t) == new_turn(id@, opt_view(started_at)),
{
    let t = AgentSessionTurn { id, model: None, started_at, completed_at: None, items: Vec::new() };
    assert(t.items@.map_values(item_view_fn()) =~= Seq::<ItemView>::empty());
    t
}

/// Appends a turn.
fn push_turn(turns: &mut Vec<AgentSessionTurn>, t: AgentSessionTurn)
    ensures
        turns_view(final(turns)@) == turns_view(old(turns)@).push(turn_view(t)),
{
    turns.push(t);
    assert(turns_view(turns@) =~= turns_view(old(turns)@).push(turn_view(t)));
}

/// Replaces the model of turn `ti`.
fn set_model(turns: &mut Vec<AgentSessionTurn>, ti: usize, model: Option<String>)
    requires
        ti < old(turns).len(),
    ensures
        turns_view(final(turns)@) == turns_view(old(turns)@).update(
            ti as int,
            TurnView { model: opt_view(model), ..turns_view(old(turns)@)[ti as int] },
        ),
{
    let mut t = turns.remove(ti);
    t.model = model;
    turns.insert(ti, t);
    assert(turns_view(turns@) =~= turns_view(old(turns)@).update(
        ti as int,
        TurnView { model: opt_view(model), ..turns_view(old(turns)@)[ti as int] },
    ));
}

/// Replaces the completion time of turn `ti`.
fn set_completed(turns: &mut Vec<AgentSessionTurn>, ti: usize, at: Option<String>)
    requires
        ti < old(turns).len(),
    ensures
        turns_view(final(turns)@) == turns_view(old(turns)@).update(
            ti as int,
            TurnView { completed_at: opt_view(at), ..turns_view(old(turns)@)[ti as int] },
        ),
{
    let mut t = turns.remove(ti);
    t.completed_at = at;
    turns.insert(ti, t);
    assert(turns_view(turns@) =~= turns_view(old(turns)@).update(
        ti as int,
        TurnView { completed_at: opt_view(at), ..turns_view(old(turns)@)[ti as int] },
    ));
}

/// Item `ii` of turn `tt` with its tool output recorded.
pub open spec fn with_output(
    turns: Seq<TurnView>,
    tt: int,
    ii: int,
    output: Option<Seq<char>>,
    status: Seq<char>,
    clipped: bool,
) -> Seq<TurnView> {
    let it = turns[tt].items[ii];
    turns.update(
        tt,
        TurnView {
            items: turns[tt].items.update(
                ii,
                ItemView { output, status: Some(status), truncated: it.truncated || clipped, ..it },
            ),
            ..turns[tt]
        },
    )
}

/// Records the output of the tool call at item `ii` of turn `tt`.
fn record_output(
    turns: &mut Vec<AgentSessionTurn>,
    tt: usize,
    ii: usize,
    output: Option<String>,
    status: String,
    clipped: bool,
)
    requires
        tt < old(turns).len(),
        ii < old(turns)@[tt as int].items.len(),
    ensures
        turns_view(final(turns)@) == with_output(
            turns_view(old(turns)@),
            tt as int,
            ii as int,
            opt_view(output),
            status@,
            clipped,
        ),
{
    let mut t = turns.remove(tt);
    let mut it = t.items.remove(ii);
    it.output = output;
    it.status = Some(status);
    it.truncated = it.truncated || clipped;
    t.items.insert(ii, it);
    turns.insert(tt, t);
    proof {
        let ov = turns_view(old(turns)@);
        assert(turns@[tt as int].items@.map_values(item_view_fn()) =~= ov[tt as int].items.update(
            ii as int,
            ItemView {
                output: opt_view(output),
                status: Some(status@),
                truncated: ov[tt as int].items[ii as int].truncated || clipped,
                ..ov[tt as int].items[ii as int]
            },
        ));
        assert(turns_view(turns@) =~= with_output(ov, tt as int, ii as int, opt_view(output), status@, clipped));
    }
}

// ---------------------------------------------------------------------------
// Tool-call positions
// ---------------------------------------------------------------------------

/// The position recorded last for tool call `id` among `tools`.
pub open spec fn tool_position(tools: Seq<(Seq<char>, int, int)>, id: Seq<char>) -> Option<(int, int)>
    decreases tools.len(),
{
    if tools.len() == 0 {
        None
    } else if tools.last().0 == id {
        Some((tools.last().1, tools.last().2))
    } else {
        tool_position(tools.drop_last(), id)
    }
}

/// The abstract positions of tool calls.
pub open spec fn tools_view(tools: Seq<(String, usize, usize)>) -> Seq<(Seq<char>, int, int)> {
    tools.map_values(|t: (String, usize, usize)| (t.0@, t.1 as int, t.2 as int))
}

/// Looks up the position recorded last for tool call `id`.
fn find_tool(tools: &Vec<(String, usize, usize)>, id: &str) -> (r: Option<(usize, usize)>)
    ensures
        match r {
            Some((a, b)) => tool_position(tools_view(tools@), id@) == Some((a as int, b as int)),
            None => tool_position(tools_view(tools@), id@) is None,
        },
{
    let mut k = tools.len();
    assert(tools@.take(k as int) =~= tools@);
    while k > 0
        invariant
            k <= tools.len(),
            tool_position(tools_view(tools@), id@) == tool_position(tools_view(tools@.take(k as int)), id@),
        decreases k,
    {
        proof {
            assert(tools_view(tools@.take(k as int)).drop_last() =~= tools_view(tools@.take(k - 1)));
            assert(tools_view(tools@.take(k as int)).last() == (tools@[k - 1].0@, tools@[k - 1].1 as int, tools@[k - 1].2 as int));
        }
        if crate::text::str_eq(tools[k - 1].0.as_str(), id) {
            return Some((tools[k - 1].1, tools[k - 1].2));
        }
        k -= 1;
    }
    proof {
        assert(tools_view(tools@.take(0)) =~= Seq::<(Seq<char>, int, int)>::empty());
    }
    None
}

/// Records the position of tool call `id`.
fn push_tool(tools: &mut Vec<(String, usize, usize)>, id: String, tt: usize, ii: usize)
    ensures
        tools_view(final(tools)@) == tools_view(old(tools)@).push((id@, tt as int, ii as int)),
{
    tools.push((id, tt, ii));
    assert(tools_view(tools@) =~= tools_view(old(tools)@).push((id@, tt as int, ii as int)));
}

// ---------------------------------------------------------------------------
// Assembly state
// ---------------------------------------------------------------------------

/// The text of an optional field, empty when absent.
pub open spec fn text_or_empty(o: Option<Seq<char>>) -> Seq<char> {
    match o {
        Some(s) => s,
        None => Seq::empty(),
    }
}

/// The first of two optional values that is present.
pub open spec fn first_some(a: Option<Seq<char>>, b: Option<Seq<char>>) -> Option<Seq<char>> {
    match a {
        Some(x) => Some(x),
        None => b,
    }
}

/// The state of a transcript under assembly: its turns, the positions of
/// the tool calls seen so far, and whether anything was clipped or dropped.
pub struct TranscriptState {
    turns: Vec<AgentSessionTurn>,
    tools: Vec<(String, usize, usize)>,
    truncated: bool,
}

/// The abstract state of an assembly.
pub struct StateView {
    pub turns: Seq<TurnView>,
    pub tools: Seq<(Seq<char>, int, int)>,
    pub truncated: bool,
}

/// The state before the first record.
pub open spec fn initial_state() -> StateView {
    StateView { turns: Seq::empty(), tools: Seq::empty(), truncated: false }
}

impl View for TranscriptState {
    type V = StateView;

    closed spec fn view(&self) -> StateView {
        StateView {
            turns: turns_view(self.turns@),
            tools: tools_view(self.tools@),
            truncated: self.truncated,
        }
    }
}

impl TranscriptState {
    /// The state before the first record.
    pub fn new() -> (s: Self)
        ensures
            s@ == initial_state(),
    {
        let s = TranscriptState { turns: Vec::new(), tools: Vec::new(), truncated: false };
        assert(s@.turns =~= Seq::<TurnView>::empty());
        assert(s@.tools =~= Seq::<(Seq<char>, int, int)>::empty());
        s
    }

    /// The number of turns so far.
    pub fn turn_count(&self) -> (n: usize)
        ensures
            n == self@.turns.len(),
    {
        self.turns.len()
    }

    /// The assembled turns and whether anything was clipped or dropped.
    pub fn finish(self) -> (r: (Vec<AgentSessionTurn>, bool))
        ensures
            turns_view(r.0@) == self@.turns,
            r.1 == self@.truncated,
    {
        (self.turns, self.truncated)
    }
}

// ---------------------------------------------------------------------------
// Codex rollouts
// ---------------------------------------------------------------------------

/// One line of a Codex rollout, by the fields the assembly reads: text
/// fields hold JSON strings only; `arguments`, `input` and `output` hold the
/// JSON text of the payload's value under that key.
#[derive(Debug, Clone)]
pub struct CodexRolloutEntry {
    pub timestamp: Option<String>,
    pub entry_type: Option<String>,
    pub payload_type: Option<String>,
    pub turn_id: Option<String>,
    pub started_at: Option<String>,
    pub model: Option<String>,
    pub message: Option<String>,
    pub text: Option<String>,
    pub call_id: Option<String>,
    /// The payload's `id`, read only when the payload has no `call_id` key
    /// at all (a `call_id` that is not a string gives a call without id).
    pub id: Option<String>,
    pub name: Option<String>,
    pub arguments: Option<String>,
    pub input: Option<String>,
    pub output: Option<String>,
    /// The decoded arguments of a call whose `arguments` value is a JSON
    /// string holding a JSON object.
    pub spawn: Option<SpawnArguments>,
}

/// The fields of `spawn_agent` call arguments the dispatch metadata reads.
#[derive(Debug, Clone)]
pub struct SpawnArguments {
    pub message: Option<String>,
    pub agent_type: Option<String>,
    pub fork_context: Option<bool>,
}

/// The abstract value of a rollout line.
pub struct CodexEntryView {
    pub timestamp: Option<Seq<char>>,
    pub entry_type: Seq<char>,
    pub payload_type: Seq<char>,
    pub turn_id: Option<Seq<char>>,
    pub started_at: Option<Seq<char>>,
    pub model: Option<Seq<char>>,
    pub message: Option<Seq<char>>,
    pub text: Option<Seq<char>>,
    pub call_id: Option<Seq<char>>,
    pub id: Option<Seq<char>>,
    pub name: Option<Seq<char>>,
    pub arguments: Option<Seq<char>>,
    pub input: Option<Seq<char>>,
    pub output: Option<Seq<char>>,
}

impl View for CodexRolloutEntry {
    type V = CodexEntryView;

    open spec fn view(&self) -> CodexEntryView {
        CodexEntryView {
            timestamp: opt_view(self.timestamp),
            entry_type: text_or_empty(opt_view(self.entry_type)),
            payload_type: text_or_empty(opt_view(self.payload_type)),
            turn_id: opt_view(self.turn_id),
            started_at: opt_view(self.started_at),
            model: opt_view(self.model),
            message: opt_view(self.message),
            text: opt_view(self.text),
            call_id: opt_view(self.call_id),
            id: opt_view(self.id),
            name: opt_view(self.name),
            arguments: opt_view(self.arguments),
            input: opt_view(self.input),
            output: opt_view(self.output),
        }
    }
}

/// The turns before a record of the current turn: a first turn `turn-1` is
/// opened when there is none yet.
pub open spec fn with_current_turn(turns: Seq<TurnView>, timestamp: Option<Seq<char>>) -> Seq<TurnView> {
    if turns.len() == 0 {
        seq![new_turn("turn-1"@, timestamp)]
    } else {
        turns
    }
}

/// A tool-call item.
pub open spec fn tool_call_item(
    id: Option<Seq<char>>,
    name: Option<Seq<char>>,
    raw_input: Option<Seq<char>>,
    timestamp: Option<Seq<char>>,
) -> ItemView {
    ItemView {
        kind: AgentSessionItemKind::ToolCall,
        id,
        name,
        text: None,
        input: clipped_spec(raw_input).0,
        output: None,
        status: Some("running"@),
        timestamp,
        truncated: clipped_spec(raw_input).1,
    }
}

/// Adds the tool call `item` to turn `ti` and records its position under
/// its id.
pub open spec fn add_tool_call(s: StateView, turns: Seq<TurnView>, ti: int, item: ItemView) -> StateView {
    let ii = turns[ti].items.len() as int;
    let (t2, tr) = pushed(turns, ti, item, s.truncated);
    StateView {
        turns: t2,
        tools: match item.id {
            Some(x) => s.tools.push((x, ti, ii)),
            None => s.tools,
        },
        truncated: tr,
    }
}

/// Records the output of tool call `id`, when its call was seen and kept.
pub open spec fn add_tool_output(
    s: StateView,
    turns: Seq<TurnView>,
    id: Seq<char>,
    raw_output: Option<Seq<char>>,
    status: Seq<char>,
) -> StateView {
    match tool_position(s.tools, id) {
        Some((tt, ii)) => if 0 <= tt < turns.len() && 0 <= ii < turns[tt].items.len() {
            let (out, clipped) = clipped_spec(raw_output);
            StateView {
                turns: with_output(turns, tt, ii, out, status, clipped),
                tools: s.tools,
                truncated: s.truncated || clipped,
            }
        } else {
            StateView { turns, ..s }
        },
        None => StateView { turns, ..s },
    }
}

/// What one rollout line does to the assembly: `task_started` events open
/// a turn; other lines belong to the current turn (opened as `turn-1` when
/// none is open): a turn context sets its model, message and reasoning
/// events add text items, completion and abort events close it, function
/// calls add tool-call items and their outputs complete them.
pub open spec fn codex_step(s: StateView, e: CodexEntryView) -> StateView {
    let et = e.entry_type;
    let pt = e.payload_type;
    if et == "event_msg"@ && pt == "task_started"@ {
        let id = match e.turn_id {
            Some(t) => t,
            None => turn_name(s.turns.len() + 1),
        };
        StateView { turns: s.turns.push(new_turn(id, first_some(e.started_at, e.timestamp))), ..s }
    } else {
        let turns = with_current_turn(s.turns, e.timestamp);
        let ti = turns.len() - 1;
        if et == "turn_context"@ {
            StateView { turns: turns.update(ti, TurnView { model: e.model, ..turns[ti] }), ..s }
        } else if et == "event_msg"@ {
            if pt == "user_message"@ || pt == "agent_message"@ || pt == "agent_reasoning"@ {
                let kind = if pt == "user_message"@ {
                    AgentSessionItemKind::UserMessage
                } else if pt == "agent_message"@ {
                    AgentSessionItemKind::AgentMessage
                } else {
                    AgentSessionItemKind::Thinking
                };
                let source = if pt == "agent_reasoning"@ {
                    e.text
                } else {
                    e.message
                };
                match source {
                    Some(t) => {
                        let (t2, tr) = pushed(turns, ti, text_item_spec(kind, t, e.timestamp), s.truncated);
                        StateView { turns: t2, tools: s.tools, truncated: tr }
                    },
                    None => StateView { turns, ..s },
                }
            } else if pt == "task_complete"@ || pt == "turn_aborted"@ {
                StateView {
                    turns: turns.update(ti, TurnView { completed_at: e.timestamp, ..turns[ti] }),
                    ..s
                }
            } else {
                StateView { turns, ..s }
            }
        } else if et == "response_item"@ {
            if pt == "function_call"@ || pt == "custom_tool_call"@ {
                add_tool_call(
                    s,
                    turns,
                    ti,
                    tool_call_item(
                        first_some(e.call_id, e.id),
                        e.name,
                        first_some(e.arguments, e.input),
                        e.timestamp,
                    ),
                )
            } else if pt == "function_call_output"@ || pt == "custom_tool_call_output"@ {
                add_tool_output(s, turns, text_or_empty(e.call_id), e.output, "completed"@)
            } else {
                StateView { turns, ..s }
            }
        } else {
            StateView { turns, ..s }
        }
    }
}

/// The assembly of a whole rollout.
pub open spec fn codex_fold(entries: Seq<CodexEntryView>) -> StateView
    decreases entries.len(),
{
    if entries.len() == 0 {
        initial_state()
    } else {
        codex_step(codex_fold(entries.drop_last()), entries.last())
    }
}

/// The message and reasoning events of a rollout become items of their own
/// kind: a `user_message` event adds a user message and an `agent_message`
/// event an agent message, each holding the event's message, and an
/// `agent_reasoning` event adds a thinking item holding the event's text
/// (clipped when long). The item is appended to the current turn (a first
/// turn is opened when there is none) while the transcript has room, and
/// nothing else changes.
pub proof fn law_text_events_add_items_of_their_kind(s: StateView, e: CodexEntryView)
    requires
        e.entry_type == "event_msg"@,
        e.payload_type == "user_message"@ || e.payload_type == "agent_message"@ || e.payload_type
            == "agent_reasoning"@,
        (if e.payload_type == "agent_reasoning"@ {
            e.text
        } else {
            e.message
        }) is Some,
        view_item_count(with_current_turn(s.turns, e.timestamp)) < MAX_ITEMS,
    ensures
        ({
            let before = with_current_turn(s.turns, e.timestamp);
            let k = before.len() - 1;
            let r = codex_step(s, e);
            let item = r.turns[k].items.last();
            &&& before.len() >= 1
            &&& r.turns.len() == before.len()
            &&& forall|j: int| 0 <= j < k ==> #[trigger] r.turns[j] == before[j]
            &&& r.turns[k].items.len() == before[k].items.len() + 1
            &&& r.turns[k].items.drop_last() == before[k].items
            &&& r.turns[k].id == before[k].id
            &&& r.tools == s.tools
            &&& e.payload_type == "agent_reasoning"@ ==> item.kind == AgentSessionItemKind::Thinking
                && item.text == Some(truncated_text(e.text->0).0)
            &&& e.payload_type == "agent_message"@ ==> item.kind == AgentSessionItemKind::AgentMessage
                && item.text == Some(truncated_text(e.message->0).0)
            &&& e.payload_type == "user_message"@ ==> item.kind == AgentSessionItemKind::UserMessage
                && item.text == Some(truncated_text(e.message->0).0)
            &&& item.kind == AgentSessionItemKind::AgentMessage ==> e.payload_type == "agent_message"@
            &&& (e.payload_type == "agent_reasoning"@ && e.text->0.len() <= MAX_VALUE_CHARS) ==> item.text
                == e.text
        }),
{
    reveal_strlit("task_started");
    reveal_strlit("user_message");
    reveal_strlit("agent_message");
    reveal_strlit("agent_reasoning");
    reveal_strlit("event_msg");
    reveal_strlit("turn_context");
    let before = with_current_turn(s.turns, e.timestamp);
    let k = before.len() - 1;
    let r = codex_step(s, e);
    assert(before.len() >= 1);
    assert("task_started"@.len() == 12);
    assert("user_message"@.len() == 12);
    assert("user_message"@[0] != "task_started"@[0]);
    assert("agent_message"@.len() == 13);
    assert("agent_reasoning"@.len() == 15);
    assert("event_msg"@.len() == 9);
    assert("turn_context"@.len() == 12);
    assert(e.payload_type != "task_started"@);
    assert("event_msg"@ != "turn_context"@);
    let pt = e.payload_type;
    let kind = if pt == "user_message"@ {
        AgentSessionItemKind::UserMessage
    } else if pt == "agent_message"@ {
        AgentSessionItemKind::AgentMessage
    } else {
        AgentSessionItemKind::Thinking
    };
    let t = if pt == "agent_reasoning"@ {
        e.text->0
    } else {
        e.message->0
    };
    let item = text_item_spec(kind, t, e.timestamp);
    assert(r.turns == before.update(k, TurnView { items: before[k].items.push(item), ..before[k] }));
    assert(r.turns[k].items == before[k].items.push(item));
    assert(r.turns[k].items.drop_last() =~= before[k].items);
    assert(pt == "agent_reasoning"@ ==> pt != "agent_message"@ && pt != "user_message"@);
    assert(pt == "user_message"@ ==> pt != "agent_message"@);
}

/// The first of two optional strings that is present, moved.
fn take_first(a: Option<String>, b: Option<String>) -> (r: Option<String>)
    ensures
        opt_view(r) == first_some(opt_view(a), opt_view(b)),
{
    match a {
        Some(x) => Some(x),
        None => b,
    }
}

/// The text of an optional string, empty when absent.
fn str_or_empty(o: &Option<String>) -> (r: &str)
    ensures
        r@ == text_or_empty(opt_view(*o)),
{
    match o {
        Some(s) => s.as_str(),
        None => {
            proof {
                reveal_strlit("");
            }
            ""
        },
    }
}

impl TranscriptState {
    /// Opens the first turn when none is open; returns the current turn.
    fn current_turn(&mut self, timestamp: &Option<String>) -> (ti: usize)
        ensures
            final(self)@ == (StateView {
                turns: with_current_turn(old(self)@.turns, opt_view(*timestamp)),
                ..old(self)@
            }),
            ti == final(self)@.turns.len() - 1,
            final(self)@.turns.len() >= 1,
            final(self)@.turns.len() <= old(self)@.turns.len() + 1,
    {
        if self.turns.len() == 0 {
            let t = empty_turn(owned("turn-1"), copy_opt(timestamp));
            push_turn(&mut self.turns, t);
            assert(turns_view(self.turns@) =~= seq![new_turn("turn-1"@, opt_view(*timestamp))]);
        }
        self.turns.len() - 1
    }

    /// Adds a tool-call item to turn `ti`, recording its position.
    fn add_call(&mut self, ti: usize, item: AgentSessionItem)
        requires
            ti < old(self)@.turns.len(),
        ensures
            final(self)@ == add_tool_call(old(self)@, old(self)@.turns, ti as int, item_view(item)),
            final(self)@.turns.len() == old(self)@.turns.len(),
    {
        let ii = self.turns[ti].items.len();
        assert(ii == old(self)@.turns[ti as int].items.len());
        let id = copy_opt(&item.id);
        push_view_item(&mut self.turns, ti, item, &mut self.truncated);
        match id {
            Some(x) => push_tool(&mut self.tools, x, ti, ii),
            None => {},
        }
    }

    /// Completes the tool call `id` with `raw_output`.
    fn add_output(&mut self, id: &str, raw_output: Option<&str>, status: &str)
        ensures
            final(self)@ == add_tool_output(
                old(self)@,
                old(self)@.turns,
                id@,
                match raw_output {
                    Some(o) => Some(o@),
                    None => None,
                },
                status@,
            ),
            final(self)@.turns.len() == old(self)@.turns.len(),
    {
        let ghost s0 = self@;
        match find_tool(&self.tools, id) {
            Some((tt, ii)) => {
                proof {
                    if tt < self.turns@.len() {
                        assert(s0.turns[tt as int] == turn_view(self.turns@[tt as int]));
                        assert(s0.turns[tt as int].items.len() == self.turns@[tt as int].items@.len());
                    }
                }
                let ghost ro: Option<Seq<char>> = match raw_output {
                    Some(o) => Some(o@),
                    None => None,
                };
                assert(tool_position(s0.tools, id@) == Some((tt as int, ii as int)));
                if tt < self.turns.len() && ii < self.turns[tt].items.len() {
                    let (out, clipped) = clipped_value(raw_output);
                    record_output(&mut self.turns, tt, ii, out, owned(status), clipped);
                    self.truncated = self.truncated || clipped;
                    assert(self@.turns == with_output(s0.turns, tt as int, ii as int, clipped_spec(ro).0, status@, clipped_spec(ro).1));
                    assert(self@ == add_tool_output(s0, s0.turns, id@, ro, status@));
                } else {
                    assert(self@ == add_tool_output(s0, s0.turns, id@, ro, status@));
                }
            },
            None => {
                assert(self@ == s0);
            },
        }
    }

    /// Feeds one rollout line (see [`codex_step`]).
    pub fn apply_codex_entry(&mut self, e: CodexRolloutEntry)
        requires
            old(self)@.turns.len() < usize::MAX,
        ensures
            final(self)@ == codex_step(old(self)@, e@),
            final(self)@.turns.len() <= old(self)@.turns.len() + 1,
    {
        let ghost ev = e@;
        let et = str_or_empty(&e.entry_type);
        let pt = str_or_empty(&e.payload_type);
        if crate::text::str_eq(et, "event_msg") && crate::text::str_eq(pt, "task_started") {
            let id = match e.turn_id {
                Some(t) => t,
                None => next_turn_name(self.turns.len()),
            };
            let started = take_first(e.started_at, e.timestamp);
            let t = empty_turn(id, started);
            push_turn(&mut self.turns, t);
            return;
        }
        let ti = self.current_turn(&e.timestamp);
        if crate::text::str_eq(et, "turn_context") {
            set_model(&mut self.turns, ti, e.model);
            return;
        }
        if crate::text::str_eq(et, "event_msg") {
            let user = crate::text::str_eq(pt, "user_message");
            let agent = crate::text::str_eq(pt, "agent_message");
            let reasoning = crate::text::str_eq(pt, "agent_reasoning");
            if user || agent || reasoning {
                let kind = if user {
                    AgentSessionItemKind::UserMessage
                } else if agent {
                    AgentSessionItemKind::AgentMessage
                } else {
                    AgentSessionItemKind::Thinking
                };
                let source = if reasoning {
                    e.text
                } else {
                    e.message
                };
                match source {
                    Some(t) => {
                        let item = text_item(kind, t.as_str(), e.timestamp);
                        push_view_item(&mut self.turns, ti, item, &mut self.truncated);
                    },
                    None => {},
                }
            } else if crate::text::str_eq(pt, "task_complete") || crate::text::str_eq(pt, "turn_aborted") {
                set_completed(&mut self.turns, ti, e.timestamp);
            }
            return;
        }
        if crate::text::str_eq(et, "response_item") {
            if crate::text::str_eq(pt, "function_call") || crate::text::str_eq(pt, "custom_tool_call") {
                let raw = take_first(e.arguments, e.input);
                let (input, clipped) = clipped_value(
                    match &raw {
                        Some(r) => Some(r.as_str()),
                        None => None,
                    },
                );
                let item = AgentSessionItem {
                    kind: AgentSessionItemKind::ToolCall,
                    id: take_first(e.call_id, e.id),
                    name: e.name,
                    text: None,
                    input,
                    output: None,
                    status: Some(owned("running")),
                    timestamp: e.timestamp,
                    truncated: clipped,
                };
                self.add_call(ti, item);
            } else if crate::text::str_eq(pt, "function_call_output") || crate::text::str_eq(
                pt,
                "custom_tool_call_output",
            ) {
                let id = str_or_empty(&e.call_id);
                self.add_output(
                    id,
                    match &e.output {
                        Some(o) => Some(o.as_str()),
                        None => None,
                    },
                    "completed",
                );
            }
        }
    }
}

/// Assembles the turns of a Codex rollout from its lines, in order; the
/// flag says whether anything was clipped or dropped.
pub fn parse_codex_rollout(entries: Vec<CodexRolloutEntry>) -> (r: (Vec<AgentSessionTurn>, bool))
    ensures
        ({
            let f = codex_fold(entries@.map_values(|e: CodexRolloutEntry| e@));
            turns_view(r.0@) == f.turns && r.1 == f.truncated
        }),
{
    let ghost all = entries@.map_values(|e: CodexRolloutEntry| e@);
    let mut state = TranscriptState::new();
    let mut rest = entries;
    let ghost n = all.len();
    let total = rest.len();
    assert(n == total);
    assert(all.take(0) =~= Seq::<CodexEntryView>::empty());
    while rest.len() > 0
        invariant
            n == all.len(),
            n <= usize::MAX,
            rest@.len() <= n,
            forall|j: int| 0 <= j < rest@.len() ==> #[trigger] rest@[j]@ == all[n - rest@.len() + j],
            state@ == codex_fold(all.take(n - rest@.len())),
            state@.turns.len() <= n - rest@.len(),
        decreases rest.len(),
    {
        let ghost k = n - rest@.len();
        let ghost before = rest@;
        let e = rest.remove(0);
        proof {
            assert(before[0]@ == all[k]);
            assert forall|j: int| 0 <= j < rest@.len() implies #[trigger] rest@[j]@ == all[n - rest@.len() + j] by {
                assert(rest@[j] == before[j + 1]);
            }
            assert(all.take(k + 1).drop_last() =~= all.take(k));
            assert(all.take(k + 1).last() == all[k]);
        }
        state.apply_codex_entry(e);
    }
    assert(all.take(n as int) =~= all);
    state.finish()
}

// ---------------------------------------------------------------------------
// Pi sessions
// ---------------------------------------------------------------------------

/// One part of a Pi message's content array, by the fields the assembly
/// reads; `arguments` holds the JSON text of the part's arguments.
#[derive(Debug, Clone)]
pub struct PiContentPart {
    pub part_type: Option<String>,
    pub text: Option<String>,
    pub id: Option<String>,
    pub name: Option<String>,
    pub arguments: Option<String>,
}

/// The content of a Pi message: a string, an array of parts, or anything
/// else.
#[derive(Debug, Clone)]
pub enum PiContent {
    Text(String),
    Parts(Vec<PiContentPart>),
    Other,
}

/// One line of a Pi session file, by the fields the assembly reads. The
/// timestamps are the text of a JSON string or number; `content_json` is
/// the JSON text of the message content.
#[derive(Debug, Clone)]
pub struct PiSessionEntry {
    pub entry_type: Option<String>,
    pub id: Option<String>,
    pub cwd: Option<String>,
    pub model_id: Option<String>,
    pub timestamp: Option<String>,
    pub message_timestamp: Option<String>,
    pub role: Option<String>,
    pub model: Option<String>,
    pub content: Option<PiContent>,
    pub content_json: Option<String>,
    pub tool_call_id: Option<String>,
    pub is_error: Option<bool>,
}

/// The abstract value of a content part.
pub struct PiPartView {
    pub part_type: Seq<char>,
    pub text: Option<Seq<char>>,
    pub id: Option<Seq<char>>,
    pub name: Option<Seq<char>>,
    pub arguments: Option<Seq<char>>,
}

pub open spec fn part_view(p: PiContentPart) -> PiPartView {
    PiPartView {
        part_type: text_or_empty(opt_view(p.part_type)),
        text: opt_view(p.text),
        id: opt_view(p.id),
        name: opt_view(p.name),
        arguments: opt_view(p.arguments),
    }
}

pub open spec fn part_view_fn() -> spec_fn(PiContentPart) -> PiPartView {
    |p: PiContentPart| part_view(p)
}

/// The abstract content of a message.
pub enum PiContentView {
    Text(Seq<char>),
    Parts(Seq<PiPartView>),
    Other,
}

pub open spec fn content_view(c: Option<PiContent>) -> Option<PiContentView> {
    match c {
        Some(PiContent::Text(t)) => Some(PiContentView::Text(t@)),
        Some(PiContent::Parts(ps)) => Some(PiContentView::Parts(ps@.map_values(part_view_fn()))),
        Some(PiContent::Other) => Some(PiContentView::Other),
        None => None,
    }
}

/// The abstract value of a Pi session line.
pub struct PiEntryView {
    pub entry_type: Seq<char>,
    pub id: Option<Seq<char>>,
    pub cwd: Option<Seq<char>>,
    pub model_id: Option<Seq<char>>,
    pub timestamp: Option<Seq<char>>,
    pub role: Seq<char>,
    pub model: Option<Seq<char>>,
    pub content: Option<PiContentView>,
    pub content_json: Option<Seq<char>>,
    pub tool_call_id: Option<Seq<char>>,
    pub is_error: Option<bool>,
}

impl View for PiSessionEntry {
    type V = PiEntryView;

    open spec fn view(&self) -> PiEntryView {
        PiEntryView {
            entry_type: text_or_empty(opt_view(self.entry_type)),
            id: opt_view(self.id),
            cwd: opt_view(self.cwd),
            model_id: opt_view(self.model_id),
            timestamp: first_some(opt_view(self.timestamp), opt_view(self.message_timestamp)),
            role: text_or_empty(opt_view(self.role)),
            model: opt_view(self.model),
            content: content_view(self.content),
            content_json: opt_view(self.content_json),
            tool_call_id: opt_view(self.tool_call_id),
            is_error: self.is_error,
        }
    }
}

/// `parts` joined with newlines.
pub open spec fn join_lines(parts: Seq<Seq<char>>) -> Seq<char>
    decreases parts.len(),
{
    if parts.len() == 0 {
        Seq::empty()
    } else if parts.len() == 1 {
        parts[0]
    } else {
        join_lines(parts.drop_last()) + seq!['\n'] + parts.last()
    }
}

/// The texts of the `text` parts of `parts` that carry a text, in order.
pub open spec fn text_parts(parts: Seq<PiPartView>) -> Seq<Seq<char>>
    decreases parts.len(),
{
    if parts.len() == 0 {
        Seq::empty()
    } else {
        let rest = text_parts(parts.drop_last());
        let p = parts.last();
        if p.part_type == "text"@ && p.text is Some {
            rest.push(p.text.unwrap())
        } else {
            rest
        }
    }
}

/// The text of a Pi message content: the string itself, or the `text`
/// parts joined with newlines when that is not empty.
pub open spec fn pi_text_spec(c: Option<PiContentView>) -> Option<Seq<char>> {
    match c {
        Some(PiContentView::Text(t)) => Some(t),
        Some(PiContentView::Parts(ps)) => {
            let j = join_lines(text_parts(ps));
            if j.len() == 0 {
                None
            } else {
                Some(j)
            }
        },
        _ => None,
    }
}

/// The text of a Pi message content (see [`pi_text_spec`]).
pub fn pi_content_text(content: &Option<PiContent>) -> (r: Option<String>)
    ensures
        opt_view(r) == pi_text_spec(content_view(*content)),
{
    match content {
        Some(PiContent::Text(t)) => Some(owned(t.as_str())),
        Some(PiContent::Parts(ps)) => {
            let ghost pv = ps@.map_values(part_view_fn());
            let mut out = String::new();
            let mut count: usize = 0;
            let mut i: usize = 0;
            proof {
                assert(pv.take(0) =~= Seq::<PiPartView>::empty());
            }
            while i < ps.len()
                invariant
                    i <= ps.len(),
                    pv == ps@.map_values(part_view_fn()),
                    count == text_parts(pv.take(i as int)).len(),
                    count <= i,
                    out@ == join_lines(text_parts(pv.take(i as int))),
                decreases ps.len() - i,
            {
                proof {
                    assert(pv.take(i + 1).drop_last() =~= pv.take(i as int));
                    assert(pv.take(i + 1).last() == part_view(ps@[i as int]));
                }
                let p = &ps[i];
                let is_text = match &p.part_type {
                    Some(t) => crate::text::str_eq(t.as_str(), "text"),
                    None => {
                        proof {
                            reveal_strlit("text");
                            reveal_strlit("");
                        }
                        false
                    },
                };
                match &p.text {
                    Some(t) => {
                        if is_text {
                            let ghost before = text_parts(pv.take(i as int));
                            if count > 0 {
                                crate::text::push_char(&mut out, '\n');
                            }
                            push_str(&mut out, t.as_str());
                            proof {
                                let after = before.push(t@);
                                assert(after.drop_last() =~= before);
                                if count == 0 {
                                    assert(out@ =~= t@);
                                }
                            }
                            count = count + 1;
                        }
                    },
                    None => {},
                }
                i += 1;
            }
            assert(pv.take(ps.len() as int) =~= pv);
            if count == 0 {
                None
            } else {
                proof {
                    lemma_join_lines_nonempty(text_parts(pv));
                }
                if out.as_str().unicode_len() == 0 {
                    None
                } else {
                    Some(out)
                }
            }
        },
        _ => None,
    }
}

proof fn lemma_join_lines_nonempty(parts: Seq<Seq<char>>)
    ensures
        parts.len() >= 2 ==> join_lines(parts).len() > 0,
    decreases parts.len(),
{
    if parts.len() > 2 {
        lemma_join_lines_nonempty(parts.drop_last());
    }
}

/// The items an assistant's content parts add to turn `ti`: text and
/// thinking parts with a non-empty (clipped) text, and tool calls.
pub open spec fn pi_parts_step(s: StateView, ti: int, p: PiPartView, ts: Option<Seq<char>>) -> StateView {
    if p.part_type == "text"@ || p.part_type == "thinking"@ {
        let t = truncated_text(text_or_empty(p.text));
        if t.0.len() == 0 {
            s
        } else {
            let kind = if p.part_type == "thinking"@ {
                AgentSessionItemKind::Thinking
            } else {
                AgentSessionItemKind::AgentMessage
            };
            let (t2, tr) = pushed(s.turns, ti, text_item_spec(kind, text_or_empty(p.text), ts), s.truncated);
            StateView { turns: t2, tools: s.tools, truncated: tr }
        }
    } else if p.part_type == "toolCall"@ {
        add_tool_call(s, s.turns, ti, tool_call_item(p.id, p.name, p.arguments, ts))
    } else {
        s
    }
}

/// The effect of all `parts`, in order.
pub open spec fn pi_parts_fold(s: StateView, ti: int, parts: Seq<PiPartView>, ts: Option<Seq<char>>) -> StateView
    decreases parts.len(),
{
    if parts.len() == 0 {
        s
    } else {
        pi_parts_step(pi_parts_fold(s, ti, parts.drop_last(), ts), ti, parts.last(), ts)
    }
}

/// What one Pi session line does to the assembly: only message lines
/// count; a user message opens a turn (so does any message when none is
/// open) and adds its text; a tool result completes its tool call, as
/// failed when it is an error; an assistant message adds the items of its
/// content parts and closes its turn.
pub open spec fn pi_step(s: StateView, e: PiEntryView) -> StateView {
    if e.entry_type != "message"@ {
        s
    } else {
        let opened = if e.role == "user"@ || s.turns.len() == 0 {
            let id = match e.id {
                Some(x) => x,
                None => turn_name(s.turns.len() + 1),
            };
            StateView { turns: s.turns.push(new_turn(id, e.timestamp)), ..s }
        } else {
            s
        };
        let ti = opened.turns.len() - 1;
        if e.role == "user"@ {
            match pi_text_spec(e.content) {
                Some(t) => {
                    let item = ItemView { id: e.id, ..text_item_spec(AgentSessionItemKind::UserMessage, t, e.timestamp) };
                    let (t2, tr) = pushed(opened.turns, ti, item, opened.truncated);
                    StateView { turns: t2, tools: opened.tools, truncated: tr }
                },
                None => opened,
            }
        } else if e.role == "toolResult"@ {
            add_tool_output(
                opened,
                opened.turns,
                text_or_empty(e.tool_call_id),
                e.content_json,
                if e.is_error == Some(true) {
                    "failed"@
                } else {
                    "completed"@
                },
            )
        } else if e.role != "assistant"@ {
            opened
        } else {
            let after = match e.content {
                Some(PiContentView::Parts(ps)) => pi_parts_fold(opened, ti, ps, e.timestamp),
                _ => opened,
            };
            StateView {
                turns: after.turns.update(ti, TurnView { completed_at: e.timestamp, ..after.turns[ti] }),
                ..after
            }
        }
    }
}

/// The assembly of a whole Pi session.
pub open spec fn pi_fold(entries: Seq<PiEntryView>) -> StateView
    decreases entries.len(),
{
    if entries.len() == 0 {
        initial_state()
    } else {
        pi_step(pi_fold(entries.drop_last()), entries.last())
    }
}

impl TranscriptState {
    /// Adds a text item, when its clipped text is not empty.
    fn add_part(&mut self, ti: usize, p: &PiContentPart, ts: &Option<String>)
        requires
            ti < old(self)@.turns.len(),
        ensures
            final(self)@ == pi_parts_step(old(self)@, ti as int, part_view(*p), opt_view(*ts)),
            final(self)@.turns.len() == old(self)@.turns.len(),
    {
        let pt = str_or_empty(&p.part_type);
        let is_text = crate::text::str_eq(pt, "text");
        let is_thinking = crate::text::str_eq(pt, "thinking");
        if is_text || is_thinking {
            let t = str_or_empty(&p.text);
            let (clipped, _) = truncate_text(t);
            if clipped.as_str().unicode_len() > 0 {
                let kind = if is_thinking {
                    AgentSessionItemKind::Thinking
                } else {
                    AgentSessionItemKind::AgentMessage
                };
                let item = text_item(kind, t, copy_opt(ts));
                push_view_item(&mut self.turns, ti, item, &mut self.truncated);
            }
        } else if crate::text::str_eq(pt, "toolCall") {
            let (input, clipped) = clipped_value(
                match &p.arguments {
                    Some(a) => Some(a.as_str()),
                    None => None,
                },
            );
            let item = AgentSessionItem {
                kind: AgentSessionItemKind::ToolCall,
                id: copy_opt(&p.id),
                name: copy_opt(&p.name),
                text: None,
                input,
                output: None,
                status: Some(owned("running")),
                timestamp: copy_opt(ts),
                truncated: clipped,
            };
            self.add_call(ti, item);
        }
    }

    /// Feeds one Pi session line (see [`pi_step`]).
    pub fn apply_pi_entry(&mut self, e: PiSessionEntry)
        requires
            old(self)@.turns.len() < usize::MAX,
        ensures
            final(self)@ == pi_step(old(self)@, e@),
            final(self)@.turns.len() <= old(self)@.turns.len() + 1,
    {
        let ghost ev = e@;
        if !crate::text::str_eq(str_or_empty(&e.entry_type), "message") {
            return;
        }
        let role = str_or_empty(&e.role);
        let is_user = crate::text::str_eq(role, "user");
        let ts = take_first(copy_opt(&e.timestamp), copy_opt(&e.message_timestamp));
        if is_user || self.turns.len() == 0 {
            let id = match &e.id {
                Some(x) => owned(x.as_str()),
                None => next_turn_name(self.turns.len()),
            };
            let t = empty_turn(id, copy_opt(&ts));
            push_turn(&mut self.turns, t);
        }
        let ghost opened = self@;
        assert(opened.turns.len() == self.turns@.len());
        let ti = self.turns.len() - 1;
        if is_user {
            match pi_content_text(&e.content) {
                Some(text) => {
                    let mut item = text_item(AgentSessionItemKind::UserMessage, text.as_str(), ts);
                    item.id = copy_opt(&e.id);
                    push_view_item(&mut self.turns, ti, item, &mut self.truncated);
                },
                None => {},
            }
            return;
        }
        if crate::text::str_eq(role, "toolResult") {
            let failed = match e.is_error {
                Some(b) => b,
                None => false,
            };
            let status = if failed {
                "failed"
            } else {
                "completed"
            };
            self.add_output(
                str_or_empty(&e.tool_call_id),
                match &e.content_json {
                    Some(c) => Some(c.as_str()),
                    None => None,
                },
                status,
            );
            return;
        }
        if !crate::text::str_eq(role, "assistant") {
            return;
        }
        match &e.content {
            Some(PiContent::Parts(ps)) => {
                let ghost pv = ps@.map_values(part_view_fn());
                let mut i: usize = 0;
                assert(pv.take(0) =~= Seq::<PiPartView>::empty());
                while i < ps.len()
                    invariant
                        i <= ps.len(),
                        ti < self@.turns.len(),
                        self@.turns.len() == opened.turns.len(),
                        pv == ps@.map_values(part_view_fn()),
                        self@ == pi_parts_fold(opened, ti as int, pv.take(i as int), opt_view(ts)),
                    decreases ps.len() - i,
                {
                    proof {
                        assert(pv.take(i + 1).drop_last() =~= pv.take(i as int));
                        assert(pv.take(i + 1).last() == part_view(ps@[i as int]));
                    }
                    self.add_part(ti, &ps[i], &ts);
                    i += 1;
                }
                assert(pv.take(ps.len() as int) =~= pv);
            },
            _ => {},
        }
        set_completed(&mut self.turns, ti, ts);
    }
}

/// Assembles the turns of a Pi session from its lines, in order; the flag
/// says whether anything was clipped or dropped.
pub fn parse_pi_session(entries: Vec<PiSessionEntry>) -> (r: (Vec<AgentSessionTurn>, bool))
    ensures
        ({
            let f = pi_fold(entries@.map_values(|e: PiSessionEntry| e@));
            turns_view(r.0@) == f.turns && r.1 == f.truncated
        }),
{
    let ghost all = entries@.map_values(|e: PiSessionEntry| e@);
    let mut state = TranscriptState::new();
    let mut rest = entries;
    let ghost n = all.len();
    let total = rest.len();
    assert(n == total);
    assert(all.take(0) =~= Seq::<PiEntryView>::empty());
    while rest.len() > 0
        invariant
            n == all.len(),
            n <= usize::MAX,
            rest@.len() <= n,
            forall|j: int| 0 <= j < rest@.len() ==> #[trigger] rest@[j]@ == all[n - rest@.len() + j],
            state@ == pi_fold(all.take(n - rest@.len())),
            state@.turns.len() <= n - rest@.len(),
        decreases rest.len(),
    {
        let ghost k = n - rest@.len();
        let ghost before = rest@;
        let e = rest.remove(0);
        proof {
            assert(before[0]@ == all[k]);
            assert forall|j: int| 0 <= j < rest@.len() implies #[trigger] rest@[j]@ == all[n - rest@.len() + j] by {
                assert(rest@[j] == before[j + 1]);
            }
            assert(all.take(k + 1).drop_last() =~= all.take(k));
            assert(all.take(k + 1).last() == all[k]);
        }
        state.apply_pi_entry(e);
    }
    assert(all.take(n as int) =~= all);
    state.finish()
}

// ---------------------------------------------------------------------------
// OpenCode sessions
// ---------------------------------------------------------------------------

/// One part of an OpenCode message, by the fields the assembly reads;
/// `input`, `output`, `error` and `metadata` hold the JSON text of the
/// tool state's values under those keys.
#[derive(Debug, Clone)]
pub struct OpencodePart {
    pub id: String,
    pub created_at: i64,
    pub part_type: Option<String>,
    pub time_start: Option<i64>,
    pub text: Option<String>,
    pub call_id: Option<String>,
    pub tool: Option<String>,
    pub status: Option<String>,
    pub input: Option<String>,
    pub output: Option<String>,
    pub error: Option<String>,
    pub metadata: Option<String>,
}

/// One OpenCode message with its parts, in storage order.
#[derive(Debug, Clone)]
pub struct OpencodeMessage {
    pub id: String,
    pub created_at: i64,
    pub updated_at: i64,
    pub role: Option<String>,
    pub time_completed: Option<i64>,
    pub parts: Vec<OpencodePart>,
}

/// The decimal text of an integer.
pub open spec fn int_text(v: i64) -> Seq<char> {
    crate::text::signed_decimal(v as int)
}

/// What one part adds to turn `ti` of a message of role `role`.
pub open spec fn opencode_part_step(s: StateView, ti: int, role: Seq<char>, p: OpencodePart) -> StateView {
    let pt = text_or_empty(opt_view(p.part_type));
    let ts = Some(
        int_text(
            match p.time_start {
                Some(t) => t,
                None => p.created_at,
            },
        ),
    );
    if pt == "text"@ && (role == "user"@ || role == "assistant"@) {
        match p.text {
            Some(t) => {
                let c = truncated_text(t@);
                if c.0.len() == 0 {
                    s
                } else {
                    let kind = if role == "user"@ {
                        AgentSessionItemKind::UserMessage
                    } else {
                        AgentSessionItemKind::AgentMessage
                    };
                    let item = ItemView { id: Some(p.id@), ..text_item_spec(kind, t@, ts) };
                    let (t2, tr) = pushed(s.turns, ti, item, s.truncated);
                    StateView { turns: t2, tools: s.tools, truncated: tr }
                }
            },
            None => s,
        }
    } else if pt == "reasoning"@ {
        match p.text {
            Some(t) => {
                let (t2, tr) = pushed(
                    s.turns,
                    ti,
                    text_item_spec(AgentSessionItemKind::Thinking, t@, ts),
                    s.truncated,
                );
                StateView { turns: t2, tools: s.tools, truncated: tr }
            },
            None => s,
        }
    } else if pt == "tool"@ {
        let input = clipped_spec(opt_view(p.input));
        let output = clipped_spec(
            first_some(opt_view(p.output), first_some(opt_view(p.error), opt_view(p.metadata))),
        );
        let item = ItemView {
            kind: AgentSessionItemKind::ToolCall,
            id: first_some(opt_view(p.call_id), Some(p.id@)),
            name: opt_view(p.tool),
            text: None,
            input: input.0,
            output: output.0,
            status: opt_view(p.status),
            timestamp: ts,
            truncated: input.1 || output.1,
        };
        let (t2, tr) = pushed(s.turns, ti, item, s.truncated);
        StateView { turns: t2, tools: s.tools, truncated: tr }
    } else {
        s
    }
}

/// The effect of all `parts` of one message, in order.
pub open spec fn opencode_parts_fold(s: StateView, ti: int, role: Seq<char>, parts: Seq<OpencodePart>) -> StateView
    decreases parts.len(),
{
    if parts.len() == 0 {
        s
    } else {
        opencode_part_step(opencode_parts_fold(s, ti, role, parts.drop_last()), ti, role, parts.last())
    }
}

/// What one OpenCode message does to the assembly: a user message opens a
/// turn (so does any message when none is open), its parts add items, and
/// an assistant message closes its turn at its completion time (else its
/// last update).
pub open spec fn opencode_step(s: StateView, m: OpencodeMessage) -> StateView {
    let role = text_or_empty(opt_view(m.role));
    let opened = if role == "user"@ || s.turns.len() == 0 {
        StateView { turns: s.turns.push(new_turn(m.id@, Some(int_text(m.created_at)))), ..s }
    } else {
        s
    };
    let ti = opened.turns.len() - 1;
    let after = opencode_parts_fold(opened, ti, role, m.parts@);
    if role == "assistant"@ {
        let done = match m.time_completed {
            Some(t) => t,
            None => m.updated_at,
        };
        StateView {
            turns: after.turns.update(ti, TurnView { completed_at: Some(int_text(done)), ..after.turns[ti] }),
            ..after
        }
    } else {
        after
    }
}

/// The assembly of a whole OpenCode session.
pub open spec fn opencode_fold(messages: Seq<OpencodeMessage>) -> StateView
    decreases messages.len(),
{
    if messages.len() == 0 {
        initial_state()
    } else {
        opencode_step(opencode_fold(messages.drop_last()), messages.last())
    }
}

impl TranscriptState {
    /// Feeds one part of a message of role `role` (see
    /// [`opencode_part_step`]).
    fn add_opencode_part(&mut self, ti: usize, role: &str, p: &OpencodePart)
        requires
            ti < old(self)@.turns.len(),
        ensures
            final(self)@ == opencode_part_step(old(self)@, ti as int, role@, *p),
            final(self)@.turns.len() == old(self)@.turns.len(),
    {
        let pt = str_or_empty(&p.part_type);
        let at = match p.time_start {
            Some(t) => t,
            None => p.created_at,
        };
        let ts = crate::text::i64_to_string(at);
        let is_user = crate::text::str_eq(role, "user");
        if crate::text::str_eq(pt, "text") && (is_user || crate::text::str_eq(role, "assistant")) {
            match &p.text {
                Some(t) => {
                    let (c, _) = truncate_text(t.as_str());
                    if c.as_str().unicode_len() > 0 {
                        let kind = if is_user {
                            AgentSessionItemKind::UserMessage
                        } else {
                            AgentSessionItemKind::AgentMessage
                        };
                        let mut item = text_item(kind, t.as_str(), Some(ts));
                        item.id = Some(owned(p.id.as_str()));
                        push_view_item(&mut self.turns, ti, item, &mut self.truncated);
                    }
                },
                None => {},
            }
        } else if crate::text::str_eq(pt, "reasoning") {
            match &p.text {
                Some(t) => {
                    let item = text_item(AgentSessionItemKind::Thinking, t.as_str(), Some(ts));
                    push_view_item(&mut self.turns, ti, item, &mut self.truncated);
                },
                None => {},
            }
        } else if crate::text::str_eq(pt, "tool") {
            let (input, it) = clipped_value(
                match &p.input {
                    Some(v) => Some(v.as_str()),
                    None => None,
                },
            );
            let raw_out = take_first(copy_opt(&p.output), take_first(copy_opt(&p.error), copy_opt(&p.metadata)));
            let (output, ot) = clipped_value(
                match &raw_out {
                    Some(v) => Some(v.as_str()),
                    None => None,
                },
            );
            let item = AgentSessionItem {
                kind: AgentSessionItemKind::ToolCall,
                id: take_first(copy_opt(&p.call_id), Some(owned(p.id.as_str()))),
                name: copy_opt(&p.tool),
                text: None,
                input,
                output,
                status: copy_opt(&p.status),
                timestamp: Some(ts),
                truncated: it || ot,
            };
            push_view_item(&mut self.turns, ti, item, &mut self.truncated);
        }
    }

    /// Feeds one OpenCode message (see [`opencode_step`]).
    pub fn apply_opencode_message(&mut self, m: &OpencodeMessage)
        requires
            old(self)@.turns.len() < usize::MAX,
        ensures
            final(self)@ == opencode_step(old(self)@, *m),
            final(self)@.turns.len() <= old(self)@.turns.len() + 1,
    {
        let role = str_or_empty(&m.role);
        if crate::text::str_eq(role, "user") || self.turns.len() == 0 {
            let t = empty_turn(owned(m.id.as_str()), Some(crate::text::i64_to_string(m.created_at)));
            push_turn(&mut self.turns, t);
        }
        let ghost opened = self@;
        assert(opened.turns.len() == self.turns@.len());
        let ti = self.turns.len() - 1;
        let mut i: usize = 0;
        assert(m.parts@.take(0) =~= Seq::<OpencodePart>::empty());
        while i < m.parts.len()
            invariant
                i <= m.parts.len(),
                ti < self@.turns.len(),
                self@.turns.len() == opened.turns.len(),
                self@ == opencode_parts_fold(opened, ti as int, role@, m.parts@.take(i as int)),
            decreases m.parts.len() - i,
        {
            proof {
                assert(m.parts@.take(i + 1).drop_last() =~= m.parts@.take(i as int));
            }
            self.add_opencode_part(ti, role, &m.parts[i]);
            i += 1;
        }
        assert(m.parts@.take(m.parts.len() as int) =~= m.parts@);
        if crate::text::str_eq(role, "assistant") {
            let done = match m.time_completed {
                Some(t) => t,
                None => m.updated_at,
            };
            set_completed(&mut self.turns, ti, Some(crate::text::i64_to_string(done)));
        }
    }
}

/// Assembles the turns of an OpenCode session from its messages, in
/// storage order; the flag says whether anything was clipped or dropped.
pub fn parse_opencode_session(messages: &Vec<OpencodeMessage>) -> (r: (Vec<AgentSessionTurn>, bool))
    ensures
        ({
            let f = opencode_fold(messages@);
            turns_view(r.0@) == f.turns && r.1 == f.truncated
        }),
{
    let mut state = TranscriptState::new();
    let mut i: usize = 0;
    assert(messages@.take(0) =~= Seq::<OpencodeMessage>::empty());
    while i < messages.len()
        invariant
            i <= messages.len(),
            state@ == opencode_fold(messages@.take(i as int)),
            state@.turns.len() <= i,
        decreases messages.len() - i,
    {
        proof {
            assert(messages@.take(i + 1).drop_last() =~= messages@.take(i as int));
        }
        state.apply_opencode_message(&messages[i]);
        i += 1;
    }
    assert(messages@.take(messages.len() as int) =~= messages@);
    state.finish()
}

} // verus!
