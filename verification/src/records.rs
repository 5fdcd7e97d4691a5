//! Decoding the stored records of agent sessions: the JSON lines of Codex
//! rollouts and Pi session files, and the JSON data of OpenCode messages
//! and parts, into the records the transcript assembly reads.
use vstd::prelude::*;

use crate::acp_compat::{json_parsed, json_view, json_views, lemma_json_views, parse_json, JsonValue, JsonView};
use crate::json_fields::{
    as_bool, as_integer, as_str, as_text, bool_of, field_of, get, integer_of, opt_json, or_null, str_of, text_of,
};
use crate::text::owned;
use crate::transcripts::{
    opt_view, CodexRolloutEntry, OpencodeMessage, OpencodePart, PiContent, PiContentPart, PiSessionEntry,
    SpawnArguments,
};

verus! {

// ---------------------------------------------------------------------------
// Codex rollouts
// ---------------------------------------------------------------------------

/// The abstract value of decoded `spawn_agent` call arguments.
pub struct SpawnView {
    pub message: Option<Seq<char>>,
    pub agent_type: Option<Seq<char>>,
    pub fork_context: Option<bool>,
}

pub open spec fn spawn_view(s: Option<SpawnArguments>) -> Option<SpawnView> {
    match s {
        Some(a) => Some(
            SpawnView { message: opt_view(a.message), agent_type: opt_view(a.agent_type), fork_context: a.fork_context },
        ),
        None => None,
    }
}

/// The call arguments of a rollout payload: its `arguments` value, when it
/// is a JSON string whose content reads as JSON.
pub open spec fn spawn_of(payload: JsonView) -> Option<SpawnView> {
    match field_of(payload, "arguments"@) {
        Some(JsonView::Str(t)) => match json_parsed(t) {
            Some(a) => Some(
                SpawnView {
                    message: as_str(field_of(a, "message"@)),
                    agent_type: as_str(field_of(a, "agent_type"@)),
                    fork_context: as_bool(field_of(a, "fork_context"@)),
                },
            ),
            None => None,
        },
        _ => None,
    }
}

/// Whether `e` holds the fields of the rollout line whose JSON value is
/// `v`: string fields of the line and of its `payload` (a missing payload
/// reads as `null`), the payload's `id` only when it has no `call_id` key,
/// the JSON text of its `arguments`, `input` and `output`, and the decoded
/// call arguments.
pub open spec fn rollout_fields(e: CodexRolloutEntry, v: JsonView) -> bool {
    let p = or_null(field_of(v, "payload"@));
    &&& opt_view(e.timestamp) == as_str(field_of(v, "timestamp"@))
    &&& opt_view(e.entry_type) == as_str(field_of(v, "type"@))
    &&& opt_view(e.payload_type) == as_str(field_of(p, "type"@))
    &&& opt_view(e.turn_id) == as_str(field_of(p, "turn_id"@))
    &&& opt_view(e.started_at) == as_str(field_of(p, "started_at"@))
    &&& opt_view(e.model) == as_str(field_of(p, "model"@))
    &&& opt_view(e.message) == as_str(field_of(p, "message"@))
    &&& opt_view(e.text) == as_str(field_of(p, "text"@))
    &&& opt_view(e.call_id) == as_str(field_of(p, "call_id"@))
    &&& opt_view(e.id) == (if field_of(p, "call_id"@) is Some {
        None
    } else {
        as_str(field_of(p, "id"@))
    })
    &&& opt_view(e.name) == as_str(field_of(p, "name"@))
    &&& opt_view(e.arguments) == as_text(field_of(p, "arguments"@))
    &&& opt_view(e.input) == as_text(field_of(p, "input"@))
    &&& opt_view(e.output) == as_text(field_of(p, "output"@))
    &&& spawn_view(e.spawn) == spawn_of(p)
}

/// The fields of decoded call arguments.
fn decoded_arguments(a: &JsonValue) -> (r: SpawnArguments)
    ensures
        spawn_view(Some(r)) == Some(
            SpawnView {
                message: as_str(field_of(json_view(*a), "message"@)),
                agent_type: as_str(field_of(json_view(*a), "agent_type"@)),
                fork_context: as_bool(field_of(json_view(*a), "fork_context"@)),
            },
        ),
{
    SpawnArguments {
        message: str_of(get(a, "message")),
        agent_type: str_of(get(a, "agent_type")),
        fork_context: bool_of(get(a, "fork_context")),
    }
}

/// The call arguments of a rollout payload (see [`spawn_of`]).
fn spawn_arguments(payload: &JsonValue) -> (r: Option<SpawnArguments>)
    ensures
        spawn_view(r) == spawn_of(json_view(*payload)),
{
    let args = get(payload, "arguments");
    match args {
        Some(x) => match x {
            JsonValue::Str(t) => {
                assert(json_view(*x) == JsonView::Str(t@));
                match parse_json(t.as_str()) {
                    Ok(a) => Some(decoded_arguments(&a)),
                    Err(_) => None,
                }
            },
            _ => {
                assert(!(json_view(*x) is Str));
                None
            },
        },
        None => None,
    }
}

/// Decodes one line of a Codex rollout; `None` when the line is not JSON.
pub fn rollout_entry(line: &str) -> (r: Option<CodexRolloutEntry>)
    ensures
        match json_parsed(line@) {
            None => r is None,
            Some(v) => r matches Some(e) && rollout_fields(e, v),
        },
{
    let entry = match parse_json(line) {
        Ok(v) => v,
        Err(_) => return None,
    };
    let null = JsonValue::Null;
    let payload: &JsonValue = match get(&entry, "payload") {
        Some(p) => p,
        None => &null,
    };
    let has_call_id = get(payload, "call_id").is_some();
    let id = if has_call_id {
        None
    } else {
        str_of(get(payload, "id"))
    };
    Some(
        CodexRolloutEntry {
            timestamp: str_of(get(&entry, "timestamp")),
            entry_type: str_of(get(&entry, "type")),
            payload_type: str_of(get(payload, "type")),
            turn_id: str_of(get(payload, "turn_id")),
            started_at: str_of(get(payload, "started_at")),
            model: str_of(get(payload, "model")),
            message: str_of(get(payload, "message")),
            text: str_of(get(payload, "text")),
            call_id: str_of(get(payload, "call_id")),
            id,
            name: str_of(get(payload, "name")),
            arguments: text_of(get(payload, "arguments")),
            input: text_of(get(payload, "input")),
            output: text_of(get(payload, "output")),
            spawn: spawn_arguments(payload),
        },
    )
}

// ---------------------------------------------------------------------------
// Pi session files
// ---------------------------------------------------------------------------

/// A timestamp value: the content of a JSON string or the text of a JSON
/// number.
pub open spec fn stamp_of(v: Option<JsonView>) -> Option<Seq<char>> {
    match v {
        Some(JsonView::Str(t)) => Some(t),
        Some(JsonView::Number(t)) => Some(t),
        _ => None,
    }
}

/// Whether `p` holds the fields of the content part `v`.
pub open spec fn pi_part_fields(p: PiContentPart, v: JsonView) -> bool {
    &&& opt_view(p.part_type) == as_str(field_of(v, "type"@))
    &&& opt_view(p.text) == as_str(field_of(v, "text"@))
    &&& opt_view(p.id) == as_str(field_of(v, "id"@))
    &&& opt_view(p.name) == as_str(field_of(v, "name"@))
    &&& opt_view(p.arguments) == as_text(field_of(v, "arguments"@))
}

/// Whether `c` is the content `v` of a message: a string, an array of
/// parts, or any other value; `None` when the message has no content.
pub open spec fn pi_content_fields(c: Option<PiContent>, v: Option<JsonView>) -> bool {
    match v {
        None => c is None,
        Some(JsonView::Str(t)) => c matches Some(PiContent::Text(s)) && s@ == t,
        Some(JsonView::Array(items)) => c matches Some(PiContent::Parts(ps)) && ps@.len() == items.len() && forall|i: int|
            0 <= i < items.len() ==> pi_part_fields(#[trigger] ps@[i], items[i]),
        Some(_) => c matches Some(PiContent::Other),
    }
}

/// Whether `e` holds the fields of the Pi session line whose JSON value is
/// `v` and of its `message` (a missing message reads as `null`).
pub open spec fn pi_fields(e: PiSessionEntry, v: JsonView) -> bool {
    let m = or_null(field_of(v, "message"@));
    &&& opt_view(e.entry_type) == as_str(field_of(v, "type"@))
    &&& opt_view(e.id) == as_str(field_of(v, "id"@))
    &&& opt_view(e.cwd) == as_str(field_of(v, "cwd"@))
    &&& opt_view(e.model_id) == as_str(field_of(v, "modelId"@))
    &&& opt_view(e.timestamp) == stamp_of(field_of(v, "timestamp"@))
    &&& opt_view(e.message_timestamp) == stamp_of(field_of(m, "timestamp"@))
    &&& opt_view(e.role) == as_str(field_of(m, "role"@))
    &&& opt_view(e.model) == as_str(field_of(m, "model"@))
    &&& pi_content_fields(e.content, field_of(m, "content"@))
    &&& opt_view(e.content_json) == as_text(field_of(m, "content"@))
    &&& opt_view(e.tool_call_id) == as_str(field_of(m, "toolCallId"@))
    &&& e.is_error == as_bool(field_of(m, "isError"@))
}

/// A timestamp value (see [`stamp_of`]).
fn stamp(v: Option<&JsonValue>) -> (r: Option<String>)
    ensures
        opt_view(r) == stamp_of(opt_json(v)),
{
    match v {
        Some(JsonValue::Str(t)) => Some(owned(t.as_str())),
        Some(JsonValue::Number(t)) => Some(owned(t.as_str())),
        _ => None,
    }
}

/// One part of a message's content array.
fn pi_part(v: &JsonValue) -> (r: PiContentPart)
    ensures
        pi_part_fields(r, json_view(*v)),
{
    PiContentPart {
        part_type: str_of(get(v, "type")),
        text: str_of(get(v, "text")),
        id: str_of(get(v, "id")),
        name: str_of(get(v, "name")),
        arguments: text_of(get(v, "arguments")),
    }
}

/// The content of a message (see [`pi_content_fields`]).
fn pi_content(v: Option<&JsonValue>) -> (r: Option<PiContent>)
    ensures
        pi_content_fields(r, opt_json(v)),
{
    match v {
        None => None,
        Some(x) => match x {
            JsonValue::Str(t) => Some(PiContent::Text(owned(t.as_str()))),
            JsonValue::Array(items) => {
                proof {
                    lemma_json_views(items@);
                }
                let ghost views = json_views(items@);
                assert(json_view(*x) == JsonView::Array(views));
                let mut parts: Vec<PiContentPart> = Vec::new();
                let mut i: usize = 0;
                while i < items.len()
                    invariant
                        i <= items@.len(),
                        parts@.len() == i,
                        views == json_views(items@),
                        views.len() == items@.len(),
                        forall|j: int| 0 <= j < items@.len() ==> #[trigger] views[j] == json_view(items@[j]),
                        forall|j: int| 0 <= j < i ==> pi_part_fields(#[trigger] parts@[j], views[j]),
                    decreases items.len() - i,
                {
                    let p = pi_part(&items[i]);
                    parts.push(p);
                    i += 1;
                }
                Some(PiContent::Parts(parts))
            },
            _ => {
                assert(!(json_view(*x) is Str) && !(json_view(*x) is Array));
                Some(PiContent::Other)
            },
        },
    }
}

/// Decodes one line of a Pi session file; `None` when the line is not JSON.
pub fn pi_entry(line: &str) -> (r: Option<PiSessionEntry>)
    ensures
        match json_parsed(line@) {
            None => r is None,
            Some(v) => r matches Some(e) && pi_fields(e, v),
        },
{
    let entry = match parse_json(line) {
        Ok(v) => v,
        Err(_) => return None,
    };
    let null = JsonValue::Null;
    let message: &JsonValue = match get(&entry, "message") {
        Some(m) => m,
        None => &null,
    };
    Some(
        PiSessionEntry {
            entry_type: str_of(get(&entry, "type")),
            id: str_of(get(&entry, "id")),
            cwd: str_of(get(&entry, "cwd")),
            model_id: str_of(get(&entry, "modelId")),
            timestamp: stamp(get(&entry, "timestamp")),
            message_timestamp: stamp(get(message, "timestamp")),
            role: str_of(get(message, "role")),
            model: str_of(get(message, "model")),
            content: pi_content(get(message, "content")),
            content_json: text_of(get(message, "content")),
            tool_call_id: str_of(get(message, "toolCallId")),
            is_error: bool_of(get(message, "isError")),
        },
    )
}

// ---------------------------------------------------------------------------
// OpenCode messages
// ---------------------------------------------------------------------------

/// The value of a stored part row: its id, creation time and JSON data.
pub open spec fn row_view(r: (String, i64, String)) -> (Seq<char>, i64, Seq<char>) {
    (r.0@, r.1, r.2@)
}

/// The part rows whose data reads as JSON, with the value it reads as, in
/// order.
pub open spec fn parsed_rows(rows: Seq<(Seq<char>, i64, Seq<char>)>) -> Seq<(Seq<char>, i64, JsonView)>
    decreases rows.len(),
{
    if rows.len() == 0 {
        Seq::empty()
    } else {
        let a = parsed_rows(rows.drop_last());
        match json_parsed(rows.last().2) {
            Some(v) => a.push((rows.last().0, rows.last().1, v)),
            None => a,
        }
    }
}

/// Whether `p` holds the fields of the part with id `id`, created at
/// `created_at`, whose data is `v`: its `type`, `/time/start`, `text`,
/// `callID` and `tool`, and the `status` and the JSON text of the `input`,
/// `output`, `error` and `metadata` of its `state`.
pub open spec fn opencode_part_fields(p: OpencodePart, id: Seq<char>, created_at: i64, v: JsonView) -> bool {
    let st = or_null(field_of(v, "state"@));
    &&& p.id@ == id
    &&& p.created_at == created_at
    &&& opt_view(p.part_type) == as_str(field_of(v, "type"@))
    &&& match p.time_start {
        Some(t) => as_integer(field_of(or_null(field_of(v, "time"@)), "start"@)) == Some(t as int),
        None => as_integer(field_of(or_null(field_of(v, "time"@)), "start"@)) is None,
    }
    &&& opt_view(p.text) == as_str(field_of(v, "text"@))
    &&& opt_view(p.call_id) == as_str(field_of(v, "callID"@))
    &&& opt_view(p.tool) == as_str(field_of(v, "tool"@))
    &&& opt_view(p.status) == as_str(field_of(st, "status"@))
    &&& opt_view(p.input) == as_text(field_of(st, "input"@))
    &&& opt_view(p.output) == as_text(field_of(st, "output"@))
    &&& opt_view(p.error) == as_text(field_of(st, "error"@))
    &&& opt_view(p.metadata) == as_text(field_of(st, "metadata"@))
}

/// Whether `m` holds the message with id `id` and times `created_at` and
/// `updated_at` whose data is `v` (its `role` and `/time/completed`), with
/// one part for each part row whose data reads as JSON, in order.
pub open spec fn opencode_fields(
    m: OpencodeMessage,
    id: Seq<char>,
    created_at: i64,
    updated_at: i64,
    v: JsonView,
    rows: Seq<(Seq<char>, i64, Seq<char>)>,
) -> bool {
    let parsed = parsed_rows(rows);
    &&& m.id@ == id
    &&& m.created_at == created_at
    &&& m.updated_at == updated_at
    &&& opt_view(m.role) == as_str(field_of(v, "role"@))
    &&& match m.time_completed {
        Some(t) => as_integer(field_of(or_null(field_of(v, "time"@)), "completed"@)) == Some(t as int),
        None => as_integer(field_of(or_null(field_of(v, "time"@)), "completed"@)) is None,
    }
    &&& m.parts@.len() == parsed.len()
    &&& forall|i: int|
        0 <= i < parsed.len() ==> opencode_part_fields(#[trigger] m.parts@[i], parsed[i].0, parsed[i].1, parsed[i].2)
}

/// The `start` or `completed` time of a value's `time` object.
fn time_of(v: &JsonValue, key: &str) -> (r: Option<i64>)
    ensures
        match r {
            Some(t) => as_integer(field_of(or_null(field_of(json_view(*v), "time"@)), key@)) == Some(t as int),
            None => as_integer(field_of(or_null(field_of(json_view(*v), "time"@)), key@)) is None,
        },
{
    match get(v, "time") {
        Some(t) => integer_of(get(t, key)),
        None => {
            let null = JsonValue::Null;
            integer_of(get(&null, key))
        },
    }
}

/// One decoded part row.
fn opencode_part(id: &str, created_at: i64, v: &JsonValue) -> (r: OpencodePart)
    ensures
        opencode_part_fields(r, id@, created_at, json_view(*v)),
{
    let null = JsonValue::Null;
    let state: &JsonValue = match get(v, "state") {
        Some(s) => s,
        None => &null,
    };
    OpencodePart {
        id: owned(id),
        created_at,
        part_type: str_of(get(v, "type")),
        time_start: time_of(v, "start"),
        text: str_of(get(v, "text")),
        call_id: str_of(get(v, "callID")),
        tool: str_of(get(v, "tool")),
        status: str_of(get(state, "status")),
        input: text_of(get(state, "input")),
        output: text_of(get(state, "output")),
        error: text_of(get(state, "error")),
        metadata: text_of(get(state, "metadata")),
    }
}

/// Decodes a stored OpenCode message from its id, times and JSON data, with
/// its part rows (id, creation time, JSON data) in storage order; `None`
/// when the message data is not JSON. Part rows whose data is not JSON are
/// left out.
pub fn opencode_message(
    id: &str,
    created_at: i64,
    updated_at: i64,
    data: &str,
    parts: Vec<(String, i64, String)>,
) -> (r: Option<OpencodeMessage>)
    ensures
        r is None <==> json_parsed(data@) is None,
        match json_parsed(data@) {
            Some(v) => r matches Some(m) && opencode_fields(
                m,
                id@,
                created_at,
                updated_at,
                v,
                parts@.map_values(|p: (String, i64, String)| row_view(p)),
            ),
            None => true,
        },
{
    let message = match parse_json(data) {
        Ok(v) => v,
        Err(_) => return None,
    };
    let ghost rows = parts@.map_values(|p: (String, i64, String)| row_view(p));
    let mut out: Vec<OpencodePart> = Vec::new();
    let mut i: usize = 0;
    while i < parts.len()
        invariant
            i <= parts@.len(),
            rows == parts@.map_values(|p: (String, i64, String)| row_view(p)),
            out@.len() == parsed_rows(rows.take(i as int)).len(),
            forall|j: int|
                0 <= j < out@.len() ==> opencode_part_fields(
                    #[trigger] out@[j],
                    parsed_rows(rows.take(i as int))[j].0,
                    parsed_rows(rows.take(i as int))[j].1,
                    parsed_rows(rows.take(i as int))[j].2,
                ),
        decreases parts.len() - i,
    {
        let ghost before = rows.take(i as int);
        assert(rows.take(i + 1).drop_last() == before);
        assert(rows.take(i + 1).last() == row_view(parts@[i as int]));
        match parse_json(parts[i].2.as_str()) {
            Ok(v) => {
                let p = opencode_part(parts[i].0.as_str(), parts[i].1, &v);
                out.push(p);
                proof {
                    let now = parsed_rows(rows.take(i + 1));
                    assert(now == parsed_rows(before).push((parts@[i as int].0@, parts@[i as int].1, json_view(v))));
                    assert forall|j: int| 0 <= j < out@.len() implies opencode_part_fields(
                        #[trigger] out@[j],
                        now[j].0,
                        now[j].1,
                        now[j].2,
                    ) by {
                        if j < out@.len() - 1 {
                            assert(now[j] == parsed_rows(before)[j]);
                        }
                    }
                }
            },
            Err(_) => {},
        }
        i += 1;
    }
    assert(rows.take(parts@.len() as int) == rows);
    Some(
        OpencodeMessage {
            id: owned(id),
            created_at,
            updated_at,
            role: str_of(get(&message, "role")),
            time_completed: time_of(&message, "completed"),
            parts: out,
        },
    )
}

} // verus!
