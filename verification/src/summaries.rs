//! Summaries of agent sessions (the listing lines) and the snapshot
//! pieces built around a transcript: Pi session summaries, OpenCode and
//! Codex summary rows, the `spawn_agent` dispatches of a parent rollout, the
//! task a Codex sub-agent was given, and the listing queries.
use vstd::prelude::*;

use crate::paths::{after_last_underscore, file_name_spec, file_stem_spec, pi_id_from_filename};
use crate::sessions::{
    AgentError, AgentSessionBackend, AgentSessionChildTask, AgentSessionItemKind, AgentSessionScope,
    AgentSessionSummary, AgentSessionTurn, CodexSpawnDispatch, child_task_from_dispatches,
    matching_dispatches, millis_string, non_empty, truncate_text, truncated_text,
};
use crate::provider::join;
use crate::text::{owned, push_str, signed_decimal, str_eq};
use crate::transcripts::{
    CodexEntryView, CodexRolloutEntry, ItemView, codex_fold, PiEntryView, PiSessionEntry, TurnView, first_some, item_view,
    opt_view, pi_content_text, pi_text_spec, text_or_empty, turn_view, turns_view,
};

verus! {

// ---------------------------------------------------------------------------
// Pi summaries
// ---------------------------------------------------------------------------

/// What the summary of a Pi session has gathered so far.
pub struct PiSummaryView {
    pub id: Option<Seq<char>>,
    pub cwd: Option<Seq<char>>,
    pub title: Option<Seq<char>>,
    pub model: Option<Seq<char>>,
    pub created_at: Option<Seq<char>>,
    pub updated_at: Option<Seq<char>>,
}

pub open spec fn empty_pi_summary() -> PiSummaryView {
    PiSummaryView { id: None, cwd: None, title: None, model: None, created_at: None, updated_at: None }
}

/// What one line adds to a Pi summary: the first timestamp is the creation
/// time and the last one the update time; the session line gives the id and
/// directory, model changes and assistant messages the model, and the first
/// user message with text the title (clipped).
pub open spec fn pi_summary_step(s: PiSummaryView, e: PiEntryView) -> PiSummaryView {
    let base = PiSummaryView {
        created_at: first_some(s.created_at, e.timestamp),
        updated_at: if e.timestamp is Some {
            e.timestamp
        } else {
            s.updated_at
        },
        ..s
    };
    if e.entry_type == "session"@ {
        PiSummaryView { id: e.id, cwd: e.cwd, ..base }
    } else if e.entry_type == "model_change"@ {
        PiSummaryView { model: e.model_id, ..base }
    } else if e.entry_type == "message"@ {
        let titled = if e.role == "user"@ && base.title is None {
            PiSummaryView {
                title: match pi_text_spec(e.content) {
                    Some(t) => Some(truncated_text(t).0),
                    None => None,
                },
                ..base
            }
        } else {
            base
        };
        if e.role == "assistant"@ {
            PiSummaryView { model: first_some(e.model, titled.model), ..titled }
        } else {
            titled
        }
    } else {
        base
    }
}

pub open spec fn pi_summary_fold(entries: Seq<PiEntryView>) -> PiSummaryView
    decreases entries.len(),
{
    if entries.len() == 0 {
        empty_pi_summary()
    } else {
        pi_summary_step(pi_summary_fold(entries.drop_last()), entries.last())
    }
}

fn take_first(a: Option<String>, b: Option<String>) -> (r: Option<String>)
    ensures
        opt_view(r) == first_some(opt_view(a), opt_view(b)),
{
    match a {
        Some(x) => Some(x),
        None => b,
    }
}

fn copy_opt(o: &Option<String>) -> (r: Option<String>)
    ensures
        opt_view(r) == opt_view(*o),
{
    match o {
        Some(s) => Some(owned(s.as_str())),
        None => None,
    }
}

/// The fields a Pi summary gathers.
struct PiSummaryFields {
    id: Option<String>,
    cwd: Option<String>,
    title: Option<String>,
    model: Option<String>,
    created_at: Option<String>,
    updated_at: Option<String>,
}

impl View for PiSummaryFields {
    type V = PiSummaryView;

    closed spec fn view(&self) -> PiSummaryView {
        PiSummaryView {
            id: opt_view(self.id),
            cwd: opt_view(self.cwd),
            title: opt_view(self.title),
            model: opt_view(self.model),
            created_at: opt_view(self.created_at),
            updated_at: opt_view(self.updated_at),
        }
    }
}

impl PiSummaryFields {
    /// Feeds one line (see [`pi_summary_step`]).
    #[verifier::rlimit(30)]
    fn apply(&mut self, e: &PiSessionEntry)
        ensures
            final(self)@ == pi_summary_step(old(self)@, e@),
    {
        let ts = take_first(copy_opt(&e.timestamp), copy_opt(&e.message_timestamp));
        if self.created_at.is_none() {
            self.created_at = copy_opt(&ts);
        }
        if ts.is_some() {
            self.updated_at = ts;
        }
        let ghost base = self@;
        let et: &str = match &e.entry_type {
            Some(t) => t.as_str(),
            None => {
                proof {
                    reveal_strlit("");
                }
                ""
            },
        };
        let ghost ev = e@;
        assert(et@ == ev.entry_type);
        assert(base.id == old(self)@.id);
        if str_eq(et, "session") {
            self.id = copy_opt(&e.id);
            self.cwd = copy_opt(&e.cwd);
            assert(self@.id == pi_summary_step(old(self)@, ev).id);
        } else if str_eq(et, "model_change") {
            self.model = copy_opt(&e.model_id);
            assert(self@.id == pi_summary_step(old(self)@, ev).id);
        } else if str_eq(et, "message") {
            let role: &str = match &e.role {
                Some(r) => r.as_str(),
                None => {
                    proof {
                        reveal_strlit("");
                    }
                    ""
                },
            };
            assert(role@ == ev.role);
            assert(self@ == base);
            if str_eq(role, "user") && self.title.is_none() {
                self.title = match pi_content_text(&e.content) {
                    Some(t) => {
                        let (c, _) = truncate_text(t.as_str());
                        Some(c)
                    },
                    None => None,
                };
            }
            let ghost titled = self@;
            assert(titled.title == (if ev.role == "user"@ && base.title is None {
                match pi_text_spec(ev.content) {
                    Some(t) => Some(truncated_text(t).0),
                    None => None,
                }
            } else {
                base.title
            }));
            if str_eq(role, "assistant") {
                let m = copy_opt(&self.model);
                self.model = take_first(copy_opt(&e.model), m);
            }
            assert(self@.id == pi_summary_step(old(self)@, ev).id);
            assert(self@.title == pi_summary_step(old(self)@, ev).title);
            assert(self@.model == pi_summary_step(old(self)@, ev).model);
        } else {
            assert(self@ == pi_summary_step(old(self)@, ev));
        }
    }
}

/// The abstract lines of a Pi session file.
pub open spec fn pi_views(entries: Seq<PiSessionEntry>) -> Seq<PiEntryView> {
    entries.map_values(|e: PiSessionEntry| e@)
}

/// The id of the Pi session stored at `path` with lines `evs`: the one its
/// session line gives, else the part of its file stem after the last `_`.
pub open spec fn pi_summary_id(path: Seq<char>, evs: Seq<PiEntryView>) -> Option<Seq<char>> {
    match pi_summary_fold(evs).id {
        Some(id) => Some(id),
        None => match name_of(path) {
            Some(n) => after_last_underscore(file_stem_spec(n)),
            None => None,
        },
    }
}

/// Whether `s` is the summary of the Pi session stored at `path` with
/// lines `evs`.
pub open spec fn is_pi_summary(path: Seq<char>, evs: Seq<PiEntryView>, s: AgentSessionSummary) -> bool {
    let f = pi_summary_fold(evs);
    &&& pi_summary_id(path, evs) == Some(s.id@)
    &&& s.backend == AgentSessionBackend::Pi
    &&& opt_view(s.title) == f.title
    &&& opt_view(s.cwd) == f.cwd
    &&& opt_view(s.model) == f.model
    &&& opt_view(s.source) == Some("pi_cli"@)
    &&& s.status is None
    &&& s.parent_id is None
    &&& opt_view(s.created_at) == f.created_at
    &&& opt_view(s.updated_at) == f.updated_at
}

/// The summary of the Pi session stored at `path` with lines `entries`.
/// Its id is the one its session line gives, else the one in its file
/// name; without either there is no summary.
pub fn parse_pi_summary(path: &str, entries: &Vec<PiSessionEntry>) -> (r: Option<AgentSessionSummary>)
    ensures
        ({
            let f = pi_summary_fold(entries@.map_values(|e: PiSessionEntry| e@));
            match r {
                Some(s) => {
                    &&& (match f.id {
                        Some(id) => s.id@ == id,
                        None => exists|n: Seq<char>|
                            file_name_spec(path@, Some(n)) && after_last_underscore(file_stem_spec(n))
                                == Some(s.id@),
                    })
                    &&& s.backend == AgentSessionBackend::Pi
                    &&& opt_view(s.title) == f.title
                    &&& opt_view(s.cwd) == f.cwd
                    &&& opt_view(s.model) == f.model
                    &&& opt_view(s.source) == Some("pi_cli"@)
                    &&& s.status is None
                    &&& s.parent_id is None
                    &&& opt_view(s.created_at) == f.created_at
                    &&& opt_view(s.updated_at) == f.updated_at
                },
                None => f.id is None && (file_name_spec(path@, None) || exists|n: Seq<char>|
                    file_name_spec(path@, Some(n)) && after_last_underscore(file_stem_spec(n)) is None),
            }
        }),
        match r {
            Some(s) => is_pi_summary(path@, pi_views(entries@), s),
            None => pi_summary_id(path@, pi_views(entries@)) is None,
        },
{
    let ghost all = entries@.map_values(|e: PiSessionEntry| e@);
    assert(pi_views(entries@) =~= all);
    let mut f = PiSummaryFields {
        id: None,
        cwd: None,
        title: None,
        model: None,
        created_at: None,
        updated_at: None,
    };
    let mut i: usize = 0;
    assert(all.take(0) =~= Seq::<PiEntryView>::empty());
    while i < entries.len()
        invariant
            i <= entries.len(),
            all == entries@.map_values(|e: PiSessionEntry| e@),
            pi_summary_fold(all.take(i as int)) == f@,
        decreases entries.len() - i,
    {
        proof {
            assert(all.take(i + 1).drop_last() =~= all.take(i as int));
            assert(all.take(i + 1).last() == entries@[i as int]@);
        }
        f.apply(&entries[i]);
        i += 1;
    }
    assert(all.take(entries.len() as int) =~= all);
    let ghost fv = f@;
    let PiSummaryFields { id, cwd, title, model, created_at, updated_at } = f;
    assert(opt_view(title) == fv.title);
    let id = match id {
        Some(x) => Some(x),
        None => pi_id_from_filename(path),
    };
    proof {
        if fv.id is None {
            let n = choose|n: Option<Seq<char>>| file_name_spec(path@, n);
            if id is Some {
                let m = choose|m: Seq<char>|
                    file_name_spec(path@, Some(m)) && after_last_underscore(file_stem_spec(m)) == Some(id->0@);
                crate::paths::lemma_file_name_unique(path@, n, Some(m));
            } else if file_name_spec(path@, None) {
                crate::paths::lemma_file_name_unique(path@, n, None);
            } else {
                let m = choose|m: Seq<char>|
                    file_name_spec(path@, Some(m)) && after_last_underscore(file_stem_spec(m)) is None;
                crate::paths::lemma_file_name_unique(path@, n, Some(m));
            }
        }
    }
    match id {
        Some(id) => Some(
            AgentSessionSummary {
                id,
                backend: AgentSessionBackend::Pi,
                title,
                cwd,
                model,
                source: Some(owned("pi_cli")),
                status: None,
                parent_id: None,
                created_at,
                updated_at,
            },
        ),
        None => None,
    }
}

// ---------------------------------------------------------------------------
// Spawn dispatches and child tasks
// ---------------------------------------------------------------------------

/// The abstract value of a dispatch.
pub struct DispatchView {
    pub prompt: Seq<char>,
    pub agent_type: Option<Seq<char>>,
    pub fork_context: Option<bool>,
}

pub open spec fn dispatch_view(d: CodexSpawnDispatch) -> DispatchView {
    DispatchView { prompt: d.prompt@, agent_type: opt_view(d.agent_type), fork_context: d.fork_context }
}

pub open spec fn dispatch_view_fn() -> spec_fn(CodexSpawnDispatch) -> DispatchView {
    |d: CodexSpawnDispatch| dispatch_view(d)
}

/// The dispatch a rollout line records: a `spawn_agent` function call
/// whose arguments carry a message.
pub open spec fn dispatch_of(e: CodexRolloutEntry) -> Option<DispatchView> {
    if e@.entry_type == "response_item"@ && e@.payload_type == "function_call"@ && e@.name == Some(
        "spawn_agent"@,
    ) {
        match e.spawn {
            Some(a) => match a.message {
                Some(m) => Some(
                    DispatchView {
                        prompt: m@,
                        agent_type: opt_view(a.agent_type),
                        fork_context: a.fork_context,
                    },
                ),
                None => None,
            },
            None => None,
        }
    } else {
        None
    }
}

/// The dispatches of a rollout, in order.
pub open spec fn dispatches_of(entries: Seq<CodexRolloutEntry>) -> Seq<DispatchView>
    decreases entries.len(),
{
    if entries.len() == 0 {
        Seq::empty()
    } else {
        let rest = dispatches_of(entries.drop_last());
        match dispatch_of(entries.last()) {
            Some(d) => rest.push(d),
            None => rest,
        }
    }
}

/// The `spawn_agent` dispatches recorded in a parent rollout, in order.
pub fn parse_codex_spawn_dispatches(entries: &Vec<CodexRolloutEntry>) -> (r: Vec<CodexSpawnDispatch>)
    ensures
        r@.map_values(dispatch_view_fn()) == dispatches_of(entries@),
{
    let mut r: Vec<CodexSpawnDispatch> = Vec::new();
    let mut i: usize = 0;
    assert(entries@.take(0) =~= Seq::<CodexRolloutEntry>::empty());
    assert(r@.map_values(dispatch_view_fn()) =~= Seq::<DispatchView>::empty());
    while i < entries.len()
        invariant
            i <= entries.len(),
            r@.map_values(dispatch_view_fn()) == dispatches_of(entries@.take(i as int)),
        decreases entries.len() - i,
    {
        proof {
            assert(entries@.take(i + 1).drop_last() =~= entries@.take(i as int));
            assert(entries@.take(i + 1).last() == entries@[i as int]);
        }
        let e = &entries[i];
        let et: &str = match &e.entry_type {
            Some(t) => t.as_str(),
            None => {
                proof {
                    reveal_strlit("");
                }
                ""
            },
        };
        let pt: &str = match &e.payload_type {
            Some(t) => t.as_str(),
            None => {
                proof {
                    reveal_strlit("");
                }
                ""
            },
        };
        let is_spawn = match &e.name {
            Some(n) => str_eq(n.as_str(), "spawn_agent"),
            None => false,
        };
        assert(et@ == e@.entry_type);
        assert(pt@ == e@.payload_type);
        assert(is_spawn == (e@.name == Some("spawn_agent"@)));
        if str_eq(et, "response_item") && str_eq(pt, "function_call") && is_spawn {
            match &e.spawn {
                Some(a) => match &a.message {
                    Some(m) => {
                        let d = CodexSpawnDispatch {
                            prompt: owned(m.as_str()),
                            agent_type: copy_opt(&a.agent_type),
                            fork_context: a.fork_context,
                        };
                        let ghost before = r@;
                        r.push(d);
                        assert(r@.map_values(dispatch_view_fn()) =~= before.map_values(
                            dispatch_view_fn(),
                        ).push(dispatch_view(d)));
                    },
                    None => {},
                },
                None => {},
            }
        }
        i += 1;
    }
    assert(entries@.take(entries.len() as int) =~= entries@);
    r
}

/// All items of `turns`, turn by turn.
pub open spec fn all_items(turns: Seq<TurnView>) -> Seq<ItemView>
    decreases turns.len(),
{
    if turns.len() == 0 {
        Seq::empty()
    } else {
        all_items(turns.drop_last()) + turns.last().items
    }
}

/// The first user message with a text among `items`.
pub open spec fn first_user_text(items: Seq<ItemView>) -> Option<ItemView>
    decreases items.len(),
{
    if items.len() == 0 {
        None
    } else if items[0].kind == AgentSessionItemKind::UserMessage && items[0].text is Some {
        Some(items[0])
    } else {
        first_user_text(items.drop_first())
    }
}

proof fn lemma_first_user_text_append(a: Seq<ItemView>, b: Seq<ItemView>)
    ensures
        first_user_text(a + b) == (match first_user_text(a) {
            Some(x) => Some(x),
            None => first_user_text(b),
        }),
    decreases a.len(),
{
    if a.len() > 0 {
        assert((a + b).drop_first() =~= a.drop_first() + b);
        lemma_first_user_text_append(a.drop_first(), b);
    } else {
        assert(a + b =~= b);
    }
}

/// Whether `r` is the task of a sub-agent whose transcript is `tv`, given
/// the dispatches of its parent when they are available (see
/// [`codex_child_task`]).
pub open spec fn is_child_task(
    tv: Seq<TurnView>,
    dispatches: Option<Seq<CodexSpawnDispatch>>,
    r: Option<AgentSessionChildTask>,
) -> bool {
    match first_user_text(all_items(tv)) {
        None => r is None,
        Some(item) => r matches Some(task) && task.prompt@ == item.text.unwrap() && ({
            let m = match dispatches {
                Some(d) => matching_dispatches(item.text.unwrap(), d),
                None => Seq::empty(),
            };
            if !item.truncated && m.len() == 1 {
                task.agent_type == m[0].agent_type && task.fork_context == m[0].fork_context
            } else {
                task.agent_type is None && task.fork_context is None
            }
        }),
    }
}

/// The task a Codex sub-agent was given: the text of the first user
/// message of its transcript, with the dispatch options of the parent's
/// `spawn_agent` call when exactly one carried that very prompt (never for
/// a clipped prompt; no options when the parent's dispatches are not
/// available). No task without such a message.
pub fn codex_child_task(
    child_turns: &Vec<AgentSessionTurn>,
    parent_dispatches: Option<Vec<CodexSpawnDispatch>>,
) -> (r: Option<AgentSessionChildTask>)
    ensures
        match first_user_text(all_items(turns_view(child_turns@))) {
            None => r is None,
            Some(item) => r matches Some(task) && task.prompt@ == item.text.unwrap() && ({
                let m = match parent_dispatches {
                    Some(d) => matching_dispatches(item.text.unwrap(), d@),
                    None => Seq::empty(),
                };
                if !item.truncated && m.len() == 1 {
                    task.agent_type == m[0].agent_type && task.fork_context == m[0].fork_context
                } else {
                    task.agent_type is None && task.fork_context is None
                }
            }),
        },
        is_child_task(
            turns_view(child_turns@),
            match parent_dispatches {
                Some(d) => Some(d@),
                None => None,
            },
            r,
        ),
{
    let ghost tv = turns_view(child_turns@);
    let mut t: usize = 0;
    assert(tv.take(0) =~= Seq::<TurnView>::empty());
    while t < child_turns.len()
        invariant
            t <= child_turns.len(),
            tv == turns_view(child_turns@),
            first_user_text(all_items(tv.take(t as int))) is None,
        decreases child_turns.len() - t,
    {
        let items = &child_turns[t].items;
        let ghost iv = tv[t as int].items;
        assert(iv == items@.map_values(crate::transcripts::item_view_fn()));
        let mut k: usize = 0;
        assert(iv.take(0) =~= Seq::<ItemView>::empty());
        while k < items.len()
            invariant
                k <= items.len(),
                t < child_turns.len(),
                tv == turns_view(child_turns@),
                iv == tv[t as int].items,
                first_user_text(all_items(tv.take(t as int))) is None,
                iv == items@.map_values(crate::transcripts::item_view_fn()),
                first_user_text(iv.take(k as int)) is None,
            decreases items.len() - k,
        {
            let it = &items[k];
            assert(iv[k as int] == item_view(*it));
            let found = match it.kind {
                AgentSessionItemKind::UserMessage => it.text.is_some(),
                _ => false,
            };
            proof {
                assert(iv.take(k + 1) =~= iv.take(k as int) + seq![iv[k as int]]);
                lemma_first_user_text_append(iv.take(k as int), seq![iv[k as int]]);
                assert(seq![iv[k as int]].drop_first() =~= Seq::<ItemView>::empty());
                reveal_with_fuel(first_user_text, 2);
            }
            if found {
                proof {
                    assert(tv.take(t + 1).drop_last() =~= tv.take(t as int));
                    assert(iv =~= iv.take(k + 1) + iv.skip(k + 1));
                    lemma_first_user_text_append(iv.take(k + 1), iv.skip(k + 1));
                    lemma_first_user_text_append(all_items(tv.take(t as int)), iv);
                    lemma_first_user_text_after(tv, t as int);
                }
                let prompt = match &it.text {
                    Some(p) => owned(p.as_str()),
                    None => String::new(),
                };
                if it.truncated {
                    let none: Vec<CodexSpawnDispatch> = Vec::new();
                    return Some(child_task_from_dispatches(prompt.as_str(), true, &none));
                }
                return match parent_dispatches {
                    Some(d) => Some(child_task_from_dispatches(prompt.as_str(), false, &d)),
                    None => {
                        let none: Vec<CodexSpawnDispatch> = Vec::new();
                        proof {
                            reveal_with_fuel(Seq::filter, 1);
                            assert(matching_dispatches(prompt@, none@) =~= Seq::<CodexSpawnDispatch>::empty());
                        }
                        Some(child_task_from_dispatches(prompt.as_str(), false, &none))
                    },
                };
            }
            k += 1;
        }
        proof {
            assert(iv.take(items.len() as int) =~= iv);
            assert(tv.take(t + 1).drop_last() =~= tv.take(t as int));
            lemma_first_user_text_append(all_items(tv.take(t as int)), iv);
        }
        t += 1;
    }
    assert(tv.take(child_turns.len() as int) =~= tv);
    None
}

/// Whether the transcript has a first user message, and whether that
/// message was clipped.
pub fn first_user_message_clipped(child_turns: &Vec<AgentSessionTurn>) -> (r: Option<bool>)
    ensures
        match first_user_text(all_items(turns_view(child_turns@))) {
            None => r is None,
            Some(item) => r == Some(item.truncated),
        },
{
    let ghost tv = turns_view(child_turns@);
    let mut t: usize = 0;
    assert(tv.take(0) =~= Seq::<TurnView>::empty());
    while t < child_turns.len()
        invariant
            t <= child_turns.len(),
            tv == turns_view(child_turns@),
            first_user_text(all_items(tv.take(t as int))) is None,
        decreases child_turns.len() - t,
    {
        let items = &child_turns[t].items;
        let ghost iv = tv[t as int].items;
        assert(iv == items@.map_values(crate::transcripts::item_view_fn()));
        let mut k: usize = 0;
        assert(iv.take(0) =~= Seq::<ItemView>::empty());
        while k < items.len()
            invariant
                k <= items.len(),
                t < child_turns.len(),
                tv == turns_view(child_turns@),
                iv == tv[t as int].items,
                first_user_text(all_items(tv.take(t as int))) is None,
                iv == items@.map_values(crate::transcripts::item_view_fn()),
                first_user_text(iv.take(k as int)) is None,
            decreases items.len() - k,
        {
            let it = &items[k];
            assert(iv[k as int] == item_view(*it));
            let found = match it.kind {
                AgentSessionItemKind::UserMessage => it.text.is_some(),
                _ => false,
            };
            proof {
                assert(iv.take(k + 1) =~= iv.take(k as int) + seq![iv[k as int]]);
                lemma_first_user_text_append(iv.take(k as int), seq![iv[k as int]]);
                assert(seq![iv[k as int]].drop_first() =~= Seq::<ItemView>::empty());
                reveal_with_fuel(first_user_text, 2);
            }
            if found {
                proof {
                    assert(tv.take(t + 1).drop_last() =~= tv.take(t as int));
                    assert(iv =~= iv.take(k + 1) + iv.skip(k + 1));
                    lemma_first_user_text_append(iv.take(k + 1), iv.skip(k + 1));
                    lemma_first_user_text_append(all_items(tv.take(t as int)), iv);
                    lemma_first_user_text_after(tv, t as int);
                }
                return Some(it.truncated);
            }
            k += 1;
        }
        proof {
            assert(iv.take(items.len() as int) =~= iv);
            assert(tv.take(t + 1).drop_last() =~= tv.take(t as int));
            lemma_first_user_text_append(all_items(tv.take(t as int)), iv);
        }
        t += 1;
    }
    assert(tv.take(child_turns.len() as int) =~= tv);
    None
}

/// The first user text of all items is found in turn `t` once none of the
/// earlier turns holds one.
proof fn lemma_first_user_text_after(tv: Seq<TurnView>, t: int)
    requires
        0 <= t < tv.len(),
        first_user_text(all_items(tv.take(t))) is None,
        first_user_text(tv[t].items) is Some,
    ensures
        first_user_text(all_items(tv)) == first_user_text(tv[t].items),
    decreases tv.len() - t,
{
    lemma_all_items_prefix(tv, t + 1);
    assert(tv.take(t + 1).drop_last() =~= tv.take(t));
    lemma_first_user_text_append(all_items(tv.take(t)), tv[t].items);
    lemma_first_user_text_append(all_items(tv.take(t + 1)), all_items(tv.skip(t + 1)));
}

/// The items of all turns are those of a prefix followed by the rest.
proof fn lemma_all_items_prefix(tv: Seq<TurnView>, k: int)
    requires
        0 <= k <= tv.len(),
    ensures
        all_items(tv) == all_items(tv.take(k)) + all_items(tv.skip(k)),
    decreases tv.len(),
{
    if tv.len() == 0 {
        assert(tv.take(k) =~= tv);
        assert(all_items(tv.skip(k)) =~= Seq::<ItemView>::empty());
        assert(all_items(tv.take(k)) + all_items(tv.skip(k)) =~= all_items(tv));
    } else if k == tv.len() {
        assert(tv.take(k) =~= tv);
        assert(tv.skip(k) =~= Seq::<TurnView>::empty());
        assert(all_items(tv) + Seq::<ItemView>::empty() =~= all_items(tv));
    } else {
        lemma_all_items_prefix(tv.drop_last(), k);
        assert(tv.drop_last().take(k) =~= tv.take(k));
        assert(tv.skip(k).drop_last() =~= tv.drop_last().skip(k));
        assert(tv.skip(k).last() == tv.last());
        assert(all_items(tv.take(k)) + all_items(tv.skip(k)) =~= all_items(tv.take(k)) + all_items(
            tv.drop_last().skip(k),
        ) + tv.last().items);
    }
}

// ---------------------------------------------------------------------------
// Summary rows
// ---------------------------------------------------------------------------

/// `Some(text)` unless it is empty.
pub open spec fn non_empty_view(s: Seq<char>) -> Option<Seq<char>> {
    if s.len() == 0 {
        None
    } else {
        Some(s)
    }
}

/// A millisecond time as decimal text.
pub open spec fn millis_view(v: Option<i64>) -> Option<Seq<char>> {
    match v {
        Some(x) => Some(signed_decimal(x as int)),
        None => None,
    }
}

fn millis(v: Option<i64>) -> (r: Option<String>)
    ensures
        opt_view(r) == millis_view(v),
{
    millis_string(v)
}

fn non_empty_text(s: String) -> (r: Option<String>)
    ensures
        opt_view(r) == non_empty_view(s@),
{
    non_empty(s)
}

/// One row of Codex's thread table, as the listing query selects it.
#[derive(Debug, Clone)]
pub struct CodexThreadRow {
    pub id: String,
    pub title: String,
    pub cwd: String,
    pub model: Option<String>,
    pub source: String,
    pub archived: i64,
    pub created_at_ms: Option<i64>,
    pub updated_at_ms: Option<i64>,
    pub parent_id: Option<String>,
}

/// The summary of a Codex thread row: empty texts become absent, and the
/// thread is archived unless its flag is zero.
pub fn codex_summary(row: CodexThreadRow) -> (s: AgentSessionSummary)
    ensures
        s.id@ == row.id@,
        s.backend == AgentSessionBackend::Codex,
        opt_view(s.title) == non_empty_view(row.title@),
        opt_view(s.cwd) == non_empty_view(row.cwd@),
        opt_view(s.model) == opt_view(row.model),
        opt_view(s.source) == non_empty_view(row.source@),
        opt_view(s.status) == Some(
            if row.archived == 0 {
                "active"@
            } else {
                "archived"@
            },
        ),
        opt_view(s.parent_id) == opt_view(row.parent_id),
        opt_view(s.created_at) == millis_view(row.created_at_ms),
        opt_view(s.updated_at) == millis_view(row.updated_at_ms),
        is_codex_summary(row, s),
{
    let status = if row.archived == 0 {
        owned("active")
    } else {
        owned("archived")
    };
    AgentSessionSummary {
        id: row.id,
        backend: AgentSessionBackend::Codex,
        title: non_empty_text(row.title),
        cwd: non_empty_text(row.cwd),
        model: row.model,
        source: non_empty_text(row.source),
        status: Some(status),
        parent_id: row.parent_id,
        created_at: millis(row.created_at_ms),
        updated_at: millis(row.updated_at_ms),
    }
}

/// One child row of a Codex thread: the child thread and its spawn edge's
/// status.
#[derive(Debug, Clone)]
pub struct CodexChildRow {
    pub id: String,
    pub title: String,
    pub cwd: String,
    pub model: Option<String>,
    pub source: String,
    pub status: Option<String>,
    pub created_at_ms: Option<i64>,
    pub updated_at_ms: Option<i64>,
}

/// The summary of a child thread of thread `parent_id`.
pub fn codex_child_summary(parent_id: &str, row: CodexChildRow) -> (s: AgentSessionSummary)
    ensures
        s.id@ == row.id@,
        s.backend == AgentSessionBackend::Codex,
        opt_view(s.title) == non_empty_view(row.title@),
        opt_view(s.cwd) == non_empty_view(row.cwd@),
        opt_view(s.model) == opt_view(row.model),
        opt_view(s.source) == non_empty_view(row.source@),
        opt_view(s.status) == opt_view(row.status),
        opt_view(s.parent_id) == Some(parent_id@),
        opt_view(s.created_at) == millis_view(row.created_at_ms),
        opt_view(s.updated_at) == millis_view(row.updated_at_ms),
        is_codex_child_summary(parent_id@, row, s),
{
    AgentSessionSummary {
        id: row.id,
        backend: AgentSessionBackend::Codex,
        title: non_empty_text(row.title),
        cwd: non_empty_text(row.cwd),
        model: row.model,
        source: non_empty_text(row.source),
        status: row.status,
        parent_id: Some(owned(parent_id)),
        created_at: millis(row.created_at_ms),
        updated_at: millis(row.updated_at_ms),
    }
}

/// The model reference stored with an OpenCode session, by its JSON
/// fields (absent when the stored text is not JSON).
#[derive(Debug, Clone)]
pub struct OpencodeModelRef {
    pub id: Option<String>,
    pub model_id: Option<String>,
    pub provider_id: Option<String>,
}

/// One row of OpenCode's session table; columns the table lacks are absent.
#[derive(Debug, Clone)]
pub struct OpencodeSessionRow {
    pub id: String,
    pub title: Option<String>,
    pub directory: Option<String>,
    pub model: Option<OpencodeModelRef>,
    pub agent: Option<String>,
    pub time_archived: Option<i64>,
    pub parent_id: Option<String>,
    pub time_created: Option<i64>,
    pub time_updated: Option<i64>,
}

/// The name of an OpenCode model: its id (`id`, else `modelID`), prefixed
/// with `<providerID>/` when a provider is given.
pub open spec fn opencode_model_spec(m: Option<OpencodeModelRef>) -> Option<Seq<char>> {
    match m {
        Some(r) => match first_some(opt_view(r.id), opt_view(r.model_id)) {
            Some(model) => match opt_view(r.provider_id) {
                Some(p) => Some(p + "/"@ + model),
                None => Some(model),
            },
            None => None,
        },
        None => None,
    }
}

/// The model name of an OpenCode session (see [`opencode_model_spec`]).
pub fn opencode_model_name(m: &Option<OpencodeModelRef>) -> (r: Option<String>)
    ensures
        opt_view(r) == opencode_model_spec(*m),
{
    match m {
        Some(r) => {
            let model = take_first(copy_opt(&r.id), copy_opt(&r.model_id));
            match model {
                Some(model) => match &r.provider_id {
                    Some(p) => {
                        let mut out = owned(p.as_str());
                        push_str(&mut out, "/");
                        push_str(&mut out, model.as_str());
                        Some(out)
                    },
                    None => Some(model),
                },
                None => None,
            }
        },
        None => None,
    }
}

/// The summary of an OpenCode session row: empty title and directory are
/// absent, the source names the agent (`opencode/<agent>`, else
/// `opencode_cli`), and the session is archived when it has an archive
/// time.
pub fn opencode_summary(row: &OpencodeSessionRow) -> (s: AgentSessionSummary)
    ensures
        s.id@ == row.id@,
        s.backend == AgentSessionBackend::Opencode,
        opt_view(s.title) == (match row.title {
            Some(t) => non_empty_view(t@),
            None => None,
        }),
        opt_view(s.cwd) == (match row.directory {
            Some(t) => non_empty_view(t@),
            None => None,
        }),
        opt_view(s.model) == opencode_model_spec(row.model),
        opt_view(s.source) == Some(
            match row.agent {
                Some(a) => "opencode/"@ + a@,
                None => "opencode_cli"@,
            },
        ),
        opt_view(s.status) == Some(
            if row.time_archived is Some {
                "archived"@
            } else {
                "active"@
            },
        ),
        opt_view(s.parent_id) == opt_view(row.parent_id),
        opt_view(s.created_at) == millis_view(row.time_created),
        opt_view(s.updated_at) == millis_view(row.time_updated),
{
    let title = match &row.title {
        Some(t) => non_empty_text(owned(t.as_str())),
        None => None,
    };
    let cwd = match &row.directory {
        Some(t) => non_empty_text(owned(t.as_str())),
        None => None,
    };
    let source = match &row.agent {
        Some(a) => {
            let mut out = owned("opencode/");
            push_str(&mut out, a.as_str());
            out
        },
        None => owned("opencode_cli"),
    };
    let status = if row.time_archived.is_some() {
        owned("archived")
    } else {
        owned("active")
    };
    AgentSessionSummary {
        id: owned(row.id.as_str()),
        backend: AgentSessionBackend::Opencode,
        title,
        cwd,
        model: opencode_model_name(&row.model),
        source: Some(source),
        status: Some(status),
        parent_id: copy_opt(&row.parent_id),
        created_at: millis(row.time_created),
        updated_at: millis(row.time_updated),
    }
}

// ---------------------------------------------------------------------------
// Listing queries
// ---------------------------------------------------------------------------

/// The start of the Codex listing query, up to its scope clause.
pub const CODEX_LIST_HEAD: &'static str = "SELECT t.id, t.title, t.cwd, t.model, t.source, t.archived, COALESCE(t.created_at_ms, t.created_at * 1000), COALESCE(t.updated_at_ms, t.updated_at * 1000), e.parent_thread_id FROM threads t LEFT JOIN thread_spawn_edges e ON e.child_thread_id = t.id ";

/// The end of the Codex listing query, after its scope clause.
pub const CODEX_LIST_TAIL: &'static str = " ORDER BY COALESCE(NULLIF(t.recency_at_ms, 0), t.updated_at_ms, t.updated_at * 1000) DESC LIMIT ?1";

/// The clause that restricts a Codex listing to `scope`.
pub open spec fn codex_scope_clause(scope: AgentSessionScope) -> Seq<char> {
    match scope {
        AgentSessionScope::All => ""@,
        AgentSessionScope::Main => "WHERE e.parent_thread_id IS NULL"@,
        AgentSessionScope::Child => "WHERE e.parent_thread_id IS NOT NULL"@,
    }
}

/// The Codex listing query for `scope`, most recent threads first, with
/// the limit as its parameter.
pub fn codex_list_sql(scope: AgentSessionScope) -> (q: String)
    ensures
        q@ == CODEX_LIST_HEAD@ + codex_scope_clause(scope) + CODEX_LIST_TAIL@,
{
    let mut q = owned(CODEX_LIST_HEAD);
    match scope {
        AgentSessionScope::All => push_str(&mut q, ""),
        AgentSessionScope::Main => push_str(&mut q, "WHERE e.parent_thread_id IS NULL"),
        AgentSessionScope::Child => push_str(&mut q, "WHERE e.parent_thread_id IS NOT NULL"),
    }
    push_str(&mut q, CODEX_LIST_TAIL);
    q
}

/// Whether `columns` names `c`.
pub open spec fn has_column(columns: Seq<String>, c: Seq<char>) -> bool {
    exists|i: int| 0 <= i < columns.len() && #[trigger] columns[i]@ == c
}

fn contains_column(columns: &Vec<String>, c: &str) -> (r: bool)
    ensures
        r == has_column(columns@, c@),
{
    let mut i: usize = 0;
    while i < columns.len()
        invariant
            i <= columns.len(),
            forall|j: int| 0 <= j < i ==> #[trigger] columns@[j]@ != c@,
        decreases columns.len() - i,
    {
        if str_eq(columns[i].as_str(), c) {
            return true;
        }
        i += 1;
    }
    false
}

/// A column of the OpenCode session table, or `NULL` when the table lacks it.
pub open spec fn optional_column(columns: Seq<String>, c: Seq<char>) -> Seq<char> {
    if has_column(columns, c) {
        c
    } else {
        "NULL"@
    }
}

fn push_column(q: &mut String, columns: &Vec<String>, c: &str)
    ensures
        final(q)@ == old(q)@ + ", "@ + optional_column(columns@, c@),
{
    push_str(q, ", ");
    if contains_column(columns, c) {
        push_str(q, c);
    } else {
        push_str(q, "NULL");
    }
}

/// The OpenCode listing query for a session table with `columns` and for
/// `scope`: none when the table has no `id` column, or when child sessions
/// are asked for and the table has no `parent_id` column.
pub open spec fn opencode_list_sql_spec(columns: Seq<String>, scope: AgentSessionScope) -> Option<Seq<char>> {
    let has_parent = has_column(columns, "parent_id"@);
    if !has_column(columns, "id"@) || (scope == AgentSessionScope::Child && !has_parent) {
        None
    } else {
        let clause = if scope == AgentSessionScope::All || !has_parent {
            ""@
        } else if scope == AgentSessionScope::Main {
            "WHERE parent_id IS NULL"@
        } else {
            "WHERE parent_id IS NOT NULL"@
        };
        let order = if has_column(columns, "time_updated"@) {
            "time_updated"@
        } else if has_column(columns, "time_created"@) {
            "time_created"@
        } else {
            "id"@
        };
        Some(
            "SELECT id"@ + ", "@ + optional_column(columns, "title"@) + ", "@ + optional_column(
                columns,
                "directory"@,
            ) + ", "@ + optional_column(columns, "model"@) + ", "@ + optional_column(columns, "agent"@)
                + ", "@ + optional_column(columns, "time_archived"@) + ", "@ + optional_column(
                columns,
                "parent_id"@,
            ) + ", "@ + optional_column(columns, "time_created"@) + ", "@ + optional_column(
                columns,
                "time_updated"@,
            ) + " FROM session "@ + clause + " ORDER BY "@ + order + " DESC LIMIT ?1"@,
        )
    }
}

/// The OpenCode listing query (see [`opencode_list_sql_spec`]); `None`
/// when the listing is empty without any query: the session table has no
/// `id` column (a database without a session table reports no columns), or
/// child sessions are asked for and the table has no `parent_id`.
pub fn opencode_list_sql(columns: &Vec<String>, scope: AgentSessionScope) -> (q: Option<String>)
    ensures
        opt_view(q) == opencode_list_sql_spec(columns@, scope),
{
    let has_parent = contains_column(columns, "parent_id");
    let child = match scope {
        AgentSessionScope::Child => true,
        _ => false,
    };
    if !contains_column(columns, "id") || (child && !has_parent) {
        return None;
    }
    let mut q = owned("SELECT id");
    push_column(&mut q, columns, "title");
    push_column(&mut q, columns, "directory");
    push_column(&mut q, columns, "model");
    push_column(&mut q, columns, "agent");
    push_column(&mut q, columns, "time_archived");
    push_column(&mut q, columns, "parent_id");
    push_column(&mut q, columns, "time_created");
    push_column(&mut q, columns, "time_updated");
    push_str(&mut q, " FROM session ");
    match scope {
        AgentSessionScope::All => push_str(&mut q, ""),
        AgentSessionScope::Main => if has_parent {
            push_str(&mut q, "WHERE parent_id IS NULL")
        } else {
            push_str(&mut q, "")
        },
        AgentSessionScope::Child => push_str(&mut q, "WHERE parent_id IS NOT NULL"),
    }
    push_str(&mut q, " ORDER BY ");
    if contains_column(columns, "time_updated") {
        push_str(&mut q, "time_updated");
    } else if contains_column(columns, "time_created") {
        push_str(&mut q, "time_created");
    } else {
        push_str(&mut q, "id");
    }
    push_str(&mut q, " DESC LIMIT ?1");
    Some(q)
}

// ---------------------------------------------------------------------------
// Pi listing and inspection
// ---------------------------------------------------------------------------

/// Whether text `a` sorts before text `b` (character by character, as
/// `String`'s order does).
pub open spec fn text_lt(a: Seq<char>, b: Seq<char>) -> bool
    decreases a.len(),
{
    if a.len() == 0 {
        b.len() > 0
    } else if b.len() == 0 {
        false
    } else if a[0] != b[0] {
        a[0] < b[0]
    } else {
        text_lt(a.drop_first(), b.drop_first())
    }
}

/// Whether an optional text sorts before another (absent first).
pub open spec fn key_lt(a: Option<Seq<char>>, b: Option<Seq<char>>) -> bool {
    match (a, b) {
        (None, Some(_)) => true,
        (Some(x), Some(y)) => text_lt(x, y),
        _ => false,
    }
}

pub fn text_less(a: &str, b: &str) -> (r: bool)
    ensures
        r == text_lt(a@, b@),
{
    let va = crate::text::chars_of(a);
    let vb = crate::text::chars_of(b);
    let mut i: usize = 0;
    assert(va@.skip(0) =~= va@);
    assert(vb@.skip(0) =~= vb@);
    while i < va.len() && i < vb.len() && va[i] == vb[i]
        invariant
            i <= va.len(),
            i <= vb.len(),
            text_lt(va@, vb@) == text_lt(va@.skip(i as int), vb@.skip(i as int)),
        decreases va.len() - i,
    {
        proof {
            assert(va@.skip(i as int).drop_first() =~= va@.skip(i + 1));
            assert(vb@.skip(i as int).drop_first() =~= vb@.skip(i + 1));
        }
        i += 1;
    }
    if i == va.len() {
        i < vb.len()
    } else if i == vb.len() {
        false
    } else {
        assert(va@.skip(i as int)[0] == va@[i as int]);
        assert(vb@.skip(i as int)[0] == vb@[i as int]);
        va[i] < vb[i]
    }
}

fn key_less(a: &Option<String>, b: &Option<String>) -> (r: bool)
    ensures
        r == key_lt(opt_view(*a), opt_view(*b)),
{
    match (a, b) {
        (None, Some(_)) => true,
        (Some(x), Some(y)) => text_less(x.as_str(), y.as_str()),
        _ => false,
    }
}

/// The update time of a summary, the key of the Pi listing.
pub open spec fn updated_key(s: AgentSessionSummary) -> Option<Seq<char>> {
    opt_view(s.updated_at)
}

/// Where a stable, most-recent-first sort puts `x` into the sorted `s`:
/// before the first summary updated strictly earlier.
pub open spec fn insert_position(s: Seq<AgentSessionSummary>, x: AgentSessionSummary) -> int
    decreases s.len(),
{
    if s.len() == 0 {
        0
    } else if key_lt(updated_key(s[0]), updated_key(x)) {
        0
    } else {
        1 + insert_position(s.drop_first(), x)
    }
}

/// `s` sorted most recently updated first; summaries with the same update
/// time keep their order (`sort_by` on the reversed comparison).
pub open spec fn recent_first(s: Seq<AgentSessionSummary>) -> Seq<AgentSessionSummary>
    decreases s.len(),
{
    if s.len() == 0 {
        Seq::empty()
    } else {
        let r = recent_first(s.drop_last());
        r.insert(insert_position(r, s.last()), s.last())
    }
}

proof fn lemma_recent_first_len(s: Seq<AgentSessionSummary>)
    ensures
        recent_first(s).len() == s.len(),
    decreases s.len(),
{
    if s.len() > 0 {
        lemma_recent_first_len(s.drop_last());
        lemma_insert_position_bounds(recent_first(s.drop_last()), s.last());
    }
}

proof fn lemma_insert_position_bounds(s: Seq<AgentSessionSummary>, x: AgentSessionSummary)
    ensures
        0 <= insert_position(s, x) <= s.len(),
    decreases s.len(),
{
    if s.len() > 0 {
        lemma_insert_position_bounds(s.drop_first(), x);
    }
}

/// Whether `s` lists the most recently updated summaries first.
pub open spec fn newest_first(s: Seq<AgentSessionSummary>) -> bool {
    forall|a: int, b: int| 0 <= a < b < s.len() ==> !key_lt(updated_key(#[trigger] s[a]), updated_key(#[trigger] s[b]))
}

pub(crate) proof fn lemma_text_lt_irreflexive(a: Seq<char>)
    ensures
        !text_lt(a, a),
    decreases a.len(),
{
    if a.len() > 0 {
        lemma_text_lt_irreflexive(a.drop_first());
    }
}

pub(crate) proof fn lemma_text_lt_transitive(a: Seq<char>, b: Seq<char>, c: Seq<char>)
    requires
        text_lt(a, b),
        text_lt(b, c),
    ensures
        text_lt(a, c),
    decreases a.len(),
{
    if a.len() > 0 && b.len() > 0 && c.len() > 0 && a[0] == b[0] && b[0] == c[0] {
        lemma_text_lt_transitive(a.drop_first(), b.drop_first(), c.drop_first());
    }
}

proof fn lemma_text_lt_total(a: Seq<char>, b: Seq<char>)
    ensures
        a == b || text_lt(a, b) || text_lt(b, a),
    decreases a.len(),
{
    if a.len() > 0 && b.len() > 0 && a[0] == b[0] {
        lemma_text_lt_total(a.drop_first(), b.drop_first());
        if a.drop_first() == b.drop_first() {
            assert(a =~= seq![a[0]] + a.drop_first());
            assert(b =~= seq![b[0]] + b.drop_first());
        }
    } else if a.len() == 0 && b.len() == 0 {
        assert(a =~= b);
    }
}

proof fn lemma_key_order(a: Option<Seq<char>>, b: Option<Seq<char>>, c: Option<Seq<char>>)
    ensures
        !key_lt(a, a),
        key_lt(a, b) && key_lt(b, c) ==> key_lt(a, c),
        a == b || key_lt(a, b) || key_lt(b, a),
{
    if let Some(x) = a {
        lemma_text_lt_irreflexive(x);
        if let Some(y) = b {
            lemma_text_lt_total(x, y);
            if let Some(z) = c {
                if text_lt(x, y) && text_lt(y, z) {
                    lemma_text_lt_transitive(x, y, z);
                }
            }
        }
    }
}

proof fn lemma_insert_position_facts(s: Seq<AgentSessionSummary>, x: AgentSessionSummary)
    ensures
        0 <= insert_position(s, x) <= s.len(),
        forall|k: int| 0 <= k < insert_position(s, x) ==> !key_lt(updated_key(#[trigger] s[k]), updated_key(x)),
        insert_position(s, x) < s.len() ==> key_lt(updated_key(s[insert_position(s, x)]), updated_key(x)),
    decreases s.len(),
{
    if s.len() > 0 && !key_lt(updated_key(s[0]), updated_key(x)) {
        lemma_insert_position_facts(s.drop_first(), x);
        assert forall|k: int| 0 <= k < insert_position(s, x) implies !key_lt(
            updated_key(#[trigger] s[k]),
            updated_key(x),
        ) by {
            if k > 0 {
                assert(s[k] == s.drop_first()[k - 1]);
            }
        }
    }
}

proof fn lemma_insert_keeps_newest_first(s: Seq<AgentSessionSummary>, x: AgentSessionSummary)
    requires
        newest_first(s),
    ensures
        newest_first(s.insert(insert_position(s, x), x)),
{
    lemma_insert_position_facts(s, x);
    let p = insert_position(s, x);
    let r = s.insert(p, x);
    assert forall|a: int, b: int| 0 <= a < b < r.len() implies !key_lt(
        updated_key(#[trigger] r[a]),
        updated_key(#[trigger] r[b]),
    ) by {
        if a == p {
            let q = s[b - 1];
            assert(r[b] == q);
            lemma_key_order(updated_key(q), updated_key(s[p]), updated_key(x));
            lemma_key_order(updated_key(x), updated_key(q), updated_key(x));
            if b - 1 > p {
                assert(!key_lt(updated_key(s[p]), updated_key(s[b - 1])));
            }
        } else if b == p {
            assert(r[a] == s[a]);
        } else {
            let a2 = if a < p { a } else { a - 1 };
            let b2 = if b < p { b } else { b - 1 };
            assert(r[a] == s[a2]);
            assert(r[b] == s[b2]);
        }
    }
}

proof fn lemma_recent_first_sorted(s: Seq<AgentSessionSummary>)
    ensures
        newest_first(recent_first(s)),
        recent_first(s).len() == s.len(),
    decreases s.len(),
{
    lemma_recent_first_len(s);
    if s.len() > 0 {
        lemma_recent_first_sorted(s.drop_last());
        lemma_insert_keeps_newest_first(recent_first(s.drop_last()), s.last());
    }
}

/// The Pi listing holds at most `limit` summaries, most recently updated
/// first, and as many as there are when fewer than `limit` exist.
pub proof fn law_pi_listing_newest_first(sessions: Seq<AgentSessionSummary>, limit: usize)
    ensures
        ({
            let n = if limit < sessions.len() {
                limit as int
            } else {
                sessions.len() as int
            };
            let listed = recent_first(sessions).take(n);
            &&& newest_first(listed)
            &&& listed.len() == n
            &&& listed.len() <= limit
        }),
{
    lemma_recent_first_sorted(sessions);
    let n = if limit < sessions.len() {
        limit as int
    } else {
        sessions.len() as int
    };
    let listed = recent_first(sessions).take(n);
    assert forall|a: int, b: int| 0 <= a < b < listed.len() implies !key_lt(
        updated_key(#[trigger] listed[a]),
        updated_key(#[trigger] listed[b]),
    ) by {
        assert(listed[a] == recent_first(sessions)[a]);
        assert(listed[b] == recent_first(sessions)[b]);
    }
}


/// The Pi listing: none for child sessions (Pi has none); else the
/// summaries, most recently updated first, at most `limit` of them.
pub fn list_pi(scope: AgentSessionScope, sessions: Vec<AgentSessionSummary>, limit: usize) -> (r: Vec<
    AgentSessionSummary,
>)
    ensures
        scope == AgentSessionScope::Child ==> r@.len() == 0,
        scope != AgentSessionScope::Child ==> r@ == recent_first(sessions@).take(
            if limit < sessions@.len() {
                limit as int
            } else {
                sessions@.len() as int
            },
        ),
{
    match scope {
        AgentSessionScope::Child => return Vec::new(),
        _ => {},
    }
    let ghost all = sessions@;
    let mut sorted: Vec<AgentSessionSummary> = Vec::new();
    let mut rest = sessions;
    let ghost n = all.len();
    assert(all.take(0) =~= Seq::<AgentSessionSummary>::empty());
    while rest.len() > 0
        invariant
            n == all.len(),
            rest@.len() <= n,
            rest@ == all.skip(n - rest@.len()),
            sorted@ == recent_first(all.take(n - rest@.len())),
        decreases rest.len(),
    {
        let ghost k = n - rest@.len();
        let x = rest.remove(0);
        proof {
            assert(rest@ =~= all.skip(k + 1));
            assert(all.take(k + 1).drop_last() =~= all.take(k));
            assert(all.take(k + 1).last() == x);
            lemma_recent_first_len(all.take(k));
        }
        let mut p: usize = 0;
        assert(sorted@.skip(0) =~= sorted@);
        while p < sorted.len() && !key_less(&sorted[p].updated_at, &x.updated_at)
            invariant
                p <= sorted@.len(),
                insert_position(sorted@, x) == p + insert_position(sorted@.skip(p as int), x),
            decreases sorted.len() - p,
        {
            proof {
                assert(sorted@.skip(p as int).drop_first() =~= sorted@.skip(p + 1));
            }
            p += 1;
        }
        proof {
            if p == sorted@.len() {
                assert(sorted@.skip(p as int) =~= Seq::<AgentSessionSummary>::empty());
            }
        }
        sorted.insert(p, x);
    }
    assert(all.take(n as int) =~= all);
    proof {
        lemma_recent_first_len(all);
    }
    let mut out = sorted;
    if limit < out.len() {
        out.truncate(limit);
    }
    out
}

/// A session with its transcript.
#[derive(Debug, Clone)]
pub struct AgentSessionSnapshot {
    pub session: AgentSessionSummary,
    pub turns: Vec<AgentSessionTurn>,
    pub children: Vec<AgentSessionSummary>,
    pub child_task: Option<AgentSessionChildTask>,
    pub truncated: bool,
}

/// One Pi session file: its path and its lines.
#[derive(Debug, Clone)]
pub struct PiSessionFile {
    pub path: String,
    pub entries: Vec<PiSessionEntry>,
}

/// The message of the error for an unknown Pi session.
pub open spec fn pi_not_found(id: Seq<char>) -> Seq<char> {
    "Pi session '"@ + id + "' was not found"@
}

/// Whether `snap` is the snapshot of session `id` read from `file`.
pub open spec fn snapshot_of(file: PiSessionFile, id: Seq<char>, snap: AgentSessionSnapshot) -> bool {
    let f = crate::transcripts::pi_fold(file.entries@.map_values(|e: PiSessionEntry| e@));
    &&& snap.session.id@ == id
    &&& turns_view(snap.turns@) == f.turns
    &&& snap.truncated == f.truncated
    &&& snap.children@.len() == 0
    &&& snap.child_task is None
}

/// The index of the first of `files`, from `k` on, whose summary has id
/// `id`.
pub open spec fn first_pi_file(files: Seq<PiSessionFile>, id: Seq<char>, k: int) -> Option<int>
    decreases files.len() - k,
{
    if k < 0 || k >= files.len() {
        None
    } else if pi_summary_id(files[k].path@, pi_views(files[k].entries@)) == Some(id) {
        Some(k)
    } else {
        first_pi_file(files, id, k + 1)
    }
}

/// The Pi session `id` among `files`: the first file whose summary has that
/// id gives the session, by its summary and its transcript; an error when no
/// file has it.
pub fn inspect_pi(id: &str, files: Vec<PiSessionFile>) -> (r: Result<AgentSessionSnapshot, crate::sessions::AgentError>)
    ensures
        match first_pi_file(files@, id@, 0) {
            Some(i) => r matches Ok(snap) && is_pi_summary(
                files@[i].path@,
                pi_views(files@[i].entries@),
                snap.session,
            ) && snapshot_of(files@[i], id@, snap),
            None => r matches Err(e) && (e matches crate::sessions::AgentError::NotFound(m) && m@
                == pi_not_found(id@)),
        },
        match r {
            Ok(snap) => exists|i: int|
                0 <= i < files@.len() && #[trigger] snapshot_of(files@[i], id@, snap),
            Err(e) => e matches crate::sessions::AgentError::NotFound(m) && m@ == pi_not_found(id@),
        },
{
    let ghost all = files@;
    let ghost n = all.len();
    let mut rest = files;
    while rest.len() > 0
        invariant
            n == all.len(),
            all == files@,
            rest@.len() <= n,
            rest@ == all.skip(n - rest@.len()),
            first_pi_file(all, id@, 0) == first_pi_file(all, id@, n - rest@.len()),
        decreases rest.len(),
    {
        let ghost k = n - rest@.len();
        let f = rest.remove(0);
        proof {
            assert(f == all[k]);
            assert(rest@ =~= all.skip(k + 1));
        }
        match parse_pi_summary(f.path.as_str(), &f.entries) {
            Some(summary) => {
                if str_eq(summary.id.as_str(), id) {
                    let ghost ents = f.entries@;
                    let (turns, truncated) = crate::transcripts::parse_pi_session(f.entries);
                    let snap = AgentSessionSnapshot {
                        session: summary,
                        turns,
                        children: Vec::new(),
                        child_task: None,
                        truncated,
                    };
                    proof {
                        assert(all[k].entries@ == ents);
                        assert(snap.children@ =~= Seq::<AgentSessionSummary>::empty());
                        assert(snapshot_of(all[k], id@, snap));
                        assert(first_pi_file(all, id@, k) == Some(k));
                    }
                    return Ok(snap);
                }
                proof {
                    assert(first_pi_file(all, id@, k) == first_pi_file(all, id@, k + 1));
                }
            },
            None => {
                proof {
                    assert(first_pi_file(all, id@, k) == first_pi_file(all, id@, k + 1));
                }
            },
        }
    }
    proof {
        assert(first_pi_file(all, id@, n as int) is None);
    }
    let mut m = owned("Pi session '");
    push_str(&mut m, id);
    push_str(&mut m, "' was not found");
    Err(crate::sessions::AgentError::NotFound(m))
}

// ---------------------------------------------------------------------------
// Inspecting a Codex thread, step by step
// ---------------------------------------------------------------------------

/// The abstract lines of a Codex rollout.
pub open spec fn codex_views(entries: Seq<CodexRolloutEntry>) -> Seq<CodexEntryView> {
    entries.map_values(|e: CodexRolloutEntry| e@)
}

/// Whether `s` is the summary of the Codex thread row `row` (see
/// [`codex_summary`]).
pub open spec fn is_codex_summary(row: CodexThreadRow, s: AgentSessionSummary) -> bool {
    &&& s.id@ == row.id@
    &&& s.backend == AgentSessionBackend::Codex
    &&& opt_view(s.title) == non_empty_view(row.title@)
    &&& opt_view(s.cwd) == non_empty_view(row.cwd@)
    &&& opt_view(s.model) == opt_view(row.model)
    &&& opt_view(s.source) == non_empty_view(row.source@)
    &&& opt_view(s.status) == Some(if row.archived == 0 { "active"@ } else { "archived"@ })
    &&& opt_view(s.parent_id) == opt_view(row.parent_id)
    &&& opt_view(s.created_at) == millis_view(row.created_at_ms)
    &&& opt_view(s.updated_at) == millis_view(row.updated_at_ms)
}

/// Whether `s` is the summary of child row `row` of thread `parent_id`
/// (see [`codex_child_summary`]).
pub open spec fn is_codex_child_summary(parent_id: Seq<char>, row: CodexChildRow, s: AgentSessionSummary) -> bool {
    &&& s.id@ == row.id@
    &&& s.backend == AgentSessionBackend::Codex
    &&& opt_view(s.title) == non_empty_view(row.title@)
    &&& opt_view(s.cwd) == non_empty_view(row.cwd@)
    &&& opt_view(s.model) == opt_view(row.model)
    &&& opt_view(s.source) == non_empty_view(row.source@)
    &&& opt_view(s.status) == opt_view(row.status)
    &&& opt_view(s.parent_id) == Some(parent_id)
    &&& opt_view(s.created_at) == millis_view(row.created_at_ms)
    &&& opt_view(s.updated_at) == millis_view(row.updated_at_ms)
}

/// The summaries of the child rows of thread `parent_id`, in order.
pub fn child_summaries(parent_id: &str, rows: Vec<CodexChildRow>) -> (r: Vec<AgentSessionSummary>)
    ensures
        r@.len() == rows@.len(),
        forall|k: int| 0 <= k < rows@.len() ==> #[trigger] is_codex_child_summary(parent_id@, rows@[k], r@[k]),
{
    let ghost all = rows@;
    let ghost n = all.len();
    let mut rest = rows;
    let mut out: Vec<AgentSessionSummary> = Vec::new();
    assert(all.skip(0) =~= all);
    while rest.len() > 0
        invariant
            n == all.len(),
            rest@.len() <= n,
            rest@ == all.skip(n - rest@.len()),
            out@.len() == n - rest@.len(),
            forall|k: int| 0 <= k < out@.len() ==> #[trigger] is_codex_child_summary(parent_id@, all[k], out@[k]),
        decreases rest.len(),
    {
        let ghost k = n - rest@.len();
        let row = rest.remove(0);
        proof {
            assert(row == all[k]);
            assert(rest@ =~= all.skip(k + 1));
        }
        let s = codex_child_summary(parent_id, row);
        out.push(s);
    }
    out
}

/// The message of the error for a Codex home without a state database.
pub const CODEX_STORAGE_NOT_FOUND: &'static str = "Codex session storage was not found";

/// The message of the error for an unknown Codex thread.
pub open spec fn codex_thread_not_found(id: Seq<char>) -> Seq<char> {
    "Codex thread '"@ + id + "' was not found"@
}

/// Where the inspection of a Codex thread stands.
#[derive(Debug)]
pub enum CodexInspectState {
    /// The state database is being looked for among the files of the
    /// Codex home.
    FindingStorage,
    /// The thread's row is being read.
    LoadingThread,
    /// The thread's children are being read.
    LoadingChildren { session: AgentSessionSummary, rollout: String },
    /// The thread's rollout is being read.
    ReadingRollout { session: AgentSessionSummary, children: Vec<AgentSessionSummary>, rollout: String },
    /// The parent's rollout is being read for the dispatch of this child.
    ReadingParent {
        session: AgentSessionSummary,
        children: Vec<AgentSessionSummary>,
        turns: Vec<AgentSessionTurn>,
        truncated: bool,
    },
    /// The inspection is over.
    Finished,
}

/// What the outside work of the last action gave.
#[derive(Debug)]
pub enum CodexInspectEvent {
    /// The paths of the files in the Codex home (none when it is missing).
    HomeListed(Vec<String>),
    /// The thread's row and its rollout path, if the thread exists.
    ThreadLoaded(Result<Option<(CodexThreadRow, String)>, AgentError>),
    /// The rows of the thread's children, oldest first.
    ChildrenLoaded(Result<Vec<CodexChildRow>, AgentError>),
    /// The lines of the thread's rollout.
    RolloutRead(Result<Vec<CodexRolloutEntry>, AgentError>),
    /// The lines of the parent's rollout, if the parent has one that could
    /// be read.
    ParentRolloutRead(Result<Option<Vec<CodexRolloutEntry>>, AgentError>),
}

/// The outside work to do next.
#[derive(Debug)]
pub enum CodexInspectAction {
    /// Read the thread's row from the state database at this path.
    LoadThread(String),
    /// Read the thread's children.
    LoadChildren,
    /// Read the rollout at this path.
    ReadRollout(String),
    /// Read the rollout of the parent thread with this id.
    ReadParentRollout(String),
    /// Answer with this snapshot.
    Respond(AgentSessionSnapshot),
    /// Answer with this error.
    Fail(AgentError),
}

/// Whether `event` answers the action an inspection in `state` asked for.
pub open spec fn codex_event_fits(state: CodexInspectState, event: CodexInspectEvent) -> bool {
    match state {
        CodexInspectState::FindingStorage => event is HomeListed,
        CodexInspectState::LoadingThread => event is ThreadLoaded,
        CodexInspectState::LoadingChildren { .. } => event is ChildrenLoaded,
        CodexInspectState::ReadingRollout { session, .. } => event is RolloutRead,
        CodexInspectState::ReadingParent { session, .. } => event is ParentRolloutRead && session.parent_id is Some,
        CodexInspectState::Finished => false,
    }
}

/// Whether `a` answers with the snapshot of `session` with `children`, the
/// transcript `turns`/`truncated` and the child task `task`.
pub open spec fn responds_with(
    a: CodexInspectAction,
    session: AgentSessionSummary,
    children: Seq<AgentSessionSummary>,
    tv: Seq<TurnView>,
    truncated: bool,
    dispatches: Option<Seq<CodexSpawnDispatch>>,
    with_task: bool,
) -> bool {
    a matches CodexInspectAction::Respond(snap) && snap.session == session && snap.children@ == children
        && turns_view(snap.turns@) == tv && snap.truncated == truncated && (if with_task {
        is_child_task(tv, dispatches, snap.child_task)
    } else {
        snap.child_task is None
    })
}

/// One step of inspecting Codex thread `id`: the newest state database is
/// found or the inspection fails with [`CODEX_STORAGE_NOT_FOUND`]; the
/// thread's row gives its summary (an unknown thread fails); its children
/// and its rollout follow; a child thread's task is taken from its first
/// user message, with the parent's dispatch when the message is not
/// clipped. Any read error ends the inspection with that error.
pub fn codex_inspect_step(state: CodexInspectState, event: CodexInspectEvent, id: &str) -> (r: (
    CodexInspectState,
    CodexInspectAction,
))
    requires
        codex_event_fits(state, event),
    ensures
        match (state, event) {
            (CodexInspectState::FindingStorage, CodexInspectEvent::HomeListed(paths)) => match pick_state_db(
                paths@.map_values(|p: String| p@),
            ) {
                Some((p, _)) => r.0 is LoadingThread && (r.1 matches CodexInspectAction::LoadThread(q) && q@ == p),
                None => r.0 is Finished && (r.1 matches CodexInspectAction::Fail(AgentError::NotFound(m)) && m@
                    == CODEX_STORAGE_NOT_FOUND@),
            },
            (CodexInspectState::LoadingThread, CodexInspectEvent::ThreadLoaded(t)) => match t {
                Err(e) => r.0 is Finished && r.1 == CodexInspectAction::Fail(e),
                Ok(None) => r.0 is Finished && (r.1 matches CodexInspectAction::Fail(AgentError::NotFound(m)) && m@
                    == codex_thread_not_found(id@)),
                Ok(Some((row, rollout))) => r.1 is LoadChildren && (r.0 matches CodexInspectState::LoadingChildren {
                    session,
                    rollout: path,
                } && path@ == rollout@ && is_codex_summary(row, session)),
            },
            (CodexInspectState::LoadingChildren { session, rollout }, CodexInspectEvent::ChildrenLoaded(c)) => match c {
                Err(e) => r.0 is Finished && r.1 == CodexInspectAction::Fail(e),
                Ok(rows) => (r.0 matches CodexInspectState::ReadingRollout { session: s2, children, rollout: p2 }
                    && s2 == session && p2 == rollout && children@.len() == rows@.len() && forall|k: int|
                    0 <= k < rows@.len() ==> #[trigger] is_codex_child_summary(id@, rows@[k], children@[k]))
                    && (r.1 matches CodexInspectAction::ReadRollout(p) && p == rollout),
            },
            (CodexInspectState::ReadingRollout { session, children, .. }, CodexInspectEvent::RolloutRead(e)) => match e {
                Err(err) => r.0 is Finished && r.1 == CodexInspectAction::Fail(err),
                Ok(entries) => {
                    let f = codex_fold(codex_views(entries@));
                    match session.parent_id {
                        None => r.0 is Finished && responds_with(r.1, session, children@, f.turns, f.truncated, None, false),
                        Some(parent) => match first_user_text(all_items(f.turns)) {
                            Some(item) => if !item.truncated {
                                (r.0 matches CodexInspectState::ReadingParent { session: s2, children: c2, turns, truncated }
                                    && s2 == session && c2 == children && turns_view(turns@) == f.turns && truncated
                                    == f.truncated) && (r.1 matches CodexInspectAction::ReadParentRollout(p) && p@ == parent@)
                            } else {
                                r.0 is Finished && responds_with(r.1, session, children@, f.turns, f.truncated, None, true)
                            },
                            None => r.0 is Finished && responds_with(r.1, session, children@, f.turns, f.truncated, None, true),
                        },
                    }
                },
            },
            (CodexInspectState::ReadingParent { session, children, turns, truncated }, CodexInspectEvent::ParentRolloutRead(p)) => match p {
                Err(e) => r.0 is Finished && r.1 == CodexInspectAction::Fail(e),
                Ok(None) => r.0 is Finished && responds_with(r.1, session, children@, turns_view(turns@), truncated, None, true),
                Ok(Some(entries)) => r.0 is Finished && exists|d: Seq<CodexSpawnDispatch>|
                    #[trigger] d.map_values(dispatch_view_fn()) == dispatches_of(entries@) && responds_with(
                        r.1,
                        session,
                        children@,
                        turns_view(turns@),
                        truncated,
                        Some(d),
                        true,
                    ),
            },
            _ => false,
        },
{
    match state {
        CodexInspectState::FindingStorage => match event {
            CodexInspectEvent::HomeListed(paths) => match find_codex_state_db(&paths) {
                Some(db) => (CodexInspectState::LoadingThread, CodexInspectAction::LoadThread(db)),
                None => (
                    CodexInspectState::Finished,
                    CodexInspectAction::Fail(AgentError::NotFound(owned(CODEX_STORAGE_NOT_FOUND))),
                ),
            },
            _ => (CodexInspectState::Finished, CodexInspectAction::LoadChildren),
        },
        CodexInspectState::LoadingThread => match event {
            CodexInspectEvent::ThreadLoaded(t) => match t {
                Err(e) => (CodexInspectState::Finished, CodexInspectAction::Fail(e)),
                Ok(None) => {
                    let mut m = owned("Codex thread '");
                    push_str(&mut m, id);
                    push_str(&mut m, "' was not found");
                    (CodexInspectState::Finished, CodexInspectAction::Fail(AgentError::NotFound(m)))
                },
                Ok(Some((row, rollout))) => {
                    let ghost row0 = row;
                    let session = codex_summary(row);
                    (CodexInspectState::LoadingChildren { session, rollout }, CodexInspectAction::LoadChildren)
                },
            },
            _ => (CodexInspectState::Finished, CodexInspectAction::LoadChildren),
        },
        CodexInspectState::LoadingChildren { session, rollout } => match event {
            CodexInspectEvent::ChildrenLoaded(c) => match c {
                Err(e) => (CodexInspectState::Finished, CodexInspectAction::Fail(e)),
                Ok(rows) => {
                    let children = child_summaries(id, rows);
                    let path = rollout.clone();
                    (CodexInspectState::ReadingRollout { session, children, rollout }, CodexInspectAction::ReadRollout(path))
                },
            },
            _ => (CodexInspectState::Finished, CodexInspectAction::LoadChildren),
        },
        CodexInspectState::ReadingRollout { session, children, .. } => match event {
            CodexInspectEvent::RolloutRead(e) => match e {
                Err(err) => (CodexInspectState::Finished, CodexInspectAction::Fail(err)),
                Ok(entries) => {
                    let ghost ev = codex_views(entries@);
                    proof {
                        assert(entries@.map_values(|e: CodexRolloutEntry| e@) =~= ev);
                    }
                    let (turns, truncated) = crate::transcripts::parse_codex_rollout(entries);
                    match &session.parent_id {
                        None => {
                            let snap = AgentSessionSnapshot { session, turns, children, child_task: None, truncated };
                            (CodexInspectState::Finished, CodexInspectAction::Respond(snap))
                        },
                        Some(parent) => match first_user_message_clipped(&turns) {
                            Some(false) => {
                                let p = owned(parent.as_str());
                                (
                                    CodexInspectState::ReadingParent { session, children, turns, truncated },
                                    CodexInspectAction::ReadParentRollout(p),
                                )
                            },
                            _ => {
                                let child_task = codex_child_task(&turns, None);
                                let snap = AgentSessionSnapshot { session, turns, children, child_task, truncated };
                                (CodexInspectState::Finished, CodexInspectAction::Respond(snap))
                            },
                        },
                    }
                },
            },
            _ => (CodexInspectState::Finished, CodexInspectAction::LoadChildren),
        },
        CodexInspectState::ReadingParent { session, children, turns, truncated } => match event {
            CodexInspectEvent::ParentRolloutRead(p) => match p {
                Err(e) => (CodexInspectState::Finished, CodexInspectAction::Fail(e)),
                Ok(None) => {
                    let child_task = codex_child_task(&turns, None);
                    let snap = AgentSessionSnapshot { session, turns, children, child_task, truncated };
                    (CodexInspectState::Finished, CodexInspectAction::Respond(snap))
                },
                Ok(Some(entries)) => {
                    let d = parse_codex_spawn_dispatches(&entries);
                    let ghost dv = d@;
                    let child_task = codex_child_task(&turns, Some(d));
                    let snap = AgentSessionSnapshot { session, turns, children, child_task, truncated };
                    let a = CodexInspectAction::Respond(snap);
                    proof {
                        assert(dv.map_values(dispatch_view_fn()) == dispatches_of(entries@));
                    }
                    (CodexInspectState::Finished, a)
                },
            },
            _ => (CodexInspectState::Finished, CodexInspectAction::LoadChildren),
        },
        CodexInspectState::Finished => (CodexInspectState::Finished, CodexInspectAction::LoadChildren),
    }
}

// ---------------------------------------------------------------------------
// Store locations
// ---------------------------------------------------------------------------

/// The file name of `path`, if it has one.
pub open spec fn name_of(path: Seq<char>) -> Option<Seq<char>> {
    choose|n: Option<Seq<char>>| file_name_spec(path, n)
}

/// Whether `name` names a Codex state database (`state_*.sqlite`).
pub open spec fn is_state_db(name: Seq<char>) -> bool {
    crate::text::has_prefix(name, "state_"@) && crate::text::has_suffix(name, ".sqlite"@)
}

/// The version a state database is sorted by: the number after `state_`
/// in its stem, or 0.
pub open spec fn state_db_version(name: Seq<char>) -> nat {
    let stem = file_stem_spec(name);
    if crate::text::has_prefix(stem, "state_"@) {
        match crate::text::parse_u64_spec(stem.skip(6)) {
            Some(v) => v,
            None => 0,
        }
    } else {
        0
    }
}

/// The Codex state database among `paths`: of the `state_*.sqlite` files,
/// one with the highest version, the last such in order.
pub open spec fn pick_state_db(paths: Seq<Seq<char>>) -> Option<(Seq<char>, nat)>
    decreases paths.len(),
{
    if paths.len() == 0 {
        None
    } else {
        let prev = pick_state_db(paths.drop_last());
        let p = paths.last();
        match name_of(p) {
            Some(n) => if is_state_db(n) {
                match prev {
                    Some((_, v)) => if state_db_version(n) >= v {
                        Some((p, state_db_version(n)))
                    } else {
                        prev
                    },
                    None => Some((p, state_db_version(n))),
                }
            } else {
                prev
            },
            None => prev,
        }
    }
}

/// Picks the Codex state database among the entries of Codex's home (see
/// [`pick_state_db`]).
pub fn find_codex_state_db(paths: &Vec<String>) -> (r: Option<String>)
    ensures
        match pick_state_db(paths@.map_values(|p: String| p@)) {
            Some((p, _)) => r matches Some(s) && s@ == p,
            None => r is None,
        },
{
    let ghost all = paths@.map_values(|p: String| p@);
    let mut best: Option<(usize, u64)> = None;
    let mut i: usize = 0;
    assert(all.take(0) =~= Seq::<Seq<char>>::empty());
    while i < paths.len()
        invariant
            i <= paths.len(),
            all == paths@.map_values(|p: String| p@),
            match pick_state_db(all.take(i as int)) {
                Some((p, v)) => best matches Some((k, bv)) && k < i && p == paths@[k as int]@ && bv == v,
                None => best is None,
            },
        decreases paths.len() - i,
    {
        proof {
            assert(all.take(i + 1).drop_last() =~= all.take(i as int));
            assert(all.take(i + 1).last() == paths@[i as int]@);
        }
        let name = crate::paths::file_name(paths[i].as_str());
        proof {
            let n = name_of(paths@[i as int]@);
            let got: Option<Seq<char>> = if name is Some {
                Some(name->0@)
            } else {
                None
            };
            crate::paths::lemma_file_name_unique(paths@[i as int]@, n, got);
        }
        match name {
            Some(n) => {
                if crate::text::str_starts_with(n.as_str(), "state_") && crate::text::str_ends_with(
                    n.as_str(),
                    ".sqlite",
                ) {
                    let stem = crate::paths::file_stem(n.as_str());
                    let version: u64 = if crate::text::str_starts_with(stem.as_str(), "state_") {
                        let sv = crate::text::chars_of(stem.as_str());
                        proof {
                            reveal_strlit("state_");
                        }
                        let rest = crate::text::string_from_range(&sv, 6, sv.len());
                        assert(rest@ == stem@.skip(6));
                        match crate::text::parse_u64(rest.as_str()) {
                            Some(v) => v,
                            None => 0,
                        }
                    } else {
                        0
                    };
                    match best {
                        Some((_, bv)) => {
                            if version >= bv {
                                best = Some((i, version));
                            }
                        },
                        None => {
                            best = Some((i, version));
                        },
                    }
                }
            },
            None => {},
        }
        i += 1;
    }
    assert(all.take(paths.len() as int) =~= all);
    match best {
        Some((k, _)) => Some(owned(paths[k].as_str())),
        None => None,
    }
}

/// Where the three agents keep their sessions, from the environment: Codex
/// in `CODEX_HOME` (else `~/.codex`), Pi in `PI_CODING_AGENT_DIR` (else
/// `~/.pi/agent`), OpenCode in `OPENCODE_DATA_DIR`, else
/// `$XDG_DATA_HOME/opencode`, else `~/.local/share/opencode` when that
/// exists, else `opencode` in the platform's local data directory (or in
/// `~/.local/share`).
pub fn session_roots(
    home: &str,
    codex_home: Option<String>,
    pi_agent_dir: Option<String>,
    opencode_data_dir: Option<String>,
    xdg_data_home: Option<String>,
    xdg_opencode_exists: bool,
    data_local_dir: Option<String>,
) -> (r: crate::sessions::AgentSessionInspectionService)
    ensures
        r.codex_home@ == (match codex_home {
            Some(c) => c@,
            None => crate::provider::join_path(home@, ".codex"@),
        }),
        r.pi_agent_dir@ == (match pi_agent_dir {
            Some(p) => p@,
            None => crate::provider::join_path(crate::provider::join_path(home@, ".pi"@), "agent"@),
        }),
        r.opencode_data_dir@ == (match opencode_data_dir {
            Some(o) => o@,
            None => match xdg_data_home {
                Some(x) => crate::provider::join_path(x@, "opencode"@),
                None => if xdg_opencode_exists {
                    crate::provider::join_path(
                        crate::provider::join_path(crate::provider::join_path(home@, ".local"@), "share"@),
                        "opencode"@,
                    )
                } else {
                    crate::provider::join_path(
                        match data_local_dir {
                            Some(d) => d@,
                            None => crate::provider::join_path(
                                crate::provider::join_path(home@, ".local"@),
                                "share"@,
                            ),
                        },
                        "opencode"@,
                    )
                },
            },
        }),
{
    let codex = match codex_home {
        Some(c) => c,
        None => join(home, ".codex"),
    };
    let pi = match pi_agent_dir {
        Some(p) => p,
        None => join(join(home, ".pi").as_str(), "agent"),
    };
    let opencode = match opencode_data_dir {
        Some(o) => o,
        None => match xdg_data_home {
            Some(x) => join(x.as_str(), "opencode"),
            None => {
                let share = join(join(home, ".local").as_str(), "share");
                if xdg_opencode_exists {
                    join(share.as_str(), "opencode")
                } else {
                    match data_local_dir {
                        Some(d) => join(d.as_str(), "opencode"),
                        None => join(share.as_str(), "opencode"),
                    }
                }
            },
        },
    };
    crate::sessions::AgentSessionInspectionService::with_roots(codex, opencode, pi)
}

} // verus!
