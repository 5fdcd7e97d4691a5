//! Decisions around switching a conversation's runtime configuration
//! option: which requests are refused, and which saved preference an
//! observed switch updates.
use vstd::prelude::*;

use crate::api_errors::ConversationError;
use crate::text::{is_blank, is_blank_str, owned, str_eq};

verus! {

/// Reason given when the option id is blank.
pub const EMPTY_OPTION_ID: &'static str = "option_id must not be empty";

/// Reason given when the requested value is blank.
pub const EMPTY_OPTION_VALUE: &'static str = "value must not be empty";

/// Checks a configuration switch request: the option id, then the value,
/// must not be blank.
pub fn check_config_option_request(option_id: &str, value: &str) -> (r: Result<(), ConversationError>)
    ensures
        is_blank(option_id@) ==> (r matches Err(ConversationError::BadRequest { reason }) && reason@
            == EMPTY_OPTION_ID@),
        !is_blank(option_id@) && is_blank(value@) ==> (r matches Err(
            ConversationError::BadRequest { reason },
        ) && reason@ == EMPTY_OPTION_VALUE@),
        !is_blank(option_id@) && !is_blank(value@) ==> r is Ok,
{
    if is_blank_str(option_id) {
        return Err(ConversationError::BadRequest { reason: owned(EMPTY_OPTION_ID) });
    }
    if is_blank_str(value) {
        return Err(ConversationError::BadRequest { reason: owned(EMPTY_OPTION_VALUE) });
    }
    Ok(())
}

/// One configuration option the agent reports back after a switch.
#[derive(Debug, Clone)]
pub struct ConfigOptionInfo {
    pub id: String,
    pub category: Option<String>,
}

/// The category of option `option_id`: that of the first reported option
/// with this id, when it has one; otherwise the id itself.
pub open spec fn option_category(options: Option<Seq<ConfigOptionInfo>>, option_id: Seq<char>) -> Seq<
    char,
> {
    match options {
        Some(o) => match first_with_id(o, option_id) {
            Some(k) => match o[k].category {
                Some(c) => c@,
                None => option_id,
            },
            None => option_id,
        },
        None => option_id,
    }
}

/// The index of the first option of `o` with id `id`.
pub open spec fn first_with_id(o: Seq<ConfigOptionInfo>, id: Seq<char>) -> Option<int> {
    if exists|k: int| 0 <= k < o.len() && #[trigger] o[k].id@ == id {
        Some(
            choose|k: int|
                0 <= k < o.len() && #[trigger] o[k].id@ == id && forall|j: int|
                    0 <= j < k ==> #[trigger] o[j].id@ != id,
        )
    } else {
        None
    }
}

proof fn lemma_first_with_id(o: Seq<ConfigOptionInfo>, id: Seq<char>, k: int)
    requires
        0 <= k < o.len(),
        o[k].id@ == id,
        forall|j: int| 0 <= j < k ==> #[trigger] o[j].id@ != id,
    ensures
        first_with_id(o, id) == Some(k),
{
    let c = choose|c: int|
        0 <= c < o.len() && #[trigger] o[c].id@ == id && forall|j: int| 0 <= j < c ==> #[trigger] o[j].id@ != id;
    assert(0 <= c < o.len() && o[c].id@ == id && forall|j: int| 0 <= j < c ==> #[trigger] o[j].id@ != id);
    if c < k {
        assert(o[c].id@ != id);
    } else if c > k {
        assert(o[k].id@ != id);
    }
}

/// The category an observed switch of `option_id` belongs to (see
/// [`option_category`]).
pub fn config_option_category(options: Option<&Vec<ConfigOptionInfo>>, option_id: &str) -> (r: String)
    ensures
        r@ == option_category(
            match options {
                Some(o) => Some(o@),
                None => None,
            },
            option_id@,
        ),
{
    match options {
        None => owned(option_id),
        Some(o) => {
            let mut i: usize = 0;
            while i < o.len()
                invariant
                    i <= o.len(),
                    options == Some(o),
                    forall|j: int| 0 <= j < i ==> #[trigger] o@[j].id@ != option_id@,
                decreases o.len() - i,
            {
                if str_eq(o[i].id.as_str(), option_id) {
                    proof {
                        lemma_first_with_id(o@, option_id@, i as int);
                    }
                    let info = &o[i];
                    assert(*info == o@[i as int]);
                    let r = match &info.category {
                        Some(c) => owned(c.as_str()),
                        None => owned(option_id),
                    };
                    return r;
                }
                i += 1;
            }
            owned(option_id)
        },
    }
}

/// The saved runtime preference an observed switch updates.
#[derive(Debug, Clone, Copy, PartialEq, Eq, Structural)]
pub enum RuntimePreferenceKind {
    Model,
    Permission,
    ThoughtLevel,
}

/// The preference a category maps to: `model` to the model, `mode` to the
/// permission mode, `thought_level` and `reasoning_effort` to the thought
/// level; no other category is saved.
pub open spec fn preference_for(category: Seq<char>) -> Option<RuntimePreferenceKind> {
    if category == "model"@ {
        Some(RuntimePreferenceKind::Model)
    } else if category == "mode"@ {
        Some(RuntimePreferenceKind::Permission)
    } else if category == "thought_level"@ || category == "reasoning_effort"@ {
        Some(RuntimePreferenceKind::ThoughtLevel)
    } else {
        None
    }
}

/// The preference an observed switch in `category` updates (see
/// [`preference_for`]).
pub fn runtime_preference_for(category: &str) -> (r: Option<RuntimePreferenceKind>)
    ensures
        r == preference_for(category@),
{
    if str_eq(category, "model") {
        Some(RuntimePreferenceKind::Model)
    } else if str_eq(category, "mode") {
        Some(RuntimePreferenceKind::Permission)
    } else if str_eq(category, "thought_level") || str_eq(category, "reasoning_effort") {
        Some(RuntimePreferenceKind::ThoughtLevel)
    } else {
        None
    }
}

// ---------------------------------------------------------------------------
// The switch, step by step
// ---------------------------------------------------------------------------

/// What the agent answered a switch request with.
#[derive(Debug)]
pub struct SwitchReply {
    /// Whether the agent reported the value as in effect (not merely
    /// acknowledged the request).
    pub observed: bool,
    /// The options the agent reported back.
    pub options: Option<Vec<ConfigOptionInfo>>,
}

/// Why the agent could not switch.
#[derive(Debug)]
pub struct SwitchFailure {
    /// The agent's protocol connection is gone.
    pub not_connected: bool,
    /// The failure as the conversation reports it.
    pub error: ConversationError,
}

/// The outside work a switch calls for next.
#[derive(Debug)]
pub enum SwitchAction {
    /// Ask the agent to switch.
    CallAgent,
    /// Answer with `error`; first stop the conversation's agent task when
    /// `evict`.
    Fail { error: ConversationError, evict: bool },
    /// Save the value as this runtime preference (failures to save are only
    /// logged), then answer with the agent's reply.
    Persist(RuntimePreferenceKind),
    /// Answer with the agent's reply.
    Respond,
}

/// The first step of a switch: a valid request goes to the agent.
pub fn switch_begin(option_id: &str, value: &str) -> (a: SwitchAction)
    ensures
        is_blank(option_id@) ==> (a matches SwitchAction::Fail { error: ConversationError::BadRequest { reason }, evict }
            && reason@ == EMPTY_OPTION_ID@ && !evict),
        !is_blank(option_id@) && is_blank(value@) ==> (a matches SwitchAction::Fail {
            error: ConversationError::BadRequest { reason },
            evict,
        } && reason@ == EMPTY_OPTION_VALUE@ && !evict),
        !is_blank(option_id@) && !is_blank(value@) ==> a is CallAgent,
{
    match check_config_option_request(option_id, value) {
        Ok(()) => SwitchAction::CallAgent,
        Err(error) => SwitchAction::Fail { error, evict: false },
    }
}

/// The step after the agent answered: a failure is answered (stopping the
/// agent task when its connection is gone); an observed switch of a model,
/// mode or thought-level option is saved as a preference; everything else
/// is answered as it is.
pub fn switch_answered(reply: Result<SwitchReply, SwitchFailure>, option_id: &str) -> (a: SwitchAction)
    ensures
        match reply {
            Err(f) => a == (SwitchAction::Fail { error: f.error, evict: f.not_connected }),
            Ok(rep) => if rep.observed {
                match preference_for(
                    option_category(
                        match rep.options {
                            Some(o) => Some(o@),
                            None => None,
                        },
                        option_id@,
                    ),
                ) {
                    Some(k) => a == SwitchAction::Persist(k),
                    None => a is Respond,
                }
            } else {
                a is Respond
            },
        },
{
    match reply {
        Err(f) => SwitchAction::Fail { error: f.error, evict: f.not_connected },
        Ok(rep) => {
            if !rep.observed {
                return SwitchAction::Respond;
            }
            let category = config_option_category(rep.options.as_ref(), option_id);
            match runtime_preference_for(category.as_str()) {
                Some(k) => SwitchAction::Persist(k),
                None => SwitchAction::Respond,
            }
        },
    }
}

} // verus!
