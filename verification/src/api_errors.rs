//! Failures of conversation operations and the API errors they are
//! answered with.
use vstd::prelude::*;

use crate::text::{owned, push_str};

verus! {

/// Failures of conversation operations.
#[derive(Debug, Clone, PartialEq, Eq)]
pub enum ConversationError {
    NotFound { id: String },
    MessageNotFound { id: String },
    ArtifactNotFound { id: String },
    ActiveAgentNotFound { conversation_id: String },
    Archived { id: String, reason: String },
    BadRequest { reason: String },
    Busy { reason: String },
    Forbidden { reason: String },
    NotFoundReason { reason: String },
    Unauthorized { reason: String },
    RateLimited,
    BadGateway { reason: String },
    Timeout { reason: String },
    ConfigConfirmationTimeout {
        conversation_id: String,
        option_id: String,
        requested: String,
        last_observed: String,
    },
    ConfigUpdateInProgress { conversation_id: String, option_id: String, requested: String },
    TeamRuntimeRequired { conversation_id: String, team_id: String },
    Unprocessable { reason: String },
    Internal { reason: String },
    WorkspacePathUnavailable { path: String },
    WorkspacePathRuntimeUnavailable { path: String },
    OpenClawGatewayUnreachable { detail: String },
    /// An agent protocol failure, by its message.
    Acp(String),
}

/// A value in the details of a coded API error.
#[derive(Debug, Clone, PartialEq, Eq)]
pub enum DetailValue {
    Text(String),
    Number(i64),
}

/// The errors the API answers with. A coded error carries its HTTP
/// status, a machine-readable code, a public message and details (keys
/// with values, in key order).
#[derive(Debug, Clone, PartialEq, Eq)]
pub enum ApiError {
    NotFound(String),
    ConversationArchived(String),
    BadRequest(String),
    Conflict(String),
    Forbidden(String),
    Unauthorized(String),
    RateLimited,
    BadGateway(String),
    Timeout(String),
    UnprocessableEntity(String),
    Internal(String),
    WorkspacePathUnavailable(String),
    WorkspacePathRuntimeUnavailable(String),
    Coded { status: u16, code: String, message: String, details: Vec<(String, DetailValue)> },
}

/// HTTP status 504 Gateway Timeout.
pub const GATEWAY_TIMEOUT: u16 = 504;

/// HTTP status 409 Conflict.
pub const CONFLICT: u16 = 409;

/// HTTP status 502 Bad Gateway.
pub const BAD_GATEWAY: u16 = 502;

/// The port the OpenClaw gateway is expected on.
pub const OPENCLAW_GATEWAY_PORT: i64 = 18789;

impl ApiError {
    /// The HTTP status of a coded error.
    pub fn status_code(&self) -> (r: Option<u16>)
        ensures
            match self {
                ApiError::Coded { status, .. } => r == Some(*status),
                _ => r is None,
            },
    {
        match self {
            ApiError::Coded { status, .. } => Some(*status),
            _ => None,
        }
    }

    /// The code of a coded error.
    pub fn error_code(&self) -> (r: Option<String>)
        ensures
            match self {
                ApiError::Coded { code, .. } => r matches Some(c) && c@ == code@,
                _ => r is None,
            },
    {
        match self {
            ApiError::Coded { code, .. } => Some(owned(code.as_str())),
            _ => None,
        }
    }

    /// The public message of a coded error.
    pub fn public_message(&self) -> (r: Option<String>)
        ensures
            match self {
                ApiError::Coded { message, .. } => r matches Some(m) && m@ == message@,
                _ => r is None,
            },
    {
        match self {
            ApiError::Coded { message, .. } => Some(owned(message.as_str())),
            _ => None,
        }
    }

    /// The value of detail `key` of a coded error (the first one under
    /// that key).
    pub fn error_detail(&self, key: &str) -> (r: Option<DetailValue>)
        ensures
            match self {
                ApiError::Coded { details, .. } => match r {
                    Some(v) => exists|i: int|
                        0 <= i < details@.len() && details@[i].0@ == key@ && same_detail(
                            details@[i].1,
                            v,
                        ) && forall|j: int| 0 <= j < i ==> #[trigger] details@[j].0@ != key@,
                    None => forall|j: int| 0 <= j < details@.len() ==> #[trigger] details@[j].0@ != key@,
                },
                _ => r is None,
            },
    {
        match self {
            ApiError::Coded { details, .. } => {
                let mut i: usize = 0;
                while i < details.len()
                    invariant
                        i <= details.len(),
                        (*self matches ApiError::Coded { details: d, .. } && d@ == details@),
                        forall|j: int| 0 <= j < i ==> #[trigger] details@[j].0@ != key@,
                    decreases details.len() - i,
                {
                    if crate::text::str_eq(details[i].0.as_str(), key) {
                        let v = match &details[i].1 {
                            DetailValue::Text(t) => DetailValue::Text(owned(t.as_str())),
                            DetailValue::Number(n) => DetailValue::Number(*n),
                        };
                        assert(same_detail(details@[i as int].1, v));
                        return Some(v);
                    }
                    i += 1;
                }
                None
            },
            _ => None,
        }
    }
}

/// Whether two detail values are equal.
pub open spec fn same_detail(a: DetailValue, b: DetailValue) -> bool {
    match (a, b) {
        (DetailValue::Text(x), DetailValue::Text(y)) => x@ == y@,
        (DetailValue::Number(x), DetailValue::Number(y)) => x == y,
        _ => false,
    }
}

fn text_detail(key: &str, value: &str) -> (r: (String, DetailValue))
    ensures
        r.0@ == key@,
        r.1 matches DetailValue::Text(t) && t@ == value@,
{
    (owned(key), DetailValue::Text(owned(value)))
}

/// `prefix`, `id` and `suffix`, joined.
fn around(prefix: &str, id: &str, suffix: &str) -> (r: String)
    ensures
        r@ == prefix@ + id@ + suffix@,
{
    let mut s = owned(prefix);
    push_str(&mut s, id);
    push_str(&mut s, suffix);
    s
}

/// The text of the detail `key` at position `i` of `details`.
pub open spec fn text_detail_at(details: Seq<(String, DetailValue)>, i: int, key: Seq<char>, value: Seq<char>) -> bool {
    &&& 0 <= i < details.len()
    &&& details[i].0@ == key
    &&& details[i].1 matches DetailValue::Text(t) && t@ == value
}

/// The API error a conversation failure is answered with: lookups that
/// fail answer "not found" with the missing item named, the reasons of the
/// other failures are passed on under the matching API error, and the
/// failures that clients handle specially answer coded errors.
pub fn api_error_from(error: ConversationError) -> (r: ApiError)
    ensures
        match error {
            ConversationError::NotFound { id } => r matches ApiError::NotFound(m) && m@ == "Conversation "@
                + id@ + " not found"@,
            ConversationError::MessageNotFound { id } => r matches ApiError::NotFound(m) && m@ == "Message "@
                + id@ + " not found"@,
            ConversationError::ArtifactNotFound { id } => r matches ApiError::NotFound(m) && m@
                == "Artifact "@ + id@ + " not found"@,
            ConversationError::ActiveAgentNotFound { .. } => r matches ApiError::NotFound(m) && m@
                == "No active agent for this conversation"@,
            ConversationError::Archived { reason, .. } => r == ApiError::ConversationArchived(reason),
            ConversationError::BadRequest { reason } => r == ApiError::BadRequest(reason),
            ConversationError::Busy { reason } => r == ApiError::Conflict(reason),
            ConversationError::Forbidden { reason } => r == ApiError::Forbidden(reason),
            ConversationError::NotFoundReason { reason } => r == ApiError::NotFound(reason),
            ConversationError::Unauthorized { reason } => r == ApiError::Unauthorized(reason),
            ConversationError::RateLimited => r == ApiError::RateLimited,
            ConversationError::BadGateway { reason } => r == ApiError::BadGateway(reason),
            ConversationError::Timeout { reason } => r == ApiError::Timeout(reason),
            ConversationError::ConfigConfirmationTimeout {
                conversation_id,
                option_id,
                requested,
                last_observed,
            } => r matches ApiError::Coded { status, code, message, details } && status
                == GATEWAY_TIMEOUT && code@ == "confirmation_timeout"@ && message@
                == "ACP runtime did not confirm the requested config option before timeout"@
                && details@.len() == 4 && text_detail_at(details@, 0, "conversation_id"@, conversation_id@)
                && text_detail_at(details@, 1, "last_observed"@, last_observed@) && text_detail_at(
                details@,
                2,
                "option_id"@,
                option_id@,
            ) && text_detail_at(details@, 3, "requested"@, requested@),
            ConversationError::ConfigUpdateInProgress { conversation_id, option_id, requested } => r matches ApiError::Coded {
                status,
                code,
                message,
                details,
            } && status == CONFLICT && code@ == "config_update_in_progress"@ && message@
                == "ACP config update is already in progress"@ && details@.len() == 3 && text_detail_at(
                details@,
                0,
                "conversation_id"@,
                conversation_id@,
            ) && text_detail_at(details@, 1, "option_id"@, option_id@) && text_detail_at(
                details@,
                2,
                "requested"@,
                requested@,
            ),
            ConversationError::TeamRuntimeRequired { conversation_id, team_id } => r matches ApiError::Coded {
                status,
                code,
                message,
                details,
            } && status == CONFLICT && code@ == "TEAM_RUNTIME_REQUIRED"@ && message@
                == "This conversation belongs to a team; use the team runtime session"@
                && details@.len() == 2 && text_detail_at(details@, 0, "conversation_id"@, conversation_id@)
                && text_detail_at(details@, 1, "team_id"@, team_id@),
            ConversationError::Unprocessable { reason } => r == ApiError::UnprocessableEntity(reason),
            ConversationError::Internal { reason } => r == ApiError::Internal(reason),
            ConversationError::WorkspacePathUnavailable { path } => r == ApiError::WorkspacePathUnavailable(
                path,
            ),
            ConversationError::WorkspacePathRuntimeUnavailable { path } => r
                == ApiError::WorkspacePathRuntimeUnavailable(path),
            ConversationError::OpenClawGatewayUnreachable { detail } => r matches ApiError::Coded {
                status,
                code,
                message,
                details,
            } && status == BAD_GATEWAY && code@ == "USER_AGENT_OPENCLAW_GATEWAY_UNREACHABLE"@ && message@
                == "OpenClaw Gateway is not reachable"@ && details@.len() == 4 && text_detail_at(
                details@,
                0,
                "backend"@,
                "openclaw"@,
            ) && text_detail_at(details@, 1, "detail"@, detail@) && text_detail_at(
                details@,
                2,
                "error_kind"@,
                "openclaw_gateway_unreachable"@,
            ) && details@[3].0@ == "port"@ && details@[3].1 == DetailValue::Number(OPENCLAW_GATEWAY_PORT),
            ConversationError::Acp(_) => r matches ApiError::BadGateway(m) && m@ == "Agent protocol error"@,
        },
{
    match error {
        ConversationError::NotFound { id } => ApiError::NotFound(around("Conversation ", id.as_str(), " not found")),
        ConversationError::MessageNotFound { id } => ApiError::NotFound(around("Message ", id.as_str(), " not found")),
        ConversationError::ArtifactNotFound { id } => ApiError::NotFound(around("Artifact ", id.as_str(), " not found")),
        ConversationError::ActiveAgentNotFound { .. } => ApiError::NotFound(
            owned("No active agent for this conversation"),
        ),
        ConversationError::Archived { reason, .. } => ApiError::ConversationArchived(reason),
        ConversationError::BadRequest { reason } => ApiError::BadRequest(reason),
        ConversationError::Busy { reason } => ApiError::Conflict(reason),
        ConversationError::Forbidden { reason } => ApiError::Forbidden(reason),
        ConversationError::NotFoundReason { reason } => ApiError::NotFound(reason),
        ConversationError::Unauthorized { reason } => ApiError::Unauthorized(reason),
        ConversationError::RateLimited => ApiError::RateLimited,
        ConversationError::BadGateway { reason } => ApiError::BadGateway(reason),
        ConversationError::Timeout { reason } => ApiError::Timeout(reason),
        ConversationError::ConfigConfirmationTimeout { conversation_id, option_id, requested, last_observed } => {
            let mut details: Vec<(String, DetailValue)> = Vec::new();
            details.push(text_detail("conversation_id", conversation_id.as_str()));
            details.push(text_detail("last_observed", last_observed.as_str()));
            details.push(text_detail("option_id", option_id.as_str()));
            details.push(text_detail("requested", requested.as_str()));
            ApiError::Coded {
                status: GATEWAY_TIMEOUT,
                code: owned("confirmation_timeout"),
                message: owned("ACP runtime did not confirm the requested config option before timeout"),
                details,
            }
        },
        ConversationError::ConfigUpdateInProgress { conversation_id, option_id, requested } => {
            let mut details: Vec<(String, DetailValue)> = Vec::new();
            details.push(text_detail("conversation_id", conversation_id.as_str()));
            details.push(text_detail("option_id", option_id.as_str()));
            details.push(text_detail("requested", requested.as_str()));
            ApiError::Coded {
                status: CONFLICT,
                code: owned("config_update_in_progress"),
                message: owned("ACP config update is already in progress"),
                details,
            }
        },
        ConversationError::TeamRuntimeRequired { conversation_id, team_id } => {
            let mut details: Vec<(String, DetailValue)> = Vec::new();
            details.push(text_detail("conversation_id", conversation_id.as_str()));
            details.push(text_detail("team_id", team_id.as_str()));
            ApiError::Coded {
                status: CONFLICT,
                code: owned("TEAM_RUNTIME_REQUIRED"),
                message: owned("This conversation belongs to a team; use the team runtime session"),
                details,
            }
        },
        ConversationError::Unprocessable { reason } => ApiError::UnprocessableEntity(reason),
        ConversationError::Internal { reason } => ApiError::Internal(reason),
        ConversationError::WorkspacePathUnavailable { path } => ApiError::WorkspacePathUnavailable(path),
        ConversationError::WorkspacePathRuntimeUnavailable { path } => ApiError::WorkspacePathRuntimeUnavailable(path),
        ConversationError::OpenClawGatewayUnreachable { detail } => {
            let mut details: Vec<(String, DetailValue)> = Vec::new();
            details.push(text_detail("backend", "openclaw"));
            details.push(text_detail("detail", detail.as_str()));
            details.push(text_detail("error_kind", "openclaw_gateway_unreachable"));
            details.push((owned("port"), DetailValue::Number(OPENCLAW_GATEWAY_PORT)));
            ApiError::Coded {
                status: BAD_GATEWAY,
                code: owned("USER_AGENT_OPENCLAW_GATEWAY_UNREACHABLE"),
                message: owned("OpenClaw Gateway is not reachable"),
                details,
            }
        },
        ConversationError::Acp(_) => ApiError::BadGateway(owned("Agent protocol error")),
    }
}


/// Administrator-only routes refuse other users.
pub fn require_admin(is_admin: bool) -> (r: Result<(), ApiError>)
    ensures
        is_admin ==> r is Ok,
        !is_admin ==> (r matches Err(ApiError::Forbidden(m)) && m@ == "Administrator access required"@),
{
    if is_admin {
        Ok(())
    } else {
        Err(ApiError::Forbidden(owned("Administrator access required")))
    }
}

} // verus!
