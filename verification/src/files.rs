//! File references of chat messages and the workspace an upload is saved
//! to: how a reference is routed, which relative paths a project file may
//! use, which workspace a conversation names, and how a workspace is found
//! among a user's conversations.
use vstd::prelude::*;

use crate::components::{has_parent_component, mentions_parent, path_components, same_path};
use crate::text::{chars_of, owned, str_eq, string_from_range, trim, trim_seq};

verus! {

/// A stable reference to a file shown in a chat.
#[derive(Debug, Clone, PartialEq, Eq)]
pub enum ChatFileRef {
    Project { pe_id: String, relative_path: String },
    Upload { path: String },
    Local { path: String },
}

/// How a file reference is resolved.
#[derive(Debug, Clone, PartialEq, Eq)]
pub enum ChatFileRoute {
    /// A local file an administrator may open anywhere.
    Local { path: String },
    /// An uploaded file, looked up among the user's upload locations (with
    /// the managed temporary directory for administrators).
    Upload { path: String, is_admin: bool },
    /// A file of a project folder.
    Project { pe_id: String, relative_path: String },
}

/// The route of a file reference: local paths are opened directly for
/// administrators only; for other users they are treated as uploads.
pub fn chat_file_route(file: ChatFileRef, is_admin: bool) -> (r: ChatFileRoute)
    ensures
        match file {
            ChatFileRef::Local { path } => if is_admin {
                r == ChatFileRoute::Local { path }
            } else {
                r == ChatFileRoute::Upload { path, is_admin: false }
            },
            ChatFileRef::Upload { path } => r == ChatFileRoute::Upload { path, is_admin },
            ChatFileRef::Project { pe_id, relative_path } => r == ChatFileRoute::Project { pe_id, relative_path },
        },
{
    match file {
        ChatFileRef::Local { path } => if is_admin {
            ChatFileRoute::Local { path }
        } else {
            ChatFileRoute::Upload { path, is_admin: false }
        },
        ChatFileRef::Upload { path } => ChatFileRoute::Upload { path, is_admin },
        ChatFileRef::Project { pe_id, relative_path } => ChatFileRoute::Project { pe_id, relative_path },
    }
}

/// Whether a project file may be named by `relative`: it is not absolute
/// and has no `..` component.
pub open spec fn project_path_allowed(relative: Seq<char>) -> bool {
    !(relative.len() > 0 && relative[0] == '/') && !has_parent_component(relative)
}

/// Checks a project-relative file path (see [`project_path_allowed`]).
pub fn project_relative_path_allowed(relative: &str) -> (r: bool)
    ensures
        r == project_path_allowed(relative@),
{
    let v = crate::text::chars_of(relative);
    let absolute = v.len() > 0 && v[0] == '/';
    !absolute && !mentions_parent(relative)
}

/// Failures of file operations.
#[derive(Debug, Clone, PartialEq, Eq)]
pub enum FileError {
    NotFound(String),
    BadRequest(String),
    Internal(String),
}

/// A key of a conversation's settings object, as the workspace lookup sees
/// it: absent, a string, or another JSON value.
#[derive(Debug, Clone, PartialEq, Eq)]
pub enum SettingValue {
    Absent,
    Text(String),
    Other,
}

/// The workspace a conversation's settings name for authorization: the
/// first of `workspace`, `workspacePath` and `workspace_path` that is
/// present, when it is a string.
pub open spec fn workspace_setting(a: SettingValue, b: SettingValue, c: SettingValue) -> Option<Seq<char>> {
    let chosen = if !(a is Absent) {
        a
    } else if !(b is Absent) {
        b
    } else {
        c
    };
    match chosen {
        SettingValue::Text(t) => Some(t@),
        _ => None,
    }
}

/// The workspace a conversation's settings name (see
/// [`workspace_setting`]).
pub fn workspace_candidate(a: &SettingValue, b: &SettingValue, c: &SettingValue) -> (r: Option<String>)
    ensures
        match r {
            Some(s) => workspace_setting(*a, *b, *c) == Some(s@),
            None => workspace_setting(*a, *b, *c) is None,
        },
{
    let chosen = match a {
        SettingValue::Absent => match b {
            SettingValue::Absent => c,
            _ => b,
        },
        _ => a,
    };
    match chosen {
        SettingValue::Text(t) => Some(owned(t.as_str())),
        _ => None,
    }
}

/// The preference key that makes uploads go to the workspace.
pub const SAVE_UPLOAD_TO_WORKSPACE_KEY: &'static str = "upload.saveToWorkspace";

/// Whether `c` is JSON whitespace.
pub open spec fn json_ws(c: char) -> bool {
    c == ' ' || c == '\t' || c == '\n' || c == '\r'
}

/// `s` without its leading JSON whitespace.
pub open spec fn skip_ws_front(s: Seq<char>) -> Seq<char>
    decreases s.len(),
{
    if s.len() > 0 && json_ws(s[0]) {
        skip_ws_front(s.drop_first())
    } else {
        s
    }
}

/// `s` without its trailing JSON whitespace.
pub open spec fn skip_ws_back(s: Seq<char>) -> Seq<char>
    decreases s.len(),
{
    if s.len() > 0 && json_ws(s.last()) {
        skip_ws_back(s.drop_last())
    } else {
        s
    }
}

/// The boolean the JSON text `text` holds (`serde_json::from_str::<bool>`):
/// `true` or `false` with optional whitespace around it; `None` for any
/// other text.
pub open spec fn json_bool(text: Seq<char>) -> Option<bool> {
    let t = skip_ws_back(skip_ws_front(text));
    if t == "true"@ {
        Some(true)
    } else if t == "false"@ {
        Some(false)
    } else {
        None
    }
}

/// Reads `text` as a JSON boolean (see [`json_bool`]).
fn parse_json_bool(text: &str) -> (r: Option<bool>)
    ensures
        r == json_bool(text@),
{
    let v = chars_of(text);
    let mut i: usize = 0;
    assert(v@.skip(0) =~= v@);
    while i < v.len() && (v[i] == ' ' || v[i] == '\t' || v[i] == '\n' || v[i] == '\r')
        invariant
            i <= v.len(),
            skip_ws_front(v@) == skip_ws_front(v@.skip(i as int)),
        decreases v.len() - i,
    {
        assert(v@.skip(i as int).drop_first() =~= v@.skip(i + 1));
        i += 1;
    }
    assert(skip_ws_front(v@) == v@.skip(i as int));
    let mut j: usize = v.len();
    assert(v@.skip(i as int) =~= v@.subrange(i as int, j as int));
    while j > i && (v[j - 1] == ' ' || v[j - 1] == '\t' || v[j - 1] == '\n' || v[j - 1] == '\r')
        invariant
            i <= j <= v.len(),
            skip_ws_back(v@.skip(i as int)) == skip_ws_back(v@.subrange(i as int, j as int)),
        decreases j - i,
    {
        assert(v@.subrange(i as int, j as int).drop_last() =~= v@.subrange(i as int, j - 1));
        j -= 1;
    }
    assert(skip_ws_back(v@.subrange(i as int, j as int)) == v@.subrange(i as int, j as int));
    let t = string_from_range(&v, i, j);
    if str_eq(t.as_str(), "true") {
        Some(true)
    } else if str_eq(t.as_str(), "false") {
        Some(false)
    } else {
        None
    }
}

/// The saved preference: the value of the first preference row, when it
/// is a JSON boolean; off otherwise.
pub fn save_to_workspace_enabled(first_value: Option<&str>) -> (r: bool)
    ensures
        r == match first_value {
            Some(v) => json_bool(v@) == Some(true),
            None => false,
        },
{
    match first_value {
        Some(v) => match parse_json_bool(v) {
            Some(b) => b,
            None => false,
        },
        None => false,
    }
}

/// Decides where uploads of a conversation go, given whether the request
/// forces the workspace and what the saved preference says.
pub struct AppUploadWorkspaceResolver<C, P> {
    pub conversation_repo: C,
    pub preference_repo: P,
}

impl<C, P> AppUploadWorkspaceResolver<C, P> {
    /// A resolver reading conversations and preferences from the given
    /// stores.
    pub fn new(conversation_repo: C, preference_repo: P) -> (r: Self)
        ensures
            r.conversation_repo == conversation_repo,
            r.preference_repo == preference_repo,
    {
        AppUploadWorkspaceResolver { conversation_repo, preference_repo }
    }

    /// Whether the workspace is looked up at all: when forced, or when the
    /// user saves uploads to the workspace.
    pub fn uses_workspace(force_workspace: bool, enabled: bool) -> (r: bool)
        ensures
            r == (force_workspace || enabled),
    {
        force_workspace || enabled
    }

    /// The upload workspace of a conversation: the conversation must exist
    /// and belong to `user_id`, and its settings must name a workspace that
    /// is a non-blank string (returned as written).
    pub fn conversation_workspace(
        owner: Option<&str>,
        user_id: &str,
        workspace: &SettingValue,
    ) -> (r: Result<String, FileError>)
        ensures
            match owner {
                Some(o) if o@ == user_id@ => match workspace {
                    SettingValue::Text(w) => if trim_seq(w@).len() > 0 {
                        r matches Ok(s) && s@ == w@
                    } else {
                        r matches Err(FileError::BadRequest(m)) && m@ == "conversation workspace not found"@
                    },
                    _ => r matches Err(FileError::BadRequest(m)) && m@ == "conversation workspace not found"@,
                },
                _ => r matches Err(FileError::NotFound(m)) && m@ == "conversation not found"@,
            },
    {
        let owned_by_user = match owner {
            Some(o) => crate::text::str_eq(o, user_id),
            None => false,
        };
        if !owned_by_user {
            return Err(FileError::NotFound(owned("conversation not found")));
        }
        match workspace {
            SettingValue::Text(w) => {
                let t = trim(w.as_str());
                if t.as_str().unicode_len() > 0 {
                    Ok(owned(w.as_str()))
                } else {
                    Err(FileError::BadRequest(owned("conversation workspace not found")))
                }
            },
            _ => Err(FileError::BadRequest(owned("conversation workspace not found"))),
        }
    }

    /// Whether one of the resolved workspaces of a page of conversations is
    /// the requested (resolved) workspace.
    pub fn page_authorizes(resolved: &Vec<Option<String>>, requested: &str) -> (r: bool)
        ensures
            r == exists|i: int|
                0 <= i < resolved@.len() && (#[trigger] resolved@[i] matches Some(p) && path_components(p@)
                    == path_components(requested@)),
    {
        let mut i: usize = 0;
        while i < resolved.len()
            invariant
                i <= resolved.len(),
                forall|j: int|
                    0 <= j < i ==> !(#[trigger] resolved@[j] matches Some(p) && path_components(p@)
                        == path_components(requested@)),
            decreases resolved.len() - i,
        {
            match &resolved[i] {
                Some(p) => {
                    if same_path(p.as_str(), requested) {
                        return true;
                    }
                },
                None => {},
            }
            i += 1;
        }
        false
    }

    /// The cursor of the next page of conversations to look through: the
    /// id of the last conversation, while there are more.
    pub fn next_page(has_more: bool, last_id: Option<String>) -> (r: Option<String>)
        ensures
            has_more ==> r == last_id,
            !has_more ==> r is None,
    {
        if has_more {
            last_id
        } else {
            None
        }
    }
}

} // verus!
