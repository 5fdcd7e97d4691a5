//! Opaque continuation tokens: a version prefix, then the URL-safe,
//! unpadded base64 of the token's JSON bytes. The library frames and
//! unframes tokens and checks the decoded cursor fields; turning the JSON
//! bytes into field values is the serializer's work.
use vstd::prelude::*;

use crate::api_errors::ConversationError;
use crate::text::{chars_of, has_prefix, owned, push_str, str_eq, string_from_range, trim, trim_seq};

verus! {

/// The URL-safe, unpadded base64 text of `bytes`.
pub uninterp spec fn base64_url_encoded(bytes: Seq<u8>) -> Seq<char>;

/// The bytes the URL-safe, unpadded base64 text `text` stands for, if it is
/// valid.
pub uninterp spec fn base64_url_decoded(text: Seq<char>) -> Option<Seq<u8>>;

/// Encodes `bytes` with the base64 crate's `URL_SAFE_NO_PAD` engine. The
/// result is named [`base64_url_encoded`]; decoding it with the same engine
/// gives the bytes back.
#[verifier::external_body]
fn base64_encode(bytes: &[u8]) -> (r: String)
    ensures
        r@ == base64_url_encoded(bytes@),
        base64_url_decoded(r@) == Some(bytes@),
{
    base64::Engine::encode(&base64::engine::general_purpose::URL_SAFE_NO_PAD, bytes)
}

/// Decodes `text` with the base64 crate's `URL_SAFE_NO_PAD` engine; `None`
/// when the engine reports an error. The result is named
/// [`base64_url_decoded`].
#[verifier::external_body]
fn base64_decode(text: &str) -> (r: Option<Vec<u8>>)
    ensures
        match r {
            Some(b) => base64_url_decoded(text@) == Some(b@),
            None => base64_url_decoded(text@) is None,
        },
{
    base64::Engine::decode(&base64::engine::general_purpose::URL_SAFE_NO_PAD, text).ok()
}

/// `prefix` followed by the base64 text of `bytes`.
pub open spec fn framed(prefix: Seq<char>, bytes: Seq<u8>) -> Seq<char> {
    prefix + base64_url_encoded(bytes)
}

/// The bytes a token carries under `prefix`: `None` without the prefix or
/// when the rest is not valid base64.
pub open spec fn unframed(prefix: Seq<char>, token: Seq<char>) -> Option<Seq<u8>> {
    if has_prefix(token, prefix) {
        base64_url_decoded(token.skip(prefix.len() as int))
    } else {
        None
    }
}

fn frame(prefix: &str, bytes: &[u8]) -> (r: String)
    ensures
        r@ == framed(prefix@, bytes@),
        unframed(prefix@, r@) == Some(bytes@),
{
    let mut r = owned(prefix);
    let enc = base64_encode(bytes);
    push_str(&mut r, enc.as_str());
    proof {
        assert(r@.take(prefix@.len() as int) =~= prefix@);
        assert(r@.skip(prefix@.len() as int) =~= enc@);
    }
    r
}

fn unframe(prefix: &str, token: &str) -> (r: Option<Vec<u8>>)
    ensures
        match r {
            Some(b) => unframed(prefix@, token@) == Some(b@),
            None => unframed(prefix@, token@) is None,
        },
{
    if !crate::text::str_starts_with(token, prefix) {
        return None;
    }
    let v = chars_of(token);
    let p = chars_of(prefix);
    let rest = string_from_range(&v, p.len(), v.len());
    base64_decode(rest.as_str())
}

// ---------------------------------------------------------------------------
// Message cursors
// ---------------------------------------------------------------------------

/// The version prefix of message-page cursors.
pub const MESSAGE_CURSOR_PREFIX: &'static str = "v1.";

/// The version prefix of message-search cursors.
pub const SEARCH_CURSOR_PREFIX: &'static str = "v1s.";

/// The error reason of a rejected message cursor.
pub const INVALID_MESSAGE_CURSOR: &'static str = "invalid message cursor";

/// The error reason of a rejected message-search cursor.
pub const INVALID_SEARCH_CURSOR: &'static str = "invalid message search cursor";

/// A position in a conversation's message list.
#[derive(Debug, Clone, PartialEq, Eq)]
pub struct MessagePageCursor {
    pub created_at: i64,
    pub id: String,
}

/// The fields of a message-page cursor token.
#[derive(Debug, Clone, PartialEq, Eq)]
pub struct MessageCursorV1 {
    pub created_at: i64,
    pub id: String,
}

/// The fields of a message-search cursor token: the position, and the
/// search it was issued for (tokens without a scope decode as a
/// whole-transcript search).
#[derive(Debug, Clone, PartialEq, Eq)]
pub struct MessageSearchCursorV1 {
    pub created_at: i64,
    pub id: String,
    pub keyword: String,
    pub user_id: String,
    pub user_only: bool,
}

fn bad_request(reason: &str) -> (e: ConversationError)
    ensures
        e matches ConversationError::BadRequest { reason: r } && r@ == reason@,
{
    ConversationError::BadRequest { reason: owned(reason) }
}

/// The token fields of a message-page cursor.
pub fn message_cursor_fields(cursor: &MessagePageCursor) -> (f: MessageCursorV1)
    ensures
        f.created_at == cursor.created_at,
        f.id@ == cursor.id@,
{
    MessageCursorV1 { created_at: cursor.created_at, id: owned(cursor.id.as_str()) }
}

/// A message-page token for the JSON bytes of its fields.
pub fn encode_message_cursor(json: &[u8]) -> (t: String)
    ensures
        t@ == framed(MESSAGE_CURSOR_PREFIX@, json@),
        unframed(MESSAGE_CURSOR_PREFIX@, t@) == Some(json@),
{
    frame(MESSAGE_CURSOR_PREFIX, json)
}

/// The JSON bytes a message-page token carries; a token without the `v1.`
/// prefix or with invalid base64 is rejected.
pub fn decode_message_cursor(raw: &str) -> (r: Result<Vec<u8>, ConversationError>)
    ensures
        match unframed(MESSAGE_CURSOR_PREFIX@, raw@) {
            Some(b) => r matches Ok(v) && v@ == b,
            None => r matches Err(ConversationError::BadRequest { reason }) && reason@
                == INVALID_MESSAGE_CURSOR@,
        },
{
    match unframe(MESSAGE_CURSOR_PREFIX, raw) {
        Some(b) => Ok(b),
        None => Err(bad_request(INVALID_MESSAGE_CURSOR)),
    }
}

/// The position a decoded message-page token names; one with an empty id
/// is rejected.
pub fn message_cursor_position(fields: MessageCursorV1) -> (r: Result<MessagePageCursor, ConversationError>)
    ensures
        fields.id@.len() > 0 ==> (r matches Ok(c) && c.created_at == fields.created_at && c.id@
            == fields.id@),
        fields.id@.len() == 0 ==> (r matches Err(ConversationError::BadRequest { reason }) && reason@
            == INVALID_MESSAGE_CURSOR@),
{
    if fields.id.as_str().unicode_len() == 0 {
        return Err(bad_request(INVALID_MESSAGE_CURSOR));
    }
    Ok(MessagePageCursor { created_at: fields.created_at, id: fields.id })
}

/// The token fields of a message-search cursor: the keyword is trimmed.
pub fn search_cursor_fields(cursor: &MessagePageCursor, keyword: &str, user_id: &str, user_only: bool) -> (f:
    MessageSearchCursorV1)
    ensures
        f.created_at == cursor.created_at,
        f.id@ == cursor.id@,
        f.keyword@ == trim_seq(keyword@),
        f.user_id@ == user_id@,
        f.user_only == user_only,
{
    MessageSearchCursorV1 {
        created_at: cursor.created_at,
        id: owned(cursor.id.as_str()),
        keyword: trim(keyword),
        user_id: owned(user_id),
        user_only,
    }
}

/// A message-search token for the JSON bytes of its fields.
pub fn encode_search_message_cursor(json: &[u8]) -> (t: String)
    ensures
        t@ == framed(SEARCH_CURSOR_PREFIX@, json@),
        unframed(SEARCH_CURSOR_PREFIX@, t@) == Some(json@),
{
    frame(SEARCH_CURSOR_PREFIX, json)
}

/// The JSON bytes a message-search token carries; a token without the
/// `v1s.` prefix or with invalid base64 is rejected.
pub fn decode_search_message_cursor(raw: &str) -> (r: Result<Vec<u8>, ConversationError>)
    ensures
        match unframed(SEARCH_CURSOR_PREFIX@, raw@) {
            Some(b) => r matches Ok(v) && v@ == b,
            None => r matches Err(ConversationError::BadRequest { reason }) && reason@
                == INVALID_SEARCH_CURSOR@,
        },
{
    match unframe(SEARCH_CURSOR_PREFIX, raw) {
        Some(b) => Ok(b),
        None => Err(bad_request(INVALID_SEARCH_CURSOR)),
    }
}

/// Whether decoded search-cursor fields continue the search for `keyword`
/// (compared trimmed) by `user_id` in the given scope.
pub open spec fn search_cursor_matches(
    f: MessageSearchCursorV1,
    keyword: Seq<char>,
    user_id: Seq<char>,
    user_only: bool,
) -> bool {
    f.id@.len() > 0 && f.keyword@ == trim_seq(keyword) && f.user_id@ == user_id && f.user_only == user_only
}

/// The position a decoded message-search token names, when it belongs to
/// this very search; otherwise the token is rejected.
pub fn search_cursor_position(
    fields: MessageSearchCursorV1,
    keyword: &str,
    user_id: &str,
    user_only: bool,
) -> (r: Result<MessagePageCursor, ConversationError>)
    ensures
        search_cursor_matches(fields, keyword@, user_id@, user_only) ==> (r matches Ok(c) && c.created_at
            == fields.created_at && c.id@ == fields.id@),
        !search_cursor_matches(fields, keyword@, user_id@, user_only) ==> (r matches Err(
            ConversationError::BadRequest { reason },
        ) && reason@ == INVALID_SEARCH_CURSOR@),
{
    let k = trim(keyword);
    if fields.id.as_str().unicode_len() == 0 || !str_eq(fields.keyword.as_str(), k.as_str()) || !str_eq(
        fields.user_id.as_str(),
        user_id,
    ) || fields.user_only != user_only {
        return Err(bad_request(INVALID_SEARCH_CURSOR));
    }
    Ok(MessagePageCursor { created_at: fields.created_at, id: fields.id })
}


/// A search token is bound to the search it was issued for: its fields are
/// accepted by exactly the searches whose keyword trims to the same text, by
/// the same user, in the same scope.
pub proof fn law_search_cursor_bound_to_search(
    cursor: MessagePageCursor,
    keyword: Seq<char>,
    user_id: Seq<char>,
    user_only: bool,
    fields: MessageSearchCursorV1,
    other_keyword: Seq<char>,
    other_user: Seq<char>,
    other_scope: bool,
)
    requires
        cursor.id@.len() > 0,
        fields.created_at == cursor.created_at,
        fields.id@ == cursor.id@,
        fields.keyword@ == trim_seq(keyword),
        fields.user_id@ == user_id,
        fields.user_only == user_only,
    ensures
        search_cursor_matches(fields, keyword, user_id, user_only),
        search_cursor_matches(fields, other_keyword, other_user, other_scope) <==> (trim_seq(other_keyword)
            == trim_seq(keyword) && other_user == user_id && other_scope == user_only),
{
}

/// The two cursor kinds cannot stand in for each other: a message-page
/// token is no message-search token, and the other way round.
pub proof fn law_cursor_kinds_are_distinct(bytes: Seq<u8>)
    ensures
        unframed(SEARCH_CURSOR_PREFIX@, framed(MESSAGE_CURSOR_PREFIX@, bytes)) is None,
        unframed(MESSAGE_CURSOR_PREFIX@, framed(SEARCH_CURSOR_PREFIX@, bytes)) is None,
{
    reveal_strlit("v1.");
    reveal_strlit("v1s.");
    let page = framed(MESSAGE_CURSOR_PREFIX@, bytes);
    let search = framed(SEARCH_CURSOR_PREFIX@, bytes);
    assert(page[2] == '.');
    assert(search[2] == 's');
    if has_prefix(page, SEARCH_CURSOR_PREFIX@) {
        assert(page.take(4)[2] == page[2]);
    }
    if has_prefix(search, MESSAGE_CURSOR_PREFIX@) {
        assert(search.take(3)[2] == search[2]);
    }
}

// ---------------------------------------------------------------------------
// Workspace search cursors
// ---------------------------------------------------------------------------

/// A workspace-search token for the JSON bytes of its fields (no prefix).
pub fn frame_workspace_cursor(json: &[u8]) -> (t: String)
    ensures
        t@ == base64_url_encoded(json@),
        base64_url_decoded(t@) == Some(json@),
{
    base64_encode(json)
}

/// The error reason of a rejected workspace-search cursor.
pub const INVALID_WORKSPACE_CURSOR: &'static str = "cursor is invalid";

/// The JSON bytes a workspace-search token carries; invalid base64 is
/// rejected.
pub fn unframe_workspace_cursor(raw: &str) -> (r: Result<Vec<u8>, ConversationError>)
    ensures
        match base64_url_decoded(raw@) {
            Some(b) => r matches Ok(v) && v@ == b,
            None => r matches Err(ConversationError::BadRequest { reason }) && reason@
                == INVALID_WORKSPACE_CURSOR@,
        },
{
    match base64_decode(raw) {
        Some(b) => Ok(b),
        None => Err(bad_request(INVALID_WORKSPACE_CURSOR)),
    }
}

} // verus!
