//! Reading fields out of JSON values: the value under a key of an object,
//! and that value as a string, a boolean, an integer or JSON text.
use vstd::prelude::*;

use crate::acp_compat::{find_key, json_view, json_written, lemma_field_views, write_json, JsonValue, JsonView};
use crate::text::{integer_value, owned, parse_integer};

verus! {

/// The value under `key` of a JSON object; `None` for a missing key, or
/// when the value is not an object.
pub open spec fn field_of(v: JsonView, key: Seq<char>) -> Option<JsonView> {
    match v {
        JsonView::Object(f) => match crate::acp_compat::key_index(f, key) {
            Some(k) => Some(f[k].1),
            None => None,
        },
        _ => None,
    }
}

/// A missing value read as JSON `null`.
pub open spec fn or_null(v: Option<JsonView>) -> JsonView {
    match v {
        Some(x) => x,
        None => JsonView::Null,
    }
}

/// The content of a JSON string.
pub open spec fn as_str(v: Option<JsonView>) -> Option<Seq<char>> {
    match v {
        Some(JsonView::Str(t)) => Some(t),
        _ => None,
    }
}

/// A JSON boolean.
pub open spec fn as_bool(v: Option<JsonView>) -> Option<bool> {
    match v {
        Some(JsonView::Bool(b)) => Some(b),
        _ => None,
    }
}

/// A JSON number that is an integer fitting in `i64`.
pub open spec fn as_integer(v: Option<JsonView>) -> Option<int> {
    match v {
        Some(JsonView::Number(t)) => integer_value(t),
        _ => None,
    }
}

/// The compact JSON text of a value.
pub open spec fn as_text(v: Option<JsonView>) -> Option<Seq<char>> {
    match v {
        Some(x) => Some(json_written(x)),
        None => None,
    }
}

/// The view of an optional reference to a value.
pub open spec fn opt_json(v: Option<&JsonValue>) -> Option<JsonView> {
    match v {
        Some(x) => Some(json_view(*x)),
        None => None,
    }
}

/// The view of an optional string.
pub open spec fn opt_text(o: Option<String>) -> Option<Seq<char>> {
    match o {
        Some(s) => Some(s@),
        None => None,
    }
}

/// The value under `key` of `v` (see [`field_of`]).
pub fn get<'a>(v: &'a JsonValue, key: &str) -> (r: Option<&'a JsonValue>)
    ensures
        opt_json(r) == field_of(json_view(*v), key@),
{
    match v {
        JsonValue::Object(f) => match find_key(f, key) {
            Some(k) => {
                proof {
                    lemma_field_views(f@);
                }
                Some(&f[k].1)
            },
            None => None,
        },
        _ => None,
    }
}

/// The content of a string value.
pub fn str_of(v: Option<&JsonValue>) -> (r: Option<String>)
    ensures
        opt_text(r) == as_str(opt_json(v)),
{
    match v {
        Some(JsonValue::Str(t)) => Some(owned(t.as_str())),
        _ => None,
    }
}

/// A boolean value.
pub fn bool_of(v: Option<&JsonValue>) -> (r: Option<bool>)
    ensures
        r == as_bool(opt_json(v)),
{
    match v {
        Some(JsonValue::Bool(b)) => Some(*b),
        _ => None,
    }
}

/// An integer value that fits in `i64`.
pub fn integer_of(v: Option<&JsonValue>) -> (r: Option<i64>)
    ensures
        match r {
            Some(n) => as_integer(opt_json(v)) == Some(n as int),
            None => as_integer(opt_json(v)) is None,
        },
{
    match v {
        Some(JsonValue::Number(t)) => parse_integer(t.as_str()),
        _ => None,
    }
}

/// The compact JSON text of a value.
pub fn text_of(v: Option<&JsonValue>) -> (r: Option<String>)
    ensures
        opt_text(r) == as_text(opt_json(v)),
{
    match v {
        Some(x) => Some(write_json(x)),
        None => None,
    }
}

} // verus!
