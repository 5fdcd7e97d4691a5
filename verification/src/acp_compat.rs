//! Compatibility rewriting of JSON-RPC lines from ACP agents: model
//! catalogs written with `available_models`, or with model entries keyed by
//! `model_id` or `id`, are brought to the `availableModels` / `modelId`
//! shape, and model entries without a usable id are dropped so that the
//! rest of the catalog stays usable. Object fields are unordered (the JSON
//! reader keeps them sorted by key).
use vstd::prelude::*;

use crate::text::{is_blank, is_blank_str, owned, str_eq};

verus! {

/// A JSON value; numbers are kept as their JSON text.
#[derive(Debug)]
pub enum JsonValue {
    Null,
    Bool(bool),
    Number(String),
    Str(String),
    Array(Vec<JsonValue>),
    Object(Vec<(String, JsonValue)>),
}

/// The abstract value of a JSON value.
pub enum JsonView {
    Null,
    Bool(bool),
    Number(Seq<char>),
    Str(Seq<char>),
    Array(Seq<JsonView>),
    Object(Seq<(Seq<char>, JsonView)>),
}

pub open spec fn json_view(v: JsonValue) -> JsonView
    decreases v,
{
    match v {
        JsonValue::Null => JsonView::Null,
        JsonValue::Bool(b) => JsonView::Bool(b),
        JsonValue::Number(n) => JsonView::Number(n@),
        JsonValue::Str(s) => JsonView::Str(s@),
        JsonValue::Array(items) => JsonView::Array(json_views(items@)),
        JsonValue::Object(fields) => JsonView::Object(field_views(fields@)),
    }
}

pub open spec fn json_views(s: Seq<JsonValue>) -> Seq<JsonView>
    decreases s,
{
    if s.len() == 0 {
        Seq::empty()
    } else {
        json_views(s.subrange(0, s.len() - 1)).push(json_view(s[s.len() - 1]))
    }
}

pub open spec fn field_views(s: Seq<(String, JsonValue)>) -> Seq<(Seq<char>, JsonView)>
    decreases s,
{
    if s.len() == 0 {
        Seq::empty()
    } else {
        field_views(s.subrange(0, s.len() - 1)).push((s[s.len() - 1].0@, json_view(s[s.len() - 1].1)))
    }
}

pub(crate) proof fn lemma_json_views(s: Seq<JsonValue>)
    ensures
        json_views(s).len() == s.len(),
        forall|i: int| 0 <= i < s.len() ==> #[trigger] json_views(s)[i] == json_view(s[i]),
    decreases s.len(),
{
    if s.len() > 0 {
        lemma_json_views(s.subrange(0, s.len() - 1));
    }
}

pub(crate) proof fn lemma_field_views(s: Seq<(String, JsonValue)>)
    ensures
        field_views(s).len() == s.len(),
        forall|i: int| 0 <= i < s.len() ==> #[trigger] field_views(s)[i] == (s[i].0@, json_view(s[i].1)),
    decreases s.len(),
{
    if s.len() > 0 {
        lemma_field_views(s.subrange(0, s.len() - 1));
    }
}

// ---------------------------------------------------------------------------
// The rewriting
// ---------------------------------------------------------------------------

/// The index of the first field of `fields` under `key`.
pub open spec fn key_index(fields: Seq<(Seq<char>, JsonView)>, key: Seq<char>) -> Option<int> {
    if exists|k: int| 0 <= k < fields.len() && #[trigger] fields[k].0 == key {
        Some(
            choose|k: int|
                0 <= k < fields.len() && #[trigger] fields[k].0 == key && forall|j: int|
                    0 <= j < k ==> #[trigger] fields[j].0 != key,
        )
    } else {
        None
    }
}

proof fn lemma_key_index(fields: Seq<(Seq<char>, JsonView)>, key: Seq<char>, k: int)
    requires
        0 <= k < fields.len(),
        fields[k].0 == key,
        forall|j: int| 0 <= j < k ==> #[trigger] fields[j].0 != key,
    ensures
        key_index(fields, key) == Some(k),
{
    let c = choose|c: int|
        0 <= c < fields.len() && #[trigger] fields[c].0 == key && forall|j: int|
            0 <= j < c ==> #[trigger] fields[j].0 != key;
    assert(0 <= c < fields.len() && fields[c].0 == key && forall|j: int| 0 <= j < c ==> #[trigger] fields[j].0 != key);
    if c < k {
        assert(fields[c].0 != key);
    } else if c > k {
        assert(fields[k].0 != key);
    }
}

proof fn lemma_first_occurrence(fields: Seq<(Seq<char>, JsonView)>, key: Seq<char>, k: int)
    requires
        0 <= k < fields.len(),
        fields[k].0 == key,
    ensures
        exists|m: int|
            0 <= m <= k && #[trigger] fields[m].0 == key && forall|j: int| 0 <= j < m ==> #[trigger] fields[j].0 != key,
    decreases k,
{
    if exists|j: int| 0 <= j < k && #[trigger] fields[j].0 == key {
        let j = choose|j: int| 0 <= j < k && #[trigger] fields[j].0 == key;
        lemma_first_occurrence(fields, key, j);
    } else {
        assert(forall|j: int| 0 <= j < k ==> #[trigger] fields[j].0 != key);
    }
}

/// The index [`key_index`] gives is that of a field under the key.
proof fn lemma_key_index_bounds(fields: Seq<(Seq<char>, JsonView)>, key: Seq<char>)
    ensures
        key_index(fields, key) matches Some(j) ==> 0 <= j < fields.len() && fields[j].0 == key,
{
    if exists|k: int| 0 <= k < fields.len() && #[trigger] fields[k].0 == key {
        let k = choose|k: int| 0 <= k < fields.len() && #[trigger] fields[k].0 == key;
        lemma_first_occurrence(fields, key, k);
    }
}

/// `fields` with the field under `old_key` moved to the key `new_key`.
pub open spec fn rekeyed(fields: Seq<(Seq<char>, JsonView)>, i: int, new_key: Seq<char>) -> Seq<(Seq<char>, JsonView)> {
    fields.remove(i).push((new_key, fields[i].1))
}

/// A model catalog under `available_models` moves to `availableModels`
/// when that key is not taken.
pub open spec fn renamed_catalog(fields: Seq<(Seq<char>, JsonView)>) -> (Seq<(Seq<char>, JsonView)>, bool) {
    if key_index(fields, "availableModels"@) is None && key_index(fields, "available_models"@) is Some {
        (rekeyed(fields, key_index(fields, "available_models"@)->0, "availableModels"@), true)
    } else {
        (fields, false)
    }
}

/// A model entry without `modelId` takes it from `model_id`, else from `id`.
pub open spec fn fixed_model(m: JsonView) -> (JsonView, bool) {
    match m {
        JsonView::Object(f) => if key_index(f, "modelId"@) is None {
            if key_index(f, "model_id"@) is Some {
                (JsonView::Object(rekeyed(f, key_index(f, "model_id"@)->0, "modelId"@)), true)
            } else if key_index(f, "id"@) is Some {
                (JsonView::Object(rekeyed(f, key_index(f, "id"@)->0, "modelId"@)), true)
            } else {
                (m, false)
            }
        } else {
            (m, false)
        },
        _ => (m, false),
    }
}

/// Whether a model entry is an object whose `modelId` is a non-blank string.
pub open spec fn usable_model(m: JsonView) -> bool {
    match m {
        JsonView::Object(f) => match key_index(f, "modelId"@) {
            Some(p) => match f[p].1 {
                JsonView::Str(s) => !is_blank(s),
                _ => false,
            },
            None => false,
        },
        _ => false,
    }
}

/// The catalog entries after fixing each one and dropping the unusable
/// ones; the flag says whether any entry changed or was dropped.
pub open spec fn fixed_catalog(models: Seq<JsonView>) -> (Seq<JsonView>, bool)
    decreases models.len(),
{
    if models.len() == 0 {
        (Seq::empty(), false)
    } else {
        let a = fixed_catalog(models.drop_last());
        let m = fixed_model(models.last());
        if usable_model(m.0) {
            (a.0.push(m.0), a.1 || m.1)
        } else {
            (a.0, true)
        }
    }
}

/// The object fields after fixing the catalog under `availableModels`,
/// when it is an array.
pub open spec fn fixed_fields(fields: Seq<(Seq<char>, JsonView)>) -> (Seq<(Seq<char>, JsonView)>, bool) {
    match key_index(fields, "availableModels"@) {
        Some(j) => match fields[j].1 {
            JsonView::Array(models) => {
                let c = fixed_catalog(models);
                (fields.update(j, (fields[j].0, JsonView::Array(c.0))), c.1)
            },
            _ => (fields, false),
        },
        None => (fields, false),
    }
}

/// The rewritten value and whether anything changed: nested values are
/// rewritten first, then each object's catalog key and catalog entries.
pub open spec fn normalized(v: JsonView) -> (JsonView, bool)
    decreases v,
{
    match v {
        JsonView::Array(items) => {
            let r = normalized_items(items);
            (JsonView::Array(r.0), r.1)
        },
        JsonView::Object(fields) => {
            let r = normalized_fields(fields);
            let a = renamed_catalog(r.0);
            let b = fixed_fields(a.0);
            (JsonView::Object(b.0), r.1 || a.1 || b.1)
        },
        _ => (v, false),
    }
}

pub open spec fn normalized_items(s: Seq<JsonView>) -> (Seq<JsonView>, bool)
    decreases s,
{
    if s.len() == 0 {
        (Seq::empty(), false)
    } else {
        let a = normalized_items(s.subrange(0, s.len() - 1));
        let b = normalized(s[s.len() - 1]);
        (a.0.push(b.0), a.1 || b.1)
    }
}

pub open spec fn normalized_fields(s: Seq<(Seq<char>, JsonView)>) -> (Seq<(Seq<char>, JsonView)>, bool)
    decreases s,
{
    if s.len() == 0 {
        (Seq::empty(), false)
    } else {
        let a = normalized_fields(s.subrange(0, s.len() - 1));
        let b = normalized(s[s.len() - 1].1);
        (a.0.push((s[s.len() - 1].0, b.0)), a.1 || b.1)
    }
}


// ---------------------------------------------------------------------------
// Executable rewriting
// ---------------------------------------------------------------------------

pub(crate) fn find_key(fields: &Vec<(String, JsonValue)>, key: &str) -> (r: Option<usize>)
    ensures
        match r {
            Some(i) => i < fields@.len() && key_index(field_views(fields@), key@) == Some(i as int),
            None => key_index(field_views(fields@), key@) is None,
        },
{
    proof {
        lemma_field_views(fields@);
    }
    let ghost fv = field_views(fields@);
    let mut i: usize = 0;
    while i < fields.len()
        invariant
            i <= fields@.len(),
            fv == field_views(fields@),
            fv.len() == fields@.len(),
            forall|j: int| 0 <= j < fields@.len() ==> #[trigger] fv[j] == (fields@[j].0@, json_view(fields@[j].1)),
            forall|j: int| 0 <= j < i ==> #[trigger] fv[j].0 != key@,
        decreases fields.len() - i,
    {
        assert(fv[i as int].0 == fields@[i as int].0@);
        if str_eq(fields[i].0.as_str(), key) {
            proof {
                lemma_key_index(fv, key@, i as int);
            }
            return Some(i);
        }
        i += 1;
    }
    None
}

/// Moves the field at `i` to the end under `new_key`.
fn rekey(fields: &mut Vec<(String, JsonValue)>, i: usize, new_key: &str)
    requires
        i < old(fields)@.len(),
    ensures
        field_views(final(fields)@) == rekeyed(field_views(old(fields)@), i as int, new_key@),
{
    let ghost before = fields@;
    let (_, value) = fields.remove(i);
    fields.push((owned(new_key), value));
    proof {
        lemma_field_views(before);
        lemma_field_views(fields@);
        let r = rekeyed(field_views(before), i as int, new_key@);
        assert(field_views(fields@) =~= r) by {
            assert forall|j: int| 0 <= j < fields@.len() implies #[trigger] field_views(fields@)[j] == r[j] by {
                if j < i {
                    assert(fields@[j] == before[j]);
                } else if j < fields@.len() - 1 {
                    assert(fields@[j] == before[j + 1]);
                }
            }
        }
    }
}

fn rename_catalog(fields: Vec<(String, JsonValue)>) -> (r: (Vec<(String, JsonValue)>, bool))
    ensures
        (field_views(r.0@), r.1) == renamed_catalog(field_views(fields@)),
{
    let mut fields = fields;
    if find_key(&fields, "availableModels").is_none() {
        match find_key(&fields, "available_models") {
            Some(i) => {
                rekey(&mut fields, i, "availableModels");
                return (fields, true);
            },
            None => {},
        }
    }
    (fields, false)
}

fn fix_model(m: JsonValue) -> (r: (JsonValue, bool))
    ensures
        (json_view(r.0), r.1) == fixed_model(json_view(m)),
{
    match m {
        JsonValue::Object(f) => {
            let mut f = f;
            if find_key(&f, "modelId").is_none() {
                match find_key(&f, "model_id") {
                    Some(p) => {
                        rekey(&mut f, p, "modelId");
                        return (JsonValue::Object(f), true);
                    },
                    None => {},
                }
                match find_key(&f, "id") {
                    Some(p) => {
                        rekey(&mut f, p, "modelId");
                        return (JsonValue::Object(f), true);
                    },
                    None => {},
                }
            }
            (JsonValue::Object(f), false)
        },
        other => (other, false),
    }
}

#[verifier::rlimit(40)]
fn usable(m: &JsonValue) -> (r: bool)
    ensures
        r == usable_model(json_view(*m)),
{
    match m {
        JsonValue::Object(f) => match find_key(f, "modelId") {
            Some(p) => {
                proof {
                    lemma_field_views(f@);
                    assert(field_views(f@)[p as int] == (f@[p as int].0@, json_view(f@[p as int].1)));
                }
                match &f[p].1 {
                    JsonValue::Str(s) => !is_blank_str(s.as_str()),
                    _ => false,
                }
            },
            None => false,
        },
        _ => false,
    }
}

fn fix_catalog(models: Vec<JsonValue>) -> (r: (Vec<JsonValue>, bool))
    ensures
        (json_views(r.0@), r.1) == fixed_catalog(json_views(models@)),
{
    let ghost orig = models@;
    let ghost vs = json_views(orig);
    proof {
        lemma_json_views(orig);
    }
    let mut rest = models;
    let mut out: Vec<JsonValue> = Vec::new();
    let mut changed = false;
    let ghost n = orig.len();
    proof {
        assert(orig.skip(0) =~= orig);
        assert(vs.take(0) =~= Seq::<JsonView>::empty());
    }
    while rest.len() > 0
        invariant
            n == orig.len(),
            vs == json_views(orig),
            vs.len() == n,
            forall|j: int| 0 <= j < n ==> #[trigger] vs[j] == json_view(orig[j]),
            rest@.len() <= n,
            rest@ == orig.skip(n - rest@.len()),
            (json_views(out@), changed) == fixed_catalog(vs.take(n - rest@.len())),
        decreases rest.len(),
    {
        let ghost k = n - rest@.len();
        let m = rest.remove(0);
        proof {
            assert(m == orig[k]);
            assert(rest@ =~= orig.skip(k + 1));
            assert(vs.take(k + 1).drop_last() =~= vs.take(k));
            assert(vs.take(k + 1).last() == json_view(orig[k]));
        }
        let (m2, c) = fix_model(m);
        if usable(&m2) {
            let ghost before = out@;
            out.push(m2);
            proof {
                assert(out@.subrange(0, out@.len() - 1) =~= before);
            }
            changed = changed || c;
        } else {
            changed = true;
        }
    }
    proof {
        assert(vs.take(n as int) =~= vs);
    }
    (out, changed)
}

proof fn lemma_replace_field(before: Seq<(String, JsonValue)>, j: int, value: JsonValue)
    requires
        0 <= j < before.len(),
    ensures
        field_views(before.update(j, (before[j].0, value))) == field_views(before).update(
            j,
            (before[j].0@, json_view(value)),
        ),
{
    let after = before.update(j, (before[j].0, value));
    lemma_field_views(before);
    lemma_field_views(after);
    assert(field_views(after) =~= field_views(before).update(j, (before[j].0@, json_view(value))));
}

#[verifier::rlimit(60)]
fn fix_fields(fields: Vec<(String, JsonValue)>) -> (r: (Vec<(String, JsonValue)>, bool))
    ensures
        (field_views(r.0@), r.1) == fixed_fields(field_views(fields@)),
{
    let mut fields = fields;
    let ghost before = fields@;
    match find_key(&fields, "availableModels") {
        Some(j) => {
            proof {
                lemma_field_views(before);
            }
            let (key, value) = fields.remove(j);
            let ghost old_value = value;
            match value {
                JsonValue::Array(models) => {
                    let (fixed, c) = fix_catalog(models);
                    let ghost nv = JsonValue::Array(fixed);
                    fields.insert(j, (key, JsonValue::Array(fixed)));
                    proof {
                        assert(fields@ =~= before.update(j as int, (before[j as int].0, nv)));
                        lemma_replace_field(before, j as int, nv);
                        assert(field_views(before)[j as int].1 == json_view(before[j as int].1));
                    }
                    (fields, c)
                },
                other => {
                    fields.insert(j, (key, other));
                    proof {
                        assert(fields@ =~= before);
                        assert(field_views(before)[j as int].1 == json_view(before[j as int].1));
                    }
                    (fields, false)
                },
            }
        },
        None => (fields, false),
    }
}

fn normalize_items(items: Vec<JsonValue>) -> (r: (Vec<JsonValue>, bool))
    ensures
        (json_views(r.0@), r.1) == normalized_items(json_views(items@)),
    decreases items,
{
    let ghost orig = items@;
    let ghost vs = json_views(orig);
    proof {
        lemma_json_views(orig);
        let ghost items0 = items;
        assert(decreases_to!(items0 => items0@));
    }
    let mut rest = items;
    let mut out: Vec<JsonValue> = Vec::new();
    let mut changed = false;
    let ghost n = orig.len();
    proof {
        assert(orig.skip(0) =~= orig);
        assert(vs.subrange(0, 0) =~= Seq::<JsonView>::empty());
    }
    while rest.len() > 0
        invariant
            n == orig.len(),
            vs == json_views(orig),
            decreases_to!(items => orig),
            vs.len() == n,
            forall|j: int| 0 <= j < n ==> #[trigger] vs[j] == json_view(orig[j]),
            rest@.len() <= n,
            rest@ == orig.skip(n - rest@.len()),
            (json_views(out@), changed) == normalized_items(vs.subrange(0, n - rest@.len())),
        decreases rest.len(),
    {
        let ghost k = n - rest@.len();
        let item = rest.remove(0);
        proof {
            assert(item == orig[k]);
            assert(rest@ =~= orig.skip(k + 1));
            assert(vs.subrange(0, k + 1).subrange(0, k) =~= vs.subrange(0, k));
            assert(decreases_to!(orig => orig[k]));
        }
        let (item2, c) = normalize_value(item);
        let ghost before = out@;
        out.push(item2);
        proof {
            assert(out@.subrange(0, out@.len() - 1) =~= before);
        }
        changed = changed || c;
    }
    proof {
        assert(vs.subrange(0, n as int) =~= vs);
    }
    (out, changed)
}

fn normalize_fields(fields: Vec<(String, JsonValue)>) -> (r: (Vec<(String, JsonValue)>, bool))
    ensures
        (field_views(r.0@), r.1) == normalized_fields(field_views(fields@)),
    decreases fields,
{
    let ghost orig = fields@;
    let ghost fv = field_views(orig);
    proof {
        lemma_field_views(orig);
        let ghost fields0 = fields;
        assert(decreases_to!(fields0 => fields0@));
    }
    let mut rest = fields;
    let mut out: Vec<(String, JsonValue)> = Vec::new();
    let mut changed = false;
    let ghost n = orig.len();
    proof {
        assert(orig.skip(0) =~= orig);
        assert(fv.subrange(0, 0) =~= Seq::<(Seq<char>, JsonView)>::empty());
    }
    while rest.len() > 0
        invariant
            n == orig.len(),
            fv == field_views(orig),
            decreases_to!(fields => orig),
            fv.len() == n,
            forall|j: int| 0 <= j < n ==> #[trigger] fv[j] == (orig[j].0@, json_view(orig[j].1)),
            rest@.len() <= n,
            rest@ == orig.skip(n - rest@.len()),
            (field_views(out@), changed) == normalized_fields(fv.subrange(0, n - rest@.len())),
        decreases rest.len(),
    {
        let ghost k = n - rest@.len();
        let (key, value) = rest.remove(0);
        proof {
            assert(orig[k] == (key, value));
            assert(rest@ =~= orig.skip(k + 1));
            assert(fv.subrange(0, k + 1).subrange(0, k) =~= fv.subrange(0, k));
            assert(decreases_to!(orig => orig[k]));
            assert(decreases_to!(orig[k] => orig[k].1));
        }
        let (value2, c) = normalize_value(value);
        let ghost before = out@;
        out.push((key, value2));
        proof {
            assert(out@.subrange(0, out@.len() - 1) =~= before);
        }
        changed = changed || c;
    }
    proof {
        assert(fv.subrange(0, n as int) =~= fv);
    }
    (out, changed)
}

/// Rewrites a JSON value (see [`normalized`]); the flag says whether
/// anything changed.
pub fn normalize_value(v: JsonValue) -> (r: (JsonValue, bool))
    ensures
        (json_view(r.0), r.1) == normalized(json_view(v)),
    decreases v,
{
    match v {
        JsonValue::Array(items) => {
            let (out, changed) = normalize_items(items);
            (JsonValue::Array(out), changed)
        },
        JsonValue::Object(fields) => {
            let (out, changed) = normalize_fields(fields);
            let (renamed, c1) = rename_catalog(out);
            let (fixed, c2) = fix_fields(renamed);
            (JsonValue::Object(fixed), changed || c1 || c2)
        },
        other => (other, false),
    }
}


// ---------------------------------------------------------------------------
// Reading and writing JSON text
// ---------------------------------------------------------------------------

#[verifier::external_type_specification]
#[verifier::external_body]
pub struct ExSerdeJsonValue(serde_json::Value);

/// The value serde_json reads from `text` (`serde_json::from_str` into a
/// `Value`), as a [`JsonView`]; `None` when the text is not JSON.
pub uninterp spec fn json_parsed(text: Seq<char>) -> Option<JsonView>;

/// The compact JSON text serde_json writes for a value (`Value`'s
/// `Display`, the same text as `serde_json::to_string`).
pub uninterp spec fn json_written(v: JsonView) -> Seq<char>;

/// One-for-one conversion of a serde_json value into the library's JSON
/// value: numbers keep their JSON text, objects their fields in the order
/// serde_json holds them.
#[verifier::external_body]
fn json_from_serde(v: serde_json::Value) -> (r: JsonValue) {
    match v {
        serde_json::Value::Null => JsonValue::Null,
        serde_json::Value::Bool(b) => JsonValue::Bool(b),
        serde_json::Value::Number(n) => JsonValue::Number(n.to_string()),
        serde_json::Value::String(t) => JsonValue::Str(t),
        serde_json::Value::Array(a) => JsonValue::Array(a.into_iter().map(json_from_serde).collect()),
        serde_json::Value::Object(m) => JsonValue::Object(m.into_iter().map(|(k, x)| (k, json_from_serde(x))).collect()),
    }
}

/// One-for-one conversion back into a serde_json value; a number is read
/// back from its JSON text (with `serde_json::from_str`; text that is not a
/// JSON value becomes `null`).
#[verifier::external_body]
fn json_to_serde(v: &JsonValue) -> (r: serde_json::Value) {
    match v {
        JsonValue::Null => serde_json::Value::Null,
        JsonValue::Bool(b) => serde_json::Value::Bool(*b),
        JsonValue::Number(n) => serde_json::from_str(n).unwrap_or(serde_json::Value::Null),
        JsonValue::Str(t) => serde_json::Value::String(t.clone()),
        JsonValue::Array(a) => serde_json::Value::Array(a.iter().map(json_to_serde).collect()),
        JsonValue::Object(f) => serde_json::Value::Object(f.iter().map(|(k, x)| (k.clone(), json_to_serde(x))).collect()),
    }
}

/// The message of the error serde_json reports for text that is not JSON
/// (the `Display` of the `serde_json::Error` that `serde_json::from_str`
/// returns, which names what went wrong and the line and column).
pub uninterp spec fn json_error(text: Seq<char>) -> Seq<char>;

/// Reads JSON text with `serde_json::from_str` into a `Value`, converted to
/// a [`JsonValue`]; when serde_json reports an error, its message. The
/// value is named [`json_parsed`], the message [`json_error`].
#[verifier::external_body]
pub(crate) fn parse_json(text: &str) -> (r: Result<JsonValue, String>)
    ensures
        match r {
            Ok(v) => json_parsed(text@) == Some(json_view(v)),
            Err(m) => json_parsed(text@) is None && m@ == json_error(text@),
        },
{
    match serde_json::from_str::<serde_json::Value>(text) {
        Ok(v) => Ok(json_from_serde(v)),
        Err(e) => Err(e.to_string()),
    }
}

/// Writes a value as compact JSON text (`Value`'s `Display`); the result is
/// named [`json_written`].
#[verifier::external_body]
pub(crate) fn write_json(v: &JsonValue) -> (r: String)
    ensures
        r@ == json_written(json_view(*v)),
{
    json_to_serde(v).to_string()
}

/// The line handed on to the ACP client for a received line: a line that is
/// not JSON, or whose catalogs need no rewriting, goes on exactly as
/// received; otherwise the rewritten value is written out.
pub fn normalize_incoming_line(line: &str) -> (r: String)
    ensures
        match json_parsed(line@) {
            None => r@ == line@,
            Some(v) => if normalized(v).1 {
                r@ == json_written(normalized(v).0)
            } else {
                r@ == line@
            },
        },
{
    match parse_json(line) {
        Err(_) => owned(line),
        Ok(v) => {
            let (n, changed) = normalize_value(v);
            if changed {
                write_json(&n)
            } else {
                owned(line)
            }
        },
    }
}

// ---------------------------------------------------------------------------
// Laws
// ---------------------------------------------------------------------------

proof fn lemma_catalog_unchanged(models: Seq<JsonView>)
    requires
        !fixed_catalog(models).1,
    ensures
        fixed_catalog(models).0 == models,
    decreases models.len(),
{
    if models.len() > 0 {
        lemma_catalog_unchanged(models.drop_last());
        assert(models.drop_last().push(models.last()) =~= models);
    }
}

proof fn lemma_fields_step_unchanged(fields: Seq<(Seq<char>, JsonView)>)
    ensures
        !fixed_fields(fields).1 ==> fixed_fields(fields).0 == fields,
{
    lemma_key_index_bounds(fields, "availableModels"@);
    if let Some(j) = key_index(fields, "availableModels"@) {
        if let JsonView::Array(models) = fields[j].1 {
            if !fixed_catalog(models).1 {
                lemma_catalog_unchanged(models);
                assert(fields.update(j, (fields[j].0, JsonView::Array(models))) =~= fields);
            }
        }
    }
}

proof fn lemma_normalized_unchanged(v: JsonView)
    ensures
        !normalized(v).1 ==> normalized(v).0 == v,
    decreases v,
{
    match v {
        JsonView::Array(items) => {
            lemma_items_unchanged(items);
        },
        JsonView::Object(fields) => {
            lemma_fields_unchanged(fields);
            let r = normalized_fields(fields);
            let a = renamed_catalog(r.0);
            lemma_fields_step_unchanged(a.0);
        },
        _ => {},
    }
}

proof fn lemma_items_unchanged(s: Seq<JsonView>)
    ensures
        !normalized_items(s).1 ==> normalized_items(s).0 == s,
    decreases s,
{
    if s.len() > 0 {
        lemma_items_unchanged(s.subrange(0, s.len() - 1));
        lemma_normalized_unchanged(s[s.len() - 1]);
        assert(s.subrange(0, s.len() - 1).push(s[s.len() - 1]) =~= s);
    }
}

proof fn lemma_fields_unchanged(s: Seq<(Seq<char>, JsonView)>)
    ensures
        !normalized_fields(s).1 ==> normalized_fields(s).0 == s,
    decreases s,
{
    if s.len() > 0 {
        lemma_fields_unchanged(s.subrange(0, s.len() - 1));
        lemma_normalized_unchanged(s[s.len() - 1].1);
        assert(s.subrange(0, s.len() - 1).push((s[s.len() - 1].0, s[s.len() - 1].1)) =~= s);
    }
}

/// A value the rewriting reports unchanged is handed back as it was, so a
/// line that needs no rewriting can be forwarded verbatim.
pub proof fn law_unchanged_value_is_kept(v: JsonView)
    ensures
        !normalized(v).1 ==> normalized(v).0 == v,
{
    lemma_normalized_unchanged(v);
}

/// A fixed catalog holds only entries with a usable `modelId`, and drops
/// none of the entries that have one once fixed, keeping their order.
pub proof fn law_catalog_keeps_exactly_usable_entries(models: Seq<JsonView>)
    ensures
        forall|i: int|
            0 <= i < fixed_catalog(models).0.len() ==> usable_model(#[trigger] fixed_catalog(models).0[i]),
        (forall|i: int| 0 <= i < models.len() ==> usable_model(#[trigger] fixed_model(models[i]).0))
            ==> fixed_catalog(models).0 == models.map_values(|m: JsonView| fixed_model(m).0),
    decreases models.len(),
{
    if models.len() > 0 {
        let d = models.drop_last();
        law_catalog_keeps_exactly_usable_entries(d);
        let a = fixed_catalog(d);
        let r = fixed_catalog(models);
        assert forall|i: int| 0 <= i < r.0.len() implies usable_model(#[trigger] r.0[i]) by {
            if i < a.0.len() {
                assert(r.0[i] == a.0[i]);
            }
        }
        if forall|i: int| 0 <= i < models.len() ==> usable_model(#[trigger] fixed_model(models[i]).0) {
            assert forall|i: int| 0 <= i < d.len() implies usable_model(#[trigger] fixed_model(d[i]).0) by {
                assert(d[i] == models[i]);
            }
            assert(usable_model(fixed_model(models[models.len() - 1]).0));
            assert(d.map_values(|m: JsonView| fixed_model(m).0).push(fixed_model(models.last()).0)
                =~= models.map_values(|m: JsonView| fixed_model(m).0));
        }
    } else {
        assert(models.map_values(|m: JsonView| fixed_model(m).0) =~= Seq::<JsonView>::empty());
    }
}

} // verus!
