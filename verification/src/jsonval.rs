//! Reading server response bodies, delegated to `serde_json`.
//!
//! The library never re-implements JSON parsing: every accessor below hands
//! the text to `serde_json` and returns a plain value. Each accessor is a
//! function of the text and the plain keys alone (decoding is deterministic,
//! and objects keep a fixed key order), so each result carries a name that
//! the verified decoding logic and its callers' contracts speak of.

use vstd::prelude::*;

verus! {

/// The top-level string field named `key` of the JSON text: `Some` exactly
/// when the text decodes to an object holding a string under that key. The
/// decoding is a function of the text and the key alone; its full definition
/// would take pages, so the result only carries this name.
pub uninterp spec fn json_str_field_of(text: Seq<char>, key: Seq<char>) -> Option<Seq<char>>;

/// Relies on `serde_json::from_str`, `serde_json::Value::get` and
/// `serde_json::Value::as_str`: decodes the text and hands back the string
/// member of the top-level object under `key`, if all three steps succeed.
#[verifier::external_body]
pub(crate) fn json_str_field(text: &str, key: &str) -> (r: Option<String>)
    ensures
        r matches Some(v) ==> json_str_field_of(text@, key@) == Some(v@),
        r is None ==> json_str_field_of(text@, key@) is None,
{
    let doc: serde_json::Value = match serde_json::from_str(text) {
        Ok(v) => v,
        Err(_) => return None,
    };
    let member = match doc.get(key) {
        Some(m) => m,
        None => return None,
    };
    member.as_str().map(|s| s.to_owned())
}

/// The keys of the object under the top-level field `key`, in decoded order:
/// `Some` exactly when the text decodes to an object whose member `key` is
/// itself an object. A function of the text and the key alone.
pub uninterp spec fn json_object_keys_of(text: Seq<char>, key: Seq<char>) -> Option<
    Seq<Seq<char>>,
>;

/// Relies on `serde_json::from_str`, `serde_json::Value::get` and
/// `serde_json::Value::as_object`: the keys of the nested object, in the
/// map's iteration order (sorted: the map is a `BTreeMap`).
#[verifier::external_body]
pub(crate) fn json_object_keys_at(text: &str, key: &str) -> (r: Option<Vec<String>>)
    ensures
        r matches Some(v) ==> json_object_keys_of(text@, key@) == Some(v.deep_view()),
        r is None ==> json_object_keys_of(text@, key@) is None,
{
    let doc: serde_json::Value = match serde_json::from_str(text) {
        Ok(v) => v,
        Err(_) => return None,
    };
    let obj = doc.get(key)?.as_object()?;
    Some(obj.keys().cloned().collect())
}

/// The length of the array under the top-level field `key`: `Some` exactly
/// when the text decodes to an object whose member `key` is an array. A
/// function of the text and the key alone.
pub uninterp spec fn json_array_len_of(text: Seq<char>, key: Seq<char>) -> Option<int>;

/// Relies on `serde_json::from_str`, `serde_json::Value::get` and
/// `serde_json::Value::as_array`: the element count of the nested array.
#[verifier::external_body]
pub(crate) fn json_array_len_at(text: &str, key: &str) -> (r: Option<usize>)
    ensures
        r matches Some(n) ==> json_array_len_of(text@, key@) == Some(n as int),
        r is None ==> json_array_len_of(text@, key@) is None,
{
    let doc: serde_json::Value = match serde_json::from_str(text) {
        Ok(v) => v,
        Err(_) => return None,
    };
    Some(doc.get(key)?.as_array()?.len())
}

/// The string field `field` of the object `text[key][id]`: `Some` exactly
/// when every step of that path decodes as an object member and the leaf is
/// a string. A function of the text and the three keys alone.
pub uninterp spec fn json_nested_str_field_of(
    text: Seq<char>,
    key: Seq<char>,
    id: Seq<char>,
    field: Seq<char>,
) -> Option<Seq<char>>;

/// Relies on `serde_json::from_str`, `serde_json::Value::get` and
/// `serde_json::Value::as_str`: walks `key`, then `id`, then `field` through
/// the decoded object tree.
#[verifier::external_body]
pub(crate) fn json_nested_str_field(text: &str, key: &str, id: &str, field: &str) -> (r: Option<
    String,
>)
    ensures
        r matches Some(v) ==> json_nested_str_field_of(text@, key@, id@, field@) == Some(v@),
        r is None ==> json_nested_str_field_of(text@, key@, id@, field@) is None,
{
    let doc: serde_json::Value = match serde_json::from_str(text) {
        Ok(v) => v,
        Err(_) => return None,
    };
    doc.get(key)?.get(id)?.get(field)?.as_str().map(|s| s.to_owned())
}

/// The string field `field` of the `idx`-th element of the array under the
/// top-level field `key`: `Some` exactly when that path decodes. A function
/// of the text, the keys and the index alone.
pub uninterp spec fn json_elem_str_field_of(
    text: Seq<char>,
    key: Seq<char>,
    idx: int,
    field: Seq<char>,
) -> Option<Seq<char>>;

/// Relies on `serde_json::from_str`, `serde_json::Value::get` (by key and by
/// array index) and `serde_json::Value::as_str`: walks `key`, the element at
/// `idx`, then `field` through the decoded tree.
#[verifier::external_body]
pub(crate) fn json_elem_str_field(text: &str, key: &str, idx: usize, field: &str) -> (r: Option<
    String,
>)
    ensures
        r matches Some(v) ==> json_elem_str_field_of(text@, key@, idx as int, field@) == Some(v@),
        r is None ==> json_elem_str_field_of(text@, key@, idx as int, field@) is None,
{
    let doc: serde_json::Value = match serde_json::from_str(text) {
        Ok(v) => v,
        Err(_) => return None,
    };
    doc.get(key)?.get(idx)?.get(field)?.as_str().map(|s| s.to_owned())
}

} // verus!
