//! The JSON values that the wire format is made of, as seen through serde_json.

use vstd::prelude::*;

verus! {

#[verifier::external_type_specification]
#[verifier::external_body]
pub struct ExValue(serde_json::Value);

/// What a JSON value holds, as far as the chat protocol reads it.
/// Numbers and booleans are never read by the protocol and are all `Other`.
pub enum JsonModel {
    Null,
    Str(Seq<char>),
    Arr(Seq<JsonModel>),
    Obj(Map<Seq<char>, JsonModel>),
    Other,
}

/// What a `serde_json::Value` holds.
pub uninterp spec fn json_of(v: serde_json::Value) -> JsonModel;

/// What `serde_json::from_str` makes of a text: `None` when the text is not JSON.
pub uninterp spec fn json_parse(s: Seq<char>) -> Option<JsonModel>;

/// A value that is `null`, a string, or an array of strings.
pub open spec fn flat_value(j: JsonModel) -> bool {
    match j {
        JsonModel::Null => true,
        JsonModel::Str(_) => true,
        JsonModel::Arr(items) => forall|i: int| 0 <= i < items.len() ==> (#[trigger] items[i]) is Str,
        _ => false,
    }
}

/// An object whose members are all flat values.
pub open spec fn flat_object(j: JsonModel) -> bool {
    match j {
        JsonModel::Obj(m) => forall|k: Seq<char>| #[trigger] m.contains_key(k) ==> flat_value(m[k]),
        _ => false,
    }
}

/// The string held by a `Str`; the empty string for anything else.
pub open spec fn str_of(j: JsonModel) -> Seq<char> {
    match j {
        JsonModel::Str(s) => s,
        _ => Seq::empty(),
    }
}

/// Relies on `serde_json::from_str::<Value>`: the parsed value, or `None` on any
/// parse error.
#[verifier::external_body]
pub(crate) fn parse_json(s: &str) -> (r: Option<serde_json::Value>)
    ensures
        match r {
            Some(v) => json_parse(s@) == Some(json_of(v)),
            None => json_parse(s@) is None,
        },
{
    serde_json::from_str::<serde_json::Value>(s).ok()
}

/// Relies on `serde_json::to_string` on a `Value`: it never fails on a value
/// (all keys are strings), and for values made of null, strings, arrays and
/// objects, `from_str` reads its output back as the same value.
#[verifier::external_body]
pub(crate) fn to_json_text(v: &serde_json::Value) -> (r: String)
    ensures
        flat_object(json_of(*v)) ==> json_parse(r@) == Some(json_of(*v)),
{
    serde_json::to_string(v).unwrap_or_default()
}

/// Relies on `Value::get` with a string key: the member of an object under that
/// key; `None` for a missing key or a value that is not an object.
#[verifier::external_body]
pub(crate) fn json_get(v: &serde_json::Value, key: &str) -> (r: Option<serde_json::Value>)
    ensures
        match json_of(*v) {
            JsonModel::Obj(m) => if m.contains_key(key@) {
                r is Some && json_of(r->Some_0) == m[key@]
            } else {
                r is None
            },
            _ => r is None,
        },
{
    v.get(key).cloned()
}

/// Relies on `Value::as_str`: the string of a string value, else `None`.
#[verifier::external_body]
pub(crate) fn json_as_str(v: &serde_json::Value) -> (r: Option<String>)
    ensures
        match json_of(*v) {
            JsonModel::Str(s) => r is Some && (r->Some_0)@ == s,
            _ => r is None,
        },
{
    v.as_str().map(String::from)
}

/// Relies on `Value::as_array`: the items of an array value, else `None`.
#[verifier::external_body]
pub(crate) fn json_as_array(v: &serde_json::Value) -> (r: Option<Vec<serde_json::Value>>)
    ensures
        match json_of(*v) {
            JsonModel::Arr(items) => r is Some && (r->Some_0)@.map_values(|x: serde_json::Value| json_of(x)) == items,
            _ => r is None,
        },
{
    v.as_array().cloned()
}

/// Relies on `Value::is_null`: true exactly of `null`.
#[verifier::external_body]
pub(crate) fn json_is_null(v: &serde_json::Value) -> (r: bool)
    ensures
        r == (json_of(*v) is Null),
{
    v.is_null()
}

/// Relies on `Value::Null`.
#[verifier::external_body]
pub(crate) fn json_null() -> (r: serde_json::Value)
    ensures
        json_of(r) == JsonModel::Null,
{
    serde_json::Value::Null
}

/// Relies on `Value::String`: a string value holding `s`.
#[verifier::external_body]
pub(crate) fn json_string(s: String) -> (r: serde_json::Value)
    ensures
        json_of(r) == JsonModel::Str(s@),
{
    serde_json::Value::String(s)
}

/// Relies on `Value::Array`: an array value holding `items` in order.
#[verifier::external_body]
pub(crate) fn json_array(items: Vec<serde_json::Value>) -> (r: serde_json::Value)
    ensures
        json_of(r) == JsonModel::Arr(items@.map_values(|x: serde_json::Value| json_of(x))),
{
    serde_json::Value::Array(items)
}

/// No key occurs twice among the pairs.
pub open spec fn keys_distinct(entries: Seq<(String, serde_json::Value)>) -> bool {
    forall|i: int, j: int| 0 <= i < j < entries.len() ==> (#[trigger] entries[i]).0@ != (#[trigger] entries[j]).0@
}

/// Some pair has the key `k`.
pub open spec fn has_key(entries: Seq<(String, serde_json::Value)>, k: Seq<char>) -> bool {
    exists|i: int| 0 <= i < entries.len() && (#[trigger] entries[i]).0@ == k
}

/// Relies on collecting pairs into `serde_json::Map` and `Value::Object`: an
/// object with exactly the given members (the keys are distinct).
#[verifier::external_body]
pub(crate) fn json_object(entries: Vec<(String, serde_json::Value)>) -> (r: serde_json::Value)
    requires
        keys_distinct(entries@),
    ensures
        json_of(r) is Obj,
        forall|k: Seq<char>| #[trigger] json_of(r)->Obj_0.contains_key(k) <==> has_key(entries@, k),
        forall|i: int| 0 <= i < entries@.len() ==> json_of(r)->Obj_0[(#[trigger] entries@[i]).0@] == json_of(entries@[i].1),
{
    serde_json::Value::Object(entries.into_iter().collect())
}

} // verus!
