//! JSON values. They are `serde_json`'s; the library carries them through and
//! speaks of them by the text they serialize to.

use serde_json::Value;
use vstd::prelude::*;

verus! {

/// `serde_json::Value`, a JSON value. Nothing of its inside is known here.
#[verifier::external_type_specification]
#[verifier::external_body]
pub struct ExValue(serde_json::Value);

/// `serde_json::Error`, what the serializer fails with.
#[verifier::external_type_specification]
#[verifier::external_body]
pub struct ExJsonError(serde_json::Error);

/// `serde_json::Map`, the members of a JSON object; schemas are held in it
/// and passed on unread.
#[verifier::external_type_specification]
#[verifier::external_body]
#[verifier::reject_recursive_types(K)]
#[verifier::reject_recursive_types(V)]
pub struct ExJsonMap<K, V>(serde_json::Map<K, V>);

/// The compact JSON text of a value, as `serde_json::to_string` writes it;
/// `None` for a value that it refuses to write.
pub uninterp spec fn json_text(value: Value) -> Option<Seq<char>>;

/// What `serde_json::from_str` makes of a text: the value it denotes, or the
/// parser's complaint.
pub uninterp spec fn json_parsed(text: Seq<char>) -> Result<Value, Seq<char>>;

/// The JSON string whose content is the given characters.
pub uninterp spec fn json_string(content: Seq<char>) -> Value;

/// The JSON object with the single member `key`, bound to `value`.
pub uninterp spec fn json_object(key: Seq<char>, value: Value) -> Value;

/// Calls `serde_json::to_string`. The text of a value is a function of the
/// value alone; nothing is claimed of the text but that it is this one.
#[verifier::external_body]
pub(crate) fn to_text(value: &Value) -> (r: Result<String, serde_json::Error>)
    ensures
        match r {
            Ok(text) => json_text(*value) == Some(text@),
            Err(_) => json_text(*value) is None,
        },
{
    serde_json::to_string(value)
}

/// Calls `serde_json::from_str` for a `Value`. On failure the parser's
/// message comes back as text.
#[verifier::external_body]
pub(crate) fn from_text(text: &str) -> (r: Result<Value, String>)
    ensures
        match r {
            Ok(value) => json_parsed(text@) == Ok::<Value, Seq<char>>(value),
            Err(complaint) => json_parsed(text@) == Err::<Value, Seq<char>>(complaint@),
        },
{
    serde_json::from_str::<Value>(text).map_err(|e| e.to_string())
}

/// Builds `Value::String`.
#[verifier::external_body]
pub(crate) fn string_value(content: String) -> (value: Value)
    ensures
        value == json_string(content@),
{
    Value::String(content)
}

/// Builds the object `{ key: value }` with `serde_json::Map::insert`.
#[verifier::external_body]
pub(crate) fn object_with(key: &str, value: Value) -> (object: Value)
    ensures
        object == json_object(key@, value),
{
    let mut members = serde_json::Map::new();
    members.insert(key.to_owned(), value);
    Value::Object(members)
}

/// The compact text of a value, or the empty text for a value that cannot be
/// written.
pub open spec fn shown(value: Value) -> Seq<char> {
    match json_text(value) {
        Some(text) => text,
        None => Seq::empty(),
    }
}

/// The compact JSON text of `value`; empty if the serializer refuses it.
pub fn show(value: &Value) -> (text: String)
    ensures
        text@ == shown(*value),
{
    match to_text(value) {
        Ok(text) => text,
        Err(_) => String::new(),
    }
}

} // verus!
