//! What the library reads of serde_json values: a member of an object, the
//! elements of an array, the text of a string. Each read is one call of
//! serde_json, named over the value it reads.

use vstd::prelude::*;

verus! {

/// The member `key` of a JSON object (`None` for a missing member or a
/// value that is not an object), as `Value::get` finds it.
pub uninterp spec fn json_get(value: serde_json::Value, key: Seq<char>) -> Option<serde_json::Value>;

/// The elements of a JSON array (`None` for any other value), as
/// `Value::as_array` gives them.
pub uninterp spec fn json_array(value: serde_json::Value) -> Option<Seq<serde_json::Value>>;

/// The text of a JSON string (`None` for any other value), as
/// `Value::as_str` gives it.
pub uninterp spec fn json_str(value: serde_json::Value) -> Option<Seq<char>>;

/// Calls `serde_json::Value::get` with a string key; the result is the
/// named member.
#[verifier::external_body]
pub(crate) fn member<'a>(value: &'a serde_json::Value, key: &str) -> (r: Option<&'a serde_json::Value>)
    ensures
        match r {
            Some(m) => json_get(*value, key@) == Some(*m),
            None => json_get(*value, key@) is None,
        },
{
    value.get(key)
}

/// Calls `serde_json::Value::as_array`; the result is the named elements.
#[verifier::external_body]
pub(crate) fn array_items(value: &serde_json::Value) -> (r: Option<&Vec<serde_json::Value>>)
    ensures
        match r {
            Some(items) => json_array(*value) == Some(items@),
            None => json_array(*value) is None,
        },
{
    value.as_array()
}

/// Calls `serde_json::Value::as_str` and copies the text; the result is the
/// named text.
#[verifier::external_body]
pub(crate) fn string_of(value: &serde_json::Value) -> (r: Option<String>)
    ensures
        match r {
            Some(t) => json_str(*value) == Some(t@),
            None => json_str(*value) is None,
        },
{
    match value.as_str() {
        Some(t) => Some(t.to_string()),
        None => None,
    }
}

} // verus!
