//! JSON values from `serde_json`, carried through the library unopened.
use vstd::prelude::*;

verus! {

/// `serde_json::Value`, opaque here: the library stores and passes such values
/// (tool inputs and schemas, tool results) without looking inside.
#[verifier::external_type_specification]
#[verifier::external_body]
pub struct ExJsonValue(serde_json::Value);

/// `<serde_json::Value as Clone>::clone`: a cloned JSON value is the same
/// value (the derived clone copies every member).
pub assume_specification[ <serde_json::Value as Clone>::clone ](v: &serde_json::Value) -> (r: serde_json::Value)
    ensures
        r == *v,
;

/// What `serde_json::from_str::<Value>` gives for a text, with `Value::Null`
/// standing for text that is not JSON.
pub uninterp spec fn json_or_null(text: Seq<char>) -> serde_json::Value;

/// Calls `serde_json::from_str` and keeps `Value::Null` for text that does not
/// parse; the result is `json_or_null` of the text.
#[verifier::external_body]
pub(crate) fn parse_json_or_null(text: &str) -> (r: serde_json::Value)
    ensures
        r == json_or_null(text@),
{
    serde_json::from_str(text).unwrap_or(serde_json::Value::Null)
}

} // verus!
