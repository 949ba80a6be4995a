//! Reading log documents: the parsed JSON value and the three questions the library
//! asks of it.
//!
//! Parsing and lookup are done by `serde_json`. A parsed document is carried as an
//! opaque value; what the parser and the lookups return is given a name here, and the
//! contracts of the rest of the library are stated over those names.

use serde_json::Value;
use vstd::prelude::*;

verus! {

#[verifier::external_type_specification]
#[verifier::external_body]
pub struct ExValue(serde_json::Value);

#[verifier::external_type_specification]
#[verifier::external_body]
pub struct ExJsonError(serde_json::Error);

/// The document that `serde_json::from_str` reads from `text`, or `None` where it
/// rejects the text.
pub uninterp spec fn json_document(text: Seq<char>) -> Option<Value>;

/// The member that `serde_json::Value::get` finds under `key`: the value stored under
/// that key where `value` is an object that has it, `None` otherwise.
pub uninterp spec fn json_member(value: Value, key: Seq<char>) -> Option<Value>;

/// The text that `serde_json::Value::as_str` gives: the contents of `value` where it
/// is a JSON string, `None` where it is anything else.
pub uninterp spec fn json_string(value: Value) -> Option<Seq<char>>;

/// Calls `serde_json::from_str` to parse `text` as one JSON value. Trusted: the
/// outcome depends on the text alone, so it is `json_document(text@)`; an error is
/// returned exactly where that is `None`.
#[verifier::external_body]
pub(crate) fn parse_document(text: &str) -> (parsed: Result<Value, serde_json::Error>)
    ensures
        match parsed {
            Ok(document) => json_document(text@) == Some(document),
            Err(_) => json_document(text@) is None,
        },
{
    serde_json::from_str(text)
}

/// Calls `serde_json::Value::get` with a string key. Trusted: the result is
/// `json_member(*value, key@)`.
#[verifier::external_body]
pub(crate) fn member<'a>(value: &'a Value, key: &str) -> (found: Option<&'a Value>)
    ensures
        match found {
            Some(inner) => json_member(*value, key@) == Some(*inner),
            None => json_member(*value, key@) is None,
        },
{
    value.get(key)
}

/// Calls `serde_json::Value::as_str`. Trusted: the result is `json_string(*value)`.
#[verifier::external_body]
pub(crate) fn string_of<'a>(value: &'a Value) -> (text: Option<&'a str>)
    ensures
        match text {
            Some(s) => json_string(*value) == Some(s@),
            None => json_string(*value) is None,
        },
{
    value.as_str()
}

} // verus!
