//! The few questions this crate asks of a JSON document, answered by
//! `serde_json`.

use vstd::prelude::*;

verus! {

/// A parsed JSON value. Nothing of its inside is visible here; the
/// functions below are the only way to look into one.
#[verifier::external_type_specification]
#[verifier::external_body]
pub struct ExJsonValue(serde_json::Value);

/// The value that a text parses to as JSON, `None` where it is not one
/// JSON value; this is what `serde_json::from_str` returns for `Value`.
pub uninterp spec fn parsed_json(text: Seq<char>) -> Option<serde_json::Value>;

/// The member of a JSON object under a key, `None` where the value is no
/// object or has no such key; this is what `Value::get` returns for a
/// string index.
pub uninterp spec fn json_member(doc: serde_json::Value, key: Seq<char>) -> Option<
    serde_json::Value,
>;

/// Whether a JSON value is `null`; this is what `Value::is_null` answers.
pub uninterp spec fn json_is_null(value: serde_json::Value) -> bool;

/// The number a JSON value holds, where it is an integer that fits `u64`;
/// this is what `Value::as_u64` returns.
pub uninterp spec fn json_unsigned(value: serde_json::Value) -> Option<u64>;

/// The text a JSON value holds, where it is a string; this is what
/// `Value::as_str` returns.
pub uninterp spec fn json_text(value: serde_json::Value) -> Option<Seq<char>>;

/// Parses a text as one JSON value.
///
/// Calls `serde_json::from_str` for `serde_json::Value` and drops the
/// error. The contract only names the result.
#[verifier::external_body]
pub(crate) fn parse_json(text: &str) -> (doc: Option<serde_json::Value>)
    ensures
        doc == parsed_json(text@),
{
    serde_json::from_str::<serde_json::Value>(text).ok()
}

/// Looks a key up in a JSON object.
///
/// Calls `Value::get` with a string index. The contract only names the
/// result.
#[verifier::external_body]
pub(crate) fn member<'a>(doc: &'a serde_json::Value, key: &str) -> (value: Option<
    &'a serde_json::Value,
>)
    ensures
        match value {
            Some(v) => json_member(*doc, key@) == Some(*v),
            None => json_member(*doc, key@) is None,
        },
{
    doc.get(key)
}

/// `Value::is_null`: the contract only names the result.
pub assume_specification[ serde_json::Value::is_null ](value: &serde_json::Value) -> (null: bool)
    ensures
        null == json_is_null(*value),
;

/// `Value::as_u64`: the contract only names the result.
pub assume_specification[ serde_json::Value::as_u64 ](value: &serde_json::Value) -> (number:
    Option<u64>)
    ensures
        number == json_unsigned(*value),
;

/// `Value::as_str`: the contract only names the result.
pub assume_specification<'a>[ serde_json::Value::as_str ](value: &'a serde_json::Value) -> (text:
    Option<&'a str>)
    ensures
        match text {
            Some(t) => json_text(*value) == Some(t@),
            None => json_text(*value) is None,
        },
;

} // verus!
