//! JSON values as they pass through the library.
//!
//! A value is opaque here. It is spoken of by its compact text, and the few questions
//! that the protocol asks of a value are answered by `serde_json` and named below.

use vstd::prelude::*;
use serde_json::Value;

verus! {

#[verifier::external_type_specification]
#[verifier::external_body]
pub struct ExValue(serde_json::Value);

/// The compact JSON text of a value: what its `Display` writes.
pub uninterp spec fn json_text(v: serde_json::Value) -> Seq<char>;

/// The compact text of the value that `serde_json::from_slice` reads from `bytes`, if they
/// are one JSON document.
pub uninterp spec fn json_parse(bytes: Seq<u8>) -> Option<Seq<char>>;

/// The compact text of the member `key` of the value with compact text `doc`, as
/// `Value::get` finds it: present only in an object that has the key.
pub uninterp spec fn json_member(doc: Seq<char>, key: Seq<char>) -> Option<Seq<char>>;

/// What `Value::as_u64` gives for the value with compact text `doc`.
pub uninterp spec fn json_u64(doc: Seq<char>) -> Option<u64>;

/// What `Value::as_i64` gives for the value with compact text `doc`.
pub uninterp spec fn json_i64(doc: Seq<char>) -> Option<i64>;

/// What `Value::as_str` gives for the value with compact text `doc`.
pub uninterp spec fn json_str(doc: Seq<char>) -> Option<Seq<char>>;

/// The compact text of the JSON string that holds `s`: `s` quoted and escaped.
pub uninterp spec fn json_quote(s: Seq<char>) -> Seq<char>;

/// A text without a line feed.
pub open spec fn newline_free(s: Seq<char>) -> bool {
    forall|i: int| 0 <= i < s.len() ==> s[i] != '\n'
}

/// Calls `Value`'s `Display` through `to_string`, which writes the value with
/// `serde_json`'s compact formatter. That formatter writes no white space between tokens
/// and escapes every control character inside a string, so the text holds no line feed.
#[verifier::external_body]
pub(crate) fn render(v: &Value) -> (r: String)
    ensures
        r@ == json_text(*v),
        newline_free(r@),
{
    v.to_string()
}

/// Calls `serde_json::from_slice` for a `Value`: the value that the bytes spell, or
/// nothing where they are not exactly one JSON document.
#[verifier::external_body]
pub(crate) fn parse(bytes: &[u8]) -> (r: Option<Value>)
    ensures
        match r {
            Some(v) => json_parse(bytes@) == Some(json_text(v)),
            None => json_parse(bytes@) is None,
        },
{
    serde_json::from_slice::<Value>(bytes).ok()
}

/// Calls `Value::get` with a text key and copies what it finds.
#[verifier::external_body]
pub(crate) fn member(v: &Value, key: &str) -> (r: Option<Value>)
    ensures
        match r {
            Some(m) => json_member(json_text(*v), key@) == Some(json_text(m)),
            None => json_member(json_text(*v), key@) is None,
        },
{
    v.get(key).cloned()
}

/// Calls `Value::as_u64`.
#[verifier::external_body]
pub(crate) fn as_u64(v: &Value) -> (r: Option<u64>)
    ensures
        r == json_u64(json_text(*v)),
{
    v.as_u64()
}

/// Calls `Value::as_i64`.
#[verifier::external_body]
pub(crate) fn as_i64(v: &Value) -> (r: Option<i64>)
    ensures
        r == json_i64(json_text(*v)),
{
    v.as_i64()
}

/// Calls `Value::as_str` and copies the text.
#[verifier::external_body]
pub(crate) fn as_string(v: &Value) -> (r: Option<String>)
    ensures
        match r {
            Some(s) => json_str(json_text(*v)) == Some(s@),
            None => json_str(json_text(*v)) is None,
        },
{
    v.as_str().map(|s| s.to_string())
}

/// Calls `Value::from` on a text, which makes the JSON string that holds it.
#[verifier::external_body]
pub(crate) fn string_value(s: &str) -> (r: Value)
    ensures
        json_text(r) == json_quote(s@),
{
    Value::from(s)
}

} // verus!
