//! JSON documents as this library reads them: lookups of members, numbers,
//! strings and arrays in a parsed value.

use vstd::prelude::*;

verus! {

/// `serde_json::Value`: a parsed JSON document or a part of one. Nothing is
/// known of what a value holds but through the lookups below.
#[verifier::external_type_specification]
#[verifier::external_body]
pub struct ExJsonValue(serde_json::Value);

/// The JSON value that `serde_json::from_slice` reads from `bytes`, if it
/// reads one.
pub uninterp spec fn json_document(bytes: Seq<u8>) -> Option<serde_json::Value>;

/// The member that `serde_json::Value::get` finds in `value` under `key`.
pub uninterp spec fn json_member(value: serde_json::Value, key: Seq<char>) -> Option<
    serde_json::Value,
>;

/// The unsigned number that `value` holds, as `serde_json::Value::as_u64`
/// gives it.
pub uninterp spec fn json_number(value: serde_json::Value) -> Option<u64>;

/// The string that `value` holds, as `serde_json::Value::as_str` gives it.
pub uninterp spec fn json_text(value: serde_json::Value) -> Option<Seq<char>>;

/// The elements of the array that `value` holds, as
/// `serde_json::Value::as_array` gives them.
pub uninterp spec fn json_items(value: serde_json::Value) -> Option<Seq<serde_json::Value>>;

/// The number under `key`, as it was read, if the document has one there.
pub open spec fn number_at(doc: serde_json::Value, key: Seq<char>) -> Option<u64> {
    match json_member(doc, key) {
        Some(member) => json_number(member),
        None => None,
    }
}

/// The string under `key`, if the document has one there.
pub open spec fn text_at(doc: serde_json::Value, key: Seq<char>) -> Option<Seq<char>> {
    match json_member(doc, key) {
        Some(member) => json_text(member),
        None => None,
    }
}

/// Parses JSON text with `serde_json::from_slice`. The result is the value
/// that the parser reads, and `None` where it reports an error.
#[verifier::external_body]
pub(crate) fn parse_json(bytes: &[u8]) -> (doc: Option<serde_json::Value>)
    ensures
        doc == json_document(bytes@),
{
    serde_json::from_slice::<serde_json::Value>(bytes).ok()
}

/// Looks `key` up with `serde_json::Value::get`: the member of an object
/// under that key, `None` where `value` is no object or has no such member.
#[verifier::external_body]
pub(crate) fn member<'a>(value: &'a serde_json::Value, key: &str) -> (found: Option<
    &'a serde_json::Value,
>)
    ensures
        match found {
            Some(m) => json_member(*value, key@) == Some(*m),
            None => json_member(*value, key@).is_none(),
        },
{
    value.get(key)
}

/// Reads a number with `serde_json::Value::as_u64`: `None` where `value` is
/// no number, or is negative or not an integer.
#[verifier::external_body]
pub(crate) fn as_number(value: &serde_json::Value) -> (n: Option<u64>)
    ensures
        n == json_number(*value),
{
    value.as_u64()
}

/// Reads a string with `serde_json::Value::as_str`: `None` where `value` is
/// no string.
#[verifier::external_body]
pub(crate) fn as_text<'a>(value: &'a serde_json::Value) -> (s: Option<&'a str>)
    ensures
        match s {
            Some(t) => json_text(*value) == Some(t@),
            None => json_text(*value).is_none(),
        },
{
    value.as_str()
}

/// Reads an array with `serde_json::Value::as_array`: `None` where `value`
/// is no array.
#[verifier::external_body]
pub(crate) fn as_items<'a>(value: &'a serde_json::Value) -> (items: Option<
    &'a Vec<serde_json::Value>,
>)
    ensures
        match items {
            Some(v) => json_items(*value) == Some(v@),
            None => json_items(*value).is_none(),
        },
{
    value.as_array()
}

/// Reads the number under `key`.
pub(crate) fn read_number(doc: &serde_json::Value, key: &str) -> (n: Option<u64>)
    ensures
        n == number_at(*doc, key@),
{
    match member(doc, key) {
        Some(m) => as_number(m),
        None => None,
    }
}

/// Reads the string under `key`.
pub(crate) fn read_text(doc: &serde_json::Value, key: &str) -> (s: Option<String>)
    ensures
        match s {
            Some(t) => text_at(*doc, key@) == Some(t@),
            None => text_at(*doc, key@).is_none(),
        },
{
    match member(doc, key) {
        Some(m) => match as_text(m) {
            Some(t) => Some(t.to_owned()),
            None => None,
        },
        None => None,
    }
}

} // verus!
