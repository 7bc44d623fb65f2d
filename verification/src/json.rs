//! Decoded JSON. The decoder is `serde_json`'s, and nothing here is proved
//! of it. What a decoded value holds has a model, `Json`, and the contract
//! of each function of `serde_json` that the library calls says in terms of
//! that model what the function returns. Only what a text decodes to is
//! left open: it has a name, `decoded`, and no definition.

use vstd::prelude::*;

verus! {

/// A decoded JSON value, opaque to the verifier.
#[verifier::external_type_specification]
#[verifier::external_body]
pub struct ExValue(serde_json::Value);

/// The reason why a text did not decode, opaque to the verifier.
#[verifier::external_type_specification]
#[verifier::external_body]
pub struct ExError(serde_json::Error);

/// What a decoded JSON value holds. Of a number the model keeps the count
/// that it stands for, where it is an integer from 0 to 2^64 - 1, and
/// nothing where it is not.
pub enum Json {
    Null,
    Bool(bool),
    Number(Option<u64>),
    Text(Seq<char>),
    Array(Seq<Json>),
    Object(Map<Seq<char>, Json>),
}

/// What `value` holds.
pub uninterp spec fn contents(value: serde_json::Value) -> Json;

/// What `serde_json::from_slice` decodes `text` to, or `None` where it
/// reports an error.
pub uninterp spec fn decoded(text: Seq<u8>) -> Option<Json>;

/// The member of an object under `key`. A value that is no object has no
/// members.
pub open spec fn member_of(json: Json, key: Seq<char>) -> Option<Json> {
    match json {
        Json::Object(members) => if members.contains_key(key) {
            Some(members[key])
        } else {
            None
        },
        _ => None,
    }
}

/// The text that a value is, if it is one.
pub open spec fn text_of(json: Json) -> Option<Seq<char>> {
    match json {
        Json::Text(t) => Some(t),
        _ => None,
    }
}

/// The count that a value is, if it is one.
pub open spec fn count_of(json: Json) -> Option<u64> {
    match json {
        Json::Number(n) => n,
        _ => None,
    }
}

/// The elements of an array. A value that is no array has none.
pub open spec fn elements_of(json: Json) -> Option<Seq<Json>> {
    match json {
        Json::Array(items) => Some(items),
        _ => None,
    }
}

/// What each of a list of values holds, in the same order.
pub open spec fn contents_of_all(values: Seq<serde_json::Value>) -> Seq<Json> {
    values.map_values(|v: serde_json::Value| contents(v))
}

/// Calls `serde_json::from_slice` for a `Value`. The contract claims that
/// the outcome depends on the bytes alone: it is `Ok` with a value that
/// holds what `decoded` names, or `Err` where `decoded` is `None`.
#[verifier::external_body]
pub(crate) fn decode(text: &[u8]) -> (result: Result<serde_json::Value, serde_json::Error>)
    ensures
        match result {
            Ok(value) => decoded(text@) == Some(contents(value)),
            Err(_) => decoded(text@) is None,
        },
{
    serde_json::from_slice::<serde_json::Value>(text)
}

/// Calls `Value::get` with a text key. The contract claims that it finds
/// the member of an object under that key, and nothing in a value that is
/// no object or has no such member.
#[verifier::external_body]
pub(crate) fn member<'a>(value: &'a serde_json::Value, key: &str) -> (found: Option<
    &'a serde_json::Value,
>)
    ensures
        match found {
            Some(inner) => member_of(contents(*value), key@) == Some(contents(*inner)),
            None => member_of(contents(*value), key@) is None,
        },
{
    value.get(key)
}

/// Calls `Value::as_str`. The contract claims that it gives the text of a
/// value that is a text, and nothing for any other value.
#[verifier::external_body]
pub(crate) fn as_text<'a>(value: &'a serde_json::Value) -> (found: Option<&'a str>)
    ensures
        match found {
            Some(t) => text_of(contents(*value)) == Some(t@),
            None => text_of(contents(*value)) is None,
        },
{
    value.as_str()
}

/// Calls `Value::as_u64`. The contract claims that it gives the count of a
/// value that is a number and an integer from 0 to 2^64 - 1, and nothing
/// for any other value.
#[verifier::external_body]
pub(crate) fn as_count(value: &serde_json::Value) -> (found: Option<u64>)
    ensures
        found == count_of(contents(*value)),
{
    value.as_u64()
}

/// Calls `Value::as_array`. The contract claims that it gives the elements
/// of a value that is an array, and nothing for any other value.
#[verifier::external_body]
pub(crate) fn as_elements<'a>(value: &'a serde_json::Value) -> (found: Option<
    &'a Vec<serde_json::Value>,
>)
    ensures
        match found {
            Some(items) => elements_of(contents(*value)) == Some(contents_of_all(items@)),
            None => elements_of(contents(*value)) is None,
        },
{
    value.as_array()
}

/// The text under `key` in `json`, where there is a text under that key.
pub open spec fn text_member(json: Json, key: Seq<char>) -> Option<Seq<char>> {
    match member_of(json, key) {
        Some(inner) => text_of(inner),
        None => None,
    }
}

/// The count under `key` in `json`, where there is a count under that key.
pub open spec fn count_member(json: Json, key: Seq<char>) -> Option<u64> {
    match member_of(json, key) {
        Some(inner) => count_of(inner),
        None => None,
    }
}

/// Looks up the text under `key`.
pub(crate) fn read_text(value: &serde_json::Value, key: &str) -> (found: Option<String>)
    ensures
        match found {
            Some(t) => text_member(contents(*value), key@) == Some(t@),
            None => text_member(contents(*value), key@) is None,
        },
{
    match member(value, key) {
        Some(inner) => match as_text(inner) {
            Some(t) => Some(t.to_owned()),
            None => None,
        },
        None => None,
    }
}

/// Looks up the count under `key`.
pub(crate) fn read_count(value: &serde_json::Value, key: &str) -> (found: Option<u64>)
    ensures
        found == count_member(contents(*value), key@),
{
    match member(value, key) {
        Some(inner) => as_count(inner),
        None => None,
    }
}

} // verus!
