//! JSON documents, as `serde_json` reads, holds and writes them.
//!
//! A `serde_json::Value` is opaque to the verifier. What it holds is named by
//! [`json_content`], a tree of plain values, and every call into `serde_json`
//! is stated over that tree. The statements in this file are taken on trust
//! from the source of `serde_json`; everything built on them is proved.

use vstd::prelude::*;

verus! {

/// `serde_json::Value`: a JSON document in memory.
#[verifier::external_type_specification]
#[verifier::external_body]
pub struct ExValue(serde_json::Value);

/// `serde_json::Error`: why a text is no JSON document. Nothing is read
/// from it.
#[verifier::external_type_specification]
#[verifier::external_body]
pub struct ExJsonError(serde_json::Error);

/// A JSON number, by the way `serde_json` holds it: a non-negative integer,
/// a negative integer, or a finite binary64 number given by its bit pattern.
pub enum JsonNumber {
    Unsigned(u64),
    Negative(i64),
    Binary64(u64),
}

/// What a JSON document holds. An object has no order and no repeated keys.
pub enum Json {
    Null,
    Bool(bool),
    Number(JsonNumber),
    Text(Seq<char>),
    Array(Seq<Json>),
    Object(Map<Seq<char>, Json>),
}

/// What `value` holds, variant by variant: null, a boolean, a number, the
/// characters of a string, the elements of an array in order, the members
/// of an object by their keys.
pub uninterp spec fn json_content(value: serde_json::Value) -> Json;

/// The document that `serde_json::from_slice` reads from `bytes`; `None`
/// where it reports an error.
pub uninterp spec fn json_read(bytes: Seq<u8>) -> Option<Json>;

/// The compact text that `serde_json` writes for a value holding `doc`.
pub uninterp spec fn json_text(doc: Json) -> Seq<char>;

/// The member of an object under `key`; `None` where `doc` is no object or
/// has no such member.
pub open spec fn member(doc: Json, key: Seq<char>) -> Option<Json> {
    match doc {
        Json::Object(members) => if members.contains_key(key) {
            Some(members[key])
        } else {
            None
        },
        _ => None,
    }
}

/// The member of an object under `key`, and null where there is none.
pub open spec fn member_or_null(doc: Json, key: Seq<char>) -> Json {
    match member(doc, key) {
        Some(found) => found,
        None => Json::Null,
    }
}

/// The value of a non-negative integer; `None` for anything else.
pub open spec fn as_unsigned(doc: Json) -> Option<u64> {
    match doc {
        Json::Number(JsonNumber::Unsigned(n)) => Some(n),
        _ => None,
    }
}

/// `serde_json::from_slice::<Value>`: reads one JSON document from `bytes`.
/// The outcome depends on the bytes alone and is named by [`json_read`].
#[verifier::external_body]
pub(crate) fn parse_json(bytes: &[u8]) -> (parsed: Result<serde_json::Value, serde_json::Error>)
    ensures
        match parsed {
            Ok(value) => json_read(bytes@) == Some(json_content(value)),
            Err(_) => json_read(bytes@) is None,
        },
{
    serde_json::from_slice::<serde_json::Value>(bytes)
}

/// `Value::get` with a string index: the member under `key` where `value` is
/// an object that has one, `None` otherwise.
#[verifier::external_body]
pub(crate) fn json_get<'a>(value: &'a serde_json::Value, key: &str) -> (found: Option<
    &'a serde_json::Value,
>)
    ensures
        match found {
            Some(inner) => member(json_content(*value), key@) == Some(json_content(*inner)),
            None => member(json_content(*value), key@) is None,
        },
{
    value.get(key)
}

/// `Value`'s `Index<&str>`: like `Value::get`, with null in place of `None`.
#[verifier::external_body]
pub(crate) fn json_index<'a>(value: &'a serde_json::Value, key: &str) -> (inner:
    &'a serde_json::Value)
    ensures
        json_content(*inner) == member_or_null(json_content(*value), key@),
{
    &value[key]
}

/// `Value::as_u64`: the number where `value` holds a non-negative integer.
/// This is so while `serde_json` is built without `arbitrary_precision`,
/// which this crate does not switch on.
#[verifier::external_body]
pub(crate) fn json_as_u64(value: &serde_json::Value) -> (number: Option<u64>)
    ensures
        number == as_unsigned(json_content(*value)),
{
    value.as_u64()
}

/// `Value::as_str`: the characters where `value` holds a string, `None`
/// where it holds anything else.
#[verifier::external_body]
pub(crate) fn json_as_str<'a>(value: &'a serde_json::Value) -> (text: Option<&'a str>)
    ensures
        match text {
            Some(characters) => json_content(*value) == Json::Text(characters@),
            None => !(json_content(*value) is Text),
        },
{
    value.as_str()
}

/// `Value::is_number`.
#[verifier::external_body]
pub(crate) fn json_is_number(value: &serde_json::Value) -> (yes: bool)
    ensures
        yes == (json_content(*value) is Number),
{
    value.is_number()
}

/// `Value::is_object`.
#[verifier::external_body]
pub(crate) fn json_is_object(value: &serde_json::Value) -> (yes: bool)
    ensures
        yes == (json_content(*value) is Object),
{
    value.is_object()
}

/// `Value`'s `Display`: the compact JSON text of `value`, named by
/// [`json_text`]. An object's members are written in the order of their
/// keys, so the text depends on the content alone. This is so while
/// `serde_json` is built without `preserve_order`, which this crate does not
/// switch on.
#[verifier::external_body]
pub(crate) fn json_render(value: &serde_json::Value) -> (text: String)
    ensures
        text@ == json_text(json_content(*value)),
{
    value.to_string()
}

/// `Value::from(u64)`: a number holding `n`.
#[verifier::external_body]
pub(crate) fn json_number(n: u64) -> (value: serde_json::Value)
    ensures
        json_content(value) == Json::Number(JsonNumber::Unsigned(n)),
{
    serde_json::Value::from(n)
}

/// `Value::from(&str)`: a string holding the characters of `text`.
#[verifier::external_body]
pub(crate) fn json_string(text: &str) -> (value: serde_json::Value)
    ensures
        json_content(value) == Json::Text(text@),
{
    serde_json::Value::from(text)
}

/// `Value::Object` around `serde_json::Map::new`: an object without members.
#[verifier::external_body]
pub(crate) fn json_object() -> (value: serde_json::Value)
    ensures
        json_content(value) == Json::Object(Map::<Seq<char>, Json>::empty()),
{
    serde_json::Value::Object(serde_json::Map::new())
}

/// `Value`'s `IndexMut<&str>`, assigned to: sets the member under `key`,
/// replacing an earlier one. The outside function panics on a value that is
/// neither an object nor null, which the precondition rules out.
#[verifier::external_body]
pub(crate) fn json_set(object: &mut serde_json::Value, key: &str, inner: serde_json::Value)
    requires
        json_content(*old(object)) is Object,
    ensures
        json_content(*final(object)) == Json::Object(
            json_content(*old(object))->Object_0.insert(key@, json_content(inner)),
        ),
{
    object[key] = inner;
}

} // verus!
