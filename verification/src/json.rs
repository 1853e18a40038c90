//! JSON documents as `serde_json` holds them, and the few operations on them
//! that the codec needs.

use vstd::prelude::*;

verus! {

#[verifier::external_type_specification]
#[verifier::external_body]
pub struct ExJsonValue(serde_json::Value);

/// What a JSON value holds. Numbers are not read by this library and carry
/// no content here.
pub enum Json {
    Null,
    Bool(bool),
    Number,
    Text(Seq<char>),
    Array(Seq<Json>),
    Object(Map<Seq<char>, Json>),
}

/// What the value `v` holds.
pub uninterp spec fn json_of(v: serde_json::Value) -> Json;

/// What `bytes` hold when read as one JSON text; `None` where they are no
/// JSON text.
pub uninterp spec fn json_parsed(bytes: Seq<u8>) -> Option<Json>;

/// `s` written as a JSON string, quotes and escapes included; `None` where
/// the serializer fails.
pub uninterp spec fn json_quoted(s: Seq<char>) -> Option<Seq<char>>;

/// Reads `bytes` as one JSON text.
///
/// Calls `serde_json::from_slice` for a `Value`. The result depends on the
/// bytes alone; the contract names it `json_parsed` and says no more of it.
#[verifier::external_body]
pub(crate) fn parse_json(bytes: &[u8]) -> (r: Option<serde_json::Value>)
    ensures
        r is Some <==> json_parsed(bytes@) is Some,
        r is Some ==> json_parsed(bytes@) == Some(json_of(r.unwrap())),
{
    serde_json::from_slice::<serde_json::Value>(bytes).ok()
}

/// The member `key` of the object `v`.
///
/// Calls `Value::get` with a string index, which looks the key up where the
/// value is an object and returns `None` for every other value.
#[verifier::external_body]
pub(crate) fn json_member<'a>(v: &'a serde_json::Value, key: &str) -> (r: Option<
    &'a serde_json::Value,
>)
    ensures
        r is Some <==> (json_of(*v) matches Json::Object(m) && m.contains_key(key@)),
        r is Some ==> (json_of(*v) matches Json::Object(m) && json_of(*r.unwrap()) == m[key@]),
{
    v.get(key)
}

/// The boolean that `v` is, if it is one.
///
/// Calls `Value::as_bool`, which returns the content of a `Bool` and `None`
/// for every other value.
#[verifier::external_body]
pub(crate) fn json_bool(v: &serde_json::Value) -> (r: Option<bool>)
    ensures
        r == (match json_of(*v) {
            Json::Bool(b) => Some(b),
            _ => None,
        }),
{
    v.as_bool()
}

/// The elements of `v`, if it is an array.
///
/// Calls `Value::as_array`, which returns the vector inside an `Array` and
/// `None` for every other value.
#[verifier::external_body]
pub(crate) fn json_array(v: &serde_json::Value) -> (r: Option<&Vec<serde_json::Value>>)
    ensures
        r is Some <==> json_of(*v) is Array,
        r is Some ==> (json_of(*v) matches Json::Array(items) && items.len() == r.unwrap()@.len()
            && forall|k: int|
            0 <= k < items.len() ==> json_of(#[trigger] r.unwrap()@[k]) == items[k]),
{
    v.as_array()
}

/// The text that `v` is, if it is a string.
///
/// Calls `Value::as_str`, which returns the content of a `String` and `None`
/// for every other value.
#[verifier::external_body]
pub(crate) fn json_text(v: &serde_json::Value) -> (r: Option<&str>)
    ensures
        r is Some <==> json_of(*v) is Text,
        r is Some ==> json_of(*v) == Json::Text(r.unwrap()@),
{
    v.as_str()
}

/// Writes `s` as a JSON string.
///
/// Calls `serde_json::to_string` on a `str`. The result depends on the text
/// alone; the contract names it `json_quoted` and says no more of it.
#[verifier::external_body]
pub(crate) fn quote_json(s: &str) -> (r: Option<String>)
    ensures
        r is Some <==> json_quoted(s@) is Some,
        r is Some ==> r.unwrap()@ == json_quoted(s@).unwrap(),
{
    serde_json::to_string(s).ok()
}

} // verus!
