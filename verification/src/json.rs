//! JSON values, as far as directory listings and file records read them.

use vstd::prelude::*;
use vstd::string::*;

verus! {

/// What a JSON value is. A number is known by its value as an unsigned 64-bit
/// integer, where it is one.
pub enum Json {
    Null,
    Flag(bool),
    Number(Option<u64>),
    Text(Seq<char>),
    List(Seq<Json>),
    Object(Map<Seq<char>, Json>),
}

/// `serde_json::Value`, a parsed JSON value.
#[verifier::external_type_specification]
#[verifier::external_body]
pub struct ExJsonValue(serde_json::Value);

/// `serde_json::Error`, which says why a text is not the JSON asked for.
#[verifier::external_type_specification]
#[verifier::external_body]
pub struct ExJsonError(serde_json::Error);

/// What the given `serde_json::Value` holds.
pub uninterp spec fn json_of(value: serde_json::Value) -> Json;

/// What `serde_json::from_str` reads from a text as one value, where it
/// accepts it.
pub uninterp spec fn parsed_value(text: Seq<char>) -> Option<Json>;

/// What `serde_json::from_str` reads from a text as an array of values, where
/// it accepts it.
pub uninterp spec fn parsed_array(text: Seq<char>) -> Option<Seq<Json>>;

/// What the given values hold.
pub open spec fn jsons(values: Seq<serde_json::Value>) -> Seq<Json> {
    Seq::new(values.len(), |i: int| json_of(values[i]))
}

/// The value under `key`, where `value` is an object that has the key.
pub open spec fn member(value: Json, key: Seq<char>) -> Option<Json> {
    match value {
        Json::Object(fields) => if fields.contains_key(key) {
            Some(fields[key])
        } else {
            None
        },
        _ => None,
    }
}

/// The text of a JSON string.
pub open spec fn text_of(value: Json) -> Option<Seq<char>> {
    match value {
        Json::Text(t) => Some(t),
        _ => None,
    }
}

/// The value of a JSON number that is an unsigned 64-bit integer.
pub open spec fn unsigned_of(value: Json) -> Option<u64> {
    match value {
        Json::Number(n) => n,
        _ => None,
    }
}

/// The value of a JSON boolean.
pub open spec fn flag_of(value: Json) -> Option<bool> {
    match value {
        Json::Flag(b) => Some(b),
        _ => None,
    }
}

/// Calls `serde_json::from_str` for one value. The result depends on the text
/// alone and is named `parsed_value`.
#[verifier::external_body]
pub(crate) fn parse_value(text: &str) -> (r: Result<serde_json::Value, serde_json::Error>)
    ensures
        match r {
            Ok(v) => parsed_value(text@) == Some(json_of(v)),
            Err(_) => parsed_value(text@) is None,
        },
{
    serde_json::from_str(text)
}

/// Calls `serde_json::from_str` for an array of values. The result depends on
/// the text alone and is named `parsed_array`.
#[verifier::external_body]
pub(crate) fn parse_array(text: &str) -> (r: Result<Vec<serde_json::Value>, serde_json::Error>)
    ensures
        match r {
            Ok(v) => parsed_array(text@) == Some(jsons(v@)),
            Err(_) => parsed_array(text@) is None,
        },
{
    serde_json::from_str(text)
}

/// Calls `serde_json::Value::get` with a string: the value under that key, or
/// nothing where the value is no object or has no such key.
#[verifier::external_body]
pub(crate) fn get<'a>(value: &'a serde_json::Value, key: &str) -> (r: Option<&'a serde_json::Value>)
    ensures
        match r {
            Some(v) => member(json_of(*value), key@) == Some(json_of(*v)),
            None => member(json_of(*value), key@) is None,
        },
{
    value.get(key)
}

/// Calls `serde_json::Value::as_str`: the text of a string, and nothing for
/// every other value.
#[verifier::external_body]
pub(crate) fn as_str(value: &serde_json::Value) -> (r: Option<&str>)
    ensures
        match r {
            Some(t) => text_of(json_of(*value)) == Some(t@),
            None => text_of(json_of(*value)) is None,
        },
{
    value.as_str()
}

/// Calls `serde_json::Value::as_u64`: the value of a number that is an
/// unsigned 64-bit integer, and nothing for every other value.
#[verifier::external_body]
pub(crate) fn as_u64(value: &serde_json::Value) -> (r: Option<u64>)
    ensures
        r == unsigned_of(json_of(*value)),
{
    value.as_u64()
}

/// Calls `serde_json::Value::as_bool`: the value of a boolean, and nothing for
/// every other value.
#[verifier::external_body]
pub(crate) fn as_bool(value: &serde_json::Value) -> (r: Option<bool>)
    ensures
        r == flag_of(json_of(*value)),
{
    value.as_bool()
}

/// A JSON value as far as a record of a file reads it.
pub enum JsonScalar {
    Text(String),
    Unsigned(u64),
    Flag(bool),
    Other,
}

/// What is left of a JSON value when it is read as a scalar.
pub open spec fn scalar_is(scalar: JsonScalar, value: Json) -> bool {
    match scalar {
        JsonScalar::Text(t) => value == Json::Text(t@),
        JsonScalar::Unsigned(n) => value == Json::Number(Some(n)),
        JsonScalar::Flag(b) => value == Json::Flag(b),
        JsonScalar::Other => {
            &&& text_of(value) is None
            &&& unsigned_of(value) is None
            &&& flag_of(value) is None
        },
    }
}

/// Reads a JSON value as a scalar.
pub fn scalar_of(value: &serde_json::Value) -> (r: JsonScalar)
    ensures
        scalar_is(r, json_of(*value)),
{
    if let Some(t) = as_str(value) {
        JsonScalar::Text(t.to_owned())
    } else if let Some(n) = as_u64(value) {
        JsonScalar::Unsigned(n)
    } else if let Some(b) = as_bool(value) {
        JsonScalar::Flag(b)
    } else {
        JsonScalar::Other
    }
}

/// Reads the member `key` of a JSON value as a scalar.
pub fn scalar_member(value: &serde_json::Value, key: &str) -> (r: Option<JsonScalar>)
    ensures
        match r {
            Some(s) => member(json_of(*value), key@) matches Some(v) && scalar_is(s, v),
            None => member(json_of(*value), key@) is None,
        },
{
    match get(value, key) {
        Some(v) => Some(scalar_of(v)),
        None => None,
    }
}

} // verus!
