//! The JSON documents that the service sends, as `serde_json` holds them,
//! and the mathematical content that the contracts of this crate speak of.

use serde_json::Value;
use vstd::prelude::*;

verus! {

/// What a JSON document says, as far as this crate reads it: objects, text
/// and integers. Every other value (null, a boolean, a number with a
/// fraction or an exponent, an array) is `Other`.
pub enum Json {
    Text(Seq<char>),
    Integer(int),
    Object(Map<Seq<char>, Json>),
    Other,
}

/// `serde_json::Value`, a JSON document in memory. The verifier sees
/// nothing inside one; what it holds is what `json_of` names.
#[verifier::external_type_specification]
#[verifier::external_body]
pub struct ExValue(serde_json::Value);

/// The content of a `serde_json::Value`.
pub uninterp spec fn json_of(v: Value) -> Json;

/// The content of the document that `serde_json::from_str` reads from a
/// text, or `None` where it rejects the text.
pub uninterp spec fn json_parse(text: Seq<char>) -> Option<Json>;

/// The member of an object under a key; `None` for a missing key and for
/// anything that is no object.
pub open spec fn member_of(j: Json, key: Seq<char>) -> Option<Json> {
    match j {
        Json::Object(members) => if members.contains_key(key) {
            Some(members[key])
        } else {
            None
        },
        _ => None,
    }
}

/// `serde_json::from_str` at type `Value`: parses a whole text as one JSON
/// document. Claimed: whether it succeeds depends on the text alone, and a
/// value that comes back holds the content that `json_parse` names. The
/// parser's own error is dropped here.
#[verifier::external_body]
pub(crate) fn parse(text: &str) -> (r: Option<Value>)
    ensures
        match r {
            Some(v) => json_parse(text@) == Some(json_of(v)),
            None => json_parse(text@) is None,
        },
{
    serde_json::from_str::<Value>(text).ok()
}

/// `Value::get` with a string key. Claimed: it returns the member stored
/// under `key` when the value is an object that has one, and `None`
/// otherwise.
#[verifier::external_body]
pub(crate) fn member<'a>(v: &'a Value, key: &str) -> (r: Option<&'a Value>)
    ensures
        match r {
            Some(m) => member_of(json_of(*v), key@) == Some(json_of(*m)),
            None => member_of(json_of(*v), key@) is None,
        },
{
    v.get(key)
}

/// `Value::as_str`. Claimed: it returns the text of a JSON string and
/// `None` for every other value.
#[verifier::external_body]
pub(crate) fn text<'a>(v: &'a Value) -> (r: Option<&'a str>)
    ensures
        match r {
            Some(s) => json_of(*v) == Json::Text(s@),
            None => !(json_of(*v) is Text),
        },
{
    v.as_str()
}

/// `Value::as_i64`. Claimed: it returns the number when the value is an
/// integer that fits `i64`, and `None` otherwise.
#[verifier::external_body]
pub(crate) fn integer(v: &Value) -> (r: Option<i64>)
    ensures
        match r {
            Some(n) => json_of(*v) == Json::Integer(n as int),
            None => !(json_of(*v) matches Json::Integer(n) && i64::MIN <= n <= i64::MAX),
        },
{
    v.as_i64()
}

/// `Value::from` on a `String`. Claimed: the result is the JSON string with
/// that text.
#[verifier::external_body]
pub(crate) fn from_text(text: String) -> (r: Value)
    ensures
        json_of(r) == Json::Text(text@),
{
    Value::from(text)
}

/// `Value::from` on an `i64`. Claimed: the result is the JSON number with
/// that integer value.
#[verifier::external_body]
pub(crate) fn from_integer(n: i64) -> (r: Value)
    ensures
        json_of(r) == Json::Integer(n as int),
{
    Value::from(n)
}

/// `Map::new`, held in a `Value`. Claimed: the result is the object
/// without members.
#[verifier::external_body]
pub(crate) fn empty_object() -> (r: Value)
    ensures
        json_of(r) == Json::Object(Map::empty()),
{
    Value::Object(serde_json::Map::new())
}

/// `Map::insert` on the map of an object. Claimed: afterwards the object
/// holds `value` under `key`, in place of what it held there before, and
/// its other members as they were.
#[verifier::external_body]
pub(crate) fn set_member(object: &mut Value, key: String, value: Value)
    requires
        json_of(*old(object)) is Object,
    ensures
        json_of(*final(object)) == Json::Object(
            json_of(*old(object))->Object_0.insert(key@, json_of(value)),
        ),
{
    if let Value::Object(members) = object {
        members.insert(key, value);
    }
}

/// The text under a key of an object; `None` where the object has no such
/// member or the member is no text.
pub open spec fn text_member(j: Json, key: Seq<char>) -> Option<Seq<char>> {
    match member_of(j, key) {
        Some(Json::Text(t)) => Some(t),
        _ => None,
    }
}

/// The integer under a key of an object; `None` where the object has no
/// such member or the member is no integer in the range of `i64`.
pub open spec fn integer_member(j: Json, key: Seq<char>) -> Option<i64> {
    match member_of(j, key) {
        Some(Json::Integer(n)) => if i64::MIN <= n <= i64::MAX {
            Some(n as i64)
        } else {
            None
        },
        _ => None,
    }
}

/// Reads the text under `key`.
pub fn text_at<'a>(v: &'a Value, key: &str) -> (r: Option<&'a str>)
    ensures
        match r {
            Some(t) => text_member(json_of(*v), key@) == Some(t@),
            None => text_member(json_of(*v), key@) is None,
        },
{
    match member(v, key) {
        Some(m) => text(m),
        None => None,
    }
}

/// Reads the integer under `key`.
pub fn integer_at(v: &Value, key: &str) -> (r: Option<i64>)
    ensures
        r == integer_member(json_of(*v), key@),
{
    match member(v, key) {
        Some(m) => integer(m),
        None => None,
    }
}

} // verus!
