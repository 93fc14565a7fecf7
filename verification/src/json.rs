//! JSON documents as `serde_json` holds them, and what this library reads of
//! them.
//!
//! A document is carried as a `serde_json::Value`. Verus sees nothing inside
//! such a value, so its contents are named by [`json_doc`], and each accessor
//! used here has a contract over that name. None of these contracts is
//! proved: they restate what the source of `serde_json` shows.

use vstd::prelude::*;

verus! {

/// The contents of a JSON document.
///
/// A number is described only by the unsigned integer it holds, if it holds
/// one; negative and fractional numbers all appear as `Number(None)`.
pub enum JsonDoc {
    Null,
    Bool(bool),
    Number(Option<u64>),
    Text(Seq<char>),
    Array(Seq<JsonDoc>),
    Object(Map<Seq<char>, JsonDoc>),
}

#[verifier::external_type_specification]
#[verifier::external_body]
pub struct ExValue(serde_json::Value);

#[verifier::external_type_specification]
#[verifier::external_body]
pub struct ExJsonError(serde_json::Error);

/// What a `serde_json::Value` holds.
pub uninterp spec fn json_doc(v: serde_json::Value) -> JsonDoc;

/// What `serde_json` makes of a byte string: the document it parses to, or
/// `None` where it rejects the bytes.
pub uninterp spec fn json_parse(bytes: Seq<u8>) -> Option<JsonDoc>;

/// The member of `doc` under `key`, where `doc` is an object that has one.
pub open spec fn member(doc: JsonDoc, key: Seq<char>) -> Option<JsonDoc> {
    match doc {
        JsonDoc::Object(m) => if m.contains_key(key) {
            Some(m[key])
        } else {
            None
        },
        _ => None,
    }
}

/// `serde_json::from_slice` at type `Value`: parsing depends on the bytes
/// alone, so the outcome is `json_parse` of them.
#[verifier::external_body]
pub(crate) fn parse_value(bytes: &[u8]) -> (r: Result<serde_json::Value, serde_json::Error>)
    ensures
        match r {
            Ok(v) => json_parse(bytes@) == Some(json_doc(v)),
            Err(_) => json_parse(bytes@) is None,
        },
{
    serde_json::from_slice::<serde_json::Value>(bytes)
}

/// `Value::get` with a string index: the member under `key` of an object,
/// `None` for a missing key and for anything that is not an object.
#[verifier::external_body]
pub(crate) fn value_get<'a>(v: &'a serde_json::Value, key: &str) -> (r: Option<&'a serde_json::Value>)
    ensures
        match r {
            Some(x) => member(json_doc(*v), key@) == Some(json_doc(*x)),
            None => member(json_doc(*v), key@) is None,
        },
{
    v.get(key)
}

/// `Value::as_array`: the elements of an array, `None` for anything else.
#[verifier::external_body]
pub(crate) fn value_as_array(v: &serde_json::Value) -> (r: Option<&Vec<serde_json::Value>>)
    ensures
        match json_doc(*v) {
            JsonDoc::Array(items) => r matches Some(a) && a@.len() == items.len() && forall|i: int|
                0 <= i < items.len() ==> json_doc(#[trigger] a@[i]) == items[i],
            _ => r is None,
        },
{
    v.as_array()
}

/// `Value::as_str`: the text of a string, `None` for anything else.
#[verifier::external_body]
pub(crate) fn value_as_str(v: &serde_json::Value) -> (r: Option<&str>)
    ensures
        match json_doc(*v) {
            JsonDoc::Text(s) => r matches Some(t) && t@ == s,
            _ => r is None,
        },
{
    v.as_str()
}

/// `Value::as_u64`: the value of a number stored as an unsigned integer,
/// `None` for every other number and for anything that is not a number.
#[verifier::external_body]
pub(crate) fn value_as_u64(v: &serde_json::Value) -> (r: Option<u64>)
    ensures
        match json_doc(*v) {
            JsonDoc::Number(n) => r == n,
            _ => r is None,
        },
{
    v.as_u64()
}

/// `Value::is_null`.
#[verifier::external_body]
pub(crate) fn value_is_null(v: &serde_json::Value) -> (r: bool)
    ensures
        r == (json_doc(*v) is Null),
{
    v.is_null()
}

/// `Value::clone`: the copy is the same document.
pub assume_specification[ <serde_json::Value as Clone>::clone ](v: &serde_json::Value) -> (r:
    serde_json::Value)
    ensures
        r == *v,
;

} // verus!
