//! JSON documents as the collectors read them.
//!
//! A parsed document is held as a [`JsonValue`]: a number keeps the text the
//! parser prints for it and its value as a 64-bit integer when it is one;
//! objects keep their members in the order the decoder hands them out, which
//! for `serde_json`'s default map is ascending key order.

use crate::text::str_equal;
use vstd::prelude::*;

verus! {

/// A JSON value.
pub enum JsonValue {
    Null,
    Bool(bool),
    /// A number: its printed text, and its value when it is an integer
    /// that fits in an `i64` (`Value::as_i64`).
    Number(String, Option<i64>),
    Text(String),
    Array(Vec<JsonValue>),
    /// Members in the decoder's order (ascending by key for a decoded
    /// document); keys are distinct.
    Object(Vec<(String, JsonValue)>),
}

/// The outside JSON tree that `serde_json` decodes text into.
#[verifier::external_type_specification]
#[verifier::external_body]
pub struct ExSerdeJsonValue(serde_json::Value);

/// What `serde_json::from_str::<serde_json::Value>` decodes a text to, read
/// as a [`JsonValue`]; `None` when the text is not one JSON document.
pub uninterp spec fn json_parse(text: Seq<char>) -> Option<JsonValue>;

/// Reads a decoded `serde_json::Value` as a [`JsonValue`], variant for
/// variant: a number becomes its printed text and `as_i64`, an object its
/// members in the map's order. Used only inside [`parse_json`].
#[verifier::external_body]
fn json_of(v: &serde_json::Value) -> JsonValue {
    match v {
        serde_json::Value::Null => JsonValue::Null,
        serde_json::Value::Bool(b) => JsonValue::Bool(*b),
        serde_json::Value::Number(n) => JsonValue::Number(n.to_string(), n.as_i64()),
        serde_json::Value::String(s) => JsonValue::Text(s.clone()),
        serde_json::Value::Array(a) => JsonValue::Array(a.iter().map(json_of).collect()),
        serde_json::Value::Object(m) => JsonValue::Object(
            m.iter().map(|(k, x)| (k.clone(), json_of(x))).collect(),
        ),
    }
}

/// Decodes a JSON text with `serde_json::from_str` into a `serde_json::Value`
/// and reads it as a [`JsonValue`]. The result is named [`json_parse`]: it
/// succeeds exactly when the decoder does, and then gives the named value.
/// On failure the decoder's message is returned; its wording is not stated.
#[verifier::external_body]
pub(crate) fn parse_json(text: &str) -> (r: Result<JsonValue, String>)
    ensures
        r is Ok <==> json_parse(text@) is Some,
        r matches Ok(v) ==> json_parse(text@) == Some(v),
{
    match serde_json::from_str::<serde_json::Value>(text) {
        Ok(v) => Ok(json_of(&v)),
        Err(e) => Err(e.to_string()),
    }
}

/// The value of the first member named `key`.
pub open spec fn lookup(entries: Seq<(String, JsonValue)>, key: Seq<char>) -> Option<JsonValue>
    decreases entries.len(),
{
    if entries.len() == 0 {
        None
    } else if entries[0].0@ == key {
        Some(entries[0].1)
    } else {
        lookup(entries.drop_first(), key)
    }
}

/// `Value::get(key)`: the member `key` of an object; `None` for any other value.
pub open spec fn json_get(v: JsonValue, key: Seq<char>) -> Option<JsonValue> {
    match v {
        JsonValue::Object(entries) => lookup(entries@, key),
        _ => None,
    }
}

/// `Option::or_else`: the first value when present, else the second.
pub open spec fn either(a: Option<JsonValue>, b: Option<JsonValue>) -> Option<JsonValue> {
    match a {
        Some(_) => a,
        None => b,
    }
}

/// `as_str` on an optional value: the text of a JSON string.
pub open spec fn as_text(o: Option<JsonValue>) -> Option<Seq<char>> {
    match o {
        Some(JsonValue::Text(s)) => Some(s@),
        _ => None,
    }
}

/// `as_i64` on an optional value.
pub open spec fn as_int(o: Option<JsonValue>) -> Option<i64> {
    match o {
        Some(JsonValue::Number(_, n)) => n,
        _ => None,
    }
}

/// An optional reference read as an optional value.
pub open spec fn deref_opt(o: Option<&JsonValue>) -> Option<JsonValue> {
    match o {
        Some(x) => Some(*x),
        None => None,
    }
}

/// `Value::get(key)`.
pub fn get<'a>(v: &'a JsonValue, key: &str) -> (r: Option<&'a JsonValue>)
    ensures
        deref_opt(r) == json_get(*v, key@),
{
    match v {
        JsonValue::Object(entries) => {
            let mut i: usize = 0;
            assert(entries@.skip(0) =~= entries@);
            assert(json_get(*v, key@) == lookup(entries@, key@));
            while i < entries.len()
                invariant
                    i <= entries@.len(),
                    json_get(*v, key@) == lookup(entries@.skip(i as int), key@),
                decreases entries@.len() - i,
            {
                assert(entries@.skip(i as int)[0] == entries@[i as int]);
                if str_equal(entries[i].0.as_str(), key) {
                    assert(entries@.skip(i as int).len() > 0);
                    return Some(&entries[i].1);
                }
                assert(entries@.skip(i as int).drop_first() =~= entries@.skip(i + 1));
                i = i + 1;
            }
            assert(entries@.skip(i as int) =~= Seq::<(String, JsonValue)>::empty());
            None
        },
        _ => None,
    }
}

/// The first of two lookups that found something (`or_else`).
pub fn first_found<'a>(a: Option<&'a JsonValue>, b: Option<&'a JsonValue>) -> (r: Option<
    &'a JsonValue,
>)
    ensures
        deref_opt(r) == either(deref_opt(a), deref_opt(b)),
{
    match a {
        Some(x) => Some(x),
        None => b,
    }
}

/// `as_str` on an optional value, copied out.
pub fn text_of(o: Option<&JsonValue>) -> (r: Option<String>)
    ensures
        crate::scraper::upwork::opt_seq(r) == as_text(deref_opt(o)),
{
    match o {
        Some(JsonValue::Text(s)) => Some(s.clone()),
        _ => None,
    }
}

/// `as_i64` on an optional value.
pub fn int_of(o: Option<&JsonValue>) -> (r: Option<i64>)
    ensures
        r == as_int(deref_opt(o)),
{
    match o {
        Some(JsonValue::Number(_, n)) => *n,
        _ => None,
    }
}

} // verus!
