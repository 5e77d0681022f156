//! JSON values as the server reads them from a message.
//!
//! serde_json parses and writes the text; the library holds the parsed value
//! in its own type and reads it.

use vstd::prelude::*;
use crate::client::json_string;

verus! {

#[verifier::external_type_specification]
#[verifier::external_body]
pub struct ExJsonValue(serde_json::Value);

#[verifier::external_type_specification]
#[verifier::external_body]
pub struct ExJsonNumber(serde_json::Number);

/// A JSON value. An object keeps its members in the order serde_json's map
/// gives them, one per name.
#[derive(Debug)]
pub enum Json {
    Null,
    Bool(bool),
    Number(serde_json::Number),
    Str(String),
    Array(Vec<Json>),
    Object(Vec<(String, Json)>),
}

/// A JSON value with its texts seen as character sequences.
pub enum JsonSpec {
    Null,
    Bool(bool),
    Number(serde_json::Number),
    Str(Seq<char>),
    Array(Seq<JsonSpec>),
    Object(Seq<(Seq<char>, JsonSpec)>),
}

/// The model of a JSON value.
pub open spec fn json_view(j: Json) -> JsonSpec
    decreases j,
{
    match j {
        Json::Null => JsonSpec::Null,
        Json::Bool(b) => JsonSpec::Bool(b),
        Json::Number(n) => JsonSpec::Number(n),
        Json::Str(s) => JsonSpec::Str(s@),
        Json::Array(a) => JsonSpec::Array(
            Seq::new(
                a@.len(),
                |i: int|
                    if 0 <= i < a@.len() {
                        json_view(a@[i])
                    } else {
                        JsonSpec::Null
                    },
            ),
        ),
        Json::Object(m) => JsonSpec::Object(
            Seq::new(
                m@.len(),
                |i: int|
                    if 0 <= i < m@.len() {
                        (m@[i].0@, json_view(m@[i].1))
                    } else {
                        (Seq::empty(), JsonSpec::Null)
                    },
            ),
        ),
    }
}

impl View for Json {
    type V = JsonSpec;

    open spec fn view(&self) -> JsonSpec {
        json_view(*self)
    }
}

/// What serde_json parses out of a text: a value, or nothing when the text
/// is not JSON.
pub uninterp spec fn parsed_json(text: Seq<char>) -> Option<JsonSpec>;

/// What serde_json writes for a value (`Display` of `serde_json::Value`,
/// compact).
pub uninterp spec fn written_json(j: JsonSpec) -> Seq<char>;

/// serde_json's value turned into the library's, one variant to one (used by
/// `parse_json` alone; nothing is promised of it on its own).
#[verifier::external_body]
fn json_from_value(v: serde_json::Value) -> Json {
    match v {
        serde_json::Value::Null => Json::Null,
        serde_json::Value::Bool(b) => Json::Bool(b),
        serde_json::Value::Number(n) => Json::Number(n),
        serde_json::Value::String(s) => Json::Str(s),
        serde_json::Value::Array(a) => Json::Array(a.into_iter().map(json_from_value).collect()),
        serde_json::Value::Object(m) => Json::Object(
            m.into_iter().map(|(k, x)| (k, json_from_value(x))).collect(),
        ),
    }
}

/// The library's value turned into serde_json's, one variant to one (used by
/// `write_json` alone; nothing is promised of it on its own). An object's
/// members go into serde_json's map, which orders them by name and keeps the
/// last of two with one name.
#[verifier::external_body]
fn json_to_value(j: &Json) -> serde_json::Value {
    match j {
        Json::Null => serde_json::Value::Null,
        Json::Bool(b) => serde_json::Value::Bool(*b),
        Json::Number(n) => serde_json::Value::Number(n.clone()),
        Json::Str(s) => serde_json::Value::String(s.clone()),
        Json::Array(a) => serde_json::Value::Array(a.iter().map(json_to_value).collect()),
        Json::Object(m) => serde_json::Value::Object(
            m.iter().map(|(k, x)| (k.clone(), json_to_value(x))).collect(),
        ),
    }
}

/// `serde_json::from_str::<serde_json::Value>` on `text`, its value held as
/// the library's. The result is named, not stated; `None` when the text is
/// not JSON.
#[verifier::external_body]
pub fn parse_json(text: &str) -> (r: Option<Json>)
    ensures
        match r {
            Some(j) => parsed_json(text@) == Some(j@),
            None => parsed_json(text@) is None,
        },
{
    serde_json::from_str::<serde_json::Value>(text).ok().map(json_from_value)
}

/// `to_string` of the value as serde_json's (its compact `Display`). The
/// result is named; of two kinds of value it is stated: `null`, and a string
/// written as serde_json writes a `str` (`Value::String` is serialised by
/// the same `serialize_str`).
#[verifier::external_body]
pub fn write_json(j: &Json) -> (r: String)
    ensures
        r@ == written_json(j@),
        j@ is Null ==> r@ == "null"@,
        j@ matches JsonSpec::Str(s) ==> r@ == json_string(s),
{
    json_to_value(j).to_string()
}

/// `value[key]` of serde_json: the member `key` of an object (the first one of
/// that name), `null` when there is none or the value is not an object.
pub open spec fn member(j: JsonSpec, key: Seq<char>) -> JsonSpec {
    match j {
        JsonSpec::Object(ms) => lookup(ms, key),
        _ => JsonSpec::Null,
    }
}

/// The value of the first member named `key`, `null` when there is none.
pub open spec fn lookup(ms: Seq<(Seq<char>, JsonSpec)>, key: Seq<char>) -> JsonSpec
    decreases ms.len(),
{
    if ms.len() == 0 {
        JsonSpec::Null
    } else if ms[0].0 == key {
        ms[0].1
    } else {
        lookup(ms.drop_first(), key)
    }
}

/// `as_str` of serde_json: the text of a string.
pub open spec fn as_str(j: JsonSpec) -> Option<Seq<char>> {
    match j {
        JsonSpec::Str(s) => Some(s),
        _ => None,
    }
}

/// `as_array` of serde_json, each element read with `as_str`.
pub open spec fn as_str_array(j: JsonSpec) -> Option<Seq<Option<Seq<char>>>> {
    match j {
        JsonSpec::Array(a) => Some(a.map_values(|e: JsonSpec| as_str(e))),
        _ => None,
    }
}

/// The members of an object (none for another value), each value read with
/// `as_str`.
pub open spec fn str_members(j: JsonSpec) -> Seq<(Seq<char>, Option<Seq<char>>)> {
    match j {
        JsonSpec::Object(ms) => ms.map_values(|m: (Seq<char>, JsonSpec)| (m.0, as_str(m.1))),
        _ => Seq::empty(),
    }
}

} // verus!
