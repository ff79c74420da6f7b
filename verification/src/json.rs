//! JSON documents as plain values, parsed by `serde_json`.

use serde_json::Value;
use vstd::prelude::*;

verus! {

#[verifier::external_type_specification]
#[verifier::external_body]
pub struct ExValue(Value);

/// A JSON value; objects keep their members in document order.
#[derive(Debug, PartialEq, Eq)]
pub enum JsonValue {
    Null,
    Bool(bool),
    /// A number, by its text.
    Number(String),
    Text(String),
    Array(Vec<JsonValue>),
    Object(Vec<(String, JsonValue)>),
}

/// A [`JsonValue`] as a mathematical value.
pub enum Json {
    Null,
    Bool(bool),
    Number(Seq<char>),
    Text(Seq<char>),
    Array(Seq<Json>),
    Object(Seq<(Seq<char>, Json)>),
}

/// The mathematical value of a JSON value.
pub open spec fn json_of(v: JsonValue) -> Json
    decreases v,
{
    match v {
        JsonValue::Null => Json::Null,
        JsonValue::Bool(b) => Json::Bool(b),
        JsonValue::Number(n) => Json::Number(n@),
        JsonValue::Text(s) => Json::Text(s@),
        JsonValue::Array(items) => Json::Array(
            Seq::new(
                items@.len(),
                |i: int|
                    if 0 <= i < items@.len() {
                        json_of(items@[i])
                    } else {
                        Json::Null
                    },
            ),
        ),
        JsonValue::Object(members) => Json::Object(
            Seq::new(
                members@.len(),
                |i: int|
                    if 0 <= i < members@.len() {
                        (members@[i].0@, json_of(members@[i].1))
                    } else {
                        (Seq::empty(), Json::Null)
                    },
            ),
        ),
    }
}

/// The members of a JSON object as mathematical values.
pub open spec fn members_of(members: Seq<(String, JsonValue)>) -> Seq<(Seq<char>, Json)> {
    Seq::new(members.len(), |i: int| (members[i].0@, json_of(members[i].1)))
}

/// The items of a JSON array as mathematical values.
pub open spec fn items_of(items: Seq<JsonValue>) -> Seq<Json> {
    Seq::new(items.len(), |i: int| json_of(items[i]))
}

/// An object's view is its members' views.
pub proof fn lemma_object_view(members: Vec<(String, JsonValue)>)
    ensures
        json_of(JsonValue::Object(members)) == Json::Object(members_of(members@)),
{
    if let Json::Object(ms) = json_of(JsonValue::Object(members)) {
        assert(ms =~= members_of(members@));
    }
}

/// An array's view is its items' views.
pub proof fn lemma_array_view(items: Vec<JsonValue>)
    ensures
        json_of(JsonValue::Array(items)) == Json::Array(items_of(items@)),
{
    if let Json::Array(xs) = json_of(JsonValue::Array(items)) {
        assert(xs =~= items_of(items@));
    }
}

impl View for JsonValue {
    type V = Json;

    open spec fn view(&self) -> Json {
        json_of(*self)
    }
}

/// What `serde_json::from_str::<Value>` makes of `text`: the document (with
/// `preserve_order`, object members in document order), or its error message.
pub uninterp spec fn json_document(text: Seq<char>) -> Result<Json, Seq<char>>;

/// Converts a `serde_json::Value` to plain values, member order kept.
#[verifier::external_body]
pub(crate) fn json_value(value: Value) -> JsonValue {
    match value {
        Value::Null => JsonValue::Null,
        Value::Bool(b) => JsonValue::Bool(b),
        Value::Number(n) => JsonValue::Number(n.to_string()),
        Value::String(s) => JsonValue::Text(s),
        Value::Array(items) => JsonValue::Array(items.into_iter().map(json_value).collect()),
        Value::Object(members) => JsonValue::Object(
            members.into_iter().map(|(key, value)| (key, json_value(value))).collect(),
        ),
    }
}

/// `serde_json::from_str::<Value>(text)`, as plain values; the error is its
/// `Display` text.
#[verifier::external_body]
pub(crate) fn parse_json(text: &str) -> (r: Result<JsonValue, String>)
    ensures
        match r {
            Ok(v) => json_document(text@) == Ok::<Json, Seq<char>>(v@),
            Err(e) => json_document(text@) == Err::<Json, Seq<char>>(e@),
        },
{
    match serde_json::from_str::<Value>(text) {
        Ok(value) => Ok(json_value(value)),
        Err(err) => Err(err.to_string()),
    }
}

/// Converts plain values back to a `serde_json::Value`, member order kept. A
/// number is read back from its text (`Number::from_str`); text that is no
/// number (never so for what [`json_value`] made) stays a string.
#[verifier::external_body]
pub(crate) fn serde_value(value: &JsonValue) -> Value {
    match value {
        JsonValue::Null => Value::Null,
        JsonValue::Bool(b) => Value::Bool(*b),
        JsonValue::Number(n) => n.parse::<serde_json::Number>().map_or_else(|_| Value::String(n.clone()), Value::Number),
        JsonValue::Text(s) => Value::String(s.clone()),
        JsonValue::Array(items) => Value::Array(items.iter().map(serde_value).collect()),
        JsonValue::Object(members) => Value::Object(
            members.iter().map(|(key, value)| (key.clone(), serde_value(value))).collect(),
        ),
    }
}

/// What `serde_json::to_string_pretty` prints for a document (two-space
/// indentation, object members in order).
pub uninterp spec fn json_pretty(doc: Json) -> Seq<char>;

/// `serde_json::to_string_pretty` of a document. Printing a `Value` cannot fail
/// (its keys are strings); the error arm gives the empty string.
#[verifier::external_body]
pub(crate) fn to_json_pretty(doc: &JsonValue) -> (r: String)
    ensures
        r@ == json_pretty(doc@),
{
    match serde_json::to_string_pretty(&serde_value(doc)) {
        Ok(text) => text,
        Err(_) => String::new(),
    }
}

} // verus!
