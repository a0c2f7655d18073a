//! Reading JSON text with `serde_json`, into the library's JSON values.

use vstd::prelude::*;
use std::collections::HashMap;
use serde_json::Value;
use crate::json::{JsonMap, JsonNumber, JsonValue, JsonView, map_view};
use crate::strmap::StrMap;

verus! {

#[verifier::external_type_specification]
#[verifier::external_body]
pub struct ExSerdeValue(serde_json::Value);

/// The value `serde_json::from_str::<serde_json::Value>` reads from a
/// text, as a library value; `None` where the text is no JSON.
pub uninterp spec fn json_text_parse(text: Seq<char>) -> Option<JsonView>;

/// What `serde_json::from_str::<HashMap<String, serde_json::Value>>` reads
/// from a text: the members of a JSON object, or the text of the error.
pub uninterp spec fn json_map_parse(text: Seq<char>) -> Result<Map<Seq<char>, JsonView>, Seq<char>>;

/// A `serde_json` value as a library value, member for member: integers
/// that fit `u64` or `i64` as such, other numbers by their text.
#[verifier::external_body]
fn value_from_serde(v: &Value) -> JsonValue {
    match v {
        Value::Null => JsonValue::Null,
        Value::Bool(b) => JsonValue::Bool(*b),
        Value::Number(n) => JsonValue::Number(match (n.as_u64(), n.as_i64()) {
            (Some(u), _) => JsonNumber::PosInt(u),
            (None, Some(i)) => JsonNumber::NegInt(i),
            (None, None) => JsonNumber::Float(n.to_string()),
        }),
        Value::String(s) => JsonValue::String(s.clone()),
        Value::Array(a) => JsonValue::Array(a.iter().map(value_from_serde).collect()),
        Value::Object(o) => JsonValue::Object(o.iter().map(|(k, x)| (k.clone(), value_from_serde(x))).collect()),
    }
}

/// `serde_json::from_str::<serde_json::Value>`: the JSON value a text holds,
/// `None` where it is no JSON. What it reads is named `json_text_parse`.
#[verifier::external_body]
pub(crate) fn parse_json_text(text: &str) -> (r: Option<JsonValue>)
    ensures
        match r {
            Some(v) => json_text_parse(text@) == Some(v@),
            None => json_text_parse(text@) is None,
        },
{
    serde_json::from_str::<serde_json::Value>(text).ok().map(|v| value_from_serde(&v))
}

/// `serde_json::from_str::<HashMap<String, serde_json::Value>>`: the members
/// of the JSON object a text holds, or the text of the error. A `HashMap`
/// holds each key once. What it reads is named `json_map_parse`.
#[verifier::external_body]
pub(crate) fn parse_json_map(text: &str) -> (r: Result<JsonMap, String>)
    ensures
        match r {
            Ok(m) => m.wf() && json_map_parse(text@) == Ok::<Map<Seq<char>, JsonView>, Seq<char>>(map_view(m@)),
            Err(e) => json_map_parse(text@) == Err::<Map<Seq<char>, JsonView>, Seq<char>>(e@),
        },
{
    match serde_json::from_str::<HashMap<String, serde_json::Value>>(text) {
        Ok(m) => Ok(StrMap { entries: m.iter().map(|(k, v)| (k.clone(), value_from_serde(v))).collect() }),
        Err(e) => Err(e.to_string()),
    }
}

} // verus!
