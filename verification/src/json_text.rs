//! JSON text: reading it into the library's JSON values and writing values
//! back out, both done by `serde_json`.

use vstd::prelude::*;
use crate::json::{JsonValue, JsonView};

verus! {

/// `serde_json`'s dynamically typed JSON value.
#[verifier::external_type_specification]
#[verifier::external_body]
pub struct ExSerdeJsonValue(serde_json::Value);

/// What `serde_json::from_str` makes of JSON text: the value read, or the
/// text of the error it reports.
pub uninterp spec fn json_parse(text: Seq<char>) -> Result<JsonView, Seq<char>>;

/// The JSON text that `serde_json::to_string` writes for a value.
pub uninterp spec fn json_render(value: JsonView) -> Seq<char>;

/// The abstract form of a parse result.
pub open spec fn parse_view(r: Result<JsonValue, String>) -> Result<JsonView, Seq<char>> {
    match r {
        Ok(v) => Ok(v@),
        Err(e) => Err(e@),
    }
}

/// The library value for a `serde_json` value, variant for variant; a
/// number keeps its JSON text.
#[verifier::external_body]
fn json_from_serde(value: serde_json::Value) -> JsonValue {
    match value {
        serde_json::Value::Null => JsonValue::Null,
        serde_json::Value::Bool(b) => JsonValue::Bool(b),
        serde_json::Value::Number(n) => JsonValue::Number(n.to_string()),
        serde_json::Value::String(s) => JsonValue::String(s),
        serde_json::Value::Array(items) => JsonValue::Array(items.into_iter().map(json_from_serde).collect()),
        serde_json::Value::Object(map) => JsonValue::Object(map.into_iter().map(|(k, v)| (k, json_from_serde(v))).collect()),
    }
}

/// The `serde_json` value for a library value, variant for variant; a
/// number whose text `serde_json` does not read as a number stays text.
#[verifier::external_body]
fn json_to_serde(value: &JsonValue) -> serde_json::Value {
    match value {
        JsonValue::Null => serde_json::Value::Null,
        JsonValue::Bool(b) => serde_json::Value::Bool(*b),
        JsonValue::Number(t) => match serde_json::from_str::<serde_json::Number>(t) {
            Ok(n) => serde_json::Value::Number(n),
            Err(_) => serde_json::Value::String(t.clone()),
        },
        JsonValue::String(s) => serde_json::Value::String(s.clone()),
        JsonValue::Array(items) => serde_json::Value::Array(items.iter().map(json_to_serde).collect()),
        JsonValue::Object(entries) => serde_json::Value::Object(entries.iter().map(|(k, v)| (k.clone(), json_to_serde(v))).collect()),
    }
}

/// Reads JSON text.
///
/// Calls `serde_json::from_str::<serde_json::Value>` and converts the value
/// read. The outcome, value or error text, is named `json_parse(text)`: it
/// depends on the text alone.
#[verifier::external_body]
pub(crate) fn parse_json_text(text: &str) -> (r: Result<JsonValue, String>)
    ensures
        parse_view(r) == json_parse(text@),
{
    match serde_json::from_str::<serde_json::Value>(text) {
        Ok(v) => Ok(json_from_serde(v)),
        Err(e) => Err(e.to_string()),
    }
}

/// Writes a value as JSON text.
///
/// Calls `serde_json::to_string` on the converted value. The text is named
/// `json_render(value)`: it depends on the value alone. Writing a
/// `serde_json::Value` into a string does not fail, since its object keys
/// are strings and the output is a vector in memory, which the contract
/// states as `r is Ok`.
#[verifier::external_body]
pub(crate) fn render_json_text(value: &JsonValue) -> (r: Result<String, String>)
    ensures
        r is Ok,
        r->Ok_0@ == json_render(value@),
{
    serde_json::to_string(&json_to_serde(value)).map_err(|e| e.to_string())
}

} // verus!
