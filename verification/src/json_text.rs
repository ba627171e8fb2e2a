use vstd::prelude::*;
use crate::json::{json_view, JsonNumber, JsonValue, JsonView};
use serde_json::Value;

verus! {

#[verifier::external_type_specification]
#[verifier::external_body]
pub struct ExSerdeValue(Value);

/// The document that `serde_json` reads from a JSON text, `None` where the
/// text is not one JSON document.
pub uninterp spec fn json_document(text: Seq<char>) -> Option<JsonView>;

/// The document that the `toml` crate reads from a TOML text, as
/// `serde_json::to_value` turns it into JSON, `None` where the text is not a
/// TOML document.
pub uninterp spec fn toml_document(text: Seq<char>) -> Option<JsonView>;

/// Turns a `serde_json::Value` into the library's document, one node for
/// one node: an integer that fits `u64` is `PosInt`, another that fits
/// `i64` is `NegInt`, any other number is held by serde_json's text of it.
#[verifier::external_body]
fn json_from_serde(v: &Value) -> (r: JsonValue) {
    match v {
        Value::Null => JsonValue::Null,
        Value::Bool(b) => JsonValue::Bool(*b),
        Value::Number(n) => JsonValue::Number(match (n.as_u64(), n.as_i64()) {
            (Some(u), _) => JsonNumber::PosInt(u),
            (None, Some(i)) => JsonNumber::NegInt(i),
            (None, None) => JsonNumber::Float(n.to_string()),
        }),
        Value::String(s) => JsonValue::String(s.clone()),
        Value::Array(a) => JsonValue::Array(a.iter().map(json_from_serde).collect()),
        Value::Object(m) => JsonValue::Object(m.iter().map(|(k, x)| (k.clone(), json_from_serde(x))).collect()),
    }
}

/// `serde_json::from_str::<serde_json::Value>`: the contract names the
/// document read (`json_document`); the error's text is serde_json's
/// message, of which nothing is stated.
#[verifier::external_body]
pub(crate) fn parse_json_document(text: &str) -> (r: Result<JsonValue, String>)
    ensures
        r is Ok <==> json_document(text@) is Some,
        r matches Ok(v) ==> json_document(text@) == Some(json_view(v)),
{
    match serde_json::from_str::<Value>(text) {
        Ok(v) => Ok(json_from_serde(&v)),
        Err(e) => Err(e.to_string()),
    }
}

/// `toml::from_str::<toml::Value>` followed by `serde_json::to_value`: the
/// contract names the document read (`toml_document`); the error's text is
/// the crates' message, of which nothing is stated.
#[verifier::external_body]
pub(crate) fn parse_toml_document(text: &str) -> (r: Result<JsonValue, String>)
    ensures
        r is Ok <==> toml_document(text@) is Some,
        r matches Ok(v) ==> toml_document(text@) == Some(json_view(v)),
{
    match toml::from_str::<toml::Value>(text).map_err(|e| e.to_string()) {
        Ok(t) => match serde_json::to_value(t) {
            Ok(v) => Ok(json_from_serde(&v)),
            Err(e) => Err(e.to_string()),
        },
        Err(e) => Err(e),
    }
}

} // verus!
