//! The boundary to serde_json: rendering a JSON tree as compact text and
//! parsing text into a tree. The engine's own logic works on [`JsonValue`];
//! only the conversions and the text encoding are delegated.

use vstd::prelude::*;
use serde_json::{Number, Value};
use crate::json::{JsonData, JsonNum, JsonValue};

verus! {

#[verifier::external_type_specification]
#[verifier::external_body]
pub struct ExSerdeValue(serde_json::Value);

/// What a serde_json value holds, expressed in the engine's JSON model
/// (object entries in serde_json's storage order).
pub uninterp spec fn sj_model(v: serde_json::Value) -> JsonData;

/// The canonical form serde_json's map gives a tree built from `d`: object
/// keys sorted, the last duplicate key winning.
pub uninterp spec fn serde_canon(d: JsonData) -> JsonData;

/// The compact JSON text of a tree; a function of the tree alone.
pub uninterp spec fn json_text_of(d: JsonData) -> Seq<char>;

/// What parsing a text yields: `None` exactly on malformed JSON.
pub uninterp spec fn json_parse_of(s: Seq<char>) -> Option<JsonData>;

/// Relies on serde_json's value constructors; `serde_json::Map` is keyed by a
/// sorted map, so the built value holds the canonical form of the tree:
/// object keys sorted, the last duplicate key winning, and a decimal whose
/// text serde_json cannot read back canonicalizing to null.
#[verifier::external_body]
fn to_serde(v: &JsonValue) -> (r: serde_json::Value)
    ensures
        sj_model(r) == serde_canon(v@),
{
    match v {
        JsonValue::Null => Value::Null,
        JsonValue::Bool(b) => Value::Bool(*b),
        JsonValue::Num(JsonNum::U(u)) => Value::from(*u),
        JsonValue::Num(JsonNum::I(i)) => Value::from(*i),
        JsonValue::Num(JsonNum::Dec(s)) => s.parse::<Number>().map_or(Value::Null, Value::Number),
        JsonValue::Str(s) => Value::String(s.clone()),
        JsonValue::Arr(a) => Value::Array(a.iter().map(to_serde).collect()),
        JsonValue::Obj(m) => Value::Object(m.iter().map(|e| (e.0.clone(), to_serde(&e.1))).collect()),
    }
}

/// Relies on serde_json's Display for Value: compact JSON text, a function of
/// the value alone.
#[verifier::external_body]
fn sj_text(v: &serde_json::Value) -> (r: String)
    ensures
        r@ == json_text_of(sj_model(*v)),
{
    v.to_string()
}

/// Relies on serde_json::from_str for Value: deterministic parse, `Err` only
/// on malformed JSON.
#[verifier::external_body]
fn sj_parse(s: &str) -> (r: Option<serde_json::Value>)
    ensures
        r is Some <==> json_parse_of(s@) is Some,
        r is Some ==> sj_model(r.unwrap()) == json_parse_of(s@).unwrap(),
{
    serde_json::from_str::<Value>(s).ok()
}

/// Relies on serde_json's accessors to read a value back into the engine's
/// model, entry for entry in serde_json's storage order.
#[verifier::external_body]
fn from_serde(v: &serde_json::Value) -> (r: JsonValue)
    ensures
        r@ == sj_model(*v),
{
    match v {
        Value::Null => JsonValue::Null,
        Value::Bool(b) => JsonValue::Bool(*b),
        Value::Number(n) => JsonValue::Num(
            n.as_u64().map(JsonNum::U).or_else(|| n.as_i64().map(JsonNum::I)).unwrap_or_else(
                || JsonNum::Dec(n.to_string()),
            ),
        ),
        Value::String(s) => JsonValue::Str(s.clone()),
        Value::Array(a) => JsonValue::Arr(a.iter().map(from_serde).collect()),
        Value::Object(m) => JsonValue::Obj(m.iter().map(|(k, x)| (k.clone(), from_serde(x))).collect()),
    }
}

/// The compact JSON text of the canonical form of `v`.
pub fn json_text(v: &JsonValue) -> (r: String)
    ensures
        r@ == json_text_of(serde_canon(v@)),
{
    let sv = to_serde(v);
    sj_text(&sv)
}

/// Parses JSON text into the engine's model; `None` exactly on malformed
/// JSON.
pub fn parse_json(s: &str) -> (r: Option<JsonValue>)
    ensures
        match r {
            Some(v) => json_parse_of(s@) == Some(v@),
            None => json_parse_of(s@) is None,
        },
{
    match sj_parse(s) {
        Some(sv) => Some(from_serde(&sv)),
        None => None,
    }
}

/// The string a JSON value reads as: the content of a string value, and the
/// compact JSON text of anything else.
pub open spec fn json_string_data(d: JsonData) -> Seq<char> {
    match d {
        JsonData::Str(s) => s,
        _ => json_text_of(serde_canon(d)),
    }
}

/// The string content of a string value, and compact JSON text otherwise.
pub fn json_to_string(v: &JsonValue) -> (r: String)
    ensures
        r@ == json_string_data(v@),
{
    match v {
        JsonValue::Str(s) => s.clone(),
        _ => json_text(v),
    }
}

} // verus!
