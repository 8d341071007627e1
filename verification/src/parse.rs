//! The parsing boundary: the one place where the library calls into
//! serde_json. Parsing text into a `Json` value is done by serde_json and
//! taken on trust; everything that reads the parsed value is verified.

use vstd::prelude::*;

use crate::json::Json;
use serde_json::Value;

verus! {

/// The JSON value that parsing the text yields, or `None` where the text is
/// not one JSON document. The outcome depends on the text alone; it is
/// pinned only by the two trusted functions below.
pub uninterp spec fn parsed_json(s: Seq<char>) -> Option<Json>;

/// The library value holding the same data as a parsed document. It is a
/// function of the document alone; `json_of_value` is what pins it.
pub uninterp spec fn value_json(v: Value) -> Json;

/// serde_json's dynamic value, declared so that signatures here may carry
/// it; the library never looks inside one.
#[verifier::external_type_specification]
#[verifier::external_body]
pub struct ExValue(Value);

/// Relies on `serde_json::from_str::<serde_json::Value>`: it parses the text
/// into the document's value, or fails, and the outcome is a function of the
/// text alone.
#[verifier::external_body]
fn parse_value(s: &str) -> (r: Option<Value>)
    ensures
        r is Some <==> parsed_json(s@) is Some,
        r matches Some(v) ==> parsed_json(s@) == Some(value_json(v)),
{
    serde_json::from_str::<Value>(s).ok()
}

/// Relies on the public variants of `serde_json::Value`: each maps one for
/// one onto a variant of `Json`. An integer that fits `u64` stays unsigned,
/// one that fits `i64` stays signed, and any other number keeps its decimal
/// text; object members keep the order in which serde_json's map yields
/// them.
#[verifier::external_body]
fn json_of_value(v: &Value) -> (r: Json)
    ensures
        r == value_json(*v),
{
    match v {
        Value::Null => Json::Null,
        Value::Bool(b) => Json::Bool(*b),
        Value::Number(n) if n.as_u64().is_some() => Json::UInt(n.as_u64().unwrap()),
        Value::Number(n) if n.as_i64().is_some() => Json::Int(n.as_i64().unwrap()),
        Value::Number(n) => Json::NumText(n.to_string()),
        Value::String(s) => Json::Str(s.clone()),
        Value::Array(a) => Json::Arr(a.iter().map(json_of_value).collect()),
        Value::Object(o) => Json::Obj(o.iter().map(|(k, x)| (k.clone(), json_of_value(x))).collect()),
    }
}

/// Parses one JSON document, through serde_json.
pub fn parse_json(s: &str) -> (r: Option<Json>)
    ensures
        r == parsed_json(s@),
{
    match parse_value(s) {
        Some(v) => Some(json_of_value(&v)),
        None => None,
    }
}

} // verus!
