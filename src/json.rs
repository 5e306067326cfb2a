use vstd::prelude::*;

verus! {

/// A JSON document as the envelope logic reads it. A number that is not a
/// non-negative integer fitting in 64 bits is kept only as `OtherNumber`.
#[derive(Debug)]
pub enum Json {
    Null,
    Bool(bool),
    UInt(u64),
    OtherNumber,
    Str(String),
    Array(Vec<Json>),
    Object(Vec<(String, Json)>),
}

#[verifier::external_type_specification]
#[verifier::external_body]
pub struct ExValue(serde_json::Value);

/// What serde_json makes of a line of text: `None` when it is not one JSON value.
pub uninterp spec fn parsed_json(s: Seq<char>) -> Option<Json>;

/// The compact JSON text that serde_json writes for a document.
pub uninterp spec fn json_text(j: Json) -> Seq<char>;

/// Moves a serde_json value into the matching `Json` variant, element by
/// element; used by `parse_json` alone.
#[verifier::external_body]
fn json_from_value(v: serde_json::Value) -> Json {
    match v {
        serde_json::Value::Null => Json::Null,
        serde_json::Value::Bool(b) => Json::Bool(b),
        serde_json::Value::Number(n) => match n.as_u64() {
            Some(u) => Json::UInt(u),
            None => Json::OtherNumber,
        },
        serde_json::Value::String(s) => Json::Str(s),
        serde_json::Value::Array(a) => Json::Array(a.into_iter().map(json_from_value).collect()),
        serde_json::Value::Object(o) => Json::Object(o.into_iter().map(|(k, v)| (k, json_from_value(v))).collect()),
    }
}

/// Moves a `Json` document into the matching serde_json value, element by
/// element (`OtherNumber`, which keeps no value, becomes `null`); used by
/// `write_json` alone.
#[verifier::external_body]
fn value_from_json(j: &Json) -> serde_json::Value {
    match j {
        Json::Null => serde_json::Value::Null,
        Json::Bool(b) => serde_json::Value::Bool(*b),
        Json::UInt(u) => serde_json::Value::Number((*u).into()),
        Json::OtherNumber => serde_json::Value::Null,
        Json::Str(s) => serde_json::Value::String(s.clone()),
        Json::Array(a) => serde_json::Value::Array(a.iter().map(value_from_json).collect()),
        Json::Object(o) => serde_json::Value::Object(o.iter().map(|(k, v)| (k.clone(), value_from_json(v))).collect()),
    }
}

/// Relies on `serde_json::from_str::<serde_json::Value>`: parses one JSON value
/// from the whole line; the result depends on the text alone.
#[verifier::external_body]
pub(crate) fn parse_json(line: &str) -> (r: Option<Json>)
    ensures
        r == parsed_json(line@),
{
    serde_json::from_str::<serde_json::Value>(line).ok().map(json_from_value)
}

/// Relies on `Display for serde_json::Value`: the compact form, which escapes
/// every control character inside strings and puts no whitespace between
/// tokens, so the text holds no newline.
#[verifier::external_body]
pub(crate) fn write_json(j: &Json) -> (r: String)
    ensures
        r@ == json_text(*j),
        !r@.contains('\n'),
{
    value_from_json(j).to_string()
}

} // verus!
