//! JSON text, read and written by `serde_json`.

use serde_json::Value;
use vstd::prelude::*;

use crate::json::{Json, JsonNumber, JsonView};
use crate::table::Table;

verus! {

/// `serde_json::Value`, carried through and never looked into.
#[verifier::external_type_specification]
#[verifier::external_body]
pub struct ExValue(serde_json::Value);

/// Carries a `serde_json::Value` over, variant by variant. Nothing is claimed of it here: what
/// the calls that use it return is named at those calls.
#[verifier::external_body]
pub(crate) fn json_of_value(v: Value) -> Json {
    match v {
        Value::Null => Json::Null,
        Value::Bool(b) => Json::Bool(b),
        Value::Number(n) => Json::Number(match (n.as_u64(), n.as_i64()) {
            (Some(u), _) => JsonNumber::PosInt(u),
            (None, Some(i)) => JsonNumber::NegInt(i),
            (None, None) => JsonNumber::Float(n.to_string()),
        }),
        Value::String(s) => Json::Str(s),
        Value::Array(a) => Json::Array(a.into_iter().map(json_of_value).collect()),
        Value::Object(m) => Json::Object(
            m.into_iter().fold(Table::new(), |t, (k, v)| t.with(k, json_of_value(v))),
        ),
    }
}

/// Carries a value over to `serde_json::Value`, variant by variant. A double that is not finite
/// becomes null, as `serde_json` has it.
#[verifier::external_body]
fn value_of_json(j: &Json) -> Value {
    match j {
        Json::Null => Value::Null,
        Json::Bool(b) => Value::Bool(*b),
        Json::Number(JsonNumber::PosInt(n)) => Value::from(*n),
        Json::Number(JsonNumber::NegInt(n)) => Value::from(*n),
        Json::Number(JsonNumber::Float(t)) => t.parse().ok().and_then(serde_json::Number::from_f64).into(),
        Json::Str(s) => Value::String(s.clone()),
        Json::Array(items) => Value::Array(items.iter().map(value_of_json).collect()),
        Json::Object(t) => t.entries.iter().map(|e| (e.0.clone(), value_of_json(&e.1))).collect(),
    }
}

/// What `serde_json::from_str` makes of a text: the value it holds, or the words of the error.
pub uninterp spec fn parsed_json(text: Seq<char>) -> Result<JsonView, Seq<char>>;

/// `serde_json::from_str` on a text. Where an object repeats a key, the last one counts.
#[verifier::external_body]
pub(crate) fn parse_json(text: &str) -> (r: Result<Json, String>)
    ensures
        match r {
            Ok(j) => parsed_json(text@) == Ok::<JsonView, Seq<char>>(j@),
            Err(e) => parsed_json(text@) == Err::<JsonView, Seq<char>>(e@),
        },
{
    match serde_json::from_str::<Value>(text) {
        Ok(v) => Ok(json_of_value(v)),
        Err(e) => Err(e.to_string()),
    }
}

/// The text that `serde_json::to_string` writes for a value.
pub uninterp spec fn json_text(v: JsonView) -> Seq<char>;

/// `serde_json::Value`'s `to_string`, which writes the value on one line without spaces and an
/// object's keys in order. A line break in a string is written as an escape.
#[verifier::external_body]
pub(crate) fn write_json(j: &Json) -> (r: String)
    ensures
        r@ == json_text(j@),
        !r@.contains('\n'),
{
    value_of_json(j).to_string()
}

/// The value that the text holds, or the words of the error.
pub fn read_json(text: &str) -> (r: Result<Json, String>)
    ensures
        match r {
            Ok(j) => parsed_json(text@) == Ok::<JsonView, Seq<char>>(j@),
            Err(e) => parsed_json(text@) == Err::<JsonView, Seq<char>>(e@),
        },
{
    parse_json(text)
}

} // verus!
