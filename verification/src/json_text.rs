//! JSON text: reading one JSON value from text and writing a value back out,
//! both done by `serde_json`.

use vstd::prelude::*;
use crate::json::{Json, JsonNumber, JsonV, opt_json_owned};

verus! {

#[verifier::external_type_specification]
#[verifier::external_body]
pub struct ExValue(serde_json::Value);

/// What `serde_json` reads from `text`: the JSON value it holds, or `None`
/// where the text is not exactly one JSON value.
pub uninterp spec fn parsed_json(text: Seq<char>) -> Option<JsonV>;

/// The compact text `serde_json` writes for a JSON value.
pub uninterp spec fn serialized_json(value: JsonV) -> Seq<char>;

/// A plain decimal number with a fractional part, as `serde_json` reads it
/// as a finite number: one to 20 integer digits without a leading zero
/// (unless it is the only one), a point, and one to 20 fraction digits.
pub open spec fn is_decimal_fraction(text: Seq<char>) -> bool {
    exists|k: int|
        0 < k <= 20 && k < text.len() - 1 && text.len() <= k + 21 && #[trigger] text[k] == '.' && (k > 1 ==> text[0]
            != '0') && (forall|t: int|
            0 <= t < text.len() && t != k ==> #[trigger] crate::text::is_digit(text[t]))
}

#[verifier::external_type_specification]
#[verifier::external_body]
pub struct ExNumber(serde_json::Number);

/// Moves a parsed number into the library's model: an integer by its exact
/// value, any other number by its rendering and by its `as_f64` value cast
/// to `i64` and to `u64`.
#[verifier::external_body]
fn number_from(n: serde_json::Number) -> JsonNumber {
    match (n.as_u64(), n.as_i64()) {
        (Some(u), _) => JsonNumber::PosInt(u),
        (None, Some(i)) => JsonNumber::NegInt(i),
        _ => JsonNumber::Float {
            text: n.to_string(),
            as_i64: n.as_f64().map_or(0, |f| f as i64),
            as_u64: n.as_f64().map_or(0, |f| f as u64),
        },
    }
}

/// Moves a parsed `serde_json::Value` into the library's model.
#[verifier::external_body]
fn json_from_value(value: serde_json::Value) -> Json {
    match value {
        serde_json::Value::Null => Json::Null,
        serde_json::Value::Bool(b) => Json::Bool(b),
        serde_json::Value::Number(n) => Json::Number(number_from(n)),
        serde_json::Value::String(s) => Json::String(s),
        serde_json::Value::Array(v) => Json::Array(v.into_iter().map(json_from_value).collect()),
        serde_json::Value::Object(m) => Json::Object(m.into_iter().map(|(k, v)| (k, json_from_value(v))).collect()),
    }
}

/// Moves a library value into a `serde_json::Value`; a non-integer number is
/// read back from its rendering.
#[verifier::external_body]
fn value_from_json(value: &Json) -> serde_json::Value {
    match value {
        Json::Null => serde_json::Value::Null,
        Json::Bool(b) => serde_json::Value::Bool(*b),
        Json::Number(JsonNumber::PosInt(u)) => serde_json::Value::from(*u),
        Json::Number(JsonNumber::NegInt(i)) => serde_json::Value::from(*i),
        Json::Number(JsonNumber::Float { text, .. }) => serde_json::from_str(text).unwrap_or_default(),
        Json::String(s) => serde_json::Value::String(s.clone()),
        Json::Array(v) => serde_json::Value::Array(v.iter().map(value_from_json).collect()),
        Json::Object(m) => serde_json::Value::Object(m.iter().map(|(k, v)| (k.clone(), value_from_json(v))).collect()),
    }
}

/// What `serde_json` reports, as text, for text that is not one JSON value.
pub uninterp spec fn json_error_text(text: Seq<char>) -> Seq<char>;

/// `serde_json::from_str::<Value>`: the value `text` holds, or the text of
/// the error `serde_json` reports where it is not valid JSON. Claimed: the
/// outcome depends on the text alone, and a plain decimal fraction such as
/// `137.0` is read as a number.
#[verifier::external_body]
pub(crate) fn read_json(text: &str) -> (res: Result<Json, String>)
    ensures
        match res {
            Ok(v) => parsed_json(text@) == Some(v@),
            Err(e) => parsed_json(text@) is None && e@ == json_error_text(text@),
        },
        is_decimal_fraction(text@) ==> (res matches Ok(Json::Number(_))),
{
    serde_json::from_str::<serde_json::Value>(text).map(json_from_value).map_err(|e| e.to_string())
}

/// The value `text` holds as JSON, or `None` where it is not valid JSON.
pub fn parse_json(text: &str) -> (res: Option<Json>)
    ensures
        opt_json_owned(res) == parsed_json(text@),
        is_decimal_fraction(text@) ==> (res matches Some(Json::Number(_))),
{
    match read_json(text) {
        Ok(v) => Some(v),
        Err(_) => None,
    }
}

/// `serde_json::to_string` of a value, empty where it fails (it does not for
/// a JSON value). Claimed: the text depends on the value alone.
#[verifier::external_body]
pub(crate) fn to_json_text(value: &Json) -> (res: String)
    ensures
        res@ == serialized_json(value@),
{
    serde_json::to_string(&value_from_json(value)).unwrap_or_default()
}

/// The compact JSON text of a value.
pub fn write_json(value: &Json) -> (res: String)
    ensures
        res@ == serialized_json(value@),
{
    to_json_text(value)
}

} // verus!
