//! JSON values as text, by `serde_json`.

use crate::error::opt_json;
use crate::json::Json;
use crate::json::JsonV;
use crate::text::decimal;
use crate::value::opt_view;
use vstd::prelude::*;

verus! {

/// `serde_json::Value`: a parsed document.
#[verifier::external_type_specification]
#[verifier::external_body]
pub struct ExValue(serde_json::Value);

/// The compact text of a value.
pub uninterp spec fn json_text(v: JsonV) -> Seq<char>;

/// The value a text says, if it is JSON.
pub uninterp spec fn json_said(s: Seq<char>) -> Option<JsonV>;

/// Whether a value is an object of texts and nulls.
pub open spec fn flat_object(v: JsonV) -> bool {
    v matches JsonV::Obj(m) && forall|i: int|
        0 <= i < m.len() ==> (#[trigger] m[i]).1 is Str || m[i].1 is Null
}

/// Whether a text says, member for member, what a value says.
pub open spec fn says_members(s: Seq<char>, v: JsonV) -> bool {
    json_said(s) matches Some(w) && forall|key: Seq<char>| #[trigger] w.get(key) == v.get(key)
}

/// Builds the `serde_json::Value` that says the same. An integer that no JSON
/// number holds, and a fraction whose text is no number, become null.
#[verifier::external_body]
fn to_value(j: &Json) -> serde_json::Value {
    match j {
        Json::Null => serde_json::Value::Null,
        Json::Bool(b) => serde_json::Value::Bool(*b),
        Json::Int(n) => serde_json::Number::from_i128(*n).map_or(serde_json::Value::Null, |n| n.into()),
        Json::Float(s) => s.parse::<serde_json::Number>().map_or(serde_json::Value::Null, |n| n.into()),
        Json::Str(s) => serde_json::Value::String(s.clone()),
        Json::Arr(v) => serde_json::Value::Array(v.iter().map(to_value).collect()),
        Json::Obj(v) => serde_json::Value::Object(v.iter().map(|p| (p.0.clone(), to_value(&p.1))).collect()),
    }
}

/// Reads a `serde_json::Value`, one variant for one variant.
#[verifier::external_body]
fn of_value(v: serde_json::Value) -> Json {
    match v {
        serde_json::Value::Null => Json::Null,
        serde_json::Value::Bool(b) => Json::Bool(b),
        serde_json::Value::Number(n) => n.as_i128().map_or_else(|| Json::Float(n.to_string()), Json::Int),
        serde_json::Value::String(s) => Json::Str(s),
        serde_json::Value::Array(v) => Json::Arr(v.into_iter().map(of_value).collect()),
        serde_json::Value::Object(m) => Json::Obj(m.into_iter().map(|p| (p.0, of_value(p.1))).collect()),
    }
}

/// Writes a value as compact JSON, with the `Display` of `serde_json::Value`.
/// The text depends on what the value says and on nothing else. Read with
/// `serde_json::from_str`, the text of an object of texts and nulls gives each
/// member back.
#[verifier::external_body]
pub(crate) fn render(j: &Json) -> (r: String)
    ensures
        r@ == json_text(j@),
        flat_object(j@) ==> says_members(r@, j@),
{
    to_value(j).to_string()
}

/// Reads a JSON text with `serde_json::from_str`; nothing where it is none.
/// The value depends on the text and on nothing else.
#[verifier::external_body]
pub(crate) fn parse(s: &str) -> (r: Option<Json>)
    ensures
        opt_json(r) == json_said(s@),
{
    serde_json::from_str::<serde_json::Value>(s).ok().map(of_value)
}

/// A number as it is shown, if the value is one.
pub uninterp spec fn shown_number(v: JsonV) -> Option<Seq<char>>;

/// Shows a number with `serde_json::Value::as_f64` and the `Display` of what
/// it gives: plain decimal digits, without an exponent and without a fraction
/// that is zero. Only a number is shown, every integer that JSON holds is, and
/// one of at most 53 bits is shown by its own digits.
#[verifier::external_body]
pub(crate) fn number_text(j: &Json) -> (r: Option<String>)
    ensures
        opt_view(r) == shown_number(j@),
        r is Some ==> j@ is Int || j@ is Float,
        j@ matches JsonV::Int(n) ==> i64::MIN <= n <= u64::MAX ==> r is Some,
        j@ matches JsonV::Int(n) ==> -9007199254740992 <= n <= 9007199254740992 ==> opt_view(r)
            == Some(decimal(n)),
{
    to_value(j).as_f64().map(|n| n.to_string())
}

} // verus!
