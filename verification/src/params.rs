//! Reading the fields of a request or a document.
//!
//! A field that is absent or null is absent. A field of the wrong type is
//! refused, never read as absent.

use crate::error::bad_request;
use crate::error::ApiError;
use crate::error::ErrorV;
use crate::json::Json;
use crate::json::JsonV;
use crate::text::chars_of;
use crate::text::is_white_space;
use crate::text::texts;
use crate::text::white_space;
use crate::value::values;
use vstd::prelude::*;

verus! {

broadcast use {vstd::string::group_string_axioms, crate::value::group_json};

/// What a fallible call answers.
pub open spec fn told<T: DeepView>(r: Result<T, ApiError>) -> Result<T::V, ErrorV> {
    match r {
        Ok(x) => Ok(x.deep_view()),
        Err(e) => Err(e@),
    }
}

/// The refusal of a field of the wrong type.
pub open spec fn wrong_type(key: Seq<char>, what: Seq<char>) -> ErrorV {
    bad_request("`"@ + key + "` must be "@ + what)
}

/// The refusal of a required field that is absent.
pub open spec fn missing(key: Seq<char>) -> ErrorV {
    bad_request("missing required field: "@ + key)
}

/// The refusal of an empty text.
pub open spec fn blank(key: Seq<char>) -> ErrorV {
    bad_request("`"@ + key + "` must not be empty"@)
}

fn wrong_type_err(key: &str, what: &str) -> (r: ApiError)
    ensures
        r@ == wrong_type(key@, what@),
{
    let mut m: String = "`".to_owned();
    m.append(key);
    m.append("` must be ");
    m.append(what);
    ApiError::bad_request(m)
}

/// The refusal of a required field that is absent.
pub fn missing_err(key: &str) -> (r: ApiError)
    ensures
        r@ == missing(key@),
{
    ApiError::bad_request("missing required field: ".to_owned().concat(key))
}

fn blank_err(key: &str) -> (r: ApiError)
    ensures
        r@ == blank(key@),
{
    let mut m: String = "`".to_owned();
    m.append(key);
    m.append("` must not be empty");
    ApiError::bad_request(m)
}

/// Whether a text holds nothing but white space.
pub open spec fn all_blank(s: Seq<char>) -> bool {
    forall|i: int| 0 <= i < s.len() ==> white_space(#[trigger] s[i])
}

/// Whether a text holds nothing but white space.
pub fn is_blank(s: &str) -> (r: bool)
    ensures
        r == all_blank(s@),
{
    let c: Vec<char> = chars_of(s);
    let mut i: usize = 0;
    while i < c.len()
        invariant
            c@ == s@,
            i <= c@.len(),
            forall|k: int| 0 <= k < i ==> white_space(#[trigger] s@[k]),
        decreases c@.len() - i,
    {
        if !is_white_space(c[i]) {
            return false;
        }
        i += 1;
    }
    true
}

/// An optional text field.
pub open spec fn opt_str_spec(p: JsonV, key: Seq<char>) -> Result<Option<Seq<char>>, ErrorV> {
    match p.get(key) {
        None => Ok(None),
        Some(JsonV::Null) => Ok(None),
        Some(JsonV::Str(s)) => Ok(Some(s)),
        Some(_) => Err(wrong_type(key, "a string"@)),
    }
}

/// An optional text field.
pub fn opt_str(p: &Json, key: &str) -> (r: Result<Option<String>, ApiError>)
    ensures
        told(r) == opt_str_spec(p@, key@),
{
    match p.get(key) {
        None => Ok(None),
        Some(v) => match v {
            Json::Null => Ok(None),
            Json::Str(s) => Ok(Some(s.clone())),
            _ => Err(wrong_type_err(key, "a string")),
        },
    }
}

/// An optional text field that may not be empty.
pub open spec fn opt_str_nonempty_spec(p: JsonV, key: Seq<char>) -> Result<
    Option<Seq<char>>,
    ErrorV,
> {
    match opt_str_spec(p, key) {
        Ok(Some(s)) => if s.len() == 0 {
            Err(blank(key))
        } else {
            Ok(Some(s))
        },
        other => other,
    }
}

/// An optional text field that may not be empty.
pub fn opt_str_nonempty(p: &Json, key: &str) -> (r: Result<Option<String>, ApiError>)
    ensures
        told(r) == opt_str_nonempty_spec(p@, key@),
{
    match opt_str(p, key) {
        Ok(Some(s)) => if s.as_str().is_empty() {
            Err(blank_err(key))
        } else {
            Ok(Some(s))
        },
        other => other,
    }
}

/// A required text field that may not be empty: the strength a lookup needs.
pub open spec fn req_str_lookup_spec(p: JsonV, key: Seq<char>) -> Result<Seq<char>, ErrorV> {
    match opt_str_nonempty_spec(p, key) {
        Ok(Some(s)) => Ok(s),
        Ok(None) => Err(missing(key)),
        Err(e) => Err(e),
    }
}

/// A required text field that may not be empty: the strength a lookup needs.
pub fn req_str_lookup(p: &Json, key: &str) -> (r: Result<String, ApiError>)
    ensures
        told(r) == req_str_lookup_spec(p@, key@),
{
    match opt_str_nonempty(p, key) {
        Ok(Some(s)) => Ok(s),
        Ok(None) => Err(missing_err(key)),
        Err(e) => Err(e),
    }
}

/// A required text field that may not be blank.
pub open spec fn req_str_spec(p: JsonV, key: Seq<char>) -> Result<Seq<char>, ErrorV> {
    match opt_str_spec(p, key) {
        Ok(Some(s)) => if all_blank(s) {
            Err(blank(key))
        } else {
            Ok(s)
        },
        Ok(None) => Err(missing(key)),
        Err(e) => Err(e),
    }
}

/// A required text field that may not be blank.
pub fn req_str(p: &Json, key: &str) -> (r: Result<String, ApiError>)
    ensures
        told(r) == req_str_spec(p@, key@),
{
    match opt_str(p, key) {
        Ok(Some(s)) => if is_blank(s.as_str()) {
            Err(blank_err(key))
        } else {
            Ok(s)
        },
        Ok(None) => Err(missing_err(key)),
        Err(e) => Err(e),
    }
}

/// An optional integer field.
pub open spec fn opt_i64_spec(p: JsonV, key: Seq<char>) -> Result<Option<i64>, ErrorV> {
    match p.get(key) {
        None => Ok(None),
        Some(JsonV::Null) => Ok(None),
        Some(v) => match v.as_int() {
            Some(n) => Ok(Some(n as i64)),
            None => Err(wrong_type(key, "an integer"@)),
        },
    }
}

/// An optional integer field.
pub fn opt_i64(p: &Json, key: &str) -> (r: Result<Option<i64>, ApiError>)
    ensures
        told(r) == opt_i64_spec(p@, key@),
{
    match p.get(key) {
        None => Ok(None),
        Some(v) => match v {
            Json::Null => Ok(None),
            _ => match v.as_i64() {
                Some(n) => Ok(Some(n)),
                None => Err(wrong_type_err(key, "an integer")),
            },
        },
    }
}

/// A required integer field.
pub open spec fn req_i64_spec(p: JsonV, key: Seq<char>) -> Result<i64, ErrorV> {
    match opt_i64_spec(p, key) {
        Ok(Some(n)) => Ok(n),
        Ok(None) => Err(missing(key)),
        Err(e) => Err(e),
    }
}

/// A required integer field.
pub fn req_i64(p: &Json, key: &str) -> (r: Result<i64, ApiError>)
    ensures
        told(r) == req_i64_spec(p@, key@),
{
    match opt_i64(p, key) {
        Ok(Some(n)) => Ok(n),
        Ok(None) => Err(missing_err(key)),
        Err(e) => Err(e),
    }
}

/// An optional truth value.
pub open spec fn opt_bool_spec(p: JsonV, key: Seq<char>) -> Result<Option<bool>, ErrorV> {
    match p.get(key) {
        None => Ok(None),
        Some(JsonV::Null) => Ok(None),
        Some(JsonV::Bool(b)) => Ok(Some(b)),
        Some(_) => Err(wrong_type(key, "a boolean"@)),
    }
}

/// An optional truth value.
pub fn opt_bool(p: &Json, key: &str) -> (r: Result<Option<bool>, ApiError>)
    ensures
        told(r) == opt_bool_spec(p@, key@),
{
    match p.get(key) {
        None => Ok(None),
        Some(v) => match v {
            Json::Null => Ok(None),
            Json::Bool(b) => Ok(Some(*b)),
            _ => Err(wrong_type_err(key, "a boolean")),
        },
    }
}

/// An optional array.
pub open spec fn opt_array_spec(p: JsonV, key: Seq<char>) -> Result<Option<Seq<JsonV>>, ErrorV> {
    match p.get(key) {
        None => Ok(None),
        Some(JsonV::Null) => Ok(None),
        Some(JsonV::Arr(v)) => Ok(Some(v)),
        Some(_) => Err(wrong_type(key, "an array"@)),
    }
}

/// What a fallible read of an array answers.
pub open spec fn told_array(r: Result<Option<&Vec<Json>>, ApiError>) -> Result<
    Option<Seq<JsonV>>,
    ErrorV,
> {
    match r {
        Ok(Some(v)) => Ok(Some(values(v@))),
        Ok(None) => Ok(None),
        Err(e) => Err(e@),
    }
}

/// An optional array.
pub fn opt_array<'a>(p: &'a Json, key: &str) -> (r: Result<Option<&'a Vec<Json>>, ApiError>)
    ensures
        told_array(r) == opt_array_spec(p@, key@),
{
    match p.get(key) {
        None => Ok(None),
        Some(v) => match v {
            Json::Null => Ok(None),
            Json::Arr(a) => Ok(Some(a)),
            _ => Err(wrong_type_err(key, "an array")),
        },
    }
}

/// The first of the first `n` values that is no text, as a refusal; or the texts.
pub open spec fn all_texts(v: Seq<JsonV>, key: Seq<char>, n: nat) -> Result<Seq<Seq<char>>, ErrorV>
    decreases n,
{
    if n == 0 || n > v.len() {
        Ok(Seq::empty())
    } else {
        match all_texts(v, key, (n - 1) as nat) {
            Err(e) => Err(e),
            Ok(before) => match v[n - 1] {
                JsonV::Str(s) => Ok(before.push(s)),
                _ => Err(wrong_type(key, "an array of strings"@)),
            },
        }
    }
}

/// A field that is an array of texts; none where it is absent.
pub open spec fn opt_str_array_spec(p: JsonV, key: Seq<char>) -> Result<Seq<Seq<char>>, ErrorV> {
    match opt_array_spec(p, key) {
        Err(e) => Err(e),
        Ok(None) => Ok(Seq::empty()),
        Ok(Some(v)) => all_texts(v, key, v.len()),
    }
}

/// A refusal among the first values is the answer for all of them.
pub proof fn all_texts_fails(v: Seq<JsonV>, key: Seq<char>, i: nat, n: nat)
    requires
        i <= n <= v.len(),
        all_texts(v, key, i) is Err,
    ensures
        all_texts(v, key, n) == all_texts(v, key, i),
    decreases n,
{
    if i < n {
        all_texts_fails(v, key, i, (n - 1) as nat);
    }
}

/// What a fallible list of texts answers.
pub open spec fn told_texts(r: Result<Vec<String>, ApiError>) -> Result<Seq<Seq<char>>, ErrorV> {
    match r {
        Ok(v) => Ok(texts(v@)),
        Err(e) => Err(e@),
    }
}

/// A field that is an array of texts; none where it is absent.
pub fn opt_str_array(p: &Json, key: &str) -> (r: Result<Vec<String>, ApiError>)
    ensures
        told_texts(r) == opt_str_array_spec(p@, key@),
{
    let v: &Vec<Json> = match opt_array(p, key) {
        Err(e) => {
            return Err(e);
        },
        Ok(None) => {
            let none: Vec<String> = Vec::new();
            assert(texts(none@) =~= Seq::empty());
            return Ok(none);
        },
        Ok(Some(v)) => v,
    };
    let mut out: Vec<String> = Vec::new();
    let mut i: usize = 0;
    assert(texts(out@) =~= Seq::empty());
    while i < v.len()
        invariant
            i <= v@.len(),
            opt_array_spec(p@, key@) == Ok::<Option<Seq<JsonV>>, ErrorV>(Some(values(v@))),
            all_texts(values(v@), key@, i as nat) == Ok::<Seq<Seq<char>>, ErrorV>(texts(out@)),
        decreases v@.len() - i,
    {
        assert(values(v@)[i as int] == v@[i as int]@);
        match &v[i] {
            Json::Str(s) => {
                let one: String = s.clone();
                assert(texts(out@.push(one)) =~= texts(out@).push(one@));
                out.push(one);
            },
            _ => {
                proof {
                    all_texts_fails(values(v@), key@, i as nat + 1, values(v@).len());
                }
                return Err(wrong_type_err(key, "an array of strings"));
            },
        }
        i += 1;
    }
    Ok(out)
}

} // verus!
