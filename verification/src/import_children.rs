//! Reading the rows that belong to an imported task: its notes, criteria and
//! measurements. They replace the rows the task had.

use crate::children::delete_owned;
use crate::children::has;
use crate::children::has_row;
use crate::children::upsert;
use crate::children::upserted;
use crate::children::without;
use crate::error::ApiError;
use crate::error::bad_request;
use crate::error::ErrorV;
use crate::export::is_in;
use crate::import_read::EnvV;
use crate::import_read::import_keys;
use crate::import_read::ImportEnv;
use crate::import_read::in_field_err;
use crate::import_read::opt_count;
use crate::import_read::opt_count_spec;
use crate::import_read::shape_spec;
use crate::import_read::task_err;
use crate::journal::minted;
use crate::json::Json;
use crate::json::JsonV;
use crate::params::opt_array;
use crate::params::opt_array_spec;
use crate::params::opt_i64;
use crate::params::opt_i64_spec;
use crate::params::opt_str_nonempty;
use crate::params::opt_str_nonempty_spec;
use crate::params::req_str;
use crate::params::req_str_spec;
use crate::params::told;
use crate::rows::Annotation;
use crate::rows::AnnotationV;
use crate::rows::Check;
use crate::rows::CheckV;
use crate::rows::Measurement;
use crate::rows::MeasurementV;
use crate::rows::rows;
use crate::text::debug_form;
use crate::text::debug_text;
use crate::text::same;
use crate::text::strs;
use crate::text::texts;
use crate::value::values;
use vstd::prelude::*;

verus! {

broadcast use {
    vstd::string::group_string_axioms,
    crate::value::group_json,
    crate::rows::rows_push,
    crate::text::texts_push,
};

/// A step taken for each of the first `n` rows, up to the first refusal.
pub open spec fn each<S>(
    v: Seq<JsonV>,
    n: nat,
    s: S,
    step: spec_fn(S, JsonV) -> Result<S, ErrorV>,
) -> Result<S, ErrorV>
    decreases n,
{
    if n == 0 || n > v.len() {
        Ok(s)
    } else {
        match each(v, (n - 1) as nat, s, step) {
            Err(e) => Err(e),
            Ok(t) => step(t, v[n - 1]),
        }
    }
}

/// A refusal at some row is the answer for all of them.
pub proof fn each_fails<S>(
    v: Seq<JsonV>,
    i: nat,
    n: nat,
    s: S,
    step: spec_fn(S, JsonV) -> Result<S, ErrorV>,
)
    requires
        i <= n <= v.len(),
        each(v, i, s, step) is Err,
    ensures
        each(v, n, s, step) == each(v, i, s, step),
    decreases n,
{
    if i < n {
        each_fails(v, i, (n - 1) as nat, s, step);
    }
}

/// The beginning of a refusal that is about a row of a task.
pub open spec fn of_task(id: Seq<char>) -> Seq<char> {
    "task "@ + id + ", "@
}

fn of_task_text(id: &str) -> (r: String)
    ensures
        r@ == of_task(id@),
{
    let mut m: String = "task ".to_owned();
    m.append(id);
    m.append(", ");
    m
}

/// The states a criterion can be in; a new one is in the first.
pub open spec fn check_states() -> Seq<Seq<char>> {
    seq!["open"@, "passed"@, "failed"@]
}

/// Whether `s` is a state a criterion can be in.
pub fn is_check_state(s: &str) -> (r: bool)
    ensures
        r == check_states().contains(s@),
{
    let r: bool = same(s, "open") || same(s, "passed") || same(s, "failed");
    proof {
        let v = check_states();
        assert(v[0] == "open"@ && v[1] == "passed"@ && v[2] == "failed"@);
    }
    r
}

/// The refusal of a state that does not exist.
pub open spec fn bad_state(id: Seq<char>, state: Seq<char>) -> ErrorV {
    bad_request(
        "task "@ + id + ", checks[]: state must be open|passed|failed (got "@ + debug_form(state)
            + ")"@,
    )
}

/// The refusal of a source or a confidence that does not exist.
pub open spec fn bad_word(what: Seq<char>, word: Seq<char>) -> ErrorV {
    bad_request("unknown "@ + what + " "@ + debug_form(word))
}

/// Whether a word is one of a closed set, or why it is refused.
pub open spec fn word_spec(what: Seq<char>, word: Seq<char>, set: Seq<Seq<char>>) -> Result<
    (),
    ErrorV,
> {
    if set.contains(word) {
        Ok(())
    } else {
        Err(bad_word(what, word))
    }
}

fn require_word(what: &str, word: &str, set: &Vec<String>) -> (r: Result<(), ApiError>)
    ensures
        told(r) == word_spec(what@, word@, texts(set@)),
{
    if is_in(set, word) {
        Ok(())
    } else {
        let mut m: String = "unknown ".to_owned();
        m.append(what);
        m.append(" ");
        m.append(debug_text(word).as_str());
        Err(ApiError::bad_request(m))
    }
}

/// The refusal of a measurement id that some other row has.
pub open spec fn measurement_taken(mid: Seq<char>) -> ErrorV {
    bad_request(
        "measurement id "@ + debug_form(mid)
            + " appears more than once in the import (or belongs to a task outside it) — every tokens[].id must be unique"@,
    )
}

/// Whether a measurement id is free, or why it is refused.
pub open spec fn free_spec(s: Seq<MeasurementV>, mid: Seq<char>) -> Result<(), ErrorV> {
    if has::<Measurement>(s, mid) {
        Err(measurement_taken(mid))
    } else {
        Ok(())
    }
}

fn require_free(v: &Vec<Measurement>, mid: &str) -> (r: Result<(), ApiError>)
    ensures
        told(r) == free_spec(rows(v@), mid@),
{
    if has_row(v, mid) {
        let mut m: String = "measurement id ".to_owned();
        m.append(debug_text(mid).as_str());
        m.append(
            " appears more than once in the import (or belongs to a task outside it) — every tokens[].id must be unique",
        );
        Err(ApiError::bad_request(m))
    } else {
        Ok(())
    }
}

/// A position in a list, as far as one can be written down.
pub open spec fn place(n: nat) -> i64 {
    if n <= i64::MAX {
        n as i64
    } else {
        i64::MAX
    }
}

fn place_of(n: usize) -> (r: i64)
    ensures
        r == place(n as nat),
{
    if n as u64 <= 9223372036854775807u64 {
        n as i64
    } else {
        i64::MAX
    }
}

/// The fields of an annotation in a document.
pub open spec fn annotation_keys() -> Seq<Seq<char>> {
    seq!["id"@, "body"@, "created"@]
}

fn annotation_key_list() -> (r: Vec<&'static str>)
    ensures
        strs(r@) == annotation_keys(),
{
    let r: Vec<&'static str> = vec!["id", "body", "created"];
    assert(strs(r@) =~= annotation_keys());
    r
}

/// One annotation written for the task `id`, or why it is refused. The state is the
/// table, how many ids were minted.
pub open spec fn annotation_one(st: (Seq<AnnotationV>, nat), a: JsonV, id: Seq<char>, env: EnvV) -> Result<
    (Seq<AnnotationV>, nat),
    ErrorV,
> {
    let shape = shape_spec(of_task(id), "annotations[]"@, a, annotation_keys());
    let given = opt_str_nonempty_spec(a, "id"@);
    let row_id = match given {
        Ok(Some(x)) => Ok(x),
        _ => minted(env.log, st.1),
    };
    let body = req_str_spec(a, "body"@);
    let created = opt_str_nonempty_spec(a, "created"@);
    if shape is Err {
        Err(shape->Err_0)
    } else if given is Err {
        Err(task_err(given, id, "annotations[].id"@))
    } else if row_id is Err {
        Err(row_id->Err_0)
    } else if body is Err {
        Err(task_err(body, id, "annotations[].body"@))
    } else if created is Err {
        Err(task_err(created, id, "annotations[].created"@))
    } else {
        let row = AnnotationV {
            id: row_id->Ok_0,
            task_id: id,
            body: body->Ok_0,
            created: match created->Ok_0 {
                Some(s) => s,
                None => env.log.now,
            },
            removed: None,
        };
        let used = if given->Ok_0 is Some {
            st.1
        } else {
            st.1 + 1
        };
        Ok((upserted::<Annotation>(st.0, row), used))
    }
}

/// The step of [`annotation_one`] for the task `id`.
pub open spec fn annotation_step(id: Seq<char>, env: EnvV) -> spec_fn((Seq<AnnotationV>, nat), JsonV) -> Result<
    (Seq<AnnotationV>, nat),
    ErrorV,
> {
    |st: (Seq<AnnotationV>, nat), a: JsonV| annotation_one(st, a, id, env)
}

/// The table and the minted ids once the annotations of a task are those of the
/// document, or why they are refused.
pub open spec fn annotations_done(
    s: Seq<AnnotationV>,
    used: nat,
    tv: JsonV,
    id: Seq<char>,
    env: EnvV,
) -> Result<(Seq<AnnotationV>, nat), ErrorV> {
    let cleared = without::<Annotation>(s, id);
    match opt_array_spec(tv, "annotations"@) {
        Err(e) => Err(task_err(opt_array_spec(tv, "annotations"@), id, "annotations"@)),
        Ok(None) => Ok((cleared, used)),
        Ok(Some(v)) => match each(v, v.len(), (cleared, used), annotation_step(id, env)) {
            Err(e) => Err(e),
            Ok(st) => Ok((st.0, st.1)),
        },
    }
}

fn import_annotation(
    table: &mut Vec<Annotation>,
    used: &mut usize,
    a: &Json,
    id: &str,
    env: &ImportEnv,
) -> (r: Result<(), ApiError>)
    ensures
        match annotation_one((rows(old(table)@), *old(used) as nat), a@, id@, env@) {
            Ok(st) => r is Ok && rows(final(table)@) == st.0 && *final(used) == st.1,
            Err(e) => r is Err && r->Err_0@ == e,
        },
{
    match import_keys(of_task_text(id).as_str(), "annotations[]", a, &annotation_key_list()) {
        Ok(_) => {},
        Err(e) => {
            return Err(e);
        },
    }
    let row_id: String = match opt_str_nonempty(a, "id") {
        Ok(Some(x)) => x,
        Ok(None) => match env.log.mint(*used) {
            Ok(x) => {
                *used = *used + 1;
                x
            },
            Err(e) => {
                return Err(e);
            },
        },
        Err(e) => {
            return Err(in_field_err("task", id, "annotations[].id", &e));
        },
    };
    let body: String = match req_str(a, "body") {
        Ok(x) => x,
        Err(e) => {
            return Err(in_field_err("task", id, "annotations[].body", &e));
        },
    };
    let created: String = match opt_str_nonempty(a, "created") {
        Ok(Some(x)) => x,
        Ok(None) => env.log.now.clone(),
        Err(e) => {
            return Err(in_field_err("task", id, "annotations[].created", &e));
        },
    };
    let row = Annotation {
        id: row_id,
        task_id: id.to_owned(),
        body,
        created,
        removed: None,
    };
    upsert(table, row);
    Ok(())
}

/// Replaces the annotations of the task `id` by those of the document.
pub fn import_annotations(
    table: &mut Vec<Annotation>,
    used: &mut usize,
    tv: &Json,
    id: &str,
    env: &ImportEnv,
) -> (r: Result<(), ApiError>)
    ensures
        match annotations_done(rows(old(table)@), *old(used) as nat, tv@, id@, env@) {
            Ok(st) => r is Ok && rows(final(table)@) == st.0 && *final(used) == st.1,
            Err(e) => r is Err && r->Err_0@ == e,
        },
{
    delete_owned(table, id);
    let v: &Vec<Json> = match opt_array(tv, "annotations") {
        Err(e) => {
            return Err(in_field_err("task", id, "annotations", &e));
        },
        Ok(None) => {
            return Ok(());
        },
        Ok(Some(v)) => v,
    };
    let ghost start = (rows(table@), *used as nat);
    let ghost step = annotation_step(id@, env@);
    let mut i: usize = 0;
    while i < v.len()
        invariant
            i <= v@.len(),
            start == (without::<Annotation>(rows(old(table)@), id@), *old(used) as nat),
            step == annotation_step(id@, env@),
            opt_array_spec(tv@, "annotations"@) == Ok::<Option<Seq<JsonV>>, ErrorV>(Some(values(v@))),
            each(values(v@), i as nat, start, step) == Ok::<(Seq<AnnotationV>, nat), ErrorV>(
                (rows(table@), *used as nat),
            ),
        decreases v@.len() - i,
    {
        assert(values(v@)[i as int] == v@[i as int]@);
        match import_annotation(table, used, &v[i], id, env) {
            Ok(_) => {},
            Err(e) => {
                proof {
                    each_fails(values(v@), i as nat + 1, values(v@).len(), start, step);
                }
                return Err(e);
            },
        }
        i += 1;
    }
    Ok(())
}

/// The fields of a check in a document.
pub open spec fn check_keys() -> Seq<Seq<char>> {
    seq!["id"@, "body"@, "state"@, "evidence"@, "position"@, "created"@, "modified"@]
}

fn check_key_list() -> (r: Vec<&'static str>)
    ensures
        strs(r@) == check_keys(),
{
    let r: Vec<&'static str> = vec!["id", "body", "state", "evidence", "position", "created", "modified"];
    assert(strs(r@) =~= check_keys());
    r
}

/// One check written for the task `id`, or why it is refused. The state is the
/// table, how many ids were minted, and how many rows came before.
pub open spec fn check_one(st: (Seq<CheckV>, nat, nat), a: JsonV, id: Seq<char>, env: EnvV) -> Result<
    (Seq<CheckV>, nat, nat),
    ErrorV,
> {
    let shape = shape_spec(of_task(id), "checks[]"@, a, check_keys());
    let given = opt_str_nonempty_spec(a, "id"@);
    let row_id = match given {
        Ok(Some(x)) => Ok(x),
        _ => minted(env.log, st.1),
    };
    let body = req_str_spec(a, "body"@);
    let state = opt_str_nonempty_spec(a, "state"@);
    let evidence = opt_str_nonempty_spec(a, "evidence"@);
    let position = opt_i64_spec(a, "position"@);
    let created = opt_str_nonempty_spec(a, "created"@);
    let modified = opt_str_nonempty_spec(a, "modified"@);
    let word = match state {
        Ok(Some(s)) => s,
        _ => "open"@,
    };
    let at = match created {
        Ok(Some(s)) => s,
        _ => env.log.now,
    };
    if shape is Err {
        Err(shape->Err_0)
    } else if given is Err {
        Err(task_err(given, id, "checks[].id"@))
    } else if row_id is Err {
        Err(row_id->Err_0)
    } else if body is Err {
        Err(task_err(body, id, "checks[].body"@))
    } else if state is Err {
        Err(task_err(state, id, "checks[].state"@))
    } else if !check_states().contains(word) {
        Err(bad_state(id, word))
    } else if evidence is Err {
        Err(task_err(evidence, id, "checks[].evidence"@))
    } else if position is Err {
        Err(task_err(position, id, "checks[].position"@))
    } else if created is Err {
        Err(task_err(created, id, "checks[].created"@))
    } else if modified is Err {
        Err(task_err(modified, id, "checks[].modified"@))
    } else {
        let row = CheckV {
            id: row_id->Ok_0,
            task_id: id,
            body: body->Ok_0,
            state: word,
            evidence: evidence->Ok_0,
            position: match position->Ok_0 {
                Some(x) => x,
                None => place(st.2),
            },
            created: at,
            modified: match modified->Ok_0 {
                Some(s) => s,
                None => at,
            },
        };
        let used = if given->Ok_0 is Some {
            st.1
        } else {
            st.1 + 1
        };
        Ok((upserted::<Check>(st.0, row), used, st.2 + 1))
    }
}

/// The step of [`check_one`] for the task `id`.
pub open spec fn check_step(id: Seq<char>, env: EnvV) -> spec_fn((Seq<CheckV>, nat, nat), JsonV) -> Result<
    (Seq<CheckV>, nat, nat),
    ErrorV,
> {
    |st: (Seq<CheckV>, nat, nat), a: JsonV| check_one(st, a, id, env)
}

/// The table and the minted ids once the checks of a task are those of the
/// document, or why they are refused.
pub open spec fn checks_done(
    s: Seq<CheckV>,
    used: nat,
    tv: JsonV,
    id: Seq<char>,
    env: EnvV,
) -> Result<(Seq<CheckV>, nat), ErrorV> {
    let cleared = without::<Check>(s, id);
    match opt_array_spec(tv, "checks"@) {
        Err(e) => Err(task_err(opt_array_spec(tv, "checks"@), id, "checks"@)),
        Ok(None) => Ok((cleared, used)),
        Ok(Some(v)) => match each(v, v.len(), (cleared, used, 0nat), check_step(id, env)) {
            Err(e) => Err(e),
            Ok(st) => Ok((st.0, st.1)),
        },
    }
}

fn import_check(
    table: &mut Vec<Check>,
    used: &mut usize,
    before: usize,
    a: &Json,
    id: &str,
    env: &ImportEnv,
) -> (r: Result<(), ApiError>)
    ensures
        match check_one((rows(old(table)@), *old(used) as nat, before as nat), a@, id@, env@) {
            Ok(st) => r is Ok && rows(final(table)@) == st.0 && *final(used) == st.1,
            Err(e) => r is Err && r->Err_0@ == e,
        },
{
    match import_keys(of_task_text(id).as_str(), "checks[]", a, &check_key_list()) {
        Ok(_) => {},
        Err(e) => {
            return Err(e);
        },
    }
    let row_id: String = match opt_str_nonempty(a, "id") {
        Ok(Some(x)) => x,
        Ok(None) => match env.log.mint(*used) {
            Ok(x) => {
                *used = *used + 1;
                x
            },
            Err(e) => {
                return Err(e);
            },
        },
        Err(e) => {
            return Err(in_field_err("task", id, "checks[].id", &e));
        },
    };
    let body: String = match req_str(a, "body") {
        Ok(x) => x,
        Err(e) => {
            return Err(in_field_err("task", id, "checks[].body", &e));
        },
    };
    let state: String = match opt_str_nonempty(a, "state") {
        Ok(Some(x)) => x,
        Ok(None) => "open".to_owned(),
        Err(e) => {
            return Err(in_field_err("task", id, "checks[].state", &e));
        },
    };
    if !is_check_state(state.as_str()) {
        let mut m: String = "task ".to_owned();
        m.append(id);
        m.append(", checks[]: state must be open|passed|failed (got ");
        m.append(debug_text(state.as_str()).as_str());
        m.append(")");
        return Err(ApiError::bad_request(m));
    }
    let evidence: Option<String> = match opt_str_nonempty(a, "evidence") {
        Ok(x) => x,
        Err(e) => {
            return Err(in_field_err("task", id, "checks[].evidence", &e));
        },
    };
    let position: i64 = match opt_i64(a, "position") {
        Ok(Some(x)) => x,
        Ok(None) => place_of(before),
        Err(e) => {
            return Err(in_field_err("task", id, "checks[].position", &e));
        },
    };
    let created: String = match opt_str_nonempty(a, "created") {
        Ok(Some(x)) => x,
        Ok(None) => env.log.now.clone(),
        Err(e) => {
            return Err(in_field_err("task", id, "checks[].created", &e));
        },
    };
    let modified: String = match opt_str_nonempty(a, "modified") {
        Ok(Some(x)) => x,
        Ok(None) => created.clone(),
        Err(e) => {
            return Err(in_field_err("task", id, "checks[].modified", &e));
        },
    };
    let row = Check {
        id: row_id,
        task_id: id.to_owned(),
        body,
        state,
        evidence,
        position,
        created,
        modified,
    };
    upsert(table, row);
    Ok(())
}

/// Replaces the checks of the task `id` by those of the document.
pub fn import_checks(
    table: &mut Vec<Check>,
    used: &mut usize,
    tv: &Json,
    id: &str,
    env: &ImportEnv,
) -> (r: Result<(), ApiError>)
    ensures
        match checks_done(rows(old(table)@), *old(used) as nat, tv@, id@, env@) {
            Ok(st) => r is Ok && rows(final(table)@) == st.0 && *final(used) == st.1,
            Err(e) => r is Err && r->Err_0@ == e,
        },
{
    delete_owned(table, id);
    let v: &Vec<Json> = match opt_array(tv, "checks") {
        Err(e) => {
            return Err(in_field_err("task", id, "checks", &e));
        },
        Ok(None) => {
            return Ok(());
        },
        Ok(Some(v)) => v,
    };
    let ghost start = (rows(table@), *used as nat, 0nat);
    let ghost step = check_step(id@, env@);
    let mut i: usize = 0;
    while i < v.len()
        invariant
            i <= v@.len(),
            start == (without::<Check>(rows(old(table)@), id@), *old(used) as nat, 0nat),
            step == check_step(id@, env@),
            opt_array_spec(tv@, "checks"@) == Ok::<Option<Seq<JsonV>>, ErrorV>(Some(values(v@))),
            each(values(v@), i as nat, start, step) == Ok::<(Seq<CheckV>, nat, nat), ErrorV>(
                (rows(table@), *used as nat, i as nat),
            ),
        decreases v@.len() - i,
    {
        assert(values(v@)[i as int] == v@[i as int]@);
        match import_check(table, used, i, &v[i], id, env) {
            Ok(_) => {},
            Err(e) => {
                proof {
                    each_fails(values(v@), i as nat + 1, values(v@).len(), start, step);
                }
                return Err(e);
            },
        }
        i += 1;
    }
    Ok(())
}

/// The fields of a measurement in a document.
pub open spec fn measurement_keys() -> Seq<Seq<char>> {
    seq!["id"@, "tool"@, "source"@, "model"@, "input_tokens"@, "output_tokens"@, "cache_read_tokens"@, "cache_creation_tokens"@, "total_tokens"@, "confidence"@, "created"@]
}

fn measurement_key_list() -> (r: Vec<&'static str>)
    ensures
        strs(r@) == measurement_keys(),
{
    let r: Vec<&'static str> = vec!["id", "tool", "source", "model", "input_tokens", "output_tokens", "cache_read_tokens", "cache_creation_tokens", "total_tokens", "confidence", "created"];
    assert(strs(r@) =~= measurement_keys());
    r
}

/// One measurement written for the task `id`, or why it is refused. The state is the
/// table, how many ids were minted.
pub open spec fn measurement_one(st: (Seq<MeasurementV>, nat), a: JsonV, id: Seq<char>, env: EnvV) -> Result<
    (Seq<MeasurementV>, nat),
    ErrorV,
> {
    let shape = shape_spec(of_task(id), "tokens[]"@, a, measurement_keys());
    let given = opt_str_nonempty_spec(a, "id"@);
    let row_id = match given {
        Ok(Some(x)) => Ok(x),
        _ => minted(env.log, st.1),
    };
    let tool = req_str_spec(a, "tool"@);
    let source = req_str_spec(a, "source"@);
    let source_ok = word_spec("source"@, source->Ok_0, env.token_sources);
    let confidence = req_str_spec(a, "confidence"@);
    let confidence_ok = word_spec("confidence"@, confidence->Ok_0, env.confidences);
    let model = opt_str_nonempty_spec(a, "model"@);
    let created = opt_str_nonempty_spec(a, "created"@);
    let free = free_spec(st.0, row_id->Ok_0);
    let input_tokens = opt_count_spec(a, "input_tokens"@);
    let output_tokens = opt_count_spec(a, "output_tokens"@);
    let cache_read_tokens = opt_count_spec(a, "cache_read_tokens"@);
    let cache_creation_tokens = opt_count_spec(a, "cache_creation_tokens"@);
    let total_tokens = opt_count_spec(a, "total_tokens"@);
    if shape is Err {
        Err(shape->Err_0)
    } else if given is Err {
        Err(task_err(given, id, "tokens[].id"@))
    } else if row_id is Err {
        Err(row_id->Err_0)
    } else if tool is Err {
        Err(task_err(tool, id, "tokens[].tool"@))
    } else if source is Err {
        Err(task_err(source, id, "tokens[].source"@))
    } else if source_ok is Err {
        Err(task_err(source_ok, id, "tokens[].source"@))
    } else if confidence is Err {
        Err(task_err(confidence, id, "tokens[].confidence"@))
    } else if confidence_ok is Err {
        Err(task_err(confidence_ok, id, "tokens[].confidence"@))
    } else if model is Err {
        Err(task_err(model, id, "tokens[].model"@))
    } else if created is Err {
        Err(task_err(created, id, "tokens[].created"@))
    } else if free is Err {
        Err(task_err(free, id, "tokens[].id"@))
    } else if input_tokens is Err {
        Err(task_err(input_tokens, id, "tokens[].input_tokens"@))
    } else if output_tokens is Err {
        Err(task_err(output_tokens, id, "tokens[].output_tokens"@))
    } else if cache_read_tokens is Err {
        Err(task_err(cache_read_tokens, id, "tokens[].cache_read_tokens"@))
    } else if cache_creation_tokens is Err {
        Err(task_err(cache_creation_tokens, id, "tokens[].cache_creation_tokens"@))
    } else if total_tokens is Err {
        Err(task_err(total_tokens, id, "tokens[].total_tokens"@))
    } else {
        let row = MeasurementV {
            id: row_id->Ok_0,
            task_id: id,
            tool: tool->Ok_0,
            source: source->Ok_0,
            confidence: confidence->Ok_0,
            model: model->Ok_0,
            created: match created->Ok_0 {
                Some(s) => s,
                None => env.log.now,
            },
            input_tokens: match input_tokens->Ok_0 {
                Some(x) => x,
                None => 0,
            },
            output_tokens: match output_tokens->Ok_0 {
                Some(x) => x,
                None => 0,
            },
            cache_read_tokens: match cache_read_tokens->Ok_0 {
                Some(x) => x,
                None => 0,
            },
            cache_creation_tokens: match cache_creation_tokens->Ok_0 {
                Some(x) => x,
                None => 0,
            },
            total_tokens: match total_tokens->Ok_0 {
                Some(x) => x,
                None => 0,
            },
        };
        let used = if given->Ok_0 is Some {
            st.1
        } else {
            st.1 + 1
        };
        Ok((st.0.push(row), used))
    }
}

/// The step of [`measurement_one`] for the task `id`.
pub open spec fn measurement_step(id: Seq<char>, env: EnvV) -> spec_fn((Seq<MeasurementV>, nat), JsonV) -> Result<
    (Seq<MeasurementV>, nat),
    ErrorV,
> {
    |st: (Seq<MeasurementV>, nat), a: JsonV| measurement_one(st, a, id, env)
}

/// The table and the minted ids once the measurements of a task are those of the
/// document, or why they are refused.
pub open spec fn measurements_done(
    s: Seq<MeasurementV>,
    used: nat,
    tv: JsonV,
    id: Seq<char>,
    env: EnvV,
) -> Result<(Seq<MeasurementV>, nat), ErrorV> {
    let cleared = without::<Measurement>(s, id);
    match opt_array_spec(tv, "tokens"@) {
        Err(e) => Err(task_err(opt_array_spec(tv, "tokens"@), id, "tokens"@)),
        Ok(None) => Ok((cleared, used)),
        Ok(Some(v)) => match each(v, v.len(), (cleared, used), measurement_step(id, env)) {
            Err(e) => Err(e),
            Ok(st) => Ok((st.0, st.1)),
        },
    }
}

fn import_measurement(
    table: &mut Vec<Measurement>,
    used: &mut usize,
    a: &Json,
    id: &str,
    env: &ImportEnv,
) -> (r: Result<(), ApiError>)
    ensures
        match measurement_one((rows(old(table)@), *old(used) as nat), a@, id@, env@) {
            Ok(st) => r is Ok && rows(final(table)@) == st.0 && *final(used) == st.1,
            Err(e) => r is Err && r->Err_0@ == e,
        },
{
    match import_keys(of_task_text(id).as_str(), "tokens[]", a, &measurement_key_list()) {
        Ok(_) => {},
        Err(e) => {
            return Err(e);
        },
    }
    let row_id: String = match opt_str_nonempty(a, "id") {
        Ok(Some(x)) => x,
        Ok(None) => match env.log.mint(*used) {
            Ok(x) => {
                *used = *used + 1;
                x
            },
            Err(e) => {
                return Err(e);
            },
        },
        Err(e) => {
            return Err(in_field_err("task", id, "tokens[].id", &e));
        },
    };
    let tool: String = match req_str(a, "tool") {
        Ok(x) => x,
        Err(e) => {
            return Err(in_field_err("task", id, "tokens[].tool", &e));
        },
    };
    let source: String = match req_str(a, "source") {
        Ok(x) => x,
        Err(e) => {
            return Err(in_field_err("task", id, "tokens[].source", &e));
        },
    };
    match require_word("source", source.as_str(), &env.token_sources) {
        Ok(_) => {},
        Err(e) => {
            return Err(in_field_err("task", id, "tokens[].source", &e));
        },
    }
    let confidence: String = match req_str(a, "confidence") {
        Ok(x) => x,
        Err(e) => {
            return Err(in_field_err("task", id, "tokens[].confidence", &e));
        },
    };
    match require_word("confidence", confidence.as_str(), &env.confidences) {
        Ok(_) => {},
        Err(e) => {
            return Err(in_field_err("task", id, "tokens[].confidence", &e));
        },
    }
    let model: Option<String> = match opt_str_nonempty(a, "model") {
        Ok(x) => x,
        Err(e) => {
            return Err(in_field_err("task", id, "tokens[].model", &e));
        },
    };
    let created: String = match opt_str_nonempty(a, "created") {
        Ok(Some(x)) => x,
        Ok(None) => env.log.now.clone(),
        Err(e) => {
            return Err(in_field_err("task", id, "tokens[].created", &e));
        },
    };
    match require_free(table, row_id.as_str()) {
        Ok(_) => {},
        Err(e) => {
            return Err(in_field_err("task", id, "tokens[].id", &e));
        },
    }
    let input_tokens: i64 = match opt_count(a, "input_tokens") {
        Ok(Some(x)) => x,
        Ok(None) => 0,
        Err(e) => {
            return Err(in_field_err("task", id, "tokens[].input_tokens", &e));
        },
    };
    let output_tokens: i64 = match opt_count(a, "output_tokens") {
        Ok(Some(x)) => x,
        Ok(None) => 0,
        Err(e) => {
            return Err(in_field_err("task", id, "tokens[].output_tokens", &e));
        },
    };
    let cache_read_tokens: i64 = match opt_count(a, "cache_read_tokens") {
        Ok(Some(x)) => x,
        Ok(None) => 0,
        Err(e) => {
            return Err(in_field_err("task", id, "tokens[].cache_read_tokens", &e));
        },
    };
    let cache_creation_tokens: i64 = match opt_count(a, "cache_creation_tokens") {
        Ok(Some(x)) => x,
        Ok(None) => 0,
        Err(e) => {
            return Err(in_field_err("task", id, "tokens[].cache_creation_tokens", &e));
        },
    };
    let total_tokens: i64 = match opt_count(a, "total_tokens") {
        Ok(Some(x)) => x,
        Ok(None) => 0,
        Err(e) => {
            return Err(in_field_err("task", id, "tokens[].total_tokens", &e));
        },
    };
    let row = Measurement {
        id: row_id,
        task_id: id.to_owned(),
        tool,
        source,
        confidence,
        model,
        created,
        input_tokens,
        output_tokens,
        cache_read_tokens,
        cache_creation_tokens,
        total_tokens,
    };
    table.push(row);
    Ok(())
}

/// Replaces the measurements of the task `id` by those of the document.
pub fn import_measurements(
    table: &mut Vec<Measurement>,
    used: &mut usize,
    tv: &Json,
    id: &str,
    env: &ImportEnv,
) -> (r: Result<(), ApiError>)
    ensures
        match measurements_done(rows(old(table)@), *old(used) as nat, tv@, id@, env@) {
            Ok(st) => r is Ok && rows(final(table)@) == st.0 && *final(used) == st.1,
            Err(e) => r is Err && r->Err_0@ == e,
        },
{
    delete_owned(table, id);
    let v: &Vec<Json> = match opt_array(tv, "tokens") {
        Err(e) => {
            return Err(in_field_err("task", id, "tokens", &e));
        },
        Ok(None) => {
            return Ok(());
        },
        Ok(Some(v)) => v,
    };
    let ghost start = (rows(table@), *used as nat);
    let ghost step = measurement_step(id@, env@);
    let mut i: usize = 0;
    while i < v.len()
        invariant
            i <= v@.len(),
            start == (without::<Measurement>(rows(old(table)@), id@), *old(used) as nat),
            step == measurement_step(id@, env@),
            opt_array_spec(tv@, "tokens"@) == Ok::<Option<Seq<JsonV>>, ErrorV>(Some(values(v@))),
            each(values(v@), i as nat, start, step) == Ok::<(Seq<MeasurementV>, nat), ErrorV>(
                (rows(table@), *used as nat),
            ),
        decreases v@.len() - i,
    {
        assert(values(v@)[i as int] == v@[i as int]@);
        match import_measurement(table, used, &v[i], id, env) {
            Ok(_) => {},
            Err(e) => {
                proof {
                    each_fails(values(v@), i as nat + 1, values(v@).len(), start, step);
                }
                return Err(e);
            },
        }
        i += 1;
    }
    Ok(())
}

} // verus!
