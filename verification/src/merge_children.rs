//! What an import makes of the rows that belong to a task: its notes, its
//! criteria and its measurements.

use crate::children::Child;
use crate::children::has;
use crate::children::Named;
use crate::children::upserted;
use crate::children::without;
use crate::import_children::annotation_one;
use crate::import_children::annotation_step;
use crate::import_children::annotations_done;
use crate::import_children::check_one;
use crate::import_children::check_step;
use crate::import_children::checks_done;
use crate::import_children::each;
use crate::import_children::free_spec;
use crate::import_children::measurement_one;
use crate::import_children::measurement_step;
use crate::import_children::measurements_done;
use crate::import_children::place;
use crate::import_children::word_spec;
use crate::import_laws::each_prefix;
use crate::import_read::EnvV;
use crate::import_read::opt_count_spec;
use crate::journal::minted;
use crate::json::JsonV;
use crate::merge_laws::left_out;
use crate::merge_laws::took_text;
use crate::merge_sections::each_from;
use crate::merge_sections::last_with;
use crate::merge_sections::took_or_now;
use crate::params::opt_i64_spec;
use crate::params::opt_str_nonempty_spec;
use crate::params::req_str_spec;
use crate::rows::Annotation;
use crate::rows::AnnotationV;
use crate::rows::Check;
use crate::rows::CheckV;
use crate::rows::Measurement;
use crate::rows::MeasurementV;
use vstd::prelude::*;

verus! {

broadcast use vstd::string::group_string_axioms;

/// Whether a row has the id it gives, or a fresh one where it gives none.
pub open spec fn identified(row: JsonV, env: EnvV, x: Seq<char>) -> bool {
    if left_out(row, "id"@) {
        env.log.ids.contains(x)
    } else {
        row.get("id"@) == Some(JsonV::Str(x))
    }
}

proof fn upsert_members<T: Named>(s: Seq<T::V>, row: T::V)
    ensures
        ({
            let r = upserted::<T>(s, row);
            let x = T::id_of(row);
            &&& forall|k: int|
                0 <= k < r.len() ==> (#[trigger] r[k]) == row || (k < s.len() && (r[k] == s[k]
                    && T::id_of(s[k]) != x || r[k] == T::over(row, s[k]) && T::id_of(s[k]) == x))
            &&& forall|k: int|
                0 <= k < s.len() ==> T::id_of(#[trigger] s[k]) == x || r.contains(s[k])
            &&& r.contains(row) || exists|k: int|
                0 <= k < s.len() && r.contains(T::over(row, #[trigger] s[k]))
        }),
{
    let r = upserted::<T>(s, row);
    let x = T::id_of(row);
    assert forall|k: int| 0 <= k < s.len() implies T::id_of(#[trigger] s[k]) == x || r.contains(
        s[k],
    ) by {
        if T::id_of(s[k]) != x {
            assert(r[k] == s[k]);
        }
    }
    if has::<T>(s, x) {
        let k = choose|k: int| 0 <= k < s.len() && T::id_of(#[trigger] s[k]) == x;
        assert(r[k] == T::over(row, s[k]));
    } else {
        assert(r[s.len() as int] == row);
        assert forall|k: int|
            0 <= k < r.len() implies (#[trigger] r[k]) == row || (k < s.len() && (r[k] == s[k]
                && T::id_of(s[k]) != x || r[k] == T::over(row, s[k]) && T::id_of(s[k]) == x)) by {
            if k < s.len() {
                assert(r[k] == s[k]);
            }
        }
    }
}

/// Whether a note of a task says what its row says.
pub open spec fn note_says(a: AnnotationV, row: JsonV, id: Seq<char>, env: EnvV) -> bool {
    &&& a.task_id == id
    &&& row.get("body"@) == Some(JsonV::Str(a.body))
    &&& took_or_now(row, "created"@, env, a.created)
}

/// Whether the row `row` made the table `r` of the table `s`, under the id `x`.
pub open spec fn note_lands(s: Seq<AnnotationV>, r: Seq<AnnotationV>, row: JsonV, id: Seq<char>, env: EnvV, x: Seq<char>) -> bool {
    &&& identified(row, env, x)
    &&& has::<Annotation>(r, x)
    &&& forall|k: int|
        0 <= k < r.len() && (#[trigger] r[k]).id == x ==> note_says(r[k], row, id, env)
    &&& forall|k: int| 0 <= k < r.len() ==> (#[trigger] r[k]).id == x || s.contains(r[k])
    &&& forall|k: int| 0 <= k < s.len() ==> (#[trigger] s[k]).id == x || r.contains(s[k])
}

#[verifier::rlimit(60)]
proof fn note_row(st: (Seq<AnnotationV>, nat), a: JsonV, id: Seq<char>, env: EnvV)
    requires
        annotation_one(st, a, id, env) is Ok,
    ensures
        exists|x: Seq<char>| #[trigger]
            note_lands(st.0, annotation_one(st, a, id, env)->Ok_0.0, a, id, env, x),
{
    let given = opt_str_nonempty_spec(a, "id"@);
    let row_id = match given {
        Ok(Some(x)) => Ok(x),
        _ => minted(env.log, st.1),
    };
    let body = req_str_spec(a, "body"@);
    let created = opt_str_nonempty_spec(a, "created"@);
    let row = AnnotationV {
        id: row_id->Ok_0,
        task_id: id,
        body: body->Ok_0,
        created: match created->Ok_0 {
            Some(s) => s,
            None => env.log.now,
        },
        removed: None,
    };
    let r = annotation_one(st, a, id, env)->Ok_0.0;
    let x = row.id;
    assert(r == upserted::<Annotation>(st.0, row));
    upsert_members::<Annotation>(st.0, row);
    if r.contains(row) {
        let k = choose|k: int| 0 <= k < r.len() && r[k] == row;
        assert(r[k].id == x);
    } else {
        let k = choose|k: int|
            0 <= k < st.0.len() && r.contains(Annotation::over(row, #[trigger] st.0[k]));
        let m = choose|m: int| 0 <= m < r.len() && r[m] == Annotation::over(row, st.0[k]);
        assert(r[m].id == x);
    }
    assert(note_lands(st.0, r, a, id, env, x));
}

/// Whether a criterion of a task says what its row says: open where the row
/// names no state, at the row's own place where it names no position, and
/// changed when it was made where it names no change.
pub open spec fn criterion_says(c: CheckV, row: JsonV, id: Seq<char>, env: EnvV, at: nat) -> bool {
    &&& c.task_id == id
    &&& row.get("body"@) == Some(JsonV::Str(c.body))
    &&& if left_out(row, "state"@) {
        c.state == "open"@
    } else {
        row.get("state"@) == Some(JsonV::Str(c.state))
    }
    &&& c.state == "open"@ || c.state == "passed"@ || c.state == "failed"@
    &&& took_text(row, "evidence"@, c.evidence)
    &&& if left_out(row, "position"@) {
        at <= i64::MAX ==> c.position == at
    } else {
        row.get("position"@) == Some(JsonV::Int(c.position as int))
    }
    &&& took_or_now(row, "created"@, env, c.created)
    &&& if left_out(row, "modified"@) {
        c.modified == c.created
    } else {
        row.get("modified"@) == Some(JsonV::Str(c.modified))
    }
}

/// Whether the row `row` made the table `r` of the table `s`, under the id `x`.
pub open spec fn criterion_lands(s: Seq<CheckV>, r: Seq<CheckV>, row: JsonV, id: Seq<char>, env: EnvV, at: nat, x: Seq<char>) -> bool {
    &&& identified(row, env, x)
    &&& has::<Check>(r, x)
    &&& forall|k: int|
        0 <= k < r.len() && (#[trigger] r[k]).id == x ==> criterion_says(r[k], row, id, env, at)
    &&& forall|k: int| 0 <= k < r.len() ==> (#[trigger] r[k]).id == x || s.contains(r[k])
    &&& forall|k: int| 0 <= k < s.len() ==> (#[trigger] s[k]).id == x || r.contains(s[k])
}

#[verifier::rlimit(60)]
proof fn criterion_row(st: (Seq<CheckV>, nat, nat), a: JsonV, id: Seq<char>, env: EnvV)
    requires
        check_one(st, a, id, env) is Ok,
    ensures
        exists|x: Seq<char>| #[trigger]
            criterion_lands(st.0, check_one(st, a, id, env)->Ok_0.0, a, id, env, st.2, x),
{
    let given = opt_str_nonempty_spec(a, "id"@);
    let row_id = match given {
        Ok(Some(x)) => Ok(x),
        _ => minted(env.log, st.1),
    };
    let body = req_str_spec(a, "body"@);
    let state = opt_str_nonempty_spec(a, "state"@);
    let evidence = opt_str_nonempty_spec(a, "evidence"@);
    let position = opt_i64_spec(a, "position"@);
    let created = opt_str_nonempty_spec(a, "created"@);
    let modified = opt_str_nonempty_spec(a, "modified"@);
    let word = match state {
        Ok(Some(s)) => s,
        _ => "open"@,
    };
    let at = match created {
        Ok(Some(s)) => s,
        _ => env.log.now,
    };
    let row = CheckV {
        id: row_id->Ok_0,
        task_id: id,
        body: body->Ok_0,
        state: word,
        evidence: evidence->Ok_0,
        position: match position->Ok_0 {
            Some(x) => x,
            None => place(st.2),
        },
        created: at,
        modified: match modified->Ok_0 {
            Some(s) => s,
            None => at,
        },
    };
    let r = check_one(st, a, id, env)->Ok_0.0;
    let x = row.id;
    assert(r == upserted::<Check>(st.0, row));
    upsert_members::<Check>(st.0, row);
    if r.contains(row) {
        let k = choose|k: int| 0 <= k < r.len() && r[k] == row;
        assert(r[k].id == x);
    } else {
        let k = choose|k: int|
            0 <= k < st.0.len() && r.contains(Check::over(row, #[trigger] st.0[k]));
        let m = choose|m: int| 0 <= m < r.len() && r[m] == Check::over(row, st.0[k]);
        assert(r[m].id == x);
    }
    assert(criterion_lands(st.0, r, a, id, env, st.2, x));
}

/// Whether a count was taken over, or is none where the row has none.
pub open spec fn counted(row: JsonV, key: Seq<char>, now: i64) -> bool {
    if left_out(row, key) {
        now == 0
    } else {
        row.get(key) == Some(JsonV::Int(now as int)) && now >= 0
    }
}

/// Whether a measurement of a task says what its row says: a count that the
/// row leaves out is none.
pub open spec fn measurement_says(m: MeasurementV, row: JsonV, id: Seq<char>, env: EnvV) -> bool {
    &&& m.task_id == id
    &&& row.get("tool"@) == Some(JsonV::Str(m.tool))
    &&& row.get("source"@) == Some(JsonV::Str(m.source))
    &&& env.token_sources.contains(m.source)
    &&& row.get("confidence"@) == Some(JsonV::Str(m.confidence))
    &&& env.confidences.contains(m.confidence)
    &&& took_text(row, "model"@, m.model)
    &&& took_or_now(row, "created"@, env, m.created)
    &&& counted(row, "input_tokens"@, m.input_tokens)
    &&& counted(row, "output_tokens"@, m.output_tokens)
    &&& counted(row, "cache_read_tokens"@, m.cache_read_tokens)
    &&& counted(row, "cache_creation_tokens"@, m.cache_creation_tokens)
    &&& counted(row, "total_tokens"@, m.total_tokens)
}

/// Whether the row `row` made the table `r` of the table `s`, under the id `x`.
pub open spec fn measurement_lands(s: Seq<MeasurementV>, r: Seq<MeasurementV>, row: JsonV, id: Seq<char>, env: EnvV, x: Seq<char>) -> bool {
    &&& identified(row, env, x)
    &&& has::<Measurement>(r, x)
    &&& forall|k: int|
        0 <= k < r.len() && (#[trigger] r[k]).id == x ==> measurement_says(r[k], row, id, env)
    &&& forall|k: int| 0 <= k < r.len() ==> (#[trigger] r[k]).id == x || s.contains(r[k])
    &&& forall|k: int| 0 <= k < s.len() ==> (#[trigger] s[k]).id == x || r.contains(s[k])
}

#[verifier::rlimit(60)]
proof fn measurement_row(st: (Seq<MeasurementV>, nat), a: JsonV, id: Seq<char>, env: EnvV)
    requires
        measurement_one(st, a, id, env) is Ok,
    ensures
        exists|x: Seq<char>| #[trigger]
            measurement_lands(st.0, measurement_one(st, a, id, env)->Ok_0.0, a, id, env, x),
{
    let given = opt_str_nonempty_spec(a, "id"@);
    let row_id = match given {
        Ok(Some(x)) => Ok(x),
        _ => minted(env.log, st.1),
    };
    let tool = req_str_spec(a, "tool"@);
    let source = req_str_spec(a, "source"@);
    let source_ok = word_spec("source"@, source->Ok_0, env.token_sources);
    let confidence = req_str_spec(a, "confidence"@);
    let confidence_ok = word_spec("confidence"@, confidence->Ok_0, env.confidences);
    let model = opt_str_nonempty_spec(a, "model"@);
    let created = opt_str_nonempty_spec(a, "created"@);
    let free = free_spec(st.0, row_id->Ok_0);
    let input_tokens = opt_count_spec(a, "input_tokens"@);
    let output_tokens = opt_count_spec(a, "output_tokens"@);
    let cache_read_tokens = opt_count_spec(a, "cache_read_tokens"@);
    let cache_creation_tokens = opt_count_spec(a, "cache_creation_tokens"@);
    let total_tokens = opt_count_spec(a, "total_tokens"@);
    let row = MeasurementV {
        id: row_id->Ok_0,
        task_id: id,
        tool: tool->Ok_0,
        source: source->Ok_0,
        confidence: confidence->Ok_0,
        model: model->Ok_0,
        created: match created->Ok_0 {
            Some(s) => s,
            None => env.log.now,
        },
        input_tokens: match input_tokens->Ok_0 {
            Some(x) => x,
            None => 0,
        },
        output_tokens: match output_tokens->Ok_0 {
            Some(x) => x,
            None => 0,
        },
        cache_read_tokens: match cache_read_tokens->Ok_0 {
            Some(x) => x,
            None => 0,
        },
        cache_creation_tokens: match cache_creation_tokens->Ok_0 {
            Some(x) => x,
            None => 0,
        },
        total_tokens: match total_tokens->Ok_0 {
            Some(x) => x,
            None => 0,
        },
    };
    let r = measurement_one(st, a, id, env)->Ok_0.0;
    let x = row.id;
    assert(r == st.0.push(row));
    assert(r[st.0.len() as int] == row);
    assert forall|k: int| 0 <= k < st.0.len() implies (#[trigger] st.0[k]).id == x || r.contains(
        st.0[k],
    ) by {
        assert(r[k] == st.0[k]);
    }
    assert forall|k: int|
        0 <= k < r.len() && (#[trigger] r[k]).id == x implies measurement_says(r[k], a, id, env) by {
        if k < st.0.len() {
            assert(st.0[k].id == x);
        }
    }
    assert(measurement_lands(st.0, r, a, id, env, x));
}

proof fn cleared_of<T: Child>(s: Seq<T::V>, owner: Seq<char>)
    ensures
        forall|k: int|
            0 <= k < without::<T>(s, owner).len() ==> T::owner_of(
                #[trigger] without::<T>(s, owner)[k],
            ) != owner,
        forall|k: int|
            0 <= k < s.len() && T::owner_of(#[trigger] s[k]) != owner ==> without::<T>(
                s,
                owner,
            ).contains(s[k]),
    decreases s.len(),
{
    if s.len() > 0 {
        let d = s.drop_last();
        let q = without::<T>(d, owner);
        let r = without::<T>(s, owner);
        cleared_of::<T>(d, owner);
        assert forall|k: int| 0 <= k < s.len() && T::owner_of(#[trigger] s[k]) != owner implies r.contains(
            s[k],
        ) by {
            if k < s.len() - 1 {
                assert(d[k] == s[k]);
                assert(q.contains(s[k]));
                let m = choose|m: int| 0 <= m < q.len() && q[m] == s[k];
                assert(r[m] == s[k]);
            } else {
                assert(r[q.len() as int] == s[k]);
            }
        }
    }
}

proof fn places_count(v: Seq<JsonV>, n: nat, s: (Seq<CheckV>, nat, nat), id: Seq<char>, env: EnvV)
    requires
        n <= v.len(),
        each(v, n, s, check_step(id, env)) is Ok,
        s.2 == 0,
    ensures
        each(v, n, s, check_step(id, env))->Ok_0.2 == n,
    decreases n,
{
    let step = check_step(id, env);
    if n > 0 {
        each_prefix(v, (n - 1) as nat, n, s, step);
        places_count(v, (n - 1) as nat, s, id, env);
        let t = each(v, (n - 1) as nat, s, step)->Ok_0;
        assert(step(t, v[n - 1]) == check_one(t, v[n - 1], id, env));
    }
}

/// A row that names its id is one of the task's notes from then on, as the
/// last row with that id says.
#[verifier::rlimit(40)]
pub proof fn imported_notes_say_what_their_rows_say(
    s: Seq<AnnotationV>,
    used: nat,
    tv: JsonV,
    id: Seq<char>,
    env: EnvV,
    v: Seq<JsonV>,
    j: int,
    x: Seq<char>,
)
    requires
        annotations_done(s, used, tv, id, env) is Ok,
        tv.get("annotations"@) == Some(JsonV::Arr(v)),
        0 <= j < v.len(),
        v[j].get("id"@) == Some(JsonV::Str(x)),
        last_with(v, j, "id"@),
        !env.log.ids.contains(x),
    ensures
        ({
            let r = annotations_done(s, used, tv, id, env)->Ok_0.0;
            &&& has::<Annotation>(r, x)
            &&& forall|k: int|
                0 <= k < r.len() && (#[trigger] r[k]).id == x ==> note_says(
                    r[k],
                    v[j],
                    id,
                    env,
                )
        }),
{
    let cleared = without::<Annotation>(s, id);
    let start = (cleared, used);
    let step = annotation_step(id, env);
    each_prefix(v, j as nat, v.len(), start, step);
    each_prefix(v, j as nat + 1, v.len(), start, step);
    let t = each(v, j as nat, start, step)->Ok_0;
    assert(step(t, v[j]) == annotation_one(t, v[j], id, env));
    note_row(t, v[j], id, env);
    let now = annotation_one(t, v[j], id, env)->Ok_0.0;
    let y = choose|y: Seq<char>| #[trigger] note_lands(t.0, now, v[j], id, env, y);
    assert(y == x);
    let inv = |u: (Seq<AnnotationV>, nat)|
        has::<Annotation>(u.0, x) && forall|k: int|
            0 <= k < u.0.len() && (#[trigger] u.0[k]).id == x ==> note_says(
                u.0[k],
                v[j],
                id,
                env,
            );
    assert forall|u: (Seq<AnnotationV>, nat), m: int|
        j + 1 <= m < v.len() && inv(u) && (#[trigger] step(u, v[m])) is Ok implies inv(
        step(u, v[m])->Ok_0,
    ) by {
        assert(step(u, v[m]) == annotation_one(u, v[m], id, env));
        note_row(u, v[m], id, env);
        let r = annotation_one(u, v[m], id, env)->Ok_0.0;
        let y = choose|y: Seq<char>| #[trigger] note_lands(u.0, r, v[m], id, env, y);
        assert(v[m].get("id"@) != v[j].get("id"@));
        assert(y != x);
        let k = choose|k: int| 0 <= k < u.0.len() && Annotation::id_of(#[trigger] u.0[k]) == x;
        assert(u.0[k].id == x);
        assert(r.contains(u.0[k]));
        let q = choose|q: int| 0 <= q < r.len() && r[q] == u.0[k];
        assert(Annotation::id_of(r[q]) == x);
        assert forall|k: int| 0 <= k < r.len() && (#[trigger] r[k]).id == x implies note_says(
            r[k],
            v[j],
            id,
            env,
        ) by {
            assert(u.0.contains(r[k]));
            let q = choose|q: int| 0 <= q < u.0.len() && u.0[q] == r[k];
            assert(u.0[q].id == x);
        }
    }
    each_from(v, j as nat + 1, v.len(), start, step, inv);
}

/// Once a task's notes are in, those it has are those its row lists: each is
/// of one of the rows, and a task whose row lists none has none.
#[verifier::rlimit(40)]
pub proof fn imported_notes_are_those_of_the_rows(
    s: Seq<AnnotationV>,
    used: nat,
    tv: JsonV,
    id: Seq<char>,
    env: EnvV,
    k: int,
)
    requires
        annotations_done(s, used, tv, id, env) is Ok,
        0 <= k < annotations_done(s, used, tv, id, env)->Ok_0.0.len(),
        annotations_done(s, used, tv, id, env)->Ok_0.0[k].task_id == id,
    ensures
        tv.get("annotations"@) matches Some(JsonV::Arr(v)) && exists|m: int| #![trigger v[m]]
            0 <= m < v.len() && note_says(
                annotations_done(s, used, tv, id, env)->Ok_0.0[k],
                v[m],
                id,
                env,
            ),
{
    let cleared = without::<Annotation>(s, id);
    cleared_of::<Annotation>(s, id);
    let r = annotations_done(s, used, tv, id, env)->Ok_0.0;
    if let Some(JsonV::Arr(v)) = tv.get("annotations"@) {
        let start = (cleared, used);
        note_of_rows(v, v.len(), start, id, env);
        assert(note_listed(r[k], v, v.len(), id, env));
    } else {
        assert(cleared[k].task_id == id);
        assert(Annotation::owner_of(cleared[k]) == id);
    }
}

spec fn note_listed(a: AnnotationV, v: Seq<JsonV>, n: nat, id: Seq<char>, env: EnvV) -> bool {
    exists|m: int| #![trigger v[m]] 0 <= m < n && note_says(a, v[m], id, env)
}

#[verifier::rlimit(40)]
proof fn note_of_rows(v: Seq<JsonV>, n: nat, start: (Seq<AnnotationV>, nat), id: Seq<char>, env: EnvV)
    requires
        n <= v.len(),
        each(v, n, start, annotation_step(id, env)) is Ok,
        forall|k: int| 0 <= k < start.0.len() ==> Annotation::owner_of(#[trigger] start.0[k]) != id,
    ensures
        forall|k: int|
            0 <= k < each(v, n, start, annotation_step(id, env))->Ok_0.0.len() && (#[trigger] each(
                v,
                n,
                start,
                annotation_step(id, env),
            )->Ok_0.0[k]).task_id == id ==> note_listed(
                each(v, n, start, annotation_step(id, env))->Ok_0.0[k],
                v,
                n,
                id,
                env,
            ),
    decreases n,
{
    let step = annotation_step(id, env);
    if n > 0 {
        let b = (n - 1) as nat;
        each_prefix(v, b, n, start, step);
        note_of_rows(v, b, start, id, env);
        let t = each(v, b, start, step)->Ok_0;
        assert(step(t, v[n - 1]) == annotation_one(t, v[n - 1], id, env));
        note_row(t, v[n - 1], id, env);
        let r = each(v, n, start, step)->Ok_0.0;
        let y = choose|y: Seq<char>| #[trigger] note_lands(t.0, r, v[n - 1], id, env, y);
        assert forall|k: int| 0 <= k < r.len() && (#[trigger] r[k]).task_id == id implies note_listed(
            r[k],
            v,
            n,
            id,
            env,
        ) by {
            if r[k].id == y {
                assert(note_says(r[k], v[n - 1], id, env));
            } else {
                let q = choose|q: int| 0 <= q < t.0.len() && t.0[q] == r[k];
                assert(note_listed(t.0[q], v, b, id, env));
                let m = choose|m: int|
                    #![trigger v[m]]
                    0 <= m < b && note_says(t.0[q], v[m], id, env);
                assert(v[m] == v[m]);
            }
        }
    } else {
        assert forall|k: int| 0 <= k < start.0.len() implies (#[trigger] start.0[k]).task_id != id by {
            assert(Annotation::owner_of(start.0[k]) != id);
        }
    }
}

/// The notes of other tasks stay as they are, but for one whose id a row
/// names: that one is the row's from then on.
#[verifier::rlimit(40)]
pub proof fn notes_of_others_stay(
    s: Seq<AnnotationV>,
    used: nat,
    tv: JsonV,
    id: Seq<char>,
    env: EnvV,
    k: int,
)
    requires
        annotations_done(s, used, tv, id, env) is Ok,
        0 <= k < s.len(),
        s[k].task_id != id,
        !env.log.ids.contains(s[k].id),
        tv.get("annotations"@) matches Some(JsonV::Arr(v)) ==> forall|m: int|
            0 <= m < v.len() ==> (#[trigger] v[m]).get("id"@) != Some(JsonV::Str(s[k].id)),
    ensures
        annotations_done(s, used, tv, id, env)->Ok_0.0.contains(s[k]),
{
    let cleared = without::<Annotation>(s, id);
    cleared_of::<Annotation>(s, id);
    assert(Annotation::owner_of(s[k]) != id);
    let a = s[k];
    if let Some(JsonV::Arr(v)) = tv.get("annotations"@) {
        let start = (cleared, used);
        let step = annotation_step(id, env);
        let inv = |u: (Seq<AnnotationV>, nat)| u.0.contains(a);
        assert forall|u: (Seq<AnnotationV>, nat), m: int|
            0 <= m < v.len() && inv(u) && (#[trigger] step(u, v[m])) is Ok implies inv(
            step(u, v[m])->Ok_0,
        ) by {
            assert(step(u, v[m]) == annotation_one(u, v[m], id, env));
            note_row(u, v[m], id, env);
            let r = annotation_one(u, v[m], id, env)->Ok_0.0;
            let y = choose|y: Seq<char>| #[trigger] note_lands(u.0, r, v[m], id, env, y);
            let q = choose|q: int| 0 <= q < u.0.len() && u.0[q] == a;
            assert(v[m].get("id"@) != Some(JsonV::Str(a.id)));
            assert(u.0[q].id != y);
        }
        assert(inv(start));
        each_from(v, 0, v.len(), start, step, inv);
    }
}

/// A row that names its id is one of the task's criteria from then on, as the
/// last row with that id says.
#[verifier::rlimit(40)]
pub proof fn imported_criteria_say_what_their_rows_say(
    s: Seq<CheckV>,
    used: nat,
    tv: JsonV,
    id: Seq<char>,
    env: EnvV,
    v: Seq<JsonV>,
    j: int,
    x: Seq<char>,
)
    requires
        checks_done(s, used, tv, id, env) is Ok,
        tv.get("checks"@) == Some(JsonV::Arr(v)),
        0 <= j < v.len(),
        v[j].get("id"@) == Some(JsonV::Str(x)),
        last_with(v, j, "id"@),
        !env.log.ids.contains(x),
    ensures
        ({
            let r = checks_done(s, used, tv, id, env)->Ok_0.0;
            &&& has::<Check>(r, x)
            &&& forall|k: int|
                0 <= k < r.len() && (#[trigger] r[k]).id == x ==> criterion_says(
                    r[k],
                    v[j],
                    id,
                    env, j as nat,
                )
        }),
{
    let cleared = without::<Check>(s, id);
    let start = (cleared, used, 0nat);
    let step = check_step(id, env);
    each_prefix(v, j as nat, v.len(), start, step);
    each_prefix(v, j as nat + 1, v.len(), start, step);
    let t = each(v, j as nat, start, step)->Ok_0;
    assert(step(t, v[j]) == check_one(t, v[j], id, env));
    places_count(v, j as nat, start, id, env);
    criterion_row(t, v[j], id, env);
    let now = check_one(t, v[j], id, env)->Ok_0.0;
    let y = choose|y: Seq<char>| #[trigger] criterion_lands(t.0, now, v[j], id, env, t.2, y);
    assert(y == x);
    let inv = |u: (Seq<CheckV>, nat, nat)|
        has::<Check>(u.0, x) && forall|k: int|
            0 <= k < u.0.len() && (#[trigger] u.0[k]).id == x ==> criterion_says(
                u.0[k],
                v[j],
                id,
                env, j as nat,
            );
    assert forall|u: (Seq<CheckV>, nat, nat), m: int|
        j + 1 <= m < v.len() && inv(u) && (#[trigger] step(u, v[m])) is Ok implies inv(
        step(u, v[m])->Ok_0,
    ) by {
        assert(step(u, v[m]) == check_one(u, v[m], id, env));
        criterion_row(u, v[m], id, env);
        let r = check_one(u, v[m], id, env)->Ok_0.0;
        let y = choose|y: Seq<char>| #[trigger] criterion_lands(u.0, r, v[m], id, env, u.2, y);
        assert(v[m].get("id"@) != v[j].get("id"@));
        assert(y != x);
        let k = choose|k: int| 0 <= k < u.0.len() && Check::id_of(#[trigger] u.0[k]) == x;
        assert(u.0[k].id == x);
        assert(r.contains(u.0[k]));
        let q = choose|q: int| 0 <= q < r.len() && r[q] == u.0[k];
        assert(Check::id_of(r[q]) == x);
        assert forall|k: int| 0 <= k < r.len() && (#[trigger] r[k]).id == x implies criterion_says(
            r[k],
            v[j],
            id,
            env, j as nat,
        ) by {
            assert(u.0.contains(r[k]));
            let q = choose|q: int| 0 <= q < u.0.len() && u.0[q] == r[k];
            assert(u.0[q].id == x);
        }
    }
    each_from(v, j as nat + 1, v.len(), start, step, inv);
}

/// Once a task's criteria are in, those it has are those its row lists: each is
/// of one of the rows, and a task whose row lists none has none.
#[verifier::rlimit(40)]
pub proof fn imported_criteria_are_those_of_the_rows(
    s: Seq<CheckV>,
    used: nat,
    tv: JsonV,
    id: Seq<char>,
    env: EnvV,
    k: int,
)
    requires
        checks_done(s, used, tv, id, env) is Ok,
        0 <= k < checks_done(s, used, tv, id, env)->Ok_0.0.len(),
        checks_done(s, used, tv, id, env)->Ok_0.0[k].task_id == id,
    ensures
        tv.get("checks"@) matches Some(JsonV::Arr(v)) && exists|m: int| #![trigger v[m]]
            0 <= m < v.len() && criterion_says(
                checks_done(s, used, tv, id, env)->Ok_0.0[k],
                v[m],
                id,
                env, m as nat,
            ),
{
    let cleared = without::<Check>(s, id);
    cleared_of::<Check>(s, id);
    let r = checks_done(s, used, tv, id, env)->Ok_0.0;
    if let Some(JsonV::Arr(v)) = tv.get("checks"@) {
        let start = (cleared, used, 0nat);
        criterion_of_rows(v, v.len(), start, id, env);
        assert(criterion_listed(r[k], v, v.len(), id, env));
    } else {
        assert(cleared[k].task_id == id);
        assert(Check::owner_of(cleared[k]) == id);
    }
}

spec fn criterion_listed(a: CheckV, v: Seq<JsonV>, n: nat, id: Seq<char>, env: EnvV) -> bool {
    exists|m: int| #![trigger v[m]] 0 <= m < n && criterion_says(a, v[m], id, env, m as nat)
}

#[verifier::rlimit(40)]
proof fn criterion_of_rows(v: Seq<JsonV>, n: nat, start: (Seq<CheckV>, nat, nat), id: Seq<char>, env: EnvV)
    requires
        n <= v.len(),
        each(v, n, start, check_step(id, env)) is Ok,
        forall|k: int| 0 <= k < start.0.len() ==> Check::owner_of(#[trigger] start.0[k]) != id,
        start.2 == 0,
    ensures
        forall|k: int|
            0 <= k < each(v, n, start, check_step(id, env))->Ok_0.0.len() && (#[trigger] each(
                v,
                n,
                start,
                check_step(id, env),
            )->Ok_0.0[k]).task_id == id ==> criterion_listed(
                each(v, n, start, check_step(id, env))->Ok_0.0[k],
                v,
                n,
                id,
                env,
            ),
    decreases n,
{
    let step = check_step(id, env);
    if n > 0 {
        let b = (n - 1) as nat;
        each_prefix(v, b, n, start, step);
        criterion_of_rows(v, b, start, id, env);
        let t = each(v, b, start, step)->Ok_0;
        assert(step(t, v[n - 1]) == check_one(t, v[n - 1], id, env));
        places_count(v, b, start, id, env);
        criterion_row(t, v[n - 1], id, env);
        let r = each(v, n, start, step)->Ok_0.0;
        let y = choose|y: Seq<char>| #[trigger] criterion_lands(t.0, r, v[n - 1], id, env, t.2, y);
        assert forall|k: int| 0 <= k < r.len() && (#[trigger] r[k]).task_id == id implies criterion_listed(
            r[k],
            v,
            n,
            id,
            env,
        ) by {
            if r[k].id == y {
                assert(criterion_says(r[k], v[n - 1], id, env, b));
            } else {
                let q = choose|q: int| 0 <= q < t.0.len() && t.0[q] == r[k];
                assert(criterion_listed(t.0[q], v, b, id, env));
                let m = choose|m: int|
                    #![trigger v[m]]
                    0 <= m < b && criterion_says(t.0[q], v[m], id, env, m as nat);
                assert(v[m] == v[m]);
            }
        }
    } else {
        assert forall|k: int| 0 <= k < start.0.len() implies (#[trigger] start.0[k]).task_id != id by {
            assert(Check::owner_of(start.0[k]) != id);
        }
    }
}

/// The criteria of other tasks stay as they are, but for one whose id a row
/// names: that one is the row's from then on.
#[verifier::rlimit(40)]
pub proof fn criteria_of_others_stay(
    s: Seq<CheckV>,
    used: nat,
    tv: JsonV,
    id: Seq<char>,
    env: EnvV,
    k: int,
)
    requires
        checks_done(s, used, tv, id, env) is Ok,
        0 <= k < s.len(),
        s[k].task_id != id,
        !env.log.ids.contains(s[k].id),
        tv.get("checks"@) matches Some(JsonV::Arr(v)) ==> forall|m: int|
            0 <= m < v.len() ==> (#[trigger] v[m]).get("id"@) != Some(JsonV::Str(s[k].id)),
    ensures
        checks_done(s, used, tv, id, env)->Ok_0.0.contains(s[k]),
{
    let cleared = without::<Check>(s, id);
    cleared_of::<Check>(s, id);
    assert(Check::owner_of(s[k]) != id);
    let a = s[k];
    if let Some(JsonV::Arr(v)) = tv.get("checks"@) {
        let start = (cleared, used, 0nat);
        let step = check_step(id, env);
        let inv = |u: (Seq<CheckV>, nat, nat)| u.0.contains(a);
        assert forall|u: (Seq<CheckV>, nat, nat), m: int|
            0 <= m < v.len() && inv(u) && (#[trigger] step(u, v[m])) is Ok implies inv(
            step(u, v[m])->Ok_0,
        ) by {
            assert(step(u, v[m]) == check_one(u, v[m], id, env));
            criterion_row(u, v[m], id, env);
            let r = check_one(u, v[m], id, env)->Ok_0.0;
            let y = choose|y: Seq<char>| #[trigger] criterion_lands(u.0, r, v[m], id, env, u.2, y);
            let q = choose|q: int| 0 <= q < u.0.len() && u.0[q] == a;
            assert(v[m].get("id"@) != Some(JsonV::Str(a.id)));
            assert(u.0[q].id != y);
        }
        assert(inv(start));
        each_from(v, 0, v.len(), start, step, inv);
    }
}

/// A row that names its id is one of the task's measurements from then on, as the
/// last row with that id says.
#[verifier::rlimit(40)]
pub proof fn imported_measurements_say_what_their_rows_say(
    s: Seq<MeasurementV>,
    used: nat,
    tv: JsonV,
    id: Seq<char>,
    env: EnvV,
    v: Seq<JsonV>,
    j: int,
    x: Seq<char>,
)
    requires
        measurements_done(s, used, tv, id, env) is Ok,
        tv.get("tokens"@) == Some(JsonV::Arr(v)),
        0 <= j < v.len(),
        v[j].get("id"@) == Some(JsonV::Str(x)),
        last_with(v, j, "id"@),
        !env.log.ids.contains(x),
    ensures
        ({
            let r = measurements_done(s, used, tv, id, env)->Ok_0.0;
            &&& has::<Measurement>(r, x)
            &&& forall|k: int|
                0 <= k < r.len() && (#[trigger] r[k]).id == x ==> measurement_says(
                    r[k],
                    v[j],
                    id,
                    env,
                )
        }),
{
    let cleared = without::<Measurement>(s, id);
    let start = (cleared, used);
    let step = measurement_step(id, env);
    each_prefix(v, j as nat, v.len(), start, step);
    each_prefix(v, j as nat + 1, v.len(), start, step);
    let t = each(v, j as nat, start, step)->Ok_0;
    assert(step(t, v[j]) == measurement_one(t, v[j], id, env));
    measurement_row(t, v[j], id, env);
    let now = measurement_one(t, v[j], id, env)->Ok_0.0;
    let y = choose|y: Seq<char>| #[trigger] measurement_lands(t.0, now, v[j], id, env, y);
    assert(y == x);
    let inv = |u: (Seq<MeasurementV>, nat)|
        has::<Measurement>(u.0, x) && forall|k: int|
            0 <= k < u.0.len() && (#[trigger] u.0[k]).id == x ==> measurement_says(
                u.0[k],
                v[j],
                id,
                env,
            );
    assert forall|u: (Seq<MeasurementV>, nat), m: int|
        j + 1 <= m < v.len() && inv(u) && (#[trigger] step(u, v[m])) is Ok implies inv(
        step(u, v[m])->Ok_0,
    ) by {
        assert(step(u, v[m]) == measurement_one(u, v[m], id, env));
        measurement_row(u, v[m], id, env);
        let r = measurement_one(u, v[m], id, env)->Ok_0.0;
        let y = choose|y: Seq<char>| #[trigger] measurement_lands(u.0, r, v[m], id, env, y);
        assert(v[m].get("id"@) != v[j].get("id"@));
        assert(y != x);
        let k = choose|k: int| 0 <= k < u.0.len() && Measurement::id_of(#[trigger] u.0[k]) == x;
        assert(u.0[k].id == x);
        assert(r.contains(u.0[k]));
        let q = choose|q: int| 0 <= q < r.len() && r[q] == u.0[k];
        assert(Measurement::id_of(r[q]) == x);
        assert forall|k: int| 0 <= k < r.len() && (#[trigger] r[k]).id == x implies measurement_says(
            r[k],
            v[j],
            id,
            env,
        ) by {
            assert(u.0.contains(r[k]));
            let q = choose|q: int| 0 <= q < u.0.len() && u.0[q] == r[k];
            assert(u.0[q].id == x);
        }
    }
    each_from(v, j as nat + 1, v.len(), start, step, inv);
}

/// Once a task's measurements are in, those it has are those its row lists: each is
/// of one of the rows, and a task whose row lists none has none.
#[verifier::rlimit(40)]
pub proof fn imported_measurements_are_those_of_the_rows(
    s: Seq<MeasurementV>,
    used: nat,
    tv: JsonV,
    id: Seq<char>,
    env: EnvV,
    k: int,
)
    requires
        measurements_done(s, used, tv, id, env) is Ok,
        0 <= k < measurements_done(s, used, tv, id, env)->Ok_0.0.len(),
        measurements_done(s, used, tv, id, env)->Ok_0.0[k].task_id == id,
    ensures
        tv.get("tokens"@) matches Some(JsonV::Arr(v)) && exists|m: int| #![trigger v[m]]
            0 <= m < v.len() && measurement_says(
                measurements_done(s, used, tv, id, env)->Ok_0.0[k],
                v[m],
                id,
                env,
            ),
{
    let cleared = without::<Measurement>(s, id);
    cleared_of::<Measurement>(s, id);
    let r = measurements_done(s, used, tv, id, env)->Ok_0.0;
    if let Some(JsonV::Arr(v)) = tv.get("tokens"@) {
        let start = (cleared, used);
        measurement_of_rows(v, v.len(), start, id, env);
        assert(measurement_listed(r[k], v, v.len(), id, env));
    } else {
        assert(cleared[k].task_id == id);
        assert(Measurement::owner_of(cleared[k]) == id);
    }
}

spec fn measurement_listed(a: MeasurementV, v: Seq<JsonV>, n: nat, id: Seq<char>, env: EnvV) -> bool {
    exists|m: int| #![trigger v[m]] 0 <= m < n && measurement_says(a, v[m], id, env)
}

#[verifier::rlimit(40)]
proof fn measurement_of_rows(v: Seq<JsonV>, n: nat, start: (Seq<MeasurementV>, nat), id: Seq<char>, env: EnvV)
    requires
        n <= v.len(),
        each(v, n, start, measurement_step(id, env)) is Ok,
        forall|k: int| 0 <= k < start.0.len() ==> Measurement::owner_of(#[trigger] start.0[k]) != id,
    ensures
        forall|k: int|
            0 <= k < each(v, n, start, measurement_step(id, env))->Ok_0.0.len() && (#[trigger] each(
                v,
                n,
                start,
                measurement_step(id, env),
            )->Ok_0.0[k]).task_id == id ==> measurement_listed(
                each(v, n, start, measurement_step(id, env))->Ok_0.0[k],
                v,
                n,
                id,
                env,
            ),
    decreases n,
{
    let step = measurement_step(id, env);
    if n > 0 {
        let b = (n - 1) as nat;
        each_prefix(v, b, n, start, step);
        measurement_of_rows(v, b, start, id, env);
        let t = each(v, b, start, step)->Ok_0;
        assert(step(t, v[n - 1]) == measurement_one(t, v[n - 1], id, env));
        measurement_row(t, v[n - 1], id, env);
        let r = each(v, n, start, step)->Ok_0.0;
        let y = choose|y: Seq<char>| #[trigger] measurement_lands(t.0, r, v[n - 1], id, env, y);
        assert forall|k: int| 0 <= k < r.len() && (#[trigger] r[k]).task_id == id implies measurement_listed(
            r[k],
            v,
            n,
            id,
            env,
        ) by {
            if r[k].id == y {
                assert(measurement_says(r[k], v[n - 1], id, env));
            } else {
                let q = choose|q: int| 0 <= q < t.0.len() && t.0[q] == r[k];
                assert(measurement_listed(t.0[q], v, b, id, env));
                let m = choose|m: int|
                    #![trigger v[m]]
                    0 <= m < b && measurement_says(t.0[q], v[m], id, env);
                assert(v[m] == v[m]);
            }
        }
    } else {
        assert forall|k: int| 0 <= k < start.0.len() implies (#[trigger] start.0[k]).task_id != id by {
            assert(Measurement::owner_of(start.0[k]) != id);
        }
    }
}

/// The measurements of other tasks stay as they are, but for one whose id a row
/// names: that one is the row's from then on.
#[verifier::rlimit(40)]
pub proof fn measurements_of_others_stay(
    s: Seq<MeasurementV>,
    used: nat,
    tv: JsonV,
    id: Seq<char>,
    env: EnvV,
    k: int,
)
    requires
        measurements_done(s, used, tv, id, env) is Ok,
        0 <= k < s.len(),
        s[k].task_id != id,
        !env.log.ids.contains(s[k].id),
        tv.get("tokens"@) matches Some(JsonV::Arr(v)) ==> forall|m: int|
            0 <= m < v.len() ==> (#[trigger] v[m]).get("id"@) != Some(JsonV::Str(s[k].id)),
    ensures
        measurements_done(s, used, tv, id, env)->Ok_0.0.contains(s[k]),
{
    let cleared = without::<Measurement>(s, id);
    cleared_of::<Measurement>(s, id);
    assert(Measurement::owner_of(s[k]) != id);
    let a = s[k];
    if let Some(JsonV::Arr(v)) = tv.get("tokens"@) {
        let start = (cleared, used);
        let step = measurement_step(id, env);
        let inv = |u: (Seq<MeasurementV>, nat)| u.0.contains(a);
        assert forall|u: (Seq<MeasurementV>, nat), m: int|
            0 <= m < v.len() && inv(u) && (#[trigger] step(u, v[m])) is Ok implies inv(
            step(u, v[m])->Ok_0,
        ) by {
            assert(step(u, v[m]) == measurement_one(u, v[m], id, env));
            measurement_row(u, v[m], id, env);
            let r = measurement_one(u, v[m], id, env)->Ok_0.0;
            let y = choose|y: Seq<char>| #[trigger] measurement_lands(u.0, r, v[m], id, env, y);
            let q = choose|q: int| 0 <= q < u.0.len() && u.0[q] == a;
            assert(v[m].get("id"@) != Some(JsonV::Str(a.id)));
            assert(u.0[q].id != y);
        }
        assert(inv(start));
        each_from(v, 0, v.len(), start, step, inv);
    }
}

} // verus!
