//! A document that is imported a second time changes no task.

use crate::children::has;
use crate::children::Named;
use crate::children::without;
use crate::engine::EngineV;
use crate::engine::task_by_id;
use crate::engine::task_put;
use crate::error::ErrorV;
use crate::import_children::annotation_one;
use crate::import_children::annotation_step;
use crate::import_children::annotations_done;
use crate::import_children::check_one;
use crate::import_children::check_step;
use crate::import_children::checks_done;
use crate::import_children::each;
use crate::import_children::measurement_one;
use crate::import_children::measurement_step;
use crate::import_children::measurements_done;
use crate::import_numbers::one_row;
use crate::import_numbers::row_id;
use crate::import_numbers::row_number;
use crate::import_read::body_spec;
use crate::import_read::BodyV;
use crate::import_read::EnvV;
use crate::import_read::head_spec;
use crate::import_read::HeadV;
use crate::import_read::task_tags_spec;
use crate::import_rules::merged;
use crate::import_rules::number_settled;
use crate::import_rules::project_settled;
use crate::import_rules::section;
use crate::import_rules::task_mark;
use crate::import_rules::task_one;
use crate::import_rules::Work;
use crate::journal::event_row;
use crate::json::JsonV;
use crate::params::opt_array_spec;
use crate::params::opt_str_array_spec;
use crate::params::opt_str_nonempty_spec;
use crate::rows::Annotation;
use crate::rows::AnnotationV;
use crate::rows::Check;
use crate::rows::CheckV;
use crate::rows::Dependency;
use crate::rows::Event;
use crate::rows::Measurement;
use crate::rows::MeasurementV;
use crate::rows::Project;
use crate::rows::Task;
use crate::rows::TaskV;
use crate::tables::find;
use crate::tables::put;
use crate::types::Entity;
use vstd::prelude::*;

verus! {

broadcast use vstd::string::group_string_axioms;

/// Whether a row gives its id.
pub open spec fn gives_id(v: JsonV) -> bool {
    opt_str_nonempty_spec(v, "id"@) matches Ok(Some(_))
}

/// The id a row gives.
pub open spec fn given_id(v: JsonV) -> Seq<char> {
    opt_str_nonempty_spec(v, "id"@)->Ok_0->0
}

/// Whether a row gives a text under `key`.
pub open spec fn gives(v: JsonV, key: Seq<char>) -> bool {
    opt_str_nonempty_spec(v, key) matches Ok(Some(_))
}

/// Whether every row of a list gives its id.
pub open spec fn all_give_ids(v: Seq<JsonV>) -> bool {
    forall|i: int| 0 <= i < v.len() ==> gives_id(#[trigger] v[i])
}

/// The rows under `key` in a task's row.
pub open spec fn rows_under(tv: JsonV, key: Seq<char>) -> Seq<JsonV> {
    section(opt_array_spec(tv, key))
}

/// Two surroundings of an import that differ in the log alone.
pub open spec fn same_but_log(a: EnvV, b: EnvV) -> bool {
    b == (EnvV { log: b.log, ..a })
}

proof fn notes_again(
    v: Seq<JsonV>,
    n: nat,
    a: (Seq<AnnotationV>, nat),
    b: (Seq<AnnotationV>, nat),
    id: Seq<char>,
    env1: EnvV,
    env2: EnvV,
)
    requires
        n <= v.len(),
        all_give_ids(v),
        each(v, n, a, annotation_step(id, env1)) is Ok,
    ensures
        each(v, n, b, annotation_step(id, env2)) matches Ok(r) && r.1 == b.1,
    decreases n,
{
    if n > 0 {
        let s1 = annotation_step(id, env1);
        let s2 = annotation_step(id, env2);
        notes_again(v, (n - 1) as nat, a, b, id, env1, env2);
        let st1 = each(v, (n - 1) as nat, a, s1)->Ok_0;
        let st2 = each(v, (n - 1) as nat, b, s2)->Ok_0;
        let x = v[n - 1];
        assert(gives_id(x));
        assert(s1(st1, x) == annotation_one(st1, x, id, env1));
        assert(s2(st2, x) == annotation_one(st2, x, id, env2));
    }
}

proof fn checks_again(
    v: Seq<JsonV>,
    n: nat,
    a: (Seq<CheckV>, nat, nat),
    b: (Seq<CheckV>, nat, nat),
    id: Seq<char>,
    env1: EnvV,
    env2: EnvV,
)
    requires
        n <= v.len(),
        all_give_ids(v),
        each(v, n, a, check_step(id, env1)) is Ok,
    ensures
        each(v, n, b, check_step(id, env2)) matches Ok(r) && r.1 == b.1,
    decreases n,
{
    if n > 0 {
        let s1 = check_step(id, env1);
        let s2 = check_step(id, env2);
        checks_again(v, (n - 1) as nat, a, b, id, env1, env2);
        let st1 = each(v, (n - 1) as nat, a, s1)->Ok_0;
        let st2 = each(v, (n - 1) as nat, b, s2)->Ok_0;
        let x = v[n - 1];
        assert(gives_id(x));
        assert(s1(st1, x) == check_one(st1, x, id, env1));
        assert(s2(st2, x) == check_one(st2, x, id, env2));
    }
}

/// A measurement that was accepted once is accepted wherever its id is free.
proof fn measurement_again(
    a: (Seq<MeasurementV>, nat),
    b: (Seq<MeasurementV>, nat),
    x: JsonV,
    id: Seq<char>,
    env1: EnvV,
    env2: EnvV,
)
    requires
        gives_id(x),
        same_but_log(env1, env2),
        measurement_one(a, x, id, env1) is Ok,
    ensures
        !(has::<Measurement>(a.0, given_id(x))),
        measurement_one(a, x, id, env1) matches Ok(r) && r.1 == a.1 && r.0.len() == a.0.len() + 1
            && r.0 == a.0.push(r.0.last()) && r.0.last().id == given_id(x) && r.0.last().task_id
            == id,
        !(has::<Measurement>(b.0, given_id(x))) ==> (measurement_one(b, x, id, env2) matches Ok(r)
            && r.1 == b.1 && r.0 == b.0.push(r.0.last()) && r.0.last().id == given_id(x)
            && r.0.last().task_id == id),
{
    let r = measurement_one(a, x, id, env1)->Ok_0;
    assert(r.0.last() == r.0[a.0.len() as int]);
    if !(has::<Measurement>(b.0, given_id(x))) {
        let q = measurement_one(b, x, id, env2);
        assert(q is Ok);
        assert(q->Ok_0.0.last() == q->Ok_0.0[b.0.len() as int]);
    }
}

/// What the measurements of a task's row add to a table: rows of that task,
/// each under its own id.
pub open spec fn adds_measurements(
    c: Seq<MeasurementV>,
    r: Seq<MeasurementV>,
    v: Seq<JsonV>,
    n: nat,
    id: Seq<char>,
) -> bool {
    &&& r.len() == c.len() + n
    &&& forall|k: int| 0 <= k < c.len() ==> #[trigger] r[k] == c[k]
    &&& forall|k: int|
        0 <= k < n ==> r[c.len() + k].id == given_id(#[trigger] v[k]) && r[c.len() + k].task_id
            == id
}

/// Whether the rows of a list give different ids, none of which is in a table.
pub open spec fn ids_are_new(c: Seq<MeasurementV>, v: Seq<JsonV>, n: nat) -> bool {
    &&& forall|i: int, j: int|
        0 <= i < j < n ==> given_id(#[trigger] v[i]) != given_id(#[trigger] v[j])
    &&& forall|i: int, k: int|
        0 <= i < n && 0 <= k < c.len() ==> given_id(#[trigger] v[i]) != (#[trigger] c[k]).id
}

proof fn measurements_first(
    v: Seq<JsonV>,
    n: nat,
    c: Seq<MeasurementV>,
    used: nat,
    id: Seq<char>,
    env: EnvV,
)
    requires
        n <= v.len(),
        all_give_ids(v),
        each(v, n, (c, used), measurement_step(id, env)) is Ok,
    ensures
        each(v, n, (c, used), measurement_step(id, env)) matches Ok(r) && r.1 == used
            && adds_measurements(c, r.0, v, n, id),
        ids_are_new(c, v, n),
    decreases n,
{
    if n > 0 {
        let m = (n - 1) as nat;
        let s = measurement_step(id, env);
        measurements_first(v, m, c, used, id, env);
        let st = each(v, m, (c, used), s)->Ok_0;
        let x = v[n - 1];
        assert(gives_id(x));
        assert(s(st, x) == measurement_one(st, x, id, env));
        measurement_again(st, st, x, id, env, env);
        assert forall|i: int, j: int| 0 <= i < j < n implies given_id(#[trigger] v[i]) != given_id(
            #[trigger] v[j],
        ) by {
            if j == m {
                assert(st.0[c.len() + i].id == given_id(v[i]));
            }
        }
        assert forall|i: int, k: int| 0 <= i < n && 0 <= k < c.len() implies given_id(
            #[trigger] v[i],
        ) != (#[trigger] c[k]).id by {
            if i == m {
                assert(st.0[k] == c[k]);
            }
        }
    }
}

proof fn measurements_second(
    v: Seq<JsonV>,
    n: nat,
    a: (Seq<MeasurementV>, nat),
    c: Seq<MeasurementV>,
    used: nat,
    id: Seq<char>,
    env1: EnvV,
    env2: EnvV,
)
    requires
        n <= v.len(),
        all_give_ids(v),
        same_but_log(env1, env2),
        each(v, n, a, measurement_step(id, env1)) is Ok,
        ids_are_new(c, v, n),
    ensures
        each(v, n, (c, used), measurement_step(id, env2)) matches Ok(r) && r.1 == used
            && adds_measurements(c, r.0, v, n, id),
    decreases n,
{
    if n > 0 {
        let m = (n - 1) as nat;
        let s1 = measurement_step(id, env1);
        let s2 = measurement_step(id, env2);
        measurements_second(v, m, a, c, used, id, env1, env2);
        let st1 = each(v, m, a, s1)->Ok_0;
        let st2 = each(v, m, (c, used), s2)->Ok_0;
        let x = v[n - 1];
        assert(gives_id(x));
        assert(s1(st1, x) == measurement_one(st1, x, id, env1));
        assert(s2(st2, x) == measurement_one(st2, x, id, env2));
        assert forall|k: int| 0 <= k < st2.0.len() implies <Measurement as Named>::id_of(#[trigger] st2.0[k])
            != given_id(x) by {
            if k < c.len() {
                assert(st2.0[k] == c[k]);
            } else {
                let i = k - c.len();
                assert(st2.0[c.len() + i].id == given_id(v[i]));
            }
        }
        measurement_again(st1, st2, x, id, env1, env2);
    }
}

/// Whether a task's row spells out what an import would else make up.
pub open spec fn spelled_out(tv: JsonV) -> bool {
    &&& gives(tv, "created"@)
    &&& gives(tv, "modified"@)
    &&& all_give_ids(rows_under(tv, "annotations"@))
    &&& all_give_ids(rows_under(tv, "checks"@))
    &&& all_give_ids(rows_under(tv, "tokens"@))
}

#[verifier::rlimit(40)]
proof fn body_again(tv: JsonV, id: Seq<char>, env1: EnvV, env2: EnvV)
    requires
        same_but_log(env1, env2),
        gives(tv, "created"@),
        gives(tv, "modified"@),
        body_spec(tv, id, env1) is Ok,
    ensures
        body_spec(tv, id, env2) == body_spec(tv, id, env1),
{
}

/// A row merged into itself is that row.
proof fn merged_again(
    stored: Option<TaskV>,
    id: Seq<char>,
    number: i64,
    h: HeadV,
    b: BodyV,
    tags: Seq<Seq<char>>,
    env1: EnvV,
    env2: EnvV,
)
    ensures
        ({
            let row = merged(stored, id, number, h, b, tags, env1);
            merged(Some(row), id, number, h, b, tags, env2) == row
        }),
{
}

/// The rows of a task that was accepted once are accepted again.
#[verifier::rlimit(40)]
proof fn children_again(
    e1: EngineV,
    used1: nat,
    e2: EngineV,
    used2: nat,
    tv: JsonV,
    id: Seq<char>,
    env1: EnvV,
    env2: EnvV,
)
    requires
        same_but_log(env1, env2),
        spelled_out(tv),
        annotations_done(e1.annotations, used1, tv, id, env1) is Ok,
        checks_done(
            e1.checks,
            annotations_done(e1.annotations, used1, tv, id, env1)->Ok_0.1,
            tv,
            id,
            env1,
        ) is Ok,
        ({
            let u = annotations_done(e1.annotations, used1, tv, id, env1)->Ok_0.1;
            let w = checks_done(e1.checks, u, tv, id, env1)->Ok_0.1;
            measurements_done(e1.measurements, w, tv, id, env1) is Ok
        }),
        ids_are_new(
            without::<Measurement>(e2.measurements, id),
            rows_under(tv, "tokens"@),
            rows_under(tv, "tokens"@).len(),
        ),
    ensures
        annotations_done(e2.annotations, used2, tv, id, env2) matches Ok(r) && r.1 == used2,
        checks_done(e2.checks, used2, tv, id, env2) matches Ok(r) && r.1 == used2,
        measurements_done(e2.measurements, used2, tv, id, env2) matches Ok(r) && r.1 == used2
            && adds_measurements(
            without::<Measurement>(e2.measurements, id),
            r.0,
            rows_under(tv, "tokens"@),
            rows_under(tv, "tokens"@).len(),
            id,
        ),
{
    let na = rows_under(tv, "annotations"@);
    let nc = rows_under(tv, "checks"@);
    let nt = rows_under(tv, "tokens"@);
    let u = annotations_done(e1.annotations, used1, tv, id, env1)->Ok_0.1;
    let w = checks_done(e1.checks, u, tv, id, env1)->Ok_0.1;
    if opt_array_spec(tv, "annotations"@)->Ok_0 is Some {
        notes_again(
            na,
            na.len(),
            (without::<Annotation>(e1.annotations, id), used1),
            (without::<Annotation>(e2.annotations, id), used2),
            id,
            env1,
            env2,
        );
    }
    if opt_array_spec(tv, "checks"@)->Ok_0 is Some {
        checks_again(
            nc,
            nc.len(),
            (without::<Check>(e1.checks, id), u, 0nat),
            (without::<Check>(e2.checks, id), used2, 0nat),
            id,
            env1,
            env2,
        );
    }
    if opt_array_spec(tv, "tokens"@)->Ok_0 is Some {
        measurements_second(
            nt,
            nt.len(),
            (without::<Measurement>(e1.measurements, id), w),
            without::<Measurement>(e2.measurements, id),
            used2,
            id,
            env1,
            env2,
        );
    }
}

/// What a row did to the measurements: those of its task are its own, under
/// ids that no other row had.
#[verifier::rlimit(40)]
pub proof fn measurements_of_row(w: Work, tv: JsonV, declared: bool, env: EnvV)
    requires
        task_one(w, tv, declared, env) is Ok,
        all_give_ids(rows_under(tv, "tokens"@)),
    ensures
        ({
            let r = task_one(w, tv, declared, env)->Ok_0;
            let id = row_id(tv);
            let nt = rows_under(tv, "tokens"@);
            let c = without::<Measurement>(w.e.measurements, id);
            adds_measurements(c, r.e.measurements, nt, nt.len(), id) && ids_are_new(
                c,
                nt,
                nt.len(),
            )
        }),
{
    let id = row_id(tv);
    let nt = rows_under(tv, "tokens"@);
    let head = head_spec(tv, id)->Ok_0;
    let begun = Work { written: w.written.push(id), ..w };
    let settled = project_settled(begun, id, head.project, declared, env)->Ok_0;
    let n = number_settled(settled, id, row_number(tv))->Ok_0.0;
    assert(n.e.measurements == w.e.measurements);
    let u = annotations_done(n.e.annotations, n.used, tv, id, env)->Ok_0.1;
    let x = checks_done(n.e.checks, u, tv, id, env)->Ok_0.1;
    let c = without::<Measurement>(w.e.measurements, id);
    if opt_array_spec(tv, "tokens"@)->Ok_0 is Some {
        measurements_first(nt, nt.len(), c, x, id, env);
    }
}

/// A task's row that came in once comes in again, and changes no task.
#[verifier::rlimit(60)]
#[verifier::spinoff_prover]
pub proof fn task_again(
    w1: Work,
    w2: Work,
    tv: JsonV,
    declared: bool,
    env1: EnvV,
    env2: EnvV,
    stored: Option<TaskV>,
    number: i64,
)
    requires
        task_one(w1, tv, declared, env1) is Ok,
        same_but_log(env1, env2),
        spelled_out(tv),
        ({
            let id = row_id(tv);
            let row = merged(
                stored,
                id,
                number,
                head_spec(tv, id)->Ok_0,
                body_spec(tv, id, env1)->Ok_0,
                task_tags_spec(tv)->Ok_0,
                env1,
            );
            &&& task_by_id(w2.e.tasks, id) == Some(row)
            &&& task_put(w2.e.tasks, row) == w2.e.tasks
            &&& !w2.written.contains(id)
            &&& (row.project matches Some(p) ==> find::<Project>(w2.e.projects, p) is Some)
            &&& ids_are_new(
                without::<Measurement>(w2.e.measurements, id),
                rows_under(tv, "tokens"@),
                rows_under(tv, "tokens"@).len(),
            )
        }),
        w2.used < env2.log.ids.len(),
        find::<Event>(w2.e.events, env2.log.ids[w2.used as int]) is None,
    ensures
        task_one(w2, tv, declared, env2) matches Ok(r) && ({
            let id = row_id(tv);
            let nt = rows_under(tv, "tokens"@);
            &&& r == (Work {
                e: EngineV {
                    annotations: r.e.annotations,
                    checks: r.e.checks,
                    measurements: r.e.measurements,
                    dependencies: without::<Dependency>(w2.e.dependencies, id),
                    events: put::<Event>(
                        w2.e.events,
                        event_row(
                            env2.log.ids[w2.used as int],
                            Entity::Task,
                            id,
                            "import"@,
                            task_mark(number),
                            env2.log,
                        ),
                    ),
                    ..w2.e
                },
                used: w2.used + 1,
                written: w2.written.push(id),
                edges: w2.edges.push((id, opt_str_array_spec(tv, "depends_on"@)->Ok_0)),
                ..w2
            })
            &&& adds_measurements(
                without::<Measurement>(w2.e.measurements, id),
                r.e.measurements,
                nt,
                nt.len(),
                id,
            )
        }),
{
    let id = row_id(tv);
    let head = head_spec(tv, id)->Ok_0;
    let body = body_spec(tv, id, env1)->Ok_0;
    let tags = task_tags_spec(tv)->Ok_0;
    one_row(w1, tv, declared, env1);
    body_again(tv, id, env1, env2);
    merged_again(stored, id, number, head, body, tags, env1, env2);
    let begun1 = Work { written: w1.written.push(id), ..w1 };
    let settled1 = project_settled(begun1, id, head.project, declared, env1)->Ok_0;
    let n1 = number_settled(settled1, id, row_number(tv))->Ok_0.0;
    let begun2 = Work { written: w2.written.push(id), ..w2 };
    assert(project_settled(begun2, id, head.project, declared, env2) == Ok::<Work, ErrorV>(
        begun2,
    ));
    assert(number_settled(begun2, id, row_number(tv)) == Ok::<(Work, i64), ErrorV>(
        (begun2, number),
    ));
    children_again(n1.e, n1.used, w2.e, w2.used, tv, id, env1, env2);
}

} // verus!
