//! The order of a document's tasks: swapping two of them changes neither
//! whether the document is accepted nor what its tasks become.

use crate::children::without;
use crate::engine::EngineV;
use crate::engine::nothing;
use crate::engine::task_by_id;
use crate::error::ErrorV;
use crate::import_again::given_id;
use crate::import_again::gives_id;
use crate::import_again::rows_under;
use crate::import_children::annotation_one;
use crate::import_children::annotation_step;
use crate::import_children::annotations_done;
use crate::import_children::check_one;
use crate::import_children::check_step;
use crate::import_children::checks_done;
use crate::import_children::each;
use crate::import_children::measurements_done;
use crate::import_ids::ids_for_task;
use crate::import_ids::ids_for_tasks;
use crate::import_laws::each_prefix;
use crate::import_numbers::all_numbered;
use crate::import_numbers::claims_tell;
use crate::import_numbers::highest_of_both;
use crate::import_numbers::movers;
use crate::import_numbers::moves;
use crate::import_numbers::numbered;
use crate::import_numbers::numbers_are_below;
use crate::import_numbers::one_more_numbered;
use crate::import_numbers::one_row;
use crate::import_numbers::row_id;
use crate::import_numbers::row_number;
use crate::import_numbers::rows_are_read;
use crate::import_numbers::swapped_rows_give_the_same_tasks;
use crate::import_numbers::turn_changes_no_number;
use crate::import_read::body_spec;
use crate::import_read::EnvV;
use crate::import_read::head_spec;
use crate::import_read::shape_spec;
use crate::import_read::task_tags_spec;
use crate::import_repeat::ids_listed;
use crate::import_repeat::row_effect;
use crate::import_repeat::tokens_of;
use crate::import_rules::claim_of;
use crate::import_rules::claims_spec;
use crate::import_rules::first_claim;
use crate::import_rules::inferred_mark;
use crate::import_rules::number_settled;
use crate::import_rules::project_settled;
use crate::import_rules::project_written;
use crate::import_rules::raised;
use crate::import_rules::task_id_spec;
use crate::import_rules::task_keys;
use crate::import_rules::task_mark;
use crate::import_rules::task_one;
use crate::import_rules::task_step;
use crate::import_rules::task_written;
use crate::import_rules::tasks_in;
use crate::import_rules::Work;
use crate::import_tokens::given_apart;
use crate::import_tokens::held_by_givers;
use crate::import_tokens::hold_given;
use crate::import_tokens::ids_are_apart;
use crate::import_tokens::measured_from;
use crate::import_tokens::measured_from_one_more;
use crate::import_tokens::next_tokens_are_new;
use crate::import_tokens::tokens_anywhere;
use crate::import_tokens::tokens_of_row;
use crate::import_tokens::tokens_once_more;
use crate::import_tokens::unlike_given;
use crate::import_tokens::unlike_stored;
use crate::import_twice::ids_left;
use crate::import_twice::ids_stay_left;
use crate::journal::event_row;
use crate::json::JsonV;
use crate::params::opt_array_spec;
use crate::params::opt_i64_spec;
use crate::params::opt_str_array_spec;
use crate::params::req_i64_spec;
use crate::rows::Annotation;
use crate::rows::AnnotationV;
use crate::rows::Check;
use crate::rows::CheckV;
use crate::rows::Event;
use crate::rows::Measurement;
use crate::rows::Project;
use crate::rows::Task;
use crate::rows::TaskV;
use crate::tables::find;
use crate::types::Entity;
use vstd::prelude::*;

verus! {

broadcast use vstd::string::group_string_axioms;

/// What a task's row has to be to come in, whatever the store holds, where fresh
/// ids are left from `used` on.
#[verifier::opaque]
pub open spec fn well_read(tv: JsonV, used: nat, env: EnvV) -> bool {
    let id = row_id(tv);
    &&& task_id_spec(tv) is Ok
    &&& shape_spec("task "@ + id + ", "@, "task"@, tv, task_keys()) is Ok
    &&& req_i64_spec(tv, "short_id"@) is Ok
    &&& 1 <= row_number(tv) < i64::MAX
    &&& head_spec(tv, id) is Ok
    &&& body_spec(tv, id, env) is Ok
    &&& task_tags_spec(tv) is Ok
    &&& opt_str_array_spec(tv, "depends_on"@) is Ok
    &&& annotations_done(Seq::empty(), used, tv, id, env) is Ok
    &&& checks_done(Seq::empty(), used, tv, id, env) is Ok
    &&& measurements_done(Seq::empty(), used, tv, id, env) is Ok
}

proof fn notes_anywhere(
    v: Seq<JsonV>,
    n: nat,
    a: (Seq<AnnotationV>, nat),
    b: (Seq<AnnotationV>, nat),
    id: Seq<char>,
    env: EnvV,
)
    requires
        n <= v.len(),
        b.1 + n <= env.log.ids.len(),
        each(v, n, a, annotation_step(id, env)) is Ok,
    ensures
        each(v, n, b, annotation_step(id, env)) matches Ok(r) && b.1 <= r.1 <= b.1 + n,
    decreases n,
{
    if n > 0 {
        let s = annotation_step(id, env);
        notes_anywhere(v, (n - 1) as nat, a, b, id, env);
        let st1 = each(v, (n - 1) as nat, a, s)->Ok_0;
        let st2 = each(v, (n - 1) as nat, b, s)->Ok_0;
        let x = v[n - 1];
        assert(s(st1, x) == annotation_one(st1, x, id, env));
        assert(s(st2, x) == annotation_one(st2, x, id, env));
    }
}

proof fn checks_anywhere(
    v: Seq<JsonV>,
    n: nat,
    a: (Seq<CheckV>, nat, nat),
    b: (Seq<CheckV>, nat, nat),
    id: Seq<char>,
    env: EnvV,
)
    requires
        n <= v.len(),
        b.1 + n <= env.log.ids.len(),
        each(v, n, a, check_step(id, env)) is Ok,
    ensures
        each(v, n, b, check_step(id, env)) matches Ok(r) && b.1 <= r.1 <= b.1 + n,
    decreases n,
{
    if n > 0 {
        let s = check_step(id, env);
        checks_anywhere(v, (n - 1) as nat, a, b, id, env);
        let st1 = each(v, (n - 1) as nat, a, s)->Ok_0;
        let st2 = each(v, (n - 1) as nat, b, s)->Ok_0;
        let x = v[n - 1];
        assert(s(st1, x) == check_one(st1, x, id, env));
        assert(s(st2, x) == check_one(st2, x, id, env));
    }
}

/// The notes and the criteria of a row that were accepted once are accepted
/// wherever enough ids are left.
proof fn rows_anywhere(
    e1: EngineV,
    u1: nat,
    c1: nat,
    e2: EngineV,
    u2: nat,
    c2: nat,
    tv: JsonV,
    id: Seq<char>,
    env: EnvV,
)
    requires
        u2 + rows_under(tv, "annotations"@).len() <= env.log.ids.len(),
        c2 + rows_under(tv, "checks"@).len() <= env.log.ids.len(),
        annotations_done(e1.annotations, u1, tv, id, env) is Ok,
        checks_done(e1.checks, c1, tv, id, env) is Ok,
    ensures
        annotations_done(e2.annotations, u2, tv, id, env) matches Ok(r) && u2 <= r.1 <= u2
            + rows_under(tv, "annotations"@).len(),
        checks_done(e2.checks, c2, tv, id, env) matches Ok(r) && c2 <= r.1 <= c2 + rows_under(
            tv,
            "checks"@,
        ).len(),
{
    let na = rows_under(tv, "annotations"@);
    let nc = rows_under(tv, "checks"@);
    if opt_array_spec(tv, "annotations"@)->Ok_0 is Some {
        notes_anywhere(
            na,
            na.len(),
            (without::<Annotation>(e1.annotations, id), u1),
            (without::<Annotation>(e2.annotations, id), u2),
            id,
            env,
        );
    }
    if opt_array_spec(tv, "checks"@)->Ok_0 is Some {
        checks_anywhere(
            nc,
            nc.len(),
            (without::<Check>(e1.checks, id), c1, 0nat),
            (without::<Check>(e2.checks, id), c2, 0nat),
            id,
            env,
        );
    }
}

/// A project that a task names leaves the fresh ids after those it took.
proof fn project_keeps_ids(
    w: Work,
    id: Seq<char>,
    project: Option<Seq<char>>,
    declared: bool,
    env: EnvV,
)
    requires
        ids_left(w.e.events, env.log.ids, w.used),
        project matches Some(p) ==> find::<Project>(w.e.projects, p) is Some || !declared,
        w.used + 2 <= env.log.ids.len(),
    ensures
        project_settled(w, id, project, declared, env) matches Ok(r) && ({
            &&& w.used <= r.used <= w.used + 2
            &&& ids_left(r.e.events, env.log.ids, r.used)
            &&& declared ==> r.e.projects == w.e.projects
            &&& r == (Work {
                e: EngineV { projects: r.e.projects, events: r.e.events, ..w.e },
                used: r.used,
                created: r.created,
                ..w
            })
        }),
{
    if let Some(name) = project {
        if find::<Project>(w.e.projects, name) is None {
            let p = project_written(w, name, None, false, env.log.now, None, env)->Ok_0;
            assert(find::<Event>(w.e.events, env.log.ids[w.used as int + 1]) is None);
            assert(ids_left(w.e.events, env.log.ids, w.used + 1));
            ids_stay_left(
                w.e.events,
                env.log.ids,
                w.used + 1,
                event_row(
                    env.log.ids[w.used as int + 1],
                    Entity::Project,
                    p.1,
                    "import"@,
                    inferred_mark(name),
                    env.log,
                ),
            );
        }
    }
}

/// A row that came in is well read, and its project and its task are there as
/// they have to be.
#[verifier::rlimit(40)]
proof fn row_is_read(w: Work, tv: JsonV, declared: bool, env: EnvV, used: nat)
    requires
        task_one(w, tv, declared, env) is Ok,
        used + ids_for_task(tv) <= env.log.ids.len(),
        ids_are_apart(env.log.ids),
        unlike_given(tokens_of(tv), env.log.ids, used),
    ensures
        well_read(tv, used, env),
        head_spec(tv, row_id(tv))->Ok_0.project matches Some(p) ==> find::<Project>(
            w.e.projects,
            p,
        ) is Some || !declared,
{
    let id = row_id(tv);
    let head = head_spec(tv, id)->Ok_0;
    let begun = Work { written: w.written.push(id), ..w };
    let settled = project_settled(begun, id, head.project, declared, env)->Ok_0;
    let n = number_settled(settled, id, row_number(tv))->Ok_0.0;
    let u = annotations_done(n.e.annotations, n.used, tv, id, env)->Ok_0.1;
    let x = checks_done(n.e.checks, u, tv, id, env)->Ok_0.1;
    let none = nothing();
    rows_anywhere(n.e, n.used, u, none, used, used, tv, id, env);
    tokens_anywhere(n.e.measurements, x, Seq::empty(), used, tv, id, env);
    reveal(well_read);
}

/// A row that is well read comes in where its task is not yet written, its
/// project may be made, its number can be given, and its measurements are new.
#[verifier::rlimit(40)]
proof fn row_enters(w: Work, tv: JsonV, declared: bool, env: EnvV, used: nat)
    requires
        well_read(tv, used, env),
        used <= w.used,
        unlike_given(tokens_of(tv), env.log.ids, used),
        unlike_stored(
            without::<Measurement>(w.e.measurements, row_id(tv)),
            env.log.ids,
            w.used,
        ),
        w.used + ids_for_task(tv) <= env.log.ids.len(),
        ids_left(w.e.events, env.log.ids, w.used),
        !w.written.contains(row_id(tv)),
        head_spec(tv, row_id(tv))->Ok_0.project matches Some(p) ==> find::<Project>(
            w.e.projects,
            p,
        ) is Some || !declared,
        moves(w.e.tasks, tv) ==> w.e.next_short_id < i64::MAX,
        task_by_id(w.e.tasks, row_id(tv)) matches Some(t) ==> t.rev <= body_spec(
            tv,
            row_id(tv),
            env,
        )->Ok_0.rev,
        forall|i: int, k: int|
            0 <= i < tokens_of(tv).len() && 0 <= k < without::<Measurement>(
                w.e.measurements,
                row_id(tv),
            ).len() && gives_id(#[trigger] tokens_of(tv)[i]) ==> given_id(tokens_of(tv)[i]) != (
            #[trigger] without::<Measurement>(w.e.measurements, row_id(tv))[k]).id,
    ensures
        task_one(w, tv, declared, env) matches Ok(r) && ({
            &&& w.used <= r.used <= w.used + ids_for_task(tv)
            &&& ids_left(r.e.events, env.log.ids, r.used)
            &&& declared ==> r.e.projects == w.e.projects
        }),
{
    reveal(well_read);
    let id = row_id(tv);
    let head = head_spec(tv, id)->Ok_0;
    let body = body_spec(tv, id, env)->Ok_0;
    let begun = Work { written: w.written.push(id), ..w };
    project_keeps_ids(begun, id, head.project, declared, env);
    let settled = project_settled(begun, id, head.project, declared, env)->Ok_0;
    assert(number_settled(settled, id, row_number(tv)) is Ok);
    let m = number_settled(settled, id, row_number(tv))->Ok_0;
    let n = m.0;
    assert(n.used == settled.used && n.e.events == settled.e.events && n.e.measurements
        == w.e.measurements && n.e.tasks == w.e.tasks && n.e.projects == settled.e.projects);
    let none = nothing();
    rows_anywhere(none, used, used, n.e, n.used, used, tv, id, env);
    let u = annotations_done(n.e.annotations, n.used, tv, id, env)->Ok_0.1;
    rows_anywhere(none, used, used, n.e, n.used, u, tv, id, env);
    let c = checks_done(n.e.checks, u, tv, id, env)->Ok_0.1;
    tokens_anywhere(Seq::empty(), used, n.e.measurements, c, tv, id, env);
    let x = measurements_done(n.e.measurements, c, tv, id, env)->Ok_0.1;
    assert(ids_left(n.e.events, env.log.ids, x));
    assert(find::<Event>(n.e.events, env.log.ids[x as int]) is None);
    ids_stay_left(
        n.e.events,
        env.log.ids,
        x,
        event_row(
            env.log.ids[x as int],
            Entity::Task,
            id,
            "import"@,
            task_mark(m.1),
            env.log,
        ),
    );
    assert(task_written(n, tv, id, m.1, head, body, env) is Ok);
}

/// Whether the measurements of a document's tasks give no id that is among the
/// ids from `used` on.
#[verifier::opaque]
pub open spec fn tokens_are_unlike(v: Seq<JsonV>, ids: Seq<Seq<char>>, used: nat) -> bool {
    forall|i: int| 0 <= i < v.len() ==> unlike_given(tokens_of(#[trigger] v[i]), ids, used)
}

/// What the rows of a document have to be to come in, in any order.
#[verifier::opaque]
pub open spec fn rows_fit(s: Work, v: Seq<JsonV>, declared: bool, env: EnvV) -> bool {
    &&& claims_spec(v, v.len()) is Ok
    &&& given_apart(v, v.len())
    &&& s.e.next_short_id + movers(s.e.tasks, v, v.len()) <= i64::MAX
    &&& forall|i: int, j: int|
        0 <= i < j < v.len() ==> row_id(#[trigger] v[i]) != row_id(#[trigger] v[j])
    &&& forall|i: int| 0 <= i < v.len() ==> row_fits(s, #[trigger] v[i], declared, env)
}

/// What one row has to be to come in, whatever the others are.
#[verifier::opaque]
pub open spec fn row_fits(s: Work, tv: JsonV, declared: bool, env: EnvV) -> bool {
    &&& well_read(tv, s.used, env)
    &&& claim_of(tv) == Some((row_number(tv), row_id(tv)))
    &&& opt_i64_spec(tv, "short_id"@) == Ok::<Option<i64>, ErrorV>(Some(row_number(tv)))
    &&& row_number(tv) < i64::MAX
    &&& (head_spec(tv, row_id(tv))->Ok_0.project matches Some(p) ==> find::<Project>(
        s.e.projects,
        p,
    ) is Some || !declared)
    &&& (task_by_id(s.e.tasks, row_id(tv)) matches Some(t) ==> t.rev <= body_spec(
        tv,
        row_id(tv),
        env,
    )->Ok_0.rev)
}

#[verifier::rlimit(40)]
proof fn declared_projects_stay(w: Work, tv: JsonV, env: EnvV)
    requires
        task_one(w, tv, true, env) is Ok,
    ensures
        task_one(w, tv, true, env)->Ok_0.e.projects == w.e.projects,
{
    let id = row_id(tv);
    let head = head_spec(tv, id)->Ok_0;
    let begun = Work { written: w.written.push(id), ..w };
    let settled = project_settled(begun, id, head.project, true, env)->Ok_0;
    assert(settled == begun);
    let n = number_settled(settled, id, row_number(tv))->Ok_0;
    assert(n.0.e.projects == w.e.projects);
}

/// The rows of a document that is accepted, under way.
#[verifier::opaque]
spec fn run_at(w: Work, s: Work, v: Seq<JsonV>, declared: bool, env: EnvV, n: nat) -> bool {
    &&& numbered(w, s, v, env, n)
    &&& declared ==> w.e.projects == s.e.projects
    &&& s.used <= w.used
    &&& held_by_givers(w.e.measurements, v, n)
    &&& hold_given(w.e.measurements, v, n)
    &&& given_apart(v, n)
}

proof fn run_goes_on(w: Work, s: Work, v: Seq<JsonV>, declared: bool, env: EnvV, n: int)
    requires
        0 <= n < v.len(),
        claims_spec(v, v.len()) is Ok,
        s.used + ids_for_task(v[n]) <= env.log.ids.len(),
        ids_are_apart(env.log.ids),
        tokens_are_unlike(v, env.log.ids, s.used),
        run_at(w, s, v, declared, env, n as nat),
        task_one(w, v[n], declared, env) is Ok,
        forall|i: int| 0 <= i <= n ==> claim_of(#[trigger] v[i]) == Some(
            (row_number(v[i]), row_id(v[i])),
        ),
        row_number(v[n]) < s.e.next_short_id,
    ensures
        run_at(task_one(w, v[n], declared, env)->Ok_0, s, v, declared, env, (n + 1) as nat),
        forall|i: int| 0 <= i < n ==> row_id(#[trigger] v[i]) != row_id(v[n]),
        row_fits(s, v[n], declared, env),
{
    reveal(run_at);
    reveal(row_fits);
    let r = task_one(w, v[n], declared, env)->Ok_0;
    one_row(w, v[n], declared, env);
    turn_changes_no_number(w, s, v, env, n);
    one_more_numbered(w, s, v, declared, env, n);
    reveal(tokens_are_unlike);
    assert(unlike_given(tokens_of(v[n]), env.log.ids, s.used));
    row_is_read(w, v[n], declared, env, s.used);
    tokens_of_row(w, v[n], declared, env);
    assert forall|i: int| 0 <= i <= n implies unlike_given(
        tokens_of(#[trigger] v[i]),
        env.log.ids,
        w.used,
    ) by {
        assert(unlike_given(tokens_of(v[i]), env.log.ids, s.used));
    }
    tokens_once_more(
        w.e.measurements,
        r.e.measurements,
        v,
        n,
        env.log.ids,
        w.used,
        r.used,
    );
    if declared {
        declared_projects_stay(w, v[n], env);
    }
}

/// Every row of a document that is accepted carries a number below the new ones.
proof fn rows_are_claimed(v: Seq<JsonV>, w0: Work, declared: bool, env: EnvV, k: int)
    requires
        0 <= k < v.len(),
        each(v, v.len(), raised(w0, v), task_step(declared, env)) is Ok,
    ensures
        forall|i: int| 0 <= i <= k ==> claim_of(#[trigger] v[i]) == Some(
            (row_number(v[i]), row_id(v[i])),
        ),
        row_number(v[k]) < raised(w0, v).e.next_short_id,
{
    let s = raised(w0, v);
    assert forall|i: int| 0 <= i < v.len() implies claim_of(#[trigger] v[i]) == Some(
        (row_number(v[i]), row_id(v[i])),
    ) && (opt_i64_spec(v[i], "short_id"@) matches Ok(Some(c)) ==> c < i64::MAX) by {
        rows_are_read(v, v.len(), s, declared, env, i);
    }
    rows_are_read(v, v.len(), s, declared, env, k);
    numbers_are_below(w0, v, k);
}

proof fn one_row_runs(
    v: Seq<JsonV>,
    w0: Work,
    w: Work,
    declared: bool,
    env: EnvV,
    k: int,
)
    requires
        0 <= k < v.len(),
        claims_spec(v, v.len()) is Ok,
        each(v, v.len(), raised(w0, v), task_step(declared, env)) is Ok,
        tokens_are_unlike(v, env.log.ids, w0.used),
        ids_are_apart(env.log.ids),
        w0.used + ids_for_tasks(v, v.len()) <= env.log.ids.len(),
        each(v, k as nat, raised(w0, v), task_step(declared, env)) == Ok::<Work, ErrorV>(w),
        run_at(w, raised(w0, v), v, declared, env, k as nat),
    ensures
        each(v, (k + 1) as nat, raised(w0, v), task_step(declared, env)) matches Ok(r) && run_at(
            r,
            raised(w0, v),
            v,
            declared,
            env,
            (k + 1) as nat,
        ),
        forall|i: int| 0 <= i < k ==> row_id(#[trigger] v[i]) != row_id(v[k]),
        row_fits(raised(w0, v), v[k], declared, env),
{
    let s = raised(w0, v);
    let step = task_step(declared, env);
    each_prefix(v, (k + 1) as nat, v.len(), s, step);
    assert(step(w, v[k]) == task_one(w, v[k], declared, env));
    rows_are_claimed(v, w0, declared, env, k);
    one_row_takes_no_more(v, v.len(), k);
    run_goes_on(w, s, v, declared, env, k);
}

proof fn accepted_rows_run(
    v: Seq<JsonV>,
    w0: Work,
    declared: bool,
    env: EnvV,
    n: nat,
)
    requires
        n <= v.len(),
        claims_spec(v, v.len()) is Ok,
        each(v, v.len(), raised(w0, v), task_step(declared, env)) is Ok,
        tokens_are_unlike(v, env.log.ids, w0.used),
        ids_are_apart(env.log.ids),
        w0.used + ids_for_tasks(v, v.len()) <= env.log.ids.len(),
    ensures
        each(v, n, raised(w0, v), task_step(declared, env)) matches Ok(w) && run_at(
            w,
            raised(w0, v),
            v,
            declared,
            env,
            n,
        ),
    decreases n,
{
    if n > 0 {
        let k = n - 1;
        accepted_rows_run(v, w0, declared, env, k as nat);
        let w = each(v, k as nat, raised(w0, v), task_step(declared, env))->Ok_0;
        one_row_runs(v, w0, w, declared, env, k);
    } else {
        run_begins(v, w0, declared, env);
    }
}

proof fn one_row_fits(v: Seq<JsonV>, w0: Work, declared: bool, env: EnvV, k: int)
    requires
        0 <= k < v.len(),
        claims_spec(v, v.len()) is Ok,
        each(v, v.len(), raised(w0, v), task_step(declared, env)) is Ok,
        tokens_are_unlike(v, env.log.ids, w0.used),
        ids_are_apart(env.log.ids),
        w0.used + ids_for_tasks(v, v.len()) <= env.log.ids.len(),
    ensures
        forall|i: int| 0 <= i < k ==> row_id(#[trigger] v[i]) != row_id(v[k]),
        row_fits(raised(w0, v), v[k], declared, env),
{
    accepted_rows_run(v, w0, declared, env, k as nat);
    let w = each(v, k as nat, raised(w0, v), task_step(declared, env))->Ok_0;
    one_row_runs(v, w0, w, declared, env, k);
}

proof fn run_begins(v: Seq<JsonV>, w0: Work, declared: bool, env: EnvV)
    requires
        claims_spec(v, v.len()) is Ok,
        each(v, v.len(), raised(w0, v), task_step(declared, env)) is Ok,
    ensures
        run_at(raised(w0, v), raised(w0, v), v, declared, env, 0),
{
    all_numbered(v, w0, declared, env, 0);
    reveal(run_at);
}

proof fn one_row_takes_no_more(v: Seq<JsonV>, n: nat, i: int)
    requires
        0 <= i < n <= v.len(),
    ensures
        ids_for_task(v[i]) <= ids_for_tasks(v, n),
    decreases n,
{
    if i < n - 1 {
        one_row_takes_no_more(v, (n - 1) as nat, i);
    }
}

/// The rows of a document that is accepted are as they have to be.
proof fn accepted_rows_fit(v: Seq<JsonV>, w: Work, declared: bool, env: EnvV)
    requires
        tasks_in(w, v, declared, env) is Ok,
        tokens_are_unlike(v, env.log.ids, w.used),
        ids_are_apart(env.log.ids),
        w.used + ids_for_tasks(v, v.len()) <= env.log.ids.len(),
    ensures
        rows_fit(raised(w, v), v, declared, env),
{
    reveal(tasks_in);
    let s = raised(w, v);
    accepted_rows_run(v, w, declared, env, v.len());
    assert(given_apart(v, v.len()) && s.e.next_short_id + movers(s.e.tasks, v, v.len())
        <= i64::MAX) by {
        reveal(run_at);
    }
    assert forall|i: int, j: int| 0 <= i < j < v.len() implies row_id(#[trigger] v[i]) != row_id(
        #[trigger] v[j],
    ) by {
        one_row_fits(v, w, declared, env, j);
    }
    assert forall|i: int| 0 <= i < v.len() implies row_fits(s, #[trigger] v[i], declared, env) by {
        one_row_fits(v, w, declared, env, i);
    }
    reveal(rows_fit);
}

proof fn listed_by_a_row(v: Seq<JsonV>, n: nat, id: Seq<char>)
    requires
        n <= v.len(),
        ids_listed(v, n).contains(id),
    ensures
        exists|i: int| 0 <= i < n && row_id(#[trigger] v[i]) == id,
    decreases n,
{
    let l = ids_listed(v, n);
    if n > 0 {
        let b = ids_listed(v, (n - 1) as nat);
        let k = choose|k: int| 0 <= k < l.len() && l[k] == id;
        if k < b.len() {
            assert(b[k] == id);
            listed_by_a_row(v, (n - 1) as nat, id);
        } else {
            assert(row_id(v[n - 1]) == id);
        }
    }
}

proof fn movers_are_left(tasks: Seq<TaskV>, v: Seq<JsonV>, i: nat, n: nat)
    requires
        i <= n <= v.len(),
    ensures
        movers(tasks, v, i) <= movers(tasks, v, n),
    decreases n,
{
    if i < n {
        movers_are_left(tasks, v, i, (n - 1) as nat);
    }
}

/// The rows of a document that fits, under way.
spec fn fit_at(w: Work, s: Work, v: Seq<JsonV>, declared: bool, env: EnvV, n: nat) -> bool {
    &&& numbered(w, s, v, env, n)
    &&& w.written == ids_listed(v, n)
    &&& declared ==> w.e.projects == s.e.projects
    &&& s.used <= w.used <= s.used + ids_for_tasks(v, n)
    &&& ids_left(w.e.events, env.log.ids, w.used)
    &&& measured_from(
        w.e.measurements,
        s.e.measurements,
        v,
        n,
        env.log.ids,
        s.used,
        w.used,
    )
    &&& forall|p: Seq<char>|
        find::<Project>(s.e.projects, p) is Some ==> (#[trigger] find::<Project>(
            w.e.projects,
            p,
        )) is Some
}

#[verifier::rlimit(40)]
proof fn fit_goes_on(w: Work, s: Work, v: Seq<JsonV>, declared: bool, env: EnvV, n: int)
    requires
        0 <= n < v.len(),
        rows_fit(s, v, declared, env),
        fit_at(w, s, v, declared, env, n as nat),
        s.used + ids_for_tasks(v, v.len()) <= env.log.ids.len(),
        tokens_are_unlike(v, env.log.ids, s.used),
        unlike_stored(s.e.measurements, env.log.ids, s.used),
        held_by_givers(s.e.measurements, v, v.len()),
        row_number(v[n]) < s.e.next_short_id,
    ensures
        task_one(w, v[n], declared, env) matches Ok(r) && fit_at(
            r,
            s,
            v,
            declared,
            env,
            (n + 1) as nat,
        ),
{
    reveal(rows_fit);
    reveal(row_fits);
    let tv = v[n];
    assert(row_fits(s, tv, declared, env));
    assert forall|i: int| 0 <= i <= n implies claim_of(#[trigger] v[i]) == Some(
        (row_number(v[i]), row_id(v[i])),
    ) by {
        assert(row_fits(s, v[i], declared, env));
    }
    if w.written.contains(row_id(tv)) {
        listed_by_a_row(v, n as nat, row_id(tv));
        let i = choose|i: int| 0 <= i < n && row_id(#[trigger] v[i]) == row_id(tv);
        assert(row_id(v[i]) != row_id(v[n]));
    }
    turn_changes_no_number(w, s, v, env, n);
    movers_are_left(s.e.tasks, v, (n + 1) as nat, v.len());
    reveal(tokens_are_unlike);
    next_tokens_are_new(
        w.e.measurements,
        s.e.measurements,
        v,
        n,
        env.log.ids,
        s.used,
        w.used,
    );
    more_rows_take_more(v, (n + 1) as nat, v.len());
    row_enters(w, tv, declared, env, s.used);
    let r = task_one(w, tv, declared, env)->Ok_0;
    one_row(w, tv, declared, env);
    one_more_numbered(w, s, v, declared, env, n);
    tokens_of_row(w, tv, declared, env);
    measured_from_one_more(
        w.e.measurements,
        r.e.measurements,
        s.e.measurements,
        v,
        n,
        env.log.ids,
        s.used,
        w.used,
        r.used,
    );
    row_effect(w, tv, declared, env);
    assert forall|p: Seq<char>| find::<Project>(s.e.projects, p) is Some implies (
    #[trigger] find::<Project>(r.e.projects, p)) is Some by {
        assert(find::<Project>(w.e.projects, p) is Some);
        assert(find::<Project>(r.e.projects, p) == find::<Project>(w.e.projects, p));
    }
}

proof fn more_rows_take_more(v: Seq<JsonV>, i: nat, n: nat)
    requires
        i <= n <= v.len(),
    ensures
        ids_for_tasks(v, i) <= ids_for_tasks(v, n),
    decreases n,
{
    if i < n {
        more_rows_take_more(v, i, (n - 1) as nat);
    }
}

proof fn fit_rows_run(v: Seq<JsonV>, w0: Work, declared: bool, env: EnvV, n: nat)
    requires
        n <= v.len(),
        rows_fit(raised(w0, v), v, declared, env),
        w0.written == Seq::<Seq<char>>::empty(),
        w0.used + ids_for_tasks(v, v.len()) <= env.log.ids.len(),
        ids_left(w0.e.events, env.log.ids, w0.used),
        tokens_are_unlike(v, env.log.ids, w0.used),
        unlike_stored(w0.e.measurements, env.log.ids, w0.used),
        held_by_givers(w0.e.measurements, v, v.len()),
    ensures
        each(v, n, raised(w0, v), task_step(declared, env)) matches Ok(w) && fit_at(
            w,
            raised(w0, v),
            v,
            declared,
            env,
            n,
        ),
    decreases n,
{
    let s = raised(w0, v);
    let step = task_step(declared, env);
    if n > 0 {
        let k = n - 1;
        fit_rows_run(v, w0, declared, env, k as nat);
        let w = each(v, k as nat, s, step)->Ok_0;
        assert(step(w, v[k]) == task_one(w, v[k], declared, env));
        assert forall|i: int| 0 <= i < v.len() implies (opt_i64_spec(
            #[trigger] v[i],
            "short_id"@,
        ) matches Ok(Some(c)) ==> c < i64::MAX) by {
            reveal(rows_fit);
            reveal(row_fits);
            assert(row_fits(s, v[i], declared, env));
        }
        assert(opt_i64_spec(v[k], "short_id"@) == Ok::<Option<i64>, ErrorV>(
            Some(row_number(v[k])),
        )) by {
            reveal(rows_fit);
            reveal(row_fits);
            assert(row_fits(s, v[k], declared, env));
        }
        numbers_are_below(w0, v, k);
        fit_goes_on(w, s, v, declared, env, k);
    } else {
        assert forall|k: int| 0 <= k < s.e.measurements.len() implies s.e.measurements.contains(
            #[trigger] s.e.measurements[k],
        ) by {
        }
    }
}

/// A list with two of its rows in each other's place.
pub open spec fn swapped(a: Seq<JsonV>, p: int, q: int) -> Seq<JsonV> {
    a.update(p, a[q]).update(q, a[p])
}

/// Where a row of a list stands once two of them are swapped.
pub open spec fn place_of_row(p: int, q: int, i: int) -> int {
    if i == p {
        q
    } else if i == q {
        p
    } else {
        i
    }
}

/// Where the rows stand once two of them are swapped.
pub proof fn swapped_places(a: Seq<JsonV>, p: int, q: int)
    requires
        0 <= p < a.len(),
        0 <= q < a.len(),
    ensures
        swapped(a, p, q).len() == a.len(),
        forall|i: int|
            0 <= i < a.len() ==> #[trigger] swapped(a, p, q)[i] == a[place_of_row(p, q, i)],
        forall|i: int|
            0 <= i < a.len() ==> swapped(a, p, q)[place_of_row(p, q, i)] == #[trigger] a[i],
        forall|i: int| 0 <= i < a.len() ==> swapped(a, p, q).contains(#[trigger] a[i]),
        forall|i: int| 0 <= i < a.len() ==> a.contains(#[trigger] swapped(a, p, q)[i]),
        swapped(swapped(a, p, q), p, q) =~= a,
{
    let b = swapped(a, p, q);
    assert forall|i: int| 0 <= i < a.len() implies b.contains(#[trigger] a[i]) by {
        assert(b[place_of_row(p, q, i)] == a[i]);
    }
    assert forall|i: int| 0 <= i < a.len() implies a.contains(#[trigger] b[i]) by {
        assert(a[place_of_row(p, q, i)] == b[i]);
    }
}

proof fn movers_with_another(tasks: Seq<TaskV>, v: Seq<JsonV>, p: int, x: JsonV, n: nat)
    requires
        0 <= p < v.len(),
        n <= v.len(),
    ensures
        movers(tasks, v.update(p, x), n) == movers(tasks, v, n) + if p < n {
            (if moves(tasks, x) {
                1int
            } else {
                0int
            }) - (if moves(tasks, v[p]) {
                1int
            } else {
                0int
            })
        } else {
            0int
        },
    decreases n,
{
    if n > 0 {
        movers_with_another(tasks, v, p, x, (n - 1) as nat);
    }
}

proof fn ids_with_another(v: Seq<JsonV>, p: int, x: JsonV, n: nat)
    requires
        0 <= p < v.len(),
        n <= v.len(),
    ensures
        ids_for_tasks(v.update(p, x), n) == ids_for_tasks(v, n) + if p < n {
            ids_for_task(x) - ids_for_task(v[p])
        } else {
            0int
        },
    decreases n,
{
    if n > 0 {
        ids_with_another(v, p, x, (n - 1) as nat);
    }
}

/// Swapped rows need as many ids, and as many of them have to move.
proof fn swapped_sums(tasks: Seq<TaskV>, a: Seq<JsonV>, p: int, q: int)
    requires
        0 <= p < a.len(),
        0 <= q < a.len(),
    ensures
        movers(tasks, swapped(a, p, q), a.len()) == movers(tasks, a, a.len()),
        ids_for_tasks(swapped(a, p, q), a.len()) == ids_for_tasks(a, a.len()),
{
    let m = a.update(p, a[q]);
    movers_with_another(tasks, a, p, a[q], a.len());
    movers_with_another(tasks, m, q, a[p], a.len());
    ids_with_another(a, p, a[q], a.len());
    ids_with_another(m, q, a[p], a.len());
}

proof fn nobody_claims(v: Seq<JsonV>, n: nat, c: i64)
    requires
        n <= v.len(),
        forall|i: int|
            0 <= i < n ==> (claim_of(#[trigger] v[i]) matches Some(x) ==> x.0 != c),
    ensures
        first_claim(v, n, c) is None,
    decreases n,
{
    if n > 0 {
        nobody_claims(v, (n - 1) as nat, c);
        assert(claim_of(v[n - 1]) matches Some(x) ==> x.0 != c);
    }
}

/// Whether no number is claimed by two of a list's rows.
#[verifier::opaque]
spec fn claimed_apart(v: Seq<JsonV>) -> bool {
    forall|i: int, j: int|
        0 <= i < j < v.len() ==> (claim_of(#[trigger] v[i]) matches Some(x) ==> (claim_of(
            #[trigger] v[j],
        ) matches Some(y) ==> x.0 != y.0))
}

proof fn apart_is_accepted(v: Seq<JsonV>, n: nat)
    requires
        n <= v.len(),
        claimed_apart(v),
    ensures
        claims_spec(v, n) is Ok,
    decreases n,
{
    if n > 0 {
        apart_is_accepted(v, (n - 1) as nat);
        if let Some(c) = claim_of(v[n - 1]) {
            reveal(claimed_apart);
            nobody_claims(v, (n - 1) as nat, c.0);
        }
    }
}

proof fn fit_rows_claim_apart(s: Work, v: Seq<JsonV>, declared: bool, env: EnvV)
    requires
        rows_fit(s, v, declared, env),
    ensures
        claimed_apart(v),
{
    reveal(rows_fit);
    reveal(row_fits);
    reveal(claimed_apart);
    assert forall|i: int, j: int| 0 <= i < j < v.len() implies (claim_of(
        #[trigger] v[i],
    ) matches Some(x) ==> (claim_of(#[trigger] v[j]) matches Some(y) ==> x.0 != y.0)) by {
        assert(row_fits(s, v[i], declared, env) && row_fits(s, v[j], declared, env));
        if row_number(v[i]) == row_number(v[j]) {
            claims_tell(v, v.len(), i, j, row_number(v[i]), row_id(v[i]), row_id(v[j]));
        }
    }
}

proof fn swapped_rows_fit(
    s: Work,
    a: Seq<JsonV>,
    p: int,
    q: int,
    declared: bool,
    env: EnvV,
)
    requires
        0 <= p < a.len(),
        0 <= q < a.len(),
        rows_fit(s, a, declared, env),
    ensures
        rows_fit(s, swapped(a, p, q), declared, env),
{
    let b = swapped(a, p, q);
    swapped_places(a, p, q);
    swapped_sums(s.e.tasks, a, p, q);
    fit_rows_claim_apart(s, a, declared, env);
    assert(claimed_apart(b)) by {
        reveal(claimed_apart);
        assert forall|i: int, j: int| 0 <= i < j < b.len() implies (claim_of(
            #[trigger] b[i],
        ) matches Some(x) ==> (claim_of(#[trigger] b[j]) matches Some(y) ==> x.0 != y.0)) by {
            let x = place_of_row(p, q, i);
            let y = place_of_row(p, q, j);
            assert(b[i] == a[x] && b[j] == a[y]);
            if x < y {
                assert(claim_of(a[x]) matches Some(c) ==> (claim_of(a[y]) matches Some(d) ==> c.0
                    != d.0));
            } else {
                assert(claim_of(a[y]) matches Some(c) ==> (claim_of(a[x]) matches Some(d) ==> c.0
                    != d.0));
            }
        }
    }
    apart_is_accepted(b, b.len());
    reveal(rows_fit);
    assert(given_apart(b, b.len())) by {
        assert forall|i: int, j: int, x: int, y: int|
            0 <= i < j < b.len() && 0 <= x < tokens_of(b[i]).len() && 0 <= y < tokens_of(
                b[j],
            ).len() && gives_id(tokens_of(b[i])[x]) && gives_id(
                tokens_of(b[j])[y],
            ) implies given_id(#[trigger] tokens_of(b[i])[x]) != given_id(
            #[trigger] tokens_of(b[j])[y],
        ) by {
            let c = place_of_row(p, q, i);
            let d = place_of_row(p, q, j);
            assert(b[i] == a[c] && b[j] == a[d]);
            if c < d {
                assert(given_id(tokens_of(a[c])[x]) != given_id(tokens_of(a[d])[y]));
            } else {
                assert(given_id(tokens_of(a[d])[y]) != given_id(tokens_of(a[c])[x]));
            }
        }
    }
    assert forall|i: int, j: int| 0 <= i < j < b.len() implies row_id(#[trigger] b[i]) != row_id(
        #[trigger] b[j],
    ) by {
        let c = place_of_row(p, q, i);
        let d = place_of_row(p, q, j);
        assert(b[i] == a[c] && b[j] == a[d]);
        if c < d {
            assert(row_id(a[c]) != row_id(a[d]));
        } else {
            assert(row_id(a[d]) != row_id(a[c]));
        }
    }
    assert forall|i: int| 0 <= i < b.len() implies row_fits(s, #[trigger] b[i], declared, env) by {
        assert(row_fits(s, a[place_of_row(p, q, i)], declared, env));
    }
}

/// What an import brings and finds so that the order of its tasks has no say in
/// whether it is accepted: a stored measurement under an id that a row gives
/// belongs to the task of that row; and there are fresh ids enough, which
/// neither the log nor a measurement has.
pub open spec fn order_is_free(w: Work, v: Seq<JsonV>, env: EnvV) -> bool {
    &&& held_by_givers(w.e.measurements, v, v.len())
    &&& w.used + ids_for_tasks(v, v.len()) <= env.log.ids.len()
    &&& ids_left(w.e.events, env.log.ids, w.used)
    &&& unlike_stored(w.e.measurements, env.log.ids, w.used)
    &&& tokens_are_unlike(v, env.log.ids, w.used)
}

/// What leaves the order free leaves it free once two rows are swapped.
pub proof fn order_stays_free(w: Work, a: Seq<JsonV>, p: int, q: int, env: EnvV)
    requires
        0 <= p < a.len(),
        0 <= q < a.len(),
        order_is_free(w, a, env),
    ensures
        order_is_free(w, swapped(a, p, q), env),
{
    let b = swapped(a, p, q);
    swapped_places(a, p, q);
    swapped_sums(w.e.tasks, a, p, q);
    reveal(tokens_are_unlike);
    assert forall|i: int| 0 <= i < b.len() implies unlike_given(
        tokens_of(#[trigger] b[i]),
        env.log.ids,
        w.used,
    ) by {
        assert(unlike_given(tokens_of(a[place_of_row(p, q, i)]), env.log.ids, w.used));
    }
    let m = w.e.measurements;
    assert forall|k: int, i: int, j: int|
        0 <= k < m.len() && 0 <= i < b.len() && 0 <= j < tokens_of(b[i]).len() && gives_id(
            tokens_of(b[i])[j],
        ) && (#[trigger] m[k]).id == given_id(#[trigger] tokens_of(b[i])[j]) implies m[k].task_id
        == row_id(b[i]) by {
        let c = place_of_row(p, q, i);
        assert(b[i] == a[c]);
        assert(m[k].id == given_id(tokens_of(a[c])[j]));
    }
}

/// Where the order is free, the rows of a document that is accepted come in
/// swapped.
pub proof fn swapped_rows_come_in(
    w: Work,
    a: Seq<JsonV>,
    p: int,
    q: int,
    declared: bool,
    env: EnvV,
)
    requires
        0 <= p < a.len(),
        0 <= q < a.len(),
        w.written == Seq::<Seq<char>>::empty(),
        order_is_free(w, a, env),
        tasks_in(w, a, declared, env) is Ok,
    ensures
        tasks_in(w, swapped(a, p, q), declared, env) is Ok,
{
    let b = swapped(a, p, q);
    accepted_rows_fit(a, w, declared, env);
    swapped_places(a, p, q);
    highest_of_both(a, b);
    assert(raised(w, a) == raised(w, b));
    swapped_rows_fit(raised(w, a), a, p, q, declared, env);
    order_stays_free(w, a, p, q, env);
    fit_rows_run(b, w, declared, env, b.len());
    assert(claims_spec(b, b.len()) is Ok) by {
        reveal(rows_fit);
    }
    reveal(tasks_in);
}

/// Swapping two rows changes neither whether the tasks of a document are
/// accepted nor, where at most one of them has to take another number, what any
/// of them becomes.
pub proof fn swapped_rows_change_nothing(
    w: Work,
    a: Seq<JsonV>,
    p: int,
    q: int,
    declared: bool,
    env: EnvV,
)
    requires
        0 <= p < q < a.len(),
        w.written == Seq::<Seq<char>>::empty(),
        order_is_free(w, a, env),
    ensures
        tasks_in(w, a, declared, env) is Ok <==> tasks_in(w, swapped(a, p, q), declared, env) is Ok,
        tasks_in(w, a, declared, env) is Ok && (forall|x: int, y: int|
            0 <= x < a.len() && 0 <= y < a.len() && moves(w.e.tasks, #[trigger] a[x]) && moves(
                w.e.tasks,
                #[trigger] a[y],
            ) ==> x == y) ==> forall|k: int|
            0 <= k < a.len() ==> task_by_id(
                tasks_in(w, swapped(a, p, q), declared, env)->Ok_0.e.tasks,
                row_id(#[trigger] a[k]),
            ) == task_by_id(tasks_in(w, a, declared, env)->Ok_0.e.tasks, row_id(a[k])),
{
    let b = swapped(a, p, q);
    swapped_places(a, p, q);
    order_stays_free(w, a, p, q, env);
    if tasks_in(w, a, declared, env) is Ok {
        swapped_rows_come_in(w, a, p, q, declared, env);
        if forall|x: int, y: int|
            0 <= x < a.len() && 0 <= y < a.len() && moves(w.e.tasks, #[trigger] a[x]) && moves(
                w.e.tasks,
                #[trigger] a[y],
            ) ==> x == y {
            assert forall|k: int| 0 <= k < a.len() implies task_by_id(
                tasks_in(w, b, declared, env)->Ok_0.e.tasks,
                row_id(#[trigger] a[k]),
            ) == task_by_id(tasks_in(w, a, declared, env)->Ok_0.e.tasks, row_id(a[k])) by {
                swapped_rows_give_the_same_tasks(w, a, p, q, declared, env, k);
            }
        }
    }
    if tasks_in(w, b, declared, env) is Ok {
        swapped_rows_come_in(w, b, p, q, declared, env);
    }
}

} // verus!
