//! How many fresh ids an import can take.

use crate::children::without;
use crate::engine::EngineV;
use crate::error::ErrorCode;
use crate::error::ErrorV;
use crate::error::internal;
use crate::import_again::rows_under;
use crate::import_children::annotation_keys;
use crate::import_children::annotation_one;
use crate::import_children::annotation_step;
use crate::import_children::annotations_done;
use crate::import_children::check_keys;
use crate::import_children::check_one;
use crate::import_children::check_step;
use crate::import_children::checks_done;
use crate::import_children::each;
use crate::import_children::measurement_keys;
use crate::import_children::measurement_one;
use crate::import_children::measurement_step;
use crate::import_children::measurements_done;
use crate::import_children::of_task;
use crate::import_read::body_spec;
use crate::import_read::BodyV;
use crate::import_read::EnvV;
use crate::import_read::head_spec;
use crate::import_read::HeadV;
use crate::import_read::shape_spec;
use crate::import_rules::begun;
use crate::import_rules::claims_spec;
use crate::import_rules::doc_keys;
use crate::import_rules::doc_one;
use crate::import_rules::doc_step;
use crate::import_rules::edges_of_one;
use crate::import_rules::edges_wired;
use crate::import_rules::event_keys;
use crate::import_rules::event_one;
use crate::import_rules::event_step;
use crate::import_rules::finished;
use crate::import_rules::imported;
use crate::import_rules::number_settled;
use crate::import_rules::project_keys;
use crate::import_rules::project_one;
use crate::import_rules::project_settled;
use crate::import_rules::project_step;
use crate::import_rules::raised;
use crate::import_rules::readable;
use crate::import_rules::sections_in;
use crate::import_rules::task_id_spec;
use crate::import_rules::task_keys;
use crate::import_rules::task_one;
use crate::import_rules::task_step;
use crate::import_rules::task_written;
use crate::import_rules::tasks_in;
use crate::import_rules::tasks_spec;
use crate::import_rules::Work;
use crate::json::Json;
use crate::json::JsonV;
use crate::params::opt_array;
use crate::params::opt_array_spec;
use crate::params::req_i64_spec;
use crate::params::req_str_lookup_spec;
use crate::rows::Annotation;
use crate::rows::AnnotationV;
use crate::rows::Check;
use crate::rows::CheckV;
use crate::rows::DependencyV;
use crate::rows::Measurement;
use crate::rows::MeasurementV;
use crate::rows::TaskV;
use crate::value::values;
use vstd::prelude::*;

verus! {

broadcast use {
    vstd::string::group_string_axioms,
    crate::value::group_json,
};

/// How many fresh ids the row of a task can take: one for each of its rows, two
/// for a project that it names, one for its mark in the log.
pub open spec fn ids_for_task(tv: JsonV) -> nat {
    rows_under(tv, "annotations"@).len() + rows_under(tv, "checks"@).len() + rows_under(
        tv,
        "tokens"@,
    ).len() + 3
}

/// How many fresh ids the first `n` rows of tasks can take.
pub open spec fn ids_for_tasks(v: Seq<JsonV>, n: nat) -> nat
    decreases n,
{
    if n == 0 || n > v.len() {
        0
    } else {
        ids_for_tasks(v, (n - 1) as nat) + ids_for_task(v[n - 1])
    }
}

/// How many fresh ids an import of a document can take: two for each project
/// and each memory document, its own and that of its mark in the log, one for
/// each event, and those of its tasks.
pub open spec fn ids_for(p: JsonV) -> nat {
    2 * rows_under(p, "projects"@).len() + 2 * rows_under(p, "docs"@).len() + rows_under(
        p,
        "events"@,
    ).len() + ids_for_tasks(rows_under(p, "tasks"@), rows_under(p, "tasks"@).len())
}

/// A count, as far as one can be written down.
pub open spec fn counted(n: nat) -> usize {
    if n <= usize::MAX {
        n as usize
    } else {
        usize::MAX
    }
}

fn rows_counted(v: &Json, key: &str) -> (r: usize)
    ensures
        r == rows_under(v@, key@).len(),
{
    match opt_array(v, key) {
        Ok(Some(a)) => a.len(),
        _ => 0,
    }
}

fn task_counted(tv: &Json) -> (r: usize)
    ensures
        r == counted(ids_for_task(tv@)),
{
    let a: usize = rows_counted(tv, "annotations");
    let b: usize = rows_counted(tv, "checks");
    let c: usize = rows_counted(tv, "tokens");
    a.saturating_add(b).saturating_add(c).saturating_add(3)
}

/// How many fresh ids an import of the document `p` can take, or the greatest
/// count there is where they are more.
pub fn ids_needed(p: &Json) -> (r: usize)
    ensures
        r == counted(ids_for(p@)),
{
    let projects: usize = rows_counted(p, "projects");
    let docs: usize = rows_counted(p, "docs");
    let events: usize = rows_counted(p, "events");
    let mut n: usize = projects.saturating_add(projects).saturating_add(docs).saturating_add(
        docs,
    ).saturating_add(events);
    let ghost start = 2 * rows_under(p@, "projects"@).len() + 2 * rows_under(p@, "docs"@).len()
        + rows_under(p@, "events"@).len();
    if let Ok(Some(tasks)) = opt_array(p, "tasks") {
        let ghost v = rows_under(p@, "tasks"@);
        assert(v == values(tasks@));
        let mut i: usize = 0;
        while i < tasks.len()
            invariant
                i <= tasks@.len(),
                v == values(tasks@),
                n == counted((start + ids_for_tasks(v, i as nat)) as nat),
            decreases tasks@.len() - i,
        {
            assert(v[i as int] == tasks@[i as int]@);
            n = n.saturating_add(task_counted(&tasks[i]));
            i += 1;
        }
    }
    n
}

/// The refusal of a change that has no fresh id left.
pub open spec fn no_ids() -> ErrorV {
    internal("no fresh id is left"@)
}

proof fn other_faults_are_no_want()
    ensures
        internal("storage error: UNIQUE constraint failed: events.id"@) != no_ids(),
        internal("the short_id counter is exhausted"@) != no_ids(),
{
    reveal_strlit("the short_id counter is exhausted");
    reveal_strlit("no fresh id is left");
    reveal_strlit("storage error: UNIQUE constraint failed: events.id");
    assert("no fresh id is left"@.len() < "the short_id counter is exhausted"@.len());
    assert("no fresh id is left"@.len() < "storage error: UNIQUE constraint failed: events.id"@.len());
}

proof fn shape_is_no_want(prefix: Seq<char>, what: Seq<char>, v: JsonV, keys: Seq<Seq<char>>)
    ensures
        shape_spec(prefix, what, v, keys) matches Err(x) ==> x.code == ErrorCode::BadRequest,
{
}

proof fn head_is_no_want(tv: JsonV, id: Seq<char>)
    ensures
        head_spec(tv, id) matches Err(x) ==> x.code == ErrorCode::BadRequest,
{
}

proof fn body_is_no_want(tv: JsonV, id: Seq<char>, env: EnvV)
    ensures
        body_spec(tv, id, env) matches Err(x) ==> x.code == ErrorCode::BadRequest,
{
}

proof fn note_takes_one(st: (Seq<AnnotationV>, nat), a: JsonV, id: Seq<char>, env: EnvV)
    requires
        st.1 < env.log.ids.len(),
    ensures
        match annotation_one(st, a, id, env) {
            Ok(r) => r.1 <= st.1 + 1,
            Err(x) => x != no_ids(),
        },
{
    shape_is_no_want(of_task(id), "annotations[]"@, a, annotation_keys());
}

proof fn check_takes_one(st: (Seq<CheckV>, nat, nat), a: JsonV, id: Seq<char>, env: EnvV)
    requires
        st.1 < env.log.ids.len(),
    ensures
        match check_one(st, a, id, env) {
            Ok(r) => r.1 <= st.1 + 1,
            Err(x) => x != no_ids(),
        },
{
    shape_is_no_want(of_task(id), "checks[]"@, a, check_keys());
}

proof fn measurement_takes_one(
    st: (Seq<MeasurementV>, nat),
    a: JsonV,
    id: Seq<char>,
    env: EnvV,
)
    requires
        st.1 < env.log.ids.len(),
    ensures
        match measurement_one(st, a, id, env) {
            Ok(r) => r.1 <= st.1 + 1,
            Err(x) => x != no_ids(),
        },
{
    shape_is_no_want(of_task(id), "tokens[]"@, a, measurement_keys());
}

proof fn project_takes_two(w: Work, pv: JsonV, env: EnvV)
    requires
        w.used + 2 <= env.log.ids.len(),
    ensures
        match project_one(w, pv, env) {
            Ok(r) => r.used <= w.used + 2,
            Err(x) => x != no_ids(),
        },
{
    other_faults_are_no_want();
    let name = req_str_lookup_spec(pv, "name"@);
    shape_is_no_want("project "@ + name->Ok_0 + ", "@, "project"@, pv, project_keys());
}

proof fn doc_takes_two(w: Work, dv: JsonV, env: EnvV)
    requires
        w.used + 2 <= env.log.ids.len(),
    ensures
        match doc_one(w, dv, env) {
            Ok(r) => r.used <= w.used + 2,
            Err(x) => x != no_ids(),
        },
{
    other_faults_are_no_want();
    shape_is_no_want(""@, "doc"@, dv, doc_keys());
}

proof fn event_takes_one(w: Work, ev: JsonV, env: EnvV)
    requires
        w.used < env.log.ids.len(),
    ensures
        match event_one(w, ev, env) {
            Ok(r) => r.used <= w.used + 1,
            Err(x) => x != no_ids(),
        },
{
    shape_is_no_want(""@, "event"@, ev, event_keys());
}

proof fn notes_take_one_each(
    v: Seq<JsonV>,
    n: nat,
    st: (Seq<AnnotationV>, nat),
    id: Seq<char>,
    env: EnvV,
)
    requires
        n <= v.len(),
        st.1 + n <= env.log.ids.len(),
    ensures
        match each(v, n, st, annotation_step(id, env)) {
            Ok(r) => r.1 <= st.1 + n,
            Err(x) => x != no_ids(),
        },
    decreases n,
{
    if n > 0 {
        let step = annotation_step(id, env);
        notes_take_one_each(v, (n - 1) as nat, st, id, env);
        if let Ok(r) = each(v, (n - 1) as nat, st, step) {
            assert(step(r, v[n - 1]) == annotation_one(r, v[n - 1], id, env));
            note_takes_one(r, v[n - 1], id, env);
        }
    }
}

proof fn checks_take_one_each(
    v: Seq<JsonV>,
    n: nat,
    st: (Seq<CheckV>, nat, nat),
    id: Seq<char>,
    env: EnvV,
)
    requires
        n <= v.len(),
        st.1 + n <= env.log.ids.len(),
    ensures
        match each(v, n, st, check_step(id, env)) {
            Ok(r) => r.1 <= st.1 + n,
            Err(x) => x != no_ids(),
        },
    decreases n,
{
    if n > 0 {
        let step = check_step(id, env);
        checks_take_one_each(v, (n - 1) as nat, st, id, env);
        if let Ok(r) = each(v, (n - 1) as nat, st, step) {
            assert(step(r, v[n - 1]) == check_one(r, v[n - 1], id, env));
            check_takes_one(r, v[n - 1], id, env);
        }
    }
}

proof fn measurements_take_one_each(
    v: Seq<JsonV>,
    n: nat,
    st: (Seq<MeasurementV>, nat),
    id: Seq<char>,
    env: EnvV,
)
    requires
        n <= v.len(),
        st.1 + n <= env.log.ids.len(),
    ensures
        match each(v, n, st, measurement_step(id, env)) {
            Ok(r) => r.1 <= st.1 + n,
            Err(x) => x != no_ids(),
        },
    decreases n,
{
    if n > 0 {
        let step = measurement_step(id, env);
        measurements_take_one_each(v, (n - 1) as nat, st, id, env);
        if let Ok(r) = each(v, (n - 1) as nat, st, step) {
            assert(step(r, v[n - 1]) == measurement_one(r, v[n - 1], id, env));
            measurement_takes_one(r, v[n - 1], id, env);
        }
    }
}

proof fn children_take_one_each(
    n: Work,
    tv: JsonV,
    id: Seq<char>,
    env: EnvV,
)
    requires
        n.used + ids_for_task(tv) <= env.log.ids.len() + 3,
    ensures
        ({
            let a = rows_under(tv, "annotations"@).len();
            let b = rows_under(tv, "checks"@).len();
            let c = rows_under(tv, "tokens"@).len();
            let notes = annotations_done(n.e.annotations, n.used, tv, id, env);
            let criteria = checks_done(n.e.checks, notes->Ok_0.1, tv, id, env);
            let tokens = measurements_done(n.e.measurements, criteria->Ok_0.1, tv, id, env);
            &&& notes matches Err(x) ==> x != no_ids()
            &&& notes matches Ok(r) ==> r.1 <= n.used + a
            &&& notes is Ok ==> (criteria matches Err(x) ==> x != no_ids())
            &&& notes is Ok ==> (criteria matches Ok(r) ==> r.1 <= n.used + a + b)
            &&& notes is Ok && criteria is Ok ==> (tokens matches Err(x) ==> x != no_ids())
            &&& notes is Ok && criteria is Ok ==> (tokens matches Ok(r) ==> r.1 <= n.used + a + b
                + c)
        }),
{
    let va = rows_under(tv, "annotations"@);
    let vb = rows_under(tv, "checks"@);
    let vc = rows_under(tv, "tokens"@);
    notes_take_one_each(
        va,
        va.len(),
        (without::<Annotation>(n.e.annotations, id), n.used),
        id,
        env,
    );
    let notes = annotations_done(n.e.annotations, n.used, tv, id, env);
    if let Ok(a) = notes {
        checks_take_one_each(
            vb,
            vb.len(),
            (without::<Check>(n.e.checks, id), a.1, 0nat),
            id,
            env,
        );
        let criteria = checks_done(n.e.checks, a.1, tv, id, env);
        if let Ok(b) = criteria {
            measurements_take_one_each(
                vc,
                vc.len(),
                (without::<Measurement>(n.e.measurements, id), b.1),
                id,
                env,
            );
        }
    }
}

proof fn project_takes_its_two(
    w: Work,
    id: Seq<char>,
    project: Option<Seq<char>>,
    declared: bool,
    env: EnvV,
)
    requires
        w.used + 2 <= env.log.ids.len(),
    ensures
        match project_settled(w, id, project, declared, env) {
            Ok(r) => r.used <= w.used + 2,
            Err(x) => x != no_ids(),
        },
{
    other_faults_are_no_want();
}

proof fn writing_takes_its_own(
    w: Work,
    tv: JsonV,
    id: Seq<char>,
    number: i64,
    h: HeadV,
    b: BodyV,
    env: EnvV,
)
    requires
        w.used + ids_for_task(tv) <= env.log.ids.len() + 2,
    ensures
        match task_written(w, tv, id, number, h, b, env) {
            Ok(r) => r.used + 2 <= w.used + ids_for_task(tv),
            Err(x) => x != no_ids(),
        },
{
    other_faults_are_no_want();
    children_take_one_each(w, tv, id, env);
}

#[verifier::rlimit(40)]
proof fn task_takes_its_own(w: Work, tv: JsonV, declared: bool, env: EnvV)
    requires
        w.used + ids_for_task(tv) <= env.log.ids.len(),
    ensures
        match task_one(w, tv, declared, env) {
            Ok(r) => r.used <= w.used + ids_for_task(tv),
            Err(x) => x != no_ids(),
        },
{
    other_faults_are_no_want();
    let id = task_id_spec(tv)->Ok_0;
    shape_is_no_want("task "@ + id + ", "@, "task"@, tv, task_keys());
    head_is_no_want(tv, id);
    body_is_no_want(tv, id, env);
    let head = head_spec(tv, id)->Ok_0;
    let body = body_spec(tv, id, env)->Ok_0;
    let begun = Work { written: w.written.push(id), ..w };
    project_takes_its_two(begun, id, head.project, declared, env);
    if let Ok(settled) = project_settled(begun, id, head.project, declared, env) {
        let number = req_i64_spec(tv, "short_id"@)->Ok_0;
        if let Ok(n) = number_settled(settled, id, number) {
            assert(n.0.used == settled.used);
            writing_takes_its_own(n.0, tv, id, n.1, head, body, env);
        }
    }
}

proof fn tasks_take_their_own(v: Seq<JsonV>, n: nat, w: Work, declared: bool, env: EnvV)
    requires
        n <= v.len(),
        w.used + ids_for_tasks(v, n) <= env.log.ids.len(),
    ensures
        match each(v, n, w, task_step(declared, env)) {
            Ok(r) => r.used <= w.used + ids_for_tasks(v, n),
            Err(x) => x != no_ids(),
        },
    decreases n,
{
    if n > 0 {
        let step = task_step(declared, env);
        tasks_take_their_own(v, (n - 1) as nat, w, declared, env);
        if let Ok(r) = each(v, (n - 1) as nat, w, step) {
            assert(step(r, v[n - 1]) == task_one(r, v[n - 1], declared, env));
            task_takes_its_own(r, v[n - 1], declared, env);
        }
    }
}

proof fn projects_take_two_each(v: Seq<JsonV>, n: nat, w: Work, env: EnvV)
    requires
        n <= v.len(),
        w.used + 2 * n <= env.log.ids.len(),
    ensures
        match each(v, n, w, project_step(env)) {
            Ok(r) => r.used <= w.used + 2 * n,
            Err(x) => x != no_ids(),
        },
    decreases n,
{
    if n > 0 {
        let step = project_step(env);
        projects_take_two_each(v, (n - 1) as nat, w, env);
        if let Ok(r) = each(v, (n - 1) as nat, w, step) {
            assert(step(r, v[n - 1]) == project_one(r, v[n - 1], env));
            project_takes_two(r, v[n - 1], env);
        }
    }
}

proof fn docs_take_two_each(v: Seq<JsonV>, n: nat, w: Work, env: EnvV)
    requires
        n <= v.len(),
        w.used + 2 * n <= env.log.ids.len(),
    ensures
        match each(v, n, w, doc_step(env)) {
            Ok(r) => r.used <= w.used + 2 * n,
            Err(x) => x != no_ids(),
        },
    decreases n,
{
    if n > 0 {
        let step = doc_step(env);
        docs_take_two_each(v, (n - 1) as nat, w, env);
        if let Ok(r) = each(v, (n - 1) as nat, w, step) {
            assert(step(r, v[n - 1]) == doc_one(r, v[n - 1], env));
            doc_takes_two(r, v[n - 1], env);
        }
    }
}

proof fn events_take_one_each(v: Seq<JsonV>, n: nat, w: Work, env: EnvV)
    requires
        n <= v.len(),
        w.used + n <= env.log.ids.len(),
    ensures
        match each(v, n, w, event_step(env)) {
            Ok(r) => r.used <= w.used + n,
            Err(x) => x != no_ids(),
        },
    decreases n,
{
    if n > 0 {
        let step = event_step(env);
        events_take_one_each(v, (n - 1) as nat, w, env);
        if let Ok(r) = each(v, (n - 1) as nat, w, step) {
            assert(step(r, v[n - 1]) == event_one(r, v[n - 1], env));
            event_takes_one(r, v[n - 1], env);
        }
    }
}

proof fn claims_are_no_want(v: Seq<JsonV>, n: nat)
    ensures
        claims_spec(v, n) matches Err(x) ==> x != no_ids(),
    decreases n,
{
    if 0 < n <= v.len() {
        claims_are_no_want(v, (n - 1) as nat);
    }
}

proof fn edges_of_one_are_no_want(
    tasks: Seq<TaskV>,
    d: Seq<DependencyV>,
    id: Seq<char>,
    on: Seq<Seq<char>>,
    n: nat,
)
    ensures
        edges_of_one(tasks, d, id, on, n) matches Err(x) ==> x != no_ids(),
    decreases n,
{
    if 0 < n <= on.len() {
        edges_of_one_are_no_want(tasks, d, id, on, (n - 1) as nat);
    }
}

proof fn edges_are_no_want(
    tasks: Seq<TaskV>,
    d: Seq<DependencyV>,
    edges: Seq<(Seq<char>, Seq<Seq<char>>)>,
    n: nat,
)
    ensures
        edges_wired(tasks, d, edges, n) matches Err(x) ==> x != no_ids(),
    decreases n,
{
    if 0 < n <= edges.len() {
        edges_are_no_want(tasks, d, edges, (n - 1) as nat);
        if let Ok(s) = edges_wired(tasks, d, edges, (n - 1) as nat) {
            edges_of_one_are_no_want(tasks, s, edges[n - 1].0, edges[n - 1].1, edges[n - 1].1.len());
        }
    }
}

/// An import that brings as many fresh ids as its document can take is never
/// refused for want of one.
pub proof fn enough_ids_never_run_out(e: EngineV, p: JsonV, env: EnvV)
    requires
        ids_for(p) <= env.log.ids.len(),
    ensures
        imported(e, p, env) matches Err(x) ==> x != no_ids(),
{
    reveal(sections_in);
    reveal(tasks_in);
    reveal(finished);
    let ps = rows_under(p, "projects"@);
    let ds = rows_under(p, "docs"@);
    let es = rows_under(p, "events"@);
    let ts = rows_under(p, "tasks"@);
    projects_take_two_each(ps, ps.len(), begun(e), env);
    if let Ok(w1) = each(ps, ps.len(), begun(e), project_step(env)) {
        docs_take_two_each(ds, ds.len(), w1, env);
        if let Ok(w2) = each(ds, ds.len(), w1, doc_step(env)) {
            events_take_one_each(es, es.len(), w2, env);
        }
    }
    if readable(p) is Ok {
        if let Ok(w) = sections_in(e, p, env) {
            let declared = opt_array_spec(p, "projects"@)->Ok_0 is Some;
            assert(tasks_spec(p)->Ok_0 == ts);
            claims_are_no_want(ts, ts.len());
            tasks_take_their_own(ts, ts.len(), raised(w, ts), declared, env);
            if let Ok(t) = tasks_in(w, ts, declared, env) {
                edges_are_no_want(t.e.tasks, t.e.dependencies, t.edges, t.edges.len());
            }
        }
    }
}

} // verus!
