//! The measurements of a document's tasks, with the ids they give and the fresh
//! ids that the others take.

use crate::children::has;
use crate::children::Named;
use crate::children::without;
use crate::import_again::given_id;
use crate::import_again::gives_id;
use crate::import_again::rows_under;
use crate::import_children::annotation_one;
use crate::import_children::annotation_step;
use crate::import_children::annotations_done;
use crate::import_children::check_one;
use crate::import_children::check_step;
use crate::import_children::checks_done;
use crate::import_children::each;
use crate::import_children::measurement_one;
use crate::import_children::measurement_step;
use crate::import_children::measurements_done;
use crate::import_numbers::row_id;
use crate::import_numbers::row_number;
use crate::import_read::EnvV;
use crate::import_read::head_spec;
use crate::import_repeat::stands_measured;
use crate::import_repeat::stays_in_the_rest;
use crate::import_repeat::tokens_of;
use crate::import_rules::number_settled;
use crate::import_rules::project_settled;
use crate::import_rules::task_one;
use crate::import_rules::Work;
use crate::json::JsonV;
use crate::params::opt_array_spec;
use crate::restore_tables::rest_stands;
use crate::rows::Annotation;
use crate::rows::AnnotationV;
use crate::rows::Check;
use crate::rows::CheckV;
use crate::rows::Measurement;
use crate::rows::MeasurementV;
use vstd::prelude::*;

verus! {

broadcast use vstd::string::group_string_axioms;

/// Whether the rows of a list give no id that is among the ids from `used` on.
pub open spec fn unlike_given(v: Seq<JsonV>, ids: Seq<Seq<char>>, used: nat) -> bool {
    forall|i: int, k: int|
        0 <= i < v.len() && used <= k < ids.len() && gives_id(#[trigger] v[i]) ==> given_id(v[i])
            != #[trigger] ids[k]
}

/// Whether no measurement has an id that is among the ids from `used` on.
pub open spec fn unlike_stored(m: Seq<MeasurementV>, ids: Seq<Seq<char>>, used: nat) -> bool {
    forall|i: int, k: int|
        0 <= i < m.len() && used <= k < ids.len() ==> (#[trigger] m[i]).id != #[trigger] ids[k]
}

/// Whether ids are all different.
pub open spec fn ids_are_apart(ids: Seq<Seq<char>>) -> bool {
    forall|i: int, j: int| 0 <= i < j < ids.len() ==> #[trigger] ids[i] != #[trigger] ids[j]
}

/// Whether an id is one of those from `from` on and before `to`.
pub open spec fn is_among(ids: Seq<Seq<char>>, from: nat, to: nat, id: Seq<char>) -> bool {
    exists|k: int| from <= k < to && k < ids.len() && #[trigger] ids[k] == id
}

/// The measurement that a row of a task became: it is of the task `id`, under
/// the id the row gives or under a fresh one.
pub open spec fn token_of(
    y: JsonV,
    row: MeasurementV,
    id: Seq<char>,
    ids: Seq<Seq<char>>,
    from: nat,
    to: nat,
) -> bool {
    &&& row.task_id == id
    &&& gives_id(y) ==> row.id == given_id(y)
    &&& !gives_id(y) ==> is_among(ids, from, to, row.id)
}

/// What the first `n` rows of a list add to a table: measurements of the task
/// `id`, each under the id it gives or under a fresh one.
pub open spec fn adds_tokens(
    c: Seq<MeasurementV>,
    r: Seq<MeasurementV>,
    v: Seq<JsonV>,
    n: nat,
    id: Seq<char>,
    ids: Seq<Seq<char>>,
    from: nat,
    to: nat,
) -> bool {
    &&& r.len() == c.len() + n
    &&& forall|k: int| 0 <= k < c.len() ==> #[trigger] r[k] == c[k]
    &&& forall|x: int|
        0 <= x < n ==> token_of(#[trigger] v[x], r[c.len() + x], id, ids, from, to)
}

/// Whether the ids that the first `n` rows of a list give are different, and
/// none is in a table.
pub open spec fn tokens_are_new(c: Seq<MeasurementV>, v: Seq<JsonV>, n: nat) -> bool {
    &&& forall|i: int, j: int|
        0 <= i < j < n && gives_id(#[trigger] v[i]) && gives_id(#[trigger] v[j]) ==> given_id(v[i])
            != given_id(v[j])
    &&& forall|i: int, k: int|
        0 <= i < n && 0 <= k < c.len() && gives_id(#[trigger] v[i]) ==> given_id(v[i]) != (
        #[trigger] c[k]).id
}

/// What one measurement that is accepted does.
#[verifier::rlimit(40)]
proof fn one_token(st: (Seq<MeasurementV>, nat), x: JsonV, id: Seq<char>, env: EnvV)
    requires
        measurement_one(st, x, id, env) is Ok,
    ensures
        ({
            let r = measurement_one(st, x, id, env)->Ok_0;
            let row = r.0[st.0.len() as int];
            &&& r.0 == st.0.push(row)
            &&& row.task_id == id
            &&& !(has::<Measurement>(st.0, row.id))
            &&& gives_id(x) ==> row.id == given_id(x) && r.1 == st.1
            &&& !gives_id(x) ==> st.1 < env.log.ids.len() && row.id == env.log.ids[st.1 as int]
                && r.1 == st.1 + 1
        }),
{
    let r = measurement_one(st, x, id, env)->Ok_0;
    assert(r.0 == st.0.push(r.0[st.0.len() as int]));
}

/// A measurement that was accepted once is accepted wherever its id is free.
#[verifier::rlimit(40)]
proof fn one_token_anywhere(
    a: (Seq<MeasurementV>, nat),
    b: (Seq<MeasurementV>, nat),
    x: JsonV,
    id: Seq<char>,
    env: EnvV,
)
    requires
        measurement_one(a, x, id, env) is Ok,
        gives_id(x) ==> !(has::<Measurement>(b.0, given_id(x))),
        !gives_id(x) ==> b.1 < env.log.ids.len() && !(has::<Measurement>(
            b.0,
            env.log.ids[b.1 as int],
        )),
    ensures
        measurement_one(b, x, id, env) is Ok,
{
}

proof fn one_more_adds(
    c: Seq<MeasurementV>,
    m: Seq<MeasurementV>,
    r: Seq<MeasurementV>,
    v: Seq<JsonV>,
    n: nat,
    id: Seq<char>,
    ids: Seq<Seq<char>>,
    from: nat,
    mid: nat,
    to: nat,
)
    requires
        n < v.len(),
        from <= mid <= to,
        adds_tokens(c, m, v, n, id, ids, from, mid),
        r == m.push(r[m.len() as int]),
        r[m.len() as int].task_id == id,
        gives_id(v[n as int]) ==> r[m.len() as int].id == given_id(v[n as int]),
        !gives_id(v[n as int]) ==> mid < ids.len() && r[m.len() as int].id == ids[mid as int] && to
            == mid + 1,
    ensures
        adds_tokens(c, r, v, n + 1, id, ids, from, to),
{
    assert forall|x: int| 0 <= x < n + 1 implies token_of(
        #[trigger] v[x],
        r[c.len() + x],
        id,
        ids,
        from,
        to,
    ) by {
        if x < n {
            assert(token_of(v[x], m[c.len() + x], id, ids, from, mid));
            assert(r[c.len() + x] == m[c.len() + x]);
            if !gives_id(v[x]) {
                let k = choose|k: int|
                    from <= k < mid && k < ids.len() && #[trigger] ids[k] == m[c.len() + x].id;
                assert(ids[k] == r[c.len() + x].id);
            }
        } else {
            assert(r[c.len() + x] == r[m.len() as int]);
            if !gives_id(v[x]) {
                assert(ids[mid as int] == r[c.len() + x].id);
            }
        }
    }
}

/// What measurements that are accepted do.
pub proof fn tokens_first(
    v: Seq<JsonV>,
    n: nat,
    c: Seq<MeasurementV>,
    used: nat,
    id: Seq<char>,
    env: EnvV,
)
    requires
        n <= v.len(),
        each(v, n, (c, used), measurement_step(id, env)) is Ok,
    ensures
        each(v, n, (c, used), measurement_step(id, env)) matches Ok(r) && used <= r.1 <= used + n
            && adds_tokens(c, r.0, v, n, id, env.log.ids, used, r.1),
        tokens_are_new(c, v, n),
    decreases n,
{
    if n > 0 {
        let m = (n - 1) as nat;
        let s = measurement_step(id, env);
        tokens_first(v, m, c, used, id, env);
        let st = each(v, m, (c, used), s)->Ok_0;
        let x = v[n - 1];
        assert(s(st, x) == measurement_one(st, x, id, env));
        one_token(st, x, id, env);
        let r = measurement_one(st, x, id, env)->Ok_0;
        one_more_adds(c, st.0, r.0, v, m, id, env.log.ids, used, st.1, r.1);
        assert forall|i: int, j: int|
            0 <= i < j < n && gives_id(#[trigger] v[i]) && gives_id(
                #[trigger] v[j],
            ) implies given_id(v[i]) != given_id(v[j]) by {
            if j == m {
                assert(st.0[c.len() + i].id == given_id(v[i]));
            }
        }
        assert forall|i: int, k: int|
            0 <= i < n && 0 <= k < c.len() && gives_id(#[trigger] v[i]) implies given_id(v[i]) != (
        #[trigger] c[k]).id by {
            if i == m {
                assert(st.0[k] == c[k]);
            }
        }
    }
}

/// Measurements that were accepted once are accepted wherever the ids they give
/// are new, and the fresh ones are unlike any.
pub proof fn tokens_second(
    v: Seq<JsonV>,
    n: nat,
    a: (Seq<MeasurementV>, nat),
    c: Seq<MeasurementV>,
    used: nat,
    id: Seq<char>,
    env: EnvV,
)
    requires
        n <= v.len(),
        each(v, n, a, measurement_step(id, env)) is Ok,
        tokens_are_new(c, v, n),
        used + n <= env.log.ids.len(),
        ids_are_apart(env.log.ids),
        unlike_given(v, env.log.ids, used),
        unlike_stored(c, env.log.ids, used),
    ensures
        each(v, n, (c, used), measurement_step(id, env)) is Ok,
    decreases n,
{
    if n > 0 {
        let m = (n - 1) as nat;
        let ids = env.log.ids;
        let s = measurement_step(id, env);
        tokens_second(v, m, a, c, used, id, env);
        tokens_first(v, m, c, used, id, env);
        let st1 = each(v, m, a, s)->Ok_0;
        let st2 = each(v, m, (c, used), s)->Ok_0;
        let x = v[n - 1];
        assert(s(st1, x) == measurement_one(st1, x, id, env));
        assert(s(st2, x) == measurement_one(st2, x, id, env));
        assert forall|k: int| 0 <= k < st2.0.len() implies {
            &&& gives_id(x) ==> <Measurement as Named>::id_of(#[trigger] st2.0[k]) != given_id(x)
            &&& !gives_id(x) ==> <Measurement as Named>::id_of(st2.0[k]) != ids[st2.1 as int]
        } by {
            if k < c.len() {
                assert(st2.0[k] == c[k]);
            } else {
                let i = k - c.len();
                let y = v[i];
                assert(st2.0[c.len() + i].task_id == id);
                if !gives_id(y) {
                    assert(is_among(ids, used, st2.1, st2.0[k].id));
                    let z = choose|z: int|
                        used <= z < st2.1 && z < ids.len() && #[trigger] ids[z] == st2.0[k].id;
                    if gives_id(x) {
                        assert(given_id(x) != ids[z]);
                    } else {
                        assert(ids[z] != ids[st2.1 as int]);
                    }
                }
            }
        }
        one_token_anywhere(st1, st2, x, id, env);
    }
}

/// What a row that came in did to the measurements.
#[verifier::rlimit(40)]
pub proof fn tokens_of_row(w: Work, tv: JsonV, declared: bool, env: EnvV)
    requires
        task_one(w, tv, declared, env) is Ok,
    ensures
        ({
            let r = task_one(w, tv, declared, env)->Ok_0;
            let id = row_id(tv);
            let nt = tokens_of(tv);
            let c = without::<Measurement>(w.e.measurements, id);
            &&& adds_tokens(
                c,
                r.e.measurements,
                nt,
                nt.len(),
                id,
                env.log.ids,
                w.used,
                r.used,
            )
            &&& tokens_are_new(c, nt, nt.len())
            &&& w.used <= r.used
        }),
{
    let id = row_id(tv);
    let nt = tokens_of(tv);
    let head = head_spec(tv, id)->Ok_0;
    let begun = Work { written: w.written.push(id), ..w };
    let settled = project_settled(begun, id, head.project, declared, env)->Ok_0;
    let n = number_settled(settled, id, row_number(tv))->Ok_0.0;
    assert(n.e.measurements == w.e.measurements && w.used <= n.used);
    let u = annotations_done(n.e.annotations, n.used, tv, id, env)->Ok_0.1;
    let x = checks_done(n.e.checks, u, tv, id, env)->Ok_0.1;
    notes_only_take(n.e.annotations, n.used, tv, id, env);
    checks_only_take(n.e.checks, u, tv, id, env);
    let c = without::<Measurement>(w.e.measurements, id);
    let t = measurements_done(n.e.measurements, x, tv, id, env)->Ok_0;
    let r = task_one(w, tv, declared, env)->Ok_0;
    assert(r.used == t.1 + 1);
    if opt_array_spec(tv, "tokens"@)->Ok_0 is Some {
        tokens_first(nt, nt.len(), c, x, id, env);
        wider_range(c, t.0, nt, nt.len(), id, env.log.ids, x, t.1, w.used, r.used);
    }
}

proof fn wider_range(
    c: Seq<MeasurementV>,
    r: Seq<MeasurementV>,
    v: Seq<JsonV>,
    n: nat,
    id: Seq<char>,
    ids: Seq<Seq<char>>,
    from: nat,
    to: nat,
    low: nat,
    high: nat,
)
    requires
        n <= v.len(),
        low <= from,
        to <= high,
        adds_tokens(c, r, v, n, id, ids, from, to),
    ensures
        adds_tokens(c, r, v, n, id, ids, low, high),
{
    assert forall|x: int| 0 <= x < n implies token_of(
        #[trigger] v[x],
        r[c.len() + x],
        id,
        ids,
        low,
        high,
    ) by {
        assert(token_of(v[x], r[c.len() + x], id, ids, from, to));
        if !gives_id(v[x]) {
            let k = choose|k: int|
                from <= k < to && k < ids.len() && #[trigger] ids[k] == r[c.len() + x].id;
            assert(ids[k] == r[c.len() + x].id);
        }
    }
}

proof fn notes_take(
    v: Seq<JsonV>,
    n: nat,
    a: (Seq<AnnotationV>, nat),
    id: Seq<char>,
    env: EnvV,
)
    requires
        n <= v.len(),
        each(v, n, a, annotation_step(id, env)) is Ok,
    ensures
        each(v, n, a, annotation_step(id, env)) matches Ok(r) && a.1 <= r.1,
    decreases n,
{
    if n > 0 {
        let s = annotation_step(id, env);
        notes_take(v, (n - 1) as nat, a, id, env);
        let st = each(v, (n - 1) as nat, a, s)->Ok_0;
        assert(s(st, v[n - 1]) == annotation_one(st, v[n - 1], id, env));
    }
}

proof fn notes_only_take(m: Seq<AnnotationV>, used: nat, tv: JsonV, id: Seq<char>, env: EnvV)
    requires
        annotations_done(m, used, tv, id, env) is Ok,
    ensures
        used <= annotations_done(m, used, tv, id, env)->Ok_0.1,
{
    let v = rows_under(tv, "annotations"@);
    if opt_array_spec(tv, "annotations"@)->Ok_0 is Some {
        notes_take(v, v.len(), (without::<Annotation>(m, id), used), id, env);
    }
}

proof fn checks_take(
    v: Seq<JsonV>,
    n: nat,
    a: (Seq<CheckV>, nat, nat),
    id: Seq<char>,
    env: EnvV,
)
    requires
        n <= v.len(),
        each(v, n, a, check_step(id, env)) is Ok,
    ensures
        each(v, n, a, check_step(id, env)) matches Ok(r) && a.1 <= r.1,
    decreases n,
{
    if n > 0 {
        let s = check_step(id, env);
        checks_take(v, (n - 1) as nat, a, id, env);
        let st = each(v, (n - 1) as nat, a, s)->Ok_0;
        assert(s(st, v[n - 1]) == check_one(st, v[n - 1], id, env));
    }
}

proof fn checks_only_take(m: Seq<CheckV>, used: nat, tv: JsonV, id: Seq<char>, env: EnvV)
    requires
        checks_done(m, used, tv, id, env) is Ok,
    ensures
        used <= checks_done(m, used, tv, id, env)->Ok_0.1,
{
    let v = rows_under(tv, "checks"@);
    if opt_array_spec(tv, "checks"@)->Ok_0 is Some {
        checks_take(v, v.len(), (without::<Check>(m, id), used, 0nat), id, env);
    }
}

/// The measurements of a row that were accepted once are accepted wherever the
/// ids they give are new, and the fresh ones are unlike any.
pub proof fn tokens_anywhere(
    m1: Seq<MeasurementV>,
    u1: nat,
    m2: Seq<MeasurementV>,
    u2: nat,
    tv: JsonV,
    id: Seq<char>,
    env: EnvV,
)
    requires
        measurements_done(m1, u1, tv, id, env) is Ok,
        u2 + tokens_of(tv).len() <= env.log.ids.len(),
        ids_are_apart(env.log.ids),
        unlike_given(tokens_of(tv), env.log.ids, u2),
        unlike_stored(without::<Measurement>(m2, id), env.log.ids, u2),
        forall|i: int, k: int|
            0 <= i < tokens_of(tv).len() && 0 <= k < without::<Measurement>(m2, id).len()
                && gives_id(#[trigger] tokens_of(tv)[i]) ==> given_id(tokens_of(tv)[i]) != (
            #[trigger] without::<Measurement>(m2, id)[k]).id,
    ensures
        measurements_done(m2, u2, tv, id, env) matches Ok(r) && u2 <= r.1 <= u2 + tokens_of(
            tv,
        ).len(),
{
    let nt = tokens_of(tv);
    let c = without::<Measurement>(m2, id);
    if opt_array_spec(tv, "tokens"@)->Ok_0 is Some {
        tokens_first(nt, nt.len(), without::<Measurement>(m1, id), u1, id, env);
        assert(tokens_are_new(c, nt, nt.len()));
        tokens_second(
            nt,
            nt.len(),
            (without::<Measurement>(m1, id), u1),
            c,
            u2,
            id,
            env,
        );
        tokens_first(nt, nt.len(), c, u2, id, env);
    }
}

/// Whether a measurement with an id that one of the first `n` rows gives belongs
/// to the task of that row.
pub open spec fn held_by_givers(m: Seq<MeasurementV>, v: Seq<JsonV>, n: nat) -> bool {
    forall|k: int, i: int, j: int|
        0 <= k < m.len() && 0 <= i < n && 0 <= j < tokens_of(v[i]).len() && gives_id(
            tokens_of(v[i])[j],
        ) && (#[trigger] m[k]).id == given_id(#[trigger] tokens_of(v[i])[j]) ==> m[k].task_id
            == row_id(v[i])
}

/// Whether every measurement that the first `n` rows give by id is in a table.
pub open spec fn hold_given(m: Seq<MeasurementV>, v: Seq<JsonV>, n: nat) -> bool {
    forall|i: int, j: int|
        0 <= i < n && 0 <= j < tokens_of(v[i]).len() && gives_id(tokens_of(v[i])[j])
            ==> stands_measured(m, given_id(#[trigger] tokens_of(v[i])[j]))
}

/// Whether no id is given to measurements of two of the first `n` rows.
pub open spec fn given_apart(v: Seq<JsonV>, n: nat) -> bool {
    forall|i: int, j: int, x: int, y: int|
        0 <= i < j < n && 0 <= x < tokens_of(v[i]).len() && 0 <= y < tokens_of(v[j]).len()
            && gives_id(tokens_of(v[i])[x]) && gives_id(tokens_of(v[j])[y]) ==> given_id(
            #[trigger] tokens_of(v[i])[x],
        ) != given_id(#[trigger] tokens_of(v[j])[y])
}

/// The measurements once one more row is in.
#[verifier::rlimit(60)]
#[verifier::spinoff_prover]
pub proof fn tokens_once_more(
    m: Seq<MeasurementV>,
    r: Seq<MeasurementV>,
    v: Seq<JsonV>,
    n: int,
    ids: Seq<Seq<char>>,
    from: nat,
    to: nat,
)
    requires
        0 <= n < v.len(),
        held_by_givers(m, v, n as nat),
        hold_given(m, v, n as nat),
        given_apart(v, n as nat),
        forall|i: int| 0 <= i < n ==> row_id(#[trigger] v[i]) != row_id(v[n]),
        forall|i: int| 0 <= i <= n ==> unlike_given(tokens_of(#[trigger] v[i]), ids, from),
        adds_tokens(
            without::<Measurement>(m, row_id(v[n])),
            r,
            tokens_of(v[n]),
            tokens_of(v[n]).len(),
            row_id(v[n]),
            ids,
            from,
            to,
        ),
        tokens_are_new(
            without::<Measurement>(m, row_id(v[n])),
            tokens_of(v[n]),
            tokens_of(v[n]).len(),
        ),
    ensures
        held_by_givers(r, v, (n + 1) as nat),
        hold_given(r, v, (n + 1) as nat),
        given_apart(v, (n + 1) as nat),
{
    let id = row_id(v[n]);
    let c = without::<Measurement>(m, id);
    let nt = tokens_of(v[n]);
    rest_stands::<Measurement>(m, id);
    assert forall|i: int, j: int|
        0 <= i < n && 0 <= j < tokens_of(v[i]).len() && gives_id(
            tokens_of(v[i])[j],
        ) implies stands_measured(c, given_id(#[trigger] tokens_of(v[i])[j])) by {
        let x = given_id(tokens_of(v[i])[j]);
        assert(stands_measured(m, x));
        let k = choose|k: int| 0 <= k < m.len() && (#[trigger] m[k]).id == x;
        assert(m[k].task_id == row_id(v[i]));
        assert(row_id(v[i]) != id);
        stays_in_the_rest(m, id, k);
        let q = choose|q: int| 0 <= q < c.len() && c[q] == m[k];
        assert(c[q].id == x);
    }
    assert forall|i: int, j: int, x: int, y: int|
        0 <= i < j < n + 1 && 0 <= x < tokens_of(v[i]).len() && 0 <= y < tokens_of(v[j]).len()
            && gives_id(tokens_of(v[i])[x]) && gives_id(tokens_of(v[j])[y]) implies given_id(
        #[trigger] tokens_of(v[i])[x],
    ) != given_id(#[trigger] tokens_of(v[j])[y]) by {
        if j == n {
            assert(stands_measured(c, given_id(tokens_of(v[i])[x])));
            let q = choose|q: int|
                0 <= q < c.len() && (#[trigger] c[q]).id == given_id(tokens_of(v[i])[x]);
            assert(given_id(nt[y]) != c[q].id);
        }
    }
    assert forall|k: int, i: int, j: int|
        0 <= k < r.len() && 0 <= i < n + 1 && 0 <= j < tokens_of(v[i]).len() && gives_id(
            tokens_of(v[i])[j],
        ) && (#[trigger] r[k]).id == given_id(#[trigger] tokens_of(v[i])[j]) implies r[k].task_id
        == row_id(v[i]) by {
        if k < c.len() {
            assert(r[k] == c[k]);
            if i < n {
                let q = choose|q: int| 0 <= q < m.len() && m[q] == c[k];
                assert(m[q].id == given_id(tokens_of(v[i])[j]));
            } else {
                assert(given_id(nt[j]) != c[k].id);
            }
        } else {
            let x = k - c.len();
            let y = nt[x];
            assert(r[c.len() + x].task_id == id);
            if i < n {
                if gives_id(y) {
                    assert(given_id(tokens_of(v[i])[j]) != given_id(tokens_of(v[n])[x]));
                } else {
                    assert(is_among(ids, from, to, r[k].id));
                    let z = choose|z: int|
                        from <= z < to && z < ids.len() && #[trigger] ids[z] == r[k].id;
                    assert(unlike_given(tokens_of(v[i]), ids, from));
                    assert(given_id(tokens_of(v[i])[j]) != ids[z]);
                }
            }
        }
    }
    assert forall|i: int, j: int|
        0 <= i < n + 1 && 0 <= j < tokens_of(v[i]).len() && gives_id(
            tokens_of(v[i])[j],
        ) implies stands_measured(r, given_id(#[trigger] tokens_of(v[i])[j])) by {
        if i < n {
            assert(stands_measured(c, given_id(tokens_of(v[i])[j])));
            let q = choose|q: int|
                0 <= q < c.len() && (#[trigger] c[q]).id == given_id(tokens_of(v[i])[j]);
            assert(r[q] == c[q]);
        } else {
            assert(r[c.len() + j].id == given_id(nt[j]));
        }
    }
}

/// Where the measurements of an import under way come from: the store it
/// began with, one of the first `n` rows, or a fresh id that was taken.
pub open spec fn measured_from(
    m: Seq<MeasurementV>,
    was: Seq<MeasurementV>,
    v: Seq<JsonV>,
    n: nat,
    ids: Seq<Seq<char>>,
    from: nat,
    to: nat,
) -> bool {
    forall|k: int|
        0 <= k < m.len() ==> was.contains(#[trigger] m[k]) || given_by(v, n, m[k].id) || is_among(
            ids,
            from,
            to,
            m[k].id,
        )
}

/// Whether one of the first `n` rows gives a measurement this id.
pub open spec fn given_by(v: Seq<JsonV>, n: nat, id: Seq<char>) -> bool {
    exists|i: int, x: int|
        0 <= i < n && 0 <= x < tokens_of(v[i]).len() && gives_id(tokens_of(v[i])[x]) && given_id(
            #[trigger] tokens_of(v[i])[x],
        ) == id
}

/// Where the measurements come from once one more row is in.
pub proof fn measured_from_one_more(
    m: Seq<MeasurementV>,
    r: Seq<MeasurementV>,
    was: Seq<MeasurementV>,
    v: Seq<JsonV>,
    n: int,
    ids: Seq<Seq<char>>,
    from: nat,
    mid: nat,
    to: nat,
)
    requires
        0 <= n < v.len(),
        from <= mid <= to,
        measured_from(m, was, v, n as nat, ids, from, mid),
        adds_tokens(
            without::<Measurement>(m, row_id(v[n])),
            r,
            tokens_of(v[n]),
            tokens_of(v[n]).len(),
            row_id(v[n]),
            ids,
            mid,
            to,
        ),
    ensures
        measured_from(r, was, v, (n + 1) as nat, ids, from, to),
{
    let c = without::<Measurement>(m, row_id(v[n]));
    rest_stands::<Measurement>(m, row_id(v[n]));
    assert forall|k: int| 0 <= k < r.len() implies was.contains(#[trigger] r[k]) || given_by(
        v,
        (n + 1) as nat,
        r[k].id,
    ) || is_among(ids, from, to, r[k].id) by {
        if k < c.len() {
            assert(r[k] == c[k]);
            let q = choose|q: int| 0 <= q < m.len() && m[q] == c[k];
            let g = m[q].id;
            assert(was.contains(m[q]) || given_by(v, n as nat, g) || is_among(ids, from, mid, g));
            if given_by(v, n as nat, g) {
                let (i, x) = choose|i: int, x: int|
                    0 <= i < n && 0 <= x < tokens_of(v[i]).len() && gives_id(tokens_of(v[i])[x])
                        && given_id(#[trigger] tokens_of(v[i])[x]) == g;
                assert(given_id(tokens_of(v[i])[x]) == r[k].id);
            } else if is_among(ids, from, mid, g) {
                let z = choose|z: int| from <= z < mid && z < ids.len() && #[trigger] ids[z] == g;
                assert(ids[z] == r[k].id);
            }
        } else {
            let x = k - c.len();
            let y = tokens_of(v[n])[x];
            assert(r[c.len() + x].task_id == row_id(v[n]));
            if gives_id(y) {
                assert(given_id(tokens_of(v[n])[x]) == r[k].id);
            } else {
                assert(is_among(ids, mid, to, r[k].id));
                let z = choose|z: int|
                    mid <= z < to && z < ids.len() && #[trigger] ids[z] == r[k].id;
                assert(ids[z] == r[k].id);
            }
        }
    }
}

/// The measurements of the next row give ids that are new, and the fresh ids
/// that are left are unlike any.
pub proof fn next_tokens_are_new(
    m: Seq<MeasurementV>,
    was: Seq<MeasurementV>,
    v: Seq<JsonV>,
    n: int,
    ids: Seq<Seq<char>>,
    from: nat,
    to: nat,
)
    requires
        0 <= n < v.len(),
        from <= to,
        measured_from(m, was, v, n as nat, ids, from, to),
        held_by_givers(was, v, v.len()),
        given_apart(v, v.len()),
        ids_are_apart(ids),
        unlike_stored(was, ids, from),
        forall|i: int| 0 <= i < v.len() ==> unlike_given(tokens_of(#[trigger] v[i]), ids, from),
    ensures
        forall|i: int, k: int|
            0 <= i < tokens_of(v[n]).len() && 0 <= k < without::<Measurement>(
                m,
                row_id(v[n]),
            ).len() && gives_id(#[trigger] tokens_of(v[n])[i]) ==> given_id(tokens_of(v[n])[i])
                != (#[trigger] without::<Measurement>(m, row_id(v[n]))[k]).id,
        unlike_stored(without::<Measurement>(m, row_id(v[n])), ids, to),
{
    let id = row_id(v[n]);
    let c = without::<Measurement>(m, id);
    rest_stands::<Measurement>(m, id);
    assert(unlike_given(tokens_of(v[n]), ids, from));
    assert forall|i: int, k: int|
        0 <= i < tokens_of(v[n]).len() && 0 <= k < c.len() && gives_id(
            #[trigger] tokens_of(v[n])[i],
        ) implies given_id(tokens_of(v[n])[i]) != (#[trigger] c[k]).id by {
        let q = choose|q: int| 0 <= q < m.len() && m[q] == c[k];
        let g = m[q].id;
        assert(was.contains(m[q]) || given_by(v, n as nat, g) || is_among(ids, from, to, g));
        if was.contains(m[q]) {
            let z = choose|z: int| 0 <= z < was.len() && was[z] == m[q];
            if was[z].id == given_id(tokens_of(v[n])[i]) {
                assert(was[z].task_id == id);
            }
        } else if given_by(v, n as nat, g) {
            let (j, x) = choose|j: int, x: int|
                0 <= j < n && 0 <= x < tokens_of(v[j]).len() && gives_id(tokens_of(v[j])[x])
                    && given_id(#[trigger] tokens_of(v[j])[x]) == g;
            assert(given_id(tokens_of(v[j])[x]) != given_id(tokens_of(v[n])[i]));
        } else {
            let z = choose|z: int| from <= z < to && z < ids.len() && #[trigger] ids[z] == g;
            assert(given_id(tokens_of(v[n])[i]) != ids[z]);
        }
    }
    assert forall|i: int, k: int| 0 <= i < c.len() && to <= k < ids.len() implies (
    #[trigger] c[i]).id != #[trigger] ids[k] by {
        let q = choose|q: int| 0 <= q < m.len() && m[q] == c[i];
        let g = m[q].id;
        assert(was.contains(m[q]) || given_by(v, n as nat, g) || is_among(ids, from, to, g));
        if was.contains(m[q]) {
            let z = choose|z: int| 0 <= z < was.len() && was[z] == m[q];
            assert(was[z].id != ids[k]);
        } else if given_by(v, n as nat, g) {
            let (j, x) = choose|j: int, x: int|
                0 <= j < n && 0 <= x < tokens_of(v[j]).len() && gives_id(tokens_of(v[j])[x])
                    && given_id(#[trigger] tokens_of(v[j])[x]) == g;
            assert(unlike_given(tokens_of(v[j]), ids, from));
            assert(given_id(tokens_of(v[j])[x]) != ids[k]);
        } else {
            let z = choose|z: int| from <= z < to && z < ids.len() && #[trigger] ids[z] == g;
            assert(ids[z] != ids[k]);
        }
    }
}

} // verus!
