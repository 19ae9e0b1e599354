//! Putting the rows of a task and its edges back.

use crate::children::live;
use crate::children::owned;
use crate::children::without;
use crate::engine::EngineV;
use crate::engine::task_by_id;
use crate::error::ErrorV;
use crate::export::annotation_json;
use crate::export::annotations_json;
use crate::export::check_json;
use crate::export::checks_json;
use crate::export::dropped_edges;
use crate::export::ids_of;
use crate::export::kept_edges;
use crate::export::measurement_json;
use crate::export::measurements_json;
use crate::graph::more_edges_wait;
use crate::graph::path;
use crate::graph::waits_for;
use crate::import_children::annotation_one;
use crate::import_children::annotation_step;
use crate::import_children::annotations_done;
use crate::import_children::check_one;
use crate::import_children::check_step;
use crate::import_children::checks_done;
use crate::import_children::each;
use crate::import_children::measurement_one;
use crate::import_children::measurement_step;
use crate::import_children::measurements_done;
use crate::import_laws::found_stands;
use crate::import_read::EnvV;
use crate::import_rules::edge_in;
use crate::import_rules::edges_of_one;
use crate::import_rules::edges_wired;
use crate::json::JsonV;
use crate::restore_steps::annotation_step_reads;
use crate::restore_steps::check_step_reads;
use crate::restore_steps::measurement_step_reads;
use crate::restore_tables::live_stands;
use crate::restore_tables::next_id_is_free;
use crate::restore_tables::next_note_is_free;
use crate::restore_tables::owned_stands;
use crate::rows::Annotation;
use crate::rows::AnnotationV;
use crate::rows::Check;
use crate::rows::CheckV;
use crate::rows::DependencyV;
use crate::rows::Measurement;
use crate::rows::MeasurementV;
use crate::sound::annotation_sound;
use crate::sound::check_sound;
use crate::sound::ids_differ;
use crate::sound::measurement_sound;
use vstd::prelude::*;

verus! {

broadcast use vstd::string::group_string_axioms;

proof fn notes_step(now: Seq<AnnotationV>, s: Seq<AnnotationV>, used: nat, id: Seq<char>, env: EnvV, k: nat)
    requires
        ids_differ::<Annotation>(s),
        forall|i: int|
            0 <= i < s.len() && (#[trigger] s[i]).removed is None ==> annotation_sound(s[i]),
        forall|i: int| 0 <= i < now.len() ==> s.contains(#[trigger] now[i]),
        k <= owned::<Annotation>(live(s), id).len(),
    ensures
        each(
            annotations_json(owned::<Annotation>(live(s), id)),
            k,
            (without::<Annotation>(now, id), used),
            annotation_step(id, env),
        ) == Ok::<(Seq<AnnotationV>, nat), ErrorV>(
            (without::<Annotation>(now, id) + owned::<Annotation>(live(s), id).take(k as int), used),
        ),
    decreases k,
{
    let a = without::<Annotation>(now, id);
    let own = owned::<Annotation>(live(s), id);
    let v = annotations_json(own);
    let step = annotation_step(id, env);
    if k == 0 {
        assert(a + own.take(0) =~= a);
    } else {
        notes_step(now, s, used, id, env, (k - 1) as nat);
        next_note_is_free(now, s, id, k - 1);
        owned_stands::<Annotation>(live(s), id);
        live_stands(s);
        let x = own[k - 1];
        assert(live(s).contains(x));
        let j = choose|j: int| 0 <= j < live(s).len() && live(s)[j] == x;
        assert(s.contains(live(s)[j]));
        let st = (a + own.take(k - 1), used);
        annotation_step_reads(st, x, id, env);
        assert(v[k - 1] == annotation_json(x));
        assert(step(st, v[k - 1]) == annotation_one(st, v[k - 1], id, env));
        assert((a + own.take(k - 1)).push(x) =~= a + own.take(k as int));
    }
}

/// The notes of a task are put back, without those that were removed.
pub proof fn notes_put_back(
    now: Seq<AnnotationV>,
    s: Seq<AnnotationV>,
    used: nat,
    tv: JsonV,
    id: Seq<char>,
    env: EnvV,
)
    requires
        ids_differ::<Annotation>(s),
        forall|i: int|
            0 <= i < s.len() && (#[trigger] s[i]).removed is None ==> annotation_sound(s[i]),
        forall|i: int| 0 <= i < now.len() ==> s.contains(#[trigger] now[i]),
        tv.get("annotations"@) == Some(
            JsonV::Arr(annotations_json(owned::<Annotation>(live(s), id))),
        ),
    ensures
        annotations_done(now, used, tv, id, env) == Ok::<(Seq<AnnotationV>, nat), ErrorV>(
            (without::<Annotation>(now, id) + owned::<Annotation>(live(s), id), used),
        ),
{
    let own = owned::<Annotation>(live(s), id);
    notes_step(now, s, used, id, env, own.len());
    assert(own.take(own.len() as int) =~= own);
    assert(annotations_json(own).len() == own.len());
}

proof fn checks_step(now: Seq<CheckV>, s: Seq<CheckV>, used: nat, id: Seq<char>, env: EnvV, k: nat)
    requires
        ids_differ::<Check>(s),
        forall|i: int| 0 <= i < s.len() ==> check_sound(#[trigger] s[i]),
        forall|i: int| 0 <= i < now.len() ==> s.contains(#[trigger] now[i]),
        k <= owned::<Check>(s, id).len(),
    ensures
        each(
            checks_json(owned::<Check>(s, id)),
            k,
            (without::<Check>(now, id), used, 0nat),
            check_step(id, env),
        ) == Ok::<(Seq<CheckV>, nat, nat), ErrorV>(
            (without::<Check>(now, id) + owned::<Check>(s, id).take(k as int), used, k),
        ),
    decreases k,
{
    let a = without::<Check>(now, id);
    let own = owned::<Check>(s, id);
    let v = checks_json(own);
    let step = check_step(id, env);
    if k == 0 {
        assert(a + own.take(0) =~= a);
    } else {
        checks_step(now, s, used, id, env, (k - 1) as nat);
        next_id_is_free::<Check>(now, s, id, k - 1);
        owned_stands::<Check>(s, id);
        let x = own[k - 1];
        assert(s.contains(x));
        let st = (a + own.take(k - 1), used, (k - 1) as nat);
        check_step_reads(st, x, id, env);
        assert(v[k - 1] == check_json(x));
        assert(step(st, v[k - 1]) == check_one(st, v[k - 1], id, env));
        assert((a + own.take(k - 1)).push(x) =~= a + own.take(k as int));
    }
}

/// The criteria of a task are put back.
pub proof fn checks_put_back(
    now: Seq<CheckV>,
    s: Seq<CheckV>,
    used: nat,
    tv: JsonV,
    id: Seq<char>,
    env: EnvV,
)
    requires
        ids_differ::<Check>(s),
        forall|i: int| 0 <= i < s.len() ==> check_sound(#[trigger] s[i]),
        forall|i: int| 0 <= i < now.len() ==> s.contains(#[trigger] now[i]),
        tv.get("checks"@) == Some(JsonV::Arr(checks_json(owned::<Check>(s, id)))),
    ensures
        checks_done(now, used, tv, id, env) == Ok::<(Seq<CheckV>, nat), ErrorV>(
            (without::<Check>(now, id) + owned::<Check>(s, id), used),
        ),
{
    let own = owned::<Check>(s, id);
    checks_step(now, s, used, id, env, own.len());
    assert(own.take(own.len() as int) =~= own);
    assert(checks_json(own).len() == own.len());
}

proof fn measurements_step(
    now: Seq<MeasurementV>,
    s: Seq<MeasurementV>,
    used: nat,
    id: Seq<char>,
    env: EnvV,
    k: nat,
)
    requires
        ids_differ::<Measurement>(s),
        forall|i: int| 0 <= i < s.len() ==> measurement_sound(#[trigger] s[i], env),
        forall|i: int| 0 <= i < now.len() ==> s.contains(#[trigger] now[i]),
        k <= owned::<Measurement>(s, id).len(),
    ensures
        each(
            measurements_json(owned::<Measurement>(s, id)),
            k,
            (without::<Measurement>(now, id), used),
            measurement_step(id, env),
        ) == Ok::<(Seq<MeasurementV>, nat), ErrorV>(
            (without::<Measurement>(now, id) + owned::<Measurement>(s, id).take(k as int), used),
        ),
    decreases k,
{
    let a = without::<Measurement>(now, id);
    let own = owned::<Measurement>(s, id);
    let v = measurements_json(own);
    let step = measurement_step(id, env);
    if k == 0 {
        assert(a + own.take(0) =~= a);
    } else {
        measurements_step(now, s, used, id, env, (k - 1) as nat);
        next_id_is_free::<Measurement>(now, s, id, k - 1);
        owned_stands::<Measurement>(s, id);
        let x = own[k - 1];
        assert(s.contains(x));
        let st = (a + own.take(k - 1), used);
        measurement_step_reads(st, x, id, env);
        assert(v[k - 1] == measurement_json(x));
        assert(step(st, v[k - 1]) == measurement_one(st, v[k - 1], id, env));
        assert((a + own.take(k - 1)).push(x) =~= a + own.take(k as int));
    }
}

/// The measurements of a task are put back.
pub proof fn measurements_put_back(
    now: Seq<MeasurementV>,
    s: Seq<MeasurementV>,
    used: nat,
    tv: JsonV,
    id: Seq<char>,
    env: EnvV,
)
    requires
        ids_differ::<Measurement>(s),
        forall|i: int| 0 <= i < s.len() ==> measurement_sound(#[trigger] s[i], env),
        forall|i: int| 0 <= i < now.len() ==> s.contains(#[trigger] now[i]),
        tv.get("tokens"@) == if owned::<Measurement>(s, id).len() > 0 {
            Some(JsonV::Arr(measurements_json(owned::<Measurement>(s, id))))
        } else {
            None
        },
    ensures
        measurements_done(now, used, tv, id, env) == Ok::<(Seq<MeasurementV>, nat), ErrorV>(
            (without::<Measurement>(now, id) + owned::<Measurement>(s, id), used),
        ),
{
    let own = owned::<Measurement>(s, id);
    if own.len() > 0 {
        measurements_step(now, s, used, id, env, own.len());
        assert(own.take(own.len() as int) =~= own);
        assert(measurements_json(own).len() == own.len());
    } else {
        assert(without::<Measurement>(now, id) + own =~= without::<Measurement>(now, id));
    }
}

/// The edges from `id` to each of the tasks of `on`.
pub open spec fn edges_from(id: Seq<char>, on: Seq<Seq<char>>) -> Seq<DependencyV> {
    on.map_values(|x: Seq<char>| DependencyV { task_id: id, depends_on: x })
}

/// The edges of the store from `id`, all of them: every task they lead to is
/// there.
pub open spec fn edges_on(s: EngineV, id: Seq<char>) -> Seq<Seq<char>> {
    kept_edges(s.dependencies, id, ids_of(s.tasks), s.dependencies.len())
}

/// What each of the first `n` tasks depends on.
pub open spec fn edges_listed(s: EngineV, n: nat) -> Seq<(Seq<char>, Seq<Seq<char>>)>
    decreases n,
{
    if n == 0 || n > s.tasks.len() {
        Seq::empty()
    } else {
        edges_listed(s, (n - 1) as nat).push((s.tasks[n - 1].id, edges_on(s, s.tasks[n - 1].id)))
    }
}

/// The edges of the first `n` tasks, task by task.
pub open spec fn edges_gathered(s: EngineV, n: nat) -> Seq<DependencyV>
    decreases n,
{
    if n == 0 || n > s.tasks.len() {
        Seq::empty()
    } else {
        let id = s.tasks[n - 1].id;
        edges_gathered(s, (n - 1) as nat) + edges_from(id, edges_on(s, id))
    }
}

proof fn listed_edges(s: EngineV, n: nat, i: int)
    requires
        0 <= i < n <= s.tasks.len(),
    ensures
        edges_listed(s, n).len() == n,
        edges_listed(s, n)[i] == (s.tasks[i].id, edges_on(s, s.tasks[i].id)),
    decreases n,
{
    if n > 1 {
        listed_edges(s, (n - 1) as nat, if i < n - 1 {
            i
        } else {
            0
        });
    } else {
        assert(edges_listed(s, 0) =~= Seq::empty());
    }
}

/// What a document keeps of a task's edges are edges, each to a task it carries.
pub proof fn kept_are_edges(d: Seq<DependencyV>, id: Seq<char>, present: Seq<Seq<char>>, n: nat)
    requires
        n <= d.len(),
    ensures
        forall|i: int|
            0 <= i < kept_edges(d, id, present, n).len() ==> {
                let on = #[trigger] kept_edges(d, id, present, n)[i];
                present.contains(on) && exists|k: int|
                    0 <= k < n && #[trigger] d[k] == (DependencyV { task_id: id, depends_on: on })
            },
    decreases n,
{
    if n > 0 {
        kept_are_edges(d, id, present, (n - 1) as nat);
        let before = kept_edges(d, id, present, (n - 1) as nat);
        let now = kept_edges(d, id, present, n);
        assert forall|i: int| 0 <= i < now.len() implies {
            let on = #[trigger] now[i];
            present.contains(on) && exists|k: int|
                0 <= k < n && #[trigger] d[k] == (DependencyV { task_id: id, depends_on: on })
        } by {
            if i < before.len() {
                assert(now[i] == before[i]);
                let k = choose|k: int|
                    0 <= k < n - 1 && #[trigger] d[k] == (DependencyV {
                        task_id: id,
                        depends_on: before[i],
                    });
                assert(d[k] == (DependencyV { task_id: id, depends_on: now[i] }));
            } else {
                assert(d[n - 1] == (DependencyV { task_id: id, depends_on: now[i] }));
            }
        }
    }
}

proof fn kept_differ(d: Seq<DependencyV>, id: Seq<char>, present: Seq<Seq<char>>, n: nat)
    requires
        n <= d.len(),
        forall|i: int, j: int| 0 <= i < j < d.len() ==> (#[trigger] d[i]) != (#[trigger] d[j]),
    ensures
        forall|i: int, j: int|
            0 <= i < j < kept_edges(d, id, present, n).len() ==> (#[trigger] kept_edges(
                d,
                id,
                present,
                n,
            )[i]) != (#[trigger] kept_edges(d, id, present, n)[j]),
    decreases n,
{
    if n > 0 {
        kept_differ(d, id, present, (n - 1) as nat);
        kept_are_edges(d, id, present, (n - 1) as nat);
        let before = kept_edges(d, id, present, (n - 1) as nat);
        let now = kept_edges(d, id, present, n);
        assert forall|i: int, j: int| 0 <= i < j < now.len() implies (#[trigger] now[i]) != (
        #[trigger] now[j]) by {
            assert(now[i] == before[i]);
            if j < before.len() {
                assert(now[j] == before[j]);
            } else {
                let on = before[i];
                let k = choose|k: int|
                    0 <= k < n - 1 && #[trigger] d[k] == (DependencyV {
                        task_id: id,
                        depends_on: on,
                    });
                assert(d[k] != d[n - 1]);
            }
        }
    }
}

/// The edges of one task among edges, and then edges of some one task.
proof fn kept_of_both(
    d: Seq<DependencyV>,
    other: Seq<char>,
    on: Seq<Seq<char>>,
    id: Seq<char>,
    present: Seq<Seq<char>>,
    k: nat,
)
    requires
        k <= on.len(),
        forall|i: int| 0 <= i < on.len() ==> present.contains(#[trigger] on[i]),
    ensures
        kept_edges(d + edges_from(other, on), id, present, d.len() + k) == kept_edges(
            d,
            id,
            present,
            d.len(),
        ) + if other == id {
            on.take(k as int)
        } else {
            Seq::empty()
        },
    decreases k,
{
    let all = d + edges_from(other, on);
    if k == 0 {
        kept_of_first(d, all, id, present, d.len());
        assert(kept_edges(d, id, present, d.len()) + on.take(0) =~= kept_edges(
            d,
            id,
            present,
            d.len(),
        ));
        assert(kept_edges(d, id, present, d.len()) + Seq::<Seq<char>>::empty() =~= kept_edges(
            d,
            id,
            present,
            d.len(),
        ));
    } else {
        kept_of_both(d, other, on, id, present, (k - 1) as nat);
        let n = (d.len() + k) as int;
        assert(all[n - 1] == (DependencyV { task_id: other, depends_on: on[k - 1] }));
        assert(present.contains(on[k - 1]));
        if other == id {
            assert(on.take(k as int) =~= on.take(k - 1).push(on[k - 1]));
            assert((kept_edges(d, id, present, d.len()) + on.take(k - 1)).push(on[k - 1])
                =~= kept_edges(d, id, present, d.len()) + on.take(k as int));
        }
    }
}

proof fn kept_of_first(
    d: Seq<DependencyV>,
    all: Seq<DependencyV>,
    id: Seq<char>,
    present: Seq<Seq<char>>,
    n: nat,
)
    requires
        n <= d.len() <= all.len(),
        forall|i: int| 0 <= i < d.len() ==> all[i] == d[i],
    ensures
        kept_edges(all, id, present, n) == kept_edges(d, id, present, n),
    decreases n,
{
    if n > 0 {
        kept_of_first(d, all, id, present, (n - 1) as nat);
        assert(all[n - 1] == d[n - 1]);
    }
}

/// What the gathered edges are: edges of the store, of the first tasks only,
/// and of each of those what the store has.
proof fn gathered_edges(s: EngineV, n: nat)
    requires
        s.wf(),
        n <= s.tasks.len(),
    ensures
        forall|i: int|
            0 <= i < edges_gathered(s, n).len() ==> s.dependencies.contains(
                #[trigger] edges_gathered(s, n)[i],
            ) && ids_of(s.tasks.take(n as int)).contains(edges_gathered(s, n)[i].task_id),
        forall|i: int|
            0 <= i < n ==> kept_edges(
                edges_gathered(s, n),
                (#[trigger] s.tasks[i]).id,
                ids_of(s.tasks),
                edges_gathered(s, n).len(),
            ) == edges_on(s, s.tasks[i].id),
    decreases n,
{
    if n > 0 {
        let m = (n - 1) as nat;
        gathered_edges(s, m);
        let id = s.tasks[m as int].id;
        let on = edges_on(s, id);
        let before = edges_gathered(s, m);
        let more = edges_from(id, on);
        let now = edges_gathered(s, n);
        let present = ids_of(s.tasks);
        kept_are_edges(s.dependencies, id, present, s.dependencies.len());
        let done = ids_of(s.tasks.take(n as int));
        let earlier = ids_of(s.tasks.take(m as int));
        assert(done[m as int] == id);
        assert forall|i: int| 0 <= i < now.len() implies s.dependencies.contains(
            #[trigger] now[i],
        ) && done.contains(now[i].task_id) by {
            if i < before.len() {
                assert(now[i] == before[i]);
                let k = choose|k: int| 0 <= k < earlier.len() && earlier[k] == before[i].task_id;
                assert(done[k] == earlier[k]);
            } else {
                let j = i - before.len();
                assert(now[i] == more[j]);
                assert(more[j] == (DependencyV { task_id: id, depends_on: on[j] }));
                let x = on[j];
                let k = choose|k: int|
                    0 <= k < s.dependencies.len() && #[trigger] s.dependencies[k] == (
                    DependencyV { task_id: id, depends_on: x });
                assert(s.dependencies[k] == now[i]);
            }
        }
        assert forall|i: int| 0 <= i < n implies kept_edges(
            now,
            (#[trigger] s.tasks[i]).id,
            present,
            now.len(),
        ) == edges_on(s, s.tasks[i].id) by {
            let x = s.tasks[i].id;
            assert forall|j: int| 0 <= j < on.len() implies present.contains(#[trigger] on[j]) by {
            }
            kept_of_both(before, id, on, x, present, on.len());
            assert(now.len() == before.len() + on.len());
            if i == m {
                assert forall|j: int| 0 <= j < before.len() implies (
                #[trigger] before[j]).task_id != id by {
                    assert(earlier.contains(before[j].task_id));
                    let k = choose|k: int|
                        0 <= k < earlier.len() && earlier[k] == before[j].task_id;
                    assert(s.tasks[k].id != s.tasks[m as int].id);
                }
                none_kept(before, id, present, before.len());
                assert(Seq::<Seq<char>>::empty() + on.take(on.len() as int) =~= on);
            } else {
                assert(s.tasks[i].id != s.tasks[m as int].id);
                assert(kept_edges(before, x, present, before.len()) + Seq::<Seq<char>>::empty()
                    =~= kept_edges(before, x, present, before.len()));
            }
        }
    }
}

proof fn none_kept(d: Seq<DependencyV>, id: Seq<char>, present: Seq<Seq<char>>, n: nat)
    requires
        n <= d.len(),
    ensures
        (forall|j: int| 0 <= j < d.len() ==> (#[trigger] d[j]).task_id != id) ==> kept_edges(
            d,
            id,
            present,
            n,
        ) =~= Seq::empty(),
    decreases n,
{
    if n > 0 {
        none_kept(d, id, present, (n - 1) as nat);
    }
}

/// An edge of the store can be wired after any of its edges.
pub proof fn edge_is_free(s: EngineV, d: Seq<DependencyV>, id: Seq<char>, on: Seq<char>)
    requires
        s.wf(),
        forall|i: int| 0 <= i < d.len() ==> s.dependencies.contains(#[trigger] d[i]),
        s.dependencies.contains(DependencyV { task_id: id, depends_on: on }),
    ensures
        on != id,
        !waits_for(d, on, id),
        task_by_id(s.tasks, on) is Some,
{
    let e = s.dependencies;
    let new = DependencyV { task_id: id, depends_on: on };
    let k = choose|k: int| 0 <= k < e.len() && e[k] == new;
    assert(!waits_for(e, e[k].depends_on, e[k].task_id));
    if on == id {
        assert(path(e, on, id, 0));
    }
    if waits_for(d, on, id) {
        more_edges_wait(d, e, on, id);
    }
    assert(task_by_id(s.tasks, e[k].depends_on) is Some);
}

proof fn one_task_wired(s: EngineV, n: nat, k: nat)
    requires
        s.wf(),
        forall|i: int, j: int|
            0 <= i < j < s.dependencies.len() ==> (#[trigger] s.dependencies[i]) != (
            #[trigger] s.dependencies[j]),
        n < s.tasks.len(),
        k <= edges_on(s, s.tasks[n as int].id).len(),
    ensures
        ({
            let id = s.tasks[n as int].id;
            let on = edges_on(s, id);
            edges_of_one(s.tasks, edges_gathered(s, n), id, on, k) == Ok::<
                Seq<DependencyV>,
                ErrorV,
            >(edges_gathered(s, n) + edges_from(id, on).take(k as int))
        }),
    decreases k,
{
    let id = s.tasks[n as int].id;
    let on = edges_on(s, id);
    let d = edges_gathered(s, n);
    let more = edges_from(id, on);
    if k == 0 {
        assert(d + more.take(0) =~= d);
    } else {
        one_task_wired(s, n, (k - 1) as nat);
        gathered_edges(s, n);
        let now = d + more.take(k - 1);
        let present = ids_of(s.tasks);
        kept_are_edges(s.dependencies, id, present, s.dependencies.len());
        kept_differ(s.dependencies, id, present, s.dependencies.len());
        let x = on[k - 1];
        let new = DependencyV { task_id: id, depends_on: x };
        let p = choose|p: int|
            0 <= p < s.dependencies.len() && #[trigger] s.dependencies[p] == new;
        assert(s.dependencies.contains(new));
        assert forall|i: int| 0 <= i < now.len() implies s.dependencies.contains(
            #[trigger] now[i],
        ) by {
            if i < d.len() {
                assert(now[i] == d[i]);
            } else {
                let j = i - d.len();
                assert(now[i] == more[j]);
                let y = on[j];
                let q = choose|q: int|
                    0 <= q < s.dependencies.len() && #[trigger] s.dependencies[q] == (
                    DependencyV { task_id: id, depends_on: y });
                assert(s.dependencies[q] == now[i]);
            }
        }
        edge_is_free(s, now, id, x);
        assert forall|i: int| 0 <= i < now.len() implies now[i] != new by {
            if i < d.len() {
                assert(now[i] == d[i]);
                let earlier = ids_of(s.tasks.take(n as int));
                assert(earlier.contains(d[i].task_id));
                let q = choose|q: int| 0 <= q < earlier.len() && earlier[q] == d[i].task_id;
                assert(s.tasks[q].id != s.tasks[n as int].id);
            } else {
                let j = i - d.len();
                assert(now[i] == more[j]);
                assert(more[j].depends_on == on[j]);
                assert(on[j] != on[k - 1]);
            }
        }
        assert(!edge_in(now, id, x));
        assert(more[k - 1] == new);
        assert(now.push(new) =~= d + more.take(k as int));
    }
}

/// The edges of the first tasks are wired as the store has them.
pub proof fn edges_put_back(s: EngineV, n: nat)
    requires
        s.wf(),
        forall|i: int, j: int|
            0 <= i < j < s.dependencies.len() ==> (#[trigger] s.dependencies[i]) != (
            #[trigger] s.dependencies[j]),
        n <= s.tasks.len(),
    ensures
        edges_wired(s.tasks, Seq::empty(), edges_listed(s, s.tasks.len()), n) == Ok::<
            Seq<DependencyV>,
            ErrorV,
        >(edges_gathered(s, n)),
    decreases n,
{
    if n > 0 {
        let m = (n - 1) as nat;
        edges_put_back(s, m);
        listed_edges(s, s.tasks.len(), m as int);
        let id = s.tasks[m as int].id;
        let on = edges_on(s, id);
        one_task_wired(s, m, on.len());
        let more = edges_from(id, on);
        assert(more.len() == on.len());
        assert(more.take(on.len() as int) =~= more);
    }
}

/// A task has the edges it had.
pub proof fn gathered_keeps_edges(s: EngineV, i: int)
    requires
        s.wf(),
        0 <= i < s.tasks.len(),
    ensures
        kept_edges(
            edges_gathered(s, s.tasks.len()),
            s.tasks[i].id,
            ids_of(s.tasks),
            edges_gathered(s, s.tasks.len()).len(),
        ) == edges_on(s, s.tasks[i].id),
{
    gathered_edges(s, s.tasks.len());
}

/// No edge of the store leads out of it.
pub proof fn no_edge_leads_out(s: EngineV, d: Seq<DependencyV>, n: nat)
    requires
        s.wf(),
        n <= d.len(),
        forall|i: int| 0 <= i < d.len() ==> s.dependencies.contains(#[trigger] d[i]),
    ensures
        dropped_edges(d, ids_of(s.tasks), n) == 0,
    decreases n,
{
    if n > 0 {
        no_edge_leads_out(s, d, (n - 1) as nat);
        let x = d[n - 1];
        assert(s.dependencies.contains(x));
        let k = choose|k: int| 0 <= k < s.dependencies.len() && s.dependencies[k] == x;
        assert(task_by_id(s.tasks, s.dependencies[k].depends_on) is Some);
        found_stands(s.tasks, x.depends_on);
        let i = choose|i: int|
            0 <= i < s.tasks.len() && #[trigger] s.tasks[i] == task_by_id(
                s.tasks,
                x.depends_on,
            )->0 && s.tasks[i].id == x.depends_on;
        assert(ids_of(s.tasks)[i] == x.depends_on);
    }
}

/// Every gathered edge is an edge of the store.
pub proof fn gathered_is_stored(s: EngineV)
    requires
        s.wf(),
    ensures
        forall|i: int|
            0 <= i < edges_gathered(s, s.tasks.len()).len() ==> s.dependencies.contains(
                #[trigger] edges_gathered(s, s.tasks.len())[i],
            ),
{
    gathered_edges(s, s.tasks.len());
}

} // verus!
