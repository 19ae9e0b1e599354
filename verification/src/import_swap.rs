//! Two documents that differ in the order of their tasks: an import accepts
//! either or neither.

use crate::children::without;
use crate::engine::EngineV;
use crate::engine::task_by_id;
use crate::error::ErrorV;
use crate::import_children::each;
use crate::import_laws::each_prefix;
use crate::import_laws::sections_keep;
use crate::import_laws::sections_leave_tasks;
use crate::import_laws::tasks_keep;
use crate::import_laws::under_way;
use crate::import_laws::wiring_keeps;
use crate::import_numbers::all_numbered;
use crate::import_numbers::highest_of_both;
use crate::import_numbers::moves;
use crate::import_numbers::numbered;
use crate::import_numbers::row_id;
use crate::import_numbers::row_number;
use crate::import_order::order_is_free;
use crate::import_order::order_stays_free;
use crate::import_order::place_of_row;
use crate::import_order::swapped;
use crate::import_order::swapped_places;
use crate::import_order::swapped_rows_change_nothing;
use crate::import_order::swapped_rows_come_in;
use crate::import_read::EnvV;
use crate::import_read::head_spec;
use crate::import_repeat::all_wired;
use crate::import_repeat::all_wired_again;
use crate::import_repeat::edges_named;
use crate::import_repeat::row_effect;
use crate::import_rules::default_settled;
use crate::import_rules::edges_wired;
use crate::import_rules::finished;
use crate::import_rules::imported;
use crate::import_rules::number_settled;
use crate::import_rules::project_settled;
use crate::import_rules::project_written;
use crate::import_rules::raised;
use crate::import_rules::sections_in;
use crate::import_rules::task_one;
use crate::import_rules::task_step;
use crate::import_rules::tasks_in;
use crate::import_rules::tasks_spec;
use crate::import_rules::Work;
use crate::json::JsonV;
use crate::params::opt_array_spec;
use crate::params::opt_str_array_spec;
use crate::params::opt_str_nonempty_spec;
use crate::rows::Dependency;
use crate::rows::DependencyV;
use crate::rows::Project;
use crate::rows::ProjectV;
use crate::tables::find;
use crate::tables::put;
use crate::tables::put_is_found;
use crate::tables::put_leaves_the_rest;
use vstd::prelude::*;

verus! {

broadcast use vstd::string::group_string_axioms;

/// Whether two documents agree in everything but their tasks.
pub open spec fn same_but_tasks(p: JsonV, q: JsonV) -> bool {
    &&& q.get("projects"@) == p.get("projects"@)
    &&& q.get("docs"@) == p.get("docs"@)
    &&& q.get("events"@) == p.get("events"@)
    &&& q.get("default_project"@) == p.get("default_project"@)
}

/// Whether one of the first `n` rows names a project.
pub open spec fn named_by(v: Seq<JsonV>, n: nat, name: Seq<char>) -> bool {
    exists|i: int|
        0 <= i < n && head_spec(#[trigger] v[i], row_id(v[i]))->Ok_0.project == Some(name)
}

/// What a row that came in does to the projects and the edges.
#[verifier::rlimit(60)]
#[verifier::spinoff_prover]
proof fn row_leaves(w: Work, tv: JsonV, declared: bool, env: EnvV, name: Seq<char>)
    requires
        task_one(w, tv, declared, env) is Ok,
    ensures
        ({
            let r = task_one(w, tv, declared, env)->Ok_0;
            let id = row_id(tv);
            let was = find::<Project>(w.e.projects, name);
            let now = find::<Project>(r.e.projects, name);
            &&& r.e.dependencies == without::<Dependency>(w.e.dependencies, id)
            &&& was is Some ==> now == was
            &&& was is None && head_spec(tv, id)->Ok_0.project == Some(name) ==> (now matches Some(
                x,
            ) && !x.archived)
            &&& was is None && head_spec(tv, id)->Ok_0.project != Some(name) ==> now is None
        }),
{
    let id = row_id(tv);
    let head = head_spec(tv, id)->Ok_0;
    let begun = Work { written: w.written.push(id), ..w };
    let settled = project_settled(begun, id, head.project, declared, env)->Ok_0;
    assert({
        let was = find::<Project>(w.e.projects, name);
        let now = find::<Project>(settled.e.projects, name);
        &&& settled.e.dependencies == w.e.dependencies
        &&& was is Some ==> now == was
        &&& was is None && head.project == Some(name) ==> (now matches Some(x) && !x.archived)
        &&& was is None && head.project != Some(name) ==> now is None
    }) by {
        if let Some(own) = head.project {
            if find::<Project>(begun.e.projects, own) is None {
                let p = project_written(begun, own, None, false, env.log.now, None, env)->Ok_0;
                let row = ProjectV {
                    id: p.1,
                    name: own,
                    description: None,
                    archived: false,
                    created: env.log.now,
                };
                assert(p.0.e.projects == put::<Project>(w.e.projects, row));
                put_is_found::<Project>(w.e.projects, row);
                if own != name {
                    put_leaves_the_rest::<Project>(w.e.projects, row, name);
                }
            }
        }
    }
    let n = number_settled(settled, id, row_number(tv))->Ok_0;
    assert(n.0.e.projects == settled.e.projects && n.0.e.dependencies
        == settled.e.dependencies);
}

/// The edges and the projects of an import under way, once `n` rows are in.
#[verifier::opaque]
spec fn leaves(w: Work, s: Work, v: Seq<JsonV>, n: nat) -> bool {
    &&& w.edges == edges_named(v, n)
    &&& w.e.default_project == s.e.default_project
    &&& forall|x: DependencyV| #[trigger]
        w.e.dependencies.contains(x) <==> s.e.dependencies.contains(x) && !listed_row(
            v,
            n,
            x.task_id,
        )
    &&& forall|name: Seq<char>|
        find::<Project>(s.e.projects, name) is Some ==> #[trigger] find::<Project>(
            w.e.projects,
            name,
        ) == find::<Project>(s.e.projects, name)
    &&& forall|name: Seq<char>|
        find::<Project>(s.e.projects, name) is None ==> match #[trigger] find::<Project>(
            w.e.projects,
            name,
        ) {
            Some(x) => named_by(v, n, name) && !x.archived,
            None => !named_by(v, n, name),
        }
}

/// Whether one of the first `n` rows is about the task `id`.
pub open spec fn listed_row(v: Seq<JsonV>, n: nat, id: Seq<char>) -> bool {
    exists|i: int| 0 <= i < n && row_id(#[trigger] v[i]) == id
}

proof fn rest_holds(s: Seq<DependencyV>, owner: Seq<char>, x: DependencyV)
    ensures
        without::<Dependency>(s, owner).contains(x) <==> s.contains(x) && x.task_id != owner,
    decreases s.len(),
{
    let r = without::<Dependency>(s, owner);
    if s.len() > 0 {
        let d = s.drop_last();
        let q = without::<Dependency>(d, owner);
        rest_holds(d, owner, x);
        if r.contains(x) {
            let k = choose|k: int| 0 <= k < r.len() && r[k] == x;
            if k < q.len() {
                assert(q[k] == x);
                let m = choose|m: int| 0 <= m < d.len() && d[m] == x;
                assert(s[m] == x);
            } else {
                assert(s[s.len() - 1] == x);
            }
        }
        if s.contains(x) && x.task_id != owner {
            let k = choose|k: int| 0 <= k < s.len() && s[k] == x;
            if k < d.len() {
                assert(d[k] == x);
                let m = choose|m: int| 0 <= m < q.len() && q[m] == x;
                assert(r[m] == x);
            } else {
                assert(r[q.len() as int] == x);
            }
        }
    }
}

proof fn one_more_listed(v: Seq<JsonV>, n: nat, id: Seq<char>)
    requires
        n < v.len(),
    ensures
        listed_row(v, n + 1, id) <==> listed_row(v, n, id) || row_id(v[n as int]) == id,
{
    if listed_row(v, n, id) {
        let i = choose|i: int| 0 <= i < n && row_id(#[trigger] v[i]) == id;
        assert(row_id(v[i]) == id);
    }
}

proof fn one_more_names(v: Seq<JsonV>, n: nat, name: Seq<char>)
    requires
        n < v.len(),
    ensures
        named_by(v, n + 1, name) <==> named_by(v, n, name) || head_spec(
            v[n as int],
            row_id(v[n as int]),
        )->Ok_0.project == Some(name),
{
    let h = head_spec(v[n as int], row_id(v[n as int]))->Ok_0.project;
    if named_by(v, n, name) {
        let i = choose|i: int|
            0 <= i < n && head_spec(#[trigger] v[i], row_id(v[i]))->Ok_0.project == Some(name);
        assert(head_spec(v[i], row_id(v[i]))->Ok_0.project == Some(name));
    }
    if h == Some(name) {
        assert(named_by(v, n + 1, name));
    }
    if named_by(v, n + 1, name) && h != Some(name) {
        let i = choose|i: int|
            0 <= i < n + 1 && head_spec(#[trigger] v[i], row_id(v[i]))->Ok_0.project == Some(name);
        assert(i < n);
        assert(named_by(v, n, name));
    }
}

proof fn one_more_leaves(w: Work, s: Work, v: Seq<JsonV>, declared: bool, env: EnvV, n: nat)
    requires
        n < v.len(),
        leaves(w, s, v, n),
        task_one(w, v[n as int], declared, env) is Ok,
    ensures
        leaves(task_one(w, v[n as int], declared, env)->Ok_0, s, v, n + 1),
{
    reveal(leaves);
    let tv = v[n as int];
    let r = task_one(w, tv, declared, env)->Ok_0;
    row_effect(w, tv, declared, env);
    assert forall|x: DependencyV| #[trigger]
        r.e.dependencies.contains(x) <==> s.e.dependencies.contains(x) && !listed_row(
            v,
            n + 1,
            x.task_id,
        ) by {
        row_leaves(w, tv, declared, env, x.task_id);
        rest_holds(w.e.dependencies, row_id(tv), x);
        one_more_listed(v, n, x.task_id);
    }
    assert forall|name: Seq<char>|
        find::<Project>(s.e.projects, name) is Some implies #[trigger] find::<Project>(
        r.e.projects,
        name,
    ) == find::<Project>(s.e.projects, name) by {
        row_leaves(w, tv, declared, env, name);
    }
    assert forall|name: Seq<char>|
        find::<Project>(s.e.projects, name) is None implies match #[trigger] find::<Project>(
        r.e.projects,
        name,
    ) {
        Some(x) => named_by(v, n + 1, name) && !x.archived,
        None => !named_by(v, n + 1, name),
    } by {
        row_leaves(w, tv, declared, env, name);
        one_more_names(v, n, name);
        assert(match find::<Project>(w.e.projects, name) {
            Some(x) => named_by(v, n, name) && !x.archived,
            None => !named_by(v, n, name),
        });
    }
}

proof fn rows_leave(v: Seq<JsonV>, s: Work, declared: bool, env: EnvV, n: nat)
    requires
        n <= v.len(),
        s.edges == Seq::<(Seq<char>, Seq<Seq<char>>)>::empty(),
        each(v, v.len(), s, task_step(declared, env)) is Ok,
    ensures
        each(v, n, s, task_step(declared, env)) matches Ok(w) && leaves(w, s, v, n),
    decreases n,
{
    let step = task_step(declared, env);
    each_prefix(v, n, v.len(), s, step);
    if n > 0 {
        let k = (n - 1) as nat;
        rows_leave(v, s, declared, env, k);
        let w = each(v, k, s, step)->Ok_0;
        assert(step(w, v[k as int]) == task_one(w, v[k as int], declared, env));
        one_more_leaves(w, s, v, declared, env, k);
    } else {
        reveal(leaves);
    }
}

proof fn swapped_listing(a: Seq<JsonV>, p: int, q: int, id: Seq<char>)
    requires
        0 <= p < a.len(),
        0 <= q < a.len(),
    ensures
        listed_row(swapped(a, p, q), a.len(), id) == listed_row(a, a.len(), id),
        named_by(swapped(a, p, q), a.len(), id) == named_by(a, a.len(), id),
{
    let b = swapped(a, p, q);
    let n = a.len();
    swapped_places(a, p, q);
    if listed_row(a, n, id) {
        let i = choose|i: int| 0 <= i < n && row_id(#[trigger] a[i]) == id;
        assert(row_id(b[place_of_row(p, q, i)]) == id);
    }
    if listed_row(b, n, id) {
        let i = choose|i: int| 0 <= i < n && row_id(#[trigger] b[i]) == id;
        assert(row_id(a[place_of_row(p, q, i)]) == id);
    }
    if named_by(a, n, id) {
        let i = choose|i: int|
            0 <= i < n && head_spec(#[trigger] a[i], row_id(a[i]))->Ok_0.project == Some(id);
        let x = b[place_of_row(p, q, i)];
        assert(head_spec(x, row_id(x))->Ok_0.project == Some(id));
    }
    if named_by(b, n, id) {
        let i = choose|i: int|
            0 <= i < n && head_spec(#[trigger] b[i], row_id(b[i]))->Ok_0.project == Some(id);
        let x = a[place_of_row(p, q, i)];
        assert(head_spec(x, row_id(x))->Ok_0.project == Some(id));
    }
}

/// The tasks there are once a document's rows are in: those that were, and
/// those of the rows.
proof fn tasks_there(w: Work, v: Seq<JsonV>, declared: bool, env: EnvV, id: Seq<char>)
    requires
        tasks_in(w, v, declared, env) is Ok,
    ensures
        task_by_id(tasks_in(w, v, declared, env)->Ok_0.e.tasks, id) is Some <==> task_by_id(
            w.e.tasks,
            id,
        ) is Some || listed_row(v, v.len(), id),
{
    reveal(tasks_in);
    all_numbered(v, w, declared, env, v.len());
    let s = raised(w, v);
    let t = tasks_in(w, v, declared, env)->Ok_0;
    assert(numbered(t, s, v, env, v.len()));
    if listed_row(v, v.len(), id) {
        let i = choose|i: int| 0 <= i < v.len() && row_id(#[trigger] v[i]) == id;
        assert(task_by_id(t.e.tasks, row_id(v[i])) is Some);
    } else {
        assert forall|i: int| 0 <= i < v.len() implies row_id(#[trigger] v[i]) != id by {
        }
        assert(task_by_id(t.e.tasks, id) == task_by_id(s.e.tasks, id));
    }
}

proof fn named_edge(v: Seq<JsonV>, n: nat, i: int)
    requires
        0 <= i < n <= v.len(),
    ensures
        edges_named(v, n).len() == n,
        edges_named(v, n)[i] == (row_id(v[i]), opt_str_array_spec(v[i], "depends_on"@)->Ok_0),
    decreases n,
{
    if i < n - 1 {
        named_edge(v, (n - 1) as nat, i);
    } else if n > 1 {
        named_edge(v, (n - 1) as nat, 0);
    } else {
        assert(edges_named(v, 0) =~= Seq::empty());
    }
}

/// What is finished once the rows are in is finished in another order too.
#[verifier::rlimit(40)]
proof fn swapped_rows_finish(
    w: Work,
    a: Seq<JsonV>,
    p: int,
    q: int,
    declared: bool,
    env: EnvV,
    want: Option<Seq<char>>,
)
    requires
        0 <= p < a.len(),
        0 <= q < a.len(),
        under_way(w, 1),
        w.edges == Seq::<(Seq<char>, Seq<Seq<char>>)>::empty(),
        tasks_in(w, a, declared, env) is Ok,
        tasks_in(w, swapped(a, p, q), declared, env) is Ok,
        finished(tasks_in(w, a, declared, env)->Ok_0, want) is Ok,
    ensures
        finished(tasks_in(w, swapped(a, p, q), declared, env)->Ok_0, want) is Ok,
{
    let b = swapped(a, p, q);
    let n = a.len();
    swapped_places(a, p, q);
    highest_of_both(a, b);
    let s = raised(w, a);
    assert(s == raised(w, b));
    let ta = tasks_in(w, a, declared, env)->Ok_0;
    let tb = tasks_in(w, b, declared, env)->Ok_0;
    assert(leaves(ta, s, a, n) && leaves(tb, s, b, n)) by {
        reveal(tasks_in);
        rows_leave(a, s, declared, env, n);
        rows_leave(b, s, declared, env, n);
    }
    tasks_keep(w, a, declared, env);
    tasks_keep(w, b, declared, env);
    reveal(finished);
    let da = edges_wired(ta.e.tasks, ta.e.dependencies, ta.edges, ta.edges.len())->Ok_0;
    wiring_keeps(ta.e.tasks, ta.e.dependencies, ta.edges, ta.edges.len());
    all_wired(ta.e.tasks, ta.e.dependencies, ta.edges, ta.edges.len());
    let t = EngineV { dependencies: da, ..tb.e };
    assert(t.wf()) by {
        assert forall|i: int| 0 <= i < da.len() implies task_by_id(
            tb.e.tasks,
            (#[trigger] da[i]).task_id,
        ) is Some && task_by_id(tb.e.tasks, da[i].depends_on) is Some by {
            tasks_there(w, a, declared, env, da[i].task_id);
            tasks_there(w, b, declared, env, da[i].task_id);
            swapped_listing(a, p, q, da[i].task_id);
            tasks_there(w, a, declared, env, da[i].depends_on);
            tasks_there(w, b, declared, env, da[i].depends_on);
            swapped_listing(a, p, q, da[i].depends_on);
        }
    }
    let d = tb.e.dependencies;
    assert forall|i: int| 0 <= i < d.len() implies da.contains(#[trigger] d[i]) by {
        reveal(leaves);
        assert(d.contains(d[i]));
        swapped_listing(a, p, q, d[i].task_id);
        assert(ta.e.dependencies.contains(d[i]));
    }
    assert(tb.edges == edges_named(b, n) && ta.edges == edges_named(a, n)) by {
        reveal(leaves);
    }
    named_edge(a, n, 0);
    named_edge(b, n, 0);
    assert forall|i: int, j: int| 0 <= i < tb.edges.len() && 0 <= j < tb.edges[i].1.len() implies
        da.contains(
        DependencyV { task_id: tb.edges[i].0, depends_on: #[trigger] tb.edges[i].1[j] },
    ) by {
        let k = place_of_row(p, q, i);
        named_edge(b, n, i);
        named_edge(a, n, k);
        assert(b[i] == a[k]);
        assert(tb.edges[i] == ta.edges[k]);
        assert(task_by_id(ta.e.tasks, ta.edges[k].1[j]) is Some);
    }
    all_wired_again(t, d, tb.edges, tb.edges.len());
    assert(default_settled(tb.e, want) is Ok) by {
        reveal(leaves);
        if let Some(name) = want {
            swapped_listing(a, p, q, name);
            assert(find::<Project>(ta.e.projects, name) is Some);
            if find::<Project>(s.e.projects, name) is Some {
                assert(find::<Project>(tb.e.projects, name) == find::<Project>(
                    s.e.projects,
                    name,
                ));
            } else {
                assert(named_by(a, n, name));
            }
        }
    }
}

proof fn swapped_tasks_come_in(
    e: EngineV,
    p: JsonV,
    q: JsonV,
    i: int,
    j: int,
    env: EnvV,
)
    requires
        e.wf(),
        same_but_tasks(p, q),
        tasks_spec(p) is Ok,
        0 <= i < tasks_spec(p)->Ok_0.len(),
        0 <= j < tasks_spec(p)->Ok_0.len(),
        tasks_spec(q) == Ok::<Seq<JsonV>, ErrorV>(swapped(tasks_spec(p)->Ok_0, i, j)),
        sections_in(e, p, env) matches Ok(w) ==> order_is_free(w, tasks_spec(p)->Ok_0, env),
        imported(e, p, env) is Ok,
    ensures
        imported(e, q, env) is Ok,
{
    let a = tasks_spec(p)->Ok_0;
    let declared = opt_array_spec(p, "projects"@)->Ok_0 is Some;
    let want = opt_str_nonempty_spec(p, "default_project"@)->Ok_0;
    assert(sections_in(e, q, env) == sections_in(e, p, env)) by {
        reveal(sections_in);
    }
    let w = sections_in(e, p, env)->Ok_0;
    sections_leave_tasks(e, p, env);
    sections_keep(e, p, env);
    swapped_rows_come_in(w, a, i, j, declared, env);
    swapped_rows_finish(w, a, i, j, declared, env, want);
}

/// Swapping two tasks of a document changes neither whether the document is
/// accepted nor, where at most one of its tasks has to take another number, what
/// any of them becomes.
pub proof fn swapped_tasks_change_no_import(
    e: EngineV,
    p: JsonV,
    q: JsonV,
    i: int,
    j: int,
    env: EnvV,
)
    requires
        e.wf(),
        same_but_tasks(p, q),
        tasks_spec(p) is Ok,
        0 <= i < j < tasks_spec(p)->Ok_0.len(),
        tasks_spec(q) == Ok::<Seq<JsonV>, ErrorV>(swapped(tasks_spec(p)->Ok_0, i, j)),
        sections_in(e, p, env) matches Ok(w) ==> order_is_free(w, tasks_spec(p)->Ok_0, env),
    ensures
        imported(e, p, env) is Ok <==> imported(e, q, env) is Ok,
        imported(e, p, env) is Ok && (forall|x: int, y: int|
            0 <= x < tasks_spec(p)->Ok_0.len() && 0 <= y < tasks_spec(p)->Ok_0.len() && moves(
                e.tasks,
                #[trigger] tasks_spec(p)->Ok_0[x],
            ) && moves(e.tasks, #[trigger] tasks_spec(p)->Ok_0[y]) ==> x == y) ==> forall|k: int|
            0 <= k < tasks_spec(p)->Ok_0.len() ==> task_by_id(
                imported(e, q, env)->Ok_0.0.tasks,
                row_id(#[trigger] tasks_spec(p)->Ok_0[k]),
            ) == task_by_id(
                imported(e, p, env)->Ok_0.0.tasks,
                row_id(tasks_spec(p)->Ok_0[k]),
            ),
{
    let a = tasks_spec(p)->Ok_0;
    let b = swapped(a, i, j);
    assert(sections_in(e, q, env) == sections_in(e, p, env)) by {
        reveal(sections_in);
    }
    swapped_places(a, i, j);
    if sections_in(e, p, env) is Ok {
        let w = sections_in(e, p, env)->Ok_0;
        let declared = opt_array_spec(p, "projects"@)->Ok_0 is Some;
        sections_leave_tasks(e, p, env);
        order_stays_free(w, a, i, j, env);
        if imported(e, p, env) is Ok {
            swapped_tasks_come_in(e, p, q, i, j, env);
            swapped_rows_change_nothing(w, a, i, j, declared, env);
            reveal(finished);
        }
        if imported(e, q, env) is Ok {
            swapped_tasks_come_in(e, q, p, i, j, env);
        }
    }
}

} // verus!
