//! What an import makes of the edges between tasks.

use crate::children::without;
use crate::engine::EngineV;
use crate::import_children::each;
use crate::import_laws::each_prefix;
use crate::import_laws::sections_leave_tasks;
use crate::import_numbers::row_id;
use crate::import_read::EnvV;
use crate::import_repeat::edges_named;
use crate::import_repeat::row_effect;
use crate::import_rules::begun;
use crate::import_rules::doc_step;
use crate::import_rules::edge_in;
use crate::import_rules::edges_of_one;
use crate::import_rules::edges_wired;
use crate::import_rules::event_step;
use crate::import_rules::imported;
use crate::import_rules::project_step;
use crate::import_rules::raised;
use crate::import_rules::section;
use crate::import_rules::sections_in;
use crate::import_rules::task_one;
use crate::import_rules::task_step;
use crate::import_rules::tasks_in;
use crate::import_rules::tasks_spec;
use crate::import_rules::Work;
use crate::json::JsonV;
use crate::merge_laws::listed_texts_are_read;
use crate::merge_laws::lists_text;
use crate::merge_sections::each_from;
use crate::params::opt_array_spec;
use crate::params::opt_str_array_spec;
use crate::rows::Dependency;
use crate::rows::DependencyV;
use crate::rows::TaskV;
use vstd::prelude::*;

verus! {

broadcast use vstd::string::group_string_axioms;

/// Whether one of the first `n` entries of a list of edges says that a task
/// depends on another.
pub open spec fn wanted(
    edges: Seq<(Seq<char>, Seq<Seq<char>>)>,
    n: nat,
    id: Seq<char>,
    on: Seq<char>,
) -> bool {
    exists|k: int| 0 <= k < n && (#[trigger] edges[k]).0 == id && edges[k].1.contains(on)
}

proof fn one_tasks_edges(
    tasks: Seq<TaskV>,
    d: Seq<DependencyV>,
    id: Seq<char>,
    on: Seq<Seq<char>>,
    n: nat,
    a: Seq<char>,
    b: Seq<char>,
)
    requires
        n <= on.len(),
        edges_of_one(tasks, d, id, on, n) is Ok,
    ensures
        edge_in(edges_of_one(tasks, d, id, on, n)->Ok_0, a, b) <==> edge_in(d, a, b) || (a == id
            && on.take(n as int).contains(b)),
    decreases n,
{
    if n > 0 {
        one_tasks_edges(tasks, d, id, on, (n - 1) as nat, a, b);
        let s = edges_of_one(tasks, d, id, on, (n - 1) as nat)->Ok_0;
        let r = edges_of_one(tasks, d, id, on, n)->Ok_0;
        let e = DependencyV { task_id: id, depends_on: on[n - 1] };
        let x = DependencyV { task_id: a, depends_on: b };
        let was = on.take(n - 1);
        let now = on.take(n as int);
        if was.contains(b) {
            let k = choose|k: int| 0 <= k < was.len() && was[k] == b;
            assert(now[k] == b);
        }
        assert(now[n - 1] == on[n - 1]);
        if now.contains(b) {
            let k = choose|k: int| 0 <= k < now.len() && now[k] == b;
            if k < n - 1 {
                assert(was[k] == b);
            }
        }
        if !edge_in(s, id, on[n - 1]) {
            assert(r == s.push(e));
            assert(r[s.len() as int] == e);
            if s.contains(x) {
                let k = choose|k: int| 0 <= k < s.len() && s[k] == x;
                assert(r[k] == x);
            }
            if r.contains(x) {
                let k = choose|k: int| 0 <= k < r.len() && r[k] == x;
                if k < s.len() {
                    assert(s[k] == x);
                }
            }
        }
    }
}

proof fn all_edges(
    tasks: Seq<TaskV>,
    d: Seq<DependencyV>,
    edges: Seq<(Seq<char>, Seq<Seq<char>>)>,
    n: nat,
    a: Seq<char>,
    b: Seq<char>,
)
    requires
        n <= edges.len(),
        edges_wired(tasks, d, edges, n) is Ok,
    ensures
        edge_in(edges_wired(tasks, d, edges, n)->Ok_0, a, b) <==> edge_in(d, a, b) || wanted(
            edges,
            n,
            a,
            b,
        ),
    decreases n,
{
    if n > 0 {
        let m = (n - 1) as nat;
        all_edges(tasks, d, edges, m, a, b);
        let s = edges_wired(tasks, d, edges, m)->Ok_0;
        let on = edges[n - 1].1;
        one_tasks_edges(tasks, s, edges[n - 1].0, on, on.len(), a, b);
        assert(on.take(on.len() as int) =~= on);
        if wanted(edges, n, a, b) {
            let k = choose|k: int|
                0 <= k < n && (#[trigger] edges[k]).0 == a && edges[k].1.contains(b);
            if k < m {
                assert(wanted(edges, m, a, b));
            }
        }
        if wanted(edges, m, a, b) {
            let k = choose|k: int|
                0 <= k < m && (#[trigger] edges[k]).0 == a && edges[k].1.contains(b);
            assert(wanted(edges, n, a, b));
        }
        if a == edges[n - 1].0 && on.contains(b) {
            assert(edges[n - 1].0 == a);
            assert(wanted(edges, n, a, b));
        }
    }
}

proof fn edges_without(s: Seq<DependencyV>, owner: Seq<char>, a: Seq<char>, b: Seq<char>)
    ensures
        edge_in(without::<Dependency>(s, owner), a, b) <==> edge_in(s, a, b) && a != owner,
    decreases s.len(),
{
    let x = DependencyV { task_id: a, depends_on: b };
    if s.len() > 0 {
        let d = s.drop_last();
        let q = without::<Dependency>(d, owner);
        let r = without::<Dependency>(s, owner);
        edges_without(d, owner, a, b);
        if s.contains(x) {
            let k = choose|k: int| 0 <= k < s.len() && s[k] == x;
            if k < s.len() - 1 {
                assert(d[k] == x);
            }
        }
        if d.contains(x) {
            let k = choose|k: int| 0 <= k < d.len() && d[k] == x;
            assert(s[k] == x);
        }
        if s.last() == x {
            assert(s[s.len() - 1] == x);
        }
        if s.last().task_id != owner {
            assert(r == q.push(s.last()));
            assert(r[q.len() as int] == s.last());
            if q.contains(x) {
                let k = choose|k: int| 0 <= k < q.len() && q[k] == x;
                assert(r[k] == x);
            }
            if r.contains(x) {
                let k = choose|k: int| 0 <= k < r.len() && r[k] == x;
                if k < q.len() {
                    assert(q[k] == x);
                }
            }
        }
    } else {
        assert(!s.contains(x));
    }
}

/// Whether none of the first `n` rows is about a task.
pub open spec fn unnamed(v: Seq<JsonV>, n: nat, a: Seq<char>) -> bool {
    forall|k: int| 0 <= k < n ==> row_id(#[trigger] v[k]) != a
}

/// The edges that are to be wired once the first `n` rows are in, and those
/// that are left until then.
#[verifier::rlimit(80)]
#[verifier::spinoff_prover]
proof fn rows_unwire(
    w: Work,
    v: Seq<JsonV>,
    n: nat,
    declared: bool,
    env: EnvV,
    a: Seq<char>,
    b: Seq<char>,
)
    requires
        n <= v.len(),
        each(v, n, w, task_step(declared, env)) is Ok,
        w.edges == Seq::<(Seq<char>, Seq<Seq<char>>)>::empty(),
    ensures
        ({
            let t = each(v, n, w, task_step(declared, env))->Ok_0;
            &&& t.edges == edges_named(v, n)
            &&& t.edges.len() == n
            &&& edge_in(t.e.dependencies, a, b) <==> edge_in(w.e.dependencies, a, b) && unnamed(
                v,
                n,
                a,
            )
        }),
    decreases n,
{
    if n > 0 {
        let m = (n - 1) as nat;
        let step = task_step(declared, env);
        each_prefix(v, m, n, w, step);
        rows_unwire(w, v, m, declared, env, a, b);
        let t = each(v, m, w, step)->Ok_0;
        let tv = v[n - 1];
        assert(step(t, tv) == task_one(t, tv, declared, env));
        row_effect(t, tv, declared, env);
        row_unwires(t, tv, declared, env);
        let r = each(v, n, w, step)->Ok_0;
        assert(r.e.dependencies == without::<Dependency>(t.e.dependencies, row_id(tv)));
        assert(r.edges == edges_named(v, n));
        edges_without(t.e.dependencies, row_id(tv), a, b);
        assert(unnamed(v, n, a) <==> unnamed(v, m, a) && row_id(tv) != a) by {
            if unnamed(v, m, a) && row_id(tv) != a {
                assert forall|k: int| 0 <= k < n implies row_id(#[trigger] v[k]) != a by {}
            }
        }
    } else {
        assert(edges_named(v, 0) =~= Seq::<(Seq<char>, Seq<Seq<char>>)>::empty());
    }
}

#[verifier::rlimit(40)]
proof fn row_unwires(w: Work, tv: JsonV, declared: bool, env: EnvV)
    requires
        task_one(w, tv, declared, env) is Ok,
    ensures
        task_one(w, tv, declared, env)->Ok_0.e.dependencies == without::<Dependency>(
            w.e.dependencies,
            row_id(tv),
        ),
{
}

/// Once a document is in, a task of it depends on exactly what its row lists,
/// and any other task on exactly what it depended on before.
#[verifier::rlimit(40)]
pub proof fn imported_tasks_depend_on_what_their_rows_list(
    e: EngineV,
    p: JsonV,
    env: EnvV,
    rows: Seq<JsonV>,
    id: Seq<char>,
    on: Seq<char>,
)
    requires
        imported(e, p, env) is Ok,
        p.get("tasks"@) == Some(JsonV::Arr(rows)),
    ensures
        ({
            let now = edge_in(imported(e, p, env)->Ok_0.0.dependencies, id, on);
            &&& (forall|i: int|
                0 <= i < rows.len() ==> (#[trigger] rows[i]).get("id"@) != Some(JsonV::Str(id)))
                ==> now == edge_in(e.dependencies, id, on)
            &&& (exists|i: int|
                0 <= i < rows.len() && (#[trigger] rows[i]).get("id"@) == Some(JsonV::Str(id)))
                ==> (now <==> exists|i: int|
                0 <= i < rows.len() && (#[trigger] rows[i]).get("id"@) == Some(JsonV::Str(id))
                    && lists_text(rows[i], "depends_on"@, on))
        }),
{
    let w = sections_in(e, p, env)->Ok_0;
    let declared = opt_array_spec(p, "projects"@)->Ok_0 is Some;
    sections_leave_tasks(e, p, env);
    sections_leave_edges(e, p, env);
    let s = raised(w, rows);
    let step = task_step(declared, env);
    assert(tasks_spec(p)->Ok_0 == rows);
    assert(each(rows, rows.len(), s, step) is Ok && each(rows, rows.len(), s, step) == tasks_in(
        w,
        rows,
        declared,
        env,
    )) by {
        reveal(crate::import_rules::tasks_in);
    }
    let t = each(rows, rows.len(), s, step)->Ok_0;
    rows_unwire(s, rows, rows.len(), declared, env, id, on);
    assert(edges_wired(t.e.tasks, t.e.dependencies, t.edges, t.edges.len()) is Ok && imported(
        e,
        p,
        env,
    )->Ok_0.0.dependencies == edges_wired(
        t.e.tasks,
        t.e.dependencies,
        t.edges,
        t.edges.len(),
    )->Ok_0) by {
        reveal(crate::import_rules::finished);
    }
    all_edges(t.e.tasks, t.e.dependencies, t.edges, t.edges.len(), id, on);
    assert forall|i: int| 0 <= i < rows.len() implies ((#[trigger] rows[i]).get("id"@) == Some(
        JsonV::Str(id),
    ) <==> row_id(rows[i]) == id) && t.edges[i].0 == row_id(rows[i]) && (t.edges[i].1.contains(on)
        <==> lists_text(rows[i], "depends_on"@, on)) by {
        each_prefix(rows, i as nat, rows.len(), s, step);
        each_prefix(rows, i as nat + 1, rows.len(), s, step);
        let u = each(rows, i as nat, s, step)->Ok_0;
        assert(step(u, rows[i]) == task_one(u, rows[i], declared, env));
        named_at(rows, rows.len(), i);
        listed_texts_are_read(rows[i], "depends_on"@, on);
    }
    if wanted(t.edges, t.edges.len(), id, on) {
        let k = choose|k: int|
            0 <= k < t.edges.len() && (#[trigger] t.edges[k]).0 == id && t.edges[k].1.contains(on);
        assert(rows[k].get("id"@) == Some(JsonV::Str(id)));
    }
    if exists|i: int|
        0 <= i < rows.len() && (#[trigger] rows[i]).get("id"@) == Some(JsonV::Str(id))
            && lists_text(rows[i], "depends_on"@, on) {
        let i = choose|i: int|
            0 <= i < rows.len() && (#[trigger] rows[i]).get("id"@) == Some(JsonV::Str(id))
                && lists_text(rows[i], "depends_on"@, on);
        assert(t.edges[i].0 == id);
        assert(wanted(t.edges, t.edges.len(), id, on));
    }
    if exists|i: int|
        0 <= i < rows.len() && (#[trigger] rows[i]).get("id"@) == Some(JsonV::Str(id)) {
        let i = choose|i: int|
            0 <= i < rows.len() && (#[trigger] rows[i]).get("id"@) == Some(JsonV::Str(id));
        assert(row_id(rows[i]) == id);
    } else {
        assert forall|k: int| 0 <= k < rows.len() implies row_id(#[trigger] rows[k]) != id by {
            assert(rows[k].get("id"@) != Some(JsonV::Str(id)));
        }
    }
}

proof fn named_at(v: Seq<JsonV>, n: nat, i: int)
    requires
        0 <= i < n <= v.len(),
    ensures
        edges_named(v, n).len() == n,
        edges_named(v, n)[i] == (row_id(v[i]), opt_str_array_spec(v[i], "depends_on"@)->Ok_0),
    decreases n,
{
    if i < n - 1 {
        named_at(v, (n - 1) as nat, i);
    } else if n > 1 {
        named_at(v, (n - 1) as nat, 0);
    } else {
        assert(edges_named(v, 0) =~= Seq::<(Seq<char>, Seq<Seq<char>>)>::empty());
    }
}

proof fn sections_leave_edges(e: EngineV, p: JsonV, env: EnvV)
    requires
        sections_in(e, p, env) is Ok,
    ensures
        sections_in(e, p, env)->Ok_0.e.dependencies == e.dependencies,
{
    reveal(crate::import_rules::sections_in);
    let ps = section(opt_array_spec(p, "projects"@));
    let ds = section(opt_array_spec(p, "docs"@));
    let es = section(opt_array_spec(p, "events"@));
    let same = |t: Work| t.e.dependencies == e.dependencies;
    let w1 = each(ps, ps.len(), begun(e), project_step(env))->Ok_0;
    let w2 = each(ds, ds.len(), w1, doc_step(env))->Ok_0;
    each_from(ps, 0, ps.len(), begun(e), project_step(env), same);
    each_from(ds, 0, ds.len(), w1, doc_step(env), same);
    each_from(es, 0, es.len(), w2, event_step(env), same);
}

} // verus!
