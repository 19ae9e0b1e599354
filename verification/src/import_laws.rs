//! What holds of every import.

use crate::children::without;
use crate::engine::EngineV;
use crate::engine::number_taken;
use crate::engine::task_added;
use crate::engine::task_by_id;
use crate::engine::task_put;
use crate::engine::task_replaced;
use crate::engine::tasks_ok;
use crate::error::ErrorV;
use crate::frontmatter::flat;
use crate::graph::acyclic;
use crate::graph::fewer_edges_stay_acyclic;
use crate::graph::safe_edge_stays_acyclic;
use crate::import_children::annotations_done;
use crate::import_children::checks_done;
use crate::import_children::each;
use crate::import_children::measurements_done;
use crate::import_read::body_spec;
use crate::import_read::EnvV;
use crate::import_read::head_spec;
use crate::import_read::opt_when_spec;
use crate::import_read::task_tags_spec;
use crate::import_rules::begun;
use crate::import_rules::doc_mark;
use crate::import_rules::doc_one;
use crate::import_rules::doc_step;
use crate::import_rules::edge_in;
use crate::import_rules::edge_one;
use crate::import_rules::edges_of_one;
use crate::import_rules::edges_wired;
use crate::import_rules::event_one;
use crate::import_rules::event_step;
use crate::import_rules::floor_raised;
use crate::import_rules::highest;
use crate::import_rules::imported;
use crate::import_rules::inferred_mark;
use crate::import_rules::logged;
use crate::import_rules::merged;
use crate::import_rules::moved;
use crate::import_rules::number_settled;
use crate::import_rules::project_mark;
use crate::import_rules::project_one;
use crate::import_rules::project_settled;
use crate::import_rules::project_step;
use crate::import_rules::project_written;
use crate::import_rules::raised;
use crate::import_rules::section;
use crate::import_rules::sections_in;
use crate::import_rules::task_id_spec;
use crate::import_rules::task_mark;
use crate::import_rules::task_one;
use crate::import_rules::task_step;
use crate::import_rules::tasks_in;
use crate::import_rules::tasks_spec;
use crate::import_rules::Work;
use crate::journal::event_row;
use crate::journal::minted;
use crate::json::JsonV;
use crate::json_text::json_text;
use crate::params::opt_array_spec;
use crate::params::opt_bool_spec;
use crate::params::opt_i64_spec;
use crate::params::opt_str_array_spec;
use crate::params::opt_str_nonempty_spec;
use crate::params::req_i64_spec;
use crate::params::req_str_lookup_spec;
use crate::params::req_str_spec;
use crate::rows::Dependency;
use crate::rows::DependencyV;
use crate::rows::Doc;
use crate::rows::DocV;
use crate::rows::Event;
use crate::rows::EventV;
use crate::rows::Project;
use crate::rows::ProjectV;
use crate::rows::Task;
use crate::rows::TaskV;
use crate::tables::find;
use crate::tables::ordered;
use crate::tables::put;
use crate::tables::put_is_found;
use crate::tables::put_keeps_order;
use crate::tables::put_leaves_the_rest;
use crate::types::Entity;
use crate::types::entity_named;
use vstd::prelude::*;

verus! {

/// What every step keeps, every run of steps keeps.
proof fn each_keeps<S>(
    v: Seq<JsonV>,
    n: nat,
    s: S,
    step: spec_fn(S, JsonV) -> Result<S, ErrorV>,
    inv: spec_fn(S) -> bool,
)
    requires
        n <= v.len(),
        inv(s),
        forall|t: S, i: int|
            0 <= i < v.len() && inv(t) && (#[trigger] step(t, v[i])) is Ok ==> inv(
                step(t, v[i])->Ok_0,
            ),
    ensures
        each(v, n, s, step) is Ok ==> inv(each(v, n, s, step)->Ok_0),
    decreases n,
{
    if n > 0 {
        each_keeps(v, (n - 1) as nat, s, step, inv);
        let before = each(v, (n - 1) as nat, s, step);
        if before is Ok {
            assert(step(before->Ok_0, v[n - 1]) == each(v, n, s, step));
        }
    }
}

/// A task is found at most where it stands.
pub proof fn found_stands(s: Seq<TaskV>, id: Seq<char>)
    ensures
        task_by_id(s, id) is Some ==> exists|i: int|
            0 <= i < s.len() && #[trigger] s[i] == task_by_id(s, id)->0 && s[i].id == id,
        task_by_id(s, id) is None ==> forall|i: int| 0 <= i < s.len() ==> (#[trigger] s[i]).id != id,
    decreases s.len(),
{
    if s.len() > 0 {
        found_stands(s.drop_last(), id);
        if s.last().id == id {
            assert(s[s.len() - 1] == s.last());
        } else if task_by_id(s, id) is Some {
            let i = choose|i: int|
                0 <= i < s.drop_last().len() && #[trigger] s.drop_last()[i] == task_by_id(
                    s.drop_last(),
                    id,
                )->0 && s.drop_last()[i].id == id;
            assert(s[i] == s.drop_last()[i]);
        } else {
            assert forall|i: int| 0 <= i < s.len() implies (#[trigger] s[i]).id != id by {
                if i < s.len() - 1 {
                    assert(s.drop_last()[i] == s[i]);
                }
            }
        }
    }
}

/// A task that stands in the table is found under its id.
pub proof fn standing_is_found(s: Seq<TaskV>, i: int)
    requires
        0 <= i < s.len(),
    ensures
        task_by_id(s, s[i].id) is Some,
    decreases s.len(),
{
    if i < s.len() - 1 {
        assert(s.drop_last()[i] == s[i]);
        standing_is_found(s.drop_last(), i);
    }
}

/// Replacing a row leaves every other row where it is.
pub proof fn replaced_rows(s: Seq<TaskV>, t: TaskV)
    requires
        task_by_id(s, t.id) is Some,
        task_by_id(s, t.id)->0.short_id == t.short_id,
    ensures
        task_replaced(s, t).len() == s.len(),
        forall|i: int|
            0 <= i < s.len() ==> (#[trigger] task_replaced(s, t)[i]).id == s[i].id
                && task_replaced(s, t)[i].short_id == s[i].short_id,
    decreases s.len(),
{
    let r = task_replaced(s, t);
    if s.last().id == t.id {
        assert forall|i: int| 0 <= i < s.len() implies (#[trigger] r[i]).id == s[i].id
            && r[i].short_id == s[i].short_id by {}
    } else {
        replaced_rows(s.drop_last(), t);
        assert forall|i: int| 0 <= i < s.len() implies (#[trigger] r[i]).id == s[i].id
            && r[i].short_id == s[i].short_id by {
            if i < s.len() - 1 {
                assert(r[i] == task_replaced(s.drop_last(), t)[i]);
                assert(s.drop_last()[i] == s[i]);
            }
        }
    }
}

/// Adding a row adds that row and no other.
pub proof fn added_rows(s: Seq<TaskV>, t: TaskV)
    ensures
        task_added(s, t).len() == s.len() + 1,
        forall|i: int|
            0 <= i < s.len() + 1 ==> #[trigger] task_added(s, t)[i] == t || s.contains(
                task_added(s, t)[i],
            ),
        task_added(s, t).contains(t),
        forall|i: int| 0 <= i < s.len() ==> task_added(s, t).contains(#[trigger] s[i]),
    decreases s.len(),
{
    let r = task_added(s, t);
    if s.len() == 0 {
        assert(r[0] == t);
    } else if s.last().short_id < t.short_id {
        assert(r[s.len() as int] == t);
        assert forall|i: int| 0 <= i < s.len() + 1 implies #[trigger] r[i] == t || s.contains(
            r[i],
        ) by {
            if i < s.len() {
                assert(s[i] == r[i]);
            }
        }
        assert forall|i: int| 0 <= i < s.len() implies r.contains(#[trigger] s[i]) by {
            assert(r[i] == s[i]);
        }
    } else {
        let d = s.drop_last();
        let p = task_added(d, t);
        added_rows(d, t);
        assert forall|i: int| 0 <= i < s.len() + 1 implies #[trigger] r[i] == t || s.contains(
            r[i],
        ) by {
            if i < p.len() {
                assert(r[i] == p[i]);
                if p[i] != t {
                    let k = choose|k: int| 0 <= k < d.len() && d[k] == p[i];
                    assert(s[k] == p[i]);
                }
            } else {
                assert(r[i] == s[s.len() - 1]);
            }
        }
        let k = choose|k: int| 0 <= k < p.len() && p[k] == t;
        assert(r[k] == t);
        assert forall|i: int| 0 <= i < s.len() implies r.contains(#[trigger] s[i]) by {
            if i < d.len() {
                assert(d[i] == s[i]);
                assert(p.contains(d[i]));
                let k = choose|k: int| 0 <= k < p.len() && p[k] == d[i];
                assert(r[k] == s[i]);
            } else {
                assert(r[p.len() as int] == s[i]);
            }
        }
    }
}

/// Adding a task with a free number and a new id keeps the table in order.
proof fn added_stays_ok(s: Seq<TaskV>, t: TaskV, next: i64)
    requires
        tasks_ok(s, next),
        task_by_id(s, t.id) is None,
        !number_taken(s, t.short_id),
        1 <= t.short_id < next,
    ensures
        tasks_ok(task_added(s, t), next),
    decreases s.len(),
{
    let r = task_added(s, t);
    added_rows(s, t);
    found_stands(s, t.id);
    if s.len() > 0 && !(s.last().short_id < t.short_id) {
        let d = s.drop_last();
        let p = task_added(d, t);
        let n = s.len() - 1;
        assert(s[n].short_id != t.short_id);
        assert(tasks_ok(d, next)) by {
            assert forall|i: int, j: int| 0 <= i < j < d.len() implies (#[trigger] d[i]).short_id
                < (#[trigger] d[j]).short_id by {
                assert(s[i].short_id < s[j].short_id);
            }
            assert forall|i: int, j: int| 0 <= i < j < d.len() implies (#[trigger] d[i]).id != (
            #[trigger] d[j]).id by {
                assert(s[i].id != s[j].id);
            }
            assert forall|i: int| 0 <= i < d.len() implies 1 <= (#[trigger] d[i]).short_id
                < next by {
                assert(s[i].short_id < next);
            }
        }
        assert(!number_taken(d, t.short_id)) by {
            if number_taken(d, t.short_id) {
                let i = choose|i: int| 0 <= i < d.len() && (#[trigger] d[i]).short_id == t.short_id;
                assert(s[i].short_id == t.short_id);
            }
        }
        added_stays_ok(d, t, next);
        added_rows(d, t);
        assert forall|i: int, j: int| 0 <= i < j < r.len() implies (#[trigger] r[i]).short_id < (
        #[trigger] r[j]).short_id && r[i].id != r[j].id by {
            if j < p.len() {
                assert(r[i] == p[i] && r[j] == p[j]);
            } else {
                assert(r[i] == p[i] && r[j] == s[n]);
                if p[i] == t {
                    assert(s[n].id != t.id);
                } else {
                    assert(d.contains(p[i]));
                    let k = choose|k: int| 0 <= k < d.len() && d[k] == p[i];
                    assert(s[k] == p[i]);
                    assert(s[k].short_id < s[n].short_id && s[k].id != s[n].id);
                }
            }
        }
        assert forall|i: int| 0 <= i < r.len() implies 1 <= (#[trigger] r[i]).short_id < next by {
            if i < p.len() {
                assert(r[i] == p[i]);
            } else {
                assert(r[i] == s[n]);
            }
        }
    } else {
        assert forall|i: int, j: int| 0 <= i < j < r.len() implies (#[trigger] r[i]).short_id < (
        #[trigger] r[j]).short_id && r[i].id != r[j].id by {
            if j < s.len() {
                assert(r[i] == s[i] && r[j] == s[j]);
            } else {
                assert(r[i] == s[i] && r[j] == t);
                if i < s.len() - 1 {
                    assert(s[i].short_id < s[s.len() - 1].short_id);
                }
            }
        }
        assert forall|i: int| 0 <= i < r.len() implies 1 <= (#[trigger] r[i]).short_id < next by {
            if i < s.len() {
                assert(r[i] == s[i]);
            }
        }
    }
}

/// Writing a task keeps the table in order, and every task that was there.
pub proof fn put_stays_ok(s: Seq<TaskV>, t: TaskV, next: i64)
    requires
        tasks_ok(s, next),
        match task_by_id(s, t.id) {
            Some(x) => x.short_id == t.short_id,
            None => !number_taken(s, t.short_id) && 1 <= t.short_id < next,
        },
    ensures
        tasks_ok(task_put(s, t), next),
        task_by_id(task_put(s, t), t.id) is Some,
        forall|id: Seq<char>|
            task_by_id(s, id) is Some ==> (#[trigger] task_by_id(task_put(s, t), id)) is Some,
{
    let r = task_put(s, t);
    if task_by_id(s, t.id) is Some {
        replaced_rows(s, t);
        assert forall|i: int, j: int| 0 <= i < j < r.len() implies (#[trigger] r[i]).short_id < (
        #[trigger] r[j]).short_id && r[i].id != r[j].id by {
            assert(s[i].short_id < s[j].short_id && s[i].id != s[j].id);
        }
        assert forall|i: int| 0 <= i < r.len() implies 1 <= (#[trigger] r[i]).short_id < next by {
            assert(s[i].short_id < next);
        }
        found_stands(s, t.id);
        assert forall|id: Seq<char>| task_by_id(s, id) is Some implies (#[trigger] task_by_id(
            r,
            id,
        )) is Some by {
            found_stands(s, id);
            let i = choose|i: int|
                0 <= i < s.len() && #[trigger] s[i] == task_by_id(s, id)->0 && s[i].id == id;
            assert(r[i].id == s[i].id);
            standing_is_found(r, i);
        }
    } else {
        added_stays_ok(s, t, next);
        added_rows(s, t);
        assert forall|id: Seq<char>| task_by_id(s, id) is Some implies (#[trigger] task_by_id(
            r,
            id,
        )) is Some by {
            found_stands(s, id);
            let i = choose|i: int|
                0 <= i < s.len() && #[trigger] s[i] == task_by_id(s, id)->0 && s[i].id == id;
            assert(r.contains(s[i]));
            let k = choose|k: int| 0 <= k < r.len() && r[k] == s[i];
            standing_is_found(r, k);
        }
        let k = choose|k: int| 0 <= k < r.len() && r[k] == t;
        standing_is_found(r, k);
    }
}

/// What remains of a table was in it.
proof fn remaining_was_there(s: Seq<DependencyV>, owner: Seq<char>)
    ensures
        forall|i: int|
            0 <= i < without::<Dependency>(s, owner).len() ==> s.contains(
                #[trigger] without::<Dependency>(s, owner)[i],
            ),
    decreases s.len(),
{
    if s.len() > 0 {
        let d = s.drop_last();
        remaining_was_there(d, owner);
        let r = without::<Dependency>(s, owner);
        let q = without::<Dependency>(d, owner);
        assert forall|i: int| 0 <= i < r.len() implies s.contains(#[trigger] r[i]) by {
            if i < q.len() {
                assert(r[i] == q[i]);
                assert(d.contains(q[i]));
                let k = choose|k: int| 0 <= k < d.len() && d[k] == q[i];
                assert(s[k] == r[i]);
            } else {
                assert(s[s.len() - 1] == r[i]);
            }
        }
    }
}

/// Whether every edge joins two tasks of the table.
pub open spec fn joined_up(d: Seq<DependencyV>, tasks: Seq<TaskV>) -> bool {
    forall|i: int|
        0 <= i < d.len() ==> task_by_id(tasks, (#[trigger] d[i]).task_id) is Some && task_by_id(
            tasks,
            d[i].depends_on,
        ) is Some
}

/// What holds at every point of an import.
pub open spec fn under_way(w: Work, floor: i64) -> bool {
    &&& 1 <= w.e.next_short_id
    &&& floor <= w.e.next_short_id
    &&& tasks_ok(w.e.tasks, w.e.next_short_id)
    &&& ordered::<Project>(w.e.projects)
    &&& ordered::<Doc>(w.e.docs)
    &&& ordered::<Event>(w.e.events)
    &&& acyclic(w.e.dependencies)
    &&& joined_up(w.e.dependencies, w.e.tasks)
    &&& forall|i: int|
        0 <= i < w.edges.len() ==> task_by_id(w.e.tasks, (#[trigger] w.edges[i]).0) is Some
}

proof fn log_keeps(
    w: Work,
    entity: crate::types::Entity,
    id: Seq<char>,
    op: Seq<char>,
    payload: JsonV,
    env: EnvV,
    floor: i64,
)
    requires
        under_way(w, floor),
    ensures
        logged(w, entity, id, op, payload, env) is Ok ==> under_way(
            logged(w, entity, id, op, payload, env)->Ok_0,
            floor,
        ),
{
    let r = logged(w, entity, id, op, payload, env);
    if r is Ok {
        let row = event_row(minted(env.log, w.used)->Ok_0, entity, id, op, payload, env.log);
        put_keeps_order::<Event>(w.e.events, row);
    }
}

proof fn project_write_keeps(
    w: Work,
    name: Seq<char>,
    description: Option<Seq<char>>,
    archived: bool,
    created: Seq<char>,
    given: Option<Seq<char>>,
    env: EnvV,
    floor: i64,
)
    requires
        under_way(w, floor),
    ensures
        project_written(w, name, description, archived, created, given, env) matches Ok(x)
            ==> under_way(x.0, floor),
{
    let r = project_written(w, name, description, archived, created, given, env);
    if r is Ok {
        let row = crate::rows::ProjectV {
            id: r->Ok_0.1,
            name,
            description,
            archived,
            created,
        };
        put_keeps_order::<Project>(w.e.projects, row);
    }
}

proof fn project_keeps(w: Work, pv: JsonV, env: EnvV, floor: i64)
    requires
        under_way(w, floor),
        project_one(w, pv, env) is Ok,
    ensures
        under_way(project_one(w, pv, env)->Ok_0, floor),
{
    let name = req_str_lookup_spec(pv, "name"@)->Ok_0;
    let description = opt_str_nonempty_spec(pv, "description"@)->Ok_0;
    let gone = opt_bool_spec(pv, "archived"@)->Ok_0 == Some(true);
    let at = match opt_str_nonempty_spec(pv, "created"@)->Ok_0 {
        Some(s) => s,
        None => env.log.now,
    };
    let given = opt_str_nonempty_spec(pv, "id"@)->Ok_0;
    project_write_keeps(w, name, description, gone, at, given, env, floor);
    let p = project_written(w, name, description, gone, at, given, env);
    if let Ok(x) = p {
        log_keeps(
            x.0,
            Entity::Project,
            x.1,
            "import"@,
            project_mark(name, gone),
            env,
            floor,
        );
    }
}

proof fn doc_keeps(w: Work, dv: JsonV, env: EnvV, floor: i64)
    requires
        under_way(w, floor),
        doc_one(w, dv, env) is Ok,
    ensures
        under_way(doc_one(w, dv, env)->Ok_0, floor),
{
    let given = opt_str_nonempty_spec(dv, "id"@)->Ok_0;
    let id = match given {
        Some(x) => x,
        None => minted(env.log, w.used)->Ok_0,
    };
    let title = req_str_spec(dv, "title"@)->Ok_0;
    let body = req_str_spec(dv, "body"@)->Ok_0;
    let source = opt_str_nonempty_spec(dv, "source"@)->Ok_0;
    let row = DocV {
        id,
        source,
        title,
        body,
        search_body: flat(body),
        project: opt_str_nonempty_spec(dv, "project"@)->Ok_0,
        rev: match opt_i64_spec(dv, "_rev"@)->Ok_0 {
            Some(n) => n,
            None => 0,
        },
        standing: opt_bool_spec(dv, "standing"@)->Ok_0 == Some(true),
        created: match opt_when_spec(dv, "created"@, env.dates)->Ok_0 {
            Some(s) => s,
            None => env.log.now,
        },
        modified: match opt_when_spec(dv, "modified"@, env.dates)->Ok_0 {
            Some(s) => s,
            None => env.log.now,
        },
    };
    put_keeps_order::<Doc>(w.e.docs, row);
    let used = if given is Some {
        w.used
    } else {
        w.used + 1
    };
    let next = Work { e: EngineV { docs: put::<Doc>(w.e.docs, row), ..w.e }, used, ..w };
    log_keeps(next, Entity::Doc, id, "memory.add"@, doc_mark(title, source), env, floor);
}

proof fn event_keeps(w: Work, ev: JsonV, env: EnvV, floor: i64)
    requires
        under_way(w, floor),
        event_one(w, ev, env) is Ok,
    ensures
        under_way(event_one(w, ev, env)->Ok_0, floor),
{
    let id = match opt_str_nonempty_spec(ev, "id"@)->Ok_0 {
        Some(x) => x,
        None => minted(env.log, w.used)->Ok_0,
    };
    let payload = match ev.get("payload"@) {
        Some(v) => v,
        None => JsonV::Null,
    };
    let row = EventV {
        id,
        entity: entity_named(req_str_spec(ev, "entity"@)->Ok_0)->0.name(),
        entity_id: req_str_spec(ev, "entity_id"@)->Ok_0,
        op: req_str_spec(ev, "op"@)->Ok_0,
        payload: Some(json_text(payload)),
        ts: match opt_str_nonempty_spec(ev, "ts"@)->Ok_0 {
            Some(s) => s,
            None => env.log.now,
        },
        actor: opt_str_nonempty_spec(ev, "actor"@)->Ok_0,
    };
    put_keeps_order::<Event>(w.e.events, row);
}

proof fn settle_keeps(
    w: Work,
    id: Seq<char>,
    project: Option<Seq<char>>,
    declared: bool,
    env: EnvV,
    floor: i64,
)
    requires
        under_way(w, floor),
        project_settled(w, id, project, declared, env) is Ok,
    ensures
        under_way(project_settled(w, id, project, declared, env)->Ok_0, floor),
        project_settled(w, id, project, declared, env)->Ok_0.e.tasks == w.e.tasks,
{
    if let Some(name) = project {
        project_write_keeps(w, name, None, false, env.log.now, None, env, floor);
        if let Ok(p) = project_written(w, name, None, false, env.log.now, None, env) {
            log_keeps(p.0, Entity::Project, p.1, "import"@, inferred_mark(name), env, floor);
        }
    }
}

proof fn task_keeps(w: Work, tv: JsonV, declared: bool, env: EnvV, floor: i64)
    requires
        under_way(w, floor),
        task_one(w, tv, declared, env) is Ok,
        req_i64_spec(tv, "short_id"@) matches Ok(k) ==> k < floor,
    ensures
        under_way(task_one(w, tv, declared, env)->Ok_0, floor),
{
    let id = task_id_spec(tv)->Ok_0;
    let carried = req_i64_spec(tv, "short_id"@)->Ok_0;
    let head = head_spec(tv, id)->Ok_0;
    let body = body_spec(tv, id, env)->Ok_0;
    let begun = Work { written: w.written.push(id), ..w };
    settle_keeps(begun, id, head.project, declared, env, floor);
    let settled = project_settled(begun, id, head.project, declared, env)->Ok_0;
    let numbered = number_settled(settled, id, carried)->Ok_0;
    let v = numbered.0;
    let number = numbered.1;
    let stored = task_by_id(v.e.tasks, id);
    let tags = task_tags_spec(tv)->Ok_0;
    let row = merged(stored, id, number, head, body, tags, env);
    assert(tasks_ok(v.e.tasks, v.e.next_short_id)) by {
        assert forall|i: int| 0 <= i < v.e.tasks.len() implies 1 <= (#[trigger] v.e.tasks[i]).short_id
            < v.e.next_short_id by {
            assert(settled.e.tasks[i].short_id < settled.e.next_short_id);
        }
    }
    if stored is None && number_taken(settled.e.tasks, carried) {
        assert(!number_taken(v.e.tasks, number)) by {
            if number_taken(v.e.tasks, number) {
                let i = choose|i: int|
                    0 <= i < v.e.tasks.len() && (#[trigger] v.e.tasks[i]).short_id == number;
                assert(settled.e.tasks[i].short_id < settled.e.next_short_id);
            }
        }
    }
    put_stays_ok(v.e.tasks, row, v.e.next_short_id);
    let tasks = task_put(v.e.tasks, row);
    let deps = without::<Dependency>(v.e.dependencies, id);
    remaining_was_there(v.e.dependencies, id);
    fewer_edges_stay_acyclic(deps, v.e.dependencies);
    assert(joined_up(deps, tasks)) by {
        assert forall|i: int| 0 <= i < deps.len() implies task_by_id(
            tasks,
            (#[trigger] deps[i]).task_id,
        ) is Some && task_by_id(tasks, deps[i].depends_on) is Some by {
            assert(v.e.dependencies.contains(deps[i]));
            let k = choose|k: int|
                0 <= k < v.e.dependencies.len() && v.e.dependencies[k] == deps[i];
            assert(task_by_id(v.e.tasks, v.e.dependencies[k].task_id) is Some);
        }
    }
    let notes = annotations_done(v.e.annotations, v.used, tv, id, env)->Ok_0;
    let criteria = checks_done(v.e.checks, notes.1, tv, id, env)->Ok_0;
    let tokens = measurements_done(v.e.measurements, criteria.1, tv, id, env)->Ok_0;
    let on = opt_str_array_spec(tv, "depends_on"@)->Ok_0;
    let after = Work {
        e: EngineV {
            tasks,
            annotations: notes.0,
            checks: criteria.0,
            measurements: tokens.0,
            dependencies: deps,
            ..v.e
        },
        used: tokens.1,
        edges: v.edges.push((id, on)),
        ..v
    };
    assert forall|i: int| 0 <= i < after.edges.len() implies task_by_id(
        tasks,
        (#[trigger] after.edges[i]).0,
    ) is Some by {
        if i < v.edges.len() {
            assert(after.edges[i] == v.edges[i]);
            assert(task_by_id(v.e.tasks, v.edges[i].0) is Some);
        }
    }
    log_keeps(after, Entity::Task, id, "import"@, task_mark(number), env, floor);
}

/// No row carries a higher number than the highest.
pub proof fn highest_is_highest(v: Seq<JsonV>, n: nat, i: int)
    requires
        0 <= i < n <= v.len(),
        opt_i64_spec(v[i], "short_id"@) matches Ok(Some(_)),
    ensures
        highest(v, n) is Some,
        highest(v, n)->0 >= opt_i64_spec(v[i], "short_id"@)->Ok_0->0,
    decreases n,
{
    if i < n - 1 {
        highest_is_highest(v, (n - 1) as nat, i);
    }
}

/// Some row carries the highest number.
pub proof fn highest_is_carried(v: Seq<JsonV>, n: nat)
    requires
        n <= v.len(),
        highest(v, n) is Some,
    ensures
        exists|i: int|
            0 <= i < n && #[trigger] opt_i64_spec(v[i], "short_id"@) == Ok::<
                Option<i64>,
                ErrorV,
            >(highest(v, n)),
    decreases n,
{
    let here = opt_i64_spec(v[n - 1], "short_id"@);
    if here != Ok::<Option<i64>, ErrorV>(highest(v, n)) {
        highest_is_carried(v, (n - 1) as nat);
        let i = choose|i: int|
            0 <= i < n - 1 && #[trigger] opt_i64_spec(v[i], "short_id"@) == Ok::<
                Option<i64>,
                ErrorV,
            >(highest(v, (n - 1) as nat));
        assert(opt_i64_spec(v[i], "short_id"@) == Ok::<Option<i64>, ErrorV>(highest(v, n)));
    }
}

/// Where every step succeeds, the step at each row did.
proof fn each_succeeds<S>(
    v: Seq<JsonV>,
    n: nat,
    s: S,
    step: spec_fn(S, JsonV) -> Result<S, ErrorV>,
    i: int,
)
    requires
        0 <= i < n <= v.len(),
        each(v, n, s, step) is Ok,
    ensures
        exists|t: S| (#[trigger] step(t, v[i])) is Ok,
    decreases n,
{
    let before = each(v, (n - 1) as nat, s, step);
    if i == n - 1 {
        assert(step(before->Ok_0, v[i]) is Ok);
    } else {
        each_succeeds(v, (n - 1) as nat, s, step, i);
    }
}

proof fn edge_keeps(tasks: Seq<TaskV>, d: Seq<DependencyV>, id: Seq<char>, on: Seq<char>)
    requires
        acyclic(d),
        joined_up(d, tasks),
        task_by_id(tasks, id) is Some,
        edge_one(tasks, d, id, on) is Ok,
    ensures
        acyclic(edge_one(tasks, d, id, on)->Ok_0),
        joined_up(edge_one(tasks, d, id, on)->Ok_0, tasks),
{
    let new = DependencyV { task_id: id, depends_on: on };
    if !edge_in(d, id, on) {
        safe_edge_stays_acyclic(d, new);
        let r = d.push(new);
        assert forall|i: int| 0 <= i < r.len() implies task_by_id(
            tasks,
            (#[trigger] r[i]).task_id,
        ) is Some && task_by_id(tasks, r[i].depends_on) is Some by {
            if i < d.len() {
                assert(r[i] == d[i]);
            }
        }
    }
}

proof fn edges_of_one_keep(
    tasks: Seq<TaskV>,
    d: Seq<DependencyV>,
    id: Seq<char>,
    on: Seq<Seq<char>>,
    n: nat,
)
    requires
        acyclic(d),
        joined_up(d, tasks),
        task_by_id(tasks, id) is Some,
        edges_of_one(tasks, d, id, on, n) is Ok,
    ensures
        acyclic(edges_of_one(tasks, d, id, on, n)->Ok_0),
        joined_up(edges_of_one(tasks, d, id, on, n)->Ok_0, tasks),
    decreases n,
{
    if 0 < n <= on.len() {
        edges_of_one_keep(tasks, d, id, on, (n - 1) as nat);
        edge_keeps(tasks, edges_of_one(tasks, d, id, on, (n - 1) as nat)->Ok_0, id, on[n - 1]);
    }
}

/// Wiring the edges closes no cycle and joins tasks alone.
pub proof fn wiring_keeps(
    tasks: Seq<TaskV>,
    d: Seq<DependencyV>,
    edges: Seq<(Seq<char>, Seq<Seq<char>>)>,
    n: nat,
)
    requires
        acyclic(d),
        joined_up(d, tasks),
        forall|i: int| 0 <= i < edges.len() ==> task_by_id(tasks, (#[trigger] edges[i]).0) is Some,
        edges_wired(tasks, d, edges, n) is Ok,
    ensures
        acyclic(edges_wired(tasks, d, edges, n)->Ok_0),
        joined_up(edges_wired(tasks, d, edges, n)->Ok_0, tasks),
    decreases n,
{
    if 0 < n <= edges.len() {
        wiring_keeps(tasks, d, edges, (n - 1) as nat);
        assert(task_by_id(tasks, edges[n - 1].0) is Some);
        edges_of_one_keep(
            tasks,
            edges_wired(tasks, d, edges, (n - 1) as nat)->Ok_0,
            edges[n - 1].0,
            edges[n - 1].1,
            edges[n - 1].1.len(),
        );
    }
}

/// What is under way stays in order until the document's tasks are read.
pub proof fn sections_keep(e: EngineV, p: JsonV, env: EnvV)
    requires
        e.wf(),
        sections_in(e, p, env) is Ok,
    ensures
        under_way(sections_in(e, p, env)->Ok_0, 1),
{
    reveal(sections_in);
    let ps = section(opt_array_spec(p, "projects"@));
    let ds = section(opt_array_spec(p, "docs"@));
    let es = section(opt_array_spec(p, "events"@));
    let inv = |w: Work| under_way(w, 1);
    let s1 = project_step(env);
    let s2 = doc_step(env);
    let s3 = event_step(env);
    assert(inv(begun(e)));
    assert forall|t: Work, i: int|
        0 <= i < ps.len() && inv(t) && (#[trigger] s1(t, ps[i])) is Ok implies inv(
        s1(t, ps[i])->Ok_0,
    ) by {
        project_keeps(t, ps[i], env, 1);
    }
    each_keeps(ps, ps.len(), begun(e), s1, inv);
    let w1 = each(ps, ps.len(), begun(e), s1)->Ok_0;
    assert forall|t: Work, i: int|
        0 <= i < ds.len() && inv(t) && (#[trigger] s2(t, ds[i])) is Ok implies inv(
        s2(t, ds[i])->Ok_0,
    ) by {
        doc_keeps(t, ds[i], env, 1);
    }
    each_keeps(ds, ds.len(), w1, s2, inv);
    let w2 = each(ds, ds.len(), w1, s2)->Ok_0;
    assert forall|t: Work, i: int|
        0 <= i < es.len() && inv(t) && (#[trigger] s3(t, es[i])) is Ok implies inv(
        s3(t, es[i])->Ok_0,
    ) by {
        event_keeps(t, es[i], env, 1);
    }
    each_keeps(es, es.len(), w2, s3, inv);
}

/// What is under way stays in order once the document's tasks are read.
pub proof fn tasks_keep(w: Work, rows: Seq<JsonV>, declared: bool, env: EnvV)
    requires
        under_way(w, 1),
        tasks_in(w, rows, declared, env) is Ok,
    ensures
        under_way(tasks_in(w, rows, declared, env)->Ok_0, 1),
{
    reveal(tasks_in);
    let start = raised(w, rows);
    let floor = start.e.next_short_id;
    let step = task_step(declared, env);
    let inv = |t: Work| under_way(t, floor);
    assert(under_way(start, floor)) by {
        assert forall|i: int| 0 <= i < start.e.tasks.len() implies 1 <= (
        #[trigger] start.e.tasks[i]).short_id < start.e.next_short_id by {
            assert(w.e.tasks[i].short_id < w.e.next_short_id);
        }
    }
    if highest(rows, rows.len()) is Some {
        highest_is_carried(rows, rows.len());
        let i = choose|i: int|
            0 <= i < rows.len() && #[trigger] opt_i64_spec(rows[i], "short_id"@) == Ok::<
                Option<i64>,
                ErrorV,
            >(highest(rows, rows.len()));
        each_succeeds(rows, rows.len(), start, step, i);
        let t = choose|t: Work| (#[trigger] step(t, rows[i])) is Ok;
        assert(task_one(t, rows[i], declared, env) is Ok);
    }
    assert forall|t: Work, i: int|
        0 <= i < rows.len() && inv(t) && (#[trigger] step(t, rows[i])) is Ok implies inv(
        step(t, rows[i])->Ok_0,
    ) by {
        assert(task_one(t, rows[i], declared, env) is Ok);
        task_keeps_below(t, rows, i, declared, env, floor);
    }
    each_keeps(rows, rows.len(), start, step, inv);
}

proof fn task_keeps_below(
    t: Work,
    rows: Seq<JsonV>,
    i: int,
    declared: bool,
    env: EnvV,
    floor: i64,
)
    requires
        0 <= i < rows.len(),
        under_way(t, floor),
        task_one(t, rows[i], declared, env) is Ok,
        highest(rows, rows.len()) matches Some(h) ==> h < floor,
    ensures
        under_way(task_one(t, rows[i], declared, env)->Ok_0, floor),
{
    highest_is_highest(rows, rows.len(), i);
    task_keeps(t, rows[i], declared, env, floor);
}

/// An import keeps the store in order: no two tasks share a number or an id,
/// every edge joins two tasks, and no task waits for itself.
pub proof fn import_keeps_the_store_in_order(e: EngineV, p: JsonV, env: EnvV)
    requires
        e.wf(),
    ensures
        imported(e, p, env) matches Ok(x) ==> x.0.wf(),
{
    if imported(e, p, env) is Ok {
        reveal(crate::import_rules::finished);
        sections_keep(e, p, env);
        let w3 = sections_in(e, p, env)->Ok_0;
        let rows = tasks_spec(p)->Ok_0;
        let declared = opt_array_spec(p, "projects"@)->Ok_0 is Some;
        tasks_keep(w3, rows, declared, env);
        let w = tasks_in(w3, rows, declared, env)->Ok_0;
        wiring_keeps(w.e.tasks, w.e.dependencies, w.edges, w.edges.len());
    }
}

/// Writing a task changes what is found under its id, and nothing else.
pub proof fn put_lookup(s: Seq<TaskV>, t: TaskV, id: Seq<char>)
    ensures
        task_by_id(task_put(s, t), id) == if id == t.id {
            Some(t)
        } else {
            task_by_id(s, id)
        },
{
    if task_by_id(s, t.id) is Some {
        replaced_lookup(s, t, id);
    } else {
        added_lookup(s, t, id);
    }
}

proof fn replaced_lookup(s: Seq<TaskV>, t: TaskV, id: Seq<char>)
    requires
        task_by_id(s, t.id) is Some,
    ensures
        task_by_id(task_replaced(s, t), id) == if id == t.id {
            Some(t)
        } else {
            task_by_id(s, id)
        },
    decreases s.len(),
{
    let r = task_replaced(s, t);
    if s.last().id == t.id {
        assert(r.drop_last() =~= s.drop_last());
    } else {
        assert(r.drop_last() =~= task_replaced(s.drop_last(), t));
        replaced_lookup(s.drop_last(), t, id);
    }
}

proof fn added_lookup(s: Seq<TaskV>, t: TaskV, id: Seq<char>)
    requires
        task_by_id(s, t.id) is None,
    ensures
        task_by_id(task_added(s, t), id) == if id == t.id {
            Some(t)
        } else {
            task_by_id(s, id)
        },
    decreases s.len(),
{
    let r = task_added(s, t);
    if s.len() == 0 {
        assert(r.drop_last() =~= s);
    } else if s.last().short_id < t.short_id {
        assert(r.drop_last() =~= s);
    } else {
        assert(r.drop_last() =~= task_added(s.drop_last(), t));
        added_lookup(s.drop_last(), t, id);
    }
}

/// What one imported task does to the row under `id`.
proof fn task_one_lookup(w: Work, tv: JsonV, declared: bool, env: EnvV, id: Seq<char>)
    requires
        task_one(w, tv, declared, env) is Ok,
    ensures
        ({
            let r = task_one(w, tv, declared, env)->Ok_0;
            let own = task_id_spec(tv)->Ok_0;
            &&& task_id_spec(tv) is Ok
            &&& !w.written.contains(own)
            &&& r.written == w.written.push(own)
            &&& own != id ==> task_by_id(r.e.tasks, id) == task_by_id(w.e.tasks, id)
            &&& own == id ==> task_by_id(r.e.tasks, id) is Some
            &&& own == id && task_by_id(w.e.tasks, id) is Some ==> {
                &&& task_by_id(r.e.tasks, id)->0.short_id == task_by_id(w.e.tasks, id)->0.short_id
                &&& task_by_id(w.e.tasks, id)->0.rev <= body_spec(tv, own, env)->Ok_0.rev
            }
        }),
{
    let own = task_id_spec(tv)->Ok_0;
    let carried = req_i64_spec(tv, "short_id"@)->Ok_0;
    let head = head_spec(tv, own)->Ok_0;
    let body = body_spec(tv, own, env)->Ok_0;
    let begun = Work { written: w.written.push(own), ..w };
    let settled = project_settled(begun, own, head.project, declared, env)->Ok_0;
    assert(settled.e.tasks == w.e.tasks && settled.written == begun.written);
    let v = number_settled(settled, own, carried)->Ok_0;
    assert(v.0.e.tasks == w.e.tasks && v.0.written == begun.written);
    let row = merged(
        task_by_id(v.0.e.tasks, own),
        own,
        v.1,
        head,
        body,
        task_tags_spec(tv)->Ok_0,
        env,
    );
    put_lookup(v.0.e.tasks, row, id);
}

/// The tasks are untouched until the document's own are read.
pub proof fn sections_leave_tasks(e: EngineV, p: JsonV, env: EnvV)
    requires
        sections_in(e, p, env) is Ok,
    ensures
        sections_in(e, p, env)->Ok_0.e.tasks == e.tasks,
        sections_in(e, p, env)->Ok_0.written == Seq::<Seq<char>>::empty(),
        sections_in(e, p, env)->Ok_0.edges == Seq::<(Seq<char>, Seq<Seq<char>>)>::empty(),
{
    reveal(sections_in);
    let ps = section(opt_array_spec(p, "projects"@));
    let ds = section(opt_array_spec(p, "docs"@));
    let es = section(opt_array_spec(p, "events"@));
    let inv = |w: Work|
        w.e.tasks == e.tasks && w.written == Seq::<Seq<char>>::empty() && w.edges == Seq::<
            (Seq<char>, Seq<Seq<char>>),
        >::empty();
    let s1 = project_step(env);
    let s2 = doc_step(env);
    let s3 = event_step(env);
    each_keeps(ps, ps.len(), begun(e), s1, inv);
    let w1 = each(ps, ps.len(), begun(e), s1)->Ok_0;
    each_keeps(ds, ds.len(), w1, s2, inv);
    let w2 = each(ds, ds.len(), w1, s2)->Ok_0;
    each_keeps(es, es.len(), w2, s3, inv);
}

/// A task that the document does not name keeps its row.
pub proof fn import_leaves_other_tasks_alone(e: EngineV, p: JsonV, env: EnvV, id: Seq<char>)
    requires
        imported(e, p, env) is Ok,
        forall|i: int|
            0 <= i < tasks_spec(p)->Ok_0.len() ==> (#[trigger] task_id_spec(
                tasks_spec(p)->Ok_0[i],
            )) != Ok::<Seq<char>, ErrorV>(id),
    ensures
        imported(e, p, env) matches Ok(x) ==> task_by_id(x.0.tasks, id) == task_by_id(
            e.tasks,
            id,
        ),
{
    reveal(crate::import_rules::finished);
    reveal(tasks_in);
    sections_leave_tasks(e, p, env);
    let rows = tasks_spec(p)->Ok_0;
    let declared = opt_array_spec(p, "projects"@)->Ok_0 is Some;
    let start = raised(sections_in(e, p, env)->Ok_0, rows);
    let step = task_step(declared, env);
    let inv = |w: Work| task_by_id(w.e.tasks, id) == task_by_id(e.tasks, id);
    assert forall|t: Work, i: int|
        0 <= i < rows.len() && inv(t) && (#[trigger] step(t, rows[i])) is Ok implies inv(
        step(t, rows[i])->Ok_0,
    ) by {
        assert(task_id_spec(rows[i]) != Ok::<Seq<char>, ErrorV>(id));
        task_one_lookup(t, rows[i], declared, env, id);
    }
    each_keeps(rows, rows.len(), start, step, inv);
}

/// A task that was there keeps its number, whatever the document says.
pub proof fn import_keeps_numbers(e: EngineV, p: JsonV, env: EnvV, id: Seq<char>)
    requires
        imported(e, p, env) is Ok,
        task_by_id(e.tasks, id) is Some,
    ensures
        imported(e, p, env) matches Ok(x) ==> task_by_id(x.0.tasks, id) is Some && task_by_id(
            x.0.tasks,
            id,
        )->0.short_id == task_by_id(e.tasks, id)->0.short_id,
{
    reveal(crate::import_rules::finished);
    reveal(tasks_in);
    sections_leave_tasks(e, p, env);
    let rows = tasks_spec(p)->Ok_0;
    let declared = opt_array_spec(p, "projects"@)->Ok_0 is Some;
    let start = raised(sections_in(e, p, env)->Ok_0, rows);
    let step = task_step(declared, env);
    let inv = |w: Work|
        task_by_id(w.e.tasks, id) is Some && task_by_id(w.e.tasks, id)->0.short_id == task_by_id(
            e.tasks,
            id,
        )->0.short_id;
    assert forall|t: Work, i: int|
        0 <= i < rows.len() && inv(t) && (#[trigger] step(t, rows[i])) is Ok implies inv(
        step(t, rows[i])->Ok_0,
    ) by {
        task_one_lookup(t, rows[i], declared, env, id);
    }
    each_keeps(rows, rows.len(), start, step, inv);
}

/// The first `i` steps of a run that succeeds succeed.
pub proof fn each_prefix<S>(
    v: Seq<JsonV>,
    i: nat,
    n: nat,
    s: S,
    step: spec_fn(S, JsonV) -> Result<S, ErrorV>,
)
    requires
        i <= n <= v.len(),
        each(v, n, s, step) is Ok,
    ensures
        each(v, i, s, step) is Ok,
    decreases n,
{
    if i < n {
        each_prefix(v, i, (n - 1) as nat, s, step);
    }
}

/// A document with a task older than the one stored is refused: no import
/// takes a task back to an earlier revision.
pub proof fn import_takes_no_task_back(e: EngineV, p: JsonV, env: EnvV, i: int)
    requires
        imported(e, p, env) is Ok,
        0 <= i < tasks_spec(p)->Ok_0.len(),
    ensures
        ({
            let tv = tasks_spec(p)->Ok_0[i];
            let id = task_id_spec(tv)->Ok_0;
            task_id_spec(tv) is Ok && (task_by_id(e.tasks, id) matches Some(t) ==> t.rev
                <= body_spec(tv, id, env)->Ok_0.rev)
        }),
{
    reveal(tasks_in);
    sections_leave_tasks(e, p, env);
    let rows = tasks_spec(p)->Ok_0;
    let declared = opt_array_spec(p, "projects"@)->Ok_0 is Some;
    let start = raised(sections_in(e, p, env)->Ok_0, rows);
    let step = task_step(declared, env);
    let id = task_id_spec(rows[i])->Ok_0;
    each_prefix(rows, i as nat, rows.len(), start, step);
    each_prefix(rows, i as nat + 1, rows.len(), start, step);
    let before = each(rows, i as nat, start, step)->Ok_0;
    let inv = |w: Work|
        !w.written.contains(id) ==> task_by_id(w.e.tasks, id) == task_by_id(e.tasks, id);
    assert forall|t: Work, k: int|
        0 <= k < rows.len() && inv(t) && (#[trigger] step(t, rows[k])) is Ok implies inv(
        step(t, rows[k])->Ok_0,
    ) by {
        task_one_lookup(t, rows[k], declared, env, id);
        let own = task_id_spec(rows[k])->Ok_0;
        let after = step(t, rows[k])->Ok_0;
        if !after.written.contains(id) {
            assert(after.written[t.written.len() as int] == own);
            assert forall|q: int| 0 <= q < t.written.len() implies t.written[q] != id by {
                assert(after.written[q] == t.written[q]);
            }
        }
    }
    each_keeps(rows, i as nat, start, step, inv);
    assert(step(before, rows[i]) == each(rows, i as nat + 1, start, step));
    task_one_lookup(before, rows[i], declared, env, id);
}

/// What an import under way keeps of the store it began with: every event, no
/// memory document at an earlier revision, and a next number that is no lower.
pub open spec fn keeps_what_was(w: Work, e: EngineV) -> bool {
    &&& e.next_short_id <= w.e.next_short_id
    &&& forall|id: Seq<char>|
        find::<Event>(e.events, id) is Some ==> #[trigger] find::<Event>(w.e.events, id)
            == find::<Event>(e.events, id)
    &&& forall|id: Seq<char>| (#[trigger] find::<Doc>(e.docs, id)) matches Some(d) ==> (
    find::<Doc>(w.e.docs, id) matches Some(n) && d.rev <= n.rev)
}

proof fn log_keeps_what_was(
    w: Work,
    entity: crate::types::Entity,
    id: Seq<char>,
    op: Seq<char>,
    payload: JsonV,
    env: EnvV,
    e: EngineV,
)
    requires
        keeps_what_was(w, e),
        logged(w, entity, id, op, payload, env) is Ok,
    ensures
        keeps_what_was(logged(w, entity, id, op, payload, env)->Ok_0, e),
{
    let fresh = minted(env.log, w.used)->Ok_0;
    let row = event_row(fresh, entity, id, op, payload, env.log);
    let r = logged(w, entity, id, op, payload, env)->Ok_0;
    assert forall|x: Seq<char>|
        find::<Event>(e.events, x) is Some implies #[trigger] find::<Event>(r.e.events, x)
        == find::<Event>(e.events, x) by {
        assert(find::<Event>(w.e.events, x) is Some);
        put_leaves_the_rest::<Event>(w.e.events, row, x);
    }
}

proof fn project_keeps_what_was(w: Work, pv: JsonV, env: EnvV, e: EngineV)
    requires
        keeps_what_was(w, e),
        project_one(w, pv, env) is Ok,
    ensures
        keeps_what_was(project_one(w, pv, env)->Ok_0, e),
{
    let name = req_str_lookup_spec(pv, "name"@)->Ok_0;
    let description = opt_str_nonempty_spec(pv, "description"@)->Ok_0;
    let gone = opt_bool_spec(pv, "archived"@)->Ok_0 == Some(true);
    let at = match opt_str_nonempty_spec(pv, "created"@)->Ok_0 {
        Some(s) => s,
        None => env.log.now,
    };
    let given = opt_str_nonempty_spec(pv, "id"@)->Ok_0;
    let p = project_written(w, name, description, gone, at, given, env)->Ok_0;
    assert(keeps_what_was(p.0, e));
    log_keeps_what_was(
        p.0,
        crate::types::Entity::Project,
        p.1,
        "import"@,
        project_mark(name, gone),
        env,
        e,
    );
}

proof fn doc_keeps_what_was(w: Work, dv: JsonV, env: EnvV, e: EngineV)
    requires
        keeps_what_was(w, e),
        doc_one(w, dv, env) is Ok,
    ensures
        keeps_what_was(doc_one(w, dv, env)->Ok_0, e),
{
    let given = opt_str_nonempty_spec(dv, "id"@)->Ok_0;
    let id = match given {
        Some(x) => x,
        None => minted(env.log, w.used)->Ok_0,
    };
    let title = req_str_spec(dv, "title"@)->Ok_0;
    let body = req_str_spec(dv, "body"@)->Ok_0;
    let source = opt_str_nonempty_spec(dv, "source"@)->Ok_0;
    let row = DocV {
        id,
        source,
        title,
        body,
        search_body: flat(body),
        project: opt_str_nonempty_spec(dv, "project"@)->Ok_0,
        rev: match opt_i64_spec(dv, "_rev"@)->Ok_0 {
            Some(n) => n,
            None => 0,
        },
        standing: opt_bool_spec(dv, "standing"@)->Ok_0 == Some(true),
        created: match opt_when_spec(dv, "created"@, env.dates)->Ok_0 {
            Some(s) => s,
            None => env.log.now,
        },
        modified: match opt_when_spec(dv, "modified"@, env.dates)->Ok_0 {
            Some(s) => s,
            None => env.log.now,
        },
    };
    let docs = put::<Doc>(w.e.docs, row);
    put_is_found::<Doc>(w.e.docs, row);
    let used = if given is Some {
        w.used
    } else {
        w.used + 1
    };
    let next = Work { e: EngineV { docs, ..w.e }, used, ..w };
    assert forall|x: Seq<char>| (#[trigger] find::<Doc>(e.docs, x)) is Some implies find::<Doc>(
        docs,
        x,
    ) is Some && find::<Doc>(e.docs, x)->0.rev <= find::<Doc>(docs, x)->0.rev by {
        if x != id {
            put_leaves_the_rest::<Doc>(w.e.docs, row, x);
        }
    }
    assert(keeps_what_was(next, e));
    log_keeps_what_was(
        next,
        crate::types::Entity::Doc,
        id,
        "memory.add"@,
        doc_mark(title, source),
        env,
        e,
    );
}

proof fn event_keeps_what_was(w: Work, ev: JsonV, env: EnvV, e: EngineV)
    requires
        keeps_what_was(w, e),
        event_one(w, ev, env) is Ok,
    ensures
        keeps_what_was(event_one(w, ev, env)->Ok_0, e),
{
    let r = event_one(w, ev, env)->Ok_0;
    let id = match opt_str_nonempty_spec(ev, "id"@)->Ok_0 {
        Some(x) => x,
        None => minted(env.log, w.used)->Ok_0,
    };
    if find::<Event>(w.e.events, id) is None {
        let row = EventV {
            id,
            entity: entity_named(req_str_spec(ev, "entity"@)->Ok_0)->0.name(),
            entity_id: req_str_spec(ev, "entity_id"@)->Ok_0,
            op: req_str_spec(ev, "op"@)->Ok_0,
            payload: Some(
                json_text(
                    match ev.get("payload"@) {
                        Some(v) => v,
                        None => JsonV::Null,
                    },
                ),
            ),
            ts: match opt_str_nonempty_spec(ev, "ts"@)->Ok_0 {
                Some(s) => s,
                None => env.log.now,
            },
            actor: opt_str_nonempty_spec(ev, "actor"@)->Ok_0,
        };
        assert(r.e.events == put::<Event>(w.e.events, row));
        assert forall|x: Seq<char>|
            find::<Event>(e.events, x) is Some implies #[trigger] find::<Event>(r.e.events, x)
            == find::<Event>(e.events, x) by {
            assert(find::<Event>(w.e.events, x) is Some);
            put_leaves_the_rest::<Event>(w.e.events, row, x);
        }
    }
}

/// The reports of tasks that took another number: each took one from `floor` on.
pub open spec fn moved_above(s: Seq<JsonV>, floor: i64) -> bool {
    forall|i: int|
        0 <= i < s.len() ==> exists|id: Seq<char>, from: i64, to: i64|
            to >= floor && #[trigger] s[i] == #[trigger] moved(id, from, to)
}

#[verifier::rlimit(40)]
proof fn task_keeps_what_was(w: Work, tv: JsonV, declared: bool, env: EnvV, e: EngineV, floor: i64)
    requires
        keeps_what_was(w, e),
        moved_above(w.renumbered, floor),
        floor <= w.e.next_short_id,
        task_one(w, tv, declared, env) is Ok,
    ensures
        keeps_what_was(task_one(w, tv, declared, env)->Ok_0, e),
        moved_above(task_one(w, tv, declared, env)->Ok_0.renumbered, floor),
        floor <= task_one(w, tv, declared, env)->Ok_0.e.next_short_id,
{
    let id = task_id_spec(tv)->Ok_0;
    let carried = req_i64_spec(tv, "short_id"@)->Ok_0;
    let head = head_spec(tv, id)->Ok_0;
    let body = body_spec(tv, id, env)->Ok_0;
    let begun = Work { written: w.written.push(id), ..w };
    let settled = project_settled(begun, id, head.project, declared, env)->Ok_0;
    assert(keeps_what_was(begun, e));
    assert(keeps_what_was(settled, e) && settled.renumbered == w.renumbered
        && settled.e.next_short_id == w.e.next_short_id) by {
        if let Some(name) = head.project {
            if find::<Project>(begun.e.projects, name) is None {
                let p = project_written(begun, name, None, false, env.log.now, None, env)->Ok_0;
                assert(keeps_what_was(p.0, e));
                log_keeps_what_was(
                    p.0,
                    crate::types::Entity::Project,
                    p.1,
                    "import"@,
                    inferred_mark(name),
                    env,
                    e,
                );
            }
        }
    }
    let v = number_settled(settled, id, carried)->Ok_0;
    assert(moved_above(v.0.renumbered, floor)) by {
        let was = settled.renumbered;
        let now = v.0.renumbered;
        assert forall|i: int| 0 <= i < now.len() implies exists|x: Seq<char>, from: i64, to: i64|
            to >= floor && #[trigger] now[i] == #[trigger] moved(x, from, to) by {
            if i < was.len() {
                assert(now[i] == was[i]);
                let (x, from, to) = choose|x: Seq<char>, from: i64, to: i64|
                    to >= floor && #[trigger] was[i] == #[trigger] moved(x, from, to);
                assert(now[i] == moved(x, from, to));
            } else {
                assert(now[i] == moved(id, carried, settled.e.next_short_id));
            }
        }
    }
    let row = merged(
        task_by_id(v.0.e.tasks, id),
        id,
        v.1,
        head,
        body,
        task_tags_spec(tv)->Ok_0,
        env,
    );
    let notes = annotations_done(v.0.e.annotations, v.0.used, tv, id, env)->Ok_0;
    let criteria = checks_done(v.0.e.checks, notes.1, tv, id, env)->Ok_0;
    let tokens = measurements_done(v.0.e.measurements, criteria.1, tv, id, env)->Ok_0;
    let next = Work {
        e: EngineV {
            tasks: task_put(v.0.e.tasks, row),
            annotations: notes.0,
            checks: criteria.0,
            measurements: tokens.0,
            dependencies: without::<Dependency>(v.0.e.dependencies, id),
            ..v.0.e
        },
        used: tokens.1,
        edges: v.0.edges.push((id, opt_str_array_spec(tv, "depends_on"@)->Ok_0)),
        ..v.0
    };
    assert(keeps_what_was(next, e));
    log_keeps_what_was(
        next,
        crate::types::Entity::Task,
        id,
        "import"@,
        task_mark(v.1),
        env,
        e,
    );
}

#[verifier::rlimit(40)]
proof fn sections_keep_what_was(e: EngineV, p: JsonV, env: EnvV)
    requires
        sections_in(e, p, env) is Ok,
    ensures
        ({
            let w = sections_in(e, p, env)->Ok_0;
            &&& keeps_what_was(w, e)
            &&& w.renumbered == Seq::<JsonV>::empty()
            &&& w.e.next_short_id == e.next_short_id
        }),
{
    reveal(sections_in);
    let ps = section(opt_array_spec(p, "projects"@));
    let ds = section(opt_array_spec(p, "docs"@));
    let es = section(opt_array_spec(p, "events"@));
    let first = |w: Work|
        keeps_what_was(w, e) && w.renumbered == Seq::<JsonV>::empty() && w.e.next_short_id
            == e.next_short_id;
    let s1 = project_step(env);
    let s2 = doc_step(env);
    let s3 = event_step(env);
    assert forall|t: Work, i: int|
        0 <= i < ps.len() && first(t) && (#[trigger] s1(t, ps[i])) is Ok implies first(
        s1(t, ps[i])->Ok_0,
    ) by {
        project_keeps_what_was(t, ps[i], env, e);
    }
    assert(first(begun(e)));
    each_keeps(ps, ps.len(), begun(e), s1, first);
    let w1 = each(ps, ps.len(), begun(e), s1)->Ok_0;
    assert forall|t: Work, i: int|
        0 <= i < ds.len() && first(t) && (#[trigger] s2(t, ds[i])) is Ok implies first(
        s2(t, ds[i])->Ok_0,
    ) by {
        doc_keeps_what_was(t, ds[i], env, e);
    }
    each_keeps(ds, ds.len(), w1, s2, first);
    let w2 = each(ds, ds.len(), w1, s2)->Ok_0;
    assert forall|t: Work, i: int|
        0 <= i < es.len() && first(t) && (#[trigger] s3(t, es[i])) is Ok implies first(
        s3(t, es[i])->Ok_0,
    ) by {
        event_keeps_what_was(t, es[i], env, e);
    }
    each_keeps(es, es.len(), w2, s3, first);
}

/// The tasks of a document lose nothing of what was there before them.
#[verifier::rlimit(40)]
pub proof fn tasks_keep_what_was(w3: Work, rows: Seq<JsonV>, declared: bool, env: EnvV, e: EngineV)
    requires
        keeps_what_was(w3, e),
        w3.renumbered == Seq::<JsonV>::empty(),
        w3.e.next_short_id == e.next_short_id,
        tasks_in(w3, rows, declared, env) is Ok,
    ensures
        keeps_what_was(tasks_in(w3, rows, declared, env)->Ok_0, e),
        moved_above(
            tasks_in(w3, rows, declared, env)->Ok_0.renumbered,
            floor_raised(e.next_short_id, highest(rows, rows.len())),
        ),
{
    reveal(tasks_in);
    let start = raised(w3, rows);
    let floor = start.e.next_short_id;
    let step = task_step(declared, env);
    let inv = |w: Work|
        keeps_what_was(w, e) && moved_above(w.renumbered, floor) && floor <= w.e.next_short_id;
    assert forall|t: Work, i: int|
        0 <= i < rows.len() && inv(t) && (#[trigger] step(t, rows[i])) is Ok implies inv(
        step(t, rows[i])->Ok_0,
    ) by {
        task_keeps_what_was(t, rows[i], declared, env, e, floor);
    }
    assert(inv(start));
    each_keeps(rows, rows.len(), start, step, inv);
}

/// An import loses nothing of what it does not replace: every event stays as it
/// was, no memory document is taken back to an earlier revision, and the next
/// number is no lower. A task that takes another number takes one above every
/// number of the document.
pub proof fn import_keeps_what_was(e: EngineV, p: JsonV, env: EnvV)
    requires
        imported(e, p, env) is Ok,
    ensures
        ({
            let x = imported(e, p, env)->Ok_0;
            let rows = tasks_spec(p)->Ok_0;
            let floor = floor_raised(e.next_short_id, highest(rows, rows.len()));
            &&& e.next_short_id <= x.0.next_short_id
            &&& forall|id: Seq<char>|
                find::<Event>(e.events, id) is Some ==> #[trigger] find::<Event>(
                    x.0.events,
                    id,
                ) == find::<Event>(e.events, id)
            &&& forall|id: Seq<char>| (#[trigger] find::<Doc>(e.docs, id)) matches Some(d) ==> (
            find::<Doc>(x.0.docs, id) matches Some(n) && d.rev <= n.rev)
            &&& x.1.get("renumbered"@) matches Some(JsonV::Arr(list)) && moved_above(list, floor)
        }),
{
    reveal(crate::import_rules::finished);
    sections_keep_what_was(e, p, env);
    let w3 = sections_in(e, p, env)->Ok_0;
    let rows = tasks_spec(p)->Ok_0;
    let declared = opt_array_spec(p, "projects"@)->Ok_0 is Some;
    tasks_keep_what_was(w3, rows, declared, env, e);
    let w = tasks_in(w3, rows, declared, env)->Ok_0;
    let x = imported(e, p, env)->Ok_0;
    let m = x.1->Obj_0;
    assert(m.last() == ("renumbered"@, JsonV::Arr(w.renumbered)));
}

} // verus!
