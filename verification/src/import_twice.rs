//! A complete document, imported twice.

use crate::engine::EngineV;
use crate::error::ErrorV;
use crate::import_again::all_give_ids;
use crate::import_again::given_id;
use crate::import_again::gives;
use crate::import_again::gives_id;
use crate::import_again::same_but_log;
use crate::import_children::each;
use crate::import_laws::each_prefix;
use crate::import_read::EnvV;
use crate::import_read::opt_when_spec;
use crate::import_rules::begun;
use crate::import_rules::doc_mark;
use crate::import_rules::doc_one;
use crate::import_rules::doc_step;
use crate::import_rules::event_one;
use crate::import_rules::event_step;
use crate::import_rules::project_mark;
use crate::import_rules::project_one;
use crate::import_rules::project_step;
use crate::import_rules::project_written;
use crate::import_rules::source_free;
use crate::import_rules::source_holder;
use crate::import_rules::Work;
use crate::journal::event_row;
use crate::json::JsonV;
use crate::json_text::json_text;
use crate::params::opt_bool_spec;
use crate::params::opt_i64_spec;
use crate::params::opt_str_nonempty_spec;
use crate::params::req_str_lookup_spec;
use crate::params::req_str_spec;
use crate::restore::no_other_holder;
use crate::restore_tables::row_put_again;
use crate::rows::Doc;
use crate::rows::DocV;
use crate::rows::Event;
use crate::rows::EventV;
use crate::rows::Project;
use crate::rows::ProjectV;
use crate::tables::find;
use crate::tables::ordered;
use crate::tables::put;
use crate::tables::put_is_found;
use crate::tables::put_keys;
use crate::tables::put_leaves_the_rest;
use crate::types::Entity;
use crate::types::entity_named;
use vstd::prelude::*;

verus! {

broadcast use vstd::string::group_string_axioms;

/// Whether the fresh ids from `used` on are free in a log.
pub open spec fn ids_left(events: Seq<EventV>, ids: Seq<Seq<char>>, used: nat) -> bool {
    &&& forall|i: int, j: int| 0 <= i < j < ids.len() ==> #[trigger] ids[i] != #[trigger] ids[j]
    &&& forall|k: int| used <= k < ids.len() ==> find::<Event>(events, #[trigger] ids[k]) is None
}

/// Whether a log has every event that another has.
pub open spec fn log_grew(a: Seq<EventV>, b: Seq<EventV>) -> bool {
    forall|x: Seq<char>|
        find::<Event>(a, x) is Some ==> (#[trigger] find::<Event>(b, x)) is Some
}

/// A log with one more event has every event it had.
pub proof fn log_grows(events: Seq<EventV>, x: EventV)
    ensures
        log_grew(events, put::<Event>(events, x)),
        find::<Event>(put::<Event>(events, x), x.id) is Some,
{
    put_is_found::<Event>(events, x);
    assert forall|k: Seq<char>| find::<Event>(events, k) is Some implies (
    #[trigger] find::<Event>(put::<Event>(events, x), k)) is Some by {
        if k != x.id {
            put_leaves_the_rest::<Event>(events, x, k);
        }
    }
}

/// Once a fresh id is used, those after it are left.
pub proof fn ids_stay_left(events: Seq<EventV>, ids: Seq<Seq<char>>, used: nat, x: EventV)
    requires
        ids_left(events, ids, used),
        used < ids.len(),
        x.id == ids[used as int],
    ensures
        ids_left(put::<Event>(events, x), ids, used + 1),
{
    assert forall|k: int| used + 1 <= k < ids.len() implies find::<Event>(
        put::<Event>(events, x),
        #[trigger] ids[k],
    ) is None by {
        assert(ids[used as int] != ids[k]);
        put_leaves_the_rest::<Event>(events, x, ids[k]);
        assert(find::<Event>(events, ids[k]) is None);
    }
}

/// The name a project's row gives.
pub open spec fn row_name(pv: JsonV) -> Seq<char> {
    req_str_lookup_spec(pv, "name"@)->Ok_0
}

/// Whether a project's row says that the project is archived.
pub open spec fn row_archived(pv: JsonV) -> bool {
    opt_bool_spec(pv, "archived"@)->Ok_0 == Some(true)
}

/// What a row of a project does.
#[verifier::rlimit(40)]
proof fn project_effect(w: Work, pv: JsonV, env: EnvV)
    requires
        project_one(w, pv, env) is Ok,
    ensures
        ({
            let r = project_one(w, pv, env)->Ok_0;
            let name = row_name(pv);
            &&& r == (Work {
                e: EngineV { projects: r.e.projects, events: r.e.events, ..w.e },
                used: r.used,
                ..w
            })
            &&& log_grew(w.e.events, r.e.events)
            &&& find::<Project>(r.e.projects, name) matches Some(p) && p.archived == row_archived(
                pv,
            )
            &&& forall|x: Seq<char>|
                x != name ==> #[trigger] find::<Project>(r.e.projects, x) == find::<Project>(
                    w.e.projects,
                    x,
                )
        }),
{
    let name = row_name(pv);
    let gone = row_archived(pv);
    let description = opt_str_nonempty_spec(pv, "description"@)->Ok_0;
    let at = match opt_str_nonempty_spec(pv, "created"@)->Ok_0 {
        Some(s) => s,
        None => env.log.now,
    };
    let given = opt_str_nonempty_spec(pv, "id"@)->Ok_0;
    let x = project_written(w, name, description, gone, at, given, env)->Ok_0;
    let row = ProjectV { id: x.1, name, description, archived: gone, created: at };
    assert(x.0.e.projects == put::<Project>(w.e.projects, row));
    put_is_found::<Project>(w.e.projects, row);
    assert forall|k: Seq<char>| k != name implies #[trigger] find::<Project>(
        put::<Project>(w.e.projects, row),
        k,
    ) == find::<Project>(w.e.projects, k) by {
        put_leaves_the_rest::<Project>(w.e.projects, row, k);
    }
    log_grows(
        w.e.events,
        event_row(
            env.log.ids[x.0.used as int],
            Entity::Project,
            x.1,
            "import"@,
            project_mark(name, gone),
            env.log,
        ),
    );
}

/// A row of a project that came in once comes in again.
#[verifier::rlimit(40)]
proof fn project_again(a: Work, b: Work, pv: JsonV, env1: EnvV, env2: EnvV)
    requires
        project_one(a, pv, env1) is Ok,
        find::<Project>(b.e.projects, row_name(pv)) is Some,
        b.used < env2.log.ids.len(),
        ids_left(b.e.events, env2.log.ids, b.used),
    ensures
        project_one(b, pv, env2) matches Ok(r) && r.used == b.used + 1 && ids_left(
            r.e.events,
            env2.log.ids,
            b.used + 1,
        ),
{
    let name = row_name(pv);
    let gone = row_archived(pv);
    let id = find::<Project>(b.e.projects, name)->0.id;
    assert(find::<Event>(b.e.events, env2.log.ids[b.used as int]) is None);
    ids_stay_left(
        b.e.events,
        env2.log.ids,
        b.used,
        event_row(
            env2.log.ids[b.used as int],
            Entity::Project,
            id,
            "import"@,
            project_mark(name, gone),
            env2.log,
        ),
    );
}

/// Whether the last of the first `n` rows of a project says it is archived.
pub open spec fn last_archived(v: Seq<JsonV>, n: nat, name: Seq<char>) -> Option<bool>
    decreases n,
{
    if n == 0 || n > v.len() {
        None
    } else if row_name(v[n - 1]) == name {
        Some(row_archived(v[n - 1]))
    } else {
        last_archived(v, (n - 1) as nat, name)
    }
}

/// What the first `n` rows of projects make of a table.
pub open spec fn projects_grew(
    was: Seq<ProjectV>,
    now: Seq<ProjectV>,
    v: Seq<JsonV>,
    n: nat,
) -> bool {
    &&& forall|i: int|
        0 <= i < n ==> find::<Project>(now, row_name(#[trigger] v[i])) is Some
    &&& forall|x: Seq<char>|
        find::<Project>(was, x) is Some ==> (#[trigger] find::<Project>(now, x)) is Some
    &&& forall|x: Seq<char>| #[trigger]
        last_archived(v, n, x) matches Some(a) ==> (find::<Project>(now, x) matches Some(p)
            && p.archived == a)
    &&& forall|x: Seq<char>| #[trigger]
        last_archived(v, n, x) is None ==> find::<Project>(now, x) == find::<Project>(was, x)
}

proof fn one_more_project(w: Work, was: Seq<ProjectV>, v: Seq<JsonV>, env: EnvV, n: int)
    requires
        0 <= n < v.len(),
        projects_grew(was, w.e.projects, v, n as nat),
        project_one(w, v[n], env) is Ok,
    ensures
        projects_grew(was, project_one(w, v[n], env)->Ok_0.e.projects, v, (n + 1) as nat),
{
    project_effect(w, v[n], env);
    let now = project_one(w, v[n], env)->Ok_0.e.projects;
    let name = row_name(v[n]);
    assert forall|i: int| 0 <= i < n + 1 implies find::<Project>(
        now,
        row_name(#[trigger] v[i]),
    ) is Some by {
        if row_name(v[i]) != name {
            assert(find::<Project>(w.e.projects, row_name(v[i])) is Some);
        }
    }
    assert forall|x: Seq<char>| find::<Project>(was, x) is Some implies (
    #[trigger] find::<Project>(now, x)) is Some by {
        if x != name {
            assert(find::<Project>(w.e.projects, x) is Some);
        }
    }
    assert forall|x: Seq<char>| #[trigger]
        last_archived(v, (n + 1) as nat, x) matches Some(_) implies find::<Project>(now, x) is Some
        && Some(find::<Project>(now, x)->0.archived) == last_archived(v, (n + 1) as nat, x) by {
        if x != name {
            assert(last_archived(v, n as nat, x) == last_archived(v, (n + 1) as nat, x));
        }
    }
    assert forall|x: Seq<char>| #[trigger]
        last_archived(v, (n + 1) as nat, x) is None implies find::<Project>(now, x)
        == find::<Project>(was, x) by {
        assert(last_archived(v, n as nat, x) is None);
    }
}

/// The rows of projects, imported into a store.
pub proof fn projects_first(v: Seq<JsonV>, n: nat, s: EngineV, env: EnvV)
    requires
        n <= v.len(),
        each(v, n, begun(s), project_step(env)) is Ok,
    ensures
        each(v, n, begun(s), project_step(env)) matches Ok(w) && w == (Work {
            e: EngineV { projects: w.e.projects, events: w.e.events, ..s },
            used: w.used,
            ..begun(s)
        }) && projects_grew(s.projects, w.e.projects, v, n),
    decreases n,
{
    let step = project_step(env);
    if n > 0 {
        let k = n - 1;
        each_prefix(v, k as nat, n, begun(s), step);
        projects_first(v, k as nat, s, env);
        let w = each(v, k as nat, begun(s), step)->Ok_0;
        assert(step(w, v[k]) == project_one(w, v[k], env));
        project_effect(w, v[k], env);
        one_more_project(w, s.projects, v, env, k);
    }
}

/// The rows of projects, imported into a store that took them before.
pub proof fn projects_second(
    v: Seq<JsonV>,
    n: nat,
    s: EngineV,
    t: EngineV,
    env1: EnvV,
    env2: EnvV,
)
    requires
        n <= v.len(),
        n <= env2.log.ids.len(),
        each(v, v.len(), begun(s), project_step(env1)) is Ok,
        forall|i: int|
            0 <= i < v.len() ==> find::<Project>(t.projects, row_name(#[trigger] v[i])) is Some,
        ids_left(t.events, env2.log.ids, 0),
    ensures
        each(v, n, begun(t), project_step(env2)) matches Ok(w) && w == (Work {
            e: EngineV { projects: w.e.projects, events: w.e.events, ..t },
            used: n,
            ..begun(t)
        }) && projects_grew(t.projects, w.e.projects, v, n) && ids_left(
            w.e.events,
            env2.log.ids,
            n,
        ) && log_grew(t.events, w.e.events),
    decreases n,
{
    let s1 = project_step(env1);
    let s2 = project_step(env2);
    if n > 0 {
        let k = n - 1;
        projects_second(v, k as nat, s, t, env1, env2);
        each_prefix(v, k as nat, v.len(), begun(s), s1);
        each_prefix(v, n, v.len(), begun(s), s1);
        let a = each(v, k as nat, begun(s), s1)->Ok_0;
        let b = each(v, k as nat, begun(t), s2)->Ok_0;
        assert(s1(a, v[k]) == project_one(a, v[k], env1));
        assert(s2(b, v[k]) == project_one(b, v[k], env2));
        assert(find::<Project>(t.projects, row_name(v[k])) is Some);
        project_again(a, b, v[k], env1, env2);
        project_effect(b, v[k], env2);
        one_more_project(b, t.projects, v, env2, k);
    }
}

/// Whether a row of a memory document spells out what an import would else
/// make up.
pub open spec fn doc_spelled_out(dv: JsonV) -> bool {
    gives_id(dv) && gives(dv, "created"@) && gives(dv, "modified"@)
}

/// The source a row of a memory document gives.
pub open spec fn row_source(dv: JsonV) -> Option<Seq<char>> {
    opt_str_nonempty_spec(dv, "source"@)->Ok_0
}

/// The memory document of a row.
pub open spec fn doc_row(dv: JsonV, env: EnvV) -> DocV {
    DocV {
        id: given_id(dv),
        source: row_source(dv),
        title: req_str_spec(dv, "title"@)->Ok_0,
        body: req_str_spec(dv, "body"@)->Ok_0,
        search_body: crate::frontmatter::flat(req_str_spec(dv, "body"@)->Ok_0),
        project: opt_str_nonempty_spec(dv, "project"@)->Ok_0,
        rev: match opt_i64_spec(dv, "_rev"@)->Ok_0 {
            Some(n) => n,
            None => 0,
        },
        standing: opt_bool_spec(dv, "standing"@)->Ok_0 == Some(true),
        created: opt_when_spec(dv, "created"@, env.dates)->Ok_0->0,
        modified: opt_when_spec(dv, "modified"@, env.dates)->Ok_0->0,
    }
}

/// What a row of a memory document does.
#[verifier::rlimit(40)]
proof fn doc_effect(w: Work, dv: JsonV, env: EnvV)
    requires
        doc_spelled_out(dv),
        doc_one(w, dv, env) is Ok,
    ensures
        ({
            let r = doc_one(w, dv, env)->Ok_0;
            &&& r == (Work {
                e: EngineV {
                    docs: put::<Doc>(w.e.docs, doc_row(dv, env)),
                    events: r.e.events,
                    ..w.e
                },
                used: w.used + 1,
                ..w
            })
            &&& log_grew(w.e.events, r.e.events)
            &&& source_free(w.e.docs, row_source(dv), given_id(dv)) is Ok
            &&& w.used < env.log.ids.len()
            &&& r.e.events == put::<Event>(
                w.e.events,
                event_row(
                    env.log.ids[w.used as int],
                    Entity::Doc,
                    given_id(dv),
                    "memory.add"@,
                    doc_mark(doc_row(dv, env).title, row_source(dv)),
                    env.log,
                ),
            )
        }),
{
    let row = doc_row(dv, env);
    log_grows(
        w.e.events,
        event_row(
            env.log.ids[w.used as int],
            Entity::Doc,
            row.id,
            "memory.add"@,
            doc_mark(row.title, row.source),
            env.log,
        ),
    );
}

/// A row of a memory document that came in once comes in again.
#[verifier::rlimit(40)]
proof fn doc_again(a: Work, b: Work, dv: JsonV, env1: EnvV, env2: EnvV)
    requires
        doc_spelled_out(dv),
        same_but_log(env1, env2),
        doc_one(a, dv, env1) is Ok,
        find::<Doc>(b.e.docs, given_id(dv)) == Some(doc_row(dv, env1)),
        source_free(b.e.docs, row_source(dv), given_id(dv)) is Ok,
        b.used < env2.log.ids.len(),
        ids_left(b.e.events, env2.log.ids, b.used),
    ensures
        doc_one(b, dv, env2) is Ok,
        doc_row(dv, env2) == doc_row(dv, env1),
{
    assert(find::<Event>(b.e.events, env2.log.ids[b.used as int]) is None);
}

proof fn holder_is_none(d: Seq<DocV>, source: Seq<char>, id: Seq<char>, i: int)
    requires
        0 <= i,
        source_holder(d, source, id, i) is None,
    ensures
        forall|k: int| i <= k < d.len() ==> (#[trigger] d[k]).source != Some(source) || d[k].id == id,
    decreases d.len() - i,
{
    if i < d.len() {
        holder_is_none(d, source, id, i + 1);
        assert forall|k: int| i <= k < d.len() implies (#[trigger] d[k]).source != Some(source)
            || d[k].id == id by {
            if k == i {
                assert(d[i].source != Some(source) || d[i].id == id);
            }
        }
    }
}

/// Whether a source is nobody else's.
pub open spec fn held_alone(d: Seq<DocV>, source: Option<Seq<char>>, id: Seq<char>) -> bool {
    source matches Some(x) ==> forall|k: int|
        0 <= k < d.len() ==> (#[trigger] d[k]).source != Some(x) || d[k].id == id
}

/// A source is free for a document exactly where no other has it.
pub proof fn free_is_alone(d: Seq<DocV>, source: Option<Seq<char>>, id: Seq<char>)
    ensures
        source_free(d, source, id) is Ok == held_alone(d, source, id),
{
    if let Some(x) = source {
        if source_holder(d, x, id, 0) is None {
            holder_is_none(d, x, id, 0);
        }
        if held_alone(d, source, id) {
            no_other_holder(d, x, id, 0);
        }
    }
}

/// The first `n` rows of memory documents are in a table, each under its source
/// alone.
pub open spec fn docs_stand(d: Seq<DocV>, v: Seq<JsonV>, env: EnvV, n: nat) -> bool {
    &&& forall|i: int|
        0 <= i < n ==> find::<Doc>(d, given_id(#[trigger] v[i])) == Some(doc_row(v[i], env))
    &&& forall|i: int|
        0 <= i < n ==> held_alone(d, row_source(#[trigger] v[i]), given_id(v[i]))
}

/// Whether the rows of a section give different ids.
pub open spec fn ids_given_differ(v: Seq<JsonV>) -> bool {
    forall|i: int, j: int|
        0 <= i < j < v.len() ==> given_id(#[trigger] v[i]) != given_id(#[trigger] v[j])
}

proof fn one_more_doc(w: Work, v: Seq<JsonV>, env: EnvV, n: int)
    requires
        0 <= n < v.len(),
        ids_given_differ(v),
        doc_spelled_out(v[n]),
        docs_stand(w.e.docs, v, env, n as nat),
        doc_one(w, v[n], env) is Ok,
    ensures
        docs_stand(doc_one(w, v[n], env)->Ok_0.e.docs, v, env, (n + 1) as nat),
{
    doc_effect(w, v[n], env);
    let row = doc_row(v[n], env);
    let now = put::<Doc>(w.e.docs, row);
    free_is_alone(w.e.docs, row.source, row.id);
    put_is_found::<Doc>(w.e.docs, row);
    assert forall|i: int| 0 <= i < n + 1 implies find::<Doc>(now, given_id(#[trigger] v[i]))
        == Some(doc_row(v[i], env)) by {
        if i < n {
            assert(given_id(v[i]) != given_id(v[n]));
            put_leaves_the_rest::<Doc>(w.e.docs, row, given_id(v[i]));
        }
    }
    assert forall|i: int| 0 <= i < n + 1 implies held_alone(
        now,
        row_source(#[trigger] v[i]),
        given_id(v[i]),
    ) by {
        let id = given_id(v[i]);
        if let Some(x) = row_source(v[i]) {
            assert forall|k: int| 0 <= k < now.len() implies (#[trigger] now[k]).source != Some(x)
                || now[k].id == id by {
                put_keys::<Doc>(w.e.docs, row, k);
                if now[k] != row {
                    let m = choose|m: int| 0 <= m < w.e.docs.len() && w.e.docs[m] == now[k];
                    if i < n {
                        assert(held_alone(w.e.docs, row_source(v[i]), id));
                    }
                    assert(w.e.docs[m].source != Some(x) || w.e.docs[m].id == id);
                } else if i < n && row.source == Some(x) {
                    found_doc_stands(w.e.docs, id);
                    let m = choose|m: int|
                        0 <= m < w.e.docs.len() && #[trigger] w.e.docs[m] == doc_row(v[i], env);
                    assert(w.e.docs[m].source == Some(x));
                    assert(w.e.docs[m].id == row.id);
                    assert(given_id(v[i]) != given_id(v[n]));
                }
            }
        }
    }
}

proof fn found_doc_stands(d: Seq<DocV>, id: Seq<char>)
    ensures
        find::<Doc>(d, id) is Some ==> exists|k: int|
            0 <= k < d.len() && #[trigger] d[k] == find::<Doc>(d, id)->0,
    decreases d.len(),
{
    if d.len() > 0 {
        if d.last().id == id {
            assert(d[d.len() - 1] == d.last());
        } else {
            found_doc_stands(d.drop_last(), id);
            if find::<Doc>(d, id) is Some {
                let k = choose|k: int|
                    0 <= k < d.drop_last().len() && #[trigger] d.drop_last()[k] == find::<Doc>(
                        d.drop_last(),
                        id,
                    )->0;
                assert(d[k] == find::<Doc>(d, id)->0);
            }
        }
    }
}

/// The rows of memory documents, imported into a store.
pub proof fn docs_first(v: Seq<JsonV>, n: nat, w0: Work, env: EnvV)
    requires
        n <= v.len(),
        ids_given_differ(v),
        forall|i: int| 0 <= i < v.len() ==> doc_spelled_out(#[trigger] v[i]),
        each(v, n, w0, doc_step(env)) is Ok,
    ensures
        each(v, n, w0, doc_step(env)) matches Ok(w) && w == (Work {
            e: EngineV { docs: w.e.docs, events: w.e.events, ..w0.e },
            used: w.used,
            ..w0
        }) && docs_stand(w.e.docs, v, env, n),
    decreases n,
{
    let step = doc_step(env);
    if n > 0 {
        let k = n - 1;
        each_prefix(v, k as nat, n, w0, step);
        docs_first(v, k as nat, w0, env);
        let w = each(v, k as nat, w0, step)->Ok_0;
        assert(step(w, v[k]) == doc_one(w, v[k], env));
        assert(doc_spelled_out(v[k]));
        doc_effect(w, v[k], env);
        one_more_doc(w, v, env, k);
    }
}

/// The rows of memory documents, imported into a store that took them before.
pub proof fn docs_second(
    v: Seq<JsonV>,
    n: nat,
    a0: Work,
    b0: Work,
    env1: EnvV,
    env2: EnvV,
)
    requires
        n <= v.len(),
        forall|i: int| 0 <= i < v.len() ==> doc_spelled_out(#[trigger] v[i]),
        same_but_log(env1, env2),
        each(v, v.len(), a0, doc_step(env1)) is Ok,
        ordered::<Doc>(b0.e.docs),
        docs_stand(b0.e.docs, v, env1, v.len()),
        b0.used + n <= env2.log.ids.len(),
        ids_left(b0.e.events, env2.log.ids, b0.used),
    ensures
        each(v, n, b0, doc_step(env2)) matches Ok(w) && w == (Work {
            e: EngineV { events: w.e.events, ..b0.e },
            used: b0.used + n,
            ..b0
        }) && ids_left(w.e.events, env2.log.ids, b0.used + n) && log_grew(
            b0.e.events,
            w.e.events,
        ),
    decreases n,
{
    let s1 = doc_step(env1);
    let s2 = doc_step(env2);
    if n > 0 {
        let k = n - 1;
        docs_second(v, k as nat, a0, b0, env1, env2);
        each_prefix(v, k as nat, v.len(), a0, s1);
        each_prefix(v, n, v.len(), a0, s1);
        let a = each(v, k as nat, a0, s1)->Ok_0;
        let b = each(v, k as nat, b0, s2)->Ok_0;
        let row = doc_row(v[k], env1);
        assert(s1(a, v[k]) == doc_one(a, v[k], env1));
        assert(s2(b, v[k]) == doc_one(b, v[k], env2));
        assert(doc_spelled_out(v[k]));
        assert(find::<Doc>(b.e.docs, given_id(v[k])) == Some(row));
        free_is_alone(b.e.docs, row_source(v[k]), given_id(v[k]));
        assert(held_alone(b.e.docs, row_source(v[k]), given_id(v[k])));
        doc_again(a, b, v[k], env1, env2);
        doc_effect(b, v[k], env2);
        found_doc_stands(b.e.docs, given_id(v[k]));
        let m = choose|m: int| 0 <= m < b.e.docs.len() && #[trigger] b.e.docs[m] == row;
        row_put_again::<Doc>(b.e.docs, m);
        ids_stay_left(
            b.e.events,
            env2.log.ids,
            b.used,
            event_row(
                env2.log.ids[b.used as int],
                Entity::Doc,
                given_id(v[k]),
                "memory.add"@,
                doc_mark(doc_row(v[k], env2).title, row_source(v[k])),
                env2.log,
            ),
        );
    }
}

/// What a row of an event does.
#[verifier::rlimit(40)]
proof fn event_effect(w: Work, ev: JsonV, env: EnvV)
    requires
        gives_id(ev),
        event_one(w, ev, env) is Ok,
    ensures
        event_one(w, ev, env) matches Ok(r) && r == (Work {
            e: EngineV { events: r.e.events, ..w.e },
            replayed: r.replayed,
            ..w
        }) && log_grew(w.e.events, r.e.events) && find::<Event>(r.e.events, given_id(ev)) is Some,
{
    if find::<Event>(w.e.events, given_id(ev)) is None {
        let row = EventV {
            id: given_id(ev),
            entity: entity_named(req_str_spec(ev, "entity"@)->Ok_0)->0.name(),
            entity_id: req_str_spec(ev, "entity_id"@)->Ok_0,
            op: req_str_spec(ev, "op"@)->Ok_0,
            payload: Some(
                json_text(
                    match ev.get("payload"@) {
                        Some(v) => v,
                        None => JsonV::Null,
                    },
                ),
            ),
            ts: match opt_str_nonempty_spec(ev, "ts"@)->Ok_0 {
                Some(s) => s,
                None => env.log.now,
            },
            actor: opt_str_nonempty_spec(ev, "actor"@)->Ok_0,
        };
        log_grows(w.e.events, row);
    }
}

/// The rows of events, imported into a store.
pub proof fn events_first(v: Seq<JsonV>, n: nat, w0: Work, env: EnvV)
    requires
        n <= v.len(),
        all_give_ids(v),
        each(v, n, w0, event_step(env)) is Ok,
    ensures
        each(v, n, w0, event_step(env)) matches Ok(w) && w == (Work {
            e: EngineV { events: w.e.events, ..w0.e },
            replayed: w.replayed,
            ..w0
        }) && forall|i: int|
            0 <= i < n ==> find::<Event>(w.e.events, given_id(#[trigger] v[i])) is Some,
    decreases n,
{
    let step = event_step(env);
    if n > 0 {
        let k = n - 1;
        each_prefix(v, k as nat, n, w0, step);
        events_first(v, k as nat, w0, env);
        let w = each(v, k as nat, w0, step)->Ok_0;
        assert(step(w, v[k]) == event_one(w, v[k], env));
        assert(gives_id(v[k]));
        event_effect(w, v[k], env);
        let r = event_one(w, v[k], env)->Ok_0;
        assert forall|i: int| 0 <= i < n implies find::<Event>(
            r.e.events,
            given_id(#[trigger] v[i]),
        ) is Some by {
            if i < k {
                assert(find::<Event>(w.e.events, given_id(v[i])) is Some);
            }
        }
    }
}

/// The rows of events, imported into a store that took them before.
#[verifier::rlimit(40)]
pub proof fn events_second(
    v: Seq<JsonV>,
    n: nat,
    a0: Work,
    b0: Work,
    env1: EnvV,
    env2: EnvV,
)
    requires
        n <= v.len(),
        all_give_ids(v),
        each(v, v.len(), a0, event_step(env1)) is Ok,
        forall|i: int|
            0 <= i < v.len() ==> find::<Event>(b0.e.events, given_id(#[trigger] v[i])) is Some,
    ensures
        each(v, n, b0, event_step(env2)) == Ok::<Work, ErrorV>(b0),
    decreases n,
{
    let s1 = event_step(env1);
    let s2 = event_step(env2);
    if n > 0 {
        let k = n - 1;
        events_second(v, k as nat, a0, b0, env1, env2);
        each_prefix(v, k as nat, v.len(), a0, s1);
        each_prefix(v, n, v.len(), a0, s1);
        let a = each(v, k as nat, a0, s1)->Ok_0;
        assert(s1(a, v[k]) == event_one(a, v[k], env1));
        assert(s2(b0, v[k]) == event_one(b0, v[k], env2));
        assert(gives_id(v[k]));
        assert(find::<Event>(b0.e.events, given_id(v[k])) is Some);
    }
}

} // verus!
