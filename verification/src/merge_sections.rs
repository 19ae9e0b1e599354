//! What an import makes of the projects, the memory documents and the events
//! of a document, of its default project and of its report.

use crate::engine::EngineV;
use crate::error::ErrorV;
use crate::filter::after;
use crate::frontmatter::flat;
use crate::import_children::each;
use crate::import_laws::each_prefix;
use crate::import_laws::tasks_keep_what_was;
use crate::import_read::EnvV;
use crate::import_read::head_spec;
use crate::import_read::opt_when_spec;
use crate::import_repeat::projects_stay;
use crate::import_repeat::row_effect;
use crate::import_rules::begun;
use crate::import_rules::doc_mark;
use crate::import_rules::doc_one;
use crate::import_rules::doc_step;
use crate::import_rules::event_one;
use crate::import_rules::event_step;
use crate::import_rules::imported;
use crate::import_rules::logged;
use crate::import_rules::project_mark;
use crate::import_rules::project_one;
use crate::import_rules::project_settled;
use crate::import_rules::project_step;
use crate::import_rules::project_written;
use crate::import_rules::raised;
use crate::import_rules::report;
use crate::import_rules::section;
use crate::import_rules::sections_in;
use crate::import_rules::task_id_spec;
use crate::import_rules::task_one;
use crate::import_rules::task_step;
use crate::import_rules::tasks_in;
use crate::import_rules::tasks_spec;
use crate::import_rules::Work;
use crate::import_twice::log_grew;
use crate::journal::event_row;
use crate::journal::minted;
use crate::json::JsonV;
use crate::json_text::json_text;
use crate::merge_laws::date_is_taken;
use crate::merge_laws::left_out;
use crate::merge_laws::took_date;
use crate::merge_laws::took_text;
use crate::params::opt_array_spec;
use crate::params::opt_bool_spec;
use crate::params::opt_i64_spec;
use crate::params::opt_str_nonempty_spec;
use crate::params::req_str_lookup_spec;
use crate::params::req_str_spec;
use crate::rows::Doc;
use crate::rows::DocV;
use crate::rows::Event;
use crate::rows::EventV;
use crate::rows::Project;
use crate::rows::ProjectV;
use crate::tables::find;
use crate::tables::put;
use crate::tables::put_is_found;
use crate::tables::put_leaves_the_rest;
use crate::types::Entity;
use crate::types::entity_named;
use crate::value::str_values;
use vstd::prelude::*;

verus! {

broadcast use vstd::string::group_string_axioms;

/// Whether a stamp was taken over as it is, or is this moment where none was
/// given.
pub open spec fn took_or_now(tv: JsonV, key: Seq<char>, env: EnvV, now: Seq<char>) -> bool {
    if left_out(tv, key) {
        now == env.log.now
    } else {
        tv.get(key) == Some(JsonV::Str(now)) && now.len() > 0
    }
}

/// The row at `i` of a section of an imported document.
pub open spec fn section_row(
    e: EngineV,
    p: JsonV,
    env: EnvV,
    key: Seq<char>,
    v: Seq<JsonV>,
    i: int,
) -> bool {
    &&& imported(e, p, env) is Ok
    &&& p.get(key) == Some(JsonV::Arr(v))
    &&& 0 <= i < v.len()
}

/// Whether no row after the one at `i` has the same text under `key`.
pub open spec fn last_with(v: Seq<JsonV>, i: int, key: Seq<char>) -> bool {
    forall|k: int| i < k < v.len() ==> (#[trigger] v[k]).get(key) != v[i].get(key)
}

/// What holds after some rows and is kept by the rest holds after them all.
pub proof fn each_from<S>(
    v: Seq<JsonV>,
    i: nat,
    n: nat,
    s: S,
    step: spec_fn(S, JsonV) -> Result<S, ErrorV>,
    inv: spec_fn(S) -> bool,
)
    requires
        i <= n <= v.len(),
        each(v, n, s, step) is Ok,
        inv(each(v, i, s, step)->Ok_0),
        forall|t: S, k: int|
            i <= k < v.len() && inv(t) && (#[trigger] step(t, v[k])) is Ok ==> inv(
                step(t, v[k])->Ok_0,
            ),
    ensures
        inv(each(v, n, s, step)->Ok_0),
    decreases n,
{
    if i < n {
        each_prefix(v, (n - 1) as nat, n, s, step);
        each_from(v, i, (n - 1) as nat, s, step, inv);
        assert(step(each(v, (n - 1) as nat, s, step)->Ok_0, v[n - 1]) == each(v, n, s, step));
    }
}

/// The three sections of an import that went through, one after the other.
pub proof fn sections_went(e: EngineV, p: JsonV, env: EnvV)
    requires
        imported(e, p, env) is Ok,
    ensures
        ({
            let ps = section(opt_array_spec(p, "projects"@));
            let ds = section(opt_array_spec(p, "docs"@));
            let es = section(opt_array_spec(p, "events"@));
            let w1 = each(ps, ps.len(), begun(e), project_step(env));
            let w2 = each(ds, ds.len(), w1->Ok_0, doc_step(env));
            let w3 = each(es, es.len(), w2->Ok_0, event_step(env));
            &&& w1 is Ok
            &&& w2 is Ok
            &&& w3 is Ok
            &&& sections_in(e, p, env) == w3
            &&& opt_array_spec(p, "docs"@) is Ok
            &&& opt_array_spec(p, "events"@) is Ok
        }),
{
    reveal(sections_in);
}

/// What the tasks of a document leave of what the sections made.
pub proof fn tasks_leave(e: EngineV, p: JsonV, env: EnvV)
    requires
        imported(e, p, env) is Ok,
    ensures
        ({
            let w = sections_in(e, p, env)->Ok_0;
            let r = imported(e, p, env)->Ok_0.0;
            &&& r.docs == w.e.docs
            &&& projects_stay(w.e.projects, r.projects)
            &&& log_grew(w.e.events, r.events)
        }),
{
    let w = sections_in(e, p, env)->Ok_0;
    let rows = tasks_spec(p)->Ok_0;
    let declared = opt_array_spec(p, "projects"@)->Ok_0 is Some;
    let s = raised(w, rows);
    let step = task_step(declared, env);
    let inv = |t: Work|
        t.e.docs == w.e.docs && projects_stay(w.e.projects, t.e.projects) && log_grew(
            w.e.events,
            t.e.events,
        ) && t.e.default_project == w.e.default_project;
    assert(each(rows, rows.len(), s, step) is Ok) by {
        reveal(crate::import_rules::tasks_in);
    }
    assert forall|t: Work, k: int|
        0 <= k < rows.len() && inv(t) && (#[trigger] step(t, rows[k])) is Ok implies inv(
        step(t, rows[k])->Ok_0,
    ) by {
        assert(step(t, rows[k]) == task_one(t, rows[k], declared, env));
        row_effect(t, rows[k], declared, env);
        let r = step(t, rows[k])->Ok_0;
        assert forall|x: Seq<char>|
            find::<Project>(w.e.projects, x) is Some implies #[trigger] find::<Project>(
            r.e.projects,
            x,
        ) == find::<Project>(w.e.projects, x) by {
            assert(find::<Project>(t.e.projects, x) == find::<Project>(w.e.projects, x));
        }
    }
    assert(inv(s));
    each_from(rows, 0, rows.len(), s, step, inv);
    reveal(crate::import_rules::tasks_in);
    reveal(crate::import_rules::finished);
}

/// What a project's row makes of the projects.
#[verifier::rlimit(40)]
pub proof fn project_lands(w: Work, pv: JsonV, env: EnvV)
    requires
        project_one(w, pv, env) is Ok,
    ensures
        ({
            let r = project_one(w, pv, env)->Ok_0;
            &&& pv.get("name"@) matches Some(JsonV::Str(name)) && {
                &&& find::<Project>(r.e.projects, name) matches Some(x) && {
                    &&& took_text(pv, "description"@, x.description)
                    &&& (x.archived <==> pv.get("archived"@) == Some(JsonV::Bool(true)))
                    &&& took_or_now(pv, "created"@, env, x.created)
                    &&& match find::<Project>(w.e.projects, name) {
                        Some(was) => x.id == was.id,
                        None => !left_out(pv, "id"@) ==> pv.get("id"@) == Some(JsonV::Str(x.id)),
                    }
                }
                &&& forall|k: Seq<char>|
                    k != name ==> #[trigger] find::<Project>(r.e.projects, k) == find::<Project>(
                        w.e.projects,
                        k,
                    )
            }
        }),
{
    let name = req_str_lookup_spec(pv, "name"@)->Ok_0;
    let description = opt_str_nonempty_spec(pv, "description"@)->Ok_0;
    let gone = opt_bool_spec(pv, "archived"@)->Ok_0 == Some(true);
    let at = match opt_str_nonempty_spec(pv, "created"@)->Ok_0 {
        Some(s) => s,
        None => env.log.now,
    };
    let given = opt_str_nonempty_spec(pv, "id"@)->Ok_0;
    let x = project_written(w, name, description, gone, at, given, env)->Ok_0;
    let row = ProjectV { id: x.1, name, description, archived: gone, created: at };
    assert(x.0.e.projects == put::<Project>(w.e.projects, row));
    put_is_found::<Project>(w.e.projects, row);
    assert forall|k: Seq<char>| k != name implies #[trigger] find::<Project>(
        put::<Project>(w.e.projects, row),
        k,
    ) == find::<Project>(w.e.projects, k) by {
        put_leaves_the_rest::<Project>(w.e.projects, row, k);
    }
}

/// A project of the document stands in the store as its last row says: with its
/// description, archived only where the row says so, and created when the row
/// says, or now. A project that was there keeps its id; a new one has the id
/// its row gives.
#[verifier::rlimit(40)]
pub proof fn imported_projects_carry_what_their_rows_say(
    e: EngineV,
    p: JsonV,
    env: EnvV,
    v: Seq<JsonV>,
    i: int,
    name: Seq<char>,
)
    requires
        section_row(e, p, env, "projects"@, v, i),
        v[i].get("name"@) == Some(JsonV::Str(name)),
        last_with(v, i, "name"@),
    ensures
        find::<Project>(imported(e, p, env)->Ok_0.0.projects, name) matches Some(x) && {
            &&& took_text(v[i], "description"@, x.description)
            &&& (x.archived <==> v[i].get("archived"@) == Some(JsonV::Bool(true)))
            &&& took_or_now(v[i], "created"@, env, x.created)
            &&& (find::<Project>(e.projects, name) matches Some(was) ==> x.id == was.id)
        },
{
    sections_went(e, p, env);
    tasks_leave(e, p, env);
    let step = project_step(env);
    let same_id = |t: Work|
        find::<Project>(e.projects, name) matches Some(was) ==> (find::<Project>(
            t.e.projects,
            name,
        ) matches Some(x) && x.id == was.id);
    assert forall|t: Work, k: int|
        0 <= k < v.len() && same_id(t) && (#[trigger] step(t, v[k])) is Ok implies same_id(
        step(t, v[k])->Ok_0,
    ) by {
        assert(step(t, v[k]) == project_one(t, v[k], env));
        project_lands(t, v[k], env);
    }
    each_prefix(v, i as nat, v.len(), begun(e), step);
    each_prefix(v, i as nat + 1, v.len(), begun(e), step);
    assert(same_id(begun(e)));
    each_from(v, 0, i as nat, begun(e), step, same_id);
    let t = each(v, i as nat, begun(e), step)->Ok_0;
    assert(step(t, v[i]) == project_one(t, v[i], env));
    project_lands(t, v[i], env);
    let x = find::<Project>(step(t, v[i])->Ok_0.e.projects, name)->0;
    let inv = |t: Work| find::<Project>(t.e.projects, name) == Some(x);
    assert forall|t: Work, k: int|
        i + 1 <= k < v.len() && inv(t) && (#[trigger] step(t, v[k])) is Ok implies inv(
        step(t, v[k])->Ok_0,
    ) by {
        assert(step(t, v[k]) == project_one(t, v[k], env));
        project_lands(t, v[k], env);
        assert(v[k].get("name"@) != v[i].get("name"@));
    }
    each_from(v, i as nat + 1, v.len(), begun(e), step, inv);
    let w1 = each(v, v.len(), begun(e), step)->Ok_0;
    let ds = section(opt_array_spec(p, "docs"@));
    let es = section(opt_array_spec(p, "events"@));
    each_from(ds, 0, ds.len(), w1, doc_step(env), inv);
    let w2 = each(ds, ds.len(), w1, doc_step(env))->Ok_0;
    each_from(es, 0, es.len(), w2, event_step(env), inv);
}

/// What a memory document's row makes of the documents.
#[verifier::rlimit(60)]
proof fn doc_lands(w: Work, dv: JsonV, env: EnvV)
    requires
        doc_one(w, dv, env) is Ok,
    ensures
        ({
            let r = doc_one(w, dv, env)->Ok_0;
            exists|id: Seq<char>| #[trigger] landed(w, r, dv, env, id)
        }),
{
    let given = opt_str_nonempty_spec(dv, "id"@);
    let id = match given {
        Ok(Some(x)) => x,
        _ => minted(env.log, w.used)->Ok_0,
    };
    let body = req_str_spec(dv, "body"@)->Ok_0;
    let row = DocV {
        id,
        source: opt_str_nonempty_spec(dv, "source"@)->Ok_0,
        title: req_str_spec(dv, "title"@)->Ok_0,
        body,
        search_body: flat(body),
        project: opt_str_nonempty_spec(dv, "project"@)->Ok_0,
        rev: match opt_i64_spec(dv, "_rev"@)->Ok_0 {
            Some(n) => n,
            None => 0,
        },
        standing: opt_bool_spec(dv, "standing"@)->Ok_0 == Some(true),
        created: match opt_when_spec(dv, "created"@, env.dates)->Ok_0 {
            Some(s) => s,
            None => env.log.now,
        },
        modified: match opt_when_spec(dv, "modified"@, env.dates)->Ok_0 {
            Some(s) => s,
            None => env.log.now,
        },
    };
    let r = doc_one(w, dv, env)->Ok_0;
    assert(r.e.docs == put::<Doc>(w.e.docs, row));
    put_is_found::<Doc>(w.e.docs, row);
    assert forall|k: Seq<char>| k != id implies #[trigger] find::<Doc>(r.e.docs, k) == find::<Doc>(
        w.e.docs,
        k,
    ) by {
        put_leaves_the_rest::<Doc>(w.e.docs, row, k);
    }
    date_is_taken(dv, "created"@, env.dates);
    date_is_taken(dv, "modified"@, env.dates);
    assert(landed(w, r, dv, env, id));
}

/// Whether a memory document says what its row says, under the id `id`.
pub open spec fn says_the_row(d: DocV, dv: JsonV, env: EnvV) -> bool {
    &&& dv.get("title"@) == Some(JsonV::Str(d.title))
    &&& dv.get("body"@) == Some(JsonV::Str(d.body))
    &&& d.search_body == flat(d.body)
    &&& took_text(dv, "source"@, d.source)
    &&& took_text(dv, "project"@, d.project)
    &&& if left_out(dv, "_rev"@) {
        d.rev == 0
    } else {
        dv.get("_rev"@) == Some(JsonV::Int(d.rev as int))
    }
    &&& d.standing <==> dv.get("standing"@) == Some(JsonV::Bool(true))
    &&& if left_out(dv, "created"@) {
        d.created == env.log.now
    } else {
        took_date(dv, "created"@, env.dates, Some(d.created))
    }
    &&& if left_out(dv, "modified"@) {
        d.modified == env.log.now
    } else {
        took_date(dv, "modified"@, env.dates, Some(d.modified))
    }
}

spec fn landed(w: Work, r: Work, dv: JsonV, env: EnvV, id: Seq<char>) -> bool {
    &&& if left_out(dv, "id"@) {
        env.log.ids.contains(id)
    } else {
        dv.get("id"@) == Some(JsonV::Str(id))
    }
    &&& find::<Doc>(r.e.docs, id) matches Some(d) && says_the_row(d, dv, env)
    &&& forall|k: Seq<char>|
        k != id ==> #[trigger] find::<Doc>(r.e.docs, k) == find::<Doc>(w.e.docs, k)
}

/// A memory document stands in the store as its last row says, field by field:
/// a revision that is left out is none, a date that is left out is now, and
/// only a row that says so makes it standing. What is searched is its body,
/// flattened.
#[verifier::rlimit(40)]
pub proof fn imported_memory_carries_what_its_rows_say(
    e: EngineV,
    p: JsonV,
    env: EnvV,
    v: Seq<JsonV>,
    i: int,
    id: Seq<char>,
)
    requires
        section_row(e, p, env, "docs"@, v, i),
        v[i].get("id"@) == Some(JsonV::Str(id)),
        last_with(v, i, "id"@),
        !env.log.ids.contains(id),
    ensures
        find::<Doc>(imported(e, p, env)->Ok_0.0.docs, id) matches Some(d) && says_the_row(
            d,
            v[i],
            env,
        ),
{
    sections_went(e, p, env);
    tasks_leave(e, p, env);
    let ps = section(opt_array_spec(p, "projects"@));
    let w1 = each(ps, ps.len(), begun(e), project_step(env))->Ok_0;
    let step = doc_step(env);
    each_prefix(v, i as nat, v.len(), w1, step);
    each_prefix(v, i as nat + 1, v.len(), w1, step);
    let t = each(v, i as nat, w1, step)->Ok_0;
    assert(step(t, v[i]) == doc_one(t, v[i], env));
    doc_lands(t, v[i], env);
    let r = doc_one(t, v[i], env)->Ok_0;
    let x = choose|x: Seq<char>| #[trigger] landed(t, r, v[i], env, x);
    assert(x == id);
    let d = find::<Doc>(r.e.docs, id)->0;
    let inv = |t: Work| find::<Doc>(t.e.docs, id) == Some(d);
    assert forall|t: Work, k: int|
        i + 1 <= k < v.len() && inv(t) && (#[trigger] step(t, v[k])) is Ok implies inv(
        step(t, v[k])->Ok_0,
    ) by {
        assert(step(t, v[k]) == doc_one(t, v[k], env));
        doc_lands(t, v[k], env);
        let r = doc_one(t, v[k], env)->Ok_0;
        let x = choose|x: Seq<char>| #[trigger] landed(t, r, v[k], env, x);
        assert(v[k].get("id"@) != v[i].get("id"@));
        assert(x != id);
    }
    each_from(v, i as nat + 1, v.len(), w1, step, inv);
    let w2 = each(v, v.len(), w1, step)->Ok_0;
    let es = section(opt_array_spec(p, "events"@));
    each_from(es, 0, es.len(), w2, event_step(env), inv);
}

proof fn log_leaves(
    w: Work,
    entity: Entity,
    entity_id: Seq<char>,
    op: Seq<char>,
    payload: JsonV,
    env: EnvV,
    id: Seq<char>,
)
    requires
        logged(w, entity, entity_id, op, payload, env) is Ok,
        !env.log.ids.contains(id),
    ensures
        find::<Event>(logged(w, entity, entity_id, op, payload, env)->Ok_0.e.events, id)
            == find::<Event>(w.e.events, id),
{
    let mine = env.log.ids[w.used as int];
    assert(env.log.ids.contains(mine));
    let row = event_row(mine, entity, entity_id, op, payload, env.log);
    put_leaves_the_rest::<Event>(w.e.events, row, id);
}

#[verifier::rlimit(40)]
proof fn project_logs(w: Work, pv: JsonV, env: EnvV, id: Seq<char>)
    requires
        project_one(w, pv, env) is Ok,
        !env.log.ids.contains(id),
    ensures
        find::<Event>(project_one(w, pv, env)->Ok_0.e.events, id) == find::<Event>(w.e.events, id),
{
    let name = req_str_lookup_spec(pv, "name"@)->Ok_0;
    let description = opt_str_nonempty_spec(pv, "description"@)->Ok_0;
    let gone = opt_bool_spec(pv, "archived"@)->Ok_0 == Some(true);
    let at = match opt_str_nonempty_spec(pv, "created"@)->Ok_0 {
        Some(s) => s,
        None => env.log.now,
    };
    let given = opt_str_nonempty_spec(pv, "id"@)->Ok_0;
    let x = project_written(w, name, description, gone, at, given, env)->Ok_0;
    log_leaves(x.0, Entity::Project, x.1, "import"@, project_mark(name, gone), env, id);
}

#[verifier::rlimit(60)]
proof fn doc_logs(w: Work, dv: JsonV, env: EnvV, id: Seq<char>)
    requires
        doc_one(w, dv, env) is Ok,
        !env.log.ids.contains(id),
    ensures
        find::<Event>(doc_one(w, dv, env)->Ok_0.e.events, id) == find::<Event>(w.e.events, id),
{
    let given = opt_str_nonempty_spec(dv, "id"@)->Ok_0;
    let r = doc_one(w, dv, env)->Ok_0;
    let used = if given is Some {
        w.used
    } else {
        w.used + 1
    };
    let doc = match given {
        Some(x) => x,
        None => minted(env.log, w.used)->Ok_0,
    };
    let mid = Work { e: EngineV { docs: r.e.docs, ..w.e }, used, ..w };
    let mark = doc_mark(
        req_str_spec(dv, "title"@)->Ok_0,
        opt_str_nonempty_spec(dv, "source"@)->Ok_0,
    );
    assert(logged(mid, Entity::Doc, doc, "memory.add"@, mark, env) == Ok::<Work, ErrorV>(r));
    log_leaves(mid, Entity::Doc, doc, "memory.add"@, mark, env, id);
}

/// Whether an event says what its row says.
pub open spec fn says_the_event(x: EventV, ev: JsonV, env: EnvV) -> bool {
    &&& ev.get("entity"@) == Some(JsonV::Str(x.entity))
    &&& entity_named(x.entity) is Some
    &&& ev.get("entity_id"@) == Some(JsonV::Str(x.entity_id))
    &&& ev.get("op"@) == Some(JsonV::Str(x.op))
    &&& took_or_now(ev, "ts"@, env, x.ts)
    &&& took_text(ev, "actor"@, x.actor)
    &&& x.payload == Some(
        json_text(
            if ev.get("payload"@) is Some {
                ev.get("payload"@)->0
            } else {
                JsonV::Null
            },
        ),
    )
}

#[verifier::rlimit(60)]
proof fn event_lands(w: Work, ev: JsonV, env: EnvV, id: Seq<char>)
    requires
        event_one(w, ev, env) is Ok,
        !env.log.ids.contains(id),
    ensures
        ({
            let r = event_one(w, ev, env)->Ok_0;
            &&& ev.get("id"@) != Some(JsonV::Str(id)) || find::<Event>(w.e.events, id) is Some
                ==> find::<Event>(r.e.events, id) == find::<Event>(w.e.events, id)
            &&& ev.get("id"@) == Some(JsonV::Str(id)) && find::<Event>(w.e.events, id) is None ==> (
            find::<Event>(r.e.events, id) matches Some(x) && says_the_event(x, ev, env))
        }),
{
    let given = opt_str_nonempty_spec(ev, "id"@)->Ok_0;
    let own = match given {
        Some(x) => x,
        None => minted(env.log, w.used)->Ok_0,
    };
    if given is None {
        assert(env.log.ids.contains(own));
    }
    let raw = req_str_spec(ev, "entity"@)->Ok_0;
    named_entity_has_that_word(raw);
    if find::<Event>(w.e.events, own) is None {
        let row = EventV {
            id: own,
            entity: entity_named(raw)->0.name(),
            entity_id: req_str_spec(ev, "entity_id"@)->Ok_0,
            op: req_str_spec(ev, "op"@)->Ok_0,
            payload: Some(
                json_text(
                    match ev.get("payload"@) {
                        Some(v) => v,
                        None => JsonV::Null,
                    },
                ),
            ),
            ts: match opt_str_nonempty_spec(ev, "ts"@)->Ok_0 {
                Some(s) => s,
                None => env.log.now,
            },
            actor: opt_str_nonempty_spec(ev, "actor"@)->Ok_0,
        };
        put_is_found::<Event>(w.e.events, row);
        if own != id {
            put_leaves_the_rest::<Event>(w.e.events, row, id);
        }
    }
}

proof fn named_entity_has_that_word(raw: Seq<char>)
    ensures
        entity_named(raw) matches Some(x) ==> x.name() == raw,
{
}

/// An event of the document that the store does not have comes in as its first
/// row says; where the row has no stamp it is stamped now, and its payload is
/// null where the row has none. One that the store has stays as it was.
#[verifier::rlimit(60)]
pub proof fn imported_events_say_what_their_rows_say(
    e: EngineV,
    p: JsonV,
    env: EnvV,
    v: Seq<JsonV>,
    i: int,
    id: Seq<char>,
)
    requires
        section_row(e, p, env, "events"@, v, i),
        v[i].get("id"@) == Some(JsonV::Str(id)),
        forall|k: int| 0 <= k < i ==> (#[trigger] v[k]).get("id"@) != v[i].get("id"@),
        !env.log.ids.contains(id),
    ensures
        ({
            let after = find::<Event>(imported(e, p, env)->Ok_0.0.events, id);
            match find::<Event>(e.events, id) {
                Some(was) => after == Some(was),
                None => after matches Some(x) && says_the_event(x, v[i], env),
            }
        }),
{
    sections_went(e, p, env);
    tasks_leave(e, p, env);
    let ps = section(opt_array_spec(p, "projects"@));
    let ds = section(opt_array_spec(p, "docs"@));
    let s1 = project_step(env);
    let s2 = doc_step(env);
    let s3 = event_step(env);
    let w1 = each(ps, ps.len(), begun(e), s1)->Ok_0;
    let w2 = each(ds, ds.len(), w1, s2)->Ok_0;
    let was = find::<Event>(e.events, id);
    let before = |t: Work| find::<Event>(t.e.events, id) == was;
    assert forall|t: Work, k: int|
        0 <= k < ps.len() && before(t) && (#[trigger] s1(t, ps[k])) is Ok implies before(
        s1(t, ps[k])->Ok_0,
    ) by {
        assert(s1(t, ps[k]) == project_one(t, ps[k], env));
        project_logs(t, ps[k], env, id);
    }
    assert(before(begun(e)));
    each_from(ps, 0, ps.len(), begun(e), s1, before);
    assert forall|t: Work, k: int|
        0 <= k < ds.len() && before(t) && (#[trigger] s2(t, ds[k])) is Ok implies before(
        s2(t, ds[k])->Ok_0,
    ) by {
        assert(s2(t, ds[k]) == doc_one(t, ds[k], env));
        doc_logs(t, ds[k], env, id);
    }
    each_from(ds, 0, ds.len(), w1, s2, before);
    let first = v.take(i);
    rows_before(v, i, w2, s3);
    each_prefix(v, i as nat, v.len(), w2, s3);
    each_prefix(v, i as nat + 1, v.len(), w2, s3);
    assert forall|t: Work, k: int|
        0 <= k < first.len() && before(t) && (#[trigger] s3(t, first[k])) is Ok implies before(
        s3(t, first[k])->Ok_0,
    ) by {
        assert(s3(t, first[k]) == event_one(t, v[k], env));
        assert(v[k].get("id"@) != v[i].get("id"@));
        event_lands(t, v[k], env, id);
    }
    each_from(first, 0, i as nat, w2, s3, before);
    let t = each(v, i as nat, w2, s3)->Ok_0;
    assert(s3(t, v[i]) == event_one(t, v[i], env));
    event_lands(t, v[i], env, id);
    let x = find::<Event>(event_one(t, v[i], env)->Ok_0.e.events, id);
    let after = |t: Work| find::<Event>(t.e.events, id) == x;
    assert forall|t: Work, k: int|
        i + 1 <= k < v.len() && after(t) && (#[trigger] s3(t, v[k])) is Ok implies after(
        s3(t, v[k])->Ok_0,
    ) by {
        assert(s3(t, v[k]) == event_one(t, v[k], env));
        event_lands(t, v[k], env, id);
    }
    each_from(v, i as nat + 1, v.len(), w2, s3, after);
    let w = sections_in(e, p, env)->Ok_0;
    sections_renumber_nothing(e, p, env);
    let declared = opt_array_spec(p, "projects"@)->Ok_0 is Some;
    tasks_keep_what_was(w, tasks_spec(p)->Ok_0, declared, env, w.e);
    reveal(crate::import_rules::finished);
}

proof fn sections_renumber_nothing(e: EngineV, p: JsonV, env: EnvV)
    requires
        imported(e, p, env) is Ok,
    ensures
        sections_in(e, p, env)->Ok_0.renumbered == Seq::<JsonV>::empty(),
        sections_in(e, p, env)->Ok_0.created == Seq::<Seq<char>>::empty(),
{
    sections_went(e, p, env);
    let ps = section(opt_array_spec(p, "projects"@));
    let ds = section(opt_array_spec(p, "docs"@));
    let es = section(opt_array_spec(p, "events"@));
    let inv = |t: Work|
        t.renumbered == Seq::<JsonV>::empty() && t.created == Seq::<Seq<char>>::empty();
    let w1 = each(ps, ps.len(), begun(e), project_step(env))->Ok_0;
    let w2 = each(ds, ds.len(), w1, doc_step(env))->Ok_0;
    each_from(ps, 0, ps.len(), begun(e), project_step(env), inv);
    each_from(ds, 0, ds.len(), w1, doc_step(env), inv);
    each_from(es, 0, es.len(), w2, event_step(env), inv);
}

proof fn rows_before<S>(
    v: Seq<JsonV>,
    n: int,
    s: S,
    step: spec_fn(S, JsonV) -> Result<S, ErrorV>,
)
    requires
        0 <= n <= v.len(),
    ensures
        each(v.take(n), n as nat, s, step) == each(v, n as nat, s, step),
{
    rows_before_upto(v, n, n as nat, s, step);
}

proof fn rows_before_upto<S>(
    v: Seq<JsonV>,
    n: int,
    m: nat,
    s: S,
    step: spec_fn(S, JsonV) -> Result<S, ErrorV>,
)
    requires
        0 <= m <= n <= v.len(),
    ensures
        each(v.take(n), m, s, step) == each(v, m, s, step),
    decreases m,
{
    if m > 0 {
        rows_before_upto(v, n, (m - 1) as nat, s, step);
    }
}

/// A store that has a default project keeps it; one that has none takes the
/// document's. The document's default must be a project that stands in the
/// store once the document is in, and one that is not archived.
#[verifier::rlimit(40)]
pub proof fn the_standing_default_wins(e: EngineV, p: JsonV, env: EnvV)
    requires
        imported(e, p, env) is Ok,
    ensures
        ({
            let r = imported(e, p, env)->Ok_0.0;
            &&& match (e.default_project, p.get("default_project"@)) {
                (Some(d), _) => r.default_project == Some(d),
                (None, Some(JsonV::Str(name))) => r.default_project == Some(name),
                (None, _) => r.default_project is None,
            }
            &&& p.get("default_project"@) matches Some(JsonV::Str(name)) ==> (find::<Project>(
                r.projects,
                name,
            ) matches Some(x) && !x.archived)
        }),
{
    sections_went(e, p, env);
    let ps = section(opt_array_spec(p, "projects"@));
    let ds = section(opt_array_spec(p, "docs"@));
    let es = section(opt_array_spec(p, "events"@));
    let inv = |t: Work| t.e.default_project == e.default_project;
    let w1 = each(ps, ps.len(), begun(e), project_step(env))->Ok_0;
    let w2 = each(ds, ds.len(), w1, doc_step(env))->Ok_0;
    each_from(ps, 0, ps.len(), begun(e), project_step(env), inv);
    each_from(ds, 0, ds.len(), w1, doc_step(env), inv);
    each_from(es, 0, es.len(), w2, event_step(env), inv);
    let w = sections_in(e, p, env)->Ok_0;
    let rows = tasks_spec(p)->Ok_0;
    let declared = opt_array_spec(p, "projects"@)->Ok_0 is Some;
    let s = raised(w, rows);
    let step = task_step(declared, env);
    assert(each(rows, rows.len(), s, step) is Ok) by {
        reveal(crate::import_rules::tasks_in);
    }
    assert forall|t: Work, k: int|
        0 <= k < rows.len() && inv(t) && (#[trigger] step(t, rows[k])) is Ok implies inv(
        step(t, rows[k])->Ok_0,
    ) by {
        assert(step(t, rows[k]) == task_one(t, rows[k], declared, env));
        row_effect(t, rows[k], declared, env);
    }
    each_from(rows, 0, rows.len(), s, step, inv);
    reveal(crate::import_rules::tasks_in);
    reveal(crate::import_rules::finished);
}

/// Whether a name is listed as a text.
pub open spec fn lists(v: Seq<JsonV>, name: Seq<char>) -> bool {
    exists|k: int| 0 <= k < v.len() && #[trigger] v[k] == JsonV::Str(name)
}

/// What the tasks of a document do to the projects: they make those that are
/// missing, and say so.
spec fn made(w: Work, t: Work) -> bool {
    &&& forall|k: int|
        0 <= k < t.created.len() ==> find::<Project>(w.e.projects, #[trigger] t.created[k]) is None
            && find::<Project>(t.e.projects, t.created[k]) is Some
    &&& forall|x: Seq<char>|
        (#[trigger] find::<Project>(t.e.projects, x)) is Some && find::<Project>(
            w.e.projects,
            x,
        ) is None ==> t.created.contains(x)
}

#[verifier::rlimit(60)]
proof fn task_makes(w: Work, t: Work, tv: JsonV, declared: bool, env: EnvV)
    requires
        task_one(t, tv, declared, env) is Ok,
        made(w, t),
        projects_stay(w.e.projects, t.e.projects),
    ensures
        made(w, task_one(t, tv, declared, env)->Ok_0),
        declared ==> task_one(t, tv, declared, env)->Ok_0.created == t.created,
{
    let id = task_id_spec(tv)->Ok_0;
    let head = head_spec(tv, id)->Ok_0;
    let begun = Work { written: t.written.push(id), ..t };
    let settled = project_settled(begun, id, head.project, declared, env)->Ok_0;
    let r = task_one(t, tv, declared, env)->Ok_0;
    assert(r.created == settled.created && r.e.projects == settled.e.projects);
    if let Some(name) = head.project {
        if find::<Project>(t.e.projects, name) is None {
            let p = project_written(begun, name, None, false, env.log.now, None, env)->Ok_0;
            let row = ProjectV {
                id: p.1,
                name,
                description: None,
                archived: false,
                created: env.log.now,
            };
            assert(r.e.projects == put::<Project>(t.e.projects, row));
            assert(r.created == t.created.push(name));
            put_is_found::<Project>(t.e.projects, row);
            assert(find::<Project>(w.e.projects, name) is None) by {
                if find::<Project>(w.e.projects, name) is Some {
                    assert(find::<Project>(t.e.projects, name) == find::<Project>(
                        w.e.projects,
                        name,
                    ));
                }
            }
            assert forall|k: int| 0 <= k < r.created.len() implies find::<Project>(
                w.e.projects,
                #[trigger] r.created[k],
            ) is None && find::<Project>(r.e.projects, r.created[k]) is Some by {
                if k < t.created.len() {
                    assert(r.created[k] == t.created[k]);
                    put_leaves_the_rest::<Project>(t.e.projects, row, t.created[k]);
                }
            }
            assert forall|x: Seq<char>|
                (#[trigger] find::<Project>(r.e.projects, x)) is Some && find::<Project>(
                    w.e.projects,
                    x,
                ) is None implies r.created.contains(x) by {
                if x == name {
                    assert(r.created[t.created.len() as int] == x);
                } else {
                    put_leaves_the_rest::<Project>(t.e.projects, row, x);
                    assert(t.created.contains(x));
                    let k = choose|k: int| 0 <= k < t.created.len() && t.created[k] == x;
                    assert(r.created[k] == x);
                }
            }
        }
    }
}

/// What an import reports: as many tasks, projects and memory documents as the
/// document has rows of each, whether it has a section of memory documents, and
/// the default project of the store from then on. The projects it reports as
/// made are exactly those that are new and that no row declares; a document
/// that declares its projects makes no others.
#[verifier::rlimit(60)]
pub proof fn imports_report_what_they_did(e: EngineV, p: JsonV, env: EnvV)
    requires
        imported(e, p, env) is Ok,
    ensures
        ({
            let r = imported(e, p, env)->Ok_0.0;
            let said = imported(e, p, env)->Ok_0.1;
            let declared = p.get("projects"@) matches Some(JsonV::Arr(_));
            &&& (p.get("tasks"@) matches Some(JsonV::Arr(v)) && said.get("imported"@) == Some(
                JsonV::Int(v.len() as int),
            ))
            &&& said.get("projects_imported"@) == Some(
                JsonV::Int(
                    match p.get("projects"@) {
                        Some(JsonV::Arr(v)) => v.len() as int,
                        _ => 0,
                    },
                ),
            )
            &&& said.get("docs_imported"@) == Some(
                JsonV::Int(
                    match p.get("docs"@) {
                        Some(JsonV::Arr(v)) => v.len() as int,
                        _ => 0,
                    },
                ),
            )
            &&& said.get("docs_declared"@) == Some(
                JsonV::Bool(p.get("docs"@) matches Some(JsonV::Arr(_))),
            )
            &&& said.get("default_project"@) == Some(
                match r.default_project {
                    Some(d) => JsonV::Str(d),
                    None => JsonV::Null,
                },
            )
            &&& said.get("projects_created"@) matches Some(JsonV::Arr(names)) && {
                &&& declared ==> names.len() == 0
                &&& !declared ==> forall|x: Seq<char>| #[trigger]
                    lists(names, x) <==> find::<Project>(r.projects, x) is Some && find::<Project>(
                        e.projects,
                        x,
                    ) is None
            }
        }),
{
    sections_went(e, p, env);
    let w = sections_in(e, p, env)->Ok_0;
    let rows = tasks_spec(p)->Ok_0;
    let declared = opt_array_spec(p, "projects"@)->Ok_0 is Some;
    let t = tasks_in(w, rows, declared, env)->Ok_0;
    created_are_new(e, p, env);
    let docs = opt_array_spec(p, "docs"@);
    let done = imported(e, p, env)->Ok_0.0;
    report_reads(
        rows.len(),
        section(opt_array_spec(p, "projects"@)).len(),
        section(docs).len(),
        docs->Ok_0 is Some,
        t,
        done.default_project,
    );
}

proof fn report_reads(
    tasks: nat,
    projects: nat,
    docs: nat,
    docs_declared: bool,
    w: Work,
    default_project: Option<Seq<char>>,
)
    ensures
        ({
            let said = report(tasks, projects, docs, docs_declared, w, default_project);
            &&& said.get("imported"@) == Some(JsonV::Int(tasks as int))
            &&& said.get("projects_imported"@) == Some(JsonV::Int(projects as int))
            &&& said.get("projects_created"@) == Some(JsonV::Arr(str_values(w.created)))
            &&& said.get("docs_imported"@) == Some(JsonV::Int(docs as int))
            &&& said.get("docs_declared"@) == Some(JsonV::Bool(docs_declared))
            &&& said.get("default_project"@) == Some(
                match default_project {
                    Some(d) => JsonV::Str(d),
                    None => JsonV::Null,
                },
            )
        }),
{
    broadcast use crate::value::lookup_push;

    let said = report(tasks, projects, docs, docs_declared, w, default_project);
    let m = said->Obj_0;
    assert(m =~= Seq::<(Seq<char>, JsonV)>::empty().push(m[0]).push(m[1]).push(m[2]).push(
        m[3],
    ).push(m[4]).push(m[5]).push(m[6]).push(m[7]));
    report_words_differ();
}

#[verifier::rlimit(60)]
proof fn created_are_new(e: EngineV, p: JsonV, env: EnvV)
    requires
        imported(e, p, env) is Ok,
    ensures
        ({
            let w = sections_in(e, p, env)->Ok_0;
            let declared = opt_array_spec(p, "projects"@)->Ok_0 is Some;
            let t = tasks_in(w, tasks_spec(p)->Ok_0, declared, env)->Ok_0;
            let names = str_values(t.created);
            let r = imported(e, p, env)->Ok_0.0;
            &&& declared ==> names.len() == 0
            &&& !declared ==> forall|x: Seq<char>| #[trigger]
                lists(names, x) <==> find::<Project>(r.projects, x) is Some && find::<Project>(
                    e.projects,
                    x,
                ) is None
        }),
{
    sections_went(e, p, env);
    sections_renumber_nothing(e, p, env);
    let w = sections_in(e, p, env)->Ok_0;
    let rows = tasks_spec(p)->Ok_0;
    let declared = opt_array_spec(p, "projects"@)->Ok_0 is Some;
    let t = tasks_in(w, rows, declared, env)->Ok_0;
    tasks_make(w, rows, declared, env);
    let r = imported(e, p, env)->Ok_0.0;
    assert(r.projects == t.e.projects) by {
        reveal(crate::import_rules::finished);
    }
    if !declared {
        sections_leave_projects(e, p, env);
        let names = str_values(t.created);
        assert forall|x: Seq<char>| #[trigger]
            lists(names, x) <==> find::<Project>(r.projects, x) is Some && find::<Project>(
                e.projects,
                x,
            ) is None by {
            if lists(names, x) {
                let k = choose|k: int| 0 <= k < names.len() && #[trigger] names[k] == JsonV::Str(x);
                assert(t.created[k] == x);
            }
            if find::<Project>(r.projects, x) is Some && find::<Project>(e.projects, x) is None {
                assert(t.created.contains(x));
                let k = choose|k: int| 0 <= k < t.created.len() && t.created[k] == x;
                assert(names[k] == JsonV::Str(x));
            }
        }
    }
}

proof fn sections_leave_projects(e: EngineV, p: JsonV, env: EnvV)
    requires
        imported(e, p, env) is Ok,
        opt_array_spec(p, "projects"@)->Ok_0 is None,
    ensures
        sections_in(e, p, env)->Ok_0.e.projects == e.projects,
{
    sections_went(e, p, env);
    let ps = section(opt_array_spec(p, "projects"@));
    let ds = section(opt_array_spec(p, "docs"@));
    let es = section(opt_array_spec(p, "events"@));
    let same = |t: Work| t.e.projects == e.projects;
    assert(ps.len() == 0);
    let w1 = each(ps, ps.len(), begun(e), project_step(env))->Ok_0;
    let w2 = each(ds, ds.len(), w1, doc_step(env))->Ok_0;
    each_from(ds, 0, ds.len(), w1, doc_step(env), same);
    each_from(es, 0, es.len(), w2, event_step(env), same);
}

proof fn tasks_make(w: Work, rows: Seq<JsonV>, declared: bool, env: EnvV)
    requires
        tasks_in(w, rows, declared, env) is Ok,
        w.created == Seq::<Seq<char>>::empty(),
    ensures
        made(w, tasks_in(w, rows, declared, env)->Ok_0),
        declared ==> tasks_in(w, rows, declared, env)->Ok_0.created == Seq::<Seq<char>>::empty(),
{
    let s = raised(w, rows);
    let step = task_step(declared, env);
    reveal(crate::import_rules::tasks_in);
    let inv = |t: Work|
        made(w, t) && projects_stay(w.e.projects, t.e.projects) && (declared ==> t.created
            == Seq::<Seq<char>>::empty());
    assert forall|t: Work, k: int|
        0 <= k < rows.len() && inv(t) && (#[trigger] step(t, rows[k])) is Ok implies inv(
        step(t, rows[k])->Ok_0,
    ) by {
        assert(step(t, rows[k]) == task_one(t, rows[k], declared, env));
        row_effect(t, rows[k], declared, env);
        task_makes(w, t, rows[k], declared, env);
        let r = step(t, rows[k])->Ok_0;
        assert forall|x: Seq<char>|
            find::<Project>(w.e.projects, x) is Some implies #[trigger] find::<Project>(
            r.e.projects,
            x,
        ) == find::<Project>(w.e.projects, x) by {
            assert(find::<Project>(t.e.projects, x) == find::<Project>(w.e.projects, x));
        }
    }
    assert(inv(s));
    each_from(rows, 0, rows.len(), s, step, inv);
}

proof fn report_words_differ()
    ensures
        "imported"@ != "projects_imported"@,
        "imported"@ != "projects_created"@,
        "imported"@ != "docs_imported"@,
        "imported"@ != "docs_declared"@,
        "imported"@ != "events_imported"@,
        "imported"@ != "default_project"@,
        "imported"@ != "renumbered"@,
        "projects_imported"@ != "projects_created"@,
        "projects_imported"@ != "docs_imported"@,
        "projects_imported"@ != "docs_declared"@,
        "projects_imported"@ != "events_imported"@,
        "projects_imported"@ != "default_project"@,
        "projects_imported"@ != "renumbered"@,
        "projects_created"@ != "docs_imported"@,
        "projects_created"@ != "docs_declared"@,
        "projects_created"@ != "events_imported"@,
        "projects_created"@ != "default_project"@,
        "projects_created"@ != "renumbered"@,
        "docs_imported"@ != "docs_declared"@,
        "docs_imported"@ != "events_imported"@,
        "docs_imported"@ != "default_project"@,
        "docs_imported"@ != "renumbered"@,
        "docs_declared"@ != "events_imported"@,
        "docs_declared"@ != "default_project"@,
        "docs_declared"@ != "renumbered"@,
        "events_imported"@ != "default_project"@,
        "events_imported"@ != "renumbered"@,
        "default_project"@ != "renumbered"@,
{
    reveal_strlit("imported");
    reveal_strlit("projects_imported");
    reveal_strlit("projects_created");
    reveal_strlit("docs_imported");
    reveal_strlit("docs_declared");
    reveal_strlit("events_imported");
    reveal_strlit("default_project");
    reveal_strlit("renumbered");
    assert("imported"@.len() == 8 && "projects_imported"@.len() == 17);
    assert("projects_created"@.len() == 16 && "docs_imported"@.len() == 13);
    assert("docs_declared"@.len() == 13 && "events_imported"@.len() == 15);
    assert("default_project"@.len() == 15 && "renumbered"@.len() == 10);
    assert("docs_imported"@[5] == 'i' && "docs_declared"@[5] == 'd');
    assert("events_imported"@[0] == 'e' && "default_project"@[0] == 'd');
}

} // verus!
