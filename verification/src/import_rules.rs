//! What a document does to the store it is imported into.
//!
//! [`imported`] says it, row by row, or says why the document is refused. A
//! refusal at any row refuses the whole document.

use crate::children::without;
use crate::engine::EngineV;
use crate::engine::number_taken;
use crate::engine::task_by_id;
use crate::engine::task_put;
use crate::error::bad_request;
use crate::error::conflict;
use crate::error::ErrorV;
use crate::error::internal;
use crate::frontmatter::flat;
use crate::graph::waits_for;
use crate::import_children::annotations_done;
use crate::import_children::checks_done;
use crate::import_children::each;
use crate::import_children::measurements_done;
use crate::import_read::body_spec;
use crate::import_read::BodyV;
use crate::import_read::EnvV;
use crate::import_read::explained;
use crate::import_read::head_spec;
use crate::import_read::HeadV;
use crate::import_read::in_field;
use crate::import_read::no_object;
use crate::import_read::opt_when_spec;
use crate::import_read::shape_spec;
use crate::import_read::task_err;
use crate::import_read::task_tags_spec;
use crate::journal::journaled;
use crate::journal::minted;
use crate::json::JsonV;
use crate::json_text::json_text;
use crate::json_text::says_members;
use crate::params::opt_array_spec;
use crate::params::opt_bool_spec;
use crate::params::opt_i64_spec;
use crate::params::opt_str_array_spec;
use crate::params::opt_str_nonempty_spec;
use crate::params::opt_str_spec;
use crate::params::req_i64_spec;
use crate::params::req_str_lookup_spec;
use crate::params::req_str_spec;
use crate::rows::Dependency;
use crate::rows::DependencyV;
use crate::rows::Doc;
use crate::rows::DocV;
use crate::rows::Event;
use crate::rows::EventV;
use crate::rows::Project;
use crate::rows::ProjectV;
use crate::rows::Task;
use crate::rows::TaskV;
use crate::tables::find;
use crate::tables::put;
use crate::text::debug_form;
use crate::text::decimal;
use crate::types::entities_accepted;
use crate::types::Entity;
use crate::types::entity_named;
use crate::types::Status;
use crate::value::opt_text;
use crate::value::str_values;
use vstd::prelude::*;

verus! {

broadcast use {
    vstd::string::group_string_axioms,
    crate::value::group_json,
    crate::rows::rows_push,
    crate::text::texts_push,
};

/// An import under way.
pub ghost struct Work {
    /// The store as it is so far.
    pub e: EngineV,
    /// How many fresh ids were taken.
    pub used: nat,
    /// The projects that no row of the document declared.
    pub created: Seq<Seq<char>>,
    /// The tasks that took another number.
    pub renumbered: Seq<JsonV>,
    /// The tasks written so far.
    pub written: Seq<Seq<char>>,
    /// The tasks each of them depends on.
    pub edges: Seq<(Seq<char>, Seq<Seq<char>>)>,
    /// How many events were new.
    pub replayed: nat,
}

/// The fields of a project in a document.
pub open spec fn project_keys() -> Seq<Seq<char>> {
    seq!["id"@, "name"@, "description"@, "archived"@, "created"@]
}

/// The fields of a memory document in a document.
pub open spec fn doc_keys() -> Seq<Seq<char>> {
    seq![
        "id"@,
        "source"@,
        "title"@,
        "body"@,
        "created"@,
        "modified"@,
        "project"@,
        "_rev"@,
        "standing"@,
    ]
}

/// The fields of an event in a document.
pub open spec fn event_keys() -> Seq<Seq<char>> {
    seq!["id"@, "entity"@, "entity_id"@, "op"@, "payload"@, "ts"@, "actor"@]
}

/// The fields of a task in a document.
pub open spec fn task_keys() -> Seq<Seq<char>> {
    seq![
        "id"@,
        "short_id"@,
        "title"@,
        "status"@,
        "priority"@,
        "project"@,
        "tags"@,
        "due"@,
        "scheduled"@,
        "wait"@,
        "estimate"@,
        "recurrence"@,
        "remind"@,
        "budget_tokens"@,
        "depends_on"@,
        "checks"@,
        "annotations"@,
        "urgency"@,
        "created"@,
        "modified"@,
        "completed"@,
        "_rev"@,
        "tracked_seconds"@,
        "tracked_adjustment_seconds"@,
        "active_since"@,
        "tokens"@,
        "delivered_annotation_id"@,
        "spawned_from"@,
        "status_unrecognized"@,
    ]
}

/// The store and the ids taken once an event is logged, or why it cannot be.
pub open spec fn logged(
    w: Work,
    entity: Entity,
    entity_id: Seq<char>,
    op: Seq<char>,
    payload: JsonV,
    env: EnvV,
) -> Result<Work, ErrorV> {
    match journaled(w.e.events, w.used, entity, entity_id, op, payload, env.log) {
        Err(x) => Err(x),
        Ok(events) => Ok(Work { e: EngineV { events, ..w.e }, used: w.used + 1, ..w }),
    }
}

/// The import and the project's id once a project is written: a name that is
/// there keeps its id.
pub open spec fn project_written(
    w: Work,
    name: Seq<char>,
    description: Option<Seq<char>>,
    archived: bool,
    created: Seq<char>,
    given: Option<Seq<char>>,
    env: EnvV,
) -> Result<(Work, Seq<char>), ErrorV> {
    let stored = find::<Project>(w.e.projects, name);
    let id = match (stored, given) {
        (Some(p), _) => Ok(p.id),
        (None, Some(x)) => Ok(x),
        (None, None) => minted(env.log, w.used),
    };
    match id {
        Err(x) => Err(x),
        Ok(id) => {
            let row = ProjectV { id, name, description, archived, created };
            let used = if stored is None && given is None {
                w.used + 1
            } else {
                w.used
            };
            Ok(
                (
                    Work {
                        e: EngineV { projects: put::<Project>(w.e.projects, row), ..w.e },
                        used,
                        ..w
                    },
                    id,
                ),
            )
        },
    }
}

/// A refusal of a field of a project.
pub open spec fn project_err<T>(r: Result<T, ErrorV>, name: Seq<char>, field: Seq<char>) -> ErrorV {
    in_field("project"@, name, field, r->Err_0)
}

/// What an import says of itself in the log about a project.
pub open spec fn project_mark(name: Seq<char>, archived: bool) -> JsonV {
    JsonV::Obj(seq![("name"@, JsonV::Str(name)), ("archived"@, JsonV::Bool(archived))])
}

/// One project imported, or why it is refused.
pub open spec fn project_one(w: Work, pv: JsonV, env: EnvV) -> Result<Work, ErrorV> {
    let name = req_str_lookup_spec(pv, "name"@);
    let shape = shape_spec("project "@ + name->Ok_0 + ", "@, "project"@, pv, project_keys());
    let description = opt_str_nonempty_spec(pv, "description"@);
    let archived = opt_bool_spec(pv, "archived"@);
    let created = opt_str_nonempty_spec(pv, "created"@);
    let given = opt_str_nonempty_spec(pv, "id"@);
    if !(pv is Obj) {
        Err(no_object(""@, "project"@))
    } else if name is Err {
        Err(explained(name->Err_0, " — each imported project requires a string `name`"@))
    } else if shape is Err {
        Err(shape->Err_0)
    } else if description is Err {
        Err(project_err(description, name->Ok_0, "description"@))
    } else if archived is Err {
        Err(project_err(archived, name->Ok_0, "archived"@))
    } else if created is Err {
        Err(project_err(created, name->Ok_0, "created"@))
    } else if given is Err {
        Err(project_err(given, name->Ok_0, "id"@))
    } else {
        let gone = archived->Ok_0 == Some(true);
        let at = match created->Ok_0 {
            Some(s) => s,
            None => env.log.now,
        };
        match project_written(
            w,
            name->Ok_0,
            description->Ok_0,
            gone,
            at,
            given->Ok_0,
            env,
        ) {
            Err(x) => Err(x),
            Ok(p) => logged(
                p.0,
                Entity::Project,
                p.1,
                "import"@,
                project_mark(name->Ok_0, gone),
                env,
            ),
        }
    }
}

/// The step of [`project_one`].
pub open spec fn project_step(env: EnvV) -> spec_fn(Work, JsonV) -> Result<Work, ErrorV> {
    |w: Work, v: JsonV| project_one(w, v, env)
}

/// A refusal of a field of a memory document.
pub open spec fn doc_err<T>(r: Result<T, ErrorV>, id: Seq<char>, field: Seq<char>) -> ErrorV {
    in_field("doc"@, id, field, r->Err_0)
}

/// The refusal of a memory document that is older than the one stored.
pub open spec fn stale_doc(id: Seq<char>, rev: i64, stored: i64) -> ErrorV {
    conflict(
        "store.import: doc "@ + id + " carries _rev "@ + decimal(rev as int)
            + ", but the store already holds it at _rev "@ + decimal(stored as int)
            + " — this payload is older than what is already here, and importing it would roll its title and body back to a stale copy (run `tasqx export` first for a merge target, or drop this doc from the payload)"@,
    )
}

/// The first of the documents from `i` on, other than `id`, with this source.
pub open spec fn source_holder(d: Seq<DocV>, source: Seq<char>, id: Seq<char>, i: int) -> Option<
    Seq<char>,
>
    decreases d.len() - i,
{
    if i < 0 || i >= d.len() {
        None
    } else if d[i].source == Some(source) && d[i].id != id {
        Some(d[i].id)
    } else {
        source_holder(d, source, id, i + 1)
    }
}

/// Whether a source is free for the document `id`, or why it is refused.
pub open spec fn source_free(d: Seq<DocV>, source: Option<Seq<char>>, id: Seq<char>) -> Result<
    (),
    ErrorV,
> {
    match source {
        None => Ok(()),
        Some(s) => match source_holder(d, s, id, 0) {
            None => Ok(()),
            Some(other) => Err(
                conflict(
                    "source "@ + debug_form(s) + " already belongs to doc "@ + other,
                ),
            ),
        },
    }
}

/// What an import says of itself in the log about a memory document.
pub open spec fn doc_mark(title: Seq<char>, source: Option<Seq<char>>) -> JsonV {
    JsonV::Obj(
        seq![
            ("title"@, JsonV::Str(title)),
            ("source"@, opt_text(source)),
            ("via"@, JsonV::Str("store.import"@)),
        ],
    )
}

/// Whether the mark an import leaves of a memory document is read back.
pub open spec fn mark_read_back(title: Seq<char>, source: Option<Seq<char>>) -> bool {
    says_members(json_text(doc_mark(title, source)), doc_mark(title, source))
}

/// Whether the mark an import leaves of a row of memory documents is read back.
pub open spec fn row_mark_read_back(dv: JsonV) -> bool {
    mark_read_back(
        req_str_spec(dv, "title"@)->Ok_0,
        opt_str_nonempty_spec(dv, "source"@)->Ok_0,
    )
}

/// Whether the marks an import leaves of memory documents are read back.
pub open spec fn rows_marks_read_back(v: Seq<JsonV>) -> bool {
    forall|i: int| 0 <= i < v.len() ==> row_mark_read_back(#[trigger] v[i])
}

/// One memory document imported, or why it is refused.
pub open spec fn doc_one(w: Work, dv: JsonV, env: EnvV) -> Result<Work, ErrorV> {
    let shape = shape_spec(""@, "doc"@, dv, doc_keys());
    let given = opt_str_nonempty_spec(dv, "id"@);
    let id = match given {
        Ok(Some(x)) => Ok(x),
        _ => minted(env.log, w.used),
    };
    let title = req_str_spec(dv, "title"@);
    let body = req_str_spec(dv, "body"@);
    let source = opt_str_nonempty_spec(dv, "source"@);
    let created = opt_when_spec(dv, "created"@, env.dates);
    let modified = opt_when_spec(dv, "modified"@, env.dates);
    let project = opt_str_nonempty_spec(dv, "project"@);
    let rev = opt_i64_spec(dv, "_rev"@);
    let standing = opt_bool_spec(dv, "standing"@);
    if shape is Err {
        Err(shape->Err_0)
    } else if given is Err {
        Err(given->Err_0)
    } else if id is Err {
        Err(id->Err_0)
    } else if title is Err {
        Err(explained(title->Err_0, " — each imported doc requires a `title`"@))
    } else if body is Err {
        Err(explained(body->Err_0, " — each imported doc requires a `body`"@))
    } else if source is Err {
        Err(source->Err_0)
    } else if created is Err {
        Err(doc_err(created, id->Ok_0, "created"@))
    } else if modified is Err {
        Err(doc_err(modified, id->Ok_0, "modified"@))
    } else if project is Err {
        Err(project->Err_0)
    } else if rev is Err {
        Err(rev->Err_0)
    } else if standing is Err {
        Err(standing->Err_0)
    } else {
        let at = match rev->Ok_0 {
            Some(n) => n,
            None => 0,
        };
        let stored = find::<Doc>(w.e.docs, id->Ok_0);
        let free = source_free(w.e.docs, source->Ok_0, id->Ok_0);
        if stored is Some && stored->0.rev > at {
            Err(stale_doc(id->Ok_0, at, stored->0.rev))
        } else if free is Err {
            Err(free->Err_0)
        } else {
            let row = DocV {
                id: id->Ok_0,
                source: source->Ok_0,
                title: title->Ok_0,
                body: body->Ok_0,
                search_body: flat(body->Ok_0),
                project: project->Ok_0,
                rev: at,
                standing: standing->Ok_0 == Some(true),
                created: match created->Ok_0 {
                    Some(s) => s,
                    None => env.log.now,
                },
                modified: match modified->Ok_0 {
                    Some(s) => s,
                    None => env.log.now,
                },
            };
            let used = if given->Ok_0 is Some {
                w.used
            } else {
                w.used + 1
            };
            logged(
                Work { e: EngineV { docs: put::<Doc>(w.e.docs, row), ..w.e }, used, ..w },
                Entity::Doc,
                id->Ok_0,
                "memory.add"@,
                doc_mark(title->Ok_0, source->Ok_0),
                env,
            )
        }
    }
}

/// The step of [`doc_one`].
pub open spec fn doc_step(env: EnvV) -> spec_fn(Work, JsonV) -> Result<Work, ErrorV> {
    |w: Work, v: JsonV| doc_one(w, v, env)
}

/// The refusal of an event about a kind of thing that does not exist.
pub open spec fn bad_entity(id: Seq<char>, raw: Seq<char>) -> ErrorV {
    bad_request(
        "store.import: event "@ + id + " has entity "@ + debug_form(raw) + " — expected one of "@
            + entities_accepted(),
    )
}

/// One event replayed, or why it is refused. An event that is there already
/// is left as it is.
pub open spec fn event_one(w: Work, ev: JsonV, env: EnvV) -> Result<Work, ErrorV> {
    let shape = shape_spec(""@, "event"@, ev, event_keys());
    let given = opt_str_nonempty_spec(ev, "id"@);
    let id = match given {
        Ok(Some(x)) => Ok(x),
        _ => minted(env.log, w.used),
    };
    let entity = req_str_spec(ev, "entity"@);
    let entity_id = req_str_spec(ev, "entity_id"@);
    let op = req_str_spec(ev, "op"@);
    let ts = opt_str_nonempty_spec(ev, "ts"@);
    let actor = opt_str_nonempty_spec(ev, "actor"@);
    if shape is Err {
        Err(shape->Err_0)
    } else if given is Err {
        Err(given->Err_0)
    } else if id is Err {
        Err(id->Err_0)
    } else if entity is Err {
        Err(explained(entity->Err_0, " — each imported event requires an `entity`"@))
    } else if entity_named(entity->Ok_0) is None {
        Err(bad_entity(id->Ok_0, entity->Ok_0))
    } else if entity_id is Err {
        Err(explained(entity_id->Err_0, " — each imported event requires an `entity_id`"@))
    } else if op is Err {
        Err(explained(op->Err_0, " — each imported event requires an `op`"@))
    } else if ts is Err {
        Err(ts->Err_0)
    } else if actor is Err {
        Err(actor->Err_0)
    } else {
        let used = if given->Ok_0 is Some {
            w.used
        } else {
            w.used + 1
        };
        if find::<Event>(w.e.events, id->Ok_0) is Some {
            Ok(Work { used, ..w })
        } else {
            let payload = match ev.get("payload"@) {
                Some(v) => v,
                None => JsonV::Null,
            };
            let row = EventV {
                id: id->Ok_0,
                entity: entity_named(entity->Ok_0)->0.name(),
                entity_id: entity_id->Ok_0,
                op: op->Ok_0,
                payload: Some(json_text(payload)),
                ts: match ts->Ok_0 {
                    Some(s) => s,
                    None => env.log.now,
                },
                actor: actor->Ok_0,
            };
            Ok(
                Work {
                    e: EngineV { events: put::<Event>(w.e.events, row), ..w.e },
                    used,
                    replayed: w.replayed + 1,
                    ..w
                },
            )
        }
    }
}

/// The step of [`event_one`].
pub open spec fn event_step(env: EnvV) -> spec_fn(Work, JsonV) -> Result<Work, ErrorV> {
    |w: Work, v: JsonV| event_one(w, v, env)
}

/// The number a row claims and the task it claims it for, where both can be read.
pub open spec fn claim_of(tv: JsonV) -> Option<(i64, Seq<char>)> {
    match (opt_i64_spec(tv, "short_id"@), opt_str_spec(tv, "id"@)) {
        (Ok(Some(n)), Ok(Some(id))) => Some((n, id)),
        _ => None,
    }
}

/// The task that the first of the first `n` rows to claim a number claims it for.
pub open spec fn first_claim(v: Seq<JsonV>, n: nat, number: i64) -> Option<Seq<char>>
    decreases n,
{
    if n == 0 || n > v.len() {
        None
    } else {
        match first_claim(v, (n - 1) as nat, number) {
            Some(id) => Some(id),
            None => match claim_of(v[n - 1]) {
                Some(c) => if c.0 == number {
                    Some(c.1)
                } else {
                    None
                },
                None => None,
            },
        }
    }
}

/// The refusal of a document that gives one number to two tasks.
pub open spec fn claimed_twice(id: Seq<char>, number: i64, other: Seq<char>) -> ErrorV {
    conflict(
        "store.import: task "@ + id + " carries short_id "@ + decimal(number as int)
            + ", which task "@ + other
            + " in the same payload already claims — one short_id addresses exactly one task, so this document cannot be restored anywhere"@,
    )
}

/// Whether the first `n` rows give no number to two tasks, or the refusal.
pub open spec fn claims_spec(v: Seq<JsonV>, n: nat) -> Result<(), ErrorV>
    decreases n,
{
    if n == 0 || n > v.len() {
        Ok(())
    } else {
        match claims_spec(v, (n - 1) as nat) {
            Err(x) => Err(x),
            Ok(_) => match claim_of(v[n - 1]) {
                None => Ok(()),
                Some(c) => match first_claim(v, (n - 1) as nat, c.0) {
                    None => Ok(()),
                    Some(other) => if other == c.1 {
                        Ok(())
                    } else {
                        Err(claimed_twice(c.1, c.0, other))
                    },
                },
            },
        }
    }
}

/// The highest number the first `n` rows carry.
pub open spec fn highest(v: Seq<JsonV>, n: nat) -> Option<i64>
    decreases n,
{
    if n == 0 || n > v.len() {
        None
    } else {
        match opt_i64_spec(v[n - 1], "short_id"@) {
            Ok(Some(k)) => match highest(v, (n - 1) as nat) {
                Some(h) => if h < k {
                    Some(k)
                } else {
                    Some(h)
                },
                None => Some(k),
            },
            _ => highest(v, (n - 1) as nat),
        }
    }
}

/// The next number, once it is above every number of the document.
pub open spec fn floor_raised(next: i64, h: Option<i64>) -> i64 {
    match h {
        None => next,
        Some(h) => if h < i64::MAX && next < h + 1 {
            (h + 1) as i64
        } else {
            next
        },
    }
}

/// The id of a task in a document, or why it has none.
pub open spec fn task_id_spec(tv: JsonV) -> Result<Seq<char>, ErrorV> {
    if !(tv is Obj) {
        Err(no_object(""@, "task"@))
    } else {
        match req_str_spec(tv, "id"@) {
            Ok(id) => Ok(id),
            Err(x) => Err(explained(x, " — each imported task requires a string `id`"@)),
        }
    }
}

/// The refusal of a task that occurs twice.
pub open spec fn listed_twice(id: Seq<char>) -> ErrorV {
    conflict(
        "store.import: task "@ + id
            + " appears more than once in this document's `tasks` array — one id addresses exactly one task, so this document cannot be restored anywhere"@,
    )
}

/// The refusal of a number that no task can have.
pub open spec fn bad_number(id: Seq<char>, number: i64) -> ErrorV {
    bad_request(
        "store.import: task "@ + id + " has short_id "@ + decimal(number as int)
            + " — expected an integer from 1 to 9223372036854775806"@,
    )
}

/// The refusal of a project the document should have declared.
pub open spec fn undeclared(id: Seq<char>, name: Seq<char>) -> ErrorV {
    bad_request(
        "store.import: task "@ + id + " names project "@ + debug_form(name)
            + ", which the payload's `projects` section does not define and the store does not have — add it to `projects`, or create it first with `tasqx init "@
            + name + "`"@,
    )
}

/// What an import says of itself in the log about a project it inferred.
pub open spec fn inferred_mark(name: Seq<char>) -> JsonV {
    JsonV::Obj(seq![("name"@, JsonV::Str(name)), ("inferred"@, JsonV::Bool(true))])
}

/// The import once a task's project exists. A document that declares its
/// projects is held to them; for one that declares none the project is made.
pub open spec fn project_settled(
    w: Work,
    id: Seq<char>,
    project: Option<Seq<char>>,
    declared: bool,
    env: EnvV,
) -> Result<Work, ErrorV> {
    match project {
        None => Ok(w),
        Some(name) => if find::<Project>(w.e.projects, name) is Some {
            Ok(w)
        } else if declared {
            Err(undeclared(id, name))
        } else {
            match project_written(w, name, None, false, env.log.now, None, env) {
                Err(x) => Err(x),
                Ok(p) => match logged(
                    p.0,
                    Entity::Project,
                    p.1,
                    "import"@,
                    inferred_mark(name),
                    env,
                ) {
                    Err(x) => Err(x),
                    Ok(q) => Ok(Work { created: q.created.push(name), ..q }),
                },
            }
        },
    }
}

/// The report that a task took another number.
pub open spec fn moved(id: Seq<char>, from: i64, to: i64) -> JsonV {
    JsonV::Obj(
        seq![
            ("id"@, JsonV::Str(id)),
            ("from"@, JsonV::Int(from as int)),
            ("to"@, JsonV::Int(to as int)),
        ],
    )
}

/// The number a task gets: the one it has here; else the one it carries, if
/// that is free; else a new one, which is reported.
pub open spec fn number_settled(w: Work, id: Seq<char>, carried: i64) -> Result<
    (Work, i64),
    ErrorV,
> {
    match task_by_id(w.e.tasks, id) {
        Some(t) => Ok((w, t.short_id)),
        None => if !number_taken(w.e.tasks, carried) {
            Ok((w, carried))
        } else if w.e.next_short_id == i64::MAX {
            Err(internal("the short_id counter is exhausted"@))
        } else {
            let n = w.e.next_short_id;
            Ok(
                (
                    Work {
                        e: EngineV { next_short_id: (n + 1) as i64, ..w.e },
                        renumbered: w.renumbered.push(moved(id, carried, n)),
                        ..w
                    },
                    n,
                ),
            )
        },
    }
}

/// The refusal of a task that is older than the one stored.
pub open spec fn stale_task(id: Seq<char>, rev: i64, stored: i64) -> ErrorV {
    conflict(
        "store.import: task "@ + id + " carries _rev "@ + decimal(rev as int)
            + ", but the store already holds it at _rev "@ + decimal(stored as int)
            + " — this payload is older than what is already here, and importing it would discard every annotation, tag and dependency edge added since (run `tasqx export` first for a merge target, or drop this \
            task from the payload)"@,
    )
}

/// The row of an imported task. An open interval belongs to an active task
/// only; a total that the document does not carry stays what it is.
pub open spec fn merged(
    stored: Option<TaskV>,
    id: Seq<char>,
    number: i64,
    h: HeadV,
    b: BodyV,
    tags: Seq<Seq<char>>,
    env: EnvV,
) -> TaskV {
    TaskV {
        id,
        short_id: number,
        title: h.title,
        status: h.status,
        status_raw: None,
        priority: h.priority,
        project: h.project,
        tags,
        due: b.due,
        scheduled: b.scheduled,
        wait: b.wait,
        estimate: b.estimate,
        recurrence: b.recurrence,
        remind: b.remind,
        budget_tokens: b.budget_tokens,
        delivered_annotation_id: b.delivered_annotation_id,
        spawned_from: b.spawned_from,
        active_since: if h.status != Status::Active {
            None
        } else if b.active_since is Some {
            b.active_since
        } else if stored is Some && stored->0.active_since is Some {
            stored->0.active_since
        } else {
            Some(env.log.now)
        },
        tracked_seconds: match b.tracked_seconds {
            Some(n) => n,
            None => match stored {
                Some(t) => t.tracked_seconds,
                None => 0,
            },
        },
        tracked_adjustment_seconds: match b.tracked_adjustment_seconds {
            Some(n) => n,
            None => if b.tracked_seconds is None && stored is Some {
                stored->0.tracked_adjustment_seconds
            } else {
                0
            },
        },
        created: b.created,
        modified: b.modified,
        completed: b.completed,
        rev: b.rev,
    }
}

/// What an import says of itself in the log about a task.
pub open spec fn task_mark(number: i64) -> JsonV {
    JsonV::Obj(seq![("short_id"@, JsonV::Int(number as int))])
}

/// The import once a task and the rows that belong to it are written.
pub open spec fn task_written(
    w: Work,
    tv: JsonV,
    id: Seq<char>,
    number: i64,
    h: HeadV,
    b: BodyV,
    env: EnvV,
) -> Result<Work, ErrorV> {
    let stored = task_by_id(w.e.tasks, id);
    let tags = task_tags_spec(tv);
    let notes = annotations_done(w.e.annotations, w.used, tv, id, env);
    let criteria = checks_done(w.e.checks, notes->Ok_0.1, tv, id, env);
    let tokens = measurements_done(w.e.measurements, criteria->Ok_0.1, tv, id, env);
    let deps = opt_str_array_spec(tv, "depends_on"@);
    if stored is Some && stored->0.rev > b.rev {
        Err(stale_task(id, b.rev, stored->0.rev))
    } else if tags is Err {
        Err(task_err(tags, id, "tags"@))
    } else if notes is Err {
        Err(notes->Err_0)
    } else if criteria is Err {
        Err(criteria->Err_0)
    } else if tokens is Err {
        Err(tokens->Err_0)
    } else if deps is Err {
        Err(task_err(deps, id, "depends_on"@))
    } else {
        logged(
            Work {
                e: EngineV {
                    tasks: task_put(
                        w.e.tasks,
                        merged(stored, id, number, h, b, tags->Ok_0, env),
                    ),
                    annotations: notes->Ok_0.0,
                    checks: criteria->Ok_0.0,
                    measurements: tokens->Ok_0.0,
                    dependencies: without::<Dependency>(w.e.dependencies, id),
                    ..w.e
                },
                used: tokens->Ok_0.1,
                edges: w.edges.push((id, deps->Ok_0)),
                ..w
            },
            Entity::Task,
            id,
            "import"@,
            task_mark(number),
            env,
        )
    }
}

/// One task imported, or why it is refused.
pub open spec fn task_one(w: Work, tv: JsonV, declared: bool, env: EnvV) -> Result<Work, ErrorV> {
    let idr = task_id_spec(tv);
    let id = idr->Ok_0;
    let shape = shape_spec("task "@ + id + ", "@, "task"@, tv, task_keys());
    let number = req_i64_spec(tv, "short_id"@);
    let head = head_spec(tv, id);
    let body = body_spec(tv, id, env);
    let begun = Work { written: w.written.push(id), ..w };
    let settled = project_settled(begun, id, head->Ok_0.project, declared, env);
    let numbered = number_settled(settled->Ok_0, id, number->Ok_0);
    if idr is Err {
        Err(idr->Err_0)
    } else if shape is Err {
        Err(shape->Err_0)
    } else if w.written.contains(id) {
        Err(listed_twice(id))
    } else if number is Err {
        Err(task_err(number, id, "short_id"@))
    } else if number->Ok_0 < 1 || number->Ok_0 == i64::MAX {
        Err(bad_number(id, number->Ok_0))
    } else if head is Err {
        Err(head->Err_0)
    } else if settled is Err {
        Err(settled->Err_0)
    } else if body is Err {
        Err(body->Err_0)
    } else if numbered is Err {
        Err(numbered->Err_0)
    } else {
        let n = numbered->Ok_0;
        task_written(n.0, tv, id, n.1, head->Ok_0, body->Ok_0, env)
    }
}

/// The step of [`task_one`].
pub open spec fn task_step(declared: bool, env: EnvV) -> spec_fn(Work, JsonV) -> Result<
    Work,
    ErrorV,
> {
    |w: Work, v: JsonV| task_one(w, v, declared, env)
}

/// Whether an edge is there.
pub open spec fn edge_in(d: Seq<DependencyV>, id: Seq<char>, on: Seq<char>) -> bool {
    d.contains(DependencyV { task_id: id, depends_on: on })
}

/// The refusal of an edge to a task that is nowhere.
pub open spec fn dangling(id: Seq<char>, on: Seq<char>) -> ErrorV {
    bad_request(
        "store.import: task "@ + id + " depends on "@ + on
            + ", which is neither in the payload nor in the store (export the dependency too, or drop the edge)"@,
    )
}

/// The refusal of an edge from a task to itself.
pub open spec fn on_itself(id: Seq<char>) -> ErrorV {
    conflict(
        "store.import: task "@ + id + " depends on itself — a task cannot depend on itself"@,
    )
}

/// The refusal of an edge that closes a cycle.
pub open spec fn closes_cycle(id: Seq<char>, on: Seq<char>) -> ErrorV {
    conflict(
        "store.import: dependency would create a cycle: "@ + on + " already depends on "@ + id,
    )
}

/// The edges once one more is wired, or why it is refused.
pub open spec fn edge_one(
    tasks: Seq<TaskV>,
    d: Seq<DependencyV>,
    id: Seq<char>,
    on: Seq<char>,
) -> Result<Seq<DependencyV>, ErrorV> {
    if task_by_id(tasks, on) is None {
        Err(dangling(id, on))
    } else if on == id {
        Err(on_itself(id))
    } else if waits_for(d, on, id) {
        Err(closes_cycle(id, on))
    } else if edge_in(d, id, on) {
        Ok(d)
    } else {
        Ok(d.push(DependencyV { task_id: id, depends_on: on }))
    }
}

/// The edges once the first `n` of one task are wired, or why one is refused.
pub open spec fn edges_of_one(
    tasks: Seq<TaskV>,
    d: Seq<DependencyV>,
    id: Seq<char>,
    on: Seq<Seq<char>>,
    n: nat,
) -> Result<Seq<DependencyV>, ErrorV>
    decreases n,
{
    if n == 0 || n > on.len() {
        Ok(d)
    } else {
        match edges_of_one(tasks, d, id, on, (n - 1) as nat) {
            Err(x) => Err(x),
            Ok(s) => edge_one(tasks, s, id, on[n - 1]),
        }
    }
}

/// The edges once those of the first `n` tasks are wired, or why one is refused.
pub open spec fn edges_wired(
    tasks: Seq<TaskV>,
    d: Seq<DependencyV>,
    edges: Seq<(Seq<char>, Seq<Seq<char>>)>,
    n: nat,
) -> Result<Seq<DependencyV>, ErrorV>
    decreases n,
{
    if n == 0 || n > edges.len() {
        Ok(d)
    } else {
        match edges_wired(tasks, d, edges, (n - 1) as nat) {
            Err(x) => Err(x),
            Ok(s) => edges_of_one(
                tasks,
                s,
                edges[n - 1].0,
                edges[n - 1].1,
                edges[n - 1].1.len(),
            ),
        }
    }
}

/// The refusal of a default that is no project.
pub open spec fn default_unknown(name: Seq<char>) -> ErrorV {
    bad_request(
        "store.import: `default_project` names "@ + debug_form(name)
            + ", which the payload's `projects` section does not define and the store does not have"@,
    )
}

/// The refusal of a default that is archived.
pub open spec fn default_archived(name: Seq<char>) -> ErrorV {
    bad_request(
        "store.import: `default_project` names "@ + debug_form(name)
            + ", which is archived (an archived project cannot be the default)"@,
    )
}

/// The default project once the document's is known: the standing one wins.
/// The document's is held to the projects either way.
pub open spec fn default_settled(e: EngineV, want: Option<Seq<char>>) -> Result<
    Option<Seq<char>>,
    ErrorV,
> {
    match want {
        None => Ok(e.default_project),
        Some(name) => match find::<Project>(e.projects, name) {
            None => Err(default_unknown(name)),
            Some(p) => if p.archived {
                Err(default_archived(name))
            } else {
                Ok(
                    match e.default_project {
                        Some(d) => Some(d),
                        None => Some(name),
                    },
                )
            },
        },
    }
}

/// The beginning of an import.
pub open spec fn begun(e: EngineV) -> Work {
    Work {
        e,
        used: 0,
        created: Seq::empty(),
        renumbered: Seq::empty(),
        written: Seq::empty(),
        edges: Seq::empty(),
        replayed: 0,
    }
}

/// The rows of an optional section.
pub open spec fn section(r: Result<Option<Seq<JsonV>>, ErrorV>) -> Seq<JsonV> {
    match r {
        Ok(Some(v)) => v,
        _ => Seq::empty(),
    }
}

/// What an import reports.
pub open spec fn report(
    tasks: nat,
    projects: nat,
    docs: nat,
    docs_declared: bool,
    w: Work,
    default_project: Option<Seq<char>>,
) -> JsonV {
    JsonV::Obj(
        seq![
            ("imported"@, JsonV::Int(tasks as int)),
            ("projects_imported"@, JsonV::Int(projects as int)),
            ("projects_created"@, JsonV::Arr(str_values(w.created))),
            ("docs_imported"@, JsonV::Int(docs as int)),
            ("docs_declared"@, JsonV::Bool(docs_declared)),
            ("events_imported"@, JsonV::Int(w.replayed as int)),
            ("default_project"@, opt_text(default_project)),
            ("renumbered"@, JsonV::Arr(w.renumbered)),
        ],
    )
}

/// The rows of the document's `tasks`, or the refusal of a document without.
pub open spec fn tasks_spec(p: JsonV) -> Result<Seq<JsonV>, ErrorV> {
    let more = " — store.import requires a `tasks` array"@;
    match opt_array_spec(p, "tasks"@) {
        Ok(Some(v)) => Ok(v),
        Ok(None) => Err(explained(crate::params::missing("tasks"@), more)),
        Err(x) => Err(explained(x, more)),
    }
}

/// The import with the next number above every number of the document.
pub open spec fn raised(w: Work, rows: Seq<JsonV>) -> Work {
    Work {
        e: EngineV {
            next_short_id: floor_raised(w.e.next_short_id, highest(rows, rows.len())),
            ..w.e
        },
        ..w
    }
}

/// Whether the parts every import reads first can be read, or why not.
pub open spec fn readable(p: JsonV) -> Result<(), ErrorV> {
    let projects = opt_array_spec(p, "projects"@);
    let want = opt_str_nonempty_spec(p, "default_project"@);
    if tasks_spec(p) is Err {
        Err(tasks_spec(p)->Err_0)
    } else if projects is Err {
        Err(projects->Err_0)
    } else if want is Err {
        Err(want->Err_0)
    } else {
        Ok(())
    }
}

/// The import once the document's projects, memory documents and events are
/// in, or why one is refused.
#[verifier::opaque]
pub open spec fn sections_in(e: EngineV, p: JsonV, env: EnvV) -> Result<Work, ErrorV> {
    let projects = opt_array_spec(p, "projects"@);
    let docs = opt_array_spec(p, "docs"@);
    let events = opt_array_spec(p, "events"@);
    let ps = section(projects);
    let ds = section(docs);
    let es = section(events);
    let w1 = each(ps, ps.len(), begun(e), project_step(env));
    let w2 = each(ds, ds.len(), w1->Ok_0, doc_step(env));
    let w3 = each(es, es.len(), w2->Ok_0, event_step(env));
    if w1 is Err {
        Err(w1->Err_0)
    } else if docs is Err {
        Err(docs->Err_0)
    } else if w2 is Err {
        Err(w2->Err_0)
    } else if events is Err {
        Err(events->Err_0)
    } else {
        w3
    }
}

/// The import once the document's tasks are in, or why one is refused.
#[verifier::opaque]
pub open spec fn tasks_in(w: Work, rows: Seq<JsonV>, declared: bool, env: EnvV) -> Result<
    Work,
    ErrorV,
> {
    match claims_spec(rows, rows.len()) {
        Err(x) => Err(x),
        Ok(_) => each(rows, rows.len(), raised(w, rows), task_step(declared, env)),
    }
}

/// The store once the document's edges and its default project are in, or why
/// one is refused.
#[verifier::opaque]
pub open spec fn finished(w: Work, want: Option<Seq<char>>) -> Result<EngineV, ErrorV> {
    match edges_wired(w.e.tasks, w.e.dependencies, w.edges, w.edges.len()) {
        Err(x) => Err(x),
        Ok(d) => match default_settled(w.e, want) {
            Err(x) => Err(x),
            Ok(default_project) => Ok(EngineV { dependencies: d, default_project, ..w.e }),
        },
    }
}

/// The store and the report of an imported document, or why it is refused.
pub open spec fn imported(e: EngineV, p: JsonV, env: EnvV) -> Result<(EngineV, JsonV), ErrorV> {
    let rows = tasks_spec(p)->Ok_0;
    let projects = opt_array_spec(p, "projects"@)->Ok_0;
    let want = opt_str_nonempty_spec(p, "default_project"@)->Ok_0;
    let docs = opt_array_spec(p, "docs"@);
    match readable(p) {
        Err(x) => Err(x),
        Ok(_) => match sections_in(e, p, env) {
        Err(x) => Err(x),
        Ok(w) => match tasks_in(w, rows, projects is Some, env) {
            Err(x) => Err(x),
            Ok(w) => match finished(w, want) {
                Err(x) => Err(x),
                Ok(done) => Ok(
                    (
                        done,
                        report(
                            rows.len(),
                            section(opt_array_spec(p, "projects"@)).len(),
                            section(docs).len(),
                            docs->Ok_0 is Some,
                            w,
                            done.default_project,
                        ),
                    ),
                ),
            },
        },
        },
    }
}

} // verus!
