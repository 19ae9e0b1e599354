//! Writing the store, or the part of it a filter selects, as one document.
//!
//! A filtered document carries only what its tasks need. An edge to a task
//! that is left out is trimmed and counted, and so are projects, documents and
//! events: nothing is lost in silence. An unfiltered document carries
//! everything.
//!
//! A task's `urgency` is a fraction, which the caller computes and adds.

use crate::children::Child;
use crate::children::live;
use crate::children::owned;
use crate::engine::Engine;
use crate::engine::EngineV;
use crate::engine::is_blocked;
use crate::error::ApiError;
use crate::error::bad_request;
use crate::error::ErrorCode;
use crate::error::ErrorV;
use crate::expr::CtxV;
use crate::expr::ExprV;
use crate::expr::holds;
use crate::expr::MatchCtx;
use crate::expr::Pred;
use crate::expr::PredV;
use crate::expr::projects_named;
use crate::filter::Filter;
use crate::filter::parsed;
use crate::filter::Spellings;
use crate::json::Fields;
use crate::json::Json;
use crate::json::JsonV;
use crate::json_text::json_said;
use crate::params::opt_bool;
use crate::params::opt_bool_spec;
use crate::params::opt_str;
use crate::params::opt_str_spec;
use crate::rows::Annotation;
use crate::rows::AnnotationV;
use crate::rows::Check;
use crate::rows::CheckV;
use crate::rows::Dependency;
use crate::rows::DependencyV;
use crate::rows::Doc;
use crate::rows::DocV;
use crate::rows::Event;
use crate::rows::EventV;
use crate::rows::Measurement;
use crate::rows::MeasurementV;
use crate::rows::Project;
use crate::rows::ProjectV;
use crate::rows::rows;
use crate::rows::Task;
use crate::rows::TaskV;
use crate::tables::find;
use crate::tables::find_row;
use crate::text::debug_form;
use crate::text::debug_text;
use crate::text::same;
use crate::text::texts;
use crate::types::Entity;
use crate::types::entity_named;
use crate::types::Priority;
use crate::value::opt_text;
use crate::value::str_values;
use crate::value::values;
use crate::when::Calendar;
use vstd::prelude::*;

verus! {

broadcast use {
    vstd::string::group_string_axioms,
    crate::value::group_json,
    crate::text::texts_push,
};

/// What a fallible answer says.
pub open spec fn told_json(r: Result<Json, ApiError>) -> Result<JsonV, ErrorV> {
    match r {
        Ok(j) => Ok(j@),
        Err(e) => Err(e@),
    }
}

/// A note in a document.
pub open spec fn annotation_json(a: AnnotationV) -> JsonV {
    JsonV::Obj(
        seq![
            ("id"@, JsonV::Str(a.id)),
            ("body"@, JsonV::Str(a.body)),
            ("created"@, JsonV::Str(a.created)),
        ],
    )
}

/// A criterion in a document.
pub open spec fn check_json(c: CheckV) -> JsonV {
    JsonV::Obj(
        seq![
            ("id"@, JsonV::Str(c.id)),
            ("body"@, JsonV::Str(c.body)),
            ("state"@, JsonV::Str(c.state)),
            ("evidence"@, opt_text(c.evidence)),
            ("position"@, JsonV::Int(c.position as int)),
            ("created"@, JsonV::Str(c.created)),
            ("modified"@, JsonV::Str(c.modified)),
        ],
    )
}

/// A measurement in a document.
pub open spec fn measurement_json(m: MeasurementV) -> JsonV {
    JsonV::Obj(
        seq![
            ("id"@, JsonV::Str(m.id)),
            ("tool"@, JsonV::Str(m.tool)),
            ("source"@, JsonV::Str(m.source)),
            ("model"@, opt_text(m.model)),
            ("input_tokens"@, JsonV::Int(m.input_tokens as int)),
            ("output_tokens"@, JsonV::Int(m.output_tokens as int)),
            ("cache_read_tokens"@, JsonV::Int(m.cache_read_tokens as int)),
            ("cache_creation_tokens"@, JsonV::Int(m.cache_creation_tokens as int)),
            ("total_tokens"@, JsonV::Int(m.total_tokens as int)),
            ("confidence"@, JsonV::Str(m.confidence)),
            ("created"@, JsonV::Str(m.created)),
        ],
    )
}

/// A project in a document.
pub open spec fn project_json(p: ProjectV) -> JsonV {
    JsonV::Obj(
        seq![
            ("id"@, JsonV::Str(p.id)),
            ("name"@, JsonV::Str(p.name)),
            ("description"@, opt_text(p.description)),
            ("archived"@, JsonV::Bool(p.archived)),
            ("created"@, JsonV::Str(p.created)),
        ],
    )
}

/// A memory document in a document.
pub open spec fn doc_json(d: DocV) -> JsonV {
    JsonV::Obj(
        seq![
            ("id"@, JsonV::Str(d.id)),
            ("source"@, opt_text(d.source)),
            ("title"@, JsonV::Str(d.title)),
            ("body"@, JsonV::Str(d.body)),
            ("created"@, JsonV::Str(d.created)),
            ("modified"@, JsonV::Str(d.modified)),
            ("project"@, opt_text(d.project)),
            ("_rev"@, JsonV::Int(d.rev as int)),
            ("standing"@, JsonV::Bool(d.standing)),
        ],
    )
}

/// What an event's payload says: null where there is none, or none that is JSON.
pub open spec fn payload_said(e: EventV) -> JsonV {
    match e.payload {
        None => JsonV::Null,
        Some(p) => match json_said(p) {
            Some(v) => v,
            None => JsonV::Null,
        },
    }
}

/// An event in a document.
pub open spec fn event_json(e: EventV) -> JsonV {
    JsonV::Obj(
        seq![
            ("id"@, JsonV::Str(e.id)),
            ("entity"@, JsonV::Str(e.entity)),
            ("entity_id"@, JsonV::Str(e.entity_id)),
            ("op"@, JsonV::Str(e.op)),
            ("payload"@, payload_said(e)),
            ("ts"@, JsonV::Str(e.ts)),
            ("actor"@, opt_text(e.actor)),
        ],
    )
}

/// Whether an event is the mark an import leaves of itself.
pub open spec fn import_mark(e: EventV) -> bool {
    e.op == "import"@ || (e.op == "memory.add"@ && payload_said(e).get("via"@) == Some(
        JsonV::Str("store.import"@),
    ))
}

/// The notes of a list, in a document.
pub open spec fn annotations_json(s: Seq<AnnotationV>) -> Seq<JsonV> {
    s.map_values(|a: AnnotationV| annotation_json(a))
}

/// The criteria of a list, in a document.
pub open spec fn checks_json(s: Seq<CheckV>) -> Seq<JsonV> {
    s.map_values(|c: CheckV| check_json(c))
}

/// The measurements of a list, in a document.
pub open spec fn measurements_json(s: Seq<MeasurementV>) -> Seq<JsonV> {
    s.map_values(|m: MeasurementV| measurement_json(m))
}

/// What a filter is asked of a task.
pub open spec fn ctx_of(e: EngineV, t: TaskV) -> CtxV {
    CtxV {
        status: t.status,
        project: t.project,
        tags: t.tags,
        due: t.due,
        completed: t.completed,
        blocked: is_blocked(e, t),
    }
}

/// The first `n` tasks, those that a filter selects.
pub open spec fn selected(e: EngineV, f: ExprV, n: nat) -> Seq<TaskV>
    decreases n,
{
    if n == 0 || n > e.tasks.len() {
        Seq::empty()
    } else if holds(f, ctx_of(e, e.tasks[n - 1])) {
        selected(e, f, (n - 1) as nat).push(e.tasks[n - 1])
    } else {
        selected(e, f, (n - 1) as nat)
    }
}

/// The ids of tasks.
pub open spec fn ids_of(s: Seq<TaskV>) -> Seq<Seq<char>> {
    s.map_values(|t: TaskV| t.id)
}

/// The tasks that the first `n` edges make `id` wait for, those in `present`.
pub open spec fn kept_edges(
    d: Seq<DependencyV>,
    id: Seq<char>,
    present: Seq<Seq<char>>,
    n: nat,
) -> Seq<Seq<char>>
    decreases n,
{
    if n == 0 || n > d.len() {
        Seq::empty()
    } else if d[n - 1].task_id == id && present.contains(d[n - 1].depends_on) {
        kept_edges(d, id, present, (n - 1) as nat).push(d[n - 1].depends_on)
    } else {
        kept_edges(d, id, present, (n - 1) as nat)
    }
}

/// How many of the first `n` edges lead out of `present`.
pub open spec fn dropped_edges(d: Seq<DependencyV>, present: Seq<Seq<char>>, n: nat) -> nat
    decreases n,
{
    if n == 0 || n > d.len() {
        0
    } else {
        dropped_edges(d, present, (n - 1) as nat) + if present.contains(d[n - 1].task_id)
            && !present.contains(d[n - 1].depends_on) {
            1nat
        } else {
            0nat
        }
    }
}

/// A task's status as it is stored.
pub open spec fn status_text(t: TaskV) -> Seq<char> {
    match t.status_raw {
        Some(s) => s,
        None => t.status.name(),
    }
}

/// An optional integer: null where there is none.
pub open spec fn opt_int(n: Option<i64>) -> JsonV {
    match n {
        Some(n) => JsonV::Int(n as int),
        None => JsonV::Null,
    }
}

/// An optional priority: null where there is none.
pub open spec fn opt_priority(p: Option<Priority>) -> JsonV {
    match p {
        Some(p) => JsonV::Str(p.name()),
        None => JsonV::Null,
    }
}

/// A list of members with one more where a condition holds.
pub open spec fn with_if(
    m: Seq<(Seq<char>, JsonV)>,
    cond: bool,
    key: Seq<char>,
    value: JsonV,
) -> Seq<(Seq<char>, JsonV)> {
    if cond {
        m.push((key, value))
    } else {
        m
    }
}

/// The members every task has in a document.
pub open spec fn task_members(e: EngineV, t: TaskV, present: Seq<Seq<char>>) -> Seq<
    (Seq<char>, JsonV),
> {
    seq![
        ("id"@, JsonV::Str(t.id)),
        ("short_id"@, JsonV::Int(t.short_id as int)),
        ("title"@, JsonV::Str(t.title)),
        ("status"@, JsonV::Str(status_text(t))),
        ("priority"@, opt_priority(t.priority)),
        ("project"@, opt_text(t.project)),
        ("tags"@, JsonV::Arr(str_values(t.tags))),
        ("due"@, opt_text(t.due)),
        ("scheduled"@, opt_text(t.scheduled)),
        ("wait"@, opt_text(t.wait)),
        ("estimate"@, opt_text(t.estimate)),
        ("recurrence"@, opt_text(t.recurrence)),
        ("remind"@, opt_text(t.remind)),
        ("budget_tokens"@, opt_int(t.budget_tokens)),
        (
            "depends_on"@,
            JsonV::Arr(
                str_values(kept_edges(e.dependencies, t.id, present, e.dependencies.len())),
            ),
        ),
        ("checks"@, JsonV::Arr(checks_json(owned::<Check>(e.checks, t.id)))),
        (
            "annotations"@,
            JsonV::Arr(annotations_json(owned::<Annotation>(live(e.annotations), t.id))),
        ),
        ("created"@, JsonV::Str(t.created)),
        ("modified"@, JsonV::Str(t.modified)),
        ("completed"@, opt_text(t.completed)),
        ("_rev"@, JsonV::Int(t.rev as int)),
    ]
}

/// A task in a document. The last members are there only where they say
/// something, so that a task without them keeps its shape.
pub open spec fn task_json(e: EngineV, t: TaskV, present: Seq<Seq<char>>) -> JsonV {
    let tokens = measurements_json(owned::<Measurement>(e.measurements, t.id));
    let m0 = task_members(e, t, present);
    let m1 = with_if(
        m0,
        t.tracked_seconds != 0,
        "tracked_seconds"@,
        JsonV::Int(t.tracked_seconds as int),
    );
    let m2 = with_if(
        m1,
        t.tracked_adjustment_seconds != 0,
        "tracked_adjustment_seconds"@,
        JsonV::Int(t.tracked_adjustment_seconds as int),
    );
    let m3 = with_if(m2, t.active_since is Some, "active_since"@, opt_text(t.active_since));
    let m4 = with_if(m3, tokens.len() > 0, "tokens"@, JsonV::Arr(tokens));
    let m5 = with_if(
        m4,
        t.delivered_annotation_id is Some,
        "delivered_annotation_id"@,
        opt_text(t.delivered_annotation_id),
    );
    let m6 = with_if(m5, t.spawned_from is Some, "spawned_from"@, opt_text(t.spawned_from));
    let m7 = with_if(m6, t.status_raw is Some, "status_unrecognized"@, JsonV::Bool(true));
    JsonV::Obj(m7)
}

/// The first `n` of the selected tasks, in a document.
pub open spec fn tasks_json(e: EngineV, s: Seq<TaskV>, n: nat) -> Seq<JsonV>
    decreases n,
{
    if n == 0 || n > s.len() {
        Seq::empty()
    } else {
        tasks_json(e, s, (n - 1) as nat).push(task_json(e, s[n - 1], ids_of(s)))
    }
}

/// The projects of the first `n` of the selected tasks, after `named`.
pub open spec fn needed_by(s: Seq<TaskV>, named: Seq<Seq<char>>, n: nat) -> Seq<Seq<char>>
    decreases n,
{
    if n == 0 || n > s.len() {
        named
    } else {
        match s[n - 1].project {
            Some(p) => needed_by(s, named, (n - 1) as nat).push(p),
            None => needed_by(s, named, (n - 1) as nat),
        }
    }
}

/// The projects a document needs: all of them where nothing is filtered, else
/// those the filter names and those the selected tasks belong to.
pub open spec fn needed(f: ExprV, s: Seq<TaskV>) -> Option<Seq<Seq<char>>> {
    if f == ExprV::Pred(PredV::Always) {
        None
    } else {
        Some(needed_by(s, projects_named(f), s.len()))
    }
}

/// Whether a memory document goes into the document.
pub open spec fn doc_kept(d: DocV, need: Option<Seq<Seq<char>>>, unscoped: bool) -> bool {
    match need {
        None => true,
        Some(set) => match d.project {
            Some(p) => set.contains(p),
            None => unscoped,
        },
    }
}

/// The first `n` memory documents, those that are kept.
pub open spec fn docs_kept(
    d: Seq<DocV>,
    need: Option<Seq<Seq<char>>>,
    unscoped: bool,
    n: nat,
) -> Seq<DocV>
    decreases n,
{
    if n == 0 || n > d.len() {
        Seq::empty()
    } else if doc_kept(d[n - 1], need, unscoped) {
        docs_kept(d, need, unscoped, (n - 1) as nat).push(d[n - 1])
    } else {
        docs_kept(d, need, unscoped, (n - 1) as nat)
    }
}

/// Memory documents in a document.
pub open spec fn docs_json(d: Seq<DocV>) -> Seq<JsonV> {
    d.map_values(|x: DocV| doc_json(x))
}

/// The ids of memory documents.
pub open spec fn doc_ids(d: Seq<DocV>) -> Seq<Seq<char>> {
    d.map_values(|x: DocV| x.id)
}

/// Whether a project goes into the document.
pub open spec fn project_kept(p: ProjectV, need: Option<Seq<Seq<char>>>) -> bool {
    match need {
        None => true,
        Some(set) => set.contains(p.name),
    }
}

/// The first `n` projects, those that are kept.
pub open spec fn projects_kept(p: Seq<ProjectV>, need: Option<Seq<Seq<char>>>, n: nat) -> Seq<
    ProjectV,
>
    decreases n,
{
    if n == 0 || n > p.len() {
        Seq::empty()
    } else if project_kept(p[n - 1], need) {
        projects_kept(p, need, (n - 1) as nat).push(p[n - 1])
    } else {
        projects_kept(p, need, (n - 1) as nat)
    }
}

/// Projects in a document.
pub open spec fn projects_json(p: Seq<ProjectV>) -> Seq<JsonV> {
    p.map_values(|x: ProjectV| project_json(x))
}

/// The ids of projects.
pub open spec fn project_ids(p: Seq<ProjectV>) -> Seq<Seq<char>> {
    p.map_values(|x: ProjectV| x.id)
}

/// The names of projects.
pub open spec fn project_names(p: Seq<ProjectV>) -> Seq<Seq<char>> {
    p.map_values(|x: ProjectV| x.name)
}

/// Whether what an event is about is in the document. A kind that is not
/// scoped, or not known, always is.
pub open spec fn event_in_scope(
    e: EventV,
    tasks: Seq<Seq<char>>,
    docs: Seq<Seq<char>>,
    projects: Seq<Seq<char>>,
) -> bool {
    match entity_named(e.entity) {
        Some(Entity::Task) => tasks.contains(e.entity_id),
        Some(Entity::Doc) => docs.contains(e.entity_id),
        Some(Entity::Project) => projects.contains(e.entity_id),
        Some(Entity::Link) => true,
        None => true,
    }
}

/// The first `n` events, those in scope that no import left of itself.
pub open spec fn events_kept(
    e: Seq<EventV>,
    tasks: Seq<Seq<char>>,
    docs: Seq<Seq<char>>,
    projects: Seq<Seq<char>>,
    n: nat,
) -> Seq<EventV>
    decreases n,
{
    if n == 0 || n > e.len() {
        Seq::empty()
    } else if event_in_scope(e[n - 1], tasks, docs, projects) && !import_mark(e[n - 1]) {
        events_kept(e, tasks, docs, projects, (n - 1) as nat).push(e[n - 1])
    } else {
        events_kept(e, tasks, docs, projects, (n - 1) as nat)
    }
}

/// How many of the first `n` events are out of scope.
pub open spec fn events_dropped(
    e: Seq<EventV>,
    tasks: Seq<Seq<char>>,
    docs: Seq<Seq<char>>,
    projects: Seq<Seq<char>>,
    n: nat,
) -> nat
    decreases n,
{
    if n == 0 || n > e.len() {
        0
    } else {
        events_dropped(e, tasks, docs, projects, (n - 1) as nat) + if event_in_scope(
            e[n - 1],
            tasks,
            docs,
            projects,
        ) {
            0nat
        } else {
            1nat
        }
    }
}

/// Events in a document.
pub open spec fn events_json(e: Seq<EventV>) -> Seq<JsonV> {
    e.map_values(|x: EventV| event_json(x))
}

/// Whether a live project has this name.
pub open spec fn live_project(p: Seq<ProjectV>, name: Seq<char>) -> bool {
    match find::<Project>(p, name) {
        Some(row) => !row.archived,
        None => false,
    }
}

/// The refusal of a filter that names a project which is not there.
pub open spec fn no_project(name: Seq<char>) -> ErrorV {
    ErrorV {
        code: ErrorCode::NotFound,
        message: "no project named "@ + debug_form(name),
        data: Some(JsonV::Obj(seq![("project"@, JsonV::Str(name))])),
    }
}

/// The first of the names from `i` on that no live project has.
pub open spec fn first_unknown(p: Seq<ProjectV>, names: Seq<Seq<char>>, i: int) -> Option<Seq<char>>
    decreases names.len() - i,
{
    if i < 0 || i >= names.len() {
        None
    } else if live_project(p, names[i]) {
        first_unknown(p, names, i + 1)
    } else {
        Some(names[i])
    }
}

/// The refusal to widen a document that is not narrowed.
pub open spec fn nothing_to_widen() -> ErrorV {
    bad_request(
        "`include_unscoped` widens a filtered export's docs/projects to ones that carry no project — an unfiltered export already carries all of them, so it needs a filter to widen from"@,
    )
}

/// The default project, where the document carries it.
pub open spec fn default_kept(
    e: EngineV,
    need: Option<Seq<Seq<char>>>,
    kept: Seq<ProjectV>,
) -> Option<Seq<char>> {
    match (e.default_project, need) {
        (None, _) => None,
        (Some(d), None) => Some(d),
        (Some(d), Some(_)) => if project_names(kept).contains(d) {
            Some(d)
        } else {
            None
        },
    }
}

/// The document of a filter.
pub open spec fn document(e: EngineV, f: ExprV, unscoped: bool) -> JsonV {
    let s = selected(e, f, e.tasks.len());
    let present = ids_of(s);
    let need = needed(f, s);
    let docs = docs_kept(e.docs, need, unscoped, e.docs.len());
    let projects = projects_kept(e.projects, need, e.projects.len());
    let n = e.events.len();
    JsonV::Obj(
        seq![
            ("tasks"@, JsonV::Arr(tasks_json(e, s, s.len()))),
            (
                "dropped_dependencies"@,
                JsonV::Int(
                    dropped_edges(e.dependencies, present, e.dependencies.len()) as int,
                ),
            ),
            ("projects"@, JsonV::Arr(projects_json(projects))),
            ("dropped_projects"@, JsonV::Int(e.projects.len() - projects.len())),
            ("docs"@, JsonV::Arr(docs_json(docs))),
            ("dropped_docs"@, JsonV::Int(e.docs.len() - docs.len())),
            (
                "events"@,
                JsonV::Arr(
                    events_json(
                        events_kept(e.events, present, doc_ids(docs), project_ids(projects), n),
                    ),
                ),
            ),
            (
                "dropped_events"@,
                JsonV::Int(
                    events_dropped(
                        e.events,
                        present,
                        doc_ids(docs),
                        project_ids(projects),
                        n,
                    ) as int,
                ),
            ),
            ("default_project"@, opt_text(default_kept(e, need, projects))),
        ],
    )
}

/// The document a request asks for, or why it is refused.
pub open spec fn exported(e: EngineV, p: JsonV, cal: Spellings) -> Result<JsonV, ErrorV> {
    match opt_str_spec(p, "filter"@) {
        Err(x) => Err(x),
        Ok(text) => match parsed(
            match text {
                Some(s) => s,
                None => Seq::empty(),
            },
            cal,
        ) {
            Err(m) => Err(bad_request(m)),
            Ok(f) => match first_unknown(e.projects, projects_named(f), 0) {
                Some(name) => Err(no_project(name)),
                None => match opt_bool_spec(p, "include_unscoped"@) {
                    Err(x) => Err(x),
                    Ok(b) => {
                        let unscoped = b == Some(true);
                        if unscoped && f == ExprV::Pred(PredV::Always) {
                            Err(nothing_to_widen())
                        } else {
                            Ok(document(e, f, unscoped))
                        }
                    },
                },
            },
        },
    }
}

fn annotation_to_json(x: &Annotation) -> (r: Json)
    ensures
        r@ == annotation_json(x@),
{
    let mut f = Fields::new();
    f.put("id", Json::string(x.id.as_str()));
    f.put("body", Json::string(x.body.as_str()));
    f.put("created", Json::string(x.created.as_str()));
    assert(f@ =~= annotation_json(x@)->Obj_0);
    f.done()
}

fn check_to_json(x: &Check) -> (r: Json)
    ensures
        r@ == check_json(x@),
{
    let mut f = Fields::new();
    f.put("id", Json::string(x.id.as_str()));
    f.put("body", Json::string(x.body.as_str()));
    f.put("state", Json::string(x.state.as_str()));
    f.put("evidence", Json::opt_string(&x.evidence));
    f.put("position", Json::number(x.position));
    f.put("created", Json::string(x.created.as_str()));
    f.put("modified", Json::string(x.modified.as_str()));
    assert(f@ =~= check_json(x@)->Obj_0);
    f.done()
}

fn measurement_to_json(x: &Measurement) -> (r: Json)
    ensures
        r@ == measurement_json(x@),
{
    let mut f = Fields::new();
    f.put("id", Json::string(x.id.as_str()));
    f.put("tool", Json::string(x.tool.as_str()));
    f.put("source", Json::string(x.source.as_str()));
    f.put("model", Json::opt_string(&x.model));
    f.put("input_tokens", Json::number(x.input_tokens));
    f.put("output_tokens", Json::number(x.output_tokens));
    f.put("cache_read_tokens", Json::number(x.cache_read_tokens));
    f.put("cache_creation_tokens", Json::number(x.cache_creation_tokens));
    f.put("total_tokens", Json::number(x.total_tokens));
    f.put("confidence", Json::string(x.confidence.as_str()));
    f.put("created", Json::string(x.created.as_str()));
    assert(f@ =~= measurement_json(x@)->Obj_0);
    f.done()
}

fn project_to_json(x: &Project) -> (r: Json)
    ensures
        r@ == project_json(x@),
{
    let mut f = Fields::new();
    f.put("id", Json::string(x.id.as_str()));
    f.put("name", Json::string(x.name.as_str()));
    f.put("description", Json::opt_string(&x.description));
    f.put("archived", Json::Bool(x.archived));
    f.put("created", Json::string(x.created.as_str()));
    assert(f@ =~= project_json(x@)->Obj_0);
    f.done()
}

fn doc_to_json(x: &Doc) -> (r: Json)
    ensures
        r@ == doc_json(x@),
{
    let mut f = Fields::new();
    f.put("id", Json::string(x.id.as_str()));
    f.put("source", Json::opt_string(&x.source));
    f.put("title", Json::string(x.title.as_str()));
    f.put("body", Json::string(x.body.as_str()));
    f.put("created", Json::string(x.created.as_str()));
    f.put("modified", Json::string(x.modified.as_str()));
    f.put("project", Json::opt_string(&x.project));
    f.put("_rev", Json::number(x.rev));
    f.put("standing", Json::Bool(x.standing));
    assert(f@ =~= doc_json(x@)->Obj_0);
    f.done()
}

pub(crate) fn payload_of(x: &Event) -> (r: Json)
    ensures
        r@ == payload_said(x@),
{
    match &x.payload {
        None => Json::Null,
        Some(p) => match crate::json_text::parse(p.as_str()) {
            Some(v) => v,
            None => Json::Null,
        },
    }
}

fn event_to_json(x: &Event) -> (r: Json)
    ensures
        r@ == event_json(x@),
{
    let mut f = Fields::new();
    f.put("id", Json::string(x.id.as_str()));
    f.put("entity", Json::string(x.entity.as_str()));
    f.put("entity_id", Json::string(x.entity_id.as_str()));
    f.put("op", Json::string(x.op.as_str()));
    f.put("payload", payload_of(x));
    f.put("ts", Json::string(x.ts.as_str()));
    f.put("actor", Json::opt_string(&x.actor));
    assert(f@ =~= event_json(x@)->Obj_0);
    f.done()
}

fn annotations_of(v: &Vec<Annotation>, owner: &str) -> (r: Vec<Json>)
    ensures
        values(r@) == annotations_json(owned::<Annotation>(live(rows(v@)), owner@)),
{
    let mut out: Vec<Json> = Vec::new();
    let mut i: usize = 0;
    assert(values(out@) =~= annotations_json(owned::<Annotation>(live(rows(v@).take(0)), owner@)));
    while i < v.len()
        invariant
            i <= v@.len(),
            values(out@) == annotations_json(
                owned::<Annotation>(live(rows(v@).take(i as int)), owner@),
            ),
        decreases v@.len() - i,
    {
        let ghost now = rows(v@).take(i as int + 1);
        assert(now.drop_last() =~= rows(v@).take(i as int));
        assert(now.last() == v@[i as int]@);
        if v[i].removed.is_none() {
            let ghost before = live(rows(v@).take(i as int));
            assert(live(now) == before.push(now.last()));
            assert(live(now).drop_last() =~= before);
            if same(v[i].owner(), owner) {
                let one: Json = annotation_to_json(&v[i]);
                out.push(one);
                assert(values(out@) =~= annotations_json(owned::<Annotation>(live(now), owner@)));
            }
        }
        i += 1;
    }
    assert(rows(v@).take(i as int) =~= rows(v@));
    out
}

fn checks_of(v: &Vec<Check>, owner: &str) -> (r: Vec<Json>)
    ensures
        values(r@) == checks_json(owned::<Check>(rows(v@), owner@)),
{
    let mut out: Vec<Json> = Vec::new();
    let mut i: usize = 0;
    assert(values(out@) =~= checks_json(owned::<Check>(rows(v@).take(0), owner@)));
    while i < v.len()
        invariant
            i <= v@.len(),
            values(out@) == checks_json(owned::<Check>(rows(v@).take(i as int), owner@)),
        decreases v@.len() - i,
    {
        let ghost now = rows(v@).take(i as int + 1);
        assert(now.drop_last() =~= rows(v@).take(i as int));
        assert(now.last() == v@[i as int]@);
        if same(v[i].owner(), owner) {
            let one: Json = check_to_json(&v[i]);
            out.push(one);
            assert(values(out@) =~= checks_json(owned::<Check>(now, owner@)));
        }
        i += 1;
    }
    assert(rows(v@).take(i as int) =~= rows(v@));
    out
}

fn measurements_of(v: &Vec<Measurement>, owner: &str) -> (r: Vec<Json>)
    ensures
        values(r@) == measurements_json(owned::<Measurement>(rows(v@), owner@)),
{
    let mut out: Vec<Json> = Vec::new();
    let mut i: usize = 0;
    assert(values(out@) =~= measurements_json(owned::<Measurement>(rows(v@).take(0), owner@)));
    while i < v.len()
        invariant
            i <= v@.len(),
            values(out@) == measurements_json(owned::<Measurement>(rows(v@).take(i as int), owner@)),
        decreases v@.len() - i,
    {
        let ghost now = rows(v@).take(i as int + 1);
        assert(now.drop_last() =~= rows(v@).take(i as int));
        assert(now.last() == v@[i as int]@);
        if same(v[i].owner(), owner) {
            let one: Json = measurement_to_json(&v[i]);
            out.push(one);
            assert(values(out@) =~= measurements_json(owned::<Measurement>(now, owner@)));
        }
        i += 1;
    }
    assert(rows(v@).take(i as int) =~= rows(v@));
    out
}

/// Whether `x` is one of the texts.
pub fn is_in(v: &Vec<String>, x: &str) -> (r: bool)
    ensures
        r == texts(v@).contains(x@),
{
    let mut i: usize = 0;
    while i < v.len()
        invariant
            i <= v@.len(),
            forall|k: int| 0 <= k < i ==> #[trigger] texts(v@)[k] != x@,
        decreases v@.len() - i,
    {
        assert(texts(v@)[i as int] == v@[i as int]@);
        if same(v[i].as_str(), x) {
            return true;
        }
        i += 1;
    }
    false
}

fn edges_of(d: &Vec<Dependency>, id: &str, present: &Vec<String>) -> (r: Vec<String>)
    ensures
        texts(r@) == kept_edges(rows(d@), id@, texts(present@), d@.len()),
{
    let mut out: Vec<String> = Vec::new();
    let mut i: usize = 0;
    assert(texts(out@) =~= Seq::empty());
    while i < d.len()
        invariant
            i <= d@.len(),
            texts(out@) == kept_edges(rows(d@), id@, texts(present@), i as nat),
        decreases d@.len() - i,
    {
        assert(rows(d@)[i as int] == d@[i as int]@);
        if same(d[i].task_id.as_str(), id) && is_in(present, d[i].depends_on.as_str()) {
            let one: String = d[i].depends_on.clone();
            assert(texts(out@.push(one)) =~= texts(out@).push(one@));
            out.push(one);
        }
        i += 1;
    }
    out
}

fn count_dropped_edges(d: &Vec<Dependency>, present: &Vec<String>) -> (r: usize)
    ensures
        r == dropped_edges(rows(d@), texts(present@), d@.len()),
{
    let mut n: usize = 0;
    let mut i: usize = 0;
    while i < d.len()
        invariant
            i <= d@.len(),
            n <= i,
            n == dropped_edges(rows(d@), texts(present@), i as nat),
        decreases d@.len() - i,
    {
        assert(rows(d@)[i as int] == d@[i as int]@);
        if is_in(present, d[i].task_id.as_str()) && !is_in(present, d[i].depends_on.as_str()) {
            n += 1;
        }
        i += 1;
    }
    n
}

fn opt_int_json(n: Option<i64>) -> (r: Json)
    ensures
        r@ == opt_int(n),
{
    match n {
        Some(n) => Json::number(n),
        None => Json::Null,
    }
}

fn opt_priority_json(p: Option<Priority>) -> (r: Json)
    ensures
        r@ == opt_priority(p),
{
    match p {
        Some(p) => Json::string(p.as_str()),
        None => Json::Null,
    }
}

/// One task in a document; edges that leave `present` are trimmed.
fn export_task(e: &Engine, t: &Task, present: &Vec<String>) -> (r: Json)
    ensures
        r@ == task_json(e@, t@, texts(present@)),
{
    let mut f = Fields::new();
    f.put("id", Json::string(t.id.as_str()));
    f.put("short_id", Json::number(t.short_id));
    f.put("title", Json::string(t.title.as_str()));
    let status: Json = match &t.status_raw {
        Some(s) => Json::string(s.as_str()),
        None => Json::string(t.status.as_str()),
    };
    f.put("status", status);
    f.put("priority", opt_priority_json(t.priority));
    f.put("project", Json::opt_string(&t.project));
    f.put("tags", Json::strings(&t.tags));
    f.put("due", Json::opt_string(&t.due));
    f.put("scheduled", Json::opt_string(&t.scheduled));
    f.put("wait", Json::opt_string(&t.wait));
    f.put("estimate", Json::opt_string(&t.estimate));
    f.put("recurrence", Json::opt_string(&t.recurrence));
    f.put("remind", Json::opt_string(&t.remind));
    f.put("budget_tokens", opt_int_json(t.budget_tokens));
    let edges: Vec<String> = edges_of(&e.dependencies, t.id.as_str(), present);
    f.put("depends_on", Json::strings(&edges));
    f.put("checks", Json::Arr(checks_of(&e.checks, t.id.as_str())));
    f.put("annotations", Json::Arr(annotations_of(&e.annotations, t.id.as_str())));
    f.put("created", Json::string(t.created.as_str()));
    f.put("modified", Json::string(t.modified.as_str()));
    f.put("completed", Json::opt_string(&t.completed));
    f.put("_rev", Json::number(t.rev));
    assert(f@ == task_members(e@, t@, texts(present@)));
    if t.tracked_seconds != 0 {
        f.put("tracked_seconds", Json::number(t.tracked_seconds));
    }
    if t.tracked_adjustment_seconds != 0 {
        f.put("tracked_adjustment_seconds", Json::number(t.tracked_adjustment_seconds));
    }
    if t.active_since.is_some() {
        f.put("active_since", Json::opt_string(&t.active_since));
    }
    let tokens: Vec<Json> = measurements_of(&e.measurements, t.id.as_str());
    assert(values(tokens@).len() == tokens@.len());
    if tokens.len() > 0 {
        f.put("tokens", Json::Arr(tokens));
    }
    if t.delivered_annotation_id.is_some() {
        f.put("delivered_annotation_id", Json::opt_string(&t.delivered_annotation_id));
    }
    if t.spawned_from.is_some() {
        f.put("spawned_from", Json::opt_string(&t.spawned_from));
    }
    if t.status_raw.is_some() {
        f.put("status_unrecognized", Json::Bool(true));
    }
    f.done()
}

fn export_docs(d: &Vec<Doc>, need: &Option<Vec<String>>, unscoped: bool) -> (r: (
    Vec<Json>,
    Vec<String>,
))
    ensures
        ({
            let kept = docs_kept(rows(d@), need_view(*need), unscoped, d@.len());
            values(r.0@) == docs_json(kept) && texts(r.1@) == doc_ids(kept) && kept.len()
                <= d@.len()
        }),
{
    let ghost nv = need_view(*need);
    let mut out: Vec<Json> = Vec::new();
    let mut ids: Vec<String> = Vec::new();
    let mut i: usize = 0;
    assert(values(out@) =~= docs_json(docs_kept(rows(d@), nv, unscoped, 0)));
    assert(texts(ids@) =~= doc_ids(docs_kept(rows(d@), nv, unscoped, 0)));
    while i < d.len()
        invariant
            i <= d@.len(),
            nv == need_view(*need),
            values(out@) == docs_json(docs_kept(rows(d@), nv, unscoped, i as nat)),
            texts(ids@) == doc_ids(docs_kept(rows(d@), nv, unscoped, i as nat)),
            docs_kept(rows(d@), nv, unscoped, i as nat).len() <= i,
        decreases d@.len() - i,
    {
        assert(rows(d@)[i as int] == d@[i as int]@);
        let keep: bool = match need {
            None => true,
            Some(set) => match &d[i].project {
                Some(p) => is_in(set, p.as_str()),
                None => unscoped,
            },
        };
        if keep {
            let one: Json = doc_to_json(&d[i]);
            out.push(one);
            let id: String = d[i].id.clone();
            ids.push(id);
            assert(values(out@) =~= docs_json(
                docs_kept(rows(d@), nv, unscoped, i as nat + 1),
            ));
            assert(texts(ids@) =~= doc_ids(docs_kept(rows(d@), nv, unscoped, i as nat + 1)));
        }
        i += 1;
    }
    (out, ids)
}

/// The projects a document needs.
pub open spec fn need_view(need: Option<Vec<String>>) -> Option<Seq<Seq<char>>> {
    match need {
        Some(v) => Some(texts(v@)),
        None => None,
    }
}

fn export_projects(p: &Vec<Project>, need: &Option<Vec<String>>) -> (r: (
    Vec<Json>,
    Vec<String>,
    Vec<String>,
))
    ensures
        ({
            let kept = projects_kept(rows(p@), need_view(*need), p@.len());
            values(r.0@) == projects_json(kept) && texts(r.1@) == project_ids(kept) && texts(r.2@)
                == project_names(kept) && kept.len() <= p@.len()
        }),
{
    let ghost nv = need_view(*need);
    let mut out: Vec<Json> = Vec::new();
    let mut ids: Vec<String> = Vec::new();
    let mut names: Vec<String> = Vec::new();
    let mut i: usize = 0;
    assert(values(out@) =~= projects_json(projects_kept(rows(p@), nv, 0)));
    assert(texts(ids@) =~= project_ids(projects_kept(rows(p@), nv, 0)));
    assert(texts(names@) =~= project_names(projects_kept(rows(p@), nv, 0)));
    while i < p.len()
        invariant
            i <= p@.len(),
            nv == need_view(*need),
            values(out@) == projects_json(projects_kept(rows(p@), nv, i as nat)),
            texts(ids@) == project_ids(projects_kept(rows(p@), nv, i as nat)),
            texts(names@) == project_names(projects_kept(rows(p@), nv, i as nat)),
            projects_kept(rows(p@), nv, i as nat).len() <= i,
        decreases p@.len() - i,
    {
        assert(rows(p@)[i as int] == p@[i as int]@);
        let keep: bool = match need {
            None => true,
            Some(set) => is_in(set, p[i].name.as_str()),
        };
        if keep {
            let one: Json = project_to_json(&p[i]);
            out.push(one);
            let id: String = p[i].id.clone();
            ids.push(id);
            let name: String = p[i].name.clone();
            names.push(name);
            let ghost kept = projects_kept(rows(p@), nv, i as nat + 1);
            assert(values(out@) =~= projects_json(kept));
            assert(texts(ids@) =~= project_ids(kept));
            assert(texts(names@) =~= project_names(kept));
        }
        i += 1;
    }
    (out, ids, names)
}

fn is_import_mark(x: &Event) -> (r: bool)
    ensures
        r == import_mark(x@),
{
    if same(x.op.as_str(), "import") {
        return true;
    }
    if !same(x.op.as_str(), "memory.add") {
        return false;
    }
    let payload: Json = payload_of(x);
    match payload.get("via") {
        Some(v) => match v.as_str() {
            Some(s) => same(s, "store.import"),
            None => false,
        },
        None => false,
    }
}

fn export_events(
    e: &Vec<Event>,
    tasks: &Vec<String>,
    docs: &Vec<String>,
    projects: &Vec<String>,
) -> (r: (Vec<Json>, usize))
    ensures
        values(r.0@) == events_json(
            events_kept(rows(e@), texts(tasks@), texts(docs@), texts(projects@), e@.len()),
        ),
        r.1 == events_dropped(
            rows(e@),
            texts(tasks@),
            texts(docs@),
            texts(projects@),
            e@.len(),
        ),
{
    let ghost tv = texts(tasks@);
    let ghost dv = texts(docs@);
    let ghost pv = texts(projects@);
    let mut out: Vec<Json> = Vec::new();
    let mut dropped: usize = 0;
    let mut i: usize = 0;
    assert(values(out@) =~= events_json(events_kept(rows(e@), tv, dv, pv, 0)));
    while i < e.len()
        invariant
            i <= e@.len(),
            tv == texts(tasks@),
            dv == texts(docs@),
            pv == texts(projects@),
            values(out@) == events_json(events_kept(rows(e@), tv, dv, pv, i as nat)),
            dropped == events_dropped(rows(e@), tv, dv, pv, i as nat),
            dropped <= i,
        decreases e@.len() - i,
    {
        assert(rows(e@)[i as int] == e@[i as int]@);
        let keep: bool = match Entity::parse(e[i].entity.as_str()) {
            Some(Entity::Task) => is_in(tasks, e[i].entity_id.as_str()),
            Some(Entity::Doc) => is_in(docs, e[i].entity_id.as_str()),
            Some(Entity::Project) => is_in(projects, e[i].entity_id.as_str()),
            Some(Entity::Link) => true,
            None => true,
        };
        if !keep {
            dropped += 1;
        } else if !is_import_mark(&e[i]) {
            let one: Json = event_to_json(&e[i]);
            out.push(one);
            assert(values(out@) =~= events_json(events_kept(rows(e@), tv, dv, pv, i as nat + 1)));
        }
        i += 1;
    }
    (out, dropped)
}

/// Refuses a filter that names a project which no live project has.
fn validate_filter_projects(e: &Engine, names: &Vec<String>) -> (r: Result<(), ApiError>)
    ensures
        match first_unknown(e@.projects, texts(names@), 0) {
            None => r is Ok,
            Some(name) => r is Err && r->Err_0@ == no_project(name),
        },
{
    let mut i: usize = 0;
    while i < names.len()
        invariant
            i <= names@.len(),
            first_unknown(e@.projects, texts(names@), 0) == first_unknown(
                e@.projects,
                texts(names@),
                i as int,
            ),
        decreases names@.len() - i,
    {
        assert(texts(names@)[i as int] == names@[i as int]@);
        let name: &str = names[i].as_str();
        let live: bool = match find_row(&e.projects, name) {
            Some(k) => !e.projects[k].archived,
            None => false,
        };
        if !live {
            let mut m: String = "no project named ".to_owned();
            m.append(debug_text(name).as_str());
            let mut f = Fields::new();
            f.put("project", Json::string(name));
            return Err(ApiError::not_found(m, Some(f.done())));
        }
        i += 1;
    }
    Ok(())
}

fn as_slice_opt<'a>(s: &'a Option<String>) -> (r: Option<&'a str>)
    ensures
        crate::expr::opt_str_view(r) == crate::value::opt_view(*s),
{
    match s {
        Some(s) => Some(s.as_str()),
        None => None,
    }
}

fn select(e: &Engine, f: &Filter) -> (r: Vec<usize>)
    ensures
        forall|k: int| 0 <= k < r@.len() ==> #[trigger] r@[k] < e.tasks@.len(),
        selected(e@, f@, e.tasks@.len()) == r@.map_values(|i: usize| e@.tasks[i as int]),
{
    let mut out: Vec<usize> = Vec::new();
    let mut i: usize = 0;
    assert(selected(e@, f@, 0) =~= out@.map_values(|i: usize| e@.tasks[i as int]));
    while i < e.tasks.len()
        invariant
            i <= e.tasks@.len(),
            forall|k: int| 0 <= k < out@.len() ==> #[trigger] out@[k] < e.tasks@.len(),
            selected(e@, f@, i as nat) == out@.map_values(|i: usize| e@.tasks[i as int]),
        decreases e.tasks@.len() - i,
    {
        assert(e@.tasks[i as int] == e.tasks@[i as int]@);
        let t: &Task = &e.tasks[i];
        let ctx = MatchCtx {
            status: t.status,
            project: as_slice_opt(&t.project),
            tags: t.tags.as_slice(),
            due: as_slice_opt(&t.due),
            completed: as_slice_opt(&t.completed),
            blocked: e.blocked(t),
        };
        assert(ctx@ == ctx_of(e@, t@));
        if f.matches(&ctx) {
            out.push(i);
            assert(selected(e@, f@, i as nat + 1) =~= out@.map_values(
                |i: usize| e@.tasks[i as int],
            ));
        }
        i += 1;
    }
    out
}

impl Engine {
    /// Exports the tasks that `filter` selects, with what they need, as one
    /// document.
    pub fn store_export(&self, p: &Json, cal: &Calendar) -> (r: Result<Json, ApiError>)
        ensures
            told_json(r) == exported(self@, p@, cal@),
    {
        let text: String = match opt_str(p, "filter") {
            Err(e) => {
                return Err(e);
            },
            Ok(Some(s)) => s,
            Ok(None) => String::new(),
        };
        let filter: Filter = match Filter::parse(text.as_str(), cal) {
            Ok(f) => f,
            Err(m) => {
                return Err(ApiError::bad_request(m));
            },
        };
        let named: Vec<String> = filter.project_names();
        match validate_filter_projects(self, &named) {
            Ok(_) => {},
            Err(e) => {
                return Err(e);
            },
        }
        let unscoped: bool = match opt_bool(p, "include_unscoped") {
            Ok(Some(b)) => b,
            Ok(None) => false,
            Err(e) => {
                return Err(e);
            },
        };
        let unfiltered: bool = filter.is_unfiltered();
        if unscoped && unfiltered {
            return Err(
                ApiError::bad_request(
                    "`include_unscoped` widens a filtered export's docs/projects to ones that carry no project — an unfiltered export already carries all of them, so it needs a filter to widen from".to_owned(),
                ),
            );
        }
        let chosen: Vec<usize> = select(self, &filter);
        let ghost s = selected(self@, filter@, self@.tasks.len());
        let mut present: Vec<String> = Vec::new();
        let mut needed_list: Vec<String> = named;
        let mut k: usize = 0;
        assert(texts(present@) =~= ids_of(s).take(0));
        while k < chosen.len()
            invariant
                k <= chosen@.len(),
                s == selected(self@, filter@, self.tasks@.len()),
                s == chosen@.map_values(|i: usize| self@.tasks[i as int]),
                forall|j: int| 0 <= j < chosen@.len() ==> #[trigger] chosen@[j] < self.tasks@.len(),
                texts(present@) == ids_of(s).take(k as int),
                texts(needed_list@) == needed_by(s, projects_named(filter@), k as nat),
            decreases chosen@.len() - k,
        {
            let t: &Task = &self.tasks[chosen[k]];
            assert(s[k as int] == t@);
            let id: String = t.id.clone();
            present.push(id);
            assert(texts(present@) =~= ids_of(s).take(k as int + 1));
            if let Some(name) = &t.project {
                let name: String = name.clone();
                assert(texts(needed_list@.push(name)) =~= texts(needed_list@).push(name@));
                needed_list.push(name);
            }
            k += 1;
        }
        assert(texts(present@) =~= ids_of(s));
        let mut out: Vec<Json> = Vec::new();
        let mut j: usize = 0;
        assert(values(out@) =~= Seq::empty());
        while j < chosen.len()
            invariant
                j <= chosen@.len(),
                s == chosen@.map_values(|i: usize| self@.tasks[i as int]),
                forall|j: int| 0 <= j < chosen@.len() ==> #[trigger] chosen@[j] < self.tasks@.len(),
                texts(present@) == ids_of(s),
                values(out@) == tasks_json(self@, s, j as nat),
            decreases chosen@.len() - j,
        {
            let t: &Task = &self.tasks[chosen[j]];
            assert(s[j as int] == t@);
            out.push(export_task(self, t, &present));
            j += 1;
        }
        let need: Option<Vec<String>> = if unfiltered {
            None
        } else {
            Some(needed_list)
        };
        assert(need_view(need) == needed(filter@, s));
        let (docs, doc_id_list) = export_docs(&self.docs, &need, unscoped);
        let (projects, project_id_list, project_name_list) = export_projects(&self.projects, &need);
        let (events, dropped_events) = export_events(
            &self.events,
            &present,
            &doc_id_list,
            &project_id_list,
        );
        let dropped: usize = count_dropped_edges(&self.dependencies, &present);
        let default_project: Json = match &self.default_project {
            None => Json::Null,
            Some(d) => if unfiltered || is_in(&project_name_list, d.as_str()) {
                Json::string(d.as_str())
            } else {
                Json::Null
            },
        };
        proof {
            assert(values(docs@).len() == docs@.len());
            assert(values(projects@).len() == projects@.len());
        }
        let dropped_projects: usize = self.projects.len() - projects.len();
        let dropped_docs: usize = self.docs.len() - docs.len();
        let mut f = Fields::new();
        f.put("tasks", Json::Arr(out));
        f.put("dropped_dependencies", Json::Int(dropped as i128));
        f.put("projects", Json::Arr(projects));
        f.put("dropped_projects", Json::Int(dropped_projects as i128));
        f.put("docs", Json::Arr(docs));
        f.put("dropped_docs", Json::Int(dropped_docs as i128));
        f.put("events", Json::Arr(events));
        f.put("dropped_events", Json::Int(dropped_events as i128));
        f.put("default_project", default_project);
        assert(f@ =~= document(self@, filter@, unscoped)->Obj_0);
        Ok(f.done())
    }
}

} // verus!
