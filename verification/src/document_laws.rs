//! What a document of the store carries, by the request it answers: which tasks,
//! memory documents, projects and events are in it, and what it says of the rest.

use crate::engine::EngineV;
use crate::engine::task_by_id;
use crate::error::ErrorCode;
use crate::error::ErrorV;
use crate::export::ctx_of;
use crate::export::default_kept;
use crate::export::doc_ids;
use crate::export::doc_json;
use crate::export::doc_kept;
use crate::export::docs_json;
use crate::export::docs_kept;
use crate::export::document;
use crate::export::dropped_edges;
use crate::export::event_in_scope;
use crate::export::event_json;
use crate::export::events_dropped;
use crate::export::events_json;
use crate::export::events_kept;
use crate::export::exported;
use crate::export::first_unknown;
use crate::export::ids_of;
use crate::export::import_mark;
use crate::export::kept_edges;
use crate::export::live_project;
use crate::export::needed;
use crate::export::needed_by;
use crate::export::payload_said;
use crate::export::project_ids;
use crate::export::project_json;
use crate::export::project_kept;
use crate::export::project_names;
use crate::export::projects_json;
use crate::export::projects_kept;
use crate::export::selected;
use crate::export::task_json;
use crate::export::tasks_json;
use crate::expr::CtxV;
use crate::expr::ExprV;
use crate::expr::holds;
use crate::expr::Pred;
use crate::expr::PredV;
use crate::expr::projects_in;
use crate::expr::projects_named;
use crate::filter::parsed;
use crate::filter::Spellings;
use crate::json::JsonV;
use crate::merge_laws::lists_text;
use crate::restore_rows::doc_reads;
use crate::restore_rows::event_reads;
use crate::restore_rows::project_reads;
use crate::restore_rows::task_reads;
use crate::rows::DependencyV;
use crate::rows::Doc;
use crate::rows::DocV;
use crate::rows::Event;
use crate::rows::EventV;
use crate::rows::Project;
use crate::rows::ProjectV;
use crate::rows::TaskV;
use crate::tables::find;
use crate::tables::Keyed;
use crate::tables::ordered;
use crate::tables::text_lt;
use crate::tables::text_lt_irreflexive;
use crate::types::Status;
use crate::value::opt_text;
use crate::value::str_values;
use vstd::prelude::*;

verus! {

broadcast use {vstd::string::group_string_axioms, crate::value::lookup_push};

/// The filter of a request, as text.
pub open spec fn filter_text(p: JsonV) -> Seq<char> {
    match p.get("filter"@) {
        Some(JsonV::Str(s)) => s,
        _ => Seq::empty(),
    }
}

/// A request was answered with the document `d`, for the filter `f`.
pub open spec fn answered(e: EngineV, p: JsonV, cal: Spellings, f: ExprV, d: JsonV) -> bool {
    &&& exported(e, p, cal) == Ok::<JsonV, ErrorV>(d)
    &&& parsed(filter_text(p), cal) == Ok::<ExprV, Seq<char>>(f)
}

/// The rows of a document under `key`.
pub open spec fn rows_of(d: JsonV, key: Seq<char>) -> Seq<JsonV> {
    d.get(key)->0->Arr_0
}

/// Whether a document carries the row with the id `id` under `key`.
pub open spec fn carries(d: JsonV, key: Seq<char>, id: Seq<char>) -> bool {
    d.get(key) is Some && d.get(key)->0 is Arr && exists|j: int|
        0 <= j < rows_of(d, key).len() && (#[trigger] rows_of(d, key)[j]).get("id"@) == Some(
            JsonV::Str(id),
        )
}

/// How many of the numbers below `n` have a property.
pub open spec fn how_many(n: nat, keep: spec_fn(int) -> bool) -> nat
    decreases n,
{
    if n == 0 {
        0
    } else {
        how_many((n - 1) as nat, keep) + if keep(n - 1) {
            1nat
        } else {
            0nat
        }
    }
}

/// The numbers below `n` that have a property, in order.
spec fn picked(n: nat, keep: spec_fn(int) -> bool) -> Seq<int>
    decreases n,
{
    if n == 0 {
        Seq::empty()
    } else if keep(n - 1) {
        picked((n - 1) as nat, keep).push(n - 1)
    } else {
        picked((n - 1) as nat, keep)
    }
}

proof fn picked_facts(n: nat, keep: spec_fn(int) -> bool)
    ensures
        picked(n, keep).len() == how_many(n, keep),
        how_many(n, keep) <= n,
        forall|i: int|
            0 <= i < picked(n, keep).len() ==> 0 <= #[trigger] picked(n, keep)[i] < n && keep(
                picked(n, keep)[i],
            ),
        forall|i: int, j: int|
            0 <= i < j < picked(n, keep).len() ==> #[trigger] picked(n, keep)[i]
                < #[trigger] picked(n, keep)[j],
        forall|k: int| 0 <= k < n && #[trigger] keep(k) ==> picked(n, keep).contains(k),
    decreases n,
{
    if n > 0 {
        picked_facts((n - 1) as nat, keep);
        let b = picked((n - 1) as nat, keep);
        let r = picked(n, keep);
        assert forall|k: int| 0 <= k < n && #[trigger] keep(k) implies r.contains(k) by {
            if k < n - 1 {
                let i = choose|i: int| 0 <= i < b.len() && b[i] == k;
                assert(r[i] == k);
            } else {
                assert(r[b.len() as int] == k);
            }
        }
    }
}

/// Whether some leaf of a filter names a project.
pub open spec fn mentions(e: ExprV, name: Seq<char>) -> bool
    decreases e,
{
    match e {
        ExprV::And(v) => exists|i: int| 0 <= i < v.len() && mentions(#[trigger] v[i], name),
        ExprV::Or(v) => exists|i: int| 0 <= i < v.len() && mentions(#[trigger] v[i], name),
        ExprV::Pred(p) => p == PredV::Project(name),
    }
}

proof fn mentioned_in(v: Seq<ExprV>, n: nat, name: Seq<char>)
    requires
        n <= v.len(),
    ensures
        projects_in(v, n).contains(name) <==> exists|i: int|
            0 <= i < n && mentions(#[trigger] v[i], name),
    decreases v, n,
{
    if n > 0 {
        mentioned_in(v, (n - 1) as nat, name);
        let a = projects_in(v, (n - 1) as nat);
        let b = projects_named(v[n - 1]);
        mentioned_is_named(v[n - 1], name);
        assert(projects_in(v, n) == a + b);
        if a.contains(name) {
            let k = choose|k: int| 0 <= k < a.len() && a[k] == name;
            assert((a + b)[k] == name);
        }
        if b.contains(name) {
            let k = choose|k: int| 0 <= k < b.len() && b[k] == name;
            assert((a + b)[a.len() + k] == name);
        }
        if (a + b).contains(name) {
            let k = choose|k: int| 0 <= k < (a + b).len() && (a + b)[k] == name;
            if k < a.len() {
                assert(a[k] == name);
            } else {
                assert(b[k - a.len()] == name);
            }
        }
    }
}

proof fn mentioned_is_named(e: ExprV, name: Seq<char>)
    ensures
        projects_named(e).contains(name) <==> mentions(e, name),
    decreases e,
{
    match e {
        ExprV::And(v) => {
            mentioned_in(v, v.len(), name);
        },
        ExprV::Or(v) => {
            mentioned_in(v, v.len(), name);
        },
        ExprV::Pred(PredV::Project(p)) => {
            assert(seq![p][0] == p);
        },
        ExprV::Pred(_) => {},
    }
}

/// What the members of a document are.
#[verifier::rlimit(40)]
proof fn members_of_document(e: EngineV, f: ExprV, unscoped: bool)
    ensures
        ({
            let d = document(e, f, unscoped);
            let s = selected(e, f, e.tasks.len());
            let need = needed(f, s);
            let docs = docs_kept(e.docs, need, unscoped, e.docs.len());
            let projects = projects_kept(e.projects, need, e.projects.len());
            let n = e.events.len();
            &&& d.get("tasks"@) == Some(JsonV::Arr(tasks_json(e, s, s.len())))
            &&& d.get("dropped_dependencies"@) == Some(
                JsonV::Int(dropped_edges(e.dependencies, ids_of(s), e.dependencies.len()) as int),
            )
            &&& d.get("projects"@) == Some(JsonV::Arr(projects_json(projects)))
            &&& d.get("dropped_projects"@) == Some(
                JsonV::Int(e.projects.len() - projects.len()),
            )
            &&& d.get("docs"@) == Some(JsonV::Arr(docs_json(docs)))
            &&& d.get("dropped_docs"@) == Some(JsonV::Int(e.docs.len() - docs.len()))
            &&& d.get("events"@) == Some(
                JsonV::Arr(
                    events_json(
                        events_kept(e.events, ids_of(s), doc_ids(docs), project_ids(projects), n),
                    ),
                ),
            )
            &&& d.get("dropped_events"@) == Some(
                JsonV::Int(
                    events_dropped(
                        e.events,
                        ids_of(s),
                        doc_ids(docs),
                        project_ids(projects),
                        n,
                    ) as int,
                ),
            )
            &&& d.get("default_project"@) == Some(opt_text(default_kept(e, need, projects)))
        }),
{
    reveal_strlit("tasks");
    reveal_strlit("dropped_dependencies");
    reveal_strlit("projects");
    reveal_strlit("dropped_projects");
    reveal_strlit("docs");
    reveal_strlit("dropped_docs");
    reveal_strlit("events");
    reveal_strlit("dropped_events");
    reveal_strlit("default_project");
    assert("tasks"@.len() == 5 && "tasks"@[0] == 't');
    assert("dropped_dependencies"@.len() == 20);
    assert("projects"@.len() == 8);
    assert("dropped_projects"@.len() == 16);
    assert("docs"@.len() == 4);
    assert("dropped_docs"@.len() == 12);
    assert("events"@.len() == 6);
    assert("dropped_events"@.len() == 14);
    assert("default_project"@.len() == 15);
    let m = document(e, f, unscoped)->Obj_0;
    assert(m =~= Seq::<(Seq<char>, JsonV)>::empty().push(m[0]).push(m[1]).push(m[2]).push(
        m[3],
    ).push(m[4]).push(m[5]).push(m[6]).push(m[7]).push(m[8]));
}

proof fn tasks_are_written(e: EngineV, s: Seq<TaskV>, n: nat)
    requires
        n <= s.len(),
    ensures
        tasks_json(e, s, n).len() == n,
        forall|i: int|
            0 <= i < n ==> (#[trigger] tasks_json(e, s, n)[i]) == task_json(e, s[i], ids_of(s)),
    decreases n,
{
    if n > 0 {
        tasks_are_written(e, s, (n - 1) as nat);
    }
}

proof fn selection_is_picked(e: EngineV, f: ExprV, n: nat)
    requires
        n <= e.tasks.len(),
    ensures
        ({
            let keep = |k: int| holds(f, ctx_of(e, e.tasks[k]));
            &&& selected(e, f, n).len() == picked(n, keep).len()
            &&& forall|i: int|
                0 <= i < selected(e, f, n).len() ==> #[trigger] selected(e, f, n)[i]
                    == e.tasks[picked(n, keep)[i]]
        }),
    decreases n,
{
    if n > 0 {
        selection_is_picked(e, f, (n - 1) as nat);
    }
}

proof fn docs_are_picked(
    d: Seq<DocV>,
    need: Option<Seq<Seq<char>>>,
    unscoped: bool,
    n: nat,
)
    requires
        n <= d.len(),
    ensures
        ({
            let keep = |k: int| doc_kept(d[k], need, unscoped);
            &&& docs_kept(d, need, unscoped, n).len() == picked(n, keep).len()
            &&& forall|i: int|
                0 <= i < docs_kept(d, need, unscoped, n).len() ==> #[trigger] docs_kept(
                    d,
                    need,
                    unscoped,
                    n,
                )[i] == d[picked(n, keep)[i]]
        }),
    decreases n,
{
    if n > 0 {
        docs_are_picked(d, need, unscoped, (n - 1) as nat);
    }
}

proof fn projects_are_picked(p: Seq<ProjectV>, need: Option<Seq<Seq<char>>>, n: nat)
    requires
        n <= p.len(),
    ensures
        ({
            let keep = |k: int| project_kept(p[k], need);
            &&& projects_kept(p, need, n).len() == picked(n, keep).len()
            &&& forall|i: int|
                0 <= i < projects_kept(p, need, n).len() ==> #[trigger] projects_kept(
                    p,
                    need,
                    n,
                )[i] == p[picked(n, keep)[i]]
        }),
    decreases n,
{
    if n > 0 {
        projects_are_picked(p, need, (n - 1) as nat);
    }
}

proof fn events_are_picked(
    e: Seq<EventV>,
    tasks: Seq<Seq<char>>,
    docs: Seq<Seq<char>>,
    projects: Seq<Seq<char>>,
    n: nat,
)
    requires
        n <= e.len(),
    ensures
        ({
            let keep = |k: int|
                event_in_scope(e[k], tasks, docs, projects) && !import_mark(e[k]);
            let out = |k: int| !event_in_scope(e[k], tasks, docs, projects);
            let kept = events_kept(e, tasks, docs, projects, n);
            &&& kept.len() == picked(n, keep).len()
            &&& forall|i: int| 0 <= i < kept.len() ==> #[trigger] kept[i] == e[picked(n, keep)[i]]
            &&& events_dropped(e, tasks, docs, projects, n) == how_many(n, out)
        }),
    decreases n,
{
    if n > 0 {
        events_are_picked(e, tasks, docs, projects, (n - 1) as nat);
    }
}

proof fn answered_is_document(e: EngineV, p: JsonV, cal: Spellings, f: ExprV, d: JsonV)
    requires
        answered(e, p, cal, f, d),
    ensures
        d == document(e, f, p.get("include_unscoped"@) == Some(JsonV::Bool(true))),
        p.get("include_unscoped"@) == Some(JsonV::Bool(true)) ==> f != ExprV::Pred(PredV::Always),
{
}

/// What a filter is asked of a task of the store: its own fields, and whether it
/// is open and waits for a task that is open.
pub open spec fn asked_of(e: EngineV, t: TaskV) -> CtxV {
    CtxV {
        status: t.status,
        project: t.project,
        tags: t.tags,
        due: t.due,
        completed: t.completed,
        blocked: t.status != Status::Done && t.status != Status::Cancelled && exists|i: int|
            0 <= i < e.dependencies.len() && (#[trigger] e.dependencies[i]).task_id == t.id && {
                let d = task_by_id(e.tasks, e.dependencies[i].depends_on);
                d is Some && d->0.status != Status::Done && d->0.status != Status::Cancelled
            },
    }
}

/// The tasks of a document, in the store's terms.
proof fn tasks_in_document(e: EngineV, p: JsonV, cal: Spellings, f: ExprV, d: JsonV)
    requires
        e.wf(),
        answered(e, p, cal, f, d),
    ensures
        ({
            let s = selected(e, f, e.tasks.len());
            let keep = |k: int| holds(f, ctx_of(e, e.tasks[k]));
            let at = picked(e.tasks.len(), keep);
            let v = rows_of(d, "tasks"@);
            &&& d.get("tasks"@) == Some(JsonV::Arr(v))
            &&& v.len() == s.len()
            &&& s.len() == at.len()
            &&& forall|i: int|
                0 <= i < v.len() ==> s[i] == e.tasks[at[i]] && (#[trigger] v[i]).get("id"@) == Some(
                    JsonV::Str(e.tasks[at[i]].id),
                ) && v[i] == task_json(e, s[i], ids_of(s))
            &&& forall|k: int|
                0 <= k < e.tasks.len() ==> (carries(d, "tasks"@, (#[trigger] e.tasks[k]).id)
                    <==> keep(k)) && (ids_of(s).contains(e.tasks[k].id) <==> keep(k))
        }),
{
    let u = p.get("include_unscoped"@) == Some(JsonV::Bool(true));
    answered_is_document(e, p, cal, f, d);
    members_of_document(e, f, u);
    let s = selected(e, f, e.tasks.len());
    let keep = |k: int| holds(f, ctx_of(e, e.tasks[k]));
    let at = picked(e.tasks.len(), keep);
    selection_is_picked(e, f, e.tasks.len());
    picked_facts(e.tasks.len(), keep);
    tasks_are_written(e, s, s.len());
    let v = rows_of(d, "tasks"@);
    assert forall|i: int| 0 <= i < v.len() implies s[i] == e.tasks[at[i]] && (
    #[trigger] v[i]).get("id"@) == Some(JsonV::Str(e.tasks[at[i]].id)) && v[i] == task_json(
        e,
        s[i],
        ids_of(s),
    ) by {
        assert(v[i] == tasks_json(e, s, s.len())[i]);
        task_reads(e, s[i], ids_of(s));
    }
    assert forall|k: int| 0 <= k < e.tasks.len() implies (carries(
        d,
        "tasks"@,
        (#[trigger] e.tasks[k]).id,
    ) <==> keep(k)) && (ids_of(s).contains(e.tasks[k].id) <==> keep(k)) by {
        let id = e.tasks[k].id;
        if keep(k) {
            assert(at.contains(k));
            let i = choose|i: int| 0 <= i < at.len() && at[i] == k;
            assert(v[i].get("id"@) == Some(JsonV::Str(id)));
            assert(ids_of(s)[i] == id);
        }
        if carries(d, "tasks"@, id) {
            let j = choose|j: int|
                0 <= j < rows_of(d, "tasks"@).len() && (#[trigger] rows_of(d, "tasks"@)[j]).get(
                    "id"@,
                ) == Some(JsonV::Str(id));
            assert(v[j].get("id"@) == Some(JsonV::Str(e.tasks[at[j]].id)));
            ids_tell(e, at[j], k);
        }
        if ids_of(s).contains(id) {
            let j = choose|j: int| 0 <= j < ids_of(s).len() && ids_of(s)[j] == id;
            assert(s[j] == e.tasks[at[j]]) by {
                assert(v[j] == v[j]);
            }
            ids_tell(e, at[j], k);
        }
    }
}

proof fn ids_tell(e: EngineV, a: int, b: int)
    requires
        e.wf(),
        0 <= a < e.tasks.len(),
        0 <= b < e.tasks.len(),
        e.tasks[a].id == e.tasks[b].id,
    ensures
        a == b,
{
    if a < b {
        assert(e.tasks[a].id != e.tasks[b].id);
    } else if b < a {
        assert(e.tasks[b].id != e.tasks[a].id);
    }
}

/// A document carries exactly the tasks that its filter selects, each once and
/// in the order of the store.
pub proof fn documents_carry_exactly_the_selected_tasks(
    e: EngineV,
    p: JsonV,
    cal: Spellings,
    f: ExprV,
    d: JsonV,
)
    requires
        e.wf(),
        answered(e, p, cal, f, d),
    ensures
        forall|k: int|
            0 <= k < e.tasks.len() ==> (carries(d, "tasks"@, (#[trigger] e.tasks[k]).id)
                <==> holds(f, asked_of(e, e.tasks[k]))),
        rows_of(d, "tasks"@).len() == how_many(
            e.tasks.len(),
            |k: int| holds(f, asked_of(e, e.tasks[k])),
        ),
        forall|i: int, j: int, a: int, b: int|
            0 <= i < j < rows_of(d, "tasks"@).len() && 0 <= a < e.tasks.len() && 0 <= b
                < e.tasks.len() && (#[trigger] rows_of(d, "tasks"@)[i]).get("id"@) == Some(
                JsonV::Str((#[trigger] e.tasks[a]).id),
            ) && (#[trigger] rows_of(d, "tasks"@)[j]).get("id"@) == Some(
                JsonV::Str((#[trigger] e.tasks[b]).id),
            ) ==> a < b,
{
    tasks_in_document(e, p, cal, f, d);
    let keep = |k: int| holds(f, ctx_of(e, e.tasks[k]));
    let asked = |k: int| holds(f, asked_of(e, e.tasks[k]));
    assert forall|k: int| 0 <= k < e.tasks.len() implies #[trigger] keep(k) == asked(k) by {
        assert(ctx_of(e, e.tasks[k]) == asked_of(e, e.tasks[k]));
    }
    same_count(e.tasks.len(), keep, asked);
    picked_facts(e.tasks.len(), keep);
    let at = picked(e.tasks.len(), keep);
    assert forall|i: int, j: int, a: int, b: int|
        0 <= i < j < rows_of(d, "tasks"@).len() && 0 <= a < e.tasks.len() && 0 <= b
            < e.tasks.len() && (#[trigger] rows_of(d, "tasks"@)[i]).get("id"@) == Some(
            JsonV::Str((#[trigger] e.tasks[a]).id),
        ) && (#[trigger] rows_of(d, "tasks"@)[j]).get("id"@) == Some(
            JsonV::Str((#[trigger] e.tasks[b]).id),
        ) implies a < b by {
        ids_tell(e, at[i], a);
        ids_tell(e, at[j], b);
        assert(at[i] < at[j]);
    }
}

proof fn same_count(n: nat, f: spec_fn(int) -> bool, g: spec_fn(int) -> bool)
    requires
        forall|k: int| 0 <= k < n ==> #[trigger] f(k) == g(k),
    ensures
        how_many(n, f) == how_many(n, g),
    decreases n,
{
    if n > 0 {
        same_count((n - 1) as nat, f, g);
        assert(f(n - 1) == g(n - 1));
    }
}

/// Whether a document that is narrowed needs a project: its filter names it, or
/// a task in the document belongs to it.
pub open spec fn project_needed(e: EngineV, f: ExprV, d: JsonV, name: Seq<char>) -> bool {
    mentions(f, name) || exists|k: int|
        0 <= k < e.tasks.len() && carries(d, "tasks"@, (#[trigger] e.tasks[k]).id)
            && e.tasks[k].project == Some(name)
}

proof fn needed_by_tasks(s: Seq<TaskV>, named: Seq<Seq<char>>, n: nat, name: Seq<char>)
    requires
        n <= s.len(),
    ensures
        needed_by(s, named, n).contains(name) <==> named.contains(name) || exists|i: int|
            0 <= i < n && (#[trigger] s[i]).project == Some(name),
    decreases n,
{
    if n > 0 {
        needed_by_tasks(s, named, (n - 1) as nat, name);
        let b = needed_by(s, named, (n - 1) as nat);
        let r = needed_by(s, named, n);
        if s[n - 1].project is Some {
            assert(r[b.len() as int] == s[n - 1].project->0);
            if b.contains(name) {
                let k = choose|k: int| 0 <= k < b.len() && b[k] == name;
                assert(r[k] == name);
            }
            if r.contains(name) {
                let k = choose|k: int| 0 <= k < r.len() && r[k] == name;
                if k < b.len() {
                    assert(b[k] == name);
                } else {
                    assert(s[n - 1].project == Some(name));
                }
            }
        }
    }
}

proof fn needed_is_needed(
    e: EngineV,
    p: JsonV,
    cal: Spellings,
    f: ExprV,
    d: JsonV,
    name: Seq<char>,
)
    requires
        e.wf(),
        answered(e, p, cal, f, d),
        f != ExprV::Pred(PredV::Always),
    ensures
        needed(f, selected(e, f, e.tasks.len())) is Some,
        needed(f, selected(e, f, e.tasks.len()))->0.contains(name) <==> project_needed(
            e,
            f,
            d,
            name,
        ),
{
    tasks_in_document(e, p, cal, f, d);
    let s = selected(e, f, e.tasks.len());
    let keep = |k: int| holds(f, ctx_of(e, e.tasks[k]));
    let at = picked(e.tasks.len(), keep);
    picked_facts(e.tasks.len(), keep);
    needed_by_tasks(s, projects_named(f), s.len(), name);
    mentioned_is_named(f, name);
    let v = rows_of(d, "tasks"@);
    if exists|i: int| 0 <= i < s.len() && (#[trigger] s[i]).project == Some(name) {
        let i = choose|i: int| 0 <= i < s.len() && (#[trigger] s[i]).project == Some(name);
        assert(v[i] == v[i]);
        assert(keep(at[i]));
        assert(carries(d, "tasks"@, e.tasks[at[i]].id));
    }
    if exists|k: int|
        0 <= k < e.tasks.len() && carries(d, "tasks"@, (#[trigger] e.tasks[k]).id)
            && e.tasks[k].project == Some(name) {
        let k = choose|k: int|
            0 <= k < e.tasks.len() && carries(d, "tasks"@, (#[trigger] e.tasks[k]).id)
                && e.tasks[k].project == Some(name);
        assert(keep(k));
        assert(at.contains(k));
        let i = choose|i: int| 0 <= i < at.len() && at[i] == k;
        assert(v[i] == v[i]);
        assert(s[i].project == Some(name));
    }
}

proof fn docs_in_document(e: EngineV, p: JsonV, cal: Spellings, f: ExprV, d: JsonV)
    requires
        e.wf(),
        answered(e, p, cal, f, d),
    ensures
        ({
            let need = needed(f, selected(e, f, e.tasks.len()));
            let u = p.get("include_unscoped"@) == Some(JsonV::Bool(true));
            let kept = docs_kept(e.docs, need, u, e.docs.len());
            let keep = |k: int| doc_kept(e.docs[k], need, u);
            let v = rows_of(d, "docs"@);
            &&& d.get("docs"@) == Some(JsonV::Arr(v))
            &&& v == docs_json(kept)
            &&& v.len() == how_many(e.docs.len(), keep)
            &&& d.get("dropped_docs"@) == Some(JsonV::Int(e.docs.len() - v.len()))
            &&& forall|k: int|
                0 <= k < e.docs.len() ==> (carries(d, "docs"@, (#[trigger] e.docs[k]).id)
                    <==> keep(k)) && (doc_ids(kept).contains(e.docs[k].id) <==> keep(k))
            &&& forall|x: Seq<char>| #[trigger] doc_ids(kept).contains(x) <==> carries(d, "docs"@, x)
        }),
{
    let need = needed(f, selected(e, f, e.tasks.len()));
    let u = p.get("include_unscoped"@) == Some(JsonV::Bool(true));
    answered_is_document(e, p, cal, f, d);
    members_of_document(e, f, u);
    let kept = docs_kept(e.docs, need, u, e.docs.len());
    let keep = |k: int| doc_kept(e.docs[k], need, u);
    let at = picked(e.docs.len(), keep);
    docs_are_picked(e.docs, need, u, e.docs.len());
    picked_facts(e.docs.len(), keep);
    let v = rows_of(d, "docs"@);
    assert forall|i: int| 0 <= i < v.len() implies (#[trigger] v[i]).get("id"@) == Some(
        JsonV::Str(kept[i].id),
    ) by {
        doc_reads(kept[i]);
        assert(v[i] == doc_json(kept[i]));
    }
    assert forall|x: Seq<char>| #[trigger] doc_ids(kept).contains(x) <==> carries(d, "docs"@, x) by {
        if doc_ids(kept).contains(x) {
            let i = choose|i: int| 0 <= i < kept.len() && doc_ids(kept)[i] == x;
            assert(v[i].get("id"@) == Some(JsonV::Str(x)));
        }
        if carries(d, "docs"@, x) {
            let j = choose|j: int|
                0 <= j < rows_of(d, "docs"@).len() && (#[trigger] rows_of(d, "docs"@)[j]).get(
                    "id"@,
                ) == Some(JsonV::Str(x));
            assert(doc_ids(kept)[j] == x);
        }
    }
    assert forall|k: int| 0 <= k < e.docs.len() implies (carries(
        d,
        "docs"@,
        (#[trigger] e.docs[k]).id,
    ) <==> keep(k)) && (doc_ids(kept).contains(e.docs[k].id) <==> keep(k)) by {
        let id = e.docs[k].id;
        if keep(k) {
            assert(at.contains(k));
            let i = choose|i: int| 0 <= i < at.len() && at[i] == k;
            assert(kept[i] == e.docs[k]);
            assert(doc_ids(kept)[i] == id);
        }
        if doc_ids(kept).contains(id) {
            let i = choose|i: int| 0 <= i < kept.len() && doc_ids(kept)[i] == id;
            assert(kept[i] == e.docs[at[i]]);
            keys_tell::<Doc>(e.docs, at[i], k);
        }
    }
}

proof fn keys_tell<T: Keyed>(s: Seq<T::V>, a: int, b: int)
    requires
        ordered::<T>(s),
        0 <= a < s.len(),
        0 <= b < s.len(),
        T::key_of(s[a]) == T::key_of(s[b]),
    ensures
        a == b,
{
    text_lt_irreflexive(T::key_of(s[a]));
    if a < b {
        assert(text_lt(T::key_of(s[a]), T::key_of(s[b])));
    } else if b < a {
        assert(text_lt(T::key_of(s[b]), T::key_of(s[a])));
    }
}

/// In a document that is narrowed by a filter, a memory document without a
/// project is there exactly where the request asks for those, and one of a
/// project exactly where the document needs that project. A document that is not
/// narrowed carries all of them. What is not there is counted.
pub proof fn documents_carry_the_memory_they_need(
    e: EngineV,
    p: JsonV,
    cal: Spellings,
    f: ExprV,
    d: JsonV,
    k: int,
)
    requires
        e.wf(),
        answered(e, p, cal, f, d),
        0 <= k < e.docs.len(),
    ensures
        f != ExprV::Pred(PredV::Always) && e.docs[k].project is None ==> (carries(
            d,
            "docs"@,
            e.docs[k].id,
        ) <==> p.get("include_unscoped"@) == Some(JsonV::Bool(true))),
        f != ExprV::Pred(PredV::Always) && e.docs[k].project is Some ==> (carries(
            d,
            "docs"@,
            e.docs[k].id,
        ) <==> project_needed(e, f, d, e.docs[k].project->0)),
        f == ExprV::Pred(PredV::Always) ==> carries(d, "docs"@, e.docs[k].id),
        d.get("dropped_docs"@) == Some(JsonV::Int(e.docs.len() - rows_of(d, "docs"@).len())),
{
    docs_in_document(e, p, cal, f, d);
    if f != ExprV::Pred(PredV::Always) && e.docs[k].project is Some {
        needed_is_needed(e, p, cal, f, d, e.docs[k].project->0);
    }
    let need = needed(f, selected(e, f, e.tasks.len()));
    let u = p.get("include_unscoped"@) == Some(JsonV::Bool(true));
    assert(carries(d, "docs"@, e.docs[k].id) <==> doc_kept(e.docs[k], need, u));
}

proof fn projects_in_document(e: EngineV, p: JsonV, cal: Spellings, f: ExprV, d: JsonV)
    requires
        e.wf(),
        answered(e, p, cal, f, d),
    ensures
        ({
            let need = needed(f, selected(e, f, e.tasks.len()));
            let kept = projects_kept(e.projects, need, e.projects.len());
            let keep = |k: int| project_kept(e.projects[k], need);
            let v = rows_of(d, "projects"@);
            &&& d.get("projects"@) == Some(JsonV::Arr(v))
            &&& v == projects_json(kept)
            &&& v.len() == how_many(e.projects.len(), keep)
            &&& d.get("dropped_projects"@) == Some(JsonV::Int(e.projects.len() - v.len()))
            &&& forall|k: int|
                0 <= k < e.projects.len() ==> (names_project(d, (#[trigger] e.projects[k]).name)
                    <==> keep(k))
            &&& forall|x: Seq<char>| #[trigger]
                project_ids(kept).contains(x) <==> carries(d, "projects"@, x)
            &&& forall|x: Seq<char>| #[trigger]
                project_names(kept).contains(x) <==> names_project(d, x)
        }),
{
    let need = needed(f, selected(e, f, e.tasks.len()));
    let u = p.get("include_unscoped"@) == Some(JsonV::Bool(true));
    answered_is_document(e, p, cal, f, d);
    members_of_document(e, f, u);
    let kept = projects_kept(e.projects, need, e.projects.len());
    let keep = |k: int| project_kept(e.projects[k], need);
    let at = picked(e.projects.len(), keep);
    projects_are_picked(e.projects, need, e.projects.len());
    picked_facts(e.projects.len(), keep);
    let v = rows_of(d, "projects"@);
    assert forall|i: int| 0 <= i < v.len() implies (#[trigger] v[i]).get("id"@) == Some(
        JsonV::Str(kept[i].id),
    ) && v[i].get("name"@) == Some(JsonV::Str(kept[i].name)) by {
        project_reads(kept[i]);
        assert(v[i] == project_json(kept[i]));
    }
    assert forall|x: Seq<char>| #[trigger]
        project_ids(kept).contains(x) <==> carries(d, "projects"@, x) by {
        if project_ids(kept).contains(x) {
            let i = choose|i: int| 0 <= i < kept.len() && project_ids(kept)[i] == x;
            assert(v[i].get("id"@) == Some(JsonV::Str(x)));
        }
        if carries(d, "projects"@, x) {
            let j = choose|j: int|
                0 <= j < rows_of(d, "projects"@).len() && (#[trigger] rows_of(
                    d,
                    "projects"@,
                )[j]).get("id"@) == Some(JsonV::Str(x));
            assert(project_ids(kept)[j] == x);
        }
    }
    assert forall|x: Seq<char>| #[trigger]
        project_names(kept).contains(x) <==> names_project(d, x) by {
        if project_names(kept).contains(x) {
            let i = choose|i: int| 0 <= i < kept.len() && project_names(kept)[i] == x;
            assert(v[i].get("name"@) == Some(JsonV::Str(x)));
        }
        if names_project(d, x) {
            let j = choose|j: int|
                0 <= j < rows_of(d, "projects"@).len() && (#[trigger] rows_of(
                    d,
                    "projects"@,
                )[j]).get("name"@) == Some(JsonV::Str(x));
            assert(project_names(kept)[j] == x);
        }
    }
    assert forall|k: int| 0 <= k < e.projects.len() implies (names_project(
        d,
        (#[trigger] e.projects[k]).name,
    ) <==> keep(k)) by {
        let name = e.projects[k].name;
        if keep(k) {
            assert(at.contains(k));
            let i = choose|i: int| 0 <= i < at.len() && at[i] == k;
            assert(kept[i] == e.projects[k]);
            assert(project_names(kept)[i] == name);
        }
        if project_names(kept).contains(name) {
            let i = choose|i: int| 0 <= i < kept.len() && project_names(kept)[i] == name;
            assert(kept[i] == e.projects[at[i]]);
            keys_tell::<Project>(e.projects, at[i], k);
        }
    }
}

/// Whether a document has a project of this name among its projects.
pub open spec fn names_project(d: JsonV, name: Seq<char>) -> bool {
    exists|j: int|
        0 <= j < rows_of(d, "projects"@).len() && (#[trigger] rows_of(d, "projects"@)[j]).get(
            "name"@,
        ) == Some(JsonV::Str(name))
}

/// A document that is narrowed carries a project exactly where it needs it; one
/// that is not narrowed carries all of them. What is not there is counted. The
/// default project is named where its project is in the document.
pub proof fn documents_carry_the_projects_and_the_default_they_need(
    e: EngineV,
    p: JsonV,
    cal: Spellings,
    f: ExprV,
    d: JsonV,
    k: int,
)
    requires
        e.wf(),
        answered(e, p, cal, f, d),
        0 <= k < e.projects.len(),
    ensures
        f != ExprV::Pred(PredV::Always) ==> (names_project(d, e.projects[k].name)
            <==> project_needed(e, f, d, e.projects[k].name)),
        f == ExprV::Pred(PredV::Always) ==> names_project(d, e.projects[k].name),
        d.get("dropped_projects"@) == Some(
            JsonV::Int(e.projects.len() - rows_of(d, "projects"@).len()),
        ),
        e.default_project is None ==> d.get("default_project"@) == Some(JsonV::Null),
        e.default_project == Some(e.projects[k].name) ==> d.get("default_project"@) == if
            names_project(d, e.projects[k].name) {
            Some(JsonV::Str(e.projects[k].name))
        } else {
            Some(JsonV::Null)
        },
{
    projects_in_document(e, p, cal, f, d);
    let u = p.get("include_unscoped"@) == Some(JsonV::Bool(true));
    answered_is_document(e, p, cal, f, d);
    members_of_document(e, f, u);
    let name = e.projects[k].name;
    if f != ExprV::Pred(PredV::Always) {
        needed_is_needed(e, p, cal, f, d, name);
    }
    let need = needed(f, selected(e, f, e.tasks.len()));
    let kept = projects_kept(e.projects, need, e.projects.len());
    assert(names_project(d, name) <==> project_kept(e.projects[k], need));
    assert(project_names(kept).contains(name) <==> names_project(d, name));
}

/// Whether what an event is about is in a document. An event about anything but
/// a task, a memory document or a project always counts.
pub open spec fn about_what_is_there(d: JsonV, x: EventV) -> bool {
    &&& x.entity == "task"@ ==> carries(d, "tasks"@, x.entity_id)
    &&& x.entity == "doc"@ ==> carries(d, "docs"@, x.entity_id)
    &&& x.entity == "project"@ ==> carries(d, "projects"@, x.entity_id)
}

/// A document carries an event exactly where it carries what the event is about
/// and the event is no mark that an import left of itself. Those about what is
/// not there are counted.
pub proof fn documents_carry_the_events_of_what_they_carry(
    e: EngineV,
    p: JsonV,
    cal: Spellings,
    f: ExprV,
    d: JsonV,
)
    requires
        e.wf(),
        answered(e, p, cal, f, d),
    ensures
        forall|k: int|
            0 <= k < e.events.len() ==> (carries(d, "events"@, (#[trigger] e.events[k]).id)
                <==> about_what_is_there(d, e.events[k]) && e.events[k].op != "import"@ && !(
            e.events[k].op == "memory.add"@ && payload_said(e.events[k]).get("via"@) == Some(
                JsonV::Str("store.import"@),
            ))),
        d.get("dropped_events"@) == Some(
            JsonV::Int(
                how_many(e.events.len(), |k: int| !about_what_is_there(d, e.events[k])) as int,
            ),
        ),
{
    tasks_in_document(e, p, cal, f, d);
    docs_in_document(e, p, cal, f, d);
    projects_in_document(e, p, cal, f, d);
    let u = p.get("include_unscoped"@) == Some(JsonV::Bool(true));
    answered_is_document(e, p, cal, f, d);
    members_of_document(e, f, u);
    let s = selected(e, f, e.tasks.len());
    let need = needed(f, s);
    let tasks = ids_of(s);
    let docs = doc_ids(docs_kept(e.docs, need, u, e.docs.len()));
    let projects = project_ids(projects_kept(e.projects, need, e.projects.len()));
    let n = e.events.len();
    let kept = events_kept(e.events, tasks, docs, projects, n);
    let keep = |k: int|
        event_in_scope(e.events[k], tasks, docs, projects) && !import_mark(e.events[k]);
    let out = |k: int| !event_in_scope(e.events[k], tasks, docs, projects);
    let at = picked(n, keep);
    events_are_picked(e.events, tasks, docs, projects, n);
    picked_facts(n, keep);
    let v = rows_of(d, "events"@);
    assert forall|i: int| 0 <= i < v.len() implies (#[trigger] v[i]).get("id"@) == Some(
        JsonV::Str(kept[i].id),
    ) by {
        event_reads(kept[i]);
        assert(v[i] == event_json(kept[i]));
    }
    assert forall|x: Seq<char>| #[trigger] tasks.contains(x) <==> carries(d, "tasks"@, x) by {
        let w = rows_of(d, "tasks"@);
        if tasks.contains(x) {
            let i = choose|i: int| 0 <= i < tasks.len() && tasks[i] == x;
            assert(w[i].get("id"@) == Some(JsonV::Str(x)));
        }
        if carries(d, "tasks"@, x) {
            let j = choose|j: int|
                0 <= j < rows_of(d, "tasks"@).len() && (#[trigger] rows_of(d, "tasks"@)[j]).get(
                    "id"@,
                ) == Some(JsonV::Str(x));
            assert(w[j] == w[j]);
            assert(tasks[j] == x);
        }
    }
    reveal_strlit("task");
    reveal_strlit("project");
    reveal_strlit("doc");
    reveal_strlit("link");
    assert("task"@.len() == 4 && "task"@[0] == 't');
    assert("link"@.len() == 4 && "link"@[0] == 'l');
    assert("doc"@.len() == 3);
    assert("project"@.len() == 7);
    assert forall|k: int| 0 <= k < n implies #[trigger] out(k) == !about_what_is_there(
        d,
        e.events[k],
    ) by {
        let x = e.events[k].entity_id;
        assert(tasks.contains(x) <==> carries(d, "tasks"@, x));
        assert(docs.contains(x) <==> carries(d, "docs"@, x));
        assert(projects.contains(x) <==> carries(d, "projects"@, x));
    }
    same_count(n, out, |k: int| !about_what_is_there(d, e.events[k]));
    assert forall|k: int| 0 <= k < n implies (carries(d, "events"@, (#[trigger] e.events[k]).id)
        <==> keep(k)) by {
        let id = e.events[k].id;
        if keep(k) {
            assert(at.contains(k));
            let i = choose|i: int| 0 <= i < at.len() && at[i] == k;
            assert(kept[i] == e.events[k]);
            assert(v[i].get("id"@) == Some(JsonV::Str(id)));
        }
        if carries(d, "events"@, id) {
            let j = choose|j: int|
                0 <= j < rows_of(d, "events"@).len() && (#[trigger] rows_of(d, "events"@)[j]).get(
                    "id"@,
                ) == Some(JsonV::Str(id));
            assert(kept[j] == e.events[at[j]]);
            keys_tell::<Event>(e.events, at[j], k);
        }
    }
    assert forall|k: int| 0 <= k < n implies (carries(d, "events"@, (#[trigger] e.events[k]).id)
        <==> about_what_is_there(d, e.events[k]) && e.events[k].op != "import"@ && !(
    e.events[k].op == "memory.add"@ && payload_said(e.events[k]).get("via"@) == Some(
        JsonV::Str("store.import"@),
    ))) by {
        assert(out(k) == !about_what_is_there(d, e.events[k]));
        assert(carries(d, "events"@, e.events[k].id) <==> keep(k));
    }
}

proof fn edges_kept_are(
    ds: Seq<DependencyV>,
    id: Seq<char>,
    present: Seq<Seq<char>>,
    n: nat,
    on: Seq<char>,
)
    requires
        n <= ds.len(),
    ensures
        kept_edges(ds, id, present, n).contains(on) <==> present.contains(on) && exists|k: int|
            0 <= k < n && #[trigger] ds[k] == (DependencyV { task_id: id, depends_on: on }),
    decreases n,
{
    if n > 0 {
        edges_kept_are(ds, id, present, (n - 1) as nat, on);
        let b = kept_edges(ds, id, present, (n - 1) as nat);
        let r = kept_edges(ds, id, present, n);
        if b.contains(on) {
            let k = choose|k: int| 0 <= k < b.len() && b[k] == on;
            assert(r[k] == on);
        }
        if r.contains(on) && !b.contains(on) {
            let k = choose|k: int| 0 <= k < r.len() && r[k] == on;
            if k < b.len() {
                assert(b[k] == on);
            }
            assert(ds[n - 1] == (DependencyV { task_id: id, depends_on: on }));
        }
        if present.contains(on) && ds[n - 1] == (DependencyV { task_id: id, depends_on: on }) {
            assert(r[b.len() as int] == on);
        }
    }
}

proof fn edges_dropped_are(ds: Seq<DependencyV>, present: Seq<Seq<char>>, n: nat)
    requires
        n <= ds.len(),
    ensures
        dropped_edges(ds, present, n) == how_many(
            n,
            |k: int|
                present.contains(ds[k].task_id) && !present.contains(ds[k].depends_on),
        ),
    decreases n,
{
    if n > 0 {
        edges_dropped_are(ds, present, (n - 1) as nat);
    }
}

/// A task in a document depends on exactly those of its tasks that are in the
/// document too; the edges that lead out are counted.
pub proof fn documents_carry_the_edges_within(
    e: EngineV,
    p: JsonV,
    cal: Spellings,
    f: ExprV,
    d: JsonV,
)
    requires
        e.wf(),
        answered(e, p, cal, f, d),
    ensures
        forall|j: int, k: int|
            0 <= j < rows_of(d, "tasks"@).len() && 0 <= k < e.tasks.len() && (
            #[trigger] rows_of(d, "tasks"@)[j]).get("id"@) == Some(
                JsonV::Str((#[trigger] e.tasks[k]).id),
            ) ==> depends_within(e, d, rows_of(d, "tasks"@)[j], e.tasks[k].id),
        d.get("dropped_dependencies"@) == Some(
            JsonV::Int(
                how_many(
                    e.dependencies.len(),
                    |k: int|
                        carries(d, "tasks"@, e.dependencies[k].task_id) && !carries(
                            d,
                            "tasks"@,
                            e.dependencies[k].depends_on,
                        ),
                ) as int,
            ),
        ),
{
    tasks_in_document(e, p, cal, f, d);
    let u = p.get("include_unscoped"@) == Some(JsonV::Bool(true));
    answered_is_document(e, p, cal, f, d);
    members_of_document(e, f, u);
    let s = selected(e, f, e.tasks.len());
    let tasks = ids_of(s);
    let v = rows_of(d, "tasks"@);
    assert forall|x: Seq<char>| #[trigger] tasks.contains(x) <==> carries(d, "tasks"@, x) by {
        if tasks.contains(x) {
            let i = choose|i: int| 0 <= i < tasks.len() && tasks[i] == x;
            assert(v[i].get("id"@) == Some(JsonV::Str(x)));
        }
        if carries(d, "tasks"@, x) {
            let j = choose|j: int|
                0 <= j < rows_of(d, "tasks"@).len() && (#[trigger] rows_of(d, "tasks"@)[j]).get(
                    "id"@,
                ) == Some(JsonV::Str(x));
            assert(v[j] == v[j]);
            assert(tasks[j] == x);
        }
    }
    assert forall|j: int, k: int|
        0 <= j < v.len() && 0 <= k < e.tasks.len() && (#[trigger] v[j]).get("id"@) == Some(
            JsonV::Str((#[trigger] e.tasks[k]).id),
        ) implies depends_within(e, d, v[j], e.tasks[k].id) by {
        task_reads(e, s[j], tasks);
        let on = kept_edges(e.dependencies, s[j].id, tasks, e.dependencies.len());
        assert(v[j].get("depends_on"@) == Some(JsonV::Arr(str_values(on))));
        assert forall|x: Seq<char>| #[trigger]
            lists_text(v[j], "depends_on"@, x) <==> carries(d, "tasks"@, x)
                && e.dependencies.contains(
                DependencyV { task_id: e.tasks[k].id, depends_on: x },
            ) by {
            edges_kept_are(e.dependencies, s[j].id, tasks, e.dependencies.len(), x);
            let w = str_values(on);
            let dep = DependencyV { task_id: e.tasks[k].id, depends_on: x };
            if lists_text(v[j], "depends_on"@, x) {
                let i = choose|i: int| 0 <= i < w.len() && w[i] == JsonV::Str(x);
                assert(on[i] == x);
            }
            if on.contains(x) {
                let i = choose|i: int| 0 <= i < on.len() && on[i] == x;
                assert(w[i] == JsonV::Str(x));
                let q = choose|q: int|
                    0 <= q < e.dependencies.len() && #[trigger] e.dependencies[q] == dep;
                assert(e.dependencies.contains(dep));
            }
            if e.dependencies.contains(dep) {
                let q = choose|q: int| 0 <= q < e.dependencies.len() && e.dependencies[q] == dep;
                assert(e.dependencies[q] == dep);
            }
        }
    }
    edges_dropped_are(e.dependencies, tasks, e.dependencies.len());
    let a = |k: int|
        tasks.contains(e.dependencies[k].task_id) && !tasks.contains(e.dependencies[k].depends_on);
    let b = |k: int|
        carries(d, "tasks"@, e.dependencies[k].task_id) && !carries(
            d,
            "tasks"@,
            e.dependencies[k].depends_on,
        );
    assert forall|k: int| 0 <= k < e.dependencies.len() implies #[trigger] a(k) == b(k) by {
        assert(tasks.contains(e.dependencies[k].task_id) <==> carries(
            d,
            "tasks"@,
            e.dependencies[k].task_id,
        ));
        assert(tasks.contains(e.dependencies[k].depends_on) <==> carries(
            d,
            "tasks"@,
            e.dependencies[k].depends_on,
        ));
    }
    same_count(e.dependencies.len(), a, b);
}

/// Whether a row lists exactly what the task `id` depends on within a document.
pub open spec fn depends_within(e: EngineV, d: JsonV, tv: JsonV, id: Seq<char>) -> bool {
    forall|x: Seq<char>| #[trigger]
        lists_text(tv, "depends_on"@, x) <==> carries(d, "tasks"@, x) && e.dependencies.contains(
            DependencyV { task_id: id, depends_on: x },
        )
}

/// A request whose filter can be read is refused exactly where the filter names
/// a project that is not there or is archived, or where it asks to widen what
/// nothing narrows.
pub proof fn documents_are_refused_for_these_reasons_alone(
    e: EngineV,
    p: JsonV,
    cal: Spellings,
    f: ExprV,
)
    requires
        p.get("filter"@) is None || p.get("filter"@)->0 is Str,
        parsed(filter_text(p), cal) == Ok::<ExprV, Seq<char>>(f),
        p.get("include_unscoped"@) is None || p.get("include_unscoped"@)->0 is Bool,
    ensures
        ({
            let bad = exists|name: Seq<char>| #[trigger]
                mentions(f, name) && !(find::<Project>(e.projects, name) matches Some(x)
                    && !x.archived);
            let wide = p.get("include_unscoped"@) == Some(JsonV::Bool(true)) && f == ExprV::Pred(
                PredV::Always,
            );
            match exported(e, p, cal) {
                Ok(_) => !bad && !wide,
                Err(no) => (no.code == ErrorCode::NotFound && bad) || (no.code
                    == ErrorCode::BadRequest && wide),
            }
        }),
{
    let names = projects_named(f);
    unknown_is_first(e.projects, names, 0);
    if let Some(name) = first_unknown(e.projects, names, 0) {
        mentioned_is_named(f, name);
        assert(mentions(f, name));
    } else {
        assert forall|name: Seq<char>| #[trigger] mentions(f, name) implies (find::<Project>(
            e.projects,
            name,
        ) matches Some(x) && !x.archived) by {
            mentioned_is_named(f, name);
            let k = choose|k: int| 0 <= k < names.len() && names[k] == name;
            assert(live_project(e.projects, names[k]));
        }
    }
}

proof fn unknown_is_first(p: Seq<ProjectV>, names: Seq<Seq<char>>, i: int)
    requires
        0 <= i <= names.len(),
    ensures
        first_unknown(p, names, i) matches Some(x) ==> names.contains(x) && !live_project(p, x),
        first_unknown(p, names, i) is None ==> forall|k: int|
            i <= k < names.len() ==> live_project(p, #[trigger] names[k]),
    decreases names.len() - i,
{
    if i < names.len() {
        unknown_is_first(p, names, i + 1);
        assert(names.contains(names[i]));
    }
}

} // verus!
