//! What was written into a document is read back from it.

use crate::children::live;
use crate::children::owned;
use crate::engine::EngineV;
use crate::export::annotation_json;
use crate::export::annotations_json;
use crate::export::check_json;
use crate::export::checks_json;
use crate::export::doc_ids;
use crate::export::doc_json;
use crate::export::docs_json;
use crate::export::docs_kept;
use crate::export::document;
use crate::export::event_json;
use crate::export::events_json;
use crate::export::events_kept;
use crate::export::ids_of;
use crate::export::kept_edges;
use crate::export::measurement_json;
use crate::export::measurements_json;
use crate::export::opt_int;
use crate::export::opt_priority;
use crate::export::payload_said;
use crate::export::project_ids;
use crate::export::project_json;
use crate::export::projects_json;
use crate::export::projects_kept;
use crate::export::selected;
use crate::export::status_text;
use crate::export::task_json;
use crate::export::task_members;
use crate::export::tasks_json;
use crate::export::with_if;
use crate::expr::ExprV;
use crate::expr::Pred;
use crate::expr::PredV;
use crate::import_children::annotation_keys;
use crate::import_children::check_keys;
use crate::import_children::measurement_keys;
use crate::import_read::shape_spec;
use crate::import_read::stray;
use crate::import_rules::doc_keys;
use crate::import_rules::event_keys;
use crate::import_rules::project_keys;
use crate::import_rules::task_keys;
use crate::json::JsonV;
use crate::rows::Annotation;
use crate::rows::AnnotationV;
use crate::rows::Check;
use crate::rows::CheckV;
use crate::rows::DocV;
use crate::rows::EventV;
use crate::rows::Measurement;
use crate::rows::MeasurementV;
use crate::rows::ProjectV;
use crate::rows::TaskV;
use crate::value::lookup;
use crate::value::opt_text;
use crate::value::str_values;
use vstd::prelude::*;

verus! {

broadcast use {vstd::string::group_string_axioms, crate::value::lookup_push};

/// A row none of whose members is out of place has no stray member.
proof fn nothing_stray(m: Seq<(Seq<char>, JsonV)>, keys: Seq<Seq<char>>, i: int)
    requires
        0 <= i <= m.len(),
        forall|j: int| 0 <= j < m.len() ==> keys.contains((#[trigger] m[j]).0),
    ensures
        stray(m, keys, i) is None,
    decreases m.len() - i,
{
    if i < m.len() {
        assert(keys.contains(m[i].0));
        nothing_stray(m, keys, i + 1);
    }
}

/// What the members of a note say.
pub proof fn annotation_reads(x: AnnotationV)
    ensures
        forall|prefix: Seq<char>, what: Seq<char>|
            (#[trigger] shape_spec(prefix, what, annotation_json(x), annotation_keys())) is Ok,
        annotation_json(x) is Obj,
        annotation_json(x).get("id"@) == Some(JsonV::Str(x.id)),
        annotation_json(x).get("body"@) == Some(JsonV::Str(x.body)),
        annotation_json(x).get("created"@) == Some(JsonV::Str(x.created)),
{
    reveal_strlit("id");
    reveal_strlit("body");
    reveal_strlit("created");
    assert("id"@.len() == 2 && "id"@[0] == 'i');
    assert("body"@.len() == 4 && "body"@[0] == 'b');
    assert("created"@.len() == 7 && "created"@[0] == 'c');
    let m = annotation_json(x)->Obj_0;
    let keys = annotation_keys();
    assert(keys[0] == m[0].0);
    assert(keys[1] == m[1].0);
    assert(keys[2] == m[2].0);
    assert(m =~= Seq::<(Seq<char>, JsonV)>::empty().push(m[0]).push(m[1]).push(m[2]));
    assert forall|j: int| 0 <= j < m.len() implies keys.contains((#[trigger] m[j]).0) by {
        assert(keys[j] == m[j].0);
    }
    nothing_stray(m, keys, 0);
}

/// What the members of a criterion say.
pub proof fn check_reads(x: CheckV)
    ensures
        forall|prefix: Seq<char>, what: Seq<char>|
            (#[trigger] shape_spec(prefix, what, check_json(x), check_keys())) is Ok,
        check_json(x) is Obj,
        check_json(x).get("id"@) == Some(JsonV::Str(x.id)),
        check_json(x).get("body"@) == Some(JsonV::Str(x.body)),
        check_json(x).get("state"@) == Some(JsonV::Str(x.state)),
        check_json(x).get("evidence"@) == Some(opt_text(x.evidence)),
        check_json(x).get("position"@) == Some(JsonV::Int(x.position as int)),
        check_json(x).get("created"@) == Some(JsonV::Str(x.created)),
        check_json(x).get("modified"@) == Some(JsonV::Str(x.modified)),
{
    reveal_strlit("id");
    reveal_strlit("body");
    reveal_strlit("state");
    reveal_strlit("evidence");
    reveal_strlit("position");
    reveal_strlit("created");
    reveal_strlit("modified");
    assert("id"@.len() == 2 && "id"@[0] == 'i');
    assert("body"@.len() == 4 && "body"@[0] == 'b');
    assert("state"@.len() == 5 && "state"@[0] == 's');
    assert("evidence"@.len() == 8 && "evidence"@[0] == 'e');
    assert("position"@.len() == 8 && "position"@[0] == 'p');
    assert("created"@.len() == 7 && "created"@[0] == 'c');
    assert("modified"@.len() == 8 && "modified"@[0] == 'm');
    let m = check_json(x)->Obj_0;
    let keys = check_keys();
    assert(keys[0] == m[0].0);
    assert(keys[1] == m[1].0);
    assert(keys[2] == m[2].0);
    assert(keys[3] == m[3].0);
    assert(keys[4] == m[4].0);
    assert(keys[5] == m[5].0);
    assert(keys[6] == m[6].0);
    assert(m =~= Seq::<(Seq<char>, JsonV)>::empty().push(m[0]).push(m[1]).push(m[2]).push(m[3]).push(m[4]).push(m[5]).push(m[6]));
    assert forall|j: int| 0 <= j < m.len() implies keys.contains((#[trigger] m[j]).0) by {
        assert(keys[j] == m[j].0);
    }
    nothing_stray(m, keys, 0);
}

/// What the members of a measurement say.
#[verifier::rlimit(40)]
pub proof fn measurement_reads(x: MeasurementV)
    ensures
        forall|prefix: Seq<char>, what: Seq<char>|
            (#[trigger] shape_spec(prefix, what, measurement_json(x), measurement_keys())) is Ok,
        measurement_json(x) is Obj,
        measurement_json(x).get("id"@) == Some(JsonV::Str(x.id)),
        measurement_json(x).get("tool"@) == Some(JsonV::Str(x.tool)),
        measurement_json(x).get("source"@) == Some(JsonV::Str(x.source)),
        measurement_json(x).get("model"@) == Some(opt_text(x.model)),
        measurement_json(x).get("input_tokens"@) == Some(JsonV::Int(x.input_tokens as int)),
        measurement_json(x).get("output_tokens"@) == Some(JsonV::Int(x.output_tokens as int)),
        measurement_json(x).get("cache_read_tokens"@) == Some(JsonV::Int(x.cache_read_tokens as int)),
        measurement_json(x).get("cache_creation_tokens"@) == Some(JsonV::Int(x.cache_creation_tokens as int)),
        measurement_json(x).get("total_tokens"@) == Some(JsonV::Int(x.total_tokens as int)),
        measurement_json(x).get("confidence"@) == Some(JsonV::Str(x.confidence)),
        measurement_json(x).get("created"@) == Some(JsonV::Str(x.created)),
{
    reveal_strlit("id");
    reveal_strlit("tool");
    reveal_strlit("source");
    reveal_strlit("model");
    reveal_strlit("input_tokens");
    reveal_strlit("output_tokens");
    reveal_strlit("cache_read_tokens");
    reveal_strlit("cache_creation_tokens");
    reveal_strlit("total_tokens");
    reveal_strlit("confidence");
    reveal_strlit("created");
    assert("id"@.len() == 2 && "id"@[0] == 'i');
    assert("tool"@.len() == 4 && "tool"@[0] == 't');
    assert("source"@.len() == 6 && "source"@[0] == 's');
    assert("model"@.len() == 5 && "model"@[0] == 'm');
    assert("input_tokens"@.len() == 12 && "input_tokens"@[0] == 'i');
    assert("output_tokens"@.len() == 13 && "output_tokens"@[0] == 'o');
    assert("cache_read_tokens"@.len() == 17 && "cache_read_tokens"@[0] == 'c');
    assert("cache_creation_tokens"@.len() == 21 && "cache_creation_tokens"@[0] == 'c');
    assert("total_tokens"@.len() == 12 && "total_tokens"@[0] == 't');
    assert("confidence"@.len() == 10 && "confidence"@[0] == 'c');
    assert("created"@.len() == 7 && "created"@[0] == 'c');
    let m = measurement_json(x)->Obj_0;
    let keys = measurement_keys();
    assert(keys[0] == m[0].0);
    assert(keys[1] == m[1].0);
    assert(keys[2] == m[2].0);
    assert(keys[3] == m[3].0);
    assert(keys[4] == m[4].0);
    assert(keys[5] == m[5].0);
    assert(keys[6] == m[6].0);
    assert(keys[7] == m[7].0);
    assert(keys[8] == m[8].0);
    assert(keys[9] == m[9].0);
    assert(keys[10] == m[10].0);
    assert(m =~= Seq::<(Seq<char>, JsonV)>::empty().push(m[0]).push(m[1]).push(m[2]).push(m[3]).push(m[4]).push(m[5]).push(m[6]).push(m[7]).push(m[8]).push(m[9]).push(m[10]));
    assert forall|j: int| 0 <= j < m.len() implies keys.contains((#[trigger] m[j]).0) by {
        assert(keys[j] == m[j].0);
    }
    nothing_stray(m, keys, 0);
}

/// What the members of a project say.
pub proof fn project_reads(x: ProjectV)
    ensures
        forall|prefix: Seq<char>, what: Seq<char>|
            (#[trigger] shape_spec(prefix, what, project_json(x), project_keys())) is Ok,
        project_json(x) is Obj,
        project_json(x).get("id"@) == Some(JsonV::Str(x.id)),
        project_json(x).get("name"@) == Some(JsonV::Str(x.name)),
        project_json(x).get("description"@) == Some(opt_text(x.description)),
        project_json(x).get("archived"@) == Some(JsonV::Bool(x.archived)),
        project_json(x).get("created"@) == Some(JsonV::Str(x.created)),
{
    reveal_strlit("id");
    reveal_strlit("name");
    reveal_strlit("description");
    reveal_strlit("archived");
    reveal_strlit("created");
    assert("id"@.len() == 2 && "id"@[0] == 'i');
    assert("name"@.len() == 4 && "name"@[0] == 'n');
    assert("description"@.len() == 11 && "description"@[0] == 'd');
    assert("archived"@.len() == 8 && "archived"@[0] == 'a');
    assert("created"@.len() == 7 && "created"@[0] == 'c');
    let m = project_json(x)->Obj_0;
    let keys = project_keys();
    assert(keys[0] == m[0].0);
    assert(keys[1] == m[1].0);
    assert(keys[2] == m[2].0);
    assert(keys[3] == m[3].0);
    assert(keys[4] == m[4].0);
    assert(m =~= Seq::<(Seq<char>, JsonV)>::empty().push(m[0]).push(m[1]).push(m[2]).push(m[3]).push(m[4]));
    assert forall|j: int| 0 <= j < m.len() implies keys.contains((#[trigger] m[j]).0) by {
        assert(keys[j] == m[j].0);
    }
    nothing_stray(m, keys, 0);
}

/// What the members of a memory document say.
pub proof fn doc_reads(x: DocV)
    ensures
        forall|prefix: Seq<char>, what: Seq<char>|
            (#[trigger] shape_spec(prefix, what, doc_json(x), doc_keys())) is Ok,
        doc_json(x) is Obj,
        doc_json(x).get("id"@) == Some(JsonV::Str(x.id)),
        doc_json(x).get("source"@) == Some(opt_text(x.source)),
        doc_json(x).get("title"@) == Some(JsonV::Str(x.title)),
        doc_json(x).get("body"@) == Some(JsonV::Str(x.body)),
        doc_json(x).get("created"@) == Some(JsonV::Str(x.created)),
        doc_json(x).get("modified"@) == Some(JsonV::Str(x.modified)),
        doc_json(x).get("project"@) == Some(opt_text(x.project)),
        doc_json(x).get("_rev"@) == Some(JsonV::Int(x.rev as int)),
        doc_json(x).get("standing"@) == Some(JsonV::Bool(x.standing)),
{
    reveal_strlit("id");
    reveal_strlit("source");
    reveal_strlit("title");
    reveal_strlit("body");
    reveal_strlit("created");
    reveal_strlit("modified");
    reveal_strlit("project");
    reveal_strlit("_rev");
    reveal_strlit("standing");
    assert("id"@.len() == 2 && "id"@[0] == 'i');
    assert("source"@.len() == 6 && "source"@[0] == 's');
    assert("title"@.len() == 5 && "title"@[0] == 't');
    assert("body"@.len() == 4 && "body"@[0] == 'b');
    assert("created"@.len() == 7 && "created"@[0] == 'c');
    assert("modified"@.len() == 8 && "modified"@[0] == 'm');
    assert("project"@.len() == 7 && "project"@[0] == 'p');
    assert("_rev"@.len() == 4 && "_rev"@[0] == '_');
    assert("standing"@.len() == 8 && "standing"@[0] == 's');
    let m = doc_json(x)->Obj_0;
    let keys = doc_keys();
    assert(keys[0] == m[0].0);
    assert(keys[1] == m[1].0);
    assert(keys[2] == m[2].0);
    assert(keys[3] == m[3].0);
    assert(keys[4] == m[4].0);
    assert(keys[5] == m[5].0);
    assert(keys[6] == m[6].0);
    assert(keys[7] == m[7].0);
    assert(keys[8] == m[8].0);
    assert(m =~= Seq::<(Seq<char>, JsonV)>::empty().push(m[0]).push(m[1]).push(m[2]).push(m[3]).push(m[4]).push(m[5]).push(m[6]).push(m[7]).push(m[8]));
    assert forall|j: int| 0 <= j < m.len() implies keys.contains((#[trigger] m[j]).0) by {
        assert(keys[j] == m[j].0);
    }
    nothing_stray(m, keys, 0);
}

/// What the members of an event say.
pub proof fn event_reads(x: EventV)
    ensures
        forall|prefix: Seq<char>, what: Seq<char>|
            (#[trigger] shape_spec(prefix, what, event_json(x), event_keys())) is Ok,
        event_json(x) is Obj,
        event_json(x).get("id"@) == Some(JsonV::Str(x.id)),
        event_json(x).get("entity"@) == Some(JsonV::Str(x.entity)),
        event_json(x).get("entity_id"@) == Some(JsonV::Str(x.entity_id)),
        event_json(x).get("op"@) == Some(JsonV::Str(x.op)),
        event_json(x).get("payload"@) == Some(payload_said(x)),
        event_json(x).get("ts"@) == Some(JsonV::Str(x.ts)),
        event_json(x).get("actor"@) == Some(opt_text(x.actor)),
{
    reveal_strlit("id");
    reveal_strlit("entity");
    reveal_strlit("entity_id");
    reveal_strlit("op");
    reveal_strlit("payload");
    reveal_strlit("ts");
    reveal_strlit("actor");
    assert("id"@.len() == 2 && "id"@[0] == 'i');
    assert("entity"@.len() == 6 && "entity"@[0] == 'e');
    assert("entity_id"@.len() == 9 && "entity_id"@[0] == 'e');
    assert("op"@.len() == 2 && "op"@[0] == 'o');
    assert("payload"@.len() == 7 && "payload"@[0] == 'p');
    assert("ts"@.len() == 2 && "ts"@[0] == 't');
    assert("actor"@.len() == 5 && "actor"@[0] == 'a');
    let m = event_json(x)->Obj_0;
    let keys = event_keys();
    assert(keys[0] == m[0].0);
    assert(keys[1] == m[1].0);
    assert(keys[2] == m[2].0);
    assert(keys[3] == m[3].0);
    assert(keys[4] == m[4].0);
    assert(keys[5] == m[5].0);
    assert(keys[6] == m[6].0);
    assert(m =~= Seq::<(Seq<char>, JsonV)>::empty().push(m[0]).push(m[1]).push(m[2]).push(m[3]).push(m[4]).push(m[5]).push(m[6]));
    assert forall|j: int| 0 <= j < m.len() implies keys.contains((#[trigger] m[j]).0) by {
        assert(keys[j] == m[j].0);
    }
    nothing_stray(m, keys, 0);
}

/// What the members of a task's row say.
pub open spec fn says(tv: JsonV, e: EngineV, t: TaskV, present: Seq<Seq<char>>) -> bool {
    &&& tv is Obj
    &&& forall|prefix: Seq<char>, what: Seq<char>|
        (#[trigger] shape_spec(prefix, what, tv, task_keys())) is Ok
    &&& tv.get("id"@) == Some(JsonV::Str(t.id))
    &&& tv.get("short_id"@) == Some(JsonV::Int(t.short_id as int))
    &&& tv.get("title"@) == Some(JsonV::Str(t.title))
    &&& tv.get("status"@) == Some(JsonV::Str(status_text(t)))
    &&& tv.get("priority"@) == Some(opt_priority(t.priority))
    &&& tv.get("project"@) == Some(opt_text(t.project))
    &&& tv.get("tags"@) == Some(JsonV::Arr(str_values(t.tags)))
    &&& tv.get("due"@) == Some(opt_text(t.due))
    &&& tv.get("scheduled"@) == Some(opt_text(t.scheduled))
    &&& tv.get("wait"@) == Some(opt_text(t.wait))
    &&& tv.get("estimate"@) == Some(opt_text(t.estimate))
    &&& tv.get("recurrence"@) == Some(opt_text(t.recurrence))
    &&& tv.get("remind"@) == Some(opt_text(t.remind))
    &&& tv.get("budget_tokens"@) == Some(opt_int(t.budget_tokens))
    &&& tv.get("depends_on"@) == Some(JsonV::Arr(str_values(kept_edges(e.dependencies, t.id, present, e.dependencies.len()))))
    &&& tv.get("checks"@) == Some(JsonV::Arr(checks_json(owned::<Check>(e.checks, t.id))))
    &&& tv.get("annotations"@) == Some(JsonV::Arr(annotations_json(owned::<Annotation>(live(e.annotations), t.id))))
    &&& tv.get("created"@) == Some(JsonV::Str(t.created))
    &&& tv.get("modified"@) == Some(JsonV::Str(t.modified))
    &&& tv.get("completed"@) == Some(opt_text(t.completed))
    &&& tv.get("_rev"@) == Some(JsonV::Int(t.rev as int))
    &&& tv.get("tracked_seconds"@) == if t.tracked_seconds != 0 {
        Some(JsonV::Int(t.tracked_seconds as int))
    } else {
        None
    }
    &&& tv.get("tracked_adjustment_seconds"@) == if t.tracked_adjustment_seconds != 0 {
        Some(JsonV::Int(t.tracked_adjustment_seconds as int))
    } else {
        None
    }
    &&& tv.get("active_since"@) == if t.active_since is Some {
        Some(opt_text(t.active_since))
    } else {
        None
    }
    &&& tv.get("tokens"@) == if owned::<Measurement>(e.measurements, t.id).len() > 0 {
        Some(JsonV::Arr(measurements_json(owned::<Measurement>(e.measurements, t.id))))
    } else {
        None
    }
    &&& tv.get("delivered_annotation_id"@) == if t.delivered_annotation_id is Some {
        Some(opt_text(t.delivered_annotation_id))
    } else {
        None
    }
    &&& tv.get("spawned_from"@) == if t.spawned_from is Some {
        Some(opt_text(t.spawned_from))
    } else {
        None
    }
}

/// What the members that every task has say.
#[verifier::rlimit(40)]
proof fn members_read(e: EngineV, t: TaskV, present: Seq<Seq<char>>)
    ensures
        task_members(e, t, present).len() == 21,
        lookup(task_members(e, t, present), "id"@) == Some(JsonV::Str(t.id)),
        lookup(task_members(e, t, present), "short_id"@) == Some(JsonV::Int(t.short_id as int)),
        lookup(task_members(e, t, present), "title"@) == Some(JsonV::Str(t.title)),
        lookup(task_members(e, t, present), "status"@) == Some(JsonV::Str(status_text(t))),
        lookup(task_members(e, t, present), "priority"@) == Some(opt_priority(t.priority)),
        lookup(task_members(e, t, present), "project"@) == Some(opt_text(t.project)),
        lookup(task_members(e, t, present), "tags"@) == Some(JsonV::Arr(str_values(t.tags))),
        lookup(task_members(e, t, present), "due"@) == Some(opt_text(t.due)),
        lookup(task_members(e, t, present), "scheduled"@) == Some(opt_text(t.scheduled)),
        lookup(task_members(e, t, present), "wait"@) == Some(opt_text(t.wait)),
        lookup(task_members(e, t, present), "estimate"@) == Some(opt_text(t.estimate)),
        lookup(task_members(e, t, present), "recurrence"@) == Some(opt_text(t.recurrence)),
        lookup(task_members(e, t, present), "remind"@) == Some(opt_text(t.remind)),
        lookup(task_members(e, t, present), "budget_tokens"@) == Some(opt_int(t.budget_tokens)),
        lookup(task_members(e, t, present), "depends_on"@) == Some(JsonV::Arr(str_values(kept_edges(e.dependencies, t.id, present, e.dependencies.len())))),
        lookup(task_members(e, t, present), "checks"@) == Some(JsonV::Arr(checks_json(owned::<Check>(e.checks, t.id)))),
        lookup(task_members(e, t, present), "annotations"@) == Some(JsonV::Arr(annotations_json(owned::<Annotation>(live(e.annotations), t.id)))),
        lookup(task_members(e, t, present), "created"@) == Some(JsonV::Str(t.created)),
        lookup(task_members(e, t, present), "modified"@) == Some(JsonV::Str(t.modified)),
        lookup(task_members(e, t, present), "completed"@) == Some(opt_text(t.completed)),
        lookup(task_members(e, t, present), "_rev"@) == Some(JsonV::Int(t.rev as int)),
        lookup(task_members(e, t, present), "tracked_seconds"@) is None,
        lookup(task_members(e, t, present), "tracked_adjustment_seconds"@) is None,
        lookup(task_members(e, t, present), "active_since"@) is None,
        lookup(task_members(e, t, present), "tokens"@) is None,
        lookup(task_members(e, t, present), "delivered_annotation_id"@) is None,
        lookup(task_members(e, t, present), "spawned_from"@) is None,
        forall|j: int|
            0 <= j < 21 ==> task_keys().contains((#[trigger] task_members(e, t, present)[j]).0),
{
    reveal_strlit("id");
    reveal_strlit("short_id");
    reveal_strlit("title");
    reveal_strlit("status");
    reveal_strlit("priority");
    reveal_strlit("project");
    reveal_strlit("tags");
    reveal_strlit("due");
    reveal_strlit("scheduled");
    reveal_strlit("wait");
    reveal_strlit("estimate");
    reveal_strlit("recurrence");
    reveal_strlit("remind");
    reveal_strlit("budget_tokens");
    reveal_strlit("depends_on");
    reveal_strlit("checks");
    reveal_strlit("annotations");
    reveal_strlit("created");
    reveal_strlit("modified");
    reveal_strlit("completed");
    reveal_strlit("_rev");
    reveal_strlit("tracked_seconds");
    reveal_strlit("tracked_adjustment_seconds");
    reveal_strlit("active_since");
    reveal_strlit("tokens");
    reveal_strlit("delivered_annotation_id");
    reveal_strlit("spawned_from");
    assert("id"@.len() == 2 && "id"@[0] == 'i');
    assert("short_id"@.len() == 8 && "short_id"@[0] == 's');
    assert("title"@.len() == 5 && "title"@[0] == 't');
    assert("status"@.len() == 6 && "status"@[0] == 's');
    assert("priority"@.len() == 8 && "priority"@[0] == 'p');
    assert("project"@.len() == 7 && "project"@[0] == 'p');
    assert("tags"@.len() == 4 && "tags"@[0] == 't');
    assert("due"@.len() == 3 && "due"@[0] == 'd');
    assert("scheduled"@.len() == 9 && "scheduled"@[0] == 's');
    assert("wait"@.len() == 4 && "wait"@[0] == 'w');
    assert("estimate"@.len() == 8 && "estimate"@[0] == 'e');
    assert("recurrence"@.len() == 10 && "recurrence"@[0] == 'r');
    assert("remind"@.len() == 6 && "remind"@[0] == 'r');
    assert("budget_tokens"@.len() == 13 && "budget_tokens"@[0] == 'b');
    assert("depends_on"@.len() == 10 && "depends_on"@[0] == 'd');
    assert("checks"@.len() == 6 && "checks"@[0] == 'c');
    assert("annotations"@.len() == 11 && "annotations"@[0] == 'a');
    assert("created"@.len() == 7 && "created"@[0] == 'c');
    assert("modified"@.len() == 8 && "modified"@[0] == 'm');
    assert("completed"@.len() == 9 && "completed"@[0] == 'c');
    assert("_rev"@.len() == 4 && "_rev"@[0] == '_');
    assert("tracked_seconds"@.len() == 15 && "tracked_seconds"@[0] == 't');
    assert("tracked_adjustment_seconds"@.len() == 26 && "tracked_adjustment_seconds"@[0] == 't');
    assert("active_since"@.len() == 12 && "active_since"@[0] == 'a');
    assert("tokens"@.len() == 6 && "tokens"@[0] == 't');
    assert("delivered_annotation_id"@.len() == 23 && "delivered_annotation_id"@[0] == 'd');
    assert("spawned_from"@.len() == 12 && "spawned_from"@[0] == 's');
    let m = task_members(e, t, present);
    let keys = task_keys();
    assert(keys[0] == m[0].0);
    assert(keys[1] == m[1].0);
    assert(keys[2] == m[2].0);
    assert(keys[3] == m[3].0);
    assert(keys[4] == m[4].0);
    assert(keys[5] == m[5].0);
    assert(keys[6] == m[6].0);
    assert(keys[7] == m[7].0);
    assert(keys[8] == m[8].0);
    assert(keys[9] == m[9].0);
    assert(keys[10] == m[10].0);
    assert(keys[11] == m[11].0);
    assert(keys[12] == m[12].0);
    assert(keys[13] == m[13].0);
    assert(keys[14] == m[14].0);
    assert(keys[15] == m[15].0);
    assert(keys[16] == m[16].0);
    assert(keys[18] == m[17].0);
    assert(keys[19] == m[18].0);
    assert(keys[20] == m[19].0);
    assert(keys[21] == m[20].0);
    assert(m =~= Seq::<(Seq<char>, JsonV)>::empty().push(m[0]).push(m[1]).push(m[2]).push(m[3]).push(m[4]).push(m[5]).push(m[6]).push(m[7]).push(m[8]).push(m[9]).push(m[10]).push(m[11]).push(m[12]).push(m[13]).push(m[14]).push(m[15]).push(m[16]).push(m[17]).push(m[18]).push(m[19]).push(m[20]));
    assert forall|j: int| 0 <= j < 21 implies keys.contains((#[trigger] m[j]).0) by {
        assert(keys[if j < 17 {
            j
        } else {
            j + 1
        }] == m[j].0);
    }
}

/// Where a row has no stray member, neither has it with one more that belongs.
proof fn with_if_belongs(
    m: Seq<(Seq<char>, JsonV)>,
    cond: bool,
    key: Seq<char>,
    value: JsonV,
    keys: Seq<Seq<char>>,
)
    requires
        keys.contains(key),
        forall|j: int| 0 <= j < m.len() ==> keys.contains((#[trigger] m[j]).0),
    ensures
        forall|j: int|
            0 <= j < with_if(m, cond, key, value).len() ==> keys.contains(
                (#[trigger] with_if(m, cond, key, value)[j]).0,
            ),
{
}

/// A member that is there only on a condition is found on that condition, and
/// every other as before.
proof fn with_if_reads(m: Seq<(Seq<char>, JsonV)>, cond: bool, key: Seq<char>, value: JsonV)
    ensures
        forall|wanted: Seq<char>| #[trigger]
            lookup(with_if(m, cond, key, value), wanted) == if cond && key == wanted {
                Some(value)
            } else {
                lookup(m, wanted)
            },
{
}

/// A task's row says what the task and the rows that belong to it are.
#[verifier::rlimit(40)]
pub proof fn task_reads(e: EngineV, t: TaskV, present: Seq<Seq<char>>)
    ensures
        says(task_json(e, t, present), e, t, present),
{
    members_read(e, t, present);
    reveal_strlit("id");
    reveal_strlit("short_id");
    reveal_strlit("title");
    reveal_strlit("status");
    reveal_strlit("priority");
    reveal_strlit("project");
    reveal_strlit("tags");
    reveal_strlit("due");
    reveal_strlit("scheduled");
    reveal_strlit("wait");
    reveal_strlit("estimate");
    reveal_strlit("recurrence");
    reveal_strlit("remind");
    reveal_strlit("budget_tokens");
    reveal_strlit("depends_on");
    reveal_strlit("checks");
    reveal_strlit("annotations");
    reveal_strlit("urgency");
    reveal_strlit("created");
    reveal_strlit("modified");
    reveal_strlit("completed");
    reveal_strlit("_rev");
    reveal_strlit("tracked_seconds");
    reveal_strlit("tracked_adjustment_seconds");
    reveal_strlit("active_since");
    reveal_strlit("tokens");
    reveal_strlit("delivered_annotation_id");
    reveal_strlit("spawned_from");
    reveal_strlit("status_unrecognized");
    assert("id"@.len() == 2 && "id"@[0] == 'i');
    assert("short_id"@.len() == 8 && "short_id"@[0] == 's');
    assert("title"@.len() == 5 && "title"@[0] == 't');
    assert("status"@.len() == 6 && "status"@[0] == 's');
    assert("priority"@.len() == 8 && "priority"@[0] == 'p');
    assert("project"@.len() == 7 && "project"@[0] == 'p');
    assert("tags"@.len() == 4 && "tags"@[0] == 't');
    assert("due"@.len() == 3 && "due"@[0] == 'd');
    assert("scheduled"@.len() == 9 && "scheduled"@[0] == 's');
    assert("wait"@.len() == 4 && "wait"@[0] == 'w');
    assert("estimate"@.len() == 8 && "estimate"@[0] == 'e');
    assert("recurrence"@.len() == 10 && "recurrence"@[0] == 'r');
    assert("remind"@.len() == 6 && "remind"@[0] == 'r');
    assert("budget_tokens"@.len() == 13 && "budget_tokens"@[0] == 'b');
    assert("depends_on"@.len() == 10 && "depends_on"@[0] == 'd');
    assert("checks"@.len() == 6 && "checks"@[0] == 'c');
    assert("annotations"@.len() == 11 && "annotations"@[0] == 'a');
    assert("urgency"@.len() == 7 && "urgency"@[0] == 'u');
    assert("created"@.len() == 7 && "created"@[0] == 'c');
    assert("modified"@.len() == 8 && "modified"@[0] == 'm');
    assert("completed"@.len() == 9 && "completed"@[0] == 'c');
    assert("_rev"@.len() == 4 && "_rev"@[0] == '_');
    assert("tracked_seconds"@.len() == 15 && "tracked_seconds"@[0] == 't');
    assert("tracked_adjustment_seconds"@.len() == 26 && "tracked_adjustment_seconds"@[0] == 't');
    assert("active_since"@.len() == 12 && "active_since"@[0] == 'a');
    assert("tokens"@.len() == 6 && "tokens"@[0] == 't');
    assert("delivered_annotation_id"@.len() == 23 && "delivered_annotation_id"@[0] == 'd');
    assert("spawned_from"@.len() == 12 && "spawned_from"@[0] == 's');
    assert("status_unrecognized"@.len() == 19 && "status_unrecognized"@[0] == 's');
    let keys = task_keys();
    assert(keys[22] == "tracked_seconds"@);
    assert(keys[23] == "tracked_adjustment_seconds"@);
    assert(keys[24] == "active_since"@);
    assert(keys[25] == "tokens"@);
    assert(keys[26] == "delivered_annotation_id"@);
    assert(keys[27] == "spawned_from"@);
    assert(keys[28] == "status_unrecognized"@);
    let m0 = task_members(e, t, present);
    let tokens = measurements_json(owned::<Measurement>(e.measurements, t.id));
    let m1 = with_if(m0, t.tracked_seconds != 0, "tracked_seconds"@, JsonV::Int(t.tracked_seconds as int));
    with_if_belongs(m0, t.tracked_seconds != 0, "tracked_seconds"@, JsonV::Int(t.tracked_seconds as int), keys);
    with_if_reads(m0, t.tracked_seconds != 0, "tracked_seconds"@, JsonV::Int(t.tracked_seconds as int));
    let m2 = with_if(m1, t.tracked_adjustment_seconds != 0, "tracked_adjustment_seconds"@, JsonV::Int(t.tracked_adjustment_seconds as int));
    with_if_belongs(m1, t.tracked_adjustment_seconds != 0, "tracked_adjustment_seconds"@, JsonV::Int(t.tracked_adjustment_seconds as int), keys);
    with_if_reads(m1, t.tracked_adjustment_seconds != 0, "tracked_adjustment_seconds"@, JsonV::Int(t.tracked_adjustment_seconds as int));
    let m3 = with_if(m2, t.active_since is Some, "active_since"@, opt_text(t.active_since));
    with_if_belongs(m2, t.active_since is Some, "active_since"@, opt_text(t.active_since), keys);
    with_if_reads(m2, t.active_since is Some, "active_since"@, opt_text(t.active_since));
    let m4 = with_if(m3, tokens.len() > 0, "tokens"@, JsonV::Arr(tokens));
    with_if_belongs(m3, tokens.len() > 0, "tokens"@, JsonV::Arr(tokens), keys);
    with_if_reads(m3, tokens.len() > 0, "tokens"@, JsonV::Arr(tokens));
    let m5 = with_if(m4, t.delivered_annotation_id is Some, "delivered_annotation_id"@, opt_text(t.delivered_annotation_id));
    with_if_belongs(m4, t.delivered_annotation_id is Some, "delivered_annotation_id"@, opt_text(t.delivered_annotation_id), keys);
    with_if_reads(m4, t.delivered_annotation_id is Some, "delivered_annotation_id"@, opt_text(t.delivered_annotation_id));
    let m6 = with_if(m5, t.spawned_from is Some, "spawned_from"@, opt_text(t.spawned_from));
    with_if_belongs(m5, t.spawned_from is Some, "spawned_from"@, opt_text(t.spawned_from), keys);
    with_if_reads(m5, t.spawned_from is Some, "spawned_from"@, opt_text(t.spawned_from));
    let m7 = with_if(m6, t.status_raw is Some, "status_unrecognized"@, JsonV::Bool(true));
    with_if_belongs(m6, t.status_raw is Some, "status_unrecognized"@, JsonV::Bool(true), keys);
    with_if_reads(m6, t.status_raw is Some, "status_unrecognized"@, JsonV::Bool(true));
    assert(task_json(e, t, present) == JsonV::Obj(m7));
    nothing_stray(m7, keys, 0);
}

/// What the members of a document of the whole store say.
pub proof fn document_reads(e: EngineV)
    ensures
        ({
            let f = ExprV::Pred(PredV::Always);
            let d = document(e, f, false);
            let s = selected(e, f, e.tasks.len());
            let docs = docs_kept(e.docs, None, false, e.docs.len());
            let projects = projects_kept(e.projects, None, e.projects.len());
            &&& d.get("tasks"@) == Some(JsonV::Arr(tasks_json(e, s, s.len())))
            &&& d.get("projects"@) == Some(JsonV::Arr(projects_json(projects)))
            &&& d.get("docs"@) == Some(JsonV::Arr(docs_json(docs)))
            &&& d.get("events"@) == Some(
                JsonV::Arr(
                    events_json(
                        events_kept(
                            e.events,
                            ids_of(s),
                            doc_ids(docs),
                            project_ids(projects),
                            e.events.len(),
                        ),
                    ),
                ),
            )
            &&& d.get("default_project"@) == Some(opt_text(e.default_project))
        }),
{
    reveal_strlit("tasks");
    reveal_strlit("dropped_dependencies");
    reveal_strlit("projects");
    reveal_strlit("dropped_projects");
    reveal_strlit("docs");
    reveal_strlit("dropped_docs");
    reveal_strlit("events");
    reveal_strlit("dropped_events");
    reveal_strlit("default_project");
    assert("tasks"@.len() == 5 && "tasks"@[0] == 't');
    assert("dropped_dependencies"@.len() == 20 && "dropped_dependencies"@[0] == 'd');
    assert("projects"@.len() == 8 && "projects"@[0] == 'p');
    assert("dropped_projects"@.len() == 16 && "dropped_projects"@[0] == 'd');
    assert("docs"@.len() == 4 && "docs"@[0] == 'd');
    assert("dropped_docs"@.len() == 12 && "dropped_docs"@[0] == 'd');
    assert("events"@.len() == 6 && "events"@[0] == 'e');
    assert("dropped_events"@.len() == 14 && "dropped_events"@[0] == 'd');
    assert("default_project"@.len() == 15 && "default_project"@[0] == 'd');
    let m = document(e, ExprV::Pred(PredV::Always), false)->Obj_0;
    assert(m =~= Seq::<(Seq<char>, JsonV)>::empty().push(m[0]).push(m[1]).push(m[2]).push(m[3]).push(m[4]).push(m[5]).push(m[6]).push(m[7]).push(m[8]));
}

} // verus!
