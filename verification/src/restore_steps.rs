//! Reading back each kind of row that a document carries.

use crate::children::has;
use crate::engine::EngineV;
use crate::error::ErrorV;
use crate::export::annotation_json;
use crate::export::check_json;
use crate::export::doc_json;
use crate::export::event_json;
use crate::export::kept_edges;
use crate::export::measurement_json;
use crate::export::opt_int;
use crate::export::payload_said;
use crate::export::project_json;
use crate::filter::Spellings;
use crate::import_children::annotation_one;
use crate::import_children::check_one;
use crate::import_children::measurement_one;
use crate::import_read::body_spec;
use crate::import_read::BodyV;
use crate::import_read::EnvV;
use crate::import_read::head_spec;
use crate::import_read::HeadV;
use crate::import_read::opt_count_spec;
use crate::import_read::opt_form_spec;
use crate::import_read::opt_when_spec;
use crate::import_read::tag_put;
use crate::import_read::tags_spec;
use crate::import_read::task_tags_spec;
use crate::import_rules::claim_of;
use crate::import_rules::doc_mark;
use crate::import_rules::doc_one;
use crate::import_rules::event_one;
use crate::import_rules::logged;
use crate::import_rules::merged;
use crate::import_rules::project_mark;
use crate::import_rules::project_one;
use crate::import_rules::source_free;
use crate::import_rules::task_id_spec;
use crate::import_rules::Work;
use crate::json::JsonV;
use crate::json_text::json_text;
use crate::params::all_texts;
use crate::params::opt_i64_spec;
use crate::params::opt_str_array_spec;
use crate::params::opt_str_nonempty_spec;
use crate::params::req_i64_spec;
use crate::restore_rows::annotation_reads;
use crate::restore_rows::check_reads;
use crate::restore_rows::doc_reads;
use crate::restore_rows::event_reads;
use crate::restore_rows::measurement_reads;
use crate::restore_rows::project_reads;
use crate::restore_rows::says;
use crate::rows::Annotation;
use crate::rows::AnnotationV;
use crate::rows::Check;
use crate::rows::CheckV;
use crate::rows::Doc;
use crate::rows::DocV;
use crate::rows::Event;
use crate::rows::EventV;
use crate::rows::Measurement;
use crate::rows::MeasurementV;
use crate::rows::Project;
use crate::rows::ProjectV;
use crate::rows::TaskV;
use crate::sound::annotation_sound;
use crate::sound::check_sound;
use crate::sound::doc_sound;
use crate::sound::event_sound;
use crate::sound::measurement_sound;
use crate::sound::project_sound;
use crate::sound::some_date;
use crate::sound::some_form;
use crate::sound::tags_rise;
use crate::sound::task_sound;
use crate::sound::told_text;
use crate::tables::find;
use crate::tables::put;
use crate::tables::text_lt;
use crate::tables::text_lt_irreflexive;
use crate::text::white_space;
use crate::types::Entity;
use crate::types::entity_named;
use crate::types::priority_letter_names_itself;
use crate::types::status_word_names_itself;
use crate::value::opt_text;
use crate::value::str_values;
use vstd::prelude::*;

verus! {

broadcast use vstd::string::group_string_axioms;

proof fn texts_read(v: Seq<Seq<char>>, key: Seq<char>, n: nat)
    requires
        n <= v.len(),
    ensures
        all_texts(str_values(v), key, n) == Ok::<Seq<Seq<char>>, ErrorV>(v.take(n as int)),
    decreases n,
{
    if n > 0 {
        texts_read(v, key, (n - 1) as nat);
        assert(str_values(v)[n - 1] == JsonV::Str(v[n - 1]));
        assert(v.take(n as int) =~= v.take(n - 1).push(v[n - 1]));
    } else {
        assert(v.take(0) =~= Seq::empty());
    }
}

proof fn tags_read(v: Seq<Seq<char>>, n: nat)
    requires
        n <= v.len(),
        tags_rise(v),
    ensures
        tags_spec(v, n) == Ok::<Seq<Seq<char>>, ErrorV>(v.take(n as int)),
    decreases n,
{
    if n > 0 {
        tags_read(v, (n - 1) as nat);
        let before = v.take(n - 1);
        assert(v[n - 1].len() > 0);
        assert(v.take(n as int) =~= before.push(v[n - 1]));
        if n == 1 {
            assert(before =~= Seq::empty());
            assert(tag_put(before, v[0]) =~= seq![v[0]]);
        } else {
            assert(before.last() == v[n - 2]);
            assert(text_lt(v[n - 2], v[n - 1]));
            text_lt_irreflexive(v[n - 1]);
        }
    } else {
        assert(v.take(0) =~= Seq::empty());
    }
}

/// The tags of a task are read back.
pub proof fn row_tags(tv: JsonV, e: EngineV, t: TaskV, present: Seq<Seq<char>>, env: EnvV)
    requires
        says(tv, e, t, present),
        task_sound(e, t, env),
    ensures
        task_tags_spec(tv) == Ok::<Seq<Seq<char>>, ErrorV>(t.tags),
{
    texts_read(t.tags, "tags"@, t.tags.len());
    assert(t.tags.take(t.tags.len() as int) =~= t.tags);
    tags_read(t.tags, t.tags.len());
}

/// The edges of a task are read back.
pub proof fn row_edges(tv: JsonV, e: EngineV, t: TaskV, present: Seq<Seq<char>>)
    requires
        says(tv, e, t, present),
    ensures
        opt_str_array_spec(tv, "depends_on"@) == Ok::<Seq<Seq<char>>, ErrorV>(
            kept_edges(e.dependencies, t.id, present, e.dependencies.len()),
        ),
{
    let v = kept_edges(e.dependencies, t.id, present, e.dependencies.len());
    texts_read(v, "depends_on"@, v.len());
    assert(v.take(v.len() as int) =~= v);
}

/// The first fields of a task are read back.
pub proof fn row_head(tv: JsonV, e: EngineV, t: TaskV, present: Seq<Seq<char>>, env: EnvV)
    requires
        says(tv, e, t, present),
        task_sound(e, t, env),
    ensures
        task_id_spec(tv) == Ok::<Seq<char>, ErrorV>(t.id),
        req_i64_spec(tv, "short_id"@) == Ok::<i64, ErrorV>(t.short_id),
        claim_of(tv) == Some((t.short_id, t.id)),
        head_spec(tv, t.id) == Ok::<HeadV, ErrorV>(
            HeadV { title: t.title, status: t.status, priority: t.priority, project: t.project },
        ),
{
    status_word_names_itself(t.status);
    reveal_strlit("backlog");
    reveal_strlit("pending");
    reveal_strlit("active");
    reveal_strlit("done");
    reveal_strlit("cancelled");
    reveal_strlit("H");
    reveal_strlit("M");
    reveal_strlit("L");
    if let Some(p) = t.priority {
        priority_letter_names_itself(p);
    }
}

/// The other fields of a task, as they are read from its row.
pub open spec fn body_of(t: TaskV) -> BodyV {
    BodyV {
        due: t.due,
        scheduled: t.scheduled,
        wait: t.wait,
        estimate: t.estimate,
        recurrence: t.recurrence,
        budget_tokens: t.budget_tokens,
        delivered_annotation_id: t.delivered_annotation_id,
        spawned_from: t.spawned_from,
        remind: t.remind,
        created: t.created,
        modified: t.modified,
        completed: t.completed,
        rev: t.rev,
        tracked_seconds: if t.tracked_seconds != 0 {
            Some(t.tracked_seconds)
        } else {
            None
        },
        tracked_adjustment_seconds: if t.tracked_adjustment_seconds != 0 {
            Some(t.tracked_adjustment_seconds)
        } else {
            None
        },
        active_since: t.active_since,
    }
}

proof fn date_reads(tv: JsonV, key: Seq<char>, s: Option<Seq<char>>, dates: Spellings)
    requires
        tv.get(key) == Some(opt_text(s)) || (s is None && tv.get(key) is None),
        some_date(s, dates),
    ensures
        opt_when_spec(tv, key, dates) == Ok::<Option<Seq<char>>, ErrorV>(s),
{
}

proof fn form_reads(
    tv: JsonV,
    key: Seq<char>,
    s: Option<Seq<char>>,
    forms: Spellings,
    what: Seq<char>,
)
    requires
        tv.get(key) == Some(opt_text(s)),
        some_form(s, forms),
    ensures
        opt_form_spec(tv, key, forms, what) == Ok::<Option<Seq<char>>, ErrorV>(s),
{
}

proof fn text_reads(tv: JsonV, key: Seq<char>, s: Option<Seq<char>>)
    requires
        tv.get(key) == Some(opt_text(s)) || (s is None && tv.get(key) is None),
        told_text(s),
    ensures
        opt_str_nonempty_spec(tv, key) == Ok::<Option<Seq<char>>, ErrorV>(s),
{
}

proof fn integer_reads(tv: JsonV, key: Seq<char>, n: Option<i64>)
    requires
        tv.get(key) == Some(opt_int(n)) || (n is None && tv.get(key) is None),
    ensures
        opt_i64_spec(tv, key) == Ok::<Option<i64>, ErrorV>(n),
        (n matches Some(x) ==> x >= 0) ==> opt_count_spec(tv, key) == Ok::<
            Option<i64>,
            ErrorV,
        >(n),
{
}

/// The other fields of a task are read back.
#[verifier::rlimit(40)]
pub proof fn row_body(tv: JsonV, e: EngineV, t: TaskV, present: Seq<Seq<char>>, env: EnvV)
    requires
        says(tv, e, t, present),
        task_sound(e, t, env),
    ensures
        body_spec(tv, t.id, env) == Ok::<BodyV, ErrorV>(body_of(t)),
{
    let b = body_of(t);
    date_reads(tv, "due"@, t.due, env.dates);
    date_reads(tv, "scheduled"@, t.scheduled, env.dates);
    date_reads(tv, "wait"@, t.wait, env.dates);
    form_reads(tv, "estimate"@, t.estimate, env.durations, "a duration"@);
    form_reads(tv, "recurrence"@, t.recurrence, env.rules, "a recurrence rule"@);
    integer_reads(tv, "budget_tokens"@, t.budget_tokens);
    text_reads(tv, "delivered_annotation_id"@, t.delivered_annotation_id);
    text_reads(tv, "spawned_from"@, t.spawned_from);
    form_reads(tv, "remind"@, t.remind, env.reminders, "a reminder"@);
    date_reads(tv, "created"@, Some(t.created), env.dates);
    date_reads(tv, "modified"@, Some(t.modified), env.dates);
    date_reads(tv, "completed"@, t.completed, env.dates);
    integer_reads(tv, "_rev"@, Some(t.rev));
    integer_reads(tv, "tracked_seconds"@, b.tracked_seconds);
    integer_reads(tv, "tracked_adjustment_seconds"@, b.tracked_adjustment_seconds);
    date_reads(tv, "active_since"@, t.active_since, env.dates);
    body_reads(tv, t, env);
}

/// The fields of a task that are read back one by one are read back together.
#[verifier::rlimit(40)]
proof fn body_reads(tv: JsonV, t: TaskV, env: EnvV)
    requires
        opt_when_spec(tv, "due"@, env.dates) == Ok::<Option<Seq<char>>, ErrorV>(t.due),
        opt_when_spec(tv, "scheduled"@, env.dates) == Ok::<Option<Seq<char>>, ErrorV>(t.scheduled),
        opt_when_spec(tv, "wait"@, env.dates) == Ok::<Option<Seq<char>>, ErrorV>(t.wait),
        opt_form_spec(tv, "estimate"@, env.durations, "a duration"@) == Ok::<
            Option<Seq<char>>,
            ErrorV,
        >(t.estimate),
        opt_form_spec(tv, "recurrence"@, env.rules, "a recurrence rule"@) == Ok::<
            Option<Seq<char>>,
            ErrorV,
        >(t.recurrence),
        opt_i64_spec(tv, "budget_tokens"@) == Ok::<Option<i64>, ErrorV>(t.budget_tokens),
        t.budget_tokens matches Some(n) ==> n >= 0,
        opt_str_nonempty_spec(tv, "delivered_annotation_id"@) == Ok::<Option<Seq<char>>, ErrorV>(
            t.delivered_annotation_id,
        ),
        opt_str_nonempty_spec(tv, "spawned_from"@) == Ok::<Option<Seq<char>>, ErrorV>(
            t.spawned_from,
        ),
        opt_form_spec(tv, "remind"@, env.reminders, "a reminder"@) == Ok::<
            Option<Seq<char>>,
            ErrorV,
        >(t.remind),
        opt_when_spec(tv, "created"@, env.dates) == Ok::<Option<Seq<char>>, ErrorV>(
            Some(t.created),
        ),
        opt_when_spec(tv, "modified"@, env.dates) == Ok::<Option<Seq<char>>, ErrorV>(
            Some(t.modified),
        ),
        opt_when_spec(tv, "completed"@, env.dates) == Ok::<Option<Seq<char>>, ErrorV>(t.completed),
        opt_i64_spec(tv, "_rev"@) == Ok::<Option<i64>, ErrorV>(Some(t.rev)),
        opt_count_spec(tv, "tracked_seconds"@) == Ok::<Option<i64>, ErrorV>(
            body_of(t).tracked_seconds,
        ),
        opt_i64_spec(tv, "tracked_adjustment_seconds"@) == Ok::<Option<i64>, ErrorV>(
            body_of(t).tracked_adjustment_seconds,
        ),
        opt_when_spec(tv, "active_since"@, env.dates) == Ok::<Option<Seq<char>>, ErrorV>(
            t.active_since,
        ),
    ensures
        body_spec(tv, t.id, env) == Ok::<BodyV, ErrorV>(body_of(t)),
{
}

/// A task that is not stored, or is stored as it was written, becomes what it
/// was.
pub proof fn row_merges(e: EngineV, t: TaskV, stored: Option<TaskV>, env: EnvV)
    requires
        task_sound(e, t, env),
        stored is None || stored == Some(t),
    ensures
        merged(
            stored,
            t.id,
            t.short_id,
            HeadV { title: t.title, status: t.status, priority: t.priority, project: t.project },
            body_of(t),
            t.tags,
            env,
        ) == t,
{
}

/// A note is read back.
pub proof fn annotation_step_reads(
    st: (Seq<AnnotationV>, nat),
    x: AnnotationV,
    id: Seq<char>,
    env: EnvV,
)
    requires
        annotation_sound(x),
        x.removed is None,
        x.task_id == id,
        !(has::<Annotation>(st.0, x.id)),
    ensures
        annotation_one(st, annotation_json(x), id, env) == Ok::<
            (Seq<AnnotationV>, nat),
            ErrorV,
        >((st.0.push(x), st.1)),
{
    annotation_reads(x);
}

/// A criterion is read back.
#[verifier::rlimit(40)]
pub proof fn check_step_reads(
    st: (Seq<CheckV>, nat, nat),
    x: CheckV,
    id: Seq<char>,
    env: EnvV,
)
    requires
        check_sound(x),
        x.task_id == id,
        !(has::<Check>(st.0, x.id)),
    ensures
        check_one(st, check_json(x), id, env) == Ok::<(Seq<CheckV>, nat, nat), ErrorV>(
            (st.0.push(x), st.1, st.2 + 1),
        ),
{
    check_reads(x);
    reveal_strlit("open");
    reveal_strlit("passed");
    reveal_strlit("failed");
    assert(x.state.len() > 0);
}

/// A measurement is read back.
#[verifier::rlimit(40)]
pub proof fn measurement_step_reads(
    st: (Seq<MeasurementV>, nat),
    x: MeasurementV,
    id: Seq<char>,
    env: EnvV,
)
    requires
        measurement_sound(x, env),
        x.task_id == id,
        !(has::<Measurement>(st.0, x.id)),
    ensures
        measurement_one(st, measurement_json(x), id, env) == Ok::<
            (Seq<MeasurementV>, nat),
            ErrorV,
        >((st.0.push(x), st.1)),
{
    measurement_reads(x);
}

/// A project is read back.
pub proof fn project_step_reads(w: Work, x: ProjectV, env: EnvV)
    requires
        project_sound(x),
        find::<Project>(w.e.projects, x.name) matches Some(p) ==> p.id == x.id,
    ensures
        project_one(w, project_json(x), env) == logged(
            Work { e: EngineV { projects: put::<Project>(w.e.projects, x), ..w.e }, ..w },
            Entity::Project,
            x.id,
            "import"@,
            project_mark(x.name, x.archived),
            env,
        ),
{
    project_reads(x);
}

/// A memory document is read back.
pub proof fn doc_step_reads(w: Work, x: DocV, env: EnvV)
    requires
        doc_sound(x, env),
        find::<Doc>(w.e.docs, x.id) matches Some(d) ==> d.rev == x.rev,
        source_free(w.e.docs, x.source, x.id) is Ok,
    ensures
        doc_one(w, doc_json(x), env) == logged(
            Work { e: EngineV { docs: put::<Doc>(w.e.docs, x), ..w.e }, ..w },
            Entity::Doc,
            x.id,
            "memory.add"@,
            doc_mark(x.title, x.source),
            env,
        ),
{
    doc_reads(x);
}

/// An event as it is replayed: its payload is written anew.
pub open spec fn replayed(x: EventV) -> EventV {
    EventV { payload: Some(json_text(payload_said(x))), ..x }
}

/// An event is read back.
pub proof fn event_step_reads(w: Work, x: EventV, env: EnvV)
    requires
        event_sound(x),
    ensures
        event_one(w, event_json(x), env) == if find::<Event>(w.e.events, x.id) is Some {
            Ok::<Work, ErrorV>(w)
        } else {
            Ok::<Work, ErrorV>(
                Work {
                    e: EngineV {
                        events: put::<Event>(w.e.events, replayed(x)),
                        ..w.e
                    },
                    replayed: w.replayed + 1,
                    ..w
                },
            )
        },
{
    event_reads(x);
    assert(entity_named(x.entity)->0.name() == x.entity);
    reveal_strlit("task");
    reveal_strlit("project");
    reveal_strlit("doc");
    reveal_strlit("link");
    assert(x.entity.len() > 0 && !white_space(x.entity[0]));
}

} // verus!
