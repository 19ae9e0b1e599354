//! Stores that hold only what the store itself writes.
//!
//! Texts that may not be blank are not, dates and forms are in the form they
//! are stored in, and what belongs together does. Nothing else is asked of a
//! store whose document is to be read back.

use crate::children::Named;
use crate::engine::EngineV;
use crate::error::ErrorV;
use crate::export::live_project;
use crate::filter::Spellings;
use crate::frontmatter::flat;
use crate::import_children::check_states;
use crate::import_read::EnvV;
use crate::params::all_blank;
use crate::rows::Annotation;
use crate::rows::AnnotationV;
use crate::rows::Check;
use crate::rows::CheckV;
use crate::rows::DocV;
use crate::rows::Event;
use crate::rows::EventV;
use crate::rows::Measurement;
use crate::rows::MeasurementV;
use crate::rows::Project;
use crate::rows::ProjectV;
use crate::rows::TaskV;
use crate::tables::find;
use crate::tables::text_lt;
use crate::types::entity_named;
use crate::types::Status;
use crate::when::resolved;
use crate::when::spelled;
use vstd::prelude::*;

verus! {

/// An optional text that is not empty.
pub open spec fn told_text(s: Option<Seq<char>>) -> bool {
    s matches Some(x) ==> x.len() > 0
}

/// A date in the form it is stored in.
pub open spec fn stored_date(s: Seq<char>, dates: Spellings) -> bool {
    s.len() > 0 && resolved(s, dates) == Ok::<Seq<char>, ErrorV>(s)
}

/// An optional date in the form it is stored in.
pub open spec fn some_date(s: Option<Seq<char>>, dates: Spellings) -> bool {
    s matches Some(x) ==> stored_date(x, dates)
}

/// An optional text in the form it is stored in.
pub open spec fn some_form(s: Option<Seq<char>>, forms: Spellings) -> bool {
    s matches Some(x) ==> x.len() > 0 && spelled(forms, x) == Some(x)
}

/// Tags in order, each once and none empty.
pub open spec fn tags_rise(s: Seq<Seq<char>>) -> bool {
    &&& forall|i: int, j: int| 0 <= i < j < s.len() ==> text_lt(#[trigger] s[i], #[trigger] s[j])
    &&& forall|i: int| 0 <= i < s.len() ==> (#[trigger] s[i]).len() > 0
}

/// A task as the store writes it. An active task, and no other, has an open
/// interval.
pub open spec fn task_sound(e: EngineV, t: TaskV, env: EnvV) -> bool {
    &&& !all_blank(t.id)
    &&& !all_blank(t.title)
    &&& t.status_raw is None
    &&& told_text(t.project)
    &&& (t.project matches Some(p) ==> find::<Project>(e.projects, p) is Some)
    &&& tags_rise(t.tags)
    &&& some_date(t.due, env.dates)
    &&& some_date(t.scheduled, env.dates)
    &&& some_date(t.wait, env.dates)
    &&& some_form(t.estimate, env.durations)
    &&& some_form(t.recurrence, env.rules)
    &&& some_form(t.remind, env.reminders)
    &&& (t.budget_tokens matches Some(n) ==> n >= 0)
    &&& told_text(t.delivered_annotation_id)
    &&& told_text(t.spawned_from)
    &&& (t.active_since is Some) == (t.status == Status::Active)
    &&& some_date(t.active_since, env.dates)
    &&& t.tracked_seconds >= 0
    &&& stored_date(t.created, env.dates)
    &&& stored_date(t.modified, env.dates)
    &&& some_date(t.completed, env.dates)
}

/// A note as the store writes it.
pub open spec fn annotation_sound(a: AnnotationV) -> bool {
    a.id.len() > 0 && !all_blank(a.body) && a.created.len() > 0
}

/// A criterion as the store writes it.
pub open spec fn check_sound(c: CheckV) -> bool {
    &&& c.id.len() > 0
    &&& !all_blank(c.body)
    &&& check_states().contains(c.state)
    &&& told_text(c.evidence)
    &&& c.created.len() > 0
    &&& c.modified.len() > 0
}

/// A measurement as the store writes it.
pub open spec fn measurement_sound(m: MeasurementV, env: EnvV) -> bool {
    &&& m.id.len() > 0
    &&& !all_blank(m.tool)
    &&& !all_blank(m.source)
    &&& env.token_sources.contains(m.source)
    &&& !all_blank(m.confidence)
    &&& env.confidences.contains(m.confidence)
    &&& told_text(m.model)
    &&& m.created.len() > 0
    &&& m.input_tokens >= 0
    &&& m.output_tokens >= 0
    &&& m.cache_read_tokens >= 0
    &&& m.cache_creation_tokens >= 0
    &&& m.total_tokens >= 0
}

/// A project as the store writes it.
pub open spec fn project_sound(p: ProjectV) -> bool {
    p.id.len() > 0 && p.name.len() > 0 && told_text(p.description) && p.created.len() > 0
}

/// A memory document as the store writes it.
pub open spec fn doc_sound(d: DocV, env: EnvV) -> bool {
    &&& d.id.len() > 0
    &&& told_text(d.source)
    &&& !all_blank(d.title)
    &&& !all_blank(d.body)
    &&& d.search_body == flat(d.body)
    &&& told_text(d.project)
    &&& stored_date(d.created, env.dates)
    &&& stored_date(d.modified, env.dates)
}

/// An event as the store writes it.
pub open spec fn event_sound(x: EventV) -> bool {
    &&& x.id.len() > 0
    &&& entity_named(x.entity) is Some
    &&& !all_blank(x.entity_id)
    &&& !all_blank(x.op)
    &&& x.ts.len() > 0
    &&& told_text(x.actor)
}

/// Whether no two rows of a table have one id.
pub open spec fn ids_differ<T: Named>(s: Seq<T::V>) -> bool {
    forall|i: int, j: int|
        0 <= i < j < s.len() ==> T::id_of(#[trigger] s[i]) != T::id_of(#[trigger] s[j])
}

/// A store that holds only what the store itself writes, as far as an import
/// with `env` can tell.
pub open spec fn sound(e: EngineV, env: EnvV) -> bool {
    &&& e.wf()
    &&& forall|i: int| 0 <= i < e.tasks.len() ==> task_sound(e, #[trigger] e.tasks[i], env)
    &&& forall|i: int|
        0 <= i < e.annotations.len() && (#[trigger] e.annotations[i]).removed is None
            ==> annotation_sound(e.annotations[i])
    &&& forall|i: int| 0 <= i < e.checks.len() ==> check_sound(#[trigger] e.checks[i])
    &&& forall|i: int|
        0 <= i < e.measurements.len() ==> measurement_sound(#[trigger] e.measurements[i], env)
    &&& forall|i: int| 0 <= i < e.projects.len() ==> project_sound(#[trigger] e.projects[i])
    &&& forall|i: int| 0 <= i < e.docs.len() ==> doc_sound(#[trigger] e.docs[i], env)
    &&& forall|i: int| 0 <= i < e.events.len() ==> event_sound(#[trigger] e.events[i])
    &&& ids_differ::<Annotation>(e.annotations)
    &&& ids_differ::<Check>(e.checks)
    &&& ids_differ::<Measurement>(e.measurements)
    &&& forall|i: int, j: int|
        0 <= i < j < e.docs.len() && (#[trigger] e.docs[i]).source is Some ==> e.docs[i].source
            != (#[trigger] e.docs[j]).source
    &&& forall|i: int, j: int|
        0 <= i < j < e.dependencies.len() ==> (#[trigger] e.dependencies[i]) != (
        #[trigger] e.dependencies[j])
    &&& (e.default_project matches Some(d) ==> d.len() > 0 && live_project(e.projects, d))
}

/// Fresh ids for an import of `n` rows: enough of them, all different, and none
/// the id of an event.
pub open spec fn ids_fresh(e: EngineV, ids: Seq<Seq<char>>, n: nat) -> bool {
    &&& n <= ids.len()
    &&& forall|i: int, j: int| 0 <= i < j < ids.len() ==> #[trigger] ids[i] != #[trigger] ids[j]
    &&& forall|i: int| 0 <= i < ids.len() ==> find::<Event>(e.events, #[trigger] ids[i]) is None
}

} // verus!
