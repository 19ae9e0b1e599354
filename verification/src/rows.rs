//! The rows of the store.
//!
//! Each row type has a model of the same name with a `V`: texts are character
//! sequences, everything else is itself.

use crate::text::texts;
use crate::types::Priority;
use crate::types::Status;
use crate::value::opt_view;
use vstd::prelude::*;

verus! {

broadcast use vstd::string::group_string_axioms;

/// A copy of an optional text.
pub fn dup_opt(o: &Option<String>) -> (r: Option<String>)
    ensures
        opt_view(r) == opt_view(*o),
{
    match o {
        Some(s) => Some(s.clone()),
        None => None,
    }
}

/// A copy of a list of texts.
pub fn dup_texts(v: &Vec<String>) -> (r: Vec<String>)
    ensures
        texts(r@) == texts(v@),
{
    let mut r: Vec<String> = Vec::new();
    let mut i: usize = 0;
    while i < v.len()
        invariant
            i <= v@.len(),
            texts(r@) =~= texts(v@).take(i as int),
        decreases v@.len() - i,
    {
        let one: String = v[i].clone();
        assert(texts(r@.push(one)) =~= texts(r@).push(one@));
        r.push(one);
        i += 1;
    }
    assert(texts(r@) =~= texts(v@));
    r
}

/// A row: something the store keeps and copies.
pub trait Row: View + Sized {
    /// A copy that says the same.
    fn dup(&self) -> (r: Self)
        ensures
            r@ == self@,
    ;
}

/// What a table holds.
pub open spec fn rows<T: View>(v: Seq<T>) -> Seq<T::V> {
    v.map_values(|t: T| t@)
}

/// One more row.
pub broadcast proof fn rows_push<T: View>(v: Seq<T>, t: T)
    ensures
        #[trigger] rows(v.push(t)) == rows(v).push(t@),
{
    assert(rows(v.push(t)) =~= rows(v).push(t@));
}

/// A copy of a table.
pub fn dup_rows<T: Row>(v: &Vec<T>) -> (r: Vec<T>)
    ensures
        rows(r@) == rows(v@),
{
    let mut r: Vec<T> = Vec::new();
    let mut i: usize = 0;
    while i < v.len()
        invariant
            i <= v@.len(),
            rows(r@) =~= rows(v@).take(i as int),
        decreases v@.len() - i,
    {
        let one: T = v[i].dup();
        assert(rows(r@.push(one)) =~= rows(r@).push(one@));
        r.push(one);
        i += 1;
    }
    assert(rows(r@) =~= rows(v@));
    r
}

/// A task row. `status_raw` is the stored status text where it is no known status.
#[derive(Debug)]
pub struct Task {
    pub id: String,
    pub short_id: i64,
    pub title: String,
    pub status: Status,
    pub status_raw: Option<String>,
    pub priority: Option<Priority>,
    pub project: Option<String>,
    pub tags: Vec<String>,
    pub due: Option<String>,
    pub scheduled: Option<String>,
    pub wait: Option<String>,
    pub estimate: Option<String>,
    pub recurrence: Option<String>,
    pub remind: Option<String>,
    pub budget_tokens: Option<i64>,
    pub delivered_annotation_id: Option<String>,
    pub spawned_from: Option<String>,
    pub active_since: Option<String>,
    pub tracked_seconds: i64,
    pub tracked_adjustment_seconds: i64,
    pub created: String,
    pub modified: String,
    pub completed: Option<String>,
    pub rev: i64,
}

/// What a [`Task`] says.
pub ghost struct TaskV {
    pub id: Seq<char>,
    pub short_id: i64,
    pub title: Seq<char>,
    pub status: Status,
    pub status_raw: Option<Seq<char>>,
    pub priority: Option<Priority>,
    pub project: Option<Seq<char>>,
    pub tags: Seq<Seq<char>>,
    pub due: Option<Seq<char>>,
    pub scheduled: Option<Seq<char>>,
    pub wait: Option<Seq<char>>,
    pub estimate: Option<Seq<char>>,
    pub recurrence: Option<Seq<char>>,
    pub remind: Option<Seq<char>>,
    pub budget_tokens: Option<i64>,
    pub delivered_annotation_id: Option<Seq<char>>,
    pub spawned_from: Option<Seq<char>>,
    pub active_since: Option<Seq<char>>,
    pub tracked_seconds: i64,
    pub tracked_adjustment_seconds: i64,
    pub created: Seq<char>,
    pub modified: Seq<char>,
    pub completed: Option<Seq<char>>,
    pub rev: i64,
}

impl View for Task {
    type V = TaskV;

    open spec fn view(&self) -> TaskV {
        TaskV {
            id: self.id@,
            short_id: self.short_id,
            title: self.title@,
            status: self.status,
            status_raw: opt_view(self.status_raw),
            priority: self.priority,
            project: opt_view(self.project),
            tags: texts(self.tags@),
            due: opt_view(self.due),
            scheduled: opt_view(self.scheduled),
            wait: opt_view(self.wait),
            estimate: opt_view(self.estimate),
            recurrence: opt_view(self.recurrence),
            remind: opt_view(self.remind),
            budget_tokens: self.budget_tokens,
            delivered_annotation_id: opt_view(self.delivered_annotation_id),
            spawned_from: opt_view(self.spawned_from),
            active_since: opt_view(self.active_since),
            tracked_seconds: self.tracked_seconds,
            tracked_adjustment_seconds: self.tracked_adjustment_seconds,
            created: self.created@,
            modified: self.modified@,
            completed: opt_view(self.completed),
            rev: self.rev,
        }
    }
}

impl Row for Task {
    fn dup(&self) -> (r: Task) {
        Task {
            id: self.id.clone(),
            short_id: self.short_id,
            title: self.title.clone(),
            status: self.status,
            status_raw: dup_opt(&self.status_raw),
            priority: self.priority,
            project: dup_opt(&self.project),
            tags: dup_texts(&self.tags),
            due: dup_opt(&self.due),
            scheduled: dup_opt(&self.scheduled),
            wait: dup_opt(&self.wait),
            estimate: dup_opt(&self.estimate),
            recurrence: dup_opt(&self.recurrence),
            remind: dup_opt(&self.remind),
            budget_tokens: self.budget_tokens,
            delivered_annotation_id: dup_opt(&self.delivered_annotation_id),
            spawned_from: dup_opt(&self.spawned_from),
            active_since: dup_opt(&self.active_since),
            tracked_seconds: self.tracked_seconds,
            tracked_adjustment_seconds: self.tracked_adjustment_seconds,
            created: self.created.clone(),
            modified: self.modified.clone(),
            completed: dup_opt(&self.completed),
            rev: self.rev,
        }
    }
}

/// A note on a task. A note that was removed keeps its row, with the date.
#[derive(Debug)]
pub struct Annotation {
    pub id: String,
    pub task_id: String,
    pub body: String,
    pub created: String,
    pub removed: Option<String>,
}

/// What a [`Annotation`] says.
pub ghost struct AnnotationV {
    pub id: Seq<char>,
    pub task_id: Seq<char>,
    pub body: Seq<char>,
    pub created: Seq<char>,
    pub removed: Option<Seq<char>>,
}

impl View for Annotation {
    type V = AnnotationV;

    open spec fn view(&self) -> AnnotationV {
        AnnotationV {
            id: self.id@,
            task_id: self.task_id@,
            body: self.body@,
            created: self.created@,
            removed: opt_view(self.removed),
        }
    }
}

impl Row for Annotation {
    fn dup(&self) -> (r: Annotation) {
        Annotation {
            id: self.id.clone(),
            task_id: self.task_id.clone(),
            body: self.body.clone(),
            created: self.created.clone(),
            removed: dup_opt(&self.removed),
        }
    }
}

/// An acceptance criterion of a task.
#[derive(Debug)]
pub struct Check {
    pub id: String,
    pub task_id: String,
    pub body: String,
    pub state: String,
    pub evidence: Option<String>,
    pub position: i64,
    pub created: String,
    pub modified: String,
}

/// What a [`Check`] says.
pub ghost struct CheckV {
    pub id: Seq<char>,
    pub task_id: Seq<char>,
    pub body: Seq<char>,
    pub state: Seq<char>,
    pub evidence: Option<Seq<char>>,
    pub position: i64,
    pub created: Seq<char>,
    pub modified: Seq<char>,
}

impl View for Check {
    type V = CheckV;

    open spec fn view(&self) -> CheckV {
        CheckV {
            id: self.id@,
            task_id: self.task_id@,
            body: self.body@,
            state: self.state@,
            evidence: opt_view(self.evidence),
            position: self.position,
            created: self.created@,
            modified: self.modified@,
        }
    }
}

impl Row for Check {
    fn dup(&self) -> (r: Check) {
        Check {
            id: self.id.clone(),
            task_id: self.task_id.clone(),
            body: self.body.clone(),
            state: self.state.clone(),
            evidence: dup_opt(&self.evidence),
            position: self.position,
            created: self.created.clone(),
            modified: self.modified.clone(),
        }
    }
}

/// A token measurement of a task.
#[derive(Debug)]
pub struct Measurement {
    pub id: String,
    pub task_id: String,
    pub tool: String,
    pub source: String,
    pub model: Option<String>,
    pub input_tokens: i64,
    pub output_tokens: i64,
    pub cache_read_tokens: i64,
    pub cache_creation_tokens: i64,
    pub total_tokens: i64,
    pub confidence: String,
    pub created: String,
}

/// What a [`Measurement`] says.
pub ghost struct MeasurementV {
    pub id: Seq<char>,
    pub task_id: Seq<char>,
    pub tool: Seq<char>,
    pub source: Seq<char>,
    pub model: Option<Seq<char>>,
    pub input_tokens: i64,
    pub output_tokens: i64,
    pub cache_read_tokens: i64,
    pub cache_creation_tokens: i64,
    pub total_tokens: i64,
    pub confidence: Seq<char>,
    pub created: Seq<char>,
}

impl View for Measurement {
    type V = MeasurementV;

    open spec fn view(&self) -> MeasurementV {
        MeasurementV {
            id: self.id@,
            task_id: self.task_id@,
            tool: self.tool@,
            source: self.source@,
            model: opt_view(self.model),
            input_tokens: self.input_tokens,
            output_tokens: self.output_tokens,
            cache_read_tokens: self.cache_read_tokens,
            cache_creation_tokens: self.cache_creation_tokens,
            total_tokens: self.total_tokens,
            confidence: self.confidence@,
            created: self.created@,
        }
    }
}

impl Row for Measurement {
    fn dup(&self) -> (r: Measurement) {
        Measurement {
            id: self.id.clone(),
            task_id: self.task_id.clone(),
            tool: self.tool.clone(),
            source: self.source.clone(),
            model: dup_opt(&self.model),
            input_tokens: self.input_tokens,
            output_tokens: self.output_tokens,
            cache_read_tokens: self.cache_read_tokens,
            cache_creation_tokens: self.cache_creation_tokens,
            total_tokens: self.total_tokens,
            confidence: self.confidence.clone(),
            created: self.created.clone(),
        }
    }
}

/// A task waits for another.
#[derive(Debug)]
pub struct Dependency {
    pub task_id: String,
    pub depends_on: String,
}

/// What a [`Dependency`] says.
pub ghost struct DependencyV {
    pub task_id: Seq<char>,
    pub depends_on: Seq<char>,
}

impl View for Dependency {
    type V = DependencyV;

    open spec fn view(&self) -> DependencyV {
        DependencyV {
            task_id: self.task_id@,
            depends_on: self.depends_on@,
        }
    }
}

impl Row for Dependency {
    fn dup(&self) -> (r: Dependency) {
        Dependency {
            task_id: self.task_id.clone(),
            depends_on: self.depends_on.clone(),
        }
    }
}

/// A project row.
#[derive(Debug)]
pub struct Project {
    pub id: String,
    pub name: String,
    pub description: Option<String>,
    pub archived: bool,
    pub created: String,
}

/// What a [`Project`] says.
pub ghost struct ProjectV {
    pub id: Seq<char>,
    pub name: Seq<char>,
    pub description: Option<Seq<char>>,
    pub archived: bool,
    pub created: Seq<char>,
}

impl View for Project {
    type V = ProjectV;

    open spec fn view(&self) -> ProjectV {
        ProjectV {
            id: self.id@,
            name: self.name@,
            description: opt_view(self.description),
            archived: self.archived,
            created: self.created@,
        }
    }
}

impl Row for Project {
    fn dup(&self) -> (r: Project) {
        Project {
            id: self.id.clone(),
            name: self.name.clone(),
            description: dup_opt(&self.description),
            archived: self.archived,
            created: self.created.clone(),
        }
    }
}

/// A memory document. `search_body` is what is searched: the body with its front matter flattened.
#[derive(Debug)]
pub struct Doc {
    pub id: String,
    pub source: Option<String>,
    pub title: String,
    pub body: String,
    pub search_body: String,
    pub project: Option<String>,
    pub rev: i64,
    pub standing: bool,
    pub created: String,
    pub modified: String,
}

/// What a [`Doc`] says.
pub ghost struct DocV {
    pub id: Seq<char>,
    pub source: Option<Seq<char>>,
    pub title: Seq<char>,
    pub body: Seq<char>,
    pub search_body: Seq<char>,
    pub project: Option<Seq<char>>,
    pub rev: i64,
    pub standing: bool,
    pub created: Seq<char>,
    pub modified: Seq<char>,
}

impl View for Doc {
    type V = DocV;

    open spec fn view(&self) -> DocV {
        DocV {
            id: self.id@,
            source: opt_view(self.source),
            title: self.title@,
            body: self.body@,
            search_body: self.search_body@,
            project: opt_view(self.project),
            rev: self.rev,
            standing: self.standing,
            created: self.created@,
            modified: self.modified@,
        }
    }
}

impl Row for Doc {
    fn dup(&self) -> (r: Doc) {
        Doc {
            id: self.id.clone(),
            source: dup_opt(&self.source),
            title: self.title.clone(),
            body: self.body.clone(),
            search_body: self.search_body.clone(),
            project: dup_opt(&self.project),
            rev: self.rev,
            standing: self.standing,
            created: self.created.clone(),
            modified: self.modified.clone(),
        }
    }
}

/// A row of the log. `payload` is JSON text.
#[derive(Debug)]
pub struct Event {
    pub id: String,
    pub entity: String,
    pub entity_id: String,
    pub op: String,
    pub payload: Option<String>,
    pub ts: String,
    pub actor: Option<String>,
}

/// What a [`Event`] says.
pub ghost struct EventV {
    pub id: Seq<char>,
    pub entity: Seq<char>,
    pub entity_id: Seq<char>,
    pub op: Seq<char>,
    pub payload: Option<Seq<char>>,
    pub ts: Seq<char>,
    pub actor: Option<Seq<char>>,
}

impl View for Event {
    type V = EventV;

    open spec fn view(&self) -> EventV {
        EventV {
            id: self.id@,
            entity: self.entity@,
            entity_id: self.entity_id@,
            op: self.op@,
            payload: opt_view(self.payload),
            ts: self.ts@,
            actor: opt_view(self.actor),
        }
    }
}

impl Row for Event {
    fn dup(&self) -> (r: Event) {
        Event {
            id: self.id.clone(),
            entity: self.entity.clone(),
            entity_id: self.entity_id.clone(),
            op: self.op.clone(),
            payload: dup_opt(&self.payload),
            ts: self.ts.clone(),
            actor: dup_opt(&self.actor),
        }
    }
}

} // verus!
