//! The store in memory: its tables, and the rules that hold of them.
//!
//! Projects are ordered by name, documents and events by id, tasks by their
//! number. Rows that belong to a task keep the order they were written in.

use crate::graph::acyclic;
use crate::rows::Annotation;
use crate::rows::AnnotationV;
use crate::rows::Check;
use crate::rows::CheckV;
use crate::rows::Dependency;
use crate::rows::DependencyV;
use crate::rows::Doc;
use crate::rows::DocV;
use crate::rows::dup_opt;
use crate::rows::dup_rows;
use crate::rows::Event;
use crate::rows::EventV;
use crate::rows::Measurement;
use crate::rows::MeasurementV;
use crate::rows::Project;
use crate::rows::ProjectV;
use crate::rows::rows;
use crate::rows::Task;
use crate::rows::TaskV;
use crate::tables::ordered;
use crate::text::same;
use crate::types::Status;
use crate::value::opt_view;
use vstd::prelude::*;

verus! {

broadcast use {vstd::string::group_string_axioms, crate::rows::rows_push};

/// The store.
#[derive(Debug)]
pub struct Engine {
    pub tasks: Vec<Task>,
    pub annotations: Vec<Annotation>,
    pub checks: Vec<Check>,
    pub measurements: Vec<Measurement>,
    pub dependencies: Vec<Dependency>,
    pub projects: Vec<Project>,
    pub docs: Vec<Doc>,
    pub events: Vec<Event>,
    pub default_project: Option<String>,
    /// The number the next new task takes.
    pub next_short_id: i64,
}

/// What an [`Engine`] holds.
pub ghost struct EngineV {
    pub tasks: Seq<TaskV>,
    pub annotations: Seq<AnnotationV>,
    pub checks: Seq<CheckV>,
    pub measurements: Seq<MeasurementV>,
    pub dependencies: Seq<DependencyV>,
    pub projects: Seq<ProjectV>,
    pub docs: Seq<DocV>,
    pub events: Seq<EventV>,
    pub default_project: Option<Seq<char>>,
    pub next_short_id: i64,
}

impl View for Engine {
    type V = EngineV;

    open spec fn view(&self) -> EngineV {
        EngineV {
            tasks: rows(self.tasks@),
            annotations: rows(self.annotations@),
            checks: rows(self.checks@),
            measurements: rows(self.measurements@),
            dependencies: rows(self.dependencies@),
            projects: rows(self.projects@),
            docs: rows(self.docs@),
            events: rows(self.events@),
            default_project: opt_view(self.default_project),
            next_short_id: self.next_short_id,
        }
    }
}

/// A store without anything.
pub open spec fn nothing() -> EngineV {
    EngineV {
        tasks: Seq::empty(),
        annotations: Seq::empty(),
        checks: Seq::empty(),
        measurements: Seq::empty(),
        dependencies: Seq::empty(),
        projects: Seq::empty(),
        docs: Seq::empty(),
        events: Seq::empty(),
        default_project: None,
        next_short_id: 1,
    }
}

/// The task with this id, if there is one.
pub open spec fn task_by_id(s: Seq<TaskV>, id: Seq<char>) -> Option<TaskV>
    decreases s.len(),
{
    if s.len() == 0 {
        None
    } else if s.last().id == id {
        Some(s.last())
    } else {
        task_by_id(s.drop_last(), id)
    }
}

/// Whether some task has this number.
pub open spec fn number_taken(s: Seq<TaskV>, short_id: i64) -> bool {
    exists|i: int| 0 <= i < s.len() && (#[trigger] s[i]).short_id == short_id
}

/// The tasks with `t` in place of the one with its id.
pub open spec fn task_replaced(s: Seq<TaskV>, t: TaskV) -> Seq<TaskV>
    decreases s.len(),
{
    if s.len() == 0 {
        s
    } else if s.last().id == t.id {
        s.drop_last().push(t)
    } else {
        task_replaced(s.drop_last(), t).push(s.last())
    }
}

/// The tasks with `t` where its number belongs.
pub open spec fn task_added(s: Seq<TaskV>, t: TaskV) -> Seq<TaskV>
    decreases s.len(),
{
    if s.len() == 0 {
        seq![t]
    } else if s.last().short_id < t.short_id {
        s.push(t)
    } else {
        task_added(s.drop_last(), t).push(s.last())
    }
}

/// The tasks with `t` among them: in place of the one with its id, or where
/// its number belongs.
pub open spec fn task_put(s: Seq<TaskV>, t: TaskV) -> Seq<TaskV> {
    if task_by_id(s, t.id) is Some {
        task_replaced(s, t)
    } else {
        task_added(s, t)
    }
}

/// Whether a task still has to be done.
pub open spec fn open_task(t: TaskV) -> bool {
    t.status != Status::Done && t.status != Status::Cancelled
}

/// Whether a task waits: it is open, and some task it depends on is open.
pub open spec fn is_blocked(e: EngineV, t: TaskV) -> bool {
    open_task(t) && exists|i: int|
        0 <= i < e.dependencies.len() && (#[trigger] e.dependencies[i]).task_id == t.id && (
        match task_by_id(e.tasks, e.dependencies[i].depends_on) {
            Some(d) => open_task(d),
            None => false,
        })
}

/// A table of tasks is in order: the numbers rise, are at least 1 and below
/// the next one, and no id occurs twice.
pub open spec fn tasks_ok(s: Seq<TaskV>, next: i64) -> bool {
    &&& forall|i: int, j: int|
        0 <= i < j < s.len() ==> (#[trigger] s[i]).short_id < (#[trigger] s[j]).short_id
    &&& forall|i: int, j: int| 0 <= i < j < s.len() ==> (#[trigger] s[i]).id != (#[trigger] s[j]).id
    &&& forall|i: int| 0 <= i < s.len() ==> 1 <= (#[trigger] s[i]).short_id < next
}

impl EngineV {
    /// What holds of every store: tables are in order, a task's number is its
    /// own, every dependency joins two tasks, and none waits for itself.
    pub open spec fn wf(self) -> bool {
        &&& 1 <= self.next_short_id
        &&& tasks_ok(self.tasks, self.next_short_id)
        &&& ordered::<Project>(self.projects)
        &&& ordered::<Doc>(self.docs)
        &&& ordered::<Event>(self.events)
        &&& acyclic(self.dependencies)
        &&& forall|i: int|
            0 <= i < self.dependencies.len() ==> task_by_id(
                self.tasks,
                (#[trigger] self.dependencies[i]).task_id,
            ) is Some && task_by_id(self.tasks, self.dependencies[i].depends_on) is Some
    }
}

impl Engine {
    /// An empty store.
    pub fn open_in_memory() -> (r: Engine)
        ensures
            r@.wf(),
            r@ == nothing(),
    {
        let r = Engine {
            tasks: Vec::new(),
            annotations: Vec::new(),
            checks: Vec::new(),
            measurements: Vec::new(),
            dependencies: Vec::new(),
            projects: Vec::new(),
            docs: Vec::new(),
            events: Vec::new(),
            default_project: None,
            next_short_id: 1,
        };
        assert(r@.tasks =~= Seq::empty());
        assert(r@.annotations =~= Seq::empty());
        assert(r@.checks =~= Seq::empty());
        assert(r@.measurements =~= Seq::empty());
        assert(r@.dependencies =~= Seq::empty());
        assert(r@.projects =~= Seq::empty());
        assert(r@.docs =~= Seq::empty());
        assert(r@.events =~= Seq::empty());
        r
    }

    /// A copy of the store.
    pub fn dup(&self) -> (r: Engine)
        ensures
            r@ == self@,
    {
        Engine {
            tasks: dup_rows(&self.tasks),
            annotations: dup_rows(&self.annotations),
            checks: dup_rows(&self.checks),
            measurements: dup_rows(&self.measurements),
            dependencies: dup_rows(&self.dependencies),
            projects: dup_rows(&self.projects),
            docs: dup_rows(&self.docs),
            events: dup_rows(&self.events),
            default_project: dup_opt(&self.default_project),
            next_short_id: self.next_short_id,
        }
    }

    /// Where the task with this id stands, if there is one.
    pub fn find_task(&self, id: &str) -> (r: Option<usize>)
        ensures
            r is Some == task_by_id(self@.tasks, id@) is Some,
            r is Some ==> r->0 < self.tasks@.len() && task_by_id(self@.tasks, id@) == Some(
                self.tasks@[r->0 as int]@,
            ),
    {
        let mut i: usize = self.tasks.len();
        assert(self@.tasks.take(i as int) =~= self@.tasks);
        while i > 0
            invariant
                i <= self.tasks@.len(),
                task_by_id(self@.tasks, id@) == task_by_id(self@.tasks.take(i as int), id@),
            decreases i,
        {
            let ghost now = self@.tasks.take(i as int);
            assert(now.drop_last() =~= self@.tasks.take(i - 1));
            assert(now.last() == self.tasks@[i - 1]@);
            i -= 1;
            if same(self.tasks[i].id.as_str(), id) {
                return Some(i);
            }
        }
        None
    }

    /// Whether some task has this number.
    pub fn number_in_use(&self, short_id: i64) -> (r: bool)
        ensures
            r == number_taken(self@.tasks, short_id),
    {
        let mut i: usize = 0;
        while i < self.tasks.len()
            invariant
                i <= self.tasks@.len(),
                forall|k: int| 0 <= k < i ==> (#[trigger] self@.tasks[k]).short_id != short_id,
            decreases self.tasks@.len() - i,
        {
            assert(self@.tasks[i as int] == self.tasks@[i as int]@);
            if self.tasks[i].short_id == short_id {
                return true;
            }
            i += 1;
        }
        false
    }

    /// Whether a task waits for an open one.
    pub fn blocked(&self, t: &Task) -> (r: bool)
        ensures
            r == is_blocked(self@, t@),
    {
        if t.status == Status::Done || t.status == Status::Cancelled {
            return false;
        }
        let mut i: usize = 0;
        while i < self.dependencies.len()
            invariant
                i <= self.dependencies@.len(),
                forall|k: int|
                    0 <= k < i && (#[trigger] self@.dependencies[k]).task_id == t@.id ==> (
                    match task_by_id(self@.tasks, self@.dependencies[k].depends_on) {
                        Some(d) => !open_task(d),
                        None => true,
                    }),
                open_task(t@),
            decreases self.dependencies@.len() - i,
        {
            assert(self@.dependencies[i as int] == self.dependencies@[i as int]@);
            if same(self.dependencies[i].task_id.as_str(), t.id.as_str()) {
                if let Some(k) = self.find_task(self.dependencies[i].depends_on.as_str()) {
                    let d: Status = self.tasks[k].status;
                    if d != Status::Done && d != Status::Cancelled {
                        return true;
                    }
                }
            }
            i += 1;
        }
        false
    }
}

/// Writes a task: in place of the one with its id, or where its number belongs.
pub fn put_task(v: &mut Vec<Task>, t: Task)
    ensures
        rows(final(v)@) == task_put(rows(old(v)@), t@),
{
    let ghost before = rows(v@);
    let mut i: usize = v.len();
    assert(before.take(i as int) =~= before);
    assert(task_replaced(before, t@) =~= task_replaced(before.take(i as int), t@) + before.skip(
        i as int,
    ));
    while i > 0
        invariant
            before == rows(v@),
            v@ == old(v)@,
            i <= v@.len(),
            task_by_id(before, t@.id) == task_by_id(before.take(i as int), t@.id),
            task_replaced(before, t@) =~= task_replaced(before.take(i as int), t@) + before.skip(
                i as int,
            ),
        decreases i,
    {
        let ghost now = before.take(i as int);
        assert(now.drop_last() =~= before.take(i - 1));
        assert(now.last() == v@[i - 1]@);
        if same(v[i - 1].id.as_str(), t.id.as_str()) {
            v.set(i - 1, t);
            assert(rows(v@) =~= before.take(i - 1).push(t@) + before.skip(i as int));
            return;
        }
        assert(before.skip(i - 1) =~= seq![now.last()] + before.skip(i as int));
        i -= 1;
    }
    let mut j: usize = v.len();
    assert(before.take(j as int) =~= before);
    assert(task_added(before, t@) =~= task_added(before.take(j as int), t@) + before.skip(
        j as int,
    ));
    while j > 0
        invariant
            before == rows(v@),
            v@ == old(v)@,
            j <= v@.len(),
            task_by_id(before, t@.id) is None,
            task_added(before, t@) =~= task_added(before.take(j as int), t@) + before.skip(
                j as int,
            ),
        decreases j,
    {
        let ghost now = before.take(j as int);
        assert(now.drop_last() =~= before.take(j - 1));
        assert(now.last() == v@[j - 1]@);
        if v[j - 1].short_id < t.short_id {
            v.insert(j, t);
            assert(rows(v@) =~= before.take(j as int).push(t@) + before.skip(j as int));
            return;
        }
        assert(before.skip(j - 1) =~= seq![now.last()] + before.skip(j as int));
        j -= 1;
    }
    assert(before.take(0) =~= Seq::empty());
    v.insert(0, t);
    assert(rows(v@) =~= seq![t@] + before.skip(0));
}

} // verus!
