//! What holds of every document the store writes.

use crate::children::live;
use crate::engine::EngineV;
use crate::export::default_kept;
use crate::export::doc_ids;
use crate::export::docs_kept;
use crate::export::dropped_edges;
use crate::export::event_in_scope;
use crate::export::events_kept;
use crate::export::ids_of;
use crate::export::import_mark;
use crate::export::kept_edges;
use crate::export::needed;
use crate::export::needed_by;
use crate::export::project_ids;
use crate::export::project_kept;
use crate::export::project_names;
use crate::export::projects_kept;
use crate::export::selected;
use crate::export::task_json;
use crate::expr::ExprV;
use crate::expr::Pred;
use crate::expr::PredV;
use crate::expr::projects_named;
use crate::restore::whole_keeps_all;
use crate::restore_children::kept_are_edges;
use crate::restore_children::no_edge_leads_out;
use crate::restore_tables::live_stands;
use crate::restore_tables::live_twice;
use crate::rows::EventV;
use crate::rows::ProjectV;
use crate::rows::TaskV;
use vstd::prelude::*;

verus! {

broadcast use vstd::string::group_string_axioms;

proof fn kept_events_are_scoped(
    e: Seq<EventV>,
    t: Seq<Seq<char>>,
    d: Seq<Seq<char>>,
    p: Seq<Seq<char>>,
    n: nat,
)
    ensures
        forall|i: int|
            0 <= i < events_kept(e, t, d, p, n).len() ==> event_in_scope(
                #[trigger] events_kept(e, t, d, p, n)[i],
                t,
                d,
                p,
            ) && !import_mark(events_kept(e, t, d, p, n)[i]),
    decreases n,
{
    if n > 0 && n <= e.len() {
        kept_events_are_scoped(e, t, d, p, (n - 1) as nat);
        let before = events_kept(e, t, d, p, (n - 1) as nat);
        let now = events_kept(e, t, d, p, n);
        assert forall|i: int| 0 <= i < now.len() implies event_in_scope(
            #[trigger] now[i],
            t,
            d,
            p,
        ) && !import_mark(now[i]) by {
            if i < before.len() {
                assert(now[i] == before[i]);
            }
        }
    }
}

proof fn names_stay_needed(s: Seq<TaskV>, named: Seq<Seq<char>>, n: nat)
    ensures
        forall|x: Seq<char>| named.contains(x) ==> #[trigger] needed_by(s, named, n).contains(x),
    decreases n,
{
    if n > 0 && n <= s.len() {
        names_stay_needed(s, named, (n - 1) as nat);
        let before = needed_by(s, named, (n - 1) as nat);
        let now = needed_by(s, named, n);
        assert forall|x: Seq<char>| named.contains(x) implies #[trigger] now.contains(x) by {
            assert(before.contains(x));
            let k = choose|k: int| 0 <= k < before.len() && before[k] == x;
            assert(now[k] == x);
        }
    }
}

proof fn projects_are_needed(s: Seq<TaskV>, named: Seq<Seq<char>>, n: nat, i: int)
    requires
        0 <= i < n <= s.len(),
        s[i].project is Some,
    ensures
        needed_by(s, named, n).contains(s[i].project->0),
    decreases n,
{
    let before = needed_by(s, named, (n - 1) as nat);
    let now = needed_by(s, named, n);
    let x = s[i].project->0;
    if i < n - 1 {
        projects_are_needed(s, named, (n - 1) as nat, i);
        let k = choose|k: int| 0 <= k < before.len() && before[k] == x;
        assert(now[k] == x);
    } else {
        assert(now[before.len() as int] == x);
    }
}

proof fn needed_projects_are_kept(p: Seq<ProjectV>, need: Option<Seq<Seq<char>>>, n: nat, i: int)
    requires
        0 <= i < n <= p.len(),
        project_kept(p[i], need),
    ensures
        projects_kept(p, need, n).contains(p[i]),
    decreases n,
{
    let before = projects_kept(p, need, (n - 1) as nat);
    let now = projects_kept(p, need, n);
    if i < n - 1 {
        needed_projects_are_kept(p, need, (n - 1) as nat, i);
        let k = choose|k: int| 0 <= k < before.len() && before[k] == p[i];
        assert(now[k] == p[i]);
    } else {
        assert(now[before.len() as int] == p[i]);
    }
}

/// A document names only what it carries: every edge leads to a task in it,
/// every event is about something in it and is no mark of an import, and the
/// default project is among its projects.
pub proof fn documents_name_only_what_they_carry(e: EngineV, f: ExprV, unscoped: bool)
    ensures
        ({
            let s = selected(e, f, e.tasks.len());
            let present = ids_of(s);
            let need = needed(f, s);
            let docs = docs_kept(e.docs, need, unscoped, e.docs.len());
            let projects = projects_kept(e.projects, need, e.projects.len());
            let events = events_kept(
                e.events,
                present,
                doc_ids(docs),
                project_ids(projects),
                e.events.len(),
            );
            &&& forall|id: Seq<char>, j: int|
                0 <= j < kept_edges(e.dependencies, id, present, e.dependencies.len()).len()
                    ==> present.contains(
                    #[trigger] kept_edges(
                        e.dependencies,
                        id,
                        present,
                        e.dependencies.len(),
                    )[j],
                )
            &&& forall|i: int|
                0 <= i < events.len() ==> event_in_scope(
                    #[trigger] events[i],
                    present,
                    doc_ids(docs),
                    project_ids(projects),
                ) && !import_mark(events[i])
            &&& f != ExprV::Pred(PredV::Always) ==> (default_kept(e, need, projects) matches Some(
                d,
            ) ==> project_names(projects).contains(d))
        }),
{
    let s = selected(e, f, e.tasks.len());
    let present = ids_of(s);
    let need = needed(f, s);
    let docs = docs_kept(e.docs, need, unscoped, e.docs.len());
    let projects = projects_kept(e.projects, need, e.projects.len());
    kept_events_are_scoped(
        e.events,
        present,
        doc_ids(docs),
        project_ids(projects),
        e.events.len(),
    );
    assert forall|id: Seq<char>, j: int|
        0 <= j < kept_edges(e.dependencies, id, present, e.dependencies.len()).len() implies
        present.contains(
        #[trigger] kept_edges(e.dependencies, id, present, e.dependencies.len())[j],
    ) by {
        kept_are_edges(e.dependencies, id, present, e.dependencies.len());
    }
}

/// A document carries what its tasks need: the project of every task in it,
/// and every project its filter names, where the store has it.
pub proof fn documents_carry_the_projects_they_need(e: EngineV, f: ExprV, i: int)
    requires
        0 <= i < e.projects.len(),
        ({
            let s = selected(e, f, e.tasks.len());
            projects_named(f).contains(e.projects[i].name) || exists|k: int|
                0 <= k < s.len() && (#[trigger] s[k]).project == Some(e.projects[i].name)
        }),
    ensures
        projects_kept(
            e.projects,
            needed(f, selected(e, f, e.tasks.len())),
            e.projects.len(),
        ).contains(e.projects[i]),
{
    let s = selected(e, f, e.tasks.len());
    let named = projects_named(f);
    names_stay_needed(s, named, s.len());
    if !named.contains(e.projects[i].name) {
        let k = choose|k: int|
            0 <= k < s.len() && (#[trigger] s[k]).project == Some(e.projects[i].name);
        projects_are_needed(s, named, s.len(), k);
    }
    needed_projects_are_kept(e.projects, needed(f, s), e.projects.len(), i);
}

/// A document of the whole store leaves out no task, no edge, no project and no
/// memory document.
pub proof fn whole_documents_drop_nothing(e: EngineV)
    requires
        e.wf(),
    ensures
        ({
            let f = ExprV::Pred(PredV::Always);
            &&& selected(e, f, e.tasks.len()) == e.tasks
            &&& dropped_edges(e.dependencies, ids_of(e.tasks), e.dependencies.len()) == 0
            &&& projects_kept(e.projects, needed(f, e.tasks), e.projects.len()) == e.projects
            &&& docs_kept(e.docs, needed(f, e.tasks), false, e.docs.len()) == e.docs
        }),
{
    whole_keeps_all(e);
    assert forall|i: int| 0 <= i < e.dependencies.len() implies e.dependencies.contains(
        #[trigger] e.dependencies[i],
    ) by {
    }
    no_edge_leads_out(e, e.dependencies, e.dependencies.len());
}

/// A document says nothing of a note that was removed: a task is written as it
/// would be without it.
#[verifier::rlimit(40)]
pub proof fn removed_notes_are_not_carried(e: EngineV, t: TaskV, present: Seq<Seq<char>>)
    ensures
        task_json(EngineV { annotations: live(e.annotations), ..e }, t, present) == task_json(
            e,
            t,
            present,
        ),
{
    live_stands(e.annotations);
    live_twice(live(e.annotations));
}

} // verus!
