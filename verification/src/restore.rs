//! A document of the whole store gives the store back.
//!
//! Imported over the store it came from it changes nothing that a document
//! shows; imported into an empty store it gives the same tasks, projects,
//! memory documents and default project, and replays the log.

use crate::children::Child;
use crate::children::live;
use crate::children::owned;
use crate::children::without;
use crate::engine::EngineV;
use crate::engine::nothing;
use crate::engine::task_by_id;
use crate::engine::task_put;
use crate::error::ErrorV;
use crate::export::doc_ids;
use crate::export::doc_json;
use crate::export::docs_json;
use crate::export::docs_kept;
use crate::export::document;
use crate::export::event_in_scope;
use crate::export::event_json;
use crate::export::events_dropped;
use crate::export::events_json;
use crate::export::events_kept;
use crate::export::exported;
use crate::export::ids_of;
use crate::export::import_mark;
use crate::export::project_ids;
use crate::export::project_json;
use crate::export::projects_json;
use crate::export::projects_kept;
use crate::export::selected;
use crate::export::task_json;
use crate::export::task_members;
use crate::export::tasks_json;
use crate::expr::CtxV;
use crate::expr::ExprV;
use crate::expr::Pred;
use crate::expr::PredV;
use crate::filter::parsed;
use crate::filter::Spellings;
use crate::filter_laws::empty_filter_selects_everything;
use crate::import_children::each;
use crate::import_laws::found_stands;
use crate::import_read::EnvV;
use crate::import_rules::begun;
use crate::import_rules::claims_spec;
use crate::import_rules::doc_mark;
use crate::import_rules::doc_one;
use crate::import_rules::doc_step;
use crate::import_rules::event_one;
use crate::import_rules::event_step;
use crate::import_rules::finished;
use crate::import_rules::first_claim;
use crate::import_rules::imported;
use crate::import_rules::logged;
use crate::import_rules::mark_read_back;
use crate::import_rules::project_mark;
use crate::import_rules::project_one;
use crate::import_rules::project_step;
use crate::import_rules::raised;
use crate::import_rules::readable;
use crate::import_rules::report;
use crate::import_rules::row_mark_read_back;
use crate::import_rules::rows_marks_read_back;
use crate::import_rules::section;
use crate::import_rules::sections_in;
use crate::import_rules::source_holder;
use crate::import_rules::task_mark;
use crate::import_rules::task_one;
use crate::import_rules::task_step;
use crate::import_rules::tasks_in;
use crate::import_rules::tasks_spec;
use crate::import_rules::Work;
use crate::journal::event_row;
use crate::json::JsonV;
use crate::params::opt_array_spec;
use crate::params::opt_str_nonempty_spec;
use crate::restore_children::checks_put_back;
use crate::restore_children::edges_gathered;
use crate::restore_children::edges_listed;
use crate::restore_children::edges_on;
use crate::restore_children::edges_put_back;
use crate::restore_children::gathered_is_stored;
use crate::restore_children::gathered_keeps_edges;
use crate::restore_children::measurements_put_back;
use crate::restore_children::no_edge_leads_out;
use crate::restore_children::notes_put_back;
use crate::restore_rows::doc_reads;
use crate::restore_rows::document_reads;
use crate::restore_rows::task_reads;
use crate::restore_steps::doc_step_reads;
use crate::restore_steps::event_step_reads;
use crate::restore_steps::project_step_reads;
use crate::restore_steps::replayed;
use crate::restore_steps::row_body;
use crate::restore_steps::row_edges;
use crate::restore_steps::row_head;
use crate::restore_steps::row_merges;
use crate::restore_steps::row_tags;
use crate::restore_tables::next_row_put;
use crate::restore_tables::next_task_put;
use crate::restore_tables::notes_back;
use crate::restore_tables::one_more_has_notes;
use crate::restore_tables::one_more_put_back;
use crate::restore_tables::put_back;
use crate::restore_tables::rest_stands;
use crate::restore_tables::row_put_again;
use crate::restore_tables::standing_row_is_found;
use crate::restore_tables::task_put_again;
use crate::rows::Annotation;
use crate::rows::Check;
use crate::rows::Dependency;
use crate::rows::Doc;
use crate::rows::DocV;
use crate::rows::Event;
use crate::rows::EventV;
use crate::rows::Measurement;
use crate::rows::Project;
use crate::rows::ProjectV;
use crate::rows::Task;
use crate::sound::doc_sound;
use crate::sound::event_sound;
use crate::sound::ids_fresh;
use crate::sound::project_sound;
use crate::sound::sound;
use crate::sound::task_sound;
use crate::tables::find;
use crate::tables::Keyed;
use crate::tables::ordered;
use crate::tables::put;
use crate::tables::put_is_found;
use crate::tables::put_leaves_the_rest;
use crate::tables::text_lt;
use crate::tables::text_lt_irreflexive;
use crate::types::Entity;
use crate::types::entity_word_names_itself;
use crate::types::Status;
use crate::vector_index::Pending;
use vstd::prelude::*;

verus! {

broadcast use vstd::string::group_string_axioms;

/// The store a document is imported into: the one it came from, or none.
pub open spec fn start(s: EngineV, known: bool) -> EngineV {
    if known {
        s
    } else {
        nothing()
    }
}

/// The rows that are there once the first `n` are read.
pub open spec fn part<T>(s: Seq<T>, n: nat, known: bool) -> Seq<T> {
    if known {
        s
    } else {
        s.take(n as int)
    }
}

/// The events of a log that a document of the whole store carries.
pub open spec fn kept_in(events: Seq<EventV>, s: EngineV) -> Seq<EventV> {
    events_kept(events, ids_of(s.tasks), doc_ids(s.docs), project_ids(s.projects), events.len())
}

/// How many events of a log a document of the whole store leaves out.
pub open spec fn dropped_in(events: Seq<EventV>, s: EngineV) -> nat {
    events_dropped(events, ids_of(s.tasks), doc_ids(s.docs), project_ids(s.projects), events.len())
}

/// Whether an event is about something in the store.
pub open spec fn scoped(x: EventV, s: EngineV) -> bool {
    event_in_scope(x, ids_of(s.tasks), doc_ids(s.docs), project_ids(s.projects))
}

/// The log under way: the ids from `used` on are free, the first `m` events of
/// the document are there, and, in the store it came from, the document would
/// carry the same events.
pub open spec fn log_at(
    events: Seq<EventV>,
    s: EngineV,
    ids: Seq<Seq<char>>,
    used: nat,
    m: nat,
    known: bool,
) -> bool {
    let kept = kept_in(s.events, s);
    &&& forall|k: int| used <= k < ids.len() ==> find::<Event>(events, #[trigger] ids[k]) is None
    &&& forall|i: int|
        0 <= i < m ==> find::<Event>(events, (#[trigger] kept[i]).id) == Some(
            if known {
                kept[i]
            } else {
                replayed(kept[i])
            },
        )
    &&& !known ==> forall|i: int|
        m <= i < kept.len() ==> find::<Event>(events, (#[trigger] kept[i]).id) is None
    &&& known && marks_read_back(s) ==> kept_in(events, s) == kept && dropped_in(events, s)
        == dropped_in(s.events, s)
}

proof fn kept_of_first_events(
    a: Seq<EventV>,
    b: Seq<EventV>,
    t: Seq<Seq<char>>,
    d: Seq<Seq<char>>,
    p: Seq<Seq<char>>,
    n: nat,
)
    requires
        n <= a.len(),
        n <= b.len(),
        forall|i: int| 0 <= i < n ==> a[i] == b[i],
    ensures
        events_kept(a, t, d, p, n) == events_kept(b, t, d, p, n),
        events_dropped(a, t, d, p, n) == events_dropped(b, t, d, p, n),
    decreases n,
{
    if n > 0 {
        kept_of_first_events(a, b, t, d, p, (n - 1) as nat);
        assert(a[n - 1] == b[n - 1]);
    }
}

/// A mark that an import leaves changes nothing of what a document carries.
proof fn mark_is_not_kept(events: Seq<EventV>, x: EventV, s: EngineV)
    requires
        find::<Event>(events, x.id) is None,
        import_mark(x),
        scoped(x, s),
    ensures
        kept_in(put::<Event>(events, x), s) == kept_in(events, s),
        dropped_in(put::<Event>(events, x), s) == dropped_in(events, s),
    decreases events.len(),
{
    let t = ids_of(s.tasks);
    let d = doc_ids(s.docs);
    let p = project_ids(s.projects);
    let r = put::<Event>(events, x);
    if events.len() == 0 {
        assert(r[0] == x);
        assert(events_kept(r, t, d, p, 0) =~= Seq::empty());
        assert(events_dropped(r, t, d, p, 0) == 0);
    } else if text_lt(events.last().id, x.id) {
        assert(r == events.push(x));
        kept_of_first_events(r, events, t, d, p, events.len());
        assert(r[events.len() as int] == x);
    } else {
        let e = events.drop_last();
        mark_is_not_kept(e, x, s);
        let q = put::<Event>(e, x);
        put_length(e, x);
        assert(r == q.push(events.last()));
        kept_of_first_events(r, q, t, d, p, q.len());
        kept_of_first_events(events, e, t, d, p, e.len());
        assert(r[q.len() as int] == events.last());
    }
}

proof fn put_length(events: Seq<EventV>, x: EventV)
    requires
        find::<Event>(events, x.id) is None,
    ensures
        put::<Event>(events, x).len() == events.len() + 1,
    decreases events.len(),
{
    if events.len() > 0 {
        put_length(events.drop_last(), x);
    }
}

/// What a document carries of a log stands in the log, in order.
proof fn kept_stand(events: Seq<EventV>, t: Seq<Seq<char>>, d: Seq<Seq<char>>, p: Seq<Seq<char>>, n: nat)
    requires
        ordered::<Event>(events),
        n <= events.len(),
    ensures
        forall|i: int|
            0 <= i < events_kept(events, t, d, p, n).len() ==> events.take(n as int).contains(
                #[trigger] events_kept(events, t, d, p, n)[i],
            ),
        ordered::<Event>(events_kept(events, t, d, p, n)),
    decreases n,
{
    if n > 0 {
        kept_stand(events, t, d, p, (n - 1) as nat);
        let before = events_kept(events, t, d, p, (n - 1) as nat);
        let now = events_kept(events, t, d, p, n);
        let a = events.take(n - 1);
        let b = events.take(n as int);
        assert forall|i: int| 0 <= i < now.len() implies b.contains(#[trigger] now[i]) by {
            if i < before.len() {
                assert(now[i] == before[i]);
                let k = choose|k: int| 0 <= k < a.len() && a[k] == before[i];
                assert(b[k] == now[i]);
            } else {
                assert(b[n - 1] == now[i]);
            }
        }
        assert forall|i: int, j: int| 0 <= i < j < now.len() implies text_lt(
            #[trigger] <Event as Keyed>::key_of(now[i]),
            #[trigger] <Event as Keyed>::key_of(now[j]),
        ) by {
            assert(now[i] == before[i]);
            if j < before.len() {
                assert(text_lt(<Event as Keyed>::key_of(before[i]), <Event as Keyed>::key_of(before[j])));
            } else {
                assert(a.contains(before[i]));
                let k = choose|k: int| 0 <= k < a.len() && a[k] == before[i];
                assert(text_lt(<Event as Keyed>::key_of(events[k]), <Event as Keyed>::key_of(events[n - 1])));
            }
        }
    }
}

/// What a document carries of the log: events of the store, in order, none of
/// them under a fresh id.
proof fn kept_facts(s: EngineV, env: EnvV, n: nat)
    requires
        sound(s, env),
        ids_fresh(s, env.log.ids, n),
    ensures
        ordered::<Event>(kept_in(s.events, s)),
        forall|i: int|
            0 <= i < kept_in(s.events, s).len() ==> event_sound(#[trigger] kept_in(s.events, s)[i])
                && find::<Event>(s.events, kept_in(s.events, s)[i].id) == Some(
                kept_in(s.events, s)[i],
            ),
        forall|i: int, k: int|
            0 <= i < kept_in(s.events, s).len() && 0 <= k < env.log.ids.len() ==> (
            #[trigger] kept_in(s.events, s)[i]).id != #[trigger] env.log.ids[k],
{
    let kept = kept_in(s.events, s);
    let n = s.events.len();
    kept_stand(s.events, ids_of(s.tasks), doc_ids(s.docs), project_ids(s.projects), n);
    assert(s.events.take(n as int) =~= s.events);
    assert forall|i: int| 0 <= i < kept.len() implies event_sound(#[trigger] kept[i])
        && find::<Event>(s.events, kept[i].id) == Some(kept[i]) by {
        let k = choose|k: int| 0 <= k < s.events.len() && s.events[k] == kept[i];
        assert(event_sound(s.events[k]));
        standing_row_is_found::<Event>(s.events, k);
    }
    assert forall|i: int, k: int|
        0 <= i < kept.len() && 0 <= k < env.log.ids.len() implies (#[trigger] kept[i]).id
        != #[trigger] env.log.ids[k] by {
        assert(find::<Event>(s.events, env.log.ids[k]) is None);
    }
}

/// One more mark is logged.
proof fn one_mark_logged(
    w: Work,
    s: EngineV,
    env: EnvV,
    m: nat,
    known: bool,
    entity: Entity,
    id: Seq<char>,
    op: Seq<char>,
    payload: JsonV,
)
    requires
        sound(s, env),
        ids_fresh(s, env.log.ids, w.used + 1),
        log_at(w.e.events, s, env.log.ids, w.used, m, known),
        m <= kept_in(s.events, s).len(),
        known && marks_read_back(s) ==> import_mark(
            event_row(env.log.ids[w.used as int], entity, id, op, payload, env.log),
        ) && scoped(event_row(env.log.ids[w.used as int], entity, id, op, payload, env.log), s),
    ensures
        logged(w, entity, id, op, payload, env) matches Ok(r) && r == (Work {
            e: EngineV { events: r.e.events, ..w.e },
            used: w.used + 1,
            ..w
        }) && log_at(r.e.events, s, env.log.ids, w.used + 1, m, known),
{
    let ids = env.log.ids;
    let u = w.used as int;
    let x = event_row(ids[u], entity, id, op, payload, env.log);
    let events = w.e.events;
    let r = put::<Event>(events, x);
    let kept = kept_in(s.events, s);
    kept_facts(s, env, w.used + 1);
    assert(find::<Event>(events, ids[u]) is None);
    assert forall|k: int| w.used + 1 <= k < ids.len() implies find::<Event>(
        r,
        #[trigger] ids[k],
    ) is None by {
        assert(ids[u] != ids[k]);
        put_leaves_the_rest::<Event>(events, x, ids[k]);
        assert(find::<Event>(events, ids[k]) is None);
    }
    assert forall|i: int| 0 <= i < kept.len() implies find::<Event>(r, (#[trigger] kept[i]).id)
        == find::<Event>(events, kept[i].id) by {
        assert(kept[i].id != ids[u]);
        put_leaves_the_rest::<Event>(events, x, kept[i].id);
    }
    if known && marks_read_back(s) {
        mark_is_not_kept(events, x, s);
    }
}

/// How many events of the document are in the log before any is read.
pub open spec fn there_before(s: EngineV, known: bool) -> nat {
    if known {
        kept_in(s.events, s).len()
    } else {
        0
    }
}

/// The import under way among the sections: `p` projects, `d` memory documents
/// and `m` events are read.
pub open spec fn sections_at(
    w: Work,
    s: EngineV,
    env: EnvV,
    known: bool,
    p: nat,
    d: nat,
    m: nat,
) -> bool {
    &&& w == (Work {
        e: EngineV {
            projects: part(s.projects, p, known),
            docs: part(s.docs, d, known),
            events: w.e.events,
            ..start(s, known)
        },
        used: p + d,
        replayed: w.replayed,
        ..begun(start(s, known))
    })
    &&& log_at(w.e.events, s, env.log.ids, p + d, m, known)
}

/// Whether the marks an import leaves of the memory documents are read back.
pub open spec fn marks_read_back(s: EngineV) -> bool {
    forall|i: int|
        0 <= i < s.docs.len() ==> mark_read_back(
            (#[trigger] s.docs[i]).title,
            s.docs[i].source,
        )
}

/// The mark of a memory document, where it is read back, is known as one.
proof fn mark_is_known(title: Seq<char>, source: Option<Seq<char>>)
    ensures
        doc_mark(title, source).get("via"@) == Some(JsonV::Str("store.import"@)),
{
    let m = doc_mark(title, source)->Obj_0;
    assert(m.last() == ("via"@, JsonV::Str("store.import"@)));
}

/// What a law on giving a store back asks: the store holds what it writes, and
/// there are fresh ids for the rows of the document.
pub open spec fn restorable(s: EngineV, env: EnvV) -> bool {
    &&& sound(s, env)
    &&& ids_fresh(s, env.log.ids, s.projects.len() + s.docs.len() + s.tasks.len())
}

proof fn log_begins(s: EngineV, env: EnvV, known: bool)
    requires
        restorable(s, env),
    ensures
        sections_at(begun(start(s, known)), s, env, known, 0, 0, there_before(s, known)),
{
    let n = s.projects.len() + s.docs.len() + s.tasks.len();
    kept_facts(s, env, n);
    assert(s.projects.take(0) =~= Seq::empty());
    assert(s.docs.take(0) =~= Seq::empty());
}

proof fn projects_put_back(s: EngineV, env: EnvV, known: bool, n: nat)
    requires
        restorable(s, env),
        n <= s.projects.len(),
    ensures
        each(projects_json(s.projects), n, begun(start(s, known)), project_step(env)) matches Ok(w)
            && sections_at(w, s, env, known, n, 0, there_before(s, known)),
    decreases n,
{
    let v = projects_json(s.projects);
    let step = project_step(env);
    let m = there_before(s, known);
    if n == 0 {
        log_begins(s, env, known);
    } else {
        let k = n - 1;
        projects_put_back(s, env, known, k as nat);
        let w = each(v, k as nat, begun(start(s, known)), step)->Ok_0;
        let x = s.projects[k];
        assert(v[k] == project_json(x));
        assert(step(w, v[k]) == project_one(w, v[k], env));
        assert(project_sound(x));
        standing_row_is_found::<Project>(s.projects, k);
        row_put_again::<Project>(s.projects, k);
        next_row_put::<Project>(s.projects, k);
        project_step_reads(w, x, env);
        let next = Work { e: EngineV { projects: put::<Project>(w.e.projects, x), ..w.e }, ..w };
        entity_word_names_itself(Entity::Project);
        assert(project_ids(s.projects)[k] == x.id);
        one_mark_logged(
            next,
            s,
            env,
            m,
            known,
            Entity::Project,
            x.id,
            "import"@,
            project_mark(x.name, x.archived),
        );
    }
}

/// A source that no other memory document has is held by none.
pub proof fn no_other_holder(d: Seq<DocV>, source: Seq<char>, id: Seq<char>, i: int)
    requires
        0 <= i <= d.len(),
        forall|k: int| 0 <= k < d.len() ==> (#[trigger] d[k]).source != Some(source) || d[k].id == id,
    ensures
        source_holder(d, source, id, i) is None,
    decreases d.len() - i,
{
    if i < d.len() {
        assert(d[i].source != Some(source) || d[i].id == id);
        no_other_holder(d, source, id, i + 1);
    }
}

proof fn docs_put_back(s: EngineV, env: EnvV, known: bool, w0: Work, n: nat)
    requires
        restorable(s, env),
        sections_at(w0, s, env, known, s.projects.len(), 0, there_before(s, known)),
        n <= s.docs.len(),
    ensures
        each(docs_json(s.docs), n, w0, doc_step(env)) matches Ok(w) && sections_at(
            w,
            s,
            env,
            known,
            s.projects.len(),
            n,
            there_before(s, known),
        ),
    decreases n,
{
    let v = docs_json(s.docs);
    let step = doc_step(env);
    let m = there_before(s, known);
    if n > 0 {
        let k = n - 1;
        docs_put_back(s, env, known, w0, k as nat);
        let w = each(v, k as nat, w0, step)->Ok_0;
        let x = s.docs[k];
        assert(v[k] == doc_json(x));
        assert(step(w, v[k]) == doc_one(w, v[k], env));
        assert(doc_sound(x, env));
        standing_row_is_found::<Doc>(s.docs, k);
        row_put_again::<Doc>(s.docs, k);
        next_row_put::<Doc>(s.docs, k);
        if let Some(source) = x.source {
            let d = w.e.docs;
            assert forall|i: int| 0 <= i < d.len() implies (#[trigger] d[i]).source != Some(source)
                || d[i].id == x.id by {
                assert(d[i] == s.docs[i]);
                if i < k {
                    assert(s.docs[i].source is Some ==> s.docs[i].source != s.docs[k].source);
                } else if k < i {
                    assert(s.docs[k].source != s.docs[i].source);
                }
            }
            no_other_holder(d, source, x.id, 0);
        }
        doc_step_reads(w, x, env);
        let next = Work { e: EngineV { docs: put::<Doc>(w.e.docs, x), ..w.e }, ..w };
        entity_word_names_itself(Entity::Doc);
        assert(doc_ids(s.docs)[k] == x.id);
        mark_is_known(x.title, x.source);
        one_mark_logged(
            next,
            s,
            env,
            m,
            known,
            Entity::Doc,
            x.id,
            "memory.add"@,
            doc_mark(x.title, x.source),
        );
    }
}

#[verifier::rlimit(40)]
proof fn events_put_back(s: EngineV, env: EnvV, known: bool, w0: Work, n: nat)
    requires
        restorable(s, env),
        sections_at(
            w0,
            s,
            env,
            known,
            s.projects.len(),
            s.docs.len(),
            there_before(s, known),
        ),
        n <= kept_in(s.events, s).len(),
    ensures
        each(events_json(kept_in(s.events, s)), n, w0, event_step(env)) matches Ok(w)
            && sections_at(
            w,
            s,
            env,
            known,
            s.projects.len(),
            s.docs.len(),
            if known {
                there_before(s, known)
            } else {
                n
            },
        ),
    decreases n,
{
    let kept = kept_in(s.events, s);
    let v = events_json(kept);
    let step = event_step(env);
    let total = s.projects.len() + s.docs.len() + s.tasks.len();
    if n > 0 {
        let k = n - 1;
        events_put_back(s, env, known, w0, k as nat);
        kept_facts(s, env, total);
        let w = each(v, k as nat, w0, step)->Ok_0;
        let x = kept[k];
        assert(v[k] == event_json(x));
        assert(step(w, v[k]) == event_one(w, v[k], env));
        assert(event_sound(kept[k]));
        event_step_reads(w, x, env);
        if known {
            assert(find::<Event>(w.e.events, kept[k].id) == Some(kept[k]));
        } else {
            let y = replayed(x);
            assert(find::<Event>(w.e.events, kept[k].id) is None);
            put_is_found::<Event>(w.e.events, y);
            let r = put::<Event>(w.e.events, y);
            assert forall|i: int| 0 <= i < kept.len() && i != k implies find::<Event>(
                r,
                (#[trigger] kept[i]).id,
            ) == find::<Event>(w.e.events, kept[i].id) by {
                text_lt_irreflexive(x.id);
                if i < k {
                    assert(text_lt(<Event as Keyed>::key_of(kept[i]), <Event as Keyed>::key_of(kept[k])));
                } else {
                    assert(text_lt(<Event as Keyed>::key_of(kept[k]), <Event as Keyed>::key_of(kept[i])));
                }
                put_leaves_the_rest::<Event>(w.e.events, y, kept[i].id);
            }
            assert forall|i: int| w.used <= i < env.log.ids.len() implies find::<Event>(
                r,
                #[trigger] env.log.ids[i],
            ) is None by {
                assert(kept[k].id != env.log.ids[i]);
                put_leaves_the_rest::<Event>(w.e.events, y, env.log.ids[i]);
                assert(find::<Event>(w.e.events, env.log.ids[i]) is None);
            }
        }
    }
}

/// The import under way among the tasks: `n` are read.
pub open spec fn tasks_at(w: Work, s: EngineV, env: EnvV, known: bool, n: nat) -> bool {
    let done = ids_of(s.tasks.take(n as int));
    &&& w.e.tasks == part(s.tasks, n, known)
    &&& w.e.projects == s.projects
    &&& w.e.docs == s.docs
    &&& w.e.default_project == start(s, known).default_project
    &&& w.used == s.projects.len() + s.docs.len() + n
    &&& w.created == Seq::<Seq<char>>::empty()
    &&& w.renumbered == Seq::<JsonV>::empty()
    &&& w.written == done
    &&& w.edges == edges_listed(s, n)
    &&& log_at(
        w.e.events,
        s,
        env.log.ids,
        s.projects.len() + s.docs.len() + n,
        kept_in(s.events, s).len(),
        known,
    )
    &&& notes_back(w.e.annotations, s.annotations, done, known)
    &&& put_back::<Check>(w.e.checks, s.checks, done, known)
    &&& put_back::<Measurement>(w.e.measurements, s.measurements, done, known)
    &&& forall|i: int|
        0 <= i < w.e.dependencies.len() ==> s.dependencies.contains(
            #[trigger] w.e.dependencies[i],
        ) && !done.contains(w.e.dependencies[i].task_id)
}

proof fn nothing_is_owned<T: Child>(s: Seq<T::V>, x: Seq<char>)
    requires
        s.len() == 0,
    ensures
        owned::<T>(s, x) =~= Seq::empty(),
{
}

proof fn all_put_back<T: Child>(s: Seq<T::V>, known: bool)
    ensures
        put_back::<T>(
            if known {
                s
            } else {
                Seq::empty()
            },
            s,
            Seq::empty(),
            known,
        ),
{
    let now = if known {
        s
    } else {
        Seq::empty()
    };
    assert forall|i: int| 0 <= i < now.len() implies s.contains(#[trigger] now[i]) by {
        assert(now[i] == s[i]);
    }
    if !known {
        assert forall|x: Seq<char>| #[trigger] owned::<T>(now, x) == Seq::<T::V>::empty() by {
            nothing_is_owned::<T>(now, x);
        }
    }
}

proof fn tasks_begin(s: EngineV, env: EnvV, known: bool, w: Work, rows: Seq<JsonV>)
    requires
        restorable(s, env),
        sections_at(
            w,
            s,
            env,
            known,
            s.projects.len(),
            s.docs.len(),
            kept_in(s.events, s).len(),
        ),
    ensures
        tasks_at(raised(w, rows), s, env, known, 0),
{
    assert(ids_of(s.tasks.take(0)) =~= Seq::empty());
    assert(s.tasks.take(0) =~= Seq::empty());
    assert(s.projects.take(s.projects.len() as int) =~= s.projects);
    assert(s.docs.take(s.docs.len() as int) =~= s.docs);
    all_put_back::<Annotation>(live(s.annotations), known);
    let notes = w.e.annotations;
    assert forall|i: int| 0 <= i < notes.len() implies s.annotations.contains(
        #[trigger] notes[i],
    ) by {
        assert(s.annotations[i] == notes[i]);
    }
    if !known {
        assert(live(notes) =~= Seq::empty());
    }
    all_put_back::<Check>(s.checks, known);
    all_put_back::<Measurement>(s.measurements, known);
    let d = w.e.dependencies;
    assert forall|i: int| 0 <= i < d.len() implies s.dependencies.contains(#[trigger] d[i]) by {
        assert(s.dependencies[i] == d[i]);
    }
}

#[verifier::rlimit(40)]
proof fn one_task_put_back(s: EngineV, env: EnvV, known: bool, w: Work, n: nat)
    requires
        restorable(s, env),
        tasks_at(w, s, env, known, n),
        n < s.tasks.len(),
    ensures
        task_one(w, task_json(s, s.tasks[n as int], ids_of(s.tasks)), true, env) matches Ok(r)
            && tasks_at(r, s, env, known, n + 1),
{
    let t = s.tasks[n as int];
    let present = ids_of(s.tasks);
    let tv = task_json(s, t, present);
    let done = ids_of(s.tasks.take(n as int));
    let more = ids_of(s.tasks.take(n as int + 1));
    assert(more =~= done.push(t.id));
    assert(task_sound(s, t, env));
    task_reads(s, t, present);
    row_head(tv, s, t, present, env);
    row_body(tv, s, t, present, env);
    row_tags(tv, s, t, present, env);
    row_edges(tv, s, t, present);
    task_put_again(s.tasks, s.next_short_id, n as int);
    next_task_put(s.tasks, s.next_short_id, n as int);
    assert(!w.written.contains(t.id)) by {
        if done.contains(t.id) {
            let k = choose|k: int| 0 <= k < done.len() && done[k] == t.id;
            assert(s.tasks[k].id != s.tasks[n as int].id);
        }
    }
    assert(1 <= t.short_id < s.next_short_id);
    let begun = Work { written: w.written.push(t.id), ..w };
    let stored = task_by_id(w.e.tasks, t.id);
    assert(stored is None || stored == Some(t));
    row_merges(s, t, stored, env);
    notes_put_back(w.e.annotations, s.annotations, w.used, tv, t.id, env);
    checks_put_back(w.e.checks, s.checks, w.used, tv, t.id, env);
    measurements_put_back(w.e.measurements, s.measurements, w.used, tv, t.id, env);
    one_more_has_notes(w.e.annotations, s.annotations, done, known, t.id);
    one_more_put_back::<Check>(w.e.checks, s.checks, done, known, t.id);
    one_more_put_back::<Measurement>(w.e.measurements, s.measurements, done, known, t.id);
    rest_stands::<Dependency>(w.e.dependencies, t.id);
    let left = without::<Dependency>(w.e.dependencies, t.id);
    assert forall|i: int| 0 <= i < left.len() implies s.dependencies.contains(#[trigger] left[i])
        && !more.contains(left[i].task_id) by {
        let k = choose|k: int| 0 <= k < w.e.dependencies.len() && w.e.dependencies[k] == left[i];
        assert(s.dependencies.contains(w.e.dependencies[k]));
        if more.contains(left[i].task_id) {
            let j = choose|j: int| 0 <= j < more.len() && more[j] == left[i].task_id;
            assert(j < n);
            assert(done[j] == left[i].task_id);
        }
    }
    let next = Work {
        e: EngineV {
            tasks: task_put(w.e.tasks, t),
            annotations: without::<Annotation>(w.e.annotations, t.id) + owned::<Annotation>(
                live(s.annotations),
                t.id,
            ),
            checks: without::<Check>(w.e.checks, t.id) + owned::<Check>(s.checks, t.id),
            measurements: without::<Measurement>(w.e.measurements, t.id) + owned::<Measurement>(
                s.measurements,
                t.id,
            ),
            dependencies: left,
            ..w.e
        },
        written: w.written.push(t.id),
        edges: w.edges.push((t.id, edges_on(s, t.id))),
        ..w
    };
    entity_word_names_itself(Entity::Task);
    assert(present[n as int] == t.id);
    one_mark_logged(
        next,
        s,
        env,
        kept_in(s.events, s).len(),
        known,
        Entity::Task,
        t.id,
        "import"@,
        task_mark(t.short_id),
    );
    assert(task_one(w, tv, true, env) == logged(
        next,
        Entity::Task,
        t.id,
        "import"@,
        task_mark(t.short_id),
        env,
    ));
}

proof fn task_rows(s: EngineV, n: nat, i: int)
    requires
        0 <= i < n <= s.tasks.len(),
    ensures
        tasks_json(s, s.tasks, n).len() == n,
        tasks_json(s, s.tasks, n)[i] == task_json(s, s.tasks[i], ids_of(s.tasks)),
    decreases n,
{
    if n > 1 {
        task_rows(s, (n - 1) as nat, if i < n - 1 {
            i
        } else {
            0
        });
    } else {
        assert(tasks_json(s, s.tasks, 0) =~= Seq::empty());
    }
}

proof fn tasks_put_back(s: EngineV, env: EnvV, known: bool, w0: Work, n: nat)
    requires
        restorable(s, env),
        tasks_at(w0, s, env, known, 0),
        n <= s.tasks.len(),
    ensures
        each(
            tasks_json(s, s.tasks, s.tasks.len()),
            n,
            w0,
            task_step(true, env),
        ) matches Ok(w) && tasks_at(w, s, env, known, n),
    decreases n,
{
    let v = tasks_json(s, s.tasks, s.tasks.len());
    let step = task_step(true, env);
    if n > 0 {
        let k = n - 1;
        tasks_put_back(s, env, known, w0, k as nat);
        task_rows(s, s.tasks.len(), k);
        let w = each(v, k as nat, w0, step)->Ok_0;
        assert(step(w, v[k]) == task_one(w, v[k], true, env));
        one_task_put_back(s, env, known, w, k as nat);
    }
}

proof fn claims_differ(s: EngineV, env: EnvV, n: nat)
    requires
        restorable(s, env),
        n <= s.tasks.len(),
    ensures
        claims_spec(tasks_json(s, s.tasks, s.tasks.len()), n) is Ok,
        forall|number: i64|
            (forall|i: int| 0 <= i < n ==> (#[trigger] s.tasks[i]).short_id != number) ==> (
            #[trigger] first_claim(tasks_json(s, s.tasks, s.tasks.len()), n, number)) is None,
    decreases n,
{
    let v = tasks_json(s, s.tasks, s.tasks.len());
    if n > 0 {
        let k = n - 1;
        claims_differ(s, env, k as nat);
        task_rows(s, s.tasks.len(), k);
        let t = s.tasks[k];
        task_reads(s, t, ids_of(s.tasks));
        assert(task_sound(s, t, env));
        row_head(v[k], s, t, ids_of(s.tasks), env);
        assert forall|i: int| 0 <= i < k implies (#[trigger] s.tasks[i]).short_id
            != t.short_id by {
            assert(s.tasks[i].short_id < s.tasks[k].short_id);
        }
        assert forall|number: i64|
            (forall|i: int| 0 <= i < n ==> (#[trigger] s.tasks[i]).short_id != number) implies (
        #[trigger] first_claim(v, n, number)) is None by {
            assert(s.tasks[k].short_id != number);
            assert(first_claim(v, k as nat, number) is None);
        }
    }
}

/// The document of the whole store.
pub open spec fn whole(s: EngineV) -> JsonV {
    document(s, ExprV::Pred(PredV::Always), false)
}

proof fn all_selected(s: EngineV, n: nat)
    requires
        n <= s.tasks.len(),
    ensures
        selected(s, ExprV::Pred(PredV::Always), n) == s.tasks.take(n as int),
    decreases n,
{
    if n > 0 {
        all_selected(s, (n - 1) as nat);
        assert(s.tasks.take(n as int) =~= s.tasks.take(n - 1).push(s.tasks[n - 1]));
    } else {
        assert(s.tasks.take(0) =~= Seq::empty());
    }
}

proof fn all_docs_kept(d: Seq<DocV>, n: nat)
    requires
        n <= d.len(),
    ensures
        docs_kept(d, None, false, n) == d.take(n as int),
    decreases n,
{
    if n > 0 {
        all_docs_kept(d, (n - 1) as nat);
        assert(d.take(n as int) =~= d.take(n - 1).push(d[n - 1]));
    } else {
        assert(d.take(0) =~= Seq::empty());
    }
}

proof fn all_projects_kept(p: Seq<ProjectV>, n: nat)
    requires
        n <= p.len(),
    ensures
        projects_kept(p, None, n) == p.take(n as int),
    decreases n,
{
    if n > 0 {
        all_projects_kept(p, (n - 1) as nat);
        assert(p.take(n as int) =~= p.take(n - 1).push(p[n - 1]));
    } else {
        assert(p.take(0) =~= Seq::empty());
    }
}

/// A document of the whole store carries every task, memory document and project.
pub proof fn whole_keeps_all(s: EngineV)
    ensures
        selected(s, ExprV::Pred(PredV::Always), s.tasks.len()) == s.tasks,
        docs_kept(s.docs, None, false, s.docs.len()) == s.docs,
        projects_kept(s.projects, None, s.projects.len()) == s.projects,
{
    all_selected(s, s.tasks.len());
    all_docs_kept(s.docs, s.docs.len());
    all_projects_kept(s.projects, s.projects.len());
    assert(s.tasks.take(s.tasks.len() as int) =~= s.tasks);
    assert(s.docs.take(s.docs.len() as int) =~= s.docs);
    assert(s.projects.take(s.projects.len() as int) =~= s.projects);
}

/// A store that was given back: everything a document shows of it is as it was.
pub open spec fn given_back(t: EngineV, s: EngineV) -> bool {
    &&& t.tasks == s.tasks
    &&& t.projects == s.projects
    &&& t.docs == s.docs
    &&& t.default_project == s.default_project
    &&& t.dependencies == edges_gathered(s, s.tasks.len())
    &&& forall|i: int|
        0 <= i < s.tasks.len() ==> {
            let id = (#[trigger] s.tasks[i]).id;
            &&& owned::<Annotation>(live(t.annotations), id) == owned::<Annotation>(
                live(s.annotations),
                id,
            )
            &&& owned::<Check>(t.checks, id) == owned::<Check>(s.checks, id)
            &&& owned::<Measurement>(t.measurements, id) == owned::<Measurement>(
                s.measurements,
                id,
            )
        }
}

proof fn tasks_finish(s: EngineV, env: EnvV, known: bool, w: Work)
    requires
        restorable(s, env),
        tasks_at(w, s, env, known, s.tasks.len()),
    ensures
        finished(w, s.default_project) matches Ok(t) && given_back(t, s) && t.events
            == w.e.events,
{
    reveal(finished);
    let n = s.tasks.len();
    assert(s.tasks.take(n as int) =~= s.tasks);
    let done = ids_of(s.tasks);
    assert(w.e.dependencies =~= Seq::empty()) by {
        if w.e.dependencies.len() > 0 {
            let d = w.e.dependencies[0];
            assert(s.dependencies.contains(d));
            let k = choose|k: int| 0 <= k < s.dependencies.len() && s.dependencies[k] == d;
            assert(task_by_id(s.tasks, s.dependencies[k].task_id) is Some);
            found_stands(s.tasks, d.task_id);
            let i = choose|i: int|
                0 <= i < s.tasks.len() && #[trigger] s.tasks[i] == task_by_id(
                    s.tasks,
                    d.task_id,
                )->0 && s.tasks[i].id == d.task_id;
            assert(done[i] == d.task_id);
        }
    }
    edges_put_back(s, n);
    if n > 0 {
        edges_listed_length(s, n);
    }
    let t = finished(w, s.default_project)->Ok_0;
    assert forall|i: int| 0 <= i < s.tasks.len() implies done.contains(
        (#[trigger] s.tasks[i]).id,
    ) by {
        assert(done[i] == s.tasks[i].id);
    }
}

proof fn edges_listed_length(s: EngineV, n: nat)
    requires
        n <= s.tasks.len(),
    ensures
        edges_listed(s, n).len() == n,
    decreases n,
{
    if n > 0 {
        edges_listed_length(s, (n - 1) as nat);
    }
}

/// The report of an import that made no project and moved no number.
pub open spec fn plain_report(s: EngineV, replayed: nat) -> JsonV {
    report(
        s.tasks.len(),
        s.projects.len(),
        s.docs.len(),
        true,
        Work { replayed, ..begun(s) },
        s.default_project,
    )
}

/// The sections of a document of the whole store are put back.
#[verifier::rlimit(40)]
proof fn sections_put_back(s: EngineV, env: EnvV, known: bool)
    requires
        restorable(s, env),
    ensures
        sections_in(start(s, known), whole(s), env) matches Ok(w) && sections_at(
            w,
            s,
            env,
            known,
            s.projects.len(),
            s.docs.len(),
            kept_in(s.events, s).len(),
        ),
{
    document_reads(s);
    whole_keeps_all(s);
    let kept = kept_in(s.events, s);
    reveal(sections_in);
    projects_put_back(s, env, known, s.projects.len());
    let w1 = each(
        projects_json(s.projects),
        s.projects.len(),
        begun(start(s, known)),
        project_step(env),
    )->Ok_0;
    docs_put_back(s, env, known, w1, s.docs.len());
    let w2 = each(docs_json(s.docs), s.docs.len(), w1, doc_step(env))->Ok_0;
    events_put_back(s, env, known, w2, kept.len());
}

/// The tasks of a document of the whole store are put back.
proof fn task_section_put_back(s: EngineV, env: EnvV, known: bool, w: Work)
    requires
        restorable(s, env),
        sections_at(
            w,
            s,
            env,
            known,
            s.projects.len(),
            s.docs.len(),
            kept_in(s.events, s).len(),
        ),
    ensures
        tasks_in(w, tasks_json(s, s.tasks, s.tasks.len()), true, env) matches Ok(r) && tasks_at(
            r,
            s,
            env,
            known,
            s.tasks.len(),
        ),
        tasks_json(s, s.tasks, s.tasks.len()).len() == s.tasks.len(),
{
    let rows = tasks_json(s, s.tasks, s.tasks.len());
    reveal(tasks_in);
    claims_differ(s, env, s.tasks.len());
    if s.tasks.len() > 0 {
        task_rows(s, s.tasks.len(), 0);
    }
    assert(rows.len() == s.tasks.len());
    tasks_begin(s, env, known, w, rows);
    tasks_put_back(s, env, known, raised(w, rows), s.tasks.len());
}

/// What an import reads first of a document of the whole store.
proof fn whole_is_readable(s: EngineV, env: EnvV)
    requires
        restorable(s, env),
    ensures
        readable(whole(s)) is Ok,
        tasks_spec(whole(s)) == Ok::<Seq<JsonV>, ErrorV>(tasks_json(s, s.tasks, s.tasks.len())),
        opt_array_spec(whole(s), "projects"@) == Ok::<Option<Seq<JsonV>>, ErrorV>(
            Some(projects_json(s.projects)),
        ),
        opt_array_spec(whole(s), "docs"@) == Ok::<Option<Seq<JsonV>>, ErrorV>(
            Some(docs_json(s.docs)),
        ),
        opt_str_nonempty_spec(whole(s), "default_project"@) == Ok::<Option<Seq<char>>, ErrorV>(
            s.default_project,
        ),
{
    document_reads(s);
    whole_keeps_all(s);
}

/// The import of a document of the whole store, into that store or into none.
#[verifier::rlimit(40)]
proof fn whole_store_put_back(s: EngineV, env: EnvV, known: bool)
    requires
        restorable(s, env),
    ensures
        imported(start(s, known), whole(s), env) matches Ok(r) && given_back(r.0, s) && log_at(
            r.0.events,
            s,
            env.log.ids,
            s.projects.len() + s.docs.len() + s.tasks.len(),
            kept_in(s.events, s).len(),
            known,
        ) && exists|k: nat| r.1 == #[trigger] plain_report(s, k),
{
    let rows = tasks_json(s, s.tasks, s.tasks.len());
    whole_is_readable(s, env);
    sections_put_back(s, env, known);
    let w3 = sections_in(start(s, known), whole(s), env)->Ok_0;
    task_section_put_back(s, env, known, w3);
    let w4 = tasks_in(w3, rows, true, env)->Ok_0;
    tasks_finish(s, env, known, w4);
    let done = finished(w4, s.default_project)->Ok_0;
    assert(projects_json(s.projects).len() == s.projects.len());
    assert(docs_json(s.docs).len() == s.docs.len());
    assert(report(
        s.tasks.len(),
        s.projects.len(),
        s.docs.len(),
        true,
        w4,
        done.default_project,
    ) == plain_report(s, w4.replayed));
}

proof fn rows_stay(t: EngineV, s: EngineV, n: nat)
    requires
        s.wf(),
        given_back(t, s),
        n <= s.tasks.len(),
    ensures
        tasks_json(t, s.tasks, n) == tasks_json(s, s.tasks, n),
    decreases n,
{
    if n > 0 {
        rows_stay(t, s, (n - 1) as nat);
        let x = s.tasks[n - 1];
        gathered_keeps_edges(s, n - 1);
        assert(task_members(t, x, ids_of(s.tasks)) =~= task_members(s, x, ids_of(s.tasks)));
        assert(task_json(t, x, ids_of(s.tasks)) == task_json(s, x, ids_of(s.tasks)));
    }
}

/// A request for the whole store.
pub open spec fn everything() -> JsonV {
    JsonV::Obj(Seq::empty())
}

/// The document of a request for the whole store is the document of the whole
/// store.
pub proof fn everything_is_whole(s: EngineV, cal: Spellings)
    ensures
        exported(s, everything(), cal) == Ok::<JsonV, ErrorV>(whole(s)),
{
    let blank = Seq::<char>::empty();
    assert(parsed(blank, cal) == Ok::<ExprV, Seq<char>>(ExprV::Pred(PredV::Always))) by {
        empty_filter_selects_everything(
            blank,
            cal,
            CtxV {
                status: Status::Pending,
                project: None,
                tags: Seq::empty(),
                due: None,
                completed: None,
                blocked: false,
            },
        );
    }
}

/// A store accepts its own document, and keeps its projects, memory documents,
/// default project and tasks, each with the rows that belong to it.
pub proof fn own_document_is_accepted(s: EngineV, env: EnvV)
    requires
        restorable(s, env),
    ensures
        imported(s, whole(s), env) matches Ok(r) && given_back(r.0, s) && exists|k: nat|
            r.1 == #[trigger] plain_report(s, k),
{
    whole_store_put_back(s, env, true);
}

/// Where the marks of the rows of a store's own document are read back, those
/// of its memory documents are.
pub proof fn marks_of_own_document(s: EngineV, env: EnvV)
    requires
        restorable(s, env),
    ensures
        rows_marks_read_back(section(opt_array_spec(whole(s), "docs"@))) ==> marks_read_back(s),
{
    whole_is_readable(s, env);
    let v = docs_json(s.docs);
    if rows_marks_read_back(v) {
        assert forall|i: int| 0 <= i < s.docs.len() implies mark_read_back(
            (#[trigger] s.docs[i]).title,
            s.docs[i].source,
        ) by {
            assert(v[i] == doc_json(s.docs[i]));
            assert(row_mark_read_back(v[i]));
            doc_reads(s.docs[i]);
            assert(doc_sound(s.docs[i], env));
        }
    }
}

/// A store that accepted its own document has that document still.
pub proof fn own_document_stays(s: EngineV, env: EnvV)
    requires
        restorable(s, env),
        marks_read_back(s),
    ensures
        imported(s, whole(s), env) matches Ok(r) && whole(r.0) == whole(s),
{
    whole_store_put_back(s, env, true);
    let t = imported(s, whole(s), env)->Ok_0.0;
    whole_keeps_all(s);
    whole_keeps_all(t);
    rows_stay(t, s, s.tasks.len());
    gathered_is_stored(s);
    no_edge_leads_out(s, t.dependencies, t.dependencies.len());
    assert forall|i: int| 0 <= i < s.dependencies.len() implies s.dependencies.contains(
        #[trigger] s.dependencies[i],
    ) by {
    }
    no_edge_leads_out(s, s.dependencies, s.dependencies.len());
    assert(whole(t)->Obj_0 =~= whole(s)->Obj_0);
}

/// Importing a store's own export into that store is accepted, and its export
/// stays what it was.
pub proof fn export_import_export_is_the_same(s: EngineV, env: EnvV, cal: Spellings)
    requires
        restorable(s, env),
        marks_read_back(s),
    ensures
        exported(s, everything(), cal) matches Ok(doc) && imported(s, doc, env) matches Ok(r)
            && exported(r.0, everything(), cal) == Ok::<JsonV, ErrorV>(doc),
{
    everything_is_whole(s, cal);
    own_document_stays(s, env);
    everything_is_whole(imported(s, whole(s), env)->Ok_0.0, cal);
}

/// A store restored from its export into an empty one has the same projects,
/// memory documents and default project, and the same tasks under the same
/// numbers, each with its notes, criteria, measurements and edges. Every event
/// of the export is in its log.
pub proof fn restore_gives_the_store_back(s: EngineV, env: EnvV, cal: Spellings)
    requires
        restorable(s, env),
    ensures
        exported(s, everything(), cal) matches Ok(doc) && imported(nothing(), doc, env) matches Ok(
            r,
        ) && ({
            let t = r.0;
            let kept = kept_in(s.events, s);
            &&& t.tasks == s.tasks
            &&& t.projects == s.projects
            &&& t.docs == s.docs
            &&& t.default_project == s.default_project
            &&& doc.get("tasks"@) == Some(JsonV::Arr(tasks_json(t, t.tasks, t.tasks.len())))
            &&& forall|i: int|
                0 <= i < kept.len() ==> find::<Event>(t.events, (#[trigger] kept[i]).id) == Some(
                    replayed(kept[i]),
                )
            &&& exists|k: nat| r.1 == #[trigger] plain_report(s, k)
        }),
{
    everything_is_whole(s, cal);
    whole_store_put_back(s, env, false);
    let t = imported(nothing(), whole(s), env)->Ok_0.0;
    whole_keeps_all(s);
    rows_stay(t, s, s.tasks.len());
    document_reads(s);
}

} // verus!
