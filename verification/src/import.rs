//! Importing a document: all of it, or nothing.
//!
//! [`imported`] says what a document does to a store; [`Engine::store_import`]
//! does exactly that, and leaves the store alone where the document is refused.

use crate::children::delete_owned;
use crate::engine::Engine;
use crate::engine::EngineV;
use crate::engine::put_task;
use crate::engine::task_by_id;
use crate::error::ApiError;
use crate::error::ErrorV;
use crate::export::is_in;
use crate::frontmatter::flatten;
use crate::graph::reaches;
use crate::import_children::each;
use crate::import_children::each_fails;
use crate::import_children::import_annotations;
use crate::import_children::import_checks;
use crate::import_children::import_measurements;
use crate::import_ids::enough_ids_never_run_out;
use crate::import_ids::ids_for;
use crate::import_ids::no_ids;
use crate::import_read::Body;
use crate::import_read::explained_err;
use crate::import_read::Head;
use crate::import_read::import_keys;
use crate::import_read::ImportEnv;
use crate::import_read::in_field_err;
use crate::import_read::no_object_err;
use crate::import_read::opt_when;
use crate::import_read::read_body;
use crate::import_read::read_head;
use crate::import_read::read_tags;
use crate::import_rules::begun;
use crate::import_rules::claim_of;
use crate::import_rules::claims_spec;
use crate::import_rules::default_settled;
use crate::import_rules::doc_keys;
use crate::import_rules::doc_mark;
use crate::import_rules::doc_one;
use crate::import_rules::doc_step;
use crate::import_rules::edge_in;
use crate::import_rules::edge_one;
use crate::import_rules::edges_of_one;
use crate::import_rules::edges_wired;
use crate::import_rules::event_keys;
use crate::import_rules::event_one;
use crate::import_rules::event_step;
use crate::import_rules::finished;
use crate::import_rules::first_claim;
use crate::import_rules::floor_raised;
use crate::import_rules::highest;
use crate::import_rules::imported;
use crate::import_rules::inferred_mark;
use crate::import_rules::logged;
use crate::import_rules::merged;
use crate::import_rules::moved;
use crate::import_rules::number_settled;
use crate::import_rules::project_keys;
use crate::import_rules::project_mark;
use crate::import_rules::project_one;
use crate::import_rules::project_settled;
use crate::import_rules::project_step;
use crate::import_rules::project_written;
use crate::import_rules::raised;
use crate::import_rules::readable;
use crate::import_rules::row_mark_read_back;
use crate::import_rules::rows_marks_read_back;
use crate::import_rules::section;
use crate::import_rules::sections_in;
use crate::import_rules::source_free;
use crate::import_rules::source_holder;
use crate::import_rules::task_keys;
use crate::import_rules::task_mark;
use crate::import_rules::task_one;
use crate::import_rules::task_step;
use crate::import_rules::task_written;
use crate::import_rules::tasks_in;
use crate::import_rules::tasks_spec;
use crate::import_rules::Work;
use crate::journal::insert_event;
use crate::json::Fields;
use crate::json::Json;
use crate::json::JsonV;
use crate::json_text::flat_object;
use crate::json_text::json_text;
use crate::json_text::render;
use crate::json_text::says_members;
use crate::params::missing_err;
use crate::params::opt_array;
use crate::params::opt_array_spec;
use crate::params::opt_bool;
use crate::params::opt_i64;
use crate::params::opt_str;
use crate::params::opt_str_array;
use crate::params::opt_str_nonempty;
use crate::params::req_i64;
use crate::params::req_str;
use crate::params::req_str_lookup;
use crate::params::told;
use crate::restore::marks_of_own_document;
use crate::restore::own_document_is_accepted;
use crate::restore::own_document_stays;
use crate::restore::restorable;
use crate::restore::whole;
use crate::rows::Dependency;
use crate::rows::DependencyV;
use crate::rows::Doc;
use crate::rows::dup_opt;
use crate::rows::Event;
use crate::rows::Project;
use crate::rows::rows;
use crate::rows::Task;
use crate::rows::TaskV;
use crate::tables::find_row;
use crate::tables::put_row;
use crate::text::debug_text;
use crate::text::push_decimal;
use crate::text::same;
use crate::text::strs;
use crate::text::texts;
use crate::types::Entity;
use crate::types::Status;
use crate::value::opt_view;
use crate::value::values;
use vstd::prelude::*;

verus! {

broadcast use {
    vstd::string::group_string_axioms,
    crate::value::group_json,
    crate::rows::rows_push,
    crate::text::texts_push,
};

/// An import under way, on a copy of the store.
struct Working {
    e: Engine,
    used: usize,
    created: Vec<String>,
    renumbered: Vec<Json>,
    written: Vec<String>,
    edges: Vec<(String, Vec<String>)>,
    replayed: usize,
}

/// What a list of edges says.
pub open spec fn edges_view(v: Seq<(String, Vec<String>)>) -> Seq<(Seq<char>, Seq<Seq<char>>)> {
    v.map_values(|p: (String, Vec<String>)| (p.0@, texts(p.1@)))
}

impl View for Working {
    type V = Work;

    closed spec fn view(&self) -> Work {
        Work {
            e: self.e@,
            used: self.used as nat,
            created: texts(self.created@),
            renumbered: values(self.renumbered@),
            written: texts(self.written@),
            edges: edges_view(self.edges@),
            replayed: self.replayed as nat,
        }
    }
}

fn project_key_list() -> (r: Vec<&'static str>)
    ensures
        strs(r@) == project_keys(),
{
    let r: Vec<&'static str> = vec![
        "id",
        "name",
        "description",
        "archived",
        "created",
    ];
    assert(strs(r@) =~= project_keys());
    r
}

fn doc_key_list() -> (r: Vec<&'static str>)
    ensures
        strs(r@) == doc_keys(),
{
    let r: Vec<&'static str> = vec![
        "id",
        "source",
        "title",
        "body",
        "created",
        "modified",
        "project",
        "_rev",
        "standing",
    ];
    assert(strs(r@) =~= doc_keys());
    r
}

fn event_key_list() -> (r: Vec<&'static str>)
    ensures
        strs(r@) == event_keys(),
{
    let r: Vec<&'static str> = vec![
        "id",
        "entity",
        "entity_id",
        "op",
        "payload",
        "ts",
        "actor",
    ];
    assert(strs(r@) =~= event_keys());
    r
}

fn task_key_list() -> (r: Vec<&'static str>)
    ensures
        strs(r@) == task_keys(),
{
    let r: Vec<&'static str> = vec![
        "id",
        "short_id",
        "title",
        "status",
        "priority",
        "project",
        "tags",
        "due",
        "scheduled",
        "wait",
        "estimate",
        "recurrence",
        "remind",
        "budget_tokens",
        "depends_on",
        "checks",
        "annotations",
        "urgency",
        "created",
        "modified",
        "completed",
        "_rev",
        "tracked_seconds",
        "tracked_adjustment_seconds",
        "active_since",
        "tokens",
        "delivered_annotation_id",
        "spawned_from",
        "status_unrecognized",
    ];
    assert(strs(r@) =~= task_keys());
    r
}

/// What a step of the import did, against what it should do.
spec fn went(r: Result<(), ApiError>, w: Work, want: Result<Work, ErrorV>) -> bool {
    match want {
        Ok(x) => r is Ok && w == x,
        Err(x) => r is Err && r->Err_0@ == x,
    }
}

/// Logs an event.
fn log(
    w: &mut Working,
    entity: Entity,
    entity_id: &str,
    op: &str,
    payload: &Json,
    env: &ImportEnv,
) -> (r: Result<(), ApiError>)
    ensures
        went(r, final(w)@, logged(old(w)@, entity, entity_id@, op@, payload@, env@)),
        r is Ok && flat_object(payload@) ==> says_members(json_text(payload@), payload@),
{
    match insert_event(&mut w.e.events, w.used, entity, entity_id, op, payload, &env.log) {
        Ok(_) => {
            w.used = w.used + 1;
            Ok(())
        },
        Err(x) => Err(x),
    }
}

/// Writes a project and gives its id.
fn upsert_project(
    w: &mut Working,
    name: &str,
    description: Option<String>,
    archived: bool,
    created: String,
    given: Option<String>,
    env: &ImportEnv,
) -> (r: Result<String, ApiError>)
    ensures
        match project_written(
            old(w)@,
            name@,
            opt_view(description),
            archived,
            created@,
            opt_view(given),
            env@,
        ) {
            Ok(x) => r is Ok && final(w)@ == x.0 && r->Ok_0@ == x.1,
            Err(x) => r is Err && r->Err_0@ == x,
        },
{
    let id: String = match find_row(&w.e.projects, name) {
        Some(k) => w.e.projects[k].id.clone(),
        None => match given {
            Some(x) => x,
            None => match env.log.mint(w.used) {
                Ok(x) => {
                    w.used = w.used + 1;
                    x
                },
                Err(x) => {
                    return Err(x);
                },
            },
        },
    };
    let row = Project { id: id.clone(), name: name.to_owned(), description, archived, created };
    put_row(&mut w.e.projects, row);
    Ok(id)
}

/// Imports one project.
fn import_project(w: &mut Working, pv: &Json, env: &ImportEnv) -> (r: Result<(), ApiError>)
    ensures
        went(r, final(w)@, project_one(old(w)@, pv@, env@)),
        r is Ok ==> final(w)@.replayed == old(w)@.replayed,
{
    if pv.as_object().is_none() {
        return Err(no_object_err("", "project"));
    }
    let name: String = match req_str_lookup(pv, "name") {
        Ok(x) => x,
        Err(x) => {
            return Err(explained_err(x, " — each imported project requires a string `name`"));
        },
    };
    let mut prefix: String = "project ".to_owned();
    prefix.append(name.as_str());
    prefix.append(", ");
    match import_keys(prefix.as_str(), "project", pv, &project_key_list()) {
        Ok(_) => {},
        Err(x) => {
            return Err(x);
        },
    }
    let description: Option<String> = match opt_str_nonempty(pv, "description") {
        Ok(x) => x,
        Err(x) => {
            return Err(in_field_err("project", name.as_str(), "description", &x));
        },
    };
    let archived: bool = match opt_bool(pv, "archived") {
        Ok(Some(x)) => x,
        Ok(None) => false,
        Err(x) => {
            return Err(in_field_err("project", name.as_str(), "archived", &x));
        },
    };
    let created: String = match opt_str_nonempty(pv, "created") {
        Ok(Some(x)) => x,
        Ok(None) => env.log.now.clone(),
        Err(x) => {
            return Err(in_field_err("project", name.as_str(), "created", &x));
        },
    };
    let given: Option<String> = match opt_str_nonempty(pv, "id") {
        Ok(x) => x,
        Err(x) => {
            return Err(in_field_err("project", name.as_str(), "id", &x));
        },
    };
    let id: String = match upsert_project(
        w,
        name.as_str(),
        description,
        archived,
        created,
        given,
        env,
    ) {
        Ok(x) => x,
        Err(x) => {
            return Err(x);
        },
    };
    let mut f = Fields::new();
    f.put("name", Json::string(name.as_str()));
    f.put("archived", Json::Bool(archived));
    assert(f@ =~= project_mark(name@, archived)->Obj_0);
    log(w, Entity::Project, id.as_str(), "import", &f.done(), env)
}

/// Refuses a source that some other document has.
fn refuse_source_held_elsewhere(d: &Vec<Doc>, source: &Option<String>, id: &str) -> (r: Result<
    (),
    ApiError,
>)
    ensures
        told(r) == source_free(rows(d@), opt_view(*source), id@),
{
    let s: &str = match source {
        None => {
            return Ok(());
        },
        Some(s) => s.as_str(),
    };
    let mut i: usize = 0;
    while i < d.len()
        invariant
            i <= d@.len(),
            opt_view(*source) == Some(s@),
            source_holder(rows(d@), s@, id@, 0) == source_holder(rows(d@), s@, id@, i as int),
        decreases d@.len() - i,
    {
        assert(rows(d@)[i as int] == d@[i as int]@);
        let held: bool = match &d[i].source {
            Some(t) => same(t.as_str(), s),
            None => false,
        };
        if held && !same(d[i].id.as_str(), id) {
            let mut m: String = "source ".to_owned();
            m.append(debug_text(s).as_str());
            m.append(" already belongs to doc ");
            m.append(d[i].id.as_str());
            return Err(ApiError::conflict(m));
        }
        i += 1;
    }
    Ok(())
}

/// Imports one memory document.
fn import_doc(w: &mut Working, dv: &Json, env: &ImportEnv) -> (r: Result<(), ApiError>)
    ensures
        went(r, final(w)@, doc_one(old(w)@, dv@, env@)),
        r is Ok ==> final(w)@.replayed == old(w)@.replayed,
        r is Ok ==> row_mark_read_back(dv@),
{
    match import_keys("", "doc", dv, &doc_key_list()) {
        Ok(_) => {},
        Err(x) => {
            return Err(x);
        },
    }
    let id: String = match opt_str_nonempty(dv, "id") {
        Ok(Some(x)) => x,
        Ok(None) => match env.log.mint(w.used) {
            Ok(x) => {
                w.used = w.used + 1;
                x
            },
            Err(x) => {
                return Err(x);
            },
        },
        Err(x) => {
            return Err(x);
        },
    };
    let title: String = match req_str(dv, "title") {
        Ok(x) => x,
        Err(x) => {
            return Err(explained_err(x, " — each imported doc requires a `title`"));
        },
    };
    let text: String = match req_str(dv, "body") {
        Ok(x) => x,
        Err(x) => {
            return Err(explained_err(x, " — each imported doc requires a `body`"));
        },
    };
    let source: Option<String> = match opt_str_nonempty(dv, "source") {
        Ok(x) => x,
        Err(x) => {
            return Err(x);
        },
    };
    let created: String = match opt_when(dv, "created", &env.dates) {
        Ok(Some(x)) => x,
        Ok(None) => env.log.now.clone(),
        Err(x) => {
            return Err(in_field_err("doc", id.as_str(), "created", &x));
        },
    };
    let modified: String = match opt_when(dv, "modified", &env.dates) {
        Ok(Some(x)) => x,
        Ok(None) => env.log.now.clone(),
        Err(x) => {
            return Err(in_field_err("doc", id.as_str(), "modified", &x));
        },
    };
    let project: Option<String> = match opt_str_nonempty(dv, "project") {
        Ok(x) => x,
        Err(x) => {
            return Err(x);
        },
    };
    let rev: i64 = match opt_i64(dv, "_rev") {
        Ok(Some(x)) => x,
        Ok(None) => 0,
        Err(x) => {
            return Err(x);
        },
    };
    let standing: bool = match opt_bool(dv, "standing") {
        Ok(Some(x)) => x,
        Ok(None) => false,
        Err(x) => {
            return Err(x);
        },
    };
    if let Some(k) = find_row(&w.e.docs, id.as_str()) {
        let stored: i64 = w.e.docs[k].rev;
        if stored > rev {
            let mut m: String = "store.import: doc ".to_owned();
            m.append(id.as_str());
            m.append(" carries _rev ");
            push_decimal(&mut m, rev);
            m.append(", but the store already holds it at _rev ");
            push_decimal(&mut m, stored);
            m.append(
                " — this payload is older than what is already here, and importing it would roll its title and body back to a stale copy (run `tasqx export` first for a merge target, or drop this doc from the payload)",
            );
            return Err(ApiError::conflict(m));
        }
    }
    match refuse_source_held_elsewhere(&w.e.docs, &source, id.as_str()) {
        Ok(_) => {},
        Err(x) => {
            return Err(x);
        },
    }
    let mut f = Fields::new();
    f.put("title", Json::string(title.as_str()));
    f.put("source", Json::opt_string(&source));
    f.put("via", Json::string("store.import"));
    assert(f@ =~= doc_mark(title@, opt_view(source))->Obj_0);
    assert(flat_object(doc_mark(title@, opt_view(source))));
    let search_body: String = match flatten(text.as_str()) {
        std::borrow::Cow::Borrowed(s) => s.to_owned(),
        std::borrow::Cow::Owned(s) => s,
    };
    let row = Doc {
        id: id.clone(),
        source,
        title,
        body: text,
        search_body,
        project,
        rev,
        standing,
        created,
        modified,
    };
    put_row(&mut w.e.docs, row);
    log(w, Entity::Doc, id.as_str(), "memory.add", &f.done(), env)
}

/// Replays one event. One that is there already stays as it is.
fn import_event(w: &mut Working, ev: &Json, env: &ImportEnv) -> (r: Result<(), ApiError>)
    requires
        old(w)@.replayed < usize::MAX,
    ensures
        went(r, final(w)@, event_one(old(w)@, ev@, env@)),
        final(w)@.replayed <= old(w)@.replayed + 1,
{
    match import_keys("", "event", ev, &event_key_list()) {
        Ok(_) => {},
        Err(x) => {
            return Err(x);
        },
    }
    let id: String = match opt_str_nonempty(ev, "id") {
        Ok(Some(x)) => x,
        Ok(None) => match env.log.mint(w.used) {
            Ok(x) => {
                w.used = w.used + 1;
                x
            },
            Err(x) => {
                return Err(x);
            },
        },
        Err(x) => {
            return Err(x);
        },
    };
    let raw: String = match req_str(ev, "entity") {
        Ok(x) => x,
        Err(x) => {
            return Err(explained_err(x, " — each imported event requires an `entity`"));
        },
    };
    let entity: Entity = match Entity::parse(raw.as_str()) {
        Some(x) => x,
        None => {
            let mut m: String = "store.import: event ".to_owned();
            m.append(id.as_str());
            m.append(" has entity ");
            m.append(debug_text(raw.as_str()).as_str());
            m.append(" — expected one of ");
            m.append(Entity::accepted());
            return Err(ApiError::bad_request(m));
        },
    };
    let entity_id: String = match req_str(ev, "entity_id") {
        Ok(x) => x,
        Err(x) => {
            return Err(explained_err(x, " — each imported event requires an `entity_id`"));
        },
    };
    let op: String = match req_str(ev, "op") {
        Ok(x) => x,
        Err(x) => {
            return Err(explained_err(x, " — each imported event requires an `op`"));
        },
    };
    let ts: String = match opt_str_nonempty(ev, "ts") {
        Ok(Some(x)) => x,
        Ok(None) => env.log.now.clone(),
        Err(x) => {
            return Err(x);
        },
    };
    let actor: Option<String> = match opt_str_nonempty(ev, "actor") {
        Ok(x) => x,
        Err(x) => {
            return Err(x);
        },
    };
    if find_row(&w.e.events, id.as_str()).is_some() {
        return Ok(());
    }
    let payload: String = match ev.get("payload") {
        Some(v) => render(v),
        None => render(&Json::Null),
    };
    let row = Event {
        id,
        entity: entity.as_str().to_owned(),
        entity_id,
        op,
        payload: Some(payload),
        ts,
        actor,
    };
    put_row(&mut w.e.events, row);
    w.replayed = w.replayed + 1;
    Ok(())
}

/// What a list of claims says.
spec fn claims_view(v: Seq<(i64, String)>) -> Seq<(i64, Seq<char>)> {
    v.map_values(|p: (i64, String)| (p.0, p.1@))
}

/// The task a number is claimed for.
spec fn claimed_for(c: Seq<(i64, Seq<char>)>, number: i64) -> Option<Seq<char>>
    decreases c.len(),
{
    if c.len() == 0 {
        None
    } else if c.last().0 == number {
        Some(c.last().1)
    } else {
        claimed_for(c.drop_last(), number)
    }
}

fn find_claim(c: &Vec<(i64, String)>, number: i64) -> (r: Option<usize>)
    ensures
        r is Some == claimed_for(claims_view(c@), number) is Some,
        r is Some ==> r->0 < c@.len() && claimed_for(claims_view(c@), number) == Some(
            c@[r->0 as int].1@,
        ),
{
    let mut i: usize = c.len();
    assert(claims_view(c@).take(i as int) =~= claims_view(c@));
    while i > 0
        invariant
            i <= c@.len(),
            claimed_for(claims_view(c@), number) == claimed_for(
                claims_view(c@).take(i as int),
                number,
            ),
        decreases i,
    {
        let ghost now = claims_view(c@).take(i as int);
        assert(now.drop_last() =~= claims_view(c@).take(i - 1));
        assert(now.last() == (c@[i - 1].0, c@[i - 1].1@));
        i -= 1;
        if c[i].0 == number {
            return Some(i);
        }
    }
    None
}

/// A refusal among the first rows is the answer for all of them.
proof fn claims_fail(v: Seq<JsonV>, i: nat, n: nat)
    requires
        i <= n <= v.len(),
        claims_spec(v, i) is Err,
    ensures
        claims_spec(v, n) == claims_spec(v, i),
    decreases n,
{
    if i < n {
        claims_fail(v, i, (n - 1) as nat);
    }
}

/// Refuses a document that gives one number to two tasks; gives the highest
/// number it carries.
fn check_claims(v: &Vec<Json>) -> (r: Result<Option<i64>, ApiError>)
    ensures
        match claims_spec(values(v@), v@.len()) {
            Ok(_) => r is Ok && r->Ok_0 == highest(values(v@), v@.len()),
            Err(x) => r is Err && r->Err_0@ == x,
        },
{
    let mut claims: Vec<(i64, String)> = Vec::new();
    let mut floor: Option<i64> = None;
    let mut i: usize = 0;
    assert(claims_view(claims@) =~= Seq::empty());
    while i < v.len()
        invariant
            i <= v@.len(),
            claims_spec(values(v@), i as nat) is Ok,
            floor == highest(values(v@), i as nat),
            forall|k: i64| #[trigger]
                claimed_for(claims_view(claims@), k) == first_claim(values(v@), i as nat, k),
        decreases v@.len() - i,
    {
        assert(values(v@)[i as int] == v@[i as int]@);
        let ghost vs = values(v@);
        let number: Option<i64> = match opt_i64(&v[i], "short_id") {
            Ok(x) => x,
            Err(_) => None,
        };
        let id: Option<String> = match opt_str(&v[i], "id") {
            Ok(x) => x,
            Err(_) => None,
        };
        if let Some(number) = number {
            floor = match floor {
                Some(h) => if h < number {
                    Some(number)
                } else {
                    Some(h)
                },
                None => Some(number),
            };
            if let Some(id) = id {
                assert(claim_of(vs[i as int]) == Some((number, id@)));
                assert(claimed_for(claims_view(claims@), number) == first_claim(
                    vs,
                    i as nat,
                    number,
                ));
                match find_claim(&claims, number) {
                    Some(k) => {
                        if !same(claims[k].1.as_str(), id.as_str()) {
                            let mut m: String = "store.import: task ".to_owned();
                            m.append(id.as_str());
                            m.append(" carries short_id ");
                            push_decimal(&mut m, number);
                            m.append(", which task ");
                            m.append(claims[k].1.as_str());
                            m.append(
                                " in the same payload already claims — one short_id addresses exactly one task, so this document cannot be restored anywhere",
                            );
                            proof {
                                claims_fail(vs, i as nat + 1, vs.len());
                            }
                            return Err(ApiError::conflict(m));
                        }
                        assert forall|k: i64| #[trigger]
                            claimed_for(claims_view(claims@), k) == first_claim(
                                vs,
                                i as nat + 1,
                                k,
                            ) by {
                            assert(claimed_for(claims_view(claims@), k) == first_claim(
                                vs,
                                i as nat,
                                k,
                            ));
                        }
                    },
                    None => {
                        let ghost was = claims_view(claims@);
                        let ghost one = (number, id@);
                        claims.push((number, id));
                        assert(claims_view(claims@) =~= was.push(one));
                        assert forall|k: i64| #[trigger]
                            claimed_for(claims_view(claims@), k) == first_claim(
                                vs,
                                i as nat + 1,
                                k,
                            ) by {
                            assert(was.push(one).drop_last() =~= was);
                            assert(claimed_for(was, k) == first_claim(vs, i as nat, k));
                        }
                    },
                }
            } else {
                assert forall|k: i64| #[trigger]
                    claimed_for(claims_view(claims@), k) == first_claim(
                        vs,
                        i as nat + 1,
                        k,
                    ) by {
                    assert(claimed_for(claims_view(claims@), k) == first_claim(vs, i as nat, k));
                }
            }
        } else {
            assert forall|k: i64| #[trigger]
                claimed_for(claims_view(claims@), k) == first_claim(vs, i as nat + 1, k) by {
                assert(claimed_for(claims_view(claims@), k) == first_claim(vs, i as nat, k));
            }
        }
        i += 1;
    }
    Ok(floor)
}

/// Sees to a task's project: it is there, or it is made, or the task is refused.
fn settle_project(
    w: &mut Working,
    id: &str,
    project: &Option<String>,
    declared: bool,
    env: &ImportEnv,
) -> (r: Result<(), ApiError>)
    ensures
        went(r, final(w)@, project_settled(old(w)@, id@, opt_view(*project), declared, env@)),
{
    let name: &str = match project {
        None => {
            return Ok(());
        },
        Some(s) => s.as_str(),
    };
    if find_row(&w.e.projects, name).is_some() {
        return Ok(());
    }
    if declared {
        let mut m: String = "store.import: task ".to_owned();
        m.append(id);
        m.append(" names project ");
        m.append(debug_text(name).as_str());
        m.append(
            ", which the payload's `projects` section does not define and the store does not have — add it to `projects`, or create it first with `tasqx init ",
        );
        m.append(name);
        m.append("`");
        return Err(ApiError::bad_request(m));
    }
    let row_id: String = match upsert_project(w, name, None, false, env.log.now.clone(), None, env) {
        Ok(x) => x,
        Err(x) => {
            return Err(x);
        },
    };
    let mut f = Fields::new();
    f.put("name", Json::string(name));
    f.put("inferred", Json::Bool(true));
    assert(f@ =~= inferred_mark(name@)->Obj_0);
    match log(w, Entity::Project, row_id.as_str(), "import", &f.done(), env) {
        Ok(_) => {},
        Err(x) => {
            return Err(x);
        },
    }
    w.created.push(name.to_owned());
    Ok(())
}

/// Settles a task's number.
fn settle_number(w: &mut Working, id: &str, carried: i64) -> (r: Result<i64, ApiError>)
    ensures
        match number_settled(old(w)@, id@, carried) {
            Ok(x) => r is Ok && final(w)@ == x.0 && r->Ok_0 == x.1,
            Err(x) => r is Err && r->Err_0@ == x,
        },
{
    if let Some(k) = w.e.find_task(id) {
        return Ok(w.e.tasks[k].short_id);
    }
    if !w.e.number_in_use(carried) {
        return Ok(carried);
    }
    let n: i64 = w.e.next_short_id;
    if n == i64::MAX {
        return Err(ApiError::internal("the short_id counter is exhausted".to_owned()));
    }
    w.e.next_short_id = n + 1;
    let mut f = Fields::new();
    f.put("id", Json::string(id));
    f.put("from", Json::number(carried));
    f.put("to", Json::number(n));
    assert(f@ =~= moved(id@, carried, n)->Obj_0);
    w.renumbered.push(f.done());
    Ok(n)
}

/// What an imported task takes over from the one that is there.
struct Stored {
    rev: i64,
    active_since: Option<String>,
    tracked_seconds: i64,
    tracked_adjustment_seconds: i64,
}

fn merge(
    stored: &Option<Stored>,
    id: &str,
    number: i64,
    h: Head,
    b: Body,
    tags: Vec<String>,
    env: &ImportEnv,
    Ghost(t): Ghost<Option<TaskV>>,
) -> (r: Task)
    requires
        stored is Some == t is Some,
        stored is Some ==> {
            &&& opt_view(stored->0.active_since) == t->0.active_since
            &&& stored->0.tracked_seconds == t->0.tracked_seconds
            &&& stored->0.tracked_adjustment_seconds == t->0.tracked_adjustment_seconds
        },
    ensures
        r@ == merged(t, id@, number, h@, b@, texts(tags@), env@),
{
    let active_since: Option<String> = if h.status != Status::Active {
        None
    } else if b.active_since.is_some() {
        b.active_since
    } else {
        match stored {
            Some(s) => match &s.active_since {
                Some(x) => Some(x.clone()),
                None => Some(env.log.now.clone()),
            },
            None => Some(env.log.now.clone()),
        }
    };
    let tracked_seconds: i64 = match b.tracked_seconds {
        Some(n) => n,
        None => match stored {
            Some(s) => s.tracked_seconds,
            None => 0,
        },
    };
    let tracked_adjustment_seconds: i64 = match b.tracked_adjustment_seconds {
        Some(n) => n,
        None => match (b.tracked_seconds, stored) {
            (None, Some(s)) => s.tracked_adjustment_seconds,
            _ => 0,
        },
    };
    Task {
        id: id.to_owned(),
        short_id: number,
        title: h.title,
        status: h.status,
        status_raw: None,
        priority: h.priority,
        project: h.project,
        tags,
        due: b.due,
        scheduled: b.scheduled,
        wait: b.wait,
        estimate: b.estimate,
        recurrence: b.recurrence,
        remind: b.remind,
        budget_tokens: b.budget_tokens,
        delivered_annotation_id: b.delivered_annotation_id,
        spawned_from: b.spawned_from,
        active_since,
        tracked_seconds,
        tracked_adjustment_seconds,
        created: b.created,
        modified: b.modified,
        completed: b.completed,
        rev: b.rev,
    }
}

/// Writes a task and the rows that belong to it.
#[verifier::spinoff_prover]
#[verifier::rlimit(60)]
fn write_task(
    w: &mut Working,
    tv: &Json,
    id: &str,
    number: i64,
    h: Head,
    b: Body,
    env: &ImportEnv,
) -> (r: Result<(), ApiError>)
    ensures
        went(r, final(w)@, task_written(old(w)@, tv@, id@, number, h@, b@, env@)),
{
    let ghost t = task_by_id(w.e@.tasks, id@);
    let stored: Option<Stored> = match w.e.find_task(id) {
        Some(k) => Some(
            Stored {
                rev: w.e.tasks[k].rev,
                active_since: dup_opt(&w.e.tasks[k].active_since),
                tracked_seconds: w.e.tasks[k].tracked_seconds,
                tracked_adjustment_seconds: w.e.tasks[k].tracked_adjustment_seconds,
            },
        ),
        None => None,
    };
    if let Some(s) = &stored {
        if s.rev > b.rev {
            let mut m: String = "store.import: task ".to_owned();
            m.append(id);
            m.append(" carries _rev ");
            push_decimal(&mut m, b.rev);
            m.append(", but the store already holds it at _rev ");
            push_decimal(&mut m, s.rev);
            m.append(
                " — this payload is older than what is already here, and importing it would discard every annotation, tag and dependency edge added since (run `tasqx export` first for a merge target, or drop this \
                task from the payload)",
            );
            return Err(ApiError::conflict(m));
        }
    }
    let tags: Vec<String> = match read_tags(tv) {
        Ok(x) => x,
        Err(x) => {
            return Err(in_field_err("task", id, "tags", &x));
        },
    };
    let row: Task = merge(&stored, id, number, h, b, tags, env, Ghost(t));
    put_task(&mut w.e.tasks, row);
    match import_annotations(&mut w.e.annotations, &mut w.used, tv, id, env) {
        Ok(_) => {},
        Err(x) => {
            return Err(x);
        },
    }
    match import_checks(&mut w.e.checks, &mut w.used, tv, id, env) {
        Ok(_) => {},
        Err(x) => {
            return Err(x);
        },
    }
    match import_measurements(&mut w.e.measurements, &mut w.used, tv, id, env) {
        Ok(_) => {},
        Err(x) => {
            return Err(x);
        },
    }
    delete_owned(&mut w.e.dependencies, id);
    let deps: Vec<String> = match opt_str_array(tv, "depends_on") {
        Ok(x) => x,
        Err(x) => {
            return Err(in_field_err("task", id, "depends_on", &x));
        },
    };
    let ghost was = edges_view(w.edges@);
    let edge = (id.to_owned(), deps);
    w.edges.push(edge);
    assert(edges_view(w.edges@) =~= was.push((id@, texts(edge.1@))));
    let mut f = Fields::new();
    f.put("short_id", Json::number(number));
    assert(f@ =~= task_mark(number)->Obj_0);
    log(w, Entity::Task, id, "import", &f.done(), env)
}

/// Imports one task.
#[verifier::spinoff_prover]
#[verifier::rlimit(60)]
fn import_task(w: &mut Working, tv: &Json, declared: bool, env: &ImportEnv) -> (r: Result<
    (),
    ApiError,
>)
    ensures
        went(r, final(w)@, task_one(old(w)@, tv@, declared, env@)),
{
    if tv.as_object().is_none() {
        return Err(no_object_err("", "task"));
    }
    let id: String = match req_str(tv, "id") {
        Ok(x) => x,
        Err(x) => {
            return Err(explained_err(x, " — each imported task requires a string `id`"));
        },
    };
    let mut prefix: String = "task ".to_owned();
    prefix.append(id.as_str());
    prefix.append(", ");
    match import_keys(prefix.as_str(), "task", tv, &task_key_list()) {
        Ok(_) => {},
        Err(x) => {
            return Err(x);
        },
    }
    if is_in(&w.written, id.as_str()) {
        let mut m: String = "store.import: task ".to_owned();
        m.append(id.as_str());
        m.append(
            " appears more than once in this document's `tasks` array — one id addresses exactly one task, so this document cannot be restored anywhere",
        );
        return Err(ApiError::conflict(m));
    }
    w.written.push(id.clone());
    let carried: i64 = match req_i64(tv, "short_id") {
        Ok(x) => x,
        Err(x) => {
            return Err(in_field_err("task", id.as_str(), "short_id", &x));
        },
    };
    if carried < 1 || carried == i64::MAX {
        let mut m: String = "store.import: task ".to_owned();
        m.append(id.as_str());
        m.append(" has short_id ");
        push_decimal(&mut m, carried);
        m.append(" — expected an integer from 1 to 9223372036854775806");
        return Err(ApiError::bad_request(m));
    }
    let head: Head = match read_head(tv, id.as_str()) {
        Ok(x) => x,
        Err(x) => {
            return Err(x);
        },
    };
    match settle_project(w, id.as_str(), &head.project, declared, env) {
        Ok(_) => {},
        Err(x) => {
            return Err(x);
        },
    }
    let body: Body = match read_body(tv, id.as_str(), env) {
        Ok(x) => x,
        Err(x) => {
            return Err(x);
        },
    };
    let number: i64 = match settle_number(w, id.as_str(), carried) {
        Ok(x) => x,
        Err(x) => {
            return Err(x);
        },
    };
    write_task(w, tv, id.as_str(), number, head, body, env)
}

pub(crate) fn has_edge(d: &Vec<Dependency>, id: &str, on: &str) -> (r: bool)
    ensures
        r == edge_in(rows(d@), id@, on@),
{
    let ghost want = DependencyV { task_id: id@, depends_on: on@ };
    let mut i: usize = 0;
    while i < d.len()
        invariant
            i <= d@.len(),
            want == (DependencyV { task_id: id@, depends_on: on@ }),
            forall|k: int| 0 <= k < i ==> #[trigger] rows(d@)[k] != want,
        decreases d@.len() - i,
    {
        assert(rows(d@)[i as int] == d@[i as int]@);
        if same(d[i].task_id.as_str(), id) && same(d[i].depends_on.as_str(), on) {
            assert(rows(d@)[i as int] == want);
            return true;
        }
        i += 1;
    }
    false
}

/// Wires one edge, or refuses it.
fn wire(e: &mut Engine, id: &str, on: &str) -> (r: Result<(), ApiError>)
    ensures
        match edge_one(old(e)@.tasks, old(e)@.dependencies, id@, on@) {
            Ok(d) => r is Ok && final(e)@ == (EngineV { dependencies: d, ..old(e)@ }),
            Err(x) => r is Err && r->Err_0@ == x,
        },
{
    if e.find_task(on).is_none() {
        let mut m: String = "store.import: task ".to_owned();
        m.append(id);
        m.append(" depends on ");
        m.append(on);
        m.append(
            ", which is neither in the payload nor in the store (export the dependency too, or drop the edge)",
        );
        return Err(ApiError::bad_request(m));
    }
    if same(on, id) {
        let mut m: String = "store.import: task ".to_owned();
        m.append(id);
        m.append(" depends on itself — a task cannot depend on itself");
        return Err(ApiError::conflict(m));
    }
    if reaches(&e.dependencies, on, id) {
        let mut m: String = "store.import: dependency would create a cycle: ".to_owned();
        m.append(on);
        m.append(" already depends on ");
        m.append(id);
        return Err(ApiError::conflict(m));
    }
    if !has_edge(&e.dependencies, id, on) {
        e.dependencies.push(Dependency { task_id: id.to_owned(), depends_on: on.to_owned() });
    }
    Ok(())
}

/// A refusal among the first edges of a task is the answer for all of them.
proof fn edges_of_one_fail(
    tasks: Seq<TaskV>,
    d: Seq<DependencyV>,
    id: Seq<char>,
    on: Seq<Seq<char>>,
    i: nat,
    n: nat,
)
    requires
        i <= n <= on.len(),
        edges_of_one(tasks, d, id, on, i) is Err,
    ensures
        edges_of_one(tasks, d, id, on, n) == edges_of_one(tasks, d, id, on, i),
    decreases n,
{
    if i < n {
        edges_of_one_fail(tasks, d, id, on, i, (n - 1) as nat);
    }
}

/// A refusal among the edges of the first tasks is the answer for all of them.
proof fn edges_wired_fail(
    tasks: Seq<TaskV>,
    d: Seq<DependencyV>,
    edges: Seq<(Seq<char>, Seq<Seq<char>>)>,
    i: nat,
    n: nat,
)
    requires
        i <= n <= edges.len(),
        edges_wired(tasks, d, edges, i) is Err,
    ensures
        edges_wired(tasks, d, edges, n) == edges_wired(tasks, d, edges, i),
    decreases n,
{
    if i < n {
        edges_wired_fail(tasks, d, edges, i, (n - 1) as nat);
    }
}

/// Wires the edges of one task.
fn wire_task(e: &mut Engine, id: &str, on: &Vec<String>) -> (r: Result<(), ApiError>)
    ensures
        match edges_of_one(
            old(e)@.tasks,
            old(e)@.dependencies,
            id@,
            texts(on@),
            on@.len(),
        ) {
            Ok(d) => r is Ok && final(e)@ == (EngineV { dependencies: d, ..old(e)@ }),
            Err(x) => r is Err && r->Err_0@ == x,
        },
{
    let ghost start = e@;
    let ghost ons = texts(on@);
    let mut i: usize = 0;
    while i < on.len()
        invariant
            i <= on@.len(),
            start == old(e)@,
            ons == texts(on@),
            e@ == (EngineV { dependencies: e@.dependencies, ..start }),
            edges_of_one(start.tasks, start.dependencies, id@, ons, i as nat) == Ok::<
                Seq<DependencyV>,
                ErrorV,
            >(e@.dependencies),
        decreases on@.len() - i,
    {
        assert(ons[i as int] == on@[i as int]@);
        match wire(e, id, on[i].as_str()) {
            Ok(_) => {},
            Err(x) => {
                proof {
                    edges_of_one_fail(
                        start.tasks,
                        start.dependencies,
                        id@,
                        ons,
                        i as nat + 1,
                        ons.len(),
                    );
                }
                return Err(x);
            },
        }
        i += 1;
    }
    Ok(())
}

/// Wires the edges of every task of the document.
fn wire_all(e: &mut Engine, edges: &Vec<(String, Vec<String>)>) -> (r: Result<(), ApiError>)
    ensures
        match edges_wired(
            old(e)@.tasks,
            old(e)@.dependencies,
            edges_view(edges@),
            edges@.len(),
        ) {
            Ok(d) => r is Ok && final(e)@ == (EngineV { dependencies: d, ..old(e)@ }),
            Err(x) => r is Err && r->Err_0@ == x,
        },
{
    let ghost start = e@;
    let ghost all = edges_view(edges@);
    let mut i: usize = 0;
    while i < edges.len()
        invariant
            i <= edges@.len(),
            start == old(e)@,
            all == edges_view(edges@),
            e@ == (EngineV { dependencies: e@.dependencies, ..start }),
            edges_wired(start.tasks, start.dependencies, all, i as nat) == Ok::<
                Seq<DependencyV>,
                ErrorV,
            >(e@.dependencies),
        decreases edges@.len() - i,
    {
        assert(all[i as int] == (edges@[i as int].0@, texts(edges@[i as int].1@)));
        match wire_task(e, edges[i].0.as_str(), &edges[i].1) {
            Ok(_) => {},
            Err(x) => {
                proof {
                    edges_wired_fail(
                        start.tasks,
                        start.dependencies,
                        all,
                        i as nat + 1,
                        all.len(),
                    );
                }
                return Err(x);
            },
        }
        i += 1;
    }
    Ok(())
}

/// Settles the default project.
fn settle_default(e: &Engine, want: &Option<String>) -> (r: Result<Option<String>, ApiError>)
    ensures
        told(r) == default_settled(e@, opt_view(*want)),
{
    let name: &str = match want {
        None => {
            return Ok(dup_opt(&e.default_project));
        },
        Some(s) => s.as_str(),
    };
    match find_row(&e.projects, name) {
        None => {
            let mut m: String = "store.import: `default_project` names ".to_owned();
            m.append(debug_text(name).as_str());
            m.append(
                ", which the payload's `projects` section does not define and the store does not have",
            );
            Err(ApiError::bad_request(m))
        },
        Some(k) => {
            if e.projects[k].archived {
                let mut m: String = "store.import: `default_project` names ".to_owned();
                m.append(debug_text(name).as_str());
                m.append(", which is archived (an archived project cannot be the default)");
                return Err(ApiError::bad_request(m));
            }
            match &e.default_project {
                Some(d) => Ok(Some(d.clone())),
                None => Ok(Some(name.to_owned())),
            }
        },
    }
}

/// Imports every project of the document.
fn import_projects(w: &mut Working, v: &Vec<Json>, env: &ImportEnv) -> (r: Result<(), ApiError>)
    ensures
        went(r, final(w)@, each(values(v@), v@.len(), old(w)@, project_step(env@))),
        r is Ok ==> final(w)@.replayed == old(w)@.replayed,
{
    let ghost start = w@;
    let ghost step = project_step(env@);
    let mut i: usize = 0;
    while i < v.len()
        invariant
            i <= v@.len(),
            start == old(w)@,
            step == project_step(env@),
            w@.replayed == start.replayed,
            each(values(v@), i as nat, start, step) == Ok::<Work, ErrorV>(w@),
        decreases v@.len() - i,
    {
        assert(values(v@)[i as int] == v@[i as int]@);
        match import_project(w, &v[i], env) {
            Ok(_) => {},
            Err(x) => {
                proof {
                    each_fails(values(v@), i as nat + 1, v@.len(), start, step);
                }
                return Err(x);
            },
        }
        i += 1;
    }
    Ok(())
}

/// Imports every memory document of the document.
fn import_docs(w: &mut Working, v: &Vec<Json>, env: &ImportEnv) -> (r: Result<(), ApiError>)
    ensures
        went(r, final(w)@, each(values(v@), v@.len(), old(w)@, doc_step(env@))),
        r is Ok ==> final(w)@.replayed == old(w)@.replayed,
        r is Ok ==> rows_marks_read_back(values(v@)),
{
    let ghost start = w@;
    let ghost step = doc_step(env@);
    let mut i: usize = 0;
    while i < v.len()
        invariant
            i <= v@.len(),
            start == old(w)@,
            step == doc_step(env@),
            w@.replayed == start.replayed,
            forall|k: int| 0 <= k < i ==> row_mark_read_back(#[trigger] values(v@)[k]),
            each(values(v@), i as nat, start, step) == Ok::<Work, ErrorV>(w@),
        decreases v@.len() - i,
    {
        assert(values(v@)[i as int] == v@[i as int]@);
        match import_doc(w, &v[i], env) {
            Ok(_) => {},
            Err(x) => {
                proof {
                    each_fails(values(v@), i as nat + 1, v@.len(), start, step);
                }
                return Err(x);
            },
        }
        i += 1;
    }
    Ok(())
}

/// Replays every event of the document.
fn import_events(w: &mut Working, v: &Vec<Json>, env: &ImportEnv) -> (r: Result<(), ApiError>)
    requires
        old(w)@.replayed == 0,
    ensures
        went(r, final(w)@, each(values(v@), v@.len(), old(w)@, event_step(env@))),
{
    let ghost start = w@;
    let ghost step = event_step(env@);
    let mut i: usize = 0;
    while i < v.len()
        invariant
            i <= v@.len(),
            start == old(w)@,
            step == event_step(env@),
            w@.replayed <= i,
            each(values(v@), i as nat, start, step) == Ok::<Work, ErrorV>(w@),
        decreases v@.len() - i,
    {
        assert(values(v@)[i as int] == v@[i as int]@);
        match import_event(w, &v[i], env) {
            Ok(_) => {},
            Err(x) => {
                proof {
                    each_fails(values(v@), i as nat + 1, v@.len(), start, step);
                }
                return Err(x);
            },
        }
        i += 1;
    }
    Ok(())
}

/// Imports every task of the document.
#[verifier::spinoff_prover]
#[verifier::rlimit(60)]
fn import_tasks(w: &mut Working, v: &Vec<Json>, declared: bool, env: &ImportEnv) -> (r: Result<
    (),
    ApiError,
>)
    ensures
        went(r, final(w)@, each(values(v@), v@.len(), old(w)@, task_step(declared, env@))),
{
    let ghost start = w@;
    let ghost step = task_step(declared, env@);
    let mut i: usize = 0;
    while i < v.len()
        invariant
            i <= v@.len(),
            start == old(w)@,
            step == task_step(declared, env@),
            each(values(v@), i as nat, start, step) == Ok::<Work, ErrorV>(w@),
        decreases v@.len() - i,
    {
        assert(values(v@)[i as int] == v@[i as int]@);
        match import_task(w, &v[i], declared, env) {
            Ok(_) => {},
            Err(x) => {
                proof {
                    each_fails(values(v@), i as nat + 1, v@.len(), start, step);
                }
                return Err(x);
            },
        }
        i += 1;
    }
    Ok(())
}

/// Raises the next number above every number of the document.
fn raise_floor(w: &mut Working, floor: Option<i64>)
    ensures
        final(w)@ == (Work {
            e: EngineV {
                next_short_id: floor_raised(old(w)@.e.next_short_id, floor),
                ..old(w)@.e
            },
            ..old(w)@
        }),
{
    if let Some(h) = floor {
        if h < i64::MAX && w.e.next_short_id < h + 1 {
            w.e.next_short_id = h + 1;
        }
    }
}

/// The beginning of an import into a copy of the store.
fn begin(e: &Engine) -> (w: Working)
    ensures
        w@ == begun(e@),
{
    let w = Working {
        e: e.dup(),
        used: 0,
        created: Vec::new(),
        renumbered: Vec::new(),
        written: Vec::new(),
        edges: Vec::new(),
        replayed: 0,
    };
    proof {
        assert(w@.created =~= Seq::empty());
        assert(w@.renumbered =~= Seq::empty());
        assert(w@.written =~= Seq::empty());
        assert(w@.edges =~= Seq::empty());
    }
    w
}

/// The rows of the document's `tasks`.
fn task_rows(p: &Json) -> (r: Result<&Vec<Json>, ApiError>)
    ensures
        match tasks_spec(p@) {
            Ok(v) => r is Ok && values(r->Ok_0@) == v,
            Err(x) => r is Err && r->Err_0@ == x,
        },
{
    let more: &str = " — store.import requires a `tasks` array";
    match opt_array(p, "tasks") {
        Ok(Some(v)) => Ok(v),
        Ok(None) => Err(explained_err(missing_err("tasks"), more)),
        Err(x) => Err(explained_err(x, more)),
    }
}

/// Imports the document's projects, memory documents and events.
fn import_sections(w: &mut Working, p: &Json, env: &ImportEnv, Ghost(e): Ghost<EngineV>) -> (r:
    Result<(), ApiError>)
    requires
        old(w)@ == begun(e),
        readable(p@) is Ok,
    ensures
        went(r, final(w)@, sections_in(e, p@, env@)),
        r is Ok ==> opt_array_spec(p@, "docs"@) is Ok,
        r is Ok ==> rows_marks_read_back(section(opt_array_spec(p@, "docs"@))),
{
    reveal(sections_in);
    match opt_array(p, "projects") {
        Ok(Some(v)) => match import_projects(w, v, env) {
            Ok(_) => {},
            Err(x) => {
                return Err(x);
            },
        },
        _ => {},
    }
    match opt_array(p, "docs") {
        Ok(Some(v)) => match import_docs(w, v, env) {
            Ok(_) => {},
            Err(x) => {
                return Err(x);
            },
        },
        Ok(None) => {},
        Err(x) => {
            return Err(x);
        },
    }
    match opt_array(p, "events") {
        Ok(Some(v)) => import_events(w, v, env),
        Ok(None) => Ok(()),
        Err(x) => Err(x),
    }
}

/// Imports the document's tasks.
fn import_all_tasks(
    w: &mut Working,
    tasks: &Vec<Json>,
    declared: bool,
    env: &ImportEnv,
) -> (r: Result<(), ApiError>)
    ensures
        went(r, final(w)@, tasks_in(old(w)@, values(tasks@), declared, env@)),
{
    reveal(tasks_in);
    assert(values(tasks@).len() == tasks@.len());
    let floor: Option<i64> = match check_claims(tasks) {
        Ok(h) => h,
        Err(x) => {
            return Err(x);
        },
    };
    raise_floor(w, floor);
    assert(w@ == raised(old(w)@, values(tasks@)));
    import_tasks(w, tasks, declared, env)
}

/// Wires the document's edges and settles the default project.
fn finish(w: &mut Working, want: &Option<String>) -> (r: Result<(), ApiError>)
    ensures
        match finished(old(w)@, opt_view(*want)) {
            Ok(e) => r is Ok && final(w)@ == (Work { e, ..old(w)@ }),
            Err(x) => r is Err && r->Err_0@ == x,
        },
{
    reveal(finished);
    assert(edges_view(w.edges@).len() == w.edges@.len());
    match wire_all(&mut w.e, &w.edges) {
        Ok(_) => {},
        Err(x) => {
            return Err(x);
        },
    }
    match settle_default(&w.e, want) {
        Ok(d) => {
            w.e.default_project = d;
            Ok(())
        },
        Err(x) => Err(x),
    }
}

/// How many rows an optional section has.
fn section_len(p: &Json, key: &str) -> (r: usize)
    ensures
        r == section(opt_array_spec(p@, key@)).len(),
{
    match opt_array(p, key) {
        Ok(Some(v)) => {
            assert(values(v@).len() == v@.len());
            v.len()
        },
        _ => 0,
    }
}

impl Engine {
    /// Loads an export document: all of it, or, where any part of it is
    /// refused, nothing. Answers what came in. The document of the whole store
    /// is accepted by that store, and its document stays what it was.
    pub fn store_import(&mut self, p: &Json, env: &ImportEnv) -> (r: Result<Json, ApiError>)
        ensures
            match imported(old(self)@, p@, env@) {
                Ok(x) => r is Ok && final(self)@ == x.0 && r->Ok_0@ == x.1,
                Err(x) => r is Err && r->Err_0@ == x && final(self)@ == old(self)@,
            },
            restorable(old(self)@, env@) && p@ == whole(old(self)@) ==> r is Ok && whole(
                final(self)@,
            ) == p@,
            r is Err && ids_for(p@) <= env@.log.ids.len() ==> r->Err_0@ != no_ids(),
    {
        let r = self.load(p, env);
        proof {
            let s = old(self)@;
            if ids_for(p@) <= env@.log.ids.len() {
                enough_ids_never_run_out(s, p@, env@);
            }
            if restorable(s, env@) && p@ == whole(s) {
                own_document_is_accepted(s, env@);
                marks_of_own_document(s, env@);
                own_document_stays(s, env@);
            }
        }
        r
    }

    /// Loads a document; the marks it leaves of memory documents are read back.
    fn load(&mut self, p: &Json, env: &ImportEnv) -> (r: Result<Json, ApiError>)
        ensures
            match imported(old(self)@, p@, env@) {
                Ok(x) => r is Ok && final(self)@ == x.0 && r->Ok_0@ == x.1,
                Err(x) => r is Err && r->Err_0@ == x && final(self)@ == old(self)@,
            },
            r is Ok ==> rows_marks_read_back(section(opt_array_spec(p@, "docs"@))),
    {
        let tasks: &Vec<Json> = match task_rows(p) {
            Ok(v) => v,
            Err(x) => {
                return Err(x);
            },
        };
        let declared: bool = match opt_array(p, "projects") {
            Ok(v) => v.is_some(),
            Err(x) => {
                return Err(x);
            },
        };
        let want: Option<String> = match opt_str_nonempty(p, "default_project") {
            Ok(v) => v,
            Err(x) => {
                return Err(x);
            },
        };
        let mut w = begin(self);
        match import_sections(&mut w, p, env, Ghost(self@)) {
            Ok(_) => {},
            Err(x) => {
                return Err(x);
            },
        }
        match import_all_tasks(&mut w, tasks, declared, env) {
            Ok(_) => {},
            Err(x) => {
                return Err(x);
            },
        }
        let ghost before = w@;
        match finish(&mut w, &want) {
            Ok(_) => {},
            Err(x) => {
                return Err(x);
            },
        }
        let docs_declared: bool = match opt_array(p, "docs") {
            Ok(v) => v.is_some(),
            Err(x) => {
                return Err(x);
            },
        };
        let Working { e, used: _, created, renumbered, written: _, edges: _, replayed } = w;
        let mut f = Fields::new();
        f.put("imported", Json::Int(tasks.len() as i128));
        f.put("projects_imported", Json::Int(section_len(p, "projects") as i128));
        f.put("projects_created", Json::strings(&created));
        f.put("docs_imported", Json::Int(section_len(p, "docs") as i128));
        f.put("docs_declared", Json::Bool(docs_declared));
        f.put("events_imported", Json::Int(replayed as i128));
        f.put("default_project", Json::opt_string(&e.default_project));
        f.put("renumbered", Json::Arr(renumbered));
        assert(values(tasks@).len() == tasks@.len());
        assert(f@ =~= imported(old(self)@, p@, env@)->Ok_0.1->Obj_0);
        *self = e;
        Ok(f.done())
    }
}

} // verus!
