//! What an import refuses, told by what a document that came in is.

use crate::engine::EngineV;
use crate::import_children::each;
use crate::import_laws::each_prefix;
use crate::import_numbers::claims_tell;
use crate::import_numbers::one_row;
use crate::import_numbers::row_id;
use crate::import_numbers::row_number;
use crate::import_read::EnvV;
use crate::import_read::head_spec;
use crate::import_read::shape_spec;
use crate::import_read::stray;
use crate::import_repeat::row_effect;
use crate::import_rules::begun;
use crate::import_rules::claims_spec;
use crate::import_rules::doc_one;
use crate::import_rules::doc_step;
use crate::import_rules::event_step;
use crate::import_rules::imported;
use crate::import_rules::project_one;
use crate::import_rules::project_step;
use crate::import_rules::raised;
use crate::import_rules::section;
use crate::import_rules::sections_in;
use crate::import_rules::task_id_spec;
use crate::import_rules::task_keys;
use crate::import_rules::task_one;
use crate::import_rules::task_step;
use crate::import_rules::tasks_in;
use crate::import_rules::Work;
use crate::import_twice::free_is_alone;
use crate::journal::minted;
use crate::json::JsonV;
use crate::merge_laws::left_out;
use crate::merge_sections::each_from;
use crate::merge_sections::project_lands;
use crate::merge_sections::sections_went;
use crate::merge_sections::tasks_leave;
use crate::params::all_blank;
use crate::params::opt_array_spec;
use crate::params::opt_str_nonempty_spec;
use crate::rows::Doc;
use crate::rows::DocV;
use crate::rows::Project;
use crate::tables::find;
use crate::tables::put;
use crate::tables::put_keys;
use crate::types::priority_named;
use crate::types::status_named;
use vstd::prelude::*;

verus! {

broadcast use vstd::string::group_string_axioms;

/// Whether an object has no members but those named.
pub open spec fn only_has(v: JsonV, keys: Seq<Seq<char>>) -> bool {
    v matches JsonV::Obj(m) && forall|k: int| 0 <= k < m.len() ==> keys.contains((#[trigger] m[k]).0)
}

proof fn no_stray_member(m: Seq<(Seq<char>, JsonV)>, keys: Seq<Seq<char>>, i: int)
    requires
        0 <= i <= m.len(),
        stray(m, keys, i) is None,
    ensures
        forall|k: int| i <= k < m.len() ==> keys.contains((#[trigger] m[k]).0),
    decreases m.len() - i,
{
    if i < m.len() {
        no_stray_member(m, keys, i + 1);
    }
}

proof fn shapes_hold(prefix: Seq<char>, what: Seq<char>, v: JsonV, keys: Seq<Seq<char>>)
    requires
        shape_spec(prefix, what, v, keys) is Ok,
    ensures
        only_has(v, keys),
{
    no_stray_member(v->Obj_0, keys, 0);
}

/// A row that came in, before any other is written.
proof fn row_was_read(e: EngineV, p: JsonV, env: EnvV, rows: Seq<JsonV>, i: int)
    requires
        imported(e, p, env) is Ok,
        p.get("tasks"@) == Some(JsonV::Arr(rows)),
        0 <= i < rows.len(),
    ensures
        ({
            let w = sections_in(e, p, env)->Ok_0;
            let declared = opt_array_spec(p, "projects"@)->Ok_0 is Some;
            let t = each(rows, i as nat, raised(w, rows), task_step(declared, env))->Ok_0;
            &&& claims_spec(rows, rows.len()) is Ok
            &&& task_one(t, rows[i], declared, env) is Ok
        }),
{
    reveal(crate::import_rules::tasks_in);
    let w = sections_in(e, p, env)->Ok_0;
    let declared = opt_array_spec(p, "projects"@)->Ok_0 is Some;
    let s = raised(w, rows);
    let step = task_step(declared, env);
    each_prefix(rows, i as nat, rows.len(), s, step);
    each_prefix(rows, i as nat + 1, rows.len(), s, step);
    let t = each(rows, i as nat, s, step)->Ok_0;
    assert(step(t, rows[i]) == task_one(t, rows[i], declared, env));
}

/// Every task of a document that came in has an id, a number that a task can
/// have, a title that is not blank, one of the five states where it names one,
/// one of the three priorities where it names one, no budget below zero, and no
/// field that a task does not have.
#[verifier::rlimit(80)]
#[verifier::spinoff_prover]
pub proof fn only_readable_tasks_come_in(
    e: EngineV,
    p: JsonV,
    env: EnvV,
    rows: Seq<JsonV>,
    i: int,
)
    requires
        imported(e, p, env) is Ok,
        p.get("tasks"@) == Some(JsonV::Arr(rows)),
        0 <= i < rows.len(),
    ensures
        ({
            let tv = rows[i];
            &&& only_has(tv, task_keys())
            &&& tv.get("id"@) matches Some(JsonV::Str(id)) && !all_blank(id)
            &&& tv.get("title"@) matches Some(JsonV::Str(title)) && !all_blank(title)
            &&& tv.get("short_id"@) matches Some(JsonV::Int(n)) && 1 <= n < i64::MAX
            &&& left_out(tv, "status"@) || is_word(
                tv.get("status"@),
                seq!["backlog"@, "pending"@, "active"@, "done"@, "cancelled"@],
            )
            &&& left_out(tv, "priority"@) || is_word(tv.get("priority"@), seq!["H"@, "M"@, "L"@])
            &&& tv.get("budget_tokens"@) matches Some(JsonV::Int(n)) ==> n >= 0
        }),
{
    row_was_read(e, p, env, rows, i);
    let w = sections_in(e, p, env)->Ok_0;
    let declared = opt_array_spec(p, "projects"@)->Ok_0 is Some;
    let t = each(rows, i as nat, raised(w, rows), task_step(declared, env))->Ok_0;
    let tv = rows[i];
    one_row(t, tv, declared, env);
    let id = task_id_spec(tv)->Ok_0;
    shapes_hold("task "@ + id + ", "@, "task"@, tv, task_keys());
    if let Some(JsonV::Str(s)) = tv.get("status"@) {
        let v = seq!["backlog"@, "pending"@, "active"@, "done"@, "cancelled"@];
        assert(v[0] == "backlog"@ && v[1] == "pending"@ && v[2] == "active"@ && v[3] == "done"@
            && v[4] == "cancelled"@);
        assert(status_named(s) is Some);
        assert(v.contains(s));
    }
    if let Some(JsonV::Str(s)) = tv.get("priority"@) {
        let v = seq!["H"@, "M"@, "L"@];
        assert(v[0] == "H"@ && v[1] == "M"@ && v[2] == "L"@);
        assert(priority_named(s) is Some);
        assert(v.contains(s));
    }
}

/// Whether a value is a text, and one of some words.
pub open spec fn is_word(v: Option<JsonV>, words: Seq<Seq<char>>) -> bool {
    v matches Some(JsonV::Str(s)) && words.contains(s)
}

/// No two tasks of a document that came in share an id, and none share a
/// number.
#[verifier::rlimit(80)]
#[verifier::spinoff_prover]
pub proof fn tasks_of_a_document_are_apart(
    e: EngineV,
    p: JsonV,
    env: EnvV,
    rows: Seq<JsonV>,
    i: int,
    j: int,
)
    requires
        imported(e, p, env) is Ok,
        p.get("tasks"@) == Some(JsonV::Arr(rows)),
        0 <= i < j < rows.len(),
    ensures
        rows[i].get("id"@) != rows[j].get("id"@),
        rows[i].get("short_id"@) != rows[j].get("short_id"@),
{
    row_was_read(e, p, env, rows, i);
    row_was_read(e, p, env, rows, j);
    let w = sections_in(e, p, env)->Ok_0;
    let declared = opt_array_spec(p, "projects"@)->Ok_0 is Some;
    let s = raised(w, rows);
    let step = task_step(declared, env);
    let ti = each(rows, i as nat, s, step)->Ok_0;
    let tj = each(rows, j as nat, s, step)->Ok_0;
    one_row(ti, rows[i], declared, env);
    one_row(tj, rows[j], declared, env);
    let id = row_id(rows[i]);
    let inv = |t: Work| t.written.contains(id);
    assert(each(rows, j as nat, s, step) is Ok) by {
        reveal(crate::import_rules::tasks_in);
        each_prefix(rows, j as nat, rows.len(), s, step);
    }
    each_prefix(rows, i as nat + 1, j as nat, s, step);
    each_prefix(rows, i as nat, j as nat, s, step);
    assert(step(ti, rows[i]) == task_one(ti, rows[i], declared, env));
    let now = task_one(ti, rows[i], declared, env)->Ok_0;
    assert(now.written[ti.written.len() as int] == id);
    assert(inv(now));
    assert forall|t: Work, k: int|
        i + 1 <= k < rows.len() && inv(t) && (#[trigger] step(t, rows[k])) is Ok implies inv(
        step(t, rows[k])->Ok_0,
    ) by {
        assert(step(t, rows[k]) == task_one(t, rows[k], declared, env));
        one_row(t, rows[k], declared, env);
        let r = step(t, rows[k])->Ok_0;
        let m = choose|m: int| 0 <= m < t.written.len() && t.written[m] == id;
        assert(r.written[m] == id);
    }
    each_from(rows, i as nat + 1, j as nat, s, step, inv);
    assert(row_id(rows[j]) != id);
    if row_number(rows[i]) == row_number(rows[j]) {
        claims_tell(rows, rows.len(), i, j, row_number(rows[i]), id, row_id(rows[j]));
    }
}

/// Whether a document's projects declare a name.
pub open spec fn declares(p: JsonV, name: Seq<char>) -> bool {
    p.get("projects"@) matches Some(JsonV::Arr(v)) && exists|k: int|
        0 <= k < v.len() && (#[trigger] v[k]).get("name"@) == Some(JsonV::Str(name))
}

/// The project of every task stands once the document is in. Where the document
/// declares its projects it is one of these, or one that was there before.
#[verifier::rlimit(80)]
#[verifier::spinoff_prover]
pub proof fn projects_of_tasks_stand(
    e: EngineV,
    p: JsonV,
    env: EnvV,
    rows: Seq<JsonV>,
    i: int,
    name: Seq<char>,
)
    requires
        imported(e, p, env) is Ok,
        p.get("tasks"@) == Some(JsonV::Arr(rows)),
        0 <= i < rows.len(),
        rows[i].get("project"@) == Some(JsonV::Str(name)),
    ensures
        find::<Project>(imported(e, p, env)->Ok_0.0.projects, name) is Some,
        p.get("projects"@) matches Some(JsonV::Arr(_)) ==> declares(p, name) || find::<Project>(
            e.projects,
            name,
        ) is Some,
{
    let w = sections_in(e, p, env)->Ok_0;
    let declared = opt_array_spec(p, "projects"@)->Ok_0 is Some;
    row_was_read(e, p, env, rows, i);
    let made = tasks_in(w, rows, declared, env);
    assert(made is Ok);
    project_is_made(w, rows, declared, env, i, name);
    assert(imported(e, p, env)->Ok_0.0.projects == made->Ok_0.e.projects) by {
        reveal(crate::import_rules::finished);
    }
    if declared {
        declared_projects_are_all(e, p, env, rows, i, name);
    }
}

proof fn project_of_row(t: Work, tv: JsonV, declared: bool, env: EnvV, name: Seq<char>)
    requires
        task_one(t, tv, declared, env) is Ok,
        tv.get("project"@) == Some(JsonV::Str(name)),
    ensures
        find::<Project>(task_one(t, tv, declared, env)->Ok_0.e.projects, name) is Some,
{
    one_row(t, tv, declared, env);
    row_effect(t, tv, declared, env);
    assert(head_spec(tv, row_id(tv))->Ok_0.project == Some(name));
}

proof fn project_is_made(
    w: Work,
    rows: Seq<JsonV>,
    declared: bool,
    env: EnvV,
    i: int,
    name: Seq<char>,
)
    requires
        tasks_in(w, rows, declared, env) is Ok,
        0 <= i < rows.len(),
        rows[i].get("project"@) == Some(JsonV::Str(name)),
    ensures
        find::<Project>(tasks_in(w, rows, declared, env)->Ok_0.e.projects, name) is Some,
{
    reveal(crate::import_rules::tasks_in);
    let s = raised(w, rows);
    let step = task_step(declared, env);
    let there = |t: Work| find::<Project>(t.e.projects, name) is Some;
    each_prefix(rows, i as nat, rows.len(), s, step);
    each_prefix(rows, i as nat + 1, rows.len(), s, step);
    let t = each(rows, i as nat, s, step)->Ok_0;
    assert(step(t, rows[i]) == task_one(t, rows[i], declared, env));
    project_of_row(t, rows[i], declared, env, name);
    assert forall|t: Work, k: int|
        i + 1 <= k < rows.len() && there(t) && (#[trigger] step(t, rows[k])) is Ok implies there(
        step(t, rows[k])->Ok_0,
    ) by {
        assert(step(t, rows[k]) == task_one(t, rows[k], declared, env));
        row_effect(t, rows[k], declared, env);
        assert(find::<Project>(step(t, rows[k])->Ok_0.e.projects, name) == find::<Project>(
            t.e.projects,
            name,
        ));
    }
    each_from(rows, i as nat + 1, rows.len(), s, step, there);
}

#[verifier::rlimit(100)]
#[verifier::spinoff_prover]
proof fn declared_projects_are_all(
    e: EngineV,
    p: JsonV,
    env: EnvV,
    rows: Seq<JsonV>,
    i: int,
    name: Seq<char>,
)
    requires
        imported(e, p, env) is Ok,
        p.get("tasks"@) == Some(JsonV::Arr(rows)),
        0 <= i < rows.len(),
        rows[i].get("project"@) == Some(JsonV::Str(name)),
        opt_array_spec(p, "projects"@)->Ok_0 is Some,
    ensures
        declares(p, name) || find::<Project>(e.projects, name) is Some,
{
    if find::<Project>(e.projects, name) is None && !declares(p, name) {
        let gone = |t: Work| find::<Project>(t.e.projects, name) is None;
        let ps = section(opt_array_spec(p, "projects"@));
        let ds = section(opt_array_spec(p, "docs"@));
        let es = section(opt_array_spec(p, "events"@));
        let s1 = project_step(env);
        sections_went(e, p, env);
        let w1 = each(ps, ps.len(), begun(e), s1)->Ok_0;
        let w2 = each(ds, ds.len(), w1, doc_step(env))->Ok_0;
        assert forall|t: Work, k: int|
            0 <= k < ps.len() && gone(t) && (#[trigger] s1(t, ps[k])) is Ok implies gone(
            s1(t, ps[k])->Ok_0,
        ) by {
            assert(s1(t, ps[k]) == project_one(t, ps[k], env));
            project_lands(t, ps[k], env);
            assert(ps[k].get("name"@) != Some(JsonV::Str(name)));
        }
        assert(gone(begun(e)));
        each_from(ps, 0, ps.len(), begun(e), s1, gone);
        each_from(ds, 0, ds.len(), w1, doc_step(env), gone);
        each_from(es, 0, es.len(), w2, event_step(env), gone);
        let w = sections_in(e, p, env)->Ok_0;
        let s = raised(w, rows);
        let step = task_step(true, env);
        assert(each(rows, rows.len(), s, step) is Ok) by {
            reveal(crate::import_rules::tasks_in);
        }
        each_prefix(rows, i as nat, rows.len(), s, step);
        let first = |t: Work| t.e.projects == w.e.projects;
        assert forall|t: Work, k: int|
            0 <= k < rows.len() && first(t) && (#[trigger] step(t, rows[k])) is Ok implies first(
            step(t, rows[k])->Ok_0,
        ) by {
            assert(step(t, rows[k]) == task_one(t, rows[k], true, env));
        }
        each_from(rows, 0, i as nat, s, step, first);
        row_was_read(e, p, env, rows, i);
        let t = each(rows, i as nat, s, step)->Ok_0;
        one_row(t, rows[i], true, env);
        assert(head_spec(rows[i], row_id(rows[i]))->Ok_0.project == Some(name));
        assert(false);
    }
}

/// Whether no two memory documents share a source.
pub open spec fn sources_apart(d: Seq<DocV>) -> bool {
    forall|i: int, j: int|
        0 <= i < d.len() && 0 <= j < d.len() && (#[trigger] d[i]).source is Some && d[i].source == (
        #[trigger] d[j]).source ==> d[i].id == d[j].id
}

proof fn doc_stays_apart(w: Work, dv: JsonV, env: EnvV)
    requires
        doc_one(w, dv, env) is Ok,
        sources_apart(w.e.docs),
    ensures
        sources_apart(doc_one(w, dv, env)->Ok_0.e.docs),
{
    let r = doc_one(w, dv, env)->Ok_0;
    let id = match opt_str_nonempty_spec(dv, "id"@) {
        Ok(Some(x)) => x,
        _ => minted(env.log, w.used)->Ok_0,
    };
    let source = opt_str_nonempty_spec(dv, "source"@)->Ok_0;
    free_is_alone(w.e.docs, source, id);
    assert(exists|row: DocV| r.e.docs == #[trigger] put::<Doc>(w.e.docs, row) && row.id == id
        && row.source == source);
    let row = choose|row: DocV|
        r.e.docs == #[trigger] put::<Doc>(w.e.docs, row) && row.id == id && row.source == source;
    assert forall|i: int, j: int|
        0 <= i < r.e.docs.len() && 0 <= j < r.e.docs.len() && (#[trigger] r.e.docs[i]).source
            is Some && r.e.docs[i].source == (#[trigger] r.e.docs[j]).source implies r.e.docs[i].id
        == r.e.docs[j].id by {
        put_keys::<Doc>(w.e.docs, row, i);
        put_keys::<Doc>(w.e.docs, row, j);
        let a = r.e.docs[i];
        let b = r.e.docs[j];
        if a != row {
            let m = choose|m: int| 0 <= m < w.e.docs.len() && w.e.docs[m] == a;
            assert(w.e.docs[m].source == a.source);
            if b != row {
                let q = choose|q: int| 0 <= q < w.e.docs.len() && w.e.docs[q] == b;
                assert(w.e.docs[q].source == b.source);
            }
        } else if b != row {
            let q = choose|q: int| 0 <= q < w.e.docs.len() && w.e.docs[q] == b;
            assert(w.e.docs[q].source == b.source);
        }
    }
}

/// A source belongs to one memory document: where that held before, it holds
/// once a document is in.
pub proof fn sources_stay_apart(e: EngineV, p: JsonV, env: EnvV)
    requires
        imported(e, p, env) is Ok,
        sources_apart(e.docs),
    ensures
        sources_apart(imported(e, p, env)->Ok_0.0.docs),
{
    sections_went(e, p, env);
    tasks_leave(e, p, env);
    let ps = section(opt_array_spec(p, "projects"@));
    let ds = section(opt_array_spec(p, "docs"@));
    let es = section(opt_array_spec(p, "events"@));
    let inv = |t: Work| sources_apart(t.e.docs);
    let step = doc_step(env);
    let w1 = each(ps, ps.len(), begun(e), project_step(env))->Ok_0;
    let w2 = each(ds, ds.len(), w1, step)->Ok_0;
    each_from(ps, 0, ps.len(), begun(e), project_step(env), inv);
    assert forall|t: Work, k: int|
        0 <= k < ds.len() && inv(t) && (#[trigger] step(t, ds[k])) is Ok implies inv(
        step(t, ds[k])->Ok_0,
    ) by {
        assert(step(t, ds[k]) == doc_one(t, ds[k], env));
        doc_stays_apart(t, ds[k], env);
    }
    each_from(ds, 0, ds.len(), w1, step, inv);
    each_from(es, 0, es.len(), w2, event_step(env), inv);
}

} // verus!
