//! Importing a complete document a second time: no task changes, none takes
//! another number, and no event is replayed.

use crate::children::without;
use crate::engine::EngineV;
use crate::engine::task_by_id;
use crate::error::ErrorV;
use crate::import_again::adds_measurements;
use crate::import_again::all_give_ids;
use crate::import_again::given_id;
use crate::import_again::ids_are_new;
use crate::import_again::measurements_of_row;
use crate::import_again::rows_under;
use crate::import_again::same_but_log;
use crate::import_again::spelled_out;
use crate::import_again::task_again;
use crate::import_children::annotations_done;
use crate::import_children::checks_done;
use crate::import_children::each;
use crate::import_children::measurements_done;
use crate::import_laws::each_prefix;
use crate::import_laws::found_stands;
use crate::import_laws::import_keeps_the_store_in_order;
use crate::import_numbers::all_numbered;
use crate::import_numbers::number_for;
use crate::import_numbers::numbers_given;
use crate::import_numbers::one_row;
use crate::import_numbers::row_for;
use crate::import_numbers::row_id;
use crate::import_numbers::row_number;
use crate::import_read::body_spec;
use crate::import_read::EnvV;
use crate::import_read::head_spec;
use crate::import_read::task_tags_spec;
use crate::import_rules::begun;
use crate::import_rules::doc_step;
use crate::import_rules::edge_in;
use crate::import_rules::edges_of_one;
use crate::import_rules::edges_wired;
use crate::import_rules::finished;
use crate::import_rules::floor_raised;
use crate::import_rules::highest;
use crate::import_rules::imported;
use crate::import_rules::inferred_mark;
use crate::import_rules::merged;
use crate::import_rules::number_settled;
use crate::import_rules::project_settled;
use crate::import_rules::project_step;
use crate::import_rules::project_written;
use crate::import_rules::raised;
use crate::import_rules::report;
use crate::import_rules::section;
use crate::import_rules::sections_in;
use crate::import_rules::task_mark;
use crate::import_rules::task_one;
use crate::import_rules::task_step;
use crate::import_rules::tasks_in;
use crate::import_rules::tasks_spec;
use crate::import_rules::Work;
use crate::import_twice::doc_spelled_out;
use crate::import_twice::docs_first;
use crate::import_twice::docs_second;
use crate::import_twice::docs_stand;
use crate::import_twice::events_first;
use crate::import_twice::events_second;
use crate::import_twice::ids_given_differ;
use crate::import_twice::ids_left;
use crate::import_twice::ids_stay_left;
use crate::import_twice::last_archived;
use crate::import_twice::log_grew;
use crate::import_twice::log_grows;
use crate::import_twice::projects_first;
use crate::import_twice::projects_grew;
use crate::import_twice::projects_second;
use crate::import_twice::row_name;
use crate::journal::event_row;
use crate::json::JsonV;
use crate::params::opt_array_spec;
use crate::params::opt_str_array_spec;
use crate::params::opt_str_nonempty_spec;
use crate::restore_children::edge_is_free;
use crate::restore_tables::rest_stands;
use crate::restore_tables::task_put_again;
use crate::rows::Dependency;
use crate::rows::DependencyV;
use crate::rows::Doc;
use crate::rows::Event;
use crate::rows::Measurement;
use crate::rows::MeasurementV;
use crate::rows::Project;
use crate::rows::ProjectV;
use crate::rows::Task;
use crate::rows::TaskV;
use crate::tables::find;
use crate::tables::ordered;
use crate::tables::put;
use crate::tables::put_is_found;
use crate::tables::put_leaves_the_rest;
use crate::types::Entity;
use crate::value::lookup_push;
use vstd::prelude::*;

verus! {

broadcast use vstd::string::group_string_axioms;

/// The tasks the first `n` rows are about.
pub open spec fn ids_listed(v: Seq<JsonV>, n: nat) -> Seq<Seq<char>>
    decreases n,
{
    if n == 0 || n > v.len() {
        Seq::empty()
    } else {
        ids_listed(v, (n - 1) as nat).push(row_id(v[n - 1]))
    }
}

/// What the tasks of the first `n` rows depend on.
pub open spec fn edges_named(v: Seq<JsonV>, n: nat) -> Seq<(Seq<char>, Seq<Seq<char>>)>
    decreases n,
{
    if n == 0 || n > v.len() {
        Seq::empty()
    } else {
        edges_named(v, (n - 1) as nat).push(
            (row_id(v[n - 1]), opt_str_array_spec(v[n - 1], "depends_on"@)->Ok_0),
        )
    }
}

/// The measurements of a task's row.
pub open spec fn tokens_of(tv: JsonV) -> Seq<JsonV> {
    rows_under(tv, "tokens"@)
}

/// Whether a measurement with an id that one of the first `n` rows gives belongs
/// to the task of that row.
pub open spec fn measured_alone(m: Seq<MeasurementV>, v: Seq<JsonV>, n: nat) -> bool {
    forall|k: int, i: int, j: int|
        0 <= k < m.len() && 0 <= i < n && 0 <= j < tokens_of(v[i]).len() && (#[trigger] m[k]).id
            == given_id(#[trigger] tokens_of(v[i])[j]) ==> m[k].task_id == row_id(v[i])
}

/// Whether some measurement has this id.
pub open spec fn stands_measured(m: Seq<MeasurementV>, id: Seq<char>) -> bool {
    exists|k: int| 0 <= k < m.len() && (#[trigger] m[k]).id == id
}

/// Whether every measurement that the first `n` rows give is in a table.
pub open spec fn measured(m: Seq<MeasurementV>, v: Seq<JsonV>, n: nat) -> bool {
    forall|i: int, j: int|
        0 <= i < n && 0 <= j < tokens_of(v[i]).len() ==> stands_measured(
            m,
            given_id(#[trigger] tokens_of(v[i])[j]),
        )
}

/// The rows of a project's table stay as they are found.
pub open spec fn projects_stay(a: Seq<ProjectV>, b: Seq<ProjectV>) -> bool {
    forall|x: Seq<char>|
        find::<Project>(a, x) is Some ==> #[trigger] find::<Project>(b, x) == find::<Project>(a, x)
}

/// The first import under way among the tasks.
pub open spec fn first_at(w: Work, s: Work, v: Seq<JsonV>, n: nat) -> bool {
    &&& w.written == ids_listed(v, n)
    &&& w.edges == edges_named(v, n)
    &&& w.e.docs == s.e.docs
    &&& w.e.default_project == s.e.default_project
    &&& projects_stay(s.e.projects, w.e.projects)
    &&& log_grew(s.e.events, w.e.events)
    &&& forall|i: int|
        0 <= i < n ==> (head_spec(#[trigger] v[i], row_id(v[i]))->Ok_0.project matches Some(p)
            ==> find::<Project>(w.e.projects, p) is Some)
    &&& forall|i: int, j: int|
        0 <= i < j < n ==> row_id(#[trigger] v[i]) != row_id(#[trigger] v[j])
    &&& measured_alone(w.e.measurements, v, n)
    &&& measured(w.e.measurements, v, n)
}

proof fn listed_ids(v: Seq<JsonV>, n: nat, i: int)
    requires
        0 <= i < n <= v.len(),
    ensures
        ids_listed(v, n).contains(row_id(v[i])),
    decreases n,
{
    let l = ids_listed(v, n);
    let b = ids_listed(v, (n - 1) as nat);
    if i < n - 1 {
        listed_ids(v, (n - 1) as nat, i);
        let k = choose|k: int| 0 <= k < b.len() && b[k] == row_id(v[i]);
        assert(l[k] == row_id(v[i]));
    } else {
        assert(l[b.len() as int] == row_id(v[i]));
    }
}

/// A measurement of another task stays.
pub proof fn stays_in_the_rest(s: Seq<MeasurementV>, owner: Seq<char>, k: int)
    requires
        0 <= k < s.len(),
        s[k].task_id != owner,
    ensures
        without::<Measurement>(s, owner).contains(s[k]),
    decreases s.len(),
{
    let r = without::<Measurement>(s, owner);
    let d = s.drop_last();
    let q = without::<Measurement>(d, owner);
    if k < s.len() - 1 {
        assert(d[k] == s[k]);
        stays_in_the_rest(d, owner, k);
        let m = choose|m: int| 0 <= m < q.len() && q[m] == s[k];
        assert(r[m] == s[k]);
    } else {
        assert(r[q.len() as int] == s[k]);
    }
}

/// What a row does besides the tasks.
#[verifier::rlimit(60)]
#[verifier::spinoff_prover]
pub proof fn row_effect(w: Work, tv: JsonV, declared: bool, env: EnvV)
    requires
        task_one(w, tv, declared, env) is Ok,
    ensures
        ({
            let r = task_one(w, tv, declared, env)->Ok_0;
            let id = row_id(tv);
            &&& r.edges == w.edges.push((id, opt_str_array_spec(tv, "depends_on"@)->Ok_0))
            &&& r.e.docs == w.e.docs
            &&& r.e.default_project == w.e.default_project
            &&& projects_stay(w.e.projects, r.e.projects)
            &&& log_grew(w.e.events, r.e.events)
            &&& (head_spec(tv, id)->Ok_0.project matches Some(p) ==> find::<Project>(
                r.e.projects,
                p,
            ) is Some)
        }),
{
    let id = row_id(tv);
    let head = head_spec(tv, id)->Ok_0;
    let body = body_spec(tv, id, env)->Ok_0;
    let begun = Work { written: w.written.push(id), ..w };
    let settled = project_settled(begun, id, head.project, declared, env)->Ok_0;
    assert(projects_stay(w.e.projects, settled.e.projects) && log_grew(
        w.e.events,
        settled.e.events,
    ) && settled.edges == w.edges && settled.e.docs == w.e.docs && settled.e.default_project
        == w.e.default_project && (head.project matches Some(p) ==> find::<Project>(
        settled.e.projects,
        p,
    ) is Some)) by {
        if let Some(name) = head.project {
            if find::<Project>(begun.e.projects, name) is None {
                let p = project_written(begun, name, None, false, env.log.now, None, env)->Ok_0;
                let row = ProjectV {
                    id: p.1,
                    name,
                    description: None,
                    archived: false,
                    created: env.log.now,
                };
                assert(p.0.e.projects == put::<Project>(w.e.projects, row));
                put_is_found::<Project>(w.e.projects, row);
                assert forall|x: Seq<char>|
                    find::<Project>(w.e.projects, x) is Some implies #[trigger] find::<Project>(
                    settled.e.projects,
                    x,
                ) == find::<Project>(w.e.projects, x) by {
                    put_leaves_the_rest::<Project>(w.e.projects, row, x);
                }
                log_grows(
                    w.e.events,
                    event_row(
                        env.log.ids[p.0.used as int],
                        Entity::Project,
                        p.1,
                        "import"@,
                        inferred_mark(name),
                        env.log,
                    ),
                );
            }
        }
    }
    let n = number_settled(settled, id, row_number(tv))->Ok_0;
    let notes = annotations_done(n.0.e.annotations, n.0.used, tv, id, env)->Ok_0;
    let criteria = checks_done(n.0.e.checks, notes.1, tv, id, env)->Ok_0;
    let tokens = measurements_done(n.0.e.measurements, criteria.1, tv, id, env)->Ok_0;
    log_grows(
        settled.e.events,
        event_row(
            env.log.ids[tokens.1 as int],
            Entity::Task,
            id,
            "import"@,
            task_mark(n.1),
            env.log,
        ),
    );
}

#[verifier::rlimit(60)]
#[verifier::spinoff_prover]
proof fn measured_once_more(
    m: Seq<MeasurementV>,
    r: Seq<MeasurementV>,
    v: Seq<JsonV>,
    n: int,
)
    requires
        0 <= n < v.len(),
        measured_alone(m, v, n as nat),
        measured(m, v, n as nat),
        forall|i: int| 0 <= i < n ==> row_id(#[trigger] v[i]) != row_id(v[n]),
        adds_measurements(
            without::<Measurement>(m, row_id(v[n])),
            r,
            tokens_of(v[n]),
            tokens_of(v[n]).len(),
            row_id(v[n]),
        ),
        ids_are_new(
            without::<Measurement>(m, row_id(v[n])),
            tokens_of(v[n]),
            tokens_of(v[n]).len(),
        ),
    ensures
        measured_alone(r, v, (n + 1) as nat),
        measured(r, v, (n + 1) as nat),
{
    let id = row_id(v[n]);
    let c = without::<Measurement>(m, id);
    let nt = tokens_of(v[n]);
    rest_stands::<Measurement>(m, id);
    assert forall|i: int, j: int|
        0 <= i < n && 0 <= j < tokens_of(v[i]).len() implies stands_measured(
        c,
        given_id(#[trigger] tokens_of(v[i])[j]),
    ) by {
        let x = given_id(tokens_of(v[i])[j]);
        assert(stands_measured(m, x));
        let k = choose|k: int| 0 <= k < m.len() && (#[trigger] m[k]).id == x;
        assert(m[k].task_id == row_id(v[i]));
        assert(row_id(v[i]) != id);
        stays_in_the_rest(m, id, k);
        let q = choose|q: int| 0 <= q < c.len() && c[q] == m[k];
        assert(c[q].id == x);
    }
    assert forall|k: int, i: int, j: int|
        0 <= k < r.len() && 0 <= i < n + 1 && 0 <= j < tokens_of(v[i]).len() && (
        #[trigger] r[k]).id == given_id(#[trigger] tokens_of(v[i])[j]) implies r[k].task_id
        == row_id(v[i]) by {
        if k < c.len() {
            assert(r[k] == c[k]);
            if i < n {
                let q = choose|q: int| 0 <= q < m.len() && m[q] == c[k];
                assert(m[q].id == given_id(tokens_of(v[i])[j]));
            } else {
                assert(given_id(nt[j]) != c[k].id);
            }
        } else {
            let x = k - c.len();
            assert(r[c.len() + x].id == given_id(nt[x]) && r[c.len() + x].task_id == id);
            if i < n {
                assert(stands_measured(c, given_id(tokens_of(v[i])[j])));
                let q = choose|q: int|
                    0 <= q < c.len() && (#[trigger] c[q]).id == given_id(tokens_of(v[i])[j]);
                assert(given_id(nt[x]) != c[q].id);
            }
        }
    }
    assert forall|i: int, j: int|
        0 <= i < n + 1 && 0 <= j < tokens_of(v[i]).len() implies stands_measured(
        r,
        given_id(#[trigger] tokens_of(v[i])[j]),
    ) by {
        if i < n {
            assert(stands_measured(c, given_id(tokens_of(v[i])[j])));
            let q = choose|q: int|
                0 <= q < c.len() && (#[trigger] c[q]).id == given_id(tokens_of(v[i])[j]);
            assert(r[q] == c[q]);
        } else {
            assert(r[c.len() + j].id == given_id(nt[j]));
        }
    }
}

#[verifier::rlimit(40)]
proof fn first_grows(w: Work, r: Work, s: Work, v: Seq<JsonV>, n: int)
    requires
        0 <= n < v.len(),
        first_at(w, s, v, n as nat),
        !w.written.contains(row_id(v[n])),
        r.written == w.written.push(row_id(v[n])),
        r.edges == w.edges.push((row_id(v[n]), opt_str_array_spec(v[n], "depends_on"@)->Ok_0)),
        r.e.docs == w.e.docs,
        r.e.default_project == w.e.default_project,
        projects_stay(w.e.projects, r.e.projects),
        log_grew(w.e.events, r.e.events),
        head_spec(v[n], row_id(v[n]))->Ok_0.project matches Some(p) ==> find::<Project>(
            r.e.projects,
            p,
        ) is Some,
        adds_measurements(
            without::<Measurement>(w.e.measurements, row_id(v[n])),
            r.e.measurements,
            tokens_of(v[n]),
            tokens_of(v[n]).len(),
            row_id(v[n]),
        ),
        ids_are_new(
            without::<Measurement>(w.e.measurements, row_id(v[n])),
            tokens_of(v[n]),
            tokens_of(v[n]).len(),
        ),
    ensures
        first_at(r, s, v, (n + 1) as nat),
{
    assert forall|i: int| 0 <= i < n implies row_id(#[trigger] v[i]) != row_id(v[n]) by {
        listed_ids(v, n as nat, i);
    }
    measured_once_more(w.e.measurements, r.e.measurements, v, n);
    assert(projects_stay(s.e.projects, r.e.projects)) by {
        assert forall|x: Seq<char>|
            find::<Project>(s.e.projects, x) is Some implies #[trigger] find::<Project>(
            r.e.projects,
            x,
        ) == find::<Project>(s.e.projects, x) by {
            assert(find::<Project>(w.e.projects, x) == find::<Project>(s.e.projects, x));
        }
    }
    assert(log_grew(s.e.events, r.e.events)) by {
        assert forall|x: Seq<char>| find::<Event>(s.e.events, x) is Some implies (
        #[trigger] find::<Event>(r.e.events, x)) is Some by {
            assert(find::<Event>(w.e.events, x) is Some);
        }
    }
    assert forall|i: int| 0 <= i < n + 1 implies (head_spec(
        #[trigger] v[i],
        row_id(v[i]),
    )->Ok_0.project matches Some(p) ==> find::<Project>(r.e.projects, p) is Some) by {
        if i < n {
            if let Some(p) = head_spec(v[i], row_id(v[i]))->Ok_0.project {
                assert(find::<Project>(w.e.projects, p) is Some);
                assert(find::<Project>(r.e.projects, p) == find::<Project>(w.e.projects, p));
            }
        }
    }
}

#[verifier::rlimit(40)]
proof fn first_goes_on(w: Work, s: Work, v: Seq<JsonV>, declared: bool, env: EnvV, n: int)
    requires
        0 <= n < v.len(),
        first_at(w, s, v, n as nat),
        spelled_out(v[n]),
        task_one(w, v[n], declared, env) is Ok,
    ensures
        first_at(task_one(w, v[n], declared, env)->Ok_0, s, v, (n + 1) as nat),
{
    let r = task_one(w, v[n], declared, env)->Ok_0;
    one_row(w, v[n], declared, env);
    row_effect(w, v[n], declared, env);
    measurements_of_row(w, v[n], declared, env);
    first_grows(w, r, s, v, n);
}

proof fn first_ran(v: Seq<JsonV>, s: Work, declared: bool, env: EnvV, n: nat)
    requires
        n <= v.len(),
        s.written == Seq::<Seq<char>>::empty(),
        s.edges == Seq::<(Seq<char>, Seq<Seq<char>>)>::empty(),
        forall|i: int| 0 <= i < v.len() ==> spelled_out(#[trigger] v[i]),
        each(v, v.len(), s, task_step(declared, env)) is Ok,
    ensures
        each(v, n, s, task_step(declared, env)) matches Ok(w) && first_at(w, s, v, n),
    decreases n,
{
    let step = task_step(declared, env);
    each_prefix(v, n, v.len(), s, step);
    if n > 0 {
        let k = n - 1;
        first_ran(v, s, declared, env, k as nat);
        let w = each(v, k as nat, s, step)->Ok_0;
        assert(step(w, v[k]) == task_one(w, v[k], declared, env));
        assert(spelled_out(v[k]));
        first_goes_on(w, s, v, declared, env, k);
    }
}

/// The second import under way among the tasks.
pub open spec fn second_at(
    w: Work,
    b: Work,
    v: Seq<JsonV>,
    deps: Seq<DependencyV>,
    ids: Seq<Seq<char>>,
    n: nat,
) -> bool {
    &&& w == (Work {
        e: EngineV {
            annotations: w.e.annotations,
            checks: w.e.checks,
            measurements: w.e.measurements,
            dependencies: w.e.dependencies,
            events: w.e.events,
            ..b.e
        },
        used: b.used + n,
        written: ids_listed(v, n),
        edges: edges_named(v, n),
        ..b
    })
    &&& ids_left(w.e.events, ids, b.used + n)
    &&& measured_alone(w.e.measurements, v, v.len())
    &&& forall|i: int|
        0 <= i < w.e.dependencies.len() ==> deps.contains(#[trigger] w.e.dependencies[i])
}

/// Of measurements that belong to the tasks of their rows, those of two rows
/// have different ids.
proof fn measurements_tell(m: Seq<MeasurementV>, v: Seq<JsonV>, i: int, j: int, x: int, y: int)
    requires
        measured_alone(m, v, v.len()),
        measured(m, v, v.len()),
        0 <= i < v.len(),
        0 <= j < v.len(),
        row_id(v[i]) != row_id(v[j]),
        0 <= x < tokens_of(v[i]).len(),
        0 <= y < tokens_of(v[j]).len(),
    ensures
        given_id(tokens_of(v[i])[x]) != given_id(tokens_of(v[j])[y]),
{
    assert(stands_measured(m, given_id(tokens_of(v[i])[x])));
    let k = choose|k: int|
        0 <= k < m.len() && (#[trigger] m[k]).id == given_id(tokens_of(v[i])[x]);
    assert(m[k].task_id == row_id(v[i]));
    if given_id(tokens_of(v[i])[x]) == given_id(tokens_of(v[j])[y]) {
        assert(m[k].id == given_id(tokens_of(v[j])[y]));
    }
}

proof fn still_measured_alone(
    m: Seq<MeasurementV>,
    r: Seq<MeasurementV>,
    t: Seq<MeasurementV>,
    v: Seq<JsonV>,
    n: int,
)
    requires
        0 <= n < v.len(),
        measured_alone(m, v, v.len()),
        measured_alone(t, v, v.len()),
        measured(t, v, v.len()),
        forall|i: int, j: int|
            0 <= i < j < v.len() ==> row_id(#[trigger] v[i]) != row_id(#[trigger] v[j]),
        adds_measurements(
            without::<Measurement>(m, row_id(v[n])),
            r,
            tokens_of(v[n]),
            tokens_of(v[n]).len(),
            row_id(v[n]),
        ),
    ensures
        measured_alone(r, v, v.len()),
{
    let id = row_id(v[n]);
    let c = without::<Measurement>(m, id);
    let nt = tokens_of(v[n]);
    rest_stands::<Measurement>(m, id);
    assert forall|k: int, i: int, j: int|
        0 <= k < r.len() && 0 <= i < v.len() && 0 <= j < tokens_of(v[i]).len() && (
        #[trigger] r[k]).id == given_id(#[trigger] tokens_of(v[i])[j]) implies r[k].task_id
        == row_id(v[i]) by {
        if k < c.len() {
            assert(r[k] == c[k]);
            let q = choose|q: int| 0 <= q < m.len() && m[q] == c[k];
            assert(m[q].id == given_id(tokens_of(v[i])[j]));
        } else {
            let x = k - c.len();
            assert(0 <= x < nt.len());
            let y = nt[x];
            assert(r[c.len() + x].id == given_id(y) && r[c.len() + x].task_id == id);
            if i < n {
                assert(row_id(v[i]) != row_id(v[n]));
                measurements_tell(t, v, i, n, j, x);
            } else if n < i {
                assert(row_id(v[n]) != row_id(v[i]));
                measurements_tell(t, v, i, n, j, x);
            }
        }
    }
}

proof fn not_listed(v: Seq<JsonV>, n: nat, id: Seq<char>)
    requires
        n <= v.len(),
        forall|i: int| 0 <= i < n ==> row_id(#[trigger] v[i]) != id,
    ensures
        !ids_listed(v, n).contains(id),
    decreases n,
{
    if n > 0 {
        not_listed(v, (n - 1) as nat, id);
        let b = ids_listed(v, (n - 1) as nat);
        let l = ids_listed(v, n);
        assert(row_id(v[n - 1]) != id);
        if l.contains(id) {
            let k = choose|k: int| 0 <= k < l.len() && l[k] == id;
            assert(b[k] == id);
        }
    }
}

/// What the first import left: the tasks in order, each as its row says, and
/// the rest as [`first_at`] says.
pub open spec fn first_left(t: EngineV, s: Work, v: Seq<JsonV>, env: EnvV) -> bool {
    &&& t.wf()
    &&& forall|i: int|
        0 <= i < v.len() ==> task_by_id(t.tasks, row_id(#[trigger] v[i])) == Some(
            row_for(s.e, v, i, env),
        )
    &&& forall|i: int|
        0 <= i < v.len() ==> (head_spec(#[trigger] v[i], row_id(v[i]))->Ok_0.project matches Some(p)
            ==> find::<Project>(t.projects, p) is Some)
    &&& forall|i: int, j: int|
        0 <= i < j < v.len() ==> row_id(#[trigger] v[i]) != row_id(#[trigger] v[j])
    &&& measured_alone(t.measurements, v, v.len())
    &&& measured(t.measurements, v, v.len())
}

#[verifier::rlimit(60)]
#[verifier::spinoff_prover]
proof fn second_goes_on(
    a: Work,
    w: Work,
    b: Work,
    s: Work,
    t: EngineV,
    v: Seq<JsonV>,
    declared: bool,
    env1: EnvV,
    env2: EnvV,
    n: int,
)
    requires
        0 <= n < v.len(),
        first_left(t, s, v, env1),
        b.e.tasks == t.tasks,
        forall|x: Seq<char>|
            find::<Project>(t.projects, x) is Some ==> (#[trigger] find::<Project>(
                b.e.projects,
                x,
            )) is Some,
        second_at(w, b, v, t.dependencies, env2.log.ids, n as nat),
        task_one(a, v[n], declared, env1) is Ok,
        spelled_out(v[n]),
        same_but_log(env1, env2),
        b.used + n < env2.log.ids.len(),
    ensures
        task_one(w, v[n], declared, env2) matches Ok(r) && second_at(
            r,
            b,
            v,
            t.dependencies,
            env2.log.ids,
            (n + 1) as nat,
        ),
{
    let tv = v[n];
    let id = row_id(tv);
    let row = row_for(s.e, v, n, env1);
    let number = number_for(s.e, v, n) as i64;
    let stored = task_by_id(s.e.tasks, id);
    let nt = tokens_of(tv);
    let c = without::<Measurement>(w.e.measurements, id);
    assert(task_by_id(t.tasks, row_id(v[n])) == Some(row));
    found_stands(t.tasks, id);
    let k = choose|k: int|
        0 <= k < t.tasks.len() && #[trigger] t.tasks[k] == task_by_id(t.tasks, id)->0
            && t.tasks[k].id == id;
    task_put_again(t.tasks, t.next_short_id, k);
    assert forall|i: int| 0 <= i < n implies row_id(#[trigger] v[i]) != id by {
        assert(row_id(v[i]) != row_id(v[n]));
    }
    not_listed(v, n as nat, id);
    measurements_of_row(a, tv, declared, env1);
    rest_stands::<Measurement>(w.e.measurements, id);
    assert(ids_are_new(c, nt, nt.len())) by {
        assert forall|i: int, q: int| 0 <= i < nt.len() && 0 <= q < c.len() implies given_id(
            #[trigger] nt[i],
        ) != (#[trigger] c[q]).id by {
            let m = choose|m: int|
                0 <= m < w.e.measurements.len() && w.e.measurements[m] == c[q];
            if given_id(nt[i]) == c[q].id {
                assert(w.e.measurements[m].id == given_id(tokens_of(v[n])[i]));
            }
        }
    }
    assert(find::<Event>(w.e.events, env2.log.ids[w.used as int]) is None);
    assert(row == merged(
        stored,
        id,
        number,
        head_spec(tv, id)->Ok_0,
        body_spec(tv, id, env1)->Ok_0,
        task_tags_spec(tv)->Ok_0,
        env1,
    )) by {
        reveal(row_for);
    }
    assert(row.project == head_spec(tv, id)->Ok_0.project);
    task_again(a, w, tv, declared, env1, env2, stored, number);
    let r = task_one(w, tv, declared, env2)->Ok_0;
    second_grows(w, r, b, t, v, env2, n, number);
}

#[verifier::rlimit(40)]
proof fn second_grows(
    w: Work,
    r: Work,
    b: Work,
    t: EngineV,
    v: Seq<JsonV>,
    env2: EnvV,
    n: int,
    number: i64,
)
    requires
        0 <= n < v.len(),
        second_at(w, b, v, t.dependencies, env2.log.ids, n as nat),
        b.used + n < env2.log.ids.len(),
        forall|i: int, j: int|
            0 <= i < j < v.len() ==> row_id(#[trigger] v[i]) != row_id(#[trigger] v[j]),
        measured_alone(t.measurements, v, v.len()),
        measured(t.measurements, v, v.len()),
        r == (Work {
            e: EngineV {
                annotations: r.e.annotations,
                checks: r.e.checks,
                measurements: r.e.measurements,
                dependencies: without::<Dependency>(w.e.dependencies, row_id(v[n])),
                events: put::<Event>(
                    w.e.events,
                    event_row(
                        env2.log.ids[w.used as int],
                        Entity::Task,
                        row_id(v[n]),
                        "import"@,
                        task_mark(number),
                        env2.log,
                    ),
                ),
                ..w.e
            },
            used: w.used + 1,
            written: w.written.push(row_id(v[n])),
            edges: w.edges.push((row_id(v[n]), opt_str_array_spec(v[n], "depends_on"@)->Ok_0)),
            ..w
        }),
        adds_measurements(
            without::<Measurement>(w.e.measurements, row_id(v[n])),
            r.e.measurements,
            tokens_of(v[n]),
            tokens_of(v[n]).len(),
            row_id(v[n]),
        ),
    ensures
        second_at(r, b, v, t.dependencies, env2.log.ids, (n + 1) as nat),
{
    let id = row_id(v[n]);
    ids_stay_left(
        w.e.events,
        env2.log.ids,
        w.used,
        event_row(
            env2.log.ids[w.used as int],
            Entity::Task,
            id,
            "import"@,
            task_mark(number),
            env2.log,
        ),
    );
    still_measured_alone(w.e.measurements, r.e.measurements, t.measurements, v, n);
    rest_stands::<Dependency>(w.e.dependencies, id);
    let left = r.e.dependencies;
    assert forall|i: int| 0 <= i < left.len() implies t.dependencies.contains(
        #[trigger] left[i],
    ) by {
        let m = choose|m: int| 0 <= m < w.e.dependencies.len() && w.e.dependencies[m] == left[i];
        assert(t.dependencies.contains(w.e.dependencies[m]));
    }
}

proof fn second_ran(
    v: Seq<JsonV>,
    b: Work,
    s: Work,
    t: EngineV,
    declared: bool,
    env1: EnvV,
    env2: EnvV,
    n: nat,
)
    requires
        n <= v.len(),
        first_left(t, s, v, env1),
        b.e == (EngineV { projects: b.e.projects, events: b.e.events, ..t }),
        b.written == Seq::<Seq<char>>::empty(),
        b.edges == Seq::<(Seq<char>, Seq<Seq<char>>)>::empty(),
        ids_left(b.e.events, env2.log.ids, b.used),
        forall|x: Seq<char>|
            find::<Project>(t.projects, x) is Some ==> (#[trigger] find::<Project>(
                b.e.projects,
                x,
            )) is Some,
        forall|i: int| 0 <= i < v.len() ==> spelled_out(#[trigger] v[i]),
        same_but_log(env1, env2),
        b.used + v.len() <= env2.log.ids.len(),
        each(v, v.len(), s, task_step(declared, env1)) is Ok,
    ensures
        each(v, n, b, task_step(declared, env2)) matches Ok(w) && second_at(
            w,
            b,
            v,
            t.dependencies,
            env2.log.ids,
            n,
        ),
    decreases n,
{
    let s1 = task_step(declared, env1);
    let s2 = task_step(declared, env2);
    if n > 0 {
        let k = n - 1;
        second_ran(v, b, s, t, declared, env1, env2, k as nat);
        each_prefix(v, k as nat, v.len(), s, s1);
        each_prefix(v, n, v.len(), s, s1);
        let a = each(v, k as nat, s, s1)->Ok_0;
        let w = each(v, k as nat, b, s2)->Ok_0;
        assert(s1(a, v[k]) == task_one(a, v[k], declared, env1));
        assert(s2(w, v[k]) == task_one(w, v[k], declared, env2));
        assert(spelled_out(v[k]));
        second_goes_on(a, w, b, s, t, v, declared, env1, env2, k);
    } else {
        assert forall|i: int| 0 <= i < t.dependencies.len() implies t.dependencies.contains(
            #[trigger] t.dependencies[i],
        ) by {
        }
    }
}

proof fn one_wired(
    tasks: Seq<TaskV>,
    d: Seq<DependencyV>,
    id: Seq<char>,
    on: Seq<Seq<char>>,
    n: nat,
)
    requires
        n <= on.len(),
        edges_of_one(tasks, d, id, on, n) is Ok,
    ensures
        edges_of_one(tasks, d, id, on, n) matches Ok(r) && (forall|x: DependencyV|
            d.contains(x) ==> #[trigger] r.contains(x)) && forall|j: int|
            0 <= j < n ==> task_by_id(tasks, #[trigger] on[j]) is Some && r.contains(
                DependencyV { task_id: id, depends_on: on[j] },
            ),
    decreases n,
{
    if n > 0 {
        one_wired(tasks, d, id, on, (n - 1) as nat);
        let b = edges_of_one(tasks, d, id, on, (n - 1) as nat)->Ok_0;
        let r = edges_of_one(tasks, d, id, on, n)->Ok_0;
        let new = DependencyV { task_id: id, depends_on: on[n - 1] };
        assert forall|x: DependencyV| b.contains(x) implies #[trigger] r.contains(x) by {
            let k = choose|k: int| 0 <= k < b.len() && b[k] == x;
            assert(r[k] == x);
        }
        if !edge_in(b, id, on[n - 1]) {
            assert(r[b.len() as int] == new);
        }
        assert(r.contains(new));
    }
}

/// The edges a document names are there once they are wired.
pub proof fn all_wired(
    tasks: Seq<TaskV>,
    d: Seq<DependencyV>,
    edges: Seq<(Seq<char>, Seq<Seq<char>>)>,
    n: nat,
)
    requires
        n <= edges.len(),
        edges_wired(tasks, d, edges, n) is Ok,
    ensures
        edges_wired(tasks, d, edges, n) matches Ok(r) && forall|i: int, j: int|
            0 <= i < n && 0 <= j < edges[i].1.len() ==> task_by_id(
                tasks,
                #[trigger] edges[i].1[j],
            ) is Some && r.contains(
                DependencyV { task_id: edges[i].0, depends_on: edges[i].1[j] },
            ),
        edges_wired(tasks, d, edges, n) matches Ok(r) && forall|x: DependencyV|
            d.contains(x) ==> #[trigger] r.contains(x),
    decreases n,
{
    if n > 0 {
        all_wired(tasks, d, edges, (n - 1) as nat);
        let b = edges_wired(tasks, d, edges, (n - 1) as nat)->Ok_0;
        let e = edges[n - 1];
        one_wired(tasks, b, e.0, e.1, e.1.len());
        let r = edges_wired(tasks, d, edges, n)->Ok_0;
        assert forall|i: int, j: int| 0 <= i < n && 0 <= j < edges[i].1.len() implies task_by_id(
            tasks,
            #[trigger] edges[i].1[j],
        ) is Some && r.contains(
            DependencyV { task_id: edges[i].0, depends_on: edges[i].1[j] },
        ) by {
            if i < n - 1 {
                assert(b.contains(DependencyV { task_id: edges[i].0, depends_on: edges[i].1[j] }));
            }
        }
    }
}

proof fn one_wired_again(
    t: EngineV,
    d: Seq<DependencyV>,
    id: Seq<char>,
    on: Seq<Seq<char>>,
    n: nat,
)
    requires
        t.wf(),
        n <= on.len(),
        forall|i: int| 0 <= i < d.len() ==> t.dependencies.contains(#[trigger] d[i]),
        forall|j: int|
            0 <= j < on.len() ==> t.dependencies.contains(
                DependencyV { task_id: id, depends_on: #[trigger] on[j] },
            ),
    ensures
        edges_of_one(t.tasks, d, id, on, n) matches Ok(r) && forall|i: int|
            0 <= i < r.len() ==> t.dependencies.contains(#[trigger] r[i]),
    decreases n,
{
    if n > 0 {
        one_wired_again(t, d, id, on, (n - 1) as nat);
        let b = edges_of_one(t.tasks, d, id, on, (n - 1) as nat)->Ok_0;
        let x = on[n - 1];
        assert(t.dependencies.contains(DependencyV { task_id: id, depends_on: x }));
        edge_is_free(t, b, id, x);
    }
}

/// Edges that the store has can be wired again.
pub proof fn all_wired_again(
    t: EngineV,
    d: Seq<DependencyV>,
    edges: Seq<(Seq<char>, Seq<Seq<char>>)>,
    n: nat,
)
    requires
        t.wf(),
        n <= edges.len(),
        forall|i: int| 0 <= i < d.len() ==> t.dependencies.contains(#[trigger] d[i]),
        forall|i: int, j: int|
            0 <= i < edges.len() && 0 <= j < edges[i].1.len() ==> t.dependencies.contains(
                DependencyV { task_id: edges[i].0, depends_on: #[trigger] edges[i].1[j] },
            ),
    ensures
        edges_wired(t.tasks, d, edges, n) matches Ok(r) && forall|i: int|
            0 <= i < r.len() ==> t.dependencies.contains(#[trigger] r[i]),
    decreases n,
{
    if n > 0 {
        all_wired_again(t, d, edges, (n - 1) as nat);
        let b = edges_wired(t.tasks, d, edges, (n - 1) as nat)->Ok_0;
        let e = edges[n - 1];
        assert forall|j: int| 0 <= j < e.1.len() implies t.dependencies.contains(
            DependencyV { task_id: e.0, depends_on: #[trigger] e.1[j] },
        ) by {
            assert(t.dependencies.contains(
                DependencyV { task_id: edges[n - 1].0, depends_on: edges[n - 1].1[j] },
            ));
        }
        one_wired_again(t, b, e.0, e.1, e.1.len());
    }
}

/// The rows of a document's section.
pub open spec fn section_of(p: JsonV, key: Seq<char>) -> Seq<JsonV> {
    section(opt_array_spec(p, key))
}

/// Whether a document spells out what an import would else make up: every task
/// its dates, every memory document its id and its dates, every other row its
/// id. No memory document is listed twice.
pub open spec fn complete(p: JsonV) -> bool {
    let rows = tasks_spec(p)->Ok_0;
    let docs = section_of(p, "docs"@);
    &&& forall|i: int| 0 <= i < rows.len() ==> spelled_out(#[trigger] rows[i])
    &&& forall|i: int| 0 <= i < docs.len() ==> doc_spelled_out(#[trigger] docs[i])
    &&& ids_given_differ(docs)
    &&& all_give_ids(section_of(p, "events"@))
}

/// What the sections of a document left.
pub open spec fn sections_left(w: Work, s: EngineV, p: JsonV, env: EnvV) -> bool {
    let ps = section_of(p, "projects"@);
    let ds = section_of(p, "docs"@);
    let es = section_of(p, "events"@);
    &&& w.e.tasks == s.tasks
    &&& w.written == Seq::<Seq<char>>::empty()
    &&& w.edges == Seq::<(Seq<char>, Seq<Seq<char>>)>::empty()
    &&& projects_grew(s.projects, w.e.projects, ps, ps.len())
    &&& docs_stand(w.e.docs, ds, env, ds.len())
    &&& forall|i: int|
        0 <= i < es.len() ==> find::<Event>(w.e.events, given_id(#[trigger] es[i])) is Some
}

proof fn sections_first(s: EngineV, p: JsonV, env: EnvV)
    requires
        sections_in(s, p, env) is Ok,
        complete(p),
    ensures
        sections_left(sections_in(s, p, env)->Ok_0, s, p, env),
        opt_array_spec(p, "docs"@) is Ok,
        opt_array_spec(p, "events"@) is Ok,
{
    reveal(sections_in);
    let ps = section_of(p, "projects"@);
    let ds = section_of(p, "docs"@);
    let es = section_of(p, "events"@);
    projects_first(ps, ps.len(), s, env);
    let w1 = each(ps, ps.len(), begun(s), project_step(env))->Ok_0;
    docs_first(ds, ds.len(), w1, env);
    let w2 = each(ds, ds.len(), w1, doc_step(env))->Ok_0;
    events_first(es, es.len(), w2, env);
}

/// The sections of a document that came in once come in again.
proof fn sections_second(s: EngineV, t: EngineV, p: JsonV, env1: EnvV, env2: EnvV)
    requires
        sections_in(s, p, env1) is Ok,
        complete(p),
        same_but_log(env1, env2),
        ordered::<Doc>(t.docs),
        t.docs == sections_in(s, p, env1)->Ok_0.e.docs,
        projects_stay(sections_in(s, p, env1)->Ok_0.e.projects, t.projects),
        log_grew(sections_in(s, p, env1)->Ok_0.e.events, t.events),
        ids_left(t.events, env2.log.ids, 0),
        section_of(p, "projects"@).len() + section_of(p, "docs"@).len() <= env2.log.ids.len(),
    ensures
        sections_in(t, p, env2) matches Ok(b) && b == (Work {
            e: EngineV { projects: b.e.projects, events: b.e.events, ..t },
            used: section_of(p, "projects"@).len() + section_of(p, "docs"@).len(),
            ..begun(t)
        }) && projects_grew(
            t.projects,
            b.e.projects,
            section_of(p, "projects"@),
            section_of(p, "projects"@).len(),
        ) && ids_left(
            b.e.events,
            env2.log.ids,
            section_of(p, "projects"@).len() + section_of(p, "docs"@).len(),
        ),
{
    sections_first(s, p, env1);
    reveal(sections_in);
    let ps = section_of(p, "projects"@);
    let ds = section_of(p, "docs"@);
    let es = section_of(p, "events"@);
    let w = sections_in(s, p, env1)->Ok_0;
    let a1 = each(ps, ps.len(), begun(s), project_step(env1))->Ok_0;
    let a2 = each(ds, ds.len(), a1, doc_step(env1))->Ok_0;
    assert forall|i: int| 0 <= i < ps.len() implies find::<Project>(
        t.projects,
        row_name(#[trigger] ps[i]),
    ) is Some by {
        assert(find::<Project>(w.e.projects, row_name(ps[i])) is Some);
        assert(find::<Project>(t.projects, row_name(ps[i])) == find::<Project>(
            w.e.projects,
            row_name(ps[i]),
        ));
    }
    projects_second(ps, ps.len(), s, t, env1, env2);
    let b1 = each(ps, ps.len(), begun(t), project_step(env2))->Ok_0;
    docs_second(ds, ds.len(), a1, b1, env1, env2);
    let b2 = each(ds, ds.len(), b1, doc_step(env2))->Ok_0;
    assert forall|i: int| 0 <= i < es.len() implies find::<Event>(
        b2.e.events,
        given_id(#[trigger] es[i]),
    ) is Some by {
        assert(find::<Event>(w.e.events, given_id(es[i])) is Some);
        assert(find::<Event>(t.events, given_id(es[i])) is Some);
        assert(find::<Event>(b1.e.events, given_id(es[i])) is Some);
    }
    events_second(es, es.len(), a2, b2, env1, env2);
}

/// What an accepted document left of its tasks.
#[verifier::rlimit(40)]
proof fn import_left(s: EngineV, p: JsonV, env: EnvV)
    requires
        s.wf(),
        complete(p),
        imported(s, p, env) is Ok,
    ensures
        ({
            let t = imported(s, p, env)->Ok_0.0;
            let rows = tasks_spec(p)->Ok_0;
            let declared = opt_array_spec(p, "projects"@)->Ok_0 is Some;
            let w = sections_in(s, p, env)->Ok_0;
            let r = tasks_in(w, rows, declared, env)->Ok_0;
            &&& first_left(t, raised(w, rows), rows, env)
            &&& first_at(r, raised(w, rows), rows, rows.len())
            &&& t.docs == w.e.docs
            &&& projects_stay(w.e.projects, t.projects)
            &&& log_grew(w.e.events, t.events)
            &&& raised(begun(t), rows) == begun(t)
        }),
{
    let t = imported(s, p, env)->Ok_0.0;
    let rows = tasks_spec(p)->Ok_0;
    let declared = opt_array_spec(p, "projects"@)->Ok_0 is Some;
    let w = sections_in(s, p, env)->Ok_0;
    let r = tasks_in(w, rows, declared, env)->Ok_0;
    sections_first(s, p, env);
    import_keeps_the_store_in_order(s, p, env);
    assert(t == (EngineV {
        dependencies: t.dependencies,
        default_project: t.default_project,
        ..r.e
    })) by {
        reveal(crate::import_rules::finished);
    }
    assert forall|i: int| 0 <= i < rows.len() implies task_by_id(
        t.tasks,
        row_id(#[trigger] rows[i]),
    ) == Some(row_for(raised(w, rows).e, rows, i, env)) by {
        numbers_given(w, rows, declared, env, i);
    }
    tasks_end(w, rows, declared, env);
}

proof fn tasks_end(w: Work, rows: Seq<JsonV>, declared: bool, env: EnvV)
    requires
        tasks_in(w, rows, declared, env) is Ok,
        w.written == Seq::<Seq<char>>::empty(),
        w.edges == Seq::<(Seq<char>, Seq<Seq<char>>)>::empty(),
        forall|i: int| 0 <= i < rows.len() ==> spelled_out(#[trigger] rows[i]),
    ensures
        first_at(
            tasks_in(w, rows, declared, env)->Ok_0,
            raised(w, rows),
            rows,
            rows.len(),
        ),
        floor_raised(
            tasks_in(w, rows, declared, env)->Ok_0.e.next_short_id,
            highest(rows, rows.len()),
        ) == tasks_in(w, rows, declared, env)->Ok_0.e.next_short_id,
{
    reveal(tasks_in);
    first_ran(rows, raised(w, rows), declared, env, rows.len());
    all_numbered(rows, w, declared, env, rows.len());
}

proof fn default_again(
    s: EngineV,
    w: Seq<ProjectV>,
    t: EngineV,
    b: Seq<ProjectV>,
    ps: Seq<JsonV>,
    name: Seq<char>,
)
    requires
        projects_grew(s.projects, w, ps, ps.len()),
        projects_stay(w, t.projects),
        projects_grew(t.projects, b, ps, ps.len()),
        find::<Project>(t.projects, name) matches Some(p) && !p.archived,
    ensures
        find::<Project>(b, name) matches Some(p) && !p.archived,
{
    if let Some(a) = last_archived(ps, ps.len(), name) {
        assert(find::<Project>(w, name) is Some);
        assert(find::<Project>(t.projects, name) == find::<Project>(w, name));
    } else {
        assert(last_archived(ps, ps.len(), name) is None);
    }
}

proof fn edges_are_listed(v: Seq<JsonV>, n: nat)
    requires
        n <= v.len(),
    ensures
        edges_named(v, n).len() == n,
    decreases n,
{
    if n > 0 {
        edges_are_listed(v, (n - 1) as nat);
    }
}

/// The report of a second import.
proof fn quiet_report(
    tasks: nat,
    projects: nat,
    docs: nat,
    declared: bool,
    w: Work,
    d: Option<Seq<char>>,
)
    requires
        w.renumbered == Seq::<JsonV>::empty(),
        w.replayed == 0,
    ensures
        report(tasks, projects, docs, declared, w, d).get("renumbered"@) == Some(
            JsonV::Arr(Seq::empty()),
        ),
        report(tasks, projects, docs, declared, w, d).get("events_imported"@) == Some(
            JsonV::Int(0),
        ),
{
    let m = report(tasks, projects, docs, declared, w, d)->Obj_0;
    reveal_strlit("events_imported");
    reveal_strlit("default_project");
    reveal_strlit("renumbered");
    assert("events_imported"@.len() == 15 && "events_imported"@[0] == 'e');
    assert("default_project"@.len() == 15 && "default_project"@[0] == 'd');
    assert("renumbered"@.len() == 10);
    assert(m =~= Seq::<(Seq<char>, JsonV)>::empty().push(m[0]).push(m[1]).push(m[2]).push(
        m[3],
    ).push(m[4]).push(m[5]).push(m[6]).push(m[7]));
    lookup_push(m.take(7), m[7], "events_imported"@);
    lookup_push(m.take(6), m[6], "events_imported"@);
    lookup_push(m.take(5), m[5], "events_imported"@);
    assert(m =~= m.take(7).push(m[7]));
    assert(m.take(7) =~= m.take(6).push(m[6]));
    assert(m.take(6) =~= m.take(5).push(m[5]));
    lookup_push(m.take(7), m[7], "renumbered"@);
}

/// Importing a complete document a second time is accepted and changes no task
/// and no memory document: every task keeps its number and its revision, none
/// is renumbered, and no event is replayed.
#[verifier::rlimit(60)]
#[verifier::spinoff_prover]
pub proof fn importing_twice_changes_nothing(s: EngineV, p: JsonV, env1: EnvV, env2: EnvV)
    requires
        s.wf(),
        complete(p),
        imported(s, p, env1) is Ok,
        same_but_log(env1, env2),
        ids_left(imported(s, p, env1)->Ok_0.0.events, env2.log.ids, 0),
        section_of(p, "projects"@).len() + section_of(p, "docs"@).len()
            + tasks_spec(p)->Ok_0.len() <= env2.log.ids.len(),
    ensures
        ({
            let t = imported(s, p, env1)->Ok_0.0;
            imported(t, p, env2) matches Ok(r) && r.0.tasks == t.tasks && r.0.docs == t.docs
                && r.0.next_short_id == t.next_short_id && r.1.get("renumbered"@) == Some(
                JsonV::Arr(Seq::empty()),
            ) && r.1.get("events_imported"@) == Some(JsonV::Int(0))
        }),
{
    let t = imported(s, p, env1)->Ok_0.0;
    let rows = tasks_spec(p)->Ok_0;
    let declared = opt_array_spec(p, "projects"@)->Ok_0 is Some;
    let want = opt_str_nonempty_spec(p, "default_project"@)->Ok_0;
    let ps = section_of(p, "projects"@);
    let w = sections_in(s, p, env1)->Ok_0;
    let first = raised(w, rows);
    let a = tasks_in(w, rows, declared, env1)->Ok_0;
    sections_first(s, p, env1);
    import_left(s, p, env1);
    sections_second(s, t, p, env1, env2);
    let b = sections_in(t, p, env2)->Ok_0;
    assert(raised(b, rows) == b);
    tasks_second(w, b, t, rows, declared, env1, env2);
    let r = tasks_in(b, rows, declared, env2)->Ok_0;
    finish_second(s, w, a, b, r, t, rows, want, ps, env2);
    let done = finished(r, want)->Ok_0;
    quiet_report(
        rows.len(),
        ps.len(),
        section_of(p, "docs"@).len(),
        opt_array_spec(p, "docs"@)->Ok_0 is Some,
        r,
        done.default_project,
    );
}

proof fn tasks_second(
    w: Work,
    b: Work,
    t: EngineV,
    rows: Seq<JsonV>,
    declared: bool,
    env1: EnvV,
    env2: EnvV,
)
    requires
        tasks_in(w, rows, declared, env1) is Ok,
        first_left(t, raised(w, rows), rows, env1),
        b == (Work {
            e: EngineV { projects: b.e.projects, events: b.e.events, ..t },
            used: b.used,
            ..begun(t)
        }),
        raised(b, rows) == b,
        ids_left(b.e.events, env2.log.ids, b.used),
        forall|x: Seq<char>|
            find::<Project>(t.projects, x) is Some ==> (#[trigger] find::<Project>(
                b.e.projects,
                x,
            )) is Some,
        forall|i: int| 0 <= i < rows.len() ==> spelled_out(#[trigger] rows[i]),
        same_but_log(env1, env2),
        b.used + rows.len() <= env2.log.ids.len(),
    ensures
        tasks_in(b, rows, declared, env2) matches Ok(r) && second_at(
            r,
            b,
            rows,
            t.dependencies,
            env2.log.ids,
            rows.len(),
        ),
{
    reveal(tasks_in);
    second_ran(rows, b, raised(w, rows), t, declared, env1, env2, rows.len());
}

proof fn finish_second(
    s: EngineV,
    w: Work,
    a: Work,
    b: Work,
    r: Work,
    t: EngineV,
    rows: Seq<JsonV>,
    want: Option<Seq<char>>,
    ps: Seq<JsonV>,
    env2: EnvV,
)
    requires
        t.wf(),
        finished(a, want) == Ok::<EngineV, ErrorV>(t),
        a.edges == edges_named(rows, rows.len()),
        b == (Work {
            e: EngineV { projects: b.e.projects, events: b.e.events, ..t },
            used: b.used,
            ..begun(t)
        }),
        second_at(r, b, rows, t.dependencies, env2.log.ids, rows.len()),
        projects_grew(s.projects, w.e.projects, ps, ps.len()),
        projects_stay(w.e.projects, t.projects),
        projects_grew(t.projects, b.e.projects, ps, ps.len()),
    ensures
        finished(r, want) matches Ok(u) && u.tasks == t.tasks && u.docs == t.docs
            && u.next_short_id == t.next_short_id,
{
    reveal(crate::import_rules::finished);
    let edges = edges_named(rows, rows.len());
    edges_are_listed(rows, rows.len());
    all_wired(a.e.tasks, a.e.dependencies, edges, edges.len());
    all_wired_again(t, r.e.dependencies, edges, edges.len());
    if let Some(name) = want {
        default_again(s, w.e.projects, t, b.e.projects, ps, name);
    }
}

} // verus!
