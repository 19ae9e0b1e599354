//! The number each imported task gets, whatever the order of the rows.

use crate::engine::EngineV;
use crate::engine::number_taken;
use crate::engine::task_by_id;
use crate::engine::task_put;
use crate::error::ErrorV;
use crate::import_children::each;
use crate::import_laws::added_rows;
use crate::import_laws::each_prefix;
use crate::import_laws::found_stands;
use crate::import_laws::highest_is_carried;
use crate::import_laws::highest_is_highest;
use crate::import_laws::put_lookup;
use crate::import_laws::replaced_rows;
use crate::import_read::body_spec;
use crate::import_read::EnvV;
use crate::import_read::head_spec;
use crate::import_read::task_tags_spec;
use crate::import_rules::claim_of;
use crate::import_rules::claims_spec;
use crate::import_rules::first_claim;
use crate::import_rules::highest;
use crate::import_rules::merged;
use crate::import_rules::number_settled;
use crate::import_rules::project_settled;
use crate::import_rules::raised;
use crate::import_rules::task_id_spec;
use crate::import_rules::task_one;
use crate::import_rules::task_step;
use crate::import_rules::tasks_in;
use crate::import_rules::Work;
use crate::json::JsonV;
use crate::params::opt_i64_spec;
use crate::params::req_i64_spec;
use crate::rows::TaskV;
use vstd::prelude::*;

verus! {

broadcast use vstd::string::group_string_axioms;

/// The task a row is about.
pub open spec fn row_id(tv: JsonV) -> Seq<char> {
    task_id_spec(tv)->Ok_0
}

/// The number a row carries.
pub open spec fn row_number(tv: JsonV) -> i64 {
    req_i64_spec(tv, "short_id"@)->Ok_0
}

/// Whether a row's task has to take another number than it carries: it is new,
/// and some task has that number.
pub open spec fn moves(tasks: Seq<TaskV>, tv: JsonV) -> bool {
    task_by_id(tasks, row_id(tv)) is None && number_taken(tasks, row_number(tv))
}

/// How many of the first `n` rows have to take another number.
pub open spec fn movers(tasks: Seq<TaskV>, v: Seq<JsonV>, n: nat) -> nat
    decreases n,
{
    if n == 0 || n > v.len() {
        0
    } else {
        movers(tasks, v, (n - 1) as nat) + if moves(tasks, v[n - 1]) {
            1nat
        } else {
            0nat
        }
    }
}

/// The number of the task of row `i`: the one it has in the store, else the one
/// it carries, else the next one that is left once the rows before it that
/// have to move have taken theirs.
pub open spec fn number_for(e: EngineV, v: Seq<JsonV>, i: int) -> int {
    match task_by_id(e.tasks, row_id(v[i])) {
        Some(t) => t.short_id as int,
        None => if number_taken(e.tasks, row_number(v[i])) {
            e.next_short_id + movers(e.tasks, v, i as nat)
        } else {
            row_number(v[i]) as int
        },
    }
}

/// The row of the task of row `i`.
#[verifier::opaque]
pub open spec fn row_for(e: EngineV, v: Seq<JsonV>, i: int, env: EnvV) -> TaskV {
    let id = row_id(v[i]);
    merged(
        task_by_id(e.tasks, id),
        id,
        number_for(e, v, i) as i64,
        head_spec(v[i], id)->Ok_0,
        body_spec(v[i], id, env)->Ok_0,
        task_tags_spec(v[i])->Ok_0,
        env,
    )
}

/// The number a task gets at its turn.
pub open spec fn number_now(e: EngineV, tv: JsonV) -> i64 {
    match task_by_id(e.tasks, row_id(tv)) {
        Some(t) => t.short_id,
        None => if number_taken(e.tasks, row_number(tv)) {
            e.next_short_id
        } else {
            row_number(tv)
        },
    }
}

/// What one row does to the tasks.
#[verifier::rlimit(40)]
pub proof fn one_row(w: Work, tv: JsonV, declared: bool, env: EnvV)
    requires
        task_one(w, tv, declared, env) is Ok,
    ensures
        ({
            let r = task_one(w, tv, declared, env)->Ok_0;
            let id = row_id(tv);
            &&& task_id_spec(tv) is Ok
            &&& claim_of(tv) == Some((row_number(tv), id))
            &&& opt_i64_spec(tv, "short_id"@) == Ok::<Option<i64>, ErrorV>(Some(row_number(tv)))
            &&& 1 <= row_number(tv) < i64::MAX
            &&& head_spec(tv, id) is Ok
            &&& body_spec(tv, id, env) is Ok
            &&& task_tags_spec(tv) is Ok
            &&& !w.written.contains(id)
            &&& r.written == w.written.push(id)
            &&& (task_by_id(w.e.tasks, id) matches Some(t) ==> t.rev <= body_spec(
                tv,
                id,
                env,
            )->Ok_0.rev)
            &&& moves(w.e.tasks, tv) ==> w.e.next_short_id < i64::MAX
            &&& r.e.next_short_id == w.e.next_short_id + if moves(w.e.tasks, tv) {
                1int
            } else {
                0int
            }
            &&& r.e.tasks == task_put(
                w.e.tasks,
                merged(
                    task_by_id(w.e.tasks, id),
                    id,
                    number_now(w.e, tv),
                    head_spec(tv, id)->Ok_0,
                    body_spec(tv, id, env)->Ok_0,
                    task_tags_spec(tv)->Ok_0,
                    env,
                ),
            )
        }),
{
    let id = row_id(tv);
    let carried = row_number(tv);
    let head = head_spec(tv, id)->Ok_0;
    let begun = Work { written: w.written.push(id), ..w };
    let settled = project_settled(begun, id, head.project, declared, env)->Ok_0;
    assert(settled.e.tasks == w.e.tasks && settled.written == begun.written
        && settled.e.next_short_id == w.e.next_short_id);
    let v = number_settled(settled, id, carried)->Ok_0;
    assert(v.0.e.tasks == w.e.tasks && v.0.written == begun.written);
    assert(v.1 == number_now(w.e, tv));
}

/// The tasks under way: the first `n` rows are in, each under the number that
/// is its own, and every other task is as it was.
pub open spec fn numbered(w: Work, s: Work, v: Seq<JsonV>, env: EnvV, n: nat) -> bool {
    &&& w.e.next_short_id == s.e.next_short_id + movers(s.e.tasks, v, n)
    &&& w.written.len() == s.written.len() + n
    &&& forall|i: int| 0 <= i < n ==> w.written.contains(row_id(#[trigger] v[i]))
    &&& forall|i: int|
        0 <= i < n ==> task_by_id(w.e.tasks, row_id(#[trigger] v[i])) == Some(
            row_for(s.e, v, i, env),
        )
    &&& forall|id: Seq<char>|
        (forall|i: int| 0 <= i < n ==> row_id(#[trigger] v[i]) != id) ==> #[trigger] task_by_id(
            w.e.tasks,
            id,
        ) == task_by_id(s.e.tasks, id)
    &&& forall|x: i64| #[trigger]
        number_taken(w.e.tasks, x) <==> number_taken(s.e.tasks, x) || exists|i: int|
            0 <= i < n && task_by_id(s.e.tasks, row_id(#[trigger] v[i])) is None && x
                == number_for(s.e, v, i)
}

/// Of two rows of a document that gives no number to two tasks, those with one
/// number are about one task.
pub proof fn claims_tell(
    v: Seq<JsonV>,
    n: nat,
    i: int,
    j: int,
    c: i64,
    a: Seq<char>,
    b: Seq<char>,
)
    requires
        n <= v.len(),
        claims_spec(v, n) is Ok,
        0 <= i < j < n,
        claim_of(v[i]) == Some((c, a)),
        claim_of(v[j]) == Some((c, b)),
    ensures
        a == b,
    decreases n,
{
    if j < n - 1 {
        claims_tell(v, (n - 1) as nat, i, j, c, a, b);
    } else {
        first_claim_is_kept(v, j as nat, i, c, a);
    }
}

/// The first claim of a number, in a document whose claims agree, is for the
/// task of every row that claims it.
proof fn first_claim_is_kept(v: Seq<JsonV>, n: nat, i: int, c: i64, a: Seq<char>)
    requires
        n <= v.len(),
        claims_spec(v, n) is Ok,
        0 <= i < n,
        claim_of(v[i]) == Some((c, a)),
    ensures
        first_claim(v, n, c) == Some(a),
    decreases n,
{
    if i < n - 1 {
        first_claim_is_kept(v, (n - 1) as nat, i, c, a);
    }
}

proof fn number_put(s: Seq<TaskV>, t: TaskV, x: i64)
    requires
        task_by_id(s, t.id) matches Some(old) ==> old.short_id == t.short_id,
    ensures
        number_taken(task_put(s, t), x) <==> number_taken(s, x) || x == t.short_id,
{
    let r = task_put(s, t);
    found_stands(s, t.id);
    if task_by_id(s, t.id) is Some {
        replaced_rows(s, t);
        if number_taken(s, x) {
            let k = choose|k: int| 0 <= k < s.len() && (#[trigger] s[k]).short_id == x;
            assert(r[k].short_id == x);
        }
        if number_taken(r, x) {
            let k = choose|k: int| 0 <= k < r.len() && (#[trigger] r[k]).short_id == x;
            assert(s[k].short_id == x);
        }
    } else {
        added_rows(s, t);
        if number_taken(s, x) {
            let k = choose|k: int| 0 <= k < s.len() && (#[trigger] s[k]).short_id == x;
            assert(r.contains(s[k]));
            let m = choose|m: int| 0 <= m < r.len() && r[m] == s[k];
            assert(r[m].short_id == x);
        }
        if x == t.short_id {
            let m = choose|m: int| 0 <= m < r.len() && r[m] == t;
            assert(r[m].short_id == x);
        }
        if number_taken(r, x) {
            let k = choose|k: int| 0 <= k < r.len() && (#[trigger] r[k]).short_id == x;
            if r[k] != t {
                let m = choose|m: int| 0 <= m < s.len() && s[m] == r[k];
                assert(s[m].short_id == x);
            }
        }
    }
}

/// Where the rows of a document have come in, each carries a number below
/// every new one.
pub proof fn numbers_are_below(w: Work, v: Seq<JsonV>, i: int)
    requires
        0 <= i < v.len(),
        opt_i64_spec(v[i], "short_id"@) == Ok::<Option<i64>, ErrorV>(Some(row_number(v[i]))),
        forall|k: int|
            0 <= k < v.len() ==> (opt_i64_spec(#[trigger] v[k], "short_id"@) matches Ok(Some(c))
                ==> c < i64::MAX),
    ensures
        row_number(v[i]) < raised(w, v).e.next_short_id,
{
    highest_is_highest(v, v.len(), i);
    highest_is_carried(v, v.len());
    let k = choose|k: int|
        0 <= k < v.len() && #[trigger] opt_i64_spec(v[k], "short_id"@) == Ok::<
            Option<i64>,
            ErrorV,
        >(highest(v, v.len()));
    assert(opt_i64_spec(v[k], "short_id"@) matches Ok(Some(_)));
}

/// At its turn, a task gets the number that is its own.
pub proof fn turn_changes_no_number(w: Work, s: Work, v: Seq<JsonV>, env: EnvV, n: int)
    requires
        0 <= n < v.len(),
        claims_spec(v, v.len()) is Ok,
        numbered(w, s, v, env, n as nat),
        !w.written.contains(row_id(v[n])),
        claim_of(v[n]) == Some((row_number(v[n]), row_id(v[n]))),
        forall|i: int| 0 <= i < n ==> claim_of(#[trigger] v[i]) == Some(
            (row_number(v[i]), row_id(v[i])),
        ),
        row_number(v[n]) < s.e.next_short_id,
    ensures
        forall|i: int| 0 <= i < n ==> row_id(#[trigger] v[i]) != row_id(v[n]),
        task_by_id(w.e.tasks, row_id(v[n])) == task_by_id(s.e.tasks, row_id(v[n])),
        moves(w.e.tasks, v[n]) == moves(s.e.tasks, v[n]),
        number_now(w.e, v[n]) == number_for(s.e, v, n),
{
    let tv = v[n];
    let id = row_id(tv);
    let c = row_number(tv);
    assert forall|i: int| 0 <= i < n implies row_id(#[trigger] v[i]) != id by {
        assert(w.written.contains(row_id(v[i])));
    }
    assert(task_by_id(w.e.tasks, id) == task_by_id(s.e.tasks, id));
    assert(number_taken(w.e.tasks, c) == number_taken(s.e.tasks, c) || task_by_id(
        s.e.tasks,
        id,
    ) is Some) by {
        if task_by_id(s.e.tasks, id) is None && number_taken(w.e.tasks, c) && !number_taken(
            s.e.tasks,
            c,
        ) {
            let i = choose|i: int|
                0 <= i < n && task_by_id(s.e.tasks, row_id(#[trigger] v[i])) is None && c
                    == number_for(s.e, v, i);
            assert(claim_of(v[i]) == Some((row_number(v[i]), row_id(v[i]))));
            assert(c == row_number(v[i]));
            claims_tell(v, v.len(), i, n, c, row_id(v[i]), id);
        }
    }
    assert(moves(w.e.tasks, tv) == moves(s.e.tasks, tv));
    assert(number_now(w.e, tv) == number_for(s.e, v, n));
}

/// The tasks once one more row is in.
#[verifier::rlimit(60)]
#[verifier::spinoff_prover]
proof fn row_is_numbered(w: Work, r: Work, s: Work, v: Seq<JsonV>, env: EnvV, n: int, row: TaskV)
    requires
        0 <= n < v.len(),
        numbered(w, s, v, env, n as nat),
        row == row_for(s.e, v, n, env),
        row.id == row_id(v[n]),
        row.short_id == number_for(s.e, v, n),
        forall|i: int| 0 <= i < n ==> row_id(#[trigger] v[i]) != row_id(v[n]),
        task_by_id(w.e.tasks, row_id(v[n])) == task_by_id(s.e.tasks, row_id(v[n])),
        r.e.tasks == task_put(w.e.tasks, row),
        r.written == w.written.push(row_id(v[n])),
        r.e.next_short_id == w.e.next_short_id + if moves(s.e.tasks, v[n]) {
            1int
        } else {
            0int
        },
    ensures
        numbered(r, s, v, env, (n + 1) as nat),
{
    let id = row_id(v[n]);
    assert forall|i: int| 0 <= i < n + 1 implies r.written.contains(row_id(#[trigger] v[i])) by {
        if i < n {
            let k = choose|k: int| 0 <= k < w.written.len() && w.written[k] == row_id(v[i]);
            assert(r.written[k] == row_id(v[i]));
        } else {
            assert(r.written[w.written.len() as int] == id);
        }
    }
    assert forall|i: int| 0 <= i < n + 1 implies task_by_id(r.e.tasks, row_id(#[trigger] v[i]))
        == Some(row_for(s.e, v, i, env)) by {
        put_lookup(w.e.tasks, row, row_id(v[i]));
    }
    assert forall|x: Seq<char>|
        (forall|i: int| 0 <= i < n + 1 ==> row_id(#[trigger] v[i]) != x) implies
        #[trigger] task_by_id(r.e.tasks, x) == task_by_id(s.e.tasks, x) by {
        assert(row_id(v[n]) != x);
        put_lookup(w.e.tasks, row, x);
        assert(forall|i: int| 0 <= i < n ==> row_id(#[trigger] v[i]) != x);
    }
    assert forall|x: i64| #[trigger]
        number_taken(r.e.tasks, x) <==> number_taken(s.e.tasks, x) || exists|i: int|
            0 <= i < n + 1 && task_by_id(s.e.tasks, row_id(#[trigger] v[i])) is None && x
                == number_for(s.e, v, i) by {
        number_put(w.e.tasks, row, x);
        let was = number_taken(w.e.tasks, x);
        if number_taken(r.e.tasks, x) && !number_taken(s.e.tasks, x) {
            if was {
                let i = choose|i: int|
                    0 <= i < n && task_by_id(s.e.tasks, row_id(#[trigger] v[i])) is None && x
                        == number_for(s.e, v, i);
                assert(task_by_id(s.e.tasks, row_id(v[i])) is None);
            } else {
                assert(x == row.short_id);
                if task_by_id(s.e.tasks, id) is Some {
                    found_stands(w.e.tasks, id);
                    let k = choose|k: int|
                        0 <= k < w.e.tasks.len() && #[trigger] w.e.tasks[k] == task_by_id(
                            w.e.tasks,
                            id,
                        )->0 && w.e.tasks[k].id == id;
                    assert(w.e.tasks[k].short_id == x);
                }
                assert(task_by_id(s.e.tasks, row_id(v[n])) is None);
            }
        }
        if exists|i: int|
            0 <= i < n + 1 && task_by_id(s.e.tasks, row_id(#[trigger] v[i])) is None && x
                == number_for(s.e, v, i) {
            let i = choose|i: int|
                0 <= i < n + 1 && task_by_id(s.e.tasks, row_id(#[trigger] v[i])) is None && x
                    == number_for(s.e, v, i);
            if i < n {
                assert(was);
            }
        }
    }
}

/// The tasks once one more row is in, which was accepted.
#[verifier::rlimit(40)]
pub proof fn one_more_numbered(
    w: Work,
    s: Work,
    v: Seq<JsonV>,
    declared: bool,
    env: EnvV,
    n: int,
)
    requires
        0 <= n < v.len(),
        claims_spec(v, v.len()) is Ok,
        numbered(w, s, v, env, n as nat),
        task_one(w, v[n], declared, env) is Ok,
        forall|i: int| 0 <= i < n ==> claim_of(#[trigger] v[i]) == Some(
            (row_number(v[i]), row_id(v[i])),
        ),
        row_number(v[n]) < s.e.next_short_id,
    ensures
        numbered(task_one(w, v[n], declared, env)->Ok_0, s, v, env, (n + 1) as nat),
{
    let r = task_one(w, v[n], declared, env)->Ok_0;
    one_row(w, v[n], declared, env);
    turn_changes_no_number(w, s, v, env, n);
    reveal(row_for);
    row_is_numbered(w, r, s, v, env, n, row_for(s.e, v, n, env));
}

/// The rows of a document, once they are in: each carries a number it may.
pub proof fn rows_are_read(v: Seq<JsonV>, n: nat, s: Work, declared: bool, env: EnvV, i: int)
    requires
        n <= v.len(),
        each(v, n, s, task_step(declared, env)) is Ok,
        0 <= i < n,
    ensures
        claim_of(v[i]) == Some((row_number(v[i]), row_id(v[i]))),
        opt_i64_spec(v[i], "short_id"@) == Ok::<Option<i64>, ErrorV>(Some(row_number(v[i]))),
        row_number(v[i]) < i64::MAX,
{
    let step = task_step(declared, env);
    each_prefix(v, i as nat + 1, n, s, step);
    each_prefix(v, i as nat, n, s, step);
    let w = each(v, i as nat, s, step)->Ok_0;
    assert(step(w, v[i]) == task_one(w, v[i], declared, env));
    one_row(w, v[i], declared, env);
}

/// The first rows of a document that is accepted get the numbers that are theirs.
pub proof fn all_numbered(v: Seq<JsonV>, w0: Work, declared: bool, env: EnvV, n: nat)
    requires
        n <= v.len(),
        claims_spec(v, v.len()) is Ok,
        each(v, v.len(), raised(w0, v), task_step(declared, env)) is Ok,
    ensures
        each(v, n, raised(w0, v), task_step(declared, env)) matches Ok(w) && numbered(
            w,
            raised(w0, v),
            v,
            env,
            n,
        ),
    decreases n,
{
    let s = raised(w0, v);
    let step = task_step(declared, env);
    each_prefix(v, n, v.len(), s, step);
    if n > 0 {
        let k = n - 1;
        all_numbered(v, w0, declared, env, k as nat);
        let w = each(v, k as nat, s, step)->Ok_0;
        assert(step(w, v[k]) == task_one(w, v[k], declared, env));
        assert forall|i: int| 0 <= i < v.len() implies claim_of(#[trigger] v[i]) == Some(
            (row_number(v[i]), row_id(v[i])),
        ) && (opt_i64_spec(v[i], "short_id"@) matches Ok(Some(c)) ==> c < i64::MAX) by {
            rows_are_read(v, v.len(), s, declared, env, i);
        }
        rows_are_read(v, v.len(), s, declared, env, k);
        numbers_are_below(w0, v, k);
        one_more_numbered(w, s, v, declared, env, k);
    }
}

/// Every imported task has the row and the number that [`row_for`] and
/// [`number_for`] say. The other rows of the document have a say in it only by
/// how many of those before it have to take another number.
pub proof fn numbers_given(w: Work, v: Seq<JsonV>, declared: bool, env: EnvV, i: int)
    requires
        tasks_in(w, v, declared, env) is Ok,
        0 <= i < v.len(),
    ensures
        task_by_id(tasks_in(w, v, declared, env)->Ok_0.e.tasks, row_id(v[i])) == Some(
            row_for(raised(w, v).e, v, i, env),
        ),
        row_for(raised(w, v).e, v, i, env).short_id == number_for(raised(w, v).e, v, i),
{
    reveal(tasks_in);
    all_numbered(v, w, declared, env, v.len());
    let s = raised(w, v);
    let step = task_step(declared, env);
    all_numbered(v, w, declared, env, i as nat);
    each_prefix(v, i as nat + 1, v.len(), s, step);
    let now = each(v, i as nat, s, step)->Ok_0;
    assert(step(now, v[i]) == task_one(now, v[i], declared, env));
    one_row(now, v[i], declared, env);
    rows_are_read(v, v.len(), s, declared, env, i);
    assert forall|k: int| 0 <= k < v.len() implies claim_of(#[trigger] v[k]) == Some(
        (row_number(v[k]), row_id(v[k])),
    ) && (opt_i64_spec(v[k], "short_id"@) matches Ok(Some(c)) ==> c < i64::MAX) by {
        rows_are_read(v, v.len(), s, declared, env, k);
    }
    numbers_are_below(w, v, i);
    turn_changes_no_number(now, s, v, env, i);
    reveal(row_for);
}

proof fn no_movers(tasks: Seq<TaskV>, v: Seq<JsonV>, n: nat)
    requires
        n <= v.len(),
        forall|k: int| 0 <= k < n ==> !moves(tasks, #[trigger] v[k]),
    ensures
        movers(tasks, v, n) == 0,
    decreases n,
{
    if n > 0 {
        no_movers(tasks, v, (n - 1) as nat);
        assert(!moves(tasks, v[n - 1]));
    }
}

/// Documents of the same rows have the same highest number.
pub proof fn highest_of_both(a: Seq<JsonV>, b: Seq<JsonV>)
    requires
        forall|i: int| 0 <= i < a.len() ==> b.contains(#[trigger] a[i]),
        forall|i: int| 0 <= i < b.len() ==> a.contains(#[trigger] b[i]),
    ensures
        highest(a, a.len()) == highest(b, b.len()),
{
    if highest(a, a.len()) is Some {
        highest_is_carried(a, a.len());
        let i = choose|i: int|
            0 <= i < a.len() && #[trigger] opt_i64_spec(a[i], "short_id"@) == Ok::<
                Option<i64>,
                ErrorV,
            >(highest(a, a.len()));
        assert(b.contains(a[i]));
        let j = choose|j: int| 0 <= j < b.len() && b[j] == a[i];
        highest_is_highest(b, b.len(), j);
    }
    if highest(b, b.len()) is Some {
        highest_is_carried(b, b.len());
        let i = choose|i: int|
            0 <= i < b.len() && #[trigger] opt_i64_spec(b[i], "short_id"@) == Ok::<
                Option<i64>,
                ErrorV,
            >(highest(b, b.len()));
        assert(a.contains(b[i]));
        let j = choose|j: int| 0 <= j < a.len() && a[j] == b[i];
        highest_is_highest(a, a.len(), j);
    }
}

/// The order of the rows changes no number: where two documents hold the same
/// rows and both are accepted, a task gets the same number from either, so long
/// as equally many tasks that have to move stand before it.
pub proof fn row_order_changes_no_number(
    w: Work,
    a: Seq<JsonV>,
    b: Seq<JsonV>,
    declared: bool,
    env: EnvV,
    i: int,
    j: int,
)
    requires
        tasks_in(w, a, declared, env) is Ok,
        tasks_in(w, b, declared, env) is Ok,
        forall|k: int| 0 <= k < a.len() ==> b.contains(#[trigger] a[k]),
        forall|k: int| 0 <= k < b.len() ==> a.contains(#[trigger] b[k]),
        0 <= i < a.len(),
        0 <= j < b.len(),
        a[i] == b[j],
        moves(w.e.tasks, a[i]) ==> movers(w.e.tasks, a, i as nat) == movers(
            w.e.tasks,
            b,
            j as nat,
        ),
    ensures
        task_by_id(tasks_in(w, a, declared, env)->Ok_0.e.tasks, row_id(a[i])) matches Some(x)
            && task_by_id(tasks_in(w, b, declared, env)->Ok_0.e.tasks, row_id(a[i])) matches Some(
            y,
        ) && x == y,
{
    highest_of_both(a, b);
    numbers_given(w, a, declared, env, i);
    numbers_given(w, b, declared, env, j);
    reveal(row_for);
}

/// Swapping two rows changes no task, where at most one task of the document
/// has to take another number.
pub proof fn swapped_rows_give_the_same_tasks(
    w: Work,
    a: Seq<JsonV>,
    p: int,
    q: int,
    declared: bool,
    env: EnvV,
    k: int,
)
    requires
        0 <= p < q < a.len(),
        tasks_in(w, a, declared, env) is Ok,
        tasks_in(w, a.update(p, a[q]).update(q, a[p]), declared, env) is Ok,
        forall|x: int, y: int|
            0 <= x < a.len() && 0 <= y < a.len() && moves(w.e.tasks, #[trigger] a[x]) && moves(
                w.e.tasks,
                #[trigger] a[y],
            ) ==> x == y,
        0 <= k < a.len(),
    ensures
        task_by_id(
            tasks_in(w, a.update(p, a[q]).update(q, a[p]), declared, env)->Ok_0.e.tasks,
            row_id(a[k]),
        ) == task_by_id(tasks_in(w, a, declared, env)->Ok_0.e.tasks, row_id(a[k])),
{
    let b = a.update(p, a[q]).update(q, a[p]);
    let at = |x: int|
        if x == p {
            q
        } else if x == q {
            p
        } else {
            x
        };
    assert forall|x: int| 0 <= x < a.len() implies b[at(x)] == #[trigger] a[x] && a[at(x)]
        == b[x] by {
    }
    assert forall|x: int| 0 <= x < a.len() implies b.contains(#[trigger] a[x]) by {
        assert(b[at(x)] == a[x]);
    }
    assert forall|x: int| 0 <= x < b.len() implies a.contains(#[trigger] b[x]) by {
        assert(a[at(x)] == b[x]);
    }
    let j = at(k);
    if moves(w.e.tasks, a[k]) {
        assert forall|x: int| 0 <= x < k implies !moves(w.e.tasks, #[trigger] a[x]) by {
        }
        no_movers(w.e.tasks, a, k as nat);
        assert forall|x: int| 0 <= x < j implies !moves(w.e.tasks, #[trigger] b[x]) by {
            assert(b[x] == a[at(x)]);
            assert(at(x) != k);
        }
        no_movers(w.e.tasks, b, j as nat);
    }
    row_order_changes_no_number(w, a, b, declared, env, k, j);
}

} // verus!
