//! The dependency graph: who waits for whom, directly and through others.

use crate::rows::rows;
use crate::rows::Dependency;
use crate::rows::DependencyV;
use crate::text::same;
use crate::text::texts;
use vstd::prelude::*;

verus! {

broadcast use vstd::string::group_string_axioms;

/// Whether `n` edges lead from `a` to `b`.
pub open spec fn path(e: Seq<DependencyV>, a: Seq<char>, b: Seq<char>, n: nat) -> bool
    decreases n,
{
    if n == 0 {
        a == b
    } else {
        exists|k: int|
            0 <= k < e.len() && (#[trigger] e[k]).task_id == a && path(
                e,
                e[k].depends_on,
                b,
                (n - 1) as nat,
            )
    }
}

/// Whether `a` waits for `b`, directly or through others, or is `b`.
pub open spec fn waits_for(e: Seq<DependencyV>, a: Seq<char>, b: Seq<char>) -> bool {
    exists|n: nat| path(e, a, b, n)
}

/// Whether no task waits for itself.
pub open spec fn acyclic(e: Seq<DependencyV>) -> bool {
    forall|k: int| 0 <= k < e.len() ==> !waits_for(e, (#[trigger] e[k]).depends_on, e[k].task_id)
}

/// What waits over some edges waits over more.
pub proof fn more_edges_wait(
    e: Seq<DependencyV>,
    f: Seq<DependencyV>,
    a: Seq<char>,
    b: Seq<char>,
)
    requires
        forall|k: int| 0 <= k < e.len() ==> f.contains(#[trigger] e[k]),
        waits_for(e, a, b),
    ensures
        waits_for(f, a, b),
{
    let n = choose|n: nat| path(e, a, b, n);
    path_grows(e, f, a, b, n);
}

/// A path goes on by one more edge at its end.
proof fn path_extends(e: Seq<DependencyV>, a: Seq<char>, k: int, n: nat)
    requires
        0 <= k < e.len(),
        path(e, a, e[k].task_id, n),
    ensures
        path(e, a, e[k].depends_on, n + 1),
    decreases n,
{
    if n == 0 {
        assert(e[k].task_id == a);
        assert(path(e, e[k].depends_on, e[k].depends_on, 0));
        assert(path(e, a, e[k].depends_on, 1));
    } else {
        let j = choose|j: int|
            0 <= j < e.len() && (#[trigger] e[j]).task_id == a && path(
                e,
                e[j].depends_on,
                e[k].task_id,
                (n - 1) as nat,
            );
        path_extends(e, e[j].depends_on, k, (n - 1) as nat);
        assert(e[j].task_id == a && path(e, e[j].depends_on, e[k].depends_on, n));
    }
}

/// Two paths make one.
proof fn path_joins(
    e: Seq<DependencyV>,
    a: Seq<char>,
    b: Seq<char>,
    c: Seq<char>,
    n: nat,
    m: nat,
)
    requires
        path(e, a, b, n),
        path(e, b, c, m),
    ensures
        path(e, a, c, n + m),
    decreases n,
{
    if n > 0 {
        let j = choose|j: int|
            0 <= j < e.len() && (#[trigger] e[j]).task_id == a && path(
                e,
                e[j].depends_on,
                b,
                (n - 1) as nat,
            );
        path_joins(e, e[j].depends_on, b, c, (n - 1) as nat, m);
        assert(e[j].task_id == a && path(e, e[j].depends_on, c, (n - 1 + m) as nat));
    }
}

/// Waiting is transitive.
pub proof fn waiting_is_transitive(
    e: Seq<DependencyV>,
    a: Seq<char>,
    b: Seq<char>,
    c: Seq<char>,
)
    requires
        waits_for(e, a, b),
        waits_for(e, b, c),
    ensures
        waits_for(e, a, c),
{
    let n = choose|n: nat| path(e, a, b, n);
    let m = choose|m: nat| path(e, b, c, m);
    path_joins(e, a, b, c, n, m);
}

/// A path among fewer edges is a path among more.
proof fn path_grows(e: Seq<DependencyV>, f: Seq<DependencyV>, a: Seq<char>, b: Seq<char>, n: nat)
    requires
        forall|k: int| 0 <= k < e.len() ==> f.contains(#[trigger] e[k]),
        path(e, a, b, n),
    ensures
        path(f, a, b, n),
    decreases n,
{
    if n > 0 {
        let j = choose|j: int|
            0 <= j < e.len() && (#[trigger] e[j]).task_id == a && path(
                e,
                e[j].depends_on,
                b,
                (n - 1) as nat,
            );
        path_grows(e, f, e[j].depends_on, b, (n - 1) as nat);
        assert(f.contains(e[j]));
        let i = choose|i: int| 0 <= i < f.len() && f[i] == e[j];
        assert(f[i].task_id == a && path(f, f[i].depends_on, b, (n - 1) as nat));
    }
}

/// Taking edges away closes no cycle.
pub proof fn fewer_edges_stay_acyclic(e: Seq<DependencyV>, f: Seq<DependencyV>)
    requires
        acyclic(f),
        forall|k: int| 0 <= k < e.len() ==> f.contains(#[trigger] e[k]),
    ensures
        acyclic(e),
{
    assert forall|k: int| 0 <= k < e.len() implies !waits_for(
        e,
        (#[trigger] e[k]).depends_on,
        e[k].task_id,
    ) by {
        if waits_for(e, e[k].depends_on, e[k].task_id) {
            let n = choose|n: nat| path(e, e[k].depends_on, e[k].task_id, n);
            path_grows(e, f, e[k].depends_on, e[k].task_id, n);
            assert(f.contains(e[k]));
            let i = choose|i: int| 0 <= i < f.len() && f[i] == e[k];
            assert(waits_for(f, f[i].depends_on, f[i].task_id));
        }
    }
}

/// A path with one more edge around either was there before or goes over it.
proof fn path_over_new_edge(
    e: Seq<DependencyV>,
    new: DependencyV,
    a: Seq<char>,
    b: Seq<char>,
    n: nat,
)
    requires
        path(e.push(new), a, b, n),
    ensures
        waits_for(e, a, b) || (waits_for(e, a, new.task_id) && waits_for(e, new.depends_on, b)),
    decreases n,
{
    let f = e.push(new);
    if n == 0 {
        assert(path(e, a, b, 0));
    } else {
        let j = choose|j: int|
            0 <= j < f.len() && (#[trigger] f[j]).task_id == a && path(
                f,
                f[j].depends_on,
                b,
                (n - 1) as nat,
            );
        path_over_new_edge(e, new, f[j].depends_on, b, (n - 1) as nat);
        if j < e.len() {
            assert(e[j] == f[j]);
            assert(path(e, e[j].depends_on, e[j].depends_on, 0));
            assert(path(e, a, e[j].depends_on, 1));
            if waits_for(e, e[j].depends_on, b) {
                waiting_is_transitive(e, a, e[j].depends_on, b);
            } else {
                waiting_is_transitive(e, a, e[j].depends_on, new.task_id);
            }
        } else {
            assert(f[j] == new);
            assert(path(e, a, new.task_id, 0));
        }
    }
}

/// An edge whose target does not wait for its source closes no cycle.
pub proof fn safe_edge_stays_acyclic(e: Seq<DependencyV>, new: DependencyV)
    requires
        acyclic(e),
        !waits_for(e, new.depends_on, new.task_id),
    ensures
        acyclic(e.push(new)),
{
    let f = e.push(new);
    assert forall|k: int| 0 <= k < f.len() implies !waits_for(
        f,
        (#[trigger] f[k]).depends_on,
        f[k].task_id,
    ) by {
        if waits_for(f, f[k].depends_on, f[k].task_id) {
            let n = choose|n: nat| path(f, f[k].depends_on, f[k].task_id, n);
            path_over_new_edge(e, new, f[k].depends_on, f[k].task_id, n);
            if k < e.len() {
                assert(e[k] == f[k]);
                assert(path(e, e[k].depends_on, e[k].depends_on, 0));
                assert(path(e, e[k].task_id, e[k].depends_on, 1));
                if !waits_for(e, e[k].depends_on, e[k].task_id) {
                    waiting_is_transitive(e, new.depends_on, e[k].task_id, e[k].depends_on);
                    waiting_is_transitive(e, new.depends_on, e[k].depends_on, new.task_id);
                }
            }
        }
    }
}

/// What a closed set of tasks can be reached from inside it stays inside it.
proof fn closed_holds_path(e: Seq<DependencyV>, s: Seq<Seq<char>>, a: Seq<char>, b: Seq<char>, n: nat)
    requires
        s.contains(a),
        path(e, a, b, n),
        forall|k: int|
            0 <= k < e.len() && s.contains((#[trigger] e[k]).task_id) ==> s.contains(
                e[k].depends_on,
            ),
    ensures
        s.contains(b),
    decreases n,
{
    if n > 0 {
        let j = choose|j: int|
            0 <= j < e.len() && (#[trigger] e[j]).task_id == a && path(
                e,
                e[j].depends_on,
                b,
                (n - 1) as nat,
            );
        closed_holds_path(e, s, e[j].depends_on, b, (n - 1) as nat);
    }
}

/// The ends of the edges and one task more.
spec fn ends(e: Seq<DependencyV>, from: Seq<char>) -> Seq<Seq<char>> {
    e.map_values(|d: DependencyV| d.depends_on).push(from)
}

/// A list without repeats, drawn from another list, is no longer than it.
proof fn drawn_is_no_longer(s: Seq<Seq<char>>, from: Seq<Seq<char>>)
    requires
        s.no_duplicates(),
        forall|i: int| 0 <= i < s.len() ==> from.contains(#[trigger] s[i]),
    ensures
        s.len() <= from.len(),
{
    s.unique_seq_to_set();
    from.lemma_cardinality_of_set();
    vstd::seq_lib::seq_to_set_is_finite(from);
    assert(s.to_set().subset_of(from.to_set())) by {
        assert forall|x: Seq<char>| s.to_set().contains(x) implies from.to_set().contains(x) by {
            let i = choose|i: int| 0 <= i < s.len() && s[i] == x;
            assert(from.contains(s[i]));
        }
    }
    vstd::set_lib::lemma_len_subset(s.to_set(), from.to_set());
}

fn holds_text(v: &Vec<String>, x: &str) -> (r: bool)
    ensures
        r == texts(v@).contains(x@),
{
    let mut i: usize = 0;
    while i < v.len()
        invariant
            i <= v@.len(),
            forall|k: int| 0 <= k < i ==> #[trigger] texts(v@)[k] != x@,
        decreases v@.len() - i,
    {
        assert(texts(v@)[i as int] == v@[i as int]@);
        if same(v[i].as_str(), x) {
            return true;
        }
        i += 1;
    }
    false
}

/// Whether `from` waits for `to`, directly or through others, or is `to`.
pub fn reaches(e: &Vec<Dependency>, from: &str, to: &str) -> (r: bool)
    ensures
        r == waits_for(rows(e@), from@, to@),
{
    let ghost g = rows(e@);
    let mut seen: Vec<String> = Vec::new();
    seen.push(from.to_owned());
    let mut i: usize = 0;
    proof {
        assert(texts(seen@) =~= seq![from@]);
        assert(texts(seen@)[0] == from@);
        assert(path(g, from@, from@, 0));
        assert(ends(g, from@).contains(from@)) by {
            assert(ends(g, from@)[g.len() as int] == from@);
        }
    }
    while i < seen.len()
        invariant
            g == rows(e@),
            i <= seen@.len(),
            texts(seen@).len() == seen@.len(),
            texts(seen@).contains(from@),
            texts(seen@).no_duplicates(),
            forall|k: int| 0 <= k < seen@.len() ==> waits_for(g, from@, #[trigger] texts(seen@)[k]),
            forall|k: int|
                0 <= k < seen@.len() ==> ends(g, from@).contains(#[trigger] texts(seen@)[k]),
            forall|k: int, m: int|
                0 <= k < i && 0 <= m < g.len() && (#[trigger] g[m]).task_id == (
                #[trigger] texts(seen@)[k]) ==> texts(seen@).contains(g[m].depends_on),
        decreases g.len() + 1 - i,
    {
        proof {
            drawn_is_no_longer(texts(seen@), ends(g, from@));
        }
        let at: String = seen[i].clone();
        assert(texts(seen@)[i as int] == at@);
        let ghost first = texts(seen@);
        let mut m: usize = 0;
        while m < e.len()
            invariant
                g == rows(e@),
                m <= e@.len(),
                i < first.len() <= seen@.len(),
                first == texts(seen@).take(first.len() as int),
                at@ == first[i as int],
                texts(seen@).contains(from@),
                texts(seen@).no_duplicates(),
                forall|k: int|
                    0 <= k < seen@.len() ==> waits_for(g, from@, #[trigger] texts(seen@)[k]),
                forall|k: int|
                    0 <= k < seen@.len() ==> ends(g, from@).contains(#[trigger] texts(seen@)[k]),
                forall|k: int, j: int|
                    0 <= k < i && 0 <= j < g.len() && (#[trigger] g[j]).task_id == (
                    #[trigger] texts(seen@)[k]) ==> texts(seen@).contains(g[j].depends_on),
                forall|j: int|
                    0 <= j < m && (#[trigger] g[j]).task_id == at@ ==> texts(seen@).contains(
                        g[j].depends_on,
                    ),
            decreases e@.len() - m,
        {
            assert(g[m as int] == e@[m as int]@);
            if same(e[m].task_id.as_str(), at.as_str()) {
                let next: &str = e[m].depends_on.as_str();
                if !holds_text(&seen, next) {
                    let ghost was = texts(seen@);
                    let one: String = next.to_owned();
                    seen.push(one);
                    proof {
                        assert(texts(seen@) =~= was.push(next@));
                        assert(was[i as int] == at@);
                        assert(waits_for(g, from@, was[i as int]));
                        let n = choose|n: nat| path(g, from@, at@, n);
                        path_extends(g, from@, m as int, n);
                        assert(waits_for(g, from@, next@));
                        assert(ends(g, from@)[m as int] == next@);
                        assert forall|x: Seq<char>| was.contains(x) implies texts(seen@).contains(
                            x,
                        ) by {
                            let q = choose|q: int| 0 <= q < was.len() && was[q] == x;
                            assert(texts(seen@)[q] == x);
                        }
                        assert(texts(seen@)[was.len() as int] == next@);
                        assert forall|k: int, j: int|
                            0 <= k < i && 0 <= j < g.len() && (#[trigger] g[j]).task_id == (
                            #[trigger] texts(seen@)[k]) implies texts(seen@).contains(
                            g[j].depends_on,
                        ) by {
                            assert(was[k] == texts(seen@)[k]);
                        }
                    }
                }
            }
            m += 1;
        }
        proof {
            assert forall|k: int, j: int|
                0 <= k < i + 1 && 0 <= j < g.len() && (#[trigger] g[j]).task_id == (
                #[trigger] texts(seen@)[k]) implies texts(seen@).contains(g[j].depends_on) by {
                assert(texts(seen@).take(first.len() as int)[i as int] == texts(seen@)[i as int]);
            }
        }
        i += 1;
    }
    let r = holds_text(&seen, to);
    proof {
        let s = texts(seen@);
        if r {
            let k = choose|k: int| 0 <= k < s.len() && s[k] == to@;
            assert(waits_for(g, from@, s[k]));
        }
        if waits_for(g, from@, to@) {
            let n = choose|n: nat| path(g, from@, to@, n);
            assert forall|j: int| 0 <= j < g.len() && s.contains((#[trigger] g[j]).task_id) implies
                s.contains(g[j].depends_on) by {
                let k = choose|k: int| 0 <= k < s.len() && s[k] == g[j].task_id;
                assert(s[k] == g[j].task_id);
            }
            closed_holds_path(g, s, from@, to@, n);
        }
    }
    r
}

} // verus!
