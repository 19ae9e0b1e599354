//! Putting rows back where they came from.

use crate::children::Child;
use crate::children::has;
use crate::children::live;
use crate::children::Named;
use crate::children::owned;
use crate::children::without;
use crate::engine::number_taken;
use crate::engine::task_by_id;
use crate::engine::task_put;
use crate::engine::tasks_ok;
use crate::import_laws::found_stands;
use crate::rows::Annotation;
use crate::rows::AnnotationV;
use crate::rows::TaskV;
use crate::sound::ids_differ;
use crate::tables::find;
use crate::tables::Keyed;
use crate::tables::ordered;
use crate::tables::put;
use crate::tables::text_lt;
use crate::tables::text_lt_irreflexive;
use crate::tables::text_lt_transitive;
use vstd::prelude::*;

verus! {

/// A row of a table is found under its key.
pub proof fn standing_row_is_found<T: Keyed>(s: Seq<T::V>, i: int)
    requires
        ordered::<T>(s),
        0 <= i < s.len(),
    ensures
        find::<T>(s, T::key_of(s[i])) == Some(s[i]),
    decreases s.len(),
{
    if i < s.len() - 1 {
        let n = s.len() - 1;
        assert(text_lt(T::key_of(s[i]), T::key_of(s[n])));
        text_lt_irreflexive(T::key_of(s[i]));
        first_rows_are_ordered::<T>(s, n);
        assert(s.drop_last() =~= s.take(n));
        assert(s.drop_last()[i] == s[i]);
        standing_row_is_found::<T>(s.drop_last(), i);
    }
}

/// The first rows of a table that is in order are in order.
pub proof fn first_rows_are_ordered<T: Keyed>(s: Seq<T::V>, n: int)
    requires
        ordered::<T>(s),
        0 <= n <= s.len(),
    ensures
        ordered::<T>(s.take(n)),
{
    let p = s.take(n);
    assert forall|i: int, j: int| 0 <= i < j < p.len() implies text_lt(
        #[trigger] T::key_of(p[i]),
        #[trigger] T::key_of(p[j]),
    ) by {
        assert(text_lt(T::key_of(s[i]), T::key_of(s[j])));
    }
}

/// A key that no row has is not found.
pub proof fn strange_key_is_not_found<T: Keyed>(s: Seq<T::V>, key: Seq<char>)
    requires
        forall|i: int| 0 <= i < s.len() ==> T::key_of(#[trigger] s[i]) != key,
    ensures
        find::<T>(s, key) is None,
    decreases s.len(),
{
    if s.len() > 0 {
        assert(T::key_of(s[s.len() - 1]) != key);
        assert forall|i: int| 0 <= i < s.drop_last().len() implies T::key_of(
            #[trigger] s.drop_last()[i],
        ) != key by {
            assert(T::key_of(s[i]) != key);
        }
        strange_key_is_not_found::<T>(s.drop_last(), key);
    }
}

/// Putting a row of a table in again changes nothing.
pub proof fn row_put_again<T: Keyed>(s: Seq<T::V>, i: int)
    requires
        ordered::<T>(s),
        0 <= i < s.len(),
    ensures
        put::<T>(s, s[i]) == s,
    decreases s.len(),
{
    let n = s.len() - 1;
    if i == n {
        assert(s.drop_last().push(s[i]) =~= s);
    } else {
        assert(text_lt(T::key_of(s[i]), T::key_of(s[n])));
        text_lt_irreflexive(T::key_of(s[i]));
        if text_lt(T::key_of(s[n]), T::key_of(s[i])) {
            text_lt_transitive(T::key_of(s[i]), T::key_of(s[n]), T::key_of(s[i]));
        }
        first_rows_are_ordered::<T>(s, n);
        assert(s.drop_last() =~= s.take(n));
        assert(s.drop_last()[i] == s[i]);
        row_put_again::<T>(s.drop_last(), i);
        assert(s.drop_last().push(s.last()) =~= s);
    }
}

/// Putting the next row of a table after those before it gives one row more.
pub proof fn next_row_put<T: Keyed>(s: Seq<T::V>, n: int)
    requires
        ordered::<T>(s),
        0 <= n < s.len(),
    ensures
        find::<T>(s.take(n), T::key_of(s[n])) is None,
        put::<T>(s.take(n), s[n]) == s.take(n + 1),
{
    let p = s.take(n);
    text_lt_irreflexive(T::key_of(s[n]));
    assert forall|i: int| 0 <= i < p.len() implies T::key_of(#[trigger] p[i]) != T::key_of(
        s[n],
    ) by {
        assert(text_lt(T::key_of(s[i]), T::key_of(s[n])));
    }
    strange_key_is_not_found::<T>(p, T::key_of(s[n]));
    assert(s.take(n + 1) =~= p.push(s[n]));
    if n > 0 {
        assert(p.last() == s[n - 1]);
        assert(text_lt(T::key_of(s[n - 1]), T::key_of(s[n])));
    } else {
        assert(p =~= Seq::empty());
        assert(seq![s[n]] =~= p.push(s[n]));
    }
}

/// A task of a table is found, and putting it in again changes nothing.
pub proof fn task_put_again(s: Seq<TaskV>, next: i64, i: int)
    requires
        tasks_ok(s, next),
        0 <= i < s.len(),
    ensures
        task_by_id(s, s[i].id) == Some(s[i]),
        task_put(s, s[i]) == s,
    decreases s.len(),
{
    let n = s.len() - 1;
    if i == n {
        assert(s.drop_last().push(s[i]) =~= s);
    } else {
        assert(s[i].id != s[n].id);
        let d = s.drop_last();
        assert forall|a: int, b: int| 0 <= a < b < d.len() implies (#[trigger] d[a]).short_id < (
        #[trigger] d[b]).short_id && d[a].id != d[b].id by {
            assert(s[a].short_id < s[b].short_id && s[a].id != s[b].id);
        }
        assert forall|a: int| 0 <= a < d.len() implies 1 <= (#[trigger] d[a]).short_id < next by {
            assert(1 <= s[a].short_id < next);
        }
        assert(d[i] == s[i]);
        task_put_again(d, next, i);
        assert(d.push(s.last()) =~= s);
    }
}

/// The next task of a table is not among those before it, nor is its number,
/// and putting it after them gives one task more.
pub proof fn next_task_put(s: Seq<TaskV>, next: i64, n: int)
    requires
        tasks_ok(s, next),
        0 <= n < s.len(),
    ensures
        task_by_id(s.take(n), s[n].id) is None,
        !number_taken(s.take(n), s[n].short_id),
        task_put(s.take(n), s[n]) == s.take(n + 1),
{
    let p = s.take(n);
    found_stands(p, s[n].id);
    if task_by_id(p, s[n].id) is Some {
        let i = choose|i: int|
            0 <= i < p.len() && #[trigger] p[i] == task_by_id(p, s[n].id)->0 && p[i].id == s[n].id;
        assert(s[i].id != s[n].id);
    }
    assert forall|i: int| 0 <= i < p.len() implies (#[trigger] p[i]).short_id != s[n].short_id by {
        assert(s[i].short_id < s[n].short_id);
    }
    assert(s.take(n + 1) =~= p.push(s[n]));
    if n > 0 {
        assert(p.last() == s[n - 1]);
        assert(s[n - 1].short_id < s[n].short_id);
    } else {
        assert(p =~= Seq::empty());
        assert(seq![s[n]] =~= p.push(s[n]));
    }
}

/// What belongs to `owner` in two tables one after the other.
pub proof fn owned_of_both<T: Child>(a: Seq<T::V>, b: Seq<T::V>, owner: Seq<char>)
    ensures
        owned::<T>(a + b, owner) == owned::<T>(a, owner) + owned::<T>(b, owner),
    decreases b.len(),
{
    if b.len() == 0 {
        assert(a + b =~= a);
        assert(owned::<T>(a, owner) + owned::<T>(b, owner) =~= owned::<T>(a, owner));
    } else {
        let d = b.drop_last();
        owned_of_both::<T>(a, d, owner);
        assert((a + b).drop_last() =~= a + d);
        assert((a + b).last() == b.last());
        if T::owner_of(b.last()) == owner {
            assert(owned::<T>(a, owner) + owned::<T>(d, owner).push(b.last()) =~= (owned::<T>(
                a,
                owner,
            ) + owned::<T>(d, owner)).push(b.last()));
        }
    }
}

/// What belongs to `owner` belongs to nobody else.
pub proof fn owned_once<T: Child>(s: Seq<T::V>, owner: Seq<char>, other: Seq<char>)
    ensures
        owned::<T>(owned::<T>(s, owner), other) == if other == owner {
            owned::<T>(s, owner)
        } else {
            Seq::empty()
        },
    decreases s.len(),
{
    if s.len() > 0 {
        owned_once::<T>(s.drop_last(), owner, other);
        if T::owner_of(s.last()) == owner {
            let d = owned::<T>(s.drop_last(), owner);
            assert(d.push(s.last()).drop_last() =~= d);
        }
    }
}

/// Without the rows of `owner`, everyone else's are as they were.
pub proof fn owned_of_the_rest<T: Child>(s: Seq<T::V>, owner: Seq<char>, other: Seq<char>)
    ensures
        owned::<T>(without::<T>(s, owner), other) == if other == owner {
            Seq::empty()
        } else {
            owned::<T>(s, other)
        },
    decreases s.len(),
{
    if s.len() > 0 {
        owned_of_the_rest::<T>(s.drop_last(), owner, other);
        if T::owner_of(s.last()) != owner {
            let d = without::<T>(s.drop_last(), owner);
            assert(d.push(s.last()).drop_last() =~= d);
        }
    }
}

/// What belongs to `owner` stands in the table.
pub proof fn owned_stands<T: Child>(s: Seq<T::V>, owner: Seq<char>)
    ensures
        forall|i: int|
            0 <= i < owned::<T>(s, owner).len() ==> s.contains(#[trigger] owned::<T>(s, owner)[i])
                && T::owner_of(owned::<T>(s, owner)[i]) == owner,
    decreases s.len(),
{
    if s.len() > 0 {
        let d = s.drop_last();
        owned_stands::<T>(d, owner);
        let o = owned::<T>(s, owner);
        assert forall|i: int| 0 <= i < o.len() implies s.contains(#[trigger] o[i]) && T::owner_of(
            o[i],
        ) == owner by {
            let p = owned::<T>(d, owner);
            if i < p.len() {
                assert(o[i] == p[i]);
                let k = choose|k: int| 0 <= k < d.len() && d[k] == p[i];
                assert(s[k] == o[i]);
            } else {
                assert(s[s.len() - 1] == o[i]);
            }
        }
    }
}

/// What does not belong to `owner` stands in the table.
pub proof fn rest_stands<T: Child>(s: Seq<T::V>, owner: Seq<char>)
    ensures
        forall|i: int|
            0 <= i < without::<T>(s, owner).len() ==> s.contains(
                #[trigger] without::<T>(s, owner)[i],
            ) && T::owner_of(without::<T>(s, owner)[i]) != owner,
    decreases s.len(),
{
    if s.len() > 0 {
        let d = s.drop_last();
        rest_stands::<T>(d, owner);
        let o = without::<T>(s, owner);
        assert forall|i: int| 0 <= i < o.len() implies s.contains(#[trigger] o[i]) && T::owner_of(
            o[i],
        ) != owner by {
            let p = without::<T>(d, owner);
            if i < p.len() {
                assert(o[i] == p[i]);
                let k = choose|k: int| 0 <= k < d.len() && d[k] == p[i];
                assert(s[k] == o[i]);
            } else {
                assert(s[s.len() - 1] == o[i]);
            }
        }
    }
}

/// Where ids differ in a table, they differ among the rows of one owner.
pub proof fn owned_ids_differ<T: Named>(s: Seq<T::V>, owner: Seq<char>)
    requires
        ids_differ::<T>(s),
    ensures
        ids_differ::<T>(owned::<T>(s, owner)),
    decreases s.len(),
{
    if s.len() > 0 {
        let d = s.drop_last();
        assert forall|i: int, j: int| 0 <= i < j < d.len() implies T::id_of(#[trigger] d[i])
            != T::id_of(#[trigger] d[j]) by {
            assert(T::id_of(s[i]) != T::id_of(s[j]));
        }
        owned_ids_differ::<T>(d, owner);
        let o = owned::<T>(s, owner);
        let p = owned::<T>(d, owner);
        owned_stands::<T>(d, owner);
        assert forall|i: int, j: int| 0 <= i < j < o.len() implies T::id_of(#[trigger] o[i])
            != T::id_of(#[trigger] o[j]) by {
            if j < p.len() {
                assert(T::id_of(p[i]) != T::id_of(p[j]));
            } else {
                assert(o[i] == p[i]);
                let k = choose|k: int| 0 <= k < d.len() && d[k] == p[i];
                assert(T::id_of(s[k]) != T::id_of(s[s.len() - 1]));
            }
        }
    }
}

/// A table that holds rows of `s`: those of an owner that is done, or, where
/// everything was there before, of every owner, as in `s`, and of nobody else.
pub open spec fn put_back<T: Child>(
    now: Seq<T::V>,
    s: Seq<T::V>,
    done: Seq<Seq<char>>,
    known: bool,
) -> bool {
    &&& forall|i: int| 0 <= i < now.len() ==> s.contains(#[trigger] now[i])
    &&& forall|x: Seq<char>| #[trigger]
        owned::<T>(now, x) == if known || done.contains(x) {
            owned::<T>(s, x)
        } else {
            Seq::empty()
        }
}

/// The rows of one more owner are put back.
pub proof fn one_more_put_back<T: Child>(
    now: Seq<T::V>,
    s: Seq<T::V>,
    done: Seq<Seq<char>>,
    known: bool,
    owner: Seq<char>,
)
    requires
        put_back::<T>(now, s, done, known),
    ensures
        put_back::<T>(
            without::<T>(now, owner) + owned::<T>(s, owner),
            s,
            done.push(owner),
            known,
        ),
{
    let a = without::<T>(now, owner);
    let b = owned::<T>(s, owner);
    let r = a + b;
    rest_stands::<T>(now, owner);
    owned_stands::<T>(s, owner);
    assert forall|i: int| 0 <= i < r.len() implies s.contains(#[trigger] r[i]) by {
        if i < a.len() {
            assert(r[i] == a[i]);
            let k = choose|k: int| 0 <= k < now.len() && now[k] == a[i];
            assert(s.contains(now[k]));
        } else {
            assert(r[i] == b[i - a.len()]);
        }
    }
    let more = done.push(owner);
    assert forall|x: Seq<char>| #[trigger]
        owned::<T>(r, x) == if known || more.contains(x) {
            owned::<T>(s, x)
        } else {
            Seq::empty()
        } by {
        owned_of_both::<T>(a, b, x);
        owned_of_the_rest::<T>(now, owner, x);
        owned_once::<T>(s, owner, x);
        assert(more[done.len() as int] == owner);
        if done.contains(x) {
            let k = choose|k: int| 0 <= k < done.len() && done[k] == x;
            assert(more[k] == x);
        }
        if more.contains(x) && x != owner {
            let k = choose|k: int| 0 <= k < more.len() && more[k] == x;
            assert(done[k] == x);
        }
        if x == owner {
            assert(owned::<T>(r, x) =~= b);
        } else {
            assert(owned::<T>(r, x) =~= owned::<T>(now, x));
        }
    }
}

/// The next row of an owner has an id that no row before it has.
pub proof fn next_id_is_free<T: Named>(now: Seq<T::V>, s: Seq<T::V>, owner: Seq<char>, k: int)
    requires
        ids_differ::<T>(s),
        forall|i: int| 0 <= i < now.len() ==> s.contains(#[trigger] now[i]),
        0 <= k < owned::<T>(s, owner).len(),
    ensures
        !(has::<T>(
            without::<T>(now, owner) + owned::<T>(s, owner).take(k),
            T::id_of(owned::<T>(s, owner)[k]),
        )),
{
    let a = without::<T>(now, owner);
    let own = owned::<T>(s, owner);
    let r = a + own.take(k);
    rest_stands::<T>(now, owner);
    owned_stands::<T>(s, owner);
    owned_ids_differ::<T>(s, owner);
    assert forall|i: int| 0 <= i < r.len() implies T::id_of(#[trigger] r[i]) != T::id_of(
        own[k],
    ) by {
        if i < a.len() {
            assert(r[i] == a[i]);
            let m = choose|m: int| 0 <= m < now.len() && now[m] == a[i];
            assert(s.contains(now[m]));
            let x = choose|x: int| 0 <= x < s.len() && s[x] == a[i];
            assert(s.contains(own[k]));
            let y = choose|y: int| 0 <= y < s.len() && s[y] == own[k];
            if x < y {
                assert(T::id_of(s[x]) != T::id_of(s[y]));
            } else if y < x {
                assert(T::id_of(s[y]) != T::id_of(s[x]));
            }
        } else {
            let j = i - a.len();
            assert(r[i] == own[j]);
            assert(T::id_of(own[j]) != T::id_of(own[k]));
        }
    }
}

/// A note that was not removed stands in the table.
pub proof fn live_stands(s: Seq<AnnotationV>)
    ensures
        forall|i: int|
            0 <= i < live(s).len() ==> s.contains(#[trigger] live(s)[i]) && live(s)[i].removed
                is None,
    decreases s.len(),
{
    if s.len() > 0 {
        let d = s.drop_last();
        live_stands(d);
        let o = live(s);
        assert forall|i: int| 0 <= i < o.len() implies s.contains(#[trigger] o[i]) && o[i].removed
            is None by {
            let p = live(d);
            if i < p.len() {
                assert(o[i] == p[i]);
                let k = choose|k: int| 0 <= k < d.len() && d[k] == p[i];
                assert(s[k] == o[i]);
            } else {
                assert(s[s.len() - 1] == o[i]);
            }
        }
    }
}

/// Where ids differ in a table, they differ among the notes that were not
/// removed.
proof fn live_ids_differ(s: Seq<AnnotationV>)
    requires
        ids_differ::<Annotation>(s),
    ensures
        ids_differ::<Annotation>(live(s)),
    decreases s.len(),
{
    if s.len() > 0 {
        let d = s.drop_last();
        assert forall|i: int, j: int| 0 <= i < j < d.len() implies Annotation::id_of(
            #[trigger] d[i],
        ) != Annotation::id_of(#[trigger] d[j]) by {
            assert(Annotation::id_of(s[i]) != Annotation::id_of(s[j]));
        }
        live_ids_differ(d);
        live_stands(d);
        let o = live(s);
        let p = live(d);
        assert forall|i: int, j: int| 0 <= i < j < o.len() implies Annotation::id_of(
            #[trigger] o[i],
        ) != Annotation::id_of(#[trigger] o[j]) by {
            if j < p.len() {
                assert(Annotation::id_of(p[i]) != Annotation::id_of(p[j]));
            } else {
                assert(o[i] == p[i]);
                let k = choose|k: int| 0 <= k < d.len() && d[k] == p[i];
                assert(Annotation::id_of(s[k]) != Annotation::id_of(s[s.len() - 1]));
            }
        }
    }
}

proof fn live_of_both(a: Seq<AnnotationV>, b: Seq<AnnotationV>)
    ensures
        live(a + b) == live(a) + live(b),
    decreases b.len(),
{
    if b.len() == 0 {
        assert(a + b =~= a);
        assert(live(a) + live(b) =~= live(a));
    } else {
        let d = b.drop_last();
        live_of_both(a, d);
        assert((a + b).drop_last() =~= a + d);
        assert((a + b).last() == b.last());
        if b.last().removed is None {
            assert(live(a) + live(d).push(b.last()) =~= (live(a) + live(d)).push(b.last()));
        }
    }
}

proof fn live_of_the_rest(s: Seq<AnnotationV>, owner: Seq<char>)
    ensures
        live(without::<Annotation>(s, owner)) == without::<Annotation>(live(s), owner),
    decreases s.len(),
{
    if s.len() > 0 {
        let d = s.drop_last();
        live_of_the_rest(d, owner);
        let w = without::<Annotation>(d, owner);
        assert(w.push(s.last()).drop_last() =~= w);
        assert(live(d).push(s.last()).drop_last() =~= live(d));
    }
}

/// Notes none of which was removed are all of them.
pub proof fn live_twice(s: Seq<AnnotationV>)
    requires
        forall|i: int| 0 <= i < s.len() ==> (#[trigger] s[i]).removed is None,
    ensures
        live(s) == s,
    decreases s.len(),
{
    if s.len() > 0 {
        let d = s.drop_last();
        assert forall|i: int| 0 <= i < d.len() implies (#[trigger] d[i]).removed is None by {
            assert(s[i].removed is None);
        }
        live_twice(d);
        assert(s[s.len() - 1].removed is None);
        assert(d.push(s.last()) =~= s);
    }
}

/// A table of notes that holds rows of `s`, those that were not removed as in
/// `put_back`.
pub open spec fn notes_back(
    now: Seq<AnnotationV>,
    s: Seq<AnnotationV>,
    done: Seq<Seq<char>>,
    known: bool,
) -> bool {
    &&& forall|i: int| 0 <= i < now.len() ==> s.contains(#[trigger] now[i])
    &&& put_back::<Annotation>(live(now), live(s), done, known)
}

/// The notes of one more task are put back, without those that were removed.
pub proof fn one_more_has_notes(
    now: Seq<AnnotationV>,
    s: Seq<AnnotationV>,
    done: Seq<Seq<char>>,
    known: bool,
    owner: Seq<char>,
)
    requires
        notes_back(now, s, done, known),
    ensures
        notes_back(
            without::<Annotation>(now, owner) + owned::<Annotation>(live(s), owner),
            s,
            done.push(owner),
            known,
        ),
{
    let a = without::<Annotation>(now, owner);
    let b = owned::<Annotation>(live(s), owner);
    let r = a + b;
    rest_stands::<Annotation>(now, owner);
    owned_stands::<Annotation>(live(s), owner);
    live_stands(s);
    assert forall|i: int| 0 <= i < b.len() implies s.contains(#[trigger] b[i]) && b[i].removed
        is None by {
        let k = choose|k: int| 0 <= k < live(s).len() && live(s)[k] == b[i];
        assert(s.contains(live(s)[k]));
    }
    assert forall|i: int| 0 <= i < r.len() implies s.contains(#[trigger] r[i]) by {
        if i < a.len() {
            assert(r[i] == a[i]);
            let k = choose|k: int| 0 <= k < now.len() && now[k] == a[i];
            assert(s.contains(now[k]));
        } else {
            assert(r[i] == b[i - a.len()]);
        }
    }
    live_of_both(a, b);
    live_of_the_rest(now, owner);
    live_twice(b);
    one_more_put_back::<Annotation>(live(now), live(s), done, known, owner);
}

/// The next note of a task has an id that no note before it has.
pub proof fn next_note_is_free(
    now: Seq<AnnotationV>,
    s: Seq<AnnotationV>,
    owner: Seq<char>,
    k: int,
)
    requires
        ids_differ::<Annotation>(s),
        forall|i: int| 0 <= i < now.len() ==> s.contains(#[trigger] now[i]),
        0 <= k < owned::<Annotation>(live(s), owner).len(),
    ensures
        !(has::<Annotation>(
            without::<Annotation>(now, owner) + owned::<Annotation>(live(s), owner).take(k),
            owned::<Annotation>(live(s), owner)[k].id,
        )),
{
    let a = without::<Annotation>(now, owner);
    let own = owned::<Annotation>(live(s), owner);
    let r = a + own.take(k);
    rest_stands::<Annotation>(now, owner);
    owned_stands::<Annotation>(live(s), owner);
    live_stands(s);
    live_ids_differ(s);
    owned_ids_differ::<Annotation>(live(s), owner);
    assert forall|i: int| 0 <= i < r.len() implies Annotation::id_of(#[trigger] r[i])
        != own[k].id by {
        if i < a.len() {
            assert(r[i] == a[i]);
            let m = choose|m: int| 0 <= m < now.len() && now[m] == a[i];
            assert(s.contains(now[m]));
            let x = choose|x: int| 0 <= x < s.len() && s[x] == a[i];
            assert(live(s).contains(own[k]));
            let z = choose|z: int| 0 <= z < live(s).len() && live(s)[z] == own[k];
            assert(s.contains(live(s)[z]));
            let y = choose|y: int| 0 <= y < s.len() && s[y] == own[k];
            if x < y {
                assert(Annotation::id_of(s[x]) != Annotation::id_of(s[y]));
            } else if y < x {
                assert(Annotation::id_of(s[y]) != Annotation::id_of(s[x]));
            }
        } else {
            let j = i - a.len();
            assert(r[i] == own[j]);
            assert(Annotation::id_of(own[j]) != Annotation::id_of(own[k]));
        }
    }
}

} // verus!
