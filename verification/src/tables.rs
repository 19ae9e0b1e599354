//! Tables ordered by a text key.

use crate::rows::rows;
use crate::rows::Doc;
use crate::rows::DocV;
use crate::rows::Event;
use crate::rows::EventV;
use crate::rows::Project;
use crate::rows::ProjectV;
use crate::rows::Row;
use crate::text::chars_of;
use vstd::prelude::*;

verus! {

broadcast use vstd::string::group_string_axioms;

/// Whether `a` sorts before `b`: at the first place where they differ, by
/// character code; a text sorts before every longer one that begins with it.
pub open spec fn text_lt(a: Seq<char>, b: Seq<char>) -> bool
    decreases a.len(),
{
    if b.len() == 0 {
        false
    } else if a.len() == 0 {
        true
    } else if a[0] == b[0] {
        text_lt(a.skip(1), b.skip(1))
    } else {
        (a[0] as int) < (b[0] as int)
    }
}

/// Nothing sorts before itself.
pub proof fn text_lt_irreflexive(a: Seq<char>)
    ensures
        !text_lt(a, a),
    decreases a.len(),
{
    if a.len() > 0 {
        text_lt_irreflexive(a.skip(1));
    }
}

/// The order is transitive.
pub proof fn text_lt_transitive(a: Seq<char>, b: Seq<char>, c: Seq<char>)
    requires
        text_lt(a, b),
        text_lt(b, c),
    ensures
        text_lt(a, c),
    decreases a.len(),
{
    if a.len() > 0 && a[0] == b[0] && b[0] == c[0] {
        text_lt_transitive(a.skip(1), b.skip(1), c.skip(1));
    }
}

/// Of two different texts one sorts before the other.
pub proof fn text_lt_total(a: Seq<char>, b: Seq<char>)
    ensures
        a == b || text_lt(a, b) || text_lt(b, a),
    decreases a.len(),
{
    if a.len() == 0 || b.len() == 0 {
        if a.len() == 0 && b.len() == 0 {
            assert(a =~= b);
        }
    } else if a[0] == b[0] {
        text_lt_total(a.skip(1), b.skip(1));
        if a.skip(1) == b.skip(1) {
            assert(a =~= seq![a[0]] + a.skip(1));
            assert(b =~= seq![b[0]] + b.skip(1));
        }
    } else {
        assert(a[0] as int != b[0] as int);
    }
}

fn char_before(c: char, d: char) -> (r: bool)
    ensures
        r == ((c as int) < (d as int)),
{
    (c as u32) < (d as u32)
}

/// Whether `a` sorts before `b`.
pub fn text_before(a: &str, b: &str) -> (r: bool)
    ensures
        r == text_lt(a@, b@),
{
    let x: Vec<char> = chars_of(a);
    let y: Vec<char> = chars_of(b);
    let mut i: usize = 0;
    assert(a@.skip(0) =~= a@);
    assert(b@.skip(0) =~= b@);
    loop
        invariant
            x@ == a@,
            y@ == b@,
            i <= x@.len(),
            i <= y@.len(),
            text_lt(a@, b@) == text_lt(a@.skip(i as int), b@.skip(i as int)),
        decreases x@.len() - i,
    {
        if i >= y.len() {
            return false;
        }
        if i >= x.len() {
            return true;
        }
        let c: char = x[i];
        let d: char = y[i];
        if c != d {
            return char_before(c, d);
        }
        assert(a@.skip(i as int).skip(1) =~= a@.skip(i as int + 1));
        assert(b@.skip(i as int).skip(1) =~= b@.skip(i as int + 1));
        i += 1;
    }
}

/// A row with a text key.
pub trait Keyed: Row {
    /// The key of a row.
    spec fn key_of(v: Self::V) -> Seq<char>;

    /// The key of this row.
    fn key(&self) -> (r: &str)
        ensures
            r@ == Self::key_of(self@),
    ;
}

/// The row under `key`, if there is one.
pub open spec fn find<T: Keyed>(s: Seq<T::V>, key: Seq<char>) -> Option<T::V>
    decreases s.len(),
{
    if s.len() == 0 {
        None
    } else if T::key_of(s.last()) == key {
        Some(s.last())
    } else {
        find::<T>(s.drop_last(), key)
    }
}

/// The table with `row` in it: in place of the row with its key, or where its
/// key belongs.
pub open spec fn put<T: Keyed>(s: Seq<T::V>, row: T::V) -> Seq<T::V>
    decreases s.len(),
{
    if s.len() == 0 {
        seq![row]
    } else if T::key_of(s.last()) == T::key_of(row) {
        s.drop_last().push(row)
    } else if text_lt(T::key_of(s.last()), T::key_of(row)) {
        s.push(row)
    } else {
        put::<T>(s.drop_last(), row).push(s.last())
    }
}

/// Whether the keys of a table rise.
pub open spec fn ordered<T: Keyed>(s: Seq<T::V>) -> bool {
    forall|i: int, j: int|
        0 <= i < j < s.len() ==> text_lt(#[trigger] T::key_of(s[i]), #[trigger] T::key_of(s[j]))
}

/// Every key of the table after a row is put in is the row's or was there before.
pub proof fn put_keys<T: Keyed>(s: Seq<T::V>, row: T::V, i: int)
    requires
        0 <= i < put::<T>(s, row).len(),
    ensures
        put::<T>(s, row)[i] == row || s.contains(put::<T>(s, row)[i]),
    decreases s.len(),
{
    if s.len() == 0 {
    } else if T::key_of(s.last()) == T::key_of(row) {
        if i < s.len() - 1 {
            assert(s[i] == put::<T>(s, row)[i]);
        }
    } else if text_lt(T::key_of(s.last()), T::key_of(row)) {
        if i < s.len() {
            assert(s[i] == put::<T>(s, row)[i]);
        }
    } else {
        let p = put::<T>(s.drop_last(), row);
        if i < p.len() {
            put_keys::<T>(s.drop_last(), row, i);
            assert(p[i] == put::<T>(s, row)[i]);
            if p[i] != row {
                let k = choose|k: int| 0 <= k < s.drop_last().len() && s.drop_last()[k] == p[i];
                assert(s[k] == p[i]);
            }
        } else {
            assert(s[s.len() - 1] == put::<T>(s, row)[i]);
        }
    }
}

/// Putting a row in keeps the keys rising.
pub proof fn put_keeps_order<T: Keyed>(s: Seq<T::V>, row: T::V)
    requires
        ordered::<T>(s),
    ensures
        ordered::<T>(put::<T>(s, row)),
    decreases s.len(),
{
    let r = put::<T>(s, row);
    if s.len() == 0 {
    } else {
        let n = s.len() - 1;
        assert forall|i: int, j: int| 0 <= i < j < s.drop_last().len() implies text_lt(
            #[trigger] T::key_of(s.drop_last()[i]),
            #[trigger] T::key_of(s.drop_last()[j]),
        ) by {
            assert(text_lt(T::key_of(s[i]), T::key_of(s[j])));
        }
        if T::key_of(s.last()) == T::key_of(row) {
            assert forall|i: int, j: int| 0 <= i < j < r.len() implies text_lt(
                #[trigger] T::key_of(r[i]),
                #[trigger] T::key_of(r[j]),
            ) by {
                assert(text_lt(T::key_of(s[i]), T::key_of(s[j])));
            }
        } else if text_lt(T::key_of(s.last()), T::key_of(row)) {
            assert forall|i: int, j: int| 0 <= i < j < r.len() implies text_lt(
                #[trigger] T::key_of(r[i]),
                #[trigger] T::key_of(r[j]),
            ) by {
                if j < s.len() {
                    assert(text_lt(T::key_of(s[i]), T::key_of(s[j])));
                } else if i < n {
                    assert(text_lt(T::key_of(s[i]), T::key_of(s[n])));
                    text_lt_transitive(T::key_of(s[i]), T::key_of(s[n]), T::key_of(row));
                }
            }
        } else {
            put_keeps_order::<T>(s.drop_last(), row);
            let p = put::<T>(s.drop_last(), row);
            text_lt_total(T::key_of(s.last()), T::key_of(row));
            assert forall|i: int, j: int| 0 <= i < j < r.len() implies text_lt(
                #[trigger] T::key_of(r[i]),
                #[trigger] T::key_of(r[j]),
            ) by {
                if j < p.len() {
                    assert(text_lt(T::key_of(p[i]), T::key_of(p[j])));
                } else {
                    put_keys::<T>(s.drop_last(), row, i);
                    if p[i] != row {
                        let k = choose|k: int|
                            0 <= k < s.drop_last().len() && s.drop_last()[k] == p[i];
                        assert(text_lt(T::key_of(s[k]), T::key_of(s[n])));
                    }
                }
            }
        }
    }
}

/// A row that was put in is found under its key.
pub proof fn put_is_found<T: Keyed>(s: Seq<T::V>, row: T::V)
    ensures
        find::<T>(put::<T>(s, row), T::key_of(row)) == Some(row),
    decreases s.len(),
{
    let r = put::<T>(s, row);
    if s.len() == 0 {
        assert(r.last() == row);
    } else if T::key_of(s.last()) == T::key_of(row) {
        assert(r.last() == row);
    } else if text_lt(T::key_of(s.last()), T::key_of(row)) {
        assert(r.last() == row);
    } else {
        put_is_found::<T>(s.drop_last(), row);
        assert(r.last() == s.last());
        assert(r.drop_last() =~= put::<T>(s.drop_last(), row));
    }
}

/// Putting a row in leaves what is found under every other key.
pub proof fn put_leaves_the_rest<T: Keyed>(s: Seq<T::V>, row: T::V, key: Seq<char>)
    requires
        key != T::key_of(row),
    ensures
        find::<T>(put::<T>(s, row), key) == find::<T>(s, key),
    decreases s.len(),
{
    let r = put::<T>(s, row);
    if s.len() == 0 {
        assert(r.last() == row);
        assert(r.drop_last() =~= s);
    } else if T::key_of(s.last()) == T::key_of(row) {
        assert(r.last() == row);
        assert(r.drop_last() =~= s.drop_last());
    } else if text_lt(T::key_of(s.last()), T::key_of(row)) {
        assert(r.last() == row);
        assert(r.drop_last() =~= s);
    } else {
        put_leaves_the_rest::<T>(s.drop_last(), row, key);
        assert(r.last() == s.last());
        assert(r.drop_last() =~= put::<T>(s.drop_last(), row));
    }
}

/// Where the row under `key` stands, if there is one.
pub fn find_row<T: Keyed>(v: &Vec<T>, key: &str) -> (r: Option<usize>)
    ensures
        r is Some == find::<T>(rows(v@), key@) is Some,
        r is Some ==> r->0 < v@.len() && find::<T>(rows(v@), key@) == Some(v@[r->0 as int]@),
{
    let mut i: usize = v.len();
    assert(rows(v@).take(i as int) =~= rows(v@));
    while i > 0
        invariant
            i <= v@.len(),
            find::<T>(rows(v@), key@) == find::<T>(rows(v@).take(i as int), key@),
        decreases i,
    {
        let ghost now = rows(v@).take(i as int);
        assert(now.drop_last() =~= rows(v@).take(i - 1));
        assert(now.last() == v@[i - 1]@);
        i -= 1;
        if crate::text::same(v[i].key(), key) {
            return Some(i);
        }
    }
    None
}

/// Puts a row into an ordered table.
pub fn put_row<T: Keyed>(v: &mut Vec<T>, row: T)
    ensures
        rows(final(v)@) == put::<T>(rows(old(v)@), row@),
{
    let ghost before = rows(v@);
    let mut i: usize = v.len();
    assert(before.take(i as int) =~= before);
    assert(put::<T>(before, row@) =~= put::<T>(before.take(i as int), row@) + before.skip(i as int));
    while i > 0
        invariant
            before == rows(v@),
            v@ == old(v)@,
            i <= v@.len(),
            put::<T>(before, row@) =~= put::<T>(before.take(i as int), row@) + before.skip(
                i as int,
            ),
        decreases i,
    {
        let ghost now = before.take(i as int);
        assert(now.drop_last() =~= before.take(i - 1));
        assert(now.last() == v@[i - 1]@);
        if crate::text::same(v[i - 1].key(), row.key()) {
            let ghost want = put::<T>(before, row@);
            v.set(i - 1, row);
            assert(rows(v@) =~= before.take(i - 1).push(row@) + before.skip(i as int));
            return;
        }
        if text_before(v[i - 1].key(), row.key()) {
            let ghost was = v@;
            v.insert(i, row);
            assert(rows(v@) =~= before.take(i as int).push(row@) + before.skip(i as int));
            return;
        }
        assert(before.skip(i - 1) =~= seq![now.last()] + before.skip(i as int));
        i -= 1;
    }
    assert(before.take(0) =~= Seq::empty());
    v.insert(0, row);
    assert(rows(v@) =~= seq![row@] + before.skip(0));
}

impl Keyed for Doc {
    open spec fn key_of(v: DocV) -> Seq<char> {
        v.id
    }

    fn key(&self) -> (r: &str) {
        self.id.as_str()
    }
}

impl Keyed for Event {
    open spec fn key_of(v: EventV) -> Seq<char> {
        v.id
    }

    fn key(&self) -> (r: &str) {
        self.id.as_str()
    }
}

impl Keyed for Project {
    open spec fn key_of(v: ProjectV) -> Seq<char> {
        v.name
    }

    fn key(&self) -> (r: &str) {
        self.name.as_str()
    }
}

} // verus!
