//! Rows that belong to a task, kept in the order they were written.

use crate::rows::Annotation;
use crate::rows::AnnotationV;
use crate::rows::Check;
use crate::rows::CheckV;
use crate::rows::Dependency;
use crate::rows::DependencyV;
use crate::rows::dup_opt;
use crate::rows::Measurement;
use crate::rows::MeasurementV;
use crate::rows::Row;
use crate::rows::rows;
use crate::text::same;
use vstd::prelude::*;

verus! {

broadcast use {vstd::string::group_string_axioms, crate::rows::rows_push};

/// A row that belongs to a task.
pub trait Child: Row {
    /// The task a row belongs to.
    spec fn owner_of(v: Self::V) -> Seq<char>;

    /// The task this row belongs to.
    fn owner(&self) -> (r: &str)
        ensures
            r@ == Self::owner_of(self@),
    ;
}

/// A row that belongs to a task and has an id of its own.
pub trait Named: Child {
    /// The id of a row.
    spec fn id_of(v: Self::V) -> Seq<char>;

    /// The id of this row.
    fn id(&self) -> (r: &str)
        ensures
            r@ == Self::id_of(self@),
    ;

    /// What a row becomes in place of another with its id.
    spec fn over(row: Self::V, old: Self::V) -> Self::V;

    /// This row in place of another with its id.
    fn dup_over(&self, old: &Self) -> (r: Self)
        ensures
            r@ == Self::over(self@, old@),
    ;
}

/// The rows that belong to `owner`, in order.
pub open spec fn owned<T: Child>(s: Seq<T::V>, owner: Seq<char>) -> Seq<T::V>
    decreases s.len(),
{
    if s.len() == 0 {
        Seq::empty()
    } else if T::owner_of(s.last()) == owner {
        owned::<T>(s.drop_last(), owner).push(s.last())
    } else {
        owned::<T>(s.drop_last(), owner)
    }
}

/// The rows that do not belong to `owner`, in order.
pub open spec fn without<T: Child>(s: Seq<T::V>, owner: Seq<char>) -> Seq<T::V>
    decreases s.len(),
{
    if s.len() == 0 {
        Seq::empty()
    } else if T::owner_of(s.last()) == owner {
        without::<T>(s.drop_last(), owner)
    } else {
        without::<T>(s.drop_last(), owner).push(s.last())
    }
}

/// The notes that were not removed, in order.
pub open spec fn live(s: Seq<AnnotationV>) -> Seq<AnnotationV>
    decreases s.len(),
{
    if s.len() == 0 {
        Seq::empty()
    } else if s.last().removed is None {
        live(s.drop_last()).push(s.last())
    } else {
        live(s.drop_last())
    }
}

/// Whether some row has this id.
pub open spec fn has<T: Named>(s: Seq<T::V>, id: Seq<char>) -> bool {
    exists|i: int| 0 <= i < s.len() && T::id_of(#[trigger] s[i]) == id
}

/// The rows with `row` in place of the one with its id, or after them all.
pub open spec fn upserted<T: Named>(s: Seq<T::V>, row: T::V) -> Seq<T::V> {
    if has::<T>(s, T::id_of(row)) {
        Seq::new(
            s.len(),
            |i: int|
                if T::id_of(s[i]) == T::id_of(row) {
                    T::over(row, s[i])
                } else {
                    s[i]
                },
        )
    } else {
        s.push(row)
    }
}

/// Deletes the rows that belong to `owner`.
pub fn delete_owned<T: Child>(v: &mut Vec<T>, owner: &str)
    ensures
        rows(final(v)@) == without::<T>(rows(old(v)@), owner@),
{
    let ghost before = rows(v@);
    let mut kept: Vec<T> = Vec::new();
    let n: usize = v.len();
    let mut i: usize = 0;
    assert(rows(kept@) =~= Seq::empty());
    while i < n
        invariant
            before == rows(v@),
            n == v@.len(),
            i <= n,
            rows(kept@) == without::<T>(before.take(i as int), owner@),
        decreases n - i,
    {
        let ghost now = before.take(i as int + 1);
        assert(now.drop_last() =~= before.take(i as int));
        assert(now.last() == v@[i as int]@);
        if !same(v[i].owner(), owner) {
            let one: T = v[i].dup();
            kept.push(one);
        }
        i += 1;
    }
    assert(before.take(n as int) =~= before);
    *v = kept;
}

/// Whether some row has this id.
pub fn has_row<T: Named>(v: &Vec<T>, id: &str) -> (r: bool)
    ensures
        r == has::<T>(rows(v@), id@),
{
    let mut i: usize = 0;
    while i < v.len()
        invariant
            i <= v@.len(),
            forall|k: int| 0 <= k < i ==> T::id_of(#[trigger] rows(v@)[k]) != id@,
        decreases v@.len() - i,
    {
        assert(rows(v@)[i as int] == v@[i as int]@);
        if same(v[i].id(), id) {
            return true;
        }
        i += 1;
    }
    false
}

/// Writes a row in place of every one with its id, or after them all.
pub fn upsert<T: Named>(v: &mut Vec<T>, row: T)
    ensures
        rows(final(v)@) == upserted::<T>(rows(old(v)@), row@),
{
    let ghost before = rows(v@);
    if !has_row(v, row.id()) {
        v.push(row);
        return;
    }
    let mut i: usize = 0;
    let n: usize = v.len();
    assert(forall|k: int| 0 <= k < n ==> #[trigger] v@[k]@ == before[k]);
    while i < n
        invariant
            n == v@.len(),
            n == before.len(),
            i <= n,
            forall|k: int|
                0 <= k < n ==> #[trigger] v@[k]@ == if k < i && T::id_of(before[k]) == T::id_of(
                    row@,
                ) {
                    T::over(row@, before[k])
                } else {
                    before[k]
                },
        decreases n - i,
    {
        assert(v@[i as int]@ == before[i as int]);
        if same(v[i].id(), row.id()) {
            let one: T = row.dup_over(&v[i]);
            v.set(i, one);
        }
        i += 1;
    }
    assert(rows(v@) =~= upserted::<T>(before, row@));
}

impl Child for Annotation {
    open spec fn owner_of(v: AnnotationV) -> Seq<char> {
        v.task_id
    }

    fn owner(&self) -> (r: &str) {
        self.task_id.as_str()
    }
}

impl Named for Annotation {
    open spec fn id_of(v: AnnotationV) -> Seq<char> {
        v.id
    }

    fn id(&self) -> (r: &str) {
        self.id.as_str()
    }

    open spec fn over(row: AnnotationV, old: AnnotationV) -> AnnotationV {
        AnnotationV { removed: old.removed, ..row }
    }

    fn dup_over(&self, old: &Annotation) -> (r: Annotation) {
        Annotation {
            id: self.id.clone(),
            task_id: self.task_id.clone(),
            body: self.body.clone(),
            created: self.created.clone(),
            removed: dup_opt(&old.removed),
        }
    }
}

impl Child for Check {
    open spec fn owner_of(v: CheckV) -> Seq<char> {
        v.task_id
    }

    fn owner(&self) -> (r: &str) {
        self.task_id.as_str()
    }
}

impl Named for Check {
    open spec fn id_of(v: CheckV) -> Seq<char> {
        v.id
    }

    fn id(&self) -> (r: &str) {
        self.id.as_str()
    }

    open spec fn over(row: CheckV, old: CheckV) -> CheckV {
        row
    }

    fn dup_over(&self, old: &Check) -> (r: Check) {
        self.dup()
    }
}

impl Child for Measurement {
    open spec fn owner_of(v: MeasurementV) -> Seq<char> {
        v.task_id
    }

    fn owner(&self) -> (r: &str) {
        self.task_id.as_str()
    }
}

impl Named for Measurement {
    open spec fn id_of(v: MeasurementV) -> Seq<char> {
        v.id
    }

    fn id(&self) -> (r: &str) {
        self.id.as_str()
    }

    open spec fn over(row: MeasurementV, old: MeasurementV) -> MeasurementV {
        row
    }

    fn dup_over(&self, old: &Measurement) -> (r: Measurement) {
        self.dup()
    }
}

impl Child for Dependency {
    open spec fn owner_of(v: DependencyV) -> Seq<char> {
        v.task_id
    }

    fn owner(&self) -> (r: &str) {
        self.task_id.as_str()
    }
}

} // verus!
