//! What holds of the index of vectors, in terms of the store.

use crate::engine::EngineV;
use crate::engine::is_blocked;
use crate::engine::task_by_id;
use crate::rows::Annotation;
use crate::rows::Doc;
use crate::rows::TaskV;
use crate::types::Status;
use crate::vector_index::ChunkV;
use crate::vector_index::doc_source;
use crate::vector_index::indexed_as;
use crate::vector_index::IndexedV;
use crate::vector_index::loaded;
use crate::vector_index::loaded_docs;
use crate::vector_index::loaded_notes;
use crate::vector_index::missing;
use crate::vector_index::missing_docs;
use crate::vector_index::missing_notes;
use crate::vector_index::note_counts;
use crate::vector_index::note_source;
use crate::vector_index::Pending;
use crate::vector_index::PendingV;
use crate::vector_index::SourceV;
use crate::vector_index::still_holds;
use crate::vector_index::VectorRowV;
use crate::vector_index::vectors_of;
use crate::vector_index::written;
use crate::vectors::Kind;
use vstd::prelude::*;

verus! {

broadcast use vstd::string::group_string_axioms;

/// Whether a text is one that the index is about: the title and the searched
/// body of a memory document, or the body of a note that was not removed, is
/// not empty and belongs to a task.
pub open spec fn indexable(e: EngineV, s: SourceV) -> bool {
    match s.kind {
        Kind::Doc => exists|i: int|
            0 <= i < e.docs.len() && (#[trigger] e.docs[i]).id == s.owner_id && e.docs[i].title
                == s.text_a && e.docs[i].search_body == s.text_b && e.docs[i].project == s.project
                && s.task_id is None,
        Kind::Annotation => exists|i: int|
            0 <= i < e.annotations.len() && (#[trigger] e.annotations[i]).id == s.owner_id
                && e.annotations[i].body == s.text_a && s.text_a.len() > 0 && s.text_b.len() == 0
                && e.annotations[i].removed is None && s.task_id == Some(e.annotations[i].task_id)
                && (task_by_id(e.tasks, e.annotations[i].task_id) matches Some(t) && s.project
                == t.project),
    }
}

/// Whether no row of the table is of an entry under a model.
pub open spec fn without_vectors(
    t: Seq<VectorRowV>,
    kind: Kind,
    owner: Seq<char>,
    model: Seq<char>,
) -> bool {
    forall|i: int|
        0 <= i < t.len() ==> !((#[trigger] t[i]).kind == kind && t[i].owner_id == owner
            && t[i].model == model)
}

proof fn missing_docs_are(e: EngineV, t: Seq<VectorRowV>, model: Seq<char>, n: nat, s: SourceV)
    requires
        n <= e.docs.len(),
    ensures
        missing_docs(e, t, model, n).contains(s) <==> exists|i: int|
            0 <= i < n && s == doc_source(#[trigger] e.docs[i]) && without_vectors(
                t,
                Kind::Doc,
                e.docs[i].id,
                model,
            ),
    decreases n,
{
    let r = missing_docs(e, t, model, n);
    if n > 0 {
        let b = missing_docs(e, t, model, (n - 1) as nat);
        let d = e.docs[n - 1];
        missing_docs_are(e, t, model, (n - 1) as nat, s);
        if without_vectors(t, Kind::Doc, d.id, model) {
            assert(r == b.push(doc_source(d)));
            assert(r[b.len() as int] == doc_source(d));
            if b.contains(s) {
                let k = choose|k: int| 0 <= k < b.len() && b[k] == s;
                assert(r[k] == s);
            }
            if r.contains(s) {
                let k = choose|k: int| 0 <= k < r.len() && r[k] == s;
                if k < b.len() {
                    assert(b[k] == s);
                }
            }
        }
    } else {
        assert(!r.contains(s));
    }
}

proof fn missing_notes_are(
    e: EngineV,
    t: Seq<VectorRowV>,
    model: Seq<char>,
    q: Seq<SourceV>,
    n: nat,
    s: SourceV,
)
    requires
        n <= e.annotations.len(),
    ensures
        missing_notes(e, t, model, q, n).contains(s) <==> q.contains(s) || exists|i: int|
            0 <= i < n && s == note_source(e, #[trigger] e.annotations[i]) && note_counts(
                e,
                e.annotations[i],
            ) && without_vectors(t, Kind::Annotation, e.annotations[i].id, model),
    decreases n,
{
    let r = missing_notes(e, t, model, q, n);
    if n > 0 {
        let b = missing_notes(e, t, model, q, (n - 1) as nat);
        let a = e.annotations[n - 1];
        missing_notes_are(e, t, model, q, (n - 1) as nat, s);
        if note_counts(e, a) && without_vectors(t, Kind::Annotation, a.id, model) {
            assert(r == b.push(note_source(e, a)));
            assert(r[b.len() as int] == note_source(e, a));
            if b.contains(s) {
                let k = choose|k: int| 0 <= k < b.len() && b[k] == s;
                assert(r[k] == s);
            }
            if r.contains(s) {
                let k = choose|k: int| 0 <= k < r.len() && r[k] == s;
                if k < b.len() {
                    assert(b[k] == s);
                }
            }
        }
    }
}

/// What is missing from the index is exactly what it is about and has no row,
/// under the model that is asked for.
pub proof fn missing_is_what_has_no_row(
    e: EngineV,
    t: Seq<VectorRowV>,
    model: Seq<char>,
    s: SourceV,
)
    ensures
        missing(e, t, model).contains(s) <==> indexable(e, s) && without_vectors(
            t,
            s.kind,
            s.owner_id,
            model,
        ),
{
    let docs = missing_docs(e, t, model, e.docs.len());
    missing_docs_are(e, t, model, e.docs.len(), s);
    missing_notes_are(e, t, model, docs, e.annotations.len(), s);
    if indexable(e, s) && without_vectors(t, s.kind, s.owner_id, model) {
        if s.kind == Kind::Doc {
            let i = choose|i: int|
                0 <= i < e.docs.len() && (#[trigger] e.docs[i]).id == s.owner_id && e.docs[i].title
                    == s.text_a && e.docs[i].search_body == s.text_b && e.docs[i].project
                    == s.project && s.task_id is None;
            assert(s == doc_source(e.docs[i]));
        } else {
            let i = choose|i: int|
                0 <= i < e.annotations.len() && (#[trigger] e.annotations[i]).id == s.owner_id
                    && e.annotations[i].body == s.text_a && s.text_a.len() > 0 && s.text_b.len()
                    == 0 && e.annotations[i].removed is None && s.task_id == Some(
                    e.annotations[i].task_id,
                ) && (task_by_id(e.tasks, e.annotations[i].task_id) matches Some(t) && s.project
                    == t.project);
            assert(s.text_b =~= Seq::empty());
            assert(s == note_source(e, e.annotations[i]));
        }
    }
}

/// Whether a row of the table is a vector of an entry, under a model and of a
/// length.
pub open spec fn vector_of(
    r: VectorRowV,
    kind: Kind,
    owner: Seq<char>,
    model: Seq<char>,
    len: nat,
    c: ChunkV,
) -> bool {
    &&& r.kind == kind
    &&& r.owner_id == owner
    &&& r.model == model
    &&& r.chunk == c.index
    &&& r.vec == Some(c.blob)
    &&& c.blob.len() == len
}

proof fn vectors_are(
    t: Seq<VectorRowV>,
    kind: Kind,
    owner: Seq<char>,
    model: Seq<char>,
    len: nat,
    n: nat,
    c: ChunkV,
)
    requires
        n <= t.len(),
    ensures
        vectors_of(t, kind, owner, model, len, n).contains(c) <==> exists|i: int|
            0 <= i < n && vector_of(#[trigger] t[i], kind, owner, model, len, c),
    decreases n,
{
    let r = vectors_of(t, kind, owner, model, len, n);
    if n > 0 {
        let b = vectors_of(t, kind, owner, model, len, (n - 1) as nat);
        let row = t[n - 1];
        vectors_are(t, kind, owner, model, len, (n - 1) as nat, c);
        if r != b {
            let x = ChunkV { index: row.chunk, blob: row.vec->0 };
            assert(r == b.push(x));
            assert(r[b.len() as int] == x);
            if b.contains(c) {
                let k = choose|k: int| 0 <= k < b.len() && b[k] == c;
                assert(r[k] == c);
            }
            if r.contains(c) {
                let k = choose|k: int| 0 <= k < r.len() && r[k] == c;
                if k < b.len() {
                    assert(b[k] == c);
                } else {
                    assert(vector_of(t[n - 1], kind, owner, model, len, c));
                }
            }
        } else if vector_of(row, kind, owner, model, len, c) {
            assert(b.push(ChunkV { index: row.chunk, blob: c.blob }).len() == b.len() + 1);
        }
    } else {
        assert(!r.contains(c));
    }
}

/// Whether an entry of the copy is what the store and the table say: a memory
/// document or a note that was not removed, with its project and its task, and
/// exactly its vectors under the model that have the right length, at least one.
pub open spec fn stands_for(
    e: EngineV,
    t: Seq<VectorRowV>,
    model: Seq<char>,
    len: nat,
    x: IndexedV,
) -> bool {
    &&& match x.kind {
        Kind::Doc => exists|i: int|
            0 <= i < e.docs.len() && (#[trigger] e.docs[i]).id == x.owner_id && e.docs[i].project
                == x.project && x.task_id is None,
        Kind::Annotation => exists|i: int|
            0 <= i < e.annotations.len() && (#[trigger] e.annotations[i]).id == x.owner_id
                && e.annotations[i].removed is None && x.task_id == Some(e.annotations[i].task_id)
                && (task_by_id(e.tasks, e.annotations[i].task_id) matches Some(k) && x.project
                == k.project),
    }
    &&& x.chunks.len() > 0
    &&& forall|c: ChunkV| #[trigger]
        x.chunks.contains(c) <==> exists|i: int|
            0 <= i < t.len() && vector_of(#[trigger] t[i], x.kind, x.owner_id, model, len, c)
}

proof fn all_vectors(
    t: Seq<VectorRowV>,
    kind: Kind,
    owner: Seq<char>,
    model: Seq<char>,
    len: nat,
)
    ensures
        forall|c: ChunkV| #[trigger]
            vectors_of(t, kind, owner, model, len, t.len()).contains(c) <==> exists|i: int|
                0 <= i < t.len() && vector_of(#[trigger] t[i], kind, owner, model, len, c),
{
    assert forall|c: ChunkV| #[trigger]
        vectors_of(t, kind, owner, model, len, t.len()).contains(c) <==> exists|i: int|
            0 <= i < t.len() && vector_of(#[trigger] t[i], kind, owner, model, len, c) by {
        vectors_are(t, kind, owner, model, len, t.len(), c);
    }
}

proof fn loaded_docs_stand(
    e: EngineV,
    t: Seq<VectorRowV>,
    model: Seq<char>,
    len: nat,
    n: nat,
    k: int,
)
    requires
        n <= e.docs.len(),
        0 <= k < loaded_docs(e, t, model, len, n).len(),
    ensures
        stands_for(e, t, model, len, loaded_docs(e, t, model, len, n)[k]),
    decreases n,
{
    if n > 0 {
        let b = loaded_docs(e, t, model, len, (n - 1) as nat);
        let d = e.docs[n - 1];
        if k < b.len() {
            loaded_docs_stand(e, t, model, len, (n - 1) as nat, k);
        } else {
            all_vectors(t, Kind::Doc, d.id, model, len);
            assert(e.docs[n - 1].id == d.id);
        }
    }
}

proof fn loaded_notes_stand(
    e: EngineV,
    t: Seq<VectorRowV>,
    model: Seq<char>,
    len: nat,
    s: Seq<IndexedV>,
    n: nat,
    k: int,
)
    requires
        n <= e.annotations.len(),
        0 <= k < loaded_notes(e, t, model, len, s, n).len(),
        forall|j: int| 0 <= j < s.len() ==> stands_for(e, t, model, len, #[trigger] s[j]),
    ensures
        stands_for(e, t, model, len, loaded_notes(e, t, model, len, s, n)[k]),
    decreases n,
{
    if n > 0 {
        let b = loaded_notes(e, t, model, len, s, (n - 1) as nat);
        let a = e.annotations[n - 1];
        if k < b.len() {
            loaded_notes_stand(e, t, model, len, s, (n - 1) as nat, k);
        } else {
            all_vectors(t, Kind::Annotation, a.id, model, len);
            assert(e.annotations[n - 1].id == a.id);
        }
    }
}

/// A copy that is read holds nothing but what the store and the table say.
pub proof fn copies_hold_what_stands(
    e: EngineV,
    t: Seq<VectorRowV>,
    model: Seq<char>,
    len: nat,
    k: int,
)
    requires
        0 <= k < loaded(e, t, model, len).len(),
    ensures
        stands_for(e, t, model, len, loaded(e, t, model, len)[k]),
{
    let docs = loaded_docs(e, t, model, len, e.docs.len());
    assert forall|j: int| 0 <= j < docs.len() implies stands_for(
        e,
        t,
        model,
        len,
        #[trigger] docs[j],
    ) by {
        loaded_docs_stand(e, t, model, len, e.docs.len(), j);
    }
    loaded_notes_stand(e, t, model, len, docs, e.annotations.len(), k);
}

proof fn later_notes_keep(
    e: EngineV,
    t: Seq<VectorRowV>,
    model: Seq<char>,
    len: nat,
    s: Seq<IndexedV>,
    m: nat,
    n: nat,
    x: IndexedV,
)
    requires
        m <= n <= e.annotations.len(),
        loaded_notes(e, t, model, len, s, m).contains(x),
    ensures
        loaded_notes(e, t, model, len, s, n).contains(x),
    decreases n,
{
    if m < n {
        later_notes_keep(e, t, model, len, s, m, (n - 1) as nat, x);
        let b = loaded_notes(e, t, model, len, s, (n - 1) as nat);
        let r = loaded_notes(e, t, model, len, s, n);
        let k = choose|k: int| 0 <= k < b.len() && b[k] == x;
        assert(r[k] == x);
    }
}

proof fn later_docs_keep(
    e: EngineV,
    t: Seq<VectorRowV>,
    model: Seq<char>,
    len: nat,
    m: nat,
    n: nat,
    x: IndexedV,
)
    requires
        m <= n <= e.docs.len(),
        loaded_docs(e, t, model, len, m).contains(x),
    ensures
        loaded_docs(e, t, model, len, n).contains(x),
    decreases n,
{
    if m < n {
        later_docs_keep(e, t, model, len, m, (n - 1) as nat, x);
        let b = loaded_docs(e, t, model, len, (n - 1) as nat);
        let r = loaded_docs(e, t, model, len, n);
        let k = choose|k: int| 0 <= k < b.len() && b[k] == x;
        assert(r[k] == x);
    }
}

/// Whether a copy holds an entry.
pub open spec fn in_copy(v: Seq<IndexedV>, kind: Kind, owner: Seq<char>) -> bool {
    exists|k: int| 0 <= k < v.len() && (#[trigger] v[k]).kind == kind && v[k].owner_id == owner
}

/// Every memory document, and every note that was not removed and belongs to a
/// task, is in the copy that is read where it has a vector under the model and
/// of the right length.
pub proof fn what_has_a_vector_is_read(
    e: EngineV,
    t: Seq<VectorRowV>,
    model: Seq<char>,
    len: nat,
    i: int,
    r: int,
    c: ChunkV,
)
    requires
        0 <= r < t.len(),
    ensures
        0 <= i < e.docs.len() && vector_of(t[r], Kind::Doc, e.docs[i].id, model, len, c)
            ==> in_copy(loaded(e, t, model, len), Kind::Doc, e.docs[i].id),
        0 <= i < e.annotations.len() && e.annotations[i].removed is None && task_by_id(
            e.tasks,
            e.annotations[i].task_id,
        ) is Some && vector_of(t[r], Kind::Annotation, e.annotations[i].id, model, len, c)
            ==> in_copy(loaded(e, t, model, len), Kind::Annotation, e.annotations[i].id),
{
    let docs = loaded_docs(e, t, model, len, e.docs.len());
    let all = loaded(e, t, model, len);
    if 0 <= i < e.docs.len() && vector_of(t[r], Kind::Doc, e.docs[i].id, model, len, c) {
        let d = e.docs[i];
        vectors_are(t, Kind::Doc, d.id, model, len, t.len(), c);
        let v = vectors_of(t, Kind::Doc, d.id, model, len, t.len());
        assert(v.contains(c));
        let x = indexed_as(doc_source(d), v);
        let now = loaded_docs(e, t, model, len, (i + 1) as nat);
        assert(now[now.len() - 1] == x);
        later_docs_keep(e, t, model, len, (i + 1) as nat, e.docs.len(), x);
        later_notes_keep(e, t, model, len, docs, 0, e.annotations.len(), x);
        let k = choose|k: int| 0 <= k < all.len() && all[k] == x;
        assert(all[k].kind == Kind::Doc && all[k].owner_id == d.id);
    }
    if 0 <= i < e.annotations.len() && e.annotations[i].removed is None && task_by_id(
        e.tasks,
        e.annotations[i].task_id,
    ) is Some && vector_of(t[r], Kind::Annotation, e.annotations[i].id, model, len, c) {
        let a = e.annotations[i];
        vectors_are(t, Kind::Annotation, a.id, model, len, t.len(), c);
        let v = vectors_of(t, Kind::Annotation, a.id, model, len, t.len());
        assert(v.contains(c));
        let x = indexed_as(note_source(e, a), v);
        let now = loaded_notes(e, t, model, len, docs, (i + 1) as nat);
        assert(now[now.len() - 1] == x);
        later_notes_keep(e, t, model, len, docs, (i + 1) as nat, e.annotations.len(), x);
        let k = choose|k: int| 0 <= k < all.len() && all[k] == x;
        assert(all[k].kind == Kind::Annotation && all[k].owner_id == a.id);
    }
}

/// As many entries count as written as there are whose text the store still
/// holds: all of them exactly where it holds every one.
pub proof fn only_current_texts_are_written(
    e: EngineV,
    t: Seq<VectorRowV>,
    p: Seq<PendingV>,
    model: Seq<char>,
    n: nat,
)
    requires
        n <= p.len(),
    ensures
        written(e, t, p, model, n).1 <= n,
        written(e, t, p, model, n).1 == n <==> forall|k: int|
            0 <= k < n ==> still_holds(e, (#[trigger] p[k]).source),
    decreases n,
{
    if n > 0 {
        only_current_texts_are_written(e, t, p, model, (n - 1) as nat);
        if forall|k: int| 0 <= k < n ==> still_holds(e, (#[trigger] p[k]).source) {
            assert(still_holds(e, p[n - 1].source));
        }
    }
}

/// A task is blocked exactly where it is in the backlog, pending or active and
/// depends on a task of the store that is in one of these states too.
pub proof fn blocked_tasks_wait_for_open_ones(e: EngineV, t: TaskV)
    ensures
        is_blocked(e, t) <==> unfinished(t.status) && exists|i: int|
            0 <= i < e.dependencies.len() && (#[trigger] e.dependencies[i]).task_id == t.id && (
            task_by_id(e.tasks, e.dependencies[i].depends_on) matches Some(d) && unfinished(
                d.status,
            )),
{
}

/// Whether a status is one of a task that is still to be done.
pub open spec fn unfinished(s: Status) -> bool {
    s == Status::Backlog || s == Status::Pending || s == Status::Active
}

} // verus!
