//! The stored vectors: which entries have none, what is written for them, and
//! the copy a process keeps.
//!
//! A row describes the text its entry held when it was embedded. An entry
//! without a row is embedded just before a search needs it and written back
//! only while it still holds that text. What cannot be written serves the call
//! from memory and is kept for the next one.

use crate::children::Named;
use crate::engine::Engine;
use crate::engine::EngineV;
use crate::engine::task_by_id;
use crate::rows::Annotation;
use crate::rows::AnnotationV;
use crate::rows::Doc;
use crate::rows::DocV;
use crate::rows::dup_opt;
use crate::rows::dup_rows;
use crate::rows::Row;
use crate::rows::rows;
use crate::rows::TaskV;
use crate::sound::ids_differ;
use crate::tables::Keyed;
use crate::tables::text_lt;
use crate::tables::text_lt_irreflexive;
use crate::text::same;
use crate::text::texts;
use crate::value::opt_view;
use crate::vectors::CacheKey;
use crate::vectors::Kind;
use crate::vectors::plan;
use crate::vectors::Plan;
use crate::vectors::plan_spec;
use crate::vectors::settle;
use crate::vectors::settled_spec;
use vstd::prelude::*;

verus! {

broadcast use {vstd::string::group_string_axioms, crate::rows::rows_push};

/// One chunk's vector, as bytes.
#[derive(Debug)]
pub struct Chunk {
    pub index: i64,
    pub blob: Vec<u8>,
}

/// What a [`Chunk`] says.
pub ghost struct ChunkV {
    pub index: i64,
    pub blob: Seq<u8>,
}

impl View for Chunk {
    type V = ChunkV;

    open spec fn view(&self) -> ChunkV {
        ChunkV { index: self.index, blob: self.blob@ }
    }
}

impl Row for Chunk {
    fn dup(&self) -> (r: Chunk) {
        Chunk { index: self.index, blob: dup_bytes(&self.blob) }
    }
}

/// A copy of some bytes.
fn dup_bytes(b: &Vec<u8>) -> (r: Vec<u8>)
    ensures
        r@ == b@,
{
    let mut out: Vec<u8> = Vec::new();
    let mut i: usize = 0;
    while i < b.len()
        invariant
            i <= b@.len(),
            out@ =~= b@.take(i as int),
        decreases b@.len() - i,
    {
        out.push(b[i]);
        i += 1;
    }
    assert(b@.take(i as int) =~= b@);
    out
}

/// A row of the index: a chunk of an entry under a model. An entry no chunk of
/// which has a vector holds one row without.
#[derive(Debug)]
pub struct VectorRow {
    pub kind: Kind,
    pub owner_id: String,
    pub model: String,
    pub chunk: i64,
    pub vec: Option<Vec<u8>>,
}

/// What a [`VectorRow`] says.
pub ghost struct VectorRowV {
    pub kind: Kind,
    pub owner_id: Seq<char>,
    pub model: Seq<char>,
    pub chunk: i64,
    pub vec: Option<Seq<u8>>,
}

impl View for VectorRow {
    type V = VectorRowV;

    open spec fn view(&self) -> VectorRowV {
        VectorRowV {
            kind: self.kind,
            owner_id: self.owner_id@,
            model: self.model@,
            chunk: self.chunk,
            vec: match self.vec {
                Some(b) => Some(b@),
                None => None,
            },
        }
    }
}

/// An embedding model: what it is called, and how long its vectors are.
#[derive(Debug)]
pub struct Model {
    pub id: String,
    pub blob_len: usize,
}

/// An entry and the text it holds. `text_a` is a document's title or a note's
/// body, `text_b` what of a document is searched.
#[derive(Debug)]
pub struct Source {
    pub kind: Kind,
    pub owner_id: String,
    pub project: Option<String>,
    /// The task of a note.
    pub task_id: Option<String>,
    pub text_a: String,
    pub text_b: String,
}

/// What a [`Source`] says.
pub ghost struct SourceV {
    pub kind: Kind,
    pub owner_id: Seq<char>,
    pub project: Option<Seq<char>>,
    pub task_id: Option<Seq<char>>,
    pub text_a: Seq<char>,
    pub text_b: Seq<char>,
}

impl View for Source {
    type V = SourceV;

    open spec fn view(&self) -> SourceV {
        SourceV {
            kind: self.kind,
            owner_id: self.owner_id@,
            project: opt_view(self.project),
            task_id: opt_view(self.task_id),
            text_a: self.text_a@,
            text_b: self.text_b@,
        }
    }
}

/// An entry without a row, and what embedding it gave: a vector for every
/// chunk that has one.
#[derive(Debug)]
pub struct Pending {
    pub source: Source,
    pub vectors: Vec<Chunk>,
}

/// What a [`Pending`] says.
pub ghost struct PendingV {
    pub source: SourceV,
    pub vectors: Seq<ChunkV>,
}

impl View for Pending {
    type V = PendingV;

    open spec fn view(&self) -> PendingV {
        PendingV { source: self.source@, vectors: rows(self.vectors@) }
    }
}

/// An entry and the vectors it has.
#[derive(Debug)]
pub struct Indexed {
    pub kind: Kind,
    pub owner_id: String,
    pub project: Option<String>,
    /// The task of a note.
    pub task_id: Option<String>,
    pub chunks: Vec<Chunk>,
}

/// What an [`Indexed`] says.
pub ghost struct IndexedV {
    pub kind: Kind,
    pub owner_id: Seq<char>,
    pub project: Option<Seq<char>>,
    pub task_id: Option<Seq<char>>,
    pub chunks: Seq<ChunkV>,
}

impl View for Indexed {
    type V = IndexedV;

    open spec fn view(&self) -> IndexedV {
        IndexedV {
            kind: self.kind,
            owner_id: self.owner_id@,
            project: opt_view(self.project),
            task_id: opt_view(self.task_id),
            chunks: rows(self.chunks@),
        }
    }
}

/// Whether an entry has a row under a model.
pub open spec fn has_row_for(
    t: Seq<VectorRowV>,
    kind: Kind,
    owner: Seq<char>,
    model: Seq<char>,
) -> bool {
    exists|i: int|
        0 <= i < t.len() && (#[trigger] t[i]).kind == kind && t[i].owner_id == owner && t[i].model
            == model
}

fn row_for(t: &Vec<VectorRow>, kind: Kind, owner: &str, model: &str) -> (r: bool)
    ensures
        r == has_row_for(rows(t@), kind, owner@, model@),
{
    let mut i: usize = 0;
    while i < t.len()
        invariant
            i <= t@.len(),
            forall|k: int|
                0 <= k < i ==> !((#[trigger] rows(t@)[k]).kind == kind && rows(t@)[k].owner_id
                    == owner@ && rows(t@)[k].model == model@),
        decreases t@.len() - i,
    {
        assert(rows(t@)[i as int] == t@[i as int]@);
        if t[i].kind == kind && same(t[i].owner_id.as_str(), owner) && same(
            t[i].model.as_str(),
            model,
        ) {
            return true;
        }
        i += 1;
    }
    false
}

/// The project of the task with this id.
pub open spec fn project_of_task(tasks: Seq<TaskV>, id: Seq<char>) -> Option<Seq<char>> {
    match task_by_id(tasks, id) {
        Some(t) => t.project,
        None => None,
    }
}

/// A document as a source.
pub open spec fn doc_source(d: DocV) -> SourceV {
    SourceV {
        kind: Kind::Doc,
        owner_id: d.id,
        project: d.project,
        task_id: None,
        text_a: d.title,
        text_b: d.search_body,
    }
}

/// A note as a source. Its project is its task's.
pub open spec fn note_source(e: EngineV, a: AnnotationV) -> SourceV {
    SourceV {
        kind: Kind::Annotation,
        owner_id: a.id,
        project: project_of_task(e.tasks, a.task_id),
        task_id: Some(a.task_id),
        text_a: a.body,
        text_b: Seq::empty(),
    }
}

/// Whether a note has something to embed: it was not removed, and has a text
/// and a task.
pub open spec fn note_counts(e: EngineV, a: AnnotationV) -> bool {
    a.removed is None && a.body.len() > 0 && task_by_id(e.tasks, a.task_id) is Some
}

/// The first `n` documents without a row.
pub open spec fn missing_docs(
    e: EngineV,
    t: Seq<VectorRowV>,
    model: Seq<char>,
    n: nat,
) -> Seq<SourceV>
    decreases n,
{
    if n == 0 || n > e.docs.len() {
        Seq::empty()
    } else {
        let before = missing_docs(e, t, model, (n - 1) as nat);
        let d = e.docs[n - 1];
        if has_row_for(t, Kind::Doc, d.id, model) {
            before
        } else {
            before.push(doc_source(d))
        }
    }
}

/// The first `n` notes without a row, after the sources of `s`.
pub open spec fn missing_notes(
    e: EngineV,
    t: Seq<VectorRowV>,
    model: Seq<char>,
    s: Seq<SourceV>,
    n: nat,
) -> Seq<SourceV>
    decreases n,
{
    if n == 0 || n > e.annotations.len() {
        s
    } else {
        let before = missing_notes(e, t, model, s, (n - 1) as nat);
        let a = e.annotations[n - 1];
        if !note_counts(e, a) || has_row_for(t, Kind::Annotation, a.id, model) {
            before
        } else {
            before.push(note_source(e, a))
        }
    }
}

/// Every entry without a row: documents, then notes.
pub open spec fn missing(e: EngineV, t: Seq<VectorRowV>, model: Seq<char>) -> Seq<SourceV> {
    missing_notes(e, t, model, missing_docs(e, t, model, e.docs.len()), e.annotations.len())
}

fn source_of_doc(d: &Doc) -> (r: Source)
    ensures
        r@ == doc_source(d@),
{
    Source {
        kind: Kind::Doc,
        owner_id: d.id.clone(),
        project: dup_opt(&d.project),
        task_id: None,
        text_a: d.title.clone(),
        text_b: d.search_body.clone(),
    }
}

/// Every entry that has no row under the model: all documents, and the notes
/// that say something.
pub fn scan_missing(e: &Engine, t: &Vec<VectorRow>, model: &str) -> (r: Vec<Source>)
    ensures
        rows(r@) == missing(e@, rows(t@), model@),
{
    let mut out: Vec<Source> = Vec::new();
    let mut i: usize = 0;
    assert(rows(out@) =~= Seq::empty());
    while i < e.docs.len()
        invariant
            i <= e.docs@.len(),
            rows(out@) == missing_docs(e@, rows(t@), model@, i as nat),
        decreases e.docs@.len() - i,
    {
        assert(e@.docs[i as int] == e.docs@[i as int]@);
        if !row_for(t, Kind::Doc, e.docs[i].id.as_str(), model) {
            out.push(source_of_doc(&e.docs[i]));
        }
        i += 1;
    }
    let ghost start = rows(out@);
    let mut j: usize = 0;
    while j < e.annotations.len()
        invariant
            j <= e.annotations@.len(),
            rows(out@) == missing_notes(e@, rows(t@), model@, start, j as nat),
        decreases e.annotations@.len() - j,
    {
        assert(e@.annotations[j as int] == e.annotations@[j as int]@);
        let a = &e.annotations[j];
        let task: Option<usize> = e.find_task(a.task_id.as_str());
        if let Some(k) = task {
            if a.removed.is_none() && !is_empty(a.body.as_str()) && !row_for(t, Kind::Annotation, a.id.as_str(), model) {
                let s = Source {
                    kind: Kind::Annotation,
                    owner_id: a.id.clone(),
                    project: dup_opt(&e.tasks[k].project),
                    task_id: Some(a.task_id.clone()),
                    text_a: a.body.clone(),
                    text_b: String::new(),
                };
                assert(s@.text_b =~= Seq::empty());
                out.push(s);
            }
        }
        j += 1;
    }
    out
}

fn is_empty(s: &str) -> (r: bool)
    ensures
        r == (s@.len() == 0),
{
    s.unicode_len() == 0
}

/// The vectors of an entry among the first `n` rows: those of the model, of
/// the length its vectors have.
pub open spec fn vectors_of(
    t: Seq<VectorRowV>,
    kind: Kind,
    owner: Seq<char>,
    model: Seq<char>,
    len: nat,
    n: nat,
) -> Seq<ChunkV>
    decreases n,
{
    if n == 0 || n > t.len() {
        Seq::empty()
    } else {
        let before = vectors_of(t, kind, owner, model, len, (n - 1) as nat);
        let r = t[n - 1];
        match r.vec {
            Some(b) => if r.kind == kind && r.owner_id == owner && r.model == model && b.len()
                == len {
                before.push(ChunkV { index: r.chunk, blob: b })
            } else {
                before
            },
            None => before,
        }
    }
}

fn read_vectors(t: &Vec<VectorRow>, kind: Kind, owner: &str, model: &Model) -> (r: Vec<Chunk>)
    ensures
        rows(r@) == vectors_of(
            rows(t@),
            kind,
            owner@,
            model.id@,
            model.blob_len as nat,
            t@.len(),
        ),
{
    let mut out: Vec<Chunk> = Vec::new();
    let mut i: usize = 0;
    assert(rows(out@) =~= Seq::empty());
    while i < t.len()
        invariant
            i <= t@.len(),
            rows(out@) == vectors_of(
                rows(t@),
                kind,
                owner@,
                model.id@,
                model.blob_len as nat,
                i as nat,
            ),
        decreases t@.len() - i,
    {
        assert(rows(t@)[i as int] == t@[i as int]@);
        if let Some(b) = &t[i].vec {
            if t[i].kind == kind && same(t[i].owner_id.as_str(), owner) && same(
                t[i].model.as_str(),
                model.id.as_str(),
            ) && b.len() == model.blob_len {
                out.push(Chunk { index: t[i].chunk, blob: dup_bytes(b) });
            }
        }
        i += 1;
    }
    out
}

/// An entry with these vectors, where it has any.
pub open spec fn indexed_as(s: SourceV, chunks: Seq<ChunkV>) -> IndexedV {
    IndexedV {
        kind: s.kind,
        owner_id: s.owner_id,
        project: s.project,
        task_id: s.task_id,
        chunks,
    }
}

/// The first `n` documents that have a vector.
pub open spec fn loaded_docs(
    e: EngineV,
    t: Seq<VectorRowV>,
    model: Seq<char>,
    len: nat,
    n: nat,
) -> Seq<IndexedV>
    decreases n,
{
    if n == 0 || n > e.docs.len() {
        Seq::empty()
    } else {
        let before = loaded_docs(e, t, model, len, (n - 1) as nat);
        let d = e.docs[n - 1];
        let c = vectors_of(t, Kind::Doc, d.id, model, len, t.len());
        if c.len() == 0 {
            before
        } else {
            before.push(indexed_as(doc_source(d), c))
        }
    }
}

/// The first `n` notes that have a vector, after the entries of `s`.
pub open spec fn loaded_notes(
    e: EngineV,
    t: Seq<VectorRowV>,
    model: Seq<char>,
    len: nat,
    s: Seq<IndexedV>,
    n: nat,
) -> Seq<IndexedV>
    decreases n,
{
    if n == 0 || n > e.annotations.len() {
        s
    } else {
        let before = loaded_notes(e, t, model, len, s, (n - 1) as nat);
        let a = e.annotations[n - 1];
        let c = vectors_of(t, Kind::Annotation, a.id, model, len, t.len());
        if c.len() == 0 || a.removed is Some || task_by_id(e.tasks, a.task_id) is None {
            before
        } else {
            before.push(indexed_as(note_source(e, a), c))
        }
    }
}

/// Every vector of the model whose entry still exists, by entry.
pub open spec fn loaded(
    e: EngineV,
    t: Seq<VectorRowV>,
    model: Seq<char>,
    len: nat,
) -> Seq<IndexedV> {
    loaded_notes(
        e,
        t,
        model,
        len,
        loaded_docs(e, t, model, len, e.docs.len()),
        e.annotations.len(),
    )
}

/// Every vector of the model whose entry still exists, by entry. A vector of
/// another model, or of another length, is not read.
pub fn load(e: &Engine, t: &Vec<VectorRow>, model: &Model) -> (r: Vec<Indexed>)
    ensures
        rows(r@) == loaded(e@, rows(t@), model.id@, model.blob_len as nat),
{
    let mut out: Vec<Indexed> = Vec::new();
    let mut i: usize = 0;
    assert(rows(out@) =~= Seq::empty());
    while i < e.docs.len()
        invariant
            i <= e.docs@.len(),
            rows(out@) == loaded_docs(
                e@,
                rows(t@),
                model.id@,
                model.blob_len as nat,
                i as nat,
            ),
        decreases e.docs@.len() - i,
    {
        assert(e@.docs[i as int] == e.docs@[i as int]@);
        let d = &e.docs[i];
        let chunks = read_vectors(t, Kind::Doc, d.id.as_str(), model);
        assert(rows(chunks@).len() == chunks@.len());
        if chunks.len() > 0 {
            out.push(
                Indexed {
                    kind: Kind::Doc,
                    owner_id: d.id.clone(),
                    project: dup_opt(&d.project),
                    task_id: None,
                    chunks,
                },
            );
        }
        i += 1;
    }
    let ghost start = rows(out@);
    let mut j: usize = 0;
    while j < e.annotations.len()
        invariant
            j <= e.annotations@.len(),
            rows(out@) == loaded_notes(
                e@,
                rows(t@),
                model.id@,
                model.blob_len as nat,
                start,
                j as nat,
            ),
        decreases e.annotations@.len() - j,
    {
        assert(e@.annotations[j as int] == e.annotations@[j as int]@);
        let a = &e.annotations[j];
        let chunks = read_vectors(t, Kind::Annotation, a.id.as_str(), model);
        assert(rows(chunks@).len() == chunks@.len());
        if let Some(k) = e.find_task(a.task_id.as_str()) {
            if a.removed.is_none() && chunks.len() > 0 {
                out.push(
                    Indexed {
                        kind: Kind::Annotation,
                        owner_id: a.id.clone(),
                        project: dup_opt(&e.tasks[k].project),
                        task_id: Some(a.task_id.clone()),
                        chunks,
                    },
                );
            }
        }
        j += 1;
    }
    out
}

/// Whether an entry still holds the text that was embedded.
pub open spec fn still_holds(e: EngineV, s: SourceV) -> bool {
    match s.kind {
        Kind::Doc => exists|i: int|
            0 <= i < e.docs.len() && (#[trigger] e.docs[i]).id == s.owner_id && e.docs[i].title
                == s.text_a && e.docs[i].search_body == s.text_b,
        Kind::Annotation => exists|i: int|
            0 <= i < e.annotations.len() && (#[trigger] e.annotations[i]).id == s.owner_id
                && e.annotations[i].body == s.text_a && e.annotations[i].removed is None,
    }
}

fn holds_text(e: &Engine, s: &Source) -> (r: bool)
    ensures
        r == still_holds(e@, s@),
{
    match s.kind {
        Kind::Doc => {
            let mut i: usize = 0;
            while i < e.docs.len()
                invariant
                    i <= e.docs@.len(),
                    s.kind == Kind::Doc,
                    forall|k: int|
                        0 <= k < i ==> !((#[trigger] e@.docs[k]).id == s@.owner_id
                            && e@.docs[k].title == s@.text_a && e@.docs[k].search_body
                            == s@.text_b),
                decreases e.docs@.len() - i,
            {
                assert(e@.docs[i as int] == e.docs@[i as int]@);
                let d = &e.docs[i];
                if same(d.id.as_str(), s.owner_id.as_str()) && same(
                    d.title.as_str(),
                    s.text_a.as_str(),
                ) && same(d.search_body.as_str(), s.text_b.as_str()) {
                    return true;
                }
                i += 1;
            }
            false
        },
        Kind::Annotation => {
            let mut i: usize = 0;
            while i < e.annotations.len()
                invariant
                    i <= e.annotations@.len(),
                    s.kind == Kind::Annotation,
                    forall|k: int|
                        0 <= k < i ==> !((#[trigger] e@.annotations[k]).id == s@.owner_id
                            && e@.annotations[k].body == s@.text_a && e@.annotations[k].removed
                            is None),
                decreases e.annotations@.len() - i,
            {
                assert(e@.annotations[i as int] == e.annotations@[i as int]@);
                let a = &e.annotations[i];
                if a.removed.is_none() && same(a.id.as_str(), s.owner_id.as_str()) && same(
                    a.body.as_str(),
                    s.text_a.as_str(),
                ) {
                    return true;
                }
                i += 1;
            }
            false
        },
    }
}

/// The index with a row added, unless its place is taken.
pub open spec fn row_added(t: Seq<VectorRowV>, r: VectorRowV) -> Seq<VectorRowV> {
    if exists|i: int|
        0 <= i < t.len() && (#[trigger] t[i]).kind == r.kind && t[i].owner_id == r.owner_id
            && t[i].model == r.model && t[i].chunk == r.chunk {
        t
    } else {
        t.push(r)
    }
}

fn add_row(t: &mut Vec<VectorRow>, r: VectorRow)
    ensures
        rows(final(t)@) == row_added(rows(old(t)@), r@),
{
    let mut i: usize = 0;
    while i < t.len()
        invariant
            t@ == old(t)@,
            i <= t@.len(),
            forall|k: int|
                0 <= k < i ==> !((#[trigger] rows(t@)[k]).kind == r@.kind && rows(t@)[k].owner_id
                    == r@.owner_id && rows(t@)[k].model == r@.model && rows(t@)[k].chunk
                    == r@.chunk),
        decreases t@.len() - i,
    {
        assert(rows(t@)[i as int] == t@[i as int]@);
        if t[i].kind == r.kind && same(t[i].owner_id.as_str(), r.owner_id.as_str()) && same(
            t[i].model.as_str(),
            r.model.as_str(),
        ) && t[i].chunk == r.chunk {
            return;
        }
        i += 1;
    }
    t.push(r);
}

/// The row of a chunk of an entry.
pub open spec fn chunk_row(s: SourceV, model: Seq<char>, c: ChunkV) -> VectorRowV {
    VectorRowV {
        kind: s.kind,
        owner_id: s.owner_id,
        model,
        chunk: c.index,
        vec: Some(c.blob),
    }
}

/// The index with the first `n` chunks of an entry.
pub open spec fn chunks_added(
    t: Seq<VectorRowV>,
    p: PendingV,
    model: Seq<char>,
    n: nat,
) -> Seq<VectorRowV>
    decreases n,
{
    if n == 0 || n > p.vectors.len() {
        t
    } else {
        row_added(
            chunks_added(t, p, model, (n - 1) as nat),
            chunk_row(p.source, model, p.vectors[n - 1]),
        )
    }
}

/// The row of an entry no chunk of which has a vector.
pub open spec fn sentinel_row(s: SourceV, model: Seq<char>) -> VectorRowV {
    VectorRowV { kind: s.kind, owner_id: s.owner_id, model, chunk: -1i64, vec: None }
}

/// The index with an entry: a row for each chunk, or one without a vector, so
/// that the entry is not embedded again.
pub open spec fn entry_added(t: Seq<VectorRowV>, p: PendingV, model: Seq<char>) -> Seq<
    VectorRowV,
> {
    if p.vectors.len() == 0 {
        row_added(t, sentinel_row(p.source, model))
    } else {
        chunks_added(t, p, model, p.vectors.len())
    }
}

/// The index once the first `n` entries that still hold their text were
/// written, and how many those are.
pub open spec fn written(
    e: EngineV,
    t: Seq<VectorRowV>,
    p: Seq<PendingV>,
    model: Seq<char>,
    n: nat,
) -> (Seq<VectorRowV>, nat)
    decreases n,
{
    if n == 0 || n > p.len() {
        (t, 0)
    } else {
        let before = written(e, t, p, model, (n - 1) as nat);
        if still_holds(e, p[n - 1].source) {
            (entry_added(before.0, p[n - 1], model), before.1 + 1)
        } else {
            before
        }
    }
}

/// Write each entry while it still holds the text that was embedded. Gives how
/// many were written; one that was edited meanwhile is not.
pub fn write_guarded(e: &Engine, t: &mut Vec<VectorRow>, pending: &Vec<Pending>, model: &str) -> (r:
    usize)
    ensures
        rows(final(t)@) == written(e@, rows(old(t)@), rows(pending@), model@, pending@.len()).0,
        r == written(e@, rows(old(t)@), rows(pending@), model@, pending@.len()).1,
{
    let ghost was = rows(t@);
    let mut count: usize = 0;
    let mut i: usize = 0;
    while i < pending.len()
        invariant
            count <= i <= pending@.len(),
            was == rows(old(t)@),
            rows(t@) == written(e@, was, rows(pending@), model@, i as nat).0,
            count == written(e@, was, rows(pending@), model@, i as nat).1,
        decreases pending@.len() - i,
    {
        let p = &pending[i];
        assert(rows(pending@)[i as int] == p@);
        if holds_text(e, &p.source) {
            if p.vectors.len() == 0 {
                add_row(
                    t,
                    VectorRow {
                        kind: p.source.kind,
                        owner_id: p.source.owner_id.clone(),
                        model: model.to_owned(),
                        chunk: -1,
                        vec: None,
                    },
                );
            } else {
                add_chunks(t, p, model);
            }
            count += 1;
        }
        i += 1;
    }
    count
}

fn add_chunks(t: &mut Vec<VectorRow>, p: &Pending, model: &str)
    ensures
        rows(final(t)@) == chunks_added(rows(old(t)@), p@, model@, p@.vectors.len()),
{
    let ghost start = rows(t@);
    let mut k: usize = 0;
    while k < p.vectors.len()
        invariant
            k <= p.vectors@.len(),
            start == rows(old(t)@),
            rows(t@) == chunks_added(start, p@, model@, k as nat),
        decreases p.vectors@.len() - k,
    {
        assert(p@.vectors[k as int] == p.vectors@[k as int]@);
        add_row(
            t,
            VectorRow {
                kind: p.source.kind,
                owner_id: p.source.owner_id.clone(),
                model: model.to_owned(),
                chunk: p.vectors[k].index,
                vec: Some(dup_bytes(&p.vectors[k].blob)),
            },
        );
        k += 1;
    }
}

/// The copy of the index that a process keeps.
#[derive(Debug)]
pub struct VectorCache {
    /// What the copy was read at.
    pub key: Option<CacheKey>,
    /// Whether every entry had a row when the copy was read.
    pub complete: bool,
    pub entries: Vec<Indexed>,
    /// What was embedded and could not be written.
    pub kept: Vec<Pending>,
}

/// What a [`VectorCache`] holds.
pub ghost struct VectorCacheV {
    pub key: Option<CacheKey>,
    pub complete: bool,
    pub entries: Seq<IndexedV>,
    pub kept: Seq<PendingV>,
}

impl View for VectorCache {
    type V = VectorCacheV;

    open spec fn view(&self) -> VectorCacheV {
        VectorCacheV {
            key: self.key,
            complete: self.complete,
            entries: rows(self.entries@),
            kept: rows(self.kept@),
        }
    }
}

/// The entries of the first `n` that have a vector of the model's length.
pub open spec fn served(p: Seq<PendingV>, len: nat, n: nat) -> Seq<IndexedV>
    decreases n,
{
    if n == 0 || n > p.len() {
        Seq::empty()
    } else {
        let before = served(p, len, (n - 1) as nat);
        let c = of_length(p[n - 1].vectors, len, p[n - 1].vectors.len());
        if c.len() == 0 {
            before
        } else {
            before.push(indexed_as(p[n - 1].source, c))
        }
    }
}

/// The chunks among the first `n` whose vector has this length.
pub open spec fn of_length(c: Seq<ChunkV>, len: nat, n: nat) -> Seq<ChunkV>
    decreases n,
{
    if n == 0 || n > c.len() {
        Seq::empty()
    } else if c[n - 1].blob.len() == len {
        of_length(c, len, (n - 1) as nat).push(c[n - 1])
    } else {
        of_length(c, len, (n - 1) as nat)
    }
}

fn pick_length(c: &Vec<Chunk>, len: usize) -> (r: Vec<Chunk>)
    ensures
        rows(r@) == of_length(rows(c@), len as nat, c@.len()),
{
    let mut out: Vec<Chunk> = Vec::new();
    let mut i: usize = 0;
    assert(rows(out@) =~= Seq::empty());
    while i < c.len()
        invariant
            i <= c@.len(),
            rows(out@) == of_length(rows(c@), len as nat, i as nat),
        decreases c@.len() - i,
    {
        assert(rows(c@)[i as int] == c@[i as int]@);
        if c[i].blob.len() == len {
            out.push(Row::dup(&c[i]));
        }
        i += 1;
    }
    out
}

fn serve(p: &Vec<Pending>, len: usize) -> (r: Vec<Indexed>)
    ensures
        rows(r@) == served(rows(p@), len as nat, p@.len()),
{
    let mut out: Vec<Indexed> = Vec::new();
    let mut i: usize = 0;
    assert(rows(out@) =~= Seq::empty());
    while i < p.len()
        invariant
            i <= p@.len(),
            rows(out@) == served(rows(p@), len as nat, i as nat),
        decreases p@.len() - i,
    {
        assert(rows(p@)[i as int] == p@[i as int]@);
        let chunks = pick_length(&p[i].vectors, len);
        assert(rows(chunks@).len() == chunks@.len());
        if chunks.len() > 0 {
            let s = &p[i].source;
            out.push(
                Indexed {
                    kind: s.kind,
                    owner_id: s.owner_id.clone(),
                    project: dup_opt(&s.project),
                    task_id: dup_opt(&s.task_id),
                    chunks,
                },
            );
        }
        i += 1;
    }
    out
}

/// Whether two sources are one entry with one text.
pub open spec fn same_text(a: SourceV, b: SourceV) -> bool {
    a.kind == b.kind && a.owner_id == b.owner_id && a.text_a == b.text_a && a.text_b == b.text_b
}

/// The vectors among the first `n` kept ones that were made of this text.
pub open spec fn kept_for(kept: Seq<PendingV>, s: SourceV, n: nat) -> Option<Seq<ChunkV>>
    decreases n,
{
    if n == 0 || n > kept.len() {
        None
    } else if same_text(kept[n - 1].source, s) {
        Some(kept[n - 1].vectors)
    } else {
        kept_for(kept, s, (n - 1) as nat)
    }
}

impl VectorCache {
    /// A copy that nothing was read into.
    pub fn new() -> (r: VectorCache)
        ensures
            r@ == (VectorCacheV {
                key: None,
                complete: false,
                entries: Seq::empty(),
                kept: Seq::empty(),
            }),
    {
        let r = VectorCache { key: None, complete: false, entries: Vec::new(), kept: Vec::new() };
        assert(r@.entries =~= Seq::empty());
        assert(r@.kept =~= Seq::empty());
        r
    }

    /// Bring the copy up to what is stored, and say what is still to embed:
    /// nothing where the copy is current and whole. `now` is read before the
    /// rows, so a commit in between makes the key stale and not the rows.
    pub fn begin(&mut self, now: CacheKey, e: &Engine, t: &Vec<VectorRow>, model: &Model) -> (r:
        Vec<Source>)
        ensures
            match plan_spec(old(self)@.key, old(self)@.complete, now) {
                Plan::Ready => *final(self) == *old(self) && r@.len() == 0,
                Plan::Scan => *final(self) == *old(self) && rows(r@) == missing(
                    e@,
                    rows(t@),
                    model.id@,
                ),
                Plan::Reload => final(self)@ == (VectorCacheV {
                    key: Some(now),
                    complete: false,
                    entries: loaded(e@, rows(t@), model.id@, model.blob_len as nat),
                    ..old(self)@
                }) && rows(r@) == missing(e@, rows(t@), model.id@),
            },
    {
        match plan(self.key, self.complete, now) {
            Plan::Ready => Vec::new(),
            Plan::Scan => scan_missing(e, t, model.id.as_str()),
            Plan::Reload => {
                self.entries = load(e, t, model);
                self.key = Some(now);
                self.complete = false;
                scan_missing(e, t, model.id.as_str())
            },
        }
    }

    /// What embedding this text gave before, where it could not be written.
    pub fn kept_vectors(&self, s: &Source) -> (r: Option<Vec<Chunk>>)
        ensures
            match r {
                Some(c) => kept_for(self@.kept, s@, self@.kept.len()) == Some(rows(c@)),
                None => kept_for(self@.kept, s@, self@.kept.len()) is None,
            },
    {
        let mut i: usize = self.kept.len();
        while i > 0
            invariant
                i <= self.kept@.len(),
                kept_for(self@.kept, s@, self@.kept.len()) == kept_for(
                    self@.kept,
                    s@,
                    i as nat,
                ),
            decreases i,
        {
            let k = &self.kept[i - 1];
            assert(self@.kept[i - 1] == k@);
            if k.source.kind == s.kind && same(k.source.owner_id.as_str(), s.owner_id.as_str())
                && same(k.source.text_a.as_str(), s.text_a.as_str()) && same(
                k.source.text_b.as_str(),
                s.text_b.as_str(),
            ) {
                return Some(dup_rows(&k.vectors));
            }
            i -= 1;
        }
        None
    }

    /// Take in what was embedded after [`VectorCache::begin`]: `stored` is how
    /// many entries were written, or nothing where none could be, and `after`
    /// what is read then. Gives the entries that serve this call alone.
    pub fn finish(
        &mut self,
        now: CacheKey,
        pending: Vec<Pending>,
        stored: Option<usize>,
        after: CacheKey,
        model: &Model,
    ) -> (r: Vec<Indexed>)
        ensures
            ({
                let s = settled_spec(now, pending@.len(), stored, after);
                let got = served(rows(pending@), model.blob_len as nat, pending@.len());
                &&& final(self)@ == (VectorCacheV {
                    key: s.key,
                    complete: s.complete,
                    entries: if s.absorbed {
                        old(self)@.entries + got
                    } else {
                        old(self)@.entries
                    },
                    kept: if s.absorbed {
                        Seq::empty()
                    } else {
                        rows(pending@)
                    },
                })
                &&& rows(r@) == if s.absorbed {
                    Seq::empty()
                } else {
                    got
                }
            }),
    {
        let s = settle(now, pending.len(), stored, after);
        let mut got = serve(&pending, model.blob_len);
        self.key = s.key;
        self.complete = s.complete;
        if s.absorbed {
            let ghost mine = self.entries@;
            let ghost more = got@;
            self.entries.append(&mut got);
            self.kept = Vec::new();
            assert(rows(self.entries@) =~= rows(mine) + rows(more));
            assert(rows(self.kept@) =~= Seq::empty());
            let none: Vec<Indexed> = Vec::new();
            assert(rows(none@) =~= Seq::empty());
            none
        } else {
            self.kept = pending;
            got
        }
    }

    /// Forget what the copy was read at: the next search reads it again.
    pub fn forget(&mut self)
        ensures
            final(self)@ == (VectorCacheV { key: None, ..old(self)@ }),
    {
        self.key = None;
    }
}

/// The text of a chunk, where there is one with this index.
pub open spec fn snippet_of(chunks: Seq<Seq<char>>, chunk: i64) -> Option<Seq<char>> {
    if 0 <= chunk < chunks.len() {
        Some(chunks[chunk as int])
    } else {
        None
    }
}

/// The chunk with this index of those that an entry's text was cut into.
pub fn semantic_snippet(chunks: &Vec<String>, chunk: i64) -> (r: Option<String>)
    ensures
        opt_view(r) == snippet_of(texts(chunks@), chunk),
{
    if chunk < 0 || chunk as u64 >= chunks.len() as u64 {
        None
    } else {
        Some(chunks[chunk as usize].clone())
    }
}

/// What was edited meanwhile is not written: where no entry holds its text any
/// more, the index stays as it is.
pub proof fn stale_text_stores_nothing(
    e: EngineV,
    t: Seq<VectorRowV>,
    p: Seq<PendingV>,
    model: Seq<char>,
    n: nat,
)
    requires
        n <= p.len(),
        forall|i: int| 0 <= i < n ==> !still_holds(e, (#[trigger] p[i]).source),
    ensures
        written(e, t, p, model, n) == (t, 0nat),
    decreases n,
{
    if n > 0 {
        assert(!still_holds(e, p[n - 1].source));
        stale_text_stores_nothing(e, t, p, model, (n - 1) as nat);
    }
}

/// Writing only adds rows: those that are there stay as they are.
pub proof fn rows_are_only_added(
    e: EngineV,
    t: Seq<VectorRowV>,
    p: Seq<PendingV>,
    model: Seq<char>,
    n: nat,
)
    ensures
        t.is_prefix_of(written(e, t, p, model, n).0),
    decreases n,
{
    if n > 0 && n <= p.len() {
        rows_are_only_added(e, t, p, model, (n - 1) as nat);
        let b = written(e, t, p, model, (n - 1) as nat).0;
        chunks_only_add(b, p[n - 1], model, p[n - 1].vectors.len());
    }
}

proof fn chunks_only_add(t: Seq<VectorRowV>, p: PendingV, model: Seq<char>, n: nat)
    ensures
        t.is_prefix_of(chunks_added(t, p, model, n)),
    decreases n,
{
    if n > 0 && n <= p.vectors.len() {
        chunks_only_add(t, p, model, (n - 1) as nat);
    }
}

proof fn rows_stay(a: Seq<VectorRowV>, b: Seq<VectorRowV>, kind: Kind, owner: Seq<char>, m: Seq<char>)
    requires
        a.is_prefix_of(b),
        has_row_for(a, kind, owner, m),
    ensures
        has_row_for(b, kind, owner, m),
{
    let i = choose|i: int|
        0 <= i < a.len() && (#[trigger] a[i]).kind == kind && a[i].owner_id == owner && a[i].model
            == m;
    assert(b[i] == a[i]);
}

proof fn added_has_row(t: Seq<VectorRowV>, r: VectorRowV)
    ensures
        has_row_for(row_added(t, r), r.kind, r.owner_id, r.model),
{
    let out = row_added(t, r);
    if out.len() > t.len() {
        assert(out[t.len() as int] == r);
    }
}

proof fn entry_has_row(t: Seq<VectorRowV>, p: PendingV, model: Seq<char>)
    ensures
        has_row_for(entry_added(t, p, model), p.source.kind, p.source.owner_id, model),
{
    if p.vectors.len() == 0 {
        added_has_row(t, sentinel_row(p.source, model));
    } else {
        let n = p.vectors.len();
        added_has_row(
            chunks_added(t, p, model, (n - 1) as nat),
            chunk_row(p.source, model, p.vectors[n - 1]),
        );
    }
}

proof fn written_has_rows(
    e: EngineV,
    t: Seq<VectorRowV>,
    p: Seq<PendingV>,
    model: Seq<char>,
    n: nat,
)
    requires
        n <= p.len(),
        forall|i: int| 0 <= i < n ==> still_holds(e, (#[trigger] p[i]).source),
    ensures
        written(e, t, p, model, n).1 == n,
        forall|i: int|
            0 <= i < n ==> has_row_for(
                written(e, t, p, model, n).0,
                (#[trigger] p[i]).source.kind,
                p[i].source.owner_id,
                model,
            ),
    decreases n,
{
    if n > 0 {
        assert(still_holds(e, p[n - 1].source));
        written_has_rows(e, t, p, model, (n - 1) as nat);
        let b = written(e, t, p, model, (n - 1) as nat).0;
        let out = written(e, t, p, model, n).0;
        entry_has_row(b, p[n - 1], model);
        chunks_only_add(b, p[n - 1], model, p[n - 1].vectors.len());
        assert forall|i: int| 0 <= i < n implies has_row_for(
            out,
            (#[trigger] p[i]).source.kind,
            p[i].source.owner_id,
            model,
        ) by {
            if i < n - 1 {
                rows_stay(b, out, p[i].source.kind, p[i].source.owner_id, model);
            }
        }
    }
}

/// What is missing holds its text, and where nothing of it is missing from
/// another index that has all rows of the first, nothing is missing there.
proof fn missing_docs_facts(
    e: EngineV,
    t: Seq<VectorRowV>,
    u: Seq<VectorRowV>,
    model: Seq<char>,
    n: nat,
)
    requires
        n <= e.docs.len(),
        t.is_prefix_of(u),
    ensures
        forall|i: int|
            0 <= i < missing_docs(e, t, model, n).len() ==> still_holds(
                e,
                #[trigger] missing_docs(e, t, model, n)[i],
            ),
        (forall|i: int|
            0 <= i < missing_docs(e, t, model, n).len() ==> has_row_for(
                u,
                (#[trigger] missing_docs(e, t, model, n)[i]).kind,
                missing_docs(e, t, model, n)[i].owner_id,
                model,
            )) ==> missing_docs(e, u, model, n) =~= Seq::empty(),
    decreases n,
{
    if n > 0 {
        let before = missing_docs(e, t, model, (n - 1) as nat);
        let now = missing_docs(e, t, model, n);
        let d = e.docs[n - 1];
        missing_docs_facts(e, t, u, model, (n - 1) as nat);
        assert forall|i: int| 0 <= i < now.len() implies still_holds(e, #[trigger] now[i]) by {
            if i < before.len() {
                assert(now[i] == before[i]);
            } else {
                assert(now[i] == doc_source(d));
                assert(e.docs[n - 1].id == now[i].owner_id);
            }
        }
        if forall|i: int|
            0 <= i < now.len() ==> has_row_for(
                u,
                (#[trigger] now[i]).kind,
                now[i].owner_id,
                model,
            ) {
            assert forall|i: int| 0 <= i < before.len() implies has_row_for(
                u,
                (#[trigger] before[i]).kind,
                before[i].owner_id,
                model,
            ) by {
                assert(now[i] == before[i]);
            }
            if has_row_for(t, Kind::Doc, d.id, model) {
                rows_stay(t, u, Kind::Doc, d.id, model);
            } else {
                assert(now[now.len() - 1] == doc_source(d));
            }
        }
    }
}

proof fn missing_notes_facts(
    e: EngineV,
    t: Seq<VectorRowV>,
    u: Seq<VectorRowV>,
    model: Seq<char>,
    s: Seq<SourceV>,
    n: nat,
)
    requires
        n <= e.annotations.len(),
        t.is_prefix_of(u),
        forall|i: int| 0 <= i < s.len() ==> still_holds(e, #[trigger] s[i]),
    ensures
        s.is_prefix_of(missing_notes(e, t, model, s, n)),
        forall|i: int|
            0 <= i < missing_notes(e, t, model, s, n).len() ==> still_holds(
                e,
                #[trigger] missing_notes(e, t, model, s, n)[i],
            ),
        (forall|i: int|
            0 <= i < missing_notes(e, t, model, s, n).len() ==> has_row_for(
                u,
                (#[trigger] missing_notes(e, t, model, s, n)[i]).kind,
                missing_notes(e, t, model, s, n)[i].owner_id,
                model,
            )) ==> missing_notes(e, u, model, Seq::empty(), n) =~= Seq::empty(),
    decreases n,
{
    if n > 0 {
        let before = missing_notes(e, t, model, s, (n - 1) as nat);
        let now = missing_notes(e, t, model, s, n);
        let a = e.annotations[n - 1];
        missing_notes_facts(e, t, u, model, s, (n - 1) as nat);
        assert forall|i: int| 0 <= i < now.len() implies still_holds(e, #[trigger] now[i]) by {
            if i < before.len() {
                assert(now[i] == before[i]);
            } else {
                assert(now[i] == note_source(e, a));
                assert(e.annotations[n - 1].id == now[i].owner_id);
            }
        }
        if forall|i: int|
            0 <= i < now.len() ==> has_row_for(
                u,
                (#[trigger] now[i]).kind,
                now[i].owner_id,
                model,
            ) {
            assert forall|i: int| 0 <= i < before.len() implies has_row_for(
                u,
                (#[trigger] before[i]).kind,
                before[i].owner_id,
                model,
            ) by {
                assert(now[i] == before[i]);
            }
            if has_row_for(t, Kind::Annotation, a.id, model) {
                rows_stay(t, u, Kind::Annotation, a.id, model);
            } else if note_counts(e, a) {
                assert(now[now.len() - 1] == note_source(e, a));
            }
        }
    }
}

/// Once what was missing is embedded and written, nothing is missing: a second
/// search writes nothing.
pub proof fn what_is_written_is_not_missing(
    e: EngineV,
    t: Seq<VectorRowV>,
    p: Seq<PendingV>,
    model: Seq<char>,
)
    requires
        p.len() == missing(e, t, model).len(),
        forall|i: int| 0 <= i < p.len() ==> (#[trigger] p[i]).source == missing(e, t, model)[i],
    ensures
        written(e, t, p, model, p.len()).1 == p.len(),
        missing(e, written(e, t, p, model, p.len()).0, model) =~= Seq::empty(),
{
    let m = missing(e, t, model);
    let u = written(e, t, p, model, p.len()).0;
    let docs = missing_docs(e, t, model, e.docs.len());
    rows_are_only_added(e, t, p, model, p.len());
    missing_docs_facts(e, t, u, model, e.docs.len());
    missing_notes_facts(e, t, u, model, docs, e.annotations.len());
    assert forall|i: int| 0 <= i < p.len() implies still_holds(e, (#[trigger] p[i]).source) by {
        assert(still_holds(e, m[i]));
    }
    written_has_rows(e, t, p, model, p.len());
    assert forall|i: int| 0 <= i < m.len() implies has_row_for(
        u,
        (#[trigger] m[i]).kind,
        m[i].owner_id,
        model,
    ) by {
        assert(p[i].source == m[i]);
    }
    assert forall|i: int| 0 <= i < docs.len() implies has_row_for(
        u,
        (#[trigger] docs[i]).kind,
        docs[i].owner_id,
        model,
    ) by {
        assert(m[i] == docs[i]);
    }
    assert(missing_docs(e, u, model, e.docs.len()) =~= Seq::empty());
}

/// What was embedded and could not be written is not embedded again: the
/// vectors are found for every text that was.
pub proof fn what_was_embedded_is_kept(kept: Seq<PendingV>, n: nat, i: int)
    requires
        0 <= i < n <= kept.len(),
    ensures
        kept_for(kept, kept[i].source, n) is Some,
    decreases n,
{
    if i < n - 1 {
        what_was_embedded_is_kept(kept, (n - 1) as nat, i);
    }
}

proof fn docs_are_loaded_once(
    e: EngineV,
    t: Seq<VectorRowV>,
    model: Seq<char>,
    len: nat,
    n: nat,
)
    requires
        e.wf(),
        n <= e.docs.len(),
    ensures
        loaded_once(loaded_docs(e, t, model, len, n)),
        forall|i: int|
            0 <= i < loaded_docs(e, t, model, len, n).len() ==> {
                let x = #[trigger] loaded_docs(e, t, model, len, n)[i];
                x.kind == Kind::Doc && exists|k: int|
                    0 <= k < n && (#[trigger] e.docs[k]).id == x.owner_id
            },
    decreases n,
{
    if n > 0 {
        docs_are_loaded_once(e, t, model, len, (n - 1) as nat);
        let b = loaded_docs(e, t, model, len, (n - 1) as nat);
        let r = loaded_docs(e, t, model, len, n);
        let d = e.docs[n - 1];
        assert forall|i: int| 0 <= i < r.len() implies {
            let x = #[trigger] r[i];
            x.kind == Kind::Doc && exists|k: int|
                0 <= k < n && (#[trigger] e.docs[k]).id == x.owner_id
        } by {
            if i < b.len() {
                assert(r[i] == b[i]);
            } else {
                assert(r[i].owner_id == d.id);
            }
        }
        assert forall|i: int, j: int| 0 <= i < j < r.len() implies !((#[trigger] r[i]).kind == (
        #[trigger] r[j]).kind && r[i].owner_id == r[j].owner_id) by {
            assert(r[i] == b[i]);
            if j < b.len() {
                assert(r[j] == b[j]);
            } else {
                let k = choose|k: int| 0 <= k < n - 1 && (#[trigger] e.docs[k]).id == b[i].owner_id;
                assert(text_lt(Doc::key_of(e.docs[k]), Doc::key_of(e.docs[n - 1])));
                text_lt_irreflexive(d.id);
            }
        }
    }
}

proof fn notes_are_loaded_once(
    e: EngineV,
    t: Seq<VectorRowV>,
    model: Seq<char>,
    len: nat,
    s: Seq<IndexedV>,
    n: nat,
)
    requires
        ids_differ::<Annotation>(e.annotations),
        n <= e.annotations.len(),
        loaded_once(s),
        forall|i: int| 0 <= i < s.len() ==> (#[trigger] s[i]).kind == Kind::Doc,
    ensures
        loaded_once(loaded_notes(e, t, model, len, s, n)),
        forall|i: int|
            0 <= i < loaded_notes(e, t, model, len, s, n).len() ==> {
                let x = #[trigger] loaded_notes(e, t, model, len, s, n)[i];
                x.kind == Kind::Doc || exists|k: int|
                    0 <= k < n && (#[trigger] e.annotations[k]).id == x.owner_id
            },
    decreases n,
{
    if n > 0 {
        notes_are_loaded_once(e, t, model, len, s, (n - 1) as nat);
        let b = loaded_notes(e, t, model, len, s, (n - 1) as nat);
        let r = loaded_notes(e, t, model, len, s, n);
        let a = e.annotations[n - 1];
        assert forall|i: int| 0 <= i < r.len() implies {
            let x = #[trigger] r[i];
            x.kind == Kind::Doc || exists|k: int|
                0 <= k < n && (#[trigger] e.annotations[k]).id == x.owner_id
        } by {
            if i < b.len() {
                assert(r[i] == b[i]);
            } else {
                assert(r[i].owner_id == a.id);
            }
        }
        assert forall|i: int, j: int| 0 <= i < j < r.len() implies !((#[trigger] r[i]).kind == (
        #[trigger] r[j]).kind && r[i].owner_id == r[j].owner_id) by {
            assert(r[i] == b[i]);
            if j < b.len() {
                assert(r[j] == b[j]);
            } else if b[i].kind == Kind::Annotation {
                let k = choose|k: int|
                    0 <= k < n - 1 && (#[trigger] e.annotations[k]).id == b[i].owner_id;
                assert(Annotation::id_of(e.annotations[k]) != Annotation::id_of(
                    e.annotations[n - 1],
                ));
            }
        }
    }
}

/// Whether no entry stands in a list twice, by its kind and its id.
pub open spec fn loaded_once(v: Seq<IndexedV>) -> bool {
    forall|i: int, j: int|
        0 <= i < j < v.len() ==> !((#[trigger] v[i]).kind == (#[trigger] v[j]).kind
            && v[i].owner_id == v[j].owner_id)
}

/// A copy of the index holds each entry once.
pub proof fn a_copy_holds_each_entry_once(
    e: EngineV,
    t: Seq<VectorRowV>,
    model: Seq<char>,
    len: nat,
)
    requires
        e.wf(),
        ids_differ::<Annotation>(e.annotations),
    ensures
        loaded_once(loaded(e, t, model, len)),
{
    docs_are_loaded_once(e, t, model, len, e.docs.len());
    let s = loaded_docs(e, t, model, len, e.docs.len());
    notes_are_loaded_once(e, t, model, len, s, e.annotations.len());
}

/// Whether a note was removed: every row with its id was.
pub open spec fn was_removed(e: EngineV, id: Seq<char>) -> bool {
    forall|i: int|
        0 <= i < e.annotations.len() && (#[trigger] e.annotations[i]).id == id
            ==> e.annotations[i].removed is Some
}

proof fn docs_missing_are_docs(e: EngineV, t: Seq<VectorRowV>, model: Seq<char>, n: nat)
    ensures
        forall|i: int|
            0 <= i < missing_docs(e, t, model, n).len() ==> (#[trigger] missing_docs(
                e,
                t,
                model,
                n,
            )[i]).kind == Kind::Doc,
    decreases n,
{
    if 0 < n <= e.docs.len() {
        docs_missing_are_docs(e, t, model, (n - 1) as nat);
    }
}

proof fn docs_loaded_are_docs(
    e: EngineV,
    t: Seq<VectorRowV>,
    model: Seq<char>,
    len: nat,
    n: nat,
)
    ensures
        forall|i: int|
            0 <= i < loaded_docs(e, t, model, len, n).len() ==> (#[trigger] loaded_docs(
                e,
                t,
                model,
                len,
                n,
            )[i]).kind == Kind::Doc,
    decreases n,
{
    if 0 < n <= e.docs.len() {
        docs_loaded_are_docs(e, t, model, len, (n - 1) as nat);
    }
}

proof fn removed_is_not_missing(
    e: EngineV,
    t: Seq<VectorRowV>,
    model: Seq<char>,
    s: Seq<SourceV>,
    n: nat,
    id: Seq<char>,
)
    requires
        was_removed(e, id),
        forall|i: int| 0 <= i < s.len() ==> (#[trigger] s[i]).kind == Kind::Doc,
    ensures
        forall|i: int|
            0 <= i < missing_notes(e, t, model, s, n).len() ==> {
                let x = #[trigger] missing_notes(e, t, model, s, n)[i];
                x.kind == Kind::Doc || x.owner_id != id
            },
    decreases n,
{
    if 0 < n <= e.annotations.len() {
        removed_is_not_missing(e, t, model, s, (n - 1) as nat, id);
    }
}

proof fn removed_is_not_loaded(
    e: EngineV,
    t: Seq<VectorRowV>,
    model: Seq<char>,
    len: nat,
    s: Seq<IndexedV>,
    n: nat,
    id: Seq<char>,
)
    requires
        was_removed(e, id),
        forall|i: int| 0 <= i < s.len() ==> (#[trigger] s[i]).kind == Kind::Doc,
    ensures
        forall|i: int|
            0 <= i < loaded_notes(e, t, model, len, s, n).len() ==> {
                let x = #[trigger] loaded_notes(e, t, model, len, s, n)[i];
                x.kind == Kind::Doc || x.owner_id != id
            },
    decreases n,
{
    if 0 < n <= e.annotations.len() {
        removed_is_not_loaded(e, t, model, len, s, (n - 1) as nat, id);
    }
}

/// A note that was removed is not embedded, not read into a copy, and what was
/// embedded before it was removed is not written.
pub proof fn removed_notes_are_not_indexed(
    e: EngineV,
    t: Seq<VectorRowV>,
    model: Seq<char>,
    len: nat,
    id: Seq<char>,
    s: SourceV,
)
    requires
        was_removed(e, id),
        s.kind == Kind::Annotation,
        s.owner_id == id,
    ensures
        forall|i: int|
            0 <= i < missing(e, t, model).len() ==> {
                let x = #[trigger] missing(e, t, model)[i];
                x.kind == Kind::Doc || x.owner_id != id
            },
        forall|i: int|
            0 <= i < loaded(e, t, model, len).len() ==> {
                let x = #[trigger] loaded(e, t, model, len)[i];
                x.kind == Kind::Doc || x.owner_id != id
            },
        !still_holds(e, s),
{
    docs_missing_are_docs(e, t, model, e.docs.len());
    docs_loaded_are_docs(e, t, model, len, e.docs.len());
    removed_is_not_missing(
        e,
        t,
        model,
        missing_docs(e, t, model, e.docs.len()),
        e.annotations.len(),
        id,
    );
    removed_is_not_loaded(
        e,
        t,
        model,
        len,
        loaded_docs(e, t, model, len, e.docs.len()),
        e.annotations.len(),
        id,
    );
}

} // verus!
