//! The semantic list: which entries a query finds, and when the index is read
//! and written.
//!
//! A similarity is a cosine rounded to three decimals, in thousandths. The
//! caller embeds texts and measures; what is found, in which order and from
//! which copy is decided here.

use crate::expr::opt_str_view;
use crate::rows::Annotation;
use crate::rows::Doc;
use crate::rows::rows;
use crate::tables::text_before;
use crate::tables::text_lt;
use crate::tables::text_lt_irreflexive;
use crate::tables::text_lt_total;
use crate::tables::text_lt_transitive;
use crate::text::same;
use crate::value::opt_view;
use vstd::prelude::*;

verus! {

broadcast use {vstd::string::group_string_axioms, crate::rows::rows_push};

/// What a vector belongs to. Ordered as the words are.
#[derive(Clone, Copy, Debug, PartialEq, Eq, PartialOrd, Ord, Hash, Structural)]
pub enum Kind {
    Annotation,
    Doc,
}

impl Kind {
    /// The word for this kind.
    pub open spec fn name(self) -> Seq<char> {
        match self {
            Kind::Annotation => "annotation"@,
            Kind::Doc => "doc"@,
        }
    }

    /// The word for this kind.
    pub fn as_str(self) -> (r: &'static str)
        ensures
            r@ == self.name(),
    {
        match self {
            Kind::Annotation => "annotation",
            Kind::Doc => "doc",
        }
    }

    /// The place of this kind in the order.
    pub open spec fn rank(self) -> int {
        match self {
            Kind::Annotation => 0,
            Kind::Doc => 1,
        }
    }

    fn place(self) -> (r: i64)
        ensures
            r == self.rank(),
    {
        match self {
            Kind::Annotation => 0,
            Kind::Doc => 1,
        }
    }
}

/// Kinds are ordered as their words are.
pub proof fn kinds_are_ordered_as_their_words(a: Kind, b: Kind)
    ensures
        a.rank() < b.rank() <==> text_lt(a.name(), b.name()),
{
    reveal_strlit("annotation");
    reveal_strlit("doc");
    assert("annotation"@[0] == 'a' && "doc"@[0] == 'd');
    assert("annotation"@.len() == 10 && "doc"@.len() == 3);
    text_lt_irreflexive("annotation"@);
    text_lt_irreflexive("doc"@);
}

/// Which entries a search is about.
pub struct SemanticFilter<'a> {
    /// `docs`, `annotations`, or anything else for both.
    pub scope: &'a str,
    pub project: Option<&'a str>,
    /// Whether a project widens to entries without one.
    pub include_unscoped: bool,
    /// A task whose own notes are left out.
    pub exclude_task: Option<&'a str>,
    /// The least similarity, in thousandths.
    pub min_similarity: i64,
    /// How many hits to give.
    pub depth: usize,
}

/// What a [`SemanticFilter`] says.
pub ghost struct FilterV {
    pub scope: Seq<char>,
    pub project: Option<Seq<char>>,
    pub include_unscoped: bool,
    pub exclude_task: Option<Seq<char>>,
    pub min_similarity: i64,
    pub depth: nat,
}

impl<'a> View for SemanticFilter<'a> {
    type V = FilterV;

    open spec fn view(&self) -> FilterV {
        FilterV {
            scope: self.scope@,
            project: opt_str_view(self.project),
            include_unscoped: self.include_unscoped,
            exclude_task: opt_str_view(self.exclude_task),
            min_similarity: self.min_similarity,
            depth: self.depth as nat,
        }
    }
}

/// An entry and how similar each of its chunks is to a query.
pub struct Entry {
    pub kind: Kind,
    pub owner_id: String,
    pub project: Option<String>,
    /// The task of a note.
    pub task_id: Option<String>,
    /// The index of each chunk that has a vector, and its similarity.
    pub chunks: Vec<(i64, i64)>,
}

/// What an [`Entry`] says.
pub ghost struct EntryV {
    pub kind: Kind,
    pub owner_id: Seq<char>,
    pub project: Option<Seq<char>>,
    pub task_id: Option<Seq<char>>,
    pub chunks: Seq<(i64, i64)>,
}

impl View for Entry {
    type V = EntryV;

    open spec fn view(&self) -> EntryV {
        EntryV {
            kind: self.kind,
            owner_id: self.owner_id@,
            project: opt_view(self.project),
            task_id: opt_view(self.task_id),
            chunks: self.chunks@,
        }
    }
}

/// One entry's best chunk.
#[derive(Debug)]
pub struct SemanticHit {
    pub kind: Kind,
    pub owner_id: String,
    pub chunk: i64,
    pub similarity: i64,
}

/// What a [`SemanticHit`] says.
pub ghost struct HitV {
    pub kind: Kind,
    pub owner_id: Seq<char>,
    pub chunk: i64,
    pub similarity: i64,
}

impl View for SemanticHit {
    type V = HitV;

    open spec fn view(&self) -> HitV {
        HitV {
            kind: self.kind,
            owner_id: self.owner_id@,
            chunk: self.chunk,
            similarity: self.similarity,
        }
    }
}

/// The semantic list: the first hits, and how many entries there were.
#[derive(Debug)]
pub struct SemanticHits {
    pub hits: Vec<SemanticHit>,
    pub total: usize,
}

/// Whether an entry is one a search is about.
pub open spec fn in_filter_spec(e: EntryV, f: FilterV) -> bool {
    let scoped = if f.scope == "docs"@ {
        e.kind == Kind::Doc
    } else if f.scope == "annotations"@ {
        e.kind == Kind::Annotation
    } else {
        true
    };
    let in_project = match f.project {
        None => true,
        Some(p) => match e.project {
            Some(q) => q == p,
            None => f.include_unscoped,
        },
    };
    let excluded = f.exclude_task is Some && e.task_id == f.exclude_task;
    scoped && in_project && !excluded
}

/// Whether an entry is one a search is about.
pub fn in_filter(e: &Entry, f: &SemanticFilter) -> (r: bool)
    ensures
        r == in_filter_spec(e@, f@),
{
    let scoped: bool = if same(f.scope, "docs") {
        e.kind == Kind::Doc
    } else if same(f.scope, "annotations") {
        e.kind == Kind::Annotation
    } else {
        true
    };
    let in_project: bool = match f.project {
        None => true,
        Some(p) => match &e.project {
            Some(q) => same(q.as_str(), p),
            None => f.include_unscoped,
        },
    };
    let excluded: bool = match (f.exclude_task, &e.task_id) {
        (Some(x), Some(t)) => same(t.as_str(), x),
        _ => false,
    };
    scoped && in_project && !excluded
}

/// The best of the first `n` chunks: the most similar, and of equals the one
/// that comes first in the text.
pub open spec fn best_of(c: Seq<(i64, i64)>, n: nat) -> Option<(i64, i64)>
    decreases n,
{
    if n == 0 || n > c.len() {
        None
    } else {
        let here = c[n - 1];
        match best_of(c, (n - 1) as nat) {
            None => Some(here),
            Some(top) => if here.1 > top.1 || (here.1 == top.1 && here.0 < top.0) {
                Some(here)
            } else {
                Some(top)
            },
        }
    }
}

/// The best chunk of an entry.
pub fn best(e: &Entry) -> (r: Option<(i64, i64)>)
    ensures
        r == best_of(e@.chunks, e@.chunks.len()),
{
    let mut top: Option<(i64, i64)> = None;
    let mut i: usize = 0;
    while i < e.chunks.len()
        invariant
            i <= e.chunks@.len(),
            top == best_of(e@.chunks, i as nat),
        decreases e.chunks@.len() - i,
    {
        let here: (i64, i64) = e.chunks[i];
        top = match top {
            None => Some(here),
            Some(t) => if here.1 > t.1 || (here.1 == t.1 && here.0 < t.0) {
                Some(here)
            } else {
                Some(t)
            },
        };
        i += 1;
    }
    top
}

/// No chunk is better than the best.
pub proof fn best_is_best(c: Seq<(i64, i64)>, n: nat, i: int)
    requires
        0 <= i < n <= c.len(),
    ensures
        best_of(c, n) matches Some(b) && (b.1 > c[i].1 || (b.1 == c[i].1 && b.0 <= c[i].0)),
    decreases n,
{
    if i < n - 1 {
        best_is_best(c, (n - 1) as nat, i);
    }
}

/// The hit of an entry, where the entry is one a search is about and its best
/// chunk is similar enough.
pub open spec fn hit_of(e: EntryV, f: FilterV) -> Option<HitV> {
    if !in_filter_spec(e, f) {
        None
    } else {
        match best_of(e.chunks, e.chunks.len()) {
            None => None,
            Some(b) => if b.1 >= f.min_similarity {
                Some(
                    HitV {
                        kind: e.kind,
                        owner_id: e.owner_id,
                        chunk: b.0,
                        similarity: b.1,
                    },
                )
            } else {
                None
            },
        }
    }
}

/// Whether one hit comes before another: the more similar first, then by kind,
/// then by id.
pub open spec fn comes_before(a: HitV, b: HitV) -> bool {
    if a.similarity != b.similarity {
        a.similarity > b.similarity
    } else if a.kind != b.kind {
        a.kind.rank() < b.kind.rank()
    } else {
        text_lt(a.owner_id, b.owner_id)
    }
}

fn before(a: &SemanticHit, b: &SemanticHit) -> (r: bool)
    ensures
        r == comes_before(a@, b@),
{
    if a.similarity != b.similarity {
        a.similarity > b.similarity
    } else if a.kind != b.kind {
        a.kind.place() < b.kind.place()
    } else {
        text_before(a.owner_id.as_str(), b.owner_id.as_str())
    }
}

/// A list of hits with one more where it belongs.
pub open spec fn hit_put(s: Seq<HitV>, h: HitV) -> Seq<HitV>
    decreases s.len(),
{
    if s.len() == 0 {
        seq![h]
    } else if comes_before(h, s.last()) {
        hit_put(s.drop_last(), h).push(s.last())
    } else {
        s.push(h)
    }
}

/// The hits of the first `n` entries, in order, after those of `s`.
pub open spec fn hits_of(v: Seq<EntryV>, f: FilterV, s: Seq<HitV>, n: nat) -> Seq<HitV>
    decreases n,
{
    if n == 0 || n > v.len() {
        s
    } else {
        let before = hits_of(v, f, s, (n - 1) as nat);
        match hit_of(v[n - 1], f) {
            Some(h) => hit_put(before, h),
            None => before,
        }
    }
}

/// Whether an entry stands in a list, by its kind and its id.
pub open spec fn stands_in(v: Seq<EntryV>, e: EntryV) -> bool {
    exists|i: int|
        0 <= i < v.len() && (#[trigger] v[i]).kind == e.kind && v[i].owner_id == e.owner_id
}

/// The first `n` entries of the copy, those that were not just embedded again.
pub open spec fn not_fresh(cached: Seq<EntryV>, fresh: Seq<EntryV>, n: nat) -> Seq<EntryV>
    decreases n,
{
    if n == 0 || n > cached.len() {
        Seq::empty()
    } else if stands_in(fresh, cached[n - 1]) {
        not_fresh(cached, fresh, (n - 1) as nat)
    } else {
        not_fresh(cached, fresh, (n - 1) as nat).push(cached[n - 1])
    }
}

/// All hits of a search: those of the copy that were not embedded again, and
/// those that were.
pub open spec fn all_hits(cached: Seq<EntryV>, fresh: Seq<EntryV>, f: FilterV) -> Seq<HitV> {
    let old = not_fresh(cached, fresh, cached.len());
    hits_of(fresh, f, hits_of(old, f, Seq::empty(), old.len()), fresh.len())
}

/// The first `depth` of a list.
pub open spec fn cut_to(s: Seq<HitV>, depth: nat) -> Seq<HitV> {
    if depth < s.len() {
        s.take(depth as int)
    } else {
        s
    }
}

fn put_hit(v: &mut Vec<SemanticHit>, h: SemanticHit)
    ensures
        rows(final(v)@) == hit_put(rows(old(v)@), h@),
{
    let ghost was = rows(v@);
    let mut i: usize = v.len();
    assert(was.take(i as int) =~= was);
    assert(hit_put(was, h@) =~= hit_put(was.take(i as int), h@) + was.skip(i as int));
    while i > 0
        invariant
            was == rows(v@),
            v@ == old(v)@,
            i <= v@.len(),
            hit_put(was, h@) =~= hit_put(was.take(i as int), h@) + was.skip(i as int),
        decreases i,
    {
        let ghost now = was.take(i as int);
        assert(now.drop_last() =~= was.take(i - 1));
        assert(now.last() == v@[i - 1]@);
        if !before(&h, &v[i - 1]) {
            v.insert(i, h);
            assert(rows(v@) =~= was.take(i as int).push(h@) + was.skip(i as int));
            return;
        }
        assert(was.skip(i - 1) =~= seq![now.last()] + was.skip(i as int));
        i -= 1;
    }
    assert(was.take(0) =~= Seq::empty());
    v.insert(0, h);
    assert(rows(v@) =~= seq![h@] + was.skip(0));
}

fn hit(e: &Entry, f: &SemanticFilter) -> (r: Option<SemanticHit>)
    ensures
        match r {
            Some(h) => hit_of(e@, f@) == Some(h@),
            None => hit_of(e@, f@) is None,
        },
{
    if !in_filter(e, f) {
        return None;
    }
    match best(e) {
        None => None,
        Some(b) => if b.1 >= f.min_similarity {
            Some(
                SemanticHit {
                    kind: e.kind,
                    owner_id: e.owner_id.clone(),
                    chunk: b.0,
                    similarity: b.1,
                },
            )
        } else {
            None
        },
    }
}

fn is_fresh(fresh: &Vec<Entry>, e: &Entry) -> (r: bool)
    ensures
        r == stands_in(rows(fresh@), e@),
{
    let mut i: usize = 0;
    while i < fresh.len()
        invariant
            i <= fresh@.len(),
            forall|k: int|
                0 <= k < i ==> !((#[trigger] rows(fresh@)[k]).kind == e@.kind && rows(
                    fresh@,
                )[k].owner_id == e@.owner_id),
        decreases fresh@.len() - i,
    {
        assert(rows(fresh@)[i as int] == fresh@[i as int]@);
        if fresh[i].kind == e.kind && same(fresh[i].owner_id.as_str(), e.owner_id.as_str()) {
            return true;
        }
        i += 1;
    }
    false
}

/// The hits of the copy that was not embedded again are the hits of the whole
/// copy without those that were.
proof fn hits_of_push(v: Seq<EntryV>, e: EntryV, f: FilterV, s: Seq<HitV>, n: nat)
    requires
        n <= v.len(),
    ensures
        hits_of(v.push(e), f, s, n) == hits_of(v, f, s, n),
    decreases n,
{
    if n > 0 {
        hits_of_push(v, e, f, s, (n - 1) as nat);
    }
}

/// The semantic list: every entry in the filter whose best chunk is at or above
/// the floor, best first, then by kind and id; the first of them, and how many
/// there were. `cached` is the copy in memory and `fresh` what was embedded for
/// this call: an entry in both counts as it was just embedded.
pub fn semantic_candidates(cached: &Vec<Entry>, fresh: &Vec<Entry>, f: &SemanticFilter) -> (r:
    SemanticHits)
    ensures
        rows(r.hits@) == cut_to(all_hits(rows(cached@), rows(fresh@), f@), f@.depth),
        r.total == all_hits(rows(cached@), rows(fresh@), f@).len(),
{
    let ghost cv = rows(cached@);
    let ghost fv = rows(fresh@);
    let mut hits: Vec<SemanticHit> = Vec::new();
    let mut i: usize = 0;
    assert(rows(hits@) =~= Seq::empty());
    while i < cached.len()
        invariant
            i <= cached@.len(),
            cv == rows(cached@),
            fv == rows(fresh@),
            rows(hits@) == hits_of(
                not_fresh(cv, fv, i as nat),
                f@,
                Seq::empty(),
                not_fresh(cv, fv, i as nat).len(),
            ),
        decreases cached@.len() - i,
    {
        assert(cv[i as int] == cached@[i as int]@);
        if !is_fresh(fresh, &cached[i]) {
            proof {
                let old = not_fresh(cv, fv, i as nat);
                hits_of_push(old, cv[i as int], f@, Seq::empty(), old.len());
            }
            if let Some(h) = hit(&cached[i], f) {
                put_hit(&mut hits, h);
            }
        }
        i += 1;
    }
    let ghost start = rows(hits@);
    let mut j: usize = 0;
    while j < fresh.len()
        invariant
            j <= fresh@.len(),
            fv == rows(fresh@),
            rows(hits@) == hits_of(fv, f@, start, j as nat),
        decreases fresh@.len() - j,
    {
        assert(fv[j as int] == fresh@[j as int]@);
        if let Some(h) = hit(&fresh[j], f) {
            put_hit(&mut hits, h);
        }
        j += 1;
    }
    let ghost all = rows(hits@);
    assert(all.len() == hits@.len());
    let total: usize = hits.len();
    if f.depth < total {
        hits.truncate(f.depth);
        assert(rows(hits@) =~= all.take(f.depth as int));
    }
    SemanticHits { hits, total }
}

/// Whether a list of hits is in order.
pub open spec fn in_order(s: Seq<HitV>) -> bool {
    forall|i: int, j: int|
        0 <= i < j < s.len() ==> !comes_before(#[trigger] s[j], #[trigger] s[i])
}

proof fn order_is_transitive(a: HitV, b: HitV, c: HitV)
    requires
        !comes_before(b, a),
        !comes_before(c, b),
    ensures
        !comes_before(c, a),
{
    text_lt_total(a.owner_id, b.owner_id);
    text_lt_total(b.owner_id, c.owner_id);
    text_lt_total(a.owner_id, c.owner_id);
    if text_lt(c.owner_id, a.owner_id) && text_lt(a.owner_id, b.owner_id) {
        text_lt_transitive(c.owner_id, a.owner_id, b.owner_id);
    }
    if text_lt(c.owner_id, a.owner_id) && text_lt(b.owner_id, c.owner_id) {
        text_lt_transitive(b.owner_id, c.owner_id, a.owner_id);
    }
    text_lt_irreflexive(a.owner_id);
    text_lt_irreflexive(b.owner_id);
    text_lt_irreflexive(c.owner_id);
}

/// What a list with one more hit holds.
pub proof fn put_members(s: Seq<HitV>, h: HitV, i: int)
    requires
        0 <= i < hit_put(s, h).len(),
    ensures
        hit_put(s, h)[i] == h || s.contains(hit_put(s, h)[i]),
        hit_put(s, h).len() == s.len() + 1,
    decreases s.len(),
{
    if s.len() > 0 && comes_before(h, s.last()) {
        let d = s.drop_last();
        let p = hit_put(d, h);
        put_length(d, h);
        if i < p.len() {
            put_members(d, h, i);
            assert(hit_put(s, h)[i] == p[i]);
            if p[i] != h {
                let k = choose|k: int| 0 <= k < d.len() && d[k] == p[i];
                assert(s[k] == p[i]);
            }
        } else {
            assert(s[s.len() - 1] == hit_put(s, h)[i]);
        }
    } else if i < s.len() {
        assert(s[i] == hit_put(s, h)[i]);
    }
}

proof fn put_length(s: Seq<HitV>, h: HitV)
    ensures
        hit_put(s, h).len() == s.len() + 1,
    decreases s.len(),
{
    if s.len() > 0 && comes_before(h, s.last()) {
        put_length(s.drop_last(), h);
    }
}

proof fn put_keeps_order_of_hits(s: Seq<HitV>, h: HitV)
    requires
        in_order(s),
    ensures
        in_order(hit_put(s, h)),
    decreases s.len(),
{
    let r = hit_put(s, h);
    if s.len() == 0 {
    } else if comes_before(h, s.last()) {
        let d = s.drop_last();
        let p = hit_put(d, h);
        let n = s.len() - 1;
        assert(in_order(d)) by {
            assert forall|i: int, j: int| 0 <= i < j < d.len() implies !comes_before(
                #[trigger] d[j],
                #[trigger] d[i],
            ) by {
                assert(!comes_before(s[j], s[i]));
            }
        }
        put_keeps_order_of_hits(d, h);
        put_length(d, h);
        assert forall|i: int, j: int| 0 <= i < j < r.len() implies !comes_before(
            #[trigger] r[j],
            #[trigger] r[i],
        ) by {
            if j < p.len() {
                assert(r[i] == p[i] && r[j] == p[j]);
            } else {
                assert(r[i] == p[i] && r[j] == s[n]);
                put_members(d, h, i);
                if p[i] == h {
                    text_lt_irreflexive(h.owner_id);
                    if text_lt(h.owner_id, s[n].owner_id) && text_lt(s[n].owner_id, h.owner_id) {
                        text_lt_transitive(h.owner_id, s[n].owner_id, h.owner_id);
                    }
                } else {
                    let k = choose|k: int| 0 <= k < d.len() && d[k] == p[i];
                    assert(!comes_before(s[n], s[k]));
                }
            }
        }
    } else {
        let n = s.len() - 1;
        assert forall|i: int, j: int| 0 <= i < j < r.len() implies !comes_before(
            #[trigger] r[j],
            #[trigger] r[i],
        ) by {
            if j < s.len() {
                assert(!comes_before(s[j], s[i]));
            } else if i < n {
                assert(!comes_before(s[n], s[i]));
                order_is_transitive(s[i], s[n], h);
            }
        }
    }
}

proof fn hits_stay_in_order(v: Seq<EntryV>, f: FilterV, s: Seq<HitV>, n: nat)
    requires
        in_order(s),
        n <= v.len(),
    ensures
        in_order(hits_of(v, f, s, n)),
    decreases n,
{
    if n > 0 {
        hits_stay_in_order(v, f, s, (n - 1) as nat);
        if let Some(h) = hit_of(v[n - 1], f) {
            put_keeps_order_of_hits(hits_of(v, f, s, (n - 1) as nat), h);
        }
    }
}

/// A search's hits are ordered: the most similar first, then by kind and id.
pub proof fn hits_are_in_order(cached: Seq<EntryV>, fresh: Seq<EntryV>, f: FilterV)
    ensures
        in_order(all_hits(cached, fresh, f)),
        in_order(cut_to(all_hits(cached, fresh, f), f.depth)),
{
    let old = not_fresh(cached, fresh, cached.len());
    hits_stay_in_order(old, f, Seq::empty(), old.len());
    hits_stay_in_order(fresh, f, hits_of(old, f, Seq::empty(), old.len()), fresh.len());
    let all = all_hits(cached, fresh, f);
    let cut = cut_to(all, f.depth);
    assert forall|i: int, j: int| 0 <= i < j < cut.len() implies !comes_before(
        #[trigger] cut[j],
        #[trigger] cut[i],
    ) by {
        assert(cut[i] == all[i] && cut[j] == all[j]);
    }
}

/// Whether every hit of a list is at or above a floor.
pub open spec fn floored(s: Seq<HitV>, floor: i64) -> bool {
    forall|i: int| 0 <= i < s.len() ==> (#[trigger] s[i]).similarity >= floor
}

proof fn hits_are_floored(v: Seq<EntryV>, f: FilterV, s: Seq<HitV>, n: nat)
    requires
        floored(s, f.min_similarity),
        n <= v.len(),
    ensures
        floored(hits_of(v, f, s, n), f.min_similarity),
    decreases n,
{
    if n > 0 {
        hits_are_floored(v, f, s, (n - 1) as nat);
        let b = hits_of(v, f, s, (n - 1) as nat);
        if let Some(h) = hit_of(v[n - 1], f) {
            let r = hit_put(b, h);
            assert forall|i: int| 0 <= i < r.len() implies (#[trigger] r[i]).similarity
                >= f.min_similarity by {
                put_members(b, h, i);
                if r[i] != h {
                    let k = choose|k: int| 0 <= k < b.len() && b[k] == r[i];
                    assert(b[k].similarity >= f.min_similarity);
                }
            }
        }
    }
}

/// No hit is below the floor.
pub proof fn no_hit_is_below_the_floor(cached: Seq<EntryV>, fresh: Seq<EntryV>, f: FilterV)
    ensures
        floored(all_hits(cached, fresh, f), f.min_similarity),
{
    let old = not_fresh(cached, fresh, cached.len());
    hits_are_floored(old, f, Seq::empty(), old.len());
    hits_are_floored(fresh, f, hits_of(old, f, Seq::empty(), old.len()), fresh.len());
}

proof fn put_holds(s: Seq<HitV>, h: HitV, x: HitV)
    requires
        x == h || s.contains(x),
    ensures
        hit_put(s, h).contains(x),
    decreases s.len(),
{
    let r = hit_put(s, h);
    if s.len() == 0 {
        assert(r[0] == h);
    } else if comes_before(h, s.last()) {
        let d = s.drop_last();
        let p = hit_put(d, h);
        if x == h || d.contains(x) {
            put_holds(d, h, x);
            let k = choose|k: int| 0 <= k < p.len() && p[k] == x;
            assert(r[k] == x);
        } else {
            let k = choose|k: int| 0 <= k < s.len() && s[k] == x;
            if k < s.len() - 1 {
                assert(d[k] == x);
            }
            assert(r[p.len() as int] == x);
        }
    } else if x == h {
        assert(r[s.len() as int] == x);
    } else {
        let k = choose|k: int| 0 <= k < s.len() && s[k] == x;
        assert(r[k] == x);
    }
}

proof fn hits_hold(v: Seq<EntryV>, f: FilterV, s: Seq<HitV>, n: nat, x: HitV)
    requires
        n <= v.len(),
        s.contains(x) || exists|i: int| 0 <= i < n && hit_of(#[trigger] v[i], f) == Some(x),
    ensures
        hits_of(v, f, s, n).contains(x),
    decreases n,
{
    if n > 0 {
        let b = hits_of(v, f, s, (n - 1) as nat);
        if hit_of(v[n - 1], f) != Some(x) {
            hits_hold(v, f, s, (n - 1) as nat, x);
        }
        if let Some(h) = hit_of(v[n - 1], f) {
            put_holds(b, h, x);
        }
    }
}

proof fn copies_stay(cached: Seq<EntryV>, fresh: Seq<EntryV>, n: nat, i: int)
    requires
        0 <= i < n <= cached.len(),
        !stands_in(fresh, cached[i]),
    ensures
        not_fresh(cached, fresh, n).contains(cached[i]),
    decreases n,
{
    let b = not_fresh(cached, fresh, (n - 1) as nat);
    let r = not_fresh(cached, fresh, n);
    if i < n - 1 {
        copies_stay(cached, fresh, (n - 1) as nat, i);
        let k = choose|k: int| 0 <= k < b.len() && b[k] == cached[i];
        assert(r[k] == cached[i]);
    } else {
        assert(r[b.len() as int] == cached[i]);
    }
}

/// How many of the first `n` entries have a hit.
pub open spec fn matches_in(v: Seq<EntryV>, f: FilterV, n: nat) -> nat
    decreases n,
{
    if n == 0 || n > v.len() {
        0
    } else if hit_of(v[n - 1], f) is Some {
        matches_in(v, f, (n - 1) as nat) + 1
    } else {
        matches_in(v, f, (n - 1) as nat)
    }
}

proof fn hits_are_counted(v: Seq<EntryV>, f: FilterV, s: Seq<HitV>, n: nat)
    requires
        n <= v.len(),
    ensures
        hits_of(v, f, s, n).len() == s.len() + matches_in(v, f, n),
    decreases n,
{
    if n > 0 {
        hits_are_counted(v, f, s, (n - 1) as nat);
        if let Some(h) = hit_of(v[n - 1], f) {
            put_length(hits_of(v, f, s, (n - 1) as nat), h);
        }
    }
}

/// The total of a search is the number of entries that match: those of the copy
/// that were not embedded again, and those that were.
pub proof fn total_counts_the_matches(cached: Seq<EntryV>, fresh: Seq<EntryV>, f: FilterV)
    ensures
        all_hits(cached, fresh, f).len() == matches_in(
            not_fresh(cached, fresh, cached.len()),
            f,
            not_fresh(cached, fresh, cached.len()).len(),
        ) + matches_in(fresh, f, fresh.len()),
{
    let old = not_fresh(cached, fresh, cached.len());
    hits_are_counted(old, f, Seq::empty(), old.len());
    hits_are_counted(fresh, f, hits_of(old, f, Seq::empty(), old.len()), fresh.len());
}

/// Whether no entry stands in a list twice, by its kind and its id.
pub open spec fn listed_once(v: Seq<EntryV>) -> bool {
    forall|i: int, j: int|
        0 <= i < j < v.len() ==> !((#[trigger] v[i]).kind == (#[trigger] v[j]).kind
            && v[i].owner_id == v[j].owner_id)
}

/// Whether no two hits of a list are of one entry.
pub open spec fn hit_once(s: Seq<HitV>) -> bool {
    forall|i: int, j: int|
        0 <= i < j < s.len() ==> !((#[trigger] s[i]).kind == (#[trigger] s[j]).kind
            && s[i].owner_id == s[j].owner_id)
}

/// Whether no hit of a list is of the entry with this kind and id.
spec fn not_yet_hit(s: Seq<HitV>, kind: Kind, owner_id: Seq<char>) -> bool {
    forall|i: int|
        0 <= i < s.len() ==> !((#[trigger] s[i]).kind == kind && s[i].owner_id == owner_id)
}

proof fn put_hits_once(s: Seq<HitV>, h: HitV)
    requires
        hit_once(s),
        not_yet_hit(s, h.kind, h.owner_id),
    ensures
        hit_once(hit_put(s, h)),
    decreases s.len(),
{
    let r = hit_put(s, h);
    if s.len() > 0 && comes_before(h, s.last()) {
        let d = s.drop_last();
        let p = hit_put(d, h);
        let n = s.len() - 1;
        assert forall|i: int, j: int| 0 <= i < j < d.len() implies !((#[trigger] d[i]).kind == (
        #[trigger] d[j]).kind && d[i].owner_id == d[j].owner_id) by {
            assert(s[i] == d[i] && s[j] == d[j]);
        }
        assert forall|i: int| 0 <= i < d.len() implies !((#[trigger] d[i]).kind == h.kind
            && d[i].owner_id == h.owner_id) by {
            assert(s[i] == d[i]);
        }
        put_hits_once(d, h);
        put_length(d, h);
        assert forall|i: int, j: int| 0 <= i < j < r.len() implies !((#[trigger] r[i]).kind == (
        #[trigger] r[j]).kind && r[i].owner_id == r[j].owner_id) by {
            if j < p.len() {
                assert(r[i] == p[i] && r[j] == p[j]);
            } else {
                assert(r[i] == p[i] && r[j] == s[n]);
                put_members(d, h, i);
                if p[i] != h {
                    let k = choose|k: int| 0 <= k < d.len() && d[k] == p[i];
                    assert(s[k] == p[i]);
                }
            }
        }
    } else {
        assert forall|i: int, j: int| 0 <= i < j < r.len() implies !((#[trigger] r[i]).kind == (
        #[trigger] r[j]).kind && r[i].owner_id == r[j].owner_id) by {
            if j < s.len() {
                assert(r[i] == s[i] && r[j] == s[j]);
            } else {
                assert(r[i] == s[i] && r[j] == h);
            }
        }
    }
}

proof fn others_are_not_hit(
    v: Seq<EntryV>,
    f: FilterV,
    s: Seq<HitV>,
    n: nat,
    kind: Kind,
    owner_id: Seq<char>,
)
    requires
        n <= v.len(),
        not_yet_hit(s, kind, owner_id),
        forall|i: int|
            0 <= i < n ==> !((#[trigger] v[i]).kind == kind && v[i].owner_id == owner_id),
    ensures
        not_yet_hit(hits_of(v, f, s, n), kind, owner_id),
    decreases n,
{
    if n > 0 {
        others_are_not_hit(v, f, s, (n - 1) as nat, kind, owner_id);
        let b = hits_of(v, f, s, (n - 1) as nat);
        if let Some(h) = hit_of(v[n - 1], f) {
            let r = hit_put(b, h);
            assert forall|i: int| 0 <= i < r.len() implies !((#[trigger] r[i]).kind == kind
                && r[i].owner_id == owner_id) by {
                put_members(b, h, i);
                if r[i] != h {
                    let k = choose|k: int| 0 <= k < b.len() && b[k] == r[i];
                    assert(b[k] == r[i]);
                }
            }
        }
    }
}

proof fn hits_stay_apart(v: Seq<EntryV>, f: FilterV, s: Seq<HitV>, n: nat)
    requires
        n <= v.len(),
        hit_once(s),
        listed_once(v),
        forall|i: int| 0 <= i < v.len() ==> not_yet_hit(s, (#[trigger] v[i]).kind, v[i].owner_id),
    ensures
        hit_once(hits_of(v, f, s, n)),
    decreases n,
{
    if n > 0 {
        hits_stay_apart(v, f, s, (n - 1) as nat);
        let e = v[n - 1];
        if let Some(h) = hit_of(e, f) {
            others_are_not_hit(v, f, s, (n - 1) as nat, e.kind, e.owner_id);
            put_hits_once(hits_of(v, f, s, (n - 1) as nat), h);
        }
    }
}

proof fn copies_are_listed_once(cached: Seq<EntryV>, fresh: Seq<EntryV>, n: nat)
    requires
        n <= cached.len(),
        listed_once(cached),
    ensures
        listed_once(not_fresh(cached, fresh, n)),
        forall|i: int|
            0 <= i < not_fresh(cached, fresh, n).len() ==> cached.take(n as int).contains(
                #[trigger] not_fresh(cached, fresh, n)[i],
            ) && !stands_in(fresh, not_fresh(cached, fresh, n)[i]),
    decreases n,
{
    if n > 0 {
        copies_are_listed_once(cached, fresh, (n - 1) as nat);
        let b = not_fresh(cached, fresh, (n - 1) as nat);
        let r = not_fresh(cached, fresh, n);
        let less = cached.take(n - 1);
        assert forall|i: int| 0 <= i < r.len() implies cached.take(n as int).contains(
            #[trigger] r[i],
        ) && !stands_in(fresh, r[i]) by {
            if i < b.len() {
                assert(r[i] == b[i]);
                let k = choose|k: int| 0 <= k < less.len() && less[k] == b[i];
                assert(cached.take(n as int)[k] == r[i]);
            } else {
                assert(cached.take(n as int)[n - 1] == r[i]);
            }
        }
        assert forall|i: int, j: int| 0 <= i < j < r.len() implies !((#[trigger] r[i]).kind == (
        #[trigger] r[j]).kind && r[i].owner_id == r[j].owner_id) by {
            assert(r[i] == b[i]);
            if j < b.len() {
                assert(r[j] == b[j]);
            } else {
                let k = choose|k: int| 0 <= k < less.len() && less[k] == b[i];
                assert(cached[k] == r[i] && cached[n - 1] == r[j]);
            }
        }
    }
}

/// No entry is hit twice, where the copy and what was just embedded hold each
/// entry once: one that stands in both counts as it was just embedded.
pub proof fn no_entry_is_hit_twice(cached: Seq<EntryV>, fresh: Seq<EntryV>, f: FilterV)
    requires
        listed_once(cached),
        listed_once(fresh),
    ensures
        hit_once(all_hits(cached, fresh, f)),
        hit_once(cut_to(all_hits(cached, fresh, f), f.depth)),
{
    let old = not_fresh(cached, fresh, cached.len());
    copies_are_listed_once(cached, fresh, cached.len());
    hits_stay_apart(old, f, Seq::empty(), old.len());
    let first = hits_of(old, f, Seq::empty(), old.len());
    assert forall|i: int| 0 <= i < fresh.len() implies not_yet_hit(
        first,
        (#[trigger] fresh[i]).kind,
        fresh[i].owner_id,
    ) by {
        assert forall|k: int| 0 <= k < old.len() implies !((#[trigger] old[k]).kind
            == fresh[i].kind && old[k].owner_id == fresh[i].owner_id) by {
            assert(!stands_in(fresh, old[k]));
        }
        others_are_not_hit(old, f, Seq::empty(), old.len(), fresh[i].kind, fresh[i].owner_id);
    }
    hits_stay_apart(fresh, f, first, fresh.len());
    let all = all_hits(cached, fresh, f);
    let cut = cut_to(all, f.depth);
    assert forall|i: int, j: int| 0 <= i < j < cut.len() implies !((#[trigger] cut[i]).kind == (
    #[trigger] cut[j]).kind && cut[i].owner_id == cut[j].owner_id) by {
        assert(cut[i] == all[i] && cut[j] == all[j]);
    }
}

/// Every entry a search is about, and that is similar enough, is among its
/// hits: one that was just embedded, and one of the copy that was not.
pub proof fn every_match_is_a_hit(
    cached: Seq<EntryV>,
    fresh: Seq<EntryV>,
    f: FilterV,
    e: EntryV,
    h: HitV,
)
    requires
        fresh.contains(e) || (cached.contains(e) && !stands_in(fresh, e)),
        hit_of(e, f) == Some(h),
    ensures
        all_hits(cached, fresh, f).contains(h),
{
    let old = not_fresh(cached, fresh, cached.len());
    let first = hits_of(old, f, Seq::empty(), old.len());
    if fresh.contains(e) {
        let i = choose|i: int| 0 <= i < fresh.len() && fresh[i] == e;
        assert(hit_of(fresh[i], f) == Some(h));
    } else {
        let i = choose|i: int| 0 <= i < cached.len() && cached[i] == e;
        copies_stay(cached, fresh, cached.len(), i);
        let k = choose|k: int| 0 <= k < old.len() && old[k] == e;
        assert(hit_of(old[k], f) == Some(h));
        hits_hold(old, f, Seq::empty(), old.len(), h);
    }
    hits_hold(fresh, f, first, fresh.len(), h);
}

/// What a copy was read at: the version other connections move, and the count
/// of this connection's own changes.
pub type CacheKey = (i64, u64);

/// What a search has to do before it can answer.
#[derive(Clone, Copy, Debug, PartialEq, Eq, Structural)]
pub enum Plan {
    /// Nothing: the copy is current and whole.
    Ready,
    /// Look for entries without a vector; the copy is current.
    Scan,
    /// Read the copy again, and look for entries without a vector.
    Reload,
}

/// What a search has to do, by what its copy was read at.
pub open spec fn plan_spec(at: Option<CacheKey>, complete: bool, now: CacheKey) -> Plan {
    if at == Some(now) {
        if complete {
            Plan::Ready
        } else {
            Plan::Scan
        }
    } else {
        Plan::Reload
    }
}

/// What a search has to do, by what its copy was read at.
pub fn plan(at: Option<CacheKey>, complete: bool, now: CacheKey) -> (r: Plan)
    ensures
        r == plan_spec(at, complete, now),
{
    match at {
        Some(k) => if k.0 == now.0 && k.1 == now.1 {
            if complete {
                Plan::Ready
            } else {
                Plan::Scan
            }
        } else {
            Plan::Reload
        },
        None => Plan::Reload,
    }
}

/// What the copy is once missing entries were embedded.
#[derive(Clone, Copy, Debug, PartialEq, Eq)]
pub struct Settled {
    /// What the copy counts as read at.
    pub key: Option<CacheKey>,
    /// Whether nothing is missing from it.
    pub complete: bool,
    /// Whether what was embedded joins the copy; else it serves this call alone.
    pub absorbed: bool,
}

/// What the copy is once `pending` entries were embedded: `written` of them
/// were stored, or none could be, and `after` is what is read then. What was
/// embedded joins the copy only where all of it was stored and nobody else has
/// written meanwhile.
pub open spec fn settled_spec(
    now: CacheKey,
    pending: nat,
    written: Option<usize>,
    after: CacheKey,
) -> Settled {
    if pending == 0 {
        Settled { key: Some(now), complete: true, absorbed: true }
    } else {
        match written {
            Some(n) => if after.0 == now.0 && n == pending {
                Settled { key: Some(after), complete: true, absorbed: true }
            } else {
                Settled { key: None, complete: false, absorbed: false }
            },
            None => Settled { key: Some(now), complete: false, absorbed: false },
        }
    }
}

/// What the copy is once missing entries were embedded.
pub fn settle(now: CacheKey, pending: usize, written: Option<usize>, after: CacheKey) -> (r:
    Settled)
    ensures
        r == settled_spec(now, pending as nat, written, after),
{
    if pending == 0 {
        return Settled { key: Some(now), complete: true, absorbed: true };
    }
    match written {
        Some(n) => if after.0 == now.0 && n == pending {
            Settled { key: Some(after), complete: true, absorbed: true }
        } else {
            Settled { key: None, complete: false, absorbed: false }
        },
        None => Settled { key: Some(now), complete: false, absorbed: false },
    }
}

/// A copy that another connection has written past is never taken for current.
pub proof fn stale_copies_are_read_again(
    now: CacheKey,
    pending: nat,
    written: Option<usize>,
    after: CacheKey,
    later: CacheKey,
)
    requires
        later.0 != now.0,
        later.0 != after.0,
    ensures
        ({
            let s = settled_spec(now, pending, written, after);
            plan_spec(s.key, s.complete, later) == Plan::Reload
        }),
{
}

} // verus!
