//! What a semantic search gives, in terms of the entries.

use crate::rows::Annotation;
use crate::rows::Doc;
use crate::vectors::all_hits;
use crate::vectors::best_is_best;
use crate::vectors::best_of;
use crate::vectors::CacheKey;
use crate::vectors::cut_to;
use crate::vectors::EntryV;
use crate::vectors::every_match_is_a_hit;
use crate::vectors::FilterV;
use crate::vectors::hit_of;
use crate::vectors::hit_put;
use crate::vectors::hits_of;
use crate::vectors::HitV;
use crate::vectors::in_filter_spec;
use crate::vectors::Kind;
use crate::vectors::not_fresh;
use crate::vectors::Plan;
use crate::vectors::plan_spec;
use crate::vectors::put_members;
use crate::vectors::settled_spec;
use crate::vectors::stands_in;
use vstd::prelude::*;

verus! {

broadcast use vstd::string::group_string_axioms;

/// Whether a search is about an entry: of the scope's kind, of the project or
/// of none where that is asked for, and no note of the task that is left out.
pub open spec fn asked_for(e: EntryV, f: FilterV) -> bool {
    &&& f.scope == "docs"@ ==> e.kind == Kind::Doc
    &&& f.scope == "annotations"@ ==> e.kind == Kind::Annotation
    &&& f.project is Some ==> e.project == f.project || (e.project is None && f.include_unscoped)
    &&& f.exclude_task is Some ==> e.task_id != f.exclude_task
}

/// Whether a chunk of an entry is the one it is hit by: none is more similar,
/// and none that is as similar comes earlier in the text.
pub open spec fn leads(e: EntryV, chunk: i64, similarity: i64) -> bool {
    &&& e.chunks.contains((chunk, similarity))
    &&& forall|i: int|
        0 <= i < e.chunks.len() ==> (#[trigger] e.chunks[i]).1 < similarity || (e.chunks[i].1
            == similarity && e.chunks[i].0 >= chunk)
}

/// Whether an entry counts in a search: it was just embedded, or it stands in
/// the copy and was not.
pub open spec fn counts(cached: Seq<EntryV>, fresh: Seq<EntryV>, e: EntryV) -> bool {
    fresh.contains(e) || (cached.contains(e) && !stands_in(fresh, e))
}

/// Whether a hit is the hit of an entry.
pub open spec fn hit_by(e: EntryV, f: FilterV, h: HitV) -> bool {
    &&& asked_for(e, f)
    &&& leads(e, h.chunk, h.similarity)
    &&& h.kind == e.kind
    &&& h.owner_id == e.owner_id
    &&& h.similarity >= f.min_similarity
}

proof fn best_leads(e: EntryV)
    ensures
        e.chunks.len() > 0 ==> (best_of(e.chunks, e.chunks.len()) matches Some(b) && leads(
            e,
            b.0,
            b.1,
        )),
        e.chunks.len() == 0 ==> best_of(e.chunks, e.chunks.len()) is None,
{
    if e.chunks.len() > 0 {
        let b = best_of(e.chunks, e.chunks.len())->0;
        best_is_there(e.chunks, e.chunks.len());
        assert forall|i: int| 0 <= i < e.chunks.len() implies (#[trigger] e.chunks[i]).1 < b.1
            || (e.chunks[i].1 == b.1 && e.chunks[i].0 >= b.0) by {
            best_is_best(e.chunks, e.chunks.len(), i);
        }
    }
}

proof fn best_is_there(c: Seq<(i64, i64)>, n: nat)
    requires
        0 < n <= c.len(),
    ensures
        best_of(c, n) matches Some(b) && c.contains(b),
    decreases n,
{
    assert(c.contains(c[n - 1]));
    if n > 1 {
        best_is_there(c, (n - 1) as nat);
    } else {
        assert(best_of(c, 0) is None);
    }
}

proof fn hits_are_of_entries(v: Seq<EntryV>, f: FilterV, s: Seq<HitV>, n: nat, h: HitV)
    requires
        n <= v.len(),
        hits_of(v, f, s, n).contains(h),
    ensures
        s.contains(h) || exists|i: int| 0 <= i < n && hit_of(#[trigger] v[i], f) == Some(h),
    decreases n,
{
    if n > 0 {
        let b = hits_of(v, f, s, (n - 1) as nat);
        match hit_of(v[n - 1], f) {
            Some(x) => {
                let r = hit_put(b, x);
                let i = choose|i: int| 0 <= i < r.len() && r[i] == h;
                put_members(b, x, i);
                if h != x {
                    hits_are_of_entries(v, f, s, (n - 1) as nat, h);
                } else {
                    assert(hit_of(v[n - 1], f) == Some(h));
                }
            },
            None => {
                hits_are_of_entries(v, f, s, (n - 1) as nat, h);
            },
        }
    }
}

proof fn old_are_cached(cached: Seq<EntryV>, fresh: Seq<EntryV>, n: nat, i: int)
    requires
        n <= cached.len(),
        0 <= i < not_fresh(cached, fresh, n).len(),
    ensures
        cached.contains(not_fresh(cached, fresh, n)[i]),
        !stands_in(fresh, not_fresh(cached, fresh, n)[i]),
    decreases n,
{
    if n > 0 {
        let b = not_fresh(cached, fresh, (n - 1) as nat);
        if i < b.len() {
            old_are_cached(cached, fresh, (n - 1) as nat, i);
        } else {
            assert(cached[n - 1] == not_fresh(cached, fresh, n)[i]);
        }
    }
}

proof fn filters_ask(e: EntryV, f: FilterV)
    ensures
        in_filter_spec(e, f) == asked_for(e, f),
{
    reveal_strlit("docs");
    reveal_strlit("annotations");
    assert("docs"@.len() == 4 && "annotations"@.len() == 11);
}

/// Every hit is the hit of an entry that counts: one the search is about, by
/// the chunk that is the most similar, and similar enough.
pub proof fn every_hit_is_of_an_entry_asked_for(
    cached: Seq<EntryV>,
    fresh: Seq<EntryV>,
    f: FilterV,
    h: HitV,
)
    requires
        cut_to(all_hits(cached, fresh, f), f.depth).contains(h),
    ensures
        exists|e: EntryV| #[trigger] counts(cached, fresh, e) && hit_by(e, f, h),
{
    let all = all_hits(cached, fresh, f);
    let cut = cut_to(all, f.depth);
    let k = choose|k: int| 0 <= k < cut.len() && cut[k] == h;
    assert(all[k] == h);
    let old = not_fresh(cached, fresh, cached.len());
    let first = hits_of(old, f, Seq::empty(), old.len());
    hits_are_of_entries(fresh, f, first, fresh.len(), h);
    if exists|i: int| 0 <= i < fresh.len() && hit_of(#[trigger] fresh[i], f) == Some(h) {
        let i = choose|i: int| 0 <= i < fresh.len() && hit_of(#[trigger] fresh[i], f) == Some(h);
        best_leads(fresh[i]);
        filters_ask(fresh[i], f);
        assert(counts(cached, fresh, fresh[i]) && hit_by(fresh[i], f, h));
    } else {
        hits_are_of_entries(old, f, Seq::empty(), old.len(), h);
        let i = choose|i: int| 0 <= i < old.len() && hit_of(#[trigger] old[i], f) == Some(h);
        old_are_cached(cached, fresh, cached.len(), i);
        best_leads(old[i]);
        filters_ask(old[i], f);
        assert(counts(cached, fresh, old[i]) && hit_by(old[i], f, h));
    }
}

/// Every entry that counts, that the search is about and that is similar enough
/// is hit by its leading chunk, and a search without a bound on its depth gives
/// that hit.
pub proof fn every_entry_asked_for_is_hit(
    cached: Seq<EntryV>,
    fresh: Seq<EntryV>,
    f: FilterV,
    e: EntryV,
    h: HitV,
)
    requires
        counts(cached, fresh, e),
        hit_by(e, f, h),
    ensures
        all_hits(cached, fresh, f).contains(h),
        f.depth >= all_hits(cached, fresh, f).len() ==> cut_to(
            all_hits(cached, fresh, f),
            f.depth,
        ).contains(h),
{
    best_leads(e);
    filters_ask(e, f);
    let b = best_of(e.chunks, e.chunks.len())->0;
    let i = choose|i: int| 0 <= i < e.chunks.len() && e.chunks[i] == (h.chunk, h.similarity);
    let j = choose|j: int| 0 <= j < e.chunks.len() && e.chunks[j] == b;
    assert(e.chunks[i].1 == h.similarity && e.chunks[j].1 == b.1);
    assert(hit_of(e, f) == Some(h));
    every_match_is_a_hit(cached, fresh, f, e, h);
}

/// A search gives as many hits as there are, up to its depth, and they are the
/// first of them all.
pub proof fn searches_give_the_first_hits(cached: Seq<EntryV>, fresh: Seq<EntryV>, f: FilterV)
    ensures
        ({
            let all = all_hits(cached, fresh, f);
            let cut = cut_to(all, f.depth);
            &&& cut.len() == if f.depth < all.len() {
                f.depth
            } else {
                all.len()
            }
            &&& forall|k: int| 0 <= k < cut.len() ==> #[trigger] cut[k] == all[k]
        }),
{
}

/// What was embedded joins the copy only where nothing had to be, or where all
/// of it was stored and nobody else wrote meanwhile; and then the copy is whole
/// and serves the next search as it is. Where storing failed the copy stays
/// current and is looked through again; where some was stored, or somebody else
/// wrote, it is read again.
pub proof fn only_what_was_stored_joins_the_copy(
    now: CacheKey,
    pending: nat,
    written: Option<usize>,
    after: CacheKey,
    later: CacheKey,
)
    ensures
        ({
            let s = settled_spec(now, pending, written, after);
            let stored = written is Some && written->0 == pending && after.0 == now.0;
            &&& s.absorbed <==> pending == 0 || stored
            &&& s.complete == s.absorbed
            &&& pending == 0 ==> plan_spec(s.key, s.complete, now) == Plan::Ready
            &&& pending > 0 && stored ==> plan_spec(s.key, s.complete, after) == Plan::Ready
            &&& pending > 0 && written is None ==> plan_spec(s.key, s.complete, now) == Plan::Scan
            &&& pending > 0 && written is Some && !stored ==> plan_spec(s.key, s.complete, later)
                == Plan::Reload
        }),
{
}

/// A copy serves as it is only where it is whole and nothing was written since
/// it was read, by this connection or another.
pub proof fn copies_serve_only_while_current(at: Option<CacheKey>, complete: bool, now: CacheKey)
    ensures
        plan_spec(at, complete, now) == Plan::Ready <==> complete && at == Some(now),
        plan_spec(at, complete, now) == Plan::Reload <==> at != Some(now),
{
}

} // verus!
