//! What a filter text selects, in terms of the tasks.

use crate::expr::CtxV;
use crate::expr::ExprV;
use crate::expr::field_instant;
use crate::expr::holds;
use crate::expr::Pred;
use crate::expr::pred_holds;
use crate::expr::PredV;
use crate::filter::after;
use crate::filter::and_rest;
use crate::filter::and_spec;
use crate::filter::and_word;
use crate::filter::bound_spec;
use crate::filter::conjunction;
use crate::filter::disjunction;
use crate::filter::or_rest;
use crate::filter::or_spec;
use crate::filter::or_word;
use crate::filter::parsed;
use crate::filter::predicate_spec;
use crate::filter::Spellings;
use crate::filter::symbol;
use crate::filter::term_spec;
use crate::filter::words_parsed;
use crate::filter_laws::one_word_filter;
use crate::filter_laws::quoted_project_is_that_project;
use crate::filter_laws::quoted_tag_is_excluded;
use crate::filter_laws::quoted_tag_is_required;
use crate::types::Status;
use crate::vector_index::Pending;
use crate::when::resolved;
use crate::when::stamp_instant;
use crate::words::Parens;
use crate::words::plain;
use crate::words::prefixed_quote_is_one_word;
use crate::words::quoted_form;
use crate::words::WordV;
use vstd::prelude::*;

verus! {

broadcast use vstd::string::group_string_axioms;

/// Whether a filter text is read and selects a task.
pub open spec fn selects(text: Seq<char>, cal: Spellings, c: CtxV) -> bool {
    parsed(text, cal) matches Ok(e) && holds(e, c)
}

/// The instant that a date stands for, if it stands for one.
pub open spec fn instant_of(d: Seq<char>, cal: Spellings) -> Option<int> {
    match resolved(d, cal) {
        Ok(t) => stamp_instant(t),
        Err(_) => None,
    }
}

proof fn one_bad_word(w: WordV, cal: Spellings)
    requires
        w.quoted,
        predicate_spec(w.text, cal) is Err,
    ensures
        words_parsed(seq![w], cal) is Err,
{
    let t = seq![w];
    assert(t[0] == w);
    assert(term_spec(t, 0, 0, cal) is Err);
    assert(and_rest(t, 0, 0, 0, Seq::empty(), cal) is Err);
    assert(and_spec(t, 0, 0, cal) is Err);
    assert(or_spec(t, 0, 0, cal) is Err);
}

proof fn due_before_is_read(d: Seq<char>, cal: Spellings)
    ensures
        predicate_spec("due.before:"@ + d, cal) == match bound_spec(d, "due.before"@, cal) {
            Ok(n) => Ok::<PredV, Seq<char>>(PredV::DueBefore(n)),
            Err(m) => Err(m),
        },
        parsed("due.before:"@ + quoted_form(d), cal) is Ok <==> instant_of(d, cal) is Some,
        instant_of(d, cal) is Some ==> parsed("due.before:"@ + quoted_form(d), cal) == Ok::<ExprV, Seq<char>>(
            ExprV::Pred(PredV::DueBefore(instant_of(d, cal)->0)),
        ),
{
    reveal_strlit("@working");
    reveal_strlit("@blocked");
    reveal_strlit("+blocked");
    reveal_strlit("status:blocked");
    reveal_strlit("project:");
    reveal_strlit("status:");
    reveal_strlit("due.before:");
    let p = "due.before:"@;
    assert(forall|i: int| 0 <= i < p.len() ==> plain(#[trigger] p[i]));
    prefixed_quote_is_one_word(p, d, Parens::Break);
    let tok = p + d;
    assert(tok[0] == 'd');
    assert("@working"@[0] == '@' && "@blocked"@[0] == '@' && "+blocked"@[0] == '+');
    assert("project:"@[0] == 'p' && "status:"@[0] == 's' && "status:blocked"@[0] == 's');
    assert(tok.take(8)[0] == 'd');
    assert(tok.take(7)[0] == 'd');
    assert(tok.take(11) =~= p);
    assert(after(tok, p) =~= d);
    let w = WordV { text: tok, quoted: true };
    if instant_of(d, cal) is Some {
        one_word_filter(w, cal);
    } else {
        one_bad_word(w, cal);
    }
}

proof fn due_after_is_read(d: Seq<char>, cal: Spellings)
    ensures
        predicate_spec("due.after:"@ + d, cal) == match bound_spec(d, "due.after"@, cal) {
            Ok(n) => Ok::<PredV, Seq<char>>(PredV::DueAfter(n)),
            Err(m) => Err(m),
        },
        parsed("due.after:"@ + quoted_form(d), cal) is Ok <==> instant_of(d, cal) is Some,
        instant_of(d, cal) is Some ==> parsed("due.after:"@ + quoted_form(d), cal) == Ok::<ExprV, Seq<char>>(
            ExprV::Pred(PredV::DueAfter(instant_of(d, cal)->0)),
        ),
{
    reveal_strlit("@working");
    reveal_strlit("@blocked");
    reveal_strlit("+blocked");
    reveal_strlit("status:blocked");
    reveal_strlit("project:");
    reveal_strlit("status:");
    reveal_strlit("due.before:");
    reveal_strlit("due.after:");
    let p = "due.after:"@;
    assert(forall|i: int| 0 <= i < p.len() ==> plain(#[trigger] p[i]));
    prefixed_quote_is_one_word(p, d, Parens::Break);
    let tok = p + d;
    assert(tok[0] == 'd');
    assert("@working"@[0] == '@' && "@blocked"@[0] == '@' && "+blocked"@[0] == '+');
    assert("project:"@[0] == 'p' && "status:"@[0] == 's' && "status:blocked"@[0] == 's');
    assert(tok.take(8)[0] == 'd');
    assert(tok.take(7)[0] == 'd');
    assert("due.before:"@[4] == 'b' && p[4] == 'a');
    assert(tok.len() >= 11 ==> tok.take(11)[4] == 'a');
    assert(tok.take(10) =~= p);
    assert(after(tok, p) =~= d);
    let w = WordV { text: tok, quoted: true };
    if instant_of(d, cal) is Some {
        one_word_filter(w, cal);
    } else {
        one_bad_word(w, cal);
    }
}

proof fn completed_before_is_read(d: Seq<char>, cal: Spellings)
    ensures
        predicate_spec("completed.before:"@ + d, cal) == match bound_spec(d, "completed.before"@, cal) {
            Ok(n) => Ok::<PredV, Seq<char>>(PredV::CompletedBefore(n)),
            Err(m) => Err(m),
        },
        parsed("completed.before:"@ + quoted_form(d), cal) is Ok <==> instant_of(d, cal) is Some,
        instant_of(d, cal) is Some ==> parsed("completed.before:"@ + quoted_form(d), cal) == Ok::<ExprV, Seq<char>>(
            ExprV::Pred(PredV::CompletedBefore(instant_of(d, cal)->0)),
        ),
{
    reveal_strlit("@working");
    reveal_strlit("@blocked");
    reveal_strlit("+blocked");
    reveal_strlit("status:blocked");
    reveal_strlit("project:");
    reveal_strlit("status:");
    reveal_strlit("due.before:");
    reveal_strlit("due.after:");
    reveal_strlit("completed.before:");
    let p = "completed.before:"@;
    assert(forall|i: int| 0 <= i < p.len() ==> plain(#[trigger] p[i]));
    prefixed_quote_is_one_word(p, d, Parens::Break);
    let tok = p + d;
    assert(tok[0] == 'c');
    assert("@working"@[0] == '@' && "@blocked"@[0] == '@' && "+blocked"@[0] == '+');
    assert("project:"@[0] == 'p' && "status:"@[0] == 's' && "status:blocked"@[0] == 's');
    assert(tok.take(8)[0] == 'c');
    assert(tok.take(7)[0] == 'c');
    assert("due.before:"@[0] == 'd' && p[0] == 'c');
    assert(tok.len() >= 11 ==> tok.take(11)[0] == 'c');
    assert("due.after:"@[0] == 'd' && p[0] == 'c');
    assert(tok.len() >= 10 ==> tok.take(10)[0] == 'c');
    assert(tok.take(17) =~= p);
    assert(after(tok, p) =~= d);
    let w = WordV { text: tok, quoted: true };
    if instant_of(d, cal) is Some {
        one_word_filter(w, cal);
    } else {
        one_bad_word(w, cal);
    }
}

proof fn completed_after_is_read(d: Seq<char>, cal: Spellings)
    ensures
        predicate_spec("completed.after:"@ + d, cal) == match bound_spec(d, "completed.after"@, cal) {
            Ok(n) => Ok::<PredV, Seq<char>>(PredV::CompletedAfter(n)),
            Err(m) => Err(m),
        },
        parsed("completed.after:"@ + quoted_form(d), cal) is Ok <==> instant_of(d, cal) is Some,
        instant_of(d, cal) is Some ==> parsed("completed.after:"@ + quoted_form(d), cal) == Ok::<ExprV, Seq<char>>(
            ExprV::Pred(PredV::CompletedAfter(instant_of(d, cal)->0)),
        ),
{
    reveal_strlit("@working");
    reveal_strlit("@blocked");
    reveal_strlit("+blocked");
    reveal_strlit("status:blocked");
    reveal_strlit("project:");
    reveal_strlit("status:");
    reveal_strlit("due.before:");
    reveal_strlit("due.after:");
    reveal_strlit("completed.before:");
    reveal_strlit("completed.after:");
    let p = "completed.after:"@;
    assert(forall|i: int| 0 <= i < p.len() ==> plain(#[trigger] p[i]));
    prefixed_quote_is_one_word(p, d, Parens::Break);
    let tok = p + d;
    assert(tok[0] == 'c');
    assert("@working"@[0] == '@' && "@blocked"@[0] == '@' && "+blocked"@[0] == '+');
    assert("project:"@[0] == 'p' && "status:"@[0] == 's' && "status:blocked"@[0] == 's');
    assert(tok.take(8)[0] == 'c');
    assert(tok.take(7)[0] == 'c');
    assert("due.before:"@[0] == 'd' && p[0] == 'c');
    assert(tok.len() >= 11 ==> tok.take(11)[0] == 'c');
    assert("due.after:"@[0] == 'd' && p[0] == 'c');
    assert(tok.len() >= 10 ==> tok.take(10)[0] == 'c');
    assert("completed.before:"@[10] == 'b' && p[10] == 'a');
    assert(tok.len() >= 17 ==> tok.take(17)[10] == 'a');
    assert(tok.take(16) =~= p);
    assert(after(tok, p) =~= d);
    let w = WordV { text: tok, quoted: true };
    if instant_of(d, cal) is Some {
        one_word_filter(w, cal);
    } else {
        one_bad_word(w, cal);
    }
}

/// A task with a readable completion stamp is selected by a bound
/// `completed.before:` exactly where its stamp's instant is earlier than the
/// bound's, and by `completed.after:` exactly where it is later. A task without
/// a readable completion stamp is selected by neither.
pub proof fn completed_bounds_compare_instants(d: Seq<char>, cal: Spellings, c: CtxV)
    requires
        instant_of(d, cal) is Some,
    ensures
        selects("completed.before:"@ + quoted_form(d), cal, c) <==> {
            &&& c.completed is Some
            &&& stamp_instant(c.completed->0) is Some
            &&& stamp_instant(c.completed->0)->0 < instant_of(d, cal)->0
        },
        selects("completed.after:"@ + quoted_form(d), cal, c) <==> {
            &&& c.completed is Some
            &&& stamp_instant(c.completed->0) is Some
            &&& stamp_instant(c.completed->0)->0 > instant_of(d, cal)->0
        },
{
    completed_before_is_read(d, cal);
    completed_after_is_read(d, cal);
}

/// A task with a readable due stamp is selected by a bound `due.before:`
/// exactly where its stamp's instant is earlier than the bound's, and by
/// `due.after:` exactly where it is later. A task without a readable due stamp
/// is selected by neither.
pub proof fn due_bounds_compare_instants(d: Seq<char>, cal: Spellings, c: CtxV)
    requires
        instant_of(d, cal) is Some,
    ensures
        selects("due.before:"@ + quoted_form(d), cal, c) <==> {
            &&& c.due is Some
            &&& stamp_instant(c.due->0) is Some
            &&& stamp_instant(c.due->0)->0 < instant_of(d, cal)->0
        },
        selects("due.after:"@ + quoted_form(d), cal, c) <==> {
            &&& c.due is Some
            &&& stamp_instant(c.due->0) is Some
            &&& stamp_instant(c.due->0)->0 > instant_of(d, cal)->0
        },
{
    due_before_is_read(d, cal);
    due_after_is_read(d, cal);
}

/// A bound on what is no date is refused, whichever bound it is.
pub proof fn bounds_need_a_date(d: Seq<char>, cal: Spellings)
    requires
        instant_of(d, cal) is None,
    ensures
        parsed("due.before:"@ + quoted_form(d), cal) is Err,
        parsed("due.after:"@ + quoted_form(d), cal) is Err,
        parsed("completed.before:"@ + quoted_form(d), cal) is Err,
        parsed("completed.after:"@ + quoted_form(d), cal) is Err,
{
    due_before_is_read(d, cal);
    due_after_is_read(d, cal);
    completed_before_is_read(d, cal);
    completed_after_is_read(d, cal);
}

/// The bounds of a filter's tree compare instants as its text does: before is
/// earlier, after is later, and a stamp that cannot be read is neither.
pub proof fn bounds_split_the_readable_stamps(n: int, c: CtxV)
    ensures
        pred_holds(PredV::CompletedBefore(n), c) <==> field_instant(c.completed) is Some
            && field_instant(c.completed)->0 < n,
        pred_holds(PredV::CompletedAfter(n), c) <==> field_instant(c.completed) is Some
            && n < field_instant(c.completed)->0,
        pred_holds(PredV::DueBefore(n), c) <==> field_instant(c.due) is Some && field_instant(
            c.due,
        )->0 < n,
        pred_holds(PredV::DueAfter(n), c) <==> field_instant(c.due) is Some && n < field_instant(
            c.due,
        )->0,
        c.completed is None ==> field_instant(c.completed) is None,
        c.due is None ==> field_instant(c.due) is None,
        c.completed is Some ==> field_instant(c.completed) == stamp_instant(c.completed->0),
        c.due is Some ==> field_instant(c.due) == stamp_instant(c.due->0),
{
}

/// `project:` selects the tasks of that project and no others, `+` those that
/// carry the tag, `-` those that do not.
pub proof fn names_select_their_own(v: Seq<char>, cal: Spellings, c: CtxV)
    ensures
        selects("project:"@ + quoted_form(v), cal, c) <==> c.project is Some && c.project->0 == v,
        v.len() > 0 && v != "blocked"@ ==> (selects("+"@ + quoted_form(v), cal, c) <==> exists|
            k: int,
        |
            0 <= k < c.tags.len() && #[trigger] c.tags[k] == v),
        v.len() > 0 && v[0] != '-' ==> (selects("-"@ + quoted_form(v), cal, c) <==> forall|k: int|
            0 <= k < c.tags.len() ==> #[trigger] c.tags[k] != v),
{
    quoted_project_is_that_project(v, cal);
    if v.len() > 0 && v != "blocked"@ {
        quoted_tag_is_required(v, cal);
    }
    if v.len() > 0 && v[0] != '-' {
        quoted_tag_is_excluded(v, cal);
    }
}

/// The words for the two views: `@working` selects the pending and the active
/// tasks that are not blocked; `@blocked`, `+blocked` and `status:blocked` each
/// select the blocked tasks, whatever their status.
pub proof fn views_select_by_state(cal: Spellings, c: CtxV)
    ensures
        predicate_spec("@working"@, cal) matches Ok(p) && (pred_holds(p, c) <==> !c.blocked && (
        c.status == Status::Pending || c.status == Status::Active)),
        predicate_spec("@blocked"@, cal) matches Ok(p) && pred_holds(p, c) == c.blocked,
        predicate_spec("+blocked"@, cal) matches Ok(p) && pred_holds(p, c) == c.blocked,
        predicate_spec("status:blocked"@, cal) matches Ok(p) && pred_holds(p, c) == c.blocked,
{
    reveal_strlit("@working");
    reveal_strlit("@blocked");
    reveal_strlit("+blocked");
    reveal_strlit("status:blocked");
    assert("@working"@[1] == 'w' && "@blocked"@[1] == 'b');
    assert("+blocked"@[0] == '+' && "status:blocked"@[0] == 's');
    assert("@working"@[0] == '@' && "@blocked"@[0] == '@');
}

/// Whether a word is one that joins others: an unquoted `and` or `or`.
pub open spec fn joins(w: WordV) -> bool {
    and_word(w) || or_word(w)
}

/// Whether a word is neither a parenthesis nor one that joins others.
pub open spec fn stands_alone(w: WordV) -> bool {
    !symbol(w, '(') && !symbol(w, ')') && !joins(w)
}

/// Whether the words from `i` to `z` hold no parenthesis and nothing but
/// predicates and the words that join them.
pub open spec fn ungrouped(t: Seq<WordV>, i: int, z: int, cal: Spellings) -> bool {
    forall|k: int|
        i <= k < z ==> joins(#[trigger] t[k]) || (stands_alone(t[k]) && predicate_spec(
            t[k].text,
            cal,
        ) is Ok)
}

/// Whether the predicates among the words from `a` to `b` all select a task.
pub open spec fn all_select(t: Seq<WordV>, a: int, b: int, cal: Spellings, c: CtxV) -> bool {
    forall|k: int|
        a <= k < b && stands_alone(#[trigger] t[k]) ==> pred_holds(
            predicate_spec(t[k].text, cal)->Ok_0,
            c,
        )
}

/// Whether the words from `a` to `b` are those between one `or` and the next,
/// among the words from `i` to `z`.
pub open spec fn alternative(t: Seq<WordV>, i: int, z: int, a: int, b: int) -> bool {
    &&& i <= a <= b <= z
    &&& a == i || or_word(t[a - 1])
    &&& b == z || or_word(t[b])
    &&& forall|k: int| a <= k < b ==> !or_word(#[trigger] t[k])
}

/// Whether some alternative among the words from `i` to `z` selects a task.
pub open spec fn some_alternative(
    t: Seq<WordV>,
    i: int,
    z: int,
    cal: Spellings,
    c: CtxV,
) -> bool {
    exists|a: int, b: int| #[trigger] alternative(t, i, z, a, b) && all_select(t, a, b, cal, c)
}

/// Whether every one of some trees selects a task.
pub open spec fn each_holds(v: Seq<ExprV>, c: CtxV) -> bool {
    forall|k: int| 0 <= k < v.len() ==> holds(#[trigger] v[k], c)
}

/// Whether one of some trees selects a task.
pub open spec fn one_holds(v: Seq<ExprV>, c: CtxV) -> bool {
    exists|k: int| 0 <= k < v.len() && holds(#[trigger] v[k], c)
}

proof fn nodes_hold(v: Seq<ExprV>, c: CtxV)
    requires
        v.len() > 0,
    ensures
        holds(conjunction(v), c) == each_holds(v, c),
        holds(disjunction(v), c) == one_holds(v, c),
{
    if v.len() == 1 {
        assert(holds(v[0], c) ==> each_holds(v, c));
        if one_holds(v, c) {
            let k = choose|k: int| 0 <= k < v.len() && holds(#[trigger] v[k], c);
            assert(k == 0);
        }
    } else {
        assert(ExprV::And(v)->And_0 == v);
        assert(ExprV::Or(v)->Or_0 == v);
    }
}

/// Where the alternative that holds the word at `i` ends.
pub open spec fn run_end(t: Seq<WordV>, i: int, z: int) -> int
    decreases z - i,
{
    if i >= z || or_word(t[i]) {
        i
    } else {
        run_end(t, i + 1, z)
    }
}

proof fn run_is_read(
    t: Seq<WordV>,
    start: int,
    i: int,
    z: int,
    depth: int,
    parts: Seq<ExprV>,
    cal: Spellings,
    c: CtxV,
)
    requires
        0 <= start <= i <= z <= t.len(),
        z == t.len() || symbol(t[z], ')'),
        ungrouped(t, i, z, cal),
        0 <= depth <= 64,
    ensures
        ({
            let e = run_end(t, i, z);
            let r = and_rest(t, start, i, depth, parts, cal);
            &&& i <= e <= z
            &&& e == z || or_word(t[e])
            &&& forall|k: int| i <= k < e ==> !or_word(#[trigger] t[k])
            &&& r is Ok ==> {
                &&& r->Ok_0.1 == e - start
                &&& holds(r->Ok_0.0, c) == (each_holds(parts, c) && all_select(t, i, e, cal, c))
            }
            &&& r is Err <==> parts.len() == 0 && forall|k: int| i <= k < e ==> and_word(
                #[trigger] t[k],
            )
        }),
    decreases z - i,
{
    let e = run_end(t, i, z);
    if i >= z {
        assert(seq![')'].len() == 1);
        if parts.len() > 0 {
            nodes_hold(parts, c);
        }
    } else if or_word(t[i]) {
        if parts.len() > 0 {
            nodes_hold(parts, c);
        }
    } else if and_word(t[i]) {
        assert(!symbol(t[i], ')')) by {
            assert(seq![')'].len() == 1);
        }
        run_is_read(t, start, i + 1, z, depth, parts, cal, c);
        assert(all_select(t, i, e, cal, c) == all_select(t, i + 1, e, cal, c));
    } else {
        assert(stands_alone(t[i]));
        let p = predicate_spec(t[i].text, cal)->Ok_0;
        assert(term_spec(t, i, depth, cal) == Ok::<(ExprV, nat), Seq<char>>((ExprV::Pred(p), 0)));
        let more = parts.push(ExprV::Pred(p));
        run_is_read(t, start, i + 1, z, depth, more, cal, c);
        assert(each_holds(more, c) == (each_holds(parts, c) && pred_holds(p, c))) by {
            assert(holds(ExprV::Pred(p), c) == pred_holds(p, c));
            if each_holds(more, c) {
                assert(more[parts.len() as int] == ExprV::Pred(p));
                assert forall|k: int| 0 <= k < parts.len() implies holds(#[trigger] parts[k], c) by {
                    assert(more[k] == parts[k]);
                }
            }
        }
        assert(all_select(t, i, e, cal, c) == (pred_holds(p, c) && all_select(
            t,
            i + 1,
            e,
            cal,
            c,
        )));
    }
}

proof fn first_or_later(t: Seq<WordV>, i: int, e: int, z: int, cal: Spellings, c: CtxV)
    requires
        alternative(t, i, z, i, e),
    ensures
        some_alternative(t, i, z, cal, c) == (all_select(t, i, e, cal, c) || (e < z
            && some_alternative(t, e + 1, z, cal, c))),
{
    if all_select(t, i, e, cal, c) {
        assert(alternative(t, i, z, i, e));
    }
    if e < z && some_alternative(t, e + 1, z, cal, c) {
        let (a, b) = choose|a: int, b: int| #[trigger]
            alternative(t, e + 1, z, a, b) && all_select(t, a, b, cal, c);
        assert(alternative(t, i, z, a, b));
    }
    if some_alternative(t, i, z, cal, c) {
        let (a, b) = choose|a: int, b: int| #[trigger]
            alternative(t, i, z, a, b) && all_select(t, a, b, cal, c);
        if a <= e {
            if a > i {
                assert(or_word(t[a - 1]));
                assert(i <= a - 1 < e ==> !or_word(t[a - 1]));
            }
            assert(a == i);
            if b < e {
                assert(or_word(t[b]));
                assert(false);
            }
            if b > e {
                assert(!or_word(t[e]));
                assert(false);
            }
        } else {
            assert(alternative(t, e + 1, z, a, b));
        }
    }
}

proof fn alternatives_are_read(
    t: Seq<WordV>,
    start: int,
    i: int,
    z: int,
    depth: int,
    parts: Seq<ExprV>,
    cal: Spellings,
    c: CtxV,
)
    requires
        0 <= start <= i <= z <= t.len(),
        z == t.len() || symbol(t[z], ')'),
        i == z || or_word(t[i]),
        ungrouped(t, i, z, cal),
        0 <= depth <= 64,
        parts.len() > 0,
    ensures
        ({
            let r = or_rest(t, start, i, depth, parts, cal);
            r is Ok ==> {
                &&& r->Ok_0.1 == z - start
                &&& holds(r->Ok_0.0, c) == (one_holds(parts, c) || (i < z && some_alternative(
                    t,
                    i + 1,
                    z,
                    cal,
                    c,
                )))
            }
        }),
    decreases z - i,
{
    assert(seq![')'].len() == 1);
    if i < z {
        let e = run_end(t, i + 1, z);
        run_is_read(t, i + 1, i + 1, z, depth, Seq::empty(), cal, c);
        first_or_later(t, i + 1, e, z, cal, c);
        let one = and_spec(t, i + 1, depth, cal);
        if one is Ok {
            let more = parts.push(one->Ok_0.0);
            alternatives_are_read(t, start, e, z, depth, more, cal, c);
            assert(one_holds(more, c) == (one_holds(parts, c) || holds(one->Ok_0.0, c))) by {
                assert(more[parts.len() as int] == one->Ok_0.0);
                if one_holds(parts, c) {
                    let k = choose|k: int| 0 <= k < parts.len() && holds(#[trigger] parts[k], c);
                    assert(more[k] == parts[k]);
                }
                if one_holds(more, c) {
                    let k = choose|k: int| 0 <= k < more.len() && holds(#[trigger] more[k], c);
                    if k < parts.len() {
                        assert(more[k] == parts[k]);
                    }
                }
            }
        }
    } else {
        assert(!(i < t.len() && or_word(t[i])));
        nodes_hold(parts, c);
    }
}

proof fn flat_is_read(t: Seq<WordV>, i: int, z: int, depth: int, cal: Spellings, c: CtxV)
    requires
        0 <= i <= z <= t.len(),
        z == t.len() || symbol(t[z], ')'),
        ungrouped(t, i, z, cal),
        0 <= depth <= 64,
    ensures
        ({
            let r = or_spec(t, i, depth, cal);
            r is Ok ==> r->Ok_0.1 == z - i && holds(r->Ok_0.0, c) == some_alternative(
                t,
                i,
                z,
                cal,
                c,
            )
        }),
{
    let e = run_end(t, i, z);
    run_is_read(t, i, i, z, depth, Seq::empty(), cal, c);
    first_or_later(t, i, e, z, cal, c);
    let one = and_spec(t, i, depth, cal);
    if one is Ok {
        let parts = seq![one->Ok_0.0];
        assert(parts[0] == one->Ok_0.0);
        alternatives_are_read(t, i, e, z, depth, parts, cal, c);
        if one_holds(parts, c) {
            let k = choose|k: int| 0 <= k < parts.len() && holds(#[trigger] parts[k], c);
            assert(k == 0);
        }
    }
}

/// Words that stand beside each other, with or without an `and`, must all
/// select a task; `or` separates alternatives, one of which is enough, and
/// binds less tightly than standing side by side.
pub proof fn all_of_one_alternative_select(t: Seq<WordV>, cal: Spellings, c: CtxV)
    requires
        t.len() > 0,
        ungrouped(t, 0, t.len() as int, cal),
        words_parsed(t, cal) is Ok,
    ensures
        holds(words_parsed(t, cal)->Ok_0, c) <==> some_alternative(
            t,
            0,
            t.len() as int,
            cal,
            c,
        ),
{
    flat_is_read(t, 0, t.len() as int, 0, cal, c);
}

/// A group stands as one word among its neighbours: a word and a group beside
/// it select a task exactly where the word does and some alternative of the
/// group does.
pub proof fn groups_bind_their_alternatives(
    t: Seq<WordV>,
    cal: Spellings,
    c: CtxV,
)
    requires
        t.len() >= 4,
        stands_alone(t[0]),
        predicate_spec(t[0].text, cal) is Ok,
        symbol(t[1], '('),
        ungrouped(t, 2, t.len() - 1, cal),
        symbol(t[t.len() - 1], ')'),
        words_parsed(t, cal) is Ok,
    ensures
        holds(words_parsed(t, cal)->Ok_0, c) <==> pred_holds(
            predicate_spec(t[0].text, cal)->Ok_0,
            c,
        ) && some_alternative(t, 2, t.len() - 1, cal, c),
{
    let n = t.len() as int;
    assert(seq!['('][0] == '(' && seq![')'][0] == ')');
    assert(seq!['('].len() == 1 && seq![')'].len() == 1);
    flat_is_read(t, 2, n - 1, 1, cal, c);
    let p = ExprV::Pred(predicate_spec(t[0].text, cal)->Ok_0);
    assert(term_spec(t, 0, 0, cal) == Ok::<(ExprV, nat), Seq<char>>((p, 0)));
    let one = Seq::<ExprV>::empty().push(p);
    assert(and_spec(t, 0, 0, cal) == and_rest(t, 0, 1, 0, one, cal));
    let inner = or_spec(t, 2, 1, cal);
    assert(inner is Ok);
    assert(term_spec(t, 1, 0, cal) == Ok::<(ExprV, nat), Seq<char>>(
        (inner->Ok_0.0, inner->Ok_0.1 + 1),
    ));
    let both = one.push(inner->Ok_0.0);
    assert(and_rest(t, 0, 1, 0, one, cal) == and_rest(t, 0, n, 0, both, cal));
    assert(and_rest(t, 0, n, 0, both, cal) == Ok::<(ExprV, nat), Seq<char>>(
        (conjunction(both), n as nat),
    ));
    nodes_hold(both, c);
    assert(both[0] == p && both[1] == inner->Ok_0.0);
    let only = seq![conjunction(both)];
    assert(only[0] == conjunction(both));
    assert(or_spec(t, 0, 0, cal) == or_rest(t, 0, n, 0, only, cal));
    assert(or_rest(t, 0, n, 0, only, cal) == Ok::<(ExprV, nat), Seq<char>>(
        (disjunction(only), n as nat),
    ));
}

} // verus!
