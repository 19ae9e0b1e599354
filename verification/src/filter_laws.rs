//! What holds of every filter.

use crate::expr::CtxV;
use crate::expr::ExprV;
use crate::expr::holds;
use crate::expr::Pred;
use crate::expr::pred_holds;
use crate::expr::PredV;
use crate::filter::after;
use crate::filter::and_rest;
use crate::filter::and_spec;
use crate::filter::and_word;
use crate::filter::conjunction;
use crate::filter::disjunction;
use crate::filter::left;
use crate::filter::or_rest;
use crate::filter::or_spec;
use crate::filter::or_word;
use crate::filter::parsed;
use crate::filter::predicate_spec;
use crate::filter::Spellings;
use crate::filter::symbol;
use crate::filter::term_spec;
use crate::filter::words_parsed;
use crate::rows::Project;
use crate::text::white_space;
use crate::types::Status;
use crate::when::stamp_instant;
use crate::words::lex;
use crate::words::Lex;
use crate::words::LexFault;
use crate::words::Parens;
use crate::words::prefixed_quote_is_one_word;
use crate::words::quoted_form;
use crate::words::WordV;
use vstd::prelude::*;

verus! {

broadcast use vstd::string::group_string_axioms;

proof fn blank_has_no_words(s: Seq<char>, i: int)
    requires
        0 <= i <= s.len(),
        forall|k: int| 0 <= k < s.len() ==> white_space(#[trigger] s[k]),
    ensures
        lex(s, i, Lex::start(), Parens::Break) == Ok::<Seq<WordV>, LexFault>(Seq::empty()),
    decreases s.len() - i,
{
    if i < s.len() {
        assert(white_space(s[i]));
        blank_has_no_words(s, i + 1);
    }
}

/// An empty or blank filter selects every task.
pub proof fn empty_filter_selects_everything(s: Seq<char>, cal: Spellings, c: CtxV)
    requires
        forall|k: int| 0 <= k < s.len() ==> white_space(#[trigger] s[k]),
    ensures
        parsed(s, cal) == Ok::<ExprV, Seq<char>>(ExprV::Pred(PredV::Always)),
        holds(ExprV::Pred(PredV::Always), c),
{
    blank_has_no_words(s, 0);
}

/// Requiring a tag and excluding it are opposites on every task.
pub proof fn include_and_exclude_are_opposites(tag: Seq<char>, c: CtxV)
    ensures
        pred_holds(PredV::TagInclude(tag), c) == !pred_holds(PredV::TagExclude(tag), c),
{
}

/// A task due at exactly the bound is neither before nor after it, and a task
/// with a readable due date off the bound is on exactly one side.
pub proof fn due_bounds_are_strict(n: int, c: CtxV)
    requires
        c.due is Some,
        stamp_instant(c.due->0) is Some,
    ensures
        stamp_instant(c.due->0)->0 == n ==> !pred_holds(PredV::DueBefore(n), c) && !pred_holds(
            PredV::DueAfter(n),
            c,
        ),
        stamp_instant(c.due->0)->0 != n ==> pred_holds(PredV::DueBefore(n), c) == !pred_holds(
            PredV::DueAfter(n),
            c,
        ),
{
}

/// A task with no readable due date lies within no bound on it.
pub proof fn undated_tasks_satisfy_no_bound(n: int, c: CtxV)
    requires
        c.due is None || stamp_instant(c.due->0) is None,
    ensures
        !pred_holds(PredV::DueBefore(n), c),
        !pred_holds(PredV::DueAfter(n), c),
{
}

/// One quoted word that is a predicate is the whole filter.
pub proof fn one_word_filter(w: WordV, cal: Spellings)
    requires
        w.quoted,
        predicate_spec(w.text, cal) is Ok,
    ensures
        words_parsed(seq![w], cal) == Ok::<ExprV, Seq<char>>(
            ExprV::Pred(predicate_spec(w.text, cal)->Ok_0),
        ),
{
    let t = seq![w];
    let p = ExprV::Pred(predicate_spec(w.text, cal)->Ok_0);
    assert(t[0] == w);
    assert(term_spec(t, 0, 0, cal) == Ok::<(ExprV, nat), Seq<char>>((p, 0)));
    assert(Seq::<ExprV>::empty().push(p) =~= seq![p]);
    assert(and_rest(t, 0, 1, 0, seq![p], cal) == Ok::<(ExprV, nat), Seq<char>>((p, 1)));
    assert(and_spec(t, 0, 0, cal) == Ok::<(ExprV, nat), Seq<char>>((p, 1)));
    assert(or_rest(t, 0, 1, 0, seq![p], cal) == Ok::<(ExprV, nat), Seq<char>>((p, 1)));
    assert(or_spec(t, 0, 0, cal) == Ok::<(ExprV, nat), Seq<char>>((p, 1)));
}

/// `project:` and a quoted name is the filter on exactly that project,
/// whatever the name holds.
pub proof fn quoted_project_is_that_project(v: Seq<char>, cal: Spellings)
    ensures
        parsed("project:"@ + quoted_form(v), cal) == Ok::<ExprV, Seq<char>>(
            ExprV::Pred(PredV::Project(v)),
        ),
{
    reveal_strlit("project:");
    reveal_strlit("@working");
    reveal_strlit("@blocked");
    reveal_strlit("+blocked");
    reveal_strlit("status:blocked");
    let p = "project:"@;
    prefixed_quote_is_one_word(p, v, Parens::Break);
    let tok = p + v;
    assert(tok[0] == 'p');
    assert("@working"@[0] == '@');
    assert("@blocked"@[0] == '@');
    assert("+blocked"@[0] == '+');
    assert("status:blocked"@[0] == 's');
    assert(tok.take(8) =~= p);
    assert(after(tok, p) =~= v);
    one_word_filter(WordV { text: tok, quoted: true }, cal);
}

/// `+` and a quoted tag is the filter on exactly that tag. The empty tag is no
/// tag, and `+blocked` asks for the blocked flag.
pub proof fn quoted_tag_is_required(v: Seq<char>, cal: Spellings)
    requires
        v.len() > 0,
        v != "blocked"@,
    ensures
        parsed("+"@ + quoted_form(v), cal) == Ok::<ExprV, Seq<char>>(
            ExprV::Pred(PredV::TagInclude(v)),
        ),
{
    reveal_strlit("+");
    reveal_strlit("blocked");
    reveal_strlit("@working");
    reveal_strlit("@blocked");
    reveal_strlit("+blocked");
    reveal_strlit("status:blocked");
    let p = "+"@;
    prefixed_quote_is_one_word(p, v, Parens::Break);
    let tok = p + v;
    assert(tok[0] == '+');
    assert("@working"@[0] == '@');
    assert("@blocked"@[0] == '@');
    assert("status:blocked"@[0] == 's');
    assert(tok.skip(1) =~= v);
    assert("+blocked"@.skip(1) =~= "blocked"@);
    one_word_filter(WordV { text: tok, quoted: true }, cal);
}

/// `-` and a quoted tag is the filter that excludes exactly that tag. A tag
/// that begins with a dash cannot be excluded.
pub proof fn quoted_tag_is_excluded(v: Seq<char>, cal: Spellings)
    requires
        v.len() > 0,
        v[0] != '-',
    ensures
        parsed("-"@ + quoted_form(v), cal) == Ok::<ExprV, Seq<char>>(
            ExprV::Pred(PredV::TagExclude(v)),
        ),
{
    reveal_strlit("-");
    reveal_strlit("@working");
    reveal_strlit("@blocked");
    reveal_strlit("+blocked");
    reveal_strlit("status:blocked");
    let p = "-"@;
    prefixed_quote_is_one_word(p, v, Parens::Break);
    let tok = p + v;
    assert(tok[0] == '-');
    assert(tok[1] == v[0]);
    assert("@working"@[0] == '@');
    assert("@blocked"@[0] == '@');
    assert("+blocked"@[0] == '+');
    assert("status:blocked"@[0] == 's');
    assert(tok.skip(1) =~= v);
    one_word_filter(WordV { text: tok, quoted: true }, cal);
}

proof fn too_deep(t: Seq<WordV>, depth: int, cal: Spellings)
    requires
        0 <= depth <= 64,
        t.len() >= 65,
        forall|k: int| 0 <= k < 65 ==> symbol(#[trigger] t[k], '('),
    ensures
        term_spec(t, depth, depth, cal) == Err::<(ExprV, nat), Seq<char>>(
            "filter nests more than 64 '(' groups deep"@,
        ),
        or_spec(t, depth, depth, cal) == Err::<(ExprV, nat), Seq<char>>(
            "filter nests more than 64 '(' groups deep"@,
        ),
    decreases 64 - depth,
{
    assert(symbol(t[depth], '('));
    assert(seq!['('][0] == '(');
    assert(seq![')'][0] == ')');
    if depth < 64 {
        too_deep(t, depth + 1, cal);
    }
    assert(!symbol(t[depth], ')'));
    assert(!or_word(t[depth]));
    assert(!and_word(t[depth]));
}

/// More groups open at once than the limit is a refusal, whatever follows.
pub proof fn nesting_is_bounded(t: Seq<WordV>, cal: Spellings)
    requires
        t.len() >= 65,
        forall|k: int| 0 <= k < 65 ==> symbol(#[trigger] t[k], '('),
    ensures
        words_parsed(t, cal) is Err,
{
    too_deep(t, 0, cal);
}

/// Whether a tree holds the term without restriction.
pub open spec fn has_always(e: ExprV) -> bool
    decreases e,
{
    match e {
        ExprV::And(v) => exists|i: int| 0 <= i < v.len() && has_always(#[trigger] v[i]),
        ExprV::Or(v) => exists|i: int| 0 <= i < v.len() && has_always(#[trigger] v[i]),
        ExprV::Pred(p) => p is Always,
    }
}

/// Whether none of some trees holds the term without restriction.
pub open spec fn none_always(v: Seq<ExprV>) -> bool {
    forall|i: int| 0 <= i < v.len() ==> !has_always(#[trigger] v[i])
}

proof fn node_restricts(v: Seq<ExprV>)
    requires
        none_always(v),
        v.len() > 0,
    ensures
        !has_always(conjunction(v)),
        !has_always(disjunction(v)),
{
    if v.len() == 1 {
        assert(!has_always(v[0]));
    } else {
        assert(ExprV::And(v)->And_0 == v);
        assert(ExprV::Or(v)->Or_0 == v);
        if has_always(ExprV::And(v)) {
            let i = choose|i: int| 0 <= i < v.len() && has_always(#[trigger] v[i]);
            assert(!has_always(v[i]));
        }
        if has_always(ExprV::Or(v)) {
            let i = choose|i: int| 0 <= i < v.len() && has_always(#[trigger] v[i]);
            assert(!has_always(v[i]));
        }
    }
}

proof fn or_restricts(t: Seq<WordV>, i: int, depth: int, cal: Spellings)
    requires
        depth <= 64,
    ensures
        or_spec(t, i, depth, cal) is Ok ==> !has_always(or_spec(t, i, depth, cal)->Ok_0.0),
    decreases 64 - depth, left(t, i), 4nat,
{
    let one = and_spec(t, i, depth, cal);
    and_restricts(t, i, i, depth, Seq::empty(), cal);
    if one is Ok {
        or_rest_restricts(t, i, i + one->Ok_0.1, depth, seq![one->Ok_0.0], cal);
    }
}

proof fn or_rest_restricts(
    t: Seq<WordV>,
    start: int,
    i: int,
    depth: int,
    parts: Seq<ExprV>,
    cal: Spellings,
)
    requires
        depth <= 64,
        none_always(parts),
        parts.len() > 0,
    ensures
        or_rest(t, start, i, depth, parts, cal) is Ok ==> !has_always(
            or_rest(t, start, i, depth, parts, cal)->Ok_0.0,
        ),
    decreases 64 - depth, left(t, i), 3nat,
{
    if i < t.len() && or_word(t[i]) {
        let one = and_spec(t, i + 1, depth, cal);
        and_restricts(t, i + 1, i + 1, depth, Seq::empty(), cal);
        if one is Ok {
            or_rest_restricts(t, start, i + 1 + one->Ok_0.1, depth, parts.push(one->Ok_0.0), cal);
        }
    } else {
        node_restricts(parts);
    }
}

proof fn and_restricts(
    t: Seq<WordV>,
    start: int,
    i: int,
    depth: int,
    parts: Seq<ExprV>,
    cal: Spellings,
)
    requires
        depth <= 64,
        none_always(parts),
    ensures
        and_rest(t, start, i, depth, parts, cal) is Ok ==> !has_always(
            and_rest(t, start, i, depth, parts, cal)->Ok_0.0,
        ),
    decreases 64 - depth, left(t, i), 1nat,
{
    if i >= t.len() || symbol(t[i], ')') || or_word(t[i]) {
        if parts.len() > 0 {
            node_restricts(parts);
        }
    } else if and_word(t[i]) {
        and_restricts(t, start, i + 1, depth, parts, cal);
    } else {
        let one = term_spec(t, i, depth, cal);
        if symbol(t[i], '(') && depth < 64 {
            or_restricts(t, i + 1, depth + 1, cal);
        }
        if one is Ok {
            and_restricts(t, start, i + 1 + one->Ok_0.1, depth, parts.push(one->Ok_0.0), cal);
        }
    }
}

/// Only a filter with no words at all holds the term without restriction: no
/// token, known or not, is ever read as one that matches everything.
pub proof fn every_word_restricts(t: Seq<WordV>, cal: Spellings)
    requires
        t.len() > 0,
        words_parsed(t, cal) is Ok,
    ensures
        !has_always(words_parsed(t, cal)->Ok_0),
{
    or_restricts(t, 0, 0, cal);
}

/// `status:` and a status's word selects exactly the tasks with that status.
pub proof fn status_word_selects_that_status(s: Status, cal: Spellings, c: CtxV)
    ensures
        predicate_spec("status:"@ + s.name(), cal) is Ok,
        pred_holds(predicate_spec("status:"@ + s.name(), cal)->Ok_0, c) == (c.status == s),
{
    reveal_strlit("status:");
    reveal_strlit("project:");
    reveal_strlit("@working");
    reveal_strlit("@blocked");
    reveal_strlit("+blocked");
    reveal_strlit("blocked");
    reveal_strlit("status:blocked");
    reveal_strlit("backlog");
    reveal_strlit("pending");
    reveal_strlit("active");
    reveal_strlit("done");
    reveal_strlit("cancelled");
    let p = "status:"@;
    let tok = p + s.name();
    assert(tok[0] == 's');
    assert("@working"@[0] == '@');
    assert("@blocked"@[0] == '@');
    assert("+blocked"@[0] == '+');
    assert("status:blocked"@.skip(7) =~= "blocked"@);
    assert(tok.skip(7) =~= s.name());
    assert("blocked"@[1] == 'l');
    assert("backlog"@[1] == 'a');
    assert("pending"@[1] == 'e');
    assert("blocked"@.len() == 7);
    assert(s.name() != "blocked"@);
    assert(tok.take(7) =~= p);
    assert(tok.take(8)[0] == 's');
    assert("project:"@[0] == 'p');
    assert(after(tok, p) =~= s.name());
    crate::types::status_word_names_itself(s);
}

} // verus!
