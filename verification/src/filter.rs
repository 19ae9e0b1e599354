//! The filter language: which tasks a query selects.
//!
//! [`GRAMMAR`] is the language. Juxtaposition binds tighter than `or`, a value
//! may be quoted, and a token the grammar does not know is refused rather than
//! read as a term that matches everything. A date bound is resolved once, when
//! the filter is parsed; matching compares instants and nothing else.
//!
//! [`parsed`] says what each text means as a tree, or why it is refused;
//! [`holds`] says which tasks a tree selects.

pub use crate::expr::Expr;
pub use crate::expr::MatchCtx;
pub use crate::expr::Pred;
use crate::expr::and_fails;
use crate::expr::bounded;
use crate::expr::child_names_status;
use crate::expr::exprs;
use crate::expr::holds;
use crate::expr::names_status;
use crate::expr::opt_str_view;
use crate::expr::or_holds;
use crate::expr::pred_holds;
use crate::expr::projects_in;
use crate::expr::projects_named;
use crate::expr::ExprV;
use crate::expr::PredV;
use crate::text::begins;
use crate::text::debug_form;
use crate::text::debug_text;
use crate::text::same;
use crate::text::starts_with;
use crate::text::strip_prefix;
use crate::text::texts;
use crate::types::status_named;
use crate::types::statuses_accepted;
use crate::types::Status;
use crate::when::parse_ts;
use crate::when::resolved;
use crate::when::stamp_instant;
use crate::when::Calendar;
use crate::words::fault_text;
pub use crate::words::from_argv;
use crate::words::lexed;
pub use crate::words::quote;
use crate::words::quoted_form;
use crate::words::scan;
pub use crate::words::split_words;
use crate::words::words;
pub use crate::words::Parens;
pub use crate::words::Word;
use crate::words::WordV;
use vstd::prelude::*;

verus! {

broadcast use {vstd::string::group_string_axioms, crate::expr::group_expr};

/// The filter grammar, as the guide shows it.
pub const GRAMMAR: &'static str = "\
filter     := or_expr
or_expr    := and_expr ( \"or\" and_expr )*
and_expr   := term ( \"and\"? term )*        # juxtaposition = implicit AND
term       := \"(\" or_expr \")\" | predicate
predicate  := \"+\" VALUE                    # require tag; VALUE not empty
            | \"-\" VALUE                    # exclude tag; VALUE not empty, not starting with a dash
            | \"@working\"                   # status in {pending,active} AND not blocked
            | \"@blocked\" | \"+blocked\" | \"status:blocked\"   # the blocked flag
            | \"project:\" VALUE
            | \"status:\" VALUE
            | \"due.before:\" DATE
            | \"due.after:\"  DATE
            | \"completed.before:\" DATE       # when the task was finished
            | \"completed.after:\"  DATE

VALUE      := CHUNK*                       # chunks abut; nothing may come between them
CHUNK      := WORD | QUOTED
WORD       := a run of characters, none of them whitespace, a quote or a paren
QUOTED     := a run between double quotes; backslash escapes a quote or a backslash
DATE       := any date `due:` accepts      # tomorrow, friday, 2026-07-25,
                                           # \"in 3 days\", eom, 2026-07-20T17:00";

/// The prefixes of the predicates that take a value.
pub const VALUE_PREFIXES: [&'static str; 8] = [
    "project:",
    "status:",
    "due.before:",
    "due.after:",
    "completed.before:",
    "completed.after:",
    "+",
    "-",
];

/// The token shapes a refusal offers.
pub const TOKEN_SHAPES: &'static str = "+tag, -tag, @working, @blocked, project:, status:, due.before:, due.after:, completed.before: or completed.after:";

/// How many groups may be open at once.
pub const MAX_NESTING: u32 = 64;

/// The calendar's entries, as [`resolved`] reads them.
pub type Spellings = Seq<(Seq<char>, Seq<char>)>;

/// An unquoted `or`, in any case.
pub open spec fn or_word(w: WordV) -> bool {
    &&& !w.quoted
    &&& w.text.len() == 2
    &&& (w.text[0] == 'o' || w.text[0] == 'O')
    &&& (w.text[1] == 'r' || w.text[1] == 'R')
}

/// An unquoted `and`, in any case.
pub open spec fn and_word(w: WordV) -> bool {
    &&& !w.quoted
    &&& w.text.len() == 3
    &&& (w.text[0] == 'a' || w.text[0] == 'A')
    &&& (w.text[1] == 'n' || w.text[1] == 'N')
    &&& (w.text[2] == 'd' || w.text[2] == 'D')
}

/// The character `c`, unquoted and alone.
pub open spec fn symbol(w: WordV, c: char) -> bool {
    !w.quoted && w.text == seq![c]
}

/// The instant a date bound names, or why it names none.
pub open spec fn bound_spec(value: Seq<char>, prefix: Seq<char>, c: Spellings) -> Result<
    int,
    Seq<char>,
> {
    match resolved(value, c) {
        Ok(t) => match stamp_instant(t) {
            Some(n) => Ok(n),
            None => Err(
                "`"@ + prefix + ":"@ + value + "` resolved to an unreadable instant "@ + debug_form(
                    t,
                ),
            ),
        },
        Err(e) => Err("`"@ + prefix + ":` needs a date — "@ + e.message),
    }
}

/// The refusal of a doubled dash.
pub open spec fn unknown_flag(tok: Seq<char>) -> Seq<char> {
    "unknown flag "@ + debug_form(tok)
        + " (a tag exclusion takes one dash, as -tag; filter tokens are "@ + TOKEN_SHAPES@ + ")"@
}

/// The refusal of a status that does not exist.
pub open spec fn unknown_status(v: Seq<char>) -> Seq<char> {
    "unknown status "@ + debug_form(v) + " (expected one of: "@ + statuses_accepted()
        + " — or `status:blocked` for the derived blocked flag)"@
}

/// The refusal of a token of no known shape.
pub open spec fn unknown_token(tok: Seq<char>) -> Seq<char> {
    "unknown filter token "@ + debug_form(tok) + " (expected "@ + TOKEN_SHAPES@ + ")"@
}

/// The text after `prefix`.
pub open spec fn after(tok: Seq<char>, prefix: Seq<char>) -> Seq<char> {
    tok.skip(prefix.len() as int)
}

/// The predicate a token names, or why it names none.
pub open spec fn predicate_spec(tok: Seq<char>, c: Spellings) -> Result<PredV, Seq<char>> {
    if tok == "@working"@ {
        Ok(PredV::Working)
    } else if tok == "@blocked"@ || tok == "+blocked"@ || tok == "status:blocked"@ {
        Ok(PredV::Blocked)
    } else if tok.len() > 1 && tok[0] == '+' {
        Ok(PredV::TagInclude(tok.skip(1)))
    } else if tok.len() > 1 && tok[0] == '-' && tok[1] == '-' {
        Err(unknown_flag(tok))
    } else if tok.len() > 1 && tok[0] == '-' {
        Ok(PredV::TagExclude(tok.skip(1)))
    } else if begins(tok, "project:"@) {
        Ok(PredV::Project(after(tok, "project:"@)))
    } else if begins(tok, "status:"@) {
        match status_named(after(tok, "status:"@)) {
            Some(s) => Ok(PredV::Status(s)),
            None => Err(unknown_status(after(tok, "status:"@))),
        }
    } else if begins(tok, "due.before:"@) {
        match bound_spec(after(tok, "due.before:"@), "due.before"@, c) {
            Ok(n) => Ok(PredV::DueBefore(n)),
            Err(m) => Err(m),
        }
    } else if begins(tok, "due.after:"@) {
        match bound_spec(after(tok, "due.after:"@), "due.after"@, c) {
            Ok(n) => Ok(PredV::DueAfter(n)),
            Err(m) => Err(m),
        }
    } else if begins(tok, "completed.before:"@) {
        match bound_spec(after(tok, "completed.before:"@), "completed.before"@, c) {
            Ok(n) => Ok(PredV::CompletedBefore(n)),
            Err(m) => Err(m),
        }
    } else if begins(tok, "completed.after:"@) {
        match bound_spec(after(tok, "completed.after:"@), "completed.after"@, c) {
            Ok(n) => Ok(PredV::CompletedAfter(n)),
            Err(m) => Err(m),
        }
    } else {
        Err(unknown_token(tok))
    }
}

/// The first of the value prefixes from `i` on that `text` begins with and has
/// a value after.
pub open spec fn value_prefix(text: Seq<char>, i: int) -> Option<Seq<char>>
    decreases 8 - i,
{
    if i < 0 || i >= 8 {
        None
    } else if begins(text, VALUE_PREFIXES@[i]@) && text.len() > VALUE_PREFIXES@[i]@.len() {
        Some(VALUE_PREFIXES@[i]@)
    } else {
        value_prefix(text, i + 1)
    }
}

/// Whether a token opens a predicate of its own.
pub open spec fn opens_predicate(text: Seq<char>) -> bool {
    (exists|i: int| 0 <= i < 8 && begins(text, #[trigger] VALUE_PREFIXES@[i]@)) || begins(
        text,
        "@"@,
    )
}

/// The hint that a value was cut at a space, where a bare word follows an
/// unquoted value.
pub open spec fn hint_spec(prev: Option<WordV>, tok: WordV) -> Option<Seq<char>> {
    match prev {
        None => None,
        Some(prev) => if prev.quoted || tok.quoted || opens_predicate(tok.text) {
            None
        } else {
            match value_prefix(prev.text, 0) {
                None => None,
                Some(p) => Some(
                    "did you mean "@ + p + quoted_form(after(prev.text, p) + " "@ + tok.text)
                        + "? quote a value that contains a space, so the shell hands it over whole"@,
                ),
            }
        },
    }
}

/// One child stands for itself; more are a conjunction.
pub open spec fn conjunction(parts: Seq<ExprV>) -> ExprV {
    if parts.len() == 1 {
        parts[0]
    } else {
        ExprV::And(parts)
    }
}

/// One child stands for itself; more are a disjunction.
pub open spec fn disjunction(parts: Seq<ExprV>) -> ExprV {
    if parts.len() == 1 {
        parts[0]
    } else {
        ExprV::Or(parts)
    }
}

/// How many words are left at `i`.
pub open spec fn left(t: Seq<WordV>, i: int) -> nat {
    if i < t.len() {
        (t.len() - i) as nat
    } else {
        0
    }
}

/// `or_expr` at `i`: its tree and how many words it takes.
pub open spec fn or_spec(t: Seq<WordV>, i: int, depth: int, c: Spellings) -> Result<
    (ExprV, nat),
    Seq<char>,
>
    decreases 64 - depth, left(t, i), 4nat,
{
    match and_spec(t, i, depth, c) {
        Err(m) => Err(m),
        Ok(one) => or_rest(t, i, i + one.1, depth, seq![one.0], c),
    }
}

/// The rest of an `or_expr` that began at `start`, from `i` on, after `parts`.
pub open spec fn or_rest(
    t: Seq<WordV>,
    start: int,
    i: int,
    depth: int,
    parts: Seq<ExprV>,
    c: Spellings,
) -> Result<(ExprV, nat), Seq<char>>
    decreases 64 - depth, left(t, i), 3nat,
{
    if i < t.len() && or_word(t[i]) {
        match and_spec(t, i + 1, depth, c) {
            Err(m) => Err(m),
            Ok(one) => or_rest(t, start, i + 1 + one.1, depth, parts.push(one.0), c),
        }
    } else {
        Ok((disjunction(parts), (i - start) as nat))
    }
}

/// `and_expr` at `i`: its tree and how many words it takes.
pub open spec fn and_spec(t: Seq<WordV>, i: int, depth: int, c: Spellings) -> Result<
    (ExprV, nat),
    Seq<char>,
>
    decreases 64 - depth, left(t, i), 2nat,
{
    and_rest(t, i, i, depth, Seq::empty(), c)
}

/// The rest of an `and_expr` that began at `start`, from `i` on, after `parts`.
pub open spec fn and_rest(
    t: Seq<WordV>,
    start: int,
    i: int,
    depth: int,
    parts: Seq<ExprV>,
    c: Spellings,
) -> Result<(ExprV, nat), Seq<char>>
    decreases 64 - depth, left(t, i), 1nat,
{
    if i >= t.len() || symbol(t[i], ')') || or_word(t[i]) {
        if parts.len() == 0 {
            Err("expected a filter term"@)
        } else {
            Ok((conjunction(parts), (i - start) as nat))
        }
    } else if and_word(t[i]) {
        and_rest(t, start, i + 1, depth, parts, c)
    } else {
        match term_spec(t, i, depth, c) {
            Err(m) => Err(m),
            Ok(one) => and_rest(t, start, i + 1 + one.1, depth, parts.push(one.0), c),
        }
    }
}

/// `term` at `i`: its tree and how many words it takes after its first.
pub open spec fn term_spec(t: Seq<WordV>, i: int, depth: int, c: Spellings) -> Result<
    (ExprV, nat),
    Seq<char>,
>
    decreases 64 - depth, left(t, i), 0nat,
{
    if symbol(t[i], '(') {
        if depth >= 64 {
            Err("filter nests more than 64 '(' groups deep"@)
        } else {
            match or_spec(t, i + 1, depth + 1, c) {
                Err(m) => Err(m),
                Ok(inner) => {
                    let end = i + 1 + inner.1;
                    if end < t.len() && symbol(t[end], ')') {
                        Ok((inner.0, inner.1 + 1))
                    } else {
                        Err("unclosed '(' in filter"@)
                    }
                },
            }
        }
    } else {
        match predicate_spec(t[i].text, c) {
            Ok(p) => Ok((ExprV::Pred(p), 0)),
            Err(m) => match hint_spec(
                if i > 0 {
                    Some(t[i - 1])
                } else {
                    None
                },
                t[i],
            ) {
                Some(h) => Err(m + " — "@ + h),
                None => Err(m),
            },
        }
    }
}

/// The tree of a whole list of words.
pub open spec fn words_parsed(t: Seq<WordV>, c: Spellings) -> Result<ExprV, Seq<char>> {
    if t.len() == 0 {
        Ok(ExprV::Pred(PredV::Always))
    } else {
        match or_spec(t, 0, 0, c) {
            Err(m) => Err(m),
            Ok(e) => if e.1 < t.len() {
                Err("unexpected "@ + debug_form(t[e.1 as int].text) + " in filter"@)
            } else {
                Ok(e.0)
            },
        }
    }
}

/// The tree a filter text means, or why it is refused.
pub open spec fn parsed(input: Seq<char>, c: Spellings) -> Result<ExprV, Seq<char>> {
    match lexed(input, Parens::Break) {
        Err(f) => Err(fault_text(f, "filter"@)),
        Ok(t) => words_parsed(t, c),
    }
}

fn is_or(w: &Word) -> (r: bool)
    ensures
        r == or_word(w@),
{
    if w.quoted || w.text.as_str().unicode_len() != 2 {
        return false;
    }
    let a: char = w.text.as_str().get_char(0);
    let b: char = w.text.as_str().get_char(1);
    (a == 'o' || a == 'O') && (b == 'r' || b == 'R')
}

fn is_and(w: &Word) -> (r: bool)
    ensures
        r == and_word(w@),
{
    if w.quoted || w.text.as_str().unicode_len() != 3 {
        return false;
    }
    let a: char = w.text.as_str().get_char(0);
    let b: char = w.text.as_str().get_char(1);
    let c: char = w.text.as_str().get_char(2);
    (a == 'a' || a == 'A') && (b == 'n' || b == 'N') && (c == 'd' || c == 'D')
}

fn is_symbol(w: &Word, c: char) -> (r: bool)
    ensures
        r == symbol(w@, c),
{
    if w.quoted || w.text.as_str().unicode_len() != 1 {
        return false;
    }
    let a: char = w.text.as_str().get_char(0);
    assert(w.text@ =~= seq![a]);
    assert(seq![a][0] == a);
    assert(seq![c][0] == c);
    a == c
}

/// The instant a date bound names, or why it names none. The bound takes
/// whatever a date field takes.
fn bound(value: &str, prefix: &str, cal: &Calendar) -> (r: Result<i128, String>)
    ensures
        r is Ok == bound_spec(value@, prefix@, cal@) is Ok,
        r is Ok ==> r->Ok_0 == bound_spec(value@, prefix@, cal@)->Ok_0,
        r is Err ==> r->Err_0@ == bound_spec(value@, prefix@, cal@)->Err_0,
{
    match cal.parse_when(value) {
        Ok(t) => match parse_ts(t.as_str()) {
            Some(n) => Ok(n),
            None => {
                let mut m: String = "`".to_owned();
                m.append(prefix);
                m.append(":");
                m.append(value);
                m.append("` resolved to an unreadable instant ");
                m.append(debug_text(t.as_str()).as_str());
                Err(m)
            },
        },
        Err(e) => {
            let mut m: String = "`".to_owned();
            m.append(prefix);
            m.append(":` needs a date — ");
            m.append(e.message.as_str());
            Err(m)
        },
    }
}

/// Maps a single token to its predicate, or says why it is none.
pub fn predicate(tok: &str, cal: &Calendar) -> (r: Result<Pred, String>)
    ensures
        r is Ok == predicate_spec(tok@, cal@) is Ok,
        r is Ok ==> r->Ok_0@ == predicate_spec(tok@, cal@)->Ok_0,
        r is Err ==> r->Err_0@ == predicate_spec(tok@, cal@)->Err_0,
{
    if same(tok, "@working") {
        return Ok(Pred::Working);
    }
    if same(tok, "@blocked") || same(tok, "+blocked") || same(tok, "status:blocked") {
        return Ok(Pred::Blocked);
    }
    let n: usize = tok.unicode_len();
    if n > 1 {
        let first: char = tok.get_char(0);
        if first == '+' {
            let rest = tok.substring_char(1, n);
            assert(rest@ =~= tok@.skip(1));
            return Ok(Pred::TagInclude(rest.to_owned()));
        }
        if first == '-' {
            if tok.get_char(1) == '-' {
                let mut m: String = "unknown flag ".to_owned();
                m.append(debug_text(tok).as_str());
                m.append(" (a tag exclusion takes one dash, as -tag; filter tokens are ");
                m.append(TOKEN_SHAPES);
                m.append(")");
                return Err(m);
            }
            let rest = tok.substring_char(1, n);
            assert(rest@ =~= tok@.skip(1));
            return Ok(Pred::TagExclude(rest.to_owned()));
        }
    }
    if let Some(v) = strip_prefix(tok, "project:") {
        return Ok(Pred::Project(v.to_owned()));
    }
    if let Some(v) = strip_prefix(tok, "status:") {
        return match Status::parse(v) {
            Some(s) => Ok(Pred::Status(s)),
            None => {
                let mut m: String = "unknown status ".to_owned();
                m.append(debug_text(v).as_str());
                m.append(" (expected one of: ");
                m.append(Status::accepted());
                m.append(" — or `status:blocked` for the derived blocked flag)");
                Err(m)
            },
        };
    }
    if let Some(v) = strip_prefix(tok, "due.before:") {
        return match bound(v, "due.before", cal) {
            Ok(n) => Ok(Pred::DueBefore(n)),
            Err(m) => Err(m),
        };
    }
    if let Some(v) = strip_prefix(tok, "due.after:") {
        return match bound(v, "due.after", cal) {
            Ok(n) => Ok(Pred::DueAfter(n)),
            Err(m) => Err(m),
        };
    }
    if let Some(v) = strip_prefix(tok, "completed.before:") {
        return match bound(v, "completed.before", cal) {
            Ok(n) => Ok(Pred::CompletedBefore(n)),
            Err(m) => Err(m),
        };
    }
    if let Some(v) = strip_prefix(tok, "completed.after:") {
        return match bound(v, "completed.after", cal) {
            Ok(n) => Ok(Pred::CompletedAfter(n)),
            Err(m) => Err(m),
        };
    }
    let mut m: String = "unknown filter token ".to_owned();
    m.append(debug_text(tok).as_str());
    m.append(" (expected ");
    m.append(TOKEN_SHAPES);
    m.append(")");
    Err(m)
}

/// The hint that turns the refusal of a word cut off at a space into a fix.
fn spacing_hint(prev: Option<&Word>, tok: &Word) -> (r: Option<String>)
    ensures
        r is Some == hint_spec(
            match prev {
                Some(w) => Some(w@),
                None => None,
            },
            tok@,
        ) is Some,
        r is Some ==> r->0@ == hint_spec(
            match prev {
                Some(w) => Some(w@),
                None => None,
            },
            tok@,
        )->0,
{
    let last: &Word = match prev {
        Some(p) => p,
        None => {
            return None;
        },
    };
    if last.quoted || tok.quoted {
        return None;
    }
    let mut i: usize = 0;
    while i < 8
        invariant
            i <= 8,
            forall|k: int| 0 <= k < i ==> !begins(tok@.text, #[trigger] VALUE_PREFIXES@[k]@),
        decreases 8 - i,
    {
        if starts_with(tok.text.as_str(), VALUE_PREFIXES[i]) {
            return None;
        }
        i += 1;
    }
    if starts_with(tok.text.as_str(), "@") {
        return None;
    }
    let mut j: usize = 0;
    while j < 8
        invariant
            j <= 8,
            prev == Some(last),
            value_prefix(last@.text, 0) == value_prefix(last@.text, j as int),
            !last.quoted,
            !tok.quoted,
            !opens_predicate(tok@.text),
        decreases 8 - j,
    {
        let p: &str = VALUE_PREFIXES[j];
        if let Some(v) = strip_prefix(last.text.as_str(), p) {
            if v.unicode_len() > 0 {
                let mut value: String = v.to_owned();
                value.append(" ");
                value.append(tok.text.as_str());
                let mut m: String = "did you mean ".to_owned();
                m.append(p);
                m.append(quote(value.as_str()).as_str());
                m.append(
                    "? quote a value that contains a space, so the shell hands it over whole",
                );
                return Some(m);
            }
        }
        j += 1;
    }
    None
}

fn parse_or(t: &Vec<Word>, start: usize, depth: u32, cal: &Calendar) -> (r: Result<
    (Expr, usize),
    String,
>)
    requires
        start <= t@.len(),
        depth <= 64,
    ensures
        r is Ok == or_spec(words(t@), start as int, depth as int, cal@) is Ok,
        r is Ok ==> {
            let want = or_spec(words(t@), start as int, depth as int, cal@)->Ok_0;
            &&& r->Ok_0.0@ == want.0
            &&& r->Ok_0.1 == start + want.1
            &&& r->Ok_0.1 <= t@.len()
        },
        r is Err ==> r->Err_0@ == or_spec(words(t@), start as int, depth as int, cal@)->Err_0,
    decreases 64 - depth, 2nat,
{
    let ghost tv = words(t@);
    let (first, next) = match parse_and(t, start, depth, cal) {
        Ok(one) => one,
        Err(m) => {
            return Err(m);
        },
    };
    let mut parts: Vec<Expr> = Vec::new();
    let mut pos: usize = next;
    assert(exprs(parts@) =~= Seq::empty());
    parts.push(first);
    assert(exprs(parts@) =~= seq![first@]);
    while pos < t.len() && is_or(&t[pos])
        invariant
            tv == words(t@),
            depth <= 64,
            start <= pos <= t@.len(),
            parts@.len() >= 1,
            or_spec(tv, start as int, depth as int, cal@) == or_rest(
                tv,
                start as int,
                pos as int,
                depth as int,
                exprs(parts@),
                cal@,
            ),
        decreases t@.len() - pos,
    {
        match parse_and(t, pos + 1, depth, cal) {
            Ok(one) => {
                parts.push(one.0);
                pos = one.1;
            },
            Err(m) => {
                return Err(m);
            },
        }
    }
    if parts.len() == 1 {
        let ghost whole = exprs(parts@);
        let only: Expr = parts.pop().unwrap();
        assert(whole[0] == only@);
        Ok((only, pos))
    } else {
        Ok((Expr::Or(parts), pos))
    }
}

fn parse_and(t: &Vec<Word>, start: usize, depth: u32, cal: &Calendar) -> (r: Result<
    (Expr, usize),
    String,
>)
    requires
        start <= t@.len(),
        depth <= 64,
    ensures
        r is Ok == and_spec(words(t@), start as int, depth as int, cal@) is Ok,
        r is Ok ==> {
            let want = and_spec(words(t@), start as int, depth as int, cal@)->Ok_0;
            &&& r->Ok_0.0@ == want.0
            &&& r->Ok_0.1 == start + want.1
            &&& r->Ok_0.1 <= t@.len()
        },
        r is Err ==> r->Err_0@ == and_spec(words(t@), start as int, depth as int, cal@)->Err_0,
    decreases 64 - depth, 1nat,
{
    let ghost tv = words(t@);
    let mut parts: Vec<Expr> = Vec::new();
    let mut pos: usize = start;
    assert(exprs(parts@) =~= Seq::empty());
    while pos < t.len() && !is_symbol(&t[pos], ')') && !is_or(&t[pos])
        invariant
            tv == words(t@),
            depth <= 64,
            start <= pos <= t@.len(),
            and_spec(tv, start as int, depth as int, cal@) == and_rest(
                tv,
                start as int,
                pos as int,
                depth as int,
                exprs(parts@),
                cal@,
            ),
        decreases t@.len() - pos,
    {
        if is_and(&t[pos]) {
            pos += 1;
        } else {
            match parse_term(t, pos, depth, cal) {
                Ok(one) => {
                    parts.push(one.0);
                    pos = one.1;
                },
                Err(m) => {
                    return Err(m);
                },
            }
        }
    }
    if parts.len() == 0 {
        return Err("expected a filter term".to_owned());
    }
    if parts.len() == 1 {
        let ghost whole = exprs(parts@);
        let only: Expr = parts.pop().unwrap();
        assert(whole[0] == only@);
        Ok((only, pos))
    } else {
        Ok((Expr::And(parts), pos))
    }
}

fn parse_term(t: &Vec<Word>, pos: usize, depth: u32, cal: &Calendar) -> (r: Result<
    (Expr, usize),
    String,
>)
    requires
        pos < t@.len(),
        depth <= 64,
    ensures
        r is Ok == term_spec(words(t@), pos as int, depth as int, cal@) is Ok,
        r is Ok ==> {
            let want = term_spec(words(t@), pos as int, depth as int, cal@)->Ok_0;
            &&& r->Ok_0.0@ == want.0
            &&& r->Ok_0.1 == pos + 1 + want.1
            &&& r->Ok_0.1 <= t@.len()
        },
        r is Err ==> r->Err_0@ == term_spec(words(t@), pos as int, depth as int, cal@)->Err_0,
    decreases 64 - depth, 0nat,
{
    let ghost tv = words(t@);
    let n: usize = t.len();
    if is_symbol(&t[pos], '(') {
        if depth == MAX_NESTING {
            return Err("filter nests more than 64 '(' groups deep".to_owned());
        }
        let (inner, end) = match parse_or(t, pos + 1, depth + 1, cal) {
            Ok(one) => one,
            Err(m) => {
                return Err(m);
            },
        };
        if end >= n || !is_symbol(&t[end], ')') {
            return Err("unclosed '(' in filter".to_owned());
        }
        return Ok((inner, end + 1));
    }
    match predicate(t[pos].text.as_str(), cal) {
        Ok(p) => Ok((Expr::Pred(p), pos + 1)),
        Err(e) => {
            let prev: Option<&Word> = if pos > 0 {
                Some(&t[pos - 1])
            } else {
                None
            };
            assert(pos > 0 ==> tv[pos - 1] == t@[pos - 1]@);
            match spacing_hint(prev, &t[pos]) {
                Some(h) => {
                    let mut m: String = e;
                    m.append(" — ");
                    m.append(h.as_str());
                    Err(m)
                },
                None => Err(e),
            }
        },
    }
}

/// A parsed filter.
#[derive(Debug)]
pub struct Filter {
    pub root: Expr,
}

impl View for Filter {
    type V = ExprV;

    open spec fn view(&self) -> ExprV {
        self.root@
    }
}

impl Filter {
    /// Parses a filter, or says why the text is none. The empty text selects
    /// every task. Spellings that need a clock mean what `cal` says.
    pub fn parse(input: &str, cal: &Calendar) -> (r: Result<Filter, String>)
        ensures
            r is Ok == parsed(input@, cal@) is Ok,
            r is Ok ==> r->Ok_0@ == parsed(input@, cal@)->Ok_0,
            r is Err ==> r->Err_0@ == parsed(input@, cal@)->Err_0,
    {
        let t: Vec<Word> = match scan(input, Parens::Break, "filter") {
            Ok(t) => t,
            Err(m) => {
                return Err(m);
            },
        };
        if t.len() == 0 {
            return Ok(Filter { root: Expr::Pred(Pred::Always) });
        }
        let (root, end) = match parse_or(&t, 0, 0, cal) {
            Ok(one) => one,
            Err(m) => {
                return Err(m);
            },
        };
        if end < t.len() {
            let mut m: String = "unexpected ".to_owned();
            m.append(debug_text(t[end].text.as_str()).as_str());
            m.append(" in filter");
            return Err(m);
        }
        Ok(Filter { root })
    }

    /// Whether the filter selects the task.
    pub fn matches(&self, ctx: &MatchCtx) -> (r: bool)
        ensures
            r == holds(self@, ctx@),
    {
        eval(&self.root, ctx)
    }

    /// Whether the filter already constrains status, so that a default on
    /// status has to step aside.
    pub fn constrains_status(&self) -> (r: bool)
        ensures
            r == names_status(self@),
    {
        constrains_status(&self.root)
    }

    /// Whether this is the empty filter.
    pub fn is_unfiltered(&self) -> (r: bool)
        ensures
            r == (self@ == ExprV::Pred(PredV::Always)),
    {
        match &self.root {
            Expr::Pred(Pred::Always) => true,
            _ => false,
        }
    }

    /// The projects the filter names, in order.
    pub fn project_names(&self) -> (r: Vec<String>)
        ensures
            texts(r@) == projects_named(self@),
    {
        let mut out: Vec<String> = Vec::new();
        collect_projects(&self.root, &mut out);
        assert(texts(out@) =~= projects_named(self@));
        out
    }
}

fn collect_projects(e: &Expr, out: &mut Vec<String>)
    ensures
        texts(final(out)@) == texts(old(out)@) + projects_named(e@),
    decreases e,
{
    match e {
        Expr::And(v) => {
            let mut i: usize = 0;
            assert(texts(out@) =~= texts(old(out)@) + projects_in(exprs(v@), 0));
            while i < v.len()
                invariant
                    i <= v@.len(),
                    *e == Expr::And(*v),
                    texts(out@) == texts(old(out)@) + projects_in(exprs(v@), i as nat),
                decreases v@.len() - i,
            {
                assert(decreases_to!(*e => e->And_0));
                assert(decreases_to!(*v => v@[i as int]));
                collect_projects(&v[i], out);
                i += 1;
                assert(texts(out@) =~= texts(old(out)@) + projects_in(exprs(v@), i as nat));
            }
        },
        Expr::Or(v) => {
            let mut i: usize = 0;
            assert(texts(out@) =~= texts(old(out)@) + projects_in(exprs(v@), 0));
            while i < v.len()
                invariant
                    i <= v@.len(),
                    *e == Expr::Or(*v),
                    texts(out@) == texts(old(out)@) + projects_in(exprs(v@), i as nat),
                decreases v@.len() - i,
            {
                assert(decreases_to!(*e => e->Or_0));
                assert(decreases_to!(*v => v@[i as int]));
                collect_projects(&v[i], out);
                i += 1;
                assert(texts(out@) =~= texts(old(out)@) + projects_in(exprs(v@), i as nat));
            }
        },
        Expr::Pred(Pred::Project(p)) => {
            out.push(p.clone());
            assert(texts(out@) =~= texts(old(out)@) + seq![p@]);
        },
        Expr::Pred(_) => {
            assert(texts(out@) =~= texts(old(out)@) + Seq::<Seq<char>>::empty());
        },
    }
}

fn constrains_status(e: &Expr) -> (r: bool)
    ensures
        r == names_status(e@),
    decreases e,
{
    match e {
        Expr::And(v) => {
            let mut i: usize = 0;
            while i < v.len()
                invariant
                    i <= v@.len(),
                    *e == Expr::And(*v),
                    forall|k: int| 0 <= k < i ==> !names_status(#[trigger] exprs(v@)[k]),
                decreases v@.len() - i,
            {
                assert(decreases_to!(*e => e->And_0));
                assert(decreases_to!(*v => v@[i as int]));
                assert(e@ == ExprV::And(exprs(v@)));
                assert(exprs(v@)[i as int] == v@[i as int]@);
                if constrains_status(&v[i]) {
                    proof {
                        child_names_status(exprs(v@), i as int);
                    }
                    return true;
                }
                i += 1;
            }
            false
        },
        Expr::Or(v) => {
            let mut i: usize = 0;
            while i < v.len()
                invariant
                    i <= v@.len(),
                    *e == Expr::Or(*v),
                    forall|k: int| 0 <= k < i ==> !names_status(#[trigger] exprs(v@)[k]),
                decreases v@.len() - i,
            {
                assert(decreases_to!(*e => e->Or_0));
                assert(decreases_to!(*v => v@[i as int]));
                assert(e@ == ExprV::Or(exprs(v@)));
                assert(exprs(v@)[i as int] == v@[i as int]@);
                if constrains_status(&v[i]) {
                    proof {
                        child_names_status(exprs(v@), i as int);
                    }
                    return true;
                }
                i += 1;
            }
            false
        },
        Expr::Pred(p) => match p {
            Pred::Status(_) => true,
            Pred::Working => true,
            _ => false,
        },
    }
}

fn eval(e: &Expr, ctx: &MatchCtx) -> (r: bool)
    ensures
        r == holds(e@, ctx@),
    decreases e,
{
    match e {
        Expr::And(v) => {
            let mut i: usize = 0;
            while i < v.len()
                invariant
                    i <= v@.len(),
                    *e == Expr::And(*v),
                    forall|k: int| 0 <= k < i ==> holds(#[trigger] exprs(v@)[k], ctx@),
                decreases v@.len() - i,
            {
                assert(decreases_to!(*e => e->And_0));
                assert(decreases_to!(*v => v@[i as int]));
                assert(e@ == ExprV::And(exprs(v@)));
                assert(exprs(v@)[i as int] == v@[i as int]@);
                if !eval(&v[i], ctx) {
                    proof {
                        and_fails(exprs(v@), i as int, ctx@);
                    }
                    return false;
                }
                i += 1;
            }
            true
        },
        Expr::Or(v) => {
            let mut i: usize = 0;
            while i < v.len()
                invariant
                    i <= v@.len(),
                    *e == Expr::Or(*v),
                    forall|k: int| 0 <= k < i ==> !holds(#[trigger] exprs(v@)[k], ctx@),
                decreases v@.len() - i,
            {
                assert(decreases_to!(*e => e->Or_0));
                assert(decreases_to!(*v => v@[i as int]));
                assert(e@ == ExprV::Or(exprs(v@)));
                assert(exprs(v@)[i as int] == v@[i as int]@);
                if eval(&v[i], ctx) {
                    proof {
                        or_holds(exprs(v@), i as int, ctx@);
                    }
                    return true;
                }
                i += 1;
            }
            false
        },
        Expr::Pred(p) => eval_pred(p, ctx),
    }
}

fn carries(tags: &[String], tag: &str) -> (r: bool)
    ensures
        r == texts(tags@).contains(tag@),
{
    let mut i: usize = 0;
    while i < tags.len()
        invariant
            i <= tags@.len(),
            forall|k: int| 0 <= k < i ==> #[trigger] texts(tags@)[k] != tag@,
        decreases tags@.len() - i,
    {
        assert(texts(tags@)[i as int] == tags@[i as int]@);
        if same(tags[i].as_str(), tag) {
            return true;
        }
        i += 1;
    }
    false
}

fn eval_pred(p: &Pred, ctx: &MatchCtx) -> (r: bool)
    ensures
        r == pred_holds(p@, ctx@),
{
    match p {
        Pred::Always => true,
        Pred::Status(s) => *s == ctx.status,
        Pred::Project(n) => match ctx.project {
            Some(q) => same(q, n.as_str()),
            None => false,
        },
        Pred::TagInclude(t) => carries(ctx.tags, t.as_str()),
        Pred::TagExclude(t) => !carries(ctx.tags, t.as_str()),
        Pred::Working => (ctx.status == Status::Pending || ctx.status == Status::Active)
            && !ctx.blocked,
        Pred::Blocked => ctx.blocked,
        Pred::DueBefore(n) => on_side(ctx.due, *n, true),
        Pred::DueAfter(n) => on_side(ctx.due, *n, false),
        Pred::CompletedBefore(n) => on_side(ctx.completed, *n, true),
        Pred::CompletedAfter(n) => on_side(ctx.completed, *n, false),
    }
}

/// Compares a date field with a bound, as instants. The two date fields share
/// it, so that no boundary case is answered two ways.
fn on_side(field: Option<&str>, bound: i128, before: bool) -> (r: bool)
    ensures
        r == bounded(opt_str_view(field), bound as int, before),
{
    let instant: Option<i128> = match field {
        Some(s) => parse_ts(s),
        None => None,
    };
    match instant {
        Some(n) => if before {
            n < bound
        } else {
            n > bound
        },
        None => false,
    }
}

} // verus!
