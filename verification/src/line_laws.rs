//! What holds of every line that is split into words.

use crate::text::white_space;
use crate::words::lex;
use crate::words::Lex;
use crate::words::lexed;
use crate::words::LexFault;
use crate::words::Parens;
use crate::words::plain;
use crate::words::WordV;
use vstd::prelude::*;

verus! {

broadcast use vstd::string::group_string_axioms;

/// Whether a word is one run of plain characters.
pub open spec fn plain_word(w: Seq<char>) -> bool {
    w.len() > 0 && forall|k: int| 0 <= k < w.len() ==> plain(#[trigger] w[k])
}

proof fn run_is_read(s: Seq<char>, i: int, w: Seq<char>, k: int, l: Lex, parens: Parens)
    requires
        0 <= i,
        0 <= k <= w.len(),
        i + w.len() <= s.len(),
        s.subrange(i, i + w.len()) == w,
        forall|j: int| 0 <= j < w.len() ==> plain(#[trigger] w[j]),
        !l.inside,
    ensures
        lex(s, i, l, parens) == lex(
            s,
            i + k,
            (Lex { cur: l.cur + w.take(k), started: l.started || k > 0, ..l }),
            parens,
        ),
    decreases k,
{
    if k == 0 {
        assert(l.cur + w.take(0) =~= l.cur);
    } else {
        run_is_read(s, i, w, k - 1, l, parens);
        assert(s.subrange(i, i + w.len())[k - 1] == s[i + k - 1]);
        assert(plain(w[k - 1]));
        assert((l.cur + w.take(k - 1)).push(w[k - 1]) =~= l.cur + w.take(k));
    }
}

/// Two plain words with white space between them are these two words, and one
/// plain word is one.
pub proof fn plain_words_are_split_at_white_space(
    a: Seq<char>,
    c: char,
    b: Seq<char>,
    parens: Parens,
)
    requires
        plain_word(a),
        plain_word(b),
        white_space(c),
    ensures
        lexed(a, parens) == Ok::<Seq<WordV>, LexFault>(seq![WordV { text: a, quoted: false }]),
        lexed(a.push(c) + b, parens) == Ok::<Seq<WordV>, LexFault>(
            seq![WordV { text: a, quoted: false }, WordV { text: b, quoted: false }],
        ),
{
    let start = Lex::start();
    assert(a.subrange(0, a.len() as int) =~= a);
    run_is_read(a, 0, a, a.len() as int, start, parens);
    assert(start.cur + a.take(a.len() as int) =~= a);
    let read = Lex { cur: a, started: true, ..start };
    assert(read.flushed().out =~= seq![WordV { text: a, quoted: false }]);
    let s = a.push(c) + b;
    let n = a.len() as int;
    assert(s.subrange(0, n) =~= a);
    run_is_read(s, 0, a, n, start, parens);
    assert(s[n] == c);
    white_space_is_not_special(c);
    let next = read.flushed();
    assert(lexed(s, parens) == lex(s, n + 1, next, parens));
    assert(s.subrange(n + 1, n + 1 + b.len()) =~= b);
    run_is_read(s, n + 1, b, b.len() as int, next, parens);
    assert(next.cur + b.take(b.len() as int) =~= b);
    let last = Lex { cur: b, started: true, ..next };
    assert(last.flushed().out =~= seq![
        WordV { text: a, quoted: false },
        WordV { text: b, quoted: false },
    ]);
}

proof fn white_space_is_not_special(c: char)
    requires
        white_space(c),
    ensures
        c != '"',
        c != '(',
        c != ')',
        c != '\\',
{
}

/// Where parentheses stand by themselves, one that follows a plain word ends it
/// and is a word of its own; where they do not, it is part of the word.
pub proof fn parentheses_end_words_where_they_stand_alone(a: Seq<char>, c: char)
    requires
        plain_word(a),
        c == '(' || c == ')',
    ensures
        lexed(a.push(c), Parens::Break) == Ok::<Seq<WordV>, LexFault>(
            seq![WordV { text: a, quoted: false }, WordV { text: seq![c], quoted: false }],
        ),
        lexed(a.push(c), Parens::Ordinary) == Ok::<Seq<WordV>, LexFault>(
            seq![WordV { text: a.push(c), quoted: false }],
        ),
{
    let start = Lex::start();
    let s = a.push(c);
    let n = a.len() as int;
    assert(s.subrange(0, n) =~= a);
    run_is_read(s, 0, a, n, start, Parens::Break);
    run_is_read(s, 0, a, n, start, Parens::Ordinary);
    assert(start.cur + a.take(n) =~= a);
    let read = Lex { cur: a, started: true, ..start };
    assert(s[n] == c);
    let f = read.flushed();
    let own = Lex { out: f.out.push(WordV { text: seq![c], quoted: false }), ..f };
    assert(lexed(s, Parens::Break) == lex(s, n + 1, own, Parens::Break));
    assert(own.flushed().out =~= seq![
        WordV { text: a, quoted: false },
        WordV { text: seq![c], quoted: false },
    ]);
    parentheses_are_not_white(c);
    let more = read.with(c);
    assert(lexed(s, Parens::Ordinary) == lex(s, n + 1, more, Parens::Ordinary));
    assert(more.flushed().out =~= seq![WordV { text: a.push(c), quoted: false }]);
}

proof fn parentheses_are_not_white(c: char)
    requires
        c == '(' || c == ')',
    ensures
        !white_space(c),
{
}

proof fn unclosed_from(s: Seq<char>, i: int, l: Lex, parens: Parens)
    requires
        0 <= i,
        l.inside,
        forall|k: int| i <= k < s.len() ==> #[trigger] s[k] != '"' && s[k] != '\\',
    ensures
        lex(s, i, l, parens) == Err::<Seq<WordV>, LexFault>(LexFault::Unterminated),
    decreases s.len() - i,
{
    if i < s.len() {
        assert(s[i] != '"');
        unclosed_from(s, i + 1, l.with(s[i]), parens);
    }
}

/// A quote that is opened and never closed is refused, whatever stands in it.
pub proof fn open_quotes_are_refused(p: Seq<char>, v: Seq<char>, parens: Parens)
    requires
        forall|k: int| 0 <= k < p.len() ==> plain(#[trigger] p[k]),
        forall|k: int| 0 <= k < v.len() ==> #[trigger] v[k] != '"' && v[k] != '\\',
    ensures
        lexed(p.push('"') + v, parens) == Err::<Seq<WordV>, LexFault>(LexFault::Unterminated),
{
    let s = p.push('"') + v;
    let n = p.len() as int;
    assert(s.subrange(0, n) =~= p);
    run_is_read(s, 0, p, n, Lex::start(), parens);
    assert(s[n] == '"');
    assert forall|k: int| n + 1 <= k < s.len() implies #[trigger] s[k] != '"' && s[k] != '\\' by {
        assert(s[k] == v[k - n - 1]);
    }
    let l = Lex { cur: p.take(n), started: n > 0, ..Lex::start() };
    assert(Lex::start().cur + p.take(n) =~= p.take(n));
    unclosed_from(s, n + 1, Lex { inside: true, started: true, quoted: true, ..l }, parens);
}

/// Inside quotes a backslash before anything but a quote or a backslash is
/// refused, and the refusal names what stands behind it.
pub proof fn strange_escapes_are_refused(p: Seq<char>, c: char, v: Seq<char>, parens: Parens)
    requires
        forall|k: int| 0 <= k < p.len() ==> plain(#[trigger] p[k]),
        c != '"' && c != '\\',
    ensures
        lexed(p.push('"').push('\\').push(c) + v, parens) == Err::<Seq<WordV>, LexFault>(
            LexFault::UnknownEscape(c),
        ),
{
    let s = p.push('"').push('\\').push(c) + v;
    let n = p.len() as int;
    assert(s.subrange(0, n) =~= p);
    run_is_read(s, 0, p, n, Lex::start(), parens);
    assert(s[n] == '"' && s[n + 1] == '\\' && s[n + 2] == c);
    let l = Lex { cur: p.take(n), started: n > 0, ..Lex::start() };
    assert(Lex::start().cur + p.take(n) =~= p.take(n));
    let inside = Lex { inside: true, started: true, quoted: true, ..l };
    assert(lexed(s, parens) == lex(s, n + 1, inside, parens));
}

} // verus!
