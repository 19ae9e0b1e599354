//! Splitting a line into words under one quoting rule.
//!
//! Inside `"..."`, white space and parentheses are ordinary characters, `\"` is
//! a literal quote and `\\` a literal backslash. Quotes may cover part of a
//! word. [`quote`] writes any value so that [`split_words`] reads it back.

use crate::text::chars_of;
use crate::text::is_white_space;
use crate::text::joined;
use crate::text::texts;
use crate::text::white_space;
use vstd::prelude::*;

verus! {

broadcast use vstd::string::group_string_axioms;

/// A word, and whether any part of it arrived quoted.
#[derive(Debug)]
pub struct Word {
    /// The word with its quoting removed and its escapes resolved.
    pub text: String,
    /// Whether any part of the word stood inside quotes.
    pub quoted: bool,
}

/// What a [`Word`] says.
pub ghost struct WordV {
    pub text: Seq<char>,
    pub quoted: bool,
}

impl View for Word {
    type V = WordV;

    open spec fn view(&self) -> WordV {
        WordV { text: self.text@, quoted: self.quoted }
    }
}

/// What a list of words says.
pub open spec fn words(v: Seq<Word>) -> Seq<WordV> {
    v.map_values(|w: Word| w@)
}

/// Whether a bare `(` or `)` is a word of its own.
#[derive(Debug, Clone, Copy, PartialEq, Eq, Structural)]
pub enum Parens {
    /// It ends the word before it and is a word itself: filters have groups.
    Break,
    /// It is ordinary text.
    Ordinary,
}

/// Why a line cannot be split.
pub ghost enum LexFault {
    /// A quote is never closed.
    Unterminated,
    /// A backslash inside quotes stands before some other character.
    UnknownEscape(char),
}

/// How far a line has been read: the finished words, the word being read, and
/// whether the next character stands inside quotes.
pub ghost struct Lex {
    pub out: Seq<WordV>,
    pub cur: Seq<char>,
    pub started: bool,
    pub quoted: bool,
    pub inside: bool,
}

impl Lex {
    /// Nothing read yet.
    pub open spec fn start() -> Lex {
        Lex {
            out: Seq::empty(),
            cur: Seq::empty(),
            started: false,
            quoted: false,
            inside: false,
        }
    }

    /// The word being read, if there is one, is finished.
    pub open spec fn flushed(self) -> Lex {
        if self.started {
            Lex {
                out: self.out.push(WordV { text: self.cur, quoted: self.quoted }),
                cur: Seq::empty(),
                started: false,
                quoted: false,
                inside: self.inside,
            }
        } else {
            self
        }
    }

    /// One more character in the word being read.
    pub open spec fn with(self, c: char) -> Lex {
        Lex { cur: self.cur.push(c), started: true, ..self }
    }
}

/// The words of `s` from position `i` on, given what was read before.
pub open spec fn lex(s: Seq<char>, i: int, l: Lex, parens: Parens) -> Result<Seq<WordV>, LexFault>
    decreases s.len() - i,
{
    if i >= s.len() {
        if l.inside {
            Err(LexFault::Unterminated)
        } else {
            Ok(l.flushed().out)
        }
    } else if l.inside {
        if s[i] == '"' {
            lex(s, i + 1, Lex { inside: false, ..l }, parens)
        } else if s[i] == '\\' {
            if i + 1 >= s.len() {
                Err(LexFault::Unterminated)
            } else if s[i + 1] == '"' || s[i + 1] == '\\' {
                lex(s, i + 2, l.with(s[i + 1]), parens)
            } else {
                Err(LexFault::UnknownEscape(s[i + 1]))
            }
        } else {
            lex(s, i + 1, l.with(s[i]), parens)
        }
    } else if s[i] == '"' {
        lex(s, i + 1, Lex { inside: true, started: true, quoted: true, ..l }, parens)
    } else if (s[i] == '(' || s[i] == ')') && parens == Parens::Break {
        let f = l.flushed();
        lex(
            s,
            i + 1,
            Lex { out: f.out.push(WordV { text: seq![s[i]], quoted: false }), ..f },
            parens,
        )
    } else if white_space(s[i]) {
        lex(s, i + 1, l.flushed(), parens)
    } else {
        lex(s, i + 1, l.with(s[i]), parens)
    }
}

/// The words of a line.
pub open spec fn lexed(s: Seq<char>, parens: Parens) -> Result<Seq<WordV>, LexFault> {
    lex(s, 0, Lex::start(), parens)
}

/// A fault in words; `context` names the surface the line came from.
pub open spec fn fault_text(f: LexFault, context: Seq<char>) -> Seq<char> {
    match f {
        LexFault::Unterminated => "unterminated '\"' in "@ + context
            + " (a quoted value must be closed; write \\\" for a literal quote)"@,
        LexFault::UnknownEscape(c) => ("unknown escape \"\\"@.push(c) + "\" in "@ + context
            + " (inside quotes only \\\" and \\\\ are escapes)"@),
    }
}

fn unterminated(context: &str) -> (r: String)
    ensures
        r@ == fault_text(LexFault::Unterminated, context@),
{
    let mut r: String = "unterminated '\"' in ".to_owned();
    r.append(context);
    r.append(" (a quoted value must be closed; write \\\" for a literal quote)");
    r
}

fn unknown_escape(c: char, context: &str) -> (r: String)
    ensures
        r@ == fault_text(LexFault::UnknownEscape(c), context@),
{
    let mut r: String = "unknown escape \"\\".to_owned();
    r.push(c);
    r.append("\" in ");
    r.append(context);
    r.append(" (inside quotes only \\\" and \\\\ are escapes)");
    r
}

/// Splits `input` into words, or says why it cannot be split.
pub fn scan(input: &str, parens: Parens, context: &str) -> (r: Result<Vec<Word>, String>)
    ensures
        r is Ok == lexed(input@, parens) is Ok,
        r is Ok ==> words(r->Ok_0@) == lexed(input@, parens)->Ok_0,
        r is Err ==> r->Err_0@ == fault_text(lexed(input@, parens)->Err_0, context@),
{
    let s: Vec<char> = chars_of(input);
    let mut out: Vec<Word> = Vec::new();
    let mut cur: String = String::new();
    let mut started = false;
    let mut quoted = false;
    let mut inside = false;
    let mut i: usize = 0;
    assert(words(out@) =~= Seq::<WordV>::empty());
    while i < s.len()
        invariant
            s@ == input@,
            i <= s@.len(),
            lexed(input@, parens) == lex(
                s@,
                i as int,
                (Lex { out: words(out@), cur: cur@, started, quoted, inside }),
                parens,
            ),
            !started ==> cur@ == Seq::<char>::empty() && !quoted,
            inside ==> started,
        decreases s@.len() - i,
    {
        let c: char = s[i];
        let ghost before = Lex { out: words(out@), cur: cur@, started, quoted, inside };
        if inside {
            if c == '"' {
                inside = false;
            } else if c == '\\' {
                if i + 1 >= s.len() {
                    return Err(unterminated(context));
                }
                let e: char = s[i + 1];
                if e == '"' || e == '\\' {
                    cur.push(e);
                    i += 1;
                } else {
                    return Err(unknown_escape(e, context));
                }
            } else {
                cur.push(c);
            }
        } else if c == '"' {
            started = true;
            quoted = true;
            inside = true;
        } else if (c == '(' || c == ')') && parens == Parens::Break {
            if started {
                let w = Word { text: cur, quoted };
                assert(words(out@.push(w)) =~= words(out@).push(w@));
                out.push(w);
                cur = String::new();
                started = false;
                quoted = false;
            }
            let mut p: String = String::new();
            p.push(c);
            assert(p@ =~= seq![c]);
            let w = Word { text: p, quoted: false };
            assert(words(out@.push(w)) =~= words(out@).push(w@));
            out.push(w);
        } else if is_white_space(c) {
            if started {
                let w = Word { text: cur, quoted };
                assert(words(out@.push(w)) =~= words(out@).push(w@));
                out.push(w);
                cur = String::new();
                started = false;
                quoted = false;
            }
        } else {
            started = true;
            cur.push(c);
        }
        i += 1;
    }
    if inside {
        return Err(unterminated(context));
    }
    if started {
        let w = Word { text: cur, quoted };
        assert(words(out@.push(w)) =~= words(out@).push(w@));
        out.push(w);
    }
    Ok(out)
}

/// Splits `input` into words, parentheses being ordinary text. `context` names
/// the surface in the refusal.
pub fn split_words(input: &str, context: &str) -> (r: Result<Vec<Word>, String>)
    ensures
        r is Ok == lexed(input@, Parens::Ordinary) is Ok,
        r is Ok ==> words(r->Ok_0@) == lexed(input@, Parens::Ordinary)->Ok_0,
        r is Err ==> r->Err_0@ == fault_text(lexed(input@, Parens::Ordinary)->Err_0, context@),
{
    scan(input, Parens::Ordinary, context)
}

/// One character inside quotes: a quote or a backslash takes a backslash.
pub open spec fn escape(c: char) -> Seq<char> {
    if c == '"' || c == '\\' {
        seq!['\\', c]
    } else {
        seq![c]
    }
}

/// A value as it stands inside quotes.
pub open spec fn escaped(v: Seq<char>) -> Seq<char>
    decreases v.len(),
{
    if v.len() == 0 {
        Seq::empty()
    } else {
        escaped(v.drop_last()) + escape(v.last())
    }
}

/// A value as a quoted literal.
pub open spec fn quoted_form(v: Seq<char>) -> Seq<char> {
    (seq!['"'] + escaped(v)).push('"')
}

/// Renders `value` as a literal that reads back as exactly `value`.
pub fn quote(value: &str) -> (r: String)
    ensures
        r@ == quoted_form(value@),
{
    let s: Vec<char> = chars_of(value);
    let mut out: String = String::new();
    out.push('"');
    let mut i: usize = 0;
    assert(out@ =~= seq!['"'] + escaped(s@.take(0)));
    while i < s.len()
        invariant
            s@ == value@,
            i <= s@.len(),
            out@ == seq!['"'] + escaped(s@.take(i as int)),
        decreases s@.len() - i,
    {
        let c: char = s[i];
        let ghost before = out@;
        assert(s@.take(i as int + 1).drop_last() =~= s@.take(i as int));
        if c == '"' || c == '\\' {
            out.push('\\');
        }
        out.push(c);
        assert(out@ =~= before + escape(c));
        assert(out@ =~= seq!['"'] + (escaped(s@.take(i as int)) + escape(c)));
        i += 1;
    }
    assert(s@.take(i as int) =~= value@);
    out.push('"');
    out
}

/// Composes one line from arguments: they are joined by a space, and nothing
/// is guessed about quotes that are no longer there.
pub fn from_argv(args: &[String]) -> (r: String)
    ensures
        r@ == joined(texts(args@), " "@),
{
    let mut r: String = String::new();
    let mut i: usize = 0;
    while i < args.len()
        invariant
            i <= args@.len(),
            r@ == joined(texts(args@).take(i as int), " "@),
        decreases args@.len() - i,
    {
        proof {
            let now = texts(args@).take(i as int + 1);
            assert(now.drop_last() =~= texts(args@).take(i as int));
            assert(now.last() == args@[i as int]@);
            assert(Seq::<char>::empty() + args@[i as int]@ =~= args@[i as int]@);
        }
        if i > 0 {
            r.append(" ");
        }
        r.append(args[i].as_str());
        i += 1;
    }
    assert(texts(args@).take(args@.len() as int) =~= texts(args@));
    r
}

/// A character that neither quotes, groups nor separates.
pub open spec fn plain(c: char) -> bool {
    c != '"' && c != '(' && c != ')' && !white_space(c)
}

/// Plain characters only make the word being read longer.
proof fn lex_plain(s: Seq<char>, p: Seq<char>, k: int, parens: Parens)
    requires
        0 <= k <= p.len() <= s.len(),
        s.take(p.len() as int) == p,
        forall|i: int| 0 <= i < p.len() ==> plain(#[trigger] p[i]),
    ensures
        lexed(s, parens) == lex(
            s,
            k,
            (Lex { cur: p.take(k), started: k > 0, ..Lex::start() }),
            parens,
        ),
    decreases k,
{
    if k == 0 {
        assert(p.take(0) =~= Seq::empty());
    } else {
        lex_plain(s, p, k - 1, parens);
        assert(s[k - 1] == s.take(p.len() as int)[k - 1]);
        assert(plain(p[k - 1]));
        assert(p.take(k - 1).push(p[k - 1]) =~= p.take(k));
    }
}

/// The escaped form of a value begins with that of its first characters.
proof fn escaped_prefix(v: Seq<char>, k: int)
    requires
        0 <= k <= v.len(),
    ensures
        escaped(v.take(k)).len() <= escaped(v).len(),
        escaped(v).take(escaped(v.take(k)).len() as int) == escaped(v.take(k)),
    decreases v.len(),
{
    if k == v.len() {
        assert(v.take(k) =~= v);
        assert(escaped(v).take(escaped(v).len() as int) =~= escaped(v));
    } else {
        let w = v.drop_last();
        assert(w.take(k) =~= v.take(k));
        escaped_prefix(w, k);
        let n = escaped(v.take(k)).len() as int;
        assert(escaped(v).take(n) =~= escaped(w).take(n));
    }
}

/// Inside quotes, the escaped form of a value adds that value to the word.
proof fn lex_escaped(s: Seq<char>, start: int, v: Seq<char>, k: int, l: Lex, parens: Parens)
    requires
        0 <= k <= v.len(),
        l.inside,
        l.started,
        0 <= start,
        start + escaped(v).len() <= s.len(),
        s.subrange(start, start + escaped(v).len()) == escaped(v),
    ensures
        lex(s, start, l, parens) == lex(
            s,
            start + escaped(v.take(k)).len(),
            (Lex { cur: l.cur + v.take(k), ..l }),
            parens,
        ),
    decreases k,
{
    if k == 0 {
        assert(v.take(0) =~= Seq::empty());
        assert(l.cur + v.take(0) =~= l.cur);
        assert(escaped(v.take(0)).len() == 0);
    } else {
        lex_escaped(s, start, v, k - 1, l, parens);
        escaped_prefix(v, k);
        let done = escaped(v.take(k - 1));
        let next = escaped(v.take(k));
        let c = v[k - 1];
        assert(v.take(k).drop_last() =~= v.take(k - 1));
        assert(v.take(k).last() == c);
        assert(next == done + escape(c));
        assert forall|i: int| 0 <= i < next.len() implies s[start + i] == next[i] by {
            assert(s.subrange(start, start + escaped(v).len())[i] == s[start + i]);
            assert(escaped(v).take(next.len() as int)[i] == escaped(v)[i]);
        }
        let at = start + done.len();
        assert(s[at] == next[done.len() as int]);
        assert(escape(c)[0] == next[done.len() as int]);
        if c == '"' || c == '\\' {
            assert(s[at + 1] == next[done.len() as int + 1]);
            assert(escape(c)[1] == next[done.len() as int + 1]);
        }
        assert((l.cur + v.take(k - 1)).push(c) =~= l.cur + v.take(k));
    }
}

/// A plain prefix and a quoted value are one word: the prefix and the value.
pub proof fn prefixed_quote_is_one_word(p: Seq<char>, v: Seq<char>, parens: Parens)
    requires
        forall|i: int| 0 <= i < p.len() ==> plain(#[trigger] p[i]),
    ensures
        lexed(p + quoted_form(v), parens) == Ok::<Seq<WordV>, LexFault>(
            seq![WordV { text: p + v, quoted: true }],
        ),
{
    let s = p + quoted_form(v);
    let n = p.len() as int;
    assert(s.take(n) =~= p);
    lex_plain(s, p, n, parens);
    assert(p.take(n) =~= p);
    let l = Lex { cur: p, started: p.len() > 0, ..Lex::start() };
    assert(s[n] == '"');
    let inside = Lex { inside: true, started: true, quoted: true, ..l };
    assert(lexed(s, parens) == lex(s, n + 1, inside, parens));
    assert(s.subrange(n + 1, n + 1 + escaped(v).len()) =~= escaped(v));
    lex_escaped(s, n + 1, v, v.len() as int, inside, parens);
    assert(v.take(v.len() as int) =~= v);
    let end = n + 1 + escaped(v).len();
    assert(s[end] == '"');
    let outside = Lex { cur: p + v, inside: false, ..inside };
    assert(lexed(s, parens) == lex(s, end + 1, outside, parens));
    assert(outside.flushed().out =~= seq![WordV { text: p + v, quoted: true }]);
}

/// A quoted value is read back as that value, and as quoted.
pub proof fn quote_reads_back(v: Seq<char>, parens: Parens)
    ensures
        lexed(quoted_form(v), parens) == Ok::<Seq<WordV>, LexFault>(
            seq![WordV { text: v, quoted: true }],
        ),
{
    prefixed_quote_is_one_word(Seq::empty(), v, parens);
    assert(Seq::<char>::empty() + quoted_form(v) =~= quoted_form(v));
    assert(Seq::<char>::empty() + v =~= v);
}

proof fn lex_without_parens(s: Seq<char>, i: int, l: Lex)
    requires
        0 <= i,
        forall|k: int| 0 <= k < s.len() ==> #[trigger] s[k] != '(' && s[k] != ')',
    ensures
        lex(s, i, l, Parens::Break) == lex(s, i, l, Parens::Ordinary),
    decreases s.len() - i,
{
    if i < s.len() {
        if l.inside {
            lex_without_parens(s, i + 1, Lex { inside: false, ..l });
            lex_without_parens(s, i + 1, l.with(s[i]));
            if i + 1 < s.len() {
                lex_without_parens(s, i + 2, l.with(s[i + 1]));
            }
        } else {
            lex_without_parens(s, i + 1, Lex { inside: true, started: true, quoted: true, ..l });
            lex_without_parens(s, i + 1, l.flushed());
            lex_without_parens(s, i + 1, l.with(s[i]));
        }
    }
}

/// The two ways of splitting differ in parentheses and in nothing else.
pub proof fn only_parens_tell_the_sides_apart(s: Seq<char>)
    requires
        forall|k: int| 0 <= k < s.len() ==> #[trigger] s[k] != '(' && s[k] != ')',
    ensures
        lexed(s, Parens::Break) == lexed(s, Parens::Ordinary),
{
    lex_without_parens(s, 0, Lex::start());
}

} // verus!
