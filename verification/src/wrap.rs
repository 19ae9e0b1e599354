//! Word wrapping by display cells.

use crate::cells::split_advances;
use crate::cells::split_at_width;
use crate::cells::split_point;
use crate::cells::split_whitespace;
use crate::cells::str_cells;
use crate::cells::width;
use crate::cells::words_are_not_empty;
use crate::cells::words_in;
use crate::text::chars_of;
use crate::text::text_of;
use crate::text::texts;
use crate::text::trim_back;
use crate::text::trim_end;
use vstd::prelude::*;

verus! {

broadcast use {vstd::string::group_string_axioms, crate::text::texts_push};

/// Cells of text in the value column of a card.
pub const VALUE_TEXT: usize = 54;

/// The lines a wrapped value may take before it is cut.
pub const PROSE_LINES: usize = 8;

/// A wrapping under way: the finished lines, the line being filled, and how
/// many of its cells are taken.
pub ghost struct Wrap {
    pub out: Seq<Seq<char>>,
    pub cur: Seq<char>,
    pub w: nat,
}

/// A line has at least one cell.
pub open spec fn at_least_one(n: nat) -> nat {
    if n < 1 {
        1
    } else {
        n
    }
}

/// The cells the line being filled may take.
pub open spec fn limit_of(st: Wrap, first: nat, rest: nat) -> nat {
    at_least_one(
        if st.out.len() == 0 {
            first
        } else {
            rest
        },
    )
}

/// A word put on the line being filled, or on lines of its own. A word too
/// wide for any line is broken where it stands, unless the hole it would leave
/// is under four cells.
pub open spec fn placed(word: Seq<char>, st: Wrap, first: nat, rest: nat) -> Wrap
    decreases word.len(), st.cur.len(),
{
    let limit = limit_of(st, first, rest);
    let sep: nat = if st.cur.len() > 0 {
        1
    } else {
        0
    };
    let w = str_cells(word);
    if st.w + sep + w <= limit {
        Wrap {
            cur: if st.cur.len() > 0 {
                st.cur.push(' ') + word
            } else {
                st.cur + word
            },
            w: st.w + sep + w,
            ..st
        }
    } else if st.cur.len() > 0 {
        let room: nat = if st.w + sep < limit {
            (limit - (st.w + sep)) as nat
        } else {
            0
        };
        if w > at_least_one(rest) && room >= 4 {
            let n = split_point(word, room);
            let next = Wrap {
                out: st.out.push(st.cur.push(' ') + word.take(n)),
                cur: Seq::empty(),
                w: 0,
            };
            if n <= 0 || n >= word.len() {
                next
            } else {
                placed(word.skip(n), next, first, rest)
            }
        } else {
            placed(word, Wrap { out: st.out.push(st.cur), cur: Seq::empty(), w: 0 }, first, rest)
        }
    } else {
        let n = split_point(word, limit);
        let next = Wrap { out: st.out.push(word.take(n)), ..st };
        if n <= 0 || n >= word.len() {
            next
        } else {
            placed(word.skip(n), next, first, rest)
        }
    }
}

/// The first `n` words placed.
pub open spec fn all_placed(words: Seq<Seq<char>>, n: nat, first: nat, rest: nat) -> Wrap
    decreases n,
{
    if n == 0 || n > words.len() {
        Wrap { out: Seq::empty(), cur: Seq::empty(), w: 0 }
    } else {
        placed(words[n - 1], all_placed(words, (n - 1) as nat, first, rest), first, rest)
    }
}

/// A text wrapped: `first` cells for the first line, `rest` for the others,
/// and at least one line.
pub open spec fn wrapped(s: Seq<char>, first: nat, rest: nat) -> Seq<Seq<char>> {
    let words = words_in(s);
    let st = all_placed(words, words.len(), first, rest);
    if st.cur.len() > 0 || st.out.len() == 0 {
        st.out.push(st.cur)
    } else {
        st.out
    }
}

/// There is always a line.
pub proof fn wrapped_has_a_line(s: Seq<char>, first: nat, rest: nat)
    ensures
        wrapped(s, first, rest).len() >= 1,
{
}

/// Puts a word on the line being filled, or on lines of its own.
fn place(
    whole: &str,
    out: &mut Vec<String>,
    cur: &mut String,
    w: &mut usize,
    first: usize,
    rest: usize,
)
    requires
        whole@.len() > 0,
        *old(w) <= first + rest + 1,
    ensures
        ({
            let r = placed(
                whole@,
                (Wrap { out: texts(old(out)@), cur: old(cur)@, w: *old(w) as nat }),
                first as nat,
                rest as nat,
            );
            texts(final(out)@) == r.out && final(cur)@ == r.cur && *final(w) == r.w
        }),
        *final(w) <= first + rest + 1,
{
    let ghost want = placed(
        whole@,
        Wrap { out: texts(out@), cur: cur@, w: *w as nat },
        first as nat,
        rest as nat,
    );
    let wide: usize = if rest < 1 {
        1
    } else {
        rest
    };
    let mut word: String = whole.to_owned();
    loop
        invariant
            word@.len() > 0,
            *w <= first + rest + 1,
            wide == if rest < 1 {
                1usize
            } else {
                rest
            },
            want == placed(
                whole@,
                (Wrap { out: texts(old(out)@), cur: old(cur)@, w: *old(w) as nat }),
                first as nat,
                rest as nat,
            ),
            want == placed(
                word@,
                (Wrap { out: texts(out@), cur: cur@, w: *w as nat }),
                first as nat,
                rest as nat,
            ),
        decreases word@.len(), cur@.len(),
    {
        let at: usize = if out.len() == 0 {
            first
        } else {
            rest
        };
        let limit: usize = if at < 1 {
            1
        } else {
            at
        };
        let started: bool = !cur.as_str().is_empty();
        let sep: u128 = if started {
            1
        } else {
            0
        };
        let cells: usize = width(word.as_str());
        let taken: u128 = *w as u128 + sep;
        assert(texts(out@).len() == out@.len());
        if taken + cells as u128 <= limit as u128 {
            if started {
                cur.push(' ');
            }
            cur.append(word.as_str());
            *w = (taken + cells as u128) as usize;
            return;
        }
        let chars: Vec<char> = chars_of(word.as_str());
        if started {
            let room: u128 = if taken < limit as u128 {
                limit as u128 - taken
            } else {
                0
            };
            if cells > wide && room >= 4 {
                let n: usize = split_at_width(&chars, room as usize);
                let mut line: String = cur.clone();
                line.push(' ');
                line.append(text_of(&chars, 0, n).as_str());
                assert(chars@.subrange(0, n as int) =~= word@.take(n as int));
                out.push(line);
                *cur = String::new();
                *w = 0;
                if n >= chars.len() {
                    return;
                }
                let tail: String = text_of(&chars, n, chars.len());
                assert(tail@ =~= word@.skip(n as int));
                word = tail;
            } else {
                let line: String = cur.clone();
                out.push(line);
                *cur = String::new();
                *w = 0;
            }
        } else {
            let n: usize = split_at_width(&chars, limit);
            let head: String = text_of(&chars, 0, n);
            assert(head@ =~= word@.take(n as int));
            out.push(head);
            if n >= chars.len() {
                return;
            }
            let tail: String = text_of(&chars, n, chars.len());
            assert(tail@ =~= word@.skip(n as int));
            word = tail;
        }
    }
}

/// Wraps a text: `first` cells for the first line, `rest` for the others.
pub fn wrap_widths(s: &str, first: usize, rest: usize) -> (r: Vec<String>)
    requires
        first + rest + 1 < usize::MAX,
    ensures
        texts(r@) == wrapped(s@, first as nat, rest as nat),
{
    let words: Vec<String> = split_whitespace(s);
    let ghost ws = texts(words@);
    let mut out: Vec<String> = Vec::new();
    let mut cur: String = String::new();
    let mut w: usize = 0;
    let mut i: usize = 0;
    proof {
        words_are_not_empty(s@, 0, Seq::empty());
        assert(texts(out@) =~= Seq::empty());
    }
    while i < words.len()
        invariant
            i <= words@.len(),
            ws == texts(words@),
            ws == words_in(s@),
            forall|k: int| 0 <= k < ws.len() ==> (#[trigger] ws[k]).len() > 0,
            first + rest + 1 < usize::MAX,
            w <= first + rest + 1,
            all_placed(ws, i as nat, first as nat, rest as nat) == (Wrap {
                out: texts(out@),
                cur: cur@,
                w: w as nat,
            }),
        decreases words@.len() - i,
    {
        assert(ws[i as int] == words@[i as int]@);
        place(words[i].as_str(), &mut out, &mut cur, &mut w, first, rest);
        i += 1;
    }
    assert(texts(out@).len() == out@.len());
    if !cur.as_str().is_empty() || out.len() == 0 {
        out.push(cur);
    }
    out
}

/// Wraps a text to the value column.
pub fn wrap_value(s: &str) -> (r: Vec<String>)
    ensures
        texts(r@) == wrapped(s@, 54, 54),
{
    wrap_widths(s, VALUE_TEXT, VALUE_TEXT)
}

/// A text of `n` spaces.
pub open spec fn spaces(n: nat) -> Seq<char> {
    Seq::new(n, |i: int| ' ')
}

/// The first `n` lines, all but the first inset.
pub open spec fn inset(lines: Seq<Seq<char>>, indent: nat, n: nat) -> Seq<Seq<char>>
    decreases n,
{
    if n == 0 || n > lines.len() {
        Seq::empty()
    } else {
        inset(lines, indent, (n - 1) as nat).push(
            if n == 1 {
                lines[0]
            } else {
                spaces(indent) + lines[n - 1]
            },
        )
    }
}

/// An indent, at most half the column.
pub open spec fn indent_held(indent: nat) -> nat {
    if indent > 27 {
        27
    } else {
        indent
    }
}

/// A text wrapped with a hanging indent.
pub open spec fn hung(s: Seq<char>, indent: nat) -> Seq<Seq<char>> {
    let n = indent_held(indent);
    let lines = wrapped(s, 54, (54 - n) as nat);
    inset(lines, n, lines.len())
}

/// `n` spaces.
pub fn space(n: usize) -> (r: String)
    ensures
        r@ == spaces(n as nat),
{
    let mut r: String = String::new();
    let mut i: usize = 0;
    while i < n
        invariant
            i <= n,
            r@ =~= spaces(i as nat),
        decreases n - i,
    {
        r.push(' ');
        i += 1;
    }
    r
}

/// Wraps a text with a hanging indent: the first line gets the whole column,
/// every other is inset and that much narrower. The indent is at most half the
/// column.
pub fn wrap_hanging(s: &str, indent: usize) -> (r: Vec<String>)
    ensures
        texts(r@) == hung(s@, indent as nat),
{
    let n: usize = if indent > VALUE_TEXT / 2 {
        VALUE_TEXT / 2
    } else {
        indent
    };
    let lines: Vec<String> = wrap_widths(s, VALUE_TEXT, VALUE_TEXT - n);
    let ghost ls = texts(lines@);
    let mut out: Vec<String> = Vec::new();
    let mut i: usize = 0;
    assert(texts(out@) =~= Seq::empty());
    while i < lines.len()
        invariant
            i <= lines@.len(),
            ls == texts(lines@),
            texts(out@) == inset(ls, n as nat, i as nat),
        decreases lines@.len() - i,
    {
        assert(ls[i as int] == lines@[i as int]@);
        if i == 0 {
            out.push(lines[0].clone());
        } else {
            out.push(space(n).concat(lines[i].as_str()));
        }
        i += 1;
    }
    out
}

/// A line cut until one cell of the column is left.
pub open spec fn room_made(s: Seq<char>) -> Seq<char>
    decreases s.len(),
{
    if str_cells(s) >= 54 && s.len() > 0 {
        room_made(s.drop_last())
    } else {
        s
    }
}

/// A line with an ellipsis at its end.
pub open spec fn elided(line: Seq<char>) -> Seq<char> {
    room_made(trim_back(line)).push('…')
}

/// A line with an ellipsis at its end, and as much of it dropped as that costs.
pub fn with_ellipsis(line: &str) -> (r: String)
    ensures
        r@ == elided(line@),
{
    let t: &str = trim_end(line);
    let mut n: usize = t.unicode_len();
    assert(t@.take(n as int) =~= t@);
    loop
        invariant
            n <= t@.len(),
            t@ == trim_back(line@),
            room_made(t@) == room_made(t@.take(n as int)),
        decreases n,
    {
        let cut: &str = t.substring_char(0, n);
        assert(cut@ =~= t@.take(n as int));
        if width(cut) < VALUE_TEXT || n == 0 {
            let mut r: String = cut.to_owned();
            r.push('…');
            return r;
        }
        assert(t@.take(n as int).drop_last() =~= t@.take(n - 1));
        n -= 1;
    }
}

/// A quoted paragraph: wrapped, and cut with an ellipsis after eight lines.
pub open spec fn quoted_prose(s: Seq<char>) -> Seq<Seq<char>> {
    let lines = wrapped(s, 54, 54);
    if lines.len() <= 8 {
        lines
    } else {
        lines.take(7).push(elided(lines[7]))
    }
}

/// A quoted paragraph: wrapped, and cut with an ellipsis after eight lines.
pub fn prose(s: &str) -> (r: Vec<String>)
    ensures
        texts(r@) == quoted_prose(s@),
{
    let lines: Vec<String> = wrap_value(s);
    if lines.len() <= PROSE_LINES {
        assert(texts(lines@).len() == lines@.len());
        return lines;
    }
    let ghost ls = texts(lines@);
    let mut cut: Vec<String> = Vec::new();
    let mut i: usize = 0;
    while i < PROSE_LINES - 1
        invariant
            i <= 7,
            lines@.len() > 8,
            ls == texts(lines@),
            texts(cut@) =~= ls.take(i as int),
        decreases 7 - i,
    {
        cut.push(lines[i].clone());
        i += 1;
    }
    assert(ls[7] == lines@[7]@);
    cut.push(with_ellipsis(lines[7].as_str()));
    cut
}

/// A card never quotes more than eight lines of a note.
pub proof fn prose_is_bounded(s: Seq<char>)
    ensures
        1 <= quoted_prose(s).len() <= 8,
{
}

/// A text without its spaces.
pub open spec fn ink(s: Seq<char>) -> Seq<char>
    decreases s.len(),
{
    if s.len() == 0 {
        Seq::empty()
    } else if s.last() == ' ' {
        ink(s.drop_last())
    } else {
        ink(s.drop_last()).push(s.last())
    }
}

/// Lines one after the other, without their spaces.
pub open spec fn ink_of(lines: Seq<Seq<char>>) -> Seq<char>
    decreases lines.len(),
{
    if lines.len() == 0 {
        Seq::empty()
    } else {
        ink_of(lines.drop_last()) + ink(lines.last())
    }
}

proof fn ink_joins(a: Seq<char>, b: Seq<char>)
    ensures
        ink(a + b) == ink(a) + ink(b),
    decreases b.len(),
{
    if b.len() == 0 {
        assert(a + b =~= a);
        assert(ink(a) + ink(b) =~= ink(a));
    } else {
        assert((a + b).drop_last() =~= a + b.drop_last());
        assert((a + b).last() == b.last());
        ink_joins(a, b.drop_last());
        assert(ink(a + b) =~= ink(a) + ink(b));
    }
}

proof fn ink_push(lines: Seq<Seq<char>>, line: Seq<char>)
    ensures
        ink_of(lines.push(line)) == ink_of(lines) + ink(line),
{
    assert(lines.push(line).drop_last() =~= lines);
}

proof fn placed_keeps_ink(word: Seq<char>, st: Wrap, first: nat, rest: nat)
    requires
        word.len() > 0,
    ensures
        ({
            let r = placed(word, st, first, rest);
            ink_of(r.out) + ink(r.cur) == ink_of(st.out) + ink(st.cur) + ink(word)
        }),
    decreases word.len(), st.cur.len(),
{
    let limit = limit_of(st, first, rest);
    let sep: nat = if st.cur.len() > 0 {
        1
    } else {
        0
    };
    let w = str_cells(word);
    let before = ink_of(st.out);
    let spaced = st.cur.push(' ');
    assert(spaced.drop_last() =~= st.cur);
    assert(ink(spaced) == ink(st.cur));
    if st.w + sep + w <= limit {
        ink_joins(spaced, word);
        ink_joins(st.cur, word);
        assert(before + (ink(st.cur) + ink(word)) =~= before + ink(st.cur) + ink(word));
    } else if st.cur.len() > 0 {
        let room: nat = if st.w + sep < limit {
            (limit - (st.w + sep)) as nat
        } else {
            0
        };
        if w > at_least_one(rest) && room >= 4 {
            let n = split_point(word, room);
            split_advances(word, 0, 0, room);
            let line = spaced + word.take(n);
            let next = Wrap { out: st.out.push(line), cur: Seq::empty(), w: 0 };
            ink_joins(spaced, word.take(n));
            ink_push(st.out, line);
            broken_keeps_ink(word, n);
            assert(before + (ink(st.cur) + ink(word.take(n))) + ink(Seq::empty()) + ink(
                word.skip(n),
            ) =~= before + ink(st.cur) + (ink(word.take(n)) + ink(word.skip(n))));
            if n < word.len() {
                placed_keeps_ink(word.skip(n), next, first, rest);
            } else {
                assert(word.skip(n) =~= Seq::empty());
                assert(ink(word.skip(n)) =~= Seq::empty());
                assert(ink_of(next.out) + ink(next.cur) =~= before + ink(st.cur) + ink(word));
            }
        } else {
            let next = Wrap { out: st.out.push(st.cur), cur: Seq::empty(), w: 0 };
            ink_push(st.out, st.cur);
            placed_keeps_ink(word, next, first, rest);
            assert(ink_of(next.out) + ink(next.cur) + ink(word) =~= before + ink(st.cur) + ink(
                word,
            ));
        }
    } else {
        let n = split_point(word, limit);
        split_advances(word, 0, 0, limit);
        let next = Wrap { out: st.out.push(word.take(n)), ..st };
        ink_push(st.out, word.take(n));
        broken_keeps_ink(word, n);
        assert(ink(st.cur) =~= Seq::empty());
        assert(before + ink(word.take(n)) + ink(st.cur) + ink(word.skip(n)) =~= before + ink(
            st.cur,
        ) + (ink(word.take(n)) + ink(word.skip(n))));
        if n < word.len() {
            placed_keeps_ink(word.skip(n), next, first, rest);
        } else {
            assert(word.skip(n) =~= Seq::empty());
            assert(ink(word.skip(n)) =~= Seq::empty());
            assert(ink_of(next.out) + ink(next.cur) =~= before + ink(st.cur) + ink(word));
        }
    }
}

proof fn broken_keeps_ink(word: Seq<char>, n: int)
    requires
        0 <= n <= word.len(),
    ensures
        ink(word.take(n)) + ink(word.skip(n)) == ink(word),
{
    ink_joins(word.take(n), word.skip(n));
    assert(word.take(n) + word.skip(n) =~= word);
}

proof fn all_placed_keeps_ink(words: Seq<Seq<char>>, n: nat, first: nat, rest: nat)
    requires
        n <= words.len(),
        forall|k: int| 0 <= k < words.len() ==> (#[trigger] words[k]).len() > 0,
    ensures
        ({
            let r = all_placed(words, n, first, rest);
            ink_of(r.out) + ink(r.cur) == ink_of(words.take(n as int))
        }),
    decreases n,
{
    if n == 0 {
        assert(words.take(0) =~= Seq::empty());
        assert(ink_of(Seq::empty()) + ink(Seq::empty()) =~= Seq::<char>::empty());
    } else {
        all_placed_keeps_ink(words, (n - 1) as nat, first, rest);
        let st = all_placed(words, (n - 1) as nat, first, rest);
        placed_keeps_ink(words[n - 1], st, first, rest);
        assert(words.take(n as int).drop_last() =~= words.take(n - 1));
    }
}

/// Wrapping loses nothing: the characters of the words come out in order,
/// whatever lines they stand on.
pub proof fn wrapping_keeps_every_character(s: Seq<char>, first: nat, rest: nat)
    ensures
        ink_of(wrapped(s, first, rest)) == ink_of(words_in(s)),
{
    let words = words_in(s);
    words_are_not_empty(s, 0, Seq::empty());
    all_placed_keeps_ink(words, words.len(), first, rest);
    assert(words.take(words.len() as int) =~= words);
    let st = all_placed(words, words.len(), first, rest);
    ink_push(st.out, st.cur);
    if !(st.cur.len() > 0 || st.out.len() == 0) {
        assert(ink(st.cur) =~= Seq::empty());
        assert(ink_of(st.out) + ink(st.cur) =~= ink_of(st.out));
    }
}

} // verus!
