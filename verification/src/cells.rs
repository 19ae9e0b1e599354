//! Text in display cells: measuring, cutting and wrapping.
//!
//! A card is held together by every line being the same number of cells. The
//! cells of a text and of a character are what `unicode-width` says they are.

use crate::text::chars_of;
use crate::text::is_white_space;
use crate::text::text_of;
use crate::text::texts;
use crate::text::white_space;
use vstd::prelude::*;

verus! {

broadcast use {vstd::string::group_string_axioms, crate::text::texts_push};

/// How many cells a text takes.
pub uninterp spec fn str_cells(s: Seq<char>) -> nat;

/// How many cells a character takes, if it has a width.
pub uninterp spec fn char_columns(c: char) -> Option<nat>;

/// How many cells a character takes; none for one without a width.
pub open spec fn char_cells(c: char) -> nat {
    match char_columns(c) {
        Some(n) => n,
        None => 0,
    }
}

/// The width of a text, by `unicode_width::UnicodeWidthStr::width`. The empty
/// text has none.
#[verifier::external_body]
pub(crate) fn width(s: &str) -> (r: usize)
    ensures
        r == str_cells(s@),
        s@.len() == 0 ==> r == 0,
{
    unicode_width::UnicodeWidthStr::width(s)
}

/// The width of a character, by `unicode_width::UnicodeWidthChar::width`;
/// `None` for a control character.
#[verifier::external_body]
fn columns(c: char) -> (r: Option<usize>)
    ensures
        r is Some == char_columns(c) is Some,
        r is Some ==> r->0 == char_columns(c)->0,
{
    unicode_width::UnicodeWidthChar::width(c)
}

/// The width of a character; none for one without a width.
pub(crate) fn char_width(c: char) -> (r: usize)
    ensures
        r == char_cells(c),
{
    match columns(c) {
        Some(n) => n,
        None => 0,
    }
}

/// The control characters.
pub open spec fn control(c: char) -> bool {
    let n = c as u32;
    n <= 0x1f || 0x7f <= n <= 0x9f
}

/// What a character becomes inside a box: a tab or a line break becomes a
/// space, any other control character is dropped.
pub open spec fn boxed(c: char) -> Option<char> {
    if c == '\t' || c == '\n' || c == '\u{2028}' || c == '\u{2029}' {
        Some(' ')
    } else if control(c) {
        None
    } else {
        Some(c)
    }
}

/// A text made safe to stand inside a box.
pub open spec fn sanitized(s: Seq<char>) -> Seq<char>
    decreases s.len(),
{
    if s.len() == 0 {
        Seq::empty()
    } else {
        match boxed(s.last()) {
            Some(c) => sanitized(s.drop_last()).push(c),
            None => sanitized(s.drop_last()),
        }
    }
}

fn boxed_char(c: char) -> (r: Option<char>)
    ensures
        r == boxed(c),
{
    let n: u32 = c as u32;
    if c == '\t' || c == '\n' || c == '\u{2028}' || c == '\u{2029}' {
        Some(' ')
    } else if n <= 0x1f || (0x7f <= n && n <= 0x9f) {
        None
    } else {
        Some(c)
    }
}

/// A text made safe to stand inside a box.
pub fn sanitize(s: &str) -> (r: String)
    ensures
        r@ == sanitized(s@),
{
    let v: Vec<char> = chars_of(s);
    let mut out: String = String::new();
    let mut i: usize = 0;
    assert(s@.take(0) =~= Seq::empty());
    while i < v.len()
        invariant
            v@ == s@,
            i <= v@.len(),
            out@ == sanitized(s@.take(i as int)),
        decreases v@.len() - i,
    {
        assert(s@.take(i as int + 1).drop_last() =~= s@.take(i as int));
        if let Some(c) = boxed_char(v[i]) {
            out.push(c);
        }
        i += 1;
    }
    assert(s@.take(i as int) =~= s@);
    out
}

/// No control character and no line break stands inside a box.
pub proof fn sanitized_has_no_controls(s: Seq<char>)
    ensures
        forall|i: int|
            0 <= i < sanitized(s).len() ==> !control(#[trigger] sanitized(s)[i]) && sanitized(s)[i]
                != '\u{2028}' && sanitized(s)[i] != '\u{2029}',
    decreases s.len(),
{
    if s.len() > 0 {
        sanitized_has_no_controls(s.drop_last());
        let p = sanitized(s.drop_last());
        assert forall|i: int| 0 <= i < sanitized(s).len() implies !control(
            #[trigger] sanitized(s)[i],
        ) && sanitized(s)[i] != '\u{2028}' && sanitized(s)[i] != '\u{2029}' by {
            if i < p.len() {
                assert(sanitized(s)[i] == p[i]);
            }
        }
    }
}

/// A text cut, from its end, until it takes at most `max` cells.
pub open spec fn fitted(s: Seq<char>, max: nat) -> Seq<char>
    decreases s.len(),
{
    if str_cells(s) <= max || s.len() == 0 {
        s
    } else {
        fitted(s.drop_last(), max)
    }
}

/// A text cut, from its end, until it takes at most `max` cells. It is
/// measured again after every character, because dropping one can change what
/// the rest measures.
pub fn fit(s: &str, max: usize) -> (r: &str)
    ensures
        r@ == fitted(s@, max as nat),
        str_cells(r@) <= max,
{
    let mut n: usize = s.unicode_len();
    assert(s@.take(n as int) =~= s@);
    loop
        invariant
            n <= s@.len(),
            fitted(s@, max as nat) == fitted(s@.take(n as int), max as nat),
        decreases n,
    {
        let cut: &str = s.substring_char(0, n);
        assert(cut@ =~= s@.take(n as int));
        if width(cut) <= max || n == 0 {
            return cut;
        }
        assert(s@.take(n as int).drop_last() =~= s@.take(n - 1));
        n -= 1;
    }
}

/// How many characters of `s`, from `i` on, still fit in `max` cells when `w`
/// are taken: at least one, and a character without width stays with the one
/// before it.
pub open spec fn split_from(s: Seq<char>, i: int, w: nat, max: nat) -> int
    decreases s.len() - i,
{
    if i >= s.len() {
        s.len() as int
    } else if char_cells(s[i]) > 0 && w + char_cells(s[i]) > max {
        if i == 0 {
            1
        } else {
            i
        }
    } else {
        split_from(s, i + 1, w + char_cells(s[i]), max)
    }
}

/// Where a text is split to fit in `max` cells.
pub open spec fn split_point(s: Seq<char>, max: nat) -> int {
    split_from(s, 0, 0, max)
}

/// Splitting always moves at least one character, and never more than there are.
pub proof fn split_advances(s: Seq<char>, i: int, w: nat, max: nat)
    requires
        0 <= i <= s.len(),
        s.len() > 0,
    ensures
        1 <= split_from(s, i, w, max) <= s.len(),
        i <= split_from(s, i, w, max),
    decreases s.len() - i,
{
    if i < s.len() && !(char_cells(s[i]) > 0 && w + char_cells(s[i]) > max) {
        split_advances(s, i + 1, w + char_cells(s[i]), max);
    }
}

/// Splits a text at the last character that still fits in `max` cells: how
/// many characters stand before the split.
pub fn split_at_width(s: &Vec<char>, max: usize) -> (r: usize)
    requires
        s@.len() > 0,
    ensures
        r == split_point(s@, max as nat),
        1 <= r <= s@.len(),
{
    let mut w: usize = 0;
    let mut i: usize = 0;
    proof {
        split_advances(s@, 0, 0, max as nat);
    }
    while i < s.len()
        invariant
            i <= s@.len(),
            w <= max,
            split_point(s@, max as nat) == split_from(s@, i as int, w as nat, max as nat),
        decreases s@.len() - i,
    {
        let cw: usize = char_width(s[i]);
        if cw > 0 && cw > max - w {
            return if i == 0 {
                1
            } else {
                i
            };
        }
        w = w + cw;
        i += 1;
    }
    i
}

/// The words of `s` from `i` on, after the part `cur` of one.
pub open spec fn words_from(s: Seq<char>, i: int, cur: Seq<char>) -> Seq<Seq<char>>
    decreases s.len() - i,
{
    if i >= s.len() {
        if cur.len() > 0 {
            seq![cur]
        } else {
            Seq::empty()
        }
    } else if white_space(s[i]) {
        if cur.len() > 0 {
            seq![cur] + words_from(s, i + 1, Seq::empty())
        } else {
            words_from(s, i + 1, Seq::empty())
        }
    } else {
        words_from(s, i + 1, cur.push(s[i]))
    }
}

/// The words of a text: what white space separates.
pub open spec fn words_in(s: Seq<char>) -> Seq<Seq<char>> {
    words_from(s, 0, Seq::empty())
}

/// No word is empty.
pub proof fn words_are_not_empty(s: Seq<char>, i: int, cur: Seq<char>)
    ensures
        forall|k: int|
            0 <= k < words_from(s, i, cur).len() ==> (#[trigger] words_from(
                s,
                i,
                cur,
            )[k]).len() > 0,
    decreases s.len() - i,
{
    let r = words_from(s, i, cur);
    if i < s.len() && white_space(s[i]) {
        words_are_not_empty(s, i + 1, Seq::empty());
        let rest = words_from(s, i + 1, Seq::empty());
        assert forall|k: int| 0 <= k < r.len() implies (#[trigger] r[k]).len() > 0 by {
            if cur.len() > 0 && k > 0 {
                assert(r[k] == rest[k - 1]);
            } else if cur.len() > 0 {
                assert(r[k] == cur);
            } else {
                assert(r[k] == rest[k]);
            }
        }
    } else if i < s.len() {
        words_are_not_empty(s, i + 1, cur.push(s[i]));
        assert(r == words_from(s, i + 1, cur.push(s[i])));
    } else {
        assert forall|k: int| 0 <= k < r.len() implies (#[trigger] r[k]).len() > 0 by {
            assert(r[k] == cur);
        }
    }
}

/// The words of a text: what white space separates.
pub fn split_whitespace(s: &str) -> (r: Vec<String>)
    ensures
        texts(r@) == words_in(s@),
{
    let v: Vec<char> = chars_of(s);
    let mut out: Vec<String> = Vec::new();
    let mut start: usize = 0;
    let mut i: usize = 0;
    assert(v@.subrange(0, 0) =~= Seq::empty());
    assert(texts(out@) + words_in(s@) =~= words_in(s@));
    while i < v.len()
        invariant
            v@ == s@,
            start <= i <= v@.len(),
            texts(out@) + words_from(s@, i as int, v@.subrange(start as int, i as int)) == words_in(
                s@,
            ),
        decreases v@.len() - i,
    {
        let ghost cur = v@.subrange(start as int, i as int);
        let ghost was = texts(out@);
        if is_white_space(v[i]) {
            assert(v@.subrange(i as int + 1, i as int + 1) =~= Seq::empty());
            if start < i {
                let one: String = text_of(&v, start, i);
                out.push(one);
                let ghost rest = words_from(s@, i as int + 1, Seq::empty());
                assert(was + (seq![cur] + rest) =~= was.push(cur) + rest);
            }
            start = i + 1;
        } else {
            assert(v@.subrange(start as int, i as int + 1) =~= cur.push(v@[i as int]));
        }
        i += 1;
    }
    if start < i {
        let one: String = text_of(&v, start, i);
        let ghost was = texts(out@);
        out.push(one);
        assert(was + seq![one@] =~= was.push(one@));
    } else {
        assert(texts(out@) + Seq::<Seq<char>>::empty() =~= texts(out@));
    }
    out
}

} // verus!
