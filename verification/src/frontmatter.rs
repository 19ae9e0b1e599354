//! The front matter of a memory document.
//!
//! This reads no YAML: the one shape it knows is `key: value` lines between a
//! leading `---` line and the next one.

use crate::text::begins;
use crate::text::chars_of;
use crate::text::find_line_end;
use crate::text::line_at;
use crate::text::line_end;
use crate::text::line_end_bounds;
use crate::text::lines;
use crate::text::lines_from;
use crate::text::lines_of;
use crate::text::same;
use crate::text::strip_prefix;
use crate::text::strs;
use crate::text::trim;
use crate::text::trim_back;
use crate::text::trim_front;
use crate::text::trimmed;
use crate::text::white_space;
use vstd::prelude::*;

verus! {

broadcast use vstd::string::group_string_axioms;

/// What a list of pairs says.
pub open spec fn pairs_view(v: Seq<(&str, &str)>) -> Seq<(Seq<char>, Seq<char>)> {
    v.map_values(|p: (&str, &str)| (p.0@, p.1@))
}

/// The first line from `i` on that is exactly `---`: where it begins, and
/// where what follows it begins.
pub open spec fn fence_at(s: Seq<char>, i: int) -> Option<(int, int)>
    decreases s.len() + 1 - i,
{
    if i < 0 || i >= s.len() || !(i <= line_end(s, i) <= s.len()) {
        None
    } else {
        let e = line_end(s, i);
        if s.subrange(i, e) == "---"@ {
            Some((i, if e < s.len() { e + 1 } else { e }))
        } else {
            fence_at(s, e + 1)
        }
    }
}

/// The first colon from `i` on, or the end.
pub open spec fn colon(s: Seq<char>, i: int) -> int
    decreases s.len() - i,
{
    if i >= s.len() {
        s.len() as int
    } else if s[i] == ':' {
        i
    } else {
        colon(s, i + 1)
    }
}

/// The text without the one pair of quotes that wraps it.
pub open spec fn unquoted(s: Seq<char>) -> Seq<char> {
    if s.len() >= 2 && s[0] == s.last() && (s[0] == '"' || s[0] == '\'') {
        s.subrange(1, s.len() - 1)
    } else {
        s
    }
}

/// The pair a line says, if it has a colon.
pub open spec fn pair_of(line: Seq<char>) -> Option<(Seq<char>, Seq<char>)> {
    let k = colon(line, 0);
    if k < line.len() {
        Some((trimmed(line.take(k)), unquoted(trimmed(line.skip(k + 1)))))
    } else {
        None
    }
}

/// The pairs the first `n` lines say, in order.
pub open spec fn pairs_in(v: Seq<Seq<char>>, n: nat) -> Seq<(Seq<char>, Seq<char>)>
    decreases n,
{
    if n == 0 || n > v.len() {
        Seq::empty()
    } else {
        match pair_of(v[n - 1]) {
            Some(p) => pairs_in(v, (n - 1) as nat).push(p),
            None => pairs_in(v, (n - 1) as nat),
        }
    }
}

/// The pairs of a body's front matter, and what follows it. A body that does
/// not open with a fence, or whose fence is never closed, has none.
pub open spec fn split_spec(body: Seq<char>) -> (Seq<(Seq<char>, Seq<char>)>, Seq<char>) {
    if !begins(body, "---\n"@) {
        (Seq::empty(), body)
    } else {
        let s = body.skip(4);
        match fence_at(s, 0) {
            None => (Seq::empty(), body),
            Some(f) => {
                let v = lines_of(s.take(f.0));
                (pairs_in(v, v.len()), s.skip(f.1))
            },
        }
    }
}

fn find_fence(c: &Vec<char>, s: &str) -> (r: Option<(usize, usize)>)
    requires
        c@ == s@,
    ensures
        r is Some == fence_at(s@, 0) is Some,
        r matches Some(f) ==> fence_at(s@, 0) == Some((f.0 as int, f.1 as int)) && f.0 <= f.1
            <= s@.len(),
{
    let mut i: usize = 0;
    while i < c.len()
        invariant
            c@ == s@,
            i <= c@.len(),
            fence_at(s@, 0) == fence_at(s@, i as int),
        decreases c@.len() - i,
    {
        let e: usize = find_line_end(c, i);
        let next: usize = if e < c.len() {
            e + 1
        } else {
            e
        };
        if same(s.substring_char(i, e), "---") {
            return Some((i, next));
        }
        if e >= c.len() {
            assert(fence_at(s@, e as int + 1) is None);
            return None;
        }
        i = next;
    }
    None
}

fn find_colon(c: &Vec<char>) -> (r: usize)
    ensures
        r == colon(c@, 0),
        r <= c@.len(),
{
    let mut i: usize = 0;
    while i < c.len()
        invariant
            i <= c@.len(),
            colon(c@, 0) == colon(c@, i as int),
        decreases c@.len() - i,
    {
        if c[i] == ':' {
            return i;
        }
        i += 1;
    }
    i
}

fn unquote<'a>(s: &'a str) -> (r: &'a str)
    ensures
        r@ == unquoted(s@),
{
    let n: usize = s.unicode_len();
    if n >= 2 {
        let a: char = s.get_char(0);
        let b: char = s.get_char(n - 1);
        if a == b && (a == '"' || a == '\'') {
            return s.substring_char(1, n - 1);
        }
    }
    s
}

/// Splits a leading front matter block off `body`: its pairs in order, both
/// sides trimmed and the value without one pair of wrapping quotes, and
/// everything after the closing fence.
pub fn split<'a>(body: &'a str) -> (r: (Vec<(&'a str, &'a str)>, &'a str))
    ensures
        pairs_view(r.0@) == split_spec(body@).0,
        r.1@ == split_spec(body@).1,
{
    let none: Vec<(&'a str, &'a str)> = Vec::new();
    assert(pairs_view(none@) =~= Seq::empty());
    proof {
        reveal_strlit("---\n");
    }
    let s: &'a str = match strip_prefix(body, "---\n") {
        None => {
            return (none, body);
        },
        Some(s) => s,
    };
    let c: Vec<char> = chars_of(s);
    let (start, rest) = match find_fence(&c, s) {
        None => {
            return (none, body);
        },
        Some(f) => f,
    };
    let inside: &'a str = s.substring_char(0, start);
    assert(inside@ =~= s@.take(start as int));
    let v: Vec<&'a str> = lines(inside);
    let mut out: Vec<(&'a str, &'a str)> = Vec::new();
    let mut i: usize = 0;
    assert(pairs_view(out@) =~= Seq::empty());
    while i < v.len()
        invariant
            i <= v@.len(),
            pairs_view(out@) == pairs_in(strs(v@), i as nat),
        decreases v@.len() - i,
    {
        let line: &'a str = v[i];
        assert(strs(v@)[i as int] == line@);
        let lc: Vec<char> = chars_of(line);
        let k: usize = find_colon(&lc);
        if k < lc.len() {
            let before: &'a str = line.substring_char(0, k);
            let after: &'a str = line.substring_char(k + 1, lc.len());
            assert(before@ =~= line@.take(k as int));
            assert(after@ =~= line@.skip(k as int + 1));
            let p = (trim(before), unquote(trim(after)));
            assert(pairs_view(out@.push(p)) =~= pairs_view(out@).push((p.0@, p.1@)));
            out.push(p);
        }
        i += 1;
    }
    let tail: &'a str = s.substring_char(rest, c.len());
    assert(tail@ =~= s@.skip(rest as int));
    (out, tail)
}

/// The first `n` pairs as `key  value` lines.
pub open spec fn pair_lines(v: Seq<(Seq<char>, Seq<char>)>, n: nat) -> Seq<char>
    decreases n,
{
    if n == 0 || n > v.len() {
        Seq::empty()
    } else {
        (pair_lines(v, (n - 1) as nat) + v[n - 1].0 + "  "@ + v[n - 1].1).push('\n')
    }
}

/// A body with its front matter as plain lines.
pub open spec fn flat(body: Seq<char>) -> Seq<char> {
    let s = split_spec(body);
    if s.0.len() == 0 {
        body
    } else {
        pair_lines(s.0, s.0.len()).push('\n') + s.1
    }
}

/// Turns a leading front matter block into plain `key  value` lines, an empty
/// line, and the rest. A body without one is handed back as it is.
pub fn flatten<'a>(body: &'a str) -> (r: std::borrow::Cow<'a, str>)
    ensures
        r@ == flat(body@),
        r is Borrowed == (split_spec(body@).0.len() == 0),
{
    let (pairs, rest) = split(body);
    if pairs.len() == 0 {
        return std::borrow::Cow::Borrowed(body);
    }
    let mut out: String = String::new();
    let mut i: usize = 0;
    while i < pairs.len()
        invariant
            i <= pairs@.len(),
            out@ == pair_lines(pairs_view(pairs@), i as nat),
        decreases pairs@.len() - i,
    {
        assert(pairs_view(pairs@)[i as int] == (pairs@[i as int].0@, pairs@[i as int].1@));
        out.append(pairs[i].0);
        out.append("  ");
        out.append(pairs[i].1);
        out.push('\n');
        i += 1;
    }
    out.push('\n');
    out.append(rest);
    std::borrow::Cow::Owned(out)
}

/// A body that opens with no fence is its own flat form.
pub proof fn prose_is_untouched(body: Seq<char>)
    requires
        !begins(body, "---\n"@),
    ensures
        split_spec(body) == (Seq::<(Seq<char>, Seq<char>)>::empty(), body),
        flat(body) == body,
{
}

/// Whatever the split, what follows the front matter is a tail of the body.
pub proof fn rest_is_a_tail(body: Seq<char>)
    ensures
        split_spec(body).1.len() <= body.len(),
        split_spec(body).1 == body.skip(body.len() - split_spec(body).1.len()),
{
    if begins(body, "---\n"@) {
        reveal_strlit("---\n");
        let s = body.skip(4);
        fence_bounds(s, 0);
        match fence_at(s, 0) {
            None => {
                assert(body.skip(0) =~= body);
            },
            Some(f) => {
                assert(s.skip(f.1) =~= body.skip(body.len() - (s.len() - f.1)));
            },
        }
    } else {
        assert(body.skip(0) =~= body);
    }
}

proof fn fence_bounds(s: Seq<char>, i: int)
    requires
        0 <= i,
    ensures
        fence_at(s, i) matches Some(f) ==> 0 <= f.0 <= f.1 <= s.len(),
    decreases s.len() + 1 - i,
{
    if i < s.len() {
        line_end_bounds(s, i);
        fence_bounds(s, line_end(s, i) + 1);
    }
}

/// Whether a text lies on one line.
spec fn one_line(s: Seq<char>) -> bool {
    forall|i: int| 0 <= i < s.len() ==> #[trigger] s[i] != '\n'
}

proof fn front_stays_on_the_line(s: Seq<char>)
    requires
        one_line(s),
    ensures
        one_line(trim_front(s)),
    decreases s.len(),
{
    if s.len() > 0 && white_space(s[0]) {
        assert forall|i: int| 0 <= i < s.skip(1).len() implies #[trigger] s.skip(1)[i] != '\n' by {
            assert(s[i + 1] != '\n');
        }
        front_stays_on_the_line(s.skip(1));
    }
}

proof fn back_stays_on_the_line(s: Seq<char>)
    requires
        one_line(s),
    ensures
        one_line(trim_back(s)),
    decreases s.len(),
{
    if s.len() > 0 && white_space(s.last()) {
        assert forall|i: int| 0 <= i < s.drop_last().len() implies #[trigger] s.drop_last()[i]
            != '\n' by {
            assert(s[i] != '\n');
        }
        back_stays_on_the_line(s.drop_last());
    }
}

proof fn lines_are_lines(s: Seq<char>, i: int)
    requires
        0 <= i,
    ensures
        forall|k: int| 0 <= k < lines_from(s, i).len() ==> one_line(#[trigger] lines_from(s, i)[k]),
    decreases s.len() + 1 - i,
{
    if i < s.len() {
        line_end_bounds(s, i);
        let e = line_end(s, i);
        lines_are_lines(s, e + 1);
        let line = line_at(s, i, e);
        assert forall|k: int| 0 <= k < line.len() implies #[trigger] line[k] != '\n' by {
            assert(s[i + k] != '\n');
        }
        let v = lines_from(s, i);
        let rest = lines_from(s, e + 1);
        assert(v == seq![line] + rest);
        assert forall|k: int| 0 <= k < v.len() implies one_line(#[trigger] v[k]) by {
            if k > 0 {
                assert(v[k] == rest[k - 1]);
            }
        }
    }
}

proof fn keys_are_lines(v: Seq<Seq<char>>, n: nat)
    requires
        forall|k: int| 0 <= k < v.len() ==> one_line(#[trigger] v[k]),
    ensures
        forall|k: int| 0 <= k < pairs_in(v, n).len() ==> one_line((#[trigger] pairs_in(v, n)[k]).0),
    decreases n,
{
    if 0 < n <= v.len() {
        keys_are_lines(v, (n - 1) as nat);
        let line = v[n - 1];
        assert(one_line(line));
        let k = colon(line, 0);
        if k < line.len() {
            colon_bounds(line, 0);
            let t = line.take(k);
            assert forall|i: int| 0 <= i < t.len() implies #[trigger] t[i] != '\n' by {
                assert(line[i] != '\n');
            }
            front_stays_on_the_line(t);
            back_stays_on_the_line(trim_front(t));
        }
        let p = pairs_in(v, n);
        let q = pairs_in(v, (n - 1) as nat);
        assert forall|i: int| 0 <= i < p.len() implies one_line((#[trigger] p[i]).0) by {
            if i < q.len() {
                assert(p[i] == q[i]);
            }
        }
    }
}

proof fn colon_bounds(s: Seq<char>, i: int)
    requires
        0 <= i,
    ensures
        colon(s, i) >= 0,
    decreases s.len() - i,
{
    if i < s.len() && s[i] != ':' {
        colon_bounds(s, i + 1);
    }
}

proof fn lines_begin_with_a_key(v: Seq<(Seq<char>, Seq<char>)>, n: nat)
    requires
        0 < n <= v.len(),
    ensures
        begins(pair_lines(v, n), v[0].0 + "  "@),
    decreases n,
{
    let key = v[0].0 + "  "@;
    let text = pair_lines(v, n);
    if n == 1 {
        assert(pair_lines(v, 0) =~= Seq::empty());
        assert(text.take(key.len() as int) =~= key);
    } else {
        lines_begin_with_a_key(v, (n - 1) as nat);
        let less = pair_lines(v, (n - 1) as nat);
        assert(text.take(key.len() as int) =~= less.take(key.len() as int));
    }
}

/// Flattening a body twice is flattening it once: what was flattened opens
/// with no fence.
pub proof fn flattening_twice_is_flattening_once(body: Seq<char>)
    ensures
        flat(flat(body)) == flat(body),
{
    reveal_strlit("---\n");
    reveal_strlit("  ");
    let p = split_spec(body).0;
    if p.len() > 0 {
        let s = body.skip(4);
        let f = fence_at(s, 0)->0;
        lines_are_lines(s.take(f.0), 0);
        let v = lines_of(s.take(f.0));
        keys_are_lines(v, v.len());
        lines_begin_with_a_key(p, p.len());
        let key = p[0].0;
        let text = pair_lines(p, p.len());
        let out = flat(body);
        assert(one_line(key));
        assert(text.take(key.len() as int + 2) == key + "  "@);
        assert(text.take(key.len() as int + 2)[key.len() as int] == ' ');
        assert(out[key.len() as int] == ' ');
        assert forall|i: int| 0 <= i < key.len() implies #[trigger] out[i] == key[i] by {
            assert(text.take(key.len() as int + 2)[i] == (key + "  "@)[i]);
        }
        if begins(out, "---\n"@) {
            let h = out.take(4);
            assert(h[0] == '-' && h[1] == '-' && h[2] == '-' && h[3] == '\n');
            if key.len() > 3 {
                assert(out[3] == key[3]);
            } else {
                assert(out[key.len() as int] == h[key.len() as int]);
            }
            assert(false);
        }
        prose_is_untouched(out);
    }
}

} // verus!
