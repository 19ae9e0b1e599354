//! What holds of front matter that is read.

use crate::frontmatter::colon;
use crate::frontmatter::fence_at;
use crate::frontmatter::flat;
use crate::frontmatter::pair_lines;
use crate::frontmatter::pair_of;
use crate::frontmatter::pairs_in;
use crate::frontmatter::split_spec;
use crate::frontmatter::unquoted;
use crate::text::begins;
use crate::text::line_at;
use crate::text::line_end;
use crate::text::lines_from;
use crate::text::lines_of;
use crate::text::trim_back;
use crate::text::trim_front;
use crate::text::trimmed;
use crate::text::white_space;
use vstd::prelude::*;

verus! {

broadcast use vstd::string::group_string_axioms;

/// Whether a text stands on one line, is not empty and neither begins nor ends
/// with white space.
pub open spec fn settled(s: Seq<char>) -> bool {
    &&& s.len() > 0
    &&& !white_space(s[0])
    &&& !white_space(s.last())
    &&& forall|k: int| 0 <= k < s.len() ==> #[trigger] s[k] != '\n'
}

/// Whether a text can be a key: it is settled and holds no colon.
pub open spec fn key_like(s: Seq<char>) -> bool {
    settled(s) && forall|k: int| 0 <= k < s.len() ==> #[trigger] s[k] != ':'
}

proof fn line_ends_at(s: Seq<char>, i: int, e: int)
    requires
        0 <= i <= e < s.len(),
        s[e] == '\n',
        forall|k: int| i <= k < e ==> #[trigger] s[k] != '\n',
    ensures
        line_end(s, i) == e,
    decreases e - i,
{
    if i < e {
        assert(s[i] != '\n');
        line_ends_at(s, i + 1, e);
    }
}

proof fn colon_stands_at(s: Seq<char>, i: int, e: int)
    requires
        0 <= i <= e < s.len(),
        s[e] == ':',
        forall|k: int| i <= k < e ==> #[trigger] s[k] != ':',
    ensures
        colon(s, i) == e,
    decreases e - i,
{
    if i < e {
        assert(s[i] != ':');
        colon_stands_at(s, i + 1, e);
    }
}

/// What a value stands for: itself, or what is between its quotes.
pub open spec fn means(v: Seq<char>, x: Seq<char>) -> bool {
    ||| v == x && x[0] != '"' && x[0] != '\''
    ||| v == seq!['"'] + x + seq!['"']
    ||| v == seq!['\''] + x + seq!['\'']
}

proof fn pair_is_read(k: Seq<char>, v: Seq<char>, x: Seq<char>)
    requires
        key_like(k),
        settled(v),
        means(v, x),
    ensures
        pair_of(k + ": "@ + v) == Some((k, x)),
{
    reveal_strlit(": ");
    let line = k + ": "@ + v;
    let n = k.len() as int;
    assert(line[n] == ':' && line[n + 1] == ' ');
    assert forall|j: int| 0 <= j < n implies #[trigger] line[j] != ':' by {
        assert(line[j] == k[j]);
    }
    colon_stands_at(line, 0, n);
    assert(line.take(n) =~= k);
    let tail = line.skip(n + 1);
    assert(tail[0] == ' ');
    assert(tail.skip(1) =~= v);
    assert(trim_front(tail) == trim_front(v));
    assert(trimmed(tail) == v);
    assert(trimmed(k) == k);
    if v == x && x[0] != '"' && x[0] != '\'' {
        assert(unquoted(v) == v);
    } else {
        assert(v.subrange(1, v.len() - 1) =~= x);
    }
}

/// A body that opens with one key and its value between fences has that pair as
/// its front matter, and what follows the closing fence as its rest. Quotes
/// around the value are no part of it. Flattened, the pair stands on a line of
/// its own, two spaces between key and value, and an empty line before the rest.
#[verifier::rlimit(40)]
pub proof fn one_pair_is_front_matter(
    k: Seq<char>,
    v: Seq<char>,
    x: Seq<char>,
    rest: Seq<char>,
)
    requires
        key_like(k),
        settled(v),
        means(v, x),
    ensures
        ({
            let body = "---\n"@ + (k + ": "@ + v) + "\n---\n"@ + rest;
            &&& split_spec(body) == (seq![(k, x)], rest)
            &&& flat(body) == k + "  "@ + x + "\n\n"@ + rest
        }),
{
    reveal_strlit("---\n");
    reveal_strlit("---");
    reveal_strlit("\n---\n");
    reveal_strlit(": ");
    reveal_strlit("\n\n");
    let line = k + ": "@ + v;
    let n = line.len() as int;
    let body = "---\n"@ + line + "\n---\n"@ + rest;
    let s = body.skip(4);
    assert(body.take(4) =~= "---\n"@);
    assert(s =~= line + "\n---\n"@ + rest);
    assert forall|j: int| 0 <= j < n implies #[trigger] line[j] != '\n' by {
        if j < k.len() {
            assert(line[j] == k[j]);
        } else if j >= k.len() + 2 {
            assert(line[j] == v[j - k.len() - 2]);
        }
    }
    assert forall|j: int| 0 <= j < n implies #[trigger] s[j] != '\n' by {
        assert(s[j] == line[j]);
    }
    assert(s[n] == '\n' && s[n + 1] == '-' && s[n + 2] == '-' && s[n + 3] == '-' && s[n + 4]
        == '\n');
    line_ends_at(s, 0, n);
    line_ends_at(s, n + 1, n + 4);
    assert(s.subrange(0, n) =~= line);
    assert(line[k.len() as int] == ':');
    assert(line != "---"@) by {
        if line == "---"@ {
            assert("---"@[k.len() as int] == ':');
        }
    }
    assert(s.subrange(n + 1, n + 4) =~= "---"@);
    assert(fence_at(s, n + 1) == Some((n + 1, n + 5)));
    assert(fence_at(s, 0) == Some((n + 1, n + 5)));
    let t = s.take(n + 1);
    assert forall|j: int| 0 <= j < n implies #[trigger] t[j] != '\n' by {
        assert(t[j] == s[j]);
    }
    assert(t[n] == '\n');
    line_ends_at(t, 0, n);
    assert(t[n - 1] == v.last());
    assert(white_space('\r'));
    assert(t.subrange(0, n) =~= line);
    assert(line_at(t, 0, n) == line);
    assert(lines_from(t, n + 1) =~= Seq::<Seq<char>>::empty());
    assert(lines_of(t) =~= seq![line]);
    pair_is_read(k, v, x);
    let one = seq![line];
    assert(pairs_in(one, 0) =~= Seq::<(Seq<char>, Seq<char>)>::empty());
    assert(pairs_in(one, 1) =~= seq![(k, x)]);
    assert(s.skip(n + 5) =~= rest);
    let pairs = seq![(k, x)];
    assert(pair_lines(pairs, 0) =~= Seq::<char>::empty());
    assert(flat(body) =~= k + "  "@ + x + "\n\n"@ + rest);
}

/// A line of front matter without a colon is no pair.
pub proof fn lines_without_a_colon_are_no_pairs(line: Seq<char>)
    requires
        forall|k: int| 0 <= k < line.len() ==> #[trigger] line[k] != ':',
    ensures
        pair_of(line) is None,
{
    no_colon_from(line, 0);
}

proof fn no_colon_from(line: Seq<char>, i: int)
    requires
        0 <= i <= line.len(),
        forall|k: int| 0 <= k < line.len() ==> #[trigger] line[k] != ':',
    ensures
        colon(line, i) == line.len(),
    decreases line.len() - i,
{
    if i < line.len() {
        assert(line[i] != ':');
        no_colon_from(line, i + 1);
    }
}

/// A body whose opening fence is never closed is taken as it is.
pub proof fn unclosed_front_matter_is_prose(body: Seq<char>)
    requires
        begins(body, "---\n"@),
        fence_at(body.skip(4), 0) is None,
    ensures
        split_spec(body) == (Seq::<(Seq<char>, Seq<char>)>::empty(), body),
        flat(body) == body,
{
}

/// Trimming takes white space off both ends and nothing else: what is left
/// stands in the text between white space, and has none at its ends.
pub proof fn trimming_takes_white_space_alone(s: Seq<char>)
    ensures
        trimmed(s).len() > 0 ==> !white_space(trimmed(s)[0]) && !white_space(trimmed(s).last()),
        exists|a: Seq<char>, b: Seq<char>| #[trigger] blank(a) && #[trigger] blank(b) && s == a
            + trimmed(s) + b,
{
    let f = trim_front(s);
    front_is_taken(s);
    back_is_taken(f);
    let a = choose|a: Seq<char>| #[trigger] blank(a) && s == a + f;
    let b = choose|b: Seq<char>| #[trigger] blank(b) && f == trimmed(s) + b;
    assert(s =~= a + trimmed(s) + b);
    if trimmed(s).len() > 0 {
        assert(trimmed(s)[0] == f[0]);
    }
}

/// Whether a text is nothing but white space.
pub open spec fn blank(s: Seq<char>) -> bool {
    forall|k: int| 0 <= k < s.len() ==> white_space(#[trigger] s[k])
}

proof fn front_is_taken(s: Seq<char>)
    ensures
        exists|a: Seq<char>| #[trigger] blank(a) && s == a + trim_front(s),
        trim_front(s).len() > 0 ==> !white_space(trim_front(s)[0]),
    decreases s.len(),
{
    if s.len() > 0 && white_space(s[0]) {
        front_is_taken(s.skip(1));
        let a = choose|a: Seq<char>| #[trigger] blank(a) && s.skip(1) == a + trim_front(s.skip(1));
        let c = seq![s[0]] + a;
        assert(blank(c)) by {
            assert forall|k: int| 0 <= k < c.len() implies white_space(#[trigger] c[k]) by {
                if k > 0 {
                    assert(c[k] == a[k - 1]);
                }
            }
        }
        assert(s =~= seq![s[0]] + s.skip(1));
        assert(s =~= c + trim_front(s));
    } else {
        let a = Seq::<char>::empty();
        assert(blank(a));
        assert(s =~= a + trim_front(s));
    }
}

proof fn back_is_taken(s: Seq<char>)
    ensures
        exists|b: Seq<char>| #[trigger] blank(b) && s == trim_back(s) + b,
        trim_back(s).len() > 0 ==> !white_space(trim_back(s).last()),
    decreases s.len(),
{
    if s.len() > 0 && white_space(s.last()) {
        let d = s.drop_last();
        back_is_taken(d);
        let b = choose|b: Seq<char>| #[trigger] blank(b) && d == trim_back(d) + b;
        let c = b.push(s.last());
        assert(blank(c)) by {
            assert forall|k: int| 0 <= k < c.len() implies white_space(#[trigger] c[k]) by {
                if k < b.len() {
                    assert(c[k] == b[k]);
                }
            }
        }
        assert(s =~= d.push(s.last()));
        assert(s =~= trim_back(s) + c);
    } else {
        let b = Seq::<char>::empty();
        assert(blank(b));
        assert(s =~= trim_back(s) + b);
    }
}

} // verus!
