//! ISO 8601 durations: weeks, days, hours, minutes and seconds.

use crate::text::chars_of;
use crate::text::digits;
use crate::text::digit;
use vstd::prelude::*;

verus! {

/// The value of a decimal digit.
pub open spec fn digit_value(c: char) -> Option<int> {
    if '0' <= c <= '9' {
        Some(c as int - '0' as int)
    } else {
        None
    }
}

/// The order of a unit and its seconds: weeks and days before the `T`, hours,
/// minutes and seconds after it.
pub open spec fn unit_of(c: char, time: bool) -> Option<(int, int)> {
    if c == 'W' && !time {
        Some((1, 604800))
    } else if c == 'D' && !time {
        Some((2, 86400))
    } else if c == 'H' && time {
        Some((3, 3600))
    } else if c == 'M' && time {
        Some((4, 60))
    } else if c == 'S' && time {
        Some((5, 1))
    } else {
        None
    }
}

/// How much of a duration was read: its seconds, the number being read, the
/// last unit, whether the `T` was there, and whether something follows it.
pub ghost struct Span {
    pub total: int,
    pub number: Option<int>,
    pub rank: int,
    pub time: bool,
    pub any: bool,
}

/// The seconds of a duration from `i` on. Units come in order, each once, and
/// a number that no `i64` holds is none.
pub open spec fn span_secs(s: Seq<char>, i: int, p: Span) -> Option<int>
    decreases s.len() - i,
{
    if i >= s.len() {
        if p.number is None && p.any {
            Some(p.total)
        } else {
            None
        }
    } else if digit_value(s[i]) is Some {
        let n = p.number.unwrap_or(0) * 10 + digit_value(s[i])->0;
        if n > i64::MAX {
            None
        } else {
            span_secs(s, i + 1, Span { number: Some(n), ..p })
        }
    } else if s[i] == 'T' && !p.time && p.number is None {
        span_secs(s, i + 1, Span { time: true, any: false, ..p })
    } else if p.number is Some && unit_of(s[i], p.time) is Some {
        let u = unit_of(s[i], p.time)->0;
        let total = p.total + p.number->0 * u.1;
        if u.0 <= p.rank || total > i64::MAX {
            None
        } else {
            span_secs(s, i + 1, Span { total, number: None, rank: u.0, any: true, ..p })
        }
    } else {
        None
    }
}

/// The seconds of an ISO 8601 duration; `None` where the text is none, or
/// where no `i64` holds them.
pub open spec fn seconds_of(s: Seq<char>) -> Option<int> {
    if s.len() > 0 && s[0] == 'P' {
        span_secs(s, 1, Span { total: 0, number: None, rank: 0, time: false, any: false })
    } else {
        None
    }
}

fn digit_of(c: char) -> (r: Option<i64>)
    ensures
        r is Some == digit_value(c) is Some,
        r is Some ==> r->0 == digit_value(c)->0 && 0 <= r->0 <= 9,
{
    if '0' <= c && c <= '9' {
        Some(((c as u32) - ('0' as u32)) as i64)
    } else {
        None
    }
}

fn unit_seconds(c: char, time: bool) -> (r: Option<(i64, i64)>)
    ensures
        r is Some == unit_of(c, time) is Some,
        r matches Some(u) ==> unit_of(c, time) == Some((u.0 as int, u.1 as int)) && 1 <= u.1
            <= 604800,
{
    if c == 'W' && !time {
        Some((1, 604800))
    } else if c == 'D' && !time {
        Some((2, 86400))
    } else if c == 'H' && time {
        Some((3, 3600))
    } else if c == 'M' && time {
        Some((4, 60))
    } else if c == 'S' && time {
        Some((5, 1))
    } else {
        None
    }
}

/// The seconds of an ISO 8601 duration; `None` where the text is none, or
/// where no `i64` holds them.
pub fn duration_secs(s: &str) -> (r: Option<i64>)
    ensures
        r is Some == seconds_of(s@) is Some,
        r is Some ==> r->0 == seconds_of(s@)->0 && r->0 >= 0,
{
    let c: Vec<char> = chars_of(s);
    if c.len() == 0 || c[0] != 'P' {
        return None;
    }
    let mut total: i64 = 0;
    let mut number: Option<i64> = None;
    let mut rank: i64 = 0;
    let mut time = false;
    let mut any = false;
    let mut i: usize = 1;
    while i < c.len()
        invariant
            c@ == s@,
            1 <= i <= c@.len(),
            0 <= total,
            number is Some ==> number->0 >= 0,
            seconds_of(s@) == span_secs(
                s@,
                i as int,
                (Span {
                    total: total as int,
                    number: match number {
                        Some(n) => Some(n as int),
                        None => None,
                    },
                    rank: rank as int,
                    time,
                    any,
                }),
            ),
        decreases c@.len() - i,
    {
        let x: char = c[i];
        match digit_of(x) {
            Some(d) => {
                let n: i64 = match number {
                    Some(n) => n,
                    None => 0,
                };
                let m: i128 = n as i128 * 10 + d as i128;
                if m > 9223372036854775807i128 {
                    return None;
                }
                number = Some(m as i64);
            },
            None => {
                if x == 'T' && !time && number.is_none() {
                    time = true;
                    any = false;
                } else {
                    match (number, unit_seconds(x, time)) {
                        (Some(n), Some(u)) => {
                            assert(0 <= n * u.1 <= 9223372036854775807 * 604800)
                                by (nonlinear_arith)
                                requires
                                    0 <= n <= 9223372036854775807,
                                    1 <= u.1 <= 604800,
                            ;
                            let t: i128 = total as i128 + n as i128 * u.1 as i128;
                            if u.0 <= rank || t > 9223372036854775807i128 {
                                return None;
                            }
                            total = t as i64;
                            number = None;
                            rank = u.0;
                            any = true;
                        },
                        _ => {
                            return None;
                        },
                    }
                }
            },
        }
        i += 1;
    }
    if number.is_none() && any {
        Some(total)
    } else {
        None
    }
}

/// A duration is not negative, and an `i64` holds it.
pub proof fn seconds_are_counted(s: Seq<char>)
    ensures
        seconds_of(s) matches Some(n) ==> 0 <= n <= i64::MAX,
{
    if s.len() > 0 && s[0] == 'P' {
        spans_are_counted(
            s,
            1,
            Span { total: 0, number: None, rank: 0, time: false, any: false },
        );
    }
}

proof fn spans_are_counted(s: Seq<char>, i: int, p: Span)
    requires
        0 <= i,
        0 <= p.total <= i64::MAX,
        p.number matches Some(n) ==> 0 <= n,
    ensures
        span_secs(s, i, p) matches Some(n) ==> 0 <= n <= i64::MAX,
    decreases s.len() - i,
{
    if i < s.len() {
        if digit_value(s[i]) is Some {
            let n = p.number.unwrap_or(0) * 10 + digit_value(s[i])->0;
            if n <= i64::MAX {
                spans_are_counted(s, i + 1, Span { number: Some(n), ..p });
            }
        } else if s[i] == 'T' && !p.time && p.number is None {
            spans_are_counted(s, i + 1, Span { time: true, any: false, ..p });
        } else if p.number is Some && unit_of(s[i], p.time) is Some {
            let u = unit_of(s[i], p.time)->0;
            let x = p.number->0;
            let total = p.total + x * u.1;
            assert(0 <= x * u.1) by (nonlinear_arith)
                requires
                    0 <= x,
                    1 <= u.1,
            ;
            if u.0 > p.rank && total <= i64::MAX {
                spans_are_counted(
                    s,
                    i + 1,
                    Span { total, number: None, rank: u.0, any: true, ..p },
                );
            }
        }
    }
}

/// A number of units as a duration writes it; nothing where there is none.
pub open spec fn units(n: Option<nat>, unit: char) -> Seq<char> {
    match n {
        Some(n) => digits(n).push(unit),
        None => Seq::empty(),
    }
}

/// A duration as ISO 8601 writes it: `P`, the weeks and days, and after a `T`
/// the hours, minutes and seconds, each where there are any.
pub open spec fn written(
    w: Option<nat>,
    d: Option<nat>,
    h: Option<nat>,
    m: Option<nat>,
    s: Option<nat>,
) -> Seq<char> {
    let time = units(h, 'H') + units(m, 'M') + units(s, 'S');
    let date = seq!['P'] + units(w, 'W') + units(d, 'D');
    if time.len() > 0 {
        date.push('T') + time
    } else {
        date
    }
}

/// How many there are.
pub open spec fn amount(n: Option<nat>) -> int {
    match n {
        Some(n) => n as int,
        None => 0,
    }
}

proof fn digits_are_read(s: Seq<char>, i: int, n: nat, p: Span)
    requires
        0 <= i,
        i + digits(n).len() <= s.len(),
        s.subrange(i, i + digits(n).len()) == digits(n),
        p.number is None,
        n <= i64::MAX,
    ensures
        digits(n).len() > 0,
        span_secs(s, i, p) == span_secs(
            s,
            i + digits(n).len(),
            Span { number: Some(n as int), ..p },
        ),
    decreases n,
{
    let g = digits(n);
    let sub = s.subrange(i, i + g.len());
    if n < 10 {
        assert(sub[0] == s[i]);
        assert(digit_value(s[i]) == Some(n as int));
    } else {
        let q = n / 10;
        let b = digits(q);
        assert(s.subrange(i, i + b.len()) =~= b) by {
            assert forall|k: int| 0 <= k < b.len() implies s.subrange(i, i + b.len())[k]
                == b[k] by {
                assert(sub[k] == g[k]);
            }
        }
        digits_are_read(s, i, q, p);
        let k = i + b.len();
        assert(sub[b.len() as int] == g[b.len() as int]);
        assert(digit_value(s[k]) == Some((n % 10) as int));
        assert(q * 10 + n % 10 == n);
    }
}

/// One number of units is read: its seconds are added.
proof fn units_are_read(s: Seq<char>, i: int, n: nat, unit: char, p: Span, rank: int, secs: int)
    requires
        0 <= i,
        i + digits(n).len() + 1 <= s.len(),
        s.subrange(i, i + digits(n).len() + 1) == digits(n).push(unit),
        p.number is None,
        n <= i64::MAX,
        unit_of(unit, p.time) == Some((rank, secs)),
        rank > p.rank,
        p.total + n * secs <= i64::MAX,
        unit != 'T',
        digit_value(unit) is None,
    ensures
        span_secs(s, i, p) == span_secs(
            s,
            i + digits(n).len() + 1,
            Span { total: p.total + n * secs, rank, any: true, ..p },
        ),
{
    let g = digits(n);
    let sub = s.subrange(i, i + g.len() + 1);
    assert(s.subrange(i, i + g.len()) =~= g) by {
        assert forall|k: int| 0 <= k < g.len() implies s.subrange(i, i + g.len())[k] == g[k] by {
            assert(sub[k] == g.push(unit)[k]);
        }
    }
    digits_are_read(s, i, n, p);
    assert(sub[g.len() as int] == unit);
    assert(s[i + g.len()] == unit);
}

proof fn part_is_read(
    s: Seq<char>,
    a: Seq<char>,
    n: Option<nat>,
    unit: char,
    b: Seq<char>,
    p: Span,
    rank: int,
    secs: int,
)
    requires
        s == a + units(n, unit) + b,
        p.number is None,
        unit_of(unit, p.time) == Some((rank, secs)),
        rank > p.rank,
        p.total + amount(n) * secs <= i64::MAX,
        amount(n) <= i64::MAX,
        unit != 'T',
        digit_value(unit) is None,
    ensures
        span_secs(s, a.len() as int, p) == span_secs(
            s,
            (a + units(n, unit)).len() as int,
            Span {
                total: p.total + amount(n) * secs,
                rank: if n is Some {
                    rank
                } else {
                    p.rank
                },
                any: n is Some || p.any,
                ..p
            },
        ),
{
    if let Some(x) = n {
        let i = a.len() as int;
        assert(s.subrange(i, i + digits(x).len() + 1) =~= digits(x).push(unit));
        units_are_read(s, i, x, unit, p, rank, secs);
    } else {
        assert(a + units(n, unit) =~= a);
        let z = amount(n);
        assert(z * secs == 0) by (nonlinear_arith)
            requires
                z == 0,
        ;
    }
}

/// A duration that is written reads back as its seconds: a week is seven days, a
/// day 24 hours, an hour 60 minutes, a minute 60 seconds, and what is left out
/// counts for nothing.
#[verifier::rlimit(40)]
pub proof fn written_durations_read_back(
    w: Option<nat>,
    d: Option<nat>,
    h: Option<nat>,
    m: Option<nat>,
    s: Option<nat>,
)
    requires
        w is Some || d is Some || h is Some || m is Some || s is Some,
        ((((amount(w) * 7 + amount(d)) * 24 + amount(h)) * 60 + amount(m)) * 60 + amount(s))
            <= i64::MAX,
    ensures
        seconds_of(written(w, d, h, m, s)) == Some(
            (((amount(w) * 7 + amount(d)) * 24 + amount(h)) * 60 + amount(m)) * 60 + amount(s),
        ),
{
    let t = written(w, d, h, m, s);
    let time = units(h, 'H') + units(m, 'M') + units(s, 'S');
    let p0 = Span { total: 0, number: None, rank: 0, time: false, any: false };
    let a0 = seq!['P'];
    let a1 = a0 + units(w, 'W');
    let a2 = a1 + units(d, 'D');
    assert(t[0] == 'P');
    let rest = if time.len() > 0 {
        seq!['T'] + time
    } else {
        Seq::empty()
    };
    assert(t =~= a0 + units(w, 'W') + (units(d, 'D') + rest));
    part_is_read(t, a0, w, 'W', units(d, 'D') + rest, p0, 1, 604800);
    let p1 = Span {
        total: amount(w) * 604800,
        rank: if w is Some {
            1
        } else {
            0
        },
        any: w is Some,
        ..p0
    };
    assert(t =~= a1 + units(d, 'D') + rest);
    part_is_read(t, a1, d, 'D', rest, p1, 2, 86400);
    let p2 = Span {
        total: amount(w) * 604800 + amount(d) * 86400,
        rank: if d is Some {
            2
        } else {
            p1.rank
        },
        any: d is Some || p1.any,
        ..p0
    };
    assert(span_secs(t, 1, p0) == span_secs(t, a2.len() as int, p2));
    if time.len() > 0 {
        let a3 = a2.push('T');
        assert(t[a2.len() as int] == 'T');
        let p3 = Span { time: true, any: false, ..p2 };
        assert(span_secs(t, a2.len() as int, p2) == span_secs(t, a3.len() as int, p3));
        assert(t =~= a3 + units(h, 'H') + (units(m, 'M') + units(s, 'S')));
        part_is_read(t, a3, h, 'H', units(m, 'M') + units(s, 'S'), p3, 3, 3600);
        let a4 = a3 + units(h, 'H');
        let p4 = Span {
            total: p3.total + amount(h) * 3600,
            rank: if h is Some {
                3
            } else {
                p3.rank
            },
            any: h is Some,
            ..p3
        };
        assert(t =~= a4 + units(m, 'M') + units(s, 'S'));
        part_is_read(t, a4, m, 'M', units(s, 'S'), p4, 4, 60);
        let a5 = a4 + units(m, 'M');
        let p5 = Span {
            total: p4.total + amount(m) * 60,
            rank: if m is Some {
                4
            } else {
                p4.rank
            },
            any: m is Some || p4.any,
            ..p4
        };
        assert(t =~= a5 + units(s, 'S') + Seq::empty());
        part_is_read(t, a5, s, 'S', Seq::empty(), p5, 5, 1);
        let a6 = a5 + units(s, 'S');
        assert(t =~= a6);
        let p6 = Span {
            total: p5.total + amount(s),
            rank: if s is Some {
                5
            } else {
                p5.rank
            },
            any: s is Some || p5.any,
            ..p5
        };
        assert(span_secs(t, 1, p0) == span_secs(t, t.len() as int, p6));
        assert(h is Some || m is Some || s is Some) by {
            if h is None && m is None && s is None {
                assert(time.len() == 0);
            }
        }
    } else {
        assert(t =~= a2);
        assert(h is None && m is None && s is None) by {
            assert(units(h, 'H').len() + units(m, 'M').len() + units(s, 'S').len() == time.len());
        }
    }
}

} // verus!
