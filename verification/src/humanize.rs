//! Instants and durations in words.

use crate::duration::duration_secs;
use crate::duration::seconds_of;
use crate::text::decimal;
use crate::text::decimal_text;
use crate::when::parse_ts;
use crate::when::seconds_in;
use crate::when::stamp_instant;
use crate::when::whole_seconds;
use vstd::prelude::*;

verus! {

broadcast use vstd::string::group_string_axioms;

/// How instants and durations are written.
#[derive(Clone, Copy, PartialEq, Eq, Debug, Structural)]
pub enum TimeFormat {
    /// As stored: exact, and sortable.
    Iso,
    /// `2 hours ago`: readable, and relative to now.
    Relative,
    /// Both, the relative form in parentheses.
    Both,
}

/// What a view needs beyond the task.
pub struct DetailOpts {
    pub time: TimeFormat,
    /// The instant that relative forms are relative to, in nanoseconds since
    /// the Unix epoch.
    pub now: i128,
}

/// What a [`DetailOpts`] says.
pub ghost struct DetailV {
    pub time: TimeFormat,
    pub now: int,
}

impl View for DetailOpts {
    type V = DetailV;

    open spec fn view(&self) -> DetailV {
        DetailV { time: self.time, now: self.now as int }
    }
}

/// `n / unit`, rounded to the nearest whole number, halves up.
pub open spec fn nearest(n: int, unit: int) -> int {
    if (n % unit) * 2 >= unit {
        n / unit + 1
    } else {
        n / unit
    }
}

/// `n / unit`, rounded to the nearest whole number, halves up. Dividing first
/// is what keeps it from overflowing.
pub fn round_div(n: i64, unit: i64) -> (r: i64)
    requires
        0 <= n,
        0 < unit <= 86_400,
    ensures
        r == nearest(n as int, unit as int),
        0 <= r <= n + 1,
        unit >= 2 ==> r <= n / 2 + 1,
{
    let q: i64 = n / unit;
    let rem: i64 = n % unit;
    assert(q <= n && (unit >= 2 ==> q <= n / 2)) by (nonlinear_arith)
        requires
            q == n / unit,
            0 <= n,
            unit > 0,
    ;
    assert(unit == 1 ==> rem == 0) by (nonlinear_arith)
        requires
            rem == n % unit,
            0 <= n,
            unit > 0,
    ;
    if rem * 2 >= unit {
        q + 1
    } else {
        q
    }
}

/// The rounded quotient is off by at most half a unit.
pub proof fn nearest_is_near(n: int, unit: int)
    requires
        0 <= n,
        0 < unit,
    ensures
        -unit <= 2 * (n - nearest(n, unit) * unit) <= unit,
{
    let q = n / unit;
    let rem = n % unit;
    assert(n == q * unit + rem && 0 <= rem < unit) by (nonlinear_arith)
        requires
            q == n / unit,
            rem == n % unit,
            0 <= n,
            0 < unit,
    ;
    assert((q + 1) * unit == q * unit + unit) by (nonlinear_arith);
}

/// A duration as one compact unit: `45s`, `12m`, `2h`, `3d`.
pub open spec fn compact(secs: int) -> Seq<char> {
    if secs < 60 {
        decimal(secs) + "s"@
    } else if secs < 3600 {
        decimal(nearest(secs, 60)) + "m"@
    } else if secs < 86_400 {
        decimal(nearest(secs, 3600)) + "h"@
    } else {
        decimal(nearest(secs, 86_400)) + "d"@
    }
}

/// A duration as one compact unit: `45s`, `12m`, `2h`, `3d`.
pub fn humanize_secs(secs: i64) -> (r: String)
    requires
        0 <= secs,
    ensures
        r@ == compact(secs as int),
{
    let (n, unit): (i64, &str) = if secs < 60 {
        (secs, "s")
    } else if secs < 3600 {
        (round_div(secs, 60), "m")
    } else if secs < 86_400 {
        (round_div(secs, 3600), "h")
    } else {
        (round_div(secs, 86_400), "d")
    };
    let mut r: String = decimal_text(n);
    r.append(unit);
    r
}

/// `1 hour`, `2 hours`.
pub open spec fn counted(n: int, unit: Seq<char>) -> Seq<char> {
    if n == 1 {
        "1 "@ + unit
    } else {
        decimal(n) + " "@ + unit + "s"@
    }
}

/// `1 hour`, `2 hours`.
pub fn plural(n: i64, unit: &str) -> (r: String)
    ensures
        r@ == counted(n as int, unit@),
{
    if n == 1 {
        "1 ".to_owned().concat(unit)
    } else {
        let mut r: String = decimal_text(n);
        r.append(" ");
        r.append(unit);
        r.append("s");
        r
    }
}

/// A span as prose: `45 seconds`, `1 hour`, `3 days`.
pub open spec fn span(secs: int) -> Seq<char> {
    if secs < 60 {
        counted(secs, "second"@)
    } else if secs < 3600 {
        counted(nearest(secs, 60), "minute"@)
    } else if secs < 86_400 {
        counted(nearest(secs, 3600), "hour"@)
    } else {
        counted(nearest(secs, 86_400), "day"@)
    }
}

/// A span as prose: `45 seconds`, `1 hour`, `3 days`.
pub fn humanize_span(secs: i64) -> (r: String)
    requires
        0 <= secs,
    ensures
        r@ == span(secs as int),
{
    if secs < 60 {
        plural(secs, "second")
    } else if secs < 3600 {
        plural(round_div(secs, 60), "minute")
    } else if secs < 86_400 {
        plural(round_div(secs, 3600), "hour")
    } else {
        plural(round_div(secs, 86_400), "day")
    }
}

/// The seconds from one instant to another.
pub open spec fn seconds_between(from: int, to: int) -> int {
    whole_seconds(to) - whole_seconds(from)
}

/// A number of seconds that no `i64` holds is beyond what any stamp can name;
/// it is held to the nearest one that does.
pub open spec fn held(n: int) -> int {
    if n > i64::MAX {
        i64::MAX as int
    } else {
        n
    }
}

/// `2 hours ago`, `in 1 day`, or `just now`.
pub open spec fn ago(then: int, now: int) -> Seq<char> {
    let secs = seconds_between(then, now);
    let size = if secs < 0 {
        -secs
    } else {
        secs
    };
    if size < 60 {
        "just now"@
    } else if secs > 0 {
        span(held(size)) + " ago"@
    } else {
        "in "@ + span(held(size))
    }
}

/// `2 hours ago`, `in 1 day`, or `just now`.
pub fn humanize_ago(then: i128, now: i128) -> (r: String)
    ensures
        r@ == ago(then as int, now as int),
{
    let secs: i128 = seconds_in(now) - seconds_in(then);
    let size: i128 = if secs < 0 {
        -secs
    } else {
        secs
    };
    if size < 60 {
        return "just now".to_owned();
    }
    let n: i64 = if size > 9223372036854775807i128 {
        i64::MAX
    } else {
        size as i64
    };
    let text: String = humanize_span(n);
    if secs > 0 {
        text.concat(" ago")
    } else {
        "in ".to_owned().concat(text.as_str())
    }
}

/// An instant as a view writes it. A text that is no stamp is left as it is.
pub open spec fn instant_text(iso: Seq<char>, o: DetailV) -> Seq<char> {
    if iso.len() == 0 {
        Seq::empty()
    } else {
        match stamp_instant(iso) {
            None => iso,
            Some(then) => match o.time {
                TimeFormat::Iso => iso,
                TimeFormat::Relative => ago(then, o.now),
                TimeFormat::Both => iso + " ("@ + ago(then, o.now) + ")"@,
            },
        }
    }
}

/// An instant as a view writes it. A text that is no stamp is left as it is.
pub fn fmt_instant(iso: &str, opts: &DetailOpts) -> (r: String)
    ensures
        r@ == instant_text(iso@, opts@),
{
    if iso.is_empty() {
        return String::new();
    }
    match parse_ts(iso) {
        None => iso.to_owned(),
        Some(then) => match opts.time {
            TimeFormat::Iso => iso.to_owned(),
            TimeFormat::Relative => humanize_ago(then, opts.now),
            TimeFormat::Both => {
                let mut r: String = iso.to_owned();
                r.append(" (");
                r.append(humanize_ago(then, opts.now).as_str());
                r.append(")");
                r
            },
        },
    }
}

/// A duration as a view writes it. A text that is none is left as it is.
pub open spec fn duration_text(iso: Seq<char>, time: TimeFormat) -> Seq<char> {
    if iso.len() == 0 {
        Seq::empty()
    } else {
        match seconds_of(iso) {
            None => iso,
            Some(secs) => match time {
                TimeFormat::Iso => iso,
                TimeFormat::Relative => compact(secs),
                TimeFormat::Both => iso + " ("@ + compact(secs) + ")"@,
            },
        }
    }
}

/// A duration as a view writes it. A text that is none is left as it is.
pub fn fmt_duration(iso: &str, opts: &DetailOpts) -> (r: String)
    ensures
        r@ == duration_text(iso@, opts@.time),
{
    if iso.is_empty() {
        return String::new();
    }
    match duration_secs(iso) {
        None => iso.to_owned(),
        Some(secs) => match opts.time {
            TimeFormat::Iso => iso.to_owned(),
            TimeFormat::Relative => humanize_secs(secs),
            TimeFormat::Both => {
                let mut r: String = iso.to_owned();
                r.append(" (");
                r.append(humanize_secs(secs).as_str());
                r.append(")");
                r
            },
        },
    }
}

/// A duration on a card: always the compact form.
pub fn card_duration(iso: &str) -> (r: String)
    ensures
        r@ == duration_text(iso@, TimeFormat::Relative),
{
    fmt_duration(iso, &DetailOpts { time: TimeFormat::Relative, now: 0 })
}

/// The date of a stamp: its first ten characters.
pub open spec fn date_of(iso: Seq<char>) -> Seq<char> {
    if iso.len() >= 10 {
        iso.take(10)
    } else {
        iso
    }
}

/// An instant on a card: the date beside the relative form, never the clock.
pub open spec fn card_instant_text(iso: Seq<char>, o: DetailV) -> Seq<char> {
    if iso.len() == 0 {
        Seq::empty()
    } else {
        match stamp_instant(iso) {
            None => iso,
            Some(then) => match o.time {
                TimeFormat::Iso => iso,
                TimeFormat::Relative => ago(then, o.now),
                TimeFormat::Both => date_of(iso) + " ("@ + ago(then, o.now) + ")"@,
            },
        }
    }
}

/// An instant on a card: the date beside the relative form, never the clock.
pub fn card_instant(iso: &str, opts: &DetailOpts) -> (r: String)
    ensures
        r@ == card_instant_text(iso@, opts@),
{
    if iso.is_empty() {
        return String::new();
    }
    match parse_ts(iso) {
        None => iso.to_owned(),
        Some(then) => match opts.time {
            TimeFormat::Iso => iso.to_owned(),
            TimeFormat::Relative => humanize_ago(then, opts.now),
            TimeFormat::Both => {
                let n: usize = iso.unicode_len();
                let date: &str = if n >= 10 {
                    iso.substring_char(0, 10)
                } else {
                    iso
                };
                assert(date@ =~= date_of(iso@));
                let mut r: String = date.to_owned();
                r.append(" (");
                r.append(humanize_ago(then, opts.now).as_str());
                r.append(")");
                r
            },
        },
    }
}

} // verus!
