//! What holds of every written time.

use crate::duration::seconds_of;
use crate::humanize::ago;
use crate::humanize::card_instant_text;
use crate::humanize::compact;
use crate::humanize::DetailV;
use crate::humanize::duration_text;
use crate::humanize::instant_text;
use crate::humanize::nearest;
use crate::humanize::span;
use crate::humanize::TimeFormat;
use crate::text::decimal;
use crate::when::stamp_instant;
use crate::when::whole_seconds;
use vstd::prelude::*;

verus! {

broadcast use vstd::string::group_string_axioms;

/// Whether `n` units are the nearest to a number of seconds, a half rounding up.
pub open spec fn about(secs: int, n: int, unit: int) -> bool {
    -unit <= 2 * (secs - n * unit) < unit
}

proof fn nearest_is_about(secs: int, unit: int)
    requires
        0 <= secs,
        0 < unit,
    ensures
        about(secs, nearest(secs, unit), unit),
{
    let q = secs / unit;
    let rem = secs % unit;
    assert(secs == q * unit + rem && 0 <= rem < unit) by (nonlinear_arith)
        requires
            q == secs / unit,
            rem == secs % unit,
            0 <= secs,
            0 < unit,
    ;
    assert((q + 1) * unit == q * unit + unit) by (nonlinear_arith);
}

/// A duration is written in the largest unit of which it holds one, to the
/// nearest whole number of them: seconds under a minute, minutes under an hour,
/// hours under a day, and days from there on.
pub proof fn durations_are_written_to_the_nearest_unit(secs: int)
    requires
        0 <= secs,
    ensures
        secs < 60 ==> compact(secs) == decimal(secs) + "s"@,
        60 <= secs < 3600 ==> exists|n: int| #[trigger]
            about(secs, n, 60) && compact(secs) == decimal(n) + "m"@,
        3600 <= secs < 86_400 ==> exists|n: int| #[trigger]
            about(secs, n, 3600) && compact(secs) == decimal(n) + "h"@,
        86_400 <= secs ==> exists|n: int| #[trigger]
            about(secs, n, 86_400) && compact(secs) == decimal(n) + "d"@,
{
    nearest_is_about(secs, 60);
    nearest_is_about(secs, 3600);
    nearest_is_about(secs, 86_400);
}

/// A number of things in words: one of them, or several.
pub open spec fn worded(n: int, unit: Seq<char>) -> Seq<char> {
    if n == 1 {
        "1 "@ + unit
    } else {
        decimal(n) + " "@ + unit + "s"@
    }
}

/// Whether a span of seconds is written as `text`: in the largest unit of which
/// it holds one, to the nearest whole number of them.
pub open spec fn spans(secs: int, text: Seq<char>) -> bool {
    &&& secs < 60 ==> text == worded(secs, "second"@)
    &&& 60 <= secs < 3600 ==> exists|n: int| #[trigger]
        about(secs, n, 60) && text == worded(n, "minute"@)
    &&& 3600 <= secs < 86_400 ==> exists|n: int| #[trigger]
        about(secs, n, 3600) && text == worded(n, "hour"@)
    &&& 86_400 <= secs ==> exists|n: int| #[trigger]
        about(secs, n, 86_400) && text == worded(n, "day"@)
}

proof fn span_spans(secs: int)
    requires
        0 <= secs,
    ensures
        spans(secs, span(secs)),
{
    nearest_is_about(secs, 60);
    nearest_is_about(secs, 3600);
    nearest_is_about(secs, 86_400);
}

/// The whole second an instant falls in, counted towards the epoch.
pub open spec fn in_second(n: int, s: int) -> bool {
    if n >= 0 {
        s * 1_000_000_000 <= n < (s + 1) * 1_000_000_000
    } else {
        (s - 1) * 1_000_000_000 < n <= s * 1_000_000_000
    }
}

/// An instant less than a minute away, on either side, is just now. One
/// further back is so long ago, and one further ahead is in so long, by the
/// seconds between the two.
pub proof fn instants_are_told_from_now(then: int, now: int, s: int, t: int, text: Seq<char>)
    requires
        in_second(then, s),
        in_second(now, t),
        -i64::MAX <= t - s <= i64::MAX,
        text == ago(then, now),
    ensures
        -60 < t - s < 60 ==> text == "just now"@,
        t - s >= 60 ==> exists|x: Seq<char>| #[trigger]
            spans(t - s, x) && text == x + " ago"@,
        s - t >= 60 ==> exists|x: Seq<char>| #[trigger]
            spans(s - t, x) && text == "in "@ + x,
{
    seconds_are_whole(then, s);
    seconds_are_whole(now, t);
    if t - s >= 60 {
        span_spans(t - s);
        assert(spans(t - s, span(t - s)));
    }
    if s - t >= 60 {
        span_spans(s - t);
        assert(spans(s - t, span(s - t)));
    }
}

proof fn seconds_are_whole(n: int, s: int)
    requires
        in_second(n, s),
    ensures
        whole_seconds(n) == s,
{
    if n >= 0 {
        assert(n / 1_000_000_000 == s);
    } else {
        let m = -n;
        assert(m / 1_000_000_000 == -s);
    }
}

/// What is no stamp is written as it stands. A stamp is written as it stands,
/// as how far it is from now, or as both, the distance in parentheses behind
/// it; on a card its date stands for it beside the distance.
pub proof fn stamps_are_written_as_asked(iso: Seq<char>, o: DetailV)
    ensures
        stamp_instant(iso) is None || o.time == TimeFormat::Iso ==> instant_text(iso, o) == iso
            && card_instant_text(iso, o) == iso,
        iso.len() > 0 && o.time == TimeFormat::Relative ==> (stamp_instant(iso) matches Some(n)
            ==> instant_text(iso, o) == ago(n, o.now) && card_instant_text(iso, o) == ago(
            n,
            o.now,
        )),
        iso.len() > 0 && o.time == TimeFormat::Both ==> (stamp_instant(iso) matches Some(n) ==> {
            &&& instant_text(iso, o) == iso + " ("@ + ago(n, o.now) + ")"@
            &&& card_instant_text(iso, o) == if iso.len() >= 10 {
                iso.take(10)
            } else {
                iso
            } + " ("@ + ago(n, o.now) + ")"@
        }),
{
    if iso.len() == 0 {
        assert(iso =~= Seq::empty());
    }
}

/// What is no duration is written as it stands. A duration is written as it
/// stands, compactly, or as both, the compact form in parentheses behind it.
pub proof fn durations_are_written_as_asked(iso: Seq<char>, time: TimeFormat)
    ensures
        seconds_of(iso) is None || time == TimeFormat::Iso ==> duration_text(iso, time) == iso,
        iso.len() > 0 && time == TimeFormat::Relative ==> (seconds_of(iso) matches Some(n)
            ==> duration_text(iso, time) == compact(n)),
        iso.len() > 0 && time == TimeFormat::Both ==> (seconds_of(iso) matches Some(n)
            ==> duration_text(iso, time) == iso + " ("@ + compact(n) + ")"@),
{
    if iso.len() == 0 {
        assert(iso =~= Seq::empty());
    }
}

} // verus!
