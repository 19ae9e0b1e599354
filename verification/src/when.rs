//! Instants: the stamps the store writes and the spellings a caller may use.
//!
//! A stamp is an RFC 3339 text; an instant is its number of nanoseconds since
//! the Unix epoch. Relative spellings ("tomorrow", "in 3 days") mean something
//! only against a clock, so a [`Calendar`] brings what they stand for.

use crate::error::bad_request;
use crate::error::ApiError;
use crate::error::ErrorV;
use crate::text::debug_form;
use crate::text::debug_text;
use crate::text::same;
use vstd::prelude::*;

verus! {

broadcast use vstd::string::group_string_axioms;

/// The instant a stamp names, in nanoseconds since the Unix epoch; `None`
/// where the text is no stamp.
pub uninterp spec fn stamp_instant(s: Seq<char>) -> Option<int>;

/// Reads a stamp with `jiff::Timestamp`'s `FromStr`: an RFC 3339 date and
/// clock with an offset, given back as nanoseconds since the Unix epoch.
#[verifier::external_body]
pub(crate) fn parse_ts(s: &str) -> (r: Option<i128>)
    ensures
        r is Some == stamp_instant(s@) is Some,
        r is Some ==> r->0 == stamp_instant(s@)->0,
{
    s.parse::<jiff::Timestamp>().ok().map(|t| t.as_nanosecond())
}

/// The stamp of an instant, as the store writes it; `None` where the instant
/// is outside the years that a stamp can hold.
pub uninterp spec fn instant_stamp(nanosecond: int) -> Option<Seq<char>>;

/// Writes an instant with `jiff::Timestamp::from_nanosecond` and its `Display`:
/// the UTC stamp, with as many fractional digits as the instant has. Reading
/// that stamp back gives the same instant.
#[verifier::external_body]
pub(crate) fn stamp_of(nanosecond: i128) -> (r: Option<String>)
    ensures
        r is Some == instant_stamp(nanosecond as int) is Some,
        r is Some ==> r->0@ == instant_stamp(nanosecond as int)->0,
        r is Some ==> stamp_instant(r->0@) == Some(nanosecond as int),
{
    jiff::Timestamp::from_nanosecond(nanosecond).ok().map(|t| t.to_string())
}

/// Writes a whole second with `jiff::Timestamp::from_second` and its `Display`:
/// the stamp of the instant that many seconds after the Unix epoch.
#[verifier::external_body]
pub(crate) fn stamp_of_second(second: i64) -> (r: Option<String>)
    ensures
        r is Some == instant_stamp(second * 1_000_000_000) is Some,
        r is Some ==> r->0@ == instant_stamp(second * 1_000_000_000)->0,
        r is Some ==> stamp_instant(r->0@) == Some(second * 1_000_000_000),
{
    jiff::Timestamp::from_second(second).ok().map(|t| t.to_string())
}

/// The whole seconds of an instant, cut towards the epoch.
pub open spec fn whole_seconds(nanosecond: int) -> int {
    if nanosecond >= 0 {
        nanosecond / 1_000_000_000
    } else {
        -((-nanosecond) / 1_000_000_000)
    }
}

/// The whole seconds of an instant, cut towards the epoch.
pub fn seconds_in(nanosecond: i128) -> (r: i128)
    ensures
        r == whole_seconds(nanosecond as int),
        -170141183460469231731687303716 <= r <= 170141183460469231731687303716,
{
    if nanosecond >= 0 {
        nanosecond / 1_000_000_000
    } else {
        let m: i128 = -(nanosecond + 1);
        let q: i128 = m / 1_000_000_000;
        if m % 1_000_000_000 == 999_999_999 {
            -(q + 1)
        } else {
            -q
        }
    }
}

/// What each spelling that needs a clock stands for, as a stamp.
pub struct Calendar {
    pub spellings: Vec<(String, String)>,
}

/// The spellings and stamps of a calendar.
pub open spec fn spellings(v: Seq<(String, String)>) -> Seq<(Seq<char>, Seq<char>)> {
    v.map_values(|p: (String, String)| (p.0@, p.1@))
}

impl View for Calendar {
    type V = Seq<(Seq<char>, Seq<char>)>;

    open spec fn view(&self) -> Seq<(Seq<char>, Seq<char>)> {
        spellings(self.spellings@)
    }
}

/// The stamp of the first spelling that is exactly `s`.
pub open spec fn spelled(c: Seq<(Seq<char>, Seq<char>)>, s: Seq<char>) -> Option<Seq<char>>
    decreases c.len(),
{
    if c.len() == 0 {
        None
    } else if spelled(c.drop_last(), s) is Some {
        spelled(c.drop_last(), s)
    } else if c.last().0 == s {
        Some(c.last().1)
    } else {
        None
    }
}

/// The refusal of a spelling that is no date.
pub open spec fn no_date(s: Seq<char>) -> ErrorV {
    bad_request("cannot read "@ + debug_form(s) + " as a date"@)
}

/// The stamp that `s` stands for: a stamp stands for its own instant, anything
/// else for what the calendar says, and what neither reads is refused.
pub open spec fn resolved(s: Seq<char>, c: Seq<(Seq<char>, Seq<char>)>) -> Result<Seq<char>, ErrorV> {
    match stamp_instant(s) {
        Some(n) => match instant_stamp(n) {
            Some(t) => Ok(t),
            None => Err(no_date(s)),
        },
        None => match spelled(c, s) {
            Some(t) => Ok(t),
            None => Err(no_date(s)),
        },
    }
}

impl Calendar {
    /// A calendar that knows no spelling.
    pub fn empty() -> (r: Calendar)
        ensures
            r@ == Seq::<(Seq<char>, Seq<char>)>::empty(),
    {
        let r = Calendar { spellings: Vec::new() };
        assert(r@ =~= Seq::<(Seq<char>, Seq<char>)>::empty());
        r
    }

    /// The stamp of the first spelling that is exactly `s`.
    pub fn find(&self, s: &str) -> (r: Option<String>)
        ensures
            r is Some == spelled(self@, s@) is Some,
            r is Some ==> r->0@ == spelled(self@, s@)->0,
    {
        let mut i: usize = 0;
        while i < self.spellings.len()
            invariant
                i <= self.spellings@.len(),
                spelled(self@.take(i as int), s@) is None,
            decreases self.spellings@.len() - i,
        {
            let ghost now = self@.take(i as int + 1);
            assert(now.drop_last() =~= self@.take(i as int));
            if same(self.spellings[i].0.as_str(), s) {
                proof {
                    spelled_stays(self@, s@, i as int + 1);
                }
                return Some(self.spellings[i].1.clone());
            }
            i += 1;
        }
        assert(self@.take(i as int) =~= self@);
        None
    }

    /// The stamp that `s` stands for.
    pub fn parse_when(&self, s: &str) -> (r: Result<String, ApiError>)
        ensures
            r is Ok == resolved(s@, self@) is Ok,
            r is Ok ==> r->Ok_0@ == resolved(s@, self@)->Ok_0,
            r is Err ==> r->Err_0@ == resolved(s@, self@)->Err_0,
    {
        let found: Option<String> = match parse_ts(s) {
            Some(n) => stamp_of(n),
            None => self.find(s),
        };
        match found {
            Some(t) => Ok(t),
            None => {
                let mut m: String = "cannot read ".to_owned();
                m.append(debug_text(s).as_str());
                m.append(" as a date");
                Err(ApiError::bad_request(m))
            },
        }
    }
}

/// A spelling found in the first entries stays found.
pub proof fn spelled_stays(c: Seq<(Seq<char>, Seq<char>)>, s: Seq<char>, n: int)
    requires
        0 <= n <= c.len(),
        spelled(c.take(n), s) is Some,
    ensures
        spelled(c, s) == spelled(c.take(n), s),
    decreases c.len() - n,
{
    if n < c.len() {
        assert(c.take(n + 1).drop_last() =~= c.take(n));
        spelled_stays(c, s, n + 1);
    } else {
        assert(c.take(n) =~= c);
    }
}

/// A stamp the store wrote stands for itself, whatever the calendar says.
pub proof fn written_stamps_are_kept(n: int, c: Seq<(Seq<char>, Seq<char>)>)
    requires
        instant_stamp(n) is Some,
        stamp_instant(instant_stamp(n)->0) == Some(n),
    ensures
        resolved(instant_stamp(n)->0, c) == Ok::<Seq<char>, ErrorV>(instant_stamp(n)->0),
{
}

} // verus!
