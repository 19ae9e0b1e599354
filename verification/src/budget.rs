//! Fitting an answer to its byte budget.
//!
//! An answer that is too big is answered with a smaller page: the largest that
//! fits, found by bisection. Where a page has to be asked for again, a
//! [`PageSearch`] says which page to ask for next.

use crate::detail::array_of_spec;
use crate::detail::byte_len;
use crate::detail::bytes_in;
use crate::edit::set_member;
use crate::edit::with_key;
use crate::error::opt_json;
use crate::json::Fields;
use crate::json::Json;
use crate::json::JsonV;
use crate::json_text::json_text;
use crate::json_text::render;
use crate::replies::ok_json;
use crate::replies::ok_text;
use crate::replies::OMISSION_NOTICE;
use crate::replies::tool_ok;
use crate::replies::tool_ok_text;
use crate::replies::view_only_text;
use crate::value::opt_view;
use crate::value::values;
use vstd::prelude::*;

verus! {

broadcast use {
    vstd::string::group_string_axioms,
    crate::value::group_json,
    crate::text::texts_push,
};

/// The bytes an answer is made to fit.
pub const RESPONSE_BUDGET_BYTES: usize = 24_576;

/// A view as it is sent: with the notice where a machine-readable half was
/// asked for and left out.
pub open spec fn finished_view(view: Seq<char>, json: bool) -> Seq<char> {
    if json {
        view + OMISSION_NOTICE@
    } else {
        view
    }
}

/// Whether a view, as it is sent, fits the budget.
pub open spec fn fits(view: Seq<char>, json: bool) -> bool {
    byte_len(finished_view(view, json)) <= 24_576
}

/// A view as it is sent.
pub fn finish_view(view: &str, json: bool) -> (r: String)
    ensures
        r@ == finished_view(view@, json),
{
    if json {
        view_only_text(view)
    } else {
        view.to_owned()
    }
}

/// Whether a view, as it is sent, fits the budget.
pub fn view_fits(view: &str, json: bool) -> (r: bool)
    ensures
        r == fits(view@, json),
{
    bytes_in(finish_view(view, json).as_str()) <= RESPONSE_BUDGET_BYTES
}

/// The answer of a view.
pub open spec fn closed_view(view: Seq<char>, json: bool) -> JsonV {
    ok_text(finished_view(view, json))
}

/// The answer of a view.
pub fn close_view(view: &str, json: bool) -> (r: Json)
    ensures
        r@ == closed_view(view@, json),
{
    tool_ok_text(finish_view(view, json).as_str())
}

/// Whether a view and the result as JSON fit the budget together.
pub open spec fn both_fit(view: Seq<char>, v: JsonV) -> bool {
    byte_len(view) + byte_len(json_text(v)) <= 24_576
}

/// Whether a view and the result as JSON fit the budget together.
pub fn both_blocks_fit(view: &str, v: &Json) -> (r: bool)
    ensures
        r == both_fit(view@, v@),
{
    let a: u128 = bytes_in(view) as u128;
    let b: u128 = bytes_in(render(v).as_str()) as u128;
    a + b <= RESPONSE_BUDGET_BYTES as u128
}

/// A search for the largest page that fits.
#[derive(Debug)]
pub struct PageSearch {
    /// The argument that sets the page.
    pub key: &'static str,
    /// The smallest page there is.
    pub floor: i128,
    /// The page the search began at.
    pub first: i128,
    /// Every page below this one that was tried fits.
    pub lo: i128,
    /// Every page above this one that was tried is too big.
    pub hi: i128,
    /// Whether the search is over before its time.
    pub done: bool,
    /// The largest page found to fit, and its view.
    pub best: Option<(i128, String)>,
    /// The smallest page found too big.
    pub too_big: Option<i128>,
    /// The view to answer with where no page fits.
    pub view: String,
}

/// What a [`PageSearch`] says.
pub ghost struct SearchV {
    pub key: Seq<char>,
    pub floor: int,
    pub first: int,
    pub lo: int,
    pub hi: int,
    pub done: bool,
    pub best: Option<(int, Seq<char>)>,
    pub too_big: Option<int>,
    pub view: Seq<char>,
}

impl View for PageSearch {
    type V = SearchV;

    open spec fn view(&self) -> SearchV {
        SearchV {
            key: self.key@,
            floor: self.floor as int,
            first: self.first as int,
            lo: self.lo as int,
            hi: self.hi as int,
            done: self.done,
            best: match self.best {
                Some(b) => Some((b.0 as int, b.1@)),
                None => None,
            },
            too_big: match self.too_big {
                Some(n) => Some(n as int),
                None => None,
            },
            view: self.view@,
        }
    }
}

impl SearchV {
    /// What holds at every point of a search.
    pub open spec fn ok(self) -> bool {
        &&& 0 <= self.floor <= self.lo <= self.hi + 1
        &&& self.hi <= self.first <= u64::MAX
        &&& self.best matches Some(b) ==> b.0 == self.lo - 1
        &&& self.best is None ==> self.lo == self.floor
        &&& self.too_big is None ==> self.hi == self.first
        &&& self.too_big matches Some(n) ==> n == self.hi + 1 || (self.done && n == self.floor)
    }

    /// The page to try next, if there is one.
    pub open spec fn page(self) -> Option<int> {
        if self.done || self.lo > self.hi {
            None
        } else {
            Some(self.lo + (self.hi - self.lo) / 2)
        }
    }

    /// The search once the page it asked for was tried: its view, or nothing
    /// where the page could not be had.
    pub open spec fn reported(self, outcome: Option<Seq<char>>, json: bool) -> SearchV {
        match self.page() {
            None => self,
            Some(mid) => match outcome {
                None => SearchV { done: true, ..self },
                Some(text) => if fits(text, json) {
                    SearchV { best: Some((mid, text)), lo: mid + 1, ..self }
                } else if mid == self.floor {
                    SearchV { view: text, too_big: Some(mid), done: true, ..self }
                } else {
                    SearchV { hi: mid - 1, too_big: Some(mid), ..self }
                },
            },
        }
    }

    /// The view the search ends with.
    pub open spec fn found(self) -> Seq<char> {
        match self.best {
            Some(b) => b.1,
            None => self.view,
        }
    }
}

/// The start of a search.
pub open spec fn search_start(key: Seq<char>, floor: int, first: int, view: Seq<char>) -> SearchV {
    SearchV {
        key,
        floor,
        first,
        lo: floor,
        hi: first,
        done: false,
        best: None,
        too_big: None,
        view,
    }
}

impl PageSearch {
    /// Starts a search from the page `first` down to `floor`.
    pub fn new(key: &'static str, floor: u64, first: u64, view: String) -> (r: PageSearch)
        requires
            floor <= first,
        ensures
            r@ == search_start(key@, floor as int, first as int, view@),
            r@.ok(),
    {
        PageSearch {
            key,
            floor: floor as i128,
            first: first as i128,
            lo: floor as i128,
            hi: first as i128,
            done: false,
            best: None,
            too_big: None,
            view,
        }
    }

    /// The page to try next, if there is one.
    pub fn page(&self) -> (r: Option<u64>)
        requires
            self@.ok(),
        ensures
            r is Some == self@.page() is Some,
            r is Some ==> r->0 == self@.page()->0,
    {
        if self.done || self.lo > self.hi {
            None
        } else {
            Some((self.lo + (self.hi - self.lo) / 2) as u64)
        }
    }

    /// The arguments that ask for the next page, if there is one.
    pub fn next_args(&self, args: &Json) -> (r: Option<Json>)
        requires
            self@.ok(),
        ensures
            opt_json(r) == if args@ is Obj && self@.page() is Some {
                Some(with_key(args@, self@.key, JsonV::Int(self@.page()->0)))
            } else {
                None
            },
    {
        match args {
            Json::Obj(_) => match self.page() {
                Some(n) => Some(set_member(args.dup(), self.key, Json::Int(n as i128))),
                None => None,
            },
            _ => None,
        }
    }

    /// Reports what came of the page that was asked for.
    pub fn report(&mut self, outcome: Option<String>, json: bool)
        requires
            old(self)@.ok(),
        ensures
            final(self)@ == old(self)@.reported(opt_view(outcome), json),
            final(self)@.ok(),
    {
        if self.done || self.lo > self.hi {
            return;
        }
        let mid: i128 = self.lo + (self.hi - self.lo) / 2;
        match outcome {
            None => {
                self.done = true;
            },
            Some(text) => if view_fits(text.as_str(), json) {
                self.best = Some((mid, text));
                self.lo = mid + 1;
            } else if mid == self.floor {
                self.view = text;
                self.too_big = Some(mid);
                self.done = true;
            } else {
                self.hi = mid - 1;
                self.too_big = Some(mid);
            },
        }
    }

    /// The answer of a finished search.
    pub fn finish(&self, json: bool) -> (r: Json)
        ensures
            r@ == closed_view(self@.found(), json),
    {
        match &self.best {
            Some(b) => close_view(b.1.as_str(), json),
            None => close_view(self.view.as_str(), json),
        }
    }
}

/// A search that ends finds the largest page: the view it answers with fits,
/// and the page after it was tried and is too big, unless it is the page the
/// search began at.
pub proof fn search_finds_the_largest_page(s: SearchV)
    requires
        s.ok(),
        !s.done,
        s.page() is None,
    ensures
        s.best matches Some(b) ==> b.0 == s.first || s.too_big == Some(b.0 + 1),
{
}

/// Every report halves what is left to search, or ends the search.
pub proof fn search_ends(s: SearchV, outcome: Option<Seq<char>>, json: bool)
    requires
        s.ok(),
        s.page() is Some,
    ensures
        ({
            let r = s.reported(outcome, json);
            r.page() is None || 2 * (r.hi - r.lo + 1) <= s.hi - s.lo + 1
        }),
{
}

/// The view a search has found fits the budget.
pub open spec fn best_fits(s: SearchV, json: bool) -> bool {
    s.best matches Some(b) ==> fits(b.1, json)
}

/// What a search finds always fits.
pub proof fn what_is_found_fits(s: SearchV, outcome: Option<Seq<char>>, json: bool)
    requires
        best_fits(s, json),
    ensures
        best_fits(s.reported(outcome, json), json),
{
}

/// A list answer cut to its first `k` rows: its own count, and where the rest
/// begins, if there is a rest.
pub open spec fn list_cut(
    rows: Seq<JsonV>,
    total: int,
    offset: int,
    store_empty: JsonV,
    k: int,
) -> JsonV {
    JsonV::Obj(
        seq![
            ("count"@, JsonV::Int(k)),
            ("total"@, JsonV::Int(total)),
            (
                "next_offset"@,
                if offset + k < total {
                    JsonV::Int(offset + k)
                } else {
                    JsonV::Null
                },
            ),
            ("store_empty"@, store_empty),
            ("tasks"@, JsonV::Arr(rows.take(k))),
        ],
    )
}

/// Whether a result fits the budget as JSON.
pub open spec fn json_fits(v: JsonV) -> bool {
    byte_len(json_text(v)) <= 24_576
}

/// A list answer, as the search cuts it.
pub ghost struct ListV {
    pub rows: Seq<JsonV>,
    pub total: int,
    pub offset: int,
    pub store_empty: JsonV,
}

impl ListV {
    /// The answer of the first `k` rows.
    pub open spec fn cut(self, k: int) -> JsonV {
        list_cut(self.rows, self.total, self.offset, self.store_empty, k)
    }

    /// How many rows the search between `lo` and `hi` answers with, when the
    /// rows before `lo` are known to fit.
    pub open spec fn rows_that_fit(self, lo: int, hi: int) -> int
        decreases hi - lo + 1,
    {
        if lo > hi {
            lo - 1
        } else {
            let mid = lo + (hi - lo) / 2;
            if json_fits(self.cut(mid)) {
                self.rows_that_fit(mid + 1, hi)
            } else if mid <= 1 {
                1
            } else {
                self.rows_that_fit(lo, mid - 1)
            }
        }
    }
}

/// What the fields of a list answer say.
pub open spec fn list_of_answer(first: JsonV, args: JsonV) -> ListV {
    ListV {
        rows: array_of_spec(first, "tasks"@),
        total: match first.count("total"@) {
            Some(n) => n,
            None => 0,
        },
        offset: match args.count("offset"@) {
            Some(n) => n,
            None => 0,
        },
        store_empty: match first.get("store_empty"@) {
            Some(v) => v,
            None => JsonV::Bool(false),
        },
    }
}

/// The answer of a list: whole where it fits or has no rows, else the most
/// rows that fit, and never less than one.
pub open spec fn list_answer(first: JsonV, args: JsonV) -> JsonV {
    let l = list_of_answer(first, args);
    if json_fits(first) || first.list("tasks"@) is None || l.rows.len() == 0 {
        ok_json(first)
    } else {
        ok_json(l.cut(l.rows_that_fit(1, l.rows.len() as int)))
    }
}

/// The number of rows a search answers with is one the search looked at.
pub proof fn rows_that_fit_bounds(l: ListV, lo: int, hi: int)
    requires
        1 <= lo <= hi + 1,
        hi <= l.rows.len(),
        lo == 1 ==> hi >= 1,
    ensures
        1 <= l.rows_that_fit(lo, hi) <= l.rows.len(),
    decreases hi - lo + 1,
{
    if lo <= hi {
        let mid = lo + (hi - lo) / 2;
        if json_fits(l.cut(mid)) {
            rows_that_fit_bounds(l, mid + 1, hi);
        } else if mid > 1 {
            rows_that_fit_bounds(l, lo, mid - 1);
        }
    }
}

proof fn rows_that_fit_tight(l: ListV, lo: int, hi: int, len: int)
    requires
        1 <= lo <= hi + 1,
        hi <= len,
        lo > 1 ==> json_fits(l.cut(lo - 1)),
        hi < len ==> !json_fits(l.cut(hi + 1)),
        lo == 1 ==> hi >= 1,
    ensures
        ({
            let k = l.rows_that_fit(lo, hi);
            &&& json_fits(l.cut(k)) || k == 1
            &&& k < len ==> !json_fits(l.cut(k + 1)) || (k == 1 && !json_fits(l.cut(1)))
        }),
    decreases hi - lo + 1,
{
    if lo <= hi {
        let mid = lo + (hi - lo) / 2;
        if json_fits(l.cut(mid)) {
            rows_that_fit_tight(l, mid + 1, hi, len);
        } else if mid > 1 {
            rows_that_fit_tight(l, lo, mid - 1, len);
        }
    }
}

/// A cut list is as long as fits: it fits, and one row more would not. Only a
/// single row that is too big by itself is answered though it does not fit.
pub proof fn cut_lists_are_as_long_as_fits(l: ListV)
    requires
        l.rows.len() > 0,
    ensures
        ({
            let n = l.rows.len() as int;
            let k = l.rows_that_fit(1, n);
            &&& 1 <= k <= n
            &&& json_fits(l.cut(k)) || k == 1
            &&& k < n ==> !json_fits(l.cut(k + 1)) || (k == 1 && !json_fits(l.cut(1)))
        }),
{
    let n = l.rows.len() as int;
    rows_that_fit_bounds(l, 1, n);
    rows_that_fit_tight(l, 1, n, n);
}

fn result_fits(v: &Json) -> (r: bool)
    ensures
        r == json_fits(v@),
{
    bytes_in(render(v).as_str()) <= RESPONSE_BUDGET_BYTES
}

fn cut_list(rows: &Vec<Json>, total: u64, offset: u64, store_empty: &Json, k: usize) -> (r: Json)
    requires
        k <= rows@.len(),
    ensures
        r@ == list_cut(values(rows@), total as int, offset as int, store_empty@, k as int),
{
    let mut some: Vec<Json> = Vec::new();
    let mut i: usize = 0;
    assert(values(some@) =~= values(rows@).take(0));
    while i < k
        invariant
            i <= k <= rows@.len(),
            values(some@) =~= values(rows@).take(i as int),
        decreases k - i,
    {
        assert(values(rows@)[i as int] == rows@[i as int]@);
        some.push(rows[i].dup());
        i += 1;
    }
    let reached: i128 = offset as i128 + k as i128;
    let mut f = Fields::new();
    f.put("count", Json::Int(k as i128));
    f.put("total", Json::Int(total as i128));
    f.put(
        "next_offset",
        if reached < total as i128 {
            Json::Int(reached)
        } else {
            Json::Null
        },
    );
    f.put("store_empty", store_empty.dup());
    f.put("tasks", Json::Arr(some));
    assert(f@ =~= list_cut(
        values(rows@),
        total as int,
        offset as int,
        store_empty@,
        k as int,
    )->Obj_0);
    f.done()
}

/// The answer of a list whose page was not asked for: as many rows as fit.
pub fn fit_list_to_budget(first: &Json, args: &Json) -> (r: Json)
    ensures
        r@ == list_answer(first@, args@),
{
    if result_fits(first) {
        return tool_ok(first);
    }
    let rows: &Vec<Json> = match first.list("tasks") {
        Some(a) => a,
        None => {
            return tool_ok(first);
        },
    };
    assert(values(rows@).len() == rows@.len());
    if rows.len() == 0 {
        return tool_ok(first);
    }
    let total: u64 = match first.count("total") {
        Some(n) => n,
        None => 0,
    };
    let offset: u64 = match args.count("offset") {
        Some(n) => n,
        None => 0,
    };
    let store_empty: Json = match first.get("store_empty") {
        Some(v) => v.dup(),
        None => Json::Bool(false),
    };
    let ghost l = list_of_answer(first@, args@);
    let ghost want = l.rows_that_fit(1, rows@.len() as int);
    let mut lo: usize = 1;
    let mut hi: usize = rows.len();
    while lo <= hi
        invariant
            1 <= lo,
            lo <= hi + 1,
            hi <= rows@.len(),
            l == list_of_answer(first@, args@),
            l == (ListV {
                rows: values(rows@),
                total: total as int,
                offset: offset as int,
                store_empty: store_empty@,
            }),
            lo == 1 ==> hi >= 1,
            want == l.rows_that_fit(1, rows@.len() as int),
            want == l.rows_that_fit(lo as int, hi as int),
            list_answer(first@, args@) == ok_json(l.cut(want)),
        decreases hi + 1 - lo,
    {
        let mid: usize = lo + (hi - lo) / 2;
        let candidate: Json = cut_list(rows, total, offset, &store_empty, mid);
        if result_fits(&candidate) {
            if mid == rows.len() {
                assert(l.rows_that_fit(mid as int + 1, hi as int) == mid);
                return tool_ok(&candidate);
            }
            lo = mid + 1;
        } else {
            if mid == 1 {
                return tool_ok(&candidate);
            }
            hi = mid - 1;
        }
    }
    tool_ok(&cut_list(rows, total, offset, &store_empty, lo - 1))
}

} // verus!
