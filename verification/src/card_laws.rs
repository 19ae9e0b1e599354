//! What a card and a brief show.

use crate::brief::blocks_section;
use crate::brief::brief_text;
use crate::brief::dependents;
use crate::brief::depends_section;
use crate::brief::memory_groups;
use crate::brief::memory_section;
use crate::brief::neighbour_line;
use crate::brief::prerequisite;
use crate::brief::prerequisites;
use crate::card::Borders;
use crate::card::card_rows_spec;
use crate::card::card_text;
use crate::card::CardRowV;
use crate::card::delivered;
use crate::card::description_spec;
use crate::card::filled;
use crate::card::notes_text;
use crate::card::passed_in;
use crate::card::quoted_note;
use crate::card::status_parts;
use crate::card::value_row;
use crate::card::with_lines;
use crate::card::with_value;
use crate::cells::fitted;
use crate::cells::sanitized;
use crate::cells::str_cells;
use crate::detail::array_of_spec;
use crate::detail::budget_text;
use crate::detail::byte_len;
use crate::detail::detail_text;
use crate::detail::handles;
use crate::detail::names_of;
use crate::detail::numbers_of;
use crate::detail::quoted_block;
use crate::detail::str_of_spec;
use crate::duration::seconds_of;
use crate::humanize::card_instant_text;
use crate::humanize::DetailV;
use crate::humanize::duration_text;
use crate::humanize::nearest;
use crate::humanize::nearest_is_near;
use crate::humanize::TimeFormat;
use crate::json::JsonV;
use crate::json_text::json_text;
use crate::present::closing_card;
use crate::present::member_or_null;
use crate::replies::fenced;
use crate::text::decimal;
use crate::text::digits;
use crate::text::joined;
use crate::view_laws::part_of_part;
use crate::view_laws::shows;
use crate::view_laws::shows_itself;
use crate::view_laws::text_in;
use crate::view_laws::told_in;
use crate::wrap::wrapped;
use vstd::prelude::*;

verus! {

broadcast use vstd::string::group_string_axioms;

/// The lines of the last row of a card under a label, if there is one.
pub open spec fn lines_under(rows: Seq<CardRowV>, label: Seq<char>) -> Option<Seq<Seq<char>>>
    decreases rows.len(),
{
    if rows.len() == 0 {
        None
    } else if rows.last().label == label {
        Some(rows.last().lines)
    } else {
        lines_under(rows.drop_last(), label)
    }
}

broadcast proof fn values_stand_under_their_label(
    rows: Seq<CardRowV>,
    l: Seq<char>,
    value: Option<Seq<char>>,
    label: Seq<char>,
)
    ensures
        #[trigger] lines_under(with_value(rows, l, value), label) == if l == label && value is Some {
            Some(wrapped(sanitized(value->0), 54, 54))
        } else {
            lines_under(rows, label)
        },
{
    if value is Some {
        let r = value_row(l, value->0);
        assert(rows.push(r).drop_last() =~= rows);
    }
}

broadcast proof fn lines_stand_under_their_label(
    rows: Seq<CardRowV>,
    l: Seq<char>,
    lines: Option<Seq<Seq<char>>>,
    label: Seq<char>,
)
    ensures
        #[trigger] lines_under(with_lines(rows, l, lines), label) == if l == label && lines is Some {
            lines
        } else {
            lines_under(rows, label)
        },
{
    if lines is Some {
        assert(rows.push(CardRowV { label: l, lines: lines->0 }).drop_last() =~= rows);
    }
}

proof fn labels_differ()
    ensures
        forall|i: int, j: int|
            0 <= i < j < 14 ==> #[trigger] card_labels()[i] != #[trigger] card_labels()[j],
{
    reveal_strlit("Status");
    reveal_strlit("Tags");
    reveal_strlit("Due");
    reveal_strlit("Scheduled");
    reveal_strlit("Wait");
    reveal_strlit("Repeats");
    reveal_strlit("Description");
    reveal_strlit("Blocked by");
    reveal_strlit("Depends on");
    reveal_strlit("Unblocks");
    reveal_strlit("Checks");
    reveal_strlit("Budget");
    reveal_strlit("Delivered");
    reveal_strlit("Notes");
    let v = card_labels();
    assert(v[0].len() == 6 && v[0][0] == 'S');
    assert(v[1].len() == 4 && v[1][0] == 'T');
    assert(v[2].len() == 3);
    assert(v[3].len() == 9 && v[3][0] == 'S');
    assert(v[4].len() == 4 && v[4][0] == 'W');
    assert(v[5].len() == 7);
    assert(v[6].len() == 11);
    assert(v[7].len() == 10 && v[7][0] == 'B');
    assert(v[8].len() == 10 && v[8][0] == 'D');
    assert(v[9].len() == 8);
    assert(v[10].len() == 6 && v[10][0] == 'C');
    assert(v[11].len() == 6 && v[11][0] == 'B');
    assert(v[12].len() == 9 && v[12][0] == 'D');
    assert(v[13].len() == 5);
    assert forall|i: int, j: int| 0 <= i < j < 14 implies #[trigger] v[i] != #[trigger] v[j] by {
        assert(i == 0 || i == 1 || i == 2 || i == 3 || i == 4 || i == 5 || i == 6 || i == 7 || i
            == 8 || i == 9 || i == 10 || i == 11 || i == 12);
    }
}

/// The labels a card can have, in the order of its rows.
pub open spec fn card_labels() -> Seq<Seq<char>> {
    seq![
        "Status"@,
        "Tags"@,
        "Due"@,
        "Scheduled"@,
        "Wait"@,
        "Repeats"@,
        "Description"@,
        "Blocked by"@,
        "Depends on"@,
        "Unblocks"@,
        "Checks"@,
        "Budget"@,
        "Delivered"@,
        "Notes"@,
    ]
}

/// A value as a card draws it: on lines as wide as its column.
pub open spec fn drawn(s: Seq<char>) -> Seq<Seq<char>> {
    wrapped(sanitized(s), 54, 54)
}

/// A card has a row for each date, rule and budget that the task has, and no
/// row for one that it does not have.
#[verifier::rlimit(60)]
pub proof fn cards_show_what_there_is(v: JsonV, named: Seq<JsonV>, o: DetailV)
    ensures
        ({
            let r = card_rows_spec(v, named, o);
            &&& lines_under(r, "Due"@) == if told_in(v, "due"@) {
                Some(drawn(card_instant_text(text_in(v, "due"@), o)))
            } else {
                None
            }
            &&& lines_under(r, "Scheduled"@) == if told_in(v, "scheduled"@) {
                Some(drawn(card_instant_text(text_in(v, "scheduled"@), o)))
            } else {
                None
            }
            &&& lines_under(r, "Wait"@) == if told_in(v, "wait"@) {
                Some(drawn(card_instant_text(text_in(v, "wait"@), o)))
            } else {
                None
            }
            &&& lines_under(r, "Repeats"@) == if told_in(v, "recurrence"@) {
                Some(drawn(text_in(v, "recurrence"@)))
            } else {
                None
            }
            &&& lines_under(r, "Tags"@) == if names_of(v, "tags"@).len() > 0 {
                Some(drawn(joined(names_of(v, "tags"@), ", "@)))
            } else {
                None
            }
        }),
{
    broadcast use {values_stand_under_their_label, lines_stand_under_their_label};

    labels_differ();
    let l = card_labels();
    assert(l[0] == "Status"@ && l[1] == "Tags"@ && l[2] == "Due"@ && l[3] == "Scheduled"@);
    assert(l[4] == "Wait"@ && l[5] == "Repeats"@ && l[6] == "Description"@ && l[7]
        == "Blocked by"@);
    assert(l[8] == "Depends on"@ && l[9] == "Unblocks"@ && l[10] == "Checks"@ && l[11]
        == "Budget"@);
    assert(l[12] == "Delivered"@ && l[13] == "Notes"@);
    assert(lines_under(Seq::<CardRowV>::empty(), "Due"@) is None);
}

/// A card says what blocks a task where something does, and otherwise, where it
/// depends on something, that all of it is done; never both. It says what came
/// of a task only where the task is done or cancelled, and shows the criteria
/// exactly where there are some.
#[verifier::rlimit(60)]
pub proof fn cards_say_where_a_task_stands(v: JsonV, named: Seq<JsonV>, o: DetailV)
    ensures
        ({
            let r = card_rows_spec(v, named, o);
            let unmet = array_of_spec(v, "unmet_blockers"@);
            let on = numbers_of(v, "depends_on"@);
            let closed = v.get("status"@) == Some(JsonV::Str("done"@)) || v.get("status"@) == Some(
                JsonV::Str("cancelled"@),
            );
            &&& lines_under(r, "Blocked by"@) is Some <==> unmet.len() > 0
            &&& lines_under(r, "Depends on"@) == if on.len() > 0 && unmet.len() == 0 {
                Some(drawn(joined(handles(on), ", "@) + " — all done"@))
            } else {
                None
            }
            &&& lines_under(r, "Delivered"@) is Some ==> closed
            &&& closed && v.get("delivered_annotation"@) is Some
                && v.get("delivered_annotation"@)->0 is Obj ==> lines_under(r, "Delivered"@) is Some
            &&& lines_under(r, "Checks"@) is Some <==> array_of_spec(v, "checks"@).len() > 0
            &&& lines_under(r, "Budget"@) is Some <==> v.integer("budget_tokens"@) is Some
        }),
{
    broadcast use {values_stand_under_their_label, lines_stand_under_their_label};

    labels_differ();
    reveal_strlit("done");
    reveal_strlit("cancelled");
    assert("done"@.len() == 4 && "cancelled"@.len() == 9);
    let l = card_labels();
    assert(l[0] == "Status"@ && l[1] == "Tags"@ && l[2] == "Due"@ && l[3] == "Scheduled"@);
    assert(l[4] == "Wait"@ && l[5] == "Repeats"@ && l[6] == "Description"@ && l[7]
        == "Blocked by"@);
    assert(l[8] == "Depends on"@ && l[9] == "Unblocks"@ && l[10] == "Checks"@ && l[11]
        == "Budget"@);
    assert(l[12] == "Delivered"@ && l[13] == "Notes"@);
    assert(lines_under(Seq::<CardRowV>::empty(), "Due"@) is None);
}

/// The criteria that passed are counted: all of them exactly where every one
/// passed, and none exactly where none did.
pub proof fn passed_criteria_are_counted(v: Seq<JsonV>, n: nat)
    requires
        n <= v.len(),
    ensures
        passed_in(v, n) <= n,
        passed_in(v, n) == n <==> forall|k: int|
            0 <= k < n ==> (#[trigger] v[k]).get("state"@) == Some(JsonV::Str("passed"@)),
        passed_in(v, n) == 0 <==> forall|k: int|
            0 <= k < n ==> (#[trigger] v[k]).get("state"@) != Some(JsonV::Str("passed"@)),
    decreases n,
{
    if n > 0 {
        let m = (n - 1) as nat;
        passed_criteria_are_counted(v, m);
        reveal_strlit("passed");
        assert("passed"@.len() == 6);
        let last = v[n - 1].get("state"@) == Some(JsonV::Str("passed"@));
        assert(str_of_spec(v[n - 1], "state"@) == "passed"@ <==> last);
        assert(passed_in(v, n) == passed_in(v, m) + if last {
            1nat
        } else {
            0nat
        });
        if forall|k: int|
            0 <= k < n ==> (#[trigger] v[k]).get("state"@) == Some(JsonV::Str("passed"@)) {
            assert(v[n - 1].get("state"@) == Some(JsonV::Str("passed"@)));
        }
        if forall|k: int|
            0 <= k < n ==> (#[trigger] v[k]).get("state"@) != Some(JsonV::Str("passed"@)) {
            assert(v[n - 1].get("state"@) != Some(JsonV::Str("passed"@)));
        }
    }
}

/// A bar of ten is filled in proportion, to the nearest tenth, but for its ends:
/// it is neither full before everything passed nor empty once something did.
pub proof fn bars_are_in_proportion(passed: nat, total: nat)
    requires
        passed <= total,
        0 < total,
    ensures
        ({
            let f = filled(passed, total) as int;
            let off = 10 * passed - f * total;
            &&& -(total as int) <= 2 * off <= total || f == 1 || f == 9
            &&& f == 1 ==> 2 * off <= total
            &&& f == 9 ==> -(total as int) <= 2 * off
        }),
{
    let n = nearest(passed as int * 10, total as int);
    let t = total as int;
    let p = passed as int * 10;
    nearest_is_near(p, t);
    let a = n * t;
    assert(n <= 10) by (nonlinear_arith)
        requires
            -t <= 2 * (p - n * t) <= t,
            p <= 10 * t,
            t > 0,
            n == nearest(p, t),
            p >= 0,
    ;
    assert(n == 0 ==> a == 0) by (nonlinear_arith)
        requires
            a == n * t,
    ;
    assert(1 * t == t && 9 * t == 10 * t - t) by (nonlinear_arith);
    assert(n == 10 ==> a == 10 * t) by (nonlinear_arith)
        requires
            a == n * t,
    ;
}

/// A text that is fitted to a width is the beginning of the text: all of it
/// where it fits, and otherwise the longest that does.
pub proof fn fitted_texts_are_beginnings(s: Seq<char>, max: nat, k: int)
    ensures
        fitted(s, max).len() <= s.len(),
        fitted(s, max) == s.take(fitted(s, max).len() as int),
        fitted(s, max).len() > 0 ==> str_cells(fitted(s, max)) <= max,
        str_cells(s) <= max ==> fitted(s, max) == s,
        fitted(s, max).len() < k <= s.len() ==> str_cells(s.take(k)) > max,
    decreases s.len(),
{
    if str_cells(s) <= max || s.len() == 0 {
        assert(s.take(s.len() as int) =~= s);
    } else {
        let d = s.drop_last();
        fitted_texts_are_beginnings(d, max, k);
        let n = fitted(s, max).len() as int;
        assert(d.take(n) =~= s.take(n));
        if n < k <= s.len() {
            if k < s.len() {
                assert(d.take(k) =~= s.take(k));
            } else {
                assert(s.take(k) =~= s);
            }
        }
    }
}

/// A text without control characters and without line breaks is drawn as it is.
pub proof fn plain_texts_are_drawn_as_they_are(s: Seq<char>)
    requires
        forall|k: int|
            0 <= k < s.len() ==> (#[trigger] s[k]) as u32 > 0x1f && !(0x7f <= s[k] as u32 <= 0x9f)
                && s[k] != '\u{2028}' && s[k] != '\u{2029}',
    ensures
        sanitized(s) == s,
    decreases s.len(),
{
    if s.len() > 0 {
        let d = s.drop_last();
        assert forall|k: int| 0 <= k < d.len() implies (#[trigger] d[k]) as u32 > 0x1f && !(0x7f
            <= d[k] as u32 <= 0x9f) && d[k] != '\u{2028}' && d[k] != '\u{2029}' by {
            assert(s[k] == d[k]);
        }
        plain_texts_are_drawn_as_they_are(d);
        assert(s[s.len() - 1] as u32 > 0x1f);
        assert(d.push(s.last()) =~= s);
    }
}

/// One neighbour of a task in a brief: its number, its title and its status.
pub open spec fn neighbour(n: int, title: Seq<char>, status: Seq<char>) -> Seq<char> {
    "- **#"@ + decimal(n) + "** "@ + title + " · "@ + status + "\n"@
}

proof fn prerequisites_are_listed(v: Seq<JsonV>, n: nat, i: int)
    requires
        0 <= i < n <= v.len(),
    ensures
        shows(prerequisites(v, n), prerequisite(v[i])),
    decreases n,
{
    broadcast use crate::view_laws::sums_show_their_parts;

    if i < n - 1 {
        prerequisites_are_listed(v, (n - 1) as nat, i);
    } else {
        shows_itself(prerequisite(v[i]));
    }
}

proof fn dependents_are_listed(v: Seq<JsonV>, n: nat, i: int)
    requires
        0 <= i < n <= v.len(),
    ensures
        shows(dependents(v, n), neighbour_line(v[i])),
    decreases n,
{
    broadcast use crate::view_laws::sums_show_their_parts;

    if i < n - 1 {
        dependents_are_listed(v, (n - 1) as nat, i);
    } else {
        shows_itself(neighbour_line(v[i]));
    }
}

/// A brief shows its task, everything that the task depends on, each with its
/// note where it has one, and everything that the task blocks.
#[verifier::rlimit(40)]
pub proof fn briefs_show_the_neighbours(
    v: JsonV,
    o: DetailV,
    task: JsonV,
    hood: JsonV,
    rows: Seq<JsonV>,
    i: int,
    n: int,
    title: Seq<char>,
    status: Seq<char>,
)
    requires
        v.get("task"@) == Some(task),
        v.get("neighbourhood"@) == Some(hood),
        0 <= i < rows.len(),
        rows[i].integer("short_id"@) == Some(n),
        rows[i].get("title"@) == Some(JsonV::Str(title)),
        rows[i].get("status"@) == Some(JsonV::Str(status)),
    ensures
        shows(brief_text(v, o), detail_text(task, o)),
        hood.get("depends_on"@) == Some(JsonV::Arr(rows)) ==> shows(
            brief_text(v, o),
            neighbour(n, title, status) + match rows[i].get("annotation"@) {
                Some(a) => if told_in(a, "body"@) {
                    quoted_block(text_in(a, "body"@))
                } else {
                    Seq::empty()
                },
                None => Seq::empty(),
            },
        ),
        hood.get("blocks"@) == Some(JsonV::Arr(rows)) ==> shows(
            brief_text(v, o),
            neighbour(n, title, status),
        ),
{
    broadcast use crate::view_laws::sums_show_their_parts;

    shows_itself(detail_text(task, o));
    let line = neighbour(n, title, status);
    assert(neighbour_line(rows[i]) == line);
    assert(line + Seq::<char>::empty() =~= line);
    if hood.get("depends_on"@) == Some(JsonV::Arr(rows)) {
        prerequisites_are_listed(rows, rows.len(), i);
        let one = prerequisite(rows[i]);
        let want = line + match rows[i].get("annotation"@) {
            Some(a) => if told_in(a, "body"@) {
                quoted_block(text_in(a, "body"@))
            } else {
                Seq::empty()
            },
            None => Seq::empty(),
        };
        shows_itself(want);
        shows_itself(line);
        if let Some(a) = rows[i].get("annotation"@) {
            if !told_in(a, "body"@) && !(a is Null) {
                assert(shows(one, line));
            }
        }
        assert(shows(one, want));
        part_of_part(prerequisites(rows, rows.len()), one, want);
        assert(shows(depends_section(v), want));
    }
    if hood.get("blocks"@) == Some(JsonV::Arr(rows)) {
        dependents_are_listed(rows, rows.len(), i);
        assert(shows(blocks_section(v), line));
    }
}

/// A brief says how many matches there are beyond those it shows exactly where
/// there are more, and says nothing of memory where nothing matched.
pub proof fn briefs_count_the_matches(v: JsonV, m: JsonV, hits: Seq<JsonV>, total: int)
    requires
        v.get("memory"@) == Some(m),
        m.get("hits"@) == Some(JsonV::Arr(hits)),
        m.integer("total"@) == Some(total),
    ensures
        hits.len() == 0 ==> memory_section(v).len() == 0,
        hits.len() > 0 && total > hits.len() ==> memory_section(v) == memory_groups(v) + "\n"@
            + digits(hits.len()) + " of "@ + decimal(total)
            + " matches shown — `tasqx_search_memory` reaches the rest.\n"@,
        hits.len() > 0 && total <= hits.len() ==> memory_section(v) == memory_groups(v),
{
}

/// The first line of a card says where a task stands, its priority, what it was
/// estimated at, what was spent on it unless that is nothing, and its project,
/// each where the task has it, in this order.
pub proof fn cards_sum_up_the_task(v: JsonV, status: Seq<char>)
    requires
        v.get("status"@) == Some(JsonV::Str(status)),
        status.len() > 0,
    ensures
        ({
            let p = status_parts(v);
            &&& p.len() > 0
            &&& p[0] == if v.get("status_unrecognized"@) == Some(JsonV::Bool(true)) {
                status + " (unrecognized)"@
            } else {
                status
            }
            &&& told_in(v, "priority"@) ==> p.len() > 1 && p[1] == text_in(v, "priority"@)
            &&& told_in(v, "estimate"@) ==> p.contains(
                "est "@ + duration_text(text_in(v, "estimate"@), TimeFormat::Relative),
            )
            &&& told_in(v, "tracked"@) && seconds_of(text_in(v, "tracked"@)) != Some(0int)
                ==> p.contains(
                "tracked "@ + duration_text(text_in(v, "tracked"@), TimeFormat::Relative),
            )
            &&& told_in(v, "project"@) ==> p.last() == "project "@ + text_in(v, "project"@)
            &&& p.len() == 1 + (if told_in(v, "priority"@) {
                1int
            } else {
                0int
            }) + (if told_in(v, "estimate"@) {
                1int
            } else {
                0int
            }) + (if told_in(v, "tracked"@) && seconds_of(text_in(v, "tracked"@)) != Some(0int) {
                1int
            } else {
                0int
            }) + (if told_in(v, "project"@) {
                1int
            } else {
                0int
            })
        }),
{
    let p = status_parts(v);
    let a = if told_in(v, "priority"@) {
        1int
    } else {
        0int
    };
    let b = if told_in(v, "estimate"@) {
        1int
    } else {
        0int
    };
    if told_in(v, "estimate"@) {
        assert(p[1 + a] == "est "@ + duration_text(text_in(v, "estimate"@), TimeFormat::Relative));
    }
    if told_in(v, "tracked"@) && seconds_of(text_in(v, "tracked"@)) != Some(0int) {
        assert(p[1 + a + b] == "tracked "@ + duration_text(
            text_in(v, "tracked"@),
            TimeFormat::Relative,
        ));
    }
}

/// A card describes a task by its first note: the one the result names, or the
/// first of a page that reaches back to it. A page that does not reach it says
/// so, and a task without notes has no description.
pub proof fn cards_describe_by_the_first_note(v: JsonV, page: Seq<JsonV>, total: int, offset: int)
    requires
        v.get("annotations"@) == Some(JsonV::Arr(page)),
        v.count("annotations_total"@) == Some(total),
        v.count("annotations_offset"@) == Some(offset),
    ensures
        v.get("first_annotation"@) matches Some(a) ==> (a is Obj ==> description_spec(v) == Some(
            quoted_note(a),
        )),
        v.get("first_annotation"@) is None && total > 0 && offset + page.len() >= total && page.len()
            > 0 ==> description_spec(v) == Some(quoted_note(page[0])),
        v.get("first_annotation"@) is None && total > 0 && offset + page.len() < total
            ==> description_spec(v) == Some(
            drawn_as_is("(first note not on this page — re-read with annotations_offset)"@),
        ),
        v.get("first_annotation"@) is None && total == 0 ==> description_spec(v) is None,
{
}

/// A text of the card's own, on lines as wide as its column.
pub open spec fn drawn_as_is(s: Seq<char>) -> Seq<Seq<char>> {
    wrapped(s, 54, 54)
}

/// A card counts the notes of a task, and those that were removed; it dates the
/// newest only on the page that holds it, which is the first.
pub proof fn cards_count_the_notes(
    v: JsonV,
    o: DetailV,
    page: Seq<JsonV>,
    total: int,
    offset: int,
)
    requires
        v.get("annotations"@) == Some(JsonV::Arr(page)),
        v.count("annotations_total"@) == Some(total),
        v.count("annotations_offset"@) == Some(offset),
    ensures
        ({
            let removed = array_of_spec(v, "annotations_removed"@).len();
            let dated = offset == 0 && page.len() > 0 && told_in(page.last(), "created"@);
            &&& notes_text(v, o) is None <==> total == 0 && removed == 0
            &&& notes_text(v, o) matches Some(s) ==> s == decimal(total) + " annotation"@ + (
            if total == 1 {
                Seq::empty()
            } else {
                "s"@
            }) + (if dated {
                ", newest "@ + card_instant_text(text_in(page.last(), "created"@), o)
            } else {
                Seq::empty()
            }) + (if removed > 0 {
                ", "@ + digits(removed) + " removed"@
            } else {
                Seq::empty()
            })
        }),
{
    if let Some(s) = notes_text(v, o) {
        let removed = array_of_spec(v, "annotations_removed"@).len();
        let dated = offset == 0 && page.len() > 0 && told_in(page.last(), "created"@);
        let want = decimal(total) + " annotation"@ + (if total == 1 {
            Seq::empty()
        } else {
            "s"@
        }) + (if dated {
            ", newest "@ + card_instant_text(text_in(page.last(), "created"@), o)
        } else {
            Seq::empty()
        }) + (if removed > 0 {
            ", "@ + digits(removed) + " removed"@
        } else {
            Seq::empty()
        });
        assert(s =~= want);
    }
}

/// What came of a closed task is its delivery note where the result names one,
/// and otherwise the newest note of the page.
pub proof fn cards_deliver_by_the_last_note(v: JsonV, page: Seq<JsonV>)
    requires
        v.get("annotations"@) == Some(JsonV::Arr(page)),
        v.get("status"@) == Some(JsonV::Str("done"@)) || v.get("status"@) == Some(
            JsonV::Str("cancelled"@),
        ),
    ensures
        v.get("delivered_annotation"@) matches Some(a) ==> (a is Obj ==> delivered(v) == Some(
            quoted_note(a),
        )),
        v.get("delivered_annotation"@) is None && page.len() > 0 ==> delivered(v) == Some(
            quoted_note(page[page.len() - 1]),
        ),
        v.get("delivered_annotation"@) is None && page.len() == 0 ==> delivered(v) is None,
{
}

/// A spent budget is told as what was spent against what was set, and as over
/// exactly where the result says so.
pub proof fn budgets_are_told(v: JsonV, spent: int, budget: int)
    requires
        v.integer("fresh_tokens"@) == Some(spent),
    ensures
        budget_text(v, budget) == decimal(spent) + " / "@ + decimal(budget) + " fresh tokens"@ + (
        if v.get("over"@) == Some(JsonV::Bool(true)) {
            " — over"@
        } else {
            Seq::empty()
        }),
{
    let head = decimal(spent) + " / "@ + decimal(budget) + " fresh tokens"@;
    assert(head + Seq::<char>::empty() =~= head);
}

/// A completed task's closing card is the card of the task as it was read back,
/// where the card and the result fit together; where they do not, a line says
/// by which number to draw it. A task that was not read back has no card.
pub proof fn closing_cards_fit(result: JsonV, t: JsonV, n: int, o: DetailV)
    requires
        result.get("short_id"@) == Some(JsonV::Int(n)),
    ensures
        ({
            let card = fenced(card_text(t, o, Borders::Unicode));
            let fit = byte_len(card) + byte_len(json_text(result)) <= 24_576;
            let alone = byte_len(json_text(result)) <= 24_576;
            &&& fit ==> closing_card(result, Some(t), o) == card
            &&& !fit ==> shows(closing_card(result, Some(t), o), json_text(JsonV::Int(n)))
            &&& alone ==> closing_card(result, None, o).len() == 0
        }),
{
    broadcast use crate::view_laws::sums_show_their_parts;

    shows_itself(json_text(JsonV::Int(n)));
    assert(member_or_null(result, "short_id"@) == JsonV::Int(n));
    assert(byte_len(Seq::<char>::empty()) == 0);
}

} // verus!
