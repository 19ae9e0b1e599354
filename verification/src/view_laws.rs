//! What a rendered task shows.

use crate::detail::annotations_text;
use crate::detail::blocked_row;
use crate::detail::budget_row;
use crate::detail::byte_len;
use crate::detail::check_text;
use crate::detail::check_texts;
use crate::detail::checks_text;
use crate::detail::cut_note;
use crate::detail::detail_text;
use crate::detail::duration_row;
use crate::detail::handles;
use crate::detail::handles_row;
use crate::detail::instant_row;
use crate::detail::names_of;
use crate::detail::newer_than_page;
use crate::detail::note_list;
use crate::detail::note_text;
use crate::detail::numbers_of;
use crate::detail::older_than_page;
use crate::detail::page_heading;
use crate::detail::page_note;
use crate::detail::recurrence_row;
use crate::detail::row_text;
use crate::detail::status_cell_spec;
use crate::detail::table_text;
use crate::detail::tags_row;
use crate::detail::tokens_text;
use crate::humanize::DetailV;
use crate::humanize::duration_text;
use crate::humanize::instant_text;
use crate::json::JsonV;
use crate::text::decimal;
use crate::text::digits;
use crate::text::joined;
use vstd::prelude::*;

verus! {

broadcast use vstd::string::group_string_axioms;

/// Whether a text shows a part of text somewhere.
pub open spec fn shows(text: Seq<char>, part: Seq<char>) -> bool {
    exists|a: Seq<char>, b: Seq<char>| text == #[trigger] (a + part + b)
}

/// A text shows itself.
pub proof fn shows_itself(p: Seq<char>)
    ensures
        shows(p, p),
{
    assert(p =~= Seq::<char>::empty() + p + Seq::<char>::empty());
}

/// What a part shows, the whole shows.
pub broadcast proof fn sums_show_their_parts(a: Seq<char>, b: Seq<char>, p: Seq<char>)
    ensures
        (shows(a, p) || shows(b, p)) ==> #[trigger] shows(a + b, p),
{
    if shows(a, p) {
        let (x, y) = choose|x: Seq<char>, y: Seq<char>| a == #[trigger] (x + p + y);
        assert(a + b =~= x + p + (y + b));
    } else if shows(b, p) {
        let (x, y) = choose|x: Seq<char>, y: Seq<char>| b == #[trigger] (x + p + y);
        assert(a + b =~= (a + x) + p + y);
    }
}

/// A row of a task's table: a label and a value.
pub open spec fn labelled(label: Seq<char>, value: Seq<char>) -> Seq<char> {
    "| "@ + label + " | "@ + value + " |\n"@
}

/// Whether a field holds a text that is not empty.
pub open spec fn told_in(v: JsonV, key: Seq<char>) -> bool {
    v.get(key) matches Some(JsonV::Str(s)) && s.len() > 0
}

/// The text a field holds.
pub open spec fn text_in(v: JsonV, key: Seq<char>) -> Seq<char> {
    v.get(key)->0->Str_0
}

/// The table of a task shows its dates that are there, each under its own
/// label, as the view writes dates.
#[verifier::rlimit(60)]
pub proof fn tables_show_the_dates(v: JsonV, o: DetailV)
    ensures
        ({
            let t = table_text(v, o);
            &&& told_in(v, "due"@) ==> shows(
                t,
                labelled("due"@, instant_text(text_in(v, "due"@), o)),
            )
            &&& told_in(v, "scheduled"@) ==> shows(
                t,
                labelled("scheduled"@, instant_text(text_in(v, "scheduled"@), o)),
            )
            &&& told_in(v, "wait"@) ==> shows(
                t,
                labelled("wait"@, instant_text(text_in(v, "wait"@), o)),
            )
            &&& told_in(v, "remind"@) ==> shows(
                t,
                labelled("remind"@, instant_text(text_in(v, "remind"@), o)),
            )
            &&& told_in(v, "active_since"@) ==> shows(
                t,
                labelled("active since"@, instant_text(text_in(v, "active_since"@), o)),
            )
            &&& told_in(v, "completed"@) ==> shows(
                t,
                labelled("completed"@, instant_text(text_in(v, "completed"@), o)),
            )
            &&& told_in(v, "created"@) ==> shows(
                t,
                labelled("created"@, instant_text(text_in(v, "created"@), o)),
            )
            &&& told_in(v, "modified"@) ==> shows(
                t,
                labelled("modified"@, instant_text(text_in(v, "modified"@), o)),
            )
            &&& told_in(v, "estimate"@) ==> shows(
                t,
                labelled("estimate"@, duration_text(text_in(v, "estimate"@), o.time)),
            )
            &&& told_in(v, "tracked"@) ==> shows(
                t,
                labelled("tracked"@, duration_text(text_in(v, "tracked"@), o.time)),
            )
        }),
{
    broadcast use sums_show_their_parts;

    shows_itself(instant_row(v, "due"@, "due"@, o));
    shows_itself(instant_row(v, "scheduled"@, "scheduled"@, o));
    shows_itself(instant_row(v, "wait"@, "wait"@, o));
    shows_itself(instant_row(v, "remind"@, "remind"@, o));
    shows_itself(instant_row(v, "active_since"@, "active since"@, o));
    shows_itself(instant_row(v, "completed"@, "completed"@, o));
    shows_itself(row_text("created"@, instant_text(text_in(v, "created"@), o)));
    shows_itself(row_text("modified"@, instant_text(text_in(v, "modified"@), o)));
    shows_itself(duration_row(v, "estimate"@, "estimate"@, o));
    shows_itself(duration_row(v, "tracked"@, "tracked"@, o));
}

/// Whether some part of a table is there only where its field is: the row of a
/// date, a duration, a flag, a list or a budget that the task does not have
/// takes no space.
pub proof fn absent_fields_take_no_space(v: JsonV, key: Seq<char>, label: Seq<char>, o: DetailV)
    ensures
        !told_in(v, key) ==> instant_row(v, key, label, o).len() == 0 && duration_row(
            v,
            key,
            label,
            o,
        ).len() == 0,
        v.get("blocked"@) != Some(JsonV::Bool(true)) ==> blocked_row(v).len() == 0,
        !told_in(v, "recurrence"@) ==> recurrence_row(v).len() == 0,
        v.get("tags"@) is None || v.get("tags"@) == Some(JsonV::Arr(Seq::empty())) ==> tags_row(
            v,
        ).len() == 0,
        v.get(key) is None || v.get(key) == Some(JsonV::Arr(Seq::empty())) ==> handles_row(
            v,
            key,
            label,
        ).len() == 0,
        v.get("budget_tokens"@) is None ==> budget_row(v).len() == 0,
        v.get("checks"@) is None ==> checks_text(v).len() == 0,
        v.get("tokens"@) is None ==> tokens_text(v).len() == 0,
{
}

/// The table of a task opens with its number and its title, and shows its
/// status, its project, its revision, that it is blocked where it is, its rule
/// of recurrence, its tags, what it depends on and what it blocks.
#[verifier::rlimit(60)]
pub proof fn tables_show_the_task(
    v: JsonV,
    o: DetailV,
    n: int,
    title: Seq<char>,
    status: Seq<char>,
    rev: int,
)
    requires
        v.get("short_id"@) == Some(JsonV::Int(n)),
        i64::MIN <= n <= i64::MAX,
        v.get("title"@) == Some(JsonV::Str(title)),
        v.get("status"@) == Some(JsonV::Str(status)),
        v.get("_rev"@) == Some(JsonV::Int(rev)),
        i64::MIN <= rev <= i64::MAX,
    ensures
        ({
            let t = table_text(v, o);
            &&& shows(t, "## #"@ + decimal(n) + " · "@ + title + "\n\n"@)
            &&& v.get("status_unrecognized"@) != Some(JsonV::Bool(true)) ==> shows(
                t,
                labelled("status"@, status),
            )
            &&& shows(t, labelled("rev"@, decimal(rev)))
            &&& told_in(v, "project"@) ==> shows(
                t,
                labelled("project"@, text_in(v, "project"@)),
            )
            &&& v.get("blocked"@) == Some(JsonV::Bool(true)) ==> shows(
                t,
                labelled("blocked"@, "yes"@),
            )
            &&& told_in(v, "recurrence"@) ==> shows(
                t,
                labelled("recurrence"@, text_in(v, "recurrence"@)),
            )
            &&& names_of(v, "tags"@).len() > 0 ==> shows(
                t,
                labelled("tags"@, joined(names_of(v, "tags"@), ", "@)),
            )
            &&& numbers_of(v, "depends_on"@).len() > 0 ==> shows(
                t,
                labelled("depends on"@, joined(handles(numbers_of(v, "depends_on"@)), ", "@)),
            )
            &&& numbers_of(v, "blocks"@).len() > 0 ==> shows(
                t,
                labelled("blocks"@, joined(handles(numbers_of(v, "blocks"@)), ", "@)),
            )
        }),
{
    broadcast use sums_show_their_parts;

    shows_itself("## #"@ + decimal(n) + " · "@ + title + "\n\n"@);
    shows_itself(row_text("status"@, status_cell_spec(v)));
    shows_itself(row_text("rev"@, decimal(rev)));
    shows_itself(row_text("project"@, text_in(v, "project"@)));
    shows_itself(blocked_row(v));
    shows_itself(recurrence_row(v));
    shows_itself(tags_row(v));
    shows_itself(handles_row(v, "depends_on"@, "depends on"@));
    shows_itself(handles_row(v, "blocks"@, "blocks"@));
}

/// The mark of a criterion, by its state.
pub open spec fn marked(state: Seq<char>) -> Seq<char> {
    if state == "passed"@ {
        "x"@
    } else if state == "failed"@ {
        "!"@
    } else {
        " "@
    }
}

proof fn criteria_are_listed(v: Seq<JsonV>, n: nat, i: int)
    requires
        0 <= i < n <= v.len(),
    ensures
        shows(check_texts(v, n), check_text(v[i])),
    decreases n,
{
    broadcast use sums_show_their_parts;

    if i < n - 1 {
        criteria_are_listed(v, (n - 1) as nat, i);
    } else {
        shows_itself(check_text(v[i]));
    }
}

/// A task's view shows every criterion with its mark and its words, under a
/// heading that counts them.
#[verifier::rlimit(40)]
pub proof fn views_show_every_criterion(
    v: JsonV,
    o: DetailV,
    rows: Seq<JsonV>,
    i: int,
    body: Seq<char>,
    state: Seq<char>,
)
    requires
        v.get("checks"@) == Some(JsonV::Arr(rows)),
        0 <= i < rows.len(),
        rows[i].get("body"@) == Some(JsonV::Str(body)),
        rows[i].get("state"@) == Some(JsonV::Str(state)),
    ensures
        shows(detail_text(v, o), "- ["@ + marked(state) + "] "@ + body + "\n"@),
        shows(detail_text(v, o), "\n### Acceptance ("@ + digits(rows.len()) + ")\n\n"@),
{
    broadcast use sums_show_their_parts;

    criteria_are_listed(rows, rows.len(), i);
    let line = "- ["@ + marked(state) + "] "@ + body + "\n"@;
    shows_itself(line);
    assert(shows(check_text(rows[i]), line));
    part_of_part(check_texts(rows, rows.len()), check_text(rows[i]), line);
    assert(shows(checks_text(v), line));
    let head = "\n### Acceptance ("@ + digits(rows.len()) + ")\n\n"@;
    shows_itself(head);
    assert(shows(checks_text(v), head));
}

/// What is shown by a part that is shown is shown.
pub proof fn part_of_part(text: Seq<char>, mid: Seq<char>, p: Seq<char>)
    requires
        shows(text, mid),
        shows(mid, p),
    ensures
        shows(text, p),
{
    let (a, b) = choose|a: Seq<char>, b: Seq<char>| text == #[trigger] (a + mid + b);
    let (x, y) = choose|x: Seq<char>, y: Seq<char>| mid == #[trigger] (x + p + y);
    assert(text =~= (a + x) + p + (y + b));
}

proof fn notes_are_listed(v: Seq<JsonV>, offset: int, o: DetailV, n: nat, i: int)
    requires
        0 <= i < n <= v.len(),
    ensures
        shows(
            note_list(v, offset, o, n),
            note_text(v[i], offset + (v.len() - (i + 1)), o),
        ),
    decreases n,
{
    broadcast use sums_show_their_parts;

    if i < n - 1 {
        notes_are_listed(v, offset, o, (n - 1) as nat, i);
    } else {
        shows_itself(note_text(v[i], offset + (v.len() - (i + 1)), o));
    }
}

/// The whole page of notes: how many there are, and from where.
pub open spec fn page_of_notes(v: JsonV, rows: Seq<JsonV>, total: int, offset: int) -> bool {
    &&& v.get("annotations"@) == Some(JsonV::Arr(rows))
    &&& rows.len() > 0
    &&& v.count("annotations_total"@) == Some(total)
    &&& v.count("annotations_offset"@) == Some(offset)
}

/// A task's view shows every note of the page, when it was written and what it
/// says. One that was cut says how long it is, and how to read it whole: at its
/// own place, counted from the newest, which is the last of the page.
#[verifier::rlimit(40)]
pub proof fn views_show_every_note(
    v: JsonV,
    o: DetailV,
    rows: Seq<JsonV>,
    total: int,
    offset: int,
    i: int,
    body: Seq<char>,
    created: Seq<char>,
    bytes: int,
)
    requires
        page_of_notes(v, rows, total, offset),
        0 <= i < rows.len(),
        rows[i].get("body"@) == Some(JsonV::Str(body)),
        rows[i].get("created"@) == Some(JsonV::Str(created)),
        rows[i].count("body_bytes"@) == Some(bytes),
    ensures
        shows(detail_text(v, o), "---\n**"@ + instant_text(created, o) + "**\n\n"@ + body),
        rows[i].get("body_truncated"@) == Some(JsonV::Bool(true)) ==> shows(
            detail_text(v, o),
            "\n_(truncated: "@ + decimal(bytes) + " bytes, "@ + decimal(byte_len(body) as int)
                + " shown — read it whole with `annotations_offset: "@ + decimal(
                offset + (rows.len() - 1 - i),
            ) + "`, `annotations_limit: 1`, `max_body_bytes: "@ + decimal(bytes) + "`)_\n"@,
        ),
{
    broadcast use sums_show_their_parts;

    let here = offset + (rows.len() - (i + 1));
    notes_are_listed(rows, offset, o, rows.len(), i);
    let one = note_text(rows[i], here, o);
    let head = "---\n**"@ + instant_text(created, o) + "**\n\n"@ + body;
    shows_itself(head);
    assert(shows(one, head));
    part_of_part(note_list(rows, offset, o, rows.len()), one, head);
    assert(shows(annotations_text(v, o), head));
    if rows[i].get("body_truncated"@) == Some(JsonV::Bool(true)) {
        let cut = cut_note(rows[i], here);
        shows_itself(cut);
        assert(shows(one, cut));
        part_of_part(note_list(rows, offset, o, rows.len()), one, cut);
        assert(shows(annotations_text(v, o), cut));
    }
}

/// The heading of a page of notes tells how much of the history it holds: the
/// notes on it, those newer than it and those older than it are all there are,
/// and only a page that holds them all says one number.
#[verifier::rlimit(40)]
pub proof fn pages_count_the_history(
    v: JsonV,
    o: DetailV,
    rows: Seq<JsonV>,
    total: int,
    offset: int,
)
    requires
        page_of_notes(v, rows, total, offset),
        offset + rows.len() <= total,
    ensures
        ({
            let t = detail_text(v, o);
            let n = rows.len() as int;
            let older = total - offset - n;
            &&& newer_than_page(v) + n + older_than_page(v) == total
            &&& newer_than_page(v) == offset
            &&& n == total ==> shows(t, "\n### Annotations ("@ + decimal(n) + ")\n\n"@)
            &&& n < total ==> shows(
                t,
                "\n### Annotations ("@ + decimal(n) + " of "@ + decimal(total) + ")\n\n"@,
            )
            &&& n < total && offset == 0 ==> shows(
                t,
                "_Showing the "@ + decimal(n) + " most recent, oldest first."@,
            )
            &&& offset > 0 ==> shows(
                t,
                "_Showing "@ + decimal(n) + ", oldest first, after the "@ + decimal(offset)
                    + " most recent."@,
            )
            &&& older > 0 ==> shows(t, " "@ + decimal(older) + " older elided"@)
            &&& older > 0 && v.count("annotations_next_offset"@) is Some ==> shows(
                t,
                decimal(v.count("annotations_next_offset"@)->0) + "` for the next page."@,
            )
        }),
{
    broadcast use sums_show_their_parts;

    let n = rows.len() as int;
    let older = total - offset - n;
    let whole = "\n### Annotations ("@ + decimal(n) + ")\n\n"@;
    let part = "\n### Annotations ("@ + decimal(n) + " of "@ + decimal(total) + ")\n\n"@;
    shows_itself(whole);
    shows_itself(part);
    let recent = "_Showing the "@ + decimal(n) + " most recent, oldest first."@;
    let after = "_Showing "@ + decimal(n) + ", oldest first, after the "@ + decimal(offset)
        + " most recent."@;
    shows_itself(recent);
    shows_itself(after);
    let elided = " "@ + decimal(older) + " older elided"@;
    shows_itself(elided);
    let head = if offset == 0 {
        recent
    } else {
        after
    };
    assert(shows(page_heading(v), if n == total {
        whole
    } else {
        part
    }));
    if n < total {
        assert(shows(page_note(v), head));
        assert(shows(page_heading(v), head));
        if older > 0 {
            let said = head + " "@ + decimal(older) + " older elided"@;
            assert(said =~= head + elided);
            assert(shows(said, elided));
            assert(shows(page_note(v), elided));
            assert(shows(page_heading(v), elided));
            if let Some(m) = v.count("annotations_next_offset"@) {
                let next = decimal(m) + "` for the next page."@;
                shows_itself(next);
                let lead = said
                    + " — re-read this \
                    task with `annotations_offset: "@;
                assert(lead + decimal(m) + "` for the next page."@ =~= lead + next);
                assert(shows(lead + next, next));
                assert(shows(page_note(v), next));
                assert(shows(page_heading(v), next));
            }
        }
    }
}

} // verus!
