//! One task, one text: the detail view and the brief.
//!
//! Everything is read tolerantly: a missing or mistyped field costs its row
//! and nothing more. No clock is read here, so the same task gives the same
//! text to every caller.

use crate::expr::opt_str_view;
use crate::humanize::DetailOpts;
use crate::humanize::DetailV;
use crate::humanize::duration_text;
use crate::humanize::fmt_duration;
use crate::humanize::fmt_instant;
use crate::humanize::instant_text;
use crate::json::Json;
use crate::json::JsonV;
use crate::json_text::number_text;
use crate::json_text::shown_number;
use crate::text::decimal;
use crate::text::decimal_text;
use crate::text::digits;
use crate::text::join;
use crate::text::joined;
use crate::text::lines;
use crate::text::lines_of;
use crate::text::push_decimal;
use crate::text::push_digits;
use crate::text::push_integer;
use crate::text::same;
use crate::text::strs;
use crate::text::texts;
use crate::types::Status;
use crate::types::statuses_accepted;
use crate::value::opt_view;
use crate::value::values;
use vstd::prelude::*;

verus! {

broadcast use {
    vstd::string::group_string_axioms,
    crate::value::group_json,
    crate::text::texts_push,
};

/// A text field, or nothing.
pub open spec fn str_of_spec(v: JsonV, key: Seq<char>) -> Seq<char> {
    match v.text(key) {
        Some(s) => s,
        None => Seq::empty(),
    }
}

/// A text field, or nothing.
pub fn str_of(v: &Json, key: &str) -> (r: String)
    ensures
        r@ == str_of_spec(v@, key@),
{
    match v.text(key) {
        Some(s) => s.to_owned(),
        None => String::new(),
    }
}

/// An integer field, or 0.
pub open spec fn int_of_spec(v: JsonV, key: Seq<char>) -> int {
    match v.integer(key) {
        Some(n) => n,
        None => 0,
    }
}

/// An integer field, or 0.
pub fn int_of(v: &Json, key: &str) -> (r: i64)
    ensures
        r == int_of_spec(v@, key@),
{
    match v.integer(key) {
        Some(n) => n,
        None => 0,
    }
}

/// An array field, or an empty one.
pub open spec fn array_of_spec(v: JsonV, key: Seq<char>) -> Seq<JsonV> {
    match v.list(key) {
        Some(a) => a,
        None => Seq::empty(),
    }
}

/// Whether a field is true.
pub open spec fn is_true(v: JsonV, key: Seq<char>) -> bool {
    v.truth(key) == Some(true)
}

/// Whether a field is true.
pub fn holds_true(v: &Json, key: &str) -> (r: bool)
    ensures
        r == is_true(v@, key@),
{
    match v.truth(key) {
        Some(b) => b,
        None => false,
    }
}

/// One row of a table.
pub open spec fn row_text(label: Seq<char>, value: Seq<char>) -> Seq<char> {
    "| "@ + label + " | "@ + value + " |\n"@
}

/// One row of a table.
fn row(label: &str, value: &str) -> (r: String)
    ensures
        r@ == row_text(label@, value@),
{
    let mut r: String = "| ".to_owned();
    r.append(label);
    r.append(" | ");
    r.append(value);
    r.append(" |\n");
    r
}

/// A row for an instant, where there is one.
pub open spec fn instant_row(v: JsonV, key: Seq<char>, label: Seq<char>, o: DetailV) -> Seq<char> {
    match v.text(key) {
        Some(s) => if s.len() > 0 {
            row_text(label, instant_text(s, o))
        } else {
            Seq::empty()
        },
        None => Seq::empty(),
    }
}

/// A row for an instant, where there is one.
fn opt_instant(v: &Json, key: &str, label: &str, opts: &DetailOpts) -> (r: String)
    ensures
        r@ == instant_row(v@, key@, label@, opts@),
{
    match v.text(key) {
        Some(s) => if !s.is_empty() {
            row(label, fmt_instant(s, opts).as_str())
        } else {
            String::new()
        },
        None => String::new(),
    }
}

/// A row for a duration, where there is one.
pub open spec fn duration_row(v: JsonV, key: Seq<char>, label: Seq<char>, o: DetailV) -> Seq<char> {
    match v.text(key) {
        Some(s) => if s.len() > 0 {
            row_text(label, duration_text(s, o.time))
        } else {
            Seq::empty()
        },
        None => Seq::empty(),
    }
}

/// A row for a duration, where there is one.
fn opt_duration(v: &Json, key: &str, label: &str, opts: &DetailOpts) -> (r: String)
    ensures
        r@ == duration_row(v@, key@, label@, opts@),
{
    match v.text(key) {
        Some(s) => if !s.is_empty() {
            row(label, fmt_duration(s, opts).as_str())
        } else {
            String::new()
        },
        None => String::new(),
    }
}

/// The texts among the first `n` values of an array.
pub open spec fn names_in(v: Seq<JsonV>, n: nat) -> Seq<Seq<char>>
    decreases n,
{
    if n == 0 || n > v.len() {
        Seq::empty()
    } else {
        match v[n - 1] {
            JsonV::Str(s) => names_in(v, (n - 1) as nat).push(s),
            _ => names_in(v, (n - 1) as nat),
        }
    }
}

/// The texts of an array field.
pub open spec fn names_of(v: JsonV, key: Seq<char>) -> Seq<Seq<char>> {
    names_in(array_of_spec(v, key), array_of_spec(v, key).len())
}

/// The texts of an array field.
pub fn names(v: &Json, key: &str) -> (r: Vec<String>)
    ensures
        texts(r@) == names_of(v@, key@),
{
    let mut out: Vec<String> = Vec::new();
    assert(texts(out@) =~= Seq::empty());
    if let Some(a) = v.list(key) {
        let mut i: usize = 0;
        while i < a.len()
            invariant
                i <= a@.len(),
                texts(out@) == names_in(values(a@), i as nat),
            decreases a@.len() - i,
        {
            assert(values(a@)[i as int] == a@[i as int]@);
            if let Some(s) = a[i].as_str() {
                out.push(s.to_owned());
            }
            i += 1;
        }
    }
    out
}

/// The integers among the first `n` values of an array.
pub open spec fn numbers_in(v: Seq<JsonV>, n: nat) -> Seq<int>
    decreases n,
{
    if n == 0 || n > v.len() {
        Seq::empty()
    } else {
        match v[n - 1].as_int() {
            Some(k) => numbers_in(v, (n - 1) as nat).push(k),
            None => numbers_in(v, (n - 1) as nat),
        }
    }
}

/// The integers of an array field.
pub open spec fn numbers_of(v: JsonV, key: Seq<char>) -> Seq<int> {
    numbers_in(array_of_spec(v, key), array_of_spec(v, key).len())
}

/// What a list of integers says.
pub open spec fn ints(v: Seq<i64>) -> Seq<int> {
    v.map_values(|n: i64| n as int)
}

/// The integers of an array field.
pub fn short_ids(v: &Json, key: &str) -> (r: Vec<i64>)
    ensures
        ints(r@) == numbers_of(v@, key@),
{
    let mut out: Vec<i64> = Vec::new();
    assert(ints(out@) =~= Seq::empty());
    if let Some(a) = v.list(key) {
        let mut i: usize = 0;
        while i < a.len()
            invariant
                i <= a@.len(),
                ints(out@) == numbers_in(values(a@), i as nat),
            decreases a@.len() - i,
        {
            assert(values(a@)[i as int] == a@[i as int]@);
            if let Some(n) = a[i].as_i64() {
                let ghost was = ints(out@);
                out.push(n);
                assert(ints(out@) =~= was.push(n as int));
            }
            i += 1;
        }
    }
    out
}

/// Numbers as handles: `#1`, `#2`.
pub open spec fn handles(v: Seq<int>) -> Seq<Seq<char>> {
    v.map_values(|n: int| "#"@ + decimal(n))
}

/// Numbers as handles, joined by a comma: `#1, #2`.
pub fn handle_list(v: &Vec<i64>) -> (r: String)
    ensures
        r@ == joined(handles(ints(v@)), ", "@),
{
    let mut out: Vec<String> = Vec::new();
    let mut i: usize = 0;
    assert(texts(out@) =~= Seq::empty());
    while i < v.len()
        invariant
            i <= v@.len(),
            texts(out@) =~= handles(ints(v@)).take(i as int),
        decreases v@.len() - i,
    {
        let mut one: String = "#".to_owned();
        push_decimal(&mut one, v[i]);
        out.push(one);
        i += 1;
    }
    assert(texts(out@) =~= handles(ints(v@)));
    join(&out, ", ")
}

/// A row of handles, where there are some.
pub open spec fn handles_row(v: JsonV, key: Seq<char>, label: Seq<char>) -> Seq<char> {
    let n = numbers_of(v, key);
    if n.len() > 0 {
        row_text(label, joined(handles(n), ", "@))
    } else {
        Seq::empty()
    }
}

fn opt_handles(v: &Json, key: &str, label: &str) -> (r: String)
    ensures
        r@ == handles_row(v@, key@, label@),
{
    let ids: Vec<i64> = short_ids(v, key);
    assert(ints(ids@).len() == ids@.len());
    if ids.len() > 0 {
        row(label, handle_list(&ids).as_str())
    } else {
        String::new()
    }
}

/// The status, with a warning where it is not known.
pub open spec fn status_cell_spec(v: JsonV) -> Seq<char> {
    if is_true(v, "status_unrecognized"@) {
        str_of_spec(v, "status"@) + " (unrecognized — not one of "@ + statuses_accepted() + ")"@
    } else {
        str_of_spec(v, "status"@)
    }
}

fn status_cell(v: &Json) -> (r: String)
    ensures
        r@ == status_cell_spec(v@),
{
    let mut r: String = str_of(v, "status");
    if holds_true(v, "status_unrecognized") {
        r.append(" (unrecognized — not one of ");
        r.append(Status::accepted());
        r.append(")");
    }
    r
}

/// A priority, with the urgency beside it where it is shown.
pub open spec fn priority_text(priority: Option<Seq<char>>, shown: Option<Seq<char>>) -> Seq<char> {
    let p = match priority {
        Some(s) => s,
        None => "-"@,
    };
    match shown {
        Some(u) => p + " (urgency "@ + u + ")"@,
        None => p,
    }
}

/// A priority, with the urgency beside it where it is shown.
pub fn priority_words(priority: Option<&str>, shown: &Option<String>) -> (r: String)
    ensures
        r@ == priority_text(opt_str_view(priority), opt_view(*shown)),
{
    let mut r: String = match priority {
        Some(s) => s.to_owned(),
        None => "-".to_owned(),
    };
    match shown {
        Some(u) => {
            r.append(" (urgency ");
            r.append(u.as_str());
            r.append(")");
        },
        None => {},
    }
    r
}

/// The priority of a task, with the urgency beside it where it is a number.
pub open spec fn priority_cell_spec(v: JsonV) -> Seq<char> {
    priority_text(
        v.text("priority"@),
        match v.get("urgency"@) {
            Some(u) => shown_number(u),
            None => None,
        },
    )
}

fn priority_cell(v: &Json) -> (r: String)
    ensures
        r@ == priority_cell_spec(v@),
{
    let shown: Option<String> = match v.get("urgency") {
        Some(u) => number_text(u),
        None => None,
    };
    priority_words(v.text("priority"), &shown)
}

/// The tags, where there are some.
pub open spec fn tags_row(v: JsonV) -> Seq<char> {
    let n = names_of(v, "tags"@);
    if n.len() > 0 {
        row_text("tags"@, joined(n, ", "@))
    } else {
        Seq::empty()
    }
}

fn opt_tags(v: &Json) -> (r: String)
    ensures
        r@ == tags_row(v@),
{
    let n: Vec<String> = names(v, "tags");
    assert(texts(n@).len() == n@.len());
    if n.len() > 0 {
        row("tags", join(&n, ", ").as_str())
    } else {
        String::new()
    }
}

/// The recurrence rule, where there is one.
pub open spec fn recurrence_row(v: JsonV) -> Seq<char> {
    match v.text("recurrence"@) {
        Some(s) => if s.len() > 0 {
            row_text("recurrence"@, s)
        } else {
            Seq::empty()
        },
        None => Seq::empty(),
    }
}

fn opt_recurrence(v: &Json) -> (r: String)
    ensures
        r@ == recurrence_row(v@),
{
    match v.text("recurrence") {
        Some(s) => if !s.is_empty() {
            row("recurrence", s)
        } else {
            String::new()
        },
        None => String::new(),
    }
}

/// Spent against budget, in words.
pub open spec fn budget_text(v: JsonV, budget: int) -> Seq<char> {
    let head = decimal(int_of_spec(v, "fresh_tokens"@)) + " / "@ + decimal(budget)
        + " fresh tokens"@;
    if is_true(v, "over"@) {
        head + " — over"@
    } else {
        head
    }
}

/// Spent against budget, in words.
pub fn budget_words(v: &Json, budget: i64) -> (r: String)
    ensures
        r@ == budget_text(v@, budget as int),
{
    let mut r: String = decimal_text(int_of(v, "fresh_tokens"));
    r.append(" / ");
    push_decimal(&mut r, budget);
    r.append(" fresh tokens");
    if holds_true(v, "over") {
        r.append(" — over");
    }
    r
}

/// The budget, where one was set.
pub open spec fn budget_row(v: JsonV) -> Seq<char> {
    match v.integer("budget_tokens"@) {
        Some(b) => row_text("budget"@, budget_text(v, b)),
        None => Seq::empty(),
    }
}

fn opt_budget(v: &Json) -> (r: String)
    ensures
        r@ == budget_row(v@),
{
    match v.integer("budget_tokens") {
        Some(b) => row("budget", budget_words(v, b).as_str()),
        None => String::new(),
    }
}

/// That a task waits, where it does.
pub open spec fn blocked_row(v: JsonV) -> Seq<char> {
    if is_true(v, "blocked"@) {
        row_text("blocked"@, "yes"@)
    } else {
        Seq::empty()
    }
}

fn opt_blocked(v: &Json) -> (r: String)
    ensures
        r@ == blocked_row(v@),
{
    if holds_true(v, "blocked") {
        row("blocked", "yes")
    } else {
        String::new()
    }
}

/// The heading and the table of a task.
pub open spec fn table_text(v: JsonV, o: DetailV) -> Seq<char> {
    "## #"@ + decimal(int_of_spec(v, "short_id"@)) + " · "@ + str_of_spec(v, "title"@) + "\n\n"@
        + "| | |\n|---|---|\n"@ + row_text("status"@, status_cell_spec(v)) + row_text(
        "priority"@,
        priority_cell_spec(v),
    ) + row_text("project"@, str_of_spec(v, "project"@)) + tags_row(v) + duration_row(
        v,
        "estimate"@,
        "estimate"@,
        o,
    ) + duration_row(v, "tracked"@, "tracked"@, o) + instant_row(v, "due"@, "due"@, o)
        + instant_row(v, "scheduled"@, "scheduled"@, o) + instant_row(v, "wait"@, "wait"@, o)
        + instant_row(v, "remind"@, "remind"@, o) + recurrence_row(v) + instant_row(
        v,
        "active_since"@,
        "active since"@,
        o,
    ) + instant_row(v, "completed"@, "completed"@, o) + blocked_row(v) + handles_row(
        v,
        "depends_on"@,
        "depends on"@,
    ) + handles_row(v, "blocks"@, "blocks"@) + row_text(
        "created"@,
        instant_text(str_of_spec(v, "created"@), o),
    ) + row_text("modified"@, instant_text(str_of_spec(v, "modified"@), o)) + budget_row(v)
        + row_text("rev"@, decimal(int_of_spec(v, "_rev"@)))
}

/// One task, as a table and what follows it.
pub open spec fn detail_text(v: JsonV, o: DetailV) -> Seq<char> {
    table_text(v, o) + checks_text(v) + tokens_text(v) + annotations_text(v, o)
}

/// Renders one task as markdown. Never empty.
pub fn task_detail(v: &Json, opts: &DetailOpts) -> (r: String)
    ensures
        r@ == detail_text(v@, opts@),
        r@.len() > 0,
{
    let mut out: String = "## #".to_owned();
    push_decimal(&mut out, int_of(v, "short_id"));
    out.append(" · ");
    out.append(str_of(v, "title").as_str());
    out.append("\n\n");
    out.append("| | |\n|---|---|\n");
    out.append(row("status", status_cell(v).as_str()).as_str());
    out.append(row("priority", priority_cell(v).as_str()).as_str());
    out.append(row("project", str_of(v, "project").as_str()).as_str());
    out.append(opt_tags(v).as_str());
    out.append(opt_duration(v, "estimate", "estimate", opts).as_str());
    out.append(opt_duration(v, "tracked", "tracked", opts).as_str());
    out.append(opt_instant(v, "due", "due", opts).as_str());
    out.append(opt_instant(v, "scheduled", "scheduled", opts).as_str());
    out.append(opt_instant(v, "wait", "wait", opts).as_str());
    out.append(opt_instant(v, "remind", "remind", opts).as_str());
    out.append(opt_recurrence(v).as_str());
    out.append(opt_instant(v, "active_since", "active since", opts).as_str());
    out.append(opt_instant(v, "completed", "completed", opts).as_str());
    out.append(opt_blocked(v).as_str());
    out.append(opt_handles(v, "depends_on", "depends on").as_str());
    out.append(opt_handles(v, "blocks", "blocks").as_str());
    out.append(
        row("created", fmt_instant(str_of(v, "created").as_str(), opts).as_str()).as_str(),
    );
    out.append(
        row("modified", fmt_instant(str_of(v, "modified").as_str(), opts).as_str()).as_str(),
    );
    out.append(opt_budget(v).as_str());
    out.append(row("rev", decimal_text(int_of(v, "_rev")).as_str()).as_str());
    proof {
        reveal_strlit("| | |\n|---|---|\n");
        assert(out@ == table_text(v@, opts@));
    }
    let ghost table = out@;
    out.append(checks(v).as_str());
    out.append(tokens(v).as_str());
    out.append(annotations(v, opts).as_str());
    proof {
        reveal_strlit("## #");
        assert("## #"@.len() == 4);
    }
    out
}

/// The mark of a criterion: passed, failed or open.
pub open spec fn check_mark(c: JsonV) -> Seq<char> {
    let s = str_of_spec(c, "state"@);
    if s == "passed"@ {
        "x"@
    } else if s == "failed"@ {
        "!"@
    } else {
        " "@
    }
}

/// The mark of a criterion: passed, failed or open.
pub fn mark_of(c: &Json) -> (r: &'static str)
    ensures
        r@ == check_mark(c@),
{
    let s: String = str_of(c, "state");
    if same(s.as_str(), "passed") {
        "x"
    } else if same(s.as_str(), "failed") {
        "!"
    } else {
        " "
    }
}

/// The first `n` lines, each quoted.
pub open spec fn quoted_lines(lines: Seq<Seq<char>>, n: nat) -> Seq<char>
    decreases n,
{
    if n == 0 || n > lines.len() {
        Seq::empty()
    } else {
        quoted_lines(lines, (n - 1) as nat) + ("  > "@ + lines[n - 1] + "\n"@)
    }
}

/// A text as quoted lines.
pub open spec fn quoted_block(s: Seq<char>) -> Seq<char> {
    quoted_lines(lines_of(s), lines_of(s).len())
}

/// A text as quoted lines.
pub fn quote_block(s: &str) -> (r: String)
    ensures
        r@ == quoted_block(s@),
{
    let v: Vec<&str> = lines(s);
    let ghost ls = strs(v@);
    let mut out: String = String::new();
    let mut i: usize = 0;
    while i < v.len()
        invariant
            i <= v@.len(),
            ls == strs(v@),
            out@ == quoted_lines(ls, i as nat),
        decreases v@.len() - i,
    {
        assert(ls[i as int] == v@[i as int]@);
        let mut one: String = "  > ".to_owned();
        one.append(v[i]);
        one.append("\n");
        out.append(one.as_str());
        i += 1;
    }
    out
}

/// One criterion, with its evidence.
pub open spec fn check_text(c: JsonV) -> Seq<char> {
    "- ["@ + check_mark(c) + "] "@ + str_of_spec(c, "body"@) + "\n"@ + quoted_block(
        str_of_spec(c, "evidence"@),
    )
}

fn check_block(c: &Json) -> (r: String)
    ensures
        r@ == check_text(c@),
{
    let mut r: String = "- [".to_owned();
    r.append(mark_of(c));
    r.append("] ");
    r.append(str_of(c, "body").as_str());
    r.append("\n");
    r.append(quote_block(str_of(c, "evidence").as_str()).as_str());
    r
}

/// The first `n` criteria.
pub open spec fn check_texts(v: Seq<JsonV>, n: nat) -> Seq<char>
    decreases n,
{
    if n == 0 || n > v.len() {
        Seq::empty()
    } else {
        check_texts(v, (n - 1) as nat) + check_text(v[n - 1])
    }
}

/// The criteria as a checklist, where there are some.
pub open spec fn checks_text(v: JsonV) -> Seq<char> {
    let rows = array_of_spec(v, "checks"@);
    if rows.len() == 0 {
        Seq::empty()
    } else {
        "\n### Acceptance ("@ + digits(rows.len()) + ")\n\n"@ + check_texts(rows, rows.len())
    }
}

fn checks(v: &Json) -> (r: String)
    ensures
        r@ == checks_text(v@),
{
    let rows: &Vec<Json> = match v.list("checks") {
        Some(a) => a,
        None => {
            return String::new();
        },
    };
    let ghost rs = values(rows@);
    assert(rs.len() == rows@.len());
    if rows.len() == 0 {
        return String::new();
    }
    let mut out: String = "\n### Acceptance (".to_owned();
    push_digits(&mut out, rows.len() as u128);
    out.append(")\n\n");
    let mut list: String = String::new();
    let mut i: usize = 0;
    while i < rows.len()
        invariant
            i <= rows@.len(),
            rs == values(rows@),
            list@ == check_texts(rs, i as nat),
        decreases rows@.len() - i,
    {
        assert(rs[i as int] == rows@[i as int]@);
        list.append(check_block(&rows[i]).as_str());
        i += 1;
    }
    out.append(list.as_str());
    out
}

/// One measurement as a row of seven columns. The four token counts are never
/// summed: they are priced differently.
pub open spec fn token_row(m: JsonV) -> Seq<char> {
    "| "@ + str_of_spec(m, "tool"@) + " | "@ + decimal(int_of_spec(m, "input_tokens"@)) + " | "@
        + decimal(int_of_spec(m, "output_tokens"@)) + " | "@ + decimal(
        int_of_spec(m, "cache_read_tokens"@),
    ) + " | "@ + decimal(int_of_spec(m, "cache_creation_tokens"@)) + " | "@ + str_of_spec(
        m,
        "source"@,
    ) + " | "@ + str_of_spec(m, "confidence"@) + " |\n"@
}

fn token_line(m: &Json) -> (r: String)
    ensures
        r@ == token_row(m@),
{
    let mut r: String = "| ".to_owned();
    r.append(str_of(m, "tool").as_str());
    r.append(" | ");
    push_decimal(&mut r, int_of(m, "input_tokens"));
    r.append(" | ");
    push_decimal(&mut r, int_of(m, "output_tokens"));
    r.append(" | ");
    push_decimal(&mut r, int_of(m, "cache_read_tokens"));
    r.append(" | ");
    push_decimal(&mut r, int_of(m, "cache_creation_tokens"));
    r.append(" | ");
    r.append(str_of(m, "source").as_str());
    r.append(" | ");
    r.append(str_of(m, "confidence").as_str());
    r.append(" |\n");
    r
}

/// The first `n` measurements.
pub open spec fn token_rows(v: Seq<JsonV>, n: nat) -> Seq<char>
    decreases n,
{
    if n == 0 || n > v.len() {
        Seq::empty()
    } else {
        token_rows(v, (n - 1) as nat) + token_row(v[n - 1])
    }
}

/// The measurements as a table, where there are some.
pub open spec fn tokens_text(v: JsonV) -> Seq<char> {
    let rows = array_of_spec(v, "tokens"@);
    if rows.len() == 0 {
        Seq::empty()
    } else {
        "\n### Tokens ("@ + digits(rows.len()) + ")\n\n"@
            + "| tool | in | out | cache read | cache write | source | confidence |\n"@
            + "|---|---:|---:|---:|---:|---|---|\n"@ + token_rows(rows, rows.len())
    }
}

fn tokens(v: &Json) -> (r: String)
    ensures
        r@ == tokens_text(v@),
{
    let rows: &Vec<Json> = match v.list("tokens") {
        Some(a) => a,
        None => {
            return String::new();
        },
    };
    let ghost rs = values(rows@);
    assert(rs.len() == rows@.len());
    if rows.len() == 0 {
        return String::new();
    }
    let mut out: String = "\n### Tokens (".to_owned();
    push_digits(&mut out, rows.len() as u128);
    out.append(")\n\n");
    out.append("| tool | in | out | cache read | cache write | source | confidence |\n");
    out.append("|---|---:|---:|---:|---:|---|---|\n");
    let mut list: String = String::new();
    let mut i: usize = 0;
    while i < rows.len()
        invariant
            i <= rows@.len(),
            rs == values(rows@),
            list@ == token_rows(rs, i as nat),
        decreases rows@.len() - i,
    {
        assert(rs[i as int] == rows@[i as int]@);
        list.append(token_line(&rows[i]).as_str());
        i += 1;
    }
    out.append(list.as_str());
    out
}

/// The mark of a note whose text was removed.
pub open spec fn tombstone_text(r: JsonV, o: DetailV) -> Seq<char> {
    "_(annotation "@ + str_of_spec(r, "id"@) + " removed "@ + instant_text(
        str_of_spec(r, "removed"@),
        o,
    ) + ")_\n"@
}

/// The first `n` marks.
pub open spec fn tombstone_list(v: Seq<JsonV>, o: DetailV, n: nat) -> Seq<char>
    decreases n,
{
    if n == 0 || n > v.len() {
        "\n"@
    } else {
        tombstone_list(v, o, (n - 1) as nat) + tombstone_text(v[n - 1], o)
    }
}

/// The marks of the notes whose text was removed, where there are some.
pub open spec fn tombstones_text(v: JsonV, o: DetailV) -> Seq<char> {
    let rows = array_of_spec(v, "annotations_removed"@);
    if rows.len() == 0 {
        Seq::empty()
    } else {
        tombstone_list(rows, o, rows.len())
    }
}

fn tombstones(v: &Json, opts: &DetailOpts) -> (r: String)
    ensures
        r@ == tombstones_text(v@, opts@),
{
    let rows: &Vec<Json> = match v.list("annotations_removed") {
        Some(a) => a,
        None => {
            return String::new();
        },
    };
    let ghost rs = values(rows@);
    assert(rs.len() == rows@.len());
    if rows.len() == 0 {
        return String::new();
    }
    let mut out: String = "\n".to_owned();
    let mut i: usize = 0;
    while i < rows.len()
        invariant
            i <= rows@.len(),
            rs == values(rows@),
            out@ == tombstone_list(rs, opts@, i as nat),
        decreases rows@.len() - i,
    {
        assert(rs[i as int] == rows@[i as int]@);
        let mut one: String = "_(annotation ".to_owned();
        one.append(str_of(&rows[i], "id").as_str());
        one.append(" removed ");
        one.append(fmt_instant(str_of(&rows[i], "removed").as_str(), opts).as_str());
        one.append(")_\n");
        out.append(one.as_str());
        i += 1;
    }
    out
}

/// How many bytes a text takes.
pub open spec fn byte_len(s: Seq<char>) -> nat {
    vstd::utf8::encode_utf8(s).len()
}

/// How many bytes a text takes.
pub fn bytes_in(s: &str) -> (r: usize)
    ensures
        r == byte_len(s@),
{
    s.as_bytes().len()
}

/// A page of notes: how many there are in all, how many newer ones come before
/// it, and how many older ones after.
pub open spec fn page_total(v: JsonV) -> int {
    match v.count("annotations_total"@) {
        Some(n) => n,
        None => array_of_spec(v, "annotations"@).len() as int,
    }
}

/// Where a page of notes begins, counted from the newest.
pub open spec fn page_offset(v: JsonV) -> int {
    match v.count("annotations_offset"@) {
        Some(n) => n,
        None => 0,
    }
}

/// How many notes are newer than a page.
pub open spec fn newer_than_page(v: JsonV) -> int {
    if page_offset(v) < page_total(v) {
        page_offset(v)
    } else {
        page_total(v)
    }
}

/// How many notes are older than a page.
pub open spec fn older_than_page(v: JsonV) -> int {
    let end = page_offset(v) + array_of_spec(v, "annotations"@).len();
    if end < page_total(v) {
        page_total(v) - end
    } else {
        0
    }
}

/// The sentence that says where a page of a longer history sits.
pub open spec fn page_note(v: JsonV) -> Seq<char> {
    let shown = array_of_spec(v, "annotations"@).len();
    let newer = newer_than_page(v);
    let older = older_than_page(v);
    let head = if newer == 0 {
        "_Showing the "@ + decimal(shown as int) + " most recent, oldest first."@
    } else {
        "_Showing "@ + decimal(shown as int) + ", oldest first, after the "@ + decimal(newer)
            + " most recent."@
    };
    let body = if older > 0 {
        match v.count("annotations_next_offset"@) {
            Some(n) => head + " "@ + decimal(older) + " older elided"@
                + " — re-read this \
                    task with `annotations_offset: "@ + decimal(n)
                + "` for the next page."@,
            None => head + " "@ + decimal(older) + " older elided"@ + "."@,
        }
    } else {
        head
    };
    body + "_\n\n"@
}

/// The heading over a page of notes.
pub open spec fn page_heading(v: JsonV) -> Seq<char> {
    let shown = array_of_spec(v, "annotations"@).len();
    if newer_than_page(v) == 0 && older_than_page(v) == 0 {
        "\n### Annotations ("@ + decimal(shown as int) + ")\n\n"@
    } else {
        "\n### Annotations ("@ + decimal(shown as int) + " of "@ + decimal(page_total(v))
            + ")\n\n"@ + page_note(v)
    }
}

/// The end of a note that was cut: its real size, and how to read it whole.
pub open spec fn cut_note(a: JsonV, here: int) -> Seq<char> {
    let full = match a.count("body_bytes"@) {
        Some(n) => n,
        None => 0,
    };
    "\n_(truncated: "@ + decimal(full) + " bytes, "@ + decimal(
        byte_len(str_of_spec(a, "body"@)) as int,
    ) + " shown — read it whole with `annotations_offset: "@ + decimal(here)
        + "`, `annotations_limit: 1`, `max_body_bytes: "@ + decimal(full) + "`)_\n"@
}

/// One note, its text untouched; `here` is its own distance from the newest.
pub open spec fn note_text(a: JsonV, here: int, o: DetailV) -> Seq<char> {
    let body = str_of_spec(a, "body"@);
    let head = "---\n**"@ + instant_text(str_of_spec(a, "created"@), o) + "**\n\n"@ + body;
    let closed = if body.len() > 0 && body.last() == '\n' {
        head
    } else {
        head + "\n"@
    };
    if is_true(a, "body_truncated"@) {
        closed + cut_note(a, here)
    } else {
        closed
    }
}

/// The first `n` notes of a page.
pub open spec fn note_list(v: Seq<JsonV>, offset: int, o: DetailV, n: nat) -> Seq<char>
    decreases n,
{
    if n == 0 || n > v.len() {
        Seq::empty()
    } else {
        note_list(v, offset, o, (n - 1) as nat) + note_text(
            v[n - 1],
            offset + (v.len() - n),
            o,
        )
    }
}

/// The history of a task: a page of notes under its heading, or the count of
/// those that are not shown.
pub open spec fn annotations_text(v: JsonV, o: DetailV) -> Seq<char> {
    let rows = array_of_spec(v, "annotations"@);
    if rows.len() == 0 {
        match v.count("annotations_total"@) {
            Some(total) => if total > 0 {
                "\n_Annotations: "@ + decimal(total)
                    + ", none shown (`annotations_limit: 0`, or none requested) — re-read with a higher `annotations_limit` to see them._\n"@
                    + tombstones_text(v, o)
            } else {
                tombstones_text(v, o)
            },
            None => tombstones_text(v, o),
        }
    } else {
        page_heading(v) + note_list(rows, page_offset(v), o, rows.len()) + tombstones_text(v, o)
    }
}

fn note_block(a: &Json, here: i128, opts: &DetailOpts) -> (r: String)
    ensures
        r@ == note_text(a@, here as int, opts@),
{
    let body: String = str_of(a, "body");
    let mut out: String = "---\n**".to_owned();
    out.append(fmt_instant(str_of(a, "created").as_str(), opts).as_str());
    out.append("**\n\n");
    out.append(body.as_str());
    let n: usize = body.as_str().unicode_len();
    if !(n > 0 && body.as_str().get_char(n - 1) == '\n') {
        out.append("\n");
    }
    if holds_true(a, "body_truncated") {
        let full: u64 = match a.count("body_bytes") {
            Some(n) => n,
            None => 0,
        };
        let mut m: String = "\n_(truncated: ".to_owned();
        push_integer(&mut m, full as i128);
        m.append(" bytes, ");
        push_integer(&mut m, bytes_in(body.as_str()) as i128);
        m.append(" shown — read it whole with `annotations_offset: ");
        push_integer(&mut m, here);
        m.append("`, `annotations_limit: 1`, `max_body_bytes: ");
        push_integer(&mut m, full as i128);
        m.append("`)_\n");
        out.append(m.as_str());
    }
    out
}

/// A page of notes, as numbers.
pub struct Page {
    pub total: i128,
    pub offset: i128,
    pub newer: i128,
    pub older: i128,
}

/// Where a page of notes sits in the history.
pub fn page_of(v: &Json, shown: usize) -> (r: Page)
    requires
        shown == array_of_spec(v@, "annotations"@).len(),
    ensures
        r.total == page_total(v@),
        r.offset == page_offset(v@),
        r.newer == newer_than_page(v@),
        r.older == older_than_page(v@),
        0 <= r.offset <= u64::MAX,
{
    let total: i128 = match v.count("annotations_total") {
        Some(n) => n as i128,
        None => shown as i128,
    };
    let offset: i128 = match v.count("annotations_offset") {
        Some(n) => n as i128,
        None => 0,
    };
    let newer: i128 = if offset < total {
        offset
    } else {
        total
    };
    let end: i128 = offset + shown as i128;
    let older: i128 = if end < total {
        total - end
    } else {
        0
    };
    Page { total, offset, newer, older }
}

fn heading(v: &Json, shown: usize, p: &Page) -> (r: String)
    requires
        shown == array_of_spec(v@, "annotations"@).len(),
        p.total == page_total(v@),
        p.newer == newer_than_page(v@),
        p.older == older_than_page(v@),
    ensures
        r@ == page_heading(v@),
{
    let mut out: String = "\n### Annotations (".to_owned();
    push_integer(&mut out, shown as i128);
    if p.newer == 0 && p.older == 0 {
        out.append(")\n\n");
        return out;
    }
    out.append(" of ");
    push_integer(&mut out, p.total);
    out.append(")\n\n");
    let mut note: String = if p.newer == 0 {
        let mut m: String = "_Showing the ".to_owned();
        push_integer(&mut m, shown as i128);
        m.append(" most recent, oldest first.");
        m
    } else {
        let mut m: String = "_Showing ".to_owned();
        push_integer(&mut m, shown as i128);
        m.append(", oldest first, after the ");
        push_integer(&mut m, p.newer);
        m.append(" most recent.");
        m
    };
    if p.older > 0 {
        note.append(" ");
        push_integer(&mut note, p.older);
        note.append(" older elided");
        match v.count("annotations_next_offset") {
            Some(n) => {
                note.append(
                    " — re-read this \
                    task with `annotations_offset: ",
                );
                push_integer(&mut note, n as i128);
                note.append("` for the next page.");
            },
            None => {
                note.append(".");
            },
        }
    }
    note.append("_\n\n");
    out.append(note.as_str());
    out
}

/// The history of a task.
fn annotations(v: &Json, opts: &DetailOpts) -> (r: String)
    ensures
        r@ == annotations_text(v@, opts@),
{
    let stones: String = tombstones(v, opts);
    let empty: Vec<Json> = Vec::new();
    assert(values(empty@) =~= Seq::empty());
    let rows: &Vec<Json> = match v.list("annotations") {
        Some(a) => a,
        None => &empty,
    };
    let ghost rs = values(rows@);
    assert(rs.len() == rows@.len());
    if rows.len() == 0 {
        return match v.count("annotations_total") {
            Some(total) => if total > 0 {
                let mut m: String = "\n_Annotations: ".to_owned();
                push_integer(&mut m, total as i128);
                m.append(
                    ", none shown (`annotations_limit: 0`, or none requested) — re-read with a higher `annotations_limit` to see them._\n",
                );
                m.append(stones.as_str());
                m
            } else {
                stones
            },
            None => stones,
        };
    }
    let shown: usize = rows.len();
    let p: Page = page_of(v, shown);
    let mut out: String = heading(v, shown, &p);
    let mut list: String = String::new();
    let mut i: usize = 0;
    while i < rows.len()
        invariant
            i <= rows@.len(),
            shown == rows@.len(),
            rs == values(rows@),
            p.offset == page_offset(v@),
            0 <= p.offset <= u64::MAX,
            list@ == note_list(rs, page_offset(v@), opts@, i as nat),
        decreases rows@.len() - i,
    {
        assert(rs[i as int] == rows@[i as int]@);
        let here: i128 = p.offset + (shown - 1 - i) as i128;
        list.append(note_block(&rows[i], here, opts).as_str());
        i += 1;
    }
    out.append(list.as_str());
    out.append(stones.as_str());
    out
}

} // verus!
