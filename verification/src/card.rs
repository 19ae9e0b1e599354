//! The box card: one task, every line the same number of cells.
//!
//! A card is pasted into replies and pull requests, where nothing but its
//! fixed width holds it together. It is a summary; the detail view has the rest.

use crate::brief::brief_tail_text;
use crate::brief::brief_text;
use crate::brief::neighbours;
use crate::brief::tail_text;
use crate::brief::task_in;
use crate::brief::task_within;
use crate::cells::fit;
use crate::cells::fitted;
use crate::cells::sanitize;
use crate::cells::sanitized;
use crate::cells::str_cells;
use crate::cells::width;
use crate::detail::array_of_spec;
use crate::detail::budget_text;
use crate::detail::budget_words;
use crate::detail::check_mark;
use crate::detail::detail_text;
use crate::detail::handle_list;
use crate::detail::handles;
use crate::detail::holds_true;
use crate::detail::int_of;
use crate::detail::int_of_spec;
use crate::detail::ints;
use crate::detail::is_true;
use crate::detail::mark_of;
use crate::detail::names;
use crate::detail::names_of;
use crate::detail::numbers_of;
use crate::detail::Page;
use crate::detail::page_of;
use crate::detail::page_offset;
use crate::detail::page_total;
use crate::detail::short_ids;
use crate::detail::str_of;
use crate::detail::str_of_spec;
use crate::duration::duration_secs;
use crate::duration::seconds_of;
use crate::humanize::card_duration;
use crate::humanize::card_instant;
use crate::humanize::card_instant_text;
use crate::humanize::DetailOpts;
use crate::humanize::DetailV;
use crate::humanize::duration_text;
use crate::humanize::nearest;
use crate::humanize::TimeFormat;
use crate::json::Json;
use crate::json::JsonV;
use crate::params::all_blank;
use crate::params::is_blank;
use crate::text::decimal;
use crate::text::digits;
use crate::text::join;
use crate::text::joined;
use crate::text::lines;
use crate::text::lines_of;
use crate::text::push_decimal;
use crate::text::push_digits;
use crate::text::push_integer;
use crate::text::same;
use crate::text::strs;
use crate::text::texts;
use crate::text::trim;
use crate::text::trimmed;
use crate::value::opt_view;
use crate::value::values;
use crate::wrap::hung;
use crate::wrap::prose;
use crate::wrap::quoted_prose;
use crate::wrap::space;
use crate::wrap::spaces;
use crate::wrap::VALUE_TEXT;
use crate::wrap::wrap_hanging;
use crate::wrap::wrap_value;
use crate::wrap::wrapped;
use crate::wrap::wrapped_has_a_line;
use vstd::prelude::*;

verus! {

broadcast use {
    vstd::string::group_string_axioms,
    crate::value::group_json,
    crate::text::texts_push,
};

/// Which glyphs draw the box.
#[derive(Clone, Copy, PartialEq, Eq, Debug, Structural)]
pub enum Borders {
    /// Box-drawing characters.
    Unicode,
    /// `+`, `-` and `|`.
    Ascii,
}

/// The cells of a card line, borders included.
pub const CARD_WIDTH: usize = 72;

/// Cells of text in the label column.
pub const LABEL_TEXT: usize = 11;

/// What a card needs: how values are written, and what draws the box.
pub struct CardOpts {
    pub detail: DetailOpts,
    pub borders: Borders,
}

/// The glyphs of a border: the corners and joins of its three rules, the
/// horizontal and the vertical.
#[derive(Clone, Copy, PartialEq, Eq, Debug, Structural)]
pub struct Glyphs {
    pub tl: char,
    pub tj: char,
    pub tr: char,
    pub ml: char,
    pub mj: char,
    pub mr: char,
    pub bl: char,
    pub bj: char,
    pub br: char,
    pub h: char,
    pub v: char,
}

/// The glyphs of a border.
pub open spec fn glyphs_of(b: Borders) -> Glyphs {
    match b {
        Borders::Unicode => Glyphs {
            tl: '┌',
            tj: '┬',
            tr: '┐',
            ml: '├',
            mj: '┼',
            mr: '┤',
            bl: '└',
            bj: '┴',
            br: '┘',
            h: '─',
            v: '│',
        },
        Borders::Ascii => Glyphs {
            tl: '+',
            tj: '+',
            tr: '+',
            ml: '+',
            mj: '+',
            mr: '+',
            bl: '+',
            bj: '+',
            br: '+',
            h: '-',
            v: '|',
        },
    }
}

impl Borders {
    /// The glyphs of this border.
    pub fn glyphs(self) -> (r: Glyphs)
        ensures
            r == glyphs_of(self),
    {
        match self {
            Borders::Unicode => Glyphs {
                tl: '┌',
                tj: '┬',
                tr: '┐',
                ml: '├',
                mj: '┼',
                mr: '┤',
                bl: '└',
                bj: '┴',
                br: '┘',
                h: '─',
                v: '│',
            },
            Borders::Ascii => Glyphs {
                tl: '+',
                tj: '+',
                tr: '+',
                ml: '+',
                mj: '+',
                mr: '+',
                bl: '+',
                bj: '+',
                br: '+',
                h: '-',
                v: '|',
            },
        }
    }
}

/// A row: a label, and the value as lines of the value column.
pub struct CardRow {
    pub label: String,
    pub lines: Vec<String>,
}

/// What a [`CardRow`] says.
pub ghost struct CardRowV {
    pub label: Seq<char>,
    pub lines: Seq<Seq<char>>,
}

impl View for CardRow {
    type V = CardRowV;

    open spec fn view(&self) -> CardRowV {
        CardRowV { label: self.label@, lines: texts(self.lines@) }
    }
}

/// What a list of rows says.
pub open spec fn card_rows_view(v: Seq<CardRow>) -> Seq<CardRowV> {
    v.map_values(|r: CardRow| r@)
}

/// `n` times one character.
pub open spec fn run_of(c: char, n: nat) -> Seq<char> {
    Seq::new(n, |i: int| c)
}

fn repeat(c: char, n: usize) -> (r: String)
    ensures
        r@ == run_of(c, n as nat),
{
    let mut r: String = String::new();
    let mut i: usize = 0;
    while i < n
        invariant
            i <= n,
            r@ =~= run_of(c, i as nat),
        decreases n - i,
    {
        r.push(c);
        i += 1;
    }
    r
}

/// A horizontal rule.
pub open spec fn rule_text(h: char, left: char, join: char, right: char) -> Seq<char> {
    ((seq![left] + run_of(h, 13)).push(join) + run_of(h, 56)).push(right).push('\n')
}

/// A horizontal rule.
fn rule(h: char, left: char, join: char, right: char) -> (r: String)
    ensures
        r@ == rule_text(h, left, join, right),
{
    let mut s: String = String::new();
    s.push(left);
    assert(s@ =~= seq![left]);
    s.append(repeat(h, LABEL_TEXT + 2).as_str());
    s.push(join);
    s.append(repeat(h, VALUE_TEXT + 2).as_str());
    s.push(right);
    s.push('\n');
    s
}

/// A rule is exactly as many characters as a card is wide, and a line break.
pub proof fn rule_is_card_wide(h: char, left: char, join: char, right: char)
    ensures
        rule_text(h, left, join, right).len() == 72 + 1,
{
}

/// The cells left over beside a text that is cut to fit.
pub open spec fn padding(text: Seq<char>, w: nat) -> nat {
    if str_cells(fitted(text, w)) < w {
        (w - str_cells(fitted(text, w))) as nat
    } else {
        0
    }
}

/// One column: a space, the text cut and padded to `w` cells, a space.
pub open spec fn cell_text(text: Seq<char>, w: nat) -> Seq<char> {
    (" "@ + fitted(text, w) + spaces(padding(text, w))).push(' ')
}

/// One column: a space, the text cut and padded to `w` cells, a space.
fn cell(text: &str, w: usize) -> (r: String)
    ensures
        r@ == cell_text(text@, w as nat),
        str_cells(fitted(text@, w as nat)) + padding(text@, w as nat) == w,
{
    let cut: &str = fit(text, w);
    let cells: usize = width(cut);
    let mut s: String = " ".to_owned();
    s.append(cut);
    s.append(space(w - cells).as_str());
    s.push(' ');
    s
}

/// One line of a card.
pub open spec fn line_text(v: char, label: Seq<char>, value: Seq<char>) -> Seq<char> {
    ((seq![v] + cell_text(label, 11)).push(v) + cell_text(value, 54)).push(v).push('\n')
}

/// Whether every text of a row is drawn within its column.
pub open spec fn drawn_to_width(r: CardRowV) -> bool {
    &&& r.lines.len() > 0 ==> str_cells(fitted(r.label, 11)) <= 11
    &&& forall|i: int|
        0 <= i < r.lines.len() ==> str_cells(fitted(#[trigger] r.lines[i], 54)) <= 54
}

/// The first `n` lines of a row; the label stands on the first.
pub open spec fn row_lines(v: char, r: CardRowV, n: nat) -> Seq<char>
    decreases n,
{
    if n == 0 || n > r.lines.len() {
        Seq::empty()
    } else {
        row_lines(v, r, (n - 1) as nat) + line_text(
            v,
            if n == 1 {
                r.label
            } else {
                Seq::empty()
            },
            r.lines[n - 1],
        )
    }
}

fn write_row(v: char, r: &CardRow) -> (out: String)
    ensures
        out@ == row_lines(v, r@, r@.lines.len()),
        drawn_to_width(r@),
{
    let ghost rv = r@;
    let mut out: String = String::new();
    let mut i: usize = 0;
    while i < r.lines.len()
        invariant
            i <= r.lines@.len(),
            rv == r@,
            out@ == row_lines(v, rv, i as nat),
            i > 0 ==> str_cells(fitted(rv.label, 11)) <= 11,
            forall|k: int| 0 <= k < i ==> str_cells(fitted(#[trigger] rv.lines[k], 54)) <= 54,
        decreases r.lines@.len() - i,
    {
        assert(rv.lines[i as int] == r.lines@[i as int]@);
        let label: &str = if i == 0 {
            r.label.as_str()
        } else {
            ""
        };
        proof {
            reveal_strlit("");
            assert(""@ =~= Seq::<char>::empty());
        }
        let mut line: String = String::new();
        line.push(v);
        assert(line@ =~= seq![v]);
        line.append(cell(label, LABEL_TEXT).as_str());
        line.push(v);
        line.append(cell(r.lines[i].as_str(), VALUE_TEXT).as_str());
        line.push(v);
        line.push('\n');
        out.append(line.as_str());
        i += 1;
    }
    out
}

/// Every row line is as wide as a card: the cells of its two texts, measured
/// as they are drawn, their padding, the four spaces and the three borders are
/// the width of a card.
pub proof fn card_lines_are_card_wide(label: Seq<char>, value: Seq<char>)
    requires
        str_cells(fitted(label, 11)) <= 11,
        str_cells(fitted(value, 54)) <= 54,
    ensures
        3 + (2 + str_cells(fitted(label, 11)) + padding(label, 11)) + (2 + str_cells(
            fitted(value, 54),
        ) + padding(value, 54)) == 72,
{
}

/// A row from one value.
pub open spec fn value_row(label: Seq<char>, value: Seq<char>) -> CardRowV {
    CardRowV { label, lines: wrapped(sanitized(value), 54, 54) }
}

fn push_row(rows: &mut Vec<CardRow>, label: &str, value: &str)
    ensures
        card_rows_view(final(rows)@) == card_rows_view(old(rows)@).push(value_row(label@, value@)),
{
    let r = CardRow {
        label: label.to_owned(),
        lines: wrap_value(sanitize(value).as_str()),
    };
    let ghost was = card_rows_view(rows@);
    rows.push(r);
    assert(card_rows_view(rows@) =~= was.push(r@));
}

fn push_lines(rows: &mut Vec<CardRow>, label: &str, lines: Vec<String>)
    ensures
        card_rows_view(final(rows)@) == card_rows_view(old(rows)@).push(
            (CardRowV { label: label@, lines: texts(lines@) }),
        ),
{
    let r = CardRow { label: label.to_owned(), lines };
    let ghost was = card_rows_view(rows@);
    rows.push(r);
    assert(card_rows_view(rows@) =~= was.push(r@));
}

/// The status on a card, with a short warning where it is not known.
pub open spec fn status_part(v: JsonV) -> Seq<Seq<char>> {
    let s = str_of_spec(v, "status"@);
    if s.len() == 0 {
        Seq::empty()
    } else if is_true(v, "status_unrecognized"@) {
        seq![s + " (unrecognized)"@]
    } else {
        seq![s]
    }
}

/// The parts of the status line: state, weight, size, spend, project.
pub open spec fn status_parts(v: JsonV) -> Seq<Seq<char>> {
    let p0 = status_part(v);
    let priority = str_of_spec(v, "priority"@);
    let p1 = if priority.len() > 0 {
        p0.push(priority)
    } else {
        p0
    };
    let estimate = str_of_spec(v, "estimate"@);
    let p2 = if estimate.len() > 0 {
        p1.push("est "@ + duration_text(estimate, TimeFormat::Relative))
    } else {
        p1
    };
    let spent = str_of_spec(v, "tracked"@);
    let p3 = if spent.len() > 0 && seconds_of(spent) != Some(0int) {
        p2.push("tracked "@ + duration_text(spent, TimeFormat::Relative))
    } else {
        p2
    };
    let project = str_of_spec(v, "project"@);
    if project.len() > 0 {
        p3.push("project "@ + project)
    } else {
        p3
    }
}

fn status_line(v: &Json) -> (r: String)
    ensures
        r@ == joined(status_parts(v@), " · "@),
{
    let mut parts: Vec<String> = Vec::new();
    assert(texts(parts@) =~= Seq::empty());
    let status: String = str_of(v, "status");
    if !status.as_str().is_empty() {
        if holds_true(v, "status_unrecognized") {
            parts.push(status.concat(" (unrecognized)"));
        } else {
            parts.push(status);
        }
    }
    assert(texts(parts@) =~= status_part(v@));
    let priority: String = str_of(v, "priority");
    if !priority.as_str().is_empty() {
        parts.push(priority);
    }
    let estimate: String = str_of(v, "estimate");
    if !estimate.as_str().is_empty() {
        parts.push("est ".to_owned().concat(card_duration(estimate.as_str()).as_str()));
    }
    let spent: String = str_of(v, "tracked");
    if !spent.as_str().is_empty() {
        let nothing: bool = match duration_secs(spent.as_str()) {
            Some(n) => n == 0,
            None => false,
        };
        if !nothing {
            parts.push("tracked ".to_owned().concat(card_duration(spent.as_str()).as_str()));
        }
    }
    let project: String = str_of(v, "project");
    if !project.as_str().is_empty() {
        parts.push("project ".to_owned().concat(project.as_str()));
    }
    join(&parts, " · ")
}

/// Whether a line holds nothing but white space, and the trimmed lines of the
/// first paragraph from `i` on.
pub open spec fn paragraph_from(lines: Seq<Seq<char>>, i: int, started: bool) -> Seq<Seq<char>>
    decreases lines.len() - i,
{
    if i < 0 || i >= lines.len() {
        Seq::empty()
    } else if all_blank(lines[i]) {
        if started {
            Seq::empty()
        } else {
            paragraph_from(lines, i + 1, false)
        }
    } else {
        seq![trimmed(lines[i])] + paragraph_from(lines, i + 1, true)
    }
}

/// The text up to the first blank line, as one line.
pub open spec fn first_paragraph_of(body: Seq<char>) -> Seq<char> {
    sanitized(joined(paragraph_from(lines_of(body), 0, false), " "@))
}

/// The text up to the first blank line, as one line.
fn first_paragraph(body: &str) -> (r: String)
    ensures
        r@ == first_paragraph_of(body@),
{
    let v: Vec<&str> = lines(body);
    let ghost ls = strs(v@);
    let mut out: Vec<String> = Vec::new();
    let mut started = false;
    let mut done = false;
    let mut i: usize = 0;
    assert(texts(out@) + paragraph_from(ls, 0, false) =~= paragraph_from(ls, 0, false));
    while i < v.len() && !done
        invariant
            i <= v@.len(),
            ls == strs(v@),
            done ==> texts(out@) == paragraph_from(ls, 0, false),
            !done ==> texts(out@) + paragraph_from(ls, i as int, started) == paragraph_from(
                ls,
                0,
                false,
            ),
        decreases v@.len() - i,
    {
        assert(ls[i as int] == v@[i as int]@);
        let ghost was = texts(out@);
        if is_blank(v[i]) {
            if started {
                assert(was + Seq::<Seq<char>>::empty() =~= was);
                done = true;
            }
        } else {
            let one: String = trim(v[i]).to_owned();
            out.push(one);
            let ghost rest = paragraph_from(ls, i as int + 1, true);
            assert(was + (seq![one@] + rest) =~= was.push(one@) + rest);
            started = true;
        }
        i += 1;
    }
    if !done {
        assert(texts(out@) + Seq::<Seq<char>>::empty() =~= texts(out@));
    }
    sanitize(join(&out, " ").as_str())
}

/// A note quoted on a card.
pub open spec fn quoted_note(a: JsonV) -> Seq<Seq<char>> {
    quoted_prose(first_paragraph_of(str_of_spec(a, "body"@)))
}

fn quote_note(a: &Json) -> (r: Vec<String>)
    ensures
        texts(r@) == quoted_note(a@),
{
    prose(first_paragraph(str_of(a, "body").as_str()).as_str())
}

/// The first paragraph of the oldest note, where there is one; where it is not
/// on this page, that is said instead of quoting another.
pub open spec fn description_spec(v: JsonV) -> Option<Seq<Seq<char>>> {
    let page = array_of_spec(v, "annotations"@);
    match v.get("first_annotation"@) {
        Some(a) => if a is Obj {
            Some(quoted_note(a))
        } else {
            None
        },
        None => if page_total(v) == 0 {
            None
        } else if page_offset(v) + page.len() < page_total(v) {
            Some(
                wrapped(
                    "(first note not on this page — re-read with annotations_offset)"@,
                    54,
                    54,
                ),
            )
        } else if page.len() == 0 {
            None
        } else {
            Some(quoted_note(page[0]))
        },
    }
}

/// The texts of an optional list.
pub open spec fn opt_texts(v: Option<Vec<String>>) -> Option<Seq<Seq<char>>> {
    match v {
        Some(v) => Some(texts(v@)),
        None => None,
    }
}

/// The notes a result carries, oldest first.
fn annotation_page(v: &Json) -> (r: Option<&Vec<Json>>)
    ensures
        match r {
            Some(a) => values(a@) == array_of_spec(v@, "annotations"@),
            None => array_of_spec(v@, "annotations"@) == Seq::<JsonV>::empty(),
        },
{
    v.list("annotations")
}

fn page_len(v: &Json) -> (r: usize)
    ensures
        r == array_of_spec(v@, "annotations"@).len(),
{
    match annotation_page(v) {
        Some(a) => {
            assert(values(a@).len() == a@.len());
            a.len()
        },
        None => 0,
    }
}

fn description(v: &Json) -> (r: Option<Vec<String>>)
    ensures
        opt_texts(r) == description_spec(v@),
{
    if let Some(a) = v.get("first_annotation") {
        return match a {
            Json::Obj(_) => Some(quote_note(a)),
            _ => None,
        };
    }
    let shown: usize = page_len(v);
    let p: Page = page_of(v, shown);
    if p.total == 0 {
        return None;
    }
    if p.offset + (shown as i128) < p.total {
        return Some(
            wrap_value("(first note not on this page — re-read with annotations_offset)"),
        );
    }
    match annotation_page(v) {
        Some(a) => {
            assert(values(a@).len() == a@.len());
            if a.len() == 0 {
                None
            } else {
                assert(values(a@)[0] == a@[0]@);
                Some(quote_note(&a[0]))
            }
        },
        None => None,
    }
}

/// How many notes there are, when the newest was written where this page shows
/// it, and how many were removed.
pub open spec fn notes_text(v: JsonV, o: DetailV) -> Option<Seq<char>> {
    let page = array_of_spec(v, "annotations"@);
    let total = page_total(v);
    let removed = array_of_spec(v, "annotations_removed"@).len();
    if total == 0 && removed == 0 {
        None
    } else {
        let head = decimal(total) + " annotation"@;
        let counted = if total == 1 {
            head
        } else {
            head + "s"@
        };
        let newest = str_of_spec(page.last(), "created"@);
        let dated = if page_offset(v) == 0 && page.len() > 0 && newest.len() > 0 {
            counted + ", newest "@ + card_instant_text(newest, o)
        } else {
            counted
        };
        Some(
            if removed > 0 {
                dated + ", "@ + digits(removed) + " removed"@
            } else {
                dated
            },
        )
    }
}

fn notes_line(v: &Json, opts: &DetailOpts) -> (r: Option<String>)
    ensures
        opt_view(r) == notes_text(v@, opts@),
{
    let shown: usize = page_len(v);
    let p: Page = page_of(v, shown);
    let removed: usize = match v.list("annotations_removed") {
        Some(a) => {
            assert(values(a@).len() == a@.len());
            a.len()
        },
        None => 0,
    };
    if p.total == 0 && removed == 0 {
        return None;
    }
    let mut line: String = String::new();
    push_integer(&mut line, p.total);
    assert(line@ =~= decimal(p.total as int));
    line.append(" annotation");
    if p.total != 1 {
        line.append("s");
    }
    if p.offset == 0 && shown > 0 {
        if let Some(a) = annotation_page(v) {
            assert(values(a@).len() == a@.len());
            assert(values(a@).last() == a@[shown as int - 1]@);
            let newest: String = str_of(&a[shown - 1], "created");
            if !newest.as_str().is_empty() {
                line.append(", newest ");
                line.append(card_instant(newest.as_str(), opts).as_str());
            }
        }
    }
    if removed > 0 {
        line.append(", ");
        push_digits(&mut line, removed as u128);
        line.append(" removed");
    }
    Some(line)
}

/// How many of the first `n` criteria passed.
pub open spec fn passed_in(v: Seq<JsonV>, n: nat) -> nat
    decreases n,
{
    if n == 0 || n > v.len() {
        0
    } else {
        passed_in(v, (n - 1) as nat) + if str_of_spec(v[n - 1], "state"@) == "passed"@ {
            1nat
        } else {
            0nat
        }
    }
}

/// The filled cells of a bar of ten. Rounded, with both ends pinned: it is full
/// only where everything passed, and empty only where nothing did.
pub open spec fn filled(passed: nat, total: nat) -> nat {
    let n = nearest(
        passed as int * 10,
        if total < 1 {
            1
        } else {
            total as int
        },
    );
    let held = if n > 10 {
        10
    } else {
        n
    };
    if passed > 0 && held == 0 {
        1
    } else if passed < total && held == 10 {
        9
    } else {
        held as nat
    }
}

/// `[####------] 12/30`.
pub open spec fn bar_text(passed: nat, total: nat) -> Seq<char> {
    "["@ + run_of('#', filled(passed, total)) + run_of('-', (10 - filled(passed, total)) as nat)
        + "] "@ + digits(passed) + "/"@ + digits(total)
}

/// A bar is full where everything passed and nowhere else, and empty where
/// nothing did and nowhere else.
pub proof fn bar_ends_are_exact(passed: nat, total: nat)
    requires
        passed <= total,
        0 < total,
    ensures
        filled(passed, total) <= 10,
        filled(passed, total) == 10 <==> passed == total,
        filled(passed, total) == 0 <==> passed == 0,
{
    let n = nearest(passed as int * 10, total as int);
    if passed == total {
        assert(n == 10) by (nonlinear_arith)
            requires
                n == nearest(passed as int * 10, total as int),
                passed == total,
                total > 0,
        ;
    }
    if passed == 0 {
        assert(0int * 10 == 0);
        assert(n == 0) by (nonlinear_arith)
            requires
                n == nearest(0, total as int),
                total > 0,
        ;
    }
    assert(n >= 0) by (nonlinear_arith)
        requires
            n == nearest(passed as int * 10, total as int),
            total > 0,
            passed >= 0,
    ;
}

/// A bar of ten cells.
fn progress_bar(passed: usize, total: usize) -> (r: String)
    ensures
        r@ == bar_text(passed as nat, total as nat),
{
    let unit: u128 = if total < 1 {
        1
    } else {
        total as u128
    };
    let n: u128 = passed as u128 * 10;
    let q: u128 = n / unit;
    let rem: u128 = n % unit;
    assert(q <= n) by (nonlinear_arith)
        requires
            q == n / unit,
            unit >= 1,
    ;
    let near: u128 = if rem * 2 >= unit {
        q + 1
    } else {
        q
    };
    let held: usize = if near > 10 {
        10
    } else {
        near as usize
    };
    let cells: usize = if passed > 0 && held == 0 {
        1
    } else if passed < total && held == 10 {
        9
    } else {
        held
    };
    assert(cells == filled(passed as nat, total as nat));
    let mut r: String = "[".to_owned();
    r.append(repeat('#', cells).as_str());
    r.append(repeat('-', 10 - cells).as_str());
    r.append("] ");
    push_digits(&mut r, passed as u128);
    r.append("/");
    push_digits(&mut r, total as u128);
    r
}

/// The lines of the first `n` criteria, after `head`.
pub open spec fn check_list(v: Seq<JsonV>, head: Seq<Seq<char>>, n: nat) -> Seq<Seq<char>>
    decreases n,
{
    if n == 0 || n > v.len() {
        head
    } else {
        check_list(v, head, (n - 1) as nat) + hung(
            "["@ + check_mark(v[n - 1]) + "] "@ + sanitized(str_of_spec(v[n - 1], "body"@)),
            4,
        )
    }
}

/// The criteria as a checklist, under a bar where there are three or more.
pub open spec fn check_lines_spec(v: JsonV) -> Option<Seq<Seq<char>>> {
    let rows = array_of_spec(v, "checks"@);
    if rows.len() == 0 {
        None
    } else {
        let head = if rows.len() >= 3 {
            seq![bar_text(passed_in(rows, rows.len()), rows.len())]
        } else {
            Seq::empty()
        };
        Some(check_list(rows, head, rows.len()))
    }
}

/// Appends lines to lines.
fn extend(out: &mut Vec<String>, more: &Vec<String>)
    ensures
        texts(final(out)@) == texts(old(out)@) + texts(more@),
{
    let mut i: usize = 0;
    assert(texts(out@) =~= texts(old(out)@) + texts(more@).take(0));
    while i < more.len()
        invariant
            i <= more@.len(),
            texts(out@) =~= texts(old(out)@) + texts(more@).take(i as int),
        decreases more@.len() - i,
    {
        out.push(more[i].clone());
        i += 1;
    }
    assert(texts(more@).take(i as int) =~= texts(more@));
}

fn check_lines(v: &Json) -> (r: Option<Vec<String>>)
    ensures
        opt_texts(r) == check_lines_spec(v@),
{
    let rows: &Vec<Json> = match v.list("checks") {
        Some(a) => a,
        None => {
            return None;
        },
    };
    let ghost rs = values(rows@);
    assert(rs.len() == rows@.len());
    if rows.len() == 0 {
        return None;
    }
    let mut passed: usize = 0;
    let mut i: usize = 0;
    while i < rows.len()
        invariant
            i <= rows@.len(),
            rs == values(rows@),
            passed <= i,
            passed == passed_in(rs, i as nat),
        decreases rows@.len() - i,
    {
        assert(rs[i as int] == rows@[i as int]@);
        if same(str_of(&rows[i], "state").as_str(), "passed") {
            passed += 1;
        }
        i += 1;
    }
    let mut out: Vec<String> = Vec::new();
    if rows.len() >= 3 {
        out.push(progress_bar(passed, rows.len()));
        assert(texts(out@) =~= seq![bar_text(passed as nat, rows@.len())]);
    } else {
        assert(texts(out@) =~= Seq::empty());
    }
    let ghost head = texts(out@);
    let mut j: usize = 0;
    while j < rows.len()
        invariant
            j <= rows@.len(),
            rs == values(rows@),
            texts(out@) == check_list(rs, head, j as nat),
        decreases rows@.len() - j,
    {
        assert(rs[j as int] == rows@[j as int]@);
        let mut one: String = "[".to_owned();
        one.append(mark_of(&rows[j]));
        one.append("] ");
        one.append(sanitize(str_of(&rows[j], "body").as_str()).as_str());
        extend(&mut out, &wrap_hanging(one.as_str(), 4));
        j += 1;
    }
    Some(out)
}

/// `#12 the title`, wrapped under its title.
pub open spec fn numbered_one(n: int, title: Seq<char>) -> Seq<Seq<char>> {
    let prefix = "#"@ + decimal(n) + " "@;
    hung(prefix + sanitized(title), str_cells(prefix))
}

fn number_line(n: i64, title: &str) -> (r: Vec<String>)
    ensures
        texts(r@) == numbered_one(n as int, title@),
{
    let mut prefix: String = "#".to_owned();
    push_decimal(&mut prefix, n);
    prefix.append(" ");
    let indent: usize = width(prefix.as_str());
    let text: String = prefix.concat(sanitize(title).as_str());
    wrap_hanging(text.as_str(), indent)
}

/// The first `n` tasks of a list, numbered.
pub open spec fn numbered(v: Seq<JsonV>, n: nat) -> Seq<Seq<char>>
    decreases n,
{
    if n == 0 || n > v.len() {
        Seq::empty()
    } else {
        numbered(v, (n - 1) as nat) + numbered_one(
            int_of_spec(v[n - 1], "short_id"@),
            str_of_spec(v[n - 1], "title"@),
        )
    }
}

fn numbered_lines(v: &Vec<Json>) -> (r: Vec<String>)
    ensures
        texts(r@) == numbered(values(v@), v@.len()),
{
    let ghost vs = values(v@);
    let mut out: Vec<String> = Vec::new();
    let mut i: usize = 0;
    assert(texts(out@) =~= Seq::empty());
    while i < v.len()
        invariant
            i <= v@.len(),
            vs == values(v@),
            texts(out@) == numbered(vs, i as nat),
        decreases v@.len() - i,
    {
        assert(vs[i as int] == v@[i as int]@);
        let one: Vec<String> = number_line(
            int_of(&v[i], "short_id"),
            str_of(&v[i], "title").as_str(),
        );
        extend(&mut out, &one);
        i += 1;
    }
    out
}

/// The numbers of the first `n` tasks of a list.
pub open spec fn numbers_named(v: Seq<JsonV>, n: nat) -> Seq<int>
    decreases n,
{
    if n == 0 || n > v.len() {
        Seq::empty()
    } else {
        match v[n - 1].integer("short_id"@) {
            Some(k) => numbers_named(v, (n - 1) as nat).push(k),
            None => numbers_named(v, (n - 1) as nat),
        }
    }
}

/// The title of the first task from `i` on with a number.
pub open spec fn title_of(v: Seq<JsonV>, number: int, i: int) -> Seq<char>
    decreases v.len() - i,
{
    if i < 0 || i >= v.len() {
        Seq::empty()
    } else if v[i].integer("short_id"@) == Some(number) {
        str_of_spec(v[i], "title"@)
    } else {
        title_of(v, number, i + 1)
    }
}

/// The first `n` numbers, each with its title.
pub open spec fn titled(ids: Seq<int>, named: Seq<JsonV>, n: nat) -> Seq<Seq<char>>
    decreases n,
{
    if n == 0 || n > ids.len() {
        Seq::empty()
    } else {
        titled(ids, named, (n - 1) as nat) + numbered_one(
            ids[n - 1],
            title_of(named, ids[n - 1], 0),
        )
    }
}

/// What a task releases when it is done: bare numbers, with titles where the
/// neighbourhood names them.
pub open spec fn unblocks_spec(task: JsonV, named: Seq<JsonV>) -> Option<Seq<Seq<char>>> {
    let own = numbers_of(task, "blocks"@);
    let ids = if own.len() == 0 {
        numbers_named(named, named.len())
    } else {
        own
    };
    if ids.len() == 0 {
        None
    } else if named.len() == 0 {
        Some(wrapped(joined(handles(ids), ", "@), 54, 54))
    } else {
        Some(titled(ids, named, ids.len()))
    }
}

fn find_title(v: &Vec<Json>, number: i64) -> (r: String)
    ensures
        r@ == title_of(values(v@), number as int, 0),
{
    let ghost vs = values(v@);
    let mut i: usize = 0;
    while i < v.len()
        invariant
            i <= v@.len(),
            vs == values(v@),
            title_of(vs, number as int, 0) == title_of(vs, number as int, i as int),
        decreases v@.len() - i,
    {
        assert(vs[i as int] == v@[i as int]@);
        if let Some(n) = v[i].integer("short_id") {
            if n == number {
                return str_of(&v[i], "title");
            }
        }
        i += 1;
    }
    String::new()
}

fn unblocks(task: &Json, named: &Vec<Json>) -> (r: Option<Vec<String>>)
    ensures
        opt_texts(r) == unblocks_spec(task@, values(named@)),
{
    let ghost ns = values(named@);
    assert(ns.len() == named@.len());
    let mut ids: Vec<i64> = short_ids(task, "blocks");
    assert(ints(ids@).len() == ids@.len());
    if ids.len() == 0 {
        let mut i: usize = 0;
        assert(ints(ids@) =~= Seq::empty());
        while i < named.len()
            invariant
                i <= named@.len(),
                ns == values(named@),
                ints(ids@) == numbers_named(ns, i as nat),
            decreases named@.len() - i,
        {
            assert(ns[i as int] == named@[i as int]@);
            if let Some(n) = named[i].integer("short_id") {
                let ghost was = ints(ids@);
                ids.push(n);
                assert(ints(ids@) =~= was.push(n as int));
            }
            i += 1;
        }
    }
    assert(ints(ids@).len() == ids@.len());
    if ids.len() == 0 {
        return None;
    }
    if named.len() == 0 {
        return Some(wrap_value(handle_list(&ids).as_str()));
    }
    let ghost iv = ints(ids@);
    let mut out: Vec<String> = Vec::new();
    let mut k: usize = 0;
    assert(texts(out@) =~= Seq::empty());
    while k < ids.len()
        invariant
            k <= ids@.len(),
            iv == ints(ids@),
            ns == values(named@),
            texts(out@) == titled(iv, ns, k as nat),
        decreases ids@.len() - k,
    {
        assert(iv[k as int] == ids@[k as int]);
        let title: String = find_title(named, ids[k]);
        extend(&mut out, &number_line(ids[k], title.as_str()));
        k += 1;
    }
    Some(out)
}

/// Rows with one more, where there is a value.
pub open spec fn with_value(
    rows: Seq<CardRowV>,
    label: Seq<char>,
    value: Option<Seq<char>>,
) -> Seq<CardRowV> {
    match value {
        Some(s) => rows.push(value_row(label, s)),
        None => rows,
    }
}

/// Rows with one more, where there are lines.
pub open spec fn with_lines(
    rows: Seq<CardRowV>,
    label: Seq<char>,
    lines: Option<Seq<Seq<char>>>,
) -> Seq<CardRowV> {
    match lines {
        Some(lines) => rows.push(CardRowV { label, lines }),
        None => rows,
    }
}

/// A text, where there is one.
pub open spec fn some_text(s: Seq<char>) -> Option<Seq<char>> {
    if s.len() > 0 {
        Some(s)
    } else {
        None
    }
}

/// A date field on a card, where there is one.
pub open spec fn card_date(v: JsonV, key: Seq<char>, o: DetailV) -> Option<Seq<char>> {
    let s = str_of_spec(v, key);
    if s.len() > 0 {
        Some(card_instant_text(s, o))
    } else {
        None
    }
}

/// The tags on a card, where there are some.
pub open spec fn card_tags(v: JsonV) -> Option<Seq<char>> {
    let n = names_of(v, "tags"@);
    if n.len() > 0 {
        Some(joined(n, ", "@))
    } else {
        None
    }
}

/// The open tasks a task waits for, where there are some.
pub open spec fn blockers(v: JsonV) -> Option<Seq<Seq<char>>> {
    let unmet = array_of_spec(v, "unmet_blockers"@);
    if unmet.len() > 0 {
        Some(numbered(unmet, unmet.len()))
    } else {
        None
    }
}

/// That all a task depends on is done, where it is.
pub open spec fn all_done(v: JsonV) -> Option<Seq<char>> {
    let ids = numbers_of(v, "depends_on"@);
    if ids.len() > 0 && array_of_spec(v, "unmet_blockers"@).len() == 0 {
        Some(joined(handles(ids), ", "@) + " — all done"@)
    } else {
        None
    }
}

/// The budget on a card, where one was set.
pub open spec fn card_budget(v: JsonV) -> Option<Seq<char>> {
    match v.integer("budget_tokens"@) {
        Some(b) => Some(budget_text(v, b)),
        None => None,
    }
}

/// What came of a closed task: its delivery note, or its newest note where the
/// result does not name one.
pub open spec fn delivered(v: JsonV) -> Option<Seq<Seq<char>>> {
    let status = str_of_spec(v, "status"@);
    let page = array_of_spec(v, "annotations"@);
    if status != "done"@ && status != "cancelled"@ {
        None
    } else {
        match v.get("delivered_annotation"@) {
            Some(a) => if a is Obj {
                Some(quoted_note(a))
            } else {
                None
            },
            None => if page.len() > 0 {
                Some(quoted_note(page.last()))
            } else {
                None
            },
        }
    }
}

/// The rows of a card, in reading order; each only where it says something.
pub open spec fn card_rows_spec(v: JsonV, named: Seq<JsonV>, o: DetailV) -> Seq<CardRowV> {
    let r1 = with_value(
        Seq::empty(),
        "Status"@,
        some_text(joined(status_parts(v), " · "@)),
    );
    let r2 = with_value(r1, "Tags"@, card_tags(v));
    let r3 = with_value(r2, "Due"@, card_date(v, "due"@, o));
    let r4 = with_value(r3, "Scheduled"@, card_date(v, "scheduled"@, o));
    let r5 = with_value(r4, "Wait"@, card_date(v, "wait"@, o));
    let r6 = with_value(r5, "Repeats"@, some_text(str_of_spec(v, "recurrence"@)));
    let r7 = with_lines(r6, "Description"@, description_spec(v));
    let r8 = with_lines(r7, "Blocked by"@, blockers(v));
    let r9 = with_value(r8, "Depends on"@, all_done(v));
    let r10 = with_lines(r9, "Unblocks"@, unblocks_spec(v, named));
    let r11 = with_lines(r10, "Checks"@, check_lines_spec(v));
    let r12 = with_value(r11, "Budget"@, card_budget(v));
    let r13 = with_lines(r12, "Delivered"@, delivered(v));
    with_value(r13, "Notes"@, notes_text(v, o))
}

fn push_opt(rows: &mut Vec<CardRow>, label: &str, value: Option<String>)
    ensures
        card_rows_view(final(rows)@) == with_value(
            card_rows_view(old(rows)@),
            label@,
            opt_view(value),
        ),
{
    if let Some(s) = value {
        push_row(rows, label, s.as_str());
    }
}

fn push_opt_lines(rows: &mut Vec<CardRow>, label: &str, lines: Option<Vec<String>>)
    ensures
        card_rows_view(final(rows)@) == with_lines(
            card_rows_view(old(rows)@),
            label@,
            opt_texts(lines),
        ),
{
    if let Some(v) = lines {
        push_lines(rows, label, v);
    }
}

fn when_some(s: String) -> (r: Option<String>)
    ensures
        opt_view(r) == some_text(s@),
{
    if s.as_str().is_empty() {
        None
    } else {
        Some(s)
    }
}

fn date_value(v: &Json, key: &str, opts: &DetailOpts) -> (r: Option<String>)
    ensures
        opt_view(r) == card_date(v@, key@, opts@),
{
    let s: String = str_of(v, key);
    if s.as_str().is_empty() {
        None
    } else {
        Some(card_instant(s.as_str(), opts))
    }
}

fn tags_value(v: &Json) -> (r: Option<String>)
    ensures
        opt_view(r) == card_tags(v@),
{
    let n: Vec<String> = names(v, "tags");
    assert(texts(n@).len() == n@.len());
    if n.len() > 0 {
        Some(join(&n, ", "))
    } else {
        None
    }
}

fn blocker_lines(v: &Json) -> (r: Option<Vec<String>>)
    ensures
        opt_texts(r) == blockers(v@),
{
    match v.list("unmet_blockers") {
        Some(a) => {
            assert(values(a@).len() == a@.len());
            if a.len() > 0 {
                Some(numbered_lines(a))
            } else {
                None
            }
        },
        None => None,
    }
}

fn done_value(v: &Json) -> (r: Option<String>)
    ensures
        opt_view(r) == all_done(v@),
{
    let unmet: usize = match v.list("unmet_blockers") {
        Some(a) => {
            assert(values(a@).len() == a@.len());
            a.len()
        },
        None => 0,
    };
    let ids: Vec<i64> = short_ids(v, "depends_on");
    assert(ints(ids@).len() == ids@.len());
    if ids.len() > 0 && unmet == 0 {
        Some(handle_list(&ids).concat(" — all done"))
    } else {
        None
    }
}

fn delivered_lines(v: &Json) -> (r: Option<Vec<String>>)
    ensures
        opt_texts(r) == delivered(v@),
{
    let status: String = str_of(v, "status");
    if !same(status.as_str(), "done") && !same(status.as_str(), "cancelled") {
        return None;
    }
    match v.get("delivered_annotation") {
        Some(a) => match a {
            Json::Obj(_) => Some(quote_note(a)),
            _ => None,
        },
        None => match annotation_page(v) {
            Some(page) => {
                assert(values(page@).len() == page@.len());
                let n: usize = page.len();
                if n > 0 {
                    assert(values(page@).last() == page@[n - 1]@);
                    Some(quote_note(&page[n - 1]))
                } else {
                    None
                }
            },
            None => None,
        },
    }
}

fn card_rows(v: &Json, named: &Vec<Json>, opts: &DetailOpts) -> (r: Vec<CardRow>)
    ensures
        card_rows_view(r@) == card_rows_spec(v@, values(named@), opts@),
{
    let mut rows: Vec<CardRow> = Vec::new();
    assert(card_rows_view(rows@) =~= Seq::empty());
    push_opt(&mut rows, "Status", when_some(status_line(v)));
    push_opt(&mut rows, "Tags", tags_value(v));
    push_opt(&mut rows, "Due", date_value(v, "due", opts));
    push_opt(&mut rows, "Scheduled", date_value(v, "scheduled", opts));
    push_opt(&mut rows, "Wait", date_value(v, "wait", opts));
    push_opt(&mut rows, "Repeats", when_some(str_of(v, "recurrence")));
    push_opt_lines(&mut rows, "Description", description(v));
    push_opt_lines(&mut rows, "Blocked by", blocker_lines(v));
    push_opt(&mut rows, "Depends on", done_value(v));
    push_opt_lines(&mut rows, "Unblocks", unblocks(v, named));
    push_opt_lines(&mut rows, "Checks", check_lines(v));
    let budget: Option<String> = match v.integer("budget_tokens") {
        Some(b) => Some(budget_words(v, b)),
        None => None,
    };
    push_opt(&mut rows, "Budget", budget);
    push_opt_lines(&mut rows, "Delivered", delivered_lines(v));
    push_opt(&mut rows, "Notes", notes_line(v, opts));
    rows
}

/// The first `n` rows drawn.
pub open spec fn rows_drawn(v: char, rows: Seq<CardRowV>, n: nat) -> Seq<char>
    decreases n,
{
    if n == 0 || n > rows.len() {
        Seq::empty()
    } else {
        rows_drawn(v, rows, (n - 1) as nat) + row_lines(v, rows[n - 1], rows[n - 1].lines.len())
    }
}

/// The header of a card: the task's number and its title.
pub open spec fn header_row(task: JsonV) -> CardRowV {
    CardRowV {
        label: "Task #"@ + decimal(int_of_spec(task, "short_id"@)),
        lines: wrapped(sanitized(str_of_spec(task, "title"@)), 54, 54),
    }
}

/// The rows under the header of a card.
pub open spec fn body_rows(v: JsonV, o: DetailV) -> Seq<CardRowV> {
    card_rows_spec(task_in(v), neighbours(v, "blocks"@), o)
}

/// A task as a box card. A card without rows has no rule under its header.
pub open spec fn card_text(v: JsonV, o: DetailV, b: Borders) -> Seq<char> {
    let g = glyphs_of(b);
    let header = header_row(task_in(v));
    let rows = body_rows(v, o);
    let top = rule_text(g.h, g.tl, g.tj, g.tr) + row_lines(g.v, header, header.lines.len());
    let head = if rows.len() > 0 {
        top + rule_text(g.h, g.ml, g.mj, g.mr)
    } else {
        top
    };
    head + rows_drawn(g.v, rows, rows.len()) + rule_text(g.h, g.bl, g.bj, g.br)
}

/// A card begins with its top rule and ends with its bottom rule, each of them
/// a line, and its header has at least one line between them. The rule under the
/// header is there exactly where the card has rows.
pub proof fn cards_are_framed(v: JsonV, o: DetailV, b: Borders)
    ensures
        ({
            let g = glyphs_of(b);
            let text = card_text(v, o, b);
            let top = rule_text(g.h, g.tl, g.tj, g.tr);
            let middle = rule_text(g.h, g.ml, g.mj, g.mr);
            let bottom = rule_text(g.h, g.bl, g.bj, g.br);
            let header = header_row(task_in(v));
            let rows = body_rows(v, o);
            &&& text.take(73) == top
            &&& text.skip(text.len() - 73) == bottom
            &&& text.last() == '\n'
            &&& header.lines.len() >= 1
            &&& text == top + row_lines(g.v, header, header.lines.len()) + (if rows.len() > 0 {
                middle
            } else {
                Seq::empty()
            }) + rows_drawn(g.v, rows, rows.len()) + bottom
        }),
{
    let g = glyphs_of(b);
    let text = card_text(v, o, b);
    let top = rule_text(g.h, g.tl, g.tj, g.tr);
    let bottom = rule_text(g.h, g.bl, g.bj, g.br);
    let header = header_row(task_in(v));
    let rows = body_rows(v, o);
    wrapped_has_a_line(sanitized(str_of_spec(task_in(v), "title"@)), 54, 54);
    let lines = row_lines(g.v, header, header.lines.len());
    assert(text.take(73) =~= top);
    assert(text.skip(text.len() - 73) =~= bottom);
    assert(text.last() == bottom.last());
    assert(top + lines + Seq::<char>::empty() =~= top + lines);
}

/// Renders a task, or the task of a brief, as a box card. Never empty, and
/// every text is drawn within its column.
pub fn task_card(v: &Json, opts: &CardOpts) -> (r: String)
    ensures
        r@ == card_text(v@, opts.detail@, opts.borders),
        r@.len() > 0,
        drawn_to_width(header_row(task_in(v@))),
        forall|i: int|
            0 <= i < body_rows(v@, opts.detail@).len() ==> drawn_to_width(
                #[trigger] body_rows(v@, opts.detail@)[i],
            ),
{
    let task: &Json = task_within(v);
    let none: Vec<Json> = Vec::new();
    assert(values(none@) =~= Seq::empty());
    let named: &Vec<Json> = match v.get("neighbourhood") {
        Some(n) => match n.list("blocks") {
            Some(a) => a,
            None => &none,
        },
        None => &none,
    };
    let g: Glyphs = opts.borders.glyphs();
    let mut label: String = "Task #".to_owned();
    push_decimal(&mut label, int_of(task, "short_id"));
    let header = CardRow {
        label,
        lines: wrap_value(sanitize(str_of(task, "title").as_str()).as_str()),
    };
    let rows: Vec<CardRow> = card_rows(task, named, &opts.detail);
    let ghost rs = card_rows_view(rows@);
    assert(rs.len() == rows@.len());
    let mut out: String = rule(g.h, g.tl, g.tj, g.tr);
    proof {
        rule_is_card_wide(g.h, g.tl, g.tj, g.tr);
    }
    out.append(write_row(g.v, &header).as_str());
    if rows.len() > 0 {
        out.append(rule(g.h, g.ml, g.mj, g.mr).as_str());
    }
    let mut body: String = String::new();
    let mut i: usize = 0;
    while i < rows.len()
        invariant
            i <= rows@.len(),
            rs == card_rows_view(rows@),
            body@ == rows_drawn(g.v, rs, i as nat),
            forall|k: int| 0 <= k < i ==> drawn_to_width(#[trigger] rs[k]),
        decreases rows@.len() - i,
    {
        assert(rs[i as int] == rows@[i as int]@);
        body.append(write_row(g.v, &rows[i]).as_str());
        i += 1;
    }
    out.append(body.as_str());
    out.append(rule(g.h, g.bl, g.bj, g.br).as_str());
    out
}

/// A brief with the card as its task.
pub open spec fn brief_card_text(v: JsonV, o: DetailV, b: Borders) -> Seq<char> {
    card_text(v, o, b) + tail_text(v)
}

/// Renders a brief with the card as its task; the tail is that of every brief.
pub fn task_brief_card(v: &Json, opts: &CardOpts) -> (r: String)
    ensures
        r@ == brief_card_text(v@, opts.detail@, opts.borders),
{
    let mut out: String = task_card(v, opts);
    out.append(brief_tail_text(v).as_str());
    out
}

/// The two spellings of a brief differ in the task alone.
pub proof fn briefs_share_their_tail(v: JsonV, o: DetailV, b: Borders)
    ensures
        brief_text(v, o) == detail_text(task_in(v), o) + tail_text(v),
        brief_card_text(v, o, b) == card_text(v, o, b) + tail_text(v),
{
}

} // verus!
