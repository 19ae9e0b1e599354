//! The brief: a task, what surrounds it, and what memory says about it.

use crate::cells::split_whitespace;
use crate::cells::words_in;
use crate::detail::array_of_spec;
use crate::detail::detail_text;
use crate::detail::int_of;
use crate::detail::int_of_spec;
use crate::detail::quote_block;
use crate::detail::quoted_block;
use crate::detail::str_of;
use crate::detail::str_of_spec;
use crate::detail::task_detail;
use crate::humanize::DetailOpts;
use crate::humanize::DetailV;
use crate::json::Json;
use crate::json::JsonV;
use crate::text::decimal;
use crate::text::digits;
use crate::text::join;
use crate::text::joined;
use crate::text::push_decimal;
use crate::text::push_digits;
use crate::text::same;
use crate::value::values;
use vstd::prelude::*;

verus! {

broadcast use {
    vstd::string::group_string_axioms,
    crate::value::group_json,
    crate::text::texts_push,
};

/// The neighbours of a task, by the kind of edge.
pub open spec fn neighbours(v: JsonV, key: Seq<char>) -> Seq<JsonV> {
    match v.get("neighbourhood"@) {
        Some(n) => array_of_spec(n, key),
        None => Seq::empty(),
    }
}

/// A neighbour on one line.
pub open spec fn neighbour_line(d: JsonV) -> Seq<char> {
    "- **#"@ + decimal(int_of_spec(d, "short_id"@)) + "** "@ + str_of_spec(d, "title"@) + " · "@
        + str_of_spec(d, "status"@) + "\n"@
}

fn neighbour_text(d: &Json) -> (r: String)
    ensures
        r@ == neighbour_line(d@),
{
    let mut r: String = "- **#".to_owned();
    push_decimal(&mut r, int_of(d, "short_id"));
    r.append("** ");
    r.append(str_of(d, "title").as_str());
    r.append(" · ");
    r.append(str_of(d, "status").as_str());
    r.append("\n");
    r
}

/// A task this one depends on, with its own last word under it.
pub open spec fn prerequisite(d: JsonV) -> Seq<char> {
    match d.get("annotation"@) {
        Some(a) => if a is Null {
            neighbour_line(d)
        } else {
            neighbour_line(d) + quoted_block(str_of_spec(a, "body"@))
        },
        None => neighbour_line(d),
    }
}

fn prerequisite_text(d: &Json) -> (r: String)
    ensures
        r@ == prerequisite(d@),
{
    let mut r: String = neighbour_text(d);
    match d.get("annotation") {
        Some(a) => match a {
            Json::Null => {},
            _ => {
                r.append(quote_block(str_of(a, "body").as_str()).as_str());
            },
        },
        None => {},
    }
    r
}

/// The first `n` tasks this one depends on.
pub open spec fn prerequisites(v: Seq<JsonV>, n: nat) -> Seq<char>
    decreases n,
{
    if n == 0 || n > v.len() {
        Seq::empty()
    } else {
        prerequisites(v, (n - 1) as nat) + prerequisite(v[n - 1])
    }
}

/// The first `n` tasks that wait for this one.
pub open spec fn dependents(v: Seq<JsonV>, n: nat) -> Seq<char>
    decreases n,
{
    if n == 0 || n > v.len() {
        Seq::empty()
    } else {
        dependents(v, (n - 1) as nat) + neighbour_line(v[n - 1])
    }
}

/// What a task depends on, where it does.
pub open spec fn depends_section(v: JsonV) -> Seq<char> {
    let d = neighbours(v, "depends_on"@);
    if d.len() == 0 {
        Seq::empty()
    } else {
        "\n### Depends on\n\n"@ + prerequisites(d, d.len())
    }
}

/// What waits for a task, where something does.
pub open spec fn blocks_section(v: JsonV) -> Seq<char> {
    let b = neighbours(v, "blocks"@);
    if b.len() == 0 {
        Seq::empty()
    } else {
        "\n### Blocks\n\n"@ + dependents(b, b.len())
    }
}

fn depends_text(v: &Json) -> (r: String)
    ensures
        r@ == depends_section(v@),
{
    let n: &Json = match v.get("neighbourhood") {
        Some(n) => n,
        None => {
            return String::new();
        },
    };
    let rows: &Vec<Json> = match n.list("depends_on") {
        Some(a) => a,
        None => {
            return String::new();
        },
    };
    let ghost rs = values(rows@);
    assert(rs.len() == rows@.len());
    if rows.len() == 0 {
        return String::new();
    }
    let mut list: String = String::new();
    let mut i: usize = 0;
    while i < rows.len()
        invariant
            i <= rows@.len(),
            rs == values(rows@),
            list@ == prerequisites(rs, i as nat),
        decreases rows@.len() - i,
    {
        assert(rs[i as int] == rows@[i as int]@);
        list.append(prerequisite_text(&rows[i]).as_str());
        i += 1;
    }
    "\n### Depends on\n\n".to_owned().concat(list.as_str())
}

fn blocks_text(v: &Json) -> (r: String)
    ensures
        r@ == blocks_section(v@),
{
    let n: &Json = match v.get("neighbourhood") {
        Some(n) => n,
        None => {
            return String::new();
        },
    };
    let rows: &Vec<Json> = match n.list("blocks") {
        Some(a) => a,
        None => {
            return String::new();
        },
    };
    let ghost rs = values(rows@);
    assert(rs.len() == rows@.len());
    if rows.len() == 0 {
        return String::new();
    }
    let mut list: String = String::new();
    let mut i: usize = 0;
    while i < rows.len()
        invariant
            i <= rows@.len(),
            rs == values(rows@),
            list@ == dependents(rs, i as nat),
        decreases rows@.len() - i,
    {
        assert(rs[i as int] == rows@[i as int]@);
        list.append(neighbour_text(&rows[i]).as_str());
        i += 1;
    }
    "\n### Blocks\n\n".to_owned().concat(list.as_str())
}

/// Where a hit comes from, where it says so.
pub open spec fn hit_source(h: JsonV) -> Seq<char> {
    let s = str_of_spec(h, "source"@);
    if s.len() > 0 {
        " · `"@ + s + "`"@
    } else {
        Seq::empty()
    }
}

/// The excerpt of a hit on one line.
pub open spec fn hit_snippet(h: JsonV) -> Seq<char> {
    joined(words_in(str_of_spec(h, "snippet"@)), " "@)
}

/// One hit: its title, where it comes from, and its excerpt.
pub open spec fn hit_text(h: JsonV) -> Seq<char> {
    let head = "- **"@ + str_of_spec(h, "title"@) + "**"@ + hit_source(h) + "\n"@;
    if hit_snippet(h).len() > 0 {
        head + "  "@ + hit_snippet(h) + "\n"@
    } else {
        head
    }
}

fn hit_block(h: &Json) -> (r: String)
    ensures
        r@ == hit_text(h@),
{
    let mut r: String = "- **".to_owned();
    r.append(str_of(h, "title").as_str());
    r.append("**");
    let s: String = str_of(h, "source");
    let source: String = if !s.as_str().is_empty() {
        let mut t: String = " · `".to_owned();
        t.append(s.as_str());
        t.append("`");
        t
    } else {
        String::new()
    };
    r.append(source.as_str());
    r.append("\n");
    let words: Vec<String> = split_whitespace(str_of(h, "snippet").as_str());
    let snippet: String = join(&words, " ");
    if !snippet.as_str().is_empty() {
        r.append("  ");
        r.append(snippet.as_str());
        r.append("\n");
    }
    r
}

/// Hits one after the other.
pub open spec fn hit_list(g: Seq<JsonV>) -> Seq<char>
    decreases g.len(),
{
    if g.len() == 0 {
        Seq::empty()
    } else {
        hit_list(g.drop_last()) + hit_text(g.last())
    }
}

/// Which group a hit is in: 0 for a document, 1 for a note, 2 for anything else.
pub open spec fn group_of(h: JsonV) -> int {
    if h.text("kind"@) == Some("doc"@) {
        0
    } else if h.text("kind"@) == Some("annotation"@) {
        1
    } else {
        2
    }
}

/// The first `n` hits, those of one group.
pub open spec fn grouped(v: Seq<JsonV>, g: int, n: nat) -> Seq<JsonV>
    decreases n,
{
    if n == 0 || n > v.len() {
        Seq::empty()
    } else if group_of(v[n - 1]) == g {
        grouped(v, g, (n - 1) as nat).push(v[n - 1])
    } else {
        grouped(v, g, (n - 1) as nat)
    }
}

fn group_index(h: &Json) -> (r: i64)
    ensures
        r == group_of(h@),
{
    match h.text("kind") {
        Some(k) => if same(k, "doc") {
            0
        } else if same(k, "annotation") {
            1
        } else {
            2
        },
        None => 2,
    }
}

/// The hits of one group as text, and how many there are.
fn group_text(v: &Vec<Json>, g: i64) -> (r: (String, usize))
    ensures
        r.0@ == hit_list(grouped(values(v@), g as int, v@.len())),
        r.1 == grouped(values(v@), g as int, v@.len()).len(),
{
    let ghost vs = values(v@);
    let mut out: String = String::new();
    let mut n: usize = 0;
    let mut i: usize = 0;
    while i < v.len()
        invariant
            i <= v@.len(),
            vs == values(v@),
            n <= i,
            n == grouped(vs, g as int, i as nat).len(),
            out@ == hit_list(grouped(vs, g as int, i as nat)),
        decreases v@.len() - i,
    {
        assert(vs[i as int] == v@[i as int]@);
        if group_index(&v[i]) == g {
            let ghost before = grouped(vs, g as int, i as nat);
            out.append(hit_block(&v[i]).as_str());
            n += 1;
            assert(before.push(vs[i as int]).drop_last() =~= before);
        }
        i += 1;
    }
    (out, n)
}

/// The label over a group: how many are shown, and of how many where that is
/// known.
pub open spec fn group_label(label: Seq<char>, shown: nat, total: Option<int>) -> Seq<char> {
    match total {
        Some(m) => "**"@ + label + "** — "@ + digits(shown) + " of "@ + decimal(m) + "\n\n"@,
        None => "**"@ + label + "** — "@ + digits(shown) + "\n\n"@,
    }
}

fn label_text(label: &str, shown: usize, total: Option<i64>) -> (r: String)
    ensures
        r@ == group_label(
            label@,
            shown as nat,
            match total {
                Some(n) => Some(n as int),
                None => None,
            },
        ),
{
    let mut r: String = "**".to_owned();
    r.append(label);
    r.append("** — ");
    push_digits(&mut r, shown as u128);
    if let Some(m) = total {
        r.append(" of ");
        push_decimal(&mut r, m);
    }
    r.append("\n\n");
    r
}

/// An integer field of the `memory` object.
pub open spec fn memory_int(v: JsonV, key: Seq<char>) -> Option<int> {
    match v.get("memory"@) {
        Some(m) => m.integer(key),
        None => None,
    }
}

/// What memory found.
pub open spec fn memory_hits(v: JsonV) -> Seq<JsonV> {
    match v.get("memory"@) {
        Some(m) => array_of_spec(m, "hits"@),
        None => Seq::empty(),
    }
}

/// Documents first, then notes, then whatever names neither kind; an empty
/// line between the groups.
pub open spec fn memory_groups(v: JsonV) -> Seq<char> {
    let hits = memory_hits(v);
    let docs = grouped(hits, 0, hits.len());
    let notes = grouped(hits, 1, hits.len());
    let rest = grouped(hits, 2, hits.len());
    let a = if docs.len() > 0 {
        "\n### From memory\n\n"@ + group_label(
            "Docs"@,
            docs.len(),
            memory_int(v, "docs_total"@),
        ) + hit_list(docs)
    } else {
        "\n### From memory\n\n"@
    };
    let b = if notes.len() == 0 {
        a
    } else if docs.len() > 0 {
        a + "\n"@ + group_label(
            "Annotations"@,
            notes.len(),
            memory_int(v, "annotations_total"@),
        ) + hit_list(notes)
    } else {
        a + group_label(
            "Annotations"@,
            notes.len(),
            memory_int(v, "annotations_total"@),
        ) + hit_list(notes)
    };
    if rest.len() == 0 {
        b
    } else if docs.len() + notes.len() > 0 {
        b + "\n"@ + hit_list(rest)
    } else {
        b + hit_list(rest)
    }
}

/// What memory says, where it says something, and how much of it is shown.
pub open spec fn memory_section(v: JsonV) -> Seq<char> {
    let hits = memory_hits(v);
    let total = match memory_int(v, "total"@) {
        Some(n) => n,
        None => 0,
    };
    if hits.len() == 0 {
        Seq::empty()
    } else if total > hits.len() {
        memory_groups(v) + "\n"@ + digits(hits.len()) + " of "@ + decimal(total)
            + " matches shown — `tasqx_search_memory` reaches the rest.\n"@
    } else {
        memory_groups(v)
    }
}

fn memory_text(v: &Json) -> (r: String)
    ensures
        r@ == memory_section(v@),
{
    let m: &Json = match v.get("memory") {
        Some(m) => m,
        None => {
            return String::new();
        },
    };
    let hits: &Vec<Json> = match m.list("hits") {
        Some(a) => a,
        None => {
            return String::new();
        },
    };
    assert(values(hits@).len() == hits@.len());
    if hits.len() == 0 {
        return String::new();
    }
    let (docs, n_docs) = group_text(hits, 0);
    let (notes, n_notes) = group_text(hits, 1);
    let (rest, n_rest) = group_text(hits, 2);
    let mut out: String = "\n### From memory\n\n".to_owned();
    if n_docs > 0 {
        out.append(label_text("Docs", n_docs, m.integer("docs_total")).as_str());
        out.append(docs.as_str());
    }
    if n_notes > 0 {
        if n_docs > 0 {
            out.append("\n");
        }
        out.append(
            label_text("Annotations", n_notes, m.integer("annotations_total")).as_str(),
        );
        out.append(notes.as_str());
    }
    if n_rest > 0 {
        if n_docs > 0 || n_notes > 0 {
            out.append("\n");
        }
        out.append(rest.as_str());
    }
    assert(out@ == memory_groups(v@));
    let total: i64 = match m.integer("total") {
        Some(n) => n,
        None => 0,
    };
    if total as i128 > hits.len() as i128 {
        out.append("\n");
        push_digits(&mut out, hits.len() as u128);
        out.append(" of ");
        push_decimal(&mut out, total);
        out.append(" matches shown — `tasqx_search_memory` reaches the rest.\n");
    }
    out
}

/// Everything a brief adds after its task: what surrounds the task and what
/// memory says. It is the same under every spelling of the task.
pub open spec fn tail_text(v: JsonV) -> Seq<char> {
    depends_section(v) + blocks_section(v) + memory_section(v)
}

/// A brief's tail alone.
pub fn brief_tail_text(v: &Json) -> (r: String)
    ensures
        r@ == tail_text(v@),
{
    let mut out: String = depends_text(v);
    out.append(blocks_text(v).as_str());
    out.append(memory_text(v).as_str());
    out
}

/// The task of a brief; the value itself where it is no brief.
pub open spec fn task_in(v: JsonV) -> JsonV {
    match v.get("task"@) {
        Some(t) => t,
        None => v,
    }
}

/// The task of a brief; the value itself where it is no brief.
pub fn task_within(v: &Json) -> (r: &Json)
    ensures
        r@ == task_in(v@),
{
    match v.get("task") {
        Some(t) => t,
        None => v,
    }
}

/// A brief: the detail view and the tail.
pub open spec fn brief_text(v: JsonV, o: DetailV) -> Seq<char> {
    detail_text(task_in(v), o) + tail_text(v)
}

/// Renders a brief as markdown.
pub fn task_brief(v: &Json, opts: &DetailOpts) -> (r: String)
    ensures
        r@ == brief_text(v@, opts@),
{
    let mut out: String = task_detail(task_within(v), opts);
    out.append(brief_tail_text(v).as_str());
    out
}

proof fn groups_share_hits(v: Seq<JsonV>, n: nat)
    requires
        n <= v.len(),
    ensures
        grouped(v, 0, n).len() + grouped(v, 1, n).len() + grouped(v, 2, n).len() == n,
    decreases n,
{
    if n > 0 {
        groups_share_hits(v, (n - 1) as nat);
    }
}

/// No hit is dropped: every one is in exactly one group.
pub proof fn every_hit_is_shown(v: JsonV)
    ensures
        ({
            let hits = memory_hits(v);
            let n = hits.len();
            grouped(hits, 0, n).len() + grouped(hits, 1, n).len() + grouped(hits, 2, n).len() == n
        }),
{
    groups_share_hits(memory_hits(v), memory_hits(v).len());
}

} // verus!
