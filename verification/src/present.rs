//! What a session answers: the engine's result, fitted to the budget and
//! spelled the way the call asked.

use crate::brief::brief_tail_text;
use crate::brief::brief_text;
use crate::brief::tail_text;
use crate::brief::task_brief;
use crate::budget::both_blocks_fit;
use crate::budget::both_fit;
use crate::budget::close_view;
use crate::budget::closed_view;
use crate::budget::fit_list_to_budget;
use crate::budget::fits;
use crate::budget::list_answer;
use crate::budget::PageSearch;
use crate::budget::search_start;
use crate::budget::SearchV;
use crate::budget::view_fits;
use crate::card::Borders;
use crate::card::card_text;
use crate::card::CardOpts;
use crate::card::task_card;
use crate::catalog::TOOLS;
use crate::detail::byte_len;
use crate::detail::bytes_in;
use crate::detail::detail_text;
use crate::detail::task_detail;
use crate::edit::drop_member;
use crate::edit::is_unset;
use crate::edit::set_member;
use crate::edit::unset;
use crate::edit::with_key;
use crate::edit::without_key;
use crate::error::ApiError;
use crate::error::opt_json;
use crate::humanize::DetailOpts;
use crate::humanize::DetailV;
use crate::json::Fields;
use crate::json::Json;
use crate::json::JsonV;
use crate::json_text::json_text;
use crate::json_text::render;
use crate::prepare::PreparedCall;
use crate::prepare::PreparedV;
use crate::replies::fence;
use crate::replies::fenced;
use crate::replies::mcp_surface_message;
use crate::replies::ok_json;
use crate::replies::ok_text;
use crate::replies::ok_with_view;
use crate::replies::refusal;
use crate::replies::surface_text;
use crate::replies::tool_error_with_data;
use crate::replies::tool_ok;
use crate::replies::tool_ok_text;
use crate::replies::tool_ok_with_view;
use crate::session::ANNOTATION_BODY_CAP;
use crate::session::ANNOTATION_PAGE;
use crate::session::CardView;
use crate::text::same;
use crate::value::members;
use crate::value::opt_view;
use crate::value::values;
use vstd::prelude::*;

verus! {

broadcast use {
    vstd::string::group_string_axioms,
    crate::value::group_json,
    crate::text::texts_push,
};

/// What is left to do once the engine has answered.
#[derive(Debug)]
pub enum Presented {
    /// Nothing: this is the answer.
    Done(Json),
    /// The task has to be read back, with these arguments, for its closing card.
    ReadBack(Json),
    /// A page that fits has to be searched for.
    Search(PageSearch),
}

/// What a [`Presented`] says.
pub ghost enum PresentedV {
    Done(JsonV),
    ReadBack(JsonV),
    Search(SearchV),
}

impl View for Presented {
    type V = PresentedV;

    open spec fn view(&self) -> PresentedV {
        match *self {
            Presented::Done(j) => PresentedV::Done(j@),
            Presented::ReadBack(j) => PresentedV::ReadBack(j@),
            Presented::Search(s) => PresentedV::Search(s@),
        }
    }
}

/// A task as one text, by the view.
pub open spec fn task_view(v: JsonV, view: CardView, o: DetailV) -> Seq<char> {
    match view {
        CardView::Markdown => detail_text(v, o),
        CardView::Card => fenced(card_text(v, o, Borders::Unicode)),
    }
}

/// A brief as one text, by the view: only its task is a card, and only the
/// card is fenced.
pub open spec fn brief_view(v: JsonV, view: CardView, o: DetailV) -> Seq<char> {
    match view {
        CardView::Markdown => brief_text(v, o),
        CardView::Card => fenced(card_text(v, o, Borders::Unicode)) + tail_text(v),
    }
}

fn card_opts(opts: &DetailOpts) -> (r: CardOpts)
    ensures
        r.detail@ == opts@,
        r.borders == Borders::Unicode,
{
    CardOpts {
        detail: DetailOpts { time: opts.time, now: opts.now },
        borders: Borders::Unicode,
    }
}

/// A task as one text, by the view.
pub fn render_task(v: &Json, view: CardView, opts: &DetailOpts) -> (r: String)
    ensures
        r@ == task_view(v@, view, opts@),
{
    match view {
        CardView::Markdown => task_detail(v, opts),
        CardView::Card => fence(task_card(v, &card_opts(opts)).as_str()),
    }
}

/// A brief as one text, by the view.
pub fn render_brief(v: &Json, view: CardView, opts: &DetailOpts) -> (r: String)
    ensures
        r@ == brief_view(v@, view, opts@),
{
    match view {
        CardView::Markdown => task_brief(v, opts),
        CardView::Card => {
            let mut r: String = fence(task_card(v, &card_opts(opts)).as_str());
            r.append(brief_tail_text(v).as_str());
            r
        },
    }
}

/// The page of notes a read was made with.
pub open spec fn notes_page(args: JsonV) -> int {
    match args.count("annotations_limit"@) {
        Some(n) => n,
        None => 20,
    }
}

/// What is done with a task that was read: both halves where they were asked
/// for and fit, else the view alone where it fits, else a smaller page.
pub open spec fn fitted_task(v: JsonV, args: JsonV, view: Seq<char>, json: bool) -> PresentedV {
    if json && both_fit(view, v) {
        PresentedV::Done(ok_with_view(view, v))
    } else if fits(view, json) || notes_page(args) == 0 {
        PresentedV::Done(closed_view(view, json))
    } else {
        PresentedV::Search(search_start("annotations_limit"@, 1, notes_page(args), view))
    }
}

/// What is done with a task that was read.
pub fn fit_to_budget(v: &Json, args: &Json, view: String, json: bool) -> (r: Presented)
    ensures
        r@ == fitted_task(v@, args@, view@, json),
        r matches Presented::Search(s) ==> s@.ok(),
{
    if json && both_blocks_fit(view.as_str(), v) {
        return Presented::Done(tool_ok_with_view(view.as_str(), v));
    }
    if view_fits(view.as_str(), json) {
        return Presented::Done(close_view(view.as_str(), json));
    }
    let page: u64 = match args.count("annotations_limit") {
        Some(n) => n,
        None => ANNOTATION_PAGE,
    };
    if page == 0 {
        return Presented::Done(close_view(view.as_str(), json));
    }
    Presented::Search(PageSearch::new("annotations_limit", 1, page, view))
}

/// What is done with a brief: a page of memory that the caller named is left
/// as it is; else a smaller one is searched for where the brief does not fit.
pub open spec fn fitted_brief(
    v: JsonV,
    args: JsonV,
    view: Seq<char>,
    json: bool,
    limit: u64,
) -> PresentedV {
    if !unset(args, "memory_limit"@) || both_fit(view, v) {
        PresentedV::Done(
            if json {
                ok_with_view(view, v)
            } else {
                ok_text(view)
            },
        )
    } else if fits(view, json) {
        PresentedV::Done(closed_view(view, json))
    } else {
        PresentedV::Search(search_start("memory_limit"@, 0, limit as int, view))
    }
}

/// What is done with a brief.
pub fn fit_brief_to_budget(v: &Json, args: &Json, view: String, json: bool, limit: u64) -> (r:
    Presented)
    ensures
        r@ == fitted_brief(v@, args@, view@, json, limit),
        r matches Presented::Search(s) ==> s@.ok(),
{
    if !is_unset(args, "memory_limit") || both_blocks_fit(view.as_str(), v) {
        return Presented::Done(
            if json {
                tool_ok_with_view(view.as_str(), v)
            } else {
                tool_ok_text(view.as_str())
            },
        );
    }
    if view_fits(view.as_str(), json) {
        return Presented::Done(close_view(view.as_str(), json));
    }
    Presented::Search(PageSearch::new("memory_limit", 0, limit, view))
}

/// A member of a value; null where there is none.
pub open spec fn member_or_null(v: JsonV, key: Seq<char>) -> JsonV {
    match v.get(key) {
        Some(x) => x,
        None => JsonV::Null,
    }
}

fn member_of(v: &Json, key: &str) -> (r: Json)
    ensures
        r@ == member_or_null(v@, key@),
{
    match v.get(key) {
        Some(x) => x.dup(),
        None => Json::Null,
    }
}

/// The arguments that read a completed task back for its closing card.
pub open spec fn read_back_args(result: JsonV) -> JsonV {
    JsonV::Obj(
        seq![
            ("ref"@, member_or_null(result, "short_id"@)),
            ("annotations_limit"@, JsonV::Int(20)),
            ("max_body_bytes"@, JsonV::Int(16_384)),
        ],
    )
}

/// The closing card of a completed task, or the line that says how to draw it
/// where it does not fit.
pub open spec fn closing_card(result: JsonV, task: Option<JsonV>, o: DetailV) -> Seq<char> {
    let card = match task {
        Some(t) => fenced(card_text(t, o, Borders::Unicode)),
        None => Seq::empty(),
    };
    if both_fit(card, result) {
        card
    } else {
        "Closing card omitted: with the completion result it would exceed this tool's response budget. `tasqx_get_task` with `ref: "@
            + json_text(member_or_null(result, "short_id"@))
            + "` and `view: \"card\"` draws it.\n"@
    }
}

/// The answer of a completion that asked for its closing card: the card of the
/// task as it was read back, ahead of the result. A task that could not be
/// read back costs the card and nothing else.
pub fn close_with_card(result: &Json, task: &Option<Json>, opts: &DetailOpts) -> (r: Json)
    ensures
        r@ == ok_with_view(closing_card(result@, opt_json(*task), opts@), result@),
{
    let card: String = match task {
        Some(t) => fence(task_card(t, &card_opts(opts)).as_str()),
        None => String::new(),
    };
    if both_blocks_fit(card.as_str(), result) {
        return tool_ok_with_view(card.as_str(), result);
    }
    let mut m: String = "Closing card omitted: with the completion result it would exceed this tool's response budget. `tasqx_get_task` with `ref: ".to_owned();
    m.append(render(&member_of(result, "short_id")).as_str());
    m.append("` and `view: \"card\"` draws it.\n");
    tool_ok_with_view(m.as_str(), result)
}

/// A stored note with its size in place of its text.
pub open spec fn unechoed(result: JsonV) -> JsonV {
    match result.get("annotation"@) {
        Some(a) => match a.text("body"@) {
            Some(body) => with_key(
                result,
                "annotation"@,
                with_key(
                    without_key(a, "body"@),
                    "body_bytes"@,
                    JsonV::Int(byte_len(body) as int),
                ),
            ),
            None => result,
        },
        None => result,
    }
}

fn drop_echo(result: Json) -> (r: Json)
    ensures
        r@ == unechoed(result@),
{
    let changed: Option<Json> = match result.get("annotation") {
        Some(a) => match a.text("body") {
            Some(body) => {
                let n: usize = bytes_in(body);
                Some(set_member(drop_member(a.dup(), "body"), "body_bytes", Json::Int(n as i128)))
            },
            None => None,
        },
        None => None,
    };
    match changed {
        Some(a) => set_member(result, "annotation", a),
        None => result,
    }
}

/// The members that are not null.
pub open spec fn said_members(m: Seq<(Seq<char>, JsonV)>) -> Seq<(Seq<char>, JsonV)>
    decreases m.len(),
{
    if m.len() == 0 {
        m
    } else if m.last().1 is Null {
        said_members(m.drop_last())
    } else {
        said_members(m.drop_last()).push(m.last())
    }
}

/// A row without what is null in it.
pub open spec fn said_row(v: JsonV) -> JsonV {
    match v {
        JsonV::Obj(m) => JsonV::Obj(said_members(m)),
        _ => v,
    }
}

/// The first `n` rows without what is null in them.
pub open spec fn said_rows(v: Seq<JsonV>, n: nat) -> Seq<JsonV>
    decreases n,
{
    if n == 0 || n > v.len() {
        Seq::empty()
    } else {
        said_rows(v, (n - 1) as nat).push(said_row(v[n - 1]))
    }
}

/// A list whose rows have no null in them.
pub open spec fn said_list(result: JsonV) -> JsonV {
    match result.list("tasks"@) {
        Some(rows) => with_key(result, "tasks"@, JsonV::Arr(said_rows(rows, rows.len()))),
        None => result,
    }
}

fn drop_nulls(row: &Json) -> (r: Json)
    ensures
        r@ == said_row(row@),
{
    match row {
        Json::Obj(m) => {
            let mut out: Vec<(String, Json)> = Vec::new();
            let mut i: usize = 0;
            assert(members(out@) =~= said_members(members(m@).take(0)));
            while i < m.len()
                invariant
                    i <= m@.len(),
                    members(out@) == said_members(members(m@).take(i as int)),
                decreases m@.len() - i,
            {
                let ghost now = members(m@).take(i as int + 1);
                assert(now.drop_last() =~= members(m@).take(i as int));
                assert(now.last() == (m@[i as int].0@, m@[i as int].1@));
                let null: bool = match &m[i].1 {
                    Json::Null => true,
                    _ => false,
                };
                if !null {
                    out.push((m[i].0.clone(), m[i].1.dup()));
                }
                i += 1;
            }
            assert(members(m@).take(i as int) =~= members(m@));
            Json::Obj(out)
        },
        _ => row.dup(),
    }
}

fn drop_list_nulls(result: Json) -> (r: Json)
    ensures
        r@ == said_list(result@),
{
    let changed: Option<Json> = match result.list("tasks") {
        Some(rows) => {
            let ghost rs = values(rows@);
            let mut out: Vec<Json> = Vec::new();
            let mut i: usize = 0;
            assert(rs.len() == rows@.len());
            assert(values(out@) =~= Seq::empty());
            while i < rows.len()
                invariant
                    i <= rows@.len(),
                    rs == values(rows@),
                    values(out@) == said_rows(rs, i as nat),
                decreases rows@.len() - i,
            {
                assert(rs[i as int] == rows@[i as int]@);
                out.push(drop_nulls(&rows[i]));
                i += 1;
            }
            Some(Json::Arr(out))
        },
        None => None,
    };
    match changed {
        Some(rows) => set_member(result, "tasks", rows),
        None => result,
    }
}

/// A result that is answered as JSON, once it is rewritten as the call asked.
pub open spec fn plain_result(method: Seq<char>, p: PreparedV, result: JsonV) -> JsonV {
    let a = if method == "annotation.add"@ && !p.include_body {
        unechoed(result)
    } else {
        result
    };
    if p.fields_defaulted_by_us {
        said_list(a)
    } else {
        a
    }
}

/// What is done with the engine's result.
pub open spec fn presented(
    tool: int,
    p: PreparedV,
    result: JsonV,
    o: DetailV,
    memory_limit: u64,
) -> PresentedV {
    let method = TOOLS@[tool].1@;
    if method == "task.done"@ && p.view == CardView::Card {
        PresentedV::ReadBack(read_back_args(result))
    } else if method == "task.brief"@ {
        fitted_brief(
            result,
            p.args,
            brief_view(result, p.view, o),
            p.include_json,
            memory_limit,
        )
    } else if method == "task.get"@ {
        fitted_task(result, p.args, task_view(result, p.view, o), p.include_json)
    } else {
        let plain = plain_result(method, p, result);
        if p.paged_list_by_us {
            PresentedV::Done(list_answer(plain, p.args))
        } else {
            PresentedV::Done(ok_json(plain))
        }
    }
}

/// What is done with the engine's result.
pub fn present(
    tool: usize,
    p: &PreparedCall,
    result: Json,
    opts: &DetailOpts,
    memory_limit: u64,
) -> (r: Presented)
    requires
        tool < 29,
    ensures
        r@ == presented(tool as int, p@, result@, opts@, memory_limit),
        r matches Presented::Search(s) ==> s@.ok(),
{
    let method: &str = TOOLS[tool].1;
    if same(method, "task.done") && p.view == CardView::Card {
        let mut f = Fields::new();
        f.put("ref", member_of(&result, "short_id"));
        f.put("annotations_limit", Json::Int(ANNOTATION_PAGE as i128));
        f.put("max_body_bytes", Json::Int(ANNOTATION_BODY_CAP as i128));
        assert(f@ =~= read_back_args(result@)->Obj_0);
        return Presented::ReadBack(f.done());
    }
    if same(method, "task.brief") {
        let view: String = render_brief(&result, p.view, opts);
        return fit_brief_to_budget(&result, &p.args, view, p.include_json, memory_limit);
    }
    if same(method, "task.get") {
        let view: String = render_task(&result, p.view, opts);
        return fit_to_budget(&result, &p.args, view, p.include_json);
    }
    let mut result: Json = result;
    if same(method, "annotation.add") && !p.include_body {
        result = drop_echo(result);
    }
    if p.fields_defaulted_by_us {
        result = drop_list_nulls(result);
    }
    if p.paged_list_by_us {
        return Presented::Done(fit_list_to_budget(&result, &p.args));
    }
    Presented::Done(tool_ok(&result))
}

/// The answer of a refusal of the engine. `cli_name` is the name in its
/// detail, as a shell would take it.
pub fn present_error(e: &ApiError, cli_name: &Option<String>) -> (r: Json)
    ensures
        r@ == refusal(
            e@.code.name(),
            surface_text(e@.message, opt_view(*cli_name)),
            e@.data,
        ),
{
    let m: String = mcp_surface_message(e.message.as_str(), cli_name);
    tool_error_with_data(e.code.as_str(), m.as_str(), &e.data)
}

/// Whatever the page a caller names, a task's answer fits the budget or is
/// searched for: only a page of no notes is answered though it does not fit.
pub proof fn task_answers_are_bounded(v: JsonV, args: JsonV, view: Seq<char>, json: bool)
    requires
        notes_page(args) > 0,
    ensures
        fitted_task(v, args, view, json) matches PresentedV::Done(_) ==> (json && both_fit(view, v))
            || fits(view, json),
{
}

} // verus!
