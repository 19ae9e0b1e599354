//! What the engine is asked: a call's arguments, with what a session adds and
//! without what it keeps to itself.

use crate::catalog::TOOLS;
use crate::edit::drop_member;
use crate::edit::dropping_leaves_the_rest;
use crate::edit::is_unset;
use crate::edit::set_member;
use crate::edit::unset;
use crate::edit::with_key;
use crate::edit::without_key;
use crate::error::opt_json;
use crate::json::Fields;
use crate::json::Json;
use crate::json::JsonV;
use crate::json_text::json_text;
use crate::json_text::render;
use crate::replies::refusal;
use crate::replies::tool_error;
use crate::scope::TRANSPORT_ONLY_ARGS;
use crate::session::ANNOTATION_BODY_CAP;
use crate::session::ANNOTATION_PAGE;
use crate::session::CardView;
use crate::session::empty_object;
use crate::session::LIST_DEFAULT_FIELDS;
use crate::session::McpServer;
use crate::session::no_members;
use crate::session::ServerV;
use crate::text::same;
use crate::text::trim;
use crate::text::trimmed;
use crate::value::opt_view;
use crate::value::values;
use vstd::prelude::*;

verus! {

broadcast use {
    vstd::string::group_string_axioms,
    crate::value::group_json,
    crate::text::texts_push,
};

/// A call as the engine is asked it, and what was decided on the way.
#[derive(Debug)]
pub struct PreparedCall {
    pub args: Json,
    /// Whether the answer carries the result as JSON beside the view.
    pub include_json: bool,
    pub view: CardView,
    /// Whether a note that is stored is echoed back.
    pub include_body: bool,
    /// Whether the session set the page of a list.
    pub paged_list_by_us: bool,
    /// Whether the session set the fields of a list.
    pub fields_defaulted_by_us: bool,
}

/// What a [`PreparedCall`] says.
pub ghost struct PreparedV {
    pub args: JsonV,
    pub include_json: bool,
    pub view: CardView,
    pub include_body: bool,
    pub paged_list_by_us: bool,
    pub fields_defaulted_by_us: bool,
}

impl View for PreparedCall {
    type V = PreparedV;

    open spec fn view(&self) -> PreparedV {
        PreparedV {
            args: self.args@,
            include_json: self.include_json,
            view: self.view,
            include_body: self.include_body,
            paged_list_by_us: self.paged_list_by_us,
            fields_defaulted_by_us: self.fields_defaulted_by_us,
        }
    }
}

/// The arguments of a call: none where they are absent or null.
pub open spec fn arguments_of(params: JsonV) -> JsonV {
    match params.get("arguments"@) {
        Some(a) => if a is Null {
            no_members()
        } else {
            a
        },
        None => no_members(),
    }
}

/// The arguments of a call: none where they are absent or null.
pub fn call_arguments(params: &Json) -> (r: Json)
    ensures
        r@ == arguments_of(params@),
{
    match params.get("arguments") {
        Some(a) => match a {
            Json::Null => empty_object(),
            _ => a.dup(),
        },
        None => empty_object(),
    }
}

/// What a session reads before a change that pins no revision: the method and
/// its arguments.
pub open spec fn read_before(method: Seq<char>, args: JsonV) -> Option<(Seq<char>, JsonV)> {
    if args.get("expected_rev"@) is Some {
        None
    } else if method == "task.modify"@ && args.get("ref"@) is Some {
        Some(("task.get"@, JsonV::Obj(seq![("ref"@, args.get("ref"@)->0)])))
    } else if method == "memory.update"@ && args.get("id"@) is Some {
        Some(("memory.get"@, JsonV::Obj(seq![("id"@, args.get("id"@)->0)])))
    } else {
        None
    }
}

/// What a session reads before a change that pins no revision.
pub fn needed_read(tool: usize, params: &Json) -> (r: Option<(&'static str, Json)>)
    requires
        tool < 29,
    ensures
        match read_before(TOOLS@[tool as int].1@, arguments_of(params@)) {
            Some(want) => r matches Some(x) && x.0@ == want.0 && x.1@ == want.1,
            None => r is None,
        },
{
    let args: Json = call_arguments(params);
    if args.get("expected_rev").is_some() {
        return None;
    }
    let method: &str = TOOLS[tool].1;
    if same(method, "task.modify") {
        if let Some(x) = args.get("ref") {
            let mut f = Fields::new();
            f.put("ref", x.dup());
            assert(f@ =~= seq![("ref"@, x@)]);
            return Some(("task.get", f.done()));
        }
    }
    if same(method, "memory.update") {
        if let Some(x) = args.get("id") {
            let mut f = Fields::new();
            f.put("id", x.dup());
            assert(f@ =~= seq![("id"@, x@)]);
            return Some(("memory.get", f.done()));
        }
    }
    None
}

/// The arguments with the revision that was read pinned, where the call
/// changes something and pins none itself.
pub open spec fn pinned(method: Seq<char>, args: JsonV, rev: Option<i64>) -> JsonV {
    if (method == "task.modify"@ || method == "memory.update"@) && args.get("expected_rev"@) is None
        && rev is Some {
        with_key(args, "expected_rev"@, JsonV::Int(rev->0 as int))
    } else {
        args
    }
}

fn pin_revision(method: &str, args: Json, rev: Option<i64>) -> (r: Json)
    ensures
        r@ == pinned(method@, args@, rev),
{
    if (same(method, "task.modify") || same(method, "memory.update")) && args.get(
        "expected_rev",
    ).is_none() {
        if let Some(n) = rev {
            return set_member(args, "expected_rev", Json::number(n));
        }
    }
    args
}

/// The fields a listed task has where the caller names none.
pub open spec fn default_fields() -> JsonV {
    JsonV::Arr(
        seq![
            JsonV::Str("short_id"@),
            JsonV::Str("title"@),
            JsonV::Str("status"@),
            JsonV::Str("priority"@),
            JsonV::Str("urgency"@),
            JsonV::Str("blocked"@),
            JsonV::Str("due"@),
            JsonV::Str("project"@),
            JsonV::Str("tags"@),
        ],
    )
}

fn default_field_list() -> (r: Json)
    ensures
        r@ == default_fields(),
{
    let mut v: Vec<Json> = Vec::new();
    let mut i: usize = 0;
    assert(values(v@) =~= default_fields()->Arr_0.take(0));
    while i < 9
        invariant
            i <= 9,
            values(v@) =~= default_fields()->Arr_0.take(i as int),
        decreases 9 - i,
    {
        v.push(Json::string(LIST_DEFAULT_FIELDS[i]));
        i += 1;
    }
    assert(values(v@) =~= default_fields()->Arr_0);
    Json::Arr(v)
}

/// Whether the session sets the page of a list.
pub open spec fn page_is_ours(method: Seq<char>, args: JsonV) -> bool {
    method == "task.list"@ && args is Obj && args.get("limit"@) is None
}

/// Whether the session sets the fields of a list.
pub open spec fn fields_are_ours(method: Seq<char>, args: JsonV) -> bool {
    method == "task.list"@ && args is Obj && unset(args, "fields"@)
}

/// The arguments of a list with the page and the fields set where the caller
/// named none.
pub open spec fn listed(method: Seq<char>, args: JsonV, page: u64) -> JsonV {
    let a = if page_is_ours(method, args) {
        with_key(args, "limit"@, JsonV::Int(page as int))
    } else {
        args
    };
    if fields_are_ours(method, args) {
        with_key(a, "fields"@, default_fields())
    } else {
        a
    }
}

/// Whether a session reads an argument of a tool and does not forward it.
pub open spec fn kept_back(tool: Seq<char>, arg: Seq<char>) -> bool {
    exists|i: int|
        0 <= i < 6 && (#[trigger] TRANSPORT_ONLY_ARGS@[i]).0@ == tool && TRANSPORT_ONLY_ARGS@[i].1@
            == arg
}

/// The arguments without the first `n` that are kept back.
pub open spec fn forwarded(tool: Seq<char>, args: JsonV, n: nat) -> JsonV
    decreases n,
{
    if n == 0 || n > 6 {
        args
    } else {
        let before = forwarded(tool, args, (n - 1) as nat);
        if TRANSPORT_ONLY_ARGS@[n - 1].0@ == tool {
            without_key(before, TRANSPORT_ONLY_ARGS@[n - 1].1@)
        } else {
            before
        }
    }
}

fn is_kept_back(tool: &str, arg: &str) -> (r: bool)
    ensures
        r == kept_back(tool@, arg@),
{
    let mut i: usize = 0;
    while i < 6
        invariant
            i <= 6,
            forall|k: int|
                0 <= k < i ==> !((#[trigger] TRANSPORT_ONLY_ARGS@[k]).0@ == tool@
                    && TRANSPORT_ONLY_ARGS@[k].1@ == arg@),
        decreases 6 - i,
    {
        if same(TRANSPORT_ONLY_ARGS[i].0, tool) && same(TRANSPORT_ONLY_ARGS[i].1, arg) {
            assert(TRANSPORT_ONLY_ARGS@[i as int].0@ == tool@);
            return true;
        }
        i += 1;
    }
    false
}

fn forward(tool: &str, args: Json) -> (r: Json)
    ensures
        r@ == forwarded(tool@, args@, 6),
{
    let ghost start = args@;
    let mut a: Json = args;
    let mut i: usize = 0;
    while i < 6
        invariant
            i <= 6,
            a@ == forwarded(tool@, start, i as nat),
        decreases 6 - i,
    {
        if same(TRANSPORT_ONLY_ARGS[i].0, tool) {
            a = drop_member(a, TRANSPORT_ONLY_ARGS[i].1);
        }
        i += 1;
    }
    a
}

/// What an argument that is kept back says.
pub open spec fn kept(tool: Seq<char>, args: JsonV, arg: Seq<char>) -> Option<JsonV> {
    if kept_back(tool, arg) {
        args.get(arg)
    } else {
        None
    }
}

/// A truth value that is kept back.
pub open spec fn flag(tool: Seq<char>, args: JsonV, arg: Seq<char>, default: bool) -> bool {
    match kept(tool, args, arg) {
        Some(JsonV::Bool(b)) => b,
        _ => default,
    }
}

fn read_flag(tool: &str, args: &Json, arg: &str, default: bool) -> (r: bool)
    ensures
        r == flag(tool@, args@, arg@, default),
{
    if !is_kept_back(tool, arg) {
        return default;
    }
    match args.truth(arg) {
        Some(b) => b,
        None => default,
    }
}

/// The refusal of a view that does not exist.
pub open spec fn unknown_view(v: JsonV) -> JsonV {
    refusal(
        "bad_request"@,
        "`view` takes \"markdown\" or \"card\", not "@ + json_text(v)
            + ". \"markdown\" is the default, the rendered view an agent reads; \"card\" is the fixed-width box card for pasting in front of a person. Both render the same result, so nothing is lost by retrying with either one."@,
        None,
    )
}

/// The view a call asks for, or the refusal of one that does not exist.
pub open spec fn view_asked(tool: Seq<char>, args: JsonV) -> Result<CardView, JsonV> {
    match kept(tool, args, "view"@) {
        None => Ok(CardView::Markdown),
        Some(v) => if v is Null || v == JsonV::Str("markdown"@) {
            Ok(CardView::Markdown)
        } else if v == JsonV::Str("card"@) {
            Ok(CardView::Card)
        } else {
            Err(unknown_view(v))
        },
    }
}

fn read_view(tool: &str, args: &Json) -> (r: Result<CardView, Json>)
    ensures
        match view_asked(tool@, args@) {
            Ok(v) => r == Ok::<CardView, Json>(v),
            Err(no) => r is Err && r->Err_0@ == no,
        },
{
    if !is_kept_back(tool, "view") {
        return Ok(CardView::Markdown);
    }
    let v: &Json = match args.get("view") {
        None => {
            return Ok(CardView::Markdown);
        },
        Some(v) => v,
    };
    match v {
        Json::Null => {
            return Ok(CardView::Markdown);
        },
        Json::Str(s) => {
            if same(s.as_str(), "markdown") {
                return Ok(CardView::Markdown);
            }
            if same(s.as_str(), "card") {
                return Ok(CardView::Card);
            }
        },
        _ => {},
    }
    let mut m: String = "`view` takes \"markdown\" or \"card\", not ".to_owned();
    m.append(render(v).as_str());
    m.append(
        ". \"markdown\" is the default, the rendered view an agent reads; \"card\" is the fixed-width box card for pasting in front of a person. Both render the same result, so nothing is lost by retrying with either one.",
    );
    Err(tool_error("bad_request", m.as_str()))
}

/// A client's own name: its name, and its version where it has one.
pub open spec fn client_label_spec(info: Option<JsonV>) -> Option<Seq<char>> {
    match info {
        None => None,
        Some(i) => match i.text("name"@) {
            None => None,
            Some(raw) => {
                let name = trimmed(raw);
                if name.len() == 0 {
                    None
                } else {
                    match i.text("version"@) {
                        Some(v) => if trimmed(v).len() > 0 {
                            Some(name + " "@ + v)
                        } else {
                            Some(name)
                        },
                        None => Some(name),
                    }
                }
            },
        },
    }
}

fn client_label(info: &Option<Json>) -> (r: Option<String>)
    ensures
        opt_view(r) == client_label_spec(opt_json(*info)),
{
    let i: &Json = match info {
        Some(i) => i,
        None => {
            return None;
        },
    };
    let name: &str = match i.text("name") {
        Some(n) => trim(n),
        None => {
            return None;
        },
    };
    if name.is_empty() {
        return None;
    }
    if let Some(v) = i.text("version") {
        if !trim(v).is_empty() {
            let mut r: String = name.to_owned();
            r.append(" ");
            r.append(v);
            return Some(r);
        }
    }
    Some(name.to_owned())
}

/// The arguments of a read with its page of notes and its cap set where the
/// caller named none.
pub open spec fn bounded_read(method: Seq<char>, args: JsonV) -> JsonV {
    let a = if method == "task.get"@ && args.get("annotations_limit"@) is None {
        with_key(args, "annotations_limit"@, JsonV::Int(20))
    } else {
        args
    };
    if (method == "task.get"@ || method == "task.brief"@) && unset(a, "max_body_bytes"@) {
        with_key(a, "max_body_bytes"@, JsonV::Int(16_384))
    } else {
        a
    }
}

/// The arguments of a start or a completion with who is calling.
pub open spec fn signed(
    method: Seq<char>,
    args: JsonV,
    label: Option<Seq<char>>,
    connection: Seq<char>,
) -> JsonV {
    let a = if (method == "task.start"@ || method == "task.done"@) && unset(args, "client"@)
        && label is Some {
        with_key(args, "client"@, JsonV::Str(label->0))
    } else {
        args
    };
    if method == "task.start"@ && unset(a, "actor"@) {
        with_key(a, "actor"@, JsonV::Str(connection))
    } else {
        a
    }
}

/// The arguments once the page, the fields and the revision are set.
pub open spec fn completed_args(tool: int, params: JsonV, rev: Option<i64>, page: u64) -> JsonV {
    let method = TOOLS@[tool].1@;
    listed(method, pinned(method, arguments_of(params), rev), page)
}

/// A call as the engine is asked it, or the refusal of an argument that only
/// the session reads.
pub open spec fn prepared(
    s: ServerV,
    tool: int,
    params: JsonV,
    rev: Option<i64>,
    page: u64,
) -> Result<PreparedV, JsonV> {
    let name = TOOLS@[tool].0@;
    let method = TOOLS@[tool].1@;
    let args = pinned(method, arguments_of(params), rev);
    let full = completed_args(tool, params, rev, page);
    match view_asked(name, full) {
        Err(no) => Err(no),
        Ok(view) => Ok(
            PreparedV {
                args: signed(
                    method,
                    bounded_read(method, forwarded(name, full, 6)),
                    client_label_spec(s.client_info),
                    s.connection_id,
                ),
                include_json: flag(name, full, "include_json"@, false),
                view,
                include_body: flag(name, full, "include_body"@, true),
                paged_list_by_us: page_is_ours(method, args),
                fields_defaulted_by_us: fields_are_ours(method, args),
            },
        ),
    }
}

impl McpServer {
    /// What the engine is asked for a call: `rev` is the revision that was
    /// read for it, and `page` the page of a list. Refused is only an argument
    /// that this session reads itself and cannot read.
    pub fn prepare_args(&self, tool: usize, params: &Json, rev: Option<i64>, page: u64) -> (r:
        Result<PreparedCall, Json>)
        requires
            tool < 29,
        ensures
            match prepared(self@, tool as int, params@, rev, page) {
                Ok(p) => r is Ok && r->Ok_0@ == p,
                Err(no) => r is Err && r->Err_0@ == no,
            },
    {
        let name: &str = TOOLS[tool].0;
        let method: &str = TOOLS[tool].1;
        let mut args: Json = pin_revision(method, call_arguments(params), rev);
        let is_object: bool = match &args {
            Json::Obj(_) => true,
            _ => false,
        };
        let list: bool = is_object && same(method, "task.list");
        let paged_list_by_us: bool = list && args.get("limit").is_none();
        let fields_defaulted_by_us: bool = list && is_unset(&args, "fields");
        if paged_list_by_us {
            args = set_member(args, "limit", Json::Int(page as i128));
        }
        if fields_defaulted_by_us {
            args = set_member(args, "fields", default_field_list());
        }
        assert(args@ == completed_args(tool as int, params@, rev, page));
        let include_json: bool = read_flag(name, &args, "include_json", false);
        let include_body: bool = read_flag(name, &args, "include_body", true);
        let view: CardView = match read_view(name, &args) {
            Ok(v) => v,
            Err(no) => {
                return Err(no);
            },
        };
        args = forward(name, args);
        if same(method, "task.get") && args.get("annotations_limit").is_none() {
            args = set_member(args, "annotations_limit", Json::Int(ANNOTATION_PAGE as i128));
        }
        if (same(method, "task.get") || same(method, "task.brief")) && is_unset(
            &args,
            "max_body_bytes",
        ) {
            args = set_member(args, "max_body_bytes", Json::Int(ANNOTATION_BODY_CAP as i128));
        }
        if (same(method, "task.start") || same(method, "task.done")) && is_unset(&args, "client") {
            if let Some(label) = client_label(&self.client_info) {
                args = set_member(args, "client", Json::Str(label));
            }
        }
        if same(method, "task.start") && is_unset(&args, "actor") {
            args = set_member(args, "actor", Json::string(self.connection_id.as_str()));
        }
        Ok(
            PreparedCall {
                args,
                include_json,
                view,
                include_body,
                paged_list_by_us,
                fields_defaulted_by_us,
            },
        )
    }
}

/// An argument that is kept back never reaches the engine.
proof fn forwarded_drops(tool: Seq<char>, args: JsonV, n: nat, i: int)
    requires
        0 <= i < n <= 6,
        TRANSPORT_ONLY_ARGS@[i].0@ == tool,
    ensures
        forwarded(tool, args, n).get(TRANSPORT_ONLY_ARGS@[i].1@) is None,
    decreases n,
{
    let before = forwarded(tool, args, (n - 1) as nat);
    let key = TRANSPORT_ONLY_ARGS@[n - 1].1@;
    let mine = TRANSPORT_ONLY_ARGS@[i].1@;
    if i < n - 1 {
        forwarded_drops(tool, args, (n - 1) as nat, i);
    }
    if TRANSPORT_ONLY_ARGS@[n - 1].0@ == tool {
        dropping_leaves_the_rest(before, key, mine);
    }
}

/// An argument that a session keeps back never reaches the engine.
pub proof fn kept_arguments_are_not_forwarded(tool: Seq<char>, args: JsonV, arg: Seq<char>)
    requires
        kept_back(tool, arg),
    ensures
        forwarded(tool, args, 6).get(arg) is None,
{
    let i = choose|i: int|
        0 <= i < 6 && (#[trigger] TRANSPORT_ONLY_ARGS@[i]).0@ == tool && TRANSPORT_ONLY_ARGS@[i].1@
            == arg;
    forwarded_drops(tool, args, 6, i);
}

} // verus!
