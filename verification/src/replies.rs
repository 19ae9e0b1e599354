//! The shapes a session answers in.

use crate::error::opt_json;
use crate::json::Fields;
use crate::json::Json;
use crate::json::JsonV;
use crate::json_text::json_text;
use crate::json_text::render;
use crate::text::same;
use crate::value::opt_view;
use crate::value::values;
use vstd::prelude::*;

verus! {

broadcast use {
    vstd::string::group_string_axioms,
    crate::value::group_json,
    crate::text::texts_push,
};

/// Phrases of the engine that name what a session cannot call, and what they
/// become: the tool that can be called.
pub const REMEDY_REWRITES: [(&'static str, &'static str); 2] = [
    (
        "use task.start/stop/done for other transitions",
        "use tasqx_start_timer / tasqx_stop_timer / tasqx_complete_task for other transitions",
    ),
    (
        "read it with task.get on #",
        "read it with tasqx_get_task on #",
    ),
];

/// The notice on an answer whose machine-readable half was left out.
pub const OMISSION_NOTICE: &'static str = "\n_Machine-readable JSON omitted: you asked for both blocks and together they exceeded this tool's response budget, so the budget spent the JSON first. The rendered view above carries the same annotations — its Annotations heading says how much of the history it holds, and names the `annotations_offset` that reads the rest. The budget applies to every answer, whatever `annotations_limit` you name; the rendered view alone is the default, and `include_json: true` is what spends the budget on this duplicate before it spends it on history. A body longer than `max_body_bytes` (default 16384) is cut IN THIS RESPONSE ONLY, marked with its real size and the call that reads it whole._\n";

/// One block of text.
pub open spec fn text_block(text: Seq<char>) -> JsonV {
    JsonV::Obj(seq![("type"@, JsonV::Str("text"@)), ("text"@, JsonV::Str(text))])
}

fn block(text: &str) -> (r: Json)
    ensures
        r@ == text_block(text@),
{
    let mut f = Fields::new();
    f.put("type", Json::string("text"));
    f.put("text", Json::string(text));
    assert(f@ =~= text_block(text@)->Obj_0);
    f.done()
}

/// An answer of blocks.
pub open spec fn answer(blocks: Seq<JsonV>) -> JsonV {
    JsonV::Obj(seq![("content"@, JsonV::Arr(blocks)), ("isError"@, JsonV::Bool(false))])
}

fn answer_of(blocks: Vec<Json>) -> (r: Json)
    ensures
        r@ == answer(values(blocks@)),
{
    let mut f = Fields::new();
    f.put("content", Json::Arr(blocks));
    f.put("isError", Json::Bool(false));
    assert(f@ =~= answer(values(blocks@))->Obj_0);
    f.done()
}

/// One text, verbatim.
pub open spec fn ok_text(text: Seq<char>) -> JsonV {
    answer(seq![text_block(text)])
}

/// One text, verbatim.
pub fn tool_ok_text(text: &str) -> (r: Json)
    ensures
        r@ == ok_text(text@),
{
    let mut v: Vec<Json> = Vec::new();
    v.push(block(text));
    assert(values(v@) =~= seq![text_block(text@)]);
    answer_of(v)
}

/// A result as JSON text.
pub open spec fn ok_json(v: JsonV) -> JsonV {
    ok_text(json_text(v))
}

/// A result as JSON text.
pub fn tool_ok(v: &Json) -> (r: Json)
    ensures
        r@ == ok_json(v@),
{
    tool_ok_text(render(v).as_str())
}

/// A rendered view ahead of the result as JSON; the result alone where there
/// is no view.
pub open spec fn ok_with_view(view: Seq<char>, v: JsonV) -> JsonV {
    if view.len() == 0 {
        ok_json(v)
    } else {
        answer(seq![text_block(view), text_block(json_text(v))])
    }
}

/// A rendered view ahead of the result as JSON; the result alone where there
/// is no view.
pub fn tool_ok_with_view(view: &str, v: &Json) -> (r: Json)
    ensures
        r@ == ok_with_view(view@, v@),
{
    if view.is_empty() {
        return tool_ok(v);
    }
    let mut b: Vec<Json> = Vec::new();
    b.push(block(view));
    b.push(block(render(v).as_str()));
    assert(values(b@) =~= seq![text_block(view@), text_block(json_text(v@))]);
    answer_of(b)
}

/// A block inside a text fence: one line break before the closing fence and
/// one after it, whatever the block ends with.
pub open spec fn fenced(s: Seq<char>) -> Seq<char> {
    let body = if s.len() > 0 && s.last() == '\n' {
        s.drop_last()
    } else {
        s
    };
    "```text\n"@ + body + "\n```\n"@
}

/// A block inside a text fence.
pub fn fence(s: &str) -> (r: String)
    ensures
        r@ == fenced(s@),
{
    let n: usize = s.unicode_len();
    let body: &str = if n > 0 && s.get_char(n - 1) == '\n' {
        s.substring_char(0, n - 1)
    } else {
        s
    };
    proof {
        if n > 0 && s@.last() == '\n' {
            assert(body@ =~= s@.drop_last());
        }
    }
    let mut r: String = "```text\n".to_owned();
    r.append(body);
    r.append("\n```\n");
    r
}

/// A view with the notice that its machine-readable half was left out.
pub fn view_only_text(view: &str) -> (r: String)
    ensures
        r@ == view@ + OMISSION_NOTICE@,
{
    view.to_owned().concat(OMISSION_NOTICE)
}

/// The `error` object of a refusal.
pub open spec fn error_object(code: Seq<char>, message: Seq<char>, data: Option<JsonV>) -> JsonV {
    let m = seq![("code"@, JsonV::Str(code)), ("message"@, JsonV::Str(message))];
    JsonV::Obj(
        match data {
            Some(d) => m.push(("data"@, d)),
            None => m,
        },
    )
}

/// A refusal: its code and message as text, and the same with its detail as an
/// object.
pub open spec fn refusal(code: Seq<char>, message: Seq<char>, data: Option<JsonV>) -> JsonV {
    JsonV::Obj(
        seq![
            (
                "content"@,
                JsonV::Arr(
                    seq![text_block("error ["@ + code + "]: "@ + message)],
                ),
            ),
            ("isError"@, JsonV::Bool(true)),
            (
                "structuredContent"@,
                JsonV::Obj(seq![("error"@, error_object(code, message, data))]),
            ),
        ],
    )
}

/// A refusal with its detail.
pub fn tool_error_with_data(code: &str, message: &str, data: &Option<Json>) -> (r: Json)
    ensures
        r@ == refusal(code@, message@, opt_json(*data)),
{
    let mut e = Fields::new();
    e.put("code", Json::string(code));
    e.put("message", Json::string(message));
    if let Some(d) = data {
        e.put("data", d.dup());
    }
    assert(e@ =~= error_object(code@, message@, opt_json(*data))->Obj_0);
    let error: Json = e.done();
    let mut s = Fields::new();
    s.put("error", error);
    assert(s@ =~= seq![("error"@, error_object(code@, message@, opt_json(*data)))]);
    let mut text: String = "error [".to_owned();
    text.append(code);
    text.append("]: ");
    text.append(message);
    let mut blocks: Vec<Json> = Vec::new();
    blocks.push(block(text.as_str()));
    assert(values(blocks@) =~= seq![text_block(text@)]);
    let mut f = Fields::new();
    f.put("content", Json::Arr(blocks));
    f.put("isError", Json::Bool(true));
    f.put("structuredContent", s.done());
    assert(f@ =~= refusal(code@, message@, opt_json(*data))->Obj_0);
    f.done()
}

/// A refusal without detail.
pub fn tool_error(code: &str, message: &str) -> (r: Json)
    ensures
        r@ == refusal(code@, message@, None),
{
    tool_error_with_data(code, message, &None)
}

/// The text from `i` on with every `from`, leftmost first, become `to`.
pub open spec fn replaced_from(s: Seq<char>, from: Seq<char>, to: Seq<char>, i: int) -> Seq<char>
    decreases s.len() - i,
{
    if i < 0 || i >= s.len() || from.len() == 0 {
        Seq::empty()
    } else if i + from.len() <= s.len() && s.subrange(i, i + from.len()) == from {
        to + replaced_from(s, from, to, i + from.len())
    } else {
        seq![s[i]] + replaced_from(s, from, to, i + 1)
    }
}

/// The text with every `from`, leftmost first, become `to`.
pub open spec fn replaced_all(s: Seq<char>, from: Seq<char>, to: Seq<char>) -> Seq<char> {
    replaced_from(s, from, to, 0)
}

/// The text with every `from`, leftmost first, become `to`.
pub fn replace_all(s: &str, from: &str, to: &str) -> (r: String)
    requires
        from@.len() > 0,
    ensures
        r@ == replaced_all(s@, from@, to@),
{
    let n: usize = s.unicode_len();
    let k: usize = from.unicode_len();
    let mut out: String = String::new();
    let mut i: usize = 0;
    assert(out@ + replaced_from(s@, from@, to@, 0) =~= replaced_all(s@, from@, to@));
    while i < n
        invariant
            n == s@.len(),
            k == from@.len(),
            k > 0,
            i <= n,
            out@ + replaced_from(s@, from@, to@, i as int) == replaced_all(s@, from@, to@),
        decreases n - i,
    {
        let ghost was = out@;
        if k <= n - i && same(s.substring_char(i, i + k), from) {
            let ghost rest = replaced_from(s@, from@, to@, i + k as int);
            assert(was + (to@ + rest) =~= was + to@ + rest);
            out.append(to);
            i += k;
        } else {
            let c: char = s.get_char(i);
            let ghost rest = replaced_from(s@, from@, to@, i as int + 1);
            assert(was + (seq![c] + rest) =~= was.push(c) + rest);
            out.push(c);
            i += 1;
        }
    }
    assert(out@ + Seq::<char>::empty() =~= out@);
    out
}

/// What a message of the engine says to a session: phrases that name what the
/// session cannot call name the tool instead. `cli_name` is the name in the
/// error's detail, as a shell would take it.
pub open spec fn surface_text(m: Seq<char>, cli_name: Option<Seq<char>>) -> Seq<char> {
    let a = replaced_all(m, REMEDY_REWRITES@[0].0@, REMEDY_REWRITES@[0].1@);
    let b = replaced_all(a, REMEDY_REWRITES@[1].0@, REMEDY_REWRITES@[1].1@);
    match cli_name {
        None => b,
        Some(name) => replaced_all(
            b,
            "(create it with `tasqx init "@ + name + "`)"@,
            "(create it first with the `tasqx_create_project` tool)"@,
        ),
    }
}

/// What a message of the engine says to a session.
pub fn mcp_surface_message(m: &str, cli_name: &Option<String>) -> (r: String)
    ensures
        r@ == surface_text(m@, opt_view(*cli_name)),
{
    proof {
        reveal_strlit("use task.start/stop/done for other transitions");
        reveal_strlit("read it with task.get on #");
        assert(REMEDY_REWRITES@[0].0@ == "use task.start/stop/done for other transitions"@);
        assert(REMEDY_REWRITES@[1].0@ == "read it with task.get on #"@);
    }
    let a: String = replace_all(m, REMEDY_REWRITES[0].0, REMEDY_REWRITES[0].1);
    let b: String = replace_all(a.as_str(), REMEDY_REWRITES[1].0, REMEDY_REWRITES[1].1);
    match cli_name {
        None => b,
        Some(name) => {
            let mut clause: String = "(create it with `tasqx init ".to_owned();
            clause.append(name.as_str());
            clause.append("`)");
            proof {
                reveal_strlit("`)");
                assert("`)"@.len() == 2);
            }
            replace_all(
                b.as_str(),
                clause.as_str(),
                "(create it first with the `tasqx_create_project` tool)",
            )
        },
    }
}

/// A reply that carries a result.
pub open spec fn result_reply(id: JsonV, result: JsonV) -> JsonV {
    JsonV::Obj(seq![("jsonrpc"@, JsonV::Str("2.0"@)), ("id"@, id), ("result"@, result)])
}

/// A reply that carries a result.
pub fn rpc_result(id: Json, result: Json) -> (r: Json)
    ensures
        r@ == result_reply(id@, result@),
{
    let mut f = Fields::new();
    f.put("jsonrpc", Json::string("2.0"));
    f.put("id", id);
    f.put("result", result);
    assert(f@ =~= result_reply(id@, result@)->Obj_0);
    f.done()
}

/// A reply that carries a protocol error.
pub open spec fn error_reply(id: JsonV, code: int, message: Seq<char>) -> JsonV {
    JsonV::Obj(
        seq![
            ("jsonrpc"@, JsonV::Str("2.0"@)),
            ("id"@, id),
            (
                "error"@,
                JsonV::Obj(
                    seq![("code"@, JsonV::Int(code)), ("message"@, JsonV::Str(message))],
                ),
            ),
        ],
    )
}

/// A reply that carries a protocol error.
pub fn rpc_error(id: Json, code: i64, message: &str) -> (r: Json)
    ensures
        r@ == error_reply(id@, code as int, message@),
{
    let mut e = Fields::new();
    e.put("code", Json::number(code));
    e.put("message", Json::string(message));
    assert(e@ =~= seq![("code"@, JsonV::Int(code as int)), ("message"@, JsonV::Str(message@))]);
    let mut f = Fields::new();
    f.put("jsonrpc", Json::string("2.0"));
    f.put("id", id);
    f.put("error", e.done());
    assert(f@ =~= error_reply(id@, code as int, message@)->Obj_0);
    f.done()
}

} // verus!
