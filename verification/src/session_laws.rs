//! What holds of every message a session reads and of every result it presents.

use crate::brief::tail_text;
use crate::brief::task_in;
use crate::budget::cut_lists_are_as_long_as_fits;
use crate::budget::finished_view;
use crate::budget::list_answer;
use crate::budget::list_of_answer;
use crate::budget::ListV;
use crate::card::Borders;
use crate::card::card_text;
use crate::catalog::tool_index;
use crate::catalog::tool_index_names;
use crate::catalog::TOOLS;
use crate::catalog::tools_spec;
use crate::catalog::VocabularyV;
use crate::catalog_laws::tools_are_distinct;
use crate::detail::annotations_text;
use crate::detail::byte_len;
use crate::detail::checks_text;
use crate::detail::detail_text;
use crate::detail::table_text;
use crate::detail::tokens_text;
use crate::edit::dropping_leaves_the_rest;
use crate::edit::set_is_found;
use crate::edit::setting_leaves_the_rest;
use crate::edit::with_key;
use crate::edit::without_key;
use crate::humanize::DetailV;
use crate::json::JsonV;
use crate::json_text::json_text;
use crate::prepare::PreparedV;
use crate::present::brief_view;
use crate::present::fitted_brief;
use crate::present::fitted_task;
use crate::present::plain_result;
use crate::present::presented;
use crate::present::PresentedV;
use crate::present::read_back_args;
use crate::present::said_members;
use crate::present::said_rows;
use crate::present::task_view;
use crate::replies::answer;
use crate::replies::error_reply;
use crate::replies::fenced;
use crate::replies::ok_text;
use crate::replies::ok_with_view;
use crate::replies::OMISSION_NOTICE;
use crate::replies::refusal;
use crate::replies::replaced_all;
use crate::replies::replaced_from;
use crate::replies::result_reply;
use crate::replies::text_block;
use crate::scope::listings;
use crate::scope::paragraphs;
use crate::scope::Scope;
use crate::session::call_refused;
use crate::session::CardView;
use crate::session::client_after;
use crate::session::handshake;
use crate::session::no_members;
use crate::session::ServerV;
use crate::session::step_of;
use crate::session::StepV;
use crate::text::begins;
use crate::text::joined;
use vstd::prelude::*;

verus! {

broadcast use {vstd::string::group_string_axioms, crate::value::lookup_push};

/// The method a message asks for, and the params it gives.
pub open spec fn asks(msg: JsonV, method: Seq<char>) -> bool {
    msg.get("method"@) == Some(JsonV::Str(method))
}

/// Whether a message asks for some method.
pub open spec fn names_a_method(msg: JsonV) -> bool {
    msg.get("method"@) matches Some(JsonV::Str(_))
}

/// What a message gives under `key` in its params.
pub open spec fn param(msg: JsonV, key: Seq<char>) -> Option<JsonV> {
    match msg.get("params"@) {
        Some(p) => p.get(key),
        None => None,
    }
}

/// Whether an answer is a refusal with this code.
pub open spec fn refuses(r: JsonV, code: Seq<char>) -> bool {
    &&& r.get("isError"@) == Some(JsonV::Bool(true))
    &&& r.get("structuredContent"@) matches Some(c) && (c.get("error"@) matches Some(e) && e.get(
        "code"@,
    ) == Some(JsonV::Str(code)))
}

/// Whether no tool has this name.
pub open spec fn no_tool(name: Seq<char>) -> bool {
    forall|k: int| 0 <= k < 29 ==> (#[trigger] TOOLS@[k]).0@ != name
}

proof fn first_tool_of(name: Seq<char>, i: int, k: int)
    requires
        0 <= i <= k < 29,
        TOOLS@[k].0@ == name,
    ensures
        tool_index(name, i) is Some,
    decreases k - i,
{
    if TOOLS@[i].0@ != name {
        first_tool_of(name, i + 1, k);
    }
}

proof fn reply_words_differ()
    ensures
        "jsonrpc"@ != "id"@,
        "jsonrpc"@ != "result"@,
        "jsonrpc"@ != "error"@,
        "id"@ != "result"@,
        "id"@ != "error"@,
        "result"@ != "error"@,
        "content"@ != "isError"@,
        "content"@ != "structuredContent"@,
        "isError"@ != "structuredContent"@,
        "code"@ != "message"@,
        "code"@ != "data"@,
        "message"@ != "data"@,
        "type"@ != "text"@,
{
    reveal_strlit("jsonrpc");
    reveal_strlit("id");
    reveal_strlit("result");
    reveal_strlit("error");
    reveal_strlit("content");
    reveal_strlit("isError");
    reveal_strlit("structuredContent");
    reveal_strlit("code");
    reveal_strlit("message");
    reveal_strlit("data");
    reveal_strlit("type");
    reveal_strlit("text");
    assert("jsonrpc"@.len() == 7 && "id"@.len() == 2 && "result"@.len() == 6);
    assert("error"@.len() == 5 && "content"@.len() == 7 && "isError"@.len() == 7);
    assert("structuredContent"@.len() == 17 && "code"@.len() == 4 && "message"@.len() == 7);
    assert("data"@.len() == 4 && "type"@.len() == 4 && "text"@.len() == 4);
    assert("content"@[0] == 'c' && "isError"@[0] == 'i');
    assert("code"@[0] == 'c' && "data"@[0] == 'd');
    assert("type"@[1] == 'y' && "text"@[1] == 'e');
}

proof fn replies_read(id: JsonV, r: JsonV, code: int, m: Seq<char>)
    ensures
        result_reply(id, r).get("jsonrpc"@) == Some(JsonV::Str("2.0"@)),
        result_reply(id, r).get("id"@) == Some(id),
        result_reply(id, r).get("result"@) == Some(r),
        result_reply(id, r).get("error"@) is None,
        error_reply(id, code, m).get("jsonrpc"@) == Some(JsonV::Str("2.0"@)),
        error_reply(id, code, m).get("id"@) == Some(id),
        error_reply(id, code, m).get("result"@) is None,
        error_reply(id, code, m).get("error"@) matches Some(e) && e.get("code"@) == Some(
            JsonV::Int(code),
        ) && e.get("message"@) == Some(JsonV::Str(m)),
{
    reply_words_differ();
    let a = result_reply(id, r)->Obj_0;
    assert(a =~= Seq::<(Seq<char>, JsonV)>::empty().push(a[0]).push(a[1]).push(a[2]));
    let b = error_reply(id, code, m)->Obj_0;
    assert(b =~= Seq::<(Seq<char>, JsonV)>::empty().push(b[0]).push(b[1]).push(b[2]));
    let c = b[2].1->Obj_0;
    assert(c =~= Seq::<(Seq<char>, JsonV)>::empty().push(c[0]).push(c[1]));
}

proof fn refusals_read(code: Seq<char>, m: Seq<char>, data: Option<JsonV>)
    ensures
        refusal(code, m, data).get("isError"@) == Some(JsonV::Bool(true)),
        refusal(code, m, data).get("structuredContent"@) matches Some(s) && s.get(
            "error"@,
        ) matches Some(e) && e.get("code"@) == Some(JsonV::Str(code)) && e.get("message"@) == Some(
            JsonV::Str(m),
        ) && e.get("data"@) == data,
        refusal(code, m, data).get("content"@) matches Some(JsonV::Arr(b)) && b.len() == 1
            && b[0].get("text"@) == Some(JsonV::Str("error ["@ + code + "]: "@ + m)),
{
    reply_words_differ();
    let a = refusal(code, m, data)->Obj_0;
    assert(a =~= Seq::<(Seq<char>, JsonV)>::empty().push(a[0]).push(a[1]).push(a[2]));
    let s = a[2].1->Obj_0;
    assert(s =~= Seq::<(Seq<char>, JsonV)>::empty().push(s[0]));
    let e = s[0].1->Obj_0;
    let two = Seq::<(Seq<char>, JsonV)>::empty().push(e[0]).push(e[1]);
    if data is Some {
        assert(e =~= two.push(e[2]));
    } else {
        assert(e =~= two);
    }
    let t = text_block("error ["@ + code + "]: "@ + m)->Obj_0;
    assert(t =~= Seq::<(Seq<char>, JsonV)>::empty().push(t[0]).push(t[1]));
}

/// A refusal says that it is one, and why: its code and its message, in words
/// and in fields, with its detail where it has one.
pub proof fn refusals_say_what_they_refuse(code: Seq<char>, m: Seq<char>, data: Option<JsonV>)
    ensures
        refusal(code, m, data).get("isError"@) == Some(JsonV::Bool(true)),
        refusal(code, m, data).get("structuredContent"@) matches Some(s) && s.get(
            "error"@,
        ) matches Some(e) && e.get("code"@) == Some(JsonV::Str(code)) && e.get("message"@) == Some(
            JsonV::Str(m),
        ) && e.get("data"@) == data,
        refusal(code, m, data).get("content"@) matches Some(JsonV::Arr(b)) && b.len() == 1
            && b[0].get("text"@) == Some(JsonV::Str("error ["@ + code + "]: "@ + m)),
{
    refusals_read(code, m, data);
}

/// Every request is answered once, under its own id: with a reply that carries
/// a result or an error, never both, or by a call that keeps the id.
pub proof fn requests_are_answered_under_their_id(s: ServerV, v: VocabularyV, msg: JsonV)
    requires
        msg.get("id"@) is Some,
    ensures
        match step_of(s, v, msg) {
            StepV::Silent => false,
            StepV::Reply(r) => {
                &&& r.get("id"@) == msg.get("id"@)
                &&& r.get("jsonrpc"@) == Some(JsonV::Str("2.0"@))
                &&& (r.get("result"@) is Some) != (r.get("error"@) is Some)
            },
            StepV::Dispatch(id, _, params) => Some(id) == msg.get("id"@) && Some(params)
                == msg.get("params"@),
        },
{
    let id = msg.get("id"@)->0;
    let params = match msg.get("params"@) {
        Some(p) => p,
        None => no_members(),
    };
    replies_read(id, JsonV::Null, -32600, "Invalid Request: missing method"@);
    replies_read(id, handshake(s, params), 0, ""@);
    replies_read(id, no_members(), 0, ""@);
    replies_read(
        id,
        JsonV::Obj(seq![("tools"@, JsonV::Arr(listings(s.scope, tools_spec(v, 29), 29)))]),
        0,
        ""@,
    );
    if call_refused(s.scope, params) is Some {
        replies_read(id, call_refused(s.scope, params)->0, 0, ""@);
    }
    if let Some(m) = msg.text("method"@) {
        replies_read(id, JsonV::Null, -32601, "Method not found: "@ + m);
    }
}

/// A message is an error of the protocol exactly where it names no method, or
/// one that the session does not know; the code tells which.
pub proof fn unknown_methods_are_errors(s: ServerV, v: VocabularyV, msg: JsonV)
    requires
        msg.get("id"@) is Some,
    ensures
        ({
            let known = asks(msg, "initialize"@) || asks(msg, "ping"@) || asks(msg, "tools/list"@)
                || asks(msg, "tools/call"@);
            let code = if names_a_method(msg) {
                -32601int
            } else {
                -32600int
            };
            match step_of(s, v, msg) {
                StepV::Reply(r) => {
                    &&& r.get("error"@) is Some <==> !known
                    &&& r.get("error"@) matches Some(e) ==> e.get("code"@) == Some(JsonV::Int(code))
                },
                _ => known,
            }
        }),
{
    let id = msg.get("id"@)->0;
    let params = match msg.get("params"@) {
        Some(p) => p,
        None => no_members(),
    };
    replies_read(id, JsonV::Null, -32600, "Invalid Request: missing method"@);
    replies_read(id, handshake(s, params), 0, ""@);
    replies_read(id, no_members(), 0, ""@);
    replies_read(
        id,
        JsonV::Obj(seq![("tools"@, JsonV::Arr(listings(s.scope, tools_spec(v, 29), 29)))]),
        0,
        ""@,
    );
    if call_refused(s.scope, params) is Some {
        replies_read(id, call_refused(s.scope, params)->0, 0, ""@);
    }
    if let Some(m) = msg.text("method"@) {
        replies_read(id, JsonV::Null, -32601, "Method not found: "@ + m);
    }
}

proof fn methods_of_the_protocol_differ()
    ensures
        "initialize"@ != "ping"@,
        "initialize"@ != "tools/list"@,
        "initialize"@ != "tools/call"@,
        "ping"@ != "tools/list"@,
        "ping"@ != "tools/call"@,
        "tools/list"@ != "tools/call"@,
{
    reveal_strlit("initialize");
    reveal_strlit("ping");
    reveal_strlit("tools/list");
    reveal_strlit("tools/call");
    assert("initialize"@.len() == 10 && "ping"@.len() == 4);
    assert("tools/list"@.len() == 10 && "tools/call"@.len() == 10);
    assert("initialize"@[0] == 'i' && "tools/list"@[0] == 't' && "tools/call"@[0] == 't');
    assert("tools/list"@[6] == 'l' && "tools/call"@[6] == 'c');
}

/// A call reaches the engine exactly where it names a tool, and one that the
/// scope permits: every tool in a session that may write, and otherwise those
/// that only read. The tool that is called is the one that was named, and a
/// call that is refused is answered as a refusal: unknown tools are not found,
/// anything else is a bad request.
pub proof fn calls_reach_the_tool_they_name(s: ServerV, v: VocabularyV, msg: JsonV)
    requires
        msg.get("id"@) is Some,
        asks(msg, "tools/call"@),
    ensures
        match step_of(s, v, msg) {
            StepV::Silent => false,
            StepV::Dispatch(_, tool, _) => {
                &&& 0 <= tool < 29
                &&& param(msg, "name"@) == Some(JsonV::Str(TOOLS@[tool].0@))
                &&& s.scope == Scope::Read ==> !TOOLS@[tool].2
            },
            StepV::Reply(r) => {
                &&& r.get("result"@) matches Some(no) && refuses(
                    no,
                    if param(msg, "name"@) matches Some(JsonV::Str(name)) && no_tool(name) {
                        "not_found"@
                    } else {
                        "bad_request"@
                    },
                )
                &&& forall|tool: int|
                    0 <= tool < 29 && param(msg, "name"@) == Some(
                        JsonV::Str((#[trigger] TOOLS@[tool]).0@),
                    ) ==> TOOLS@[tool].2 && s.scope == Scope::Read
            },
        },
{
    methods_of_the_protocol_differ();
    let id = msg.get("id"@)->0;
    let params = match msg.get("params"@) {
        Some(p) => p,
        None => no_members(),
    };
    if let Some(name) = params.text("name"@) {
        tool_index_names(name, 0);
        assert forall|tool: int|
            0 <= tool < 29 && name == (#[trigger] TOOLS@[tool]).0@ implies tool_index(name, 0)
            == Some(tool) by {
            first_tool_of(name, 0, tool);
            let k = tool_index(name, 0)->0;
            tools_are_distinct(k, tool);
        }
        if tool_index(name, 0) is None {
            assert forall|k: int| 0 <= k < 29 implies (#[trigger] TOOLS@[k]).0@ != name by {
                if TOOLS@[k].0@ == name {
                    first_tool_of(name, 0, k);
                }
            }
            assert(no_tool(name));
        } else {
            assert(!no_tool(name));
        }
    }
    if let Some(no) = call_refused(s.scope, params) {
        replies_read(id, no, 0, ""@);
        refusals_read("bad_request"@, "tools/call is missing the tool `name`"@, None);
        if let Some(name) = params.text("name"@) {
            refusals_read("not_found"@, "unknown tool: "@ + name, None);
            refusals_read(
                "bad_request"@,
                "tool `"@ + name
                    + "` requires write scope, but this MCP server is running read-only. This cannot be changed from a tool call: the operator must relaunch the server as `tasqx mcp serve --scope write`."@,
                None,
            );
        }
    }
}

/// Who is calling is what the last handshake said: a handshake that says who
/// is remembered, and no other message changes it.
pub proof fn the_last_handshake_names_the_client(s: ServerV, msg: JsonV)
    ensures
        msg.get("id"@) is Some && asks(msg, "initialize"@) && param(msg, "clientInfo"@) is Some
            ==> client_after(s, msg) == param(msg, "clientInfo"@),
        !(msg.get("id"@) is Some && asks(msg, "initialize"@) && param(msg, "clientInfo"@) is Some)
            ==> client_after(s, msg) == s.client_info,
{
}

/// A session speaks the revision that the client asks for where it is one of
/// the three it knows, and otherwise the latest of them.
pub proof fn sessions_speak_a_revision_they_know(s: ServerV, v: VocabularyV, msg: JsonV)
    requires
        msg.get("id"@) is Some,
        asks(msg, "initialize"@),
    ensures
        ({
            let asked = param(msg, "protocolVersion"@);
            let latest = JsonV::Str("2025-06-18"@);
            let known = asked == Some(latest) || asked == Some(JsonV::Str("2025-03-26"@)) || asked
                == Some(JsonV::Str("2024-11-05"@));
            step_of(s, v, msg) matches StepV::Reply(r) && (r.get("result"@) matches Some(h)
                && h.get("protocolVersion"@) == Some(
                if known {
                    asked->0
                } else {
                    latest
                },
            ) && h.get("instructions"@) == Some(
                JsonV::Str(joined(paragraphs(s.scope), "\n\n"@)),
            ) && (h.get("capabilities"@) matches Some(c) && c.get("tools"@) is Some))
        }),
{
    methods_of_the_protocol_differ();
    let id = msg.get("id"@)->0;
    let params = match msg.get("params"@) {
        Some(p) => p,
        None => no_members(),
    };
    let h = handshake(s, params);
    replies_read(id, h, 0, ""@);
    let m = h->Obj_0;
    assert(m =~= Seq::<(Seq<char>, JsonV)>::empty().push(m[0]).push(m[1]).push(m[2]).push(m[3]));
    let c = m[1].1->Obj_0;
    assert(c =~= Seq::<(Seq<char>, JsonV)>::empty().push(c[0]));
    reveal_strlit("protocolVersion");
    reveal_strlit("capabilities");
    reveal_strlit("serverInfo");
    reveal_strlit("instructions");
    assert("protocolVersion"@.len() == 15 && "capabilities"@.len() == 12);
    assert("serverInfo"@.len() == 10 && "instructions"@.len() == 12);
    assert("capabilities"@[0] == 'c' && "instructions"@[0] == 'i');
}

/// A ping is answered with nothing, and a listing with the tools the session's
/// scope is offered.
pub proof fn pings_and_listings_are_answered(s: ServerV, v: VocabularyV, msg: JsonV)
    requires
        msg.get("id"@) is Some,
    ensures
        asks(msg, "ping"@) ==> (step_of(s, v, msg) matches StepV::Reply(r) && r.get("result"@)
            == Some(JsonV::Obj(Seq::empty()))),
        asks(msg, "tools/list"@) ==> (step_of(s, v, msg) matches StepV::Reply(r) && (r.get(
            "result"@,
        ) matches Some(l) && l.get("tools"@) == Some(
            JsonV::Arr(listings(s.scope, tools_spec(v, 29), 29)),
        ))),
{
    methods_of_the_protocol_differ();
    let id = msg.get("id"@)->0;
    replies_read(id, no_members(), 0, ""@);
    let l = JsonV::Obj(seq![("tools"@, JsonV::Arr(listings(s.scope, tools_spec(v, 29), 29)))]);
    replies_read(id, l, 0, ""@);
    let m = l->Obj_0;
    assert(m =~= Seq::<(Seq<char>, JsonV)>::empty().push(m[0]));
}

proof fn said_members_are(m: Seq<(Seq<char>, JsonV)>)
    ensures
        forall|k: int|
            0 <= k < said_members(m).len() ==> m.contains(#[trigger] said_members(m)[k])
                && !(said_members(m)[k].1 is Null),
        forall|k: int|
            0 <= k < m.len() && !((#[trigger] m[k]).1 is Null) ==> said_members(m).contains(m[k]),
        said_members(m).len() <= m.len(),
    decreases m.len(),
{
    if m.len() > 0 {
        let d = m.drop_last();
        let q = said_members(d);
        let r = said_members(m);
        said_members_are(d);
        assert forall|k: int| 0 <= k < r.len() implies m.contains(#[trigger] r[k]) && !(
        r[k].1 is Null) by {
            if k < q.len() {
                assert(r[k] == q[k]);
                let j = choose|j: int| 0 <= j < d.len() && d[j] == q[k];
                assert(m[j] == r[k]);
            } else {
                assert(m[m.len() - 1] == r[k]);
            }
        }
        assert forall|k: int| 0 <= k < m.len() && !((#[trigger] m[k]).1 is Null) implies r.contains(
            m[k],
        ) by {
            if k < d.len() {
                assert(d[k] == m[k]);
                assert(q.contains(m[k]));
                let j = choose|j: int| 0 <= j < q.len() && q[j] == m[k];
                assert(r[j] == m[k]);
            } else {
                assert(r[q.len() as int] == m[k]);
            }
        }
    }
}

/// A listed row says exactly the members of the task's row that are not null.
pub open spec fn says_all_but_nulls(row: JsonV, of: JsonV) -> bool {
    match of {
        JsonV::Obj(m) => row matches JsonV::Obj(n) && n.len() <= m.len() && (forall|k: int|
            0 <= k < n.len() ==> m.contains(#[trigger] n[k]) && !(n[k].1 is Null)) && (forall|
            k: int,
        |
            0 <= k < m.len() && !((#[trigger] m[k]).1 is Null) ==> n.contains(m[k])),
        _ => row == of,
    }
}

proof fn said_rows_are(v: Seq<JsonV>, n: nat)
    requires
        n <= v.len(),
    ensures
        said_rows(v, n).len() == n,
        forall|k: int| 0 <= k < n ==> says_all_but_nulls(#[trigger] said_rows(v, n)[k], v[k]),
    decreases n,
{
    if n > 0 {
        said_rows_are(v, (n - 1) as nat);
        if let JsonV::Obj(m) = v[n - 1] {
            said_members_are(m);
        }
    }
}

/// A list whose fields the session chose keeps every row and, in each, what is
/// not null; what is null is left out, and nothing beside the rows changes. A
/// list whose fields the caller named is left as it is.
pub proof fn lists_lose_nothing_but_nulls(
    method: Seq<char>,
    p: PreparedV,
    result: JsonV,
    key: Seq<char>,
)
    requires
        method != "annotation.add"@ || p.include_body,
    ensures
        ({
            let r = plain_result(method, p, result);
            &&& !p.fields_defaulted_by_us ==> r == result
            &&& key != "tasks"@ ==> r.get(key) == result.get(key)
            &&& p.fields_defaulted_by_us ==> (result.get("tasks"@) matches Some(JsonV::Arr(rows))
                ==> (r.get("tasks"@) matches Some(JsonV::Arr(now)) && now.len() == rows.len()
                && forall|k: int|
                0 <= k < rows.len() ==> says_all_but_nulls(#[trigger] now[k], rows[k])))
        }),
{
    if let Some(rows) = result.list("tasks"@) {
        let now = JsonV::Arr(said_rows(rows, rows.len()));
        said_rows_are(rows, rows.len());
        if result is Obj {
            set_is_found(result, "tasks"@, now);
            if key != "tasks"@ {
                setting_leaves_the_rest(result, "tasks"@, now, key);
            }
        }
    }
}

/// A note whose echo was declined comes back with the size of its body in
/// bytes in place of the body, and otherwise as it is; where the echo was not
/// declined, and for every other call, nothing is taken out of the answer.
pub proof fn declined_echoes_give_the_size(
    method: Seq<char>,
    p: PreparedV,
    result: JsonV,
    a: JsonV,
    body: Seq<char>,
    key: Seq<char>,
)
    requires
        !p.fields_defaulted_by_us,
        result is Obj,
        a is Obj,
        result.get("annotation"@) == Some(a),
        a.get("body"@) == Some(JsonV::Str(body)),
    ensures
        ({
            let r = plain_result(method, p, result);
            if method == "annotation.add"@ && !p.include_body {
                &&& r.get("annotation"@) matches Some(now) && {
                    &&& now.get("body"@) is None
                    &&& now.get("body_bytes"@) == Some(JsonV::Int(byte_len(body) as int))
                    &&& key != "body"@ && key != "body_bytes"@ ==> now.get(key) == a.get(key)
                }
                &&& key != "annotation"@ ==> r.get(key) == result.get(key)
            } else {
                r == result
            }
        }),
{
    reveal_strlit("body");
    reveal_strlit("body_bytes");
    assert("body"@.len() == 4 && "body_bytes"@.len() == 10);
    let bare = without_key(a, "body"@);
    let size = JsonV::Int(byte_len(body) as int);
    let now = with_key(bare, "body_bytes"@, size);
    dropping_leaves_the_rest(a, "body"@, key);
    set_is_found(bare, "body_bytes"@, size);
    setting_leaves_the_rest(bare, "body_bytes"@, size, "body"@);
    if key != "body_bytes"@ {
        setting_leaves_the_rest(bare, "body_bytes"@, size, key);
    }
    set_is_found(result, "annotation"@, now);
    if key != "annotation"@ {
        setting_leaves_the_rest(result, "annotation"@, now, key);
    }
}

/// A completed task that is shown as a card is read back by its own number,
/// with the page and the cap of an ordinary read; only a completion is.
pub proof fn only_completions_are_read_back(
    tool: int,
    p: PreparedV,
    result: JsonV,
    o: DetailV,
    memory_limit: u64,
)
    requires
        0 <= tool < 29,
    ensures
        ({
            let r = presented(tool, p, result, o, memory_limit);
            &&& r is ReadBack <==> TOOLS@[tool].1@ == "task.done"@ && p.view == CardView::Card
            &&& r matches PresentedV::ReadBack(args) ==> {
                &&& result.get("short_id"@) is Some ==> args.get("ref"@) == result.get("short_id"@)
                &&& args.get("annotations_limit"@) == Some(JsonV::Int(20))
                &&& args.get("max_body_bytes"@) == Some(JsonV::Int(16_384))
            }
        }),
{
    reveal_strlit("ref");
    reveal_strlit("annotations_limit");
    reveal_strlit("max_body_bytes");
    assert("ref"@.len() == 3 && "annotations_limit"@.len() == 17 && "max_body_bytes"@.len() == 14);
    let m = read_back_args(result)->Obj_0;
    assert(m =~= Seq::<(Seq<char>, JsonV)>::empty().push(m[0]).push(m[1]).push(m[2]));
}

/// The text of a block of an answer.
pub open spec fn block_text(r: JsonV, k: int) -> Option<Seq<char>> {
    match r.get("content"@) {
        Some(JsonV::Arr(b)) => if 0 <= k < b.len() {
            b[k].text("text"@)
        } else {
            None
        },
        _ => None,
    }
}

/// How many blocks an answer has.
pub open spec fn blocks(r: JsonV) -> int {
    match r.get("content"@) {
        Some(JsonV::Arr(b)) => b.len() as int,
        _ => 0,
    }
}

proof fn answers_read(view: Seq<char>, v: JsonV)
    ensures
        ok_text(view).get("isError"@) == Some(JsonV::Bool(false)),
        blocks(ok_text(view)) == 1,
        block_text(ok_text(view), 0) == Some(view),
        ok_with_view(view, v).get("isError"@) == Some(JsonV::Bool(false)),
        view.len() > 0 ==> blocks(ok_with_view(view, v)) == 2 && block_text(
            ok_with_view(view, v),
            0,
        ) == Some(view) && block_text(ok_with_view(view, v), 1) == Some(json_text(v)),
        view.len() == 0 ==> blocks(ok_with_view(view, v)) == 1 && block_text(
            ok_with_view(view, v),
            0,
        ) == Some(json_text(v)),
{
    reply_words_differ();
    answer_reads(seq![text_block(view)]);
    answer_reads(seq![text_block(json_text(v))]);
    answer_reads(seq![text_block(view), text_block(json_text(v))]);
    block_reads(view);
    block_reads(json_text(v));
}

proof fn answer_reads(b: Seq<JsonV>)
    ensures
        answer(b).get("isError"@) == Some(JsonV::Bool(false)),
        answer(b).get("content"@) == Some(JsonV::Arr(b)),
{
    reply_words_differ();
    let m = answer(b)->Obj_0;
    assert(m =~= Seq::<(Seq<char>, JsonV)>::empty().push(m[0]).push(m[1]));
}

proof fn block_reads(t: Seq<char>)
    ensures
        text_block(t).text("text"@) == Some(t),
{
    reply_words_differ();
    let m = text_block(t)->Obj_0;
    assert(m =~= Seq::<(Seq<char>, JsonV)>::empty().push(m[0]).push(m[1]));
}

/// A task that was read is answered with its view, and beside it with the
/// result as JSON exactly where the caller asked for that and both fit the
/// budget. A view that does not fit is not sent while there is a smaller page
/// to try, and the search goes from the page that was read down to one note.
pub proof fn tasks_are_answered_within_the_budget(
    v: JsonV,
    args: JsonV,
    view: Seq<char>,
    json: bool,
)
    requires
        view.len() > 0,
    ensures
        ({
            let page = match args.count("annotations_limit"@) {
                Some(n) => n,
                None => 20,
            };
            let together = byte_len(view) + byte_len(json_text(v)) <= 24_576;
            match fitted_task(v, args, view, json) {
                PresentedV::Done(r) => {
                    &&& r.get("isError"@) == Some(JsonV::Bool(false))
                    &&& blocks(r) == 2 <==> json && together
                    &&& blocks(r) == 2 ==> block_text(r, 0) == Some(view) && block_text(r, 1)
                        == Some(json_text(v))
                    &&& blocks(r) != 2 ==> blocks(r) == 1 && (block_text(r, 0) matches Some(t) && (
                    byte_len(t) <= 24_576 || page == 0) && t == if json {
                        view + OMISSION_NOTICE@
                    } else {
                        view
                    })
                },
                PresentedV::Search(s) => {
                    &&& page > 0
                    &&& s.key == "annotations_limit"@
                    &&& s.lo == 1
                    &&& s.hi == page
                    &&& s.view == view
                    &&& byte_len(view) > 24_576 || json
                },
                PresentedV::ReadBack(_) => false,
            }
        }),
{
    answers_read(view, v);
    answers_read(finished_view(view, json), v);
}

/// A brief whose page of memory the caller named is answered as it is; any
/// other is answered where it fits, and otherwise searched for, from the page
/// that was read down to none.
pub proof fn briefs_are_answered_as_asked(
    v: JsonV,
    args: JsonV,
    view: Seq<char>,
    json: bool,
    limit: u64,
)
    requires
        view.len() > 0,
    ensures
        ({
            let named = args.get("memory_limit"@) is Some && !(args.get("memory_limit"@)->0
                is Null);
            let together = byte_len(view) + byte_len(json_text(v)) <= 24_576;
            match fitted_brief(v, args, view, json, limit) {
                PresentedV::Done(r) => {
                    &&& r.get("isError"@) == Some(JsonV::Bool(false))
                    &&& blocks(r) == 2 <==> json && (named || together)
                    &&& blocks(r) == 2 ==> block_text(r, 0) == Some(view) && block_text(r, 1)
                        == Some(json_text(v))
                    &&& blocks(r) != 2 ==> blocks(r) == 1 && (block_text(r, 0) matches Some(t) && t
                        == if json {
                        view + OMISSION_NOTICE@
                    } else {
                        view
                    } && (named || byte_len(t) <= 24_576))
                },
                PresentedV::Search(s) => {
                    &&& !named
                    &&& s.key == "memory_limit"@
                    &&& s.lo == 0
                    &&& s.hi == limit
                    &&& s.view == view
                    &&& byte_len(view) > 24_576 || json
                },
                PresentedV::ReadBack(_) => false,
            }
        }),
{
    answers_read(view, v);
    answers_read(finished_view(view, json), v);
}

/// A list that is cut is the first of its rows, and says how many they are, how
/// many there are in all, and where the next page begins where there is one.
#[verifier::rlimit(40)]
pub proof fn cut_lists_say_where_they_go_on(l: ListV, k: int)
    requires
        0 <= k <= l.rows.len(),
    ensures
        l.cut(k).get("count"@) == Some(JsonV::Int(k)),
        l.cut(k).get("total"@) == Some(JsonV::Int(l.total)),
        l.cut(k).get("tasks"@) == Some(JsonV::Arr(l.rows.take(k))),
        l.cut(k).get("store_empty"@) == Some(l.store_empty),
        l.offset + k < l.total ==> l.cut(k).get("next_offset"@) == Some(JsonV::Int(l.offset + k)),
        l.offset + k >= l.total ==> l.cut(k).get("next_offset"@) == Some(JsonV::Null),
{
    let m = l.cut(k)->Obj_0;
    assert(m =~= Seq::<(Seq<char>, JsonV)>::empty().push(m[0]).push(m[1]).push(m[2]).push(
        m[3],
    ).push(m[4]));
    reveal_strlit("count");
    reveal_strlit("total");
    reveal_strlit("next_offset");
    reveal_strlit("store_empty");
    reveal_strlit("tasks");
    assert("count"@.len() == 5 && "total"@.len() == 5 && "next_offset"@.len() == 11);
    assert("store_empty"@.len() == 11 && "tasks"@.len() == 5);
    assert("count"@[0] == 'c' && "total"@[1] == 'o' && "tasks"@[1] == 'a' && "count"@[1] == 'o');
    assert("total"@[0] == 't');
    assert("next_offset"@[0] == 'n' && "store_empty"@[0] == 's');
}

/// A list that the session paged is answered whole where it fits the budget;
/// otherwise it is cut to its first rows, at least one of them.
pub proof fn paged_lists_are_whole_where_they_fit(first: JsonV, args: JsonV)
    ensures
        byte_len(json_text(first)) <= 24_576 ==> block_text(list_answer(first, args), 0) == Some(
            json_text(first),
        ),
        byte_len(json_text(first)) > 24_576 ==> (first.get("tasks"@) matches Some(
            JsonV::Arr(rows),
        ) ==> rows.len() == 0 || exists|k: int|
            1 <= k <= rows.len() && block_text(list_answer(first, args), 0) == Some(
                json_text(#[trigger] list_of_answer(first, args).cut(k)),
            )),
{
    answers_read(json_text(first), first);
    let l = list_of_answer(first, args);
    if let Some(JsonV::Arr(rows)) = first.get("tasks"@) {
        if rows.len() > 0 {
            let k = l.rows_that_fit(1, rows.len() as int);
            assert(l.rows == rows);
            cut_lists_are_as_long_as_fits(l);
            answers_read(json_text(l.cut(k)), first);
        }
    }
}

/// The methods that read and change nothing.
pub open spec fn only_reads(method: Seq<char>) -> bool {
    ||| method == "task.list"@
    ||| method == "task.get"@
    ||| method == "task.brief"@
    ||| method == "report.summary"@
    ||| method == "report.outcomes"@
    ||| method == "project.list"@
    ||| method == "memory.search"@
    ||| method == "memory.list"@
    ||| method == "memory.get"@
}

/// The methods that can take away what the store holds.
pub open spec fn takes_away(method: Seq<char>) -> bool {
    ||| method == "task.modify"@
    ||| method == "task.done"@
    ||| method == "task.cancel"@
    ||| method == "task.reopen"@
    ||| method == "tag.remove"@
    ||| method == "check.set"@
    ||| method == "check.remove"@
    ||| method == "annotation.remove"@
    ||| method == "dependency.remove"@
    ||| method == "memory.update"@
    ||| method == "memory.remove"@
}

/// A tool is marked as one that writes unless its method only reads, and as one
/// that destroys exactly where its method can take something away.
pub proof fn tools_are_marked_by_what_they_do(i: int)
    requires
        0 <= i < 29,
    ensures
        TOOLS@[i].2 <==> !only_reads(TOOLS@[i].1@),
        TOOLS@[i].3 <==> takes_away(TOOLS@[i].1@),
{
    let m = TOOLS@[i].1@;
    assert(TOOLS@[0].1@ == "task.list"@ && TOOLS@[0].2 == false && TOOLS@[0].3 == false);
    assert(TOOLS@[1].1@ == "task.get"@ && TOOLS@[1].2 == false && TOOLS@[1].3 == false);
    assert(TOOLS@[2].1@ == "task.brief"@ && TOOLS@[2].2 == false && TOOLS@[2].3 == false);
    assert(TOOLS@[3].1@ == "report.summary"@ && TOOLS@[3].2 == false && TOOLS@[3].3 == false);
    assert(TOOLS@[4].1@ == "report.outcomes"@ && TOOLS@[4].2 == false && TOOLS@[4].3 == false);
    assert(TOOLS@[5].1@ == "project.list"@ && TOOLS@[5].2 == false && TOOLS@[5].3 == false);
    assert(TOOLS@[6].1@ == "memory.search"@ && TOOLS@[6].2 == false && TOOLS@[6].3 == false);
    assert(TOOLS@[7].1@ == "memory.list"@ && TOOLS@[7].2 == false && TOOLS@[7].3 == false);
    assert(TOOLS@[8].1@ == "memory.get"@ && TOOLS@[8].2 == false && TOOLS@[8].3 == false);
    assert(TOOLS@[9].1@ == "task.add"@ && TOOLS@[9].2 == true && TOOLS@[9].3 == false);
    assert(TOOLS@[10].1@ == "task.modify"@ && TOOLS@[10].2 == true && TOOLS@[10].3 == true);
    assert(TOOLS@[11].1@ == "task.done"@ && TOOLS@[11].2 == true && TOOLS@[11].3 == true);
    assert(TOOLS@[12].1@ == "task.cancel"@ && TOOLS@[12].2 == true && TOOLS@[12].3 == true);
    assert(TOOLS@[13].1@ == "task.reopen"@ && TOOLS@[13].2 == true && TOOLS@[13].3 == true);
    assert(TOOLS@[14].1@ == "task.start"@ && TOOLS@[14].2 == true && TOOLS@[14].3 == false);
    assert(TOOLS@[15].1@ == "task.stop"@ && TOOLS@[15].2 == true && TOOLS@[15].3 == false);
    assert(TOOLS@[16].1@ == "tag.add"@ && TOOLS@[16].2 == true && TOOLS@[16].3 == false);
    assert(TOOLS@[17].1@ == "tag.remove"@ && TOOLS@[17].2 == true && TOOLS@[17].3 == true);
    assert(TOOLS@[18].1@ == "check.add"@ && TOOLS@[18].2 == true && TOOLS@[18].3 == false);
    assert(TOOLS@[19].1@ == "check.set"@ && TOOLS@[19].2 == true && TOOLS@[19].3 == true);
    assert(TOOLS@[20].1@ == "check.remove"@ && TOOLS@[20].2 == true && TOOLS@[20].3 == true);
    assert(TOOLS@[21].1@ == "annotation.add"@ && TOOLS@[21].2 == true && TOOLS@[21].3 == false);
    assert(TOOLS@[22].1@ == "annotation.remove"@ && TOOLS@[22].2 == true && TOOLS@[22].3 == true);
    assert(TOOLS@[23].1@ == "dependency.add"@ && TOOLS@[23].2 == true && TOOLS@[23].3 == false);
    assert(TOOLS@[24].1@ == "dependency.remove"@ && TOOLS@[24].2 == true && TOOLS@[24].3 == true);
    assert(TOOLS@[25].1@ == "memory.add"@ && TOOLS@[25].2 == true && TOOLS@[25].3 == false);
    assert(TOOLS@[26].1@ == "memory.update"@ && TOOLS@[26].2 == true && TOOLS@[26].3 == true);
    assert(TOOLS@[27].1@ == "memory.remove"@ && TOOLS@[27].2 == true && TOOLS@[27].3 == true);
    assert(TOOLS@[28].1@ == "project.create"@ && TOOLS@[28].2 == true && TOOLS@[28].3 == false);
    tools_are_distinct(i, 0);
    tools_are_distinct(i, 1);
    tools_are_distinct(i, 2);
    tools_are_distinct(i, 3);
    tools_are_distinct(i, 4);
    tools_are_distinct(i, 5);
    tools_are_distinct(i, 6);
    tools_are_distinct(i, 7);
    tools_are_distinct(i, 8);
    tools_are_distinct(i, 9);
    tools_are_distinct(i, 10);
    tools_are_distinct(i, 11);
    tools_are_distinct(i, 12);
    tools_are_distinct(i, 13);
    tools_are_distinct(i, 14);
    tools_are_distinct(i, 15);
    tools_are_distinct(i, 16);
    tools_are_distinct(i, 17);
    tools_are_distinct(i, 18);
    tools_are_distinct(i, 19);
    tools_are_distinct(i, 20);
    tools_are_distinct(i, 21);
    tools_are_distinct(i, 22);
    tools_are_distinct(i, 23);
    tools_are_distinct(i, 24);
    tools_are_distinct(i, 25);
    tools_are_distinct(i, 26);
    tools_are_distinct(i, 27);
    tools_are_distinct(i, 28);
}

/// A task is answered with its tables unless its card was asked for, and with
/// its card where it was: what a reader sees first tells them apart. So is a
/// brief.
pub proof fn views_are_the_ones_asked_for(v: JsonV, o: DetailV)
    ensures
        begins(task_view(v, CardView::Markdown, o), "## #"@),
        begins(brief_view(v, CardView::Markdown, o), "## #"@),
        begins(task_view(v, CardView::Card, o), "```text\n"@),
        begins(brief_view(v, CardView::Card, o), "```text\n"@),
{
    detail_opens_with_its_heading(v, o);
    detail_opens_with_its_heading(task_in(v), o);
    sums_begin(detail_text(task_in(v), o), tail_text(v), "## #"@);
    let card = card_text(v, o, Borders::Unicode);
    fences_open(card);
    sums_begin(fenced(card), tail_text(v), "```text\n"@);
}

proof fn sums_begin(a: Seq<char>, b: Seq<char>, p: Seq<char>)
    requires
        begins(a, p),
    ensures
        begins(a + b, p),
{
    assert((a + b).take(p.len() as int) =~= a.take(p.len() as int));
}

proof fn fences_open(s: Seq<char>)
    ensures
        begins(fenced(s), "```text\n"@),
{
    assert(fenced(s).take("```text\n"@.len() as int) =~= "```text\n"@);
}

proof fn detail_opens_with_its_heading(v: JsonV, o: DetailV)
    ensures
        begins(detail_text(v, o), "## #"@),
{
    table_opens_with_its_heading(v, o);
    let t = table_text(v, o);
    sums_begin(t, checks_text(v), "## #"@);
    sums_begin(t + checks_text(v), tokens_text(v), "## #"@);
    sums_begin(t + checks_text(v) + tokens_text(v), annotations_text(v, o), "## #"@);
}

#[verifier::rlimit(40)]
proof fn table_opens_with_its_heading(v: JsonV, o: DetailV)
    ensures
        begins(table_text(v, o), "## #"@),
{
    reveal_strlit("## #");
    assert(table_text(v, o).take(4) =~= "## #"@);
}

/// Whether a text holds another from `i` on.
pub open spec fn occurs_from(s: Seq<char>, part: Seq<char>, i: int) -> bool {
    exists|k: int| i <= k && k + part.len() <= s.len() && #[trigger] s.subrange(
        k,
        k + part.len(),
    ) == part
}

/// A text in which a phrase does not occur is left as it is, and where it occurs
/// once, the part before it and the part behind it stay around what takes its
/// place.
pub proof fn only_the_phrase_is_replaced(
    a: Seq<char>,
    from: Seq<char>,
    b: Seq<char>,
    to: Seq<char>,
)
    requires
        from.len() > 0,
        !occurs_from(b, from, 0),
        forall|k: int|
            0 <= k < a.len() ==> (#[trigger] (a + from + b).subrange(k, k + from.len())) != from,
    ensures
        replaced_all(b, from, to) == b,
        replaced_all(a + from + b, from, to) == a + to + b,
{
    assert(b.skip(0) =~= b);
    without_it_nothing_changes(b, from, to, 0);
    let s = a + from + b;
    let n = a.len() as int;
    up_to_it_nothing_changes(s, from, to, n, n);
    assert(s.take(n) =~= a);
    assert(s.subrange(n, n + from.len()) =~= from);
    let m = n + from.len();
    assert(s.skip(m) =~= b);
    assert(!occurs_from(s, from, m)) by {
        if occurs_from(s, from, m) {
            let k = choose|k: int|
                m <= k && k + from.len() <= s.len() && #[trigger] s.subrange(k, k + from.len())
                    == from;
            assert(b.subrange(k - m, k - m + from.len()) =~= from);
        }
    }
    without_it_nothing_changes(s, from, to, m);
    assert(replaced_all(s, from, to) =~= a + to + b);
}

proof fn without_it_nothing_changes(s: Seq<char>, from: Seq<char>, to: Seq<char>, i: int)
    requires
        0 <= i <= s.len(),
        from.len() > 0,
        !occurs_from(s, from, i),
    ensures
        replaced_from(s, from, to, i) == s.skip(i),
    decreases s.len() - i,
{
    if i < s.len() {
        if i + from.len() <= s.len() {
            assert(s.subrange(i, i + from.len()) != from);
        }
        assert(!occurs_from(s, from, i + 1)) by {
            if occurs_from(s, from, i + 1) {
                let k = choose|k: int|
                    i + 1 <= k && k + from.len() <= s.len() && #[trigger] s.subrange(
                        k,
                        k + from.len(),
                    ) == from;
                assert(s.subrange(k, k + from.len()) == from);
            }
        }
        without_it_nothing_changes(s, from, to, i + 1);
        assert(seq![s[i]] + s.skip(i + 1) =~= s.skip(i));
    } else {
        assert(s.skip(i) =~= Seq::<char>::empty());
    }
}

proof fn up_to_it_nothing_changes(s: Seq<char>, from: Seq<char>, to: Seq<char>, n: int, k: int)
    requires
        0 <= k <= n,
        n + from.len() <= s.len(),
        from.len() > 0,
        forall|j: int| 0 <= j < n ==> (#[trigger] s.subrange(j, j + from.len())) != from,
    ensures
        replaced_from(s, from, to, 0) == s.take(k) + replaced_from(s, from, to, k),
    decreases k,
{
    if k == 0 {
        assert(s.take(0) + replaced_from(s, from, to, 0) =~= replaced_from(s, from, to, 0));
    } else {
        up_to_it_nothing_changes(s, from, to, n, k - 1);
        assert(s.subrange(k - 1, k - 1 + from.len()) != from);
        let r = replaced_from(s, from, to, k);
        assert(s.take(k - 1) + (seq![s[k - 1]] + r) =~= s.take(k) + r);
    }
}

} // verus!
