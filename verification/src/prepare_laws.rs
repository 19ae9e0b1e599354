//! What holds of a prepared call: what the caller says reaches the engine, and
//! what the caller leaves out is what a session adds.

use crate::catalog::TOOLS;
use crate::edit::dropping_leaves_the_rest;
use crate::edit::set_is_found;
use crate::edit::setting_leaves_the_rest;
use crate::edit::with_key;
use crate::json::JsonV;
use crate::prepare::arguments_of;
use crate::prepare::bounded_read;
use crate::prepare::client_label_spec;
use crate::prepare::default_fields;
use crate::prepare::forwarded;
use crate::prepare::kept_arguments_are_not_forwarded;
use crate::prepare::kept_back;
use crate::prepare::listed;
use crate::prepare::pinned;
use crate::prepare::prepared;
use crate::prepare::read_before;
use crate::prepare::signed;
use crate::scope::TRANSPORT_ONLY_ARGS;
use crate::session::CardView;
use crate::session::ServerV;
use crate::text::trimmed;
use vstd::prelude::*;

verus! {

broadcast use {vstd::string::group_string_axioms, crate::value::group_json};

/// What the caller of a tool says under `key`.
pub open spec fn said(params: JsonV, key: Seq<char>) -> Option<JsonV> {
    match params.get("arguments"@) {
        Some(a) => a.get(key),
        None => None,
    }
}

/// Whether the caller says something other than null under `key`.
pub open spec fn says(params: JsonV, key: Seq<char>) -> bool {
    said(params, key) is Some && !(said(params, key)->0 is Null)
}

/// Whether the arguments of a call, where it has any, are an object.
pub open spec fn well_formed(params: JsonV) -> bool {
    match params.get("arguments"@) {
        Some(a) => a is Null || a is Obj,
        None => true,
    }
}

proof fn set_gives(v: JsonV, key: Seq<char>, value: JsonV, other: Seq<char>)
    ensures
        with_key(v, key, value) is Obj == v is Obj,
        v is Obj && other == key ==> with_key(v, key, value).get(other) == Some(value),
        !(v is Obj && other == key) ==> with_key(v, key, value).get(other) == v.get(other),
{
    if v is Obj {
        set_is_found(v, key, value);
        if other != key {
            setting_leaves_the_rest(v, key, value, other);
        }
    }
}

proof fn forwarded_gives(tool: Seq<char>, args: JsonV, n: nat, key: Seq<char>)
    requires
        n <= 6,
    ensures
        forwarded(tool, args, n) is Obj == args is Obj,
        !kept_back(tool, key) ==> forwarded(tool, args, n).get(key) == args.get(key),
    decreases n,
{
    if n > 0 {
        forwarded_gives(tool, args, (n - 1) as nat, key);
        let before = forwarded(tool, args, (n - 1) as nat);
        if TRANSPORT_ONLY_ARGS@[n - 1].0@ == tool {
            dropping_leaves_the_rest(before, TRANSPORT_ONLY_ARGS@[n - 1].1@, key);
        }
    }
}

/// The arguments that a session reads and does not hand on are these six: the
/// JSON flag and the view of a task and of a brief, the view of a completion,
/// and whether a note is echoed.
pub proof fn these_arguments_are_the_sessions_own(tool: Seq<char>, arg: Seq<char>)
    ensures
        kept_back(tool, arg) <==> {
            ||| arg == "include_json"@ && (tool == "tasqx_get_task"@ || tool == "tasqx_brief_task"@)
            ||| arg == "view"@ && (tool == "tasqx_get_task"@ || tool == "tasqx_brief_task"@ || tool
                == "tasqx_complete_task"@)
            ||| arg == "include_body"@ && tool == "tasqx_annotate_task"@
        },
{
    let t = TRANSPORT_ONLY_ARGS@;
    assert(t[0].0@ == "tasqx_get_task"@ && t[0].1@ == "include_json"@);
    assert(t[1].0@ == "tasqx_brief_task"@ && t[1].1@ == "include_json"@);
    assert(t[2].0@ == "tasqx_get_task"@ && t[2].1@ == "view"@);
    assert(t[3].0@ == "tasqx_brief_task"@ && t[3].1@ == "view"@);
    assert(t[4].0@ == "tasqx_complete_task"@ && t[4].1@ == "view"@);
    assert(t[5].0@ == "tasqx_annotate_task"@ && t[5].1@ == "include_body"@);
    if kept_back(tool, arg) {
        let i = choose|i: int|
            0 <= i < 6 && (#[trigger] TRANSPORT_ONLY_ARGS@[i]).0@ == tool
                && TRANSPORT_ONLY_ARGS@[i].1@ == arg;
        assert(i == 0 || i == 1 || i == 2 || i == 3 || i == 4 || i == 5);
    }
}

proof fn words_of_calls_differ()
    ensures
        "limit"@ != "fields"@,
        "limit"@ != "expected_rev"@,
        "limit"@ != "annotations_limit"@,
        "limit"@ != "max_body_bytes"@,
        "limit"@ != "client"@,
        "limit"@ != "actor"@,
        "fields"@ != "expected_rev"@,
        "fields"@ != "annotations_limit"@,
        "fields"@ != "max_body_bytes"@,
        "fields"@ != "client"@,
        "fields"@ != "actor"@,
        "expected_rev"@ != "annotations_limit"@,
        "expected_rev"@ != "max_body_bytes"@,
        "expected_rev"@ != "client"@,
        "expected_rev"@ != "actor"@,
        "annotations_limit"@ != "max_body_bytes"@,
        "annotations_limit"@ != "client"@,
        "annotations_limit"@ != "actor"@,
        "max_body_bytes"@ != "client"@,
        "max_body_bytes"@ != "actor"@,
        "client"@ != "actor"@,
{
    reveal_strlit("limit");
    reveal_strlit("fields");
    reveal_strlit("expected_rev");
    reveal_strlit("annotations_limit");
    reveal_strlit("max_body_bytes");
    reveal_strlit("client");
    reveal_strlit("actor");
    reveal_strlit("include_json");
    reveal_strlit("include_body");
    reveal_strlit("view");
    assert("limit"@.len() == 5);
    assert("fields"@.len() == 6);
    assert("expected_rev"@.len() == 12);
    assert("annotations_limit"@.len() == 17);
    assert("max_body_bytes"@.len() == 14);
    assert("client"@.len() == 6);
    assert("actor"@.len() == 5);
    assert("limit"@[0] == 'l' && "actor"@[0] == 'a');
    assert("fields"@[0] == 'f' && "client"@[0] == 'c');
    assert("expected_rev"@[0] == 'e' && "include_json"@[0] == 'i' && "include_body"@[0] == 'i');
}

proof fn added_arguments_are_not_kept(tool: Seq<char>)
    ensures
        !kept_back(tool, "limit"@),
        !kept_back(tool, "fields"@),
        !kept_back(tool, "expected_rev"@),
        !kept_back(tool, "annotations_limit"@),
        !kept_back(tool, "max_body_bytes"@),
        !kept_back(tool, "client"@),
        !kept_back(tool, "actor"@),
{
    these_arguments_are_the_sessions_own(tool, "limit"@);
    these_arguments_are_the_sessions_own(tool, "fields"@);
    these_arguments_are_the_sessions_own(tool, "expected_rev"@);
    these_arguments_are_the_sessions_own(tool, "annotations_limit"@);
    these_arguments_are_the_sessions_own(tool, "max_body_bytes"@);
    these_arguments_are_the_sessions_own(tool, "client"@);
    these_arguments_are_the_sessions_own(tool, "actor"@);
    reveal_strlit("limit");
    reveal_strlit("fields");
    reveal_strlit("expected_rev");
    reveal_strlit("annotations_limit");
    reveal_strlit("max_body_bytes");
    reveal_strlit("client");
    reveal_strlit("actor");
    reveal_strlit("include_json");
    reveal_strlit("include_body");
    reveal_strlit("view");
    assert("limit"@.len() == 5);
    assert("fields"@.len() == 6);
    assert("expected_rev"@.len() == 12);
    assert("annotations_limit"@.len() == 17);
    assert("max_body_bytes"@.len() == 14);
    assert("client"@.len() == 6);
    assert("actor"@.len() == 5);
    assert("include_json"@.len() == 12);
    assert("include_body"@.len() == 12);
    assert("view"@.len() == 4);
    assert("expected_rev"@[0] == 'e' && "include_json"@[0] == 'i' && "include_body"@[0] == 'i');
}

proof fn methods_differ()
    ensures
        "task.list"@ != "task.get"@,
        "task.list"@ != "task.brief"@,
        "task.list"@ != "task.modify"@,
        "task.list"@ != "memory.update"@,
        "task.list"@ != "task.start"@,
        "task.list"@ != "task.done"@,
        "task.get"@ != "task.brief"@,
        "task.get"@ != "task.modify"@,
        "task.get"@ != "memory.update"@,
        "task.get"@ != "task.start"@,
        "task.get"@ != "task.done"@,
        "task.brief"@ != "task.modify"@,
        "task.brief"@ != "memory.update"@,
        "task.brief"@ != "task.start"@,
        "task.brief"@ != "task.done"@,
        "task.modify"@ != "memory.update"@,
        "task.modify"@ != "task.start"@,
        "task.modify"@ != "task.done"@,
        "memory.update"@ != "task.start"@,
        "memory.update"@ != "task.done"@,
        "task.start"@ != "task.done"@,
{
    reveal_strlit("task.list");
    reveal_strlit("task.get");
    reveal_strlit("task.brief");
    reveal_strlit("task.modify");
    reveal_strlit("memory.update");
    reveal_strlit("task.start");
    reveal_strlit("task.done");
    assert("task.list"@.len() == 9);
    assert("task.get"@.len() == 8);
    assert("task.brief"@.len() == 10);
    assert("task.modify"@.len() == 11);
    assert("memory.update"@.len() == 13);
    assert("task.start"@.len() == 10);
    assert("task.done"@.len() == 9);
    assert("task.list"@[5] == 'l' && "task.done"@[5] == 'd');
    assert("task.brief"@[5] == 'b' && "task.start"@[5] == 's');
}

/// The steps that a call's arguments go through, each member by itself.
#[verifier::rlimit(60)]
proof fn steps_of(s: ServerV, tool: int, params: JsonV, rev: Option<i64>, page: u64, key: Seq<char>)
    requires
        0 <= tool < 29,
        prepared(s, tool, params, rev, page) is Ok,
    ensures
        ({
            let m = TOOLS@[tool].1@;
            let a0 = arguments_of(params);
            let a1 = pinned(m, a0, rev);
            let a2 = listed(m, a1, page);
            let a3 = forwarded(TOOLS@[tool].0@, a2, 6);
            let a4 = bounded_read(m, a3);
            let a5 = signed(m, a4, client_label_spec(s.client_info), s.connection_id);
            &&& prepared(s, tool, params, rev, page)->Ok_0.args == a5
            &&& a0.get(key) == said(params, key)
            &&& (well_formed(params) <==> a0 is Obj)
            &&& a1 is Obj == a0 is Obj
            &&& a2 is Obj == a0 is Obj
            &&& a3 is Obj == a0 is Obj
            &&& a4 is Obj == a0 is Obj
            &&& a5 is Obj == a0 is Obj
            &&& (key != "expected_rev"@ ==> a1.get(key) == a0.get(key))
            &&& (key != "limit"@ && key != "fields"@ ==> a2.get(key) == a1.get(key))
            &&& (kept_back(TOOLS@[tool].0@, key) ==> a3.get(key) is None)
            &&& (!kept_back(TOOLS@[tool].0@, key) ==> a3.get(key) == a2.get(key))
            &&& (key != "annotations_limit"@ && key != "max_body_bytes"@ ==> a4.get(key) == a3.get(
                key,
            ))
            &&& (key != "client"@ && key != "actor"@ ==> a5.get(key) == a4.get(key))
        }),
{
    let m = TOOLS@[tool].1@;
    let a0 = arguments_of(params);
    let a1 = pinned(m, a0, rev);
    let a2 = listed(m, a1, page);
    let a3 = forwarded(TOOLS@[tool].0@, a2, 6);
    let a4 = bounded_read(m, a3);
    let label = client_label_spec(s.client_info);
    if rev is Some {
        set_gives(a0, "expected_rev"@, JsonV::Int(rev->0 as int), key);
    }
    let paged = with_key(a1, "limit"@, JsonV::Int(page as int));
    set_gives(a1, "limit"@, JsonV::Int(page as int), key);
    set_gives(a1, "fields"@, default_fields(), key);
    set_gives(paged, "fields"@, default_fields(), key);
    forwarded_gives(TOOLS@[tool].0@, a2, 6, key);
    if kept_back(TOOLS@[tool].0@, key) {
        kept_arguments_are_not_forwarded(TOOLS@[tool].0@, a2, key);
    }
    let noted = with_key(a3, "annotations_limit"@, JsonV::Int(20));
    set_gives(a3, "annotations_limit"@, JsonV::Int(20), key);
    set_gives(a3, "max_body_bytes"@, JsonV::Int(16_384), key);
    set_gives(noted, "max_body_bytes"@, JsonV::Int(16_384), key);
    if label is Some {
        let named = with_key(a4, "client"@, JsonV::Str(label->0));
        set_gives(a4, "client"@, JsonV::Str(label->0), key);
        set_gives(named, "actor"@, JsonV::Str(s.connection_id), key);
    }
    set_gives(a4, "actor"@, JsonV::Str(s.connection_id), key);
}

/// Whatever the caller says reaches the engine unchanged, for every tool and
/// every argument, but for the arguments that the session reads itself: those
/// do not reach it.
#[verifier::rlimit(60)]
pub proof fn what_the_caller_says_reaches_the_engine(
    s: ServerV,
    tool: int,
    params: JsonV,
    rev: Option<i64>,
    page: u64,
    key: Seq<char>,
)
    requires
        0 <= tool < 29,
        prepared(s, tool, params, rev, page) is Ok,
    ensures
        says(params, key) && !kept_back(TOOLS@[tool].0@, key) ==> prepared(
            s,
            tool,
            params,
            rev,
            page,
        )->Ok_0.args.get(key) == said(params, key),
        kept_back(TOOLS@[tool].0@, key) ==> prepared(s, tool, params, rev, page)->Ok_0.args.get(key)
            is None,
{
    steps_of(s, tool, params, rev, page, key);
    words_of_calls_differ();
    methods_differ();
    added_arguments_are_not_kept(TOOLS@[tool].0@);
    let m = TOOLS@[tool].1@;
    let a0 = arguments_of(params);
    let a1 = pinned(m, a0, rev);
    let paged = with_key(a1, "limit"@, JsonV::Int(page as int));
    set_gives(a1, "limit"@, JsonV::Int(page as int), key);
    set_gives(a1, "fields"@, default_fields(), key);
    set_gives(paged, "fields"@, default_fields(), key);
    let a3 = forwarded(TOOLS@[tool].0@, listed(m, a1, page), 6);
    let noted = with_key(a3, "annotations_limit"@, JsonV::Int(20));
    set_gives(a3, "annotations_limit"@, JsonV::Int(20), key);
    set_gives(a3, "max_body_bytes"@, JsonV::Int(16_384), key);
    set_gives(noted, "max_body_bytes"@, JsonV::Int(16_384), key);
    let a4 = bounded_read(m, a3);
    let label = client_label_spec(s.client_info);
    if label is Some {
        let named = with_key(a4, "client"@, JsonV::Str(label->0));
        set_gives(a4, "client"@, JsonV::Str(label->0), key);
        set_gives(named, "actor"@, JsonV::Str(s.connection_id), key);
    }
    set_gives(a4, "actor"@, JsonV::Str(s.connection_id), key);
}

/// For a list of tasks, a limit the caller names reaches the engine unchanged;
/// where the caller names none, the engine is asked for the session's page,
/// and the call says that the session chose it. Likewise the fields: those the
/// caller names, and otherwise the session's nine.
#[verifier::rlimit(60)]
pub proof fn lists_are_paged_by_the_caller_or_by_the_session(
    s: ServerV,
    tool: int,
    params: JsonV,
    rev: Option<i64>,
    page: u64,
)
    requires
        0 <= tool < 29,
        TOOLS@[tool].1@ == "task.list"@,
        well_formed(params),
    ensures
        ({
            let p = prepared(s, tool, params, rev, page);
            p is Ok ==> {
                &&& said(params, "limit"@) is Some ==> p->Ok_0.args.get("limit"@) == said(
                    params,
                    "limit"@,
                ) && !p->Ok_0.paged_list_by_us
                &&& said(params, "limit"@) is None ==> p->Ok_0.args.get("limit"@) == Some(
                    JsonV::Int(page as int),
                ) && p->Ok_0.paged_list_by_us
                &&& says(params, "fields"@) ==> p->Ok_0.args.get("fields"@) == said(
                    params,
                    "fields"@,
                ) && !p->Ok_0.fields_defaulted_by_us
                &&& !says(params, "fields"@) ==> p->Ok_0.fields_defaulted_by_us
                    && p->Ok_0.args.get("fields"@) == Some(
                    JsonV::Arr(
                        seq![
                            JsonV::Str("short_id"@),
                            JsonV::Str("title"@),
                            JsonV::Str("status"@),
                            JsonV::Str("priority"@),
                            JsonV::Str("urgency"@),
                            JsonV::Str("blocked"@),
                            JsonV::Str("due"@),
                            JsonV::Str("project"@),
                            JsonV::Str("tags"@),
                        ],
                    ),
                )
            }
        }),
{
    let p = prepared(s, tool, params, rev, page);
    if p is Ok {
        words_of_calls_differ();
        methods_differ();
        added_arguments_are_not_kept(TOOLS@[tool].0@);
        steps_of(s, tool, params, rev, page, "limit"@);
        steps_of(s, tool, params, rev, page, "fields"@);
        let m = TOOLS@[tool].1@;
        let a1 = pinned(m, arguments_of(params), rev);
        let paged = with_key(a1, "limit"@, JsonV::Int(page as int));
        set_gives(a1, "limit"@, JsonV::Int(page as int), "limit"@);
        set_gives(a1, "limit"@, JsonV::Int(page as int), "fields"@);
        set_gives(a1, "fields"@, default_fields(), "fields"@);
        set_gives(a1, "fields"@, default_fields(), "limit"@);
        set_gives(paged, "fields"@, default_fields(), "limit"@);
        set_gives(paged, "fields"@, default_fields(), "fields"@);
    }
}

/// The members that a session can add to a call, for each key the method that
/// takes it.
pub open spec fn may_add(method: Seq<char>, key: Seq<char>) -> bool {
    ||| method == "task.list"@ && (key == "limit"@ || key == "fields"@)
    ||| (method == "task.modify"@ || method == "memory.update"@) && key == "expected_rev"@
    ||| method == "task.get"@ && (key == "annotations_limit"@ || key == "max_body_bytes"@)
    ||| method == "task.brief"@ && key == "max_body_bytes"@
    ||| method == "task.start"@ && (key == "client"@ || key == "actor"@)
    ||| method == "task.done"@ && key == "client"@
}

/// A session makes nothing up: what reaches the engine the caller said, but
/// for the page and the fields of a list, the revision of a change, the page
/// of notes and the cap of a read, and who starts or completes a task.
#[verifier::rlimit(60)]
pub proof fn nothing_else_is_added(
    s: ServerV,
    tool: int,
    params: JsonV,
    rev: Option<i64>,
    page: u64,
    key: Seq<char>,
)
    requires
        0 <= tool < 29,
        prepared(s, tool, params, rev, page) is Ok,
        !may_add(TOOLS@[tool].1@, key),
    ensures
        prepared(s, tool, params, rev, page)->Ok_0.args.get(key) is Some ==> prepared(
            s,
            tool,
            params,
            rev,
            page,
        )->Ok_0.args.get(key) == said(params, key),
{
    steps_of(s, tool, params, rev, page, key);
    words_of_calls_differ();
    methods_differ();
    added_arguments_are_not_kept(TOOLS@[tool].0@);
    let m = TOOLS@[tool].1@;
    let a0 = arguments_of(params);
    let a1 = pinned(m, a0, rev);
    let a3 = forwarded(TOOLS@[tool].0@, listed(m, a1, page), 6);
    let noted = with_key(a3, "annotations_limit"@, JsonV::Int(20));
    set_gives(a3, "annotations_limit"@, JsonV::Int(20), key);
    set_gives(a3, "max_body_bytes"@, JsonV::Int(16_384), key);
    set_gives(noted, "max_body_bytes"@, JsonV::Int(16_384), key);
    let a4 = bounded_read(m, a3);
    let label = client_label_spec(s.client_info);
    if label is Some {
        let named = with_key(a4, "client"@, JsonV::Str(label->0));
        set_gives(a4, "client"@, JsonV::Str(label->0), key);
        set_gives(named, "actor"@, JsonV::Str(s.connection_id), key);
    }
    set_gives(a4, "actor"@, JsonV::Str(s.connection_id), key);
}

/// A read of a task for which the caller bounds nothing asks for a page of 20
/// notes and for bodies of at most 16384 bytes; a brief asks for the same cap.
#[verifier::rlimit(60)]
pub proof fn reads_are_bounded(
    s: ServerV,
    tool: int,
    params: JsonV,
    rev: Option<i64>,
    page: u64,
)
    requires
        0 <= tool < 29,
        prepared(s, tool, params, rev, page) is Ok,
        well_formed(params),
    ensures
        ({
            let m = TOOLS@[tool].1@;
            let a = prepared(s, tool, params, rev, page)->Ok_0.args;
            &&& m == "task.get"@ && said(params, "annotations_limit"@) is None ==> a.get(
                "annotations_limit"@,
            ) == Some(JsonV::Int(20))
            &&& (m == "task.get"@ || m == "task.brief"@) && !says(params, "max_body_bytes"@)
                ==> a.get("max_body_bytes"@) == Some(JsonV::Int(16_384))
        }),
{
    steps_of(s, tool, params, rev, page, "annotations_limit"@);
    steps_of(s, tool, params, rev, page, "max_body_bytes"@);
    words_of_calls_differ();
    methods_differ();
    added_arguments_are_not_kept(TOOLS@[tool].0@);
    let m = TOOLS@[tool].1@;
    let a3 = forwarded(TOOLS@[tool].0@, listed(m, pinned(m, arguments_of(params), rev), page), 6);
    let noted = with_key(a3, "annotations_limit"@, JsonV::Int(20));
    set_gives(a3, "annotations_limit"@, JsonV::Int(20), "annotations_limit"@);
    set_gives(a3, "annotations_limit"@, JsonV::Int(20), "max_body_bytes"@);
    set_gives(noted, "max_body_bytes"@, JsonV::Int(16_384), "annotations_limit"@);
    set_gives(noted, "max_body_bytes"@, JsonV::Int(16_384), "max_body_bytes"@);
    set_gives(a3, "max_body_bytes"@, JsonV::Int(16_384), "max_body_bytes"@);
    set_gives(a3, "max_body_bytes"@, JsonV::Int(16_384), "annotations_limit"@);
}

/// A change of a task or of a document that pins no revision is pinned to the
/// one that was read for it, and to none where none was read.
#[verifier::rlimit(60)]
pub proof fn changes_are_pinned_to_what_was_read(
    s: ServerV,
    tool: int,
    params: JsonV,
    rev: Option<i64>,
    page: u64,
)
    requires
        0 <= tool < 29,
        prepared(s, tool, params, rev, page) is Ok,
        well_formed(params),
        TOOLS@[tool].1@ == "task.modify"@ || TOOLS@[tool].1@ == "memory.update"@,
        said(params, "expected_rev"@) is None,
    ensures
        prepared(s, tool, params, rev, page)->Ok_0.args.get("expected_rev"@) == match rev {
            Some(n) => Some(JsonV::Int(n as int)),
            None => None,
        },
{
    steps_of(s, tool, params, rev, page, "expected_rev"@);
    words_of_calls_differ();
    methods_differ();
    added_arguments_are_not_kept(TOOLS@[tool].0@);
    if rev is Some {
        set_gives(
            arguments_of(params),
            "expected_rev"@,
            JsonV::Int(rev->0 as int),
            "expected_rev"@,
        );
    }
}

/// A start that names no actor is by this connection, whoever the client says
/// it is.
#[verifier::rlimit(60)]
pub proof fn starts_are_signed_by_the_connection(
    s: ServerV,
    tool: int,
    params: JsonV,
    rev: Option<i64>,
    page: u64,
)
    requires
        0 <= tool < 29,
        prepared(s, tool, params, rev, page) is Ok,
        well_formed(params),
        TOOLS@[tool].1@ == "task.start"@,
        !says(params, "actor"@),
    ensures
        prepared(s, tool, params, rev, page)->Ok_0.args.get("actor"@) == Some(
            JsonV::Str(s.connection_id),
        ),
{
    steps_of(s, tool, params, rev, page, "actor"@);
    words_of_calls_differ();
    methods_differ();
    added_arguments_are_not_kept(TOOLS@[tool].0@);
    let m = TOOLS@[tool].1@;
    let a3 = forwarded(TOOLS@[tool].0@, listed(m, pinned(m, arguments_of(params), rev), page), 6);
    let a4 = bounded_read(m, a3);
    let label = client_label_spec(s.client_info);
    if label is Some {
        let named = with_key(a4, "client"@, JsonV::Str(label->0));
        set_gives(a4, "client"@, JsonV::Str(label->0), "actor"@);
        set_gives(named, "actor"@, JsonV::Str(s.connection_id), "actor"@);
    }
    set_gives(a4, "actor"@, JsonV::Str(s.connection_id), "actor"@);
}

/// A start or a completion that names no client is marked with the name the
/// client gave when it connected, and the version behind it where it gave one
/// that is not blank. A client that gave no name, or a blank one, marks
/// nothing.
#[verifier::rlimit(60)]
pub proof fn starts_and_completions_name_their_client(
    s: ServerV,
    tool: int,
    params: JsonV,
    rev: Option<i64>,
    page: u64,
)
    requires
        0 <= tool < 29,
        prepared(s, tool, params, rev, page) is Ok,
        well_formed(params),
        TOOLS@[tool].1@ == "task.start"@ || TOOLS@[tool].1@ == "task.done"@,
        !says(params, "client"@),
    ensures
        ({
            let got = prepared(s, tool, params, rev, page)->Ok_0.args.get("client"@);
            let name = match s.client_info {
                Some(i) => i.text("name"@),
                None => None,
            };
            let version = match s.client_info {
                Some(i) => i.text("version"@),
                None => None,
            };
            &&& name is None || trimmed(name->0).len() == 0 ==> got == said(params, "client"@)
            &&& name is Some && trimmed(name->0).len() > 0 ==> got == Some(
                JsonV::Str(
                    if version is Some && trimmed(version->0).len() > 0 {
                        trimmed(name->0) + " "@ + version->0
                    } else {
                        trimmed(name->0)
                    },
                ),
            )
        }),
{
    steps_of(s, tool, params, rev, page, "client"@);
    words_of_calls_differ();
    methods_differ();
    added_arguments_are_not_kept(TOOLS@[tool].0@);
    let m = TOOLS@[tool].1@;
    let a3 = forwarded(TOOLS@[tool].0@, listed(m, pinned(m, arguments_of(params), rev), page), 6);
    let a4 = bounded_read(m, a3);
    let label = client_label_spec(s.client_info);
    if label is Some {
        let named = with_key(a4, "client"@, JsonV::Str(label->0));
        set_gives(a4, "client"@, JsonV::Str(label->0), "client"@);
        set_gives(named, "actor"@, JsonV::Str(s.connection_id), "client"@);
    }
    set_gives(a4, "actor"@, JsonV::Str(s.connection_id), "client"@);
}

/// What the session reads for itself: the JSON flag is off unless the caller
/// sets it, an echo is on unless the caller clears it, the view is the
/// Markdown one unless the caller asks for the card, each only for the tools
/// that take it. A call is refused exactly where such a tool is asked for a
/// view that does not exist.
#[verifier::rlimit(60)]
pub proof fn the_session_reads_its_own_arguments(
    s: ServerV,
    tool: int,
    params: JsonV,
    rev: Option<i64>,
    page: u64,
)
    requires
        0 <= tool < 29,
    ensures
        ({
            let name = TOOLS@[tool].0@;
            let p = prepared(s, tool, params, rev, page);
            let read = name == "tasqx_get_task"@ || name == "tasqx_brief_task"@;
            let viewed = read || name == "tasqx_complete_task"@;
            let view = said(params, "view"@);
            &&& p is Err <==> viewed && says(params, "view"@) && view != Some(
                JsonV::Str("markdown"@),
            ) && view != Some(JsonV::Str("card"@))
            &&& p is Ok ==> {
                &&& p->Ok_0.view == CardView::Card <==> viewed && view == Some(JsonV::Str("card"@))
                &&& p->Ok_0.include_json <==> read && said(params, "include_json"@) == Some(
                    JsonV::Bool(true),
                )
                &&& !p->Ok_0.include_body <==> name == "tasqx_annotate_task"@ && said(
                    params,
                    "include_body"@,
                ) == Some(JsonV::Bool(false))
            }
        }),
{
    let name = TOOLS@[tool].0@;
    let m = TOOLS@[tool].1@;
    these_arguments_are_the_sessions_own(name, "include_json"@);
    these_arguments_are_the_sessions_own(name, "include_body"@);
    these_arguments_are_the_sessions_own(name, "view"@);
    own_arguments_differ();
    let a0 = arguments_of(params);
    let a1 = pinned(m, a0, rev);
    same_before(m, a0, rev, page, "view"@);
    same_before(m, a0, rev, page, "include_json"@);
    same_before(m, a0, rev, page, "include_body"@);
    reveal_strlit("card");
    reveal_strlit("markdown");
    assert("card"@.len() == 4 && "markdown"@.len() == 8);
}

proof fn same_before(m: Seq<char>, a0: JsonV, rev: Option<i64>, page: u64, key: Seq<char>)
    requires
        key != "expected_rev"@,
        key != "limit"@,
        key != "fields"@,
    ensures
        listed(m, pinned(m, a0, rev), page).get(key) == a0.get(key),
{
    let a1 = pinned(m, a0, rev);
    if rev is Some {
        set_gives(a0, "expected_rev"@, JsonV::Int(rev->0 as int), key);
    }
    let paged = with_key(a1, "limit"@, JsonV::Int(page as int));
    set_gives(a1, "limit"@, JsonV::Int(page as int), key);
    set_gives(a1, "fields"@, default_fields(), key);
    set_gives(paged, "fields"@, default_fields(), key);
}

proof fn own_arguments_differ()
    ensures
        "view"@ != "include_json"@,
        "view"@ != "include_body"@,
        "include_json"@ != "include_body"@,
        "view"@ != "expected_rev"@,
        "view"@ != "limit"@,
        "view"@ != "fields"@,
        "include_json"@ != "expected_rev"@,
        "include_json"@ != "limit"@,
        "include_json"@ != "fields"@,
        "include_body"@ != "expected_rev"@,
        "include_body"@ != "limit"@,
        "include_body"@ != "fields"@,
{
    reveal_strlit("view");
    reveal_strlit("include_json");
    reveal_strlit("include_body");
    reveal_strlit("expected_rev");
    reveal_strlit("limit");
    reveal_strlit("fields");
    assert("view"@.len() == 4 && "limit"@.len() == 5 && "fields"@.len() == 6);
    assert("include_json"@.len() == 12 && "include_body"@.len() == 12);
    assert("expected_rev"@.len() == 12);
    assert("include_json"@[0] == 'i' && "include_body"@[0] == 'i' && "expected_rev"@[0] == 'e');
    assert("include_json"@[8] == 'j' && "include_body"@[8] == 'b');
}

/// Before a change that pins no revision, the session reads what is changed,
/// by the reference the caller gave; before anything else it reads nothing.
pub proof fn only_unpinned_changes_are_read_first(method: Seq<char>, params: JsonV)
    ensures
        ({
            let r = read_before(method, arguments_of(params));
            let task = method == "task.modify"@ && said(params, "ref"@) is Some;
            let doc = method == "memory.update"@ && said(params, "id"@) is Some;
            &&& r is Some <==> said(params, "expected_rev"@) is None && (task || doc)
            &&& (task ==> (r matches Some(x) ==> x.0 == "task.get"@ && x.1.get("ref"@) == said(
                params,
                "ref"@,
            )))
            &&& (doc ==> (r matches Some(x) ==> x.0 == "memory.get"@ && x.1.get("id"@) == said(
                params,
                "id"@,
            )))
        }),
{
    methods_differ();
    let a = arguments_of(params);
    if a.get("ref"@) is Some {
        let m = seq![("ref"@, a.get("ref"@)->0)];
        assert(m =~= Seq::<(Seq<char>, JsonV)>::empty().push(m[0]));
    }
    if a.get("id"@) is Some {
        let m = seq![("id"@, a.get("id"@)->0)];
        assert(m =~= Seq::<(Seq<char>, JsonV)>::empty().push(m[0]));
    }
}

} // verus!
