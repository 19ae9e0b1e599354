//! The tools, the session and the answers.

use serde_json::Value;
use tasqx_core::budget::{PageSearch, RESPONSE_BUDGET_BYTES};
use tasqx_core::catalog::{
    build_tool_specs, find_tool, tool_roster, ToolSpec, Vocabulary, TOOLS, WHEN_GRAMMAR,
};
use tasqx_core::detail::task_detail;
use tasqx_core::error::{ApiError, ErrorCode};
use tasqx_core::humanize::{DetailOpts, TimeFormat};
use tasqx_core::json::Json;
use tasqx_core::prepare::{needed_read, PreparedCall};
use tasqx_core::present::{present, present_error, render_task, Presented};
use tasqx_core::replies::{mcp_surface_message, view_only_text};
use tasqx_core::scope::{instructions, tools_list, unexposed_methods, Scope, TRANSPORT_ONLY_ARGS};
use tasqx_core::session::{McpServer, Step};
use tasqx_core::types::Priority;

fn to_json(v: &Value) -> Json {
    match v {
        Value::Null => Json::Null,
        Value::Bool(b) => Json::Bool(*b),
        Value::Number(n) => match n.as_i64() {
            Some(i) => Json::Int(i128::from(i)),
            None => Json::Float(n.to_string()),
        },
        Value::String(s) => Json::Str(s.clone()),
        Value::Array(a) => Json::Arr(a.iter().map(to_json).collect()),
        Value::Object(m) => Json::Obj(m.iter().map(|(k, v)| (k.clone(), to_json(v))).collect()),
    }
}

fn json(text: &str) -> Json {
    to_json(&serde_json::from_str(text).expect("test JSON"))
}

fn names(v: &[&str]) -> Vec<String> {
    v.iter().map(|s| s.to_string()).collect()
}

fn vocabulary() -> Vocabulary {
    Vocabulary {
        sort_keys: names(&["urgency", "due"]),
        task_fields: names(&["id", "title"]),
        group_by: names(&["project", "status", "priority"]),
        summary_metrics: names(&["count", "est_total"]),
        outcome_metrics: names(&["tokens"]),
        memory_scopes: names(&["all", "docs", "annotations"]),
        list_page: 50,
        max_limit: 1000,
        memory_limit: 5,
    }
}

fn tool_specs() -> Vec<ToolSpec> {
    build_tool_specs(&vocabulary())
}

fn at<'a>(v: &'a Json, path: &[&str]) -> &'a Json {
    let mut node = v;
    for key in path {
        node = node
            .get(key)
            .unwrap_or_else(|| panic!("no `{key}` in {node:?}"));
    }
    node
}

fn schema_enum(tool: &str, prop: &str, in_items: bool) -> Vec<String> {
    let specs = tool_specs();
    let spec = specs.iter().find(|s| s.name == tool).expect("no such tool");
    let mut node = at(&spec.schema, &["properties", prop]);
    if in_items {
        node = at(node, &["items"]);
    }
    at(node, &["enum"])
        .as_array()
        .unwrap_or_else(|| panic!("{tool}.{prop} has no enum in its schema"))
        .iter()
        .map(|v| v.as_str().expect("enum values are strings").to_string())
        .collect()
}

fn iso_opts() -> DetailOpts {
    DetailOpts {
        time: TimeFormat::Iso,
        now: 0,
    }
}

#[test]
fn the_schema_offers_what_the_engine_accepts() {
    let v = vocabulary();
    assert_eq!(schema_enum("tasqx_summary", "group_by", false), v.group_by);
    assert_eq!(
        schema_enum("tasqx_summary", "metrics", true),
        v.summary_metrics
    );
    assert_eq!(
        schema_enum("tasqx_add_task", "priority", false),
        Priority::ALL.map(|p| p.as_str())
    );
}

fn exposure_faults(methods: &[&str], exposed: &[&str], unexposed: &[(&str, &str)]) -> Vec<String> {
    let mut faults = Vec::new();
    for method in methods {
        let has_tool = exposed.contains(method);
        let listed = unexposed.iter().any(|(m, _)| m == method);
        if !has_tool && !listed {
            faults.push(format!(
                "`{method}` is in PARAMS, has no MCP tool, and is not in \
                 UNEXPOSED_METHODS. Expose it, or add it there with the reason"
            ));
        }
        if has_tool && listed {
            faults.push(format!(
                "`{method}` is BOTH exposed and listed as deliberately unexposed; the \
                 reason beside it is now false and the next reader will believe it"
            ));
        }
    }
    for (method, reason) in unexposed {
        if !methods.contains(method) {
            faults.push(format!(
                "UNEXPOSED_METHODS names `{method}`, which is not a dispatch method — a \
                 renamed or deleted method leaves a reason behind that reads as current"
            ));
        }
        if reason.len() <= 40 {
            faults.push(format!(
                "`{method}` is excused in {} characters. A reason short enough to be a \
                 label is a label, and the point of this table is the argument",
                reason.len()
            ));
        }
    }
    faults
}

#[test]
fn the_exposure_guard_catches_every_way_the_tables_can_disagree() {
    let long = "a reason long enough to clear the floor this guard sets on excuses";

    let faults = exposure_faults(&["task.add", "task.reopen"], &["task.add"], &[]);
    assert_eq!(faults.len(), 1, "{faults:?}");
    assert!(faults[0].contains("task.reopen"), "{faults:?}");

    let faults = exposure_faults(&["task.add"], &["task.add"], &[("task.add", long)]);
    assert_eq!(faults.len(), 1, "{faults:?}");
    assert!(faults[0].contains("BOTH exposed and listed"), "{faults:?}");

    let faults = exposure_faults(&["task.add"], &["task.add"], &[("task.ghost", long)]);
    assert_eq!(faults.len(), 1, "{faults:?}");
    assert!(faults[0].contains("not a dispatch method"), "{faults:?}");

    let faults = exposure_faults(&["task.add"], &[], &[("task.add", "internal")]);
    assert_eq!(faults.len(), 1, "{faults:?}");
    assert!(
        faults[0].contains("short enough to be a label"),
        "{faults:?}"
    );

    assert_eq!(
        exposure_faults(
            &["task.add", "task.cancel"],
            &["task.add"],
            &[("task.cancel", long)]
        ),
        Vec::<String>::new()
    );
}

#[test]
fn no_method_is_both_exposed_and_excused() {
    let specs = tool_specs();
    let exposed: Vec<&str> = specs.iter().map(|s| s.method).collect();
    let excused = unexposed_methods();
    let mut methods = exposed.clone();
    methods.extend(excused.iter().map(|(m, _)| *m));
    assert_eq!(
        exposure_faults(&methods, &exposed, &excused),
        Vec::<String>::new()
    );
}

/// A task as `task.get` answers it, with as many of its notes as are asked for.
fn task_get(bodies: &[String], limit: Option<u64>) -> Json {
    let total = bodies.len();
    let page = limit.map_or(total, |l| (l as usize).min(total));
    let shown: Vec<Json> = bodies[total - page..]
        .iter()
        .enumerate()
        .map(|(i, body)| {
            Json::Obj(vec![
                ("id".to_string(), Json::Str(format!("a{i}"))),
                ("body".to_string(), Json::Str(body.clone())),
                (
                    "created".to_string(),
                    Json::Str("2026-09-10T09:00:00Z".to_string()),
                ),
            ])
        })
        .collect();
    Json::Obj(vec![
        ("id".to_string(), Json::Str("t1".to_string())),
        ("short_id".to_string(), Json::Int(1)),
        ("title".to_string(), Json::Str("boundary".to_string())),
        ("status".to_string(), Json::Str("pending".to_string())),
        ("annotations".to_string(), Json::Arr(shown)),
        ("annotations_total".to_string(), Json::Int(total as i128)),
        ("_rev".to_string(), Json::Int(1)),
    ])
}

fn prepared(server: &McpServer, name: &str, params: &Json) -> (usize, PreparedCall) {
    let tool = find_tool(name).expect("a tool");
    let p = server
        .prepare_args(tool, params, None, vocabulary().list_page)
        .expect("the arguments are good");
    (tool, p)
}

/// Answers a call of `tasqx_get_task` against a task with these notes.
fn answer(bodies: &[String], include_json: bool) -> Json {
    let server = McpServer::new(Scope::Read, "c".to_string(), "1.0.0".to_string())
        .with_time_format(TimeFormat::Iso);
    let params = json(&format!(
        r#"{{ "name": "tasqx_get_task", "arguments": {{ "ref": 1, "include_json": {include_json} }} }}"#
    ));
    let (tool, p) = prepared(&server, "tasqx_get_task", &params);
    let limit = |args: &Json| {
        args.get("annotations_limit")
            .and_then(|n| n.as_i64())
            .map(|n| n as u64)
    };
    let first = task_get(bodies, limit(&p.args));
    match present(tool, &p, first, &iso_opts(), vocabulary().memory_limit) {
        Presented::Done(reply) => reply,
        Presented::ReadBack(_) => panic!("a read needs no reading back"),
        Presented::Search(mut s) => {
            while let Some(args) = s.next_args(&p.args) {
                let v = task_get(bodies, limit(&args));
                let view = render_task(&v, p.view, &iso_opts());
                s.report(Some(view), p.include_json);
            }
            s.finish(p.include_json)
        }
    }
}

fn bytes_of(reply: &Json) -> usize {
    at(reply, &["content"])
        .as_array()
        .expect("content blocks")
        .iter()
        .map(|b| b.get("text").and_then(|t| t.as_str()).unwrap_or("").len())
        .sum()
}

#[test]
fn a_view_that_only_fits_without_its_own_notice_is_still_shrunk() {
    let budget = RESPONSE_BUDGET_BYTES as usize;
    let notice = view_only_text("").len();
    assert!(
        notice > 0,
        "the notice must cost something to be worth guarding"
    );

    let notes = |fat: usize| vec!["x".repeat(fat), "the newest, and small".to_string()];
    let target = budget - notice / 2;
    let (mut lo, mut hi) = (1usize, budget);
    let mut fixture = None;
    while lo <= hi {
        let mid = lo + (hi - lo) / 2;
        let len = task_detail(&task_get(&notes(mid), None), &iso_opts()).len();
        if len <= target {
            fixture = Some((mid, len));
            lo = mid + 1;
        } else {
            hi = mid - 1;
        }
    }
    let (body, view_len) = fixture.expect("a body size landing under the budget exists");
    assert!(
        view_len > budget - notice,
        "the search did not reach the window this guards: view {view_len}, budget \
         {budget}, notice {notice}"
    );

    let bytes = bytes_of(&answer(&notes(body), true));
    assert!(
        bytes <= budget,
        "the finished response is {bytes} bytes against a {budget} budget: \
         the notice was added after the fit was decided"
    );
    assert!(
        bytes < view_len,
        "one note fewer is shown: {bytes} of {view_len} bytes"
    );
}

#[test]
fn an_answer_shows_as_many_notes_as_fit() {
    let notes: Vec<String> = (0..20).map(|n| format!("{n:02}").repeat(2000)).collect();
    let reply = answer(&notes, false);
    assert!(bytes_of(&reply) <= RESPONSE_BUDGET_BYTES as usize);
    let text = at(&at(&reply, &["content"]).as_array().unwrap()[0], &["text"])
        .as_str()
        .unwrap()
        .to_string();
    assert!(text.contains("1919"), "the newest is there");
    let shown = (0..20)
        .filter(|n| text.contains(&format!("{n:02}").repeat(100)))
        .count();
    assert!(shown > 0 && shown < 20);
    assert!(
        bytes_of(&reply) + 4200 > RESPONSE_BUDGET_BYTES as usize,
        "one more would not have fitted: {shown}"
    );
}

#[test]
fn every_transport_only_argument_is_real_and_argued_for() {
    let specs = tool_specs();
    for (tool, arg, why) in TRANSPORT_ONLY_ARGS {
        let spec = specs
            .iter()
            .find(|s| s.name == tool)
            .unwrap_or_else(|| panic!("TRANSPORT_ONLY_ARGS names an unlisted tool `{tool}`"));
        assert!(
            at(&spec.schema, &["properties"]).get(arg).is_some(),
            "`{tool}` no longer advertises `{arg}`, so this excuse is stale"
        );
        assert!(
            why.len() >= 40,
            "`{tool}.{arg}` needs a reason, not a label: {why:?}"
        );
    }
}

#[test]
fn every_date_field_names_its_own_effect_beside_the_shared_grammar() {
    let specs = tool_specs();
    let add = specs
        .iter()
        .find(|s| s.name == "tasqx_add_task")
        .expect("tasqx_add_task");
    let describe = |field: &str| {
        at(&add.schema, &["properties", field, "description"])
            .as_str()
            .unwrap_or_else(|| panic!("`{field}` has no description"))
            .to_string()
    };
    let (due, scheduled, wait) = (describe("due"), describe("scheduled"), describe("wait"));

    for (field, text) in [("due", &due), ("scheduled", &scheduled), ("wait", &wait)] {
        assert!(
            text.contains(WHEN_GRAMMAR),
            "`{field}` dropped the shared grammar sentence"
        );
        assert!(
            text.len() > WHEN_GRAMMAR.len(),
            "`{field}` says what it takes and not what it does"
        );
    }
    assert_ne!(due, scheduled, "`due` and `scheduled` read identically");
    assert_ne!(due, wait, "`due` and `wait` read identically");
    assert_ne!(scheduled, wait, "`scheduled` and `wait` read identically");

    for (field, text) in [("scheduled", &scheduled), ("wait", &wait)] {
        assert!(
            text.contains("backlog"),
            "`{field}` holds a task in backlog until it passes and never says so"
        );
    }
    assert!(
        due.contains("urgency"),
        "`due` drives the urgency score and anchors relative reminders; the description \
         names neither"
    );
    assert!(
        add.description.contains("backlog"),
        "`tasqx_add_task` returns `status: \"backlog\"` for a future `scheduled` or `wait` \
         and its description never warns that a date can park the task"
    );
}

#[test]
fn the_date_grammar_says_an_offsetless_clock_is_utc() {
    assert!(
        WHEN_GRAMMAR.contains("UTC"),
        "the date grammar offers \"2026-07-20T17:00\" and never says the clock is UTC: \
         {WHEN_GRAMMAR}"
    );
    assert!(
        WHEN_GRAMMAR.contains("offset"),
        "the date grammar says UTC without saying an explicit offset keeps its meaning: \
         {WHEN_GRAMMAR}"
    );
}

fn server(scope: Scope) -> McpServer {
    McpServer::new(scope, "c0ffee".to_string(), "1.2.3".to_string())
}

fn reply(s: &mut McpServer, text: &str) -> Json {
    match s.handle_message(&json(text), &vocabulary()) {
        Step::Reply(r) => r,
        other => panic!("expected a reply, got {other:?}"),
    }
}

#[test]
fn the_handshake_answers_with_the_server_and_its_tools() {
    let mut s = server(Scope::Read);
    let r = reply(
        &mut s,
        r#"{ "jsonrpc": "2.0", "id": 7, "method": "initialize",
             "params": { "protocolVersion": "2025-06-18", "clientInfo": { "name": "editor" } } }"#,
    );
    assert_eq!(at(&r, &["id"]), &Json::Int(7));
    assert_eq!(
        at(&r, &["result", "serverInfo", "version"]).as_str(),
        Some("1.2.3")
    );
    assert_eq!(
        at(&r, &["result", "instructions"]).as_str(),
        Some(instructions(Scope::Read).as_str())
    );
    assert_eq!(
        s.client_info.as_ref().and_then(|c| c.get("name")).and_then(|n| n.as_str()),
        Some("editor")
    );
}

#[test]
fn a_notification_is_not_answered() {
    let mut s = server(Scope::Write);
    let step = s.handle_message(
        &json(r#"{ "jsonrpc": "2.0", "method": "notifications/initialized" }"#),
        &vocabulary(),
    );
    assert!(matches!(step, Step::Silent), "{step:?}");
}

#[test]
fn a_read_session_neither_lists_nor_calls_a_tool_that_writes() {
    let listed = |scope: Scope| tools_list(scope, &vocabulary()).as_array().unwrap().len();
    let readers = tool_roster().iter().filter(|(_, write)| !write).count();
    assert_eq!(listed(Scope::Read), readers);
    assert_eq!(listed(Scope::Write), TOOLS.len());

    let call = r#"{ "jsonrpc": "2.0", "id": 1, "method": "tools/call",
                    "params": { "name": "tasqx_add_task", "arguments": { "title": "t" } } }"#;
    let refused = reply(&mut server(Scope::Read), call);
    assert_eq!(
        at(&refused, &["result", "isError"]),
        &Json::Bool(true),
        "{refused:?}"
    );
    match server(Scope::Write).handle_message(&json(call), &vocabulary()) {
        Step::Dispatch(c) => {
            assert_eq!(TOOLS[c.tool].0, "tasqx_add_task");
            assert_eq!(TOOLS[c.tool].1, "task.add");
        }
        other => panic!("expected a call, got {other:?}"),
    }
}

#[test]
fn a_method_that_is_not_there_is_refused() {
    let r = reply(
        &mut server(Scope::Read),
        r#"{ "jsonrpc": "2.0", "id": "q", "method": "nope" }"#,
    );
    assert_eq!(at(&r, &["error", "code"]), &Json::Int(-32601), "{r:?}");
    assert_eq!(at(&r, &["id"]).as_str(), Some("q"));
    assert!(find_tool("nope").is_none());
}

#[test]
fn what_the_session_keeps_is_not_forwarded() {
    let s = server(Scope::Read);
    let (_, p) = prepared(
        &s,
        "tasqx_get_task",
        &json(r#"{ "name": "tasqx_get_task", "arguments": { "ref": 3, "include_json": true } }"#),
    );
    assert!(p.include_json);
    assert!(p.args.get("include_json").is_none());
    assert_eq!(p.args.get("ref"), Some(&Json::Int(3)));
    let tool = find_tool("tasqx_get_task").unwrap();
    assert!(needed_read(tool, &json("{}")).is_none());
}

#[test]
fn an_error_is_told_with_its_code() {
    let e = ApiError::new(
        ErrorCode::NotFound,
        "no task 7".to_string(),
        Some(json(r#"{ "ref": 7 }"#)),
    );
    let r = present_error(&e, &None);
    assert_eq!(at(&r, &["isError"]), &Json::Bool(true));
    let text = at(&at(&r, &["content"]).as_array().unwrap()[0], &["text"])
        .as_str()
        .unwrap()
        .to_string();
    assert!(text.contains("not_found") && text.contains("no task 7"), "{text}");
}

#[test]
fn a_remedy_names_the_tool_and_not_the_command() {
    let said = mcp_surface_message("read it with task.get on #3", &None);
    assert_eq!(said, "read it with tasqx_get_task on #3");
    assert_eq!(
        mcp_surface_message(
            "no project named \"a\" (create it with `tasqx init a`)",
            &Some("a".to_string())
        ),
        "no project named \"a\" (create it first with the `tasqx_create_project` tool)"
    );
}

#[test]
fn the_largest_page_that_fits_is_found() {
    let mut s = PageSearch::new("limit", 1, 100, "x".repeat(200_000));
    let args = json(r#"{ "ref": 1 }"#);
    let mut asked = 0;
    while let Some(page) = s.page() {
        asked += 1;
        assert!(asked < 10, "a search of a hundred pages halves");
        let next = s.next_args(&args).expect("an object");
        assert_eq!(next.get("limit"), Some(&Json::Int(i128::from(page))));
        s.report(Some("y".repeat(page as usize * 1000)), false);
    }
    let found = bytes_of(&s.finish(false));
    let budget = RESPONSE_BUDGET_BYTES as usize;
    assert_eq!(found, budget / 1000 * 1000);
}

#[test]
fn the_instructions_of_a_read_session_name_no_tool_that_writes() {
    let text = instructions(Scope::Read);
    for (name, write) in tool_roster() {
        if write {
            assert!(!text.contains(name), "`{name}` is refused in this scope");
        }
    }
    assert_ne!(text, instructions(Scope::Write));
}

#[test]
fn a_description_is_published_as_it_is_written() {
    let specs = tool_specs();
    let done = specs
        .iter()
        .find(|s| s.name == "tasqx_complete_task")
        .expect("tasqx_complete_task");
    assert_eq!(
        at(&done.schema, &["properties", "input_tokens", "description"]).as_str(),
        Some(
            "Self-reported input tokens this \
             task cost (0 or more)."
        )
    );
    assert!(done.description.contains(
        "Report the tokens this \
         task cost via the *_tokens params"
    ));
}

#[test]
fn a_tool_that_reads_destroys_nothing_and_may_be_called_twice() {
    let mut seen = Vec::new();
    for (name, method, write, destructive, idempotent, _) in TOOLS {
        assert!(write || (!destructive && idempotent), "{name}");
        assert!(!seen.contains(&name) && !seen.contains(&method), "{name}");
        seen.push(name);
        seen.push(method);
    }
}
