//! What a session may do, and what it is told.

use crate::catalog::build_tool_specs;
use crate::catalog::tool_at;
use crate::catalog::tools_spec;
use crate::catalog::ToolSpec;
use crate::catalog::ToolV;
use crate::catalog::Vocabulary;
use crate::catalog::VocabularyV;
use crate::json::Fields;
use crate::json::Json;
use crate::json::JsonV;
use crate::rows::rows;
use crate::text::join;
use crate::text::joined;
use crate::text::texts;
use crate::value::values;
use vstd::prelude::*;

verus! {

broadcast use {
    vstd::string::group_string_axioms,
    crate::value::group_json,
    crate::text::texts_push,
};

/// The protocol revision a session speaks where the client asks for none it knows.
pub const PROTOCOL_VERSION: &'static str = "2025-06-18";

/// The name the server goes by.
pub const SERVER_NAME: &'static str = "tasqx";

/// The methods that deliberately have no tool, and why.
pub const UNEXPOSED_METHODS: [(&'static str, &'static str); 13] = [
    (
        "core.capabilities",
        "the MCP handshake already answers this question: `initialize` reports the protocol          revision and scope, and `tools/list` reports the surface. A second, differently          shaped capability document is a second thing to keep in sync.",
    ),
    (
        "event.list",
        "the audit log is unbounded and has no paging, so exposing it would repeat the          `task.get` mistake D63 fixed. It needs the same limit/offset treatment before it          can be a tool; no client has asked for it yet.",
    ),
    (
        "event.revert",
        "tasqx has an undo (D54) and an agent cannot reach it, which is the sharpest single          omission on this list. It stays off until the tool can show what it is about to          undo: `event.revert` acts on the last matching event, and its blast radius depends          on store state the calling agent has not read. A destructive one-shot whose effect          the caller cannot see is not a tool, it is a coin flip.",
    ),
    (
        "memory.import",
        "it takes a batch of documents read off a filesystem, and the filesystem the CLI          reads is not the one an MCP client is on. `memory.add` is the per-document tool          that does reach across the wire.",
    ),
    (
        "otlp.status",
        "an operator diagnostic for a machine-local, opt-in receiver (#18) — is telemetry reaching THIS daemon on THIS machine — not a fact about any task an agent is working. `tasqx config store` / a CLI verb is where a human checks it (#222).",
    ),
    (
        "project.archive",
        "retiring a project is a decision about the human's workspace, not about the work.          An agent asked to tidy the project list is being asked to make that decision on          their behalf, and the CLI is where it belongs.",
    ),
    (
        "project.use",
        "ruled out by D22: an agent has `project` on `task.add` and should name it, rather          than silently re-aiming the human's default for every later call, including the          human's own.",
    ),
    (
        "reminder.fire",
        "daemon-internal. Its `reminded` event is a dedupe key and a push surface, not a          thing a client asks for.",
    ),
    (
        "store.export",
        "an agent cannot snapshot what it just wrote, and that is a real gap — but the          payload is the whole store, which is exactly the size problem D63 and D66 spent          two rounds on. It needs a filter and a budget before it is a tool rather than a          way to blow a client's limit in one call.",
    ),
    (
        "store.import",
        "it overwrites, in bulk, from a document nobody has reviewed. The confirmation model          (§7) defers to the host's gate, and a host gate on a call whose diff nobody can see          is not a safeguard.",
    ),
    (
        "token.add",
        "a measurement after the fact, and D50 makes the completion's self-report the primary channel precisely so one task never mixes channels. An agent with a count to report has `tasqx_complete_task`.",
    ),
    (
        "token.remove",
        "the corrective half of `token.add` (#210), and the same reasoning keeps it off: an agent that reports a wrong count fixes it by reporting the right one, and a removal an agent could reach unsupervised on the ledger a lead reads for budget decisions is a bigger foot-gun than the gap it closes. A human runs `tasqx api token.remove` instead.",
    ),
    (
        "tokens.recompute",
        "a maintenance pass over the whole store's attribution. It is an operator action with          a runtime proportional to history, not a step in anybody's task.",
    ),
];

/// The arguments a session reads and does not forward: the tool, the argument,
/// and why it belongs to the answer rather than to the method.
pub const TRANSPORT_ONLY_ARGS: [(&'static str, &'static str, &'static str); 6] = [
    (
        "tasqx_get_task",
        "include_json",
        "whether the response carries the machine-readable block beside the rendered view.      The two blocks are the same result twice (D49), so on a task whose bulk is annotation      prose the second is that prose again — 54% of a 6.4 KB response for ONE annotation,      66% for a task read with `annotations_limit: 0`. Since D151 the default is FALSE:      the reader of a tool result is the model, which reads the view, and the duplicate is      opt-in for the script that parses it. `task.get` has no opinion on how many blocks      its answer is wrapped in.",
    ),
    (
        "tasqx_brief_task",
        "include_json",
        "whether the response carries the machine-readable block beside the rendered view.      Same argument, same reason and same default as `tasqx_get_task`'s — false since D151,      because the caller reading this is the model and the model reads the view. The two      blocks are one result twice, and a brief's second block is the larger of the pair      because it carries the neighbourhood and the memory snippets as well. `task.brief`      has no opinion on how many blocks its answer is wrapped in.",
    ),
    (
        "tasqx_get_task",
        "view",
        "which of the two human renderings the rendered block is spelled in (D146).      A card is a DOCUMENT — fixed 72-column geometry, no escape codes — because it is      pasted in front of a person, into a chat reply or a pull request, where a markdown      table reflows into the prose around it. Both views render the SAME `task.get`      result: nothing here reaches the store, and `check_params` would refuse the key.",
    ),
    (
        "tasqx_brief_task",
        "view",
        "which of the two human renderings the task half of the brief is spelled in.      Same argument and same default as `tasqx_get_task`'s (D146), and only the task half      moves: what the prerequisites decided and what the store remembers follow the card      as the markdown they already were, because the choice is about the TASK and not      about its neighbourhood. `task.brief` has no opinion on how its answer is spelled.",
    ),
    (
        "tasqx_complete_task",
        "view",
        "whether the response leads with the D146 box card of the task AS COMPLETED (D153).      The closing card a person reads after a completion used to cost a second      `tasqx_get_task` per task — 26 get_task calls against 14 completions over 36 hours      of transcripts — because `task.done`'s frozen result carries no task to render. So      the transport reads the task back itself and spells it ahead of the JSON. `task.done`      has no opinion on how its answer is wrapped.",
    ),
    (
        "tasqx_annotate_task",
        "include_body",
        "whether the response echoes the annotation body back beside its id and timestamp.      D72/D75 keep the echo ON by default — it is the caller's only evidence that a body      promised to be stored verbatim really was — so this is opt-OUT, not a reversal: a      caller who already holds every byte it sent (the common case for a long note) can      decline paying to receive them again, and one that wants the verbatim proof still      gets it by doing nothing. `annotation.add` has no opinion on how its own result is      echoed back over one particular transport.",
    ),
];

/// What the server is.
pub const INTRO: &'static str = "tasqx is this workspace's backlog and long-term memory: one searchable index over imported knowledge docs and the annotations written on tasks. Use it instead of an in-conversation todo list or a memory file.";

/// When to search.
pub const SEARCH: &'static str = "Search first. Call tasqx_search_memory before resuming work, choosing between designs, touching a convention-bearing file, or asserting how this project does something. Query with two or three keywords, never a sentence: every word is required, and `matched` shows what ran. Try a second wording before concluding nothing is there. A hit is a snippet: read a doc whole with tasqx_get_memory, and an annotation (source `task:#<id>`) with tasqx_get_task.";

/// How to keep track of work.
pub const TRACK: &'static str = "Track multi-step work as tasks. Anything with more than one step, or that could outlive this session, goes in the backlog: tasqx_list_projects before tasqx_create_project, tasqx_add_task per piece, tasqx_add_dependency to order them, tasqx_add_check for acceptance criteria. Pick work with tasqx_list_tasks and the filter `@working`; blocked and waiting tasks are hidden there by design. Per task: tasqx_brief_task, then tasqx_start_timer, do the work, tasqx_annotate_task with what was decided and delivered, and tasqx_complete_task naming in checks_passed what you proved. Obsolete work is cancelled with tasqx_cancel_task, never left open.";

/// When to write.
pub const WRITE_BACK: &'static str = "Write as you go. Only annotation bodies are indexed, never titles, so name files and symbols in them. Call tasqx_add_memory when a decision settles or you learn a convention written down nowhere: the ruling in the first line, the why under it, the path in source. A wrong entry is removed with tasqx_remove_memory (permanent), not corrected beside.";

/// What a session that may not write is told instead.
pub const READ_ONLY: &'static str = "This server is read-only: no write tool is listed. Say so once, keep searching, and put what you would have stored (decisions and their reasons, outcomes, conventions) into your reply rather than dropping it. The operator grants writes by relaunching with `tasqx mcp serve --scope write`.";

/// What an empty store means.
pub const SEED: &'static str = "An empty store is a store nobody seeded. If searches keep returning nothing, ask the user to run `tasqx memory import <docs-dir>` once per markdown folder; no MCP tool imports. The CLI is always `tasqx <verb>`: a bare `tasqx` opens a full-screen dashboard and hangs a tool call.";

/// What a session may do. It is configuration of a process, not authentication.
#[derive(Debug, Clone, Copy, PartialEq, Eq, Structural)]
pub enum Scope {
    /// The tools that read.
    Read,
    /// Every tool.
    Write,
}

impl Scope {
    /// The word for this scope.
    pub open spec fn name(self) -> Seq<char> {
        match self {
            Scope::Read => "read"@,
            Scope::Write => "write"@,
        }
    }

    /// The word for this scope.
    pub fn as_str(self) -> (r: &'static str)
        ensures
            r@ == self.name(),
    {
        match self {
            Scope::Read => "read",
            Scope::Write => "write",
        }
    }

    /// Whether this scope may call a tool that writes.
    pub fn allows_write(self) -> (r: bool)
        ensures
            r == (self == Scope::Write),
    {
        match self {
            Scope::Read => false,
            Scope::Write => true,
        }
    }
}

/// The paragraphs a session is told, by its scope.
pub open spec fn paragraphs(scope: Scope) -> Seq<Seq<char>> {
    if scope == Scope::Write {
        seq![INTRO@, SEARCH@, TRACK@, WRITE_BACK@, SEED@]
    } else {
        seq![INTRO@, SEARCH@, READ_ONLY@, SEED@]
    }
}

/// The workflow a session is told. A session that may not write is never told
/// to use a tool it would be refused.
pub fn instructions(scope: Scope) -> (r: String)
    ensures
        r@ == joined(paragraphs(scope), "\n\n"@),
{
    let mut parts: Vec<String> = Vec::new();
    parts.push(INTRO.to_owned());
    parts.push(SEARCH.to_owned());
    if scope.allows_write() {
        parts.push(TRACK.to_owned());
        parts.push(WRITE_BACK.to_owned());
    } else {
        parts.push(READ_ONLY.to_owned());
    }
    parts.push(SEED.to_owned());
    assert(texts(parts@) =~= paragraphs(scope));
    join(&parts, "\n\n")
}

/// The methods that deliberately have no tool, each with why.
pub fn unexposed_methods() -> (r: Vec<(&'static str, &'static str)>)
    ensures
        r@.len() == 13,
        forall|i: int|
            0 <= i < 13 ==> (#[trigger] r@[i]).0@ == UNEXPOSED_METHODS@[i].0@ && r@[i].1@
                == UNEXPOSED_METHODS@[i].1@,
{
    let mut out: Vec<(&'static str, &'static str)> = Vec::new();
    let mut i: usize = 0;
    while i < 13
        invariant
            i <= 13,
            out@.len() == i,
            forall|k: int|
                0 <= k < i ==> (#[trigger] out@[k]).0@ == UNEXPOSED_METHODS@[k].0@ && out@[k].1@
                    == UNEXPOSED_METHODS@[k].1@,
        decreases 13 - i,
    {
        out.push(UNEXPOSED_METHODS[i]);
        i += 1;
    }
    out
}

/// The behaviour hints of a tool.
pub open spec fn hints_json(t: ToolV) -> JsonV {
    JsonV::Obj(
        seq![
            ("title"@, JsonV::Str(t.name)),
            ("readOnlyHint"@, JsonV::Bool(!t.write)),
            ("destructiveHint"@, JsonV::Bool(t.destructive)),
            ("idempotentHint"@, JsonV::Bool(t.idempotent)),
            ("openWorldHint"@, JsonV::Bool(false)),
        ],
    )
}

/// A tool as it is listed.
pub open spec fn listing(t: ToolV) -> JsonV {
    JsonV::Obj(
        seq![
            ("name"@, JsonV::Str(t.name)),
            ("description"@, JsonV::Str(t.description)),
            ("inputSchema"@, t.schema),
            ("annotations"@, hints_json(t)),
        ],
    )
}

/// Whether a scope is offered a tool.
pub open spec fn offered(scope: Scope, t: ToolV) -> bool {
    !t.write || scope == Scope::Write
}

/// The first `n` tools, those a scope is offered, as they are listed.
pub open spec fn listings(scope: Scope, v: Seq<ToolV>, n: nat) -> Seq<JsonV>
    decreases n,
{
    if n == 0 || n > v.len() {
        Seq::empty()
    } else if offered(scope, v[n - 1]) {
        listings(scope, v, (n - 1) as nat).push(listing(v[n - 1]))
    } else {
        listings(scope, v, (n - 1) as nat)
    }
}

fn list_one(t: &ToolSpec) -> (r: Json)
    ensures
        r@ == listing(t@),
{
    let mut h = Fields::new();
    h.put("title", Json::string(t.name));
    h.put("readOnlyHint", Json::Bool(!t.write));
    h.put("destructiveHint", Json::Bool(t.destructive));
    h.put("idempotentHint", Json::Bool(t.idempotent));
    h.put("openWorldHint", Json::Bool(false));
    assert(h@ =~= hints_json(t@)->Obj_0);
    let mut f = Fields::new();
    f.put("name", Json::string(t.name));
    f.put("description", Json::string(t.description));
    f.put("inputSchema", t.schema.dup());
    f.put("annotations", h.done());
    assert(f@ =~= listing(t@)->Obj_0);
    f.done()
}

/// The tools a scope is offered, as they are listed.
pub fn tools_list(scope: Scope, v: &Vocabulary) -> (r: Json)
    ensures
        r@ == JsonV::Arr(listings(scope, tools_spec(v@, 29), 29)),
{
    let specs: Vec<ToolSpec> = build_tool_specs(v);
    let ghost ts = tools_spec(v@, 29);
    let mut out: Vec<Json> = Vec::new();
    let mut i: usize = 0;
    assert(rows(specs@).len() == specs@.len());
    assert(values(out@) =~= Seq::empty());
    while i < specs.len()
        invariant
            i <= specs@.len(),
            specs@.len() == 29,
            ts == rows(specs@),
            values(out@) == listings(scope, ts, i as nat),
        decreases specs@.len() - i,
    {
        assert(ts[i as int] == specs@[i as int]@);
        if !specs[i].write || scope.allows_write() {
            out.push(list_one(&specs[i]));
        }
        i += 1;
    }
    Json::Arr(out)
}

proof fn listed_is_offered(scope: Scope, v: Seq<ToolV>, n: nat, k: int)
    requires
        0 <= k < listings(scope, v, n).len(),
    ensures
        exists|i: int|
            0 <= i < v.len() && offered(scope, #[trigger] v[i]) && listings(scope, v, n)[k]
                == listing(v[i]),
    decreases n,
{
    let before = listings(scope, v, (n - 1) as nat);
    if k < before.len() {
        listed_is_offered(scope, v, (n - 1) as nat, k);
    } else {
        assert(offered(scope, v[n - 1]));
    }
}

/// A session that may not write is shown no tool that writes.
pub proof fn read_scope_lists_no_write_tool(v: VocabularyV, k: int)
    requires
        0 <= k < listings(Scope::Read, tools_spec(v, 29), 29).len(),
    ensures
        exists|i: int|
            0 <= i < 29 && !(#[trigger] tool_at(i, v)).write && listings(
                Scope::Read,
                tools_spec(v, 29),
                29,
            )[k] == listing(tool_at(i, v)),
{
    let ts = tools_spec(v, 29);
    listed_is_offered(Scope::Read, ts, 29, k);
    let i = choose|i: int|
        0 <= i < ts.len() && offered(Scope::Read, #[trigger] ts[i]) && listings(
            Scope::Read,
            ts,
            29,
        )[k] == listing(ts[i]);
    assert(ts[i] == tool_at(i, v));
}

proof fn all_are_listed(v: Seq<ToolV>, n: nat)
    requires
        n <= v.len(),
    ensures
        listings(Scope::Write, v, n).len() == n,
    decreases n,
{
    if n > 0 {
        all_are_listed(v, (n - 1) as nat);
    }
}

/// A session that may write is shown every tool.
pub proof fn write_scope_lists_every_tool(v: VocabularyV)
    ensures
        listings(Scope::Write, tools_spec(v, 29), 29).len() == 29,
{
    all_are_listed(tools_spec(v, 29), 29);
}

} // verus!
