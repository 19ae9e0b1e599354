//! The tools a session offers, and what each takes.
//!
//! [`TOOLS`] and [`PROPERTIES`] are the whole surface; a schema is read off
//! them. Lists and limits that the engine decides come in a [`Vocabulary`], so
//! that what a schema advertises is what the engine accepts.

use crate::import_children::check_states;
use crate::json::Fields;
use crate::json::Json;
use crate::json::JsonV;
use crate::rows::rows;
use crate::text::digits;
use crate::text::join;
use crate::text::joined;
use crate::text::push_digits;
use crate::text::same;
use crate::text::texts;
use crate::value::str_values;
use vstd::prelude::*;

verus! {

broadcast use {
    vstd::string::group_string_axioms,
    crate::value::group_json,
    crate::text::texts_push,
};

/// A row of [`TOOLS`].
pub type ToolRow = (&'static str, &'static str, bool, bool, bool, &'static str);

/// A row of [`PROPERTIES`].
pub type PropertyRow = (
    &'static str,
    &'static str,
    &'static str,
    &'static str,
    bool,
    &'static str,
    &'static str,
    &'static str,
    &'static str,
    &'static str,
);

/// What a date field takes, for every date field.
pub const WHEN_GRAMMAR: &'static str = "Date/time in the tool's date grammar: \"tomorrow\", \"friday\", \"2026-07-20\", \"in 3 days\", \"eom\", or \"2026-07-20T17:00\" (a clock is UTC unless it carries an offset).";

/// The number of tools.
pub const TOOL_COUNT: usize = 29;

/// The number of properties of all tools.
pub const PROPERTY_COUNT: usize = 110;

/// The tools, reads first. A row is the tool's name, the method it calls,
/// whether it writes, whether it can destroy what the store holds, whether
/// calling it twice is calling it once, and its description.
pub const TOOLS: [ToolRow; 29] = [
    (
        "tasqx_list_tasks",
        "task.list",
        false,
        false,
        true,
        "List tasks matching a filter-DSL query. The filter is the same grammar the CLI takes, e.g. \"project:work.tasqx status:pending +api due.before:tomorrow\". Rows come back in pages: the response carries `count` (returned), `total` (matched) and `next_offset`, null once nothing is left. Project `depends_on` with `fields` to see what a blocked row is waiting on. Two CLI-only recipes worth composing here: the single highest-urgency unblocked task (\"what now\") is `filter: \"@working\", sort: [\"-urgency\"], limit: 1`; \"what was I doing\" is `filter: \"status:active\"`. Rows are narrowed to a default set of fields unless you name your own; `fields: []` returns every column.",
    ),
    (
        "tasqx_get_task",
        "task.get",
        false,
        false,
        true,
        "Get one task's full detail: fields, tags, annotations, and dependencies. A long annotation history is returned newest-first in pages — the response always carries `annotations_total`, and `annotations_next_offset` whenever older annotations were left out.",
    ),
    (
        "tasqx_brief_task",
        "task.brief",
        false,
        false,
        true,
        "Everything you need before starting one task, in ONE call: the task itself, the tasks it depends on with what each of THEM concluded, what it blocks, and relevant memory — under a query tasqx derives from the task's own title, tags and project, so you do not have to guess search terms. Prefer this over get_task + search_memory when you are about to START work; use get_task when you only need the task. Pure read, no side effects.",
    ),
    (
        "tasqx_summary",
        "report.summary",
        false,
        false,
        true,
        "Aggregate report grouped by project, status, or priority. Pure read, no side effects.",
    ),
    (
        "tasqx_outcomes",
        "report.outcomes",
        false,
        false,
        true,
        "How the work went, rather than what it cost: rework (completions that were reopened), estimate calibration, token cost, completions with no annotation, started-then-cancelled work, and `forced` (completions that overrode still-open blockers). Every rate comes back beside the `n` it was computed over — a rate over three completions and one over ninety are different claims. Scope is tasks that CLOSED: a task still open is not an outcome yet, and `tasqx_summary` is the read for work in flight. Pure read, no side effects.",
    ),
    (
        "tasqx_list_projects",
        "project.list",
        false,
        false,
        true,
        "List projects. By default excludes archived projects.",
    ),
    (
        "tasqx_search_memory",
        "memory.search",
        false,
        false,
        true,
        "Search the memory store: imported docs/patterns and task annotations, bm25-ranked with snippets. Plain text queries are matched as phrases; set raw=true for FTS5 operator syntax (prefix*, AND/OR, column filters). Every word of a query is matched by its STEM, so \"reviewing\" finds a doc that only says \"review\" or \"reviewed\". A hit carries a short excerpt: read a doc whole with `tasqx_get_memory` on its `id`, and an annotation whole with `tasqx_get_task` on the task its `source` names. Every word of a plain query is REQUIRED, so `matched` on the result is what explains a zero-hit answer. A hit's `rank` is the raw FTS5 bm25 score: LOWER (more negative) is a BETTER match, the opposite of most scoring conventions. `hits` is already sorted best-first, so `rank` is for comparing hits against each other, not for a fixed threshold. The response carries `total` (every row the query matched, before `limit` truncates) and `has_more`, so a hit list that looks complete is never mistaken for one that is.",
    ),
    (
        "tasqx_list_memory",
        "memory.list",
        false,
        false,
        true,
        "Browse memory docs without already knowing a word inside one — the enumeration `tasqx_search_memory` cannot do without a query. Newest-modified first by default. Rows come back in pages: the response carries `count` (returned), `total` (matched) and `next_offset`, null once nothing is left — the same shape `tasqx_list_tasks` uses. Each row carries a short `body_preview`, not the full body; read one whole with `tasqx_get_memory` on its `id`.",
    ),
    (
        "tasqx_get_memory",
        "memory.get",
        false,
        false,
        true,
        "Read one knowledge doc whole, by the `id` a search hit carries. `tasqx_search_memory` returns a short excerpt and this is how you get the rest; an annotation id is refused, naming the task to read it from instead.",
    ),
    (
        "tasqx_add_task",
        "task.add",
        true,
        false,
        false,
        "Create a new task. Returns its short_id, urgency, status — which is `backlog`, not `pending`, when `scheduled` or `wait` is in the future, and a backlog task is outside the `@working` set until that date passes — plus the stored title, due, tags and resolved scheduled, so a title containing `due:`, `project:`, `est:` or similar text can be checked for accidental inline-sugar capture, and an ambiguous date like `in 3 days` or `friday` can be checked against what was actually stored, rather than assumed unchanged.",
    ),
    (
        "tasqx_modify_task",
        "task.modify",
        true,
        true,
        false,
        "Change fields on a task via a `set` map. Returns `{short_id, _rev, set}`, where `set` echoes the RESOLVED value actually stored for each field this call named — an ambiguous `due:\"friday\"` or `estimate:\"90m\"` comes back as the instant/duration it parsed to, so a write can be checked without a follow-up `tasqx_get_task`. Optimistic concurrency is ON by default: when `expected_rev` is omitted, this server reads the task's current `_rev` and pins it, so a concurrent edit yields a `conflict` naming both revs instead of a silent overwrite — there is no way to opt out. On `conflict`: re-read the task (`tasqx_get_task`), re-apply the change to the fresh state, and retry. Under contention that loop is the protocol working, not a failure.",
    ),
    (
        "tasqx_complete_task",
        "task.done",
        true,
        true,
        false,
        "Mark a task done. Returns any tasks newly unblocked by its completion. Report the tokens this \
         task cost via the *_tokens params — the caller is the only party that knows which task a turn's spend served, so self-report is the primary measurement channel; any present count records a measurement. If you cannot observe your token spend, still send `tool` and `model` — they are recorded on the completion event without any count, and the response says what was recorded. Correlation params (session_id, transcript_path, client) land on that same event; without a self-report, log-parse attribution is a fallback that refuses samples claimed by more than one task's window. A task whose dependencies are still open is refused with `conflict` naming the blockers; pass `force: true` to complete it anyway — the override is recorded and `tasqx_outcomes` counts it. Pass `view: \"card\"` when a person is about to read what shipped: the closing card of the completed task leads the response and no follow-up `tasqx_get_task` is needed.",
    ),
    (
        "tasqx_cancel_task",
        "task.cancel",
        true,
        true,
        false,
        "Cancel a task: backlog, pending or active moves to cancelled. The row is kept, not deleted, and stops counting in reports. Returns any tasks newly unblocked by the cancellation (D11: cancelling a blocker resolves it, same as completing one). A task already done or cancelled is a conflict, not a no-op.",
    ),
    (
        "tasqx_reopen_task",
        "task.reopen",
        true,
        true,
        false,
        "Reopen a closed task: done or cancelled goes back to pending, and the completion timestamp is cleared so the task stops answering questions about a week it is no longer finished in. Use it when a task was closed or cancelled in error. A task that is not closed is a conflict, not a no-op.",
    ),
    (
        "tasqx_start_timer",
        "task.start",
        true,
        false,
        false,
        "Start the timer on a task (moves it to active). Correlation params (session_id, transcript_path, client) are recorded on the start event for token attribution.",
    ),
    (
        "tasqx_stop_timer",
        "task.stop",
        true,
        false,
        true,
        "Stop the timer on a task. Returns `interval` (the duration just closed) and `tracked` (the task's running total, matching `tasqx_get_task`).",
    ),
    (
        "tasqx_tag_task",
        "tag.add",
        true,
        false,
        true,
        "Add one or more tags to a task. Returns the resulting tag set.",
    ),
    (
        "tasqx_untag_task",
        "tag.remove",
        true,
        true,
        true,
        "Remove one or more tags from a task. Returns the resulting tag set. A tag the task does not carry is `not_found` and removes NONE of the tags named — all or nothing, so a typo can never answer ok.",
    ),
    (
        "tasqx_add_check",
        "check.add",
        true,
        false,
        false,
        "Add an acceptance criterion to a task — one thing that must be true for the task to count as done. tasqx NEVER RUNS a check: it is a claim you mark later with evidence, not a command. Use these instead of burying criteria in an annotation, where nothing can ask at completion time whether they were met.",
    ),
    (
        "tasqx_set_check",
        "check.set",
        true,
        true,
        true,
        "Mark one acceptance criterion passed or failed, with the evidence for it. `failed` is a normal outcome, not an error — recording that a criterion was NOT met is useful. Evidence is stored verbatim and never interpreted.",
    ),
    (
        "tasqx_remove_check",
        "check.remove",
        true,
        true,
        true,
        "Drop an acceptance criterion that turned out to be the wrong thing to ask. Use `tasqx_set_check` with `failed` when the criterion was right and the work did not meet it — deleting it there would hide the finding.",
    ),
    (
        "tasqx_annotate_task",
        "annotation.add",
        true,
        false,
        false,
        "Attach a timestamped note to a task. The body is stored verbatim (newlines and markdown included), so this is where long-form context lives: acceptance criteria, links, implementation notes. The response echoes the stored body back by default — proof the store kept it verbatim — but you already hold every byte you sent, so pass `include_body: false` to get `{id, created, body_bytes}` instead on a long note. Wrote something you should not have — a token, a customer name, a wrong root cause? `tasqx_remove_annotation` takes the `id` this response returns and scrubs it; there is otherwise no way to take an annotation back.",
    ),
    (
        "tasqx_remove_annotation",
        "annotation.remove",
        true,
        true,
        true,
        "Permanently scrub one annotation's text by id — the id `tasqx_annotate_task` or `tasqx_get_task` reports for it. Unlike every other write on this server, this is a HARD delete: the body is overwritten in the store, not merely hidden, so a secret pasted into a note by mistake is actually gone from the file, not just gone from what tasqx shows you — this covers `event.list` and `store.export` too, by redacting the original `annotation.add` event's own body field in the same transaction (D113), not only the `annotations` row. A tombstone (the id and when it was removed) stays for audit, with no text in it: `tasqx_get_task` lists it as `annotations_removed` and prints one line per tombstone under the annotations, so a note that went on purpose does not read as one that quietly vanished. `tasqx undo` does NOT cover this — there is nothing left in the log to restore — so double-check the id before calling. An unknown or already-removed id is `not_found`.",
    ),
    (
        "tasqx_add_dependency",
        "dependency.add",
        true,
        false,
        true,
        "Make one task depend on another: `ref` is blocked until `depends_on` is done or cancelled; a `ref` that is itself already closed is never blocked. Returns the resulting dependency list and blocked state. A cycle is refused as a conflict.",
    ),
    (
        "tasqx_remove_dependency",
        "dependency.remove",
        true,
        true,
        true,
        "Cut a dependency edge: `ref` stops waiting on `depends_on`. Returns the remaining dependency list and blocked state, so the answer says whether the task is actually actionable now or still waiting on something else.",
    ),
    (
        "tasqx_add_memory",
        "memory.add",
        true,
        false,
        false,
        "Store a knowledge document in memory: company patterns, documentation, decisions worth finding again. Body is stored verbatim (markdown fine) and becomes searchable via tasqx_search_memory.",
    ),
    (
        "tasqx_update_memory",
        "memory.update",
        true,
        true,
        false,
        "Correct a memory doc in place: title, body, source and/or project, by id. Use it instead of `tasqx_add_memory` for a correction — a fix written as a second doc leaves the stale one polluting search rankings forever, and `tasqx_remove_memory` is permanent, so delete-then-recreate risks losing the doc with nothing to put it back. Optimistic concurrency is the same shape `tasqx_modify_task` uses: when `expected_rev` is omitted, this server reads the doc's current `rev` and pins it, so a concurrent edit yields a `conflict` naming both revs instead of a silent overwrite. On `conflict`: re-read the doc (`tasqx_get_memory`), re-apply the change, and retry with the fresh `rev`.",
    ),
    (
        "tasqx_remove_memory",
        "memory.remove",
        true,
        true,
        true,
        "Remove one knowledge document from memory by id, the id tasqx_search_memory returns. Use it to retract something you wrote that turned out to be wrong — a correction written as a second document leaves both in the store, and search ranks them together with nothing to say which is true. The removal is permanent: `tasqx undo` does not cover memory documents, and the body is not recoverable from the event log.",
    ),
    (
        "tasqx_create_project",
        "project.create",
        true,
        false,
        true,
        "Create a project. Returns its id and name. This does NOT become the default project — MCP has no tool for `project.use`, so pass `project` explicitly on every `tasqx_add_task` that should land here, including the first one.",
    ),
];

/// The properties, tool by tool. A row is the tool, the property's name, its
/// type, the list it is chosen from, whether it is required, and its
/// description, in up to three parts with a value between each two. A property
/// without a first part has no description.
pub const PROPERTIES: [PropertyRow; 110] = [
    (
        "tasqx_list_tasks",
        "filter",
        "string",
        "",
        false,
        "Filter DSL query, e.g. \"status:pending +api\". Use \"@working\" for the active working set. Omit it (or send \"\") for every task: no filter means no filtering.",
        "",
        "",
        "",
        "",
    ),
    (
        "tasqx_list_tasks",
        "sort",
        "strings",
        "",
        false,
        "Sort keys, e.g. [\"-urgency\", \"due\"]. Prefix \"-\" for descending. Valid keys: ",
        "sort_keys",
        ". An unknown key is rejected, not ignored.",
        "",
        "",
    ),
    (
        "tasqx_list_tasks",
        "limit",
        "natural",
        "",
        false,
        "How many rows to return. Omit and this tool applies its own page (",
        "list_page",
        "), shrunk further if the response would exceed its byte budget; the answer always carries `total` and a `next_offset` that is null once nothing is left. A limit you name is honoured up to ",
        "max_limit",
        ", the ceiling the core itself clamps to.",
    ),
    (
        "tasqx_list_tasks",
        "offset",
        "natural",
        "",
        false,
        "How many matching rows to skip. Pass the `next_offset` of the previous response to walk the rest; ordering is stable across pages, so a row is never shown twice or missed.",
        "",
        "",
        "",
        "",
    ),
    (
        "tasqx_list_tasks",
        "fields",
        "choices",
        "task_fields",
        false,
        "Restrict each row to these fields. An unknown name is rejected, not ignored. Omit it and each row carries short_id, title, status, priority, urgency, blocked, due, project, tags and nothing else, with any key whose value is null left out; send \"fields\": [] for the whole row, or name what you need (e.g. \"depends_on\", \"estimate\", \"tokens\").",
        "",
        "",
        "",
        "",
    ),
    (
        "tasqx_get_task",
        "ref",
        "reference",
        "",
        true,
        "Task reference: short_id (integer) or full UUID (string).",
        "",
        "",
        "",
        "",
    ),
    (
        "tasqx_get_task",
        "annotations_limit",
        "natural",
        "",
        false,
        "How many of the MOST RECENT annotations to return. Omit and this tool applies its own page size (20), because an unbounded history can exceed a client's tool-output limit; pass `annotations_total` from a previous response to ask for every one. The response byte budget applies to EVERY answer, whatever you name here: a page too big for it is cut to the largest page that fits and the rendered view says how much it left out and which `annotations_offset` reads the rest. By default the whole budget goes on history; `include_json: true` spends it on the duplicate machine-readable block first, so a big page and that flag together buy less history. 0 returns none, which is how you read a task's fields without its history.",
        "",
        "",
        "",
        "",
    ),
    (
        "tasqx_get_task",
        "max_body_bytes",
        "natural",
        "",
        false,
        "Cap each annotation body at this many BYTES **in the response**. Default 16384. A longer body is cut on a character boundary and marked with its real size and the exact call that reads it whole, so nothing is silently altered; a body that fits is returned untouched and unmarked. This is what keeps one enormous note inside the response budget, which `annotations_limit` cannot do — a page bounds how MANY notes come back, never how big one of them is. Raise it deliberately to read one long note in full, together with `annotations_limit: 1`; that answer may exceed the budget, which is the point of asking. Stored text is never capped: this bounds one response, not the store.",
        "",
        "",
        "",
        "",
    ),
    (
        "tasqx_get_task",
        "include_json",
        "boolean",
        "",
        false,
        "Send the machine-readable JSON block as well as the rendered view. Default FALSE: you get the rendered view alone, because the two blocks are the same result twice and on a task whose bulk is annotation prose the JSON is that prose again — measured at 54% of a 6.4 KB response for one annotation, and 66% for a task read with `annotations_limit: 0`. Send true when a SCRIPT is going to parse the result rather than read it.",
        "",
        "",
        "",
        "",
    ),
    (
        "tasqx_get_task",
        "view",
        "choice",
        "views",
        false,
        "How the rendered block is spelled. Default \"markdown\", the view YOU read. \"card\" is the D146 box card: a fixed 72-column box-drawn summary inside a text code fence, for the moment you hand this \
         task to a PERSON — pasted into a chat reply or a pull request it keeps its shape, where a markdown table reflows into the prose around it. It is a SUMMARY: the detail view carries the annotation bodies and the card quotes only the first one. The JSON block is unchanged under either view — `include_json: true` still decides whether it is sent, and the response budget still spends it first.",
        "",
        "",
        "",
        "",
    ),
    (
        "tasqx_get_task",
        "annotations_offset",
        "natural",
        "",
        false,
        "How many annotations to skip, counted back from the newest. Pass the `annotations_next_offset` of the previous response to walk further into the history; that field is null once there is nothing older.",
        "",
        "",
        "",
        "",
    ),
    (
        "tasqx_get_task",
        "explain",
        "boolean",
        "",
        false,
        "Add `urgency_breakdown` (`priority`, `due_proximity`, `age`, `total`) — the terms `urgency` sums (D1). Default false: an agent deciding whether to trust or override the ranking otherwise gets the one number it already had and no way to see the arithmetic behind it (#150).",
        "",
        "",
        "",
        "",
    ),
    (
        "tasqx_brief_task",
        "ref",
        "reference",
        "",
        true,
        "Task short_id or UUID.",
        "",
        "",
        "",
        "",
    ),
    (
        "tasqx_brief_task",
        "memory_limit",
        "integer",
        "",
        false,
        "How many memory hits to return. Optional; defaults to ",
        "memory_limit",
        ". Half the slots (rounded up) are reserved for knowledge docs — the rulings a sibling task's notes would otherwise outrank — and annotations fill the rest, either kind taking the other's unused slots. The response says what it did in `reserved_docs`, `docs_total` and `annotations_total`.",
        "",
        "",
    ),
    (
        "tasqx_brief_task",
        "max_body_bytes",
        "natural",
        "",
        false,
        "Cap each annotation body at this many BYTES **in the response**. Default 16384. A longer body is cut on a character boundary and marked with its real size and the exact call that reads it whole, so nothing is silently altered; a body that fits is returned untouched and unmarked. This is what keeps one enormous note inside the response budget, which `annotations_limit` cannot do — a page bounds how MANY notes come back, never how big one of them is. Raise it deliberately to read one long note in full, together with `annotations_limit: 1`; that answer may exceed the budget, which is the point of asking. Stored text is never capped: this bounds one response, not the store.",
        "",
        "",
        "",
        "",
    ),
    (
        "tasqx_brief_task",
        "include_json",
        "boolean",
        "",
        false,
        "Send the machine-readable JSON block as well as the rendered view. Default FALSE: you get the rendered view alone. The two blocks are the same result twice, and a brief's JSON half is the bigger one — it carries the neighbourhood and every memory snippet again. Pass true when a script needs the brief as JSON.",
        "",
        "",
        "",
        "",
    ),
    (
        "tasqx_brief_task",
        "view",
        "choice",
        "views",
        false,
        "How the task half of the brief is spelled. Default \"markdown\", the view YOU read. \"card\" is the D146 box card: a fixed 72-column box-drawn summary inside a text code fence, for the moment you hand this \
         task to a PERSON — pasted into a chat reply or a pull request it keeps its shape. Only the task half changes: what the prerequisites concluded and the memory hits follow the card as the same markdown either way. The JSON block is unchanged under either view — `include_json: true` still decides whether it is sent, and the response budget still spends it first.",
        "",
        "",
        "",
        "",
    ),
    (
        "tasqx_summary",
        "group_by",
        "choice",
        "group_by",
        false,
        "Grouping axis. Optional; defaults to ",
        "first_group",
        ".",
        "",
        "",
    ),
    (
        "tasqx_summary",
        "filter",
        "string",
        "",
        false,
        "Optional filter DSL to scope the report.",
        "",
        "",
        "",
        "",
    ),
    (
        "tasqx_summary",
        "all",
        "boolean",
        "",
        false,
        "Count cancelled tasks too. By default a report with no status term in its filter skips only cancelled tasks — done work always counts (D24).",
        "",
        "",
        "",
        "",
    ),
    (
        "tasqx_summary",
        "metrics",
        "choices",
        "summary_metrics",
        false,
        "Extra columns per group. Omit and each group carries only `count` — `tracked_total`, `overdue` and the token buckets are NOT included unless named here, unlike `tasqx report`, which shows every metric by default.",
        "",
        "",
        "",
        "",
    ),
    (
        "tasqx_summary",
        "since",
        "string",
        "",
        false,
        "Window `tracked_total` and the token buckets to what happened at or after this instant — a task tracking time or logging a measurement — rather than the task's lifetime total. Independent of `filter`'s `completed.after:`/`completed.before:`, which selects tasks by completion date instead (D97). Same date grammar as `due`/`completed` (relative words, offsets, RFC3339).",
        "",
        "",
        "",
        "",
    ),
    (
        "tasqx_summary",
        "until",
        "string",
        "",
        false,
        "The other end of `since`'s window: excludes anything at or after this instant. `since`/`until` together window WHEN the spend happened, e.g. \"what did this project cost this week\" — the fix for a report that used to answer that question by task completion date and silently missed spend on tasks that hadn't closed.",
        "",
        "",
        "",
        "",
    ),
    (
        "tasqx_outcomes",
        "group_by",
        "choice",
        "group_by",
        false,
        "Grouping axis. Optional; defaults to ",
        "first_group",
        ".",
        "",
        "",
    ),
    (
        "tasqx_outcomes",
        "filter",
        "string",
        "",
        false,
        "Optional filter DSL to scope the report — the same grammar `tasqx_list_tasks` takes.",
        "",
        "",
        "",
        "",
    ),
    (
        "tasqx_outcomes",
        "metrics",
        "choices",
        "outcome_metrics",
        false,
        "Which metrics to emit. Omit for ALL of them, which is the intended reading: a rework rate with no cost beside it invites the wrong fix. Unlike `tasqx_summary`, naming none does not mean a bare count.",
        "",
        "",
        "",
        "",
    ),
    (
        "tasqx_outcomes",
        "since",
        "string",
        "",
        false,
        "Only count tasks that closed at or after this instant. `since`/`until` window WHEN THE TASK CLOSED — its `done`, or its cancellation — which is a different axis from `tasqx_summary`'s window over when spend happened. Same date grammar as `due` (relative words, offsets, RFC3339; a bare clock time is UTC).",
        "",
        "",
        "",
        "",
    ),
    (
        "tasqx_outcomes",
        "until",
        "string",
        "",
        false,
        "The other end of `since`'s window: excludes tasks that closed at or after this instant.",
        "",
        "",
        "",
        "",
    ),
    (
        "tasqx_list_projects",
        "include_archived",
        "boolean",
        "",
        false,
        "",
        "",
        "",
        "",
        "",
    ),
    (
        "tasqx_search_memory",
        "query",
        "string",
        "",
        true,
        "Plain-text search words. Matched as quoted phrases, so hyphens and dots are safe.",
        "",
        "",
        "",
        "",
    ),
    (
        "tasqx_search_memory",
        "limit",
        "integer",
        "",
        false,
        "Max hits (0 or more); default 10. The response's `total`/`has_more` say what this left out.",
        "",
        "",
        "",
        "",
    ),
    (
        "tasqx_search_memory",
        "scope",
        "choice",
        "memory_scopes",
        false,
        "What to search. Optional; defaults to ",
        "first_scope",
        ".",
        "",
        "",
    ),
    (
        "tasqx_search_memory",
        "raw",
        "boolean",
        "",
        false,
        "Pass the query through as FTS5 syntax. Invalid syntax is refused as bad_request.",
        "",
        "",
        "",
        "",
    ),
    (
        "tasqx_search_memory",
        "project",
        "string",
        "",
        false,
        "Scope to one project: docs stored with this `project`, and annotations whose task carries it. Omit to search across every project (and unscoped docs).",
        "",
        "",
        "",
        "",
    ),
    (
        "tasqx_search_memory",
        "include_unscoped",
        "boolean",
        "",
        false,
        "Widen a `project` scope to also return docs and annotations belonging to NO project — which is what `tasqx memory import` produces, so a strict scope hides every imported ADR. Never admits ANOTHER project's documents. Needs `project`; without one there is nothing to widen from and it is refused.",
        "",
        "",
        "",
        "",
    ),
    (
        "tasqx_list_memory",
        "limit",
        "natural",
        "",
        false,
        "How many rows to return. Omit for every doc from `offset` on.",
        "",
        "",
        "",
        "",
    ),
    (
        "tasqx_list_memory",
        "offset",
        "natural",
        "",
        false,
        "How many matching docs to skip. Pass the previous response's `next_offset` to keep walking.",
        "",
        "",
        "",
        "",
    ),
    (
        "tasqx_list_memory",
        "project",
        "string",
        "",
        false,
        "Restrict to docs stored with this `project`. Omit to list every doc regardless of project.",
        "",
        "",
        "",
        "",
    ),
    (
        "tasqx_get_memory",
        "id",
        "string",
        "",
        true,
        "The doc UUID, as printed by a search hit or by `tasqx_add_memory`.",
        "",
        "",
        "",
        "",
    ),
    (
        "tasqx_add_task",
        "title",
        "string",
        "",
        true,
        "Stored verbatim — this server does not parse the CLI's inline sugar (`+tag`, `project:`, `due:`, `!prio`). A title like \"fix it +bug due:friday\" is saved with those characters in it; use the `tags`/`project`/`due`/`priority` fields below instead.",
        "",
        "",
        "",
        "",
    ),
    (
        "tasqx_add_task",
        "project",
        "string",
        "",
        false,
        "",
        "",
        "",
        "",
        "",
    ),
    (
        "tasqx_add_task",
        "priority",
        "choice",
        "priorities",
        false,
        "Priority: H (high), M (medium), or L (low).",
        "",
        "",
        "",
        "",
    ),
    (
        "tasqx_add_task",
        "due",
        "string",
        "",
        false,
        "The deadline. Drives the urgency score and anchors relative reminders; it does not hide the task, so an overdue one stays in the working set. Date/time in the tool's date grammar: \"tomorrow\", \"friday\", \"2026-07-20\", \"in 3 days\", \"eom\", or \"2026-07-20T17:00\" (a clock is UTC unless it carries an offset).",
        "",
        "",
        "",
        "",
    ),
    (
        "tasqx_add_task",
        "scheduled",
        "string",
        "",
        false,
        "When you intend to start. A future value holds the task in `backlog`, out of the `@working` set, until it arrives; `agenda` then places the task on the earlier of `due` and `scheduled`. Date/time in the tool's date grammar: \"tomorrow\", \"friday\", \"2026-07-20\", \"in 3 days\", \"eom\", or \"2026-07-20T17:00\" (a clock is UTC unless it carries an offset).",
        "",
        "",
        "",
        "",
    ),
    (
        "tasqx_add_task",
        "wait",
        "string",
        "",
        false,
        "Hide the task until then. A future value holds it in `backlog` exactly as `scheduled` does; the difference is intent — `wait` is \"not my problem yet\", `scheduled` is \"I plan to start then\" and is the one `agenda` places on. Date/time in the tool's date grammar: \"tomorrow\", \"friday\", \"2026-07-20\", \"in 3 days\", \"eom\", or \"2026-07-20T17:00\" (a clock is UTC unless it carries an offset).",
        "",
        "",
        "",
        "",
    ),
    (
        "tasqx_add_task",
        "tags",
        "strings",
        "",
        false,
        "",
        "",
        "",
        "",
        "",
    ),
    (
        "tasqx_add_task",
        "estimate",
        "string",
        "",
        false,
        "Duration: \"4h\", \"90m\", \"1h30m\", \"2d\", \"1w\", or ISO-8601 \"PT4H\".",
        "",
        "",
        "",
        "",
    ),
    (
        "tasqx_add_task",
        "recurrence",
        "string",
        "",
        false,
        "Recurrence rule (D2 subset): \"daily\", \"every 3 days\", \"weekly on mon,wed\", \"monthly on day 15\", \"monthly on the last friday\".",
        "",
        "",
        "",
        "",
    ),
    (
        "tasqx_add_task",
        "remind",
        "string",
        "",
        false,
        "Reminder: a signed offset from `due` (\"-1h\", \"-30m\", \"-2d\", \"+15m\") or an absolute date in the `due` grammar.",
        "",
        "",
        "",
        "",
    ),
    (
        "tasqx_add_task",
        "budget_tokens",
        "integer",
        "",
        false,
        "Token budget (D139): a size gauge over FRESH tokens (input + output + cache creation; cache reads are not counted, because a budget dominated by them measures re-reading rather than work). It STOPS NOTHING — tasqx is a store you call between turns and cannot preempt one — so read it as a signal: a task that blows its budget was usually too big to hand over whole. `task.get` and `task.brief` report `fresh_tokens` and `over` against it.",
        "",
        "",
        "",
        "",
    ),
    (
        "tasqx_modify_task",
        "ref",
        "reference",
        "",
        true,
        "Task reference: short_id (integer) or full UUID (string).",
        "",
        "",
        "",
        "",
    ),
    (
        "tasqx_modify_task",
        "set",
        "object",
        "",
        true,
        "Field → new value, e.g. {\"priority\":\"M\",\"due\":\"2026-07-22T17:00:00+02:00\"}.",
        "",
        "",
        "",
        "",
    ),
    (
        "tasqx_modify_task",
        "expected_rev",
        "integer",
        "",
        false,
        "Optimistic-concurrency guard. Supplied by the server from the task's current `_rev` when omitted; pass it only to pin a rev you read earlier. There is no last-writer-wins mode.",
        "",
        "",
        "",
        "",
    ),
    (
        "tasqx_complete_task",
        "ref",
        "reference",
        "",
        true,
        "Task reference: short_id (integer) or full UUID (string).",
        "",
        "",
        "",
        "",
    ),
    (
        "tasqx_complete_task",
        "tool",
        "string",
        "",
        false,
        "The AI tool doing the work, free-form (e.g. \"code-agent\"). Recorded on the completion event on its own; when token counts are present it also names the measurement, defaulting to `client` if you omit it. You do NOT need a token count to send it.",
        "",
        "",
        "",
        "",
    ),
    (
        "tasqx_complete_task",
        "model",
        "string",
        "",
        false,
        "The model doing the work, e.g. \"large-2\". Recorded on the completion event on its own, and carried on the measurement when token counts are present. You do NOT need a token count to send it.",
        "",
        "",
        "",
        "",
    ),
    (
        "tasqx_complete_task",
        "input_tokens",
        "integer",
        "",
        false,
        "Self-reported input tokens this \
         task cost (0 or more).",
        "",
        "",
        "",
        "",
    ),
    (
        "tasqx_complete_task",
        "output_tokens",
        "integer",
        "",
        false,
        "Self-reported output tokens this \
         task cost (0 or more).",
        "",
        "",
        "",
        "",
    ),
    (
        "tasqx_complete_task",
        "cache_read_tokens",
        "integer",
        "",
        false,
        "Self-reported cache-read tokens this \
         task cost (0 or more).",
        "",
        "",
        "",
        "",
    ),
    (
        "tasqx_complete_task",
        "cache_creation_tokens",
        "integer",
        "",
        false,
        "Self-reported cache-creation tokens this \
         task cost (0 or more).",
        "",
        "",
        "",
        "",
    ),
    (
        "tasqx_complete_task",
        "checks_passed",
        "strings",
        "",
        false,
        "Ids of the acceptance criteria this work proved (D138). Completing with criteria still open is NOT refused — nothing is blocked — but it is counted as an unproven completion by `tasqx_outcomes`, so mark what you actually proved.",
        "",
        "",
        "",
        "",
    ),
    (
        "tasqx_complete_task",
        "evidence",
        "string",
        "",
        false,
        "One citation covering the `checks_passed` above: a test name, an excerpt of output, a commit sha. Stored verbatim.",
        "",
        "",
        "",
        "",
    ),
    (
        "tasqx_complete_task",
        "force",
        "boolean",
        "",
        false,
        "Complete the task even though some of its dependencies are still open. Without it, a task with open blockers is refused with `conflict` naming them (D150). The override is recorded on the completion event and `tasqx_outcomes` counts it under `forced`.",
        "",
        "",
        "",
        "",
    ),
    (
        "tasqx_complete_task",
        "view",
        "choice",
        "views",
        false,
        "Default \"markdown\": the plain JSON result. \"card\" answers the D146 box card of the task AS COMPLETED — Delivered row, checks ticked or left open — inside a text code fence, as the first block, with the JSON result unchanged behind it. For the moment you show a PERSON what shipped; it replaces the tasqx_get_task re-read that used to follow every completion (D153).",
        "",
        "",
        "",
        "",
    ),
    (
        "tasqx_complete_task",
        "session_id",
        "string",
        "",
        false,
        "Correlation: your agent-session id, recorded on this \
         task's event for later token attribution. Pass it if your runtime exposes one.",
        "",
        "",
        "",
        "",
    ),
    (
        "tasqx_complete_task",
        "transcript_path",
        "string",
        "",
        false,
        "Correlation: absolute path to your session transcript/log file, recorded on this \
         task's event so token usage can be attributed from it later.",
        "",
        "",
        "",
        "",
    ),
    (
        "tasqx_complete_task",
        "client",
        "string",
        "",
        false,
        "The calling tool as \"<name> <version>\". Filled in automatically from the MCP clientInfo handshake when omitted — only pass it to override that.",
        "",
        "",
        "",
        "",
    ),
    (
        "tasqx_cancel_task",
        "ref",
        "reference",
        "",
        true,
        "Task reference: short_id (integer) or full UUID (string).",
        "",
        "",
        "",
        "",
    ),
    (
        "tasqx_reopen_task",
        "ref",
        "reference",
        "",
        true,
        "Task reference: short_id (integer) or full UUID (string).",
        "",
        "",
        "",
        "",
    ),
    (
        "tasqx_start_timer",
        "ref",
        "reference",
        "",
        true,
        "Task reference: short_id (integer) or full UUID (string).",
        "",
        "",
        "",
        "",
    ),
    (
        "tasqx_start_timer",
        "keep",
        "boolean",
        "",
        false,
        "Keep other active tasks running (opt out of single-active).",
        "",
        "",
        "",
        "",
    ),
    (
        "tasqx_start_timer",
        "actor",
        "string",
        "",
        false,
        "Who is asking for the clock (D140). Filled in automatically with this connection's id when omitted, so you do not normally pass it — supply your own only if you have a stable agent identity worth recording. Starting a task while ANOTHER actor holds an active clock is refused with `conflict` rather than silently stopping their timer and leaving their work untracked; pass keep:true to run both deliberately.",
        "",
        "",
        "",
        "",
    ),
    (
        "tasqx_start_timer",
        "session_id",
        "string",
        "",
        false,
        "Correlation: your agent-session id, recorded on this \
         task's event for later token attribution. Pass it if your runtime exposes one.",
        "",
        "",
        "",
        "",
    ),
    (
        "tasqx_start_timer",
        "transcript_path",
        "string",
        "",
        false,
        "Correlation: absolute path to your session transcript/log file, recorded on this \
         task's event so token usage can be attributed from it later.",
        "",
        "",
        "",
        "",
    ),
    (
        "tasqx_start_timer",
        "client",
        "string",
        "",
        false,
        "The calling tool as \"<name> <version>\". Filled in automatically from the MCP clientInfo handshake when omitted — only pass it to override that.",
        "",
        "",
        "",
        "",
    ),
    (
        "tasqx_stop_timer",
        "ref",
        "reference",
        "",
        true,
        "Task reference: short_id (integer) or full UUID (string).",
        "",
        "",
        "",
        "",
    ),
    (
        "tasqx_tag_task",
        "ref",
        "reference",
        "",
        true,
        "Task reference: short_id (integer) or full UUID (string).",
        "",
        "",
        "",
        "",
    ),
    (
        "tasqx_tag_task",
        "tags",
        "strings",
        "",
        true,
        "",
        "",
        "",
        "",
        "",
    ),
    (
        "tasqx_untag_task",
        "ref",
        "reference",
        "",
        true,
        "Task reference: short_id (integer) or full UUID (string).",
        "",
        "",
        "",
        "",
    ),
    (
        "tasqx_untag_task",
        "tags",
        "strings",
        "",
        true,
        "",
        "",
        "",
        "",
        "",
    ),
    (
        "tasqx_add_check",
        "ref",
        "reference",
        "",
        true,
        "Task reference: short_id (integer) or full UUID (string).",
        "",
        "",
        "",
        "",
    ),
    (
        "tasqx_add_check",
        "body",
        "string",
        "",
        true,
        "The criterion, in your own words. Stored verbatim.",
        "",
        "",
        "",
        "",
    ),
    (
        "tasqx_set_check",
        "ref",
        "reference",
        "",
        true,
        "Task reference: short_id (integer) or full UUID (string).",
        "",
        "",
        "",
        "",
    ),
    (
        "tasqx_set_check",
        "check_id",
        "string",
        "",
        true,
        "The check's id, from `tasqx_get_task` or the add result.",
        "",
        "",
        "",
        "",
    ),
    (
        "tasqx_set_check",
        "state",
        "choice",
        "check_states",
        true,
        "open | passed | failed.",
        "",
        "",
        "",
        "",
    ),
    (
        "tasqx_set_check",
        "evidence",
        "string",
        "",
        false,
        "Your proof: a test name, an excerpt of command output, a commit sha. Optional — some criteria are met by something nobody can quote, and inventing a citation is worse than an unproven `passed`.",
        "",
        "",
        "",
        "",
    ),
    (
        "tasqx_remove_check",
        "ref",
        "reference",
        "",
        true,
        "Task reference: short_id (integer) or full UUID (string).",
        "",
        "",
        "",
        "",
    ),
    (
        "tasqx_remove_check",
        "check_id",
        "string",
        "",
        true,
        "The check's id.",
        "",
        "",
        "",
        "",
    ),
    (
        "tasqx_annotate_task",
        "ref",
        "reference",
        "",
        true,
        "Task reference: short_id (integer) or full UUID (string).",
        "",
        "",
        "",
        "",
    ),
    (
        "tasqx_annotate_task",
        "body",
        "string",
        "",
        true,
        "Note text, stored verbatim. Multi-line markdown is fine.",
        "",
        "",
        "",
        "",
    ),
    (
        "tasqx_annotate_task",
        "include_body",
        "boolean",
        "",
        false,
        "Echo the stored body back in the response. Default true. A long note costs its own bytes twice — once in the request, once in this echo — so pass false to get `body_bytes` (a length) in place of `body` when you do not need the verbatim-storage proof.",
        "",
        "",
        "",
        "",
    ),
    (
        "tasqx_remove_annotation",
        "ref",
        "reference",
        "",
        true,
        "Task reference: short_id (integer) or full UUID (string).",
        "",
        "",
        "",
        "",
    ),
    (
        "tasqx_remove_annotation",
        "annotation_id",
        "string",
        "",
        true,
        "The annotation's id, as tasqx_annotate_task or tasqx_get_task reports it.",
        "",
        "",
        "",
        "",
    ),
    (
        "tasqx_add_dependency",
        "ref",
        "reference",
        "",
        true,
        "Task reference: short_id (integer) or full UUID (string).",
        "",
        "",
        "",
        "",
    ),
    (
        "tasqx_add_dependency",
        "depends_on",
        "reference",
        "",
        true,
        "The task `ref` must wait for: short_id (integer) or full UUID (string).",
        "",
        "",
        "",
        "",
    ),
    (
        "tasqx_remove_dependency",
        "ref",
        "reference",
        "",
        true,
        "Task reference: short_id (integer) or full UUID (string).",
        "",
        "",
        "",
        "",
    ),
    (
        "tasqx_remove_dependency",
        "depends_on",
        "reference",
        "",
        true,
        "The blocker to stop waiting for: short_id (integer) or full UUID (string).",
        "",
        "",
        "",
        "",
    ),
    (
        "tasqx_add_memory",
        "title",
        "string",
        "",
        true,
        "",
        "",
        "",
        "",
        "",
    ),
    (
        "tasqx_add_memory",
        "body",
        "string",
        "",
        true,
        "Stored verbatim; multi-line markdown is fine.",
        "",
        "",
        "",
        "",
    ),
    (
        "tasqx_add_memory",
        "source",
        "string",
        "",
        false,
        "Where this came from: a path, URL, or ticket.",
        "",
        "",
        "",
        "",
    ),
    (
        "tasqx_add_memory",
        "project",
        "string",
        "",
        false,
        "Optional project scope. Omit to leave the doc global/unscoped — it is not defaulted onto whatever project is current.",
        "",
        "",
        "",
        "",
    ),
    (
        "tasqx_update_memory",
        "id",
        "string",
        "",
        true,
        "The doc UUID, as printed by a search hit, `tasqx_add_memory`, or `tasqx_list_memory`.",
        "",
        "",
        "",
        "",
    ),
    (
        "tasqx_update_memory",
        "title",
        "string",
        "",
        false,
        "New title. Omit to leave it unchanged.",
        "",
        "",
        "",
        "",
    ),
    (
        "tasqx_update_memory",
        "body",
        "string",
        "",
        false,
        "New body, stored verbatim. Omit to leave it unchanged.",
        "",
        "",
        "",
        "",
    ),
    (
        "tasqx_update_memory",
        "source",
        "string",
        "",
        false,
        "New source. Omit to leave it unchanged.",
        "",
        "",
        "",
        "",
    ),
    (
        "tasqx_update_memory",
        "project",
        "string",
        "",
        false,
        "New project scope. Omit to leave it unchanged.",
        "",
        "",
        "",
        "",
    ),
    (
        "tasqx_update_memory",
        "expected_rev",
        "integer",
        "",
        false,
        "Optimistic-concurrency guard. Supplied by the server from the doc's current `rev` when omitted; pass it only to pin a rev you read earlier.",
        "",
        "",
        "",
        "",
    ),
    (
        "tasqx_remove_memory",
        "id",
        "string",
        "",
        true,
        "The document's id, as tasqx_search_memory reports it on a `doc` hit.",
        "",
        "",
        "",
        "",
    ),
    (
        "tasqx_create_project",
        "name",
        "string",
        "",
        true,
        "",
        "",
        "",
        "",
        "",
    ),
    (
        "tasqx_create_project",
        "description",
        "string",
        "",
        false,
        "",
        "",
        "",
        "",
        "",
    ),
];

/// The lists and limits the engine decides.
pub struct Vocabulary {
    pub sort_keys: Vec<String>,
    pub task_fields: Vec<String>,
    pub group_by: Vec<String>,
    pub summary_metrics: Vec<String>,
    pub outcome_metrics: Vec<String>,
    pub memory_scopes: Vec<String>,
    pub list_page: u64,
    pub max_limit: u64,
    pub memory_limit: u64,
}

/// What a [`Vocabulary`] says.
pub ghost struct VocabularyV {
    pub sort_keys: Seq<Seq<char>>,
    pub task_fields: Seq<Seq<char>>,
    pub group_by: Seq<Seq<char>>,
    pub summary_metrics: Seq<Seq<char>>,
    pub outcome_metrics: Seq<Seq<char>>,
    pub memory_scopes: Seq<Seq<char>>,
    pub list_page: u64,
    pub max_limit: u64,
    pub memory_limit: u64,
}

impl View for Vocabulary {
    type V = VocabularyV;

    open spec fn view(&self) -> VocabularyV {
        VocabularyV {
            sort_keys: texts(self.sort_keys@),
            task_fields: texts(self.task_fields@),
            group_by: texts(self.group_by@),
            summary_metrics: texts(self.summary_metrics@),
            outcome_metrics: texts(self.outcome_metrics@),
            memory_scopes: texts(self.memory_scopes@),
            list_page: self.list_page,
            max_limit: self.max_limit,
            memory_limit: self.memory_limit,
        }
    }
}

/// The first of a list, or nothing.
pub open spec fn first_of(v: Seq<Seq<char>>) -> Seq<char> {
    if v.len() > 0 {
        v[0]
    } else {
        Seq::empty()
    }
}

fn first(v: &Vec<String>) -> (r: String)
    ensures
        r@ == first_of(texts(v@)),
{
    assert(texts(v@).len() == v@.len());
    if v.len() > 0 {
        assert(texts(v@)[0] == v@[0]@);
        v[0].clone()
    } else {
        String::new()
    }
}

/// A value inside a description, by its name.
pub open spec fn named_value(name: Seq<char>, v: VocabularyV) -> Seq<char> {
    if name == "sort_keys"@ {
        joined(v.sort_keys, ", "@)
    } else if name == "list_page"@ {
        digits(v.list_page as nat)
    } else if name == "max_limit"@ {
        digits(v.max_limit as nat)
    } else if name == "memory_limit"@ {
        digits(v.memory_limit as nat)
    } else if name == "first_group"@ {
        first_of(v.group_by)
    } else if name == "first_scope"@ {
        first_of(v.memory_scopes)
    } else {
        Seq::empty()
    }
}

fn number_text(n: u64) -> (r: String)
    ensures
        r@ == digits(n as nat),
{
    let mut r: String = String::new();
    push_digits(&mut r, n as u128);
    assert(r@ =~= digits(n as nat));
    r
}

fn value_text(name: &str, v: &Vocabulary) -> (r: String)
    ensures
        r@ == named_value(name@, v@),
{
    if same(name, "sort_keys") {
        join(&v.sort_keys, ", ")
    } else if same(name, "list_page") {
        number_text(v.list_page)
    } else if same(name, "max_limit") {
        number_text(v.max_limit)
    } else if same(name, "memory_limit") {
        number_text(v.memory_limit)
    } else if same(name, "first_group") {
        first(&v.group_by)
    } else if same(name, "first_scope") {
        first(&v.memory_scopes)
    } else {
        String::new()
    }
}

/// The letters a priority can be.
pub open spec fn priority_letters() -> Seq<Seq<char>> {
    seq!["H"@, "M"@, "L"@]
}

/// The spellings a view can be.
pub open spec fn view_words() -> Seq<Seq<char>> {
    seq!["markdown"@, "card"@]
}

/// A list a property is chosen from, by its name.
pub open spec fn named_list(name: Seq<char>, v: VocabularyV) -> Seq<Seq<char>> {
    if name == "task_fields"@ {
        v.task_fields
    } else if name == "group_by"@ {
        v.group_by
    } else if name == "summary_metrics"@ {
        v.summary_metrics
    } else if name == "outcome_metrics"@ {
        v.outcome_metrics
    } else if name == "memory_scopes"@ {
        v.memory_scopes
    } else if name == "check_states"@ {
        check_states()
    } else if name == "priorities"@ {
        priority_letters()
    } else {
        view_words()
    }
}

/// The values of a list as an array, the way a schema offers them.
fn enum_of(name: &str, v: &Vocabulary) -> (r: Json)
    ensures
        r@ == JsonV::Arr(str_values(named_list(name@, v@))),
{
    if same(name, "task_fields") {
        Json::strings(&v.task_fields)
    } else if same(name, "group_by") {
        Json::strings(&v.group_by)
    } else if same(name, "summary_metrics") {
        Json::strings(&v.summary_metrics)
    } else if same(name, "outcome_metrics") {
        Json::strings(&v.outcome_metrics)
    } else if same(name, "memory_scopes") {
        Json::strings(&v.memory_scopes)
    } else if same(name, "check_states") {
        let mut l: Vec<String> = Vec::new();
        l.push("open".to_owned());
        l.push("passed".to_owned());
        l.push("failed".to_owned());
        assert(texts(l@) =~= check_states());
        Json::strings(&l)
    } else if same(name, "priorities") {
        let mut l: Vec<String> = Vec::new();
        l.push("H".to_owned());
        l.push("M".to_owned());
        l.push("L".to_owned());
        assert(texts(l@) =~= priority_letters());
        Json::strings(&l)
    } else {
        let mut l: Vec<String> = Vec::new();
        l.push("markdown".to_owned());
        l.push("card".to_owned());
        assert(texts(l@) =~= view_words());
        Json::strings(&l)
    }
}

/// A type on its own.
pub open spec fn typed(name: Seq<char>) -> Seq<(Seq<char>, JsonV)> {
    seq![("type"@, JsonV::Str(name))]
}

/// What a property's type says in a schema.
pub open spec fn kind_members(kind: Seq<char>, list: Seq<char>, v: VocabularyV) -> Seq<
    (Seq<char>, JsonV),
> {
    if kind == "reference"@ {
        seq![
            ("type"@, JsonV::Arr(seq![JsonV::Str("integer"@), JsonV::Str("string"@)])),
        ]
    } else if kind == "natural"@ {
        typed("integer"@).push(("minimum"@, JsonV::Int(0)))
    } else if kind == "strings"@ {
        typed("array"@).push(("items"@, JsonV::Obj(typed("string"@))))
    } else if kind == "choice"@ {
        typed("string"@).push(("enum"@, JsonV::Arr(str_values(named_list(list, v)))))
    } else if kind == "choices"@ {
        typed("array"@).push(
            (
                "items"@,
                JsonV::Obj(
                    typed("string"@).push(
                        ("enum"@, JsonV::Arr(str_values(named_list(list, v)))),
                    ),
                ),
            ),
        )
    } else {
        typed(kind)
    }
}

/// A row of properties as text.
pub ghost struct PropertyV {
    pub tool: Seq<char>,
    pub name: Seq<char>,
    pub kind: Seq<char>,
    pub list: Seq<char>,
    pub required: bool,
    pub text: Seq<char>,
    pub value: Seq<char>,
    pub text_2: Seq<char>,
    pub value_2: Seq<char>,
    pub text_3: Seq<char>,
}

/// What a row of [`PROPERTIES`] says.
pub open spec fn property_view(p: PropertyRow) -> PropertyV {
    PropertyV {
        tool: p.0@,
        name: p.1@,
        kind: p.2@,
        list: p.3@,
        required: p.4,
        text: p.5@,
        value: p.6@,
        text_2: p.7@,
        value_2: p.8@,
        text_3: p.9@,
    }
}

/// The description of a property.
pub open spec fn property_text(p: PropertyV, v: VocabularyV) -> Seq<char> {
    p.text + named_value(p.value, v) + p.text_2 + named_value(p.value_2, v) + p.text_3
}

/// A property in a schema.
pub open spec fn property_json(p: PropertyV, v: VocabularyV) -> JsonV {
    let m = kind_members(p.kind, p.list, v);
    if p.text.len() > 0 {
        JsonV::Obj(m.push(("description"@, JsonV::Str(property_text(p, v)))))
    } else {
        JsonV::Obj(m)
    }
}

fn type_only(name: &str) -> (f: Fields)
    ensures
        f@ == typed(name@),
{
    let mut f = Fields::new();
    f.put("type", Json::string(name));
    assert(f@ =~= typed(name@));
    f
}

fn kind_fields(kind: &str, list: &str, v: &Vocabulary) -> (f: Fields)
    ensures
        f@ == kind_members(kind@, list@, v@),
{
    if same(kind, "reference") {
        let mut l: Vec<String> = Vec::new();
        l.push("integer".to_owned());
        l.push("string".to_owned());
        let mut f = Fields::new();
        f.put("type", Json::strings(&l));
        proof {
            assert(texts(l@) =~= seq!["integer"@, "string"@]);
            assert(str_values(texts(l@)) =~= seq![
                JsonV::Str("integer"@),
                JsonV::Str("string"@),
            ]);
            assert(f@ =~= kind_members(kind@, list@, v@));
        }
        f
    } else if same(kind, "natural") {
        let mut f = type_only("integer");
        f.put("minimum", Json::Int(0));
        f
    } else if same(kind, "strings") {
        let mut f = type_only("array");
        f.put("items", type_only("string").done());
        f
    } else if same(kind, "choice") {
        let mut f = type_only("string");
        f.put("enum", enum_of(list, v));
        f
    } else if same(kind, "choices") {
        let mut items = type_only("string");
        items.put("enum", enum_of(list, v));
        let mut f = type_only("array");
        f.put("items", items.done());
        f
    } else {
        type_only(kind)
    }
}

fn property_schema(p: &PropertyRow, v: &Vocabulary) -> (r: Json)
    ensures
        r@ == property_json(property_view(*p), v@),
{
    let mut f = kind_fields(p.2, p.3, v);
    if !p.5.is_empty() {
        let mut d: String = p.5.to_owned();
        d.append(value_text(p.6, v).as_str());
        d.append(p.7);
        d.append(value_text(p.8, v).as_str());
        d.append(p.9);
        f.put("description", Json::Str(d));
    }
    f.done()
}

/// The properties of a tool among the first `n` rows.
pub open spec fn properties_of(tool: Seq<char>, v: VocabularyV, n: nat) -> Seq<(Seq<char>, JsonV)>
    decreases n,
{
    if n == 0 || n > 110 {
        Seq::empty()
    } else {
        let p = property_view(PROPERTIES@[n - 1]);
        if p.tool == tool {
            properties_of(tool, v, (n - 1) as nat).push((p.name, property_json(p, v)))
        } else {
            properties_of(tool, v, (n - 1) as nat)
        }
    }
}

/// The required properties of a tool among the first `n` rows.
pub open spec fn required_of(tool: Seq<char>, n: nat) -> Seq<Seq<char>>
    decreases n,
{
    if n == 0 || n > 110 {
        Seq::empty()
    } else {
        let p = property_view(PROPERTIES@[n - 1]);
        if p.tool == tool && p.required {
            required_of(tool, (n - 1) as nat).push(p.name)
        } else {
            required_of(tool, (n - 1) as nat)
        }
    }
}

/// The schema of a tool's arguments.
pub open spec fn schema_json(tool: Seq<char>, v: VocabularyV) -> JsonV {
    let m = typed("object"@).push(("properties"@, JsonV::Obj(properties_of(tool, v, 110))));
    let required = required_of(tool, 110);
    if required.len() > 0 {
        JsonV::Obj(m.push(("required"@, JsonV::Arr(str_values(required)))))
    } else {
        JsonV::Obj(m)
    }
}

fn schema(tool: &str, v: &Vocabulary) -> (r: Json)
    ensures
        r@ == schema_json(tool@, v@),
{
    let mut props = Fields::new();
    let mut required: Vec<String> = Vec::new();
    let mut i: usize = 0;
    assert(texts(required@) =~= Seq::empty());
    while i < PROPERTY_COUNT
        invariant
            i <= 110,
            props@ == properties_of(tool@, v@, i as nat),
            texts(required@) == required_of(tool@, i as nat),
        decreases 110 - i,
    {
        let p: PropertyRow = PROPERTIES[i];
        assert(p == PROPERTIES@[i as int]);
        if same(p.0, tool) {
            props.put(p.1, property_schema(&p, v));
            if p.4 {
                required.push(p.1.to_owned());
            }
        }
        i += 1;
    }
    assert(texts(required@).len() == required@.len());
    let mut f = type_only("object");
    f.put("properties", props.done());
    if required.len() > 0 {
        f.put("required", Json::strings(&required));
    }
    f.done()
}

/// A tool with its schema.
pub struct ToolSpec {
    pub name: &'static str,
    pub method: &'static str,
    pub write: bool,
    pub destructive: bool,
    pub idempotent: bool,
    pub description: &'static str,
    pub schema: Json,
}

/// What a [`ToolSpec`] says.
pub ghost struct ToolV {
    pub name: Seq<char>,
    pub method: Seq<char>,
    pub write: bool,
    pub destructive: bool,
    pub idempotent: bool,
    pub description: Seq<char>,
    pub schema: JsonV,
}

impl View for ToolSpec {
    type V = ToolV;

    open spec fn view(&self) -> ToolV {
        ToolV {
            name: self.name@,
            method: self.method@,
            write: self.write,
            destructive: self.destructive,
            idempotent: self.idempotent,
            description: self.description@,
            schema: self.schema@,
        }
    }
}

/// A tool, by its place in [`TOOLS`].
pub open spec fn tool_at(i: int, v: VocabularyV) -> ToolV {
    let t = TOOLS@[i];
    ToolV {
        name: t.0@,
        method: t.1@,
        write: t.2,
        destructive: t.3,
        idempotent: t.4,
        description: t.5@,
        schema: schema_json(t.0@, v),
    }
}

/// The first `n` tools.
pub open spec fn tools_spec(v: VocabularyV, n: nat) -> Seq<ToolV> {
    Seq::new(n, |i: int| tool_at(i, v))
}

/// The whole surface, each tool with its schema.
pub fn build_tool_specs(v: &Vocabulary) -> (r: Vec<ToolSpec>)
    ensures
        rows(r@) == tools_spec(v@, 29),
{
    let mut out: Vec<ToolSpec> = Vec::new();
    let mut i: usize = 0;
    assert(rows(out@) =~= tools_spec(v@, 0));
    while i < TOOL_COUNT
        invariant
            i <= 29,
            rows(out@) == tools_spec(v@, i as nat),
        decreases 29 - i,
    {
        let t: ToolRow = TOOLS[i];
        let one = ToolSpec {
            name: t.0,
            method: t.1,
            write: t.2,
            destructive: t.3,
            idempotent: t.4,
            description: t.5,
            schema: schema(t.0, v),
        };
        let ghost was = rows(out@);
        out.push(one);
        assert(rows(out@) =~= was.push(one@));
        assert(rows(out@) =~= tools_spec(v@, i as nat + 1));
        i += 1;
    }
    out
}

/// The tools as name and whether each writes, in the order they are listed.
pub fn tool_roster() -> (r: Vec<(&'static str, bool)>)
    ensures
        r@.len() == 29,
        forall|i: int|
            0 <= i < 29 ==> (#[trigger] r@[i]).0@ == TOOLS@[i].0@ && r@[i].1 == TOOLS@[i].2,
{
    let mut out: Vec<(&'static str, bool)> = Vec::new();
    let mut i: usize = 0;
    while i < TOOL_COUNT
        invariant
            i <= 29,
            out@.len() == i,
            forall|k: int|
                0 <= k < i ==> (#[trigger] out@[k]).0@ == TOOLS@[k].0@ && out@[k].1 == TOOLS@[k].2,
        decreases 29 - i,
    {
        out.push((TOOLS[i].0, TOOLS[i].2));
        i += 1;
    }
    out
}

/// The place of the first tool from `i` on with this name.
pub open spec fn tool_index(name: Seq<char>, i: int) -> Option<int>
    decreases 29 - i,
{
    if i < 0 || i >= 29 {
        None
    } else if TOOLS@[i].0@ == name {
        Some(i)
    } else {
        tool_index(name, i + 1)
    }
}

/// A tool's place is one in [`TOOLS`], and its name is the one asked for.
pub proof fn tool_index_names(name: Seq<char>, i: int)
    requires
        0 <= i,
    ensures
        tool_index(name, i) matches Some(k) ==> i <= k < 29 && TOOLS@[k].0@ == name,
    decreases 29 - i,
{
    if i < 29 && TOOLS@[i].0@ != name {
        tool_index_names(name, i + 1);
    }
}

/// The place of a tool, by its name.
pub fn find_tool(name: &str) -> (r: Option<usize>)
    ensures
        r is Some == tool_index(name@, 0) is Some,
        r is Some ==> r->0 == tool_index(name@, 0)->0 && r->0 < 29,
{
    let mut i: usize = 0;
    while i < TOOL_COUNT
        invariant
            i <= 29,
            tool_index(name@, 0) == tool_index(name@, i as int),
        decreases 29 - i,
    {
        if same(TOOLS[i].0, name) {
            return Some(i);
        }
        i += 1;
    }
    None
}

} // verus!
