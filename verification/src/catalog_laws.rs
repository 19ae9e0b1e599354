//! What holds of the table of tools, and of what a session is told.

use crate::catalog::TOOLS;
use crate::scope::INTRO;
use crate::scope::paragraphs;
use crate::scope::READ_ONLY;
use crate::scope::Scope;
use crate::scope::SEARCH;
use crate::scope::SEED;
use crate::scope::TRACK;
use crate::scope::UNEXPOSED_METHODS;
use crate::scope::WRITE_BACK;
use crate::text::joined;
use vstd::prelude::*;

verus! {

broadcast use vstd::string::group_string_axioms;

/// A number that tells the names of the tools apart.
spec fn name_code(s: Seq<char>) -> int {
    s.len() * 1000000 + (s[6] as u32) * 1000 + (s[s.len() - 1] as u32)
}

/// The number of the tool in this place.
spec fn name_number(i: int) -> int {
    if i == 0 {
        16108115
    } else if i == 1 {
        14103107
    } else if i == 2 {
        16098107
    } else if i == 3 {
        13115121
    } else if i == 4 {
        14111115
    } else if i == 5 {
        19108115
    } else if i == 6 {
        19115121
    } else if i == 7 {
        17108121
    } else if i == 8 {
        16103121
    } else if i == 9 {
        14097107
    } else if i == 10 {
        17109107
    } else if i == 11 {
        19099107
    } else if i == 12 {
        17099107
    } else if i == 13 {
        17114107
    } else if i == 14 {
        17115114
    } else if i == 15 {
        16115114
    } else if i == 16 {
        14116107
    } else if i == 17 {
        16117107
    } else if i == 18 {
        15097107
    } else if i == 19 {
        15115107
    } else if i == 20 {
        18114107
    } else if i == 21 {
        19097107
    } else if i == 22 {
        23114110
    } else if i == 23 {
        20097121
    } else if i == 24 {
        23114121
    } else if i == 25 {
        16097121
    } else if i == 26 {
        19117121
    } else if i == 27 {
        19114121
    } else if i == 28 {
        20099116
    } else {
        0
    }
}

#[verifier::spinoff_prover]
proof fn name_has_number(i: int)
    requires
        0 <= i < 29,
    ensures
        name_code(TOOLS@[i].0@) == name_number(i),
{
    if i == 0 {
        reveal_strlit("tasqx_list_tasks");
        assert(TOOLS@[0].0@ == "tasqx_list_tasks"@);
    } else if i == 1 {
        reveal_strlit("tasqx_get_task");
        assert(TOOLS@[1].0@ == "tasqx_get_task"@);
    } else if i == 2 {
        reveal_strlit("tasqx_brief_task");
        assert(TOOLS@[2].0@ == "tasqx_brief_task"@);
    } else if i == 3 {
        reveal_strlit("tasqx_summary");
        assert(TOOLS@[3].0@ == "tasqx_summary"@);
    } else if i == 4 {
        reveal_strlit("tasqx_outcomes");
        assert(TOOLS@[4].0@ == "tasqx_outcomes"@);
    } else if i == 5 {
        reveal_strlit("tasqx_list_projects");
        assert(TOOLS@[5].0@ == "tasqx_list_projects"@);
    } else if i == 6 {
        reveal_strlit("tasqx_search_memory");
        assert(TOOLS@[6].0@ == "tasqx_search_memory"@);
    } else if i == 7 {
        reveal_strlit("tasqx_list_memory");
        assert(TOOLS@[7].0@ == "tasqx_list_memory"@);
    } else if i == 8 {
        reveal_strlit("tasqx_get_memory");
        assert(TOOLS@[8].0@ == "tasqx_get_memory"@);
    } else if i == 9 {
        reveal_strlit("tasqx_add_task");
        assert(TOOLS@[9].0@ == "tasqx_add_task"@);
    } else if i == 10 {
        reveal_strlit("tasqx_modify_task");
        assert(TOOLS@[10].0@ == "tasqx_modify_task"@);
    } else if i == 11 {
        reveal_strlit("tasqx_complete_task");
        assert(TOOLS@[11].0@ == "tasqx_complete_task"@);
    } else if i == 12 {
        reveal_strlit("tasqx_cancel_task");
        assert(TOOLS@[12].0@ == "tasqx_cancel_task"@);
    } else if i == 13 {
        reveal_strlit("tasqx_reopen_task");
        assert(TOOLS@[13].0@ == "tasqx_reopen_task"@);
    } else if i == 14 {
        reveal_strlit("tasqx_start_timer");
        assert(TOOLS@[14].0@ == "tasqx_start_timer"@);
    } else if i == 15 {
        reveal_strlit("tasqx_stop_timer");
        assert(TOOLS@[15].0@ == "tasqx_stop_timer"@);
    } else if i == 16 {
        reveal_strlit("tasqx_tag_task");
        assert(TOOLS@[16].0@ == "tasqx_tag_task"@);
    } else if i == 17 {
        reveal_strlit("tasqx_untag_task");
        assert(TOOLS@[17].0@ == "tasqx_untag_task"@);
    } else if i == 18 {
        reveal_strlit("tasqx_add_check");
        assert(TOOLS@[18].0@ == "tasqx_add_check"@);
    } else if i == 19 {
        reveal_strlit("tasqx_set_check");
        assert(TOOLS@[19].0@ == "tasqx_set_check"@);
    } else if i == 20 {
        reveal_strlit("tasqx_remove_check");
        assert(TOOLS@[20].0@ == "tasqx_remove_check"@);
    } else if i == 21 {
        reveal_strlit("tasqx_annotate_task");
        assert(TOOLS@[21].0@ == "tasqx_annotate_task"@);
    } else if i == 22 {
        reveal_strlit("tasqx_remove_annotation");
        assert(TOOLS@[22].0@ == "tasqx_remove_annotation"@);
    } else if i == 23 {
        reveal_strlit("tasqx_add_dependency");
        assert(TOOLS@[23].0@ == "tasqx_add_dependency"@);
    } else if i == 24 {
        reveal_strlit("tasqx_remove_dependency");
        assert(TOOLS@[24].0@ == "tasqx_remove_dependency"@);
    } else if i == 25 {
        reveal_strlit("tasqx_add_memory");
        assert(TOOLS@[25].0@ == "tasqx_add_memory"@);
    } else if i == 26 {
        reveal_strlit("tasqx_update_memory");
        assert(TOOLS@[26].0@ == "tasqx_update_memory"@);
    } else if i == 27 {
        reveal_strlit("tasqx_remove_memory");
        assert(TOOLS@[27].0@ == "tasqx_remove_memory"@);
    } else if i == 28 {
        reveal_strlit("tasqx_create_project");
        assert(TOOLS@[28].0@ == "tasqx_create_project"@);
    } else {
    }
}

/// A number that tells the methods apart, those with a tool and those without.
spec fn method_code(s: Seq<char>) -> int {
    s.len() * 1000000000 + (s[0] as u32) * 1000000 + (s[6] as u32) * 1000 + (s[s.len() - 2] as u32)
}

/// The number of the method in this place: those with a tool come first.
spec fn method_number(i: int) -> int {
    if i == 0 {
        9116105115
    } else if i == 1 {
        8116101101
    } else if i == 2 {
        10116114101
    } else if i == 3 {
        14114046114
    } else if i == 4 {
        15114046101
    } else if i == 5 {
        12112116115
    } else if i == 6 {
        13109046099
    } else if i == 7 {
        11109046115
    } else if i == 8 {
        10109046101
    } else if i == 9 {
        8116100100
    } else if i == 10 {
        11116111102
    } else if i == 11 {
        9116111110
    } else if i == 12 {
        11116097101
    } else if i == 13 {
        11116101101
    } else if i == 14 {
        10116116114
    } else if i == 15 {
        9116116111
    } else if i == 16 {
        7116100100
    } else if i == 17 {
        10116109118
    } else if i == 18 {
        9099097100
    } else if i == 19 {
        9099115101
    } else if i == 20 {
        12099114118
    } else if i == 21 {
        14097116100
    } else if i == 22 {
        17097116118
    } else if i == 23 {
        14100101100
    } else if i == 24 {
        17100101118
    } else if i == 25 {
        10109046100
    } else if i == 26 {
        13109046116
    } else if i == 27 {
        13109046118
    } else if i == 28 {
        14112116116
    } else if i == 29 {
        17099097101
    } else if i == 30 {
        10101108115
    } else if i == 31 {
        12101114114
    } else if i == 32 {
        13109046114
    } else if i == 33 {
        11111116117
    } else if i == 34 {
        15112116118
    } else if i == 35 {
        11112116115
    } else if i == 36 {
        13114101114
    } else if i == 37 {
        12115101114
    } else if i == 38 {
        12115105114
    } else if i == 39 {
        9116097100
    } else if i == 40 {
        12116114118
    } else if i == 41 {
        16116046116
    } else {
        0
    }
}

#[verifier::spinoff_prover]
proof fn method_has_number(i: int)
    requires
        0 <= i < 29,
    ensures
        method_code(TOOLS@[i].1@) == method_number(i),
{
    if i == 0 {
        reveal_strlit("task.list");
        assert(TOOLS@[0].1@ == "task.list"@);
    } else if i == 1 {
        reveal_strlit("task.get");
        assert(TOOLS@[1].1@ == "task.get"@);
    } else if i == 2 {
        reveal_strlit("task.brief");
        assert(TOOLS@[2].1@ == "task.brief"@);
    } else if i == 3 {
        reveal_strlit("report.summary");
        assert(TOOLS@[3].1@ == "report.summary"@);
    } else if i == 4 {
        reveal_strlit("report.outcomes");
        assert(TOOLS@[4].1@ == "report.outcomes"@);
    } else if i == 5 {
        reveal_strlit("project.list");
        assert(TOOLS@[5].1@ == "project.list"@);
    } else if i == 6 {
        reveal_strlit("memory.search");
        assert(TOOLS@[6].1@ == "memory.search"@);
    } else if i == 7 {
        reveal_strlit("memory.list");
        assert(TOOLS@[7].1@ == "memory.list"@);
    } else if i == 8 {
        reveal_strlit("memory.get");
        assert(TOOLS@[8].1@ == "memory.get"@);
    } else if i == 9 {
        reveal_strlit("task.add");
        assert(TOOLS@[9].1@ == "task.add"@);
    } else if i == 10 {
        reveal_strlit("task.modify");
        assert(TOOLS@[10].1@ == "task.modify"@);
    } else if i == 11 {
        reveal_strlit("task.done");
        assert(TOOLS@[11].1@ == "task.done"@);
    } else if i == 12 {
        reveal_strlit("task.cancel");
        assert(TOOLS@[12].1@ == "task.cancel"@);
    } else if i == 13 {
        reveal_strlit("task.reopen");
        assert(TOOLS@[13].1@ == "task.reopen"@);
    } else if i == 14 {
        reveal_strlit("task.start");
        assert(TOOLS@[14].1@ == "task.start"@);
    } else if i == 15 {
        reveal_strlit("task.stop");
        assert(TOOLS@[15].1@ == "task.stop"@);
    } else if i == 16 {
        reveal_strlit("tag.add");
        assert(TOOLS@[16].1@ == "tag.add"@);
    } else if i == 17 {
        reveal_strlit("tag.remove");
        assert(TOOLS@[17].1@ == "tag.remove"@);
    } else if i == 18 {
        reveal_strlit("check.add");
        assert(TOOLS@[18].1@ == "check.add"@);
    } else if i == 19 {
        reveal_strlit("check.set");
        assert(TOOLS@[19].1@ == "check.set"@);
    } else if i == 20 {
        reveal_strlit("check.remove");
        assert(TOOLS@[20].1@ == "check.remove"@);
    } else if i == 21 {
        reveal_strlit("annotation.add");
        assert(TOOLS@[21].1@ == "annotation.add"@);
    } else if i == 22 {
        reveal_strlit("annotation.remove");
        assert(TOOLS@[22].1@ == "annotation.remove"@);
    } else if i == 23 {
        reveal_strlit("dependency.add");
        assert(TOOLS@[23].1@ == "dependency.add"@);
    } else if i == 24 {
        reveal_strlit("dependency.remove");
        assert(TOOLS@[24].1@ == "dependency.remove"@);
    } else if i == 25 {
        reveal_strlit("memory.add");
        assert(TOOLS@[25].1@ == "memory.add"@);
    } else if i == 26 {
        reveal_strlit("memory.update");
        assert(TOOLS@[26].1@ == "memory.update"@);
    } else if i == 27 {
        reveal_strlit("memory.remove");
        assert(TOOLS@[27].1@ == "memory.remove"@);
    } else if i == 28 {
        reveal_strlit("project.create");
        assert(TOOLS@[28].1@ == "project.create"@);
    } else {
    }
}

#[verifier::spinoff_prover]
proof fn unexposed_has_number(i: int)
    requires
        0 <= i < 13,
    ensures
        method_code(UNEXPOSED_METHODS@[i].0@) == method_number(29 + i),
{
    if i == 0 {
        reveal_strlit("core.capabilities");
        assert(UNEXPOSED_METHODS@[0].0@ == "core.capabilities"@);
    } else if i == 1 {
        reveal_strlit("event.list");
        assert(UNEXPOSED_METHODS@[1].0@ == "event.list"@);
    } else if i == 2 {
        reveal_strlit("event.revert");
        assert(UNEXPOSED_METHODS@[2].0@ == "event.revert"@);
    } else if i == 3 {
        reveal_strlit("memory.import");
        assert(UNEXPOSED_METHODS@[3].0@ == "memory.import"@);
    } else if i == 4 {
        reveal_strlit("otlp.status");
        assert(UNEXPOSED_METHODS@[4].0@ == "otlp.status"@);
    } else if i == 5 {
        reveal_strlit("project.archive");
        assert(UNEXPOSED_METHODS@[5].0@ == "project.archive"@);
    } else if i == 6 {
        reveal_strlit("project.use");
        assert(UNEXPOSED_METHODS@[6].0@ == "project.use"@);
    } else if i == 7 {
        reveal_strlit("reminder.fire");
        assert(UNEXPOSED_METHODS@[7].0@ == "reminder.fire"@);
    } else if i == 8 {
        reveal_strlit("store.export");
        assert(UNEXPOSED_METHODS@[8].0@ == "store.export"@);
    } else if i == 9 {
        reveal_strlit("store.import");
        assert(UNEXPOSED_METHODS@[9].0@ == "store.import"@);
    } else if i == 10 {
        reveal_strlit("token.add");
        assert(UNEXPOSED_METHODS@[10].0@ == "token.add"@);
    } else if i == 11 {
        reveal_strlit("token.remove");
        assert(UNEXPOSED_METHODS@[11].0@ == "token.remove"@);
    } else if i == 12 {
        reveal_strlit("tokens.recompute");
        assert(UNEXPOSED_METHODS@[12].0@ == "tokens.recompute"@);
    } else {
    }
}

/// No two tools share a name or a method, and a tool that only reads destroys
/// nothing and may be called twice.
pub proof fn tools_are_distinct(i: int, j: int)
    requires
        0 <= i < 29,
        0 <= j < 29,
    ensures
        TOOLS@[i].0@ == TOOLS@[j].0@ ==> i == j,
        TOOLS@[i].1@ == TOOLS@[j].1@ ==> i == j,
        !TOOLS@[i].2 ==> !TOOLS@[i].3 && TOOLS@[i].4,
{
    name_has_number(i);
    name_has_number(j);
    method_has_number(i);
    method_has_number(j);
}

/// No method both has a tool and is listed as having none, and no method is
/// listed twice.
pub proof fn unexposed_methods_have_no_tool(i: int, j: int, k: int)
    requires
        0 <= i < 13,
        0 <= j < 13,
        0 <= k < 29,
    ensures
        UNEXPOSED_METHODS@[i].0@ == UNEXPOSED_METHODS@[j].0@ ==> i == j,
        UNEXPOSED_METHODS@[i].0@ != TOOLS@[k].1@,
{
    unexposed_has_number(i);
    unexposed_has_number(j);
    method_has_number(k);
}

/// Every method without a tool is argued for at some length.
#[verifier::spinoff_prover]
pub proof fn unexposed_methods_are_argued_for(i: int)
    requires
        0 <= i < 13,
    ensures
        UNEXPOSED_METHODS@[i].1@.len() > 40,
{
    if i == 0 {
        reveal_strlit("the MCP handshake already answers this question: `initialize` reports the protocol          revision and scope, and `tools/list` reports the surface. A second, differently          shaped capability document is a second thing to keep in sync.");
        assert(UNEXPOSED_METHODS@[0].1@ == "the MCP handshake already answers this question: `initialize` reports the protocol          revision and scope, and `tools/list` reports the surface. A second, differently          shaped capability document is a second thing to keep in sync."@);
    } else if i == 1 {
        reveal_strlit("the audit log is unbounded and has no paging, so exposing it would repeat the          `task.get` mistake D63 fixed. It needs the same limit/offset treatment before it          can be a tool; no client has asked for it yet.");
        assert(UNEXPOSED_METHODS@[1].1@ == "the audit log is unbounded and has no paging, so exposing it would repeat the          `task.get` mistake D63 fixed. It needs the same limit/offset treatment before it          can be a tool; no client has asked for it yet."@);
    } else if i == 2 {
        reveal_strlit("tasqx has an undo (D54) and an agent cannot reach it, which is the sharpest single          omission on this list. It stays off until the tool can show what it is about to          undo: `event.revert` acts on the last matching event, and its blast radius depends          on store state the calling agent has not read. A destructive one-shot whose effect          the caller cannot see is not a tool, it is a coin flip.");
        assert(UNEXPOSED_METHODS@[2].1@ == "tasqx has an undo (D54) and an agent cannot reach it, which is the sharpest single          omission on this list. It stays off until the tool can show what it is about to          undo: `event.revert` acts on the last matching event, and its blast radius depends          on store state the calling agent has not read. A destructive one-shot whose effect          the caller cannot see is not a tool, it is a coin flip."@);
    } else if i == 3 {
        reveal_strlit("it takes a batch of documents read off a filesystem, and the filesystem the CLI          reads is not the one an MCP client is on. `memory.add` is the per-document tool          that does reach across the wire.");
        assert(UNEXPOSED_METHODS@[3].1@ == "it takes a batch of documents read off a filesystem, and the filesystem the CLI          reads is not the one an MCP client is on. `memory.add` is the per-document tool          that does reach across the wire."@);
    } else if i == 4 {
        reveal_strlit("an operator diagnostic for a machine-local, opt-in receiver (#18) — is telemetry reaching THIS daemon on THIS machine — not a fact about any task an agent is working. `tasqx config store` / a CLI verb is where a human checks it (#222).");
        assert(UNEXPOSED_METHODS@[4].1@ == "an operator diagnostic for a machine-local, opt-in receiver (#18) — is telemetry reaching THIS daemon on THIS machine — not a fact about any task an agent is working. `tasqx config store` / a CLI verb is where a human checks it (#222)."@);
    } else if i == 5 {
        reveal_strlit("retiring a project is a decision about the human's workspace, not about the work.          An agent asked to tidy the project list is being asked to make that decision on          their behalf, and the CLI is where it belongs.");
        assert(UNEXPOSED_METHODS@[5].1@ == "retiring a project is a decision about the human's workspace, not about the work.          An agent asked to tidy the project list is being asked to make that decision on          their behalf, and the CLI is where it belongs."@);
    } else if i == 6 {
        reveal_strlit("ruled out by D22: an agent has `project` on `task.add` and should name it, rather          than silently re-aiming the human's default for every later call, including the          human's own.");
        assert(UNEXPOSED_METHODS@[6].1@ == "ruled out by D22: an agent has `project` on `task.add` and should name it, rather          than silently re-aiming the human's default for every later call, including the          human's own."@);
    } else if i == 7 {
        reveal_strlit("daemon-internal. Its `reminded` event is a dedupe key and a push surface, not a          thing a client asks for.");
        assert(UNEXPOSED_METHODS@[7].1@ == "daemon-internal. Its `reminded` event is a dedupe key and a push surface, not a          thing a client asks for."@);
    } else if i == 8 {
        reveal_strlit("an agent cannot snapshot what it just wrote, and that is a real gap — but the          payload is the whole store, which is exactly the size problem D63 and D66 spent          two rounds on. It needs a filter and a budget before it is a tool rather than a          way to blow a client's limit in one call.");
        assert(UNEXPOSED_METHODS@[8].1@ == "an agent cannot snapshot what it just wrote, and that is a real gap — but the          payload is the whole store, which is exactly the size problem D63 and D66 spent          two rounds on. It needs a filter and a budget before it is a tool rather than a          way to blow a client's limit in one call."@);
    } else if i == 9 {
        reveal_strlit("it overwrites, in bulk, from a document nobody has reviewed. The confirmation model          (§7) defers to the host's gate, and a host gate on a call whose diff nobody can see          is not a safeguard.");
        assert(UNEXPOSED_METHODS@[9].1@ == "it overwrites, in bulk, from a document nobody has reviewed. The confirmation model          (§7) defers to the host's gate, and a host gate on a call whose diff nobody can see          is not a safeguard."@);
    } else if i == 10 {
        reveal_strlit("a measurement after the fact, and D50 makes the completion's self-report the primary channel precisely so one task never mixes channels. An agent with a count to report has `tasqx_complete_task`.");
        assert(UNEXPOSED_METHODS@[10].1@ == "a measurement after the fact, and D50 makes the completion's self-report the primary channel precisely so one task never mixes channels. An agent with a count to report has `tasqx_complete_task`."@);
    } else if i == 11 {
        reveal_strlit("the corrective half of `token.add` (#210), and the same reasoning keeps it off: an agent that reports a wrong count fixes it by reporting the right one, and a removal an agent could reach unsupervised on the ledger a lead reads for budget decisions is a bigger foot-gun than the gap it closes. A human runs `tasqx api token.remove` instead.");
        assert(UNEXPOSED_METHODS@[11].1@ == "the corrective half of `token.add` (#210), and the same reasoning keeps it off: an agent that reports a wrong count fixes it by reporting the right one, and a removal an agent could reach unsupervised on the ledger a lead reads for budget decisions is a bigger foot-gun than the gap it closes. A human runs `tasqx api token.remove` instead."@);
    } else if i == 12 {
        reveal_strlit("a maintenance pass over the whole store's attribution. It is an operator action with          a runtime proportional to history, not a step in anybody's task.");
        assert(UNEXPOSED_METHODS@[12].1@ == "a maintenance pass over the whole store's attribution. It is an operator action with          a runtime proportional to history, not a step in anybody's task."@);
    } else {
    }
}

/// Whether a part of a text has no underscore.
spec fn plain_part(s: Seq<char>, from: int, to: int) -> bool
    decreases to - from,
{
    from >= to || (s[from] != '_' && plain_part(s, from + 1, to))
}

proof fn plain_part_is_plain(s: Seq<char>, from: int, to: int)
    requires
        plain_part(s, from, to),
    ensures
        forall|i: int| from <= i < to ==> s[i] != '_',
    decreases to - from,
{
    if from < to {
        plain_part_is_plain(s, from + 1, to);
    }
}

#[verifier::spinoff_prover]
proof fn intro_is_plain()
    ensures
        INTRO@.len() == 208,
        forall|i: int| 0 <= i < 208 ==> INTRO@[i] != '_',
{
    reveal_strlit("tasqx is this workspace's backlog and long-term memory: one searchable index over imported knowledge docs and the annotations written on tasks. Use it instead of an in-conversation todo list or a memory file.");
    let s = "tasqx is this workspace's backlog and long-term memory: one searchable index over imported knowledge docs and the annotations written on tasks. Use it instead of an in-conversation todo list or a memory file."@;
    assert(INTRO@ == s);
    reveal_with_fuel(plain_part, 18);
    assert(plain_part(s, 208, 208));
    assert(plain_part(s, 192, 208));
    assert(plain_part(s, 176, 208));
    assert(plain_part(s, 160, 208));
    assert(plain_part(s, 144, 208));
    assert(plain_part(s, 128, 208));
    assert(plain_part(s, 112, 208));
    assert(plain_part(s, 96, 208));
    assert(plain_part(s, 80, 208));
    assert(plain_part(s, 64, 208));
    assert(plain_part(s, 48, 208));
    assert(plain_part(s, 32, 208));
    assert(plain_part(s, 16, 208));
    assert(plain_part(s, 0, 208));
    plain_part_is_plain(s, 0, 208);
}

#[verifier::spinoff_prover]
proof fn search_names_three_tools()
    ensures
        SEARCH@.len() == 452,
        forall|i: int| 0 <= i < 452 && SEARCH@[i] == '_' ==> i == 24 || i == 31 || i == 379 || i == 383 || i == 442 || i == 446,
        SEARCH@[19] == 't',
        SEARCH@[25] == 's',
        SEARCH@[26] == 'e',
        SEARCH@[27] == 'a',
        SEARCH@[32] == 'm',
        SEARCH@[33] == 'e',
        SEARCH@[34] == 'm',
        SEARCH@[374] == 't',
        SEARCH@[378] == 'x',
        SEARCH@[380] == 'g',
        SEARCH@[381] == 'e',
        SEARCH@[382] == 't',
        SEARCH@[384] == 'm',
        SEARCH@[385] == 'e',
        SEARCH@[386] == 'm',
        SEARCH@[437] == 't',
        SEARCH@[441] == 'x',
        SEARCH@[443] == 'g',
        SEARCH@[444] == 'e',
        SEARCH@[445] == 't',
        SEARCH@[447] == 't',
        SEARCH@[448] == 'a',
        SEARCH@[449] == 's',
        SEARCH@.subrange(19, 38) == TOOLS@[6].0@,
        SEARCH@.subrange(374, 390) == TOOLS@[8].0@,
        SEARCH@.subrange(437, 451) == TOOLS@[1].0@,
{
    reveal_strlit("Search first. Call tasqx_search_memory before resuming work, choosing between designs, touching a convention-bearing file, or asserting how this project does something. Query with two or three keywords, never a sentence: every word is required, and `matched` shows what ran. Try a second wording before concluding nothing is there. A hit is a snippet: read a doc whole with tasqx_get_memory, and an annotation (source `task:#<id>`) with tasqx_get_task.");
    let s = "Search first. Call tasqx_search_memory before resuming work, choosing between designs, touching a convention-bearing file, or asserting how this project does something. Query with two or three keywords, never a sentence: every word is required, and `matched` shows what ran. Try a second wording before concluding nothing is there. A hit is a snippet: read a doc whole with tasqx_get_memory, and an annotation (source `task:#<id>`) with tasqx_get_task."@;
    assert(SEARCH@ == s);
    reveal_with_fuel(plain_part, 18);
    assert(plain_part(s, 24, 24));
    assert(plain_part(s, 8, 24));
    assert(plain_part(s, 0, 24));
    plain_part_is_plain(s, 0, 24);
    assert(plain_part(s, 31, 31));
    assert(plain_part(s, 25, 31));
    plain_part_is_plain(s, 25, 31);
    assert(plain_part(s, 379, 379));
    assert(plain_part(s, 363, 379));
    assert(plain_part(s, 347, 379));
    assert(plain_part(s, 331, 379));
    assert(plain_part(s, 315, 379));
    assert(plain_part(s, 299, 379));
    assert(plain_part(s, 283, 379));
    assert(plain_part(s, 267, 379));
    assert(plain_part(s, 251, 379));
    assert(plain_part(s, 235, 379));
    assert(plain_part(s, 219, 379));
    assert(plain_part(s, 203, 379));
    assert(plain_part(s, 187, 379));
    assert(plain_part(s, 171, 379));
    assert(plain_part(s, 155, 379));
    assert(plain_part(s, 139, 379));
    assert(plain_part(s, 123, 379));
    assert(plain_part(s, 107, 379));
    assert(plain_part(s, 91, 379));
    assert(plain_part(s, 75, 379));
    assert(plain_part(s, 59, 379));
    assert(plain_part(s, 43, 379));
    assert(plain_part(s, 32, 379));
    plain_part_is_plain(s, 32, 379);
    assert(plain_part(s, 383, 383));
    assert(plain_part(s, 380, 383));
    plain_part_is_plain(s, 380, 383);
    assert(plain_part(s, 442, 442));
    assert(plain_part(s, 426, 442));
    assert(plain_part(s, 410, 442));
    assert(plain_part(s, 394, 442));
    assert(plain_part(s, 384, 442));
    plain_part_is_plain(s, 384, 442);
    assert(plain_part(s, 446, 446));
    assert(plain_part(s, 443, 446));
    plain_part_is_plain(s, 443, 446);
    assert(plain_part(s, 452, 452));
    assert(plain_part(s, 447, 452));
    plain_part_is_plain(s, 447, 452);
    reveal_strlit("tasqx_search_memory");
    assert(TOOLS@[6].0@ == "tasqx_search_memory"@);
    assert(s.subrange(19, 38) =~= "tasqx_search_memory"@);
    reveal_strlit("tasqx_get_memory");
    assert(TOOLS@[8].0@ == "tasqx_get_memory"@);
    assert(s.subrange(374, 390) =~= "tasqx_get_memory"@);
    reveal_strlit("tasqx_get_task");
    assert(TOOLS@[1].0@ == "tasqx_get_task"@);
    assert(s.subrange(437, 451) =~= "tasqx_get_task"@);
}

#[verifier::spinoff_prover]
proof fn track_names_tools()
    ensures
        TRACK@.len() == 642,
        forall|i: int| 0 <= i < 642 && TRACK@[i] == '_' ==> i == 128 || i == 133 || i == 155 || i == 162 || i == 177 || i == 181 || i == 203 || i == 207 || i == 239 || i == 243 || i == 295 || i == 300 || i == 403 || i == 409 || i == 426 || i == 432 || i == 458 || i == 467 || i == 519 || i == 528 || i == 550 || i == 612 || i == 619,
        TRACK@[123] == 't',
        TRACK@[128] == '_',
        TRACK@[129] == 'l',
        TRACK@[130] == 'i',
        TRACK@[131] == 's',
        TRACK@[134] == 'p',
        TRACK@[135] == 'r',
        TRACK@[136] == 'o',
        TRACK@[150] == 't',
        TRACK@[156] == 'c',
        TRACK@[157] == 'r',
        TRACK@[158] == 'e',
        TRACK@[163] == 'p',
        TRACK@[164] == 'r',
        TRACK@[165] == 'o',
        TRACK@[172] == 't',
        TRACK@[176] == 'x',
        TRACK@[178] == 'a',
        TRACK@[179] == 'd',
        TRACK@[180] == 'd',
        TRACK@[182] == 't',
        TRACK@[183] == 'a',
        TRACK@[184] == 's',
        TRACK@[198] == 't',
        TRACK@[202] == 'x',
        TRACK@[204] == 'a',
        TRACK@[205] == 'd',
        TRACK@[206] == 'd',
        TRACK@[208] == 'd',
        TRACK@[209] == 'e',
        TRACK@[210] == 'p',
        TRACK@[234] == 't',
        TRACK@[238] == 'x',
        TRACK@[240] == 'a',
        TRACK@[241] == 'd',
        TRACK@[242] == 'd',
        TRACK@[244] == 'c',
        TRACK@[245] == 'h',
        TRACK@[246] == 'e',
        TRACK@[290] == 't',
        TRACK@[295] == '_',
        TRACK@[296] == 'l',
        TRACK@[297] == 'i',
        TRACK@[298] == 's',
        TRACK@[301] == 't',
        TRACK@[302] == 'a',
        TRACK@[303] == 's',
        TRACK@[398] == 't',
        TRACK@[404] == 'b',
        TRACK@[405] == 'r',
        TRACK@[406] == 'i',
        TRACK@[410] == 't',
        TRACK@[411] == 'a',
        TRACK@[412] == 's',
        TRACK@[421] == 't',
        TRACK@[427] == 's',
        TRACK@[428] == 't',
        TRACK@[429] == 'a',
        TRACK@[433] == 't',
        TRACK@[434] == 'i',
        TRACK@[435] == 'm',
        TRACK@[453] == 't',
        TRACK@[459] == 'a',
        TRACK@[460] == 'n',
        TRACK@[461] == 'n',
        TRACK@[462] == 'o',
        TRACK@[468] == 't',
        TRACK@[469] == 'a',
        TRACK@[470] == 's',
        TRACK@[514] == 't',
        TRACK@[520] == 'c',
        TRACK@[521] == 'o',
        TRACK@[522] == 'm',
        TRACK@[523] == 'p',
        TRACK@[529] == 't',
        TRACK@[530] == 'a',
        TRACK@[531] == 's',
        TRACK@[545] == 'h',
        TRACK@[551] == 'p',
        TRACK@[552] == 'a',
        TRACK@[553] == 's',
        TRACK@[607] == 't',
        TRACK@[613] == 'c',
        TRACK@[614] == 'a',
        TRACK@[615] == 'n',
        TRACK@[620] == 't',
        TRACK@[621] == 'a',
        TRACK@[622] == 's',
        TRACK@.subrange(123, 142) == TOOLS@[5].0@,
        TRACK@.subrange(150, 170) == TOOLS@[28].0@,
        TRACK@.subrange(172, 186) == TOOLS@[9].0@,
        TRACK@.subrange(198, 218) == TOOLS@[23].0@,
        TRACK@.subrange(234, 249) == TOOLS@[18].0@,
        TRACK@.subrange(290, 306) == TOOLS@[0].0@,
        TRACK@.subrange(398, 414) == TOOLS@[2].0@,
        TRACK@.subrange(421, 438) == TOOLS@[14].0@,
        TRACK@.subrange(453, 472) == TOOLS@[21].0@,
        TRACK@.subrange(514, 533) == TOOLS@[11].0@,
        TRACK@.subrange(607, 624) == TOOLS@[12].0@,
{
    reveal_strlit("Track multi-step work as tasks. Anything with more than one step, or that could outlive this session, goes in the backlog: tasqx_list_projects before tasqx_create_project, tasqx_add_task per piece, tasqx_add_dependency to order them, tasqx_add_check for acceptance criteria. Pick work with tasqx_list_tasks and the filter `@working`; blocked and waiting tasks are hidden there by design. Per task: tasqx_brief_task, then tasqx_start_timer, do the work, tasqx_annotate_task with what was decided and delivered, and tasqx_complete_task naming in checks_passed what you proved. Obsolete work is cancelled with tasqx_cancel_task, never left open.");
    let s = "Track multi-step work as tasks. Anything with more than one step, or that could outlive this session, goes in the backlog: tasqx_list_projects before tasqx_create_project, tasqx_add_task per piece, tasqx_add_dependency to order them, tasqx_add_check for acceptance criteria. Pick work with tasqx_list_tasks and the filter `@working`; blocked and waiting tasks are hidden there by design. Per task: tasqx_brief_task, then tasqx_start_timer, do the work, tasqx_annotate_task with what was decided and delivered, and tasqx_complete_task naming in checks_passed what you proved. Obsolete work is cancelled with tasqx_cancel_task, never left open."@;
    assert(TRACK@ == s);
    reveal_with_fuel(plain_part, 18);
    assert(plain_part(s, 128, 128));
    assert(plain_part(s, 112, 128));
    assert(plain_part(s, 96, 128));
    assert(plain_part(s, 80, 128));
    assert(plain_part(s, 64, 128));
    assert(plain_part(s, 48, 128));
    assert(plain_part(s, 32, 128));
    assert(plain_part(s, 16, 128));
    assert(plain_part(s, 0, 128));
    plain_part_is_plain(s, 0, 128);
    assert(plain_part(s, 133, 133));
    assert(plain_part(s, 129, 133));
    plain_part_is_plain(s, 129, 133);
    assert(plain_part(s, 155, 155));
    assert(plain_part(s, 139, 155));
    assert(plain_part(s, 134, 155));
    plain_part_is_plain(s, 134, 155);
    assert(plain_part(s, 162, 162));
    assert(plain_part(s, 156, 162));
    plain_part_is_plain(s, 156, 162);
    assert(plain_part(s, 177, 177));
    assert(plain_part(s, 163, 177));
    plain_part_is_plain(s, 163, 177);
    assert(plain_part(s, 181, 181));
    assert(plain_part(s, 178, 181));
    plain_part_is_plain(s, 178, 181);
    assert(plain_part(s, 203, 203));
    assert(plain_part(s, 187, 203));
    assert(plain_part(s, 182, 203));
    plain_part_is_plain(s, 182, 203);
    assert(plain_part(s, 207, 207));
    assert(plain_part(s, 204, 207));
    plain_part_is_plain(s, 204, 207);
    assert(plain_part(s, 239, 239));
    assert(plain_part(s, 223, 239));
    assert(plain_part(s, 208, 239));
    plain_part_is_plain(s, 208, 239);
    assert(plain_part(s, 243, 243));
    assert(plain_part(s, 240, 243));
    plain_part_is_plain(s, 240, 243);
    assert(plain_part(s, 295, 295));
    assert(plain_part(s, 279, 295));
    assert(plain_part(s, 263, 295));
    assert(plain_part(s, 247, 295));
    assert(plain_part(s, 244, 295));
    plain_part_is_plain(s, 244, 295);
    assert(plain_part(s, 300, 300));
    assert(plain_part(s, 296, 300));
    plain_part_is_plain(s, 296, 300);
    assert(plain_part(s, 403, 403));
    assert(plain_part(s, 387, 403));
    assert(plain_part(s, 371, 403));
    assert(plain_part(s, 355, 403));
    assert(plain_part(s, 339, 403));
    assert(plain_part(s, 323, 403));
    assert(plain_part(s, 307, 403));
    assert(plain_part(s, 301, 403));
    plain_part_is_plain(s, 301, 403);
    assert(plain_part(s, 409, 409));
    assert(plain_part(s, 404, 409));
    plain_part_is_plain(s, 404, 409);
    assert(plain_part(s, 426, 426));
    assert(plain_part(s, 410, 426));
    plain_part_is_plain(s, 410, 426);
    assert(plain_part(s, 432, 432));
    assert(plain_part(s, 427, 432));
    plain_part_is_plain(s, 427, 432);
    assert(plain_part(s, 458, 458));
    assert(plain_part(s, 442, 458));
    assert(plain_part(s, 433, 458));
    plain_part_is_plain(s, 433, 458);
    assert(plain_part(s, 467, 467));
    assert(plain_part(s, 459, 467));
    plain_part_is_plain(s, 459, 467);
    assert(plain_part(s, 519, 519));
    assert(plain_part(s, 503, 519));
    assert(plain_part(s, 487, 519));
    assert(plain_part(s, 471, 519));
    assert(plain_part(s, 468, 519));
    plain_part_is_plain(s, 468, 519);
    assert(plain_part(s, 528, 528));
    assert(plain_part(s, 520, 528));
    plain_part_is_plain(s, 520, 528);
    assert(plain_part(s, 550, 550));
    assert(plain_part(s, 534, 550));
    assert(plain_part(s, 529, 550));
    plain_part_is_plain(s, 529, 550);
    assert(plain_part(s, 612, 612));
    assert(plain_part(s, 596, 612));
    assert(plain_part(s, 580, 612));
    assert(plain_part(s, 564, 612));
    assert(plain_part(s, 551, 612));
    plain_part_is_plain(s, 551, 612);
    assert(plain_part(s, 619, 619));
    assert(plain_part(s, 613, 619));
    plain_part_is_plain(s, 613, 619);
    assert(plain_part(s, 642, 642));
    assert(plain_part(s, 626, 642));
    assert(plain_part(s, 620, 642));
    plain_part_is_plain(s, 620, 642);
    reveal_strlit("tasqx_list_projects");
    assert(TOOLS@[5].0@ == "tasqx_list_projects"@);
    assert(s.subrange(123, 142) =~= "tasqx_list_projects"@);
    reveal_strlit("tasqx_create_project");
    assert(TOOLS@[28].0@ == "tasqx_create_project"@);
    assert(s.subrange(150, 170) =~= "tasqx_create_project"@);
    reveal_strlit("tasqx_add_task");
    assert(TOOLS@[9].0@ == "tasqx_add_task"@);
    assert(s.subrange(172, 186) =~= "tasqx_add_task"@);
    reveal_strlit("tasqx_add_dependency");
    assert(TOOLS@[23].0@ == "tasqx_add_dependency"@);
    assert(s.subrange(198, 218) =~= "tasqx_add_dependency"@);
    reveal_strlit("tasqx_add_check");
    assert(TOOLS@[18].0@ == "tasqx_add_check"@);
    assert(s.subrange(234, 249) =~= "tasqx_add_check"@);
    reveal_strlit("tasqx_list_tasks");
    assert(TOOLS@[0].0@ == "tasqx_list_tasks"@);
    assert(s.subrange(290, 306) =~= "tasqx_list_tasks"@);
    reveal_strlit("tasqx_brief_task");
    assert(TOOLS@[2].0@ == "tasqx_brief_task"@);
    assert(s.subrange(398, 414) =~= "tasqx_brief_task"@);
    reveal_strlit("tasqx_start_timer");
    assert(TOOLS@[14].0@ == "tasqx_start_timer"@);
    assert(s.subrange(421, 438) =~= "tasqx_start_timer"@);
    reveal_strlit("tasqx_annotate_task");
    assert(TOOLS@[21].0@ == "tasqx_annotate_task"@);
    assert(s.subrange(453, 472) =~= "tasqx_annotate_task"@);
    reveal_strlit("tasqx_complete_task");
    assert(TOOLS@[11].0@ == "tasqx_complete_task"@);
    assert(s.subrange(514, 533) =~= "tasqx_complete_task"@);
    reveal_strlit("tasqx_cancel_task");
    assert(TOOLS@[12].0@ == "tasqx_cancel_task"@);
    assert(s.subrange(607, 624) =~= "tasqx_cancel_task"@);
}

#[verifier::spinoff_prover]
proof fn write_back_names_tools()
    ensures
        WRITE_BACK@.len() == 348,
        forall|i: int| 0 <= i < 348 && WRITE_BACK@[i] == '_' ==> i == 112 || i == 116 || i == 299 || i == 306,
        WRITE_BACK@[107] == 't',
        WRITE_BACK@[111] == 'x',
        WRITE_BACK@[113] == 'a',
        WRITE_BACK@[114] == 'd',
        WRITE_BACK@[115] == 'd',
        WRITE_BACK@[117] == 'm',
        WRITE_BACK@[118] == 'e',
        WRITE_BACK@[119] == 'm',
        WRITE_BACK@[294] == 't',
        WRITE_BACK@[300] == 'r',
        WRITE_BACK@[301] == 'e',
        WRITE_BACK@[302] == 'm',
        WRITE_BACK@[307] == 'm',
        WRITE_BACK@[308] == 'e',
        WRITE_BACK@[309] == 'm',
        WRITE_BACK@.subrange(107, 123) == TOOLS@[25].0@,
        WRITE_BACK@.subrange(294, 313) == TOOLS@[27].0@,
{
    reveal_strlit("Write as you go. Only annotation bodies are indexed, never titles, so name files and symbols in them. Call tasqx_add_memory when a decision settles or you learn a convention written down nowhere: the ruling in the first line, the why under it, the path in source. A wrong entry is removed with tasqx_remove_memory (permanent), not corrected beside.");
    let s = "Write as you go. Only annotation bodies are indexed, never titles, so name files and symbols in them. Call tasqx_add_memory when a decision settles or you learn a convention written down nowhere: the ruling in the first line, the why under it, the path in source. A wrong entry is removed with tasqx_remove_memory (permanent), not corrected beside."@;
    assert(WRITE_BACK@ == s);
    reveal_with_fuel(plain_part, 18);
    assert(plain_part(s, 112, 112));
    assert(plain_part(s, 96, 112));
    assert(plain_part(s, 80, 112));
    assert(plain_part(s, 64, 112));
    assert(plain_part(s, 48, 112));
    assert(plain_part(s, 32, 112));
    assert(plain_part(s, 16, 112));
    assert(plain_part(s, 0, 112));
    plain_part_is_plain(s, 0, 112);
    assert(plain_part(s, 116, 116));
    assert(plain_part(s, 113, 116));
    plain_part_is_plain(s, 113, 116);
    assert(plain_part(s, 299, 299));
    assert(plain_part(s, 283, 299));
    assert(plain_part(s, 267, 299));
    assert(plain_part(s, 251, 299));
    assert(plain_part(s, 235, 299));
    assert(plain_part(s, 219, 299));
    assert(plain_part(s, 203, 299));
    assert(plain_part(s, 187, 299));
    assert(plain_part(s, 171, 299));
    assert(plain_part(s, 155, 299));
    assert(plain_part(s, 139, 299));
    assert(plain_part(s, 123, 299));
    assert(plain_part(s, 117, 299));
    plain_part_is_plain(s, 117, 299);
    assert(plain_part(s, 306, 306));
    assert(plain_part(s, 300, 306));
    plain_part_is_plain(s, 300, 306);
    assert(plain_part(s, 348, 348));
    assert(plain_part(s, 332, 348));
    assert(plain_part(s, 316, 348));
    assert(plain_part(s, 307, 348));
    plain_part_is_plain(s, 307, 348);
    reveal_strlit("tasqx_add_memory");
    assert(TOOLS@[25].0@ == "tasqx_add_memory"@);
    assert(s.subrange(107, 123) =~= "tasqx_add_memory"@);
    reveal_strlit("tasqx_remove_memory");
    assert(TOOLS@[27].0@ == "tasqx_remove_memory"@);
    assert(s.subrange(294, 313) =~= "tasqx_remove_memory"@);
}

#[verifier::spinoff_prover]
proof fn read_only_is_plain()
    ensures
        READ_ONLY@.len() == 288,
        forall|i: int| 0 <= i < 288 ==> READ_ONLY@[i] != '_',
{
    reveal_strlit("This server is read-only: no write tool is listed. Say so once, keep searching, and put what you would have stored (decisions and their reasons, outcomes, conventions) into your reply rather than dropping it. The operator grants writes by relaunching with `tasqx mcp serve --scope write`.");
    let s = "This server is read-only: no write tool is listed. Say so once, keep searching, and put what you would have stored (decisions and their reasons, outcomes, conventions) into your reply rather than dropping it. The operator grants writes by relaunching with `tasqx mcp serve --scope write`."@;
    assert(READ_ONLY@ == s);
    reveal_with_fuel(plain_part, 18);
    assert(plain_part(s, 288, 288));
    assert(plain_part(s, 272, 288));
    assert(plain_part(s, 256, 288));
    assert(plain_part(s, 240, 288));
    assert(plain_part(s, 224, 288));
    assert(plain_part(s, 208, 288));
    assert(plain_part(s, 192, 288));
    assert(plain_part(s, 176, 288));
    assert(plain_part(s, 160, 288));
    assert(plain_part(s, 144, 288));
    assert(plain_part(s, 128, 288));
    assert(plain_part(s, 112, 288));
    assert(plain_part(s, 96, 288));
    assert(plain_part(s, 80, 288));
    assert(plain_part(s, 64, 288));
    assert(plain_part(s, 48, 288));
    assert(plain_part(s, 32, 288));
    assert(plain_part(s, 16, 288));
    assert(plain_part(s, 0, 288));
    plain_part_is_plain(s, 0, 288);
}

#[verifier::spinoff_prover]
proof fn seed_is_plain()
    ensures
        SEED@.len() == 278,
        forall|i: int| 0 <= i < 278 ==> SEED@[i] != '_',
{
    reveal_strlit("An empty store is a store nobody seeded. If searches keep returning nothing, ask the user to run `tasqx memory import <docs-dir>` once per markdown folder; no MCP tool imports. The CLI is always `tasqx <verb>`: a bare `tasqx` opens a full-screen dashboard and hangs a tool call.");
    let s = "An empty store is a store nobody seeded. If searches keep returning nothing, ask the user to run `tasqx memory import <docs-dir>` once per markdown folder; no MCP tool imports. The CLI is always `tasqx <verb>`: a bare `tasqx` opens a full-screen dashboard and hangs a tool call."@;
    assert(SEED@ == s);
    reveal_with_fuel(plain_part, 18);
    assert(plain_part(s, 278, 278));
    assert(plain_part(s, 262, 278));
    assert(plain_part(s, 246, 278));
    assert(plain_part(s, 230, 278));
    assert(plain_part(s, 214, 278));
    assert(plain_part(s, 198, 278));
    assert(plain_part(s, 182, 278));
    assert(plain_part(s, 166, 278));
    assert(plain_part(s, 150, 278));
    assert(plain_part(s, 134, 278));
    assert(plain_part(s, 118, 278));
    assert(plain_part(s, 102, 278));
    assert(plain_part(s, 86, 278));
    assert(plain_part(s, 70, 278));
    assert(plain_part(s, 54, 278));
    assert(plain_part(s, 38, 278));
    assert(plain_part(s, 22, 278));
    assert(plain_part(s, 6, 278));
    assert(plain_part(s, 0, 278));
    plain_part_is_plain(s, 0, 278);
}

/// A tool that writes has a name that none of the tools a read session is told
/// of begins with.
#[verifier::spinoff_prover]
proof fn writers_are_named_otherwise(i: int)
    requires
        0 <= i < 29,
        TOOLS@[i].2,
    ensures
        ({
            let n = TOOLS@[i].0@;
            &&& n.len() >= 9
            &&& n[0] == 't'
            &&& n[5] == '_'
            &&& n[6] != 'g'
            &&& !(n[6] == 's' && n[7] == 'e' && n[8] == 'a')
        }),
{
    if i == 9 {
        reveal_strlit("tasqx_add_task");
        assert(TOOLS@[9].0@ == "tasqx_add_task"@);
    } else if i == 10 {
        reveal_strlit("tasqx_modify_task");
        assert(TOOLS@[10].0@ == "tasqx_modify_task"@);
    } else if i == 11 {
        reveal_strlit("tasqx_complete_task");
        assert(TOOLS@[11].0@ == "tasqx_complete_task"@);
    } else if i == 12 {
        reveal_strlit("tasqx_cancel_task");
        assert(TOOLS@[12].0@ == "tasqx_cancel_task"@);
    } else if i == 13 {
        reveal_strlit("tasqx_reopen_task");
        assert(TOOLS@[13].0@ == "tasqx_reopen_task"@);
    } else if i == 14 {
        reveal_strlit("tasqx_start_timer");
        assert(TOOLS@[14].0@ == "tasqx_start_timer"@);
    } else if i == 15 {
        reveal_strlit("tasqx_stop_timer");
        assert(TOOLS@[15].0@ == "tasqx_stop_timer"@);
    } else if i == 16 {
        reveal_strlit("tasqx_tag_task");
        assert(TOOLS@[16].0@ == "tasqx_tag_task"@);
    } else if i == 17 {
        reveal_strlit("tasqx_untag_task");
        assert(TOOLS@[17].0@ == "tasqx_untag_task"@);
    } else if i == 18 {
        reveal_strlit("tasqx_add_check");
        assert(TOOLS@[18].0@ == "tasqx_add_check"@);
    } else if i == 19 {
        reveal_strlit("tasqx_set_check");
        assert(TOOLS@[19].0@ == "tasqx_set_check"@);
    } else if i == 20 {
        reveal_strlit("tasqx_remove_check");
        assert(TOOLS@[20].0@ == "tasqx_remove_check"@);
    } else if i == 21 {
        reveal_strlit("tasqx_annotate_task");
        assert(TOOLS@[21].0@ == "tasqx_annotate_task"@);
    } else if i == 22 {
        reveal_strlit("tasqx_remove_annotation");
        assert(TOOLS@[22].0@ == "tasqx_remove_annotation"@);
    } else if i == 23 {
        reveal_strlit("tasqx_add_dependency");
        assert(TOOLS@[23].0@ == "tasqx_add_dependency"@);
    } else if i == 24 {
        reveal_strlit("tasqx_remove_dependency");
        assert(TOOLS@[24].0@ == "tasqx_remove_dependency"@);
    } else if i == 25 {
        reveal_strlit("tasqx_add_memory");
        assert(TOOLS@[25].0@ == "tasqx_add_memory"@);
    } else if i == 26 {
        reveal_strlit("tasqx_update_memory");
        assert(TOOLS@[26].0@ == "tasqx_update_memory"@);
    } else if i == 27 {
        reveal_strlit("tasqx_remove_memory");
        assert(TOOLS@[27].0@ == "tasqx_remove_memory"@);
    } else if i == 28 {
        reveal_strlit("tasqx_create_project");
        assert(TOOLS@[28].0@ == "tasqx_create_project"@);
    } else {
    }
}

/// Whether a name stands in a text from place `k` on.
pub open spec fn stands_at(name: Seq<char>, text: Seq<char>, k: int) -> bool {
    0 <= k && k + name.len() <= text.len() && text.subrange(k, k + name.len()) == name
}

proof fn read_text()
    ensures
        joined(paragraphs(Scope::Read), "\n\n"@) =~= INTRO@ + "\n\n"@ + SEARCH@ + "\n\n"@
            + READ_ONLY@ + "\n\n"@ + SEED@,
{
    let p = paragraphs(Scope::Read);
    reveal_with_fuel(joined, 5);
    assert(p.drop_last() =~= seq![INTRO@, SEARCH@, READ_ONLY@]);
    assert(p.drop_last().drop_last() =~= seq![INTRO@, SEARCH@]);
    assert(p.drop_last().drop_last().drop_last() =~= seq![INTRO@]);
}

/// A session that may not write is told of no tool that writes.
pub proof fn read_sessions_are_told_of_no_writer(i: int, k: int)
    requires
        0 <= i < 29,
        TOOLS@[i].2,
    ensures
        !stands_at(TOOLS@[i].0@, joined(paragraphs(Scope::Read), "\n\n"@), k),
{
    let name = TOOLS@[i].0@;
    let text = joined(paragraphs(Scope::Read), "\n\n"@);
    read_text();
    reveal_strlit("\n\n");
    assert("\n\n"@.len() == 2 && "\n\n"@[0] == '\n' && "\n\n"@[1] == '\n');
    intro_is_plain();
    search_names_three_tools();
    read_only_is_plain();
    seed_is_plain();
    writers_are_named_otherwise(i);
    if stands_at(name, text, k) {
        let part = text.subrange(k, k + name.len());
        assert(part[0] == text[k] && part[5] == text[k + 5]);
        assert(part[6] == text[k + 6] && part[7] == text[k + 7] && part[8] == text[k + 8]);
        let j = k + 5;
        if j < 208 {
            assert(text[j] == INTRO@[j]);
        } else if j < 210 {
            assert(text[j] == "\n\n"@[j - 208]);
        } else if j < 662 {
            assert(text[j] == SEARCH@[j - 210]);
            assert(text[k] == SEARCH@[k - 210]);
        } else if j < 664 {
            assert(text[j] == "\n\n"@[j - 662]);
        } else if j < 952 {
            assert(text[j] == READ_ONLY@[j - 664]);
        } else if j < 954 {
            assert(text[j] == "\n\n"@[j - 952]);
        } else {
            assert(text[j] == SEED@[j - 954]);
        }
    }
}

proof fn write_text()
    ensures
        joined(paragraphs(Scope::Write), "\n\n"@) =~= INTRO@ + "\n\n"@ + SEARCH@ + "\n\n"@
            + TRACK@ + "\n\n"@ + WRITE_BACK@ + "\n\n"@ + SEED@,
{
    let p = paragraphs(Scope::Write);
    reveal_with_fuel(joined, 6);
    assert(p.drop_last() =~= seq![INTRO@, SEARCH@, TRACK@, WRITE_BACK@]);
    assert(p.drop_last().drop_last() =~= seq![INTRO@, SEARCH@, TRACK@]);
    assert(p.drop_last().drop_last().drop_last() =~= seq![INTRO@, SEARCH@]);
    assert(p.drop_last().drop_last().drop_last().drop_last() =~= seq![INTRO@]);
}

/// Whatever a session that may write is told of as a tool is one.
#[verifier::spinoff_prover]
pub proof fn sessions_are_told_of_tools_there_are(k: int)
    requires
        stands_at("tasqx_"@, joined(paragraphs(Scope::Write), "\n\n"@), k),
    ensures
        exists|i: int|
            0 <= i < 29 && stands_at(
                #[trigger] TOOLS@[i].0@,
                joined(paragraphs(Scope::Write), "\n\n"@),
                k,
            ),
{
    let text = joined(paragraphs(Scope::Write), "\n\n"@);
    write_text();
    reveal_strlit("tasqx_");
    reveal_strlit("\n\n");
    assert("\n\n"@.len() == 2 && "\n\n"@[0] == '\n' && "\n\n"@[1] == '\n');
    assert("tasqx_"@.len() == 6 && "tasqx_"@[0] == 't' && "tasqx_"@[5] == '_');
    intro_is_plain();
    search_names_three_tools();
    track_names_tools();
    write_back_names_tools();
    seed_is_plain();
    let part = text.subrange(k, k + 6);
    assert(part[0] == text[k] && part[5] == text[k + 5]);
    let j = k + 5;
    if j < 208 {
        assert(text[j] == INTRO@[j - 0]);
    } else if j < 210 {
        assert(text[j] == "\n\n"@[j - 208]);
    } else if j < 662 {
        assert(text[j] == SEARCH@[j - 210]);
        assert(text[k] == SEARCH@[k - 210]);
        if j == 234 {
            assert(text.subrange(k, k + 19) =~= SEARCH@.subrange(19, 38));
            reveal_strlit("tasqx_search_memory");
            assert(TOOLS@[6].0@ == "tasqx_search_memory"@);
            assert(stands_at(TOOLS@[6].0@, text, k));
        }
        if j == 589 {
            assert(text.subrange(k, k + 16) =~= SEARCH@.subrange(374, 390));
            reveal_strlit("tasqx_get_memory");
            assert(TOOLS@[8].0@ == "tasqx_get_memory"@);
            assert(stands_at(TOOLS@[8].0@, text, k));
        }
        if j == 652 {
            assert(text.subrange(k, k + 14) =~= SEARCH@.subrange(437, 451));
            reveal_strlit("tasqx_get_task");
            assert(TOOLS@[1].0@ == "tasqx_get_task"@);
            assert(stands_at(TOOLS@[1].0@, text, k));
        }
    } else if j < 664 {
        assert(text[j] == "\n\n"@[j - 662]);
    } else if j < 1306 {
        assert(text[j] == TRACK@[j - 664]);
        assert(text[k] == TRACK@[k - 664]);
        if j == 792 {
            assert(text.subrange(k, k + 19) =~= TRACK@.subrange(123, 142));
            reveal_strlit("tasqx_list_projects");
            assert(TOOLS@[5].0@ == "tasqx_list_projects"@);
            assert(stands_at(TOOLS@[5].0@, text, k));
        }
        if j == 819 {
            assert(text.subrange(k, k + 20) =~= TRACK@.subrange(150, 170));
            reveal_strlit("tasqx_create_project");
            assert(TOOLS@[28].0@ == "tasqx_create_project"@);
            assert(stands_at(TOOLS@[28].0@, text, k));
        }
        if j == 841 {
            assert(text.subrange(k, k + 14) =~= TRACK@.subrange(172, 186));
            reveal_strlit("tasqx_add_task");
            assert(TOOLS@[9].0@ == "tasqx_add_task"@);
            assert(stands_at(TOOLS@[9].0@, text, k));
        }
        if j == 867 {
            assert(text.subrange(k, k + 20) =~= TRACK@.subrange(198, 218));
            reveal_strlit("tasqx_add_dependency");
            assert(TOOLS@[23].0@ == "tasqx_add_dependency"@);
            assert(stands_at(TOOLS@[23].0@, text, k));
        }
        if j == 903 {
            assert(text.subrange(k, k + 15) =~= TRACK@.subrange(234, 249));
            reveal_strlit("tasqx_add_check");
            assert(TOOLS@[18].0@ == "tasqx_add_check"@);
            assert(stands_at(TOOLS@[18].0@, text, k));
        }
        if j == 959 {
            assert(text.subrange(k, k + 16) =~= TRACK@.subrange(290, 306));
            reveal_strlit("tasqx_list_tasks");
            assert(TOOLS@[0].0@ == "tasqx_list_tasks"@);
            assert(stands_at(TOOLS@[0].0@, text, k));
        }
        if j == 1067 {
            assert(text.subrange(k, k + 16) =~= TRACK@.subrange(398, 414));
            reveal_strlit("tasqx_brief_task");
            assert(TOOLS@[2].0@ == "tasqx_brief_task"@);
            assert(stands_at(TOOLS@[2].0@, text, k));
        }
        if j == 1090 {
            assert(text.subrange(k, k + 17) =~= TRACK@.subrange(421, 438));
            reveal_strlit("tasqx_start_timer");
            assert(TOOLS@[14].0@ == "tasqx_start_timer"@);
            assert(stands_at(TOOLS@[14].0@, text, k));
        }
        if j == 1122 {
            assert(text.subrange(k, k + 19) =~= TRACK@.subrange(453, 472));
            reveal_strlit("tasqx_annotate_task");
            assert(TOOLS@[21].0@ == "tasqx_annotate_task"@);
            assert(stands_at(TOOLS@[21].0@, text, k));
        }
        if j == 1183 {
            assert(text.subrange(k, k + 19) =~= TRACK@.subrange(514, 533));
            reveal_strlit("tasqx_complete_task");
            assert(TOOLS@[11].0@ == "tasqx_complete_task"@);
            assert(stands_at(TOOLS@[11].0@, text, k));
        }
        if j == 1276 {
            assert(text.subrange(k, k + 17) =~= TRACK@.subrange(607, 624));
            reveal_strlit("tasqx_cancel_task");
            assert(TOOLS@[12].0@ == "tasqx_cancel_task"@);
            assert(stands_at(TOOLS@[12].0@, text, k));
        }
    } else if j < 1308 {
        assert(text[j] == "\n\n"@[j - 1306]);
    } else if j < 1656 {
        assert(text[j] == WRITE_BACK@[j - 1308]);
        assert(text[k] == WRITE_BACK@[k - 1308]);
        if j == 1420 {
            assert(text.subrange(k, k + 16) =~= WRITE_BACK@.subrange(107, 123));
            reveal_strlit("tasqx_add_memory");
            assert(TOOLS@[25].0@ == "tasqx_add_memory"@);
            assert(stands_at(TOOLS@[25].0@, text, k));
        }
        if j == 1607 {
            assert(text.subrange(k, k + 19) =~= WRITE_BACK@.subrange(294, 313));
            reveal_strlit("tasqx_remove_memory");
            assert(TOOLS@[27].0@ == "tasqx_remove_memory"@);
            assert(stands_at(TOOLS@[27].0@, text, k));
        }
    } else if j < 1658 {
        assert(text[j] == "\n\n"@[j - 1656]);
    } else {
        assert(text[j] == SEED@[j - 1658]);
    }
}

/// Whatever a session that may not write is told of as a tool is one that reads.
#[verifier::spinoff_prover]
pub proof fn read_sessions_are_told_of_readers(k: int)
    requires
        stands_at("tasqx_"@, joined(paragraphs(Scope::Read), "\n\n"@), k),
    ensures
        exists|i: int|
            0 <= i < 29 && !TOOLS@[i].2 && stands_at(
                #[trigger] TOOLS@[i].0@,
                joined(paragraphs(Scope::Read), "\n\n"@),
                k,
            ),
{
    let text = joined(paragraphs(Scope::Read), "\n\n"@);
    read_text();
    reveal_strlit("tasqx_");
    reveal_strlit("\n\n");
    assert("\n\n"@.len() == 2 && "\n\n"@[0] == '\n' && "\n\n"@[1] == '\n');
    assert("tasqx_"@.len() == 6 && "tasqx_"@[0] == 't' && "tasqx_"@[5] == '_');
    intro_is_plain();
    search_names_three_tools();
    read_only_is_plain();
    seed_is_plain();
    let part = text.subrange(k, k + 6);
    assert(part[0] == text[k] && part[5] == text[k + 5]);
    let j = k + 5;
    if j < 208 {
        assert(text[j] == INTRO@[j - 0]);
    } else if j < 210 {
        assert(text[j] == "\n\n"@[j - 208]);
    } else if j < 662 {
        assert(text[j] == SEARCH@[j - 210]);
        assert(text[k] == SEARCH@[k - 210]);
        if j == 234 {
            assert(text.subrange(k, k + 19) =~= SEARCH@.subrange(19, 38));
            reveal_strlit("tasqx_search_memory");
            assert(TOOLS@[6].0@ == "tasqx_search_memory"@);
            assert(stands_at(TOOLS@[6].0@, text, k));
        }
        if j == 589 {
            assert(text.subrange(k, k + 16) =~= SEARCH@.subrange(374, 390));
            reveal_strlit("tasqx_get_memory");
            assert(TOOLS@[8].0@ == "tasqx_get_memory"@);
            assert(stands_at(TOOLS@[8].0@, text, k));
        }
        if j == 652 {
            assert(text.subrange(k, k + 14) =~= SEARCH@.subrange(437, 451));
            reveal_strlit("tasqx_get_task");
            assert(TOOLS@[1].0@ == "tasqx_get_task"@);
            assert(stands_at(TOOLS@[1].0@, text, k));
        }
    } else if j < 664 {
        assert(text[j] == "\n\n"@[j - 662]);
    } else if j < 952 {
        assert(text[j] == READ_ONLY@[j - 664]);
    } else if j < 954 {
        assert(text[j] == "\n\n"@[j - 952]);
    } else {
        assert(text[j] == SEED@[j - 954]);
    }
}

/// Both kinds of session are told the same first two paragraphs and the same
/// last one, and only one that may not write is told that it may not.
pub proof fn sessions_are_told_alike()
    ensures
        paragraphs(Scope::Read).take(2) == paragraphs(Scope::Write).take(2),
        paragraphs(Scope::Read).last() == paragraphs(Scope::Write).last(),
        paragraphs(Scope::Read).contains(READ_ONLY@),
        !paragraphs(Scope::Write).contains(READ_ONLY@),
{
    let r = paragraphs(Scope::Read);
    let w = paragraphs(Scope::Write);
    assert(r.take(2) =~= w.take(2));
    assert(r[2] == READ_ONLY@);
    reveal_strlit("tasqx is this workspace's backlog and long-term memory: one searchable index over imported knowledge docs and the annotations written on tasks. Use it instead of an in-conversation todo list or a memory file.");
    assert(INTRO@ == "tasqx is this workspace's backlog and long-term memory: one searchable index over imported knowledge docs and the annotations written on tasks. Use it instead of an in-conversation todo list or a memory file."@);
    reveal_strlit("Search first. Call tasqx_search_memory before resuming work, choosing between designs, touching a convention-bearing file, or asserting how this project does something. Query with two or three keywords, never a sentence: every word is required, and `matched` shows what ran. Try a second wording before concluding nothing is there. A hit is a snippet: read a doc whole with tasqx_get_memory, and an annotation (source `task:#<id>`) with tasqx_get_task.");
    assert(SEARCH@ == "Search first. Call tasqx_search_memory before resuming work, choosing between designs, touching a convention-bearing file, or asserting how this project does something. Query with two or three keywords, never a sentence: every word is required, and `matched` shows what ran. Try a second wording before concluding nothing is there. A hit is a snippet: read a doc whole with tasqx_get_memory, and an annotation (source `task:#<id>`) with tasqx_get_task."@);
    reveal_strlit("Track multi-step work as tasks. Anything with more than one step, or that could outlive this session, goes in the backlog: tasqx_list_projects before tasqx_create_project, tasqx_add_task per piece, tasqx_add_dependency to order them, tasqx_add_check for acceptance criteria. Pick work with tasqx_list_tasks and the filter `@working`; blocked and waiting tasks are hidden there by design. Per task: tasqx_brief_task, then tasqx_start_timer, do the work, tasqx_annotate_task with what was decided and delivered, and tasqx_complete_task naming in checks_passed what you proved. Obsolete work is cancelled with tasqx_cancel_task, never left open.");
    assert(TRACK@ == "Track multi-step work as tasks. Anything with more than one step, or that could outlive this session, goes in the backlog: tasqx_list_projects before tasqx_create_project, tasqx_add_task per piece, tasqx_add_dependency to order them, tasqx_add_check for acceptance criteria. Pick work with tasqx_list_tasks and the filter `@working`; blocked and waiting tasks are hidden there by design. Per task: tasqx_brief_task, then tasqx_start_timer, do the work, tasqx_annotate_task with what was decided and delivered, and tasqx_complete_task naming in checks_passed what you proved. Obsolete work is cancelled with tasqx_cancel_task, never left open."@);
    reveal_strlit("Write as you go. Only annotation bodies are indexed, never titles, so name files and symbols in them. Call tasqx_add_memory when a decision settles or you learn a convention written down nowhere: the ruling in the first line, the why under it, the path in source. A wrong entry is removed with tasqx_remove_memory (permanent), not corrected beside.");
    assert(WRITE_BACK@ == "Write as you go. Only annotation bodies are indexed, never titles, so name files and symbols in them. Call tasqx_add_memory when a decision settles or you learn a convention written down nowhere: the ruling in the first line, the why under it, the path in source. A wrong entry is removed with tasqx_remove_memory (permanent), not corrected beside."@);
    reveal_strlit("An empty store is a store nobody seeded. If searches keep returning nothing, ask the user to run `tasqx memory import <docs-dir>` once per markdown folder; no MCP tool imports. The CLI is always `tasqx <verb>`: a bare `tasqx` opens a full-screen dashboard and hangs a tool call.");
    assert(SEED@ == "An empty store is a store nobody seeded. If searches keep returning nothing, ask the user to run `tasqx memory import <docs-dir>` once per markdown folder; no MCP tool imports. The CLI is always `tasqx <verb>`: a bare `tasqx` opens a full-screen dashboard and hangs a tool call."@);
    reveal_strlit("This server is read-only: no write tool is listed. Say so once, keep searching, and put what you would have stored (decisions and their reasons, outcomes, conventions) into your reply rather than dropping it. The operator grants writes by relaunching with `tasqx mcp serve --scope write`.");
    assert(READ_ONLY@ == "This server is read-only: no write tool is listed. Say so once, keep searching, and put what you would have stored (decisions and their reasons, outcomes, conventions) into your reply rather than dropping it. The operator grants writes by relaunching with `tasqx mcp serve --scope write`."@);
    assert forall|k: int| 0 <= k < w.len() implies w[k] != READ_ONLY@ by {
        assert(w[k][0] != READ_ONLY@[0] || w[k].len() != READ_ONLY@.len());
    }
}

} // verus!
