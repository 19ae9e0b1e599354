//! Undoing the newest change.
//!
//! Undo reaches the newest event of the whole log and nothing before it, which
//! is what makes each inverse exact: nothing has happened since. It never
//! rewrites the log; it appends what it did.

use crate::duration::duration_secs;
use crate::duration::seconds_are_counted;
use crate::duration::seconds_of;
use crate::engine::Engine;
use crate::engine::EngineV;
use crate::engine::put_task;
use crate::engine::task_by_id;
use crate::engine::task_replaced;
use crate::error::ApiError;
use crate::error::conflict;
use crate::error::ErrorCode;
use crate::error::ErrorV;
use crate::error::internal;
use crate::export::is_in;
use crate::export::payload_of;
use crate::export::payload_said;
use crate::graph::reaches;
use crate::graph::waits_for;
use crate::import::has_edge;
use crate::import_read::put_tag;
use crate::import_read::tag_put;
use crate::import_rules::edge_in;
use crate::journal::insert_event;
use crate::journal::journaled;
use crate::journal::LogEnv;
use crate::journal::LogV;
use crate::json::Fields;
use crate::json::Json;
use crate::json::JsonV;
use crate::rows::Annotation;
use crate::rows::AnnotationV;
use crate::rows::Dependency;
use crate::rows::DependencyV;
use crate::rows::Event;
use crate::rows::EventV;
use crate::rows::Row;
use crate::rows::rows;
use crate::rows::Task;
use crate::rows::TaskV;
use crate::text::debug_form;
use crate::text::debug_text;
use crate::text::decimal;
use crate::text::join;
use crate::text::joined;
use crate::text::push_decimal;
use crate::text::same;
use crate::text::texts;
use crate::types::Entity;
use crate::types::Status;
use crate::value::str_values;
use crate::value::values;
use crate::when::instant_stamp;
use crate::when::parse_ts;
use crate::when::seconds_in;
use crate::when::stamp_instant;
use crate::when::stamp_of_second;
use crate::when::whole_seconds;
use vstd::prelude::*;

verus! {

broadcast use {
    vstd::string::group_string_axioms,
    crate::value::group_json,
    crate::rows::rows_push,
    crate::text::texts_push,
};

/// The operations that can be undone, and the only ones.
///
/// Each of them is undone exactly from its own event and the state of the
/// store, with nothing to guess.
pub const UNDOABLE_OPS: [&'static str; 4] = [
    "stop",
    "tag.remove",
    "dependency.remove",
    "annotation.add",
];

/// Every other operation, with why it is not undone and what takes it back.
pub const NOT_UNDOABLE: [(&'static str, &'static str); 18] = [
    (
        "add",
        "A task cannot be un-created: deleting the row would strand the `add` event that names it and hand back a short_id D4 promises never to recycle. This is also what a completed recurring task's next occurrence is — so if you have just completed one, the newest event is that spawn, and reversing it would delete a task the log still points at. `tasqx cancel <ref>` retires a task without pretending it never existed.",
    ),
    (
        "start",
        "Starting a task auto-stops whatever else was running (D6), and those stops are their own events *behind* the start; reversing only the start would leave the other task stopped with nothing in the log saying why. `tasqx stop <ref>` closes the interval you just opened, and its `tracked` shows what the mistake cost.",
    ),
    (
        "done",
        "Completing a task can also spawn the next occurrence of a recurring rule and record a token measurement, both in the same transaction, and undoing the completion while leaving either behind is a store nobody asked for. `tasqx reopen <ref>` is the sanctioned way back and writes its own event.",
    ),
    (
        "cancel",
        "Cancelling a running task folds its open interval into tracked time, and the event records the status it came from but not where that interval started — so undo could restore the status or the clock, never both. `tasqx reopen <ref>` brings it back as pending.",
    ),
    (
        "reopen",
        "Reopening clears `completed`, and the event does not record the instant it cleared, so putting the task back into `done` would have to invent a completion date. `tasqx done <ref>` completes it again with a real one.",
    ),
    (
        "modify",
        "A `modify` event records the values that were SET, never the ones they replaced, so the log holds nothing to restore. `tasqx show <ref>` and a second `modify` is the way back — and `--expected-rev` makes that second edit refuse if anything moved meanwhile.",
    ),
    (
        "tag.add",
        "Attaching a tag is idempotent, so the event records the tags that were ASKED for, not the ones that were actually attached — undoing it could strip a tag the task already carried. `tasqx untag <ref> <tag>` removes exactly the one you name.",
    ),
    (
        "dependency.add",
        "The edge goes in with INSERT OR IGNORE and the event is written either way, so the log cannot tell an edge this call created from one it found already there. `tasqx undep <ref> <blocker>` removes the edge you name.",
    ),
    (
        "token.add",
        "A token measurement is the only record of what an agent turn cost, and nothing can recompute a self-reported one. `tasqx tokens recompute` re-derives the measurements attribution owns; a self-report is corrected by measuring again.",
    ),
    (
        "tokens.attributed",
        "Same as `token.add`: the measurement is evidence of spend, not an edit to the task. `tasqx tokens recompute` is the one sanctioned way to redo attribution over the windows already stored (D50).",
    ),
    (
        "reminded",
        "A `reminded` event is not a change to the store — it is the dedupe key that stops a reminder firing twice, across restarts and across the daemon and one-shot paths. Removing it would make the notification arrive again, which is the single thing the row exists to prevent. `tasqx modify <ref> --clear remind` stops the reminder instead.",
    ),
    (
        "create",
        "A project cannot be un-created: its NAME is what every task in it stores, so removing it would leave those tasks pointing at nothing. `tasqx archive <name>` takes it out of rotation and leaves the tasks alone.",
    ),
    (
        "use",
        "The event records the project the default moved to and the one it moved from, but putting the old one back is a `use` in its own right — it has to refuse an archived project (D22), which the previous name may since have become. `tasqx use <name>` says which project you mean instead of undo guessing.",
    ),
    (
        "archive",
        "Archiving may also have cleared the store's default project (D22), and there is no `project.unarchive` method for undo to reach for — archiving is deliberately one-way. `store.import` writes the `archived` flag from a document, so restoring a saved export is the way back; that is a data restore, not an undo.",
    ),
    (
        "import",
        "An import writes a whole document in one transaction and records an event per row it touched, so undoing one event would take back a fraction of it and leave the rest. Import the document you meant into a fresh store instead.",
    ),
    (
        "memory.add",
        "A doc written by `memory.import` REPLACES the doc that shared its `source`, and the replaced text is already gone by the time the event is written — so undo can delete the new doc but can never bring the old one back. `tasqx memory rm <id>` removes the doc you name, and says so.",
    ),
    (
        "memory.remove",
        "The event records the doc's id, not its title or its text, so there is nothing in the log to put back. `tasqx memory add` re-files it, or `tasqx memory import` restores it from the file it came from.",
    ),
    (
        "undo",
        "There is no redo. Undoing an undo would put the store back into the state you just chose to leave, and since `undo` only ever reaches the newest event, the pair would toggle one change back and forth forever. Whatever the undo restored can be changed again with the verb that changes it.",
    ),
];

/// Whether an operation can be undone.
pub open spec fn undoable(op: Seq<char>) -> bool {
    op == "stop"@ || op == "tag.remove"@ || op == "dependency.remove"@ || op == "annotation.add"@
}

/// The first reason from `i` on that is given for an operation.
pub open spec fn reason_from(op: Seq<char>, i: int) -> Option<Seq<char>>
    decreases NOT_UNDOABLE@.len() - i,
{
    if i < 0 || i >= NOT_UNDOABLE@.len() {
        None
    } else if NOT_UNDOABLE@[i].0@ == op {
        Some(NOT_UNDOABLE@[i].1@)
    } else {
        reason_from(op, i + 1)
    }
}

/// Why an operation is not undone.
pub open spec fn reason(op: Seq<char>) -> Seq<char> {
    match reason_from(op, 0) {
        Some(why) => why,
        None => "`"@ + op
            + "` is not an operation this build knows how to reverse at all — a store written by a newer tasqx can carry ops this one has never seen, and guessing an inverse for one is how an undo corrupts a store."@,
    }
}

/// The refusal to undo an operation outside the closed set.
pub open spec fn not_undoable_spec(op: Seq<char>, ts: Seq<char>) -> ErrorV {
    conflict(
        "the newest thing in this store's log is `"@ + op + "` (at "@ + ts
            + "), and `undo` will not reverse it. "@ + reason(op)
            + " `undo` reverses exactly these operations and nothing else: stop, tag.remove, dependency.remove, annotation.add."@,
    )
}

/// Refuses to undo an operation outside the closed set.
fn not_undoable(op: &str, ts: &str) -> (r: ApiError)
    ensures
        r@ == not_undoable_spec(op@, ts@),
{
    let mut why: Option<&'static str> = None;
    let mut i: usize = 0;
    while i < 18 && why.is_none()
        invariant
            i <= 18,
            why is None ==> reason_from(op@, 0) == reason_from(op@, i as int),
            why is Some ==> reason_from(op@, 0) == Some(why->0@),
        decreases 18 - i,
    {
        if same(NOT_UNDOABLE[i].0, op) {
            why = Some(NOT_UNDOABLE[i].1);
        }
        i += 1;
    }
    let mut m: String = "the newest thing in this store's log is `".to_owned();
    m.append(op);
    m.append("` (at ");
    m.append(ts);
    m.append("), and `undo` will not reverse it. ");
    let text: String = match why {
        Some(w) => w.to_owned(),
        None => {
            let mut t: String = "`".to_owned();
            t.append(op);
            t.append(
                "` is not an operation this build knows how to reverse at all — a store written by a newer tasqx can carry ops this one has never seen, and guessing an inverse for one is how an undo corrupts a store.",
            );
            t
        },
    };
    m.append(text.as_str());
    m.append(
        " `undo` reverses exactly these operations and nothing else: stop, tag.remove, dependency.remove, annotation.add.",
    );
    ApiError::conflict(m)
}

/// What an undo puts back: the store, and what it says was restored.
pub type Undone = Result<(EngineV, JsonV), ErrorV>;

/// The beginning of an interval that ended at `ts` and took `elapsed` seconds.
pub open spec fn interval_start(ts: Seq<char>, elapsed: int) -> Option<Seq<char>> {
    match stamp_instant(ts) {
        None => None,
        Some(n) => {
            let s = whole_seconds(n) - elapsed;
            if i64::MIN <= s <= i64::MAX {
                instant_stamp(s * 1_000_000_000)
            } else {
                None
            }
        },
    }
}

/// Whether `second` is the whole second of an instant: the last one that lies
/// between the epoch and it.
pub open spec fn whole_second_of(nanosecond: int, second: int) -> bool {
    &&& nanosecond >= 0 ==> second * 1_000_000_000 <= nanosecond < (second + 1) * 1_000_000_000
    &&& nanosecond < 0 ==> (second - 1) * 1_000_000_000 < nanosecond <= second * 1_000_000_000
}

/// Whether the instant that `start` names lies exactly `elapsed` seconds before
/// the whole second of the stamp `end`.
pub open spec fn seconds_before(end: Seq<char>, elapsed: int, start: Seq<char>) -> bool {
    &&& stamp_instant(end) is Some
    &&& exists|second: int| #[trigger]
        whole_second_of(stamp_instant(end)->0, second) && stamp_instant(start) == Some(
            (second - elapsed) * 1_000_000_000,
        )
}

/// The beginning of an interval that ended at `ts` and took `elapsed` seconds.
fn start_of_interval(ts: &str, elapsed: i64) -> (r: Option<String>)
    requires
        elapsed >= 0,
    ensures
        r is Some == interval_start(ts@, elapsed as int) is Some,
        r is Some ==> r->0@ == interval_start(ts@, elapsed as int)->0,
        r is Some ==> seconds_before(ts@, elapsed as int, r->0@),
{
    match parse_ts(ts) {
        None => None,
        Some(n) => {
            let s: i128 = seconds_in(n) - elapsed as i128;
            if s >= -9223372036854775808i128 && s <= 9223372036854775807i128 {
                assert(whole_second_of(n as int, whole_seconds(n as int)));
                stamp_of_second(s as i64)
            } else {
                None
            }
        },
    }
}

/// A task's handle in a message.
pub open spec fn handle(n: i64) -> Seq<char> {
    "#"@ + decimal(n as int)
}

fn push_handle(m: &mut String, n: i64)
    ensures
        final(m)@ == old(m)@ + handle(n),
{
    let ghost before = m@;
    m.append("#");
    push_decimal(m, n);
    assert(m@ =~= before + handle(n));
}

/// The store once a `stop` is undone: the interval it closed is open again and
/// its seconds are off the total.
pub open spec fn stop_undone(e: EngineV, t: TaskV, payload: JsonV, ts: Seq<char>) -> Undone {
    match payload.text("tracked"@) {
        None => Err(
            conflict(
                "this `stop` event carries no `tracked` duration, so the log does not say how much time the interval contributed and undo cannot take it back off the total. Nothing was changed; `tasqx start <ref>` opens a fresh interval."@,
            ),
        ),
        Some(spent) => match seconds_of(spent) {
            None => Err(
                conflict(
                    "this `stop` event records `tracked` as "@ + debug_form(spent)
                        + ", which is not a duration this build can read, so undo cannot say how many seconds to take back. Nothing was changed."@,
                ),
            ),
            Some(elapsed) => if t.status != Status::Pending {
                Err(
                    conflict(
                        handle(t.short_id) + " is "@ + t.status.name()
                            + " — `undo` reopens the interval `stop` closed, which is only meaningful on the pending task that stop left behind, and something has changed it since. Nothing was undone."@,
                    ),
                )
            } else if t.tracked_seconds < elapsed {
                Err(
                    conflict(
                        handle(t.short_id) + " has "@ + decimal(t.tracked_seconds as int)
                            + "s of tracked time but this `stop` contributed "@ + decimal(elapsed)
                            + "s, so taking the interval back would leave a negative total — the row has been edited outside the log. Nothing was undone."@,
                    ),
                )
            } else {
                match interval_start(ts, elapsed) {
                    None => Err(
                        internal(
                            "cannot rebuild the interval start from event timestamp "@
                                + debug_form(ts) + " minus "@ + decimal(elapsed) + "s"@,
                        ),
                    ),
                    Some(started) => {
                        let row = TaskV {
                            status: Status::Active,
                            status_raw: None,
                            active_since: Some(started),
                            tracked_seconds: (t.tracked_seconds - elapsed) as i64,
                            ..t
                        };
                        Ok(
                            (
                                EngineV { tasks: task_replaced(e.tasks, row), ..e },
                                JsonV::Obj(
                                    seq![
                                        ("status"@, JsonV::Str("active"@)),
                                        ("tracked"@, JsonV::Str(spent)),
                                        ("interval_started"@, JsonV::Str(started)),
                                    ],
                                ),
                            ),
                        )
                    },
                }
            },
        },
    }
}

/// What an undo did, against what it should do.
pub open spec fn undid(r: Result<Json, ApiError>, e: EngineV, want: Undone) -> bool {
    match want {
        Ok(x) => r is Ok && e == x.0 && r->Ok_0@ == x.1,
        Err(x) => r is Err && r->Err_0@ == x,
    }
}

/// Replaces the row of a task that is there.
fn replace_task(e: &mut Engine, t: Task)
    requires
        task_by_id(old(e)@.tasks, t@.id) is Some,
    ensures
        final(e)@ == (EngineV { tasks: task_replaced(old(e)@.tasks, t@), ..old(e)@ }),
{
    put_task(&mut e.tasks, t);
}

/// Whether the beginning of the interval that a `stop` closed is the instant its
/// duration before its end.
pub open spec fn reopened(payload: JsonV, ts: Seq<char>) -> bool {
    payload.text("tracked"@) matches Some(spent) && (seconds_of(spent) matches Some(elapsed)
        && (interval_start(ts, elapsed) matches Some(start) && seconds_before(
        ts,
        elapsed,
        start,
    )))
}

/// Reopens the interval a `stop` closed.
fn revert_stop(e: &mut Engine, k: usize, payload: &Json, ts: &str) -> (r: Result<Json, ApiError>)
    requires
        k < old(e).tasks@.len(),
        task_by_id(old(e)@.tasks, old(e).tasks@[k as int]@.id) is Some,
    ensures
        undid(r, final(e)@, stop_undone(old(e)@, old(e).tasks@[k as int]@, payload@, ts@)),
        r is Ok ==> reopened(payload@, ts@),
{
    let spent: &str = match payload.text("tracked") {
        Some(t) => t,
        None => {
            return Err(
                ApiError::conflict(
                    "this `stop` event carries no `tracked` duration, so the log does not say how much time the interval contributed and undo cannot take it back off the total. Nothing was changed; `tasqx start <ref>` opens a fresh interval.".to_owned(),
                ),
            );
        },
    };
    let elapsed: i64 = match duration_secs(spent) {
        Some(n) => n,
        None => {
            let mut m: String = "this `stop` event records `tracked` as ".to_owned();
            m.append(debug_text(spent).as_str());
            m.append(
                ", which is not a duration this build can read, so undo cannot say how many seconds to take back. Nothing was changed.",
            );
            return Err(ApiError::conflict(m));
        },
    };
    let t: &Task = &e.tasks[k];
    if t.status != Status::Pending {
        let mut m: String = String::new();
        push_handle(&mut m, t.short_id);
        assert(m@ =~= handle(t.short_id));
        m.append(" is ");
        m.append(t.status.as_str());
        m.append(
            " — `undo` reopens the interval `stop` closed, which is only meaningful on the pending task that stop left behind, and something has changed it since. Nothing was undone.",
        );
        return Err(ApiError::conflict(m));
    }
    if t.tracked_seconds < elapsed {
        let mut m: String = String::new();
        push_handle(&mut m, t.short_id);
        assert(m@ =~= handle(t.short_id));
        m.append(" has ");
        push_decimal(&mut m, t.tracked_seconds);
        m.append("s of tracked time but this `stop` contributed ");
        push_decimal(&mut m, elapsed);
        m.append(
            "s, so taking the interval back would leave a negative total — the row has been edited outside the log. Nothing was undone.",
        );
        return Err(ApiError::conflict(m));
    }
    let started: String = match start_of_interval(ts, elapsed) {
        Some(s) => s,
        None => {
            let mut m: String = "cannot rebuild the interval start from event timestamp ".to_owned();
            m.append(debug_text(ts).as_str());
            m.append(" minus ");
            push_decimal(&mut m, elapsed);
            m.append("s");
            return Err(ApiError::internal(m));
        },
    };
    let mut row: Task = Row::dup(t);
    row.status = Status::Active;
    row.status_raw = None;
    row.active_since = Some(started.clone());
    row.tracked_seconds = row.tracked_seconds - elapsed;
    replace_task(e, row);
    let mut f = Fields::new();
    f.put("status", Json::string("active"));
    f.put("tracked", Json::string(spent));
    f.put("interval_started", Json::string(started.as_str()));
    assert(f@ =~= seq![
        ("status"@, JsonV::Str("active"@)),
        ("tracked"@, JsonV::Str(spent@)),
        ("interval_started"@, JsonV::Str(started@)),
    ]);
    Ok(f.done())
}

/// The texts among the first `n` values.
pub open spec fn texts_among(v: Seq<JsonV>, n: nat) -> Seq<Seq<char>>
    decreases n,
{
    if n == 0 || n > v.len() {
        Seq::empty()
    } else {
        match v[n - 1] {
            JsonV::Str(s) => texts_among(v, (n - 1) as nat).push(s),
            _ => texts_among(v, (n - 1) as nat),
        }
    }
}

/// The first `n` tags, those in `present`, each in backquotes.
pub open spec fn carried_already(tags: Seq<Seq<char>>, present: Seq<Seq<char>>, n: nat) -> Seq<
    Seq<char>,
>
    decreases n,
{
    if n == 0 || n > tags.len() {
        Seq::empty()
    } else if present.contains(tags[n - 1]) {
        carried_already(tags, present, (n - 1) as nat).push("`"@ + tags[n - 1] + "`"@)
    } else {
        carried_already(tags, present, (n - 1) as nat)
    }
}

/// A list of tags with the first `n` of others in it.
pub open spec fn tags_with(present: Seq<Seq<char>>, tags: Seq<Seq<char>>, n: nat) -> Seq<Seq<char>>
    decreases n,
{
    if n == 0 || n > tags.len() {
        present
    } else {
        tag_put(tags_with(present, tags, (n - 1) as nat), tags[n - 1])
    }
}

/// The tags an event names.
pub open spec fn tags_of(payload: JsonV) -> Seq<Seq<char>> {
    match payload.list("tags"@) {
        Some(v) => texts_among(v, v.len()),
        None => Seq::empty(),
    }
}

/// The store once a `tag.remove` is undone: the tags it took off are on again.
pub open spec fn tag_remove_undone(e: EngineV, t: TaskV, payload: JsonV) -> Undone {
    let tags = tags_of(payload);
    let back = carried_already(tags, t.tags, tags.len());
    if tags.len() == 0 {
        Err(
            conflict(
                "this `tag.remove` event names no tags, so there is nothing for undo to put back. Nothing was changed; `tasqx tag <ref> <tag>` attaches one by name."@,
            ),
        )
    } else if back.len() > 0 {
        Err(
            conflict(
                handle(t.short_id) + " already carries "@ + joined(back, ", "@)
                    + " — the removal this event records has been put back by something other than the log, so undo would report a restoration that did not happen. Nothing was changed."@,
            ),
        )
    } else {
        let row = TaskV { tags: tags_with(t.tags, tags, tags.len()), ..t };
        Ok(
            (
                EngineV { tasks: task_replaced(e.tasks, row), ..e },
                JsonV::Obj(seq![("tags"@, JsonV::Arr(str_values(tags)))]),
            ),
        )
    }
}

fn read_event_tags(payload: &Json) -> (r: Vec<String>)
    ensures
        texts(r@) == tags_of(payload@),
{
    let mut out: Vec<String> = Vec::new();
    assert(texts(out@) =~= Seq::empty());
    if let Some(v) = payload.list("tags") {
        let mut i: usize = 0;
        while i < v.len()
            invariant
                i <= v@.len(),
                texts(out@) == texts_among(values(v@), i as nat),
            decreases v@.len() - i,
        {
            assert(values(v@)[i as int] == v@[i as int]@);
            if let Some(s) = v[i].as_str() {
                out.push(s.to_owned());
            }
            i += 1;
        }
    }
    out
}

/// Puts back the tags a `tag.remove` took off.
fn revert_tag_remove(e: &mut Engine, k: usize, payload: &Json) -> (r: Result<Json, ApiError>)
    requires
        k < old(e).tasks@.len(),
        task_by_id(old(e)@.tasks, old(e).tasks@[k as int]@.id) is Some,
    ensures
        undid(r, final(e)@, tag_remove_undone(old(e)@, old(e).tasks@[k as int]@, payload@)),
{
    let tags: Vec<String> = read_event_tags(payload);
    if tags.len() == 0 {
        return Err(
            ApiError::conflict(
                "this `tag.remove` event names no tags, so there is nothing for undo to put back. Nothing was changed; `tasqx tag <ref> <tag>` attaches one by name.".to_owned(),
            ),
        );
    }
    let t: &Task = &e.tasks[k];
    let ghost tv = texts(tags@);
    let mut back: Vec<String> = Vec::new();
    let mut i: usize = 0;
    assert(texts(back@) =~= Seq::empty());
    while i < tags.len()
        invariant
            i <= tags@.len(),
            tv == texts(tags@),
            texts(back@) == carried_already(tv, t@.tags, i as nat),
        decreases tags@.len() - i,
    {
        assert(tv[i as int] == tags@[i as int]@);
        if is_in(&t.tags, tags[i].as_str()) {
            let mut one: String = "`".to_owned();
            one.append(tags[i].as_str());
            one.append("`");
            back.push(one);
        }
        i += 1;
    }
    assert(texts(back@).len() == back@.len());
    if back.len() > 0 {
        let mut m: String = String::new();
        push_handle(&mut m, t.short_id);
        assert(m@ =~= handle(t.short_id));
        m.append(" already carries ");
        m.append(join(&back, ", ").as_str());
        m.append(
            " — the removal this event records has been put back by something other than the log, so undo would report a restoration that did not happen. Nothing was changed.",
        );
        return Err(ApiError::conflict(m));
    }
    let mut row: Task = Row::dup(t);
    let mut j: usize = 0;
    let ghost first = row@;
    while j < tags.len()
        invariant
            j <= tags@.len(),
            tv == texts(tags@),
            row@ == (TaskV { tags: tags_with(first.tags, tv, j as nat), ..first }),
        decreases tags@.len() - j,
    {
        assert(tv[j as int] == tags@[j as int]@);
        put_tag(&mut row.tags, tags[j].clone());
        j += 1;
    }
    replace_task(e, row);
    let mut f = Fields::new();
    f.put("tags", Json::strings(&tags));
    assert(f@ =~= seq![("tags"@, JsonV::Arr(str_values(tv)))]);
    Ok(f.done())
}

/// The store once a `dependency.remove` is undone: the edge it took out is in
/// again, unless that would close a cycle.
pub open spec fn dependency_remove_undone(e: EngineV, t: TaskV, payload: JsonV) -> Undone {
    match payload.text("depends_on"@) {
        None => Err(
            conflict(
                "this `dependency.remove` event names no `depends_on`, so the log does not say which edge came off. Nothing was changed; `tasqx dep <ref> <blocker>` adds the edge you name."@,
            ),
        ),
        Some(on) => match task_by_id(e.tasks, on) {
            None => Err(
                ErrorV {
                    code: ErrorCode::NotFound,
                    message: "the blocker this edge pointed at ("@ + on
                        + ") is no longer in this store, so the dependency cannot be put back. Nothing was changed."@,
                    data: Some(JsonV::Obj(seq![("depends_on"@, JsonV::Str(on))])),
                },
            ),
            Some(b) => if waits_for(e.dependencies, on, t.id) {
                Err(
                    conflict(
                        "putting this edge back would make "@ + handle(t.short_id) + " and "@
                            + handle(b.short_id) + " block each other: "@ + handle(b.short_id)
                            + " now depends on "@ + handle(t.short_id)
                            + ", which it cannot have done when the edge came off, so something other than the log has changed the graph. Restoring it would leave both tasks blocked with no verb that unblocks them. Nothing was changed; `tasqx undep "@
                            + decimal(b.short_id as int) + " "@ + decimal(t.short_id as int)
                            + "` breaks the other side first."@,
                    ),
                )
            } else if edge_in(e.dependencies, t.id, on) {
                Err(
                    conflict(
                        handle(t.short_id) + " already depends on "@ + handle(b.short_id)
                            + " — the edge this event removed is back already, put there by something other than the log. Nothing was changed."@,
                    ),
                )
            } else {
                Ok(
                    (
                        EngineV {
                            dependencies: e.dependencies.push(
                                DependencyV { task_id: t.id, depends_on: on },
                            ),
                            ..e
                        },
                        JsonV::Obj(seq![("depends_on"@, JsonV::Int(b.short_id as int))]),
                    ),
                )
            },
        },
    }
}

/// Puts back the edge a `dependency.remove` took out.
fn revert_dependency_remove(e: &mut Engine, k: usize, payload: &Json) -> (r: Result<
    Json,
    ApiError,
>)
    requires
        k < old(e).tasks@.len(),
    ensures
        undid(r, final(e)@, dependency_remove_undone(old(e)@, old(e).tasks@[k as int]@, payload@)),
{
    let on: &str = match payload.text("depends_on") {
        Some(s) => s,
        None => {
            return Err(
                ApiError::conflict(
                    "this `dependency.remove` event names no `depends_on`, so the log does not say which edge came off. Nothing was changed; `tasqx dep <ref> <blocker>` adds the edge you name.".to_owned(),
                ),
            );
        },
    };
    let t: &Task = &e.tasks[k];
    let blocker: i64 = match e.find_task(on) {
        Some(b) => e.tasks[b].short_id,
        None => {
            let mut m: String = "the blocker this edge pointed at (".to_owned();
            m.append(on);
            m.append(
                ") is no longer in this store, so the dependency cannot be put back. Nothing was changed.",
            );
            let mut f = Fields::new();
            f.put("depends_on", Json::string(on));
            assert(f@ =~= seq![("depends_on"@, JsonV::Str(on@))]);
            return Err(ApiError::not_found(m, Some(f.done())));
        },
    };
    if reaches(&e.dependencies, on, t.id.as_str()) {
        let mut m: String = "putting this edge back would make ".to_owned();
        push_handle(&mut m, t.short_id);
        m.append(" and ");
        push_handle(&mut m, blocker);
        m.append(" block each other: ");
        push_handle(&mut m, blocker);
        m.append(" now depends on ");
        push_handle(&mut m, t.short_id);
        m.append(
            ", which it cannot have done when the edge came off, so something other than the log has changed the graph. Restoring it would leave both tasks blocked with no verb that unblocks them. Nothing was changed; `tasqx undep ",
        );
        push_decimal(&mut m, blocker);
        m.append(" ");
        push_decimal(&mut m, t.short_id);
        m.append("` breaks the other side first.");
        return Err(ApiError::conflict(m));
    }
    if has_edge(&e.dependencies, t.id.as_str(), on) {
        let mut m: String = String::new();
        push_handle(&mut m, t.short_id);
        assert(m@ =~= handle(t.short_id));
        m.append(" already depends on ");
        push_handle(&mut m, blocker);
        m.append(
            " — the edge this event removed is back already, put there by something other than the log. Nothing was changed.",
        );
        return Err(ApiError::conflict(m));
    }
    let edge = Dependency { task_id: t.id.clone(), depends_on: on.to_owned() };
    e.dependencies.push(edge);
    let mut f = Fields::new();
    f.put("depends_on", Json::number(blocker));
    assert(f@ =~= seq![("depends_on"@, JsonV::Int(blocker as int))]);
    Ok(f.done())
}

/// The first note from `i` on with this id.
pub open spec fn note_at(s: Seq<AnnotationV>, id: Seq<char>, i: int) -> Option<int>
    decreases s.len() - i,
{
    if i < 0 || i >= s.len() {
        None
    } else if s[i].id == id {
        Some(i)
    } else {
        note_at(s, id, i + 1)
    }
}

/// The store once an `annotation.add` is undone: the note is gone.
pub open spec fn annotation_add_undone(e: EngineV, t: TaskV, payload: JsonV) -> Undone {
    match payload.text("id"@) {
        None => Err(
            conflict(
                "this `annotation.add` event carries no annotation `id`, so undo cannot tell which note it created. Nothing was changed."@,
            ),
        ),
        Some(id) => match note_at(e.annotations, id, 0) {
            None => Err(
                conflict(
                    "the note "@ + handle(t.short_id) + " recorded under id "@ + id
                        + " is already gone, so undo has nothing to remove. Nothing was changed."@,
                ),
            ),
            Some(i) => Ok(
                (
                    EngineV { annotations: e.annotations.remove(i), ..e },
                    JsonV::Obj(seq![("annotation"@, JsonV::Str(e.annotations[i].body))]),
                ),
            ),
        },
    }
}

/// Deletes the note an `annotation.add` wrote.
fn revert_annotation_add(e: &mut Engine, k: usize, payload: &Json) -> (r: Result<Json, ApiError>)
    requires
        k < old(e).tasks@.len(),
    ensures
        undid(r, final(e)@, annotation_add_undone(old(e)@, old(e).tasks@[k as int]@, payload@)),
{
    let id: &str = match payload.text("id") {
        Some(s) => s,
        None => {
            return Err(
                ApiError::conflict(
                    "this `annotation.add` event carries no annotation `id`, so undo cannot tell which note it created. Nothing was changed.".to_owned(),
                ),
            );
        },
    };
    let ghost notes = e@.annotations;
    let mut i: usize = 0;
    while i < e.annotations.len() && !same(e.annotations[i].id.as_str(), id)
        invariant
            i <= e.annotations@.len(),
            notes == rows(e.annotations@),
            note_at(notes, id@, 0) == note_at(notes, id@, i as int),
        decreases e.annotations@.len() - i,
    {
        assert(notes[i as int] == e.annotations@[i as int]@);
        i += 1;
    }
    if i >= e.annotations.len() {
        let mut m: String = "the note ".to_owned();
        push_handle(&mut m, e.tasks[k].short_id);
        m.append(" recorded under id ");
        m.append(id);
        m.append(" is already gone, so undo has nothing to remove. Nothing was changed.");
        return Err(ApiError::conflict(m));
    }
    assert(notes[i as int] == e.annotations@[i as int]@);
    let gone: Annotation = e.annotations.remove(i);
    assert(e@.annotations =~= notes.remove(i as int));
    let mut f = Fields::new();
    f.put("annotation", Json::string(gone.body.as_str()));
    assert(f@ =~= seq![("annotation"@, JsonV::Str(gone.body@))]);
    Ok(f.done())
}

/// The store once an operation is undone, by its kind.
pub open spec fn op_undone(e: EngineV, t: TaskV, op: Seq<char>, payload: JsonV, ts: Seq<char>) -> Undone {
    if op == "stop"@ {
        stop_undone(e, t, payload, ts)
    } else if op == "tag.remove"@ {
        tag_remove_undone(e, t, payload)
    } else if op == "dependency.remove"@ {
        dependency_remove_undone(e, t, payload)
    } else {
        annotation_add_undone(e, t, payload)
    }
}

/// The refusal of an event about a task that is not there.
pub open spec fn no_task(id: Seq<char>) -> ErrorV {
    ErrorV {
        code: ErrorCode::NotFound,
        message: "no task has the id "@ + id,
        data: Some(JsonV::Obj(seq![("id"@, JsonV::Str(id))])),
    }
}

/// What the log says of an undo.
pub open spec fn undo_mark(event: Seq<char>, op: Seq<char>, restored: JsonV) -> JsonV {
    JsonV::Obj(
        seq![
            ("reverted"@, JsonV::Str(event)),
            ("reverted_op"@, JsonV::Str(op)),
            ("restored"@, restored),
        ],
    )
}

/// What an undo answers.
pub open spec fn undo_answer(newest: EventV, t: TaskV, restored: JsonV) -> JsonV {
    JsonV::Obj(
        seq![
            (
                "reverted"@,
                JsonV::Obj(
                    seq![
                        ("event"@, JsonV::Str(newest.id)),
                        ("op"@, JsonV::Str(newest.op)),
                        ("ts"@, JsonV::Str(newest.ts)),
                    ],
                ),
            ),
            ("short_id"@, JsonV::Int(t.short_id as int)),
            ("title"@, JsonV::Str(t.title)),
            ("restored"@, restored),
            ("_rev"@, JsonV::Int(t.rev + 1)),
        ],
    )
}

/// The store with a task at its next revision.
pub open spec fn touched(e: EngineV, id: Seq<char>, rev: int, now: Seq<char>) -> EngineV {
    match task_by_id(e.tasks, id) {
        Some(t) => EngineV {
            tasks: task_replaced(e.tasks, TaskV { rev: rev as i64, modified: now, ..t }),
            ..e
        },
        None => e,
    }
}

/// The store and the answer once the newest event is undone, or why it is not.
pub open spec fn reverted(e: EngineV, log: LogV) -> Undone {
    let newest = e.events.last();
    let payload = payload_said(newest);
    let t = task_by_id(e.tasks, newest.entity_id);
    let undone = op_undone(e, t->0, newest.op, payload, newest.ts);
    if e.events.len() == 0 {
        Err(
            ErrorV {
                code: ErrorCode::NotFound,
                message: "there is nothing to undo — this store's event log is empty"@,
                data: None,
            },
        )
    } else if !undoable(newest.op) {
        Err(not_undoable_spec(newest.op, newest.ts))
    } else if t is None {
        Err(no_task(newest.entity_id))
    } else if undone is Err {
        Err(undone->Err_0)
    } else {
        let x = undone->Ok_0;
        let after = touched(x.0, t->0.id, t->0.rev + 1, log.now);
        match journaled(
            after.events,
            0,
            Entity::Task,
            t->0.id,
            "undo"@,
            undo_mark(newest.id, newest.op, x.1),
            log,
        ) {
            Err(err) => Err(err),
            Ok(events) => Ok(
                (EngineV { events, ..after }, undo_answer(newest, t->0, x.1)),
            ),
        }
    }
}

/// Undoes an operation, by its kind.
fn revert_op(e: &mut Engine, k: usize, op: &str, payload: &Json, ts: &str) -> (r: Result<
    Json,
    ApiError,
>)
    requires
        k < old(e).tasks@.len(),
        task_by_id(old(e)@.tasks, old(e).tasks@[k as int]@.id) is Some,
        undoable(op@),
    ensures
        undid(r, final(e)@, op_undone(old(e)@, old(e).tasks@[k as int]@, op@, payload@, ts@)),
        r is Ok && op@ == "stop"@ ==> reopened(payload@, ts@),
{
    if same(op, "stop") {
        revert_stop(e, k, payload, ts)
    } else if same(op, "tag.remove") {
        revert_tag_remove(e, k, payload)
    } else if same(op, "dependency.remove") {
        revert_dependency_remove(e, k, payload)
    } else {
        revert_annotation_add(e, k, payload)
    }
}

/// Puts a task at its next revision.
fn touch(e: &mut Engine, id: &str, rev: i64, now: &str)
    ensures
        final(e)@ == touched(old(e)@, id@, rev as int, now@),
{
    if let Some(k) = e.find_task(id) {
        let mut row: Task = Row::dup(&e.tasks[k]);
        row.rev = rev;
        row.modified = now.to_owned();
        proof {
            found_has_id(e@.tasks, id@);
        }
        replace_task(e, row);
    }
}

/// Once a `stop` is undone, its task is active since the interval began, and
/// the interval's seconds are off the total.
pub proof fn stop_is_back(e: EngineV, log: LogV)
    requires
        reverted(e, log) is Ok,
        e.events.last().op == "stop"@,
    ensures
        ({
            let stop = e.events.last();
            let spent = payload_said(stop).text("tracked"@)->0;
            let was = task_by_id(e.tasks, stop.entity_id);
            let now = task_by_id(reverted(e, log)->Ok_0.0.tasks, stop.entity_id);
            &&& payload_said(stop).text("tracked"@) is Some
            &&& seconds_of(spent) is Some
            &&& was is Some && now is Some
            &&& was->0.tracked_seconds - now->0.tracked_seconds == seconds_of(spent)->0
            &&& now->0 == (TaskV {
                status: Status::Active,
                status_raw: None,
                active_since: interval_start(stop.ts, seconds_of(spent)->0),
                tracked_seconds: now->0.tracked_seconds,
                rev: (was->0.rev + 1) as i64,
                modified: log.now,
                ..was->0
            })
            &&& interval_start(stop.ts, seconds_of(spent)->0) is Some
        }),
{
    let stop = e.events.last();
    let id = stop.entity_id;
    let t = task_by_id(e.tasks, id)->0;
    found_has_id(e.tasks, id);
    let payload = payload_said(stop);
    let x = stop_undone(e, t, payload, stop.ts)->Ok_0.0;
    let elapsed = seconds_of(payload.text("tracked"@)->0)->0;
    seconds_are_counted(payload.text("tracked"@)->0);
    let row = TaskV {
        status: Status::Active,
        status_raw: None,
        active_since: interval_start(stop.ts, elapsed),
        tracked_seconds: (t.tracked_seconds - elapsed) as i64,
        ..t
    };
    replaced_is_found(e.tasks, row);
    let after = TaskV { rev: (t.rev + 1) as i64, modified: log.now, ..row };
    replaced_is_found(x.tasks, after);
}

proof fn replaced_is_found(s: Seq<TaskV>, t: TaskV)
    requires
        task_by_id(s, t.id) is Some,
    ensures
        task_by_id(task_replaced(s, t), t.id) == Some(t),
    decreases s.len(),
{
    let r = task_replaced(s, t);
    if s.last().id != t.id {
        replaced_is_found(s.drop_last(), t);
        assert(r.drop_last() =~= task_replaced(s.drop_last(), t));
    }
}

/// A task that is found under an id has that id.
proof fn found_has_id(s: Seq<TaskV>, id: Seq<char>)
    ensures
        task_by_id(s, id) is Some ==> task_by_id(s, id)->0.id == id,
    decreases s.len(),
{
    if s.len() > 0 && s.last().id != id {
        found_has_id(s.drop_last(), id);
    }
}

impl Engine {
    /// Undoes the newest event of the log and answers what it put back. What
    /// cannot be undone is refused, and then nothing changes.
    pub fn event_revert(&mut self, log: &LogEnv) -> (r: Result<Json, ApiError>)
        requires
            old(self)@.events.len() > 0 ==> (task_by_id(
                old(self)@.tasks,
                old(self)@.events.last().entity_id,
            ) matches Some(t) ==> t.rev < i64::MAX),
        ensures
            match reverted(old(self)@, log@) {
                Ok(x) => r is Ok && final(self)@ == x.0 && r->Ok_0@ == x.1,
                Err(x) => r is Err && r->Err_0@ == x && final(self)@ == old(self)@,
            },
            r is Ok && old(self)@.events.last().op == "stop"@ ==> {
                let stop = old(self)@.events.last();
                let was = task_by_id(old(self)@.tasks, stop.entity_id);
                let now = task_by_id(final(self)@.tasks, stop.entity_id);
                &&& was is Some && now is Some
                &&& now->0.status == Status::Active
                &&& now->0.active_since is Some
                &&& seconds_before(
                    stop.ts,
                    was->0.tracked_seconds - now->0.tracked_seconds,
                    now->0.active_since->0,
                )
            },
    {
        let n: usize = self.events.len();
        if n == 0 {
            return Err(
                ApiError::not_found(
                    "there is nothing to undo — this store's event log is empty".to_owned(),
                    None,
                ),
            );
        }
        let newest: &Event = &self.events[n - 1];
        assert(self@.events.last() == newest@);
        if !same(newest.op.as_str(), "stop") && !same(newest.op.as_str(), "tag.remove") && !same(
            newest.op.as_str(),
            "dependency.remove",
        ) && !same(newest.op.as_str(), "annotation.add") {
            return Err(not_undoable(newest.op.as_str(), newest.ts.as_str()));
        }
        let payload: Json = payload_of(newest);
        let k: usize = match self.find_task(newest.entity_id.as_str()) {
            Some(k) => k,
            None => {
                let mut m: String = "no task has the id ".to_owned();
                m.append(newest.entity_id.as_str());
                let mut f = Fields::new();
                f.put("id", Json::string(newest.entity_id.as_str()));
                assert(f@ =~= seq![("id"@, JsonV::Str(newest@.entity_id))]);
                return Err(ApiError::not_found(m, Some(f.done())));
            },
        };
        proof {
            found_has_id(self@.tasks, newest@.entity_id);
            assert(self@.tasks[k as int] == self.tasks@[k as int]@);
        }
        let mut e: Engine = self.dup();
        let ek: usize = match e.find_task(newest.entity_id.as_str()) {
            Some(k) => k,
            None => k,
        };
        let ghost t = self.tasks@[k as int]@;
        let restored: Json = match revert_op(
            &mut e,
            ek,
            newest.op.as_str(),
            &payload,
            newest.ts.as_str(),
        ) {
            Ok(x) => x,
            Err(x) => {
                return Err(x);
            },
        };
        let rev: i64 = self.tasks[k].rev + 1;
        touch(&mut e, self.tasks[k].id.as_str(), rev, log.now.as_str());
        let mut f = Fields::new();
        f.put("reverted", Json::string(newest.id.as_str()));
        f.put("reverted_op", Json::string(newest.op.as_str()));
        f.put("restored", restored.dup());
        assert(f@ =~= undo_mark(newest@.id, newest@.op, restored@)->Obj_0);
        match insert_event(
            &mut e.events,
            0,
            Entity::Task,
            self.tasks[k].id.as_str(),
            "undo",
            &f.done(),
            log,
        ) {
            Ok(_) => {},
            Err(x) => {
                return Err(x);
            },
        }
        let mut h = Fields::new();
        h.put("event", Json::string(newest.id.as_str()));
        h.put("op", Json::string(newest.op.as_str()));
        h.put("ts", Json::string(newest.ts.as_str()));
        let ghost head = h@;
        let mut g = Fields::new();
        g.put("reverted", h.done());
        g.put("short_id", Json::number(self.tasks[k].short_id));
        g.put("title", Json::string(self.tasks[k].title.as_str()));
        g.put("restored", restored);
        g.put("_rev", Json::number(rev));
        proof {
            let want = undo_answer(newest@, t, restored@);
            assert(head =~= want->Obj_0[0].1->Obj_0);
            assert(g@ =~= want->Obj_0);
        }
        proof {
            if newest@.op == "stop"@ {
                stop_is_back(self@, log@);
            }
        }
        *self = e;
        Ok(g.done())
    }
}

} // verus!
