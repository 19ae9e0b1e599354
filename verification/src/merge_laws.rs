//! What an imported task becomes: what its row says, and what a merge keeps of
//! the task that was there.

use crate::engine::EngineV;
use crate::engine::task_by_id;
use crate::filter::Spellings;
use crate::import_children::each;
use crate::import_laws::each_prefix;
use crate::import_laws::sections_keep;
use crate::import_laws::sections_leave_tasks;
use crate::import_numbers::number_for;
use crate::import_numbers::numbers_are_below;
use crate::import_numbers::numbers_given;
use crate::import_numbers::one_row;
use crate::import_numbers::row_id;
use crate::import_numbers::row_number;
use crate::import_numbers::rows_are_read;
use crate::import_read::body_spec;
use crate::import_read::EnvV;
use crate::import_read::head_spec;
use crate::import_read::opt_form_spec;
use crate::import_read::opt_when_spec;
use crate::import_read::tags_spec;
use crate::import_read::task_tags_spec;
use crate::import_rules::imported;
use crate::import_rules::merged;
use crate::import_rules::raised;
use crate::import_rules::sections_in;
use crate::import_rules::task_one;
use crate::import_rules::task_step;
use crate::import_rules::tasks_in;
use crate::json::JsonV;
use crate::params::all_texts;
use crate::params::opt_array_spec;
use crate::params::opt_i64_spec;
use crate::params::opt_str_array_spec;
use crate::rows::TaskV;
use crate::sound::tags_rise;
use crate::types::named_status_has_that_word;
use crate::types::Status;
use crate::types::status_word_names_itself;
use crate::undo_laws::tag_put_members;
use crate::vector_index::Pending;
use crate::when::instant_stamp;
use crate::when::spelled;
use crate::when::stamp_instant;
use vstd::prelude::*;

verus! {

broadcast use vstd::string::group_string_axioms;

/// Whether a row leaves a field out: it has none, or null.
pub open spec fn left_out(tv: JsonV, key: Seq<char>) -> bool {
    tv.get(key) is None || tv.get(key) == Some(JsonV::Null)
}

/// Whether `to` is what the first entry for `from` in a list of spellings says.
pub open spec fn first_entry(c: Spellings, from: Seq<char>, to: Seq<char>) -> bool {
    exists|k: int|
        0 <= k < c.len() && #[trigger] c[k] == (from, to) && forall|j: int|
            0 <= j < k ==> (#[trigger] c[j]).0 != from
}

/// Whether a text field was taken over as it is.
pub open spec fn took_text(tv: JsonV, key: Seq<char>, now: Option<Seq<char>>) -> bool {
    match now {
        Some(s) => tv.get(key) == Some(JsonV::Str(s)) && s.len() > 0,
        None => left_out(tv, key),
    }
}

/// Whether an integer field was taken over as it is.
pub open spec fn took_number(tv: JsonV, key: Seq<char>, now: Option<i64>) -> bool {
    match now {
        Some(n) => tv.get(key) == Some(JsonV::Int(n as int)),
        None => left_out(tv, key),
    }
}

/// Whether a date field was taken over: a stamp as the store writes its
/// instant, any other spelling as the calendar has it.
pub open spec fn took_date(tv: JsonV, key: Seq<char>, dates: Spellings, now: Option<Seq<char>>) -> bool {
    match now {
        Some(t) => tv.get(key) matches Some(JsonV::Str(s)) && match stamp_instant(s) {
            Some(n) => instant_stamp(n) == Some(t),
            None => first_entry(dates, s, t),
        },
        None => left_out(tv, key),
    }
}

/// Whether a field was taken over in its stored form.
pub open spec fn took_form(tv: JsonV, key: Seq<char>, forms: Spellings, now: Option<Seq<char>>) -> bool {
    match now {
        Some(t) => tv.get(key) matches Some(JsonV::Str(s)) && first_entry(forms, s, t),
        None => left_out(tv, key),
    }
}

/// A document's task at `i`, under the id `id`, came in.
pub open spec fn came_in(
    e: EngineV,
    p: JsonV,
    env: EnvV,
    rows: Seq<JsonV>,
    i: int,
    id: Seq<char>,
) -> bool {
    &&& imported(e, p, env) is Ok
    &&& p.get("tasks"@) == Some(JsonV::Arr(rows))
    &&& 0 <= i < rows.len()
    &&& rows[i].get("id"@) == Some(JsonV::Str(id))
}

/// The task `id` once a document is in.
pub open spec fn task_after(e: EngineV, p: JsonV, env: EnvV, id: Seq<char>) -> TaskV {
    task_by_id(imported(e, p, env)->Ok_0.0.tasks, id)->0
}

proof fn spelled_is_first(c: Spellings, s: Seq<char>)
    ensures
        spelled(c, s) matches Some(t) ==> first_entry(c, s, t),
        spelled(c, s) is None ==> forall|k: int| 0 <= k < c.len() ==> (#[trigger] c[k]).0 != s,
    decreases c.len(),
{
    if c.len() > 0 {
        let d = c.drop_last();
        spelled_is_first(d, s);
        if let Some(t) = spelled(d, s) {
            let k = choose|k: int|
                0 <= k < d.len() && #[trigger] d[k] == (s, t) && forall|j: int|
                    0 <= j < k ==> (#[trigger] d[j]).0 != s;
            assert(c[k] == (s, t));
            assert forall|j: int| 0 <= j < k implies (#[trigger] c[j]).0 != s by {
                assert(d[j].0 != s);
            }
        } else {
            assert forall|k: int| 0 <= k < c.len() - 1 implies (#[trigger] c[k]).0 != s by {
                assert(d[k].0 != s);
            }
            if c.last().0 == s {
                assert(c[c.len() - 1] == (s, c.last().1));
            }
        }
    }
}

/// A date that is read is taken over.
pub proof fn date_is_taken(tv: JsonV, key: Seq<char>, dates: Spellings)
    ensures
        opt_when_spec(tv, key, dates) matches Ok(now) ==> took_date(tv, key, dates, now),
{
    if let Some(JsonV::Str(s)) = tv.get(key) {
        spelled_is_first(dates, s);
    }
}

proof fn form_is_taken(tv: JsonV, key: Seq<char>, forms: Spellings, what: Seq<char>)
    ensures
        opt_form_spec(tv, key, forms, what) matches Ok(now) ==> took_form(tv, key, forms, now),
{
    if let Some(JsonV::Str(s)) = tv.get(key) {
        spelled_is_first(forms, s);
    }
}

/// The row of an imported task, in the store's own terms.
proof fn row_comes_in(e: EngineV, p: JsonV, env: EnvV, rows: Seq<JsonV>, i: int, id: Seq<char>)
    requires
        came_in(e, p, env, rows, i, id),
    ensures
        ({
            let w = sections_in(e, p, env)->Ok_0;
            let s = raised(w, rows);
            let tv = rows[i];
            &&& row_id(tv) == id
            &&& s.e.tasks == e.tasks
            &&& head_spec(tv, id) is Ok
            &&& body_spec(tv, id, env) is Ok
            &&& task_tags_spec(tv) is Ok
            &&& task_by_id(imported(e, p, env)->Ok_0.0.tasks, id) == Some(
                merged(
                    task_by_id(e.tasks, id),
                    id,
                    number_for(s.e, rows, i) as i64,
                    head_spec(tv, id)->Ok_0,
                    body_spec(tv, id, env)->Ok_0,
                    task_tags_spec(tv)->Ok_0,
                    env,
                ),
            )
            &&& number_for(s.e, rows, i) == task_after(e, p, env, id).short_id
        }),
{
    let w = sections_in(e, p, env)->Ok_0;
    let declared = opt_array_spec(p, "projects"@)->Ok_0 is Some;
    sections_leave_tasks(e, p, env);
    numbers_given(w, rows, declared, env, i);
    assert(imported(e, p, env)->Ok_0.0.tasks == tasks_in(w, rows, declared, env)->Ok_0.e.tasks)
        by {
        reveal(crate::import_rules::finished);
    }
    let s = raised(w, rows);
    let step = task_step(declared, env);
    assert(each(rows, rows.len(), s, step) is Ok) by {
        reveal(tasks_in);
    }
    each_prefix(rows, i as nat + 1, rows.len(), s, step);
    each_prefix(rows, i as nat, rows.len(), s, step);
    let t = each(rows, i as nat, s, step)->Ok_0;
    assert(step(t, rows[i]) == task_one(t, rows[i], declared, env));
    one_row(t, rows[i], declared, env);
    reveal(crate::import_numbers::row_for);
}

/// A task that is there keeps its tracked time where its row carries none; a
/// total that the row carries is taken over, and a new task has none.
pub proof fn tracked_time_is_never_wiped(
    e: EngineV,
    p: JsonV,
    env: EnvV,
    rows: Seq<JsonV>,
    i: int,
    id: Seq<char>,
)
    requires
        came_in(e, p, env, rows, i, id),
    ensures
        task_by_id(imported(e, p, env)->Ok_0.0.tasks, id) is Some,
        left_out(rows[i], "tracked_seconds"@) ==> match task_by_id(e.tasks, id) {
            Some(was) => task_after(e, p, env, id).tracked_seconds == was.tracked_seconds,
            None => task_after(e, p, env, id).tracked_seconds == 0,
        },
        !left_out(rows[i], "tracked_seconds"@) ==> rows[i].get("tracked_seconds"@) == Some(
            JsonV::Int(task_after(e, p, env, id).tracked_seconds as int),
        ) && task_after(e, p, env, id).tracked_seconds >= 0,
{
    row_comes_in(e, p, env, rows, i, id);
}

/// An adjustment belongs to its total: a row that carries neither changes
/// neither, and a row that carries a total without an adjustment has none.
pub proof fn adjustments_go_with_their_total(
    e: EngineV,
    p: JsonV,
    env: EnvV,
    rows: Seq<JsonV>,
    i: int,
    id: Seq<char>,
)
    requires
        came_in(e, p, env, rows, i, id),
    ensures
        !left_out(rows[i], "tracked_adjustment_seconds"@) ==> rows[i].get(
            "tracked_adjustment_seconds"@,
        ) == Some(JsonV::Int(task_after(e, p, env, id).tracked_adjustment_seconds as int)),
        left_out(rows[i], "tracked_adjustment_seconds"@) && left_out(
            rows[i],
            "tracked_seconds"@,
        ) ==> match task_by_id(e.tasks, id) {
            Some(was) => task_after(e, p, env, id).tracked_adjustment_seconds
                == was.tracked_adjustment_seconds,
            None => task_after(e, p, env, id).tracked_adjustment_seconds == 0,
        },
        left_out(rows[i], "tracked_adjustment_seconds"@) && !left_out(
            rows[i],
            "tracked_seconds"@,
        ) ==> task_after(e, p, env, id).tracked_adjustment_seconds == 0,
{
    row_comes_in(e, p, env, rows, i, id);
}

/// An imported task has an open interval exactly where it is active: the one
/// its row carries, else the one it had, else one that begins now.
pub proof fn active_tasks_and_no_others_have_an_interval(
    e: EngineV,
    p: JsonV,
    env: EnvV,
    rows: Seq<JsonV>,
    i: int,
    id: Seq<char>,
)
    requires
        came_in(e, p, env, rows, i, id),
    ensures
        (task_after(e, p, env, id).active_since is Some) == (task_after(e, p, env, id).status
            == Status::Active),
        task_after(e, p, env, id).status == Status::Active && !left_out(rows[i], "active_since"@)
            ==> took_date(
            rows[i],
            "active_since"@,
            env.dates,
            task_after(e, p, env, id).active_since,
        ),
        task_after(e, p, env, id).status == Status::Active && left_out(rows[i], "active_since"@)
            ==> match task_by_id(e.tasks, id) {
            Some(was) => if was.active_since is Some {
                task_after(e, p, env, id).active_since == was.active_since
            } else {
                task_after(e, p, env, id).active_since == Some(env.log.now)
            },
            None => task_after(e, p, env, id).active_since == Some(env.log.now),
        },
{
    row_comes_in(e, p, env, rows, i, id);
    date_is_taken(rows[i], "active_since"@, env.dates);
}

/// An imported task is called what its row says, stands where its row says, and
/// is pending where the row does not say; it has the priority and the project of
/// its row, and none where the row has none.
pub proof fn imported_tasks_stand_where_their_rows_say(
    e: EngineV,
    p: JsonV,
    env: EnvV,
    rows: Seq<JsonV>,
    i: int,
    id: Seq<char>,
)
    requires
        came_in(e, p, env, rows, i, id),
    ensures
        ({
            let now = task_after(e, p, env, id);
            let tv = rows[i];
            &&& now.id == id
            &&& tv.get("title"@) == Some(JsonV::Str(now.title))
            &&& now.status_raw is None
            &&& left_out(tv, "status"@) ==> now.status == Status::Pending
            &&& !left_out(tv, "status"@) ==> tv.get("status"@) == Some(
                JsonV::Str(now.status.name()),
            )
            &&& left_out(tv, "priority"@) ==> now.priority is None
            &&& !left_out(tv, "priority"@) ==> (now.priority matches Some(x) && tv.get(
                "priority"@,
            ) == Some(JsonV::Str(x.name())))
            &&& took_text(tv, "project"@, now.project)
        }),
{
    row_comes_in(e, p, env, rows, i, id);
    let tv = rows[i];
    named_status_has_that_word(
        match tv.get("status"@) {
            Some(JsonV::Str(s)) => s,
            _ => "pending"@,
        },
    );
    status_word_names_itself(Status::Pending);
}

/// Every other field of an imported task is its row's: a date as the instant it
/// stands for, an estimate, a rule and a reminder in their stored form, and
/// nothing where the row has nothing. Without a date of its own a task was made
/// and changed now; without a revision it is at the first.
pub proof fn imported_tasks_carry_what_their_rows_say(
    e: EngineV,
    p: JsonV,
    env: EnvV,
    rows: Seq<JsonV>,
    i: int,
    id: Seq<char>,
)
    requires
        came_in(e, p, env, rows, i, id),
    ensures
        ({
            let now = task_after(e, p, env, id);
            let tv = rows[i];
            &&& took_date(tv, "due"@, env.dates, now.due)
            &&& took_date(tv, "scheduled"@, env.dates, now.scheduled)
            &&& took_date(tv, "wait"@, env.dates, now.wait)
            &&& took_date(tv, "completed"@, env.dates, now.completed)
            &&& took_form(tv, "estimate"@, env.durations, now.estimate)
            &&& took_form(tv, "recurrence"@, env.rules, now.recurrence)
            &&& took_form(tv, "remind"@, env.reminders, now.remind)
            &&& took_number(tv, "budget_tokens"@, now.budget_tokens)
            &&& now.budget_tokens matches Some(n) ==> n >= 0
            &&& took_text(tv, "delivered_annotation_id"@, now.delivered_annotation_id)
            &&& took_text(tv, "spawned_from"@, now.spawned_from)
            &&& if left_out(tv, "created"@) {
                now.created == env.log.now
            } else {
                took_date(tv, "created"@, env.dates, Some(now.created))
            }
            &&& if left_out(tv, "modified"@) {
                now.modified == env.log.now
            } else {
                took_date(tv, "modified"@, env.dates, Some(now.modified))
            }
            &&& if left_out(tv, "_rev"@) {
                now.rev == 1
            } else {
                took_number(tv, "_rev"@, Some(now.rev))
            }
        }),
{
    row_comes_in(e, p, env, rows, i, id);
    body_is_taken(rows[i], id, env);
}

#[verifier::rlimit(40)]
proof fn body_is_taken(tv: JsonV, id: Seq<char>, env: EnvV)
    requires
        body_spec(tv, id, env) is Ok,
    ensures
        ({
            let now = body_spec(tv, id, env)->Ok_0;
            &&& took_date(tv, "due"@, env.dates, now.due)
            &&& took_date(tv, "scheduled"@, env.dates, now.scheduled)
            &&& took_date(tv, "wait"@, env.dates, now.wait)
            &&& took_date(tv, "completed"@, env.dates, now.completed)
            &&& took_form(tv, "estimate"@, env.durations, now.estimate)
            &&& took_form(tv, "recurrence"@, env.rules, now.recurrence)
            &&& took_form(tv, "remind"@, env.reminders, now.remind)
            &&& took_number(tv, "budget_tokens"@, now.budget_tokens)
            &&& now.budget_tokens matches Some(n) ==> n >= 0
            &&& took_text(tv, "delivered_annotation_id"@, now.delivered_annotation_id)
            &&& took_text(tv, "spawned_from"@, now.spawned_from)
            &&& if left_out(tv, "created"@) {
                now.created == env.log.now
            } else {
                took_date(tv, "created"@, env.dates, Some(now.created))
            }
            &&& if left_out(tv, "modified"@) {
                now.modified == env.log.now
            } else {
                took_date(tv, "modified"@, env.dates, Some(now.modified))
            }
            &&& if left_out(tv, "_rev"@) {
                now.rev == 1
            } else {
                took_number(tv, "_rev"@, Some(now.rev))
            }
        }),
{
    date_is_taken(tv, "due"@, env.dates);
    date_is_taken(tv, "scheduled"@, env.dates);
    date_is_taken(tv, "wait"@, env.dates);
    date_is_taken(tv, "completed"@, env.dates);
    date_is_taken(tv, "created"@, env.dates);
    date_is_taken(tv, "modified"@, env.dates);
    form_is_taken(tv, "estimate"@, env.durations, "a duration"@);
    form_is_taken(tv, "recurrence"@, env.rules, "a recurrence rule"@);
    form_is_taken(tv, "remind"@, env.reminders, "a reminder"@);
}

/// Whether a row's list of texts holds `x`.
pub open spec fn lists_text(tv: JsonV, key: Seq<char>, x: Seq<char>) -> bool {
    tv.get(key) matches Some(JsonV::Arr(v)) && v.contains(JsonV::Str(x))
}

proof fn tags_are_put(v: Seq<Seq<char>>, n: nat)
    requires
        n <= v.len(),
        tags_spec(v, n) is Ok,
    ensures
        tags_rise(tags_spec(v, n)->Ok_0),
        forall|x: Seq<char>| #[trigger]
            tags_spec(v, n)->Ok_0.contains(x) <==> v.take(n as int).contains(x),
    decreases n,
{
    if n > 0 {
        tags_are_put(v, (n - 1) as nat);
        let b = tags_spec(v, (n - 1) as nat)->Ok_0;
        let few = v.take(n - 1);
        let more = v.take(n as int);
        assert(more =~= few.push(v[n - 1]));
        tag_put_members(b, v[n - 1]);
        assert(more[n - 1] == v[n - 1]);
        assert forall|x: Seq<char>| #[trigger]
            tags_spec(v, n)->Ok_0.contains(x) <==> more.contains(x) by {
            if few.contains(x) {
                let k = choose|k: int| 0 <= k < few.len() && few[k] == x;
                assert(more[k] == x);
            }
            if more.contains(x) && x != v[n - 1] {
                let k = choose|k: int| 0 <= k < more.len() && more[k] == x;
                assert(few[k] == x);
                assert(few.contains(x));
            }
            assert(b.contains(x) <==> few.contains(x));
        }
    }
}

proof fn all_texts_say(v: Seq<JsonV>, key: Seq<char>, n: nat)
    requires
        n <= v.len(),
        all_texts(v, key, n) is Ok,
    ensures
        all_texts(v, key, n)->Ok_0.len() == n,
        forall|i: int|
            0 <= i < n ==> #[trigger] v[i] == JsonV::Str(all_texts(v, key, n)->Ok_0[i]),
    decreases n,
{
    if n > 0 {
        all_texts_say(v, key, (n - 1) as nat);
    }
}

/// The texts a row lists are the texts that are read.
pub proof fn listed_texts_are_read(tv: JsonV, key: Seq<char>, x: Seq<char>)
    requires
        opt_str_array_spec(tv, key) is Ok,
    ensures
        opt_str_array_spec(tv, key)->Ok_0.contains(x) <==> lists_text(tv, key, x),
{
    let r = opt_str_array_spec(tv, key)->Ok_0;
    if let Some(JsonV::Arr(v)) = tv.get(key) {
        all_texts_say(v, key, v.len());
        if r.contains(x) {
            let k = choose|k: int| 0 <= k < r.len() && r[k] == x;
            assert(v[k] == JsonV::Str(x));
        }
        if v.contains(JsonV::Str(x)) {
            let k = choose|k: int| 0 <= k < v.len() && v[k] == JsonV::Str(x);
            assert(r[k] == x);
        }
    } else {
        assert(r =~= Seq::empty());
    }
}

/// An imported task has exactly the tags its row lists, each once and in order.
pub proof fn imported_tasks_have_exactly_their_tags(
    e: EngineV,
    p: JsonV,
    env: EnvV,
    rows: Seq<JsonV>,
    i: int,
    id: Seq<char>,
)
    requires
        came_in(e, p, env, rows, i, id),
    ensures
        forall|x: Seq<char>| #[trigger]
            task_after(e, p, env, id).tags.contains(x) <==> lists_text(rows[i], "tags"@, x),
        tags_rise(task_after(e, p, env, id).tags),
{
    row_comes_in(e, p, env, rows, i, id);
    let tv = rows[i];
    let v = opt_str_array_spec(tv, "tags"@)->Ok_0;
    tags_are_put(v, v.len());
    assert(v.take(v.len() as int) =~= v);
    assert forall|x: Seq<char>| #[trigger]
        task_after(e, p, env, id).tags.contains(x) <==> lists_text(tv, "tags"@, x) by {
        listed_texts_are_read(tv, "tags"@, x);
        assert(tags_spec(v, v.len())->Ok_0.contains(x) <==> v.contains(x));
    }
}

/// A new task keeps the number it carries where no task of the store has it;
/// else it gets one above every number of the store and of the document. A task
/// that is there keeps the number it has.
pub proof fn numbers_are_kept_or_new(
    e: EngineV,
    p: JsonV,
    env: EnvV,
    rows: Seq<JsonV>,
    i: int,
    id: Seq<char>,
    carried: int,
)
    requires
        e.wf(),
        came_in(e, p, env, rows, i, id),
        rows[i].get("short_id"@) == Some(JsonV::Int(carried)),
    ensures
        ({
            let now = task_after(e, p, env, id).short_id;
            let taken = exists|k: int| 0 <= k < e.tasks.len() && (#[trigger] e.tasks[k]).short_id
                == carried;
            &&& task_by_id(e.tasks, id) matches Some(was) ==> now == was.short_id
            &&& task_by_id(e.tasks, id) is None && !taken ==> now == carried
            &&& task_by_id(e.tasks, id) is None && taken ==> {
                &&& forall|k: int| 0 <= k < e.tasks.len() ==> (#[trigger] e.tasks[k]).short_id < now
                &&& forall|k: int|
                    0 <= k < rows.len() ==> ((#[trigger] rows[k]).get("short_id"@) matches Some(
                        JsonV::Int(n),
                    ) ==> n < now)
            }
        }),
{
    row_comes_in(e, p, env, rows, i, id);
    let w = sections_in(e, p, env)->Ok_0;
    let declared = opt_array_spec(p, "projects"@)->Ok_0 is Some;
    let s = raised(w, rows);
    let step = task_step(declared, env);
    assert(each(rows, rows.len(), s, step) is Ok) by {
        reveal(tasks_in);
    }
    rows_are_read(rows, rows.len(), s, declared, env, i);
    assert(row_number(rows[i]) == carried);
    sections_keep(e, p, env);
    assert forall|k: int| 0 <= k < rows.len() implies (opt_i64_spec(
        #[trigger] rows[k],
        "short_id"@,
    ) matches Ok(Some(c)) ==> c < i64::MAX) by {
        rows_are_read(rows, rows.len(), s, declared, env, k);
    }
    assert forall|k: int| 0 <= k < rows.len() implies ((#[trigger] rows[k]).get(
        "short_id"@,
    ) matches Some(JsonV::Int(n)) ==> n < s.e.next_short_id) by {
        rows_are_read(rows, rows.len(), s, declared, env, k);
        numbers_are_below(w, rows, k);
    }
    assert forall|k: int| 0 <= k < e.tasks.len() implies (#[trigger] e.tasks[k]).short_id
        < s.e.next_short_id by {
        assert(w.e.tasks[k].short_id < w.e.next_short_id);
    }
}

} // verus!
