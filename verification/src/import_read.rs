//! Reading the rows of a document that is to be imported.
//!
//! A document may come from anywhere, so every field passes the test that the
//! same field passes when it is written by hand, and a refusal names the row
//! and the field.

use crate::error::ApiError;
use crate::error::bad_request;
use crate::error::ErrorV;
use crate::filter::Spellings;
use crate::journal::LogEnv;
use crate::journal::LogV;
use crate::json::Json;
use crate::json::JsonV;
use crate::params::opt_i64;
use crate::params::opt_i64_spec;
use crate::params::opt_str_array;
use crate::params::opt_str_array_spec;
use crate::params::opt_str_nonempty;
use crate::params::opt_str_nonempty_spec;
use crate::params::req_str;
use crate::params::req_str_spec;
use crate::params::told;
use crate::params::told_texts;
use crate::tables::text_before;
use crate::tables::text_lt;
use crate::text::debug_form;
use crate::text::debug_text;
use crate::text::decimal;
use crate::text::push_decimal;
use crate::text::same;
use crate::text::strs;
use crate::text::texts;
use crate::types::priorities_accepted;
use crate::types::Priority;
use crate::types::priority_named;
use crate::types::Status;
use crate::types::status_named;
use crate::types::statuses_accepted;
use crate::value::members;
use crate::value::opt_view;
use crate::when::Calendar;
use crate::when::resolved;
use crate::when::spelled;
use vstd::prelude::*;

verus! {

broadcast use {
    vstd::string::group_string_axioms,
    crate::value::group_json,
    crate::text::texts_push,
};

/// What an import needs from outside the document: what a change needs, what
/// the spellings in the document stand for, and the words a measurement may use.
pub struct ImportEnv {
    pub log: LogEnv,
    /// Dates that need a clock.
    pub dates: Calendar,
    /// Estimates and their stored form.
    pub durations: Calendar,
    /// Recurrence rules and their stored form.
    pub rules: Calendar,
    /// Reminders and their stored form.
    pub reminders: Calendar,
    /// The sources a token measurement may name.
    pub token_sources: Vec<String>,
    /// The confidences a token measurement may name.
    pub confidences: Vec<String>,
}

/// What an [`ImportEnv`] says.
pub ghost struct EnvV {
    pub log: LogV,
    pub dates: Spellings,
    pub durations: Spellings,
    pub rules: Spellings,
    pub reminders: Spellings,
    pub token_sources: Seq<Seq<char>>,
    pub confidences: Seq<Seq<char>>,
}

impl View for ImportEnv {
    type V = EnvV;

    open spec fn view(&self) -> EnvV {
        EnvV {
            log: self.log@,
            dates: self.dates@,
            durations: self.durations@,
            rules: self.rules@,
            reminders: self.reminders@,
            token_sources: texts(self.token_sources@),
            confidences: texts(self.confidences@),
        }
    }
}

/// A refusal, with the row and the field it is about.
pub open spec fn in_field(what: Seq<char>, id: Seq<char>, field: Seq<char>, e: ErrorV) -> ErrorV {
    bad_request("store.import: "@ + what + " "@ + id + ", "@ + field + ": "@ + e.message)
}

/// A refusal, with the row and the field it is about.
pub fn in_field_err(what: &str, id: &str, field: &str, e: &ApiError) -> (r: ApiError)
    ensures
        r@ == in_field(what@, id@, field@, e@),
{
    let mut m: String = "store.import: ".to_owned();
    m.append(what);
    m.append(" ");
    m.append(id);
    m.append(", ");
    m.append(field);
    m.append(": ");
    m.append(e.message.as_str());
    ApiError::bad_request(m)
}

/// A refusal of a field of a task.
pub open spec fn task_err<T>(r: Result<T, ErrorV>, id: Seq<char>, field: Seq<char>) -> ErrorV {
    in_field("task"@, id, field, r->Err_0)
}

/// A refusal with more to say.
pub open spec fn explained(e: ErrorV, more: Seq<char>) -> ErrorV {
    bad_request(e.message + more)
}

/// A refusal with more to say.
pub fn explained_err(e: ApiError, more: &str) -> (r: ApiError)
    ensures
        r@ == explained(e@, more@),
{
    let mut m: String = e.message;
    m.append(more);
    ApiError::bad_request(m)
}

/// The refusal of a row that is no object.
pub open spec fn no_object(prefix: Seq<char>, what: Seq<char>) -> ErrorV {
    bad_request("store.import: "@ + prefix + "each "@ + what + " must be an object"@)
}

/// The refusal of a row that is no object.
pub fn no_object_err(prefix: &str, what: &str) -> (r: ApiError)
    ensures
        r@ == no_object(prefix@, what@),
{
    let mut t: String = "store.import: ".to_owned();
    t.append(prefix);
    t.append("each ");
    t.append(what);
    t.append(" must be an object");
    ApiError::bad_request(t)
}

/// The refusal of a field a row does not have.
pub open spec fn unknown_field(prefix: Seq<char>, what: Seq<char>, key: Seq<char>) -> ErrorV {
    bad_request("store.import: "@ + prefix + what + " has no field "@ + debug_form(key))
}

/// Whether a row has this field.
pub open spec fn allowed(keys: Seq<Seq<char>>, key: Seq<char>) -> bool {
    keys.contains(key)
}

/// The first of the members from `i` on that a row does not have.
pub open spec fn stray(m: Seq<(Seq<char>, JsonV)>, keys: Seq<Seq<char>>, i: int) -> Option<Seq<char>>
    decreases m.len() - i,
{
    if i < 0 || i >= m.len() {
        None
    } else if allowed(keys, m[i].0) {
        stray(m, keys, i + 1)
    } else {
        Some(m[i].0)
    }
}

/// Whether a row is an object with no field but those named, or why not.
pub open spec fn shape_spec(
    prefix: Seq<char>,
    what: Seq<char>,
    v: JsonV,
    keys: Seq<Seq<char>>,
) -> Result<(), ErrorV> {
    match v {
        JsonV::Obj(m) => match stray(m, keys, 0) {
            None => Ok(()),
            Some(key) => Err(unknown_field(prefix, what, key)),
        },
        _ => Err(no_object(prefix, what)),
    }
}

fn is_key(keys: &Vec<&'static str>, key: &str) -> (r: bool)
    ensures
        r == strs(keys@).contains(key@),
{
    let mut i: usize = 0;
    while i < keys.len()
        invariant
            i <= keys@.len(),
            forall|k: int| 0 <= k < i ==> #[trigger] strs(keys@)[k] != key@,
        decreases keys@.len() - i,
    {
        assert(strs(keys@)[i as int] == keys@[i as int]@);
        if same(keys[i], key) {
            return true;
        }
        i += 1;
    }
    false
}

/// Refuses a row that is no object, or that has a field rows do not have.
pub fn import_keys(prefix: &str, what: &str, v: &Json, keys: &Vec<&'static str>) -> (r: Result<
    (),
    ApiError,
>)
    ensures
        told(r) == shape_spec(prefix@, what@, v@, strs(keys@)),
{
    let m: &Vec<(String, Json)> = match v.as_object() {
        Some(m) => m,
        None => {
            return Err(no_object_err(prefix, what));
        },
    };
    let mut i: usize = 0;
    while i < m.len()
        invariant
            i <= m@.len(),
            v@ == JsonV::Obj(members(m@)),
            stray(members(m@), strs(keys@), 0) == stray(members(m@), strs(keys@), i as int),
        decreases m@.len() - i,
    {
        assert(members(m@)[i as int].0 == m@[i as int].0@);
        if !is_key(keys, m[i].0.as_str()) {
            let mut t: String = "store.import: ".to_owned();
            t.append(prefix);
            t.append(what);
            t.append(" has no field ");
            t.append(debug_text(m[i].0.as_str()).as_str());
            return Err(ApiError::bad_request(t));
        }
        i += 1;
    }
    Ok(())
}

/// An optional date field, as the stamp it stands for.
pub open spec fn opt_when_spec(p: JsonV, key: Seq<char>, dates: Spellings) -> Result<
    Option<Seq<char>>,
    ErrorV,
> {
    match opt_str_nonempty_spec(p, key) {
        Ok(Some(s)) => match resolved(s, dates) {
            Ok(t) => Ok(Some(t)),
            Err(e) => Err(e),
        },
        other => other,
    }
}

/// An optional date field, as the stamp it stands for.
pub fn opt_when(p: &Json, key: &str, dates: &Calendar) -> (r: Result<Option<String>, ApiError>)
    ensures
        told(r) == opt_when_spec(p@, key@, dates@),
{
    match opt_str_nonempty(p, key) {
        Ok(Some(s)) => match dates.parse_when(s.as_str()) {
            Ok(t) => Ok(Some(t)),
            Err(e) => Err(e),
        },
        other => other,
    }
}

/// An optional field with a stored form, as that form.
pub open spec fn opt_form_spec(
    p: JsonV,
    key: Seq<char>,
    forms: Spellings,
    what: Seq<char>,
) -> Result<Option<Seq<char>>, ErrorV> {
    match opt_str_nonempty_spec(p, key) {
        Ok(Some(s)) => match spelled(forms, s) {
            Some(t) => Ok(Some(t)),
            None => Err(bad_request("cannot read "@ + debug_form(s) + " as "@ + what)),
        },
        other => other,
    }
}

/// An optional field with a stored form, as that form.
pub fn opt_form(p: &Json, key: &str, forms: &Calendar, what: &str) -> (r: Result<
    Option<String>,
    ApiError,
>)
    ensures
        told(r) == opt_form_spec(p@, key@, forms@, what@),
{
    match opt_str_nonempty(p, key) {
        Ok(Some(s)) => match forms.find(s.as_str()) {
            Some(t) => Ok(Some(t)),
            None => {
                let mut m: String = "cannot read ".to_owned();
                m.append(debug_text(s.as_str()).as_str());
                m.append(" as ");
                m.append(what);
                Err(ApiError::bad_request(m))
            },
        },
        other => other,
    }
}

/// An optional integer field that is not negative.
pub open spec fn opt_count_spec(p: JsonV, key: Seq<char>) -> Result<Option<i64>, ErrorV> {
    match opt_i64_spec(p, key) {
        Ok(Some(n)) => if n < 0 {
            Err(bad_request(key + " must not be negative, got "@ + decimal(n as int)))
        } else {
            Ok(Some(n))
        },
        other => other,
    }
}

/// An optional integer field that is not negative.
pub fn opt_count(p: &Json, key: &str) -> (r: Result<Option<i64>, ApiError>)
    ensures
        told(r) == opt_count_spec(p@, key@),
{
    match opt_i64(p, key) {
        Ok(Some(n)) => if n < 0 {
            let mut m: String = key.to_owned();
            m.append(" must not be negative, got ");
            push_decimal(&mut m, n);
            Err(ApiError::bad_request(m))
        } else {
            Ok(Some(n))
        },
        other => other,
    }
}

/// The first fields of a task: what it is called and where it stands.
pub ghost struct HeadV {
    pub title: Seq<char>,
    pub status: Status,
    pub priority: Option<Priority>,
    pub project: Option<Seq<char>>,
}

/// The first fields of a task: what it is called and where it stands.
pub struct Head {
    pub title: String,
    pub status: Status,
    pub priority: Option<Priority>,
    pub project: Option<String>,
}

impl View for Head {
    type V = HeadV;

    open spec fn view(&self) -> HeadV {
        HeadV {
            title: self.title@,
            status: self.status,
            priority: self.priority,
            project: opt_view(self.project),
        }
    }
}

impl DeepView for Head {
    type V = HeadV;

    open spec fn deep_view(&self) -> HeadV {
        self@
    }
}

/// The refusal of a status that does not exist.
pub open spec fn bad_status(id: Seq<char>, raw: Seq<char>) -> ErrorV {
    bad_request(
        "store.import: task "@ + id + " has status "@ + debug_form(raw) + " — expected one of "@
            + statuses_accepted(),
    )
}

/// The refusal of a priority that does not exist.
pub open spec fn bad_priority(id: Seq<char>, raw: Seq<char>) -> ErrorV {
    bad_request(
        "store.import: task "@ + id + " has priority "@ + debug_form(raw) + " — expected one of "@
            + priorities_accepted(),
    )
}

/// The first fields of a task, or why they are refused. A task without a
/// status is pending.
pub open spec fn head_spec(tv: JsonV, id: Seq<char>) -> Result<HeadV, ErrorV> {
    let title = req_str_spec(tv, "title"@);
    let raw_status = opt_str_nonempty_spec(tv, "status"@);
    let word = match raw_status {
        Ok(Some(s)) => s,
        _ => "pending"@,
    };
    let raw_priority = opt_str_nonempty_spec(tv, "priority"@);
    let project = opt_str_nonempty_spec(tv, "project"@);
    if title is Err {
        Err(task_err(title, id, "title"@))
    } else if raw_status is Err {
        Err(task_err(raw_status, id, "status"@))
    } else if status_named(word) is None {
        Err(bad_status(id, word))
    } else if raw_priority is Err {
        Err(task_err(raw_priority, id, "priority"@))
    } else if raw_priority->Ok_0 is Some && priority_named(raw_priority->Ok_0->0) is None {
        Err(bad_priority(id, raw_priority->Ok_0->0))
    } else if project is Err {
        Err(task_err(project, id, "project"@))
    } else {
        Ok(
            HeadV {
                title: title->Ok_0,
                status: status_named(word)->0,
                priority: match raw_priority->Ok_0 {
                    Some(p) => priority_named(p),
                    None => None,
                },
                project: project->Ok_0,
            },
        )
    }
}

/// The first fields of a task, or why they are refused.
pub fn read_head(tv: &Json, id: &str) -> (r: Result<Head, ApiError>)
    ensures
        told(r) == head_spec(tv@, id@),
{
    let title: String = match req_str(tv, "title") {
        Ok(x) => x,
        Err(e) => {
            return Err(in_field_err("task", id, "title", &e));
        },
    };
    let word: String = match opt_str_nonempty(tv, "status") {
        Ok(Some(x)) => x,
        Ok(None) => "pending".to_owned(),
        Err(e) => {
            return Err(in_field_err("task", id, "status", &e));
        },
    };
    let status: Status = match Status::parse(word.as_str()) {
        Some(s) => s,
        None => {
            let mut m: String = "store.import: task ".to_owned();
            m.append(id);
            m.append(" has status ");
            m.append(debug_text(word.as_str()).as_str());
            m.append(" — expected one of ");
            m.append(Status::accepted());
            return Err(ApiError::bad_request(m));
        },
    };
    let priority: Option<Priority> = match opt_str_nonempty(tv, "priority") {
        Ok(Some(raw)) => match Priority::parse(raw.as_str()) {
            Some(p) => Some(p),
            None => {
                let mut m: String = "store.import: task ".to_owned();
                m.append(id);
                m.append(" has priority ");
                m.append(debug_text(raw.as_str()).as_str());
                m.append(" — expected one of ");
                m.append(Priority::accepted());
                return Err(ApiError::bad_request(m));
            },
        },
        Ok(None) => None,
        Err(e) => {
            return Err(in_field_err("task", id, "priority", &e));
        },
    };
    let project: Option<String> = match opt_str_nonempty(tv, "project") {
        Ok(x) => x,
        Err(e) => {
            return Err(in_field_err("task", id, "project", &e));
        },
    };
    Ok(Head { title, status, priority, project })
}

/// The other fields of a task.
pub ghost struct BodyV {
    pub due: Option<Seq<char>>,
    pub scheduled: Option<Seq<char>>,
    pub wait: Option<Seq<char>>,
    pub estimate: Option<Seq<char>>,
    pub recurrence: Option<Seq<char>>,
    pub budget_tokens: Option<i64>,
    pub delivered_annotation_id: Option<Seq<char>>,
    pub spawned_from: Option<Seq<char>>,
    pub remind: Option<Seq<char>>,
    pub created: Seq<char>,
    pub modified: Seq<char>,
    pub completed: Option<Seq<char>>,
    pub rev: i64,
    pub tracked_seconds: Option<i64>,
    pub tracked_adjustment_seconds: Option<i64>,
    pub active_since: Option<Seq<char>>,
}

/// The other fields of a task.
pub struct Body {
    pub due: Option<String>,
    pub scheduled: Option<String>,
    pub wait: Option<String>,
    pub estimate: Option<String>,
    pub recurrence: Option<String>,
    pub budget_tokens: Option<i64>,
    pub delivered_annotation_id: Option<String>,
    pub spawned_from: Option<String>,
    pub remind: Option<String>,
    pub created: String,
    pub modified: String,
    pub completed: Option<String>,
    pub rev: i64,
    pub tracked_seconds: Option<i64>,
    pub tracked_adjustment_seconds: Option<i64>,
    pub active_since: Option<String>,
}

impl View for Body {
    type V = BodyV;

    open spec fn view(&self) -> BodyV {
        BodyV {
            due: opt_view(self.due),
            scheduled: opt_view(self.scheduled),
            wait: opt_view(self.wait),
            estimate: opt_view(self.estimate),
            recurrence: opt_view(self.recurrence),
            budget_tokens: self.budget_tokens,
            delivered_annotation_id: opt_view(self.delivered_annotation_id),
            spawned_from: opt_view(self.spawned_from),
            remind: opt_view(self.remind),
            created: self.created@,
            modified: self.modified@,
            completed: opt_view(self.completed),
            rev: self.rev,
            tracked_seconds: self.tracked_seconds,
            tracked_adjustment_seconds: self.tracked_adjustment_seconds,
            active_since: opt_view(self.active_since),
        }
    }
}

impl DeepView for Body {
    type V = BodyV;

    open spec fn deep_view(&self) -> BodyV {
        self@
    }
}

/// The refusal of a negative budget.
pub open spec fn negative_budget(id: Seq<char>) -> ErrorV {
    bad_request("task "@ + id + ": budget_tokens must be a non-negative integer"@)
}

/// The other fields of a task, or why they are refused. A task without a
/// creation or modification date gets the instant of the import, and one
/// without a revision is at 1.
pub open spec fn body_spec(tv: JsonV, id: Seq<char>, env: EnvV) -> Result<BodyV, ErrorV> {
    let due = opt_when_spec(tv, "due"@, env.dates);
    let scheduled = opt_when_spec(tv, "scheduled"@, env.dates);
    let wait = opt_when_spec(tv, "wait"@, env.dates);
    let estimate = opt_form_spec(tv, "estimate"@, env.durations, "a duration"@);
    let recurrence = opt_form_spec(tv, "recurrence"@, env.rules, "a recurrence rule"@);
    let budget_tokens = opt_i64_spec(tv, "budget_tokens"@);
    let delivered_annotation_id = opt_str_nonempty_spec(tv, "delivered_annotation_id"@);
    let spawned_from = opt_str_nonempty_spec(tv, "spawned_from"@);
    let remind = opt_form_spec(tv, "remind"@, env.reminders, "a reminder"@);
    let created = opt_when_spec(tv, "created"@, env.dates);
    let modified = opt_when_spec(tv, "modified"@, env.dates);
    let completed = opt_when_spec(tv, "completed"@, env.dates);
    let rev = opt_i64_spec(tv, "_rev"@);
    let tracked_seconds = opt_count_spec(tv, "tracked_seconds"@);
    let tracked_adjustment_seconds = opt_i64_spec(tv, "tracked_adjustment_seconds"@);
    let active_since = opt_when_spec(tv, "active_since"@, env.dates);
    if due is Err {
        Err(task_err(due, id, "due"@))
    } else if scheduled is Err {
        Err(task_err(scheduled, id, "scheduled"@))
    } else if wait is Err {
        Err(task_err(wait, id, "wait"@))
    } else if estimate is Err {
        Err(task_err(estimate, id, "estimate"@))
    } else if recurrence is Err {
        Err(task_err(recurrence, id, "recurrence"@))
    } else if budget_tokens is Err {
        Err(task_err(budget_tokens, id, "budget_tokens"@))
    } else if budget_tokens->Ok_0 is Some && budget_tokens->Ok_0->0 < 0 {
        Err(negative_budget(id))
    } else if delivered_annotation_id is Err {
        Err(task_err(delivered_annotation_id, id, "delivered_annotation_id"@))
    } else if spawned_from is Err {
        Err(task_err(spawned_from, id, "spawned_from"@))
    } else if remind is Err {
        Err(task_err(remind, id, "remind"@))
    } else if created is Err {
        Err(task_err(created, id, "created"@))
    } else if modified is Err {
        Err(task_err(modified, id, "modified"@))
    } else if completed is Err {
        Err(task_err(completed, id, "completed"@))
    } else if rev is Err {
        Err(task_err(rev, id, "_rev"@))
    } else if tracked_seconds is Err {
        Err(task_err(tracked_seconds, id, "tracked_seconds"@))
    } else if tracked_adjustment_seconds is Err {
        Err(task_err(tracked_adjustment_seconds, id, "tracked_adjustment_seconds"@))
    } else if active_since is Err {
        Err(task_err(active_since, id, "active_since"@))
    } else {
        Ok(
            BodyV {
                due: due->Ok_0,
                scheduled: scheduled->Ok_0,
                wait: wait->Ok_0,
                estimate: estimate->Ok_0,
                recurrence: recurrence->Ok_0,
                budget_tokens: budget_tokens->Ok_0,
                delivered_annotation_id: delivered_annotation_id->Ok_0,
                spawned_from: spawned_from->Ok_0,
                remind: remind->Ok_0,
                created: match created->Ok_0 {
                    Some(s) => s,
                    None => env.log.now,
                },
                modified: match modified->Ok_0 {
                    Some(s) => s,
                    None => env.log.now,
                },
                completed: completed->Ok_0,
                rev: match rev->Ok_0 {
                    Some(n) => n,
                    None => 1,
                },
                tracked_seconds: tracked_seconds->Ok_0,
                tracked_adjustment_seconds: tracked_adjustment_seconds->Ok_0,
                active_since: active_since->Ok_0,
            },
        )
    }
}

/// The other fields of a task, or why they are refused.
pub fn read_body(tv: &Json, id: &str, env: &ImportEnv) -> (r: Result<Body, ApiError>)
    ensures
        told(r) == body_spec(tv@, id@, env@),
{
    let due: Option<String> = match opt_when(tv, "due", &env.dates) {
        Ok(x) => x,
        Err(e) => {
            return Err(in_field_err("task", id, "due", &e));
        },
    };
    let scheduled: Option<String> = match opt_when(tv, "scheduled", &env.dates) {
        Ok(x) => x,
        Err(e) => {
            return Err(in_field_err("task", id, "scheduled", &e));
        },
    };
    let wait: Option<String> = match opt_when(tv, "wait", &env.dates) {
        Ok(x) => x,
        Err(e) => {
            return Err(in_field_err("task", id, "wait", &e));
        },
    };
    let estimate: Option<String> = match opt_form(tv, "estimate", &env.durations, "a duration") {
        Ok(x) => x,
        Err(e) => {
            return Err(in_field_err("task", id, "estimate", &e));
        },
    };
    let recurrence: Option<String> = match opt_form(tv, "recurrence", &env.rules, "a recurrence rule") {
        Ok(x) => x,
        Err(e) => {
            return Err(in_field_err("task", id, "recurrence", &e));
        },
    };
    let budget_tokens: Option<i64> = match opt_i64(tv, "budget_tokens") {
        Ok(Some(n)) => {
            if n < 0 {
                let mut m: String = "task ".to_owned();
                m.append(id);
                m.append(": budget_tokens must be a non-negative integer");
                return Err(ApiError::bad_request(m));
            }
            Some(n)
        },
        Ok(None) => None,
        Err(e) => {
            return Err(in_field_err("task", id, "budget_tokens", &e));
        },
    };
    let delivered_annotation_id: Option<String> = match opt_str_nonempty(tv, "delivered_annotation_id") {
        Ok(x) => x,
        Err(e) => {
            return Err(in_field_err("task", id, "delivered_annotation_id", &e));
        },
    };
    let spawned_from: Option<String> = match opt_str_nonempty(tv, "spawned_from") {
        Ok(x) => x,
        Err(e) => {
            return Err(in_field_err("task", id, "spawned_from", &e));
        },
    };
    let remind: Option<String> = match opt_form(tv, "remind", &env.reminders, "a reminder") {
        Ok(x) => x,
        Err(e) => {
            return Err(in_field_err("task", id, "remind", &e));
        },
    };
    let created: String = match opt_when(tv, "created", &env.dates) {
        Ok(Some(x)) => x,
        Ok(None) => env.log.now.clone(),
        Err(e) => {
            return Err(in_field_err("task", id, "created", &e));
        },
    };
    let modified: String = match opt_when(tv, "modified", &env.dates) {
        Ok(Some(x)) => x,
        Ok(None) => env.log.now.clone(),
        Err(e) => {
            return Err(in_field_err("task", id, "modified", &e));
        },
    };
    let completed: Option<String> = match opt_when(tv, "completed", &env.dates) {
        Ok(x) => x,
        Err(e) => {
            return Err(in_field_err("task", id, "completed", &e));
        },
    };
    let rev: i64 = match opt_i64(tv, "_rev") {
        Ok(Some(x)) => x,
        Ok(None) => 1,
        Err(e) => {
            return Err(in_field_err("task", id, "_rev", &e));
        },
    };
    let tracked_seconds: Option<i64> = match opt_count(tv, "tracked_seconds") {
        Ok(x) => x,
        Err(e) => {
            return Err(in_field_err("task", id, "tracked_seconds", &e));
        },
    };
    let tracked_adjustment_seconds: Option<i64> = match opt_i64(tv, "tracked_adjustment_seconds") {
        Ok(x) => x,
        Err(e) => {
            return Err(in_field_err("task", id, "tracked_adjustment_seconds", &e));
        },
    };
    let active_since: Option<String> = match opt_when(tv, "active_since", &env.dates) {
        Ok(x) => x,
        Err(e) => {
            return Err(in_field_err("task", id, "active_since", &e));
        },
    };
    Ok(
        Body {
            due,
            scheduled,
            wait,
            estimate,
            recurrence,
            budget_tokens,
            delivered_annotation_id,
            spawned_from,
            remind,
            created,
            modified,
            completed,
            rev,
            tracked_seconds,
            tracked_adjustment_seconds,
            active_since,
        },
    )
}

/// A list of tags with one more, in order; a tag is in it once.
pub open spec fn tag_put(s: Seq<Seq<char>>, t: Seq<char>) -> Seq<Seq<char>>
    decreases s.len(),
{
    if s.len() == 0 {
        seq![t]
    } else if s.last() == t {
        s
    } else if text_lt(s.last(), t) {
        s.push(t)
    } else {
        tag_put(s.drop_last(), t).push(s.last())
    }
}

/// The first `n` tags, in order and each once; an empty tag is refused.
pub open spec fn tags_spec(v: Seq<Seq<char>>, n: nat) -> Result<Seq<Seq<char>>, ErrorV>
    decreases n,
{
    if n == 0 || n > v.len() {
        Ok(Seq::empty())
    } else {
        match tags_spec(v, (n - 1) as nat) {
            Err(e) => Err(e),
            Ok(s) => if v[n - 1].len() == 0 {
                Err(bad_request("a tag must not be empty"@))
            } else {
                Ok(tag_put(s, v[n - 1]))
            },
        }
    }
}

/// A refusal among the first tags is the answer for all of them.
pub proof fn tags_fail(v: Seq<Seq<char>>, i: nat, n: nat)
    requires
        i <= n <= v.len(),
        tags_spec(v, i) is Err,
    ensures
        tags_spec(v, n) == tags_spec(v, i),
    decreases n,
{
    if i < n {
        tags_fail(v, i, (n - 1) as nat);
    }
}

pub(crate) fn put_tag(v: &mut Vec<String>, t: String)
    ensures
        texts(final(v)@) == tag_put(texts(old(v)@), t@),
{
    let ghost before = texts(v@);
    let mut i: usize = v.len();
    assert(before.take(i as int) =~= before);
    assert(tag_put(before, t@) =~= tag_put(before.take(i as int), t@) + before.skip(i as int));
    while i > 0
        invariant
            before == texts(v@),
            v@ == old(v)@,
            i <= v@.len(),
            tag_put(before, t@) =~= tag_put(before.take(i as int), t@) + before.skip(i as int),
        decreases i,
    {
        let ghost now = before.take(i as int);
        assert(now.drop_last() =~= before.take(i - 1));
        assert(now.last() == v@[i - 1]@);
        if same(v[i - 1].as_str(), t.as_str()) {
            assert(before =~= now + before.skip(i as int));
            return;
        }
        if text_before(v[i - 1].as_str(), t.as_str()) {
            v.insert(i, t);
            assert(texts(v@) =~= before.take(i as int).push(t@) + before.skip(i as int));
            return;
        }
        assert(before.skip(i - 1) =~= seq![now.last()] + before.skip(i as int));
        i -= 1;
    }
    assert(before.take(0) =~= Seq::empty());
    v.insert(0, t);
    assert(texts(v@) =~= seq![t@] + before.skip(0));
}

/// The tags of a task, in order and each once, or why they are refused.
pub open spec fn task_tags_spec(tv: JsonV) -> Result<Seq<Seq<char>>, ErrorV> {
    match opt_str_array_spec(tv, "tags"@) {
        Err(e) => Err(e),
        Ok(v) => tags_spec(v, v.len()),
    }
}

/// The tags of a task, in order and each once, or why they are refused.
pub fn read_tags(tv: &Json) -> (r: Result<Vec<String>, ApiError>)
    ensures
        told_texts(r) == task_tags_spec(tv@),
{
    let v: Vec<String> = match opt_str_array(tv, "tags") {
        Err(e) => {
            return Err(e);
        },
        Ok(v) => v,
    };
    let mut out: Vec<String> = Vec::new();
    let mut i: usize = 0;
    assert(texts(out@) =~= Seq::empty());
    while i < v.len()
        invariant
            i <= v@.len(),
            opt_str_array_spec(tv@, "tags"@) == Ok::<Seq<Seq<char>>, ErrorV>(texts(v@)),
            tags_spec(texts(v@), i as nat) == Ok::<Seq<Seq<char>>, ErrorV>(texts(out@)),
        decreases v@.len() - i,
    {
        assert(texts(v@)[i as int] == v@[i as int]@);
        if v[i].as_str().is_empty() {
            proof {
                tags_fail(texts(v@), i as nat + 1, texts(v@).len());
            }
            return Err(ApiError::bad_request("a tag must not be empty".to_owned()));
        }
        put_tag(&mut out, v[i].clone());
        i += 1;
    }
    Ok(out)
}

} // verus!
