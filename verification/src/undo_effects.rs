//! What an undo changes, what it leaves alone, and what it refuses.

use crate::children::Named;
use crate::duration::seconds_of;
use crate::engine::EngineV;
use crate::engine::task_by_id;
use crate::engine::task_replaced;
use crate::error::ErrorCode;
use crate::export::payload_said;
use crate::graph::waits_for;
use crate::import_laws::found_stands;
use crate::import_laws::put_lookup;
use crate::journal::event_row;
use crate::journal::LogV;
use crate::json::JsonV;
use crate::json_text::json_text;
use crate::rows::Annotation;
use crate::rows::AnnotationV;
use crate::rows::DependencyV;
use crate::rows::Event;
use crate::rows::EventV;
use crate::rows::Task;
use crate::rows::TaskV;
use crate::sound::ids_differ;
use crate::sound::tags_rise;
use crate::tables::find;
use crate::tables::put_is_found;
use crate::types::Entity;
use crate::types::Status;
use crate::undo::carried_already;
use crate::undo::interval_start;
use crate::undo::note_at;
use crate::undo::op_undone;
use crate::undo::reverted;
use crate::undo::stop_is_back;
use crate::undo::tags_of;
use crate::undo::tags_with;
use crate::undo::texts_among;
use crate::undo::undo_answer;
use crate::undo::undo_mark;
use crate::undo::whole_second_of;
use crate::undo_laws::tags_with_members;
use crate::undo_laws::words_differ;
use crate::vector_index::Pending;
use crate::when::instant_stamp;
use crate::when::stamp_instant;
use crate::when::whole_seconds;
use vstd::prelude::*;

verus! {

broadcast use {vstd::string::group_string_axioms, crate::value::lookup_push};

/// The newest event of a log.
pub open spec fn newest(e: EngineV) -> EventV {
    e.events[e.events.len() - 1]
}

/// An undo took its seconds off the total and put them into the interval: the
/// task runs since exactly that many seconds before the whole second at which it
/// was stopped.
pub proof fn undone_stops_give_their_seconds_back(
    e: EngineV,
    log: LogV,
    was: TaskV,
    spent: Seq<char>,
    elapsed: int,
)
    requires
        reverted(e, log) is Ok,
        newest(e).op == "stop"@,
        task_by_id(e.tasks, newest(e).entity_id) == Some(was),
        payload_said(newest(e)).text("tracked"@) == Some(spent),
        seconds_of(spent) == Some(elapsed),
    ensures
        task_by_id(reverted(e, log)->Ok_0.0.tasks, was.id) matches Some(now) && {
            &&& now.status == Status::Active
            &&& now.status_raw is None
            &&& now.tracked_seconds + elapsed == was.tracked_seconds
            &&& now.tracked_seconds >= 0
            &&& was.status == Status::Pending
            &&& stamp_instant(newest(e).ts) is Some
            &&& exists|second: int| #[trigger]
                whole_second_of(stamp_instant(newest(e).ts)->0, second) && now.active_since
                    == instant_stamp((second - elapsed) * 1_000_000_000)
            &&& now.active_since is Some
        },
{
    stop_is_back(e, log);
    found_stands(e.tasks, newest(e).entity_id);
    let n = stamp_instant(newest(e).ts)->0;
    assert(whole_second_of(n, whole_seconds(n)));
}

/// A `stop` is undone exactly where its event says how long the interval was,
/// the task is still pending with that much time on it, the interval's beginning
/// can be written down, and there is a fresh id for the mark.
pub proof fn stops_are_undone_exactly_where_they_can_be(e: EngineV, log: LogV, was: TaskV)
    requires
        e.events.len() > 0,
        newest(e).op == "stop"@,
        task_by_id(e.tasks, newest(e).entity_id) == Some(was),
        log.ids.len() > 0,
        find::<Event>(e.events, log.ids[0]) is None,
    ensures
        reverted(e, log) is Ok <==> {
            let spent = payload_said(newest(e)).text("tracked"@);
            &&& spent is Some
            &&& seconds_of(spent->0) is Some
            &&& was.status == Status::Pending
            &&& was.tracked_seconds >= seconds_of(spent->0)->0
            &&& interval_start(newest(e).ts, seconds_of(spent->0)->0) is Some
        },
        reverted(e, log) matches Err(no) ==> no.code == ErrorCode::Conflict || no.code
            == ErrorCode::Internal,
{
}

/// What can be undone is a stop, a tag taken off, an edge taken out and a note
/// that was added; anything else is refused as a conflict, and an empty log has
/// nothing to undo.
pub proof fn nothing_else_is_undone(e: EngineV, log: LogV)
    ensures
        e.events.len() == 0 ==> (reverted(e, log) matches Err(no) && no.code
            == ErrorCode::NotFound),
        e.events.len() > 0 && newest(e).op != "stop"@ && newest(e).op != "tag.remove"@ && newest(
            e,
        ).op != "dependency.remove"@ && newest(e).op != "annotation.add"@ ==> (reverted(
            e,
            log,
        ) matches Err(no) && no.code == ErrorCode::Conflict),
        e.events.len() > 0 && reverted(e, log) is Ok ==> task_by_id(
            e.tasks,
            newest(e).entity_id,
        ) is Some,
{
}

proof fn replacing_leaves(s: Seq<TaskV>, t: TaskV, id: Seq<char>)
    requires
        id != t.id,
    ensures
        task_by_id(task_replaced(s, t), id) == task_by_id(s, id),
        task_replaced(s, t).len() == s.len(),
    decreases s.len(),
{
    if s.len() > 0 {
        let r = task_replaced(s, t);
        replacing_leaves(s.drop_last(), t, id);
        if s.last().id == t.id {
            assert(r.drop_last() =~= s.drop_last());
        } else {
            assert(r.drop_last() =~= task_replaced(s.drop_last(), t));
        }
    }
}

/// What a task is apart from its revision and when it was changed.
pub open spec fn but_for_the_revision(t: TaskV) -> TaskV {
    TaskV { rev: 0, modified: Seq::empty(), ..t }
}

/// An undo changes its own task and no other, puts it at its next revision as of
/// now, and touches neither the numbers, nor the projects, nor the memory, nor
/// the criteria, nor the measurements of the store.
pub proof fn undo_changes_its_own_task_alone(e: EngineV, log: LogV, was: TaskV, id: Seq<char>)
    requires
        reverted(e, log) is Ok,
        task_by_id(e.tasks, newest(e).entity_id) == Some(was),
        was.rev < i64::MAX,
    ensures
        ({
            let x = reverted(e, log)->Ok_0.0;
            &&& id != was.id ==> task_by_id(x.tasks, id) == task_by_id(e.tasks, id)
            &&& x.tasks.len() == e.tasks.len()
            &&& task_by_id(x.tasks, was.id) matches Some(now) && now.rev == was.rev + 1
                && now.modified == log.now && now.id == was.id && now.short_id == was.short_id
            &&& x.next_short_id == e.next_short_id
            &&& x.projects == e.projects
            &&& x.docs == e.docs
            &&& x.checks == e.checks
            &&& x.measurements == e.measurements
            &&& x.default_project == e.default_project
            &&& newest(e).op != "annotation.add"@ ==> x.annotations == e.annotations
            &&& newest(e).op != "dependency.remove"@ ==> x.dependencies == e.dependencies
            &&& newest(e).op == "annotation.add"@ || newest(e).op == "dependency.remove"@
                ==> but_for_the_revision(task_by_id(x.tasks, was.id)->0) == but_for_the_revision(
                was,
            )
            &&& newest(e).op == "tag.remove"@ ==> but_for_the_revision(
                task_by_id(x.tasks, was.id)->0,
            ) == but_for_the_revision(
                TaskV { tags: task_by_id(x.tasks, was.id)->0.tags, ..was },
            )
            &&& newest(e).op == "stop"@ ==> but_for_the_revision(
                task_by_id(x.tasks, was.id)->0,
            ) == but_for_the_revision(
                TaskV {
                    status: task_by_id(x.tasks, was.id)->0.status,
                    status_raw: None,
                    active_since: task_by_id(x.tasks, was.id)->0.active_since,
                    tracked_seconds: task_by_id(x.tasks, was.id)->0.tracked_seconds,
                    ..was
                },
            )
        }),
{
    words_differ();
    let ev = newest(e);
    found_stands(e.tasks, ev.entity_id);
    let payload = payload_said(ev);
    let mid = op_undone(e, was, ev.op, payload, ev.ts)->Ok_0.0;
    let row = if ev.op == "stop"@ {
        let elapsed = seconds_of(payload.text("tracked"@)->0)->0;
        TaskV {
            status: Status::Active,
            status_raw: None,
            active_since: interval_start(ev.ts, elapsed),
            tracked_seconds: (was.tracked_seconds - elapsed) as i64,
            ..was
        }
    } else if ev.op == "tag.remove"@ {
        let tags = tags_of(payload);
        TaskV { tags: tags_with(was.tags, tags, tags.len()), ..was }
    } else {
        was
    };
    if ev.op == "stop"@ || ev.op == "tag.remove"@ {
        assert(mid.tasks == task_replaced(e.tasks, row));
        put_lookup(e.tasks, row, was.id);
        replacing_leaves(e.tasks, row, if id == was.id {
            was.id.push('x')
        } else {
            id
        });
    }
    assert(task_by_id(mid.tasks, was.id) == Some(row));
    let after = TaskV { rev: (was.rev + 1) as i64, modified: log.now, ..row };
    put_lookup(mid.tasks, after, was.id);
    replacing_leaves(mid.tasks, after, if id == was.id {
        was.id.push('x')
    } else {
        id
    });
}

/// An undone `tag.remove` puts back exactly the tags that its event names.
pub proof fn undone_tags_are_those_of_the_event(
    e: EngineV,
    log: LogV,
    was: TaskV,
    tags: Seq<JsonV>,
)
    requires
        reverted(e, log) is Ok,
        newest(e).op == "tag.remove"@,
        task_by_id(e.tasks, newest(e).entity_id) == Some(was),
        payload_said(newest(e)).get("tags"@) == Some(JsonV::Arr(tags)),
        tags_rise(was.tags),
        forall|i: int| 0 <= i < tags.len() ==> (#[trigger] tags[i] matches JsonV::Str(s) ==> s.len()
            > 0),
    ensures
        task_by_id(reverted(e, log)->Ok_0.0.tasks, was.id) matches Some(now) && {
            &&& forall|x: Seq<char>| #[trigger]
                now.tags.contains(x) <==> was.tags.contains(x) || tags.contains(JsonV::Str(x))
            &&& tags_rise(now.tags)
        },
        forall|i: int|
            0 <= i < tags.len() ==> (#[trigger] tags[i] matches JsonV::Str(s)
                ==> !was.tags.contains(s)),
        exists|i: int| 0 <= i < tags.len() && #[trigger] tags[i] is Str,
{
    words_differ();
    let ev = newest(e);
    found_stands(e.tasks, ev.entity_id);
    let payload = payload_said(ev);
    let gone = tags_of(payload);
    texts_are_those(tags, tags.len());
    let row = TaskV { tags: tags_with(was.tags, gone, gone.len()), ..was };
    put_lookup(e.tasks, row, was.id);
    let mid = task_replaced(e.tasks, row);
    let after = TaskV { rev: (was.rev + 1) as i64, modified: log.now, ..row };
    put_lookup(mid, after, was.id);
    assert forall|i: int| 0 <= i < gone.len() implies (#[trigger] gone[i]).len() > 0 by {
        assert(gone.contains(gone[i]));
        let k = choose|k: int| 0 <= k < tags.len() && tags[k] == JsonV::Str(gone[i]);
        assert(tags[k] matches JsonV::Str(s) ==> s.len() > 0);
    }
    tags_with_members(was.tags, gone, gone.len());
    assert(gone.take(gone.len() as int) =~= gone);
    assert forall|x: Seq<char>| #[trigger]
        row.tags.contains(x) <==> was.tags.contains(x) || tags.contains(JsonV::Str(x)) by {
        assert(gone.contains(x) <==> tags.contains(JsonV::Str(x)));
    }
    assert forall|i: int| 0 <= i < tags.len() implies (#[trigger] tags[i] matches JsonV::Str(s)
        ==> !was.tags.contains(s)) by {
        if let JsonV::Str(s) = tags[i] {
            assert(tags.contains(JsonV::Str(s)));
            assert(gone.contains(s));
            let k = choose|k: int| 0 <= k < gone.len() && gone[k] == s;
            if was.tags.contains(s) {
                one_is_carried(gone, was.tags, gone.len(), k);
            }
        }
    }
    assert(gone.contains(gone[0]));
    let k = choose|k: int| 0 <= k < tags.len() && tags[k] == JsonV::Str(gone[0]);
    assert(tags[k] is Str);
}

proof fn one_is_carried(tags: Seq<Seq<char>>, present: Seq<Seq<char>>, n: nat, k: int)
    requires
        0 <= k < n <= tags.len(),
        present.contains(tags[k]),
    ensures
        carried_already(tags, present, n).len() > 0,
    decreases n,
{
    if k < n - 1 {
        one_is_carried(tags, present, (n - 1) as nat, k);
    }
}

proof fn texts_are_those(v: Seq<JsonV>, n: nat)
    requires
        n <= v.len(),
    ensures
        forall|x: Seq<char>| #[trigger]
            texts_among(v, n).contains(x) <==> v.take(n as int).contains(JsonV::Str(x)),
        n == v.len() ==> v.take(n as int) == v,
    decreases n,
{
    if n == v.len() {
        assert(v.take(n as int) =~= v);
    }
    if n > 0 {
        texts_are_those(v, (n - 1) as nat);
        let b = texts_among(v, (n - 1) as nat);
        let r = texts_among(v, n);
        let few = v.take(n - 1);
        let more = v.take(n as int);
        assert(more =~= few.push(v[n - 1]));
        assert(more[n - 1] == v[n - 1]);
        assert forall|x: Seq<char>| #[trigger]
            r.contains(x) <==> more.contains(JsonV::Str(x)) by {
            assert(b.contains(x) <==> few.contains(JsonV::Str(x)));
            if few.contains(JsonV::Str(x)) {
                let k = choose|k: int| 0 <= k < few.len() && few[k] == JsonV::Str(x);
                assert(more[k] == JsonV::Str(x));
                let j = choose|j: int| 0 <= j < b.len() && b[j] == x;
                assert(r[j] == x);
            }
            if v[n - 1] == JsonV::Str(x) {
                assert(r[b.len() as int] == x);
            }
            if more.contains(JsonV::Str(x)) && v[n - 1] != JsonV::Str(x) {
                let k = choose|k: int| 0 <= k < more.len() && more[k] == JsonV::Str(x);
                assert(few[k] == JsonV::Str(x));
                assert(few.contains(JsonV::Str(x)));
            }
            if r.contains(x) && !b.contains(x) {
                let j = choose|j: int| 0 <= j < r.len() && r[j] == x;
                if j < b.len() {
                    assert(b[j] == x);
                }
            }
        }
    }
}

/// An undone `dependency.remove` puts back the one edge its event names, where
/// the task it leads to is there and does not wait for this one; no edge is put
/// twice.
pub proof fn undone_edges_are_those_of_the_event(
    e: EngineV,
    log: LogV,
    was: TaskV,
    on: Seq<char>,
)
    requires
        reverted(e, log) is Ok,
        newest(e).op == "dependency.remove"@,
        task_by_id(e.tasks, newest(e).entity_id) == Some(was),
        payload_said(newest(e)).get("depends_on"@) == Some(JsonV::Str(on)),
    ensures
        ({
            let x = reverted(e, log)->Ok_0.0;
            let edge = DependencyV { task_id: was.id, depends_on: on };
            &&& forall|d: DependencyV| #[trigger]
                x.dependencies.contains(d) <==> e.dependencies.contains(d) || d == edge
            &&& x.dependencies.len() == e.dependencies.len() + 1
            &&& !e.dependencies.contains(edge)
            &&& task_by_id(e.tasks, on) is Some
            &&& !waits_for(e.dependencies, on, was.id)
        }),
{
    words_differ();
    let edge = DependencyV { task_id: was.id, depends_on: on };
    let x = reverted(e, log)->Ok_0.0.dependencies;
    assert(x == e.dependencies.push(edge));
    assert forall|d: DependencyV| #[trigger] x.contains(d) <==> e.dependencies.contains(d) || d
        == edge by {
        if e.dependencies.contains(d) {
            let i = choose|i: int| 0 <= i < e.dependencies.len() && e.dependencies[i] == d;
            assert(x[i] == d);
        }
        if d == edge {
            assert(x[e.dependencies.len() as int] == d);
        }
        if x.contains(d) && d != edge {
            let i = choose|i: int| 0 <= i < x.len() && x[i] == d;
            assert(e.dependencies[i] == d);
        }
    }
}

/// An undone `annotation.add` takes away the note its event names and no other,
/// and answers with what that note said.
pub proof fn undone_notes_are_those_of_the_event(
    e: EngineV,
    log: LogV,
    was: TaskV,
    id: Seq<char>,
)
    requires
        reverted(e, log) is Ok,
        newest(e).op == "annotation.add"@,
        task_by_id(e.tasks, newest(e).entity_id) == Some(was),
        payload_said(newest(e)).get("id"@) == Some(JsonV::Str(id)),
        ids_differ::<Annotation>(e.annotations),
    ensures
        ({
            let x = reverted(e, log)->Ok_0.0.annotations;
            &&& forall|a: AnnotationV| #[trigger]
                x.contains(a) <==> e.annotations.contains(a) && a.id != id
            &&& x.len() + 1 == e.annotations.len()
        }),
{
    words_differ();
    let s = e.annotations;
    note_is_there(s, id, 0);
    let i = note_at(s, id, 0)->0;
    let x = reverted(e, log)->Ok_0.0.annotations;
    assert(x == s.remove(i));
    assert forall|a: AnnotationV| #[trigger] x.contains(a) <==> s.contains(a) && a.id != id by {
        if x.contains(a) {
            let k = choose|k: int| 0 <= k < x.len() && x[k] == a;
            let j = if k < i {
                k
            } else {
                k + 1
            };
            assert(s[j] == a);
            if j < i {
                assert(Annotation::id_of(s[j]) != Annotation::id_of(s[i]));
            } else {
                assert(Annotation::id_of(s[i]) != Annotation::id_of(s[j]));
            }
        }
        if s.contains(a) && a.id != id {
            let k = choose|k: int| 0 <= k < s.len() && s[k] == a;
            assert(x[if k < i {
                k
            } else {
                k - 1
            }] == a);
        }
    }
}

proof fn note_is_there(s: Seq<AnnotationV>, id: Seq<char>, i: int)
    requires
        0 <= i,
    ensures
        note_at(s, id, i) matches Some(k) ==> i <= k < s.len() && s[k].id == id,
    decreases s.len() - i,
{
    if i < s.len() {
        note_is_there(s, id, i + 1);
    }
}

/// Whether an event carries a value as its payload.
pub open spec fn carries_payload(row: EventV, v: JsonV) -> bool {
    row.payload == Some(json_text(v))
}

/// An undo says in the log what it undid, and answers with the event, the task
/// and the revision the task is now at.
#[verifier::rlimit(40)]
pub proof fn undo_says_what_it_did(e: EngineV, log: LogV, was: TaskV)
    requires
        reverted(e, log) is Ok,
        task_by_id(e.tasks, newest(e).entity_id) == Some(was),
    ensures
        ({
            let x = reverted(e, log)->Ok_0;
            let answer = x.1;
            &&& answer.get("short_id"@) == Some(JsonV::Int(was.short_id as int))
            &&& answer.get("title"@) == Some(JsonV::Str(was.title))
            &&& answer.get("_rev"@) == Some(JsonV::Int(was.rev + 1))
            &&& answer.get("reverted"@) is Some
            &&& answer.get("reverted"@)->0.get("event"@) == Some(JsonV::Str(newest(e).id))
            &&& answer.get("reverted"@)->0.get("op"@) == Some(JsonV::Str(newest(e).op))
            &&& answer.get("reverted"@)->0.get("ts"@) == Some(JsonV::Str(newest(e).ts))
            &&& answer.get("restored"@) is Some
            &&& find::<Event>(x.0.events, log.ids[0]) matches Some(row) && {
                &&& row.op == "undo"@
                &&& row.entity == "task"@
                &&& row.entity_id == was.id
                &&& row.ts == log.now
                &&& row.actor == log.actor
                &&& exists|mark: JsonV| #[trigger]
                    carries_payload(row, mark) && mark.get("reverted"@) == Some(
                        JsonV::Str(newest(e).id),
                    ) && mark.get("reverted_op"@) == Some(JsonV::Str(newest(e).op)) && mark.get(
                        "restored"@,
                    ) == answer.get("restored"@)
            }
        }),
{
    let ev = newest(e);
    found_stands(e.tasks, ev.entity_id);
    let x = op_undone(e, was, ev.op, payload_said(ev), ev.ts)->Ok_0;
    reveal_strlit("reverted");
    reveal_strlit("reverted_op");
    reveal_strlit("restored");
    reveal_strlit("short_id");
    reveal_strlit("title");
    reveal_strlit("_rev");
    reveal_strlit("event");
    reveal_strlit("op");
    reveal_strlit("ts");
    assert("reverted"@.len() == 8 && "reverted"@[2] == 'v');
    assert("restored"@.len() == 8 && "restored"@[2] == 's');
    assert("short_id"@.len() == 8 && "short_id"@[0] == 's');
    assert("reverted_op"@.len() == 11);
    assert("title"@.len() == 5 && "title"@[0] == 't');
    assert("_rev"@.len() == 4);
    assert("event"@.len() == 5 && "event"@[0] == 'e');
    assert("op"@[0] == 'o');
    assert("ts"@[0] == 't');
    assert("op"@.len() == 2 && "ts"@.len() == 2);
    let m = undo_answer(ev, was, x.1)->Obj_0;
    assert(m =~= Seq::<(Seq<char>, JsonV)>::empty().push(m[0]).push(m[1]).push(m[2]).push(
        m[3],
    ).push(m[4]));
    let h = m[0].1->Obj_0;
    assert(h =~= Seq::<(Seq<char>, JsonV)>::empty().push(h[0]).push(h[1]).push(h[2]));
    let mark = undo_mark(ev.id, ev.op, x.1);
    let n = mark->Obj_0;
    assert(n =~= Seq::<(Seq<char>, JsonV)>::empty().push(n[0]).push(n[1]).push(n[2]));
    let row = event_row(log.ids[0], Entity::Task, was.id, "undo"@, mark, log);
    put_is_found::<Event>(e.events, row);
    assert(carries_payload(row, mark));
    assert(mark.get("reverted"@) == Some(JsonV::Str(ev.id)));
    assert(mark.get("reverted_op"@) == Some(JsonV::Str(ev.op)));
    assert(mark.get("restored"@) == Some(x.1));
    let answer = undo_answer(ev, was, x.1);
    assert(answer.get("restored"@) == Some(x.1));
    assert(answer.get("short_id"@) == Some(JsonV::Int(was.short_id as int)));
    assert(answer.get("title"@) == Some(JsonV::Str(was.title)));
    assert(answer.get("_rev"@) == Some(JsonV::Int(was.rev + 1)));
    assert(answer.get("reverted"@) == Some(m[0].1));
}

} // verus!
