//! What holds of every undo.

use crate::duration::seconds_of;
use crate::engine::EngineV;
use crate::engine::task_by_id;
use crate::engine::task_replaced;
use crate::engine::tasks_ok;
use crate::error::ErrorCode;
use crate::export::payload_said;
use crate::graph::acyclic;
use crate::graph::more_edges_wait;
use crate::graph::safe_edge_stays_acyclic;
use crate::graph::waits_for;
use crate::import_laws::found_stands;
use crate::import_laws::joined_up;
use crate::import_laws::put_lookup;
use crate::import_laws::put_stays_ok;
use crate::import_read::tag_put;
use crate::journal::event_row;
use crate::journal::LogV;
use crate::json::JsonV;
use crate::rows::AnnotationV;
use crate::rows::DependencyV;
use crate::rows::Event;
use crate::rows::Task;
use crate::rows::TaskV;
use crate::sound::tags_rise;
use crate::tables::find;
use crate::tables::put;
use crate::tables::put_is_found;
use crate::tables::put_keeps_order;
use crate::tables::put_leaves_the_rest;
use crate::tables::text_lt;
use crate::tables::text_lt_irreflexive;
use crate::tables::text_lt_total;
use crate::tables::text_lt_transitive;
use crate::types::Entity;
use crate::types::Status;
use crate::undo::carried_already;
use crate::undo::interval_start;
use crate::undo::not_undoable_spec;
use crate::undo::note_at;
use crate::undo::op_undone;
use crate::undo::reverted;
use crate::undo::tags_of;
use crate::undo::tags_with;
use crate::undo::touched;
use crate::undo::undo_mark;
use crate::vector_index::Pending;
use vstd::prelude::*;

verus! {

broadcast use vstd::string::group_string_axioms;

/// Undo rewrites nothing: every event stays as it is, and the one that says
/// what was undone is new.
pub proof fn undo_only_appends(e: EngineV, log: LogV, id: Seq<char>)
    requires
        reverted(e, log) is Ok,
    ensures
        reverted(e, log) matches Ok(x) ==> {
            &&& find::<Event>(e.events, id) is Some ==> find::<Event>(x.0.events, id)
                == find::<Event>(e.events, id)
            &&& find::<Event>(x.0.events, log.ids[0]) matches Some(row) && row.op == "undo"@
            &&& find::<Event>(e.events, log.ids[0]) is None
        },
{
    let newest = e.events.last();
    let t = task_by_id(e.tasks, newest.entity_id)->0;
    let x = op_undone(e, t, newest.op, payload_said(newest), newest.ts)->Ok_0;
    let row = event_row(
        log.ids[0],
        Entity::Task,
        t.id,
        "undo"@,
        undo_mark(newest.id, newest.op, x.1),
        log,
    );
    put_is_found::<Event>(e.events, row);
    if id != row.id {
        put_leaves_the_rest::<Event>(e.events, row, id);
    }
}

/// There is no redo: once an undo is the newest event, undoing again is
/// refused as a conflict.
pub proof fn undo_twice_is_refused(e: EngineV, log: LogV, again: LogV)
    requires
        reverted(e, log) is Ok,
        text_lt(e.events.last().id, log.ids[0]),
    ensures
        reverted(e, log) matches Ok(x) ==> (reverted(x.0, again) matches Err(no) && no.code
            == ErrorCode::Conflict && no == not_undoable_spec("undo"@, log.now)),
{
    let newest = e.events.last();
    let t = task_by_id(e.tasks, newest.entity_id)->0;
    let x = op_undone(e, t, newest.op, payload_said(newest), newest.ts)->Ok_0;
    let row = event_row(
        log.ids[0],
        Entity::Task,
        t.id,
        "undo"@,
        undo_mark(newest.id, newest.op, x.1),
        log,
    );
    text_lt_irreflexive(row.id);
    let events = put::<Event>(e.events, row);
    assert(events == e.events.push(row));
    assert(events.last() == row);
    reveal_strlit("undo");
    reveal_strlit("stop");
    reveal_strlit("tag.remove");
    reveal_strlit("dependency.remove");
    reveal_strlit("annotation.add");
    assert("undo"@.len() == 4 && "undo"@[0] == 'u');
    assert("stop"@.len() == 4 && "stop"@[0] == 's');
    assert("tag.remove"@.len() == 10);
    assert("dependency.remove"@.len() == 17);
    assert("annotation.add"@.len() == 14);
}

/// Replacing a task by one with its id and number keeps the tasks in order.
proof fn replaced_stays_ok(s: Seq<TaskV>, t: TaskV, next: i64)
    requires
        tasks_ok(s, next),
        task_by_id(s, t.id) matches Some(x) && x.short_id == t.short_id,
    ensures
        tasks_ok(task_replaced(s, t), next),
        forall|id: Seq<char>|
            task_by_id(s, id) is Some ==> (#[trigger] task_by_id(task_replaced(s, t), id)) is Some,
        task_by_id(task_replaced(s, t), t.id) == Some(t),
{
    put_stays_ok(s, t, next);
    put_lookup(s, t, t.id);
}

/// An undo keeps the store in order.
pub proof fn undo_keeps_the_store_in_order(e: EngineV, log: LogV)
    requires
        e.wf(),
    ensures
        reverted(e, log) matches Ok(x) ==> x.0.wf(),
{
    if reverted(e, log) is Ok {
        let newest = e.events.last();
        let t = task_by_id(e.tasks, newest.entity_id)->0;
        let payload = payload_said(newest);
        let x = op_undone(e, t, newest.op, payload, newest.ts)->Ok_0;
        found_stands(e.tasks, newest.entity_id);
        undone_keeps(e, t, newest.op, payload, newest.ts);
        let mid = x.0;
        let now = task_by_id(mid.tasks, t.id)->0;
        let row = TaskV { rev: (t.rev + 1) as i64, modified: log.now, ..now };
        found_stands(mid.tasks, t.id);
        replaced_stays_ok(mid.tasks, row, mid.next_short_id);
        let after = touched(mid, t.id, t.rev + 1, log.now);
        assert(joined_up(after.dependencies, after.tasks)) by {
            assert forall|i: int| 0 <= i < after.dependencies.len() implies task_by_id(
                after.tasks,
                (#[trigger] after.dependencies[i]).task_id,
            ) is Some && task_by_id(after.tasks, after.dependencies[i].depends_on) is Some by {
                assert(task_by_id(mid.tasks, mid.dependencies[i].task_id) is Some);
            }
        }
        let ev = event_row(
            log.ids[0],
            Entity::Task,
            t.id,
            "undo"@,
            undo_mark(newest.id, newest.op, x.1),
            log,
        );
        put_keeps_order::<Event>(e.events, ev);
    }
}

/// Each inverse keeps the store in order, and the task it is about.
proof fn undone_keeps(e: EngineV, t: TaskV, op: Seq<char>, payload: JsonV, ts: Seq<char>)
    requires
        e.wf(),
        task_by_id(e.tasks, t.id) == Some(t),
        op_undone(e, t, op, payload, ts) is Ok,
    ensures
        op_undone(e, t, op, payload, ts) matches Ok(x) ==> x.0.wf() && x.0.events == e.events && (
        task_by_id(x.0.tasks, t.id) matches Some(n) && n.short_id == t.short_id && n.id == t.id),
{
    let x = op_undone(e, t, op, payload, ts)->Ok_0;
    if op == "stop"@ {
        let elapsed = seconds_of(payload.text("tracked"@)->0)->0;
        let row = TaskV {
            status: Status::Active,
            status_raw: None,
            active_since: Some(interval_start(ts, elapsed)->0),
            tracked_seconds: (t.tracked_seconds - elapsed) as i64,
            ..t
        };
        replaced_stays_ok(e.tasks, row, e.next_short_id);
        joined_stays(e, task_replaced(e.tasks, row));
    } else if op == "tag.remove"@ {
        let tags = tags_of(payload);
        let row = TaskV { tags: tags_with(t.tags, tags, tags.len()), ..t };
        replaced_stays_ok(e.tasks, row, e.next_short_id);
        joined_stays(e, task_replaced(e.tasks, row));
    } else if op == "dependency.remove"@ {
        let on = payload.text("depends_on"@)->0;
        let new = DependencyV { task_id: t.id, depends_on: on };
        safe_edge_stays_acyclic(e.dependencies, new);
        let d = e.dependencies.push(new);
        assert forall|i: int| 0 <= i < d.len() implies task_by_id(
            e.tasks,
            (#[trigger] d[i]).task_id,
        ) is Some && task_by_id(e.tasks, d[i].depends_on) is Some by {
            if i < e.dependencies.len() {
                assert(d[i] == e.dependencies[i]);
            }
        }
    }
}

proof fn joined_stays(e: EngineV, tasks: Seq<TaskV>)
    requires
        e.wf(),
        forall|id: Seq<char>|
            task_by_id(e.tasks, id) is Some ==> (#[trigger] task_by_id(tasks, id)) is Some,
    ensures
        joined_up(e.dependencies, tasks),
{
    assert forall|i: int| 0 <= i < e.dependencies.len() implies task_by_id(
        tasks,
        (#[trigger] e.dependencies[i]).task_id,
    ) is Some && task_by_id(tasks, e.dependencies[i].depends_on) is Some by {
        assert(task_by_id(e.tasks, e.dependencies[i].task_id) is Some);
    }
}

/// Whether the newest event of a store is an operation on a task, and an
/// undo of it can be logged.
pub open spec fn just_happened(e: EngineV, t: TaskV, op: Seq<char>, log: LogV) -> bool {
    &&& e.wf()
    &&& e.events.len() > 0
    &&& e.events.last().op == op
    &&& e.events.last().entity_id == t.id
    &&& task_by_id(e.tasks, t.id) == Some(t)
    &&& log.ids.len() > 0
    &&& find::<Event>(e.events, log.ids[0]) is None
}

/// The operations that can be undone are four.
pub proof fn words_differ()
    ensures
        "stop"@ != "tag.remove"@,
        "stop"@ != "dependency.remove"@,
        "stop"@ != "annotation.add"@,
        "tag.remove"@ != "dependency.remove"@,
        "tag.remove"@ != "annotation.add"@,
        "dependency.remove"@ != "annotation.add"@,
{
    reveal_strlit("stop");
    reveal_strlit("tag.remove");
    reveal_strlit("dependency.remove");
    reveal_strlit("annotation.add");
    assert("stop"@.len() == 4);
    assert("tag.remove"@.len() == 10);
    assert("dependency.remove"@.len() == 17);
    assert("annotation.add"@.len() == 14);
}

/// A note that was just added is taken away again: the notes are what they were.
pub proof fn undo_takes_the_note_away(
    e: EngineV,
    t: TaskV,
    log: LogV,
    before: Seq<AnnotationV>,
    note: AnnotationV,
)
    requires
        just_happened(e, t, "annotation.add"@, log),
        e.annotations == before.push(note),
        forall|i: int| 0 <= i < before.len() ==> (#[trigger] before[i]).id != note.id,
        payload_said(e.events.last()).text("id"@) == Some(note.id),
    ensures
        reverted(e, log) matches Ok(x) && x.0.annotations == before,
{
    words_differ();
    note_is_last(before, note, 0);
    let n = before.len() as int;
    assert(e.annotations.remove(n) =~= before);
}

proof fn note_is_last(before: Seq<AnnotationV>, note: AnnotationV, i: int)
    requires
        0 <= i <= before.len(),
        forall|k: int| 0 <= k < before.len() ==> (#[trigger] before[k]).id != note.id,
    ensures
        note_at(before.push(note), note.id, i) == Some(before.len() as int),
    decreases before.len() - i,
{
    if i < before.len() {
        assert(before.push(note)[i] == before[i]);
        note_is_last(before, note, i + 1);
    }
}

/// An edge that was just taken out is put back: the task waits for what it
/// waited for, and for nothing else.
pub proof fn undo_puts_the_edge_back(
    e: EngineV,
    t: TaskV,
    log: LogV,
    before: Seq<DependencyV>,
    on: Seq<char>,
)
    requires
        just_happened(e, t, "dependency.remove"@, log),
        acyclic(before),
        before.contains(DependencyV { task_id: t.id, depends_on: on }),
        task_by_id(e.tasks, on) is Some,
        forall|d: DependencyV|
            #[trigger] e.dependencies.contains(d) <==> before.contains(d) && d != (DependencyV {
                task_id: t.id,
                depends_on: on,
            }),
        payload_said(e.events.last()).text("depends_on"@) == Some(on),
    ensures
        reverted(e, log) matches Ok(x) && forall|d: DependencyV|
            #[trigger] x.0.dependencies.contains(d) <==> before.contains(d),
{
    words_differ();
    let edge = DependencyV { task_id: t.id, depends_on: on };
    let k = choose|k: int| 0 <= k < before.len() && before[k] == edge;
    assert(!waits_for(before, before[k].depends_on, before[k].task_id));
    assert forall|i: int| 0 <= i < e.dependencies.len() implies before.contains(
        #[trigger] e.dependencies[i],
    ) by {
        assert(e.dependencies.contains(e.dependencies[i]));
    }
    if waits_for(e.dependencies, on, t.id) {
        more_edges_wait(e.dependencies, before, on, t.id);
    }
    assert(!e.dependencies.contains(edge));
    let x = reverted(e, log)->Ok_0.0;
    assert(x.dependencies == e.dependencies.push(edge));
    assert forall|d: DependencyV| #[trigger] x.dependencies.contains(d) <==> before.contains(
        d,
    ) by {
        if before.contains(d) && d != edge {
            assert(e.dependencies.contains(d));
            let i = choose|i: int| 0 <= i < e.dependencies.len() && e.dependencies[i] == d;
            assert(x.dependencies[i] == d);
        }
        if d == edge {
            assert(x.dependencies[e.dependencies.len() as int] == d);
        }
        if x.dependencies.contains(d) && d != edge {
            let i = choose|i: int| 0 <= i < x.dependencies.len() && x.dependencies[i] == d;
            assert(e.dependencies[i] == d);
            assert(e.dependencies.contains(d));
        }
    }
}

/// An interval that was just closed is open again, and its seconds are off the
/// total.
pub proof fn undo_reopens_the_interval(e: EngineV, t: TaskV, log: LogV, total: i64, elapsed: int)
    requires
        just_happened(e, t, "stop"@, log),
        t.status == Status::Pending,
        0 <= elapsed,
        0 <= total,
        t.tracked_seconds == total + elapsed,
        payload_said(e.events.last()).text("tracked"@) matches Some(s) && seconds_of(s) == Some(
            elapsed,
        ),
        interval_start(e.events.last().ts, elapsed) is Some,
    ensures
        reverted(e, log) matches Ok(x) && task_by_id(x.0.tasks, t.id) matches Some(n) && n.status
            == Status::Active && n.tracked_seconds == total && n.active_since == interval_start(
            e.events.last().ts,
            elapsed,
        ),
{
    words_differ();
    let row = TaskV {
        status: Status::Active,
        status_raw: None,
        active_since: interval_start(e.events.last().ts, elapsed),
        tracked_seconds: total,
        ..t
    };
    replaced_stays_ok(e.tasks, row, e.next_short_id);
    let mid = task_replaced(e.tasks, row);
    let after = TaskV { rev: (t.rev + 1) as i64, modified: log.now, ..row };
    replaced_stays_ok(mid, after, e.next_short_id);
}

/// Putting a tag in adds that tag and no other.
pub proof fn tag_put_members(s: Seq<Seq<char>>, tag: Seq<char>)
    requires
        tags_rise(s),
        tag.len() > 0,
    ensures
        tags_rise(tag_put(s, tag)),
        forall|x: Seq<char>| #[trigger]
            tag_put(s, tag).contains(x) <==> s.contains(x) || x == tag,
    decreases s.len(),
{
    let r = tag_put(s, tag);
    if s.len() == 0 {
        assert(r[0] == tag);
    } else if s.last() == tag {
        assert(s[s.len() - 1] == tag);
    } else if text_lt(s.last(), tag) {
        let n = s.len() as int;
        assert(r == s.push(tag));
        assert(r[n] == tag);
        assert forall|i: int, j: int| 0 <= i < j < r.len() implies text_lt(
            #[trigger] r[i],
            #[trigger] r[j],
        ) by {
            if j < n {
                assert(text_lt(s[i], s[j]));
            } else if i < n - 1 {
                assert(text_lt(s[i], s[n - 1]));
                text_lt_transitive(s[i], s[n - 1], tag);
            }
        }
        assert forall|x: Seq<char>| #[trigger] r.contains(x) <==> s.contains(x) || x == tag by {
            if s.contains(x) {
                let k = choose|k: int| 0 <= k < s.len() && s[k] == x;
                assert(r[k] == x);
            }
        }
    } else {
        let d = s.drop_last();
        let n = s.len() - 1;
        assert forall|i: int, j: int| 0 <= i < j < d.len() implies text_lt(
            #[trigger] d[i],
            #[trigger] d[j],
        ) by {
            assert(text_lt(s[i], s[j]));
        }
        assert forall|i: int| 0 <= i < d.len() implies (#[trigger] d[i]).len() > 0 by {
            assert(s[i].len() > 0);
        }
        tag_put_members(d, tag);
        let p = tag_put(d, tag);
        text_lt_total(s.last(), tag);
        assert(r == p.push(s.last()));
        assert(s[n].len() > 0);
        assert forall|i: int, j: int| 0 <= i < j < r.len() implies text_lt(
            #[trigger] r[i],
            #[trigger] r[j],
        ) by {
            if j < p.len() {
                assert(text_lt(p[i], p[j]));
            } else {
                assert(p.contains(p[i]));
                if p[i] != tag {
                    assert(d.contains(p[i]));
                    let k = choose|k: int| 0 <= k < d.len() && d[k] == p[i];
                    assert(text_lt(s[k], s[n]));
                }
            }
        }
        assert forall|x: Seq<char>| #[trigger] r.contains(x) <==> s.contains(x) || x == tag by {
            if r.contains(x) {
                let k = choose|k: int| 0 <= k < r.len() && r[k] == x;
                if k < p.len() {
                    assert(p[k] == x);
                    assert(p.contains(x));
                    if x != tag {
                        let m = choose|m: int| 0 <= m < d.len() && d[m] == x;
                        assert(s[m] == x);
                    }
                } else {
                    assert(s[n] == x);
                }
            }
            if s.contains(x) {
                let k = choose|k: int| 0 <= k < s.len() && s[k] == x;
                if k < n {
                    assert(d[k] == x);
                    assert(d.contains(x));
                    assert(p.contains(x));
                    let m = choose|m: int| 0 <= m < p.len() && p[m] == x;
                    assert(r[m] == x);
                } else {
                    assert(r[p.len() as int] == x);
                }
            }
            if x == tag {
                assert(p.contains(x));
                let m = choose|m: int| 0 <= m < p.len() && p[m] == x;
                assert(r[m] == x);
            }
        }
    }
}

/// Putting tags in adds those tags and no others.
pub proof fn tags_with_members(s: Seq<Seq<char>>, tags: Seq<Seq<char>>, n: nat)
    requires
        tags_rise(s),
        n <= tags.len(),
        forall|i: int| 0 <= i < tags.len() ==> (#[trigger] tags[i]).len() > 0,
    ensures
        tags_rise(tags_with(s, tags, n)),
        forall|x: Seq<char>| #[trigger]
            tags_with(s, tags, n).contains(x) <==> s.contains(x) || tags.take(n as int).contains(
                x,
            ),
    decreases n,
{
    if n > 0 {
        tags_with_members(s, tags, (n - 1) as nat);
        let b = tags_with(s, tags, (n - 1) as nat);
        assert(tags[n - 1].len() > 0);
        tag_put_members(b, tags[n - 1]);
        let few = tags.take(n - 1);
        let more = tags.take(n as int);
        assert(more =~= few.push(tags[n - 1]));
        assert(more[n - 1] == tags[n - 1]);
        assert forall|x: Seq<char>| #[trigger]
            tags_with(s, tags, n).contains(x) <==> s.contains(x) || more.contains(x) by {
            if few.contains(x) {
                let k = choose|k: int| 0 <= k < few.len() && few[k] == x;
                assert(more[k] == x);
            }
            if more.contains(x) && x != tags[n - 1] {
                let k = choose|k: int| 0 <= k < more.len() && more[k] == x;
                assert(few[k] == x);
                assert(few.contains(x));
            }
            assert(b.contains(x) <==> s.contains(x) || few.contains(x));
        }
    }
}

/// Two lists of tags that rise and hold the same tags are one list.
proof fn rising_tags_agree(a: Seq<Seq<char>>, b: Seq<Seq<char>>)
    requires
        tags_rise(a),
        tags_rise(b),
        forall|x: Seq<char>| #[trigger] a.contains(x) <==> b.contains(x),
    ensures
        a == b,
    decreases a.len(),
{
    if a.len() == 0 {
        if b.len() > 0 {
            assert(b.contains(b[0]));
            assert(a.contains(b[0]));
        }
        assert(a =~= b);
    } else {
        assert(a.contains(a[0]));
        let n = a.len() - 1;
        let m = b.len() - 1;
        assert(a.contains(a[n]));
        assert(b.len() > 0) by {
            assert(b.contains(a[0]));
        }
        assert(b.contains(b[m]));
        assert(a.contains(b[m]));
        let i = choose|i: int| 0 <= i < a.len() && a[i] == b[m];
        let j = choose|j: int| 0 <= j < b.len() && b[j] == a[n];
        if i < n && j < m {
            assert(text_lt(a[i], a[n]));
            assert(text_lt(b[j], b[m]));
            text_lt_transitive(a[i], a[n], a[i]);
            text_lt_irreflexive(a[i]);
        }
        assert(a[n] == b[m]);
        let p = a.drop_last();
        let q = b.drop_last();
        rising_head(a);
        rising_head(b);
        assert forall|x: Seq<char>| #[trigger] p.contains(x) <==> q.contains(x) by {
            text_lt_irreflexive(a[n]);
            if p.contains(x) {
                let k = choose|k: int| 0 <= k < p.len() && p[k] == x;
                assert(a[k] == x);
                assert(text_lt(a[k], a[n]));
                assert(a.contains(x));
                let l = choose|l: int| 0 <= l < b.len() && b[l] == x;
                assert(l < m);
                assert(q[l] == x);
            }
            if q.contains(x) {
                let k = choose|k: int| 0 <= k < q.len() && q[k] == x;
                assert(b[k] == x);
                assert(text_lt(b[k], b[m]));
                assert(b.contains(x));
                assert(a.contains(x));
                let l = choose|l: int| 0 <= l < a.len() && a[l] == x;
                assert(l < n);
                assert(p[l] == x);
            }
        }
        rising_tags_agree(p, q);
        assert(a =~= p.push(a[n]));
        assert(b =~= q.push(b[m]));
    }
}

proof fn rising_head(a: Seq<Seq<char>>)
    requires
        tags_rise(a),
        a.len() > 0,
    ensures
        tags_rise(a.drop_last()),
{
    let p = a.drop_last();
    assert forall|i: int, j: int| 0 <= i < j < p.len() implies text_lt(
        #[trigger] p[i],
        #[trigger] p[j],
    ) by {
        assert(text_lt(a[i], a[j]));
    }
    assert forall|i: int| 0 <= i < p.len() implies (#[trigger] p[i]).len() > 0 by {
        assert(a[i].len() > 0);
    }
}

proof fn none_carried(tags: Seq<Seq<char>>, present: Seq<Seq<char>>, n: nat)
    requires
        n <= tags.len(),
        forall|i: int| 0 <= i < tags.len() ==> !present.contains(#[trigger] tags[i]),
    ensures
        carried_already(tags, present, n).len() == 0,
    decreases n,
{
    if n > 0 {
        none_carried(tags, present, (n - 1) as nat);
        assert(!present.contains(tags[n - 1]));
    }
}

/// Tags that were just taken off are on again: the task's tags are what they
/// were.
pub proof fn undo_puts_the_tags_back(e: EngineV, t: TaskV, log: LogV, before: Seq<Seq<char>>)
    requires
        just_happened(e, t, "tag.remove"@, log),
        tags_rise(before),
        tags_rise(t.tags),
        ({
            let gone = tags_of(payload_said(e.events.last()));
            &&& gone.len() > 0
            &&& forall|i: int|
                0 <= i < gone.len() ==> before.contains(#[trigger] gone[i]) && !t.tags.contains(
                    gone[i],
                )
            &&& forall|x: Seq<char>| #[trigger]
                before.contains(x) <==> t.tags.contains(x) || gone.contains(x)
        }),
    ensures
        reverted(e, log) matches Ok(x) && task_by_id(x.0.tasks, t.id) matches Some(n) && n.tags
            == before,
{
    words_differ();
    let gone = tags_of(payload_said(e.events.last()));
    none_carried(gone, t.tags, gone.len());
    assert forall|i: int| 0 <= i < gone.len() implies (#[trigger] gone[i]).len() > 0 by {
        assert(before.contains(gone[i]));
        let k = choose|k: int| 0 <= k < before.len() && before[k] == gone[i];
        assert(before[k].len() > 0);
    }
    tags_with_members(t.tags, gone, gone.len());
    assert(gone.take(gone.len() as int) =~= gone);
    let tags = tags_with(t.tags, gone, gone.len());
    rising_tags_agree(tags, before);
    let row = TaskV { tags, ..t };
    replaced_stays_ok(e.tasks, row, e.next_short_id);
    let mid = task_replaced(e.tasks, row);
    let after = TaskV { rev: (t.rev + 1) as i64, modified: log.now, ..row };
    replaced_stays_ok(mid, after, e.next_short_id);
}

} // verus!
