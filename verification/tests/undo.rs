//! Undo.

use serde_json::Value;
use tasqx_core::engine::Engine;
use tasqx_core::error::ErrorCode;
use tasqx_core::import_read::ImportEnv;
use tasqx_core::journal::LogEnv;
use tasqx_core::json::Json;
use tasqx_core::rows::{Dependency, Event};
use tasqx_core::types::Status;
use tasqx_core::undo::{NOT_UNDOABLE, UNDOABLE_OPS};
use tasqx_core::when::Calendar;

const NOW: &str = "2026-09-10T09:00:00Z";

fn to_json(v: &Value) -> Json {
    match v {
        Value::Null => Json::Null,
        Value::Bool(b) => Json::Bool(*b),
        Value::Number(n) => match n.as_i64() {
            Some(i) => Json::Int(i128::from(i)),
            None => Json::Float(n.to_string()),
        },
        Value::String(s) => Json::Str(s.clone()),
        Value::Array(a) => Json::Arr(a.iter().map(to_json).collect()),
        Value::Object(m) => Json::Obj(m.iter().map(|(k, v)| (k.clone(), to_json(v))).collect()),
    }
}

fn json(text: &str) -> Json {
    to_json(&serde_json::from_str(text).expect("test JSON"))
}

fn log(turn: u32) -> LogEnv {
    LogEnv {
        now: NOW.to_string(),
        actor: None,
        ids: (0..9).map(|n| format!("0199ffff-{turn:04}-{n:04}")).collect(),
    }
}

/// Two tasks, the second with two notes.
fn store() -> Engine {
    let mut e = Engine::open_in_memory();
    let env = ImportEnv {
        log: log(1),
        dates: Calendar::empty(),
        durations: Calendar::empty(),
        rules: Calendar::empty(),
        reminders: Calendar::empty(),
        token_sources: vec![],
        confidences: vec![],
    };
    let doc = json(
        r#"{ "tasks": [
            { "id": "t1", "short_id": 1, "title": "one", "_rev": 3 },
            { "id": "t2", "short_id": 2, "title": "two", "_rev": 5, "tags": ["b"], "tracked_seconds": 3700,
              "annotations": [{ "id": "a1", "body": "first", "created": "2026-09-01T00:00:00Z" },
                              { "id": "a2", "body": "second", "created": "2026-09-01T00:00:00Z" }] }
        ] }"#,
    );
    e.store_import(&doc, &env).expect("import");
    e
}

fn happened(e: &mut Engine, op: &str, payload: &str) {
    e.events.push(Event {
        id: "0199ffff-0002-0000".to_string(),
        entity: "task".to_string(),
        entity_id: "t2".to_string(),
        op: op.to_string(),
        payload: Some(payload.to_string()),
        ts: "2026-09-10T08:30:00.5Z".to_string(),
        actor: None,
    });
}

fn refused(e: &mut Engine, needle: &str) {
    let before = format!("{e:?}");
    let err = e.event_revert(&log(3)).expect_err(needle);
    assert_eq!(err.code, ErrorCode::Conflict, "{}", err.message);
    assert!(err.message.contains(needle), "{needle}: {}", err.message);
    assert_eq!(format!("{e:?}"), before, "a refusal changes nothing");
}

#[test]
fn a_stop_is_undone_to_the_second() {
    let mut e = store();
    happened(&mut e, "stop", r#"{ "tracked": "PT1H" }"#);
    let r = e.event_revert(&log(3)).expect("undo");
    assert_eq!(e.tasks[1].status, Status::Active);
    assert_eq!(e.tasks[1].tracked_seconds, 100);
    assert_eq!(
        e.tasks[1].active_since.as_deref(),
        Some("2026-09-10T07:30:00Z")
    );
    assert_eq!(e.tasks[1].rev, 6);
    assert_eq!(e.tasks[1].modified, NOW);
    assert_eq!(
        r,
        Json::Obj(vec![
            (
                "reverted".to_string(),
                Json::Obj(vec![
                    (
                        "event".to_string(),
                        Json::Str("0199ffff-0002-0000".to_string())
                    ),
                    ("op".to_string(), Json::Str("stop".to_string())),
                    (
                        "ts".to_string(),
                        Json::Str("2026-09-10T08:30:00.5Z".to_string())
                    ),
                ])
            ),
            ("short_id".to_string(), Json::Int(2)),
            ("title".to_string(), Json::Str("two".to_string())),
            (
                "restored".to_string(),
                Json::Obj(vec![
                    ("status".to_string(), Json::Str("active".to_string())),
                    ("tracked".to_string(), Json::Str("PT1H".to_string())),
                    (
                        "interval_started".to_string(),
                        Json::Str("2026-09-10T07:30:00Z".to_string())
                    ),
                ])
            ),
            ("_rev".to_string(), Json::Int(6)),
        ])
    );
    let last = e.events.last().expect("the undo is logged");
    assert_eq!(
        (last.op.as_str(), last.id.as_str()),
        ("undo", "0199ffff-0003-0000")
    );
    let said: Value = serde_json::from_str(last.payload.as_deref().unwrap()).unwrap();
    assert_eq!(said["reverted"], "0199ffff-0002-0000");
    assert_eq!(said["reverted_op"], "stop");
    assert_eq!(said["restored"]["tracked"], "PT1H");
    refused(&mut e, "There is no redo.");
}

#[test]
fn a_stop_that_cannot_be_undone_is_refused() {
    let mut e = store();
    happened(&mut e, "stop", "{}");
    refused(&mut e, "carries no `tracked` duration");
    let mut e = store();
    happened(&mut e, "stop", r#"{ "tracked": "an hour" }"#);
    refused(&mut e, "\"an hour\"");
    let mut e = store();
    happened(&mut e, "stop", r#"{ "tracked": "PT2H" }"#);
    refused(&mut e, "#2 has 3700s of tracked time but this `stop` contributed 7200s");
    let mut e = store();
    happened(&mut e, "stop", r#"{ "tracked": "PT1H" }"#);
    e.tasks[1].status = Status::Done;
    refused(&mut e, "#2 is done");
}

#[test]
fn tags_that_were_taken_off_are_on_again() {
    let mut e = store();
    happened(&mut e, "tag.remove", r#"{ "tags": ["c", "a"] }"#);
    e.event_revert(&log(3)).expect("undo");
    assert_eq!(e.tasks[1].tags, ["a", "b", "c"]);

    let mut e = store();
    happened(&mut e, "tag.remove", r#"{ "tags": ["b", "a"] }"#);
    refused(&mut e, "#2 already carries `b`");
    let mut e = store();
    happened(&mut e, "tag.remove", r#"{ "tags": [] }"#);
    refused(&mut e, "names no tags");
}

#[test]
fn an_edge_that_was_taken_out_is_in_again() {
    let mut e = store();
    happened(&mut e, "dependency.remove", r#"{ "depends_on": "t1" }"#);
    let r = e.event_revert(&log(3)).expect("undo");
    assert_eq!(
        r.get("restored"),
        Some(&Json::Obj(vec![("depends_on".to_string(), Json::Int(1))]))
    );
    assert_eq!(e.dependencies.len(), 1);
    assert_eq!(e.dependencies[0].task_id, "t2");
    assert_eq!(e.dependencies[0].depends_on, "t1");

    let mut e = store();
    e.dependencies.push(Dependency {
        task_id: "t1".to_string(),
        depends_on: "t2".to_string(),
    });
    happened(&mut e, "dependency.remove", r#"{ "depends_on": "t1" }"#);
    refused(&mut e, "would make #2 and #1 block each other");
    let mut e = store();
    e.dependencies.push(Dependency {
        task_id: "t2".to_string(),
        depends_on: "t1".to_string(),
    });
    happened(&mut e, "dependency.remove", r#"{ "depends_on": "t1" }"#);
    refused(&mut e, "#2 already depends on #1");
    let mut e = store();
    happened(&mut e, "dependency.remove", r#"{ "depends_on": "gone" }"#);
    let err = e.event_revert(&log(3)).unwrap_err();
    assert_eq!(err.code, ErrorCode::NotFound);
    assert_eq!(
        err.data,
        Some(Json::Obj(vec![(
            "depends_on".to_string(),
            Json::Str("gone".to_string())
        )]))
    );
}

#[test]
fn a_note_that_was_added_is_gone() {
    let mut e = store();
    e.tasks[0].rev = i64::MAX;
    happened(&mut e, "annotation.add", r#"{ "id": "a2" }"#);
    let r = e.event_revert(&log(3)).expect("undo");
    assert_eq!(e.annotations.len(), 1);
    assert_eq!(e.annotations[0].id, "a1");
    assert_eq!(
        r.get("restored").and_then(|x| x.get("annotation")),
        Some(&Json::Str("second".to_string()))
    );
    let mut e = store();
    happened(&mut e, "annotation.add", r#"{ "id": "a7" }"#);
    refused(&mut e, "is already gone");
}

#[test]
fn everything_else_is_refused_with_its_reason() {
    for (op, why) in NOT_UNDOABLE {
        let mut e = store();
        happened(&mut e, op, "{}");
        refused(&mut e, why);
        assert!(!UNDOABLE_OPS.contains(&op));
    }
    let mut e = store();
    happened(&mut e, "levitate", "{}");
    refused(
        &mut e,
        "`levitate` is not an operation this build knows how to reverse at all",
    );
    refused(&mut e, "stop, tag.remove, dependency.remove, annotation.add.");
    let err = Engine::open_in_memory().event_revert(&log(1)).unwrap_err();
    assert_eq!(err.code, ErrorCode::NotFound);
    assert!(err.message.contains("nothing to undo"), "{}", err.message);
}
