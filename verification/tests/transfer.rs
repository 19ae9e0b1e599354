//! Documents: a store written as one, and read back.

use serde_json::Value;
use tasqx_core::engine::Engine;
use tasqx_core::error::{ApiError, ErrorCode};
use tasqx_core::import_ids::ids_needed;
use tasqx_core::import_read::ImportEnv;
use tasqx_core::journal::LogEnv;
use tasqx_core::json::Json;
use tasqx_core::rows::{Annotation, Doc, Event, Project, Task};
use tasqx_core::types::Status;
use tasqx_core::when::Calendar;

const NOW: &str = "2026-09-10T09:00:00Z";

fn to_json(v: &Value) -> Json {
    match v {
        Value::Null => Json::Null,
        Value::Bool(b) => Json::Bool(*b),
        Value::Number(n) => match n.as_i64() {
            Some(i) => Json::Int(i128::from(i)),
            None => Json::Float(n.to_string()),
        },
        Value::String(s) => Json::Str(s.clone()),
        Value::Array(a) => Json::Arr(a.iter().map(to_json).collect()),
        Value::Object(m) => Json::Obj(m.iter().map(|(k, v)| (k.clone(), to_json(v))).collect()),
    }
}

fn json(text: &str) -> Json {
    to_json(&serde_json::from_str(text).expect("test JSON"))
}

/// Fresh ids for one call: those of `turn` are like those of no other.
fn env(turn: u32) -> ImportEnv {
    let form = |entries: &[&str]| Calendar {
        spellings: entries
            .iter()
            .map(|s| (s.to_string(), s.to_string()))
            .collect(),
    };
    ImportEnv {
        log: LogEnv {
            now: NOW.to_string(),
            actor: Some("test".to_string()),
            ids: (0..40)
                .map(|n| format!("0199ffff-{turn:04}-7000-8000-{n:012}"))
                .collect(),
        },
        dates: form(&[]),
        durations: form(&["PT1H"]),
        rules: form(&["every week"]),
        reminders: form(&["1h before due"]),
        token_sources: vec!["self-report".to_string()],
        confidences: vec!["medium".to_string()],
    }
}

fn import(e: &mut Engine, turn: u32, doc: &Json) -> Result<Json, ApiError> {
    e.store_import(doc, &env(turn))
}

fn export(e: &Engine) -> Json {
    e.store_export(&json("{}"), &Calendar::empty())
        .expect("export")
}

fn log(e: &mut Engine, entity: &str, entity_id: &str, op: &str, payload: &str) {
    let n = e.events.len();
    let row = Event {
        id: format!("0193cccc-0000-7000-8000-{n:012}"),
        entity: entity.to_string(),
        entity_id: entity_id.to_string(),
        op: op.to_string(),
        payload: Some(payload.to_string()),
        ts: NOW.to_string(),
        actor: Some("test".to_string()),
    };
    let at = e.events.iter().filter(|x| x.id < row.id).count();
    e.events.insert(at, row);
}

/// A task that the store gave its next number.
fn task_add(e: &mut Engine, title: &str, project: Option<&str>) -> (String, i64) {
    let short_id = e.next_short_id;
    let id = format!("0193bbbb-0000-7000-8000-{short_id:012}");
    e.tasks.push(Task {
        id: id.clone(),
        short_id,
        title: title.to_string(),
        status: Status::Pending,
        status_raw: None,
        priority: None,
        project: project.map(String::from),
        tags: vec![],
        due: None,
        scheduled: None,
        wait: None,
        estimate: None,
        recurrence: None,
        remind: None,
        budget_tokens: None,
        delivered_annotation_id: None,
        spawned_from: None,
        active_since: None,
        tracked_seconds: 0,
        tracked_adjustment_seconds: 0,
        created: "2026-09-01T08:00:00Z".to_string(),
        modified: "2026-09-01T08:00:00Z".to_string(),
        completed: None,
        rev: 1,
    });
    e.next_short_id += 1;
    log(e, "task", &id, "add", &format!("{{\"title\":\"{title}\"}}"));
    (id, short_id)
}

fn annotation_add(e: &mut Engine, task: usize, body: &str) {
    let id = e.tasks[task].id.clone();
    let n = e.annotations.len();
    e.annotations.push(Annotation {
        id: format!("0193dddd-0000-7000-8000-{n:012}"),
        task_id: id.clone(),
        body: body.to_string(),
        created: NOW.to_string(),
        removed: None,
    });
    e.tasks[task].rev += 1;
    log(e, "task", &id, "annotation.add", "{}");
}

fn tag_add(e: &mut Engine, task: usize, tag: &str) {
    let id = e.tasks[task].id.clone();
    e.tasks[task].tags.push(tag.to_string());
    e.tasks[task].tags.sort();
    e.tasks[task].rev += 1;
    log(e, "task", &id, "tag.add", "{}");
}

fn memory_add(e: &mut Engine, title: &str, body: &str) -> String {
    let n = e.docs.len();
    let id = format!("0193eeee-0000-7000-8000-{n:012}");
    e.docs.push(Doc {
        id: id.clone(),
        source: None,
        title: title.to_string(),
        body: body.to_string(),
        search_body: body.to_string(),
        project: None,
        rev: 0,
        standing: false,
        created: NOW.to_string(),
        modified: NOW.to_string(),
    });
    log(e, "doc", &id, "memory.add", "{}");
    id
}

fn memory_update(e: &mut Engine, doc: usize, body: &str) {
    e.docs[doc].body = body.to_string();
    e.docs[doc].search_body = body.to_string();
    e.docs[doc].rev += 1;
}

fn project_create(e: &mut Engine, name: &str) {
    e.projects.push(Project {
        id: format!("0193ffff-0000-7000-8000-{:012}", e.projects.len()),
        name: name.to_string(),
        description: None,
        archived: false,
        created: NOW.to_string(),
    });
    e.projects.sort_by(|a, b| a.name.cmp(&b.name));
}

fn task<'a>(e: &'a Engine, id: &str) -> Option<&'a Task> {
    e.tasks.iter().find(|t| t.id == id)
}

fn number_of(e: &Engine, id: &str) -> i64 {
    task(e, id).expect("the task exists").short_id
}

fn member<'a>(v: &'a Json, key: &str) -> &'a Json {
    v.get(key).unwrap_or_else(|| panic!("no `{key}` in {v:?}"))
}

fn list<'a>(v: &'a Json, key: &str) -> &'a Vec<Json> {
    member(v, key).as_array().expect("an array")
}

fn exported_task_count(e: &Engine) -> usize {
    list(&export(e), "tasks").len()
}

fn moved(id: &str, from: i64, to: i64) -> Json {
    Json::Obj(vec![
        ("id".to_string(), Json::Str(id.to_string())),
        ("from".to_string(), Json::Int(i128::from(from))),
        ("to".to_string(), Json::Int(i128::from(to))),
    ])
}

#[test]
fn store_import_renumbers_a_short_id_another_task_already_holds() {
    let mut e = Engine::open_in_memory();
    let (mine_id, taken) = task_add(&mut e, "already here", None);

    const THEIRS: &str = "0193aaaa-0000-7000-8000-00000000beef";
    let doc = json(&format!(
        r#"{{ "tasks": [{{ "id": "{THEIRS}", "short_id": {taken}, "title": "from the other store" }}] }}"#
    ));
    let r = import(&mut e, 1, &doc)
        .expect("a number this store already uses must move, not refuse");

    assert_eq!(member(&r, "imported"), &Json::Int(1), "{r:?}");
    let renumbered = list(&r, "renumbered");
    assert_eq!(renumbered.len(), 1, "exactly the one task that moved: {r:?}");
    assert_eq!(member(&renumbered[0], "id"), &Json::Str(THEIRS.to_string()), "{r:?}");
    assert_eq!(member(&renumbered[0], "from"), &Json::Int(i128::from(taken)), "{r:?}");
    let to = member(&renumbered[0], "to").as_i64().expect("the number it took");
    assert_ne!(to, taken, "the whole point is that it moved: {r:?}");

    assert_eq!(number_of(&e, THEIRS), to);
    assert_eq!(
        number_of(&e, &mine_id),
        taken,
        "an import must never move a number the destination was using"
    );
}

#[test]
fn store_import_mints_above_every_payload_short_id() {
    let mut e = Engine::open_in_memory();
    task_add(&mut e, "one", None);
    task_add(&mut e, "two", None);

    const A: &str = "0193aaaa-0000-7000-8000-0000000000aa";
    const B: &str = "0193aaaa-0000-7000-8000-0000000000bb";
    let doc = json(&format!(
        r#"{{ "tasks": [
            {{ "id": "{A}", "short_id": 1, "title": "collides" }},
            {{ "id": "{B}", "short_id": 50, "title": "free" }}
        ] }}"#
    ));
    let r = import(&mut e, 1, &doc).expect("import");

    let a_now = number_of(&e, A);
    assert!(a_now > 50, "a mint at or below 50 would collide with B: {a_now}");
    assert_eq!(
        number_of(&e, B),
        50,
        "a number nothing holds is kept — only the collision moves"
    );
    assert_eq!(
        member(&r, "renumbered"),
        &Json::Arr(vec![moved(A, 1, a_now)]),
        "only the task that moved is reported: {r:?}"
    );

    let (_, next) = task_add(&mut e, "after", None);
    assert!(next > a_now, "the next mint must clear the import: {next}");
}

#[test]
fn store_import_keeps_the_stored_short_id_for_a_known_id() {
    let mut e = Engine::open_in_memory();
    task_add(&mut e, "already here", None);

    const X: &str = "0193aaaa-0000-7000-8000-0000000000cc";
    let payload = json(&format!(
        r#"{{ "tasks": [{{
            "id": "{X}",
            "short_id": 1,
            "title": "from the other store",
            "created": "2026-09-10T08:00:00Z",
            "modified": "2026-09-10T08:00:00Z",
            "_rev": 1
        }}] }}"#
    ));

    let first = import(&mut e, 1, &payload).expect("import");
    let n = member(&list(&first, "renumbered")[0], "to")
        .as_i64()
        .expect("the number it took");
    let before = format!("{:?}", task(&e, X));

    let again = import(&mut e, 2, &payload).expect("second import");
    assert_eq!(
        member(&again, "renumbered"),
        &Json::Arr(vec![]),
        "a task this store already holds has nothing to move: {again:?}"
    );
    assert_eq!(number_of(&e, X), n, "the stored number stands");
    assert_eq!(
        format!("{:?}", task(&e, X)),
        before,
        "re-importing the same document must change nothing at all, `_rev` included"
    );
    assert_eq!(exported_task_count(&e), 2, "and mint no second row");
}

#[test]
fn store_import_dependencies_survive_renumbering() {
    let mut e = Engine::open_in_memory();
    task_add(&mut e, "one", None);
    task_add(&mut e, "two", None);

    const A: &str = "0193aaaa-0000-7000-8000-0000000000a1";
    const B: &str = "0193aaaa-0000-7000-8000-0000000000b2";
    let doc = json(&format!(
        r#"{{ "tasks": [
            {{ "id": "{A}", "short_id": 1, "title": "dependent", "depends_on": ["{B}"] }},
            {{ "id": "{B}", "short_id": 2, "title": "blocker" }}
        ] }}"#
    ));
    let r = import(&mut e, 1, &doc).expect("import");
    assert_eq!(
        list(&r, "renumbered").len(),
        2,
        "both numbers were taken here: {r:?}"
    );

    let b_now = number_of(&e, B);
    let edges: Vec<i64> = e
        .dependencies
        .iter()
        .filter(|d| d.task_id == A)
        .map(|d| number_of(&e, &d.depends_on))
        .collect();
    assert_eq!(
        edges,
        [b_now],
        "the edge must follow the id and be read back under the NEW number"
    );
    assert!(e.blocked(task(&e, A).expect("a")));
}

#[test]
fn store_import_renumbers_a_new_task_whose_number_a_known_task_holds_in_either_row_order() {
    const X: &str = "0193aaaa-0000-7000-8000-0000000000f1";
    const Z: &str = "0193aaaa-0000-7000-8000-0000000000f2";

    let prepare = || {
        let mut e = Engine::open_in_memory();
        task_add(&mut e, "already here", None);
        let doc = json(&format!(
            r#"{{ "tasks": [{{ "id": "{X}", "short_id": 1, "title": "from the other store" }}] }}"#
        ));
        let first = import(&mut e, 1, &doc).expect("import");
        let n = member(&list(&first, "renumbered")[0], "to")
            .as_i64()
            .expect("X took a fresh number here");
        (e, n)
    };
    let (mut forward, n) = prepare();
    let (mut reversed, n_again) = prepare();
    assert_eq!(n, n_again, "the two stores must start identical");
    assert_ne!(n, 3, "the stale number below must not be X's own");

    let x_row = format!(r#"{{ "id": "{X}", "short_id": 3, "title": "from the other store" }}"#);
    let z_row = format!(r#"{{ "id": "{Z}", "short_id": {n}, "title": "new over there" }}"#);
    let mut seen = Vec::new();
    for (e, tasks) in [
        (&mut forward, format!("[{x_row}, {z_row}]")),
        (&mut reversed, format!("[{z_row}, {x_row}]")),
    ] {
        let r = import(e, 2, &json(&format!(r#"{{ "tasks": {tasks} }}"#)))
            .expect("a number a KNOWN task holds is a collision to renumber, not a refusal");
        assert_eq!(member(&r, "imported"), &Json::Int(2), "{r:?}");
        let x_now = number_of(e, X);
        assert_eq!(x_now, n, "a known task keeps its stored number: {r:?}");
        let z_now = number_of(e, Z);
        assert!(
            z_now > n,
            "Z must take a fresh number above the payload: {r:?}"
        );
        assert_eq!(
            member(&r, "renumbered"),
            &Json::Arr(vec![moved(Z, n, z_now)]),
            "only the new task moved: {r:?}"
        );
        seen.push((x_now, z_now));
    }
    assert_eq!(
        seen[0], seen[1],
        "the same document in either row order must land the same numbers"
    );
}

#[test]
fn store_import_refuses_two_new_tasks_claiming_a_number_the_destination_holds() {
    let mut e = Engine::open_in_memory();
    let (_, taken) = task_add(&mut e, "already here", None);

    const A: &str = "0193aaaa-0000-7000-8000-0000000000e1";
    const B: &str = "0193aaaa-0000-7000-8000-0000000000e2";
    let doc = json(&format!(
        r#"{{ "tasks": [
            {{ "id": "{A}", "short_id": {taken}, "title": "first claimant" }},
            {{ "id": "{B}", "short_id": {taken}, "title": "second claimant" }}
        ] }}"#
    ));
    let err = import(&mut e, 1, &doc).expect_err("one short_id cannot address two tasks");

    assert_eq!(err.code, ErrorCode::Conflict, "{}", err.message);
    assert!(err.message.contains(A), "{}", err.message);
    assert!(err.message.contains(B), "{}", err.message);
    assert!(task(&e, A).is_none(), "a refused document writes nothing");
    assert!(task(&e, B).is_none(), "a refused document writes nothing");
    assert_eq!(exported_task_count(&e), 1);
}

#[test]
fn store_import_refuses_two_payload_tasks_sharing_one_short_id() {
    let mut e = Engine::open_in_memory();
    const FIRST: &str = "0193aaaa-0000-7000-8000-000000000001";
    const SECOND: &str = "0193aaaa-0000-7000-8000-000000000002";
    let doc = json(&format!(
        r#"{{ "tasks": [
            {{ "id": "{FIRST}", "short_id": 7, "title": "first" }},
            {{ "id": "{SECOND}", "short_id": 7, "title": "second" }}
        ] }}"#
    ));
    let err = import(&mut e, 1, &doc).expect_err("one short_id cannot address two tasks");

    assert_eq!(err.code, ErrorCode::Conflict, "{}", err.message);
    assert!(err.message.contains(FIRST), "{}", err.message);
    assert!(err.message.contains(SECOND), "{}", err.message);
    assert!(
        err.message.contains("same payload") && !err.message.contains("fresh store"),
        "a payload that contradicts itself is not fixed by importing it elsewhere: {}",
        err.message
    );
    assert_eq!(exported_task_count(&e), 0);
}

#[test]
fn store_import_still_accepts_a_task_reclaiming_its_own_short_id() {
    let mut e = Engine::open_in_memory();
    task_add(&mut e, "one", None);
    task_add(&mut e, "two", None);
    let document = export(&e);

    let again = import(&mut e, 1, &document).expect("re-import must still work");
    assert_eq!(member(&again, "imported"), &Json::Int(2));
    assert_eq!(
        export(&e),
        document,
        "export -> import -> export stays identity"
    );
}

#[test]
fn store_export_refuses_a_project_filter_naming_no_live_project() {
    let mut e = Engine::open_in_memory();
    project_create(&mut e, "work");
    task_add(&mut e, "t", Some("work"));

    let err = e
        .store_export(&json(r#"{ "filter": "project:WORK" }"#), &Calendar::empty())
        .unwrap_err();
    assert_eq!(err.code, ErrorCode::NotFound);
    assert!(err.message.contains("WORK"), "{}", err.message);

    let out = e
        .store_export(&json(r#"{ "filter": "project:work" }"#), &Calendar::empty())
        .expect("export");
    assert_eq!(list(&out, "tasks").len(), 1);
}

#[test]
fn store_import_refuses_a_duplicate_task_id_in_one_payload() {
    let mut e = Engine::open_in_memory();
    const FIRST: &str = "0193aaaa-0000-7000-8000-0000000000f1";
    const SECOND: &str = "0193aaaa-0000-7000-8000-0000000000f2";
    let doc = json(&format!(
        r#"{{ "tasks": [
            {{ "id": "{FIRST}", "short_id": 1, "title": "task 1" }},
            {{ "id": "{SECOND}", "short_id": 2, "title": "task 2" }},
            {{ "id": "{SECOND}", "short_id": 3, "title": "dup second" }}
        ] }}"#
    ));
    let err = import(&mut e, 1, &doc).expect_err("a repeated id must not be accepted");

    assert_eq!(err.code, ErrorCode::Conflict, "{}", err.message);
    assert!(err.message.contains(SECOND), "{}", err.message);
    assert!(
        err.message.contains("more than once"),
        "the message must say the id repeats: {}",
        err.message
    );
    assert_eq!(exported_task_count(&e), 0);
}

#[test]
fn store_import_refuses_a_stale_rev_that_would_discard_newer_annotations_and_tags() {
    let mut e = Engine::open_in_memory();
    task_add(&mut e, "the task", None);
    annotation_add(&mut e, 0, "monday: original context");

    let monday = export(&e);
    assert_eq!(member(&list(&monday, "tasks")[0], "_rev"), &Json::Int(2));

    annotation_add(&mut e, 0, "tuesday: found the root cause");
    annotation_add(&mut e, 0, "wednesday: fix landed");
    tag_add(&mut e, 0, "shipped");
    let live = export(&e);
    assert_eq!(member(&list(&live, "tasks")[0], "_rev"), &Json::Int(5));
    assert_eq!(list(&list(&live, "tasks")[0], "annotations").len(), 3);

    let err =
        import(&mut e, 1, &monday).expect_err("an older _rev must not overwrite a newer task");
    assert_eq!(err.code, ErrorCode::Conflict, "{}", err.message);
    for needle in ["_rev 2", "_rev 5"] {
        assert!(err.message.contains(needle), "{}: {}", needle, err.message);
    }

    assert_eq!(
        export(&e),
        live,
        "a refused import must not touch the store"
    );
}

#[test]
fn store_import_refuses_a_stale_doc_rev_that_would_roll_back_its_body() {
    let mut e = Engine::open_in_memory();
    memory_add(&mut e, "note", "original text");

    let monday = export(&e);
    assert_eq!(member(&list(&monday, "docs")[0], "_rev"), &Json::Int(0));

    memory_update(&mut e, 0, "edit one");
    memory_update(&mut e, 0, "edit two");
    let live = export(&e);
    assert_eq!(member(&list(&live, "docs")[0], "_rev"), &Json::Int(2));
    assert_eq!(
        member(&list(&live, "docs")[0], "body"),
        &Json::Str("edit two".to_string())
    );

    let err =
        import(&mut e, 1, &monday).expect_err("an older doc _rev must not overwrite a newer one");
    assert_eq!(err.code, ErrorCode::Conflict, "{}", err.message);
    for needle in ["_rev 0", "_rev 2"] {
        assert!(err.message.contains(needle), "{}: {}", needle, err.message);
    }

    assert_eq!(
        export(&e),
        live,
        "a refused import must not touch the store"
    );
}

#[test]
fn store_import_still_accepts_a_doc_at_the_same_or_a_higher_rev() {
    let mut e = Engine::open_in_memory();
    let id = memory_add(&mut e, "note", "v1");

    let doc = export(&e);
    import(&mut e, 1, &doc).expect("an import at the same rev must still apply");
    assert_eq!(export(&e), doc, "export -> import -> export stays identity");

    let ahead = json(&format!(
        r#"{{ "tasks": [], "docs": [{{ "id": "{id}", "title": "note", "body": "v2", "_rev": 5 }}] }}"#
    ));
    import(&mut e, 2, &ahead).expect("an import at a higher rev must still apply");
    let after = export(&e);
    assert_eq!(member(&list(&after, "docs")[0], "_rev"), &Json::Int(5));
    assert_eq!(
        member(&list(&after, "docs")[0], "body"),
        &Json::Str("v2".to_string())
    );
}

#[test]
fn store_import_normalises_a_foreign_doc_stamp_so_memory_list_orders_by_instant() {
    let mut e = Engine::open_in_memory();
    import(
        &mut e,
        1,
        &json(
            r#"{
            "tasks": [],
            "docs": [
                {
                    "id": "0193aaaa-0000-7000-8000-00000000000a",
                    "title": "earlier, lowercase z",
                    "body": "a",
                    "modified": "2026-01-01T00:00:10z"
                },
                {
                    "id": "0193aaaa-0000-7000-8000-00000000000b",
                    "title": "later, canonical",
                    "body": "b",
                    "modified": "2026-01-01T00:00:10.1Z"
                }
            ]
        }"#,
        ),
    )
    .expect("import");

    let mut listed: Vec<(&str, &str)> = e
        .docs
        .iter()
        .map(|d| (d.modified.as_str(), d.id.as_str()))
        .collect();
    listed.sort_by_key(|(modified, _)| {
        std::cmp::Reverse(modified.parse::<jiff::Timestamp>().expect("a stamp"))
    });
    let ids: Vec<&str> = listed.iter().map(|(_, id)| *id).collect();
    assert_eq!(
        ids,
        vec![
            "0193aaaa-0000-7000-8000-00000000000b",
            "0193aaaa-0000-7000-8000-00000000000a",
        ],
        "the doc modified later must list first, regardless of the imported stamp's case"
    );
    assert_eq!(e.docs[0].modified, "2026-01-01T00:00:10Z");
    assert_eq!(e.docs[1].modified, "2026-01-01T00:00:10.1Z");
}

#[test]
fn store_import_normalises_a_doc_stamp_carrying_an_explicit_offset() {
    let mut e = Engine::open_in_memory();
    import(
        &mut e,
        1,
        &json(
            r#"{
            "tasks": [],
            "docs": [{
                "id": "0193aaaa-0000-7000-8000-00000000000c",
                "title": "offset stamp",
                "body": "c",
                "created": "2026-01-01T02:00:10+02:00",
                "modified": "2026-01-01T02:00:10+02:00"
            }]
        }"#,
        ),
    )
    .expect("import");

    let after = export(&e);
    assert_eq!(
        member(&list(&after, "docs")[0], "created"),
        &Json::Str("2026-01-01T00:00:10Z".to_string()),
        "an offset stamp must normalise to the UTC instant it names: {after:?}"
    );
    assert_eq!(
        member(&list(&after, "docs")[0], "modified"),
        &Json::Str("2026-01-01T00:00:10Z".to_string())
    );
}

#[test]
fn store_import_refuses_a_doc_with_an_unparsable_modified_stamp() {
    let mut e = Engine::open_in_memory();
    let err = import(
        &mut e,
        1,
        &json(
            r#"{
            "tasks": [],
            "docs": [{ "title": "bad stamp", "body": "d", "modified": "not-a-date" }]
        }"#,
        ),
    )
    .expect_err("an unparsable modified stamp must be refused");
    assert_eq!(err.code, ErrorCode::BadRequest, "{}", err.message);
    assert!(
        err.message.contains("modified"),
        "must name the field: {}",
        err.message
    );
    let after = export(&e);
    assert_eq!(
        list(&after, "docs").len(),
        0,
        "a refused import must write nothing: {after:?}"
    );
}

#[test]
fn store_export_carries_the_event_log_so_a_restore_keeps_its_done_history() {
    let mut e = Engine::open_in_memory();
    let (id, _) = task_add(&mut e, "ship it", None);
    log(&mut e, "task", &id, "start", "{}");
    log(&mut e, "task", &id, "stop", r#"{"started":"2026-09-10T08:00:00Z"}"#);
    log(&mut e, "task", &id, "done", "{}");
    e.tasks[0].status = Status::Done;
    e.tasks[0].completed = Some(NOW.to_string());
    e.tasks[0].rev = 4;

    let doc = export(&e);
    let events = list(&doc, "events");
    let ops: Vec<&str> = events
        .iter()
        .map(|ev| member(ev, "op").as_str().expect("op is a string"))
        .collect();
    assert!(
        ops.contains(&"done"),
        "the export must carry the `done` event: {ops:?}"
    );

    let mut fresh = Engine::open_in_memory();
    let imported = import(&mut fresh, 1, &doc).expect("import");
    assert!(
        member(&imported, "events_imported").as_i64().unwrap() >= events.len() as i64,
        "{imported:?}"
    );

    let restored_ops: Vec<&str> = fresh
        .events
        .iter()
        .filter(|x| x.entity == "task")
        .map(|x| x.op.as_str())
        .collect();
    assert!(
        restored_ops.contains(&"done"),
        "a restored store must still be able to answer `chart heatmap`'s question: {restored_ops:?}"
    );
}

#[test]
fn store_import_reports_whether_the_document_declared_a_docs_section() {
    let mut no_section = Engine::open_in_memory();
    let r = import(&mut no_section, 1, &json(r#"{ "tasks": [] }"#))
        .expect("import with no docs key");
    assert_eq!(member(&r, "docs_imported"), &Json::Int(0), "{r:?}");
    assert_eq!(
        member(&r, "docs_declared"),
        &Json::Bool(false),
        "no `docs` key at all must be reported as undeclared: {r:?}"
    );

    let mut empty_section = Engine::open_in_memory();
    let r = import(&mut empty_section, 1, &json(r#"{ "tasks": [], "docs": [] }"#))
        .expect("import with an empty docs array");
    assert_eq!(member(&r, "docs_imported"), &Json::Int(0), "{r:?}");
    assert_eq!(
        member(&r, "docs_declared"),
        &Json::Bool(true),
        "an explicit empty `docs` array must be reported as declared: {r:?}"
    );
}

/// A store with a row of every kind.
fn full_store() -> Engine {
    let mut e = Engine::open_in_memory();
    import(
        &mut e,
        9,
        &json(
            r#"{
            "projects": [{ "id": "p1", "name": "work", "description": "d", "archived": false, "created": "2026-09-01T08:00:00Z" }],
            "docs": [{ "id": "d1", "title": "Guide", "body": "---\nkind: guide\n---\nText.", "source": "guide.md", "project": "work", "_rev": 3, "standing": true, "created": "2026-09-01T08:00:00Z", "modified": "2026-09-02T08:00:00Z" }],
            "events": [{ "id": "e1", "entity": "task", "entity_id": "t2", "op": "done", "payload": { "n": 1 }, "ts": "2026-09-02T08:00:00Z", "actor": "me" }],
            "tasks": [
                { "id": "t1", "short_id": 4, "title": "build", "status": "active", "priority": "H", "project": "work",
                  "tags": ["b", "a"], "due": "2026-10-01T00:00:00Z", "scheduled": "2026-09-11T00:00:00Z", "wait": "2026-09-10T00:00:00Z",
                  "estimate": "PT1H", "recurrence": "every week", "remind": "1h before due", "budget_tokens": 1000,
                  "depends_on": ["t2"], "active_since": "2026-09-05T08:00:00Z", "tracked_seconds": 60, "tracked_adjustment_seconds": -5,
                  "created": "2026-09-01T08:00:00Z", "modified": "2026-09-05T08:00:00Z", "_rev": 7,
                  "annotations": [{ "id": "a1", "body": "first", "created": "2026-09-01T09:00:00Z" }, { "id": "a2", "body": "second", "created": "2026-09-01T10:00:00Z" }],
                  "checks": [{ "id": "c1", "body": "it runs", "state": "passed", "evidence": "log", "position": 0, "created": "2026-09-01T09:00:00Z", "modified": "2026-09-01T09:30:00Z" }],
                  "tokens": [{ "id": "m1", "tool": "editor", "source": "self-report", "model": "large", "input_tokens": 5, "output_tokens": 6, "cache_read_tokens": 7, "cache_creation_tokens": 8, "total_tokens": 26, "confidence": "medium", "created": "2026-09-01T09:00:00Z" }],
                  "delivered_annotation_id": "a2", "spawned_from": "t0" },
                { "id": "t2", "short_id": 9, "title": "plan", "status": "done", "completed": "2026-09-02T08:00:00Z",
                  "created": "2026-09-01T08:00:00Z", "modified": "2026-09-02T08:00:00Z", "_rev": 2 }
            ],
            "default_project": "work"
        }"#,
        ),
    )
    .expect("import");
    e
}

#[test]
fn a_store_with_every_kind_of_row_comes_back_from_its_export() {
    let e = full_store();
    let doc = export(&e);
    assert_eq!(list(&doc, "events").len(), 1, "no mark of the import itself");
    assert_eq!(member(&doc, "dropped_dependencies"), &Json::Int(0));

    let mut same = full_store();
    import(&mut same, 10, &doc).expect("over itself");
    assert_eq!(export(&same), doc);

    let mut fresh = Engine::open_in_memory();
    let r = import(&mut fresh, 10, &doc).expect("into an empty store");
    assert_eq!(member(&r, "renumbered"), &Json::Arr(vec![]));
    assert_eq!(export(&fresh), doc);
    assert_eq!(format!("{:?}", fresh.tasks), format!("{:?}", e.tasks));
    assert_eq!(format!("{:?}", fresh.docs), format!("{:?}", e.docs));
    assert_eq!(fresh.docs[0].search_body, "kind  guide\n\nText.");
    assert_eq!(fresh.default_project.as_deref(), Some("work"));
    assert_eq!(fresh.next_short_id, 10);
    assert_eq!(fresh.tasks[0].tags, ["a", "b"]);
}

#[test]
fn a_filtered_export_counts_what_it_leaves_out() {
    let e = full_store();
    let out = e
        .store_export(&json(r#"{ "filter": "status:active" }"#), &Calendar::empty())
        .expect("export");
    assert_eq!(list(&out, "tasks").len(), 1);
    assert_eq!(member(&out, "dropped_dependencies"), &Json::Int(1));
    assert_eq!(
        member(&list(&out, "tasks")[0], "depends_on"),
        &Json::Arr(vec![])
    );
    assert_eq!(list(&out, "projects").len(), 1);
    assert_eq!(member(&out, "dropped_projects"), &Json::Int(0));
    assert_eq!(list(&out, "docs").len(), 1);
    // The event is about the task that was left out.
    assert_eq!(list(&out, "events").len(), 0);
    assert_eq!(member(&out, "default_project"), &Json::Str("work".to_string()));

    let done = e
        .store_export(&json(r#"{ "filter": "status:done" }"#), &Calendar::empty())
        .expect("export");
    assert_eq!(member(&done, "dropped_projects"), &Json::Int(1));
    assert_eq!(member(&done, "dropped_docs"), &Json::Int(1));
    assert_eq!(member(&done, "default_project"), &Json::Null);
    assert_eq!(list(&done, "events").len(), 1);
}

#[test]
fn widening_an_export_that_is_not_narrowed_is_refused() {
    let e = full_store();
    let err = e
        .store_export(&json(r#"{ "include_unscoped": true }"#), &Calendar::empty())
        .unwrap_err();
    assert_eq!(err.code, ErrorCode::BadRequest);
    assert!(err.message.contains("include_unscoped"), "{}", err.message);
}

#[test]
fn an_import_refuses_what_the_store_would_not_hold() {
    let refused = |doc: &str| {
        let mut e = full_store();
        let before = format!("{e:?}");
        let err = import(&mut e, 11, &json(doc)).expect_err(doc);
        assert_eq!(format!("{e:?}"), before, "a refusal writes nothing: {doc}");
        err
    };
    let bad = |doc: &str, needle: &str| {
        let err = refused(doc);
        assert_eq!(err.code, ErrorCode::BadRequest, "{}", err.message);
        assert!(err.message.contains(needle), "{needle}: {}", err.message);
    };
    bad(r#"{}"#, "store.import requires a `tasks` array");
    bad(r#"{ "tasks": [1] }"#, "each task must be an object");
    bad(r#"{ "tasks": [{ "id": "x", "short_id": 1, "title": "t", "odd": 1 }] }"#, "odd");
    bad(r#"{ "tasks": [{ "id": "x", "short_id": 0, "title": "t" }] }"#, "short_id 0");
    bad(r#"{ "tasks": [{ "id": "x", "short_id": 1, "title": "  " }] }"#, "title");
    bad(r#"{ "tasks": [{ "id": "x", "short_id": 1, "title": "t", "status": "doing" }] }"#, "\"doing\"");
    bad(r#"{ "tasks": [{ "id": "x", "short_id": 1, "title": "t", "priority": "urgent" }] }"#, "\"urgent\"");
    bad(r#"{ "tasks": [{ "id": "x", "short_id": 1, "title": "t", "due": "someday" }] }"#, "due");
    bad(r#"{ "tasks": [{ "id": "x", "short_id": 1, "title": "t", "budget_tokens": -1 }] }"#, "budget_tokens");
    bad(r#"{ "tasks": [{ "id": "x", "short_id": 1, "title": "t", "tracked_seconds": -1 }] }"#, "tracked_seconds");
    bad(r#"{ "tasks": [{ "id": "x", "short_id": 1, "title": "t", "tags": [""] }] }"#, "tag");
    bad(r#"{ "tasks": [{ "id": "x", "short_id": 1, "title": "t", "depends_on": ["nowhere"] }] }"#, "nowhere");
    bad(r#"{ "tasks": [{ "id": "x", "short_id": 1, "title": "t", "project": "else" }], "projects": [] }"#, "else");
    bad(r#"{ "tasks": [{ "id": "x", "short_id": 1, "title": "t", "checks": [{ "body": "b", "state": "maybe" }] }] }"#, "maybe");
    bad(r#"{ "tasks": [], "default_project": "else" }"#, "else");
    bad(r#"{ "tasks": [], "events": [{ "id": "q", "entity": "cat", "entity_id": "c", "op": "o" }] }"#, "\"cat\"");
    let conflict = |doc: &str, needle: &str| {
        let err = refused(doc);
        assert_eq!(err.code, ErrorCode::Conflict, "{}", err.message);
        assert!(err.message.contains(needle), "{needle}: {}", err.message);
    };
    conflict(
        r#"{ "tasks": [{ "id": "x", "short_id": 1, "title": "t", "depends_on": ["x"] }] }"#,
        "depends on itself",
    );
    conflict(
        r#"{ "tasks": [{ "id": "t2", "short_id": 9, "title": "plan", "_rev": 2, "depends_on": ["t1"] }] }"#,
        "cycle",
    );
    conflict(
        r#"{ "tasks": [], "docs": [{ "title": "x", "body": "y", "source": "guide.md" }] }"#,
        "\"guide.md\"",
    );
}

#[test]
fn an_import_without_fresh_ids_is_an_internal_fault() {
    let mut e = Engine::open_in_memory();
    let mut few = env(1);
    few.log.ids.truncate(0);
    let err = e
        .store_import(
            &json(r#"{ "tasks": [{ "id": "x", "short_id": 1, "title": "t" }] }"#),
            &few,
        )
        .expect_err("there is no id for the event");
    assert_eq!(err.code, ErrorCode::Internal);
    assert_eq!(exported_task_count(&e), 0);
}

#[test]
fn projects_are_made_only_for_a_document_that_declares_none() {
    let mut e = Engine::open_in_memory();
    let r = import(
        &mut e,
        1,
        &json(r#"{ "tasks": [{ "id": "x", "short_id": 1, "title": "t", "project": "home" }] }"#),
    )
    .expect("import");
    assert_eq!(
        member(&r, "projects_created"),
        &Json::Arr(vec![Json::Str("home".to_string())])
    );
    assert_eq!(e.projects[0].name, "home");
}

#[test]
fn importing_a_complete_document_twice_changes_nothing() {
    let mut e = full_store();
    task_add(&mut e, "in the way", None);
    let taken = e.tasks.last().expect("a task").short_id;
    let doc = json(&format!(
        r#"{{ "tasks": [
            {{ "id": "n1", "short_id": {taken}, "title": "new", "status": "active", "_rev": 1,
               "created": "2026-09-01T08:00:00Z", "modified": "2026-09-01T08:00:00Z", "depends_on": ["t2"],
               "tokens": [{{ "id": "m9", "tool": "x", "source": "self-report", "confidence": "medium" }}] }}
        ], "events": [{{ "id": "e9", "entity": "task", "entity_id": "n1", "op": "add" }}] }}"#
    ));
    let first = import(&mut e, 20, &doc).expect("import");
    assert_eq!(list(&first, "renumbered").len(), 1);
    let tasks = format!("{:?}", e.tasks);
    let again = import(&mut e, 21, &doc).expect("second import");
    assert_eq!(member(&again, "renumbered"), &Json::Arr(vec![]));
    assert_eq!(member(&again, "events_imported"), &Json::Int(0));
    assert_eq!(format!("{:?}", e.tasks), tasks);
}

#[test]
fn an_import_takes_no_more_ids_than_its_document_needs() {
    let doc = json(
        r#"{ "tasks": [{ "id": "t1", "short_id": 1, "title": "one", "project": "home",
              "annotations": [{ "body": "first" }, { "body": "second" }],
              "checks": [{ "body": "it holds" }],
              "tokens": [{ "tool": "t", "source": "self-report", "confidence": "medium" }] }],
             "docs": [{ "title": "note", "body": "text" }],
             "events": [{ "entity": "task", "entity_id": "t1", "op": "add" }] }"#,
    );
    assert_eq!(ids_needed(&doc), 4 + 3 + 2 + 1);

    let mut enough = env(1);
    enough.log.ids.truncate(10);
    let mut e = Engine::open_in_memory();
    e.store_import(&doc, &enough).expect("ten ids are enough");
    assert_eq!(e.annotations.len(), 2);
    assert_eq!(e.projects.len(), 1);
    assert!(e.events.iter().any(|x| x.id == enough.log.ids[9]));

    let mut short = env(1);
    short.log.ids.truncate(9);
    let mut e = Engine::open_in_memory();
    let err = e.store_import(&doc, &short).expect_err("nine are not");
    assert_eq!(err.code, ErrorCode::Internal);
    assert_eq!(err.message, "no fresh id is left");
    assert!(e.tasks.is_empty());
}

#[test]
fn a_removed_note_is_not_shown_and_an_import_clears_it() {
    let mut e = Engine::open_in_memory();
    task_add(&mut e, "the task", None);
    annotation_add(&mut e, 0, "kept");
    annotation_add(&mut e, 0, "taken back");
    e.annotations[1].removed = Some(NOW.to_string());
    e.annotations[1].body = String::new();

    let shown = export(&e);
    let notes = list(&list(&shown, "tasks")[0], "annotations");
    assert_eq!(notes.len(), 1);
    assert_eq!(member(&notes[0], "body"), &Json::Str("kept".to_string()));

    import(&mut e, 1, &shown).expect("its own document");
    assert_eq!(e.annotations.len(), 1);
    assert_eq!(e.annotations[0].body, "kept");
    assert_eq!(e.annotations[0].removed, None);
    assert_eq!(export(&e), shown);
}

fn document(tasks: &[&str]) -> Json {
    json(&format!(r#"{{ "tasks": [{}] }}"#, tasks.join(",")))
}

#[test]
fn swapping_two_tasks_changes_neither_acceptance_nor_a_number() {
    let known = r#"{ "id": "t1", "short_id": 3, "title": "known", "depends_on": ["t3"] }"#;
    let mover = r#"{ "id": "t2", "short_id": 1, "title": "moves", "project": "home",
        "tokens": [{ "tool": "t", "source": "self-report", "confidence": "medium" }] }"#;
    let plain = r#"{ "id": "t3", "short_id": 7, "title": "plain", "project": "home" }"#;
    let mut seen = Vec::new();
    for order in [[known, mover, plain], [plain, mover, known], [mover, known, plain]] {
        let mut e = Engine::open_in_memory();
        import(
            &mut e,
            1,
            &document(&[r#"{ "id": "t1", "short_id": 1, "title": "before" }"#]),
        )
        .expect("a first task");
        import(&mut e, 2, &document(&order)).expect("any order");
        seen.push((
            number_of(&e, "t1"),
            number_of(&e, "t2"),
            number_of(&e, "t3"),
            e.projects.len(),
            e.measurements.len(),
        ));
    }
    assert_eq!(seen[0], (1, 8, 7, 1, 1));
    assert_eq!(seen[0], seen[1]);
    assert_eq!(seen[0], seen[2]);

    let on_each_other = [
        r#"{ "id": "t1", "short_id": 1, "title": "a", "depends_on": ["t2"] }"#,
        r#"{ "id": "t2", "short_id": 2, "title": "b", "depends_on": ["t1"] }"#,
    ];
    for order in [[0, 1], [1, 0]] {
        let mut e = Engine::open_in_memory();
        let rows: Vec<&str> = order.iter().map(|i| on_each_other[*i]).collect();
        let err = import(&mut e, 1, &document(&rows)).expect_err("a cycle in either order");
        assert_eq!(err.code, ErrorCode::Conflict);
        assert!(e.tasks.is_empty());
    }
}

#[test]
fn a_measurement_that_moves_to_another_task_is_free_once_its_task_was_written() {
    let holder = |tokens: &str| {
        format!(r#"{{ "id": "t2", "short_id": 2, "title": "b", "tokens": [{tokens}] }}"#)
    };
    let token =
        r#"{ "id": "m1", "tool": "t", "source": "self-report", "confidence": "medium" }"#;
    let taker =
        format!(r#"{{ "id": "t1", "short_id": 1, "title": "a", "tokens": [{token}] }}"#);
    let mut e = Engine::open_in_memory();
    import(&mut e, 1, &document(&[&holder(token)])).expect("the holder");

    let mut first = e.dup();
    import(&mut first, 2, &document(&[&holder(""), &taker])).expect("the holder lets go first");
    assert_eq!(first.measurements[0].task_id, "t1");

    let err = import(&mut e, 2, &document(&[&taker, &holder("")])).expect_err("still held");
    assert!(err.message.contains("m1"), "{}", err.message);
}
