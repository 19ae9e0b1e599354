//! The semantic list and the index it is drawn from.

use tasqx_core::engine::Engine;
use tasqx_core::import_read::ImportEnv;
use tasqx_core::journal::LogEnv;
use tasqx_core::json::Json;
use tasqx_core::rows::{Annotation, Doc, Event, Task};
use tasqx_core::types::Status;
use tasqx_core::vector_index::{
    scan_missing, semantic_snippet, write_guarded, Chunk, Indexed, Model, Pending, Source,
    VectorCache, VectorRow,
};
use tasqx_core::vectors::{
    plan, semantic_candidates, settle, Entry, Kind, Plan, SemanticFilter, SemanticHits,
};

use tasqx_core::when::Calendar;

const GIRAFFE: &str = "Giraffes graze on acacia leaves across the open savanna.";
const VOLCANO: &str = "Volcanic eruptions pour molten lava over the island's slopes.";
const STAMP: &str = "2026-09-10T09:00:00Z";

fn everything() -> SemanticFilter<'static> {
    SemanticFilter {
        scope: "all",
        project: None,
        include_unscoped: false,
        exclude_task: None,
        min_similarity: 950,
        depth: 1000,
    }
}

fn add_task(e: &mut Engine, id: &str, project: Option<&str>) {
    let short_id = e.next_short_id;
    e.next_short_id += 1;
    e.tasks.push(Task {
        id: id.to_string(),
        short_id,
        title: "t".to_string(),
        status: Status::Pending,
        status_raw: None,
        priority: None,
        project: project.map(String::from),
        tags: vec![],
        due: None,
        scheduled: None,
        wait: None,
        estimate: None,
        recurrence: None,
        remind: None,
        budget_tokens: None,
        delivered_annotation_id: None,
        spawned_from: None,
        active_since: None,
        tracked_seconds: 0,
        tracked_adjustment_seconds: 0,
        created: STAMP.to_string(),
        modified: STAMP.to_string(),
        completed: None,
        rev: 1,
    });
}

fn add_note(e: &mut Engine, id: &str, task: &str, body: &str) {
    e.annotations.push(Annotation {
        id: id.to_string(),
        task_id: task.to_string(),
        body: body.to_string(),
        created: STAMP.to_string(),
        removed: None,
    });
}

fn add_doc(e: &mut Engine, id: &str, title: &str, body: &str, project: Option<&str>) {
    e.docs.push(Doc {
        id: id.to_string(),
        source: None,
        title: title.to_string(),
        body: body.to_string(),
        search_body: body.to_string(),
        project: project.map(String::from),
        rev: 0,
        standing: false,
        created: STAMP.to_string(),
        modified: STAMP.to_string(),
    });
}

fn model() -> Model {
    Model {
        id: "the-model".to_string(),
        blob_len: 4,
    }
}

/// One vector for a text with a letter in it, and none for any other.
fn embed(source: Source) -> Pending {
    let known = source.text_a.chars().any(|c| c.is_ascii_alphabetic());
    Pending {
        vectors: if known {
            vec![Chunk {
                index: 0,
                blob: vec![1, 2, 3, 4],
            }]
        } else {
            vec![]
        },
        source,
    }
}

fn embed_all(sources: Vec<Source>) -> Vec<Pending> {
    sources.into_iter().map(embed).collect()
}

fn rows_of(table: &[VectorRow], owner: &str) -> usize {
    table.iter().filter(|r| r.owner_id == owner).count()
}

/// Every entry with the similarity of its text to the query, in thousandths.
fn measured(entries: &[Indexed], e: &Engine, query: &str) -> Vec<Entry> {
    let text = |x: &Indexed| -> String {
        match x.kind {
            Kind::Doc => e
                .docs
                .iter()
                .find(|d| d.id == x.owner_id)
                .map(|d| d.search_body.clone()),
            Kind::Annotation => e
                .annotations
                .iter()
                .find(|a| a.id == x.owner_id)
                .map(|a| a.body.clone()),
        }
        .unwrap_or_default()
    };
    entries
        .iter()
        .map(|x| Entry {
            kind: x.kind,
            owner_id: x.owner_id.clone(),
            project: x.project.clone(),
            task_id: x.task_id.clone(),
            chunks: x
                .chunks
                .iter()
                .map(|c| (c.index, if text(x) == query { 1000 } else { 120 }))
                .collect(),
        })
        .collect()
}

/// A search of a store: the copy is brought up to date, written back, and asked.
fn search(
    e: &Engine,
    table: &mut Vec<VectorRow>,
    query: &str,
    f: &SemanticFilter<'_>,
) -> SemanticHits {
    let m = model();
    let mut cache = VectorCache::new();
    let pending = embed_all(cache.begin((1, 0), e, table, &m));
    let written = write_guarded(e, table, &pending, &m.id);
    let fresh = cache.finish((1, 0), pending, Some(written), (1, 1), &m);
    semantic_candidates(
        &measured(&cache.entries, e, query),
        &measured(&fresh, e, query),
        f,
    )
}

#[test]
fn kinds_order_as_their_names() {
    assert!(Kind::Annotation < Kind::Doc);
    assert!(Kind::Annotation.as_str() < Kind::Doc.as_str());
}

#[test]
fn the_filter_matches_the_lexical_arms() {
    let mut e = Engine::open_in_memory();
    add_task(&mut e, "loose_task", None);
    add_doc(&mut e, "farm_doc", "F", GIRAFFE, Some("farm"));
    add_doc(&mut e, "global_doc", "G", GIRAFFE, None);
    add_doc(&mut e, "zoo_doc", "Z", GIRAFFE, Some("zoo"));
    add_task(&mut e, "zoo_task", Some("zoo"));
    add_note(&mut e, "zoo_note", "zoo_task", GIRAFFE);
    add_note(&mut e, "loose_note", "loose_task", GIRAFFE);

    let mut table = Vec::new();
    let mut ids = |f: SemanticFilter<'_>| -> Vec<String> {
        let mut v: Vec<String> = search(&e, &mut table, GIRAFFE, &f)
            .hits
            .into_iter()
            .map(|h| h.owner_id)
            .collect();
        v.sort();
        v
    };
    assert_eq!(
        ids(everything()),
        ["farm_doc", "global_doc", "loose_note", "zoo_doc", "zoo_note"]
    );
    assert_eq!(
        ids(SemanticFilter {
            scope: "docs",
            ..everything()
        }),
        ["farm_doc", "global_doc", "zoo_doc"]
    );
    assert_eq!(
        ids(SemanticFilter {
            scope: "annotations",
            ..everything()
        }),
        ["loose_note", "zoo_note"]
    );
    assert_eq!(
        ids(SemanticFilter {
            project: Some("zoo"),
            ..everything()
        }),
        ["zoo_doc", "zoo_note"],
        "a note's project is its task's"
    );
    assert_eq!(
        ids(SemanticFilter {
            project: Some("zoo"),
            include_unscoped: true,
            ..everything()
        }),
        ["global_doc", "loose_note", "zoo_doc", "zoo_note"],
        "widened to entries with no project, never to another project's"
    );
    assert_eq!(
        ids(SemanticFilter {
            exclude_task: Some("zoo_task"),
            ..everything()
        }),
        ["farm_doc", "global_doc", "loose_note", "zoo_doc"],
        "the task's own notes go"
    );
}

#[test]
fn hits_are_ordered_floored_rounded_and_cut_to_depth() {
    let mut e = Engine::open_in_memory();
    add_doc(&mut e, "a", "A", GIRAFFE, None);
    add_doc(&mut e, "b", "B", GIRAFFE, None);
    add_doc(&mut e, "far", "Geology", VOLCANO, None);
    add_task(&mut e, "t", None);
    add_note(&mut e, "n", "t", GIRAFFE);
    let mut table = Vec::new();
    let mut f = SemanticFilter {
        min_similarity: 0,
        ..everything()
    };
    let all = search(&e, &mut table, GIRAFFE, &f);
    for w in all.hits.windows(2) {
        assert!(
            w[0].similarity > w[1].similarity
                || (w[0].similarity == w[1].similarity
                    && (w[0].kind, &w[0].owner_id) < (w[1].kind, &w[1].owner_id)),
            "best first, then (kind, id): {:?}",
            all.hits
        );
    }
    assert_eq!(all.total, all.hits.len());
    let far_sim = all
        .hits
        .iter()
        .find(|h| h.owner_id == "far")
        .expect("a zero floor admits everything")
        .similarity;

    f.min_similarity = far_sim + 1;
    let floored = search(&e, &mut table, GIRAFFE, &f);
    assert!(
        floored.hits.iter().all(|h| h.owner_id != "far"),
        "below the floor"
    );
    f.min_similarity = far_sim;
    let at = search(&e, &mut table, GIRAFFE, &f);
    assert!(
        at.hits.iter().any(|h| h.owner_id == "far"),
        "at the floor is in"
    );

    f.depth = 2;
    f.min_similarity = 900;
    let cut = search(&e, &mut table, GIRAFFE, &f);
    assert_eq!(cut.total, 3, "total counts past the depth");
    assert_eq!(cut.hits.len(), 2);
    // The three copies tie; the note sorts first by kind, then docs by id.
    assert_eq!(
        cut.hits
            .iter()
            .map(|h| h.owner_id.clone())
            .collect::<Vec<_>>(),
        ["n", "a"]
    );
}

#[test]
fn a_search_embeds_what_has_no_row_and_a_second_search_writes_nothing() {
    let mut e = Engine::open_in_memory();
    add_doc(&mut e, "doc", "Wildlife", GIRAFFE, None);
    add_task(&mut e, "task", None);
    add_note(&mut e, "note", "task", VOLCANO);
    let mut table = Vec::new();
    assert_eq!(rows_of(&table, "doc"), 0, "an insert stores no vector");

    let hits = search(&e, &mut table, GIRAFFE, &everything()).hits;
    assert_eq!(hits.len(), 1);
    assert_eq!((hits[0].kind, hits[0].owner_id.as_str()), (Kind::Doc, "doc"));
    assert!(rows_of(&table, "doc") >= 1, "the doc's chunks are stored");
    assert_eq!(rows_of(&table, "note"), 1, "a short note is one chunk");

    let before = table.len();
    assert!(scan_missing(&e, &table, "the-model").is_empty());
    let hits = search(&e, &mut table, VOLCANO, &everything()).hits;
    assert_eq!(hits[0].owner_id, "note");
    assert_eq!(table.len(), before, "nothing is embedded or written twice");
}

#[test]
fn text_with_no_known_token_is_stored_once_as_a_sentinel() {
    let mut e = Engine::open_in_memory();
    add_doc(&mut e, "doc", "🙂", "🙂🙂", None);
    add_task(&mut e, "task", None);
    add_note(&mut e, "note", "task", "🙂🙂");
    let mut table = Vec::new();
    assert!(search(&e, &mut table, GIRAFFE, &everything()).hits.is_empty());
    for owner in ["doc", "note"] {
        let rows: Vec<&VectorRow> = table.iter().filter(|r| r.owner_id == owner).collect();
        assert_eq!(rows.len(), 1);
        assert_eq!(
            (rows[0].chunk, &rows[0].vec),
            (-1, &None),
            "one sentinel row for {owner}"
        );
    }
    assert!(scan_missing(&e, &table, "the-model").is_empty());
    search(&e, &mut table, VOLCANO, &everything());
    assert_eq!(table.len(), 2, "never re-embedded");
}

#[test]
fn a_removed_or_empty_note_is_not_embedded() {
    let mut e = Engine::open_in_memory();
    add_task(&mut e, "t", None);
    add_note(&mut e, "note", "t", GIRAFFE);
    add_note(&mut e, "empty", "t", "");
    e.annotations[0].removed = Some(STAMP.to_string());
    let mut table = Vec::new();
    assert!(search(&e, &mut table, GIRAFFE, &everything()).hits.is_empty());
    assert!(table.is_empty(), "no row, not even a sentinel");
}

#[test]
fn another_model_is_never_read() {
    let mut e = Engine::open_in_memory();
    add_doc(&mut e, "doc", "Geology", VOLCANO, None);
    let mut table = vec![VectorRow {
        kind: Kind::Doc,
        owner_id: "doc".to_string(),
        model: "another-model".to_string(),
        chunk: 0,
        vec: Some(vec![9, 9, 9, 9]),
    }];
    assert!(search(&e, &mut table, GIRAFFE, &everything()).hits.is_empty());
    assert_eq!(
        search(&e, &mut table, VOLCANO, &everything()).hits[0].owner_id,
        "doc",
        "and does not count as ours"
    );
    assert_eq!(
        table.iter().filter(|r| r.model == "another-model").count(),
        1,
        "a search deletes nobody's rows"
    );
}

#[test]
fn a_write_that_lost_a_race_with_an_edit_stores_nothing() {
    let mut e = Engine::open_in_memory();
    add_doc(&mut e, "doc", "Notes", GIRAFFE, None);
    add_task(&mut e, "t", None);
    add_note(&mut e, "note", "t", GIRAFFE);
    let mut table = Vec::new();

    let pending = embed_all(scan_missing(&e, &table, "the-model"));
    assert_eq!(pending.len(), 2, "both read at v1");
    e.docs[0].search_body = VOLCANO.to_string();
    e.annotations[0].body = VOLCANO.to_string();

    assert_eq!(
        write_guarded(&e, &mut table, &pending, "the-model"),
        0,
        "the guard refused both"
    );
    assert_eq!(rows_of(&table, "doc"), 0, "no v1 vector for the doc");
    assert_eq!(rows_of(&table, "note"), 0, "no v1 vector for the note");

    assert_eq!(search(&e, &mut table, VOLCANO, &everything()).total, 2);
    assert!(
        rows_of(&table, "doc") >= 1 && rows_of(&table, "note") == 1,
        "v2 stored"
    );
}

#[test]
fn a_note_removed_between_read_and_write_stores_nothing() {
    let mut e = Engine::open_in_memory();
    add_task(&mut e, "t", None);
    add_note(&mut e, "note", "t", GIRAFFE);
    let mut table = Vec::new();
    let pending = embed_all(scan_missing(&e, &table, "the-model"));
    e.annotations[0].removed = Some(STAMP.to_string());
    assert_eq!(write_guarded(&e, &mut table, &pending, "the-model"), 0);
    assert_eq!(rows_of(&table, "note"), 0);
    assert!(search(&e, &mut table, GIRAFFE, &everything()).hits.is_empty());
}

#[test]
fn what_cannot_be_written_serves_the_call_and_is_kept() {
    let mut e = Engine::open_in_memory();
    add_doc(&mut e, "doc", "Wildlife", GIRAFFE, None);
    let m = model();
    let mut table = Vec::new();
    let mut cache = VectorCache::new();
    let key = (1, 0);

    let pending = embed_all(cache.begin(key, &e, &table, &m));
    let fresh = cache.finish(key, pending, None, key, &m);
    let hits = semantic_candidates(
        &measured(&cache.entries, &e, GIRAFFE),
        &measured(&fresh, &e, GIRAFFE),
        &everything(),
    );
    assert_eq!(hits.total, 1, "answered from memory");
    assert_eq!(rows_of(&table, "doc"), 0, "nothing stored under the lock");

    let missing = cache.begin(key, &e, &table, &m);
    assert_eq!(missing.len(), 1, "the next search tries again");
    let pending: Vec<Pending> = missing
        .into_iter()
        .map(|source| Pending {
            vectors: cache
                .kept_vectors(&source)
                .expect("a second search under the lock embeds nothing again"),
            source,
        })
        .collect();
    let written = write_guarded(&e, &mut table, &pending, &m.id);
    assert_eq!(written, 1, "stored once the lock is free");
    let fresh = cache.finish(key, pending, Some(written), (1, 1), &m);
    assert!(fresh.is_empty());
    assert!(cache.kept.is_empty());
    assert!(cache.complete);
    assert!(cache.begin((1, 1), &e, &table, &m).is_empty());
    assert_eq!(cache.entries.len(), 1);

    cache.forget();
    assert_eq!(cache.key, None);
}

#[test]
fn a_copy_that_someone_wrote_past_is_read_again() {
    assert_eq!(plan(None, false, (1, 0)), Plan::Reload);
    assert_eq!(plan(Some((1, 0)), false, (1, 0)), Plan::Scan);
    assert_eq!(plan(Some((1, 0)), true, (1, 0)), Plan::Ready);
    assert_eq!(plan(Some((1, 0)), true, (2, 0)), Plan::Reload);
    assert_eq!(plan(Some((1, 0)), true, (1, 4)), Plan::Reload);
    let lost = settle((1, 0), 2, Some(1), (1, 3));
    assert_eq!((lost.key, lost.complete, lost.absorbed), (None, false, false));
    let raced = settle((1, 0), 2, Some(2), (2, 3));
    assert_eq!((raced.key, raced.absorbed), (None, false));
    let kept = settle((1, 0), 2, Some(2), (1, 3));
    assert_eq!((kept.key, kept.complete, kept.absorbed), (Some((1, 3)), true, true));
    let held = settle((1, 0), 2, None, (1, 0));
    assert_eq!((held.key, held.complete, held.absorbed), (Some((1, 0)), false, false));
}

#[test]
fn the_best_chunk_is_the_most_similar_and_then_the_first() {
    let entry = Entry {
        kind: Kind::Doc,
        owner_id: "d".to_string(),
        project: None,
        task_id: None,
        chunks: vec![(3, 960), (2, 990), (1, 990), (0, 100)],
    };
    let hits = semantic_candidates(&vec![entry], &vec![], &everything()).hits;
    assert_eq!((hits[0].chunk, hits[0].similarity), (1, 990));
}

#[test]
fn a_fresh_entry_stands_in_for_the_copy_of_it() {
    let entry = |sim: i64| Entry {
        kind: Kind::Doc,
        owner_id: "d".to_string(),
        project: None,
        task_id: None,
        chunks: vec![(0, sim)],
    };
    let hits = semantic_candidates(&vec![entry(990)], &vec![entry(960)], &everything());
    assert_eq!(hits.total, 1);
    assert_eq!(hits.hits[0].similarity, 960);
}

#[test]
fn no_entry_is_hit_twice_and_the_total_counts_each() {
    let entry = |owner: &str, similarity: i64| Entry {
        kind: Kind::Doc,
        owner_id: owner.to_string(),
        project: None,
        task_id: None,
        chunks: vec![(0, similarity)],
    };
    let cached = vec![entry("a", 900), entry("b", 800), entry("c", 100)];
    let fresh = vec![entry("b", 700), entry("d", 950)];
    let f = SemanticFilter {
        min_similarity: 500,
        depth: 2,
        ..everything()
    };
    let r = semantic_candidates(&cached, &fresh, &f);
    assert_eq!(r.total, 3, "a, b and d; c is below the floor");
    let found: Vec<&str> = r.hits.iter().map(|h| h.owner_id.as_str()).collect();
    assert_eq!(found, ["d", "a"]);
    let all = semantic_candidates(&cached, &fresh, &SemanticFilter { depth: 9, ..f });
    let found: Vec<&str> = all.hits.iter().map(|h| h.owner_id.as_str()).collect();
    assert_eq!(found, ["d", "a", "b"]);
    assert_eq!(all.hits[2].similarity, 700, "as it was just embedded");
}

#[test]
fn a_snippet_is_the_chunk_with_its_index() {
    let chunks = vec![GIRAFFE.to_string()];
    assert_eq!(semantic_snippet(&chunks, 0).as_deref(), Some(GIRAFFE));
    assert_eq!(semantic_snippet(&chunks, 1), None);
    assert_eq!(semantic_snippet(&chunks, -1), None);
}

fn env(turn: u32) -> ImportEnv {
    ImportEnv {
        log: LogEnv {
            now: STAMP.to_string(),
            actor: None,
            ids: (0..20).map(|n| format!("0199-{turn:04}-{n:04}")).collect(),
        },
        dates: Calendar::empty(),
        durations: Calendar::empty(),
        rules: Calendar::empty(),
        reminders: Calendar::empty(),
        token_sources: vec![],
        confidences: vec![],
    }
}

fn export(e: &Engine) -> Json {
    e.store_export(&Json::Obj(vec![]), &Calendar::empty())
        .expect("export")
}

fn finds(e: &Engine, table: &mut Vec<VectorRow>, query: &str) -> Vec<String> {
    search(e, table, query, &everything())
        .hits
        .into_iter()
        .map(|h| h.owner_id)
        .collect()
}

#[test]
fn store_export_carries_no_vectors() {
    let mut e = Engine::open_in_memory();
    add_doc(&mut e, "doc", "Wildlife", GIRAFFE, None);
    let before = export(&e);
    let mut table = Vec::new();
    assert_eq!(finds(&e, &mut table, GIRAFFE), ["doc"]);
    assert!(!table.is_empty());
    assert_eq!(export(&e), before, "an index is not part of a document");
}

#[test]
fn store_import_leaves_the_index_right() {
    let mut source = Engine::open_in_memory();
    add_doc(&mut source, "doc", "Notes", VOLCANO, None);
    add_task(&mut source, "t", None);
    add_note(&mut source, "note", "t", VOLCANO);
    source.docs[0].rev = 1;
    let document = export(&source);

    let mut e = Engine::open_in_memory();
    add_doc(&mut e, "doc", "Notes", GIRAFFE, None);
    add_task(&mut e, "t", None);
    add_note(&mut e, "note", "t", GIRAFFE);
    let mut table = Vec::new();
    assert_eq!(finds(&e, &mut table, GIRAFFE), ["note", "doc"]);
    let pending = embed_all(scan_missing(&e, &Vec::new(), "the-model"));

    e.store_import(&document, &env(1)).expect("import");
    assert_eq!(
        write_guarded(&e, &mut Vec::new(), &pending, "the-model"),
        0,
        "what was embedded before is not written after"
    );
    // A changed text has no row any more.
    table.clear();
    assert_eq!(finds(&e, &mut table, VOLCANO), ["note", "doc"]);
    assert!(finds(&e, &mut table, GIRAFFE).is_empty());
}

#[test]
fn undoing_a_note_leaves_the_index_right() {
    let mut e = Engine::open_in_memory();
    add_task(&mut e, "t", None);
    add_note(&mut e, "note", "t", GIRAFFE);
    let mut table = Vec::new();
    assert_eq!(finds(&e, &mut table, GIRAFFE), ["note"]);
    e.events.push(Event {
        id: "0198".to_string(),
        entity: "task".to_string(),
        entity_id: "t".to_string(),
        op: "annotation.add".to_string(),
        payload: Some(r#"{"id":"note"}"#.to_string()),
        ts: STAMP.to_string(),
        actor: None,
    });
    e.event_revert(&env(1).log).expect("undo");
    assert!(
        finds(&e, &mut table, GIRAFFE).is_empty(),
        "a row without its note is not read"
    );
    assert!(scan_missing(&e, &table, "the-model").is_empty());
}

#[test]
fn the_copy_follows_other_writers_and_its_own_writes() {
    let mut e = Engine::open_in_memory();
    add_doc(&mut e, "doc", "Notes", GIRAFFE, None);
    let m = model();
    let mut table = Vec::new();
    let mut cache = VectorCache::new();
    let pending = embed_all(cache.begin((1, 0), &e, &table, &m));
    let written = write_guarded(&e, &mut table, &pending, &m.id);
    cache.finish((1, 0), pending, Some(written), (1, 1), &m);
    assert_eq!(cache.entries.len(), 1);

    // Someone else edits the document and embeds it: the copy is only read again.
    e.docs[0].search_body = VOLCANO.to_string();
    table[0].vec = Some(vec![9, 9, 9, 9]);
    assert!(cache.begin((2, 1), &e, &table, &m).is_empty());
    assert_eq!(cache.entries[0].chunks[0].blob, [9, 9, 9, 9]);
    cache.finish((2, 1), vec![], Some(0), (2, 1), &m);

    // This connection adds another.
    add_doc(&mut e, "more", "More", GIRAFFE, None);
    let missing = cache.begin((2, 5), &e, &table, &m);
    assert_eq!(missing.len(), 1);
    assert_eq!(missing[0].owner_id, "more");
}
