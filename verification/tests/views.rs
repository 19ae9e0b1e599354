//! The views of a task.

use serde_json::Value;
use tasqx_core::brief::{brief_tail_text, task_brief};
use tasqx_core::card::{task_brief_card, task_card, Borders, CardOpts, CARD_WIDTH};
use tasqx_core::cells::{fit, sanitize, split_whitespace};
use tasqx_core::detail::{priority_words, task_detail};
use tasqx_core::duration::duration_secs;
use tasqx_core::humanize::{
    card_duration, card_instant, fmt_duration, fmt_instant, humanize_secs, humanize_span, plural,
    round_div, DetailOpts, TimeFormat,
};
use tasqx_core::json::Json;
use tasqx_core::wrap::{prose, with_ellipsis, wrap_hanging, wrap_value, wrap_widths};
use unicode_width::UnicodeWidthStr;

fn to_json(v: &Value) -> Json {
    match v {
        Value::Null => Json::Null,
        Value::Bool(b) => Json::Bool(*b),
        Value::Number(n) => match n.as_i64() {
            Some(i) => Json::Int(i128::from(i)),
            None => Json::Float(n.to_string()),
        },
        Value::String(s) => Json::Str(s.clone()),
        Value::Array(a) => Json::Arr(a.iter().map(to_json).collect()),
        Value::Object(m) => Json::Obj(m.iter().map(|(k, v)| (k.clone(), to_json(v))).collect()),
    }
}

fn json(text: &str) -> Json {
    to_json(&serde_json::from_str(text).expect("test JSON"))
}

fn at(stamp: &str) -> i128 {
    stamp
        .parse::<jiff::Timestamp>()
        .expect("a stamp")
        .as_nanosecond()
}

fn opts(time: TimeFormat) -> DetailOpts {
    DetailOpts {
        time,
        now: at("2026-07-29T11:00:58Z"),
    }
}

const TASK: &str = r#"{
    "id": "t1", "short_id": 12, "title": "Build the box", "status": "active",
    "priority": "H", "urgency": 9.5, "project": "work", "tags": ["a", "b"],
    "estimate": "PT4H", "tracked": "P2W", "due": "2026-07-31T11:00:58Z", "recurrence": "every week",
    "active_since": "2026-07-29T10:59:00Z", "blocked": true, "depends_on": [3, 4], "blocks": [5],
    "created": "2026-07-29T09:00:58Z", "modified": "not a stamp", "budget_tokens": 100,
    "fresh_tokens": 150, "over": true, "_rev": 7,
    "checks": [
        { "body": "it opens", "state": "passed", "evidence": "one\ntwo" },
        { "body": "it closes", "state": "failed" },
        { "body": "it stays", "state": "open" }
    ],
    "tokens": [
        { "tool": "editor", "input_tokens": 1, "output_tokens": 2, "cache_read_tokens": 3,
          "cache_creation_tokens": 4, "source": "self-report", "confidence": "medium" }
    ],
    "annotations": [{ "id": "a1", "body": "A note.", "created": "2026-07-29T10:00:58Z" }],
    "annotations_total": 1
}"#;

#[test]
fn a_detail_view_shows_every_field_it_has() {
    assert_eq!(
        task_detail(&json(TASK), &opts(TimeFormat::Both)),
        "## #12 · Build the box\n\n\
         | | |\n|---|---|\n\
         | status | active |\n\
         | priority | H (urgency 9.5) |\n\
         | project | work |\n\
         | tags | a, b |\n\
         | estimate | PT4H (4h) |\n\
         | tracked | P2W (14d) |\n\
         | due | 2026-07-31T11:00:58Z (in 2 days) |\n\
         | recurrence | every week |\n\
         | active since | 2026-07-29T10:59:00Z (2 minutes ago) |\n\
         | blocked | yes |\n\
         | depends on | #3, #4 |\n\
         | blocks | #5 |\n\
         | created | 2026-07-29T09:00:58Z (2 hours ago) |\n\
         | modified | not a stamp |\n\
         | budget | 150 / 100 fresh tokens — over |\n\
         | rev | 7 |\n\
         \n### Acceptance (3)\n\n\
         - [x] it opens\n  > one\n  > two\n\
         - [!] it closes\n\
         - [ ] it stays\n\
         \n### Tokens (1)\n\n\
         | tool | in | out | cache read | cache write | source | confidence |\n\
         |---|---:|---:|---:|---:|---|---|\n\
         | editor | 1 | 2 | 3 | 4 | self-report | medium |\n\
         \n### Annotations (1)\n\n\
         ---\n**2026-07-29T10:00:58Z (1 hour ago)**\n\nA note.\n"
    );
}

#[test]
fn an_urgency_is_shown_in_plain_digits() {
    let cell = |urgency: &str| {
        let view = task_detail(
            &json(&format!(r#"{{ "priority": "M", "urgency": {urgency} }}"#)),
            &opts(TimeFormat::Iso),
        );
        view.lines()
            .find_map(|l| l.strip_prefix("| priority | ").map(String::from))
            .expect("a priority row")
    };
    assert_eq!(cell("9.0"), "M (urgency 9) |");
    assert_eq!(cell("1e-7"), "M (urgency 0.0000001) |");
    assert_eq!(cell("1e21"), "M (urgency 1000000000000000000000) |");
    assert_eq!(cell("9007199254740993"), "M (urgency 9007199254740992) |");
    assert_eq!(cell("-3"), "M (urgency -3) |");
    assert_eq!(cell("\"4\""), "M |");
    assert_eq!(priority_words(None, &Some("2.5".to_string())), "- (urgency 2.5)");
}

#[test]
fn a_detail_view_of_nothing_is_not_empty() {
    assert_eq!(
        task_detail(&json("{}"), &opts(TimeFormat::Iso)),
        "## #0 · \n\n| | |\n|---|---|\n| status |  |\n| priority | - |\n| project |  |\n\
         | created |  |\n| modified |  |\n| rev | 0 |\n"
    );
    assert!(!task_detail(&Json::Null, &opts(TimeFormat::Iso)).is_empty());
}

#[test]
fn a_page_of_a_longer_history_says_so() {
    let v = json(
        r#"{ "annotations": [{ "body": "mid", "created": "" }], "annotations_total": 5,
             "annotations_offset": 1, "annotations_next_offset": 2 }"#,
    );
    let view = task_detail(&v, &opts(TimeFormat::Iso));
    assert!(
        view.ends_with(concat_page().as_str()),
        "the notice counts both sides: {view}"
    );
    let none = json(r#"{ "annotations": [], "annotations_total": 5 }"#);
    assert!(task_detail(&none, &opts(TimeFormat::Iso)).ends_with(
        "\n_Annotations: 5, none shown (`annotations_limit: 0`, or none requested) — re-read \
         with a higher `annotations_limit` to see them._\n"
    ));
}

fn concat_page() -> String {
    [
        "\n### Annotations (1 of 5)\n\n",
        "_Showing 1, oldest first, after the 1 most recent. 3 older elided",
        " — re-read this ",
        "task with `annotations_offset: 2` for the next page._\n\n",
        "---\n****\n\nmid\n",
    ]
    .concat()
}

#[test]
fn a_cut_body_names_the_call_that_reads_it_whole() {
    let v = json(
        r#"{ "annotations": [
                { "body": "é", "body_truncated": true, "body_bytes": 900 },
                { "body": "last" }
             ], "annotations_total": 2,
             "annotations_removed": [{ "id": "a9", "removed": "2026-07-29T11:00:00Z" }] }"#,
    );
    let view = task_detail(&v, &opts(TimeFormat::Relative));
    assert!(
        view.contains(
            "_(truncated: 900 bytes, 2 shown — read it whole with `annotations_offset: 1`, \
             `annotations_limit: 1`, `max_body_bytes: 900`)_\n"
        ),
        "{view}"
    );
    assert!(
        view.ends_with("\n_(annotation a9 removed just now)_\n"),
        "{view}"
    );
}

#[test]
fn an_unknown_status_is_marked() {
    let v = json(r#"{ "status": "paused", "status_unrecognized": true }"#);
    assert!(task_detail(&v, &opts(TimeFormat::Iso)).contains(
        "| status | paused (unrecognized — not one of backlog, pending, active, done, cancelled) |"
    ));
}

const BRIEF: &str = r#"{
    "task": { "short_id": 2, "title": "t" },
    "neighbourhood": {
        "depends_on": [{ "short_id": 1, "title": "first", "status": "done", "annotation": { "body": "it held\nall day" } }],
        "blocks": [{ "short_id": 9, "title": "next", "status": "pending" }]
    },
    "memory": {
        "hits": [
            { "kind": "annotation", "title": "seen", "snippet": "a  b\nc" },
            { "kind": "doc", "title": "Guide", "source": "guide.md", "snippet": "" },
            { "kind": "other", "title": "odd", "snippet": "s" }
        ],
        "docs_total": 4, "total": 12
    }
}"#;

const TAIL: &str = "\n### Depends on\n\n- **#1** first · done\n  > it held\n  > all day\n\
                    \n### Blocks\n\n- **#9** next · pending\n\
                    \n### From memory\n\n\
                    **Docs** — 1 of 4\n\n- **Guide** · `guide.md`\n\
                    \n**Annotations** — 1\n\n- **seen**\n  a b c\n\
                    \n- **odd**\n  s\n\
                    \n3 of 12 matches shown — `tasqx_search_memory` reaches the rest.\n";

#[test]
fn a_brief_adds_what_the_neighbours_decided_and_what_is_remembered() {
    let v = json(BRIEF);
    assert_eq!(brief_tail_text(&v), TAIL);
    let o = opts(TimeFormat::Iso);
    assert_eq!(
        task_brief(&v, &o),
        task_detail(&json(r#"{ "short_id": 2, "title": "t" }"#), &o) + TAIL
    );
    assert_eq!(brief_tail_text(&json("{}")), "");
}

fn card(time: TimeFormat, borders: Borders) -> CardOpts {
    CardOpts {
        detail: opts(time),
        borders,
    }
}

#[test]
fn every_line_of_a_card_is_as_wide_as_the_card() {
    let wide = json(
        r#"{ "short_id": 3, "title": "漢字漢字漢字漢字漢字漢字漢字漢字漢字漢字漢字漢字漢字漢字漢字漢字 and a tail",
             "status": "active", "tags": ["a\tb"], "project": "é́x",
             "annotations": [{ "body": "long words in a paragraph that goes on and on and on and on and on until it has to be folded", "created": "" }] }"#,
    );
    for v in [json(TASK), json(BRIEF), wide, json("{}")] {
        for borders in [Borders::Unicode, Borders::Ascii] {
            let text = task_card(&v, &card(TimeFormat::Both, borders));
            assert!(!text.is_empty());
            for line in text.lines() {
                assert_eq!(line.width(), CARD_WIDTH, "{line:?}");
            }
        }
    }
}

#[test]
fn a_card_is_drawn_with_its_border() {
    let text = task_card(&json(r#"{ "short_id": 2, "title": "t" }"#), &card(TimeFormat::Iso, Borders::Ascii));
    let lines: Vec<&str> = text.lines().collect();
    assert_eq!(
        lines[0],
        format!("+{}+{}+", "-".repeat(13), "-".repeat(56))
    );
    assert_eq!(lines[1], format!("| Task #2     | t{} |", " ".repeat(53)));
    let text = task_card(&json(TASK), &card(TimeFormat::Both, Borders::Unicode));
    assert!(text.starts_with('┌') && text.ends_with("┘\n"), "{text}");
    assert!(text.contains("4h") && !text.contains("PT4H"), "{text}");
}

#[test]
fn a_brief_card_has_the_tail_of_the_brief() {
    let o = card(TimeFormat::Both, Borders::Unicode);
    let v = json(BRIEF);
    assert_eq!(task_brief_card(&v, &o), task_card(&v, &o) + TAIL);
}

#[test]
fn spans_are_rounded_to_one_unit() {
    assert_eq!(round_div(7199, 3600), 2);
    assert_eq!(round_div(5399, 3600), 1);
    assert_eq!(round_div(5400, 3600), 2);
    assert_eq!(round_div(i64::MAX, 86_400), 106_751_991_167_301);
    assert_eq!(humanize_secs(59), "59s");
    assert_eq!(humanize_secs(60), "1m");
    assert_eq!(humanize_secs(3599), "60m");
    assert_eq!(humanize_secs(86_399), "24h");
    assert_eq!(humanize_secs(86_400), "1d");
    assert_eq!(humanize_span(45), "45 seconds");
    assert_eq!(humanize_span(3600), "1 hour");
    assert_eq!(plural(0, "day"), "0 days");
}

#[test]
fn instants_are_written_as_asked() {
    let stamp = "2026-07-28T11:00:58Z";
    assert_eq!(fmt_instant(stamp, &opts(TimeFormat::Iso)), stamp);
    assert_eq!(fmt_instant(stamp, &opts(TimeFormat::Relative)), "1 day ago");
    assert_eq!(
        fmt_instant(stamp, &opts(TimeFormat::Both)),
        "2026-07-28T11:00:58Z (1 day ago)"
    );
    assert_eq!(
        card_instant(stamp, &opts(TimeFormat::Both)),
        "2026-07-28 (1 day ago)"
    );
    assert_eq!(fmt_instant("", &opts(TimeFormat::Both)), "");
    assert_eq!(card_instant("soon", &opts(TimeFormat::Both)), "soon");
    assert_eq!(
        fmt_instant("2026-07-29T11:01:57Z", &opts(TimeFormat::Relative)),
        "just now"
    );
}

#[test]
fn durations_are_read_and_written() {
    assert_eq!(duration_secs("PT1H30M"), Some(5400));
    assert_eq!(duration_secs("P1W2DT3S"), Some(777_603));
    assert_eq!(duration_secs("P2W"), Some(1_209_600));
    assert_eq!(duration_secs("PT9223372036854775807S"), Some(i64::MAX));
    assert_eq!(duration_secs("PT9223372036854775808S"), None);
    assert_eq!(duration_secs("1h"), None);
    assert_eq!(fmt_duration("PT90M", &opts(TimeFormat::Both)), "PT90M (2h)");
    assert_eq!(fmt_duration("a while", &opts(TimeFormat::Both)), "a while");
    assert_eq!(card_duration("PT4H"), "4h");
}

#[test]
fn control_characters_do_not_reach_a_card() {
    assert_eq!(sanitize("a\u{1b}[0mb\tc\nd").chars().filter(|c| c.is_control()).count(), 0);
    assert_eq!(split_whitespace(" a\t b\nc "), ["a", "b", "c"]);
}

#[test]
fn a_cut_text_is_as_long_as_fits() {
    assert_eq!(fit("abcdef", 3), "abc");
    // A wide character that does not fit whole is left out.
    assert_eq!(fit("漢字", 3), "漢");
    assert_eq!(fit("ab", 9), "ab");
}

#[test]
fn wrapped_lines_are_no_wider_than_asked() {
    assert_eq!(wrap_widths("aa bb cc", 5, 2), ["aa bb", "cc"]);
    assert_eq!(wrap_widths("", 5, 5), [""]);
    assert_eq!(wrap_widths("abcdefg", 3, 3), ["abc", "def", "g"]);
    let long = "word ".repeat(40);
    for line in wrap_value(&long) {
        assert!(line.width() <= 54, "{line:?}");
    }
    let hung = wrap_hanging(&long, 3);
    assert!(hung.len() > 1);
    for line in &hung[1..] {
        assert!(line.starts_with("   "), "{line:?}");
    }
    let quoted = prose(&long.repeat(9));
    assert_eq!(quoted.len(), 8);
    assert!(quoted[7].ends_with('…'), "{quoted:?}");
    assert_eq!(with_ellipsis("abc"), "abc…");
}
