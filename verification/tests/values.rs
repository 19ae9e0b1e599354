//! JSON values, stamps and texts.

use tasqx_core::edit::{drop_member, is_unset, set_member};
use tasqx_core::error::ErrorCode;
use tasqx_core::graph::reaches;
use tasqx_core::json::{Fields, Json};
use tasqx_core::params::{
    is_blank, opt_array, opt_bool, opt_i64, opt_str, opt_str_array, opt_str_nonempty, req_i64,
    req_str, req_str_lookup,
};
use tasqx_core::replies::{fence, replace_all, tool_ok};
use tasqx_core::rows::Dependency;
use tasqx_core::text::{
    decimal_text, is_white_space, join, lines, push_integer, starts_with, strip_prefix, trim,
    trim_end,
};
use tasqx_core::types::{Entity, Priority, Status};
use tasqx_core::when::{seconds_in, Calendar};
use tasqx_core::words::quote;

fn object(members: &[(&str, Json)]) -> Json {
    let mut f = Fields::new();
    for (key, value) in members {
        f.put(key, value.dup());
    }
    f.done()
}

#[test]
fn the_last_member_of_a_key_counts() {
    let v = object(&[("a", Json::Int(1)), ("b", Json::Null), ("a", Json::Int(2))]);
    assert_eq!(v.get("a"), Some(&Json::Int(2)));
    assert_eq!(v.integer("a"), Some(2));
    assert_eq!(v.count("b"), None);
    assert!(is_unset(&v, "b") && is_unset(&v, "c") && !is_unset(&v, "a"));
    let w = set_member(v, "a", Json::Bool(true));
    assert_eq!(w.truth("a"), Some(true));
    assert_eq!(drop_member(w, "a").get("a"), None);
}

#[test]
fn an_integer_that_no_i64_holds_is_none() {
    let big = Json::Int(i128::from(u64::MAX));
    assert_eq!(big.as_i64(), None);
    assert_eq!(object(&[("n", big)]).count("n"), Some(u64::MAX));
    assert_eq!(Json::Float("1.5".to_string()).as_i64(), None);
}

#[test]
fn an_answer_carries_the_value_as_json_text() {
    let v = object(&[
        ("n", Json::Int(3)),
        ("f", Json::Float("1.50".to_string())),
        ("s", Json::Str("a\"b\n".to_string())),
        ("l", Json::Arr(vec![Json::Null, Json::Bool(true)])),
    ]);
    let r = tool_ok(&v);
    let text = r.list("content").unwrap()[0].text("text").unwrap();
    let said: serde_json::Value = serde_json::from_str(text).expect("JSON");
    assert_eq!(said["n"], 3);
    assert_eq!(said["f"], 1.5);
    assert_eq!(said["s"], "a\"b\n");
    assert!(said["l"][0].is_null());
}

#[test]
fn fields_are_read_with_their_type() {
    let p = object(&[
        ("s", Json::Str(" ".to_string())),
        ("e", Json::Str(String::new())),
        ("n", Json::Int(7)),
        ("b", Json::Bool(false)),
        ("l", Json::Arr(vec![Json::Str("x".to_string())])),
        ("z", Json::Null),
    ]);
    assert_eq!(opt_str(&p, "s").unwrap().as_deref(), Some(" "));
    assert_eq!(opt_str(&p, "z").unwrap(), None);
    assert_eq!(opt_str(&p, "absent").unwrap(), None);
    assert_eq!(opt_i64(&p, "n").unwrap(), Some(7));
    assert_eq!(opt_bool(&p, "b").unwrap(), Some(false));
    assert_eq!(opt_str_array(&p, "l").unwrap(), ["x"]);
    assert_eq!(opt_array(&p, "l").unwrap().unwrap().len(), 1);
    assert_eq!(req_str_lookup(&p, "s").unwrap(), " ");
    for (message, err) in [
        ("`n` must be a string", opt_str(&p, "n").unwrap_err()),
        ("`e` must not be empty", opt_str_nonempty(&p, "e").unwrap_err()),
        ("`s` must not be empty", req_str(&p, "s").unwrap_err()),
        ("missing required field: z", req_str(&p, "z").unwrap_err()),
        ("`s` must be an integer", req_i64(&p, "s").unwrap_err()),
        ("`n` must be a boolean", opt_bool(&p, "n").unwrap_err()),
        ("`n` must be an array", opt_str_array(&p, "n").unwrap_err()),
    ] {
        assert_eq!(err.code, ErrorCode::BadRequest);
        assert_eq!(err.message, message);
    }
}

#[test]
fn a_stamp_stands_for_its_instant_and_a_spelling_for_what_the_calendar_says() {
    let c = Calendar {
        spellings: vec![
            ("noon".to_string(), "2026-01-01T12:00:00Z".to_string()),
            ("noon".to_string(), "2026-01-02T12:00:00Z".to_string()),
        ],
    };
    assert_eq!(
        c.parse_when("2026-01-01T02:00:10+02:00").unwrap(),
        "2026-01-01T00:00:10Z"
    );
    assert_eq!(
        c.parse_when("2026-01-01T00:00:10.250z").unwrap(),
        "2026-01-01T00:00:10.25Z"
    );
    assert_eq!(c.parse_when("noon").unwrap(), "2026-01-01T12:00:00Z");
    assert_eq!(c.find("never"), None);
    let err = c.parse_when("a\"b\n").unwrap_err();
    assert_eq!(err.message, r#"cannot read "a\"b\n" as a date"#);
}

#[test]
fn a_written_stamp_stands_for_itself() {
    let c = Calendar::empty();
    for stamp in ["1969-12-31T23:59:59.999999999Z", "2026-02-28T00:00:00Z"] {
        assert_eq!(c.parse_when(stamp).unwrap(), stamp);
    }
}

#[test]
fn seconds_are_cut_towards_the_epoch() {
    assert_eq!(seconds_in(1_999_999_999), 1);
    assert_eq!(seconds_in(-1), 0);
    assert_eq!(seconds_in(-1_999_999_999), -1);
    assert_eq!(seconds_in(-2_000_000_000), -2);
    assert_eq!(
        seconds_in(i128::MIN),
        -170_141_183_460_469_231_731_687_303_715
    );
}

#[test]
fn texts_are_cut_and_joined() {
    assert_eq!(lines("a\r\nb\n\nc"), ["a", "b", "", "c"]);
    assert_eq!(trim(" \ta\u{a0}"), "a");
    assert_eq!(trim_end(" a \n"), " a");
    assert!(is_blank(" \n") && !is_blank("x"));
    assert!(is_white_space('\u{2003}') && !is_white_space('_'));
    assert!(starts_with("project:x", "project:"));
    assert_eq!(strip_prefix("project:x", "project:"), Some("x"));
    assert_eq!(strip_prefix("pro", "project:"), None);
    assert_eq!(join(&vec!["a".to_string(), "b".to_string()], ", "), "a, b");
    assert_eq!(decimal_text(i64::MIN), i64::MIN.to_string());
    let mut s = "n=".to_string();
    push_integer(&mut s, i128::MIN);
    assert_eq!(s, format!("n={}", i128::MIN));
    assert_eq!(replace_all("aXbXX", "X", "yz"), "ayzbyzyz");
    assert!(fence("x").starts_with("```text\n"));
    assert_eq!(quote("a \"b\\"), r#""a \"b\\""#);
}

#[test]
fn words_name_what_they_name() {
    for s in Status::ALL {
        assert_eq!(Status::parse(s.as_str()), Some(s));
    }
    for p in Priority::ALL {
        assert_eq!(Priority::parse(p.as_str()), Some(p));
    }
    assert_eq!(Status::parse("Done"), None);
    assert_eq!(Entity::parse("task"), Some(Entity::Task));
    assert_eq!(Entity::parse("cat"), None);
}

#[test]
fn a_task_reaches_what_it_waits_for() {
    let edge = |a: &str, b: &str| Dependency {
        task_id: a.to_string(),
        depends_on: b.to_string(),
    };
    let e = vec![edge("a", "b"), edge("b", "c"), edge("d", "a")];
    assert!(reaches(&e, "d", "c"));
    assert!(!reaches(&e, "c", "d"));
    assert!(reaches(&e, "x", "x"));
}
