//! The filter language.

use tasqx_core::filter::{
    from_argv, quote, split_words, Filter, MatchCtx, Parens, GRAMMAR, MAX_NESTING, TOKEN_SHAPES,
    VALUE_PREFIXES,
};
use tasqx_core::types::Status;
use tasqx_core::when::Calendar;
use tasqx_core::words::scan;

fn grammar() -> &'static str {
    GRAMMAR
}

fn anchor() -> Calendar {
    calendar(&[])
}

fn calendar(entries: &[(&str, &str)]) -> Calendar {
    Calendar {
        spellings: entries
            .iter()
            .map(|(spelling, stamp)| (spelling.to_string(), stamp.to_string()))
            .collect(),
    }
}

/// What the relative spellings mean on Sunday 19 July 2026.
fn sunday() -> Calendar {
    calendar(&[
        ("today", "2026-07-19T00:00:00Z"),
        ("yesterday", "2026-07-18T00:00:00Z"),
        ("tomorrow", "2026-07-20T00:00:00Z"),
        ("2026-07-19", "2026-07-19T00:00:00Z"),
        ("2026-07-25", "2026-07-25T00:00:00Z"),
        ("friday", "2026-07-24T00:00:00Z"),
        ("in 3 days", "2026-07-22T00:00:00Z"),
        ("eom", "2026-07-31T00:00:00Z"),
        ("2026-07-20T17:00", "2026-07-20T17:00:00Z"),
    ])
}

fn parsed(s: &str) -> Filter {
    Filter::parse(s, &anchor()).unwrap_or_else(|e| panic!("test filter {s:?} must parse: {e}"))
}

#[test]
fn constrains_status_sees_only_real_status_predicates() {
    for (input, want) in [
        ("", false),
        ("project:x", false),
        ("+api -infra", false),
        ("status:pending", true),
        ("@working", true),                 // expands to pending|active
        ("project:x or status:done", true), // must reach into Or branches
        ("(project:x and +api) or @working", true),
    ] {
        assert_eq!(
            parsed(input).constrains_status(),
            want,
            "constrains_status({input:?})"
        );
    }
}

fn ctx_for(status: Status) -> MatchCtx<'static> {
    MatchCtx {
        status,
        project: None,
        tags: &[],
        due: None,
        completed: None,
        blocked: false,
    }
}

fn ctx_tagged(tags: &[String]) -> MatchCtx<'_> {
    MatchCtx {
        status: Status::Pending,
        project: None,
        tags,
        due: None,
        completed: None,
        blocked: false,
    }
}

#[test]
fn parentheses_group_rather_than_reassociating() {
    // a = project:home -> TRUE, b = +api -> FALSE, c = status:done -> FALSE.
    // Correct: (a or b) and c == (T or F) and F == FALSE.
    // Reassociated: a or (b and c) == T or (F and F) == TRUE.
    let ctx = MatchCtx {
        status: Status::Pending,
        project: Some("home"),
        tags: &[],
        due: None,
        completed: None,
        blocked: false,
    };
    assert!(
        !parsed("(project:home or +api) and status:done").matches(&ctx),
        "the group must bind before `and` — this row was filtered out"
    );
    // The same tokens without parentheses DO match, which is what proves the
    // assertion above is about grouping and not about the predicates.
    assert!(parsed("project:home or +api and status:done").matches(&ctx));
}

#[test]
fn due_bounds_are_strict_at_the_exact_instant() {
    let bound = "2026-07-17T00:00:00Z";
    let ctx = MatchCtx {
        status: Status::Pending,
        project: None,
        tags: &[],
        due: Some(bound),
        completed: None,
        blocked: false,
    };
    assert!(
        !parsed(&format!("due.before:{bound}")).matches(&ctx),
        "before is strict"
    );
    assert!(
        !parsed(&format!("due.after:{bound}")).matches(&ctx),
        "after is strict"
    );
    // One second either side still resolves the way the names promise.
    let earlier = MatchCtx {
        due: Some("2026-07-16T23:59:59Z"),
        ..ctx
    };
    assert!(parsed(&format!("due.before:{bound}")).matches(&earlier));
    let later = MatchCtx {
        due: Some("2026-07-17T00:00:01Z"),
        ..ctx
    };
    assert!(parsed(&format!("due.after:{bound}")).matches(&later));
}

#[test]
fn a_due_bound_accepts_every_spelling_the_tool_advertises() {
    // A Sunday, so `friday` and `eom` both resolve clear of the due below.
    let anchor = sunday();
    // Tomorrow morning: a bare date is midnight, and the bound is strict there.
    let ctx = MatchCtx {
        status: Status::Pending,
        project: None,
        tags: &[],
        due: Some("2026-07-20T09:00:00Z"),
        completed: None,
        blocked: false,
    };
    // Composed through `quote`: unquoted, `in 3 days` is three tokens.
    for spelling in [
        "friday",
        "2026-07-25",
        "in 3 days",
        "eom",
        "2026-07-20T17:00",
    ] {
        let f = Filter::parse(&format!("due.before:{}", quote(spelling)), &anchor)
            .unwrap_or_else(|e| panic!("due.before:{spelling:?} must parse: {e}"));
        assert!(
            f.matches(&ctx),
            "due.before:{spelling:?} must select a task due tomorrow"
        );
    }
    // The same grammar on the other side of the comparison — `tomorrow`
    // included, so no spelling in the advertised set goes unexercised.
    for spelling in ["today", "yesterday", "2026-07-19", "tomorrow"] {
        let f = Filter::parse(&format!("due.after:{spelling}"), &anchor)
            .unwrap_or_else(|e| panic!("due.after:{spelling:?} must parse: {e}"));
        assert!(
            f.matches(&ctx),
            "due.after:{spelling:?} must select a task due tomorrow"
        );
    }
}

#[test]
fn an_unparseable_due_bound_is_refused_and_named() {
    let anchor = sunday();
    for (input, offender) in [
        ("due.before:tomorow", "tomorow"),
        ("due.after:notadate", "notadate"),
        ("due.before:2026-13-45", "2026-13-45"),
        ("+api and due.before:fridya", "fridya"),
    ] {
        let err = Filter::parse(input, &anchor)
            .expect_err("an unreadable date bound must be refused, not matched against");
        assert!(
            err.contains(offender),
            "the error must name {offender:?}: {err}"
        );
    }
}

#[test]
fn a_relative_bound_is_resolved_once_at_parse_time() {
    let monday = calendar(&[("tomorrow", "2026-07-21T00:00:00Z")]);
    let f = Filter::parse("due.before:tomorrow", &monday).expect("parses");
    let just_inside = MatchCtx {
        status: Status::Pending,
        project: None,
        tags: &[],
        due: Some("2026-07-21T00:00:00Z"),
        completed: None,
        blocked: false,
    };
    // `tomorrow` at Monday noon is 2026-07-21T00:00:00Z, and the bound is
    // strict — so the row exactly on it is out and one second earlier is in,
    // no matter how much later `matches` runs.
    assert!(
        !f.matches(&just_inside),
        "the bound must stay at the instant parse resolved"
    );
    let earlier = MatchCtx {
        due: Some("2026-07-20T23:59:59Z"),
        ..just_inside
    };
    assert!(f.matches(&earlier));
}

#[test]
fn tag_exclusion_hides_tagged_tasks_and_keeps_every_other_task() {
    let has_infra: Vec<String> = vec!["infra".into(), "api".into()];
    let other_tag: Vec<String> = vec!["docs".into()];
    let no_tags: Vec<String> = vec![];

    let f = parsed("-infra");
    assert!(
        !f.matches(&ctx_tagged(&has_infra)),
        "-infra must hide a task tagged infra"
    );
    // Load-bearing: a task carrying some *other* tag is what separates a
    // correct exclusion from one whose comparison has been inverted.
    assert!(
        f.matches(&ctx_tagged(&other_tag)),
        "-infra must keep a task tagged only docs"
    );
    assert!(
        f.matches(&ctx_tagged(&no_tags)),
        "-infra must keep an untagged task"
    );

    // The include/exclude pair must stay exact opposites on the same rows.
    let inc = parsed("+infra");
    for tags in [&has_infra, &other_tag, &no_tags] {
        assert_ne!(
            inc.matches(&ctx_tagged(tags)),
            f.matches(&ctx_tagged(tags)),
            "+infra and -infra disagree on {tags:?}"
        );
    }
}

#[test]
fn an_unrecognised_status_value_is_refused_naming_the_accepted_set() {
    // All whitespace-free: a value containing a space is split by the
    // tokenizer long before status parsing sees it, so those inputs would
    // exercise the tokenizer rather than this rule.
    for bogus in ["bogus", "canceled", "PENDING", "Done", "pending2", ""] {
        let err = Filter::parse(&format!("status:{bogus}"), &anchor()).expect_err(&format!(
            "status:{bogus:?} must be refused, not silently match nothing"
        ));
        assert!(
            err.contains(&format!("{bogus:?}")),
            "the refusal must name the offending value; got {err:?}"
        );
        // Driven off `Status::ALL`, so a sixth variant joins the message the
        // day it exists rather than when someone remembers this string.
        for s in Status::ALL {
            assert!(
                err.contains(s.as_str()),
                "the refusal must list {:?} as an accepted value; got {err:?}",
                s.as_str()
            );
        }
    }
}

#[test]
fn each_status_value_selects_exactly_that_status() {
    for want in Status::ALL {
        let f = parsed(&format!("status:{}", want.as_str()));
        for have in Status::ALL {
            assert_eq!(
                f.matches(&ctx_for(have)),
                want == have,
                "status:{} vs a {have:?} row",
                want.as_str()
            );
        }
    }
}

#[test]
fn working_covers_pending_and_active_only_and_never_when_blocked() {
    let f = parsed("@working");
    for status in Status::ALL {
        let want = matches!(status, Status::Pending | Status::Active);
        assert_eq!(f.matches(&ctx_for(status)), want, "@working vs {status:?}");

        let blocked = MatchCtx {
            blocked: true,
            ..ctx_for(status)
        };
        assert!(
            !f.matches(&blocked),
            "@working must exclude blocked {status:?}"
        );
    }
}

#[test]
fn blocked_is_a_derived_flag_not_a_status_constraint() {
    for input in ["status:blocked", "@blocked", "+blocked"] {
        assert!(
            !parsed(input).constrains_status(),
            "{input:?} must not suppress the exclude-cancelled default"
        );
    }
}

#[test]
fn value_prefixes_match_the_grammar() {
    let mut seen = 0;
    for line in GRAMMAR.lines() {
        // `key:" VALUE` and `key:"  DATE` alike: both take an argument
        // after the colon, so both can carry a space the shell ate.
        //
        // The argument is recognised by its shape: a nonterminal starts with a
        // capital.
        let Some((lhs, rhs)) = line.split_once(":\"") else {
            continue;
        };
        if !rhs
            .trim_start()
            .starts_with(|c: char| c.is_ascii_uppercase())
        {
            continue;
        }
        let key = format!("{}:", lhs.rsplit('"').next().unwrap_or_default());
        seen += 1;
        assert!(
            VALUE_PREFIXES.contains(&key.as_str()),
            "`{key}` takes an argument in GRAMMAR but is not in VALUE_PREFIXES, so a                  shell-quoted value would be re-split at its spaces"
        );
    }
    // Without this the guard passes by matching nothing if GRAMMAR is
    // reformatted — the failure mode every text-scanning guard has.
    assert_eq!(seen, 6, "expected six `key:`-shaped predicates in GRAMMAR");
}

#[test]
fn token_shapes_name_every_value_prefix() {
    for p in VALUE_PREFIXES {
        // `+`/`-` spell themselves as `+tag`/`-tag` in prose, since a bare
        // `+` is not something a user types.
        let needle = if p == "+" || p == "-" {
            format!("{p}tag")
        } else {
            p.to_string()
        };
        assert!(
            TOKEN_SHAPES.contains(&needle),
            "`{p}` is an accepted filter prefix but no refusal message offers it: {TOKEN_SHAPES}"
        );
    }
}

#[test]
fn from_argv_joins_and_does_not_guess() {
    let go = |args: &[&str]| from_argv(&args.iter().map(|s| s.to_string()).collect::<Vec<_>>());
    // Several elements stay several tokens, as they always did.
    assert_eq!(go(&["+api", "status:done"]), "+api status:done");
    // Literal quotes pass through to the tokenizer, which understands them.
    assert_eq!(go(&[r#"+"needs paint""#]), r#"+"needs paint""#);
    // An expression in one element stays an expression.
    assert_eq!(go(&["+api or +web"]), "+api or +web");
    assert_eq!(go(&["(+api or +web)"]), "(+api or +web)");
    // And the shell-stripped value is NOT put back together. It is two
    // tokens, which is what `spacing_hint` then explains.
    assert_eq!(go(&["project:Home Renovation"]), "project:Home Renovation");
}

#[test]
fn a_shell_stripped_spaced_value_is_refused_and_taught_the_quoted_spelling() {
    let tags = ["needs paint".to_string()];
    let ctx = MatchCtx {
        status: Status::Pending,
        project: Some("Home Renovation"),
        tags: &tags,
        due: None,
        completed: None,
        blocked: false,
    };
    for (stripped, literal) in [
        ("+needs paint", r#"+"needs paint""#),
        ("project:Home Renovation", r#"project:"Home Renovation""#),
    ] {
        assert!(
            Filter::parse(literal, &anchor())
                .expect("the literal form parses")
                .matches(&ctx),
            "{literal:?} must select"
        );
        let err = Filter::parse(stripped, &anchor()).expect_err("{stripped:?} must be refused");
        assert!(
            err.contains(literal),
            "{stripped:?} must name the spelling that works: {err}"
        );
        assert!(err.contains("quote"), "{stripped:?} must say why: {err}");
    }
}

#[test]
fn the_quoting_hint_stays_out_of_filters_it_would_mislead() {
    for input in [
        r#"project:"Home Renovation" Renovation"#,
        "+api Renovation",
        "Renovation",
    ] {
        let err = Filter::parse(input, &anchor()).expect_err("still refused");
        assert!(err.contains("unknown filter token"), "{input:?}: {err}");
    }
    // Only the first of those three is about a quoted value; the middle one
    // legitimately DOES get the hint (`+"api Renovation"`), so pin the two
    // that must not.
    for input in [r#"project:"Home Renovation" Renovation"#, "Renovation"] {
        let err = Filter::parse(input, &anchor()).expect_err("still refused");
        assert!(
            !err.contains("did you mean"),
            "{input:?} must not be hinted at: {err}"
        );
    }
}

#[test]
fn a_quoted_value_carries_spaces_parens_and_quotes_through_to_matching() {
    for name in [
        "Home Renovation",
        "a (b)",
        "say \"hi\"",
        "back\\slash",
        "  padded  ",
    ] {
        let f = parsed(&format!("project:{}", quote(name)));
        let ctx = MatchCtx {
            status: Status::Pending,
            project: Some(name),
            tags: &[],
            due: None,
            completed: None,
            blocked: false,
        };
        assert!(
            f.matches(&ctx),
            "project:{name:?} must match its own project"
        );
        // Load-bearing: without it, a filter that lost everything after the
        // first space would still "pass" against a project named `Home`.
        let other = MatchCtx {
            project: Some("Home"),
            ..ctx
        };
        assert!(
            !f.matches(&other),
            "project:{name:?} must not match a mere prefix"
        );
    }
}

#[test]
fn a_quoted_tag_value_round_trips_through_include_and_exclude() {
    let name = "needs paint";
    let tags: Vec<String> = vec![name.to_string()];
    let none: Vec<String> = vec![];
    assert!(parsed(&format!("+{}", quote(name))).matches(&ctx_tagged(&tags)));
    assert!(!parsed(&format!("+{}", quote(name))).matches(&ctx_tagged(&none)));
    assert!(!parsed(&format!("-{}", quote(name))).matches(&ctx_tagged(&tags)));
    assert!(parsed(&format!("-{}", quote(name))).matches(&ctx_tagged(&none)));
}

#[test]
fn quoting_suppresses_grouping_and_keyword_meaning() {
    let ctx = MatchCtx {
        status: Status::Done,
        project: Some("a (b) or c"),
        tags: &[],
        due: None,
        completed: None,
        blocked: false,
    };
    // The whole value is one predicate: if `(`, `)` or `or` kept their
    // meaning this is a different — and matching — filter tree.
    let f = parsed(&format!("project:{} and status:done", quote("a (b) or c")));
    assert!(f.matches(&ctx));
    // And the unquoted spelling must NOT quietly do something plausible.
    assert!(Filter::parse("project:a (b) or c and status:done", &anchor()).is_err());
}

#[test]
fn an_unterminated_quote_is_refused() {
    for bad in ["project:\"Home", "project:\"", "+\"a b", "project:\"a\\"] {
        let err = Filter::parse(bad, &anchor()).unwrap_err();
        assert!(
            err.contains("unterminated"),
            "{bad:?} must be refused as unterminated, got {err:?}"
        );
    }
}

#[test]
fn quote_round_trips_every_value_through_the_parser() {
    for v in [
        "plain",
        "two words",
        "a (b)",
        "quote\"inside",
        "back\\slash",
        "\\",
        "\"",
        "",
        "and",
        "or",
        "(",
        ")",
        "+tag",
        "project:x",
        "tab\there",
    ] {
        let f = Filter::parse(&format!("project:{}", quote(v)), &anchor())
            .unwrap_or_else(|e| panic!("quote({v:?}) must parse back: {e}"));
        let ctx = MatchCtx {
            status: Status::Pending,
            project: Some(v),
            tags: &[],
            due: None,
            completed: None,
            blocked: false,
        };
        assert!(f.matches(&ctx), "quote({v:?}) did not round trip");
    }
}

#[test]
fn split_words_reads_back_everything_quote_can_emit() {
    for v in [
        "plain",
        "two words",
        "a (b)",
        "quote\"inside",
        "back\\slash",
        "\\",
        "\"",
        "",
        "and",
        "or",
        "(",
        ")",
        "+tag",
        "project:x",
        "tab\there",
    ] {
        let src = format!("project:{}", quote(v));
        let words = split_words(&src, "task text")
            .unwrap_or_else(|e| panic!("quote({v:?}) must scan on the write side: {e}"));
        assert_eq!(words.len(), 1, "quote({v:?}) must stay ONE word: {src}");
        assert_eq!(
            words[0].text,
            format!("project:{v}"),
            "quote({v:?}) lost its value"
        );
        assert!(words[0].quoted, "quote({v:?}) is quoted by construction");
    }
}

#[test]
fn parens_break_tokens_only_on_the_read_side() {
    let words = split_words("call (mom)", "task text").expect("scans");
    let texts: Vec<&str> = words.iter().map(|w| w.text.as_str()).collect();
    assert_eq!(
        texts,
        ["call", "(mom)"],
        "a paren is ordinary text in a title"
    );

    let toks = scan("call (mom)", Parens::Break, "filter").expect("scans");
    let texts: Vec<&str> = toks.iter().map(|t| t.text.as_str()).collect();
    assert_eq!(
        texts,
        ["call", "(", "mom", ")"],
        "but grouping on the read side"
    );
}

#[test]
fn an_unterminated_quote_is_refused_and_names_its_surface() {
    // `.err()` rather than `expect_err`, which would demand Debug on the
    // success type purely to serve a test.
    let e = split_words("+say\"hi", "task text")
        .err()
        .expect("must be refused");
    assert!(e.contains("unterminated") && e.contains("task text"), "{e}");
    let e = scan("+say\"hi", Parens::Break, "filter").err().expect("must be refused");
    assert!(e.contains("unterminated") && e.contains("filter"), "{e}");
}

#[test]
fn a_doubled_dash_is_rejected_rather_than_matching_everything() {
    let err =
        Filter::parse("--json", &anchor()).expect_err("`--json` is a flag, not a tag exclusion");
    assert!(
        err.contains("--json"),
        "the error must name what was typed: {err}"
    );
    assert!(
        err.contains("-tag"),
        "and point at the shape that works: {err}"
    );

    let f = Filter::parse("-needs", &anchor()).expect("one dash is still a tag exclusion");
    let tagged = vec!["needs".to_string()];
    fn ctx(tags: &[String]) -> MatchCtx<'_> {
        MatchCtx {
            status: Status::Pending,
            project: None,
            tags,
            due: None,
            completed: None,
            blocked: false,
        }
    }
    assert!(
        !f.matches(&ctx(&tagged)),
        "-needs must exclude the tagged task"
    );
    assert!(f.matches(&ctx(&[])), "-needs must keep everything else");
}


fn referenced_symbols(text: &str) -> Vec<String> {
    let mut out = Vec::new();
    for line in text.lines() {
        let line = line.split('#').next().unwrap_or("");
        let rhs = line.split_once(":=").map_or(line, |(_, r)| r);
        // Drop `"literal"` runs so a terminal is never mistaken for a symbol.
        let mut outside = String::new();
        let mut in_quote = false;
        for c in rhs.chars() {
            if c == '"' {
                in_quote = !in_quote;
                outside.push(' ');
            } else if !in_quote {
                outside.push(c);
            }
        }
        for word in outside.split(|c: char| !c.is_ascii_alphanumeric()) {
            let is_symbol = word.len() >= 2
                && word.starts_with(|c: char| c.is_ascii_uppercase())
                && word
                    .chars()
                    .all(|c| c.is_ascii_uppercase() || c.is_ascii_digit());
            if is_symbol {
                out.push(word.to_string());
            }
        }
    }
    out.sort();
    out.dedup();
    out
}

fn defined_symbols(text: &str) -> Vec<String> {
    text.lines()
        .filter_map(|l| l.split_once(":=").map(|(lhs, _)| lhs.trim().to_string()))
        .collect()
}

#[test]
fn the_grammar_defines_every_symbol_it_uses() {
    let text = grammar();
    let defined = defined_symbols(text);
    let missing: Vec<String> = referenced_symbols(text)
        .into_iter()
        .filter(|s| !defined.contains(s))
        .collect();
    assert!(
        missing.is_empty(),
        "grammar uses undefined symbol(s) {missing:?}:\n{text}"
    );
}

#[test]
fn every_value_taking_predicate_is_written_as_taking_a_value() {
    let text = grammar();
    for (prefix, value) in [
        ("+", "two words"),
        ("-", "two words"),
        ("project:", "two words"),
        ("status:", "pending"),
    ] {
        let filter = format!("{prefix}\"{value}\"");
        Filter::parse(&filter, &anchor())
            .unwrap_or_else(|e| panic!("the parser accepts {filter:?}, so: {e}"));
        let line = text
            .lines()
            .find(|l| l.contains(&format!("\"{prefix}\"")))
            .unwrap_or_else(|| panic!("no grammar line for the {prefix:?} predicate:\n{text}"));
        assert!(
            line.contains("VALUE"),
            "{prefix:?} takes a quoted value but the grammar says otherwise: {line}"
        );
    }
}

#[test]
fn deep_nesting_is_refused_rather_than_overflowing_the_stack() {
    let err = Filter::parse(&"(".repeat(100_000), &anchor())
        .expect_err("100k nested groups must be refused, not parsed");
    assert!(
        err.contains("nest") && err.contains(&MAX_NESTING.to_string()),
        "the refusal must name nesting and the cap, got {err:?}"
    );
    // The unclosed-`(` check must not shadow it: a *closed* nest is equally
    // fatal and equally refused, so the cap is what is being asserted here
    // rather than the balance check that happens to sit on the same path.
    let closed = format!("{}@working{}", "(".repeat(100_000), ")".repeat(100_000));
    let err = Filter::parse(&closed, &anchor())
        .expect_err("a balanced 100k-deep nest is still too deep");
    assert!(
        err.contains("nest"),
        "a balanced deep nest must be refused for nesting, not for balance, got {err:?}"
    );
}

#[test]
fn nesting_up_to_the_cap_still_parses_and_groups() {
    let deep = format!(
        "{}project:home{}",
        "(".repeat(MAX_NESTING as usize),
        ")".repeat(MAX_NESTING as usize)
    );
    let ctx = MatchCtx {
        status: Status::Pending,
        project: Some("home"),
        tags: &[],
        due: None,
        completed: None,
        blocked: false,
    };
    // Parses AND still means what it says: a cap that quietly truncated the
    // tree would also "parse".
    assert!(parsed(&deep).matches(&ctx));
    assert!(!parsed(&deep).matches(&ctx_for(Status::Pending)));

    let over = format!(
        "{}project:home{}",
        "(".repeat(MAX_NESTING as usize + 1),
        ")".repeat(MAX_NESTING as usize + 1)
    );
    assert!(
        Filter::parse(&over, &anchor()).is_err(),
        "one group past the cap must be refused, or the cap is not the cap"
    );
}

#[test]
fn sibling_groups_do_not_accumulate_depth() {
    let flat = vec!["(project:home)"; 5_000].join(" or ");
    let ctx = MatchCtx {
        status: Status::Pending,
        project: Some("home"),
        tags: &[],
        due: None,
        completed: None,
        blocked: false,
    };
    // Not through `parsed`: its panic message echoes the filter, and this
    // one is 70 KB of `(project:home)`.
    let f = Filter::parse(&flat, &anchor())
        .unwrap_or_else(|e| panic!("5000 sibling groups nest one deep, so: {e}"));
    assert!(f.matches(&ctx));
}
