//! Front matter.

use tasqx_core::frontmatter::{flatten, split};

#[test]
fn a_body_with_no_frontmatter_is_untouched() {
    let (pairs, rest) = split("Just prose, no fence.");
    assert!(pairs.is_empty());
    assert_eq!(rest, "Just prose, no fence.");
    assert!(matches!(
        flatten("Just prose, no fence."),
        std::borrow::Cow::Borrowed(_)
    ));
}

#[test]
fn a_bare_leading_rule_with_no_close_is_not_frontmatter() {
    let body = "---\nThis never closes.";
    let (pairs, rest) = split(body);
    assert!(pairs.is_empty(), "{pairs:?}");
    assert_eq!(rest, body);
    assert_eq!(flatten(body), body);
}

#[test]
fn a_real_fence_splits_into_pairs_and_rest() {
    let body = "---\ndescription: How an SDK release is cut\n---\nCut the branch.";
    let (pairs, rest) = split(body);
    assert_eq!(pairs, vec![("description", "How an SDK release is cut")]);
    assert_eq!(rest, "Cut the branch.");
}

#[test]
fn a_quoted_value_loses_its_wrapping_quote() {
    let body = "---\nname: \"vh-mcp\"\n---\nBody.";
    let (pairs, _) = split(body);
    assert_eq!(pairs, vec![("name", "vh-mcp")]);
}

#[test]
fn flatten_turns_the_fence_into_key_two_spaces_value_lines() {
    let body = "---\ndescription: How an SDK release is cut\n---\nCut the branch.";
    assert_eq!(
        flatten(body),
        "description  How an SDK release is cut\n\nCut the branch."
    );
}

#[test]
fn flatten_keeps_every_pair_in_source_order() {
    let body = "---\nname: deploy\nauthor: infra\n---\nBody.";
    assert_eq!(flatten(body), "name  deploy\nauthor  infra\n\nBody.");
}

#[test]
fn a_colonless_line_inside_the_fence_contributes_no_pair() {
    let body = "---\njust text, no colon\nname: deploy\n---\nBody.";
    let (pairs, _) = split(body);
    assert_eq!(pairs, vec![("name", "deploy")]);
}

#[test]
fn only_one_wrapping_quote_comes_off_each_side() {
    let (pairs, _) = split("---\nname: \"\"twice\"\"\nonly: \"left\nlone: \"\n---\nBody.");
    assert_eq!(
        pairs,
        vec![("name", "\"twice\""), ("only", "\"left"), ("lone", "\"")]
    );
}

#[test]
fn what_follows_the_fence_is_the_end_of_the_body() {
    let body = "---\na: b\n---\nfirst\n\nlast\n";
    let (_, rest) = split(body);
    assert!(body.ends_with(rest));
    assert_eq!(rest, "first\n\nlast\n");
}

#[test]
fn flattening_twice_is_flattening_once() {
    for body in [
        "---\nname: deploy\nauthor: infra\n---\nBody.",
        "---\n---: x\n---\n---\nname: y\n---\n",
        "---\n: x\n---\nBody.",
        "---\nnever closed",
        "prose",
    ] {
        let once = flatten(body).into_owned();
        assert_eq!(flatten(&once), once);
    }
    assert_eq!(
        flatten("---\n---: x\n---\n---\nname: y\n---\n"),
        "---  x\n\n---\nname: y\n---\n"
    );
}
