//! Error codes and errors.

use tasqx_core::error::{ApiError, ErrorBody, ErrorCode};
use tasqx_core::json::Json;

fn wire_name(code: ErrorCode) -> &'static str {
    match code {
        ErrorCode::BadRequest => "bad_request",
        ErrorCode::NotFound => "not_found",
        ErrorCode::Conflict => "conflict",
        ErrorCode::UnsupportedVersion => "unsupported_version",
        ErrorCode::Internal => "internal",
    }
}

const ALL: [ErrorCode; 5] = [
    ErrorCode::BadRequest,
    ErrorCode::NotFound,
    ErrorCode::Conflict,
    ErrorCode::UnsupportedVersion,
    ErrorCode::Internal,
];

#[test]
fn all_lists_every_code_exactly_once() {
    let mut seen: Vec<&str> = ALL.iter().map(|c| c.as_str()).collect();
    let before = seen.len();
    seen.sort_unstable();
    seen.dedup();
    assert_eq!(seen.len(), before, "ALL contains a duplicate");
    assert_eq!(before, 5, "ALL must list every variant");
}

#[test]
fn as_str_matches_the_serialized_wire_name() {
    for code in ALL {
        assert_eq!(code.as_str(), wire_name(code), "wrong name for {code:?}");
        let body = ErrorBody::of(&ApiError::new(code, "m".to_string(), None)).to_json();
        assert_eq!(body.get("code").and_then(|c| c.as_str()), Some(code.as_str()));
    }
}

#[test]
fn display_carries_the_code_and_message_without_debug_noise() {
    let e = ApiError::new(
        ErrorCode::Conflict,
        "version mismatch".to_string(),
        Some(Json::Obj(vec![("expected".to_string(), Json::Int(3))])),
    );
    assert_eq!(e.to_text(), "conflict: version mismatch");
    assert!(
        format!("{e:?}").contains("ApiError"),
        "Debug must stay structural"
    );
}

#[test]
fn every_code_has_its_own_exit_code() {
    assert_eq!(ALL.map(|c| c.exit_code()), [2, 4, 5, 6, 1]);
}

#[test]
fn the_body_has_data_only_where_there_is_some() {
    let bare = ErrorBody::of(&ApiError::conflict("m".to_string())).to_json();
    assert_eq!(bare.as_object().map(|m| m.len()), Some(2));
    let full = ErrorBody::of(&ApiError::not_found("m".to_string(), Some(Json::Int(3)))).to_json();
    assert_eq!(full.get("data"), Some(&Json::Int(3)));
    assert_eq!(ApiError::storage("locked").message, "storage error: locked");
    let bad = ApiError::invalid_json("eof");
    assert_eq!((bad.exit_code(), bad.message.as_str()), (2, "invalid JSON params: eof"));
}
