//! The errors the library answers with.
//!
//! Every failure carries one of five stable codes. The code is what a caller
//! may branch on; the message is for people.

use crate::json::Json;
use crate::json::JsonV;
use vstd::prelude::*;

verus! {

broadcast use vstd::string::group_string_axioms;

/// Stable, machine-first error codes.
#[derive(Debug, Clone, Copy, PartialEq, Eq, Structural)]
pub enum ErrorCode {
    /// Malformed params or failed validation, and refused permission.
    BadRequest,
    /// The entity named does not exist.
    NotFound,
    /// A stale revision, a dependency cycle, a duplicate.
    Conflict,
    /// The client's major version is not served.
    UnsupportedVersion,
    /// A fault inside; safe to report and retry.
    Internal,
}

impl ErrorCode {
    /// The process exit code of an error with this code.
    pub open spec fn spec_exit_code(self) -> i32 {
        match self {
            ErrorCode::BadRequest => 2,
            ErrorCode::NotFound => 4,
            ErrorCode::Conflict => 5,
            ErrorCode::UnsupportedVersion => 6,
            ErrorCode::Internal => 1,
        }
    }

    /// The wire name of this code.
    pub open spec fn name(self) -> Seq<char> {
        match self {
            ErrorCode::BadRequest => "bad_request"@,
            ErrorCode::NotFound => "not_found"@,
            ErrorCode::Conflict => "conflict"@,
            ErrorCode::UnsupportedVersion => "unsupported_version"@,
            ErrorCode::Internal => "internal"@,
        }
    }

    /// The process exit code: 2 for a bad request, 4 for not found, 5 for a
    /// conflict, 6 for an unsupported version, 1 for an internal fault.
    pub fn exit_code(self) -> (r: i32)
        ensures
            r == self.spec_exit_code(),
    {
        match self {
            ErrorCode::BadRequest => 2,
            ErrorCode::NotFound => 4,
            ErrorCode::Conflict => 5,
            ErrorCode::UnsupportedVersion => 6,
            ErrorCode::Internal => 1,
        }
    }

    /// The stable wire name.
    pub fn as_str(self) -> (r: &'static str)
        ensures
            r@ == self.name(),
    {
        match self {
            ErrorCode::BadRequest => "bad_request",
            ErrorCode::NotFound => "not_found",
            ErrorCode::Conflict => "conflict",
            ErrorCode::UnsupportedVersion => "unsupported_version",
            ErrorCode::Internal => "internal",
        }
    }
}

/// No two codes share a wire name.
pub proof fn names_are_distinct(a: ErrorCode, b: ErrorCode)
    ensures
        a.name() == b.name() ==> a == b,
{
    reveal_strlit("bad_request");
    reveal_strlit("not_found");
    reveal_strlit("conflict");
    reveal_strlit("unsupported_version");
    reveal_strlit("internal");
    assert("not_found"@[0] != "bad_request"@[0]);
    assert("bad_request"@.len() == 11);
    assert("not_found"@.len() == 9);
    assert("conflict"@.len() == 8);
    assert("unsupported_version"@.len() == 19);
    assert("internal"@.len() == 8);
    assert("conflict"@[0] == 'c');
    assert("internal"@[0] == 'i');
}

/// No two codes share an exit code, and none exits with 0.
pub proof fn exit_codes_are_distinct(a: ErrorCode, b: ErrorCode)
    ensures
        a.spec_exit_code() == b.spec_exit_code() ==> a == b,
        a.spec_exit_code() != 0,
{
}

/// What an [`ApiError`] says.
pub ghost struct ErrorV {
    pub code: ErrorCode,
    pub message: Seq<char>,
    pub data: Option<JsonV>,
}

/// An error: its code, a message for people, and optional structured detail.
#[derive(Debug)]
pub struct ApiError {
    pub code: ErrorCode,
    pub message: String,
    pub data: Option<Json>,
}

/// The meaning of an optional value.
pub open spec fn opt_json(j: Option<Json>) -> Option<JsonV> {
    match j {
        Some(j) => Some(j@),
        None => None,
    }
}

impl View for ApiError {
    type V = ErrorV;

    open spec fn view(&self) -> ErrorV {
        ErrorV { code: self.code, message: self.message@, data: opt_json(self.data) }
    }
}

/// A bad request saying `message`.
pub open spec fn bad_request(message: Seq<char>) -> ErrorV {
    ErrorV { code: ErrorCode::BadRequest, message, data: None }
}

/// A conflict saying `message`.
pub open spec fn conflict(message: Seq<char>) -> ErrorV {
    ErrorV { code: ErrorCode::Conflict, message, data: None }
}

/// An internal fault saying `message`.
pub open spec fn internal(message: Seq<char>) -> ErrorV {
    ErrorV { code: ErrorCode::Internal, message, data: None }
}

impl ApiError {
    /// The general constructor.
    pub fn new(code: ErrorCode, message: String, data: Option<Json>) -> (r: ApiError)
        ensures
            r@ == (ErrorV { code, message: message@, data: opt_json(data) }),
    {
        ApiError { code, message, data }
    }

    /// Malformed or invalid params.
    pub fn bad_request(message: String) -> (r: ApiError)
        ensures
            r@ == bad_request(message@),
    {
        ApiError::new(ErrorCode::BadRequest, message, None)
    }

    /// A named entity does not exist; `data` gives the reference back.
    pub fn not_found(message: String, data: Option<Json>) -> (r: ApiError)
        ensures
            r@ == (ErrorV { code: ErrorCode::NotFound, message: message@, data: opt_json(data) }),
    {
        ApiError::new(ErrorCode::NotFound, message, data)
    }

    /// The request collides with the state of the store.
    pub fn conflict(message: String) -> (r: ApiError)
        ensures
            r@ == conflict(message@),
    {
        ApiError::new(ErrorCode::Conflict, message, None)
    }

    /// A fault of the engine or of the storage.
    pub fn internal(message: String) -> (r: ApiError)
        ensures
            r@ == internal(message@),
    {
        ApiError::new(ErrorCode::Internal, message, None)
    }

    /// A storage failure, described by `cause`: an internal fault.
    pub fn storage(cause: &str) -> (r: ApiError)
        ensures
            r@ == internal("storage error: "@ + cause@),
    {
        ApiError::internal("storage error: ".to_owned().concat(cause))
    }

    /// Params that are no JSON, described by `cause`: a bad request.
    pub fn invalid_json(cause: &str) -> (r: ApiError)
        ensures
            r@ == bad_request("invalid JSON params: "@ + cause@),
    {
        ApiError::bad_request("invalid JSON params: ".to_owned().concat(cause))
    }

    /// The exit code of this error's code.
    pub fn exit_code(&self) -> (r: i32)
        ensures
            r == self@.code.spec_exit_code(),
    {
        self.code.exit_code()
    }

    /// `code: message`. The detail is left out.
    pub fn to_text(&self) -> (r: String)
        ensures
            r@ == self@.code.name() + ": "@ + self@.message,
    {
        let mut r: String = self.code.as_str().to_owned();
        r.append(": ");
        r.append(self.message.as_str());
        r
    }
}

/// What an answer says of an error.
#[derive(Debug)]
pub struct ErrorBody {
    pub code: ErrorCode,
    pub message: String,
    pub data: Option<Json>,
}

impl View for ErrorBody {
    type V = ErrorV;

    open spec fn view(&self) -> ErrorV {
        ErrorV { code: self.code, message: self.message@, data: opt_json(self.data) }
    }
}

impl ErrorBody {
    /// The body of an error.
    pub fn of(e: &ApiError) -> (r: ErrorBody)
        ensures
            r@ == e@,
    {
        ErrorBody {
            code: e.code,
            message: e.message.clone(),
            data: match &e.data {
                Some(d) => Some(d.dup()),
                None => None,
            },
        }
    }

    /// The `error` object of an answer; `data` is a member only where there is some.
    pub fn to_json(&self) -> (r: Json)
        ensures
            r@ == error_body(self@),
    {
        let mut f = crate::json::Fields::new();
        f.put("code", Json::string(self.code.as_str()));
        f.put("message", Json::string(self.message.as_str()));
        match &self.data {
            Some(d) => f.put("data", d.dup()),
            None => {},
        }
        assert(f@ =~= error_body(self@)->Obj_0);
        f.done()
    }
}

/// The `error` object of an answer.
pub open spec fn error_body(e: ErrorV) -> JsonV {
    let head = seq![("code"@, JsonV::Str(e.code.name())), ("message"@, JsonV::Str(e.message))];
    JsonV::Obj(
        match e.data {
            Some(d) => head.push(("data"@, d)),
            None => head,
        },
    )
}

} // verus!
