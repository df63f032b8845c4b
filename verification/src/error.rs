//! Structured API errors: an HTTP status and a JSON body.
use vstd::prelude::*;

use crate::json::{entries_map, json_view, Json, JsonValue};

verus! {

/// HTTP 400.
pub const BAD_REQUEST: u16 = 400;

/// HTTP 404.
pub const NOT_FOUND: u16 = 404;

/// HTTP 500.
pub const INTERNAL_SERVER_ERROR: u16 = 500;

/// HTTP 502.
pub const BAD_GATEWAY: u16 = 502;

/// The view of an [`ApiError`].
pub struct ApiErrorView {
    pub status: u16,
    pub error: Seq<char>,
    pub details: Option<Seq<char>>,
}

/// An error answered to an API request: its status code, a message and,
/// optionally, details.
#[derive(Debug)]
pub struct ApiError {
    pub status: u16,
    pub error: String,
    pub details: Option<String>,
}

impl View for ApiError {
    type V = ApiErrorView;

    open spec fn view(&self) -> ApiErrorView {
        ApiErrorView {
            status: self.status,
            error: self.error@,
            details: match self.details {
                Some(d) => Some(d@),
                None => None,
            },
        }
    }
}

/// The error with `status` and message `error`, without details.
pub open spec fn error_view(status: u16, error: Seq<char>) -> ApiErrorView {
    ApiErrorView { status, error, details: None }
}

/// The JSON body of an error: `{"error": ..}`, with `"details"` when there are
/// details.
pub open spec fn error_body(e: ApiErrorView) -> Json {
    match e.details {
        Some(d) => Json::Object(
            Map::empty().insert("error"@, Json::Str(e.error)).insert("details"@, Json::Str(d)),
        ),
        None => Json::Object(Map::empty().insert("error"@, Json::Str(e.error))),
    }
}

impl ApiError {
    /// An error with `status` and message `error`, without details.
    pub fn new(status: u16, error: String) -> (r: ApiError)
        ensures
            r@ == error_view(status, error@),
    {
        ApiError { status, error, details: None }
    }

    /// An error with `status`, message `error` and `details`.
    pub fn with_details(status: u16, error: String, details: String) -> (r: ApiError)
        ensures
            r@ == (ApiErrorView { status, error: error@, details: Some(details@) }),
    {
        ApiError { status, error, details: Some(details) }
    }

    /// 404, "`resource` not found".
    pub fn not_found(resource: &str) -> (r: ApiError)
        ensures
            r@ == error_view(NOT_FOUND, resource@ + " not found"@),
    {
        let mut message = resource.to_string();
        message.append(" not found");
        Self::new(NOT_FOUND, message)
    }

    /// 400 with message `error`.
    pub fn bad_request(error: String) -> (r: ApiError)
        ensures
            r@ == error_view(BAD_REQUEST, error@),
    {
        Self::new(BAD_REQUEST, error)
    }

    /// 500 with message `error`.
    pub fn internal_error(error: String) -> (r: ApiError)
        ensures
            r@ == error_view(INTERNAL_SERVER_ERROR, error@),
    {
        Self::new(INTERNAL_SERVER_ERROR, error)
    }

    /// 502 with message `error`.
    pub fn bad_gateway(error: String) -> (r: ApiError)
        ensures
            r@ == error_view(BAD_GATEWAY, error@),
    {
        Self::new(BAD_GATEWAY, error)
    }

    /// The JSON body answered with the error.
    pub fn body(&self) -> (r: JsonValue)
        ensures
            r@ == error_body(self@),
    {
        let mut entries: Vec<(String, JsonValue)> = Vec::new();
        entries.push(("error".to_string(), JsonValue::String(self.error.clone())));
        proof {
            reveal_strlit("error");
            reveal_strlit("details");
            assert(entries@.drop_last() =~= Seq::<(String, JsonValue)>::empty());
            assert(entries_map(entries@.drop_last()) =~= Map::<Seq<char>, Json>::empty());
            assert(entries@[0].0@ == "error"@);
            assert(json_view(entries@[0].1) == Json::Str(self.error@));
            assert(entries_map(entries@) =~= Map::empty().insert("error"@, Json::Str(self.error@)));
        }
        match &self.details {
            Some(d) => {
                let ghost first = entries@;
                entries.push(("details".to_string(), JsonValue::String(d.clone())));
                assert(entries@.drop_last() =~= first);
                assert(entries_map(first) =~= Map::empty().insert("error"@, Json::Str(self.error@)));
                assert(entries@.last().0@ == "details"@);
                assert(json_view(entries@.last().1) == Json::Str(d@));
                assert(entries_map(entries@) =~= Map::empty().insert("error"@, Json::Str(self.error@)).insert(
                    "details"@,
                    Json::Str(d@),
                ));
            },
            None => {},
        }
        JsonValue::Object(entries)
    }

    /// A copy of the error.
    pub fn duplicate(&self) -> (r: ApiError)
        ensures
            r@ == self@,
    {
        ApiError {
            status: self.status,
            error: self.error.clone(),
            details: match &self.details {
                Some(d) => Some(d.clone()),
                None => None,
            },
        }
    }
}

} // verus!
