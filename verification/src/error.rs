//! Failure kinds of the encode and decode operations.

use vstd::prelude::*;

verus! {

/// Why an operation failed.
#[derive(Debug, Clone, PartialEq, Eq)]
pub enum ApiError {
    /// The input is malformed; the text says how.
    BadRequest(String),
    /// The code is well formed but no mapping carries it.
    NotFound,
    /// The identity needs more than five base-62 digits.
    Exhausted,
    /// The store failed; the text is its own account, for the operator only.
    Store(String),
}

/// Mathematical reading of an [`ApiError`].
pub enum ErrorView {
    BadRequest(Seq<char>),
    NotFound,
    Exhausted,
    Store(Seq<char>),
}

impl View for ApiError {
    type V = ErrorView;

    open spec fn view(&self) -> ErrorView {
        match self {
            ApiError::BadRequest(m) => ErrorView::BadRequest(m@),
            ApiError::NotFound => ErrorView::NotFound,
            ApiError::Exhausted => ErrorView::Exhausted,
            ApiError::Store(d) => ErrorView::Store(d@),
        }
    }
}

/// Mathematical reading of an operation's outcome.
pub open spec fn outcome_view(r: Result<String, ApiError>) -> Result<Seq<char>, ErrorView> {
    match r {
        Ok(s) => Ok(s@),
        Err(e) => Err(e@),
    }
}

pub const STATUS_BAD_REQUEST: u16 = 400;

pub const STATUS_NOT_FOUND: u16 = 404;

pub const STATUS_INTERNAL_SERVER_ERROR: u16 = 500;

pub const STATUS_INSUFFICIENT_STORAGE: u16 = 507;

impl ErrorView {
    /// The full description of the failure.
    pub open spec fn message(self) -> Seq<char> {
        match self {
            ErrorView::BadRequest(m) => m,
            ErrorView::NotFound => "not found"@,
            ErrorView::Exhausted => "short code space exhausted (max 5 base62 chars)"@,
            ErrorView::Store(d) => d,
        }
    }

    /// The status code a transport reports for the failure.
    pub open spec fn status(self) -> u16 {
        match self {
            ErrorView::BadRequest(_) => STATUS_BAD_REQUEST,
            ErrorView::NotFound => STATUS_NOT_FOUND,
            ErrorView::Exhausted => STATUS_INSUFFICIENT_STORAGE,
            ErrorView::Store(_) => STATUS_INTERNAL_SERVER_ERROR,
        }
    }

    /// The text a client is shown: the description, except that a store
    /// failure is reported without its detail.
    pub open spec fn public_message(self) -> Seq<char> {
        match self {
            ErrorView::Store(_) => "internal error"@,
            _ => self.message(),
        }
    }
}

impl ApiError {
    /// The full description of the failure.
    pub fn message(&self) -> (text: String)
        ensures
            text@ == self@.message(),
    {
        match self {
            ApiError::BadRequest(m) => m.clone(),
            ApiError::NotFound => "not found".to_owned(),
            ApiError::Exhausted => "short code space exhausted (max 5 base62 chars)".to_owned(),
            ApiError::Store(d) => d.clone(),
        }
    }

    /// The status code and the client-visible text of the failure.
    pub fn response_parts(&self) -> (parts: (u16, String))
        ensures
            parts.0 == self@.status(),
            parts.1@ == self@.public_message(),
    {
        match self {
            ApiError::BadRequest(m) => (STATUS_BAD_REQUEST, m.clone()),
            ApiError::NotFound => (STATUS_NOT_FOUND, "not found".to_owned()),
            ApiError::Exhausted => (STATUS_INSUFFICIENT_STORAGE, self.message()),
            ApiError::Store(_) => (STATUS_INTERNAL_SERVER_ERROR, "internal error".to_owned()),
        }
    }
}

} // verus!
