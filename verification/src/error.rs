//! Why a publish request is turned down.

use crate::response::{
    bare_response, HttpResponseSnapshot, ResponseView, BAD_REQUEST, INTERNAL_SERVER_ERROR,
    UNAUTHORIZED,
};
use vstd::prelude::*;
use vstd::string::*;

verus! {

/// The failures of a publish request. Each carries a text that says what went
/// wrong; the client only sees the status.
#[derive(Debug, PartialEq, Eq)]
pub enum PublishError {
    /// A form field or the idempotency key is missing or empty.
    ValidationError(String),
    /// The request carries no authenticated user.
    AuthError(String),
    /// Anything else, such as a durable write that failed.
    UnexpectedError(String),
}

/// The mathematical value of a [`PublishError`].
pub enum PublishErrorView {
    ValidationError(Seq<char>),
    AuthError(Seq<char>),
    UnexpectedError(Seq<char>),
}

impl View for PublishError {
    type V = PublishErrorView;

    open spec fn view(&self) -> PublishErrorView {
        match self {
            PublishError::ValidationError(cause) => PublishErrorView::ValidationError(cause@),
            PublishError::AuthError(cause) => PublishErrorView::AuthError(cause@),
            PublishError::UnexpectedError(cause) => PublishErrorView::UnexpectedError(cause@),
        }
    }
}

impl Clone for PublishError {
    fn clone(&self) -> (copy: PublishError)
        ensures
            copy@ == self@,
    {
        match self {
            PublishError::ValidationError(cause) => PublishError::ValidationError(cause.clone()),
            PublishError::AuthError(cause) => PublishError::AuthError(cause.clone()),
            PublishError::UnexpectedError(cause) => PublishError::UnexpectedError(cause.clone()),
        }
    }
}

impl PublishErrorView {
    /// The status that reports the error: 400, 401 or 500.
    pub open spec fn status_code(self) -> u16 {
        match self {
            PublishErrorView::ValidationError(_) => BAD_REQUEST,
            PublishErrorView::AuthError(_) => UNAUTHORIZED,
            PublishErrorView::UnexpectedError(_) => INTERNAL_SERVER_ERROR,
        }
    }

    /// The response that reports the error: its status and nothing else.
    pub open spec fn response(self) -> ResponseView {
        bare_response(self.status_code())
    }

    /// The error in words.
    pub open spec fn text(self) -> Seq<char> {
        match self {
            PublishErrorView::ValidationError(cause) => cause,
            PublishErrorView::AuthError(_) => "Authentication failed"@,
            PublishErrorView::UnexpectedError(cause) => cause,
        }
    }
}

impl PublishError {
    /// The response that reports the error to the client.
    pub fn error_response(&self) -> (response: HttpResponseSnapshot)
        ensures
            response@ == self@.response(),
    {
        match self {
            PublishError::ValidationError(_) => HttpResponseSnapshot::new(BAD_REQUEST),
            PublishError::AuthError(_) => HttpResponseSnapshot::new(UNAUTHORIZED),
            PublishError::UnexpectedError(_) => HttpResponseSnapshot::new(INTERNAL_SERVER_ERROR),
        }
    }

    /// The error in words: a fixed sentence for a failed authentication, the
    /// cause itself otherwise.
    pub fn to_text(&self) -> (text: String)
        ensures
            text@ == self@.text(),
    {
        match self {
            PublishError::ValidationError(cause) => cause.clone(),
            PublishError::AuthError(_) => "Authentication failed".to_owned(),
            PublishError::UnexpectedError(cause) => cause.clone(),
        }
    }
}

} // verus!
