//! Errors that the agent reports: an HTTP status, a machine-readable code,
//! a message, and optional structured details held as JSON text.
use vstd::prelude::*;

use crate::text::owned;

verus! {

/// The body of an error as callers see it.
#[derive(Debug, Clone)]
pub struct ErrorPayload {
    pub code: String,
    pub message: String,
    /// Structured details, as JSON text.
    pub details: Option<String>,
}

/// The mathematical value of an [`ErrorPayload`].
pub struct ErrorPayloadView {
    pub code: Seq<char>,
    pub message: Seq<char>,
    pub details: Option<Seq<char>>,
}

/// The view of an optional string.
pub open spec fn opt_view(s: Option<String>) -> Option<Seq<char>> {
    match s {
        Some(t) => Some(t@),
        None => None,
    }
}

impl View for ErrorPayload {
    type V = ErrorPayloadView;

    open spec fn view(&self) -> ErrorPayloadView {
        ErrorPayloadView { code: self.code@, message: self.message@, details: opt_view(self.details) }
    }
}

/// A copy of an optional string.
pub fn copy_opt_string(s: &Option<String>) -> (out: Option<String>)
    ensures
        opt_view(out) == opt_view(*s),
{
    match s {
        Some(t) => Some(t.clone()),
        None => None,
    }
}

impl ErrorPayload {
    /// A copy of this payload.
    pub fn duplicate(&self) -> (out: ErrorPayload)
        ensures
            out@ == self@,
    {
        ErrorPayload {
            code: self.code.clone(),
            message: self.message.clone(),
            details: copy_opt_string(&self.details),
        }
    }
}

/// An error with the HTTP status it is answered with.
#[derive(Debug, Clone)]
pub struct AppError {
    status: u16,
    payload: ErrorPayload,
}

/// The mathematical value of an [`AppError`].
pub struct AppErrorView {
    pub status: u16,
    pub payload: ErrorPayloadView,
}

impl View for AppError {
    type V = AppErrorView;

    closed spec fn view(&self) -> AppErrorView {
        AppErrorView { status: self.status, payload: self.payload@ }
    }
}

/// The error made of these parts.
pub open spec fn app_error(
    status: u16,
    code: Seq<char>,
    message: Seq<char>,
    details: Option<Seq<char>>,
) -> AppErrorView {
    AppErrorView { status, payload: ErrorPayloadView { code, message, details } }
}

/// A rejected input: 400, `validation_error`.
pub open spec fn validation_error(message: Seq<char>, details: Option<Seq<char>>) -> AppErrorView {
    app_error(400, "validation_error"@, message, details)
}

/// A missing or wrong token: 401, `unauthorized`.
pub open spec fn unauthorized_error() -> AppErrorView {
    app_error(401, "unauthorized"@, "Unauthorized."@, None)
}

/// A refused operation: 403, `forbidden`.
pub open spec fn forbidden_error(message: Seq<char>) -> AppErrorView {
    app_error(403, "forbidden"@, message, None)
}

/// An unknown item: 404, `not_found`.
pub open spec fn not_found_error(message: Seq<char>) -> AppErrorView {
    app_error(404, "not_found"@, message, None)
}

/// A program that could not run or failed: 422, `process_failed`.
pub open spec fn process_failed_error(message: Seq<char>, details: Seq<char>) -> AppErrorView {
    app_error(422, "process_failed"@, message, Some(details))
}

/// A failure of the agent itself: 500, `internal_error`.
pub open spec fn internal_error(message: Seq<char>, details: Option<Seq<char>>) -> AppErrorView {
    app_error(500, "internal_error"@, message, details)
}

impl AppError {
    /// An error with the given status, code, message and details.
    pub fn new(status: u16, code: String, message: String, details: Option<String>) -> (e: AppError)
        ensures
            e@ == app_error(status, code@, message@, opt_view(details)),
    {
        AppError { status, payload: ErrorPayload { code, message, details } }
    }

    /// A rejected input.
    pub fn validation(message: String) -> (e: AppError)
        ensures
            e@ == validation_error(message@, None),
    {
        Self::new(400, owned("validation_error"), message, None)
    }

    /// A rejected input, with details.
    pub fn validation_with_details(message: String, details: String) -> (e: AppError)
        ensures
            e@ == validation_error(message@, Some(details@)),
    {
        Self::new(400, owned("validation_error"), message, Some(details))
    }

    /// A missing or wrong token.
    pub fn unauthorized() -> (e: AppError)
        ensures
            e@ == unauthorized_error(),
    {
        Self::new(401, owned("unauthorized"), owned("Unauthorized."), None)
    }

    /// A refused operation.
    pub fn forbidden(message: String) -> (e: AppError)
        ensures
            e@ == forbidden_error(message@),
    {
        Self::new(403, owned("forbidden"), message, None)
    }

    /// An unknown item.
    pub fn not_found(message: String) -> (e: AppError)
        ensures
            e@ == not_found_error(message@),
    {
        Self::new(404, owned("not_found"), message, None)
    }

    /// A program that could not run or failed.
    pub fn process_failed(message: String, details: String) -> (e: AppError)
        ensures
            e@ == process_failed_error(message@, details@),
    {
        Self::new(422, owned("process_failed"), message, Some(details))
    }

    /// A failure of the agent itself.
    pub fn internal(message: String) -> (e: AppError)
        ensures
            e@ == internal_error(message@, None),
    {
        Self::new(500, owned("internal_error"), message, None)
    }

    /// A failure of the agent itself, with details.
    pub fn internal_with_details(message: String, details: String) -> (e: AppError)
        ensures
            e@ == internal_error(message@, Some(details@)),
    {
        Self::new(500, owned("internal_error"), message, Some(details))
    }

    /// A copy of the error's payload.
    pub fn payload(&self) -> (p: ErrorPayload)
        ensures
            p@ == self@.payload,
    {
        self.payload.duplicate()
    }

    /// The HTTP status of the error.
    pub fn status(&self) -> (s: u16)
        ensures
            s == self@.status,
    {
        self.status
    }

    /// The text the error is displayed as: its message.
    pub fn display_text(&self) -> (s: String)
        ensures
            s@ == self@.payload.message,
    {
        self.payload.message.clone()
    }

    /// A copy of this error.
    pub fn duplicate(&self) -> (e: AppError)
        ensures
            e@ == self@,
    {
        AppError { status: self.status, payload: self.payload.duplicate() }
    }
}

} // verus!
