//! Why a request is refused.
use vstd::prelude::*;

use crate::text::{is_text, optional_text};

verus! {

/// A failure that the database reported: its SQLSTATE code, where it gave one, and its
/// message.
pub struct DbFailure {
    pub code: Option<String>,
    pub message: String,
}

/// The value of a [`DbFailure`].
pub struct DbFailureView {
    pub code: Option<Seq<char>>,
    pub message: Seq<char>,
}

impl View for DbFailure {
    type V = DbFailureView;

    open spec fn view(&self) -> DbFailureView {
        DbFailureView { code: optional_text(self.code), message: self.message@ }
    }
}

impl DbFailureView {
    /// A unique index refused a row.
    pub open spec fn is_unique_violation(self) -> bool {
        self.code == Some("23505"@)
    }

    /// A foreign key names a row that is not there.
    pub open spec fn is_foreign_key_violation(self) -> bool {
        self.code == Some("23503"@)
    }
}

/// A failure by which a unique index refuses a row.
pub open spec fn unique_violation() -> DbFailureView {
    DbFailureView { code: Some("23505"@), message: "duplicate key value"@ }
}

/// A failure by which a foreign key refuses a row.
pub open spec fn foreign_key_violation() -> DbFailureView {
    DbFailureView { code: Some("23503"@), message: "no such row"@ }
}

impl DbFailure {
    /// Whether a unique index refused a row.
    pub fn is_unique_violation(&self) -> (res: bool)
        ensures
            res == self@.is_unique_violation(),
    {
        is_text(&self.code, "23505")
    }

    /// Whether a foreign key names a row that is not there.
    pub fn is_foreign_key_violation(&self) -> (res: bool)
        ensures
            res == self@.is_foreign_key_violation(),
    {
        is_text(&self.code, "23503")
    }
}

/// Why a request is refused.
pub enum AppError {
    /// The request is understood and not acceptable.
    Unprocessable(String),
    /// What the request names is not there.
    NotFound(String),
    /// The request contradicts the present state.
    Conflict(String),
    /// The database failed.
    Database(DbFailure),
}

/// The value of an [`AppError`].
pub enum AppErrorView {
    Unprocessable(Seq<char>),
    NotFound(Seq<char>),
    Conflict(Seq<char>),
    Database(DbFailureView),
}

impl View for AppError {
    type V = AppErrorView;

    open spec fn view(&self) -> AppErrorView {
        match self {
            AppError::Unprocessable(message) => AppErrorView::Unprocessable(message@),
            AppError::NotFound(message) => AppErrorView::NotFound(message@),
            AppError::Conflict(message) => AppErrorView::Conflict(message@),
            AppError::Database(failure) => AppErrorView::Database(failure@),
        }
    }
}

impl AppErrorView {
    /// The HTTP status that answers a refused request.
    pub open spec fn status_code(self) -> u16 {
        match self {
            AppErrorView::Unprocessable(_) => 422,
            AppErrorView::NotFound(_) => 404,
            AppErrorView::Conflict(_) => 409,
            AppErrorView::Database(_) => 500,
        }
    }

    /// The code by which the body of the answer names the refusal.
    pub open spec fn code(self) -> Seq<char> {
        match self {
            AppErrorView::Unprocessable(_) => "invalid_request"@,
            AppErrorView::NotFound(_) => "not_found"@,
            AppErrorView::Conflict(_) => "conflict"@,
            AppErrorView::Database(_) => "internal_error"@,
        }
    }
}

impl AppError {
    /// The HTTP status that answers a refused request.
    pub fn status_code(&self) -> (res: u16)
        ensures
            res == self@.status_code(),
    {
        match self {
            AppError::Unprocessable(_) => 422,
            AppError::NotFound(_) => 404,
            AppError::Conflict(_) => 409,
            AppError::Database(_) => 500,
        }
    }

    /// The code by which the body of the answer names the refusal.
    pub fn code(&self) -> (res: &'static str)
        ensures
            res@ == self@.code(),
    {
        match self {
            AppError::Unprocessable(_) => "invalid_request",
            AppError::NotFound(_) => "not_found",
            AppError::Conflict(_) => "conflict",
            AppError::Database(_) => "internal_error",
        }
    }
}

/// A refusal is answered with its HTTP status and its code.
pub proof fn refusals_are_answered_by_kind(message: Seq<char>, failure: DbFailureView)
    ensures
        AppErrorView::Unprocessable(message).status_code() == 422,
        AppErrorView::Unprocessable(message).code() == "invalid_request"@,
        AppErrorView::NotFound(message).status_code() == 404,
        AppErrorView::NotFound(message).code() == "not_found"@,
        AppErrorView::Conflict(message).status_code() == 409,
        AppErrorView::Conflict(message).code() == "conflict"@,
        AppErrorView::Database(failure).status_code() == 500,
        AppErrorView::Database(failure).code() == "internal_error"@,
{
}

/// The failures of the database are told apart by their SQLSTATE.
pub proof fn failures_go_by_their_code(failure: DbFailureView)
    ensures
        failure.is_unique_violation() <==> failure.code == Some("23505"@),
        failure.is_foreign_key_violation() <==> failure.code == Some("23503"@),
{
}

/// Nothing of a failure or a refusal is lost in its value.
pub proof fn errors_are_shown_whole(failure: DbFailure, message: String)
    ensures
        failure@.message == failure.message@,
        failure.code matches Some(code) ==> failure@.code == Some(code@),
        failure.code is None ==> failure@.code is None,
        AppError::Unprocessable(message)@ == AppErrorView::Unprocessable(message@),
        AppError::NotFound(message)@ == AppErrorView::NotFound(message@),
        AppError::Conflict(message)@ == AppErrorView::Conflict(message@),
        AppError::Database(failure)@ == AppErrorView::Database(failure@),
{
}

} // verus!
