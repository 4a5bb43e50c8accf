//! Application errors: a kind discriminant plus optional message and cause.
use vstd::prelude::*;

verus! {

/// Kind of an application error.
#[derive(Debug, Clone, Copy, PartialEq, Eq, Structural)]
pub enum AppErrorType {
    /// Relational store failure.
    DbError,
    /// Missing record.
    NotFound,
    /// Duplicate record.
    IsExists,
    /// Template rendering failure.
    Template,
    /// Missing, expired or invalid session; failed verification.
    AuthError,
    /// Keyed store failure.
    RedisError,
    /// Outbound HTTP failure.
    HttpError,
    /// Payload encoding failure.
    JsonError,
    /// Gated content could not be revealed.
    ProtectedContentError,
    /// Configuration failure.
    Config,
    /// Anything else.
    Common,
}

/// An application error.
#[derive(Debug)]
pub struct AppError {
    /// Human-readable message.
    pub message: Option<String>,
    /// Text of the underlying error.
    pub cause: Option<String>,
    /// Kind, which callers dispatch on.
    pub error_type: AppErrorType,
}

/// Copies an optional string's view.
pub open spec fn opt_view(o: Option<String>) -> Option<Seq<char>> {
    match o {
        Some(s) => Some(s@),
        None => None,
    }
}

/// Abstract value of an [`AppError`].
pub struct AppErrorView {
    pub message: Option<Seq<char>>,
    pub cause: Option<Seq<char>>,
    pub error_type: AppErrorType,
}

impl View for AppError {
    type V = AppErrorView;

    open spec fn view(&self) -> AppErrorView {
        AppErrorView {
            message: opt_view(self.message),
            cause: opt_view(self.cause),
            error_type: self.error_type,
        }
    }
}

/// An error of kind `t` with message `m` and no cause.
pub open spec fn error_with(m: Seq<char>, t: AppErrorType) -> AppErrorView {
    AppErrorView { message: Some(m), cause: None, error_type: t }
}

/// An error of kind `t` caused by an error described as `c`.
pub open spec fn error_from(c: Seq<char>, t: AppErrorType) -> AppErrorView {
    AppErrorView { message: None, cause: Some(c), error_type: t }
}

/// HTTP status for an error kind.
pub open spec fn status_of(t: AppErrorType) -> u16 {
    match t {
        AppErrorType::NotFound => 404,
        AppErrorType::DbError => 500,
        AppErrorType::Template => 500,
        AppErrorType::ProtectedContentError => 200,
        _ => 400,
    }
}

impl AppError {
    /// Error of the given kind caused by another error, described by `err`.
    pub fn from_err(err: &str, error_type: AppErrorType) -> (r: Self)
        ensures
            r@ == error_from(err@, error_type),
    {
        AppError { message: None, cause: Some(err.to_string()), error_type }
    }

    /// Error of the given kind with message `msg`.
    pub fn from_str(msg: &str, error_type: AppErrorType) -> (r: Self)
        ensures
            r@ == error_with(msg@, error_type),
    {
        AppError { message: Some(msg.to_string()), cause: None, error_type }
    }

    /// Relational store failure, described by `err`.
    pub fn db_error(err: &str) -> (r: Self)
        ensures
            r@ == error_from(err@, AppErrorType::DbError),
    {
        Self::from_err(err, AppErrorType::DbError)
    }

    /// Relational store failure with message `msg`.
    pub fn db_error_from_str(msg: &str) -> (r: Self)
        ensures
            r@ == error_with(msg@, AppErrorType::DbError),
    {
        Self::from_str(msg, AppErrorType::DbError)
    }

    /// Missing record.
    pub fn not_found(msg: &str) -> (r: Self)
        ensures
            r@ == error_with(msg@, AppErrorType::NotFound),
    {
        Self::from_str(msg, AppErrorType::NotFound)
    }

    /// Missing record, described by an underlying error.
    pub fn not_found_from_err(err: &str) -> (r: Self)
        ensures
            r@ == error_from(err@, AppErrorType::NotFound),
    {
        Self::from_err(err, AppErrorType::NotFound)
    }

    /// Duplicate record (a conflict).
    pub fn is_exists(msg: &str) -> (r: Self)
        ensures
            r@ == error_with(msg@, AppErrorType::IsExists),
    {
        Self::from_str(msg, AppErrorType::IsExists)
    }

    /// Template rendering failure, described by `err`.
    pub fn tmpl_error(err: &str) -> (r: Self)
        ensures
            r@ == (AppErrorView {
                message: Some(TEMPLATE_MESSAGE@),
                cause: Some(err@),
                error_type: AppErrorType::Template,
            }),
    {
        AppError {
            message: Some(TEMPLATE_MESSAGE.to_string()),
            cause: Some(err.to_string()),
            error_type: AppErrorType::Template,
        }
    }

    /// Gated content could not be revealed.
    pub fn protected_content(msg: &str) -> (r: Self)
        ensures
            r@ == error_with(msg@, AppErrorType::ProtectedContentError),
    {
        Self::from_str(msg, AppErrorType::ProtectedContentError)
    }

    /// Authentication failure.
    pub fn auth_error(msg: &str) -> (r: Self)
        ensures
            r@ == error_with(msg@, AppErrorType::AuthError),
    {
        Self::from_str(msg, AppErrorType::AuthError)
    }

    /// HTTP status code that presents this error.
    pub fn status_code(&self) -> (r: u16)
        ensures
            r == status_of(self.error_type),
    {
        match self.error_type {
            AppErrorType::NotFound => 404,
            AppErrorType::DbError => 500,
            AppErrorType::Template => 500,
            AppErrorType::ProtectedContentError => 200,
            _ => 400,
        }
    }
}

/// Message of a template error.
pub const TEMPLATE_MESSAGE: &'static str = "渲染模板出错";

} // verus!
