//! The error reported by every operation.
use vstd::prelude::*;
use vstd::string::StringExecFns;

verus! {

/// Category of an error.
#[derive(Clone, Copy, Debug, PartialEq, Eq, Structural)]
pub enum AppErrorCode {
    HostNotFound,
    HostInvalid,
    SecretNotFound,
    SecretStoreError,
    AuthFailed,
    NetworkUnreachable,
    Timeout,
    SessionNotFound,
    SessionClosed,
    InputBufferFull,
    IoError,
    DatabaseError,
    Unsupported,
    Unknown,
}

/// An error with a category, a message, optional details and whether a
/// retry may succeed.
#[derive(Clone, Debug)]
pub struct AppErrorDto {
    pub code: AppErrorCode,
    pub message: String,
    pub details: Option<String>,
    pub retryable: bool,
}

/// `e` is an error without details with the given code, message and
/// retryability.
pub open spec fn plain_error(e: AppErrorDto, code: AppErrorCode, message: Seq<char>, retryable: bool) -> bool {
    &&& e.code == code
    &&& e.message@ == message
    &&& e.details is None
    &&& e.retryable == retryable
}

/// `e` is an error with details.
pub open spec fn detailed_error(
    e: AppErrorDto,
    code: AppErrorCode,
    message: Seq<char>,
    details: Seq<char>,
    retryable: bool,
) -> bool {
    &&& e.code == code
    &&& e.message@ == message
    &&& e.details.deep_view() == Some(details)
    &&& e.retryable == retryable
}

impl AppErrorDto {
    pub fn new(code: AppErrorCode, message: &str, retryable: bool) -> (r: Self)
        ensures
            plain_error(r, code, message@, retryable),
    {
        AppErrorDto { code, message: String::from_str(message), details: None, retryable }
    }

    pub fn with_details(code: AppErrorCode, message: &str, details: &str, retryable: bool) -> (r: Self)
        ensures
            detailed_error(r, code, message@, details@, retryable),
    {
        AppErrorDto {
            code,
            message: String::from_str(message),
            details: Some(String::from_str(details)),
            retryable,
        }
    }

    pub fn host_not_found() -> (r: Self)
        ensures
            plain_error(r, AppErrorCode::HostNotFound, "Host not found"@, false),
    {
        Self::new(AppErrorCode::HostNotFound, "Host not found", false)
    }

    pub fn session_not_found() -> (r: Self)
        ensures
            plain_error(r, AppErrorCode::SessionNotFound, "Session not found"@, false),
    {
        Self::new(AppErrorCode::SessionNotFound, "Session not found", false)
    }

    /// A database failure; `details` is the text of the underlying error.
    pub fn database(details: &str) -> (r: Self)
        ensures
            detailed_error(r, AppErrorCode::DatabaseError, "Database error"@, details@, false),
    {
        Self::with_details(AppErrorCode::DatabaseError, "Database error", details, false)
    }

    /// An I/O failure; `details` is the text of the underlying error.
    pub fn io(details: &str) -> (r: Self)
        ensures
            detailed_error(r, AppErrorCode::IoError, "I/O error"@, details@, true),
    {
        Self::with_details(AppErrorCode::IoError, "I/O error", details, true)
    }
}

} // verus!
