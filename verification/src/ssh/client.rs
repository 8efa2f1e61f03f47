//! The failures of opening an SSH connection, each with its code, message
//! and whether a retry may help.
use vstd::prelude::*;
use vstd::string::StringExecFns;
use crate::contracts::errors::{detailed_error, plain_error, AppErrorCode, AppErrorDto};
use crate::ssh::types::AuthConfig;

verus! {

/// The time allowed for the TCP connection: the configured one, at least
/// one millisecond.
pub fn connect_timeout_ms(configured_ms: u64) -> (r: u64)
    ensures
        r == if configured_ms < 1 { 1 } else { configured_ms },
{
    if configured_ms < 1 { 1 } else { configured_ms }
}

pub fn session_create_error(details: &str) -> (r: AppErrorDto)
    ensures
        detailed_error(r, AppErrorCode::IoError, "Failed to create SSH session"@, details@, true),
{
    AppErrorDto::with_details(AppErrorCode::IoError, "Failed to create SSH session", details, true)
}

pub fn handshake_error(details: &str) -> (r: AppErrorDto)
    ensures
        detailed_error(r, AppErrorCode::NetworkUnreachable, "SSH handshake failed"@, details@, true),
{
    AppErrorDto::with_details(AppErrorCode::NetworkUnreachable, "SSH handshake failed", details, true)
}

/// The error of a refused authentication, by the method that was tried.
pub fn authentication_error(auth: &AuthConfig, details: &str) -> (r: AppErrorDto)
    ensures
        detailed_error(
            r,
            AppErrorCode::AuthFailed,
            match auth {
                AuthConfig::Password { .. } => "Password authentication failed"@,
                AuthConfig::PrivateKey { .. } => "Private key authentication failed"@,
            },
            details@,
            false,
        ),
{
    match auth {
        AuthConfig::Password { .. } => AppErrorDto::with_details(
            AppErrorCode::AuthFailed,
            "Password authentication failed",
            details,
            false,
        ),
        AuthConfig::PrivateKey { .. } => AppErrorDto::with_details(
            AppErrorCode::AuthFailed,
            "Private key authentication failed",
            details,
            false,
        ),
    }
}

/// The error where the server did not accept the session as authenticated.
pub fn not_authenticated_error() -> (r: AppErrorDto)
    ensures
        plain_error(r, AppErrorCode::AuthFailed, "SSH authentication failed"@, false),
{
    AppErrorDto::new(AppErrorCode::AuthFailed, "SSH authentication failed", false)
}

pub fn resolve_error(details: &str) -> (r: AppErrorDto)
    ensures
        detailed_error(r, AppErrorCode::NetworkUnreachable, "Failed to resolve host"@, details@, true),
{
    AppErrorDto::with_details(AppErrorCode::NetworkUnreachable, "Failed to resolve host", details, true)
}

pub fn no_address_error() -> (r: AppErrorDto)
    ensures
        plain_error(r, AppErrorCode::NetworkUnreachable, "No socket address resolved for host"@, true),
{
    AppErrorDto::new(AppErrorCode::NetworkUnreachable, "No socket address resolved for host", true)
}

/// The error of a TCP connection that failed; `address` is the address
/// that was tried.
pub fn tcp_connect_error(address: &str, details: &str) -> (r: AppErrorDto)
    ensures
        detailed_error(r, AppErrorCode::NetworkUnreachable, "Failed to connect to "@ + address@, details@, true),
{
    let message = String::from_str("Failed to connect to ").concat(address);
    AppErrorDto::with_details(AppErrorCode::NetworkUnreachable, message.as_str(), details, true)
}

} // verus!
