use wmcssh::contracts::errors::AppErrorCode;
use wmcssh::ssh::client::{
    authentication_error, connect_timeout_ms, handshake_error, no_address_error,
    not_authenticated_error, resolve_error, session_create_error, tcp_connect_error,
};
use wmcssh::ssh::types::AuthConfig;

#[test]
fn timeout_is_at_least_one_millisecond() {
    assert_eq!(connect_timeout_ms(0), 1);
    assert_eq!(connect_timeout_ms(1), 1);
    assert_eq!(connect_timeout_ms(8000), 8000);
}

#[test]
fn authentication_errors_name_the_method() {
    let e = authentication_error(&AuthConfig::Password { password: "x".into() }, "denied");
    assert_eq!(e.code, AppErrorCode::AuthFailed);
    assert_eq!(e.message, "Password authentication failed");
    assert_eq!(e.details.as_deref(), Some("denied"));
    assert!(!e.retryable);
    let e = authentication_error(
        &AuthConfig::PrivateKey { private_key_path: "/k".into(), passphrase: None },
        "bad key",
    );
    assert_eq!(e.message, "Private key authentication failed");
    let e = not_authenticated_error();
    assert_eq!(e.code, AppErrorCode::AuthFailed);
    assert_eq!(e.message, "SSH authentication failed");
    assert!(e.details.is_none());
}

#[test]
fn network_errors_are_retryable() {
    let e = tcp_connect_error("10.0.0.1:22", "refused");
    assert_eq!(e.code, AppErrorCode::NetworkUnreachable);
    assert_eq!(e.message, "Failed to connect to 10.0.0.1:22");
    assert_eq!(e.details.as_deref(), Some("refused"));
    assert!(e.retryable);
    assert_eq!(resolve_error("nx").message, "Failed to resolve host");
    assert_eq!(no_address_error().message, "No socket address resolved for host");
    assert!(no_address_error().retryable);
    assert_eq!(handshake_error("eof").message, "SSH handshake failed");
    let e = session_create_error("oom");
    assert_eq!(e.code, AppErrorCode::IoError);
    assert_eq!(e.message, "Failed to create SSH session");
}
