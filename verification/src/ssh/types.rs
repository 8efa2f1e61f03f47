//! What a connection needs and what a session accepts.
use vstd::prelude::*;

verus! {

#[derive(Clone, Debug)]
pub enum AuthConfig {
    Password { password: String },
    PrivateKey { private_key_path: String, passphrase: Option<String> },
}

/// Everything needed to open a session with a host.
#[derive(Clone, Debug)]
pub struct ConnectConfig {
    pub host_id: String,
    pub hostname: String,
    pub port: u16,
    pub username: String,
    pub auth: AuthConfig,
    pub connect_timeout_ms: u64,
    pub keepalive_interval_secs: u64,
    pub initial_cols: u16,
    pub initial_rows: u16,
    pub startup_command: Option<String>,
}

/// A request to a running session.
#[derive(Debug)]
pub enum SessionCommand {
    Write(Vec<u8>),
    Resize { cols: u16, rows: u16 },
    Disconnect,
}

} // verus!
