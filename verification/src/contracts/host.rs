//! Host records as the interface sees them, and the inputs that change them.
use vstd::prelude::*;

verus! {

/// How a host authenticates.
#[derive(Clone, Copy, Debug, PartialEq, Eq, Structural)]
pub enum AuthType {
    Password,
    PrivateKey,
}

/// Outcome of the most recent session of a host.
#[derive(Clone, Copy, Debug, PartialEq, Eq, Structural)]
pub enum ConnectionStatus {
    Connected,
    Disconnected,
    Failed,
    AuthFailed,
    Timeout,
    NetworkError,
}

#[derive(Clone, Debug)]
pub struct TagDto {
    pub id: String,
    pub name: String,
    pub color: Option<String>,
    pub created_at: i64,
    pub updated_at: i64,
}

/// A stored host, without its secrets: only whether a password and a key
/// passphrase are stored.
#[derive(Clone, Debug)]
pub struct HostDto {
    pub id: String,
    pub name: String,
    pub hostname: String,
    pub port: u16,
    pub username: String,
    pub auth_type: AuthType,
    pub has_password: bool,
    pub private_key_path: Option<String>,
    pub has_passphrase: bool,
    pub group_id: Option<String>,
    pub tags: Vec<TagDto>,
    pub connect_timeout_ms: u64,
    pub keepalive_interval_secs: u64,
    pub startup_command: Option<String>,
    pub terminal_theme: Option<String>,
    pub last_connected_at: Option<i64>,
    pub last_status: Option<ConnectionStatus>,
    pub last_error_message: Option<String>,
    pub created_at: i64,
    pub updated_at: i64,
}

#[derive(Clone, Debug)]
pub struct CreateHostInput {
    pub name: String,
    pub hostname: String,
    pub port: u16,
    pub username: String,
    pub auth_type: AuthType,
    pub password: Option<String>,
    pub private_key_path: Option<String>,
    pub private_key_passphrase: Option<String>,
    pub group_id: Option<String>,
    pub tag_ids: Option<Vec<String>>,
    pub connect_timeout_ms: Option<u64>,
    pub keepalive_interval_secs: Option<u64>,
    pub startup_command: Option<String>,
    pub terminal_theme: Option<String>,
}

/// A partial update: `None` keeps the stored value.
#[derive(Clone, Debug)]
pub struct UpdateHostInput {
    pub name: Option<String>,
    pub hostname: Option<String>,
    pub port: Option<u16>,
    pub username: Option<String>,
    pub auth_type: Option<AuthType>,
    pub password: Option<SecretUpdate>,
    pub private_key_path: Option<String>,
    pub private_key_passphrase: Option<SecretUpdate>,
    pub group_id: Option<Option<String>>,
    pub tag_ids: Option<Vec<String>>,
    pub connect_timeout_ms: Option<u64>,
    pub keepalive_interval_secs: Option<u64>,
    pub startup_command: Option<Option<String>>,
    pub terminal_theme: Option<Option<String>>,
}

#[derive(Clone, Debug)]
pub struct DuplicateHostInput {
    pub host_id: String,
    pub name: String,
}

/// What to do with a stored secret.
#[derive(Clone, Debug)]
pub enum SecretUpdate {
    Keep,
    Replace(String),
    Clear,
}

#[derive(Clone, Debug)]
pub struct HostFilter {
    pub keyword: Option<String>,
    pub group_id: Option<String>,
    pub tag_ids: Option<Vec<String>>,
    pub auth_type: Option<AuthType>,
    pub recently_connected: Option<bool>,
}

#[derive(Clone, Debug)]
pub struct HostListResult {
    pub hosts: Vec<HostDto>,
}

} // verus!
