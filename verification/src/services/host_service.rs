//! Hosts: what makes one valid, and what creating, updating, duplicating,
//! deleting and connecting to one stores, reads and writes.
use vstd::prelude::*;
use vstd::string::StringExecFns;
use crate::contracts::errors::{plain_error, AppErrorCode, AppErrorDto};
use crate::contracts::host::{AuthType, CreateHostInput, SecretUpdate, UpdateHostInput};
use crate::repositories::host_repository::{
    auth_type_from_text, auth_type_text, parse_auth_type, CreateHostRecord, HostRecord, UpdateHostRecord,
};
use crate::secrets::secret_store::{
    host_passphrase_ref, host_passphrase_ref_spec, host_password_ref, host_password_ref_spec,
};
use crate::ssh::types::{AuthConfig, ConnectConfig};
use crate::text::{clone_opt_string, is_blank, is_blank_seq, trim, trim_seq};

verus! {

/// Connection timeout of a new host unless one is given, in milliseconds.
pub const DEFAULT_CONNECT_TIMEOUT_MS: u64 = 10000;
/// Keepalive interval of a new host unless one is given, in seconds.
pub const DEFAULT_KEEPALIVE_INTERVAL_SECS: u64 = 30;

/// Absent or blank.
pub open spec fn is_blank_opt_spec(v: Option<String>) -> bool {
    match v {
        Some(s) => is_blank_seq(s@),
        None => true,
    }
}

/// Absent or blank.
pub fn is_blank_opt(v: &Option<String>) -> (r: bool)
    ensures
        r == is_blank_opt_spec(*v),
{
    match v {
        Some(s) => is_blank(s.as_str()),
        None => true,
    }
}

/// The message of the first rule of a host's identity that the values
/// break: a name, a hostname and a user name that are not blank, and a port
/// other than 0.
pub open spec fn host_input_error(name: Seq<char>, hostname: Seq<char>, username: Seq<char>, port: u16) -> Option<Seq<char>> {
    if is_blank_seq(name) {
        Some("Host name is required"@)
    } else if is_blank_seq(hostname) {
        Some("Hostname is required"@)
    } else if is_blank_seq(username) {
        Some("Username is required"@)
    } else if port == 0 {
        Some("Port is invalid"@)
    } else {
        None
    }
}

/// Checks a host's identity; every failure is `HostInvalid`.
pub fn validate_host_input(name: &str, hostname: &str, username: &str, port: u16, auth_type: &AuthType) -> (r: Result<(), AppErrorDto>)
    ensures
        match host_input_error(name@, hostname@, username@, port) {
            Some(m) => r matches Err(e) && plain_error(e, AppErrorCode::HostInvalid, m, false),
            None => r is Ok,
        },
{
    if is_blank(name) {
        return Err(AppErrorDto::new(AppErrorCode::HostInvalid, "Host name is required", false));
    }
    if is_blank(hostname) {
        return Err(AppErrorDto::new(AppErrorCode::HostInvalid, "Hostname is required", false));
    }
    if is_blank(username) {
        return Err(AppErrorDto::new(AppErrorCode::HostInvalid, "Username is required", false));
    }
    if port == 0 {
        return Err(AppErrorDto::new(AppErrorCode::HostInvalid, "Port is invalid", false));
    }
    match auth_type {
        AuthType::Password => Ok(()),
        AuthType::PrivateKey => Ok(()),
    }
}

/// A host can authenticate: with password authentication it refers to a
/// stored password, with key authentication it names a key file.
pub open spec fn auth_consistent(auth: AuthType, password_ref: Option<String>, private_key_path: Option<String>) -> bool {
    match auth {
        AuthType::Password => password_ref is Some,
        AuthType::PrivateKey => !is_blank_opt_spec(private_key_path),
    }
}

/// The message of the authentication rule that a new host breaks.
pub open spec fn create_auth_error(input: CreateHostInput) -> Option<Seq<char>> {
    match input.auth_type {
        AuthType::Password => if is_blank_opt_spec(input.password) {
            Some("Password is required for password auth"@)
        } else {
            None
        },
        AuthType::PrivateKey => if is_blank_opt_spec(input.private_key_path) {
            Some("Private key path is required for private key auth"@)
        } else {
            None
        },
    }
}

/// A new host with password authentication brings a password, one with key
/// authentication a key path.
pub fn validate_create_auth(input: &CreateHostInput) -> (r: Result<(), AppErrorDto>)
    ensures
        match create_auth_error(*input) {
            Some(m) => r matches Err(e) && plain_error(e, AppErrorCode::HostInvalid, m, false),
            None => r is Ok,
        },
{
    match input.auth_type {
        AuthType::Password => {
            if is_blank_opt(&input.password) {
                return Err(
                    AppErrorDto::new(AppErrorCode::HostInvalid, "Password is required for password auth", false),
                );
            }
        },
        AuthType::PrivateKey => {
            if is_blank_opt(&input.private_key_path) {
                return Err(
                    AppErrorDto::new(
                        AppErrorCode::HostInvalid,
                        "Private key path is required for private key auth",
                        false,
                    ),
                );
            }
        },
    }
    Ok(())
}

/// Whether a password will be stored after an update.
pub open spec fn has_password_after(current_password_ref: Option<String>, update: Option<SecretUpdate>) -> bool {
    match update {
        Some(SecretUpdate::Clear) => false,
        Some(SecretUpdate::Replace(_)) => true,
        _ => current_password_ref is Some,
    }
}

/// The message of the authentication rule that an updated host breaks.
pub open spec fn update_auth_error(
    auth_type: AuthType,
    current_password_ref: Option<String>,
    password_update: Option<SecretUpdate>,
    effective_private_key_path: Option<String>,
) -> Option<Seq<char>> {
    match auth_type {
        AuthType::Password => if !has_password_after(current_password_ref, password_update) {
            Some("Password is required for password auth"@)
        } else {
            None
        },
        AuthType::PrivateKey => if is_blank_opt_spec(effective_private_key_path) {
            Some("Private key path is required for private key auth"@)
        } else {
            None
        },
    }
}

/// After an update, a host with password authentication still has a
/// password, one with key authentication a key path.
pub fn validate_update_auth(
    auth_type: &AuthType,
    current_password_ref: &Option<String>,
    password_update: &Option<SecretUpdate>,
    effective_private_key_path: &Option<String>,
) -> (r: Result<(), AppErrorDto>)
    ensures
        match update_auth_error(*auth_type, *current_password_ref, *password_update, *effective_private_key_path) {
            Some(m) => r matches Err(e) && plain_error(e, AppErrorCode::HostInvalid, m, false),
            None => r is Ok,
        },
{
    match auth_type {
        AuthType::Password => {
            let has_password = match password_update {
                Some(SecretUpdate::Clear) => false,
                Some(SecretUpdate::Replace(_)) => true,
                _ => current_password_ref.is_some(),
            };
            if !has_password {
                return Err(
                    AppErrorDto::new(AppErrorCode::HostInvalid, "Password is required for password auth", false),
                );
            }
        },
        AuthType::PrivateKey => {
            if is_blank_opt(effective_private_key_path) {
                return Err(
                    AppErrorDto::new(
                        AppErrorCode::HostInvalid,
                        "Private key path is required for private key auth",
                        false,
                    ),
                );
            }
        },
    }
    Ok(())
}

/// Secrets to store, in order, and the record to insert.
#[derive(Clone, Debug)]
pub struct HostCreationPlan {
    pub secret_writes: Vec<(String, String)>,
    pub record: CreateHostRecord,
}

/// The reference a secret gets when a value is given for it.
pub open spec fn ref_if_given(value: Option<String>, key: Seq<char>) -> Option<Seq<char>> {
    if value is Some { Some(key) } else { None }
}

/// The secret writes for optional values under two keys, in that order.
pub open spec fn writes_for(first: Option<String>, first_key: Seq<char>, second: Option<String>, second_key: Seq<char>) -> Seq<(Seq<char>, Seq<char>)> {
    (match first {
        Some(v) => seq![(first_key, v@)],
        None => Seq::empty(),
    }) + (match second {
        Some(v) => seq![(second_key, v@)],
        None => Seq::empty(),
    })
}

pub open spec fn unwrap_or_u64(v: Option<u64>, d: u64) -> u64 {
    match v {
        Some(x) => x,
        None => d,
    }
}

/// Validates a new host and plans its creation under `host_id` at time
/// `now`: the password and the passphrase (whichever is given, even blank)
/// are stored under the host's keys, and the record refers to them.
#[verifier::spinoff_prover]
pub fn plan_host_creation(input: CreateHostInput, host_id: String, now: i64) -> (r: Result<HostCreationPlan, AppErrorDto>)
    ensures
        match host_input_error(input.name@, input.hostname@, input.username@, input.port) {
            Some(m) => r matches Err(e) && plain_error(e, AppErrorCode::HostInvalid, m, false),
            None => match create_auth_error(input) {
                Some(m) => r matches Err(e) && plain_error(e, AppErrorCode::HostInvalid, m, false),
                None => r matches Ok(p) && {
                    let rec = p.record;
                    &&& rec.id == host_id
                    &&& rec.name == input.name
                    &&& rec.hostname == input.hostname
                    &&& rec.port == input.port
                    &&& rec.username == input.username
                    &&& rec.auth_type == input.auth_type
                    &&& rec.password_ref.deep_view() == ref_if_given(input.password, host_password_ref_spec(host_id@))
                    &&& rec.private_key_path == input.private_key_path
                    &&& rec.private_key_ref is None
                    &&& rec.passphrase_ref.deep_view() == ref_if_given(
                        input.private_key_passphrase,
                        host_passphrase_ref_spec(host_id@),
                    )
                    &&& rec.group_id == input.group_id
                    &&& rec.tag_ids@ == (match input.tag_ids { Some(t) => t@, None => Seq::<String>::empty() })
                    &&& rec.startup_command == input.startup_command
                    &&& rec.terminal_theme == input.terminal_theme
                    &&& rec.connect_timeout_ms == unwrap_or_u64(input.connect_timeout_ms, DEFAULT_CONNECT_TIMEOUT_MS)
                    &&& rec.keepalive_interval_secs == unwrap_or_u64(input.keepalive_interval_secs, DEFAULT_KEEPALIVE_INTERVAL_SECS)
                    &&& rec.created_at == now
                    &&& rec.updated_at == now
                    &&& p.secret_writes.deep_view() == writes_for(
                        input.password,
                        host_password_ref_spec(host_id@),
                        input.private_key_passphrase,
                        host_passphrase_ref_spec(host_id@),
                    )
                    &&& auth_consistent(rec.auth_type, rec.password_ref, rec.private_key_path)
                },
            },
        },
{
    validate_host_input(input.name.as_str(), input.hostname.as_str(), input.username.as_str(), input.port, &input.auth_type)?;
    validate_create_auth(&input)?;
    let mut secret_writes: Vec<(String, String)> = Vec::new();
    let password_ref = match &input.password {
        Some(password) => {
            let key = host_password_ref(host_id.as_str());
            secret_writes.push((key.clone(), password.clone()));
            Some(key)
        },
        None => None,
    };
    let passphrase_ref = match &input.private_key_passphrase {
        Some(passphrase) => {
            let key = host_passphrase_ref(host_id.as_str());
            secret_writes.push((key.clone(), passphrase.clone()));
            Some(key)
        },
        None => None,
    };
    proof {
        let expected = writes_for(
            input.password,
            host_password_ref_spec(host_id@),
            input.private_key_passphrase,
            host_passphrase_ref_spec(host_id@),
        );
        assert(secret_writes.deep_view() =~= expected);
    }
    let tag_ids = match input.tag_ids {
        Some(t) => t,
        None => Vec::new(),
    };
    let connect_timeout_ms = match input.connect_timeout_ms {
        Some(v) => v,
        None => DEFAULT_CONNECT_TIMEOUT_MS,
    };
    let keepalive_interval_secs = match input.keepalive_interval_secs {
        Some(v) => v,
        None => DEFAULT_KEEPALIVE_INTERVAL_SECS,
    };
    let record = CreateHostRecord {
        id: host_id,
        name: input.name,
        hostname: input.hostname,
        port: input.port,
        username: input.username,
        auth_type: input.auth_type,
        password_ref,
        private_key_path: input.private_key_path,
        private_key_ref: None,
        passphrase_ref,
        group_id: input.group_id,
        tag_ids,
        startup_command: input.startup_command,
        terminal_theme: input.terminal_theme,
        connect_timeout_ms,
        keepalive_interval_secs,
        created_at: now,
        updated_at: now,
    };
    Ok(HostCreationPlan { secret_writes, record })
}

/// Secrets to store and to drop, in order, and the new values of the host.
#[derive(Clone, Debug)]
pub struct HostUpdatePlan {
    pub secret_writes: Vec<(String, String)>,
    pub secret_deletes: Vec<String>,
    pub record: UpdateHostRecord,
}

/// Whether an update needs the host's current tags: when the stored
/// authentication type reads and the update gives no tags.
pub fn host_update_needs_tags(current: &HostRecord, input: &UpdateHostInput) -> (r: bool)
    ensures
        r == (auth_type_from_text(current.auth_type@) is Some && input.tag_ids is None),
{
    match parse_auth_type(current.auth_type.as_str()) {
        Ok(_) => input.tag_ids.is_none(),
        Err(_) => false,
    }
}

pub open spec fn or_current<T>(v: Option<T>, current: T) -> T {
    match v {
        Some(x) => x,
        None => current,
    }
}

/// The reference of a secret after an update: kept, replaced by the
/// host's key, or cleared.
pub open spec fn ref_after(update: Option<SecretUpdate>, current: Option<String>, key: Seq<char>) -> Option<Seq<char>> {
    match update {
        Some(SecretUpdate::Replace(_)) => Some(key),
        Some(SecretUpdate::Clear) => None,
        _ => current.deep_view(),
    }
}

/// The value stored by an update of a secret, if it replaces it.
pub open spec fn write_of(update: Option<SecretUpdate>, key: Seq<char>) -> Seq<(Seq<char>, Seq<char>)> {
    match update {
        Some(SecretUpdate::Replace(v)) => seq![(key, v@)],
        _ => Seq::empty(),
    }
}

/// The reference an update of a secret drops, if it clears a stored one.
pub open spec fn delete_of(update: Option<SecretUpdate>, current: Option<String>) -> Seq<Seq<char>> {
    match update {
        Some(SecretUpdate::Clear) => match current {
            Some(k) => seq![k@],
            None => Seq::empty(),
        },
        _ => Seq::empty(),
    }
}

fn secret_step(
    update: Option<SecretUpdate>,
    current: &Option<String>,
    key: String,
    writes: &mut Vec<(String, String)>,
    deletes: &mut Vec<String>,
) -> (r: Option<String>)
    ensures
        r.deep_view() == ref_after(update, *current, key@),
        final(writes).deep_view() == old(writes).deep_view() + write_of(update, key@),
        final(deletes).deep_view() == old(deletes).deep_view() + delete_of(update, *current),
{
    let ghost w0 = writes.deep_view();
    let ghost d0 = deletes.deep_view();
    match update {
        Some(SecretUpdate::Keep) => {
            assert(writes.deep_view() =~= w0 + write_of(update, key@));
            assert(deletes.deep_view() =~= d0 + delete_of(update, *current));
            clone_opt_string(current)
        },
        Some(SecretUpdate::Replace(value)) => {
            writes.push((key.clone(), value));
            assert(writes.deep_view() =~= w0 + write_of(update, key@));
            assert(deletes.deep_view() =~= d0 + delete_of(update, *current));
            Some(key)
        },
        Some(SecretUpdate::Clear) => {
            match current {
                Some(k) => {
                    deletes.push(k.clone());
                },
                None => {},
            }
            assert(writes.deep_view() =~= w0 + write_of(update, key@));
            assert(deletes.deep_view() =~= d0 + delete_of(update, *current));
            None
        },
        None => {
            assert(writes.deep_view() =~= w0 + write_of(update, key@));
            assert(deletes.deep_view() =~= d0 + delete_of(update, *current));
            clone_opt_string(current)
        },
    }
}

/// Plans an update of the host `host_id` whose stored row is `current`:
/// given values replace stored ones, the result must be a valid host that
/// can authenticate, replaced secrets are stored under the host's keys and
/// cleared ones are dropped.  `existing_tag_ids` are the host's current
/// tags, used when the update gives none.  Errors: an unreadable stored
/// authentication type, then the identity rules, then the authentication
/// rules, all `HostInvalid`.
#[verifier::spinoff_prover]
pub fn plan_host_update(
    host_id: &str,
    current: HostRecord,
    input: UpdateHostInput,
    existing_tag_ids: Vec<String>,
    updated_at: i64,
) -> (r: Result<HostUpdatePlan, AppErrorDto>)
    ensures
        match auth_type_from_text(current.auth_type@) {
            None => r matches Err(e) && plain_error(e, AppErrorCode::HostInvalid, "Invalid auth type"@, false),
            Some(current_auth) => {
                let name = or_current(input.name, current.name);
                let hostname = or_current(input.hostname, current.hostname);
                let port = or_current(input.port, current.port as u16);
                let username = or_current(input.username, current.username);
                let auth = or_current(input.auth_type, current_auth);
                let key_path = match input.private_key_path {
                    Some(p) => Some(p),
                    None => current.private_key_path,
                };
                match host_input_error(name@, hostname@, username@, port) {
                    Some(m) => r matches Err(e) && plain_error(e, AppErrorCode::HostInvalid, m, false),
                    None => match update_auth_error(auth, current.password_ref, input.password, key_path) {
                        Some(m) => r matches Err(e) && plain_error(e, AppErrorCode::HostInvalid, m, false),
                        None => r matches Ok(p) && {
                            let rec = p.record;
                            &&& rec.id == current.id
                            &&& rec.name == name
                            &&& rec.hostname == hostname
                            &&& rec.port == port
                            &&& rec.username == username
                            &&& rec.auth_type == auth
                            &&& rec.password_ref.deep_view() == ref_after(
                                input.password,
                                current.password_ref,
                                host_password_ref_spec(host_id@),
                            )
                            &&& rec.private_key_path == key_path
                            &&& rec.private_key_ref == current.private_key_ref
                            &&& rec.passphrase_ref.deep_view() == ref_after(
                                input.private_key_passphrase,
                                current.passphrase_ref,
                                host_passphrase_ref_spec(host_id@),
                            )
                            &&& rec.group_id == or_current(input.group_id, current.group_id)
                            &&& rec.tag_ids@ == (match input.tag_ids { Some(t) => t@, None => existing_tag_ids@ })
                            &&& rec.startup_command == or_current(input.startup_command, current.startup_command)
                            &&& rec.terminal_theme == or_current(input.terminal_theme, current.terminal_theme)
                            &&& rec.connect_timeout_ms == or_current(
                                input.connect_timeout_ms,
                                current.connect_timeout_ms as u64,
                            )
                            &&& rec.keepalive_interval_secs == or_current(
                                input.keepalive_interval_secs,
                                current.keepalive_interval_secs as u64,
                            )
                            &&& rec.updated_at == updated_at
                            &&& p.secret_writes.deep_view() == write_of(input.password, host_password_ref_spec(host_id@))
                                + write_of(input.private_key_passphrase, host_passphrase_ref_spec(host_id@))
                            &&& p.secret_deletes.deep_view() == delete_of(input.password, current.password_ref)
                                + delete_of(input.private_key_passphrase, current.passphrase_ref)
                            &&& auth_consistent(rec.auth_type, rec.password_ref, rec.private_key_path)
                        },
                    },
                }
            },
        },
{
    let current_auth = parse_auth_type(current.auth_type.as_str())?;
    let name = match input.name {
        Some(v) => v,
        None => current.name,
    };
    let hostname = match input.hostname {
        Some(v) => v,
        None => current.hostname,
    };
    let port = match input.port {
        Some(v) => v,
        None => current.port as u16,
    };
    let username = match input.username {
        Some(v) => v,
        None => current.username,
    };
    let auth_type = match input.auth_type {
        Some(v) => v,
        None => current_auth,
    };
    let group_id = match input.group_id {
        Some(v) => v,
        None => current.group_id,
    };
    let tag_ids = match input.tag_ids {
        Some(t) => t,
        None => existing_tag_ids,
    };
    let startup_command = match input.startup_command {
        Some(v) => v,
        None => current.startup_command,
    };
    let terminal_theme = match input.terminal_theme {
        Some(v) => v,
        None => current.terminal_theme,
    };
    let connect_timeout_ms = match input.connect_timeout_ms {
        Some(v) => v,
        None => current.connect_timeout_ms as u64,
    };
    let keepalive_interval_secs = match input.keepalive_interval_secs {
        Some(v) => v,
        None => current.keepalive_interval_secs as u64,
    };
    validate_host_input(name.as_str(), hostname.as_str(), username.as_str(), port, &auth_type)?;
    let private_key_path = match input.private_key_path {
        Some(p) => Some(p),
        None => current.private_key_path,
    };
    validate_update_auth(&auth_type, &current.password_ref, &input.password, &private_key_path)?;
    let mut secret_writes: Vec<(String, String)> = Vec::new();
    let mut secret_deletes: Vec<String> = Vec::new();
    assert(secret_writes.deep_view() =~= Seq::<(Seq<char>, Seq<char>)>::empty());
    assert(secret_deletes.deep_view() =~= Seq::<Seq<char>>::empty());
    let password_ref = secret_step(
        input.password,
        &current.password_ref,
        host_password_ref(host_id),
        &mut secret_writes,
        &mut secret_deletes,
    );
    let passphrase_ref = secret_step(
        input.private_key_passphrase,
        &current.passphrase_ref,
        host_passphrase_ref(host_id),
        &mut secret_writes,
        &mut secret_deletes,
    );
    let record = UpdateHostRecord {
        id: current.id,
        name,
        hostname,
        port,
        username,
        auth_type,
        password_ref,
        private_key_path,
        private_key_ref: current.private_key_ref,
        passphrase_ref,
        group_id,
        tag_ids,
        startup_command,
        terminal_theme,
        connect_timeout_ms,
        keepalive_interval_secs,
        updated_at,
    };
    Ok(HostUpdatePlan { secret_writes, secret_deletes, record })
}

pub open spec fn duplicate_copies_spec(source: HostRecord, new_host_id: Seq<char>) -> Seq<(Seq<char>, Seq<char>)> {
    (match source.password_ref {
        Some(k) => seq![(k@, host_password_ref_spec(new_host_id))],
        None => Seq::empty(),
    }) + (match source.passphrase_ref {
        Some(k) => seq![(k@, host_passphrase_ref_spec(new_host_id))],
        None => Seq::empty(),
    })
}

pub open spec fn host_secret_keys_spec(host: HostRecord) -> Seq<String> {
    (match host.password_ref {
        Some(k) => seq![k],
        None => Seq::empty(),
    }) + (match host.passphrase_ref {
        Some(k) => seq![k],
        None => Seq::empty(),
    })
}

/// Secrets a duplicate copies, as (key to read, key to write) pairs:
/// the source's password and passphrase, if it has them, under the new
/// host's keys.
pub fn duplicate_secret_copies(source: &HostRecord, new_host_id: &str) -> (r: Vec<(String, String)>)
    ensures
        r.deep_view() == duplicate_copies_spec(*source, new_host_id@),
{
    let mut copies: Vec<(String, String)> = Vec::new();
    if let Some(k) = &source.password_ref {
        copies.push((k.clone(), host_password_ref(new_host_id)));
    }
    if let Some(k) = &source.passphrase_ref {
        copies.push((k.clone(), host_passphrase_ref(new_host_id)));
    }
    assert(copies.deep_view() =~= duplicate_copies_spec(*source, new_host_id@));
    copies
}

/// Plans a copy of the host `source` under a new id and name at time `now`
/// with the source's tags: the name is trimmed, every other setting is
/// copied, and the copied secrets are referred to under the new host's
/// keys.  Errors: an unreadable stored authentication type, then the
/// identity rules on the new name and the source's settings.
pub fn plan_host_duplicate(source: HostRecord, name: &str, new_host_id: String, now: i64, tag_ids: Vec<String>) -> (r: Result<CreateHostRecord, AppErrorDto>)
    ensures
        match auth_type_from_text(source.auth_type@) {
            None => r matches Err(e) && plain_error(e, AppErrorCode::HostInvalid, "Invalid auth type"@, false),
            Some(auth) => match host_input_error(name@, source.hostname@, source.username@, source.port as u16) {
                Some(m) => r matches Err(e) && plain_error(e, AppErrorCode::HostInvalid, m, false),
                None => r matches Ok(rec) && {
                    &&& rec.id == new_host_id
                    &&& rec.name@ == trim_seq(name@)
                    &&& rec.hostname == source.hostname
                    &&& rec.port == source.port as u16
                    &&& rec.username == source.username
                    &&& rec.auth_type == auth
                    &&& rec.password_ref.deep_view() == (if source.password_ref is Some {
                        Some(host_password_ref_spec(new_host_id@))
                    } else {
                        None
                    })
                    &&& rec.private_key_path == source.private_key_path
                    &&& rec.private_key_ref == source.private_key_ref
                    &&& rec.passphrase_ref.deep_view() == (if source.passphrase_ref is Some {
                        Some(host_passphrase_ref_spec(new_host_id@))
                    } else {
                        None
                    })
                    &&& rec.group_id == source.group_id
                    &&& rec.tag_ids == tag_ids
                    &&& rec.startup_command == source.startup_command
                    &&& rec.terminal_theme == source.terminal_theme
                    &&& rec.connect_timeout_ms == source.connect_timeout_ms as u64
                    &&& rec.keepalive_interval_secs == source.keepalive_interval_secs as u64
                    &&& rec.created_at == now
                    &&& rec.updated_at == now
                    &&& (auth_consistent(auth, source.password_ref, source.private_key_path)
                        ==> auth_consistent(rec.auth_type, rec.password_ref, rec.private_key_path))
                },
            },
        },
{
    let auth_type = parse_auth_type(source.auth_type.as_str())?;
    let password_ref = if source.password_ref.is_some() {
        Some(host_password_ref(new_host_id.as_str()))
    } else {
        None
    };
    let passphrase_ref = if source.passphrase_ref.is_some() {
        Some(host_passphrase_ref(new_host_id.as_str()))
    } else {
        None
    };
    validate_host_input(name, source.hostname.as_str(), source.username.as_str(), source.port as u16, &auth_type)?;
    let trimmed = String::from_str(trim(name));
    Ok(
        CreateHostRecord {
            id: new_host_id,
            name: trimmed,
            hostname: source.hostname,
            port: source.port as u16,
            username: source.username,
            auth_type,
            password_ref,
            private_key_path: source.private_key_path,
            private_key_ref: source.private_key_ref,
            passphrase_ref,
            group_id: source.group_id,
            tag_ids,
            startup_command: source.startup_command,
            terminal_theme: source.terminal_theme,
            connect_timeout_ms: source.connect_timeout_ms as u64,
            keepalive_interval_secs: source.keepalive_interval_secs as u64,
            created_at: now,
            updated_at: now,
        },
    )
}

/// Secrets to drop with a deleted host: its password, then its passphrase.
pub fn host_secret_keys(host: &HostRecord) -> (r: Vec<String>)
    ensures
        r@ == host_secret_keys_spec(*host),
{
    let mut keys: Vec<String> = Vec::new();
    if let Some(k) = &host.password_ref {
        keys.push(k.clone());
    }
    if let Some(k) = &host.passphrase_ref {
        keys.push(k.clone());
    }
    assert(keys@ =~= host_secret_keys_spec(*host));
    keys
}

/// The secrets a connection needs.
#[derive(Clone, Debug)]
pub enum ConnectSecretPlan {
    /// Read the password under `key`.
    Password { key: String },
    /// Use the key file; read the passphrase under `passphrase_key`, if any.
    PrivateKey { private_key_path: String, passphrase_key: Option<String> },
}

/// Why a stored host cannot be connected to, if it cannot.
pub open spec fn connect_plan_error(host: HostRecord) -> Option<(AppErrorCode, Seq<char>)> {
    match auth_type_from_text(host.auth_type@) {
        None => Some((AppErrorCode::HostInvalid, "Invalid auth type"@)),
        Some(AuthType::Password) => if host.password_ref is None {
            Some((AppErrorCode::SecretNotFound, "Password reference not found"@))
        } else {
            None
        },
        Some(AuthType::PrivateKey) => if host.private_key_path is None {
            Some((AppErrorCode::HostInvalid, "Private key path is required"@))
        } else {
            None
        },
    }
}

/// Which secrets connecting to a stored host needs.
pub fn connect_secret_plan(host: &HostRecord) -> (r: Result<ConnectSecretPlan, AppErrorDto>)
    ensures
        match connect_plan_error(*host) {
            Some((code, m)) => r matches Err(e) && plain_error(e, code, m, false),
            None => r matches Ok(p) && match p {
                ConnectSecretPlan::Password { key } => auth_type_from_text(host.auth_type@) == Some(AuthType::Password)
                    && host.password_ref == Some(key),
                ConnectSecretPlan::PrivateKey { private_key_path, passphrase_key } => auth_type_from_text(
                    host.auth_type@,
                ) == Some(AuthType::PrivateKey) && host.private_key_path == Some(private_key_path)
                    && passphrase_key == host.passphrase_ref,
            },
        },
{
    let auth_type = parse_auth_type(host.auth_type.as_str())?;
    match auth_type {
        AuthType::Password => match &host.password_ref {
            Some(key) => Ok(ConnectSecretPlan::Password { key: key.clone() }),
            None => Err(AppErrorDto::new(AppErrorCode::SecretNotFound, "Password reference not found", false)),
        },
        AuthType::PrivateKey => match &host.private_key_path {
            Some(path) => Ok(
                ConnectSecretPlan::PrivateKey {
                    private_key_path: path.clone(),
                    passphrase_key: clone_opt_string(&host.passphrase_ref),
                },
            ),
            None => Err(AppErrorDto::new(AppErrorCode::HostInvalid, "Private key path is required", false)),
        },
    }
}

/// How to authenticate, from the connection plan and the secret read for
/// it (the password, or the passphrase if there is one).
pub fn auth_config(plan: ConnectSecretPlan, secret: Option<String>) -> (r: AuthConfig)
    requires
        plan is Password ==> secret is Some,
    ensures
        match plan {
            ConnectSecretPlan::Password { key } => r == AuthConfig::Password { password: secret.unwrap() },
            ConnectSecretPlan::PrivateKey { private_key_path, passphrase_key } => r == AuthConfig::PrivateKey {
                private_key_path,
                passphrase: secret,
            },
        },
{
    match plan {
        ConnectSecretPlan::Password { key } => AuthConfig::Password { password: secret.unwrap() },
        ConnectSecretPlan::PrivateKey { private_key_path, passphrase_key } => AuthConfig::PrivateKey {
            private_key_path,
            passphrase: secret,
        },
    }
}

/// Everything needed to connect to a stored host.
pub fn connect_config(host: HostRecord, auth: AuthConfig, initial_cols: u16, initial_rows: u16) -> (r: ConnectConfig)
    ensures
        r == (ConnectConfig {
            host_id: host.id,
            hostname: host.hostname,
            port: host.port as u16,
            username: host.username,
            auth,
            connect_timeout_ms: host.connect_timeout_ms as u64,
            keepalive_interval_secs: host.keepalive_interval_secs as u64,
            initial_cols,
            initial_rows,
            startup_command: host.startup_command,
        }),
{
    ConnectConfig {
        host_id: host.id,
        hostname: host.hostname,
        port: host.port as u16,
        username: host.username,
        auth,
        connect_timeout_ms: host.connect_timeout_ms as u64,
        keepalive_interval_secs: host.keepalive_interval_secs as u64,
        initial_cols,
        initial_rows,
        startup_command: host.startup_command,
    }
}


/// Secrets never go into the host table: a new host's record refers to a
/// password or passphrase only by its key, and the value given for it is
/// written to the secret store under exactly that key.
pub proof fn law_new_host_secrets_by_reference(input: CreateHostInput, host_id: Seq<char>)
    ensures
        ({
            let writes = writes_for(
                input.password,
                host_password_ref_spec(host_id),
                input.private_key_passphrase,
                host_passphrase_ref_spec(host_id),
            );
            &&& (input.password matches Some(p) ==> ref_if_given(input.password, host_password_ref_spec(host_id))
                == Some(host_password_ref_spec(host_id)) && writes.contains((host_password_ref_spec(host_id), p@)))
            &&& (input.password is None ==> ref_if_given(input.password, host_password_ref_spec(host_id)) is None)
            &&& (input.private_key_passphrase matches Some(p) ==> ref_if_given(
                input.private_key_passphrase,
                host_passphrase_ref_spec(host_id),
            ) == Some(host_passphrase_ref_spec(host_id)) && writes.contains((host_passphrase_ref_spec(host_id), p@)))
            &&& (input.private_key_passphrase is None ==> ref_if_given(
                input.private_key_passphrase,
                host_passphrase_ref_spec(host_id),
            ) is None)
            &&& forall|i: int| 0 <= i < writes.len() ==> #[trigger] writes[i].0 == host_password_ref_spec(host_id)
                || writes[i].0 == host_passphrase_ref_spec(host_id)
        }),
{
    let writes = writes_for(
        input.password,
        host_password_ref_spec(host_id),
        input.private_key_passphrase,
        host_passphrase_ref_spec(host_id),
    );
    if let Some(p) = input.password {
        assert(writes[0] == (host_password_ref_spec(host_id), p@));
    }
    if let Some(p) = input.private_key_passphrase {
        let n = if input.password is Some { 1int } else { 0int };
        assert(writes[n] == (host_passphrase_ref_spec(host_id), p@));
    }
}

/// Keeping a secret is the same as not mentioning it: the authentication
/// rule decides as if the update left the secret out, the stored reference
/// stays as it is, and nothing is written to or dropped from the store.
pub proof fn law_keep_is_no_update(
    auth: AuthType,
    current: Option<String>,
    key_path: Option<String>,
    key: Seq<char>,
)
    ensures
        update_auth_error(auth, current, Some(SecretUpdate::Keep), key_path)
            == update_auth_error(auth, current, None, key_path),
        ref_after(Some(SecretUpdate::Keep), current, key) == current.deep_view(),
        ref_after(None, current, key) == current.deep_view(),
        write_of(Some(SecretUpdate::Keep), key) == Seq::<(Seq<char>, Seq<char>)>::empty(),
        write_of(None, key) == Seq::<(Seq<char>, Seq<char>)>::empty(),
        delete_of(Some(SecretUpdate::Keep), current) == Seq::<Seq<char>>::empty(),
        delete_of(None, current) == Seq::<Seq<char>>::empty(),
{
}

/// An update of a password host passes the authentication rule exactly
/// when the host still refers to a password afterwards: a kept or
/// unmentioned password passes where one is stored, a new one always
/// passes, a cleared one never does.  A key host passes exactly when it
/// keeps a key path that is not blank.
pub proof fn law_update_auth_rule_keeps_a_secret(
    update: Option<SecretUpdate>,
    current: Option<String>,
    key_path: Option<String>,
    key: Seq<char>,
)
    ensures
        (update_auth_error(AuthType::Password, current, update, key_path) is None)
            == (ref_after(update, current, key) is Some),
        update_auth_error(AuthType::Password, current, update, key_path) is Some
            ==> update_auth_error(AuthType::Password, current, update, key_path)
            == Some("Password is required for password auth"@),
        current is Some ==> update_auth_error(AuthType::Password, current, Some(SecretUpdate::Keep), key_path) is None,
        current is Some ==> update_auth_error(AuthType::Password, current, None, key_path) is None,
        update_auth_error(AuthType::Password, current, Some(SecretUpdate::Clear), key_path) is Some,
        (update matches Some(SecretUpdate::Replace(_))) ==> update_auth_error(AuthType::Password, current, update, key_path) is None,
        (update_auth_error(AuthType::PrivateKey, current, update, key_path) is None) == !is_blank_opt_spec(key_path),
{
}

/// The stored text of an authentication type reads back as that type.
pub proof fn law_auth_type_text_round_trip(a: AuthType)
    ensures
        auth_type_from_text(auth_type_text(a)) == Some(a),
{
    reveal_strlit("password");
    reveal_strlit("private_key");
    assert("password"@ != "private_key"@) by {
        assert("password"@.len() != "private_key"@.len());
    }
}

/// A host that can authenticate, once stored (its authentication type as
/// text, its references and key path as they are), can be connected to:
/// the connection plan finds every secret reference it needs.
pub proof fn law_consistent_host_connects(
    auth: AuthType,
    password_ref: Option<String>,
    private_key_path: Option<String>,
    row: HostRecord,
)
    requires
        auth_consistent(auth, password_ref, private_key_path),
        row.auth_type@ == auth_type_text(auth),
        row.password_ref == password_ref,
        row.private_key_path == private_key_path,
    ensures
        connect_plan_error(row) is None,
{
    law_auth_type_text_round_trip(auth);
}

} // verus!
