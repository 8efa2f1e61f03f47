use wmcssh::contracts::errors::AppErrorCode;
use wmcssh::contracts::host::{AuthType, CreateHostInput, SecretUpdate, UpdateHostInput};
use wmcssh::repositories::host_repository::HostRecord;
use wmcssh::secrets::secret_store::{host_passphrase_ref, host_password_ref};
use wmcssh::services::host_service::{
    auth_config, connect_config, connect_secret_plan, duplicate_secret_copies, host_secret_keys,
    host_update_needs_tags, plan_host_creation, plan_host_duplicate, plan_host_update,
    validate_host_input, ConnectSecretPlan,
};
use wmcssh::ssh::types::AuthConfig;

fn create_input(auth_type: AuthType) -> CreateHostInput {
    CreateHostInput {
        name: "prod".into(),
        hostname: "10.0.0.5".into(),
        port: 22,
        username: "root".into(),
        auth_type,
        password: None,
        private_key_path: None,
        private_key_passphrase: None,
        group_id: Some("g1".into()),
        tag_ids: None,
        connect_timeout_ms: None,
        keepalive_interval_secs: Some(15),
        startup_command: None,
        terminal_theme: None,
    }
}

fn record(auth_type: &str) -> HostRecord {
    HostRecord {
        id: "h1".into(),
        name: "prod".into(),
        hostname: "10.0.0.5".into(),
        port: 22,
        username: "root".into(),
        auth_type: auth_type.into(),
        password_ref: Some("host:h1:password".into()),
        private_key_path: Some("/home/me/.ssh/id_ed25519".into()),
        private_key_ref: None,
        passphrase_ref: Some("host:h1:private_key_passphrase".into()),
        group_id: None,
        startup_command: Some("tmux attach".into()),
        terminal_theme: None,
        connect_timeout_ms: 5000,
        keepalive_interval_secs: 30,
        sort_order: 0,
        created_at: 1,
        updated_at: 2,
    }
}

fn empty_update() -> UpdateHostInput {
    UpdateHostInput {
        name: None,
        hostname: None,
        port: None,
        username: None,
        auth_type: None,
        password: None,
        private_key_path: None,
        private_key_passphrase: None,
        group_id: None,
        tag_ids: None,
        connect_timeout_ms: None,
        keepalive_interval_secs: None,
        startup_command: None,
        terminal_theme: None,
    }
}

#[test]
fn secret_keys_follow_the_host_id() {
    assert_eq!(host_password_ref("abc"), "host:abc:password");
    assert_eq!(host_passphrase_ref("abc"), "host:abc:private_key_passphrase");
    assert_ne!(host_password_ref("a"), host_passphrase_ref("a"));
}

#[test]
fn identity_rules_in_order() {
    let e = validate_host_input(" ", "", "", 0, &AuthType::Password).unwrap_err();
    assert_eq!(e.code, AppErrorCode::HostInvalid);
    assert_eq!(e.message, "Host name is required");
    let e = validate_host_input("n", "\t", "u", 22, &AuthType::Password).unwrap_err();
    assert_eq!(e.message, "Hostname is required");
    let e = validate_host_input("n", "h", "", 22, &AuthType::Password).unwrap_err();
    assert_eq!(e.message, "Username is required");
    let e = validate_host_input("n", "h", "u", 0, &AuthType::PrivateKey).unwrap_err();
    assert_eq!(e.message, "Port is invalid");
    assert!(validate_host_input("n", "h", "u", 1, &AuthType::Password).is_ok());
}

#[test]
fn password_hosts_need_a_password() {
    let e = plan_host_creation(create_input(AuthType::Password), "h1".into(), 100).unwrap_err();
    assert_eq!(e.code, AppErrorCode::HostInvalid);
    assert_eq!(e.message, "Password is required for password auth");
    let mut input = create_input(AuthType::Password);
    input.password = Some("  ".into());
    assert!(plan_host_creation(input, "h1".into(), 100).is_err());
}

#[test]
fn key_hosts_need_a_key_path() {
    let e = plan_host_creation(create_input(AuthType::PrivateKey), "h1".into(), 100).unwrap_err();
    assert_eq!(e.message, "Private key path is required for private key auth");
}

#[test]
fn creation_stores_secrets_under_the_host_keys() {
    let mut input = create_input(AuthType::Password);
    input.password = Some("s3cret".into());
    input.private_key_passphrase = Some("pp".into());
    input.tag_ids = Some(vec!["t1".into()]);
    let plan = plan_host_creation(input, "h9".into(), 100).unwrap();
    assert_eq!(
        plan.secret_writes,
        vec![
            ("host:h9:password".to_string(), "s3cret".to_string()),
            ("host:h9:private_key_passphrase".to_string(), "pp".to_string()),
        ]
    );
    let rec = plan.record;
    assert_eq!(rec.id, "h9");
    assert_eq!(rec.password_ref.as_deref(), Some("host:h9:password"));
    assert_eq!(rec.passphrase_ref.as_deref(), Some("host:h9:private_key_passphrase"));
    assert_eq!(rec.tag_ids, vec!["t1".to_string()]);
    assert_eq!(rec.connect_timeout_ms, 10000);
    assert_eq!(rec.keepalive_interval_secs, 15);
    assert_eq!(rec.created_at, 100);
    assert_eq!(rec.updated_at, 100);
}

#[test]
fn an_empty_update_keeps_everything() {
    let plan = plan_host_update("h1", record("password"), empty_update(), vec!["t".into()], 50).unwrap();
    assert!(plan.secret_writes.is_empty());
    assert!(plan.secret_deletes.is_empty());
    let rec = plan.record;
    assert_eq!(rec.name, "prod");
    assert_eq!(rec.auth_type, AuthType::Password);
    assert_eq!(rec.password_ref.as_deref(), Some("host:h1:password"));
    assert_eq!(rec.tag_ids, vec!["t".to_string()]);
    assert_eq!(rec.startup_command.as_deref(), Some("tmux attach"));
    assert_eq!(rec.updated_at, 50);
}

#[test]
fn updates_replace_and_clear_secrets() {
    let mut input = empty_update();
    input.password = Some(SecretUpdate::Replace("new".into()));
    input.private_key_passphrase = Some(SecretUpdate::Clear);
    input.startup_command = Some(None);
    let plan = plan_host_update("h1", record("password"), input, vec![], 7).unwrap();
    assert_eq!(plan.secret_writes, vec![("host:h1:password".to_string(), "new".to_string())]);
    assert_eq!(plan.secret_deletes, vec!["host:h1:private_key_passphrase".to_string()]);
    assert_eq!(plan.record.passphrase_ref, None);
    assert_eq!(plan.record.startup_command, None);
}

#[test]
fn clearing_the_password_of_a_password_host_is_refused() {
    let mut input = empty_update();
    input.password = Some(SecretUpdate::Clear);
    let e = plan_host_update("h1", record("password"), input, vec![], 7).unwrap_err();
    assert_eq!(e.message, "Password is required for password auth");
}

#[test]
fn an_unreadable_stored_auth_type_is_refused() {
    let e = plan_host_update("h1", record("kerberos"), empty_update(), vec![], 7).unwrap_err();
    assert_eq!(e.code, AppErrorCode::HostInvalid);
    assert_eq!(e.message, "Invalid auth type");
    assert!(!host_update_needs_tags(&record("kerberos"), &empty_update()));
    assert!(host_update_needs_tags(&record("password"), &empty_update()));
}

#[test]
fn duplicates_copy_secrets_to_the_new_keys() {
    let source = record("private_key");
    assert_eq!(
        duplicate_secret_copies(&source, "h2"),
        vec![
            ("host:h1:password".to_string(), "host:h2:password".to_string()),
            ("host:h1:private_key_passphrase".to_string(), "host:h2:private_key_passphrase".to_string()),
        ]
    );
    let rec = plan_host_duplicate(source, "  copy ", "h2".into(), 9, vec!["t".into()]).unwrap();
    assert_eq!(rec.name, "copy");
    assert_eq!(rec.id, "h2");
    assert_eq!(rec.auth_type, AuthType::PrivateKey);
    assert_eq!(rec.password_ref.as_deref(), Some("host:h2:password"));
    assert_eq!(rec.created_at, 9);
    let e = plan_host_duplicate(record("password"), " ", "h3".into(), 9, vec![]).unwrap_err();
    assert_eq!(e.message, "Host name is required");
}

#[test]
fn deleting_a_host_drops_its_secrets() {
    assert_eq!(
        host_secret_keys(&record("password")),
        vec!["host:h1:password".to_string(), "host:h1:private_key_passphrase".to_string()]
    );
}

#[test]
fn connecting_reads_the_secret_the_auth_type_needs() {
    match connect_secret_plan(&record("password")).unwrap() {
        ConnectSecretPlan::Password { key } => assert_eq!(key, "host:h1:password"),
        other => panic!("unexpected plan {other:?}"),
    }
    let plan = connect_secret_plan(&record("private_key")).unwrap();
    let auth = auth_config(plan, Some("pp".into()));
    assert!(matches!(
        auth,
        AuthConfig::PrivateKey { ref private_key_path, passphrase: Some(ref p) }
            if private_key_path == "/home/me/.ssh/id_ed25519" && p == "pp"
    ));
    let mut no_password = record("password");
    no_password.password_ref = None;
    let e = connect_secret_plan(&no_password).unwrap_err();
    assert_eq!(e.code, AppErrorCode::SecretNotFound);
    assert_eq!(e.message, "Password reference not found");
    let mut no_key = record("private_key");
    no_key.private_key_path = None;
    assert_eq!(connect_secret_plan(&no_key).unwrap_err().message, "Private key path is required");
}

#[test]
fn the_connection_carries_the_host_settings() {
    let config = connect_config(record("password"), AuthConfig::Password { password: "x".into() }, 120, 40);
    assert_eq!(config.host_id, "h1");
    assert_eq!(config.port, 22);
    assert_eq!(config.connect_timeout_ms, 5000);
    assert_eq!(config.keepalive_interval_secs, 30);
    assert_eq!((config.initial_cols, config.initial_rows), (120, 40));
    assert_eq!(config.startup_command.as_deref(), Some("tmux attach"));
}
