use wmcssh::contracts::errors::AppErrorCode;
use wmcssh::secrets::file_secret_store::{
    secret_file_prepare_error, secret_file_write_error, FileSecretStore, SecretFileRead,
};

fn content(text: &str) -> SecretFileRead {
    SecretFileRead::Content(text.to_string())
}

#[test]
fn a_missing_file_holds_no_secrets() {
    let mut store = FileSecretStore::new("/tmp/secrets.json".into());
    assert_eq!(store.file_path(), "/tmp/secrets.json");
    assert!(!store.is_loaded());
    let e = store.get_secret("k", SecretFileRead::Missing).unwrap_err();
    assert_eq!(e.code, AppErrorCode::SecretNotFound);
    assert_eq!(e.message, "Secret not found");
    assert!(store.is_loaded());
}

#[test]
fn secrets_are_read_from_the_file_once() {
    let mut store = FileSecretStore::new("f".into());
    assert_eq!(store.get_secret("a", content("{\"a\":\"1\",\"b\":\"2\"}")).unwrap(), "1");
    assert_eq!(store.get_secret("b", content("{}")).unwrap(), "2");
    assert_eq!(store.read_cached_value("c", SecretFileRead::Failed("gone".into())).unwrap(), None);
}

#[test]
fn a_secret_read_after_it_was_stored_is_found() {
    let mut store = FileSecretStore::new("f".into());
    let text = store.set_secret("host:h1:password", "pw", SecretFileRead::Missing).unwrap().unwrap();
    let parsed: serde_json::Value = serde_json::from_str(&text).unwrap();
    assert_eq!(parsed["host:h1:password"], "pw");
    assert_eq!(store.get_secret("host:h1:password", content("{}")).unwrap(), "pw");
    store.set_secret("host:h1:password", "pw2", SecretFileRead::Missing).unwrap().unwrap();
    assert_eq!(store.get_secret("host:h1:password", SecretFileRead::Missing).unwrap(), "pw2");
}

#[test]
fn a_secret_read_after_it_was_deleted_is_not_found() {
    let mut store = FileSecretStore::new("f".into());
    store.set_secret("a", "1", SecretFileRead::Missing).unwrap().unwrap();
    store.set_secret("b", "2", SecretFileRead::Missing).unwrap().unwrap();
    let text = store.delete_secret("a", SecretFileRead::Missing).unwrap().unwrap();
    let parsed: serde_json::Value = serde_json::from_str(&text).unwrap();
    assert!(parsed.get("a").is_none());
    assert_eq!(parsed["b"], "2");
    assert_eq!(store.get_secret("a", SecretFileRead::Missing).unwrap_err().code, AppErrorCode::SecretNotFound);
    assert_eq!(store.get_secret("b", SecretFileRead::Missing).unwrap(), "2");
    store.delete_secret("never", SecretFileRead::Missing).unwrap().unwrap();
}

#[test]
fn unreadable_files_fail_and_leave_the_store_unloaded() {
    let mut store = FileSecretStore::new("f".into());
    let e = store.get_secret("a", SecretFileRead::Failed("permission denied".into())).unwrap_err();
    assert_eq!(e.code, AppErrorCode::SecretStoreError);
    assert_eq!(e.message, "Failed to read local secret file");
    assert_eq!(e.details.as_deref(), Some("permission denied"));
    assert!(!store.is_loaded());
    let e = store.set_secret("a", "1", content("not json")).unwrap_err();
    assert_eq!(e.message, "Failed to parse local secret file");
    assert!(!e.retryable);
    assert!(!store.is_loaded());
}

#[test]
fn load_all_reads_pairs() {
    let pairs = FileSecretStore::load_all(content("{\"b\":\"2\",\"a\":\"1\"}")).unwrap();
    assert_eq!(pairs, vec![("a".to_string(), "1".to_string()), ("b".to_string(), "2".to_string())]);
    assert!(FileSecretStore::load_all(SecretFileRead::Missing).unwrap().is_empty());
    assert!(FileSecretStore::load_all(content("[1]")).is_err());
}

#[test]
fn file_errors() {
    let e = secret_file_prepare_error("ro");
    assert_eq!(e.message, "Failed to prepare local secret file");
    let e = secret_file_write_error("full");
    assert_eq!(e.message, "Failed to write local secret file");
    assert_eq!(e.details.as_deref(), Some("full"));
}

#[test]
fn a_stored_secret_persists_for_a_new_store() {
    let mut store = FileSecretStore::new("f".into());
    store.set_secret("a", "1", SecretFileRead::Missing).unwrap().unwrap();
    let text = store.set_secret("b", "line\n\"two\"", SecretFileRead::Missing).unwrap().unwrap();
    let mut reopened = FileSecretStore::new("f".into());
    assert_eq!(reopened.get_secret("b", content(&text)).unwrap(), "line\n\"two\"");
    assert_eq!(reopened.get_secret("a", SecretFileRead::Missing).unwrap(), "1");
    let text = store.delete_secret("a", SecretFileRead::Missing).unwrap().unwrap();
    let mut reopened = FileSecretStore::new("f".into());
    assert_eq!(reopened.get_secret("a", content(&text)).unwrap_err().code, AppErrorCode::SecretNotFound);
    assert_eq!(store.serialized().unwrap(), text);
}
