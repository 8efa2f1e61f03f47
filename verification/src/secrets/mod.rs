//! Secrets (passwords, key passphrases) kept apart from the host records,
//! which hold only references to them.
pub mod file_secret_store;
pub mod secret_store;
