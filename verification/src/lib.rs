//! Verified core of an SSH desktop client: host records and their
//! validation, secret references, remote path handling, directory transfer
//! plans, terminal settings, recent-session bookkeeping and the decisions of
//! the interactive session loop.
pub mod text;
pub mod pairs;
pub mod contracts;
pub mod encoding;
pub mod json;
pub mod secrets;
pub mod ssh;
pub mod repositories;
pub mod services;
pub mod logging;
