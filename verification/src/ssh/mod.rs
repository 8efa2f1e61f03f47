//! Connection settings and the decisions of an interactive session.
pub mod types;
pub mod client;
pub mod session_manager;
pub mod worker;
