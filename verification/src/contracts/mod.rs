//! Data exchanged with the user interface: inputs, results, events and the
//! error type shared by every operation.
pub mod common;
pub mod errors;
pub mod file_transfer;
pub mod host;
pub mod recent;
pub mod settings;
pub mod ssh;
