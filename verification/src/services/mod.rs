//! The rules of the application's operations, apart from their storage and
//! network work.
pub mod host_service;
pub mod settings_service;
pub mod file_transfer_service;
pub mod directory_listing;
pub mod transfer_sessions;
