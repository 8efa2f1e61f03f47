//! Rows of the database and what is computed from them.  The queries run
//! outside the library; the rows and the statements are built and read here.
pub mod host_repository;
pub mod recent_session_repository;
