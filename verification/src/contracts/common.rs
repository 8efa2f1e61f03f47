//! Identifiers and application information.
use vstd::prelude::*;

verus! {

/// Version of the command contract between the interface and the backend.
pub const CONTRACT_VERSION: u32 = 1;

/// Application information reported to the interface.
#[derive(Clone, Debug)]
pub struct AppInfoDto {
    pub contract_version: u32,
    pub app_version: String,
}

} // verus!
