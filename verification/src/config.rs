//! Service configuration values for the engine's collaborators.

use vstd::prelude::*;

verus! {

/// Where to reach the uid allocator service.
#[derive(Clone, Debug)]
pub struct UidAllocatorClientConfig {
    /// The address to connect to for the uid allocator.
    pub uid_allocator_address: String,
}

/// Where to reach the schema manager service.
#[derive(Clone, Debug)]
pub struct SchemaManagerClientConfig {
    /// The address to connect to for the schema manager.
    pub schema_manager_address: String,
}

} // verus!
