//! The application's status report: what the status endpoint serves.

use vstd::prelude::*;

verus! {

/// Name, description and version of the application, as the build
/// provides them.
pub struct AppStatus {
    pub name: String,
    pub description: String,
    pub version: String,
}

impl AppStatus {
    /// Assemble the status report from the build's package metadata,
    /// which the host reads and hands in.
    pub fn new(name: String, description: String, version: String) -> (r: AppStatus)
        ensures
            r.name == name,
            r.description == description,
            r.version == version,
    {
        AppStatus { name, description, version }
    }
}

} // verus!
