use vstd::prelude::*;

verus! {

/// Why carrying out a plan failed.
#[derive(Debug, Clone)]
pub enum ExecutorError {
    PackageError(String),
    ServiceError(String),
    /// Reading, editing or writing the NixOS configuration, or rebuilding
    /// the system, failed.
    NixosError(String),
}

} // verus!
