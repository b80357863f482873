use vstd::prelude::*;

verus! {

/// The error taxonomy of the library.
///
/// Every fallible operation of the catalog engine reports one of these
/// variants; none of them is retried automatically and none terminates the
/// process.
#[derive(Clone, Copy, Debug, PartialEq, Eq, Structural)]
pub enum CfhdbError {
    /// The network fetch failed and no cache file exists for the domain.
    FetchUnavailable,
    /// The catalog JSON breaks a required structural invariant.
    CatalogCorrupt,
    /// A user-supplied device identifier matched no enumerated device.
    DeviceNotFound,
    /// A user-supplied profile codename matched no catalog entry.
    ProfileNotFound,
    /// A check/install/remove script failed to spawn or exited non-zero.
    ExecutionFailure,
}

impl CfhdbError {
    /// A short human-readable description of the error.
    pub fn message(&self) -> (r: &'static str)
        ensures
            r@ == match *self {
                CfhdbError::FetchUnavailable => "catalog fetch failed and no cache exists"@,
                CfhdbError::CatalogCorrupt => "catalog JSON is corrupt"@,
                CfhdbError::DeviceNotFound => "no device with a matching identifier"@,
                CfhdbError::ProfileNotFound => "no profile with a matching codename"@,
                CfhdbError::ExecutionFailure => "script execution failed"@,
            },
    {
        match *self {
            CfhdbError::FetchUnavailable => "catalog fetch failed and no cache exists",
            CfhdbError::CatalogCorrupt => "catalog JSON is corrupt",
            CfhdbError::DeviceNotFound => "no device with a matching identifier",
            CfhdbError::ProfileNotFound => "no profile with a matching codename",
            CfhdbError::ExecutionFailure => "script execution failed",
        }
    }
}

} // verus!
