//! The checks before a registry is built.

use crate::preflights::add::Probe;
use vstd::prelude::*;

verus! {

/// Why a registry cannot be built.
#[derive(Debug)]
pub enum PreflightError {
    Io(std::io::Error),
    /// The registry file, at the path named here, does not exist.
    RegistryMissing(String),
}

/// What the check says, given what the file system said of the registry
/// file at `registry`.
pub fn preflight_build(registry: &str, probe: Probe) -> (r: Result<(), PreflightError>)
    ensures
        match probe {
            Probe::Failed(cause) => r matches Err(PreflightError::Io(e)) && e == cause,
            Probe::Absent => r matches Err(PreflightError::RegistryMissing(at)) && at@
                == registry@,
            Probe::Present => r is Ok,
        },
{
    match probe {
        Probe::Failed(cause) => Err(PreflightError::Io(cause)),
        Probe::Absent => Err(PreflightError::RegistryMissing(registry.to_owned())),
        Probe::Present => Ok(()),
    }
}

} // verus!
