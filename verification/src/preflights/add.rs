//! The checks before components are added.

use vstd::prelude::*;

verus! {

/// What asking the file system for a path gave.
#[derive(Debug)]
pub enum Probe {
    /// The path exists.
    Present,
    /// The path does not exist.
    Absent,
    /// The file system could not say; the cause is what it reported.
    Failed(std::io::Error),
}

/// Why components cannot be added to a project.
#[derive(Debug)]
pub enum PreflightAdd {
    IoError(std::io::Error),
    /// The working directory does not exist.
    MissingCWD,
    /// The project has no `package.json`.
    PackageJsonNotFound,
    /// The project has no `components.json`: it was not initialized.
    ComponentsJsonMissing,
}

/// What the checks say, given what the file system said of the working
/// directory, of `package.json` and of `components.json` in it. The three
/// are judged in that order, and the first that is not present decides.
pub fn preflight_add(cwd: Probe, package_json: Probe, components_json: Probe) -> (r: Result<
    (),
    PreflightAdd,
>)
    ensures
        match cwd {
            Probe::Failed(cause) => r == Err::<(), PreflightAdd>(PreflightAdd::IoError(cause)),
            Probe::Absent => r == Err::<(), PreflightAdd>(PreflightAdd::MissingCWD),
            Probe::Present => match package_json {
                Probe::Failed(cause) => r == Err::<(), PreflightAdd>(PreflightAdd::IoError(cause)),
                Probe::Absent => r == Err::<(), PreflightAdd>(PreflightAdd::PackageJsonNotFound),
                Probe::Present => match components_json {
                    Probe::Failed(cause) => r == Err::<(), PreflightAdd>(
                        PreflightAdd::IoError(cause),
                    ),
                    Probe::Absent => r == Err::<(), PreflightAdd>(
                        PreflightAdd::ComponentsJsonMissing,
                    ),
                    Probe::Present => r is Ok,
                },
            },
        },
{
    match cwd {
        Probe::Failed(cause) => {
            return Err(PreflightAdd::IoError(cause));
        },
        Probe::Absent => {
            return Err(PreflightAdd::MissingCWD);
        },
        Probe::Present => {},
    }
    match package_json {
        Probe::Failed(cause) => {
            return Err(PreflightAdd::IoError(cause));
        },
        Probe::Absent => {
            return Err(PreflightAdd::PackageJsonNotFound);
        },
        Probe::Present => {},
    }
    match components_json {
        Probe::Failed(cause) => Err(PreflightAdd::IoError(cause)),
        Probe::Absent => Err(PreflightAdd::ComponentsJsonMissing),
        Probe::Present => Ok(()),
    }
}

} // verus!
