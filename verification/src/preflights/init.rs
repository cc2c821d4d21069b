//! The checks before a project is initialized.

use crate::preflights::add::Probe;
use vstd::prelude::*;

verus! {

/// Why a project cannot be initialized.
#[derive(Debug)]
pub enum PreflightInitErrors {
    IoError(std::io::Error),
    /// The working directory does not exist.
    MissingCWD,
    /// The project has no `package.json`.
    PackageJsonNotFound,
    /// The alias declaration declares no import alias; the text is the
    /// declaration to add.
    NoImportAliasFound(String),
    /// The directory named here holds a `components.json` already.
    ComponentsJsonExists(String),
    /// The directory holds no project that components can be installed
    /// into.
    ProjectNotSetUp,
}

/// What is known of the project when the checks come to it.
#[derive(Debug, Clone, PartialEq)]
pub enum ProjectProbe {
    /// Nothing could be found out about the project.
    Unknown,
    /// The project was inspected; `alias_prefix` is the import alias that
    /// its declaration states, if it states one.
    Found { alias_prefix: Option<String> },
}

/// The declaration that a project without an import alias is told to add.
pub open spec fn alias_advice() -> Seq<char> {
    "\"@/*\": [\"./src/shared/*\"]"@
}

/// What the checks say for the project at `cwd`, given what the file system
/// said of that directory, of `package.json` and of `components.json` in
/// it, and what is known of the project. They are judged in that order: the
/// directory and `package.json` must exist, `components.json` must not, the
/// project must be known and must state an import alias.
pub fn preflight_init(
    cwd: &str,
    cwd_probe: Probe,
    package_json: Probe,
    components_json: Probe,
    project: ProjectProbe,
) -> (r: Result<(), PreflightInitErrors>)
    ensures
        match cwd_probe {
            Probe::Failed(cause) => r matches Err(PreflightInitErrors::IoError(e)) && e == cause,
            Probe::Absent => r matches Err(PreflightInitErrors::MissingCWD),
            Probe::Present => match package_json {
                Probe::Failed(cause) => r matches Err(PreflightInitErrors::IoError(e)) && e
                    == cause,
                Probe::Absent => r matches Err(PreflightInitErrors::PackageJsonNotFound),
                Probe::Present => match components_json {
                    Probe::Failed(cause) => r matches Err(PreflightInitErrors::IoError(e)) && e
                        == cause,
                    Probe::Present => r matches Err(PreflightInitErrors::ComponentsJsonExists(at))
                        && at@ == cwd@,
                    Probe::Absent => match project {
                        ProjectProbe::Unknown => r matches Err(
                            PreflightInitErrors::ProjectNotSetUp,
                        ),
                        ProjectProbe::Found { alias_prefix: None } => r matches Err(
                            PreflightInitErrors::NoImportAliasFound(advice),
                        ) && advice@ == alias_advice(),
                        ProjectProbe::Found { alias_prefix: Some(_) } => r is Ok,
                    },
                },
            },
        },
{
    match cwd_probe {
        Probe::Failed(cause) => {
            return Err(PreflightInitErrors::IoError(cause));
        },
        Probe::Absent => {
            return Err(PreflightInitErrors::MissingCWD);
        },
        Probe::Present => {},
    }
    match package_json {
        Probe::Failed(cause) => {
            return Err(PreflightInitErrors::IoError(cause));
        },
        Probe::Absent => {
            return Err(PreflightInitErrors::PackageJsonNotFound);
        },
        Probe::Present => {},
    }
    match components_json {
        Probe::Failed(cause) => {
            return Err(PreflightInitErrors::IoError(cause));
        },
        Probe::Present => {
            return Err(PreflightInitErrors::ComponentsJsonExists(cwd.to_owned()));
        },
        Probe::Absent => {},
    }
    match project {
        ProjectProbe::Unknown => Err(PreflightInitErrors::ProjectNotSetUp),
        ProjectProbe::Found { alias_prefix: None } => Err(
            PreflightInitErrors::NoImportAliasFound("\"@/*\": [\"./src/shared/*\"]".to_owned()),
        ),
        ProjectProbe::Found { alias_prefix: Some(_) } => Ok(()),
    }
}

} // verus!
