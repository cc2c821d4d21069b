//! Initializing a project: which steps are taken, in which order.

use crate::config::ConfigError;
use crate::paths::{join, joined};
use crate::preflights::init::PreflightInitErrors;
use crate::text::texts;
use crate::util::get_project_info::TsAliasError;
use vstd::prelude::*;

verus! {

/// Why a project could not be initialized.
#[derive(Debug)]
pub enum InitError {
    SerdeJson(serde_json::Error),
    IoError(std::io::Error),
    /// The package named here could not be installed.
    InstallError(String),
    /// The style named here is not known.
    StyleNotFound(String),
    PreflightError(PreflightInitErrors),
    ConfigError(ConfigError),
    TsAliasError(TsAliasError),
}

/// What the init command was asked to do.
#[derive(Debug, Clone, PartialEq)]
pub struct InitSchema {
    pub cwd: String,
    /// Do not ask before writing.
    pub yes: bool,
    pub force: bool,
    /// Do not check the project first.
    pub skip_preflight: bool,
}

/// One step of the initialization.
#[derive(Debug, Clone, Copy, PartialEq, Eq, Structural)]
pub enum InitStep {
    /// Check the project.
    Preflight,
    /// Ask whether the configuration may be written; the command ends
    /// where the answer is no.
    Confirm,
    /// Write the configuration file.
    WriteComponentsJson,
    /// Write the alias block into the alias declaration.
    WritePaths,
    /// Make the directories for the components.
    CreateDirectories,
    /// See to it that the packages that the components need are there.
    CheckDependencies,
    /// Say that the project is initialized.
    Finish,
}

/// The steps of an initialization. Unless the checks are left out, the
/// project is checked first; then, unless it was told not to ask, the
/// command asks, and writes the configuration and the alias block. The
/// directories, the dependencies and the end come in any case.
pub open spec fn steps_of(skip_preflight: bool, yes: bool) -> Seq<InitStep> {
    let checks = if skip_preflight {
        Seq::empty()
    } else if yes {
        seq![InitStep::Preflight]
    } else {
        seq![
            InitStep::Preflight,
            InitStep::Confirm,
            InitStep::WriteComponentsJson,
            InitStep::WritePaths,
        ]
    };
    checks + seq![InitStep::CreateDirectories, InitStep::CheckDependencies, InitStep::Finish]
}

/// The steps that the init command takes, in order.
pub fn init_command(options: &InitSchema) -> (r: Vec<InitStep>)
    ensures
        r@ == steps_of(options.skip_preflight, options.yes),
{
    let mut steps: Vec<InitStep> = Vec::new();
    if !options.skip_preflight {
        steps.push(InitStep::Preflight);
        if !options.yes {
            steps.push(InitStep::Confirm);
            steps.push(InitStep::WriteComponentsJson);
            steps.push(InitStep::WritePaths);
        }
    }
    steps.push(InitStep::CreateDirectories);
    steps.push(InitStep::CheckDependencies);
    steps.push(InitStep::Finish);
    proof {
        assert(steps@ =~= steps_of(options.skip_preflight, options.yes));
    }
    steps
}

/// The directories that an initialized project has for its components:
/// that of the components, and that of the UI in it.
pub fn create_default_directories(options: &InitSchema) -> (r: Vec<String>)
    ensures
        r@.len() == 2,
        r@[0]@ == joined(options.cwd@, "src/shared/components"@),
        r@[1]@ == joined(options.cwd@, "src/shared/components/ui"@),
{
    let mut out: Vec<String> = Vec::new();
    out.push(join(options.cwd.as_str(), "src/shared/components"));
    out.push(join(options.cwd.as_str(), "src/shared/components/ui"));
    out
}

/// The packages that the components need.
pub fn required_packages() -> (r: Vec<String>)
    ensures
        r@.len() == 1,
        r@[0]@ == "@rbxts/react"@,
{
    let mut out: Vec<String> = Vec::new();
    out.push("@rbxts/react".to_owned());
    out
}

/// What is to be done about the dependencies.
#[derive(Debug, Clone, PartialEq)]
pub struct DependencyPlan {
    /// The packages to install, in order.
    pub install: Vec<String>,
    /// Nothing is to be installed.
    pub installed: bool,
}

/// The packages that are not there, in order: a package is there when
/// `present` says so at its place.
pub open spec fn missing(packages: Seq<Seq<char>>, present: Seq<bool>) -> Seq<Seq<char>>
    decreases packages.len(),
{
    if packages.len() == 0 {
        Seq::empty()
    } else {
        let front = missing(packages.drop_last(), present);
        let at = packages.len() - 1;
        if at < present.len() && present[at] {
            front
        } else {
            front.push(packages.last())
        }
    }
}

/// What is to be done about the packages `packages`, given for each of
/// them whether it is there: those that are not are installed, in order.
pub fn check_for_required_deps(packages: &Vec<String>, present: &Vec<bool>) -> (r: DependencyPlan)
    ensures
        texts(r.install@) == missing(texts(packages@), present@),
        r.installed == (r.install@.len() == 0),
{
    let ghost all = texts(packages@);
    let mut install: Vec<String> = Vec::new();
    let mut i: usize = 0;
    assert(all.take(0) =~= Seq::<Seq<char>>::empty());
    assert(texts(install@) =~= Seq::<Seq<char>>::empty());
    while i < packages.len()
        invariant
            i <= packages.len(),
            all == texts(packages@),
            texts(install@) == missing(all.take(i as int), present@),
        decreases packages.len() - i,
    {
        proof {
            assert(all.take(i + 1).drop_last() =~= all.take(i as int));
            assert(all.take(i + 1).last() == packages@[i as int]@);
        }
        if !(i < present.len() && present[i]) {
            let ghost before = texts(install@);
            install.push(packages[i].clone());
            assert(texts(install@) =~= before.push(packages@[i as int]@));
        }
        i = i + 1;
    }
    assert(all.take(i as int) =~= all);
    let installed = install.len() == 0;
    DependencyPlan { install, installed }
}

/// What installing a package came to.
pub fn install_dependencies(package: &str, succeeded: bool) -> (r: Result<(), InitError>)
    ensures
        succeeded ==> r is Ok,
        !succeeded ==> (r matches Err(InitError::InstallError(name)) && name@ == package@),
{
    if succeeded {
        Ok(())
    } else {
        Err(InitError::InstallError(package.to_owned()))
    }
}

} // verus!
