//! Installing a tool into an environment of its own, publishing its
//! executables as shims, and removing both again.

use vstd::prelude::*;
use crate::bytes::texts;
use crate::manifest::lines;
use crate::paths::{join, join_path, normal, normalize};
use crate::shims::{models, shims_from_manifest, shims_of, Shim};
use crate::words::{
    bin, bin_bytes, bin_pip, bin_pip_bytes, end_of_options, end_of_options_bytes, flag_python,
    flag_python_bytes, flag_quiet, flag_quiet_bytes, flag_verbose, flag_verbose_bytes, ignore,
    ignore_bytes, install_word, install_word_bytes, python, python_bytes, shims, shims_bytes,
    tools, tools_bytes,
};
use vstd::utf8::valid_utf8;

verus! {

/// How much an operation reports.
#[derive(Clone, Copy, Debug, PartialEq, Eq, Structural)]
pub enum CommandOutput {
    Normal,
    Verbose,
    Quiet,
}

/// A package requirement: the package's name as written, and the whole
/// requirement (name and constraint) as text.
#[derive(Clone, Debug, PartialEq, Eq)]
pub struct Requirement {
    pub name: Vec<u8>,
    pub text: Vec<u8>,
}

/// Why an install or uninstall failed.
#[derive(Clone, Debug, PartialEq, Eq)]
pub enum InstallError {
    /// The package has an environment already and no reinstall was forced.
    AlreadyInstalled,
    /// The package installer exited with a failure.
    InstallFailed,
    /// The package's list of files is no valid text.
    ManifestUnreadable,
    /// No shim could be created for the executable at `path`; `cause` is
    /// what the system said.
    SymlinkFailed { path: Vec<u8>, cause: Vec<u8> },
    /// The package of the normalized name `package` could not be removed;
    /// `cause` is what the system said of the deletion or the scan that
    /// failed.
    UninstallFailed { package: Vec<u8>, cause: Vec<u8> },
}

/// The directory of shims below `app_dir`, built on the normal form of
/// `app_dir`.
pub open spec fn shim_dir_of(app_dir: Seq<u8>) -> Seq<u8> {
    join(normal(app_dir), shims())
}

/// The environment of the package with the normalized name `package`, built
/// on the normal form of `app_dir`.
pub open spec fn env_path_of(app_dir: Seq<u8>, package: Seq<u8>) -> Seq<u8> {
    join(join(normal(app_dir), tools()), package)
}

/// The directory of executables of the environment at `env`.
pub open spec fn bin_path_of(env: Seq<u8>) -> Seq<u8> {
    join(env, bin())
}

/// The arguments with which the package installer is run for an environment
/// whose executables are in `bin_path`.
pub open spec fn installer_args(
    bin_path: Seq<u8>,
    requirement: Seq<u8>,
    output: CommandOutput,
) -> Seq<Seq<u8>> {
    let head = seq![flag_python(), join(bin_path, python()), install_word()];
    let level = match output {
        CommandOutput::Verbose => seq![flag_verbose()],
        CommandOutput::Quiet => seq![flag_quiet()],
        CommandOutput::Normal => Seq::empty(),
    };
    head + level + seq![end_of_options(), requirement]
}

/// What the stages of an installation work with: the environment at
/// `env_path` is cleared and created; `installer` is run with
/// `installer_args` and `PYTHONWARNINGS` set to `warnings`; `interpreter` is
/// asked for the files of `package`; each of them under `bin_path` gets a
/// shim in `shim_dir`.
#[derive(Clone, Debug, PartialEq, Eq)]
pub struct InstallPlan {
    pub env_path: Vec<u8>,
    pub bin_path: Vec<u8>,
    pub shim_dir: Vec<u8>,
    pub installer: Vec<u8>,
    pub installer_args: Vec<Vec<u8>>,
    pub warnings: Vec<u8>,
    pub interpreter: Vec<u8>,
    pub package: Vec<u8>,
}

/// Whether `plan` is the plan for installing `requirement` below `app_dir`,
/// with the installer of the environment at `self_venv`.
pub open spec fn is_install_plan(
    plan: InstallPlan,
    app_dir: Seq<u8>,
    self_venv: Seq<u8>,
    requirement: Requirement,
    package: Seq<u8>,
    output: CommandOutput,
) -> bool {
    &&& plan.env_path@ == env_path_of(app_dir, package)
    &&& plan.bin_path@ == bin_path_of(plan.env_path@)
    &&& plan.shim_dir@ == shim_dir_of(app_dir)
    &&& plan.installer@ == join(self_venv, bin_pip())
    &&& texts(plan.installer_args@) == installer_args(plan.bin_path@, requirement.text@, output)
    &&& plan.warnings@ == ignore()
    &&& plan.interpreter@ == join(plan.bin_path@, python())
    &&& plan.package@ == requirement.name@
}

/// The shim directory below `app_dir`.
pub fn shim_dir(app_dir: &Vec<u8>) -> (out: Vec<u8>)
    ensures
        out@ == shim_dir_of(app_dir@),
{
    join_path(&normalize(app_dir), &shims_bytes())
}

/// The environment of the package with the normalized name `package`.
pub fn env_path(app_dir: &Vec<u8>, package: &Vec<u8>) -> (out: Vec<u8>)
    ensures
        out@ == env_path_of(app_dir@, package@),
{
    let tool_dir = join_path(&normalize(app_dir), &tools_bytes());
    join_path(&tool_dir, package)
}

/// Builds the installer's arguments.
pub fn build_installer_args(
    bin_path: &Vec<u8>,
    requirement: &Vec<u8>,
    output: CommandOutput,
) -> (args: Vec<Vec<u8>>)
    ensures
        texts(args@) == installer_args(bin_path@, requirement@, output),
{
    let mut args: Vec<Vec<u8>> = Vec::new();
    args.push(flag_python_bytes());
    args.push(join_path(bin_path, &python_bytes()));
    args.push(install_word_bytes());
    match output {
        CommandOutput::Verbose => {
            args.push(flag_verbose_bytes());
        },
        CommandOutput::Quiet => {
            args.push(flag_quiet_bytes());
        },
        CommandOutput::Normal => {},
    }
    args.push(end_of_options_bytes());
    args.push(requirement.clone());
    proof {
        assert(texts(args@) =~= installer_args(bin_path@, requirement@, output));
    }
    args
}

/// What an installation waits for.
#[derive(Clone, Copy, Debug, PartialEq, Eq, Structural)]
pub enum Stage {
    /// For the removal of the environment that exists at the path, and of
    /// every shim into it. Only an installation over an existing
    /// environment is ever at this stage.
    Clearing,
    /// For a compatible interpreter and a fresh environment made from it.
    Creating,
    /// For the package installer to exit.
    Installing,
    /// For the package's list of files.
    Reading,
    /// For the next shim to be published.
    Publishing,
    /// For nothing: the package is installed.
    Done,
}

/// Whether an installation at the stage `before` can come to the stage
/// `after` in one step.
pub open spec fn follows(before: Stage, after: Stage) -> bool {
    match before {
        Stage::Clearing => after is Creating,
        Stage::Creating => after is Installing,
        Stage::Installing => after is Reading,
        Stage::Reading => after is Publishing || after is Done,
        Stage::Publishing => after is Publishing || after is Done,
        Stage::Done => false,
    }
}

/// The only step that leads to creating is the one from clearing. An
/// installation over an existing environment starts at clearing, so
/// whatever stood there, and every shim into it, is gone before the new
/// environment comes.
pub proof fn creating_follows_clearing(before: Stage, after: Stage)
    requires
        follows(before, after),
        after is Creating,
    ensures
        before is Clearing,
{
}

/// No step leads back: an installation never clears or creates twice.
pub proof fn stages_never_return(before: Stage, after: Stage)
    requires
        follows(before, after),
    ensures
        !(after is Clearing),
        after is Creating ==> before is Clearing,
        after is Installing ==> before is Creating,
        after is Reading ==> before is Installing,
{
}

/// How the creation of a shim ended.
#[derive(Clone, Debug, PartialEq, Eq)]
pub enum Publication {
    /// The shim stands.
    Created,
    /// The shim could not be created, for the cause given.
    Failed(Vec<u8>),
}

/// What the outside reports to an installation.
#[derive(Clone, Debug, PartialEq, Eq)]
pub enum Outcome {
    /// The old environment and its shims are gone.
    Cleared,
    /// The fresh environment stands.
    Created,
    /// The package installer has exited, with success or not.
    InstallerExited(bool),
    /// What the interpreter printed as the package's list of files.
    Manifest(Vec<u8>),
    /// How the creation of the next shim ended.
    Published(Publication),
}

/// An installation under way: its plan, the stage it has reached, the shims
/// to publish once they are known, and how many of them are published.
#[derive(Clone, Debug, PartialEq, Eq)]
pub struct Installation {
    pub plan: InstallPlan,
    pub stage: Stage,
    pub shims: Vec<Shim>,
    pub published: usize,
    /// Whether each published shim is announced.
    pub announce: bool,
}

impl Installation {
    /// The shims are known from the manifest on; while one is awaited it is
    /// there, and at the end all are published.
    pub open spec fn wf(&self) -> bool {
        match self.stage {
            Stage::Publishing => self.published < self.shims.len(),
            Stage::Done => self.published == self.shims.len(),
            _ => self.shims.len() == 0 && self.published == 0,
        }
    }

    /// Whether `outcome` is the report that the stage waits for.
    pub open spec fn expects(&self, outcome: Outcome) -> bool {
        match self.stage {
            Stage::Clearing => outcome is Cleared,
            Stage::Creating => outcome is Created,
            Stage::Installing => outcome is InstallerExited,
            Stage::Reading => outcome is Manifest,
            Stage::Publishing => outcome is Published && self.published < self.shims.len(),
            Stage::Done => false,
        }
    }

    /// Whether `outcome` is the report that the stage waits for.
    pub fn awaits(&self, outcome: &Outcome) -> (yes: bool)
        ensures
            yes == self.expects(*outcome),
    {
        match (self.stage, outcome) {
            (Stage::Clearing, Outcome::Cleared) => true,
            (Stage::Creating, Outcome::Created) => true,
            (Stage::Installing, Outcome::InstallerExited(_)) => true,
            (Stage::Reading, Outcome::Manifest(_)) => true,
            (Stage::Publishing, Outcome::Published(_)) => self.published < self.shims.len(),
            _ => false,
        }
    }

    /// The stage once `published` of `total` shims are published.
    pub open spec fn publishing_or_done(total: int, published: int) -> Stage {
        if published < total {
            Stage::Publishing
        } else {
            Stage::Done
        }
    }

    /// The shim to publish next, while one is awaited.
    pub fn next_shim(&self) -> (shim: Option<&Shim>)
        ensures
            shim is Some <==> self.stage is Publishing && self.published < self.shims.len(),
            shim matches Some(s) ==> *s == self.shims@[self.published as int],
    {
        match self.stage {
            Stage::Publishing => {
                if self.published < self.shims.len() {
                    Some(&self.shims[self.published])
                } else {
                    None
                }
            },
            _ => None,
        }
    }

    /// Takes the installation one stage on. The stages follow each other in
    /// one order: clearing, creating, installing, reading, publishing shim
    /// by shim, done. An installer that fails, a manifest that is no text
    /// and a shim that cannot be created each end the installation with
    /// their error. A report that the stage does not wait for changes
    /// nothing.
    pub fn advance(self, outcome: Outcome) -> (next: Result<Installation, InstallError>)
        ensures
            !self.expects(outcome) ==> next == Ok::<Installation, InstallError>(self),
            next matches Ok(n) ==> n.plan == self.plan && n.announce == self.announce && (self.wf()
                ==> n.wf()),
            self.expects(outcome) ==> (next matches Ok(n) ==> follows(self.stage, n.stage)),
            self.expects(outcome) ==> match outcome {
                Outcome::Cleared => next matches Ok(n) && n.stage is Creating && n.shims
                    == self.shims && n.published == self.published,
                Outcome::Created => next matches Ok(n) && n.stage is Installing && n.shims
                    == self.shims && n.published == self.published,
                Outcome::InstallerExited(success) => if success {
                    next matches Ok(n) && n.stage is Reading && n.shims == self.shims
                        && n.published == self.published
                } else {
                    next matches Err(e) && e is InstallFailed
                },
                Outcome::Manifest(bytes) => if valid_utf8(bytes@) {
                    next matches Ok(n) && n.published == 0 && models(n.shims@) == shims_of(
                        lines(bytes@),
                        self.plan.bin_path@,
                        self.plan.shim_dir@,
                    ) && n.stage == Self::publishing_or_done(n.shims@.len() as int, 0)
                } else {
                    next matches Err(e) && e is ManifestUnreadable
                },
                Outcome::Published(result) => match result {
                    Publication::Created => next matches Ok(n) && n.shims == self.shims && n.published
                        == self.published + 1 && n.stage == Self::publishing_or_done(
                        n.shims@.len() as int,
                        n.published as int,
                    ),
                    Publication::Failed(why) => next matches Err(e) && e matches InstallError::SymlinkFailed {
                        path,
                        cause,
                    } && path@ == self.shims@[self.published as int].source@ && cause@ == why@,
                },
            },
    {
        if !self.awaits(&outcome) {
            return Ok(self);
        }
        let Installation { plan, stage: _, shims, published, announce } = self;
        match outcome {
            Outcome::Cleared => Ok(
                Installation { plan, stage: Stage::Creating, shims, published, announce },
            ),
            Outcome::Created => Ok(
                Installation { plan, stage: Stage::Installing, shims, published, announce },
            ),
            Outcome::InstallerExited(success) => {
                if success {
                    Ok(Installation { plan, stage: Stage::Reading, shims, published, announce })
                } else {
                    Err(InstallError::InstallFailed)
                }
            },
            Outcome::Manifest(bytes) => {
                match shims_from_manifest(&bytes, &plan.bin_path, &plan.shim_dir) {
                    Ok(found) => {
                        let stage = if found.len() > 0 {
                            Stage::Publishing
                        } else {
                            Stage::Done
                        };
                        Ok(Installation { plan, stage, shims: found, published: 0, announce })
                    },
                    Err(e) => Err(e),
                }
            },
            Outcome::Published(result) => {
                match result {
                    Publication::Created => {
                        let stage = if published + 1 < shims.len() {
                            Stage::Publishing
                        } else {
                            Stage::Done
                        };
                        Ok(Installation { plan, stage, shims, published: published + 1, announce })
                    },
                    Publication::Failed(cause) => Err(
                        InstallError::SymlinkFailed { path: shims[published].source.clone(), cause },
                    ),
                }
            },
        }
    }
}

/// Decides whether a package may be installed and starts the installation.
/// `package` is the requirement's normalized name, `installed` whether its
/// environment exists. An existing environment is replaced only with `force`;
/// without it nothing is started and so nothing is touched. Over an existing
/// environment the installation begins by clearing it and its shims; where
/// there is none, nothing is cleared and it begins by creating one.
pub fn install(
    app_dir: &Vec<u8>,
    self_venv: &Vec<u8>,
    requirement: &Requirement,
    package: &Vec<u8>,
    force: bool,
    output: CommandOutput,
    installed: bool,
) -> (started: Result<Installation, InstallError>)
    ensures
        started is Err <==> installed && !force,
        started matches Err(e) ==> e is AlreadyInstalled,
        started matches Ok(i) ==> {
            &&& is_install_plan(i.plan, app_dir@, self_venv@, *requirement, package@, output)
            &&& i.stage == if installed {
                Stage::Clearing
            } else {
                Stage::Creating
            }
            &&& i.wf()
            &&& i.announce == (output != CommandOutput::Quiet)
        },
{
    if installed && !force {
        return Err(InstallError::AlreadyInstalled);
    }
    let env = env_path(app_dir, package);
    let bin_path = join_path(&env, &bin_bytes());
    let installer_args = build_installer_args(&bin_path, &requirement.text, output);
    let interpreter = join_path(&bin_path, &python_bytes());
    let plan = InstallPlan {
        env_path: env,
        bin_path,
        shim_dir: shim_dir(app_dir),
        installer: join_path(self_venv, &bin_pip_bytes()),
        installer_args,
        warnings: ignore_bytes(),
        interpreter,
        package: requirement.name.clone(),
    };
    Ok(
        Installation {
            plan,
            stage: if installed {
                Stage::Clearing
            } else {
                Stage::Creating
            },
            shims: Vec::new(),
            published: 0,
            announce: announces(output),
        },
    )
}

/// What an uninstall does.
#[derive(Clone, Debug, PartialEq, Eq)]
pub enum Uninstall {
    /// The package has no environment: nothing is removed, and that is no
    /// failure.
    NotInstalled,
    /// Remove the environment, then every shim into it.
    Remove(Removal),
}

/// The removal of the package `package`: delete the tree at `env_path`,
/// then the entries of `shim_dir` that are symlinks into it; say so
/// afterwards if `announce` is set.
#[derive(Clone, Debug, PartialEq, Eq)]
pub struct Removal {
    /// The package's normalized name.
    pub package: Vec<u8>,
    pub env_path: Vec<u8>,
    pub shim_dir: Vec<u8>,
    pub announce: bool,
}

/// How the deletion of an environment's tree ended.
#[derive(Clone, Debug, PartialEq, Eq)]
pub enum Deletion {
    /// The tree is gone.
    Deleted,
    /// The tree, or a part of it, was gone before it could be deleted.
    Vanished,
    /// The tree could not be deleted, for the cause given.
    Failed(Vec<u8>),
}

impl Deletion {
    /// Whether the removal goes on to the shims: it does unless the
    /// deletion failed. That something had vanished is no failure.
    pub fn proceeds(&self) -> (yes: bool)
        ensures
            yes == !(self is Failed),
    {
        match self {
            Deletion::Failed(_) => false,
            _ => true,
        }
    }
}

/// What closes the removal of `removal` after the deletion ended with
/// `deletion` and the scan of the shim directory with `scan`: the failure of
/// either is an error that names the package and keeps the cause, the
/// deletion's first; otherwise whether to announce the removal.
pub open spec fn concluded(removal: Removal, deletion: Deletion, scan: Result<(), Vec<u8>>) -> Result<
    bool,
    (Seq<u8>, Seq<u8>),
> {
    match deletion {
        Deletion::Failed(cause) => Err((removal.package@, cause@)),
        _ => match scan {
            Err(cause) => Err((removal.package@, cause@)),
            Ok(_) => Ok(removal.announce),
        },
    }
}

impl Removal {
    /// Closes a removal. `scan` is how reading the shim directory and
    /// removing the stale shims ended; it counts only where the deletion
    /// let the removal proceed.
    pub fn conclude(&self, deletion: Deletion, scan: Result<(), Vec<u8>>) -> (result: Result<
        bool,
        InstallError,
    >)
        ensures
            match concluded(*self, deletion, scan) {
                Ok(announce) => result == Ok::<bool, InstallError>(announce),
                Err((name, why)) => result matches Err(e) && e matches InstallError::UninstallFailed {
                    package,
                    cause,
                } && package@ == name && cause@ == why,
            },
    {
        match deletion {
            Deletion::Failed(cause) => Err(
                InstallError::UninstallFailed { package: self.package.clone(), cause },
            ),
            _ => match scan {
                Err(cause) => Err(
                    InstallError::UninstallFailed { package: self.package.clone(), cause },
                ),
                Ok(_) => Ok(self.announce),
            },
        }
    }
}

/// Decides what uninstalling a package does. `package` is its normalized
/// name, `installed` whether its environment exists. A package that is not
/// installed is left at that, however often this is asked.
pub fn uninstall(
    app_dir: &Vec<u8>,
    package: &Vec<u8>,
    output: CommandOutput,
    installed: bool,
) -> (step: Uninstall)
    ensures
        !installed ==> step is NotInstalled,
        installed ==> (step matches Uninstall::Remove(removal) && removal.package@ == package@
            && removal.env_path@ == env_path_of(app_dir@, package@) && removal.shim_dir@
            == shim_dir_of(app_dir@) && removal.announce == (output != CommandOutput::Quiet)),
{
    if !installed {
        return Uninstall::NotInstalled;
    }
    Uninstall::Remove(
        Removal {
            package: package.clone(),
            env_path: env_path(app_dir, package),
            shim_dir: shim_dir(app_dir),
            announce: announces(output),
        },
    )
}

/// A failed uninstall names the package that was to be removed.
pub proof fn uninstall_failure_names_the_package(
    removal: Removal,
    deletion: Deletion,
    scan: Result<(), Vec<u8>>,
)
    ensures
        concluded(removal, deletion, scan) is Err <==> deletion is Failed || scan is Err,
        concluded(removal, deletion, scan) matches Err(e) ==> e.0 == removal.package@,
        deletion is Vanished && scan is Ok ==> concluded(removal, deletion, scan) == Ok::<
            bool,
            (Seq<u8>, Seq<u8>),
        >(removal.announce),
{
}

/// Whether an operation at this level reports each step it has made.
pub fn announces(output: CommandOutput) -> (yes: bool)
    ensures
        yes == (output != CommandOutput::Quiet),
{
    match output {
        CommandOutput::Quiet => false,
        _ => true,
    }
}

} // verus!
