//! The install workflow as a state machine. The caller performs the work of
//! each state (looking up the database, resolving, downloading, extracting,
//! running maintainer scripts, registering) and reports the outcome as an
//! event; `Install::step` decides the next state.
use vstd::prelude::*;
use crate::errors::InstallError;
use crate::resolve::InstallPlan;
use crate::text::{ends_with, ends_with_str};

verus! {

/// Where an install stands.
#[derive(Debug, Clone, Copy, PartialEq, Eq, Structural)]
pub enum InstallState {
    Start,
    CheckInstalled,
    Resolve,
    DownloadDeps,
    DownloadTarget,
    Extract,
    RunScripts,
    Register,
    Done,
    AlreadyInstalled,
    NotFound,
    /// The package declares `Breaks`: no maintainer script runs.
    BreaksDeclared,
    /// Dependencies are missing from the index and the install is not forced.
    MissingDependency,
    /// A download, an extraction, a script or the registration failed.
    Failed,
}

/// The outcome of the work of a state.
#[derive(Debug, Clone, Copy, PartialEq, Eq, Structural)]
pub enum InstallEvent {
    Begin,
    /// Whether the package is already installed.
    Checked(bool),
    /// Whether the target is in the index, and whether dependencies are missing.
    Resolved(bool, bool),
    /// Whether the download succeeded.
    Downloaded(bool),
    /// Whether the extraction succeeded, and whether the package declares `Breaks`.
    Extracted(bool, bool),
    /// Whether the maintainer scripts succeeded.
    ScriptsRan(bool),
    /// Whether the record was added to the database.
    Registered(bool),
}

/// An install in progress: its state, whether it installs a local archive,
/// and whether missing dependencies are overridden.
#[derive(Debug, Clone, Copy, PartialEq, Eq, Structural)]
pub struct Install {
    pub state: InstallState,
    pub local: bool,
    pub force: bool,
}

/// The state is one an install ends in.
pub open spec fn is_terminal(s: InstallState) -> bool {
    match s {
        InstallState::Done | InstallState::AlreadyInstalled | InstallState::NotFound
        | InstallState::BreaksDeclared | InstallState::MissingDependency
        | InstallState::Failed => true,
        _ => false,
    }
}

/// The transition table. A local archive goes from `Start` to `Extract`,
/// then through `CheckInstalled` to `RunScripts`; a repository package goes
/// through every state in order. An event that does not answer the state's
/// work fails the install; a terminal state stays as it is.
pub open spec fn next_state(s: InstallState, local: bool, force: bool, e: InstallEvent) -> InstallState {
    if is_terminal(s) {
        s
    } else {
        match (s, e) {
            (InstallState::Start, InstallEvent::Begin) => if local {
                InstallState::Extract
            } else {
                InstallState::CheckInstalled
            },
            (InstallState::CheckInstalled, InstallEvent::Checked(installed)) => if installed {
                InstallState::AlreadyInstalled
            } else if local {
                InstallState::RunScripts
            } else {
                InstallState::Resolve
            },
            (InstallState::Resolve, InstallEvent::Resolved(found, missing)) => if !found {
                InstallState::NotFound
            } else if missing && !force {
                InstallState::MissingDependency
            } else {
                InstallState::DownloadDeps
            },
            (InstallState::DownloadDeps, InstallEvent::Downloaded(ok)) => if ok {
                InstallState::DownloadTarget
            } else {
                InstallState::Failed
            },
            (InstallState::DownloadTarget, InstallEvent::Downloaded(ok)) => if ok {
                InstallState::Extract
            } else {
                InstallState::Failed
            },
            (InstallState::Extract, InstallEvent::Extracted(ok, breaks)) => if !ok {
                InstallState::Failed
            } else if breaks {
                InstallState::BreaksDeclared
            } else if local {
                InstallState::CheckInstalled
            } else {
                InstallState::RunScripts
            },
            (InstallState::RunScripts, InstallEvent::ScriptsRan(ok)) => if ok {
                InstallState::Register
            } else {
                InstallState::Failed
            },
            (InstallState::Register, InstallEvent::Registered(ok)) => if ok {
                InstallState::Done
            } else {
                InstallState::Failed
            },
            _ => InstallState::Failed,
        }
    }
}

impl Install {
    /// A new install of `name`: a local archive when it names a `.deb` file.
    pub fn new(name: &str, force: bool) -> (r: Install)
        ensures
            r.state == InstallState::Start,
            r.local == ends_with(name@, ".deb"@),
            r.force == force,
    {
        Install { state: InstallState::Start, local: ends_with_str(name, ".deb"), force }
    }

    /// The install after the outcome `e` of the current state's work.
    pub fn step(&self, e: InstallEvent) -> (r: Install)
        ensures
            r.state == next_state(self.state, self.local, self.force, e),
            r.local == self.local,
            r.force == self.force,
    {
        let s = self.state;
        let next = if s == InstallState::Done || s == InstallState::AlreadyInstalled
            || s == InstallState::NotFound || s == InstallState::BreaksDeclared
            || s == InstallState::MissingDependency || s == InstallState::Failed {
            s
        } else {
            match (s, e) {
                (InstallState::Start, InstallEvent::Begin) => if self.local {
                    InstallState::Extract
                } else {
                    InstallState::CheckInstalled
                },
                (InstallState::CheckInstalled, InstallEvent::Checked(installed)) => if installed {
                    InstallState::AlreadyInstalled
                } else if self.local {
                    InstallState::RunScripts
                } else {
                    InstallState::Resolve
                },
                (InstallState::Resolve, InstallEvent::Resolved(found, missing)) => if !found {
                    InstallState::NotFound
                } else if missing && !self.force {
                    InstallState::MissingDependency
                } else {
                    InstallState::DownloadDeps
                },
                (InstallState::DownloadDeps, InstallEvent::Downloaded(ok)) => if ok {
                    InstallState::DownloadTarget
                } else {
                    InstallState::Failed
                },
                (InstallState::DownloadTarget, InstallEvent::Downloaded(ok)) => if ok {
                    InstallState::Extract
                } else {
                    InstallState::Failed
                },
                (InstallState::Extract, InstallEvent::Extracted(ok, breaks)) => if !ok {
                    InstallState::Failed
                } else if breaks {
                    InstallState::BreaksDeclared
                } else if self.local {
                    InstallState::CheckInstalled
                } else {
                    InstallState::RunScripts
                },
                (InstallState::RunScripts, InstallEvent::ScriptsRan(ok)) => if ok {
                    InstallState::Register
                } else {
                    InstallState::Failed
                },
                (InstallState::Register, InstallEvent::Registered(ok)) => if ok {
                    InstallState::Done
                } else {
                    InstallState::Failed
                },
                _ => InstallState::Failed,
            }
        };
        Install { state: next, local: self.local, force: self.force }
    }

    /// Whether the install has ended.
    pub fn is_finished(&self) -> (r: bool)
        ensures
            r == is_terminal(self.state),
    {
        match self.state {
            InstallState::Done | InstallState::AlreadyInstalled | InstallState::NotFound
            | InstallState::BreaksDeclared | InstallState::MissingDependency
            | InstallState::Failed => true,
            _ => false,
        }
    }

    /// The error that a finished install reports; `None` when it is done or
    /// still running. `failure` is the error that the caller met in the work
    /// of the failing state (a download, extraction, script or registration
    /// error, or the missing dependency that `check_plan` named); it is
    /// reported as it is.
    pub fn error(&self, name: &str, failure: Option<InstallError>) -> (r: Option<InstallError>)
        ensures
            self.state == InstallState::Done ==> r is None,
            !is_terminal(self.state) ==> r is None,
            self.state == InstallState::AlreadyInstalled ==> r == Some(InstallError::AlreadyInstalled),
            self.state == InstallState::NotFound ==> (r matches Some(InstallError::NotFound(n)) && n@ == name@),
            self.state == InstallState::BreaksDeclared ==> (r matches Some(InstallError::Breaks(n)) && n@ == name@),
            (self.state == InstallState::MissingDependency || self.state == InstallState::Failed)
                && failure is Some ==> r == failure,
            self.state == InstallState::MissingDependency && failure is None ==> (r matches Some(
                InstallError::MissingDependency(n),
            ) && n@ == name@),
            self.state == InstallState::Failed && failure is None ==> (r matches Some(
                InstallError::InvalidPackage(n),
            ) && n@ == name@),
    {
        match self.state {
            InstallState::AlreadyInstalled => Some(InstallError::AlreadyInstalled),
            InstallState::NotFound => Some(InstallError::NotFound(name.to_owned())),
            InstallState::BreaksDeclared => Some(InstallError::Breaks(name.to_owned())),
            InstallState::MissingDependency => match failure {
                Some(e) => Some(e),
                None => Some(InstallError::MissingDependency(name.to_owned())),
            },
            InstallState::Failed => match failure {
                Some(e) => Some(e),
                None => Some(InstallError::InvalidPackage(name.to_owned())),
            },
            _ => None,
        }
    }
}

/// Whether a plan may go ahead: an error naming the first missing
/// dependency, unless none is missing or the install is forced.
pub fn check_plan(plan: &InstallPlan, force: bool) -> (r: Result<(), InstallError>)
    ensures
        (force || plan.missing@.len() == 0) ==> r is Ok,
        !force && plan.missing@.len() > 0 ==> (r matches Err(InstallError::MissingDependency(n))
            && n@ == plan.missing@[0]@),
{
    if force || plan.missing.len() == 0 {
        Ok(())
    } else {
        Err(InstallError::MissingDependency(plan.missing[0].clone()))
    }
}

/// A package that declares `Breaks` ends its install in `BreaksDeclared`
/// as soon as it is extracted, and stays there whatever is reported next,
/// so its maintainer scripts never run.
pub proof fn lemma_breaks_stops_install(local: bool, force: bool, e: InstallEvent)
    ensures
        next_state(InstallState::Extract, local, force, InstallEvent::Extracted(true, true))
            == InstallState::BreaksDeclared,
        next_state(InstallState::BreaksDeclared, local, force, e) == InstallState::BreaksDeclared,
{
}

/// Maintainer scripts are reached only from a clean extraction (or, for a
/// local archive, from the database check that follows one): never from a
/// step that reported `Breaks`.
pub proof fn lemma_scripts_follow_clean_extract(s: InstallState, local: bool, force: bool, e: InstallEvent)
    requires
        s != InstallState::RunScripts,
        next_state(s, local, force, e) == InstallState::RunScripts,
    ensures
        (s == InstallState::Extract && e == InstallEvent::Extracted(true, false) && !local)
            || (s == InstallState::CheckInstalled && e == InstallEvent::Checked(false) && local),
        forall|ok: bool| e != InstallEvent::Extracted(ok, true),
{
}

/// A local archive reaches the database check only from a clean extraction.
pub proof fn lemma_local_check_follows_clean_extract(s: InstallState, force: bool, e: InstallEvent)
    requires
        s != InstallState::CheckInstalled,
        next_state(s, true, force, e) == InstallState::CheckInstalled,
    ensures
        s == InstallState::Extract && e == InstallEvent::Extracted(true, false),
{
}

} // verus!
