//! From what the programs tell to the word of how a step went.

use vstd::prelude::*;
use crate::orchestrator::{Event, FailureReason, Step};

verus! {

/// What is known of how a step went, as the programs that ran it tell.
#[derive(Debug, Clone, Copy, PartialEq, Eq, Structural)]
pub struct StepReport {
    /// The user declined the package.
    pub declined: bool,
    /// The rights to install were refused.
    pub privilege_denied: bool,
    /// The local clone has changes that an update would overwrite.
    pub local_changes: bool,
    /// The AUR could not be reached.
    pub unreachable: bool,
    /// The exit code of the program that did the step; none where a signal ended it.
    pub exit_code: Option<i32>,
}

/// The exit code by which the build tool tells that a dependency is not installed.
pub const MISSING_DEPENDENCY_CODE: i32 = 8;

/// The word of how a step went, from what is known of it. A package that
/// was declined is rejected and refused rights are a failure of their own,
/// whatever else is told. Local changes and an unreachable AUR fail the
/// fetch. Otherwise the exit code decides: none is an interruption, 0 a
/// success, and any other a failure of the program, but for the code by
/// which a build tells of a missing dependency.
pub open spec fn event_for(step: Step, report: StepReport) -> Event {
    if report.declined {
        Event::Rejected
    } else if report.privilege_denied {
        Event::Failed(FailureReason::PrivilegeDenied)
    } else if step == Step::Fetch && report.local_changes {
        Event::Failed(FailureReason::LocalChanges)
    } else if step == Step::Fetch && report.unreachable {
        Event::Failed(FailureReason::NetworkError)
    } else {
        match report.exit_code {
            None => Event::Failed(FailureReason::Interrupted),
            Some(code) => if code == 0 {
                Event::Succeeded
            } else if step == Step::Build && code == MISSING_DEPENDENCY_CODE {
                Event::Failed(FailureReason::MissingDependency)
            } else {
                Event::Failed(FailureReason::SubprocessFailure)
            },
        }
    }
}

/// The word of how a step went, from what is known of it.
pub fn event_of(step: Step, report: &StepReport) -> (event: Event)
    ensures
        event == event_for(step, *report),
{
    if report.declined {
        Event::Rejected
    } else if report.privilege_denied {
        Event::Failed(FailureReason::PrivilegeDenied)
    } else if step == Step::Fetch && report.local_changes {
        Event::Failed(FailureReason::LocalChanges)
    } else if step == Step::Fetch && report.unreachable {
        Event::Failed(FailureReason::NetworkError)
    } else {
        match report.exit_code {
            None => Event::Failed(FailureReason::Interrupted),
            Some(code) => if code == 0 {
                Event::Succeeded
            } else if step == Step::Build && code == MISSING_DEPENDENCY_CODE {
                Event::Failed(FailureReason::MissingDependency)
            } else {
                Event::Failed(FailureReason::SubprocessFailure)
            },
        }
    }
}

/// Whether a package that was fetched has to be built: when its build files
/// changed, and, where a rebuild of version-controlled packages is forced,
/// when it is one of them, changed or not.
pub open spec fn must_build(changed: bool, version_controlled: bool, force_rebuild: bool) -> bool {
    changed || (force_rebuild && version_controlled)
}

/// Whether a package that was fetched has to be built.
pub fn needs_build(changed: bool, version_controlled: bool, force_rebuild: bool) -> (build: bool)
    ensures
        build == must_build(changed, version_controlled, force_rebuild),
{
    changed || (force_rebuild && version_controlled)
}

} // verus!
