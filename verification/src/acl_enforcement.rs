//! The order in which a file policy is put in force, and in which everything
//! that it left behind is taken back.

use vstd::prelude::*;

use crate::acl_error::{AclError, AclErrorModel, FilesystemAclError};
use crate::filesystem_plan::MissingFilesystemTarget;
use crate::filesystem_plan::MissingFilesystemTargetKind;
use crate::materialization;
use crate::native_path;
use crate::native_path::NativePath;

verus! {

/// The directories to create for a missing path, parents first. A scope that
/// is left out needs none.
pub fn target_components(target: &MissingFilesystemTarget) -> (result: Result<
    Vec<NativePath>,
    AclError,
>)
    ensures
        match result {
            Ok(paths) => if target@.kind is SkippedScope {
                paths@.len() == 0
            } else {
                target@.anchor matches Some(anchor) && target@.path.is_within(anchor)
                    && materialization::components(anchor, target@.path) == Some(
                    native_path::models(paths@),
                )
            },
            Err(error) => !(target@.kind is SkippedScope) && match target@.anchor {
                None => error@ == (AclErrorModel::MaterializationMissingAnchor {
                    path: target@.path,
                }),
                Some(anchor) => (!target@.path.is_within(anchor) || materialization::components(
                    anchor,
                    target@.path,
                ) is None) && error@ == (AclErrorModel::MaterializationOutsideAnchor {
                    path: target@.path,
                    anchor,
                }),
            },
        },
{
    match target.kind() {
        MissingFilesystemTargetKind::SkippedScope => Ok(Vec::new()),
        _ => match target.anchor() {
            None => Err(
                FilesystemAclError::MaterializationMissingAnchor { path: target.path().clone() },
            ),
            Some(anchor) => materialization::materialization_components(anchor, target.path()),
        },
    }
}

/// The next step of putting a file policy in force, or what it came to, with
/// failures of type `E`.
#[derive(Debug)]
pub enum EnforcementStep<E> {
    /// Open the state store.
    BeginSession,
    /// Settle a change that an earlier process left unfinished.
    RecoverChange,
    /// Settle a creation that an earlier process left unfinished.
    RecoverCreation,
    /// Create the missing directories.
    CreateDirectories,
    /// Get the identities.
    LoadAuthorities,
    /// Plan the lists.
    BuildPlan,
    /// Make the lists.
    PrepareLists,
    /// Change the lists.
    ChangeLists,
    /// Save the state store.
    FinishSession,
    /// The policy is in force.
    Done,
    /// It is not.
    Failed {
        /// Why.
        error: E,
    },
}

impl<E> EnforcementStep<E> {
    /// The step after one that succeeded.
    pub open spec fn next(self) -> EnforcementStep<E> {
        match self {
            EnforcementStep::BeginSession => EnforcementStep::RecoverChange,
            EnforcementStep::RecoverChange => EnforcementStep::RecoverCreation,
            EnforcementStep::RecoverCreation => EnforcementStep::CreateDirectories,
            EnforcementStep::CreateDirectories => EnforcementStep::LoadAuthorities,
            EnforcementStep::LoadAuthorities => EnforcementStep::BuildPlan,
            EnforcementStep::BuildPlan => EnforcementStep::PrepareLists,
            EnforcementStep::PrepareLists => EnforcementStep::ChangeLists,
            EnforcementStep::ChangeLists => EnforcementStep::FinishSession,
            EnforcementStep::FinishSession => EnforcementStep::Done,
            step => step,
        }
    }

    /// Takes the step after the result of a step.
    pub fn advance(self, result: Result<(), E>) -> (step: EnforcementStep<E>)
        requires
            !(self is Done),
            !(self is Failed),
        ensures
            match result {
                Ok(_) => step == self.next(),
                Err(error) => step == (EnforcementStep::<E>::Failed { error }),
            },
    {
        match result {
            Err(error) => EnforcementStep::Failed { error },
            Ok(_) => match self {
                EnforcementStep::BeginSession => EnforcementStep::RecoverChange,
                EnforcementStep::RecoverChange => EnforcementStep::RecoverCreation,
                EnforcementStep::RecoverCreation => EnforcementStep::CreateDirectories,
                EnforcementStep::CreateDirectories => EnforcementStep::LoadAuthorities,
                EnforcementStep::LoadAuthorities => EnforcementStep::BuildPlan,
                EnforcementStep::BuildPlan => EnforcementStep::PrepareLists,
                EnforcementStep::PrepareLists => EnforcementStep::ChangeLists,
                EnforcementStep::ChangeLists => EnforcementStep::FinishSession,
                EnforcementStep::FinishSession => EnforcementStep::Done,
                step => step,
            },
        }
    }
}

/// Lists are changed only after whatever an earlier process left unfinished
/// was settled.
pub proof fn unfinished_work_is_settled_first<E>(step: EnforcementStep<E>)
    ensures
        step.next() is ChangeLists ==> step is PrepareLists || step is ChangeLists,
        step.next() is PrepareLists ==> step is BuildPlan || step is PrepareLists,
        step.next() is BuildPlan ==> step is LoadAuthorities || step is BuildPlan,
        step.next() is LoadAuthorities ==> step is CreateDirectories || step is LoadAuthorities,
        step.next() is CreateDirectories ==> step is RecoverCreation || step is CreateDirectories,
        step.next() is RecoverCreation ==> step is RecoverChange || step is RecoverCreation,
{
}

/// The next step of taking back what file policies left behind, or what it
/// came to, with failures of type `E`.
#[derive(Debug)]
pub enum CleanupStep<E> {
    /// Open the state store.
    BeginSession,
    /// Settle a change that an earlier process left unfinished.
    RecoverChange,
    /// Put the lists back.
    RestoreLists,
    /// Settle a creation that an earlier process left unfinished.
    RecoverCreation,
    /// Settle a removal that an earlier process left unfinished.
    RecoverRemoval,
    /// Remove the created directories, the deepest first.
    RemoveDirectories,
    /// See whether the state store holds nothing of files any more.
    CheckComplete,
    /// Save the state store.
    FinishSession,
    /// Everything is taken back.
    Done,
    /// Something is left behind though every step succeeded.
    Incomplete,
    /// It is not taken back.
    Failed {
        /// Why.
        error: E,
    },
}

/// What came of a step.
#[derive(Debug)]
pub enum CleanupEvent<E> {
    /// It succeeded, or failed.
    Done(Result<(), E>),
    /// Whether the state store holds nothing of files any more.
    Complete(bool),
}

impl<E> CleanupStep<E> {
    /// Whether an event can come of the step.
    pub open spec fn expects(self, event: CleanupEvent<E>) -> bool {
        match self {
            CleanupStep::CheckComplete => event is Complete,
            CleanupStep::Done | CleanupStep::Incomplete | CleanupStep::Failed { .. } => false,
            _ => event is Done,
        }
    }

    /// The step after an event.
    pub open spec fn after(self, event: CleanupEvent<E>) -> CleanupStep<E> {
        match (self, event) {
            (_, CleanupEvent::Done(Err(error))) => CleanupStep::Failed { error },
            (CleanupStep::BeginSession, _) => CleanupStep::RecoverChange,
            (CleanupStep::RecoverChange, _) => CleanupStep::RestoreLists,
            (CleanupStep::RestoreLists, _) => CleanupStep::RecoverCreation,
            (CleanupStep::RecoverCreation, _) => CleanupStep::RecoverRemoval,
            (CleanupStep::RecoverRemoval, _) => CleanupStep::RemoveDirectories,
            (CleanupStep::RemoveDirectories, _) => CleanupStep::CheckComplete,
            (CleanupStep::CheckComplete, CleanupEvent::Complete(complete)) => if complete {
                CleanupStep::FinishSession
            } else {
                CleanupStep::Incomplete
            },
            (CleanupStep::FinishSession, _) => CleanupStep::Done,
            (step, _) => step,
        }
    }

    /// Takes the step after an event.
    pub fn advance(self, event: CleanupEvent<E>) -> (step: CleanupStep<E>)
        requires
            self.expects(event),
        ensures
            step == self.after(event),
    {
        match (self, event) {
            (_, CleanupEvent::Done(Err(error))) => CleanupStep::Failed { error },
            (CleanupStep::BeginSession, _) => CleanupStep::RecoverChange,
            (CleanupStep::RecoverChange, _) => CleanupStep::RestoreLists,
            (CleanupStep::RestoreLists, _) => CleanupStep::RecoverCreation,
            (CleanupStep::RecoverCreation, _) => CleanupStep::RecoverRemoval,
            (CleanupStep::RecoverRemoval, _) => CleanupStep::RemoveDirectories,
            (CleanupStep::RemoveDirectories, _) => CleanupStep::CheckComplete,
            (CleanupStep::CheckComplete, CleanupEvent::Complete(complete)) => if complete {
                CleanupStep::FinishSession
            } else {
                CleanupStep::Incomplete
            },
            (CleanupStep::FinishSession, _) => CleanupStep::Done,
            (step, _) => step,
        }
    }
}

/// Directories are removed only after the lists were put back, and everything
/// counts as taken back only where the state store holds nothing of files any
/// more.
pub proof fn cleanup_restores_before_it_removes<E>(step: CleanupStep<E>, event: CleanupEvent<E>)
    requires
        step.expects(event),
    ensures
        step.after(event) is RemoveDirectories ==> step is RecoverRemoval,
        step.after(event) is RecoverRemoval ==> step is RecoverCreation,
        step.after(event) is RecoverCreation ==> step is RestoreLists && (event
            matches CleanupEvent::Done(result) && result is Ok),
        step.after(event) is FinishSession ==> event == CleanupEvent::<E>::Complete(true),
        step.after(event) is Done ==> step is FinishSession,
{
}

impl<E> EnforcementStep<E> {
    /// How many steps come before.
    pub open spec fn place(self) -> int {
        match self {
            EnforcementStep::BeginSession => 0,
            EnforcementStep::RecoverChange => 1,
            EnforcementStep::RecoverCreation => 2,
            EnforcementStep::CreateDirectories => 3,
            EnforcementStep::LoadAuthorities => 4,
            EnforcementStep::BuildPlan => 5,
            EnforcementStep::PrepareLists => 6,
            EnforcementStep::ChangeLists => 7,
            EnforcementStep::FinishSession => 8,
            EnforcementStep::Done => 9,
            EnforcementStep::Failed { .. } => -1,
        }
    }
}

/// Putting a file policy in force takes every step, one after the other, and
/// none twice.
pub proof fn enforcement_takes_every_step<E>(step: EnforcementStep<E>)
    requires
        !(step is Done),
        !(step is Failed),
    ensures
        step.next().place() == step.place() + 1,
{
}

impl<E> CleanupStep<E> {
    /// How many steps come before.
    pub open spec fn place(self) -> int {
        match self {
            CleanupStep::BeginSession => 0,
            CleanupStep::RecoverChange => 1,
            CleanupStep::RestoreLists => 2,
            CleanupStep::RecoverCreation => 3,
            CleanupStep::RecoverRemoval => 4,
            CleanupStep::RemoveDirectories => 5,
            CleanupStep::CheckComplete => 6,
            CleanupStep::FinishSession => 7,
            CleanupStep::Done => 8,
            CleanupStep::Incomplete => -1,
            CleanupStep::Failed { .. } => -2,
        }
    }
}

/// Taking back takes every step, one after the other. It stops where a step
/// fails, for that cause, and where something is left behind, and nowhere else.
pub proof fn cleanup_takes_every_step<E>(step: CleanupStep<E>, event: CleanupEvent<E>)
    requires
        step.expects(event),
    ensures
        match event {
            CleanupEvent::Done(Ok(_)) => step.after(event).place() == step.place() + 1,
            CleanupEvent::Done(Err(error)) => step.after(event) == (CleanupStep::<E>::Failed {
                error,
            }),
            CleanupEvent::Complete(true) => step.after(event).place() == step.place() + 1,
            CleanupEvent::Complete(false) => step.after(event) is Incomplete,
        },
{
}

} // verus!
