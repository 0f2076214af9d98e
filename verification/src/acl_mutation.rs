//! Changing one object's access-control list under a journal: what to do
//! next, given what came of the last step.

use vstd::prelude::*;

use crate::aces;
use crate::aces::ObservedEntry;
use crate::acl_entries::AclEntry;
use crate::acl_error::{AclError, AclErrorModel, FilesystemAclError};
use crate::acl_operations;
use crate::bytes;
use crate::filesystem_path::FilesystemObjectIdentity;
use crate::native_path;
use crate::native_path::{NativePath, PathModel};
use crate::ordering;

verus! {

/// The least size of a complete list.
pub const MIN_DACL_BYTES: usize = 8;

/// The greatest size of a complete list.
pub const MAX_DACL_BYTES: usize = 65535;

/// Writes of a list.
pub const DACL_SECURITY_INFORMATION: u32 = 4;

/// Writes of a list that takes nothing from above.
pub const PROTECTED_DACL_SECURITY_INFORMATION: u32 = 0x8000_0000;

/// Writes of a list that takes what comes from above.
pub const UNPROTECTED_DACL_SECURITY_INFORMATION: u32 = 0x2000_0000;

/// A complete list as it can be kept.
#[verifier::ext_equal]
pub struct DaclModel {
    /// Its bytes.
    pub bytes: Seq<u8>,
    /// Whether it takes nothing from above.
    pub protected: bool,
}

/// A complete list as it can be kept.
#[derive(Clone, Debug)]
pub struct PersistedDacl {
    /// Its bytes.
    pub bytes: Vec<u8>,
    /// Whether it takes nothing from above.
    pub protected: bool,
}

impl View for PersistedDacl {
    type V = DaclModel;

    open spec fn view(&self) -> DaclModel {
        DaclModel { bytes: self.bytes@, protected: self.protected }
    }
}

/// The list that native bytes in use make up, if they are a complete list:
/// its size says the bytes in use.
pub open spec fn snapshot(used: Seq<u8>, protected: bool) -> Option<DaclModel> {
    if MIN_DACL_BYTES <= used.len() <= MAX_DACL_BYTES {
        Some(
            DaclModel {
                bytes: used.update(2, (used.len() % 256) as u8).update(
                    3,
                    (used.len() / 256) as u8,
                ),
                protected,
            },
        )
    } else {
        None
    }
}

/// The list that native bytes in use make up, if they are a complete list.
pub fn snapshot_acl(used: Vec<u8>, protected: bool) -> (dacl: Option<PersistedDacl>)
    ensures
        match (dacl, snapshot(used@, protected)) {
            (Some(taken), Some(expected)) => taken@ == expected,
            (None, None) => true,
            _ => false,
        },
{
    let length: usize = used.len();
    if length < MIN_DACL_BYTES || length > MAX_DACL_BYTES {
        return None;
    }
    let mut bytes = used;
    bytes.set(2, (length % 256) as u8);
    bytes.set(3, (length / 256) as u8);
    Some(PersistedDacl { bytes, protected })
}

/// The list of an object, or that it is no complete list.
pub fn snapshot_dacl(path: &NativePath, used: Vec<u8>, protected: bool) -> (result: Result<
    PersistedDacl,
    AclError,
>)
    ensures
        match (result, snapshot(used@, protected)) {
            (Ok(taken), Some(expected)) => taken@ == expected,
            (Err(error), None) => error@ == (AclErrorModel::InvalidDaclSnapshot { path: path@ }),
            _ => false,
        },
{
    match snapshot_acl(used, protected) {
        Some(dacl) => Ok(dacl),
        None => Err(FilesystemAclError::InvalidDaclSnapshot { path: path.clone() }),
    }
}

/// Whether two lists are the same.
pub fn same_dacl(a: &PersistedDacl, b: &PersistedDacl) -> (same: bool)
    ensures
        same == (a@ == b@),
{
    a.protected == b.protected && bytes::same_bytes(a.bytes.as_slice(), b.bytes.as_slice())
}

/// Whether two objects are one.
pub fn same_identity(a: &FilesystemObjectIdentity, b: &FilesystemObjectIdentity) -> (same: bool)
    ensures
        same == (a.volume_serial_number == b.volume_serial_number && a.file_id@ == b.file_id@),
{
    a.volume_serial_number == b.volume_serial_number && bytes::same_bytes(
        a.file_id.as_slice(),
        b.file_id.as_slice(),
    )
}

/// Whether two objects are one.
pub open spec fn is_same_object(a: FilesystemObjectIdentity, b: FilesystemObjectIdentity) -> bool {
    a.volume_serial_number == b.volume_serial_number && a.file_id@ == b.file_id@
}

/// What to write along with a list.
pub open spec fn write_information(protect: bool) -> u32 {
    if protect {
        DACL_SECURITY_INFORMATION | PROTECTED_DACL_SECURITY_INFORMATION
    } else {
        DACL_SECURITY_INFORMATION
    }
}

/// What to write along with a list that is put back.
pub open spec fn restore_information(protected: bool) -> u32 {
    if protected {
        DACL_SECURITY_INFORMATION | PROTECTED_DACL_SECURITY_INFORMATION
    } else {
        DACL_SECURITY_INFORMATION | UNPROTECTED_DACL_SECURITY_INFORMATION
    }
}

/// What to write along with a new list.
pub fn information_for_write(protect: bool) -> (information: u32)
    ensures
        information == write_information(protect),
{
    if protect {
        DACL_SECURITY_INFORMATION | PROTECTED_DACL_SECURITY_INFORMATION
    } else {
        DACL_SECURITY_INFORMATION
    }
}

/// What to write along with a list that is put back.
pub fn information_for_restore(protected: bool) -> (information: u32)
    ensures
        information == restore_information(protected),
{
    if protected {
        DACL_SECURITY_INFORMATION | PROTECTED_DACL_SECURITY_INFORMATION
    } else {
        DACL_SECURITY_INFORMATION | UNPROTECTED_DACL_SECURITY_INFORMATION
    }
}

/// An object whose list was changed before.
#[derive(Debug)]
pub struct ManagedAcl {
    /// Where it is.
    pub path: NativePath,
    /// Which object it is.
    pub identity: FilesystemObjectIdentity,
    /// Its list as it was written last.
    pub current: PersistedDacl,
    /// Its list before the first change.
    pub original: PersistedDacl,
}

/// An entry with its native identifier.
#[derive(Debug)]
pub struct PreparedAclEntry {
    /// What the entry says.
    pub declaration: AclEntry,
    /// Whom it is about.
    pub sid: Vec<u8>,
}

/// The native access mode that takes entries out of a list.
pub const REVOKE_ACCESS: i32 = 4;

/// An entry as the system takes it when it builds a list.
#[derive(Debug)]
pub struct ExplicitEntry {
    /// Whom it is about.
    pub sid: Vec<u8>,
    /// The native access mode.
    pub mode: i32,
    /// The rights.
    pub mask: u32,
    /// The native inheritance flags.
    pub inheritance: u32,
}

/// What an entry that the system takes says.
#[verifier::ext_equal]
pub struct ExplicitModel {
    /// Whom it is about.
    pub sid: Seq<u8>,
    /// The native access mode.
    pub mode: i32,
    /// The rights.
    pub mask: u32,
    /// The native inheritance flags.
    pub inheritance: u32,
}

impl View for ExplicitEntry {
    type V = ExplicitModel;

    open spec fn view(&self) -> ExplicitModel {
        ExplicitModel {
            sid: self.sid@,
            mode: self.mode,
            mask: self.mask,
            inheritance: self.inheritance,
        }
    }
}

/// What entries that the system takes say.
pub open spec fn explicit_models(entries: Seq<ExplicitEntry>) -> Seq<ExplicitModel> {
    entries.map_values(|entry: ExplicitEntry| entry@)
}

/// The entries that take everyone out of a list who is declared in it anew.
pub open spec fn revoking(entries: Seq<PreparedAclEntry>) -> Seq<ExplicitModel> {
    entries.map_values(
        |entry: PreparedAclEntry|
            ExplicitModel { sid: entry.sid@, mode: REVOKE_ACCESS, mask: 0, inheritance: 0 },
    )
}

/// The entries that declare everyone.
pub open spec fn declaring(entries: Seq<PreparedAclEntry>) -> Seq<ExplicitModel> {
    entries.map_values(
        |entry: PreparedAclEntry|
            ExplicitModel {
                sid: entry.sid@,
                mode: entry.declaration@.mode.native_mode(),
                mask: entry.declaration@.mask,
                inheritance: entry.declaration@.inheritance.flags(),
            },
    )
}

/// The two steps by which the system builds a list: first everyone who is
/// declared is taken out, then the declarations are put in.
pub fn canonical_acl(entries: &Vec<PreparedAclEntry>) -> (steps: (
    Vec<ExplicitEntry>,
    Vec<ExplicitEntry>,
))
    ensures
        explicit_models(steps.0@) == revoking(entries@),
        explicit_models(steps.1@) == declaring(entries@),
{
    let mut revocations: Vec<ExplicitEntry> = Vec::new();
    let mut declarations: Vec<ExplicitEntry> = Vec::new();
    for i in 0..entries.len()
        invariant
            revocations@.len() == i,
            declarations@.len() == i,
            forall|j: int| 0 <= j < i ==> (#[trigger] revocations@[j])@ == revoking(entries@)[j],
            forall|j: int| 0 <= j < i ==> (#[trigger] declarations@[j])@ == declaring(entries@)[j],
    {
        let entry = &entries[i];
        revocations.push(
            ExplicitEntry {
                sid: bytes::part(entry.sid.as_slice(), 0, entry.sid.len()),
                mode: REVOKE_ACCESS,
                mask: 0,
                inheritance: 0,
            },
        );
        declarations.push(
            ExplicitEntry {
                sid: bytes::part(entry.sid.as_slice(), 0, entry.sid.len()),
                mode: entry.declaration.mode.native(),
                mask: entry.declaration.mask,
                inheritance: entry.declaration.inheritance.native(),
            },
        );
        assert(entry.sid@.subrange(0, entry.sid@.len() as int) =~= entry.sid@);
    }
    assert(explicit_models(revocations@) =~= revoking(entries@));
    assert(explicit_models(declarations@) =~= declaring(entries@));
    (revocations, declarations)
}

/// Whoever is declared in a list is taken out of it first, so that the list
/// says of them what is declared and nothing else.
pub proof fn declared_are_revoked_first(entries: Seq<PreparedAclEntry>)
    ensures
        revoking(entries).len() == declaring(entries).len(),
        forall|i: int|
            0 <= i < entries.len() ==> (#[trigger] revoking(entries)[i]).sid == declaring(
                entries,
            )[i].sid && revoking(entries)[i].mode == REVOKE_ACCESS,
{
}

/// The change of one object's list.
#[derive(Debug)]
pub struct PreparedAclOperation {
    /// The object.
    pub path: NativePath,
    /// Which object it is.
    pub identity: FilesystemObjectIdentity,
    /// The entries that it gets.
    pub entries: Vec<PreparedAclEntry>,
    /// Whose entries go.
    pub remove_sids: Vec<Vec<u8>>,
    /// Whether entries from above stop here.
    pub protect_dacl: bool,
}

/// Whether an object is managed with a list.
pub open spec fn is_managed_with(
    managed: Seq<ManagedAcl>,
    path: PathModel,
    identity: FilesystemObjectIdentity,
    dacl: DaclModel,
) -> bool {
    exists|i: int|
        0 <= i < managed.len() && {
            &&& (#[trigger] managed[i]).path@.same_path(path)
            &&& is_same_object(managed[i].identity, identity)
            &&& managed[i].current@ == dacl
        }
}

/// Why a list does not give what entries ask for, from the `i`th on.
pub open spec fn entries_failure_from(
    path: PathModel,
    observed: Seq<ObservedEntry>,
    entries: Seq<PreparedAclEntry>,
    i: int,
) -> Option<AclErrorModel>
    decreases entries.len() - i,
{
    if i < 0 || i >= entries.len() {
        None
    } else {
        match aces::entry_failure(
            path,
            observed,
            entries[i].sid@,
            entries[i].declaration@,
            true,
        ) {
            Some(error) => Some(error),
            None => entries_failure_from(path, observed, entries, i + 1),
        }
    }
}

/// Why a list still mentions someone, from the `i`th on.
pub open spec fn removals_failure_from(
    path: PathModel,
    observed: Seq<ObservedEntry>,
    sids: Seq<Vec<u8>>,
    i: int,
) -> Option<AclErrorModel>
    decreases sids.len() - i,
{
    if i < 0 || i >= sids.len() {
        None
    } else {
        match aces::presence_from(path, observed, sids[i]@, 0) {
            Some(error) => Some(error),
            None => removals_failure_from(path, observed, sids, i + 1),
        }
    }
}

/// Why an object's list is not what an operation leaves behind.
pub open spec fn root_failure(
    operation: PreparedAclOperation,
    expected: DaclModel,
    actual: DaclModel,
    observed: Seq<ObservedEntry>,
) -> Option<AclErrorModel> {
    let path = operation.path@;
    if expected.protected != actual.protected {
        Some(FilesystemAclError::ProtectionMismatch { path })
    } else if entries_failure_from(path, observed, operation.entries@, 0) is Some {
        entries_failure_from(path, observed, operation.entries@, 0)
    } else if removals_failure_from(path, observed, operation.remove_sids@, 0) is Some {
        removals_failure_from(path, observed, operation.remove_sids@, 0)
    } else if actual != expected {
        Some(FilesystemAclError::DescriptorSnapshotMismatch { path })
    } else {
        None
    }
}

impl PreparedAclOperation {
    /// Whether the object's list is one that was written before and that
    /// stops entries from above where it has to.
    pub fn matches_current_managed_acl(
        &self,
        managed: &Vec<ManagedAcl>,
        descriptor: &PersistedDacl,
    ) -> (matches: bool)
        ensures
            matches == ((!self.protect_dacl || descriptor.protected) && is_managed_with(
                managed@,
                self.path@,
                self.identity,
                descriptor@,
            )),
    {
        if self.protect_dacl && !descriptor.protected {
            return false;
        }
        for i in 0..managed.len()
            invariant
                forall|j: int|
                    0 <= j < i ==> !{
                        &&& (#[trigger] managed@[j]).path@.same_path(self.path@)
                        &&& is_same_object(managed@[j].identity, self.identity)
                        &&& managed@[j].current@ == descriptor@
                    },
                !self.protect_dacl || descriptor.protected,
        {
            let object = &managed[i];
            if object.path.same_path(&self.path) && same_identity(
                &object.identity,
                &self.identity,
            ) && same_dacl(&object.current, descriptor) {
                return true;
            }
        }
        false
    }

    /// Whether the object's list is what the operation leaves behind.
    pub fn verify_root(
        &self,
        expected: &PersistedDacl,
        actual: &PersistedDacl,
        observed: &Vec<ObservedEntry>,
    ) -> (result: Result<(), AclError>)
        requires
            observed@.len() <= u32::MAX,
            aces::all_whole(observed@),
        ensures
            match (root_failure(*self, expected@, actual@, observed@), result) {
                (None, Ok(_)) => true,
                (Some(failure), Err(error)) => error@ == failure,
                _ => false,
            },
    {
        if expected.protected != actual.protected {
            return Err(FilesystemAclError::ProtectionMismatch { path: self.path.clone() });
        }
        for i in 0..self.entries.len()
            invariant
                observed@.len() <= u32::MAX,
                aces::all_whole(observed@),
                expected.protected == actual.protected,
                entries_failure_from(self.path@, observed@, self.entries@, i as int)
                    == entries_failure_from(self.path@, observed@, self.entries@, 0),
        {
            let entry = &self.entries[i];
            match aces::verify_entry(&self.path, observed, &entry.sid, &entry.declaration, true) {
                Ok(_) => {},
                Err(error) => {
                    return Err(error);
                },
            }
        }
        for i in 0..self.remove_sids.len()
            invariant
                observed@.len() <= u32::MAX,
                aces::all_whole(observed@),
                expected.protected == actual.protected,
                entries_failure_from(self.path@, observed@, self.entries@, 0) is None,
                removals_failure_from(self.path@, observed@, self.remove_sids@, i as int)
                    == removals_failure_from(self.path@, observed@, self.remove_sids@, 0),
        {
            match aces::verify_sid_absent(&self.path, observed, &self.remove_sids[i]) {
                Ok(_) => {},
                Err(error) => {
                    return Err(error);
                },
            }
        }
        if !same_dacl(actual, expected) {
            return Err(
                FilesystemAclError::DescriptorSnapshotMismatch { path: self.path.clone() },
            );
        }
        Ok(())
    }
}

/// Which of its two lists the journal found a changed object with.
#[derive(Clone, Copy, Debug, PartialEq, Eq, Structural)]
pub enum AclMutationRecovery {
    /// The one before the change.
    Previous,
    /// The one after it.
    Next,
}

/// Why the change of a list failed, with failures of single steps of type
/// `E`.
#[derive(Debug)]
#[allow(inconsistent_fields)]
pub enum MutationFailure<E> {
    /// A step failed.
    Step(E),
    /// The list could not be written.
    Apply {
        /// The native status.
        code: u32,
    },
    /// The journal did not find the object with its new list.
    Unresolved,
    /// After a failure the old list could not be written either.
    Rollback {
        /// The native status.
        code: u32,
        /// The failure.
        original: Box<MutationFailure<E>>,
    },
    /// After a failure the journal could not be settled.
    JournalRecovery {
        /// The failure.
        original: Box<MutationFailure<E>>,
        /// Why not.
        recovery: E,
    },
}

/// The next step of the change of a list, or how the change ended.
#[derive(Debug)]
pub enum MutationStep<E> {
    /// Check that the object's list, which was written before, still gives
    /// what is asked for.
    VerifyManaged,
    /// Work out the new list.
    Build,
    /// Check that the list, which does not change, gives what is asked for.
    VerifyUnchanged,
    /// Note the change in the journal.
    BeginJournal,
    /// Write the new list.
    Write,
    /// Check the written list.
    VerifyWritten,
    /// Settle the journal with the written list.
    Resolve,
    /// Write the old list again.
    Restore {
        /// The failure that made it necessary.
        original: MutationFailure<E>,
    },
    /// Settle the journal with the list that the object has.
    Reconcile {
        /// The failure that made it necessary.
        original: MutationFailure<E>,
    },
    /// The object has the list that it has to have.
    Done,
    /// The change failed.
    Failed {
        /// Why.
        failure: MutationFailure<E>,
    },
}

/// What came of a step.
#[derive(Debug)]
pub enum MutationEvent<E> {
    /// The list was checked.
    Verified(Result<(), E>),
    /// The list was checked and gives other rights than asked for.
    Mismatched(E),
    /// The new list was worked out; whether it is the old one.
    Built(Result<bool, E>),
    /// The change was noted.
    Journaled(Result<(), E>),
    /// The list was written, with this native status.
    Written(u32),
    /// The journal was settled.
    Resolved(Result<AclMutationRecovery, E>),
    /// The old list was written again, or the native status.
    Restored(Result<(), u32>),
}

impl<E> MutationStep<E> {
    /// Whether an event can come of the step.
    pub open spec fn expects(self, event: MutationEvent<E>) -> bool {
        match self {
            MutationStep::VerifyManaged
            | MutationStep::VerifyUnchanged
            | MutationStep::VerifyWritten => event is Verified || event is Mismatched,
            MutationStep::Build => event is Built,
            MutationStep::BeginJournal => event is Journaled,
            MutationStep::Write => event is Written,
            MutationStep::Resolve | MutationStep::Reconcile { .. } => event is Resolved,
            MutationStep::Restore { .. } => event is Restored,
            MutationStep::Done | MutationStep::Failed { .. } => false,
        }
    }

    /// The step after an event.
    pub open spec fn after(self, event: MutationEvent<E>) -> MutationStep<E> {
        match (self, event) {
            (MutationStep::VerifyManaged, MutationEvent::Verified(Ok(_))) => MutationStep::Done,
            (MutationStep::VerifyManaged, MutationEvent::Mismatched(_)) => MutationStep::Build,
            (MutationStep::VerifyUnchanged, MutationEvent::Verified(Ok(_))) => MutationStep::Done,
            (MutationStep::VerifyWritten, MutationEvent::Verified(Ok(_))) => MutationStep::Resolve,
            (MutationStep::VerifyWritten, MutationEvent::Verified(Err(error))) =>
                MutationStep::Restore { original: MutationFailure::Step(error) },
            (MutationStep::VerifyWritten, MutationEvent::Mismatched(error)) =>
                MutationStep::Restore { original: MutationFailure::Step(error) },
            (_, MutationEvent::Verified(Err(error))) => MutationStep::Failed {
                failure: MutationFailure::Step(error),
            },
            (_, MutationEvent::Mismatched(error)) => MutationStep::Failed {
                failure: MutationFailure::Step(error),
            },
            (MutationStep::Build, MutationEvent::Built(Ok(unchanged))) => if unchanged {
                MutationStep::VerifyUnchanged
            } else {
                MutationStep::BeginJournal
            },
            (_, MutationEvent::Built(Err(error))) => MutationStep::Failed {
                failure: MutationFailure::Step(error),
            },
            (_, MutationEvent::Journaled(Ok(_))) => MutationStep::Write,
            (_, MutationEvent::Journaled(Err(error))) => MutationStep::Failed {
                failure: MutationFailure::Step(error),
            },
            (_, MutationEvent::Written(status)) => if status == 0 {
                MutationStep::VerifyWritten
            } else {
                MutationStep::Reconcile { original: MutationFailure::Apply { code: status } }
            },
            (MutationStep::Resolve, MutationEvent::Resolved(Ok(recovery))) => match recovery {
                AclMutationRecovery::Next => MutationStep::Done,
                AclMutationRecovery::Previous => MutationStep::Failed {
                    failure: MutationFailure::Unresolved,
                },
            },
            (MutationStep::Resolve, MutationEvent::Resolved(Err(error))) => MutationStep::Failed {
                failure: MutationFailure::Step(error),
            },
            (
                MutationStep::Restore { original },
                MutationEvent::Restored(Ok(_)),
            ) => MutationStep::Reconcile { original },
            (
                MutationStep::Restore { original },
                MutationEvent::Restored(Err(code)),
            ) => MutationStep::Failed {
                failure: MutationFailure::Rollback { code, original: Box::new(original) },
            },
            (
                MutationStep::Reconcile { original },
                MutationEvent::Resolved(Ok(_)),
            ) => MutationStep::Failed { failure: original },
            (
                MutationStep::Reconcile { original },
                MutationEvent::Resolved(Err(recovery)),
            ) => MutationStep::Failed {
                failure: MutationFailure::JournalRecovery {
                    original: Box::new(original),
                    recovery,
                },
            },
            (step, _) => step,
        }
    }

    /// Whether the change is noted in the journal and not settled.
    pub open spec fn is_journaled(self) -> bool {
        self is Write || self is VerifyWritten || self is Resolve || self is Restore
            || self is Reconcile
    }

    /// The first step: a list that was written before is checked first.
    pub fn first(managed: bool) -> (step: MutationStep<E>)
        ensures
            step == (if managed {
                MutationStep::<E>::VerifyManaged
            } else {
                MutationStep::<E>::Build
            }),
    {
        if managed {
            MutationStep::VerifyManaged
        } else {
            MutationStep::Build
        }
    }

    /// Takes the step after an event.
    pub fn advance(self, event: MutationEvent<E>) -> (step: MutationStep<E>)
        requires
            self.expects(event),
        ensures
            step == self.after(event),
    {
        match (self, event) {
            (MutationStep::VerifyManaged, MutationEvent::Verified(Ok(_))) => MutationStep::Done,
            (MutationStep::VerifyManaged, MutationEvent::Mismatched(_)) => MutationStep::Build,
            (MutationStep::VerifyUnchanged, MutationEvent::Verified(Ok(_))) => MutationStep::Done,
            (MutationStep::VerifyWritten, MutationEvent::Verified(Ok(_))) => MutationStep::Resolve,
            (MutationStep::VerifyWritten, MutationEvent::Verified(Err(error))) =>
                MutationStep::Restore { original: MutationFailure::Step(error) },
            (MutationStep::VerifyWritten, MutationEvent::Mismatched(error)) =>
                MutationStep::Restore { original: MutationFailure::Step(error) },
            (_, MutationEvent::Verified(Err(error))) => MutationStep::Failed {
                failure: MutationFailure::Step(error),
            },
            (_, MutationEvent::Mismatched(error)) => MutationStep::Failed {
                failure: MutationFailure::Step(error),
            },
            (_, MutationEvent::Built(Ok(unchanged))) => if unchanged {
                MutationStep::VerifyUnchanged
            } else {
                MutationStep::BeginJournal
            },
            (_, MutationEvent::Built(Err(error))) => MutationStep::Failed {
                failure: MutationFailure::Step(error),
            },
            (_, MutationEvent::Journaled(Ok(_))) => MutationStep::Write,
            (_, MutationEvent::Journaled(Err(error))) => MutationStep::Failed {
                failure: MutationFailure::Step(error),
            },
            (_, MutationEvent::Written(status)) => if status == 0 {
                MutationStep::VerifyWritten
            } else {
                MutationStep::Reconcile { original: MutationFailure::Apply { code: status } }
            },
            (MutationStep::Resolve, MutationEvent::Resolved(Ok(recovery))) => match recovery {
                AclMutationRecovery::Next => MutationStep::Done,
                AclMutationRecovery::Previous => MutationStep::Failed {
                    failure: MutationFailure::Unresolved,
                },
            },
            (MutationStep::Resolve, MutationEvent::Resolved(Err(error))) => MutationStep::Failed {
                failure: MutationFailure::Step(error),
            },
            (
                MutationStep::Restore { original },
                MutationEvent::Restored(Ok(_)),
            ) => MutationStep::Reconcile { original },
            (
                MutationStep::Restore { original },
                MutationEvent::Restored(Err(code)),
            ) => MutationStep::Failed {
                failure: MutationFailure::Rollback { code, original: Box::new(original) },
            },
            (
                MutationStep::Reconcile { original },
                MutationEvent::Resolved(Ok(_)),
            ) => MutationStep::Failed { failure: original },
            (
                MutationStep::Reconcile { original },
                MutationEvent::Resolved(Err(recovery)),
            ) => MutationStep::Failed {
                failure: MutationFailure::JournalRecovery {
                    original: Box::new(original),
                    recovery,
                },
            },
            (step, _) => step,
        }
    }
}

/// The step after several events.
pub open spec fn run<E>(step: MutationStep<E>, events: Seq<MutationEvent<E>>) -> MutationStep<E>
    decreases events.len(),
{
    if events.len() == 0 {
        step
    } else {
        run(step, events.drop_last()).after(events.last())
    }
}

/// Whether every event can come of the step that it follows.
pub open spec fn fits<E>(step: MutationStep<E>, events: Seq<MutationEvent<E>>) -> bool
    decreases events.len(),
{
    events.len() > 0 ==> {
        &&& fits(step, events.drop_last())
        &&& run(step, events.drop_last()).expects(events.last())
    }
}

/// Whether an event is that a change was noted in the journal.
pub open spec fn notes<E>(event: MutationEvent<E>) -> bool {
    event matches MutationEvent::Journaled(noted) && noted is Ok
}

/// Whether a change was noted in the journal.
pub open spec fn was_noted<E>(events: Seq<MutationEvent<E>>) -> bool {
    exists|i: int| 0 <= i < events.len() && notes(#[trigger] events[i])
}

/// Whether a list was written.
pub open spec fn was_written<E>(events: Seq<MutationEvent<E>>) -> bool {
    exists|i: int| 0 <= i < events.len() && (#[trigger] events[i]) is Written
}

/// No list is written that the journal does not know of, whatever comes of
/// the steps: where a list was written, or is about to be, the change was
/// noted before.
pub proof fn journal_comes_before_the_write<E>(
    managed: bool,
    events: Seq<MutationEvent<E>>,
)
    requires
        fits(
            if managed {
                MutationStep::<E>::VerifyManaged
            } else {
                MutationStep::<E>::Build
            },
            events,
        ),
    ensures
        was_written(events) ==> was_noted(events),
        run(
            if managed {
                MutationStep::<E>::VerifyManaged
            } else {
                MutationStep::<E>::Build
            },
            events,
        ).is_journaled() ==> was_noted(events),
    decreases events.len(),
{
    let first = if managed {
        MutationStep::<E>::VerifyManaged
    } else {
        MutationStep::<E>::Build
    };
    if events.len() > 0 {
        let before = events.drop_last();
        journal_comes_before_the_write(managed, before);
        let step = run(first, before);
        if was_noted(before) {
            let i = choose|i: int| 0 <= i < before.len() && notes(#[trigger] before[i]);
            assert(events[i] == before[i]);
        }
        if was_written(events) {
            let i = choose|i: int| 0 <= i < events.len() && (#[trigger] events[i]) is Written;
            if i < before.len() {
                assert(before[i] is Written);
            }
        }
        if step is BeginJournal {
            assert(events.last() is Journaled);
            assert(events[events.len() - 1] == events.last());
        }
    }
}

/// A change that is noted in the journal ends only by settling the journal,
/// or by failing to settle it or to write the old list again: it never just
/// stops.
pub proof fn noted_change_ends_settled<E>(step: MutationStep<E>, event: MutationEvent<E>)
    requires
        step.is_journaled(),
        step.expects(event),
        !step.after(event).is_journaled(),
    ensures
        event is Resolved || (event matches MutationEvent::Restored(restored) && restored is Err),
{
}

/// A change is done only with a list that was checked, and where a list was
/// written also settled in the journal.
pub proof fn done_means_checked<E>(step: MutationStep<E>, event: MutationEvent<E>)
    requires
        step.expects(event),
        step.after(event) is Done,
    ensures
        (event matches MutationEvent::Verified(verified) && verified is Ok) || (step is Resolve
            && event == MutationEvent::<E>::Resolved(Ok(AclMutationRecovery::Next))),
{
}

/// Why a recorded object cannot be taken back to a list, or whether there is
/// something to write.
pub open spec fn take_back(
    path: PathModel,
    recorded: FilesystemObjectIdentity,
    identity: FilesystemObjectIdentity,
    current: DaclModel,
    target: DaclModel,
) -> Result<bool, AclErrorModel> {
    if !is_same_object(recorded, identity) {
        Err(FilesystemAclError::AclObjectIdentityMismatch { path })
    } else {
        Ok(current != target)
    }
}

/// Whether a changed object has to be given its old list again. An object
/// that is not the recorded one is refused.
pub fn needs_rollback(
    path: &NativePath,
    recorded: &FilesystemObjectIdentity,
    identity: &FilesystemObjectIdentity,
    current: &PersistedDacl,
    target: &PersistedDacl,
) -> (result: Result<bool, AclError>)
    ensures
        match (result, take_back(path@, *recorded, *identity, current@, target@)) {
            (Ok(needed), Ok(expected)) => needed == expected,
            (Err(error), Err(failure)) => error@ == failure,
            _ => false,
        },
{
    if !same_identity(recorded, identity) {
        return Err(FilesystemAclError::AclObjectIdentityMismatch { path: path.clone() });
    }
    Ok(!same_dacl(current, target))
}

/// Whether an object has the list that was written.
pub fn verify_read_back(path: &NativePath, actual: &PersistedDacl, target: &PersistedDacl) -> (result:
    Result<(), AclError>)
    ensures
        match result {
            Ok(_) => actual@ == target@,
            Err(error) => actual@ != target@ && error@ == (
            AclErrorModel::DescriptorSnapshotMismatch { path: path@ }),
        },
{
    if same_dacl(actual, target) {
        Ok(())
    } else {
        Err(FilesystemAclError::DescriptorSnapshotMismatch { path: path.clone() })
    }
}

/// Why a managed object may not be given its first list again.
pub open spec fn restore_failure(
    object: ManagedAcl,
    identity: FilesystemObjectIdentity,
    actual: DaclModel,
) -> Option<AclErrorModel> {
    if !is_same_object(identity, object.identity) {
        Some(FilesystemAclError::AclObjectIdentityMismatch { path: object.path@ })
    } else if actual != object.current@ {
        Some(FilesystemAclError::AclBeforeMismatch { path: object.path@ })
    } else {
        None
    }
}

impl ManagedAcl {
    /// Whether the object may be given its first list again: it is the
    /// recorded one and has the list that was written last.
    pub fn check_restorable(&self, identity: &FilesystemObjectIdentity, actual: &PersistedDacl) -> (result:
        Result<(), AclError>)
        ensures
            match (restore_failure(*self, *identity, actual@), result) {
                (None, Ok(_)) => true,
                (Some(failure), Err(error)) => error@ == failure,
                _ => false,
            },
    {
        if !same_identity(identity, &self.identity) {
            return Err(
                FilesystemAclError::AclObjectIdentityMismatch { path: self.path.clone() },
            );
        }
        if !same_dacl(actual, &self.current) {
            return Err(FilesystemAclError::AclBeforeMismatch { path: self.path.clone() });
        }
        Ok(())
    }

    /// Whether the object was given its first list again.
    pub fn check_restored(&self, outcome: AclMutationRecovery, read_back: &PersistedDacl) -> (result:
        Result<(), AclError>)
        ensures
            match result {
                Ok(_) => outcome is Next && read_back@ == self.original@,
                Err(error) => !(outcome is Next && read_back@ == self.original@) && error@ == (
                AclErrorModel::DescriptorSnapshotMismatch { path: self.path@ }),
            },
    {
        match outcome {
            AclMutationRecovery::Next => verify_read_back(&self.path, read_back, &self.original),
            AclMutationRecovery::Previous => Err(
                FilesystemAclError::DescriptorSnapshotMismatch { path: self.path.clone() },
            ),
        }
    }
}

/// Why a run of operations failed.
#[derive(Debug)]
pub enum RunFailure<E> {
    /// An operation failed, and what was done before was taken back.
    Operation(E),
    /// An operation failed, and something done before could not be taken
    /// back.
    JournalRecovery {
        /// The failure.
        original: E,
        /// Why not.
        recovery: E,
    },
}

/// The next step of a run of operations, or how it ended.
#[derive(Debug)]
pub enum RunStep<E> {
    /// Do the operation with this number.
    Operate {
        /// The operation.
        index: usize,
    },
    /// Take back the operation with this number.
    TakeBack {
        /// The operation.
        index: usize,
        /// The failure that made it necessary.
        original: E,
    },
    /// Everything was done.
    Done,
    /// The run failed.
    Failed(RunFailure<E>),
}

/// What came of a step of a run.
#[derive(Debug)]
pub enum RunEvent<E> {
    /// The operation was done.
    Applied,
    /// The operation's object is not there any more.
    Skipped,
    /// The operation failed.
    Failed(E),
    /// An operation was taken back, or why it could not be.
    TakenBack(Result<(), E>),
}

/// A run of operations: each is done in turn, and when one fails those done
/// before are taken back, the last one first.
#[derive(Debug)]
pub struct AclRun<E> {
    /// How many operations there are.
    pub count: usize,
    /// The operations that are done and not taken back.
    pub applied: Vec<usize>,
    /// The next step.
    pub step: RunStep<E>,
}

/// The step that does an operation, or the end of the run.
pub open spec fn operate<E>(index: int, count: usize) -> RunStep<E> {
    if index < count {
        RunStep::Operate { index: index as usize }
    } else {
        RunStep::Done
    }
}

/// The step that takes back the last operation, or the end of the run.
pub open spec fn unwind<E>(applied: Seq<usize>, original: E) -> RunStep<E> {
    if applied.len() > 0 {
        RunStep::TakeBack { index: applied.last(), original }
    } else {
        RunStep::Failed(RunFailure::Operation(original))
    }
}

impl<E> AclRun<E> {
    /// Whether an event can come of the step.
    pub open spec fn expects(self, event: RunEvent<E>) -> bool {
        match self.step {
            RunStep::Operate { .. } => !(event is TakenBack),
            RunStep::TakeBack { .. } => event is TakenBack,
            _ => false,
        }
    }

    /// Whether the operations that are done are some of those before the
    /// next one, in the order in which they were done, and the operation to
    /// take back is the last of them.
    pub open spec fn wf(self) -> bool {
        &&& forall|i: int, j: int|
            0 <= i < j < self.applied@.len() ==> #[trigger] self.applied@[i]
                < #[trigger] self.applied@[j]
        &&& forall|i: int| 0 <= i < self.applied@.len() ==> #[trigger] self.applied@[i] < self.count
        &&& match self.step {
            RunStep::Operate { index } => {
                &&& index < self.count
                &&& forall|i: int|
                    0 <= i < self.applied@.len() ==> #[trigger] self.applied@[i] < index
            },
            RunStep::TakeBack { index, .. } => self.applied@.len() > 0 && index
                == self.applied@.last(),
            RunStep::Done => true,
            RunStep::Failed(failure) => failure is Operation ==> self.applied@.len() == 0,
        }
    }

    /// A run of some operations.
    pub fn start(count: usize) -> (run: AclRun<E>)
        ensures
            run.wf(),
            run.count == count,
            run.applied@ == Seq::<usize>::empty(),
            run.step == operate::<E>(0, count),
    {
        let step = if 0 < count {
            RunStep::Operate { index: 0 }
        } else {
            RunStep::Done
        };
        AclRun { count, applied: Vec::new(), step }
    }

    /// Takes the step after an event.
    pub fn advance(self, event: RunEvent<E>) -> (run: AclRun<E>)
        requires
            self.wf(),
            self.expects(event),
        ensures
            run.wf(),
            run.count == self.count,
            match (self.step, event) {
                (RunStep::Operate { index }, RunEvent::Applied) => {
                    &&& run.applied@ == self.applied@.push(index)
                    &&& run.step == operate::<E>(index + 1, self.count)
                },
                (RunStep::Operate { index }, RunEvent::Skipped) => {
                    &&& run.applied@ == self.applied@
                    &&& run.step == operate::<E>(index + 1, self.count)
                },
                (RunStep::Operate { .. }, RunEvent::Failed(error)) => {
                    &&& run.applied@ == self.applied@
                    &&& run.step == unwind(self.applied@, error)
                },
                (RunStep::TakeBack { original, .. }, RunEvent::TakenBack(Ok(_))) => {
                    &&& run.applied@ == self.applied@.drop_last()
                    &&& run.step == unwind(self.applied@.drop_last(), original)
                },
                (RunStep::TakeBack { original, .. }, RunEvent::TakenBack(Err(recovery))) => {
                    &&& run.applied@ == self.applied@
                    &&& run.step == RunStep::Failed(
                        RunFailure::JournalRecovery { original, recovery },
                    )
                },
                _ => false,
            },
    {
        let count: usize = self.count;
        let mut applied = self.applied;
        match (self.step, event) {
            (RunStep::Operate { index }, RunEvent::Applied) => {
                applied.push(index);
                AclRun { count, applied, step: next_operation(index, count) }
            },
            (RunStep::Operate { index }, RunEvent::Skipped) => AclRun {
                count,
                applied,
                step: next_operation(index, count),
            },
            (RunStep::Operate { .. }, RunEvent::Failed(error)) => {
                let step = take_back_last(&applied, error);
                AclRun { count, applied, step }
            },
            (RunStep::TakeBack { original, .. }, RunEvent::TakenBack(taken)) => {
                match taken {
                    Ok(_) => {
                        let _ = applied.pop();
                        let step = take_back_last(&applied, original);
                        AclRun { count, applied, step }
                    },
                    Err(recovery) => AclRun {
                        count,
                        applied,
                        step: RunStep::Failed(RunFailure::JournalRecovery { original, recovery }),
                    },
                }
            },
            (step, _) => AclRun { count, applied, step },
        }
    }
}

/// The step after an operation.
fn next_operation<E>(index: usize, count: usize) -> (step: RunStep<E>)
    requires
        index < count,
    ensures
        step == operate::<E>(index + 1, count),
{
    if index + 1 < count {
        RunStep::Operate { index: index + 1 }
    } else {
        RunStep::Done
    }
}

/// The step that takes back the last operation.
fn take_back_last<E>(applied: &Vec<usize>, original: E) -> (step: RunStep<E>)
    ensures
        step == unwind(applied@, original),
{
    let length: usize = applied.len();
    if length > 0 {
        RunStep::TakeBack { index: applied[length - 1], original }
    } else {
        RunStep::Failed(RunFailure::Operation(original))
    }
}

/// The words by which objects are ordered that are taken down: the deepest
/// first.
pub open spec fn removal_key(path: PathModel) -> Seq<u32> {
    acl_operations::count_words((u128::MAX - path.component_count()) as nat)
}

/// The keys of paths that are taken down.
pub open spec fn removal_keys(paths: Seq<PathModel>) -> Seq<Seq<u32>> {
    paths.map_values(|path: PathModel| removal_key(path))
}

/// The positions of paths in the order in which they are taken down: the
/// deepest first, those of one depth as they stand.
pub fn removal_order(paths: &Vec<NativePath>) -> (positions: Vec<usize>)
    ensures
        ordering::ascending(positions@, removal_keys(native_path::models(paths@))),
{
    let mut keys: Vec<Vec<u32>> = Vec::new();
    for i in 0..paths.len()
        invariant
            keys@.len() == i,
            forall|j: int| 0 <= j < i ==> (#[trigger] keys@[j])@ == removal_key(paths@[j]@),
    {
        let count: u128 = paths[i].component_count();
        keys.push(acl_operations::words_of_count(u128::MAX - count));
    }
    assert(ordering::key_list(keys@) =~= removal_keys(native_path::models(paths@)));
    ordering::sorted_positions(&keys)
}

/// What lies deeper is taken down first.
pub proof fn deepest_goes_first(
    paths: Seq<PathModel>,
    positions: Seq<usize>,
    i: int,
    j: int,
)
    requires
        ordering::ascending(positions, removal_keys(paths)),
        0 <= i < j < positions.len(),
        forall|k: int|
            0 <= k < paths.len() ==> (#[trigger] paths[k]).component_count() <= u128::MAX,
    ensures
        paths[positions[i] as int].component_count() >= paths[positions[j] as int].component_count(),
{
    let keys = removal_keys(paths);
    let a = paths[positions[i] as int].component_count();
    let b = paths[positions[j] as int].component_count();
    assert(positions[i] != positions[j]);
    assert(ordering::lex_le(keys[positions[i] as int], keys[positions[j] as int]));
    acl_operations::count_words_order((u128::MAX - a) as nat, (u128::MAX - b) as nat);
}

/// What a step of the change of a list comes from: a list is worked out anew only
/// where the one written before gives other rights, a change is noted only for
/// another list, a list is written only after that, checked only once it is
/// written, and settled only once it is checked. What was written and does not hold
/// is taken back, for the cause that was found.
pub proof fn mutation_steps_follow<E>(step: MutationStep<E>, event: MutationEvent<E>)
    requires
        step.expects(event),
    ensures
        match step.after(event) {
            MutationStep::VerifyManaged => false,
            MutationStep::Build => step is VerifyManaged && event is Mismatched,
            MutationStep::VerifyUnchanged => event == MutationEvent::<E>::Built(Ok(true)),
            MutationStep::BeginJournal => event == MutationEvent::<E>::Built(Ok(false)),
            MutationStep::Write => event matches MutationEvent::Journaled(noted) && noted is Ok,
            MutationStep::VerifyWritten => event == MutationEvent::<E>::Written(0),
            MutationStep::Resolve => step is VerifyWritten && (
            event matches MutationEvent::Verified(verified) && verified is Ok),
            MutationStep::Restore { original } => step is VerifyWritten && (
            original matches MutationFailure::Step(error) && (event == MutationEvent::Verified(
                Err(error),
            ) || event == MutationEvent::Mismatched(error))),
            MutationStep::Reconcile { original } => step == (MutationStep::Restore { original }) && (
            event matches MutationEvent::Restored(restored) && restored is Ok) || (
            event matches MutationEvent::Written(status) && status != 0 && original == (
            MutationFailure::<E>::Apply { code: status })),
            MutationStep::Done => (step is VerifyManaged || step is VerifyUnchanged) && (
            event matches MutationEvent::Verified(verified) && verified is Ok) || step is Resolve
                && event == MutationEvent::<E>::Resolved(Ok(AclMutationRecovery::Next)),
            MutationStep::Failed { .. } => true,
        },
{
}

/// Why the change of a list fails, and that it fails wherever it has to: the
/// failure of a step is told as it is, that of taking back with what made it
/// necessary.
pub proof fn mutation_failures_tell_their_cause<E>(step: MutationStep<E>, event: MutationEvent<E>)
    requires
        step.expects(event),
    ensures
        step.after(event) matches MutationStep::Failed { failure } ==> match failure {
            MutationFailure::Step(error) => step == (MutationStep::Reconcile { original: failure })
                && (event matches MutationEvent::Resolved(settled) && settled is Ok) || !(step
                is VerifyWritten) && (event == MutationEvent::Verified(Err(error)) || event
                == MutationEvent::Mismatched(error)) || event == MutationEvent::Built(
                Err::<bool, E>(error),
            ) || event == MutationEvent::Journaled(Err::<(), E>(error)) || step is Resolve && event
                == MutationEvent::Resolved(Err::<AclMutationRecovery, E>(error)),
            MutationFailure::Unresolved => step == (MutationStep::Reconcile { original: failure })
                && event is Resolved || step is Resolve && event == MutationEvent::<E>::Resolved(
                Ok(AclMutationRecovery::Previous),
            ),
            MutationFailure::Apply { .. } => step == (MutationStep::Reconcile { original: failure })
                && (event matches MutationEvent::Resolved(settled) && settled is Ok),
            MutationFailure::Rollback { code, original } => step == (MutationStep::Restore {
                original: *original,
            }) && event == MutationEvent::<E>::Restored(Err(code)) || step == (
            MutationStep::Reconcile { original: failure }),
            MutationFailure::JournalRecovery { original, recovery } => step == (
            MutationStep::Reconcile { original: *original }) && event == MutationEvent::Resolved(
                Err::<AclMutationRecovery, E>(recovery),
            ) || step == (MutationStep::Reconcile { original: failure }),
        },
        step is Reconcile ==> step.after(event) is Failed,
        (event matches MutationEvent::Built(built) && built is Err) ==> step.after(event) is Failed,
        (event matches MutationEvent::Journaled(noted) && noted is Err) ==> step.after(event)
            is Failed,
        (event matches MutationEvent::Restored(restored) && restored is Err) ==> step.after(event)
            is Failed,
        step is VerifyWritten && !(event matches MutationEvent::Verified(verified) && verified is Ok)
            ==> step.after(event) is Restore,
        step is VerifyUnchanged && !(event matches MutationEvent::Verified(verified) && verified
            is Ok) ==> step.after(event) is Failed,
        step is VerifyManaged && (event matches MutationEvent::Verified(verified) && verified
            is Err) ==> step.after(event) is Failed,
        step is VerifyManaged && event is Mismatched ==> step.after(event) is Build,
        step is Resolve && event != MutationEvent::<E>::Resolved(Ok(AclMutationRecovery::Next))
            ==> step.after(event) is Failed,
{
}

/// An object is the recorded one exactly where volume and number agree, so being
/// the same is the same both ways and carries over.
pub proof fn objects_are_told_by_volume_and_number(
    a: FilesystemObjectIdentity,
    b: FilesystemObjectIdentity,
    c: FilesystemObjectIdentity,
)
    ensures
        is_same_object(a, a),
        is_same_object(a, b) == is_same_object(b, a),
        is_same_object(a, b) && is_same_object(b, c) ==> is_same_object(a, c),
        a.volume_serial_number != b.volume_serial_number ==> !is_same_object(a, b),
        a.file_id@ != b.file_id@ ==> !is_same_object(a, b),
{
}

/// An object is taken back only where it is the recorded one, and written only
/// where it does not have the list already. A recorded object may be given its old
/// list only where it still has the list that was written.
pub proof fn only_our_own_change_is_taken_back(
    path: PathModel,
    recorded: FilesystemObjectIdentity,
    identity: FilesystemObjectIdentity,
    current: DaclModel,
    target: DaclModel,
    object: ManagedAcl,
)
    ensures
        take_back(path, recorded, identity, current, target) is Ok
            <==> recorded.volume_serial_number == identity.volume_serial_number
            && recorded.file_id@ == identity.file_id@,
        take_back(path, recorded, identity, current, target) == Ok::<bool, AclErrorModel>(true)
            ==> current != target,
        take_back(path, recorded, identity, current, target) == Ok::<bool, AclErrorModel>(false)
            ==> current == target,
        restore_failure(object, identity, current) is None
            <==> object.identity.volume_serial_number == identity.volume_serial_number
            && object.identity.file_id@ == identity.file_id@ && object.current@ == current,
        restore_failure(object, identity, current) matches Some(error) ==> (error
            is AclObjectIdentityMismatch <==> !is_same_object(identity, object.identity)),
{
}

/// A list that passes gives what the operation asks for: every declared entry
/// is there, no one whose entries go has one, and the list is the expected one to the
/// last byte.
pub proof fn accepted_lists_are_the_expected_ones(
    operation: PreparedAclOperation,
    expected: DaclModel,
    actual: DaclModel,
    observed: Seq<ObservedEntry>,
)
    ensures
        root_failure(operation, expected, actual, observed) is None <==> {
            &&& actual == expected
            &&& forall|k: int|
                0 <= k < operation.entries@.len() ==> aces::entry_failure(
                    operation.path@,
                    observed,
                    (#[trigger] operation.entries@[k]).sid@,
                    operation.entries@[k].declaration@,
                    true,
                ) is None
            &&& forall|k: int|
                0 <= k < operation.remove_sids@.len() ==> aces::presence_from(
                    operation.path@,
                    observed,
                    (#[trigger] operation.remove_sids@[k])@,
                    0,
                ) is None
        },
{
    no_entry_fails(operation.path@, observed, operation.entries@, 0);
    no_removal_fails(operation.path@, observed, operation.remove_sids@, 0);
}

/// No entry fails from the `i`th on where each of them passes.
proof fn no_entry_fails(
    path: PathModel,
    observed: Seq<ObservedEntry>,
    entries: Seq<PreparedAclEntry>,
    i: int,
)
    requires
        0 <= i <= entries.len(),
    ensures
        entries_failure_from(path, observed, entries, i) is None <==> forall|k: int|
            i <= k < entries.len() ==> aces::entry_failure(
                path,
                observed,
                (#[trigger] entries[k]).sid@,
                entries[k].declaration@,
                true,
            ) is None,
    decreases entries.len() - i,
{
    if i < entries.len() {
        no_entry_fails(path, observed, entries, i + 1);
        if entries_failure_from(path, observed, entries, i) is None {
            assert forall|k: int| i <= k < entries.len() implies aces::entry_failure(
                path,
                observed,
                (#[trigger] entries[k]).sid@,
                entries[k].declaration@,
                true,
            ) is None by {}
        }
    }
}

/// No one's absence fails from the `i`th on where each of them passes.
proof fn no_removal_fails(
    path: PathModel,
    observed: Seq<ObservedEntry>,
    sids: Seq<Vec<u8>>,
    i: int,
)
    requires
        0 <= i <= sids.len(),
    ensures
        removals_failure_from(path, observed, sids, i) is None <==> forall|k: int|
            i <= k < sids.len() ==> aces::presence_from(path, observed, (#[trigger] sids[k])@, 0)
                is None,
    decreases sids.len() - i,
{
    if i < sids.len() {
        no_removal_fails(path, observed, sids, i + 1);
    }
}

/// A list is written so that it takes nothing from above exactly where that is
/// asked for, and restored with the protection that it had, whichever that was.
pub proof fn protection_is_written(protect: bool)
    ensures
        write_information(protect) % 8 / 4 == 1,
        restore_information(protect) % 8 / 4 == 1,
        write_information(protect) / 0x8000_0000 == 1 <==> protect,
        restore_information(protect) / 0x8000_0000 == 1 <==> protect,
        restore_information(protect) / 0x2000_0000 % 2 == 1 <==> !protect,
        write_information(protect) / 0x2000_0000 % 2 == 0,
{
    assert(4u32 | 0x8000_0000u32 == 0x8000_0004) by (bit_vector);
    assert(4u32 | 0x2000_0000u32 == 0x2000_0004) by (bit_vector);
}

/// A snapshot keeps every byte of a list but those of its length, which it
/// writes anew, and nothing that is too short or too long for a list.
pub proof fn snapshots_keep_the_list(used: Seq<u8>, protected: bool, i: int)
    ensures
        snapshot(used, protected) is Some <==> 8 <= used.len() <= 65535,
        snapshot(used, protected) matches Some(taken) ==> {
            &&& taken.protected == protected
            &&& taken.bytes.len() == used.len()
            &&& taken.bytes[2] + 256 * taken.bytes[3] == used.len()
            &&& 0 <= i < used.len() && i != 2 && i != 3 ==> taken.bytes[i] == used[i]
            &&& snapshot(taken.bytes, protected) == Some(taken)
        },
{
    if 8 <= used.len() <= 65535 {
        let taken = snapshot(used, protected)->0;
        assert(snapshot(taken.bytes, protected)->0.bytes =~= taken.bytes);
    }
}

/// A run over several objects operates on each in turn, and takes back those
/// that were changed, the last first, before it fails for its first cause.
pub proof fn runs_take_back_in_reverse<E>(applied: Seq<usize>, original: E, index: int, count: usize)
    requires
        0 <= index,
    ensures
        unwind(applied, original) matches RunStep::TakeBack { index: last, original: cause }
            ==> applied.len() > 0 && last == applied[applied.len() - 1] && cause == original,
        unwind(applied, original) matches RunStep::Failed(failure) ==> applied.len() == 0 && failure
            == RunFailure::Operation(original),
        !(unwind(applied, original) is Done),
        !(unwind(applied, original) is Operate),
        operate::<E>(index, count) is Done <==> index >= count,
        operate::<E>(index, count) matches RunStep::Operate { index: at } ==> at == index,
        operate::<E>(index, count) is Done || operate::<E>(index, count) is Operate,
{
}

} // verus!
