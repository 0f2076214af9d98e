//! Why access-control lists cannot be planned, applied or taken back.

use vstd::prelude::*;

use crate::filesystem_path::ValidatedPathError;
use crate::native_path::{NativePath, PathModel};

verus! {

/// What was asked of someone's rights.
#[derive(Clone, Copy, Debug, PartialEq, Eq, Structural)]
pub enum AceExpectation {
    /// To be allowed.
    Allow,
    /// To be denied.
    Deny,
    /// To be gone.
    Removed,
}

/// How the state of a path under creation was found.
#[derive(Clone, Copy, Debug, PartialEq, Eq, Structural)]
pub enum MaterializationRecovery {
    /// It was not created.
    Absent,
    /// It was created.
    Present,
}

impl MaterializationRecovery {
    /// The word for the outcome.
    pub fn label(self) -> (label: &'static str)
        ensures
            label@ == (if self is Absent {
                "absent"@
            } else {
                "present"@
            }),
    {
        match self {
            MaterializationRecovery::Absent => "absent",
            MaterializationRecovery::Present => "present",
        }
    }
}

/// Why an access-control operation fails, with paths of type `P` and texts
/// of type `S`.
#[derive(Debug)]
#[allow(inconsistent_fields)]
pub enum FilesystemAclError<P, S> {
    /// A path cannot be enforced.
    InvalidPath(ValidatedPathError<P>),
    /// The capability state returned another number of authorities.
    AuthorityCount {
        /// The number of roles.
        expected: usize,
        /// The number of authorities.
        actual: usize,
    },
    /// A writable root has no authority.
    MissingWriteAuthority {
        /// The root.
        path: P,
    },
    /// An entry of a list could not be read.
    AceRead {
        /// The object.
        path: P,
        /// The entry's position.
        index: u32,
        /// The native status.
        code: u32,
    },
    /// A list holds a malformed entry.
    MalformedAce {
        /// The object.
        path: P,
        /// The entry's position.
        index: u32,
    },
    /// An entry of another type names someone whose entries go.
    UnsupportedGuardAce {
        /// The object.
        path: P,
        /// The entry's type.
        ace_type: u8,
    },
    /// A filtered list is larger than can be said.
    AclSizeOverflow {
        /// The object.
        path: P,
    },
    /// A list stops entries from above where it should not, or the reverse.
    ProtectionMismatch {
        /// The object.
        path: P,
    },
    /// A list differs from what was written.
    DescriptorSnapshotMismatch {
        /// The object.
        path: P,
    },
    /// A list is no complete list.
    InvalidDaclSnapshot {
        /// The object.
        path: P,
    },
    /// The rights of someone differ from what was asked for.
    AceMismatch {
        /// The object.
        path: P,
        /// Whose rights.
        sid: S,
        /// Whether they were to be allowed, denied or removed.
        mode: AceExpectation,
        /// The rights that were asked for.
        expected: u32,
    },
    /// A scan met an object that stands for another.
    ReparsePoint {
        /// The object.
        path: P,
    },
    /// A directory could not be enumerated.
    Enumerate {
        /// The directory.
        path: P,
        /// The system's error number.
        code: i32,
    },
    /// An object could not be inspected.
    Metadata {
        /// The object.
        path: P,
        /// The system's error number.
        code: i32,
    },
    /// A path to create does not lie below its anchor.
    MaterializationOutsideAnchor {
        /// The path.
        path: P,
        /// The anchor.
        anchor: P,
    },
    /// A path to create has no anchor.
    MaterializationMissingAnchor {
        /// The path.
        path: P,
    },
    /// A path to create could not be inspected.
    MaterializationMetadata {
        /// The path.
        path: P,
        /// The system's error number.
        code: i32,
    },
    /// Something appeared at a path to create.
    MaterializationRace {
        /// The path.
        path: P,
    },
    /// A directory could not be created.
    MaterializationCreate {
        /// The directory.
        path: P,
        /// The native status.
        code: u32,
    },
    /// A marker could not be created.
    MaterializationMarkerCreate {
        /// The marker.
        path: P,
        /// The native status.
        code: u32,
    },
    /// A marker could not be written.
    MaterializationMarkerWrite {
        /// The marker.
        path: P,
        /// The system's error number.
        code: i32,
    },
    /// A marker holds something else.
    MaterializationMarkerMismatch {
        /// The marker.
        path: P,
    },
    /// A created object has another owner.
    MaterializationOwnerMismatch {
        /// The object.
        path: P,
    },
    /// The capability state came to another outcome.
    MaterializationOutcome {
        /// The path.
        path: P,
        /// The outcome.
        actual: MaterializationRecovery,
    },
    /// A created object is not the recorded one any more.
    MaterializationDrift {
        /// The object.
        path: P,
    },
    /// A created directory is not empty.
    MaterializationNotEmpty {
        /// The directory.
        path: P,
    },
    /// A created object could not be removed.
    MaterializationRemove {
        /// The object.
        path: P,
        /// The native status.
        code: u32,
    },
    /// A removed object is still there.
    MaterializationRemoveReadBack {
        /// The object.
        path: P,
    },
    /// A list could not be applied.
    AclApply {
        /// The object.
        path: P,
        /// The native status.
        code: u32,
    },
    /// An object is not the recorded one any more.
    AclObjectIdentityMismatch {
        /// The object.
        path: P,
    },
    /// A list was changed by someone else.
    AclBeforeMismatch {
        /// The object.
        path: P,
    },
}

impl View for FilesystemAclError<NativePath, String> {
    type V = FilesystemAclError<PathModel, Seq<char>>;

    open spec fn view(&self) -> FilesystemAclError<PathModel, Seq<char>> {
        match *self {
            FilesystemAclError::InvalidPath(error) => FilesystemAclError::InvalidPath(error@),
            FilesystemAclError::AuthorityCount { expected, actual } => FilesystemAclError::AuthorityCount {
                expected,
                actual,
            },
            FilesystemAclError::MissingWriteAuthority { path } => FilesystemAclError::MissingWriteAuthority {
                path: path@,
            },
            FilesystemAclError::AceRead { path, index, code } => FilesystemAclError::AceRead {
                path: path@,
                index,
                code,
            },
            FilesystemAclError::MalformedAce { path, index } => FilesystemAclError::MalformedAce {
                path: path@,
                index,
            },
            FilesystemAclError::UnsupportedGuardAce { path, ace_type } => FilesystemAclError::UnsupportedGuardAce {
                path: path@,
                ace_type,
            },
            FilesystemAclError::AclSizeOverflow { path } => FilesystemAclError::AclSizeOverflow {
                path: path@,
            },
            FilesystemAclError::ProtectionMismatch { path } => FilesystemAclError::ProtectionMismatch {
                path: path@,
            },
            FilesystemAclError::DescriptorSnapshotMismatch { path } => FilesystemAclError::DescriptorSnapshotMismatch {
                path: path@,
            },
            FilesystemAclError::InvalidDaclSnapshot { path } => FilesystemAclError::InvalidDaclSnapshot {
                path: path@,
            },
            FilesystemAclError::AceMismatch { path, sid, mode, expected } => FilesystemAclError::AceMismatch {
                path: path@,
                sid: sid@,
                mode,
                expected,
            },
            FilesystemAclError::ReparsePoint { path } => FilesystemAclError::ReparsePoint {
                path: path@,
            },
            FilesystemAclError::Enumerate { path, code } => FilesystemAclError::Enumerate {
                path: path@,
                code,
            },
            FilesystemAclError::Metadata { path, code } => FilesystemAclError::Metadata {
                path: path@,
                code,
            },
            FilesystemAclError::MaterializationOutsideAnchor { path, anchor } => FilesystemAclError::MaterializationOutsideAnchor {
                path: path@,
                anchor: anchor@,
            },
            FilesystemAclError::MaterializationMissingAnchor { path } => FilesystemAclError::MaterializationMissingAnchor {
                path: path@,
            },
            FilesystemAclError::MaterializationMetadata { path, code } => FilesystemAclError::MaterializationMetadata {
                path: path@,
                code,
            },
            FilesystemAclError::MaterializationRace { path } => FilesystemAclError::MaterializationRace {
                path: path@,
            },
            FilesystemAclError::MaterializationCreate { path, code } => FilesystemAclError::MaterializationCreate {
                path: path@,
                code,
            },
            FilesystemAclError::MaterializationMarkerCreate { path, code } => FilesystemAclError::MaterializationMarkerCreate {
                path: path@,
                code,
            },
            FilesystemAclError::MaterializationMarkerWrite { path, code } => FilesystemAclError::MaterializationMarkerWrite {
                path: path@,
                code,
            },
            FilesystemAclError::MaterializationMarkerMismatch { path } => FilesystemAclError::MaterializationMarkerMismatch {
                path: path@,
            },
            FilesystemAclError::MaterializationOwnerMismatch { path } => FilesystemAclError::MaterializationOwnerMismatch {
                path: path@,
            },
            FilesystemAclError::MaterializationOutcome { path, actual } => FilesystemAclError::MaterializationOutcome {
                path: path@,
                actual,
            },
            FilesystemAclError::MaterializationDrift { path } => FilesystemAclError::MaterializationDrift {
                path: path@,
            },
            FilesystemAclError::MaterializationNotEmpty { path } => FilesystemAclError::MaterializationNotEmpty {
                path: path@,
            },
            FilesystemAclError::MaterializationRemove { path, code } => FilesystemAclError::MaterializationRemove {
                path: path@,
                code,
            },
            FilesystemAclError::MaterializationRemoveReadBack { path } => FilesystemAclError::MaterializationRemoveReadBack {
                path: path@,
            },
            FilesystemAclError::AclApply { path, code } => FilesystemAclError::AclApply {
                path: path@,
                code,
            },
            FilesystemAclError::AclObjectIdentityMismatch { path } => FilesystemAclError::AclObjectIdentityMismatch {
                path: path@,
            },
            FilesystemAclError::AclBeforeMismatch { path } => FilesystemAclError::AclBeforeMismatch {
                path: path@,
            },
        }
    }
}

/// A failure with its paths and texts.
pub type AclError = FilesystemAclError<NativePath, String>;

/// What a failure says.
pub type AclErrorModel = FilesystemAclError<PathModel, Seq<char>>;

} // verus!
