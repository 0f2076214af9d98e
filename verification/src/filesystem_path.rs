//! Paths that enforcement may act on: absolute, without detours, and opened
//! at the place that they name.

use vstd::prelude::*;

use crate::acl_entries::{DELETE, FILE_GENERIC_READ, WRITE_DAC};
use crate::native_path::{NativePath, PathModel};

verus! {

/// The right to read a security descriptor.
pub const READ_CONTROL: u32 = 0x0002_0000;

/// Others may read while the object is open.
pub const FILE_SHARE_READ: u32 = 1;

/// Others may write while the object is open.
pub const FILE_SHARE_WRITE: u32 = 2;

/// The attribute of an object that stands for another one.
pub const FILE_ATTRIBUTE_REPARSE_POINT: u32 = 0x400;

/// The status of an object that does not exist.
pub const ERROR_FILE_NOT_FOUND: u32 = 2;

/// The status of a path whose directory does not exist.
pub const ERROR_PATH_NOT_FOUND: u32 = 3;

/// What an object is opened for.
#[derive(Clone, Copy, Debug, PartialEq, Eq, Structural)]
pub enum OpenPurpose {
    /// To read and change its access-control list.
    Acl,
    /// To read its security descriptor back.
    Readback,
    /// To read its security descriptor and its contents back.
    FileReadback,
    /// To execute it, while nobody writes to it.
    FileExecution,
    /// To remove it.
    Cleanup,
    /// To read its contents and remove it.
    FileCleanup,
}

impl OpenPurpose {
    /// Whether the contents are read.
    pub open spec fn reads_contents(self) -> bool {
        self is FileReadback || self is FileExecution || self is FileCleanup
    }

    /// Whether the access-control list may be changed.
    pub open spec fn changes_acl(self) -> bool {
        self is Acl || self is Cleanup || self is FileCleanup
    }

    /// Whether the object may be deleted.
    pub open spec fn deletes(self) -> bool {
        self is Cleanup || self is FileCleanup
    }

    /// The rights that the purpose takes.
    pub open spec fn rights(self) -> u32 {
        READ_CONTROL | (if self.changes_acl() {
            WRITE_DAC
        } else {
            0
        }) | (if self.deletes() {
            DELETE
        } else {
            0
        }) | (if self.reads_contents() {
            FILE_GENERIC_READ
        } else {
            0
        })
    }

    /// The rights that the purpose takes.
    pub fn access(self) -> (mask: u32)
        ensures
            mask == self.rights(),
    {
        let acl: u32 = match self {
            OpenPurpose::Acl | OpenPurpose::Cleanup | OpenPurpose::FileCleanup => WRITE_DAC,
            _ => 0,
        };
        let delete: u32 = match self {
            OpenPurpose::Cleanup | OpenPurpose::FileCleanup => DELETE,
            _ => 0,
        };
        let read: u32 = match self {
            OpenPurpose::FileReadback | OpenPurpose::FileExecution | OpenPurpose::FileCleanup =>
            FILE_GENERIC_READ,
            _ => 0,
        };
        READ_CONTROL | acl | delete | read
    }

    /// What others may do meanwhile: all but writing to what is executed.
    pub fn share_mode(self) -> (mode: u32)
        ensures
            mode == (if self is FileExecution {
                FILE_SHARE_READ
            } else {
                FILE_SHARE_READ | FILE_SHARE_WRITE
            }),
    {
        match self {
            OpenPurpose::FileExecution => FILE_SHARE_READ,
            _ => FILE_SHARE_READ | FILE_SHARE_WRITE,
        }
    }
}

/// The number of a volume and of an object on it.
#[derive(Clone, Copy, Debug)]
pub struct FilesystemObjectIdentity {
    /// The volume.
    pub volume_serial_number: u64,
    /// The object on the volume.
    pub file_id: [u8; 16],
}

/// Why a path is not accepted, with paths of type `P`.
#[derive(Debug)]
pub enum ValidatedPathError<P> {
    /// The path is not absolute.
    Relative {
        /// The rejected path.
        path: P,
    },
    /// The path holds `..`.
    ParentTraversal {
        /// The rejected path.
        path: P,
    },
    /// The path holds a zero code unit.
    Nul {
        /// The rejected path.
        path: P,
    },
    /// The object could not be opened.
    Open {
        /// The requested path.
        path: P,
        /// The native status.
        code: u32,
    },
    /// The object's attributes could not be read.
    AttributeRead {
        /// The requested path.
        path: P,
        /// The native status.
        code: u32,
    },
    /// The object's identity could not be read.
    ObjectIdentityRead {
        /// The requested path.
        path: P,
        /// The native status.
        code: u32,
    },
    /// The object stands for another one.
    ReparsePoint {
        /// The requested path.
        path: P,
    },
    /// The path of the opened object could not be read.
    FinalPathRead {
        /// The requested path.
        path: P,
        /// The native status.
        code: u32,
    },
    /// The path of the opened object came with an impossible length.
    FinalPathLength {
        /// The requested path.
        path: P,
    },
    /// The short names of the path could not be expanded.
    LongPathRead {
        /// The requested path.
        path: P,
        /// The native status.
        code: u32,
    },
    /// The expanded path came with an impossible length.
    LongPathLength {
        /// The requested path.
        path: P,
    },
    /// The opened object lies elsewhere.
    FinalPathMismatch {
        /// The requested path.
        requested: P,
        /// The path of the opened object.
        final_path: P,
    },
}

impl View for ValidatedPathError<NativePath> {
    type V = ValidatedPathError<PathModel>;

    open spec fn view(&self) -> ValidatedPathError<PathModel> {
        match *self {
            ValidatedPathError::Relative { path } => ValidatedPathError::Relative { path: path@ },
            ValidatedPathError::ParentTraversal { path } => ValidatedPathError::ParentTraversal {
                path: path@,
            },
            ValidatedPathError::Nul { path } => ValidatedPathError::Nul { path: path@ },
            ValidatedPathError::Open { path, code } => ValidatedPathError::Open {
                path: path@,
                code,
            },
            ValidatedPathError::AttributeRead { path, code } => ValidatedPathError::AttributeRead {
                path: path@,
                code,
            },
            ValidatedPathError::ObjectIdentityRead { path, code } =>
            ValidatedPathError::ObjectIdentityRead { path: path@, code },
            ValidatedPathError::ReparsePoint { path } => ValidatedPathError::ReparsePoint {
                path: path@,
            },
            ValidatedPathError::FinalPathRead { path, code } => ValidatedPathError::FinalPathRead {
                path: path@,
                code,
            },
            ValidatedPathError::FinalPathLength { path } => ValidatedPathError::FinalPathLength {
                path: path@,
            },
            ValidatedPathError::LongPathRead { path, code } => ValidatedPathError::LongPathRead {
                path: path@,
                code,
            },
            ValidatedPathError::LongPathLength { path } => ValidatedPathError::LongPathLength {
                path: path@,
            },
            ValidatedPathError::FinalPathMismatch { requested, final_path } =>
            ValidatedPathError::FinalPathMismatch {
                requested: requested@,
                final_path: final_path@,
            },
        }
    }
}

impl Clone for ValidatedPathError<NativePath> {
    fn clone(&self) -> (copy: Self)
        ensures
            copy@ == self@,
    {
        match self {
            ValidatedPathError::Relative { path } => ValidatedPathError::Relative {
                path: path.clone(),
            },
            ValidatedPathError::ParentTraversal { path } => ValidatedPathError::ParentTraversal {
                path: path.clone(),
            },
            ValidatedPathError::Nul { path } => ValidatedPathError::Nul { path: path.clone() },
            ValidatedPathError::Open { path, code } => ValidatedPathError::Open {
                path: path.clone(),
                code: *code,
            },
            ValidatedPathError::AttributeRead { path, code } => ValidatedPathError::AttributeRead {
                path: path.clone(),
                code: *code,
            },
            ValidatedPathError::ObjectIdentityRead { path, code } =>
            ValidatedPathError::ObjectIdentityRead { path: path.clone(), code: *code },
            ValidatedPathError::ReparsePoint { path } => ValidatedPathError::ReparsePoint {
                path: path.clone(),
            },
            ValidatedPathError::FinalPathRead { path, code } => ValidatedPathError::FinalPathRead {
                path: path.clone(),
                code: *code,
            },
            ValidatedPathError::FinalPathLength { path } => ValidatedPathError::FinalPathLength {
                path: path.clone(),
            },
            ValidatedPathError::LongPathRead { path, code } => ValidatedPathError::LongPathRead {
                path: path.clone(),
                code: *code,
            },
            ValidatedPathError::LongPathLength { path } => ValidatedPathError::LongPathLength {
                path: path.clone(),
            },
            ValidatedPathError::FinalPathMismatch { requested, final_path } =>
            ValidatedPathError::FinalPathMismatch {
                requested: requested.clone(),
                final_path: final_path.clone(),
            },
        }
    }
}

impl ValidatedPathError<NativePath> {
    /// Whether the failure says that nothing exists at the path.
    pub fn is_not_found(&self) -> (yes: bool)
        ensures
            yes <==> (self matches ValidatedPathError::Open { code, .. } && (*code
                == ERROR_FILE_NOT_FOUND || *code == ERROR_PATH_NOT_FOUND)),
    {
        match self {
            ValidatedPathError::Open { code, .. } => *code == ERROR_FILE_NOT_FOUND || *code
                == ERROR_PATH_NOT_FOUND,
            _ => false,
        }
    }
}

/// Why the words of a path are rejected before anything is opened.
pub open spec fn lexical_failure(path: PathModel) -> Option<ValidatedPathError<PathModel>> {
    if !path.is_absolute() {
        Some(ValidatedPathError::Relative { path })
    } else if path.has_parent_traversal() {
        Some(ValidatedPathError::ParentTraversal { path })
    } else if path.has_nul() {
        Some(ValidatedPathError::Nul { path })
    } else {
        None
    }
}

/// Accepts absolute paths without `..` and without zero code units.
pub fn validate_lexical_path(path: &NativePath) -> (result: Result<
    (),
    ValidatedPathError<NativePath>,
>)
    ensures
        match result {
            Ok(()) => lexical_failure(path@) is None,
            Err(error) => lexical_failure(path@) == Some(error@),
        },
{
    if !path.is_absolute() {
        return Err(ValidatedPathError::Relative { path: path.clone() });
    }
    if path.contains_parent_traversal() {
        return Err(ValidatedPathError::ParentTraversal { path: path.clone() });
    }
    if path.contains_nul() {
        return Err(ValidatedPathError::Nul { path: path.clone() });
    }
    Ok(())
}

/// The two calls by which a text of unknown length is read: the first one
/// asks for the length, the second one fills a buffer.
#[derive(Debug)]
pub struct SizedRead {
    /// What the first call returned; zero where it failed.
    pub required: u32,
    /// The status of a failed first call.
    pub required_code: u32,
    /// What the second call returned; zero where it failed.
    pub length: u32,
    /// The status of a failed second call.
    pub length_code: u32,
}

/// How reading a text of unknown length ended.
#[derive(Clone, Copy, Debug, PartialEq, Eq, Structural)]
pub enum SizedReadOutcome {
    /// The buffer holds this many code units.
    Complete {
        /// The number of code units.
        length: u32,
    },
    /// A call failed.
    Failed {
        /// The native status.
        code: u32,
    },
    /// The second call claims more than the buffer holds.
    BadLength,
}

impl SizedRead {
    /// How the read ended, where the buffer has `spare` units beyond the
    /// required ones.
    pub open spec fn outcome(self, spare: int) -> SizedReadOutcome {
        if self.required == 0 {
            SizedReadOutcome::Failed { code: self.required_code }
        } else if self.required + spare > u32::MAX {
            SizedReadOutcome::BadLength
        } else if self.length == 0 {
            SizedReadOutcome::Failed { code: self.length_code }
        } else if self.length >= self.required + spare {
            SizedReadOutcome::BadLength
        } else {
            SizedReadOutcome::Complete { length: self.length }
        }
    }

    /// How the read ended.
    pub fn finish(&self, spare: u32) -> (outcome: SizedReadOutcome)
        ensures
            outcome == self.outcome(spare as int),
    {
        if self.required == 0 {
            SizedReadOutcome::Failed { code: self.required_code }
        } else if self.required > u32::MAX - spare {
            SizedReadOutcome::BadLength
        } else if self.length == 0 {
            SizedReadOutcome::Failed { code: self.length_code }
        } else if self.length >= self.required + spare {
            SizedReadOutcome::BadLength
        } else {
            SizedReadOutcome::Complete { length: self.length }
        }
    }
}

/// What the native calls said of an opened object, each in its turn.
#[derive(Debug)]
pub struct OpenFacts {
    /// Whether the object was opened, or the native status.
    pub opened: Result<(), u32>,
    /// The object's attributes, or the native status.
    pub attributes: Result<u32, u32>,
    /// The object's identity, or the native status.
    pub identity: Result<FilesystemObjectIdentity, u32>,
    /// How the path of the opened object was read.
    pub final_read: SizedRead,
    /// The path of the opened object.
    pub final_path: NativePath,
    /// How the requested path was expanded.
    pub long_read: SizedRead,
    /// The requested path with its short names expanded.
    pub expanded_path: NativePath,
}

/// A path whose object was opened where the path says.
#[derive(Debug)]
pub struct ValidatedPath {
    final_path: NativePath,
    identity: FilesystemObjectIdentity,
}

/// Whether attributes mark an object that stands for another one.
pub open spec fn is_reparse_point(attributes: u32) -> bool {
    attributes & FILE_ATTRIBUTE_REPARSE_POINT != 0
}

/// Why an object is not accepted, in the order in which the facts are read.
pub open spec fn open_failure(path: PathModel, facts: OpenFacts) -> Option<
    ValidatedPathError<PathModel>,
> {
    if lexical_failure(path) is Some {
        lexical_failure(path)
    } else if facts.opened is Err {
        Some(ValidatedPathError::Open { path, code: facts.opened->Err_0 })
    } else if facts.attributes is Err {
        Some(ValidatedPathError::AttributeRead { path, code: facts.attributes->Err_0 })
    } else if is_reparse_point(facts.attributes->Ok_0) {
        Some(ValidatedPathError::ReparsePoint { path })
    } else if facts.identity is Err {
        Some(ValidatedPathError::ObjectIdentityRead { path, code: facts.identity->Err_0 })
    } else if facts.final_read.outcome(1) is Failed {
        Some(
            ValidatedPathError::FinalPathRead { path, code: facts.final_read.outcome(1)->code },
        )
    } else if facts.final_read.outcome(1) is BadLength {
        Some(ValidatedPathError::FinalPathLength { path })
    } else if facts.long_read.outcome(0) is Failed {
        Some(ValidatedPathError::LongPathRead { path, code: facts.long_read.outcome(0)->code })
    } else if facts.long_read.outcome(0) is BadLength {
        Some(ValidatedPathError::LongPathLength { path })
    } else if !facts.expanded_path@.same_path(facts.final_path@) {
        Some(
            ValidatedPathError::FinalPathMismatch {
                requested: path,
                final_path: facts.final_path@,
            },
        )
    } else {
        None
    }
}

impl ValidatedPath {
    /// Where the opened object lies.
    pub closed spec fn location(self) -> PathModel {
        self.final_path@
    }

    /// Which object was opened.
    pub closed spec fn object(self) -> FilesystemObjectIdentity {
        self.identity
    }

    /// Accepts an opened object that is what its path names.
    pub fn open(path: &NativePath, facts: OpenFacts) -> (result: Result<
        ValidatedPath,
        ValidatedPathError<NativePath>,
    >)
        ensures
            match result {
                Ok(validated) => {
                    &&& open_failure(path@, facts) is None
                    &&& validated.location() == facts.final_path@
                    &&& facts.identity == Ok::<FilesystemObjectIdentity, u32>(validated.object())
                },
                Err(error) => open_failure(path@, facts) == Some(error@),
            },
    {
        match validate_lexical_path(path) {
            Ok(()) => {},
            Err(error) => return Err(error),
        }
        match facts.opened {
            Ok(()) => {},
            Err(code) => return Err(ValidatedPathError::Open { path: path.clone(), code }),
        }
        match facts.attributes {
            Ok(attributes) => {
                if attributes & FILE_ATTRIBUTE_REPARSE_POINT != 0 {
                    return Err(ValidatedPathError::ReparsePoint { path: path.clone() });
                }
            },
            Err(code) => return Err(
                ValidatedPathError::AttributeRead { path: path.clone(), code },
            ),
        }
        let identity = match facts.identity {
            Ok(identity) => identity,
            Err(code) => return Err(
                ValidatedPathError::ObjectIdentityRead { path: path.clone(), code },
            ),
        };
        match facts.final_read.finish(1) {
            SizedReadOutcome::Complete { .. } => {},
            SizedReadOutcome::Failed { code } => return Err(
                ValidatedPathError::FinalPathRead { path: path.clone(), code },
            ),
            SizedReadOutcome::BadLength => return Err(
                ValidatedPathError::FinalPathLength { path: path.clone() },
            ),
        }
        match facts.long_read.finish(0) {
            SizedReadOutcome::Complete { .. } => {},
            SizedReadOutcome::Failed { code } => return Err(
                ValidatedPathError::LongPathRead { path: path.clone(), code },
            ),
            SizedReadOutcome::BadLength => return Err(
                ValidatedPathError::LongPathLength { path: path.clone() },
            ),
        }
        if !facts.expanded_path.same_path(&facts.final_path) {
            return Err(
                ValidatedPathError::FinalPathMismatch {
                    requested: path.clone(),
                    final_path: facts.final_path,
                },
            );
        }
        Ok(ValidatedPath { final_path: facts.final_path, identity })
    }

    /// The path of the opened object.
    pub fn final_path(&self) -> (path: &NativePath)
        ensures
            path@ == self.location(),
    {
        &self.final_path
    }

    /// The identity of the opened object.
    pub fn identity(&self) -> (identity: &FilesystemObjectIdentity)
        ensures
            *identity == self.object(),
    {
        &self.identity
    }
}

/// Opening an object found by a scan: one that vanished meanwhile is no
/// failure.
pub fn open_discovered_acl_path(
    opened: Result<ValidatedPath, ValidatedPathError<NativePath>>,
) -> (result: Result<Option<ValidatedPath>, ValidatedPathError<NativePath>>)
    ensures
        match opened {
            Ok(path) => result == Ok::<
                Option<ValidatedPath>,
                ValidatedPathError<NativePath>,
            >(Some(path)),
            Err(error) => if (error matches ValidatedPathError::Open { code, .. } && (code
                == ERROR_FILE_NOT_FOUND || code == ERROR_PATH_NOT_FOUND)) {
                result == Ok::<Option<ValidatedPath>, ValidatedPathError<NativePath>>(None)
            } else {
                result == Err::<Option<ValidatedPath>, ValidatedPathError<NativePath>>(error)
            },
        },
{
    match opened {
        Ok(path) => Ok(Some(path)),
        Err(error) => if error.is_not_found() {
            Ok(None)
        } else {
            Err(error)
        },
    }
}

/// A path is opened only where it is absolute, goes nowhere up, holds no zero, and
/// names an object that is no stand-in for another, whose identity is known and whose
/// own path, as the system has it in full, is the one that was asked for. Where all
/// that holds, it is opened.
pub proof fn opened_paths_are_what_they_name(path: PathModel, facts: OpenFacts)
    ensures
        open_failure(path, facts) is None <==> {
            &&& path.prefix.len() > 0 && path.has_root()
            &&& forall|i: int|
                0 <= i < path.parts.len() ==> #[trigger] path.parts[i] != seq![46u16, 46u16]
                    && !path.parts[i].contains(0)
            &&& !path.prefix.contains(0)
            &&& facts.opened is Ok
            &&& facts.attributes matches Ok(attributes) && attributes / 0x400 % 2 == 0
            &&& facts.identity is Ok
            &&& 0 < facts.final_read.length <= facts.final_read.required < u32::MAX
            &&& 0 < facts.long_read.length < facts.long_read.required
            &&& facts.expanded_path@.key() == facts.final_path@.key()
        },
{
    if facts.attributes is Ok {
        let attributes = facts.attributes->Ok_0;
        assert(attributes & 0x400 == 0 <==> attributes / 0x400 % 2 == 0) by (bit_vector);
    }
}

/// What is told of a path that could not be opened is what went wrong with it, with
/// the code of the call that failed.
pub proof fn opening_failures_tell_their_cause(path: PathModel, facts: OpenFacts)
    ensures
        open_failure(path, facts) matches Some(error) ==> match error {
            ValidatedPathError::Relative { path: told } => told == path && !path.is_absolute(),
            ValidatedPathError::ParentTraversal { path: told } => told == path
                && path.has_parent_traversal(),
            ValidatedPathError::Nul { path: told } => told == path && path.has_nul(),
            ValidatedPathError::Open { path: told, code } => told == path && facts.opened == Err::<
                (),
                u32,
            >(code),
            ValidatedPathError::AttributeRead { path: told, code } => told == path
                && facts.attributes == Err::<u32, u32>(code),
            ValidatedPathError::ReparsePoint { path: told } => told == path && facts.opened is Ok
                && (facts.attributes matches Ok(attributes) && is_reparse_point(attributes)),
            ValidatedPathError::ObjectIdentityRead { path: told, code } => told == path
                && facts.identity == Err::<FilesystemObjectIdentity, u32>(code),
            ValidatedPathError::FinalPathRead { path: told, code } => told == path && (
            facts.final_read.required == 0 && code == facts.final_read.required_code
                || facts.final_read.length == 0 && code == facts.final_read.length_code),
            ValidatedPathError::FinalPathLength { path: told } => told == path && (
            facts.final_read.required == u32::MAX || facts.final_read.length
                > facts.final_read.required),
            ValidatedPathError::LongPathRead { path: told, code } => told == path && (
            facts.long_read.required == 0 && code == facts.long_read.required_code
                || facts.long_read.length == 0 && code == facts.long_read.length_code),
            ValidatedPathError::LongPathLength { path: told } => told == path
                && facts.long_read.length >= facts.long_read.required,
            ValidatedPathError::FinalPathMismatch { requested, final_path } => requested == path
                && final_path == facts.final_path@ && !facts.expanded_path@.same_path(final_path),
        },
{
}

/// An object is opened for what is to be done with it and no more: its guard is
/// changed, it is deleted and its contents are read only where the purpose says so.
pub proof fn purposes_take_only_their_rights(purpose: OpenPurpose)
    ensures
        purpose.rights() & 0x0002_0000 != 0,
        purpose.rights() & 0x0004_0000 != 0 <==> purpose is Acl || purpose is Cleanup || purpose
            is FileCleanup,
        purpose.rights() & 0x0001_0000 != 0 <==> purpose is Cleanup || purpose is FileCleanup,
        purpose.rights() & 1 != 0 <==> purpose is FileReadback || purpose is FileExecution
            || purpose is FileCleanup,
        purpose.rights() & 0x0008_0156 == 0,
{
    let c: u32 = if purpose.changes_acl() {
        WRITE_DAC
    } else {
        0
    };
    let d: u32 = if purpose.deletes() {
        DELETE
    } else {
        0
    };
    let r: u32 = if purpose.reads_contents() {
        FILE_GENERIC_READ
    } else {
        0
    };
    assert((c == 0 || c == 0x0004_0000) && (d == 0 || d == 0x0001_0000) && (r == 0 || r
        == 0x0012_0089) ==> {
        let all = 0x0002_0000u32 | c | d | r;
        &&& all & 0x0002_0000 != 0
        &&& all & 0x0004_0000 != 0 <==> c != 0
        &&& all & 0x0001_0000 != 0 <==> d != 0
        &&& all & 1 != 0 <==> r != 0
        &&& all & 0x0008_0156 == 0
    }) by (bit_vector);
}

} // verus!
