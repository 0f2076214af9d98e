//! The files and directories of a setup: opened where they are said to be,
//! and protected as they have to be.

use vstd::prelude::*;

use crate::descriptors;
use crate::descriptors::{DescriptorFacts, ProtectedDescriptor, RunnerResourceKind};
use crate::filesystem_path;
use crate::filesystem_path::{OpenFacts, SizedReadOutcome, ValidatedPathError};
use crate::native_path::{NativePath, PathModel};
use crate::native_strings;
use crate::native_strings::ERROR_INVALID_DATA;
use crate::setup_error::WindowsSetupVerificationError;
use crate::utf16;

verus! {

/// The attribute of a directory.
pub const FILE_ATTRIBUTE_DIRECTORY: u32 = 0x10;

/// Rights to read a file and its protection.
pub const READBACK_ACCESS: u32 = 0x0012_0089;

/// Rights to read a file and its protection and to remove it.
pub const CLEANUP_ACCESS: u32 = 0x0013_0089;

/// Rights to read a directory's protection and attributes.
pub const PIN_ACCESS: u32 = 0x0002_0080;

/// Others may read and write, and not remove.
pub const PIN_SHARE_MODE: u32 = 3;

/// Why a file of a setup is not accepted.
#[derive(Debug)]
pub enum SetupPinnedFileError {
    /// Its path or what lies there is not accepted.
    Path(ValidatedPathError<NativePath>),
    /// It is no directory.
    NotDirectory {
        /// Its path.
        path: NativePath,
    },
}

/// Whether attributes mark a directory.
pub open spec fn is_directory(attributes: u32) -> bool {
    attributes & FILE_ATTRIBUTE_DIRECTORY != 0
}

/// Whether a failure is why a file of a setup is not accepted. The first one
/// counts.
pub open spec fn pinned_failure(
    path: PathModel,
    facts: OpenFacts,
    require_directory: bool,
) -> Option<Option<ValidatedPathError<PathModel>>> {
    if filesystem_path::lexical_failure(path) is Some {
        Some(filesystem_path::lexical_failure(path))
    } else if facts.opened is Err {
        Some(Some(ValidatedPathError::Open { path, code: facts.opened->Err_0 }))
    } else if facts.attributes is Err {
        Some(Some(ValidatedPathError::AttributeRead { path, code: facts.attributes->Err_0 }))
    } else if filesystem_path::is_reparse_point(facts.attributes->Ok_0) {
        Some(Some(ValidatedPathError::ReparsePoint { path }))
    } else if require_directory && !is_directory(facts.attributes->Ok_0) {
        Some(None)
    } else if facts.final_read.outcome(1) is Failed {
        Some(
            Some(
                ValidatedPathError::FinalPathRead { path, code: facts.final_read.outcome(1)->code },
            ),
        )
    } else if facts.final_read.outcome(1) is BadLength {
        Some(Some(ValidatedPathError::FinalPathLength { path }))
    } else if facts.long_read.outcome(0) is Failed {
        Some(
            Some(
                ValidatedPathError::LongPathRead { path, code: facts.long_read.outcome(0)->code },
            ),
        )
    } else if facts.long_read.outcome(0) is BadLength {
        Some(Some(ValidatedPathError::LongPathLength { path }))
    } else if !facts.expanded_path@.same_path(facts.final_path@) {
        Some(
            Some(
                ValidatedPathError::FinalPathMismatch {
                    requested: path,
                    final_path: facts.final_path@,
                },
            ),
        )
    } else {
        None
    }
}

/// Accepts an opened file of a setup that is what its path names.
pub fn open_checked(path: &NativePath, facts: OpenFacts, require_directory: bool) -> (result: Result<
    (),
    SetupPinnedFileError,
>)
    ensures
        match result {
            Ok(_) => pinned_failure(path@, facts, require_directory) is None,
            Err(SetupPinnedFileError::Path(error)) => pinned_failure(
                path@,
                facts,
                require_directory,
            ) == Some(Some(error@)),
            Err(SetupPinnedFileError::NotDirectory { path: refused }) => refused@ == path@
                && pinned_failure(path@, facts, require_directory) == Some(
                None::<ValidatedPathError<PathModel>>,
            ),
        },
{
    match filesystem_path::validate_lexical_path(path) {
        Ok(_) => {},
        Err(error) => return Err(SetupPinnedFileError::Path(error)),
    }
    match facts.opened {
        Ok(_) => {},
        Err(code) => return Err(
            SetupPinnedFileError::Path(ValidatedPathError::Open { path: path.clone(), code }),
        ),
    }
    match facts.attributes {
        Ok(attributes) => {
            if attributes & filesystem_path::FILE_ATTRIBUTE_REPARSE_POINT != 0 {
                return Err(
                    SetupPinnedFileError::Path(
                        ValidatedPathError::ReparsePoint { path: path.clone() },
                    ),
                );
            }
            if require_directory && attributes & FILE_ATTRIBUTE_DIRECTORY == 0 {
                return Err(SetupPinnedFileError::NotDirectory { path: path.clone() });
            }
        },
        Err(code) => return Err(
            SetupPinnedFileError::Path(
                ValidatedPathError::AttributeRead { path: path.clone(), code },
            ),
        ),
    }
    match facts.final_read.finish(1) {
        SizedReadOutcome::Complete { .. } => {},
        SizedReadOutcome::Failed { code } => return Err(
            SetupPinnedFileError::Path(
                ValidatedPathError::FinalPathRead { path: path.clone(), code },
            ),
        ),
        SizedReadOutcome::BadLength => return Err(
            SetupPinnedFileError::Path(ValidatedPathError::FinalPathLength { path: path.clone() }),
        ),
    }
    match facts.long_read.finish(0) {
        SizedReadOutcome::Complete { .. } => {},
        SizedReadOutcome::Failed { code } => return Err(
            SetupPinnedFileError::Path(
                ValidatedPathError::LongPathRead { path: path.clone(), code },
            ),
        ),
        SizedReadOutcome::BadLength => return Err(
            SetupPinnedFileError::Path(ValidatedPathError::LongPathLength { path: path.clone() }),
        ),
    }
    if !facts.expanded_path.same_path(&facts.final_path) {
        return Err(
            SetupPinnedFileError::Path(
                ValidatedPathError::FinalPathMismatch {
                    requested: path.clone(),
                    final_path: facts.final_path,
                },
            ),
        );
    }
    Ok(())
}

/// An accepted file of a setup stands for no other, lies where its path says,
/// and is a directory where it has to be.
pub proof fn accepted_file_is_what_its_path_names(
    path: PathModel,
    facts: OpenFacts,
    require_directory: bool,
)
    requires
        pinned_failure(path, facts, require_directory) is None,
    ensures
        path.is_absolute() && !path.has_parent_traversal() && !path.has_nul(),
        facts.opened is Ok,
        facts.attributes matches Ok(attributes) && !filesystem_path::is_reparse_point(attributes)
            && (require_directory ==> is_directory(attributes)),
        facts.expanded_path@.same_path(facts.final_path@),
{
}

/// What was read of an object's protection.
#[derive(Debug)]
pub struct ProtectionRead {
    /// The native status.
    pub status: u32,
    /// Its text's code units, where it could be written as text, or the native
    /// status.
    pub text: Result<Option<Vec<u16>>, u32>,
    /// What was seen of it.
    pub facts: DescriptorFacts,
}

/// How an object of a setup has to be protected.
#[derive(Debug)]
pub enum RequiredProtection<'a> {
    /// As the setup's own files and directories.
    Setup(ProtectedDescriptor<'a>),
    /// As the runner's files, for a group.
    Runner(&'a str, RunnerResourceKind),
}

/// Whether a protection is as it has to be.
pub open spec fn is_protected_as(
    facts: DescriptorFacts,
    owner_sid: Seq<char>,
    required: RequiredProtection,
) -> bool {
    descriptors::is_owned_and_protected(facts) && match required {
        RequiredProtection::Setup(kind) => descriptors::allows_exactly(
            facts,
            descriptors::protected_grants(owner_sid, kind),
        ),
        RequiredProtection::Runner(group_sid, kind) => descriptors::allows_exactly(
            facts,
            descriptors::resource_grants(owner_sid, group_sid@, kind),
        ),
    }
}

/// Refuses an object that is not protected as it has to be.
pub fn verify_open_dacl<'a, E>(
    path: &NativePath,
    owner_sid: &str,
    required: &RequiredProtection<'a>,
    read: ProtectionRead,
) -> (result: Result<(), WindowsSetupVerificationError<E>>)
    ensures
        match result {
            Ok(_) => read.status == 0 && (read.text matches Ok(Some(units)) && units@.len() > 0)
                && is_protected_as(read.facts, owner_sid@, *required),
            Err(WindowsSetupVerificationError::ProtectedAclRead { path: refused, code }) => refused@
                == path@ && (if read.status != 0 {
                code == read.status
            } else {
                match read.text {
                    Err(status) => code == status,
                    Ok(units) => code == ERROR_INVALID_DATA && (units is None || (units matches Some(
                        list,
                    ) && list@.len() == 0)),
                }
            }),
            Err(WindowsSetupVerificationError::ProtectedSecurityDescriptorMismatch {
                path: refused,
                actual,
            }) => refused@ == path@ && read.status == 0 && !is_protected_as(
                read.facts,
                owner_sid@,
                *required,
            ) && (read.text matches Ok(Some(units)) && units@.len() > 0 && actual@
                == utf16::decode_lossy(native_strings::without_last_zero(units@))),
            Err(_) => false,
        },
{
    if read.status != 0 {
        return Err(
            WindowsSetupVerificationError::ProtectedAclRead {
                path: path.clone(),
                code: read.status,
            },
        );
    }
    let units = match read.text {
        Ok(units) => units,
        Err(code) => return Err(
            WindowsSetupVerificationError::ProtectedAclRead { path: path.clone(), code },
        ),
    };
    let actual = match native_strings::wide_string_with_length(units) {
        Some(actual) => actual,
        None => return Err(
            WindowsSetupVerificationError::ProtectedAclRead {
                path: path.clone(),
                code: ERROR_INVALID_DATA,
            },
        ),
    };
    let matching = match required {
        RequiredProtection::Setup(kind) => descriptors::protected_descriptor_matches(
            &read.facts,
            owner_sid,
            kind,
        ),
        RequiredProtection::Runner(group_sid, kind) => descriptors::descriptor_matches(
            &read.facts,
            owner_sid,
            group_sid,
            *kind,
        ),
    };
    if matching {
        Ok(())
    } else {
        Err(
            WindowsSetupVerificationError::ProtectedSecurityDescriptorMismatch {
                path: path.clone(),
                actual,
            },
        )
    }
}

/// Why a file of the runner is not accepted.
#[derive(Debug)]
pub enum RunnerResourceSecurityError {
    /// It is not where it is said to be.
    Unsafe {
        /// The file.
        path: NativePath,
        /// What is wrong.
        detail: String,
    },
    /// Its protection could not be read.
    Read {
        /// The file.
        path: NativePath,
        /// The native status.
        code: u32,
    },
    /// It is protected otherwise.
    Mismatch {
        /// The file.
        path: NativePath,
        /// Its protection.
        descriptor: String,
    },
}

/// What a setup's verification reports for a file of the runner.
pub fn map_runner_resource_error<E>(error: RunnerResourceSecurityError) -> (mapped:
    WindowsSetupVerificationError<E>)
    ensures
        mapped == (match error {
            RunnerResourceSecurityError::Unsafe {
                path,
                detail,
            } => WindowsSetupVerificationError::<E>::ProtectedPathUnsafe { path, detail },
            RunnerResourceSecurityError::Read {
                path,
                code,
            } => WindowsSetupVerificationError::<E>::ProtectedAclRead { path, code },
            RunnerResourceSecurityError::Mismatch {
                path,
                descriptor,
            } => WindowsSetupVerificationError::<E>::ProtectedSecurityDescriptorMismatch {
                path,
                actual: descriptor,
            },
        }),
{
    match error {
        RunnerResourceSecurityError::Unsafe { path, detail } =>
            WindowsSetupVerificationError::ProtectedPathUnsafe { path, detail },
        RunnerResourceSecurityError::Read { path, code } =>
            WindowsSetupVerificationError::ProtectedAclRead { path, code },
        RunnerResourceSecurityError::Mismatch { path, descriptor } =>
            WindowsSetupVerificationError::ProtectedSecurityDescriptorMismatch {
            path,
            actual: descriptor,
        },
    }
}

} // verus!
