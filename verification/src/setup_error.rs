//! Why a setup cannot be made, read or trusted.

use vstd::prelude::*;

use crate::native_path::NativePath;
use crate::setup_protocol::{SetupFailureCode, SetupStage};

verus! {

/// Which of the managed accounts something is about.
#[derive(Clone, Copy, Debug, PartialEq, Eq, Structural)]
pub enum AccountRole {
    /// The account without direct networking.
    Offline,
    /// The account with direct networking.
    Online,
    /// The group of both.
    Group,
}

impl AccountRole {
    /// The words for it.
    pub fn label(self) -> (label: &'static str)
        ensures
            label@ == (match self {
                AccountRole::Offline => "offline account"@,
                AccountRole::Online => "online account"@,
                AccountRole::Group => "sandbox group"@,
            }),
    {
        match self {
            AccountRole::Offline => "offline account",
            AccountRole::Online => "online account",
            AccountRole::Group => "sandbox group",
        }
    }
}

/// Why the SID of an account cannot be had.
#[derive(Debug)]
pub enum WindowsAccountLookupError {
    /// Its size could not be asked for.
    SidSizeQuery {
        /// The account.
        account: String,
        /// The native status.
        code: u32,
    },
    /// It could not be read.
    SidRead {
        /// The account.
        account: String,
        /// The native status.
        code: u32,
    },
    /// It could not be written as text.
    SidFormat {
        /// The account.
        account: String,
        /// The native status.
        code: u32,
    },
}

/// Why a managed account is not as ordinary as it has to be.
#[derive(Debug)]
pub enum WindowsAccountVerificationError {
    /// Its record could not be read.
    UserRecordRead {
        /// The account.
        account: String,
        /// The native status.
        code: u32,
    },
    /// It has more rights than a user.
    NotRegularUser {
        /// The account.
        account: String,
        /// The rights.
        actual: u32,
    },
    /// It is disabled.
    Disabled {
        /// The account.
        account: String,
    },
    /// It is locked.
    Locked {
        /// The account.
        account: String,
    },
    /// Its groups could not be read.
    GroupEnumeration {
        /// The account.
        account: String,
        /// The native status.
        code: u32,
    },
    /// One of its groups has no name.
    InvalidGroupEntry {
        /// The account.
        account: String,
    },
    /// The SID of one of its groups cannot be had.
    GroupSidLookup {
        /// The account.
        account: String,
        /// The group.
        group: String,
        /// Why.
        source: WindowsAccountLookupError,
    },
    /// It is not in its group.
    MissingManagedGroup {
        /// The account.
        account: String,
        /// The group.
        group: String,
    },
    /// It is in a group with special rights.
    PrivilegedGroupMembership {
        /// The account.
        account: String,
        /// The group's SID.
        group_sid: String,
    },
}

/// Why a part of a setup does not hold when it is read back, with causes of
/// type `E`.
#[derive(Debug)]
#[allow(inconsistent_fields)]
pub enum WindowsSetupVerificationError<E> {
    /// The record of identities could not be read.
    CapabilityStateRead {
        /// The record.
        path: NativePath,
        /// The cause.
        source: E,
    },
    /// The record of identities makes no sense.
    CapabilityStateInvalid {
        /// The record.
        path: NativePath,
        /// What is wrong.
        detail: String,
    },
    /// The listeners' ports cannot be used.
    InvalidProxyPorts {
        /// The ports.
        ports: Vec<u16>,
    },
    /// An account has another SID than the marker says.
    AccountSidMismatch {
        /// Which account.
        component: AccountRole,
        /// The SID in the marker.
        expected: String,
        /// The SID of the account.
        actual: String,
    },
    /// The rights of an account could not be read.
    AccountRightsRead {
        /// The account's SID.
        account: String,
        /// The native status.
        code: u32,
    },
    /// An account lacks a right.
    MissingAccountRight {
        /// The account's SID.
        account: String,
        /// The right.
        right: &'static str,
    },
    /// An account has a right that it must not have.
    UnexpectedAccountRight {
        /// The account's SID.
        account: String,
        /// The right.
        right: &'static str,
    },
    /// The protection of an object could not be read.
    ProtectedAclRead {
        /// The object.
        path: NativePath,
        /// The native status.
        code: u32,
    },
    /// An object is not where it is said to be.
    ProtectedPathUnsafe {
        /// The object.
        path: NativePath,
        /// What is wrong.
        detail: String,
    },
    /// An object is protected otherwise.
    ProtectedSecurityDescriptorMismatch {
        /// The object.
        path: NativePath,
        /// Its protection.
        actual: String,
    },
    /// The passwords could not be read.
    CredentialRead {
        /// The record.
        path: NativePath,
        /// The cause.
        source: E,
    },
    /// The passwords could not be decoded.
    CredentialDecode {
        /// The record.
        path: NativePath,
        /// The cause.
        source: E,
    },
    /// A file has another digest than the marker says.
    DigestMismatch {
        /// Which file.
        component: &'static str,
        /// The digest in the marker.
        expected: String,
        /// The digest of the file.
        actual: String,
    },
    /// A password could not be decrypted.
    CredentialDecrypt {
        /// Whose.
        component: AccountRole,
        /// The native status.
        code: u32,
    },
    /// A password makes no sense.
    CredentialEncoding {
        /// Whose.
        component: AccountRole,
    },
    /// The passwords are for other accounts.
    CredentialIdentityMismatch,
    /// A program could not be read.
    ResourceRead {
        /// The program.
        path: NativePath,
        /// The cause.
        source: E,
    },
    /// The runner's manifest could not be read.
    RunnerManifestRead {
        /// The manifest.
        path: NativePath,
        /// The cause.
        source: E,
    },
    /// The runner's manifest could not be decoded.
    RunnerManifestDecode {
        /// The manifest.
        path: NativePath,
        /// The cause.
        source: E,
    },
    /// The runner's manifest says something else than the marker.
    RunnerManifestFieldMismatch {
        /// In which field.
        field: &'static str,
        /// What it has to say.
        expected: String,
        /// What it says.
        actual: String,
    },
    /// The system's firewall could not be reached.
    FirewallComInitialization {
        /// The native status.
        code: i32,
    },
    /// The policy of the firewall could not be read.
    FirewallPolicyRead {
        /// The native status.
        code: i32,
    },
    /// Rules of this machine have no effect.
    FirewallPolicyIneffective {
        /// The state of the policy.
        state: i32,
    },
    /// No known profile is active, or an unknown one is.
    FirewallActiveProfilesInvalid {
        /// The active profiles as bits.
        mask: i32,
    },
    /// The firewall is off for a profile that is active.
    FirewallProfileDisabled {
        /// The profile.
        profile: i32,
    },
    /// A rule is not there.
    FirewallRuleMissing {
        /// The rule.
        name: String,
    },
    /// A rule says something else than it has to say.
    FirewallRulePropertyMismatch {
        /// The rule.
        name: String,
        /// Where it differs.
        property: &'static str,
        /// What it has to say.
        expected: String,
        /// What it says.
        actual: String,
    },
    /// The packet filter engine could not be opened.
    WfpEngineOpen {
        /// The native status.
        code: u32,
    },
    /// The provider is missing or another.
    WfpProvider {
        /// The native status; zero where it is another.
        code: u32,
    },
    /// The sublayer is missing or another.
    WfpSublayer {
        /// The native status; zero where it is another.
        code: u32,
    },
    /// A filter is missing or another.
    WfpFilter {
        /// The filter.
        name: String,
        /// The native status; zero where it is another.
        code: u32,
    },
}

/// Why a setup cannot be used, with causes of type `E`.
#[derive(Debug)]
#[allow(inconsistent_fields)]
pub enum WindowsSetupError<E> {
    /// The directory for programs' data could not be found.
    ProgramDataUnavailable {
        /// The native status.
        code: i32,
    },
    /// The user's SID could not be read.
    CurrentUserSid {
        /// The cause.
        source: E,
    },
    /// There is no setup.
    Missing {
        /// The marker that is not there.
        path: NativePath,
    },
    /// The marker could not be read.
    StateRead {
        /// The marker.
        path: NativePath,
        /// The cause.
        source: E,
    },
    /// The marker is not where it is said to be.
    StatePathUnsafe {
        /// The marker.
        path: NativePath,
        /// What is wrong.
        detail: String,
    },
    /// The marker could not be decoded.
    StateDecode {
        /// The marker.
        path: NativePath,
        /// The cause.
        source: E,
    },
    /// The setup has another version.
    VersionMismatch {
        /// The version that is needed.
        expected: u32,
        /// The version it has.
        actual: u32,
    },
    /// The setup is another user's.
    OwnerMismatch {
        /// The user.
        expected: String,
        /// Whose it is.
        actual: String,
    },
    /// The accounts are another user's.
    AccountIdentityMismatch,
    /// A part does not hold when it is read back.
    Verification(WindowsSetupVerificationError<E>),
    /// An account's SID cannot be had.
    AccountLookup {
        /// Which account.
        component: AccountRole,
        /// Why.
        source: WindowsAccountLookupError,
    },
    /// An account is not as ordinary as it has to be.
    AccountVerification(WindowsAccountVerificationError),
    /// A program cannot be found.
    HelperUnavailable {
        /// What is wrong.
        detail: String,
    },
    /// A program could not be read.
    HelperResourceRead {
        /// The program.
        path: NativePath,
        /// The cause.
        source: E,
    },
    /// A program is not safe to run.
    HelperResourceUnsafe {
        /// The program.
        path: NativePath,
        /// What is wrong.
        detail: String,
    },
    /// The request could not be written.
    RequestWrite {
        /// Where.
        path: NativePath,
        /// What is wrong.
        detail: String,
    },
    /// The helper could not be run.
    HelperLaunch {
        /// The helper.
        path: NativePath,
        /// The cause.
        source: E,
    },
    /// The helper gave no answer.
    HelperResponseMissing {
        /// Where it should be.
        path: NativePath,
        /// How the helper ended.
        exit_code: u32,
        /// How far it came.
        last_checkpoint: Option<String>,
        /// The cause.
        source: E,
    },
    /// The answer could not be read.
    ResponseRead {
        /// The answer.
        path: NativePath,
        /// The cause.
        source: E,
    },
    /// The answer could not be decoded.
    ResponseDecode {
        /// The answer.
        path: NativePath,
        /// The cause.
        source: E,
    },
    /// The answer has another version.
    ResponseVersionMismatch {
        /// The version that is needed.
        expected: u32,
        /// The version it has.
        actual: u32,
    },
    /// The helper failed though it answered that it was done.
    HelperExitMismatch {
        /// How it ended.
        exit_code: u32,
    },
    /// The user refused.
    ElevationCanceled,
    /// A child still runs.
    ActiveSandboxes,
    /// The setup could not be kept from being used.
    UninstallCoordination {
        /// The cause.
        source: E,
    },
    /// Files could not be put back as they were.
    UninstallFilesystemCleanup {
        /// The cause.
        source: E,
    },
    /// The helper failed.
    HelperFailed {
        /// Where.
        stage: SetupStage,
        /// Why.
        code: SetupFailureCode,
        /// The native status.
        native_code: Option<u32>,
        /// What it says about it.
        detail: String,
    },
}

} // verus!
