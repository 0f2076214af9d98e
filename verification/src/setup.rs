//! The elevated setup: its marker, its details, and what they are worth.

use vstd::prelude::*;

use crate::native_path::{NativePath, PathModel};
use crate::owner_identity;
use crate::owner_identity::ManagedAccountNames;
use crate::setup_error::{
    AccountRole, WindowsAccountLookupError, WindowsAccountVerificationError, WindowsSetupError,
    WindowsSetupVerificationError,
};
use crate::text;
use crate::utf16;

verus! {

/// The version of the setup.
pub const WINDOWS_SETUP_VERSION: u32 = 1;

/// The directory below the directory for programs' data.
pub const STATE_PARENT: &'static str = "Cageforge";

/// The directory below that.
pub const STATE_COMPONENT: &'static str = "windows-sandbox";

/// The marker's name.
pub const MARKER_NAME: &'static str = "setup.json";

/// The accounts of a setup.
#[derive(Clone, Debug, PartialEq, Eq)]
pub struct WindowsSandboxAccounts {
    offline_name: String,
    offline_sid: String,
    online_name: String,
    online_sid: String,
    group_name: String,
    group_sid: String,
}

/// The accounts of a setup.
pub struct AccountsModel {
    /// The account without direct networking.
    pub offline_name: Seq<char>,
    /// Its SID.
    pub offline_sid: Seq<char>,
    /// The account with direct networking.
    pub online_name: Seq<char>,
    /// Its SID.
    pub online_sid: Seq<char>,
    /// The group of both.
    pub group_name: Seq<char>,
    /// Its SID.
    pub group_sid: Seq<char>,
}

impl View for WindowsSandboxAccounts {
    type V = AccountsModel;

    closed spec fn view(&self) -> AccountsModel {
        AccountsModel {
            offline_name: self.offline_name@,
            offline_sid: self.offline_sid@,
            online_name: self.online_name@,
            online_sid: self.online_sid@,
            group_name: self.group_name@,
            group_sid: self.group_sid@,
        }
    }
}

impl AccountsModel {
    /// The name in a role.
    pub open spec fn name(self, role: AccountRole) -> Seq<char> {
        match role {
            AccountRole::Offline => self.offline_name,
            AccountRole::Online => self.online_name,
            AccountRole::Group => self.group_name,
        }
    }

    /// The SID in a role.
    pub open spec fn sid(self, role: AccountRole) -> Seq<char> {
        match role {
            AccountRole::Offline => self.offline_sid,
            AccountRole::Online => self.online_sid,
            AccountRole::Group => self.group_sid,
        }
    }

    /// Whether the names are those that belong to a user.
    pub open spec fn belong_to(self, owner_sid: Seq<char>) -> bool {
        &&& self.offline_name == owner_identity::managed_name("CgfOff_"@, owner_sid)
        &&& self.online_name == owner_identity::managed_name("CgfOn_"@, owner_sid)
        &&& self.group_name == owner_identity::managed_name("CgfGrp_"@, owner_sid)
    }
}

impl WindowsSandboxAccounts {
    /// The account without direct networking.
    pub fn offline_name(&self) -> (name: &str)
        ensures
            name@ == self@.offline_name,
    {
        self.offline_name.as_str()
    }

    /// The SID of the account without direct networking.
    pub fn offline_sid(&self) -> (sid: &str)
        ensures
            sid@ == self@.offline_sid,
    {
        self.offline_sid.as_str()
    }

    /// The account with direct networking.
    pub fn online_name(&self) -> (name: &str)
        ensures
            name@ == self@.online_name,
    {
        self.online_name.as_str()
    }

    /// The SID of the account with direct networking.
    pub fn online_sid(&self) -> (sid: &str)
        ensures
            sid@ == self@.online_sid,
    {
        self.online_sid.as_str()
    }

    /// The group of both accounts.
    pub fn group_name(&self) -> (name: &str)
        ensures
            name@ == self@.group_name,
    {
        self.group_name.as_str()
    }

    /// The SID of the group.
    pub fn group_sid(&self) -> (sid: &str)
        ensures
            sid@ == self@.group_sid,
    {
        self.group_sid.as_str()
    }

    /// The name in a role.
    pub fn name(&self, role: AccountRole) -> (name: &str)
        ensures
            name@ == self@.name(role),
    {
        match role {
            AccountRole::Offline => self.offline_name(),
            AccountRole::Online => self.online_name(),
            AccountRole::Group => self.group_name(),
        }
    }

    /// The SID in a role.
    pub fn sid(&self, role: AccountRole) -> (sid: &str)
        ensures
            sid@ == self@.sid(role),
    {
        match role {
            AccountRole::Offline => self.offline_sid(),
            AccountRole::Online => self.online_sid(),
            AccountRole::Group => self.group_sid(),
        }
    }
}

/// The accounts in a marker.
#[derive(Clone, Debug, PartialEq, Eq)]
pub struct SetupMarkerAccounts {
    /// The account without direct networking.
    pub offline_name: String,
    /// Its SID.
    pub offline_sid: String,
    /// The account with direct networking.
    pub online_name: String,
    /// Its SID.
    pub online_sid: String,
    /// The group of both.
    pub group_name: String,
    /// Its SID.
    pub group_sid: String,
}

/// The marker that a setup leaves.
#[derive(Clone, Debug, PartialEq, Eq)]
pub struct SetupMarker {
    /// The version of the setup.
    pub version: u32,
    /// The owner's SID.
    pub owner_sid: String,
    /// The accounts.
    pub accounts: SetupMarkerAccounts,
    /// The listeners' ports.
    pub proxy_ports: Vec<u16>,
    /// The firewall rules.
    pub firewall_policy_id: String,
    /// The packet filters' provider.
    pub wfp_provider_id: String,
    /// The digest of the helper.
    pub setup_helper_sha256: String,
    /// The digest of the command runner.
    pub command_runner_sha256: String,
    /// The digest of the runner's manifest.
    pub runner_manifest_sha256: String,
    /// The digest of the passwords.
    pub credential_sha256: String,
}

/// What a marker says.
pub struct MarkerModel {
    /// The version of the setup.
    pub version: u32,
    /// The owner's SID.
    pub owner_sid: Seq<char>,
    /// The accounts.
    pub accounts: AccountsModel,
    /// The listeners' ports.
    pub proxy_ports: Seq<u16>,
    /// The firewall rules.
    pub firewall_policy_id: Seq<char>,
    /// The packet filters' provider.
    pub wfp_provider_id: Seq<char>,
    /// The digest of the helper.
    pub setup_helper_sha256: Seq<char>,
    /// The digest of the command runner.
    pub command_runner_sha256: Seq<char>,
    /// The digest of the runner's manifest.
    pub runner_manifest_sha256: Seq<char>,
    /// The digest of the passwords.
    pub credential_sha256: Seq<char>,
}

impl View for SetupMarker {
    type V = MarkerModel;

    open spec fn view(&self) -> MarkerModel {
        MarkerModel {
            version: self.version,
            owner_sid: self.owner_sid@,
            accounts: AccountsModel {
                offline_name: self.accounts.offline_name@,
                offline_sid: self.accounts.offline_sid@,
                online_name: self.accounts.online_name@,
                online_sid: self.accounts.online_sid@,
                group_name: self.accounts.group_name@,
                group_sid: self.accounts.group_sid@,
            },
            proxy_ports: self.proxy_ports@,
            firewall_policy_id: self.firewall_policy_id@,
            wfp_provider_id: self.wfp_provider_id@,
            setup_helper_sha256: self.setup_helper_sha256@,
            command_runner_sha256: self.command_runner_sha256@,
            runner_manifest_sha256: self.runner_manifest_sha256@,
            credential_sha256: self.credential_sha256@,
        }
    }
}

/// The details of a setup: what its marker says, and where its state is kept.
#[derive(Clone, Debug, PartialEq, Eq)]
pub struct WindowsSetupDetails {
    version: u32,
    owner_sid: String,
    state_directory: NativePath,
    accounts: WindowsSandboxAccounts,
    proxy_ports: Vec<u16>,
    firewall_policy_id: String,
    wfp_provider_id: String,
    setup_helper_sha256: String,
    command_runner_sha256: String,
    runner_manifest_sha256: String,
    credential_sha256: String,
}

impl View for WindowsSetupDetails {
    type V = MarkerModel;

    /// What the marker says.
    closed spec fn view(&self) -> MarkerModel {
        MarkerModel {
            version: self.version,
            owner_sid: self.owner_sid@,
            accounts: self.accounts@,
            proxy_ports: self.proxy_ports@,
            firewall_policy_id: self.firewall_policy_id@,
            wfp_provider_id: self.wfp_provider_id@,
            setup_helper_sha256: self.setup_helper_sha256@,
            command_runner_sha256: self.command_runner_sha256@,
            runner_manifest_sha256: self.runner_manifest_sha256@,
            credential_sha256: self.credential_sha256@,
        }
    }
}

impl WindowsSetupDetails {
    /// Where the state is kept.
    pub closed spec fn directory(self) -> PathModel {
        self.state_directory@
    }

    /// The version of the setup.
    pub fn version(&self) -> (version: u32)
        ensures
            version == self@.version,
    {
        self.version
    }

    /// The owner's SID.
    pub fn owner_sid(&self) -> (sid: &str)
        ensures
            sid@ == self@.owner_sid,
    {
        self.owner_sid.as_str()
    }

    /// Where the state is kept.
    pub fn state_directory(&self) -> (path: &NativePath)
        ensures
            path@ == self.directory(),
    {
        &self.state_directory
    }

    /// The accounts.
    pub fn accounts(&self) -> (accounts: &WindowsSandboxAccounts)
        ensures
            accounts@ == self@.accounts,
    {
        &self.accounts
    }

    /// The listeners' ports.
    pub fn proxy_ports(&self) -> (ports: &[u16])
        ensures
            ports@ == self@.proxy_ports,
    {
        self.proxy_ports.as_slice()
    }

    /// The firewall rules.
    pub fn firewall_policy_id(&self) -> (id: &str)
        ensures
            id@ == self@.firewall_policy_id,
    {
        self.firewall_policy_id.as_str()
    }

    /// The packet filters' provider.
    pub fn wfp_provider_id(&self) -> (id: &str)
        ensures
            id@ == self@.wfp_provider_id,
    {
        self.wfp_provider_id.as_str()
    }

    /// The digest of the helper.
    pub fn setup_helper_sha256(&self) -> (digest: &str)
        ensures
            digest@ == self@.setup_helper_sha256,
    {
        self.setup_helper_sha256.as_str()
    }

    /// The digest of the command runner.
    pub fn command_runner_sha256(&self) -> (digest: &str)
        ensures
            digest@ == self@.command_runner_sha256,
    {
        self.command_runner_sha256.as_str()
    }

    /// The digest of the runner's manifest.
    pub fn runner_manifest_sha256(&self) -> (digest: &str)
        ensures
            digest@ == self@.runner_manifest_sha256,
    {
        self.runner_manifest_sha256.as_str()
    }

    /// The digest of the passwords.
    pub fn credential_sha256(&self) -> (digest: &str)
        ensures
            digest@ == self@.credential_sha256,
    {
        self.credential_sha256.as_str()
    }
}

impl SetupMarker {
    /// The details of the setup.
    pub fn into_details(self, state_directory: NativePath) -> (details: WindowsSetupDetails)
        ensures
            details@ == self@,
            details.directory() == state_directory@,
    {
        WindowsSetupDetails {
            version: self.version,
            owner_sid: self.owner_sid,
            state_directory,
            accounts: WindowsSandboxAccounts {
                offline_name: self.accounts.offline_name,
                offline_sid: self.accounts.offline_sid,
                online_name: self.accounts.online_name,
                online_sid: self.accounts.online_sid,
                group_name: self.accounts.group_name,
                group_sid: self.accounts.group_sid,
            },
            proxy_ports: self.proxy_ports,
            firewall_policy_id: self.firewall_policy_id,
            wfp_provider_id: self.wfp_provider_id,
            setup_helper_sha256: self.setup_helper_sha256,
            command_runner_sha256: self.command_runner_sha256,
            runner_manifest_sha256: self.runner_manifest_sha256,
            credential_sha256: self.credential_sha256,
        }
    }
}

/// Why a marker is of no use.
#[derive(Clone, Debug, PartialEq, Eq)]
#[allow(inconsistent_fields)]
pub enum WindowsSetupStaleReason {
    /// The setup has another version.
    Version {
        /// The version that is needed.
        expected: u32,
        /// The version it has.
        actual: u32,
    },
    /// The setup is another user's.
    Owner {
        /// The user.
        expected: String,
        /// Whose it is.
        actual: String,
    },
    /// The accounts are another user's.
    AccountIdentity,
}

/// What there is of a setup.
#[derive(Clone, Debug, PartialEq, Eq)]
pub enum WindowsSetupStatus {
    /// Nothing.
    Missing {
        /// The marker that is not there.
        marker_path: NativePath,
    },
    /// A marker of no use.
    Stale {
        /// The marker.
        marker_path: NativePath,
        /// Why.
        reason: WindowsSetupStaleReason,
    },
    /// A setup that was read back.
    Ready(WindowsSetupDetails),
}

/// Whether a marker is of use to a user.
pub open spec fn is_current(marker: MarkerModel, owner_sid: Seq<char>) -> bool {
    &&& marker.version == WINDOWS_SETUP_VERSION
    &&& text::eq_ignore_case(marker.owner_sid, owner_sid)
    &&& marker.accounts.belong_to(owner_sid)
}

/// Whether a reason is why a marker is of no use to a user. The first one
/// counts.
pub open spec fn is_stale_for(
    marker: MarkerModel,
    owner_sid: Seq<char>,
    reason: WindowsSetupStaleReason,
) -> bool {
    if marker.version != WINDOWS_SETUP_VERSION {
        reason == (WindowsSetupStaleReason::Version {
            expected: WINDOWS_SETUP_VERSION,
            actual: marker.version,
        })
    } else if !text::eq_ignore_case(marker.owner_sid, owner_sid) {
        reason matches WindowsSetupStaleReason::Owner { expected, actual } && expected@ == owner_sid
            && actual@ == marker.owner_sid
    } else {
        !marker.accounts.belong_to(owner_sid) && reason is AccountIdentity
    }
}

/// Why a marker is of no use to a user, if it is of none.
pub fn stale_reason(marker: &SetupMarker, owner_sid: &str) -> (reason: Option<
    WindowsSetupStaleReason,
>)
    ensures
        match reason {
            None => is_current(marker@, owner_sid@),
            Some(reason) => !is_current(marker@, owner_sid@) && is_stale_for(
                marker@,
                owner_sid@,
                reason,
            ),
        },
{
    if marker.version != WINDOWS_SETUP_VERSION {
        return Some(
            WindowsSetupStaleReason::Version {
                expected: WINDOWS_SETUP_VERSION,
                actual: marker.version,
            },
        );
    }
    if !text::same_text_ignoring_case(marker.owner_sid.as_str(), owner_sid) {
        return Some(
            WindowsSetupStaleReason::Owner {
                expected: owner_sid.to_owned(),
                actual: marker.owner_sid.as_str().to_owned(),
            },
        );
    }
    let names = ManagedAccountNames::for_owner(owner_sid);
    if !text::same_text(marker.accounts.offline_name.as_str(), names.offline.as_str())
        || !text::same_text(marker.accounts.online_name.as_str(), names.online.as_str())
        || !text::same_text(marker.accounts.group_name.as_str(), names.group.as_str()) {
        return Some(WindowsSetupStaleReason::AccountIdentity);
    }
    None
}

/// The failure for a marker of no use.
pub fn stale_error<E>(reason: WindowsSetupStaleReason) -> (error: WindowsSetupError<E>)
    ensures
        error == (match reason {
            WindowsSetupStaleReason::Version {
                expected,
                actual,
            } => WindowsSetupError::<E>::VersionMismatch { expected, actual },
            WindowsSetupStaleReason::Owner {
                expected,
                actual,
            } => WindowsSetupError::<E>::OwnerMismatch { expected, actual },
            WindowsSetupStaleReason::AccountIdentity =>
                WindowsSetupError::<E>::AccountIdentityMismatch,
        }),
{
    match reason {
        WindowsSetupStaleReason::Version { expected, actual } =>
            WindowsSetupError::VersionMismatch { expected, actual },
        WindowsSetupStaleReason::Owner { expected, actual } => WindowsSetupError::OwnerMismatch {
            expected,
            actual,
        },
        WindowsSetupStaleReason::AccountIdentity => WindowsSetupError::AccountIdentityMismatch,
    }
}

/// Where the state is kept.
#[derive(Clone, Debug, PartialEq, Eq)]
pub enum WindowsStateDirectorySource {
    /// Below the directory for programs' data.
    ProgramData,
    /// Below a directory.
    Explicit(NativePath),
}

/// Where a program is.
#[derive(Clone, Debug, PartialEq, Eq)]
pub enum ResourceSource {
    /// Beside this program or among its resources.
    Bundled,
    /// Beside this program.
    Sibling,
    /// At a path.
    Explicit(NativePath),
}

/// How a setup is configured.
#[derive(Clone, Debug, PartialEq, Eq)]
pub struct WindowsSetupConfig {
    /// Where the state is kept.
    pub state_directory: WindowsStateDirectorySource,
    /// Where the helper is.
    pub setup_helper: ResourceSource,
    /// Where the command runner is.
    pub command_runner: ResourceSource,
}

/// A setup that can be inspected, made and removed.
#[derive(Clone, Debug, PartialEq, Eq)]
pub struct WindowsSetup {
    config: WindowsSetupConfig,
}

/// Where a user's state is kept, given the directory for programs' data.
pub open spec fn directory_for(
    source: WindowsStateDirectorySource,
    program_data: PathModel,
    owner_sid: Seq<char>,
) -> PathModel {
    let base = match source {
        WindowsStateDirectorySource::ProgramData => program_data.child(
            utf16::encode("Cageforge"@),
        ).child(utf16::encode("windows-sandbox"@)),
        WindowsStateDirectorySource::Explicit(path) => path@,
    };
    base.child(utf16::encode(owner_identity::key_of(owner_sid)))
}

/// What the helper's run came to, and then what there is of the setup.
#[derive(Debug)]
pub enum HelperRun<E> {
    /// It failed.
    Failed(WindowsSetupError<E>),
    /// It is done.
    Completed(Result<WindowsSetupStatus, WindowsSetupError<E>>),
}

/// Whether a result is what a status comes to where a setup is needed.
pub open spec fn is_verified<E>(
    status: Result<WindowsSetupStatus, WindowsSetupError<E>>,
    result: Result<WindowsSetupDetails, WindowsSetupError<E>>,
) -> bool {
    match status {
        Err(error) => result == Err::<WindowsSetupDetails, WindowsSetupError<E>>(error),
        Ok(WindowsSetupStatus::Missing { marker_path }) => result == Err::<
            WindowsSetupDetails,
            WindowsSetupError<E>,
        >(WindowsSetupError::Missing { path: marker_path }),
        Ok(WindowsSetupStatus::Stale {
            reason: WindowsSetupStaleReason::Version { expected, actual },
            ..
        }) => result == Err::<WindowsSetupDetails, WindowsSetupError<E>>(
            WindowsSetupError::VersionMismatch { expected, actual },
        ),
        Ok(WindowsSetupStatus::Stale {
            reason: WindowsSetupStaleReason::Owner { expected, actual },
            ..
        }) => result == Err::<WindowsSetupDetails, WindowsSetupError<E>>(
            WindowsSetupError::OwnerMismatch { expected, actual },
        ),
        Ok(WindowsSetupStatus::Stale { reason: WindowsSetupStaleReason::AccountIdentity, .. }) =>
            result == Err::<WindowsSetupDetails, WindowsSetupError<E>>(
            WindowsSetupError::AccountIdentityMismatch,
        ),
        Ok(WindowsSetupStatus::Ready(details)) => result == Ok::<
            WindowsSetupDetails,
            WindowsSetupError<E>,
        >(details),
    }
}

impl WindowsSetup {
    /// How the setup is configured.
    pub closed spec fn configuration(self) -> WindowsSetupConfig {
        self.config
    }

    /// A setup that can be inspected.
    pub fn new(config: WindowsSetupConfig) -> (setup: WindowsSetup)
        ensures
            setup.configuration() == config,
    {
        WindowsSetup { config }
    }

    /// How the setup is configured.
    pub fn config(&self) -> (config: &WindowsSetupConfig)
        ensures
            *config == self.configuration(),
    {
        &self.config
    }

    /// Where the state of the current user is kept, given the user's SID and
    /// the directory for programs' data.
    pub fn state_directory<E>(
        &self,
        owner_sid: Result<String, E>,
        program_data: Result<NativePath, i32>,
    ) -> (directory: Result<NativePath, WindowsSetupError<E>>)
        ensures
            match owner_sid {
                Err(source) => directory == Err::<NativePath, WindowsSetupError<E>>(
                    WindowsSetupError::CurrentUserSid { source },
                ),
                Ok(owner) => match (self.configuration().state_directory, program_data) {
                    (WindowsStateDirectorySource::ProgramData, Err(code)) => directory == Err::<
                        NativePath,
                        WindowsSetupError<E>,
                    >(WindowsSetupError::ProgramDataUnavailable { code }),
                    (WindowsStateDirectorySource::ProgramData, Ok(base)) => directory matches Ok(
                        path,
                    ) && path@ == directory_for(
                        WindowsStateDirectorySource::ProgramData,
                        base@,
                        owner@,
                    ),
                    (WindowsStateDirectorySource::Explicit(base), _) => directory matches Ok(path)
                        && path@ == base@.child(utf16::encode(owner_identity::key_of(owner@))),
                },
            },
    {
        match owner_sid {
            Err(source) => Err(WindowsSetupError::CurrentUserSid { source }),
            Ok(owner) => self.state_directory_for(owner.as_str(), program_data),
        }
    }

    /// Where the state of a user is kept.
    pub fn state_directory_for<E>(&self, owner_sid: &str, program_data: Result<NativePath, i32>) -> (
    directory: Result<NativePath, WindowsSetupError<E>>)
        ensures
            match (self.configuration().state_directory, program_data) {
                (WindowsStateDirectorySource::ProgramData, Err(code)) => directory == Err::<
                    NativePath,
                    WindowsSetupError<E>,
                >(WindowsSetupError::ProgramDataUnavailable { code }),
                (WindowsStateDirectorySource::ProgramData, Ok(base)) => directory matches Ok(path)
                    && path@ == directory_for(
                    WindowsStateDirectorySource::ProgramData,
                    base@,
                    owner_sid@,
                ),
                (WindowsStateDirectorySource::Explicit(base), _) => directory matches Ok(path)
                    && path@ == base@.child(utf16::encode(owner_identity::key_of(owner_sid@))),
            },
    {
        let key = owner_identity::owner_key(owner_sid);
        match &self.config.state_directory {
            WindowsStateDirectorySource::ProgramData => match program_data {
                Err(code) => Err(WindowsSetupError::ProgramDataUnavailable { code }),
                Ok(base) => Ok(base.child(STATE_PARENT).child(STATE_COMPONENT).child(key.as_str())),
            },
            WindowsStateDirectorySource::Explicit(base) => Ok(base.child(key.as_str())),
        }
    }

    /// The details of the setup, where it is there and of use.
    pub fn verify<E>(&self, status: Result<WindowsSetupStatus, WindowsSetupError<E>>) -> (result:
        Result<WindowsSetupDetails, WindowsSetupError<E>>)
        ensures
            is_verified(status, result),
    {
        match status {
            Err(error) => Err(error),
            Ok(WindowsSetupStatus::Missing { marker_path }) => Err(
                WindowsSetupError::Missing { path: marker_path },
            ),
            Ok(WindowsSetupStatus::Stale { reason, .. }) => Err(stale_error(reason)),
            Ok(WindowsSetupStatus::Ready(details)) => Ok(details),
        }
    }

    /// The details of the setup after the helper made it.
    pub fn install<E>(&self, run: HelperRun<E>) -> (result: Result<
        WindowsSetupDetails,
        WindowsSetupError<E>,
    >)
        ensures
            match run {
                HelperRun::Failed(error) => result == Err::<
                    WindowsSetupDetails,
                    WindowsSetupError<E>,
                >(error),
                HelperRun::Completed(status) => is_verified(status, result),
            },
    {
        match run {
            HelperRun::Failed(error) => Err(error),
            HelperRun::Completed(status) => self.verify(status),
        }
    }
}

/// A setup that is used belongs to a user whose key is that of its owner: the
/// state directory of one is that of the other.
pub proof fn current_setup_shares_the_owner_key(marker: MarkerModel, owner_sid: Seq<char>)
    requires
        is_current(marker, owner_sid),
    ensures
        owner_identity::key_of(marker.owner_sid) == owner_identity::key_of(owner_sid),
        marker.accounts.belong_to(marker.owner_sid),
{
    owner_identity::owner_key_ignores_case(marker.owner_sid, owner_sid);
}

/// The next step of seeing whether the accounts are those of the marker, or
/// what it came to.
#[derive(Debug)]
pub enum AccountsStep<E> {
    /// Look an account's SID up.
    LookUp {
        /// Which account.
        role: AccountRole,
    },
    /// See whether an account is as ordinary as it has to be.
    Verify {
        /// Which account.
        role: AccountRole,
    },
    /// They are.
    Done,
    /// They are not.
    Failed {
        /// Why.
        error: WindowsSetupError<E>,
    },
}

/// What came of a step.
#[derive(Debug)]
pub enum AccountsEvent {
    /// The SID.
    Found(Result<String, WindowsAccountLookupError>),
    /// Whether the account is ordinary.
    Verified(Result<(), WindowsAccountVerificationError>),
}

impl<E> AccountsStep<E> {
    /// Whether an event can come of the step.
    pub open spec fn expects(self, event: AccountsEvent) -> bool {
        match self {
            AccountsStep::LookUp { .. } => event is Found,
            AccountsStep::Verify { .. } => event is Verified,
            AccountsStep::Done | AccountsStep::Failed { .. } => false,
        }
    }

    /// Whether a step follows an event, for the accounts of a marker.
    pub open spec fn leads_to(
        self,
        event: AccountsEvent,
        accounts: AccountsModel,
        next: AccountsStep<E>,
    ) -> bool {
        match (self, event) {
            (AccountsStep::LookUp { role }, AccountsEvent::Found(Err(source))) => next
                == AccountsStep::<E>::Failed {
                error: WindowsSetupError::AccountLookup { component: role, source },
            },
            (AccountsStep::LookUp { role }, AccountsEvent::Found(Ok(sid))) =>
                if text::eq_ignore_case(sid@, accounts.sid(role)) {
                next == (match role {
                    AccountRole::Offline => AccountsStep::<E>::LookUp {
                        role: AccountRole::Online,
                    },
                    AccountRole::Online => AccountsStep::LookUp { role: AccountRole::Group },
                    AccountRole::Group => AccountsStep::Verify { role: AccountRole::Offline },
                })
            } else {
                next matches AccountsStep::Failed {
                    error: WindowsSetupError::Verification(
                        WindowsSetupVerificationError::AccountSidMismatch {
                            component,
                            expected,
                            actual,
                        },
                    ),
                } && component == role && expected@ == accounts.sid(role) && actual@ == sid@
            },
            (AccountsStep::Verify { role }, AccountsEvent::Verified(Ok(_))) => next == (if role
                is Offline {
                AccountsStep::<E>::Verify { role: AccountRole::Online }
            } else {
                AccountsStep::Done
            }),
            (AccountsStep::Verify { .. }, AccountsEvent::Verified(Err(error))) => next
                == AccountsStep::<E>::Failed { error: WindowsSetupError::AccountVerification(error) },
            _ => next == self,
        }
    }

    /// The first step.
    pub fn first() -> (step: AccountsStep<E>)
        ensures
            step == (AccountsStep::<E>::LookUp { role: AccountRole::Offline }),
    {
        AccountsStep::LookUp { role: AccountRole::Offline }
    }

    /// Takes the step after an event, for the accounts of a marker.
    pub fn advance(self, event: AccountsEvent, accounts: &WindowsSandboxAccounts) -> (step:
        AccountsStep<E>)
        requires
            self.expects(event),
        ensures
            self.leads_to(event, accounts@, step),
    {
        match (self, event) {
            (AccountsStep::LookUp { role }, AccountsEvent::Found(Err(source))) =>
                AccountsStep::Failed {
                error: WindowsSetupError::AccountLookup { component: role, source },
            },
            (AccountsStep::LookUp { role }, AccountsEvent::Found(Ok(sid))) => {
                if text::same_text_ignoring_case(sid.as_str(), accounts.sid(role)) {
                    match role {
                        AccountRole::Offline => AccountsStep::LookUp { role: AccountRole::Online },
                        AccountRole::Online => AccountsStep::LookUp { role: AccountRole::Group },
                        AccountRole::Group => AccountsStep::Verify { role: AccountRole::Offline },
                    }
                } else {
                    AccountsStep::Failed {
                        error: WindowsSetupError::Verification(
                            WindowsSetupVerificationError::AccountSidMismatch {
                                component: role,
                                expected: accounts.sid(role).to_owned(),
                                actual: sid,
                            },
                        ),
                    }
                }
            },
            (AccountsStep::Verify { role }, AccountsEvent::Verified(Ok(_))) => match role {
                AccountRole::Offline => AccountsStep::Verify { role: AccountRole::Online },
                _ => AccountsStep::Done,
            },
            (AccountsStep::Verify { .. }, AccountsEvent::Verified(Err(error))) =>
                AccountsStep::Failed { error: WindowsSetupError::AccountVerification(error) },
            (step, _) => step,
        }
    }
}

/// A setup is current exactly where no reason makes it stale, and there is one
/// reason only: another version, another owner, or accounts that are not the owner's
/// own, in that order.
pub proof fn a_setup_is_stale_for_one_reason(
    marker: MarkerModel,
    owner_sid: Seq<char>,
    reason: WindowsSetupStaleReason,
)
    ensures
        is_current(marker, owner_sid) ==> marker.version == 1 && text::eq_ignore_case(
            marker.owner_sid,
            owner_sid,
        ) && !is_stale_for(marker, owner_sid, reason),
        is_current(marker, owner_sid) ==> marker.accounts.offline_name
            == owner_identity::managed_name("CgfOff_"@, owner_sid) && marker.accounts.online_name
            == owner_identity::managed_name("CgfOn_"@, owner_sid) && marker.accounts.group_name
            == owner_identity::managed_name("CgfGrp_"@, owner_sid),
        is_stale_for(marker, owner_sid, reason) ==> match reason {
            WindowsSetupStaleReason::Version { expected, actual } => expected == 1 && actual
                == marker.version && actual != 1,
            WindowsSetupStaleReason::Owner { expected, actual } => marker.version == 1 && expected@
                == owner_sid && actual@ == marker.owner_sid && !text::eq_ignore_case(
                actual@,
                expected@,
            ),
            WindowsSetupStaleReason::AccountIdentity => marker.version == 1
                && text::eq_ignore_case(marker.owner_sid, owner_sid) && !(
            marker.accounts.offline_name == owner_identity::managed_name("CgfOff_"@, owner_sid)
                && marker.accounts.online_name == owner_identity::managed_name(
                "CgfOn_"@,
                owner_sid,
            ) && marker.accounts.group_name == owner_identity::managed_name(
                "CgfGrp_"@,
                owner_sid,
            )),
        },
        !is_current(marker, owner_sid) ==> (marker.version != 1 || !text::eq_ignore_case(
            marker.owner_sid,
            owner_sid,
        ) || is_stale_for(marker, owner_sid, WindowsSetupStaleReason::AccountIdentity)),
{
}

/// A setup is given out only where it is ready, and just that one; and each way in
/// which it is not has its own failure.
pub proof fn only_ready_setups_are_given_out<E>(
    status: Result<WindowsSetupStatus, WindowsSetupError<E>>,
    result: Result<WindowsSetupDetails, WindowsSetupError<E>>,
)
    requires
        is_verified(status, result),
    ensures
        result matches Ok(details) ==> status == Ok::<WindowsSetupStatus, WindowsSetupError<E>>(
            WindowsSetupStatus::Ready(details),
        ),
        result is Ok <==> (status matches Ok(read) && read is Ready),
        (status matches Ok(read) && read is Missing) ==> (result matches Err(error) && error
            is Missing),
        (status matches Err(cause) ==> (result matches Err(error) && error == cause)),
        (status matches Ok(WindowsSetupStatus::Stale { reason, .. }) ==> (result matches Err(error)
            && match reason {
            WindowsSetupStaleReason::Version { .. } => error is VersionMismatch,
            WindowsSetupStaleReason::Owner { .. } => error is OwnerMismatch,
            WindowsSetupStaleReason::AccountIdentity => error is AccountIdentityMismatch,
        })),
{
}

/// A role's name and identity are its own: the three roles have three names, in
/// the order in which they are written down.
pub proof fn roles_have_their_own_accounts(accounts: AccountsModel)
    ensures
        accounts.name(AccountRole::Offline) == accounts.offline_name,
        accounts.name(AccountRole::Online) == accounts.online_name,
        accounts.name(AccountRole::Group) == accounts.group_name,
        accounts.sid(AccountRole::Offline) == accounts.offline_sid,
        accounts.sid(AccountRole::Online) == accounts.online_sid,
        accounts.sid(AccountRole::Group) == accounts.group_sid,
{
}

/// The accounts count as there only once all three were looked up and found to be
/// the recorded ones, and both of those that run commands were verified. One that is
/// another is never passed over.
pub proof fn every_account_is_looked_up<E>(
    step: AccountsStep<E>,
    event: AccountsEvent,
    accounts: AccountsModel,
    next: AccountsStep<E>,
)
    requires
        step.expects(event),
        step.leads_to(event, accounts, next),
    ensures
        match next {
            AccountsStep::LookUp { role } => (event matches AccountsEvent::Found(Ok(sid)) && match role {
                AccountRole::Offline => false,
                AccountRole::Online => step == (AccountsStep::<E>::LookUp {
                    role: AccountRole::Offline,
                }) && text::eq_ignore_case(sid@, accounts.offline_sid),
                AccountRole::Group => step == (AccountsStep::<E>::LookUp {
                    role: AccountRole::Online,
                }) && text::eq_ignore_case(sid@, accounts.online_sid),
            }),
            AccountsStep::Verify { role } => match role {
                AccountRole::Offline => step == (AccountsStep::<E>::LookUp {
                    role: AccountRole::Group,
                }) && (event matches AccountsEvent::Found(Ok(sid)) && text::eq_ignore_case(
                    sid@,
                    accounts.group_sid,
                )),
                AccountRole::Online => step == (AccountsStep::<E>::Verify {
                    role: AccountRole::Offline,
                }) && (event matches AccountsEvent::Verified(result) && result is Ok),
                AccountRole::Group => false,
            },
            AccountsStep::Done => (step matches AccountsStep::Verify { role } && !(role is Offline))
                && (event matches AccountsEvent::Verified(result) && result is Ok),
            AccountsStep::Failed { error } => match event {
                AccountsEvent::Found(Err(cause)) => step matches AccountsStep::LookUp { role }
                    && error == (WindowsSetupError::<E>::AccountLookup {
                    component: role,
                    source: cause,
                }),
                AccountsEvent::Found(Ok(sid)) => step matches AccountsStep::LookUp { role }
                    && !text::eq_ignore_case(sid@, accounts.sid(role)) && error is Verification,
                AccountsEvent::Verified(result) => result matches Err(cause) && error
                    == WindowsSetupError::<E>::AccountVerification(cause),
            },
        },
        (event matches AccountsEvent::Found(result) && result is Err) ==> next is Failed,
        (event matches AccountsEvent::Verified(result) && result is Err) ==> next is Failed,
{
}

/// Every owner has a state directory of their own, right below the place that the
/// setup was configured with.
pub proof fn owners_have_their_own_directory(
    source: WindowsStateDirectorySource,
    program_data: PathModel,
    owner_sid: Seq<char>,
    other: Seq<char>,
)
    ensures
        owner_identity::key_of(owner_sid) == owner_identity::key_of(other) ==> directory_for(
            source,
            program_data,
            owner_sid,
        ) == directory_for(source, program_data, other),
        source matches WindowsStateDirectorySource::Explicit(path) ==> directory_for(
            source,
            program_data,
            owner_sid,
        ) == path@.child(utf16::encode(owner_identity::key_of(owner_sid))),
{
}

} // verus!
