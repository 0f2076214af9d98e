//! What is said to the elevated setup helper, and what it answers.

use vstd::prelude::*;

use crate::native_path::NativePath;
use crate::outside;
use crate::utf16;

verus! {

/// The version of the messages.
pub const SETUP_PROTOCOL_VERSION: u32 = 3;

/// The first port that listeners may get.
pub const FIRST_PROXY_PORT: u16 = 49_152;

/// How many pairs of ports there are.
pub const PROXY_PORT_PAIRS: u16 = 8_000;

/// What the helper is asked to do.
#[derive(Clone, Copy, Debug, PartialEq, Eq, Structural)]
pub enum SetupOperation {
    /// To set up.
    Install,
    /// To remove the setup.
    Uninstall,
}

/// What the helper is told.
#[derive(Debug, PartialEq, Eq)]
pub struct SetupRequest {
    /// The version of the message.
    pub version: u32,
    /// What to do.
    pub operation: SetupOperation,
    /// For whom.
    pub owner_sid: String,
    /// Where the state is kept.
    pub state_directory: NativePath,
    /// The digest of the helper itself.
    pub setup_helper_sha256: String,
    /// The command runner.
    pub command_runner_source: NativePath,
    /// The digest of the command runner.
    pub command_runner_sha256: String,
    /// The listeners' ports.
    pub proxy_ports: Vec<u16>,
}

/// What the helper answers.
#[derive(Debug, PartialEq, Eq)]
pub struct SetupResponse {
    /// The version of the message.
    pub version: u32,
    /// What came of it.
    pub outcome: SetupOutcome,
}

/// What came of the helper's work.
#[derive(Debug, PartialEq, Eq)]
pub enum SetupOutcome {
    /// It is done.
    Complete,
    /// It failed.
    Failed {
        /// Where.
        stage: SetupStage,
        /// Why.
        code: SetupFailureCode,
        /// The native status.
        native_code: Option<u32>,
        /// What the helper says about it.
        detail: String,
    },
}

/// Where the helper failed.
#[derive(Clone, Copy, Debug, PartialEq, Eq, Structural)]
pub enum SetupStage {
    /// While it read the request and its resources.
    Request,
    /// While it checked its rights.
    Elevation,
    /// While it made the state directory.
    StateDirectory,
    /// While it made the record of identities.
    CapabilityState,
    /// While it made the group.
    ManagedGroup,
    /// While it made the account without direct networking.
    OfflineAccount,
    /// While it made the account with direct networking.
    OnlineAccount,
    /// While it gave rights to the accounts.
    AccountRights,
    /// While it kept the accounts' passwords.
    Credentials,
    /// While it made the firewall rules.
    Firewall,
    /// While it made the packet filters.
    Wfp,
    /// While it wrote the marker.
    Marker,
    /// While it removed the setup.
    Uninstall,
}

/// Why the helper failed.
#[derive(Clone, Copy, Debug, PartialEq, Eq, Structural)]
pub enum SetupFailureCode {
    /// The message has another version.
    InvalidProtocolVersion,
    /// The owner's SID makes no sense.
    InvalidOwnerSid,
    /// The state directory is not safe.
    InvalidStateDirectory,
    /// The helper has no administrator's rights.
    NotElevated,
    /// A directory could not be created.
    DirectoryCreate,
    /// A directory could not be protected.
    DirectoryAcl,
    /// No identity could be drawn.
    CapabilityStateRandom,
    /// The record of identities could not be read.
    CapabilityStateRead,
    /// The record of identities makes no sense.
    CapabilityStateDecode,
    /// The record of identities could not be encoded.
    CapabilityStateSerialize,
    /// The record of identities could not be written.
    CapabilityStateWrite,
    /// The record of identities is not protected.
    CapabilityStateAcl,
    /// The group could not be created.
    GroupCreate,
    /// An account could not be created.
    UserCreate,
    /// An account could not be changed.
    UserUpdate,
    /// An account is no ordinary one.
    UserNotRegular,
    /// An account stayed disabled.
    UserDisabled,
    /// An account stayed locked.
    UserLocked,
    /// An account's groups are not as they have to be.
    GroupMembership,
    /// An account's rights are not as they have to be.
    BatchLogonRight,
    /// No password could be drawn.
    RandomCredential,
    /// A password could not be encrypted.
    DpapiProtect,
    /// The passwords could not be encoded.
    CredentialSerialize,
    /// The passwords could not be written.
    CredentialWrite,
    /// The passwords are not protected.
    CredentialAcl,
    /// COM could not be initialized for the firewall.
    FirewallComInitialization,
    /// The firewall could not be asked.
    FirewallPolicyAccess,
    /// The firewall's local rules have no effect.
    FirewallPolicyIneffective,
    /// The firewall's active profiles make no sense.
    FirewallActiveProfilesInvalid,
    /// The firewall is off.
    FirewallProfileDisabled,
    /// A rule could not be created.
    FirewallRuleCreate,
    /// A rule could not be set.
    FirewallRuleConfigure,
    /// A rule is not as it was set.
    FirewallRuleReadBack,
    /// The packet filter engine could not be opened.
    WfpEngineOpen,
    /// A transaction of the packet filters failed.
    WfpTransaction,
    /// The provider could not be installed.
    WfpProvider,
    /// The sublayer could not be installed.
    WfpSublayer,
    /// A filter could not be installed.
    WfpFilter,
    /// The packet filters are not as they were set.
    WfpReadBack,
    /// The marker could not be encoded.
    MarkerSerialize,
    /// The marker could not be written.
    MarkerWrite,
    /// The marker is not protected.
    MarkerAcl,
    /// The helper is another program than the one that was checked.
    HelperDigestMismatch,
    /// The command runner could not be read.
    CommandRunnerRead,
    /// The command runner is another program than the one that was checked.
    CommandRunnerDigestMismatch,
    /// The command runner could not be installed.
    CommandRunnerInstall,
    /// Something could not be removed.
    Cleanup,
    /// A child still runs.
    ActiveSandboxes,
}

/// How far into the range the ports of a state directory lie, from the digest
/// of the directory's text: its first two bytes, the first most significant.
pub open spec fn port_offset(digest: Seq<u8>) -> int {
    (digest[0] as int * 256 + digest[1] as int) % (PROXY_PORT_PAIRS as int)
}

/// The ports for a digest.
pub open spec fn ports_for(digest: Seq<u8>) -> Seq<u16> {
    seq![
        (FIRST_PROXY_PORT + 2 * port_offset(digest)) as u16,
        (FIRST_PROXY_PORT + 2 * port_offset(digest) + 1) as u16,
    ]
}

/// The ports for a digest.
pub fn ports_from_digest(digest: &[u8]) -> (ports: Vec<u16>)
    requires
        digest@.len() >= 2,
    ensures
        ports@ == ports_for(digest@),
{
    let offset: u16 = (digest[0] as u16 * 256 + digest[1] as u16) % PROXY_PORT_PAIRS;
    let first: u16 = FIRST_PROXY_PORT + offset * 2;
    let mut ports: Vec<u16> = Vec::new();
    ports.push(first);
    ports.push(first + 1);
    assert(ports@ =~= ports_for(digest@));
    ports
}

/// The ports of a state directory, given as the code units of its text.
pub fn proxy_ports_for_current_owner(state_directory: &[u16]) -> (ports: Vec<u16>)
    ensures
        ports@ == ports_for(
            outside::sha256_digest(
                vstd::utf8::encode_utf8(utf16::decode_lossy(state_directory@)),
            ),
        ),
{
    let written = utf16::decode_units_lossy(state_directory);
    let digest = outside::sha256(written.as_str().as_bytes());
    ports_from_digest(digest.as_slice())
}

/// What the helper is told.
pub fn setup_request(
    operation: SetupOperation,
    owner_sid: String,
    state_directory: NativePath,
    state_directory_text: &[u16],
    setup_helper_sha256: String,
    command_runner_source: NativePath,
    command_runner_sha256: String,
) -> (request: SetupRequest)
    ensures
        request.version == SETUP_PROTOCOL_VERSION,
        request.operation == operation,
        request.owner_sid == owner_sid,
        request.state_directory == state_directory,
        request.setup_helper_sha256 == setup_helper_sha256,
        request.command_runner_source == command_runner_source,
        request.command_runner_sha256 == command_runner_sha256,
        request.proxy_ports@ == ports_for(
            outside::sha256_digest(
                vstd::utf8::encode_utf8(utf16::decode_lossy(state_directory_text@)),
            ),
        ),
{
    SetupRequest {
        version: SETUP_PROTOCOL_VERSION,
        operation,
        owner_sid,
        state_directory,
        setup_helper_sha256,
        command_runner_source,
        command_runner_sha256,
        proxy_ports: proxy_ports_for_current_owner(state_directory_text),
    }
}

/// The ports of a setup can be the listeners': there are two, they differ,
/// and they lie among the dynamic ports.
pub proof fn setup_ports_are_usable(digest: Seq<u8>)
    requires
        digest.len() >= 2,
    ensures
        crate::network_ingress::valid_ports(ports_for(digest)),
        FIRST_PROXY_PORT <= ports_for(digest)[0] < ports_for(digest)[1] <= 65_151,
{
}

/// The two ports of a setup are a pair of neighbours, the first of them even, out
/// of the first two bytes of a digest; two setups share both ports or none.
pub proof fn port_pairs_do_not_overlap(a: Seq<u8>, b: Seq<u8>)
    requires
        a.len() >= 2,
        b.len() >= 2,
    ensures
        ports_for(a).len() == 2,
        ports_for(a)[1] == ports_for(a)[0] + 1,
        ports_for(a)[0] % 2 == 0,
        (256 * a[0] + a[1] - (ports_for(a)[0] - 49_152) / 2) % 8_000 == 0,
        ports_for(a) == ports_for(b) || forall|i: int, j: int|
            0 <= i < 2 && 0 <= j < 2 ==> #[trigger] ports_for(a)[i] != #[trigger] ports_for(b)[j],
        ports_for(a) == ports_for(b) <==> (256 * a[0] + a[1]) % 8_000 == (256 * b[0] + b[1])
            % 8_000,
{
    setup_ports_are_usable(a);
    setup_ports_are_usable(b);
    assert(ports_for(a) == ports_for(b) <==> port_offset(a) == port_offset(b)) by {
        if port_offset(a) == port_offset(b) {
            assert(ports_for(a) =~= ports_for(b));
        } else {
            assert(ports_for(a)[0] != ports_for(b)[0]);
        }
    }
}

} // verus!
