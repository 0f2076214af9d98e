//! The named pipes between the backend and a runner.

use vstd::prelude::*;

use crate::aces;
use crate::aces::{ACCESS_ACE_BYTES, ACE_SID_OFFSET, SID_HEADER_BYTES};
use crate::acl_entries::{FILE_APPEND_DATA, FILE_GENERIC_READ, FILE_GENERIC_WRITE};
use crate::bytes;
use crate::outside;
use crate::text;

verus! {

/// The right to read attributes.
pub const FILE_READ_ATTRIBUTES: u32 = 0x80;

/// A pipe that the creator reads.
pub const PIPE_ACCESS_INBOUND: u32 = 1;

/// A pipe that the creator writes.
pub const PIPE_ACCESS_OUTBOUND: u32 = 2;

/// A pipe whose name no one may have used before.
pub const FILE_FLAG_FIRST_PIPE_INSTANCE: u32 = 0x0008_0000;

/// The size of the random part of a name.
pub const NAME_NONCE_BYTES: usize = 16;

/// The status of a client that connected before it was waited for.
pub const ERROR_PIPE_CONNECTED: u32 = 535;

/// The status of a wait that had ended before it was broken off.
pub const ERROR_NOT_FOUND: u32 = 1168;

/// Which way a pipe goes.
#[derive(Clone, Copy, Debug, PartialEq, Eq, Structural)]
pub enum ParentPipeDirection {
    /// To the runner.
    Request,
    /// From the runner.
    Response,
}

/// The names of the pipes of a launch.
#[derive(Debug)]
pub struct RunnerPipeNames {
    /// The pipe to the runner.
    pub request: String,
    /// The pipe from the runner.
    pub response: String,
}

/// The common part of the names of the pipes of a launch.
pub open spec fn name_base(nonce: Seq<u8>) -> Seq<char> {
    "\\\\.\\pipe\\Cageforge-runner-"@ + text::hex(nonce)
}

impl RunnerPipeNames {
    /// The names with a random part.
    pub fn from_nonce(nonce: &Vec<u8>) -> (names: RunnerPipeNames)
        ensures
            names.request@ == name_base(nonce@) + "-request"@,
            names.response@ == name_base(nonce@) + "-response"@,
    {
        let mut request = "\\\\.\\pipe\\Cageforge-runner-".to_owned();
        request.append(text::hex_text(nonce.as_slice()).as_str());
        let mut response = request.clone();
        request.append("-request");
        response.append("-response");
        RunnerPipeNames { request, response }
    }

    /// Names that no other launch has, as far as chance allows.
    pub fn generate() -> (result: Result<RunnerPipeNames, getrandom::Error>)
        ensures
            result matches Ok(names) ==> exists|nonce: Seq<u8>|
                {
                    &&& nonce.len() == NAME_NONCE_BYTES
                    &&& names.request@ == #[trigger] name_base(nonce) + "-request"@
                    &&& names.response@ == name_base(nonce) + "-response"@
                },
    {
        let drawn = outside::random_bytes(NAME_NONCE_BYTES);
        let ghost given = drawn;
        let result = RunnerPipeNames::from_drawn(drawn);
        proof {
            if let Ok(nonce) = given {
                assert(result->Ok_0.request@ == name_base(nonce@) + "-request"@);
            }
        }
        result
    }

    /// What a draw comes to: the names with the bytes that were drawn, or why
    /// none were.
    pub fn from_drawn(drawn: Result<Vec<u8>, getrandom::Error>) -> (result: Result<
        RunnerPipeNames,
        getrandom::Error,
    >)
        ensures
            match drawn {
                Ok(nonce) => result matches Ok(names) && {
                    &&& names.request@ == name_base(nonce@) + "-request"@
                    &&& names.response@ == name_base(nonce@) + "-response"@
                },
                Err(error) => result == Err::<RunnerPipeNames, getrandom::Error>(error),
            },
    {
        match drawn {
            Ok(nonce) => Ok(RunnerPipeNames::from_nonce(&nonce)),
            Err(error) => Err(error),
        }
    }
}

/// The rights of the runner on a pipe: it reads requests and writes
/// responses, and can create no further pipe of the name.
pub open spec fn client_mask(direction: ParentPipeDirection) -> u32 {
    match direction {
        ParentPipeDirection::Request => FILE_GENERIC_READ,
        ParentPipeDirection::Response => (FILE_GENERIC_WRITE & !FILE_APPEND_DATA)
            | FILE_READ_ATTRIBUTES,
    }
}

/// The rights of the runner on a pipe.
pub fn client_access_mask(direction: ParentPipeDirection) -> (mask: u32)
    ensures
        mask == client_mask(direction),
{
    match direction {
        ParentPipeDirection::Request => FILE_GENERIC_READ,
        ParentPipeDirection::Response => (FILE_GENERIC_WRITE & !FILE_APPEND_DATA)
            | FILE_READ_ATTRIBUTES,
    }
}

/// The runner cannot create a pipe of the name, whichever way the pipe goes.
pub proof fn client_cannot_create_an_instance(direction: ParentPipeDirection)
    ensures
        client_mask(direction) & FILE_APPEND_DATA == 0,
{
    assert(0x0012_0089u32 & 0x4u32 == 0) by (bit_vector);
    assert(((0x0012_0116u32 & !0x4u32) | 0x80u32) & 0x4u32 == 0) by (bit_vector);
}

/// How the backend opens a pipe.
pub fn server_access(direction: ParentPipeDirection) -> (access: u32)
    ensures
        access == (match direction {
            ParentPipeDirection::Request => PIPE_ACCESS_OUTBOUND | FILE_FLAG_FIRST_PIPE_INSTANCE,
            ParentPipeDirection::Response => PIPE_ACCESS_INBOUND | FILE_FLAG_FIRST_PIPE_INSTANCE,
        }),
{
    match direction {
        ParentPipeDirection::Request => PIPE_ACCESS_OUTBOUND | FILE_FLAG_FIRST_PIPE_INSTANCE,
        ParentPipeDirection::Response => PIPE_ACCESS_INBOUND | FILE_FLAG_FIRST_PIPE_INSTANCE,
    }
}

/// The security descriptor of a pipe as text: the system, administrators and
/// the owner may do everything, the runner's session only what it needs.
pub open spec fn pipe_descriptor(
    owner_sid: Seq<char>,
    logon_sid: Seq<char>,
    direction: ParentPipeDirection,
) -> Seq<char> {
    "O:"@ + owner_sid + "D:P(A;;FA;;;SY)(A;;FA;;;BA)(A;;FA;;;"@ + owner_sid + ")(A;;0x"@
        + text::hex_word(client_mask(direction)) + ";;;"@ + logon_sid + ")"@
}

/// The security descriptor of a pipe as text.
pub fn pipe_sddl(owner_sid: &str, logon_sid: &str, direction: ParentPipeDirection) -> (sddl: String)
    ensures
        sddl@ == pipe_descriptor(owner_sid@, logon_sid@, direction),
{
    let mut sddl = "O:".to_owned();
    sddl.append(owner_sid);
    sddl.append("D:P(A;;FA;;;SY)(A;;FA;;;BA)(A;;FA;;;");
    sddl.append(owner_sid);
    sddl.append(")(A;;0x");
    sddl.append(text::hex_word_text(client_access_mask(direction)).as_str());
    sddl.append(";;;");
    sddl.append(logon_sid);
    sddl.append(")");
    sddl
}

/// What differs between two descriptors of a pipe.
#[derive(Clone, Copy, Debug, PartialEq, Eq, Structural)]
pub enum RunnerPipeDescriptorComponent {
    /// The one that has to be is invalid.
    ExpectedInvalid,
    /// The one that was read is invalid.
    ActualInvalid,
    /// The owner.
    Owner,
    /// Whether the list takes nothing from above.
    ProtectedDacl,
    /// The list's revision.
    Dacl,
    /// The number of entries.
    AceCount,
    /// An entry.
    Ace {
        /// Its place.
        index: u16,
    },
}

impl RunnerPipeDescriptorComponent {
    /// The words for what differs.
    pub open spec fn words(self) -> Seq<char> {
        match self {
            RunnerPipeDescriptorComponent::ExpectedInvalid => "expected security descriptor is invalid"@,
            RunnerPipeDescriptorComponent::ActualInvalid => "read-back security descriptor is invalid"@,
            RunnerPipeDescriptorComponent::Owner => "owner"@,
            RunnerPipeDescriptorComponent::ProtectedDacl => "protected DACL state"@,
            RunnerPipeDescriptorComponent::Dacl => "DACL revision"@,
            RunnerPipeDescriptorComponent::AceCount => "ACE count"@,
            RunnerPipeDescriptorComponent::Ace { index } => "ACE at index "@ + text::decimal(
                index as nat,
            ),
        }
    }

    /// The words for what differs.
    pub fn describe(self) -> (words: String)
        ensures
            words@ == self.words(),
    {
        match self {
            RunnerPipeDescriptorComponent::ExpectedInvalid => {
                "expected security descriptor is invalid".to_owned()
            },
            RunnerPipeDescriptorComponent::ActualInvalid => {
                "read-back security descriptor is invalid".to_owned()
            },
            RunnerPipeDescriptorComponent::Owner => "owner".to_owned(),
            RunnerPipeDescriptorComponent::ProtectedDacl => "protected DACL state".to_owned(),
            RunnerPipeDescriptorComponent::Dacl => "DACL revision".to_owned(),
            RunnerPipeDescriptorComponent::AceCount => "ACE count".to_owned(),
            RunnerPipeDescriptorComponent::Ace { index } => {
                let mut words = "ACE at index ".to_owned();
                words.append(text::decimal_text(index as u64).as_str());
                words
            },
        }
    }
}

/// A list of a pipe.
#[derive(Debug)]
pub struct PipeAcl {
    /// Its revision.
    pub revision: u8,
    /// Its entries, where they could be had.
    pub entries: Vec<Option<Vec<u8>>>,
}

/// What was seen of a pipe's security descriptor.
#[derive(Debug)]
pub struct PipeDescriptorFacts {
    /// Whether it is valid.
    pub valid: bool,
    /// The owner, where there is a valid one.
    pub owner: Option<Vec<u8>>,
    /// The list, where there is one.
    pub dacl: Option<PipeAcl>,
    /// Whether the list takes nothing from above.
    pub protected: bool,
}

/// Whether an entry plainly allows the object itself something to a valid
/// identifier, and is no larger than that.
pub open spec fn is_exact_grant(entry: Seq<u8>) -> bool {
    &&& entry.len() >= ACCESS_ACE_BYTES
    &&& entry[0] == 0
    &&& entry[1] == 0
    &&& aces::holds_valid_sid(entry.skip(ACE_SID_OFFSET as int))
    &&& aces::entry_size(entry) == ACE_SID_OFFSET + SID_HEADER_BYTES + 4 * entry[ACE_SID_OFFSET
        + 1]
}

/// Whether two entries are exact and allow the same to the same.
pub open spec fn same_grant(expected: Option<Vec<u8>>, actual: Option<Vec<u8>>) -> bool {
    expected matches Some(a) && actual matches Some(b) && {
        &&& is_exact_grant(a@)
        &&& is_exact_grant(b@)
        &&& aces::entry_mask(a@) == aces::entry_mask(b@)
        &&& a@.subrange(ACE_SID_OFFSET as int, aces::entry_size(a@)) == b@.subrange(
            ACE_SID_OFFSET as int,
            aces::entry_size(b@),
        )
    }
}

/// The first entry in which two lists differ, from the `i`th on.
pub open spec fn differing_entry_from(
    expected: Seq<Option<Vec<u8>>>,
    actual: Seq<Option<Vec<u8>>>,
    i: int,
) -> Option<RunnerPipeDescriptorComponent>
    decreases expected.len() - i,
{
    if i < 0 || i >= expected.len() {
        None
    } else if !same_grant(expected[i], actual[i]) {
        Some(RunnerPipeDescriptorComponent::Ace { index: i as u16 })
    } else {
        differing_entry_from(expected, actual, i + 1)
    }
}

/// The part that keeps a descriptor from being compared, if one does.
pub open spec fn missing_part(facts: PipeDescriptorFacts) -> Option<
    RunnerPipeDescriptorComponent,
> {
    if facts.owner is None {
        Some(RunnerPipeDescriptorComponent::Owner)
    } else if facts.dacl is None {
        Some(RunnerPipeDescriptorComponent::Dacl)
    } else {
        None
    }
}

/// What differs first between two descriptors of a pipe.
pub open spec fn difference(expected: PipeDescriptorFacts, actual: PipeDescriptorFacts) -> Option<
    RunnerPipeDescriptorComponent,
> {
    if !expected.valid {
        Some(RunnerPipeDescriptorComponent::ExpectedInvalid)
    } else if !actual.valid {
        Some(RunnerPipeDescriptorComponent::ActualInvalid)
    } else if missing_part(expected) is Some {
        missing_part(expected)
    } else if missing_part(actual) is Some {
        missing_part(actual)
    } else if expected.owner->Some_0@ != actual.owner->Some_0@ {
        Some(RunnerPipeDescriptorComponent::Owner)
    } else if !expected.protected || !actual.protected {
        Some(RunnerPipeDescriptorComponent::ProtectedDacl)
    } else if expected.dacl->Some_0.revision != actual.dacl->Some_0.revision {
        Some(RunnerPipeDescriptorComponent::Dacl)
    } else if expected.dacl->Some_0.entries@.len() != actual.dacl->Some_0.entries@.len() {
        Some(RunnerPipeDescriptorComponent::AceCount)
    } else {
        differing_entry_from(
            expected.dacl->Some_0.entries@,
            actual.dacl->Some_0.entries@,
            0,
        )
    }
}

/// Whether an entry plainly allows something to a valid identifier, and is no
/// larger than that.
fn exact_grant(entry: &Vec<u8>) -> (yes: bool)
    ensures
        yes == is_exact_grant(entry@),
{
    let length: usize = entry.len();
    if length < ACCESS_ACE_BYTES || entry[0] != 0 || entry[1] != 0 {
        return false;
    }
    let ghost sid = entry@.skip(ACE_SID_OFFSET as int);
    if length - ACE_SID_OFFSET < SID_HEADER_BYTES {
        return false;
    }
    assert(sid[0] == entry@[8] && sid[1] == entry@[9]);
    if entry[ACE_SID_OFFSET] != 1 || entry[ACE_SID_OFFSET + 1] > 15 {
        return false;
    }
    let count: usize = entry[ACE_SID_OFFSET + 1] as usize;
    if SID_HEADER_BYTES + 4 * count > length - ACE_SID_OFFSET {
        return false;
    }
    let size: usize = entry[2] as usize + 256 * (entry[3] as usize);
    size == ACE_SID_OFFSET + SID_HEADER_BYTES + 4 * count
}

/// Whether two entries are exact and allow the same to the same.
pub fn ace_matches(expected: &Option<Vec<u8>>, actual: &Option<Vec<u8>>) -> (matches: bool)
    ensures
        matches == same_grant(*expected, *actual),
{
    match (expected, actual) {
        (Some(a), Some(b)) => {
            if !exact_grant(a) || !exact_grant(b) {
                return false;
            }
            assert(a@.skip(ACE_SID_OFFSET as int)[1] == a@[9]);
            assert(b@.skip(ACE_SID_OFFSET as int)[1] == b@[9]);
            let left = bytes::part(a.as_slice(), 4, 8);
            let right = bytes::part(b.as_slice(), 4, 8);
            if bytes::read_u32(left.as_slice()) != bytes::read_u32(right.as_slice()) {
                return false;
            }
            let a_size: usize = a[2] as usize + 256 * (a[3] as usize);
            let b_size: usize = b[2] as usize + 256 * (b[3] as usize);
            let a_sid = bytes::part(a.as_slice(), ACE_SID_OFFSET, a_size);
            let b_sid = bytes::part(b.as_slice(), ACE_SID_OFFSET, b_size);
            bytes::same_bytes(a_sid.as_slice(), b_sid.as_slice())
        },
        _ => false,
    }
}

/// What differs first between the descriptor that a pipe has to have and the
/// one that was read.
pub fn descriptor_difference(expected: &PipeDescriptorFacts, actual: &PipeDescriptorFacts) -> (found:
    Option<RunnerPipeDescriptorComponent>)
    requires
        expected.dacl matches Some(acl) ==> acl.entries@.len() <= u16::MAX,
    ensures
        found == difference(*expected, *actual),
{
    if !expected.valid {
        return Some(RunnerPipeDescriptorComponent::ExpectedInvalid);
    }
    if !actual.valid {
        return Some(RunnerPipeDescriptorComponent::ActualInvalid);
    }
    let (expected_owner, expected_dacl) = match (&expected.owner, &expected.dacl) {
        (None, _) => {
            return Some(RunnerPipeDescriptorComponent::Owner);
        },
        (_, None) => {
            return Some(RunnerPipeDescriptorComponent::Dacl);
        },
        (Some(owner), Some(dacl)) => (owner, dacl),
    };
    let (actual_owner, actual_dacl) = match (&actual.owner, &actual.dacl) {
        (None, _) => {
            return Some(RunnerPipeDescriptorComponent::Owner);
        },
        (_, None) => {
            return Some(RunnerPipeDescriptorComponent::Dacl);
        },
        (Some(owner), Some(dacl)) => (owner, dacl),
    };
    if !bytes::same_bytes(expected_owner.as_slice(), actual_owner.as_slice()) {
        return Some(RunnerPipeDescriptorComponent::Owner);
    }
    if !expected.protected || !actual.protected {
        return Some(RunnerPipeDescriptorComponent::ProtectedDacl);
    }
    if expected_dacl.revision != actual_dacl.revision {
        return Some(RunnerPipeDescriptorComponent::Dacl);
    }
    if expected_dacl.entries.len() != actual_dacl.entries.len() {
        return Some(RunnerPipeDescriptorComponent::AceCount);
    }
    differing_entry(&expected_dacl.entries, &actual_dacl.entries)
}

/// The first entry in which two lists differ.
fn differing_entry(expected: &Vec<Option<Vec<u8>>>, actual: &Vec<Option<Vec<u8>>>) -> (found:
    Option<RunnerPipeDescriptorComponent>)
    requires
        expected@.len() == actual@.len(),
        expected@.len() <= u16::MAX,
    ensures
        found == differing_entry_from(expected@, actual@, 0),
{
    for i in 0..expected.len()
        invariant
            expected@.len() == actual@.len(),
            expected@.len() <= u16::MAX,
            differing_entry_from(expected@, actual@, i as int) == differing_entry_from(
                expected@,
                actual@,
                0,
            ),
    {
        if !ace_matches(&expected[i], &actual[i]) {
            return Some(RunnerPipeDescriptorComponent::Ace { index: i as u16 });
        }
    }
    None
}

/// A pipe's descriptor is accepted only where it is the one that it has to
/// be: the same owner, a list that takes nothing from above, and entry for
/// entry the same rights for the same.
pub proof fn accepted_descriptor_is_the_expected_one(
    expected: PipeDescriptorFacts,
    actual: PipeDescriptorFacts,
    i: int,
)
    requires
        difference(expected, actual) is None,
        0 <= i < expected.dacl->Some_0.entries@.len(),
    ensures
        expected.owner->Some_0@ == actual.owner->Some_0@,
        actual.protected,
        actual.dacl->Some_0.entries@.len() == expected.dacl->Some_0.entries@.len(),
        same_grant(expected.dacl->Some_0.entries@[i], actual.dacl->Some_0.entries@[i]),
{
    no_entry_differs(expected.dacl->Some_0.entries@, actual.dacl->Some_0.entries@, 0, i);
}

/// Where no entry differs from some entry on, a later one does not either.
proof fn no_entry_differs(
    expected: Seq<Option<Vec<u8>>>,
    actual: Seq<Option<Vec<u8>>>,
    from: int,
    i: int,
)
    requires
        differing_entry_from(expected, actual, from) is None,
        0 <= from <= i < expected.len(),
    ensures
        same_grant(expected[i], actual[i]),
    decreases i - from,
{
    if from < i {
        no_entry_differs(expected, actual, from + 1, i);
    }
}

/// Why a pipe could not be connected to the runner.
#[derive(Clone, Copy, Debug, PartialEq, Eq, Structural)]
#[allow(inconsistent_fields)]
pub enum PipeConnectError {
    /// The thread that waits has no handle.
    ConnectThreadHandle {
        /// The native status.
        code: u32,
    },
    /// The thread that waits ended too soon.
    ConnectThreadMissing,
    /// The client could not be waited for.
    Connect {
        /// The native status.
        code: u32,
    },
    /// The client did not come in time.
    ConnectTimeout,
    /// The wait could not be broken off.
    ConnectCancel {
        /// The native status.
        code: u32,
    },
    /// The thread that waits panicked.
    ConnectThreadPanic,
    /// Who the client is could not be found out.
    ClientPidRead {
        /// The native status.
        code: u32,
    },
    /// The client is not the runner.
    ClientPidMismatch {
        /// The runner.
        expected: u32,
        /// The client.
        actual: u32,
    },
}

/// Why the client of a pipe is not accepted.
pub open spec fn client_failure(
    connected: Result<(), u32>,
    client: Result<u32, u32>,
    expected: u32,
) -> Option<PipeConnectError> {
    if connected is Err && connected->Err_0 != ERROR_PIPE_CONNECTED {
        Some(PipeConnectError::Connect { code: connected->Err_0 })
    } else {
        match client {
            Err(code) => Some(PipeConnectError::ClientPidRead { code }),
            Ok(actual) => if actual != expected {
                Some(PipeConnectError::ClientPidMismatch { expected, actual })
            } else {
                None
            },
        }
    }
}

/// Whether the client of a pipe is the runner.
pub fn connect_and_verify(connected: Result<(), u32>, client: Result<u32, u32>, expected: u32) -> (result:
    Result<(), PipeConnectError>)
    ensures
        match (client_failure(connected, client, expected), result) {
            (None, Ok(_)) => true,
            (Some(failure), Err(error)) => error == failure,
            _ => false,
        },
{
    match connected {
        Ok(_) => {},
        Err(code) => {
            if code != ERROR_PIPE_CONNECTED {
                return Err(PipeConnectError::Connect { code });
            }
        },
    }
    match client {
        Err(code) => Err(PipeConnectError::ClientPidRead { code }),
        Ok(actual) => if actual != expected {
            Err(PipeConnectError::ClientPidMismatch { expected, actual })
        } else {
            Ok(())
        },
    }
}

/// What came of waiting for the thread that waits for the client.
#[derive(Clone, Copy, Debug)]
pub enum ConnectWait {
    /// It told.
    Told(Result<(), PipeConnectError>),
    /// It did not tell in time, and how its wait was broken off.
    TimedOut(Result<(), u32>),
    /// It ended without telling.
    Disconnected,
}

/// How a pipe was connected, where the thread that waits ended well or not.
pub open spec fn connected(wait: ConnectWait, joined: bool) -> Result<(), PipeConnectError> {
    match wait {
        ConnectWait::TimedOut(Err(code)) if code != ERROR_NOT_FOUND => Err(
            PipeConnectError::ConnectCancel { code },
        ),
        _ => if !joined {
            Err(PipeConnectError::ConnectThreadPanic)
        } else {
            match wait {
                ConnectWait::Told(result) => result,
                ConnectWait::TimedOut(_) => Err(PipeConnectError::ConnectTimeout),
                ConnectWait::Disconnected => Err(PipeConnectError::ConnectThreadMissing),
            }
        },
    }
}

/// How a pipe was connected.
pub fn connect_outcome(wait: ConnectWait, joined: bool) -> (result: Result<(), PipeConnectError>)
    ensures
        result == connected(wait, joined),
{
    if let ConnectWait::TimedOut(Err(code)) = wait {
        if code != ERROR_NOT_FOUND {
            return Err(PipeConnectError::ConnectCancel { code });
        }
    }
    if !joined {
        return Err(PipeConnectError::ConnectThreadPanic);
    }
    match wait {
        ConnectWait::Told(result) => result,
        ConnectWait::TimedOut(_) => Err(PipeConnectError::ConnectTimeout),
        ConnectWait::Disconnected => Err(PipeConnectError::ConnectThreadMissing),
    }
}

/// A client may read what it is asked and write what it answers, and nothing the
/// other way.
pub proof fn clients_have_one_direction(direction: ParentPipeDirection)
    ensures
        client_mask(direction) & 1 == 1 <==> direction is Request,
        client_mask(direction) & 2 == 2 <==> direction is Response,
        client_mask(direction) & 0x000d_0040 == 0,
{
    assert({
        &&& 0x0012_0089u32 & 1 == 1
        &&& 0x0012_0089u32 & 2 == 0
        &&& 0x0012_0089u32 & 0x000d_0040 == 0
        &&& ((0x0012_0116u32 & !4u32) | 0x80u32) & 1 == 0
        &&& ((0x0012_0116u32 & !4u32) | 0x80u32) & 2 == 2
        &&& ((0x0012_0116u32 & !4u32) | 0x80u32) & 0x000d_0040 == 0
    }) by (bit_vector);
}

/// A pipe's descriptor is accepted exactly where both are valid and protected and
/// have the same owner, the same revision, as many entries, and entry by entry the same
/// grants. So accepting it goes both ways.
pub proof fn descriptors_differ_in_no_part(
    expected: PipeDescriptorFacts,
    actual: PipeDescriptorFacts,
)
    requires
        expected.dacl matches Some(acl) ==> acl.entries@.len() <= u16::MAX,
    ensures
        difference(expected, actual) is None <==> {
            &&& expected.valid && actual.valid
            &&& expected.protected && actual.protected
            &&& expected.owner is Some && actual.owner is Some && expected.owner->0@
                == actual.owner->0@
            &&& expected.dacl is Some && actual.dacl is Some
            &&& expected.dacl->0.revision == actual.dacl->0.revision
            &&& expected.dacl->0.entries@.len() == actual.dacl->0.entries@.len()
            &&& forall|i: int|
                0 <= i < expected.dacl->0.entries@.len() ==> same_grant(
                    #[trigger] expected.dacl->0.entries@[i],
                    actual.dacl->0.entries@[i],
                )
        },
        difference(expected, actual) is None ==> difference(actual, expected) is None,
{
    if expected.dacl is Some && actual.dacl is Some {
        let a = expected.dacl->0.entries@;
        let b = actual.dacl->0.entries@;
        entries_agree_from(a, b, 0);
        if a.len() == b.len() {
            entries_agree_from(b, a, 0);
            if differing_entry_from(a, b, 0) is None {
                assert forall|i: int| 0 <= i < b.len() implies same_grant(
                    #[trigger] b[i],
                    a[i],
                ) by {
                    assert(same_grant(a[i], b[i]));
                }
            }
        }
    }
}

/// No entry differs from the `i`th on where each of them is the same.
proof fn entries_agree_from(
    expected: Seq<Option<Vec<u8>>>,
    actual: Seq<Option<Vec<u8>>>,
    i: int,
)
    requires
        0 <= i <= expected.len(),
    ensures
        differing_entry_from(expected, actual, i) is None <==> forall|k: int|
            i <= k < expected.len() ==> same_grant(#[trigger] expected[k], actual[k]),
    decreases expected.len() - i,
{
    if i < expected.len() {
        entries_agree_from(expected, actual, i + 1);
    }
}

/// A client is taken for the runner only where it connected, or had before, and is
/// the process that was expected.
pub proof fn only_the_runner_is_taken(
    connected: Result<(), u32>,
    client: Result<u32, u32>,
    expected: u32,
    other: u32,
)
    ensures
        client_failure(connected, client, expected) is None <==> (connected is Ok || connected
            == Err::<(), u32>(535)) && client == Ok::<u32, u32>(expected),
        client_failure(connected, client, expected) is None && client_failure(
            connected,
            client,
            other,
        ) is None ==> expected == other,
        client_failure(connected, client, expected) matches Some(error) ==> match error {
            PipeConnectError::Connect { code } => connected == Err::<(), u32>(code) && code != 535,
            PipeConnectError::ClientPidRead { code } => client == Err::<u32, u32>(code),
            PipeConnectError::ClientPidMismatch { expected: wanted, actual } => wanted == expected
                && client == Ok::<u32, u32>(actual) && actual != expected,
            _ => false,
        },
{
}

/// A pipe is connected only where the thread that waits for it said so and ended
/// well; a wait that timed out never counts.
pub proof fn only_told_connections_count(wait: ConnectWait, joined: bool)
    ensures
        connected(wait, joined) is Ok <==> joined && (wait matches ConnectWait::Told(result)
            && result is Ok),
        (wait matches ConnectWait::Told(Err(error)) && joined) ==> (connected(
            wait,
            joined,
        ) matches Err(told) && told == wait->Told_0->Err_0),
        wait is Disconnected && joined ==> (connected(wait, joined) matches Err(error) && error
            is ConnectThreadMissing),
        (wait matches ConnectWait::TimedOut(cancelled) && (cancelled is Ok || cancelled == Err::<
            (),
            u32,
        >(1168)) && joined) ==> (connected(wait, joined) matches Err(error) && error
            is ConnectTimeout),
{
}

/// Two entries that are the same grant have the same bytes as far as they go: they
/// plainly allow, on the object alone, the same rights to the same identifier.
pub proof fn same_grants_have_the_same_bytes(
    expected: Option<Vec<u8>>,
    actual: Option<Vec<u8>>,
)
    requires
        same_grant(expected, actual),
    ensures
        expected is Some && actual is Some,
        aces::entry_size(expected->0@) == 16 + 4 * expected->0@[9],
        expected->0@[0] == 0 && expected->0@[1] == 0,
        expected->0@.take(aces::entry_size(expected->0@)) == actual->0@.take(
            aces::entry_size(expected->0@),
        ),
        same_grant(actual, expected),
{
    let a = expected->0@;
    let b = actual->0@;
    let n = aces::entry_size(a);
    let sid = a.skip(8);
    let other = b.skip(8);
    assert(sid[1] == a[9] && other[1] == b[9] && sid[0] == a[8] && other[0] == b[8]);
    let x = a.subrange(8, n);
    let y = b.subrange(8, aces::entry_size(b));
    assert(x.len() == y.len());
    assert(aces::entry_size(b) == n);
    aces::numbers_stand_lowest_byte_first(a);
    aces::numbers_stand_lowest_byte_first(b);
    assert forall|i: int| 0 <= i < n implies a[i] == b[i] by {
        if i >= 8 {
            assert(x[i - 8] == y[i - 8]);
        }
    }
    assert(a.take(n) =~= b.take(n));
}

/// A pipe is open to the system, the administrators, the owner and the runner's
/// session: to the last only to read requests, or only to write responses.
pub proof fn pipes_are_private(owner_sid: Seq<char>, logon_sid: Seq<char>)
    ensures
        pipe_descriptor(owner_sid, logon_sid, ParentPipeDirection::Request) == "O:"@ + owner_sid
            + "D:P(A;;FA;;;SY)(A;;FA;;;BA)(A;;FA;;;"@ + owner_sid + ")(A;;0x00120089;;;"@
            + logon_sid + ")"@,
        pipe_descriptor(owner_sid, logon_sid, ParentPipeDirection::Response) == "O:"@ + owner_sid
            + "D:P(A;;FA;;;SY)(A;;FA;;;BA)(A;;FA;;;"@ + owner_sid + ")(A;;0x00120192;;;"@
            + logon_sid + ")"@,
{
    reveal_strlit(")(A;;0x");
    reveal_strlit(";;;");
    reveal_strlit(")(A;;0x00120089;;;");
    reveal_strlit(")(A;;0x00120192;;;");
    assert((0x0012_0116u32 & !4u32) | 0x80u32 == 0x0012_0192) by (bit_vector);
    assert(text::hex_word(0x0012_0089) =~= seq!['0', '0', '1', '2', '0', '0', '8', '9']);
    assert(text::hex_word(0x0012_0192) =~= seq!['0', '0', '1', '2', '0', '1', '9', '2']);
    assert(pipe_descriptor(owner_sid, logon_sid, ParentPipeDirection::Request) =~= "O:"@ + owner_sid
        + "D:P(A;;FA;;;SY)(A;;FA;;;BA)(A;;FA;;;"@ + owner_sid + ")(A;;0x00120089;;;"@ + logon_sid
        + ")"@);
    assert(pipe_descriptor(owner_sid, logon_sid, ParentPipeDirection::Response) =~= "O:"@
        + owner_sid + "D:P(A;;FA;;;SY)(A;;FA;;;BA)(A;;FA;;;"@ + owner_sid + ")(A;;0x00120192;;;"@
        + logon_sid + ")"@);
}

} // verus!
