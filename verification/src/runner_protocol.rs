//! The bounded, versioned transport between the backend and the command
//! runner.

use vstd::arithmetic::power;
use vstd::prelude::*;

use crate::bytes;

verus! {

/// The version that both sides have to speak.
pub const RUNNER_PROTOCOL_VERSION: u32 = 2;

/// The greatest size of a frame's payload.
pub const MAX_RUNNER_FRAME_BYTES: usize = 8 * 1024 * 1024;

/// The size of a frame's length.
pub const FRAME_LENGTH_BYTES: usize = 4;

/// The account that a runner runs under.
#[derive(Clone, Copy, Debug, PartialEq, Eq, Structural)]
pub enum RunnerAccount {
    /// Without network.
    Offline,
    /// With network.
    Online,
}

/// The standard handles of a child, as numbers in the runner.
#[derive(Clone, Copy, Debug, PartialEq, Eq, Structural)]
pub struct RunnerStandardHandles {
    /// Standard input.
    pub stdin: u64,
    /// Standard output.
    pub stdout: u64,
    /// Standard error.
    pub stderr: u64,
}

/// What a runner is asked to start.
#[derive(Debug)]
pub struct RunnerSpawnRequest {
    /// The program and its arguments.
    pub command: Vec<Vec<u16>>,
    /// The working directory.
    pub working_directory: Vec<u16>,
    /// The environment.
    pub environment_block: Vec<u16>,
    /// Whose rights the child has.
    pub capability_sids: Vec<String>,
    /// By which the child's connections are known.
    pub route_sid: Option<String>,
    /// The account.
    pub account: RunnerAccount,
    /// The standard handles.
    pub standard_handles: RunnerStandardHandles,
    /// The job that the child joins, as a number in the runner.
    pub job_handle: u64,
    /// The desktop of the child.
    pub desktop_name: Vec<u16>,
}

/// Fixed pre-transport command-runner bootstrap phase.
#[derive(Clone, Copy, Debug, PartialEq, Eq, Structural)]
pub enum RunnerBootstrapStage {
    /// Reading the arguments.
    Arguments,
    /// Checking the installed files.
    InstalledIdentity,
    /// Opening the request pipe.
    RequestPipe,
    /// Opening the response pipe.
    ResponsePipe,
    /// Checking the other side.
    TransportAuthentication,
}

impl RunnerBootstrapStage {
    /// The exit code that stands for the phase.
    pub open spec fn number(self) -> u8 {
        match self {
            RunnerBootstrapStage::Arguments => 125,
            RunnerBootstrapStage::InstalledIdentity => 126,
            RunnerBootstrapStage::RequestPipe => 127,
            RunnerBootstrapStage::ResponsePipe => 128,
            RunnerBootstrapStage::TransportAuthentication => 129,
        }
    }

    /// The exit code that stands for the phase.
    pub fn code(self) -> (code: u8)
        ensures
            code == self.number(),
    {
        match self {
            RunnerBootstrapStage::Arguments => 125,
            RunnerBootstrapStage::InstalledIdentity => 126,
            RunnerBootstrapStage::RequestPipe => 127,
            RunnerBootstrapStage::ResponsePipe => 128,
            RunnerBootstrapStage::TransportAuthentication => 129,
        }
    }

    /// The phase that a number stands for.
    pub fn from_code(code: u32) -> (stage: Option<RunnerBootstrapStage>)
        ensures
            stage == stage_of(code as int),
    {
        if code == 125 {
            Some(RunnerBootstrapStage::Arguments)
        } else if code == 126 {
            Some(RunnerBootstrapStage::InstalledIdentity)
        } else if code == 127 {
            Some(RunnerBootstrapStage::RequestPipe)
        } else if code == 128 {
            Some(RunnerBootstrapStage::ResponsePipe)
        } else if code == 129 {
            Some(RunnerBootstrapStage::TransportAuthentication)
        } else {
            None
        }
    }
}

/// Every phase has an exit code of its own.
pub proof fn bootstrap_codes_are_exclusive(a: RunnerBootstrapStage, b: RunnerBootstrapStage)
    ensures
        a.number() == b.number() ==> a == b,
        125 <= a.number() <= 129,
{
}

/// What a failed runner reports of its phase before the transport stands.
#[derive(Clone, Copy, Debug, PartialEq, Eq, Structural)]
pub struct RunnerBootstrapStatus {
    /// The phase.
    pub stage: RunnerBootstrapStage,
    /// The native status, where one was reported.
    pub native_code: Option<u32>,
}

/// The phase that a number stands for.
pub open spec fn stage_of(number: int) -> Option<RunnerBootstrapStage> {
    if number == 125 {
        Some(RunnerBootstrapStage::Arguments)
    } else if number == 126 {
        Some(RunnerBootstrapStage::InstalledIdentity)
    } else if number == 127 {
        Some(RunnerBootstrapStage::RequestPipe)
    } else if number == 128 {
        Some(RunnerBootstrapStage::ResponsePipe)
    } else if number == 129 {
        Some(RunnerBootstrapStage::TransportAuthentication)
    } else {
        None
    }
}

/// The status that an exit code reports: it is the number of a phase, or it
/// begins with a mark and says a phase together with the low half of a native
/// status.
pub open spec fn reported(exit_code: u32) -> Option<RunnerBootstrapStatus> {
    if exit_code / 0x100_0000 == 0xcf {
        match stage_of((exit_code / 0x1_0000 % 0x100) as int) {
            Some(stage) => Some(
                RunnerBootstrapStatus { stage, native_code: Some((exit_code % 0x1_0000) as u32) },
            ),
            None => None,
        }
    } else {
        match stage_of(exit_code as int) {
            Some(stage) => Some(RunnerBootstrapStatus { stage, native_code: None }),
            None => None,
        }
    }
}

/// The status that an exit code reports, if it reports one.
pub fn decode_runner_bootstrap_status(exit_code: u32) -> (status: Option<RunnerBootstrapStatus>)
    ensures
        status == reported(exit_code),
{
    let native = exit_code / 0x100_0000 == 0xcf;
    let (number, native_code): (u32, Option<u32>) = if native {
        (exit_code / 0x1_0000 % 0x100, Some(exit_code % 0x1_0000))
    } else {
        (exit_code, None)
    };
    match RunnerBootstrapStage::from_code(number) {
        Some(stage) => Some(RunnerBootstrapStatus { stage, native_code }),
        None => None,
    }
}

/// The exit code of a phase reports the phase, alone or with a native status
/// of sixteen bits.
pub proof fn bootstrap_codes_round_trip(stage: RunnerBootstrapStage, native_code: u16)
    ensures
        stage_of(stage.number() as int) == Some(stage),
        reported(stage.number() as u32) == Some(
            RunnerBootstrapStatus { stage, native_code: None },
        ),
        reported((0xcf00_0000 + 0x1_0000 * stage.number() + native_code) as u32) == Some(
            RunnerBootstrapStatus { stage, native_code: Some(native_code as u32) },
        ),
{
}

/// Native command-runner stage that rejected or failed an operation.
#[derive(Clone, Copy, Debug, PartialEq, Eq, Structural)]
pub enum WindowsRunnerFailureStage {
    /// Protected runner and parent identity authentication.
    Authentication,
    /// Versioned request framing and validation.
    Request,
    /// Restricted primary-token construction.
    Token,
    /// Parent-owned Job Object handle validation or process assignment.
    Job,
    /// User-command process construction.
    Process,
    /// User-command process wait or status collection.
    Wait,
    /// Complete Job Object termination.
    Termination,
}

/// Exact command-runner operation that failed.
#[derive(Clone, Copy, Debug, PartialEq, Eq, Structural)]
pub enum WindowsRunnerFailureCode {
    /// The installed runner manifest could not be located beside the executable.
    ManifestPath,
    /// The installed runner manifest or executable could not be opened or read.
    InstalledResourceRead,
    /// The installed runner manifest was malformed or version-incompatible.
    ManifestDecode,
    /// The installed runner or manifest has an unexpected Windows object owner or DACL.
    InstalledResourceSecurity,
    /// The running command-runner executable differs from its manifest digest.
    RunnerDigestMismatch,
    /// A request or response named pipe could not be opened.
    PipeOpen,
    /// The two named-pipe server process identifiers differ.
    PipeServerMismatch,
    /// The named-pipe server process could not be opened.
    ServerProcessOpen,
    /// The named-pipe server token could not be opened.
    ServerTokenOpen,
    /// The named-pipe server token owner differs from the setup owner.
    ServerOwnerMismatch,
    /// The runner token user is neither provisioned sandbox account.
    RunnerAccountMismatch,
    /// A framed request could not be read, decoded, or validated.
    RequestFrame,
    /// The request selected a different provisioned account than the runner token.
    RequestedAccountMismatch,
    /// One command, path, environment, SID, HANDLE, or timeout field is malformed.
    RequestField,
    /// The runner process token could not be opened with the required rights.
    BaseTokenOpen,
    /// A capability or route SID could not be parsed.
    RestrictingSidParse,
    /// `CreateRestrictedToken` rejected the requested restriction set.
    RestrictedTokenCreate,
    /// The restricted token default DACL could not be installed.
    TokenDefaultDacl,
    /// `SeChangeNotifyPrivilege` could not be re-enabled exclusively.
    TokenPrivilege,
    /// The parent-supplied Job Object handle is invalid or over-privileged.
    JobHandleInvalid,
    /// The process attribute list could not be initialized.
    AttributeListCreate,
    /// The explicit standard-handle list could not be installed.
    HandleListApply,
    /// Atomic Job Object assignment could not be installed.
    JobListApply,
    /// A parent-duplicated standard handle was invalid or not inheritable.
    StandardStreamPrepare,
    /// `CreateProcessAsUserW` rejected the prepared process.
    ProcessStart,
    /// Waiting for the user process failed.
    ProcessWait,
    /// Reading the user-process exit code failed.
    ExitCodeRead,
    /// Complete Job Object termination failed.
    JobTerminate,
    /// A structured runner response could not be written.
    ResponseFrame,
}

/// Structured failure returned by the authenticated Windows command runner.
#[derive(Debug)]
pub struct WindowsRunnerFailure {
    stage: WindowsRunnerFailureStage,
    code: WindowsRunnerFailureCode,
    native_code: Option<u32>,
    detail: String,
}

/// What a failure says.
#[verifier::ext_equal]
pub struct RunnerFailureModel {
    /// The stage that failed.
    pub stage: WindowsRunnerFailureStage,
    /// The operation that failed.
    pub code: WindowsRunnerFailureCode,
    /// The native status.
    pub native_code: Option<u32>,
    /// The diagnostic.
    pub detail: Seq<char>,
}

impl View for WindowsRunnerFailure {
    type V = RunnerFailureModel;

    closed spec fn view(&self) -> RunnerFailureModel {
        RunnerFailureModel {
            stage: self.stage,
            code: self.code,
            native_code: self.native_code,
            detail: self.detail@,
        }
    }
}

impl WindowsRunnerFailure {
    /// A failure of an operation of a stage.
    pub fn new(
        stage: WindowsRunnerFailureStage,
        code: WindowsRunnerFailureCode,
        native_code: Option<u32>,
        detail: String,
    ) -> (failure: WindowsRunnerFailure)
        ensures
            failure@ == (RunnerFailureModel { stage, code, native_code, detail: detail@ }),
    {
        WindowsRunnerFailure { stage, code, native_code, detail }
    }

    /// Returns the native runner stage that failed.
    pub fn stage(&self) -> (stage: WindowsRunnerFailureStage)
        ensures
            stage == self@.stage,
    {
        self.stage
    }

    /// Returns the exact native runner operation that failed.
    pub fn code(&self) -> (code: WindowsRunnerFailureCode)
        ensures
            code == self@.code,
    {
        self.code
    }

    /// Returns the Win32 error code when the failed API supplied one.
    pub fn native_code(&self) -> (native_code: Option<u32>)
        ensures
            native_code == self@.native_code,
    {
        self.native_code
    }

    /// Returns the bounded diagnostic supplied by the runner.
    pub fn detail(&self) -> (detail: &str)
        ensures
            detail@ == self@.detail,
    {
        self.detail.as_str()
    }
}

/// The stream that output belongs to.
#[derive(Clone, Copy, Debug, PartialEq, Eq, Structural)]
pub enum RunnerOutputStream {
    /// Standard output.
    Stdout,
    /// Standard error.
    Stderr,
}

/// What one side tells the other.
#[derive(Debug)]
pub enum RunnerMessage {
    /// The runner is ready.
    Ready,
    /// A child is to be started.
    Spawn {
        /// Which one.
        request: RunnerSpawnRequest,
    },
    /// The child was started.
    Spawned {
        /// The child's process.
        process_id: u32,
    },
    /// The child ended.
    Exited {
        /// Its exit code.
        exit_code: u32,
    },
    /// The runner failed.
    Failed {
        /// How.
        failure: WindowsRunnerFailure,
    },
    /// A suspended runner was prepared.
    BootstrapRunner {
        /// The runner's process.
        process_id: u32,
        /// The process, as a number in the receiver.
        process_handle: u64,
        /// Its thread, as a number in the receiver.
        thread_handle: u64,
        /// The session that the runner belongs to.
        logon_sid: String,
    },
    /// Who the parent is.
    ParentIdentity {
        /// The parent's process, as a number in the receiver.
        process_handle: u64,
        /// Its token, as a number in the receiver.
        token_handle: u64,
    },
    /// The child wrote output.
    Output {
        /// To which stream.
        stream: RunnerOutputStream,
        /// What.
        bytes: Vec<u8>,
    },
    /// Input for the child.
    Stdin {
        /// What.
        bytes: Vec<u8>,
    },
    /// The child's input ends.
    CloseStdin,
}

/// The kind of a message.
#[derive(Clone, Copy, Debug, PartialEq, Eq, Structural)]
pub enum RunnerMessageKind {
    /// The runner is ready.
    Ready,
    /// A child is to be started.
    Spawn,
    /// The child was started.
    Spawned,
    /// The child ended.
    Exited,
    /// The runner failed.
    Failed,
    /// A suspended runner was prepared.
    BootstrapRunner,
    /// Who the parent is.
    ParentIdentity,
    /// The child wrote output.
    Output,
    /// Input for the child.
    Stdin,
    /// The child's input ends.
    CloseStdin,
}

/// The kind of a message.
pub open spec fn kind_of(message: RunnerMessage) -> RunnerMessageKind {
    match message {
        RunnerMessage::Ready => RunnerMessageKind::Ready,
        RunnerMessage::Spawn { .. } => RunnerMessageKind::Spawn,
        RunnerMessage::Spawned { .. } => RunnerMessageKind::Spawned,
        RunnerMessage::Exited { .. } => RunnerMessageKind::Exited,
        RunnerMessage::Failed { .. } => RunnerMessageKind::Failed,
        RunnerMessage::BootstrapRunner { .. } => RunnerMessageKind::BootstrapRunner,
        RunnerMessage::ParentIdentity { .. } => RunnerMessageKind::ParentIdentity,
        RunnerMessage::Output { .. } => RunnerMessageKind::Output,
        RunnerMessage::Stdin { .. } => RunnerMessageKind::Stdin,
        RunnerMessage::CloseStdin => RunnerMessageKind::CloseStdin,
    }
}

impl RunnerMessage {
    /// The kind of the message.
    pub fn kind(&self) -> (kind: RunnerMessageKind)
        ensures
            kind == kind_of(*self),
    {
        match self {
            RunnerMessage::Ready => RunnerMessageKind::Ready,
            RunnerMessage::Spawn { .. } => RunnerMessageKind::Spawn,
            RunnerMessage::Spawned { .. } => RunnerMessageKind::Spawned,
            RunnerMessage::Exited { .. } => RunnerMessageKind::Exited,
            RunnerMessage::Failed { .. } => RunnerMessageKind::Failed,
            RunnerMessage::BootstrapRunner { .. } => RunnerMessageKind::BootstrapRunner,
            RunnerMessage::ParentIdentity { .. } => RunnerMessageKind::ParentIdentity,
            RunnerMessage::Output { .. } => RunnerMessageKind::Output,
            RunnerMessage::Stdin { .. } => RunnerMessageKind::Stdin,
            RunnerMessage::CloseStdin => RunnerMessageKind::CloseStdin,
        }
    }
}

impl RunnerMessageKind {
    /// The word for the kind.
    pub open spec fn word(self) -> Seq<char> {
        match self {
            RunnerMessageKind::Ready => "ready"@,
            RunnerMessageKind::Spawn => "spawn"@,
            RunnerMessageKind::Spawned => "spawned"@,
            RunnerMessageKind::Exited => "exited"@,
            RunnerMessageKind::Failed => "failed"@,
            RunnerMessageKind::BootstrapRunner => "bootstrap_runner"@,
            RunnerMessageKind::ParentIdentity => "parent_identity"@,
            RunnerMessageKind::Output => "output"@,
            RunnerMessageKind::Stdin => "stdin"@,
            RunnerMessageKind::CloseStdin => "close_stdin"@,
        }
    }

    /// The word for the kind.
    pub fn label(self) -> (label: &'static str)
        ensures
            label@ == self.word(),
    {
        match self {
            RunnerMessageKind::Ready => "ready",
            RunnerMessageKind::Spawn => "spawn",
            RunnerMessageKind::Spawned => "spawned",
            RunnerMessageKind::Exited => "exited",
            RunnerMessageKind::Failed => "failed",
            RunnerMessageKind::BootstrapRunner => "bootstrap_runner",
            RunnerMessageKind::ParentIdentity => "parent_identity",
            RunnerMessageKind::Output => "output",
            RunnerMessageKind::Stdin => "stdin",
            RunnerMessageKind::CloseStdin => "close_stdin",
        }
    }
}

/// Failure while encoding or decoding the bounded command-runner protocol.
#[derive(Debug)]
#[allow(inconsistent_fields)]
pub enum WindowsRunnerProtocolError {
    /// The encoded frame exceeds the protocol memory bound.
    FrameTooLarge {
        /// Encoded payload size.
        actual: usize,
        /// Maximum accepted payload size.
        maximum: usize,
    },
    /// A frame could not be serialized.
    Encode {
        /// What the serializer says.
        detail: String,
    },
    /// A frame length could not be read completely.
    LengthRead {
        /// What the transport says.
        detail: String,
    },
    /// A frame payload could not be read completely.
    PayloadRead {
        /// What the transport says.
        detail: String,
    },
    /// A complete frame payload was not valid JSON.
    Decode {
        /// What the deserializer says.
        detail: String,
    },
    /// A frame could not be written completely.
    Write {
        /// What the transport says.
        detail: String,
    },
    /// The peer uses another protocol version.
    VersionMismatch {
        /// Supported protocol version.
        expected: u32,
        /// Received protocol version.
        actual: u32,
    },
    /// The peer sent a message invalid for the current protocol phase.
    UnexpectedMessage {
        /// Stable handshake or lifecycle phase.
        phase: &'static str,
        /// Received message kind.
        actual: RunnerMessageKind,
    },
}

/// Whether an error is that a payload is too large.
pub open spec fn is_too_large(error: WindowsRunnerProtocolError, size: int) -> bool {
    error matches WindowsRunnerProtocolError::FrameTooLarge { actual, maximum } && actual == size
        && maximum == MAX_RUNNER_FRAME_BYTES
}

/// A payload as a frame: its length in four bytes, then the payload.
pub open spec fn framed(payload: Seq<u8>) -> Seq<u8> {
    bytes::little_endian(payload.len(), FRAME_LENGTH_BYTES as nat) + payload
}

/// Puts a payload into a frame.
pub fn encode_frame(payload: &Vec<u8>) -> (result: Result<Vec<u8>, WindowsRunnerProtocolError>)
    ensures
        match result {
            Ok(frame) => {
                &&& payload@.len() <= MAX_RUNNER_FRAME_BYTES
                &&& frame@ == framed(payload@)
            },
            Err(error) => {
                &&& payload@.len() > MAX_RUNNER_FRAME_BYTES
                &&& is_too_large(error, payload@.len() as int)
            },
        },
{
    let length: usize = payload.len();
    if length > MAX_RUNNER_FRAME_BYTES {
        return Err(
            WindowsRunnerProtocolError::FrameTooLarge {
                actual: length,
                maximum: MAX_RUNNER_FRAME_BYTES,
            },
        );
    }
    let mut frame: Vec<u8> = Vec::new();
    bytes::push_little_endian(&mut frame, length as u64, FRAME_LENGTH_BYTES);
    bytes::append(&mut frame, payload.as_slice());
    assert(frame@ =~= framed(payload@));
    Ok(frame)
}

/// The size of the payload that a frame's length announces. A payload that
/// is too large is refused before there is room for it.
pub fn payload_length(length: &Vec<u8>) -> (result: Result<usize, WindowsRunnerProtocolError>)
    requires
        length@.len() == FRAME_LENGTH_BYTES,
    ensures
        ({
            let announced = bytes::little_endian_value(length@);
            match result {
                Ok(size) => size == announced && size <= MAX_RUNNER_FRAME_BYTES,
                Err(error) => announced > MAX_RUNNER_FRAME_BYTES && is_too_large(
                    error,
                    announced as int,
                ),
            }
        }),
{
    let announced: u32 = bytes::read_u32(length.as_slice());
    let size: usize = announced as usize;
    if size > MAX_RUNNER_FRAME_BYTES {
        return Err(
            WindowsRunnerProtocolError::FrameTooLarge {
                actual: size,
                maximum: MAX_RUNNER_FRAME_BYTES,
            },
        );
    }
    Ok(size)
}

/// A frame that arrives in parts.
#[derive(Debug)]
pub struct FrameAssembly {
    received: Vec<u8>,
    target: usize,
}

impl View for FrameAssembly {
    type V = Seq<u8>;

    /// What was received.
    closed spec fn view(&self) -> Seq<u8> {
        self.received@
    }
}

/// How many bytes a frame has of which some were received.
pub open spec fn frame_target(received: Seq<u8>) -> int {
    if received.len() < FRAME_LENGTH_BYTES {
        FRAME_LENGTH_BYTES as int
    } else {
        FRAME_LENGTH_BYTES + bytes::little_endian_value(
            received.take(FRAME_LENGTH_BYTES as int),
        )
    }
}

impl FrameAssembly {
    /// Whether no more was received than the frame has, and the frame is not
    /// too large.
    pub closed spec fn wf(self) -> bool {
        &&& self.target == frame_target(self.received@)
        &&& self.received@.len() <= self.target
        &&& self.target <= FRAME_LENGTH_BYTES + MAX_RUNNER_FRAME_BYTES
    }

    /// A frame of which nothing was received.
    pub fn new() -> (assembly: FrameAssembly)
        ensures
            assembly.wf(),
            assembly@ == Seq::<u8>::empty(),
    {
        FrameAssembly { received: Vec::new(), target: FRAME_LENGTH_BYTES }
    }

    /// How many bytes to read next at most; none when the frame is complete.
    pub fn missing(&self) -> (missing: usize)
        requires
            self.wf(),
        ensures
            missing == frame_target(self@) - self@.len(),
    {
        self.target - self.received.len()
    }

    /// Takes in bytes.
    pub fn supply(&mut self, more: &Vec<u8>) -> (result: Result<(), WindowsRunnerProtocolError>)
        requires
            old(self).wf(),
            more@.len() <= frame_target(old(self)@) - old(self)@.len(),
        ensures
            final(self)@ == old(self)@ + more@,
            match result {
                Ok(_) => final(self).wf(),
                Err(error) => {
                    &&& frame_target(final(self)@) > FRAME_LENGTH_BYTES + MAX_RUNNER_FRAME_BYTES
                    &&& is_too_large(error, frame_target(final(self)@) - FRAME_LENGTH_BYTES)
                },
            },
    {
        let ghost before = self.received@;
        let held: usize = self.received.len();
        bytes::append(&mut self.received, more.as_slice());
        let length: usize = self.received.len();
        if held < FRAME_LENGTH_BYTES && length == FRAME_LENGTH_BYTES {
            assert(self.received@.take(FRAME_LENGTH_BYTES as int) =~= self.received@);
            match payload_length(&self.received) {
                Ok(size) => {
                    self.target = FRAME_LENGTH_BYTES + size;
                },
                Err(error) => {
                    return Err(error);
                },
            }
        } else {
            proof {
                if held >= FRAME_LENGTH_BYTES {
                    assert(self.received@.take(FRAME_LENGTH_BYTES as int) =~= before.take(
                        FRAME_LENGTH_BYTES as int,
                    ));
                }
            }
        }
        Ok(())
    }

    /// The payload of a complete frame.
    pub fn into_payload(self) -> (payload: Vec<u8>)
        requires
            self.wf(),
            self@.len() >= FRAME_LENGTH_BYTES,
            frame_target(self@) == self@.len(),
        ensures
            self@ == framed(payload@),
    {
        let length: usize = self.received.len();
        let payload = bytes::part(self.received.as_slice(), FRAME_LENGTH_BYTES, length);
        proof {
            let head = self.received@.take(FRAME_LENGTH_BYTES as int);
            bytes::little_endian_of_value(head);
            assert(self.received@ =~= head + payload@);
        }
        payload
    }
}

/// What is written into a frame is what is read out of it: a frame in full
/// is complete, and its payload is the one that was put into it.
pub proof fn frame_gives_back_its_payload(payload: Seq<u8>)
    requires
        payload.len() <= MAX_RUNNER_FRAME_BYTES,
    ensures
        frame_target(framed(payload)) == framed(payload).len(),
        framed(payload).skip(FRAME_LENGTH_BYTES as int) == payload,
{
    let head = bytes::little_endian(payload.len(), FRAME_LENGTH_BYTES as nat);
    bytes::value_of_little_endian(payload.len(), FRAME_LENGTH_BYTES as nat);
    assert(payload.len() < power::pow(256, FRAME_LENGTH_BYTES as nat)) by {
        reveal_with_fuel(power::pow, 5);
    }
    assert(framed(payload).take(FRAME_LENGTH_BYTES as int) =~= head);
    assert(framed(payload).skip(FRAME_LENGTH_BYTES as int) =~= payload);
}

/// Different payloads have different frames.
pub proof fn frames_are_unique(a: Seq<u8>, b: Seq<u8>)
    requires
        a.len() <= MAX_RUNNER_FRAME_BYTES,
        b.len() <= MAX_RUNNER_FRAME_BYTES,
        framed(a) == framed(b),
    ensures
        a == b,
{
    frame_gives_back_its_payload(a);
    frame_gives_back_its_payload(b);
}

/// What a complete frame in memory holds.
pub fn read_frame(frame: &Vec<u8>) -> (result: Result<Vec<u8>, WindowsRunnerProtocolError>)
    ensures
        match result {
            Ok(payload) => {
                &&& payload@.len() <= MAX_RUNNER_FRAME_BYTES
                &&& framed(payload@).is_prefix_of(frame@)
            },
            Err(error) => {
                let announced = frame_target(frame@) - FRAME_LENGTH_BYTES;
                if frame@.len() < FRAME_LENGTH_BYTES {
                    error is LengthRead
                } else if announced > MAX_RUNNER_FRAME_BYTES {
                    is_too_large(error, announced)
                } else {
                    error is PayloadRead && frame@.len() < frame_target(frame@)
                }
            },
        },
{
    if frame.len() < FRAME_LENGTH_BYTES {
        return Err(
            WindowsRunnerProtocolError::LengthRead {
                detail: "failed to fill whole buffer".to_owned(),
            },
        );
    }
    let head = bytes::part(frame.as_slice(), 0, FRAME_LENGTH_BYTES);
    assert(head@ =~= frame@.take(FRAME_LENGTH_BYTES as int));
    let size: usize = match payload_length(&head) {
        Ok(size) => size,
        Err(error) => {
            return Err(error);
        },
    };
    if frame.len() - FRAME_LENGTH_BYTES < size {
        return Err(
            WindowsRunnerProtocolError::PayloadRead {
                detail: "failed to fill whole buffer".to_owned(),
            },
        );
    }
    let payload = bytes::part(frame.as_slice(), FRAME_LENGTH_BYTES, FRAME_LENGTH_BYTES + size);
    proof {
        bytes::little_endian_of_value(head@);
        assert(framed(payload@) =~= frame@.take(FRAME_LENGTH_BYTES + size));
    }
    Ok(payload)
}

/// Whether a frame speaks the version that this side speaks.
pub fn verify_version(version: u32) -> (result: Result<(), WindowsRunnerProtocolError>)
    ensures
        match result {
            Ok(_) => version == RUNNER_PROTOCOL_VERSION,
            Err(error) => version != RUNNER_PROTOCOL_VERSION && error == (
            WindowsRunnerProtocolError::VersionMismatch {
                expected: RUNNER_PROTOCOL_VERSION,
                actual: version,
            }),
        },
{
    if version == RUNNER_PROTOCOL_VERSION {
        Ok(())
    } else {
        Err(
            WindowsRunnerProtocolError::VersionMismatch {
                expected: RUNNER_PROTOCOL_VERSION,
                actual: version,
            },
        )
    }
}

/// What a runner is asked to start, before its handles are known.
#[derive(Debug)]
pub struct PendingRunnerSpawnRequest {
    /// The program and its arguments.
    pub command: Vec<Vec<u16>>,
    /// The working directory.
    pub working_directory: Vec<u16>,
    /// The environment.
    pub environment_block: Vec<u16>,
    /// Whose rights the child has.
    pub capability_sids: Vec<String>,
    /// By which the child's connections are known.
    pub route_sid: Option<String>,
    /// The account.
    pub account: RunnerAccount,
    /// The desktop of the child.
    pub desktop_name: Vec<u16>,
}

impl PendingRunnerSpawnRequest {
    /// The request with its handles.
    pub fn bind(self, standard_handles: RunnerStandardHandles, job_handle: u64) -> (request:
        RunnerSpawnRequest)
        ensures
            request == (RunnerSpawnRequest {
                command: self.command,
                working_directory: self.working_directory,
                environment_block: self.environment_block,
                capability_sids: self.capability_sids,
                route_sid: self.route_sid,
                account: self.account,
                standard_handles,
                job_handle,
                desktop_name: self.desktop_name,
            }),
    {
        RunnerSpawnRequest {
            command: self.command,
            working_directory: self.working_directory,
            environment_block: self.environment_block,
            capability_sids: self.capability_sids,
            route_sid: self.route_sid,
            account: self.account,
            standard_handles,
            job_handle,
            desktop_name: self.desktop_name,
        }
    }
}

/// An exit code is a report only where it is a stage alone, or a stage with a native
/// code under the mark of one; so the report says which exit code it came from.
pub proof fn reports_are_made_by_stages(exit_code: u32)
    ensures
        reported(exit_code) matches Some(status) ==> exit_code == (match status.native_code {
            None => status.stage.number() as int,
            Some(native) => 0xcf00_0000 + 0x1_0000 * status.stage.number() + native,
        }) && (status.native_code matches Some(native) ==> native <= 0xffff),
        reported(exit_code) is None ==> !(125 <= exit_code <= 129) && !(0xcf7d_0000 <= exit_code
            <= 0xcf81_ffff),
{
}

/// The words for two kinds of message are different.
pub proof fn words_tell_kinds_apart(a: RunnerMessageKind, b: RunnerMessageKind)
    ensures
        a.word() == b.word() <==> a == b,
{
    reveal_strlit("ready");
    reveal_strlit("spawn");
    reveal_strlit("spawned");
    reveal_strlit("exited");
    reveal_strlit("failed");
    reveal_strlit("bootstrap_runner");
    reveal_strlit("parent_identity");
    reveal_strlit("output");
    reveal_strlit("stdin");
    reveal_strlit("close_stdin");
    if a != b {
        assert(a.word().len() != b.word().len() || a.word()[0] != b.word()[0] || a.word()[1]
            != b.word()[1]);
    }
}

} // verus!
