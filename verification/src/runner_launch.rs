//! Launching a runner: what is done before it may run, and what its early
//! end means.

use vstd::prelude::*;

use crate::runner_boundary::{WAIT_FAILED, WAIT_OBJECT_0, WAIT_TIMEOUT};
use crate::runner_pipe::ParentPipeDirection;
use crate::runner_protocol;
use crate::runner_protocol::RunnerBootstrapStage;
use crate::text;

verus! {

/// The attributes of the group that stands for a session.
pub const SE_GROUP_LOGON_ID: u32 = 0xc000_0000;

/// A protected object.
#[derive(Clone, Copy, Debug, PartialEq, Eq, Structural)]
pub enum ProtectedObject {
    /// The runner's process.
    RunnerProcess,
    /// Its first thread.
    RunnerPrimaryThread,
}

impl ProtectedObject {
    /// The words for the object.
    pub fn label(self) -> (label: &'static str)
        ensures
            label@ == (if self is RunnerProcess {
                "runner process"@
            } else {
                "runner primary thread"@
            }),
    {
        match self {
            ProtectedObject::RunnerProcess => "runner process",
            ProtectedObject::RunnerPrimaryThread => "runner primary thread",
        }
    }
}

/// Why a runner could not be launched, with failures of single operations of
/// type `E`.
#[derive(Debug)]
#[allow(inconsistent_fields)]
pub enum RunnerLaunchError<E> {
    /// An operation failed.
    Operation(E),
    /// The token's groups are cut short.
    TokenGroupsTruncated,
    /// The runner belongs to no session.
    MissingLogonSid,
    /// The runner belongs to more than one session.
    DuplicateLogonSid,
    /// The descriptor that an object has to get could not be parsed.
    ProcessDescriptorParse {
        /// The native status.
        code: u32,
    },
    /// A descriptor could not be inspected.
    ProcessDescriptorInspect {
        /// The native status.
        code: u32,
    },
    /// An object could not be given its descriptor.
    ProcessDescriptorApply {
        /// The object.
        object: ProtectedObject,
        /// The native status.
        code: u32,
    },
    /// An object's descriptor could not be read.
    ProcessDescriptorReadBack {
        /// The object.
        object: ProtectedObject,
        /// The native status.
        code: u32,
    },
    /// An object has another descriptor.
    ProcessDescriptorMismatch {
        /// The object.
        object: ProtectedObject,
    },
    /// The runner could not be let run.
    Resume {
        /// The native status.
        code: u32,
    },
    /// The process could not be made known to the runner.
    ParentIdentityProcessHandle {
        /// The native status.
        code: u32,
    },
    /// The identity of the process could not be opened.
    ParentIdentityTokenOpen {
        /// The native status.
        code: u32,
    },
    /// The identity of the process could not be made known to the runner.
    ParentIdentityTokenHandle {
        /// The native status.
        code: u32,
    },
    /// The runner could not be waited for.
    RunnerConnectWait {
        /// Which pipe was not connected.
        direction: ParentPipeDirection,
        /// The native status.
        code: u32,
    },
    /// The wait for the runner ended in a way that cannot be.
    RunnerConnectWaitUnexpected {
        /// Which pipe was not connected.
        direction: ParentPipeDirection,
        /// The result of the wait.
        result: u32,
    },
    /// The runner's exit code could not be read.
    RunnerConnectExitCode {
        /// Which pipe was not connected.
        direction: ParentPipeDirection,
        /// The native status.
        code: u32,
    },
    /// The runner reported why it ended.
    RunnerBootstrapFailure {
        /// Which pipe was not connected.
        direction: ParentPipeDirection,
        /// The phase.
        stage: RunnerBootstrapStage,
        /// The native status that it reported.
        native_code: Option<u32>,
    },
    /// The runner ended without a report.
    RunnerExitedBeforePipeConnect {
        /// Which pipe was not connected.
        direction: ParentPipeDirection,
        /// Its exit code.
        exit_code: u32,
    },
    /// The pipe to the runner was taken before.
    RequestPipeUnavailable,
    /// The pipe from the runner was taken before.
    ResponsePipeUnavailable,
}

/// The runner's exit code where it ended before a pipe was connected.
pub open spec fn early_exit<E>(
    direction: ParentPipeDirection,
    result: u32,
    last_error: u32,
    exit_code: Result<u32, u32>,
) -> Result<Option<u32>, RunnerLaunchError<E>> {
    if result == WAIT_TIMEOUT {
        Ok(None)
    } else if result == WAIT_FAILED {
        Err(RunnerLaunchError::RunnerConnectWait { direction, code: last_error })
    } else if result != WAIT_OBJECT_0 {
        Err(RunnerLaunchError::RunnerConnectWaitUnexpected { direction, result })
    } else {
        match exit_code {
            Err(code) => Err(RunnerLaunchError::RunnerConnectExitCode { direction, code }),
            Ok(code) => Ok(Some(code)),
        }
    }
}

/// The runner's exit code where it ended before a pipe was connected.
pub fn exited_before_pipe_connect<E>(
    direction: ParentPipeDirection,
    result: u32,
    last_error: u32,
    exit_code: Result<u32, u32>,
) -> (exit: Result<Option<u32>, RunnerLaunchError<E>>)
    ensures
        exit == early_exit::<E>(direction, result, last_error, exit_code),
{
    if result == WAIT_TIMEOUT {
        return Ok(None);
    }
    if result == WAIT_FAILED {
        return Err(RunnerLaunchError::RunnerConnectWait { direction, code: last_error });
    }
    if result != WAIT_OBJECT_0 {
        return Err(RunnerLaunchError::RunnerConnectWaitUnexpected { direction, result });
    }
    match exit_code {
        Err(code) => Err(RunnerLaunchError::RunnerConnectExitCode { direction, code }),
        Ok(code) => Ok(Some(code)),
    }
}

/// Why a pipe was not connected, where the runner's end may say more.
pub open spec fn connect_failure<E>(
    error: E,
    exit: Result<Option<u32>, RunnerLaunchError<E>>,
    direction: ParentPipeDirection,
) -> RunnerLaunchError<E> {
    match exit {
        Err(failure) => failure,
        Ok(None) => RunnerLaunchError::Operation(error),
        Ok(Some(exit_code)) => match runner_protocol::reported(exit_code) {
            Some(status) => RunnerLaunchError::RunnerBootstrapFailure {
                direction,
                stage: status.stage,
                native_code: status.native_code,
            },
            None => RunnerLaunchError::RunnerExitedBeforePipeConnect { direction, exit_code },
        },
    }
}

/// Why a pipe was not connected, where the runner's end may say more.
pub fn connect_runner_pipe_failure<E>(
    error: E,
    exit: Result<Option<u32>, RunnerLaunchError<E>>,
    direction: ParentPipeDirection,
) -> (failure: RunnerLaunchError<E>)
    ensures
        failure == connect_failure(error, exit, direction),
{
    match exit {
        Err(failure) => failure,
        Ok(None) => RunnerLaunchError::Operation(error),
        Ok(Some(exit_code)) => match runner_protocol::decode_runner_bootstrap_status(exit_code) {
            Some(status) => RunnerLaunchError::RunnerBootstrapFailure {
                direction,
                stage: status.stage,
                native_code: status.native_code,
            },
            None => RunnerLaunchError::RunnerExitedBeforePipeConnect { direction, exit_code },
        },
    }
}

/// The security descriptor of a protected object as text: only the system,
/// administrators and the owner have rights on it, and all rights.
pub open spec fn object_descriptor(owner_sid: Seq<char>, access: u32) -> Seq<char> {
    "O:"@ + owner_sid + "D:P(A;;0x"@ + text::hex_word(access) + ";;;SY)(A;;0x"@ + text::hex_word(
        access,
    ) + ";;;BA)(A;;0x"@ + text::hex_word(access) + ";;;"@ + owner_sid + ")"@
}

/// The security descriptor of a protected object as text.
pub fn object_sddl(owner_sid: &str, access: u32) -> (sddl: String)
    ensures
        sddl@ == object_descriptor(owner_sid@, access),
{
    let rights = text::hex_word_text(access);
    let mut sddl = "O:".to_owned();
    sddl.append(owner_sid);
    sddl.append("D:P(A;;0x");
    sddl.append(rights.as_str());
    sddl.append(";;;SY)(A;;0x");
    sddl.append(rights.as_str());
    sddl.append(";;;BA)(A;;0x");
    sddl.append(rights.as_str());
    sddl.append(";;;");
    sddl.append(owner_sid);
    sddl.append(")");
    sddl
}

/// The security descriptor of a protected object as text, with its rights as
/// the generic right to everything.
pub open spec fn generic_descriptor(owner_sid: Seq<char>) -> Seq<char> {
    "O:"@ + owner_sid + "D:P(A;;GA;;;SY)(A;;GA;;;BA)(A;;GA;;;"@ + owner_sid + ")"@
}

/// The security descriptor of a protected object as text, with its rights as
/// the generic right to everything.
pub fn generic_sddl(owner_sid: &str) -> (sddl: String)
    ensures
        sddl@ == generic_descriptor(owner_sid@),
{
    let mut sddl = "O:".to_owned();
    sddl.append(owner_sid);
    sddl.append("D:P(A;;GA;;;SY)(A;;GA;;;BA)(A;;GA;;;");
    sddl.append(owner_sid);
    sddl.append(")");
    sddl
}

/// The next step of protecting an object, or how it ended.
#[derive(Debug)]
pub enum ProtectStep<E> {
    /// Parse the descriptor.
    Parse,
    /// Take its owner and list out of it.
    Inspect,
    /// Give them to the object.
    Apply,
    /// Read the object's descriptor.
    ReadBack,
    /// Turn the descriptor that the object has to have into text.
    DescribeExpected,
    /// Turn the object's descriptor into text.
    DescribeActual {
        /// What it has to be.
        expected: String,
    },
    /// The object is protected.
    Done,
    /// The object could not be protected.
    Failed(RunnerLaunchError<E>),
}

/// What came of a step.
#[derive(Debug)]
pub enum ProtectEvent {
    /// An operation was done, or the native status.
    Finished(Result<(), u32>),
    /// A descriptor as text, or the native status.
    Described(Result<String, u32>),
}

impl<E> ProtectStep<E> {
    /// Whether an event can come of the step.
    pub open spec fn expects(self, event: ProtectEvent) -> bool {
        match self {
            ProtectStep::Parse
            | ProtectStep::Inspect
            | ProtectStep::Apply
            | ProtectStep::ReadBack => event is Finished,
            ProtectStep::DescribeExpected | ProtectStep::DescribeActual { .. } => event is Described,
            _ => false,
        }
    }

    /// The step after an event.
    pub open spec fn after(self, event: ProtectEvent, object: ProtectedObject) -> ProtectStep<E> {
        match (self, event) {
            (ProtectStep::Parse, ProtectEvent::Finished(Ok(_))) => ProtectStep::Inspect,
            (ProtectStep::Parse, ProtectEvent::Finished(Err(code))) => ProtectStep::Failed(
                RunnerLaunchError::ProcessDescriptorParse { code },
            ),
            (ProtectStep::Inspect, ProtectEvent::Finished(Ok(_))) => ProtectStep::Apply,
            (ProtectStep::Inspect, ProtectEvent::Finished(Err(code))) => ProtectStep::Failed(
                RunnerLaunchError::ProcessDescriptorInspect { code },
            ),
            (ProtectStep::Apply, ProtectEvent::Finished(Ok(_))) => ProtectStep::ReadBack,
            (ProtectStep::Apply, ProtectEvent::Finished(Err(code))) => ProtectStep::Failed(
                RunnerLaunchError::ProcessDescriptorApply { object, code },
            ),
            (ProtectStep::ReadBack, ProtectEvent::Finished(Ok(_))) => ProtectStep::DescribeExpected,
            (ProtectStep::ReadBack, ProtectEvent::Finished(Err(code))) => ProtectStep::Failed(
                RunnerLaunchError::ProcessDescriptorReadBack { object, code },
            ),
            (ProtectStep::DescribeExpected, ProtectEvent::Described(Ok(expected))) =>
                ProtectStep::DescribeActual { expected },
            (ProtectStep::DescribeActual { expected }, ProtectEvent::Described(Ok(actual))) => if expected@
                == actual@ {
                ProtectStep::Done
            } else {
                ProtectStep::Failed(RunnerLaunchError::ProcessDescriptorMismatch { object })
            },
            (_, ProtectEvent::Described(Err(code))) => ProtectStep::Failed(
                RunnerLaunchError::ProcessDescriptorInspect { code },
            ),
            (step, _) => step,
        }
    }

    /// Takes the step after an event.
    pub fn advance(self, event: ProtectEvent, object: ProtectedObject) -> (step: ProtectStep<E>)
        requires
            self.expects(event),
        ensures
            step == self.after(event, object),
    {
        match (self, event) {
            (ProtectStep::Parse, ProtectEvent::Finished(Ok(_))) => ProtectStep::Inspect,
            (ProtectStep::Parse, ProtectEvent::Finished(Err(code))) => ProtectStep::Failed(
                RunnerLaunchError::ProcessDescriptorParse { code },
            ),
            (ProtectStep::Inspect, ProtectEvent::Finished(Ok(_))) => ProtectStep::Apply,
            (ProtectStep::Inspect, ProtectEvent::Finished(Err(code))) => ProtectStep::Failed(
                RunnerLaunchError::ProcessDescriptorInspect { code },
            ),
            (ProtectStep::Apply, ProtectEvent::Finished(Ok(_))) => ProtectStep::ReadBack,
            (ProtectStep::Apply, ProtectEvent::Finished(Err(code))) => ProtectStep::Failed(
                RunnerLaunchError::ProcessDescriptorApply { object, code },
            ),
            (ProtectStep::ReadBack, ProtectEvent::Finished(Ok(_))) => ProtectStep::DescribeExpected,
            (ProtectStep::ReadBack, ProtectEvent::Finished(Err(code))) => ProtectStep::Failed(
                RunnerLaunchError::ProcessDescriptorReadBack { object, code },
            ),
            (ProtectStep::DescribeExpected, ProtectEvent::Described(Ok(expected))) =>
                ProtectStep::DescribeActual { expected },
            (ProtectStep::DescribeActual { expected }, ProtectEvent::Described(Ok(actual))) => {
                if text::same_text(expected.as_str(), actual.as_str()) {
                    ProtectStep::Done
                } else {
                    ProtectStep::Failed(RunnerLaunchError::ProcessDescriptorMismatch { object })
                }
            },
            (_, ProtectEvent::Described(Err(code))) => ProtectStep::Failed(
                RunnerLaunchError::ProcessDescriptorInspect { code },
            ),
            (step, _) => step,
        }
    }
}

/// Plans the protection of an object: the descriptor that it has to get, and
/// the first step.
pub fn protect_kernel_object<E>(owner_sid: &str, canonical_full_access: u32) -> (plan: (
    String,
    ProtectStep<E>,
))
    ensures
        plan.0@ == object_descriptor(owner_sid@, canonical_full_access),
        plan.1 is Parse,
{
    (object_sddl(owner_sid, canonical_full_access), ProtectStep::Parse)
}

/// An object counts as protected only where its descriptor was read after it
/// was written, and is the one that it has to be.
pub proof fn protected_object_was_read_back<E>(
    step: ProtectStep<E>,
    event: ProtectEvent,
    object: ProtectedObject,
)
    requires
        step.expects(event),
        step.after(event, object) is Done,
    ensures
        step matches ProtectStep::DescribeActual { expected } && event
            matches ProtectEvent::Described(Ok(actual)) && expected@ == actual@,
{
}

/// How many groups a token has, where the record of groups is whole.
pub fn group_count<E>(buffer_bytes: usize, count: u32, offset: usize, entry_bytes: usize) -> (result:
    Result<u32, RunnerLaunchError<E>>)
    requires
        entry_bytes > 0,
    ensures
        match result {
            Ok(found) => {
                &&& found == count
                &&& offset <= buffer_bytes
                &&& count <= (buffer_bytes - offset) / entry_bytes as int
            },
            Err(error) => {
                &&& error is TokenGroupsTruncated
                &&& buffer_bytes < offset || count > (buffer_bytes - offset) / entry_bytes as int
            },
        },
{
    if buffer_bytes < offset {
        return Err(RunnerLaunchError::TokenGroupsTruncated);
    }
    if count as u64 > ((buffer_bytes - offset) / entry_bytes) as u64 {
        return Err(RunnerLaunchError::TokenGroupsTruncated);
    }
    Ok(count)
}

/// Whether a group stands for a session.
pub open spec fn is_logon(attributes: u32) -> bool {
    attributes & SE_GROUP_LOGON_ID == SE_GROUP_LOGON_ID
}

/// The one group among others that stands for the session.
pub fn logon_group<E>(attributes: &Vec<u32>) -> (result: Result<usize, RunnerLaunchError<E>>)
    ensures
        match result {
            Ok(at) => {
                &&& at < attributes@.len()
                &&& forall|i: int|
                    0 <= i < attributes@.len() ==> (is_logon(#[trigger] attributes@[i]) <==> i
                        == at)
            },
            Err(RunnerLaunchError::MissingLogonSid) => forall|i: int|
                0 <= i < attributes@.len() ==> !is_logon(#[trigger] attributes@[i]),
            Err(RunnerLaunchError::DuplicateLogonSid) => exists|i: int, j: int|
                0 <= i < j < attributes@.len() && is_logon(#[trigger] attributes@[i]) && is_logon(
                    #[trigger] attributes@[j],
                ),
            Err(_) => false,
        },
{
    let mut found: Option<usize> = None;
    for i in 0..attributes.len()
        invariant
            match found {
                None => forall|j: int| 0 <= j < i ==> !is_logon(#[trigger] attributes@[j]),
                Some(at) => at < i && forall|j: int|
                    0 <= j < i ==> (is_logon(#[trigger] attributes@[j]) <==> j == at),
            },
    {
        if attributes[i] & SE_GROUP_LOGON_ID == SE_GROUP_LOGON_ID {
            match found {
                None => {
                    found = Some(i);
                },
                Some(at) => {
                    assert(is_logon(attributes@[at as int]) && is_logon(attributes@[i as int]));
                    return Err(RunnerLaunchError::DuplicateLogonSid);
                },
            }
        }
    }
    match found {
        Some(at) => Ok(at),
        None => Err(RunnerLaunchError::MissingLogonSid),
    }
}

/// Whether the native information on a new process is complete.
pub fn is_complete_process(process_handle: u64, thread_handle: u64, process_id: u32) -> (complete:
    bool)
    ensures
        complete == (process_handle != 0 && thread_handle != 0 && process_id != 0),
{
    process_handle != 0 && thread_handle != 0 && process_id != 0
}

/// What the runner is told of the process that started it: handles on the
/// process and on its identity, which the runner holds.
pub fn duplicate_parent_identity_handles<E>(
    process: Result<u64, u32>,
    opened: Result<(), u32>,
    token: Result<u64, u32>,
) -> (handles: Result<(u64, u64), RunnerLaunchError<E>>)
    ensures
        handles == (match (process, opened, token) {
            (Err(code), _, _) => Err(RunnerLaunchError::<E>::ParentIdentityProcessHandle { code }),
            (_, Err(code), _) => Err(RunnerLaunchError::<E>::ParentIdentityTokenOpen { code }),
            (_, _, Err(code)) => Err(RunnerLaunchError::<E>::ParentIdentityTokenHandle { code }),
            (Ok(process), Ok(_), Ok(token)) => Ok((process, token)),
        }),
{
    match (process, opened, token) {
        (Err(code), _, _) => Err(RunnerLaunchError::ParentIdentityProcessHandle { code }),
        (_, Err(code), _) => Err(RunnerLaunchError::ParentIdentityTokenOpen { code }),
        (_, _, Err(code)) => Err(RunnerLaunchError::ParentIdentityTokenHandle { code }),
        (Ok(process), Ok(_), Ok(token)) => Ok((process, token)),
    }
}

/// Whether the runner was let run, where `previous` says how often it had
/// been held back.
pub fn verify_resumed<E>(previous: u32, last_error: u32) -> (result: Result<
    (),
    RunnerLaunchError<E>,
>)
    ensures
        match result {
            Ok(_) => previous != u32::MAX,
            Err(error) => previous == u32::MAX && error == (RunnerLaunchError::<E>::Resume {
                code: last_error,
            }),
        },
{
    if previous == u32::MAX {
        Err(RunnerLaunchError::Resume { code: last_error })
    } else {
        Ok(())
    }
}

/// The next step of a launch.
#[derive(Clone, Copy, Debug, PartialEq, Eq, Structural)]
pub enum LaunchStep {
    /// Check the security of the installed files.
    VerifyResources,
    /// Draw the names of the pipes.
    NamePipes,
    /// Create the job.
    CreateJob,
    /// Open the credentials.
    OpenCredentials,
    /// Create the pipe on which the suspended runner is reported.
    CreateReport,
    /// Have the suspended runner created.
    Bootstrap,
    /// Create the pipe to the runner.
    CreateRequest,
    /// Create the pipe from the runner.
    CreateResponse,
    /// Protect the runner's process.
    ProtectProcess,
    /// Protect the runner's first thread.
    ProtectThread,
    /// Hand the job to the runner.
    DuplicateJob,
    /// Let the runner run and connect the pipes.
    ConnectPipes,
    /// Hand the parent's identity to the runner.
    WriteIdentity,
    /// Set up the boundary.
    CreateBoundary,
    /// The runner is launched.
    Launched,
}

impl LaunchStep {
    /// The place of the step.
    pub open spec fn place(self) -> int {
        match self {
            LaunchStep::VerifyResources => 0,
            LaunchStep::NamePipes => 1,
            LaunchStep::CreateJob => 2,
            LaunchStep::OpenCredentials => 3,
            LaunchStep::CreateReport => 4,
            LaunchStep::Bootstrap => 5,
            LaunchStep::CreateRequest => 6,
            LaunchStep::CreateResponse => 7,
            LaunchStep::ProtectProcess => 8,
            LaunchStep::ProtectThread => 9,
            LaunchStep::DuplicateJob => 10,
            LaunchStep::ConnectPipes => 11,
            LaunchStep::WriteIdentity => 12,
            LaunchStep::CreateBoundary => 13,
            LaunchStep::Launched => 14,
        }
    }

    /// Whether a runner is there that ends with a failed launch: it is
    /// terminated unless the boundary has taken charge of it.
    pub open spec fn holds_runner(self) -> bool {
        LaunchStep::CreateRequest.place() <= self.place() <= LaunchStep::CreateBoundary.place()
    }

    /// The step after one that was done.
    pub fn next(self) -> (step: LaunchStep)
        ensures
            step.place() == (if self is Launched {
                self.place()
            } else {
                self.place() + 1
            }),
    {
        match self {
            LaunchStep::VerifyResources => LaunchStep::NamePipes,
            LaunchStep::NamePipes => LaunchStep::CreateJob,
            LaunchStep::CreateJob => LaunchStep::OpenCredentials,
            LaunchStep::OpenCredentials => LaunchStep::CreateReport,
            LaunchStep::CreateReport => LaunchStep::Bootstrap,
            LaunchStep::Bootstrap => LaunchStep::CreateRequest,
            LaunchStep::CreateRequest => LaunchStep::CreateResponse,
            LaunchStep::CreateResponse => LaunchStep::ProtectProcess,
            LaunchStep::ProtectProcess => LaunchStep::ProtectThread,
            LaunchStep::ProtectThread => LaunchStep::DuplicateJob,
            LaunchStep::DuplicateJob => LaunchStep::ConnectPipes,
            LaunchStep::ConnectPipes => LaunchStep::WriteIdentity,
            LaunchStep::WriteIdentity => LaunchStep::CreateBoundary,
            LaunchStep::CreateBoundary => LaunchStep::Launched,
            LaunchStep::Launched => LaunchStep::Launched,
        }
    }

    /// Whether the suspended runner has to be terminated when the step fails.
    pub fn terminates_runner(self) -> (terminates: bool)
        ensures
            terminates == self.holds_runner(),
    {
        match self {
            LaunchStep::CreateRequest
            | LaunchStep::CreateResponse
            | LaunchStep::ProtectProcess
            | LaunchStep::ProtectThread
            | LaunchStep::DuplicateJob
            | LaunchStep::ConnectPipes
            | LaunchStep::WriteIdentity
            | LaunchStep::CreateBoundary => true,
            _ => false,
        }
    }
}

/// A step is named by its place.
pub proof fn launch_steps_have_places(a: LaunchStep, b: LaunchStep)
    ensures
        a.place() == b.place() ==> a == b,
        0 <= a.place() <= LaunchStep::Launched.place(),
{
}

/// A runner is let run only after its process and its thread were protected
/// and the job was handed to it.
pub proof fn runner_is_hardened_before_it_runs(step: LaunchStep)
    requires
        step.place() >= LaunchStep::ConnectPipes.place(),
    ensures
        step.place() > LaunchStep::ProtectProcess.place(),
        step.place() > LaunchStep::ProtectThread.place(),
        step.place() > LaunchStep::DuplicateJob.place(),
{
}

/// A runner has ended before it connected only where its handle was signalled and
/// its code could be had; where the wait timed out it still runs.
pub proof fn early_exits_are_signalled<E>(
    direction: ParentPipeDirection,
    result: u32,
    last_error: u32,
    exit_code: Result<u32, u32>,
    code: u32,
)
    ensures
        early_exit::<E>(direction, result, last_error, exit_code) == Ok::<
            Option<u32>,
            RunnerLaunchError<E>,
        >(Some(code)) <==> result == 0 && exit_code == Ok::<u32, u32>(code),
        early_exit::<E>(direction, result, last_error, exit_code) == Ok::<
            Option<u32>,
            RunnerLaunchError<E>,
        >(None) <==> result == 258,
        early_exit::<E>(direction, result, last_error, exit_code) matches Err(error) ==> match error {
            RunnerLaunchError::RunnerConnectWait { direction: told, code } => told == direction
                && result == u32::MAX && code == last_error,
            RunnerLaunchError::RunnerConnectWaitUnexpected { direction: told, result: seen } => told
                == direction && seen == result && result != 0 && result != 258 && result
                != u32::MAX,
            RunnerLaunchError::RunnerConnectExitCode { direction: told, code } => told == direction
                && result == 0 && exit_code == Err::<u32, u32>(code),
            _ => false,
        },
{
}

/// Why a pipe did not connect: the pipe's own cause where the runner still runs,
/// the stage that the runner's exit code tells of where it does, and the code itself
/// where it does not.
pub proof fn failed_connections_are_explained<E>(
    error: E,
    exit: Result<Option<u32>, RunnerLaunchError<E>>,
    direction: ParentPipeDirection,
)
    ensures
        exit matches Err(failure) ==> connect_failure(error, exit, direction) == failure,
        exit == Ok::<Option<u32>, RunnerLaunchError<E>>(None) ==> connect_failure(
            error,
            exit,
            direction,
        ) == RunnerLaunchError::Operation(error),
        exit matches Ok(Some(exit_code)) ==> (connect_failure(error, exit, direction)
            is RunnerBootstrapFailure <==> runner_protocol::reported(exit_code) is Some),
        exit matches Ok(Some(exit_code)) ==> match connect_failure(error, exit, direction) {
            RunnerLaunchError::RunnerBootstrapFailure { direction: told, stage, native_code } => told
                == direction && (runner_protocol::reported(exit_code) matches Some(status)
                && status.stage == stage && status.native_code == native_code),
            RunnerLaunchError::RunnerExitedBeforePipeConnect { direction: told, exit_code: code } =>
                told == direction && code == exit_code,
            _ => false,
        },
{
}

/// Protecting an object takes every step in turn, and fails for the step that
/// failed, on the object that it was about; a descriptor that does not read back as it
/// was written is never accepted.
pub proof fn protection_steps_follow<E>(
    step: ProtectStep<E>,
    event: ProtectEvent,
    object: ProtectedObject,
)
    requires
        step.expects(event),
    ensures
        match step.after(event, object) {
            ProtectStep::Parse => false,
            ProtectStep::Inspect => step is Parse && (event matches ProtectEvent::Finished(done)
                && done is Ok),
            ProtectStep::Apply => step is Inspect && (event matches ProtectEvent::Finished(done)
                && done is Ok),
            ProtectStep::ReadBack => step is Apply && (event matches ProtectEvent::Finished(done)
                && done is Ok),
            ProtectStep::DescribeExpected => step is ReadBack && (
            event matches ProtectEvent::Finished(done) && done is Ok),
            ProtectStep::DescribeActual { expected } => step is DescribeExpected && event
                == ProtectEvent::Described(Ok(expected)),
            ProtectStep::Done => step matches ProtectStep::DescribeActual { expected } && (
            event matches ProtectEvent::Described(Ok(actual)) && expected@ == actual@),
            ProtectStep::Failed(error) => match error {
                RunnerLaunchError::ProcessDescriptorParse { code } => step is Parse && event
                    == ProtectEvent::Finished(Err(code)),
                RunnerLaunchError::ProcessDescriptorInspect { code } => step is Inspect && event
                    == ProtectEvent::Finished(Err(code)) || event == ProtectEvent::Described(
                    Err(code),
                ),
                RunnerLaunchError::ProcessDescriptorApply { object: told, code } => step is Apply
                    && told == object && event == ProtectEvent::Finished(Err(code)),
                RunnerLaunchError::ProcessDescriptorReadBack { object: told, code } => step
                    is ReadBack && told == object && event == ProtectEvent::Finished(Err(code)),
                RunnerLaunchError::ProcessDescriptorMismatch { object: told } => told == object && (
                step matches ProtectStep::DescribeActual { expected } && (
                event matches ProtectEvent::Described(Ok(actual)) && expected@ != actual@)),
                _ => false,
            },
        },
{
}

/// A group is the logon one exactly where both of its two marks are set.
pub proof fn logon_groups_have_both_marks(attributes: u32)
    ensures
        is_logon(attributes) <==> attributes / 0x4000_0000 == 3,
{
    assert(attributes & 0xc000_0000 == 0xc000_0000 <==> attributes / 0x4000_0000 == 3)
        by (bit_vector);
}

} // verus!
