//! The session between the backend and an authenticated command runner: how
//! it starts, what the runner's reports mean, and how it ends.

use vstd::prelude::*;

use crate::runner_protocol;
use crate::runner_protocol::{
    RunnerBootstrapStatus, RunnerMessage, RunnerMessageKind, RunnerOutputStream,
    WindowsRunnerFailure,
};

verus! {

/// The exit code with which everything is terminated after a failure.
pub const FAILURE_EXIT_CODE: u32 = 125;

/// The exit code with which everything is terminated after a timeout.
pub const TIMEOUT_EXIT_CODE: u32 = 124;

/// The exit code with which a killed command ends.
pub const KILL_EXIT_CODE: u32 = 1;

/// The answer that is waited for.
#[derive(Clone, Copy, Debug, PartialEq, Eq, Structural)]
pub enum RunnerHandshakePhase {
    /// That the runner is ready.
    Readiness,
    /// That the child was started.
    Spawn,
}

impl RunnerHandshakePhase {
    /// The word for the answer.
    pub fn label(self) -> (label: &'static str)
        ensures
            label@ == (if self is Readiness {
                "readiness"@
            } else {
                "spawn"@
            }),
    {
        match self {
            RunnerHandshakePhase::Readiness => "readiness",
            RunnerHandshakePhase::Spawn => "spawn",
        }
    }
}

/// Why a session fails, with failures of single operations of type `E`.
#[derive(Debug)]
#[allow(inconsistent_fields)]
pub enum RunnerSessionError<E> {
    /// Launching the runner failed.
    Launch(E),
    /// Preparing a standard stream failed.
    StandardStream(E),
    /// The transport failed.
    Protocol(E),
    /// The boundary around the processes failed.
    Boundary(E),
    /// The runner reported a failure.
    RunnerFailure(WindowsRunnerFailure),
    /// The runner ended before the transport stood.
    RunnerBootstrapFailure(RunnerBootstrapStatus),
    /// The runner did not report in time that the child was started.
    SpawnHandshakeTimeout,
    /// The runner did not report in time that it was ready.
    ReadinessHandshakeTimeout,
    /// The transport could not be looked at.
    ResponsePeek {
        /// The native status.
        code: u32,
    },
    /// The runner closed the transport.
    ResponseClosed {
        /// What was waited for.
        phase: RunnerHandshakePhase,
    },
    /// The runner said something else than that the child was started.
    UnexpectedHandshakeMessage {
        /// What it said.
        actual: RunnerMessageKind,
    },
    /// The runner said something else than that it was ready.
    UnexpectedReadinessMessage {
        /// What it said.
        actual: RunnerMessageKind,
    },
    /// The runner said something else than how the child ended.
    UnexpectedLifecycleMessage {
        /// What it said.
        actual: RunnerMessageKind,
    },
    /// A piece of output is larger than it may be.
    OversizedOutput {
        /// The stream.
        stream: RunnerOutputStream,
    },
    /// Output could not be passed on to the backend's own stream.
    InheritedOutput {
        /// The stream.
        stream: RunnerOutputStream,
        /// The cause.
        source: E,
    },
    /// Output came for a stream that goes nowhere.
    OutputForNullStream,
    /// The one who passes the backend's own input on panicked.
    StdinForwarderPanic,
    /// That one cannot be told to stop: it could not be copied.
    StdinThreadHandle {
        /// The native status.
        code: u32,
    },
    /// That one ended before it said how it can be told to stop.
    StdinThreadMissing,
    /// That one could not be told to stop.
    StdinCancel {
        /// The native status.
        code: u32,
    },
    /// No one is left to say how the child ended.
    LifecycleClosed,
    /// The one who reads the runner's reports panicked.
    DispatcherPanic,
    /// The one who watches the time panicked.
    WatchdogPanic,
    /// The runner did not end after the child.
    RunnerExitTimeout,
    /// The runner failed after the child ended.
    RunnerExitMismatch {
        /// The runner's exit code.
        exit_code: u32,
    },
    /// The child took too long.
    TimedOut,
    /// The end of the child was told before.
    LifecycleConsumed,
}

/// The next step of starting a session, or how it ended.
#[derive(Debug)]
pub enum StartStep<E> {
    /// Take the pipe for reports.
    TakeResponse,
    /// Read that the runner is ready.
    ReadReadiness,
    /// Prepare the standard streams.
    PrepareStreams,
    /// Take the pipe for requests.
    TakeRequest,
    /// Ask for the child.
    WriteSpawn,
    /// Read that the child was started.
    ReadSpawn,
    /// Find out whether the runner ended.
    FindExit {
        /// The failure that made it necessary.
        error: RunnerSessionError<E>,
    },
    /// See that the child is inside the boundary.
    VerifyMembership {
        /// The child.
        process_id: u32,
    },
    /// Terminate everything.
    Terminate {
        /// The failure that made it necessary.
        error: RunnerSessionError<E>,
    },
    /// The child runs.
    Started {
        /// The child.
        process_id: u32,
    },
    /// The start failed.
    Failed {
        /// Why.
        error: RunnerSessionError<E>,
    },
}

/// What came of a step.
#[derive(Debug)]
pub enum StartEvent<E> {
    /// An operation was done, or why not.
    Done(Result<(), E>),
    /// A message was read, or why not.
    Received(Result<RunnerMessage, RunnerSessionError<E>>),
    /// The runner's exit code, if it ended.
    RunnerExit(Result<Option<u32>, E>),
    /// The backend's own input is passed on, or why not.
    Forwarding(Result<(), RunnerSessionError<E>>),
    /// Everything was terminated, as far as it could be.
    Terminated,
}

impl<E> StartStep<E> {
    /// Whether an event can come of the step.
    pub open spec fn expects(self, event: StartEvent<E>) -> bool {
        match self {
            StartStep::TakeResponse
            | StartStep::PrepareStreams
            | StartStep::TakeRequest
            | StartStep::WriteSpawn
            | StartStep::VerifyMembership { .. } => event is Done,
            StartStep::ReadReadiness | StartStep::ReadSpawn => event is Received,
            StartStep::FindExit { .. } => event is RunnerExit,
            StartStep::Terminate { .. } => event is Terminated,
            StartStep::Started { .. } | StartStep::Failed { .. } => false,
        }
    }

    /// The step after an event.
    pub open spec fn after(self, event: StartEvent<E>) -> StartStep<E> {
        match (self, event) {
            (StartStep::TakeResponse, StartEvent::Done(Ok(_))) => StartStep::ReadReadiness,
            (StartStep::TakeResponse, StartEvent::Done(Err(error))) => StartStep::Failed {
                error: RunnerSessionError::Launch(error),
            },
            (StartStep::ReadReadiness, StartEvent::Received(Ok(message))) => after_readiness(
                message,
            ),
            (StartStep::PrepareStreams, StartEvent::Done(Ok(_))) => StartStep::TakeRequest,
            (StartStep::PrepareStreams, StartEvent::Done(Err(error))) => StartStep::Terminate {
                error: RunnerSessionError::StandardStream(error),
            },
            (StartStep::TakeRequest, StartEvent::Done(Ok(_))) => StartStep::WriteSpawn,
            (StartStep::TakeRequest, StartEvent::Done(Err(error))) => StartStep::Failed {
                error: RunnerSessionError::Launch(error),
            },
            (StartStep::WriteSpawn, StartEvent::Done(Ok(_))) => StartStep::ReadSpawn,
            (StartStep::WriteSpawn, StartEvent::Done(Err(error))) => StartStep::Terminate {
                error: RunnerSessionError::Protocol(error),
            },
            (StartStep::ReadSpawn, StartEvent::Received(Ok(message))) => after_spawn(message),
            (_, StartEvent::Received(Err(error))) => StartStep::FindExit { error },
            (StartStep::FindExit { error }, StartEvent::RunnerExit(exit)) => StartStep::Terminate {
                error: explained(error, exit),
            },
            (StartStep::VerifyMembership { process_id }, StartEvent::Done(Ok(_))) =>
                StartStep::Started { process_id },
            (StartStep::VerifyMembership { .. }, StartEvent::Done(Err(error))) =>
                StartStep::Terminate { error: RunnerSessionError::Boundary(error) },
            (StartStep::Terminate { error }, StartEvent::Terminated) => StartStep::Failed { error },
            (step, _) => step,
        }
    }

    /// Takes the step after an event.
    pub fn advance(self, event: StartEvent<E>) -> (step: StartStep<E>)
        requires
            self.expects(event),
        ensures
            step == self.after(event),
    {
        match (self, event) {
            (StartStep::TakeResponse, StartEvent::Done(Ok(_))) => StartStep::ReadReadiness,
            (StartStep::TakeResponse, StartEvent::Done(Err(error))) => StartStep::Failed {
                error: RunnerSessionError::Launch(error),
            },
            (StartStep::ReadReadiness, StartEvent::Received(Ok(message))) => read_readiness(
                message,
            ),
            (StartStep::PrepareStreams, StartEvent::Done(Ok(_))) => StartStep::TakeRequest,
            (StartStep::PrepareStreams, StartEvent::Done(Err(error))) => StartStep::Terminate {
                error: RunnerSessionError::StandardStream(error),
            },
            (StartStep::TakeRequest, StartEvent::Done(Ok(_))) => StartStep::WriteSpawn,
            (StartStep::TakeRequest, StartEvent::Done(Err(error))) => StartStep::Failed {
                error: RunnerSessionError::Launch(error),
            },
            (StartStep::WriteSpawn, StartEvent::Done(Ok(_))) => StartStep::ReadSpawn,
            (StartStep::WriteSpawn, StartEvent::Done(Err(error))) => StartStep::Terminate {
                error: RunnerSessionError::Protocol(error),
            },
            (StartStep::ReadSpawn, StartEvent::Received(Ok(message))) => read_spawn(message),
            (_, StartEvent::Received(Err(error))) => StartStep::FindExit { error },
            (StartStep::FindExit { error }, StartEvent::RunnerExit(exit)) => StartStep::Terminate {
                error: explain(error, exit),
            },
            (StartStep::VerifyMembership { process_id }, StartEvent::Done(Ok(_))) =>
                StartStep::Started { process_id },
            (StartStep::VerifyMembership { .. }, StartEvent::Done(Err(error))) =>
                StartStep::Terminate { error: RunnerSessionError::Boundary(error) },
            (StartStep::Terminate { error }, StartEvent::Terminated) => StartStep::Failed { error },
            (step, _) => step,
        }
    }
}

/// The step after a message where the runner had to say that it was ready.
pub open spec fn after_readiness<E>(message: RunnerMessage) -> StartStep<E> {
    match message {
        RunnerMessage::Ready => StartStep::PrepareStreams,
        RunnerMessage::Failed { failure } => StartStep::Terminate {
            error: RunnerSessionError::RunnerFailure(failure),
        },
        other => StartStep::Terminate {
            error: RunnerSessionError::UnexpectedReadinessMessage {
                actual: runner_protocol::kind_of(other),
            },
        },
    }
}

/// The step after a message where the runner had to say that the child was
/// started.
pub open spec fn after_spawn<E>(message: RunnerMessage) -> StartStep<E> {
    match message {
        RunnerMessage::Spawned { process_id } => if process_id != 0 {
            StartStep::VerifyMembership { process_id }
        } else {
            StartStep::Terminate {
                error: RunnerSessionError::UnexpectedHandshakeMessage {
                    actual: RunnerMessageKind::Spawned,
                },
            }
        },
        RunnerMessage::Failed { failure } => StartStep::Terminate {
            error: RunnerSessionError::RunnerFailure(failure),
        },
        other => StartStep::Terminate {
            error: RunnerSessionError::UnexpectedHandshakeMessage {
                actual: runner_protocol::kind_of(other),
            },
        },
    }
}

/// Why the transport failed, where the runner's exit code may say more.
pub open spec fn explained<E>(
    error: RunnerSessionError<E>,
    exit: Result<Option<u32>, E>,
) -> RunnerSessionError<E> {
    match exit {
        Err(failure) => RunnerSessionError::Boundary(failure),
        Ok(None) => error,
        Ok(Some(exit_code)) => match runner_protocol::reported(exit_code) {
            Some(status) => RunnerSessionError::RunnerBootstrapFailure(status),
            None => error,
        },
    }
}

/// The step after a message where the runner had to say that it was ready.
fn read_readiness<E>(message: RunnerMessage) -> (step: StartStep<E>)
    ensures
        step == after_readiness::<E>(message),
{
    match message {
        RunnerMessage::Ready => StartStep::PrepareStreams,
        RunnerMessage::Failed { failure } => StartStep::Terminate {
            error: RunnerSessionError::RunnerFailure(failure),
        },
        other => StartStep::Terminate {
            error: RunnerSessionError::UnexpectedReadinessMessage { actual: other.kind() },
        },
    }
}

/// The step after a message where the runner had to say that the child was
/// started.
fn read_spawn<E>(message: RunnerMessage) -> (step: StartStep<E>)
    ensures
        step == after_spawn::<E>(message),
{
    match message {
        RunnerMessage::Spawned { process_id } => if process_id != 0 {
            StartStep::VerifyMembership { process_id }
        } else {
            StartStep::Terminate {
                error: RunnerSessionError::UnexpectedHandshakeMessage {
                    actual: RunnerMessageKind::Spawned,
                },
            }
        },
        RunnerMessage::Failed { failure } => StartStep::Terminate {
            error: RunnerSessionError::RunnerFailure(failure),
        },
        other => StartStep::Terminate {
            error: RunnerSessionError::UnexpectedHandshakeMessage { actual: other.kind() },
        },
    }
}

/// Why the transport failed, where the runner's exit code may say more.
fn explain<E>(error: RunnerSessionError<E>, exit: Result<Option<u32>, E>) -> (cause:
    RunnerSessionError<E>)
    ensures
        cause == explained(error, exit),
{
    match exit {
        Err(failure) => RunnerSessionError::Boundary(failure),
        Ok(None) => error,
        Ok(Some(exit_code)) => match runner_protocol::decode_runner_bootstrap_status(exit_code) {
            Some(status) => RunnerSessionError::RunnerBootstrapFailure(status),
            None => error,
        },
    }
}

/// Whether a step names a child that can be: its number is not zero.
pub open spec fn names_a_child<E>(step: StartStep<E>) -> bool {
    match step {
        StartStep::VerifyMembership { process_id } => process_id != 0,
        StartStep::Started { process_id } => process_id != 0,
        _ => true,
    }
}

/// A session starts only with a child that was seen inside the boundary.
pub proof fn started_child_is_confined<E>(step: StartStep<E>, event: StartEvent<E>)
    requires
        step.expects(event),
        names_a_child(step),
    ensures
        names_a_child(step.after(event)),
        step.after(event) is Started ==> step is VerifyMembership && (
        event matches StartEvent::Done(done) && done is Ok),
{
}

/// A start that fails leaves nothing running: apart from a pipe that was
/// taken before, every failure terminates everything first.
pub proof fn failed_start_terminates<E>(step: StartStep<E>, event: StartEvent<E>)
    requires
        step.expects(event),
        step.after(event) is Failed,
    ensures
        step is Terminate || step is TakeResponse || step is TakeRequest,
{
}

/// How long to read at most in one go.
pub open spec fn read_length(available: u32, wanted: usize) -> usize {
    if available <= wanted {
        available as usize
    } else {
        wanted
    }
}

/// What to do while an answer is waited for: how many bytes to read, none
/// where nothing is there yet, or why to stop waiting.
pub fn poll_response<E>(
    past_deadline: bool,
    peeked: Result<u32, u32>,
    wanted: usize,
    phase: RunnerHandshakePhase,
) -> (result: Result<usize, RunnerSessionError<E>>)
    ensures
        result == (if past_deadline {
            match phase {
                RunnerHandshakePhase::Readiness => Err::<usize, RunnerSessionError<E>>(
                    RunnerSessionError::ReadinessHandshakeTimeout,
                ),
                RunnerHandshakePhase::Spawn => Err(RunnerSessionError::SpawnHandshakeTimeout),
            }
        } else {
            match peeked {
                Err(code) => Err(RunnerSessionError::ResponsePeek { code }),
                Ok(available) => Ok(read_length(available, wanted)),
            }
        }),
{
    if past_deadline {
        return match phase {
            RunnerHandshakePhase::Readiness => Err(RunnerSessionError::ReadinessHandshakeTimeout),
            RunnerHandshakePhase::Spawn => Err(RunnerSessionError::SpawnHandshakeTimeout),
        };
    }
    match peeked {
        Err(code) => Err(RunnerSessionError::ResponsePeek { code }),
        Ok(available) => {
            let ready: u64 = available as u64;
            if ready <= wanted as u64 {
                Ok(available as usize)
            } else {
                Ok(wanted)
            }
        },
    }
}

/// Whether something was read.
pub fn verify_read<E>(read: usize, phase: RunnerHandshakePhase) -> (result: Result<
    (),
    RunnerSessionError<E>,
>)
    ensures
        match result {
            Ok(_) => read > 0,
            Err(error) => read == 0 && error == (RunnerSessionError::<E>::ResponseClosed { phase }),
        },
{
    if read == 0 {
        Err(RunnerSessionError::ResponseClosed { phase })
    } else {
        Ok(())
    }
}

/// How a child's run ended.
#[derive(Debug)]
pub enum RunnerTerminal<E> {
    /// The child ended with an exit code.
    Exited(u32),
    /// The child took too long, and whether it could be terminated.
    TimedOut(Result<(), E>),
    /// The run failed.
    Failed(RunnerSessionError<E>),
}

/// What to do about a report of the runner.
#[derive(Debug)]
pub struct Dispatch<E> {
    /// Whether to terminate everything.
    pub terminate: bool,
    /// What to tell about the end of the run.
    pub terminal: Option<RunnerTerminal<E>>,
}

/// What to do about a report of the runner. After a timeout there is nothing
/// to do: the timeout has been told.
pub open spec fn dispatched<E>(report: Result<RunnerMessage, E>, timed_out: bool) -> Dispatch<E> {
    if timed_out {
        Dispatch { terminate: false, terminal: None }
    } else {
        match report {
            Err(error) => Dispatch {
                terminate: true,
                terminal: Some(RunnerTerminal::Failed(RunnerSessionError::Protocol(error))),
            },
            Ok(RunnerMessage::Exited { exit_code }) => Dispatch {
                terminate: false,
                terminal: Some(RunnerTerminal::Exited(exit_code)),
            },
            Ok(RunnerMessage::Failed { failure }) => Dispatch {
                terminate: true,
                terminal: Some(RunnerTerminal::Failed(RunnerSessionError::RunnerFailure(failure))),
            },
            Ok(other) => Dispatch {
                terminate: true,
                terminal: Some(
                    RunnerTerminal::Failed(
                        RunnerSessionError::UnexpectedLifecycleMessage {
                            actual: runner_protocol::kind_of(other),
                        },
                    ),
                ),
            },
        }
    }
}

/// What to do about a report of the runner.
pub fn dispatch_response<E>(report: Result<RunnerMessage, E>, timed_out: bool) -> (dispatch:
    Dispatch<E>)
    ensures
        dispatch == dispatched(report, timed_out),
{
    if timed_out {
        return Dispatch { terminate: false, terminal: None };
    }
    match report {
        Err(error) => Dispatch {
            terminate: true,
            terminal: Some(RunnerTerminal::Failed(RunnerSessionError::Protocol(error))),
        },
        Ok(RunnerMessage::Exited { exit_code }) => Dispatch {
            terminate: false,
            terminal: Some(RunnerTerminal::Exited(exit_code)),
        },
        Ok(RunnerMessage::Failed { failure }) => Dispatch {
            terminate: true,
            terminal: Some(RunnerTerminal::Failed(RunnerSessionError::RunnerFailure(failure))),
        },
        Ok(other) => Dispatch {
            terminate: true,
            terminal: Some(
                RunnerTerminal::Failed(
                    RunnerSessionError::UnexpectedLifecycleMessage { actual: other.kind() },
                ),
            ),
        },
    }
}

/// The next step of ending a session, or how it ended.
#[derive(Debug)]
pub enum FinishStep<E> {
    /// Stop watching the time.
    StopWatchdog {
        /// How the run ended.
        terminal: RunnerTerminal<E>,
    },
    /// Wait for the one who reads the runner's reports.
    JoinDispatcher {
        /// How the run ended.
        terminal: RunnerTerminal<E>,
    },
    /// Terminate what is left of the child.
    TerminateJob {
        /// The child's exit code.
        exit_code: u32,
    },
    /// Wait for the runner.
    WaitRunner {
        /// The child's exit code.
        exit_code: u32,
    },
    /// The session ended.
    Finished {
        /// The child's exit code, or what failed.
        result: Result<u32, RunnerSessionError<E>>,
    },
}

/// What came of a step.
#[derive(Debug)]
pub enum FinishEvent<E> {
    /// The other thread ended; whether it did not panic.
    Joined(bool),
    /// What was left of the child was terminated, or why not.
    JobTerminated(Result<(), E>),
    /// The runner's exit code, if it ended in time.
    RunnerExit(Result<Option<u32>, E>),
}

impl<E> FinishStep<E> {
    /// Whether an event can come of the step.
    pub open spec fn expects(self, event: FinishEvent<E>) -> bool {
        match self {
            FinishStep::StopWatchdog { .. } | FinishStep::JoinDispatcher { .. } => event is Joined,
            FinishStep::TerminateJob { .. } => event is JobTerminated,
            FinishStep::WaitRunner { .. } => event is RunnerExit,
            FinishStep::Finished { .. } => false,
        }
    }

    /// The step after an event, where a command that was killed has an exit
    /// code of its own.
    pub open spec fn after(self, event: FinishEvent<E>, killed: Option<u32>) -> FinishStep<E> {
        match (self, event) {
            (FinishStep::StopWatchdog { terminal }, FinishEvent::Joined(joined)) => if joined {
                FinishStep::JoinDispatcher { terminal }
            } else {
                FinishStep::Finished { result: Err(RunnerSessionError::WatchdogPanic) }
            },
            (FinishStep::JoinDispatcher { terminal }, FinishEvent::Joined(joined)) => if !joined {
                FinishStep::Finished { result: Err(RunnerSessionError::DispatcherPanic) }
            } else if killed is Some {
                FinishStep::Finished { result: Ok(killed->Some_0) }
            } else {
                match terminal {
                    RunnerTerminal::Exited(exit_code) => FinishStep::TerminateJob { exit_code },
                    RunnerTerminal::TimedOut(Ok(_)) => FinishStep::Finished {
                        result: Err(RunnerSessionError::TimedOut),
                    },
                    RunnerTerminal::TimedOut(Err(error)) => FinishStep::Finished {
                        result: Err(RunnerSessionError::Boundary(error)),
                    },
                    RunnerTerminal::Failed(error) => FinishStep::Finished { result: Err(error) },
                }
            },
            (FinishStep::TerminateJob { exit_code }, FinishEvent::JobTerminated(Ok(_))) =>
                FinishStep::WaitRunner { exit_code },
            (FinishStep::TerminateJob { .. }, FinishEvent::JobTerminated(Err(error))) =>
                FinishStep::Finished { result: Err(RunnerSessionError::Boundary(error)) },
            (FinishStep::WaitRunner { exit_code }, FinishEvent::RunnerExit(exit)) =>
                FinishStep::Finished {
                result: match exit {
                    Err(error) => Err(RunnerSessionError::Boundary(error)),
                    Ok(None) => Err(RunnerSessionError::RunnerExitTimeout),
                    Ok(Some(runner_exit)) => if runner_exit != 0 {
                        Err(RunnerSessionError::RunnerExitMismatch { exit_code: runner_exit })
                    } else {
                        Ok(exit_code)
                    },
                },
            },
            (step, _) => step,
        }
    }

    /// Takes the step after an event.
    pub fn advance(self, event: FinishEvent<E>, killed: Option<u32>) -> (step: FinishStep<E>)
        requires
            self.expects(event),
        ensures
            step == self.after(event, killed),
    {
        match (self, event) {
            (FinishStep::StopWatchdog { terminal }, FinishEvent::Joined(joined)) => if joined {
                FinishStep::JoinDispatcher { terminal }
            } else {
                FinishStep::Finished { result: Err(RunnerSessionError::WatchdogPanic) }
            },
            (FinishStep::JoinDispatcher { terminal }, FinishEvent::Joined(joined)) => {
                if !joined {
                    return FinishStep::Finished {
                        result: Err(RunnerSessionError::DispatcherPanic),
                    };
                }
                if let Some(exit_code) = killed {
                    return FinishStep::Finished { result: Ok(exit_code) };
                }
                match terminal {
                    RunnerTerminal::Exited(exit_code) => FinishStep::TerminateJob { exit_code },
                    RunnerTerminal::TimedOut(Ok(_)) => FinishStep::Finished {
                        result: Err(RunnerSessionError::TimedOut),
                    },
                    RunnerTerminal::TimedOut(Err(error)) => FinishStep::Finished {
                        result: Err(RunnerSessionError::Boundary(error)),
                    },
                    RunnerTerminal::Failed(error) => FinishStep::Finished { result: Err(error) },
                }
            },
            (FinishStep::TerminateJob { exit_code }, FinishEvent::JobTerminated(Ok(_))) =>
                FinishStep::WaitRunner { exit_code },
            (FinishStep::TerminateJob { .. }, FinishEvent::JobTerminated(Err(error))) =>
                FinishStep::Finished { result: Err(RunnerSessionError::Boundary(error)) },
            (FinishStep::WaitRunner { exit_code }, FinishEvent::RunnerExit(exit)) =>
                FinishStep::Finished {
                result: match exit {
                    Err(error) => Err(RunnerSessionError::Boundary(error)),
                    Ok(None) => Err(RunnerSessionError::RunnerExitTimeout),
                    Ok(Some(runner_exit)) => if runner_exit != 0 {
                        Err(RunnerSessionError::RunnerExitMismatch { exit_code: runner_exit })
                    } else {
                        Ok(exit_code)
                    },
                },
            },
            (step, _) => step,
        }
    }
}

/// A child's exit code is told only where the child was killed, or where it
/// was terminated completely and the runner ended well.
pub proof fn told_exit_code_is_confirmed<E>(
    step: FinishStep<E>,
    event: FinishEvent<E>,
    killed: Option<u32>,
)
    requires
        step.expects(event),
        step.after(event, killed) matches FinishStep::Finished { result } && result is Ok,
    ensures
        (step is JoinDispatcher && killed is Some) || (step is WaitRunner
            && event == FinishEvent::<E>::RunnerExit(Ok(Some(0u32)))),
{
}

/// The state of a session.
#[derive(Debug)]
pub struct RunnerSession {
    process_id: u32,
    explicit_exit_code: Option<u32>,
    finished: bool,
}

/// What is known of a session.
pub struct SessionModel {
    /// The child.
    pub process_id: u32,
    /// The exit code of a child that was killed.
    pub killed: Option<u32>,
    /// Whether everything is known to have ended.
    pub finished: bool,
}

impl View for RunnerSession {
    type V = SessionModel;

    closed spec fn view(&self) -> SessionModel {
        SessionModel {
            process_id: self.process_id,
            killed: self.explicit_exit_code,
            finished: self.finished,
        }
    }
}

/// What there is to be had of the end of a run.
#[derive(Debug)]
pub enum TerminalPoll<E> {
    /// How it ended.
    Ready(RunnerTerminal<E>),
    /// Nothing yet.
    Empty,
    /// No one is left to tell.
    Disconnected,
}

impl RunnerSession {
    /// A session with a child.
    pub fn new(process_id: u32) -> (session: RunnerSession)
        ensures
            session@ == (SessionModel { process_id, killed: None, finished: false }),
    {
        RunnerSession { process_id, explicit_exit_code: None, finished: false }
    }

    /// The child.
    pub fn id(&self) -> (process_id: u32)
        ensures
            process_id == self@.process_id,
    {
        self.process_id
    }

    /// Whether everything is known to have ended.
    pub fn finished(&self) -> (finished: bool)
        ensures
            finished == self@.finished,
    {
        self.finished
    }

    /// Whether the end of the run can still be asked for.
    pub fn check_open<E>(&self) -> (result: Result<(), RunnerSessionError<E>>)
        ensures
            match result {
                Ok(_) => !self@.finished,
                Err(error) => self@.finished && error is LifecycleConsumed,
            },
    {
        if self.finished {
            Err(RunnerSessionError::LifecycleConsumed)
        } else {
            Ok(())
        }
    }

    /// The first step of ending the session, if the run ended.
    pub fn begin_finish<E>(&self, poll: TerminalPoll<E>) -> (result: Result<
        Option<FinishStep<E>>,
        RunnerSessionError<E>,
    >)
        ensures
            result == (if self@.finished {
                Err::<Option<FinishStep<E>>, RunnerSessionError<E>>(
                    RunnerSessionError::LifecycleConsumed,
                )
            } else {
                match poll {
                    TerminalPoll::Ready(terminal) => Ok(
                        Some(FinishStep::StopWatchdog { terminal }),
                    ),
                    TerminalPoll::Empty => Ok(None),
                    TerminalPoll::Disconnected => Err(RunnerSessionError::LifecycleClosed),
                }
            }),
    {
        if self.finished {
            return Err(RunnerSessionError::LifecycleConsumed);
        }
        match poll {
            TerminalPoll::Ready(terminal) => Ok(Some(FinishStep::StopWatchdog { terminal })),
            TerminalPoll::Empty => Ok(None),
            TerminalPoll::Disconnected => Err(RunnerSessionError::LifecycleClosed),
        }
    }

    /// The exit code of a child that was killed.
    pub fn killed(&self) -> (killed: Option<u32>)
        ensures
            killed == self@.killed,
    {
        self.explicit_exit_code
    }

    /// Takes note of how the session ended, and says whether to terminate
    /// everything. Only a child that ended well, or a timeout after which
    /// everything was terminated, proves that everything has ended.
    pub fn conclude<E>(&mut self, result: &Result<u32, RunnerSessionError<E>>) -> (terminate: bool)
        ensures
            ({
                let confirmed = result is Ok || (result matches Err(error) && error is TimedOut);
                &&& terminate == !confirmed
                &&& final(self)@ == (SessionModel {
                    finished: old(self)@.finished || confirmed,
                    ..old(self)@
                })
            }),
    {
        match result {
            Ok(_) => {
                self.finished = true;
                false
            },
            Err(RunnerSessionError::TimedOut) => {
                self.finished = true;
                false
            },
            Err(_) => true,
        }
    }

    /// Takes note that the child was killed: unless it took too long before,
    /// it has the exit code of a killed command.
    pub fn kill<E>(&mut self, stopped: bool, terminated: Result<(), E>, timed_out: bool) -> (result:
        Result<(), RunnerSessionError<E>>)
        ensures
            if old(self)@.finished {
                final(self)@ == old(self)@ && result == Err::<(), RunnerSessionError<E>>(
                    RunnerSessionError::LifecycleConsumed,
                )
            } else if !stopped {
                final(self)@ == old(self)@ && result == Err::<(), RunnerSessionError<E>>(
                    RunnerSessionError::WatchdogPanic,
                )
            } else {
                match terminated {
                    Err(error) => final(self)@ == old(self)@ && result == Err::<
                        (),
                        RunnerSessionError<E>,
                    >(RunnerSessionError::Boundary(error)),
                    Ok(_) => result is Ok && final(self)@ == (SessionModel {
                        killed: if timed_out {
                            old(self)@.killed
                        } else {
                            Some(KILL_EXIT_CODE)
                        },
                        ..old(self)@
                    }),
                }
            },
    {
        if self.finished {
            return Err(RunnerSessionError::LifecycleConsumed);
        }
        if !stopped {
            return Err(RunnerSessionError::WatchdogPanic);
        }
        match terminated {
            Err(error) => Err(RunnerSessionError::Boundary(error)),
            Ok(_) => {
                if !timed_out {
                    self.explicit_exit_code = Some(KILL_EXIT_CODE);
                }
                Ok(())
            },
        }
    }

    /// Takes note that everything has ended.
    pub fn mark_termination_confirmed(&mut self)
        ensures
            final(self)@ == (SessionModel { finished: true, ..old(self)@ }),
    {
        self.finished = true;
    }
}

/// What a step of a start comes from: the child's streams are prepared only once
/// the runner says that it is ready, a child counts as started only with the number
/// that the runner gave, which is not zero, and only once it is known to be confined.
/// Whatever fails once the runner is up ends it, for that cause, unless the runner's
/// own exit code explains it better.
pub proof fn start_steps_follow<E>(step: StartStep<E>, event: StartEvent<E>)
    requires
        step.expects(event),
    ensures
        match step.after(event) {
            StartStep::TakeResponse => false,
            StartStep::ReadReadiness => step is TakeResponse && (event matches StartEvent::Done(done)
                && done is Ok),
            StartStep::PrepareStreams => step is ReadReadiness && event
                == StartEvent::<E>::Received(Ok(RunnerMessage::Ready)),
            StartStep::TakeRequest => step is PrepareStreams && (event matches StartEvent::Done(done)
                && done is Ok),
            StartStep::WriteSpawn => step is TakeRequest && (event matches StartEvent::Done(done)
                && done is Ok),
            StartStep::ReadSpawn => step is WriteSpawn && (event matches StartEvent::Done(done)
                && done is Ok),
            StartStep::FindExit { error } => event == StartEvent::Received(
                Err::<RunnerMessage, RunnerSessionError<E>>(error),
            ),
            StartStep::VerifyMembership { process_id } => step is ReadSpawn && process_id != 0
                && event == StartEvent::<E>::Received(Ok(RunnerMessage::Spawned { process_id })),
            StartStep::Started { process_id } => step == (StartStep::<E>::VerifyMembership {
                process_id,
            }) && (event matches StartEvent::Done(done) && done is Ok),
            StartStep::Terminate { error } => match event {
                StartEvent::Done(done) => done matches Err(cause) && (step is PrepareStreams && error
                    == RunnerSessionError::StandardStream(cause) || step is WriteSpawn && error
                    == RunnerSessionError::Protocol(cause) || step is VerifyMembership && error
                    == RunnerSessionError::Boundary(cause)),
                StartEvent::Received(Ok(message)) => match message {
                    RunnerMessage::Failed { failure } => error
                        == RunnerSessionError::<E>::RunnerFailure(failure),
                    _ => if step is ReadReadiness {
                        !(message is Ready) && error is UnexpectedReadinessMessage
                    } else {
                        error is UnexpectedHandshakeMessage
                    },
                },
                StartEvent::RunnerExit(exit) => step matches StartStep::FindExit { error: first }
                    && match exit {
                    Err(failure) => error == RunnerSessionError::Boundary(failure),
                    Ok(None) => error == first,
                    Ok(Some(code)) => error == first && runner_protocol::reported(code) is None || (
                    error matches RunnerSessionError::RunnerBootstrapFailure(status)
                        && runner_protocol::reported(code) == Some(status)),
                },
                _ => false,
            },
            StartStep::Failed { error } => step == (StartStep::Terminate { error }) || (step
                is TakeResponse || step is TakeRequest) && (
            error matches RunnerSessionError::Launch(cause) && event == StartEvent::Done(
                Err::<(), E>(cause),
            )),
        },
{
}

/// A report ends a session with the exit code that it tells, and with no other;
/// after a time-out it tells nothing. The runner is ended exactly where it failed or
/// said something else.
pub proof fn reports_end_the_session<E>(report: Result<RunnerMessage, E>, timed_out: bool, code: u32)
    ensures
        dispatched(report, timed_out).terminal is None <==> timed_out,
        timed_out ==> !dispatched(report, timed_out).terminate,
        dispatched(report, timed_out).terminal == Some(RunnerTerminal::<E>::Exited(code))
            <==> !timed_out && report == Ok::<RunnerMessage, E>(
            RunnerMessage::Exited { exit_code: code },
        ),
        !timed_out ==> (dispatched(report, timed_out).terminate <==> !(report matches Ok(message)
            && message is Exited)),
        dispatched(report, timed_out).terminal matches Some(RunnerTerminal::Failed(error))
            ==> match report {
            Err(cause) => error == RunnerSessionError::Protocol(cause),
            Ok(RunnerMessage::Failed { failure }) => error
                == RunnerSessionError::<E>::RunnerFailure(failure),
            Ok(message) => !(message is Exited) && error is UnexpectedLifecycleMessage,
        },
        !(dispatched(report, timed_out).terminal matches Some(RunnerTerminal::TimedOut(_))),
{
}

/// What a step of finishing a session comes from, and which result it comes to:
/// the code of a kill, the code that the runner told once the runner itself ended well,
/// and a failure for the cause that was found everywhere else.
pub proof fn finish_steps_follow<E>(
    step: FinishStep<E>,
    event: FinishEvent<E>,
    killed: Option<u32>,
)
    requires
        step.expects(event),
    ensures
        match step.after(event, killed) {
            FinishStep::StopWatchdog { .. } => false,
            FinishStep::JoinDispatcher { terminal } => step == (FinishStep::StopWatchdog { terminal })
                && event == FinishEvent::<E>::Joined(true),
            FinishStep::TerminateJob { exit_code } => step == (FinishStep::JoinDispatcher {
                terminal: RunnerTerminal::<E>::Exited(exit_code),
            }) && event == FinishEvent::<E>::Joined(true) && killed is None,
            FinishStep::WaitRunner { exit_code } => step == (FinishStep::<E>::TerminateJob {
                exit_code,
            }) && (event matches FinishEvent::JobTerminated(done) && done is Ok),
            FinishStep::Finished { result } => match result {
                Ok(code) => step is JoinDispatcher && event == FinishEvent::<E>::Joined(true)
                    && killed == Some(code) || step == (FinishStep::<E>::WaitRunner {
                    exit_code: code,
                }) && event == FinishEvent::<E>::RunnerExit(Ok(Some(0))),
                Err(error) => match step {
                    FinishStep::StopWatchdog { .. } => event == FinishEvent::<E>::Joined(false)
                        && error is WatchdogPanic,
                    FinishStep::JoinDispatcher { terminal } => if event
                        == FinishEvent::<E>::Joined(false) {
                        error is DispatcherPanic
                    } else {
                        killed is None && match terminal {
                            RunnerTerminal::Exited(_) => false,
                            RunnerTerminal::TimedOut(ended) => match ended {
                                Ok(_) => error is TimedOut,
                                Err(cause) => error == RunnerSessionError::Boundary(cause),
                            },
                            RunnerTerminal::Failed(cause) => error == cause,
                        }
                    },
                    FinishStep::TerminateJob { .. } => error matches RunnerSessionError::Boundary(
                        cause,
                    ) && event == FinishEvent::JobTerminated(Err::<(), E>(cause)),
                    FinishStep::WaitRunner { .. } => match event {
                        FinishEvent::RunnerExit(Err(cause)) => error
                            == RunnerSessionError::Boundary(cause),
                        FinishEvent::RunnerExit(Ok(None)) => error is RunnerExitTimeout,
                        FinishEvent::RunnerExit(Ok(Some(code))) => code != 0 && error == (
                        RunnerSessionError::<E>::RunnerExitMismatch { exit_code: code }),
                        _ => false,
                    },
                    FinishStep::Finished { .. } => false,
                },
            },
        },
{
}

/// No more is read than there is and than is wanted, and all of either.
pub proof fn reads_take_what_there_is(available: u32, wanted: usize)
    ensures
        read_length(available, wanted) <= available,
        read_length(available, wanted) <= wanted,
        read_length(available, wanted) == available || read_length(available, wanted) == wanted,
{
}

} // verus!
