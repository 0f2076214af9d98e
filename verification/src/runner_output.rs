//! Sessions in which the runner passes a child's input and output on.

use vstd::prelude::*;

use crate::bytes;
use crate::runner_protocol;
use crate::runner_protocol::{RunnerMessage, RunnerMessageKind, RunnerOutputStream};
use crate::runner_session::{RunnerSessionError, RunnerTerminal, StartEvent};
use crate::runner_stdio::StdioMode;

verus! {

/// The next step of starting such a session, or how it ended.
#[derive(Debug)]
pub enum ProxyStartStep<E> {
    /// Take the pipe for requests.
    TakeRequest,
    /// Ask for the child.
    WriteSpawn,
    /// Take the pipe for reports.
    TakeResponse,
    /// Read that the child was started.
    ReadSpawn,
    /// See that the child is inside the boundary.
    VerifyMembership {
        /// The child.
        process_id: u32,
    },
    /// Pass the backend's own input on.
    ForwardInput {
        /// The child.
        process_id: u32,
    },
    /// Terminate everything.
    Terminate {
        /// The failure that made it necessary.
        error: RunnerSessionError<E>,
    },
    /// The child runs.
    Started {
        /// The child.
        process_id: u32,
    },
    /// The start failed.
    Failed {
        /// Why.
        error: RunnerSessionError<E>,
    },
}

/// The step after a message where the runner had to say that the child was
/// started.
pub open spec fn after_proxy_spawn<E>(message: RunnerMessage) -> ProxyStartStep<E> {
    match message {
        RunnerMessage::Spawned { process_id } => if process_id != 0 {
            ProxyStartStep::VerifyMembership { process_id }
        } else {
            ProxyStartStep::Terminate {
                error: RunnerSessionError::UnexpectedHandshakeMessage {
                    actual: RunnerMessageKind::Spawned,
                },
            }
        },
        RunnerMessage::Failed { failure } => ProxyStartStep::Terminate {
            error: RunnerSessionError::RunnerFailure(failure),
        },
        other => ProxyStartStep::Terminate {
            error: RunnerSessionError::UnexpectedHandshakeMessage {
                actual: runner_protocol::kind_of(other),
            },
        },
    }
}

/// The step after a message where the runner had to say that the child was
/// started.
fn read_proxy_spawn<E>(message: RunnerMessage) -> (step: ProxyStartStep<E>)
    ensures
        step == after_proxy_spawn::<E>(message),
{
    match message {
        RunnerMessage::Spawned { process_id } => if process_id != 0 {
            ProxyStartStep::VerifyMembership { process_id }
        } else {
            ProxyStartStep::Terminate {
                error: RunnerSessionError::UnexpectedHandshakeMessage {
                    actual: RunnerMessageKind::Spawned,
                },
            }
        },
        RunnerMessage::Failed { failure } => ProxyStartStep::Terminate {
            error: RunnerSessionError::RunnerFailure(failure),
        },
        other => ProxyStartStep::Terminate {
            error: RunnerSessionError::UnexpectedHandshakeMessage { actual: other.kind() },
        },
    }
}

impl<E> ProxyStartStep<E> {
    /// Whether an event can come of the step.
    pub open spec fn expects(self, event: StartEvent<E>) -> bool {
        match self {
            ProxyStartStep::TakeRequest
            | ProxyStartStep::WriteSpawn
            | ProxyStartStep::TakeResponse
            | ProxyStartStep::VerifyMembership { .. } => event is Done,
            ProxyStartStep::ForwardInput { .. } => event is Forwarding,
            ProxyStartStep::ReadSpawn => event is Received,
            ProxyStartStep::Terminate { .. } => event is Terminated,
            ProxyStartStep::Started { .. } | ProxyStartStep::Failed { .. } => false,
        }
    }

    /// The step after an event, where the child's input goes somewhere.
    pub open spec fn after(self, event: StartEvent<E>, stdin: StdioMode) -> ProxyStartStep<E> {
        match (self, event) {
            (ProxyStartStep::TakeRequest, StartEvent::Done(Ok(_))) => ProxyStartStep::WriteSpawn,
            (ProxyStartStep::TakeRequest, StartEvent::Done(Err(error))) => ProxyStartStep::Failed {
                error: RunnerSessionError::Launch(error),
            },
            (ProxyStartStep::WriteSpawn, StartEvent::Done(Ok(_))) => ProxyStartStep::TakeResponse,
            (ProxyStartStep::WriteSpawn, StartEvent::Done(Err(error))) =>
                ProxyStartStep::Terminate { error: RunnerSessionError::Protocol(error) },
            (ProxyStartStep::TakeResponse, StartEvent::Done(Ok(_))) => ProxyStartStep::ReadSpawn,
            (ProxyStartStep::TakeResponse, StartEvent::Done(Err(error))) =>
                ProxyStartStep::Failed { error: RunnerSessionError::Launch(error) },
            (ProxyStartStep::ReadSpawn, StartEvent::Received(Ok(message))) => after_proxy_spawn(
                message,
            ),
            (ProxyStartStep::ReadSpawn, StartEvent::Received(Err(error))) =>
                ProxyStartStep::Terminate { error },
            (ProxyStartStep::VerifyMembership { process_id }, StartEvent::Done(Ok(_))) => if stdin
                is Inherit {
                ProxyStartStep::ForwardInput { process_id }
            } else {
                ProxyStartStep::Started { process_id }
            },
            (ProxyStartStep::VerifyMembership { .. }, StartEvent::Done(Err(error))) =>
                ProxyStartStep::Terminate { error: RunnerSessionError::Boundary(error) },
            (ProxyStartStep::ForwardInput { process_id }, StartEvent::Forwarding(Ok(_))) =>
                ProxyStartStep::Started { process_id },
            (ProxyStartStep::ForwardInput { .. }, StartEvent::Forwarding(Err(error))) =>
                ProxyStartStep::Terminate { error },
            (ProxyStartStep::Terminate { error }, StartEvent::Terminated) =>
                ProxyStartStep::Failed { error },
            (step, _) => step,
        }
    }

    /// Takes the step after an event.
    pub fn advance(self, event: StartEvent<E>, stdin: StdioMode) -> (step: ProxyStartStep<E>)
        requires
            self.expects(event),
        ensures
            step == self.after(event, stdin),
    {
        match (self, event) {
            (ProxyStartStep::TakeRequest, StartEvent::Done(Ok(_))) => ProxyStartStep::WriteSpawn,
            (ProxyStartStep::TakeRequest, StartEvent::Done(Err(error))) => ProxyStartStep::Failed {
                error: RunnerSessionError::Launch(error),
            },
            (ProxyStartStep::WriteSpawn, StartEvent::Done(Ok(_))) => ProxyStartStep::TakeResponse,
            (ProxyStartStep::WriteSpawn, StartEvent::Done(Err(error))) =>
                ProxyStartStep::Terminate { error: RunnerSessionError::Protocol(error) },
            (ProxyStartStep::TakeResponse, StartEvent::Done(Ok(_))) => ProxyStartStep::ReadSpawn,
            (ProxyStartStep::TakeResponse, StartEvent::Done(Err(error))) =>
                ProxyStartStep::Failed { error: RunnerSessionError::Launch(error) },
            (ProxyStartStep::ReadSpawn, StartEvent::Received(Ok(message))) => read_proxy_spawn(
                message,
            ),
            (ProxyStartStep::ReadSpawn, StartEvent::Received(Err(error))) =>
                ProxyStartStep::Terminate { error },
            (ProxyStartStep::VerifyMembership { process_id }, StartEvent::Done(Ok(_))) => match stdin {
                StdioMode::Inherit => ProxyStartStep::ForwardInput { process_id },
                _ => ProxyStartStep::Started { process_id },
            },
            (ProxyStartStep::VerifyMembership { .. }, StartEvent::Done(Err(error))) =>
                ProxyStartStep::Terminate { error: RunnerSessionError::Boundary(error) },
            (ProxyStartStep::ForwardInput { process_id }, StartEvent::Forwarding(Ok(_))) =>
                ProxyStartStep::Started { process_id },
            (ProxyStartStep::ForwardInput { .. }, StartEvent::Forwarding(Err(error))) =>
                ProxyStartStep::Terminate { error },
            (ProxyStartStep::Terminate { error }, StartEvent::Terminated) =>
                ProxyStartStep::Failed { error },
            (step, _) => step,
        }
    }
}

/// Such a session starts only with a child that was seen inside the boundary,
/// and a start that fails terminates everything first, apart from a pipe that
/// was taken before.
pub proof fn proxied_start_is_confined<E>(
    step: ProxyStartStep<E>,
    event: StartEvent<E>,
    stdin: StdioMode,
)
    requires
        step.expects(event),
    ensures
        step.after(event, stdin) is ForwardInput ==> step is VerifyMembership,
        step.after(event, stdin) is Started ==> step is VerifyMembership || step is ForwardInput,
        step.after(event, stdin) is Failed ==> step is Terminate || step is TakeRequest || step
            is TakeResponse,
{
}

/// Where a child's output goes.
#[derive(Clone, Copy, Debug, PartialEq, Eq, Structural)]
pub enum OutputTarget {
    /// To whoever reads it from the session.
    Pipe,
    /// To the backend's own standard output.
    InheritStdout,
    /// To the backend's own standard error.
    InheritStderr,
    /// Nowhere: there must be none.
    Null,
}

/// Where a stream's output goes.
pub fn output_target(mode: StdioMode, stream: RunnerOutputStream) -> (target: OutputTarget)
    ensures
        target == (match (mode, stream) {
            (StdioMode::Pipe, _) => OutputTarget::Pipe,
            (StdioMode::Inherit, RunnerOutputStream::Stdout) => OutputTarget::InheritStdout,
            (StdioMode::Inherit, RunnerOutputStream::Stderr) => OutputTarget::InheritStderr,
            (StdioMode::Null, _) => OutputTarget::Null,
        }),
{
    match mode {
        StdioMode::Pipe => OutputTarget::Pipe,
        StdioMode::Inherit => match stream {
            RunnerOutputStream::Stdout => OutputTarget::InheritStdout,
            RunnerOutputStream::Stderr => OutputTarget::InheritStderr,
        },
        StdioMode::Null => OutputTarget::Null,
    }
}

/// What to do about a report of the runner.
#[derive(Debug)]
pub enum OutputDispatch<E> {
    /// Pass output on, and read the next report.
    Forward {
        /// From which stream.
        stream: RunnerOutputStream,
        /// What.
        bytes: Vec<u8>,
    },
    /// Read no more.
    Stop {
        /// Whether to terminate everything.
        terminate: bool,
        /// What to tell about the end of the run.
        terminal: Option<RunnerTerminal<E>>,
    },
}

/// What to do about a report of the runner, where output of at most some size
/// may come, and passing output on may have failed before.
pub open spec fn output_dispatched<E>(
    report: Result<RunnerMessage, E>,
    maximum: usize,
    timed_out: bool,
    output_error: Option<RunnerSessionError<E>>,
) -> OutputDispatch<E> {
    match report {
        Err(error) => if timed_out {
            OutputDispatch::Stop { terminate: false, terminal: None }
        } else {
            OutputDispatch::Stop {
                terminate: true,
                terminal: Some(RunnerTerminal::Failed(RunnerSessionError::Protocol(error))),
            }
        },
        Ok(RunnerMessage::Output { stream, bytes }) => if bytes@.len() > maximum {
            OutputDispatch::Stop {
                terminate: true,
                terminal: Some(
                    RunnerTerminal::Failed(RunnerSessionError::OversizedOutput { stream }),
                ),
            }
        } else {
            OutputDispatch::Forward { stream, bytes }
        },
        Ok(RunnerMessage::Exited { exit_code }) => OutputDispatch::Stop {
            terminate: false,
            terminal: if timed_out {
                None
            } else {
                match output_error {
                    Some(error) => Some(RunnerTerminal::Failed(error)),
                    None => Some(RunnerTerminal::Exited(exit_code)),
                }
            },
        },
        Ok(RunnerMessage::Failed { failure }) => if timed_out {
            OutputDispatch::Stop { terminate: false, terminal: None }
        } else {
            OutputDispatch::Stop {
                terminate: true,
                terminal: Some(RunnerTerminal::Failed(RunnerSessionError::RunnerFailure(failure))),
            }
        },
        Ok(other) => OutputDispatch::Stop {
            terminate: true,
            terminal: Some(
                RunnerTerminal::Failed(
                    RunnerSessionError::UnexpectedLifecycleMessage {
                        actual: runner_protocol::kind_of(other),
                    },
                ),
            ),
        },
    }
}

/// What to do about a report of the runner.
pub fn dispatch_output<E>(
    report: Result<RunnerMessage, E>,
    maximum: usize,
    timed_out: bool,
    output_error: Option<RunnerSessionError<E>>,
) -> (dispatch: OutputDispatch<E>)
    ensures
        dispatch == output_dispatched(report, maximum, timed_out, output_error),
{
    match report {
        Err(error) => if timed_out {
            OutputDispatch::Stop { terminate: false, terminal: None }
        } else {
            OutputDispatch::Stop {
                terminate: true,
                terminal: Some(RunnerTerminal::Failed(RunnerSessionError::Protocol(error))),
            }
        },
        Ok(RunnerMessage::Output { stream, bytes }) => if bytes.len() > maximum {
            OutputDispatch::Stop {
                terminate: true,
                terminal: Some(
                    RunnerTerminal::Failed(RunnerSessionError::OversizedOutput { stream }),
                ),
            }
        } else {
            OutputDispatch::Forward { stream, bytes }
        },
        Ok(RunnerMessage::Exited { exit_code }) => OutputDispatch::Stop {
            terminate: false,
            terminal: if timed_out {
                None
            } else {
                match output_error {
                    Some(error) => Some(RunnerTerminal::Failed(error)),
                    None => Some(RunnerTerminal::Exited(exit_code)),
                }
            },
        },
        Ok(RunnerMessage::Failed { failure }) => if timed_out {
            OutputDispatch::Stop { terminate: false, terminal: None }
        } else {
            OutputDispatch::Stop {
                terminate: true,
                terminal: Some(RunnerTerminal::Failed(RunnerSessionError::RunnerFailure(failure))),
            }
        },
        Ok(other) => OutputDispatch::Stop {
            terminate: true,
            terminal: Some(
                RunnerTerminal::Failed(
                    RunnerSessionError::UnexpectedLifecycleMessage { actual: other.kind() },
                ),
            ),
        },
    }
}

/// What came of passing output on: it may have failed on the backend's own
/// stream, and there must be none for a stream that goes nowhere.
pub fn forwarded<E>(target: OutputTarget, written: Result<(), E>) -> (result: Result<
    (),
    RunnerSessionError<E>,
>)
    ensures
        match (target, written) {
            (OutputTarget::Null, _) => result == Err::<(), RunnerSessionError<E>>(
                RunnerSessionError::OutputForNullStream,
            ),
            (OutputTarget::Pipe, _) => result is Ok,
            (_, Ok(_)) => result is Ok,
            (OutputTarget::InheritStdout, Err(source)) => result == Err::<
                (),
                RunnerSessionError<E>,
            >(RunnerSessionError::InheritedOutput { stream: RunnerOutputStream::Stdout, source }),
            (OutputTarget::InheritStderr, Err(source)) => result == Err::<
                (),
                RunnerSessionError<E>,
            >(RunnerSessionError::InheritedOutput { stream: RunnerOutputStream::Stderr, source }),
        },
{
    let stream = match target {
        OutputTarget::Null => {
            return Err(RunnerSessionError::OutputForNullStream);
        },
        OutputTarget::Pipe => {
            return Ok(());
        },
        OutputTarget::InheritStdout => RunnerOutputStream::Stdout,
        OutputTarget::InheritStderr => RunnerOutputStream::Stderr,
    };
    match written {
        Ok(_) => Ok(()),
        Err(source) => Err(RunnerSessionError::InheritedOutput { stream, source }),
    }
}

/// The native status of a cancel that finds nothing to cancel.
pub const ERROR_NOT_FOUND: u32 = 1168;

/// Whether the one who passes the backend's own input on can be told to stop:
/// it reported that it can, or the native status of copying its handle; none
/// where it ended without a report.
pub fn stdin_started<E>(reported: Option<Result<(), u32>>) -> (result: Result<
    (),
    RunnerSessionError<E>,
>)
    ensures
        match reported {
            Some(Ok(_)) => result is Ok,
            Some(Err(code)) => result == Err::<(), RunnerSessionError<E>>(
                RunnerSessionError::StdinThreadHandle { code },
            ),
            None => result == Err::<(), RunnerSessionError<E>>(
                RunnerSessionError::StdinThreadMissing,
            ),
        },
{
    match reported {
        Some(Ok(_)) => Ok(()),
        Some(Err(code)) => Err(RunnerSessionError::StdinThreadHandle { code }),
        None => Err(RunnerSessionError::StdinThreadMissing),
    }
}

/// What to do about a piece of the backend's own input.
#[derive(Debug)]
pub enum InputForward {
    /// Send a message to the runner; where that fails, stop.
    Send {
        /// The message.
        message: RunnerMessage,
        /// Whether to stop after it in any case.
        last: bool,
    },
    /// Stop.
    Stop,
}

/// What to do about a piece of the backend's own input: it is sent on, its end
/// is told, and where it cannot be read there is nothing more to do.
pub fn forward_input(read: Option<Vec<u8>>) -> (next: InputForward)
    ensures
        match read {
            Some(bytes) => if bytes@.len() == 0 {
                next == (InputForward::Send { message: RunnerMessage::CloseStdin, last: true })
            } else {
                next == (InputForward::Send { message: RunnerMessage::Stdin { bytes }, last: false })
            },
            None => next is Stop,
        },
{
    match read {
        Some(bytes) => if bytes.len() == 0 {
            InputForward::Send { message: RunnerMessage::CloseStdin, last: true }
        } else {
            InputForward::Send { message: RunnerMessage::Stdin { bytes }, last: false }
        },
        None => InputForward::Stop,
    }
}

/// What came of stopping the one who passes the backend's own input on: a
/// cancel that finds nothing is no failure, another status is one, and so is a
/// panic.
pub fn stdin_stop<E>(cancelled: Result<(), u32>, panicked: bool) -> (result: Result<
    (),
    RunnerSessionError<E>,
>)
    ensures
        match cancelled {
            Err(code) if code != ERROR_NOT_FOUND => result == Err::<(), RunnerSessionError<E>>(
                RunnerSessionError::StdinCancel { code },
            ),
            _ => if panicked {
                result == Err::<(), RunnerSessionError<E>>(RunnerSessionError::StdinForwarderPanic)
            } else {
                result is Ok
            },
        },
{
    if let Err(code) = cancelled {
        if code != ERROR_NOT_FOUND {
            return Err(RunnerSessionError::StdinCancel { code });
        }
    }
    if panicked {
        Err(RunnerSessionError::StdinForwarderPanic)
    } else {
        Ok(())
    }
}

/// The first failure of passing output on.
pub fn first_output_error<E>(
    held: Option<RunnerSessionError<E>>,
    forwarded: Result<(), RunnerSessionError<E>>,
) -> (kept: Option<RunnerSessionError<E>>)
    ensures
        kept == (match (held, forwarded) {
            (Some(error), _) => Some(error),
            (None, Err(error)) => Some(error),
            (None, Ok(_)) => None::<RunnerSessionError<E>>,
        }),
{
    match held {
        Some(error) => Some(error),
        None => match forwarded {
            Ok(_) => None,
            Err(error) => Some(error),
        },
    }
}

/// How much of some input is sent in one message.
pub fn chunk_length(length: usize, maximum: usize) -> (chunk: usize)
    ensures
        chunk == (if length <= maximum {
            length
        } else {
            maximum
        }),
{
    if length <= maximum {
        length
    } else {
        maximum
    }
}

/// A child's output, as it is read in pieces of any size.
#[derive(Debug)]
pub struct ChannelReader {
    current: Vec<u8>,
    offset: usize,
}

impl View for ChannelReader {
    type V = Seq<u8>;

    /// What arrived and was not read.
    closed spec fn view(&self) -> Seq<u8> {
        self.current@.skip(self.offset as int)
    }
}

impl ChannelReader {
    /// Whether the place up to which was read lies in what arrived.
    pub closed spec fn wf(self) -> bool {
        self.offset <= self.current@.len()
    }

    /// Nothing arrived yet.
    pub fn new() -> (reader: ChannelReader)
        ensures
            reader.wf(),
            reader@ == Seq::<u8>::empty(),
    {
        let reader = ChannelReader { current: Vec::new(), offset: 0 };
        assert(reader.current@.skip(0) =~= Seq::<u8>::empty());
        reader
    }

    /// Whether everything that arrived was read.
    pub fn is_drained(&self) -> (drained: bool)
        requires
            self.wf(),
        ensures
            drained == (self@.len() == 0),
    {
        self.offset == self.current.len()
    }

    /// Takes in what arrived.
    pub fn supply(&mut self, chunk: Vec<u8>)
        requires
            old(self).wf(),
            old(self)@.len() == 0,
        ensures
            final(self).wf(),
            final(self)@ == chunk@,
    {
        self.current = chunk;
        self.offset = 0;
        assert(self.current@.skip(0) =~= chunk@);
    }

    /// Reads as much as is asked for and is there. What is read and what
    /// remains make up what was there.
    pub fn read(&mut self, wanted: usize) -> (piece: Vec<u8>)
        requires
            old(self).wf(),
        ensures
            final(self).wf(),
            piece@ + final(self)@ == old(self)@,
            piece@.len() == (if wanted <= old(self)@.len() {
                wanted as int
            } else {
                old(self)@.len() as int
            }),
    {
        let left: usize = self.current.len() - self.offset;
        let length: usize = if wanted <= left {
            wanted
        } else {
            left
        };
        let piece = bytes::part(self.current.as_slice(), self.offset, self.offset + length);
        self.offset = self.offset + length;
        assert(piece@ + self@ =~= old(self)@);
        piece
    }
}

/// What a step of a proxied start comes from: a child counts as started only with
/// the number that the runner gave, which is not zero, and only once it is known to be
/// confined; input is passed on exactly where it is inherited; whatever fails once the
/// runner was asked ends it, for that cause.
pub proof fn proxied_start_steps_follow<E>(
    step: ProxyStartStep<E>,
    event: StartEvent<E>,
    stdin: StdioMode,
)
    requires
        step.expects(event),
    ensures
        match step.after(event, stdin) {
            ProxyStartStep::TakeRequest => false,
            ProxyStartStep::WriteSpawn => step is TakeRequest && (event matches StartEvent::Done(done)
                && done is Ok),
            ProxyStartStep::TakeResponse => step is WriteSpawn && (event matches StartEvent::Done(
                done,
            ) && done is Ok),
            ProxyStartStep::ReadSpawn => step is TakeResponse && (event matches StartEvent::Done(
                done,
            ) && done is Ok),
            ProxyStartStep::VerifyMembership { process_id } => process_id != 0 && event
                == StartEvent::<E>::Received(Ok(RunnerMessage::Spawned { process_id })),
            ProxyStartStep::ForwardInput { process_id } => step == (
            ProxyStartStep::<E>::VerifyMembership { process_id }) && stdin is Inherit && (
            event matches StartEvent::Done(done) && done is Ok),
            ProxyStartStep::Started { process_id } => step == (
            ProxyStartStep::<E>::VerifyMembership { process_id }) && !(stdin is Inherit) && (
            event matches StartEvent::Done(done) && done is Ok) || step == (
            ProxyStartStep::<E>::ForwardInput { process_id }) && (
            event matches StartEvent::Forwarding(done) && done is Ok),
            ProxyStartStep::Terminate { error } => match event {
                StartEvent::Done(done) => done matches Err(cause) && (step is WriteSpawn && error
                    == RunnerSessionError::Protocol(cause) || step is VerifyMembership && error
                    == RunnerSessionError::Boundary(cause)),
                StartEvent::Received(Ok(message)) => match message {
                    RunnerMessage::Failed { failure } => error
                        == RunnerSessionError::<E>::RunnerFailure(failure),
                    RunnerMessage::Spawned { process_id } => process_id == 0 && error
                        is UnexpectedHandshakeMessage,
                    _ => error is UnexpectedHandshakeMessage,
                },
                StartEvent::Received(Err(cause)) => error == cause,
                StartEvent::Forwarding(done) => done == Err::<(), RunnerSessionError<E>>(error),
                _ => false,
            },
            ProxyStartStep::Failed { error } => step == (ProxyStartStep::Terminate { error }) || (step
                is TakeRequest || step is TakeResponse) && (error matches RunnerSessionError::Launch(
                cause,
            ) && event == StartEvent::Done(Err::<(), E>(cause))),
        },
{
}

/// Output is passed on exactly where a report is output of no more than the
/// maximum, byte for byte and to its own stream, whether or not the child timed out.
/// Everything else stops the session: an exit code is told only where the runner told
/// it, nothing of the output failed and the child did not time out, and the runner is
/// ended wherever it did not end by itself.
pub proof fn reports_are_passed_on_or_stop<E>(
    report: Result<RunnerMessage, E>,
    maximum: usize,
    timed_out: bool,
    output_error: Option<RunnerSessionError<E>>,
)
    ensures
        match output_dispatched(report, maximum, timed_out, output_error) {
            OutputDispatch::Forward { stream, bytes } => report == Ok::<RunnerMessage, E>(
                RunnerMessage::Output { stream, bytes },
            ) && bytes@.len() <= maximum,
            OutputDispatch::Stop { terminate, terminal } => {
                &&& report matches Ok(RunnerMessage::Output { bytes, .. }) ==> bytes@.len() > maximum
                    && terminate && terminal is Some
                &&& report matches Ok(RunnerMessage::Exited { .. }) ==> !terminate
                &&& terminal is None ==> timed_out && !terminate
                &&& terminal matches Some(RunnerTerminal::Exited(code)) ==> !timed_out
                    && output_error is None && report == Ok::<RunnerMessage, E>(
                    RunnerMessage::Exited { exit_code: code },
                )
                &&& terminal matches Some(RunnerTerminal::TimedOut(_)) ==> false
                &&& terminal matches Some(RunnerTerminal::Failed(error)) ==> match report {
                    Err(cause) => terminate && error == RunnerSessionError::Protocol(cause),
                    Ok(RunnerMessage::Output { stream, .. }) => error == (
                    RunnerSessionError::<E>::OversizedOutput { stream }),
                    Ok(RunnerMessage::Exited { .. }) => output_error == Some(error) && !timed_out,
                    Ok(RunnerMessage::Failed { failure }) => terminate && error
                        == RunnerSessionError::<E>::RunnerFailure(failure),
                    Ok(_) => terminate && error is UnexpectedLifecycleMessage,
                }
                &&& timed_out && (report is Err || (report matches Ok(message) && (message is Exited
                    || message is Failed))) ==> terminal is None
            },
        },
        (report matches Ok(RunnerMessage::Output { bytes, .. }) && bytes@.len() <= maximum)
            ==> output_dispatched(report, maximum, timed_out, output_error) is Forward,
{
}

} // verus!
