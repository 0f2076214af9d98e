//! Reading what there is of a setup, running the helper that makes or removes
//! it, and what comes of both.

use vstd::prelude::*;

use crate::native_path::{NativePath, PathModel};
use crate::setup;
use crate::setup::{SetupMarker, WindowsSetupDetails, WindowsSetupStatus};
use crate::setup_error::{WindowsSetupError, WindowsSetupVerificationError};
use crate::setup_protocol;
use crate::setup_protocol::{SetupFailureCode, SetupOutcome, SetupResponse};
use crate::utf16;

verus! {

/// The native status of a prompt that the user refused.
pub const ERROR_CANCELLED: i32 = 1223;

/// What counts as the exit code of a helper that was ended from outside.
pub const NO_EXIT_CODE: u32 = 125;

/// Whether something is there.
#[derive(Debug)]
pub enum Presence<E> {
    /// It is.
    There,
    /// It is not.
    Absent,
    /// That could not be said.
    Unknown(E),
}

/// The next step of reading what there is of a setup, or what it came to.
#[derive(Debug)]
pub enum StatusStep<E> {
    /// See whether the marker is there.
    Inspect,
    /// Open the marker.
    Open,
    /// Read the marker.
    Read,
    /// Decode the marker.
    Decode,
    /// See whether the accounts are those of the marker.
    VerifyAccounts {
        /// What the marker says.
        details: WindowsSetupDetails,
    },
    /// See whether everything else is as the marker says.
    VerifyNative {
        /// What the marker says.
        details: WindowsSetupDetails,
    },
    /// What there is.
    Finished {
        /// Of the setup.
        status: WindowsSetupStatus,
    },
    /// That could not be said.
    Failed {
        /// Why.
        error: WindowsSetupError<E>,
    },
}

/// What came of a step.
#[derive(Debug)]
pub enum StatusEvent<E> {
    /// Whether the marker is there.
    Inspected(Presence<E>),
    /// The marker was opened, or what is wrong with it.
    Opened(Result<(), String>),
    /// The marker was read, or not.
    Read(Result<(), E>),
    /// What the marker says.
    Decoded(Result<SetupMarker, E>),
    /// The accounts are those of the marker, or not.
    Accounts(Result<(), WindowsSetupError<E>>),
    /// Everything else is as the marker says, or not.
    Native(Result<(), WindowsSetupVerificationError<E>>),
}

/// The marker's place in a state directory.
pub open spec fn marker_in(state_directory: PathModel) -> PathModel {
    state_directory.child(utf16::encode("setup.json"@))
}

/// The marker's place in a state directory.
pub fn marker_path(state_directory: &NativePath) -> (path: NativePath)
    ensures
        path@ == marker_in(state_directory@),
{
    state_directory.child(setup::MARKER_NAME)
}

impl<E> StatusStep<E> {
    /// Whether an event can come of the step.
    pub open spec fn expects(self, event: StatusEvent<E>) -> bool {
        match self {
            StatusStep::Inspect => event is Inspected,
            StatusStep::Open => event is Opened,
            StatusStep::Read => event is Read,
            StatusStep::Decode => event is Decoded,
            StatusStep::VerifyAccounts { .. } => event is Accounts,
            StatusStep::VerifyNative { .. } => event is Native,
            StatusStep::Finished { .. } | StatusStep::Failed { .. } => false,
        }
    }

    /// Whether a step follows an event, for a user's state directory.
    pub open spec fn leads_to(
        self,
        event: StatusEvent<E>,
        owner_sid: Seq<char>,
        directory: PathModel,
        next: StatusStep<E>,
    ) -> bool {
        match (self, event) {
            (StatusStep::Inspect, StatusEvent::Inspected(Presence::There)) => next is Open,
            (StatusStep::Inspect, StatusEvent::Inspected(Presence::Absent)) => next
                matches StatusStep::Finished {
                status: WindowsSetupStatus::Missing { marker_path },
            } && marker_path@ == marker_in(directory),
            (StatusStep::Inspect, StatusEvent::Inspected(Presence::Unknown(cause))) => next
                matches StatusStep::Failed {
                error: WindowsSetupError::StateRead { path, source },
            } && path@ == marker_in(directory) && source == cause,
            (StatusStep::Open, StatusEvent::Opened(Ok(_))) => next is Read,
            (StatusStep::Open, StatusEvent::Opened(Err(fault))) => next matches StatusStep::Failed {
                error: WindowsSetupError::StatePathUnsafe { path, detail },
            } && path@ == marker_in(directory) && detail == fault,
            (StatusStep::Read, StatusEvent::Read(Ok(_))) => next is Decode,
            (StatusStep::Read, StatusEvent::Read(Err(cause))) => next matches StatusStep::Failed {
                error: WindowsSetupError::StateRead { path, source },
            } && path@ == marker_in(directory) && source == cause,
            (StatusStep::Decode, StatusEvent::Decoded(Err(cause))) => next
                matches StatusStep::Failed {
                error: WindowsSetupError::StateDecode { path, source },
            } && path@ == marker_in(directory) && source == cause,
            (StatusStep::Decode, StatusEvent::Decoded(Ok(marker))) => if setup::is_current(
                marker@,
                owner_sid,
            ) {
                next matches StatusStep::VerifyAccounts { details } && details@ == marker@
                    && details.directory() == directory
            } else {
                next matches StatusStep::Finished {
                    status: WindowsSetupStatus::Stale { marker_path, reason },
                } && marker_path@ == marker_in(directory) && setup::is_stale_for(
                    marker@,
                    owner_sid,
                    reason,
                )
            },
            (StatusStep::VerifyAccounts { details }, StatusEvent::Accounts(Ok(_))) => next
                == StatusStep::<E>::VerifyNative { details },
            (StatusStep::VerifyAccounts { .. }, StatusEvent::Accounts(Err(error))) => next
                == StatusStep::<E>::Failed { error },
            (StatusStep::VerifyNative { details }, StatusEvent::Native(Ok(_))) => next
                == StatusStep::<E>::Finished { status: WindowsSetupStatus::Ready(details) },
            (StatusStep::VerifyNative { .. }, StatusEvent::Native(Err(error))) => next
                == StatusStep::<E>::Failed { error: WindowsSetupError::Verification(error) },
            _ => next == self,
        }
    }

    /// Takes the step after an event, for a user's state directory.
    pub fn advance(self, event: StatusEvent<E>, owner_sid: &str, directory: &NativePath) -> (step:
        StatusStep<E>)
        requires
            self.expects(event),
        ensures
            self.leads_to(event, owner_sid@, directory@, step),
    {
        match (self, event) {
            (StatusStep::Inspect, StatusEvent::Inspected(Presence::There)) => StatusStep::Open,
            (StatusStep::Inspect, StatusEvent::Inspected(Presence::Absent)) =>
                StatusStep::Finished {
                status: WindowsSetupStatus::Missing { marker_path: marker_path(directory) },
            },
            (StatusStep::Inspect, StatusEvent::Inspected(Presence::Unknown(source))) =>
                StatusStep::Failed {
                error: WindowsSetupError::StateRead { path: marker_path(directory), source },
            },
            (StatusStep::Open, StatusEvent::Opened(Ok(_))) => StatusStep::Read,
            (StatusStep::Open, StatusEvent::Opened(Err(detail))) => StatusStep::Failed {
                error: WindowsSetupError::StatePathUnsafe { path: marker_path(directory), detail },
            },
            (StatusStep::Read, StatusEvent::Read(Ok(_))) => StatusStep::Decode,
            (StatusStep::Read, StatusEvent::Read(Err(source))) => StatusStep::Failed {
                error: WindowsSetupError::StateRead { path: marker_path(directory), source },
            },
            (StatusStep::Decode, StatusEvent::Decoded(Err(source))) => StatusStep::Failed {
                error: WindowsSetupError::StateDecode { path: marker_path(directory), source },
            },
            (StatusStep::Decode, StatusEvent::Decoded(Ok(marker))) => {
                match setup::stale_reason(&marker, owner_sid) {
                    Some(reason) => StatusStep::Finished {
                        status: WindowsSetupStatus::Stale {
                            marker_path: marker_path(directory),
                            reason,
                        },
                    },
                    None => StatusStep::VerifyAccounts {
                        details: marker.into_details(directory.clone()),
                    },
                }
            },
            (StatusStep::VerifyAccounts { details }, StatusEvent::Accounts(Ok(_))) =>
                StatusStep::VerifyNative { details },
            (StatusStep::VerifyAccounts { .. }, StatusEvent::Accounts(Err(error))) =>
                StatusStep::Failed { error },
            (StatusStep::VerifyNative { details }, StatusEvent::Native(Ok(_))) =>
                StatusStep::Finished { status: WindowsSetupStatus::Ready(details) },
            (StatusStep::VerifyNative { .. }, StatusEvent::Native(Err(error))) =>
                StatusStep::Failed { error: WindowsSetupError::Verification(error) },
            (step, _) => step,
        }
    }
}

/// A setup counts as ready only after its marker was found to be the user's,
/// and the accounts and then everything else were found to be as the marker
/// says.
pub proof fn ready_means_read_back<E>(
    step: StatusStep<E>,
    event: StatusEvent<E>,
    owner_sid: Seq<char>,
    directory: PathModel,
    next: StatusStep<E>,
)
    requires
        step.expects(event),
        step.leads_to(event, owner_sid, directory, next),
    ensures
        next matches StatusStep::VerifyAccounts { details } ==> setup::is_current(
            details@,
            owner_sid,
        ) && details.directory() == directory,
        next matches StatusStep::VerifyNative { details } ==> step == (
        StatusStep::<E>::VerifyAccounts { details }) && (event matches StatusEvent::Accounts(result)
            && result is Ok),
        next matches StatusStep::Finished { status: WindowsSetupStatus::Ready(details) } ==> step
            == (StatusStep::<E>::VerifyNative { details }) && (event matches StatusEvent::Native(
            result,
        ) && result is Ok),
{
}

/// What the helper's answer comes to, with the code that the helper ended
/// with.
pub open spec fn answered<E>(exit_code: u32, response: SetupResponse) -> Option<WindowsSetupError<E>> {
    if response.version != setup_protocol::SETUP_PROTOCOL_VERSION {
        Some(
            WindowsSetupError::ResponseVersionMismatch {
                expected: setup_protocol::SETUP_PROTOCOL_VERSION,
                actual: response.version,
            },
        )
    } else {
        match response.outcome {
            SetupOutcome::Complete => if exit_code == 0 {
                None
            } else {
                Some(WindowsSetupError::HelperExitMismatch { exit_code })
            },
            SetupOutcome::Failed { stage, code, native_code, detail } => if code
                is ActiveSandboxes {
                Some(WindowsSetupError::ActiveSandboxes)
            } else {
                Some(WindowsSetupError::HelperFailed { stage, code, native_code, detail })
            },
        }
    }
}

/// What the helper's answer comes to, with the code that the helper ended
/// with.
pub fn helper_outcome<E>(exit_code: u32, response: SetupResponse) -> (result: Result<
    (),
    WindowsSetupError<E>,
>)
    ensures
        match result {
            Ok(_) => answered::<E>(exit_code, response) is None,
            Err(error) => answered::<E>(exit_code, response) == Some(error),
        },
{
    if response.version != setup_protocol::SETUP_PROTOCOL_VERSION {
        return Err(
            WindowsSetupError::ResponseVersionMismatch {
                expected: setup_protocol::SETUP_PROTOCOL_VERSION,
                actual: response.version,
            },
        );
    }
    match response.outcome {
        SetupOutcome::Complete => if exit_code == 0 {
            Ok(())
        } else {
            Err(WindowsSetupError::HelperExitMismatch { exit_code })
        },
        SetupOutcome::Failed { stage, code, native_code, detail } => match code {
            SetupFailureCode::ActiveSandboxes => Err(WindowsSetupError::ActiveSandboxes),
            _ => Err(WindowsSetupError::HelperFailed { stage, code, native_code, detail }),
        },
    }
}

/// The code that a helper run directly ended with.
pub fn direct_exit_code(code: Option<i32>) -> (exit_code: u32)
    ensures
        exit_code == (match code {
            Some(value) => value as u32,
            None => NO_EXIT_CODE,
        }),
{
    match code {
        Some(value) => value as u32,
        None => NO_EXIT_CODE,
    }
}

/// How far a helper without an answer came: an empty note says nothing.
pub fn last_checkpoint(note: Option<String>) -> (checkpoint: Option<String>)
    ensures
        checkpoint == (match note {
            Some(noted) => if noted@.len() == 0 {
                None::<String>
            } else {
                Some(noted)
            },
            None => None,
        }),
{
    match note {
        Some(noted) => if noted.as_str().unicode_len() == 0 {
            None
        } else {
            Some(noted)
        },
        None => None,
    }
}

/// The words that the helper is started with.
pub fn helper_arguments(request: String, response: String) -> (arguments: Vec<String>)
    ensures
        arguments@.len() == 4,
        arguments@[0]@ == "--request"@,
        arguments@[1] == request,
        arguments@[2]@ == "--response"@,
        arguments@[3] == response,
{
    let mut arguments: Vec<String> = Vec::new();
    arguments.push("--request".to_owned());
    arguments.push(request);
    arguments.push("--response".to_owned());
    arguments.push(response);
    arguments
}

/// The next step of running the helper, or what it came to.
#[derive(Debug)]
pub enum HelperStep<E> {
    /// Read the user's SID.
    ReadOwner,
    /// Find the state directory.
    FindStateDirectory,
    /// Find the helper.
    ResolveHelper,
    /// Find the command runner.
    ResolveRunner,
    /// Keep the helper from being changed.
    PinHelper,
    /// Keep the command runner from being changed.
    PinRunner,
    /// Hash the helper.
    DigestHelper,
    /// Hash the command runner.
    DigestRunner,
    /// Make a directory for the messages.
    CreateTransport,
    /// Encode the request, write it and keep it from being changed.
    WriteRequest,
    /// See whether this process has an administrator's rights.
    AskElevation,
    /// Start the helper and wait for it.
    Launch {
        /// Whether this process has an administrator's rights, so that the
        /// user need not be asked.
        elevated: bool,
    },
    /// Read the answer.
    ReadResponse {
        /// How the helper ended.
        exit_code: u32,
    },
    /// Read how far the helper came: there is no answer.
    ReadCheckpoint {
        /// How the helper ended.
        exit_code: u32,
        /// The cause.
        source: E,
    },
    /// Decode the answer.
    DecodeResponse {
        /// How the helper ended.
        exit_code: u32,
    },
    /// The helper did what it was asked to.
    Done,
    /// It did not.
    Failed {
        /// Why.
        error: WindowsSetupError<E>,
    },
}

/// What came of a step of running the helper.
#[derive(Debug)]
pub enum HelperEvent<E> {
    /// It succeeded, or failed.
    Done(Result<(), WindowsSetupError<E>>),
    /// Whether this process has an administrator's rights.
    Elevated(Result<bool, E>),
    /// How the helper ended, or why it could not be started and with which
    /// native status.
    Ended(Result<u32, (E, Option<i32>)>),
    /// The answer was read, is not there, or could not be read.
    Response(Result<(), (E, bool)>),
    /// How far the helper came.
    Checkpoint(Option<String>),
    /// The answer.
    Decoded(Result<SetupResponse, E>),
}

/// Whether a failure may come of a step that either succeeds or fails.
pub open spec fn may_fail_with<E>(step: HelperStep<E>, error: WindowsSetupError<E>) -> bool {
    match step {
        HelperStep::ReadOwner => error is CurrentUserSid,
        HelperStep::FindStateDirectory => error is ProgramDataUnavailable,
        HelperStep::ResolveHelper | HelperStep::ResolveRunner => error is HelperUnavailable,
        HelperStep::PinHelper | HelperStep::PinRunner => error is HelperResourceUnsafe,
        HelperStep::DigestHelper | HelperStep::DigestRunner => error is HelperResourceRead,
        HelperStep::CreateTransport | HelperStep::WriteRequest => error is RequestWrite,
        _ => false,
    }
}

impl<E> HelperStep<E> {
    /// Whether an event can come of the step.
    pub open spec fn expects(self, event: HelperEvent<E>) -> bool {
        match self {
            HelperStep::ReadOwner
            | HelperStep::FindStateDirectory
            | HelperStep::ResolveHelper
            | HelperStep::ResolveRunner
            | HelperStep::PinHelper
            | HelperStep::PinRunner
            | HelperStep::DigestHelper
            | HelperStep::DigestRunner
            | HelperStep::CreateTransport
            | HelperStep::WriteRequest => event matches HelperEvent::Done(result) && (result
                matches Err(error) ==> may_fail_with(self, error)),
            HelperStep::AskElevation => event is Elevated,
            HelperStep::Launch { .. } => event is Ended,
            HelperStep::ReadResponse { .. } => event is Response,
            HelperStep::ReadCheckpoint { .. } => event is Checkpoint,
            HelperStep::DecodeResponse { .. } => event is Decoded,
            HelperStep::Done | HelperStep::Failed { .. } => false,
        }
    }

    /// Whether a step follows an event, for a helper and the place of its
    /// answer.
    pub open spec fn leads_to(
        self,
        event: HelperEvent<E>,
        helper: PathModel,
        response: PathModel,
        next: HelperStep<E>,
    ) -> bool {
        match (self, event) {
            (_, HelperEvent::Done(Err(error))) => next == HelperStep::<E>::Failed { error },
            (HelperStep::ReadOwner, HelperEvent::Done(Ok(_))) => next is FindStateDirectory,
            (HelperStep::FindStateDirectory, HelperEvent::Done(Ok(_))) => next is ResolveHelper,
            (HelperStep::ResolveHelper, HelperEvent::Done(Ok(_))) => next is ResolveRunner,
            (HelperStep::ResolveRunner, HelperEvent::Done(Ok(_))) => next is PinHelper,
            (HelperStep::PinHelper, HelperEvent::Done(Ok(_))) => next is PinRunner,
            (HelperStep::PinRunner, HelperEvent::Done(Ok(_))) => next is DigestHelper,
            (HelperStep::DigestHelper, HelperEvent::Done(Ok(_))) => next is DigestRunner,
            (HelperStep::DigestRunner, HelperEvent::Done(Ok(_))) => next is CreateTransport,
            (HelperStep::CreateTransport, HelperEvent::Done(Ok(_))) => next is WriteRequest,
            (HelperStep::WriteRequest, HelperEvent::Done(Ok(_))) => next is AskElevation,
            (HelperStep::AskElevation, HelperEvent::Elevated(Ok(elevated))) => next
                == HelperStep::<E>::Launch { elevated },
            (HelperStep::AskElevation, HelperEvent::Elevated(Err(cause))) => next
                matches HelperStep::Failed {
                error: WindowsSetupError::HelperLaunch { path, source },
            } && path@ == helper && source == cause,
            (HelperStep::Launch { .. }, HelperEvent::Ended(Ok(exit_code))) => next
                == HelperStep::<E>::ReadResponse { exit_code },
            (HelperStep::Launch { .. }, HelperEvent::Ended(Err((cause, status)))) => if status
                == Some(ERROR_CANCELLED) {
                next == (HelperStep::<E>::Failed { error: WindowsSetupError::ElevationCanceled })
            } else {
                next matches HelperStep::Failed {
                    error: WindowsSetupError::HelperLaunch { path, source },
                } && path@ == helper && source == cause
            },
            (HelperStep::ReadResponse { exit_code }, HelperEvent::Response(Ok(_))) => next
                == HelperStep::<E>::DecodeResponse { exit_code },
            (HelperStep::ReadResponse { exit_code }, HelperEvent::Response(Err((cause, absent)))) =>
                if absent {
                next == (HelperStep::<E>::ReadCheckpoint { exit_code, source: cause })
            } else {
                next matches HelperStep::Failed {
                    error: WindowsSetupError::ResponseRead { path, source },
                } && path@ == response && source == cause
            },
            (
                HelperStep::ReadCheckpoint { exit_code, source },
                HelperEvent::Checkpoint(note),
            ) => next matches HelperStep::Failed {
                error: WindowsSetupError::HelperResponseMissing {
                    path,
                    exit_code: code,
                    last_checkpoint,
                    source: cause,
                },
            } && path@ == response && code == exit_code && cause == source && last_checkpoint == (
            match note {
                Some(noted) => if noted@.len() == 0 {
                    None::<String>
                } else {
                    Some(noted)
                },
                None => None,
            }),
            (HelperStep::DecodeResponse { .. }, HelperEvent::Decoded(Err(cause))) => next
                matches HelperStep::Failed {
                error: WindowsSetupError::ResponseDecode { path, source },
            } && path@ == response && source == cause,
            (HelperStep::DecodeResponse { exit_code }, HelperEvent::Decoded(Ok(answer))) =>
                match answered::<E>(exit_code, answer) {
                None => next is Done,
                Some(error) => next == HelperStep::<E>::Failed { error },
            },
            _ => next == self,
        }
    }

    /// Takes the step after an event, for a helper and the place of its
    /// answer.
    pub fn advance(self, event: HelperEvent<E>, helper: &NativePath, response: &NativePath) -> (step:
        HelperStep<E>)
        requires
            self.expects(event),
        ensures
            self.leads_to(event, helper@, response@, step),
    {
        match (self, event) {
            (_, HelperEvent::Done(Err(error))) => HelperStep::Failed { error },
            (HelperStep::ReadOwner, HelperEvent::Done(Ok(_))) => HelperStep::FindStateDirectory,
            (HelperStep::FindStateDirectory, HelperEvent::Done(Ok(_))) => HelperStep::ResolveHelper,
            (HelperStep::ResolveHelper, HelperEvent::Done(Ok(_))) => HelperStep::ResolveRunner,
            (HelperStep::ResolveRunner, HelperEvent::Done(Ok(_))) => HelperStep::PinHelper,
            (HelperStep::PinHelper, HelperEvent::Done(Ok(_))) => HelperStep::PinRunner,
            (HelperStep::PinRunner, HelperEvent::Done(Ok(_))) => HelperStep::DigestHelper,
            (HelperStep::DigestHelper, HelperEvent::Done(Ok(_))) => HelperStep::DigestRunner,
            (HelperStep::DigestRunner, HelperEvent::Done(Ok(_))) => HelperStep::CreateTransport,
            (HelperStep::CreateTransport, HelperEvent::Done(Ok(_))) => HelperStep::WriteRequest,
            (HelperStep::WriteRequest, HelperEvent::Done(Ok(_))) => HelperStep::AskElevation,
            (HelperStep::AskElevation, HelperEvent::Elevated(Ok(elevated))) => HelperStep::Launch {
                elevated,
            },
            (HelperStep::AskElevation, HelperEvent::Elevated(Err(source))) => HelperStep::Failed {
                error: WindowsSetupError::HelperLaunch { path: helper.clone(), source },
            },
            (HelperStep::Launch { .. }, HelperEvent::Ended(Ok(exit_code))) =>
                HelperStep::ReadResponse { exit_code },
            (HelperStep::Launch { .. }, HelperEvent::Ended(Err((source, status)))) => {
                let canceled = match status {
                    Some(code) => code == ERROR_CANCELLED,
                    None => false,
                };
                if canceled {
                    HelperStep::Failed { error: WindowsSetupError::ElevationCanceled }
                } else {
                    HelperStep::Failed {
                        error: WindowsSetupError::HelperLaunch { path: helper.clone(), source },
                    }
                }
            },
            (HelperStep::ReadResponse { exit_code }, HelperEvent::Response(Ok(_))) =>
                HelperStep::DecodeResponse { exit_code },
            (
                HelperStep::ReadResponse { exit_code },
                HelperEvent::Response(Err((source, absent))),
            ) => if absent {
                HelperStep::ReadCheckpoint { exit_code, source }
            } else {
                HelperStep::Failed {
                    error: WindowsSetupError::ResponseRead { path: response.clone(), source },
                }
            },
            (HelperStep::ReadCheckpoint { exit_code, source }, HelperEvent::Checkpoint(note)) =>
                HelperStep::Failed {
                error: WindowsSetupError::HelperResponseMissing {
                    path: response.clone(),
                    exit_code,
                    last_checkpoint: last_checkpoint(note),
                    source,
                },
            },
            (HelperStep::DecodeResponse { .. }, HelperEvent::Decoded(Err(source))) =>
                HelperStep::Failed {
                error: WindowsSetupError::ResponseDecode { path: response.clone(), source },
            },
            (HelperStep::DecodeResponse { exit_code }, HelperEvent::Decoded(Ok(answer))) => {
                match helper_outcome(exit_code, answer) {
                    Ok(_) => HelperStep::Done,
                    Err(error) => HelperStep::Failed { error },
                }
            },
            (step, _) => step,
        }
    }
}

/// The helper is started only after it and the command runner were kept from
/// being changed and hashed, and it counts as done only where it answered so
/// and ended without a failure.
pub proof fn helper_is_pinned_and_answers<E>(
    step: HelperStep<E>,
    event: HelperEvent<E>,
    helper: PathModel,
    response: PathModel,
    next: HelperStep<E>,
)
    requires
        step.expects(event),
        step.leads_to(event, helper, response, next),
    ensures
        next is DigestHelper ==> step is PinRunner,
        next is PinRunner ==> step is PinHelper,
        next is CreateTransport ==> step is DigestRunner,
        next is DigestRunner ==> step is DigestHelper,
        next is Launch ==> step is AskElevation,
        next is AskElevation ==> step is WriteRequest,
        next is WriteRequest ==> step is CreateTransport,
        next is Done ==> (step matches HelperStep::DecodeResponse { exit_code } && exit_code == 0)
            && (event matches HelperEvent::Decoded(Ok(answer)) && answer.version
            == setup_protocol::SETUP_PROTOCOL_VERSION && answer.outcome is Complete),
{
}

/// The next step of removing a setup, or what it came to.
#[derive(Debug)]
pub enum UninstallStep<E> {
    /// See whether the state directory is there.
    Inspect,
    /// Keep the setup from being used.
    AcquireGuard,
    /// Put files back as they were.
    CleanUp,
    /// Let the setup be removed.
    ReleaseGuard,
    /// Run the helper.
    RunHelper,
    /// Read what there is of the setup.
    ReadStatus,
    /// There is nothing left.
    Done,
    /// It could not be removed.
    Failed {
        /// Why.
        error: WindowsSetupError<E>,
    },
}

/// What came of a step of removing a setup.
#[derive(Debug)]
pub enum UninstallEvent<E> {
    /// Whether the state directory is there.
    Inspected(Presence<E>),
    /// The setup is kept from being used, or is in use, or that could not be
    /// said.
    Guarded(Result<(), Option<E>>),
    /// Files are as they were, or not.
    CleanedUp(Result<(), E>),
    /// The setup can be removed.
    Released,
    /// The helper did what it was asked to, or not.
    Ran(Result<(), WindowsSetupError<E>>),
    /// What there is of the setup.
    Status(Result<WindowsSetupStatus, WindowsSetupError<E>>),
}

impl<E> UninstallStep<E> {
    /// Whether an event can come of the step.
    pub open spec fn expects(self, event: UninstallEvent<E>) -> bool {
        match self {
            UninstallStep::Inspect => event is Inspected,
            UninstallStep::AcquireGuard => event is Guarded,
            UninstallStep::CleanUp => event is CleanedUp,
            UninstallStep::ReleaseGuard => event is Released,
            UninstallStep::RunHelper => event is Ran,
            UninstallStep::ReadStatus => event is Status,
            UninstallStep::Done | UninstallStep::Failed { .. } => false,
        }
    }

    /// Whether a step follows an event, for a state directory.
    pub open spec fn leads_to(
        self,
        event: UninstallEvent<E>,
        directory: PathModel,
        next: UninstallStep<E>,
    ) -> bool {
        match (self, event) {
            (UninstallStep::Inspect, UninstallEvent::Inspected(Presence::Absent)) => next is Done,
            (UninstallStep::Inspect, UninstallEvent::Inspected(Presence::There)) => next
                is AcquireGuard,
            (UninstallStep::Inspect, UninstallEvent::Inspected(Presence::Unknown(cause))) => next
                matches UninstallStep::Failed {
                error: WindowsSetupError::StateRead { path, source },
            } && path@ == directory && source == cause,
            (UninstallStep::AcquireGuard, UninstallEvent::Guarded(Ok(_))) => next is CleanUp,
            (UninstallStep::AcquireGuard, UninstallEvent::Guarded(Err(None))) => next == (
            UninstallStep::<E>::Failed { error: WindowsSetupError::ActiveSandboxes }),
            (UninstallStep::AcquireGuard, UninstallEvent::Guarded(Err(Some(source)))) => next == (
            UninstallStep::<E>::Failed {
                error: WindowsSetupError::UninstallCoordination { source },
            }),
            (UninstallStep::CleanUp, UninstallEvent::CleanedUp(Ok(_))) => next is ReleaseGuard,
            (UninstallStep::CleanUp, UninstallEvent::CleanedUp(Err(source))) => next == (
            UninstallStep::<E>::Failed {
                error: WindowsSetupError::UninstallFilesystemCleanup { source },
            }),
            (UninstallStep::ReleaseGuard, UninstallEvent::Released) => next is RunHelper,
            (UninstallStep::RunHelper, UninstallEvent::Ran(Ok(_))) => next is ReadStatus,
            (UninstallStep::RunHelper, UninstallEvent::Ran(Err(error))) => next == (
            UninstallStep::<E>::Failed { error }),
            (UninstallStep::ReadStatus, UninstallEvent::Status(Err(error))) => next == (
            UninstallStep::<E>::Failed { error }),
            (UninstallStep::ReadStatus, UninstallEvent::Status(Ok(status))) => if status
                is Missing {
                next is Done
            } else {
                next == (UninstallStep::<E>::Failed {
                    error: WindowsSetupError::HelperExitMismatch { exit_code: 0 },
                })
            },
            _ => next == self,
        }
    }

    /// Takes the step after an event, for a state directory.
    pub fn advance(self, event: UninstallEvent<E>, directory: &NativePath) -> (step: UninstallStep<
        E,
    >)
        requires
            self.expects(event),
        ensures
            self.leads_to(event, directory@, step),
    {
        match (self, event) {
            (UninstallStep::Inspect, UninstallEvent::Inspected(Presence::Absent)) =>
                UninstallStep::Done,
            (UninstallStep::Inspect, UninstallEvent::Inspected(Presence::There)) =>
                UninstallStep::AcquireGuard,
            (UninstallStep::Inspect, UninstallEvent::Inspected(Presence::Unknown(source))) =>
                UninstallStep::Failed {
                error: WindowsSetupError::StateRead { path: directory.clone(), source },
            },
            (UninstallStep::AcquireGuard, UninstallEvent::Guarded(Ok(_))) => UninstallStep::CleanUp,
            (UninstallStep::AcquireGuard, UninstallEvent::Guarded(Err(None))) =>
                UninstallStep::Failed { error: WindowsSetupError::ActiveSandboxes },
            (UninstallStep::AcquireGuard, UninstallEvent::Guarded(Err(Some(source)))) =>
                UninstallStep::Failed {
                error: WindowsSetupError::UninstallCoordination { source },
            },
            (UninstallStep::CleanUp, UninstallEvent::CleanedUp(Ok(_))) =>
                UninstallStep::ReleaseGuard,
            (UninstallStep::CleanUp, UninstallEvent::CleanedUp(Err(source))) =>
                UninstallStep::Failed {
                error: WindowsSetupError::UninstallFilesystemCleanup { source },
            },
            (UninstallStep::ReleaseGuard, UninstallEvent::Released) => UninstallStep::RunHelper,
            (UninstallStep::RunHelper, UninstallEvent::Ran(Ok(_))) => UninstallStep::ReadStatus,
            (UninstallStep::RunHelper, UninstallEvent::Ran(Err(error))) => UninstallStep::Failed {
                error,
            },
            (UninstallStep::ReadStatus, UninstallEvent::Status(Err(error))) =>
                UninstallStep::Failed { error },
            (UninstallStep::ReadStatus, UninstallEvent::Status(Ok(status))) => match status {
                WindowsSetupStatus::Missing { .. } => UninstallStep::Done,
                _ => UninstallStep::Failed {
                    error: WindowsSetupError::HelperExitMismatch { exit_code: 0 },
                },
            },
            (step, _) => step,
        }
    }
}

/// The helper removes a setup only after no child used it and files were put
/// back, and the setup counts as removed only where nothing was there or
/// nothing is left.
pub proof fn removal_is_guarded<E>(
    step: UninstallStep<E>,
    event: UninstallEvent<E>,
    directory: PathModel,
    next: UninstallStep<E>,
)
    requires
        step.expects(event),
        step.leads_to(event, directory, next),
    ensures
        next is CleanUp ==> step is AcquireGuard && (event matches UninstallEvent::Guarded(result)
            && result is Ok),
        next is ReleaseGuard ==> step is CleanUp && (event matches UninstallEvent::CleanedUp(result)
            && result is Ok),
        next is RunHelper ==> step is ReleaseGuard,
        next is Done ==> event == UninstallEvent::<E>::Inspected(Presence::Absent) || (event
            matches UninstallEvent::Status(Ok(status)) && status is Missing),
{
}

/// What a step of reading a setup comes from: the marker is opened only where it
/// is there, read only once it is open, and taken for a setup only where it is
/// current; a setup is missing only where its marker is, and stale only where the
/// marker says so. Every failure tells the step's own cause.
pub proof fn status_steps_follow<E>(
    step: StatusStep<E>,
    event: StatusEvent<E>,
    owner_sid: Seq<char>,
    directory: PathModel,
    next: StatusStep<E>,
)
    requires
        step.expects(event),
        step.leads_to(event, owner_sid, directory, next),
    ensures
        match next {
            StatusStep::Inspect => false,
            StatusStep::Open => event == StatusEvent::<E>::Inspected(Presence::There),
            StatusStep::Read => event matches StatusEvent::Opened(result) && result is Ok,
            StatusStep::Decode => event matches StatusEvent::Read(result) && result is Ok,
            StatusStep::VerifyAccounts { details } => event matches StatusEvent::Decoded(Ok(marker))
                && marker@ == details@ && setup::is_current(marker@, owner_sid),
            StatusStep::VerifyNative { details } => step == (StatusStep::<E>::VerifyAccounts {
                details,
            }) && (event matches StatusEvent::Accounts(result) && result is Ok),
            StatusStep::Finished { status } => match status {
                WindowsSetupStatus::Missing { .. } => event == StatusEvent::<E>::Inspected(
                    Presence::Absent,
                ),
                WindowsSetupStatus::Stale { reason, .. } => event matches StatusEvent::Decoded(
                    Ok(marker),
                ) && !setup::is_current(marker@, owner_sid) && setup::is_stale_for(
                    marker@,
                    owner_sid,
                    reason,
                ),
                WindowsSetupStatus::Ready(details) => step == (StatusStep::<E>::VerifyNative {
                    details,
                }) && (event matches StatusEvent::Native(result) && result is Ok),
            },
            StatusStep::Failed { error } => match event {
                StatusEvent::Inspected(presence) => presence matches Presence::Unknown(cause) && (
                error matches WindowsSetupError::StateRead { source, .. } && source == cause),
                StatusEvent::Opened(result) => result matches Err(fault) && (
                error matches WindowsSetupError::StatePathUnsafe { detail, .. } && detail == fault),
                StatusEvent::Read(result) => result matches Err(cause) && (
                error matches WindowsSetupError::StateRead { source, .. } && source == cause),
                StatusEvent::Decoded(result) => result matches Err(cause) && (
                error matches WindowsSetupError::StateDecode { source, .. } && source == cause),
                StatusEvent::Accounts(result) => result == Err::<(), WindowsSetupError<E>>(error),
                StatusEvent::Native(result) => result matches Err(cause) && error
                    == WindowsSetupError::Verification(cause),
            },
        },
{
}

/// The helper did its work only where it says so in the version that is spoken
/// here and ended with zero; what it says failed is told as it says it.
pub proof fn only_complete_answers_count<E>(exit_code: u32, response: SetupResponse)
    ensures
        answered::<E>(exit_code, response) is None <==> response.version
            == setup_protocol::SETUP_PROTOCOL_VERSION && response.outcome is Complete && exit_code
            == 0,
        answered::<E>(exit_code, response) matches Some(error) ==> match error {
            WindowsSetupError::ResponseVersionMismatch { expected, actual } => expected
                == setup_protocol::SETUP_PROTOCOL_VERSION && actual == response.version && actual
                != expected,
            WindowsSetupError::HelperExitMismatch { exit_code: told } => told == exit_code && told
                != 0 && response.outcome is Complete,
            WindowsSetupError::ActiveSandboxes => response.outcome matches SetupOutcome::Failed {
                code,
                ..
            } && code is ActiveSandboxes,
            WindowsSetupError::HelperFailed { stage, code, native_code, detail } =>
                response.outcome == (SetupOutcome::Failed { stage, code, native_code, detail })
                && !(code is ActiveSandboxes),
            _ => false,
        },
{
}

/// What a step of running the helper comes from: both programs are found, held
/// and digested before the request is written, the helper is launched as the answer
/// about elevation says, and its answer is read with the code that it ended with. A
/// refused elevation is told as such; an answer that is missing is told with the last
/// thing that the helper noted.
pub proof fn helper_steps_follow<E>(
    step: HelperStep<E>,
    event: HelperEvent<E>,
    helper: PathModel,
    response: PathModel,
    next: HelperStep<E>,
)
    requires
        step.expects(event),
        step.leads_to(event, helper, response, next),
    ensures
        match next {
            HelperStep::ReadOwner => false,
            HelperStep::FindStateDirectory => step is ReadOwner,
            HelperStep::ResolveHelper => step is FindStateDirectory,
            HelperStep::ResolveRunner => step is ResolveHelper,
            HelperStep::PinHelper => step is ResolveRunner,
            HelperStep::PinRunner => step is PinHelper,
            HelperStep::DigestHelper => step is PinRunner,
            HelperStep::DigestRunner => step is DigestHelper,
            HelperStep::CreateTransport => step is DigestRunner,
            HelperStep::WriteRequest => step is CreateTransport,
            HelperStep::AskElevation => step is WriteRequest,
            HelperStep::Launch { elevated } => event == HelperEvent::<E>::Elevated(Ok(elevated)),
            HelperStep::ReadResponse { exit_code } => event == HelperEvent::<E>::Ended(
                Ok(exit_code),
            ),
            HelperStep::ReadCheckpoint { exit_code, source } => step == (
            HelperStep::<E>::ReadResponse { exit_code }) && event == HelperEvent::Response(
                Err::<(), (E, bool)>((source, true)),
            ),
            HelperStep::DecodeResponse { exit_code } => step == (HelperStep::<E>::ReadResponse {
                exit_code,
            }) && (event matches HelperEvent::Response(result) && result is Ok),
            HelperStep::Done => step == (HelperStep::<E>::DecodeResponse { exit_code: 0 }) && (
            event matches HelperEvent::Decoded(Ok(answer)) && answer.outcome is Complete
                && answer.version == setup_protocol::SETUP_PROTOCOL_VERSION),
            HelperStep::Failed { error } => match event {
                HelperEvent::Done(result) => result == Err::<(), WindowsSetupError<E>>(error),
                HelperEvent::Elevated(result) => result matches Err(cause) && (
                error matches WindowsSetupError::HelperLaunch { source, .. } && source == cause),
                HelperEvent::Ended(result) => result matches Err((cause, status)) && (if status
                    == Some(1223i32) {
                    error is ElevationCanceled
                } else {
                    error matches WindowsSetupError::HelperLaunch { source, .. } && source == cause
                }),
                HelperEvent::Response(result) => result matches Err((cause, absent)) && !absent && (
                error matches WindowsSetupError::ResponseRead { source, .. } && source == cause),
                HelperEvent::Checkpoint(_) => error is HelperResponseMissing,
                HelperEvent::Decoded(Err(cause)) => error matches WindowsSetupError::ResponseDecode {
                    source,
                    ..
                } && source == cause,
                HelperEvent::Decoded(Ok(answer)) => step matches HelperStep::DecodeResponse {
                    exit_code,
                } && answered::<E>(exit_code, answer) == Some(error),
            },
        },
        (event matches HelperEvent::Done(result) && result is Ok) ==> !(next is Failed),
{
}

/// What a step of removing a setup comes from: nothing is cleaned up without the
/// guard, the helper runs only once everything of files is gone and the guard is let
/// go, and the setup counts as removed only where it is missing. Running commands are
/// told as such.
pub proof fn uninstall_steps_follow<E>(
    step: UninstallStep<E>,
    event: UninstallEvent<E>,
    directory: PathModel,
    next: UninstallStep<E>,
)
    requires
        step.expects(event),
        step.leads_to(event, directory, next),
    ensures
        match next {
            UninstallStep::Inspect => false,
            UninstallStep::AcquireGuard => event == UninstallEvent::<E>::Inspected(Presence::There),
            UninstallStep::CleanUp => event matches UninstallEvent::Guarded(result) && result is Ok,
            UninstallStep::ReleaseGuard => event matches UninstallEvent::CleanedUp(result) && result
                is Ok,
            UninstallStep::RunHelper => event is Released,
            UninstallStep::ReadStatus => event matches UninstallEvent::Ran(result) && result is Ok,
            UninstallStep::Done => event == UninstallEvent::<E>::Inspected(Presence::Absent) || (
            event matches UninstallEvent::Status(Ok(status)) && status is Missing),
            UninstallStep::Failed { error } => match event {
                UninstallEvent::Inspected(presence) => presence matches Presence::Unknown(cause) && (
                error matches WindowsSetupError::StateRead { source, .. } && source == cause),
                UninstallEvent::Guarded(result) => match result {
                    Ok(_) => false,
                    Err(None) => error is ActiveSandboxes,
                    Err(Some(cause)) => error == (WindowsSetupError::UninstallCoordination {
                        source: cause,
                    }),
                },
                UninstallEvent::CleanedUp(result) => result matches Err(cause) && error == (
                WindowsSetupError::UninstallFilesystemCleanup { source: cause }),
                UninstallEvent::Released => false,
                UninstallEvent::Ran(result) => result == Err::<(), WindowsSetupError<E>>(error),
                UninstallEvent::Status(Err(cause)) => error == cause,
                UninstallEvent::Status(Ok(status)) => !(status is Missing) && error
                    is HelperExitMismatch,
            },
        },
{
}

} // verus!
