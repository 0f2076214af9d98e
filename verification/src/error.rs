//! What the backend reports.

use vstd::prelude::*;

use crate::network_ingress::{WindowsNetworkGatewayError, WindowsNetworkRuntimeError};
use crate::runner_protocol::WindowsRunnerFailure;
use crate::runner_session::RunnerSessionError;
use crate::setup_error::WindowsSetupError;

verus! {

/// Why a file policy cannot be enforced without allowing more.
#[derive(Clone, Copy, Debug, PartialEq, Eq, Structural)]
pub enum WindowsFilesystemShapeError {
    /// Someone else claims the files.
    ExternalOwnership,
    /// Nothing that a program needs can be read.
    MissingReadablePlatformBase,
    /// There is no `/tmp`.
    SlashTmpScope,
    /// A pattern would take a scan of a whole volume.
    UnboundedRootGlob,
}

/// Why a network policy cannot be enforced together with a file policy.
#[derive(Clone, Copy, Debug, PartialEq, Eq, Structural)]
pub enum WindowsNetworkCombinationError {
    /// Someone else claims the network.
    ExternalOwnership,
    /// There are no sockets in file systems.
    UnixSocketPolicy,
    /// All files need all networks.
    UnrestrictedFilesystemWithRestrictedNetwork,
    /// Some files need a managed account.
    RestrictedFilesystemWithCurrentIdentity,
}

/// Why the backend fails, with causes of type `E`.
#[derive(Debug)]
#[allow(inconsistent_fields)]
pub enum WindowsBackendError<E> {
    /// A request is not for this backend.
    BackendContract(E),
    /// The setup cannot be used.
    Setup(WindowsSetupError<E>),
    /// The file policy cannot be enforced.
    FilesystemShape(WindowsFilesystemShapeError),
    /// The policies cannot be enforced together.
    NetworkCombination(WindowsNetworkCombinationError),
    /// Listeners cannot be had.
    NetworkGateway(WindowsNetworkGatewayError<E>),
    /// Listeners failed.
    NetworkRuntime(WindowsNetworkRuntimeError<E>),
    /// What a request needs cannot be enforced.
    UnsupportedCapability {
        /// What it needs, by name.
        capability: String,
    },
    /// A pair of modes came to be lowered that no policy may have.
    InvalidLoweringModes {
        /// Who owns the files, by name.
        filesystem: String,
        /// Who owns the network, by name.
        network: String,
    },
    /// The environment could not be prepared.
    EnvironmentPreparation {
        /// The cause.
        source: E,
    },
    /// A text of the request holds a zero.
    RequestEncoding {
        /// Which.
        field: &'static str,
    },
    /// The file policy could not be planned.
    FilesystemPlanning {
        /// The cause.
        source: E,
    },
    /// The file policy could not be enforced.
    FilesystemEnforcement {
        /// The cause.
        source: E,
    },
    /// The runner could not be launched.
    RunnerLaunch {
        /// The cause.
        source: E,
    },
    /// The transport failed.
    RunnerProtocol(E),
    /// A standard stream could not be prepared.
    StandardStream(E),
    /// The boundary around the processes failed.
    RunnerBoundary {
        /// The cause.
        source: E,
    },
    /// The runner reported a failure.
    RunnerFailure(WindowsRunnerFailure),
    /// The command took too long.
    ProcessTimedOut,
    /// Something else failed while the command ran.
    RunnerLifecycle {
        /// What.
        source: RunnerSessionError<E>,
    },
}

/// What the backend reports for a failure of a session.
pub open spec fn session_report<E>(source: RunnerSessionError<E>) -> WindowsBackendError<E> {
    match source {
        RunnerSessionError::Launch(source) => WindowsBackendError::RunnerLaunch { source },
        RunnerSessionError::StandardStream(source) => WindowsBackendError::StandardStream(source),
        RunnerSessionError::Protocol(source) => WindowsBackendError::RunnerProtocol(source),
        RunnerSessionError::Boundary(source) => WindowsBackendError::RunnerBoundary { source },
        RunnerSessionError::RunnerFailure(failure) => WindowsBackendError::RunnerFailure(failure),
        RunnerSessionError::TimedOut => WindowsBackendError::ProcessTimedOut,
        source => WindowsBackendError::RunnerLifecycle { source },
    }
}

impl<E> WindowsBackendError<E> {
    /// What the backend reports for a failure of a session.
    pub fn runner_session(source: RunnerSessionError<E>) -> (error: WindowsBackendError<E>)
        ensures
            error == session_report(source),
    {
        match source {
            RunnerSessionError::Launch(source) => WindowsBackendError::RunnerLaunch { source },
            RunnerSessionError::StandardStream(source) => WindowsBackendError::StandardStream(
                source,
            ),
            RunnerSessionError::Protocol(source) => WindowsBackendError::RunnerProtocol(source),
            RunnerSessionError::Boundary(source) => WindowsBackendError::RunnerBoundary { source },
            RunnerSessionError::RunnerFailure(failure) => WindowsBackendError::RunnerFailure(
                failure,
            ),
            RunnerSessionError::TimedOut => WindowsBackendError::ProcessTimedOut,
            source => WindowsBackendError::RunnerLifecycle { source },
        }
    }
}

/// What the backend reports of a session is the failure that it had, under the name
/// of the part that failed, and under the session's own where no part did.
pub proof fn reports_keep_the_failure<E>(source: RunnerSessionError<E>)
    ensures
        match session_report(source) {
            WindowsBackendError::RunnerLaunch { source: told } => source
                == RunnerSessionError::<E>::Launch(told),
            WindowsBackendError::StandardStream(told) => source
                == RunnerSessionError::<E>::StandardStream(told),
            WindowsBackendError::RunnerProtocol(told) => source
                == RunnerSessionError::<E>::Protocol(told),
            WindowsBackendError::RunnerBoundary { source: told } => source
                == RunnerSessionError::<E>::Boundary(told),
            WindowsBackendError::RunnerFailure(told) => source
                == RunnerSessionError::<E>::RunnerFailure(told),
            WindowsBackendError::ProcessTimedOut => source is TimedOut,
            WindowsBackendError::RunnerLifecycle { source: told } => told == source && !(source
                is Launch || source is StandardStream || source is Protocol || source is Boundary
                || source is RunnerFailure || source is TimedOut),
            _ => false,
        },
{
}

} // verus!
