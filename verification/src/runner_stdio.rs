//! The standard streams of a child.

use vstd::prelude::*;

use crate::acl_entries::{FILE_GENERIC_READ, FILE_GENERIC_WRITE};
use crate::runner_boundary::RunnerHandleDuplicateError;

verus! {

/// A standard stream.
#[derive(Clone, Copy, Debug, PartialEq, Eq, Structural)]
pub enum StandardStream {
    /// Standard input.
    Stdin,
    /// Standard output.
    Stdout,
    /// Standard error.
    Stderr,
}

impl StandardStream {
    /// The name of the stream.
    pub fn name(self) -> (name: &'static str)
        ensures
            name@ == (match self {
                StandardStream::Stdin => "stdin"@,
                StandardStream::Stdout => "stdout"@,
                StandardStream::Stderr => "stderr"@,
            }),
    {
        match self {
            StandardStream::Stdin => "stdin",
            StandardStream::Stdout => "stdout",
            StandardStream::Stderr => "stderr",
        }
    }
}

/// Where a standard stream goes.
#[derive(Clone, Copy, Debug, PartialEq, Eq, Structural)]
pub enum StdioMode {
    /// To a pipe.
    Pipe,
    /// Where the backend's own stream goes.
    Inherit,
    /// Nowhere.
    Null,
}

/// Failure while preparing one explicit Windows standard-stream handle.
#[derive(Clone, Copy, Debug, PartialEq, Eq, Structural)]
#[allow(inconsistent_fields)]
pub enum WindowsStandardStreamError {
    /// Windows could not create an anonymous pipe for the requested stream.
    PipeCreate {
        /// The stream.
        stream: StandardStream,
        /// Native Windows error code.
        code: u32,
    },
    /// Windows returned an incomplete anonymous pipe pair.
    InvalidPipe {
        /// The stream.
        stream: StandardStream,
    },
    /// The current process has no handle associated with an inherited stream.
    MissingInheritedHandle {
        /// The stream.
        stream: StandardStream,
    },
    /// Windows rejected the inherited standard-handle query.
    InheritedHandleQuery {
        /// The stream.
        stream: StandardStream,
        /// Native Windows error code.
        code: u32,
    },
    /// Windows could not open `NUL` with the direction required by the stream.
    NullOpen {
        /// The stream.
        stream: StandardStream,
        /// Native Windows error code.
        code: u32,
    },
    /// Windows could not duplicate the prepared handle into the pinned runner process.
    HandleDuplicate {
        /// The stream.
        stream: StandardStream,
        /// Native Windows error code.
        code: u32,
    },
    /// Windows reported success without returning a target-process handle value.
    InvalidHandleDuplicate {
        /// The stream.
        stream: StandardStream,
    },
}

/// What is done for a stream.
#[derive(Clone, Copy, Debug, PartialEq, Eq, Structural)]
pub enum StreamPlan {
    /// A pipe is created: one end is the child's, the other the backend's.
    CreatePipe {
        /// Whether the child gets the end to read from.
        child_reads: bool,
    },
    /// The backend's own handle is used.
    Inherited,
    /// `NUL` is opened with some rights.
    OpenNull {
        /// The rights.
        access: u32,
    },
}

/// What is done for a stream: input is read by the child, output written.
pub fn plan_stream(stream: StandardStream, mode: StdioMode) -> (plan: StreamPlan)
    ensures
        plan == (match mode {
            StdioMode::Pipe => StreamPlan::CreatePipe { child_reads: stream is Stdin },
            StdioMode::Inherit => StreamPlan::Inherited,
            StdioMode::Null => StreamPlan::OpenNull {
                access: if stream is Stdin {
                    FILE_GENERIC_READ
                } else {
                    FILE_GENERIC_WRITE
                },
            },
        }),
{
    let input = match stream {
        StandardStream::Stdin => true,
        _ => false,
    };
    match mode {
        StdioMode::Pipe => StreamPlan::CreatePipe { child_reads: input },
        StdioMode::Inherit => StreamPlan::Inherited,
        StdioMode::Null => StreamPlan::OpenNull {
            access: if input {
                FILE_GENERIC_READ
            } else {
                FILE_GENERIC_WRITE
            },
        },
    }
}

/// The ends of a pipe as the child's and the backend's, where a zero stands
/// for no handle.
pub fn split_pipe(stream: StandardStream, created: Result<(u64, u64), u32>) -> (result: Result<
    (u64, u64),
    WindowsStandardStreamError,
>)
    ensures
        result == (match created {
            Err(code) => Err::<(u64, u64), WindowsStandardStreamError>(
                WindowsStandardStreamError::PipeCreate { stream, code },
            ),
            Ok((read, write)) => if read == 0 || write == 0 {
                Err(WindowsStandardStreamError::InvalidPipe { stream })
            } else if stream is Stdin {
                Ok((read, write))
            } else {
                Ok((write, read))
            },
        }),
{
    match created {
        Err(code) => Err(WindowsStandardStreamError::PipeCreate { stream, code }),
        Ok((read, write)) => {
            if read == 0 || write == 0 {
                return Err(WindowsStandardStreamError::InvalidPipe { stream });
            }
            match stream {
                StandardStream::Stdin => Ok((read, write)),
                _ => Ok((write, read)),
            }
        },
    }
}

/// The backend's own handle of a stream, where zero stands for none.
pub fn inherited_source(stream: StandardStream, queried: Result<u64, u32>) -> (result: Result<
    u64,
    WindowsStandardStreamError,
>)
    ensures
        result == (match queried {
            Err(code) => Err::<u64, WindowsStandardStreamError>(
                WindowsStandardStreamError::InheritedHandleQuery { stream, code },
            ),
            Ok(handle) => if handle == 0 {
                Err(WindowsStandardStreamError::MissingInheritedHandle { stream })
            } else {
                Ok(handle)
            },
        }),
{
    match queried {
        Err(code) => Err(WindowsStandardStreamError::InheritedHandleQuery { stream, code }),
        Ok(handle) => if handle == 0 {
            Err(WindowsStandardStreamError::MissingInheritedHandle { stream })
        } else {
            Ok(handle)
        },
    }
}

/// An opened `NUL`.
pub fn open_null(stream: StandardStream, opened: Result<u64, u32>) -> (result: Result<
    u64,
    WindowsStandardStreamError,
>)
    ensures
        result == (match opened {
            Err(code) => Err::<u64, WindowsStandardStreamError>(
                WindowsStandardStreamError::NullOpen { stream, code },
            ),
            Ok(handle) => Ok(handle),
        }),
{
    match opened {
        Err(code) => Err(WindowsStandardStreamError::NullOpen { stream, code }),
        Ok(handle) => Ok(handle),
    }
}

/// A stream's handle in the runner.
pub fn duplicate_source(
    stream: StandardStream,
    duplicated: Result<u64, RunnerHandleDuplicateError>,
) -> (result: Result<u64, WindowsStandardStreamError>)
    ensures
        result == (match duplicated {
            Ok(handle) => Ok::<u64, WindowsStandardStreamError>(handle),
            Err(RunnerHandleDuplicateError::Duplicate { code }) => Err(
                WindowsStandardStreamError::HandleDuplicate { stream, code },
            ),
            Err(RunnerHandleDuplicateError::InvalidDuplicate) => Err(
                WindowsStandardStreamError::InvalidHandleDuplicate { stream },
            ),
        }),
{
    match duplicated {
        Ok(handle) => Ok(handle),
        Err(RunnerHandleDuplicateError::Duplicate { code }) => Err(
            WindowsStandardStreamError::HandleDuplicate { stream, code },
        ),
        Err(RunnerHandleDuplicateError::InvalidDuplicate) => Err(
            WindowsStandardStreamError::InvalidHandleDuplicate { stream },
        ),
    }
}

} // verus!
