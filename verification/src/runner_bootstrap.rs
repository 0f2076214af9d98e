//! The clean process that creates a suspended runner and hands it over.

use vstd::prelude::*;

use crate::runner_boundary::{WAIT_FAILED, WAIT_OBJECT_0, WAIT_TIMEOUT};
use crate::runner_protocol;
use crate::runner_protocol::{RunnerMessage, RunnerMessageKind, WindowsRunnerFailure};
use crate::text;

verus! {

/// The argument by which the runner's program knows what it is to do.
pub const BOOTSTRAP_MODE: &'static str = "--cageforge-bootstrap";

/// The flag of a handle that a child gets.
pub const HANDLE_FLAG_INHERIT: u32 = 1;

/// Why the suspended runner was not handed over, with failures of the
/// transport of type `E`.
#[derive(Debug)]
#[allow(inconsistent_fields)]
pub enum BootstrapError<E> {
    /// The pipe for the report failed.
    Pipe(E),
    /// The transport failed.
    Protocol(E),
    /// The clean process reported a failure.
    RemoteFailure(WindowsRunnerFailure),
    /// The parent process could not be copied for the clean process.
    ParentHandleDuplicate {
        /// The native status.
        code: u32,
    },
    /// The credential record could not be copied for the clean process.
    CredentialHandleDuplicate {
        /// The native status.
        code: u32,
    },
    /// A copied handle is not one that a child gets.
    InvalidDuplicate,
    /// The size of the list of handles for the clean process could not be had.
    AttributeListSize {
        /// The native status.
        code: u32,
    },
    /// The list of handles for the clean process could not be set up.
    AttributeListInitialize {
        /// The native status.
        code: u32,
    },
    /// The list of handles for the clean process could not be filled.
    AttributeListApply {
        /// The native status.
        code: u32,
    },
    /// The clean process could not be started.
    ProcessStart {
        /// The native status.
        code: u32,
    },
    /// The native information on the clean process is not complete.
    InvalidProcessInformation,
    /// The clean process ended before it reported.
    ExitedBeforeReport {
        /// Its exit code.
        exit_code: u32,
    },
    /// The exit code of the clean process could not be read.
    ExitCodeRead {
        /// The native status.
        code: u32,
    },
    /// The clean process said something else.
    UnexpectedMessage {
        /// What.
        actual: RunnerMessageKind,
    },
    /// What was reported of the suspended runner cannot be.
    InvalidReport,
    /// The clean process did not end in time.
    ExitTimeout,
    /// The clean process could not be waited for.
    ExitWait {
        /// The native status.
        code: u32,
    },
    /// The wait for the clean process ended in a way that cannot be.
    ExitWaitUnexpected {
        /// The result of the wait.
        result: u32,
    },
}

/// The arguments of the clean process.
pub open spec fn arguments(
    runner: Seq<char>,
    report_name: Seq<char>,
    parent_handle: u64,
    credential_handle: u64,
    credential_sha256: Seq<char>,
    account_name: Seq<char>,
    request_name: Seq<char>,
    response_name: Seq<char>,
    working_directory: Seq<char>,
) -> Seq<Seq<char>> {
    seq![
        runner,
        BOOTSTRAP_MODE@,
        report_name,
        text::decimal(parent_handle as nat),
        text::decimal(credential_handle as nat),
        credential_sha256,
        account_name,
        request_name,
        response_name,
        working_directory,
    ]
}

/// The arguments of the clean process.
pub fn bootstrap_arguments(
    runner: &str,
    report_name: &str,
    parent_handle: u64,
    credential_handle: u64,
    credential_sha256: &str,
    account_name: &str,
    request_name: &str,
    response_name: &str,
    working_directory: &str,
) -> (list: Vec<String>)
    ensures
        text::texts(list@) == arguments(
            runner@,
            report_name@,
            parent_handle,
            credential_handle,
            credential_sha256@,
            account_name@,
            request_name@,
            response_name@,
            working_directory@,
        ),
{
    let mut list: Vec<String> = Vec::new();
    list.push(runner.to_owned());
    list.push(BOOTSTRAP_MODE.to_owned());
    list.push(report_name.to_owned());
    list.push(text::decimal_text(parent_handle));
    list.push(text::decimal_text(credential_handle));
    list.push(credential_sha256.to_owned());
    list.push(account_name.to_owned());
    list.push(request_name.to_owned());
    list.push(response_name.to_owned());
    list.push(working_directory.to_owned());
    assert(text::texts(list@) =~= arguments(
        runner@,
        report_name@,
        parent_handle,
        credential_handle,
        credential_sha256@,
        account_name@,
        request_name@,
        response_name@,
        working_directory@,
    ));
    list
}

/// Texts with a space between them, the first `n` of them.
pub open spec fn spaced(parts: Seq<Seq<char>>, n: int) -> Seq<char>
    decreases n,
{
    if n <= 0 {
        Seq::empty()
    } else if n == 1 {
        parts[0]
    } else {
        spaced(parts, n - 1) + " "@ + parts[n - 1]
    }
}

/// A command line of quoted arguments.
pub fn command_line(quoted: &Vec<String>) -> (line: String)
    ensures
        line@ == spaced(text::texts(quoted@), quoted@.len() as int),
{
    let ghost parts = text::texts(quoted@);
    let mut line = String::new();
    for i in 0..quoted.len()
        invariant
            parts == text::texts(quoted@),
            line@ == spaced(parts, i as int),
    {
        assert(parts[i as int] == quoted@[i as int]@);
        if i > 0 {
            line.append(" ");
            line.append(quoted[i].as_str());
        } else {
            line.append(quoted[i].as_str());
            assert(line@ =~= parts[0]);
        }
    }
    line
}

/// A suspended runner.
#[derive(Debug)]
pub struct BootstrapResult {
    /// The process, as a number here.
    pub process: usize,
    /// Its first thread, as a number here.
    pub thread: usize,
    /// The process.
    pub process_id: u32,
    /// The session that it belongs to.
    pub logon_sid: String,
}

/// Whether what was reported of a suspended runner can be.
pub open spec fn is_valid_report(
    process_id: u32,
    process_handle: u64,
    thread_handle: u64,
    logon_sid: Seq<char>,
) -> bool {
    &&& process_id != 0
    &&& 0 < process_handle <= usize::MAX
    &&& 0 < thread_handle <= usize::MAX
    &&& logon_sid.len() > 0
    &&& !logon_sid.contains('\0')
}

/// The suspended runner that was reported.
pub fn bootstrap_result<E>(
    process_id: u32,
    process_handle: u64,
    thread_handle: u64,
    logon_sid: String,
) -> (result: Result<BootstrapResult, BootstrapError<E>>)
    ensures
        match result {
            Ok(runner) => {
                &&& is_valid_report(process_id, process_handle, thread_handle, logon_sid@)
                &&& runner.process == process_handle
                &&& runner.thread == thread_handle
                &&& runner.process_id == process_id
                &&& runner.logon_sid@ == logon_sid@
            },
            Err(error) => {
                &&& error is InvalidReport
                &&& !is_valid_report(process_id, process_handle, thread_handle, logon_sid@)
            },
        },
{
    if process_handle > usize::MAX as u64 || thread_handle > usize::MAX as u64 {
        return Err(BootstrapError::InvalidReport);
    }
    if process_id == 0 || process_handle == 0 || thread_handle == 0 || logon_sid.as_str().is_empty()
        || contains_nul(logon_sid.as_str()) {
        return Err(BootstrapError::InvalidReport);
    }
    Ok(
        BootstrapResult {
            process: process_handle as usize,
            thread: thread_handle as usize,
            process_id,
            logon_sid,
        },
    )
}

/// Whether a text holds a zero character.
fn contains_nul(value: &str) -> (yes: bool)
    ensures
        yes == value@.contains('\0'),
{
    let chars = text::chars_of(value);
    for i in 0..chars.len()
        invariant
            chars@ == value@,
            forall|j: int| 0 <= j < i ==> chars@[j] != '\0',
    {
        if chars[i] == '\0' {
            assert(value@[i as int] == '\0');
            return true;
        }
    }
    false
}

/// How the clean process ended after a wait, if it ended.
pub open spec fn exit_of<E>(result: u32, last_error: u32, exit_code: Result<u32, u32>) -> Result<
    Option<u32>,
    BootstrapError<E>,
> {
    if result == WAIT_TIMEOUT {
        Ok(None)
    } else if result == WAIT_OBJECT_0 {
        match exit_code {
            Ok(code) => Ok(Some(code)),
            Err(code) => Err(BootstrapError::ExitCodeRead { code }),
        }
    } else if result == WAIT_FAILED {
        Err(BootstrapError::ExitWait { code: last_error })
    } else {
        Err(BootstrapError::ExitWaitUnexpected { result })
    }
}

/// How the clean process ended, if it ended.
pub fn bootstrap_exit_code<E>(result: u32, last_error: u32, exit_code: Result<u32, u32>) -> (exit:
    Result<Option<u32>, BootstrapError<E>>)
    ensures
        exit == exit_of::<E>(result, last_error, exit_code),
{
    if result == WAIT_TIMEOUT {
        Ok(None)
    } else if result == WAIT_OBJECT_0 {
        match exit_code {
            Ok(code) => Ok(Some(code)),
            Err(code) => Err(BootstrapError::ExitCodeRead { code }),
        }
    } else if result == WAIT_FAILED {
        Err(BootstrapError::ExitWait { code: last_error })
    } else {
        Err(BootstrapError::ExitWaitUnexpected { result })
    }
}

/// Whether the clean process ended in time.
pub fn bootstrap_finished<E>(result: u32, last_error: u32) -> (finished: Result<
    (),
    BootstrapError<E>,
>)
    ensures
        match finished {
            Ok(_) => result == WAIT_OBJECT_0,
            Err(error) => result != WAIT_OBJECT_0 && error == (if result == WAIT_TIMEOUT {
                BootstrapError::<E>::ExitTimeout
            } else if result == WAIT_FAILED {
                BootstrapError::<E>::ExitWait { code: last_error }
            } else {
                BootstrapError::<E>::ExitWaitUnexpected { result }
            }),
        },
{
    if result == WAIT_OBJECT_0 {
        Ok(())
    } else if result == WAIT_TIMEOUT {
        Err(BootstrapError::ExitTimeout)
    } else if result == WAIT_FAILED {
        Err(BootstrapError::ExitWait { code: last_error })
    } else {
        Err(BootstrapError::ExitWaitUnexpected { result })
    }
}

/// What the clean process reported, and what that means where it could be
/// read; where it could not, its exit may say more.
pub fn read_report<E>(
    report: Result<RunnerMessage, E>,
    exit: Result<Option<u32>, BootstrapError<E>>,
) -> (result: Result<BootstrapResult, BootstrapError<E>>)
    ensures
        match report {
            Ok(RunnerMessage::BootstrapRunner {
                process_id,
                process_handle,
                thread_handle,
                logon_sid,
            }) => match result {
                Ok(runner) => {
                    &&& is_valid_report(process_id, process_handle, thread_handle, logon_sid@)
                    &&& runner.process == process_handle
                    &&& runner.thread == thread_handle
                    &&& runner.process_id == process_id
                    &&& runner.logon_sid@ == logon_sid@
                },
                Err(error) => {
                    &&& error is InvalidReport
                    &&& !is_valid_report(process_id, process_handle, thread_handle, logon_sid@)
                },
            },
            Ok(RunnerMessage::Failed { failure }) => result == Err::<
                BootstrapResult,
                BootstrapError<E>,
            >(BootstrapError::RemoteFailure(failure)),
            Ok(other) => result == Err::<BootstrapResult, BootstrapError<E>>(
                BootstrapError::UnexpectedMessage { actual: runner_protocol::kind_of(other) },
            ),
            Err(error) => result == Err::<BootstrapResult, BootstrapError<E>>(
                match exit {
                    Err(failure) => failure,
                    Ok(Some(exit_code)) => BootstrapError::ExitedBeforeReport { exit_code },
                    Ok(None) => BootstrapError::Protocol(error),
                },
            ),
        },
{
    match report {
        Ok(RunnerMessage::BootstrapRunner {
            process_id,
            process_handle,
            thread_handle,
            logon_sid,
        }) => bootstrap_result(process_id, process_handle, thread_handle, logon_sid),
        Ok(RunnerMessage::Failed { failure }) => Err(BootstrapError::RemoteFailure(failure)),
        Ok(other) => Err(BootstrapError::UnexpectedMessage { actual: other.kind() }),
        Err(error) => Err(
            match exit {
                Err(failure) => failure,
                Ok(Some(exit_code)) => BootstrapError::ExitedBeforeReport { exit_code },
                Ok(None) => BootstrapError::Protocol(error),
            },
        ),
    }
}

/// What the hand-over comes to: a clean process that did not end well is told
/// before what it reported.
pub fn conclude<E>(
    finished: Result<(), BootstrapError<E>>,
    report: Result<BootstrapResult, BootstrapError<E>>,
) -> (result: Result<BootstrapResult, BootstrapError<E>>)
    ensures
        result == (match finished {
            Err(error) => Err::<BootstrapResult, BootstrapError<E>>(error),
            Ok(_) => report,
        }),
{
    match finished {
        Err(error) => Err(error),
        Ok(_) => report,
    }
}

/// The handles that the clean process gets.
#[derive(Clone, Copy, Debug, PartialEq, Eq, Structural)]
pub enum BootstrapHandle {
    /// The parent process.
    Parent,
    /// The credential record.
    Credential,
}

/// Why a handle of the clean process could not be copied.
pub open spec fn duplicate_failure<E>(handle: BootstrapHandle, code: u32) -> BootstrapError<E> {
    match handle {
        BootstrapHandle::Parent => BootstrapError::ParentHandleDuplicate { code },
        BootstrapHandle::Credential => BootstrapError::CredentialHandleDuplicate { code },
    }
}

/// A handle that was copied so that a child gets it.
pub fn verify_inheritable<E>(
    handle: BootstrapHandle,
    duplicate: Result<u64, u32>,
    flags: Result<u32, u32>,
) -> (result: Result<u64, BootstrapError<E>>)
    ensures
        result == (match duplicate {
            Err(code) => Err::<u64, BootstrapError<E>>(duplicate_failure(handle, code)),
            Ok(copied) => if copied != 0 && flags == Ok::<u32, u32>(HANDLE_FLAG_INHERIT) {
                Ok(copied)
            } else {
                Err(BootstrapError::InvalidDuplicate)
            },
        }),
{
    match duplicate {
        Err(code) => Err(
            match handle {
                BootstrapHandle::Parent => BootstrapError::ParentHandleDuplicate { code },
                BootstrapHandle::Credential => BootstrapError::CredentialHandleDuplicate { code },
            },
        ),
        Ok(copied) => {
            if copied == 0 {
                return Err(BootstrapError::InvalidDuplicate);
            }
            match flags {
                Ok(flags) => if flags == HANDLE_FLAG_INHERIT {
                    Ok(copied)
                } else {
                    Err(BootstrapError::InvalidDuplicate)
                },
                Err(_) => Err(BootstrapError::InvalidDuplicate),
            }
        },
    }
}

/// A report names a runner only where every part of it does: a process, two
/// handles that fit, and a logon identity that is written out and can be passed on.
pub proof fn valid_reports_are_complete(
    process_id: u32,
    process_handle: u64,
    thread_handle: u64,
    logon_sid: Seq<char>,
)
    requires
        is_valid_report(process_id, process_handle, thread_handle, logon_sid),
    ensures
        process_id > 0,
        process_handle > 0,
        thread_handle > 0,
        logon_sid.len() > 0,
        forall|i: int| 0 <= i < logon_sid.len() ==> #[trigger] logon_sid[i] != '\0',
{
    assert forall|i: int| 0 <= i < logon_sid.len() implies #[trigger] logon_sid[i] != '\0' by {
        if logon_sid[i] == '\0' {
            assert(logon_sid.contains('\0'));
        }
    }
}

/// The clean process has ended only where its handle was signalled and its code could
/// be had; where the wait timed out it still runs.
pub proof fn clean_process_ends_are_signalled<E>(
    result: u32,
    last_error: u32,
    exit_code: Result<u32, u32>,
    code: u32,
)
    ensures
        exit_of::<E>(result, last_error, exit_code) == Ok::<Option<u32>, BootstrapError<E>>(
            Some(code),
        ) <==> result == 0 && exit_code == Ok::<u32, u32>(code),
        exit_of::<E>(result, last_error, exit_code) == Ok::<Option<u32>, BootstrapError<E>>(None)
            <==> result == 258,
        exit_of::<E>(result, last_error, exit_code) matches Err(error) ==> match error {
            BootstrapError::ExitCodeRead { code } => result == 0 && exit_code == Err::<u32, u32>(
                code,
            ),
            BootstrapError::ExitWait { code } => result == u32::MAX && code == last_error,
            BootstrapError::ExitWaitUnexpected { result: told } => told == result && result != 0
                && result != 258 && result != u32::MAX,
            _ => false,
        },
{
}

/// A command line is its parts with one space between each two.
pub proof fn command_lines_are_spaced(parts: Seq<Seq<char>>, n: int)
    requires
        1 < n <= parts.len(),
    ensures
        spaced(parts, n).len() == spaced(parts, n - 1).len() + 1 + parts[n - 1].len(),
        spaced(parts, n).take(spaced(parts, n - 1).len() as int) == spaced(parts, n - 1),
        spaced(parts, n)[spaced(parts, n - 1).len() as int] == ' ',
        spaced(parts, n).skip((spaced(parts, n - 1).len() + 1) as int) == parts[n - 1],
        spaced(parts, 1) == parts[0],
{
    reveal_strlit(" ");
    let before = spaced(parts, n - 1);
    let all = spaced(parts, n);
    assert(all.take(before.len() as int) =~= before);
    assert(all.skip((before.len() + 1) as int) =~= parts[n - 1]);
}

} // verus!
