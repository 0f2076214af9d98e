//! The boundary around a command: the job that holds all its processes, and
//! the runner that starts them.

use vstd::prelude::*;

verus! {

/// The wait ended because what was waited for ended.
pub const WAIT_OBJECT_0: u32 = 0;

/// The wait ended because of the time.
pub const WAIT_TIMEOUT: u32 = 258;

/// The wait failed.
pub const WAIT_FAILED: u32 = 0xffff_ffff;

/// A job whose processes end when it is closed.
pub const JOB_OBJECT_LIMIT_KILL_ON_JOB_CLOSE: u32 = 0x2000;

/// A job whose processes are cut off from the user interface.
pub const JOB_OBJECT_UILIMIT_ALL: u32 = 511;

/// Why a job cannot be used.
#[derive(Clone, Copy, Debug, PartialEq, Eq, Structural)]
#[allow(inconsistent_fields)]
pub enum ParentJobError {
    /// It could not be created.
    Create {
        /// The native status.
        code: u32,
    },
    /// It could not be made to end its processes.
    Configure {
        /// The native status.
        code: u32,
    },
    /// It could not be cut off from the user interface.
    UiConfigure {
        /// The native status.
        code: u32,
    },
    /// Its limits could not be read.
    ReadBack {
        /// The native status.
        code: u32,
    },
    /// Its user-interface limits could not be read.
    UiReadBack {
        /// The native status.
        code: u32,
    },
    /// Its limits are others.
    LimitMismatch,
    /// Its user-interface limits are others.
    UiLimitMismatch,
    /// It could not be handed to the runner.
    DuplicateAssignOnly {
        /// The native status.
        code: u32,
    },
    /// What was handed to the runner is nothing.
    InvalidDuplicate,
    /// Its processes could not be terminated.
    Terminate {
        /// The native status.
        code: u32,
    },
    /// The number of its processes could not be read.
    ActiveProcessRead {
        /// The native status.
        code: u32,
    },
    /// The record with the number of its processes is cut short.
    ActiveProcessReadBack,
    /// Some of its processes did not end in time.
    TerminationTimeout {
        /// How many.
        active_processes: u32,
    },
}

/// Why the boundary fails.
#[derive(Clone, Copy, Debug, PartialEq, Eq, Structural)]
#[allow(inconsistent_fields)]
pub enum ParentBoundaryError {
    /// The job fails.
    Job(ParentJobError),
    /// The runner's handle could not be copied.
    RunnerDuplicate {
        /// The native status.
        code: u32,
    },
    /// The copy of the runner's handle is nothing.
    InvalidRunnerDuplicate,
    /// The state was left behind by a panic.
    StatePoisoned,
    /// The runner could not be terminated.
    RunnerTerminate {
        /// The native status.
        code: u32,
    },
    /// The runner could not be waited for.
    RunnerWait {
        /// The native status.
        code: u32,
    },
    /// The wait for the runner ended in a way that cannot be.
    RunnerWaitUnexpected {
        /// The result of the wait.
        result: u32,
    },
    /// The runner did not end in time.
    RunnerTerminationTimeout,
    /// The runner's exit code could not be read.
    RunnerExitCode {
        /// The native status.
        code: u32,
    },
    /// The child could not be opened.
    ChildProcessOpen {
        /// The child.
        process_id: u32,
        /// The native status.
        code: u32,
    },
    /// Whether the child is in the job could not be found out.
    ChildJobQuery {
        /// The child.
        process_id: u32,
        /// The native status.
        code: u32,
    },
    /// The child is not in the job.
    ChildOutsideJob {
        /// The child.
        process_id: u32,
    },
}

/// Why a handle could not be copied into the runner.
#[derive(Clone, Copy, Debug, PartialEq, Eq, Structural)]
pub enum RunnerHandleDuplicateError {
    /// The copy failed.
    Duplicate {
        /// The native status.
        code: u32,
    },
    /// The copy is nothing.
    InvalidDuplicate,
}

/// How long a wait is, in milliseconds, that must not be without end.
pub fn wait_milliseconds(timeout: u128) -> (milliseconds: u32)
    ensures
        milliseconds == (if timeout < u32::MAX - 1 {
            timeout as u32
        } else {
            (u32::MAX - 1) as u32
        }),
{
    if timeout < (u32::MAX - 1) as u128 {
        timeout as u32
    } else {
        u32::MAX - 1
    }
}

/// The runner's exit code after a wait, if the runner ended, where the last
/// native status and the read of the exit code are given.
pub open spec fn waited(result: u32, last_error: u32, exit_code: Result<u32, u32>) -> Result<
    Option<u32>,
    ParentBoundaryError,
> {
    if result == WAIT_TIMEOUT {
        Ok(None)
    } else if result == WAIT_OBJECT_0 {
        match exit_code {
            Ok(code) => Ok(Some(code)),
            Err(code) => Err(ParentBoundaryError::RunnerExitCode { code }),
        }
    } else if result == WAIT_FAILED {
        Err(ParentBoundaryError::RunnerWait { code: last_error })
    } else {
        Err(ParentBoundaryError::RunnerWaitUnexpected { result })
    }
}

/// The runner's exit code after a wait, if the runner ended.
pub fn wait_runner(result: u32, last_error: u32, exit_code: Result<u32, u32>) -> (outcome: Result<
    Option<u32>,
    ParentBoundaryError,
>)
    ensures
        outcome == waited(result, last_error, exit_code),
{
    if result == WAIT_TIMEOUT {
        Ok(None)
    } else if result == WAIT_OBJECT_0 {
        match exit_code {
            Ok(code) => Ok(Some(code)),
            Err(code) => Err(ParentBoundaryError::RunnerExitCode { code }),
        }
    } else if result == WAIT_FAILED {
        Err(ParentBoundaryError::RunnerWait { code: last_error })
    } else {
        Err(ParentBoundaryError::RunnerWaitUnexpected { result })
    }
}

/// Whether a child is in the job, where the child was opened, there is a job
/// or not, and the question was asked.
pub open spec fn membership(
    process_id: u32,
    opened: Result<(), u32>,
    has_job: bool,
    assigned: Result<bool, u32>,
) -> Option<ParentBoundaryError> {
    if opened is Err {
        Some(ParentBoundaryError::ChildProcessOpen { process_id, code: opened->Err_0 })
    } else if !has_job {
        Some(ParentBoundaryError::ChildOutsideJob { process_id })
    } else {
        match assigned {
            Err(code) => Some(ParentBoundaryError::ChildJobQuery { process_id, code }),
            Ok(true) => None,
            Ok(false) => Some(ParentBoundaryError::ChildOutsideJob { process_id }),
        }
    }
}

/// Whether a child is in the job.
pub fn verify_child_job_membership(
    process_id: u32,
    opened: Result<(), u32>,
    has_job: bool,
    assigned: Result<bool, u32>,
) -> (result: Result<(), ParentBoundaryError>)
    ensures
        match (membership(process_id, opened, has_job, assigned), result) {
            (None, Ok(_)) => true,
            (Some(failure), Err(error)) => error == failure,
            _ => false,
        },
{
    match opened {
        Err(code) => {
            return Err(ParentBoundaryError::ChildProcessOpen { process_id, code });
        },
        Ok(_) => {},
    }
    if !has_job {
        return Err(ParentBoundaryError::ChildOutsideJob { process_id });
    }
    match assigned {
        Err(code) => Err(ParentBoundaryError::ChildJobQuery { process_id, code }),
        Ok(true) => Ok(()),
        Ok(false) => Err(ParentBoundaryError::ChildOutsideJob { process_id }),
    }
}

/// A record that was read of a job: how much was written, how large the
/// record is, and the number in it.
#[derive(Clone, Copy, Debug, PartialEq, Eq, Structural)]
pub struct JobRecord {
    /// How many bytes were written.
    pub returned: u32,
    /// How many bytes the record has.
    pub size: u32,
    /// The number.
    pub value: u32,
}

impl JobRecord {
    /// Whether the record is complete and holds a number.
    pub open spec fn holds(self, value: u32) -> bool {
        self.returned >= self.size && self.value == value
    }
}

/// Why the limits of a job are not exactly those that it has to have.
pub open spec fn limits_failure(
    limits: Result<JobRecord, u32>,
    ui_limits: Result<JobRecord, u32>,
) -> Option<ParentJobError> {
    match limits {
        Err(code) => Some(ParentJobError::ReadBack { code }),
        Ok(record) => if !record.holds(JOB_OBJECT_LIMIT_KILL_ON_JOB_CLOSE) {
            Some(ParentJobError::LimitMismatch)
        } else {
            match ui_limits {
                Err(code) => Some(ParentJobError::UiReadBack { code }),
                Ok(record) => if !record.holds(JOB_OBJECT_UILIMIT_ALL) {
                    Some(ParentJobError::UiLimitMismatch)
                } else {
                    None
                },
            }
        },
    }
}

/// Whether the limits of a job are exactly those that it has to have: its
/// processes end with it, and have no part in the user interface.
pub fn verify_limits(limits: Result<JobRecord, u32>, ui_limits: Result<JobRecord, u32>) -> (result:
    Result<(), ParentJobError>)
    ensures
        match (limits_failure(limits, ui_limits), result) {
            (None, Ok(_)) => true,
            (Some(failure), Err(error)) => error == failure,
            _ => false,
        },
{
    match limits {
        Err(code) => {
            return Err(ParentJobError::ReadBack { code });
        },
        Ok(record) => {
            if record.returned < record.size || record.value
                != JOB_OBJECT_LIMIT_KILL_ON_JOB_CLOSE {
                return Err(ParentJobError::LimitMismatch);
            }
        },
    }
    match ui_limits {
        Err(code) => Err(ParentJobError::UiReadBack { code }),
        Ok(record) => if record.returned < record.size || record.value != JOB_OBJECT_UILIMIT_ALL {
            Err(ParentJobError::UiLimitMismatch)
        } else {
            Ok(())
        },
    }
}

/// How many processes a job has, where the record was read.
pub open spec fn active(record: Result<JobRecord, u32>) -> Result<u32, ParentJobError> {
    match record {
        Err(code) => Err(ParentJobError::ActiveProcessRead { code }),
        Ok(record) => if record.returned < record.size {
            Err(ParentJobError::ActiveProcessReadBack)
        } else {
            Ok(record.value)
        },
    }
}

/// Whether a terminated job is empty; while it is not, whether to look again
/// is a matter of time.
pub fn wait_until_empty(record: Result<JobRecord, u32>, past_deadline: bool) -> (result: Result<
    bool,
    ParentJobError,
>)
    ensures
        result == (match active(record) {
            Err(error) => Err::<bool, ParentJobError>(error),
            Ok(active_processes) => if active_processes == 0 {
                Ok(true)
            } else if past_deadline {
                Err(ParentJobError::TerminationTimeout { active_processes })
            } else {
                Ok(false)
            },
        }),
{
    match record {
        Err(code) => Err(ParentJobError::ActiveProcessRead { code }),
        Ok(record) => if record.returned < record.size {
            Err(ParentJobError::ActiveProcessReadBack)
        } else if record.value == 0 {
            Ok(true)
        } else if past_deadline {
            Err(ParentJobError::TerminationTimeout { active_processes: record.value })
        } else {
            Ok(false)
        },
    }
}

/// A handle that was copied into the runner, as a number there.
pub fn verify_duplicate(duplicate: Result<u64, u32>) -> (result: Result<
    u64,
    RunnerHandleDuplicateError,
>)
    ensures
        result == (match duplicate {
            Err(code) => Err::<u64, RunnerHandleDuplicateError>(
                RunnerHandleDuplicateError::Duplicate { code },
            ),
            Ok(handle) => if handle == 0 {
                Err(RunnerHandleDuplicateError::InvalidDuplicate)
            } else {
                Ok(handle)
            },
        }),
{
    match duplicate {
        Err(code) => Err(RunnerHandleDuplicateError::Duplicate { code }),
        Ok(handle) => if handle == 0 {
            Err(RunnerHandleDuplicateError::InvalidDuplicate)
        } else {
            Ok(handle)
        },
    }
}

/// The next step of terminating the runner, or how it ended.
#[derive(Clone, Copy, Debug, PartialEq, Eq, Structural)]
pub enum RunnerTermination {
    /// Find out whether the runner ended.
    Find,
    /// Terminate it.
    Terminate,
    /// Wait for it.
    Wait,
    /// It ended.
    Ended,
    /// It could not be terminated.
    Failed(ParentBoundaryError),
}

/// What came of a step.
#[derive(Clone, Copy, Debug)]
pub enum TerminationEvent {
    /// The runner's exit code, if it ended.
    Waited(Result<Option<u32>, ParentBoundaryError>),
    /// The runner was terminated, or the native status.
    Terminated(Result<(), u32>),
}

impl RunnerTermination {
    /// Whether an event can come of the step.
    pub open spec fn expects(self, event: TerminationEvent) -> bool {
        match self {
            RunnerTermination::Find | RunnerTermination::Wait => event is Waited,
            RunnerTermination::Terminate => event is Terminated,
            _ => false,
        }
    }

    /// The step after an event.
    pub open spec fn after(self, event: TerminationEvent) -> RunnerTermination {
        match event {
            TerminationEvent::Waited(Err(error)) => RunnerTermination::Failed(error),
            TerminationEvent::Waited(Ok(Some(_))) => RunnerTermination::Ended,
            TerminationEvent::Waited(Ok(None)) => if self is Find {
                RunnerTermination::Terminate
            } else {
                RunnerTermination::Failed(ParentBoundaryError::RunnerTerminationTimeout)
            },
            TerminationEvent::Terminated(Ok(_)) => RunnerTermination::Wait,
            TerminationEvent::Terminated(Err(code)) => RunnerTermination::Failed(
                ParentBoundaryError::RunnerTerminate { code },
            ),
        }
    }

    /// Takes the step after an event.
    pub fn advance(self, event: TerminationEvent) -> (step: RunnerTermination)
        requires
            self.expects(event),
        ensures
            step == self.after(event),
    {
        match event {
            TerminationEvent::Waited(Err(error)) => RunnerTermination::Failed(error),
            TerminationEvent::Waited(Ok(Some(_))) => RunnerTermination::Ended,
            TerminationEvent::Waited(Ok(None)) => match self {
                RunnerTermination::Find => RunnerTermination::Terminate,
                _ => RunnerTermination::Failed(ParentBoundaryError::RunnerTerminationTimeout),
            },
            TerminationEvent::Terminated(Ok(_)) => RunnerTermination::Wait,
            TerminationEvent::Terminated(Err(code)) => RunnerTermination::Failed(
                ParentBoundaryError::RunnerTerminate { code },
            ),
        }
    }
}

/// The runner counts as ended only where its exit code was seen.
pub proof fn ended_runner_was_seen_to_end(step: RunnerTermination, event: TerminationEvent)
    requires
        step.expects(event),
        step.after(event) is Ended,
    ensures
        event matches TerminationEvent::Waited(Ok(exit)) && exit is Some,
{
}

/// Whether the boundary still has its job.
#[derive(Debug)]
pub struct BoundaryState {
    /// Whether it has.
    pub has_job: bool,
}

impl BoundaryState {
    /// Takes note of how the job was terminated. A job that could not be
    /// terminated is closed, which ends its processes; without a job there is
    /// nothing to terminate.
    pub fn terminate_job(&mut self, terminated: Result<(), ParentJobError>) -> (result: Result<
        (),
        ParentBoundaryError,
    >)
        ensures
            match terminated {
                Err(error) => if old(self).has_job {
                    !final(self).has_job && result == Err::<(), ParentBoundaryError>(
                        ParentBoundaryError::Job(error),
                    )
                } else {
                    !final(self).has_job && result is Ok
                },
                Ok(_) => final(self).has_job == old(self).has_job && result is Ok,
            },
    {
        if !self.has_job {
            return Ok(());
        }
        match terminated {
            Ok(_) => Ok(()),
            Err(error) => {
                self.has_job = false;
                Err(ParentBoundaryError::Job(error))
            },
        }
    }
}

/// How everything was terminated: the job and the runner are both seen to,
/// and the job's failure is told first.
pub fn terminate(job: Result<(), ParentBoundaryError>, runner: Result<(), ParentBoundaryError>) -> (result:
    Result<(), ParentBoundaryError>)
    ensures
        result == (if job is Err {
            job
        } else {
            runner
        }),
{
    match job {
        Err(error) => Err(error),
        Ok(_) => runner,
    }
}

/// A runner has exited only where its handle was signalled and its code could be
/// had; it still runs only where the wait timed out; and every other answer of the
/// wait is a failure that tells which it was.
pub proof fn exits_are_signalled(result: u32, last_error: u32, exit_code: Result<u32, u32>, code: u32)
    ensures
        waited(result, last_error, exit_code) == Ok::<Option<u32>, ParentBoundaryError>(Some(code))
            <==> result == 0 && exit_code == Ok::<u32, u32>(code),
        waited(result, last_error, exit_code) == Ok::<Option<u32>, ParentBoundaryError>(None)
            <==> result == 258,
        waited(result, last_error, exit_code) matches Err(error) ==> match error {
            ParentBoundaryError::RunnerExitCode { code } => result == 0 && exit_code == Err::<
                u32,
                u32,
            >(code),
            ParentBoundaryError::RunnerWait { code } => result == u32::MAX && code == last_error,
            ParentBoundaryError::RunnerWaitUnexpected { result: told } => told == result && result
                != 0 && result != 258 && result != u32::MAX,
            _ => false,
        },
{
}

/// A child counts as confined only where it could be opened, there is a job, and
/// the job is known to hold it.
pub proof fn confined_children_are_in_the_job(
    process_id: u32,
    opened: Result<(), u32>,
    has_job: bool,
    assigned: Result<bool, u32>,
)
    ensures
        membership(process_id, opened, has_job, assigned) is None <==> opened is Ok && has_job
            && assigned == Ok::<bool, u32>(true),
        membership(process_id, opened, has_job, assigned) matches Some(error) ==> match error {
            ParentBoundaryError::ChildProcessOpen { process_id: told, code } => told == process_id
                && opened == Err::<(), u32>(code),
            ParentBoundaryError::ChildJobQuery { process_id: told, code } => told == process_id
                && opened is Ok && has_job && assigned == Err::<bool, u32>(code),
            ParentBoundaryError::ChildOutsideJob { process_id: told } => told == process_id
                && opened is Ok && (!has_job || assigned == Ok::<bool, u32>(false)),
            _ => false,
        },
{
}

/// A job passes only where both of its limits were read whole and are those that
/// were set: it ends its processes when it is closed, and allows them nothing of the
/// desktop.
pub proof fn accepted_jobs_have_their_limits(
    limits: Result<JobRecord, u32>,
    ui_limits: Result<JobRecord, u32>,
)
    ensures
        limits_failure(limits, ui_limits) is None <==> (limits matches Ok(record) && record.returned
            >= record.size && record.value == 0x2000) && (ui_limits matches Ok(record)
            && record.returned >= record.size && record.value == 0x1ff),
        limits_failure(limits, ui_limits) matches Some(error) ==> match error {
            ParentJobError::ReadBack { code } => limits == Err::<JobRecord, u32>(code),
            ParentJobError::LimitMismatch => limits matches Ok(record) && (record.returned
                < record.size || record.value != 0x2000),
            ParentJobError::UiReadBack { code } => limits is Ok && ui_limits == Err::<
                JobRecord,
                u32,
            >(code),
            ParentJobError::UiLimitMismatch => limits is Ok && (ui_limits matches Ok(record) && (
            record.returned < record.size || record.value != 0x1ff)),
            _ => false,
        },
{
}

/// The processes in a job are counted by a record that was read whole.
pub proof fn only_whole_records_count(record: Result<JobRecord, u32>, count: u32)
    ensures
        active(record) == Ok::<u32, ParentJobError>(count) <==> (record matches Ok(read)
            && read.returned >= read.size && read.value == count),
        (record matches Err(code) ==> active(record) == Err::<u32, ParentJobError>(
            ParentJobError::ActiveProcessRead { code },
        )),
{
}

/// Ending a runner ends it: it is terminated only where it still runs, waited for
/// only then, and given up on only where it still runs after that.
pub proof fn termination_steps_follow(step: RunnerTermination, event: TerminationEvent)
    requires
        step.expects(event),
    ensures
        match step.after(event) {
            RunnerTermination::Find => false,
            RunnerTermination::Terminate => step is Find && event == TerminationEvent::Waited(
                Ok(None),
            ),
            RunnerTermination::Wait => event matches TerminationEvent::Terminated(terminated)
                && terminated is Ok,
            RunnerTermination::Ended => event matches TerminationEvent::Waited(Ok(exit)) && exit
                is Some,
            RunnerTermination::Failed(error) => match event {
                TerminationEvent::Waited(Err(cause)) => error == cause,
                TerminationEvent::Waited(Ok(exit)) => step is Wait && exit is None && error
                    is RunnerTerminationTimeout,
                TerminationEvent::Terminated(terminated) => terminated matches Err(code) && error
                    == (ParentBoundaryError::RunnerTerminate { code }),
            },
        },
{
}

} // verus!
