use cageforge_windows::error::WindowsBackendError;
use cageforge_windows::network_ingress::WindowsNetworkRuntimeError;
use cageforge_windows::process::{ChildResource, WaitEvent, WaitStep, WindowsChild};
use cageforge_windows::runner_bootstrap::{
    bootstrap_arguments, bootstrap_exit_code, bootstrap_finished, bootstrap_result, command_line,
    conclude, read_report, verify_inheritable, BootstrapError, BootstrapHandle,
};
use cageforge_windows::runner_boundary::{
    terminate, verify_child_job_membership, verify_duplicate, verify_limits, wait_milliseconds,
    wait_runner, wait_until_empty, BoundaryState, JobRecord, ParentBoundaryError, ParentJobError,
    RunnerHandleDuplicateError, RunnerTermination, TerminationEvent,
};
use cageforge_windows::runner_desktop::{
    desktop_from_drawn, desktop_from_nonce, plan_desktop, verify_descriptor, ParentDesktopError,
};
use cageforge_windows::runner_launch::{
    connect_runner_pipe_failure, duplicate_parent_identity_handles, exited_before_pipe_connect, generic_sddl, group_count,
    is_complete_process, logon_group, protect_kernel_object, verify_resumed, LaunchStep,
    ProtectEvent, ProtectStep, ProtectedObject, RunnerLaunchError,
};
use cageforge_windows::runner_output::{
    chunk_length, dispatch_output, first_output_error, forward_input, forwarded, output_target,
    stdin_started, stdin_stop, ChannelReader, InputForward,
    OutputDispatch, OutputTarget, ProxyStartStep,
};
use cageforge_windows::runner_pipe::{
    ace_matches, client_access_mask, connect_and_verify, connect_outcome, descriptor_difference,
    pipe_sddl, server_access, ConnectWait, ParentPipeDirection, PipeAcl, PipeConnectError,
    PipeDescriptorFacts, RunnerPipeDescriptorComponent, RunnerPipeNames,
};
use cageforge_windows::runner_protocol::{
    RunnerBootstrapStage, RunnerMessage, RunnerMessageKind, RunnerOutputStream,
    WindowsRunnerFailure, WindowsRunnerFailureCode, WindowsRunnerFailureStage,
};
use cageforge_windows::runner_session::{
    dispatch_response, poll_response, verify_read, FinishEvent, FinishStep, RunnerHandshakePhase,
    RunnerSession, RunnerSessionError, RunnerTerminal, StartEvent, StartStep, TerminalPoll,
};
use cageforge_windows::runner_stdio::{
    duplicate_source, inherited_source, open_null, plan_stream, split_pipe, StandardStream,
    StdioMode, StreamPlan, WindowsStandardStreamError,
};

const FILE_GENERIC_READ: u32 = 0x0012_0089;
const FILE_GENERIC_WRITE: u32 = 0x0012_0116;
const FILE_APPEND_DATA: u32 = 4;
const FILE_READ_ATTRIBUTES: u32 = 0x80;

fn failure() -> WindowsRunnerFailure {
    WindowsRunnerFailure::new(
        WindowsRunnerFailureStage::Job,
        WindowsRunnerFailureCode::JobTerminate,
        None,
        "detail".to_string(),
    )
}

#[test]
fn client_pipe_access_is_directional_without_create_pipe_instance() {
    assert_eq!(
        client_access_mask(ParentPipeDirection::Request),
        FILE_GENERIC_READ
    );
    assert_eq!(
        client_access_mask(ParentPipeDirection::Response),
        (FILE_GENERIC_WRITE & !FILE_APPEND_DATA) | FILE_READ_ATTRIBUTES
    );
    assert_eq!(
        client_access_mask(ParentPipeDirection::Response) & FILE_APPEND_DATA,
        0
    );
}

#[test]
fn pipes_are_named_and_guarded() {
    let names = RunnerPipeNames::from_nonce(&vec![0xab, 0x01]);
    assert_eq!(names.request, r"\\.\pipe\Cageforge-runner-ab01-request");
    assert_eq!(names.response, r"\\.\pipe\Cageforge-runner-ab01-response");
    let named = RunnerPipeNames::from_drawn(Ok(vec![0xab, 0x01])).expect("drawn names");
    assert_eq!(named.request, names.request);
    assert_eq!(named.response, names.response);
    assert!(matches!(
        RunnerPipeNames::from_drawn(Err(getrandom::Error::UNEXPECTED)),
        Err(getrandom::Error::UNEXPECTED)
    ));
    let drawn = RunnerPipeNames::generate().expect("random names");
    let again = RunnerPipeNames::generate().expect("random names");
    assert_ne!(drawn.request, again.request);
    assert_eq!(
        drawn.request.len(),
        r"\\.\pipe\Cageforge-runner--request".len() + 32
    );
    assert_eq!(
        pipe_sddl("S-1", "S-2", ParentPipeDirection::Request),
        "O:S-1D:P(A;;FA;;;SY)(A;;FA;;;BA)(A;;FA;;;S-1)(A;;0x00120089;;;S-2)"
    );
    assert_eq!(server_access(ParentPipeDirection::Request), 0x0008_0002);
    assert_eq!(server_access(ParentPipeDirection::Response), 0x0008_0001);
}

fn grant(mask: u8, last: u8) -> Option<Vec<u8>> {
    Some(vec![
        0, 0, 20, 0, mask, 0, 0, 0, 1, 1, 0, 0, 0, 0, 0, 5, last, 0, 0, 0,
    ])
}

fn descriptor() -> PipeDescriptorFacts {
    PipeDescriptorFacts {
        valid: true,
        owner: Some(vec![1, 2]),
        dacl: Some(PipeAcl {
            revision: 2,
            entries: vec![grant(1, 1), grant(2, 2)],
        }),
        protected: true,
    }
}

#[test]
fn pipe_descriptors_are_told_apart_by_their_first_difference() {
    let find = |change: &dyn Fn(&mut PipeDescriptorFacts)| {
        let mut actual = descriptor();
        change(&mut actual);
        descriptor_difference(&descriptor(), &actual)
    };
    assert_eq!(find(&|_| {}), None);
    assert_eq!(
        find(&|actual| actual.valid = false),
        Some(RunnerPipeDescriptorComponent::ActualInvalid)
    );
    assert_eq!(
        find(&|actual| actual.owner = Some(vec![1, 3])),
        Some(RunnerPipeDescriptorComponent::Owner)
    );
    assert_eq!(
        find(&|actual| actual.protected = false),
        Some(RunnerPipeDescriptorComponent::ProtectedDacl)
    );
    assert_eq!(
        find(&|actual| actual.dacl = None),
        Some(RunnerPipeDescriptorComponent::Dacl)
    );
    assert_eq!(
        find(&|actual| actual.dacl.as_mut().unwrap().revision = 4),
        Some(RunnerPipeDescriptorComponent::Dacl)
    );
    assert_eq!(
        find(&|actual| actual.dacl.as_mut().unwrap().entries.truncate(1)),
        Some(RunnerPipeDescriptorComponent::AceCount)
    );
    assert_eq!(
        find(&|actual| actual.dacl.as_mut().unwrap().entries[1] = grant(3, 2)),
        Some(RunnerPipeDescriptorComponent::Ace { index: 1 })
    );
    let mut invalid = descriptor();
    invalid.valid = false;
    assert_eq!(
        descriptor_difference(&invalid, &descriptor()),
        Some(RunnerPipeDescriptorComponent::ExpectedInvalid)
    );
    assert_eq!(
        RunnerPipeDescriptorComponent::Ace { index: 12 }.describe(),
        "ACE at index 12"
    );
    assert_eq!(RunnerPipeDescriptorComponent::Owner.describe(), "owner");
    assert!(ace_matches(&grant(1, 1), &grant(1, 1)));
    assert!(!ace_matches(&grant(1, 1), &None));
    assert!(!ace_matches(&grant(1, 1), &grant(1, 2)));
}

#[test]
fn pipe_clients_are_verified() {
    assert!(connect_and_verify(Ok(()), Ok(7), 7).is_ok());
    assert!(connect_and_verify(Err(535), Ok(7), 7).is_ok());
    assert!(matches!(
        connect_and_verify(Err(5), Ok(7), 7),
        Err(PipeConnectError::Connect { code: 5 })
    ));
    assert!(matches!(
        connect_and_verify(Ok(()), Err(5), 7),
        Err(PipeConnectError::ClientPidRead { code: 5 })
    ));
    assert!(matches!(
        connect_and_verify(Ok(()), Ok(8), 7),
        Err(PipeConnectError::ClientPidMismatch {
            expected: 7,
            actual: 8
        })
    ));
    assert!(connect_outcome(ConnectWait::Told(Ok(())), true).is_ok());
    assert!(matches!(
        connect_outcome(ConnectWait::TimedOut(Err(1168)), true),
        Err(PipeConnectError::ConnectTimeout)
    ));
    assert!(matches!(
        connect_outcome(ConnectWait::TimedOut(Err(5)), true),
        Err(PipeConnectError::ConnectCancel { code: 5 })
    ));
    assert!(matches!(
        connect_outcome(ConnectWait::Disconnected, true),
        Err(PipeConnectError::ConnectThreadMissing)
    ));
    assert!(matches!(
        connect_outcome(ConnectWait::Told(Ok(())), false),
        Err(PipeConnectError::ConnectThreadPanic)
    ));
}

#[test]
fn kernel_objects_are_protected_and_read_back() {
    let (sddl, first) = protect_kernel_object::<u8>("S-1", 0x1f_ffff);
    assert_eq!(
        sddl,
        "O:S-1D:P(A;;0x001fffff;;;SY)(A;;0x001fffff;;;BA)(A;;0x001fffff;;;S-1)"
    );
    let object = ProtectedObject::RunnerProcess;
    let mut step = first;
    for _ in 0..4 {
        step = step.advance(ProtectEvent::Finished(Ok(())), object);
    }
    let step = step.advance(ProtectEvent::Described(Ok("D:P".to_string())), object);
    assert!(matches!(
        step.advance(ProtectEvent::Described(Ok("D:P".to_string())), object),
        ProtectStep::Done
    ));
    let differs = ProtectStep::<u8>::DescribeActual {
        expected: "D:P".to_string(),
    };
    assert!(matches!(
        differs.advance(ProtectEvent::Described(Ok("D:".to_string())), object),
        ProtectStep::Failed(RunnerLaunchError::ProcessDescriptorMismatch { .. })
    ));
    assert!(matches!(
        ProtectStep::<u8>::Parse.advance(ProtectEvent::Finished(Err(1)), object),
        ProtectStep::Failed(RunnerLaunchError::ProcessDescriptorParse { code: 1 })
    ));
    assert!(matches!(
        ProtectStep::<u8>::Inspect.advance(ProtectEvent::Finished(Err(2)), object),
        ProtectStep::Failed(RunnerLaunchError::ProcessDescriptorInspect { code: 2 })
    ));
    assert!(matches!(
        ProtectStep::<u8>::Apply.advance(ProtectEvent::Finished(Err(3)), object),
        ProtectStep::Failed(RunnerLaunchError::ProcessDescriptorApply { code: 3, .. })
    ));
    assert!(matches!(
        ProtectStep::<u8>::ReadBack.advance(ProtectEvent::Finished(Err(4)), object),
        ProtectStep::Failed(RunnerLaunchError::ProcessDescriptorReadBack { code: 4, .. })
    ));
    assert_eq!(
        generic_sddl("S-1"),
        "O:S-1D:P(A;;GA;;;SY)(A;;GA;;;BA)(A;;GA;;;S-1)"
    );
}

#[test]
fn logon_groups_are_found_once() {
    assert_eq!(group_count::<u8>(40, 2, 8, 16).unwrap(), 2);
    assert!(matches!(
        group_count::<u8>(39, 2, 8, 16),
        Err(RunnerLaunchError::TokenGroupsTruncated)
    ));
    assert!(group_count::<u8>(7, 0, 8, 16).is_err());
    assert_eq!(logon_group::<u8>(&vec![7, 0xc000_0007]).unwrap(), 1);
    assert!(matches!(
        logon_group::<u8>(&vec![7, 0x8000_0000]),
        Err(RunnerLaunchError::MissingLogonSid)
    ));
    assert!(matches!(
        logon_group::<u8>(&vec![0xc000_0000, 0xc000_0000]),
        Err(RunnerLaunchError::DuplicateLogonSid)
    ));
    assert!(is_complete_process(1, 2, 3));
    assert!(!is_complete_process(1, 0, 3));
    assert!(verify_resumed::<u8>(1, 5).is_ok());
    assert!(matches!(
        verify_resumed::<u8>(u32::MAX, 5),
        Err(RunnerLaunchError::Resume { code: 5 })
    ));
}

#[test]
fn launches_harden_the_runner_before_it_runs() {
    let mut step = LaunchStep::VerifyResources;
    let mut seen = vec![step];
    while step != LaunchStep::Launched {
        step = step.next();
        seen.push(step);
    }
    let place = |wanted| seen.iter().position(|step| *step == wanted).unwrap();
    assert!(place(LaunchStep::ProtectThread) < place(LaunchStep::ConnectPipes));
    assert_eq!(seen.len(), 15);
    assert!(!LaunchStep::Bootstrap.terminates_runner());
    assert!(LaunchStep::CreateRequest.terminates_runner());
    assert!(!LaunchStep::Launched.terminates_runner());
}

#[test]
fn runners_are_told_who_started_them() {
    assert!(matches!(
        duplicate_parent_identity_handles::<u8>(Ok(1), Ok(()), Ok(2)),
        Ok((1, 2))
    ));
    assert!(matches!(
        duplicate_parent_identity_handles::<u8>(Err(5), Err(6), Err(7)),
        Err(RunnerLaunchError::ParentIdentityProcessHandle { code: 5 })
    ));
    assert!(matches!(
        duplicate_parent_identity_handles::<u8>(Ok(1), Err(6), Err(7)),
        Err(RunnerLaunchError::ParentIdentityTokenOpen { code: 6 })
    ));
    assert!(matches!(
        duplicate_parent_identity_handles::<u8>(Ok(1), Ok(()), Err(7)),
        Err(RunnerLaunchError::ParentIdentityTokenHandle { code: 7 })
    ));
}

#[test]
fn early_exits_are_explained() {
    let direction = ParentPipeDirection::Response;
    assert!(matches!(
        exited_before_pipe_connect::<u8>(direction, 258, 0, Ok(0)),
        Ok(None)
    ));
    assert!(matches!(
        exited_before_pipe_connect::<u8>(direction, u32::MAX, 5, Ok(0)),
        Err(RunnerLaunchError::RunnerConnectWait { code: 5, .. })
    ));
    assert!(matches!(
        exited_before_pipe_connect::<u8>(direction, 1, 5, Ok(0)),
        Err(RunnerLaunchError::RunnerConnectWaitUnexpected { result: 1, .. })
    ));
    assert!(matches!(
        exited_before_pipe_connect::<u8>(direction, 0, 5, Err(6)),
        Err(RunnerLaunchError::RunnerConnectExitCode { code: 6, .. })
    ));
    assert!(matches!(
        connect_runner_pipe_failure(9u8, Ok(None), direction),
        RunnerLaunchError::Operation(9)
    ));
    assert!(matches!(
        connect_runner_pipe_failure(9u8, Ok(Some(0xcf7f_0005)), direction),
        RunnerLaunchError::RunnerBootstrapFailure {
            stage: RunnerBootstrapStage::RequestPipe,
            native_code: Some(5),
            ..
        }
    ));
    assert!(matches!(
        connect_runner_pipe_failure(9u8, Ok(Some(3)), direction),
        RunnerLaunchError::RunnerExitedBeforePipeConnect { exit_code: 3, .. }
    ));
}

#[test]
fn bootstrap_commands_are_complete() {
    let arguments = bootstrap_arguments("r", "report", 17, 18, "ab", "acc", "q", "p", "w");
    assert_eq!(
        arguments,
        vec!["r", "--cageforge-bootstrap", "report", "17", "18", "ab", "acc", "q", "p", "w"]
    );
    assert_eq!(command_line(&vec!["a".to_string(), "b".to_string()]), "a b");
    assert_eq!(command_line(&vec![]), "");
}

#[test]
fn bootstrap_reports_are_validated() {
    let good = bootstrap_result::<u8>(1, 2, 3, "S-1".to_string()).unwrap();
    assert_eq!((good.process, good.thread, good.process_id), (2, 3, 1));
    for (id, process, thread, sid) in [
        (0, 2, 3, "S"),
        (1, 0, 3, "S"),
        (1, 2, 0, "S"),
        (1, 2, 3, ""),
        (1, 2, 3, "S\0"),
    ] {
        assert!(matches!(
            bootstrap_result::<u8>(id, process, thread, sid.to_string()),
            Err(BootstrapError::InvalidReport)
        ));
    }
    assert!(matches!(
        read_report::<u8>(Ok(RunnerMessage::Failed { failure: failure() }), Ok(None)),
        Err(BootstrapError::RemoteFailure(_))
    ));
    assert!(matches!(
        read_report::<u8>(Ok(RunnerMessage::Ready), Ok(None)),
        Err(BootstrapError::UnexpectedMessage {
            actual: RunnerMessageKind::Ready
        })
    ));
    assert!(matches!(
        read_report(Err(4u8), Ok(None)),
        Err(BootstrapError::Protocol(4))
    ));
    assert!(matches!(
        read_report(Err(4u8), Ok(Some(3))),
        Err(BootstrapError::ExitedBeforeReport { exit_code: 3 })
    ));
    assert!(matches!(
        conclude::<u8>(Err(BootstrapError::ExitTimeout), Ok(good)),
        Err(BootstrapError::ExitTimeout)
    ));
}

#[test]
fn bootstrap_waits_are_classified() {
    assert!(matches!(bootstrap_exit_code::<u8>(258, 0, Ok(1)), Ok(None)));
    assert!(matches!(
        bootstrap_exit_code::<u8>(0, 0, Ok(1)),
        Ok(Some(1))
    ));
    assert!(matches!(
        bootstrap_exit_code::<u8>(0, 0, Err(6)),
        Err(BootstrapError::ExitCodeRead { code: 6 })
    ));
    assert!(matches!(
        bootstrap_exit_code::<u8>(u32::MAX, 7, Ok(1)),
        Err(BootstrapError::ExitWait { code: 7 })
    ));
    assert!(matches!(
        bootstrap_finished::<u8>(128, 7),
        Err(BootstrapError::ExitWaitUnexpected { result: 128 })
    ));
    assert!(matches!(
        bootstrap_finished::<u8>(258, 7),
        Err(BootstrapError::ExitTimeout)
    ));
    assert!(bootstrap_finished::<u8>(0, 7).is_ok());
    assert!(matches!(
        verify_inheritable::<u8>(BootstrapHandle::Parent, Ok(5), Ok(1)),
        Ok(5)
    ));
    assert!(matches!(
        verify_inheritable::<u8>(BootstrapHandle::Parent, Ok(5), Ok(3)),
        Err(BootstrapError::InvalidDuplicate)
    ));
    assert!(matches!(
        verify_inheritable::<u8>(BootstrapHandle::Parent, Err(9), Ok(1)),
        Err(BootstrapError::ParentHandleDuplicate { code: 9 })
    ));
    assert!(matches!(
        verify_inheritable::<u8>(BootstrapHandle::Credential, Err(9), Ok(1)),
        Err(BootstrapError::CredentialHandleDuplicate { code: 9 })
    ));
}

#[test]
fn desktops_are_private() {
    let planned = desktop_from_nonce(&vec![0x0f, 0xa0], "S-1", "S-2");
    assert_eq!(planned.name, "Cageforge-0fa0");
    assert_eq!(
        planned.startup_name,
        r"Winsta0\Cageforge-0fa0".encode_utf16().collect::<Vec<u16>>()
    );
    assert_eq!(
        planned.sddl,
        "O:S-1D:P(A;;0x000f01ff;;;SY)(A;;0x000f01ff;;;BA)(A;;0x000f01ff;;;S-1)(A;;0x000f01ff;;;S-2)"
    );
    assert_eq!(
        desktop_from_drawn(Ok(vec![0x0f, 0xa0]), "S-1", "S-2").unwrap().name,
        planned.name
    );
    assert!(matches!(
        desktop_from_drawn(Err(getrandom::Error::UNEXPECTED), "S-1", "S-2"),
        Err(ParentDesktopError::Random(getrandom::Error::UNEXPECTED))
    ));
    let drawn = plan_desktop("S-1", "S-2").expect("random desktop");
    assert_eq!(drawn.name.len(), "Cageforge-".len() + 32);
    assert_ne!(drawn.name, plan_desktop("S-1", "S-2").unwrap().name);
    assert!(verify_descriptor("D:P", "D:P").is_ok());
    assert!(matches!(
        verify_descriptor("D:P", "D:"),
        Err(ParentDesktopError::DescriptorMismatch)
    ));
}

#[test]
fn boundary_waits_are_classified() {
    assert_eq!(wait_milliseconds(5), 5);
    assert_eq!(wait_milliseconds(u128::MAX), u32::MAX - 1);
    assert!(matches!(wait_runner(258, 0, Ok(1)), Ok(None)));
    assert!(matches!(wait_runner(0, 0, Ok(1)), Ok(Some(1))));
    assert!(matches!(
        wait_runner(0, 0, Err(2)),
        Err(ParentBoundaryError::RunnerExitCode { code: 2 })
    ));
    assert!(matches!(
        wait_runner(u32::MAX, 3, Ok(1)),
        Err(ParentBoundaryError::RunnerWait { code: 3 })
    ));
    assert!(matches!(
        wait_runner(128, 3, Ok(1)),
        Err(ParentBoundaryError::RunnerWaitUnexpected { result: 128 })
    ));
}

#[test]
fn children_outside_the_job_are_refused() {
    assert!(verify_child_job_membership(4, Ok(()), true, Ok(true)).is_ok());
    assert!(matches!(
        verify_child_job_membership(4, Err(5), true, Ok(true)),
        Err(ParentBoundaryError::ChildProcessOpen {
            process_id: 4,
            code: 5
        })
    ));
    assert!(matches!(
        verify_child_job_membership(4, Ok(()), true, Err(5)),
        Err(ParentBoundaryError::ChildJobQuery { .. })
    ));
    for (has_job, inside) in [(false, true), (true, false)] {
        assert!(matches!(
            verify_child_job_membership(4, Ok(()), has_job, Ok(inside)),
            Err(ParentBoundaryError::ChildOutsideJob { process_id: 4 })
        ));
    }
}

fn record(returned: u32, value: u32) -> Result<JobRecord, u32> {
    Ok(JobRecord {
        returned,
        size: 8,
        value,
    })
}

#[test]
fn job_limits_are_read_back() {
    assert!(verify_limits(record(8, 0x2000), record(8, 511)).is_ok());
    assert!(matches!(
        verify_limits(Err(1), record(8, 511)),
        Err(ParentJobError::ReadBack { code: 1 })
    ));
    assert!(matches!(
        verify_limits(record(7, 0x2000), record(8, 511)),
        Err(ParentJobError::LimitMismatch)
    ));
    assert!(matches!(
        verify_limits(record(8, 0x2000), Err(2)),
        Err(ParentJobError::UiReadBack { code: 2 })
    ));
    assert!(matches!(
        verify_limits(record(8, 0x2000), record(8, 255)),
        Err(ParentJobError::UiLimitMismatch)
    ));
    assert!(matches!(wait_until_empty(record(8, 0), true), Ok(true)));
    assert!(matches!(wait_until_empty(record(8, 3), false), Ok(false)));
    assert!(matches!(
        wait_until_empty(record(8, 3), true),
        Err(ParentJobError::TerminationTimeout {
            active_processes: 3
        })
    ));
    assert!(matches!(
        wait_until_empty(record(7, 0), true),
        Err(ParentJobError::ActiveProcessReadBack)
    ));
    assert!(matches!(
        wait_until_empty(Err(4), true),
        Err(ParentJobError::ActiveProcessRead { code: 4 })
    ));
    assert!(matches!(verify_duplicate(Ok(3)), Ok(3)));
    assert!(matches!(
        verify_duplicate(Ok(0)),
        Err(RunnerHandleDuplicateError::InvalidDuplicate)
    ));
}

#[test]
fn terminated_runners_are_seen_to_end() {
    let step = RunnerTermination::Find.advance(TerminationEvent::Waited(Ok(None)));
    assert!(matches!(step, RunnerTermination::Terminate));
    let step = step.advance(TerminationEvent::Terminated(Ok(())));
    assert!(matches!(step, RunnerTermination::Wait));
    assert!(matches!(
        RunnerTermination::Wait.advance(TerminationEvent::Waited(Ok(None))),
        RunnerTermination::Failed(ParentBoundaryError::RunnerTerminationTimeout)
    ));
    assert!(matches!(
        step.advance(TerminationEvent::Waited(Ok(Some(1)))),
        RunnerTermination::Ended
    ));
    let mut state = BoundaryState { has_job: true };
    assert!(state.terminate_job(Ok(())).is_ok());
    assert!(matches!(
        state.terminate_job(Err(ParentJobError::LimitMismatch)),
        Err(ParentBoundaryError::Job(ParentJobError::LimitMismatch))
    ));
    assert!(state.terminate_job(Err(ParentJobError::LimitMismatch)).is_ok());
    assert!(matches!(
        terminate(
            Err(ParentBoundaryError::StatePoisoned),
            Err(ParentBoundaryError::RunnerTerminationTimeout)
        ),
        Err(ParentBoundaryError::StatePoisoned)
    ));
}

#[test]
fn standard_streams_are_planned() {
    assert!(matches!(
        plan_stream(StandardStream::Stdin, StdioMode::Pipe),
        StreamPlan::CreatePipe { child_reads: true }
    ));
    assert!(matches!(
        plan_stream(StandardStream::Stderr, StdioMode::Null),
        StreamPlan::OpenNull {
            access: FILE_GENERIC_WRITE
        }
    ));
    assert!(matches!(
        plan_stream(StandardStream::Stdout, StdioMode::Inherit),
        StreamPlan::Inherited
    ));
    assert!(matches!(
        split_pipe(StandardStream::Stdin, Ok((1, 2))),
        Ok((1, 2))
    ));
    assert!(matches!(
        split_pipe(StandardStream::Stdout, Ok((1, 2))),
        Ok((2, 1))
    ));
    assert!(matches!(
        split_pipe(StandardStream::Stdout, Ok((0, 2))),
        Err(WindowsStandardStreamError::InvalidPipe { .. })
    ));
    assert!(matches!(
        split_pipe(StandardStream::Stdout, Err(5)),
        Err(WindowsStandardStreamError::PipeCreate { code: 5, .. })
    ));
    assert!(matches!(
        inherited_source(StandardStream::Stdin, Ok(0)),
        Err(WindowsStandardStreamError::MissingInheritedHandle { .. })
    ));
    assert!(matches!(
        inherited_source(StandardStream::Stdin, Err(5)),
        Err(WindowsStandardStreamError::InheritedHandleQuery { code: 5, .. })
    ));
    assert!(matches!(
        open_null(StandardStream::Stdin, Err(5)),
        Err(WindowsStandardStreamError::NullOpen { code: 5, .. })
    ));
    assert!(matches!(
        duplicate_source(
            StandardStream::Stdin,
            Err(RunnerHandleDuplicateError::Duplicate { code: 5 })
        ),
        Err(WindowsStandardStreamError::HandleDuplicate { code: 5, .. })
    ));
    assert!(matches!(
        duplicate_source(
            StandardStream::Stdin,
            Err(RunnerHandleDuplicateError::InvalidDuplicate)
        ),
        Err(WindowsStandardStreamError::InvalidHandleDuplicate { .. })
    ));
}

#[test]
fn sessions_start_with_a_confined_child() {
    let step = StartStep::<u8>::TakeResponse
        .advance(StartEvent::Done(Ok(())))
        .advance(StartEvent::Received(Ok(RunnerMessage::Ready)))
        .advance(StartEvent::Done(Ok(())))
        .advance(StartEvent::Done(Ok(())))
        .advance(StartEvent::Done(Ok(())))
        .advance(StartEvent::Received(Ok(RunnerMessage::Spawned {
            process_id: 9,
        })));
    assert!(matches!(
        step,
        StartStep::VerifyMembership { process_id: 9 }
    ));
    assert!(matches!(
        step.advance(StartEvent::Done(Ok(()))),
        StartStep::Started { process_id: 9 }
    ));
    let outside = StartStep::VerifyMembership { process_id: 9 }
        .advance(StartEvent::Done(Err(4u8)))
        .advance(StartEvent::Terminated);
    assert!(matches!(
        outside,
        StartStep::Failed {
            error: RunnerSessionError::Boundary(4)
        }
    ));
}

#[test]
fn handshake_failures_are_explained_by_the_exit_code() {
    let broken = || {
        StartStep::<u8>::ReadReadiness.advance(StartEvent::Received(Err(
            RunnerSessionError::ReadinessHandshakeTimeout,
        )))
    };
    assert!(matches!(
        broken().advance(StartEvent::RunnerExit(Ok(Some(125)))),
        StartStep::Terminate {
            error: RunnerSessionError::RunnerBootstrapFailure(_)
        }
    ));
    assert!(matches!(
        broken().advance(StartEvent::RunnerExit(Ok(Some(0)))),
        StartStep::Terminate {
            error: RunnerSessionError::ReadinessHandshakeTimeout
        }
    ));
    assert!(matches!(
        broken().advance(StartEvent::RunnerExit(Err(6))),
        StartStep::Terminate {
            error: RunnerSessionError::Boundary(6)
        }
    ));
    assert!(matches!(
        StartStep::<u8>::ReadReadiness
            .advance(StartEvent::Received(Ok(RunnerMessage::CloseStdin))),
        StartStep::Terminate {
            error: RunnerSessionError::UnexpectedReadinessMessage {
                actual: RunnerMessageKind::CloseStdin
            }
        }
    ));
    assert!(matches!(
        StartStep::<u8>::ReadSpawn.advance(StartEvent::Received(Ok(RunnerMessage::Ready))),
        StartStep::Terminate {
            error: RunnerSessionError::UnexpectedHandshakeMessage {
                actual: RunnerMessageKind::Ready
            }
        }
    ));
}

#[test]
fn responses_are_polled_until_a_deadline() {
    assert_eq!(
        poll_response::<u8>(false, Ok(3), 10, RunnerHandshakePhase::Spawn).unwrap(),
        3
    );
    assert_eq!(
        poll_response::<u8>(false, Ok(30), 10, RunnerHandshakePhase::Spawn).unwrap(),
        10
    );
    assert!(matches!(
        poll_response::<u8>(true, Ok(3), 10, RunnerHandshakePhase::Spawn),
        Err(RunnerSessionError::SpawnHandshakeTimeout)
    ));
    assert!(matches!(
        poll_response::<u8>(true, Ok(3), 10, RunnerHandshakePhase::Readiness),
        Err(RunnerSessionError::ReadinessHandshakeTimeout)
    ));
    assert!(matches!(
        poll_response::<u8>(false, Err(5), 10, RunnerHandshakePhase::Spawn),
        Err(RunnerSessionError::ResponsePeek { code: 5 })
    ));
    assert!(matches!(
        verify_read::<u8>(0, RunnerHandshakePhase::Spawn),
        Err(RunnerSessionError::ResponseClosed {
            phase: RunnerHandshakePhase::Spawn
        })
    ));
    assert!(verify_read::<u8>(1, RunnerHandshakePhase::Spawn).is_ok());
}

#[test]
fn lifecycle_messages_are_dispatched() {
    let exited = dispatch_response::<u8>(Ok(RunnerMessage::Exited { exit_code: 3 }), false);
    assert!(!exited.terminate);
    assert!(matches!(exited.terminal, Some(RunnerTerminal::Exited(3))));
    let late = dispatch_response::<u8>(Ok(RunnerMessage::Exited { exit_code: 3 }), true);
    assert!(!late.terminate && late.terminal.is_none());
    let broken = dispatch_response(Err(4u8), false);
    assert!(broken.terminate);
    assert!(matches!(
        broken.terminal,
        Some(RunnerTerminal::Failed(RunnerSessionError::Protocol(4)))
    ));
    let odd = dispatch_response::<u8>(Ok(RunnerMessage::Ready), false);
    assert!(matches!(
        odd.terminal,
        Some(RunnerTerminal::Failed(
            RunnerSessionError::UnexpectedLifecycleMessage {
                actual: RunnerMessageKind::Ready
            }
        ))
    ));
    let failed = dispatch_response::<u8>(Ok(RunnerMessage::Failed { failure: failure() }), false);
    assert!(matches!(
        failed.terminal,
        Some(RunnerTerminal::Failed(RunnerSessionError::RunnerFailure(_)))
    ));
}

#[test]
fn exit_codes_are_told_after_everything_ended() {
    let begin = |terminal| FinishStep::<u8>::StopWatchdog { terminal };
    let step = begin(RunnerTerminal::Exited(3))
        .advance(FinishEvent::Joined(true), None)
        .advance(FinishEvent::Joined(true), None)
        .advance(FinishEvent::JobTerminated(Ok(())), None);
    assert!(matches!(step, FinishStep::WaitRunner { exit_code: 3 }));
    assert!(matches!(
        step.advance(FinishEvent::RunnerExit(Ok(Some(0))), None),
        FinishStep::Finished { result: Ok(3) }
    ));
    let waiting = || FinishStep::<u8>::WaitRunner { exit_code: 3 };
    assert!(matches!(
        waiting().advance(FinishEvent::RunnerExit(Ok(None)), None),
        FinishStep::Finished {
            result: Err(RunnerSessionError::RunnerExitTimeout)
        }
    ));
    assert!(matches!(
        waiting().advance(FinishEvent::RunnerExit(Ok(Some(2))), None),
        FinishStep::Finished {
            result: Err(RunnerSessionError::RunnerExitMismatch { exit_code: 2 })
        }
    ));
    assert!(matches!(
        begin(RunnerTerminal::Exited(3)).advance(FinishEvent::Joined(false), None),
        FinishStep::Finished {
            result: Err(RunnerSessionError::WatchdogPanic)
        }
    ));
    assert!(matches!(
        begin(RunnerTerminal::Exited(3))
            .advance(FinishEvent::Joined(true), None)
            .advance(FinishEvent::Joined(false), None),
        FinishStep::Finished {
            result: Err(RunnerSessionError::DispatcherPanic)
        }
    ));
    assert!(matches!(
        begin(RunnerTerminal::TimedOut(Ok(())))
            .advance(FinishEvent::Joined(true), None)
            .advance(FinishEvent::Joined(true), None),
        FinishStep::Finished {
            result: Err(RunnerSessionError::TimedOut)
        }
    ));
    assert!(matches!(
        begin(RunnerTerminal::TimedOut(Ok(())))
            .advance(FinishEvent::Joined(true), Some(1))
            .advance(FinishEvent::Joined(true), Some(1)),
        FinishStep::Finished { result: Ok(1) }
    ));
}

#[test]
fn sessions_are_consumed_once() {
    let mut session = RunnerSession::new(7);
    assert_eq!(session.id(), 7);
    assert!(matches!(
        session.begin_finish::<u8>(TerminalPoll::Empty),
        Ok(None)
    ));
    assert!(matches!(
        session.begin_finish::<u8>(TerminalPoll::Disconnected),
        Err(RunnerSessionError::LifecycleClosed)
    ));
    assert!(session.kill::<u8>(true, Ok(()), false).is_ok());
    assert_eq!(session.killed(), Some(1));
    assert!(matches!(
        session.kill::<u8>(false, Ok(()), false),
        Err(RunnerSessionError::WatchdogPanic)
    ));
    assert!(matches!(
        session.kill(true, Err(4u8), false),
        Err(RunnerSessionError::Boundary(4))
    ));
    assert!(session.conclude::<u8>(&Err(RunnerSessionError::DispatcherPanic)));
    assert!(!session.finished());
    assert!(!session.conclude::<u8>(&Ok(0)));
    assert!(session.finished());
    assert!(matches!(
        session.check_open::<u8>(),
        Err(RunnerSessionError::LifecycleConsumed)
    ));
}

#[test]
fn proxied_sessions_forward_input() {
    let step = ProxyStartStep::<u8>::TakeRequest
        .advance(StartEvent::Done(Ok(())), StdioMode::Inherit)
        .advance(StartEvent::Done(Ok(())), StdioMode::Inherit)
        .advance(StartEvent::Done(Ok(())), StdioMode::Inherit)
        .advance(
            StartEvent::Received(Ok(RunnerMessage::Spawned { process_id: 9 })),
            StdioMode::Inherit,
        )
        .advance(StartEvent::Done(Ok(())), StdioMode::Inherit);
    assert!(matches!(
        step,
        ProxyStartStep::ForwardInput { process_id: 9 }
    ));
    assert!(matches!(
        step.advance(
            StartEvent::Forwarding(stdin_started(Some(Err(3)))),
            StdioMode::Inherit
        ),
        ProxyStartStep::Terminate {
            error: RunnerSessionError::StdinThreadHandle { code: 3 }
        }
    ));
    assert!(matches!(
        ProxyStartStep::<u8>::ForwardInput { process_id: 9 }.advance(
            StartEvent::Forwarding(stdin_started(Some(Ok(())))),
            StdioMode::Inherit
        ),
        ProxyStartStep::Started { process_id: 9 }
    ));
    assert!(matches!(
        stdin_started::<u8>(None),
        Err(RunnerSessionError::StdinThreadMissing)
    ));
    assert!(matches!(
        ProxyStartStep::<u8>::VerifyMembership { process_id: 9 }
            .advance(StartEvent::Done(Ok(())), StdioMode::Null),
        ProxyStartStep::Started { process_id: 9 }
    ));
}

#[test]
fn forwarded_input_ends_and_stops() {
    assert!(matches!(
        forward_input(Some(vec![7, 8])),
        InputForward::Send {
            message: RunnerMessage::Stdin { bytes },
            last: false
        } if bytes == vec![7, 8]
    ));
    assert!(matches!(
        forward_input(Some(vec![])),
        InputForward::Send {
            message: RunnerMessage::CloseStdin,
            last: true
        }
    ));
    assert!(matches!(forward_input(None), InputForward::Stop));
    assert!(stdin_stop::<u8>(Ok(()), false).is_ok());
    assert!(stdin_stop::<u8>(Err(1168), false).is_ok());
    assert!(matches!(
        stdin_stop::<u8>(Err(5), true),
        Err(RunnerSessionError::StdinCancel { code: 5 })
    ));
    assert!(matches!(
        stdin_stop::<u8>(Err(1168), true),
        Err(RunnerSessionError::StdinForwarderPanic)
    ));
    assert!(matches!(
        stdin_stop::<u8>(Ok(()), true),
        Err(RunnerSessionError::StdinForwarderPanic)
    ));
}

#[test]
fn output_is_forwarded_in_bounded_chunks() {
    let chunk = |size| {
        Ok::<RunnerMessage, u8>(RunnerMessage::Output {
            stream: RunnerOutputStream::Stderr,
            bytes: vec![1; size],
        })
    };
    assert!(matches!(
        dispatch_output(chunk(4), 4, false, None),
        OutputDispatch::Forward {
            stream: RunnerOutputStream::Stderr,
            bytes
        } if bytes == vec![1; 4]
    ));
    assert!(matches!(
        dispatch_output(chunk(5), 4, false, None),
        OutputDispatch::Stop {
            terminate: true,
            terminal: Some(RunnerTerminal::Failed(
                RunnerSessionError::OversizedOutput { .. }
            ))
        }
    ));
    assert!(matches!(
        dispatch_output::<u8>(
            Ok(RunnerMessage::Exited { exit_code: 0 }),
            4,
            false,
            Some(RunnerSessionError::OutputForNullStream)
        ),
        OutputDispatch::Stop {
            terminate: false,
            terminal: Some(RunnerTerminal::Failed(
                RunnerSessionError::OutputForNullStream
            ))
        }
    ));
    assert_eq!(
        output_target(StdioMode::Inherit, RunnerOutputStream::Stderr),
        OutputTarget::InheritStderr
    );
    assert!(matches!(
        forwarded::<u8>(OutputTarget::Null, Ok(())),
        Err(RunnerSessionError::OutputForNullStream)
    ));
    assert!(forwarded::<u8>(OutputTarget::Pipe, Err(1)).is_ok());
    assert!(forwarded::<u8>(OutputTarget::InheritStdout, Ok(())).is_ok());
    assert!(matches!(
        forwarded::<u8>(OutputTarget::InheritStdout, Err(1)),
        Err(RunnerSessionError::InheritedOutput {
            stream: RunnerOutputStream::Stdout,
            source: 1
        })
    ));
    assert!(matches!(
        forwarded::<u8>(OutputTarget::InheritStderr, Err(2)),
        Err(RunnerSessionError::InheritedOutput {
            stream: RunnerOutputStream::Stderr,
            source: 2
        })
    ));
    assert!(matches!(
        first_output_error::<u8>(
            Some(RunnerSessionError::TimedOut),
            Err(RunnerSessionError::OutputForNullStream)
        ),
        Some(RunnerSessionError::TimedOut)
    ));
    assert_eq!(chunk_length(9, 4), 4);
    assert_eq!(chunk_length(3, 4), 3);
    let mut reader = ChannelReader::new();
    assert!(reader.is_drained());
    reader.supply(vec![1, 2, 3]);
    assert_eq!(reader.read(2), vec![1, 2]);
    assert!(!reader.is_drained());
    assert_eq!(reader.read(2), vec![3]);
    assert!(reader.is_drained());
    assert!(reader.read(2).is_empty());
}

#[test]
fn children_release_their_lease_last() {
    let mut child = WindowsChild::new(5, true);
    assert_eq!(child.id(), 5);
    assert!(child.has_route());
    assert_eq!(
        child.release_completed_boundaries(),
        vec![
            ChildResource::NetworkRoute,
            ChildResource::FilesystemEnforcement,
            ChildResource::ActiveLease
        ]
    );
    assert!(child.release_completed_boundaries().is_empty());
    let mut killed = WindowsChild::new(6, true);
    assert!(killed.kill::<u8>(Ok(())).is_ok());
    assert!(!killed.has_route());
    assert_eq!(
        killed.release_completed_boundaries(),
        vec![
            ChildResource::FilesystemEnforcement,
            ChildResource::ActiveLease
        ]
    );
}

#[test]
fn a_failed_kill_keeps_the_route() {
    let mut child = WindowsChild::new(7, true);
    assert!(matches!(
        child.kill(Err(RunnerSessionError::Boundary(3u8))),
        Err(WindowsBackendError::RunnerBoundary { source: 3 })
    ));
    assert!(child.has_route());
    assert_eq!(child.release_completed_boundaries().len(), 3);
}

#[test]
fn waiting_releases_before_it_reports() {
    let step = WaitStep::<u8>::first(true).advance(WaitEvent::Health(Ok(())));
    assert!(matches!(step, WaitStep::AskSession));
    assert!(matches!(
        step.advance(WaitEvent::Session(Ok(None))),
        WaitStep::Running
    ));
    assert!(matches!(
        WaitStep::<u8>::first(false)
            .advance(WaitEvent::Session(Ok(Some(4))))
            .advance(WaitEvent::Released),
        WaitStep::Exited { code: 4 }
    ));
    let late = WaitStep::AskSession
        .advance(WaitEvent::Session(Err(RunnerSessionError::<u8>::TimedOut)));
    assert!(matches!(
        late,
        WaitStep::Release {
            result: Err(WindowsBackendError::ProcessTimedOut)
        }
    ));
    assert!(matches!(
        late.advance(WaitEvent::Released),
        WaitStep::Failed {
            error: WindowsBackendError::ProcessTimedOut
        }
    ));
}

#[test]
fn nothing_is_released_before_the_end_is_confirmed() {
    let kill = || {
        WaitStep::AskSession.advance(WaitEvent::Session(Err(RunnerSessionError::Protocol(1u8))))
    };
    assert!(matches!(
        kill(),
        WaitStep::Kill {
            error: WindowsBackendError::RunnerProtocol(1)
        }
    ));
    assert!(matches!(
        kill().advance(WaitEvent::Killed(Err(RunnerSessionError::Boundary(2)))),
        WaitStep::Failed {
            error: WindowsBackendError::RunnerProtocol(1)
        }
    ));
    let release = kill().advance(WaitEvent::Killed(Ok(())));
    assert!(matches!(
        release,
        WaitStep::Release {
            result: Err(WindowsBackendError::RunnerProtocol(1))
        }
    ));
    assert!(matches!(
        release.advance(WaitEvent::Released),
        WaitStep::Failed {
            error: WindowsBackendError::RunnerProtocol(1)
        }
    ));
    let unhealthy = WaitStep::<u8>::first(true).advance(WaitEvent::Health(Err(
        WindowsNetworkRuntimeError::StoppedBeforeProcess,
    )));
    assert!(matches!(
        unhealthy.advance(WaitEvent::Killed(Err(RunnerSessionError::LifecycleConsumed))),
        WaitStep::Failed {
            error: WindowsBackendError::NetworkRuntime(_)
        }
    ));
}

#[test]
fn unsupported_policies_are_named() {
    let unsupported = WindowsBackendError::<u8>::UnsupportedCapability {
        capability: "network-restricted".to_string(),
    };
    assert!(matches!(
        unsupported,
        WindowsBackendError::UnsupportedCapability { capability } if capability == "network-restricted"
    ));
    let invalid = WindowsBackendError::<u8>::InvalidLoweringModes {
        filesystem: "External".to_string(),
        network: "Disabled".to_string(),
    };
    assert!(matches!(
        invalid,
        WindowsBackendError::InvalidLoweringModes { filesystem, network }
            if filesystem == "External" && network == "Disabled"
    ));
}

#[test]
fn session_errors_keep_their_category() {
    assert!(matches!(
        WindowsBackendError::runner_session(RunnerSessionError::Launch(1u8)),
        WindowsBackendError::RunnerLaunch { source: 1 }
    ));
    assert!(matches!(
        WindowsBackendError::runner_session(RunnerSessionError::StandardStream(1u8)),
        WindowsBackendError::StandardStream(1)
    ));
    assert!(matches!(
        WindowsBackendError::runner_session(RunnerSessionError::Protocol(1u8)),
        WindowsBackendError::RunnerProtocol(1)
    ));
    assert!(matches!(
        WindowsBackendError::runner_session(RunnerSessionError::Boundary(1u8)),
        WindowsBackendError::RunnerBoundary { source: 1 }
    ));
    assert!(matches!(
        WindowsBackendError::runner_session(RunnerSessionError::<u8>::RunnerFailure(failure())),
        WindowsBackendError::RunnerFailure(_)
    ));
    assert!(matches!(
        WindowsBackendError::runner_session(RunnerSessionError::<u8>::LifecycleClosed),
        WindowsBackendError::RunnerLifecycle {
            source: RunnerSessionError::LifecycleClosed
        }
    ));
}
