use cageforge_windows::runner_protocol::{
    decode_runner_bootstrap_status, encode_frame, payload_length, read_frame, verify_version,
    FrameAssembly, PendingRunnerSpawnRequest, RunnerAccount, RunnerBootstrapStage,
    RunnerBootstrapStatus, RunnerMessage, RunnerMessageKind, RunnerSpawnRequest,
    RunnerStandardHandles, WindowsRunnerFailure, WindowsRunnerFailureCode,
    WindowsRunnerFailureStage, WindowsRunnerProtocolError, MAX_RUNNER_FRAME_BYTES,
    RUNNER_PROTOCOL_VERSION,
};
use serde_json::Value;

fn units(text: &str) -> Vec<u16> {
    text.encode_utf16().collect()
}

fn unit_value(units: &[u16]) -> Value {
    Value::Array(units.iter().map(|unit| Value::from(*unit)).collect())
}

fn value_units(value: &Value) -> Vec<u16> {
    value
        .as_array()
        .unwrap()
        .iter()
        .map(|unit| unit.as_u64().unwrap() as u16)
        .collect()
}

fn object(fields: Vec<(&str, Value)>) -> Value {
    let mut map = serde_json::Map::new();
    for (name, value) in fields {
        map.insert(name.to_string(), value);
    }
    Value::Object(map)
}

#[test]
fn bootstrap_exit_codes_are_exclusive_and_round_trip() {
    let stages = [
        RunnerBootstrapStage::Arguments,
        RunnerBootstrapStage::InstalledIdentity,
        RunnerBootstrapStage::RequestPipe,
        RunnerBootstrapStage::ResponsePipe,
        RunnerBootstrapStage::TransportAuthentication,
    ];

    for stage in stages {
        assert_eq!(
            u32::from(stage.code()),
            match stage {
                RunnerBootstrapStage::Arguments => 125,
                RunnerBootstrapStage::InstalledIdentity => 126,
                RunnerBootstrapStage::RequestPipe => 127,
                RunnerBootstrapStage::ResponsePipe => 128,
                RunnerBootstrapStage::TransportAuthentication => 129,
            }
        );
    }
}

#[test]
fn bootstrap_status_accepts_only_reserved_stages() {
    assert_eq!(
        decode_runner_bootstrap_status(0xcf7f_0005),
        Some(RunnerBootstrapStatus {
            stage: RunnerBootstrapStage::RequestPipe,
            native_code: Some(5),
        })
    );
    assert_eq!(decode_runner_bootstrap_status(0xcf7a_0005), None);
    assert_eq!(decode_runner_bootstrap_status(124), None);
    assert_eq!(decode_runner_bootstrap_status(130), None);
}

#[test]
fn plain_bootstrap_codes_report_their_stage() {
    for code in 125..=129u32 {
        let status = decode_runner_bootstrap_status(code).unwrap();
        assert_eq!(u32::from(status.stage.code()), code);
        assert_eq!(status.native_code, None);
        let marked = decode_runner_bootstrap_status(0xcf00_ffff | (code << 16)).unwrap();
        assert_eq!(marked.stage, status.stage);
        assert_eq!(marked.native_code, Some(0xffff));
    }
    assert_eq!(decode_runner_bootstrap_status(0), None);
    assert_eq!(RunnerBootstrapStage::from_code(0), None);
}

fn spawn_request() -> RunnerSpawnRequest {
    RunnerSpawnRequest {
        command: vec![vec![0xd800], units("argument")],
        working_directory: units(r"C:\workspace"),
        environment_block: units("Path=value\0\0"),
        capability_sids: vec!["S-1-5-21-1-2-3-4".to_string()],
        route_sid: Some("S-1-5-21-5-6-7-8".to_string()),
        account: RunnerAccount::Offline,
        standard_handles: RunnerStandardHandles {
            stdin: 0x1111,
            stdout: 0x2222,
            stderr: 0x3333,
        },
        job_handle: 0x1234_5678,
        desktop_name: units("Cageforge-test"),
    }
}

fn encode_spawn(request: &RunnerSpawnRequest) -> Vec<u8> {
    let handles = object(vec![
        ("stdin", Value::from(request.standard_handles.stdin)),
        ("stdout", Value::from(request.standard_handles.stdout)),
        ("stderr", Value::from(request.standard_handles.stderr)),
    ]);
    let value = object(vec![
        (
            "command",
            Value::Array(request.command.iter().map(|word| unit_value(word)).collect()),
        ),
        ("working_directory", unit_value(&request.working_directory)),
        ("environment_block", unit_value(&request.environment_block)),
        (
            "capability_sids",
            Value::Array(
                request
                    .capability_sids
                    .iter()
                    .map(|sid| Value::from(sid.as_str()))
                    .collect(),
            ),
        ),
        ("route_sid", Value::from(request.route_sid.as_deref().unwrap())),
        (
            "account",
            Value::from(match request.account {
                RunnerAccount::Offline => "offline",
                RunnerAccount::Online => "online",
            }),
        ),
        ("standard_handles", handles),
        ("job_handle", Value::from(request.job_handle)),
        ("desktop_name", unit_value(&request.desktop_name)),
    ]);
    let frame = object(vec![
        ("version", Value::from(RUNNER_PROTOCOL_VERSION)),
        (
            "message",
            object(vec![("type", Value::from("spawn")), ("request", value)]),
        ),
    ]);
    serde_json::to_vec(&frame).expect("encode frame")
}

#[test]
fn spawn_request_round_trip_preserves_utf16_and_job_handle() {
    let encoded = encode_frame(&encode_spawn(&spawn_request())).expect("write spawn frame");
    let payload = read_frame(&encoded).expect("read spawn frame");
    let frame: Value = serde_json::from_slice(&payload).expect("decode frame");
    verify_version(frame["version"].as_u64().unwrap() as u32).expect("version");
    let request = &frame["message"]["request"];

    assert_eq!(value_units(&request["command"][0]), vec![0xd800]);
    assert_eq!(request["job_handle"].as_u64(), Some(0x1234_5678));
    assert_eq!(request["standard_handles"]["stdin"].as_u64(), Some(0x1111));
    assert_eq!(request["standard_handles"]["stdout"].as_u64(), Some(0x2222));
    assert_eq!(request["standard_handles"]["stderr"].as_u64(), Some(0x3333));
    assert_eq!(request["route_sid"].as_str(), Some("S-1-5-21-5-6-7-8"));
}

#[test]
fn oversized_declared_frame_is_rejected_before_allocation() {
    let length = ((MAX_RUNNER_FRAME_BYTES as u32) + 1).to_le_bytes();
    let result = read_frame(&length.to_vec());

    assert!(matches!(
        result,
        Err(WindowsRunnerProtocolError::FrameTooLarge { .. })
    ));
}

#[test]
fn protocol_version_mismatch_is_typed() {
    let frame = object(vec![
        ("version", Value::from(RUNNER_PROTOCOL_VERSION + 1)),
        (
            "message",
            object(vec![
                ("type", Value::from("exited")),
                ("exit_code", Value::from(0)),
            ]),
        ),
    ]);
    let payload = serde_json::to_vec(&frame).expect("encode mismatched frame");
    let mut encoded = (payload.len() as u32).to_le_bytes().to_vec();
    encoded.extend_from_slice(&payload);
    let read = read_frame(&encoded).expect("the frame is whole");
    let decoded: Value = serde_json::from_slice(&read).expect("decode");
    let result = verify_version(decoded["version"].as_u64().unwrap() as u32);

    assert!(matches!(
        result,
        Err(WindowsRunnerProtocolError::VersionMismatch { .. })
    ));
}

#[test]
fn frames_are_length_prefixed() {
    assert_eq!(
        encode_frame(&vec![7, 8, 9]).unwrap(),
        vec![3, 0, 0, 0, 7, 8, 9]
    );
    assert_eq!(read_frame(&vec![3, 0, 0, 0, 7, 8, 9]).unwrap(), vec![7, 8, 9]);
    assert_eq!(payload_length(&vec![0, 1, 0, 0]).unwrap(), 256);
    assert!(matches!(
        payload_length(&vec![1, 0, 0x80, 0]),
        Err(WindowsRunnerProtocolError::FrameTooLarge {
            actual: 0x80_0001,
            maximum: MAX_RUNNER_FRAME_BYTES
        })
    ));
    assert!(matches!(
        encode_frame(&vec![0; MAX_RUNNER_FRAME_BYTES + 1]),
        Err(WindowsRunnerProtocolError::FrameTooLarge { .. })
    ));
}

#[test]
fn cut_off_frames_are_refused() {
    assert!(matches!(
        read_frame(&vec![3, 0]),
        Err(WindowsRunnerProtocolError::LengthRead { .. })
    ));
    assert!(matches!(
        read_frame(&vec![3, 0, 0, 0, 7]),
        Err(WindowsRunnerProtocolError::PayloadRead { .. })
    ));
}

#[test]
fn a_frame_is_assembled_from_pieces() {
    let frame = encode_frame(&b"hello".to_vec()).unwrap();
    let mut assembly = FrameAssembly::new();
    let mut at = 0;
    while assembly.missing() > 0 {
        let piece = std::cmp::min(2, assembly.missing());
        assembly.supply(&frame[at..at + piece].to_vec()).unwrap();
        at += piece;
    }
    assert_eq!(at, frame.len());
    assert_eq!(assembly.into_payload(), b"hello".to_vec());

    let mut refused = FrameAssembly::new();
    assert_eq!(refused.missing(), 4);
    assert!(matches!(
        refused.supply(&vec![0xff, 0xff, 0xff, 0xff]),
        Err(WindowsRunnerProtocolError::FrameTooLarge { .. })
    ));
}

#[test]
fn a_pending_request_is_bound_to_its_handles() {
    let pending = PendingRunnerSpawnRequest {
        command: vec![units("a")],
        working_directory: units("b"),
        environment_block: units("c"),
        capability_sids: vec!["S-1".to_string()],
        route_sid: None,
        account: RunnerAccount::Online,
        desktop_name: units("d"),
    };
    let bound = pending.bind(
        RunnerStandardHandles {
            stdin: 1,
            stdout: 2,
            stderr: 3,
        },
        9,
    );
    assert_eq!(bound.command, vec![units("a")]);
    assert_eq!(bound.job_handle, 9);
    assert_eq!(bound.standard_handles.stderr, 3);
    assert_eq!(bound.desktop_name, units("d"));
    assert!(matches!(bound.account, RunnerAccount::Online));
}

#[test]
fn messages_have_labels() {
    let failure = WindowsRunnerFailure::new(
        WindowsRunnerFailureStage::Token,
        WindowsRunnerFailureCode::TokenPrivilege,
        Some(5),
        "no".to_string(),
    );
    assert_eq!(failure.stage(), WindowsRunnerFailureStage::Token);
    assert_eq!(failure.code(), WindowsRunnerFailureCode::TokenPrivilege);
    assert_eq!(failure.native_code(), Some(5));
    assert_eq!(failure.detail(), "no");
    let message = RunnerMessage::Failed { failure };
    assert_eq!(message.kind(), RunnerMessageKind::Failed);
    assert_eq!(RunnerMessage::Ready.kind(), RunnerMessageKind::Ready);
    assert_eq!(
        RunnerMessage::Spawn {
            request: spawn_request()
        }
        .kind(),
        RunnerMessageKind::Spawn
    );
    assert!(!RunnerMessageKind::Exited.label().is_empty());
    assert_ne!(
        RunnerMessageKind::Exited.label(),
        RunnerMessageKind::Spawned.label()
    );
}
