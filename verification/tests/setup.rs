use cageforge_windows::descriptors::{
    descriptor_matches, protected_descriptor_matches, sid_fits_ace, user_condition_matches,
    DescriptorFacts, ObservedAce, ObservedAcl, ProtectedDescriptor, RunnerResourceKind,
    UserConditionFacts,
};
use cageforge_windows::filesystem_path::{
    FilesystemObjectIdentity, OpenFacts, SizedRead, ValidatedPathError,
};
use cageforge_windows::native_path::NativePath;
use cageforge_windows::owner_identity::{owner_key, ManagedAccountNames};
use cageforge_windows::setup::{
    stale_error, stale_reason, AccountsEvent, AccountsStep, HelperRun, ResourceSource,
    SetupMarker, SetupMarkerAccounts, WindowsSetup, WindowsSetupConfig, WindowsSetupDetails,
    WindowsSetupStaleReason, WindowsSetupStatus, WindowsStateDirectorySource,
};
use cageforge_windows::setup_error::{
    AccountRole, WindowsAccountLookupError, WindowsAccountVerificationError, WindowsSetupError,
    WindowsSetupVerificationError,
};
use cageforge_windows::setup_paths::{
    map_runner_resource_error, open_checked, verify_open_dacl, ProtectionRead, RequiredProtection,
    RunnerResourceSecurityError, SetupPinnedFileError,
};
use cageforge_windows::setup_protocol::{
    ports_from_digest, proxy_ports_for_current_owner, setup_request, SetupFailureCode,
    SetupOperation, SetupOutcome, SetupResponse, SetupStage, SETUP_PROTOCOL_VERSION,
};
use cageforge_windows::setup_resources::{
    bundled_candidates, bundled_resource_path_for_exe, file_digest, resolve_resource, OwnPath,
    BIN_DIRNAME, COMMAND_RUNNER_NAME, RESOURCES_DIRNAME, SETUP_HELPER_NAME,
};
use cageforge_windows::setup_rights::{enumerated_rights, lsa_string, verify_rights};
use cageforge_windows::setup_status::{
    direct_exit_code, helper_arguments, helper_outcome, last_checkpoint, HelperEvent, HelperStep,
    Presence, StatusEvent, StatusStep, UninstallEvent, UninstallStep,
};
use cageforge_windows::setup_wfp::{
    condition_matches, derived_guid, filter_expectations, guid_string, verify_filter,
    verify_provider, verify_sublayer, ConditionExpectation, FilterExpectation, Guid,
    ObservedCondition, ObservedFilter, ObservedOwner, ObservedValue, WfpBaseCondition,
    WfpBaseFilter, WfpLayer, WfpStep, FWP_ACTION_BLOCK, FWP_ACTION_PERMIT, IPPROTO_TCP,
    IPV4_LOOPBACK_HOST_ORDER,
};

const OWNER: &str = "S-1-5-21-1-2-3-1001";

fn path(text: &str) -> NativePath {
    NativePath::parse(&text.encode_utf16().collect::<Vec<u16>>())
}

fn text(path: &NativePath) -> String {
    String::from_utf16(&path.text_units()).unwrap()
}

#[test]
fn owner_key_is_case_insensitive() {
    assert_eq!(
        owner_key("S-1-5-21-100-200-300-400"),
        owner_key("s-1-5-21-100-200-300-400")
    );
}

#[test]
fn owner_keys_are_digests() {
    assert_eq!(
        owner_key(OWNER),
        "c169ebe52e9c0ba43200ce3a6af1b392219cdaf6006bba3e879ccb699a245fae"
    );
    let names = ManagedAccountNames::for_owner(OWNER);
    assert_eq!(names.offline, "CgfOff_c169ebe52e9c");
    assert_eq!(names.online, "CgfOn_c169ebe52e9c");
    assert_eq!(names.group, "CgfGrp_c169ebe52e9c");
    assert_eq!(
        file_digest(b"abc"),
        "ba7816bf8f01cfea414140de5dae2223b00361a396177a9cb410ff61f20015ad"
    );
}

#[test]
fn malformed_wfp_user_ace_sid_is_rejected_before_native_validation() {
    let mut ace = [0u8; 20];
    ace[1] = 3;
    assert!(!sid_fits_ace(&ace, ace.len()));
}

fn base_filters() -> Vec<WfpBaseFilter> {
    (0..12u16)
        .map(|index| WfpBaseFilter {
            label: format!("base-{index}"),
            layer: if index % 2 == 0 {
                WfpLayer::ConnectV4
            } else {
                WfpLayer::ConnectV6
            },
            condition: if index < 4 {
                WfpBaseCondition::Protocol(index as u8)
            } else {
                WfpBaseCondition::RemotePort(index)
            },
        })
        .collect()
}

#[test]
fn expectations_cover_the_complete_offline_wfp_boundary() {
    let specs = filter_expectations(OWNER, &[40_000, 40_002], &base_filters());

    assert_eq!(specs.len(), 16);
    assert_eq!(
        specs
            .iter()
            .filter(|spec| spec.action == FWP_ACTION_BLOCK)
            .count(),
        14
    );
    assert_eq!(
        specs
            .iter()
            .filter(|spec| spec.action == FWP_ACTION_PERMIT)
            .count(),
        2
    );
    assert!(specs
        .iter()
        .filter(|spec| spec.action == FWP_ACTION_BLOCK)
        .all(|spec| spec.weight == 1));
    assert!(specs
        .iter()
        .filter(|spec| spec.action == FWP_ACTION_PERMIT)
        .all(|spec| {
            spec.weight == 2
                && matches!(
                    spec.conditions.as_slice(),
                    [
                        ConditionExpectation::User,
                        ConditionExpectation::Protocol(protocol),
                        ConditionExpectation::RemoteAddressV4(address),
                        ConditionExpectation::RemotePort(_),
                    ] if *protocol == IPPROTO_TCP
                        && *address == IPV4_LOOPBACK_HOST_ORDER
                )
        }));
    assert!(specs
        .iter()
        .any(|spec| spec.name.contains("default-deny-v4")));
    assert!(specs
        .iter()
        .any(|spec| spec.name.contains("default-deny-v6")));
}

#[test]
fn filter_keys_are_derived_from_their_label() {
    assert_eq!(
        guid_string(derived_guid(OWNER, "default-deny-v4")),
        "{029182c5-582e-5e93-9cef-bb6405e5de7a}"
    );
    let specs = filter_expectations(OWNER, &[40_000], &base_filters());
    assert_eq!(specs[12].name, "cageforge_proxy-v4-40000_c169ebe52e9c");
    assert_eq!(specs[13].key, derived_guid(OWNER, "default-deny-v4"));
    assert_eq!(specs[0].name, "cageforge_base-0_c169ebe52e9c");
    assert_eq!(
        guid_string(WfpLayer::ConnectV4.key()),
        "{c38d57d1-05a7-4c33-904f-7fbceee60e82}"
    );
}

fn guid(first: u32) -> Guid {
    Guid {
        first,
        second: 2,
        third: 3,
        fourth: 4,
    }
}

fn sid(last: u8) -> Vec<u8> {
    vec![1, 1, 0, 0, 0, 0, 0, 5, last, 0, 0, 0]
}

fn allowing(mask: u32, flags: u8, sid: &[u8]) -> Vec<u8> {
    let mut bytes = vec![0, flags, (8 + sid.len()) as u8, 0];
    bytes.extend(mask.to_le_bytes());
    bytes.extend(sid);
    bytes
}

fn list(entries: &[(u32, u8, u8, &str)]) -> ObservedAcl {
    let mut bytes = vec![2, 0, 0, 0, 0, 0, 0, 0];
    let mut aces = vec![];
    for (mask, flags, last, name) in entries {
        aces.push(ObservedAce {
            address: Some(4096 + bytes.len()),
            sid: Some(name.to_string()),
        });
        bytes.extend(allowing(*mask, *flags, &sid(*last)));
    }
    ObservedAcl {
        start: 4096,
        bytes: Some(bytes),
        aces,
    }
}

fn user_facts(mask: u32, flags: u8) -> UserConditionFacts {
    UserConditionFacts {
        blob_size: Some(64),
        valid: true,
        length: 64,
        expected_sid: Some(sid(7)),
        dacl: Some(list(&[(mask, flags, 7, "S")])),
    }
}

#[test]
fn user_conditions_name_exactly_one_account() {
    assert!(user_condition_matches(&user_facts(1, 0)));
    assert!(!user_condition_matches(&user_facts(3, 0)));
    assert!(!user_condition_matches(&user_facts(1, 2)));
    let mut other = user_facts(1, 0);
    other.expected_sid = Some(sid(8));
    assert!(!user_condition_matches(&other));
    let mut long = user_facts(1, 0);
    long.length = 65;
    assert!(!user_condition_matches(&long));
    let mut two = user_facts(1, 0);
    two.dacl = Some(list(&[(1, 0, 7, "S"), (1, 0, 7, "S")]));
    assert!(!user_condition_matches(&two));
    let mut outside = user_facts(1, 0);
    outside.dacl.as_mut().unwrap().aces[0].address = Some(4096 + 28);
    assert!(!user_condition_matches(&outside));
}

fn observed(expected: &FilterExpectation) -> ObservedFilter {
    ObservedFilter {
        key: expected.key,
        flags: 1,
        layer_key: expected.layer_key,
        sublayer_key: guid(9),
        provider_key: Some(guid(8)),
        action: expected.action,
        weight: Some(expected.weight),
        conditions: Some(
            expected
                .conditions
                .iter()
                .map(|condition| ObservedCondition {
                    field: condition.field(),
                    equal: true,
                    value: match condition {
                        ConditionExpectation::User => {
                            ObservedValue::SecurityDescriptor(user_facts(1, 0))
                        }
                        ConditionExpectation::Protocol(value) => ObservedValue::Uint8(*value),
                        ConditionExpectation::RemoteAddressV4(value) => {
                            ObservedValue::Uint32(*value)
                        }
                        ConditionExpectation::RemotePort(value) => ObservedValue::Uint16(*value),
                    },
                })
                .collect(),
        ),
    }
}

#[test]
fn installed_filters_are_compared_whole() {
    for expected in filter_expectations(OWNER, &[40_000], &base_filters()) {
        let check = |change: &dyn Fn(&mut ObservedFilter)| {
            let mut filter = observed(&expected);
            change(&mut filter);
            verify_filter::<u8>(&expected, 0, &Some(filter), guid(8), guid(9)).is_ok()
        };
        assert!(check(&|_| {}));
        assert!(!check(&|filter| filter.flags = 0));
        assert!(!check(&|filter| filter.action += 1));
        assert!(!check(&|filter| filter.weight = None));
        assert!(!check(&|filter| filter.provider_key = None));
        assert!(!check(&|filter| filter.sublayer_key = guid(8)));
        assert!(!check(&|filter| filter.conditions = None));
        assert!(!check(&|filter| {
            filter.conditions.as_mut().unwrap().pop();
        }));
        assert!(!check(&|filter| {
            filter.conditions.as_mut().unwrap()[0].equal = false;
        }));
        assert!(matches!(
            verify_filter::<u8>(&expected, 5, &None, guid(8), guid(9)),
            Err(WindowsSetupVerificationError::WfpFilter { name, code: 5 })
                if name == expected.name
        ));
    }
    assert!(!condition_matches(
        &ObservedCondition {
            field: ConditionExpectation::RemotePort(1).field(),
            equal: true,
            value: ObservedValue::Other,
        },
        ConditionExpectation::RemotePort(1)
    ));
}

#[test]
fn filter_owners_are_persistent() {
    let owner = |key, flags, provider_key| {
        Some(ObservedOwner {
            key,
            flags,
            provider_key,
        })
    };
    assert!(verify_provider::<u8>(0, owner(guid(8), 1, None), guid(8)).is_ok());
    assert!(matches!(
        verify_provider::<u8>(6, owner(guid(8), 1, None), guid(8)),
        Err(WindowsSetupVerificationError::WfpProvider { code: 6 })
    ));
    assert!(verify_provider::<u8>(0, owner(guid(8), 0, None), guid(8)).is_err());
    assert!(verify_sublayer::<u8>(0, owner(guid(9), 1, Some(guid(8))), guid(9), guid(8)).is_ok());
    assert!(matches!(
        verify_sublayer::<u8>(0, owner(guid(9), 1, None), guid(9), guid(8)),
        Err(WindowsSetupVerificationError::WfpSublayer { code: 0 })
    ));
}

#[test]
fn every_filter_is_looked_at_in_turn() {
    let provider = guid(8);
    let mut step = WfpStep::<u8>::first(&guid_string(provider).to_uppercase(), provider);
    for _ in 0..3 {
        step = step.advance(Ok(()), 2);
    }
    assert!(matches!(step, WfpStep::Filter { index: 0 }));
    step = step.advance(Ok(()), 2);
    assert!(matches!(step, WfpStep::Filter { index: 1 }));
    assert!(matches!(step.advance(Ok(()), 2), WfpStep::Done));
    assert!(matches!(
        WfpStep::<u8>::first("{}", provider),
        WfpStep::Failed {
            error: WindowsSetupVerificationError::WfpProvider { code: 0 }
        }
    ));
    assert!(matches!(
        WfpStep::<u8>::OpenEngine.advance(
            Err(WindowsSetupVerificationError::WfpEngineOpen { code: 3 }),
            2
        ),
        WfpStep::Failed {
            error: WindowsSetupVerificationError::WfpEngineOpen { code: 3 }
        }
    ));
}

fn owned(dacl: ObservedAcl) -> DescriptorFacts {
    DescriptorFacts {
        valid: true,
        owner: Some(vec![7]),
        expected_owner: Some(vec![7]),
        control: Some(0x9004),
        dacl: Some(dacl),
    }
}

const ALL: u32 = 0x001f_01ff;

#[test]
fn protected_descriptors_allow_exactly_their_grants() {
    let own = || {
        vec![
            (ALL, 0, 1, "S-1-5-18"),
            (ALL, 0, 2, "S-1-5-32-544"),
            (ALL, 0, 3, OWNER),
        ]
    };
    let owner_only = ProtectedDescriptor::OwnerOnly { inherit: false };
    let facts = owned(list(&own()));
    assert!(protected_descriptor_matches(&facts, OWNER, &owner_only));
    let mut reversed = own();
    reversed.reverse();
    assert!(protected_descriptor_matches(
        &owned(list(&reversed)),
        OWNER,
        &owner_only
    ));
    assert!(!protected_descriptor_matches(
        &facts,
        OWNER,
        &ProtectedDescriptor::OwnerOnly { inherit: true }
    ));
    let mut doubled = own();
    doubled[2] = doubled[1];
    assert!(!protected_descriptor_matches(
        &owned(list(&doubled)),
        OWNER,
        &owner_only
    ));
    let mut group = own();
    group.push((0x0012_00a9, 0, 4, "S-group"));
    assert!(protected_descriptor_matches(
        &owned(list(&group)),
        OWNER,
        &ProtectedDescriptor::RunnerDirectory {
            group_sid: "S-group"
        }
    ));
    assert!(descriptor_matches(
        &owned(list(&group)),
        OWNER,
        "S-group",
        RunnerResourceKind::Executable
    ));
    assert!(!descriptor_matches(
        &owned(list(&group)),
        OWNER,
        "S-group",
        RunnerResourceKind::Manifest
    ));
    let mut open = owned(list(&own()));
    open.control = Some(0x8004);
    assert!(!protected_descriptor_matches(&open, OWNER, &owner_only));
    let mut foreign = owned(list(&own()));
    foreign.owner = Some(vec![8]);
    assert!(!protected_descriptor_matches(&foreign, OWNER, &owner_only));
}

#[test]
fn protected_paths_report_what_they_are() {
    let required = RequiredProtection::Setup(ProtectedDescriptor::OwnerOnly { inherit: false });
    let read = |status, written: Result<Option<Vec<u16>>, u32>| {
        verify_open_dacl::<u8>(
            &path(r"C:\a"),
            OWNER,
            &required,
            ProtectionRead {
                status,
                text: written,
                facts: owned(list(&[
                    (ALL, 0, 1, "S-1-5-18"),
                    (ALL, 0, 2, "S-1-5-32-544"),
                    (ALL, 0, 3, "S-other"),
                ])),
            },
        )
    };
    assert!(matches!(
        read(5, Ok(None)),
        Err(WindowsSetupVerificationError::ProtectedAclRead { code: 5, .. })
    ));
    assert!(matches!(
        read(0, Err(6)),
        Err(WindowsSetupVerificationError::ProtectedAclRead { code: 6, .. })
    ));
    assert!(matches!(
        read(0, Ok(None)),
        Err(WindowsSetupVerificationError::ProtectedAclRead { code: 13, .. })
    ));
    assert!(matches!(
        read(0, Ok(Some(vec![68, 58, 0]))),
        Err(WindowsSetupVerificationError::ProtectedSecurityDescriptorMismatch { actual, .. })
            if actual == "D:"
    ));
    assert!(matches!(
        map_runner_resource_error::<u8>(RunnerResourceSecurityError::Unsafe {
            path: path(r"C:\a"),
            detail: "x".to_string()
        }),
        WindowsSetupVerificationError::ProtectedPathUnsafe { detail, .. } if detail == "x"
    ));
    assert!(matches!(
        map_runner_resource_error::<u8>(RunnerResourceSecurityError::Read {
            path: path(r"C:\a"),
            code: 4
        }),
        WindowsSetupVerificationError::ProtectedAclRead { code: 4, .. }
    ));
}

fn open_facts(name: &str, attributes: u32) -> OpenFacts {
    let read = || SizedRead {
        required: 9,
        required_code: 7,
        length: 8,
        length_code: 8,
    };
    OpenFacts {
        opened: Ok(()),
        attributes: Ok(attributes),
        identity: Ok(FilesystemObjectIdentity {
            volume_serial_number: 3,
            file_id: [4; 16],
        }),
        final_read: read(),
        final_path: path(name),
        long_read: read(),
        expanded_path: path(name),
    }
}

#[test]
fn pinned_files_are_what_their_path_names() {
    let file = path(r"C:\a");
    assert!(open_checked(&file, open_facts(r"C:\a", 0x20), false).is_ok());
    assert!(open_checked(&file, open_facts(r"C:\a", 0x10), true).is_ok());
    assert!(matches!(
        open_checked(&file, open_facts(r"C:\a", 0x20), true),
        Err(SetupPinnedFileError::NotDirectory { .. })
    ));
    assert!(matches!(
        open_checked(&file, open_facts(r"C:\a", 0x410), true),
        Err(SetupPinnedFileError::Path(
            ValidatedPathError::ReparsePoint { .. }
        ))
    ));
    let mut moved = open_facts(r"C:\a", 0x20);
    moved.expanded_path = path(r"C:\b");
    assert!(matches!(
        open_checked(&file, moved, false),
        Err(SetupPinnedFileError::Path(
            ValidatedPathError::FinalPathMismatch { .. }
        ))
    ));
}

#[test]
fn account_rights_are_exact() {
    let rights = |names: &[&str]| names.iter().map(|name| name.to_string()).collect();
    let required = "SeDenyRemoteInteractiveLogonRight";
    assert!(verify_rights::<u8>("S", &rights(&[required])).is_ok());
    assert!(matches!(
        verify_rights::<u8>("S", &rights(&[])),
        Err(WindowsSetupVerificationError::MissingAccountRight { .. })
    ));
    for unexpected in ["SeBatchLogonRight", "SeDenyInteractiveLogonRight"] {
        assert!(matches!(
            verify_rights::<u8>("S", &rights(&[required, unexpected])),
            Err(WindowsSetupVerificationError::UnexpectedAccountRight { right, .. })
                if right == unexpected
        ));
    }
    assert_eq!(lsa_string(4, 6, Some(vec![97, 98])), "ab");
    assert_eq!(lsa_string(5, 6, Some(vec![97, 98])), "");
    assert_eq!(lsa_string(8, 6, Some(vec![97])), "");
    assert_eq!(lsa_string(4, 6, None), "");
    assert_eq!(
        enumerated_rights::<u8>("S", 0, None).unwrap(),
        Vec::<String>::new()
    );
    assert!(matches!(
        enumerated_rights::<u8>("S", 1, None),
        Err(WindowsSetupVerificationError::AccountRightsRead { code: 13, .. })
    ));
}

#[test]
fn bundled_resource_lookup_prefers_a_direct_sibling() {
    let executable = path(r"C:\temporary\application.exe");
    let candidates = bundled_candidates(&executable, SETUP_HELPER_NAME);
    let files = [
        format!(r"C:\temporary\{SETUP_HELPER_NAME}"),
        format!(r"C:\temporary\{RESOURCES_DIRNAME}\{SETUP_HELPER_NAME}"),
    ];
    let is_file = candidates
        .iter()
        .map(|candidate| files.contains(&text(candidate)))
        .collect();

    assert_eq!(
        bundled_resource_path_for_exe(&executable, SETUP_HELPER_NAME, &is_file)
            .as_ref()
            .map(text),
        Some(files[0].clone())
    );
}

#[test]
fn bundled_resource_lookup_checks_package_resources_for_bin_executables() {
    let executable = path(&format!(r"C:\temporary\{BIN_DIRNAME}\application.exe"));
    let candidates = bundled_candidates(&executable, COMMAND_RUNNER_NAME);
    let resource = format!(r"C:\temporary\{RESOURCES_DIRNAME}\{COMMAND_RUNNER_NAME}");
    let is_file = candidates
        .iter()
        .map(|candidate| text(candidate) == resource)
        .collect();

    assert_eq!(
        bundled_resource_path_for_exe(&executable, COMMAND_RUNNER_NAME, &is_file)
            .as_ref()
            .map(text),
        Some(resource)
    );
}

#[test]
fn bundled_resource_lookup_returns_none_for_missing_resources() {
    let executable = path(r"C:\temporary\application.exe");
    let candidates = bundled_candidates(&executable, SETUP_HELPER_NAME);
    let is_file = candidates.iter().map(|_| false).collect();

    assert!(bundled_resource_path_for_exe(&executable, SETUP_HELPER_NAME, &is_file).is_none());
}

#[test]
fn resources_are_resolved_by_their_source() {
    let own = OwnPath::Known(path(r"C:\t\a.exe"));
    let resolve = |source: &ResourceSource, own: &OwnPath| {
        resolve_resource::<u8>(
            source,
            "helper.exe",
            own,
            &vec![false, true],
            "missing".to_string(),
            "no parent".to_string(),
        )
    };
    assert_eq!(
        text(&resolve(&ResourceSource::Explicit(path(r"C:\x")), &own).unwrap()),
        r"C:\x"
    );
    assert_eq!(
        text(&resolve(&ResourceSource::Sibling, &own).unwrap()),
        r"C:\t\helper.exe"
    );
    assert_eq!(
        text(&resolve(&ResourceSource::Bundled, &own).unwrap()),
        format!(r"C:\t\{RESOURCES_DIRNAME}\helper.exe")
    );
    let detail = |result| match result {
        Err(WindowsSetupError::HelperUnavailable { detail }) => detail,
        other => panic!("{other:?}"),
    };
    let unknown = OwnPath::Unknown("lost".to_string());
    assert_eq!(detail(resolve(&ResourceSource::Bundled, &unknown)), "lost");
    assert_eq!(detail(resolve(&ResourceSource::Sibling, &unknown)), "lost");
    let root = OwnPath::Known(path(r"C:\"));
    assert_eq!(detail(resolve(&ResourceSource::Sibling, &root)), "no parent");
    assert_eq!(detail(resolve(&ResourceSource::Bundled, &root)), "missing");
}

fn marker() -> SetupMarker {
    let names = ManagedAccountNames::for_owner(OWNER);
    SetupMarker {
        version: 1,
        owner_sid: OWNER.to_lowercase(),
        accounts: SetupMarkerAccounts {
            offline_name: names.offline,
            offline_sid: "S-off".to_string(),
            online_name: names.online,
            online_sid: "S-on".to_string(),
            group_name: names.group,
            group_sid: "S-grp".to_string(),
        },
        proxy_ports: vec![49_152, 49_153],
        firewall_policy_id: "policy".to_string(),
        wfp_provider_id: "provider".to_string(),
        setup_helper_sha256: "aa".to_string(),
        command_runner_sha256: "bb".to_string(),
        runner_manifest_sha256: "cc".to_string(),
        credential_sha256: "dd".to_string(),
    }
}

fn details() -> WindowsSetupDetails {
    marker().into_details(path(r"C:\state"))
}

#[test]
fn setup_details_carry_the_marker() {
    let details = details();
    assert_eq!(details.version(), 1);
    assert_eq!(details.owner_sid(), OWNER.to_lowercase());
    assert_eq!(text(details.state_directory()), r"C:\state");
    assert_eq!(details.accounts().offline_name(), "CgfOff_c169ebe52e9c");
    assert_eq!(details.accounts().offline_sid(), "S-off");
    assert_eq!(details.accounts().online_name(), "CgfOn_c169ebe52e9c");
    assert_eq!(details.accounts().online_sid(), "S-on");
    assert_eq!(details.accounts().group_name(), "CgfGrp_c169ebe52e9c");
    assert_eq!(details.accounts().group_sid(), "S-grp");
    assert_eq!(details.accounts().sid(AccountRole::Online), "S-on");
    assert_eq!(details.proxy_ports(), &[49_152, 49_153]);
    assert_eq!(details.firewall_policy_id(), "policy");
    assert_eq!(details.wfp_provider_id(), "provider");
    assert_eq!(details.setup_helper_sha256(), "aa");
    assert_eq!(details.command_runner_sha256(), "bb");
    assert_eq!(details.runner_manifest_sha256(), "cc");
    assert_eq!(details.credential_sha256(), "dd");
}

#[test]
fn stale_markers_say_why() {
    assert!(stale_reason(&marker(), OWNER).is_none());
    let mut old = marker();
    old.version = 0;
    let reason = stale_reason(&old, OWNER).unwrap();
    assert!(matches!(
        reason,
        WindowsSetupStaleReason::Version {
            expected: 1,
            actual: 0
        }
    ));
    assert!(matches!(
        stale_error::<u8>(reason),
        WindowsSetupError::VersionMismatch {
            expected: 1,
            actual: 0
        }
    ));
    let reason = stale_reason(&marker(), "S-2").unwrap();
    assert!(matches!(
        stale_error::<u8>(reason),
        WindowsSetupError::OwnerMismatch { expected, .. } if expected == "S-2"
    ));
    let mut renamed = marker();
    renamed.accounts.group_name = "other".to_string();
    let reason = stale_reason(&renamed, OWNER).unwrap();
    assert!(matches!(
        stale_error::<u8>(reason),
        WindowsSetupError::AccountIdentityMismatch
    ));
}

fn setup(state_directory: WindowsStateDirectorySource) -> WindowsSetup {
    WindowsSetup::new(WindowsSetupConfig {
        state_directory,
        setup_helper: ResourceSource::Bundled,
        command_runner: ResourceSource::Sibling,
    })
}

#[test]
fn setups_are_compared_by_what_they_hold() {
    assert_eq!(details(), details().clone());
    let mut renamed = marker();
    renamed.accounts.group_name = "other".to_string();
    assert_ne!(renamed, marker());
    assert_ne!(renamed.clone().into_details(path(r"C:\state")), details());
    assert_ne!(marker().into_details(path(r"C:\elsewhere")), details());
    let ready = WindowsSetupStatus::Ready(details());
    assert_eq!(ready, ready.clone());
    assert_ne!(
        ready,
        WindowsSetupStatus::Missing {
            marker_path: path(r"C:\state")
        }
    );
    let shared = setup(WindowsStateDirectorySource::ProgramData);
    assert_eq!(shared, shared.clone());
    assert_ne!(
        shared,
        setup(WindowsStateDirectorySource::Explicit(path(r"D:\s")))
    );
    assert_eq!(details().accounts(), details().accounts());
    assert_eq!(
        stale_reason(&marker(), "S-2"),
        stale_reason(&marker(), "S-2")
    );
}

#[test]
fn state_directories_are_per_owner() {
    let key = owner_key(OWNER);
    let shared = setup(WindowsStateDirectorySource::ProgramData);
    assert_eq!(
        text(
            &shared
                .state_directory_for::<u8>(OWNER, Ok(path(r"C:\ProgramData")))
                .unwrap()
        ),
        format!(r"C:\ProgramData\Cageforge\windows-sandbox\{key}")
    );
    assert!(matches!(
        shared.state_directory_for::<u8>(OWNER, Err(-7)),
        Err(WindowsSetupError::ProgramDataUnavailable { code: -7 })
    ));
    let explicit = setup(WindowsStateDirectorySource::Explicit(path(r"D:\s")));
    assert_eq!(
        text(
            &explicit
                .state_directory::<u8>(Ok(OWNER.to_string()), Err(-7))
                .unwrap()
        ),
        format!(r"D:\s\{key}")
    );
    assert!(matches!(
        explicit.state_directory(Err(9u8), Err(-7)),
        Err(WindowsSetupError::CurrentUserSid { source: 9 })
    ));
    assert!(matches!(
        explicit.config().command_runner,
        ResourceSource::Sibling
    ));
}

#[test]
fn verification_needs_a_ready_setup() {
    let setup = setup(WindowsStateDirectorySource::ProgramData);
    assert!(setup
        .verify::<u8>(Ok(WindowsSetupStatus::Ready(details())))
        .is_ok());
    assert!(matches!(
        setup.verify::<u8>(Ok(WindowsSetupStatus::Missing {
            marker_path: path(r"C:\m")
        })),
        Err(WindowsSetupError::Missing { .. })
    ));
    assert!(matches!(
        setup.verify::<u8>(Ok(WindowsSetupStatus::Stale {
            marker_path: path(r"C:\m"),
            reason: WindowsSetupStaleReason::AccountIdentity
        })),
        Err(WindowsSetupError::AccountIdentityMismatch)
    ));
    assert!(matches!(
        setup.install::<u8>(HelperRun::Failed(WindowsSetupError::ElevationCanceled)),
        Err(WindowsSetupError::ElevationCanceled)
    ));
    assert!(setup
        .install::<u8>(HelperRun::Completed(Ok(WindowsSetupStatus::Ready(
            details()
        ))))
        .is_ok());
}

#[test]
fn accounts_are_looked_up_and_verified() {
    let details = details();
    let accounts = details.accounts();
    let step = AccountsStep::<u8>::first()
        .advance(AccountsEvent::Found(Ok("s-OFF".to_string())), accounts)
        .advance(AccountsEvent::Found(Ok("S-on".to_string())), accounts)
        .advance(AccountsEvent::Found(Ok("S-grp".to_string())), accounts)
        .advance(AccountsEvent::Verified(Ok(())), accounts);
    assert!(matches!(
        step,
        AccountsStep::Verify {
            role: AccountRole::Online
        }
    ));
    assert!(matches!(
        step.advance(AccountsEvent::Verified(Ok(())), accounts),
        AccountsStep::Done
    ));
    assert!(matches!(
        AccountsStep::<u8>::first()
            .advance(AccountsEvent::Found(Ok("S-x".to_string())), accounts),
        AccountsStep::Failed {
            error: WindowsSetupError::Verification(
                WindowsSetupVerificationError::AccountSidMismatch {
                    component: AccountRole::Offline,
                    ..
                }
            )
        }
    ));
    assert!(matches!(
        AccountsStep::<u8>::first().advance(
            AccountsEvent::Found(Err(WindowsAccountLookupError::SidRead {
                account: "a".to_string(),
                code: 3
            })),
            accounts
        ),
        AccountsStep::Failed {
            error: WindowsSetupError::AccountLookup {
                component: AccountRole::Offline,
                ..
            }
        }
    ));
    assert!(matches!(
        AccountsStep::<u8>::Verify {
            role: AccountRole::Offline
        }
        .advance(
            AccountsEvent::Verified(Err(WindowsAccountVerificationError::Disabled {
                account: "a".to_string()
            })),
            accounts
        ),
        AccountsStep::Failed {
            error: WindowsSetupError::AccountVerification(_)
        }
    ));
}

#[test]
fn status_is_ready_only_after_it_was_read_back() {
    let directory = path(r"C:\state");
    let step = StatusStep::<u8>::Inspect
        .advance(
            StatusEvent::Inspected(Presence::There),
            OWNER,
            &directory,
        )
        .advance(StatusEvent::Opened(Ok(())), OWNER, &directory)
        .advance(StatusEvent::Read(Ok(())), OWNER, &directory)
        .advance(StatusEvent::Decoded(Ok(marker())), OWNER, &directory)
        .advance(StatusEvent::Accounts(Ok(())), OWNER, &directory)
        .advance(StatusEvent::Native(Ok(())), OWNER, &directory);
    assert!(matches!(
        step,
        StatusStep::Finished {
            status: WindowsSetupStatus::Ready(_)
        }
    ));
    assert!(matches!(
        StatusStep::<u8>::Inspect.advance(
            StatusEvent::Inspected(Presence::Absent),
            OWNER,
            &directory
        ),
        StatusStep::Finished {
            status: WindowsSetupStatus::Missing { marker_path }
        } if text(&marker_path) == r"C:\state\setup.json"
    ));
    assert!(matches!(
        StatusStep::<u8>::Inspect.advance(
            StatusEvent::Inspected(Presence::Unknown(4)),
            OWNER,
            &directory
        ),
        StatusStep::Failed {
            error: WindowsSetupError::StateRead { source: 4, .. }
        }
    ));
    assert!(matches!(
        StatusStep::<u8>::Open.advance(
            StatusEvent::Opened(Err("link".to_string())),
            OWNER,
            &directory
        ),
        StatusStep::Failed {
            error: WindowsSetupError::StatePathUnsafe { .. }
        }
    ));
    assert!(matches!(
        StatusStep::<u8>::Decode.advance(StatusEvent::Decoded(Err(5)), OWNER, &directory),
        StatusStep::Failed {
            error: WindowsSetupError::StateDecode { source: 5, .. }
        }
    ));
    assert!(matches!(
        StatusStep::<u8>::Decode.advance(StatusEvent::Decoded(Ok(marker())), "S-2", &directory),
        StatusStep::Finished {
            status: WindowsSetupStatus::Stale {
                reason: WindowsSetupStaleReason::Owner { .. },
                ..
            }
        }
    ));
    assert!(matches!(
        StatusStep::<u8>::VerifyNative { details: details() }.advance(
            StatusEvent::Native(Err(WindowsSetupVerificationError::WfpEngineOpen { code: 1 })),
            OWNER,
            &directory
        ),
        StatusStep::Failed {
            error: WindowsSetupError::Verification(
                WindowsSetupVerificationError::WfpEngineOpen { code: 1 }
            )
        }
    ));
}

fn response(version: u32, outcome: SetupOutcome) -> SetupResponse {
    SetupResponse { version, outcome }
}

fn failed(code: SetupFailureCode) -> SetupOutcome {
    SetupOutcome::Failed {
        stage: SetupStage::Wfp,
        code,
        native_code: Some(5),
        detail: "detail".to_string(),
    }
}

#[test]
fn helper_answers_are_judged_with_the_exit_code() {
    let version = SETUP_PROTOCOL_VERSION;
    assert!(helper_outcome::<u8>(0, response(version, SetupOutcome::Complete)).is_ok());
    assert!(matches!(
        helper_outcome::<u8>(1, response(version, SetupOutcome::Complete)),
        Err(WindowsSetupError::HelperExitMismatch { exit_code: 1 })
    ));
    assert!(matches!(
        helper_outcome::<u8>(0, response(2, SetupOutcome::Complete)),
        Err(WindowsSetupError::ResponseVersionMismatch {
            expected: 3,
            actual: 2
        })
    ));
    assert!(matches!(
        helper_outcome::<u8>(1, response(version, failed(SetupFailureCode::ActiveSandboxes))),
        Err(WindowsSetupError::ActiveSandboxes)
    ));
    assert!(matches!(
        helper_outcome::<u8>(1, response(version, failed(SetupFailureCode::NotElevated))),
        Err(WindowsSetupError::HelperFailed {
            code: SetupFailureCode::NotElevated,
            native_code: Some(5),
            ..
        })
    ));
    assert_eq!(direct_exit_code(Some(-1)), u32::MAX);
    assert_eq!(direct_exit_code(None), 125);
    assert_eq!(last_checkpoint(Some(String::new())), None);
    assert_eq!(
        last_checkpoint(Some("wfp".to_string())),
        Some("wfp".to_string())
    );
    assert_eq!(
        helper_arguments("q".to_string(), "p".to_string()),
        vec!["--request", "q", "--response", "p"]
    );
}

#[test]
fn helpers_are_pinned_before_they_run() {
    let helper = path(r"C:\h.exe");
    let answer = path(r"C:\r.json");
    let mut step = HelperStep::<u8>::ReadOwner;
    for _ in 0..10 {
        step = step.advance(HelperEvent::Done(Ok(())), &helper, &answer);
    }
    assert!(matches!(step, HelperStep::AskElevation));
    let step = step
        .advance(HelperEvent::Elevated(Ok(false)), &helper, &answer)
        .advance(HelperEvent::Ended(Ok(0)), &helper, &answer)
        .advance(HelperEvent::Response(Ok(())), &helper, &answer);
    assert!(matches!(
        step.advance(
            HelperEvent::Decoded(Ok(response(3, SetupOutcome::Complete))),
            &helper,
            &answer
        ),
        HelperStep::Done
    ));
    let launched = || HelperStep::<u8>::Launch { elevated: true };
    assert!(matches!(
        launched().advance(HelperEvent::Ended(Err((4, Some(1223)))), &helper, &answer),
        HelperStep::Failed {
            error: WindowsSetupError::ElevationCanceled
        }
    ));
    assert!(matches!(
        launched().advance(HelperEvent::Ended(Err((4, Some(5)))), &helper, &answer),
        HelperStep::Failed {
            error: WindowsSetupError::HelperLaunch { source: 4, .. }
        }
    ));
    assert!(matches!(
        HelperStep::<u8>::ReadResponse { exit_code: 9 }
            .advance(HelperEvent::Response(Err((4, true))), &helper, &answer)
            .advance(
                HelperEvent::Checkpoint(Some("wfp".to_string())),
                &helper,
                &answer
            ),
        HelperStep::Failed {
            error: WindowsSetupError::HelperResponseMissing {
                exit_code: 9,
                last_checkpoint: Some(_),
                source: 4,
                ..
            }
        }
    ));
    assert!(matches!(
        HelperStep::<u8>::ReadResponse { exit_code: 9 }.advance(
            HelperEvent::Response(Err((4, false))),
            &helper,
            &answer
        ),
        HelperStep::Failed {
            error: WindowsSetupError::ResponseRead { source: 4, .. }
        }
    ));
    assert!(matches!(
        HelperStep::<u8>::DecodeResponse { exit_code: 0 }.advance(
            HelperEvent::Decoded(Err(4)),
            &helper,
            &answer
        ),
        HelperStep::Failed {
            error: WindowsSetupError::ResponseDecode { source: 4, .. }
        }
    ));
}

#[test]
fn removal_waits_for_active_sandboxes() {
    let directory = path(r"C:\state");
    let step = UninstallStep::<u8>::Inspect
        .advance(UninstallEvent::Inspected(Presence::There), &directory)
        .advance(UninstallEvent::Guarded(Ok(())), &directory)
        .advance(UninstallEvent::CleanedUp(Ok(())), &directory)
        .advance(UninstallEvent::Released, &directory)
        .advance(UninstallEvent::Ran(Ok(())), &directory);
    assert!(matches!(
        step.advance(
            UninstallEvent::Status(Ok(WindowsSetupStatus::Missing {
                marker_path: path(r"C:\m")
            })),
            &directory
        ),
        UninstallStep::Done
    ));
    assert!(matches!(
        UninstallStep::<u8>::ReadStatus.advance(
            UninstallEvent::Status(Ok(WindowsSetupStatus::Ready(details()))),
            &directory
        ),
        UninstallStep::Failed {
            error: WindowsSetupError::HelperExitMismatch { exit_code: 0 }
        }
    ));
    assert!(matches!(
        UninstallStep::<u8>::Inspect
            .advance(UninstallEvent::Inspected(Presence::Absent), &directory),
        UninstallStep::Done
    ));
    assert!(matches!(
        UninstallStep::<u8>::AcquireGuard.advance(UninstallEvent::Guarded(Err(None)), &directory),
        UninstallStep::Failed {
            error: WindowsSetupError::ActiveSandboxes
        }
    ));
    assert!(matches!(
        UninstallStep::<u8>::AcquireGuard
            .advance(UninstallEvent::Guarded(Err(Some(3))), &directory),
        UninstallStep::Failed {
            error: WindowsSetupError::UninstallCoordination { source: 3 }
        }
    ));
    assert!(matches!(
        UninstallStep::<u8>::CleanUp.advance(UninstallEvent::CleanedUp(Err(3)), &directory),
        UninstallStep::Failed {
            error: WindowsSetupError::UninstallFilesystemCleanup { source: 3 }
        }
    ));
}

#[test]
fn proxy_ports_come_from_the_state_directory() {
    assert_eq!(ports_from_digest(&[0, 0]), vec![49_152, 49_153]);
    assert_eq!(ports_from_digest(&[0x1f, 0x3f]), vec![65_150, 65_151]);
    assert_eq!(ports_from_digest(&[0x1f, 0x40]), vec![49_152, 49_153]);
    let written: Vec<u16> = r"C:\state".encode_utf16().collect();
    let ports = proxy_ports_for_current_owner(&written);
    assert_eq!(ports[0], 49458);
    let request = setup_request(
        SetupOperation::Install,
        OWNER.to_string(),
        path(r"C:\state"),
        &written,
        "aa".to_string(),
        path(r"C:\r.exe"),
        "bb".to_string(),
    );
    assert_eq!(request.version, 3);
    assert_eq!(request.proxy_ports, ports);
    assert_eq!(request.owner_sid, OWNER);
    assert_eq!(text(&request.command_runner_source), r"C:\r.exe");
    assert_eq!(request.setup_helper_sha256, "aa");
    assert_eq!(request.command_runner_sha256, "bb");
}
