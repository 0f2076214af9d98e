use cageforge_windows::aces::{filter_acl, verify_entry, verify_sid_absent, ObservedEntry};
use cageforge_windows::acl_builder::{merge_pending, AclPlanBuilder};
use cageforge_windows::acl_enforcement::{
    target_components, CleanupEvent, CleanupStep, EnforcementStep,
};
use cageforge_windows::acl_entries::{
    entries_for_existing_path, AclAccessMode, AclEntry, AclInheritance, PendingAclOperation,
    FILE_ALL_ACCESS, FILE_DELETE_CHILD, READ_ALLOW_MASK, WRITE_ALLOW_MASK, WRITE_DENY_MASK,
};
use cageforge_windows::acl_error::{
    AceExpectation, AclError, FilesystemAclError, MaterializationRecovery,
};
use cageforge_windows::acl_mutation::{
    canonical_acl, information_for_restore, information_for_write, needs_rollback, removal_order, snapshot_dacl,
    AclMutationRecovery, AclRun, ManagedAcl, MutationEvent, MutationFailure, MutationStep,
    PersistedDacl, PreparedAclEntry, PreparedAclOperation, RunEvent, RunFailure, RunStep,
};
use cageforge_windows::acl_operations::{
    nested_acl_boundaries, sort_operations, AclOperation, SubtreePath,
};
use cageforge_windows::acl_plan::{authority_declarations, CapabilityRole, FilesystemAuthorities};
use cageforge_windows::filesystem_path::{FilesystemObjectIdentity, ValidatedPathError};
use cageforge_windows::filesystem_plan::{
    ClassificationFacts, FilesystemDecision, FilesystemPlan, FilesystemPlanCollector,
    LayerObservation, MissingPathBehavior, PathObservation, PathPresence, ProtectedObservation,
    ReadOnlyObservation, RuleObservation, ScopeObservation,
};
use cageforge_windows::keyed::Keyed;
use cageforge_windows::materialization::{
    component_from_drawn, create_materialized_component, materialization_components, nonce_from, path_of_marker,
    recover_pending, retain_or_create, verify_deleted, verify_empty, verify_marker_contents,
    verify_materialization, verify_outcome, CheckFailure, ComponentAction, CreationDescriptorKind,
    CreationEvent, CreationFailure, CreationStep, MaterializationRemovalPhase, MaterializedObject,
    Presence, RemovalStep, SecurityFacts,
};
use cageforge_windows::native_path::NativePath;
use cageforge_windows::subtree_scan::{
    DirectoryListing, ListedObject, ObjectFacts, SubtreeScan,
};

fn path(text: &str) -> NativePath {
    NativePath::parse(&text.encode_utf16().collect::<Vec<u16>>())
}

fn text(path: &NativePath) -> String {
    String::from_utf16(&path.text_units()).unwrap()
}

fn texts(paths: &[NativePath]) -> Vec<String> {
    paths.iter().map(text).collect()
}

fn allow_mask(operation: &PendingAclOperation) -> u32 {
    operation
        .entries()
        .iter()
        .find(|entry| entry.sid == "S-1-5-21-1" && entry.mode == AclAccessMode::Allow)
        .expect("merged allow entry")
        .mask
}

#[test]
fn overlapping_allow_requirements_merge_independently_of_order() {
    let mut first = PendingAclOperation::new(path(r"C:\workspace"));
    first.merge(
        &vec![AclEntry::allow("S-1-5-21-1", READ_ALLOW_MASK)],
        false,
        &Vec::new(),
        &Vec::new(),
    );
    first.merge(
        &vec![AclEntry::allow("S-1-5-21-1", WRITE_ALLOW_MASK)],
        false,
        &Vec::new(),
        &Vec::new(),
    );
    let mut second = PendingAclOperation::new(path(r"C:\workspace"));
    second.merge(
        &vec![AclEntry::allow("S-1-5-21-1", WRITE_ALLOW_MASK)],
        false,
        &Vec::new(),
        &Vec::new(),
    );
    second.merge(
        &vec![AclEntry::allow("S-1-5-21-1", READ_ALLOW_MASK)],
        false,
        &Vec::new(),
        &Vec::new(),
    );

    assert_eq!(allow_mask(&first), READ_ALLOW_MASK | WRITE_ALLOW_MASK);
    assert_eq!(allow_mask(&first), allow_mask(&second));
}

#[test]
fn whole_requests_merge_independently_of_order() {
    let ask = |operation: &mut PendingAclOperation, first: bool| {
        if first {
            operation.merge(
                &vec![
                    AclEntry::allow("S-1-5-21-1", 1),
                    AclEntry {
                        sid: "S-1-5-21-2".to_string(),
                        mode: AclAccessMode::Deny,
                        mask: 4,
                        inheritance: AclInheritance::Exact,
                    },
                ],
                false,
                &vec!["S-1-5-21-8".to_string(), "S-1-5-21-7".to_string()],
                &vec![path(r"C:\w\Out"), path(r"C:\w\b")],
            );
        } else {
            operation.merge(
                &vec![
                    AclEntry::deny("S-1-5-21-1", 16),
                    AclEntry {
                        sid: "S-1-5-21-1".to_string(),
                        mode: AclAccessMode::Allow,
                        mask: 2,
                        inheritance: AclInheritance::Exact,
                    },
                ],
                true,
                &vec!["S-1-5-21-7".to_string(), "S-1-5-21-9".to_string()],
                &vec![path(r"C:\w\out"), path(r"C:\w\a")],
            );
        }
    };
    let mut one = PendingAclOperation::new(path(r"C:\w"));
    ask(&mut one, true);
    ask(&mut one, false);
    let mut other = PendingAclOperation::new(path(r"C:\w"));
    ask(&mut other, false);
    ask(&mut other, true);
    let rows = |operation: &PendingAclOperation| {
        operation
            .entries()
            .iter()
            .map(|entry| (entry.sid.clone(), entry.mode, entry.mask, entry.inheritance))
            .collect::<Vec<_>>()
    };
    assert_eq!(
        rows(&one),
        vec![
            (
                "S-1-5-21-1".to_string(),
                AclAccessMode::Allow,
                3,
                AclInheritance::Subtree
            ),
            (
                "S-1-5-21-1".to_string(),
                AclAccessMode::Deny,
                16,
                AclInheritance::Subtree
            ),
            (
                "S-1-5-21-2".to_string(),
                AclAccessMode::Deny,
                4,
                AclInheritance::Exact
            ),
        ]
    );
    assert_eq!(rows(&one), rows(&other));
    assert_eq!(
        one.remove_sids(),
        vec!["S-1-5-21-7", "S-1-5-21-8", "S-1-5-21-9"]
    );
    assert_eq!(one.remove_sids(), other.remove_sids());
    assert!(one.protect_dacl() && other.protect_dacl());
    assert_eq!(
        texts(&one.excluded_roots()),
        vec![r"C:\w\a", r"C:\w\b", r"C:\w\Out"]
    );
    assert_eq!(
        texts(&other.excluded_roots()),
        vec![r"C:\w\a", r"C:\w\b", r"C:\w\out"]
    );
}

#[test]
fn a_whole_scan_finds_everything_below_once() {
    assert_eq!(
        scan(
            r"C:\r",
            vec![path(r"C:\r\skip")],
            &[
                (r"C:\r", vec![r"C:\r\b", r"C:\r\skip", r"C:\r\a"]),
                (r"C:\r\a", vec![r"C:\r\a\y", r"C:\r\a\x"]),
                (r"C:\r\a\x", vec![r"C:\r\a\x\deep"]),
                (r"C:\r\skip", vec![r"C:\r\skip\lost"]),
            ],
        ),
        vec![
            r"C:\r\a",
            r"C:\r\a\x",
            r"C:\r\a\x\deep",
            r"C:\r\a\y",
            r"C:\r\b"
        ]
    );
}

#[test]
fn writable_root_grant_cannot_delete_unprotected_children() {
    assert_eq!(WRITE_ALLOW_MASK & FILE_DELETE_CHILD, 0);
}

#[test]
fn existing_file_acl_entries_do_not_retain_directory_inheritance() {
    let entries =
        entries_for_existing_path(&vec![AclEntry::allow("S-1-5-21-1", READ_ALLOW_MASK)], false);

    assert_eq!(entries[0].inheritance, AclInheritance::Exact);
    assert_eq!(entries[0].mask, READ_ALLOW_MASK);
}

#[test]
fn existing_directory_acl_entries_remain_inheritable() {
    let entries =
        entries_for_existing_path(&vec![AclEntry::allow("S-1-5-21-1", READ_ALLOW_MASK)], true);

    assert_eq!(entries[0].inheritance, AclInheritance::Subtree);
    assert_eq!(entries[0].mask, READ_ALLOW_MASK);
}

fn directory(name: &str) -> Result<ListedObject, i32> {
    Ok(ListedObject {
        path: path(name),
        facts: ObjectFacts::Seen {
            attributes: 0x10,
            is_directory: true,
        },
    })
}

fn scan(root: &str, excluded: Vec<NativePath>, tree: &[(&str, Vec<&str>)]) -> Vec<String> {
    let facts = ObjectFacts::Seen {
        attributes: 0x10,
        is_directory: true,
    };
    let mut scan = SubtreeScan::start(&path(root), facts, excluded).expect("start");
    while let Some(parent) = scan.next() {
        let listed = tree
            .iter()
            .find(|(name, _)| text(&parent) == *name)
            .map(|(_, children)| children.iter().map(|child| directory(child)).collect())
            .unwrap_or_default();
        scan.supply(&parent, DirectoryListing::Listed(listed))
            .expect("listing");
    }
    scan.into_paths()
        .iter()
        .map(|found| text(&found.path))
        .collect()
}

#[test]
fn subtree_enumeration_excludes_the_complete_writable_boundary() {
    let paths = scan(
        r"C:\denied",
        vec![path(r"C:\denied\writable")],
        &[
            (
                r"C:\denied",
                vec![r"C:\denied\sibling", r"C:\denied\writable"],
            ),
            (r"C:\denied\writable", vec![r"C:\denied\writable\child"]),
        ],
    );

    assert!(paths.contains(&r"C:\denied\sibling".to_string()));
    assert!(!paths.contains(&r"C:\denied\writable".to_string()));
    assert!(!paths.contains(&r"C:\denied\writable\child".to_string()));
}

#[test]
fn broader_allow_scan_excludes_more_specific_acl_boundaries() {
    let workspace = path(r"C:\workspace");
    let mut foundations: Keyed<PendingAclOperation> = Keyed::new();
    for name in [r"C:\workspace", r"C:\workspace\runtime", r"C:\other"] {
        merge_pending(
            &mut foundations,
            &path(name),
            &vec![],
            false,
            &vec![],
            &vec![],
        );
    }
    let mut denies: Keyed<PendingAclOperation> = Keyed::new();
    merge_pending(
        &mut denies,
        &path(r"C:\workspace\protected"),
        &vec![],
        false,
        &vec![],
        &vec![],
    );

    let exclusions = nested_acl_boundaries(&workspace, &foundations, &denies);

    assert_eq!(
        texts(&exclusions),
        vec![r"C:\workspace\runtime", r"C:\workspace\protected"]
    );
}

#[test]
fn subtree_enumeration_does_not_follow_or_adopt_a_child_reparse_point() {
    let root = path(r"C:\root");
    let seen = ObjectFacts::Seen {
        attributes: 0x10,
        is_directory: true,
    };
    let link = ObjectFacts::Seen {
        attributes: 0x410,
        is_directory: true,
    };
    let mut scan = SubtreeScan::start(&root, seen, vec![]).expect("scan root");
    assert_eq!(text(&scan.next().unwrap()), r"C:\root");
    scan.supply(
        &root,
        DirectoryListing::Listed(vec![Ok(ListedObject {
            path: path(r"C:\root\junction"),
            facts: link,
        })]),
    )
    .expect("enumerate without following reparse point");
    assert!(scan.next().is_none());
    let paths: Vec<String> = scan
        .into_paths()
        .iter()
        .map(|found| text(&found.path))
        .collect();

    assert!(!paths.contains(&r"C:\root\junction".to_string()));
    assert!(!paths.contains(&r"C:\outside\secret.txt".to_string()));
    assert!(matches!(
        SubtreeScan::start(
            &path(r"C:\root\junction"),
            ObjectFacts::Seen {
                attributes: 0x410,
                is_directory: true
            },
            vec![]
        ),
        Err(FilesystemAclError::ReparsePoint { .. })
    ));
}

#[test]
fn scans_fail_on_what_cannot_be_read() {
    assert!(matches!(
        SubtreeScan::start(&path(r"C:\r"), ObjectFacts::Failed { code: 5 }, vec![]),
        Err(FilesystemAclError::Metadata { code: 5, .. })
    ));
    let seen = || ObjectFacts::Seen {
        attributes: 0x10,
        is_directory: true,
    };
    let root = path(r"C:\r");
    let mut first = SubtreeScan::start(&root, seen(), vec![]).unwrap();
    first.next();
    assert!(matches!(
        first.supply(&root, DirectoryListing::Failed { code: 5 }),
        Err(FilesystemAclError::Enumerate { code: 5, .. })
    ));
    let mut second = SubtreeScan::start(&root, seen(), vec![]).unwrap();
    second.next();
    assert!(second.supply(&root, DirectoryListing::Missing).is_ok());
    let mut third = SubtreeScan::start(&root, seen(), vec![]).unwrap();
    third.next();
    assert!(matches!(
        third.supply(&root, DirectoryListing::Listed(vec![Err(7)])),
        Err(FilesystemAclError::Enumerate { code: 7, .. })
    ));
}

#[test]
fn materialization_components_are_parent_first_and_use_native_identity() {
    assert_eq!(
        texts(
            &materialization_components(
                &path(r"C:\Workspace"),
                &path(r"c:\workspace\missing\leaf"),
            )
            .expect("validated descendants")
        ),
        vec![r"c:\workspace\missing", r"c:\workspace\missing\leaf"]
    );
}

#[test]
fn materialization_components_reject_parent_traversal_and_external_paths() {
    for target in [r"C:\Workspace\..\outside", r"D:\outside"] {
        assert!(matches!(
            materialization_components(&path(r"C:\Workspace"), &path(target)),
            Err(FilesystemAclError::MaterializationOutsideAnchor { .. })
        ));
    }
}

fn observed(name: &str) -> PathObservation {
    PathObservation {
        presence: PathPresence::Present,
        opened: Ok(path(name)),
    }
}

fn sample_plan() -> FilesystemPlan {
    let scope = |name: &str, decision, read_only| ScopeObservation {
        path: path(name),
        decision,
        observed: observed(name),
        read_only,
    };
    let rule = |resolved, platform_base| RuleObservation::Scope {
        slash_tmp: false,
        platform_base,
        missing: MissingPathBehavior::Error,
        resolved,
    };
    let layer = LayerObservation {
        external: false,
        protected_relative_paths: vec![path(".git")],
        rules: vec![
            rule(
                vec![scope(r"C:\minimal", FilesystemDecision::Read, vec![])],
                true,
            ),
            rule(
                vec![scope(
                    r"C:\work",
                    FilesystemDecision::Write,
                    vec![ReadOnlyObservation {
                        path: path(r"C:\work\docs"),
                        observed: observed(r"C:\work\docs"),
                        ancestors: vec![],
                    }],
                )],
                false,
            ),
            rule(
                vec![scope(r"C:\work\secret", FilesystemDecision::Deny, vec![])],
                false,
            ),
        ],
    };
    let decide = |path: &NativePath| match text(path).as_str() {
        r"C:\minimal" | r"C:\work\docs" => FilesystemDecision::Read,
        r"C:\work\secret" => FilesystemDecision::Deny,
        _ => FilesystemDecision::Write,
    };
    let mut collector = FilesystemPlanCollector::new(true);
    collector.collect_layer(&layer).expect("layer");
    collector
        .collect_protected(&vec![ProtectedObservation {
            root: path(r"C:\work"),
            path: path(r"C:\work\.git"),
            decision: FilesystemDecision::Deny,
            observed: PathObservation {
                presence: PathPresence::Missing,
                opened: Err(ValidatedPathError::Open {
                    path: path(r"C:\work\.git"),
                    code: 2,
                }),
            },
            ancestors: vec![observed(r"C:\work")],
        }])
        .expect("protected");
    let pending = collector.pending_paths();
    let facts = ClassificationFacts {
        decisions: pending.iter().map(decide).collect(),
        reopened: pending.into_iter().map(Ok).collect(),
    };
    collector.finish(&facts).expect("plan")
}

#[test]
fn authorities_follow_the_declared_roles() {
    let plan = sample_plan();
    let declared: Vec<(String, CapabilityRole)> = authority_declarations(&plan)
        .iter()
        .map(|(path, role)| (text(path), *role))
        .collect();
    assert_eq!(
        declared,
        vec![
            (r"C:\minimal".to_string(), CapabilityRole::ProfileGuard),
            (r"C:\work".to_string(), CapabilityRole::WriteRoot),
        ]
    );
    let sids = vec!["S-guard".to_string(), "S-writer".to_string()];
    let authorities = FilesystemAuthorities::load(&plan, &sids, "S-read").expect("authorities");
    assert_eq!(authorities.profile_guard_sid(), "S-guard");
    assert_eq!(authorities.read_base_sid(), "S-read");
    assert_eq!(
        authorities.write_sid(&path(r"c:\WORK")),
        Some(&"S-writer".to_string())
    );
    assert_eq!(authorities.write_sid(&path(r"C:\minimal")), None);
    assert_eq!(
        authorities.token_sids().to_vec(),
        vec!["S-guard", "S-read", "S-writer"]
    );
    assert!(matches!(
        FilesystemAuthorities::load(&plan, &vec![], "S-read"),
        Err(FilesystemAclError::AuthorityCount {
            expected: 2,
            actual: 0
        })
    ));
}

#[test]
fn plans_become_ordered_operations() {
    let plan = sample_plan();
    let sids = vec!["S-guard".to_string(), "S-writer".to_string()];
    let authorities = FilesystemAuthorities::load(&plan, &sids, "S-read").expect("authorities");
    let mut builder = AclPlanBuilder::new(&plan, &authorities, "S-group");
    builder.collect(&plan).expect("collect");
    builder
        .collect_materialized_foundations(&vec![path(r"C:\work\.git")])
        .expect("foundations");
    assert_eq!(
        builder.inherited_write_sids(&path(r"C:\work\docs")),
        vec!["S-writer"]
    );
    assert!(builder.inherited_write_sids(&path(r"C:\work")).is_empty());
    let scans = builder.scan_requests();
    let roots: Vec<String> = scans.iter().map(|request| text(&request.root)).collect();
    assert!(roots.contains(&r"C:\work".to_string()));
    let found: Vec<Vec<SubtreePath>> = scans
        .iter()
        .map(|request| {
            if text(&request.root) == r"C:\work" {
                vec![SubtreePath {
                    path: path(r"C:\work\file"),
                    is_directory: false,
                }]
            } else {
                vec![]
            }
        })
        .collect();
    builder.expand_existing_descendants(&scans, &found);
    let listed = |paths: Vec<NativePath>| -> Vec<String> { paths.iter().map(text).collect() };
    assert_eq!(
        listed(builder.foundation_paths()),
        vec![r"C:\minimal", r"C:\work", r"C:\work\.git"]
    );
    assert_eq!(
        listed(builder.deny_paths()),
        vec![r"C:\work\.git", r"C:\work\docs", r"C:\work\secret"]
    );
    let opened = |names: &[&str]| names.iter().map(|name| Ok(path(name))).collect();
    let result = builder
        .finish(
            &opened(&[r"C:\minimal", r"C:\work", r"C:\work\.git"]),
            &opened(&[r"C:\work\.git", r"C:\work\docs", r"C:\work\secret"]),
        )
        .expect("finish");
    let operations = result.prepare();
    let named: Vec<String> = operations
        .iter()
        .map(|operation| text(&operation.path))
        .collect();
    assert_eq!(
        named,
        vec![
            r"C:\minimal",
            r"C:\work",
            r"C:\work\.git",
            r"C:\work\.git",
            r"C:\work\docs",
            r"C:\work\file",
            r"C:\work\secret"
        ]
    );
    let masks = |index: usize, mode: AclAccessMode| -> Vec<(String, u32)> {
        operations[index]
            .entries
            .iter()
            .filter(|entry| entry.mode == mode)
            .map(|entry| (entry.sid.clone(), entry.mask))
            .collect()
    };
    assert_eq!(
        masks(0, AclAccessMode::Allow),
        vec![
            ("S-group".to_string(), READ_ALLOW_MASK),
            ("S-read".to_string(), READ_ALLOW_MASK)
        ]
    );
    assert_eq!(
        masks(1, AclAccessMode::Allow),
        vec![
            ("S-group".to_string(), WRITE_ALLOW_MASK),
            ("S-read".to_string(), READ_ALLOW_MASK),
            ("S-writer".to_string(), WRITE_ALLOW_MASK)
        ]
    );
    assert_eq!(operations[1].remove_sids, vec!["S-guard"]);
    assert!(operations[5]
        .entries
        .iter()
        .all(|entry| entry.inheritance == AclInheritance::Exact));
    assert_eq!(
        masks(3, AclAccessMode::Deny),
        vec![("S-guard".to_string(), FILE_ALL_ACCESS)]
    );
    assert_eq!(
        masks(4, AclAccessMode::Deny),
        vec![("S-guard".to_string(), WRITE_DENY_MASK)]
    );
    assert_eq!(operations[4].remove_sids, vec!["S-writer"]);
}

#[test]
fn plans_fail_where_a_root_cannot_be_opened() {
    let plan = sample_plan();
    let sids = vec!["S-guard".to_string(), "S-writer".to_string()];
    let authorities = FilesystemAuthorities::load(&plan, &sids, "S-read").expect("authorities");
    let mut builder = AclPlanBuilder::new(&plan, &authorities, "S-group");
    builder.collect(&plan).expect("collect");
    let failed = Err(ValidatedPathError::Open {
        path: path(r"C:\work"),
        code: 5,
    });
    let result = builder.finish(
        &vec![Ok(path(r"C:\minimal")), failed],
        &vec![
            Ok(path(r"C:\work\.git")),
            Ok(path(r"C:\work\docs")),
            Ok(path(r"C:\work\secret")),
        ],
    );
    assert!(matches!(
        result,
        Err(FilesystemAclError::InvalidPath(ValidatedPathError::Open {
            code: 5,
            ..
        }))
    ));
}

#[test]
fn operations_on_parents_come_first() {
    let operation = |name: &str| AclOperation {
        path: path(name),
        pinned: true,
        entries: vec![],
        remove_sids: vec![],
        protect_dacl: false,
    };
    let sorted = sort_operations(&vec![
        operation(r"C:\b\c"),
        operation(r"C:\z"),
        operation(r"C:\b"),
    ]);
    let named: Vec<String> = sorted.iter().map(|operation| text(&operation.path)).collect();
    assert_eq!(named, vec![r"C:\b", r"C:\z", r"C:\b\c"]);
    assert_eq!(
        removal_order(&vec![path(r"C:\a"), path(r"C:\a\b\c"), path(r"C:\a\b")]),
        vec![1, 2, 0]
    );
}

fn sid(last: u8) -> Vec<u8> {
    vec![1, 1, 0, 0, 0, 0, 0, 5, last, 0, 0, 0]
}

fn ace(ace_type: u8, flags: u8, mask: u32, sid: &[u8]) -> ObservedEntry {
    let mut bytes = vec![ace_type, flags, (8 + sid.len()) as u8, 0];
    bytes.extend(mask.to_le_bytes());
    bytes.extend(sid);
    Ok(bytes)
}

#[test]
fn filtered_lists_lose_the_removed_and_keep_the_rest() {
    let object = path(r"C:\a");
    let entries = vec![
        ace(0, 0x10, 7, &sid(1)),
        ace(0, 0, 7, &sid(2)),
        ace(1, 3, 9, &sid(3)),
    ];
    let filtered = filter_acl(&object, &entries, &vec![sid(2)]).expect("filtered");
    assert_eq!(filtered.size, 8 + 20 + 20);
    let indices: Vec<u32> = filtered.entries.iter().map(|entry| entry.index).collect();
    assert_eq!(indices, vec![0, 2]);
    assert_eq!(filtered.entries[0].bytes[1], 0);
    assert_eq!(filtered.entries[1].bytes, ace(1, 3, 9, &sid(3)).unwrap());
    assert!(verify_sid_absent(&object, &vec![ace(0, 0, 7, &sid(1))], &sid(2)).is_ok());
    assert!(matches!(
        verify_sid_absent(&object, &entries, &sid(2)),
        Err(FilesystemAclError::AceMismatch {
            mode: AceExpectation::Removed,
            ..
        })
    ));
}

#[test]
fn identifiers_are_read_past_the_size_of_their_entry() {
    let object = path(r"C:\a");
    let short = |mask: u32| {
        let mut entry = ace(0, 3, mask, &sid(1)).unwrap();
        entry[2] = 12;
        entry
    };
    let filtered = filter_acl(&object, &vec![Ok(short(6))], &vec![sid(1)]).expect("filtered");
    assert!(filtered.entries.is_empty());
    assert_eq!(filtered.size, 8);
    let kept = filter_acl(&object, &vec![Ok(short(6))], &vec![sid(2)]).expect("filtered");
    assert_eq!(kept.entries[0].bytes, short(6)[..12].to_vec());
    let expected = AclEntry::allow("S-1", 6);
    assert!(verify_entry(&object, &vec![Ok(short(6))], &sid(1), &expected, true).is_ok());
    let cut = vec![Ok(short(6)[..16].to_vec())];
    assert!(matches!(
        verify_entry(&object, &cut, &sid(1), &expected, true),
        Err(FilesystemAclError::MalformedAce { index: 0, .. })
    ));
}

#[test]
fn lists_that_cannot_be_filtered_are_refused() {
    let object = path(r"C:\a");
    assert!(matches!(
        filter_acl(&object, &vec![Err(5)], &vec![]),
        Err(FilesystemAclError::AceRead {
            index: 0,
            code: 5,
            ..
        })
    ));
    assert!(matches!(
        filter_acl(&object, &vec![Ok(vec![0, 0, 3, 0])], &vec![]),
        Err(FilesystemAclError::MalformedAce { index: 0, .. })
    ));
    assert!(matches!(
        filter_acl(&object, &vec![ace(9, 0, 7, &sid(2))], &vec![sid(2)]),
        Err(FilesystemAclError::UnsupportedGuardAce { ace_type: 9, .. })
    ));
}

#[test]
fn rights_are_verified_as_written() {
    let object = path(r"C:\a");
    let expected = AclEntry::allow("S-1", 0b110);
    let both = vec![ace(0, 3, 0b100, &sid(1)), ace(0, 3, 0b010, &sid(1))];
    assert!(verify_entry(&object, &both, &sid(1), &expected, true).is_ok());
    let inherited = vec![ace(0, 3, 0b100, &sid(1)), ace(0, 0x13, 0b010, &sid(1))];
    assert!(matches!(
        verify_entry(&object, &inherited, &sid(1), &expected, true),
        Err(FilesystemAclError::AceMismatch {
            mode: AceExpectation::Allow,
            expected: 0b110,
            ..
        })
    ));
    assert!(verify_entry(&object, &inherited, &sid(1), &expected, false).is_ok());
    let opposite = vec![ace(0, 3, 0b110, &sid(1)), ace(1, 0, 1, &sid(1))];
    assert!(verify_entry(&object, &opposite, &sid(1), &expected, true).is_err());
    let malformed = vec![ace(0, 0, 0b110, &[9, 1, 0, 0, 0, 0, 0, 5, 1, 0, 0, 0])];
    assert!(matches!(
        verify_entry(&object, &malformed, &sid(1), &expected, true),
        Err(FilesystemAclError::MalformedAce { .. })
    ));
}

fn dacl(last: u8, protected: bool) -> PersistedDacl {
    PersistedDacl {
        bytes: vec![2, 0, 9, 0, 0, 0, 0, 0, last],
        protected,
    }
}

fn identity(number: u64) -> FilesystemObjectIdentity {
    FilesystemObjectIdentity {
        volume_serial_number: number,
        file_id: [1; 16],
    }
}

#[test]
fn snapshots_carry_their_own_size() {
    let object = path(r"C:\a");
    let taken = snapshot_dacl(&object, vec![2, 0, 99, 99, 0, 0, 0, 0, 5], true).expect("taken");
    assert_eq!(taken.bytes, dacl(5, true).bytes);
    assert!(taken.protected);
    assert!(matches!(
        snapshot_dacl(&object, vec![2, 0, 7, 0, 0, 0, 0], true),
        Err(FilesystemAclError::InvalidDaclSnapshot { .. })
    ));
    assert!(snapshot_dacl(&object, vec![0; 65536], true).is_err());
    assert_eq!(information_for_write(true), 0x8000_0004);
    assert_eq!(information_for_write(false), 4);
    assert_eq!(information_for_restore(true), 0x8000_0004);
    assert_eq!(information_for_restore(false), 0x2000_0004);
}

#[test]
fn declared_identities_are_revoked_first() {
    let (revoked, declared) = canonical_acl(&vec![
        PreparedAclEntry {
            declaration: AclEntry::allow("S-1", 6),
            sid: sid(1),
        },
        PreparedAclEntry {
            declaration: AclEntry::deny("S-2", 9),
            sid: sid(2),
        },
    ]);
    assert_eq!(revoked.len(), 2);
    assert!(revoked.iter().all(|entry| (entry.mode, entry.mask, entry.inheritance) == (4, 0, 0)));
    assert_eq!(revoked[1].sid, sid(2));
    assert_eq!(
        (declared[0].mode, declared[0].mask, declared[0].inheritance),
        (2, 6, 3)
    );
    assert_eq!((declared[1].mode, declared[1].mask), (3, 9));
    assert_eq!(declared[1].sid, sid(2));
}

#[test]
fn written_lists_are_verified_whole() {
    let operation = PreparedAclOperation {
        path: path(r"C:\a"),
        identity: identity(1),
        entries: vec![PreparedAclEntry {
            declaration: AclEntry::allow("S-1", 6),
            sid: sid(1),
        }],
        remove_sids: vec![sid(2)],
        protect_dacl: true,
    };
    let good = vec![ace(0, 3, 6, &sid(1))];
    let list = dacl(1, true);
    assert!(operation.verify_root(&list, &dacl(1, true), &good).is_ok());
    assert!(matches!(
        operation.verify_root(&list, &dacl(1, false), &good),
        Err(FilesystemAclError::ProtectionMismatch { .. })
    ));
    assert!(matches!(
        operation.verify_root(&list, &dacl(2, true), &good),
        Err(FilesystemAclError::DescriptorSnapshotMismatch { .. })
    ));
    let managed = vec![ManagedAcl {
        path: path(r"c:\A"),
        identity: identity(1),
        current: dacl(1, true),
        original: dacl(0, false),
    }];
    assert!(operation.matches_current_managed_acl(&managed, &dacl(1, true)));
    assert!(!operation.matches_current_managed_acl(&managed, &dacl(2, true)));
    assert!(!operation.matches_current_managed_acl(&managed, &dacl(1, false)));
    assert!(managed[0].check_restorable(&identity(1), &dacl(1, true)).is_ok());
    assert!(matches!(
        managed[0].check_restorable(&identity(2), &dacl(1, true)),
        Err(FilesystemAclError::AclObjectIdentityMismatch { .. })
    ));
    assert!(matches!(
        managed[0].check_restorable(&identity(1), &dacl(3, true)),
        Err(FilesystemAclError::AclBeforeMismatch { .. })
    ));
    assert!(managed[0]
        .check_restored(AclMutationRecovery::Next, &dacl(0, false))
        .is_ok());
    assert!(managed[0]
        .check_restored(AclMutationRecovery::Previous, &dacl(0, false))
        .is_err());
    assert!(managed[0]
        .check_restored(AclMutationRecovery::Next, &dacl(1, true))
        .is_err());
    let rollback = |current: PersistedDacl, number| {
        needs_rollback(
            &path(r"C:\a"),
            &identity(1),
            &identity(number),
            &current,
            &dacl(0, false),
        )
    };
    assert!(matches!(rollback(dacl(1, true), 1), Ok(true)));
    assert!(matches!(rollback(dacl(0, false), 1), Ok(false)));
    assert!(rollback(dacl(0, false), 2).is_err());
}

#[test]
fn changes_are_journaled_before_they_are_written() {
    let step = MutationStep::<u8>::first(false)
        .advance(MutationEvent::Built(Ok(false)))
        .advance(MutationEvent::Journaled(Ok(())));
    assert!(matches!(step, MutationStep::Write));
    let step = step
        .advance(MutationEvent::Written(0))
        .advance(MutationEvent::Verified(Ok(())));
    assert!(matches!(
        step.advance(MutationEvent::Resolved(Ok(AclMutationRecovery::Next))),
        MutationStep::Done
    ));
    assert!(matches!(
        MutationStep::<u8>::first(true).advance(MutationEvent::Verified(Ok(()))),
        MutationStep::Done
    ));
}

#[test]
fn failed_changes_are_taken_back_and_settled() {
    let failed = MutationStep::<u8>::Write
        .advance(MutationEvent::Written(5))
        .advance(MutationEvent::Resolved(Ok(AclMutationRecovery::Previous)));
    assert!(matches!(
        failed,
        MutationStep::Failed {
            failure: MutationFailure::Apply { code: 5 }
        }
    ));
    let taken_back = MutationStep::VerifyWritten
        .advance(MutationEvent::Mismatched(7u8))
        .advance(MutationEvent::Restored(Ok(())))
        .advance(MutationEvent::Resolved(Ok(AclMutationRecovery::Previous)));
    assert!(matches!(
        taken_back,
        MutationStep::Failed {
            failure: MutationFailure::Step(7)
        }
    ));
    let stuck = MutationStep::VerifyWritten
        .advance(MutationEvent::Verified(Err(7u8)))
        .advance(MutationEvent::Restored(Err(9)));
    assert!(matches!(
        stuck,
        MutationStep::Failed {
            failure: MutationFailure::Rollback { code: 9, .. }
        }
    ));
    let unsettled = MutationStep::<u8>::Write
        .advance(MutationEvent::Written(5))
        .advance(MutationEvent::Resolved(Err(8)));
    assert!(matches!(
        unsettled,
        MutationStep::Failed {
            failure: MutationFailure::JournalRecovery { recovery: 8, .. }
        }
    ));
    assert!(matches!(
        MutationStep::<u8>::Resolve
            .advance(MutationEvent::Resolved(Ok(AclMutationRecovery::Previous))),
        MutationStep::Failed {
            failure: MutationFailure::Unresolved
        }
    ));
}

#[test]
fn runs_are_unwound_from_the_last_change() {
    let run = AclRun::<u8>::start(4)
        .advance(RunEvent::Applied)
        .advance(RunEvent::Skipped)
        .advance(RunEvent::Applied);
    assert_eq!(run.applied, vec![0, 2]);
    let run = run.advance(RunEvent::Failed(7));
    assert!(matches!(run.step, RunStep::TakeBack { index: 2, .. }));
    let run = run.advance(RunEvent::TakenBack(Ok(())));
    assert!(matches!(run.step, RunStep::TakeBack { index: 0, .. }));
    let run = run.advance(RunEvent::TakenBack(Ok(())));
    assert!(matches!(
        run.step,
        RunStep::Failed(RunFailure::Operation(7))
    ));
    let stuck = AclRun::<u8>::start(2)
        .advance(RunEvent::Applied)
        .advance(RunEvent::Failed(7))
        .advance(RunEvent::TakenBack(Err(8)));
    assert!(matches!(
        stuck.step,
        RunStep::Failed(RunFailure::JournalRecovery {
            original: 7,
            recovery: 8
        })
    ));
    assert!(matches!(AclRun::<u8>::start(0).step, RunStep::Done));
}

#[test]
fn directories_are_created_step_by_step() {
    let (planned, first) =
        create_materialized_component::<u8>(&path(r"C:\a\b")).expect("random nonce");
    assert_eq!(text(&planned.path), r"C:\a\b");
    assert_eq!(
        text(&planned.marker_path),
        r"C:\a\b\.cageforge-materialized-path"
    );
    assert_eq!(planned.nonce.len(), 32);
    let (again, _) = create_materialized_component::<u8>(&path(r"C:\a\b")).expect("random nonce");
    assert_ne!(planned.nonce, again.nonce);
    let step = first
        .advance(CreationEvent::Finished(Ok(())))
        .advance(CreationEvent::Created(Ok(())))
        .advance(CreationEvent::Finished(Ok(())))
        .advance(CreationEvent::Created(Ok(())))
        .advance(CreationEvent::Finished(Ok(())))
        .advance(CreationEvent::Finished(Ok(())));
    assert!(matches!(step, CreationStep::Resolve));
    assert!(matches!(
        step.advance(CreationEvent::Resolved(Ok(MaterializationRecovery::Present))),
        CreationStep::Done
    ));
    assert_eq!(text(&path_of_marker(&path(r"C:\a"))), r"C:\a\.cageforge-materialized-path");
    let (fixed, first) =
        component_from_drawn::<u8>(&path(r"C:\a"), Ok(vec![0; 32])).expect("drawn nonce");
    assert!(matches!(first, CreationStep::BeginJournal));
    assert_eq!(text(&fixed.path), r"C:\a");
    assert_eq!(
        text(&fixed.marker_path),
        r"C:\a\.cageforge-materialized-path"
    );
    let mut least = vec![0; 32];
    least[0] = 1;
    assert_eq!(fixed.nonce, least);
    let (kept, _) =
        component_from_drawn::<u8>(&path(r"C:\a"), Ok(vec![9; 32])).expect("drawn nonce");
    assert_eq!(kept.nonce, vec![9; 32]);
    assert!(matches!(
        component_from_drawn::<u8>(&path(r"C:\a"), Err(getrandom::Error::UNEXPECTED)),
        Err(CreationFailure::Random(getrandom::Error::UNEXPECTED))
    ));
    assert_eq!(nonce_from(vec![3; 32]), vec![3; 32]);
    assert_eq!(nonce_from(vec![0; 32])[0], 1);
}

#[test]
fn creation_failures_are_told_apart() {
    let created = |step: CreationStep<u8>, code| match step.advance(CreationEvent::Created(Err(code)))
    {
        CreationStep::Failed(failure) => failure,
        other => panic!("{other:?}"),
    };
    assert!(matches!(
        created(CreationStep::CreateDirectory, 183),
        CreationFailure::Race
    ));
    assert!(matches!(
        created(CreationStep::CreateDirectory, 5),
        CreationFailure::Create { code: 5 }
    ));
    assert!(matches!(
        created(CreationStep::CreateMarker, 183),
        CreationFailure::MarkerRace
    ));
    assert!(matches!(
        created(CreationStep::CreateMarker, 5),
        CreationFailure::MarkerCreate { code: 5 }
    ));
    assert!(matches!(
        CreationStep::<u8>::Resolve
            .advance(CreationEvent::Resolved(Ok(MaterializationRecovery::Absent))),
        CreationStep::Failed(CreationFailure::Outcome(MaterializationRecovery::Absent))
    ));
    assert!(matches!(
        CreationStep::Verify.advance(CreationEvent::Finished(Err(4u8))),
        CreationStep::Failed(CreationFailure::Step(4))
    ));
}

fn facts(list: PersistedDacl, owner_matches: bool) -> Result<SecurityFacts, u8> {
    Ok(SecurityFacts {
        owner_matches,
        descriptor: list,
    })
}

#[test]
fn created_directories_are_verified() {
    let check = |directory, marker, contents| {
        verify_materialization(
            &path(r"C:\a"),
            &dacl(1, true),
            &path(r"C:\a\m"),
            &dacl(2, true),
            &vec![7; 32],
            directory,
            marker,
            contents,
        )
    };
    let right = || facts(dacl(1, true), true);
    let marker = || facts(dacl(2, true), true);
    assert!(check(right(), marker(), Ok(vec![7; 32])).is_ok());
    assert!(matches!(
        check(Err(3), marker(), Ok(vec![7; 32])),
        Err(CheckFailure::Read(3))
    ));
    assert!(matches!(
        check(facts(dacl(1, true), false), marker(), Ok(vec![7; 32])),
        Err(CheckFailure::Object(
            FilesystemAclError::MaterializationOwnerMismatch { .. }
        ))
    ));
    assert!(matches!(
        check(right(), facts(dacl(1, true), true), Ok(vec![7; 32])),
        Err(CheckFailure::Object(
            FilesystemAclError::DescriptorSnapshotMismatch { .. }
        ))
    ));
    assert!(matches!(
        check(right(), marker(), Ok(vec![8; 32])),
        Err(CheckFailure::Object(
            FilesystemAclError::MaterializationMarkerMismatch { .. }
        ))
    ));
    assert!(matches!(
        verify_marker_contents(&path(r"C:\a"), Err(9u8), &vec![]),
        Err(CheckFailure::Read(9))
    ));
}

#[test]
fn recorded_directories_are_verified_before_their_removal() {
    let object = MaterializedObject {
        path: path(r"C:\a"),
        identity: identity(1),
        descriptor: dacl(1, true),
        marker_path: path(r"C:\a\m"),
        marker_identity: identity(2),
        marker_descriptor: dacl(2, true),
        marker_nonce: vec![7; 32],
    };
    let drift = |result: Result<(), AclError>| {
        matches!(result, Err(FilesystemAclError::MaterializationDrift { .. }))
    };
    assert!(object.verify_recorded(&identity(1), &identity(2)).is_ok());
    assert!(drift(object.verify_recorded(&identity(3), &identity(2))));
    assert!(drift(object.verify_recorded(&identity(1), &identity(3))));
    assert!(object
        .verify_directory_for_cleanup(&identity(1), facts(dacl(1, true), true))
        .is_ok());
    assert!(matches!(
        object.verify_directory_for_cleanup(&identity(1), facts(dacl(3, true), true)),
        Err(CheckFailure::Object(
            FilesystemAclError::MaterializationDrift { .. }
        ))
    ));
    assert!(object
        .verify_marker_for_cleanup(&identity(2), facts(dacl(2, true), true), Ok(vec![7; 32]))
        .is_ok());
    assert!(object
        .verify_marker_for_cleanup(&identity(1), facts(dacl(2, true), true), Ok(vec![7; 32]))
        .is_err());
}

#[test]
fn removal_goes_marker_first() {
    let mut step = RemovalStep::first(None);
    let mut seen = vec![];
    while step != RemovalStep::Done {
        seen.push(step);
        step = step.advance(true);
    }
    assert_eq!(
        seen,
        vec![
            RemovalStep::VerifyBoth,
            RemovalStep::Begin,
            RemovalStep::DeleteMarker,
            RemovalStep::ArmDirectory,
            RemovalStep::CheckEmpty,
            RemovalStep::DeleteDirectory,
            RemovalStep::Resolve
        ]
    );
    assert_eq!(
        RemovalStep::first(Some(MaterializationRemovalPhase::DirectoryDeleteArmed)).advance(false),
        RemovalStep::Resolve
    );
    assert_eq!(
        RemovalStep::first(Some(MaterializationRemovalPhase::MarkerDeleteArmed)).advance(false),
        RemovalStep::ArmDirectory
    );
}

#[test]
fn observations_of_created_paths_are_classified() {
    let a = path(r"C:\a");
    assert!(matches!(
        retain_or_create(&a, &vec![path(r"c:\A")], true, Presence::Present),
        Ok(ComponentAction::Retained)
    ));
    assert!(matches!(
        retain_or_create(&a, &vec![], true, Presence::Present),
        Ok(ComponentAction::VerifyRecorded)
    ));
    assert!(matches!(
        retain_or_create(&a, &vec![], false, Presence::Missing),
        Ok(ComponentAction::Create)
    ));
    assert!(matches!(
        retain_or_create(&a, &vec![], false, Presence::Present),
        Err(FilesystemAclError::MaterializationRace { .. })
    ));
    assert!(matches!(
        retain_or_create(&a, &vec![], false, Presence::Failed { code: 5 }),
        Err(FilesystemAclError::MaterializationMetadata { code: 5, .. })
    ));
    assert!(matches!(
        recover_pending(&a, Presence::Missing),
        Ok(MaterializationRecovery::Absent)
    ));
    assert!(matches!(
        recover_pending(&a, Presence::Present),
        Ok(MaterializationRecovery::Present)
    ));
    assert!(verify_outcome(
        &a,
        MaterializationRecovery::Absent,
        MaterializationRecovery::Absent
    )
    .is_ok());
    assert!(matches!(
        verify_outcome(
            &a,
            MaterializationRecovery::Absent,
            MaterializationRecovery::Present
        ),
        Err(FilesystemAclError::MaterializationOutcome {
            actual: MaterializationRecovery::Present,
            ..
        })
    ));
    assert!(verify_empty(&a, None).is_ok());
    assert!(matches!(
        verify_empty(&a, Some(Ok(()))),
        Err(FilesystemAclError::MaterializationNotEmpty { .. })
    ));
    assert!(matches!(
        verify_empty(&a, Some(Err(5))),
        Err(FilesystemAclError::Enumerate { code: 5, .. })
    ));
    assert!(verify_deleted(&a, Ok(()), Presence::Missing).is_ok());
    assert!(matches!(
        verify_deleted(&a, Ok(()), Presence::Present),
        Err(FilesystemAclError::MaterializationRemoveReadBack { .. })
    ));
    assert!(matches!(
        verify_deleted(&a, Err(5), Presence::Missing),
        Err(FilesystemAclError::MaterializationRemove { code: 5, .. })
    ));
}

#[test]
fn created_objects_belong_to_their_owner() {
    assert_eq!(
        CreationDescriptorKind::Directory.sddl("S-1"),
        "O:S-1D:P(A;OICI;FA;;;S-1)(A;OICI;FA;;;BA)(A;OICI;FA;;;SY)"
    );
    assert_eq!(
        CreationDescriptorKind::Marker.sddl("S-1"),
        "O:S-1D:P(A;;FA;;;S-1)(A;;FA;;;BA)(A;;FA;;;SY)"
    );
}

#[test]
fn missing_targets_are_created_below_their_anchor() {
    let plan = sample_plan();
    let target = &plan.missing_targets()[0];
    assert_eq!(
        texts(&target_components(target).expect("components")),
        vec![r"C:\work\.git"]
    );
}

#[test]
fn unfinished_work_comes_first() {
    let mut step = EnforcementStep::<u8>::BeginSession;
    let mut count = 0;
    while !matches!(step, EnforcementStep::Done) {
        step = step.advance(Ok(()));
        count += 1;
    }
    assert_eq!(count, 9);
    assert!(matches!(
        EnforcementStep::ChangeLists.advance(Err(3u8)),
        EnforcementStep::Failed { error: 3 }
    ));
    let mut cleanup = CleanupStep::<u8>::BeginSession;
    for _ in 0..6 {
        cleanup = cleanup.advance(CleanupEvent::Done(Ok(())));
    }
    assert!(matches!(cleanup, CleanupStep::CheckComplete));
    assert!(matches!(
        CleanupStep::<u8>::CheckComplete.advance(CleanupEvent::Complete(false)),
        CleanupStep::Incomplete
    ));
    assert!(matches!(
        cleanup
            .advance(CleanupEvent::Complete(true))
            .advance(CleanupEvent::Done(Ok(()))),
        CleanupStep::Done
    ));
}
