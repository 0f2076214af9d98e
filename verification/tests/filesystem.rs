use cageforge_windows::filesystem_path::{
    open_discovered_acl_path, validate_lexical_path, FilesystemObjectIdentity, OpenFacts,
    OpenPurpose, SizedRead, SizedReadOutcome, ValidatedPath, ValidatedPathError,
};
use cageforge_windows::filesystem_plan::{
    is_unbounded_search, nearest_existing_ancestor, pattern_is_recursive, write_roots, ClassificationFacts,
    FilesystemDecision, FilesystemPlan, FilesystemPlanAccess, FilesystemPlanCollector,
    FilesystemPlanError, GlobMatch, GlobObservation, LayerObservation, MissingFilesystemTargetKind,
    MissingPathBehavior, PathObservation, PathPresence, ProtectedObservation, ReadOnlyObservation,
    RuleObservation, ScopeObservation, TargetOrigins,
};
use cageforge_windows::glob_scan::{GlobScan, ScanEntry};
use cageforge_windows::native_path::NativePath;

fn path(text: &str) -> NativePath {
    NativePath::parse(&text.encode_utf16().collect::<Vec<u16>>())
}

fn text(path: &NativePath) -> String {
    String::from_utf16(&path.text_units()).unwrap()
}

fn there(name: &str) -> PathObservation {
    PathObservation {
        presence: PathPresence::Present,
        opened: Ok(path(name)),
    }
}

fn gone(name: &str) -> PathObservation {
    PathObservation {
        presence: PathPresence::Missing,
        opened: Err(ValidatedPathError::Open {
            path: path(name),
            code: 2,
        }),
    }
}

fn scope(name: &str, decision: FilesystemDecision) -> ScopeObservation {
    ScopeObservation {
        path: path(name),
        decision,
        observed: there(name),
        read_only: vec![],
    }
}

fn rule(resolved: Vec<ScopeObservation>, platform_base: bool) -> RuleObservation {
    RuleObservation::Scope {
        slash_tmp: false,
        platform_base,
        missing: MissingPathBehavior::Error,
        resolved,
    }
}

fn layer(rules: Vec<RuleObservation>) -> LayerObservation {
    LayerObservation {
        external: false,
        protected_relative_paths: vec![],
        rules,
    }
}

fn facts(
    collector: &FilesystemPlanCollector,
    decide: impl Fn(&str) -> FilesystemDecision,
) -> ClassificationFacts {
    let paths = collector.pending_paths();
    ClassificationFacts {
        decisions: paths.iter().map(|path| decide(&text(path))).collect(),
        reopened: paths.into_iter().map(Ok).collect(),
    }
}

fn target_access(plan: &FilesystemPlan, name: &str) -> Option<FilesystemPlanAccess> {
    plan.targets()
        .iter()
        .find(|target| target.path().same_path(&path(name)))
        .map(|target| target.access())
}

fn plan_of(
    layers: &[LayerObservation],
    decide: impl Fn(&str) -> FilesystemDecision,
    missing_protected: &[&str],
) -> FilesystemPlan {
    let mut collector = FilesystemPlanCollector::new(true);
    for layer in layers {
        collector.collect_layer(layer).expect("collect layer");
    }
    let roots = collector
        .preliminary_write_roots(&facts(&collector, &decide))
        .expect("write roots");
    let candidates = collector.protected_candidates(&roots);
    let observed: Vec<ProtectedObservation> = candidates
        .into_iter()
        .map(|candidate| {
            assert!(missing_protected.contains(&text(&candidate.path).as_str()));
            ProtectedObservation {
                observed: gone(&text(&candidate.path)),
                ancestors: vec![there(&text(&candidate.root))],
                decision: FilesystemDecision::Deny,
                root: candidate.root,
                path: candidate.path,
            }
        })
        .collect();
    assert_eq!(observed.len(), missing_protected.len());
    collector
        .collect_protected(&observed)
        .expect("protected paths");
    let facts = facts(&collector, &decide);
    collector.finish(&facts).expect("plan")
}

fn read_or_write(name: &str) -> FilesystemDecision {
    if name == r"C:\minimal" {
        FilesystemDecision::Read
    } else if name.ends_with("secret.txt") {
        FilesystemDecision::Deny
    } else {
        FilesystemDecision::Write
    }
}

fn minimal_rule() -> RuleObservation {
    rule(vec![scope(r"C:\minimal", FilesystemDecision::Read)], true)
}

fn workspace_rule() -> RuleObservation {
    rule(
        vec![scope(r"C:\workspace", FilesystemDecision::Write)],
        false,
    )
}

#[test]
fn filesystem_plan_consumes_ceiling_deny_layer() {
    let requested = layer(vec![minimal_rule(), workspace_rule()]);
    let ceiling = layer(vec![
        minimal_rule(),
        workspace_rule(),
        rule(
            vec![scope(
                r"C:\workspace\secret.txt",
                FilesystemDecision::Deny,
            )],
            false,
        ),
    ]);

    let plan = plan_of(&[requested, ceiling], read_or_write, &[]);

    assert_eq!(
        target_access(&plan, r"C:\workspace\secret.txt"),
        Some(FilesystemPlanAccess::Deny)
    );
}

#[test]
fn filesystem_profile_digest_ignores_declaration_order() {
    let first = plan_of(
        &[layer(vec![minimal_rule(), workspace_rule()])],
        read_or_write,
        &[],
    );
    let second = plan_of(
        &[layer(vec![workspace_rule(), minimal_rule()])],
        read_or_write,
        &[],
    );

    assert_eq!(first.profile_sha256(), second.profile_sha256());
    assert_eq!(first.profile_sha256().len(), 64);
    assert!(first
        .profile_sha256()
        .chars()
        .all(|digit| digit.is_ascii_digit() || ('a'..='f').contains(&digit)));
}

#[test]
fn policies_that_cannot_decide_are_reported() {
    let undecided = FilesystemDecision::Undecided { failure: 17 };
    let mut collector = FilesystemPlanCollector::new(true);
    assert!(matches!(
        collector.collect_layer(&layer(vec![rule(vec![scope(r"C:\a", undecided)], true)])),
        Err(FilesystemPlanError::BackendContract { failure: 17 })
    ));
    let matched = vec![GlobObservation {
        root: path(r"C:\a"),
        matches: Ok(vec![GlobMatch {
            path: path(r"C:\a\secret"),
            decision: undecided,
            opened: Ok(path(r"C:\a\secret")),
        }]),
    }];
    assert!(matches!(
        FilesystemPlanCollector::new(true)
            .collect_glob(&"*".encode_utf16().collect(), &matched),
        Err(FilesystemPlanError::BackendContract { failure: 17 })
    ));
    let protected = vec![ProtectedObservation {
        root: path(r"C:\a"),
        path: path(r"C:\a\.git"),
        decision: undecided,
        observed: there(r"C:\a\.git"),
        ancestors: vec![],
    }];
    assert!(matches!(
        FilesystemPlanCollector::new(true).collect_protected(&protected),
        Err(FilesystemPlanError::BackendContract { failure: 17 })
    ));
    let mut planned = FilesystemPlanCollector::new(true);
    planned
        .collect_layer(&layer(vec![minimal_rule(), workspace_rule()]))
        .expect("collect layer");
    let answers = facts(&planned, |name| {
        if name == r"C:\workspace" {
            undecided
        } else {
            FilesystemDecision::Read
        }
    });
    assert!(matches!(
        planned.preliminary_write_roots(&answers),
        Err(FilesystemPlanError::BackendContract { failure: 17 })
    ));
    assert!(matches!(
        planned.finish(&answers),
        Err(FilesystemPlanError::BackendContract { failure: 17 })
    ));
}

#[test]
fn filesystem_profile_digest_changes_with_missing_protected_obligation() {
    let base = layer(vec![minimal_rule(), workspace_rule()]);
    let mut extended = layer(vec![minimal_rule(), workspace_rule()]);
    extended
        .protected_relative_paths
        .push(path(".cageforge-test"));

    let base = plan_of(&[base], read_or_write, &[]);
    let extended = plan_of(
        &[extended],
        read_or_write,
        &[r"C:\workspace\.cageforge-test"],
    );

    assert_ne!(base.profile_sha256(), extended.profile_sha256());
    let missing = extended.missing_targets();
    assert_eq!(missing.len(), 1);
    assert_eq!(missing[0].kind(), MissingFilesystemTargetKind::Protected);
    assert_eq!(text(missing[0].path()), r"C:\workspace\.cageforge-test");
    assert_eq!(text(missing[0].anchor().unwrap()), r"C:\workspace");
}

#[test]
fn writable_child_remains_distinct_below_read_only_parent() {
    let mut workspace = scope(r"C:\workspace", FilesystemDecision::Write);
    workspace.read_only.push(ReadOnlyObservation {
        path: path(r"C:\workspace\read-only"),
        observed: there(r"C:\workspace\read-only"),
        ancestors: vec![],
    });
    let policy = layer(vec![
        minimal_rule(),
        rule(vec![workspace], false),
        rule(
            vec![scope(
                r"C:\workspace\read-only\writable",
                FilesystemDecision::Write,
            )],
            false,
        ),
    ]);

    let plan = plan_of(
        &[policy],
        |name| {
            if name.ends_with("minimal") || name.ends_with("read-only") {
                FilesystemDecision::Read
            } else {
                FilesystemDecision::Write
            }
        },
        &[],
    );

    assert_eq!(
        target_access(&plan, r"C:\workspace"),
        Some(FilesystemPlanAccess::WriteRoot)
    );
    assert_eq!(
        target_access(&plan, r"C:\workspace\read-only"),
        Some(FilesystemPlanAccess::ReadOnly)
    );
    assert_eq!(
        target_access(&plan, r"C:\workspace\read-only\writable"),
        Some(FilesystemPlanAccess::WriteRoot)
    );
    assert_eq!(text(plan.profile_anchor()), r"C:\minimal");
    let roots: Vec<String> = write_roots(plan.targets()).iter().map(text).collect();
    assert_eq!(
        roots,
        vec![r"C:\workspace", r"C:\workspace\read-only\writable"]
    );
    let read_only = &plan.targets()[2];
    assert!(read_only.origins().read_only && !read_only.origins().scope);
}

#[test]
fn policies_that_cannot_be_planned_are_refused() {
    let mut external = layer(vec![]);
    external.external = true;
    assert!(matches!(
        FilesystemPlanCollector::new(true).collect_layer(&external),
        Err(FilesystemPlanError::ExternalOwnership)
    ));
    let slash_tmp = layer(vec![RuleObservation::Scope {
        slash_tmp: true,
        platform_base: false,
        missing: MissingPathBehavior::Skip,
        resolved: vec![],
    }]);
    assert!(matches!(
        FilesystemPlanCollector::new(true).collect_layer(&slash_tmp),
        Err(FilesystemPlanError::SlashTmpScope)
    ));
    let mut outside = scope(r"C:\workspace", FilesystemDecision::Write);
    outside.read_only.push(ReadOnlyObservation {
        path: path(r"C:\other"),
        observed: there(r"C:\other"),
        ancestors: vec![],
    });
    assert!(matches!(
        FilesystemPlanCollector::new(true).collect_layer(&layer(vec![rule(vec![outside], false)])),
        Err(FilesystemPlanError::ReadOnlyOutsideWriteRoot { .. })
    ));
    let baseless = FilesystemPlanCollector::new(true);
    let none = facts(&baseless, read_or_write);
    assert!(matches!(
        baseless.preliminary_write_roots(&none),
        Err(FilesystemPlanError::MissingReadablePlatformBase)
    ));
    assert!(matches!(
        baseless.finish(&none),
        Err(FilesystemPlanError::MissingReadablePlatformBase)
    ));
}

#[test]
fn missing_and_unreadable_scopes_are_told_apart() {
    let origins = TargetOrigins {
        scope: true,
        read_only: false,
        glob: false,
        protected: false,
    };
    let name = path(r"C:\gone");
    let mut collector = FilesystemPlanCollector::new(true);
    assert!(matches!(
        collector.collect_scope(
            &name,
            &gone(r"C:\gone"),
            MissingPathBehavior::Error,
            origins
        ),
        Err(FilesystemPlanError::RequiredPathMissing { .. })
    ));
    assert!(matches!(
        collector.collect_scope(
            &name,
            &gone(r"C:\gone"),
            MissingPathBehavior::Skip,
            origins
        ),
        Ok(false)
    ));
    let unreadable = PathObservation {
        presence: PathPresence::Failed { code: 5 },
        opened: Ok(path(r"C:\gone")),
    };
    assert!(matches!(
        collector.collect_scope(&name, &unreadable, MissingPathBehavior::Skip, origins),
        Err(FilesystemPlanError::Metadata { code: 5, .. })
    ));
    let reparse = PathObservation {
        presence: PathPresence::Present,
        opened: Err(ValidatedPathError::ReparsePoint {
            path: path(r"C:\gone"),
        }),
    };
    assert!(matches!(
        collector.collect_scope(&name, &reparse, MissingPathBehavior::Skip, origins),
        Err(FilesystemPlanError::InvalidPath(
            ValidatedPathError::ReparsePoint { .. }
        ))
    ));
    assert!(matches!(
        collector.collect_scope(
            &name,
            &there(r"C:\GONE"),
            MissingPathBehavior::Skip,
            origins
        ),
        Ok(true)
    ));
    assert_eq!(collector.pending_paths().len(), 1);
}

#[test]
fn contradictions_between_policy_and_origins_are_refused() {
    for (read_only, protected) in [(true, false), (false, true)] {
        let origins = TargetOrigins {
            scope: false,
            read_only,
            glob: false,
            protected,
        };
        let mut collector = FilesystemPlanCollector::new(true);
        collector
            .collect_scope(
                &path(r"C:\a"),
                &there(r"C:\a"),
                MissingPathBehavior::Error,
                origins,
            )
            .unwrap();
        let writable = facts(&collector, |_| FilesystemDecision::Write);
        match collector.classify_pending(&writable) {
            Err(FilesystemPlanError::ReadOnlyPolicyMismatch { .. }) => assert!(read_only),
            Err(FilesystemPlanError::ProtectedPathWritable { .. }) => assert!(protected),
            other => panic!("{:?}", other.is_ok()),
        }
        let external = facts(&collector, |_| FilesystemDecision::ExternallyEnforced);
        assert!(matches!(
            collector.classify_pending(&external),
            Err(FilesystemPlanError::ExternalPath { .. })
        ));
        let mut vanished = facts(&collector, |_| FilesystemDecision::Read);
        vanished.reopened[0] = Err(ValidatedPathError::Open {
            path: path(r"C:\a"),
            code: 2,
        });
        assert!(matches!(
            collector.classify_pending(&vanished),
            Err(FilesystemPlanError::InvalidPath(_))
        ));
    }
}

#[test]
fn protected_paths_must_not_be_writable() {
    for (decision, writable) in [
        (FilesystemDecision::Write, true),
        (FilesystemDecision::ExternallyEnforced, false),
    ] {
        let observed = vec![ProtectedObservation {
            root: path(r"C:\a"),
            path: path(r"C:\a\.git"),
            decision,
            observed: there(r"C:\a\.git"),
            ancestors: vec![],
        }];
        match FilesystemPlanCollector::new(true).collect_protected(&observed) {
            Err(FilesystemPlanError::ProtectedPathWritable { .. }) => assert!(writable),
            Err(FilesystemPlanError::ExternalPath { .. }) => assert!(!writable),
            other => panic!("{:?}", other.is_ok()),
        }
    }
}

#[test]
fn deny_globs_are_bounded_and_denied() {
    let pattern: Vec<u16> = r"C:\**\secret".encode_utf16().collect();
    assert!(pattern_is_recursive(&pattern));
    assert!(!pattern_is_recursive(
        &r"C:\a**b\secret".encode_utf16().collect()
    ));
    assert!(is_unbounded_search(false, &path(r"C:\"), &pattern));
    assert!(!is_unbounded_search(true, &path(r"C:\"), &pattern));
    assert!(!is_unbounded_search(false, &path(r"C:\a"), &pattern));
    assert!(!is_unbounded_search(
        false,
        &path(r"C:\"),
        &r"C:\*.txt".encode_utf16().collect()
    ));
    let roots = vec![GlobObservation {
        root: path(r"C:\"),
        matches: Ok(vec![]),
    }];
    assert!(matches!(
        FilesystemPlanCollector::new(false).collect_glob(&pattern, &roots),
        Err(FilesystemPlanError::UnboundedRootGlob)
    ));
    assert!(FilesystemPlanCollector::new(true)
        .collect_glob(&pattern, &roots)
        .is_ok());
    let matched = vec![GlobObservation {
        root: path(r"C:\a"),
        matches: Ok(vec![GlobMatch {
            path: path(r"C:\a\secret"),
            decision: FilesystemDecision::Read,
            opened: Ok(path(r"C:\a\secret")),
        }]),
    }];
    assert!(matches!(
        FilesystemPlanCollector::new(false).collect_glob(&pattern, &matched),
        Err(FilesystemPlanError::GlobPolicyMismatch { .. })
    ));
    let failed = vec![GlobObservation {
        root: path(r"C:\a"),
        matches: Err(FilesystemPlanError::GlobScan {
            path: path(r"C:\a"),
            code: 5,
        }),
    }];
    assert!(matches!(
        FilesystemPlanCollector::new(false).collect_glob(&pattern, &failed),
        Err(FilesystemPlanError::GlobScan { code: 5, .. })
    ));
}

#[test]
fn missing_targets_are_anchored_at_their_nearest_ancestor() {
    let missing = path(r"C:\a\b\c\d");
    let root = path(r"C:\a");
    let ancestor = nearest_existing_ancestor(
        &missing,
        &root,
        &vec![gone(r"C:\a\b\c"), there(r"C:\a\b")],
    )
    .expect("anchor");
    assert_eq!(text(&ancestor), r"C:\a\b");
    assert!(matches!(
        nearest_existing_ancestor(
            &missing,
            &root,
            &vec![gone(r"C:\a\b\c"), gone(r"C:\a\b"), gone(r"C:\a")]
        ),
        Err(FilesystemPlanError::MissingTargetWithoutAnchor { .. })
    ));
}

#[test]
fn searches_visit_in_path_order_and_stop_at_links() {
    let entry = |name: &str, directory: bool, matches: bool, reparse: bool| ScanEntry {
        path: path(name),
        reparse,
        directory,
        matches,
    };
    let mut scan = GlobScan::start(
        entry(r"C:\r", true, false, false),
        PathPresence::Present,
        Some(1),
    )
    .unwrap();
    assert_eq!(text(&scan.next().unwrap().unwrap()), r"C:\r");
    scan.supply(vec![
        entry(r"C:\r\b", true, true, false),
        entry(r"C:\r\a", false, true, false),
    ]);
    assert!(scan.next().unwrap().is_none());
    let found: Vec<String> = scan.into_matches().iter().map(text).collect();
    assert_eq!(found, vec![r"C:\r\a", r"C:\r\b"]);

    let mut linked = GlobScan::start(
        entry(r"C:\r", true, false, true),
        PathPresence::Present,
        None,
    )
    .unwrap();
    assert!(matches!(
        linked.next(),
        Err(FilesystemPlanError::GlobReparsePoint { .. })
    ));
    assert!(matches!(
        GlobScan::start(
            entry(r"C:\r", true, false, false),
            PathPresence::Failed { code: 5 },
            None
        ),
        Err(FilesystemPlanError::Metadata { code: 5, .. })
    ));
    let mut missing = GlobScan::start(
        entry(r"C:\r", true, true, false),
        PathPresence::Missing,
        None,
    )
    .unwrap();
    assert!(missing.next().unwrap().is_none());
    assert!(missing.into_matches().is_empty());
}

#[test]
fn a_whole_search_finds_every_match_within_its_bound() {
    let entry = |name: &str, directory: bool, matches: bool| ScanEntry {
        path: path(name),
        reparse: false,
        directory,
        matches,
    };
    let search = |bound: Option<u64>| {
        let mut scan = GlobScan::start(
            entry(r"C:\r", true, false),
            PathPresence::Present,
            bound,
        )
        .unwrap();
        while let Some(directory) = scan.next().unwrap() {
            scan.supply(match text(&directory).as_str() {
                r"C:\r" => vec![
                    entry(r"C:\r\z", false, true),
                    entry(r"C:\r\d", true, true),
                    entry(r"C:\r\a", false, false),
                ],
                r"C:\r\d" => vec![
                    entry(r"C:\r\d\deep", true, false),
                    entry(r"C:\r\D\x", false, true),
                    entry(r"C:\r\d\x", false, true),
                ],
                _ => vec![entry(r"C:\r\d\deep\y", false, true)],
            });
        }
        scan.into_matches().iter().map(text).collect::<Vec<String>>()
    };
    assert_eq!(
        search(None),
        vec![r"C:\r\d", r"C:\r\d\deep\y", r"C:\r\D\x", r"C:\r\z"]
    );
    assert_eq!(search(Some(2)), vec![r"C:\r\d", r"C:\r\D\x", r"C:\r\z"]);
    assert_eq!(search(Some(1)), vec![r"C:\r\d", r"C:\r\z"]);
    assert!(search(Some(0)).is_empty());
}

#[test]
fn paths_are_compared_by_their_native_identity() {
    assert!(path(r"C:\Work").same_path(&path(r"c:\WORK")));
    assert!(path(r"C:\ÄÖ\.\x").same_path(&path(r"c:\äö\X")));
    assert!(!path(r"C:\Work").same_path(&path(r"D:\Work")));
    assert!(path(r"C:\a\b\c").is_within(&path(r"c:\A\B")));
    assert!(path(r"C:\a").is_within(&path(r"C:\a")));
    assert!(!path(r"C:\ab").is_within(&path(r"C:\a")));
    assert!(!path(r"C:\a").is_within(&path(r"C:\a\b")));
    assert!(path(r"C:\").is_complete_volume_root());
    assert!(!path(r"C:\a").is_complete_volume_root());
    assert!(path(r"C:\a\..\b").contains_parent_traversal());
    assert!(!path(r"C:\a\b").contains_parent_traversal());
    assert!(path(r"C:\a").is_absolute());
    assert!(!path(r"a").is_absolute());
    assert!(!path(r"C:a").is_absolute());
    assert_eq!(text(&path(r"C:\a\b").parent().unwrap()), r"C:\a");
    assert!(path(r"C:\").parent().is_none());
    assert_eq!(text(&path(r"C:\a").join(&path(r"b\c"))), r"C:\a\b\c");
    assert_eq!(text(&path(r"C:\a").child("b")), r"C:\a\b");
    assert!(path("C:\\a\0b").contains_nul());
    assert_eq!(path(r"C:\a\b").component_count(), 4);
}

#[test]
fn paths_are_read_as_they_are_written() {
    for name in [r"C:\", r"C:\a", r"C:\a\b c\d.e", r"C:a", r"\a", "a"] {
        assert_eq!(text(&path(name)), name);
    }
    assert_eq!(text(&path(r"C:/a//b\")), r"C:\a\b");
    assert_eq!(text(&path(r"\\?\C:\a")), r"\\?\C:\a");
    let share = path(r"\\server\share\a\b");
    assert_eq!(
        share.prefix,
        r"\\server\share".encode_utf16().collect::<Vec<u16>>()
    );
    assert!(share.rooted);
    assert_eq!(share.parts.len(), 2);
    assert!(share.same_path(&path(r"\\?\UNC\server\SHARE\a\b")));
    let drive = path("C:");
    assert!(!drive.rooted && drive.parts.is_empty());
    let relative = path(r"a\..\b");
    assert!(relative.prefix.is_empty() && !relative.rooted);
    assert_eq!(relative.parts.len(), 3);
}

#[test]
fn current_names_are_left_out_of_paths() {
    for name in [r"C:\.", r"C:\.\", r"C:/./.", r"\\server\share\."] {
        assert!(path(name).is_complete_volume_root(), "{name}");
        assert!(path(name).parent().is_none());
    }
    assert_eq!(text(&path(r"C:\a\.\b\.")), r"C:\a\b");
    assert_eq!(path(r"C:\.\a").component_count(), 3);
    assert_eq!(text(&path(r"C:\a\.\b").parent().unwrap()), r"C:\a");
    assert_eq!(text(&path(r"C:.\a")), "C:a");
    assert_eq!(text(&path(r".\a\.\b")), r".\a\b");
    assert_eq!(text(&path(".")), ".");
    assert_eq!(text(&path(r"\\?\C:\a\.\b")), r"\\?\C:\a\.\b");
    assert!(!path(r"\\?\C:\.").is_complete_volume_root());
    assert_eq!(text(&path(r"C:\a").join(&path(r".\b"))), r"C:\a\b");
    let recursive: Vec<u16> = r"C:\.\**".encode_utf16().collect();
    assert!(is_unbounded_search(false, &path(r"C:\."), &recursive));
}

#[test]
fn prefixes_are_told_apart() {
    let prefix = |name: &str| String::from_utf16(&path(name).prefix).unwrap();
    assert_eq!(prefix(r"\\?\C:\a"), r"\\?\C:");
    assert_eq!(prefix(r"\\?\UNC\server\share\a"), r"\\?\UNC\server\share");
    assert_eq!(prefix(r"\\?\UNC\server"), r"\\?\UNC\server");
    assert_eq!(prefix(r"\\?\pictures\a"), r"\\?\pictures");
    assert_eq!(prefix(r"\\.\COM42\a"), r"\\.\COM42");
    assert_eq!(prefix(r"//server/share/a"), r"//server/share");
    assert_eq!(prefix(r"\\server"), "");
    assert_eq!(prefix(r"\\server\\share"), "");
    assert_eq!(prefix("z:a"), "z:");
    assert_eq!(prefix("1:a"), "");
    assert_eq!(prefix("\u{e4}:a"), "");
    assert_eq!(text(&path("1:a")), "1:a");
    // A verbatim drive is absolute, and a volume root where its root is written.
    assert!(path(r"\\?\C:").is_absolute());
    assert!(!path(r"\\?\C:").is_complete_volume_root());
    assert!(path(r"\\?\C:\").is_complete_volume_root());
    assert!(!path("C:").is_absolute());
    assert!(path(r"\\server\share").is_complete_volume_root());
    assert!(path(r"\\.\COM42").is_absolute());
    // Behind a verbatim prefix a slash is part of a name.
    let verbatim = path(r"\\?\C:\a/b\c");
    assert_eq!(verbatim.parts.len(), 2);
    assert_eq!(text(&verbatim.parent().unwrap()), r"\\?\C:\a/b");
    assert_eq!(path(r"\\?\C:/a/b").parts.len(), 1);
    // Verbatim paths are the paths that they stand for.
    assert!(path(r"\\?\c:\A").same_path(&path(r"C:\a")));
    assert!(path(r"\\?\C:").same_path(&path(r"C:\")));
    assert!(path(r"\\?\C:\a\b").is_within(&path(r"C:\a")));
    assert!(path(r"//server/share/a").same_path(&path(r"\\SERVER\share\a")));
    assert!(!path(r"\\?\pictures\a").same_path(&path(r"C:\a")));
    assert_eq!(
        path(r"\\?\C:\A").canonical_path_units(),
        path(r"C:\a").canonical_path_units()
    );
}

#[test]
fn paths_are_put_behind_others() {
    let join = |base: &str, name: &str| text(&path(base).join(&path(name)));
    assert_eq!(join(r"C:\a", r"D:\b"), r"D:\b");
    assert_eq!(join(r"C:\a", r"\b"), r"C:\b");
    assert_eq!(join("C:", "b"), "C:b");
    assert_eq!(join("", r".\b"), r".\b");
    assert_eq!(join(r"C:\a", r"..\b"), r"C:\a\..\b");
    assert_eq!(join(r"\\?\C:\a", r"..\b\.\c"), r"\\?\C:\b\c");
    assert_eq!(join(r"\\?\C:\a", r"\b"), r"\\?\C:\b");
    assert_eq!(join(r"\\?\C:", "b"), r"\\?\C:\b");
    assert_eq!(join(r"\\?\C:", ""), r"\\?\C:\");
    assert_eq!(join(r"\\?\C:\", ".."), r"\\?\C:\");
    assert_eq!(text(&path(r"\\?\C:").child("b")), r"\\?\C:\b");
    assert_eq!(
        text(&path(r"C:\a").child_named(vec![u16::from(b'x')])),
        r"C:\a\x"
    );
}

#[test]
fn lexical_faults_are_found_before_the_path_is_opened() {
    assert!(matches!(
        validate_lexical_path(&path("a")),
        Err(ValidatedPathError::Relative { .. })
    ));
    assert!(matches!(
        validate_lexical_path(&path(r"C:\a\..\b")),
        Err(ValidatedPathError::ParentTraversal { .. })
    ));
    assert!(matches!(
        validate_lexical_path(&path("C:\\a\0")),
        Err(ValidatedPathError::Nul { .. })
    ));
    assert!(validate_lexical_path(&path(r"C:\a")).is_ok());
}

fn read(required: u32, length: u32) -> SizedRead {
    SizedRead {
        required,
        required_code: 7,
        length,
        length_code: 8,
    }
}

fn opened(name: &str) -> OpenFacts {
    OpenFacts {
        opened: Ok(()),
        attributes: Ok(0x10),
        identity: Ok(FilesystemObjectIdentity {
            volume_serial_number: 3,
            file_id: [4; 16],
        }),
        final_read: read(9, 8),
        final_path: path(name),
        long_read: read(9, 8),
        expanded_path: path(name),
    }
}

#[test]
fn sized_reads_need_their_own_length() {
    assert_eq!(read(9, 8).finish(1), SizedReadOutcome::Complete { length: 8 });
    assert_eq!(read(9, 9).finish(1), SizedReadOutcome::Complete { length: 9 });
    assert_eq!(read(9, 9).finish(0), SizedReadOutcome::BadLength);
    assert_eq!(read(0, 9).finish(0), SizedReadOutcome::Failed { code: 7 });
    assert_eq!(read(9, 0).finish(0), SizedReadOutcome::Failed { code: 8 });
    assert_eq!(read(u32::MAX, 1).finish(1), SizedReadOutcome::BadLength);
}

#[test]
fn opened_paths_are_validated() {
    let name = path(r"C:\a");
    let validated = ValidatedPath::open(&name, opened(r"C:\A")).expect("opened");
    assert_eq!(text(validated.final_path()), r"C:\A");
    assert_eq!(validated.identity().volume_serial_number, 3);

    let mut facts = opened(r"C:\a");
    facts.opened = Err(5);
    assert!(matches!(
        ValidatedPath::open(&name, facts),
        Err(ValidatedPathError::Open { code: 5, .. })
    ));
    let mut facts = opened(r"C:\a");
    facts.attributes = Err(5);
    assert!(matches!(
        ValidatedPath::open(&name, facts),
        Err(ValidatedPathError::AttributeRead { code: 5, .. })
    ));
    let mut facts = opened(r"C:\a");
    facts.attributes = Ok(0x400);
    assert!(matches!(
        ValidatedPath::open(&name, facts),
        Err(ValidatedPathError::ReparsePoint { .. })
    ));
    let mut facts = opened(r"C:\a");
    facts.identity = Err(5);
    assert!(matches!(
        ValidatedPath::open(&name, facts),
        Err(ValidatedPathError::ObjectIdentityRead { code: 5, .. })
    ));
    let mut facts = opened(r"C:\a");
    facts.final_read = read(0, 0);
    assert!(matches!(
        ValidatedPath::open(&name, facts),
        Err(ValidatedPathError::FinalPathRead { code: 7, .. })
    ));
    let mut facts = opened(r"C:\a");
    facts.final_read = read(9, 10);
    assert!(matches!(
        ValidatedPath::open(&name, facts),
        Err(ValidatedPathError::FinalPathLength { .. })
    ));
    let mut facts = opened(r"C:\a");
    facts.long_read = read(9, 0);
    assert!(matches!(
        ValidatedPath::open(&name, facts),
        Err(ValidatedPathError::LongPathRead { code: 8, .. })
    ));
    let mut facts = opened(r"C:\a");
    facts.long_read = read(9, 9);
    assert!(matches!(
        ValidatedPath::open(&name, facts),
        Err(ValidatedPathError::LongPathLength { .. })
    ));
    let mut facts = opened(r"C:\a");
    facts.expanded_path = path(r"C:\b");
    assert!(matches!(
        ValidatedPath::open(&name, facts),
        Err(ValidatedPathError::FinalPathMismatch { .. })
    ));
}

#[test]
fn vanished_descendant_is_absent_but_other_validation_errors_fail_closed() {
    let vanished = path(r"C:\temporary\vanished.txt");
    let mut facts = opened(r"C:\temporary\vanished.txt");
    facts.opened = Err(2);

    assert!(
        open_discovered_acl_path(ValidatedPath::open(&vanished, facts))
            .expect("missing descendant is not an ACL target")
            .is_none()
    );
    assert!(open_discovered_acl_path(ValidatedPath::open(
        &path("relative"),
        opened("relative")
    ))
    .is_err());
    assert!(
        open_discovered_acl_path(ValidatedPath::open(&vanished, opened(r"C:\temporary\vanished.txt")))
            .expect("present")
            .is_some()
    );
}

#[test]
fn open_purposes_ask_for_the_rights_they_use() {
    assert_eq!(OpenPurpose::Acl.access() & 0x0004_0000, 0x0004_0000);
    assert_eq!(OpenPurpose::Readback.access() & 0x0004_0000, 0);
    assert_eq!(OpenPurpose::Cleanup.access() & 0x0001_0000, 0x0001_0000);
    assert_eq!(OpenPurpose::FileReadback.access() & 0x0012_0089, 0x0012_0089);
    assert_eq!(OpenPurpose::FileExecution.share_mode(), 1);
    assert_eq!(OpenPurpose::Acl.share_mode(), 3);
}
