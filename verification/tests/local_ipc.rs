use cageforge_windows::acl_mutation::PersistedDacl;
use cageforge_windows::descriptors::{snapshot_contains_sid, ObservedAce, ObservedAcl};
use cageforge_windows::local_ipc::{
    build_granted_acl, built_acl, capability_sid_from_drawn, grants_both, pipe_names, random_capability_sid, read_snapshot, release_order,
    restored, restores_on_drop, snapshot_from_acl, ApplyStep, LocalIpcEndpoint, LocalIpcRule,
    NamedPipeAcl, PipeDescriptorRead, PipeEvent, PipeStep, PutBackEvent, PutBackStep,
    WindowsLocalIpcError,
};

fn rule(name: &str, denied: bool) -> LocalIpcRule<String> {
    LocalIpcRule {
        endpoint: LocalIpcEndpoint::WindowsNamedPipe(name.to_string()),
        denied,
    }
}

fn dacl(last: u8, protected: bool) -> PersistedDacl {
    PersistedDacl {
        bytes: vec![2, 0, 9, 0, 0, 0, 0, 0, last],
        protected,
    }
}

fn error() -> WindowsLocalIpcError<String, u8> {
    WindowsLocalIpcError::Lock(3)
}

#[test]
fn granted_pipes_are_named_once() {
    let names = pipe_names::<u8>(&vec![
        vec![rule("a", false), rule("b", false)],
        vec![rule("a", false), rule("c", false)],
    ])
    .expect("names");
    assert_eq!(names, vec!["a", "b", "c"]);
    assert!(matches!(
        pipe_names::<u8>(&vec![vec![rule("a", false), rule("b", true)]]),
        Err(WindowsLocalIpcError::DenyRule { name }) if name == "b"
    ));
    let posix = LocalIpcRule {
        endpoint: LocalIpcEndpoint::UnixSocket("/s".to_string()),
        denied: false,
    };
    assert!(matches!(
        pipe_names::<u8>(&vec![vec![posix]]),
        Err(WindowsLocalIpcError::PosixEndpoint { endpoint }) if endpoint == "/s"
    ));
}

#[test]
fn capabilities_are_drawn_at_random() {
    assert!(matches!(
        capability_sid_from_drawn::<u8>(Ok("S-1-5-21-1-2-3-4".to_string())),
        Ok(sid) if sid == "S-1-5-21-1-2-3-4"
    ));
    assert!(matches!(
        capability_sid_from_drawn::<u8>(Err(getrandom::Error::UNEXPECTED)),
        Err(WindowsLocalIpcError::SidGeneration {
            source: getrandom::Error::UNEXPECTED
        })
    ));
    let first = random_capability_sid::<u8>().expect("random");
    let second = random_capability_sid::<u8>().expect("random");
    assert_ne!(first, second);
    assert!(first.starts_with("S-1-5-21-"));
    assert_eq!(first.split('-').count(), 8);
}

#[test]
fn pipe_lists_are_read_whole() {
    let read = |status, present, used: Option<Vec<u8>>, control| {
        read_snapshot::<u8>(
            "p",
            PipeDescriptorRead {
                status,
                present,
                used,
                control,
            },
        )
    };
    let taken = read(0, true, Some(vec![1; 9]), Some(0x1000)).unwrap();
    assert_eq!(taken.bytes, vec![1; 9]);
    assert!(taken.protected);
    assert!(!read(0, true, Some(vec![1; 9]), Some(0)).unwrap().protected);
    assert!(matches!(
        read(5, true, Some(vec![1; 9]), Some(0)),
        Err(WindowsLocalIpcError::DescriptorRead { code: 5, .. })
    ));
    for invalid in [
        read(0, false, Some(vec![1; 9]), Some(0)),
        read(0, true, None, Some(0)),
        read(0, true, Some(vec![1; 9]), None),
        read(0, true, Some(vec![1; 7]), Some(0)),
    ] {
        assert!(matches!(
            invalid,
            Err(WindowsLocalIpcError::DescriptorInvalid { .. })
        ));
    }
    assert!(snapshot_from_acl::<u8>("p", Some(vec![1; 8]), true).is_ok());
    assert!(snapshot_from_acl::<u8>("p", None, true).is_err());
    assert!(built_acl::<u8>("p", 0, true, 7).is_ok());
    assert!(matches!(
        built_acl::<u8>("p", 0, false, 7),
        Err(WindowsLocalIpcError::DescriptorBuild { code: 7, .. })
    ));
    assert!(matches!(
        built_acl::<u8>("p", 8, true, 7),
        Err(WindowsLocalIpcError::DescriptorBuild { code: 8, .. })
    ));
    assert!(restored::<u8>("p", 0).is_ok());
    assert!(matches!(
        restored::<u8>("p", 4),
        Err(WindowsLocalIpcError::DescriptorRestore { code: 4, .. })
    ));
}

fn sid(last: u8) -> Vec<u8> {
    vec![1, 1, 0, 0, 0, 0, 0, 5, last, 0, 0, 0]
}

fn list(entries: &[(u32, u8)]) -> ObservedAcl {
    let mut bytes = vec![2, 0, 0, 0, 0, 0, 0, 0];
    let mut aces = vec![];
    for (mask, last) in entries {
        aces.push(ObservedAce {
            address: Some(4096 + bytes.len()),
            sid: None,
        });
        bytes.extend([0, 0, 20, 0]);
        bytes.extend(mask.to_le_bytes());
        bytes.extend(sid(*last));
    }
    ObservedAcl {
        start: 4096,
        bytes: Some(bytes),
        aces,
    }
}

#[test]
fn pipes_must_let_both_identities_in() {
    let both = 0x0012_019f;
    assert!(snapshot_contains_sid(&list(&[(both, 1)]), &sid(1)));
    assert!(!snapshot_contains_sid(&list(&[(both, 1)]), &sid(2)));
    assert!(!snapshot_contains_sid(&list(&[(0x0012_0089, 1)]), &sid(1)));
    let mut short = list(&[(both, 1)]);
    let at = short.aces[0].address.unwrap() - short.start;
    if let Some(bytes) = &mut short.bytes {
        bytes[at + 2] = 12;
    }
    assert!(snapshot_contains_sid(&short, &sid(1)));
    assert!(grants_both(&list(&[(both, 1), (both, 2)]), &sid(1), &sid(2)));
    assert!(!grants_both(&list(&[(both, 1)]), &sid(1), &sid(2)));
    let entries = build_granted_acl(sid(1), sid(2));
    assert_eq!(entries.len(), 2);
    assert!(entries
        .iter()
        .all(|entry| (entry.mode, entry.mask, entry.inheritance) == (1, both, 0)));
    assert_eq!((&entries[0].sid, &entries[1].sid), (&sid(1), &sid(2)));
}

#[test]
fn pipe_changes_are_noted_before_they_are_made() {
    let step = PipeStep::<u8>::Prepare
        .advance(PipeEvent::Done(Ok(())), "p")
        .advance(PipeEvent::Done(Ok(())), "p")
        .advance(PipeEvent::Done(Ok(())), "p");
    assert!(matches!(step, PipeStep::Write));
    let step = step
        .advance(PipeEvent::Done(Ok(())), "p")
        .advance(PipeEvent::ReadBack(Ok(true)), "p");
    assert!(matches!(
        step.advance(PipeEvent::Done(Ok(())), "p"),
        PipeStep::Done
    ));
    let refused = PipeStep::<u8>::ReadBack
        .advance(PipeEvent::ReadBack(Ok(false)), "p")
        .advance(PipeEvent::Tried, "p")
        .advance(PipeEvent::Tried, "p");
    assert!(matches!(
        refused,
        PipeStep::Failed {
            error: WindowsLocalIpcError::DescriptorReadBack { .. }
        }
    ));
    assert!(matches!(
        PipeStep::Prepare.advance(PipeEvent::Done(Err(error())), "p"),
        PipeStep::Failed { .. }
    ));
    assert!(matches!(
        PipeStep::Write.advance(PipeEvent::Done(Err(error())), "p"),
        PipeStep::Restore { .. }
    ));
}

#[test]
fn pipes_are_put_back_over_the_launch_only() {
    let pipe = NamedPipeAcl {
        name: "p".to_string(),
        original: dacl(1, false),
        after: dacl(2, false),
    };
    let step = PutBackStep::<u8>::Read
        .advance(PutBackEvent::Read(Ok(dacl(2, false))), &pipe, false)
        .advance(PutBackEvent::Done(Ok(())), &pipe, false)
        .advance(PutBackEvent::Read(Ok(dacl(1, false))), &pipe, false);
    assert!(matches!(
        step.advance(PutBackEvent::Done(Ok(())), &pipe, false),
        PutBackStep::Done
    ));
    assert!(matches!(
        PutBackStep::<u8>::Read.advance(PutBackEvent::Read(Ok(dacl(1, false))), &pipe, false),
        PutBackStep::Failed {
            error: WindowsLocalIpcError::DescriptorDrift { .. }
        }
    ));
    assert!(matches!(
        PutBackStep::<u8>::Read.advance(PutBackEvent::Read(Ok(dacl(1, false))), &pipe, true),
        PutBackStep::Resolve
    ));
    let short = NamedPipeAcl {
        name: "p".to_string(),
        original: dacl(1, false),
        after: PersistedDacl {
            bytes: vec![2, 0, 7, 0, 0, 0, 0],
            protected: false,
        },
    };
    assert!(matches!(
        PutBackStep::<u8>::Read.advance(PutBackEvent::Read(Ok(dacl(1, false))), &short, true),
        PutBackStep::Failed {
            error: WindowsLocalIpcError::DescriptorInvalid { .. }
        }
    ));
    assert!(pipe.usable() && !short.usable());
    assert!(restores_on_drop(&pipe, false, &Some(dacl(2, false))));
    assert!(!restores_on_drop(&pipe, true, &Some(dacl(2, false))));
    assert!(!restores_on_drop(&pipe, false, &Some(dacl(2, true))));
    assert!(!restores_on_drop(&pipe, false, &None));
    assert_eq!(release_order(3), vec![2, 1, 0]);
}

#[test]
fn every_granted_pipe_is_opened() {
    assert!(ApplyStep::<u8>::first(0).is_none());
    let mut step = ApplyStep::<u8>::first(2).unwrap();
    let mut opened = vec![];
    while !matches!(step, ApplyStep::Done) {
        if let ApplyStep::OpenPipe { index } = step {
            opened.push(index);
        }
        step = step.advance(Ok(()), 2);
    }
    assert_eq!(opened, vec![0, 1]);
    assert!(matches!(
        ApplyStep::DrawSid.advance(Err(error()), 2),
        ApplyStep::Failed {
            error: WindowsLocalIpcError::Lock(3)
        }
    ));
}
