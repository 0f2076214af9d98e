use cageforge_windows::firewall::{
    active_firewall_profiles, address_sets_match, canonical_address_set, canonical_port_set,
    local_user_scope_matches, port_sets_match,
};
use cageforge_windows::intervals::{merge_intervals, same_set, Interval};

#[test]
fn active_firewall_profiles_reject_empty_or_unknown_policy_state() {
    assert_eq!(active_firewall_profiles(0), None);
    assert_eq!(active_firewall_profiles(8), None);
    assert_eq!(active_firewall_profiles(1 | 8), None);
}

#[test]
fn active_firewall_profiles_preserve_every_known_active_profile() {
    assert_eq!(active_firewall_profiles(1), Some(vec![1]));
    assert_eq!(active_firewall_profiles(2 | 4), Some(vec![2, 4]));
    assert_eq!(active_firewall_profiles(1 | 2 | 4), Some(vec![1, 2, 4]));
}

#[test]
fn address_comparison_accepts_equivalent_windows_canonicalization() {
    assert!(address_sets_match(
        "127.0.0.0/255.0.0.0,::/127",
        "127.0.0.0/8,::/127"
    ));
}

#[test]
fn address_comparison_rejects_a_non_contiguous_ipv4_mask() {
    assert!(!address_sets_match(
        "127.0.0.0/255.0.255.0,::/127",
        "127.0.0.0/8,::/127"
    ));
}

#[test]
fn address_comparison_rejects_one_extra_loopback_address() {
    assert!(!address_sets_match(
        "0.0.0.0-126.255.255.255,127.0.0.1,128.0.0.0-255.255.255.255",
        "0.0.0.0-126.255.255.255,128.0.0.0-255.255.255.255"
    ));
}

#[test]
fn port_comparison_uses_the_complete_set() {
    assert!(port_sets_match("1-3,4,6-65535", "1-4,6-65535"));
    assert!(!port_sets_match("1-5,7-65535", "1-4,6-65535"));
}

#[test]
fn local_user_scope_requires_one_exact_allow_ace() {
    let sid = "S-1-5-21-1-2-3-1001";
    assert!(local_user_scope_matches(
        "O:LSD:(A;;CC;;;S-1-5-21-1-2-3-1001)",
        sid
    ));
    assert!(!local_user_scope_matches(
        "O:LSD:(A;;CC;;;S-1-5-21-1-2-3-1001)(A;;CC;;;WD)",
        sid
    ));
    assert!(!local_user_scope_matches(
        "O:LSD:(A;;CC;;;S-1-5-21-1-2-3-10010)",
        sid
    ));
}

#[test]
fn negative_profile_masks_are_rejected() {
    assert_eq!(active_firewall_profiles(-1), None);
    assert_eq!(active_firewall_profiles(i32::MAX), None);
    assert_eq!(active_firewall_profiles(i32::MIN | 1), None);
}

#[test]
fn address_sets_ignore_order_overlap_and_spaces() {
    assert!(address_sets_match(
        "10.0.0.128-10.0.0.255, 10.0.0.0/25",
        "10.0.0.0/24"
    ));
    assert!(address_sets_match("::1", "0:0:0:0:0:0:0:1"));
    assert!(address_sets_match("::ffff:1.2.3.4", "::ffff:102:304"));
    assert!(address_sets_match("1.2.3.4/32", "1.2.3.4"));
    assert!(address_sets_match("1.2.3.4/0", "0.0.0.0-255.255.255.255"));
    assert!(address_sets_match(
        "::/0",
        "::-ffff:ffff:ffff:ffff:ffff:ffff:ffff:ffff"
    ));
    assert!(!address_sets_match("10.0.0.0/24", "10.0.0.0/25"));
    assert!(!address_sets_match("1.2.3.4", "::102:304"));
}

#[test]
fn malformed_address_sets_match_nothing() {
    for broken in [
        "",
        "1.2.3.4,",
        "1.2.3.4/33",
        "1.2.3",
        "1.2.3.4.5",
        "01.2.3.4",
        "256.1.1.1",
        "::1/129",
        "1.2.3.5-1.2.3.4",
        "1.2.3.4-::1",
        "1:2:3:4:5:6:7:8:9",
        "1::2::3",
        "12345::",
        "*",
    ] {
        assert!(canonical_address_set(broken).is_none(), "{broken}");
        assert!(!address_sets_match(broken, broken), "{broken}");
    }
}

#[test]
fn address_sets_merge_what_touches() {
    assert!(address_sets_match(
        "10.0.0.2,10.0.0.1,10.0.0.0/32,10.0.0.4",
        "10.0.0.0-10.0.0.2,10.0.0.4"
    ));
    assert!(!address_sets_match(
        "10.0.0.2,10.0.0.1,10.0.0.0/32,10.0.0.4",
        "10.0.0.0-10.0.0.4"
    ));
}

#[test]
fn port_sets_have_a_complete_form() {
    assert_eq!(
        canonical_port_set(" * "),
        Some(vec![Interval {
            start: 1,
            end: 65535
        }])
    );
    assert_eq!(
        canonical_port_set("80, 443,81-90"),
        Some(vec![
            Interval { start: 80, end: 90 },
            Interval {
                start: 443,
                end: 443
            }
        ])
    );
    for broken in ["", "0", "65536", "5-4", "a", "1-", "1,,2", "*,1"] {
        assert_eq!(canonical_port_set(broken), None, "{broken}");
    }
}

#[test]
fn local_user_scope_checks_every_field() {
    let sid = "S-1-5-21-7";
    for accepted in [
        "D:(A;;CC;;;S-1-5-21-7)",
        "D:P(a;;cc;;;s-1-5-21-7)",
        "O:LSG:BAD: P (A;;0x1;;;S-1-5-21-7) ",
        "D:(A;;0X1;;;S-1-5-21-7)",
        "D:(A;;1;;;S-1-5-21-7)",
    ] {
        assert!(local_user_scope_matches(accepted, sid), "{accepted}");
    }
    for refused in [
        "",
        "O:LS",
        "D:AI(A;;CC;;;S-1-5-21-7)",
        "D:(D;;CC;;;S-1-5-21-7)",
        "D:(A;CI;CC;;;S-1-5-21-7)",
        "D:(A;;CCDC;;;S-1-5-21-7)",
        "D:(A;;CC;x;;S-1-5-21-7)",
        "D:(A;;CC;;y;S-1-5-21-7)",
        "D:(A;;CC;;;S-1-5-21-7",
        "D:(A;;CC;;S-1-5-21-7)",
        "D:(A;;CC;;;S-1-5-21-7;)",
    ] {
        assert!(!local_user_scope_matches(refused, sid), "{refused}");
    }
}

#[test]
fn merging_intervals_is_canonical() {
    let merged = merge_intervals(&vec![
        Interval { start: 5, end: 9 },
        Interval { start: 1, end: 3 },
        Interval { start: 4, end: 4 },
        Interval {
            start: 20,
            end: 30,
        },
        Interval {
            start: 25,
            end: 26,
        },
    ]);
    assert_eq!(
        merged,
        vec![
            Interval { start: 1, end: 9 },
            Interval {
                start: 20,
                end: 30
            }
        ]
    );
    assert!(same_set(
        &merge_intervals(&vec![
            Interval { start: 3, end: 4 },
            Interval { start: 1, end: 2 }
        ]),
        &vec![Interval { start: 1, end: 4 }]
    ));
    assert!(!same_set(
        &vec![Interval { start: 1, end: 2 }],
        &vec![Interval { start: 1, end: 3 }]
    ));
}
