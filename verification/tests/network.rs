use cageforge_windows::bytes::read_long;
use cageforge_windows::network_attribution::{
    checked_allocation, client_row_matches, locate_sid, parse_restricted_sids,
    parse_tcp_owner_rows, process_creation_time, restricted_sid_allocation,
    restricting_sids_for_tcp_connection, sid_text, tcp_port, unique_client_owner,
    validate_process_identity, AttributionEvent, AttributionStep, ConnectionOwner, Endpoint,
    SocketV4, TableAnswer, TableQuery, TcpRow, WindowsNetworkAttributionError,
    ERROR_INSUFFICIENT_BUFFER,
};
use cageforge_windows::network_ingress::{
    check_health, initialize_winsock, startup_outcome, verify_protocol, ConnectionEvent,
    ConnectionStep, IngressEvent, IngressStep, ListenerEvent, ListenerStep, Peek, ProxyAddresses,
    ProxyProtocol, StartupReport, ThreadEnd, ThreadState, WindowsNetworkGatewayError,
    WindowsNetworkIngressError, WindowsNetworkRuntimeError, WindowsNetworkRuntimeFailure,
};
use cageforge_windows::network_routes::{
    RouteChoiceError, RouteDraw, RouteError, RouteRegistry, MAX_ROUTE_SID_ATTEMPTS,
};
use cageforge_windows::network_shared::{
    IngressIdentity, SharedEvent, SharedIngressRegistry, SharedStep,
};
use cageforge_windows::random_sid::{draw_sid, sid_from_bytes, sid_from_drawn};

const LOCALHOST: u32 = 0x7f00_0001;

fn socket(address: u32, port: u16) -> SocketV4 {
    SocketV4 { address, port }
}

fn row(local: SocketV4, remote: SocketV4, process_id: u32) -> TcpRow {
    TcpRow {
        local_address: u32::from_le_bytes(local.address.to_be_bytes()),
        local_port: u32::from(local.port.swap_bytes()),
        remote_address: u32::from_le_bytes(remote.address.to_be_bytes()),
        remote_port: u32::from(remote.port.swap_bytes()),
        process_id,
        created: 100,
    }
}

#[test]
fn reversed_four_tuple_selects_exactly_one_owner() {
    let listener = socket(LOCALHOST, 41000);
    let client = socket(LOCALHOST, 51000);
    let rows = [row(client, listener, 42), row(client, listener, 43)];

    assert_eq!(
        unique_client_owner(&rows[..1], listener, client).expect("one owner"),
        ConnectionOwner {
            process_id: 42,
            connection_created: 100,
        }
    );
    assert!(matches!(
        unique_client_owner(&rows, listener, client),
        Err(WindowsNetworkAttributionError::ConnectionOwnerDuplicate)
    ));
}

#[test]
fn unrelated_tuple_is_not_attributed_by_port_alone() {
    let listener = socket(LOCALHOST, 41000);
    let client = socket(LOCALHOST, 51000);
    let unrelated = socket(0x7f00_0002, 41000);

    assert!(matches!(
        unique_client_owner(&[row(client, unrelated, 42)], listener, client),
        Err(WindowsNetworkAttributionError::ConnectionOwnerMissing)
    ));
}

#[test]
fn reused_pid_cannot_adopt_an_older_tcp_context() {
    let owner = ConnectionOwner {
        process_id: 42,
        connection_created: 100,
    };

    validate_process_identity(owner, 100).expect("original process identity");
    assert!(matches!(
        validate_process_identity(owner, 101),
        Err(WindowsNetworkAttributionError::ProcessIdentityMismatch)
    ));
    assert!(matches!(
        validate_process_identity(
            ConnectionOwner {
                process_id: 42,
                connection_created: -1,
            },
            0,
        ),
        Err(WindowsNetworkAttributionError::ProcessIdentityMismatch)
    ));
}

#[test]
fn setup_ports_have_fixed_protocol_roles() {
    let addresses = ProxyAddresses::from_setup_ports::<u8>(&[49_152, 49_153]).expect("ports");

    assert_eq!(addresses.http().port, 49_152);
    assert_eq!(addresses.socks().port, 49_153);
    assert!(matches!(
        ProxyAddresses::from_setup_ports::<u8>(&[49_152, 49_152]),
        Err(WindowsNetworkGatewayError::InvalidProxyPorts { .. })
    ));
}

#[test]
fn unusable_ports_are_handed_back() {
    for ports in [&[][..], &[1], &[0, 1], &[1, 0], &[1, 2, 3]] {
        match ProxyAddresses::from_setup_ports::<u8>(ports) {
            Err(WindowsNetworkGatewayError::InvalidProxyPorts { ports: refused }) => {
                assert_eq!(refused, ports.to_vec());
            }
            other => panic!("{other:?}"),
        }
    }
    let addresses = ProxyAddresses::from_setup_ports::<u8>(&[7, 9]).unwrap();
    assert_eq!(addresses.http(), socket(LOCALHOST, 7));
    assert_eq!(addresses.socks(), socket(LOCALHOST, 9));
}

fn two_routes() -> RouteRegistry {
    let mut routes = RouteRegistry::new();
    assert!(routes.offer("S-1-5-21-1-2-3-4", 7));
    assert!(routes.offer("S-1-5-21-5-6-7-8", 7));
    routes
}

#[test]
fn route_selection_requires_exactly_one_registered_sid() {
    let routes = two_routes();

    assert_eq!(
        routes
            .registered_route_for_sids(false, &["S-1-5-21-1-2-3-4".to_string()])
            .expect("one route"),
        7
    );
    assert!(matches!(
        routes.registered_route_for_sids(false, &["S-1-5-21-9-10-11-12".to_string()]),
        Err(RouteChoiceError::RouteMissing)
    ));
    assert!(matches!(
        routes.registered_route_for_sids(
            false,
            &[
                "S-1-5-21-1-2-3-4".to_string(),
                "S-1-5-21-5-6-7-8".to_string(),
            ],
        ),
        Err(RouteChoiceError::RouteDuplicate)
    ));
    assert!(matches!(
        routes.registered_route_for_sids(true, &["S-1-5-21-1-2-3-4".to_string()]),
        Err(RouteChoiceError::RouteRegistryPoisoned)
    ));
}

#[test]
fn poisoned_route_registry_is_not_recovered_during_cleanup() {
    let sid = "S-1-5-21-1-2-3-4";
    let mut routes = two_routes();

    routes.remove_route_if_owned(true, sid, 7);

    assert_eq!(routes.get(sid), Some(7));
}

#[test]
fn a_route_is_removed_by_its_owner_only() {
    let mut routes = two_routes();
    assert!(!routes.offer("S-1-5-21-1-2-3-4", 8));
    routes.remove_route_if_owned(false, "S-1-5-21-1-2-3-4", 8);
    assert_eq!(routes.get("S-1-5-21-1-2-3-4"), Some(7));
    routes.remove_route_if_owned(false, "S-1-5-21-1-2-3-4", 7);
    assert_eq!(routes.get("S-1-5-21-1-2-3-4"), None);
    assert_eq!(routes.get("S-1-5-21-5-6-7-8"), Some(7));
    routes.remove_route_if_owned(false, "S-1-5-21-1-2-3-4", 7);
    assert_eq!(routes.get("S-1-5-21-5-6-7-8"), Some(7));
}

#[test]
fn registered_routes_get_identities_of_their_own() {
    let mut routes = RouteRegistry::new();
    let mut sids: Vec<String> = Vec::new();
    for service in 0..5u64 {
        match routes.register_route(service) {
            Ok(sid) => {
                assert!(!sids.contains(&sid));
                assert_eq!(routes.get(&sid), Some(service));
                sids.push(sid);
            }
            Err(RouteError::RouteSidGeneration { source }) => panic!("{source}"),
            Err(error) => panic!("{error:?}"),
        }
    }
}

#[test]
fn drawn_identities_are_registered_or_drawn_again() {
    let mut routes = two_routes();
    let taken = || Ok("S-1-5-21-1-2-3-4".to_string());
    assert!(matches!(
        routes.after_draw(Ok("S-1-5-21-9-9-9-9".to_string()), 0, 11),
        RouteDraw::Registered { sid } if sid == "S-1-5-21-9-9-9-9"
    ));
    assert_eq!(routes.get("S-1-5-21-9-9-9-9"), Some(11));
    assert!(matches!(routes.after_draw(taken(), 0, 12), RouteDraw::Again));
    assert!(matches!(routes.after_draw(taken(), 62, 12), RouteDraw::Again));
    assert!(matches!(
        routes.after_draw(taken(), MAX_ROUTE_SID_ATTEMPTS - 1, 12),
        RouteDraw::Failed {
            error: RouteError::RouteSidCollisionLimit { attempts: 64 }
        }
    ));
    assert_eq!(routes.get("S-1-5-21-1-2-3-4"), Some(7));
    assert!(matches!(
        routes.after_draw(Err(getrandom::Error::UNSUPPORTED), 0, 12),
        RouteDraw::Failed {
            error: RouteError::RouteSidGeneration { source }
        } if source == getrandom::Error::UNSUPPORTED
    ));
}

#[test]
fn generated_route_sid_has_four_random_namespace_parts() {
    let sid = draw_sid().expect("route SID");
    let parts = sid.split('-').collect::<Vec<_>>();

    assert_eq!(&parts[..4], &["S", "1", "5", "21"]);
    assert_eq!(parts.len(), 8);
    assert!(parts[4..].iter().all(|part| part.parse::<u32>().is_ok()));
}

#[test]
fn identities_are_written_from_little_endian_words() {
    let drawn = [
        1, 0, 0, 0, 0, 1, 0, 0, 0xff, 0xff, 0xff, 0xff, 0, 0, 0, 0,
    ];
    assert_eq!(sid_from_bytes(&drawn), "S-1-5-21-1-256-4294967295-0");
    assert_eq!(
        sid_from_drawn(Ok(drawn.to_vec())),
        Ok("S-1-5-21-1-256-4294967295-0".to_string())
    );
    assert_eq!(
        sid_from_drawn(Err(getrandom::Error::UNEXPECTED)),
        Err(getrandom::Error::UNEXPECTED)
    );
    assert_ne!(draw_sid().unwrap(), draw_sid().unwrap());
}

#[test]
fn starting_ingress_wait_has_a_bounded_deadline() {
    let identity = identity("bounded-startup-test", 49_152, 49_153);
    let mut registry = SharedIngressRegistry::new();
    assert!(matches!(
        registry.shared::<u8>(&identity, SharedStep::Reserve, locked(false)),
        SharedStep::Start
    ));

    let result = registry.wait_for_starting_ingress::<u8>(&identity, false, true);

    assert!(matches!(
        result,
        Err(WindowsNetworkGatewayError::StartupWaitTimeout)
    ));
    assert!(registry
        .wait_for_starting_ingress::<u8>(&identity, false, false)
        .is_ok());
    assert!(matches!(
        registry.wait_for_starting_ingress::<u8>(&identity, true, true),
        Err(WindowsNetworkGatewayError::SharedRegistryPoisoned)
    ));
}

fn identity(owner: &str, http: u16, socks: u16) -> IngressIdentity {
    IngressIdentity {
        owner_sid: owner.to_string(),
        addresses: ProxyAddresses::from_setup_ports::<u8>(&[http, socks]).expect("ports"),
    }
}

fn locked(live: bool) -> SharedEvent<u8> {
    SharedEvent::Locked {
        poisoned: false,
        live,
    }
}

fn open(registry: &mut SharedIngressRegistry, identity: &IngressIdentity, number: u64) {
    assert!(matches!(
        registry.shared::<u8>(identity, SharedStep::Lookup, locked(false)),
        SharedStep::Reserve
    ));
    assert!(matches!(
        registry.shared::<u8>(identity, SharedStep::Reserve, locked(false)),
        SharedStep::Start
    ));
    let publish = registry.shared::<u8>(
        identity,
        SharedStep::Start,
        SharedEvent::Started(Ok(number)),
    );
    assert!(matches!(
        registry.shared::<u8>(identity, publish, locked(false)),
        SharedStep::Done { ingress } if ingress == number
    ));
}

#[test]
fn concurrent_shared_calls_coalesce_one_ingress() {
    let mut registry = SharedIngressRegistry::new();
    let mine = identity("owner", 1000, 1001);
    assert!(matches!(
        registry.shared::<u8>(&mine, SharedStep::Reserve, locked(false)),
        SharedStep::Start
    ));
    assert!(matches!(
        registry.shared::<u8>(&mine, SharedStep::Reserve, locked(false)),
        SharedStep::WaitForStart
    ));
    let publish = registry.shared::<u8>(&mine, SharedStep::Start, SharedEvent::Started(Ok(5)));
    assert!(matches!(
        registry.shared::<u8>(&mine, publish, locked(false)),
        SharedStep::Done { ingress: 5 }
    ));
    assert!(matches!(
        registry.shared::<u8>(
            &mine,
            SharedStep::WaitForStart,
            SharedEvent::Waited {
                poisoned: false,
                timed_out: true
            }
        ),
        SharedStep::Lookup
    ));
    assert!(matches!(
        registry.shared::<u8>(&mine, SharedStep::Lookup, locked(true)),
        SharedStep::CheckHealth { ingress: 5 }
    ));
    assert!(matches!(
        registry.shared::<u8>(
            &mine,
            SharedStep::CheckHealth { ingress: 5 },
            SharedEvent::Health(Ok(()))
        ),
        SharedStep::Done { ingress: 5 }
    ));
}

#[test]
fn ingress_replacement_waits_for_old_listeners_to_close() {
    let mut registry = SharedIngressRegistry::new();
    let old = identity("old", 1000, 1001);
    open(&mut registry, &old, 1);
    registry.retire(&old);
    assert_eq!(registry.registered(&old), None);

    let replacement = identity("new", 1001, 1002);
    assert!(matches!(
        registry.shared::<u8>(&replacement, SharedStep::Reserve, locked(false)),
        SharedStep::Failed {
            error: WindowsNetworkGatewayError::PortOwnedByDifferentSetup { port: 1001 }
        }
    ));
    registry.release(old.addresses);
    open(&mut registry, &replacement, 2);
    assert_eq!(registry.registered(&replacement), Some(2));
}

#[test]
fn ports_of_other_setups_are_respected() {
    let mut registry = SharedIngressRegistry::new();
    open(&mut registry, &identity("a", 1, 2), 1);
    assert!(matches!(
        registry.shared::<u8>(&identity("b", 3, 2), SharedStep::Reserve, locked(false)),
        SharedStep::Failed {
            error: WindowsNetworkGatewayError::PortOwnedByDifferentSetup { port: 2 }
        }
    ));
    assert!(matches!(
        registry.shared::<u8>(&identity("b", 3, 4), SharedStep::Reserve, locked(false)),
        SharedStep::Start
    ));
    assert!(matches!(
        registry.shared::<u8>(&identity("c", 4, 5), SharedStep::Reserve, locked(false)),
        SharedStep::Failed {
            error: WindowsNetworkGatewayError::PortOwnedByDifferentSetup { port: 4 }
        }
    ));
    assert!(registry.is_starting(&identity("b", 3, 4)));
    assert!(!registry.is_starting(&identity("b", 3, 5)));
}

#[test]
fn failed_listeners_are_forgotten_once() {
    let mut registry = SharedIngressRegistry::new();
    let mine = identity("a", 1, 2);
    open(&mut registry, &mine, 1);
    let forget = registry.shared::<u8>(
        &mine,
        SharedStep::CheckHealth { ingress: 1 },
        SharedEvent::Health(Err(WindowsNetworkRuntimeError::Panicked)),
    );
    let stale = SharedStep::Forget {
        ingress: 9,
        source: WindowsNetworkRuntimeError::<u8>::Panicked,
    };
    assert!(matches!(
        registry.shared::<u8>(&mine, stale, locked(true)),
        SharedStep::Failed { .. }
    ));
    assert_eq!(registry.registered(&mine), Some(1));
    assert!(matches!(
        registry.shared::<u8>(&mine, forget, locked(true)),
        SharedStep::Failed {
            error: WindowsNetworkGatewayError::ExistingRuntime {
                source: WindowsNetworkRuntimeError::Panicked
            }
        }
    ));
    assert_eq!(registry.registered(&mine), None);
    open(&mut registry, &mine, 2);
    assert!(matches!(
        registry.shared::<u8>(&mine, SharedStep::Lookup, locked(false)),
        SharedStep::Reserve
    ));
    assert_eq!(registry.registered(&mine), None);
    let poisoned = SharedEvent::<u8>::Locked {
        poisoned: true,
        live: false,
    };
    assert!(matches!(
        registry.shared::<u8>(&mine, SharedStep::Reserve, poisoned),
        SharedStep::Failed {
            error: WindowsNetworkGatewayError::SharedRegistryPoisoned
        }
    ));
}

#[test]
fn a_failed_start_frees_its_ports() {
    let mut registry = SharedIngressRegistry::new();
    let mine = identity("a", 1, 2);
    assert!(matches!(
        registry.shared::<u8>(&mine, SharedStep::Reserve, locked(false)),
        SharedStep::Start
    ));
    let publish = registry.shared::<u8>(
        &mine,
        SharedStep::Start,
        SharedEvent::Started(Err(WindowsNetworkGatewayError::StartupThreadPanicked)),
    );
    assert!(matches!(
        registry.shared::<u8>(&mine, publish, locked(false)),
        SharedStep::Failed {
            error: WindowsNetworkGatewayError::StartupThreadPanicked
        }
    ));
    assert!(!registry.is_starting(&mine));
    open(&mut registry, &identity("b", 2, 3), 4);
}

#[test]
fn table_words_are_read_as_addresses_and_ports() {
    assert_eq!(tcp_port(0x0000_50c3), 0xc350);
    assert_eq!(tcp_port(0xffff_0100), 1);
    let listener = socket(LOCALHOST, 41000);
    let client = socket(LOCALHOST, 51000);
    assert!(client_row_matches(&row(client, listener, 1), listener, client));
    assert!(!client_row_matches(&row(listener, client, 1), listener, client));
    assert_eq!(process_creation_time(5, 2), 0x2_0000_0005);
}

fn table(rows: &[TcpRow]) -> Vec<u8> {
    let mut bytes = (rows.len() as u32).to_le_bytes().to_vec();
    bytes.extend([0; 4]);
    for row in rows {
        bytes.extend(5u32.to_le_bytes());
        bytes.extend(row.local_address.to_le_bytes());
        bytes.extend(row.local_port.to_le_bytes());
        bytes.extend(row.remote_address.to_le_bytes());
        bytes.extend(row.remote_port.to_le_bytes());
        bytes.extend(row.process_id.to_le_bytes());
        bytes.extend(row.created.to_le_bytes());
        bytes.extend([0; 128]);
    }
    bytes
}

#[test]
fn connection_tables_are_parsed_within_their_length() {
    let mut rows = vec![
        row(socket(1, 2), socket(3, 4), 5),
        row(socket(6, 7), socket(8, 9), 10),
    ];
    rows[1].created = -2;
    let bytes = table(&rows);
    assert_eq!(bytes.len(), 8 + 2 * 160);
    assert_eq!(parse_tcp_owner_rows(&bytes, bytes.len()).unwrap(), rows);
    assert_eq!(parse_tcp_owner_rows(&table(&[]), 8).unwrap(), vec![]);
    for length in [0, 7, bytes.len() - 1, bytes.len() + 1] {
        assert!(matches!(
            parse_tcp_owner_rows(&bytes, length),
            Err(WindowsNetworkAttributionError::TcpTableMalformed)
        ));
    }
    assert_eq!(read_long(&[1, 0, 0, 0, 2, 0, 0, 0], 0), 0x2_0000_0001);
}

#[test]
fn growing_tables_are_read_a_bounded_number_of_times() {
    assert!(matches!(
        TableQuery::begin(0, 9),
        Err(WindowsNetworkAttributionError::TcpTableSize { code: 0 })
    ));
    let mut query = TableQuery::begin(ERROR_INSUFFICIENT_BUFFER, 9).unwrap();
    for attempt in 0..8 {
        assert_eq!(query.attempts, attempt);
        assert_eq!(query.allocation().unwrap(), 9);
        match query.take_in(ERROR_INSUFFICIENT_BUFFER, 9, &[]) {
            Ok(TableAnswer::Again(again)) => query = again,
            other => panic!("{other:?}"),
        }
    }
    assert!(matches!(
        query.allocation(),
        Err(WindowsNetworkAttributionError::TcpTableUnstable { attempts: 8 })
    ));
    let fresh = TableQuery::begin(ERROR_INSUFFICIENT_BUFFER, 0).unwrap();
    assert!(matches!(
        fresh.allocation(),
        Err(WindowsNetworkAttributionError::TcpTableSizeInvalid { actual: 0, .. })
    ));
    assert!(matches!(
        fresh.take_in(5, 0, &[]),
        Err(WindowsNetworkAttributionError::TcpTableRead { code: 5 })
    ));
    let bytes = table(&[row(socket(1, 2), socket(3, 4), 5)]);
    assert!(matches!(
        fresh.take_in(0, bytes.len() as u32, &bytes),
        Ok(TableAnswer::Rows(rows)) if rows.len() == 1
    ));
    assert_eq!(checked_allocation(5, 4), Err(5));
    assert_eq!(checked_allocation(4, 4), Ok(4));
}

#[test]
fn restricted_identity_sizes_are_bounded() {
    assert!(matches!(
        restricted_sid_allocation(true, 0, 9),
        Err(WindowsNetworkAttributionError::RestrictedSidSizeUnexpectedSuccess { byte_length: 9 })
    ));
    assert!(matches!(
        restricted_sid_allocation(false, 5, 9),
        Err(WindowsNetworkAttributionError::RestrictedSidSize { code: 5 })
    ));
    assert!(matches!(
        restricted_sid_allocation(false, ERROR_INSUFFICIENT_BUFFER, 1024 * 1024 + 1),
        Err(WindowsNetworkAttributionError::RestrictedSidSizeInvalid { .. })
    ));
    assert_eq!(
        restricted_sid_allocation(false, ERROR_INSUFFICIENT_BUFFER, 64),
        Ok(64)
    );
}

#[test]
fn identity_lists_are_parsed_within_their_length() {
    let mut wide = 2u32.to_le_bytes().to_vec();
    wide.extend([0; 4]);
    for pointer in [0x1_0000_0028u64, 0x40] {
        wide.extend(pointer.to_le_bytes());
        wide.extend([7, 0, 0, 0, 0, 0, 0, 0]);
    }
    assert_eq!(
        parse_restricted_sids(&wide, wide.len(), 8).unwrap(),
        vec![0x1_0000_0028, 0x40]
    );
    assert!(parse_restricted_sids(&wide, wide.len() - 1, 8).is_err());
    assert!(parse_restricted_sids(&wide, wide.len() + 1, 8).is_err());
    assert!(parse_restricted_sids(&wide, 3, 8).is_err());
    let mut narrow = 1u32.to_le_bytes().to_vec();
    narrow.extend(0x28u32.to_le_bytes());
    narrow.extend([7, 0, 0, 0]);
    assert_eq!(parse_restricted_sids(&narrow, 12, 4).unwrap(), vec![0x28]);
}

#[test]
fn identities_are_located_inside_their_list() {
    let mut buffer = vec![0u8; 40];
    buffer[17] = 2;
    assert_eq!(locate_sid(1016, 1000, &buffer, 40), Ok((16, 16)));
    assert!(matches!(
        locate_sid(0, 1000, &buffer, 40),
        Err(WindowsNetworkAttributionError::RestrictedSidInvalid)
    ));
    for sid in [999, 1040, 1033] {
        assert!(matches!(
            locate_sid(sid, 1000, &buffer, 40),
            Err(WindowsNetworkAttributionError::RestrictedSidMalformed)
        ));
    }
    buffer[17] = 5;
    assert!(locate_sid(1016, 1000, &buffer, 40).is_err());
    assert!(locate_sid(usize::MAX, usize::MAX - 1, &buffer, 40).is_err());
    assert_eq!(sid_text(true, Ok(Some("S".to_string()))), Ok("S".to_string()));
    assert!(matches!(
        sid_text(false, Ok(Some("S".to_string()))),
        Err(WindowsNetworkAttributionError::RestrictedSidInvalid)
    ));
    assert!(matches!(
        sid_text(true, Ok(None)),
        Err(WindowsNetworkAttributionError::RestrictedSidFormat { code: 13 })
    ));
    assert!(matches!(
        sid_text(true, Err(6)),
        Err(WindowsNetworkAttributionError::RestrictedSidFormat { code: 6 })
    ));
}

#[test]
fn only_loopback_connections_are_traced() {
    let here = Endpoint::V4(socket(LOCALHOST, 1));
    let elsewhere = Endpoint::V4(socket(0x0a00_0001, 2));
    assert!(restricting_sids_for_tcp_connection(here, here).is_ok());
    assert!(restricting_sids_for_tcp_connection(
        Endpoint::V4(socket(0x7fff_ffff, 1)),
        here
    )
    .is_ok());
    assert!(matches!(
        restricting_sids_for_tcp_connection(Endpoint::V6, elsewhere),
        Err(WindowsNetworkAttributionError::NonIpv4Connection)
    ));
    assert!(matches!(
        restricting_sids_for_tcp_connection(elsewhere, elsewhere),
        Err(WindowsNetworkAttributionError::NonLoopbackListener { .. })
    ));
    assert!(matches!(
        restricting_sids_for_tcp_connection(here, elsewhere),
        Err(WindowsNetworkAttributionError::NonLoopbackPeer { .. })
    ));
}

#[test]
fn attribution_rechecks_the_owner() {
    let listener = socket(LOCALHOST, 41000);
    let client = socket(LOCALHOST, 51000);
    let rows = vec![row(client, listener, 42)];
    let step = AttributionStep::ReadOwner.advance(
        AttributionEvent::Rows(Ok(rows.clone())),
        listener,
        client,
    );
    let step = step.advance(AttributionEvent::Opened(Ok(())), listener, client);
    let step = step.advance(AttributionEvent::Created(Ok(99)), listener, client);
    let step = step.advance(AttributionEvent::Rows(Ok(rows)), listener, client);
    assert!(matches!(step, AttributionStep::ReadSids));
    let step = step.advance(
        AttributionEvent::Sids(Ok(vec!["S-1".to_string()])),
        listener,
        client,
    );
    assert!(matches!(step, AttributionStep::Done { sids } if sids == vec!["S-1".to_string()]));

    let owner = ConnectionOwner {
        process_id: 42,
        connection_created: 100,
    };
    let changed = AttributionStep::ConfirmOwner { owner }.advance(
        AttributionEvent::Rows(Ok(vec![row(client, listener, 43)])),
        listener,
        client,
    );
    assert!(matches!(
        changed,
        AttributionStep::Failed {
            error: WindowsNetworkAttributionError::ConnectionOwnerChanged
        }
    ));
    assert!(matches!(
        AttributionStep::OpenProcess { owner }.advance(
            AttributionEvent::Opened(Err(5)),
            listener,
            client
        ),
        AttributionStep::Failed {
            error: WindowsNetworkAttributionError::ProcessOpen {
                process_id: 42,
                code: 5
            }
        }
    ));
    assert!(matches!(
        AttributionStep::ReadCreation { owner }.advance(
            AttributionEvent::Created(Err(6)),
            listener,
            client
        ),
        AttributionStep::Failed {
            error: WindowsNetworkAttributionError::ProcessTimes { code: 6 }
        }
    ));
}

#[test]
fn threads_report_their_health() {
    assert!(check_health::<u8>(ThreadState::Running).is_ok());
    assert!(matches!(
        check_health::<u8>(ThreadState::Poisoned),
        Err(WindowsNetworkRuntimeError::StatePoisoned)
    ));
    assert!(matches!(
        check_health::<u8>(ThreadState::Missing),
        Err(WindowsNetworkRuntimeError::StoppedBeforeProcess)
    ));
    assert!(matches!(
        check_health::<u8>(ThreadState::Ended(Ok(()))),
        Err(WindowsNetworkRuntimeError::StoppedBeforeProcess)
    ));
    assert!(matches!(
        check_health::<u8>(ThreadState::Ended(Err(
            WindowsNetworkRuntimeFailure::ConnectionTaskPanicked
        ))),
        Err(WindowsNetworkRuntimeError::Failed { .. })
    ));
    assert!(matches!(
        check_health::<u8>(ThreadState::Panicked),
        Err(WindowsNetworkRuntimeError::Panicked)
    ));
}

#[test]
fn startup_reports_are_classified() {
    assert!(startup_outcome::<u8>(StartupReport::Ready).is_ok());
    assert!(matches!(
        startup_outcome::<u8>(StartupReport::Failed(
            WindowsNetworkRuntimeFailure::RuntimeConstruction { source: 1 }
        )),
        Err(WindowsNetworkGatewayError::RuntimeStartup { .. })
    ));
    assert!(matches!(
        startup_outcome::<u8>(StartupReport::Silent(ThreadEnd::Ended(Ok(())))),
        Err(WindowsNetworkGatewayError::StartupChannelClosed)
    ));
    assert!(matches!(
        startup_outcome::<u8>(StartupReport::Silent(ThreadEnd::Ended(Err(
            WindowsNetworkRuntimeFailure::StartupReceiverClosed
        )))),
        Err(WindowsNetworkGatewayError::RuntimeStartup { .. })
    ));
    assert!(matches!(
        startup_outcome::<u8>(StartupReport::Silent(ThreadEnd::Panicked)),
        Err(WindowsNetworkGatewayError::StartupThreadPanicked)
    ));
    assert!(initialize_winsock::<u8>(0, 0x0202).is_ok());
    assert!(matches!(
        initialize_winsock::<u8>(3, 0x0202),
        Err(WindowsNetworkGatewayError::WinsockInitialization { code: 3 })
    ));
    assert!(matches!(
        initialize_winsock::<u8>(0, 0x0101),
        Err(WindowsNetworkGatewayError::WinsockVersion { actual: 0x0101 })
    ));
}

#[test]
fn listeners_open_step_by_step() {
    let address = socket(LOCALHOST, 1);
    let mut step = ListenerStep::<u8>::CreateSocket;
    for _ in 0..5 {
        step = step.advance(ListenerEvent::Done, ProxyProtocol::Http, address);
    }
    assert!(matches!(step, ListenerStep::Open));
    assert!(matches!(
        ListenerStep::<u8>::CreateSocket.advance(
            ListenerEvent::Refused(1),
            ProxyProtocol::Http,
            address
        ),
        ListenerStep::Failed {
            error: WindowsNetworkGatewayError::ListenerSocket { code: 1, .. }
        }
    ));
    assert!(matches!(
        ListenerStep::<u8>::RequireExclusive.advance(
            ListenerEvent::Refused(2),
            ProxyProtocol::Http,
            address
        ),
        ListenerStep::Failed {
            error: WindowsNetworkGatewayError::ListenerExclusiveAddress { code: 2, .. }
        }
    ));
    assert!(matches!(
        ListenerStep::<u8>::Bind.advance(ListenerEvent::Refused(3), ProxyProtocol::Socks5, address),
        ListenerStep::Failed {
            error: WindowsNetworkGatewayError::ListenerBind {
                protocol: ProxyProtocol::Socks5,
                code: 3,
                ..
            }
        }
    ));
    assert!(matches!(
        ListenerStep::<u8>::Listen.advance(ListenerEvent::Refused(4), ProxyProtocol::Http, address),
        ListenerStep::Failed {
            error: WindowsNetworkGatewayError::ListenerListen { code: 4, .. }
        }
    ));
    assert!(matches!(
        ListenerStep::<u8>::SetNonblocking.advance(
            ListenerEvent::Failed(5),
            ProxyProtocol::Http,
            address
        ),
        ListenerStep::Failed {
            error: WindowsNetworkGatewayError::ListenerNonblocking { source: 5, .. }
        }
    ));
}

#[test]
fn the_ingress_thread_serves_until_it_is_told_to_stop() {
    let step = IngressStep::<u8>::BuildRuntime
        .advance(IngressEvent::Done(Ok(())))
        .advance(IngressEvent::Done(Ok(())))
        .advance(IngressEvent::Done(Ok(())));
    assert!(matches!(step, IngressStep::ReportReady));
    let step = step.advance(IngressEvent::Reported(true));
    let step = step.advance(IngressEvent::Accepted {
        protocol: ProxyProtocol::Socks5,
        result: Ok(()),
    });
    assert!(matches!(
        step,
        IngressStep::Accept {
            protocol: ProxyProtocol::Socks5
        }
    ));
    let step = step.advance(IngressEvent::Done(Ok(())));
    let step = step.advance(IngressEvent::Completed { failed: false });
    let step = step.advance(IngressEvent::Shutdown);
    assert!(matches!(step, IngressStep::Drain));
    assert!(matches!(
        step.advance(IngressEvent::Done(Ok(()))),
        IngressStep::Ended
    ));
}

#[test]
fn the_ingress_thread_fails_closed() {
    assert!(matches!(
        IngressStep::<u8>::BuildRuntime.advance(IngressEvent::Done(Err(1))),
        IngressStep::ReportFailure {
            failure: WindowsNetworkRuntimeFailure::RuntimeConstruction { source: 1 }
        }
    ));
    assert!(matches!(
        IngressStep::<u8>::Register {
            protocol: ProxyProtocol::Http
        }
        .advance(IngressEvent::Done(Err(2))),
        IngressStep::ReportFailure {
            failure: WindowsNetworkRuntimeFailure::ListenerRegistration { source: 2, .. }
        }
    ));
    assert!(matches!(
        IngressStep::<u8>::ReportReady.advance(IngressEvent::Reported(false)),
        IngressStep::Failed {
            failure: WindowsNetworkRuntimeFailure::StartupReceiverClosed
        }
    ));
    assert!(matches!(
        IngressStep::<u8>::Serve.advance(IngressEvent::Accepted {
            protocol: ProxyProtocol::Http,
            result: Err(3)
        }),
        IngressStep::Failed {
            failure: WindowsNetworkRuntimeFailure::Listener { source: 3, .. }
        }
    ));
    assert!(matches!(
        IngressStep::<u8>::Serve.advance(IngressEvent::Completed { failed: true }),
        IngressStep::Failed {
            failure: WindowsNetworkRuntimeFailure::ConnectionTaskPanicked
        }
    ));
}

#[test]
fn protocols_are_told_apart_by_their_first_byte() {
    assert!(verify_protocol::<u8>(ProxyProtocol::Http, Peek::First(b'G')).is_ok());
    assert!(verify_protocol::<u8>(ProxyProtocol::Socks5, Peek::First(5)).is_ok());
    assert!(matches!(
        verify_protocol::<u8>(ProxyProtocol::Http, Peek::First(5)),
        Err(WindowsNetworkIngressError::ProtocolMismatch { .. })
    ));
    assert!(matches!(
        verify_protocol::<u8>(ProxyProtocol::Socks5, Peek::First(4)),
        Err(WindowsNetworkIngressError::ProtocolMismatch { .. })
    ));
    assert!(matches!(
        verify_protocol::<u8>(ProxyProtocol::Http, Peek::Closed),
        Err(WindowsNetworkIngressError::ProtocolMismatch { .. })
    ));
    assert!(matches!(
        verify_protocol::<u8>(ProxyProtocol::Http, Peek::TimedOut),
        Err(WindowsNetworkIngressError::ProtocolTimeout { .. })
    ));
    assert!(matches!(
        verify_protocol::<u8>(ProxyProtocol::Http, Peek::Failed(9)),
        Err(WindowsNetworkIngressError::ProtocolRead { source: 9, .. })
    ));
    assert_eq!(ProxyProtocol::Http.label(), "HTTP");
    assert_eq!(ProxyProtocol::Socks5.label(), "SOCKS5");
}

#[test]
fn connections_are_admitted_step_by_step() {
    let protocol = ProxyProtocol::Http;
    let step = ConnectionStep::<u8>::ReadLocal
        .advance(ConnectionEvent::Done(Ok(())), protocol)
        .advance(ConnectionEvent::Done(Ok(())), protocol)
        .advance(ConnectionEvent::Attributed(Ok(())), protocol)
        .advance(ConnectionEvent::Chosen(Ok(4)), protocol)
        .advance(ConnectionEvent::Peeked(Peek::First(b'G')), protocol)
        .advance(ConnectionEvent::Done(Ok(())), protocol);
    assert!(matches!(step, ConnectionStep::Relay { route: 4 }));
    let step = step.advance(ConnectionEvent::ToGatewayEnded(Ok(())), protocol);
    let step = step.advance(ConnectionEvent::GatewayEnded(Ok(())), protocol);
    assert!(matches!(step, ConnectionStep::DrainResponse { route: 4 }));
    assert!(matches!(
        step.advance(ConnectionEvent::ToClientEnded(Ok(())), protocol),
        ConnectionStep::Served
    ));
}

#[test]
fn refused_connections_say_why() {
    let protocol = ProxyProtocol::Http;
    assert!(matches!(
        ConnectionStep::<u8>::ReadLocal.advance(ConnectionEvent::Done(Err(1)), protocol),
        ConnectionStep::Failed {
            error: WindowsNetworkIngressError::Address { peer: false, .. }
        }
    ));
    assert!(matches!(
        ConnectionStep::<u8>::ReadPeer.advance(ConnectionEvent::Done(Err(1)), protocol),
        ConnectionStep::Failed {
            error: WindowsNetworkIngressError::Address { peer: true, .. }
        }
    ));
    assert!(matches!(
        ConnectionStep::<u8>::Attribute.advance(
            ConnectionEvent::Attributed(Err(WindowsNetworkAttributionError::NonIpv4Connection)),
            protocol
        ),
        ConnectionStep::Failed {
            error: WindowsNetworkIngressError::Attribution(_)
        }
    ));
    assert!(matches!(
        ConnectionStep::<u8>::Attribute.advance(ConnectionEvent::WorkerLost, protocol),
        ConnectionStep::Failed {
            error: WindowsNetworkIngressError::AttributionWorker
        }
    ));
    assert!(matches!(
        ConnectionStep::<u8>::ChooseRoute.advance(
            ConnectionEvent::Chosen(Err(RouteChoiceError::RouteMissing)),
            protocol
        ),
        ConnectionStep::Failed {
            error: WindowsNetworkIngressError::Route(RouteChoiceError::RouteMissing)
        }
    ));
    assert!(matches!(
        ConnectionStep::<u8>::Authenticate { route: 1 }
            .advance(ConnectionEvent::Done(Err(2)), protocol),
        ConnectionStep::Failed {
            error: WindowsNetworkIngressError::GatewayAuthentication { source: 2 }
        }
    ));
    assert!(matches!(
        ConnectionStep::<u8>::Relay { route: 1 }
            .advance(ConnectionEvent::ToGatewayEnded(Err(3)), protocol),
        ConnectionStep::Failed {
            error: WindowsNetworkIngressError::Relay {
                to_gateway: true,
                source: 3
            }
        }
    ));
    assert!(matches!(
        ConnectionStep::<u8>::Relay { route: 1 }
            .advance(ConnectionEvent::GatewayEnded(Err(4)), protocol),
        ConnectionStep::Failed {
            error: WindowsNetworkIngressError::Gateway { source: 4 }
        }
    ));
    assert!(matches!(
        ConnectionStep::<u8>::DrainResponse { route: 1 }
            .advance(ConnectionEvent::TimedOut, protocol),
        ConnectionStep::Failed {
            error: WindowsNetworkIngressError::ResponseTimeout
        }
    ));
}
