use svudko::exchange::{
    ClientId, ClientIdRaw, ExchangeErrors, ExchangeEvent, ExchangeRequest, ExchangeResolverState,
    ExchangeStep,
};
use svudko::hostname::Hostname;
use svudko::net::{AddressSet, IpAddress, ScopedIp, ScopedIpV4};
use svudko::text::StringSet;
use svudko::sd::{
    action_answer, browse_event, hostname_found, BrowseObservation, LocalService, SdAction, SdResolverState,
    ServiceDiscoveryEvent, ServiceDiscoveryRequest, MDNS_SERVICE_PORT, MDNS_SERVICE_TYPE,
};
use svudko::storage::{
    client_id_event, client_id_step, fetched_event, inserted_event, storage_query, upserted_event,
    ClientIdStep, PairedDevice, PairedDeviceRaw, StorageEvent, StorageQuery, StorageRequest,
};

fn host(name: &str) -> Hostname {
    Hostname::new(name.to_string())
}

fn raw(name: &str, id: &str) -> PairedDeviceRaw {
    PairedDeviceRaw { hostname: name.to_string(), identifier: id.to_string() }
}

#[test]
fn client_id_raw_conversions() {
    let c = ClientId::from_raw(ClientIdRaw { hostname: "pc.local".to_string(), id: "ab".to_string() });
    assert_eq!(c.hostname.as_str(), "pc");
    let r = c.into_raw();
    assert_eq!((r.hostname.as_str(), r.id.as_str()), ("pc", "ab"));
}

#[test]
fn exchange_needs_identity_before_sending() {
    let mut s = ExchangeResolverState::new();
    let r = s.resolve(ExchangeRequest::SendFiles((host("a"), IpAddress::V4(1), vec!["f".to_string()])));
    assert!(matches!(r, Err(ExchangeErrors::NotReady)));
    assert_eq!(ExchangeErrors::NotReady.message(), "not ready to send files");
    assert!(matches!(s.resolve(ExchangeRequest::Pair((host("a"), IpAddress::V4(1)))), Err(ExchangeErrors::NotReady)));
}

#[test]
fn exchange_runs_with_learnt_identity() {
    let mut s = ExchangeResolverState::new();
    let me = ClientId { hostname: host("me"), id: "42".to_string() };
    assert!(matches!(s.resolve(ExchangeRequest::UpdateClientId(me)), Ok(ExchangeStep::Done(ExchangeEvent::UpdatedClient))));
    match s.resolve(ExchangeRequest::SendFiles((host("peer"), IpAddress::V4(7), vec!["a".to_string(), "b".to_string()]))) {
        Ok(ExchangeStep::Run(run)) => {
            assert_eq!(run.client.id, "42");
            assert_eq!(run.hostname.as_str(), "peer");
            assert_eq!(run.addr, IpAddress::V4(7));
            assert_eq!(run.files.len(), 2);
        }
        _ => panic!("expected a run"),
    }
    match s.resolve(ExchangeRequest::Pair((host("peer"), IpAddress::V4(7)))) {
        Ok(ExchangeStep::Run(run)) => assert!(run.files.is_empty()),
        _ => panic!("expected a run"),
    }
}

#[test]
fn exchange_stores_paired_devices() {
    let mut s = ExchangeResolverState::new();
    let ids = StringSet::from_vec(&vec!["x".to_string(), "y".to_string(), "x".to_string()]);
    let r = s.resolve(ExchangeRequest::PairedDevices(ids));
    assert!(matches!(r, Ok(ExchangeStep::Done(ExchangeEvent::Nothing))));
    let snapshot = s.paired_snapshot();
    assert_eq!(snapshot.len(), 2);
    let mut held = snapshot.to_vec();
    held.sort();
    assert_eq!(held, vec!["x".to_string(), "y".to_string()]);
    assert!(snapshot.contains(&"y".to_string()));
    assert!(!snapshot.contains(&"z".to_string()));
}

#[test]
fn sd_enables_once_and_disables_registered() {
    let mut s = SdResolverState::new();
    let me = host("me");
    match s.plan(&ServiceDiscoveryRequest::EnableService([0u8; 16]), &me) {
        SdAction::Register { instance_name, host_name, port } => {
            assert_eq!(instance_name, "AAAAAAAAAAAAAAAAAAAAAA==");
            assert_eq!(host_name, "me.local.");
            assert_eq!(port, MDNS_SERVICE_PORT);
        }
        _ => panic!("expected a registration"),
    }
    assert!(matches!(s.plan(&ServiceDiscoveryRequest::DisableService, &me), SdAction::Done));
    s.record_registration("inst._svudko-app._udp.local.".to_string());
    assert!(matches!(s.plan(&ServiceDiscoveryRequest::EnableService([1u8; 16]), &me), SdAction::Done));
    match s.plan(&ServiceDiscoveryRequest::DisableService, &me) {
        SdAction::Unregister { fullname } => assert_eq!(fullname, "inst._svudko-app._udp.local."),
        _ => panic!("expected unregistration"),
    }
}

#[test]
fn sd_browse_and_search_plans() {
    let s = SdResolverState::new();
    let me = host("me");
    assert!(matches!(s.plan(&ServiceDiscoveryRequest::BeginBrowseForServices, &me), SdAction::StartBrowse));
    assert!(matches!(s.plan(&ServiceDiscoveryRequest::StopBrowseForServices, &me), SdAction::StopBrowse));
    match s.plan(&ServiceDiscoveryRequest::FindByHostname(host("pc")), &me) {
        SdAction::ResolveHostname { hostname, mdns_name } => {
            assert_eq!(hostname.as_str(), "pc");
            assert_eq!(mdns_name, "pc.local.");
        }
        _ => panic!("expected a lookup"),
    }
}

fn service(name: &str, fullname: &str) -> LocalService {
    LocalService { hostname: host(name), fullname: fullname.to_string(), addresses: AddressSet::new() }
}

#[test]
fn browse_reports_own_type_only() {
    let ok = browse_event(BrowseObservation::Resolved { ty_domain: MDNS_SERVICE_TYPE.to_string(), service: service("a", "x") });
    assert!(matches!(ok, Some(ServiceDiscoveryEvent::AppearedService(s)) if s.fullname == "x"));
    let other = browse_event(BrowseObservation::Resolved { ty_domain: "_http._tcp.local.".to_string(), service: service("a", "x") });
    assert!(other.is_none());
    assert!(matches!(browse_event(BrowseObservation::Removed("x".to_string())), Some(ServiceDiscoveryEvent::LostService(n)) if n == "x"));
    assert!(browse_event(BrowseObservation::Other).is_none());
}

#[test]
fn hostname_lookup_answer() {
    let addrs = AddressSet::from_vec(vec![ScopedIp::V4(ScopedIpV4 { addr: 5, interface_ids: vec![] })]);
    match hostname_found(host("pc"), addrs) {
        ServiceDiscoveryEvent::AppearedService(s) => {
            assert_eq!(s.hostname.as_str(), "pc");
            assert_eq!(s.fullname, "");
            assert_eq!(s.addresses.len(), 1);
        }
        _ => panic!("expected a service"),
    }
}

#[test]
fn storage_queries() {
    assert!(matches!(storage_query(StorageRequest::Fetch), StorageQuery::ListPairedDevices));
    assert!(matches!(storage_query(StorageRequest::ClientId), StorageQuery::ReadClientId));
    let q = storage_query(StorageRequest::NewHost { hostname: host("a"), identifier: "1".to_string(), overwrite: true });
    assert!(matches!(q, StorageQuery::Upsert { identifier, .. } if identifier == "1"));
    let q = storage_query(StorageRequest::NewHost { hostname: host("a"), identifier: "1".to_string(), overwrite: false });
    assert!(matches!(q, StorageQuery::InsertIfAbsent { .. }));
}

#[test]
fn storage_events() {
    match fetched_event(vec![raw("a.local", "1"), raw("b", "2")]) {
        StorageEvent::Fetch(devs) => {
            let names: Vec<(&str, &str)> = devs.iter().map(|d: &PairedDevice| (d.hostname.as_str(), d.identifier.as_str())).collect();
            assert_eq!(names, vec![("a", "1"), ("b", "2")]);
        }
        _ => panic!("expected fetch"),
    }
    assert!(matches!(inserted_event(host("a"), None), StorageEvent::DeviceAlreadyExists(h) if h.as_str() == "a"));
    assert!(matches!(inserted_event(host("a"), Some(raw("a", "9"))), StorageEvent::DeviceAdded(d) if d.identifier == "9"));
    assert!(matches!(upserted_event(raw("c.local", "3")), StorageEvent::DeviceAdded(d) if d.hostname.as_str() == "c"));
}

#[test]
fn storage_client_identity() {
    let known = client_id_step(Some([7u8; 16]));
    assert!(matches!(known, ClientIdStep::Known(id) if id == [7u8; 16]));
    assert!(matches!(client_id_event(&known), StorageEvent::ClientId(id) if id == [7u8; 16]));
    match client_id_step(None) {
        ClientIdStep::Store(id) => assert_eq!(id[6] >> 4, 4),
        _ => panic!("expected a fresh identity"),
    }
}

#[test]
fn sd_answers_lookup_with_addresses_and_the_rest_with_nothing() {
    let addrs = || AddressSet::from_vec(vec![ScopedIp::V4(ScopedIpV4 { addr: 9, interface_ids: vec![] })]);
    let lookup = SdAction::ResolveHostname { hostname: host("pc"), mdns_name: "pc.local.".to_string() };
    match action_answer(lookup, addrs()) {
        ServiceDiscoveryEvent::AppearedService(s) => {
            assert_eq!(s.hostname.as_str(), "pc");
            assert_eq!(s.fullname, "");
            assert_eq!(s.addresses.as_vec()[0].to_ip_addr(), IpAddress::V4(9));
        }
        _ => panic!("expected the host"),
    }
    let others = vec![
        SdAction::Done,
        SdAction::Register { instance_name: "i".to_string(), host_name: "me.local.".to_string(), port: 1 },
        SdAction::Unregister { fullname: "f".to_string() },
        SdAction::StartBrowse,
        SdAction::StopBrowse,
    ];
    for action in others {
        assert!(matches!(action_answer(action, addrs()), ServiceDiscoveryEvent::Nothing));
    }
}

#[test]
fn exchange_server_needs_an_identity() {
    let mut s = ExchangeResolverState::new();
    assert!(s.server_identity().is_none());
    let _ = s.resolve(ExchangeRequest::UpdateClientId(ClientId { hostname: host("me"), id: "m".to_string() }));
    let id = s.server_identity().unwrap();
    assert_eq!(id.hostname.as_str(), "me");
    assert_eq!(id.id, "m");
}
