use svudko::application::{
    shell_effect, update, view, CoreEffect, CoreErrorEffect, CoreEvent, Effect, Event,
    ExchangeRequestEvent, Model, SessionId, ShellEffect,
};
use svudko::exchange::{ClientId, ExchangeEvent, ExchangeRequest};
use svudko::hostname::Hostname;
use svudko::net::{AddressSet, IpAddress, ScopedIp, ScopedIpV4, ScopedIpV6, InterfaceId};
use svudko::sd::{LocalService, ServiceDiscoveryEvent, ServiceDiscoveryRequest};
use svudko::storage::{PairedDevice, StorageEvent, StorageRequest};

fn host(name: &str) -> Hostname {
    Hostname::new(name.to_string())
}

fn model() -> Model {
    Model::new(SessionId::from_uuid([3u8; 16]), host("me"))
}

fn v4(addr: u32) -> ScopedIp {
    ScopedIp::V4(ScopedIpV4 { addr, interface_ids: vec![] })
}

fn service(name: &str, fullname: &str, addresses: Vec<ScopedIp>) -> LocalService {
    LocalService { hostname: host(name), fullname: fullname.to_string(), addresses: AddressSet::from_vec(addresses) }
}

fn appear(m: &mut Model, name: &str, fullname: &str, addresses: Vec<ScopedIp>) -> Vec<Effect> {
    update(Event::Core(CoreEvent::ServiceDiscovery(ServiceDiscoveryEvent::AppearedService(service(name, fullname, addresses)))), m)
}

#[test]
fn session_id_base64() {
    let s = SessionId::from_uuid([0u8; 16]);
    assert_eq!(s.base64_repr(), "AAAAAAAAAAAAAAAAAAAAAA==");
    assert_eq!(s.uuid(), [0u8; 16]);
    let fresh = SessionId::new();
    assert_eq!(fresh.base64_repr(), SessionId::from_uuid(fresh.uuid()).base64_repr());
}

#[test]
fn initialize_fetches_announces_and_browses() {
    let mut m = model();
    let e = update(Event::Initialize, &mut m);
    assert_eq!(e.len(), 3);
    assert!(matches!(e[0], Effect::Core(CoreEffect::Storage(StorageRequest::Fetch))));
    assert!(matches!(e[1], Effect::Core(CoreEffect::ServiceDiscovery(ServiceDiscoveryRequest::EnableService(id))) if id == [3u8; 16]));
    assert!(matches!(e[2], Effect::Core(CoreEffect::ServiceDiscovery(ServiceDiscoveryRequest::BeginBrowseForServices))));
}

#[test]
fn own_service_is_ignored() {
    let mut m = model();
    let own = "AwMDAwMDAwMDAwMDAwMDAw==._svudko-app._udp.local.".to_string();
    let e = appear(&mut m, "me", &own, vec![v4(0x0a00_0002)]);
    assert!(e.is_empty());
    assert!(view(&m).discovered_services.is_empty());
}

#[test]
fn appeared_service_is_shown_and_lost_service_dropped() {
    let mut m = model();
    let e = appear(&mut m, "pc.local", "inst1._svudko-app._udp.local.", vec![v4(0x0a00_0002)]);
    assert!(e.len() == 1 && matches!(e[0], Effect::Render));
    let v = view(&m);
    assert_eq!(v.discovered_services.len(), 1);
    assert_eq!(v.discovered_services[0].hostname.as_str(), "pc");
    assert!(!v.discovered_services[0].paired);
    let e = update(Event::Core(CoreEvent::ServiceDiscovery(ServiceDiscoveryEvent::LostService("inst1._svudko-app._udp.local.".to_string()))), &mut m);
    assert!(e.len() == 1 && matches!(e[0], Effect::Render));
    assert!(view(&m).discovered_services.is_empty());
}

#[test]
fn lost_unknown_service_changes_nothing() {
    let mut m = model();
    appear(&mut m, "pc", "inst1", vec![]);
    update(Event::Core(CoreEvent::ServiceDiscovery(ServiceDiscoveryEvent::LostService("other".to_string()))), &mut m);
    assert_eq!(view(&m).discovered_services.len(), 1);
}

#[test]
fn reappearing_service_replaces_entry() {
    let mut m = model();
    appear(&mut m, "pc", "inst1", vec![]);
    appear(&mut m, "pc", "inst2", vec![v4(0x0a00_0003)]);
    assert_eq!(view(&m).discovered_services.len(), 1);
    assert_eq!(m.addr_for_discovered_device(&host("pc")), Some(IpAddress::V4(0x0a00_0003)));
}

#[test]
fn address_skips_loopback_and_ipv6() {
    let mut m = model();
    let v6 = ScopedIp::V6(ScopedIpV6 { addr: 0xfe80 << 112, scope_id: InterfaceId::default() });
    appear(&mut m, "pc", "inst", vec![v6, v4(0x7f00_0001), v4(0xc0a8_0005), v4(0xc0a8_0006)]);
    assert_eq!(m.addr_for_discovered_device(&host("pc")), Some(IpAddress::V4(0xc0a8_0005)));
    assert_eq!(m.addr_for_discovered_device(&host("nobody")), None);
}

#[test]
fn send_files_to_unknown_host_reports_error() {
    let mut m = model();
    let ev = Event::Exchange(ExchangeRequestEvent::SendFiles((host("ghost"), vec!["a".to_string()])));
    assert!(m.accepts(&ev));
    let e = update(ev, &mut m);
    assert_eq!(e.len(), 1);
    match &e[0] {
        Effect::Error(CoreErrorEffect(msg)) => assert_eq!(msg, "failed to find such host"),
        _ => panic!("expected an error"),
    }
    let s = shell_effect(e.into_iter().next().unwrap());
    assert!(matches!(s, ShellEffect::Error(m) if m == "failed to find such host"));
}

#[test]
fn send_files_goes_to_discovered_address() {
    let mut m = model();
    appear(&mut m, "pc", "inst", vec![v4(0xc0a8_0005)]);
    let e = update(Event::Exchange(ExchangeRequestEvent::SendFiles((host("pc"), vec!["/tmp/a".to_string()]))), &mut m);
    match &e[..] {
        [Effect::Core(CoreEffect::Connection(ExchangeRequest::SendFiles((h, a, files))))] => {
            assert_eq!(h.as_str(), "pc");
            assert_eq!(*a, IpAddress::V4(0xc0a8_0005));
            assert_eq!(files, &vec!["/tmp/a".to_string()]);
        }
        _ => panic!("expected a transfer"),
    }
}

#[test]
fn discovered_host_without_address_is_not_accepted() {
    let mut m = model();
    appear(&mut m, "pc", "inst", vec![v4(0x7f00_0001)]);
    assert!(!m.accepts(&Event::Exchange(ExchangeRequestEvent::SendFiles((host("pc"), vec![])))));
    assert!(!m.accepts(&Event::Exchange(ExchangeRequestEvent::PairRequest(host("pc")))));
    assert!(!m.accepts(&Event::Exchange(ExchangeRequestEvent::PairRequest(host("ghost")))));
}

#[test]
fn pair_request_goes_to_discovered_address() {
    let mut m = model();
    appear(&mut m, "pc", "inst", vec![v4(9)]);
    let e = update(Event::Exchange(ExchangeRequestEvent::PairRequest(host("pc"))), &mut m);
    assert!(matches!(&e[..], [Effect::Core(CoreEffect::Connection(ExchangeRequest::Pair((h, IpAddress::V4(9)))))] if h.as_str() == "pc"));
}

fn request_pairing(m: &mut Model, name: &str, id: &str) {
    let e = update(Event::Core(CoreEvent::Exchange(ExchangeEvent::PairingRequest(ClientId { hostname: host(name), id: id.to_string() }))), m);
    assert!(e.len() == 1 && matches!(e[0], Effect::Render));
}

#[test]
fn accepted_pairing_stores_device() {
    let mut m = model();
    request_pairing(&mut m, "phone", "fp1");
    assert_eq!(view(&m).pairing_requests.len(), 1);
    let e = update(Event::Pair((host("phone"), true)), &mut m);
    assert_eq!(e.len(), 3);
    assert!(matches!(&e[0], Effect::PairingAnswer((h, true)) if h.as_str() == "phone"));
    assert!(matches!(&e[1], Effect::Core(CoreEffect::Storage(StorageRequest::NewHost { hostname, identifier, overwrite: true })) if hostname.as_str() == "phone" && identifier == "fp1"));
    assert!(matches!(e[2], Effect::Render));
    assert!(view(&m).pairing_requests.is_empty());
}

#[test]
fn refused_pairing_stores_nothing() {
    let mut m = model();
    request_pairing(&mut m, "phone", "fp1");
    let e = update(Event::Exchange(ExchangeRequestEvent::PairResponse((host("phone"), false))), &mut m);
    assert_eq!(e.len(), 2);
    assert!(matches!(&e[0], Effect::PairingAnswer((h, false)) if h.as_str() == "phone"));
    assert!(matches!(e[1], Effect::Render));
    assert!(view(&m).pairing_requests.is_empty());
}

#[test]
fn answer_without_request_only_renders() {
    let mut m = model();
    let e = update(Event::Pair((host("nobody"), true)), &mut m);
    assert!(e.len() == 1 && matches!(e[0], Effect::Render));
}

#[test]
fn fetched_devices_become_paired() {
    let mut m = model();
    appear(&mut m, "pc", "inst", vec![]);
    let devices = vec![
        PairedDevice { hostname: host("pc"), identifier: "old".to_string() },
        PairedDevice { hostname: host("tab"), identifier: "t".to_string() },
        PairedDevice { hostname: host("pc"), identifier: "new".to_string() },
    ];
    let e = update(Event::Core(CoreEvent::Storage(StorageEvent::Fetch(devices))), &mut m);
    assert!(m.load_state.paired_devices);
    match &e[..] {
        [Effect::Core(CoreEffect::Connection(ExchangeRequest::PairedDevices(ids)))] => {
            let mut ids = ids.to_vec();
            ids.sort();
            assert_eq!(ids, vec!["new".to_string(), "t".to_string()]);
        }
        _ => panic!("expected the paired identifiers"),
    }
    let v = view(&m);
    assert!(v.discovered_services[0].paired);
}

#[test]
fn added_device_refetches_and_renders() {
    let mut m = model();
    let e = update(Event::Core(CoreEvent::Storage(StorageEvent::DeviceAlreadyExists(host("a")))), &mut m);
    assert!(e.len() == 2 && matches!(e[0], Effect::Core(CoreEffect::Storage(StorageRequest::Fetch))) && matches!(e[1], Effect::Render));
    let e = update(Event::Core(CoreEvent::Storage(StorageEvent::DeviceAdded(PairedDevice { hostname: host("a"), identifier: "1".to_string() }))), &mut m);
    assert!(e.len() == 2 && matches!(e[1], Effect::Render));
}

#[test]
fn client_identity_is_passed_on() {
    let mut m = model();
    let id: [u8; 16] = [0, 1, 2, 3, 4, 5, 6, 7, 8, 9, 10, 11, 12, 13, 14, 15];
    let e = update(Event::Core(CoreEvent::Storage(StorageEvent::ClientId(id))), &mut m);
    match &e[..] {
        [Effect::Core(CoreEffect::Connection(ExchangeRequest::UpdateClientId(c)))] => {
            assert_eq!(c.hostname.as_str(), "me");
            assert_eq!(c.id, "00010203-0405-0607-0809-0a0b0c0d0e0f");
        }
        _ => panic!("expected the identity"),
    }
}

#[test]
fn exchange_events() {
    let mut m = model();
    assert!(update(Event::Core(CoreEvent::Exchange(ExchangeEvent::Nothing)), &mut m).is_empty());
    assert!(update(Event::Core(CoreEvent::Exchange(ExchangeEvent::UpdatedClient)), &mut m).is_empty());
    assert!(m.load_state.client_id);
    let e = update(Event::Core(CoreEvent::Exchange(ExchangeEvent::PairedWithServer(ClientId { hostname: host("srv"), id: "s".to_string() }))), &mut m);
    assert!(matches!(&e[..], [Effect::Core(CoreEffect::Storage(StorageRequest::NewHost { overwrite: true, .. }))]));
}

#[test]
fn storage_request_and_errors_pass_through() {
    let mut m = model();
    let e = update(Event::Storage(StorageRequest::Fetch), &mut m);
    assert!(matches!(&e[..], [Effect::Core(CoreEffect::Storage(StorageRequest::Fetch))]));
    let e = update(Event::Core(CoreEvent::Error("boom".to_string())), &mut m);
    assert!(matches!(&e[..], [Effect::Error(CoreErrorEffect(msg))] if msg == "boom"));
    assert!(matches!(shell_effect(Effect::Render), ShellEffect::Render));
}

#[test]
fn identity_survives_every_event() {
    let mut m = model();
    let before = m.session_id.base64_repr().to_string();
    update(Event::Initialize, &mut m);
    appear(&mut m, "pc", "inst", vec![v4(0x0a00_0001)]);
    request_pairing(&mut m, "pc", "fp");
    update(Event::Pair((host("pc"), true)), &mut m);
    update(Event::Core(CoreEvent::Storage(StorageEvent::ClientId([1u8; 16]))), &mut m);
    assert_eq!(m.session_id.base64_repr(), before);
    assert_eq!(m.hostname.as_str(), "me");
}

#[test]
fn paired_devices_change_only_on_fetch() {
    let mut m = model();
    appear(&mut m, "pc", "inst", vec![v4(0x0a00_0001)]);
    request_pairing(&mut m, "pc", "fp");
    update(Event::Pair((host("pc"), true)), &mut m);
    assert!(!view(&m).discovered_services[0].paired);
    update(Event::Core(CoreEvent::Storage(StorageEvent::Fetch(vec![PairedDevice { hostname: host("pc"), identifier: "fp".to_string() }]))), &mut m);
    assert!(view(&m).discovered_services[0].paired);
}
