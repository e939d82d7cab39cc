use vstd::prelude::*;

use crate::encoding::{base64_encode, base64_standard, random_uuid, uuid_text, uuid_to_string};
use crate::exchange::{ClientId, ExchangeEvent, ExchangeRequest};
use crate::hostmap::{HostMap, value_views};
use crate::hostname::Hostname;
use crate::net::{IpAddress, ScopedIp, spec_ip_of, spec_is_loopback};
use crate::sd::{LocalService, ServiceDiscoveryEvent, ServiceDiscoveryRequest};
use crate::storage::{PairedDevice, StorageEvent, StorageRequest};
use crate::text::{StringSet, chars_of, contains_exec, contains_seq};

verus! {

// ---------------------------------------------------------------------------------------
// Session identity

/// The identity of this run of the application: a random UUID and its Base64 text, by
/// which the device recognises its own service among those it discovers.
#[derive(Debug)]
pub struct SessionId {
    id: [u8; 16],
    base64: String,
}

impl View for SessionId {
    type V = Seq<u8>;

    /// The bytes of the session's UUID.
    closed spec fn view(&self) -> Seq<u8> {
        self.id@
    }
}

impl SessionId {
    #[verifier::type_invariant]
    spec fn base64_matches(self) -> bool {
        self.base64@ == base64_standard(self.id@)
    }

    /// A session with the given UUID.
    pub fn from_uuid(id: [u8; 16]) -> (res: Self)
        ensures
            res.view() == id@,
    {
        let base64 = base64_encode(id.as_slice());
        SessionId { id, base64 }
    }

    /// A session with a fresh random (version 4) UUID.
    pub fn new() -> (res: Self)
        ensures
            res.view()[6] / 16 == 4,
            res.view()[8] / 64 == 2,
    {
        SessionId::from_uuid(random_uuid())
    }

    /// The session's UUID.
    pub fn uuid(&self) -> (res: [u8; 16])
        ensures
            res@ == self.view(),
    {
        self.id
    }

    /// The Base64 text of the session's UUID.
    pub fn base64_repr(&self) -> (res: &str)
        ensures
            res@ == base64_standard(self.view()),
    {
        proof {
            use_type_invariant(self);
        }
        self.base64.as_str()
    }
}

impl Default for SessionId {
    fn default() -> (res: Self)
        ensures
            res.view()[6] / 16 == 4,
            res.view()[8] / 64 == 2,
    {
        SessionId::new()
    }
}

// ---------------------------------------------------------------------------------------
// Events, effects, model and view

/// What the shell or the core's own resolvers ask of the core about exchanges.
#[derive(Debug)]
pub enum ExchangeRequestEvent {
    PairRequest(Hostname),
    PairResponse((Hostname, bool)),
    SendFiles((Hostname, Vec<String>)),
}

/// Requests of the shell to the local DNS service discovery.
#[derive(Debug)]
pub enum LocalDnsSdRequest {
    EnableService,
    DisableService,
    BrowseForService,
    FindByHostname(String),
}

/// Events that only the core's resolvers raise.
#[derive(Debug)]
pub enum CoreEvent {
    ServiceDiscovery(ServiceDiscoveryEvent),
    Exchange(ExchangeEvent),
    Storage(StorageEvent),
    Error(String),
}

/// The events the core handles.
#[derive(Debug)]
pub enum Event {
    Initialize,
    // Shell shared events
    Exchange(ExchangeRequestEvent),
    Storage(StorageRequest),
    /// The user's answer to a pairing request.
    Pair((Hostname, bool)),
    // Core only events
    Core(CoreEvent),
}

/// An error the core reports to the shell.
#[derive(Debug)]
pub struct CoreErrorEffect(pub String);

/// Requests the core routes to its own resolvers.
#[derive(Debug)]
pub enum CoreEffect {
    ServiceDiscovery(ServiceDiscoveryRequest),
    Connection(ExchangeRequest),
    Storage(StorageRequest),
}

/// What handling an event asks to be done, in order.
#[derive(Debug)]
pub enum Effect {
    /// The view changed.
    Render,
    /// Report an error to the shell.
    Error(CoreErrorEffect),
    /// Answer the pending pairing request of this host.
    PairingAnswer((Hostname, bool)),
    /// A request to one of the core's resolvers.
    Core(CoreEffect),
}

/// What the shell is handed.
#[derive(Debug)]
pub enum ShellEffect {
    Render,
    Error(String),
}

/// The effect the shell receives for an effect the core does not handle itself.
pub fn shell_effect(effect: Effect) -> (res: ShellEffect)
    requires
        effect is Render || effect is Error,
    ensures
        match effect {
            Effect::Render => res is Render,
            Effect::Error(e) => res == ShellEffect::Error(e.0),
            _ => false,
        },
{
    match effect {
        Effect::Render => ShellEffect::Render,
        Effect::Error(e) => ShellEffect::Error(e.0),
        _ => {
            proof {
                assert(false);
            }
            ShellEffect::Render
        },
    }
}

/// Flags to track resources loaded during first start.
#[derive(Debug)]
pub struct LoadState {
    pub paired_devices: bool,
    pub client_id: bool,
}

impl Default for LoadState {
    fn default() -> (res: Self)
        ensures
            !res.paired_devices,
            !res.client_id,
    {
        LoadState { paired_devices: false, client_id: false }
    }
}

/// The state of the application core.
#[derive(Debug)]
pub struct Model {
    pub session_id: SessionId,
    pub load_state: LoadState,
    /// The identifier of each paired device, by host name.
    pub paired_devices: HostMap<String>,
    /// The services discovered on the local network, by host name.
    pub discovered_services: HostMap<LocalService>,
    /// The identifier of each device that asks to be paired, by host name.
    pub pairing_requests: HostMap<String>,
    /// The name of this device.
    pub hostname: Hostname,
}

/// A device in the view.
#[derive(Debug)]
pub struct LocalDevices {
    pub hostname: Hostname,
    pub paired: bool,
}

/// What the shell shows.
#[derive(Debug)]
pub struct ViewModel {
    pub discovered_services: Vec<LocalDevices>,
    pub pairing_requests: Vec<Hostname>,
}

/// An address a peer can be reached at: IPv4, not loopback.
pub open spec fn usable_address(ip: ScopedIp) -> bool {
    ip is V4 && !spec_is_loopback(spec_ip_of(ip))
}

/// The first usable address of a list.
pub open spec fn first_usable_address(addrs: Seq<ScopedIp>) -> Option<IpAddress>
    decreases addrs.len(),
{
    if addrs.len() == 0 {
        None
    } else if usable_address(addrs[0]) {
        Some(spec_ip_of(addrs[0]))
    } else {
        first_usable_address(addrs.subrange(1, addrs.len() as int))
    }
}

/// The address to reach the discovered device `name` at, if it is discovered and has a
/// usable address.
pub open spec fn spec_addr_for(m: Model, name: Seq<char>) -> Option<IpAddress> {
    if m.discovered_services.view().dom().contains(name) {
        first_usable_address(m.discovered_services.view()[name].addresses@)
    } else {
        None
    }
}

fn first_usable(addrs: &Vec<ScopedIp>) -> (res: Option<IpAddress>)
    ensures
        res == first_usable_address(addrs@),
{
    let mut i: usize = 0;
    assert(addrs@.subrange(0, addrs@.len() as int) =~= addrs@);
    while i < addrs.len()
        invariant
            i <= addrs@.len(),
            first_usable_address(addrs@) == first_usable_address(
                addrs@.subrange(i as int, addrs@.len() as int),
            ),
        decreases addrs@.len() - i,
    {
        let ghost rest = addrs@.subrange(i as int, addrs@.len() as int);
        assert(rest[0] == addrs@[i as int]);
        assert(rest.subrange(1, rest.len() as int) =~= addrs@.subrange(i + 1, addrs@.len() as int));
        if addrs[i].is_ipv4() && !addrs[i].is_loopback() {
            return Some(addrs[i].to_ip_addr());
        }
        i = i + 1;
    }
    None
}

impl Model {
    /// A fresh model for the device named `hostname` in the session `session_id`.
    pub fn new(session_id: SessionId, hostname: Hostname) -> (res: Model)
        ensures
            res.session_id == session_id,
            res.hostname == hostname,
            !res.load_state.paired_devices,
            !res.load_state.client_id,
            res.paired_devices.view() == Map::<Seq<char>, String>::empty(),
            res.discovered_services.view() == Map::<Seq<char>, LocalService>::empty(),
            res.pairing_requests.view() == Map::<Seq<char>, String>::empty(),
    {
        Model {
            session_id,
            load_state: LoadState::default(),
            paired_devices: HostMap::new(),
            discovered_services: HostMap::new(),
            pairing_requests: HostMap::new(),
            hostname,
        }
    }

    /// The address to reach a discovered device at: its first IPv4 address that is not
    /// a loopback address.
    pub fn addr_for_discovered_device(&self, name: &Hostname) -> (res: Option<IpAddress>)
        ensures
            res == spec_addr_for(*self, name@),
    {
        match self.discovered_services.get(name) {
            Some(service) => first_usable(service.addresses.as_vec()),
            None => None,
        }
    }
}

// ---------------------------------------------------------------------------------------
// Handling events

/// The identifier of each paired device, by host name, from a list of stored devices: a
/// later entry for a host name replaces an earlier one.
pub open spec fn devices_map(s: Seq<PairedDevice>) -> Map<Seq<char>, String>
    decreases s.len(),
{
    if s.len() == 0 {
        Map::empty()
    } else {
        devices_map(s.drop_last()).insert(s.last().hostname@, s.last().identifier)
    }
}

/// The single effect is a render.
pub open spec fn renders_only(effects: Seq<Effect>) -> bool {
    effects.len() == 1 && effects[0] is Render
}

/// The text of the error reported when files are sent to an unknown host.
pub open spec fn unknown_host_message() -> Seq<char> {
    "failed to find such host"@
}

/// The events `update` can take in a model: sending files to a discovered host needs an
/// address to reach it at, and asking a host to pair needs it discovered with one.
pub open spec fn update_allowed(m: Model, event: Event) -> bool {
    match event {
        Event::Exchange(ExchangeRequestEvent::SendFiles((h, _))) => m.discovered_services.view().dom().contains(h@)
            ==> spec_addr_for(m, h@) is Some,
        Event::Exchange(ExchangeRequestEvent::PairRequest(h)) => spec_addr_for(m, h@) is Some,
        _ => true,
    }
}

/// On start: fetch the paired devices, announce this device under its session id, and
/// start browsing for others.
pub open spec fn initialize_outcome(m: Model, effects: Seq<Effect>) -> bool {
    &&& effects.len() == 3
    &&& effects[0] matches Effect::Core(CoreEffect::Storage(StorageRequest::Fetch))
    &&& effects[1] matches Effect::Core(
        CoreEffect::ServiceDiscovery(ServiceDiscoveryRequest::EnableService(id)),
    ) && id@ == m.session_id.view()
    &&& effects[2] matches Effect::Core(
        CoreEffect::ServiceDiscovery(ServiceDiscoveryRequest::BeginBrowseForServices),
    )
}

/// Sending files goes to the host's address, or reports an unknown host; asking to pair
/// goes to the host's address. The model is left as it is.
pub open spec fn exchange_request_outcome(
    m: Model,
    req: ExchangeRequestEvent,
    effects: Seq<Effect>,
) -> bool {
    match req {
        ExchangeRequestEvent::SendFiles((h, files)) => if m.discovered_services.view().dom().contains(h@) {
            effects.len() == 1 && effects[0] == Effect::Core(
                CoreEffect::Connection(
                    ExchangeRequest::SendFiles((h, spec_addr_for(m, h@)->0, files)),
                ),
            )
        } else {
            effects.len() == 1 && (effects[0] matches Effect::Error(CoreErrorEffect(msg))
                && msg@ == unknown_host_message())
        },
        ExchangeRequestEvent::PairRequest(h) => effects.len() == 1 && effects[0] == Effect::Core(
            CoreEffect::Connection(ExchangeRequest::Pair((h, spec_addr_for(m, h@)->0))),
        ),
        ExchangeRequestEvent::PairResponse(_) => true,
    }
}

/// The user's answer to a pairing request of `h` settles the request: the answer goes
/// back to the asking host and, when the user agreed, the host is stored as paired (its
/// earlier identifier replaced); the view is rendered. An answer with no request pending
/// only renders.
pub open spec fn pair_answer_outcome(
    old: Model,
    new: Model,
    h: Hostname,
    accepted: bool,
    effects: Seq<Effect>,
) -> bool {
    &&& new.pairing_requests.view() == old.pairing_requests.view().remove(h@)
    &&& new.session_id == old.session_id
    &&& new.load_state == old.load_state
    &&& new.paired_devices == old.paired_devices
    &&& new.discovered_services == old.discovered_services
    &&& new.hostname == old.hostname
    &&& if old.pairing_requests.view().dom().contains(h@) {
        if accepted {
            &&& effects.len() == 3
            &&& effects[0] == Effect::PairingAnswer((h, true))
            &&& effects[1] == Effect::Core(
                CoreEffect::Storage(
                    StorageRequest::NewHost {
                        hostname: h,
                        identifier: old.pairing_requests.view()[h@],
                        overwrite: true,
                    },
                ),
            )
            &&& effects[2] is Render
        } else {
            &&& effects.len() == 2
            &&& effects[0] == Effect::PairingAnswer((h, false))
            &&& effects[1] is Render
        }
    } else {
        renders_only(effects)
    }
}

/// The model but for its discovered services.
pub open spec fn same_but_discovered(old: Model, new: Model) -> bool {
    &&& new.session_id == old.session_id
    &&& new.load_state == old.load_state
    &&& new.paired_devices == old.paired_devices
    &&& new.pairing_requests == old.pairing_requests
    &&& new.hostname == old.hostname
}

/// A service that appears is recorded under its host name, unless it is this session's
/// own; a service that goes away is dropped (one entry with that full name); both
/// render.
pub open spec fn discovery_outcome(
    old: Model,
    new: Model,
    ev: ServiceDiscoveryEvent,
    effects: Seq<Effect>,
) -> bool {
    match ev {
        ServiceDiscoveryEvent::Nothing => new == old && effects.len() == 0,
        ServiceDiscoveryEvent::AppearedService(s) => if contains_seq(
            s.fullname@,
            base64_standard(old.session_id.view()),
        ) {
            new == old && effects.len() == 0
        } else {
            &&& new.discovered_services.view() == old.discovered_services.view().insert(
                s.hostname@,
                s,
            )
            &&& same_but_discovered(old, new)
            &&& renders_only(effects)
        },
        ServiceDiscoveryEvent::LostService(name) => {
            &&& same_but_discovered(old, new)
            &&& renders_only(effects)
            &&& if exists|k: Seq<char>|
                #[trigger] old.discovered_services.view().dom().contains(k)
                    && old.discovered_services.view()[k].fullname@ == name@ {
                exists|k: Seq<char>|
                    #[trigger] old.discovered_services.view().dom().contains(k)
                        && old.discovered_services.view()[k].fullname@ == name@
                        && new.discovered_services.view() == old.discovered_services.view().remove(k)
            } else {
                new.discovered_services.view() == old.discovered_services.view()
            }
        },
    }
}

/// A pairing request is kept, under the asking host's name, until the user answers it;
/// a server that paired is stored; learning the own identity is recorded.
pub open spec fn exchange_event_outcome(
    old: Model,
    new: Model,
    ev: ExchangeEvent,
    effects: Seq<Effect>,
) -> bool {
    match ev {
        ExchangeEvent::Nothing => new == old && effects.len() == 0,
        ExchangeEvent::PairingRequest(c) => {
            &&& new.pairing_requests.view() == old.pairing_requests.view().insert(
                c.hostname@,
                c.id,
            )
            &&& new.session_id == old.session_id
            &&& new.load_state == old.load_state
            &&& new.paired_devices == old.paired_devices
            &&& new.discovered_services == old.discovered_services
            &&& new.hostname == old.hostname
            &&& renders_only(effects)
        },
        ExchangeEvent::PairedWithServer(c) => new == old && effects.len() == 1 && effects[0]
            == Effect::Core(
            CoreEffect::Storage(
                StorageRequest::NewHost { hostname: c.hostname, identifier: c.id, overwrite: true },
            ),
        ),
        ExchangeEvent::UpdatedClient => {
            &&& new.load_state.client_id
            &&& new.load_state.paired_devices == old.load_state.paired_devices
            &&& new.session_id == old.session_id
            &&& new.paired_devices == old.paired_devices
            &&& new.discovered_services == old.discovered_services
            &&& new.pairing_requests == old.pairing_requests
            &&& new.hostname == old.hostname
            &&& effects.len() == 0
        },
    }
}

/// The set `ids` holds exactly the identifiers bound by `m`.
pub open spec fn lists_values(ids: StringSet, m: Map<Seq<char>, String>) -> bool {
    ids@ == value_views(m)
}

/// Fetched devices become the paired devices, whose identifiers go to the exchange
/// resolver; a device added or found stored triggers a fetch and a render; the own
/// identity goes to the exchange resolver with this device's name.
pub open spec fn storage_event_outcome(
    old: Model,
    new: Model,
    ev: StorageEvent,
    effects: Seq<Effect>,
) -> bool {
    match ev {
        StorageEvent::Fetch(devices) => {
            &&& new.paired_devices.view() == devices_map(devices@)
            &&& new.load_state.paired_devices
            &&& new.load_state.client_id == old.load_state.client_id
            &&& new.session_id == old.session_id
            &&& new.discovered_services == old.discovered_services
            &&& new.pairing_requests == old.pairing_requests
            &&& new.hostname == old.hostname
            &&& effects.len() == 1
            &&& effects[0] matches Effect::Core(
                CoreEffect::Connection(ExchangeRequest::PairedDevices(ids)),
            ) && lists_values(ids, new.paired_devices.view())
        },
        StorageEvent::DeviceAlreadyExists(_) | StorageEvent::DeviceAdded(_) => {
            &&& new == old
            &&& effects.len() == 2
            &&& effects[0] matches Effect::Core(CoreEffect::Storage(StorageRequest::Fetch))
            &&& effects[1] is Render
        },
        StorageEvent::ClientId(id) => {
            &&& new == old
            &&& effects.len() == 1
            &&& effects[0] matches Effect::Core(
                CoreEffect::Connection(ExchangeRequest::UpdateClientId(c)),
            ) && c.hostname == old.hostname && c.id@ == uuid_text(id@)
        },
    }
}

/// What `update` does with an event: its new model and its effects.
pub open spec fn update_outcome(old: Model, new: Model, event: Event, effects: Seq<Effect>) -> bool {
    match event {
        Event::Initialize => new == old && initialize_outcome(old, effects),
        Event::Storage(req) => new == old && effects.len() == 1 && effects[0] == Effect::Core(
            CoreEffect::Storage(req),
        ),
        Event::Exchange(ExchangeRequestEvent::PairResponse((h, accepted))) => pair_answer_outcome(
            old,
            new,
            h,
            accepted,
            effects,
        ),
        Event::Exchange(req) => new == old && exchange_request_outcome(old, req, effects),
        Event::Pair((h, accepted)) => pair_answer_outcome(old, new, h, accepted, effects),
        Event::Core(CoreEvent::Error(e)) => new == old && effects.len() == 1 && (effects[0]
            matches Effect::Error(CoreErrorEffect(msg)) && msg == e),
        Event::Core(CoreEvent::ServiceDiscovery(ev)) => discovery_outcome(old, new, ev, effects),
        Event::Core(CoreEvent::Exchange(ev)) => exchange_event_outcome(old, new, ev, effects),
        Event::Core(CoreEvent::Storage(ev)) => storage_event_outcome(old, new, ev, effects),
    }
}

fn initialize(model: &Model) -> (effects: Vec<Effect>)
    ensures
        initialize_outcome(*model, effects@),
{
    let mut effects: Vec<Effect> = Vec::new();
    effects.push(Effect::Core(CoreEffect::Storage(StorageRequest::Fetch)));
    effects.push(
        Effect::Core(
            CoreEffect::ServiceDiscovery(
                ServiceDiscoveryRequest::EnableService(model.session_id.uuid()),
            ),
        ),
    );
    effects.push(
        Effect::Core(CoreEffect::ServiceDiscovery(ServiceDiscoveryRequest::BeginBrowseForServices)),
    );
    effects
}

fn send_or_pair(req: ExchangeRequestEvent, model: &Model) -> (effects: Vec<Effect>)
    requires
        !(req is PairResponse),
        update_allowed(*model, Event::Exchange(req)),
    ensures
        exchange_request_outcome(*model, req, effects@),
{
    let mut effects: Vec<Effect> = Vec::new();
    match req {
        ExchangeRequestEvent::SendFiles((hostname, files)) => {
            if !model.discovered_services.contains_key(&hostname) {
                let msg = String::from_str("failed to find such host");
                proof {
                    reveal_strlit("failed to find such host");
                }
                effects.push(Effect::Error(CoreErrorEffect(msg)));
            } else {
                let addr = model.addr_for_discovered_device(&hostname).unwrap();
                effects.push(
                    Effect::Core(
                        CoreEffect::Connection(ExchangeRequest::SendFiles((hostname, addr, files))),
                    ),
                );
            }
        },
        ExchangeRequestEvent::PairRequest(hostname) => {
            let addr = model.addr_for_discovered_device(&hostname).unwrap();
            effects.push(
                Effect::Core(CoreEffect::Connection(ExchangeRequest::Pair((hostname, addr)))),
            );
        },
        ExchangeRequestEvent::PairResponse(_) => {},
    }
    effects
}

fn answer_pairing(hostname: Hostname, accepted: bool, model: &mut Model) -> (effects: Vec<Effect>)
    ensures
        pair_answer_outcome(*old(model), *final(model), hostname, accepted, effects@),
{
    let mut effects: Vec<Effect> = Vec::new();
    match model.pairing_requests.remove(&hostname) {
        Some(identifier) => {
            effects.push(Effect::PairingAnswer((hostname.clone(), accepted)));
            if accepted {
                effects.push(
                    Effect::Core(
                        CoreEffect::Storage(
                            StorageRequest::NewHost { hostname, identifier, overwrite: true },
                        ),
                    ),
                );
            }
            effects.push(Effect::Render);
        },
        None => {
            effects.push(Effect::Render);
        },
    }
    effects
}

fn handle_discovery(ev: ServiceDiscoveryEvent, model: &mut Model) -> (effects: Vec<Effect>)
    ensures
        discovery_outcome(*old(model), *final(model), ev, effects@),
{
    let mut effects: Vec<Effect> = Vec::new();
    match ev {
        ServiceDiscoveryEvent::Nothing => {
            return effects;
        },
        ServiceDiscoveryEvent::AppearedService(service) => {
            let fullname = chars_of(service.fullname.as_str());
            let own = chars_of(model.session_id.base64_repr());
            if contains_exec(&fullname, &own) {
                return effects;
            }
            let key = service.hostname.clone();
            model.discovered_services.insert(key, service);
        },
        ServiceDiscoveryEvent::LostService(fullname) => {
            let n = model.discovered_services.len();
            let mut idx: Option<usize> = None;
            let mut i: usize = 0;
            while i < n && idx.is_none()
                invariant
                    n == model.discovered_services.entry_seq().len(),
                    i <= n,
                    idx matches Some(j) ==> j < n
                        && model.discovered_services.entry_seq()[j as int].1.fullname@
                        == fullname@,
                    idx is None ==> forall|j: int|
                        0 <= j < i ==> (#[trigger] model.discovered_services.entry_seq()[j]).1.fullname@
                            != fullname@,
                decreases n - i + (if idx is None { 1int } else { 0int }),
            {
                let (_, svc) = model.discovered_services.entry(i);
                if svc.fullname == fullname {
                    idx = Some(i);
                } else {
                    i = i + 1;
                }
            }
            match idx {
                Some(j) => {
                    let (k, _) = model.discovered_services.entry(j);
                    let key = k.clone();
                    model.discovered_services.remove(&key);
                },
                None => {
                    let _ = model.discovered_services.len();
                    let ghost m = model.discovered_services.view();
                    assert forall|k: Seq<char>| #[trigger] m.dom().contains(k) implies m[k].fullname@
                        != fullname@ by {
                        let j = choose|j: int|
                            0 <= j < model.discovered_services.entry_seq().len()
                                && model.discovered_services.entry_seq()[j].0@ == k
                                && m[k] == model.discovered_services.entry_seq()[j].1;
                        assert(model.discovered_services.entry_seq()[j].1.fullname@ != fullname@);
                    }
                },
            }
        },
    }
    effects.push(Effect::Render);
    effects
}

fn handle_exchange_event(ev: ExchangeEvent, model: &mut Model) -> (effects: Vec<Effect>)
    ensures
        exchange_event_outcome(*old(model), *final(model), ev, effects@),
{
    let mut effects: Vec<Effect> = Vec::new();
    match ev {
        ExchangeEvent::Nothing => {},
        ExchangeEvent::PairingRequest(ClientId { hostname, id }) => {
            model.pairing_requests.insert(hostname, id);
            effects.push(Effect::Render);
        },
        ExchangeEvent::PairedWithServer(ClientId { hostname, id }) => {
            effects.push(
                Effect::Core(
                    CoreEffect::Storage(
                        StorageRequest::NewHost { hostname, identifier: id, overwrite: true },
                    ),
                ),
            );
        },
        ExchangeEvent::UpdatedClient => {
            model.load_state.client_id = true;
        },
    }
    effects
}

fn paired_devices_of(devices: &Vec<PairedDevice>) -> (res: HostMap<String>)
    ensures
        res.view() == devices_map(devices@),
{
    let mut map: HostMap<String> = HostMap::new();
    let mut i: usize = 0;
    while i < devices.len()
        invariant
            i <= devices@.len(),
            map.view() == devices_map(devices@.take(i as int)),
        decreases devices@.len() - i,
    {
        map.insert(devices[i].hostname.clone(), devices[i].identifier.clone());
        assert(devices@.take(i + 1).drop_last() =~= devices@.take(i as int));
        i = i + 1;
    }
    assert(devices@.take(devices@.len() as int) =~= devices@);
    map
}

fn handle_storage_event(ev: StorageEvent, model: &mut Model) -> (effects: Vec<Effect>)
    ensures
        storage_event_outcome(*old(model), *final(model), ev, effects@),
{
    let mut effects: Vec<Effect> = Vec::new();
    match ev {
        StorageEvent::Fetch(trusted_hosts) => {
            model.paired_devices = paired_devices_of(&trusted_hosts);
            model.load_state.paired_devices = true;
            let ids = model.paired_devices.values();
            effects.push(Effect::Core(CoreEffect::Connection(ExchangeRequest::PairedDevices(ids))));
        },
        StorageEvent::DeviceAlreadyExists(_) => {
            effects.push(Effect::Core(CoreEffect::Storage(StorageRequest::Fetch)));
            effects.push(Effect::Render);
        },
        StorageEvent::DeviceAdded(_) => {
            effects.push(Effect::Core(CoreEffect::Storage(StorageRequest::Fetch)));
            effects.push(Effect::Render);
        },
        StorageEvent::ClientId(uuid) => {
            let client = ClientId { hostname: model.hostname.clone(), id: uuid_to_string(&uuid) };
            effects.push(Effect::Core(CoreEffect::Connection(ExchangeRequest::UpdateClientId(client))));
        },
    }
    effects
}

impl Model {
    /// Whether `update` can take `event` in this model (see `update_allowed`).
    pub fn accepts(&self, event: &Event) -> (res: bool)
        ensures
            res == update_allowed(*self, *event),
    {
        match event {
            Event::Exchange(ExchangeRequestEvent::SendFiles((h, _))) => {
                !self.discovered_services.contains_key(h) || self.addr_for_discovered_device(
                    h,
                ).is_some()
            },
            Event::Exchange(ExchangeRequestEvent::PairRequest(h)) => self.addr_for_discovered_device(
                h,
            ).is_some(),
            _ => true,
        }
    }
}

/// Handles one event: updates the model and returns the effects to carry out, in order.
///
/// The user's answer to a pairing request comes either as `Event::Pair` or as
/// `ExchangeRequestEvent::PairResponse`; both are the same answer and are handled alike:
/// the asking host is stored as paired only when the answer is yes, the pending request is
/// answered and dropped, and the view is rendered again.
pub fn update(event: Event, model: &mut Model) -> (effects: Vec<Effect>)
    requires
        update_allowed(*old(model), event),
    ensures
        update_outcome(*old(model), *final(model), event, effects@),
{
    match event {
        Event::Initialize => initialize(model),
        Event::Storage(req) => {
            let mut effects: Vec<Effect> = Vec::new();
            effects.push(Effect::Core(CoreEffect::Storage(req)));
            effects
        },
        Event::Exchange(ExchangeRequestEvent::PairResponse((hostname, accepted))) => {
            answer_pairing(hostname, accepted, model)
        },
        Event::Exchange(req) => send_or_pair(req, model),
        Event::Pair((hostname, accepted)) => answer_pairing(hostname, accepted, model),
        Event::Core(CoreEvent::Error(e)) => {
            let mut effects: Vec<Effect> = Vec::new();
            effects.push(Effect::Error(CoreErrorEffect(e)));
            effects
        },
        Event::Core(CoreEvent::ServiceDiscovery(ev)) => handle_discovery(ev, model),
        Event::Core(CoreEvent::Exchange(ev)) => handle_exchange_event(ev, model),
        Event::Core(CoreEvent::Storage(ev)) => handle_storage_event(ev, model),
    }
}

/// What the shell shows of a model: each discovered device, once, with whether it is
/// paired; and each host that asks to be paired, once.
pub open spec fn view_outcome(m: Model, v: ViewModel) -> bool {
    &&& v.discovered_services@.len() == m.discovered_services.view().dom().len()
    &&& forall|j: int|
        #![trigger v.discovered_services@[j]]
        0 <= j < v.discovered_services@.len() ==> m.discovered_services.view().dom().contains(
            v.discovered_services@[j].hostname@,
        ) && v.discovered_services@[j].paired == m.paired_devices.view().dom().contains(
            v.discovered_services@[j].hostname@,
        )
    &&& forall|k: Seq<char>|
        #[trigger] m.discovered_services.view().dom().contains(k) ==> exists|j: int|
            0 <= j < v.discovered_services@.len() && v.discovered_services@[j].hostname@ == k
    &&& forall|i: int, j: int|
        0 <= i < v.discovered_services@.len() && 0 <= j < v.discovered_services@.len() && i != j
            ==> v.discovered_services@[i].hostname@ != v.discovered_services@[j].hostname@
    &&& v.pairing_requests@.len() == m.pairing_requests.view().dom().len()
    &&& forall|j: int|
        0 <= j < v.pairing_requests@.len() ==> m.pairing_requests.view().dom().contains(
            #[trigger] v.pairing_requests@[j]@,
        )
    &&& forall|k: Seq<char>|
        #[trigger] m.pairing_requests.view().dom().contains(k) ==> exists|j: int|
            0 <= j < v.pairing_requests@.len() && v.pairing_requests@[j]@ == k
    &&& forall|i: int, j: int|
        0 <= i < v.pairing_requests@.len() && 0 <= j < v.pairing_requests@.len() && i != j
            ==> v.pairing_requests@[i]@ != v.pairing_requests@[j]@
}

/// The view of a model.
pub fn view(model: &Model) -> (res: ViewModel)
    ensures
        view_outcome(*model, res),
{
    let _ = model.discovered_services.len();
    let _ = model.pairing_requests.len();
    let hosts = model.discovered_services.keys();
    let mut devices: Vec<LocalDevices> = Vec::new();
    let mut i: usize = 0;
    while i < hosts.len()
        invariant
            i <= hosts@.len(),
            devices@.len() == i,
            forall|j: int| 0 <= j < i ==> (#[trigger] devices@[j]).hostname == hosts@[j]
                && devices@[j].paired == model.paired_devices.view().dom().contains(hosts@[j]@),
        decreases hosts@.len() - i,
    {
        let paired = model.paired_devices.contains_key(&hosts[i]);
        devices.push(LocalDevices { hostname: hosts[i].clone(), paired });
        i = i + 1;
    }
    let requests = model.pairing_requests.keys();
    let res = ViewModel { discovered_services: devices, pairing_requests: requests };
    assert forall|k: Seq<char>| #[trigger] model.discovered_services.view().dom().contains(k) implies exists|j: int|
        0 <= j < res.discovered_services@.len() && res.discovered_services@[j].hostname@ == k by {
        let j = choose|j: int| 0 <= j < hosts@.len() && hosts@[j]@ == k;
        assert(res.discovered_services@[j].hostname == hosts@[j]);
    }
    assert forall|i: int, j: int|
        0 <= i < res.discovered_services@.len() && 0 <= j < res.discovered_services@.len() && i != j
            implies res.discovered_services@[i].hostname@ != res.discovered_services@[j].hostname@ by {
        assert(res.discovered_services@[i].hostname == hosts@[i]);
        assert(res.discovered_services@[j].hostname == hosts@[j]);
    }
    res
}

/// A pairing request that the user accepts ends with the asking host stored as paired
/// under the identifier it presented, and with no request of that host left pending.
pub proof fn law_accepted_pairing_stores_requester(
    m0: Model,
    m1: Model,
    m2: Model,
    client: ClientId,
    h: Hostname,
    e1: Seq<Effect>,
    e2: Seq<Effect>,
)
    requires
        exchange_event_outcome(m0, m1, ExchangeEvent::PairingRequest(client), e1),
        pair_answer_outcome(m1, m2, h, true, e2),
        h@ == client.hostname@,
    ensures
        e2.len() == 3,
        e2[0] == Effect::PairingAnswer((h, true)),
        e2[1] == Effect::Core(
            CoreEffect::Storage(
                StorageRequest::NewHost { hostname: h, identifier: client.id, overwrite: true },
            ),
        ),
        !m2.pairing_requests.view().dom().contains(h@),
{
}

/// A pairing request that the user refuses is answered no, stores nothing, and leaves
/// no request of that host pending.
pub proof fn law_refused_pairing_stores_nothing(
    m0: Model,
    m1: Model,
    m2: Model,
    client: ClientId,
    h: Hostname,
    e1: Seq<Effect>,
    e2: Seq<Effect>,
)
    requires
        exchange_event_outcome(m0, m1, ExchangeEvent::PairingRequest(client), e1),
        pair_answer_outcome(m1, m2, h, false, e2),
        h@ == client.hostname@,
    ensures
        e2.len() == 2,
        e2[0] == Effect::PairingAnswer((h, false)),
        e2[1] is Render,
        m2.paired_devices == m1.paired_devices,
        !m2.pairing_requests.view().dom().contains(h@),
{
}

/// A service of another device that appears shows in the next view; this session's own
/// service never does.
pub proof fn law_appeared_service_is_shown(
    m0: Model,
    m1: Model,
    s: LocalService,
    effects: Seq<Effect>,
    v: ViewModel,
)
    requires
        discovery_outcome(m0, m1, ServiceDiscoveryEvent::AppearedService(s), effects),
        view_outcome(m1, v),
    ensures
        !contains_seq(s.fullname@, base64_standard(m0.session_id.view())) ==> exists|j: int|
            0 <= j < v.discovered_services@.len() && v.discovered_services@[j].hostname@
                == s.hostname@,
        contains_seq(s.fullname@, base64_standard(m0.session_id.view())) ==> m1 == m0,
{
    if !contains_seq(s.fullname@, base64_standard(m0.session_id.view())) {
        assert(m1.discovered_services.view().dom().contains(s.hostname@));
    }
}

/// No event changes the session or the name of the device.
pub proof fn law_update_keeps_identity(old: Model, new: Model, event: Event, effects: Seq<Effect>)
    requires
        update_outcome(old, new, event, effects),
    ensures
        new.session_id == old.session_id,
        new.hostname == old.hostname,
{
}

/// The paired devices change only when storage reports the stored ones.
pub proof fn law_paired_devices_change_only_on_fetch(
    old: Model,
    new: Model,
    event: Event,
    effects: Seq<Effect>,
)
    requires
        update_outcome(old, new, event, effects),
        !(event matches Event::Core(CoreEvent::Storage(StorageEvent::Fetch(_)))),
    ensures
        new.paired_devices == old.paired_devices,
{
}

/// A device whose service goes away is no longer shown, when its service was the only
/// one with that full name.
pub proof fn law_lost_service_is_hidden(
    m0: Model,
    m1: Model,
    name: String,
    k: Seq<char>,
    effects: Seq<Effect>,
    v: ViewModel,
)
    requires
        discovery_outcome(m0, m1, ServiceDiscoveryEvent::LostService(name), effects),
        view_outcome(m1, v),
        m0.discovered_services.view().dom().contains(k),
        m0.discovered_services.view()[k].fullname@ == name@,
        forall|k2: Seq<char>|
            #[trigger] m0.discovered_services.view().dom().contains(k2)
                && m0.discovered_services.view()[k2].fullname@ == name@ ==> k2 == k,
    ensures
        forall|j: int|
            0 <= j < v.discovered_services@.len() ==> (#[trigger] v.discovered_services@[j]).hostname@
                != k,
{
    assert(!m1.discovered_services.view().dom().contains(k));
}

/// Once this device has paired with a server, the one thing done is to store that server,
/// under the server's own host name and with the fingerprint it presented, replacing any
/// earlier entry; the model is left as it is.
pub proof fn law_paired_server_is_stored(old: Model, new: Model, c: ClientId, effects: Seq<Effect>)
    requires
        update_outcome(old, new, Event::Core(CoreEvent::Exchange(ExchangeEvent::PairedWithServer(c))), effects),
    ensures
        new == old,
        effects.len() == 1,
        effects[0] matches Effect::Core(CoreEffect::Storage(StorageRequest::NewHost { hostname, identifier, overwrite }))
            && hostname == c.hostname && hostname@ == c.hostname@ && identifier == c.id
            && overwrite,
{
}

/// A storage request of the shell is passed on to storage unchanged, as the only effect,
/// and leaves the model as it is.
pub proof fn law_storage_request_is_passed_on(
    old: Model,
    new: Model,
    r: StorageRequest,
    effects: Seq<Effect>,
)
    requires
        update_outcome(old, new, Event::Storage(r), effects),
    ensures
        new == old,
        effects == seq![Effect::Core(CoreEffect::Storage(r))],
{
    assert(effects =~= seq![Effect::Core(CoreEffect::Storage(r))]);
}

/// Once storage reports a device added, or already stored, the paired devices are fetched
/// again and the view rendered, in that order, and nothing else is done.
pub proof fn law_stored_device_refetches(
    old: Model,
    new: Model,
    ev: StorageEvent,
    effects: Seq<Effect>,
)
    requires
        ev is DeviceAdded || ev is DeviceAlreadyExists,
        update_outcome(old, new, Event::Core(CoreEvent::Storage(ev)), effects),
    ensures
        new == old,
        effects.len() == 2,
        effects[0] == Effect::Core(CoreEffect::Storage(StorageRequest::Fetch)),
        effects[1] == Effect::Render,
{
}

} // verus!
