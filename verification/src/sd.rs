use vstd::prelude::*;

use std::sync::Arc;

use crate::encoding::{base64_encode, base64_standard};
use crate::hostname::{Hostname, local_suffix};
use crate::net::AddressSet;
use crate::text::str_eq;

verus! {

/// The port announced for the exchange service.
pub const MDNS_SERVICE_PORT: u16 = 15571;

/// The mDNS service type under which devices announce themselves.
pub const MDNS_SERVICE_TYPE: &'static str = "_svudko-app._udp.local.";

/// A device found on the local network.
#[derive(Debug)]
pub struct LocalService {
    pub hostname: Hostname,
    pub fullname: String,
    /// Addresses of the service. IPv4 or IPv6 addresses.
    pub addresses: AddressSet,
}

/// What service discovery reports to the application core.
#[derive(Debug)]
pub enum ServiceDiscoveryEvent {
    /// Nothing to report.
    Nothing,
    AppearedService(LocalService),
    LostService(String),
}

/// What the application core asks of service discovery.
#[derive(Debug)]
pub enum ServiceDiscoveryRequest {
    /// Announce this device, under an instance name made from the given session id.
    EnableService([u8; 16]),
    DisableService,
    BeginBrowseForServices,
    StopBrowseForServices,
    FindByHostname(Hostname),
}

/// Options service discovery is created with.
pub struct SdResolverOptions<T> {
    pub service_events_callback: Arc<T>,
}

/// The mDNS work a request comes to.
#[derive(Debug)]
pub enum SdAction {
    /// Nothing to do; the request is answered with `ServiceDiscoveryEvent::Nothing`.
    Done,
    /// Register this device's service.
    Register { instance_name: String, host_name: String, port: u16 },
    /// Unregister the service registered under this full name.
    Unregister { fullname: String },
    /// Browse for services of `MDNS_SERVICE_TYPE`, reporting them as they come.
    StartBrowse,
    /// Stop browsing for services of `MDNS_SERVICE_TYPE`.
    StopBrowse,
    /// Resolve the addresses of a host, answering with `hostname_found`.
    ResolveHostname { hostname: Hostname, mdns_name: String },
}

/// The state of service discovery that its decisions read: the full name of the service
/// registered for this device, once there is one.
#[derive(Debug)]
pub struct SdResolverState {
    pub registered: Option<String>,
}

impl SdResolverState {
    /// Service discovery before anything was registered.
    pub fn new() -> (res: Self)
        ensures
            res.registered is None,
    {
        SdResolverState { registered: None }
    }

    /// The mDNS work for a request from a device named `local`. Enabling registers the
    /// service once; disabling unregisters the registered service, if any.
    pub fn plan(&self, op: &ServiceDiscoveryRequest, local: &Hostname) -> (res: SdAction)
        ensures
            match *op {
                ServiceDiscoveryRequest::EnableService(id) => match self.registered {
                    Some(_) => res is Done,
                    None => res matches SdAction::Register { instance_name, host_name, port }
                        && instance_name@ == base64_standard(id@) && host_name@ == local@
                        + local_suffix() + seq!['.'] && port == MDNS_SERVICE_PORT,
                },
                ServiceDiscoveryRequest::DisableService => match self.registered {
                    None => res is Done,
                    Some(name) => res matches SdAction::Unregister { fullname } && fullname
                        == name,
                },
                ServiceDiscoveryRequest::BeginBrowseForServices => res is StartBrowse,
                ServiceDiscoveryRequest::StopBrowseForServices => res is StopBrowse,
                ServiceDiscoveryRequest::FindByHostname(h) => res matches
                    SdAction::ResolveHostname { hostname, mdns_name } && hostname == h
                    && mdns_name@ == h@ + local_suffix() + seq!['.'],
            },
    {
        match op {
            ServiceDiscoveryRequest::EnableService(id) => {
                if self.registered.is_some() {
                    return SdAction::Done;
                }
                let instance_name = base64_encode(id.as_slice());
                SdAction::Register {
                    instance_name,
                    host_name: local.to_mdns_name(),
                    port: MDNS_SERVICE_PORT,
                }
            },
            ServiceDiscoveryRequest::DisableService => match &self.registered {
                None => SdAction::Done,
                Some(name) => SdAction::Unregister { fullname: name.clone() },
            },
            ServiceDiscoveryRequest::BeginBrowseForServices => SdAction::StartBrowse,
            ServiceDiscoveryRequest::StopBrowseForServices => SdAction::StopBrowse,
            ServiceDiscoveryRequest::FindByHostname(hostname) => SdAction::ResolveHostname {
                hostname: hostname.clone(),
                mdns_name: hostname.to_mdns_name(),
            },
        }
    }

    /// Records that the service was registered under `fullname`.
    pub fn record_registration(&mut self, fullname: String)
        ensures
            final(self).registered == Some(fullname),
    {
        self.registered = Some(fullname);
    }
}

/// The answer to a host name lookup: the host appeared, with the addresses found and no
/// service name.
pub fn hostname_found(hostname: Hostname, addresses: AddressSet) -> (res: ServiceDiscoveryEvent)
    ensures
        res matches ServiceDiscoveryEvent::AppearedService(s) && s.hostname == hostname
            && s.addresses == addresses && s.fullname@.len() == 0,
{
    ServiceDiscoveryEvent::AppearedService(
        LocalService { hostname, addresses, fullname: String::new() },
    )
}

/// The event service discovery answers a request with, once the request's action is
/// carried out: a host lookup with the host and the addresses `found` for it; every other
/// action with `Nothing`.
pub fn action_answer(action: SdAction, found: AddressSet) -> (res: ServiceDiscoveryEvent)
    ensures
        match action {
            SdAction::ResolveHostname { hostname, .. } => res matches ServiceDiscoveryEvent::AppearedService(s)
                && s.hostname == hostname && s.addresses == found && s.fullname@.len() == 0,
            _ => res is Nothing,
        },
{
    match action {
        SdAction::ResolveHostname { hostname, .. } => hostname_found(hostname, found),
        _ => ServiceDiscoveryEvent::Nothing,
    }
}

/// What mDNS reports while browsing.
#[derive(Debug)]
pub enum BrowseObservation {
    /// A service was resolved under the service type `ty_domain`.
    Resolved { ty_domain: String, service: LocalService },
    /// The service with this full name went away.
    Removed(String),
    /// Anything else.
    Other,
}

/// What browsing reports to the application: services of this application's type that
/// appear, and services that go away.
pub fn browse_event(obs: BrowseObservation) -> (res: Option<ServiceDiscoveryEvent>)
    ensures
        match obs {
            BrowseObservation::Resolved { ty_domain, service } => if ty_domain@
                == MDNS_SERVICE_TYPE@ {
                res == Some(ServiceDiscoveryEvent::AppearedService(service))
            } else {
                res is None
            },
            BrowseObservation::Removed(name) => res == Some(
                ServiceDiscoveryEvent::LostService(name),
            ),
            BrowseObservation::Other => res is None,
        },
{
    match obs {
        BrowseObservation::Resolved { ty_domain, service } => {
            if str_eq(ty_domain.as_str(), MDNS_SERVICE_TYPE) {
                Some(ServiceDiscoveryEvent::AppearedService(service))
            } else {
                None
            }
        },
        BrowseObservation::Removed(name) => Some(ServiceDiscoveryEvent::LostService(name)),
        BrowseObservation::Other => None,
    }
}

} // verus!
