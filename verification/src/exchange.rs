use vstd::prelude::*;

use crate::hostname::{Hostname, hostname_normal_form, local_suffix};
use crate::text::ends_with_seq;
use crate::net::IpAddress;
use crate::text::StringSet;

verus! {

/// The identity that a device presents to its peers: its host name and the hexadecimal
/// fingerprint of its certificate.
#[derive(Debug)]
pub struct ClientId {
    pub hostname: Hostname,
    pub id: String,
}

impl Clone for ClientId {
    fn clone(&self) -> (res: Self)
        ensures
            res == *self,
    {
        ClientId { hostname: self.hostname.clone(), id: self.id.clone() }
    }
}

/// A client identity as it travels on the wire, with the host name not yet normalised.
#[derive(Debug)]
pub struct ClientIdRaw {
    pub hostname: String,
    pub id: String,
}

impl ClientId {
    /// Reads a wire identity, normalising its host name.
    pub fn from_raw(raw: ClientIdRaw) -> (res: ClientId)
        ensures
            res.hostname@ == hostname_normal_form(raw.hostname@),
            res.id == raw.id,
    {
        ClientId { hostname: Hostname::new(raw.hostname), id: raw.id }
    }

    /// The identity in its wire form.
    pub fn into_raw(self) -> (res: ClientIdRaw)
        ensures
            res.hostname@ == self.hostname@,
            res.id == self.id,
    {
        ClientIdRaw { hostname: self.hostname.into_inner(), id: self.id }
    }
}

/// What the exchange resolver reports back to the application core.
#[derive(Debug)]
pub enum ExchangeEvent {
    /// Nothing to report.
    Nothing,
    UpdatedClient,
    PairedWithServer(ClientId),
    /// A peer asks to be paired; the shell answers it through the reply channel that it
    /// keeps beside the core.
    PairingRequest(ClientId),
}

/// What the application core asks of the exchange resolver.
#[derive(Debug)]
pub enum ExchangeRequest {
    UpdateClientId(ClientId),
    SendFiles((Hostname, IpAddress, Vec<String>)),
    Pair((Hostname, IpAddress)),
    PairedDevices(StringSet),
}

/// Errors of the exchange resolver that its own bookkeeping raises.
#[derive(Clone, Copy, Debug, PartialEq, Eq, Structural)]
pub enum ExchangeErrors {
    /// Files or a pairing were asked for before the device knew its own identity.
    NotReady,
}

impl ExchangeErrors {
    /// The message of the error.
    pub fn message(&self) -> (res: &'static str)
        ensures
            res@ == "not ready to send files"@,
    {
        "not ready to send files"
    }
}

/// Options the exchange resolver is created with.
pub struct ExchangeResolverOptions<T> {
    pub pairing_request: T,
}

/// A run of the client side of the exchange protocol against a peer.
#[derive(Debug)]
pub struct ClientRun {
    pub hostname: Hostname,
    pub addr: IpAddress,
    pub client: ClientId,
    /// The files to send; none means that the run asks for pairing.
    pub files: Vec<String>,
}

/// What the exchange resolver does with a request.
#[derive(Debug)]
pub enum ExchangeStep {
    /// The request is answered at once with this event.
    Done(ExchangeEvent),
    /// The client protocol is run; the request is answered with `ExchangeEvent::Nothing`
    /// once it finishes.
    Run(ClientRun),
}

/// The state of the exchange resolver that its decisions read: the device's own
/// identity, once known, and the fingerprints of the paired devices.
#[derive(Debug)]
pub struct ExchangeResolverState {
    pub client_id: Option<ClientId>,
    pub paired_devices: StringSet,
}

impl ExchangeResolverState {
    /// A resolver that knows neither its identity nor any paired device.
    pub fn new() -> (res: Self)
        ensures
            res.client_id is None,
            res.paired_devices@ == Set::<Seq<char>>::empty(),
    {
        ExchangeResolverState { client_id: None, paired_devices: StringSet::new() }
    }

    /// Handles one request: identity and paired devices are stored; sending files or
    /// pairing needs the identity and then runs the client protocol.
    pub fn resolve(&mut self, op: ExchangeRequest) -> (res: Result<ExchangeStep, ExchangeErrors>)
        ensures
            resolve_outcome(*old(self), *final(self), op, res),
    {
        match op {
            ExchangeRequest::UpdateClientId(client_id) => {
                self.client_id = Some(client_id);
                Ok(ExchangeStep::Done(ExchangeEvent::UpdatedClient))
            },
            ExchangeRequest::PairedDevices(trusted_hosts) => {
                self.paired_devices = trusted_hosts;
                Ok(ExchangeStep::Done(ExchangeEvent::Nothing))
            },
            ExchangeRequest::SendFiles((hostname, addr, files)) => {
                match &self.client_id {
                    None => Err(ExchangeErrors::NotReady),
                    Some(c) => Ok(
                        ExchangeStep::Run(ClientRun { hostname, addr, client: c.clone(), files }),
                    ),
                }
            },
            ExchangeRequest::Pair((hostname, addr)) => {
                match &self.client_id {
                    None => Err(ExchangeErrors::NotReady),
                    Some(c) => Ok(
                        ExchangeStep::Run(
                            ClientRun { hostname, addr, client: c.clone(), files: Vec::new() },
                        ),
                    ),
                }
            },
        }
    }

    /// The identity the server side presents to an incoming connection: none while the
    /// device has no identity, and then the connection is not served.
    pub fn server_identity(&self) -> (res: Option<ClientId>)
        ensures
            res == self.client_id,
    {
        match &self.client_id {
            Some(c) => Some(c.clone()),
            None => None,
        }
    }

    /// The fingerprints of the paired devices, as the server side reads them.
    pub fn paired_snapshot(&self) -> (res: StringSet)
        ensures
            res@ == self.paired_devices@,
    {
        self.paired_devices.clone()
    }
}

/// The state `resolve` leaves and the answer it gives for a request.
pub open spec fn resolve_outcome(
    old: ExchangeResolverState,
    new: ExchangeResolverState,
    op: ExchangeRequest,
    res: Result<ExchangeStep, ExchangeErrors>,
) -> bool {
    match op {
        ExchangeRequest::UpdateClientId(c) => {
            &&& new.client_id == Some(c)
            &&& new.paired_devices == old.paired_devices
            &&& res matches Ok(ExchangeStep::Done(ExchangeEvent::UpdatedClient))
        },
        ExchangeRequest::PairedDevices(ids) => {
            &&& new.client_id == old.client_id
            &&& new.paired_devices@ == ids@
            &&& res matches Ok(ExchangeStep::Done(ExchangeEvent::Nothing))
        },
        ExchangeRequest::SendFiles((h, a, files)) => {
            &&& new == old
            &&& match old.client_id {
                None => res == Err::<ExchangeStep, ExchangeErrors>(ExchangeErrors::NotReady),
                Some(c) => res matches Ok(ExchangeStep::Run(run)) && run.hostname == h && run.addr
                    == a && run.client == c && run.files@ == files@,
            }
        },
        ExchangeRequest::Pair((h, a)) => {
            &&& new == old
            &&& match old.client_id {
                None => res == Err::<ExchangeStep, ExchangeErrors>(ExchangeErrors::NotReady),
                Some(c) => res matches Ok(ExchangeStep::Run(run)) && run.hostname == h && run.addr
                    == a && run.client == c && run.files@.len() == 0,
            }
        },
    }
}

/// Once the resolver has learnt its identity, every file transfer it runs presents that
/// identity; before, it refuses to send.
pub proof fn law_transfers_present_learnt_identity(
    s0: ExchangeResolverState,
    s1: ExchangeResolverState,
    s2: ExchangeResolverState,
    c: ClientId,
    send: ExchangeRequest,
    r1: Result<ExchangeStep, ExchangeErrors>,
    r2: Result<ExchangeStep, ExchangeErrors>,
)
    requires
        resolve_outcome(s0, s1, ExchangeRequest::UpdateClientId(c), r1),
        send is SendFiles,
        resolve_outcome(s1, s2, send, r2),
    ensures
        r2 matches Ok(ExchangeStep::Run(run)) && run.client == c,
{
}

/// Without an identity, the resolver refuses to send files or to pair.
pub proof fn law_no_transfer_without_identity(
    s0: ExchangeResolverState,
    s1: ExchangeResolverState,
    op: ExchangeRequest,
    r: Result<ExchangeStep, ExchangeErrors>,
)
    requires
        s0.client_id is None,
        op is SendFiles || op is Pair,
        resolve_outcome(s0, s1, op, r),
    ensures
        r == Err::<ExchangeStep, ExchangeErrors>(ExchangeErrors::NotReady),
        s1 == s0,
{
}

/// An identity whose host name does not end in `.local` reads back unchanged from its
/// wire form.
pub proof fn law_client_id_wire_round_trip(c: ClientId, raw: ClientIdRaw, back: ClientId)
    requires
        !ends_with_seq(c.hostname@, local_suffix()),
        raw.hostname@ == c.hostname@ && raw.id == c.id,
        back.hostname@ == hostname_normal_form(raw.hostname@) && back.id == raw.id,
    ensures
        back.hostname@ == c.hostname@,
        back.id == c.id,
{
}

/// Updating the paired fingerprints replaces them and nothing else: the identity stays,
/// and a transfer asked for afterwards still presents the identity learnt before.
pub proof fn law_paired_devices_keep_identity(
    s0: ExchangeResolverState,
    s1: ExchangeResolverState,
    s2: ExchangeResolverState,
    s3: ExchangeResolverState,
    c: ClientId,
    ids: StringSet,
    send: ExchangeRequest,
    r1: Result<ExchangeStep, ExchangeErrors>,
    r2: Result<ExchangeStep, ExchangeErrors>,
    r3: Result<ExchangeStep, ExchangeErrors>,
)
    requires
        resolve_outcome(s0, s1, ExchangeRequest::UpdateClientId(c), r1),
        resolve_outcome(s1, s2, ExchangeRequest::PairedDevices(ids), r2),
        send is SendFiles,
        resolve_outcome(s2, s3, send, r3),
    ensures
        s2.client_id == s1.client_id,
        s2.client_id == Some(c),
        s2.paired_devices@ == ids@,
        r3 matches Ok(ExchangeStep::Run(run)) && run.client == c,
{
}

} // verus!
