use vstd::prelude::*;
use vstd::string::StringExecFns;

use crate::encoding::random_uuid;
use crate::hostname::{Hostname, hostname_normal_form};

verus! {

/// The name of the database file in the application's data directory.
pub const DB_FILE_NAME: &'static str = "svudko.db";

/// `dir` joined with `file`, as `Path::join` joins them on Unix: an absolute `file`
/// replaces `dir`; otherwise no separator goes after an empty directory or one that
/// already ends in `/`.
pub open spec fn join_path(dir: Seq<char>, file: Seq<char>) -> Seq<char> {
    if file.len() > 0 && file[0] == '/' {
        file
    } else if dir.len() == 0 {
        file
    } else if dir.last() == '/' {
        dir + file
    } else {
        dir + seq!['/'] + file
    }
}

/// `dir` joined with `file` (see `join_path`).
pub fn join_path_exec(dir: &str, file: &str) -> (res: String)
    ensures
        res@ == join_path(dir@, file@),
{
    let f = crate::text::chars_of(file);
    let mut res = String::new();
    if f.len() > 0 && f[0] == '/' {
        res.append(file);
        assert(Seq::<char>::empty() + file@ =~= file@);
        return res;
    }
    res.append(dir);
    let d = crate::text::chars_of(dir);
    if d.len() > 0 && d[d.len() - 1] != '/' {
        res.append("/");
        proof {
            reveal_strlit("/");
        }
    }
    res.append(file);
    assert(Seq::<char>::empty() + dir@ =~= dir@);
    res
}

/// The path of the database, in the application data directory `app_data_dir`.
pub fn database_path(app_data_dir: &str) -> (res: String)
    ensures
        res@ == join_path(app_data_dir@, DB_FILE_NAME@),
{
    join_path_exec(app_data_dir, DB_FILE_NAME)
}

/// A device this one is paired with.
#[derive(Debug)]
pub struct PairedDevice {
    pub hostname: Hostname,
    pub identifier: String,
}

/// A paired device as the database stores it.
#[derive(Debug)]
pub struct PairedDeviceRaw {
    pub hostname: String,
    pub identifier: String,
}

/// A stored device read back: the host name normalised, the identifier kept.
pub open spec fn spec_device_of_row(raw: PairedDeviceRaw, dev: PairedDevice) -> bool {
    dev.hostname@ == hostname_normal_form(raw.hostname@) && dev.identifier == raw.identifier
}

impl PairedDevice {
    /// Reads a stored row.
    pub fn from_raw(raw: PairedDeviceRaw) -> (res: PairedDevice)
        ensures
            spec_device_of_row(raw, res),
    {
        PairedDevice { hostname: Hostname::new(raw.hostname), identifier: raw.identifier }
    }
}

/// What storage reports to the application core.
#[derive(Debug)]
pub enum StorageEvent {
    Fetch(Vec<PairedDevice>),
    DeviceAlreadyExists(Hostname),
    DeviceAdded(PairedDevice),
    /// The identity of this device, as the bytes of a UUID.
    ClientId([u8; 16]),
}

/// What the application core asks of storage.
#[derive(Debug)]
pub enum StorageRequest {
    Fetch,
    NewHost { hostname: Hostname, identifier: String, overwrite: bool },
    ClientId,
}

/// The database work a request comes to.
#[derive(Debug)]
pub enum StorageQuery {
    /// Read all paired devices.
    ListPairedDevices,
    /// Store a paired device unless its host name is stored already.
    InsertIfAbsent { hostname: Hostname, identifier: String },
    /// Store a paired device, replacing the identifier stored for its host name.
    Upsert { hostname: Hostname, identifier: String },
    /// Read the identity of this device, creating one when there is none.
    ReadClientId,
}

/// The database work for a request.
pub fn storage_query(req: StorageRequest) -> (res: StorageQuery)
    ensures
        match req {
            StorageRequest::Fetch => res is ListPairedDevices,
            StorageRequest::NewHost { hostname, identifier, overwrite } => if overwrite {
                res == (StorageQuery::Upsert { hostname, identifier })
            } else {
                res == (StorageQuery::InsertIfAbsent { hostname, identifier })
            },
            StorageRequest::ClientId => res is ReadClientId,
        },
{
    match req {
        StorageRequest::Fetch => StorageQuery::ListPairedDevices,
        StorageRequest::NewHost { hostname, identifier, overwrite } => {
            if overwrite {
                StorageQuery::Upsert { hostname, identifier }
            } else {
                StorageQuery::InsertIfAbsent { hostname, identifier }
            }
        },
        StorageRequest::ClientId => StorageQuery::ReadClientId,
    }
}

/// The answer to a read of all paired devices: every row, read back, in order.
pub fn fetched_event(rows: Vec<PairedDeviceRaw>) -> (res: StorageEvent)
    ensures
        res matches StorageEvent::Fetch(devices) && devices@.len() == rows@.len() && forall|
            i: int,
        | 0 <= i < rows@.len() ==> spec_device_of_row(#[trigger] rows@[i], devices@[i]),
{
    let mut rows = rows;
    let ghost original = rows@;
    let mut reversed: Vec<PairedDevice> = Vec::new();
    while rows.len() > 0
        invariant
            rows@ == original.take(rows@.len() as int),
            rows@.len() + reversed@.len() == original.len(),
            forall|j: int|
                0 <= j < reversed@.len() ==> spec_device_of_row(
                    original[original.len() - 1 - j],
                    #[trigger] reversed@[j],
                ),
        decreases rows@.len(),
    {
        let row = rows.pop().unwrap();
        assert(row == original[rows@.len() as int]);
        reversed.push(PairedDevice::from_raw(row));
        assert(original.take(rows@.len() as int) =~= original.take(rows@.len() + 1int).drop_last());
    }
    let mut devices: Vec<PairedDevice> = Vec::new();
    while reversed.len() > 0
        invariant
            reversed@.len() + devices@.len() == original.len(),
            forall|j: int|
                0 <= j < reversed@.len() ==> spec_device_of_row(
                    original[original.len() - 1 - j],
                    #[trigger] reversed@[j],
                ),
            forall|j: int|
                0 <= j < devices@.len() ==> spec_device_of_row(original[j], #[trigger] devices@[j]),
        decreases reversed@.len(),
    {
        let d = reversed.pop().unwrap();
        devices.push(d);
    }
    StorageEvent::Fetch(devices)
}

/// The answer to an insertion that keeps an existing entry: the device added, or, when
/// nothing was inserted, that the host name was stored already.
pub fn inserted_event(hostname: Hostname, row: Option<PairedDeviceRaw>) -> (res: StorageEvent)
    ensures
        match row {
            Some(r) => res matches StorageEvent::DeviceAdded(d) && spec_device_of_row(r, d),
            None => res == StorageEvent::DeviceAlreadyExists(hostname),
        },
{
    match row {
        Some(r) => StorageEvent::DeviceAdded(PairedDevice::from_raw(r)),
        None => StorageEvent::DeviceAlreadyExists(hostname),
    }
}

/// The answer to an insertion that replaces an existing entry: the device added.
pub fn upserted_event(row: PairedDeviceRaw) -> (res: StorageEvent)
    ensures
        res matches StorageEvent::DeviceAdded(d) && spec_device_of_row(row, d),
{
    StorageEvent::DeviceAdded(PairedDevice::from_raw(row))
}

/// What to do with the stored identity of this device.
#[derive(Debug)]
pub enum ClientIdStep {
    /// An identity is stored: use it.
    Known([u8; 16]),
    /// None is stored: store this fresh random identity and use it.
    Store([u8; 16]),
}

/// The stored identity when there is one, else a fresh random (version 4) UUID to store.
pub fn client_id_step(stored: Option<[u8; 16]>) -> (res: ClientIdStep)
    ensures
        match stored {
            Some(id) => res == ClientIdStep::Known(id),
            None => res matches ClientIdStep::Store(fresh) && fresh@[6] / 16 == 4 && fresh@[8]
                / 64 == 2,
        },
{
    match stored {
        Some(id) => ClientIdStep::Known(id),
        None => ClientIdStep::Store(random_uuid()),
    }
}

/// The event that reports the identity of this device.
pub fn client_id_event(step: &ClientIdStep) -> (res: StorageEvent)
    ensures
        match *step {
            ClientIdStep::Known(id) => res == StorageEvent::ClientId(id),
            ClientIdStep::Store(id) => res == StorageEvent::ClientId(id),
        },
{
    match step {
        ClientIdStep::Known(id) => StorageEvent::ClientId(*id),
        ClientIdStep::Store(id) => StorageEvent::ClientId(*id),
    }
}

} // verus!
