//! Requests to the service.

use vstd::prelude::*;
use vstd::string::*;
use vstd::utf8::*;
use crate::device::{Device, NextCheck};
use crate::protocol::{EntityKind, Method, Payload, Request, ValueData};
use crate::server::DeviceServer;
use crate::text::{reads, same_bytes};

verus! {

/// What a request is answered that is granted.
#[derive(Clone, Copy, Debug, PartialEq, Eq, Structural)]
pub enum IpcReply {
    /// An object without members.
    EmptyObject,
    Null,
}

/// Why a request is refused.
#[derive(Debug)]
pub enum IpcError {
    UnsupportedEntityKind,
    UnsupportedService(String),
    UnsupportedPath,
    UnsupportedOperation,
    UnsupportedPayload,
    UnsupportedValueData,
    /// There is no device with this identifier.
    NoDevice(String),
}

/// The devices, by device service.
pub open spec fn fleet(servers: Seq<DeviceServer>) -> Seq<Seq<Device>> {
    servers.map_values(|server: DeviceServer| server.devices@)
}

/// Where the first device with the identifier stands.
pub open spec fn place_in(devices: Seq<Device>, id: Seq<char>) -> Option<int>
    decreases devices.len(),
{
    if devices.len() == 0 {
        None
    } else if devices.first().id@ == id {
        Some(0)
    } else {
        match place_in(devices.drop_first(), id) {
            Some(i) => Some(i + 1),
            None => None,
        }
    }
}

/// Where the first device with the identifier stands: its device service, and its place there.
pub open spec fn place_of(fleet: Seq<Seq<Device>>, id: Seq<char>) -> Option<(int, int)>
    decreases fleet.len(),
{
    if fleet.len() == 0 {
        None
    } else {
        match place_in(fleet.first(), id) {
            Some(i) => Some((0, i)),
            None => match place_of(fleet.drop_first(), id) {
                Some((s, i)) => Some((s + 1, i)),
                None => None,
            },
        }
    }
}

/// The devices with the one in the given place changed.
pub open spec fn with_device(fleet: Seq<Seq<Device>>, place: (int, int), device: Device) -> Seq<
    Seq<Device>,
> {
    fleet.update(place.0, fleet[place.0].update(place.1, device))
}

/// A device that is to be looked at right away, even where it refused the last image.
pub open spec fn retried(device: Device) -> Device {
    Device { next_check: NextCheck::Immediately, force_check: true, ..device }
}

/// A device that is, for once, to get firmware that is no update.
pub open spec fn downgraded(device: Device) -> Device {
    Device { oneshot_fota_loop: true, ..retried(device) }
}

/// The strings that are there.
pub open spec fn present(list: Seq<Option<String>>) -> Seq<String>
    decreases list.len(),
{
    if list.len() == 0 {
        Seq::empty()
    } else {
        match list.last() {
            Some(s) => present(list.drop_last()).push(s),
            None => present(list.drop_last()),
        }
    }
}

/// The devices after the ones with the given identifiers have been marked for another upload, one
/// after the other, up to the first identifier that no device has. That identifier comes along.
pub open spec fn all_retried(fleet: Seq<Seq<Device>>, ids: Seq<String>) -> (
    Seq<Seq<Device>>,
    Option<String>,
)
    decreases ids.len(),
{
    if ids.len() == 0 {
        (fleet, None)
    } else {
        match place_of(fleet, ids.first()@) {
            None => (fleet, Some(ids.first())),
            Some(place) => all_retried(
                with_device(fleet, place, retried(fleet[place.0][place.1])),
                ids.drop_first(),
            ),
        }
    }
}

/// Whether the device services are the same, whatever devices they have.
pub open spec fn same_services(before: Seq<DeviceServer>, after: Seq<DeviceServer>) -> bool {
    &&& after.len() == before.len()
    &&& forall|i: int| 0 <= i < before.len() ==> (#[trigger] after[i]).same_service(before[i])
}

/// A place that is found is a place, and the device there has the identifier.
pub proof fn lemma_place_of(fleet: Seq<Seq<Device>>, id: Seq<char>)
    ensures
        place_of(fleet, id) matches Some((s, i)) ==> {
            &&& 0 <= s < fleet.len()
            &&& 0 <= i < fleet[s].len()
            &&& fleet[s][i].id@ == id
        },
    decreases fleet.len(),
{
    if fleet.len() > 0 {
        lemma_place_in(fleet.first(), id);
        lemma_place_of(fleet.drop_first(), id);
    }
}

proof fn lemma_place_in(devices: Seq<Device>, id: Seq<char>)
    ensures
        place_in(devices, id) matches Some(i) ==> 0 <= i < devices.len() && devices[i].id@ == id,
    decreases devices.len(),
{
    if devices.len() > 0 {
        lemma_place_in(devices.drop_first(), id);
    }
}

fn find_in(devices: &Vec<Device>, id: &String) -> (r: Option<usize>)
    ensures
        match r {
            Some(i) => place_in(devices@, id@) == Some(i as int) && i < devices@.len(),
            None => place_in(devices@, id@) is None,
        },
{
    let mut i: usize = 0;
    assert(devices@.skip(0) =~= devices@);
    while i < devices.len()
        invariant
            i <= devices@.len(),
            place_in(devices@, id@) == (match place_in(devices@.skip(i as int), id@) {
                Some(j) => Some(i + j),
                None => None,
            }),
        decreases devices@.len() - i,
    {
        assert(devices@.skip(i as int).drop_first() =~= devices@.skip(i + 1));
        if devices[i].id == *id {
            return Some(i);
        }
        i += 1;
    }
    None
}

fn find_device(servers: &Vec<DeviceServer>, id: &String) -> (r: Option<(usize, usize)>)
    ensures
        match r {
            Some((s, i)) => {
                &&& place_of(fleet(servers@), id@) == Some((s as int, i as int))
                &&& s < servers@.len()
                &&& i < servers@[s as int].devices@.len()
            },
            None => place_of(fleet(servers@), id@) is None,
        },
{
    let ghost all = fleet(servers@);
    let mut s: usize = 0;
    assert(all.skip(0) =~= all);
    while s < servers.len()
        invariant
            all == fleet(servers@),
            s <= servers@.len(),
            place_of(all, id@) == (match place_of(all.skip(s as int), id@) {
                Some((t, i)) => Some((s + t, i)),
                None => None,
            }),
        decreases servers@.len() - s,
    {
        assert(all.skip(s as int).drop_first() =~= all.skip(s + 1));
        assert(all.skip(s as int).first() == servers@[s as int].devices@);
        match find_in(&servers[s].devices, id) {
            Some(i) => {
                return Some((s, i));
            },
            None => {},
        }
        s += 1;
    }
    None
}

/// Answers the request for all devices: the service has none of its own.
pub fn handle_ipc_all_devices_request() -> (r: Result<IpcReply, IpcError>)
    ensures
        r == Ok::<IpcReply, IpcError>(IpcReply::EmptyObject),
{
    Ok(IpcReply::EmptyObject)
}

/// What the request to send a device firmware that is no update leads to.
pub open spec fn downgrade_handled(
    request: Request,
    before: Seq<DeviceServer>,
    after: Seq<DeviceServer>,
    r: Result<IpcReply, IpcError>,
) -> bool {
    if request.op != Method::Execute {
        after == before && r == Err::<IpcReply, IpcError>(IpcError::UnsupportedOperation)
    } else {
        match request.payload {
            Some(Payload::Value(ValueData::String(Some(id)))) => match place_of(
                fleet(before),
                id@,
            ) {
                Some(place) => {
                    &&& same_services(before, after)
                    &&& fleet(after) == with_device(
                        fleet(before),
                        place,
                        downgraded(fleet(before)[place.0][place.1]),
                    )
                    &&& r == Ok::<IpcReply, IpcError>(IpcReply::Null)
                },
                None => after == before && r == Err::<IpcReply, IpcError>(IpcError::NoDevice(id)),
            },
            Some(Payload::Value(_)) => after == before && r == Err::<IpcReply, IpcError>(
                IpcError::UnsupportedValueData,
            ),
            _ => after == before && r == Err::<IpcReply, IpcError>(IpcError::UnsupportedPayload),
        }
    }
}

/// Answers the request to send a device firmware that is no update, once.
pub fn handle_ipc_downgrade_request(request: &Request, servers: &mut Vec<DeviceServer>) -> (r:
    Result<IpcReply, IpcError>)
    ensures
        downgrade_handled(*request, old(servers)@, final(servers)@, r),
{
    match &request.op {
        Method::Execute => {},
        _ => {
            return Err(IpcError::UnsupportedOperation);
        },
    }
    let data = match &request.payload {
        Some(Payload::Value(data)) => data,
        _ => {
            return Err(IpcError::UnsupportedPayload);
        },
    };
    let id = match data {
        ValueData::String(Some(id)) => id,
        _ => {
            return Err(IpcError::UnsupportedValueData);
        },
    };
    let ghost before = servers@;
    match find_device(servers, id) {
        Some((s, i)) => {
            servers[s].devices[i].next_check = NextCheck::Immediately;
            servers[s].devices[i].force_check = true;
            servers[s].devices[i].oneshot_fota_loop = true;
            assert(servers@[s as int].devices@ =~= before[s as int].devices@.update(
                i as int,
                downgraded(before[s as int].devices@[i as int]),
            ));
            assert(fleet(servers@) =~= with_device(
                fleet(before),
                (s as int, i as int),
                downgraded(fleet(before)[s as int][i as int]),
            ));
            Ok(IpcReply::Null)
        },
        None => Err(IpcError::NoDevice(id.clone())),
    }
}

/// What the request to send devices their image again leads to.
pub open spec fn retry_handled(
    request: Request,
    before: Seq<DeviceServer>,
    after: Seq<DeviceServer>,
    r: Result<IpcReply, IpcError>,
) -> bool {
    if request.op != Method::Execute {
        after == before && r == Err::<IpcReply, IpcError>(IpcError::UnsupportedOperation)
    } else {
        match request.payload {
            Some(Payload::Value(ValueData::StringArray(ids))) => {
                let outcome = all_retried(fleet(before), present(ids@));
                &&& same_services(before, after)
                &&& fleet(after) == outcome.0
                &&& r == match outcome.1 {
                    None => Ok::<IpcReply, IpcError>(IpcReply::Null),
                    Some(id) => Err(IpcError::NoDevice(id)),
                }
            },
            Some(Payload::Value(_)) => after == before && r == Err::<IpcReply, IpcError>(
                IpcError::UnsupportedValueData,
            ),
            _ => after == before && r == Err::<IpcReply, IpcError>(IpcError::UnsupportedPayload),
        }
    }
}

fn flatten(list: &Vec<Option<String>>) -> (r: Vec<String>)
    ensures
        r@ == present(list@),
{
    let mut strings: Vec<String> = Vec::new();
    let mut i: usize = 0;
    while i < list.len()
        invariant
            i <= list@.len(),
            strings@ == present(list@.take(i as int)),
        decreases list@.len() - i,
    {
        assert(list@.take(i + 1).drop_last() =~= list@.take(i as int));
        match &list[i] {
            Some(s) => {
                strings.push(s.clone());
            },
            None => {},
        }
        i += 1;
    }
    assert(list@.take(i as int) =~= list@);
    strings
}

/// Answers the request to send devices their image again though they refused it.
pub fn handle_ipc_retry_upload_request(request: &Request, servers: &mut Vec<DeviceServer>) -> (r:
    Result<IpcReply, IpcError>)
    ensures
        retry_handled(*request, old(servers)@, final(servers)@, r),
{
    match &request.op {
        Method::Execute => {},
        _ => {
            return Err(IpcError::UnsupportedOperation);
        },
    }
    let data = match &request.payload {
        Some(Payload::Value(data)) => data,
        _ => {
            return Err(IpcError::UnsupportedPayload);
        },
    };
    let ids = match data {
        ValueData::StringArray(ids) => flatten(ids),
        _ => {
            return Err(IpcError::UnsupportedValueData);
        },
    };
    let ghost before = servers@;
    let ghost outcome = all_retried(fleet(before), ids@);
    let mut n: usize = 0;
    assert(ids@.skip(0) =~= ids@);
    while n < ids.len()
        invariant
            n <= ids@.len(),
            before == old(servers)@,
            request.op == Method::Execute,
            request.payload matches Some(Payload::Value(ValueData::StringArray(list))) && ids@
                == present(list@),
            outcome == all_retried(fleet(before), ids@),
            same_services(before, servers@),
            outcome == all_retried(fleet(servers@), ids@.skip(n as int)),
        decreases ids@.len() - n,
    {
        assert(ids@.skip(n as int).drop_first() =~= ids@.skip(n + 1));
        let ghost current = servers@;
        let id = &ids[n];
        match find_device(servers, id) {
            Some((s, i)) => {
                servers[s].devices[i].next_check = NextCheck::Immediately;
                servers[s].devices[i].force_check = true;
                assert(servers@[s as int].devices@ =~= current[s as int].devices@.update(
                    i as int,
                    retried(current[s as int].devices@[i as int]),
                ));
                assert(fleet(servers@) =~= with_device(
                    fleet(current),
                    (s as int, i as int),
                    retried(fleet(current)[s as int][i as int]),
                ));
            },
            None => {
                return Err(IpcError::NoDevice(id.clone()));
            },
        }
        n += 1;
    }
    Ok(IpcReply::Null)
}

/// What a request leads to.
pub open spec fn handled(
    request: Request,
    before: Seq<DeviceServer>,
    after: Seq<DeviceServer>,
    r: Result<IpcReply, IpcError>,
) -> bool {
    match request.entity.kind {
        EntityKind::Gateway { service } => {
            let path = request.entity.path@;
            if service@ != "fwrolloutd"@ {
                after == before && r == Err::<IpcReply, IpcError>(
                    IpcError::UnsupportedService(service),
                )
            } else if path == encode_utf8("devices"@) {
                after == before && r == Ok::<IpcReply, IpcError>(IpcReply::EmptyObject)
            } else if path == encode_utf8("downgrade"@) {
                downgrade_handled(request, before, after, r)
            } else if path == encode_utf8("retry_upload"@) {
                retry_handled(request, before, after, r)
            } else {
                after == before && r == Err::<IpcReply, IpcError>(IpcError::UnsupportedPath)
            }
        },
        _ => after == before && r == Err::<IpcReply, IpcError>(IpcError::UnsupportedEntityKind),
    }
}

/// Answers a request.
pub fn handle_ipc_request(request: &Request, servers: &mut Vec<DeviceServer>) -> (r: Result<
    IpcReply,
    IpcError,
>)
    ensures
        handled(*request, old(servers)@, final(servers)@, r),
{
    match &request.entity.kind {
        EntityKind::Gateway { service } => {
            if !reads(service.as_str(), "fwrolloutd") {
                return Err(IpcError::UnsupportedService(service.clone()));
            }
            let path = request.entity.path.as_slice();
            // The cloud adapter asks for the devices of every service.
            if same_bytes(path, "devices".as_bytes()) {
                handle_ipc_all_devices_request()
            } else if same_bytes(path, "downgrade".as_bytes()) {
                handle_ipc_downgrade_request(request, servers)
            } else if same_bytes(path, "retry_upload".as_bytes()) {
                handle_ipc_retry_upload_request(request, servers)
            } else {
                Err(IpcError::UnsupportedPath)
            }
        },
        _ => Err(IpcError::UnsupportedEntityKind),
    }
}

} // verus!
