//! What holds of requests to the service.

use vstd::prelude::*;
use vstd::string::*;
use vstd::utf8::*;
use crate::device::Device;
use crate::ipc;
use crate::ipc::{IpcError, IpcReply};
use crate::protocol::{EntityKind, Method, Payload, Request, ValueData};
use crate::server;
use crate::server::DeviceServer;

verus! {

/// A request that is refused changes nothing, unless it is one to send several devices their image
/// again: then the devices that are named before the first unknown one are marked.
pub proof fn law_refused_request_changes_nothing(
    request: Request,
    before: Seq<DeviceServer>,
    after: Seq<DeviceServer>,
    r: Result<IpcReply, IpcError>,
)
    requires
        ipc::handled(request, before, after, r),
        r is Err,
        !(r->Err_0 is NoDevice && request.entity.path@ == encode_utf8("retry_upload"@)),
    ensures
        after == before,
{
}

/// Whether the device in the given place is one of those that the first `n` identifiers name.
pub open spec fn named(fleet: Seq<Seq<Device>>, ids: Seq<String>, n: int, s: int, i: int) -> bool {
    exists|k: int| 0 <= k < n && ipc::place_of(fleet, (#[trigger] ids[k])@) == Some((s, i))
}

/// The number of identifiers before the first one that no device has.
pub open spec fn known_ids(fleet: Seq<Seq<Device>>, ids: Seq<String>) -> int
    decreases ids.len(),
{
    if ids.len() == 0 || ipc::place_of(fleet, ids.first()@) is None {
        0
    } else {
        1 + known_ids(fleet, ids.drop_first())
    }
}

/// Whether the two fleets have the same identifiers in the same places.
pub open spec fn same_ids(a: Seq<Seq<Device>>, b: Seq<Seq<Device>>) -> bool {
    &&& a.len() == b.len()
    &&& forall|s: int| 0 <= s < a.len() ==> (#[trigger] a[s]).len() == b[s].len()
    &&& forall|s: int, i: int|
        0 <= s < a.len() && 0 <= i < a[s].len() ==> (#[trigger] a[s][i]).id@ == b[s][i].id@
}

proof fn lemma_same_place_in(a: Seq<Device>, b: Seq<Device>, id: Seq<char>)
    requires
        a.len() == b.len(),
        forall|i: int| 0 <= i < a.len() ==> (#[trigger] a[i]).id@ == b[i].id@,
    ensures
        ipc::place_in(a, id) == ipc::place_in(b, id),
    decreases a.len(),
{
    if a.len() > 0 {
        assert(a[0].id@ == b[0].id@);
        let x = a.drop_first();
        let y = b.drop_first();
        assert forall|i: int| 0 <= i < x.len() implies (#[trigger] x[i]).id@ == y[i].id@ by {
            assert(a[i + 1].id@ == b[i + 1].id@);
        }
        lemma_same_place_in(x, y, id);
    }
}

proof fn lemma_same_place(a: Seq<Seq<Device>>, b: Seq<Seq<Device>>, id: Seq<char>)
    requires
        same_ids(a, b),
    ensures
        ipc::place_of(a, id) == ipc::place_of(b, id),
    decreases a.len(),
{
    if a.len() > 0 {
        assert(a[0].len() == b[0].len());
        assert forall|i: int| 0 <= i < a[0].len() implies (#[trigger] a[0][i]).id@
            == b[0][i].id@ by {}
        lemma_same_place_in(a[0], b[0], id);
        let x = a.drop_first();
        let y = b.drop_first();
        assert forall|s: int| 0 <= s < x.len() implies (#[trigger] x[s]).len() == y[s].len() by {
            assert(a[s + 1].len() == b[s + 1].len());
        }
        assert forall|s: int, i: int| 0 <= s < x.len() && 0 <= i < x[s].len() implies (
        #[trigger] x[s][i]).id@ == y[s][i].id@ by {
            assert(a[s + 1][i].id@ == b[s + 1][i].id@);
        }
        lemma_same_place(x, y, id);
    }
}

proof fn lemma_same_known(a: Seq<Seq<Device>>, b: Seq<Seq<Device>>, ids: Seq<String>)
    requires
        same_ids(a, b),
    ensures
        known_ids(a, ids) == known_ids(b, ids),
        0 <= known_ids(a, ids) <= ids.len(),
    decreases ids.len(),
{
    if ids.len() > 0 {
        lemma_same_place(a, b, ids.first()@);
        lemma_same_known(a, b, ids.drop_first());
    }
}

/// A request to send devices their image again marks the devices that are named before the first
/// unknown one, and no others. It is granted just where no unknown one is named.
pub proof fn law_retry_marks_named_devices(fleet: Seq<Seq<Device>>, ids: Seq<String>)
    ensures
        ({
            let outcome = ipc::all_retried(fleet, ids);
            let n = known_ids(fleet, ids);
            &&& same_ids(fleet, outcome.0)
            &&& forall|s: int, i: int|
                0 <= s < fleet.len() && 0 <= i < fleet[s].len() ==> #[trigger] outcome.0[s][i]
                    == if named(fleet, ids, n, s, i) {
                    ipc::retried(fleet[s][i])
                } else {
                    fleet[s][i]
                }
            &&& 0 <= n <= ids.len()
            &&& outcome.1 == if n < ids.len() {
                Some(ids[n])
            } else {
                None
            }
        }),
    decreases ids.len(),
{
    if ids.len() > 0 {
        ipc::lemma_place_of(fleet, ids.first()@);
        match ipc::place_of(fleet, ids.first()@) {
            None => {},
            Some(place) => {
                let rest = ids.drop_first();
                let marked = ipc::with_device(
                    fleet,
                    place,
                    ipc::retried(fleet[place.0][place.1]),
                );
                assert(same_ids(fleet, marked));
                law_retry_marks_named_devices(marked, rest);
                lemma_same_known(fleet, marked, rest);
                let n = known_ids(fleet, ids);
                let outcome = ipc::all_retried(fleet, ids);
                assert forall|s: int, i: int|
                    0 <= s < fleet.len() && 0 <= i < fleet[s].len() implies (
                #[trigger] outcome.0[s][i]).id@ == fleet[s][i].id@ && outcome.0[s][i] == if named(
                    fleet,
                    ids,
                    n,
                    s,
                    i,
                ) {
                    ipc::retried(fleet[s][i])
                } else {
                    fleet[s][i]
                } by {
                    lemma_named(fleet, marked, ids, n, s, i);
                    assert(marked[s].len() == fleet[s].len());
                }
                assert forall|s: int| 0 <= s < fleet.len() implies (#[trigger] fleet[s]).len()
                    == outcome.0[s].len() by {
                    assert(marked[s].len() == outcome.0[s].len());
                    assert(marked[s].len() == fleet[s].len());
                }
                assert(n < ids.len() ==> ids[n] == rest[n - 1]);
            },
        }
    }
}

proof fn lemma_named(
    fleet: Seq<Seq<Device>>,
    marked: Seq<Seq<Device>>,
    ids: Seq<String>,
    n: int,
    s: int,
    i: int,
)
    requires
        0 < n <= ids.len(),
        same_ids(fleet, marked),
    ensures
        named(fleet, ids, n, s, i) <==> ipc::place_of(fleet, ids.first()@) == Some((s, i)) || named(
            marked,
            ids.drop_first(),
            n - 1,
            s,
            i,
        ),
{
    let rest = ids.drop_first();
    assert(ids[0] == ids.first());
    if named(fleet, ids, n, s, i) {
        let k = choose|k: int|
            0 <= k < n && ipc::place_of(fleet, (#[trigger] ids[k])@) == Some((s, i));
        lemma_same_place(fleet, marked, ids[k]@);
        if k > 0 {
            assert(rest[k - 1] == ids[k]);
        }
    }
    if named(marked, rest, n - 1, s, i) {
        let k = choose|k: int|
            0 <= k < n - 1 && ipc::place_of(marked, (#[trigger] rest[k])@) == Some((s, i));
        lemma_same_place(fleet, marked, rest[k]@);
        assert(ids[k + 1] == rest[k]);
    }
}

/// To ask twice for the same devices is to ask once.
pub proof fn law_retry_is_idempotent(fleet: Seq<Seq<Device>>, ids: Seq<String>)
    ensures
        ipc::all_retried(ipc::all_retried(fleet, ids).0, ids) == ipc::all_retried(fleet, ids),
{
    let once = ipc::all_retried(fleet, ids);
    let twice = ipc::all_retried(once.0, ids);
    let n = known_ids(fleet, ids);
    law_retry_marks_named_devices(fleet, ids);
    law_retry_marks_named_devices(once.0, ids);
    lemma_same_known(fleet, once.0, ids);
    assert forall|s: int| 0 <= s < fleet.len() implies #[trigger] once.0[s] == twice.0[s] by {
        assert(fleet[s].len() == once.0[s].len());
        assert forall|i: int| 0 <= i < once.0[s].len() implies once.0[s][i] == twice.0[s][i] by {
            assert forall|k: int| 0 <= k < ids.len() implies ipc::place_of(
                fleet,
                (#[trigger] ids[k])@,
            ) == ipc::place_of(once.0, ids[k]@) by {
                lemma_same_place(fleet, once.0, ids[k]@);
            }
            assert(named(fleet, ids, n, s, i) <==> named(once.0, ids, n, s, i));
        }
        assert(once.0[s] =~= twice.0[s]);
    }
    assert(once.0 =~= twice.0);
}

/// A request to downgrade a device changes the first device with that identifier, and no other.
pub proof fn law_downgrade_marks_one_device(
    request: Request,
    before: Seq<DeviceServer>,
    after: Seq<DeviceServer>,
    r: Result<IpcReply, IpcError>,
    s: int,
    i: int,
)
    requires
        ipc::downgrade_handled(request, before, after, r),
        r is Ok,
        0 <= s < before.len(),
        0 <= i < before[s].devices@.len(),
    ensures
        request.payload matches Some(Payload::Value(ValueData::String(Some(id)))) && after[s].devices@[i]
            == if ipc::place_of(ipc::fleet(before), id@) == Some((s, i)) {
            ipc::downgraded(before[s].devices@[i])
        } else {
            before[s].devices@[i]
        },
{
    let id = request.payload->0->Value_0->String_0->0;
    ipc::lemma_place_of(ipc::fleet(before), id@);
    assert(ipc::fleet(after)[s] == after[s].devices@);
    assert(ipc::fleet(before)[s] == before[s].devices@);
}

/// Requests neither add nor remove devices, nor change which devices they are, and so keep it that
/// no identifier occurs twice.
pub proof fn law_requests_keep_devices(
    request: Request,
    before: Seq<DeviceServer>,
    after: Seq<DeviceServer>,
    r: Result<IpcReply, IpcError>,
)
    requires
        ipc::handled(request, before, after, r),
    ensures
        after.len() == before.len(),
        same_ids(ipc::fleet(before), ipc::fleet(after)),
        forall|s: int|
            0 <= s < before.len() && server::distinct_ids(before[s].devices@)
                ==> server::distinct_ids((#[trigger] after[s]).devices@),
{
    let a = ipc::fleet(before);
    let b = ipc::fleet(after);
    match request.payload {
        Some(Payload::Value(ValueData::StringArray(ids))) => {
            law_retry_marks_named_devices(a, ipc::present(ids@));
        },
        Some(Payload::Value(ValueData::String(Some(id)))) => {
            ipc::lemma_place_of(a, id@);
        },
        _ => {},
    }
    assert(same_ids(a, b));
    assert forall|s: int|
        0 <= s < before.len() && server::distinct_ids(
            before[s].devices@,
        ) implies server::distinct_ids((#[trigger] after[s]).devices@) by {
        assert(a[s] == before[s].devices@);
        assert(b[s] == after[s].devices@);
        assert forall|i: int, j: int| 0 <= i < j < b[s].len() implies (#[trigger] b[s][i]).id@ != (
        #[trigger] b[s][j]).id@ by {
            assert(a[s].len() == b[s].len());
            assert(a[s][i].id@ == b[s][i].id@);
            assert(a[s][j].id@ == b[s][j].id@);
            assert(before[s].devices@[i].id@ != before[s].devices@[j].id@);
        }
    }
}

/// Whether the device service has a device with the identifier in the given place.
pub open spec fn stands_at(servers: Seq<DeviceServer>, id: Seq<char>, s: int, i: int) -> bool {
    &&& 0 <= s < servers.len()
    &&& 0 <= i < servers[s].devices@.len()
    &&& servers[s].devices@[i].id@ == id
}

/// Whether the first device with the identifier stands in the given place: no device of an earlier
/// device service has it, and none in an earlier place.
pub open spec fn stands_first(servers: Seq<DeviceServer>, id: Seq<char>, s: int, i: int) -> bool {
    &&& stands_at(servers, id, s, i)
    &&& forall|t: int, k: int| #[trigger]
        stands_at(servers, id, t, k) ==> s < t || (s == t && i <= k)
}

/// Whether some device of some device service has the identifier.
pub open spec fn somewhere(servers: Seq<DeviceServer>, id: Seq<char>) -> bool {
    exists|s: int, i: int| #[trigger] stands_at(servers, id, s, i)
}

/// Whether the device is to be looked at right away, even where it refused the last image, and, if
/// so, with firmware that is no update too; and whether it is else as it was.
pub open spec fn marked(before: Device, after: Device, downgrade: bool) -> bool {
    &&& after.next_check is Immediately
    &&& after.force_check
    &&& after.oneshot_fota_loop == (downgrade || before.oneshot_fota_loop)
    &&& after.id == before.id
    &&& after.last_skip_reason == before.last_skip_reason
    &&& after.req_service_config == before.req_service_config
}

/// Whether the device services have the same names, connections and numbers of devices.
pub open spec fn same_shape(before: Seq<DeviceServer>, after: Seq<DeviceServer>) -> bool {
    &&& after.len() == before.len()
    &&& forall|s: int|
        #![trigger after[s]]
        0 <= s < before.len() ==> {
            &&& after[s].name == before[s].name
            &&& after[s].req_service_config == before[s].req_service_config
            &&& after[s].devices@.len() == before[s].devices@.len()
        }
}

proof fn lemma_first_in(devices: Seq<Device>, id: Seq<char>)
    ensures
        match ipc::place_in(devices, id) {
            Some(i) => {
                &&& 0 <= i < devices.len()
                &&& devices[i].id@ == id
                &&& forall|k: int| 0 <= k < i ==> (#[trigger] devices[k]).id@ != id
            },
            None => forall|k: int| 0 <= k < devices.len() ==> (#[trigger] devices[k]).id@ != id,
        },
    decreases devices.len(),
{
    if devices.len() > 0 && devices.first().id@ != id {
        let rest = devices.drop_first();
        lemma_first_in(rest, id);
        assert forall|k: int| 0 < k < devices.len() implies #[trigger] devices[k] == rest[k - 1] by {}
    }
}

proof fn lemma_first_of(fleet: Seq<Seq<Device>>, id: Seq<char>)
    ensures
        match ipc::place_of(fleet, id) {
            Some((s, i)) => {
                &&& 0 <= s < fleet.len()
                &&& 0 <= i < fleet[s].len()
                &&& fleet[s][i].id@ == id
                &&& forall|t: int, k: int|
                    0 <= t < fleet.len() && 0 <= k < fleet[t].len() && (
                    #[trigger] fleet[t][k]).id@ == id ==> s < t || (s == t && i <= k)
            },
            None => forall|t: int, k: int|
                0 <= t < fleet.len() && 0 <= k < fleet[t].len() ==> (#[trigger] fleet[t][k]).id@
                    != id,
        },
    decreases fleet.len(),
{
    if fleet.len() > 0 {
        lemma_first_in(fleet[0], id);
        if ipc::place_in(fleet[0], id) is None {
            let rest = fleet.drop_first();
            lemma_first_of(rest, id);
            assert forall|t: int, k: int|
                0 < t < fleet.len() && 0 <= k < fleet[t].len() implies #[trigger] fleet[t][k]
                == rest[t - 1][k] by {}
        }
    }
}

proof fn lemma_place_is_first(servers: Seq<DeviceServer>, id: Seq<char>)
    ensures
        forall|s: int, i: int| #[trigger]
            stands_first(servers, id, s, i) <==> ipc::place_of(ipc::fleet(servers), id) == Some(
                (s, i),
            ),
        somewhere(servers, id) <==> ipc::place_of(ipc::fleet(servers), id) is Some,
{
    let fleet = ipc::fleet(servers);
    lemma_first_of(fleet, id);
    assert forall|t: int, k: int| #[trigger] stands_at(servers, id, t, k) <==> {
        &&& 0 <= t < fleet.len()
        &&& 0 <= k < fleet[t].len()
        &&& fleet[t][k].id@ == id
    } by {
        if 0 <= t < servers.len() {
            assert(fleet[t] == servers[t].devices@);
        }
    }
    match ipc::place_of(fleet, id) {
        Some((s, i)) => {
            assert(stands_at(servers, id, s, i));
            assert(stands_first(servers, id, s, i));
        },
        None => {},
    }
}

/// A request to downgrade a device is granted where a device of any device service has the
/// identifier, whatever the other device services hold. It marks the first such device, in the order
/// of the device services and of the places there, and changes no other one. It is refused for want
/// of the device only where no device of any device service has the identifier, and then nothing
/// changes.
pub proof fn law_downgrade_reaches_any_service(
    request: Request,
    before: Seq<DeviceServer>,
    after: Seq<DeviceServer>,
    r: Result<IpcReply, IpcError>,
    id: String,
)
    requires
        ipc::downgrade_handled(request, before, after, r),
        request.op == Method::Execute,
        request.payload == Some(Payload::Value(ValueData::String(Some(id)))),
    ensures
        forall|s: int, i: int| #[trigger]
            stands_at(before, id@, s, i) ==> r == Ok::<IpcReply, IpcError>(IpcReply::Null),
        r is Err ==> r == Err::<IpcReply, IpcError>(IpcError::NoDevice(id)),
        r is Err <==> forall|s: int, i: int|
            0 <= s < before.len() && 0 <= i < before[s].devices@.len() ==> (
            #[trigger] before[s].devices@[i]).id@ != id@,
        r is Err ==> after == before,
        same_shape(before, after),
        forall|s: int, i: int| #[trigger]
            stands_first(before, id@, s, i) ==> marked(
                before[s].devices@[i],
                after[s].devices@[i],
                true,
            ),
        forall|s: int, i: int|
            0 <= s < before.len() && 0 <= i < before[s].devices@.len() && !stands_first(
                before,
                id@,
                s,
                i,
            ) ==> #[trigger] after[s].devices@[i] == before[s].devices@[i],
        somewhere(before, id@) ==> exists|s: int, i: int| #[trigger]
            stands_first(before, id@, s, i),
{
    let a = ipc::fleet(before);
    let b = ipc::fleet(after);
    lemma_place_is_first(before, id@);
    ipc::lemma_place_of(a, id@);
    assert forall|s: int| 0 <= s < before.len() implies #[trigger] a[s] == before[s].devices@ by {}
    assert forall|s: int| 0 <= s < after.len() implies #[trigger] b[s] == after[s].devices@ by {}
    assert forall|s: int|
        #![trigger after[s]]
        0 <= s < before.len() implies after[s].devices@.len() == before[s].devices@.len()
        && after[s].same_service(before[s]) by {
        assert(a[s] == before[s].devices@);
        assert(b[s] == after[s].devices@);
    }
    assert forall|s: int, i: int|
        0 <= s < before.len() && 0 <= i < before[s].devices@.len() && !stands_first(
            before,
            id@,
            s,
            i,
        ) implies #[trigger] after[s].devices@[i] == before[s].devices@[i] by {
        assert(a[s] == before[s].devices@);
        assert(b[s] == after[s].devices@);
    }
    assert forall|s: int, i: int| #[trigger] stands_first(before, id@, s, i) implies marked(
        before[s].devices@[i],
        after[s].devices@[i],
        true,
    ) by {
        assert(a[s] == before[s].devices@);
        assert(b[s] == after[s].devices@);
    }
    if ipc::place_of(a, id@) is Some {
        let place = ipc::place_of(a, id@)->0;
        assert(stands_first(before, id@, place.0, place.1));
    } else {
        assert forall|s: int, i: int|
            0 <= s < before.len() && 0 <= i < before[s].devices@.len() implies (
        #[trigger] before[s].devices@[i]).id@ != id@ by {
            assert(!stands_at(before, id@, s, i));
        }
    }
    if r is Ok {
        let place = ipc::place_of(a, id@)->0;
        assert(before[place.0].devices@[place.1].id@ == id@);
    }
}

/// Whether the first `n` entries name only devices that some device service has, and the entry that
/// follows, if there is one, names a device that none has. Entries without a name do not count.
pub open spec fn known_up_to(
    servers: Seq<DeviceServer>,
    list: Seq<Option<String>>,
    n: int,
) -> bool {
    &&& 0 <= n <= list.len()
    &&& forall|k: int|
        0 <= k < n ==> (#[trigger] list[k] matches Some(id) ==> somewhere(servers, id@))
    &&& n < list.len() ==> list[n] is Some && !somewhere(servers, list[n]->0@)
}

/// Whether one of the first `n` entries names the device in the given place, that is, whether the
/// device is the first one with that identifier.
pub open spec fn is_named(
    servers: Seq<DeviceServer>,
    list: Seq<Option<String>>,
    n: int,
    s: int,
    i: int,
) -> bool {
    exists|k: int|
        0 <= k < n && (#[trigger] list[k]) is Some && stands_first(servers, list[k]->0@, s, i)
}

proof fn lemma_present_members(list: Seq<Option<String>>, id: String)
    ensures
        ipc::present(list).contains(id) <==> list.contains(Some(id)),
    decreases list.len(),
{
    let strings = ipc::present(list);
    if list.len() > 0 {
        let rest = list.drop_last();
        let fewer = ipc::present(rest);
        lemma_present_members(rest, id);
        if strings.contains(id) {
            let k = choose|k: int| 0 <= k < strings.len() && strings[k] == id;
            if k < fewer.len() {
                assert(fewer[k] == id);
                let m = choose|m: int| 0 <= m < rest.len() && rest[m] == Some(id);
                assert(list[m] == Some(id));
            } else {
                assert(list[list.len() - 1] == Some(id));
            }
        }
        if list.contains(Some(id)) {
            let m = choose|m: int| 0 <= m < list.len() && list[m] == Some(id);
            if m < rest.len() {
                assert(rest[m] == Some(id));
                let k = choose|k: int| 0 <= k < fewer.len() && fewer[k] == id;
                assert(strings[k] == id);
            } else {
                assert(strings[strings.len() - 1] == id);
            }
        }
    }
}

proof fn lemma_present_split(list: Seq<Option<String>>, n: int)
    requires
        0 <= n <= list.len(),
    ensures
        ipc::present(list) == ipc::present(list.take(n)) + ipc::present(list.skip(n)),
    decreases list.len(),
{
    if n == list.len() {
        assert(list.take(n) =~= list);
        assert(ipc::present(list.skip(n)) =~= Seq::empty());
        assert(ipc::present(list) =~= ipc::present(list.take(n)) + ipc::present(list.skip(n)));
    } else {
        let rest = list.drop_last();
        lemma_present_split(rest, n);
        assert(rest.take(n) =~= list.take(n));
        assert(list.skip(n).drop_last() =~= rest.skip(n));
        assert(list.skip(n).last() == list.last());
        assert(ipc::present(list) =~= ipc::present(list.take(n)) + ipc::present(list.skip(n)));
    }
}

proof fn lemma_known_ids(fleet: Seq<Seq<Device>>, ids: Seq<String>, m: int)
    requires
        0 <= m <= ids.len(),
        forall|k: int| 0 <= k < m ==> ipc::place_of(fleet, (#[trigger] ids[k])@) is Some,
        m < ids.len() ==> ipc::place_of(fleet, ids[m]@) is None,
    ensures
        known_ids(fleet, ids) == m,
    decreases ids.len(),
{
    if m > 0 {
        assert(ipc::place_of(fleet, ids[0]@) is Some);
        let rest = ids.drop_first();
        assert forall|k: int| 0 <= k < m - 1 implies ipc::place_of(
            fleet,
            (#[trigger] rest[k])@,
        ) is Some by {
            assert(rest[k] == ids[k + 1]);
        }
        lemma_known_ids(fleet, rest, m - 1);
    }
}

/// A request to send devices their image again marks, for each identifier that it names before the
/// first one that no device of any device service has, the first device with it, in the order of the
/// device services and of the places there, and changes no other one. It is granted just where every
/// identifier is that of a device of some device service, and refused by the first one that is not.
pub proof fn law_retry_reaches_any_service(
    request: Request,
    before: Seq<DeviceServer>,
    after: Seq<DeviceServer>,
    r: Result<IpcReply, IpcError>,
    list: Vec<Option<String>>,
    n: int,
)
    requires
        ipc::retry_handled(request, before, after, r),
        request.op == Method::Execute,
        request.payload == Some(Payload::Value(ValueData::StringArray(list))),
        known_up_to(before, list@, n),
    ensures
        n == list@.len() ==> r == Ok::<IpcReply, IpcError>(IpcReply::Null),
        n < list@.len() ==> r == Err::<IpcReply, IpcError>(IpcError::NoDevice(list@[n]->0)),
        same_shape(before, after),
        forall|s: int, i: int|
            #![trigger after[s].devices@[i]]
            0 <= s < before.len() && 0 <= i < before[s].devices@.len() ==> {
                &&& is_named(before, list@, n, s, i) ==> marked(
                    before[s].devices@[i],
                    after[s].devices@[i],
                    false,
                )
                &&& !is_named(before, list@, n, s, i) ==> after[s].devices@[i]
                    == before[s].devices@[i]
            },
{
    let a = ipc::fleet(before);
    let b = ipc::fleet(after);
    let ids = ipc::present(list@);
    let head = ipc::present(list@.take(n));
    let tail = ipc::present(list@.skip(n));
    let m = head.len() as int;
    lemma_present_split(list@, n);
    assert forall|k: int| 0 <= k < m implies ipc::place_of(a, (#[trigger] ids[k])@) is Some by {
        assert(head[k] == ids[k]);
        assert(head.contains(head[k]));
        lemma_present_members(list@.take(n), head[k]);
        let j = choose|j: int| 0 <= j < n && list@.take(n)[j] == Some(head[k]);
        assert(list@[j] == Some(head[k]));
        lemma_place_is_first(before, head[k]@);
    }
    if n < list@.len() {
        let rest = list@.skip(n);
        lemma_present_split(rest, 1);
        let none = rest.take(1).drop_last();
        assert(none.len() == 0);
        assert(ipc::present(none) == Seq::<String>::empty());
        assert(rest.take(1).last() == list@[n]);
        assert(ipc::present(rest.take(1)) =~= seq![list@[n]->0]);
        assert(tail[0] == list@[n]->0);
        assert(ids[m] == tail[0]);
        lemma_place_is_first(before, list@[n]->0@);
    } else {
        assert(tail =~= Seq::empty());
    }
    lemma_known_ids(a, ids, m);
    law_retry_marks_named_devices(a, ids);
    assert forall|s: int|
        #![trigger after[s]]
        0 <= s < before.len() implies after[s].devices@.len() == before[s].devices@.len()
        && after[s].same_service(before[s]) by {
        assert(a[s] == before[s].devices@);
        assert(b[s] == after[s].devices@);
        assert(a[s].len() == b[s].len());
    }
    assert forall|s: int, i: int|
        #![trigger after[s].devices@[i]]
        0 <= s < before.len() && 0 <= i < before[s].devices@.len() implies {
        &&& is_named(before, list@, n, s, i) ==> marked(
            before[s].devices@[i],
            after[s].devices@[i],
            false,
        )
        &&& !is_named(before, list@, n, s, i) ==> after[s].devices@[i] == before[s].devices@[i]
    } by {
        assert(a[s] == before[s].devices@);
        assert(b[s] == after[s].devices@);
        assert(b[s][i] == if named(a, ids, m, s, i) {
            ipc::retried(a[s][i])
        } else {
            a[s][i]
        });
        if named(a, ids, m, s, i) {
            let k = choose|k: int|
                0 <= k < m && ipc::place_of(a, (#[trigger] ids[k])@) == Some((s, i));
            assert(head[k] == ids[k]);
            assert(head.contains(head[k]));
            lemma_present_members(list@.take(n), head[k]);
            let j = choose|j: int| 0 <= j < n && list@.take(n)[j] == Some(head[k]);
            assert(list@[j] == Some(head[k]));
            lemma_place_is_first(before, head[k]@);
            assert(is_named(before, list@, n, s, i));
        }
        if is_named(before, list@, n, s, i) {
            let j = choose|j: int|
                0 <= j < n && (#[trigger] list@[j]) is Some && stands_first(
                    before,
                    list@[j]->0@,
                    s,
                    i,
                );
            let id = list@[j]->0;
            assert(list@.take(n)[j] == Some(id));
            assert(list@.take(n).contains(Some(id)));
            lemma_present_members(list@.take(n), id);
            let k = choose|k: int| 0 <= k < m && head[k] == id;
            assert(ids[k] == id);
            lemma_place_is_first(before, id@);
            assert(named(a, ids, m, s, i));
        }
    }
}

proof fn lemma_paths_differ()
    ensures
        encode_utf8("devices"@) != encode_utf8("downgrade"@),
        encode_utf8("devices"@) != encode_utf8("retry_upload"@),
        encode_utf8("downgrade"@) != encode_utf8("retry_upload"@),
{
    reveal_strlit("devices");
    reveal_strlit("downgrade");
    reveal_strlit("retry_upload");
    is_ascii_chars_encode_utf8("devices"@);
    is_ascii_chars_encode_utf8("downgrade"@);
    is_ascii_chars_encode_utf8("retry_upload"@);
    assert(encode_utf8("devices"@).len() == 7);
    assert(encode_utf8("downgrade"@).len() == 9);
    assert(encode_utf8("retry_upload"@).len() == 12);
}

/// A request is answered by the path that it names, if it is meant for this service: the devices are
/// answered with none, a downgrade and another upload by what they lead to, and everything else is
/// refused with its reason.
pub proof fn law_request_is_answered_by_its_path(
    request: Request,
    before: Seq<DeviceServer>,
    after: Seq<DeviceServer>,
    r: Result<IpcReply, IpcError>,
)
    requires
        ipc::handled(request, before, after, r),
    ensures
        match request.entity.kind {
            EntityKind::Gateway { service } => {
                let path = request.entity.path@;
                let ours = service@ == "fwrolloutd"@;
                &&& !ours ==> after == before && r == Err::<IpcReply, IpcError>(
                    IpcError::UnsupportedService(service),
                )
                &&& ours && path == encode_utf8("devices"@) ==> after == before && r == Ok::<
                    IpcReply,
                    IpcError,
                >(IpcReply::EmptyObject)
                &&& ours && path == encode_utf8("downgrade"@) ==> ipc::downgrade_handled(
                    request,
                    before,
                    after,
                    r,
                )
                &&& ours && path == encode_utf8("retry_upload"@) ==> ipc::retry_handled(
                    request,
                    before,
                    after,
                    r,
                )
                &&& ours && path != encode_utf8("devices"@) && path != encode_utf8("downgrade"@)
                    && path != encode_utf8("retry_upload"@) ==> after == before && r == Err::<
                    IpcReply,
                    IpcError,
                >(IpcError::UnsupportedPath)
            },
            _ => after == before && r == Err::<IpcReply, IpcError>(IpcError::UnsupportedEntityKind),
        },
{
    lemma_paths_differ();
}

/// A downgrade has to be executed, with a single text that is there, and another upload with a list
/// of texts. What is asked for in another way is refused, and nothing changes.
pub proof fn law_demand_has_to_be_executed(
    request: Request,
    before: Seq<DeviceServer>,
    after: Seq<DeviceServer>,
    r: Result<IpcReply, IpcError>,
    downgrade: bool,
)
    requires
        if downgrade {
            ipc::downgrade_handled(request, before, after, r)
        } else {
            ipc::retry_handled(request, before, after, r)
        },
    ensures
        request.op != Method::Execute ==> after == before && r == Err::<IpcReply, IpcError>(
            IpcError::UnsupportedOperation,
        ),
        request.op == Method::Execute ==> match request.payload {
            Some(Payload::Value(data)) => {
                let fits = if downgrade {
                    data matches ValueData::String(text) && text is Some
                } else {
                    data is StringArray
                };
                !fits ==> after == before && r == Err::<IpcReply, IpcError>(
                    IpcError::UnsupportedValueData,
                )
            },
            _ => after == before && r == Err::<IpcReply, IpcError>(IpcError::UnsupportedPayload),
        },
{
}

} // verus!
