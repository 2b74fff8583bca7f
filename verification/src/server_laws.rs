//! What holds of the devices of a device service, whatever happens to them.

use vstd::prelude::*;
use vstd::string::*;
use vstd::utf8::*;
use crate::clock::Timestamp;
use crate::device::{Device, DeviceStep, ProcessResult};
use crate::device_info;
use crate::device_info::{DeviceFault, DeviceInfo, DeviceInfos, ListedDevice};
use crate::index::ImageIndex;
use crate::protocol::{EntityKind, Method};
use crate::server;
use crate::server::{DeviceServer, LoadError, LoadEvent, LoadStep, ServerEvent, ServerStep};

verus! {

/// No identifier ever occurs twice among the devices of a device service: there is none at first,
/// and no event changes that.
pub proof fn law_identifiers_stay_distinct(
    before: DeviceServer,
    after: DeviceServer,
    event: ServerEvent,
    infos: Map<Seq<char>, DeviceInfo>,
    index: ImageIndex,
    now: Timestamp,
    step: ServerStep,
)
    requires
        after.processed(before, event, infos, index, now, step),
        server::distinct_ids(before.devices@),
    ensures
        server::distinct_ids(after.devices@),
{
    match event {
        ServerEvent::IndexRefreshed => {
            server::lemma_shuffle_keeps_devices(before.devices@, after.devices@);
        },
        _ => {},
    }
}

/// When the work begins, the devices are those that are described, no more and no less. A device
/// that was there before is as it was.
pub proof fn law_devices_are_the_described(
    before: DeviceServer,
    after: DeviceServer,
    infos: Map<Seq<char>, DeviceInfo>,
    index: ImageIndex,
    now: Timestamp,
    step: ServerStep,
)
    requires
        after.processed(before, ServerEvent::Begin, infos, index, now, step),
    ensures
        forall|id: Seq<char>|
            #![trigger infos.contains_key(id)]
            server::has_device(after.devices@, id) <==> infos.contains_key(id),
        forall|i: int|
            #![trigger before.devices@[i]]
            0 <= i < before.devices@.len() && infos.contains_key(before.devices@[i].id@)
                ==> after.devices@.contains(before.devices@[i]),
{
    let pred = server::known(infos);
    let kept = before.devices@.filter(pred);
    broadcast use vstd::seq_lib::group_filter_ensures;

    assert forall|id: Seq<char>|
        #![trigger infos.contains_key(id)]
        server::has_device(after.devices@, id) implies infos.contains_key(id) by {
        let i = choose|i: int|
            0 <= i < after.devices@.len() && (#[trigger] after.devices@[i]).id@ == id;
        if i < kept.len() {
            assert(after.devices@.take(kept.len() as int)[i] == after.devices@[i]);
            assert(kept.contains(kept[i]));
            assert(pred(kept[i]));
        }
    }
    assert forall|i: int|
        #![trigger before.devices@[i]]
        0 <= i < before.devices@.len() && infos.contains_key(
            before.devices@[i].id@,
        ) implies after.devices@.contains(before.devices@[i]) by {
        assert(pred(before.devices@[i]));
        assert(kept.contains(before.devices@[i]));
        let k = choose|k: int| 0 <= k < kept.len() && kept[k] == before.devices@[i];
        assert(after.devices@.take(kept.len() as int)[k] == after.devices@[k]);
    }
}

/// Work on one device leaves all other devices as they are.
pub proof fn law_other_devices_stay(
    before: DeviceServer,
    after: DeviceServer,
    event: ServerEvent,
    infos: Map<Seq<char>, DeviceInfo>,
    index: ImageIndex,
    now: Timestamp,
    step: ServerStep,
    position: usize,
    i: int,
)
    requires
        after.processed(before, event, infos, index, now, step),
        event == ServerEvent::Turn(position) || (event matches ServerEvent::TaskDone {
            position: p,
            ..
        } && p == position),
        0 <= i < before.devices@.len(),
        i != position,
    ensures
        after.devices@.len() == before.devices@.len(),
        after.devices@[i] == before.devices@[i],
{
}

/// Whether no two of the devices share an identifier.
pub open spec fn all_different(devices: Seq<Device>) -> bool {
    forall|i: int, j: int|
        0 <= i < devices.len() && 0 <= j < devices.len() && i != j ==> (#[trigger]
        devices[i]).id@ != (#[trigger] devices[j]).id@
}

/// When the work begins, every described device is there, every device that is there is described,
/// and no two share an identifier if none did before. A device that was there before is as it was,
/// and one that was not is new: looked at right away, with nothing demanded and nothing noted, and
/// reached like the others. Then the index is refreshed.
pub proof fn law_work_begins_with_the_described(
    before: DeviceServer,
    after: DeviceServer,
    infos: Map<Seq<char>, DeviceInfo>,
    index: ImageIndex,
    now: Timestamp,
    step: ServerStep,
)
    requires
        after.processed(before, ServerEvent::Begin, infos, index, now, step),
    ensures
        step is RefreshIndex,
        after.name == before.name,
        after.req_service_config == before.req_service_config,
        forall|id: Seq<char>| #[trigger]
            infos.contains_key(id) ==> exists|i: int|
                0 <= i < after.devices@.len() && (#[trigger] after.devices@[i]).id@ == id,
        forall|i: int|
            0 <= i < after.devices@.len() ==> infos.contains_key(
                (#[trigger] after.devices@[i]).id@,
            ),
        all_different(before.devices@) ==> all_different(after.devices@),
        forall|i: int|
            #![trigger before.devices@[i]]
            0 <= i < before.devices@.len() && infos.contains_key(before.devices@[i].id@)
                ==> after.devices@.contains(before.devices@[i]),
        forall|i: int|
            #![trigger after.devices@[i]]
            0 <= i < after.devices@.len() && !before.devices@.contains(after.devices@[i]) ==> {
                let device = after.devices@[i];
                &&& device.next_check is Immediately
                &&& !device.force_check
                &&& !device.oneshot_fota_loop
                &&& device.last_skip_reason is Never
                &&& device.req_service_config == before.req_service_config
                &&& forall|k: int|
                    0 <= k < before.devices@.len() ==> (#[trigger] before.devices@[k]).id@
                        != device.id@
            },
{
    law_devices_are_the_described(before, after, infos, index, now, step);
    let pred = server::known(infos);
    let kept = before.devices@.filter(pred);
    broadcast use vstd::seq_lib::group_filter_ensures;

    assert forall|id: Seq<char>| #[trigger] infos.contains_key(id) implies exists|i: int|
        0 <= i < after.devices@.len() && (#[trigger] after.devices@[i]).id@ == id by {
        assert(server::has_device(after.devices@, id));
    }
    assert forall|i: int| 0 <= i < after.devices@.len() implies infos.contains_key(
        (#[trigger] after.devices@[i]).id@,
    ) by {
        assert(server::has_device(after.devices@, after.devices@[i].id@));
    }
    if all_different(before.devices@) {
        assert(server::distinct_ids(before.devices@));
        assert forall|i: int, j: int|
            0 <= i < after.devices@.len() && 0 <= j < after.devices@.len() && i != j implies (
        #[trigger] after.devices@[i]).id@ != (#[trigger] after.devices@[j]).id@ by {
            assert(server::distinct_ids(after.devices@));
            if j < i {
                assert(after.devices@[j].id@ != after.devices@[i].id@);
            }
        }
    }
    assert forall|i: int|
        #![trigger after.devices@[i]]
        0 <= i < after.devices@.len() && !before.devices@.contains(after.devices@[i]) implies {
        let device = after.devices@[i];
        &&& device.next_check is Immediately
        &&& !device.force_check
        &&& !device.oneshot_fota_loop
        &&& device.last_skip_reason is Never
        &&& device.req_service_config == before.req_service_config
        &&& forall|k: int|
            0 <= k < before.devices@.len() ==> (#[trigger] before.devices@[k]).id@ != device.id@
    } by {
        if i < kept.len() {
            assert(after.devices@.take(kept.len() as int)[i] == after.devices@[i]);
            assert(kept.contains(kept[i]));
            before.devices@.lemma_filter_contains_rev(pred, kept[i]);
        }
    }
}

/// Whether the first device stood before the second one.
pub open spec fn stood_in_order(devices: Seq<Device>, first: Device, second: Device) -> bool {
    exists|i: int, j: int|
        0 <= i < j < devices.len() && #[trigger] devices[i] == first && #[trigger] devices[j]
            == second
}

proof fn lemma_filter_keeps_order(
    devices: Seq<Device>,
    pred: spec_fn(Device) -> bool,
    a: int,
    b: int,
)
    requires
        0 <= a < b < devices.filter(pred).len(),
    ensures
        stood_in_order(devices, devices.filter(pred)[a], devices.filter(pred)[b]),
    decreases devices.len(),
{
    reveal(Seq::filter);
    let kept = devices.filter(pred);
    let rest = devices.drop_last();
    let fewer = rest.filter(pred);
    if b < fewer.len() {
        lemma_filter_keeps_order(rest, pred, a, b);
        let (i, j) = choose|i: int, j: int|
            0 <= i < j < rest.len() && #[trigger] rest[i] == kept[a] && #[trigger] rest[j]
                == kept[b];
        assert(devices[i] == kept[a] && devices[j] == kept[b]);
    } else {
        assert(fewer[a] == kept[a]);
        assert(fewer.contains(fewer[a]));
        rest.lemma_filter_contains_rev(pred, fewer[a]);
        let i = choose|i: int| 0 <= i < rest.len() && rest[i] == fewer[a];
        let n = devices.len() - 1;
        assert(devices[i] == kept[a] && devices[n] == kept[b]);
    }
}

/// When the work begins, the devices that were there before come first, in the order in which they
/// stood, and the new ones follow.
pub proof fn law_new_devices_follow(
    before: DeviceServer,
    after: DeviceServer,
    infos: Map<Seq<char>, DeviceInfo>,
    index: ImageIndex,
    now: Timestamp,
    step: ServerStep,
    a: int,
    b: int,
)
    requires
        after.processed(before, ServerEvent::Begin, infos, index, now, step),
        0 <= a < b < after.devices@.len(),
    ensures
        before.devices@.contains(after.devices@[b]) ==> stood_in_order(
            before.devices@,
            after.devices@[a],
            after.devices@[b],
        ),
{
    let pred = server::known(infos);
    let kept = before.devices@.filter(pred);
    if b < kept.len() {
        assert(after.devices@.take(kept.len() as int)[a] == after.devices@[a]);
        assert(after.devices@.take(kept.len() as int)[b] == after.devices@[b]);
        lemma_filter_keeps_order(before.devices@, pred, a, b);
    } else if before.devices@.contains(after.devices@[b]) {
        let k = choose|k: int|
            0 <= k < before.devices@.len() && before.devices@[k] == after.devices@[b];
        assert(before.devices@[k].id@ == after.devices@[b].id@);
        assert(server::has_device(before.devices@, after.devices@[b].id@));
    }
}

/// The devices have their turns from the first place to the last: a device that is done yields to
/// the next place, a task keeps the place, and a device that ends all work ends it here too. Behind
/// the last place the device service is done.
pub proof fn law_devices_have_their_turns(
    before: DeviceServer,
    after: DeviceServer,
    event: ServerEvent,
    infos: Map<Seq<char>, DeviceInfo>,
    index: ImageIndex,
    now: Timestamp,
    step: ServerStep,
)
    requires
        after.processed(before, event, infos, index, now, step),
        before.devices@.len() <= usize::MAX,
    ensures
        after.name == before.name,
        after.req_service_config == before.req_service_config,
        event is IndexRefreshed ==> step == (ServerStep::Next { position: 0, notice: false }) && (
        forall|device: Device| #[trigger]
            after.devices@.contains(device) <==> before.devices@.contains(device))
            && after.devices@.to_multiset() == before.devices@.to_multiset(),
        event matches ServerEvent::Turn(position) ==> {
            &&& position >= before.devices@.len() ==> after.devices@ == before.devices@ && step
                == ServerStep::Finished(ProcessResult::ServerDone)
            &&& position < before.devices@.len() ==> turn_taken(
                before,
                after,
                position,
                before.devices@[position as int].processed(infos, index, now),
                step,
            )
        },
        event matches ServerEvent::TaskDone { position, report } ==> {
            &&& position >= before.devices@.len() ==> after.devices@ == before.devices@ && step
                == ServerStep::Finished(ProcessResult::ServerDone)
            &&& position < before.devices@.len() ==> turn_taken(
                before,
                after,
                position,
                before.devices@[position as int].resumed(report, now),
                step,
            )
        },
{
    if event is IndexRefreshed {
        server::lemma_shuffle_keeps_devices(before.devices@, after.devices@);
        before.devices@.to_multiset_ensures();
        after.devices@.to_multiset_ensures();
        assert forall|device: Device| #[trigger]
            after.devices@.contains(device) <==> before.devices@.contains(device) by {
            assert(after.devices@.contains(device) <==> after.devices@.to_multiset().count(device)
                > 0);
            assert(before.devices@.contains(device) <==> before.devices@.to_multiset().count(
                device,
            ) > 0);
        }
    }
}

/// Whether the device in the given place became what the turn made of it, the others stayed, and
/// the step of the device leads on as it should.
pub open spec fn turn_taken(
    before: DeviceServer,
    after: DeviceServer,
    position: usize,
    turn: (Device, DeviceStep),
    step: ServerStep,
) -> bool {
    &&& after.devices@.len() == before.devices@.len()
    &&& after.devices@[position as int] == turn.0
    &&& forall|i: int|
        0 <= i < before.devices@.len() && i != position ==> #[trigger] after.devices@[i]
            == before.devices@[i]
    &&& turn.1 matches DeviceStep::Run(task) ==> step == (ServerStep::Run { position, task })
    &&& turn.1 matches DeviceStep::Done { result, notice } ==> match result {
        ProcessResult::DeviceDone => step matches ServerStep::Next { position: next, notice: n }
            && next == position + 1 && n == notice,
        ProcessResult::ServerDone => step == ServerStep::Finished(ProcessResult::ServerDone),
        ProcessResult::EverythingDone => step == ServerStep::Finished(
            ProcessResult::EverythingDone,
        ),
    }
}

/// A device service is asked for its devices by a read of `devices` that is addressed to it, over
/// its own connection, with a minute for each; and its devices are known only where it answered
/// with success.
pub proof fn law_devices_are_asked_for(server: DeviceServer, event: LoadEvent, step: LoadStep)
    requires
        server.loaded(event, step),
    ensures
        step matches LoadStep::Connect { service, seconds } ==> event is Begin && service
            == server.req_service_config && seconds == 60,
        event is Begin ==> step is Connect,
        step matches LoadStep::Send { request, seconds } ==> {
            &&& event is Connected
            &&& seconds == 60
            &&& request.op == Method::Read
            &&& request.entity.path@ == encode_utf8("devices"@)
            &&& request.entity.kind == (EntityKind::Gateway { service: server.name })
            &&& request.payload is None
        },
        event is Connected ==> step is Send,
        step is Loaded <==> (event matches LoadEvent::Answered { success, .. } && success),
        step matches LoadStep::Failed(error) ==> match error {
            LoadError::NotConnected => event is ConnectTimedOut,
            LoadError::RequestFailed => event is RequestFailed,
            LoadError::NoAnswer => event is AnswerTimedOut,
            LoadError::Refused => event matches LoadEvent::Answered { success, .. } && !success,
        },
{
}

/// What is known after the answer of a device service whose devices differ in their identifiers: each
/// device that can be described has its own description, each one that cannot is reported with what
/// is wrong with it, and nothing else is known.
pub proof fn law_answer_is_taken_device_by_device(
    server: DeviceServer,
    devices: Vec<ListedDevice>,
    infos: DeviceInfos,
    faults: Vec<DeviceFault>,
    i: int,
)
    requires
        server.loaded(
            LoadEvent::Answered { success: true, devices },
            LoadStep::Loaded { infos, faults },
        ),
        0 <= i < devices@.len(),
        forall|a: int, b: int|
            0 <= a < b < devices@.len() ==> (#[trigger] devices@[a]).id@ != (#[trigger]
            devices@[b]).id@,
    ensures
        match device_info::device_info_of(devices@[i].device) {
            Ok(info) => infos@.contains_key(devices@[i].id@) && infos@[devices@[i].id@] == info,
            Err(error) => !infos@.contains_key(devices@[i].id@) && exists|k: int|
                0 <= k < faults@.len() && #[trigger] faults@[k] == (DeviceFault {
                    id: devices@[i].id,
                    error,
                }),
        },
        forall|id: Seq<char>| #[trigger]
            infos@.contains_key(id) ==> exists|k: int|
                0 <= k < devices@.len() && (#[trigger] devices@[k]).id@ == id,
        faults@.len() <= devices@.len(),
{
    lemma_described(devices@, i);
    assert forall|id: Seq<char>| #[trigger] infos@.contains_key(id) implies exists|k: int|
        0 <= k < devices@.len() && (#[trigger] devices@[k]).id@ == id by {
        lemma_described_ids(devices@, id);
    }
}

proof fn lemma_described_ids(devices: Seq<ListedDevice>, id: Seq<char>)
    requires
        device_info::described(devices).contains_key(id),
    ensures
        exists|k: int| 0 <= k < devices.len() && (#[trigger] devices[k]).id@ == id,
    decreases devices.len(),
{
    if devices.len() > 0 {
        let n = devices.len() - 1;
        if devices[n].id@ != id {
            lemma_described_ids(devices.drop_last(), id);
            let k = choose|k: int|
                0 <= k < devices.drop_last().len() && (#[trigger] devices.drop_last()[k]).id@
                    == id;
            assert(devices[k].id@ == id);
        }
    }
}

proof fn lemma_described(devices: Seq<ListedDevice>, i: int)
    requires
        0 <= i < devices.len(),
        forall|a: int, b: int|
            0 <= a < b < devices.len() ==> (#[trigger] devices[a]).id@ != (#[trigger]
            devices[b]).id@,
    ensures
        match device_info::device_info_of(devices[i].device) {
            Ok(info) => device_info::described(devices).contains_key(devices[i].id@)
                && device_info::described(devices)[devices[i].id@] == info,
            Err(error) => !device_info::described(devices).contains_key(devices[i].id@)
                && exists|k: int|
                0 <= k < device_info::undescribed(devices).len()
                    && #[trigger] device_info::undescribed(devices)[k] == (DeviceFault {
                    id: devices[i].id,
                    error,
                }),
        },
        device_info::undescribed(devices).len() <= devices.len(),
    decreases devices.len(),
{
    let rest = devices.drop_last();
    let n = devices.len() - 1;
    assert forall|a: int, b: int| 0 <= a < b < rest.len() implies (#[trigger] rest[a]).id@ != (
    #[trigger] rest[b]).id@ by {
        assert(devices[a].id@ != devices[b].id@);
    }
    if i < n {
        assert(rest[i] == devices[i]);
        lemma_described(rest, i);
        assert(devices[i].id@ != devices[n].id@);
        if device_info::device_info_of(devices[i].device) is Err {
            let fault = DeviceFault {
                id: devices[i].id,
                error: device_info::device_info_of(devices[i].device)->Err_0,
            };
            let k = choose|k: int|
                0 <= k < device_info::undescribed(rest).len()
                    && #[trigger] device_info::undescribed(rest)[k] == fault;
            assert(device_info::undescribed(devices)[k] == fault);
        }
    } else {
        if device_info::described(rest).contains_key(devices[n].id@) {
            lemma_described_ids(rest, devices[n].id@);
            let k = choose|k: int| 0 <= k < rest.len() && (#[trigger] rest[k]).id@ == devices[n].id@;
            assert(devices[k].id@ != devices[n].id@);
        }
        if n > 0 {
            lemma_described(rest, 0);
        }
        if device_info::device_info_of(devices[n].device) is Err {
            let k = device_info::undescribed(rest).len() as int;
            assert(device_info::undescribed(devices)[k].id == devices[n].id);
        }
    }
}

} // verus!
