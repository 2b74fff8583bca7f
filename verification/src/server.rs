//! The devices of one device service.

use vstd::prelude::*;
use vstd::seq_lib::*;
use vstd::string::*;
use vstd::utf8::*;
use crate::clock;
use crate::clock::Timestamp;
use crate::config::{Config, ReqServiceConfig};
use crate::device::{
    Device,
    DeviceStep,
    DeviceTask,
    ProcessResult,
    TaskReport,
    CHECK_DELAY_SECONDS,
};
use crate::device_info;
use crate::device_info::{DeviceFault, DeviceInfo, DeviceInfos, ListedDevice};
use crate::exchange::IPC_REQUEST_TIMEOUT;
use crate::index::ImageIndex;
use crate::protocol::{Entity, EntityKind, Method, Request};

verus! {

/// A device service and its devices.
#[derive(Debug)]
pub struct DeviceServer {
    pub devices: Vec<Device>,
    pub name: String,
    pub req_service_config: ReqServiceConfig,
}

/// Whether no identifier occurs twice.
pub open spec fn distinct_ids(devices: Seq<Device>) -> bool {
    forall|i: int, j: int|
        0 <= i < j < devices.len() ==> (#[trigger] devices[i]).id@ != (#[trigger] devices[j]).id@
}

/// Whether there is a device with the identifier.
pub open spec fn has_device(devices: Seq<Device>, id: Seq<char>) -> bool {
    exists|i: int| 0 <= i < devices.len() && (#[trigger] devices[i]).id@ == id
}

/// The devices that are described.
pub open spec fn known(infos: Map<Seq<char>, DeviceInfo>) -> spec_fn(Device) -> bool {
    |device: Device| infos.contains_key(device.id@)
}

/// Whether `after` is `before`, brought in line with the devices that are described: devices that
/// are not described are gone, the others are as they were and in the same order, and each
/// described device that was missing follows as one that is first met.
pub open spec fn in_line(
    before: Seq<Device>,
    after: Seq<Device>,
    infos: Map<Seq<char>, DeviceInfo>,
    req_service_config: ReqServiceConfig,
) -> bool {
    let kept = before.filter(known(infos));
    &&& kept.len() <= after.len()
    &&& after.take(kept.len() as int) == kept
    &&& forall|i: int|
        #![trigger after[i]]
        kept.len() <= i < after.len() ==> {
            &&& after[i].fresh(after[i].id@, req_service_config)
            &&& infos.contains_key(after[i].id@)
            &&& !has_device(before, after[i].id@)
        }
    &&& forall|id: Seq<char>| #[trigger] infos.contains_key(id) ==> has_device(after, id)
    &&& distinct_ids(before) ==> distinct_ids(after)
}

proof fn lemma_filter_distinct(devices: Seq<Device>, pred: spec_fn(Device) -> bool)
    requires
        distinct_ids(devices),
    ensures
        distinct_ids(devices.filter(pred)),
    decreases devices.len(),
{
    reveal(Seq::filter);
    if devices.len() > 0 {
        let rest = devices.drop_last();
        lemma_filter_distinct(rest, pred);
        let kept = rest.filter(pred);
        assert forall|i: int| 0 <= i < kept.len() implies (#[trigger] kept[i]).id@
            != devices.last().id@ by {
            assert(kept.contains(kept[i]));
            rest.lemma_filter_contains_rev(pred, kept[i]);
            let k = choose|k: int| 0 <= k < rest.len() && rest[k] == kept[i];
            assert(devices[k] == kept[i]);
        }
    }
}

proof fn lemma_filter_members(
    devices: Seq<Device>,
    infos: Map<Seq<char>, DeviceInfo>,
    id: Seq<char>,
)
    ensures
        has_device(devices.filter(known(infos)), id) <==> has_device(devices, id)
            && infos.contains_key(id),
{
    let pred = known(infos);
    let kept = devices.filter(pred);
    broadcast use vstd::seq_lib::group_filter_ensures;

    if has_device(kept, id) {
        let i = choose|i: int| 0 <= i < kept.len() && (#[trigger] kept[i]).id@ == id;
        assert(kept.contains(kept[i]));
        devices.lemma_filter_contains_rev(pred, kept[i]);
        let k = choose|k: int| 0 <= k < devices.len() && devices[k] == kept[i];
        assert(devices[k].id@ == id);
        assert(pred(kept[i]));
    }
    if has_device(devices, id) && infos.contains_key(id) {
        let k = choose|k: int| 0 <= k < devices.len() && (#[trigger] devices[k]).id@ == id;
        assert(pred(devices[k]));
        assert(kept.contains(devices[k]));
        let i = choose|i: int| 0 <= i < kept.len() && kept[i] == devices[k];
        assert(kept[i].id@ == id);
    }
}

/// A shuffle keeps the devices: what was there is there, and no identifier occurs twice that did
/// not before.
pub proof fn lemma_shuffle_keeps_devices(before: Seq<Device>, after: Seq<Device>)
    requires
        after.to_multiset() == before.to_multiset(),
    ensures
        after.len() == before.len(),
        forall|id: Seq<char>| has_device(after, id) <==> has_device(before, id),
        distinct_ids(before) ==> distinct_ids(after),
{
    broadcast use vstd::seq_lib::group_to_multiset_ensures;

    assert(after.len() == after.to_multiset().len());
    assert(before.len() == before.to_multiset().len());
    assert forall|d: Device| #[trigger] after.contains(d) <==> before.contains(d) by {
        after.to_multiset_ensures();
        before.to_multiset_ensures();
        assert(after.contains(d) <==> after.to_multiset().count(d) > 0);
        assert(before.contains(d) <==> before.to_multiset().count(d) > 0);
    }
    assert forall|id: Seq<char>| has_device(after, id) <==> has_device(before, id) by {
        if has_device(after, id) {
            let i = choose|i: int| 0 <= i < after.len() && (#[trigger] after[i]).id@ == id;
            assert(after.contains(after[i]));
            let k = choose|k: int| 0 <= k < before.len() && before[k] == after[i];
            assert(before[k].id@ == id);
        }
        if has_device(before, id) {
            let i = choose|i: int| 0 <= i < before.len() && (#[trigger] before[i]).id@ == id;
            assert(after.contains(before[i]));
            let k = choose|k: int| 0 <= k < after.len() && after[k] == before[i];
            assert(after[k].id@ == id);
        }
    }
    if distinct_ids(before) {
        assert(before.no_duplicates());
        before.lemma_multiset_has_no_duplicates();
        after.lemma_multiset_has_no_duplicates_conv();
        assert forall|i: int, j: int| 0 <= i < j < after.len() implies (#[trigger] after[i]).id@
            != (#[trigger] after[j]).id@ by {
            assert(after.contains(after[i]));
            assert(after.contains(after[j]));
            let k = choose|k: int| 0 <= k < before.len() && before[k] == after[i];
            let l = choose|l: int| 0 <= l < before.len() && before[l] == after[j];
            assert(k != l);
            if k < l {
                assert(before[k].id@ != before[l].id@);
            } else {
                assert(before[l].id@ != before[k].id@);
            }
        }
    }
}

/// Calls `rand::seq::SliceRandom::shuffle` with `rand::thread_rng`: the same devices in an order
/// that chance decides.
#[verifier::external_body]
fn shuffle(devices: &mut Vec<Device>)
    ensures
        final(devices)@.to_multiset() == old(devices)@.to_multiset(),
{
    rand::seq::SliceRandom::shuffle(devices.as_mut_slice(), &mut rand::thread_rng())
}

/// What has happened to the question which devices a device service has.
#[derive(Debug)]
pub enum LoadEvent {
    Begin,
    Connected,
    /// It took too long to connect.
    ConnectTimedOut,
    /// The request could not be sent, or its answer not be read.
    RequestFailed,
    /// It took too long to answer.
    AnswerTimedOut,
    Answered { success: bool, devices: Vec<ListedDevice> },
}

/// What to do next to learn which devices a device service has.
#[derive(Debug)]
pub enum LoadStep {
    /// Connect to the device service, within so many seconds.
    Connect { service: ReqServiceConfig, seconds: u64 },
    /// Send the request, and take the answer within so many seconds.
    Send { request: Request, seconds: u64 },
    /// The devices are described. Those that cannot be described are reported.
    Loaded { infos: DeviceInfos, faults: Vec<DeviceFault> },
    Failed(LoadError),
}

/// Why the devices of a device service are not known.
#[derive(Clone, Copy, Debug, PartialEq, Eq, Structural)]
pub enum LoadError {
    NotConnected,
    RequestFailed,
    NoAnswer,
    /// The device service refused to list them.
    Refused,
}

/// What has happened to the work on the devices of a device service.
#[derive(Debug)]
pub enum ServerEvent {
    Begin,
    /// The index has been refreshed where that was due.
    IndexRefreshed,
    /// It is the turn of the device in this place.
    Turn(usize),
    /// A task for the device in this place has been done, well or not.
    TaskDone { position: usize, report: TaskReport },
}

/// What to do next about the devices of a device service.
#[derive(Debug)]
pub enum ServerStep {
    /// Refresh the index where that is due.
    RefreshIndex,
    /// Go on with the device in this place. `notice` says whether the device before it was passed
    /// over for a reason that is news.
    Next { position: usize, notice: bool },
    /// Do a task for the device in this place.
    Run { position: usize, task: DeviceTask },
    Finished(ProcessResult),
}

/// What a step of the device in the given place means for the device service.
pub open spec fn server_step(position: int, step: DeviceStep) -> ServerStep {
    match step {
        DeviceStep::Run(task) => ServerStep::Run { position: position as usize, task },
        DeviceStep::Done { result, notice } => if result == ProcessResult::DeviceDone {
            ServerStep::Next { position: (position + 1) as usize, notice }
        } else {
            ServerStep::Finished(result)
        },
    }
}

impl DeviceServer {
    /// Whether the device service is the same, whatever devices it has.
    pub open spec fn same_service(self, other: DeviceServer) -> bool {
        self.name == other.name && self.req_service_config == other.req_service_config
    }

    /// A device service whose devices are not known yet.
    pub fn new(name: &str, req_service_config: ReqServiceConfig) -> (r: DeviceServer)
        ensures
            r.devices@ == Seq::<Device>::empty(),
            r.name@ == name@,
            r.req_service_config == req_service_config,
    {
        DeviceServer { devices: Vec::new(), name: name.to_owned(), req_service_config }
    }

    /// Whether the request asks the device service for its devices.
    pub open spec fn lists(self, request: Request) -> bool {
        &&& request.op == Method::Read
        &&& request.entity.path@ == encode_utf8("devices"@)
        &&& request.entity.kind == (EntityKind::Gateway { service: self.name })
        &&& request.payload is None
    }

    fn list_devices(&self) -> (r: Request)
        ensures
            self.lists(r),
    {
        Request {
            op: Method::Read,
            entity: Entity {
                path: "devices".as_bytes_vec(),
                kind: EntityKind::Gateway { service: self.name.clone() },
            },
            payload: None,
        }
    }

    /// Whether the step is what an event leads to.
    pub open spec fn loaded(self, event: LoadEvent, step: LoadStep) -> bool {
        match event {
            LoadEvent::Begin => step == (LoadStep::Connect {
                service: self.req_service_config,
                seconds: IPC_REQUEST_TIMEOUT,
            }),
            LoadEvent::Connected => {
                &&& step matches LoadStep::Send { request, seconds }
                &&& self.lists(request)
                &&& seconds == IPC_REQUEST_TIMEOUT
            },
            LoadEvent::ConnectTimedOut => step == LoadStep::Failed(LoadError::NotConnected),
            LoadEvent::RequestFailed => step == LoadStep::Failed(LoadError::RequestFailed),
            LoadEvent::AnswerTimedOut => step == LoadStep::Failed(LoadError::NoAnswer),
            LoadEvent::Answered { success, devices } => if success {
                &&& step matches LoadStep::Loaded { infos, faults }
                &&& infos@ == device_info::described(devices@)
                &&& faults@ == device_info::undescribed(devices@)
            } else {
                step == LoadStep::Failed(LoadError::Refused)
            },
        }
    }

    /// Learns which devices the device service has, one step at a time. Devices that cannot be
    /// described are left out and reported.
    pub fn load_device_infos(&self, event: LoadEvent) -> (r: LoadStep)
        ensures
            self.loaded(event, r),
    {
        match event {
            LoadEvent::Begin => LoadStep::Connect {
                service: self.req_service_config.clone(),
                seconds: IPC_REQUEST_TIMEOUT,
            },
            LoadEvent::Connected => LoadStep::Send {
                request: self.list_devices(),
                seconds: IPC_REQUEST_TIMEOUT,
            },
            LoadEvent::ConnectTimedOut => LoadStep::Failed(LoadError::NotConnected),
            LoadEvent::RequestFailed => LoadStep::Failed(LoadError::RequestFailed),
            LoadEvent::AnswerTimedOut => LoadStep::Failed(LoadError::NoAnswer),
            LoadEvent::Answered { success, devices } => {
                if !success {
                    return LoadStep::Failed(LoadError::Refused);
                }
                let (infos, faults) = device_info::collect_device_infos(&devices);
                LoadStep::Loaded { infos, faults }
            },
        }
    }

    fn retain_known(&mut self, infos: &DeviceInfos)
        ensures
            final(self).devices@ == old(self).devices@.filter(known(infos@)),
            final(self).same_service(*old(self)),
    {
        let ghost all = self.devices@;
        let ghost pred = known(infos@);
        let ghost mut k: int = 0;
        let mut i: usize = 0;
        proof {
            reveal(Seq::filter);
            assert(all.take(0).filter(pred) =~= Seq::<Device>::empty());
            assert(all.skip(0) =~= all);
        }
        while i < self.devices.len()
            invariant
                pred == known(infos@),
                0 <= k <= all.len(),
                i == all.take(k).filter(pred).len(),
                self.devices@ == all.take(k).filter(pred) + all.skip(k),
                self.same_service(*old(self)),
            decreases all.len() - k,
        {
            let ghost kept = all.take(k).filter(pred);
            assert(self.devices@[i as int] == all.skip(k)[0]);
            proof {
                assert(all.take(k + 1) =~= all.take(k).push(all[k]));
                all.take(k).lemma_filter_push(all[k], pred);
                assert(all.skip(k).drop_first() =~= all.skip(k + 1));
            }
            if infos.get(&self.devices[i].id).is_some() {
                assert(pred(all[k]));
                assert(self.devices@ =~= kept.push(all[k]) + all.skip(k + 1));
                i += 1;
            } else {
                assert(!pred(all[k]));
                self.devices.remove(i);
                assert(self.devices@ =~= kept + all.skip(k + 1));
            }
            proof {
                k = k + 1;
            }
        }
        proof {
            assert(all.skip(k).len() == 0);
            assert(all.take(k) =~= all);
            assert(self.devices@ =~= all.filter(pred));
        }
    }

    fn has(&self, id: &String) -> (r: bool)
        ensures
            r == has_device(self.devices@, id@),
    {
        let mut i: usize = 0;
        while i < self.devices.len()
            invariant
                i <= self.devices.len(),
                forall|j: int| 0 <= j < i ==> (#[trigger] self.devices@[j]).id@ != id@,
            decreases self.devices.len() - i,
        {
            if self.devices[i].id == *id {
                return true;
            }
            i += 1;
        }
        false
    }

    /// Brings the devices in line with those that are described.
    pub fn sync_devices(&mut self, infos: &DeviceInfos)
        ensures
            in_line(
                old(self).devices@,
                final(self).devices@,
                infos@,
                old(self).req_service_config,
            ),
            final(self).same_service(*old(self)),
    {
        let ghost before = self.devices@;
        self.retain_known(infos);
        let ghost kept = self.devices@;
        proof {
            if distinct_ids(before) {
                lemma_filter_distinct(before, known(infos@));
            }
        }
        let mut i: usize = 0;
        while i < infos.len()
            invariant
                i <= infos.ids().len(),
                before == old(self).devices@,
                kept == before.filter(known(infos@)),
                kept.len() <= self.devices@.len(),
                self.devices@.take(kept.len() as int) == kept,
                forall|j: int|
                    #![trigger self.devices@[j]]
                    kept.len() <= j < self.devices@.len() ==> {
                        &&& self.devices@[j].fresh(
                            self.devices@[j].id@,
                            self.req_service_config,
                        )
                        &&& infos@.contains_key(self.devices@[j].id@)
                        &&& !has_device(before, self.devices@[j].id@)
                    },
                forall|j: int|
                    0 <= j < i ==> has_device(self.devices@, #[trigger] infos.ids()[j]),
                distinct_ids(before) ==> distinct_ids(self.devices@),
                self.same_service(*old(self)),
            decreases infos.ids().len() - i,
        {
            let record = infos.record(i);
            let ghost current = self.devices@;
            if !self.has(&record.id) {
                proof {
                    if has_device(before, record.id@) {
                        lemma_filter_members(before, infos@, record.id@);
                        let k = choose|k: int|
                            0 <= k < kept.len() && (#[trigger] kept[k]).id@ == record.id@;
                        assert(current[k] == current.take(kept.len() as int)[k]);
                    }
                }
                self.devices.push(
                    Device::new(record.id.clone(), self.req_service_config.clone()),
                );
                assert(self.devices@.take(kept.len() as int) =~= kept);
                assert(self.devices@[current.len() as int].id@ == record.id@);
            }
            proof {
                assert forall|j: int| 0 <= j < i implies has_device(
                    self.devices@,
                    #[trigger] infos.ids()[j],
                ) by {
                    let k = choose|k: int|
                        0 <= k < current.len() && (#[trigger] current[k]).id@ == infos.ids()[j];
                    assert(self.devices@[k] == current[k]);
                }
            }
            i += 1;
        }
        proof {
            use_type_invariant(infos);
            infos.lemma_ids();
            assert forall|id: Seq<char>| #[trigger] infos@.contains_key(id) implies has_device(
                self.devices@,
                id,
            ) by {
                assert(infos.ids().contains(id));
                let j = choose|j: int| 0 <= j < infos.ids().len() && infos.ids()[j] == id;
                assert(has_device(self.devices@, infos.ids()[j]));
            }
        }
    }

    fn conclude(position: usize, step: DeviceStep) -> (r: ServerStep)
        requires
            position < usize::MAX,
        ensures
            r == server_step(position as int, step),
    {
        match step {
            DeviceStep::Run(task) => ServerStep::Run { position, task },
            DeviceStep::Done { result, notice } => match result {
                ProcessResult::DeviceDone => ServerStep::Next { position: position + 1, notice },
                ProcessResult::ServerDone => ServerStep::Finished(ProcessResult::ServerDone),
                ProcessResult::EverythingDone => ServerStep::Finished(
                    ProcessResult::EverythingDone,
                ),
            },
        }
    }

    /// Whether `self` and `step` are what an event makes of `before`.
    pub open spec fn processed(
        self,
        before: DeviceServer,
        event: ServerEvent,
        infos: Map<Seq<char>, DeviceInfo>,
        index: ImageIndex,
        now: Timestamp,
        step: ServerStep,
    ) -> bool {
        &&& self.same_service(before)
        &&& match event {
            ServerEvent::Begin => {
                &&& in_line(
                    before.devices@,
                    self.devices@,
                    infos,
                    before.req_service_config,
                )
                &&& step == ServerStep::RefreshIndex
            },
            ServerEvent::IndexRefreshed => {
                &&& self.devices@.to_multiset() == before.devices@.to_multiset()
                &&& step == (ServerStep::Next { position: 0, notice: false })
            },
            ServerEvent::Turn(position) => if position < before.devices@.len() {
                let turn = before.devices@[position as int].processed(infos, index, now);
                &&& self.devices@ == before.devices@.update(position as int, turn.0)
                &&& step == server_step(position as int, turn.1)
            } else {
                &&& self.devices@ == before.devices@
                &&& step == ServerStep::Finished(ProcessResult::ServerDone)
            },
            ServerEvent::TaskDone { position, report } => if position < before.devices@.len() {
                let turn = before.devices@[position as int].resumed(report, now);
                &&& self.devices@ == before.devices@.update(position as int, turn.0)
                &&& step == server_step(position as int, turn.1)
            } else {
                &&& self.devices@ == before.devices@
                &&& step == ServerStep::Finished(ProcessResult::ServerDone)
            },
        }
    }

    /// Works on the devices at the given time, one step at a time.
    pub fn process_at(
        &mut self,
        event: ServerEvent,
        infos: &DeviceInfos,
        index: &ImageIndex,
        now: Timestamp,
    ) -> (r: ServerStep)
        requires
            now.seconds + CHECK_DELAY_SECONDS <= i64::MAX,
        ensures
            final(self).processed(*old(self), event, infos@, *index, now, r),
    {
        match event {
            ServerEvent::Begin => {
                self.sync_devices(infos);
                ServerStep::RefreshIndex
            },
            ServerEvent::IndexRefreshed => {
                shuffle(&mut self.devices);
                ServerStep::Next { position: 0, notice: false }
            },
            ServerEvent::Turn(position) => {
                if position < self.devices.len() {
                    let step = self.devices[position].process_at(infos, index, now);
                    Self::conclude(position, step)
                } else {
                    ServerStep::Finished(ProcessResult::ServerDone)
                }
            },
            ServerEvent::TaskDone { position, report } => {
                if position < self.devices.len() {
                    let step = self.devices[position].resume_at(report, now);
                    Self::conclude(position, step)
                } else {
                    ServerStep::Finished(ProcessResult::ServerDone)
                }
            },
        }
    }

    /// Works on the devices, one step at a time.
    pub fn process(&mut self, event: ServerEvent, infos: &DeviceInfos, index: &ImageIndex) -> (r:
        ServerStep)
        ensures
            exists|now: Timestamp|
                now.wf() && 0 <= now.seconds <= clock::LAST_SECOND && #[trigger]
                    final(self).processed(*old(self), event, infos@, *index, now, r),
    {
        self.process_at(event, infos, index, clock::now())
    }
}

/// The device services that are configured, none of whose devices are known yet.
pub fn configured_servers(config: &Config) -> (r: Vec<DeviceServer>)
    ensures
        r@.len() == config.device_servers@.len(),
        forall|i: int|
            #![trigger r@[i]]
            0 <= i < r@.len() ==> {
                &&& r@[i].devices@ == Seq::<Device>::empty()
                &&& r@[i].name@ == config.device_servers@[i]@
                &&& r@[i].req_service_config.socket_path@ == "/tmp/"@ + config.device_servers@[i]@
                    + "-command.ipc"@
                &&& r@[i].req_service_config.retry_interval == config.ipc_connect_retry_interval
            },
{
    let mut servers: Vec<DeviceServer> = Vec::new();
    let mut i: usize = 0;
    while i < config.device_servers.len()
        invariant
            i <= config.device_servers@.len(),
            servers@.len() == i,
            forall|j: int|
                #![trigger servers@[j]]
                0 <= j < i ==> {
                    &&& servers@[j].devices@ == Seq::<Device>::empty()
                    &&& servers@[j].name@ == config.device_servers@[j]@
                    &&& servers@[j].req_service_config.socket_path@ == "/tmp/"@
                        + config.device_servers@[j]@ + "-command.ipc"@
                    &&& servers@[j].req_service_config.retry_interval
                        == config.ipc_connect_retry_interval
                },
        decreases config.device_servers@.len() - i,
    {
        let name = config.device_servers[i].as_str();
        servers.push(
            DeviceServer::new(
                name,
                ReqServiceConfig::for_service(name, config.ipc_connect_retry_interval),
            ),
        );
        i += 1;
    }
    servers
}

} // verus!
