//! What holds of a round, whatever happens in it.

use vstd::prelude::*;
use crate::clock::Timestamp;
use crate::device::{DeviceStep, DeviceTask, ProcessResult, TaskReport};
use crate::device_info;
use crate::device_info::DeviceInfos;
use crate::device_laws;
use crate::index::{ImageIndex, ImageIndexEntry};
use crate::protocol::FirmwareUpdateState;
use crate::report::Severity;
use crate::rollout;
use crate::rollout::{Cycle, CycleEnd, CycleEvent, CycleStep};
use crate::server;
use crate::server::{DeviceServer, ServerEvent, ServerStep};

verus! {

/// One step of a round: what had happened, what the round and the device services were and
/// became, and what was to be done next.
pub struct Turn<'a> {
    pub event: CycleEvent,
    pub index: ImageIndex<'a>,
    pub now: Timestamp,
    pub before: Cycle,
    pub servers_before: Seq<DeviceServer>,
    pub after: Cycle,
    pub servers_after: Seq<DeviceServer>,
    pub step: CycleStep,
}

impl<'a> Turn<'a> {
    /// Whether the turn is one that the round takes.
    pub open spec fn happens(self) -> bool {
        self.after.advanced(
            self.before,
            self.servers_before,
            self.servers_after,
            self.event,
            self.index,
            self.now,
            self.step,
        )
    }
}

/// Whether the event reports on the step.
pub open spec fn reports(step: CycleStep, event: CycleEvent) -> bool {
    match step {
        CycleStep::LoadIndex => event is IndexLoaded,
        CycleStep::ReportAliveness => event == CycleEvent::AlivenessReported,
        CycleStep::LoadDevices { .. } => event is DevicesLoaded,
        CycleStep::Visit { server } => event == (CycleEvent::Work {
            server,
            event: ServerEvent::Begin,
        }),
        CycleStep::Work { server, step } => {
            &&& event matches CycleEvent::Work { server: s, event: e }
            &&& s == server
            &&& match step {
                ServerStep::RefreshIndex => e == ServerEvent::IndexRefreshed,
                ServerStep::Next { position, .. } => e == ServerEvent::Turn(position),
                ServerStep::Run { position, task } => {
                    &&& e matches ServerEvent::TaskDone { position: p, report }
                    &&& p == position
                    &&& report.is_on(task)
                },
                ServerStep::Finished(_) => false,
            }
        },
        CycleStep::Ended(_) => false,
    }
}

/// Whether the turn in the given place goes on where the one before it ended.
pub open spec fn goes_on(run: Seq<Turn>, i: int) -> bool {
    &&& reports(run[i - 1].step, run[i].event)
    &&& run[i].before == run[i - 1].after
    &&& run[i].servers_before == run[i - 1].servers_after
}

/// Whether the turns are the beginning of a round, or all of it.
pub open spec fn is_round(run: Seq<Turn>) -> bool {
    &&& run.len() > 0
    &&& run[0].event == CycleEvent::Begin
    &&& forall|i: int| 0 <= i < run.len() ==> (#[trigger] run[i]).happens()
    &&& forall|i: int| 0 < i < run.len() ==> #[trigger] goes_on(run, i)
}

/// Whether the step is about the devices of a device service.
pub open spec fn works(step: CycleStep) -> bool {
    step is Visit || step is Work
}

/// Whether the step leaves the round in good order: it asks the device services one after the
/// other, and works on devices only when all have been asked and no device is fetching an image.
pub open spec fn in_order(cycle: Cycle, servers: Seq<DeviceServer>, step: CycleStep) -> bool {
    match step {
        CycleStep::LoadIndex => cycle.infos@.len() == 0,
        CycleStep::ReportAliveness => cycle.infos@.len() == 0,
        CycleStep::LoadDevices { server } => server == cycle.infos@.len() && server
            < servers.len(),
        CycleStep::Visit { server } => {
            &&& server < servers.len()
            &&& cycle.infos@.len() == servers.len()
            &&& !rollout::anyone_downloads(cycle.infos@)
        },
        CycleStep::Work { server, step } => {
            &&& server < servers.len()
            &&& cycle.infos@.len() == servers.len()
            &&& !rollout::anyone_downloads(cycle.infos@)
            &&& match step {
                ServerStep::RefreshIndex => true,
                ServerStep::Next { position, .. } => position
                    <= servers[server as int].devices@.len(),
                ServerStep::Run { position, .. } => position
                    < servers[server as int].devices@.len(),
                ServerStep::Finished(_) => false,
            }
        },
        CycleStep::Ended(_) => true,
    }
}

proof fn lemma_turn_in_order(turn: Turn)
    requires
        turn.happens(),
        turn.event == CycleEvent::Begin || exists|step: CycleStep| #[trigger]
            in_order(turn.before, turn.servers_before, step) && reports(step, turn.event),
        turn.servers_before.len() <= usize::MAX,
    ensures
        in_order(turn.after, turn.servers_after, turn.step),
        turn.servers_after.len() == turn.servers_before.len(),
{
    assert(turn.after.infos@.len() == 0 ==> !rollout::anyone_downloads(turn.after.infos@));
    if turn.event is Work {
        lemma_work(turn);
    }
}

/// The step of the device service that lies behind a turn.
spec fn inner_step(turn: Turn) -> ServerStep {
    choose|s: ServerStep|
        {
            &&& #[trigger] turn.servers_after[turn.event->server as int].processed(
                turn.servers_before[turn.event->server as int],
                turn.event->event,
                turn.before.infos@[turn.event->server as int]@,
                turn.index,
                turn.now,
                s,
            )
            &&& turn.step == rollout::cycle_step(
                turn.event->server as int,
                turn.servers_before.len() as int,
                s,
            )
        }
}

proof fn lemma_work(turn: Turn)
    requires
        turn.happens(),
        turn.event matches CycleEvent::Work { server, .. } && server < turn.servers_before.len()
            && server < turn.before.infos@.len(),
    ensures
        turn.servers_after[turn.event->server as int].processed(
            turn.servers_before[turn.event->server as int],
            turn.event->event,
            turn.before.infos@[turn.event->server as int]@,
            turn.index,
            turn.now,
            inner_step(turn),
        ),
        turn.step == rollout::cycle_step(
            turn.event->server as int,
            turn.servers_before.len() as int,
            inner_step(turn),
        ),
{
}

/// Whether some device of some device service is fetching an image.
pub open spec fn fetching(infos: Seq<DeviceInfos>) -> bool {
    exists|s: int, id: Seq<char>|
        0 <= s < infos.len() && #[trigger] infos[s]@.contains_key(id)
            && infos[s]@[id].firmware_update_state == FirmwareUpdateState::Downloading
}

/// A download is seen whichever device service and whichever device it is on.
pub proof fn law_downloads_are_seen_everywhere(infos: Seq<DeviceInfos>)
    ensures
        rollout::anyone_downloads(infos) <==> fetching(infos),
        forall|s: int|
            #![trigger infos[s]]
            0 <= s < infos.len() ==> (device_info::someone_downloads(infos[s]@)
                <==> exists|id: Seq<char>| #[trigger]
                infos[s]@.contains_key(id) && infos[s]@[id].firmware_update_state
                    == FirmwareUpdateState::Downloading),
{
    if fetching(infos) {
        let (s, id) = choose|s: int, id: Seq<char>|
            0 <= s < infos.len() && #[trigger] infos[s]@.contains_key(id)
                && infos[s]@[id].firmware_update_state == FirmwareUpdateState::Downloading;
        assert(device_info::someone_downloads(infos[s]@));
    }
    if rollout::anyone_downloads(infos) {
        let s = choose|s: int|
            0 <= s < infos.len() && device_info::someone_downloads((#[trigger] infos[s])@);
        let id = choose|id: Seq<char>| #[trigger]
            infos[s]@.contains_key(id) && infos[s]@[id].firmware_update_state
                == FirmwareUpdateState::Downloading;
        assert(infos[s]@.contains_key(id));
    }
}

/// A round begins with the index where there is none, and else goes right on; it ends where the
/// index cannot be loaded, which is reported loudly from the end of the first day on.
pub proof fn law_round_begins_with_the_index(
    before: Cycle,
    after: Cycle,
    servers_before: Seq<DeviceServer>,
    servers_after: Seq<DeviceServer>,
    event: CycleEvent,
    index: ImageIndex,
    now: Timestamp,
    step: CycleStep,
)
    requires
        after.advanced(before, servers_before, servers_after, event, index, now, step),
    ensures
        event is Begin ==> {
            &&& after.infos@.len() == 0
            &&& index.etag is None ==> step is LoadIndex
            &&& index.etag is Some ==> step is ReportAliveness
        },
        event matches CycleEvent::IndexLoaded { success, waited } ==> {
            &&& success ==> step is ReportAliveness
            &&& !success && waited < 24 * 60 * 60 ==> step == CycleStep::Ended(
                CycleEnd::NoIndex(Severity::Info),
            )
            &&& !success && waited >= 24 * 60 * 60 ==> step == CycleStep::Ended(
                CycleEnd::NoIndex(Severity::Error),
            )
        },
        event is IndexLoaded ==> after.infos@ == before.infos@,
        !(event is Work) ==> servers_after == servers_before,
{
}

/// A round asks the device services one after the other; it ends where one of them does not answer.
/// When all have been asked it ends where a device of any of them is fetching an image, and only
/// then goes on to the devices, beginning with the first device service.
pub proof fn law_round_looks_at_every_service(
    before: Cycle,
    after: Cycle,
    servers_before: Seq<DeviceServer>,
    servers_after: Seq<DeviceServer>,
    event: CycleEvent,
    index: ImageIndex,
    now: Timestamp,
    step: CycleStep,
)
    requires
        after.advanced(before, servers_before, servers_after, event, index, now, step),
        servers_before.len() <= usize::MAX,
        event is AlivenessReported || event is DevicesLoaded,
    ensures
        event == CycleEvent::DevicesLoaded(None) ==> after.infos@ == before.infos@ && step
            == CycleStep::Ended(CycleEnd::MissingInfos),
        event matches CycleEvent::DevicesLoaded(Some(infos)) ==> after.infos@.len()
            == before.infos@.len() + 1 && after.infos@.last() == infos && after.infos@.drop_last()
            == before.infos@,
        event is AlivenessReported ==> after.infos@ == before.infos@,
        event != CycleEvent::DevicesLoaded(None) ==> {
            let n = servers_before.len();
            let asked = after.infos@.len();
            &&& asked < n ==> step == (CycleStep::LoadDevices { server: asked as usize })
            &&& asked >= n && fetching(after.infos@) ==> step == CycleStep::Ended(
                CycleEnd::UploadInProgress,
            )
            &&& asked >= n && !fetching(after.infos@) && n > 0 ==> step == (CycleStep::Visit {
                server: 0,
            })
            &&& asked >= n && !fetching(after.infos@) && n == 0 ==> step == CycleStep::Ended(
                CycleEnd::Done,
            )
        },
{
    law_downloads_are_seen_everywhere(after.infos@);
    if event is DevicesLoaded && event != CycleEvent::DevicesLoaded(None) {
        assert(after.infos@.drop_last() =~= before.infos@);
    }
}

/// When a device service is done the next one has its turn, and after the last one the round is
/// over; when everything is done the round is over at once; and until then the work on the devices
/// of the device service goes on. The other device services are not touched.
pub proof fn law_services_have_their_turns(
    before: Cycle,
    after: Cycle,
    servers_before: Seq<DeviceServer>,
    servers_after: Seq<DeviceServer>,
    server: usize,
    event: ServerEvent,
    index: ImageIndex,
    now: Timestamp,
    step: CycleStep,
)
    requires
        after.advanced(
            before,
            servers_before,
            servers_after,
            CycleEvent::Work { server, event },
            index,
            now,
            step,
        ),
        server < servers_before.len() <= usize::MAX,
        server < before.infos@.len(),
    ensures
        after == before,
        servers_after.len() == servers_before.len(),
        forall|i: int|
            0 <= i < servers_before.len() && i != server ==> #[trigger] servers_after[i]
                == servers_before[i],
        exists|inner: ServerStep|
            {
                &&& #[trigger] servers_after[server as int].processed(
                    servers_before[server as int],
                    event,
                    before.infos@[server as int]@,
                    index,
                    now,
                    inner,
                )
                &&& inner == ServerStep::Finished(ProcessResult::EverythingDone) ==> step
                    == CycleStep::Ended(CycleEnd::Done)
                &&& inner is Finished && inner != ServerStep::Finished(
                    ProcessResult::EverythingDone,
                ) ==> step == if server + 1 < servers_before.len() {
                    CycleStep::Visit { server: (server + 1) as usize }
                } else {
                    CycleStep::Ended(CycleEnd::Done)
                }
                &&& !(inner is Finished) ==> step == (CycleStep::Work { server, step: inner })
            },
{
    let inner = choose|s: ServerStep|
        {
            &&& #[trigger] servers_after[server as int].processed(
                servers_before[server as int],
                event,
                before.infos@[server as int]@,
                index,
                now,
                s,
            )
            &&& step == rollout::cycle_step(server as int, servers_before.len() as int, s)
        };
    assert(servers_after[server as int].processed(
        servers_before[server as int],
        event,
        before.infos@[server as int]@,
        index,
        now,
        inner,
    ));
}

/// What is reported of a device service that there is not, or whose devices are not known, ends the
/// round and changes nothing.
pub proof fn law_unknown_service_ends_the_round(
    before: Cycle,
    after: Cycle,
    servers_before: Seq<DeviceServer>,
    servers_after: Seq<DeviceServer>,
    server: usize,
    event: ServerEvent,
    index: ImageIndex,
    now: Timestamp,
    step: CycleStep,
)
    requires
        after.advanced(
            before,
            servers_before,
            servers_after,
            CycleEvent::Work { server, event },
            index,
            now,
            step,
        ),
        server >= servers_before.len() || server >= before.infos@.len(),
    ensures
        after == before,
        servers_after == servers_before,
        step == CycleStep::Ended(CycleEnd::MissingInfos),
{
}

/// A round asks every device service for its devices before it works on any device, and works on
/// devices only where no device of any device service is fetching an image. So no image is sent
/// while another one is on its way.
pub proof fn law_no_work_beside_a_download(run: Seq<Turn>, i: int)
    requires
        is_round(run),
        run[0].servers_before.len() <= usize::MAX,
        0 <= i < run.len(),
    ensures
        works(run[i].step) ==> {
            &&& run[i].after.infos@.len() == run[i].servers_after.len()
            &&& !rollout::anyone_downloads(run[i].after.infos@)
            &&& forall|s: int, id: Seq<char>|
                0 <= s < run[i].after.infos@.len()
                    && #[trigger] run[i].after.infos@[s]@.contains_key(id)
                    ==> run[i].after.infos@[s]@[id].firmware_update_state
                    != FirmwareUpdateState::Downloading
        },
        in_order(run[i].after, run[i].servers_after, run[i].step),
        run[i].servers_after.len() == run[0].servers_before.len(),
    decreases i,
{
    assert(run[i].happens());
    if i > 0 {
        law_no_work_beside_a_download(run, i - 1);
        assert(goes_on(run, i));
        assert(in_order(run[i].before, run[i].servers_before, run[i - 1].step));
    }
    lemma_turn_in_order(run[i]);
    law_downloads_are_seen_everywhere(run[i].after.infos@);
}

/// Whether the turn reports that an image has been sent.
pub open spec fn sent(turn: Turn) -> bool {
    turn.event matches CycleEvent::Work { event, .. } && event matches ServerEvent::TaskDone {
        report,
        ..
    } && report == (TaskReport::Uploaded { success: true })
}

/// Once an image has been sent to a device the round is over: a round sends at most one image.
pub proof fn law_one_image_per_round(run: Seq<Turn>, i: int)
    requires
        is_round(run),
        run[0].servers_before.len() <= usize::MAX,
        0 <= i < run.len(),
        sent(run[i]),
    ensures
        run[i].step == CycleStep::Ended(CycleEnd::Done),
        i == run.len() - 1,
        forall|j: int| 0 <= j < run.len() && j != i ==> !sent(#[trigger] run[j]),
    decreases run.len() - i,
{
    assert(run[i].happens());
    lemma_sent_ends(run, i);
    if i + 1 < run.len() {
        assert(goes_on(run, i + 1));
    }
    assert forall|j: int| 0 <= j < run.len() && j != i implies !sent(#[trigger] run[j]) by {
        if sent(run[j]) {
            lemma_sent_ends(run, j);
            assert(goes_on(run, if j < i { j + 1 } else { i + 1 }));
        }
    }
}

proof fn lemma_sent_ends(run: Seq<Turn>, i: int)
    requires
        is_round(run),
        run[0].servers_before.len() <= usize::MAX,
        0 <= i < run.len(),
        sent(run[i]),
    ensures
        run[i].step == CycleStep::Ended(CycleEnd::Done),
{
    assert(run[i].happens());
    law_no_work_beside_a_download(run, i - 1);
    assert(goes_on(run, i));
    assert(in_order(run[i].before, run[i].servers_before, run[i - 1].step));
    lemma_work(run[i]);
    assert(inner_step(run[i]) == ServerStep::Finished(ProcessResult::EverythingDone));
}

/// Whether the turn looks at the device in the given place and offers it the image of the rule.
pub open spec fn offers(turn: Turn, server: usize, position: usize, entry: ImageIndexEntry) -> bool {
    let device = turn.servers_before[server as int].devices@[position as int];
    &&& turn.event == (CycleEvent::Work { server, event: ServerEvent::Turn(position) })
    &&& server < turn.servers_before.len()
    &&& server < turn.before.infos@.len()
    &&& position < turn.servers_before[server as int].devices@.len()
    &&& device_laws::image_of(
        device.processed(turn.before.infos@[server as int]@, turn.index, turn.now).1,
    ) == Some(entry)
}

/// Whether the rule was offered to the device in the given place, in the turn itself or in the one
/// before, after which an image was taken back for it.
pub open spec fn was_offered(
    run: Seq<Turn>,
    i: int,
    server: usize,
    position: usize,
    entry: ImageIndexEntry,
) -> bool {
    ||| offers(run[i], server, position, entry)
    ||| {
        &&& i > 0
        &&& offers(run[i - 1], server, position, entry)
        &&& run[i].event == (CycleEvent::Work {
            server,
            event: ServerEvent::TaskDone {
                position,
                report: TaskReport::Replaced { entry, success: true },
            },
        })
    }
}

/// A download is always one by the rule that was offered to the device.
proof fn lemma_download_was_offered(
    run: Seq<Turn>,
    i: int,
    server: usize,
    position: usize,
    entry: ImageIndexEntry,
)
    requires
        is_round(run),
        run[0].servers_before.len() <= usize::MAX,
        0 <= i < run.len(),
        run[i].step == (CycleStep::Work {
            server,
            step: ServerStep::Run { position, task: DeviceTask::Download(entry) },
        }),
    ensures
        was_offered(run, i, server, position, entry),
{
    lemma_run_origin(run, i, server, position, DeviceTask::Download(entry));
    if !(run[i].event->event is Turn) {
        lemma_run_origin(run, i - 1, server, position, DeviceTask::Replace(entry));
    }
}

/// The step that runs a task comes from a look at the device, or from the report on the task
/// before it.
proof fn lemma_run_origin(
    run: Seq<Turn>,
    i: int,
    server: usize,
    position: usize,
    task: DeviceTask,
)
    requires
        is_round(run),
        run[0].servers_before.len() <= usize::MAX,
        0 <= i < run.len(),
        run[i].step == (CycleStep::Work { server, step: ServerStep::Run { position, task } }),
    ensures
        i > 0,
        run[i].event matches CycleEvent::Work { server: s, event } && s == server,
        server < run[i].servers_before.len(),
        server < run[i].before.infos@.len(),
        position < run[i].servers_before[server as int].devices@.len(),
        ({
            let device = run[i].servers_before[server as int].devices@[position as int];
            ||| {
                &&& run[i].event->event == ServerEvent::Turn(position)
                &&& device.processed(
                    run[i].before.infos@[server as int]@,
                    run[i].index,
                    run[i].now,
                ).1 == DeviceStep::Run(task)
            }
            ||| {
                &&& run[i].event->event matches ServerEvent::TaskDone { position: p, report }
                &&& p == position
                &&& device.resumed(report, run[i].now).1 == DeviceStep::Run(task)
                &&& run[i - 1].step matches CycleStep::Work { server: s, step: ServerStep::Run {
                    position: q,
                    task: t,
                } }
                &&& s == server
                &&& q == position
                &&& report.is_on(t)
            }
        }),
{
    assert(run[i].happens());
    law_no_work_beside_a_download(run, i - 1);
    assert(goes_on(run, i));
    assert(in_order(run[i].before, run[i].servers_before, run[i - 1].step));
    lemma_work(run[i]);
    let devices = run[i].servers_before[server as int].devices;
    assert(devices.len() == devices@.len());
    assert(inner_step(run[i]) == (ServerStep::Run { position, task }));
}

/// An image that is sent in a round is the one that the download before it returned, for the same
/// device, and that download was by the rule that the device was offered.
pub proof fn law_round_sends_what_it_downloaded(
    run: Seq<Turn>,
    i: int,
    server: usize,
    position: usize,
    image: Vec<u8>,
)
    requires
        is_round(run),
        run[0].servers_before.len() <= usize::MAX,
        0 <= i < run.len(),
        run[i].step == (CycleStep::Work {
            server,
            step: ServerStep::Run { position, task: DeviceTask::Upload(image) },
        }),
    ensures
        i > 1,
        exists|entry: ImageIndexEntry|
            {
                &&& run[i - 1].step == (CycleStep::Work {
                    server,
                    step: ServerStep::Run { position, task: DeviceTask::Download(entry) },
                })
                &&& run[i].event == (CycleEvent::Work {
                    server,
                    event: ServerEvent::TaskDone {
                        position,
                        report: TaskReport::Downloaded { entry, image: Some(image) },
                    },
                })
                &&& #[trigger] was_offered(run, i - 1, server, position, entry)
            },
{
    lemma_run_origin(run, i, server, position, DeviceTask::Upload(image));
    let entry = run[i].event->event->report->Downloaded_entry;
    lemma_run_origin(run, i - 1, server, position, DeviceTask::Download(entry));
    lemma_download_was_offered(run, i - 1, server, position, entry);
}

/// How many tasks can still be done for a device, from the given one on.
pub open spec fn tasks_left(task: DeviceTask) -> int {
    match task {
        DeviceTask::Withdraw(_) => 1,
        DeviceTask::Replace(_) => 3,
        DeviceTask::Download(_) => 2,
        DeviceTask::Upload(_) => 1,
    }
}

/// How far a round is from its end when a step is to be done next: first by stages, then by parts
/// of a stage.
pub open spec fn distance(servers: Seq<DeviceServer>, step: CycleStep) -> (int, int) {
    let n = servers.len() as int;
    match step {
        CycleStep::LoadIndex => (3 * n + 4, 0),
        CycleStep::ReportAliveness => (3 * n + 3, 0),
        CycleStep::LoadDevices { server } => (3 * n + 2 - server, 0),
        CycleStep::Visit { server } => (2 * (n - server) + 1, 0),
        CycleStep::Work { server, step } => {
            let devices = servers[server as int].devices@.len() as int;
            (
                2 * (n - server),
                match step {
                    ServerStep::RefreshIndex => 5 * devices + 1,
                    ServerStep::Next { position, .. } => 5 * (devices - position),
                    ServerStep::Run { position, task } => 5 * (devices - position - 1)
                        + tasks_left(task),
                    ServerStep::Finished(_) => 0,
                },
            )
        },
        CycleStep::Ended(_) => (0, 0),
    }
}

/// A round comes to an end: each of its turns brings it closer.
pub proof fn law_round_ends(run: Seq<Turn>, i: int)
    requires
        is_round(run),
        run[0].servers_before.len() <= usize::MAX,
        0 < i < run.len(),
    ensures
        ({
            let before = distance(run[i - 1].servers_after, run[i - 1].step);
            let after = distance(run[i].servers_after, run[i].step);
            &&& after.0 >= 0 && after.1 >= 0
            &&& after.0 < before.0 || (after.0 == before.0 && after.1 < before.1)
        }),
{
    law_no_work_beside_a_download(run, i - 1);
    law_no_work_beside_a_download(run, i);
    assert(goes_on(run, i));
    assert(run[i].happens());
    if run[i].event is Work {
        lemma_work(run[i]);
        let server = run[i].event->server as int;
        let devices = run[i].servers_before[server].devices;
        assert(devices.len() == devices@.len());
        if run[i].event->event is IndexRefreshed {
            server::lemma_shuffle_keeps_devices(
                devices@,
                run[i].servers_after[server].devices@,
            );
        }
    }
}

} // verus!
