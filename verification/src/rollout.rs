//! One round of the service over all device services.
//!
//! A round makes sure that there is an index, learns which devices there are, and then works on
//! the devices of one device service after the other until an image is on its way to a device.

use vstd::prelude::*;
use vstd::string::*;
use crate::clock;
use crate::clock::Timestamp;
use crate::device::{ProcessResult, CHECK_DELAY_SECONDS};
use crate::device_info;
use crate::device_info::DeviceInfos;
use crate::index::ImageIndex;
use crate::report::Severity;
use crate::server::{DeviceServer, ServerEvent, ServerStep};

verus! {

/// Seconds in a day.
pub const DAY_SECONDS: u64 = 86_400;

/// A round: the descriptions of the devices, for the device services asked so far.
#[derive(Debug)]
pub struct Cycle {
    pub infos: Vec<DeviceInfos>,
}

/// What has happened in a round.
#[derive(Debug)]
pub enum CycleEvent {
    Begin,
    /// The index has been loaded, or not, `waited` seconds after the service was started.
    IndexLoaded { success: bool, waited: u64 },
    /// It has been reported that the service is alive, where that was due.
    AlivenessReported,
    /// The devices of the next device service have been described, or not.
    DevicesLoaded(Option<DeviceInfos>),
    /// Something happened to the work on the devices of the device service in this place.
    Work { server: usize, event: ServerEvent },
}

/// What to do next in a round.
#[derive(Debug)]
pub enum CycleStep {
    /// Load the index.
    LoadIndex,
    /// Report that the service is alive, where that is due.
    ReportAliveness,
    /// Describe the devices of the device service in this place.
    LoadDevices { server: usize },
    /// Begin to work on the devices of the device service in this place.
    Visit { server: usize },
    /// Go on with the work on the devices of the device service in this place.
    Work { server: usize, step: ServerStep },
    Ended(CycleEnd),
}

/// How a round ended.
#[derive(Clone, Copy, Debug, PartialEq, Eq, Structural)]
pub enum CycleEnd {
    /// There is no index. So loud is that to be reported.
    NoIndex(Severity),
    /// The devices of a device service are not known. One of them could be fetching an image.
    MissingInfos,
    /// A device is fetching an image.
    UploadInProgress,
    Done,
}

/// Whether a device of one of the device services is fetching an image.
pub open spec fn anyone_downloads(infos: Seq<DeviceInfos>) -> bool {
    exists|i: int| 0 <= i < infos.len() && device_info::someone_downloads((#[trigger] infos[i])@)
}

/// The step by which a round goes on, given the descriptions that it has so far.
pub open spec fn next_load(infos: Seq<DeviceInfos>, servers: int) -> CycleStep {
    if infos.len() < servers {
        CycleStep::LoadDevices { server: infos.len() as usize }
    } else if anyone_downloads(infos) {
        CycleStep::Ended(CycleEnd::UploadInProgress)
    } else {
        next_visit(0, servers)
    }
}

/// The step by which a round goes on with the device service in the given place, if there is one.
pub open spec fn next_visit(server: int, servers: int) -> CycleStep {
    if server < servers {
        CycleStep::Visit { server: server as usize }
    } else {
        CycleStep::Ended(CycleEnd::Done)
    }
}

/// What a step of the device service in the given place means for the round.
pub open spec fn cycle_step(server: int, servers: int, step: ServerStep) -> CycleStep {
    match step {
        ServerStep::Finished(ProcessResult::EverythingDone) => CycleStep::Ended(CycleEnd::Done),
        ServerStep::Finished(_) => next_visit(server + 1, servers),
        _ => CycleStep::Work { server: server as usize, step },
    }
}

/// How loud it is to be reported that there is still no index: softly on the first day.
pub open spec fn index_loudness(waited: u64) -> Severity {
    if waited < DAY_SECONDS {
        Severity::Info
    } else {
        Severity::Error
    }
}

impl Cycle {
    /// A round that is about to begin.
    pub fn new() -> (r: Cycle)
        ensures
            r.infos@ == Seq::<DeviceInfos>::empty(),
    {
        Cycle { infos: Vec::new() }
    }

    /// Whether `self`, `after` and `step` are what an event makes of the round `before` and the
    /// device services `servers`.
    pub open spec fn advanced(
        self,
        before: Cycle,
        servers: Seq<DeviceServer>,
        after: Seq<DeviceServer>,
        event: CycleEvent,
        index: ImageIndex,
        now: Timestamp,
        step: CycleStep,
    ) -> bool {
        match event {
            CycleEvent::Begin => {
                &&& self.infos@ == Seq::<DeviceInfos>::empty()
                &&& after == servers
                &&& step == if index.etag is None {
                    CycleStep::LoadIndex
                } else {
                    CycleStep::ReportAliveness
                }
            },
            CycleEvent::IndexLoaded { success, waited } => {
                &&& self == before
                &&& after == servers
                &&& step == if success {
                    CycleStep::ReportAliveness
                } else {
                    CycleStep::Ended(CycleEnd::NoIndex(index_loudness(waited)))
                }
            },
            CycleEvent::AlivenessReported => {
                &&& self == before
                &&& after == servers
                &&& step == next_load(before.infos@, servers.len() as int)
            },
            CycleEvent::DevicesLoaded(None) => {
                &&& self == before
                &&& after == servers
                &&& step == CycleStep::Ended(CycleEnd::MissingInfos)
            },
            CycleEvent::DevicesLoaded(Some(infos)) => {
                &&& self.infos@ == before.infos@.push(infos)
                &&& after == servers
                &&& step == next_load(self.infos@, servers.len() as int)
            },
            CycleEvent::Work { server, event } => {
                &&& self == before
                &&& if server < servers.len() && server < before.infos@.len() {
                    &&& after == servers.update(server as int, after[server as int])
                    &&& exists|s: ServerStep|
                        {
                            &&& #[trigger] after[server as int].processed(
                                servers[server as int],
                                event,
                                before.infos@[server as int]@,
                                index,
                                now,
                                s,
                            )
                            &&& step == cycle_step(server as int, servers.len() as int, s)
                        }
                } else {
                    &&& after == servers
                    &&& step == CycleStep::Ended(CycleEnd::MissingInfos)
                }
            },
        }
    }

    fn any_downloading(&self) -> (r: bool)
        ensures
            r == anyone_downloads(self.infos@),
    {
        let mut i: usize = 0;
        while i < self.infos.len()
            invariant
                i <= self.infos@.len(),
                forall|j: int|
                    0 <= j < i ==> !device_info::someone_downloads((#[trigger] self.infos@[j])@),
            decreases self.infos@.len() - i,
        {
            if self.infos[i].any_downloading() {
                return true;
            }
            i += 1;
        }
        false
    }

    fn go_on(&self, servers: usize) -> (r: CycleStep)
        ensures
            r == next_load(self.infos@, servers as int),
    {
        if self.infos.len() < servers {
            CycleStep::LoadDevices { server: self.infos.len() }
        } else if self.any_downloading() {
            CycleStep::Ended(CycleEnd::UploadInProgress)
        } else if 0 < servers {
            CycleStep::Visit { server: 0 }
        } else {
            CycleStep::Ended(CycleEnd::Done)
        }
    }

    /// Does a round at the given time, one step at a time.
    pub fn advance_at(
        &mut self,
        event: CycleEvent,
        servers: &mut Vec<DeviceServer>,
        index: &ImageIndex,
        now: Timestamp,
    ) -> (r: CycleStep)
        requires
            now.seconds + CHECK_DELAY_SECONDS <= i64::MAX,
        ensures
            final(self).advanced(
                *old(self),
                old(servers)@,
                final(servers)@,
                event,
                *index,
                now,
                r,
            ),
    {
        match event {
            CycleEvent::Begin => {
                self.infos = Vec::new();
                if index.etag.is_none() {
                    CycleStep::LoadIndex
                } else {
                    CycleStep::ReportAliveness
                }
            },
            CycleEvent::IndexLoaded { success, waited } => {
                if success {
                    CycleStep::ReportAliveness
                } else if waited < DAY_SECONDS {
                    CycleStep::Ended(CycleEnd::NoIndex(Severity::Info))
                } else {
                    CycleStep::Ended(CycleEnd::NoIndex(Severity::Error))
                }
            },
            CycleEvent::AlivenessReported => self.go_on(servers.len()),
            CycleEvent::DevicesLoaded(loaded) => match loaded {
                None => CycleStep::Ended(CycleEnd::MissingInfos),
                Some(infos) => {
                    self.infos.push(infos);
                    self.go_on(servers.len())
                },
            },
            CycleEvent::Work { server, event } => {
                if server >= servers.len() || server >= self.infos.len() {
                    return CycleStep::Ended(CycleEnd::MissingInfos);
                }
                let ghost before = servers@;
                let count: usize = servers.len();
                let step = servers[server].process_at(event, &self.infos[server], index, now);
                assert(servers@ =~= before.update(server as int, servers@[server as int]));
                match step {
                    ServerStep::Finished(result) => match result {
                        ProcessResult::EverythingDone => CycleStep::Ended(CycleEnd::Done),
                        _ => {
                            if server + 1 < count {
                                CycleStep::Visit { server: server + 1 }
                            } else {
                                CycleStep::Ended(CycleEnd::Done)
                            }
                        },
                    },
                    _ => CycleStep::Work { server, step },
                }
            },
        }
    }

    /// Does a round, one step at a time.
    pub fn advance(
        &mut self,
        event: CycleEvent,
        servers: &mut Vec<DeviceServer>,
        index: &ImageIndex,
    ) -> (r: CycleStep)
        ensures
            exists|now: Timestamp|
                now.wf() && 0 <= now.seconds <= clock::LAST_SECOND && #[trigger]
                    final(self).advanced(
                        *old(self),
                        old(servers)@,
                        final(servers)@,
                        event,
                        *index,
                        now,
                        r,
                    ),
    {
        self.advance_at(event, servers, index, clock::now())
    }
}

/// Whether it is time to report that the service is alive: once a day.
pub fn aliveness_due(elapsed: u64) -> (r: bool)
    ensures
        r == (elapsed > DAY_SECONDS),
{
    elapsed > DAY_SECONDS
}

/// The mark of the index, as it is reported.
pub fn index_label(index: &ImageIndex) -> (r: String)
    ensures
        r@ == match index.etag {
            Some(etag) => etag@,
            None => "No index etag"@,
        },
{
    match &index.etag {
        Some(etag) => etag.clone(),
        None => "No index etag".to_owned(),
    }
}

} // verus!
