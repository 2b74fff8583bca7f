//! One device, and what to do about its firmware.

use vstd::prelude::*;
use vstd::string::*;
use vstd::utf8::*;
use crate::clock;
use crate::clock::Timestamp;
use crate::config::ReqServiceConfig;
use crate::device_info::{DeviceInfo, DeviceInfos};
use crate::exchange;
use crate::exchange::{ExchangeEvent, ExchangeStep};
use crate::index;
use crate::index::{ImageIndex, ImageIndexEntry};
use crate::protocol::{
    Entity,
    EntityKind,
    FirmwareUpdateResult,
    FirmwareUpdateState,
    Method,
    Payload,
    Request,
    ValueData,
};
use crate::text::copy_bytes;

verus! {

/// Seconds for which a device is left alone where there is nothing to do or something failed.
pub const CHECK_DELAY_SECONDS: u32 = 3600;

/// How far the work goes that is done with a step.
#[derive(Clone, Copy, Debug, PartialEq, Eq, Structural)]
pub enum ProcessResult {
    /// Nothing more to do for this device.
    DeviceDone,
    /// Nothing more to do for the devices of this device service.
    ServerDone,
    /// Nothing more to do for any device.
    EverythingDone,
}

/// When a device is looked at again.
#[derive(Clone, Copy, Debug, PartialEq, Eq, Structural)]
pub enum NextCheck {
    Immediately,
    At(Timestamp),
}

/// Why a device was passed over.
#[derive(Debug)]
pub enum SkipReason {
    /// It was not passed over yet.
    Never,
    NoDeviceInfo,
    NoRule,
    Offline,
    NoUpdate(DeviceInfo),
    UploadFailed(FirmwareUpdateResult),
    /// The image of this version lies on the device already.
    AlreadyUploaded(String),
    BeingUpdated,
}

impl SkipReason {
    /// The place in the work at which a device is passed over for the reason.
    pub open spec fn place(self) -> int {
        match self {
            SkipReason::Never => 0,
            SkipReason::NoDeviceInfo => 1,
            SkipReason::NoRule => 2,
            SkipReason::Offline => 3,
            SkipReason::NoUpdate(_) => 4,
            SkipReason::UploadFailed(_) => 5,
            SkipReason::AlreadyUploaded(_) => 6,
            SkipReason::BeingUpdated => 7,
        }
    }

    /// Whether the reason comes with data.
    pub open spec fn has_data(self) -> bool {
        self is NoUpdate || self is UploadFailed || self is AlreadyUploaded
    }

    /// Whether two reasons of one place come with data that read the same, if they come with any.
    pub open spec fn same_data(self, other: SkipReason) -> bool {
        match (self, other) {
            (SkipReason::NoUpdate(a), SkipReason::NoUpdate(b)) => a.same(b),
            (SkipReason::UploadFailed(a), SkipReason::UploadFailed(b)) => a == b,
            (SkipReason::AlreadyUploaded(a), SkipReason::AlreadyUploaded(b)) => a@ == b@,
            _ => true,
        }
    }

    /// Whether two reasons are the same.
    pub open spec fn same(self, other: SkipReason) -> bool {
        match (self, other) {
            (SkipReason::Never, SkipReason::Never) => true,
            (SkipReason::NoDeviceInfo, SkipReason::NoDeviceInfo) => true,
            (SkipReason::NoRule, SkipReason::NoRule) => true,
            (SkipReason::Offline, SkipReason::Offline) => true,
            (SkipReason::NoUpdate(a), SkipReason::NoUpdate(b)) => a.same(b),
            (SkipReason::UploadFailed(a), SkipReason::UploadFailed(b)) => a == b,
            (SkipReason::AlreadyUploaded(a), SkipReason::AlreadyUploaded(b)) => a@ == b@,
            (SkipReason::BeingUpdated, SkipReason::BeingUpdated) => true,
            _ => false,
        }
    }

    /// Whether two reasons are the same.
    pub fn is_same(&self, other: &SkipReason) -> (r: bool)
        ensures
            r == self.same(*other),
    {
        match (self, other) {
            (SkipReason::Never, SkipReason::Never) => true,
            (SkipReason::NoDeviceInfo, SkipReason::NoDeviceInfo) => true,
            (SkipReason::NoRule, SkipReason::NoRule) => true,
            (SkipReason::Offline, SkipReason::Offline) => true,
            (SkipReason::NoUpdate(a), SkipReason::NoUpdate(b)) => a.reads_same(b),
            (SkipReason::UploadFailed(a), SkipReason::UploadFailed(b)) => *a == *b,
            (SkipReason::AlreadyUploaded(a), SkipReason::AlreadyUploaded(b)) => *a == *b,
            (SkipReason::BeingUpdated, SkipReason::BeingUpdated) => true,
            _ => false,
        }
    }
}

/// Work on a device that only the outside world can do.
#[derive(Debug)]
pub enum DeviceTask {
    /// Take back an image for which there is no rule any more.
    Withdraw(DeviceInfo),
    /// Take back an image in whose place the image of this rule goes.
    Replace(ImageIndexEntry),
    /// Download the image of this rule.
    Download(ImageIndexEntry),
    /// Send this image.
    Upload(Vec<u8>),
}

/// How a task went.
#[derive(Debug)]
pub enum TaskReport {
    Withdrawn { info: DeviceInfo, success: bool },
    Replaced { entry: ImageIndexEntry, success: bool },
    /// The image of the rule, if it could be downloaded.
    Downloaded { entry: ImageIndexEntry, image: Option<Vec<u8>> },
    Uploaded { success: bool },
}

impl TaskReport {
    /// Whether the report is about the task.
    pub open spec fn is_on(self, task: DeviceTask) -> bool {
        match (task, self) {
            (DeviceTask::Withdraw(a), TaskReport::Withdrawn { info: b, .. }) => a == b,
            (DeviceTask::Replace(a), TaskReport::Replaced { entry: b, .. }) => a == b,
            (DeviceTask::Download(a), TaskReport::Downloaded { entry: b, .. }) => a == b,
            (DeviceTask::Upload(_), TaskReport::Uploaded { .. }) => true,
            _ => false,
        }
    }

    /// Whether the task went well.
    pub open spec fn succeeds(self) -> bool {
        match self {
            TaskReport::Withdrawn { success, .. } => success,
            TaskReport::Replaced { success, .. } => success,
            TaskReport::Downloaded { image, .. } => image is Some,
            TaskReport::Uploaded { success } => success,
        }
    }
}

/// What to do next about a device.
#[derive(Debug)]
pub enum DeviceStep {
    /// Nothing more for now. `notice` says whether the device was passed over for a reason that
    /// is news.
    Done { result: ProcessResult, notice: bool },
    Run(DeviceTask),
}

/// A device of a device service.
#[derive(Debug)]
pub struct Device {
    pub id: String,
    pub next_check: NextCheck,
    /// Whether an image is sent again though the device refused the last one.
    pub force_check: bool,
    pub last_skip_reason: SkipReason,
    /// Whether, for once, firmware is sent that is no update.
    pub oneshot_fota_loop: bool,
    pub req_service_config: ReqServiceConfig,
}

/// Whether something lies on the device that has to be taken back where there is no rule for the
/// device: an image, or the mark of an image that it refused.
pub open spec fn holds_image(info: DeviceInfo) -> bool {
    ||| info.firmware_update_state == FirmwareUpdateState::Idle
        && !info.firmware_update_result.is_ready()
    ||| info.firmware_update_state == FirmwareUpdateState::DownloadComplete
}

impl Device {
    /// A device as it is first met.
    pub open spec fn fresh(self, id: Seq<char>, req_service_config: ReqServiceConfig) -> bool {
        &&& self.id@ == id
        &&& self.next_check == NextCheck::Immediately
        &&& !self.force_check
        &&& self.last_skip_reason == SkipReason::Never
        &&& !self.oneshot_fota_loop
        &&& self.req_service_config == req_service_config
    }

    /// A device as it is first met.
    pub fn new(id: String, req_service_config: ReqServiceConfig) -> (r: Device)
        ensures
            r.id == id,
            r.fresh(id@, req_service_config),
    {
        Device {
            id,
            next_check: NextCheck::Immediately,
            force_check: false,
            last_skip_reason: SkipReason::Never,
            oneshot_fota_loop: false,
            req_service_config,
        }
    }

    /// Whether the device is to be left alone for now.
    pub open spec fn is_delayed(self, now: Timestamp) -> bool {
        self.next_check matches NextCheck::At(next) && now.is_before(next)
    }

    /// The device, left alone for an hour.
    pub open spec fn delayed(self, now: Timestamp) -> Device {
        Device {
            next_check: NextCheck::At(now.later(CHECK_DELAY_SECONDS as int)),
            ..self
        }
    }

    /// The device with the reason noted for which it was passed over.
    pub open spec fn noted(self, reason: SkipReason) -> Device {
        if self.last_skip_reason.same(reason) {
            self
        } else {
            Device { last_skip_reason: reason, ..self }
        }
    }

    /// What becomes of a device that is passed over for a reason.
    pub open spec fn skipped(self, reason: SkipReason) -> (Device, DeviceStep) {
        (
            self.noted(reason),
            DeviceStep::Done {
                result: ProcessResult::DeviceDone,
                notice: !self.last_skip_reason.same(reason),
            },
        )
    }

    /// What becomes of a device for which there is no rule.
    pub open spec fn without_update(self, info: DeviceInfo, now: Timestamp) -> (
        Device,
        DeviceStep,
    ) {
        let (device, step) = self.skipped(SkipReason::NoUpdate(info));
        (device.delayed(now), step)
    }

    /// What becomes of a device for which there is an image.
    pub open spec fn offered(self, info: DeviceInfo, entry: ImageIndexEntry) -> (
        Device,
        DeviceStep,
    ) {
        match info.firmware_update_state {
            FirmwareUpdateState::Idle => if info.firmware_update_result.is_ready() {
                (self, DeviceStep::Run(DeviceTask::Download(entry)))
            } else if self.force_check {
                (
                    Device { force_check: false, ..self },
                    DeviceStep::Run(DeviceTask::Download(entry)),
                )
            } else {
                self.skipped(SkipReason::UploadFailed(info.firmware_update_result))
            },
            FirmwareUpdateState::Downloading => (
                self,
                DeviceStep::Done { result: ProcessResult::EverythingDone, notice: false },
            ),
            FirmwareUpdateState::DownloadComplete => if entry.pkg_version@ == info.pkg_version@ {
                self.skipped(SkipReason::AlreadyUploaded(entry.pkg_version))
            } else {
                (self, DeviceStep::Run(DeviceTask::Replace(entry)))
            },
            FirmwareUpdateState::Updating => self.skipped(SkipReason::BeingUpdated),
        }
    }

    /// What becomes of a device when it is looked at.
    pub open spec fn processed(
        self,
        infos: Map<Seq<char>, DeviceInfo>,
        index: ImageIndex,
        now: Timestamp,
    ) -> (Device, DeviceStep) {
        let info = infos[self.id@];
        let rules = index.index_file.firmware_updates@;
        if self.is_delayed(now) {
            (self, DeviceStep::Done { result: ProcessResult::DeviceDone, notice: false })
        } else if !infos.contains_key(self.id@) {
            self.skipped(SkipReason::NoDeviceInfo)
        } else if !index::covers(rules, info) {
            self.skipped(SkipReason::NoRule)
        } else if !info.online {
            self.skipped(SkipReason::Offline)
        } else {
            match index::chosen(rules, info, index.config.fota_loop || self.oneshot_fota_loop) {
                None => if holds_image(info) {
                    (self, DeviceStep::Run(DeviceTask::Withdraw(info)))
                } else {
                    self.without_update(info, now)
                },
                Some(entry) => Device { oneshot_fota_loop: false, ..self }.offered(info, entry),
            }
        }
    }

    /// What becomes of a device when a task has been done, well or not. An image that has been
    /// downloaded is the one that is sent.
    pub open spec fn resumed(self, report: TaskReport, now: Timestamp) -> (Device, DeviceStep) {
        let failed = DeviceStep::Done { result: ProcessResult::DeviceDone, notice: false };
        match report {
            TaskReport::Withdrawn { info, success } => if success {
                self.without_update(info, now)
            } else {
                (self.delayed(now), failed)
            },
            TaskReport::Replaced { entry, success } => if success {
                (self, DeviceStep::Run(DeviceTask::Download(entry)))
            } else {
                (self, failed)
            },
            TaskReport::Downloaded { image, .. } => match image {
                Some(image) => (self, DeviceStep::Run(DeviceTask::Upload(image))),
                None => (self.delayed(now), failed),
            },
            TaskReport::Uploaded { success } => if success {
                (self, DeviceStep::Done { result: ProcessResult::EverythingDone, notice: false })
            } else {
                (self.delayed(now), failed)
            },
        }
    }

    /// Whether the device is to be left alone at the given time.
    pub fn check_delayed_at(&self, now: Timestamp) -> (r: bool)
        ensures
            r == self.is_delayed(now),
    {
        match self.next_check {
            NextCheck::Immediately => false,
            NextCheck::At(next) => now.before(next),
        }
    }

    /// Whether the device is to be left alone for now.
    pub fn check_delayed(&self) -> (r: bool)
        ensures
            self.next_check == NextCheck::Immediately ==> !r,
            exists|now: Timestamp|
                now.wf() && 0 <= now.seconds <= clock::LAST_SECOND && r == #[trigger]
                    self.is_delayed(now),
    {
        self.check_delayed_at(clock::now())
    }

    /// Leaves the device alone for an hour from the given time on.
    pub fn delay_check_at(&mut self, now: Timestamp)
        requires
            now.seconds + CHECK_DELAY_SECONDS <= i64::MAX,
        ensures
            *final(self) == old(self).delayed(now),
    {
        self.next_check = NextCheck::At(now.plus_seconds(CHECK_DELAY_SECONDS));
    }

    /// Leaves the device alone for an hour.
    pub fn delay_check_by_one_hour(&mut self)
        ensures
            exists|now: Timestamp|
                now.wf() && 0 <= now.seconds <= clock::LAST_SECOND && *final(self)
                    == #[trigger] old(self).delayed(now),
    {
        self.delay_check_at(clock::now());
    }

    /// Notes why the device is passed over. Whether that is news comes back.
    pub fn note_skip(&mut self, reason: SkipReason) -> (r: bool)
        ensures
            *final(self) == old(self).noted(reason),
            r == !old(self).last_skip_reason.same(reason),
    {
        if self.last_skip_reason.is_same(&reason) {
            false
        } else {
            self.last_skip_reason = reason;
            true
        }
    }

    fn skip(&mut self, reason: SkipReason) -> (r: DeviceStep)
        ensures
            (*final(self), r) == old(self).skipped(reason),
    {
        let notice = self.note_skip(reason);
        DeviceStep::Done { result: ProcessResult::DeviceDone, notice }
    }

    fn skip_without_update(&mut self, info: DeviceInfo, now: Timestamp) -> (r: DeviceStep)
        requires
            now.seconds + CHECK_DELAY_SECONDS <= i64::MAX,
        ensures
            (*final(self), r) == old(self).without_update(info, now),
    {
        let step = self.skip(SkipReason::NoUpdate(info));
        self.delay_check_at(now);
        step
    }

    fn offer(&mut self, info: &DeviceInfo, entry: &ImageIndexEntry) -> (r: DeviceStep)
        ensures
            (*final(self), r) == old(self).offered(*info, *entry),
    {
        match info.firmware_update_state {
            FirmwareUpdateState::Idle => {
                if info.firmware_update_result.ready() {
                    return DeviceStep::Run(DeviceTask::Download(entry.clone()));
                }
                // The device refused the last image.
                if self.force_check {
                    // An upload was asked for, once. Another refused image is not sent again.
                    self.force_check = false;
                    DeviceStep::Run(DeviceTask::Download(entry.clone()))
                } else {
                    self.skip(SkipReason::UploadFailed(info.firmware_update_result))
                }
            },
            // No second image is sent while one is on its way, not even to another device.
            FirmwareUpdateState::Downloading => {
                DeviceStep::Done { result: ProcessResult::EverythingDone, notice: false }
            },
            FirmwareUpdateState::DownloadComplete => {
                if entry.pkg_version == info.pkg_version {
                    self.skip(SkipReason::AlreadyUploaded(entry.pkg_version.clone()))
                } else {
                    DeviceStep::Run(DeviceTask::Replace(entry.clone()))
                }
            },
            // What runs on the device is not known for sure, but no upload is going on.
            FirmwareUpdateState::Updating => self.skip(SkipReason::BeingUpdated),
        }
    }

    /// Looks at the device at the given time.
    pub fn process_at(&mut self, infos: &DeviceInfos, index: &ImageIndex, now: Timestamp) -> (r:
        DeviceStep)
        requires
            now.seconds + CHECK_DELAY_SECONDS <= i64::MAX,
        ensures
            (*final(self), r) == old(self).processed(infos@, *index, now),
    {
        if self.check_delayed_at(now) {
            return DeviceStep::Done { result: ProcessResult::DeviceDone, notice: false };
        }
        let info = match infos.get(&self.id) {
            Some(info) => info,
            None => {
                return self.skip(SkipReason::NoDeviceInfo);
            },
        };
        if !index.has_rule(info) {
            return self.skip(SkipReason::NoRule);
        }
        if !info.online {
            return self.skip(SkipReason::Offline);
        }
        match index.find_update(info, self.oneshot_fota_loop) {
            None => {
                let refused = match info.firmware_update_state {
                    FirmwareUpdateState::Idle => !info.firmware_update_result.ready(),
                    FirmwareUpdateState::DownloadComplete => true,
                    _ => false,
                };
                if refused {
                    // The rule was taken back.
                    DeviceStep::Run(DeviceTask::Withdraw(info.clone()))
                } else {
                    self.skip_without_update(info.clone(), now)
                }
            },
            Some(entry) => {
                self.oneshot_fota_loop = false;
                self.offer(info, entry)
            },
        }
    }

    /// Looks at the device.
    pub fn process(&mut self, infos: &DeviceInfos, index: &ImageIndex) -> (r: DeviceStep)
        ensures
            exists|now: Timestamp|
                now.wf() && 0 <= now.seconds <= clock::LAST_SECOND && (*final(self), r)
                    == #[trigger] old(self).processed(infos@, *index, now),
    {
        self.process_at(infos, index, clock::now())
    }

    /// Goes on with the device at the given time, when a task has been done, well or not.
    pub fn resume_at(&mut self, report: TaskReport, now: Timestamp) -> (r: DeviceStep)
        requires
            now.seconds + CHECK_DELAY_SECONDS <= i64::MAX,
        ensures
            (*final(self), r) == old(self).resumed(report, now),
    {
        let failed = DeviceStep::Done { result: ProcessResult::DeviceDone, notice: false };
        match report {
            TaskReport::Withdrawn { info, success } => {
                if success {
                    self.skip_without_update(info, now)
                } else {
                    self.delay_check_at(now);
                    failed
                }
            },
            TaskReport::Replaced { entry, success } => {
                if success {
                    DeviceStep::Run(DeviceTask::Download(entry))
                } else {
                    failed
                }
            },
            TaskReport::Downloaded { entry: _, image } => match image {
                Some(image) => DeviceStep::Run(DeviceTask::Upload(image)),
                None => {
                    self.delay_check_at(now);
                    failed
                },
            },
            TaskReport::Uploaded { success } => {
                if success {
                    DeviceStep::Done { result: ProcessResult::EverythingDone, notice: false }
                } else {
                    self.delay_check_at(now);
                    failed
                }
            },
        }
    }

    /// Goes on with the device, when a task has been done, well or not.
    pub fn resume(&mut self, report: TaskReport) -> (r: DeviceStep)
        ensures
            exists|now: Timestamp|
                now.wf() && 0 <= now.seconds <= clock::LAST_SECOND && (*final(self), r)
                    == #[trigger] old(self).resumed(report, now),
    {
        self.resume_at(report, clock::now())
    }

    /// Whether the request sends an image to the device.
    pub open spec fn sends(self, request: Request, image: Seq<u8>) -> bool {
        &&& request.op == Method::Write
        &&& request.entity.path@ == encode_utf8("firmware_update/0/package"@)
        &&& request.entity.kind == (EntityKind::Device { device: self.id })
        &&& request.payload matches Some(Payload::Value(ValueData::Bytes(data)))
        &&& data@ == image
    }

    fn upload_request(&self, data: &[u8]) -> (r: Request)
        ensures
            self.sends(r, data@),
    {
        Request {
            op: Method::Write,
            entity: Entity {
                path: "firmware_update/0/package".as_bytes_vec(),
                kind: EntityKind::Device { device: self.id.clone() },
            },
            payload: Some(Payload::Value(ValueData::Bytes(copy_bytes(data)))),
        }
    }

    /// Sends an image to the device, one step at a time.
    pub fn upload_firmware(&self, data: &[u8], event: ExchangeEvent) -> (r: ExchangeStep)
        ensures
            exists|request: Request|
                self.sends(request, data@) && r == #[trigger] exchange::exchanged(
                    self.req_service_config,
                    request,
                    event,
                ),
    {
        let request = self.upload_request(data);
        exchange::exchange(&self.req_service_config, request, event)
    }

    /// Takes an image back from the device, one step at a time: an image of a single zero byte is
    /// sent in its place.
    pub fn reset_upload_state(&self, event: ExchangeEvent) -> (r: ExchangeStep)
        ensures
            exists|request: Request|
                self.sends(request, seq![0u8]) && r == #[trigger] exchange::exchanged(
                    self.req_service_config,
                    request,
                    event,
                ),
    {
        let nothing: [u8; 1] = [0];
        assert(nothing@ =~= seq![0u8]);
        self.upload_firmware(&nothing, event)
    }
}

} // verus!
