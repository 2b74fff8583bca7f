//! What holds of the way devices get their firmware.

use vstd::prelude::*;
use vstd::string::*;
use vstd::utf8::*;
use crate::clock::Timestamp;
use crate::config::ReqServiceConfig;
use crate::device;
use crate::device::{
    Device,
    DeviceStep,
    DeviceTask,
    NextCheck,
    ProcessResult,
    SkipReason,
    TaskReport,
    CHECK_DELAY_SECONDS,
};
use crate::device_info::DeviceInfo;
use crate::exchange::DOWNLOAD_TIMEOUT;
use crate::index;
use crate::index::{DownloadEvent, DownloadStep, ImageIndex, ImageIndexEntry};
use crate::ipc;
use crate::protocol::{
    EntityKind,
    FirmwareUpdateResult,
    FirmwareUpdateState,
    Method,
    Payload,
    Request,
    ValueData,
};

verus! {

/// The first rule that serves a device is the one that is chosen, and there is none just where no
/// rule serves the device.
pub proof fn law_first_rule_is_chosen(
    entries: Seq<ImageIndexEntry>,
    info: DeviceInfo,
    fota_loop: bool,
)
    ensures
        match index::chosen(entries, info, fota_loop) {
            Some(entry) => exists|i: int|
                {
                    &&& 0 <= i < entries.len()
                    &&& #[trigger] entries[i] == entry
                    &&& entry.serves(info, fota_loop)
                    &&& forall|j: int| 0 <= j < i ==> !(#[trigger] entries[j]).serves(info, fota_loop)
                },
            None => forall|i: int|
                0 <= i < entries.len() ==> !(#[trigger] entries[i]).serves(info, fota_loop),
        },
    decreases entries.len(),
{
    if entries.len() > 0 {
        let rest = entries.drop_first();
        assert(entries[0] == entries.first());
        assert forall|i: int| 0 < i < entries.len() implies #[trigger] entries[i] == rest[i - 1] by {}
        if !entries.first().serves(info, fota_loop) {
            law_first_rule_is_chosen(rest, info, fota_loop);
            match index::chosen(rest, info, fota_loop) {
                Some(entry) => {
                    let i = choose|i: int|
                        {
                            &&& 0 <= i < rest.len()
                            &&& #[trigger] rest[i] == entry
                            &&& entry.serves(info, fota_loop)
                            &&& forall|j: int|
                                0 <= j < i ==> !(#[trigger] rest[j]).serves(info, fota_loop)
                        };
                    assert(entries[i + 1] == entry);
                },
                None => {},
            }
        }
    }
}

/// The rule by which an image is about to be sent, if one is.
pub open spec fn image_of(step: DeviceStep) -> Option<ImageIndexEntry> {
    match step {
        DeviceStep::Run(DeviceTask::Replace(entry)) => Some(entry),
        DeviceStep::Run(DeviceTask::Download(entry)) => Some(entry),
        _ => None,
    }
}

/// A device is offered an image only if it is described, is online, is not to be left alone and is
/// not busy with an image, and only by the first rule of the index that serves it; a rule that is
/// no update serves it only where firmware is sent in a loop.
pub proof fn law_image_needs_rule(
    device: Device,
    infos: Map<Seq<char>, DeviceInfo>,
    index: ImageIndex,
    now: Timestamp,
)
    ensures
        image_of(device.processed(infos, index, now).1) matches Some(entry) ==> {
            let info = infos[device.id@];
            let rules = index.index_file.firmware_updates@;
            &&& infos.contains_key(device.id@)
            &&& info.online
            &&& !device.is_delayed(now)
            &&& info.firmware_update_state != FirmwareUpdateState::Downloading
            &&& info.firmware_update_state != FirmwareUpdateState::Updating
            &&& exists|i: int|
                {
                    &&& 0 <= i < rules.len()
                    &&& #[trigger] rules[i] == entry
                    &&& entry.fits(info)
                    &&& entry.update || index.config.fota_loop || device.oneshot_fota_loop
                    &&& forall|j: int|
                        0 <= j < i ==> !(#[trigger] rules[j]).serves(
                            info,
                            index.config.fota_loop || device.oneshot_fota_loop,
                        )
                }
        },
{
    law_first_rule_is_chosen(
        index.index_file.firmware_updates@,
        infos[device.id@],
        index.config.fota_loop || device.oneshot_fota_loop,
    );
}

/// While a device that there is an image for is fetching one, all work ends.
pub proof fn law_download_ends_all_work(
    device: Device,
    infos: Map<Seq<char>, DeviceInfo>,
    index: ImageIndex,
    now: Timestamp,
)
    requires
        !device.is_delayed(now),
        infos.contains_key(device.id@),
        infos[device.id@].online,
        infos[device.id@].firmware_update_state == FirmwareUpdateState::Downloading,
        index::chosen(
            index.index_file.firmware_updates@,
            infos[device.id@],
            index.config.fota_loop || device.oneshot_fota_loop,
        ) is Some,
    ensures
        device.processed(infos, index, now).1 == (DeviceStep::Done {
            result: ProcessResult::EverythingDone,
            notice: false,
        }),
{
    law_first_rule_is_chosen(
        index.index_file.firmware_updates@,
        infos[device.id@],
        index.config.fota_loop || device.oneshot_fota_loop,
    );
}

/// Whether the device is one that there is an image for, that is to be looked at, and that refused
/// the last image.
pub open spec fn refused(
    device: Device,
    infos: Map<Seq<char>, DeviceInfo>,
    index: ImageIndex,
    now: Timestamp,
) -> bool {
    let info = infos[device.id@];
    &&& !device.is_delayed(now)
    &&& infos.contains_key(device.id@)
    &&& info.online
    &&& info.firmware_update_state == FirmwareUpdateState::Idle
    &&& !info.firmware_update_result.is_ready()
    &&& index::chosen(
        index.index_file.firmware_updates@,
        info,
        index.config.fota_loop || device.oneshot_fota_loop,
    ) is Some
}

/// An image that a device refused is sent again only on demand, and then once: without a demand
/// the device is passed over, and a demand is used up by the download that it leads to.
pub proof fn law_refused_image_waits_for_demand(
    device: Device,
    infos: Map<Seq<char>, DeviceInfo>,
    index: ImageIndex,
    now: Timestamp,
)
    requires
        refused(device, infos, index, now),
    ensures
        !device.force_check ==> device.processed(infos, index, now) == (Device {
            oneshot_fota_loop: false,
            ..device
        }).skipped(SkipReason::UploadFailed(infos[device.id@].firmware_update_result)),
        device.force_check ==> {
            &&& device.processed(infos, index, now).1 matches DeviceStep::Run(task)
            &&& task is Download
            &&& !device.processed(infos, index, now).0.force_check
        },
{
    law_first_rule_is_chosen(
        index.index_file.firmware_updates@,
        infos[device.id@],
        index.config.fota_loop || device.oneshot_fota_loop,
    );
}

/// Only the two requests that put a demand do so: no work on a device does.
pub proof fn law_work_puts_no_demand(
    device: Device,
    infos: Map<Seq<char>, DeviceInfo>,
    index: ImageIndex,
    now: Timestamp,
    report: TaskReport,
)
    ensures
        device.processed(infos, index, now).0.force_check ==> device.force_check,
        device.processed(infos, index, now).0.oneshot_fota_loop ==> device.oneshot_fota_loop,
        device.resumed(report, now).0.force_check == device.force_check,
        device.resumed(report, now).0.oneshot_fota_loop == device.oneshot_fota_loop,
{
}

/// A device for which another upload was demanded gets its image, though it refused the last one
/// and though it was to be left alone.
pub proof fn law_retry_leads_to_download(
    device: Device,
    infos: Map<Seq<char>, DeviceInfo>,
    index: ImageIndex,
    now: Timestamp,
)
    requires
        refused(ipc::retried(device), infos, index, now),
    ensures
        !ipc::retried(device).is_delayed(now),
        ipc::retried(device).processed(infos, index, now).1 matches DeviceStep::Run(task)
            && task is Download,
{
    law_refused_image_waits_for_demand(ipc::retried(device), infos, index, now);
}

/// A downgrade makes every rule that fits the device count, for one look at it: an idle device is
/// offered an image by a rule that fits, and in any case only updates count again from then on.
pub proof fn law_downgrade_counts_once(
    device: Device,
    infos: Map<Seq<char>, DeviceInfo>,
    index: ImageIndex,
    now: Timestamp,
    i: int,
)
    requires
        infos.contains_key(device.id@),
        infos[device.id@].online,
        0 <= i < index.index_file.firmware_updates@.len(),
        index.index_file.firmware_updates@[i].fits(infos[device.id@]),
    ensures
        infos[device.id@].firmware_update_state == FirmwareUpdateState::Idle ==> (image_of(
            ipc::downgraded(device).processed(infos, index, now).1,
        ) matches Some(entry) && entry.fits(infos[device.id@])),
        !ipc::downgraded(device).processed(infos, index, now).0.oneshot_fota_loop,
{
    let rules = index.index_file.firmware_updates@;
    let info = infos[device.id@];
    law_first_rule_is_chosen(rules, info, true);
    assert(rules[i].serves(info, true));
    assert(rules[i].model_number@ == info.model_number@);
}

/// A device that is left alone for an hour is not touched before the hour is over, and is looked
/// at from then on.
pub proof fn law_delay_lasts_an_hour(
    device: Device,
    infos: Map<Seq<char>, DeviceInfo>,
    index: ImageIndex,
    now: Timestamp,
    later: Timestamp,
)
    requires
        now.wf(),
        later.wf(),
        now.seconds + CHECK_DELAY_SECONDS <= i64::MAX,
    ensures
        device.delayed(now).is_delayed(later) <==> later.at() < now.at() + 3_600_000_000_000,
        later.at() < now.at() + 3_600_000_000_000 ==> device.delayed(now).processed(
            infos,
            index,
            later,
        ) == (
            device.delayed(now),
            DeviceStep::Done { result: ProcessResult::DeviceDone, notice: false },
        ),
{
}

/// A device that is passed over is news only once: where nothing has changed, and the same rule is
/// found for it, a second look brings nothing new.
pub proof fn law_same_skip_is_no_news(
    device: Device,
    infos: Map<Seq<char>, DeviceInfo>,
    index: ImageIndex,
    now: Timestamp,
    later: Timestamp,
)
    requires
        device.processed(infos, index, now).1 is Done,
        index::chosen(
            index.index_file.firmware_updates@,
            infos[device.id@],
            index.config.fota_loop || device.oneshot_fota_loop,
        ) == index::chosen(
            index.index_file.firmware_updates@,
            infos[device.id@],
            index.config.fota_loop || device.processed(infos, index, now).0.oneshot_fota_loop,
        ),
        device.is_delayed(now) ==> device.is_delayed(later),
    ensures
        device.processed(infos, index, now).0.processed(infos, index, later).1 matches
            DeviceStep::Done { notice, .. } && !notice,
{
}

/// An image is sent only when it has been downloaded, and then it is the image that was downloaded.
pub proof fn law_upload_follows_download(
    device: Device,
    infos: Map<Seq<char>, DeviceInfo>,
    index: ImageIndex,
    now: Timestamp,
    report: TaskReport,
)
    ensures
        !(device.processed(infos, index, now).1 matches DeviceStep::Run(DeviceTask::Upload(_))),
        device.resumed(report, now).1 matches DeviceStep::Run(DeviceTask::Upload(image)) ==> (report
            matches TaskReport::Downloaded { image: i, .. } && i == Some(image)),
        report matches TaskReport::Downloaded { image: Some(image), .. } ==> device.resumed(
            report,
            now,
        ).1 == DeviceStep::Run(DeviceTask::Upload(image)),
{
}

/// What is sent to a device is what the download of the chosen rule returned: a ready device that
/// there is a rule for leads to the download from the URL of that rule; the body of the answer is
/// the image; that image is the one that is uploaded; the request that does so carries it and goes
/// to the device; and when it is taken, all work ends, with the device as it was but for the
/// wish for a downgrade, which is used up.
pub proof fn law_sent_image_is_the_downloaded(
    device: Device,
    infos: Map<Seq<char>, DeviceInfo>,
    index: ImageIndex,
    now: Timestamp,
    status: u16,
    body: Vec<u8>,
    downloaded: Timestamp,
    uploaded: Timestamp,
    request: Request,
)
    requires
        !device.is_delayed(now),
        infos.contains_key(device.id@),
        infos[device.id@].online,
        infos[device.id@].firmware_update_state == FirmwareUpdateState::Idle,
        infos[device.id@].firmware_update_result.is_ready(),
        index::chosen(
            index.index_file.firmware_updates@,
            infos[device.id@],
            index.config.fota_loop || device.oneshot_fota_loop,
        ) is Some,
        200 <= status < 300,
        device.sends(request, body@),
    ensures
        ({
            let entry = index::chosen(
                index.index_file.firmware_updates@,
                infos[device.id@],
                index.config.fota_loop || device.oneshot_fota_loop,
            )->0;
            let first = device.processed(infos, index, now);
            let second = first.0.resumed(
                TaskReport::Downloaded { entry, image: Some(body) },
                downloaded,
            );
            let third = second.0.resumed(TaskReport::Uploaded { success: true }, uploaded);
            &&& first.1 == DeviceStep::Run(DeviceTask::Download(entry))
            &&& entry.downloaded(DownloadEvent::Begin) == (DownloadStep::Get {
                url: entry.url,
                seconds: DOWNLOAD_TIMEOUT,
            })
            &&& entry.downloaded(DownloadEvent::Status(status)) == DownloadStep::ReadBody
            &&& entry.downloaded(DownloadEvent::Body(Some(body))) == DownloadStep::Image(body)
            &&& second.1 == DeviceStep::Run(DeviceTask::Upload(body))
            &&& second.0.sends(request, body@)
            &&& request.entity.kind == (EntityKind::Device { device: device.id })
            &&& third.1 == (DeviceStep::Done {
                result: ProcessResult::EverythingDone,
                notice: false,
            })
            &&& third.0 == (Device { oneshot_fota_loop: false, ..device })
        }),
{
    law_first_rule_is_chosen(
        index.index_file.firmware_updates@,
        infos[device.id@],
        index.config.fota_loop || device.oneshot_fota_loop,
    );
}

/// Where a task fails, the device is done for now and the other devices get their turn. It is left
/// alone for an hour, unless an image could not be replaced.
pub proof fn law_failed_task_yields(device: Device, report: TaskReport, now: Timestamp)
    requires
        !report.succeeds(),
    ensures
        device.resumed(report, now).1 == (DeviceStep::Done {
            result: ProcessResult::DeviceDone,
            notice: false,
        }),
        device.resumed(report, now).0 == if report is Replaced {
            device
        } else {
            device.delayed(now)
        },
{
}

/// Two reasons are the same just where they come from the same place in the work with data that
/// read the same. That is an equivalence.
pub proof fn law_reasons_compare_by_place_and_data(a: SkipReason, b: SkipReason, c: SkipReason)
    ensures
        a.same(b) <==> a.place() == b.place() && a.same_data(b),
        a.has_data() && !b.has_data() ==> !a.same(b) && !b.same(a),
        a.same(a),
        a.same(b) ==> b.same(a),
        a.same(b) && b.same(c) ==> a.same(c),
{
}

/// An image that lies on a device without a rule is taken back, and only such an image.
pub proof fn law_withdrawal_needs_lost_rule(
    device: Device,
    infos: Map<Seq<char>, DeviceInfo>,
    index: ImageIndex,
    now: Timestamp,
)
    ensures
        device.processed(infos, index, now).1 matches DeviceStep::Run(DeviceTask::Withdraw(info))
            ==> {
            &&& infos.contains_key(device.id@)
            &&& info == infos[device.id@]
            &&& device::holds_image(info)
            &&& forall|i: int|
                0 <= i < index.index_file.firmware_updates@.len()
                    ==> !(#[trigger] index.index_file.firmware_updates@[i]).serves(
                    info,
                    index.config.fota_loop || device.oneshot_fota_loop,
                )
        },
{
    law_first_rule_is_chosen(
        index.index_file.firmware_updates@,
        infos[device.id@],
        index.config.fota_loop || device.oneshot_fota_loop,
    );
}

/// Work on a device does not change which device it is and how it is reached.
pub proof fn law_work_keeps_identity(
    device: Device,
    infos: Map<Seq<char>, DeviceInfo>,
    index: ImageIndex,
    now: Timestamp,
    report: TaskReport,
)
    ensures
        device.processed(infos, index, now).0.id == device.id,
        device.processed(infos, index, now).0.req_service_config == device.req_service_config,
        device.resumed(report, now).0.id == device.id,
        device.resumed(report, now).0.req_service_config == device.req_service_config,
{
}

/// Whether the device is not to be looked at yet.
pub open spec fn rests(device: Device, now: Timestamp) -> bool {
    device.next_check matches NextCheck::At(next) && (now.seconds < next.seconds || (now.seconds
        == next.seconds && now.nanos < next.nanos))
}

/// Whether the rule is for just this model with just these versions, and is an update or counts
/// though it is none.
pub open spec fn is_for(rule: ImageIndexEntry, info: DeviceInfo, any: bool) -> bool {
    &&& rule.model_number@ == info.model_number@
    &&& rule.software_version@ == info.software_version@
    &&& rule.firmware_version@ == info.firmware_version@
    &&& rule.update || any
}

/// Whether the last image was taken, or there was none.
pub open spec fn took_last_image(result: FirmwareUpdateResult) -> bool {
    ||| result == FirmwareUpdateResult::Initial
    ||| result == FirmwareUpdateResult::Success
    ||| result == FirmwareUpdateResult::UpdateFailed
}

/// Whether two descriptions agree in everything.
pub open spec fn agree(a: DeviceInfo, b: DeviceInfo) -> bool {
    &&& a.model_number@ == b.model_number@
    &&& a.software_version@ == b.software_version@
    &&& a.firmware_version@ == b.firmware_version@
    &&& a.firmware_update_state == b.firmware_update_state
    &&& a.firmware_update_result == b.firmware_update_result
    &&& a.pkg_version@ == b.pkg_version@
    &&& a.online == b.online
}

/// Whether two reasons are of one sort and come with data that agree.
pub open spec fn alike(a: SkipReason, b: SkipReason) -> bool {
    match a {
        SkipReason::Never => b is Never,
        SkipReason::NoDeviceInfo => b is NoDeviceInfo,
        SkipReason::NoRule => b is NoRule,
        SkipReason::Offline => b is Offline,
        SkipReason::NoUpdate(x) => b matches SkipReason::NoUpdate(y) && agree(x, y),
        SkipReason::UploadFailed(x) => b matches SkipReason::UploadFailed(y) && x == y,
        SkipReason::AlreadyUploaded(x) => b matches SkipReason::AlreadyUploaded(y) && x@ == y@,
        SkipReason::BeingUpdated => b is BeingUpdated,
    }
}

/// Whether the device is done for now, for that reason, which is news unless it was the last one
/// already, and is else as it was.
pub open spec fn passed_over(
    before: Device,
    after: Device,
    step: DeviceStep,
    reason: SkipReason,
) -> bool {
    &&& alike(after.last_skip_reason, reason)
    &&& after.id == before.id
    &&& after.next_check == before.next_check
    &&& after.force_check == before.force_check
    &&& after.oneshot_fota_loop == before.oneshot_fota_loop
    &&& after.req_service_config == before.req_service_config
    &&& step == (DeviceStep::Done {
        result: ProcessResult::DeviceDone,
        notice: !alike(before.last_skip_reason, reason),
    })
}

/// Whether the device is next looked at an hour from now.
pub open spec fn rests_an_hour(device: Device, now: Timestamp) -> bool {
    device.next_check matches NextCheck::At(next) && next.seconds == now.seconds + 3600
        && next.nanos == now.nanos
}

/// Two reasons are taken to be the same just where they are of one sort and their data agree.
pub proof fn law_reasons_differ_by_their_data(a: SkipReason, b: SkipReason)
    ensures
        a.same(b) <==> alike(a, b),
{
}

/// A device that is first met has no history: it is looked at right away, nothing was demanded for
/// it, and it was never passed over.
pub proof fn law_new_device_has_no_history(
    device: Device,
    id: Seq<char>,
    req_service_config: ReqServiceConfig,
)
    requires
        device.fresh(id, req_service_config),
    ensures
        device.id@ == id,
        device.req_service_config == req_service_config,
        forall|now: Timestamp| !device.is_delayed(now),
        !device.force_check,
        !device.oneshot_fota_loop,
        device.last_skip_reason is Never,
{
}

/// A device is left alone just as long as its time has not come, and then nothing changes.
pub proof fn law_resting_device_is_left_alone(
    device: Device,
    infos: Map<Seq<char>, DeviceInfo>,
    index: ImageIndex,
    now: Timestamp,
)
    ensures
        device.is_delayed(now) <==> rests(device, now),
        rests(device, now) ==> device.processed(infos, index, now) == (
            device,
            DeviceStep::Done { result: ProcessResult::DeviceDone, notice: false },
        ),
{
}

/// A device that nothing is known of, that no rule is for by its model, or that is offline is passed
/// over, for that reason and in that order, and nothing is sent to it.
pub proof fn law_device_must_be_within_reach(
    device: Device,
    infos: Map<Seq<char>, DeviceInfo>,
    index: ImageIndex,
    now: Timestamp,
)
    requires
        !rests(device, now),
    ensures
        ({
            let (after, step) = device.processed(infos, index, now);
            let info = infos[device.id@];
            let rules = index.index_file.firmware_updates@;
            let unruled = forall|i: int|
                0 <= i < rules.len() ==> (#[trigger] rules[i]).model_number@ != info.model_number@;
            &&& !infos.contains_key(device.id@) ==> passed_over(
                device,
                after,
                step,
                SkipReason::NoDeviceInfo,
            )
            &&& infos.contains_key(device.id@) && unruled ==> passed_over(
                device,
                after,
                step,
                SkipReason::NoRule,
            )
            &&& infos.contains_key(device.id@) && !unruled && !info.online ==> passed_over(
                device,
                after,
                step,
                SkipReason::Offline,
            )
        }),
{
}

/// A device within reach that no rule serves: what lies on it is taken back just where an image was
/// downloaded completely, or where the device is idle and the last image ended otherwise than
/// `Initial`, `Success` or `UpdateFailed`. In all other cases nothing is sent to it: it is passed
/// over because there is no update, and is looked at again in an hour.
pub proof fn law_only_lost_images_are_taken_back(
    device: Device,
    infos: Map<Seq<char>, DeviceInfo>,
    index: ImageIndex,
    now: Timestamp,
    k: int,
)
    requires
        !rests(device, now),
        now.seconds + 3600 <= i64::MAX,
        infos.contains_key(device.id@),
        infos[device.id@].online,
        0 <= k < index.index_file.firmware_updates@.len(),
        index.index_file.firmware_updates@[k].model_number@ == infos[device.id@].model_number@,
        forall|i: int|
            0 <= i < index.index_file.firmware_updates@.len() ==> !is_for(
                #[trigger] index.index_file.firmware_updates@[i],
                infos[device.id@],
                index.config.fota_loop || device.oneshot_fota_loop,
            ),
    ensures
        ({
            let (after, step) = device.processed(infos, index, now);
            let info = infos[device.id@];
            let state = info.firmware_update_state;
            let result = info.firmware_update_result;
            let lost = state == FirmwareUpdateState::DownloadComplete || (state
                == FirmwareUpdateState::Idle && result != FirmwareUpdateResult::Initial && result
                != FirmwareUpdateResult::Success && result != FirmwareUpdateResult::UpdateFailed);
            &&& lost ==> after == device && step == DeviceStep::Run(DeviceTask::Withdraw(info))
            &&& !lost ==> {
                &&& rests_an_hour(after, now)
                &&& passed_over(
                    device,
                    (Device { next_check: device.next_check, ..after }),
                    step,
                    SkipReason::NoUpdate(info),
                )
            }
        }),
{
    let rules = index.index_file.firmware_updates@;
    law_first_rule_is_chosen(
        rules,
        infos[device.id@],
        index.config.fota_loop || device.oneshot_fota_loop,
    );
    assert(rules[k].model_number@ == infos[device.id@].model_number@);
}

/// A device within reach that a rule serves, the rule being the first one that does: what comes of
/// it, by what the device says of its last image. The wish for a downgrade is used up, and else only
/// a demand for another upload is, and only by a refused image.
pub proof fn law_first_fitting_rule_decides(
    device: Device,
    infos: Map<Seq<char>, DeviceInfo>,
    index: ImageIndex,
    now: Timestamp,
    i: int,
)
    requires
        !rests(device, now),
        infos.contains_key(device.id@),
        infos[device.id@].online,
        0 <= i < index.index_file.firmware_updates@.len(),
        is_for(
            index.index_file.firmware_updates@[i],
            infos[device.id@],
            index.config.fota_loop || device.oneshot_fota_loop,
        ),
        forall|j: int|
            0 <= j < i ==> !is_for(
                #[trigger] index.index_file.firmware_updates@[j],
                infos[device.id@],
                index.config.fota_loop || device.oneshot_fota_loop,
            ),
    ensures
        ({
            let (after, step) = device.processed(infos, index, now);
            let info = infos[device.id@];
            let entry = index.index_file.firmware_updates@[i];
            let result = info.firmware_update_result;
            let served = Device { oneshot_fota_loop: false, ..device };
            match info.firmware_update_state {
                FirmwareUpdateState::Idle => {
                    &&& took_last_image(result) ==> after == served && step == DeviceStep::Run(
                        DeviceTask::Download(entry),
                    )
                    &&& !took_last_image(result) && device.force_check ==> after == (Device {
                        force_check: false,
                        ..served
                    }) && step == DeviceStep::Run(DeviceTask::Download(entry))
                    &&& !took_last_image(result) && !device.force_check ==> passed_over(
                        served,
                        after,
                        step,
                        SkipReason::UploadFailed(result),
                    )
                },
                FirmwareUpdateState::Downloading => after == served && step == (DeviceStep::Done {
                    result: ProcessResult::EverythingDone,
                    notice: false,
                }),
                FirmwareUpdateState::DownloadComplete => {
                    &&& entry.pkg_version@ == info.pkg_version@ ==> passed_over(
                        served,
                        after,
                        step,
                        SkipReason::AlreadyUploaded(entry.pkg_version),
                    )
                    &&& entry.pkg_version@ != info.pkg_version@ ==> after == served && step
                        == DeviceStep::Run(DeviceTask::Replace(entry))
                },
                FirmwareUpdateState::Updating => passed_over(
                    served,
                    after,
                    step,
                    SkipReason::BeingUpdated,
                ),
            }
        }),
{
    let rules = index.index_file.firmware_updates@;
    let info = infos[device.id@];
    let any = index.config.fota_loop || device.oneshot_fota_loop;
    law_first_rule_is_chosen(rules, info, any);
    assert(rules[i].serves(info, any));
    let c = choose|c: int|
        {
            &&& 0 <= c < rules.len()
            &&& #[trigger] rules[c] == index::chosen(rules, info, any)->0
            &&& rules[c].serves(info, any)
            &&& forall|j: int| 0 <= j < c ==> !(#[trigger] rules[j]).serves(info, any)
        };
    assert(c == i) by {
        assert(is_for(rules[c], info, any));
        if c < i {
            assert(!is_for(rules[c], info, any));
        }
    }
    assert(rules[i].model_number@ == info.model_number@);
}

/// The rule that is found for a device is the first of those that are for it, and none is found just
/// where none is for it. Rules are known for a device just where one is for its model.
pub proof fn law_rules_are_found_by_model_and_versions(
    entries: Seq<ImageIndexEntry>,
    info: DeviceInfo,
    any: bool,
    i: int,
)
    requires
        0 <= i < entries.len(),
    ensures
        entries[i].model_number@ == info.model_number@ ==> index::covers(entries, info),
        index::covers(entries, info) ==> exists|k: int|
            0 <= k < entries.len() && (#[trigger] entries[k]).model_number@ == info.model_number@,
        is_for(entries[i], info, any) ==> index::chosen(entries, info, any) is Some,
        index::chosen(entries, info, any) matches Some(entry) ==> is_for(entry, info, any)
            && entries.contains(entry),
        is_for(entries[i], info, any) && (forall|j: int|
            0 <= j < i ==> !is_for(#[trigger] entries[j], info, any)) ==> index::chosen(
            entries,
            info,
            any,
        ) == Some(entries[i]),
{
    law_first_rule_is_chosen(entries, info, any);
    assert(entries[i].serves(info, any) <==> is_for(entries[i], info, any));
    if index::chosen(entries, info, any) is Some {
        let c = choose|c: int|
            {
                &&& 0 <= c < entries.len()
                &&& #[trigger] entries[c] == index::chosen(entries, info, any)->0
                &&& entries[c].serves(info, any)
                &&& forall|j: int| 0 <= j < c ==> !(#[trigger] entries[j]).serves(info, any)
            };
        assert(is_for(entries[c], info, any));
        if is_for(entries[i], info, any) && (forall|j: int|
            0 <= j < i ==> !is_for(#[trigger] entries[j], info, any)) {
            if c < i {
                assert(!is_for(entries[c], info, any));
            }
            assert(c == i);
        }
    }
}

/// What comes of a task, by how it went: an image that was taken back leaves the device without
/// update; one that was replaced or downloaded leads on; one that was sent ends all work; and a
/// failure yields to the next device, for an hour unless an image could not be replaced.
pub proof fn law_task_leads_on_or_yields(device: Device, report: TaskReport, now: Timestamp)
    requires
        now.seconds + 3600 <= i64::MAX,
    ensures
        ({
            let (after, step) = device.resumed(report, now);
            let yields = DeviceStep::Done { result: ProcessResult::DeviceDone, notice: false };
            match report {
                TaskReport::Withdrawn { info, success } => {
                    &&& rests_an_hour(after, now)
                    &&& success ==> passed_over(
                        device,
                        (Device { next_check: device.next_check, ..after }),
                        step,
                        SkipReason::NoUpdate(info),
                    )
                    &&& !success ==> step == yields && (Device {
                        next_check: device.next_check,
                        ..after
                    }) == device
                },
                TaskReport::Replaced { entry, success } => {
                    &&& after == device
                    &&& success ==> step == DeviceStep::Run(DeviceTask::Download(entry))
                    &&& !success ==> step == yields
                },
                TaskReport::Downloaded { entry: _, image: Some(image) } => {
                    after == device && step == DeviceStep::Run(DeviceTask::Upload(image))
                },
                TaskReport::Downloaded { entry: _, image: None } => {
                    &&& rests_an_hour(after, now)
                    &&& (Device { next_check: device.next_check, ..after }) == device
                    &&& step == yields
                },
                TaskReport::Uploaded { success } => {
                    &&& success ==> after == device && step == (DeviceStep::Done {
                        result: ProcessResult::EverythingDone,
                        notice: false,
                    })
                    &&& !success ==> {
                        &&& rests_an_hour(after, now)
                        &&& (Device { next_check: device.next_check, ..after }) == device
                        &&& step == yields
                    }
                },
            }
        }),
{
}

/// The request that sends an image writes just the image to the package of the first firmware
/// update object of just this device.
pub proof fn law_image_goes_to_the_package(device: Device, request: Request, image: Seq<u8>)
    ensures
        device.sends(request, image) <==> {
            &&& request.op == Method::Write
            &&& request.entity.path@ == encode_utf8("firmware_update/0/package"@)
            &&& request.entity.kind == (EntityKind::Device { device: device.id })
            &&& request.payload matches Some(Payload::Value(ValueData::Bytes(data))) && data@
                == image
        },
{
}

/// A device that is put off is looked at again in an hour and is else as it was. A reason that is
/// noted is the last one from then on, and nothing else changes; one that was noted already changes
/// nothing.
pub proof fn law_notes_change_nothing_else(device: Device, reason: SkipReason, now: Timestamp)
    requires
        now.seconds + 3600 <= i64::MAX,
    ensures
        rests_an_hour(device.delayed(now), now),
        (Device { next_check: device.next_check, ..device.delayed(now) }) == device,
        alike(device.noted(reason).last_skip_reason, reason),
        (Device { last_skip_reason: device.last_skip_reason, ..device.noted(reason) }) == device,
        alike(device.last_skip_reason, reason) ==> device.noted(reason) == device,
{
}

} // verus!
