use fwrolloutd::clock::Timestamp;
use fwrolloutd::config::{Config, ReqServiceConfig};
use fwrolloutd::device::{
    Device, DeviceStep, DeviceTask, NextCheck, ProcessResult, SkipReason, TaskReport,
    CHECK_DELAY_SECONDS,
};
use fwrolloutd::device_info::{DeviceInfo, DeviceInfos};
use fwrolloutd::exchange::{ExchangeError, ExchangeEvent, ExchangeStep};
use fwrolloutd::index::{DownloadEvent, DownloadStep, ImageIndex, ImageIndexEntry};
use fwrolloutd::protocol::{
    EntityKind, FirmwareUpdateResult, FirmwareUpdateState, Method, Payload, Request, ValueData,
};

const NOW: Timestamp = Timestamp { seconds: 1_000_000, nanos: 5 };

fn rule(pkg_version: &str, update: bool) -> ImageIndexEntry {
    ImageIndexEntry {
        model_number: "m".to_string(),
        software_version: "s".to_string(),
        firmware_version: "f".to_string(),
        pkg_version: pkg_version.to_string(),
        url: format!("http://host/{}", pkg_version),
        update,
    }
}

fn info(state: FirmwareUpdateState, result: FirmwareUpdateResult) -> DeviceInfo {
    DeviceInfo {
        model_number: "m".to_string(),
        software_version: "s".to_string(),
        firmware_version: "f".to_string(),
        firmware_update_state: state,
        firmware_update_result: result,
        pkg_version: "old".to_string(),
        online: true,
    }
}

fn ready() -> DeviceInfo {
    info(FirmwareUpdateState::Idle, FirmwareUpdateResult::Initial)
}

fn refused() -> DeviceInfo {
    info(FirmwareUpdateState::Idle, FirmwareUpdateResult::Other(5))
}

fn infos(info: DeviceInfo) -> DeviceInfos {
    let mut infos = DeviceInfos::new();
    infos.insert("d".to_string(), info);
    infos
}

fn service() -> ReqServiceConfig {
    ReqServiceConfig::for_service("lwm2mserver", 10)
}

fn device() -> Device {
    Device::new("d".to_string(), service())
}

fn index<'a>(config: &'a Config, rules: Vec<ImageIndexEntry>) -> ImageIndex<'a> {
    let mut index = ImageIndex::new(config);
    index.index_file.firmware_updates = rules;
    index
}

fn process(device: &mut Device, info: DeviceInfo, rules: Vec<ImageIndexEntry>) -> DeviceStep {
    let config = Config::for_tenant(None, None);
    device.process_at(&infos(info), &index(&config, rules), NOW)
}

fn done(step: DeviceStep) -> (ProcessResult, bool) {
    match step {
        DeviceStep::Done { result, notice } => (result, notice),
        other => panic!("{:?}", other),
    }
}

fn downloads(step: DeviceStep) -> String {
    match step {
        DeviceStep::Run(DeviceTask::Download(entry)) => entry.pkg_version,
        other => panic!("{:?}", other),
    }
}

#[test]
fn a_new_device_is_looked_at_right_away() {
    let device = device();
    assert_eq!(device.id, "d");
    assert_eq!(device.next_check, NextCheck::Immediately);
    assert!(!device.force_check);
    assert!(!device.oneshot_fota_loop);
    assert!(matches!(device.last_skip_reason, SkipReason::Never));
    assert_eq!(device.req_service_config.socket_path, "/tmp/lwm2mserver-command.ipc");
    assert!(!device.check_delayed());
}

#[test]
fn a_ready_device_gets_the_image_of_its_rule() {
    for result in [
        FirmwareUpdateResult::Initial,
        FirmwareUpdateResult::Success,
        FirmwareUpdateResult::UpdateFailed,
    ] {
        let mut device = device();
        let info = info(FirmwareUpdateState::Idle, result);
        let step = process(&mut device, info, vec![rule("no", false), rule("new", true)]);
        assert_eq!(downloads(step), "new");
    }
}

#[test]
fn the_image_that_is_sent_is_the_image_that_was_downloaded() {
    let mut device = device();
    device.force_check = true;
    let step = process(&mut device, ready(), vec![rule("new", true)]);
    let entry = match step {
        DeviceStep::Run(DeviceTask::Download(entry)) => entry,
        other => panic!("{:?}", other),
    };
    match entry.download(DownloadEvent::Begin) {
        DownloadStep::Get { url, seconds } => {
            assert_eq!(url, "http://host/new");
            assert_eq!(seconds, 300);
        }
        other => panic!("{:?}", other),
    }
    let image = match entry.download(DownloadEvent::Body(Some(vec![7, 8, 9]))) {
        DownloadStep::Image(image) => image,
        other => panic!("{:?}", other),
    };
    let report = TaskReport::Downloaded { entry, image: Some(image) };
    let image = match device.resume_at(report, NOW) {
        DeviceStep::Run(DeviceTask::Upload(image)) => image,
        other => panic!("{:?}", other),
    };
    assert_eq!(image, vec![7, 8, 9]);
    let request = sent(device.upload_firmware(&image, ExchangeEvent::Connected));
    assert_eq!(payload(request), vec![7, 8, 9]);
    let step = device.resume_at(TaskReport::Uploaded { success: true }, NOW);
    assert_eq!(done(step), (ProcessResult::EverythingDone, false));
    assert_eq!(device.next_check, NextCheck::Immediately);
    assert!(device.force_check);
}

#[test]
fn a_failed_task_delays_the_device() {
    let reports = vec![
        TaskReport::Withdrawn { info: ready(), success: false },
        TaskReport::Downloaded { entry: rule("new", true), image: None },
        TaskReport::Uploaded { success: false },
    ];
    for report in reports {
        let mut device = device();
        let step = device.resume_at(report, NOW);
        assert_eq!(done(step), (ProcessResult::DeviceDone, false));
        let next = Timestamp { seconds: NOW.seconds + 3600, nanos: NOW.nanos };
        assert_eq!(device.next_check, NextCheck::At(next));
    }
    let mut device = device();
    let report = TaskReport::Replaced { entry: rule("new", true), success: false };
    let step = device.resume_at(report, NOW);
    assert_eq!(done(step), (ProcessResult::DeviceDone, false));
    assert_eq!(device.next_check, NextCheck::Immediately);
}

#[test]
fn an_unknown_device_is_news_once() {
    let config = Config::for_tenant(None, None);
    let index = index(&config, vec![rule("new", true)]);
    let mut device = device();
    let empty = DeviceInfos::new();
    let step = device.process_at(&empty, &index, NOW);
    assert_eq!(done(step), (ProcessResult::DeviceDone, true));
    assert!(matches!(device.last_skip_reason, SkipReason::NoDeviceInfo));
    let step = device.process_at(&empty, &index, NOW);
    assert_eq!(done(step), (ProcessResult::DeviceDone, false));
}

#[test]
fn a_model_without_rules_is_passed_over() {
    let mut device = device();
    let mut other = ready();
    other.model_number = "x".to_string();
    other.online = false;
    let step = process(&mut device, other, vec![rule("new", true)]);
    assert_eq!(done(step), (ProcessResult::DeviceDone, true));
    assert!(matches!(device.last_skip_reason, SkipReason::NoRule));
}

#[test]
fn an_offline_device_is_passed_over() {
    let mut device = device();
    let mut offline = ready();
    offline.online = false;
    let step = process(&mut device, offline.clone(), vec![rule("new", true)]);
    assert_eq!(done(step), (ProcessResult::DeviceDone, true));
    assert!(matches!(device.last_skip_reason, SkipReason::Offline));
    let step = process(&mut device, offline, vec![rule("new", true)]);
    assert_eq!(done(step), (ProcessResult::DeviceDone, false));
    let step = process(&mut device, ready(), vec![rule("new", true)]);
    assert_eq!(downloads(step), "new");
}

#[test]
fn a_device_without_update_is_left_alone_for_an_hour() {
    let mut device = device();
    let step = process(&mut device, ready(), vec![rule("no", false)]);
    assert_eq!(done(step), (ProcessResult::DeviceDone, true));
    assert!(matches!(&device.last_skip_reason, SkipReason::NoUpdate(info) if info.reads_same(&ready())));
    let at = |seconds: i64, nanos: u32| Timestamp { seconds: NOW.seconds + seconds, nanos };
    assert!(device.check_delayed_at(at(3599, 999_999_999)));
    assert!(device.check_delayed_at(at(3600, 4)));
    assert!(!device.check_delayed_at(at(3600, 5)));
    let step = process(&mut device, ready(), vec![rule("new", true)]);
    assert_eq!(done(step), (ProcessResult::DeviceDone, false));
}

#[test]
fn no_update_is_news_again_when_the_device_has_changed() {
    let config = Config::for_tenant(None, None);
    let index = index(&config, vec![rule("no", false)]);
    let mut device = device();
    let hours = |n: i64| Timestamp { seconds: NOW.seconds + n * 3600, nanos: NOW.nanos };
    let step = device.process_at(&infos(ready()), &index, hours(0));
    assert_eq!(done(step), (ProcessResult::DeviceDone, true));
    let step = device.process_at(&infos(ready()), &index, hours(1));
    assert_eq!(done(step), (ProcessResult::DeviceDone, false));
    let mut changed = ready();
    changed.pkg_version = "other".to_string();
    let step = device.process_at(&infos(changed), &index, hours(2));
    assert_eq!(done(step), (ProcessResult::DeviceDone, true));
}

#[test]
fn an_image_whose_rule_is_gone_is_taken_back() {
    let uploaded =
        info(FirmwareUpdateState::DownloadComplete, FirmwareUpdateResult::Initial);
    for held in [uploaded, refused()] {
        let mut device = device();
        let step = process(&mut device, held.clone(), vec![rule("no", false)]);
        let info = match step {
            DeviceStep::Run(DeviceTask::Withdraw(info)) => info,
            other => panic!("{:?}", other),
        };
        assert!(info.reads_same(&held));
        let step = device.resume_at(TaskReport::Withdrawn { info, success: true }, NOW);
        assert_eq!(done(step), (ProcessResult::DeviceDone, true));
        assert!(device.check_delayed_at(NOW));
    }
    let mut device = device();
    let busy = info(FirmwareUpdateState::Updating, FirmwareUpdateResult::Other(3));
    let step = process(&mut device, busy, vec![rule("no", false)]);
    assert_eq!(done(step), (ProcessResult::DeviceDone, true));
}

#[test]
fn a_refused_image_is_sent_again_on_demand_and_once() {
    let mut device = device();
    let rules = || vec![rule("new", true)];
    let step = process(&mut device, refused(), rules());
    assert_eq!(done(step), (ProcessResult::DeviceDone, true));
    assert!(matches!(
        device.last_skip_reason,
        SkipReason::UploadFailed(FirmwareUpdateResult::Other(5))
    ));
    device.force_check = true;
    assert_eq!(downloads(process(&mut device, refused(), rules())), "new");
    assert!(!device.force_check);
    let step = process(&mut device, refused(), rules());
    assert_eq!(done(step), (ProcessResult::DeviceDone, false));
}

#[test]
fn a_demand_is_kept_while_it_is_not_needed() {
    let mut device = device();
    device.force_check = true;
    assert_eq!(downloads(process(&mut device, ready(), vec![rule("new", true)])), "new");
    assert!(device.force_check);
}

#[test]
fn a_downgrade_counts_once() {
    let mut device = device();
    device.oneshot_fota_loop = true;
    assert_eq!(downloads(process(&mut device, ready(), vec![rule("no", false)])), "no");
    assert!(!device.oneshot_fota_loop);
    let step = process(&mut device, ready(), vec![rule("no", false)]);
    assert_eq!(done(step), (ProcessResult::DeviceDone, true));
}

#[test]
fn a_download_under_way_ends_all_work() {
    let mut device = device();
    let busy = info(FirmwareUpdateState::Downloading, FirmwareUpdateResult::Initial);
    let step = process(&mut device, busy, vec![rule("new", true)]);
    assert_eq!(done(step), (ProcessResult::EverythingDone, false));
}

#[test]
fn an_update_under_way_is_waited_for() {
    let mut device = device();
    let busy = info(FirmwareUpdateState::Updating, FirmwareUpdateResult::Initial);
    let step = process(&mut device, busy, vec![rule("new", true)]);
    assert_eq!(done(step), (ProcessResult::DeviceDone, true));
    assert!(matches!(device.last_skip_reason, SkipReason::BeingUpdated));
}

#[test]
fn an_image_that_lies_on_the_device_is_kept_or_replaced() {
    let mut device = device();
    let mut held = info(FirmwareUpdateState::DownloadComplete, FirmwareUpdateResult::Initial);
    held.pkg_version = "new".to_string();
    let step = process(&mut device, held.clone(), vec![rule("new", true)]);
    assert_eq!(done(step), (ProcessResult::DeviceDone, true));
    assert!(matches!(&device.last_skip_reason, SkipReason::AlreadyUploaded(v) if v == "new"));
    let step = process(&mut device, held, vec![rule("newer", true)]);
    let entry = match step {
        DeviceStep::Run(DeviceTask::Replace(entry)) => entry,
        other => panic!("{:?}", other),
    };
    assert_eq!(entry.pkg_version, "newer");
    let report = TaskReport::Replaced { entry, success: true };
    assert_eq!(downloads(device.resume_at(report, NOW)), "newer");
}

#[test]
fn reasons_differ_by_what_they_carry() {
    let reasons = vec![
        SkipReason::Never,
        SkipReason::NoDeviceInfo,
        SkipReason::NoRule,
        SkipReason::Offline,
        SkipReason::NoUpdate(ready()),
        SkipReason::NoUpdate(refused()),
        SkipReason::UploadFailed(FirmwareUpdateResult::Other(3)),
        SkipReason::UploadFailed(FirmwareUpdateResult::Other(7)),
        SkipReason::AlreadyUploaded("a".to_string()),
        SkipReason::AlreadyUploaded("b".to_string()),
        SkipReason::BeingUpdated,
    ];
    for (i, a) in reasons.iter().enumerate() {
        for (j, b) in reasons.iter().enumerate() {
            assert_eq!(a.is_same(b), i == j);
        }
    }
    let mut device = device();
    assert!(device.note_skip(SkipReason::Offline));
    assert!(!device.note_skip(SkipReason::Offline));
    assert!(device.note_skip(SkipReason::NoRule));
}

#[test]
fn the_clock_decides_over_the_delay() {
    let mut device = device();
    let before = chrono::Local::now().timestamp();
    device.delay_check_by_one_hour();
    let after = chrono::Local::now().timestamp();
    match device.next_check {
        NextCheck::At(next) => {
            assert!(before + i64::from(CHECK_DELAY_SECONDS) <= next.seconds);
            assert!(next.seconds <= after + i64::from(CHECK_DELAY_SECONDS));
        }
        NextCheck::Immediately => panic!("not delayed"),
    }
    assert!(device.check_delayed());
    device.next_check = NextCheck::At(Timestamp { seconds: before - 1, nanos: 0 });
    assert!(!device.check_delayed());
    let config = Config::for_tenant(None, None);
    let index = index(&config, vec![rule("no", false)]);
    let step = device.process(&infos(ready()), &index);
    assert_eq!(done(step), (ProcessResult::DeviceDone, true));
    assert!(device.check_delayed());
    let step = device.resume(TaskReport::Uploaded { success: true });
    assert_eq!(done(step), (ProcessResult::EverythingDone, false));
}

fn sent(step: ExchangeStep) -> Request {
    match step {
        ExchangeStep::Send { request, seconds } => {
            assert_eq!(seconds, 60);
            request
        }
        other => panic!("{:?}", other),
    }
}

fn payload(request: Request) -> Vec<u8> {
    assert!(matches!(request.op, Method::Write));
    assert_eq!(request.entity.path, b"firmware_update/0/package");
    assert!(matches!(request.entity.kind, EntityKind::Device { device } if device == "d"));
    match request.payload {
        Some(Payload::Value(ValueData::Bytes(data))) => data,
        other => panic!("{:?}", other),
    }
}

#[test]
fn an_image_is_sent_to_the_device() {
    let device = device();
    match device.upload_firmware(&[1, 2, 3], ExchangeEvent::Begin) {
        ExchangeStep::Connect { service, seconds, total } => {
            assert_eq!(service.socket_path, "/tmp/lwm2mserver-command.ipc");
            assert_eq!(service.retry_interval, 10);
            assert_eq!((seconds, total), (60, 3600));
        }
        other => panic!("{:?}", other),
    }
    let request = sent(device.upload_firmware(&[1, 2, 3], ExchangeEvent::Connected));
    assert_eq!(payload(request), vec![1, 2, 3]);
    let request = sent(device.reset_upload_state(ExchangeEvent::Connected));
    assert_eq!(payload(request), vec![0]);
}

#[test]
fn an_upload_ends_well_or_not() {
    let device = device();
    let cases = vec![
        (ExchangeEvent::Answered { success: true }, Ok(())),
        (ExchangeEvent::Answered { success: false }, Err(ExchangeError::Refused)),
        (ExchangeEvent::ConnectTimedOut, Err(ExchangeError::NotConnected)),
        (ExchangeEvent::RequestFailed, Err(ExchangeError::RequestFailed)),
        (ExchangeEvent::AnswerTimedOut, Err(ExchangeError::NoAnswer)),
        (ExchangeEvent::OutOfTime, Err(ExchangeError::OutOfTime)),
    ];
    for (event, expected) in cases {
        match device.upload_firmware(&[1], event) {
            ExchangeStep::Finished(result) => assert_eq!(result, expected),
            other => panic!("{:?}", other),
        }
        match device.reset_upload_state(event) {
            ExchangeStep::Finished(result) => assert_eq!(result, expected),
            other => panic!("{:?}", other),
        }
    }
}
