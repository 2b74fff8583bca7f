use fwrolloutd::clock::Timestamp;
use fwrolloutd::config::{Config, ReqServiceConfig};
use fwrolloutd::device::{Device, DeviceTask, NextCheck, ProcessResult, SkipReason, TaskReport};
use fwrolloutd::device_info::{
    collect_device_infos, parse_device_info, DeviceInfo, DeviceInfoError, DeviceInfos,
    ListedDevice, ResourceName,
};
use fwrolloutd::index::{ImageIndex, ImageIndexEntry};
use fwrolloutd::ipc::{
    handle_ipc_all_devices_request, handle_ipc_downgrade_request, handle_ipc_request,
    handle_ipc_retry_upload_request, IpcError, IpcReply,
};
use fwrolloutd::protocol::{
    DeviceObject, Entity, EntityKind, FirmwareUpdateResult, FirmwareUpdateState, Method,
    NamedResource, Number, ObjectInstance, ObjectType, Payload, RawDevice, Request, Resource,
    ValueData,
};
use fwrolloutd::report::Severity;
use fwrolloutd::rollout::{
    aliveness_due, index_label, Cycle, CycleEnd, CycleEvent, CycleStep,
};
use fwrolloutd::server::{
    configured_servers, DeviceServer, LoadError, LoadEvent, LoadStep, ServerEvent, ServerStep,
};
use std::collections::HashSet;

const NOW: Timestamp = Timestamp { seconds: 1_000_000, nanos: 0 };

fn rule(pkg_version: &str) -> ImageIndexEntry {
    ImageIndexEntry {
        model_number: "m".to_string(),
        software_version: "s".to_string(),
        firmware_version: "f".to_string(),
        pkg_version: pkg_version.to_string(),
        url: "http://host/image".to_string(),
        update: true,
    }
}

fn info(state: FirmwareUpdateState) -> DeviceInfo {
    DeviceInfo {
        model_number: "m".to_string(),
        software_version: "s".to_string(),
        firmware_version: "f".to_string(),
        firmware_update_state: state,
        firmware_update_result: FirmwareUpdateResult::Initial,
        pkg_version: String::new(),
        online: true,
    }
}

fn infos(ids: &[&str]) -> DeviceInfos {
    let mut infos = DeviceInfos::new();
    for id in ids {
        infos.insert(id.to_string(), info(FirmwareUpdateState::Idle));
    }
    infos
}

fn server(name: &str, ids: &[&str]) -> DeviceServer {
    let service = ReqServiceConfig::for_service(name, 10);
    let mut server = DeviceServer::new(name, service.clone());
    for id in ids {
        server.devices.push(Device::new(id.to_string(), service.clone()));
    }
    server
}

fn ids(server: &DeviceServer) -> Vec<&str> {
    server.devices.iter().map(|device| device.id.as_str()).collect()
}

fn number(
    state: Option<FirmwareUpdateState>,
    result: Option<FirmwareUpdateResult>,
) -> Option<Number> {
    Some(Number { state, result })
}

fn resource(
    name: &str,
    text: Option<&str>,
    number: Option<Number>,
    flag: Option<bool>,
) -> NamedResource {
    NamedResource {
        name: name.to_string(),
        value: Resource { text: text.map(|t| t.to_string()), number, flag },
    }
}

fn idle() -> RawDevice {
    raw(Some(FirmwareUpdateState::Idle), Some(FirmwareUpdateResult::Initial))
}

fn object(kind: ObjectType, resources: Vec<NamedResource>) -> DeviceObject {
    DeviceObject { kind, instances: vec![ObjectInstance { id: "0".to_string(), resources }] }
}

fn raw(state: Option<FirmwareUpdateState>, result: Option<FirmwareUpdateResult>) -> RawDevice {
    RawDevice {
        objects: vec![
            object(ObjectType::Other, vec![]),
            object(
                ObjectType::FirmwareUpdate,
                vec![
                    resource("pkg_version", Some("p"), None, None),
                    resource("state", None, number(state, None), None),
                    resource("update_result", None, number(None, result), None),
                ],
            ),
            object(
                ObjectType::Device,
                vec![
                    resource("software_version", Some("s"), None, None),
                    resource("model_number", Some("m"), None, None),
                    resource("firmware_version", Some("f"), None, None),
                ],
            ),
            object(ObjectType::ConnectionStatus, vec![resource("online", None, None, Some(true))]),
        ],
    }
}

#[test]
fn a_device_is_described() {
    let info = parse_device_info(&raw(
        Some(FirmwareUpdateState::DownloadComplete),
        Some(FirmwareUpdateResult::UpdateFailed),
    ))
    .unwrap();
    assert_eq!(info.model_number, "m");
    assert_eq!(info.software_version, "s");
    assert_eq!(info.firmware_version, "f");
    assert_eq!(info.pkg_version, "p");
    assert_eq!(info.firmware_update_state, FirmwareUpdateState::DownloadComplete);
    assert_eq!(info.firmware_update_result, FirmwareUpdateResult::UpdateFailed);
    assert!(info.online);
}

#[test]
fn a_device_with_something_missing_is_not_described() {
    let names = [
        (1, 0, ResourceName::PkgVersion),
        (1, 1, ResourceName::State),
        (1, 2, ResourceName::UpdateResult),
        (2, 0, ResourceName::SoftwareVersion),
        (2, 1, ResourceName::ModelNumber),
        (2, 2, ResourceName::FirmwareVersion),
        (3, 0, ResourceName::Online),
    ];
    for (object, place, name) in names {
        let mut device = idle();
        device.objects[object].instances[0].resources.remove(place);
        assert_eq!(parse_device_info(&device).unwrap_err(), DeviceInfoError::NoResource(name));
        let mut device = idle();
        device.objects[object].instances[0].resources[place].value =
            Resource { text: None, number: None, flag: None };
        assert_eq!(parse_device_info(&device).unwrap_err(), DeviceInfoError::WrongType(name));
        let mut device = idle();
        let kind = device.objects[object].kind;
        device.objects[object].instances[0].id = "1".to_string();
        assert_eq!(parse_device_info(&device).unwrap_err(), DeviceInfoError::NoInstance(kind));
        let mut device = idle();
        device.objects.remove(object);
        assert_eq!(parse_device_info(&device).unwrap_err(), DeviceInfoError::NoObject(kind));
    }
    let device = raw(None, Some(FirmwareUpdateResult::Initial));
    assert_eq!(parse_device_info(&device).unwrap_err(), DeviceInfoError::UnsupportedState);
    let device = raw(Some(FirmwareUpdateState::Idle), None);
    assert_eq!(parse_device_info(&device).unwrap_err(), DeviceInfoError::UnsupportedResult);
    let empty = RawDevice { objects: vec![] };
    assert_eq!(
        parse_device_info(&empty).unwrap_err(),
        DeviceInfoError::NoObject(ObjectType::FirmwareUpdate)
    );
}

#[test]
fn some_results_leave_a_device_ready() {
    assert!(FirmwareUpdateResult::Initial.ready());
    assert!(FirmwareUpdateResult::Success.ready());
    assert!(FirmwareUpdateResult::UpdateFailed.ready());
    assert!(!FirmwareUpdateResult::Other(2).ready());
}

#[test]
fn descriptions_are_kept_by_identifier() {
    let mut infos = infos(&["a", "b"]);
    assert_eq!(infos.len(), 2);
    assert!(!infos.any_downloading());
    infos.insert("a".to_string(), info(FirmwareUpdateState::Downloading));
    assert_eq!(infos.len(), 2);
    assert!(infos.any_downloading());
    let found = infos.get(&"a".to_string()).unwrap();
    assert_eq!(found.firmware_update_state, FirmwareUpdateState::Downloading);
    assert!(infos.get(&"c".to_string()).is_none());
    assert_eq!(infos.record(1).id, "b");
}

#[test]
fn the_devices_of_a_service_are_listed() {
    let server = server("lwm2mserver", &[]);
    match server.load_device_infos(LoadEvent::Begin) {
        LoadStep::Connect { service, seconds } => {
            assert_eq!(service.socket_path, "/tmp/lwm2mserver-command.ipc");
            assert_eq!(seconds, 60);
        }
        other => panic!("{:?}", other),
    }
    match server.load_device_infos(LoadEvent::Connected) {
        LoadStep::Send { request, seconds } => {
            assert_eq!(seconds, 60);
            assert!(matches!(request.op, Method::Read));
            assert_eq!(request.entity.path, b"devices");
            assert!(matches!(
                request.entity.kind,
                EntityKind::Gateway { service } if service == "lwm2mserver"
            ));
            assert!(request.payload.is_none());
        }
        other => panic!("{:?}", other),
    }
    let listed = |id: &str, device: RawDevice| ListedDevice { id: id.to_string(), device };
    let devices = vec![
        listed(
            "good",
            raw(Some(FirmwareUpdateState::Downloading), Some(FirmwareUpdateResult::Initial)),
        ),
        listed("bad", raw(None, Some(FirmwareUpdateResult::Initial))),
    ];
    match server.load_device_infos(LoadEvent::Answered { success: true, devices }) {
        LoadStep::Loaded { infos, faults } => {
            assert_eq!(infos.len(), 1);
            assert!(infos.any_downloading());
            assert_eq!(faults.len(), 1);
            assert_eq!(faults[0].id, "bad");
            assert_eq!(faults[0].error, DeviceInfoError::UnsupportedState);
        }
        other => panic!("{:?}", other),
    }
    let failures = vec![
        (LoadEvent::ConnectTimedOut, LoadError::NotConnected),
        (LoadEvent::RequestFailed, LoadError::RequestFailed),
        (LoadEvent::AnswerTimedOut, LoadError::NoAnswer),
        (LoadEvent::Answered { success: false, devices: vec![] }, LoadError::Refused),
    ];
    for (event, expected) in failures {
        match server.load_device_infos(event) {
            LoadStep::Failed(error) => assert_eq!(error, expected),
            other => panic!("{:?}", other),
        }
    }
    let (infos, faults) = collect_device_infos(&vec![]);
    assert_eq!(infos.len(), 0);
    assert!(faults.is_empty());
}

#[test]
fn services_are_configured_by_name() {
    let config = Config::for_tenant(None, None);
    let servers = configured_servers(&config);
    let names: Vec<&str> = servers.iter().map(|server| server.name.as_str()).collect();
    assert_eq!(names, vec!["lemonbeatd", "lwm2mserver"]);
    assert_eq!(servers[0].req_service_config.socket_path, "/tmp/lemonbeatd-command.ipc");
    assert_eq!(servers[0].req_service_config.retry_interval, 10);
    assert!(servers.iter().all(|server| server.devices.is_empty()));
}

#[test]
fn the_devices_follow_the_descriptions() {
    let mut server = server("x", &["a", "b", "c"]);
    server.devices[2].force_check = true;
    server.sync_devices(&infos(&["c", "d", "a"]));
    assert_eq!(ids(&server), vec!["a", "c", "d"]);
    assert!(server.devices[1].force_check);
    assert!(!server.devices[2].force_check);
    assert_eq!(server.devices[2].req_service_config.socket_path, "/tmp/x-command.ipc");
    server.sync_devices(&infos(&[]));
    assert!(server.devices.is_empty());
}

#[test]
fn the_devices_get_their_turns_in_a_random_order() {
    let config = Config::for_tenant(None, None);
    let index = ImageIndex::new(&config);
    let names: Vec<String> = (0..40).map(|i| format!("d{}", i)).collect();
    let list: Vec<&str> = names.iter().map(|name| name.as_str()).collect();
    let described = infos(&list);
    let mut server = server("x", &[]);
    let step = server.process_at(ServerEvent::Begin, &described, &index, NOW);
    assert!(matches!(step, ServerStep::RefreshIndex));
    assert_eq!(ids(&server), list);
    let step = server.process_at(ServerEvent::IndexRefreshed, &described, &index, NOW);
    assert!(matches!(step, ServerStep::Next { position: 0, notice: false }));
    assert_ne!(ids(&server), list);
    let all: HashSet<&str> = ids(&server).into_iter().collect();
    assert_eq!(all.len(), 40);
    for position in 0..40 {
        let step = server.process(ServerEvent::Turn(position), &described, &index);
        assert!(matches!(
            step,
            ServerStep::Next { position: next, notice: true } if next == position + 1
        ));
        assert!(matches!(server.devices[position].last_skip_reason, SkipReason::NoRule));
    }
    let step = server.process_at(ServerEvent::Turn(40), &described, &index, NOW);
    assert!(matches!(step, ServerStep::Finished(ProcessResult::ServerDone)));
}

fn request(path: &str, op: Method, payload: Option<Payload>) -> Request {
    Request {
        op,
        entity: Entity {
            path: path.as_bytes().to_vec(),
            kind: EntityKind::Gateway { service: "fwrolloutd".to_string() },
        },
        payload,
    }
}

fn one(id: &str) -> Option<Payload> {
    Some(Payload::Value(ValueData::String(Some(id.to_string()))))
}

fn many(ids: &[Option<&str>]) -> Option<Payload> {
    let ids = ids.iter().map(|id| id.map(|id| id.to_string())).collect();
    Some(Payload::Value(ValueData::StringArray(ids)))
}

fn fleet() -> Vec<DeviceServer> {
    let mut servers = vec![server("x", &["a", "b"]), server("y", &["c", "a"])];
    for server in &mut servers {
        for device in &mut server.devices {
            device.next_check = NextCheck::At(NOW);
        }
    }
    servers
}

fn marks(servers: &[DeviceServer]) -> Vec<(bool, bool, bool)> {
    servers
        .iter()
        .flat_map(|server| server.devices.iter())
        .map(|device| {
            (
                device.next_check == NextCheck::Immediately,
                device.force_check,
                device.oneshot_fota_loop,
            )
        })
        .collect()
}

const PLAIN: (bool, bool, bool) = (false, false, false);
const RETRIED: (bool, bool, bool) = (true, true, false);
const DOWNGRADED: (bool, bool, bool) = (true, true, true);

#[test]
fn a_downgrade_marks_the_first_device_with_the_identifier() {
    let mut servers = fleet();
    let request = request("downgrade", Method::Execute, one("a"));
    assert_eq!(handle_ipc_request(&request, &mut servers).unwrap(), IpcReply::Null);
    assert_eq!(marks(&servers), vec![DOWNGRADED, PLAIN, PLAIN, PLAIN]);
}

#[test]
fn a_retry_marks_the_named_devices() {
    let mut servers = fleet();
    let request = request("retry_upload", Method::Execute, many(&[Some("c"), None, Some("b")]));
    assert_eq!(handle_ipc_request(&request, &mut servers).unwrap(), IpcReply::Null);
    assert_eq!(marks(&servers), vec![PLAIN, RETRIED, RETRIED, PLAIN]);
    assert_eq!(handle_ipc_request(&request, &mut servers).unwrap(), IpcReply::Null);
    assert_eq!(marks(&servers), vec![PLAIN, RETRIED, RETRIED, PLAIN]);
}

#[test]
fn a_retry_stops_at_an_unknown_device() {
    let mut servers = fleet();
    let ids = [Some("c"), Some("z"), Some("b")];
    let request = request("retry_upload", Method::Execute, many(&ids));
    let error = handle_ipc_retry_upload_request(&request, &mut servers).unwrap_err();
    assert!(matches!(error, IpcError::NoDevice(id) if id == "z"));
    assert_eq!(marks(&servers), vec![PLAIN, PLAIN, RETRIED, PLAIN]);
}

#[test]
fn an_unknown_device_is_not_downgraded() {
    let mut servers = fleet();
    let request = request("downgrade", Method::Execute, one("z"));
    let error = handle_ipc_downgrade_request(&request, &mut servers).unwrap_err();
    assert!(matches!(error, IpcError::NoDevice(id) if id == "z"));
    assert_eq!(marks(&servers), vec![PLAIN; 4]);
}

#[test]
fn the_service_has_no_devices_of_its_own() {
    let mut servers = fleet();
    let request = request("devices", Method::Read, None);
    assert_eq!(handle_ipc_request(&request, &mut servers).unwrap(), IpcReply::EmptyObject);
    assert_eq!(handle_ipc_all_devices_request().unwrap(), IpcReply::EmptyObject);
}

#[test]
fn other_requests_are_refused() {
    let mut servers = fleet();
    for path in ["downgrade", "retry_upload"] {
        let bad = request(path, Method::Read, one("a"));
        let error = handle_ipc_request(&bad, &mut servers).unwrap_err();
        assert!(matches!(error, IpcError::UnsupportedOperation));
        for payload in [None, Some(Payload::Other)] {
            let bad = request(path, Method::Execute, payload);
            let error = handle_ipc_request(&bad, &mut servers).unwrap_err();
            assert!(matches!(error, IpcError::UnsupportedPayload));
        }
        for data in [ValueData::Other, ValueData::String(None), ValueData::Bytes(vec![])] {
            let bad = request(path, Method::Execute, Some(Payload::Value(data)));
            let error = handle_ipc_request(&bad, &mut servers).unwrap_err();
            assert!(matches!(error, IpcError::UnsupportedValueData));
        }
    }
    let bad = request("downgrade", Method::Execute, many(&[Some("a")]));
    let error = handle_ipc_request(&bad, &mut servers).unwrap_err();
    assert!(matches!(error, IpcError::UnsupportedValueData));
    let bad = request("retry_upload", Method::Execute, one("a"));
    let error = handle_ipc_request(&bad, &mut servers).unwrap_err();
    assert!(matches!(error, IpcError::UnsupportedValueData));
    let bad = request("elsewhere", Method::Other("Delete".to_string()), None);
    let error = handle_ipc_request(&bad, &mut servers).unwrap_err();
    assert!(matches!(error, IpcError::UnsupportedPath));
    let mut bad = request("devices", Method::Read, None);
    bad.entity.kind = EntityKind::Gateway { service: "lwm2mserver".to_string() };
    let error = handle_ipc_request(&bad, &mut servers).unwrap_err();
    assert!(matches!(error, IpcError::UnsupportedService(name) if name == "lwm2mserver"));
    for kind in [EntityKind::Device { device: "a".to_string() }, EntityKind::Other] {
        bad.entity.kind = kind;
        let error = handle_ipc_request(&bad, &mut servers).unwrap_err();
        assert!(matches!(error, IpcError::UnsupportedEntityKind));
    }
    assert_eq!(marks(&servers), vec![PLAIN; 4]);
}

fn ended(step: CycleStep) -> CycleEnd {
    match step {
        CycleStep::Ended(end) => end,
        other => panic!("{:?}", other),
    }
}

#[test]
fn a_round_without_index_loads_it_first() {
    let config = Config::for_tenant(None, None);
    let mut index = ImageIndex::new(&config);
    let mut servers = configured_servers(&config);
    let mut cycle = Cycle::new();
    let step = cycle.advance_at(CycleEvent::Begin, &mut servers, &index, NOW);
    assert!(matches!(step, CycleStep::LoadIndex));
    let failed = |waited: u64| CycleEvent::IndexLoaded { success: false, waited };
    let step = cycle.advance_at(failed(86_399), &mut servers, &index, NOW);
    assert_eq!(ended(step), CycleEnd::NoIndex(Severity::Info));
    let step = cycle.advance_at(failed(86_400), &mut servers, &index, NOW);
    assert_eq!(ended(step), CycleEnd::NoIndex(Severity::Error));
    let loaded = CycleEvent::IndexLoaded { success: true, waited: 0 };
    let step = cycle.advance_at(loaded, &mut servers, &index, NOW);
    assert!(matches!(step, CycleStep::ReportAliveness));
    let step = cycle.advance_at(CycleEvent::AlivenessReported, &mut servers, &index, NOW);
    assert!(matches!(step, CycleStep::LoadDevices { server: 0 }));
    index.etag = Some("e".to_string());
    let step = cycle.advance_at(CycleEvent::Begin, &mut servers, &index, NOW);
    assert!(matches!(step, CycleStep::ReportAliveness));
    let step = cycle.advance_at(CycleEvent::AlivenessReported, &mut Vec::new(), &index, NOW);
    assert_eq!(ended(step), CycleEnd::Done);
}

#[test]
fn a_round_needs_all_descriptions() {
    let config = Config::for_tenant(None, None);
    let mut index = ImageIndex::new(&config);
    index.etag = Some("e".to_string());
    let mut servers = configured_servers(&config);
    let mut cycle = Cycle::new();
    cycle.advance_at(CycleEvent::Begin, &mut servers, &index, NOW);
    let loaded = CycleEvent::DevicesLoaded(Some(infos(&["a"])));
    let step = cycle.advance_at(loaded, &mut servers, &index, NOW);
    assert!(matches!(step, CycleStep::LoadDevices { server: 1 }));
    let step = cycle.advance_at(CycleEvent::DevicesLoaded(None), &mut servers, &index, NOW);
    assert_eq!(ended(step), CycleEnd::MissingInfos);
}

#[test]
fn a_round_stops_where_a_device_is_fetching_an_image() {
    let config = Config::for_tenant(None, None);
    let mut index = ImageIndex::new(&config);
    index.etag = Some("e".to_string());
    let mut servers = configured_servers(&config);
    let mut cycle = Cycle::new();
    cycle.advance_at(CycleEvent::Begin, &mut servers, &index, NOW);
    let mut busy = infos(&["a"]);
    busy.insert("b".to_string(), info(FirmwareUpdateState::Downloading));
    let step =
        cycle.advance_at(CycleEvent::DevicesLoaded(Some(busy)), &mut servers, &index, NOW);
    assert!(matches!(step, CycleStep::LoadDevices { server: 1 }));
    let loaded = CycleEvent::DevicesLoaded(Some(infos(&["c"])));
    let step = cycle.advance_at(loaded, &mut servers, &index, NOW);
    assert_eq!(ended(step), CycleEnd::UploadInProgress);
}

/// Runs a round in which uploads succeed or not. How many images were sent comes back, and how
/// many tasks there were.
fn round(uploads_work: bool) -> (usize, usize) {
    let config = Config::for_tenant(None, None);
    let mut index = ImageIndex::new(&config);
    index.etag = Some("e".to_string());
    index.index_file.firmware_updates = vec![rule("new")];
    let mut servers = configured_servers(&config);
    let mut cycle = Cycle::new();
    let mut sent = 0;
    let mut tasks = 0;
    let mut event = CycleEvent::Begin;
    loop {
        event = match cycle.advance(event, &mut servers, &index) {
            CycleStep::LoadIndex => panic!("there is an index"),
            CycleStep::ReportAliveness => CycleEvent::AlivenessReported,
            CycleStep::LoadDevices { server } => {
                let names = [format!("{}-a", server), format!("{}-b", server)];
                CycleEvent::DevicesLoaded(Some(infos(&[&names[0], &names[1]])))
            }
            CycleStep::Visit { server } => CycleEvent::Work { server, event: ServerEvent::Begin },
            CycleStep::Work { server, step } => CycleEvent::Work {
                server,
                event: match step {
                    ServerStep::RefreshIndex => ServerEvent::IndexRefreshed,
                    ServerStep::Next { position, .. } => ServerEvent::Turn(position),
                    ServerStep::Run { position, task } => {
                        tasks += 1;
                        let report = match task {
                            DeviceTask::Withdraw(info) => {
                                TaskReport::Withdrawn { info, success: true }
                            }
                            DeviceTask::Replace(entry) => {
                                TaskReport::Replaced { entry, success: true }
                            }
                            DeviceTask::Download(entry) => {
                                TaskReport::Downloaded { entry, image: Some(vec![1, 2]) }
                            }
                            DeviceTask::Upload(image) => {
                                assert_eq!(image, vec![1, 2]);
                                if uploads_work {
                                    sent += 1;
                                }
                                TaskReport::Uploaded { success: uploads_work }
                            }
                        };
                        ServerEvent::TaskDone { position, report }
                    }
                    ServerStep::Finished(_) => panic!("the round goes on by itself"),
                },
            },
            CycleStep::Ended(end) => {
                assert_eq!(end, CycleEnd::Done);
                return (sent, tasks);
            }
        }
    }
}

#[test]
fn a_round_sends_one_image() {
    assert_eq!(round(true), (1, 2));
}

#[test]
fn a_failed_upload_gives_the_next_device_its_turn() {
    assert_eq!(round(false), (0, 8));
}

#[test]
fn a_round_does_not_work_on_a_service_it_does_not_know() {
    let config = Config::for_tenant(None, None);
    let index = ImageIndex::new(&config);
    let mut servers = configured_servers(&config);
    let event = CycleEvent::Work { server: 0, event: ServerEvent::Begin };
    let step = Cycle::new().advance_at(event, &mut servers, &index, NOW);
    assert_eq!(ended(step), CycleEnd::MissingInfos);
}

#[test]
fn the_service_reports_once_a_day_that_it_is_alive() {
    assert!(!aliveness_due(0));
    assert!(!aliveness_due(86_400));
    assert!(aliveness_due(86_401));
    let config = Config::for_tenant(None, None);
    let mut index = ImageIndex::new(&config);
    assert_eq!(index_label(&index), "No index etag");
    index.etag = Some("mark".to_string());
    assert_eq!(index_label(&index), "mark");
}

#[test]
fn requests_and_rounds_keep_the_devices() {
    let mut servers = fleet();
    let list = vec![
        request("downgrade", Method::Execute, one("b")),
        request("retry_upload", Method::Execute, many(&[Some("a"), Some("c")])),
        request("retry_upload", Method::Execute, many(&[Some("z")])),
    ];
    for request in &list {
        let _ = handle_ipc_request(request, &mut servers);
        assert_eq!(ids(&servers[0]), vec!["a", "b"]);
        assert_eq!(ids(&servers[1]), vec!["c", "a"]);
    }
    let config = Config::for_tenant(None, None);
    let index = ImageIndex::new(&config);
    let described = infos(&["b", "e"]);
    servers[0].process_at(ServerEvent::Begin, &described, &index, NOW);
    assert_eq!(ids(&servers[0]), vec!["b", "e"]);
    assert!(servers[0].devices[0].oneshot_fota_loop);
    servers[0].process_at(ServerEvent::Turn(1), &described, &index, NOW);
    assert!(matches!(servers[0].devices[0].last_skip_reason, SkipReason::Never));
    assert!(matches!(servers[0].devices[1].last_skip_reason, SkipReason::NoRule));
}
