use fwrolloutd::clock::Timestamp;
use fwrolloutd::config::Config;
use fwrolloutd::device_info::DeviceInfo;
use fwrolloutd::index::{
    midnight_after, DownloadError, DownloadEvent, DownloadStep, EtagHeader, ImageIndex,
    ImageIndexEntry, IndexError, IndexEvent, IndexFile, IndexOutcome, IndexStep,
};
use fwrolloutd::protocol::{FirmwareUpdateResult, FirmwareUpdateState};
use fwrolloutd::report::Severity;

const JSON: &str = r#"{
  "ipso_definitions": "ipso_definitions_9630f6ea6a0608b03bfa279b340957fe68afcf4c.tar.gz",
  "firmware_updates": [
    {
      "model_number": "18869",
      "software_version": "ICD1.16_1.0.0.121",
      "firmware_version": "2.4.7-1.2.0-4349",
      "pkg_version": "4.0.0-1.5.3-2.4.1",
      "update": true,
      "url": "18869/4.0.0-1.5.3-2.4.1/watering_computer-2.4.1_fota_v2_bsa.container"
    },
    {
      "model_number": "18869",
      "software_version": "ICD1.16_1.0.1.128",
      "firmware_version": "2.5.0-1.2.1-4674",
      "pkg_version": "4.0.0-1.5.3-2.4.1",
      "update": true,
      "url": "18869/4.0.0-1.5.3-2.4.1/watering_computer-2.4.1_fota_v2_bsa.container"
    }
    ]
}"#;

fn text(value: &serde_json::Value, key: &str) -> String {
    value.get(key).unwrap().as_str().unwrap().to_string()
}

fn parsed(json: &str) -> IndexFile {
    let value: serde_json::Value = serde_json::from_str(json).unwrap();
    IndexFile {
        ipso_definitions: text(&value, "ipso_definitions"),
        firmware_updates: value
            .get("firmware_updates")
            .unwrap()
            .as_array()
            .unwrap()
            .iter()
            .map(|entry| ImageIndexEntry {
                model_number: text(entry, "model_number"),
                software_version: text(entry, "software_version"),
                firmware_version: text(entry, "firmware_version"),
                pkg_version: text(entry, "pkg_version"),
                url: text(entry, "url"),
                update: entry.get("update").unwrap().as_bool().unwrap(),
            })
            .collect(),
    }
}

#[test]
fn parse_index_v2_json() {
    let config = Config::for_tenant(None, None);
    let mut index = ImageIndex::new(&config);
    index.index_file = parsed(JSON);
    assert_eq!(
        index.index_file.ipso_definitions,
        "ipso_definitions_9630f6ea6a0608b03bfa279b340957fe68afcf4c.tar.gz"
    );

    let entry = &index.index_file.firmware_updates[0];
    assert_eq!(entry.model_number, "18869");
    assert_eq!(entry.software_version, "ICD1.16_1.0.0.121");
    assert_eq!(entry.firmware_version, "2.4.7-1.2.0-4349");
    assert_eq!(entry.pkg_version, "4.0.0-1.5.3-2.4.1");
    assert!(entry.update);
    assert_eq!(
        entry.url,
        "18869/4.0.0-1.5.3-2.4.1/watering_computer-2.4.1_fota_v2_bsa.container"
    );

    let entry = &index.index_file.firmware_updates[1];
    assert_eq!(entry.model_number, "18869");
    assert_eq!(entry.software_version, "ICD1.16_1.0.1.128");
    assert_eq!(entry.firmware_version, "2.5.0-1.2.1-4674");
    assert_eq!(entry.pkg_version, "4.0.0-1.5.3-2.4.1");
    assert!(entry.update);
    assert_eq!(
        entry.url,
        "18869/4.0.0-1.5.3-2.4.1/watering_computer-2.4.1_fota_v2_bsa.container"
    );
}

fn info(software_version: &str, firmware_version: &str) -> DeviceInfo {
    DeviceInfo {
        model_number: "18869".to_string(),
        software_version: software_version.to_string(),
        firmware_version: firmware_version.to_string(),
        firmware_update_state: FirmwareUpdateState::Idle,
        firmware_update_result: FirmwareUpdateResult::Initial,
        pkg_version: String::new(),
        online: true,
    }
}

fn rule(software_version: &str, pkg_version: &str, update: bool) -> ImageIndexEntry {
    ImageIndexEntry {
        model_number: "18869".to_string(),
        software_version: software_version.to_string(),
        firmware_version: "f".to_string(),
        pkg_version: pkg_version.to_string(),
        url: format!("images/{}", pkg_version),
        update,
    }
}

#[test]
fn the_first_rule_that_serves_a_device_is_found() {
    let config = Config::for_tenant(None, None);
    let mut index = ImageIndex::new(&config);
    index.index_file.firmware_updates =
        vec![rule("s", "one", false), rule("t", "two", true), rule("s", "three", true)];
    let found = index.find_update(&info("s", "f"), false).map(|e| e.pkg_version.as_str());
    assert_eq!(found, Some("three"));
    let found = index.find_update(&info("s", "f"), true).map(|e| e.pkg_version.as_str());
    assert_eq!(found, Some("one"));
    let found = index.find_update(&info("t", "f"), false).map(|e| e.pkg_version.as_str());
    assert_eq!(found, Some("two"));
    assert!(index.find_update(&info("t", "g"), true).is_none());
    assert!(index.has_rule(&info("t", "g")));
    let mut other = info("s", "f");
    other.model_number = "19000".to_string();
    assert!(!index.has_rule(&other));
    assert!(index.find_update(&other, true).is_none());
}

#[test]
fn the_setting_makes_every_rule_count() {
    let mut config = Config::for_tenant(None, None);
    config.fota_loop = true;
    let mut index = ImageIndex::new(&config);
    index.index_file.firmware_updates = vec![rule("s", "one", false)];
    let found = index.find_update(&info("s", "f"), false).map(|e| e.pkg_version.as_str());
    assert_eq!(found, Some("one"));
}

#[test]
fn a_new_index_holds_nothing() {
    let config = Config::for_tenant(None, None);
    let index = ImageIndex::new(&config);
    assert_eq!(index.index_file.ipso_definitions, "");
    assert!(index.index_file.firmware_updates.is_empty());
    assert!(index.etag.is_none());
    assert!(index.next_update.is_none());
    assert_eq!(
        index.ipso_registry.registry_path_base(),
        b"/var/lib/ipso_definitions/base"
    );
    assert!(IndexFile::new().firmware_updates.is_empty());
}

fn finished(step: IndexStep) -> Result<IndexOutcome, IndexError> {
    match step {
        IndexStep::Finished(result) => result,
        other => panic!("{:?}", other),
    }
}

#[test]
fn an_update_takes_over_a_new_index_file() {
    let config = Config::for_tenant(Some("sg-qa"), None);
    let mut index = ImageIndex::new(&config);
    match index.update(IndexEvent::Begin) {
        IndexStep::Fetch { url, known, seconds } => {
            assert_eq!(url, config.index_url);
            assert_eq!(seconds, 300);
            assert_eq!(known, None);
        }
        other => panic!("{:?}", other),
    }
    let header = EtagHeader::Text("\"mark\"".to_string());
    let etag = match index.update(IndexEvent::Reply { status: 200, header }) {
        IndexStep::ReadBody { etag } => etag,
        other => panic!("{:?}", other),
    };
    assert_eq!(etag, "\"mark\"");
    assert!(index.next_update.is_some());
    let (url, etag) = match index.update(IndexEvent::Body { etag, file: Some(parsed(JSON)) }) {
        IndexStep::UpdateRegistry { url, etag } => (url, etag),
        other => panic!("{:?}", other),
    };
    assert_eq!(
        url,
        "https://gateway-dev.iot.sg.dss.husqvarnagroup.net/firmware-repository/qa/\
         ipso_definitions_9630f6ea6a0608b03bfa279b340957fe68afcf4c.tar.gz"
    );
    assert!(index.etag.is_none());
    let step = index.update(IndexEvent::RegistryDone { etag, success: true });
    assert_eq!(finished(step), Ok(IndexOutcome::Updated));
    assert_eq!(index.etag.as_deref(), Some("\"mark\""));
    for entry in &index.index_file.firmware_updates {
        assert_eq!(
            entry.url,
            "https://gateway-dev.iot.sg.dss.husqvarnagroup.net/firmware-repository/qa/\
             18869/4.0.0-1.5.3-2.4.1/watering_computer-2.4.1_fota_v2_bsa.container"
        );
    }
    match index.update(IndexEvent::Begin) {
        IndexStep::Fetch { known, .. } => assert_eq!(known.as_deref(), Some("\"mark\"")),
        other => panic!("{:?}", other),
    }
}

#[test]
fn failures_of_an_update_keep_the_mark() {
    let config = Config::for_tenant(None, None);
    let mut index = ImageIndex::new(&config);
    index.etag = Some("old".to_string());
    let etag = || "new".to_string();
    let mut broken = parsed(JSON);
    broken.ipso_definitions = "http://[".to_string();
    let cases = vec![
        (
            IndexEvent::Reply { status: 500, header: EtagHeader::Missing },
            IndexError::Status(500),
        ),
        (IndexEvent::Reply { status: 200, header: EtagHeader::Missing }, IndexError::NoEtag),
        (IndexEvent::Reply { status: 200, header: EtagHeader::NotText }, IndexError::EtagNotText),
        (IndexEvent::NoReply { connect: false, timeout: false }, IndexError::NoReply),
        (IndexEvent::Body { etag: etag(), file: None }, IndexError::Body),
        (IndexEvent::Body { etag: etag(), file: Some(broken) }, IndexError::InvalidIpsoUrl),
        (IndexEvent::RegistryDone { etag: etag(), success: false }, IndexError::Registry),
    ];
    for (event, error) in cases {
        assert_eq!(finished(index.update(event)), Err(error));
        assert_eq!(index.etag.as_deref(), Some("old"));
    }
}

#[test]
fn a_reference_that_makes_no_url_stops_the_take_over() {
    let config = Config::for_tenant(None, None);
    let mut index = ImageIndex::new(&config);
    index.index_file.firmware_updates =
        vec![rule("a", "1", true), rule("b", "2", true), rule("c", "3", true)];
    index.index_file.firmware_updates[1].url = "http://[".to_string();
    let etag = "new".to_string();
    let step = index.update(IndexEvent::RegistryDone { etag, success: true });
    assert_eq!(finished(step), Err(IndexError::InvalidUrl(1)));
    assert!(index.etag.is_none());
    let urls: Vec<&str> =
        index.index_file.firmware_updates.iter().map(|e| e.url.as_str()).collect();
    assert_eq!(
        urls,
        vec![
            "https://gateway.iot.sg.dss.husqvarnagroup.net/firmware-repository/images/1",
            "http://[",
            "images/3",
        ]
    );
}

#[test]
fn urls_are_taken_over_in_order() {
    let config = Config::for_tenant(None, None);
    let mut index = ImageIndex::new(&config);
    index.index_file.firmware_updates = vec![rule("a", "1", true), rule("b", "2", false)];
    let urls = vec![Some("http://x/1".to_string()), Some("http://x/2".to_string())];
    let step = index.take_urls("e".to_string(), &urls);
    assert_eq!(finished(step), Ok(IndexOutcome::Updated));
    assert_eq!(index.index_file.firmware_updates[0].url, "http://x/1");
    assert_eq!(index.index_file.firmware_updates[1].url, "http://x/2");
    assert!(!index.index_file.firmware_updates[1].update);
    assert_eq!(index.etag.as_deref(), Some("e"));
    let step = index.take_file("f".to_string(), IndexFile::new(), None);
    assert_eq!(finished(step), Err(IndexError::InvalidIpsoUrl));
    assert!(index.index_file.firmware_updates.is_empty());
}

#[test]
fn nothing_new_keeps_the_rules() {
    let config = Config::for_tenant(None, None);
    let mut index = ImageIndex::new(&config);
    index.index_file = parsed(JSON);
    index.etag = Some("old".to_string());
    let event = IndexEvent::Reply { status: 304, header: EtagHeader::Missing };
    assert_eq!(finished(index.update(event)), Ok(IndexOutcome::NotModified));
    assert!(index.next_update.is_some());
    let scheduled = index.next_update;
    for (connect, timeout) in [(true, false), (false, true)] {
        let event = IndexEvent::NoReply { connect, timeout };
        assert_eq!(finished(index.update(event)), Ok(IndexOutcome::Unreachable));
    }
    assert_eq!(index.next_update, scheduled);
    assert_eq!(index.index_file.firmware_updates.len(), 2);
    assert_eq!(index.etag.as_deref(), Some("old"));
}

#[test]
fn the_next_check_is_some_minutes_past_midnight() {
    let config = Config::for_tenant(None, None);
    let mut index = ImageIndex::new(&config);
    let midnight = Timestamp { seconds: 86_400, nanos: 0 };
    let event = || IndexEvent::Reply { status: 304, header: EtagHeader::Missing };
    index.update_at(event(), Some(midnight), 55);
    assert_eq!(index.next_update, Some(Timestamp { seconds: 86_400 + 3300, nanos: 0 }));
    index.update_at(event(), Some(midnight), 0);
    assert_eq!(index.next_update, Some(midnight));
    let step = index.update_at(event(), None, 7);
    assert_eq!(finished(step), Err(IndexError::NoMidnight));
    assert_eq!(index.next_update, Some(midnight));
    index.schedule_check(midnight, 1);
    assert_eq!(index.next_update, Some(Timestamp { seconds: 86_460, nanos: 0 }));
}

#[test]
fn the_next_check_is_tomorrow_by_the_clock() {
    let config = Config::for_tenant(None, None);
    let mut index = ImageIndex::new(&config);
    let now = chrono::Local::now().timestamp();
    assert!(index.delay_next_check());
    let next = index.next_update.unwrap();
    assert!(next.seconds > now);
    assert!(next.seconds <= now + 26 * 3600 + 3300);
    assert_eq!(next.nanos, 0);
    let local = chrono::DateTime::from_timestamp(next.seconds, 0)
        .unwrap()
        .with_timezone(&chrono::Local);
    assert_eq!(chrono::Timelike::hour(&local), 0);
    assert!(chrono::Timelike::minute(&local) <= 55);
    assert_eq!(chrono::Timelike::second(&local), 0);
}

#[test]
fn a_check_is_due_when_its_time_has_passed() {
    let config = Config::for_tenant(None, None);
    let mut index = ImageIndex::new(&config);
    let at = |seconds: i64, nanos: u32| Timestamp { seconds, nanos };
    assert_eq!(index.update_due_at(at(0, 0)), None);
    assert_eq!(index.update_if_needed(), None);
    index.next_update = Some(at(1000, 500));
    assert_eq!(index.update_due_at(at(999, 0)), None);
    assert_eq!(index.update_due_at(at(1000, 500)), None);
    assert_eq!(index.update_due_at(at(1000, 501)), Some(Severity::Info));
    assert_eq!(index.update_due_at(at(1000 + 86_400, 499)), Some(Severity::Info));
    assert_eq!(index.update_due_at(at(1000 + 86_400, 500)), Some(Severity::Error));
    assert_eq!(index.update_if_needed(), Some(Severity::Error));
}

#[test]
fn an_image_is_downloaded_step_by_step() {
    let entry = rule("s", "1", true);
    assert!(matches!(
        entry.download(DownloadEvent::Begin),
        DownloadStep::Get { url, seconds: 300 } if url == "images/1"
    ));
    assert!(matches!(entry.download(DownloadEvent::Status(200)), DownloadStep::ReadBody));
    assert!(matches!(entry.download(DownloadEvent::Status(299)), DownloadStep::ReadBody));
    for status in [199, 300, 404, 500] {
        assert!(matches!(
            entry.download(DownloadEvent::Status(status)),
            DownloadStep::Failed(DownloadError::Status(s)) if s == status
        ));
    }
    assert!(matches!(
        entry.download(DownloadEvent::NoReply),
        DownloadStep::Failed(DownloadError::NoReply)
    ));
    assert!(matches!(
        entry.download(DownloadEvent::Body(None)),
        DownloadStep::Failed(DownloadError::NoBody)
    ));
    match entry.download(DownloadEvent::Body(Some(vec![1, 2, 3]))) {
        DownloadStep::Image(image) => assert_eq!(image, vec![1, 2, 3]),
        other => panic!("{:?}", other),
    }
    assert_eq!(entry.clone().url, "images/1");
}

#[test]
fn the_checks_are_spread_by_chance() {
    let config = Config::for_tenant(None, None);
    let mut index = ImageIndex::new(&config);
    let mut times = Vec::new();
    for _ in 0..300 {
        assert!(index.delay_next_check());
        let next = index.next_update.unwrap();
        assert_eq!(next.seconds % 60, 0);
        if !times.contains(&next.seconds) {
            times.push(next.seconds);
        }
    }
    assert!(times.len() > 10);
}

#[test]
fn a_check_is_scheduled_where_there_is_a_midnight() {
    let config = Config::for_tenant(None, None);
    let mut index = ImageIndex::new(&config);
    assert!(!index.delay_next_check_at(None, 5));
    assert_eq!(index.next_update, None);
    let midnight = Timestamp { seconds: 86_400, nanos: 0 };
    assert!(index.delay_next_check_at(Some(midnight), 5));
    assert_eq!(index.next_update, Some(Timestamp { seconds: 86_700, nanos: 0 }));
    assert!(!index.delay_next_check_at(None, 7));
    assert_eq!(index.next_update, Some(Timestamp { seconds: 86_700, nanos: 0 }));
}

#[test]
fn the_midnight_after_a_day_starts_the_next_day() {
    let today = chrono::NaiveDate::from_ymd_opt(2024, 2, 28).unwrap();
    let days = chrono::Datelike::num_days_from_ce(&today);
    let start = midnight_after(days).unwrap();
    let local = chrono::DateTime::from_timestamp(start.seconds, 0)
        .unwrap()
        .with_timezone(&chrono::Local)
        .naive_local();
    let tomorrow = chrono::NaiveDate::from_ymd_opt(2024, 2, 29).unwrap();
    assert_eq!(local, tomorrow.and_time(chrono::NaiveTime::MIN));
    assert_eq!(start.nanos, 0);
    let config = Config::for_tenant(None, None);
    let mut index = ImageIndex::new(&config);
    for status in [200, 304] {
        index.next_update = None;
        index.update_on(IndexEvent::Reply { status, header: EtagHeader::Missing }, days);
        let next = index.next_update.unwrap();
        assert!(start.seconds <= next.seconds && next.seconds <= start.seconds + 55 * 60);
    }
    index.next_update = None;
    assert!(index.delay_next_check_on(days));
    let next = index.next_update.unwrap();
    assert!(start.seconds <= next.seconds && next.seconds <= start.seconds + 55 * 60);
}
