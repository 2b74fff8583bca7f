use fwrolloutd::clock::{Timestamp, EPOCH_DAY, LAST_SECOND};
use fwrolloutd::config::{
    find_config, ubootenv_get, Config, ConfigError, ConfigEvent, ConfigFile, ConfigStep,
    ReqServiceConfig, UbootenvError, DEV_INDEX_URL, LIVE_INDEX_URL, QA_INDEX_URL,
};
use fwrolloutd::exchange::{make_reqservice, ConnectEvent, ConnectStep};
use fwrolloutd::paths::{append, join};
use fwrolloutd::reload::{
    get_lwm2m_pid, reload_lwm2m_server, PidError, ReloadError, ReloadEvent, ReloadStep,
};
use fwrolloutd::report::Severity;
use fwrolloutd::text::{copy_bytes, first_line, reads, same_bytes, trim};

fn index_url(chosen: Option<&str>, stored: Option<&str>) -> String {
    Config::for_tenant(chosen, stored).index_url
}

#[test]
fn the_tenant_decides_over_the_index() {
    let live = "https://gateway.iot.sg.dss.husqvarnagroup.net/firmware-repository/index_v2.json";
    let qa =
        "https://gateway-dev.iot.sg.dss.husqvarnagroup.net/firmware-repository/qa/index_v2.json";
    let dev =
        "https://gateway-dev.iot.sg.dss.husqvarnagroup.net/firmware-repository/dev/index_v2.json";
    for tenant in ["sg-live", "sg-staging", "", " \t\n", "  sg-live\n"] {
        assert_eq!(index_url(None, Some(tenant)), live);
        assert_eq!(index_url(Some(tenant), None), live);
    }
    assert_eq!(index_url(None, None), live);
    assert_eq!(index_url(None, Some("sg-qa\n")), qa);
    assert_eq!(index_url(None, Some("\u{a0}sg-qa\u{3000}")), qa);
    assert_eq!(index_url(None, Some("sg-dev")), dev);
    assert_eq!(index_url(None, Some("sg-live2")), dev);
    assert_eq!(index_url(Some("sg-qa"), Some("sg-live")), qa);
}

#[test]
fn the_index_urls_are_what_a_url_parser_makes_of_them() {
    for url in [LIVE_INDEX_URL, QA_INDEX_URL, DEV_INDEX_URL] {
        assert_eq!(url::Url::parse(url).unwrap().as_str(), url);
    }
}

#[test]
fn settings_have_defaults() {
    let config = Config::for_tenant(None, None);
    assert_eq!(config.sleep_interval, 300);
    assert!(!config.fota_loop);
    assert_eq!(config.ipc_connect_retry_interval, 10);
    assert_eq!(config.device_servers, vec!["lemonbeatd", "lwm2mserver"]);
    assert_eq!(config.ipso_registry_root_path, b"/var/lib/ipso_definitions/");
}

#[test]
fn settings_are_loaded_from_a_file() {
    assert!(matches!(Config::load(ConfigFile::Missing), Ok(None)));
    assert_eq!(Config::load(ConfigFile::Unreadable).unwrap_err(), ConfigError::Unreadable);
    assert_eq!(Config::load(ConfigFile::Unparsable).unwrap_err(), ConfigError::Unparsable);
    let mut config = Config::for_tenant(None, None);
    config.sleep_interval = 7;
    let loaded = Config::load(ConfigFile::Parsed(config)).unwrap().unwrap();
    assert_eq!(loaded.sleep_interval, 7);
}

#[test]
fn the_boot_environment_holds_text() {
    assert_eq!(ubootenv_get(true, b"sg-qa\n".to_vec()), Ok("sg-qa\n".to_string()));
    assert_eq!(ubootenv_get(true, "\u{e4}".as_bytes().to_vec()), Ok("\u{e4}".to_string()));
    assert_eq!(ubootenv_get(true, vec![0xff]), Err(UbootenvError::NotUtf8));
    assert_eq!(ubootenv_get(false, b"x".to_vec()), Err(UbootenvError::Failed));
}

#[test]
fn points_in_time_are_compared_and_moved() {
    let at = |seconds: i64, nanos: u32| Timestamp { seconds, nanos };
    assert!(at(1, 999_999_999).before(at(2, 0)));
    assert!(at(2, 0).before(at(2, 1)));
    assert!(!at(2, 1).before(at(2, 1)));
    assert!(!at(3, 0).before(at(2, 1)));
    assert_eq!(at(-5, 7).plus_seconds(3600), at(3595, 7));
    assert_eq!(at(7200, 0).hours_since(at(0, 0)), 2);
    assert_eq!(at(7200, 0).hours_since(at(0, 1)), 1);
    assert_eq!(at(7200, 1).hours_since(at(0, 1)), 2);
    assert_eq!(at(0, 1).hours_since(at(0, 0)), 0);
    assert_eq!(at(0, 0).hours_since(at(-7200, 0)), 2);
}

#[test]
fn the_calendar_ends_where_chrono_ends() {
    assert_eq!(chrono::DateTime::<chrono::Utc>::MAX_UTC.timestamp(), LAST_SECOND);
    let first = chrono::NaiveDate::from_ymd_opt(1970, 1, 1).unwrap();
    assert_eq!(chrono::Datelike::num_days_from_ce(&first), EPOCH_DAY);
}

#[test]
fn the_first_line_ends_with_its_line_ending() {
    assert_eq!(first_line(""), None);
    assert_eq!(first_line("12"), Some("12".to_string()));
    assert_eq!(first_line("12\n34\n"), Some("12".to_string()));
    assert_eq!(first_line("12\r\n34"), Some("12".to_string()));
    assert_eq!(first_line("12\r"), Some("12\r".to_string()));
    assert_eq!(first_line("\n12"), Some(String::new()));
    assert_eq!(first_line("\r\n"), Some(String::new()));
    assert_eq!(first_line("\u{e4}\u{20ac}\nx"), Some("\u{e4}\u{20ac}".to_string()));
    for text in ["", "a", "a\nb", "a\r\nb", "\n", "\r", "a\r", "\r\n", "a\r\r\nb"] {
        assert_eq!(first_line(text).as_deref(), text.lines().next());
    }
}

#[test]
fn byte_strings_are_compared_and_copied() {
    assert!(same_bytes(b"abc", b"abc"));
    assert!(!same_bytes(b"abc", b"abd"));
    assert!(!same_bytes(b"abc", b"ab"));
    assert!(same_bytes(b"", b""));
    assert_eq!(copy_bytes(b"abc"), b"abc");
    assert!(reads("abc", "abc"));
    assert!(!reads("abc", "ab"));
}

#[test]
fn paths_are_joined_like_those_of_the_system() {
    let cases = [
        ("/a", "b"),
        ("/a/", "b"),
        ("/a", "/b"),
        ("", "b"),
        ("/a", ""),
        ("", ""),
        ("a", "b/c"),
        ("/", "x"),
        ("/a", "../b"),
    ];
    for (directory, path) in cases {
        let joined = std::path::Path::new(directory).join(path);
        assert_eq!(join(directory.as_bytes(), path.as_bytes()), joined.to_str().unwrap().as_bytes());
    }
    let mut path = b"/a".to_vec();
    append(&mut path, b".tmp");
    assert_eq!(path, b"/a.tmp");
}

#[test]
fn the_process_stands_in_the_first_line() {
    assert_eq!(get_lwm2m_pid(b"123\n456\n".to_vec()), Ok("123".to_string()));
    assert_eq!(get_lwm2m_pid(vec![]), Err(PidError::NoProcess));
    assert_eq!(get_lwm2m_pid(vec![0xc0]), Err(PidError::NotUtf8));
}

#[test]
fn the_device_service_is_told_to_reload() {
    assert!(matches!(reload_lwm2m_server(ReloadEvent::Begin), ReloadStep::Search));
    match reload_lwm2m_server(ReloadEvent::Searched(Some(b"7\n".to_vec()))) {
        ReloadStep::SignalHup { pid } => assert_eq!(pid, "7"),
        other => panic!("{:?}", other),
    }
    let finished = |event: ReloadEvent| match reload_lwm2m_server(event) {
        ReloadStep::Finished(result) => result,
        other => panic!("{:?}", other),
    };
    let signalled =
        |success: bool| ReloadEvent::Signalled { pid: "7".to_string(), success };
    assert_eq!(finished(signalled(true)), Ok("7".to_string()));
    assert_eq!(finished(signalled(false)), Err(ReloadError::NotSignalled));
    assert_eq!(finished(ReloadEvent::Searched(None)), Err(ReloadError::NotSearched));
    assert_eq!(
        finished(ReloadEvent::Searched(Some(vec![]))),
        Err(ReloadError::Pid(PidError::NoProcess))
    );
    assert_eq!(
        finished(ReloadEvent::Searched(Some(vec![0xff]))),
        Err(ReloadError::Pid(PidError::NotUtf8))
    );
}

#[test]
fn a_connection_is_tried_until_it_works() {
    let config = ReqServiceConfig::for_service("lemonbeatd", 10);
    let mut attempt = match make_reqservice(&config, ConnectEvent::Begin) {
        ConnectStep::Connect { path, attempt } => {
            assert_eq!(path, "/tmp/lemonbeatd-command.ipc");
            attempt
        }
        other => panic!("{:?}", other),
    };
    for failure in 0..30 {
        attempt = match make_reqservice(&config, ConnectEvent::Failed { attempt }) {
            ConnectStep::Wait { severity, seconds, attempt } => {
                let expected = if failure < 20 { Severity::Info } else { Severity::Error };
                assert_eq!(severity, expected);
                assert_eq!(seconds, 10);
                attempt
            }
            other => panic!("{:?}", other),
        };
        attempt = match make_reqservice(&config, ConnectEvent::Waited { attempt }) {
            ConnectStep::Connect { attempt, .. } => attempt,
            other => panic!("{:?}", other),
        };
    }
    assert_eq!(attempt, 20);
}

#[test]
fn white_space_is_trimmed_like_the_standard_library_does() {
    for text in ["", " ", "a", " a ", "\t a b \r\n", "\u{a0}x\u{2003}", "\u{200b}x", "a\u{3000}"] {
        assert_eq!(trim(text), text.trim());
    }
    for n in 0..0x11_0000u32 {
        if let Some(c) = char::from_u32(n) {
            if c.is_whitespace() || n < 0x100 || (0x2000..0x2100).contains(&n) {
                let text = format!("{}x{}", c, c);
                assert_eq!(trim(&text), text.trim());
            }
        }
    }
}

#[test]
fn settings_are_looked_for_in_two_places() {
    let step = find_config(ConfigEvent::Begin);
    assert!(matches!(step, ConfigStep::ReadLocal("config.yml")));
    let step = find_config(ConfigEvent::Local(ConfigFile::Missing));
    assert!(matches!(step, ConfigStep::ReadSystem("/etc/fwrolloutd.yml")));
    let step = find_config(ConfigEvent::System(ConfigFile::Missing));
    assert!(matches!(step, ConfigStep::UseDefault));
    for place in [ConfigEvent::Local, ConfigEvent::System] {
        let mut config = Config::for_tenant(None, None);
        config.sleep_interval = 9;
        match find_config(place(ConfigFile::Parsed(config))) {
            ConfigStep::Use(config) => assert_eq!(config.sleep_interval, 9),
            other => panic!("{:?}", other),
        }
        let step = find_config(place(ConfigFile::Unreadable));
        assert!(matches!(step, ConfigStep::Failed(ConfigError::Unreadable)));
        let step = find_config(place(ConfigFile::Unparsable));
        assert!(matches!(step, ConfigStep::Failed(ConfigError::Unparsable)));
    }
}
