//! Settings of the service.

use vstd::prelude::*;
use vstd::string::*;
use vstd::utf8::*;
use crate::text;
use crate::text::{reads, text_of_bytes, trim};

verus! {

/// Where the index file of the live system lies.
pub const LIVE_INDEX_URL: &'static str =
    "https://gateway.iot.sg.dss.husqvarnagroup.net/firmware-repository/index_v2.json";

/// Where the index file of the quality assurance system lies.
pub const QA_INDEX_URL: &'static str =
    "https://gateway-dev.iot.sg.dss.husqvarnagroup.net/firmware-repository/qa/index_v2.json";

/// Where the index file of the development system lies.
pub const DEV_INDEX_URL: &'static str =
    "https://gateway-dev.iot.sg.dss.husqvarnagroup.net/firmware-repository/dev/index_v2.json";

/// Settings of the service.
#[derive(Debug)]
pub struct Config {
    /// Whether firmware is sent that the index does not mark as an update.
    pub fota_loop: bool,
    /// In seconds.
    pub sleep_interval: u64,
    pub index_url: String,
    /// In seconds.
    pub ipc_connect_retry_interval: u64,
    pub device_servers: Vec<String>,
    /// A path is a byte string.
    pub ipso_registry_root_path: Vec<u8>,
}

/// The index file that a tenant name stands for.
pub open spec fn index_url_of(tenant: Seq<char>) -> Seq<char> {
    if tenant == "sg-live"@ || tenant == "sg-staging"@ || tenant == ""@ {
        LIVE_INDEX_URL@
    } else if tenant == "sg-qa"@ {
        QA_INDEX_URL@
    } else {
        DEV_INDEX_URL@
    }
}

/// The tenant: the name that the operator gave, or else the name that the boot environment holds.
pub open spec fn tenant_of(chosen: Option<Seq<char>>, stored: Option<Seq<char>>) -> Option<
    Seq<char>,
> {
    match chosen {
        Some(name) => Some(name),
        None => stored,
    }
}

/// The text that an optional string holds.
pub open spec fn text_in(text: Option<&str>) -> Option<Seq<char>> {
    match text {
        Some(t) => Some(t@),
        None => None,
    }
}

impl Config {
    /// The settings where none are configured. `chosen` is the tenant name that the operator gave,
    /// `stored` the one of the boot environment, if it could be read. White space around a name
    /// does not count, and where there is no name at all the live system is used.
    pub fn for_tenant(chosen: Option<&str>, stored: Option<&str>) -> (r: Config)
        ensures
            r.index_url@ == match tenant_of(text_in(chosen), text_in(stored)) {
                Some(tenant) => index_url_of(text::trimmed(tenant)),
                None => LIVE_INDEX_URL@,
            },
            r.sleep_interval == 300,
            !r.fota_loop,
            r.ipc_connect_retry_interval == 10,
            r.device_servers@.len() == 2,
            r.device_servers@[0]@ == "lemonbeatd"@,
            r.device_servers@[1]@ == "lwm2mserver"@,
            r.ipso_registry_root_path@ == encode_utf8("/var/lib/ipso_definitions/"@),
    {
        let tenant = match chosen {
            Some(name) => Some(name),
            None => stored,
        };
        let index_url = match tenant {
            None => LIVE_INDEX_URL.to_owned(),
            Some(name) => index_url_for(trim(name)),
        };
        let mut device_servers: Vec<String> = Vec::new();
        device_servers.push("lemonbeatd".to_owned());
        device_servers.push("lwm2mserver".to_owned());
        Config {
            sleep_interval: 300,
            index_url,
            fota_loop: false,
            ipc_connect_retry_interval: 10,
            device_servers,
            ipso_registry_root_path: "/var/lib/ipso_definitions/".as_bytes_vec(),
        }
    }
}

/// A file with settings, as it was found.
#[derive(Debug)]
pub enum ConfigFile {
    Missing,
    /// It is there but could not be read.
    Unreadable,
    /// It was read but holds no settings.
    Unparsable,
    Parsed(Config),
}

/// Why a file with settings cannot be used.
#[derive(Clone, Copy, Debug, PartialEq, Eq, Structural)]
pub enum ConfigError {
    Unreadable,
    Unparsable,
}

impl Config {
    /// The settings in a file. That there is no such file is no error.
    pub fn load(file: ConfigFile) -> (r: Result<Option<Config>, ConfigError>)
        ensures
            r == match file {
                ConfigFile::Missing => Ok::<Option<Config>, ConfigError>(None),
                ConfigFile::Unreadable => Err(ConfigError::Unreadable),
                ConfigFile::Unparsable => Err(ConfigError::Unparsable),
                ConfigFile::Parsed(config) => Ok(Some(config)),
            },
    {
        match file {
            ConfigFile::Missing => Ok(None),
            ConfigFile::Unreadable => Err(ConfigError::Unreadable),
            ConfigFile::Unparsable => Err(ConfigError::Unparsable),
            ConfigFile::Parsed(config) => Ok(Some(config)),
        }
    }
}

/// Where settings are looked for first.
pub const LOCAL_CONFIG_PATH: &'static str = "config.yml";

/// Where settings are looked for next.
pub const SYSTEM_CONFIG_PATH: &'static str = "/etc/fwrolloutd.yml";

/// What has happened to the search for settings.
#[derive(Debug)]
pub enum ConfigEvent {
    Begin,
    /// The local file has been looked at.
    Local(ConfigFile),
    /// The file of the system has been looked at.
    System(ConfigFile),
}

/// What to do next to find the settings.
#[derive(Debug)]
pub enum ConfigStep {
    /// Look at the local file.
    ReadLocal(&'static str),
    /// Look at the file of the system.
    ReadSystem(&'static str),
    Use(Config),
    /// No settings are configured.
    UseDefault,
    Failed(ConfigError),
}

/// What a file with settings leads to, where `missing` is to be done without one.
pub open spec fn loaded(file: ConfigFile, missing: ConfigStep) -> ConfigStep {
    match file {
        ConfigFile::Missing => missing,
        ConfigFile::Unreadable => ConfigStep::Failed(ConfigError::Unreadable),
        ConfigFile::Unparsable => ConfigStep::Failed(ConfigError::Unparsable),
        ConfigFile::Parsed(config) => ConfigStep::Use(config),
    }
}

fn take_file(file: ConfigFile, missing: ConfigStep) -> (r: ConfigStep)
    ensures
        r == loaded(file, missing),
{
    match Config::load(file) {
        Ok(Some(config)) => ConfigStep::Use(config),
        Ok(None) => missing,
        Err(e) => ConfigStep::Failed(e),
    }
}

/// What an event makes of the search for settings.
pub open spec fn searched(event: ConfigEvent) -> ConfigStep {
    match event {
        ConfigEvent::Begin => ConfigStep::ReadLocal(LOCAL_CONFIG_PATH),
        ConfigEvent::Local(file) => loaded(file, ConfigStep::ReadSystem(SYSTEM_CONFIG_PATH)),
        ConfigEvent::System(file) => loaded(file, ConfigStep::UseDefault),
    }
}

/// Finds the settings, one step at a time: in the local file, or else in the file of the system. A
/// file that is there but cannot be used ends the search.
pub fn find_config(event: ConfigEvent) -> (r: ConfigStep)
    ensures
        r == searched(event),
{
    match event {
        ConfigEvent::Begin => ConfigStep::ReadLocal(LOCAL_CONFIG_PATH),
        ConfigEvent::Local(file) => take_file(file, ConfigStep::ReadSystem(SYSTEM_CONFIG_PATH)),
        ConfigEvent::System(file) => take_file(file, ConfigStep::UseDefault),
    }
}

fn index_url_for(tenant: &str) -> (r: String)
    ensures
        r@ == index_url_of(tenant@),
{
    if reads(tenant, "sg-live") || reads(tenant, "sg-staging") || reads(tenant, "") {
        LIVE_INDEX_URL.to_owned()
    } else if reads(tenant, "sg-qa") {
        QA_INDEX_URL.to_owned()
    } else {
        DEV_INDEX_URL.to_owned()
    }
}

/// Why the boot environment gives no value.
#[derive(Clone, Copy, Debug, PartialEq, Eq, Structural)]
pub enum UbootenvError {
    /// The tool that reads it failed.
    Failed,
    NotUtf8,
}

/// The value of a variable of the boot environment, out of how the tool that reads it ended and
/// what it printed.
pub fn ubootenv_get(success: bool, stdout: Vec<u8>) -> (r: Result<String, UbootenvError>)
    ensures
        match r {
            Ok(value) => success && valid_utf8(stdout@) && value@ == decode_utf8(stdout@),
            Err(UbootenvError::Failed) => !success,
            Err(UbootenvError::NotUtf8) => success && !valid_utf8(stdout@),
        },
{
    if !success {
        return Err(UbootenvError::Failed);
    }
    match text_of_bytes(stdout) {
        Some(value) => Ok(value),
        None => Err(UbootenvError::NotUtf8),
    }
}

/// How a device service is reached.
#[derive(Debug)]
pub struct ReqServiceConfig {
    pub socket_path: String,
    /// In seconds.
    pub retry_interval: u64,
}

impl Clone for ReqServiceConfig {
    fn clone(&self) -> (r: ReqServiceConfig)
        ensures
            r == *self,
    {
        ReqServiceConfig {
            socket_path: self.socket_path.clone(),
            retry_interval: self.retry_interval,
        }
    }
}

impl ReqServiceConfig {
    /// How the device service of the given name is reached.
    pub fn for_service(name: &str, retry_interval: u64) -> (r: ReqServiceConfig)
        ensures
            r.socket_path@ == "/tmp/"@ + name@ + "-command.ipc"@,
            r.retry_interval == retry_interval,
    {
        let mut socket_path = "/tmp/".to_owned();
        socket_path.append(name);
        socket_path.append("-command.ipc");
        ReqServiceConfig { socket_path, retry_interval }
    }
}

} // verus!
