//! What holds of the settings.

use vstd::prelude::*;
use vstd::string::*;
use crate::config;
use crate::config::{Config, ConfigError, ConfigEvent, ConfigFile, ConfigStep};

verus! {

/// The tenants of the live system, and an empty tenant name, lead to the index file of the live
/// system, the tenant of the quality assurance system to its own, and every other tenant to the one
/// of the development system.
pub proof fn law_tenant_leads_to_its_index_file(tenant: Seq<char>)
    ensures
        tenant == "sg-live"@ || tenant == "sg-staging"@ || tenant == ""@ ==> config::index_url_of(
            tenant,
        )
            == "https://gateway.iot.sg.dss.husqvarnagroup.net/firmware-repository/index_v2.json"@,
        tenant == "sg-qa"@ ==> config::index_url_of(tenant)
            == "https://gateway-dev.iot.sg.dss.husqvarnagroup.net/firmware-repository/qa/index_v2.json"@,
        tenant != "sg-live"@ && tenant != "sg-staging"@ && tenant != ""@ && tenant != "sg-qa"@
            ==> config::index_url_of(tenant)
            == "https://gateway-dev.iot.sg.dss.husqvarnagroup.net/firmware-repository/dev/index_v2.json"@,
{
    reveal_strlit("sg-live");
    reveal_strlit("sg-staging");
    reveal_strlit("sg-qa");
    reveal_strlit("");
    assert("sg-live"@.len() == 7 && "sg-staging"@.len() == 10 && "sg-qa"@.len() == 5 && ""@.len()
        == 0);
}

/// The tenant name that the operator gave counts before the one of the boot environment, which counts
/// only where the operator gave none.
pub proof fn law_operator_decides_on_the_tenant(chosen: Option<&str>, stored: Option<&str>)
    ensures
        config::tenant_of(config::text_in(chosen), config::text_in(stored)) == match (
            chosen,
            stored,
        ) {
            (Some(name), _) => Some(name@),
            (None, Some(name)) => Some(name@),
            (None, None) => None,
        },
{
}

/// The settings that are used are those of the local file, or else those of the file of the system, as
/// they were read; the ready-made ones are used only where both files are missing; and a file that is
/// there but cannot be used ends the search with its own error.
pub proof fn law_settings_come_from_the_first_file(event: ConfigEvent, step: ConfigStep)
    requires
        step == config::searched(event),
    ensures
        match step {
            ConfigStep::ReadLocal(path) => event is Begin && path@ == "config.yml"@,
            ConfigStep::ReadSystem(path) => event == ConfigEvent::Local(ConfigFile::Missing)
                && path@ == "/etc/fwrolloutd.yml"@,
            ConfigStep::Use(settings) => event == ConfigEvent::Local(ConfigFile::Parsed(settings))
                || event == ConfigEvent::System(ConfigFile::Parsed(settings)),
            ConfigStep::UseDefault => event == ConfigEvent::System(ConfigFile::Missing),
            ConfigStep::Failed(ConfigError::Unreadable) => event == ConfigEvent::Local(
                ConfigFile::Unreadable,
            ) || event == ConfigEvent::System(ConfigFile::Unreadable),
            ConfigStep::Failed(ConfigError::Unparsable) => event == ConfigEvent::Local(
                ConfigFile::Unparsable,
            ) || event == ConfigEvent::System(ConfigFile::Unparsable),
        },
{
}

} // verus!
