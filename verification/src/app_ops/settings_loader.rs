use vstd::prelude::*;

verus! {

/// Where the settings of a service come from, in the order they are merged:
/// the default file, the optional file of the run mode, the optional local
/// file, then the environment variables that start with `env_prefix`; the
/// run mode itself is recorded as `environment.name`.
pub struct SettingsSources {
    pub default_file: String,
    pub environment_file: String,
    pub local_file: String,
    pub environment_name: String,
    pub env_prefix: String,
}

/// Run mode of a service that was given none.
pub const DEFAULT_RUN_MODE: &'static str = "development";

/// `config/<app_name>`.
pub open spec fn config_dir(app_name: Seq<char>) -> Seq<char> {
    seq!['c', 'o', 'n', 'f', 'i', 'g', '/'] + app_name
}

pub open spec fn run_mode_or_default(run_mode: Option<Seq<char>>) -> Seq<char> {
    match run_mode {
        Some(m) => m,
        None => DEFAULT_RUN_MODE@,
    }
}

/// The settings sources of service `app_name`, whose environment variables
/// start with `app_env_prefix`, running in `run_mode` (`development` when
/// none is given).
pub fn settings_sources(app_env_prefix: &str, app_name: &str, run_mode: Option<String>) -> (r: SettingsSources)
    ensures
        r.default_file@ == config_dir(app_name@) + "/default.toml"@,
        r.environment_file@ == config_dir(app_name@) + seq!['/'] + run_mode_or_default(
            match run_mode {
                Some(m) => Some(m@),
                None => None,
            },
        ),
        r.local_file@ == config_dir(app_name@) + "/local"@,
        r.environment_name@ == run_mode_or_default(
            match run_mode {
                Some(m) => Some(m@),
                None => None,
            },
        ),
        r.env_prefix@ == app_env_prefix@,
{
    proof {
        reveal_strlit("config/");
        reveal_strlit("/");
    }
    let environment_name = match run_mode {
        Some(m) => m,
        None => DEFAULT_RUN_MODE.to_owned(),
    };
    let mut base_path = "config/".to_owned();
    base_path.append(app_name);
    assert(base_path@ =~= config_dir(app_name@));
    let mut default_file = base_path.clone();
    default_file.append("/default.toml");
    let mut environment_file = base_path.clone();
    environment_file.append("/");
    environment_file.append(environment_name.as_str());
    let mut local_file = base_path.clone();
    local_file.append("/local");
    assert(environment_file@ =~= config_dir(app_name@) + seq!['/'] + environment_name@);
    SettingsSources {
        default_file,
        environment_file,
        local_file,
        environment_name,
        env_prefix: app_env_prefix.to_owned(),
    }
}

} // verus!
