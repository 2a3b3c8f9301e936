//! The launcher's settings document and the directories it lives in.

use vstd::prelude::*;
use crate::accounts::Account;
use crate::runtime::{JavaConfig, java_path_spec, get_java_path};
use crate::paths::{Platform, join_path, path_join_spec};

verus! {

/// The settings document.
#[derive(Clone, Debug)]
pub struct Config {
    pub accounts: Vec<Account>,
    pub rich_presence: bool,
    pub java: JavaConfig,
    pub completed_onboarding: bool,
    pub use_discrete_gpu: bool,
}

/// The settings a user edits from the launcher.
#[derive(Clone, Copy, Debug, PartialEq, Eq, Structural)]
pub struct LauncherSettings {
    pub rich_presence: bool,
    pub use_discrete_gpu: bool,
}

/// The document a first start writes: the placeholder account, presence and the
/// discrete GPU on, no runtime configured, onboarding not done.
pub fn create_default_config_file() -> (r: Config)
    ensures
        r.accounts@.len() == 1,
        r.accounts@[0].is_placeholder(),
        r.rich_presence,
        r.use_discrete_gpu,
        !r.completed_onboarding,
        r.java.java_8_path@.len() == 0,
        r.java.java_17_path@.len() == 0,
        r.java.java_21_path@.len() == 0,
{
    let mut accounts: Vec<Account> = Vec::new();
    accounts.push(Account::default());
    Config {
        accounts,
        rich_presence: true,
        java: JavaConfig::default(),
        completed_onboarding: false,
        use_discrete_gpu: true,
    }
}

/// Marks onboarding as done.
pub fn set_onboarding_complete(config: &mut Config)
    ensures
        *final(config) == (Config { completed_onboarding: true, ..*old(config) }),
{
    config.completed_onboarding = true;
}

/// Applies the launcher settings.
pub fn update_launcher_settings(config: &mut Config, settings: &LauncherSettings)
    ensures
        *final(config) == (Config {
            rich_presence: settings.rich_presence,
            use_discrete_gpu: settings.use_discrete_gpu,
            ..*old(config)
        }),
{
    config.rich_presence = settings.rich_presence;
    config.use_discrete_gpu = settings.use_discrete_gpu;
}

/// The launcher settings that the document holds.
pub fn get_launcher_settings(config: &Config) -> (r: LauncherSettings)
    ensures
        r.rich_presence == config.rich_presence,
        r.use_discrete_gpu == config.use_discrete_gpu,
{
    LauncherSettings { rich_presence: config.rich_presence, use_discrete_gpu: config.use_discrete_gpu }
}

/// Records the three runtimes (majors 8, 17, 21). Installation roots
/// (`automatic`) become their `bin/java` executable; chosen executables are kept.
pub fn save_java_to_config(config: &mut Config, paths: (&str, &str, &str), automatic: bool, platform: Platform)
    ensures
        final(config).java.java_8_path@ == java_path_spec(paths.0@, automatic, platform),
        final(config).java.java_17_path@ == java_path_spec(paths.1@, automatic, platform),
        final(config).java.java_21_path@ == java_path_spec(paths.2@, automatic, platform),
        final(config).accounts == old(config).accounts,
        final(config).rich_presence == old(config).rich_presence,
        final(config).completed_onboarding == old(config).completed_onboarding,
        final(config).use_discrete_gpu == old(config).use_discrete_gpu,
{
    let java = JavaConfig {
        java_8_path: get_java_path(paths.0, automatic, platform),
        java_17_path: get_java_path(paths.1, automatic, platform),
        java_21_path: get_java_path(paths.2, automatic, platform),
    };
    config.java = java;
}

/// The configured runtimes.
pub fn get_java_from_config(config: &Config) -> (r: &JavaConfig)
    ensures
        *r == config.java,
{
    &config.java
}

/// The name of the launcher's directory inside the user's configuration directory.
pub open spec fn config_folder_spec(debug: bool) -> Seq<char> {
    if debug { ".glyph-launcher-dev"@ } else { ".glyph-launcher"@ }
}

/// Why the configuration directory is unknown.
#[derive(Clone, Debug, PartialEq, Eq)]
pub enum ConfigError {
    /// The platform reports no user configuration directory.
    NoConfigDir,
}

/// Relies on `dirs::config_dir`: the user's configuration directory, when the
/// platform has one; it depends on the environment.
#[verifier::external_body]
fn user_config_dir() -> (r: Option<String>)
{
    dirs::config_dir().map(|p| p.to_string_lossy().to_string())
}

/// The launcher's directory: its folder inside the user's configuration directory.
pub fn get_config_dir(debug: bool) -> (r: Result<String, ConfigError>)
    ensures
        r matches Err(e) ==> e == ConfigError::NoConfigDir,
        r matches Ok(d) ==> exists|base: Seq<char>| d@ == path_join_spec(base, config_folder_spec(debug)),
{
    match user_config_dir() {
        None => Err(ConfigError::NoConfigDir),
        Some(base) => {
            let folder = if debug { ".glyph-launcher-dev" } else { ".glyph-launcher" };
            let d = join_path(base.as_str(), folder);
            proof {
                assert(d@ == path_join_spec(base@, config_folder_spec(debug)));
            }
            Ok(d)
        },
    }
}

/// `config.json` in the launcher's directory.
pub fn get_config_path(config_dir: &str) -> (r: String)
    ensures
        r@ == path_join_spec(config_dir@, "config.json"@),
{
    join_path(config_dir, "config.json")
}

/// The directory that holds one directory per instance.
pub fn get_instances_path(config_dir: &str) -> (r: String)
    ensures
        r@ == path_join_spec(config_dir@, "instances"@),
{
    join_path(config_dir, "instances")
}

/// The instance registry document.
pub fn get_instance_config_path(config_dir: &str) -> (r: String)
    ensures
        r@ == path_join_spec(config_dir@, "instances.json"@),
{
    join_path(config_dir, "instances.json")
}

/// The working directory of instance `slug`.
pub fn instance_dir(config_dir: &str, slug: &str) -> (r: String)
    ensures
        r@ == path_join_spec(path_join_spec(config_dir@, "instances"@), slug@),
{
    let base = get_instances_path(config_dir);
    join_path(base.as_str(), slug)
}

} // verus!
