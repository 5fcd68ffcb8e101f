//! The user's preferences and where the launcher keeps its files.

use vstd::prelude::*;

use crate::process::{path_join, spec_path_join};

verus! {

/// Launcher settings.
#[derive(Debug, Clone)]
pub struct LauncherPreferences {
    pub server_name: String,
    pub server_address: String,
    pub game_location: Option<String>,
    pub wine_runtime_dir: Option<String>,
    pub patch_download_dir: Option<String>,
}

/// Debugging settings, all off by default.
#[derive(Debug, Clone)]
pub struct DeveloperPreferences {
    /// Launch with the verbose `WINEDEBUG` channel selection.
    pub enable_verbose_wine_debug: bool,
}

/// Everything the launcher remembers between runs.
#[derive(Debug, Clone)]
pub struct Preferences {
    pub launcher: LauncherPreferences,
    pub developer: DeveloperPreferences,
}

impl Default for LauncherPreferences {
    fn default() -> (r: Self)
        ensures
            r.server_name@.len() == 0,
            r.server_address@.len() == 0,
            r.game_location is None,
            r.wine_runtime_dir is None,
            r.patch_download_dir is None,
    {
        LauncherPreferences {
            server_name: String::new(),
            server_address: String::new(),
            game_location: None,
            wine_runtime_dir: None,
            patch_download_dir: None,
        }
    }
}

impl Default for DeveloperPreferences {
    fn default() -> (r: Self)
        ensures
            !r.enable_verbose_wine_debug,
    {
        DeveloperPreferences { enable_verbose_wine_debug: false }
    }
}

impl Default for Preferences {
    fn default() -> (r: Self)
        ensures
            r.launcher.server_name@.len() == 0,
            r.launcher.server_address@.len() == 0,
            r.launcher.game_location is None,
            r.launcher.wine_runtime_dir is None,
            r.launcher.patch_download_dir is None,
            !r.developer.enable_verbose_wine_debug,
    {
        Preferences { launcher: LauncherPreferences::default(), developer: DeveloperPreferences::default() }
    }
}

/// Why the launcher's directories are unknown.
#[derive(Debug, Clone, Copy, PartialEq, Eq, Structural)]
pub enum PathsError {
    /// The platform gave no per-user directories (no home directory).
    NoProjectDirs,
}

impl PathsError {
    /// The message reported for this error.
    pub fn message(&self) -> (s: String)
        ensures
            s@ == "could not resolve platform-specific project directories"@,
    {
        String::from_str("could not resolve platform-specific project directories")
    }
}

/// `s` ends with `suffix`.
pub open spec fn ends_with(s: Seq<char>, suffix: Seq<char>) -> bool {
    s.len() >= suffix.len() && s.subrange(s.len() - suffix.len(), s.len() as int) == suffix
}

/// The shape of the project's configuration directory: the XDG base joined
/// with `garlemald-client` (Linux and other Unix), `Application Support`
/// joined with the bundle id (macOS), or the roaming application data
/// joined with `seventhumbral\garlemald-client\config` (Windows).
pub open spec fn is_config_dir_text(d: Seq<char>) -> bool {
    ||| ends_with(d, "/garlemald-client"@)
    ||| ends_with(d, "/Library/Application Support/org.seventhumbral.garlemald-client"@)
    ||| ends_with(d, "\\seventhumbral\\garlemald-client\\config"@)
}

/// The shape of the project's data directory, as for the configuration
/// directory, with `data` in place of `config` on Windows.
pub open spec fn is_data_dir_text(d: Seq<char>) -> bool {
    ||| ends_with(d, "/garlemald-client"@)
    ||| ends_with(d, "/Library/Application Support/org.seventhumbral.garlemald-client"@)
    ||| ends_with(d, "\\seventhumbral\\garlemald-client\\data"@)
}

/// `directories::ProjectDirs::from("org", "seventhumbral", "garlemald-client")`
/// and its `config_dir`, as text. Whether there is one and where its base
/// lies depend on the environment (the home directory, `XDG_*` variables,
/// the known folders). Claimed, from the crate's source for each platform:
/// the text ends with the project's own path components (see
/// `is_config_dir_text`), which `to_string_lossy` keeps as they are ASCII.
#[verifier::external_body]
fn project_config_dir() -> (r: Option<String>)
    ensures
        r matches Some(d) ==> is_config_dir_text(d@),
{
    match directories::ProjectDirs::from("org", "seventhumbral", "garlemald-client") {
        Some(dirs) => Some(dirs.config_dir().to_string_lossy().into_owned()),
        None => None,
    }
}

/// `directories::ProjectDirs::from("org", "seventhumbral", "garlemald-client")`
/// and its `data_dir`, as text. Whether there is one and its base depend on
/// the environment. Claimed, from the crate's source for each platform: the
/// text ends with the project's own path components (see
/// `is_data_dir_text`).
#[verifier::external_body]
fn project_data_dir() -> (r: Option<String>)
    ensures
        r matches Some(d) ==> is_data_dir_text(d@),
{
    match directories::ProjectDirs::from("org", "seventhumbral", "garlemald-client") {
        Some(dirs) => Some(dirs.data_dir().to_string_lossy().into_owned()),
        None => None,
    }
}

/// The per-user configuration directory.
pub fn config_dir() -> (r: Result<String, PathsError>)
    ensures
        r matches Ok(d) ==> is_config_dir_text(d@),
        r matches Err(e) ==> e == PathsError::NoProjectDirs,
{
    match project_config_dir() {
        Some(d) => Ok(d),
        None => Err(PathsError::NoProjectDirs),
    }
}

/// The per-user data directory.
pub fn data_dir() -> (r: Result<String, PathsError>)
    ensures
        r matches Ok(d) ==> is_data_dir_text(d@),
        r matches Err(e) ==> e == PathsError::NoProjectDirs,
{
    match project_data_dir() {
        Some(d) => Ok(d),
        None => Err(PathsError::NoProjectDirs),
    }
}

/// The preferences file in the configuration directory `dir`.
pub fn preferences_file_in(dir: &str) -> (r: String)
    ensures
        r@ == spec_path_join(dir@, "preferences.toml"@),
{
    path_join(dir, "preferences.toml")
}

/// The servers file in the configuration directory `dir`.
pub fn servers_file_in(dir: &str) -> (r: String)
    ensures
        r@ == spec_path_join(dir@, "servers.xml"@),
{
    path_join(dir, "servers.xml")
}

/// The preferences file.
pub fn preferences_file_path() -> (r: Result<String, PathsError>)
    ensures
        match r {
            Ok(p) => exists|dir: Seq<char>|
                is_config_dir_text(dir) && p@ == spec_path_join(dir, "preferences.toml"@),
            Err(e) => e == PathsError::NoProjectDirs,
        },
{
    match config_dir() {
        Ok(dir) => Ok(preferences_file_in(dir.as_str())),
        Err(e) => Err(e),
    }
}

/// The servers file.
pub fn servers_file_path() -> (r: Result<String, PathsError>)
    ensures
        match r {
            Ok(p) => exists|dir: Seq<char>| is_config_dir_text(dir) && p@ == spec_path_join(dir, "servers.xml"@),
            Err(e) => e == PathsError::NoProjectDirs,
        },
{
    match config_dir() {
        Ok(dir) => Ok(servers_file_in(dir.as_str())),
        Err(e) => Err(e),
    }
}

/// The starter configuration shipped next to the binary.
pub fn bundled_config_path() -> (r: String)
    ensures
        r@ == "./configs/garlemald-client.toml"@,
{
    String::from_str("./configs/garlemald-client.toml")
}

} // verus!
