//! Locations of the global and project config documents, and what a load
//! turns a read document into.
//!
//! A missing file is not an error: it stands for the empty document, so a
//! fresh install with no config files at all still produces a valid
//! configuration. A file that exists but cannot be read or parsed is an
//! error. Reading and parsing happen at the edge of the program; the
//! functions here take what came back.

use vstd::prelude::*;

use crate::base::domain::{home_dir, path_join};
use crate::base::paths::{castors_home_in, castors_home_of, join_path};
use crate::config::schema::{
    is_empty_global, is_empty_project, secrets_normalized, GlobalConfig, ProjectConfig,
};
use crate::text::{owned, push_str};

verus! {

/// Filename used for both the global and project config files.
pub const CONFIG_FILENAME: &'static str = "config.yaml";

/// Subdirectory within the mount dir that holds the project-level config.
pub const PROJECT_CONFIG_DIR: &'static str = ".castors";

/// Errors produced while locating, reading or parsing a config document.
#[derive(Debug, PartialEq, Eq)]
pub enum ConfigError {
    /// The file exists but could not be read.
    Read { path: String, message: String },
    /// The file was read but is not a valid document.
    Parse { path: String, message: String },
    /// No home directory, hence no global config location.
    NoDefaultPath,
}

impl ConfigError {
    /// The human-readable text of this error.
    pub fn to_string(&self) -> (r: String)
        ensures
            match self {
                ConfigError::Read { path, .. } => r@ == "failed to read config at "@ + path@,
                ConfigError::Parse { path, .. } => r@ == "failed to parse config at "@ + path@,
                ConfigError::NoDefaultPath => r@
                    == "could not determine default global config path"@,
            },
    {
        match self {
            ConfigError::Read { path, .. } => {
                let mut r = owned("failed to read config at ");
                push_str(&mut r, path.as_str());
                r
            },
            ConfigError::Parse { path, .. } => {
                let mut r = owned("failed to parse config at ");
                push_str(&mut r, path.as_str());
                r
            },
            ConfigError::NoDefaultPath => owned("could not determine default global config path"),
        }
    }
}

/// `~/.castors/config.yaml` for the home directory `home`.
pub open spec fn global_path_of(home: Seq<char>) -> Seq<char> {
    path_join(castors_home_of(home), CONFIG_FILENAME@)
}

/// `<mount_dir>/.castors/config.yaml`.
pub open spec fn project_path_of(mount_dir: Seq<char>) -> Seq<char> {
    path_join(path_join(mount_dir, PROJECT_CONFIG_DIR@), CONFIG_FILENAME@)
}

/// The global config file, `~/.castors/config.yaml`, for the home directory
/// `home`, or [`ConfigError::NoDefaultPath`] when there is none.
pub fn global_path_in(home: &Option<String>) -> (r: Result<String, ConfigError>)
    ensures
        match home {
            Some(h) => r matches Ok(p) && p@ == global_path_of(h@),
            None => r matches Err(ConfigError::NoDefaultPath),
        },
{
    match castors_home_in(home) {
        Some(c) => Ok(join_path(c.as_str(), CONFIG_FILENAME)),
        None => Err(ConfigError::NoDefaultPath),
    }
}

/// Returns the canonical path of the global config file,
/// `~/.castors/config.yaml`, or [`ConfigError::NoDefaultPath`] when no home
/// directory can be determined.
pub fn global_path() -> (r: Result<String, ConfigError>)
    ensures
        match r {
            Ok(p) => exists|h: Seq<char>| h.len() > 0 && p@ == global_path_of(h),
            Err(e) => e is NoDefaultPath,
        },
{
    let home = home_dir();
    global_path_in(&home)
}

/// Returns the project config path for a castor mounted at `mount_dir`. The
/// path is purely derived: the file may or may not exist on disk.
pub fn project_path(mount_dir: &str) -> (r: String)
    ensures
        r@ == project_path_of(mount_dir@),
{
    let dir = join_path(mount_dir, PROJECT_CONFIG_DIR);
    join_path(dir.as_str(), CONFIG_FILENAME)
}

/// Completes loading the global config at `path` from what was read there:
/// `None` when no file exists, which gives the empty document, or the parsed
/// document. Relative secret files are then resolved against the config
/// file's directory.
pub fn load_global_at(path: &str, parsed: Option<GlobalConfig>) -> (r: GlobalConfig)
    ensures
        match parsed {
            None => is_empty_global(r),
            Some(doc) => {
                &&& r.defaults == doc.defaults
                &&& r.network == doc.network
                &&& r.env == doc.env
                &&& secrets_normalized(doc.secrets@, r.secrets@, path@)
            },
        },
{
    match parsed {
        None => GlobalConfig::empty(),
        Some(doc) => {
            let mut config = doc;
            config.normalize_relative_secret_files(path);
            config
        },
    }
}

/// Completes loading the project config at `path` from what was read there
/// (see [`load_global_at`]).
pub fn load_project_at(path: &str, parsed: Option<ProjectConfig>) -> (r: ProjectConfig)
    ensures
        match parsed {
            None => is_empty_project(r),
            Some(doc) => {
                &&& r.castor == doc.castor
                &&& r.network == doc.network
                &&& r.env == doc.env
                &&& secrets_normalized(doc.secrets@, r.secrets@, path@)
            },
        },
{
    match parsed {
        None => ProjectConfig::empty(),
        Some(doc) => {
            let mut config = doc;
            config.normalize_relative_secret_files(path);
            config
        },
    }
}

} // verus!
