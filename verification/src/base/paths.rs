//! Default filesystem locations for castors state and config.
//!
//! Everything castors reads or writes for a user lives under a single
//! directory: `~/.castors/`. User-authored config sits directly below that
//! directory; generated state sits below `~/.castors/.state/`. The same path
//! applies on every platform.

use vstd::prelude::*;

use crate::base::domain::{home_dir, path_join};
use crate::text::{owned, push_char, push_str, chars_of};

verus! {

/// Subdirectory under the user's home that holds all castors files.
pub const CASTORS_HOME_SUBDIR: &'static str = ".castors";

pub const STATE_SUBDIR: &'static str = ".state";

pub const INFRA_SUBDIR: &'static str = "infra";

pub const REGISTRY_FILENAME: &'static str = "registry.json";

pub const STATE_LOCK_FILENAME: &'static str = "state.lock";

/// `~/.castors` for the home directory `home`.
pub open spec fn castors_home_of(home: Seq<char>) -> Seq<char> {
    path_join(home, CASTORS_HOME_SUBDIR@)
}

/// `~/.castors/.state` for the home directory `home`.
pub open spec fn state_dir_of(home: Seq<char>) -> Seq<char> {
    path_join(castors_home_of(home), STATE_SUBDIR@)
}

/// `Path::join` with a single normal component.
pub fn join_path(base: &str, seg: &str) -> (r: String)
    ensures
        r@ == path_join(base@, seg@),
{
    let bs = chars_of(base);
    if bs.len() == 0 {
        return owned(seg);
    }
    let mut r = owned(base);
    if bs[bs.len() - 1] != '/' {
        push_char(&mut r, '/');
    }
    push_str(&mut r, seg);
    r
}

/// `~/.castors` for the home directory `home`, if there is one.
pub fn castors_home_in(home: &Option<String>) -> (r: Option<String>)
    ensures
        match home {
            Some(h) => r matches Some(p) && p@ == castors_home_of(h@),
            None => r is None,
        },
{
    match home {
        Some(h) => Some(join_path(h.as_str(), CASTORS_HOME_SUBDIR)),
        None => None,
    }
}

/// `~/.castors/.state` for the home directory `home`, if there is one.
pub fn state_dir_in(home: &Option<String>) -> (r: Option<String>)
    ensures
        match home {
            Some(h) => r matches Some(p) && p@ == state_dir_of(h@),
            None => r is None,
        },
{
    match castors_home_in(home) {
        Some(c) => Some(join_path(c.as_str(), STATE_SUBDIR)),
        None => None,
    }
}

/// The entry `name` of the state directory of `home`, if there is a home.
pub fn state_entry_in(home: &Option<String>, name: &str) -> (r: Option<String>)
    ensures
        match home {
            Some(h) => r matches Some(p) && p@ == path_join(state_dir_of(h@), name@),
            None => r is None,
        },
{
    match state_dir_in(home) {
        Some(s) => Some(join_path(s.as_str(), name)),
        None => None,
    }
}

/// Returns `~/.castors`, or `None` when no home directory can be determined.
pub fn castors_home() -> (r: Option<String>)
    ensures
        r matches Some(p) ==> exists|h: Seq<char>| h.len() > 0 && p@ == castors_home_of(h),
{
    let home = home_dir();
    castors_home_in(&home)
}

/// Returns the directory for generated castors state.
pub fn state_dir() -> (r: Option<String>)
    ensures
        r matches Some(p) ==> exists|h: Seq<char>| h.len() > 0 && p@ == state_dir_of(h),
{
    let home = home_dir();
    state_dir_in(&home)
}

/// Returns the registry path for generated castor metadata.
pub fn registry_path() -> (r: Option<String>)
    ensures
        r matches Some(p) ==> exists|h: Seq<char>|
            h.len() > 0 && p@ == path_join(state_dir_of(h), REGISTRY_FILENAME@),
{
    let home = home_dir();
    state_entry_in(&home, REGISTRY_FILENAME)
}

/// Returns the directory where generated shared infra files live.
pub fn infra_dir() -> (r: Option<String>)
    ensures
        r matches Some(p) ==> exists|h: Seq<char>|
            h.len() > 0 && p@ == path_join(state_dir_of(h), INFRA_SUBDIR@),
{
    let home = home_dir();
    state_entry_in(&home, INFRA_SUBDIR)
}

/// Returns the advisory lock file path for state-changing workflows.
pub fn state_lock_path() -> (r: Option<String>)
    ensures
        r matches Some(p) ==> exists|h: Seq<char>|
            h.len() > 0 && p@ == path_join(state_dir_of(h), STATE_LOCK_FILENAME@),
{
    let home = home_dir();
    state_entry_in(&home, STATE_LOCK_FILENAME)
}

} // verus!
