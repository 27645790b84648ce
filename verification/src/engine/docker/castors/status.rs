//! What `docker inspect` and `docker ps` print, as engine types.

use vstd::prelude::*;

use crate::base::domain::{valid_castor_name, CastorName};
use crate::engine::types::{CastorStatus, ManagedContainer};
use crate::text::{
    parse_i32, parse_i32_str, split_once, split_once_str, str_eq, trim, trim_str,
};

verus! {

/// The status in `docker inspect --format '{{.State.Status}}|{{.State.ExitCode}}'`
/// output: `running`, or an exited state with the exit code when one
/// parses.
pub open spec fn inspect_status_of(stdout: Seq<char>) -> CastorStatus {
    let line = trim(stdout);
    let parts = match split_once(line, '|') {
        Some(p) => p,
        None => (line, Seq::<char>::empty()),
    };
    if parts.0 == "running"@ {
        CastorStatus::Running
    } else {
        CastorStatus::Exited { exit_code: parse_i32(trim(parts.1)) }
    }
}

/// Parses the output of `docker inspect` for a castor (see
/// [`inspect_status_of`]).
pub fn parse_inspect_status(stdout: &str) -> (r: CastorStatus)
    ensures
        r == inspect_status_of(stdout@),
{
    let line = trim_str(stdout);
    let (status, exit) = match split_once_str(line.as_str(), '|') {
        Some(p) => p,
        None => (line.clone(), String::new()),
    };
    if str_eq(status.as_str(), "running") {
        CastorStatus::Running
    } else {
        let e = trim_str(exit.as_str());
        CastorStatus::Exited { exit_code: parse_i32_str(e.as_str()) }
    }
}

/// The container a `docker ps --format '{{.Label "castors.name"}}|{{.State}}'`
/// line describes, as `(name, status)`; none when the line has no `|` or
/// the name is not a valid castor name.
pub open spec fn list_line_of(line: Seq<char>) -> Option<(Seq<char>, CastorStatus)> {
    match split_once(line, '|') {
        None => None,
        Some(p) => if valid_castor_name(trim(p.0)) {
            Some(
                (
                    trim(p.0),
                    if trim(p.1) == "running"@ {
                        CastorStatus::Running
                    } else {
                        CastorStatus::Exited { exit_code: None }
                    },
                ),
            )
        } else {
            None
        },
    }
}

/// Parses one line of `docker ps` output (see [`list_line_of`]).
pub fn parse_list_line(line: &str) -> (r: Option<ManagedContainer>)
    ensures
        match r {
            Some(m) => list_line_of(line@) == Some((m.name@, m.status)),
            None => list_line_of(line@) is None,
        },
{
    let (name, state) = match split_once_str(line, '|') {
        Some(p) => p,
        None => return None,
    };
    let n = trim_str(name.as_str());
    let name = match CastorName::from_str(n.as_str()) {
        Ok(v) => v,
        Err(_) => return None,
    };
    let s = trim_str(state.as_str());
    let status = if str_eq(s.as_str(), "running") {
        CastorStatus::Running
    } else {
        CastorStatus::Exited { exit_code: None }
    };
    Some(ManagedContainer { name, status })
}

} // verus!
