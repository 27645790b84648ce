//! Backend-independent types used by the engine API: what the commands need
//! to know about a managed container, whichever runtime executes it.

use vstd::prelude::*;

use crate::base::domain::CastorName;
use crate::text::{owned, push_str};

verus! {

/// Lifecycle state of a managed container as observed from a backend.
#[derive(Clone, Copy, Debug, PartialEq, Eq, Structural)]
pub enum CastorStatus {
    /// The container exists and is running.
    Running,
    /// The container exists but has exited, with its last exit code if known.
    Exited { exit_code: Option<i32> },
    /// No container exists for this castor, although the registry knows it.
    Missing,
}

/// Snapshot of a runtime container managed by castors.
#[derive(Debug, PartialEq, Eq)]
pub struct ManagedContainer {
    pub name: CastorName,
    pub status: CastorStatus,
}

/// How an interactive shell ended: its exit code, or `None` when a signal
/// terminated it.
#[derive(Clone, Copy, Debug, PartialEq, Eq, Structural)]
pub struct ShellExit {
    pub code: Option<i32>,
}

impl ShellExit {
    /// Whether the shell exited with code zero.
    pub fn success(&self) -> (r: bool)
        ensures
            r == (self.code == Some(0i32)),
    {
        match self.code {
            Some(c) => c == 0,
            None => false,
        }
    }
}

/// Errors surfaced by the engine layer. The backend's own failure message is
/// carried in [`EngineError::Backend`].
#[derive(Debug, PartialEq, Eq)]
pub enum EngineError {
    BackendUnavailable(String),
    NotFound(CastorName),
    Backend(String),
}

impl EngineError {
    /// The human-readable text of this error.
    pub fn to_string(&self) -> (r: String)
        ensures
            match self {
                EngineError::BackendUnavailable(m) => r@ == "backend executable not available: "@
                    + m@,
                EngineError::NotFound(n) => r@ == "no container found for castor '"@ + n@ + "'"@,
                EngineError::Backend(m) => r@ == "backend reported an error: "@ + m@,
            },
    {
        match self {
            EngineError::BackendUnavailable(m) => {
                let mut r = owned("backend executable not available: ");
                push_str(&mut r, m.as_str());
                r
            },
            EngineError::NotFound(n) => {
                let mut r = owned("no container found for castor '");
                push_str(&mut r, n.as_str());
                push_str(&mut r, "'");
                r
            },
            EngineError::Backend(m) => {
                let mut r = owned("backend reported an error: ");
                push_str(&mut r, m.as_str());
                r
            },
        }
    }
}

} // verus!
