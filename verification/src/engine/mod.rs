//! Backend-agnostic engine API.
//!
//! Commands only talk to a container backend through [`Engine`]. The trait
//! makes no promises of its own: a backend's answers come from the outside
//! world, and the commands are verified for every answer it may give.

pub mod docker;
pub mod types;

use vstd::prelude::*;

use crate::base::domain::CastorName;
use crate::base::registry::{CastorEntry, Registry};
use crate::config::ResolvedConfig;
use crate::engine::types::{CastorStatus, EngineError, ManagedContainer, ShellExit};

verus! {

/// Container backend abstraction: per-castor containers and the shared
/// infrastructure stack (proxy, ...).
pub trait Engine {
    /// Creates the container for a castor and starts it detached.
    fn create_and_start(&self, entry: &CastorEntry, config: &ResolvedConfig) -> Result<
        (),
        EngineError,
    >;

    /// Opens an interactive shell inside the castor's container: `shell`, or
    /// the first of `/bin/zsh`, `/bin/bash`, `/bin/sh` when `None`.
    fn exec_shell(&self, name: &CastorName, shell: Option<&str>) -> Result<ShellExit, EngineError>;

    /// Stops and removes a castor's container; a missing container is fine.
    fn stop_and_remove(&self, name: &CastorName) -> Result<(), EngineError>;

    /// Reports the lifecycle state of a castor's container.
    fn inspect_status(&self, name: &CastorName) -> Result<CastorStatus, EngineError>;

    /// Lists all castors-managed containers known to the backend.
    fn list_managed(&self) -> Result<Vec<ManagedContainer>, EngineError>;

    /// Ensures the shared infrastructure stack is running. Idempotent.
    fn ensure_infra(&self, config: &ResolvedConfig) -> Result<(), EngineError>;

    /// Refreshes live proxy policy from the registry.
    fn refresh_proxy_policy(&self, registry: &Registry) -> Result<(), EngineError>;

    /// Ensures the mitmproxy CA exists and returns its public certificate.
    fn export_mitm_ca_certificate(&self) -> Result<Vec<u8>, EngineError>;

    /// Tears the shared infrastructure down if no castor containers remain.
    fn teardown_infra_if_idle(&self) -> Result<(), EngineError>;
}

} // verus!
