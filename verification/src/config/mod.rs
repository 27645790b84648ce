//! Configuration schema, merging, and identity resolution for castors.
//!
//! Two documents feed every castor: the global config and the project
//! config. Their shared sections (`network`, `env`, `secrets`) are merged
//! into a [`ResolvedConfig`] by [`merge::merge`]; their layer-specific blocks
//! feed [`identity::resolve_identity`].

pub mod identity;
pub mod load;
pub mod merge;
pub mod schema;

use vstd::prelude::*;

use crate::config::schema::{EnvMap, Host, ProxyMode, SecretInjection};

verus! {

/// Effective per-castor configuration produced by merging the global and
/// project documents. The engine layer only ever sees this shape.
#[derive(Debug, Default, PartialEq, Eq)]
pub struct ResolvedConfig {
    pub allowed_hosts: Vec<Host>,
    pub env: EnvMap,
    pub proxy: ProxyMode,
    pub secrets: Vec<SecretInjection>,
}

impl ResolvedConfig {
    /// A configuration with nothing allowed, no variables, no secrets and the
    /// default (Squid) proxy.
    pub fn empty() -> (r: Self)
        ensures
            r.allowed_hosts@.len() == 0,
            r.env@.len() == 0,
            r.proxy == ProxyMode::Squid,
            r.secrets@.len() == 0,
    {
        ResolvedConfig {
            allowed_hosts: Vec::new(),
            env: EnvMap::new(),
            proxy: ProxyMode::Squid,
            secrets: Vec::new(),
        }
    }
}

impl Clone for ResolvedConfig {
    fn clone(&self) -> (r: Self)
        ensures
            r.allowed_hosts@ == self.allowed_hosts@,
            r.env@ == self.env@,
            r.proxy == self.proxy,
            r.secrets@ == self.secrets@,
    {
        ResolvedConfig {
            allowed_hosts: crate::config::merge::clone_hosts(&self.allowed_hosts),
            env: self.env.clone(),
            proxy: self.proxy,
            secrets: crate::config::merge::clone_secrets(&self.secrets),
        }
    }
}

} // verus!
