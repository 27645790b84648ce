//! Domain types, filesystem locations and the castor registry.

pub mod domain;
pub mod paths;
pub mod registry;
pub mod state;
