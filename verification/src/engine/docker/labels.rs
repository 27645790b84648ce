//! Docker label keys shared by the castor and infra code. Labels are the
//! source of truth for what is a managed castor or piece of infra.

use vstd::prelude::*;

verus! {

/// Marker label that identifies any container managed by castors.
pub const ROLE_KEY: &'static str = "castors.role";

/// Per-castor label that maps a container back to its registry entry.
pub const NAME_KEY: &'static str = "castors.name";

/// Value of [`ROLE_KEY`] for castor containers.
pub const ROLE_CASTOR: &'static str = "castor";

/// Value of [`ROLE_KEY`] for shared infrastructure containers.
pub const ROLE_INFRA: &'static str = "infra";

} // verus!
