//! The advisory lock over generated state that serializes state-changing
//! commands across processes. Taking the lock is filesystem work done at
//! the edge of the program; this module names its location and its errors.

use vstd::prelude::*;

use crate::base::domain::path_join;
use crate::base::paths::{join_path, STATE_LOCK_FILENAME};
use crate::text::{owned, push_str};

verus! {

/// Errors produced while acquiring the generated state lock.
#[derive(Debug, PartialEq, Eq)]
pub enum StateLockError {
    NoDefaultPath,
    CreateDir { path: String, message: String },
    Open { path: String, message: String },
    Lock { path: String, message: String },
}

impl StateLockError {
    /// The human-readable text of this error.
    pub fn to_string(&self) -> (r: String)
        ensures
            match self {
                StateLockError::NoDefaultPath => r@
                    == "could not determine default castors state path"@,
                StateLockError::CreateDir { path, .. } => r@
                    == "failed to create state directory at "@ + path@,
                StateLockError::Open { path, .. } => r@ == "failed to open state lock at "@ + path@,
                StateLockError::Lock { path, .. } => r@ == "failed to acquire state lock at "@
                    + path@,
            },
    {
        match self {
            StateLockError::NoDefaultPath => owned("could not determine default castors state path"),
            StateLockError::CreateDir { path, .. } => {
                let mut r = owned("failed to create state directory at ");
                push_str(&mut r, path.as_str());
                r
            },
            StateLockError::Open { path, .. } => {
                let mut r = owned("failed to open state lock at ");
                push_str(&mut r, path.as_str());
                r
            },
            StateLockError::Lock { path, .. } => {
                let mut r = owned("failed to acquire state lock at ");
                push_str(&mut r, path.as_str());
                r
            },
        }
    }
}

/// The lock file inside a state directory.
pub fn lock_path_in(state_dir: &str) -> (r: String)
    ensures
        r@ == path_join(state_dir@, STATE_LOCK_FILENAME@),
{
    join_path(state_dir, STATE_LOCK_FILENAME)
}

} // verus!
