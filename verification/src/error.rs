//! The error taxonomy of the sync: each variant carries only what that
//! failure kind needs, so callers can match instead of reading messages.

use vstd::prelude::*;

verus! {

/// What can go wrong during a sync pass.
#[derive(Debug)]
pub enum Error {
    /// The configuration was rejected before any pass started.
    Validation(String),
    /// The issue tracker answered with a failure or a malformed payload.
    LinearApi { message: String },
    /// The task-scheduling service answered with a failure or a malformed
    /// payload.
    MotionApi { message: String },
    /// The local persistent store failed.
    Storage(String),
    /// A pass-level failure that is none of the above.
    Sync(String),
    /// The remote service refused the call rate.
    RateLimit,
    /// The remote service rejected the credentials.
    Authentication,
    /// Anything else.
    Other(String),
}

} // verus!
