//! Failure kinds shared by every stage of the node lifecycle tooling.

use vstd::prelude::*;

verus! {

/// What went wrong in a lifecycle operation. Every error aborts the current
/// top-level command; there is no retry or rollback anywhere.
#[derive(Clone, Copy, Debug, PartialEq, Eq, Structural)]
pub enum LifecycleError {
    /// The node binary is missing or could not be launched.
    Spawn,
    /// A network transport failure while fetching genesis or snapshot data.
    Network,
    /// A malformed or unexpected response shape (empty snapshot index body,
    /// missing content length).
    Protocol,
    /// Snapshot decompression or archive extraction failed.
    Format,
    /// A filesystem operation failed.
    Io,
    /// The operator-supplied ready callback exited with a non-zero status.
    Callback,
    /// The backup source to restore from does not exist.
    NotFound,
}

impl LifecycleError {
    /// A short human-readable name for the failing stage.
    pub fn describe(&self) -> (r: &'static str)
        ensures
            r@.len() > 0,
            match self {
                LifecycleError::Spawn => r@ == "spawn failure"@,
                LifecycleError::Network => r@ == "network failure"@,
                LifecycleError::Protocol => r@ == "protocol failure"@,
                LifecycleError::Format => r@ == "format failure"@,
                LifecycleError::Io => r@ == "io failure"@,
                LifecycleError::Callback => r@ == "callback failure"@,
                LifecycleError::NotFound => r@ == "backup source not found"@,
            },
    {
        proof {
            reveal_strlit("spawn failure");
            reveal_strlit("network failure");
            reveal_strlit("protocol failure");
            reveal_strlit("format failure");
            reveal_strlit("io failure");
            reveal_strlit("callback failure");
            reveal_strlit("backup source not found");
        }
        match self {
            LifecycleError::Spawn => "spawn failure",
            LifecycleError::Network => "network failure",
            LifecycleError::Protocol => "protocol failure",
            LifecycleError::Format => "format failure",
            LifecycleError::Io => "io failure",
            LifecycleError::Callback => "callback failure",
            LifecycleError::NotFound => "backup source not found",
        }
    }
}

} // verus!
