//! Session-lifecycle errors surfaced to the host application.

use vstd::prelude::*;
use vstd::string::StringExecFns;

verus! {

/// An error crossing the engine boundary to the host. Per-file replication
/// failures never become one of these: they are a local, swallowed concern of
/// the replication worker.
#[derive(Debug)]
pub enum SyncError {
    /// `start` was requested while a session is already active.
    AlreadyRunning,
    /// `stop` was requested while no session is active.
    NotRunning,
    /// The filesystem-notification subscription could not be established;
    /// carries the underlying subscription error's text.
    WatcherInit(String),
}

impl SyncError {
    /// The message text of this error as the host-facing commands report it.
    pub open spec fn message_spec(&self) -> Seq<char> {
        match self {
            SyncError::AlreadyRunning => "Sync already running"@,
            SyncError::NotRunning => "Sync is not running"@,
            SyncError::WatcherInit(s) => s@,
        }
    }

    /// The host-facing message text for this error.
    pub fn message(&self) -> (r: String)
        ensures
            r@ == self.message_spec(),
    {
        match self {
            SyncError::AlreadyRunning => String::from_str("Sync already running"),
            SyncError::NotRunning => String::from_str("Sync is not running"),
            SyncError::WatcherInit(s) => s.clone(),
        }
    }
}

} // verus!
