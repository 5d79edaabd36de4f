//! The session lifecycle controller: at most one watch/replicate session is
//! active at a time, `start` moves the engine from idle to running through a
//! single subscription attempt, and `stop` requests termination without
//! waiting for the worker to observe it.
//!
//! The controller decides; the host carries the decisions out. A successful
//! `start_sync` hands back the subscription to open; the host reports the
//! subscription's outcome through `watcher_ready` or `watcher_failed`, under
//! the same critical section in which it called `start_sync`.

use vstd::prelude::*;
use crate::errors::SyncError;

verus! {

/// How many seconds the replication worker waits for the next notification
/// before re-checking whether the session is still running. Stop latency is
/// bounded by this interval.
pub const POLL_INTERVAL_SECS: u64 = 1;

/// The lifecycle phase of the engine.
#[derive(Debug, Clone, Copy)]
pub enum Phase {
    /// No session: no subscription, no worker.
    Idle,
    /// A start is in progress: the subscription has been requested but its
    /// outcome has not been reported yet.
    Pending,
    /// A session is active: the subscription is open and the worker runs.
    Running,
}

/// The abstract state of a [`SyncManager`].
pub ghost struct SyncManagerView {
    pub watch_path: Seq<char>,
    pub target_path: Seq<char>,
    pub phase: Phase,
}

/// A request to the host: open a filesystem-notification subscription on
/// `path`, watching the whole tree when `recursive` is set.
#[derive(Debug)]
pub struct WatchRequest {
    pub path: String,
    pub recursive: bool,
}

/// A request to the host: spawn the replication worker, copying into
/// `target_path` and polling the event relay every `poll_interval_secs`.
#[derive(Debug)]
pub struct WorkerLaunch {
    pub target_path: String,
    pub poll_interval_secs: u64,
}

/// Whether `start` is accepted in state `m`.
pub open spec fn start_allowed(m: SyncManagerView) -> bool {
    m.phase is Idle
}

/// The state after an accepted `start` requested its subscription.
pub open spec fn after_start(m: SyncManagerView) -> SyncManagerView {
    SyncManagerView { phase: Phase::Pending, ..m }
}

/// The state after the subscription was established.
pub open spec fn after_watcher_ready(m: SyncManagerView) -> SyncManagerView {
    SyncManagerView { phase: Phase::Running, ..m }
}

/// The state after the subscription attempt failed.
pub open spec fn after_watcher_failed(m: SyncManagerView) -> SyncManagerView {
    SyncManagerView { phase: Phase::Idle, ..m }
}

/// Whether `stop` is accepted in state `m`.
pub open spec fn stop_allowed(m: SyncManagerView) -> bool {
    m.phase is Running
}

/// The state after an accepted `stop`.
pub open spec fn after_stop(m: SyncManagerView) -> SyncManagerView {
    SyncManagerView { phase: Phase::Idle, ..m }
}

/// The lifecycle controller of the sync engine. It owns the session state;
/// the host holds it under mutual exclusion and serializes `start`/`stop`
/// against each other.
pub struct SyncManager {
    watch_path: String,
    sync_target_path: String,
    phase: Phase,
}

impl View for SyncManager {
    type V = SyncManagerView;

    closed spec fn view(&self) -> SyncManagerView {
        SyncManagerView {
            watch_path: self.watch_path@,
            target_path: self.sync_target_path@,
            phase: self.phase,
        }
    }
}

impl SyncManager {
    /// A fresh, idle engine that will watch `watch_path` and replicate into
    /// `sync_target_path` once started.
    pub fn new(watch_path: String, sync_target_path: String) -> (r: Self)
        ensures
            r@ == (SyncManagerView {
                watch_path: watch_path@,
                target_path: sync_target_path@,
                phase: Phase::Idle,
            }),
    {
        SyncManager { watch_path, sync_target_path, phase: Phase::Idle }
    }

    /// Requests the start of a session. Refused with `AlreadyRunning` — and
    /// without touching the subscription — unless the engine is idle; when
    /// accepted, the returned request tells the host to open a recursive
    /// subscription on the watch path and report back its outcome.
    pub fn start_sync(&mut self) -> (r: Result<WatchRequest, SyncError>)
        ensures
            start_allowed(old(self)@) ==> (r matches Ok(w) && w.path@ == old(self)@.watch_path
                && w.recursive && final(self)@ == after_start(old(self)@)),
            !start_allowed(old(self)@) ==> (r matches Err(e) && e == SyncError::AlreadyRunning
                && final(self)@ == old(self)@),
    {
        match self.phase {
            Phase::Idle => {
                self.phase = Phase::Pending;
                Ok(WatchRequest { path: self.watch_path.clone(), recursive: true })
            },
            Phase::Pending => Err(SyncError::AlreadyRunning),
            Phase::Running => Err(SyncError::AlreadyRunning),
        }
    }

    /// The host reports that the subscription of the start in progress was
    /// established: the session becomes active and the host must spawn the
    /// replication worker as the returned launch request says.
    pub fn watcher_ready(&mut self) -> (r: WorkerLaunch)
        requires
            old(self)@.phase is Pending,
        ensures
            final(self)@ == after_watcher_ready(old(self)@),
            r.target_path@ == old(self)@.target_path,
            r.poll_interval_secs == POLL_INTERVAL_SECS,
    {
        self.phase = Phase::Running;
        WorkerLaunch {
            target_path: self.sync_target_path.clone(),
            poll_interval_secs: POLL_INTERVAL_SECS,
        }
    }

    /// The host reports that the subscription of the start in progress could
    /// not be established: the engine returns to idle — no worker is spawned,
    /// no session is recorded — and the start fails with `WatcherInit`
    /// carrying the underlying error's text.
    pub fn watcher_failed(&mut self, reason: String) -> (r: SyncError)
        requires
            old(self)@.phase is Pending,
        ensures
            final(self)@ == after_watcher_failed(old(self)@),
            r == SyncError::WatcherInit(reason),
    {
        self.phase = Phase::Idle;
        SyncError::WatcherInit(reason)
    }

    /// Requests the stop of the active session. Refused with `NotRunning`
    /// unless a session is active; when accepted, the engine is idle again
    /// and the host must drop the subscription and let the worker observe
    /// the stop — the call does not wait for the worker.
    pub fn stop_sync(&mut self) -> (r: Result<(), SyncError>)
        ensures
            stop_allowed(old(self)@) ==> (r matches Ok(u) && final(self)@ == after_stop(old(self)@)),
            !stop_allowed(old(self)@) ==> (r matches Err(e) && e == SyncError::NotRunning
                && final(self)@ == old(self)@),
    {
        match self.phase {
            Phase::Running => {
                self.phase = Phase::Idle;
                Ok(())
            },
            Phase::Idle => Err(SyncError::NotRunning),
            Phase::Pending => Err(SyncError::NotRunning),
        }
    }

    /// Whether a session is currently active. This is the value of the shared
    /// running flag the host installs for the worker.
    pub fn is_running(&self) -> (r: bool)
        ensures
            r == (self@.phase is Running),
    {
        match self.phase {
            Phase::Running => true,
            Phase::Idle => false,
            Phase::Pending => false,
        }
    }

    /// The path of the watched directory tree.
    pub fn watch_path(&self) -> (r: &String)
        ensures
            r@ == self@.watch_path,
    {
        &self.watch_path
    }

    /// The path of the directory receiving copies.
    pub fn target_path(&self) -> (r: &String)
        ensures
            r@ == self@.target_path,
    {
        &self.sync_target_path
    }
}

/// Single-session invariant: a subscription is only ever requested from the
/// idle phase, and from the moment a start is accepted — through the
/// subscription attempt and for the whole running session — a further
/// `start` is refused (and, by `start_sync`'s contract, returns
/// `AlreadyRunning` and changes nothing), so at most one subscription is
/// active at any time.
pub proof fn lemma_single_session(m: SyncManagerView)
    requires
        start_allowed(m),
    ensures
        !start_allowed(after_start(m)),
        !start_allowed(after_watcher_ready(after_start(m))),
{
}

/// Stop requires a session: while the engine is idle, `stop` is refused
/// (and, by `stop_sync`'s contract, returns `NotRunning` and changes
/// nothing).
pub proof fn lemma_stop_requires_session(m: SyncManagerView)
    requires
        m.phase is Idle,
    ensures
        !stop_allowed(m),
{
}

/// A stopped engine can be started again: stopping an active session, or a
/// failed subscription attempt, leaves the engine idle, where `start` is
/// accepted once more.
pub proof fn lemma_restart(m: SyncManagerView)
    ensures
        stop_allowed(m) ==> start_allowed(after_stop(m)),
        start_allowed(after_watcher_failed(after_start(m))),
{
}

} // verus!
