//! The replication worker's per-iteration decisions. The worker is a single
//! background task: each iteration it re-checks the shared running flag,
//! waits up to one poll interval for the next notification from the event
//! relay, and replicates every path of the notification that currently
//! refers to a regular file. The host performs the waiting and the copies;
//! this module decides what to do.

use vstd::prelude::*;
use crate::paths::base_name_spec;
use crate::sync::after_stop;
use crate::sync::stop_allowed;
use crate::sync::SyncManagerView;
use crate::paths::joined;
use crate::paths::replication_target;

verus! {

/// What a notified path currently refers to on the filesystem, as the host
/// observed it when the notification was taken from the relay.
#[derive(Debug, Clone, Copy)]
pub enum PathKind {
    /// A regular file: the only kind that is replicated.
    File,
    /// A directory: never replicated — the engine mirrors file content, not
    /// structure.
    Directory,
    /// The path no longer exists (deleted between notification and
    /// processing): skipped, deletions are never propagated.
    Missing,
    /// Anything else (symlink, device, ...): skipped.
    Other,
}

/// One path carried by a notification, with what it refers to.
#[derive(Debug)]
pub struct PathEvent {
    pub path: String,
    pub kind: PathKind,
}

/// The abstract value of a [`PathEvent`].
pub ghost struct PathEventV {
    pub path: Seq<char>,
    pub kind: PathKind,
}

impl View for PathEvent {
    type V = PathEventV;

    open spec fn view(&self) -> PathEventV {
        PathEventV { path: self.path@, kind: self.kind }
    }
}

/// An instruction to the host: copy the full content of the file at
/// `source`, overwriting `dest` (creating the target directory first if it
/// is absent). A failed copy is reported to the observability sink and the
/// worker moves on.
#[derive(Debug)]
pub struct CopyOp {
    pub source: String,
    pub dest: String,
}

/// The abstract value of a [`CopyOp`].
pub ghost struct CopyOpV {
    pub source: Seq<char>,
    pub dest: Seq<char>,
}

impl View for CopyOp {
    type V = CopyOpV;

    open spec fn view(&self) -> CopyOpV {
        CopyOpV { source: self.source@, dest: self.dest@ }
    }
}

/// The abstract values of a sequence of path events.
pub open spec fn events_view(evs: Seq<PathEvent>) -> Seq<PathEventV> {
    evs.map_values(|e: PathEvent| e@)
}

/// The abstract values of a sequence of copy instructions.
pub open spec fn copies_view(ops: Seq<CopyOp>) -> Seq<CopyOpV> {
    ops.map_values(|c: CopyOp| c@)
}

/// Whether a notified path is replicated: it must currently be a regular
/// file and its path must have a usable base name.
pub open spec fn replicable(e: PathEventV) -> bool {
    e.kind is File && base_name_spec(e.path).len() > 0
}

/// The copy a replicable event gives rise to: its source file, flattened to
/// its base name directly inside the target directory.
pub open spec fn copy_of(e: PathEventV, target: Seq<char>) -> CopyOpV {
    CopyOpV { source: e.path, dest: joined(target, base_name_spec(e.path)) }
}

/// The copies planned for a batch of notified paths: one per replicable
/// event, in notification order.
pub open spec fn plan_spec(evs: Seq<PathEventV>, target: Seq<char>) -> Seq<CopyOpV>
    decreases evs.len(),
{
    if evs.len() == 0 {
        Seq::empty()
    } else {
        plan_spec(evs.drop_last(), target) + (if replicable(evs.last()) {
            seq![copy_of(evs.last(), target)]
        } else {
            Seq::<CopyOpV>::empty()
        })
    }
}

/// Plans the copies for one notification batch: every path that currently
/// refers to a regular file is copied to its flattened destination under
/// `target_dir`, in notification order; directories, vanished paths and
/// paths without a base name are silently skipped.
pub fn plan_copies(events: &Vec<PathEvent>, target_dir: &String) -> (r: Vec<CopyOp>)
    ensures
        copies_view(r@) == plan_spec(events_view(events@), target_dir@),
{
    let ghost evsv = events_view(events@);
    let mut r: Vec<CopyOp> = Vec::new();
    proof {
        assert(copies_view(r@) =~= plan_spec(evsv.take(0), target_dir@));
    }
    let mut i: usize = 0;
    while i < events.len()
        invariant
            0 <= i <= events.len(),
            evsv == events_view(events@),
            evsv.len() == events@.len(),
            copies_view(r@) == plan_spec(evsv.take(i as int), target_dir@),
        decreases events.len() - i,
    {
        let ghost r_old = r@;
        let e = &events[i];
        let mut pushed = false;
        match e.kind {
            PathKind::File => {
                match replication_target(e.path.as_str(), target_dir.as_str()) {
                    Some(dest) => {
                        r.push(CopyOp { source: e.path.clone(), dest });
                        pushed = true;
                    },
                    None => {},
                }
            },
            _ => {},
        }
        proof {
            assert(evsv.take(i + 1).drop_last() =~= evsv.take(i as int));
            assert(evsv.take(i + 1).last() == evsv[i as int]);
            assert(evsv[i as int] == events@[i as int]@);
            if pushed {
                assert(replicable(evsv[i as int]));
                assert(copies_view(r@) =~= copies_view(r_old) + seq![r@.last()@]);
                assert(r@.last()@ == copy_of(evsv[i as int], target_dir@));
                assert(copies_view(r@) =~= plan_spec(evsv.take(i + 1), target_dir@));
            } else {
                assert(!replicable(evsv[i as int]));
                assert(copies_view(r@) =~= plan_spec(evsv.take(i + 1), target_dir@));
            }
        }
        i = i + 1;
    }
    proof {
        assert(evsv.take(events@.len() as int) =~= evsv);
    }
    r
}

/// What one worker iteration does, given the running flag as read at the top
/// of the iteration and the outcome of waiting on the event relay (`None`:
/// the poll interval elapsed without a notification).
pub ghost struct WorkerStepV {
    pub terminate: bool,
    pub copies: Seq<CopyOpV>,
}

/// The worker's decision for one iteration: terminate as soon as the running
/// flag reads false, otherwise replicate the batch (if any) and keep going.
pub open spec fn step_spec(
    running: bool,
    poll: Option<Seq<PathEventV>>,
    target: Seq<char>,
) -> WorkerStepV {
    if !running {
        WorkerStepV { terminate: true, copies: Seq::empty() }
    } else {
        WorkerStepV {
            terminate: false,
            copies: match poll {
                Some(evs) => plan_spec(evs, target),
                None => Seq::empty(),
            },
        }
    }
}

/// The abstract value of a polled batch.
pub open spec fn poll_view(poll: Option<&Vec<PathEvent>>) -> Option<Seq<PathEventV>> {
    match poll {
        Some(evs) => Some(events_view(evs@)),
        None => None,
    }
}

/// One worker iteration's decision.
#[derive(Debug)]
pub struct WorkerStep {
    pub terminate: bool,
    pub copies: Vec<CopyOp>,
}

/// Decides one worker iteration: `running` is the shared flag as read at the
/// top of the iteration, `poll` the outcome of the bounded wait on the event
/// relay. When the flag is false the worker terminates without touching the
/// batch; otherwise it plans the batch's copies and continues.
pub fn worker_step(
    running: bool,
    poll: Option<&Vec<PathEvent>>,
    target_dir: &String,
) -> (r: WorkerStep)
    ensures
        ({
            let s = step_spec(running, poll_view(poll), target_dir@);
            r.terminate == s.terminate && copies_view(r.copies@) == s.copies
        }),
{
    if !running {
        let r = WorkerStep { terminate: true, copies: Vec::new() };
        proof {
            assert(copies_view(r.copies@) =~= Seq::<CopyOpV>::empty());
        }
        r
    } else {
        match poll {
            Some(events) => WorkerStep {
                terminate: false,
                copies: plan_copies(events, target_dir),
            },
            None => {
                let r = WorkerStep { terminate: false, copies: Vec::new() };
                proof {
                    assert(copies_view(r.copies@) =~= Seq::<CopyOpV>::empty());
                }
                r
            },
        }
    }
}

/// Bounded stop latency: once the shared running flag is false — which
/// `stop` makes true of every later read — the worker's next iteration
/// terminates and replicates nothing, whatever notifications are still
/// pending. Since an iteration blocks for at most one poll interval, no
/// replication happens more than one interval after stop.
pub proof fn lemma_bounded_stop(poll: Option<Seq<PathEventV>>, target: Seq<char>)
    ensures
        step_spec(false, poll, target).terminate,
        step_spec(false, poll, target).copies == Seq::<CopyOpV>::empty(),
{
}

/// Directory events are ignored, and deletions are never propagated: a batch
/// in which no path currently refers to a regular file — directories,
/// symlinks, deleted paths — plans no copies at all. (No plan ever contains
/// anything but copies, so a deletion under the watched tree leaves the
/// target untouched.)
pub proof fn lemma_non_files_ignored(evs: Seq<PathEventV>, target: Seq<char>)
    requires
        forall|i: int| 0 <= i < evs.len() ==> !(evs[i].kind is File),
    ensures
        plan_spec(evs, target) == Seq::<CopyOpV>::empty(),
    decreases evs.len(),
{
    if evs.len() > 0 {
        assert(!(evs.last().kind is File));
        lemma_non_files_ignored(evs.drop_last(), target);
        assert(plan_spec(evs, target) =~= Seq::<CopyOpV>::empty());
    }
}

/// The index of the event a planned copy stems from.
pub open spec fn plan_source_index(evs: Seq<PathEventV>, target: Seq<char>, i: int) -> int
    decreases evs.len(),
{
    if evs.len() == 0 {
        0
    } else if i < plan_spec(evs.drop_last(), target).len() {
        plan_source_index(evs.drop_last(), target, i)
    } else {
        evs.len() - 1
    }
}

/// The plan is sound: every planned copy stems from a replicable event of
/// the batch and is that event's flattened copy.
pub proof fn lemma_plan_sound(evs: Seq<PathEventV>, target: Seq<char>)
    ensures
        forall|i: int|
            0 <= i < plan_spec(evs, target).len() ==> 0 <= #[trigger] plan_source_index(
                evs,
                target,
                i,
            ) < evs.len() && replicable(evs[plan_source_index(evs, target, i)]) && plan_spec(
                evs,
                target,
            )[i] == copy_of(evs[plan_source_index(evs, target, i)], target),
    decreases evs.len(),
{
    if evs.len() > 0 {
        lemma_plan_sound(evs.drop_last(), target);
        let prefix = plan_spec(evs.drop_last(), target);
        assert forall|i: int| 0 <= i < plan_spec(evs, target).len() implies 0
            <= #[trigger] plan_source_index(evs, target, i) < evs.len() && replicable(
            evs[plan_source_index(evs, target, i)],
        ) && plan_spec(evs, target)[i] == copy_of(
            evs[plan_source_index(evs, target, i)],
            target,
        ) by {
            if i < prefix.len() {
                let j = plan_source_index(evs.drop_last(), target, i);
                assert(plan_spec(evs, target)[i] == prefix[i]);
                assert(evs.drop_last()[j] == evs[j]);
            } else {
                assert(replicable(evs.last()));
                assert(plan_spec(evs, target)[i] == copy_of(evs[evs.len() - 1], target));
            }
        }
    }
}

/// The plan is complete: every replicable event of the batch has its
/// flattened copy in the plan.
pub proof fn lemma_plan_complete(evs: Seq<PathEventV>, target: Seq<char>)
    ensures
        forall|j: int|
            0 <= j < evs.len() && replicable(evs[j]) ==> plan_spec(evs, target).contains(
                copy_of(evs[j], target),
            ),
    decreases evs.len(),
{
    if evs.len() > 0 {
        lemma_plan_complete(evs.drop_last(), target);
        let prefix = plan_spec(evs.drop_last(), target);
        assert forall|j: int| 0 <= j < evs.len() && replicable(evs[j]) implies plan_spec(
            evs,
            target,
        ).contains(copy_of(evs[j], target)) by {
            if j < evs.len() - 1 {
                assert(evs.drop_last()[j] == evs[j]);
                let i = choose|i: int|
                    0 <= i < prefix.len() && prefix[i] == copy_of(evs.drop_last()[j], target);
                assert(plan_spec(evs, target)[i] == copy_of(evs[j], target));
            } else {
                assert(plan_spec(evs, target)[prefix.len() as int] == copy_of(evs[j], target));
            }
        }
    }
}

/// Stop halts replication: an accepted `stop` leaves the engine in a state
/// whose running flag — the value of `is_running` the host shares with the
/// worker — is false, and with a false flag the worker's next iteration
/// terminates and copies nothing, whatever is still queued.
pub proof fn lemma_stop_halts_worker(
    m: SyncManagerView,
    poll: Option<Seq<PathEventV>>,
    target: Seq<char>,
)
    requires
        stop_allowed(m),
    ensures
        !(after_stop(m).phase is Running),
        step_spec(after_stop(m).phase is Running, poll, target).terminate,
        step_spec(after_stop(m).phase is Running, poll, target).copies
            == Seq::<CopyOpV>::empty(),
{
}

} // verus!
