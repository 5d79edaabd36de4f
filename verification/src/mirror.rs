//! A model of the target directory's contents under replication: a map from
//! destination path to byte content, built from the log of copies the worker
//! applied. Replication only inserts or overwrites whole files — it never
//! removes one — and a failed copy leaves the directory exactly as if the
//! copy had not been attempted, without disturbing the rest of its batch.

use vstd::prelude::*;
use crate::paths::base_name_spec;
use crate::paths::joined;
use crate::worker::PathEventV;
use crate::worker::PathKind;
use crate::worker::CopyOpV;
use crate::worker::copy_of;
use crate::worker::plan_spec;
use crate::worker::replicable;

verus! {

/// One applied copy: a destination path and the bytes written there.
#[derive(Debug)]
pub struct MirrorEntry {
    pub dest: String,
    pub data: Vec<u8>,
}

/// The abstract value of a [`MirrorEntry`].
pub ghost struct MirrorEntryV {
    pub dest: Seq<char>,
    pub data: Seq<u8>,
}

impl View for MirrorEntry {
    type V = MirrorEntryV;

    open spec fn view(&self) -> MirrorEntryV {
        MirrorEntryV { dest: self.dest@, data: self.data@ }
    }
}

/// The abstract values of a log of applied copies.
pub open spec fn entries_view(entries: Seq<MirrorEntry>) -> Seq<MirrorEntryV> {
    entries.map_values(|e: MirrorEntry| e@)
}

/// The directory contents a log of applied copies produces: later copies to
/// the same destination overwrite earlier ones.
pub open spec fn as_map(entries: Seq<MirrorEntryV>) -> Map<Seq<char>, Seq<u8>>
    decreases entries.len(),
{
    if entries.len() == 0 {
        Map::empty()
    } else {
        as_map(entries.drop_last()).insert(entries.last().dest, entries.last().data)
    }
}

/// One attempted copy of a batch: the destination path, the source's bytes
/// at copy time, and whether the host's copy succeeded.
#[derive(Debug)]
pub struct CopyAttempt {
    pub dest: String,
    pub data: Vec<u8>,
    pub ok: bool,
}

/// The abstract value of a [`CopyAttempt`].
pub ghost struct CopyAttemptV {
    pub dest: Seq<char>,
    pub data: Seq<u8>,
    pub ok: bool,
}

impl View for CopyAttempt {
    type V = CopyAttemptV;

    open spec fn view(&self) -> CopyAttemptV {
        CopyAttemptV { dest: self.dest@, data: self.data@, ok: self.ok }
    }
}

/// The abstract values of a batch of attempted copies.
pub open spec fn attempts_view(batch: Seq<CopyAttempt>) -> Seq<CopyAttemptV> {
    batch.map_values(|a: CopyAttempt| a@)
}

/// The directory contents after a batch of attempted copies: each successful
/// attempt, in order, writes its bytes to its destination; failed attempts
/// change nothing.
pub open spec fn batch_spec(
    m: Map<Seq<char>, Seq<u8>>,
    b: Seq<CopyAttemptV>,
) -> Map<Seq<char>, Seq<u8>>
    decreases b.len(),
{
    if b.len() == 0 {
        m
    } else {
        let prior = batch_spec(m, b.drop_last());
        if b.last().ok {
            prior.insert(b.last().dest, b.last().data)
        } else {
            prior
        }
    }
}

/// Whether some successful attempt of `b` writes to `dest`.
pub open spec fn written(b: Seq<CopyAttemptV>, dest: Seq<char>) -> bool
    decreases b.len(),
{
    if b.len() == 0 {
        false
    } else {
        written(b.drop_last(), dest) || (b.last().ok && b.last().dest == dest)
    }
}

/// The target directory's contents as the replication worker builds them: the
/// log of every copy applied, viewed as a map from destination path to the
/// bytes most recently written there.
#[derive(Debug)]
pub struct MirrorModel {
    log: Vec<MirrorEntry>,
}

impl View for MirrorModel {
    type V = Map<Seq<char>, Seq<u8>>;

    closed spec fn view(&self) -> Map<Seq<char>, Seq<u8>> {
        as_map(entries_view(self.log@))
    }
}

proof fn lemma_as_map_found(s: Seq<MirrorEntryV>, dest: Seq<char>, i: int)
    requires
        0 <= i < s.len(),
        s[i].dest == dest,
        forall|j: int| i < j < s.len() ==> s[j].dest != dest,
    ensures
        as_map(s).contains_key(dest),
        as_map(s)[dest] == s[i].data,
    decreases s.len(),
{
    if i == s.len() - 1 {
    } else {
        assert(s.drop_last()[i] == s[i]);
        lemma_as_map_found(s.drop_last(), dest, i);
        assert(s.last().dest != dest);
    }
}

proof fn lemma_as_map_missing(s: Seq<MirrorEntryV>, dest: Seq<char>)
    requires
        forall|j: int| 0 <= j < s.len() ==> s[j].dest != dest,
    ensures
        !as_map(s).contains_key(dest),
    decreases s.len(),
{
    if s.len() > 0 {
        assert(s.drop_last().len() == s.len() - 1);
        assert(forall|j: int| 0 <= j < s.drop_last().len() ==> s.drop_last()[j] == s[j]);
        lemma_as_map_missing(s.drop_last(), dest);
    }
}

impl MirrorModel {
    /// An empty target directory: nothing replicated yet.
    pub fn new() -> (r: Self)
        ensures
            r@ == Map::<Seq<char>, Seq<u8>>::empty(),
    {
        MirrorModel { log: Vec::new() }
    }

    /// Applies one successful copy: `dest` now holds exactly `data`,
    /// byte for byte, overwriting whatever was there; nothing else changes.
    pub fn apply_copy(&mut self, dest: String, data: Vec<u8>)
        ensures
            final(self)@ == old(self)@.insert(dest@, data@),
    {
        let ghost prior = entries_view(self.log@);
        let entry = MirrorEntry { dest, data };
        let ghost entryv = entry@;
        self.log.push(entry);
        proof {
            assert(entries_view(self.log@) =~= prior.push(entryv));
            assert(prior.push(entryv).drop_last() =~= prior);
        }
    }

    /// The bytes currently at `dest`: those of the latest copy applied there,
    /// or `None` if nothing was ever replicated to `dest`.
    pub fn lookup(&self, dest: &String) -> (r: Option<&Vec<u8>>)
        ensures
            match r {
                Some(data) => self@.contains_key(dest@) && data@ == self@[dest@],
                None => !self@.contains_key(dest@),
            },
    {
        let ghost s = entries_view(self.log@);
        let mut i: usize = self.log.len();
        loop
            invariant
                0 <= i <= self.log.len(),
                s == entries_view(self.log@),
                s.len() == self.log@.len(),
                forall|j: int| i <= j < s.len() ==> s[j].dest != dest@,
            ensures
                i == 0,
                forall|j: int| 0 <= j < s.len() ==> s[j].dest != dest@,
            decreases i,
        {
            if i == 0 {
                break ;
            }
            let entry = &self.log[i - 1];
            if entry.dest == *dest {
                proof {
                    assert(s[i - 1].dest == dest@);
                    lemma_as_map_found(s, dest@, i - 1);
                }
                return Some(&entry.data);
            }
            i = i - 1;
        }
        proof {
            lemma_as_map_missing(s, dest@);
        }
        None
    }

    /// Applies one batch of attempted copies in order: every successful
    /// attempt writes its bytes to its destination, every failed one is
    /// skipped, and the worker carries on past failures to the rest of the
    /// batch.
    pub fn apply_batch(&mut self, batch: &Vec<CopyAttempt>)
        ensures
            final(self)@ == batch_spec(old(self)@, attempts_view(batch@)),
    {
        let ghost m0 = self@;
        let ghost bv = attempts_view(batch@);
        let mut i: usize = 0;
        while i < batch.len()
            invariant
                0 <= i <= batch.len(),
                bv == attempts_view(batch@),
                bv.len() == batch@.len(),
                self@ == batch_spec(m0, bv.take(i as int)),
            decreases batch.len() - i,
        {
            let a = &batch[i];
            if a.ok {
                self.apply_copy(a.dest.clone(), a.data.clone());
            }
            proof {
                assert(bv.take(i + 1).drop_last() =~= bv.take(i as int));
                assert(bv.take(i + 1).last() == bv[i as int]);
                assert(bv[i as int] == batch@[i as int]@);
            }
            i = i + 1;
        }
        proof {
            assert(bv.take(batch@.len() as int) =~= bv);
        }
    }
}

/// Replication correctness (at the model's level): a successful copy of
/// bytes `data` to destination `dest` leaves the target holding exactly
/// `data` at `dest` — a byte-identical mirror of the source at copy time.
pub proof fn lemma_replication(m: Map<Seq<char>, Seq<u8>>, dest: Seq<char>, data: Seq<u8>)
    ensures
        batch_spec(m, seq![CopyAttemptV { dest, data, ok: true }]).contains_key(dest),
        batch_spec(m, seq![CopyAttemptV { dest, data, ok: true }])[dest] == data,
{
    let b = seq![CopyAttemptV { dest, data, ok: true }];
    assert(b.drop_last() =~= Seq::<CopyAttemptV>::empty());
}

/// No deletion propagation: applying a batch never removes a file from the
/// target — every destination present before is present after, a destination
/// no successful attempt writes to keeps its exact content, and no
/// destination appears that neither was present nor was written.
pub proof fn lemma_no_deletion(m: Map<Seq<char>, Seq<u8>>, b: Seq<CopyAttemptV>)
    ensures
        forall|k: Seq<char>| m.contains_key(k) ==> #[trigger] batch_spec(m, b).contains_key(k),
        forall|k: Seq<char>|
            m.contains_key(k) && !written(b, k) ==> #[trigger] batch_spec(m, b)[k] == m[k],
        forall|k: Seq<char>|
            !m.contains_key(k) && !written(b, k) ==> !(#[trigger] batch_spec(m, b).contains_key(
                k,
            )),
    decreases b.len(),
{
    if b.len() > 0 {
        lemma_no_deletion(m, b.drop_last());
        assert forall|k: Seq<char>| m.contains_key(k) implies #[trigger] batch_spec(
            m,
            b,
        ).contains_key(k) by {
            assert(batch_spec(m, b.drop_last()).contains_key(k));
        }
        assert forall|k: Seq<char>| m.contains_key(k) && !written(b, k) implies #[trigger]
            batch_spec(m, b)[k] == m[k] by {
            assert(batch_spec(m, b.drop_last())[k] == m[k]);
        }
        assert forall|k: Seq<char>| !m.contains_key(k) && !written(b, k) implies !(
        #[trigger] batch_spec(m, b).contains_key(k)) by {
            assert(!batch_spec(m, b.drop_last()).contains_key(k));
        }
    }
}

/// The successful attempts of a batch, in order.
pub open spec fn successes(b: Seq<CopyAttemptV>) -> Seq<CopyAttemptV>
    decreases b.len(),
{
    if b.len() == 0 {
        b
    } else if b.last().ok {
        successes(b.drop_last()).push(b.last())
    } else {
        successes(b.drop_last())
    }
}

/// Partial-failure isolation: a batch acts exactly as the sub-batch of its
/// successful attempts — a failed copy leaves no trace and takes nothing
/// else of its batch down with it.
pub proof fn lemma_failure_isolation(m: Map<Seq<char>, Seq<u8>>, b: Seq<CopyAttemptV>)
    ensures
        batch_spec(m, b) == batch_spec(m, successes(b)),
    decreases b.len(),
{
    if b.len() > 0 {
        lemma_failure_isolation(m, b.drop_last());
        let kept = successes(b.drop_last());
        if b.last().ok {
            assert(successes(b) == kept.push(b.last()));
            assert(kept.push(b.last()).drop_last() =~= kept);
            assert(kept.push(b.last()).len() > 0);
            assert(kept.push(b.last()).last() == b.last());
        }
    }
}

/// Batches compose: applying one batch after another is applying their
/// concatenation, so isolation and no-deletion carry over from batch to
/// batch across the whole session.
pub proof fn lemma_batch_concat(
    m: Map<Seq<char>, Seq<u8>>,
    a: Seq<CopyAttemptV>,
    b: Seq<CopyAttemptV>,
)
    ensures
        batch_spec(m, a + b) == batch_spec(batch_spec(m, a), b),
    decreases b.len(),
{
    if b.len() == 0 {
        assert(a + b =~= a);
    } else {
        lemma_batch_concat(m, a, b.drop_last());
        assert((a + b).drop_last() =~= a + b.drop_last());
        assert((a + b).len() > 0);
        assert((a + b).last() == b.last());
    }
}

/// Replication correctness, end to end: a notification for a regular file at
/// `source` is planned as exactly one copy, its destination is the source's
/// base name directly inside the target directory, and applying that copy
/// successfully leaves the target holding the source's bytes there,
/// byte for byte.
pub proof fn lemma_event_replicated(
    m: Map<Seq<char>, Seq<u8>>,
    target: Seq<char>,
    source: Seq<char>,
    data: Seq<u8>,
)
    requires
        base_name_spec(source).len() > 0,
    ensures
        ({
            let e = PathEventV { path: source, kind: PathKind::File };
            let dest = joined(target, base_name_spec(source));
            &&& replicable(e)
            &&& plan_spec(seq![e], target) == seq![copy_of(e, target)]
            &&& copy_of(e, target).dest == dest
            &&& batch_spec(m, seq![CopyAttemptV { dest, data, ok: true }]).contains_key(dest)
            &&& batch_spec(m, seq![CopyAttemptV { dest, data, ok: true }])[dest] == data
        }),
{
    let e = PathEventV { path: source, kind: PathKind::File };
    let dest = joined(target, base_name_spec(source));
    assert(seq![e].drop_last() =~= Seq::<PathEventV>::empty());
    assert(plan_spec(seq![e].drop_last(), target) =~= Seq::<CopyOpV>::empty());
    assert(seq![e].last() == e);
    assert(plan_spec(seq![e], target) =~= seq![copy_of(e, target)]);
    lemma_replication(m, dest, data);
}

} // verus!
