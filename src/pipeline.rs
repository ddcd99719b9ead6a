use vstd::prelude::*;
use crate::naming::{archive_name, archive_name_spec};
use crate::record::{
    distinct_times, lemma_distinct_times_strictly_ordered, lemma_strictly_sorted_unique,
    lemma_time_ordered, order_by_creation, sorted_by_time, strictly_sorted_by_time, time_ordered,
    FileRecord,
};
use crate::time::{civil_time, in_calendar, local_civil, ts_lt};

verus! {

/// Seconds the pipeline waits before a fresh scan when too few files are pending.
pub const WAIT_SECS: u64 = 60;

/// Where the pipeline stands: which outside action it is waiting on.
#[derive(Clone, Copy, Debug, PartialEq, Eq, Structural)]
pub enum Phase {
    /// A full scan of the inbox was asked for.
    Scanning,
    /// Too few files were pending; a pause was asked for.
    Waiting,
    /// The archive of the current batch is being written.
    Building,
    /// The archive is being shipped to the remote store.
    Transferring,
    /// The shipped archive is being deleted locally.
    RemovingArchive,
    /// The batch's source files are being deleted, one at a time.
    RemovingSources,
    /// A fatal error stopped the pipeline.
    Halted,
}

/// The kinds of fatal error.
#[derive(Clone, Copy, Debug, PartialEq, Eq, Structural)]
pub enum ErrorKind {
    /// The filesystem failed a read, write or delete.
    Io,
    /// The archive could not be built or named.
    Build,
    /// The remote store refused the archive or could not be reached.
    Transfer,
}

/// The outside action that the driver is to perform next.
#[derive(Clone, Copy, Debug, PartialEq, Eq, Structural)]
pub enum Action {
    /// Scan the inbox and report the records found, or the failure.
    Scan,
    /// Wait `WAIT_SECS` seconds, then report.
    Sleep,
    /// Write the archive `archive_name()` holding the files `batch_names()`, in order.
    Build,
    /// Ship the archive `archive_name()` to the remote store.
    Transfer,
    /// Delete the local archive `archive_name()`.
    RemoveArchive,
    /// Delete the source file `source_to_remove()`.
    RemoveSource,
    /// Stop with an error of this kind.
    Halt(ErrorKind),
}

/// The pipeline as the contracts see it.
pub struct PipelineState {
    /// Records not yet archived, oldest first.
    pub pending: Seq<FileRecord>,
    /// How many records make a batch.
    pub threshold: nat,
    /// Whether archives are shipped to a remote store.
    pub upload: bool,
    pub phase: Phase,
    /// The name of the current batch's archive.
    pub archive: Seq<char>,
    /// How many of the batch's source files have had their deletion attempted.
    pub removed: nat,
}

/// A phase in which the first `threshold` pending records form the current batch.
pub open spec fn in_batch(p: Phase) -> bool {
    p is Building || p is Transferring || p is RemovingArchive || p is RemovingSources
}

impl PipelineState {
    /// The threshold is positive, pending records are oldest first, and in a
    /// batch phase there is a full batch, named after its oldest record.
    pub open spec fn wf(self) -> bool {
        &&& self.threshold >= 1
        &&& sorted_by_time(self.pending)
        &&& in_batch(self.phase) ==> self.pending.len() >= self.threshold
        &&& self.phase is RemovingSources ==> self.removed < self.threshold
        &&& in_batch(self.phase) ==> archive_for(self.pending) == Some(self.archive)
    }

    /// The records of the current batch, oldest first.
    pub open spec fn batch(self) -> Seq<FileRecord> {
        self.pending.take(self.threshold as int)
    }
}

/// The archive name for a batch that starts with `pending[0]`: its creation
/// time read on the local clock of that instant. `None` where the calendar
/// cannot place it.
pub open spec fn archive_for(pending: Seq<FileRecord>) -> Option<Seq<char>> {
    let first = pending[0];
    match local_civil(first.created, first.utc_offset as int) {
        Some(c) => Some(archive_name_spec(c)),
        None => None,
    }
}

/// With `s.pending` in hand: archive the oldest `threshold` records when there
/// are at least that many, else wait.
pub open spec fn decide(s: PipelineState) -> (PipelineState, Action) {
    if s.pending.len() >= s.threshold {
        match archive_for(s.pending) {
            Some(name) => (
                PipelineState {
                    phase: Phase::Building,
                    archive: name,
                    removed: 0,
                    ..s
                },
                Action::Build,
            ),
            None => (PipelineState { phase: Phase::Halted, ..s }, Action::Halt(ErrorKind::Build)),
        }
    } else {
        (PipelineState { phase: Phase::Waiting, ..s }, Action::Sleep)
    }
}

/// The step taken on the result of a scan (`None`: the scan failed). A
/// successful scan replaces the pending records wholesale.
pub open spec fn after_scan(s: PipelineState, scan: Option<Seq<FileRecord>>) -> (
    PipelineState,
    Action,
) {
    match scan {
        None => (PipelineState { phase: Phase::Halted, ..s }, Action::Halt(ErrorKind::Io)),
        Some(records) => decide(PipelineState { pending: time_ordered(records), ..s }),
    }
}

/// The step taken when the action asked for in phase `s.phase` has finished,
/// successfully or not.
pub open spec fn after_outcome(s: PipelineState, ok: bool) -> (PipelineState, Action) {
    match s.phase {
        Phase::Waiting => (PipelineState { phase: Phase::Scanning, ..s }, Action::Scan),
        Phase::Building => if !ok {
            (PipelineState { phase: Phase::Halted, ..s }, Action::Halt(ErrorKind::Build))
        } else if s.upload {
            (PipelineState { phase: Phase::Transferring, ..s }, Action::Transfer)
        } else {
            (PipelineState { phase: Phase::RemovingSources, removed: 0, ..s }, Action::RemoveSource)
        },
        Phase::Transferring => if ok {
            (PipelineState { phase: Phase::RemovingArchive, ..s }, Action::RemoveArchive)
        } else {
            (PipelineState { phase: Phase::Halted, ..s }, Action::Halt(ErrorKind::Transfer))
        },
        Phase::RemovingArchive => if ok {
            (PipelineState { phase: Phase::RemovingSources, removed: 0, ..s }, Action::RemoveSource)
        } else {
            (PipelineState { phase: Phase::Halted, ..s }, Action::Halt(ErrorKind::Io))
        },
        Phase::RemovingSources => if s.removed + 1 < s.threshold {
            (PipelineState { removed: s.removed + 1, ..s }, Action::RemoveSource)
        } else {
            decide(
                PipelineState { pending: s.pending.skip(s.threshold as int), removed: 0, ..s },
            )
        },
        _ => (s, Action::Halt(ErrorKind::Io)),
    }
}

/// A phase that waits on an outside action whose outcome is success or failure.
pub open spec fn awaits_outcome(p: Phase) -> bool {
    p is Waiting || in_batch(p)
}

/// A scan result as the contracts see it.
pub open spec fn scan_view(scan: Option<Vec<FileRecord>>) -> Option<Seq<FileRecord>> {
    match scan {
        Some(v) => Some(v@),
        None => None,
    }
}

/// The batch pipeline: scan, decide, archive, ship, clean up, and again.
///
/// The driver performs each returned `Action` and reports how it went through
/// `on_scan` or `on_outcome`; the pipeline decides everything else.
pub struct Pipeline {
    pending: Vec<FileRecord>,
    threshold: usize,
    upload: bool,
    phase: Phase,
    archive: String,
    removed: usize,
}

impl View for Pipeline {
    type V = PipelineState;

    closed spec fn view(&self) -> PipelineState {
        PipelineState {
            pending: self.pending@,
            threshold: self.threshold as nat,
            upload: self.upload,
            phase: self.phase,
            archive: self.archive@,
            removed: self.removed as nat,
        }
    }
}

impl Pipeline {
    /// A pipeline that archives `threshold` files at a time and ships each
    /// archive when `upload` holds. It starts by asking for a scan.
    pub fn new(threshold: usize, upload: bool) -> (r: Pipeline)
        requires
            threshold >= 1,
        ensures
            r@.wf(),
            r@.pending.len() == 0,
            r@.threshold == threshold,
            r@.upload == upload,
            r@.phase == Phase::Scanning,
            r@.archive.len() == 0,
            r@.removed == 0,
    {
        Pipeline {
            pending: Vec::new(),
            threshold,
            upload,
            phase: Phase::Scanning,
            archive: String::new(),
            removed: 0,
        }
    }

    fn decide(&mut self) -> (a: Action)
        requires
            old(self)@.threshold >= 1,
            sorted_by_time(old(self)@.pending),
        ensures
            (final(self)@, a) == decide(old(self)@),
    {
        if self.pending.len() >= self.threshold {
            let first = &self.pending[0];
            match civil_time(first.created, first.utc_offset) {
                Some(c) => {
                    self.archive = archive_name(c);
                    self.removed = 0;
                    self.phase = Phase::Building;
                    Action::Build
                },
                None => {
                    self.phase = Phase::Halted;
                    Action::Halt(ErrorKind::Build)
                },
            }
        } else {
            self.phase = Phase::Waiting;
            Action::Sleep
        }
    }

    /// Takes the result of the scan asked for (`None`: it failed).
    pub fn on_scan(&mut self, scan: Option<Vec<FileRecord>>) -> (a: Action)
        requires
            old(self)@.wf(),
            old(self)@.phase == Phase::Scanning,
        ensures
            (final(self)@, a) == after_scan(old(self)@, scan_view(scan)),
            final(self)@.wf(),
    {
        match scan {
            None => {
                self.phase = Phase::Halted;
                Action::Halt(ErrorKind::Io)
            },
            Some(records) => {
                self.pending = order_by_creation(records);
                self.decide()
            },
        }
    }

    /// Takes the outcome of the action asked for: `ok` when it succeeded.
    pub fn on_outcome(&mut self, ok: bool) -> (a: Action)
        requires
            old(self)@.wf(),
            awaits_outcome(old(self)@.phase),
        ensures
            (final(self)@, a) == after_outcome(old(self)@, ok),
            final(self)@.wf(),
    {
        match self.phase {
            Phase::Waiting => {
                self.phase = Phase::Scanning;
                Action::Scan
            },
            Phase::Building => {
                if !ok {
                    self.phase = Phase::Halted;
                    Action::Halt(ErrorKind::Build)
                } else if self.upload {
                    self.phase = Phase::Transferring;
                    Action::Transfer
                } else {
                    self.phase = Phase::RemovingSources;
                    self.removed = 0;
                    Action::RemoveSource
                }
            },
            Phase::Transferring => {
                if ok {
                    self.phase = Phase::RemovingArchive;
                    Action::RemoveArchive
                } else {
                    self.phase = Phase::Halted;
                    Action::Halt(ErrorKind::Transfer)
                }
            },
            Phase::RemovingArchive => {
                if ok {
                    self.phase = Phase::RemovingSources;
                    self.removed = 0;
                    Action::RemoveSource
                } else {
                    self.phase = Phase::Halted;
                    Action::Halt(ErrorKind::Io)
                }
            },
            _ => {
                if self.removed + 1 < self.threshold {
                    self.removed = self.removed + 1;
                    Action::RemoveSource
                } else {
                    let rest = self.pending.split_off(self.threshold);
                    self.pending = rest;
                    self.removed = 0;
                    proof {
                        assert(self.pending@ =~= old(self)@.pending.skip(old(self)@.threshold as int));
                    }
                    self.decide()
                }
            },
        }
    }

    /// The phase, which names the outside action being waited on.
    pub fn phase(&self) -> (r: Phase)
        ensures
            r == self@.phase,
    {
        self.phase
    }

    /// How many records make a batch.
    pub fn threshold(&self) -> (r: usize)
        ensures
            r == self@.threshold,
    {
        self.threshold
    }

    /// How many records are pending.
    pub fn pending_len(&self) -> (r: usize)
        ensures
            r == self@.pending.len(),
    {
        self.pending.len()
    }

    /// The `i`-th pending record, counting from the oldest.
    pub fn pending_at(&self, i: usize) -> (r: &FileRecord)
        requires
            i < self@.pending.len(),
        ensures
            *r == self@.pending[i as int],
    {
        &self.pending[i]
    }

    /// The name of the current batch's archive.
    pub fn archive_name(&self) -> (r: String)
        ensures
            r@ == self@.archive,
    {
        self.archive.clone()
    }

    /// The base names of the current batch's files, oldest first.
    pub fn batch_names(&self) -> (r: Vec<String>)
        requires
            self@.wf(),
            in_batch(self@.phase),
        ensures
            r@.len() == self@.threshold,
            forall|i: int| 0 <= i < r@.len() ==> #[trigger] r@[i]@ == self@.pending[i].name@,
    {
        let mut names: Vec<String> = Vec::new();
        let mut i: usize = 0;
        while i < self.threshold
            invariant
                self@.wf(),
                in_batch(self@.phase),
                i <= self@.threshold,
                names@.len() == i,
                forall|j: int| 0 <= j < i ==> #[trigger] names@[j]@ == self@.pending[j].name@,
            decreases self@.threshold - i,
        {
            names.push(self.pending[i].name.clone());
            i = i + 1;
        }
        names
    }

    /// The base name of the source file whose deletion is asked for.
    pub fn source_to_remove(&self) -> (r: String)
        requires
            self@.wf(),
            self@.phase == Phase::RemovingSources,
        ensures
            r@ == self@.pending[self@.removed as int].name@,
    {
        self.pending[self.removed].name.clone()
    }
}

/// The state reached from `s` when the actions asked for finish with
/// `outcomes`, one after the other.
pub open spec fn run(s: PipelineState, outcomes: Seq<bool>) -> PipelineState
    decreases outcomes.len(),
{
    if outcomes.len() == 0 {
        s
    } else {
        run(after_outcome(s, outcomes[0]).0, outcomes.drop_first())
    }
}

/// The outcomes of a batch cycle up to its first source deletion, when each
/// succeeds: the build, and where shipping is on, the transfer and the removal
/// of the local archive.
pub open spec fn successful_start(upload: bool) -> Seq<bool> {
    if upload {
        seq![true, true, true]
    } else {
        seq![true]
    }
}

proof fn lemma_run_append(s: PipelineState, a: Seq<bool>, b: Seq<bool>)
    ensures
        run(s, a + b) == run(run(s, a), b),
    decreases a.len(),
{
    if a.len() > 0 {
        assert((a + b).drop_first() =~= a.drop_first() + b);
        lemma_run_append(after_outcome(s, a[0]).0, a.drop_first(), b);
    } else {
        assert(a + b =~= b);
    }
}

proof fn lemma_removals(r: PipelineState, outcomes: Seq<bool>)
    requires
        r.wf(),
        r.phase == Phase::RemovingSources,
        outcomes.len() == r.threshold - r.removed,
    ensures
        run(r, outcomes).pending == r.pending.skip(r.threshold as int),
    decreases outcomes.len(),
{
    reveal_with_fuel(run, 2);
    let next = after_outcome(r, outcomes[0]).0;
    if r.removed + 1 < r.threshold {
        lemma_removals(next, outcomes.drop_first());
    } else {
        assert(outcomes.drop_first().len() == 0);
    }
}

/// Threshold: at decision time the pipeline goes on to build an archive
/// exactly when at least `threshold` records are pending, provided the oldest
/// one's local creation time lies in the calendar (else it halts with a build
/// error); with fewer it waits, then asks for a fresh scan whose result
/// replaces the pending records wholesale.
pub proof fn lemma_threshold(s: PipelineState, rescan: Seq<FileRecord>)
    requires
        s.wf(),
    ensures
        ({
            let (t, a) = decide(s);
            &&& (a == Action::Sleep) <==> s.pending.len() < s.threshold
            &&& (a == Action::Build) <==> (s.pending.len() >= s.threshold && in_calendar(
                s.pending[0].created.secs + s.pending[0].utc_offset,
            ))
            &&& (s.pending.len() >= s.threshold && a != Action::Build) ==> a == Action::Halt(
                ErrorKind::Build,
            )
            &&& a == Action::Sleep ==> {
                &&& after_outcome(t, true).1 == Action::Scan
                &&& after_outcome(t, false).1 == Action::Scan
                &&& after_scan(after_outcome(t, true).0, Some(rescan)).0.pending == time_ordered(
                    rescan,
                )
            }
        }),
{
}

/// Ordering: when the files of a scan have pairwise distinct creation times
/// and a batch is formed, its members are strictly oldest first, and each is
/// older than every record left pending.
pub proof fn lemma_batch_in_creation_order(s: PipelineState, records: Seq<FileRecord>)
    requires
        s.wf(),
        s.phase == Phase::Scanning,
        distinct_times(records),
    ensures
        ({
            let (t, a) = after_scan(s, Some(records));
            a == Action::Build ==> {
                &&& strictly_sorted_by_time(t.batch())
                &&& forall|i: int, j: int|
                    0 <= i < t.threshold <= j < t.pending.len() ==> ts_lt(
                        #[trigger] t.pending[i].created,
                        #[trigger] t.pending[j].created,
                    )
            }
        }),
{
    lemma_distinct_times_strictly_ordered(records);
}

/// Prefix consumption: a batch cycle whose build succeeds, whose archive (when
/// shipping is on) is shipped and deleted, and in which every source deletion
/// is attempted, whether or not each succeeds, leaves pending exactly the
/// records after the `threshold` oldest, unchanged.
pub proof fn lemma_cycle_consumes_batch(s: PipelineState, removals: Seq<bool>)
    requires
        s.wf(),
        s.phase == Phase::Building,
        removals.len() == s.threshold,
    ensures
        run(s, successful_start(s.upload) + removals).pending == s.pending.skip(
            s.threshold as int,
        ),
{
    let start = successful_start(s.upload);
    lemma_run_append(s, start, removals);
    let r = run(s, start);
    reveal_with_fuel(run, 4);
    if s.upload {
        assert(start.drop_first() =~= seq![true, true]);
        assert(start.drop_first().drop_first() =~= seq![true]);
        assert(start.drop_first().drop_first().drop_first() =~= Seq::<bool>::empty());
    } else {
        assert(start.drop_first() =~= Seq::<bool>::empty());
    }
    lemma_removals(r, removals);
}

/// No loss on transfer failure: a failed transfer halts the pipeline before any
/// deletion, so the archive and every source file stay, and the pending records
/// are unchanged. A restarted pipeline whose scan finds the same files, in any
/// order, with pairwise distinct creation times, forms the same batch under the
/// same archive name.
pub proof fn lemma_transfer_failure_loses_nothing(
    s: PipelineState,
    fresh: PipelineState,
    rescan: Seq<FileRecord>,
)
    requires
        s.wf(),
        s.phase == Phase::Transferring,
        fresh.wf(),
        fresh.phase == Phase::Scanning,
        fresh.threshold == s.threshold,
        distinct_times(s.pending),
        rescan.to_multiset() == s.pending.to_multiset(),
    ensures
        after_outcome(s, false) == (
            PipelineState { phase: Phase::Halted, ..s },
            Action::Halt(ErrorKind::Transfer),
        ),
        !awaits_outcome(Phase::Halted),
        ({
            let (t, a) = after_scan(fresh, Some(rescan));
            &&& a == Action::Build
            &&& t.pending == s.pending
            &&& t.batch() == s.batch()
            &&& t.archive == s.archive
        }),
{
    assert(strictly_sorted_by_time(s.pending)) by {
        assert forall|i: int, j: int| 0 <= i < j < s.pending.len() implies ts_lt(
            #[trigger] s.pending[i].created,
            #[trigger] s.pending[j].created,
        ) by {
            assert(s.pending[i].created != s.pending[j].created);
        }
    }
    lemma_time_ordered(rescan);
    lemma_strictly_sorted_unique(s.pending, time_ordered(rescan));
}

/// Naming determinism: two batches whose oldest members were created at the
/// same instant, under the same local UTC offset, get the same archive name.
pub proof fn lemma_naming_determinism(s1: PipelineState, s2: PipelineState)
    requires
        s1.wf(),
        s2.wf(),
        in_batch(s1.phase),
        in_batch(s2.phase),
        s1.pending[0].created == s2.pending[0].created,
        s1.pending[0].utc_offset == s2.pending[0].utc_offset,
    ensures
        s1.archive == s2.archive,
{
}

} // verus!
