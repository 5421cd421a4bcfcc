//! Concurrency admission for queued operations.

use vstd::prelude::*;
use crate::operations::{
    OperationError, OperationId, OperationQueue, OperationState, RecordView, lemma_index_unique,
    lemma_progressed_ready, lemma_progressed_trans, lemma_scan_shape, lemma_started_kept, nothing_runnable,
    queue_progressed, records_wf, started_ready, has_id, deps_ready, OperationEvent, scan, index_of,
    deps_blocked, lemma_progressed_blocked,
};

verus! {

/// Default simultaneous-operation ceiling.
pub const DEFAULT_MAX_PARALLEL: u16 = 5;

/// Minimum supported simultaneous-operation setting.
pub const MIN_MAX_PARALLEL: u16 = 1;

/// Maximum supported simultaneous-operation setting.
pub const MAX_MAX_PARALLEL: u16 = 20;

/// Validated scheduler configuration.
#[derive(Clone, Copy, Debug, PartialEq, Eq, Structural)]
pub struct SchedulerLimits {
    max_parallel: u16,
}

impl SchedulerLimits {
    /// The simultaneous-operation ceiling.
    pub closed spec fn spec_max_parallel(self) -> u16 {
        self.max_parallel
    }

    /// Creates validated scheduler limits (inclusive range 1 through 20).
    pub fn new(max_parallel: u16) -> (r: Result<SchedulerLimits, SchedulerError>)
        ensures
            (MIN_MAX_PARALLEL <= max_parallel <= MAX_MAX_PARALLEL) <==> r is Ok,
            r matches Ok(l) ==> l.spec_max_parallel() == max_parallel,
            r matches Err(e) ==> e == SchedulerError::InvalidParallelism(max_parallel),
    {
        if max_parallel < MIN_MAX_PARALLEL || max_parallel > MAX_MAX_PARALLEL {
            return Err(SchedulerError::InvalidParallelism(max_parallel));
        }

        Ok(SchedulerLimits { max_parallel })
    }

    /// The product default of five simultaneous operations.
    pub fn default_limits() -> (r: SchedulerLimits)
        ensures
            r.spec_max_parallel() == DEFAULT_MAX_PARALLEL,
    {
        SchedulerLimits { max_parallel: DEFAULT_MAX_PARALLEL }
    }

    /// Returns the simultaneous-operation ceiling.
    pub fn max_parallel(self) -> (r: u16)
        ensures
            r == self.spec_max_parallel(),
    {
        self.max_parallel
    }
}

/// Scheduler failures.
#[derive(Clone, Copy, Debug, PartialEq, Eq, Structural)]
pub enum SchedulerError {
    /// Requested simultaneous-operation setting is outside 1..=20.
    InvalidParallelism(u16),
    /// Operation lifecycle update failed.
    Operation(OperationError),
    /// Caller attempted to finish an operation that was not active.
    NotActive(OperationId),
}

/// Every active operation has already left the queued state in these records.
#[verifier::opaque]
pub open spec fn active_started(active: Seq<OperationId>, recs: Seq<RecordView>) -> bool {
    forall|a: int, k: int|
        0 <= a < active.len() && 0 <= k < recs.len() && (#[trigger] recs[k]).id == (#[trigger] active[a]).spec_get()
            ==> recs[k].state != OperationState::Queued
}

/// What admission may change: a queued operation fails only with a failed or
/// cancelled dependency, and runs only once it is active.
#[verifier::opaque]
pub open spec fn admission_changes(before: Seq<RecordView>, after: Seq<RecordView>, active: Seq<OperationId>) -> bool {
    &&& forall|k: int|
        0 <= k < before.len() && before[k].state == OperationState::Queued && (#[trigger] after[k]).state
            == OperationState::Failed ==> deps_blocked(after, after[k].dependencies)
    &&& forall|k: int|
        0 <= k < before.len() && before[k].state == OperationState::Queued && (#[trigger] after[k]).state
            == OperationState::Running ==> exists|a: int| 0 <= a < active.len() && (#[trigger] active[a]).spec_get() == before[k].id
}

/// Dependency-aware concurrency admission state.
#[derive(Debug)]
pub struct OperationScheduler {
    limits: SchedulerLimits,
    active: Vec<OperationId>,
}

impl OperationScheduler {
    /// Configured limits.
    pub closed spec fn spec_limits(&self) -> SchedulerLimits {
        self.limits
    }

    /// Admitted operations in admission order.
    pub closed spec fn spec_active(&self) -> Seq<OperationId> {
        self.active@
    }

    /// Invariant: no operation is admitted twice.
    pub closed spec fn wf(&self) -> bool {
        self.active@.no_duplicates()
    }

    /// Number of admitted operations.
    pub closed spec fn spec_active_count(&self) -> nat {
        self.active@.len()
    }

    /// Creates an empty scheduler.
    pub fn new(limits: SchedulerLimits) -> (r: OperationScheduler)
        ensures
            r.wf(),
            r.spec_limits() == limits,
            r.spec_active_count() == 0,
            r.spec_active() == Seq::<OperationId>::empty(),
    {
        OperationScheduler { limits, active: Vec::new() }
    }

    /// Creates an empty scheduler with the default limits.
    pub fn with_default_limits() -> (r: OperationScheduler)
        ensures
            r.wf(),
            r.spec_limits().spec_max_parallel() == DEFAULT_MAX_PARALLEL,
            r.spec_active_count() == 0,
    {
        OperationScheduler::new(SchedulerLimits::default_limits())
    }

    /// Returns the configured limits.
    pub fn limits(&self) -> (r: SchedulerLimits)
        ensures
            r == self.spec_limits(),
    {
        self.limits
    }

    /// Returns the number of active operations.
    pub fn active_count(&self) -> (r: usize)
        ensures
            r == self.spec_active_count(),
    {
        self.active.len()
    }

    /// Returns whether the operation is currently admitted.
    pub fn is_active(&self, id: OperationId) -> (r: bool)
        ensures
            r == self.spec_active().contains(id),
    {
        let mut i: usize = 0;
        while i < self.active.len()
            invariant
                i <= self.active@.len(),
                forall|j: int| 0 <= j < i ==> self.active@[j] != id,
            decreases self.active@.len() - i,
        {
            if self.active[i].get() == id.get() {
                proof {
                    crate::operations::lemma_operation_id_injective(self.active@[i as int], id);
                    assert(self.active@.contains(id));
                }
                return true;
            }
            i = i + 1;
        }
        false
    }

    /// Free admission slots: the ceiling less the active operations.
    pub open spec fn spec_free_slots(&self) -> int {
        if self.spec_active_count() <= self.spec_limits().spec_max_parallel() {
            self.spec_limits().spec_max_parallel() - self.spec_active_count()
        } else {
            0
        }
    }

    /// Admits as many dependency-ready queued operations as capacity allows;
    /// the returned operations have already been started in the queue.
    ///
    /// Each admitted operation was queued with every dependency completed and
    /// is now running; fewer admissions than free slots means nothing else
    /// can start (when every active operation had already left the queued
    /// state).
    pub fn admit_ready(&mut self, queue: &mut OperationQueue) -> (r: Result<Vec<OperationId>, SchedulerError>)
        requires
            old(self).wf(),
            old(queue).wf(),
        ensures
            final(self).wf(),
            final(queue).wf(),
            r is Ok,
            final(self).spec_limits() == old(self).spec_limits(),
            final(self).spec_active_count() <= old(self).spec_active_count() + old(self).spec_free_slots(),
            exists|added: Seq<OperationId>| final(self).spec_active() == old(self).spec_active() + added,
            r matches Ok(admitted) ==> final(self).spec_active() == old(self).spec_active() + admitted@,
            r matches Ok(admitted) ==> admitted@.no_duplicates(),
            r matches Ok(admitted) ==> admitted@.len() <= old(self).spec_free_slots(),
            r matches Ok(admitted) ==> forall|j: int|
                0 <= j < admitted@.len() ==> started_ready(
                    old(queue).spec_records(),
                    final(queue).spec_records(),
                    #[trigger] admitted@[j],
                ),
            queue_progressed(old(queue).spec_records(), final(queue).spec_records()),
            admission_changes(old(queue).spec_records(), final(queue).spec_records(), final(self).spec_active()),
            r matches Ok(admitted) ==> (admitted@.len() < old(self).spec_free_slots() && active_started(
                old(self).spec_active(),
                old(queue).spec_records(),
            ) ==> nothing_runnable(final(queue).spec_records())),
    {
        let max = self.limits.max_parallel as usize;
        let capacity: usize = if self.active.len() <= max {
            max - self.active.len()
        } else {
            0
        };
        let mut admitted: Vec<OperationId> = Vec::new();
        let mut k: usize = 0;
        let mut done = false;
        let ghost old_active = self.active@;
        let ghost old_recs = queue.spec_records();
        let ghost h = active_started(old_active, old_recs);
        let ghost mut exhausted = false;
        proof {
            queue.lemma_wf_records();
            reveal(queue_progressed);
            reveal(admission_changes);
            assert(queue_progressed(old_recs, old_recs));
            assert(admission_changes(old_recs, old_recs, old_active));
        }
        while k < capacity && !done
            invariant
                self.wf(),
                queue.wf(),
                self.limits == old(self).limits,
                k <= capacity,
                capacity == old(self).spec_free_slots(),
                admitted@.len() == k,
                self.active@ == old_active + admitted@,
                old_active == old(self).active@,
                old_recs == old(queue).spec_records(),
                records_wf(old_recs),
                h == active_started(old_active, old_recs),
                queue_progressed(old_recs, queue.spec_records()),
                admission_changes(old_recs, queue.spec_records(), self.active@),
                forall|j: int|
                    0 <= j < admitted@.len() ==> started_ready(old_recs, queue.spec_records(), #[trigger] admitted@[j]),
                exhausted ==> nothing_runnable(queue.spec_records()),
                done ==> exhausted || !h,
                exhausted ==> done,
            decreases capacity - k + (if done { 0int } else { 1int }),
        {
            let ghost before_recs = queue.spec_records();
            let ghost before_events = queue.spec_events();
            proof {
                queue.lemma_wf_records();
            }
            match queue.next_runnable() {
                None => {
                    proof {
                        lemma_after_scan(old_recs, before_recs, before_events, admitted@);
                        lemma_changes_after_scan(old_recs, before_recs, before_events, self.active@);
                        exhausted = true;
                    }
                    done = true;
                },
                Some(id) => {
                    let ghost r1 = queue.spec_records();
                    proof {
                        lemma_after_scan(old_recs, before_recs, before_events, admitted@);
                        lemma_changes_after_scan(old_recs, before_recs, before_events, self.active@);
                        queue.lemma_wf_records();
                    }
                    let ghost pos = lemma_found(old_recs, before_recs, before_events, id);
                    match queue.start(id) {
                        Ok(()) => {
                            proof {
                                lemma_after_start(old_recs, r1, queue.spec_records(), pos, id, admitted@);
                            }
                            if !self.is_active(id) {
                                let ghost prev = self.active@;
                                let ghost prev_admitted = admitted@;
                                self.active.push(id);
                                admitted.push(id);
                                proof {
                                    lemma_push_admitted(old_active, prev, prev_admitted, id, old_recs, queue.spec_records());
                                    assert(self.active@ == old_active + admitted@);
                                    assert(self.active@[prev.len() as int] == id);
                                    lemma_changes_after_start(old_recs, r1, queue.spec_records(), pos, id, prev, self.active@);
                                }
                                k = k + 1;
                            } else {
                                proof {
                                    lemma_changes_after_start(old_recs, r1, queue.spec_records(), pos, id, self.active@, self.active@);
                                    if h {
                                        lemma_found_not_active(old_active, admitted@, old_recs, r1, pos, id);
                                    }
                                }
                                done = true;
                            }
                        },
                        Err(e) => {
                            proof {
                                assert(false);
                            }
                            done = true;
                        },
                    }
                },
            }
        }
        proof {
            assert forall|a: int, b: int| 0 <= a < b < admitted@.len() implies admitted@[a] != admitted@[b] by {
                assert(self.active@[old_active.len() + a] == admitted@[a]);
                assert(self.active@[old_active.len() + b] == admitted@[b]);
            }
            assert(self.spec_active() == old(self).spec_active() + admitted@);
        }
        Ok(admitted)
    }

    fn remove_active(&mut self, id: OperationId)
        requires
            old(self).wf(),
        ensures
            final(self).wf(),
            final(self).spec_limits() == old(self).spec_limits(),
            forall|x: OperationId| #[trigger] final(self).spec_active().contains(x) <==> (old(self).spec_active().contains(x) && x != id),
    {
        let ghost before = self.active@;
        let mut kept: Vec<OperationId> = Vec::new();
        let mut i: usize = 0;
        while i < self.active.len()
            invariant
                self.active@ == before,
                before.no_duplicates(),
                i <= before.len(),
                forall|a: int, b: int| 0 <= a < b < kept@.len() ==> kept@[a] != kept@[b],
                forall|x: OperationId| #[trigger] kept@.contains(x) <==> (before.subrange(0, i as int).contains(x) && x != id),
            decreases before.len() - i,
        {
            let x = self.active[i];
            let ghost prev = kept@;
            if x.get() != id.get() {
                kept.push(x);
                proof {
                    assert forall|a: int, b: int| 0 <= a < b < kept@.len() implies kept@[a] != kept@[b] by {
                        if b == prev.len() {
                            assert(prev[a] == kept@[a]);
                            assert(prev.contains(prev[a]));
                            let pre0 = before.subrange(0, i as int);
                            assert(pre0.contains(prev[a]));
                            let c = choose|c: int| 0 <= c < i && pre0[c] == prev[a];
                            assert(before[c] == prev[a]);
                        }
                    }
                }
            }
            proof {
                let pre = before.subrange(0, i as int);
                let post = before.subrange(0, i + 1);
                assert(post =~= pre.push(x));
                assert forall|y: OperationId| #[trigger] kept@.contains(y) <==> (post.contains(y) && y != id) by {
                    if kept@.contains(y) {
                        if y == x {
                            assert(post[i as int] == y);
                        } else {
                            if x.spec_get() != id.spec_get() {
                                let c = choose|c: int| 0 <= c < kept@.len() && kept@[c] == y;
                                if c < prev.len() {
                                    assert(prev[c] == y);
                                    assert(prev.contains(y));
                                }
                            }
                            assert(pre.contains(y));
                            let c = choose|c: int| 0 <= c < i && pre[c] == y;
                            assert(post[c] == y);
                        }
                    }
                    if post.contains(y) && y != id {
                        let c = choose|c: int| 0 <= c <= i && post[c] == y;
                        if c < i {
                            assert(pre[c] == y);
                            assert(prev.contains(y));
                            let d = choose|d: int| 0 <= d < prev.len() && prev[d] == y;
                            assert(kept@[d] == y);
                        } else {
                            assert(y == x);
                            if x.spec_get() == id.spec_get() {
                                crate::operations::lemma_operation_id_injective(x, id);
                            }
                            assert(kept@[prev.len() as int] == y);
                        }
                    }
                }
            }
            i = i + 1;
        }
        proof {
            assert(before.subrange(0, before.len() as int) =~= before);
        }
        self.active = kept;
    }

    fn require_active(&self, id: OperationId) -> (r: Result<(), SchedulerError>)
        ensures
            r is Ok <==> self.spec_active().contains(id),
            r matches Err(e) ==> e == SchedulerError::NotActive(id),
    {
        if self.is_active(id) {
            Ok(())
        } else {
            Err(SchedulerError::NotActive(id))
        }
    }

    /// Marks an active operation complete and releases its slot.
    pub fn complete(&mut self, queue: &mut OperationQueue, id: OperationId) -> (r: Result<(), SchedulerError>)
        requires
            old(self).wf(),
            old(queue).wf(),
        ensures
            final(self).wf(),
            final(queue).wf(),
            final(self).spec_limits() == old(self).spec_limits(),
            !old(self).spec_active().contains(id) ==> r == Err::<(), SchedulerError>(SchedulerError::NotActive(id))
                && *final(queue) == *old(queue) && final(self).spec_active() == old(self).spec_active(),
            old(self).spec_active().contains(id) ==> (
                OperationQueue::transition_outcome(*old(queue), *final(queue), id, crate::operations::OperationState::Completed, queue_result(r))),
            r is Ok ==> forall|x: OperationId| #[trigger] final(self).spec_active().contains(x) <==> (
                old(self).spec_active().contains(x) && x != id),
            r is Err ==> final(self).spec_active() == old(self).spec_active(),
    {
        match self.require_active(id) {
            Ok(()) => {},
            Err(e) => return Err(e),
        }
        match queue.complete(id) {
            Ok(()) => {},
            Err(e) => return Err(SchedulerError::Operation(e)),
        }
        self.remove_active(id);
        Ok(())
    }

    /// Marks an active operation failed and releases its slot.
    pub fn fail(&mut self, queue: &mut OperationQueue, id: OperationId, message: &str) -> (r: Result<(), SchedulerError>)
        requires
            old(self).wf(),
            old(queue).wf(),
        ensures
            final(self).wf(),
            final(queue).wf(),
            final(self).spec_limits() == old(self).spec_limits(),
            !old(self).spec_active().contains(id) ==> r == Err::<(), SchedulerError>(SchedulerError::NotActive(id))
                && *final(queue) == *old(queue) && final(self).spec_active() == old(self).spec_active(),
            r is Ok ==> forall|x: OperationId| #[trigger] final(self).spec_active().contains(x) <==> (
                old(self).spec_active().contains(x) && x != id),
            r is Err ==> final(self).spec_active() == old(self).spec_active(),
    {
        match self.require_active(id) {
            Ok(()) => {},
            Err(e) => return Err(e),
        }
        match queue.fail(id, message) {
            Ok(()) => {},
            Err(e) => return Err(SchedulerError::Operation(e)),
        }
        self.remove_active(id);
        Ok(())
    }

    /// Cancels an active operation and releases its slot.
    pub fn cancel(&mut self, queue: &mut OperationQueue, id: OperationId) -> (r: Result<(), SchedulerError>)
        requires
            old(self).wf(),
            old(queue).wf(),
        ensures
            final(self).wf(),
            final(queue).wf(),
            final(self).spec_limits() == old(self).spec_limits(),
            !old(self).spec_active().contains(id) ==> r == Err::<(), SchedulerError>(SchedulerError::NotActive(id))
                && *final(queue) == *old(queue) && final(self).spec_active() == old(self).spec_active(),
            old(self).spec_active().contains(id) ==> (
                OperationQueue::transition_outcome(*old(queue), *final(queue), id, crate::operations::OperationState::Cancelled, queue_result(r))),
            r is Ok ==> forall|x: OperationId| #[trigger] final(self).spec_active().contains(x) <==> (
                old(self).spec_active().contains(x) && x != id),
            r is Err ==> final(self).spec_active() == old(self).spec_active(),
    {
        match self.require_active(id) {
            Ok(()) => {},
            Err(e) => return Err(e),
        }
        match queue.cancel(id) {
            Ok(()) => {},
            Err(e) => return Err(SchedulerError::Operation(e)),
        }
        self.remove_active(id);
        Ok(())
    }
}

/// The queue-level result behind a scheduler result.
pub open spec fn queue_result(r: Result<(), SchedulerError>) -> Result<(), OperationError> {
    match r {
        Ok(()) => Ok(()),
        Err(SchedulerError::Operation(e)) => Err(e),
        Err(_) => Err(OperationError::InvalidId),
    }
}


impl Default for SchedulerLimits {
    fn default() -> (r: Self)
        ensures
            r.spec_max_parallel() == DEFAULT_MAX_PARALLEL,
    {
        SchedulerLimits::default_limits()
    }
}

impl Default for OperationScheduler {
    fn default() -> (r: Self)
        ensures
            r.wf(),
            r.spec_limits().spec_max_parallel() == DEFAULT_MAX_PARALLEL,
            r.spec_active_count() == 0,
    {
        OperationScheduler::with_default_limits()
    }
}


/// After a scan, the queue has only progressed and every admitted operation
/// is still running.
proof fn lemma_after_scan(
    old_recs: Seq<RecordView>,
    before: Seq<RecordView>,
    events: Seq<OperationEvent>,
    admitted: Seq<OperationId>,
)
    requires
        records_wf(before),
        queue_progressed(old_recs, before),
        forall|j: int| 0 <= j < admitted.len() ==> started_ready(old_recs, before, #[trigger] admitted[j]),
    ensures
        queue_progressed(old_recs, scan(before, events, 0).0),
        forall|j: int|
            0 <= j < admitted.len() ==> started_ready(old_recs, scan(before, events, 0).0, #[trigger] admitted[j]),
        scan(before, events, 0).2 is None ==> nothing_runnable(scan(before, events, 0).0),
{
    reveal(queue_progressed);
    reveal(nothing_runnable);
    reveal(started_ready);
    reveal(active_started);
    let after = scan(before, events, 0).0;
    lemma_scan_shape(before, events, 0);
    lemma_progressed_trans(old_recs, before, after);
    assert forall|j: int| 0 <= j < admitted.len() implies started_ready(old_recs, after, #[trigger] admitted[j]) by {
        lemma_started_kept(old_recs, before, after, admitted[j]);
    }
}

/// The operation a scan found sits at one position: queued there with every
/// dependency completed, and (the queue having only progressed) queued with
/// every dependency completed from the start.
proof fn lemma_found(
    old_recs: Seq<RecordView>,
    before: Seq<RecordView>,
    events: Seq<OperationEvent>,
    id: OperationId,
) -> (pos: int)
    requires
        records_wf(old_recs),
        records_wf(before),
        queue_progressed(old_recs, before),
        scan(before, events, 0).2 == Some(id.spec_get()),
    ensures
        0 <= pos < old_recs.len(),
        scan(before, events, 0).0[pos].id == id.spec_get(),
        scan(before, events, 0).0[pos].state == OperationState::Queued,
        index_of(scan(before, events, 0).0, id.spec_get()) == pos,
        has_id(scan(before, events, 0).0, id.spec_get()),
        old_recs[pos].id == id.spec_get(),
        old_recs[pos].state == OperationState::Queued,
        deps_ready(old_recs, old_recs[pos].dependencies),
{
    reveal(queue_progressed);
    reveal(nothing_runnable);
    reveal(started_ready);
    reveal(active_started);
    let r1 = scan(before, events, 0).0;
    lemma_scan_shape(before, events, 0);
    lemma_progressed_trans(old_recs, before, r1);
    let pos = choose|p: int|
        0 <= p < before.len() && (#[trigger] r1[p]).id == id.spec_get() && r1[p].state == OperationState::Queued
            && deps_ready(r1, r1[p].dependencies);
    lemma_progressed_ready(before, r1, before[pos].dependencies);
    lemma_index_unique(r1, pos);
    assert(old_recs[pos].id == id.spec_get());
    assert forall|m: int| 0 <= m < old_recs[pos].dependencies.len() implies has_id(
        old_recs,
        #[trigger] old_recs[pos].dependencies[m],
    ) by {}
    lemma_progressed_ready(old_recs, r1, old_recs[pos].dependencies);
    pos
}

/// Starting the found operation keeps the queue progressed and adds it to the
/// started ones.
proof fn lemma_after_start(
    old_recs: Seq<RecordView>,
    r1: Seq<RecordView>,
    r2: Seq<RecordView>,
    pos: int,
    id: OperationId,
    admitted: Seq<OperationId>,
)
    requires
        0 <= pos < r1.len(),
        queue_progressed(old_recs, r1),
        r1[pos].state == OperationState::Queued,
        r2 == r1.update(pos, RecordView { state: OperationState::Running, ..r1[pos] }),
        old_recs[pos].id == id.spec_get(),
        old_recs[pos].state == OperationState::Queued,
        deps_ready(old_recs, old_recs[pos].dependencies),
        forall|j: int| 0 <= j < admitted.len() ==> started_ready(old_recs, r1, #[trigger] admitted[j]),
    ensures
        queue_progressed(old_recs, r2),
        started_ready(old_recs, r2, id),
        forall|j: int| 0 <= j < admitted.len() ==> started_ready(old_recs, r2, #[trigger] admitted[j]),
{
    reveal(queue_progressed);
    reveal(nothing_runnable);
    reveal(started_ready);
    reveal(active_started);
    assert(queue_progressed(r1, r2));
    lemma_progressed_trans(old_recs, r1, r2);
    assert forall|j: int| 0 <= j < admitted.len() implies started_ready(old_recs, r2, #[trigger] admitted[j]) by {
        lemma_started_kept(old_recs, r1, r2, admitted[j]);
    }
    assert(r2[pos].state == OperationState::Running);
    assert(old_recs[pos].id == id.spec_get());
}

/// Adding a newly started operation keeps admissions distinct and started.
proof fn lemma_push_admitted(
    old_active: Seq<OperationId>,
    prev: Seq<OperationId>,
    prev_admitted: Seq<OperationId>,
    id: OperationId,
    old_recs: Seq<RecordView>,
    now: Seq<RecordView>,
)
    requires
        prev == old_active + prev_admitted,
        prev.no_duplicates(),
        !prev.contains(id),
        started_ready(old_recs, now, id),
        forall|j: int| 0 <= j < prev_admitted.len() ==> started_ready(old_recs, now, #[trigger] prev_admitted[j]),
    ensures
        prev.push(id).no_duplicates(),
        prev.push(id) == old_active + prev_admitted.push(id),
        forall|j: int|
            0 <= j < prev_admitted.push(id).len() ==> started_ready(old_recs, now, #[trigger] prev_admitted.push(id)[j]),
{
    reveal(queue_progressed);
    reveal(nothing_runnable);
    reveal(started_ready);
    reveal(active_started);
    let p = prev.push(id);
    assert(p =~= old_active + prev_admitted.push(id));
    assert forall|a: int, b: int| 0 <= a < b < p.len() implies p[a] != p[b] by {
        if b == prev.len() {
            assert(prev[a] == p[a]);
        }
    }
    assert forall|j: int| 0 <= j < prev_admitted.push(id).len() implies started_ready(
        old_recs,
        now,
        #[trigger] prev_admitted.push(id)[j],
    ) by {
        if j < prev_admitted.len() {
            assert(prev_admitted.push(id)[j] == prev_admitted[j]);
        }
    }
}

/// When every active operation had left the queued state, the operation a
/// scan found (queued) is neither active from before nor admitted already.
proof fn lemma_found_not_active(
    old_active: Seq<OperationId>,
    admitted: Seq<OperationId>,
    old_recs: Seq<RecordView>,
    r1: Seq<RecordView>,
    pos: int,
    id: OperationId,
)
    requires
        active_started(old_active, old_recs),
        records_wf(r1),
        queue_progressed(old_recs, r1),
        0 <= pos < r1.len(),
        r1[pos].id == id.spec_get(),
        r1[pos].state == OperationState::Queued,
        old_recs[pos].id == id.spec_get(),
        forall|j: int| 0 <= j < admitted.len() ==> started_ready(old_recs, r1, #[trigger] admitted[j]),
    ensures
        !(old_active + admitted).contains(id),
{
    reveal(queue_progressed);
    reveal(nothing_runnable);
    reveal(started_ready);
    reveal(active_started);
    let all = old_active + admitted;
    if all.contains(id) {
        let a = choose|a: int| 0 <= a < all.len() && all[a] == id;
        if a < old_active.len() {
            assert(old_active[a] == id);
            assert(old_recs[pos].id == old_active[a].spec_get());
        } else {
            let j = a - old_active.len();
            assert(admitted[j] == id);
            assert(started_ready(old_recs, r1, admitted[j]));
            let q = choose|q: int|
                0 <= q < old_recs.len() && q < r1.len() && (#[trigger] old_recs[q]).id == admitted[j].spec_get()
                    && old_recs[q].state == OperationState::Queued && deps_ready(old_recs, old_recs[q].dependencies)
                    && r1[q].state == OperationState::Running;
            assert(r1[q].id == id.spec_get());
            lemma_index_unique(r1, q);
            lemma_index_unique(r1, pos);
        }
    }
}

/// A scan keeps what admission may change.
proof fn lemma_changes_after_scan(
    old_recs: Seq<RecordView>,
    before: Seq<RecordView>,
    events: Seq<OperationEvent>,
    active: Seq<OperationId>,
)
    requires
        records_wf(before),
        queue_progressed(old_recs, before),
        admission_changes(old_recs, before, active),
    ensures
        admission_changes(old_recs, scan(before, events, 0).0, active),
{
    reveal(queue_progressed);
    reveal(admission_changes);
    let after = scan(before, events, 0).0;
    lemma_scan_shape(before, events, 0);
    reveal(queue_progressed);
    assert forall|k: int|
        0 <= k < old_recs.len() && old_recs[k].state == OperationState::Queued && (#[trigger] after[k]).state
            == OperationState::Failed implies deps_blocked(after, after[k].dependencies) by {
        if before[k].state == OperationState::Failed {
            assert forall|m: int| 0 <= m < before[k].dependencies.len() implies has_id(before, #[trigger] before[k].dependencies[m]) by {}
            lemma_progressed_blocked(before, after, before[k].dependencies);
        }
    }
    assert forall|k: int|
        0 <= k < old_recs.len() && old_recs[k].state == OperationState::Queued && (#[trigger] after[k]).state
            == OperationState::Running implies exists|a: int| 0 <= a < active.len() && (#[trigger] active[a]).spec_get() == old_recs[k].id by {
        assert(before[k].state == OperationState::Running);
    }
}

/// Starting the found operation, now active, keeps what admission may change.
proof fn lemma_changes_after_start(
    old_recs: Seq<RecordView>,
    r1: Seq<RecordView>,
    r2: Seq<RecordView>,
    pos: int,
    id: OperationId,
    active: Seq<OperationId>,
    now_active: Seq<OperationId>,
)
    requires
        records_wf(r1),
        0 <= pos < r1.len(),
        queue_progressed(old_recs, r1),
        admission_changes(old_recs, r1, active),
        r1[pos].state == OperationState::Queued,
        r2 == r1.update(pos, RecordView { state: OperationState::Running, ..r1[pos] }),
        old_recs[pos].id == id.spec_get(),
        active.len() <= now_active.len(),
        forall|a: int| 0 <= a < active.len() ==> now_active[a] == active[a],
        now_active.contains(id),
    ensures
        admission_changes(old_recs, r2, now_active),
{
    reveal(queue_progressed);
    reveal(admission_changes);
    assert(queue_progressed(r1, r2));
    assert forall|k: int|
        0 <= k < old_recs.len() && old_recs[k].state == OperationState::Queued && (#[trigger] r2[k]).state
            == OperationState::Failed implies deps_blocked(r2, r2[k].dependencies) by {
        assert(r1[k].state == OperationState::Failed);
        assert forall|m: int| 0 <= m < r1[k].dependencies.len() implies has_id(r1, #[trigger] r1[k].dependencies[m]) by {}
        lemma_progressed_blocked(r1, r2, r1[k].dependencies);
    }
    assert forall|k: int|
        0 <= k < old_recs.len() && old_recs[k].state == OperationState::Queued && (#[trigger] r2[k]).state
            == OperationState::Running implies exists|a: int| 0 <= a < now_active.len() && (#[trigger] now_active[a]).spec_get() == old_recs[k].id by {
        if k == pos {
            let w = choose|w: int| 0 <= w < now_active.len() && now_active[w] == id;
            assert(now_active[w].spec_get() == old_recs[k].id);
        } else {
            assert(r1[k].state == OperationState::Running);
            let a = choose|a: int| 0 <= a < active.len() && (#[trigger] active[a]).spec_get() == old_recs[k].id;
            assert(now_active[a] == active[a]);
        }
    }
}

} // verus!
