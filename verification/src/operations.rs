//! Generalized operation queue with dependency-aware readiness.

use vstd::prelude::*;
use crate::text::owned;

verus! {

/// Stable operation identifier; zero is reserved.
#[derive(Clone, Copy, Debug, PartialEq, Eq, Hash, PartialOrd, Ord, Structural)]
pub struct OperationId(u64);

impl OperationId {
    /// The numeric identifier.
    pub closed spec fn spec_get(self) -> u64 {
        self.0
    }

    /// The identifier with a given number.
    pub closed spec fn spec_from(value: u64) -> OperationId {
        OperationId(value)
    }

    /// Numbers round-trip through identifiers.
    pub proof fn lemma_spec_from(value: u64)
        ensures
            OperationId::spec_from(value).spec_get() == value,
    {
    }

    /// Creates a non-zero operation identifier.
    pub fn new(value: u64) -> (r: Result<OperationId, OperationError>)
        ensures
            value == 0 <==> r is Err,
            r matches Err(e) ==> e == OperationError::InvalidId,
            r matches Ok(id) ==> id.spec_get() == value,
    {
        if value == 0 {
            Err(OperationError::InvalidId)
        } else {
            Ok(OperationId(value))
        }
    }

    /// Returns the numeric identifier.
    pub fn get(self) -> (r: u64)
        ensures
            r == self.spec_get(),
    {
        self.0
    }
}

/// Identifiers are determined by their numbers.
pub proof fn lemma_operation_id_injective(a: OperationId, b: OperationId)
    requires
        a.spec_get() == b.spec_get(),
    ensures
        a == b,
{
}

/// Broad operation category.
#[derive(Clone, Copy, Debug, PartialEq, Eq, Structural)]
pub enum OperationKind {
    /// Copy or transfer data.
    Copy,
    /// Delete an entry.
    Delete,
    /// Rename or move an entry.
    Rename,
    /// Create a directory.
    CreateDirectory,
    /// Execute a synchronization plan.
    Sync,
    /// Manage a remote-edit download/watch/upload lifecycle.
    RemoteEdit,
}

/// Observable operation state.
#[derive(Clone, Copy, Debug, PartialEq, Eq, Structural)]
pub enum OperationState {
    /// Accepted but waiting for dependencies or scheduler capacity.
    Queued,
    /// Actively executing.
    Running,
    /// Explicitly paused.
    Paused,
    /// Finished successfully.
    Completed,
    /// Terminal failure.
    Failed,
    /// Terminal user cancellation.
    Cancelled,
}

/// Terminal operation states.
pub open spec fn op_terminal(s: OperationState) -> bool {
    s == OperationState::Completed || s == OperationState::Failed || s == OperationState::Cancelled
}

impl OperationState {
    /// Returns whether this is terminal.
    pub fn is_terminal(self) -> (r: bool)
        ensures
            r == op_terminal(self),
    {
        match self {
            OperationState::Completed | OperationState::Failed | OperationState::Cancelled => true,
            _ => false,
        }
    }
}

/// Operation lifecycle graph.
pub open spec fn op_transition_allowed(from: OperationState, to: OperationState) -> bool {
    match from {
        OperationState::Queued => to == OperationState::Running || to == OperationState::Failed || to
            == OperationState::Cancelled,
        OperationState::Running => to == OperationState::Paused || to == OperationState::Completed
            || to == OperationState::Failed || to == OperationState::Cancelled,
        OperationState::Paused => to == OperationState::Running || to == OperationState::Failed || to
            == OperationState::Cancelled,
        _ => false,
    }
}

/// Validates an operation lifecycle transition.
pub fn can_transition(from: OperationState, to: OperationState) -> (r: bool)
    ensures
        r == op_transition_allowed(from, to),
{
    match from {
        OperationState::Queued => match to {
            OperationState::Running | OperationState::Failed | OperationState::Cancelled => true,
            _ => false,
        },
        OperationState::Running => match to {
            OperationState::Paused | OperationState::Completed | OperationState::Failed
            | OperationState::Cancelled => true,
            _ => false,
        },
        OperationState::Paused => match to {
            OperationState::Running | OperationState::Failed | OperationState::Cancelled => true,
            _ => false,
        },
        _ => false,
    }
}

/// Terminal operations never change state again.
pub proof fn lemma_terminal_operations_are_final(from: OperationState, to: OperationState)
    requires
        op_terminal(from),
    ensures
        !op_transition_allowed(from, to),
{
}

/// Operation progress.
#[derive(Clone, Copy, Debug, PartialEq, Eq, Structural)]
pub struct OperationProgress {
    /// Completed logical units.
    pub completed_units: u64,
    /// Total logical units.
    pub total_units: Option<u64>,
    /// Completed bytes.
    pub completed_bytes: u64,
    /// Total bytes.
    pub total_bytes: Option<u64>,
}

impl OperationProgress {
    /// Progress with nothing done and nothing known.
    pub fn none() -> (r: OperationProgress)
        ensures
            r == (OperationProgress {
                completed_units: 0,
                total_units: None,
                completed_bytes: 0,
                total_bytes: None,
            }),
    {
        OperationProgress { completed_units: 0, total_units: None, completed_bytes: 0, total_bytes: None }
    }
}

/// One queue record.
#[derive(Debug, PartialEq, Eq)]
pub struct OperationRecord {
    /// ID.
    pub id: OperationId,
    /// Kind.
    pub kind: OperationKind,
    /// Activity label.
    pub label: String,
    /// State.
    pub state: OperationState,
    /// Dependencies, in increasing identifier order without repeats.
    pub dependencies: Vec<OperationId>,
    /// Progress.
    pub progress: OperationProgress,
    /// Failure message.
    pub error: Option<String>,
}

/// Mathematical content of a record.
pub struct RecordView {
    /// Identifier number.
    pub id: u64,
    /// Kind.
    pub kind: OperationKind,
    /// Label text.
    pub label: Seq<char>,
    /// State.
    pub state: OperationState,
    /// Dependency identifier numbers.
    pub dependencies: Seq<u64>,
    /// Progress.
    pub progress: OperationProgress,
    /// Failure text.
    pub error: Option<Seq<char>>,
}

/// Numbers of a sequence of identifiers.
pub open spec fn id_numbers(s: Seq<OperationId>) -> Seq<u64> {
    s.map_values(|i: OperationId| i.spec_get())
}

impl View for OperationRecord {
    type V = RecordView;

    open spec fn view(&self) -> RecordView {
        RecordView {
            id: self.id.spec_get(),
            kind: self.kind,
            label: self.label@,
            state: self.state,
            dependencies: id_numbers(self.dependencies@),
            progress: self.progress,
            error: match self.error {
                Some(e) => Some(e@),
                None => None,
            },
        }
    }
}

/// Queue event.
#[derive(Clone, Copy, Debug, PartialEq, Eq, Structural)]
pub enum OperationEvent {
    /// A new operation entered the queue.
    Enqueued(OperationId),
    /// An operation transitioned lifecycle state.
    StateChanged {
        /// Operation that changed.
        id: OperationId,
        /// New lifecycle state.
        state: OperationState,
    },
    /// Operation progress changed.
    Progress {
        /// Operation whose progress changed.
        id: OperationId,
        /// New progress snapshot.
        progress: OperationProgress,
    },
}

/// Queue error.
#[derive(Clone, Copy, Debug, PartialEq, Eq, Structural)]
pub enum OperationError {
    /// Identifier zero is reserved.
    InvalidId,
    /// Requested operation does not exist.
    NotFound(OperationId),
    /// Dependency refers to an unknown operation.
    UnknownDependency(OperationId),
    /// Requested lifecycle transition is illegal.
    InvalidTransition {
        /// Current lifecycle state.
        from: OperationState,
        /// Requested lifecycle state.
        to: OperationState,
    },
}

/// Strictly increasing numbers.
pub open spec fn strictly_increasing(s: Seq<u64>) -> bool {
    forall|i: int, j: int| 0 <= i < j < s.len() ==> s[i] < s[j]
}

/// Identifier numbers of records in order.
pub open spec fn ids_of(recs: Seq<RecordView>) -> Seq<u64> {
    recs.map_values(|r: RecordView| r.id)
}

/// Index of the record with a given identifier number.
pub open spec fn index_of(recs: Seq<RecordView>, id: u64) -> int {
    choose|i: int| 0 <= i < recs.len() && recs[i].id == id
}

/// Whether a record with this identifier number exists.
pub open spec fn has_id(recs: Seq<RecordView>, id: u64) -> bool {
    exists|i: int| 0 <= i < recs.len() && recs[i].id == id
}

/// State of the record with this identifier number.
pub open spec fn state_of(recs: Seq<RecordView>, id: u64) -> OperationState {
    recs[index_of(recs, id)].state
}

/// Some dependency failed or was cancelled.
pub open spec fn deps_blocked(recs: Seq<RecordView>, deps: Seq<u64>) -> bool {
    exists|k: int|
        0 <= k < deps.len() && (state_of(recs, deps[k]) == OperationState::Failed || state_of(
            recs,
            deps[k],
        ) == OperationState::Cancelled)
}

/// Every dependency completed.
pub open spec fn deps_ready(recs: Seq<RecordView>, deps: Seq<u64>) -> bool {
    forall|k: int| 0 <= k < deps.len() ==> state_of(recs, deps[k]) == OperationState::Completed
}

/// Well-formed record sequence: increasing ids, and every dependency is an
/// earlier record.
pub open spec fn records_wf(recs: Seq<RecordView>) -> bool {
    &&& strictly_increasing(ids_of(recs))
    &&& forall|i: int, k: int|
        #![trigger recs[i].dependencies[k]]
        0 <= i < recs.len() && 0 <= k < recs[i].dependencies.len() ==> has_id(
            recs,
            recs[i].dependencies[k],
        )
}

/// A record marked failed because a dependency did not complete.
pub open spec fn blocked_version(r: RecordView) -> RecordView {
    RecordView {
        state: OperationState::Failed,
        error: Some("dependency did not complete successfully"@),
        ..r
    }
}

/// One scan for the next runnable operation, from position `i`: queued
/// records with a failed or cancelled dependency become failed (with an
/// event), and the first queued record whose dependencies all completed is
/// the answer.
pub open spec fn scan(recs: Seq<RecordView>, events: Seq<OperationEvent>, i: int) -> (Seq<
    RecordView,
>, Seq<OperationEvent>, Option<u64>)
    decreases recs.len() - i,
{
    if i < 0 || i >= recs.len() {
        (recs, events, None)
    } else {
        let r = recs[i];
        if r.state != OperationState::Queued {
            scan(recs, events, i + 1)
        } else if deps_blocked(recs, r.dependencies) {
            scan(
                recs.update(i, blocked_version(r)),
                events.push(
                    OperationEvent::StateChanged {
                        id: OperationId::spec_from(r.id),
                        state: OperationState::Failed,
                    },
                ),
                i + 1,
            )
        } else if deps_ready(recs, r.dependencies) {
            (recs, events, Some(r.id))
        } else {
            scan(recs, events, i + 1)
        }
    }
}

/// Deterministic dependency-aware queue.
#[derive(Debug)]
pub struct OperationQueue {
    next_id: u64,
    records: Vec<OperationRecord>,
    events: Vec<OperationEvent>,
}

impl OperationQueue {
    /// Records in identifier order.
    pub closed spec fn spec_records(&self) -> Seq<RecordView> {
        self.records@.map_values(|r: OperationRecord| r@)
    }

    /// Accumulated events.
    pub closed spec fn spec_events(&self) -> Seq<OperationEvent> {
        self.events@
    }

    /// Identifier number the next operation receives.
    pub closed spec fn spec_next_id(&self) -> u64 {
        self.next_id
    }

    /// Invariant of the queue.
    pub closed spec fn wf(&self) -> bool {
        &&& self.next_id >= 1
        &&& records_wf(self.spec_records())
        &&& forall|i: int|
            0 <= i < self.records@.len() ==> self.records@[i].id.spec_get() < self.next_id || (
            self.next_id == u64::MAX && self.records@[i].id.spec_get() <= self.next_id)
        &&& forall|i: int|
            0 <= i < self.records@.len() ==> strictly_increasing(
                id_numbers(self.records@[i].dependencies@),
            )
    }

    /// A well-formed queue has well-formed records.
    pub proof fn lemma_wf_records(&self)
        requires
            self.wf(),
        ensures
            records_wf(self.spec_records()),
    {
    }

    /// Creates an empty queue.
    pub fn new() -> (r: OperationQueue)
        ensures
            r.wf(),
            r.spec_records().len() == 0,
            r.spec_events().len() == 0,
            r.spec_next_id() == 1,
    {
        let q = OperationQueue { next_id: 1, records: Vec::new(), events: Vec::new() };
        assert(q.spec_records() =~= Seq::<RecordView>::empty());
        q
    }

    /// The position of the record with this identifier.
    fn find_index(&self, id: OperationId) -> (r: Option<usize>)
        requires
            self.wf(),
        ensures
            r is Some <==> has_id(self.spec_records(), id.spec_get()),
            r matches Some(i) ==> i < self.records@.len() && self.records@[i as int].id == id
                && index_of(self.spec_records(), id.spec_get()) == i,
    {
        let n = self.records.len();
        let mut i: usize = 0;
        while i < n
            invariant
                self.wf(),
                n == self.records@.len(),
                i <= n,
                forall|j: int| 0 <= j < i ==> self.records@[j].id != id,
            decreases n - i,
        {
            if self.records[i].id.get() == id.get() {
                proof {
                    assert(self.spec_records()[i as int].id == id.spec_get());
                    lemma_index_unique(self.spec_records(), i as int);
                }
                return Some(i);
            }
            i = i + 1;
        }
        proof {
            if has_id(self.spec_records(), id.spec_get()) {
                let k = choose|k: int| 0 <= k < self.spec_records().len() && self.spec_records()[k].id == id.spec_get();
                assert(self.records@[k].id.spec_get() == id.spec_get());
            }
        }
        None
    }

    /// Returns one record.
    pub fn get(&self, id: OperationId) -> (r: Option<&OperationRecord>)
        requires
            self.wf(),
        ensures
            r is Some <==> has_id(self.spec_records(), id.spec_get()),
            r matches Some(rec) ==> rec@ == self.spec_records()[index_of(self.spec_records(), id.spec_get())],
    {
        match self.find_index(id) {
            Some(i) => Some(&self.records[i]),
            None => None,
        }
    }

    /// Records in identifier order.
    pub fn records(&self) -> (r: &[OperationRecord])
        ensures
            r@.map_values(|x: OperationRecord| x@) == self.spec_records(),
    {
        self.records.as_slice()
    }

    /// What a lifecycle request does to the queue.
    pub open spec fn transition_outcome(
        before: OperationQueue,
        after: OperationQueue,
        id: OperationId,
        next: OperationState,
        r: Result<(), OperationError>,
    ) -> bool {
        let recs = before.spec_records();
        &&& !has_id(recs, id.spec_get()) ==> r == Err::<(), OperationError>(
            OperationError::NotFound(id),
        ) && after == before
        &&& has_id(recs, id.spec_get()) ==> {
            let k = index_of(recs, id.spec_get());
            let rec = recs[k];
            &&& !op_transition_allowed(rec.state, next) ==> r == Err::<(), OperationError>(
                OperationError::InvalidTransition { from: rec.state, to: next },
            ) && after == before
            &&& op_transition_allowed(rec.state, next) ==> {
                &&& r is Ok
                &&& after.spec_records() == recs.update(k, RecordView { state: next, ..rec })
                &&& after.spec_events() == before.spec_events().push(
                    OperationEvent::StateChanged { id, state: next },
                )
                &&& after.spec_next_id() == before.spec_next_id()
            }
        }
    }

    fn transition(&mut self, id: OperationId, next: OperationState) -> (r: Result<(), OperationError>)
        requires
            old(self).wf(),
        ensures
            final(self).wf(),
            Self::transition_outcome(*old(self), *final(self), id, next, r),
    {
        let i = match self.find_index(id) {
            Some(i) => i,
            None => return Err(OperationError::NotFound(id)),
        };
        let from = self.records[i].state;
        if !can_transition(from, next) {
            return Err(OperationError::InvalidTransition { from, to: next });
        }
        let ghost old_recs = self.spec_records();
        self.records[i].state = next;
        self.events.push(OperationEvent::StateChanged { id, state: next });
        proof {
            assert(self.spec_records() =~= old_recs.update(i as int, RecordView { state: next, ..old_recs[i as int] }));
            lemma_update_keeps_wf(old_recs, i as int, RecordView { state: next, ..old_recs[i as int] });
        }
        Ok(())
    }

    /// Starts a queued operation.
    pub fn start(&mut self, id: OperationId) -> (r: Result<(), OperationError>)
        requires
            old(self).wf(),
        ensures
            final(self).wf(),
            Self::transition_outcome(*old(self), *final(self), id, OperationState::Running, r),
    {
        self.transition(id, OperationState::Running)
    }

    /// Pauses a running operation.
    pub fn pause(&mut self, id: OperationId) -> (r: Result<(), OperationError>)
        requires
            old(self).wf(),
        ensures
            final(self).wf(),
            Self::transition_outcome(*old(self), *final(self), id, OperationState::Paused, r),
    {
        self.transition(id, OperationState::Paused)
    }

    /// Resumes a paused operation.
    pub fn resume(&mut self, id: OperationId) -> (r: Result<(), OperationError>)
        requires
            old(self).wf(),
        ensures
            final(self).wf(),
            Self::transition_outcome(*old(self), *final(self), id, OperationState::Running, r),
    {
        self.transition(id, OperationState::Running)
    }

    /// Completes a running operation.
    pub fn complete(&mut self, id: OperationId) -> (r: Result<(), OperationError>)
        requires
            old(self).wf(),
        ensures
            final(self).wf(),
            Self::transition_outcome(*old(self), *final(self), id, OperationState::Completed, r),
    {
        self.transition(id, OperationState::Completed)
    }

    /// Cancels a non-terminal operation.
    pub fn cancel(&mut self, id: OperationId) -> (r: Result<(), OperationError>)
        requires
            old(self).wf(),
        ensures
            final(self).wf(),
            Self::transition_outcome(*old(self), *final(self), id, OperationState::Cancelled, r),
    {
        self.transition(id, OperationState::Cancelled)
    }

    /// Fails an operation and records its message.
    pub fn fail(&mut self, id: OperationId, message: &str) -> (r: Result<(), OperationError>)
        requires
            old(self).wf(),
        ensures
            final(self).wf(),
            r is Err ==> Self::transition_outcome(
                *old(self),
                *final(self),
                id,
                OperationState::Failed,
                r,
            ),
            r is Ok ==> {
                let recs = old(self).spec_records();
                let k = index_of(recs, id.spec_get());
                &&& has_id(recs, id.spec_get())
                &&& op_transition_allowed(recs[k].state, OperationState::Failed)
                &&& final(self).spec_records() == recs.update(
                    k,
                    RecordView { state: OperationState::Failed, error: Some(message@), ..recs[k] },
                )
                &&& final(self).spec_events() == old(self).spec_events().push(
                    OperationEvent::StateChanged { id, state: OperationState::Failed },
                )
                &&& final(self).spec_next_id() == old(self).spec_next_id()
            },
    {
        let ghost orig = self.spec_records();
        match self.transition(id, OperationState::Failed) {
            Ok(()) => {},
            Err(e) => return Err(e),
        }
        let i = match self.find_index(id) {
            Some(i) => i,
            None => return Ok(()),
        };
        let ghost old_recs = self.spec_records();
        proof {
            assert(old_recs[i as int].id == id.spec_get());
            assert(has_id(orig, id.spec_get()));
            let k = index_of(orig, id.spec_get());
            assert(0 <= k < orig.len() && orig[k].id == id.spec_get());
            assert(old_recs == orig.update(k, RecordView { state: OperationState::Failed, ..orig[k] }));
            if k != i as int {
                assert(old_recs[i as int] == orig[i as int]);
                lemma_index_unique(orig, i as int);
            }
            assert(k == i as int);
        }
        self.records[i].error = Some(owned(message));
        proof {
            assert(self.spec_records() =~= old_recs.update(i as int, RecordView { error: Some(message@), ..old_recs[i as int] }));
            assert(old_recs.update(i as int, RecordView { error: Some(message@), ..old_recs[i as int] }) =~= orig.update(i as int, RecordView { state: OperationState::Failed, error: Some(message@), ..orig[i as int] }));
            assert(self.spec_records() =~= old_recs.update(i as int, RecordView { error: Some(message@), ..old_recs[i as int] }));
            lemma_update_keeps_wf(old_recs, i as int, RecordView { error: Some(message@), ..old_recs[i as int] });
        }
        Ok(())
    }

    /// Replaces the progress snapshot of one operation.
    pub fn update_progress(&mut self, id: OperationId, progress: OperationProgress) -> (r: Result<
        (),
        OperationError,
    >)
        requires
            old(self).wf(),
        ensures
            final(self).wf(),
            !has_id(old(self).spec_records(), id.spec_get()) ==> r == Err::<(), OperationError>(
                OperationError::NotFound(id),
            ) && *final(self) == *old(self),
            has_id(old(self).spec_records(), id.spec_get()) ==> {
                let recs = old(self).spec_records();
                let k = index_of(recs, id.spec_get());
                &&& r is Ok
                &&& final(self).spec_records() == recs.update(k, RecordView { progress, ..recs[k] })
                &&& final(self).spec_events() == old(self).spec_events().push(
                    OperationEvent::Progress { id, progress },
                )
                &&& final(self).spec_next_id() == old(self).spec_next_id()
            },
    {
        let i = match self.find_index(id) {
            Some(i) => i,
            None => return Err(OperationError::NotFound(id)),
        };
        let ghost old_recs = self.spec_records();
        self.records[i].progress = progress;
        self.events.push(OperationEvent::Progress { id, progress });
        proof {
            assert(self.spec_records() =~= old_recs.update(i as int, RecordView { progress, ..old_recs[i as int] }));
            lemma_update_keeps_wf(old_recs, i as int, RecordView { progress, ..old_recs[i as int] });
        }
        Ok(())
    }

    /// Enqueues an operation; every dependency must already be known.
    ///
    /// Dependencies are kept as a set in increasing identifier order; an
    /// unknown dependency is reported, the smallest first.
    pub fn enqueue(&mut self, kind: OperationKind, label: &str, dependencies: &[OperationId]) -> (r:
        Result<OperationId, OperationError>)
        requires
            old(self).wf(),
        ensures
            final(self).wf(),
            Self::enqueue_outcome(*old(self), *final(self), kind, label@, id_numbers(dependencies@), r),
    {
        let deps = sorted_unique(dependencies);
        let mut j: usize = 0;
        while j < deps.len()
            invariant
                self.wf(),
                *self == *old(self),
                strictly_increasing(id_numbers(deps@)),
                forall|x: u64| #[trigger] id_numbers(deps@).contains(x) <==> id_numbers(dependencies@).contains(x),
                j <= deps@.len(),
                forall|a: int| 0 <= a < j ==> has_id(self.spec_records(), #[trigger] id_numbers(deps@)[a]),
            decreases deps@.len() - j,
        {
            let dep = deps[j];
            match self.find_index(dep) {
                Some(_) => {},
                None => {
                    proof {
                        assert(id_numbers(deps@)[j as int] == dep.spec_get());
                        assert(id_numbers(deps@).contains(dep.spec_get()));
                        assert forall|x: u64| #[trigger] id_numbers(dependencies@).contains(x) && x < dep.spec_get() implies has_id(self.spec_records(), x) by {
                            assert(id_numbers(deps@).contains(x));
                            let a = choose|a: int| 0 <= a < id_numbers(deps@).len() && id_numbers(deps@)[a] == x;
                            if a > j {
                                assert(id_numbers(deps@)[a] > id_numbers(deps@)[j as int]);
                            }
                        }
                    }
                    return Err(OperationError::UnknownDependency(dep));
                },
            }
            j = j + 1;
        }
        proof {
            assert forall|x: u64| #[trigger] id_numbers(deps@).contains(x) implies has_id(self.spec_records(), x) by {
                let a = choose|a: int| 0 <= a < id_numbers(deps@).len() && id_numbers(deps@)[a] == x;
            }
            assert forall|x: u64| #[trigger] id_numbers(dependencies@).contains(x) implies has_id(old(self).spec_records(), x) by {
                assert(id_numbers(deps@).contains(x));
            }
        }
        let id = match OperationId::new(self.next_id) {
            Ok(id) => id,
            Err(e) => return Err(e),
        };
        let ghost old_recs = self.spec_records();
        let ghost old_next = self.next_id;
        self.next_id = self.next_id.saturating_add(1);
        let record = OperationRecord {
            id,
            kind,
            label: owned(label),
            state: OperationState::Queued,
            dependencies: deps,
            progress: OperationProgress::none(),
            error: None,
        };
        let n = self.records.len();
        if n > 0 && self.records[n - 1].id.get() == id.get() {
            self.records.set(n - 1, record);
            proof {
                assert(self.spec_records() =~= old_recs.drop_last().push(record@));
            }
        } else {
            self.records.push(record);
            proof {
                assert(self.spec_records() =~= old_recs.push(record@));
            }
        }
        self.events.push(OperationEvent::Enqueued(id));
        proof {
            let base = if old_recs.len() > 0 && old_recs.last().id == old_next {
                old_recs.drop_last()
            } else {
                old_recs
            };
            let nr = self.spec_records();
            assert(nr == base.push(record@));
            assert(nr.drop_last() =~= base);
            assert forall|x: u64| has_id(base, x) implies has_id(nr, x) by {
                let k = choose|k: int| 0 <= k < base.len() && base[k].id == x;
                assert(nr[k] == base[k]);
            }
            assert forall|x: u64| has_id(old_recs, x) implies has_id(nr, x) by {
                let k = choose|k: int| 0 <= k < old_recs.len() && old_recs[k].id == x;
                if k < base.len() {
                    assert(base[k] == old_recs[k]);
                    assert(nr[k] == base[k]);
                } else {
                    assert(old_recs[k].id == old_next);
                    assert(nr[base.len() as int].id == old_next);
                }
            }
            assert(ids_of(nr) =~= ids_of(base).push(old_next));
            assert forall|a: int, b: int| 0 <= a < b < ids_of(nr).len() implies ids_of(nr)[a] < ids_of(nr)[b] by {
                if b < base.len() {
                    assert(base[a] == old_recs[a]);
                    assert(base[b] == old_recs[b]);
                    assert(ids_of(old_recs)[a] < ids_of(old_recs)[b]);
                } else {
                    assert(base[a] == old_recs[a]);
                    assert(self.records@[a as int].id.spec_get() == old_recs[a].id);
                    if old_recs.len() > 0 && old_recs.last().id == old_next {
                        assert(ids_of(old_recs)[a] < ids_of(old_recs)[old_recs.len() - 1]);
                    }
                }
            }
            assert forall|a: int, k: int|
                0 <= a < nr.len() && 0 <= k < nr[a].dependencies.len() implies has_id(nr, #[trigger] nr[a].dependencies[k]) by {
                if a < base.len() {
                    assert(nr[a] == old_recs[a]);
                    assert(has_id(old_recs, old_recs[a].dependencies[k]));
                } else {
                    assert(nr[a].dependencies == id_numbers(deps@));
                    assert(has_id(old_recs, id_numbers(deps@)[k]));
                }
            }
        }
        Ok(id)
    }

    /// What enqueueing does to the queue and what it returns.
    pub open spec fn enqueue_outcome(
        before: OperationQueue,
        after: OperationQueue,
        kind: OperationKind,
        label: Seq<char>,
        dependencies: Seq<u64>,
        r: Result<OperationId, OperationError>,
    ) -> bool {
        let recs = before.spec_records();
        let id = before.spec_next_id();
        &&& r matches Err(e) ==> e matches OperationError::UnknownDependency(d) && dependencies.contains(d.spec_get())
            && !has_id(recs, d.spec_get()) && (forall|x: u64| #[trigger] dependencies.contains(x) && x < d.spec_get() ==> has_id(recs, x))
            && after == before
        &&& (forall|x: u64| #[trigger] dependencies.contains(x) ==> has_id(recs, x)) <==> r is Ok
        &&& r matches Ok(oid) ==> {
            let base = if recs.len() > 0 && recs.last().id == id { recs.drop_last() } else { recs };
            &&& oid.spec_get() == id
            &&& after.spec_next_id() == (if id == u64::MAX { id } else { (id + 1) as u64 })
            &&& after.spec_events() == before.spec_events().push(OperationEvent::Enqueued(oid))
            &&& after.spec_records().len() == base.len() + 1
            &&& after.spec_records().drop_last() == base
            &&& after.spec_records().last().id == id
            &&& after.spec_records().last().kind == kind
            &&& after.spec_records().last().label == label
            &&& after.spec_records().last().state == OperationState::Queued
            &&& after.spec_records().last().progress == (OperationProgress {
                completed_units: 0,
                total_units: None,
                completed_bytes: 0,
                total_bytes: None,
            })
            &&& after.spec_records().last().error is None
            &&& strictly_increasing(after.spec_records().last().dependencies)
            &&& forall|x: u64| #[trigger] after.spec_records().last().dependencies.contains(x) <==> dependencies.contains(x)
        }
    }

    fn dependency_status(&self, i: usize) -> (r: (bool, bool))
        requires
            self.wf(),
            i < self.records@.len(),
        ensures
            r.0 == deps_blocked(self.spec_records(), self.spec_records()[i as int].dependencies),
            !r.0 ==> r.1 == deps_ready(self.spec_records(), self.spec_records()[i as int].dependencies),
    {
        let ghost recs = self.spec_records();
        let ghost deps = recs[i as int].dependencies;
        let dn = self.records[i].dependencies.len();
        let mut ready = true;
        let mut k: usize = 0;
        while k < dn
            invariant
                self.wf(),
                recs == self.spec_records(),
                i < self.records@.len(),
                deps == recs[i as int].dependencies,
                dn == deps.len(),
                k <= dn,
                forall|a: int| 0 <= a < k ==> !(state_of(recs, #[trigger] deps[a]) == OperationState::Failed
                    || state_of(recs, deps[a]) == OperationState::Cancelled),
                ready == (forall|a: int| 0 <= a < k ==> state_of(recs, #[trigger] deps[a]) == OperationState::Completed),
            decreases dn - k,
        {
            let dep = self.records[i].dependencies[k];
            proof {
                assert(deps[k as int] == dep.spec_get());
                assert(has_id(recs, recs[i as int].dependencies[k as int]));
            }
            let st = match self.find_index(dep) {
                Some(j) => self.records[j].state,
                None => {
                    return (false, false);
                },
            };
            match st {
                OperationState::Completed => {},
                OperationState::Failed | OperationState::Cancelled => {
                    return (true, false);
                },
                _ => {
                    ready = false;
                },
            }
            k = k + 1;
        }
        (false, ready)
    }

    /// Returns the next runnable operation, failing queued operations whose
    /// dependencies failed or were cancelled on the way.
    ///
    /// The answer is the first queued operation in identifier order whose
    /// dependencies all completed; see `scan`.
    pub fn next_runnable(&mut self) -> (r: Option<OperationId>)
        requires
            old(self).wf(),
        ensures
            final(self).wf(),
            final(self).spec_next_id() == old(self).spec_next_id(),
            final(self).spec_records() == scan(old(self).spec_records(), old(self).spec_events(), 0).0,
            final(self).spec_events() == scan(old(self).spec_records(), old(self).spec_events(), 0).1,
            r is None <==> scan(old(self).spec_records(), old(self).spec_events(), 0).2 is None,
            r matches Some(id) ==> scan(old(self).spec_records(), old(self).spec_events(), 0).2
                == Some(id.spec_get()),
            forall|k: int|
                0 <= k < old(self).spec_records().len() && old(self).spec_records()[k].state == OperationState::Queued
                    && (exists|m: int|
                    0 <= m < old(self).spec_records()[k].dependencies.len() && (state_of(
                        old(self).spec_records(),
                        #[trigger] old(self).spec_records()[k].dependencies[m],
                    ) == OperationState::Failed || state_of(
                        old(self).spec_records(),
                        old(self).spec_records()[k].dependencies[m],
                    ) == OperationState::Cancelled)) && (r is None || (r matches Some(id)
                    && old(self).spec_records()[k].id < id.spec_get())) ==> (#[trigger] final(self).spec_records()[k]).state
                    == OperationState::Failed,
    {
        let ghost goal = scan(self.spec_records(), self.spec_events(), 0);
        proof {
            lemma_scan_fails_ended_dependencies(self.spec_records(), self.spec_events(), 0);
        }
        let n = self.records.len();
        let mut i: usize = 0;
        let mut found: Option<OperationId> = None;
        while i < n && found.is_none()
            invariant
                self.wf(),
                n == self.records@.len(),
                i <= n,
                self.spec_next_id() == old(self).spec_next_id(),
                found is None ==> scan(self.spec_records(), self.spec_events(), i as int) == goal,
                found matches Some(id) ==> goal == (self.spec_records(), self.spec_events(), Some(id.spec_get())),
            decreases n - i + (if found is None { 1int } else { 0int }),
        {
            if self.records[i].state != OperationState::Queued {
                i = i + 1;
            } else {
                let (blocked, ready) = self.dependency_status(i);
                if blocked {
                    let ghost recs = self.spec_records();
                    let id = self.records[i].id;
                    self.records[i].state = OperationState::Failed;
                    self.records[i].error = Some(owned("dependency did not complete successfully"));
                    self.events.push(OperationEvent::StateChanged { id, state: OperationState::Failed });
                    proof {
                        reveal_strlit("dependency did not complete successfully");
                        assert(self.spec_records() =~= recs.update(i as int, blocked_version(recs[i as int])));
                        lemma_update_keeps_wf(recs, i as int, blocked_version(recs[i as int]));
                        assert(OperationId::spec_from(recs[i as int].id) == id);
                    }
                    i = i + 1;
                } else if ready {
                    proof {
                        let recs = self.spec_records();
                        assert(recs[i as int].state == OperationState::Queued);
                        assert(scan(recs, self.spec_events(), i as int) == (recs, self.spec_events(), Some(recs[i as int].id)));
                    }
                    found = Some(self.records[i].id);
                } else {
                    i = i + 1;
                }
            }
        }
        found
    }

    /// Returns accumulated events.
    pub fn events(&self) -> (r: &[OperationEvent])
        ensures
            r@ == self.spec_events(),
    {
        self.events.as_slice()
    }
}

/// Sorts identifiers increasingly and drops repeats.
pub fn sorted_unique(ids: &[OperationId]) -> (r: Vec<OperationId>)
    ensures
        strictly_increasing(id_numbers(r@)),
        forall|x: u64| #[trigger] id_numbers(r@).contains(x) <==> id_numbers(ids@).contains(x),
{
    let mut out: Vec<OperationId> = Vec::new();
    let mut i: usize = 0;
    while i < ids.len()
        invariant
            i <= ids@.len(),
            strictly_increasing(id_numbers(out@)),
            forall|x: u64| #[trigger] id_numbers(out@).contains(x) <==> id_numbers(ids@.subrange(0, i as int)).contains(x),
        decreases ids@.len() - i,
    {
        let x = ids[i];
        let mut p: usize = 0;
        while p < out.len() && out[p].get() < x.get()
            invariant
                p <= out@.len(),
                forall|a: int| 0 <= a < p ==> out@[a].spec_get() < x.spec_get(),
            decreases out@.len() - p,
        {
            p = p + 1;
        }
        let ghost before = out@;
        if p < out.len() && out[p].get() == x.get() {
        } else {
            out.insert(p, x);
            proof {
                assert forall|a: int, b: int| 0 <= a < b < id_numbers(out@).len() implies id_numbers(out@)[a] < id_numbers(out@)[b] by {
                    if b < p {
                        assert(id_numbers(before)[a] < id_numbers(before)[b]);
                    } else if b == p {
                    } else if a < p {
                        assert(out@[b] == before[b - 1]);
                        if p < before.len() {
                            assert(before[p as int].spec_get() > x.spec_get());
                            if b - 1 > p {
                                assert(id_numbers(before)[p as int] < id_numbers(before)[b - 1]);
                            }
                        }
                    } else if a == p {
                        assert(out@[b] == before[b - 1]);
                        assert(before[p as int].spec_get() >= x.spec_get());
                        assert(before[p as int].spec_get() != x.spec_get());
                        if b - 1 > p {
                            assert(id_numbers(before)[p as int] < id_numbers(before)[b - 1]);
                        }
                    } else {
                        assert(out@[a] == before[a - 1]);
                        assert(out@[b] == before[b - 1]);
                        assert(id_numbers(before)[a - 1] < id_numbers(before)[b - 1]);
                    }
                }
            }
        }
        proof {
            let pre = id_numbers(ids@.subrange(0, i as int));
            let post = id_numbers(ids@.subrange(0, i + 1));
            assert(ids@.subrange(0, i + 1) =~= ids@.subrange(0, i as int).push(x));
            assert(post =~= pre.push(x.spec_get()));
            let nb = id_numbers(before);
            let no = id_numbers(out@);
            assert forall|y: u64| #[trigger] no.contains(y) <==> post.contains(y) by {
                if no.contains(y) {
                    let k = choose|k: int| 0 <= k < no.len() && no[k] == y;
                    if y != x.spec_get() {
                        if out@.len() == before.len() {
                            assert(nb[k] == y);
                        } else if k < p {
                            assert(nb[k] == y);
                        } else if k > p {
                            assert(nb[k - 1] == y);
                        }
                        assert(nb.contains(y));
                        assert(pre.contains(y));
                        let m = choose|m: int| 0 <= m < pre.len() && pre[m] == y;
                        assert(post[m] == y);
                    } else {
                        assert(post[i as int] == y);
                    }
                }
                if post.contains(y) {
                    let m = choose|m: int| 0 <= m < post.len() && post[m] == y;
                    if m < i {
                        assert(pre[m] == y);
                        assert(nb.contains(y));
                        let k = choose|k: int| 0 <= k < nb.len() && nb[k] == y;
                        if out@.len() == before.len() {
                            assert(no[k] == y);
                        } else if k < p {
                            assert(no[k] == y);
                        } else {
                            assert(no[k + 1] == y);
                        }
                    } else {
                        assert(y == x.spec_get());
                        if out@.len() == before.len() {
                            assert(no[p as int] == y);
                        } else {
                            assert(no[p as int] == y);
                        }
                    }
                }
            }
        }
        i = i + 1;
    }
    assert(ids@.subrange(0, ids@.len() as int) =~= ids@);
    out
}

proof fn lemma_update_keeps_wf(recs: Seq<RecordView>, i: int, v: RecordView)
    requires
        records_wf(recs),
        0 <= i < recs.len(),
        v.id == recs[i].id,
        v.dependencies == recs[i].dependencies,
    ensures
        records_wf(recs.update(i, v)),
        ids_of(recs.update(i, v)) == ids_of(recs),
        forall|x: u64| has_id(recs.update(i, v), x) == has_id(recs, x),
{
    let u = recs.update(i, v);
    assert(ids_of(u) =~= ids_of(recs));
    assert forall|x: u64| has_id(u, x) == has_id(recs, x) by {
        if has_id(recs, x) {
            let k = choose|k: int| 0 <= k < recs.len() && recs[k].id == x;
            assert(u[k].id == x);
        }
        if has_id(u, x) {
            let k = choose|k: int| 0 <= k < u.len() && u[k].id == x;
            assert(recs[k].id == x);
        }
    }
    assert forall|a: int, k: int|
        0 <= a < u.len() && 0 <= k < u[a].dependencies.len() implies has_id(u, #[trigger] u[a].dependencies[k]) by {
        assert(u[a].dependencies == recs[a].dependencies);
        assert(has_id(recs, recs[a].dependencies[k]));
    }
}

/// With increasing identifiers, the position of an identifier is the one holding it.
pub proof fn lemma_index_unique(recs: Seq<RecordView>, i: int)
    requires
        strictly_increasing(ids_of(recs)),
        0 <= i < recs.len(),
    ensures
        index_of(recs, recs[i].id) == i,
{
    let k = index_of(recs, recs[i].id);
    assert(ids_of(recs)[i] == recs[i].id);
    assert(0 <= k < recs.len() && recs[k].id == recs[i].id);
    assert(ids_of(recs)[k] == recs[k].id);
}


/// Two record sequences describe the same operations, in the same positions,
/// where only queued operations may have moved on, to failed or running.
#[verifier::opaque]
pub open spec fn queue_progressed(before: Seq<RecordView>, after: Seq<RecordView>) -> bool {
    &&& after.len() == before.len()
    &&& forall|k: int|
        #![trigger after[k]]
        0 <= k < before.len() ==> after[k].id == before[k].id && after[k].dependencies
            == before[k].dependencies && (after[k].state == before[k].state || (before[k].state
            == OperationState::Queued && (after[k].state == OperationState::Failed || after[k].state
            == OperationState::Running)))
}

/// No queued operation has all its dependencies completed: nothing can start.
#[verifier::opaque]
pub open spec fn nothing_runnable(recs: Seq<RecordView>) -> bool {
    forall|k: int|
        0 <= k < recs.len() && #[trigger] recs[k].state == OperationState::Queued ==> !deps_ready(
            recs,
            recs[k].dependencies,
        )
}

/// Progress is transitive.
pub proof fn lemma_progressed_trans(a: Seq<RecordView>, b: Seq<RecordView>, c: Seq<RecordView>)
    requires
        queue_progressed(a, b),
        queue_progressed(b, c),
    ensures
        queue_progressed(a, c),
{
    reveal(queue_progressed);
    reveal(nothing_runnable);
    reveal(started_ready);
    assert forall|k: int| 0 <= k < a.len() implies #[trigger] c[k].id == a[k].id && c[k].dependencies
        == a[k].dependencies && (c[k].state == a[k].state || (a[k].state == OperationState::Queued && (
    c[k].state == OperationState::Failed || c[k].state == OperationState::Running))) by {
        assert(b[k].id == a[k].id);
    }
}

/// Progress keeps the identifiers, the well-formedness and which operations
/// completed, so readiness of dependencies is unchanged.
pub proof fn lemma_progressed_ready(a: Seq<RecordView>, b: Seq<RecordView>, deps: Seq<u64>)
    requires
        queue_progressed(a, b),
        records_wf(a),
        forall|m: int| 0 <= m < deps.len() ==> has_id(a, #[trigger] deps[m]),
    ensures
        deps_ready(a, deps) == deps_ready(b, deps),
        records_wf(b),
{
    reveal(queue_progressed);
    reveal(nothing_runnable);
    reveal(started_ready);
    assert(ids_of(a) =~= ids_of(b)) by {
        assert forall|k: int| 0 <= k < a.len() implies ids_of(a)[k] == ids_of(b)[k] by {
            assert(b[k].id == a[k].id);
        }
    }
    assert forall|m: int| 0 <= m < deps.len() implies state_of(a, #[trigger] deps[m]) == OperationState::Completed
        <==> state_of(b, deps[m]) == OperationState::Completed by {
        let d = deps[m];
        let i = choose|i: int| 0 <= i < a.len() && a[i].id == d;
        lemma_index_unique(a, i);
        assert(b[i].id == d);
        lemma_index_unique(b, i);
    }
    assert forall|x: u64| has_id(b, x) == has_id(a, x) by {
        if has_id(a, x) {
            let i = choose|i: int| 0 <= i < a.len() && a[i].id == x;
            assert(b[i].id == x);
        }
        if has_id(b, x) {
            let i = choose|i: int| 0 <= i < b.len() && b[i].id == x;
            assert(a[i].id == x);
        }
    }
    assert forall|i: int, k: int|
        0 <= i < b.len() && 0 <= k < b[i].dependencies.len() implies has_id(b, #[trigger] b[i].dependencies[k]) by {
        assert(b[i].dependencies == a[i].dependencies);
        assert(has_id(a, a[i].dependencies[k]));
    }
}

/// Progress keeps a failed or cancelled dependency so.
pub proof fn lemma_progressed_blocked(a: Seq<RecordView>, b: Seq<RecordView>, deps: Seq<u64>)
    requires
        queue_progressed(a, b),
        records_wf(a),
        forall|m: int| 0 <= m < deps.len() ==> has_id(a, #[trigger] deps[m]),
        deps_blocked(a, deps),
    ensures
        deps_blocked(b, deps),
{
    reveal(queue_progressed);
    let m = choose|m: int|
        0 <= m < deps.len() && (state_of(a, deps[m]) == OperationState::Failed || state_of(a, deps[m])
            == OperationState::Cancelled);
    let d = deps[m];
    assert(has_id(a, d));
    let i = choose|i: int| 0 <= i < a.len() && a[i].id == d;
    lemma_index_unique(a, i);
    assert(b[i].id == d);
    assert(ids_of(a) =~= ids_of(b)) by {
        assert forall|k: int| 0 <= k < a.len() implies ids_of(a)[k] == ids_of(b)[k] by {
            assert(b[k].id == a[k].id);
        }
    }
    lemma_index_unique(b, i);
}

/// What one scan from position `i` does: positions before `i` are untouched,
/// later queued operations may fail, and an answer is a queued operation at or
/// after `i` whose dependencies all completed.
pub proof fn lemma_scan_shape(recs: Seq<RecordView>, events: Seq<OperationEvent>, i: int)
    requires
        0 <= i,
        records_wf(recs),
    ensures
        queue_progressed(recs, scan(recs, events, i).0),
        forall|k: int| 0 <= k < i && k < recs.len() ==> #[trigger] scan(recs, events, i).0[k] == recs[k],
        forall|k: int|
            0 <= k < recs.len() ==> (#[trigger] scan(recs, events, i).0[k]).state == recs[k].state || (
            recs[k].state == OperationState::Queued && scan(recs, events, i).0[k].state
                == OperationState::Failed),
        scan(recs, events, i).2 matches Some(id) ==> exists|k: int|
            i <= k < recs.len() && (#[trigger] scan(recs, events, i).0[k]).id == id && scan(recs, events, i).0[k].state
                == OperationState::Queued && deps_ready(
                scan(recs, events, i).0,
                scan(recs, events, i).0[k].dependencies,
            ),
        scan(recs, events, i).2 is None ==> forall|k: int|
            i <= k < recs.len() && (#[trigger] scan(recs, events, i).0[k]).state == OperationState::Queued
                ==> !deps_ready(scan(recs, events, i).0, scan(recs, events, i).0[k].dependencies),
        forall|k: int|
            0 <= k < recs.len() && recs[k].state == OperationState::Queued && (#[trigger] scan(
                recs,
                events,
                i,
            ).0[k]).state == OperationState::Failed ==> deps_blocked(
                scan(recs, events, i).0,
                scan(recs, events, i).0[k].dependencies,
            ),
    decreases recs.len() - i,
{
    reveal(queue_progressed);
    reveal(nothing_runnable);
    reveal(started_ready);
    if i >= recs.len() {
    } else {
        let r = recs[i];
        if r.state != OperationState::Queued {
            lemma_scan_shape(recs, events, i + 1);
        } else if deps_blocked(recs, r.dependencies) {
            let u = recs.update(i, blocked_version(r));
            let e = events.push(
                OperationEvent::StateChanged { id: OperationId::spec_from(r.id), state: OperationState::Failed },
            );
            lemma_update_keeps_wf(recs, i, blocked_version(r));
            lemma_scan_shape(u, e, i + 1);
            let r1 = scan(u, e, i + 1).0;
            assert(queue_progressed(recs, u));
            lemma_progressed_trans(recs, u, r1);
            assert forall|m: int| 0 <= m < r.dependencies.len() implies has_id(recs, #[trigger] r.dependencies[m]) by {
                assert(has_id(recs, recs[i].dependencies[m]));
            }
            lemma_progressed_blocked(recs, r1, r.dependencies);
            assert(r1[i] == u[i]);
        } else if deps_ready(recs, r.dependencies) {
        } else {
            lemma_scan_shape(recs, events, i + 1);
            let r1 = scan(recs, events, i + 1).0;
            assert forall|m: int| 0 <= m < r.dependencies.len() implies has_id(recs, #[trigger] r.dependencies[m]) by {
                assert(has_id(recs, recs[i].dependencies[m]));
            }
            lemma_progressed_ready(recs, r1, r.dependencies);
            assert(r1[i] == recs[i]);
        }
    }
}


/// A scan fails every queued operation it passes that has a failed or
/// cancelled dependency: when it finds nothing, all of them from `i` on; when
/// it finds an operation, all of them before it.
pub proof fn lemma_scan_fails_ended_dependencies(recs: Seq<RecordView>, events: Seq<OperationEvent>, i: int)
    requires
        0 <= i,
        records_wf(recs),
    ensures
        forall|k: int|
            i <= k < recs.len() && recs[k].state == OperationState::Queued && (exists|m: int|
                0 <= m < recs[k].dependencies.len() && (state_of(recs, #[trigger] recs[k].dependencies[m])
                    == OperationState::Failed || state_of(recs, recs[k].dependencies[m]) == OperationState::Cancelled))
                && (scan(recs, events, i).2 is None || (scan(recs, events, i).2 matches Some(id) && recs[k].id
                < id)) ==> (#[trigger] scan(recs, events, i).0[k]).state == OperationState::Failed,
    decreases recs.len() - i,
{
    reveal(queue_progressed);
    if i < recs.len() {
        let r = recs[i];
        if r.state != OperationState::Queued {
            lemma_scan_fails_ended_dependencies(recs, events, i + 1);
        } else if deps_blocked(recs, r.dependencies) {
            let u = recs.update(i, blocked_version(r));
            let e = events.push(
                OperationEvent::StateChanged { id: OperationId::spec_from(r.id), state: OperationState::Failed },
            );
            lemma_update_keeps_wf(recs, i, blocked_version(r));
            lemma_scan_shape(u, e, i + 1);
            lemma_scan_fails_ended_dependencies(u, e, i + 1);
            assert(queue_progressed(recs, u));
            assert forall|k: int|
                i <= k < recs.len() && recs[k].state == OperationState::Queued && (exists|m: int|
                    0 <= m < recs[k].dependencies.len() && (state_of(recs, #[trigger] recs[k].dependencies[m])
                        == OperationState::Failed || state_of(recs, recs[k].dependencies[m]) == OperationState::Cancelled))
                    && (scan(recs, events, i).2 is None || (scan(recs, events, i).2 matches Some(id) && recs[k].id
                    < id)) implies (#[trigger] scan(recs, events, i).0[k]).state == OperationState::Failed by {
                if k > i {
                    assert(u[k] == recs[k]);
                    assert forall|m: int| 0 <= m < recs[k].dependencies.len() implies has_id(recs, #[trigger] recs[k].dependencies[m]) by {}
                    assert(deps_blocked(recs, recs[k].dependencies));
                    lemma_progressed_blocked(recs, u, recs[k].dependencies);
                    assert(u[k].dependencies == recs[k].dependencies);
                }
            }
        } else if deps_ready(recs, r.dependencies) {
            assert forall|k: int| i <= k < recs.len() implies !(recs[k].id < r.id) by {
                if k > i {
                    assert(ids_of(recs)[i] < ids_of(recs)[k]);
                }
            }
        } else {
            lemma_scan_fails_ended_dependencies(recs, events, i + 1);
        }
    }
}

/// With nothing runnable, a scan from any position finds nothing.
pub proof fn lemma_nothing_runnable_scan(recs: Seq<RecordView>, events: Seq<OperationEvent>, i: int)
    requires
        0 <= i,
        records_wf(recs),
        nothing_runnable(recs),
    ensures
        scan(recs, events, i).2 is None,
    decreases recs.len() - i,
{
    reveal(queue_progressed);
    reveal(nothing_runnable);
    reveal(started_ready);
    if i < recs.len() {
        let r = recs[i];
        if r.state != OperationState::Queued {
            lemma_nothing_runnable_scan(recs, events, i + 1);
        } else if deps_blocked(recs, r.dependencies) {
            let u = recs.update(i, blocked_version(r));
            let e = events.push(
                OperationEvent::StateChanged { id: OperationId::spec_from(r.id), state: OperationState::Failed },
            );
            lemma_update_keeps_wf(recs, i, blocked_version(r));
            assert(queue_progressed(recs, u));
            assert forall|k: int| 0 <= k < u.len() && #[trigger] u[k].state == OperationState::Queued implies !deps_ready(
                u,
                u[k].dependencies,
            ) by {
                assert(k != i);
                assert(u[k] == recs[k]);
                assert forall|m: int| 0 <= m < recs[k].dependencies.len() implies has_id(recs, #[trigger] recs[k].dependencies[m]) by {
                }
                lemma_progressed_ready(recs, u, recs[k].dependencies);
            }
            lemma_nothing_runnable_scan(u, e, i + 1);
        } else {
            lemma_nothing_runnable_scan(recs, events, i + 1);
        }
    }
}

/// The operation `id` was queued with every dependency completed in `before`,
/// and is running in `after`, in the same position.
#[verifier::opaque]
pub open spec fn started_ready(before: Seq<RecordView>, after: Seq<RecordView>, id: OperationId) -> bool {
    exists|k: int|
        0 <= k < before.len() && k < after.len() && (#[trigger] before[k]).id == id.spec_get()
            && before[k].state == OperationState::Queued && deps_ready(before, before[k].dependencies)
            && after[k].state == OperationState::Running
}

/// A started operation stays running while the queue only progresses.
pub proof fn lemma_started_kept(
    before: Seq<RecordView>,
    now: Seq<RecordView>,
    later: Seq<RecordView>,
    id: OperationId,
)
    requires
        started_ready(before, now, id),
        queue_progressed(now, later),
    ensures
        started_ready(before, later, id),
{
    reveal(queue_progressed);
    reveal(nothing_runnable);
    reveal(started_ready);
    let k = choose|k: int|
        0 <= k < before.len() && k < now.len() && (#[trigger] before[k]).id == id.spec_get()
            && before[k].state == OperationState::Queued && deps_ready(before, before[k].dependencies)
            && now[k].state == OperationState::Running;
    assert(later[k].state == now[k].state || now[k].state == OperationState::Queued);
    assert(before[k].id == id.spec_get());
}


impl Default for OperationQueue {
    fn default() -> (r: Self)
        ensures
            r.wf(),
            r.spec_records().len() == 0,
            r.spec_events().len() == 0,
            r.spec_next_id() == 1,
    {
        OperationQueue::new()
    }
}

} // verus!
