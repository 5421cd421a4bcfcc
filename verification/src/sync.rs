//! Execution of immutable synchronization plans.
//!
//! The planner and executor are separate: a frontend previews a plan and then
//! executes exactly that plan, without re-planning.

use vstd::prelude::*;
use crate::backend::{Backend, BackendError, ErrorKind, removal};
use crate::cancel::CancellationToken;
use crate::domain::BackendPath;
use crate::job::{Endpoint, TransferSpec};
use crate::reliability::{
    NoJournal, ReliabilityError, ReliableFileRequest, ReliableTransferOutcome, ReliableTreeOutcome,
    ReliableTreeRequest, execute_file_reliable_request_with, execute_tree_reliable_request_with,
};
use crate::sync_plan::{ActionView, SyncAction, SyncActionKind, SyncPlan, actions_view, capped, count_kind, opt_path};
use crate::transfer::{
    ExecutionError, FileProgressMap, TransferId, TransferProgress, lemma_permille_at_most_one_thousand,
    permille_of, scaled_permille,
};
use crate::tree::{TreeProgressMap, TreeTransferProgress};

verus! {

/// Snapshot emitted while executing a synchronization plan.
#[derive(Clone, Debug, PartialEq, Eq)]
pub struct SyncExecutionProgress {
    completed_actions: u64,
    total_actions: u64,
    current_path: String,
    current_bytes: u64,
    current_total_bytes: Option<u64>,
}

impl SyncExecutionProgress {
    /// Completed actions.
    pub closed spec fn spec_completed_actions(&self) -> u64 {
        self.completed_actions
    }

    /// Total actions.
    pub closed spec fn spec_total_actions(&self) -> u64 {
        self.total_actions
    }

    /// Current relative path.
    pub closed spec fn spec_current_path(&self) -> Seq<char> {
        self.current_path@
    }

    /// Bytes of the current file.
    pub closed spec fn spec_current_bytes(&self) -> u64 {
        self.current_bytes
    }

    /// Known size of the current file.
    pub closed spec fn spec_current_total_bytes(&self) -> Option<u64> {
        self.current_total_bytes
    }

    /// Creates a snapshot.
    pub fn snapshot(
        completed_actions: u64,
        total_actions: u64,
        current_path: &str,
        current_bytes: u64,
        current_total_bytes: Option<u64>,
    ) -> (r: SyncExecutionProgress)
        ensures
            r.spec_completed_actions() == completed_actions,
            r.spec_total_actions() == total_actions,
            r.spec_current_path() == current_path@,
            r.spec_current_bytes() == current_bytes,
            r.spec_current_total_bytes() == current_total_bytes,
    {
        SyncExecutionProgress {
            completed_actions,
            total_actions,
            current_path: crate::text::owned(current_path),
            current_bytes,
            current_total_bytes,
        }
    }

    /// Number of fully completed plan actions.
    pub fn completed_actions(&self) -> (r: u64)
        ensures
            r == self.spec_completed_actions(),
    {
        self.completed_actions
    }

    /// Total number of actions in the immutable plan.
    pub fn total_actions(&self) -> (r: u64)
        ensures
            r == self.spec_total_actions(),
    {
        self.total_actions
    }

    /// Relative path currently being processed.
    pub fn current_path(&self) -> (r: &str)
        ensures
            r@ == self.spec_current_path(),
    {
        self.current_path.as_str()
    }

    /// Bytes copied for the currently executing file.
    pub fn current_bytes(&self) -> (r: u64)
        ensures
            r == self.spec_current_bytes(),
    {
        self.current_bytes
    }

    /// Total size of the current file when known.
    pub fn current_total_bytes(&self) -> (r: Option<u64>)
        ensures
            r == self.spec_current_total_bytes(),
    {
        self.current_total_bytes
    }

    /// Action-level progress in thousandths; an empty plan is complete.
    pub fn permille(&self) -> (r: Option<u16>)
        ensures
            self.spec_total_actions() == 0 ==> r == Some(1000u16),
            self.spec_total_actions() > 0 ==> (r matches Some(v) && v as int == scaled_permille(
                self.spec_completed_actions(),
                self.spec_total_actions(),
            ) && v <= 1000),
    {
        if self.total_actions == 0 {
            return Some(1000);
        }
        proof {
            lemma_permille_at_most_one_thousand(self.completed_actions, self.total_actions);
        }
        permille_of(self.completed_actions, self.total_actions)
    }
}

/// Summary of work performed by a synchronization execution.
#[derive(Clone, Copy, Debug, PartialEq, Eq, Structural)]
pub struct SyncExecutionReport {
    /// Files copied or replaced.
    pub files_copied: u64,
    /// Directories created.
    pub directories_created: u64,
    /// Destination entries removed.
    pub entries_removed: u64,
    /// Plan actions intentionally skipped.
    pub skipped: u64,
    /// Payload bytes copied when reported by the transfer layer.
    pub bytes_copied: u64,
}

impl Default for SyncExecutionReport {
    fn default() -> (r: Self)
        ensures
            r.files_copied == 0,
            r.directories_created == 0,
            r.entries_removed == 0,
            r.skipped == 0,
            r.bytes_copied == 0,
    {
        SyncExecutionReport { files_copied: 0, directories_created: 0, entries_removed: 0, skipped: 0, bytes_copied: 0 }
    }
}

/// Terminal execution result.
#[derive(Clone, Copy, Debug, PartialEq, Eq, Structural)]
pub enum SyncExecutionOutcome {
    /// Every executable plan action completed.
    Completed(SyncExecutionReport),
    /// Cooperative cancellation was observed.
    Cancelled(SyncExecutionReport),
}

/// Policy used when an immutable sync plan contains type conflicts.
#[derive(Clone, Copy, Debug, PartialEq, Eq, Structural)]
pub enum ConflictPolicy {
    /// Refuse execution until the caller resolves conflicts.
    Fail,
    /// Preserve the destination object and count the conflict as skipped.
    Skip,
    /// Replace the conflicting destination tree with the source object.
    Replace,
}

impl Default for ConflictPolicy {
    fn default() -> (r: Self)
        ensures
            r == ConflictPolicy::Fail,
    {
        ConflictPolicy::Fail
    }
}

/// Synchronization execution failure.
#[derive(Debug)]
pub enum SyncExecutionError {
    /// A backend operation failed.
    Backend(BackendError),
    /// A transfer operation failed.
    Transfer(ExecutionError),
    /// Safe staging or finalization failed.
    Reliability(ReliabilityError),
    /// The immutable plan contains a conflict that requires a decision.
    Conflict {
        /// Relative path requiring a decision.
        path: String,
    },
    /// A plan action was missing a source or destination endpoint.
    MissingEndpoint {
        /// Relative path of the malformed action.
        path: String,
        /// Endpoint that was required.
        endpoint: &'static str,
    },
    /// The plan contains more actions than the execution counter can represent.
    TooManyActions,
}

/// Saturating increment.
pub open spec fn bump(n: u64, by: u64) -> u64 {
    if n + by > u64::MAX { u64::MAX } else { (n + by) as u64 }
}

/// Maps transfer snapshots of the current action to plan progress.
pub struct ActionProgress<'a> {
    /// Actions completed before the current one.
    pub completed_actions: u64,
    /// Total actions.
    pub total_actions: u64,
    /// Relative path of the current action.
    pub current_path: &'a str,
}

impl<'a> ActionProgress<'a> {
    /// Whether `out` reports the current action with the given byte counters.
    pub open spec fn reports(&self, bytes: u64, total: Option<u64>, out: SyncExecutionProgress) -> bool {
        &&& out.spec_completed_actions() == self.completed_actions
        &&& out.spec_total_actions() == self.total_actions
        &&& out.spec_current_path() == self.current_path@
        &&& out.spec_current_bytes() == bytes
        &&& out.spec_current_total_bytes() == total
    }
}

impl<'a> FileProgressMap<SyncExecutionProgress> for ActionProgress<'a> {
    open spec fn maps_file(&self, progress: TransferProgress, out: SyncExecutionProgress) -> bool {
        self.reports(progress.spec_bytes_copied(), progress.spec_total_bytes(), out)
    }

    fn map_file(&self, progress: TransferProgress) -> SyncExecutionProgress {
        SyncExecutionProgress::snapshot(
            self.completed_actions,
            self.total_actions,
            self.current_path,
            progress.bytes_copied(),
            progress.total_bytes(),
        )
    }
}

impl<'a> TreeProgressMap<SyncExecutionProgress> for ActionProgress<'a> {
    open spec fn maps_tree(&self, progress: TreeTransferProgress, out: SyncExecutionProgress) -> bool {
        self.reports(progress.spec_bytes_copied(), progress.spec_total_bytes(), out)
    }

    fn map_tree(&self, progress: TreeTransferProgress) -> SyncExecutionProgress {
        SyncExecutionProgress::snapshot(
            self.completed_actions,
            self.total_actions,
            self.current_path,
            progress.bytes_copied(),
            progress.total_bytes(),
        )
    }
}

#[derive(Clone, Copy, Debug, PartialEq, Eq, Structural)]
enum ActionOutcome {
    Completed,
    Cancelled,
}

fn required_source(action: &SyncAction) -> (r: Result<&BackendPath, SyncExecutionError>)
    ensures
        r is Ok <==> action.source is Some,
        r matches Ok(p) ==> action@.source == Some(p@),
        r matches Err(e) ==> (e matches SyncExecutionError::MissingEndpoint { path, endpoint } && path@
            == action@.relative && endpoint@ == "source"@),
{
    match &action.source {
        Some(p) => Ok(p),
        None => Err(
            SyncExecutionError::MissingEndpoint { path: action.relative_path.clone(), endpoint: "source" },
        ),
    }
}

fn required_destination(action: &SyncAction) -> (r: Result<&BackendPath, SyncExecutionError>)
    ensures
        r is Ok <==> action.destination is Some,
        r matches Ok(p) ==> action@.destination == Some(p@),
        r matches Err(e) ==> (e matches SyncExecutionError::MissingEndpoint { path, endpoint } && path@
            == action@.relative && endpoint@ == "destination"@),
{
    match &action.destination {
        Some(p) => Ok(p),
        None => Err(
            SyncExecutionError::MissingEndpoint {
                path: action.relative_path.clone(),
                endpoint: "destination",
            },
        ),
    }
}

/// Removes one object; whether it existed.
fn remove_if_present<B: Backend>(backend: &B, path: &BackendPath) -> (r: Result<bool, SyncExecutionError>)
    ensures
        r matches Err(e) ==> (e matches SyncExecutionError::Backend(b) && b.spec_kind() != ErrorKind::NotFound),
{
    match removal(backend.remove(path)) {
        Ok(removed) => Ok(removed),
        Err(error) => Err(SyncExecutionError::Backend(error)),
    }
}

/// How one successfully completed action changes the report counters.
pub open spec fn completed_step(
    a: SyncExecutionReport,
    b: SyncExecutionReport,
    kind: SyncActionKind,
    policy: ConflictPolicy,
) -> bool {
    match kind {
        SyncActionKind::CreateDirectory => b.directories_created == bump(a.directories_created, 1)
            && b.files_copied == a.files_copied && b.skipped == a.skipped && b.entries_removed
            == a.entries_removed,
        SyncActionKind::CopyFile => b.files_copied == bump(a.files_copied, 1) && b.directories_created
            == a.directories_created && b.skipped == a.skipped && b.entries_removed == a.entries_removed,
        SyncActionKind::RemoveFile | SyncActionKind::RemoveDirectory => (b.entries_removed
            == a.entries_removed || b.entries_removed == bump(a.entries_removed, 1)) && b.files_copied
            == a.files_copied && b.directories_created == a.directories_created && b.skipped == a.skipped
            && b.bytes_copied == a.bytes_copied,
        SyncActionKind::Conflict => policy != ConflictPolicy::Fail && (policy == ConflictPolicy::Skip ==> (
        b.skipped == bump(a.skipped, 1) && b.files_copied == a.files_copied && b.directories_created
            == a.directories_created && b.entries_removed == a.entries_removed && b.bytes_copied
            == a.bytes_copied)) && (policy == ConflictPolicy::Replace ==> b.skipped == a.skipped),
        SyncActionKind::Skip => b.skipped == bump(a.skipped, 1) && b.files_copied == a.files_copied
            && b.directories_created == a.directories_created && b.entries_removed == a.entries_removed
            && b.bytes_copied == a.bytes_copied,
    }
}

/// The action counters of two reports agree (bytes may differ).
pub open spec fn same_counts(a: SyncExecutionReport, b: SyncExecutionReport) -> bool {
    &&& b.files_copied == a.files_copied
    &&& b.directories_created == a.directories_created
    &&& b.entries_removed == a.entries_removed
    &&& b.skipped == a.skipped
}

/// Copies one file through the reliability layer.
fn execute_copy_action<S: Backend, D: Backend, F: FnMut(SyncExecutionProgress)>(
    action: &SyncAction,
    source: &S,
    destination: &D,
    cancellation: &CancellationToken,
    completed_actions: u64,
    total_actions: u64,
    report: &mut SyncExecutionReport,
    on_progress: &mut F,
) -> (r: Result<ActionOutcome, SyncExecutionError>)
    requires
        forall|p: SyncExecutionProgress| call_requires(*old(on_progress), (p,)),
    ensures
        forall|p: SyncExecutionProgress| call_requires(*final(on_progress), (p,)),
        r matches Ok(ActionOutcome::Completed) ==> final(report).files_copied == bump(old(report).files_copied, 1)
            && final(report).directories_created == old(report).directories_created
            && final(report).skipped == old(report).skipped && final(report).entries_removed
            == old(report).entries_removed,
        r matches Err(SyncExecutionError::MissingEndpoint { path, .. }) ==> path@ == action@.relative,
        action.source is None ==> (r matches Err(SyncExecutionError::MissingEndpoint { endpoint, .. })
            && endpoint@ == "source"@),
        action.source is Some && action.destination is None ==> (r matches Err(
            SyncExecutionError::MissingEndpoint { endpoint, .. },
        ) && endpoint@ == "destination"@),
        r matches Ok(ActionOutcome::Cancelled) ==> same_counts(*old(report), *final(report)),
        r matches Err(SyncExecutionError::MissingEndpoint { .. }) ==> action.source is None
            || action.destination is None,
        !(r matches Err(SyncExecutionError::Conflict { .. })),
        !(r matches Err(SyncExecutionError::TooManyActions)),
{
    let source_path = match required_source(action) {
        Ok(p) => p.clone(),
        Err(e) => return Err(e),
    };
    let destination_path = match required_destination(action) {
        Ok(p) => p.clone(),
        Err(e) => return Err(e),
    };
    let transfer_id = match TransferId::new(completed_actions.saturating_add(1)) {
        Ok(id) => id,
        Err(e) => return Err(SyncExecutionError::Transfer(ExecutionError::Lifecycle(e))),
    };
    let map = ActionProgress {
        completed_actions,
        total_actions,
        current_path: action.relative_path.as_str(),
    };
    let request = ReliableFileRequest::<S, D, NoJournal> {
        id: transfer_id,
        source_endpoint: Endpoint { backend: source.id().clone(), path: source_path },
        destination_endpoint: Endpoint { backend: destination.id().clone(), path: destination_path },
        source,
        destination,
        cancellation,
        recovery_journal: None,
    };
    let outcome = match execute_file_reliable_request_with::<S, D, NoJournal, SyncExecutionProgress, ActionProgress, F>(
        request,
        &map,
        on_progress,
    ) {
        Ok(o) => o,
        Err(e) => return Err(SyncExecutionError::Reliability(e)),
    };
    match outcome {
        ReliableTransferOutcome::Completed(file_report) => {
            report.files_copied = report.files_copied.saturating_add(1);
            report.bytes_copied = report.bytes_copied.saturating_add(file_report.bytes_copied());
            Ok(ActionOutcome::Completed)
        },
        ReliableTransferOutcome::Cancelled { bytes_copied } => {
            report.bytes_copied = report.bytes_copied.saturating_add(bytes_copied);
            Ok(ActionOutcome::Cancelled)
        },
    }
}

/// Replaces a conflicting destination tree with the source object.
fn replace_conflict<S: Backend, D: Backend, F: FnMut(SyncExecutionProgress)>(
    action: &SyncAction,
    source: &S,
    destination: &D,
    cancellation: &CancellationToken,
    completed_actions: u64,
    total_actions: u64,
    report: &mut SyncExecutionReport,
    on_progress: &mut F,
) -> (r: Result<ActionOutcome, SyncExecutionError>)
    requires
        forall|p: SyncExecutionProgress| call_requires(*old(on_progress), (p,)),
    ensures
        forall|p: SyncExecutionProgress| call_requires(*final(on_progress), (p,)),
        final(report).skipped == old(report).skipped,
        r matches Err(SyncExecutionError::MissingEndpoint { path, .. }) ==> path@ == action@.relative,
        action.source is None ==> (r matches Err(SyncExecutionError::MissingEndpoint { endpoint, .. })
            && endpoint@ == "source"@),
        action.source is Some && action.destination is None ==> (r matches Err(
            SyncExecutionError::MissingEndpoint { endpoint, .. },
        ) && endpoint@ == "destination"@),
        r matches Ok(ActionOutcome::Cancelled) ==> same_counts(*old(report), *final(report)),
        r matches Err(SyncExecutionError::MissingEndpoint { .. }) ==> action.source is None
            || action.destination is None,
        !(r matches Err(SyncExecutionError::Conflict { .. })),
        !(r matches Err(SyncExecutionError::TooManyActions)),
{
    let source_path = match required_source(action) {
        Ok(p) => p.clone(),
        Err(e) => return Err(e),
    };
    let destination_path = match required_destination(action) {
        Ok(p) => p.clone(),
        Err(e) => return Err(e),
    };
    let transfer_id = match TransferId::new(completed_actions.saturating_add(1)) {
        Ok(id) => id,
        Err(e) => return Err(SyncExecutionError::Transfer(ExecutionError::Lifecycle(e))),
    };
    let spec = TransferSpec {
        source: Endpoint { backend: source.id().clone(), path: source_path },
        destination: Endpoint { backend: destination.id().clone(), path: destination_path },
    };
    let map = ActionProgress {
        completed_actions,
        total_actions,
        current_path: action.relative_path.as_str(),
    };
    let request = ReliableTreeRequest::<S, D, NoJournal> {
        id: transfer_id,
        spec: &spec,
        source,
        destination,
        cancellation,
        replace_existing: true,
        recovery_journal: None,
    };
    let outcome = match execute_tree_reliable_request_with::<S, D, NoJournal, SyncExecutionProgress, ActionProgress, F>(
        &request,
        &map,
        on_progress,
    ) {
        Ok(o) => o,
        Err(e) => return Err(SyncExecutionError::Reliability(e)),
    };
    match outcome {
        ReliableTreeOutcome::Completed(tree_report) => {
            report.files_copied = report.files_copied.saturating_add(tree_report.transfer.files_copied());
            report.directories_created = report.directories_created.saturating_add(
                tree_report.transfer.directories_created(),
            );
            report.bytes_copied = report.bytes_copied.saturating_add(tree_report.transfer.bytes_copied());
            if tree_report.replaced_existing {
                report.entries_removed = report.entries_removed.saturating_add(1);
            }
            Ok(ActionOutcome::Completed)
        },
        ReliableTreeOutcome::Cancelled(tree_report) => {
            report.bytes_copied = report.bytes_copied.saturating_add(tree_report.bytes_copied());
            Ok(ActionOutcome::Cancelled)
        },
    }
}

/// Executes one plan action.
fn execute_action<S: Backend, D: Backend, F: FnMut(SyncExecutionProgress)>(
    action: &SyncAction,
    source: &S,
    destination: &D,
    cancellation: &CancellationToken,
    completed_actions: u64,
    total_actions: u64,
    conflict_policy: ConflictPolicy,
    report: &mut SyncExecutionReport,
    on_progress: &mut F,
) -> (r: Result<ActionOutcome, SyncExecutionError>)
    requires
        forall|p: SyncExecutionProgress| call_requires(*old(on_progress), (p,)),
    ensures
        forall|p: SyncExecutionProgress| call_requires(*final(on_progress), (p,)),
        r matches Ok(ActionOutcome::Completed) ==> completed_step(*old(report), *final(report), action@.kind, conflict_policy),
        r matches Err(SyncExecutionError::Conflict { path }) ==> action@.kind == SyncActionKind::Conflict
            && conflict_policy == ConflictPolicy::Fail && path@ == action@.relative,
        action@.kind == SyncActionKind::Conflict && conflict_policy == ConflictPolicy::Fail ==> r matches Err(SyncExecutionError::Conflict { .. }),
        action@.kind == SyncActionKind::Skip || (action@.kind == SyncActionKind::Conflict && conflict_policy
            == ConflictPolicy::Skip) ==> r == Ok::<ActionOutcome, SyncExecutionError>(ActionOutcome::Completed),
        r matches Ok(ActionOutcome::Cancelled) ==> same_counts(*old(report), *final(report)),
        r matches Err(SyncExecutionError::MissingEndpoint { path, .. }) ==> path@ == action@.relative,
        !(r matches Err(SyncExecutionError::TooManyActions)),
{
    match action.kind {
        SyncActionKind::CreateDirectory => {
            let path = match required_destination(action) {
                Ok(p) => p,
                Err(e) => return Err(e),
            };
            match destination.create_dir(path) {
                Ok(()) => {},
                Err(e) => return Err(SyncExecutionError::Backend(e)),
            }
            report.directories_created = report.directories_created.saturating_add(1);
            Ok(ActionOutcome::Completed)
        },
        SyncActionKind::CopyFile => execute_copy_action(
            action,
            source,
            destination,
            cancellation,
            completed_actions,
            total_actions,
            report,
            on_progress,
        ),
        SyncActionKind::RemoveFile | SyncActionKind::RemoveDirectory => {
            let path = match required_destination(action) {
                Ok(p) => p,
                Err(e) => return Err(e),
            };
            let removed = match remove_if_present(destination, path) {
                Ok(b) => b,
                Err(e) => return Err(e),
            };
            if removed {
                report.entries_removed = report.entries_removed.saturating_add(1);
            }
            Ok(ActionOutcome::Completed)
        },
        SyncActionKind::Conflict => match conflict_policy {
            ConflictPolicy::Fail => Err(SyncExecutionError::Conflict { path: action.relative_path.clone() }),
            ConflictPolicy::Skip => {
                report.skipped = report.skipped.saturating_add(1);
                Ok(ActionOutcome::Completed)
            },
            ConflictPolicy::Replace => replace_conflict(
                action,
                source,
                destination,
                cancellation,
                completed_actions,
                total_actions,
                report,
                on_progress,
            ),
        },
        SyncActionKind::Skip => {
            report.skipped = report.skipped.saturating_add(1);
            Ok(ActionOutcome::Completed)
        },
    }
}

/// What a report says of the executed actions: exact counts of created
/// directories, copied files and skips (unless conflicts are replaced, which
/// copies whole trees), at most one removal per removal action, and no
/// conflicts at all under the failing policy.
pub open spec fn report_matches(report: SyncExecutionReport, done: Seq<ActionView>, policy: ConflictPolicy) -> bool {
    &&& policy != ConflictPolicy::Replace ==> report.directories_created == capped(
        count_kind(done, SyncActionKind::CreateDirectory),
    )
    &&& policy != ConflictPolicy::Replace ==> report.files_copied == capped(count_kind(done, SyncActionKind::CopyFile))
    &&& policy != ConflictPolicy::Replace ==> report.entries_removed <= capped(
        count_kind(done, SyncActionKind::RemoveFile) + count_kind(done, SyncActionKind::RemoveDirectory),
    )
    &&& report.skipped == capped(
        count_kind(done, SyncActionKind::Skip) + if policy == ConflictPolicy::Skip {
            count_kind(done, SyncActionKind::Conflict)
        } else {
            0
        },
    )
    &&& policy == ConflictPolicy::Fail ==> count_kind(done, SyncActionKind::Conflict) == 0
}

proof fn lemma_report_step(
    a: SyncExecutionReport,
    b: SyncExecutionReport,
    done: Seq<ActionView>,
    next: ActionView,
    policy: ConflictPolicy,
)
    requires
        report_matches(a, done, policy),
        completed_step(a, b, next.kind, policy),
    ensures
        report_matches(b, done.push(next), policy),
{
    let s = done.push(next);
    assert(s.drop_last() =~= done);
    assert(s.last() == next);
}

/// Executes an immutable synchronization plan, refusing conflicts.
pub fn execute_plan<S: Backend, D: Backend, F: FnMut(SyncExecutionProgress)>(
    plan: &SyncPlan,
    source: &S,
    destination: &D,
    cancellation: &CancellationToken,
    on_progress: F,
) -> (r: Result<SyncExecutionOutcome, SyncExecutionError>)
    requires
        forall|p: SyncExecutionProgress| call_requires(on_progress, (p,)),
    ensures
        r matches Ok(SyncExecutionOutcome::Completed(report)) ==> report_matches(
            report,
            plan.spec_actions(),
            ConflictPolicy::Fail,
        ),
        r matches Err(SyncExecutionError::Conflict { path }) ==> exists|i: int|
            0 <= i < plan.spec_actions().len() && (#[trigger] plan.spec_actions()[i]).kind
                == SyncActionKind::Conflict && plan.spec_actions()[i].relative == path@,
        plan.spec_actions().len() == 0 ==> (r matches Ok(SyncExecutionOutcome::Completed(report)) && report
            == (SyncExecutionReport { files_copied: 0, directories_created: 0, entries_removed: 0, skipped: 0, bytes_copied: 0 })),
        r matches Ok(SyncExecutionOutcome::Cancelled(report)) ==> exists|k: int|
            0 <= k <= plan.spec_actions().len() && report_matches(
                report,
                #[trigger] plan.spec_actions().subrange(0, k),
                ConflictPolicy::Fail,
            ),
        only_skips(plan.spec_actions(), ConflictPolicy::Fail) ==> r is Ok,
{
    execute_plan_with_conflicts(plan, source, destination, cancellation, ConflictPolicy::Fail, on_progress)
}

/// What a sync run does before its next action, from whether cancellation
/// was requested: stop with the report so far, or go on.
pub fn stop_before_action(cancelled: bool, report: SyncExecutionReport) -> (r: Option<SyncExecutionOutcome>)
    ensures
        cancelled ==> r == Some(SyncExecutionOutcome::Cancelled(report)),
        !cancelled ==> r is None,
{
    if cancelled {
        Some(SyncExecutionOutcome::Cancelled(report))
    } else {
        None
    }
}

/// Every action is one that the policy settles without touching a backend:
/// a skip, or a conflict under the skipping policy.
pub open spec fn only_skips(actions: Seq<ActionView>, policy: ConflictPolicy) -> bool {
    forall|i: int|
        0 <= i < actions.len() ==> (#[trigger] actions[i]).kind == SyncActionKind::Skip || (actions[i].kind
            == SyncActionKind::Conflict && policy == ConflictPolicy::Skip)
}

/// Executes an immutable plan with an explicit type-conflict policy.
///
/// Cancellation is checked before every action and throughout staged file
/// transfer; after each completed action the progress callback receives the
/// number of actions done.
pub fn execute_plan_with_conflicts<S: Backend, D: Backend, F: FnMut(SyncExecutionProgress)>(
    plan: &SyncPlan,
    source: &S,
    destination: &D,
    cancellation: &CancellationToken,
    conflict_policy: ConflictPolicy,
    on_progress: F,
) -> (r: Result<SyncExecutionOutcome, SyncExecutionError>)
    requires
        forall|p: SyncExecutionProgress| call_requires(on_progress, (p,)),
    ensures
        r matches Ok(SyncExecutionOutcome::Completed(report)) ==> report_matches(
            report,
            plan.spec_actions(),
            conflict_policy,
        ),
        r matches Err(SyncExecutionError::Conflict { path }) ==> conflict_policy == ConflictPolicy::Fail
            && exists|i: int|
            0 <= i < plan.spec_actions().len() && (#[trigger] plan.spec_actions()[i]).kind
                == SyncActionKind::Conflict && plan.spec_actions()[i].relative == path@,
        r matches Err(SyncExecutionError::MissingEndpoint { path, .. }) ==> exists|i: int|
            0 <= i < plan.spec_actions().len() && (#[trigger] plan.spec_actions()[i]).relative == path@,
        !(r matches Err(SyncExecutionError::TooManyActions)),
        plan.spec_actions().len() == 0 ==> (r matches Ok(SyncExecutionOutcome::Completed(report)) && report
            == (SyncExecutionReport { files_copied: 0, directories_created: 0, entries_removed: 0, skipped: 0, bytes_copied: 0 })),
        r matches Ok(SyncExecutionOutcome::Cancelled(report)) ==> exists|k: int|
            0 <= k <= plan.spec_actions().len() && report_matches(
                report,
                #[trigger] plan.spec_actions().subrange(0, k),
                conflict_policy,
            ),
        only_skips(plan.spec_actions(), conflict_policy) ==> r is Ok,
{
    let mut on_progress = on_progress;
    let actions = plan.actions();
    let ghost s = actions_view(actions@);
    let n = actions.len();
    assert(n <= u64::MAX) by {
        assert(n <= usize::MAX);
    }
    let total_actions = n as u64;
    let mut report = SyncExecutionReport::default();
    let mut index: usize = 0;
    proof {
        assert(s.subrange(0, 0) =~= Seq::<ActionView>::empty());
    }
    while index < n
        invariant
            n == actions@.len(),
            s == actions_view(actions@),
            s == plan.spec_actions(),
            total_actions == n,
            index <= n,
            report_matches(report, s.subrange(0, index as int), conflict_policy),
            n == 0 ==> report == (SyncExecutionReport { files_copied: 0, directories_created: 0, entries_removed: 0, skipped: 0, bytes_copied: 0 }),
            forall|p: SyncExecutionProgress| call_requires(on_progress, (p,)),
        decreases n - index,
    {
        match stop_before_action(cancellation.is_cancelled(), report) {
            Some(outcome) => {
                proof {
                    assert(report_matches(report, s.subrange(0, index as int), conflict_policy));
                }
                return Ok(outcome);
            },
            None => {},
        }
        let completed_actions = index as u64;
        let action = &actions[index];
        let ghost before = report;
        let outcome = match execute_action(
            action,
            source,
            destination,
            cancellation,
            completed_actions,
            total_actions,
            conflict_policy,
            &mut report,
            &mut on_progress,
        ) {
            Ok(o) => o,
            Err(e) => {
                proof {
                    assert(s[index as int] == action@);
                }
                return Err(e);
            },
        };
        if outcome == ActionOutcome::Cancelled {
            proof {
                assert(report_matches(report, s.subrange(0, index as int), conflict_policy));
            }
            return Ok(SyncExecutionOutcome::Cancelled(report));
        }
        proof {
            assert(s[index as int] == action@);
            lemma_report_step(before, report, s.subrange(0, index as int), s[index as int], conflict_policy);
            assert(s.subrange(0, index + 1) =~= s.subrange(0, index as int).push(s[index as int]));
        }
        on_progress(
            SyncExecutionProgress::snapshot(
                completed_actions.saturating_add(1),
                total_actions,
                action.relative_path.as_str(),
                0,
                None,
            ),
        );
        index = index + 1;
    }
    proof {
        assert(s.subrange(0, n as int) =~= s);
    }
    Ok(SyncExecutionOutcome::Completed(report))
}

} // verus!
