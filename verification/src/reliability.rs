//! Crash-resistant transfer finalization.
//!
//! Payload bytes are first written to an operation-owned sibling path, verified
//! by the transfer layer, then finalized with backend renames. An existing
//! destination is moved to an operation-owned backup and restored if
//! finalization fails. With a recovery journal, each phase is durably recorded
//! before the mutation that could leave an ambiguous state behind.

use vstd::prelude::*;
use crate::backend::{Backend, BackendError, ErrorKind, presence, removal};
use crate::cancel::CancellationToken;
use crate::domain::{BackendPath, CapabilitySupport};
use crate::file_ops::remove_tree_if_present as remove_tree_report_if_present;
use crate::job::{Endpoint, TransferSpec};
use crate::messages::{
    backend_error_text, recursive_error_text, decimal, decimal_text, describe_backend_error, describe_recursive_error, describe_sweep_error,
};
use crate::recovery::{JournalStore, RecoveryEntry, RecoveryJournal, RecoveryPhase, RecoverySweepError, recover_journal};
use crate::text::{owned, concat2};
use crate::transfer::{
    ControlledTransferOutcome, ExecutionError, FileProgressIdentity, FileProgressMap, TransferId,
    TransferJob, TransferProgress, execute_file_controlled_with,
};
use crate::tree::{
    RecursiveError, TreeProgressIdentity, TreeProgressMap, TreeTransferOutcome, TreeTransferProgress,
    TreeTransferReport, execute_tree_controlled_with,
};

verus! {

/// Report produced by a safely finalized file replacement.
#[derive(Clone, Copy, Debug, PartialEq, Eq, Structural)]
pub struct ReliableTransferReport {
    bytes_copied: u64,
    replaced_existing: bool,
}

impl ReliableTransferReport {
    /// Payload bytes copied into the staged object.
    pub closed spec fn spec_bytes_copied(self) -> u64 {
        self.bytes_copied
    }

    /// Whether an existing destination was replaced.
    pub closed spec fn spec_replaced_existing(self) -> bool {
        self.replaced_existing
    }

    /// Returns payload bytes copied into the staged object.
    pub fn bytes_copied(self) -> (r: u64)
        ensures
            r == self.spec_bytes_copied(),
    {
        self.bytes_copied
    }

    /// Returns whether an existing destination was replaced.
    pub fn replaced_existing(self) -> (r: bool)
        ensures
            r == self.spec_replaced_existing(),
    {
        self.replaced_existing
    }
}

/// Terminal result of a reliable file transfer.
#[derive(Clone, Copy, Debug, PartialEq, Eq, Structural)]
pub enum ReliableTransferOutcome {
    /// Staging, verification, and finalization completed.
    Completed(ReliableTransferReport),
    /// Cancellation occurred before the finalization transaction began.
    Cancelled {
        /// Payload bytes written before cancellation was observed.
        bytes_copied: u64,
    },
}

/// Failure produced by the reliability layer.
#[derive(Debug)]
pub enum ReliabilityError {
    /// Destination backend cannot provide the atomic rename finalization needs.
    AtomicRenameUnsupported,
    /// An operation-owned stage or backup path already exists.
    SidecarCollision {
        /// Existing path that prevented safe execution.
        path: BackendPath,
    },
    /// Durable recovery-journal storage or replay failed.
    RecoveryJournal {
        /// Journal location.
        path: String,
        /// Journal diagnostic.
        message: String,
    },
    /// Payload transfer or verification failed.
    Transfer(ExecutionError),
    /// Recursive file-or-tree transfer failed.
    Recursive(RecursiveError),
    /// A backend operation failed outside the payload transfer.
    Backend(BackendError),
    /// Finalization failed and restoring the original destination also failed.
    RecoveryFailed {
        /// Finalization failure text.
        finalize: String,
        /// Recovery failure text.
        recovery: String,
    },
    /// Finalization succeeded but removing the operation-owned backup failed.
    BackupCleanupFailed {
        /// Backup left behind for manual recovery.
        path: BackendPath,
        /// Backend diagnostic.
        message: String,
    },
}

/// Text of an operation-owned sidecar path: `{destination}.cyber-pumpkin-{role}-{id}`.
pub open spec fn sidecar_text(destination: Seq<char>, role: Seq<char>, id: u64) -> Seq<char> {
    destination + ".cyber-pumpkin-"@ + role + "-"@ + decimal_text(id as nat)
}

/// Operation-owned sibling path for one role (`stage`, `backup`, `tree-backup`).
pub fn sidecar_path(destination: &BackendPath, role: &str, id: TransferId) -> (r: Result<
    BackendPath,
    ReliabilityError,
>)
    ensures
        r matches Ok(p) && p@ == sidecar_text(destination@, role@, id.spec_get()),
{
    let base = destination.as_str();
    let mut text = owned(base);
    text.append(".cyber-pumpkin-");
    text.append(role);
    text.append("-");
    let digits = decimal(id.get());
    text.append(digits.as_str());
    match BackendPath::from_string(text) {
        Ok(p) => Ok(p),
        Err(e) => Err(
            ReliabilityError::Backend(
                BackendError::new(
                    ErrorKind::InvalidInput,
                    "construct safe-transfer sidecar",
                    Some(destination.clone()),
                    e.message(),
                ),
            ),
        ),
    }
}

fn journal_error<J: JournalStore>(store: &J, message: String) -> (r: ReliabilityError)
    ensures
        r matches ReliabilityError::RecoveryJournal { message: m, .. } && m@ == message@,
{
    ReliabilityError::RecoveryJournal { path: store.location(), message }
}

/// Replays whatever an earlier run left in the journal before a new transaction.
fn recover_pending_journal<B: Backend, J: JournalStore>(backend: &B, store: &J) -> (r: Result<
    (),
    ReliabilityError,
>)
    ensures
        r matches Err(e) ==> e is RecoveryJournal,
{
    match recover_journal(backend, store) {
        Ok(_) => Ok(()),
        Err(error) => Err(journal_error(store, describe_sweep_error(&error))),
    }
}

/// Durably records the entry (inserted or replacing the operation's entry).
fn persist_recovery_entry<J: JournalStore>(store: &J, entry: &RecoveryEntry) -> (r: Result<
    (),
    ReliabilityError,
>)
    ensures
        r matches Err(e) ==> e is RecoveryJournal,
{
    let mut journal = match store.load() {
        Ok(j) => j,
        Err(message) => return Err(journal_error(store, message)),
    };
    journal.upsert(entry.clone());
    match store.save(&journal) {
        Ok(()) => Ok(()),
        Err(message) => Err(journal_error(store, message)),
    }
}

/// Durably removes the operation's entries, discarding an emptied journal.
fn clear_recovery_entry<J: JournalStore>(store: &J, operation_id: u64) -> (r: Result<
    (),
    ReliabilityError,
>)
    ensures
        r matches Err(e) ==> e is RecoveryJournal,
{
    let mut journal = match store.load() {
        Ok(j) => j,
        Err(message) => return Err(journal_error(store, message)),
    };
    journal.remove(operation_id);
    match journal.save_or_remove(store) {
        Ok(()) => Ok(()),
        Err(message) => Err(journal_error(store, message)),
    }
}

/// What a sidecar's metadata lookup means before a replacement starts: an
/// existing sidecar is a collision, an absent one clears the way, and any
/// other failure stops the replacement.
pub fn sidecar_collision(path: &BackendPath, present: Result<bool, BackendError>) -> (r: Result<(), ReliabilityError>)
    ensures
        present == Ok::<bool, BackendError>(true) ==> (r matches Err(ReliabilityError::SidecarCollision { path: p })
            && p@ == path@),
        present == Ok::<bool, BackendError>(false) ==> r is Ok,
        present matches Err(e) ==> r == Err::<(), ReliabilityError>(ReliabilityError::Backend(e)),
{
    match present {
        Ok(true) => Err(ReliabilityError::SidecarCollision { path: path.clone() }),
        Ok(false) => Ok(()),
        Err(error) => Err(ReliabilityError::Backend(error)),
    }
}

/// The error a failed final rename ends in: with the original restored from
/// its backup, the rename's own failure; otherwise both failures together.
pub fn finalize_failure(finalize_error: BackendError, restore: Result<(), BackendError>) -> (r: ReliabilityError)
    ensures
        restore is Ok ==> r == ReliabilityError::Backend(finalize_error),
        restore matches Err(re) ==> (r matches ReliabilityError::RecoveryFailed { finalize, recovery }
            && finalize@ == backend_error_text(finalize_error) && recovery@ == backend_error_text(re)),
{
    match restore {
        Ok(()) => ReliabilityError::Backend(finalize_error),
        Err(recovery_error) => ReliabilityError::RecoveryFailed {
            finalize: describe_backend_error(&finalize_error),
            recovery: describe_backend_error(&recovery_error),
        },
    }
}

/// What removing the backup after a committed replacement means: the
/// replacement stands either way, but a backup left behind is reported.
pub fn backup_cleanup_outcome(backup: &BackendPath, removed: Result<(), BackendError>) -> (r: Result<(), ReliabilityError>)
    ensures
        removed is Ok ==> r is Ok,
        removed matches Err(e) ==> (r matches Err(ReliabilityError::BackupCleanupFailed { path, message })
            && path@ == backup@ && message@ == backend_error_text(e)),
{
    match removed {
        Ok(()) => Ok(()),
        Err(error) => Err(
            ReliabilityError::BackupCleanupFailed { path: backup.clone(), message: describe_backend_error(&error) },
        ),
    }
}

/// The error a failed tree copy ends in: with the destination put back as it
/// was, the copy's own failure; otherwise both failures together.
pub fn tree_failure(error: RecursiveError, recovery: Result<(), BackendError>) -> (r: ReliabilityError)
    ensures
        recovery is Ok ==> r == ReliabilityError::Recursive(error),
        recovery matches Err(re) ==> (r matches ReliabilityError::RecoveryFailed { finalize, recovery }
            && finalize@ == recursive_error_text(error) && recovery@ == backend_error_text(re)),
{
    match recovery {
        Ok(()) => ReliabilityError::Recursive(error),
        Err(recovery_error) => {
            let finalize = describe_recursive_error(&error);
            ReliabilityError::RecoveryFailed { finalize, recovery: describe_backend_error(&recovery_error) }
        },
    }
}

/// How a reliable tree copy proceeds once the destination's presence is
/// known.
#[derive(Clone, Copy, Debug, PartialEq, Eq, Structural)]
pub enum TreeRoute {
    /// Copy into the absent destination.
    CopyNew,
    /// Move the existing destination to a backup and copy in its place.
    Replace,
    /// The destination exists and replacing it was not asked for.
    Refuse,
}

/// Chooses how a reliable tree copy proceeds.
pub fn tree_route(destination_exists: bool, replace_existing: bool) -> (r: TreeRoute)
    ensures
        !destination_exists ==> r == TreeRoute::CopyNew,
        destination_exists && replace_existing ==> r == TreeRoute::Replace,
        destination_exists && !replace_existing ==> r == TreeRoute::Refuse,
{
    if !destination_exists {
        TreeRoute::CopyNew
    } else if replace_existing {
        TreeRoute::Replace
    } else {
        TreeRoute::Refuse
    }
}

/// Fails when an operation-owned sidecar already exists.
fn ensure_absent<B: Backend>(backend: &B, path: &BackendPath) -> (r: Result<(), ReliabilityError>)
    ensures
        r matches Err(e) ==> ((e matches ReliabilityError::SidecarCollision { path: p } && p@ == path@)
            || (e matches ReliabilityError::Backend(b) && b.spec_kind() != ErrorKind::NotFound)),
{
    sidecar_collision(path, presence(backend.stat(path)))
}

/// Removes one object; an absent object is not a failure.
fn remove_if_present<B: Backend>(backend: &B, path: &BackendPath) -> (r: Result<(), ReliabilityError>)
    ensures
        r matches Err(e) ==> (e matches ReliabilityError::Backend(b) && b.spec_kind() != ErrorKind::NotFound),
{
    match removal(backend.remove(path)) {
        Ok(_) => Ok(()),
        Err(error) => Err(ReliabilityError::Backend(error)),
    }
}

/// Removes a file or tree if present.
fn remove_tree_if_present<B: Backend>(backend: &B, path: &BackendPath) -> Result<(), BackendError> {
    match remove_tree_report_if_present(backend, path) {
        Ok(_) => Ok(()),
        Err(e) => Err(e),
    }
}

/// Whether the destination exists; only a not-found failure means absent.
fn destination_present<B: Backend>(backend: &B, path: &BackendPath) -> (r: Result<bool, ReliabilityError>)
    ensures
        r matches Err(e) ==> (e matches ReliabilityError::Backend(b) && b.spec_kind() != ErrorKind::NotFound),
{
    match presence(backend.stat(path)) {
        Ok(present) => Ok(present),
        Err(error) => Err(ReliabilityError::Backend(error)),
    }
}

/// Storage for callers that keep no recovery journal; nothing is ever stored.
pub struct NoJournal;

impl JournalStore for NoJournal {
    fn location(&self) -> String {
        String::new()
    }

    fn load(&self) -> (r: Result<RecoveryJournal, String>)
        ensures
            r matches Ok(journal) && journal.version == 1 && journal.entries@.len() == 0,
    {
        Ok(RecoveryJournal::default())
    }

    fn save(&self, journal: &RecoveryJournal) -> Result<(), String> {
        Ok(())
    }

    fn discard(&self) -> Result<(), String> {
        Ok(())
    }
}

/// Moves the verified stage into place, backing up and restoring an existing
/// destination around the final rename.
///
/// Without an existing destination the stage is renamed directly. Otherwise
/// `BackupMoved` is recorded, the destination moves to the backup, the stage
/// moves to the destination (on failure the backup is renamed back), then
/// `Finalized` is recorded and the backup removed.
fn finalize_stage<D: Backend, J: JournalStore>(
    destination: &D,
    stage: &BackendPath,
    final_path: &BackendPath,
    backup: &BackendPath,
    destination_exists: bool,
    recovery_journal: Option<&J>,
    recovery_entry: &mut RecoveryEntry,
) -> (r: Result<(), ReliabilityError>)
    ensures
        final(recovery_entry).operation_id == old(recovery_entry).operation_id,
        final(recovery_entry)@.destination == old(recovery_entry)@.destination,
        final(recovery_entry)@.stage == old(recovery_entry)@.stage,
        final(recovery_entry)@.backup == old(recovery_entry)@.backup,
        r is Ok && recovery_journal is Some ==> final(recovery_entry).phase == RecoveryPhase::Finalized,
        r matches Err(ReliabilityError::BackupCleanupFailed { path, .. }) ==> destination_exists
            && path@ == backup@,
        r matches Err(ReliabilityError::RecoveryFailed { .. }) ==> destination_exists,
        r matches Err(ReliabilityError::RecoveryJournal { .. }) ==> recovery_journal is Some,
        !(r matches Err(ReliabilityError::SidecarCollision { .. })),
        !(r matches Err(ReliabilityError::AtomicRenameUnsupported)),
{
    if !destination_exists {
        match destination.rename(stage, final_path) {
            Ok(()) => {},
            Err(error) => {
                let _cleanup = remove_if_present(destination, stage);
                return Err(ReliabilityError::Backend(error));
            },
        }
        if let Some(store) = recovery_journal {
            recovery_entry.phase = RecoveryPhase::Finalized;
            match persist_recovery_entry(store, recovery_entry) {
                Ok(()) => {},
                Err(e) => return Err(e),
            }
            match clear_recovery_entry(store, recovery_entry.operation_id) {
                Ok(()) => {},
                Err(e) => return Err(e),
            }
        }
        return Ok(());
    }
    if let Some(store) = recovery_journal {
        recovery_entry.phase = RecoveryPhase::BackupMoved;
        match persist_recovery_entry(store, recovery_entry) {
            Ok(()) => {},
            Err(e) => return Err(e),
        }
    }
    match destination.rename(final_path, backup) {
        Ok(()) => {},
        Err(e) => return Err(ReliabilityError::Backend(e)),
    }
    match destination.rename(stage, final_path) {
        Ok(()) => {},
        Err(finalize_error) => {
            let recovery = destination.rename(backup, final_path);
            let cleanup_succeeded = remove_if_present(destination, stage).is_ok();
            if recovery.is_ok() && cleanup_succeeded {
                if let Some(store) = recovery_journal {
                    match clear_recovery_entry(store, recovery_entry.operation_id) {
                        Ok(()) => {},
                        Err(e) => return Err(e),
                    }
                }
            }
            return Err(finalize_failure(finalize_error, recovery));
        },
    }
    if let Some(store) = recovery_journal {
        recovery_entry.phase = RecoveryPhase::Finalized;
        match persist_recovery_entry(store, recovery_entry) {
            Ok(()) => {},
            Err(e) => return Err(e),
        }
    }
    match backup_cleanup_outcome(backup, destination.remove(backup)) {
        Ok(()) => {},
        Err(e) => return Err(e),
    }
    if let Some(store) = recovery_journal {
        match clear_recovery_entry(store, recovery_entry.operation_id) {
            Ok(()) => {},
            Err(e) => return Err(e),
        }
    }
    Ok(())
}

/// Request for a reliable regular-file transfer.
///
/// `recovery_journal` should be unique to the live transaction; when present,
/// durable phase records are written before the mutations that could otherwise
/// leave an ambiguous replacement after a process failure.
pub struct ReliableFileRequest<'a, S, D, J> {
    /// Stable transfer identifier.
    pub id: TransferId,
    /// Source endpoint.
    pub source_endpoint: Endpoint,
    /// Final destination endpoint.
    pub destination_endpoint: Endpoint,
    /// Source backend.
    pub source: &'a S,
    /// Destination backend.
    pub destination: &'a D,
    /// Cooperative cancellation token.
    pub cancellation: &'a CancellationToken,
    /// Optional durable recovery journal.
    pub recovery_journal: Option<&'a J>,
}

/// Copies one regular file through an operation-owned stage and safely
/// finalizes it over the requested destination, without a recovery journal.
pub fn execute_file_reliable<S: Backend, D: Backend, F: FnMut(TransferProgress)>(
    id: TransferId,
    source_endpoint: Endpoint,
    destination_endpoint: Endpoint,
    source: &S,
    destination: &D,
    cancellation: &CancellationToken,
    on_progress: F,
) -> (r: Result<ReliableTransferOutcome, ReliabilityError>)
    requires
        forall|p: TransferProgress| call_requires(on_progress, (p,)),
    ensures
        destination.spec_capabilities().atomic_rename != CapabilitySupport::Supported ==> (r matches Err(
            ReliabilityError::AtomicRenameUnsupported,
        )),
        r is Ok ==> destination.spec_capabilities().atomic_rename == CapabilitySupport::Supported,
        !(r matches Err(ReliabilityError::RecoveryJournal { .. })),
        r matches Err(ReliabilityError::SidecarCollision { path }) ==> (path@ == sidecar_text(
            destination_endpoint.path@,
            "stage"@,
            id.spec_get(),
        ) || path@ == sidecar_text(destination_endpoint.path@, "backup"@, id.spec_get())),
{
    let ghost final_text = destination_endpoint.path@;
    execute_file_reliable_request::<S, D, NoJournal, F>(
        ReliableFileRequest {
            id,
            source_endpoint,
            destination_endpoint,
            source,
            destination,
            cancellation,
            recovery_journal: None,
        },
        on_progress,
    )
}

/// Executes a regular-file replacement with optional durable recovery phases.
///
/// A journal left by an earlier run at the same place is first recovered
/// against the destination backend. The stage and backup sidecars must be
/// absent. The staged copy is finalized only if cancellation was not
/// requested; a cancelled stage is removed and its journal entry cleared.
pub fn execute_file_reliable_request<S: Backend, D: Backend, J: JournalStore, F: FnMut(TransferProgress)>(
    request: ReliableFileRequest<'_, S, D, J>,
    on_progress: F,
) -> (r: Result<ReliableTransferOutcome, ReliabilityError>)
    requires
        forall|p: TransferProgress| call_requires(on_progress, (p,)),
    ensures
        request.recovery_journal is None && request.destination.spec_capabilities().atomic_rename
            != CapabilitySupport::Supported ==> (r matches Err(ReliabilityError::AtomicRenameUnsupported)),
        r matches Err(ReliabilityError::AtomicRenameUnsupported) ==> request.destination.spec_capabilities().atomic_rename
            != CapabilitySupport::Supported,
        r is Ok ==> request.destination.spec_capabilities().atomic_rename == CapabilitySupport::Supported,
        r matches Err(ReliabilityError::RecoveryJournal { .. }) ==> request.recovery_journal is Some,
        r matches Err(ReliabilityError::SidecarCollision { path }) ==> (path@ == sidecar_text(
            request.destination_endpoint.path@,
            "stage"@,
            request.id.spec_get(),
        ) || path@ == sidecar_text(request.destination_endpoint.path@, "backup"@, request.id.spec_get())),
{
    let mut on_progress = on_progress;
    execute_file_reliable_request_with::<S, D, J, TransferProgress, FileProgressIdentity, F>(
        request,
        &FileProgressIdentity,
        &mut on_progress,
    )
}

/// Reliable file replacement reporting progress through a mapping of file snapshots.
pub fn execute_file_reliable_request_with<S: Backend, D: Backend, J: JournalStore, O, M: FileProgressMap<O>, F: FnMut(O)>(
    request: ReliableFileRequest<'_, S, D, J>,
    map: &M,
    on_progress: &mut F,
) -> (r: Result<ReliableTransferOutcome, ReliabilityError>)
    requires
        forall|p: O| call_requires(*old(on_progress), (p,)),
    ensures
        forall|p: O| call_requires(*final(on_progress), (p,)),
        request.recovery_journal is None && request.destination.spec_capabilities().atomic_rename
            != CapabilitySupport::Supported ==> (r matches Err(ReliabilityError::AtomicRenameUnsupported)),
        r matches Err(ReliabilityError::AtomicRenameUnsupported) ==> request.destination.spec_capabilities().atomic_rename
            != CapabilitySupport::Supported,
        r is Ok ==> request.destination.spec_capabilities().atomic_rename == CapabilitySupport::Supported,
        r matches Err(ReliabilityError::RecoveryJournal { .. }) ==> request.recovery_journal is Some,
        r matches Err(ReliabilityError::SidecarCollision { path }) ==> (path@ == sidecar_text(
            request.destination_endpoint.path@,
            "stage"@,
            request.id.spec_get(),
        ) || path@ == sidecar_text(request.destination_endpoint.path@, "backup"@, request.id.spec_get())),
{
    let ReliableFileRequest {
        id,
        source_endpoint,
        destination_endpoint,
        source,
        destination,
        cancellation,
        recovery_journal,
    } = request;

    if let Some(store) = recovery_journal {
        match recover_pending_journal(destination, store) {
            Ok(()) => {},
            Err(e) => return Err(e),
        }
    }
    if destination.capabilities().atomic_rename != CapabilitySupport::Supported {
        return Err(ReliabilityError::AtomicRenameUnsupported);
    }
    let final_path = destination_endpoint.path.clone();
    let stage_path = match sidecar_path(&final_path, "stage", id) {
        Ok(p) => p,
        Err(e) => return Err(e),
    };
    let backup_path = match sidecar_path(&final_path, "backup", id) {
        Ok(p) => p,
        Err(e) => return Err(e),
    };
    match ensure_absent(destination, &stage_path) {
        Ok(()) => {},
        Err(e) => return Err(e),
    }
    match ensure_absent(destination, &backup_path) {
        Ok(()) => {},
        Err(e) => return Err(e),
    }
    let destination_exists = match destination_present(destination, &final_path) {
        Ok(b) => b,
        Err(e) => return Err(e),
    };
    let mut recovery_entry = RecoveryEntry {
        operation_id: id.get(),
        destination: owned(final_path.as_str()),
        stage: Some(owned(stage_path.as_str())),
        backup: if destination_exists {
            Some(owned(backup_path.as_str()))
        } else {
            None
        },
        phase: RecoveryPhase::Staging,
    };
    if let Some(store) = recovery_journal {
        match persist_recovery_entry(store, &recovery_entry) {
            Ok(()) => {},
            Err(e) => return Err(e),
        }
    }
    let stage_spec = TransferSpec {
        source: source_endpoint,
        destination: Endpoint { backend: destination_endpoint.backend, path: stage_path.clone() },
    };
    let mut job = TransferJob::new(id, stage_spec);
    let staged = match execute_file_controlled_with::<S, D, O, M, F>(
        &mut job,
        source,
        destination,
        cancellation,
        map,
        on_progress,
    ) {
        Ok(outcome) => outcome,
        Err(e) => return Err(ReliabilityError::Transfer(e)),
    };
    let bytes_copied = match staged {
        ControlledTransferOutcome::Completed(report) => report.bytes_copied(),
        ControlledTransferOutcome::Cancelled { bytes_copied } => {
            match remove_if_present(destination, &stage_path) {
                Ok(()) => {},
                Err(e) => return Err(e),
            }
            if let Some(store) = recovery_journal {
                match clear_recovery_entry(store, id.get()) {
                    Ok(()) => {},
                    Err(e) => return Err(e),
                }
            }
            return Ok(ReliableTransferOutcome::Cancelled { bytes_copied });
        },
    };
    if cancellation.is_cancelled() {
        match remove_if_present(destination, &stage_path) {
            Ok(()) => {},
            Err(e) => return Err(e),
        }
        if let Some(store) = recovery_journal {
            match clear_recovery_entry(store, id.get()) {
                Ok(()) => {},
                Err(e) => return Err(e),
            }
        }
        return Ok(ReliableTransferOutcome::Cancelled { bytes_copied });
    }
    match finalize_stage(
        destination,
        &stage_path,
        &final_path,
        &backup_path,
        destination_exists,
        recovery_journal,
        &mut recovery_entry,
    ) {
        Ok(()) => {},
        Err(e) => return Err(e),
    }
    Ok(
        ReliableTransferOutcome::Completed(
            ReliableTransferReport { bytes_copied, replaced_existing: destination_exists },
        ),
    )
}

/// Report produced by a reliable file-or-directory-tree copy.
#[derive(Clone, Copy, Debug, PartialEq, Eq, Structural)]
pub struct ReliableTreeReport {
    /// Aggregate transfer report.
    pub transfer: TreeTransferReport,
    /// Whether a pre-existing destination was replaced.
    pub replaced_existing: bool,
}

/// Terminal outcome of a reliable tree transfer.
#[derive(Clone, Copy, Debug, PartialEq, Eq, Structural)]
pub enum ReliableTreeOutcome {
    /// Transfer and finalization completed.
    Completed(ReliableTreeReport),
    /// Cancellation was observed and any original destination was restored.
    Cancelled(TreeTransferReport),
}

/// Request for a reliable file-or-directory-tree transfer.
pub struct ReliableTreeRequest<'a, S, D, J> {
    /// Stable transfer identifier.
    pub id: TransferId,
    /// Source/destination transfer specification.
    pub spec: &'a TransferSpec,
    /// Source backend.
    pub source: &'a S,
    /// Destination backend.
    pub destination: &'a D,
    /// Cooperative cancellation token.
    pub cancellation: &'a CancellationToken,
    /// Whether an existing destination may be replaced.
    pub replace_existing: bool,
    /// Optional durable recovery journal unique to this transaction.
    pub recovery_journal: Option<&'a J>,
}

/// Executes a file or directory-tree copy while preserving an existing
/// destination across failure and cancellation, without a recovery journal.
pub fn execute_tree_reliable<S: Backend, D: Backend, F: FnMut(TreeTransferProgress)>(
    id: TransferId,
    spec: &TransferSpec,
    source: &S,
    destination: &D,
    cancellation: &CancellationToken,
    replace_existing: bool,
    on_progress: F,
) -> (r: Result<ReliableTreeOutcome, ReliabilityError>)
    requires
        forall|p: TreeTransferProgress| call_requires(on_progress, (p,)),
    ensures
        r matches Ok(ReliableTreeOutcome::Completed(report)) ==> (report.replaced_existing ==> replace_existing),
        r matches Err(ReliabilityError::AtomicRenameUnsupported) ==> replace_existing
            && destination.spec_capabilities().atomic_rename != CapabilitySupport::Supported,
        !(r matches Err(ReliabilityError::RecoveryJournal { .. })),
{
    let request = ReliableTreeRequest::<S, D, NoJournal> {
        id,
        spec,
        source,
        destination,
        cancellation,
        replace_existing,
        recovery_journal: None,
    };
    execute_tree_reliable_request(&request, on_progress)
}

/// Executes a tree transfer with optional durable recovery phases.
///
/// An existing destination is an error unless replacement is allowed. For a
/// replacement, `BackupMoved` is recorded before the original is renamed away
/// and `Finalized` only after the new tree completes, before the backup is
/// removed; recovery therefore rolls back anything not durably finalized.
pub fn execute_tree_reliable_request<S: Backend, D: Backend, J: JournalStore, F: FnMut(TreeTransferProgress)>(
    request: &ReliableTreeRequest<'_, S, D, J>,
    on_progress: F,
) -> (r: Result<ReliableTreeOutcome, ReliabilityError>)
    requires
        forall|p: TreeTransferProgress| call_requires(on_progress, (p,)),
    ensures
        r matches Ok(ReliableTreeOutcome::Completed(report)) ==> (report.replaced_existing
            ==> request.replace_existing && request.destination.spec_capabilities().atomic_rename
            == CapabilitySupport::Supported),
        r matches Err(ReliabilityError::AtomicRenameUnsupported) ==> request.replace_existing
            && request.destination.spec_capabilities().atomic_rename != CapabilitySupport::Supported,
        r matches Err(ReliabilityError::RecoveryJournal { .. }) ==> request.recovery_journal is Some,
        r matches Err(ReliabilityError::SidecarCollision { path }) ==> request.replace_existing
            && path@ == sidecar_text(request.spec.destination.path@, "tree-backup"@, request.id.spec_get()),
{
    let mut on_progress = on_progress;
    execute_tree_reliable_request_with::<S, D, J, TreeTransferProgress, TreeProgressIdentity, F>(
        request,
        &TreeProgressIdentity,
        &mut on_progress,
    )
}

/// Reliable tree transfer reporting progress through a mapping of tree snapshots.
pub fn execute_tree_reliable_request_with<S: Backend, D: Backend, J: JournalStore, O, T: TreeProgressMap<O>, F: FnMut(O)>(
    request: &ReliableTreeRequest<'_, S, D, J>,
    map: &T,
    on_progress: &mut F,
) -> (r: Result<ReliableTreeOutcome, ReliabilityError>)
    requires
        forall|p: O| call_requires(*old(on_progress), (p,)),
    ensures
        forall|p: O| call_requires(*final(on_progress), (p,)),
        r matches Ok(ReliableTreeOutcome::Completed(report)) ==> (report.replaced_existing
            ==> request.replace_existing && request.destination.spec_capabilities().atomic_rename
            == CapabilitySupport::Supported),
        r matches Err(ReliabilityError::AtomicRenameUnsupported) ==> request.replace_existing
            && request.destination.spec_capabilities().atomic_rename != CapabilitySupport::Supported,
        r matches Err(ReliabilityError::RecoveryJournal { .. }) ==> request.recovery_journal is Some,
        r matches Err(ReliabilityError::SidecarCollision { path }) ==> request.replace_existing
            && path@ == sidecar_text(request.spec.destination.path@, "tree-backup"@, request.id.spec_get()),
{
    if let Some(store) = request.recovery_journal {
        match recover_pending_journal(request.destination, store) {
            Ok(()) => {},
            Err(e) => return Err(e),
        }
    }
    let final_path = &request.spec.destination.path;
    let destination_exists = match destination_present(request.destination, final_path) {
        Ok(b) => b,
        Err(e) => return Err(e),
    };
    match tree_route(destination_exists, request.replace_existing) {
        TreeRoute::Refuse => Err(ReliabilityError::Recursive(RecursiveError::DestinationExists(final_path.clone()))),
        TreeRoute::CopyNew => execute_new_tree_reliable(request, map, on_progress),
        TreeRoute::Replace => execute_replacing_tree_reliable(request, map, on_progress),
    }
}

fn map_tree_outcome(outcome: TreeTransferOutcome) -> (r: ReliableTreeOutcome)
    ensures
        r matches ReliableTreeOutcome::Completed(report) ==> !report.replaced_existing,
{
    match outcome {
        TreeTransferOutcome::Completed(report) => ReliableTreeOutcome::Completed(
            ReliableTreeReport { transfer: report, replaced_existing: false },
        ),
        TreeTransferOutcome::Cancelled(report) => ReliableTreeOutcome::Cancelled(report),
    }
}

/// Copies into an absent destination; with a journal, the new tree is the
/// stage, so an interrupted run is removed by recovery.
fn execute_new_tree_reliable<S: Backend, D: Backend, J: JournalStore, O, T: TreeProgressMap<O>, F: FnMut(O)>(
    request: &ReliableTreeRequest<'_, S, D, J>,
    map: &T,
    on_progress: &mut F,
) -> (r: Result<ReliableTreeOutcome, ReliabilityError>)
    requires
        forall|p: O| call_requires(*old(on_progress), (p,)),
    ensures
        forall|p: O| call_requires(*final(on_progress), (p,)),
        r matches Ok(ReliableTreeOutcome::Completed(report)) ==> !report.replaced_existing,
        r matches Err(ReliabilityError::RecoveryJournal { .. }) ==> request.recovery_journal is Some,
        !(r matches Err(ReliabilityError::AtomicRenameUnsupported)),
        !(r matches Err(ReliabilityError::SidecarCollision { .. })),
{
    let store = match request.recovery_journal {
        Some(store) => store,
        None => {
            return match execute_tree_controlled_with::<S, D, O, T, F>(
                request.spec,
                request.source,
                request.destination,
                request.cancellation,
                map,
                on_progress,
            ) {
                Ok(outcome) => Ok(map_tree_outcome(outcome)),
                Err(e) => Err(ReliabilityError::Recursive(e)),
            };
        },
    };
    let final_path = &request.spec.destination.path;
    let mut recovery_entry = RecoveryEntry {
        operation_id: request.id.get(),
        destination: owned(final_path.as_str()),
        stage: Some(owned(final_path.as_str())),
        backup: None,
        phase: RecoveryPhase::Staging,
    };
    match persist_recovery_entry(store, &recovery_entry) {
        Ok(()) => {},
        Err(e) => return Err(e),
    }
    match execute_tree_controlled_with::<S, D, O, T, F>(
        request.spec,
        request.source,
        request.destination,
        request.cancellation,
        map,
        on_progress,
    ) {
        Ok(TreeTransferOutcome::Completed(report)) => {
            recovery_entry.phase = RecoveryPhase::Finalized;
            match persist_recovery_entry(store, &recovery_entry) {
                Ok(()) => {},
                Err(e) => return Err(e),
            }
            match clear_recovery_entry(store, request.id.get()) {
                Ok(()) => {},
                Err(e) => return Err(e),
            }
            Ok(ReliableTreeOutcome::Completed(ReliableTreeReport { transfer: report, replaced_existing: false }))
        },
        Ok(TreeTransferOutcome::Cancelled(report)) => {
            match remove_tree_if_present(request.destination, final_path) {
                Ok(()) => {},
                Err(e) => return Err(ReliabilityError::Backend(e)),
            }
            match clear_recovery_entry(store, request.id.get()) {
                Ok(()) => {},
                Err(e) => return Err(e),
            }
            Ok(ReliableTreeOutcome::Cancelled(report))
        },
        Err(error) => recover_failed_new_tree(request, store, error),
    }
}

/// Removes whatever a failed new-tree copy left and reports the copy failure.
fn recover_failed_new_tree<S: Backend, D: Backend, J: JournalStore>(
    request: &ReliableTreeRequest<'_, S, D, J>,
    store: &J,
    error: RecursiveError,
) -> (r: Result<ReliableTreeOutcome, ReliabilityError>)
    ensures
        r is Err,
        r matches Err(e) ==> (e is Recursive || e is RecoveryFailed || e is RecoveryJournal),
{
    let final_path = &request.spec.destination.path;
    let recovery = remove_tree_if_present(request.destination, final_path);
    if recovery.is_ok() {
        match clear_recovery_entry(store, request.id.get()) {
            Ok(()) => {},
            Err(e) => return Err(e),
        }
    }
    Err(tree_failure(error, recovery))
}

/// Replaces an existing destination: the original moves to a backup, the new
/// tree is copied, then the backup is removed (or restored on failure and
/// cancellation).
fn execute_replacing_tree_reliable<S: Backend, D: Backend, J: JournalStore, O, T: TreeProgressMap<O>, F: FnMut(O)>(
    request: &ReliableTreeRequest<'_, S, D, J>,
    map: &T,
    on_progress: &mut F,
) -> (r: Result<ReliableTreeOutcome, ReliabilityError>)
    requires
        forall|p: O| call_requires(*old(on_progress), (p,)),
    ensures
        forall|p: O| call_requires(*final(on_progress), (p,)),
        r is Ok ==> request.destination.spec_capabilities().atomic_rename == CapabilitySupport::Supported,
        r matches Err(ReliabilityError::AtomicRenameUnsupported) ==> request.destination.spec_capabilities().atomic_rename
            != CapabilitySupport::Supported,
        r matches Err(ReliabilityError::RecoveryJournal { .. }) ==> request.recovery_journal is Some,
        r matches Err(ReliabilityError::SidecarCollision { path }) ==> path@ == sidecar_text(
            request.spec.destination.path@,
            "tree-backup"@,
            request.id.spec_get(),
        ),
{
    if request.destination.capabilities().atomic_rename != CapabilitySupport::Supported {
        return Err(ReliabilityError::AtomicRenameUnsupported);
    }
    let final_path = &request.spec.destination.path;
    let backup_path = match sidecar_path(final_path, "tree-backup", request.id) {
        Ok(p) => p,
        Err(e) => return Err(e),
    };
    match ensure_absent(request.destination, &backup_path) {
        Ok(()) => {},
        Err(e) => return Err(e),
    }
    let mut recovery_entry = RecoveryEntry {
        operation_id: request.id.get(),
        destination: owned(final_path.as_str()),
        stage: None,
        backup: Some(owned(backup_path.as_str())),
        phase: RecoveryPhase::BackupMoved,
    };
    if let Some(store) = request.recovery_journal {
        match persist_recovery_entry(store, &recovery_entry) {
            Ok(()) => {},
            Err(e) => return Err(e),
        }
    }
    match request.destination.rename(final_path, &backup_path) {
        Ok(()) => {},
        Err(e) => return Err(ReliabilityError::Backend(e)),
    }
    match execute_tree_controlled_with::<S, D, O, T, F>(
        request.spec,
        request.source,
        request.destination,
        request.cancellation,
        map,
        on_progress,
    ) {
        Ok(TreeTransferOutcome::Completed(report)) => complete_replacing_tree(
            request,
            &backup_path,
            &mut recovery_entry,
            report,
        ),
        Ok(TreeTransferOutcome::Cancelled(report)) => {
            match restore_tree_backup(request.destination, final_path, &backup_path) {
                Ok(()) => {},
                Err(e) => return Err(ReliabilityError::Backend(e)),
            }
            if let Some(store) = request.recovery_journal {
                match clear_recovery_entry(store, request.id.get()) {
                    Ok(()) => {},
                    Err(e) => return Err(e),
                }
            }
            Ok(ReliableTreeOutcome::Cancelled(report))
        },
        Err(error) => recover_failed_replacing_tree(request, &backup_path, error),
    }
}

/// Records `Finalized`, removes the backup, and clears the journal entry.
fn complete_replacing_tree<S: Backend, D: Backend, J: JournalStore>(
    request: &ReliableTreeRequest<'_, S, D, J>,
    backup_path: &BackendPath,
    recovery_entry: &mut RecoveryEntry,
    report: TreeTransferReport,
) -> (r: Result<ReliableTreeOutcome, ReliabilityError>)
    ensures
        r matches Ok(o) ==> o == ReliableTreeOutcome::Completed(
            ReliableTreeReport { transfer: report, replaced_existing: true },
        ),
        r matches Ok(_) && request.recovery_journal is Some ==> final(recovery_entry).phase
            == RecoveryPhase::Finalized,
        r matches Err(e) ==> ((e matches ReliabilityError::BackupCleanupFailed { path, .. } && path@
            == backup_path@) || (e is RecoveryJournal && request.recovery_journal is Some)),
{
    if let Some(store) = request.recovery_journal {
        recovery_entry.phase = RecoveryPhase::Finalized;
        match persist_recovery_entry(store, recovery_entry) {
            Ok(()) => {},
            Err(e) => return Err(e),
        }
    }
    match backup_cleanup_outcome(backup_path, remove_tree_if_present(request.destination, backup_path)) {
        Ok(()) => {},
        Err(e) => return Err(e),
    }
    if let Some(store) = request.recovery_journal {
        match clear_recovery_entry(store, request.id.get()) {
            Ok(()) => {},
            Err(e) => return Err(e),
        }
    }
    Ok(ReliableTreeOutcome::Completed(ReliableTreeReport { transfer: report, replaced_existing: true }))
}

/// Restores the original after a failed replacement copy.
fn recover_failed_replacing_tree<S: Backend, D: Backend, J: JournalStore>(
    request: &ReliableTreeRequest<'_, S, D, J>,
    backup_path: &BackendPath,
    error: RecursiveError,
) -> (r: Result<ReliableTreeOutcome, ReliabilityError>)
    ensures
        r is Err,
        r matches Err(e) ==> (e is Recursive || e is RecoveryFailed || (e is RecoveryJournal
            && request.recovery_journal is Some)),
{
    let final_path = &request.spec.destination.path;
    let recovery = restore_tree_backup(request.destination, final_path, backup_path);
    if recovery.is_ok() {
        if let Some(store) = request.recovery_journal {
            match clear_recovery_entry(store, request.id.get()) {
                Ok(()) => {},
                Err(e) => return Err(e),
            }
        }
    }
    Err(tree_failure(error, recovery))
}

/// Removes whatever stands at the destination and renames the backup back.
fn restore_tree_backup<B: Backend>(backend: &B, final_path: &BackendPath, backup_path: &BackendPath) -> Result<
    (),
    BackendError,
> {
    match remove_tree_if_present(backend, final_path) {
        Ok(()) => {},
        Err(e) => return Err(e),
    }
    backend.rename(backup_path, final_path)
}

} // verus!
