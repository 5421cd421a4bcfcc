//! User-facing descriptions of failures, built from their parts.

use vstd::prelude::*;
use crate::backend::BackendError;
use crate::domain::EntryKind;
use crate::recovery::RecoverySweepError;
use crate::reliability::ReliabilityError;
use crate::text::{concat2, owned};
use crate::transfer::{ExecutionError, TransferError, TransferState};
use crate::tree::RecursiveError;
use crate::decisions::{DecisionChoice, DecisionError};
use crate::operations::{OperationError, OperationState};
use crate::remote_edit::RemoteEditError;
use crate::runtime::{CopyRuntimeError, RetryPolicyError};
use crate::scheduler::SchedulerError;
use crate::sync::SyncExecutionError;
use crate::sync_plan::SyncPlanError;

verus! {

/// The decimal digit character of a value below ten.
pub open spec fn digit_char(d: nat) -> char {
    if d == 0 { '0' } else if d == 1 { '1' } else if d == 2 { '2' } else if d == 3 { '3' }
    else if d == 4 { '4' } else if d == 5 { '5' } else if d == 6 { '6' } else if d == 7 { '7' }
    else if d == 8 { '8' } else { '9' }
}

/// Decimal notation of a natural number, without leading zeros.
pub open spec fn decimal_text(n: nat) -> Seq<char>
    decreases n,
{
    if n < 10 {
        seq![digit_char(n)]
    } else {
        decimal_text(n / 10).push(digit_char(n % 10))
    }
}

/// Text of one decimal digit.
pub fn digit_text(d: u64) -> (r: &'static str)
    requires
        d < 10,
    ensures
        r@ == seq![digit_char(d as nat)],
{
    proof {
        reveal_strlit("0");
        reveal_strlit("1");
        reveal_strlit("2");
        reveal_strlit("3");
        reveal_strlit("4");
        reveal_strlit("5");
        reveal_strlit("6");
        reveal_strlit("7");
        reveal_strlit("8");
        reveal_strlit("9");
    }
    if d == 0 { "0" } else if d == 1 { "1" } else if d == 2 { "2" } else if d == 3 { "3" }
    else if d == 4 { "4" } else if d == 5 { "5" } else if d == 6 { "6" } else if d == 7 { "7" }
    else if d == 8 { "8" } else { "9" }
}

/// Decimal notation of a number (what `{}` formatting prints).
pub fn decimal(n: u64) -> (r: String)
    ensures
        r@ == decimal_text(n as nat),
    decreases n,
{
    if n < 10 {
        owned(digit_text(n))
    } else {
        let mut s = decimal(n / 10);
        s.append(digit_text(n % 10));
        assert(seq![digit_char((n % 10) as nat)] =~= seq![].push(digit_char((n % 10) as nat)));
        s
    }
}

/// Text of a backend failure: operation, affected path when known, diagnostic.
pub open spec fn backend_error_text(e: BackendError) -> Seq<char> {
    match e.spec_path() {
        Some(p) => e.spec_operation() + " failed for "@ + p + ": "@ + e.spec_message(),
        None => e.spec_operation() + " failed: "@ + e.spec_message(),
    }
}

/// Describes a backend failure.
pub fn describe_backend_error(e: &BackendError) -> (r: String)
    ensures
        r@ == backend_error_text(*e),
{
    let mut out = owned(e.operation());
    match e.path() {
        Some(p) => {
            out.append(" failed for ");
            out.append(p.as_str());
            out.append(": ");
        },
        None => {
            out.append(" failed: ");
        },
    }
    out.append(e.message());
    out
}

/// Debug name of a transfer state.
pub open spec fn state_name(s: TransferState) -> Seq<char> {
    match s {
        TransferState::Queued => "Queued"@,
        TransferState::Connecting => "Connecting"@,
        TransferState::Enumerating => "Enumerating"@,
        TransferState::Transferring => "Transferring"@,
        TransferState::Verifying => "Verifying"@,
        TransferState::RetryWaiting => "RetryWaiting"@,
        TransferState::Paused => "Paused"@,
        TransferState::Completed => "Completed"@,
        TransferState::Failed => "Failed"@,
        TransferState::Cancelled => "Cancelled"@,
    }
}

fn state_label(s: TransferState) -> (r: &'static str)
    ensures
        r@ == state_name(s),
{
    match s {
        TransferState::Queued => "Queued",
        TransferState::Connecting => "Connecting",
        TransferState::Enumerating => "Enumerating",
        TransferState::Transferring => "Transferring",
        TransferState::Verifying => "Verifying",
        TransferState::RetryWaiting => "RetryWaiting",
        TransferState::Paused => "Paused",
        TransferState::Completed => "Completed",
        TransferState::Failed => "Failed",
        TransferState::Cancelled => "Cancelled",
    }
}

/// Debug name of an entry kind.
pub open spec fn kind_debug_name(k: EntryKind) -> Seq<char> {
    match k {
        EntryKind::File => "File"@,
        EntryKind::Directory => "Directory"@,
        EntryKind::Symlink => "Symlink"@,
        EntryKind::Other => "Other"@,
    }
}

fn kind_label(k: EntryKind) -> (r: &'static str)
    ensures
        r@ == kind_debug_name(k),
{
    match k {
        EntryKind::File => "File",
        EntryKind::Directory => "Directory",
        EntryKind::Symlink => "Symlink",
        EntryKind::Other => "Other",
    }
}

/// Text of a lifecycle failure.
pub open spec fn transfer_error_text(e: TransferError) -> Seq<char> {
    match e {
        TransferError::InvalidId => "transfer id zero is reserved"@,
        TransferError::InvalidTransition { from, to } => "invalid transfer transition: "@
            + state_name(from) + " -> "@ + state_name(to),
    }
}

/// Describes a lifecycle failure.
pub fn describe_transfer_error(e: &TransferError) -> (r: String)
    ensures
        r@ == transfer_error_text(*e),
{
    match e {
        TransferError::InvalidId => owned("transfer id zero is reserved"),
        TransferError::InvalidTransition { from, to } => {
            let mut out = owned("invalid transfer transition: ");
            out.append(state_label(*from));
            out.append(" -> ");
            out.append(state_label(*to));
            out
        },
    }
}

/// Text of a single-file execution failure.
pub open spec fn execution_error_text(e: ExecutionError) -> Seq<char> {
    match e {
        ExecutionError::Lifecycle(t) => "transfer lifecycle failed: "@ + transfer_error_text(t),
        ExecutionError::Backend(b) => "backend operation failed: "@ + backend_error_text(b),
        ExecutionError::BackendMismatch { endpoint, expected, actual } => endpoint@
            + " backend mismatch: expected "@ + expected@ + ", got "@ + actual@,
        ExecutionError::SourceNotFile { kind } => "source endpoint is not a regular file: "@
            + kind_debug_name(kind),
        ExecutionError::DestinationExists { path } => "destination already exists: "@ + path@,
        ExecutionError::Stream(m) => "streaming copy failed: "@ + m@,
        ExecutionError::SizeMismatch { copied, destination } => "destination verification failed: copied "@
            + decimal_text(copied as nat) + " bytes, destination reports "@ + decimal_text(
            destination as nat,
        ),
    }
}

/// Describes a single-file execution failure.
pub fn describe_execution_error(e: &ExecutionError) -> (r: String)
    ensures
        r@ == execution_error_text(*e),
{
    match e {
        ExecutionError::Lifecycle(t) => {
            let d = describe_transfer_error(t);
            concat2("transfer lifecycle failed: ", d.as_str())
        },
        ExecutionError::Backend(b) => {
            let d = describe_backend_error(b);
            concat2("backend operation failed: ", d.as_str())
        },
        ExecutionError::BackendMismatch { endpoint, expected, actual } => {
            let mut out = owned(endpoint);
            out.append(" backend mismatch: expected ");
            out.append(expected.as_str());
            out.append(", got ");
            out.append(actual.as_str());
            out
        },
        ExecutionError::SourceNotFile { kind } => concat2(
            "source endpoint is not a regular file: ",
            kind_label(*kind),
        ),
        ExecutionError::DestinationExists { path } => concat2(
            "destination already exists: ",
            path.as_str(),
        ),
        ExecutionError::Stream(m) => concat2("streaming copy failed: ", m.as_str()),
        ExecutionError::SizeMismatch { copied, destination } => {
            let mut out = owned("destination verification failed: copied ");
            let c = decimal(*copied);
            out.append(c.as_str());
            out.append(" bytes, destination reports ");
            let d = decimal(*destination);
            out.append(d.as_str());
            out
        },
    }
}

/// Text of a recursive-transfer failure.
pub open spec fn recursive_error_text(e: RecursiveError) -> Seq<char> {
    match e {
        RecursiveError::Execution(x) => execution_error_text(x),
        RecursiveError::Backend(b) => backend_error_text(b),
        RecursiveError::DestinationExists(p) => "destination already exists: "@ + p@,
        RecursiveError::UnsupportedEntry { path, kind } => "unsupported "@ + kind_debug_name(kind)
            + " entry: "@ + path@,
        RecursiveError::InvalidChildPath(m) => "invalid child path: "@ + m@,
        RecursiveError::Cleanup(m) => "recursive transfer cleanup failed: "@ + m@,
    }
}

/// Describes a recursive-transfer failure.
pub fn describe_recursive_error(e: &RecursiveError) -> (r: String)
    ensures
        r@ == recursive_error_text(*e),
{
    match e {
        RecursiveError::Execution(x) => describe_execution_error(x),
        RecursiveError::Backend(b) => describe_backend_error(b),
        RecursiveError::DestinationExists(p) => concat2("destination already exists: ", p.as_str()),
        RecursiveError::UnsupportedEntry { path, kind } => {
            let mut out = owned("unsupported ");
            out.append(kind_label(*kind));
            out.append(" entry: ");
            out.append(path.as_str());
            out
        },
        RecursiveError::InvalidChildPath(m) => concat2("invalid child path: ", m.as_str()),
        RecursiveError::Cleanup(m) => concat2("recursive transfer cleanup failed: ", m.as_str()),
    }
}

/// Text of a recovery sweep failure.
pub open spec fn sweep_error_text(e: RecoverySweepError) -> Seq<char> {
    match e {
        RecoverySweepError::Io(m) => "recovery journal I/O failed: "@ + m@,
        RecoverySweepError::Backend(b) => "recovery backend action failed: "@ + backend_error_text(b),
    }
}

/// Describes a recovery sweep failure.
pub fn describe_sweep_error(e: &RecoverySweepError) -> (r: String)
    ensures
        r@ == sweep_error_text(*e),
{
    match e {
        RecoverySweepError::Io(m) => concat2("recovery journal I/O failed: ", m.as_str()),
        RecoverySweepError::Backend(b) => {
            let d = describe_backend_error(b);
            concat2("recovery backend action failed: ", d.as_str())
        },
    }
}

/// Text of a reliability failure.
pub open spec fn reliability_error_text(e: ReliabilityError) -> Seq<char> {
    match e {
        ReliabilityError::AtomicRenameUnsupported => "destination backend does not support atomic rename finalization"@,
        ReliabilityError::SidecarCollision { path } => "safe-transfer sidecar already exists: "@ + path@,
        ReliabilityError::RecoveryJournal { path, message } => "recovery journal failed for "@ + path@
            + ": "@ + message@,
        ReliabilityError::Transfer(x) => "staged transfer failed: "@ + execution_error_text(x),
        ReliabilityError::Recursive(x) => "reliable tree transfer failed: "@ + recursive_error_text(x),
        ReliabilityError::Backend(b) => "safe finalization backend failed: "@ + backend_error_text(b),
        ReliabilityError::RecoveryFailed { finalize, recovery } => "safe finalization failed ("@
            + finalize@ + ") and original restore failed ("@ + recovery@ + ")"@,
        ReliabilityError::BackupCleanupFailed { path, message } => "replacement completed but backup cleanup failed for "@
            + path@ + ": "@ + message@,
    }
}

/// Describes a reliability failure.
pub fn describe_reliability_error(e: &ReliabilityError) -> (r: String)
    ensures
        r@ == reliability_error_text(*e),
{
    match e {
        ReliabilityError::AtomicRenameUnsupported => owned(
            "destination backend does not support atomic rename finalization",
        ),
        ReliabilityError::SidecarCollision { path } => concat2(
            "safe-transfer sidecar already exists: ",
            path.as_str(),
        ),
        ReliabilityError::RecoveryJournal { path, message } => {
            let mut out = owned("recovery journal failed for ");
            out.append(path.as_str());
            out.append(": ");
            out.append(message.as_str());
            out
        },
        ReliabilityError::Transfer(x) => {
            let d = describe_execution_error(x);
            concat2("staged transfer failed: ", d.as_str())
        },
        ReliabilityError::Recursive(x) => {
            let d = describe_recursive_error(x);
            concat2("reliable tree transfer failed: ", d.as_str())
        },
        ReliabilityError::Backend(b) => {
            let d = describe_backend_error(b);
            concat2("safe finalization backend failed: ", d.as_str())
        },
        ReliabilityError::RecoveryFailed { finalize, recovery } => {
            let mut out = owned("safe finalization failed (");
            out.append(finalize.as_str());
            out.append(") and original restore failed (");
            out.append(recovery.as_str());
            out.append(")");
            out
        },
        ReliabilityError::BackupCleanupFailed { path, message } => {
            let mut out = owned("replacement completed but backup cleanup failed for ");
            out.append(path.as_str());
            out.append(": ");
            out.append(message.as_str());
            out
        },
    }
}

/// Text of a runtime copy failure.
pub open spec fn copy_runtime_error_text(e: CopyRuntimeError) -> Seq<char> {
    match e {
        CopyRuntimeError::DestinationExists(p) => "destination already exists: "@ + p@,
        CopyRuntimeError::Backend(b) => backend_error_text(b),
        CopyRuntimeError::Reliability(x) => reliability_error_text(x),
        CopyRuntimeError::KeepBothExhausted(p) => "could not generate a free Keep Both name beside "@ + p@,
    }
}

/// Describes a runtime copy failure.
pub fn describe_copy_runtime_error(e: &CopyRuntimeError) -> (r: String)
    ensures
        r@ == copy_runtime_error_text(*e),
{
    match e {
        CopyRuntimeError::DestinationExists(p) => concat2("destination already exists: ", p.as_str()),
        CopyRuntimeError::Backend(b) => describe_backend_error(b),
        CopyRuntimeError::Reliability(x) => describe_reliability_error(x),
        CopyRuntimeError::KeepBothExhausted(p) => concat2(
            "could not generate a free Keep Both name beside ",
            p.as_str(),
        ),
    }
}

/// Text of a planning failure.
pub open spec fn sync_plan_error_text(e: SyncPlanError) -> Seq<char> {
    match e {
        SyncPlanError::Backend(b) => "backend failed during sync planning: "@ + backend_error_text(b),
        SyncPlanError::RootNotDirectory { path, kind } => "sync root "@ + path@ + " is not a directory: "@
            + kind_debug_name(kind),
        SyncPlanError::PathOutsideRoot { root, child } => "path "@ + child@ + " is outside sync root "@ + root@,
    }
}

/// Describes a planning failure.
pub fn describe_sync_plan_error(e: &SyncPlanError) -> (r: String)
    ensures
        r@ == sync_plan_error_text(*e),
{
    match e {
        SyncPlanError::Backend(b) => {
            let d = describe_backend_error(b);
            concat2("backend failed during sync planning: ", d.as_str())
        },
        SyncPlanError::RootNotDirectory { path, kind } => {
            let mut out = concat2("sync root ", path.as_str());
            out.append(" is not a directory: ");
            out.append(kind_label(*kind));
            out
        },
        SyncPlanError::PathOutsideRoot { root, child } => {
            let mut out = concat2("path ", child.as_str());
            out.append(" is outside sync root ");
            out.append(root.as_str());
            out
        },
    }
}

/// Text of a synchronization failure.
pub open spec fn sync_execution_error_text(e: SyncExecutionError) -> Seq<char> {
    match e {
        SyncExecutionError::Backend(b) => "sync backend operation failed: "@ + backend_error_text(b),
        SyncExecutionError::Transfer(x) => "sync transfer failed: "@ + execution_error_text(x),
        SyncExecutionError::Reliability(x) => "sync reliable transfer failed: "@ + reliability_error_text(x),
        SyncExecutionError::Conflict { path } => "sync plan contains unresolved conflict: "@ + path@,
        SyncExecutionError::MissingEndpoint { path, endpoint } => "sync action "@ + path@ + " is missing its "@
            + endpoint@ + " endpoint"@,
        SyncExecutionError::TooManyActions => "sync plan contains too many actions"@,
    }
}

/// Describes a synchronization failure.
pub fn describe_sync_execution_error(e: &SyncExecutionError) -> (r: String)
    ensures
        r@ == sync_execution_error_text(*e),
{
    match e {
        SyncExecutionError::Backend(b) => {
            let d = describe_backend_error(b);
            concat2("sync backend operation failed: ", d.as_str())
        },
        SyncExecutionError::Transfer(x) => {
            let d = describe_execution_error(x);
            concat2("sync transfer failed: ", d.as_str())
        },
        SyncExecutionError::Reliability(x) => {
            let d = describe_reliability_error(x);
            concat2("sync reliable transfer failed: ", d.as_str())
        },
        SyncExecutionError::Conflict { path } => concat2("sync plan contains unresolved conflict: ", path.as_str()),
        SyncExecutionError::MissingEndpoint { path, endpoint } => {
            let mut out = concat2("sync action ", path.as_str());
            out.append(" is missing its ");
            out.append(endpoint);
            out.append(" endpoint");
            out
        },
        SyncExecutionError::TooManyActions => owned("sync plan contains too many actions"),
    }
}

/// Text of a remote-edit failure.
pub open spec fn remote_edit_error_text(e: RemoteEditError) -> Seq<char> {
    match e {
        RemoteEditError::SourceNotFile(kind) => "remote edit requires a file, got "@ + kind_debug_name(kind),
        RemoteEditError::Backend(b) => backend_error_text(b),
        RemoteEditError::Download(x) => "remote-edit download failed: "@ + copy_runtime_error_text(x),
        RemoteEditError::DownloadSkipped => "remote-edit download was skipped"@,
        RemoteEditError::DownloadCancelled => "remote-edit download was cancelled"@,
        RemoteEditError::Upload(m) => "remote-edit upload failed: "@ + m@,
        RemoteEditError::UploadCancelled => "remote-edit upload was cancelled"@,
        RemoteEditError::InvalidWorkspacePath => "remote-edit workspace path is invalid"@,
    }
}

/// Describes a remote-edit failure.
pub fn describe_remote_edit_error(e: &RemoteEditError) -> (r: String)
    ensures
        r@ == remote_edit_error_text(*e),
{
    match e {
        RemoteEditError::SourceNotFile(kind) => concat2("remote edit requires a file, got ", kind_label(*kind)),
        RemoteEditError::Backend(b) => describe_backend_error(b),
        RemoteEditError::Download(x) => {
            let d = describe_copy_runtime_error(x);
            concat2("remote-edit download failed: ", d.as_str())
        },
        RemoteEditError::DownloadSkipped => owned("remote-edit download was skipped"),
        RemoteEditError::DownloadCancelled => owned("remote-edit download was cancelled"),
        RemoteEditError::Upload(m) => concat2("remote-edit upload failed: ", m.as_str()),
        RemoteEditError::UploadCancelled => owned("remote-edit upload was cancelled"),
        RemoteEditError::InvalidWorkspacePath => owned("remote-edit workspace path is invalid"),
    }
}

/// Debug name of an operation state.
pub open spec fn operation_state_name(s: OperationState) -> Seq<char> {
    match s {
        OperationState::Queued => "Queued"@,
        OperationState::Running => "Running"@,
        OperationState::Paused => "Paused"@,
        OperationState::Completed => "Completed"@,
        OperationState::Failed => "Failed"@,
        OperationState::Cancelled => "Cancelled"@,
    }
}

fn operation_state_label(s: OperationState) -> (r: &'static str)
    ensures
        r@ == operation_state_name(s),
{
    match s {
        OperationState::Queued => "Queued",
        OperationState::Running => "Running",
        OperationState::Paused => "Paused",
        OperationState::Completed => "Completed",
        OperationState::Failed => "Failed",
        OperationState::Cancelled => "Cancelled",
    }
}

/// Text of an operation-queue failure.
pub open spec fn operation_error_text(e: OperationError) -> Seq<char> {
    match e {
        OperationError::InvalidId => "operation id zero is reserved"@,
        OperationError::NotFound(id) => "operation "@ + decimal_text(id.spec_get() as nat) + " was not found"@,
        OperationError::UnknownDependency(id) => "dependency "@ + decimal_text(id.spec_get() as nat)
            + " was not found"@,
        OperationError::InvalidTransition { from, to } => "invalid operation transition: "@
            + operation_state_name(from) + " -> "@ + operation_state_name(to),
    }
}

/// Describes an operation-queue failure.
pub fn describe_operation_error(e: OperationError) -> (r: String)
    ensures
        r@ == operation_error_text(e),
{
    match e {
        OperationError::InvalidId => owned("operation id zero is reserved"),
        OperationError::NotFound(id) => {
            let mut out = owned("operation ");
            out.append(decimal(id.get()).as_str());
            out.append(" was not found");
            out
        },
        OperationError::UnknownDependency(id) => {
            let mut out = owned("dependency ");
            out.append(decimal(id.get()).as_str());
            out.append(" was not found");
            out
        },
        OperationError::InvalidTransition { from, to } => {
            let mut out = owned("invalid operation transition: ");
            out.append(operation_state_label(from));
            out.append(" -> ");
            out.append(operation_state_label(to));
            out
        },
    }
}

/// Text of a scheduler failure.
pub open spec fn scheduler_error_text(e: SchedulerError) -> Seq<char> {
    match e {
        SchedulerError::InvalidParallelism(v) => "simultaneous operation count must be 1..=20, got "@ + decimal_text(
            v as nat,
        ),
        SchedulerError::Operation(x) => "operation scheduler failed: "@ + operation_error_text(x),
        SchedulerError::NotActive(id) => "operation "@ + decimal_text(id.spec_get() as nat) + " is not active"@,
    }
}

/// Describes a scheduler failure.
pub fn describe_scheduler_error(e: SchedulerError) -> (r: String)
    ensures
        r@ == scheduler_error_text(e),
{
    match e {
        SchedulerError::InvalidParallelism(v) => concat2(
            "simultaneous operation count must be 1..=20, got ",
            decimal(v as u64).as_str(),
        ),
        SchedulerError::Operation(x) => {
            let d = describe_operation_error(x);
            concat2("operation scheduler failed: ", d.as_str())
        },
        SchedulerError::NotActive(id) => {
            let mut out = owned("operation ");
            out.append(decimal(id.get()).as_str());
            out.append(" is not active");
            out
        },
    }
}

/// Debug name of a decision choice.
pub open spec fn choice_name(c: DecisionChoice) -> Seq<char> {
    match c {
        DecisionChoice::Replace => "Replace"@,
        DecisionChoice::Skip => "Skip"@,
        DecisionChoice::KeepBoth => "KeepBoth"@,
        DecisionChoice::Cancel => "Cancel"@,
        DecisionChoice::TrustOnce => "TrustOnce"@,
        DecisionChoice::TrustAlways => "TrustAlways"@,
        DecisionChoice::Delete => "Delete"@,
        DecisionChoice::Retry => "Retry"@,
    }
}

fn choice_label(c: DecisionChoice) -> (r: &'static str)
    ensures
        r@ == choice_name(c),
{
    match c {
        DecisionChoice::Replace => "Replace",
        DecisionChoice::Skip => "Skip",
        DecisionChoice::KeepBoth => "KeepBoth",
        DecisionChoice::Cancel => "Cancel",
        DecisionChoice::TrustOnce => "TrustOnce",
        DecisionChoice::TrustAlways => "TrustAlways",
        DecisionChoice::Delete => "Delete",
        DecisionChoice::Retry => "Retry",
    }
}

/// Text of a decision failure.
pub open spec fn decision_error_text(e: DecisionError) -> Seq<char> {
    match e {
        DecisionError::InvalidId => "decision id zero is reserved"@,
        DecisionError::NoChoices => "decision request must expose at least one choice"@,
        DecisionError::NotFound(id) => "decision "@ + decimal_text(id.spec_get() as nat) + " was not found"@,
        DecisionError::ChoiceNotAllowed { id, choice } => "choice "@ + choice_name(choice)
            + " is not allowed for decision "@ + decimal_text(id.spec_get() as nat),
    }
}

/// Describes a decision failure.
pub fn describe_decision_error(e: DecisionError) -> (r: String)
    ensures
        r@ == decision_error_text(e),
{
    match e {
        DecisionError::InvalidId => owned("decision id zero is reserved"),
        DecisionError::NoChoices => owned("decision request must expose at least one choice"),
        DecisionError::NotFound(id) => {
            let mut out = owned("decision ");
            out.append(decimal(id.get()).as_str());
            out.append(" was not found");
            out
        },
        DecisionError::ChoiceNotAllowed { id, choice } => {
            let mut out = owned("choice ");
            out.append(choice_label(choice));
            out.append(" is not allowed for decision ");
            out.append(decimal(id.get()).as_str());
            out
        },
    }
}

/// Text of a retry-policy validation failure.
pub open spec fn retry_policy_error_text(e: RetryPolicyError) -> Seq<char> {
    match e {
        RetryPolicyError::InvalidAttempts(a) => "retry attempts must be between 1 and 5, got "@ + decimal_text(a as nat),
        RetryPolicyError::InvalidBackoff { initial_ms, maximum_ms } => "retry backoff requires non-zero initial delay <= maximum delay, got "@
            + decimal_text(initial_ms as nat) + " ms / "@ + decimal_text(maximum_ms as nat) + " ms"@,
    }
}

/// Describes a retry-policy validation failure.
pub fn describe_retry_policy_error(e: RetryPolicyError) -> (r: String)
    ensures
        r@ == retry_policy_error_text(e),
{
    match e {
        RetryPolicyError::InvalidAttempts(a) => concat2(
            "retry attempts must be between 1 and 5, got ",
            decimal(a as u64).as_str(),
        ),
        RetryPolicyError::InvalidBackoff { initial_ms, maximum_ms } => {
            let mut out = owned("retry backoff requires non-zero initial delay <= maximum delay, got ");
            out.append(decimal(initial_ms).as_str());
            out.append(" ms / ");
            out.append(decimal(maximum_ms).as_str());
            out.append(" ms");
            out
        },
    }
}

} // verus!
