use cyber_pumpkin::messages::{
    describe_copy_runtime_error, describe_decision_error, describe_operation_error, describe_remote_edit_error,
    describe_retry_policy_error, describe_scheduler_error, describe_sync_execution_error, describe_sync_plan_error,
};
use cyber_pumpkin::remote_edit::RemoteEditError;
use cyber_pumpkin::runtime::{CopyRuntimeError, RetryPolicyError};
use cyber_pumpkin::sync::SyncExecutionError;
use cyber_pumpkin::sync_plan::SyncPlanError;
use cyber_pumpkin::backend::ErrorKind;
use cyber_pumpkin::decisions::{DecisionCenter, DecisionChoice, DecisionError, DecisionId, DecisionKind, DecisionScope};
use cyber_pumpkin::domain::{BackendId, BackendPath, CoreError, EntryKind};
use cyber_pumpkin::job::{Endpoint, TransferSpec};
use cyber_pumpkin::operations::{OperationError, OperationId, OperationKind, OperationQueue, OperationState};
use cyber_pumpkin::scheduler::{OperationScheduler, SchedulerError, SchedulerLimits};
use cyber_pumpkin::secrets::SecretError;
use cyber_pumpkin::sftp::map_ssh_error;
use cyber_pumpkin::ssh::{SshErrorKind, authentication_verdict};
use cyber_pumpkin::transfer::{ExecutionError, TransferError, TransferId, TransferJob, TransferState, verify_copied_size};
use cyber_pumpkin::tree::{RecursiveError, child_path};

#[test]
fn core_errors() {
    assert_eq!(BackendId::new(" \t ").unwrap_err(), CoreError::InvalidBackendId);
    assert_eq!(BackendPath::new("").unwrap_err(), CoreError::EmptyPath);
    assert_eq!(CoreError::EmptyPath.message(), "backend path must not be empty");
}

fn spec() -> TransferSpec {
    TransferSpec {
        source: Endpoint { backend: BackendId::new("a").unwrap(), path: BackendPath::new("/x").unwrap() },
        destination: Endpoint { backend: BackendId::new("b").unwrap(), path: BackendPath::new("/y").unwrap() },
    }
}

#[test]
fn transfer_errors() {
    assert_eq!(TransferId::new(0).unwrap_err(), TransferError::InvalidId);
    let mut job = TransferJob::new(TransferId::new(4).unwrap(), spec());
    assert_eq!(
        job.transition(TransferState::Verifying),
        Err(TransferError::InvalidTransition { from: TransferState::Queued, to: TransferState::Verifying })
    );
    assert_eq!(job.state(), TransferState::Queued);
}

#[test]
fn copied_size_must_match_destination() {
    assert!(verify_copied_size(10, Some(10)).is_ok());
    assert!(verify_copied_size(10, None).is_ok());
    assert_eq!(
        verify_copied_size(10, Some(5)),
        Err(ExecutionError::SizeMismatch { copied: 10, destination: 5 })
    );
}

#[test]
fn child_names_must_be_one_component() {
    let parent = BackendPath::new("/data").unwrap();
    assert_eq!(child_path(&parent, "a/b"), Err(RecursiveError::InvalidChildPath("a/b".to_owned())));
    assert_eq!(child_path(&parent, ""), Err(RecursiveError::InvalidChildPath(String::new())));
    assert_eq!(child_path(&parent, "a").unwrap().as_str(), "/data/a");
}

#[test]
fn operation_errors() {
    assert_eq!(OperationId::new(0).unwrap_err(), OperationError::InvalidId);
    let mut queue = OperationQueue::new();
    let missing = OperationId::new(99).unwrap();
    assert_eq!(
        queue.enqueue(OperationKind::Copy, "copy", &[missing]),
        Err(OperationError::UnknownDependency(missing))
    );
    assert_eq!(queue.start(missing), Err(OperationError::NotFound(missing)));
    let id = queue.enqueue(OperationKind::Copy, "copy", &[]).unwrap();
    assert_eq!(
        queue.complete(id),
        Err(OperationError::InvalidTransition { from: OperationState::Queued, to: OperationState::Completed })
    );
}

#[test]
fn decision_errors() {
    assert_eq!(DecisionId::new(0).unwrap_err(), DecisionError::InvalidId);
    let mut center = DecisionCenter::new();
    assert_eq!(center.request(DecisionKind::ExistingFile, "a", "exists", vec![]), Err(DecisionError::NoChoices));
    let (id, immediate) = center
        .request(DecisionKind::ExistingFile, "a", "exists", vec![DecisionChoice::Replace, DecisionChoice::Skip])
        .unwrap();
    assert!(immediate.is_none());
    assert_eq!(
        center.resolve(id, DecisionChoice::Delete, DecisionScope::ThisItem),
        Err(DecisionError::ChoiceNotAllowed { id, choice: DecisionChoice::Delete })
    );
    let unknown = DecisionId::new(77).unwrap();
    assert_eq!(center.resolve(unknown, DecisionChoice::Skip, DecisionScope::ThisItem), Err(DecisionError::NotFound(unknown)));
}

#[test]
fn scheduler_errors() {
    assert_eq!(SchedulerLimits::new(0).unwrap_err(), SchedulerError::InvalidParallelism(0));
    assert_eq!(SchedulerLimits::new(21).unwrap_err(), SchedulerError::InvalidParallelism(21));
    let mut queue = OperationQueue::new();
    let mut scheduler = OperationScheduler::new(SchedulerLimits::new(1).unwrap());
    let id = queue.enqueue(OperationKind::Copy, "copy", &[]).unwrap();
    assert_eq!(scheduler.complete(&mut queue, id), Err(SchedulerError::NotActive(id)));
    assert_eq!(scheduler.admit_ready(&mut queue).unwrap(), vec![id]);
    queue.complete(id).unwrap();
    assert_eq!(
        scheduler.complete(&mut queue, id),
        Err(SchedulerError::Operation(OperationError::InvalidTransition {
            from: OperationState::Completed,
            to: OperationState::Completed,
        }))
    );
}

#[test]
fn authentication_failures_keep_their_kind() {
    let refused = authentication_verdict(Ok(()), false).unwrap_err();
    assert_eq!(refused.kind(), SshErrorKind::Authentication);
    assert_eq!(map_ssh_error(&refused).kind(), ErrorKind::Authentication);
    assert_eq!(map_ssh_error(&refused).operation(), "SSH authentication");
}

#[test]
fn secret_command_failures_are_described() {
    assert_eq!(SecretError::Command("exit 1".to_owned()).describe(), "secret store command failed: exit 1");
}

#[test]
fn failures_are_described_like_display() {
    let id = OperationId::new(5).unwrap();
    assert_eq!(describe_operation_error(OperationError::NotFound(id)), "operation 5 was not found");
    assert_eq!(
        describe_operation_error(OperationError::InvalidTransition { from: OperationState::Queued, to: OperationState::Paused }),
        "invalid operation transition: Queued -> Paused"
    );
    assert_eq!(
        describe_scheduler_error(SchedulerError::InvalidParallelism(0)),
        "simultaneous operation count must be 1..=20, got 0"
    );
    assert_eq!(describe_scheduler_error(SchedulerError::NotActive(id)), "operation 5 is not active");
    let decision = DecisionId::new(3).unwrap();
    assert_eq!(
        describe_decision_error(DecisionError::ChoiceNotAllowed { id: decision, choice: DecisionChoice::KeepBoth }),
        "choice KeepBoth is not allowed for decision 3"
    );
    assert_eq!(describe_retry_policy_error(RetryPolicyError::InvalidAttempts(9)), "retry attempts must be between 1 and 5, got 9");
    assert_eq!(
        describe_retry_policy_error(RetryPolicyError::InvalidBackoff { initial_ms: 0, maximum_ms: 10 }),
        "retry backoff requires non-zero initial delay <= maximum delay, got 0 ms / 10 ms"
    );
    let path = BackendPath::new("/music/a.txt").unwrap();
    assert_eq!(
        describe_copy_runtime_error(&CopyRuntimeError::KeepBothExhausted(path)),
        "could not generate a free Keep Both name beside /music/a.txt"
    );
    assert_eq!(
        describe_sync_plan_error(&SyncPlanError::RootNotDirectory {
            path: BackendPath::new("/f").unwrap(),
            kind: EntryKind::File,
        }),
        "sync root /f is not a directory: File"
    );
    assert_eq!(
        describe_sync_execution_error(&SyncExecutionError::Conflict { path: "docs".to_owned() }),
        "sync plan contains unresolved conflict: docs"
    );
    assert_eq!(
        describe_remote_edit_error(&RemoteEditError::SourceNotFile(EntryKind::Directory)),
        "remote edit requires a file, got Directory"
    );
}
