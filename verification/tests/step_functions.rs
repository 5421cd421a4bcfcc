use cyber_pumpkin::backend::{BackendError, ErrorKind};
use cyber_pumpkin::domain::{BackendPath, EntryKind};
use cyber_pumpkin::remote_edit::remote_edit_refusal;
use cyber_pumpkin::file_ops::{RemoveTreeReport, directory_removal_report};
use cyber_pumpkin::messages::describe_backend_error;
use cyber_pumpkin::operations::{OperationError, OperationId, OperationKind, OperationQueue};
use cyber_pumpkin::profiles::{SupportBase, support_base};
use cyber_pumpkin::reliability::{
    ReliabilityError, TreeRoute, backup_cleanup_outcome, finalize_failure, sidecar_collision, tree_failure,
    tree_route,
};
use cyber_pumpkin::runtime::{KeepBothStep, keep_both_step};
use cyber_pumpkin::sync::{SyncExecutionOutcome, SyncExecutionReport, stop_before_action};
use cyber_pumpkin::tree::RecursiveError;

fn io_error(operation: &'static str) -> BackendError {
    BackendError::new(ErrorKind::Io, operation, None, "broken")
}

#[test]
fn sidecar_answers_decide_collisions() {
    let stage = BackendPath::new("/d.txt.cyber-pumpkin-stage-4").unwrap();
    match sidecar_collision(&stage, Ok(true)) {
        Err(ReliabilityError::SidecarCollision { path }) => assert_eq!(path.as_str(), stage.as_str()),
        other => panic!("unexpected {other:?}"),
    }
    assert!(sidecar_collision(&stage, Ok(false)).is_ok());
    assert!(matches!(sidecar_collision(&stage, Err(io_error("stat"))), Err(ReliabilityError::Backend(_))));
}

#[test]
fn failed_finalize_reports_restore_outcome() {
    assert!(matches!(finalize_failure(io_error("rename"), Ok(())), ReliabilityError::Backend(_)));
    let finalize = io_error("rename");
    let restore = io_error("restore");
    let expected_finalize = describe_backend_error(&finalize);
    let expected_restore = describe_backend_error(&restore);
    match finalize_failure(finalize, Err(restore)) {
        ReliabilityError::RecoveryFailed { finalize, recovery } => {
            assert_eq!(finalize, expected_finalize);
            assert_eq!(recovery, expected_restore);
        }
        other => panic!("unexpected {other:?}"),
    }
}

#[test]
fn backup_left_behind_is_reported() {
    let backup = BackendPath::new("/d.txt.cyber-pumpkin-backup-4").unwrap();
    assert!(backup_cleanup_outcome(&backup, Ok(())).is_ok());
    match backup_cleanup_outcome(&backup, Err(io_error("remove"))) {
        Err(ReliabilityError::BackupCleanupFailed { path, .. }) => assert_eq!(path.as_str(), backup.as_str()),
        other => panic!("unexpected {other:?}"),
    }
}

#[test]
fn tree_failures_and_routes() {
    let missing = RecursiveError::InvalidChildPath("x".to_owned());
    assert!(matches!(tree_failure(missing, Ok(())), ReliabilityError::Recursive(_)));
    let missing = RecursiveError::InvalidChildPath("x".to_owned());
    assert!(matches!(tree_failure(missing, Err(io_error("remove"))), ReliabilityError::RecoveryFailed { .. }));
    assert_eq!(tree_route(false, false), TreeRoute::CopyNew);
    assert_eq!(tree_route(false, true), TreeRoute::CopyNew);
    assert_eq!(tree_route(true, true), TreeRoute::Replace);
    assert_eq!(tree_route(true, false), TreeRoute::Refuse);
}

#[test]
fn directory_report_adds_children_and_itself() {
    let children = vec![
        RemoveTreeReport { files_removed: 2, directories_removed: 0 },
        RemoveTreeReport { files_removed: 1, directories_removed: 1 },
    ];
    let report = directory_removal_report(&children);
    assert_eq!(report.files_removed, 3);
    assert_eq!(report.directories_removed, 2);
    let empty = directory_removal_report(&Vec::new());
    assert_eq!((empty.files_removed, empty.directories_removed), (0, 1));
}

#[test]
fn keep_both_takes_first_free_sibling() {
    assert_eq!(keep_both_step(1, false), KeepBothStep::Take);
    assert_eq!(keep_both_step(1, true), KeepBothStep::TryNext);
    assert_eq!(keep_both_step(998, true), KeepBothStep::TryNext);
    assert_eq!(keep_both_step(999, true), KeepBothStep::Exhausted);
}

#[test]
fn cancelled_run_stops_before_next_action() {
    let report = SyncExecutionReport::default();
    assert!(matches!(stop_before_action(true, report), Some(SyncExecutionOutcome::Cancelled(r)) if r == report));
    assert!(stop_before_action(false, report).is_none());
}

#[test]
fn support_directory_root_choice() {
    assert_eq!(support_base(true, true, true), SupportBase::HomeLibrary);
    assert_eq!(support_base(true, true, false), SupportBase::WorkingDirectory);
    assert_eq!(support_base(false, true, true), SupportBase::XdgConfig);
    assert_eq!(support_base(false, false, true), SupportBase::HomeConfig);
    assert_eq!(support_base(false, false, false), SupportBase::WorkingDirectory);
}

#[test]
fn dependency_on_the_next_id_is_unknown() {
    let mut queue = OperationQueue::new();
    let next = OperationId::new(1).unwrap();
    match queue.enqueue(OperationKind::Copy, "self", &[next]) {
        Err(OperationError::UnknownDependency(d)) => assert_eq!(d.get(), 1),
        other => panic!("unexpected {other:?}"),
    }
    assert!(queue.records().is_empty());
}

#[test]
fn remote_edit_needs_a_remote_regular_file() {
    assert_eq!(
        remote_edit_refusal(true, Some(EntryKind::File)),
        Some("Select a file in an SFTP pane. Local files can be opened directly.")
    );
    assert_eq!(remote_edit_refusal(false, None), Some("Select a remote file to edit."));
    assert_eq!(
        remote_edit_refusal(false, Some(EntryKind::Directory)),
        Some("Remote Edit currently supports regular files.")
    );
    assert_eq!(remote_edit_refusal(false, Some(EntryKind::File)), None);
}
