use cyber_pumpkin::application::PaneSession;
use cyber_pumpkin::cli::{parse_bool, parse_runtime_conflict_policy};
use cyber_pumpkin::decisions::{DecisionCenter, DecisionChoice, DecisionKind, DecisionScope};
use cyber_pumpkin::domain::{BackendId, BackendPath};
use cyber_pumpkin::history::{HistoryEntry, HistoryKind, HistoryLog, HistoryState};
use cyber_pumpkin::job::{Endpoint, TransferId, TransferJob, TransferSpec, TransferState};
use cyber_pumpkin::transfer::{
    TransferId as LibTransferId, TransferJob as LibTransferJob, TransferState as LibTransferState,
};
use cyber_pumpkin::operations::{OperationKind, OperationQueue, OperationState};
use cyber_pumpkin::preferences::{AppPreferences, ExistingItemAction};
use cyber_pumpkin::profiles::{ConnectionProfiles, SavedAuthentication, SavedConnection};
use cyber_pumpkin::backend::{BackendError, ErrorKind};
use cyber_pumpkin::reliability::ReliabilityError;
use cyber_pumpkin::rules::{
    RuleCondition, RuleDecision, RuleField, RuleMatchMode, RuleOperator, RuleSet, RuleTarget,
    evaluate,
};
use cyber_pumpkin::domain::EntryKind;
use cyber_pumpkin::runtime::{CopyConflictPolicy, CopyRuntimeError, RetryPolicy, retryable_copy_error};
use cyber_pumpkin::scheduler::{OperationScheduler, SchedulerLimits};
use cyber_pumpkin::secrets::{MemorySecretStore, SecretStore};
use cyber_pumpkin::sftp::SftpConfig;
use cyber_pumpkin::ssh::SshConfig;
use cyber_pumpkin::trust::TrustedHosts;
use std::time::Duration;

fn home() -> Option<String> {
    Some("/home/adam".to_owned())
}

#[test]
fn backend_id_rejects_blank_text() {
    assert!(BackendId::new("   ").is_err());
}

#[test]
fn backend_path_preserves_backend_syntax() {
    let path = BackendPath::new("/var/www").unwrap();
    assert_eq!(path.as_str(), "/var/www");
}

fn spec() -> TransferSpec {
    TransferSpec {
        source: Endpoint {
            backend: BackendId::new("local").unwrap(),
            path: BackendPath::new("/tmp/input").unwrap(),
        },
        destination: Endpoint {
            backend: BackendId::new("production").unwrap(),
            path: BackendPath::new("/var/www/input").unwrap(),
        },
    }
}

#[test]
fn terminal_states_never_transition() {
    for state in [TransferState::Completed, TransferState::Failed, TransferState::Cancelled] {
        assert!(!state.can_transition_to(TransferState::Queued));
    }
}

#[test]
fn happy_path_is_explicit() {
    let mut job = TransferJob::new(TransferId::new(1).unwrap(), spec());
    job.transition(TransferState::Connecting).unwrap();
    job.transition(TransferState::Transferring).unwrap();
    job.transition(TransferState::Verifying).unwrap();
    job.transition(TransferState::Completed).unwrap();
    assert!(job.state().is_terminal());
}

#[test]
fn illegal_transition_is_rejected() {
    let mut job = TransferJob::new(TransferId::new(1).unwrap(), spec());
    assert!(job.transition(TransferState::Completed).is_err());
}

#[test]
fn lib_terminal_states_never_transition() {
    for state in [LibTransferState::Completed, LibTransferState::Failed, LibTransferState::Cancelled] {
        assert!(!state.can_transition_to(LibTransferState::Queued));
    }
}

#[test]
fn lib_happy_path_is_explicit() {
    let mut job = LibTransferJob::new(LibTransferId::new(1).unwrap(), spec());
    job.transition(LibTransferState::Connecting).unwrap();
    job.transition(LibTransferState::Transferring).unwrap();
    job.transition(LibTransferState::Verifying).unwrap();
    job.transition(LibTransferState::Completed).unwrap();
    assert!(job.state().is_terminal());
}

#[test]
fn lib_illegal_transition_is_rejected() {
    let mut job = LibTransferJob::new(LibTransferId::new(1).unwrap(), spec());
    assert!(job.transition(LibTransferState::Completed).is_err());
}

fn session() -> PaneSession {
    PaneSession::new(BackendId::new("local").unwrap(), BackendPath::new("/home/test").unwrap())
}

#[test]
fn navigation_records_history() {
    let mut session = session();
    session.navigate_to(BackendPath::new("/home/test/Downloads").unwrap());
    assert_eq!(session.location().as_str(), "/home/test/Downloads");
    assert!(session.can_go_back());
    assert!(!session.can_go_forward());
}

#[test]
fn back_and_forward_are_symmetric() {
    let mut session = session();
    session.navigate_to(BackendPath::new("/home/test/Documents").unwrap());
    assert!(session.go_back());
    assert_eq!(session.location().as_str(), "/home/test");
    assert!(session.go_forward());
    assert_eq!(session.location().as_str(), "/home/test/Documents");
}

#[test]
fn new_navigation_clears_forward_history() {
    let mut session = session();
    session.navigate_to(BackendPath::new("/one").unwrap());
    assert!(session.go_back());
    assert!(session.can_go_forward());
    session.navigate_to(BackendPath::new("/two").unwrap());
    assert!(!session.can_go_forward());
}

#[test]
fn transfer_defaults_are_conservative() {
    let preferences = AppPreferences::default();
    assert_eq!(preferences.transfers.uploading_files, ExistingItemAction::Ask);
    assert_eq!(preferences.transfers.simultaneous_transfers, 5);
    assert!(preferences.files.confirm_delete);
}

fn profile(id: &str, name: &str) -> Result<SavedConnection, String> {
    SavedConnection::new(id, name, "example.test", "adam", 22, "/")
}

#[test]
fn upsert_replaces_by_stable_id() {
    let mut profiles = ConnectionProfiles::default();
    profiles.upsert(profile("studio", "Studio").unwrap());
    profiles.upsert(profile("studio", "Studio Updated").unwrap());
    assert_eq!(profiles.profiles.len(), 1);
    assert_eq!(profiles.profiles[0].name, "Studio Updated");
}

#[test]
fn remove_reports_whether_profile_existed() {
    let mut profiles = ConnectionProfiles::default();
    profiles.upsert(profile("studio", "Studio").unwrap());
    assert!(profiles.remove("studio"));
    assert!(!profiles.remove("studio"));
}

#[test]
fn password_profile_contains_reference_not_secret() {
    let profile = profile("studio", "Studio").unwrap().with_password_secret("connection:studio:password");
    assert_eq!(profile.authentication, SavedAuthentication::Password);
    assert_eq!(profile.secret_key.as_deref(), Some("connection:studio:password"));
}

#[test]
fn trust_replaces_same_host_and_port() {
    let mut trust = TrustedHosts::default();
    trust.trust("example.test", 22, "AA");
    trust.trust("example.test", 22, "BB");
    assert_eq!(trust.hosts.len(), 1);
    assert_eq!(trust.fingerprint("example.test", 22), Some("BB"));
}

#[test]
fn remembered_choice_resolves_matching_request_immediately() {
    let mut center = DecisionCenter::new();
    let (first, resolution) = center
        .request(
            DecisionKind::ExistingFile,
            "a.txt",
            "destination exists",
            vec![DecisionChoice::Replace, DecisionChoice::Skip],
        )
        .unwrap();
    assert!(resolution.is_none());
    center.resolve(first, DecisionChoice::Replace, DecisionScope::AllMatching).unwrap();
    let (_, resolution) = center
        .request(
            DecisionKind::ExistingFile,
            "b.txt",
            "destination exists",
            vec![DecisionChoice::Replace, DecisionChoice::Skip],
        )
        .unwrap();
    assert_eq!(resolution.map(|value| value.choice), Some(DecisionChoice::Replace));
}

#[test]
fn rejects_choice_not_exposed_by_request() {
    let mut center = DecisionCenter::new();
    let (id, _) = center
        .request(
            DecisionKind::DeleteConfirmation,
            "folder",
            "delete folder",
            vec![DecisionChoice::Delete, DecisionChoice::Cancel],
        )
        .unwrap();
    assert!(center.resolve(id, DecisionChoice::Replace, DecisionScope::ThisItem).is_err());
}

#[test]
fn bounded_history_keeps_newest_entries() {
    let mut log = HistoryLog::default();
    for id in 1..=4u64 {
        log.append(
            HistoryEntry::new(
                Some(id),
                HistoryKind::Copy,
                HistoryState::Completed,
                &format!("copy {id}"),
                "ok",
                id,
            ),
            2,
        );
    }
    assert_eq!(log.entries.len(), 2);
    assert_eq!(log.entries[0].operation_id, Some(3));
    assert_eq!(log.entries[1].operation_id, Some(4));
}

#[test]
fn dependency_blocks_until_completion() {
    let mut queue = OperationQueue::new();
    let first = queue.enqueue(OperationKind::Copy, "first", &[]).unwrap();
    let second = queue.enqueue(OperationKind::Delete, "second", &[first]).unwrap();
    assert_eq!(queue.next_runnable(), Some(first));
    queue.start(first).unwrap();
    assert_eq!(queue.next_runnable(), None);
    queue.complete(first).unwrap();
    assert_eq!(queue.next_runnable(), Some(second));
}

#[test]
fn failed_dependency_fails_dependent() {
    let mut queue = OperationQueue::new();
    let first = queue.enqueue(OperationKind::Copy, "first", &[]).unwrap();
    let second = queue.enqueue(OperationKind::Copy, "second", &[first]).unwrap();
    queue.fail(first, "network failed").unwrap();
    assert_eq!(queue.next_runnable(), None);
    assert_eq!(queue.get(second).map(|r| r.state), Some(OperationState::Failed));
}

#[test]
fn default_scheduler_admits_five_independent_operations() {
    let mut queue = OperationQueue::new();
    for index in 0..7 {
        queue.enqueue(OperationKind::Copy, &format!("copy {index}"), &[]).unwrap();
    }
    let mut scheduler = OperationScheduler::default();
    let admitted = scheduler.admit_ready(&mut queue).unwrap();
    assert_eq!(admitted.len(), 5);
    assert_eq!(scheduler.active_count(), 5);
}

#[test]
fn dependency_is_admitted_after_parent_completion() {
    let mut queue = OperationQueue::new();
    let parent = queue.enqueue(OperationKind::Copy, "parent", &[]).unwrap();
    let child = queue.enqueue(OperationKind::Delete, "child", &[parent]).unwrap();
    let mut scheduler = OperationScheduler::new(SchedulerLimits::new(1).unwrap());
    assert_eq!(scheduler.admit_ready(&mut queue).unwrap(), vec![parent]);
    scheduler.complete(&mut queue, parent).unwrap();
    assert_eq!(scheduler.admit_ready(&mut queue).unwrap(), vec![child]);
    assert_eq!(queue.get(child).map(|record| record.state), Some(OperationState::Running));
}

#[test]
fn rejects_parallelism_outside_product_range() {
    assert!(SchedulerLimits::new(0).is_err());
    assert!(SchedulerLimits::new(21).is_err());
}

#[test]
fn git_directory_can_be_skipped() {
    let rules = vec![RuleSet {
        name: "Source Control".to_owned(),
        enabled: true,
        mode: RuleMatchMode::Any,
        conditions: vec![RuleCondition {
            field: RuleField::Name,
            operator: RuleOperator::Is,
            value: ".git".to_owned(),
        }],
        decision: RuleDecision::Skip,
    }];
    assert_eq!(
        evaluate(&rules, RuleTarget { name: ".git", path: "project/.git", kind: EntryKind::Directory }),
        RuleDecision::Skip
    );
}

#[test]
fn memory_store_round_trips_and_deletes() {
    let mut store = MemorySecretStore::default();
    store.set("studio", "hunter2").unwrap();
    assert_eq!(store.get("studio").unwrap().as_deref(), Some("hunter2"));
    store.delete("studio").unwrap();
    assert_eq!(store.get("studio").unwrap(), None);
}

#[test]
fn rejects_blank_host() {
    let id = BackendId::new("remote").unwrap();
    let home = home();
    assert!(SftpConfig::new(id, "   ", "adam", home.as_deref()).is_err());
}

#[test]
fn custom_port_is_preserved() {
    let id = BackendId::new("remote").unwrap();
    let home = home();
    let config = SftpConfig::new(id, "example.com", "adam", home.as_deref()).unwrap().with_port(2222);
    assert_eq!(config.port(), 2222);
}

#[test]
fn lib_rejects_blank_host() {
    let home = home();
    assert!(SshConfig::new("   ", "adam", home.as_deref()).is_err());
}

#[test]
fn preserves_overrides() {
    let home = home();
    let config = SshConfig::new("example.test", "adam", home.as_deref())
        .unwrap()
        .with_port(2222)
        .with_timeout(Duration::from_secs(45));
    assert_eq!(config.port(), 2222);
    assert_eq!(config.timeout(), Duration::from_secs(45));
}

#[test]
fn default_retry_policy_is_bounded_exponential() {
    let policy = RetryPolicy::default();
    assert_eq!(policy.max_attempts(), 3);
    assert!(policy.allows_retry_after(1));
    assert!(policy.allows_retry_after(2));
    assert!(!policy.allows_retry_after(3));
    assert_eq!(policy.backoff_after(1).as_millis(), 250);
    assert_eq!(policy.backoff_after(2).as_millis(), 500);
}

#[test]
fn retry_policy_rejects_retry_storm_configuration() {
    assert!(RetryPolicy::new(0, 250, 2_000).is_err());
    assert!(RetryPolicy::new(6, 250, 2_000).is_err());
    assert!(RetryPolicy::new(3, 0, 2_000).is_err());
    assert!(RetryPolicy::new(3, 2_000, 250).is_err());
}

#[test]
fn retry_classification_excludes_permission_and_conflict_errors() {
    let transport = CopyRuntimeError::Backend(BackendError::new(
        ErrorKind::Transport,
        "test transport",
        None,
        "connection reset",
    ));
    let permission = CopyRuntimeError::Backend(BackendError::new(
        ErrorKind::PermissionDenied,
        "test permission",
        None,
        "denied",
    ));
    let conflict = CopyRuntimeError::DestinationExists(BackendPath::new("/tmp/existing").unwrap());
    assert!(retryable_copy_error(&transport));
    assert!(!retryable_copy_error(&permission));
    assert!(!retryable_copy_error(&conflict));
}

#[test]
fn recovery_journal_errors_are_never_retryable() {
    let error = CopyRuntimeError::Reliability(ReliabilityError::RecoveryJournal {
        path: "/tmp/cyber-pumpkin-recovery.json".to_owned(),
        message: "journal unavailable".to_owned(),
    });
    assert!(!retryable_copy_error(&error));
}

#[test]
fn completion_conflict_policy_accepts_keep_both() {
    assert_eq!(parse_runtime_conflict_policy("keep-both").unwrap(), CopyConflictPolicy::KeepBoth);
}

#[test]
fn completion_boolean_parser_is_strict() {
    assert!(parse_bool("true").unwrap());
    assert!(!parse_bool("false").unwrap());
    assert!(parse_bool("maybe").is_err());
}
