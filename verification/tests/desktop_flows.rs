use cyber_pumpkin::connection::PaneSftpAuth;
use cyber_pumpkin::copy_flow::{
    CopyStep, QueueStep, can_cancel_copies, copy_finish, copy_progress_status, copy_queued_status,
    copy_request_step, decision_scope, existing_item_choices, existing_item_decision_kind, existing_item_message,
    policy_for_choice, preferred_existing_action,
};
use cyber_pumpkin::decisions::{DecisionChoice, DecisionKind, DecisionScope};
use cyber_pumpkin::display::{
    SortMode, child_path, entry_icon_name, entry_kind_text, format_age, format_size, invalid_name,
    listing_footer, visible_entries,
};
use cyber_pumpkin::domain::{BackendPath, EntryKind, FileEntry};
use cyber_pumpkin::history::{
    HistoryEntry, HistoryKind, HistoryLog, HistoryState, MAX_ACTIVITY_ENTRIES, activity_row_text, record_activity,
};
use cyber_pumpkin::permissions::{
    applied_mode_status, format_mode, loaded_mode_status, mode_from_flags, parse_mode, permission_flags,
    toggled_mode,
};
use cyber_pumpkin::preferences::{
    ConflictField, DoubleClickAction, ExistingItemAction, TransferPreferences, conflict_action_from_choice,
    conflict_index, conflict_setting, double_click_from_choice, double_click_index, set_conflict_setting,
};
use cyber_pumpkin::profiles::SavedAuthentication;
use cyber_pumpkin::recovery::{RecoverySweepReport, pending_remote_note, sweep_activity_detail, unreadable_journals_note};
use cyber_pumpkin::runtime::{CopyConflictPolicy, CopyRuntimeOutcome, CopyRuntimeReport};
use cyber_pumpkin::secrets::{MemorySecretStore, SecretError, SecretStore};
use cyber_pumpkin::servers::{
    AuthMethod, TrustAnswer, TrustStep, auth_from_lookup, auth_from_profile, connection_name, expand_home,
    forget_profile_secret, form_port, host_trust_step, profile_id, profile_matches, profile_with_secret,
    quick_connect_auth, secret_cleanup_outcome, secret_for_profile, trust_answer_effect, unknown_host_message,
};
use cyber_pumpkin::ssh::HostKeyCheck;
use cyber_pumpkin::sync::{SyncExecutionOutcome, SyncExecutionProgress, SyncExecutionReport};
use cyber_pumpkin::sync_plan::{SyncAction, SyncActionKind, SyncSummary};
use cyber_pumpkin::sync_view::{
    SyncDirection, direction_from_choice, execution_refusal, plan_preview_rows, plan_summary_text,
    source_is_left, sync_activity_line, sync_completion_text, sync_finish, sync_progress_text,
};
use cyber_pumpkin::tree::TreeTransferReport;

#[test]
fn sizes_are_shown_in_binary_units() {
    assert_eq!(format_size(None), "—");
    assert_eq!(format_size(Some(0)), "0 B");
    assert_eq!(format_size(Some(1023)), "1023 B");
    assert_eq!(format_size(Some(1024)), "1 KiB");
    assert_eq!(format_size(Some(1_048_575)), "1023 KiB");
    assert_eq!(format_size(Some(5 * 1_048_576 + 7)), "5 MiB");
    assert_eq!(format_size(Some(3 * 1_073_741_824)), "3 GiB");
}

#[test]
fn ages_count_whole_units() {
    assert_eq!(format_age(None, Some(100)), "—");
    assert_eq!(format_age(Some(100), Some(100)), "now");
    assert_eq!(format_age(Some(200), Some(100)), "now");
    assert_eq!(format_age(Some(100), None), "now");
    assert_eq!(format_age(Some(0), Some(59)), "0m ago");
    assert_eq!(format_age(Some(0), Some(3_599)), "59m ago");
    assert_eq!(format_age(Some(0), Some(7_200)), "2h ago");
    assert_eq!(format_age(Some(0), Some(86_400 * 3)), "3d ago");
    assert_eq!(format_age(Some(0), Some(2_592_000 * 2)), "2mo ago");
    assert_eq!(format_age(Some(0), Some(31_536_000 * 4)), "4y ago");
}

#[test]
fn entry_labels() {
    assert_eq!(entry_kind_text(EntryKind::Directory), "Folder");
    assert_eq!(entry_kind_text(EntryKind::Symlink), "Link");
    assert_eq!(entry_icon_name(EntryKind::Directory), "folder-symbolic");
    assert_eq!(entry_icon_name(EntryKind::Other), "unknown-symbolic");
    assert!(invalid_name(""));
    assert!(invalid_name("a/b"));
    assert!(!invalid_name("notes.txt"));
}

#[test]
fn child_paths_join_like_path_buffers() {
    let dir = BackendPath::new("/home/adam").unwrap();
    assert_eq!(child_path(&dir, "notes.txt").unwrap().as_str(), "/home/adam/notes.txt");
    let root = BackendPath::new("/").unwrap();
    assert_eq!(child_path(&root, "etc").unwrap().as_str(), "/etc");
    assert_eq!(child_path(&dir, "/tmp").unwrap().as_str(), "/tmp");
}

fn entry(name: &str, kind: EntryKind, size: Option<u64>, modified: Option<u64>) -> FileEntry {
    FileEntry {
        path: BackendPath::new(&format!("/d/{name}")).unwrap(),
        name: name.to_owned(),
        kind,
        size,
        modified,
    }
}

fn names(entries: &[FileEntry]) -> Vec<&str> {
    entries.iter().map(|e| e.name.as_str()).collect()
}

fn sample() -> Vec<FileEntry> {
    vec![
        entry("beta.txt", EntryKind::File, Some(30), Some(3)),
        entry(".hidden", EntryKind::File, Some(1), Some(1)),
        entry("Alpha.txt", EntryKind::File, Some(10), Some(9)),
        entry("docs", EntryKind::Directory, None, Some(5)),
        entry("alpha.txt", EntryKind::File, Some(20), None),
    ]
}

#[test]
fn listing_puts_folders_first_and_names_case_insensitively() {
    let rows = visible_entries(sample(), false, "", SortMode::Name, false);
    assert_eq!(names(&rows), vec!["docs", "Alpha.txt", "alpha.txt", "beta.txt"]);
    let rows = visible_entries(sample(), true, "", SortMode::Name, true);
    assert_eq!(names(&rows), vec!["beta.txt", "alpha.txt", "Alpha.txt", ".hidden", "docs"]);
}

#[test]
fn listing_orders_by_size_and_date_with_unknown_as_zero() {
    let rows = visible_entries(sample(), false, "", SortMode::Size, false);
    assert_eq!(names(&rows), vec!["docs", "Alpha.txt", "alpha.txt", "beta.txt"]);
    let rows = visible_entries(sample(), false, "", SortMode::Date, false);
    assert_eq!(names(&rows), vec!["docs", "alpha.txt", "beta.txt", "Alpha.txt"]);
}

#[test]
fn listing_filters_by_lowercase_query() {
    let rows = visible_entries(sample(), false, "alpha", SortMode::Name, false);
    assert_eq!(names(&rows), vec!["Alpha.txt", "alpha.txt"]);
    assert_eq!(listing_footer(rows.len(), false, "alpha", SortMode::Name, false), "2 items • filtered • name ascending");
    assert_eq!(listing_footer(7, true, "", SortMode::Date, true), "7 items • hidden shown • date descending");
}

#[test]
fn copy_preferences_depend_on_direction_and_kind() {
    let preferences = TransferPreferences {
        downloading_files: ExistingItemAction::Replace,
        downloading_folders: ExistingItemAction::Skip,
        uploading_files: ExistingItemAction::Ask,
        uploading_folders: ExistingItemAction::Replace,
        simultaneous_transfers: 5,
        keep_activity: true,
    };
    assert_eq!(preferred_existing_action(&preferences, false, true, EntryKind::File), ExistingItemAction::Replace);
    assert_eq!(preferred_existing_action(&preferences, false, true, EntryKind::Directory), ExistingItemAction::Skip);
    assert_eq!(preferred_existing_action(&preferences, true, false, EntryKind::File), ExistingItemAction::Ask);
    assert_eq!(preferred_existing_action(&preferences, true, true, EntryKind::Directory), ExistingItemAction::Replace);
}

#[test]
fn copy_requests_follow_existence_and_preference() {
    assert_eq!(copy_request_step(EntryKind::Symlink, false, ExistingItemAction::Replace), CopyStep::Unsupported);
    assert_eq!(
        copy_request_step(EntryKind::File, false, ExistingItemAction::Ask),
        CopyStep::Enqueue(CopyConflictPolicy::Fail)
    );
    assert_eq!(
        copy_request_step(EntryKind::File, true, ExistingItemAction::Skip),
        CopyStep::Enqueue(CopyConflictPolicy::Skip)
    );
    assert_eq!(copy_request_step(EntryKind::Directory, true, ExistingItemAction::Ask), CopyStep::Ask);
}

#[test]
fn conflict_prompt_offers_four_choices() {
    assert_eq!(existing_item_decision_kind(EntryKind::Directory), DecisionKind::ExistingDirectory);
    assert_eq!(existing_item_decision_kind(EntryKind::File), DecisionKind::ExistingFile);
    assert_eq!(
        existing_item_choices(),
        vec![DecisionChoice::Replace, DecisionChoice::Skip, DecisionChoice::KeepBoth, DecisionChoice::Cancel]
    );
    assert_eq!(existing_item_message("a.txt"), "The destination already contains “a.txt”.");
    assert_eq!(decision_scope(true), DecisionScope::AllMatching);
    assert_eq!(policy_for_choice(DecisionChoice::KeepBoth), Some(CopyConflictPolicy::KeepBoth));
    assert_eq!(policy_for_choice(DecisionChoice::Cancel), None);
}

#[test]
fn finished_copies_report_counts_and_state() {
    let completed = Ok(CopyRuntimeOutcome::Completed(CopyRuntimeReport {
        destination: BackendPath::new("/d/a").unwrap(),
        transfer: TreeTransferReport::with_counts(2048, 3, 1),
        replaced_existing: true,
    }));
    let finish = copy_finish("a", &completed);
    assert_eq!(finish.step, QueueStep::Complete);
    assert_eq!(finish.state, HistoryState::Completed);
    assert_eq!(finish.status, "Copied a — 3 files • 2 KiB");
    assert_eq!(finish.detail, "3 files • 2 KiB • replaced existing");
    assert_eq!(finish.label, "Copy a");
    assert!(finish.refresh_destination);

    let cancelled = Ok(CopyRuntimeOutcome::Cancelled(TreeTransferReport::with_counts(10, 1, 0)));
    let finish = copy_finish("a", &cancelled);
    assert_eq!(finish.step, QueueStep::Cancel);
    assert_eq!(finish.status, "Cancelled a after 1 files");
    assert_eq!(finish.detail, "1 files • 10 B");

    let skipped = Ok(CopyRuntimeOutcome::Skipped { destination: BackendPath::new("/d/a").unwrap() });
    let finish = copy_finish("a", &skipped);
    assert_eq!(finish.status, "Skipped existing a");
    assert!(!finish.refresh_destination);

    let failed: Result<CopyRuntimeOutcome, String> = Err("boom".to_owned());
    let finish = copy_finish("a", &failed);
    assert_eq!(finish.step, QueueStep::Fail);
    assert_eq!(finish.state, HistoryState::Failed);
    assert_eq!(finish.status, "Copy failed: boom");
    assert_eq!(finish.detail, "boom");
}

#[test]
fn copy_bar_texts() {
    assert_eq!(copy_progress_status("a", 2, 5, 1), "Copying a — 2/5 files • 1 active");
    assert_eq!(copy_queued_status(2, 3), "Queued copy • 2 active • 3 waiting");
    assert!(can_cancel_copies(0, 1));
    assert!(!can_cancel_copies(0, 0));
}

#[test]
fn profile_ids_are_slugs() {
    assert_eq!(profile_id("My Server", "Example.COM", "adam"), "my-server-adam-example-com");
    assert_eq!(profile_id("a_b", "h", "u"), "a-b-u-h");
}

#[test]
fn expands_home_prefix_only() {
    assert_eq!(expand_home("~", Some("/home/adam")), "/home/adam");
    assert_eq!(expand_home("~/.ssh/id", Some("/home/adam")), "/home/adam/.ssh/id");
    assert_eq!(expand_home("~/.ssh/id", None), "~/.ssh/id");
    assert_eq!(expand_home("/etc/key", Some("/home/adam")), "/etc/key");
    assert_eq!(expand_home("~other", Some("/home/adam")), "~other");
}

#[test]
fn form_fields() {
    assert_eq!(form_port("2222"), 2222);
    assert_eq!(form_port("ssh"), 22);
    assert_eq!(form_port("70000"), 22);
    assert_eq!(connection_name("  ", "example.com"), "example.com");
    assert_eq!(connection_name("Prod", "example.com"), "Prod");
}

#[test]
fn quick_connect_authentication() {
    assert_eq!(quick_connect_auth(AuthMethod::Agent, "", "", "", None), Ok(PaneSftpAuth::Agent));
    let refused = quick_connect_auth(AuthMethod::Password, "", "", "", None).unwrap_err();
    assert_eq!(refused.title, "Password required");
    assert_eq!(
        quick_connect_auth(AuthMethod::Password, "pw", "", "", None),
        Ok(PaneSftpAuth::Password("pw".to_owned()))
    );
    let refused = quick_connect_auth(AuthMethod::PrivateKey, "", "  ", "", None).unwrap_err();
    assert_eq!(refused.message, "Choose or enter a private-key path.");
    assert_eq!(
        quick_connect_auth(AuthMethod::PrivateKey, "", "~/.ssh/id", "", Some("/home/adam")),
        Ok(PaneSftpAuth::PrivateKey { private_key: "/home/adam/.ssh/id".to_owned(), passphrase: None })
    );
}

#[test]
fn host_trust_decisions() {
    assert_eq!(host_trust_step(HostKeyCheck::Match, "SHA256:x", None), TrustStep::Connect(None));
    match host_trust_step(HostKeyCheck::Mismatch, "SHA256:x", None) {
        TrustStep::Refuse(refusal) => assert_eq!(refusal.title, "SSH host key changed"),
        other => panic!("unexpected {other:?}"),
    }
    assert_eq!(
        host_trust_step(HostKeyCheck::NotFound, "SHA256:x", Some("SHA256:x")),
        TrustStep::Connect(Some("SHA256:x".to_owned()))
    );
    assert_eq!(host_trust_step(HostKeyCheck::NotFound, "SHA256:x", Some("SHA256:y")), TrustStep::Ask);
    assert_eq!(host_trust_step(HostKeyCheck::NotFound, "SHA256:x", None), TrustStep::Ask);
    assert_eq!(trust_answer_effect(TrustAnswer::TrustAlways), (true, true));
    assert_eq!(trust_answer_effect(TrustAnswer::Cancel), (false, false));
    assert!(unknown_host_message("h", 22, "fp").contains("h:22\nSHA-256 fingerprint:\nfp"));
}

#[test]
fn saved_profiles_keep_secrets_in_the_store() {
    let mut store = MemorySecretStore::default();
    let saved = profile_with_secret(
        &mut store,
        "prod",
        "Prod",
        "example.com",
        "adam",
        22,
        "/",
        &PaneSftpAuth::Password("pw".to_owned()),
        true,
    )
    .unwrap();
    assert_eq!(saved.authentication, SavedAuthentication::Password);
    assert_eq!(saved.secret_key.as_deref(), Some("connection:prod:password"));
    assert_eq!(store.get("connection:prod:password"), Ok(Some("pw".to_owned())));
    assert_eq!(auth_from_profile(&saved, &store), Ok(PaneSftpAuth::Password("pw".to_owned())));
    forget_profile_secret(&saved, &mut store).unwrap();
    assert_eq!(store.get("connection:prod:password"), Ok(None));
    assert_eq!(
        auth_from_profile(&saved, &store),
        Err("password is missing from OS credential store: connection:prod:password".to_owned())
    );
}

#[test]
fn unsaved_secrets_refuse_the_profile() {
    assert!(secret_for_profile("id", &PaneSftpAuth::Password("pw".to_owned()), false).is_err());
    assert_eq!(
        secret_for_profile(
            "id",
            &PaneSftpAuth::PrivateKey { private_key: "/k".to_owned(), passphrase: Some("pp".to_owned()) },
            true
        ),
        Ok(Some(("connection:id:key-passphrase".to_owned(), "pp".to_owned())))
    );
    let mut store = MemorySecretStore::default();
    let blank = profile_with_secret(&mut store, "id", " ", "h", "u", 22, "/", &PaneSftpAuth::Agent, true);
    assert_eq!(blank, Err("connection name must not be blank".to_owned()));
}

#[test]
fn secret_lookup_failures_are_described() {
    let mut store = MemorySecretStore::default();
    let saved = profile_with_secret(&mut store, "id", "n", "h", "u", 22, "/", &PaneSftpAuth::Password("x".to_owned()), true)
        .unwrap();
    assert_eq!(
        auth_from_lookup(&saved, Err(SecretError::Unavailable("no helper".to_owned()))),
        Err("secret store unavailable: no helper".to_owned())
    );
    assert_eq!(
        secret_cleanup_outcome(Err(SecretError::InvalidUtf8)),
        Err("connection removed, but credential cleanup failed: secret store returned invalid UTF-8".to_owned())
    );
    assert!(profile_matches(&saved, "n"));
    assert!(!profile_matches(&saved, "zzz"));
}

#[test]
fn permission_modes_round_trip() {
    assert_eq!(parse_mode("0755"), Ok(0o755));
    assert_eq!(parse_mode(" 0o4755 "), Ok(0o4755));
    assert_eq!(parse_mode("7777"), Ok(0o7777));
    assert_eq!(parse_mode(""), Err("Enter an octal mode from 0000 through 7777.".to_owned()));
    assert!(parse_mode("0800").is_err());
    assert!(parse_mode("07777").is_err());
    assert_eq!(format_mode(0o755), "0755");
    assert_eq!(format_mode(0o4755), "4755");
    assert_eq!(format_mode(0), "0000");
    let flags = permission_flags(0o750);
    assert_eq!(flags, vec![true, true, true, true, false, true, false, false, false]);
    assert_eq!(mode_from_flags(&flags), 0o750);
    assert_eq!(toggled_mode("4750", &flags), 0o4750);
    assert_eq!(toggled_mode("junk", &flags), 0o750);
    assert_eq!(loaded_mode_status(0o644), "Loaded POSIX mode 0644.");
    assert_eq!(applied_mode_status(0o600, &Ok(Some(0o600))), "Applied and verified POSIX mode 0600.");
    assert_eq!(applied_mode_status(0o600, &Ok(None)), "Applied POSIX mode 0600; verification unavailable.");
}

fn action(kind: SyncActionKind, path: &str, reason: &str) -> SyncAction {
    SyncAction { kind, relative_path: path.to_owned(), source: None, destination: None, reason: reason.to_owned() }
}

#[test]
fn sync_preview_rows_and_summary() {
    let rows = plan_preview_rows(&[]);
    assert_eq!(rows, vec![("No changes required.".to_owned(), true)]);
    let rows = plan_preview_rows(&[
        action(SyncActionKind::CopyFile, "a.txt", "missing"),
        action(SyncActionKind::Conflict, "b", "type differs"),
    ]);
    assert_eq!(rows[0], ("Copy  a.txt  —  missing".to_owned(), true));
    assert_eq!(rows[1], ("CONFLICT  b  —  type differs".to_owned(), false));
    let summary = SyncSummary { directories_to_create: 1, files_to_copy: 2, entries_to_remove: 0, conflicts: 1, skipped: 3 };
    assert_eq!(plan_summary_text(summary), "1 directories • 2 files • 0 removals • 1 conflicts • 3 skipped");
    assert_eq!(execution_refusal(false, 0), Some("Simulate before synchronizing."));
    assert_eq!(execution_refusal(true, 1), Some("Resolve plan conflicts before synchronizing."));
    assert_eq!(execution_refusal(true, 0), None);
    assert_eq!(direction_from_choice(Some(1)), SyncDirection::RightToLeft);
    assert_eq!(direction_from_choice(None), SyncDirection::LeftToRight);
    assert!(source_is_left(SyncDirection::LeftToRight));
}

#[test]
fn sync_run_reports() {
    let report = SyncExecutionReport { files_copied: 2, directories_created: 1, entries_removed: 0, skipped: 4, bytes_copied: 2048 };
    assert_eq!(sync_completion_text("Completed", report), "Completed: 2 files • 1 folders • 0 removals • 4 skipped • 2 KiB");
    let finish = sync_finish(&Ok(SyncExecutionOutcome::Completed(report)));
    assert_eq!(finish.step, QueueStep::Complete);
    assert_eq!(finish.activity_detail, "2 files • 1 folders • 0 removals • 2 KiB");
    assert!(!finish.keep_plan);
    let finish = sync_finish(&Err("lost".to_owned()));
    assert_eq!(finish.summary, "Synchronization failed: lost");
    assert!(finish.keep_plan);
    assert_eq!(sync_activity_line(7, "Failed", "lost"), "#7 • Sync • Failed • lost");
    let progress = SyncExecutionProgress::snapshot(1, 4, "a.txt", 512, Some(2048));
    assert_eq!(sync_progress_text(&progress), "Synchronizing a.txt — 1/4 actions • 512 B / 2 KiB");
}

#[test]
fn startup_recovery_notes() {
    let mut report = RecoverySweepReport::default();
    assert_eq!(sweep_activity_detail(report), None);
    report.entries_processed = 3;
    report.restored = 1;
    report.cleaned = 2;
    assert_eq!(sweep_activity_detail(report), Some("3 entries • 1 restored • 2 cleaned".to_owned()));
    assert_eq!(pending_remote_note(0), None);
    assert_eq!(
        pending_remote_note(2),
        Some("2 interrupted remote transaction(s) require a reconnect before recovery".to_owned())
    );
    assert_eq!(unreadable_journals_note(1), Some("1 recovery journal location(s) could not be read".to_owned()));
}

#[test]
fn activity_rows_and_retention() {
    let entry = HistoryEntry::new(Some(12), HistoryKind::Copy, HistoryState::Failed, "Copy a", "boom", 5);
    assert_eq!(activity_row_text(&entry), "#12 • Copy a • Failed • boom");
    let anonymous = HistoryEntry::new(None, HistoryKind::Other, HistoryState::Active, "Scan", "", 5);
    assert_eq!(activity_row_text(&anonymous), "— • Scan • Active • ");
    let mut log = HistoryLog::default();
    record_activity(&mut log, entry.clone(), false);
    assert!(log.entries.is_empty());
    for stamp in 0..(MAX_ACTIVITY_ENTRIES as u64 + 5) {
        record_activity(&mut log, HistoryEntry::new(None, HistoryKind::Copy, HistoryState::Completed, "x", "", stamp), true);
    }
    assert_eq!(log.entries.len(), MAX_ACTIVITY_ENTRIES);
    assert_eq!(log.entries[0].timestamp, 5);
}

#[test]
fn preference_selectors_round_trip() {
    for action in [ExistingItemAction::Ask, ExistingItemAction::Replace, ExistingItemAction::Skip] {
        assert_eq!(conflict_action_from_choice(Some(conflict_index(action))), action);
    }
    assert_eq!(conflict_action_from_choice(None), ExistingItemAction::Ask);
    for action in [DoubleClickAction::Open, DoubleClickAction::Transfer, DoubleClickAction::Inspect] {
        assert_eq!(double_click_from_choice(Some(double_click_index(action))), action);
    }
    let mut preferences = TransferPreferences::default();
    set_conflict_setting(&mut preferences, ConflictField::UploadingFolders, ExistingItemAction::Skip);
    assert_eq!(conflict_setting(&preferences, ConflictField::UploadingFolders), ExistingItemAction::Skip);
    assert_eq!(conflict_setting(&preferences, ConflictField::UploadingFiles), ExistingItemAction::Ask);
}
