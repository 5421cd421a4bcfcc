use cyber_pumpkin::backend::{BackendError, ErrorKind, presence, removal};
use cyber_pumpkin::cli::{
    apply_preference, ensure_finished, next_arg, next_optional, optional_port, parse_double_click_action,
    parse_existing_item_action, parse_unsigned,
};
use cyber_pumpkin::connection::{PaneConnection, PaneSftpAuth};
use cyber_pumpkin::domain::{BackendPath, CapabilitySupport, EntryKind, FileEntry};
use cyber_pumpkin::history::{HistoryEntry, HistoryKind, HistoryLog, HistoryState};
use cyber_pumpkin::messages::{decimal, describe_backend_error};
use cyber_pumpkin::paths::{depth, join_text, relative_to, text_less, trim_end_slashes};
use cyber_pumpkin::preferences::{AppPreferences, DoubleClickAction, ExistingItemAction};
use cyber_pumpkin::profiles::{ConnectionProfiles, SavedConnection};
use cyber_pumpkin::recovery::{
    JournalDisposition, RecoveryAction, RecoveryEntry, RecoveryJournal, RecoveryPhase, decode_optional,
    is_journal_file_name, journal_limit_exceeded, recovery_action,
};
use cyber_pumpkin::remote_edit::{FileStamp, fnv1a64_update, sanitize_file_name, stamp_changed};
use cyber_pumpkin::runtime::{RetryPolicy, RetryPolicyError, copy_name, split_extension};
use cyber_pumpkin::secrets::trim_line_endings;
use cyber_pumpkin::sftp::{entry_kind_of, file_backend_capabilities, sftp_error_kind, sort_entries_by_name};
use cyber_pumpkin::ssh::{
    HostKeyCheck, SshConfig, SshErrorKind, authentication_verdict, check_connect_port, host_key_verdict,
    session_timeout_ms,
};
use cyber_pumpkin::trust::TrustedHosts;
use std::time::Duration;

#[test]
fn split_extension_examples() {
    assert_eq!(split_extension("report.pdf"), ("report", Some("pdf")));
    assert_eq!(split_extension("archive.tar.gz"), ("archive.tar", Some("gz")));
    assert_eq!(split_extension(".bashrc"), (".bashrc", None));
    assert_eq!(split_extension("trailing."), ("trailing.", None));
    assert_eq!(split_extension("plain"), ("plain", None));
}

#[test]
fn copy_name_puts_suffix_before_extension() {
    let path = BackendPath::new("/music/track.txt").unwrap();
    assert_eq!(copy_name(&path, 1).unwrap().as_str(), "/music/track copy.txt");
    assert_eq!(copy_name(&path, 2).unwrap().as_str(), "/music/track copy 2.txt");
    assert_eq!(copy_name(&path, 999).unwrap().as_str(), "/music/track copy 999.txt");
    let bare = BackendPath::new("/music/notes").unwrap();
    assert_eq!(copy_name(&bare, 3).unwrap().as_str(), "/music/notes copy 3");
}

#[test]
fn copy_name_of_a_root_level_file_has_no_parent() {
    let path = BackendPath::new("/track.txt").unwrap();
    assert_eq!(copy_name(&path, 1).unwrap().as_str(), "track copy.txt");
    let relative = BackendPath::new("track.txt").unwrap();
    assert_eq!(copy_name(&relative, 2).unwrap().as_str(), "track copy 2.txt");
}

#[test]
fn decimal_prints_like_display() {
    assert_eq!(decimal(0), "0");
    assert_eq!(decimal(7), "7");
    assert_eq!(decimal(10), "10");
    assert_eq!(decimal(65535), "65535");
    assert_eq!(decimal(u64::MAX), u64::MAX.to_string());
}

#[test]
fn backend_error_description_names_operation_and_path() {
    let with_path = BackendError::new(
        ErrorKind::NotFound,
        "open read",
        Some(BackendPath::new("/tmp/a").unwrap()),
        "no such file",
    );
    assert_eq!(describe_backend_error(&with_path), "open read failed for /tmp/a: no such file");
    let without = BackendError::new(ErrorKind::Transport, "connect", None, "refused");
    assert_eq!(describe_backend_error(&without), "connect failed: refused");
}

#[test]
fn parse_unsigned_follows_the_standard_parser() {
    assert_eq!(parse_unsigned("22", 65535), Ok(22));
    assert_eq!(parse_unsigned("+42", 65535), Ok(42));
    assert_eq!(parse_unsigned("0065535", 65535), Ok(65535));
    assert_eq!(parse_unsigned("", 65535), Err("cannot parse integer from empty string".to_owned()));
    assert_eq!(parse_unsigned("+", 65535), Err("invalid digit found in string".to_owned()));
    assert_eq!(parse_unsigned("-1", 65535), Err("invalid digit found in string".to_owned()));
    assert_eq!(parse_unsigned("7000x", 65535), Err("invalid digit found in string".to_owned()));
    assert_eq!(parse_unsigned("65536", 65535), Err("number too large to fit in target type".to_owned()));
    for text in ["", "+", "-1", "7000x", "65536", "22", "+42"] {
        let standard = text.parse::<u16>().map(u64::from).map_err(|e| e.to_string());
        assert_eq!(parse_unsigned(text, 65535), standard, "{text}");
    }
}

#[test]
fn optional_port_defaults_to_ssh() {
    assert_eq!(optional_port(None), Ok(22));
    assert_eq!(optional_port(Some("2222")), Ok(2222));
    assert!(optional_port(Some("0x10")).is_err());
}

#[test]
fn word_parsers_accept_their_words_only() {
    assert_eq!(parse_existing_item_action("skip"), Ok(ExistingItemAction::Skip));
    assert_eq!(parse_existing_item_action("replace"), Ok(ExistingItemAction::Replace));
    assert!(parse_existing_item_action("Skip").is_err());
    assert_eq!(parse_double_click_action("inspect"), Ok(DoubleClickAction::Inspect));
    assert!(parse_double_click_action("run").is_err());
}

#[test]
fn argument_cursor_walks_words() {
    let args = vec!["connect".to_owned(), "host".to_owned()];
    let mut cursor = 0;
    assert_eq!(next_arg(&args, &mut cursor, "command"), Ok("connect".to_owned()));
    assert_eq!(next_optional(&args, &mut cursor), Some("host".to_owned()));
    assert_eq!(next_optional(&args, &mut cursor), None);
    assert!(next_arg(&args, &mut cursor, "path").is_err());
    assert_eq!(ensure_finished(&args, cursor), Ok(()));
    assert_eq!(ensure_finished(&args, 1), Err("unexpected argument: host".to_owned()));
}

#[test]
fn preference_updates_change_one_field() {
    let mut preferences = AppPreferences::default();
    apply_preference(&mut preferences, "transfers.simultaneous-transfers", "4").unwrap();
    assert_eq!(preferences.transfers.simultaneous_transfers, 4);
    apply_preference(&mut preferences, "files.confirm-delete", "false").unwrap();
    assert!(!preferences.files.confirm_delete);
    let before = preferences.clone();
    assert_eq!(
        apply_preference(&mut preferences, "transfers.simultaneous-transfers", "21"),
        Err("simultaneous transfers must be in 1..=20".to_owned())
    );
    assert_eq!(
        apply_preference(&mut preferences, "files.confirm-delete", "maybe"),
        Err("expected boolean value, got maybe".to_owned())
    );
    assert_eq!(
        apply_preference(&mut preferences, "colors.theme", "dark"),
        Err("unknown preference key: colors.theme".to_owned())
    );
    assert_eq!(preferences, before);
}

#[test]
fn path_helpers_examples() {
    assert_eq!(trim_end_slashes("/var/www//"), "/var/www");
    assert_eq!(trim_end_slashes("///"), "");
    assert_eq!(depth("/a/b//c/"), 3);
    assert_eq!(depth("/"), 0);
    assert!(text_less("alpha", "beta"));
    assert!(text_less("a", "ab"));
    assert!(!text_less("b", "a"));
    assert_eq!(relative_to("/root/", "/root/a/b"), Some("a/b".to_owned()));
    assert_eq!(relative_to("/root", "/root"), Some(String::new()));
    assert_eq!(relative_to("/root", "/rooted/a"), None);
    assert_eq!(join_text("/root/", "a"), "/root/a");
    assert_eq!(join_text("/", "a"), "/a");
}

#[test]
fn history_with_zero_maximum_keeps_nothing() {
    let mut log = HistoryLog::default();
    log.append(HistoryEntry::new(None, HistoryKind::Copy, HistoryState::Completed, "a", "", 1), 0);
    assert!(log.entries.is_empty());
}

#[test]
fn history_keeps_the_newest_entries() {
    let mut log = HistoryLog::default();
    for stamp in 1..=5 {
        log.append(HistoryEntry::new(Some(stamp), HistoryKind::Copy, HistoryState::Completed, "x", "", stamp), 3);
    }
    let stamps: Vec<u64> = log.entries.iter().map(|e| e.timestamp).collect();
    assert_eq!(stamps, vec![3, 4, 5]);
    log.clear();
    assert!(log.entries.is_empty());
}

fn journal_entry(id: u64, destination: &str) -> RecoveryEntry {
    RecoveryEntry {
        operation_id: id,
        destination: destination.to_owned(),
        stage: Some(format!("{destination}.stage")),
        backup: None,
        phase: RecoveryPhase::Staging,
    }
}

#[test]
fn journal_upsert_orders_by_operation_and_replaces() {
    let mut journal = RecoveryJournal::default();
    journal.upsert(journal_entry(9, "/b"));
    journal.upsert(journal_entry(3, "/a"));
    let mut again = journal_entry(9, "/b");
    again.phase = RecoveryPhase::BackupMoved;
    journal.upsert(again);
    let ids: Vec<u64> = journal.entries.iter().map(|e| e.operation_id).collect();
    assert_eq!(ids, vec![3, 9]);
    assert_eq!(journal.entries[1].phase, RecoveryPhase::BackupMoved);
    journal.remove(3);
    assert_eq!(journal.entries.len(), 1);
    journal.remove(42);
    assert_eq!(journal.entries.len(), 1);
}

#[test]
fn journal_helpers() {
    assert!(is_journal_file_name("replace-journal.json"));
    assert!(!is_journal_file_name("notes.txt"));
    assert!(!journal_limit_exceeded(1024));
    assert!(journal_limit_exceeded(1025));
    assert!(decode_optional("decode stage", Some("")).is_err());
    assert_eq!(decode_optional("decode stage", None).unwrap(), None);
}

#[test]
fn sanitize_replaces_separators() {
    assert_eq!(sanitize_file_name("a/b\\c"), "a_b_c");
    assert_eq!(sanitize_file_name("nul\0byte"), "nul_byte");
    assert_eq!(sanitize_file_name("   "), "remote-edit-file");
    assert_eq!(sanitize_file_name("notes.txt"), "notes.txt");
}

#[test]
fn fnv1a64_matches_reference_values() {
    const OFFSET: u64 = 0xcbf2_9ce4_8422_2325;
    assert_eq!(fnv1a64_update(OFFSET, b""), OFFSET);
    assert_eq!(fnv1a64_update(OFFSET, b"a"), 0xaf63_dc4c_8601_ec8c);
    assert_eq!(fnv1a64_update(OFFSET, b"foobar"), 0x8594_4171_f739_67e8);
    let split = fnv1a64_update(fnv1a64_update(OFFSET, b"foo"), b"bar");
    assert_eq!(split, fnv1a64_update(OFFSET, b"foobar"));
}

#[test]
fn trim_line_endings_strips_only_newlines() {
    assert_eq!(trim_line_endings("secret\r\n"), "secret");
    assert_eq!(trim_line_endings("secret\n\n"), "secret");
    assert_eq!(trim_line_endings(" secret "), " secret ");
}

#[test]
fn retry_policy_bounds_and_backoff() {
    assert_eq!(RetryPolicy::new(0, 100, 1000), Err(RetryPolicyError::InvalidAttempts(0)));
    assert_eq!(RetryPolicy::new(6, 100, 1000), Err(RetryPolicyError::InvalidAttempts(6)));
    assert_eq!(
        RetryPolicy::new(3, 0, 1000),
        Err(RetryPolicyError::InvalidBackoff { initial_ms: 0, maximum_ms: 1000 })
    );
    let policy = RetryPolicy::new(5, 100, 1000).unwrap();
    assert_eq!(policy.backoff_after_ms(1), 100);
    assert_eq!(policy.backoff_after_ms(2), 200);
    assert_eq!(policy.backoff_after_ms(4), 800);
    assert_eq!(policy.backoff_after_ms(5), 1000);
    assert_eq!(policy.backoff_after(3), Duration::from_millis(400));
    assert!(policy.allows_retry_after(4));
    assert!(!policy.allows_retry_after(5));
}

#[test]
fn ssh_config_resolves_known_hosts_under_home() {
    let config = SshConfig::new("example.com", "adam", Some("/home/adam")).unwrap();
    assert_eq!(config.known_hosts_file(), "/home/adam/.ssh/known_hosts");
    assert_eq!(config.timeout(), Duration::from_secs(30));
    let slash = SshConfig::new("example.com", "adam", Some("/home/adam/")).unwrap();
    assert_eq!(slash.known_hosts_file(), "/home/adam/.ssh/known_hosts");
    let missing = SshConfig::new("example.com", "adam", None).unwrap_err();
    assert_eq!(missing.kind(), SshErrorKind::InvalidInput);
    assert_eq!(missing.message(), "HOME is not set");
}

#[test]
fn ssh_verdicts() {
    assert!(host_key_verdict(HostKeyCheck::Match).is_ok());
    let mismatch = host_key_verdict(HostKeyCheck::Mismatch).unwrap_err();
    assert_eq!(mismatch.kind(), SshErrorKind::HostKey);
    assert_eq!(mismatch.message(), "host key does not match known_hosts");
    assert_eq!(host_key_verdict(HostKeyCheck::NotFound).unwrap_err().message(), "host is not present in known_hosts");
    assert!(authentication_verdict(Ok(()), true).is_ok());
    assert_eq!(
        authentication_verdict(Ok(()), false).unwrap_err().message(),
        "server did not accept authentication"
    );
    assert_eq!(authentication_verdict(Err("denied".to_owned()), true).unwrap_err().message(), "denied");
    assert!(check_connect_port(0).is_err());
    assert!(check_connect_port(22).is_ok());
    assert_eq!(session_timeout_ms(30_000), 30_000);
    assert_eq!(session_timeout_ms(u128::from(u32::MAX) + 1), 30_000);
}

#[test]
fn sftp_status_and_entry_kinds() {
    assert_eq!(sftp_error_kind(Some(2)), ErrorKind::NotFound);
    assert_eq!(sftp_error_kind(Some(3)), ErrorKind::PermissionDenied);
    assert_eq!(sftp_error_kind(Some(4)), ErrorKind::Protocol);
    assert_eq!(sftp_error_kind(None), ErrorKind::Protocol);
    assert_eq!(entry_kind_of(true, true, false), EntryKind::File);
    assert_eq!(entry_kind_of(false, true, true), EntryKind::Directory);
    assert_eq!(entry_kind_of(false, false, true), EntryKind::Symlink);
    assert_eq!(entry_kind_of(false, false, false), EntryKind::Other);
    let capabilities = file_backend_capabilities();
    assert_eq!(capabilities.atomic_rename, CapabilitySupport::Supported);
    assert_eq!(capabilities.resumable_write, CapabilitySupport::Unsupported);
}

fn entry(name: &str, size: u64) -> FileEntry {
    FileEntry {
        path: BackendPath::new(&format!("/d/{name}")).unwrap(),
        name: name.to_owned(),
        kind: EntryKind::File,
        size: Some(size),
        modified: None,
    }
}

#[test]
fn listing_sort_is_stable_by_name() {
    let sorted = sort_entries_by_name(vec![entry("b", 1), entry("a", 2), entry("b", 3), entry("B", 4)]);
    let names: Vec<(&str, u64)> = sorted.iter().map(|e| (e.name.as_str(), e.size.unwrap())).collect();
    assert_eq!(names, vec![("B", 4), ("a", 2), ("b", 1), ("b", 3)]);
}

fn profile(id: &str, name: &str) -> SavedConnection {
    SavedConnection::new(id, name, "example.com", "adam", 22, "/").unwrap()
}

#[test]
fn profiles_order_by_lowercased_name() {
    let mut profiles = ConnectionProfiles::default();
    profiles.upsert(profile("1", "beta"));
    profiles.upsert(profile("2", "Charlie"));
    profiles.upsert(profile("3", "alpha"));
    let names: Vec<&str> = profiles.profiles.iter().map(|p| p.name.as_str()).collect();
    assert_eq!(names, vec!["alpha", "beta", "Charlie"]);
    profiles.upsert(profile("1", "Zulu"));
    assert_eq!(profiles.find("1").unwrap().name, "Zulu");
    assert_eq!(profiles.profiles.len(), 3);
    assert!(profiles.remove("2"));
    assert!(!profiles.remove("2"));
    assert!(profiles.find("2").is_none());
}

#[test]
fn trusted_hosts_replace_and_look_up() {
    let mut hosts = TrustedHosts::default();
    hosts.trust("b.example", 22, "SHA256:one");
    hosts.trust("a.example", 2222, "SHA256:two");
    hosts.trust("b.example", 22, "SHA256:three");
    assert_eq!(hosts.hosts.len(), 2);
    assert_eq!(hosts.hosts[0].host, "a.example");
    assert_eq!(hosts.fingerprint("b.example", 22), Some("SHA256:three"));
    assert_eq!(hosts.fingerprint("b.example", 2222), None);
}

#[test]
fn pane_connection_titles() {
    let local = PaneConnection::local("local").unwrap();
    assert!(local.is_local());
    assert_eq!(local.display_name(), "Local");
    let remote = PaneConnection::sftp("prod", " example.com ", " adam ", 2222, PaneSftpAuth::Agent, None).unwrap();
    assert_eq!(remote.display_name(), "adam@example.com:2222");
    assert_eq!(remote.backend_id().as_str(), "prod");
    assert_eq!(
        PaneConnection::sftp("prod", "host", "adam", 0, PaneSftpAuth::Agent, None),
        Err("SFTP port must be non-zero.".to_owned())
    );
}

#[test]
fn metadata_answers_read_as_presence() {
    let path = BackendPath::new("/srv/a.txt").unwrap();
    let entry = FileEntry { path: path.clone(), name: "a.txt".to_owned(), kind: EntryKind::File, size: Some(1), modified: None };
    assert_eq!(presence(Ok(entry)).unwrap(), true);
    let missing = BackendError::new(ErrorKind::NotFound, "stat", Some(path.clone()), "gone");
    assert_eq!(presence(Err(missing)).unwrap(), false);
    let denied = BackendError::new(ErrorKind::PermissionDenied, "stat", Some(path), "denied");
    assert_eq!(presence(Err(denied)).unwrap_err().kind(), ErrorKind::PermissionDenied);
}

#[test]
fn remove_answers_read_as_removal() {
    assert_eq!(removal(Ok(())).unwrap(), true);
    let missing = BackendError::new(ErrorKind::NotFound, "remove", None, "gone");
    assert_eq!(removal(Err(missing)).unwrap(), false);
    let failed = BackendError::new(ErrorKind::Io, "remove", None, "busy");
    assert_eq!(removal(Err(failed)).unwrap_err().kind(), ErrorKind::Io);
}

#[test]
fn recovery_action_follows_phase_and_answers() {
    assert_eq!(recovery_action(RecoveryPhase::Staging, false, false, true, false), RecoveryAction::Cleaned);
    assert_eq!(recovery_action(RecoveryPhase::Staging, true, true, false, false), RecoveryAction::Noop);
    assert_eq!(recovery_action(RecoveryPhase::BackupMoved, true, true, false, false), RecoveryAction::Restored);
    assert_eq!(recovery_action(RecoveryPhase::BackupMoved, true, false, true, false), RecoveryAction::Cleaned);
    assert_eq!(recovery_action(RecoveryPhase::BackupMoved, false, true, false, false), RecoveryAction::Noop);
    assert_eq!(recovery_action(RecoveryPhase::Finalized, true, true, false, true), RecoveryAction::Cleaned);
    assert_eq!(recovery_action(RecoveryPhase::Finalized, true, true, false, false), RecoveryAction::Noop);
}

#[test]
fn empty_journal_is_discarded_and_others_saved() {
    let mut journal = RecoveryJournal::default();
    assert_eq!(journal.disposition(), JournalDisposition::Discard);
    journal.upsert(RecoveryEntry {
        operation_id: 3,
        destination: "/d".to_owned(),
        stage: None,
        backup: None,
        phase: RecoveryPhase::Staging,
    });
    assert_eq!(journal.disposition(), JournalDisposition::Save);
}

#[test]
fn stamp_comparison_sees_any_field() {
    let base = FileStamp { size: Some(4), modified: Some(10), fnv1a64: 99 };
    assert!(!stamp_changed(base, base));
    assert!(stamp_changed(FileStamp { fnv1a64: 98, ..base }, base));
    assert!(stamp_changed(FileStamp { modified: Some(11), ..base }, base));
    assert!(stamp_changed(FileStamp { size: None, ..base }, base));
}
