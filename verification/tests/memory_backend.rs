use cyber_pumpkin::backend::{Backend, BackendError, ErrorKind};
use cyber_pumpkin::cancel::CancellationToken;
use cyber_pumpkin::domain::{
    BackendCapabilities, BackendId, BackendPath, CapabilitySupport, EntryKind, FileEntry,
};
use cyber_pumpkin::file_ops::remove_tree;
use cyber_pumpkin::job::Endpoint;
use cyber_pumpkin::recovery::{
    JournalStore, RecoveryAction, RecoveryEntry, RecoveryJournal, RecoveryPhase, recover_entry,
    recover_journal, recover_loaded,
};
use cyber_pumpkin::reliability::{
    ReliabilityError, ReliableFileRequest, ReliableTransferOutcome, ReliableTreeOutcome,
    execute_file_reliable, execute_file_reliable_request, execute_tree_reliable,
};
use cyber_pumpkin::remote_edit::{create_session, download_initial, local_changed, upload_changed};
use cyber_pumpkin::remote_edit::RemoteEditError;
use cyber_pumpkin::runtime::{CopyConflictPolicy, CopyRequest, CopyRuntimeError, CopyRuntimeOutcome, execute_copy};
use cyber_pumpkin::sync::{ConflictPolicy, SyncExecutionOutcome, execute_plan, execute_plan_with_conflicts};
use cyber_pumpkin::sync_plan::{SyncActionKind, SyncOptions, SyncPlanError, plan_one_way};
use cyber_pumpkin::job::TransferSpec;
use cyber_pumpkin::transfer::{
    ControlledTransferOutcome, DestinationPolicy, ExecutionError, TransferId, TransferJob, TransferState, execute_file,
    execute_file_controlled, execute_file_with_policy,
};
use cyber_pumpkin::tree::{RecursiveError, TreeTransferOutcome, execute_tree_controlled};
use std::cell::RefCell;
use std::collections::BTreeMap;

#[derive(Clone, Debug)]
enum Node {
    File(Vec<u8>, u64),
    Dir,
}

struct MemBackend {
    id: BackendId,
    nodes: RefCell<BTreeMap<String, Node>>,
    clock: RefCell<u64>,
    atomic_rename: bool,
}

struct MemReader {
    data: Vec<u8>,
    position: usize,
}

struct MemWriter {
    path: String,
}

impl MemBackend {
    fn new(id: &str) -> Self {
        let mut nodes = BTreeMap::new();
        nodes.insert("/".to_owned(), Node::Dir);
        MemBackend {
            id: BackendId::new(id).unwrap(),
            nodes: RefCell::new(nodes),
            clock: RefCell::new(1),
            atomic_rename: true,
        }
    }

    fn tick(&self) -> u64 {
        let mut clock = self.clock.borrow_mut();
        *clock += 1;
        *clock
    }

    fn put_dir(&self, path: &str) {
        self.nodes.borrow_mut().insert(path.to_owned(), Node::Dir);
    }

    fn put_file(&self, path: &str, data: &[u8]) {
        let stamp = self.tick();
        self.nodes.borrow_mut().insert(path.to_owned(), Node::File(data.to_vec(), stamp));
    }

    fn read(&self, path: &str) -> Option<Vec<u8>> {
        match self.nodes.borrow().get(path) {
            Some(Node::File(data, _)) => Some(data.clone()),
            _ => None,
        }
    }

    fn has_path(&self, path: &str) -> bool {
        self.nodes.borrow().contains_key(path)
    }

    fn paths(&self) -> Vec<String> {
        self.nodes.borrow().keys().cloned().collect()
    }

    fn missing(operation: &'static str, path: &BackendPath) -> BackendError {
        BackendError::new(ErrorKind::NotFound, operation, Some(path.clone()), "no such entry")
    }

    fn entry(path: &str, node: &Node) -> FileEntry {
        let name = path.rsplit('/').next().unwrap_or(path).to_owned();
        match node {
            Node::File(data, stamp) => FileEntry {
                path: BackendPath::new(path).unwrap(),
                name,
                kind: EntryKind::File,
                size: Some(data.len() as u64),
                modified: Some(*stamp),
            },
            Node::Dir => FileEntry {
                path: BackendPath::new(path).unwrap(),
                name,
                kind: EntryKind::Directory,
                size: None,
                modified: None,
            },
        }
    }

    fn parent_of(path: &str) -> String {
        match path.rfind('/') {
            Some(0) => "/".to_owned(),
            Some(i) => path[..i].to_owned(),
            None => "/".to_owned(),
        }
    }
}

impl Backend for MemBackend {
    type Reader = MemReader;
    type Writer = MemWriter;

    fn id(&self) -> &BackendId {
        &self.id
    }

    fn spec_id(&self) -> BackendId {
        self.id.clone()
    }

    fn spec_capabilities(&self) -> BackendCapabilities {
        self.capabilities()
    }

    fn capabilities(&self) -> BackendCapabilities {
        BackendCapabilities {
            resumable_write: CapabilitySupport::Unsupported,
            atomic_rename: if self.atomic_rename {
                CapabilitySupport::Supported
            } else {
                CapabilitySupport::Unsupported
            },
            unix_permissions: CapabilitySupport::Unsupported,
            server_checksum: CapabilitySupport::Unsupported,
        }
    }

    fn list(&self, path: &BackendPath) -> Result<Vec<FileEntry>, BackendError> {
        let nodes = self.nodes.borrow();
        match nodes.get(path.as_str()) {
            Some(Node::Dir) => {}
            _ => return Err(Self::missing("list", path)),
        }
        let mut out = Vec::new();
        for (key, node) in nodes.iter() {
            if key != "/" && Self::parent_of(key) == path.as_str() {
                out.push(Self::entry(key, node));
            }
        }
        Ok(out)
    }

    fn stat(&self, path: &BackendPath) -> Result<FileEntry, BackendError> {
        match self.nodes.borrow().get(path.as_str()) {
            Some(node) => Ok(Self::entry(path.as_str(), node)),
            None => Err(Self::missing("stat", path)),
        }
    }

    fn open_read(&self, path: &BackendPath) -> Result<MemReader, BackendError> {
        match self.read(path.as_str()) {
            Some(data) => Ok(MemReader { data, position: 0 }),
            None => Err(Self::missing("open for read", path)),
        }
    }

    fn open_write(&self, path: &BackendPath) -> Result<MemWriter, BackendError> {
        if !self.has_path(&Self::parent_of(path.as_str())) {
            return Err(Self::missing("open for write", path));
        }
        self.put_file(path.as_str(), b"");
        Ok(MemWriter { path: path.as_str().to_owned() })
    }

    fn read_chunk(&self, reader: &mut MemReader) -> Result<Vec<u8>, String> {
        let end = (reader.position + 3).min(reader.data.len());
        let chunk = reader.data[reader.position..end].to_vec();
        reader.position = end;
        Ok(chunk)
    }

    fn write_all(&self, writer: &mut MemWriter, bytes: &[u8]) -> Result<(), String> {
        let mut nodes = self.nodes.borrow_mut();
        match nodes.get_mut(&writer.path) {
            Some(Node::File(data, _)) => {
                data.extend_from_slice(bytes);
                Ok(())
            }
            _ => Err("writer target vanished".to_owned()),
        }
    }

    fn flush(&self, _writer: &mut MemWriter) -> Result<(), String> {
        Ok(())
    }

    fn create_dir(&self, path: &BackendPath) -> Result<(), BackendError> {
        if self.has_path(path.as_str()) {
            return Err(BackendError::new(ErrorKind::Io, "create directory", Some(path.clone()), "exists"));
        }
        self.put_dir(path.as_str());
        Ok(())
    }

    fn rename(&self, source: &BackendPath, destination: &BackendPath) -> Result<(), BackendError> {
        let mut nodes = self.nodes.borrow_mut();
        if !nodes.contains_key(source.as_str()) {
            return Err(Self::missing("rename", source));
        }
        let prefix = format!("{}/", source.as_str());
        let moved: Vec<String> = nodes
            .keys()
            .filter(|k| k.as_str() == source.as_str() || k.starts_with(&prefix))
            .cloned()
            .collect();
        for key in moved {
            let node = nodes.remove(&key).unwrap();
            let new_key = format!("{}{}", destination.as_str(), &key[source.as_str().len()..]);
            nodes.insert(new_key, node);
        }
        Ok(())
    }

    fn remove(&self, path: &BackendPath) -> Result<(), BackendError> {
        let mut nodes = self.nodes.borrow_mut();
        let prefix = format!("{}/", path.as_str());
        if nodes.keys().any(|k| k.starts_with(&prefix)) {
            return Err(BackendError::new(ErrorKind::Io, "remove", Some(path.clone()), "not empty"));
        }
        match nodes.remove(path.as_str()) {
            Some(_) => Ok(()),
            None => Err(Self::missing("remove", path)),
        }
    }
}

struct MemJournal {
    stored: RefCell<Option<RecoveryJournal>>,
}

impl JournalStore for MemJournal {
    fn location(&self) -> String {
        "memory journal".to_owned()
    }

    fn load(&self) -> Result<RecoveryJournal, String> {
        Ok(match &*self.stored.borrow() {
            Some(journal) => RecoveryJournal { version: journal.version, entries: journal.entries.clone() },
            None => RecoveryJournal::default(),
        })
    }

    fn save(&self, journal: &RecoveryJournal) -> Result<(), String> {
        *self.stored.borrow_mut() =
            Some(RecoveryJournal { version: journal.version, entries: journal.entries.clone() });
        Ok(())
    }

    fn discard(&self) -> Result<(), String> {
        *self.stored.borrow_mut() = None;
        Ok(())
    }
}

fn endpoint(backend: &MemBackend, path: &str) -> Endpoint {
    Endpoint { backend: backend.id().clone(), path: BackendPath::new(path).unwrap() }
}

#[test]
fn reliable_copy_creates_new_file_without_sidecars() {
    let source = MemBackend::new("source");
    let destination = MemBackend::new("destination");
    source.put_file("/in.bin", b"new payload");
    let outcome = execute_file_reliable(
        TransferId::new(40).unwrap(),
        endpoint(&source, "/in.bin"),
        endpoint(&destination, "/out.bin"),
        &source,
        &destination,
        &CancellationToken::new(),
        |_| {},
    )
    .unwrap();
    match outcome {
        ReliableTransferOutcome::Completed(report) => {
            assert_eq!(report.bytes_copied(), 11);
            assert!(!report.replaced_existing());
        }
        other => panic!("unexpected outcome {other:?}"),
    }
    assert_eq!(destination.read("/out.bin").unwrap(), b"new payload");
    assert_eq!(destination.paths(), vec!["/".to_owned(), "/out.bin".to_owned()]);
}

#[test]
fn reliable_copy_replaces_existing_file_and_removes_backup() {
    let source = MemBackend::new("source");
    let destination = MemBackend::new("destination");
    source.put_file("/in.bin", b"new payload");
    destination.put_file("/out.bin", b"old payload");
    let outcome = execute_file_reliable(
        TransferId::new(41).unwrap(),
        endpoint(&source, "/in.bin"),
        endpoint(&destination, "/out.bin"),
        &source,
        &destination,
        &CancellationToken::new(),
        |_| {},
    )
    .unwrap();
    assert!(matches!(outcome, ReliableTransferOutcome::Completed(report) if report.replaced_existing()));
    assert_eq!(destination.read("/out.bin").unwrap(), b"new payload");
    assert_eq!(destination.paths().len(), 2);
}

#[test]
fn reliable_copy_refuses_backend_without_atomic_rename() {
    let source = MemBackend::new("source");
    let mut destination = MemBackend::new("destination");
    destination.atomic_rename = false;
    source.put_file("/in.bin", b"x");
    let result = execute_file_reliable(
        TransferId::new(3).unwrap(),
        endpoint(&source, "/in.bin"),
        endpoint(&destination, "/out.bin"),
        &source,
        &destination,
        &CancellationToken::new(),
        |_| {},
    );
    assert!(matches!(result, Err(ReliabilityError::AtomicRenameUnsupported)));
}

#[test]
fn reliable_copy_reports_sidecar_collision() {
    let source = MemBackend::new("source");
    let destination = MemBackend::new("destination");
    source.put_file("/in.bin", b"x");
    destination.put_file("/out.bin.cyber-pumpkin-stage-12", b"stale");
    let result = execute_file_reliable(
        TransferId::new(12).unwrap(),
        endpoint(&source, "/in.bin"),
        endpoint(&destination, "/out.bin"),
        &source,
        &destination,
        &CancellationToken::new(),
        |_| {},
    );
    match result {
        Err(ReliabilityError::SidecarCollision { path }) => {
            assert_eq!(path.as_str(), "/out.bin.cyber-pumpkin-stage-12")
        }
        other => panic!("unexpected {other:?}"),
    }
}

#[test]
fn cancelled_reliable_copy_keeps_original() {
    let source = MemBackend::new("source");
    let destination = MemBackend::new("destination");
    source.put_file("/in.bin", b"0123456789abcdef");
    destination.put_file("/out.bin", b"keep me");
    let token = CancellationToken::new();
    token.cancel();
    let outcome = execute_file_reliable(
        TransferId::new(42).unwrap(),
        endpoint(&source, "/in.bin"),
        endpoint(&destination, "/out.bin"),
        &source,
        &destination,
        &token,
        |_| {},
    )
    .unwrap();
    assert!(matches!(outcome, ReliableTransferOutcome::Cancelled { .. }));
    assert_eq!(destination.read("/out.bin").unwrap(), b"keep me");
    assert_eq!(destination.paths().len(), 2);
}

#[test]
fn journaled_copy_leaves_no_journal_behind() {
    let source = MemBackend::new("source");
    let destination = MemBackend::new("destination");
    source.put_file("/in.bin", b"payload");
    destination.put_file("/out.bin", b"old");
    let journal = MemJournal { stored: RefCell::new(None) };
    let cancellation = CancellationToken::new();
    let outcome = execute_file_reliable_request(
        ReliableFileRequest {
            id: TransferId::new(7).unwrap(),
            source_endpoint: endpoint(&source, "/in.bin"),
            destination_endpoint: endpoint(&destination, "/out.bin"),
            source: &source,
            destination: &destination,
            cancellation: &cancellation,
            recovery_journal: Some(&journal),
        },
        |_| {},
    )
    .unwrap();
    assert!(matches!(outcome, ReliableTransferOutcome::Completed(_)));
    assert!(journal.stored.borrow().is_none());
    assert_eq!(destination.read("/out.bin").unwrap(), b"payload");
}

#[test]
fn pending_journal_is_recovered_before_new_work() {
    let backend = MemBackend::new("local");
    backend.put_file("/data.txt", b"partial replacement");
    backend.put_file("/data.txt.bak", b"original");
    let mut journal = RecoveryJournal::default();
    journal.upsert(RecoveryEntry {
        operation_id: 11,
        destination: "/data.txt".to_owned(),
        stage: None,
        backup: Some("/data.txt.bak".to_owned()),
        phase: RecoveryPhase::BackupMoved,
    });
    let store = MemJournal { stored: RefCell::new(Some(journal)) };
    let report = recover_journal(&backend, &store).unwrap();
    assert_eq!(report.entries_processed, 1);
    assert_eq!(report.restored, 1);
    assert_eq!(backend.read("/data.txt").unwrap(), b"original");
    assert!(!backend.has_path("/data.txt.bak"));
    assert!(store.stored.borrow().is_none());
}

#[test]
fn backup_moved_restores_missing_destination() {
    let backend = MemBackend::new("local");
    backend.put_file("/backup.txt", b"original");
    let action = recover_entry(
        &backend,
        &RecoveryEntry {
            operation_id: 10,
            destination: "/destination.txt".to_owned(),
            stage: None,
            backup: Some("/backup.txt".to_owned()),
            phase: RecoveryPhase::BackupMoved,
        },
    )
    .unwrap();
    assert_eq!(action, RecoveryAction::Restored);
    assert_eq!(backend.read("/destination.txt").unwrap(), b"original");
}

#[test]
fn finalized_recovery_cleans_leftover_backup() {
    let backend = MemBackend::new("local");
    backend.put_file("/destination.txt", b"new");
    backend.put_file("/backup.txt", b"old");
    let action = recover_entry(
        &backend,
        &RecoveryEntry {
            operation_id: 13,
            destination: "/destination.txt".to_owned(),
            stage: None,
            backup: Some("/backup.txt".to_owned()),
            phase: RecoveryPhase::Finalized,
        },
    )
    .unwrap();
    assert_eq!(action, RecoveryAction::Cleaned);
    assert!(!backend.has_path("/backup.txt"));
}

#[test]
fn recovery_rejects_empty_destination_text() {
    let backend = MemBackend::new("local");
    let error = recover_entry(
        &backend,
        &RecoveryEntry {
            operation_id: 1,
            destination: String::new(),
            stage: None,
            backup: None,
            phase: RecoveryPhase::Staging,
        },
    )
    .unwrap_err();
    assert_eq!(error.kind(), ErrorKind::InvalidInput);
    assert_eq!(error.operation(), "decode recovery destination");
}

#[test]
fn tree_replacement_swaps_directories() {
    let backend = MemBackend::new("local");
    backend.put_dir("/source");
    backend.put_dir("/source/new");
    backend.put_file("/source/new/value.txt", b"new");
    backend.put_dir("/destination");
    backend.put_dir("/destination/old");
    backend.put_file("/destination/old/value.txt", b"old");
    let spec = cyber_pumpkin::job::TransferSpec {
        source: endpoint(&backend, "/source"),
        destination: endpoint(&backend, "/destination"),
    };
    let outcome = execute_tree_reliable(
        TransferId::new(5).unwrap(),
        &spec,
        &backend,
        &backend,
        &CancellationToken::new(),
        true,
        |_| {},
    )
    .unwrap();
    assert!(matches!(outcome, ReliableTreeOutcome::Completed(report) if report.replaced_existing));
    assert_eq!(backend.read("/destination/new/value.txt").unwrap(), b"new");
    assert!(!backend.has_path("/destination/old"));
}

fn copy_request(backend: &MemBackend, source: &str, destination: &str, policy: CopyConflictPolicy) -> CopyRequest {
    CopyRequest {
        id: TransferId::new(1).unwrap(),
        source: endpoint(backend, source),
        destination: endpoint(backend, destination),
        conflict_policy: policy,
    }
}

#[test]
fn keep_both_copies_beside_the_original() {
    let backend = MemBackend::new("local");
    backend.put_file("/source.txt", b"new");
    backend.put_dir("/music");
    backend.put_file("/music/track.txt", b"old");
    let outcome = execute_copy(
        &copy_request(&backend, "/source.txt", "/music/track.txt", CopyConflictPolicy::KeepBoth),
        &backend,
        &backend,
        &CancellationToken::new(),
        |_| {},
    )
    .unwrap();
    match outcome {
        CopyRuntimeOutcome::Completed(report) => assert_eq!(report.destination.as_str(), "/music/track copy.txt"),
        other => panic!("unexpected {other:?}"),
    }
    assert_eq!(backend.read("/music/track.txt").unwrap(), b"old");
    assert_eq!(backend.read("/music/track copy.txt").unwrap(), b"new");
}

#[test]
fn keep_both_skips_taken_sibling_names() {
    let backend = MemBackend::new("local");
    backend.put_file("/source.txt", b"new");
    backend.put_dir("/music");
    backend.put_file("/music/track.txt", b"old");
    backend.put_file("/music/track copy.txt", b"older");
    let outcome = execute_copy(
        &copy_request(&backend, "/source.txt", "/music/track.txt", CopyConflictPolicy::KeepBoth),
        &backend,
        &backend,
        &CancellationToken::new(),
        |_| {},
    )
    .unwrap();
    match outcome {
        CopyRuntimeOutcome::Completed(report) => assert_eq!(report.destination.as_str(), "/music/track copy 2.txt"),
        other => panic!("unexpected {other:?}"),
    }
}

#[test]
fn skip_and_fail_policies_leave_destination_alone() {
    let backend = MemBackend::new("local");
    backend.put_file("/source.txt", b"new");
    backend.put_file("/destination.txt", b"old");
    let skipped = execute_copy(
        &copy_request(&backend, "/source.txt", "/destination.txt", CopyConflictPolicy::Skip),
        &backend,
        &backend,
        &CancellationToken::new(),
        |_| {},
    )
    .unwrap();
    assert!(matches!(skipped, CopyRuntimeOutcome::Skipped { .. }));
    let failed = execute_copy(
        &copy_request(&backend, "/source.txt", "/destination.txt", CopyConflictPolicy::Fail),
        &backend,
        &backend,
        &CancellationToken::new(),
        |_| {},
    );
    assert!(failed.is_err());
    assert_eq!(backend.read("/destination.txt").unwrap(), b"old");
}

#[test]
fn sync_plan_and_execution_mirror_the_source() {
    let source = MemBackend::new("source");
    let destination = MemBackend::new("destination");
    source.put_dir("/src");
    source.put_dir("/src/nested");
    source.put_file("/src/nested/file.txt", b"source");
    destination.put_dir("/dst");
    destination.put_file("/dst/orphan.txt", b"orphan");
    let options = SyncOptions { delete_orphans: true, follow_symlinks: false, rules: Vec::new() };
    let plan = plan_one_way(
        &source,
        &BackendPath::new("/src").unwrap(),
        &destination,
        &BackendPath::new("/dst").unwrap(),
        &options,
    )
    .unwrap();
    let kinds: Vec<(SyncActionKind, String)> =
        plan.actions().iter().map(|a| (a.kind, a.relative_path.clone())).collect();
    assert_eq!(
        kinds,
        vec![
            (SyncActionKind::CreateDirectory, "nested".to_owned()),
            (SyncActionKind::CopyFile, "nested/file.txt".to_owned()),
            (SyncActionKind::RemoveFile, "orphan.txt".to_owned()),
        ]
    );
    assert_eq!(plan.summary().directories_to_create, 1);
    assert_eq!(plan.summary().files_to_copy, 1);
    assert_eq!(plan.summary().entries_to_remove, 1);
    let outcome = execute_plan(&plan, &source, &destination, &CancellationToken::new(), |_| {}).unwrap();
    match outcome {
        SyncExecutionOutcome::Completed(report) => {
            assert_eq!(report.files_copied, 1);
            assert_eq!(report.directories_created, 1);
            assert_eq!(report.entries_removed, 1);
        }
        other => panic!("unexpected {other:?}"),
    }
    assert_eq!(destination.read("/dst/nested/file.txt").unwrap(), b"source");
    assert!(!destination.has_path("/dst/orphan.txt"));
}

#[test]
fn sync_conflicts_follow_the_policy() {
    let source = MemBackend::new("source");
    let destination = MemBackend::new("destination");
    source.put_dir("/src");
    source.put_file("/src/item", b"file");
    destination.put_dir("/dst");
    destination.put_dir("/dst/item");
    let plan = plan_one_way(
        &source,
        &BackendPath::new("/src").unwrap(),
        &destination,
        &BackendPath::new("/dst").unwrap(),
        &SyncOptions::default(),
    )
    .unwrap();
    assert_eq!(plan.summary().conflicts, 1);
    assert!(execute_plan(&plan, &source, &destination, &CancellationToken::new(), |_| {}).is_err());
    let skipped = execute_plan_with_conflicts(
        &plan,
        &source,
        &destination,
        &CancellationToken::new(),
        ConflictPolicy::Skip,
        |_| {},
    )
    .unwrap();
    assert!(matches!(skipped, SyncExecutionOutcome::Completed(report) if report.skipped == 1));
    let replaced = execute_plan_with_conflicts(
        &plan,
        &source,
        &destination,
        &CancellationToken::new(),
        ConflictPolicy::Replace,
        |_| {},
    )
    .unwrap();
    assert!(matches!(replaced, SyncExecutionOutcome::Completed(_)));
    assert_eq!(destination.read("/dst/item").unwrap(), b"file");
}

#[test]
fn cancelled_sync_changes_nothing() {
    let source = MemBackend::new("source");
    let destination = MemBackend::new("destination");
    source.put_dir("/src");
    source.put_file("/src/a.txt", b"a");
    destination.put_dir("/dst");
    let plan = plan_one_way(
        &source,
        &BackendPath::new("/src").unwrap(),
        &destination,
        &BackendPath::new("/dst").unwrap(),
        &SyncOptions::default(),
    )
    .unwrap();
    let token = CancellationToken::new();
    token.cancel();
    let outcome = execute_plan(&plan, &source, &destination, &token, |_| {}).unwrap();
    assert!(matches!(outcome, SyncExecutionOutcome::Cancelled(_)));
    assert!(!destination.has_path("/dst/a.txt"));
}

#[test]
fn remote_edit_round_trip() {
    let remote = MemBackend::new("remote");
    let local = MemBackend::new("local");
    remote.put_dir("/srv");
    remote.put_file("/srv/patch.txt", b"original");
    let mut session = create_session(
        TransferId::new(77).unwrap(),
        endpoint(&remote, "/srv/patch.txt"),
        local.id().clone(),
        "/work",
        "patch.txt",
    )
    .unwrap();
    assert_eq!(session.local.path.as_str(), "/work/session-77/patch.txt");
    download_initial(&mut session, &remote, &local, &CancellationToken::new()).unwrap();
    assert_eq!(local.read("/work/session-77/patch.txt").unwrap(), b"original");
    assert!(!local_changed(&session, &local).unwrap());
    local.put_file("/work/session-77/patch.txt", b"edited");
    assert!(local_changed(&session, &local).unwrap());
    assert!(upload_changed(&mut session, &local, &remote, &CancellationToken::new()).unwrap());
    assert_eq!(remote.read("/srv/patch.txt").unwrap(), b"edited");
    assert!(!upload_changed(&mut session, &local, &remote, &CancellationToken::new()).unwrap());
}

#[test]
fn file_copy_checks_backends_and_source_kind() {
    let source = MemBackend::new("source");
    let destination = MemBackend::new("destination");
    source.put_file("/a.txt", b"abc");
    source.put_dir("/folder");
    let spec = TransferSpec { source: endpoint(&source, "/a.txt"), destination: endpoint(&destination, "/a.txt") };
    let mut job = TransferJob::new(TransferId::new(5).unwrap(), spec);
    match execute_file(&mut job, &destination, &destination) {
        Err(ExecutionError::BackendMismatch { endpoint, .. }) => assert_eq!(endpoint, "source"),
        other => panic!("unexpected {other:?}"),
    }
    assert_eq!(job.state(), TransferState::Queued);

    let spec = TransferSpec { source: endpoint(&source, "/folder"), destination: endpoint(&destination, "/f") };
    let mut job = TransferJob::new(TransferId::new(6).unwrap(), spec);
    assert!(matches!(
        execute_file(&mut job, &source, &destination),
        Err(ExecutionError::SourceNotFile { kind: EntryKind::Directory })
    ));

    let spec = TransferSpec { source: endpoint(&source, "/a.txt"), destination: endpoint(&destination, "/b.txt") };
    let mut job = TransferJob::new(TransferId::new(7).unwrap(), spec);
    assert_eq!(execute_file(&mut job, &source, &destination).unwrap().bytes_copied(), 3);
    assert_eq!(destination.read("/b.txt").unwrap(), b"abc");
    assert!(matches!(execute_file(&mut job, &source, &destination), Err(ExecutionError::Lifecycle(_))));
    assert_eq!(job.state(), TransferState::Completed);
}

#[test]
fn tree_copy_checks_backends_and_copies_nested_files() {
    let source = MemBackend::new("source");
    let destination = MemBackend::new("destination");
    source.put_dir("/tree");
    source.put_dir("/tree/sub");
    source.put_file("/tree/sub/a.txt", b"a");
    source.put_file("/tree/b.txt", b"bb");
    let spec = TransferSpec { source: endpoint(&source, "/tree"), destination: endpoint(&destination, "/copy") };
    assert!(matches!(
        execute_tree_controlled(&spec, &source, &source, &CancellationToken::new(), |_| {}),
        Err(RecursiveError::Execution(ExecutionError::BackendMismatch { .. }))
    ));
    match execute_tree_controlled(&spec, &source, &destination, &CancellationToken::new(), |_| {}).unwrap() {
        TreeTransferOutcome::Completed(report) => {
            assert_eq!(report.files_copied(), 2);
            assert_eq!(report.directories_created(), 2);
            assert_eq!(report.bytes_copied(), 3);
        }
        other => panic!("unexpected {other:?}"),
    }
    assert_eq!(destination.read("/copy/sub/a.txt").unwrap(), b"a");
    assert_eq!(destination.read("/copy/b.txt").unwrap(), b"bb");
}

#[test]
fn sync_plan_requires_directory_roots() {
    let source = MemBackend::new("source");
    let destination = MemBackend::new("destination");
    source.put_file("/file.txt", b"x");
    destination.put_dir("/dst");
    let result = plan_one_way(
        &source,
        &BackendPath::new("/file.txt").unwrap(),
        &destination,
        &BackendPath::new("/dst").unwrap(),
        &SyncOptions::default(),
    );
    match result {
        Err(SyncPlanError::RootNotDirectory { path, kind }) => {
            assert_eq!(path.as_str(), "/file.txt");
            assert_eq!(kind, EntryKind::File);
        }
        other => panic!("unexpected {other:?}"),
    }
}

#[test]
fn remote_edit_refuses_directories() {
    let remote = MemBackend::new("remote");
    let local = MemBackend::new("local");
    remote.put_dir("/srv");
    let mut session =
        create_session(TransferId::new(8).unwrap(), endpoint(&remote, "/srv"), local.id().clone(), "/work", "srv")
            .unwrap();
    assert!(matches!(
        download_initial(&mut session, &remote, &local, &CancellationToken::new()),
        Err(RemoteEditError::SourceNotFile(EntryKind::Directory))
    ));
}

#[test]
fn keep_both_gives_up_after_the_last_sequence() {
    let backend = MemBackend::new("local");
    backend.put_file("/source.txt", b"new");
    backend.put_dir("/music");
    backend.put_file("/music/track.txt", b"old");
    backend.put_file("/music/track copy.txt", b"old");
    for sequence in 2..=999 {
        backend.put_file(&format!("/music/track copy {sequence}.txt"), b"old");
    }
    let result = execute_copy(
        &copy_request(&backend, "/source.txt", "/music/track.txt", CopyConflictPolicy::KeepBoth),
        &backend,
        &backend,
        &CancellationToken::new(),
        |_| {},
    );
    match result {
        Err(CopyRuntimeError::KeepBothExhausted(path)) => assert_eq!(path.as_str(), "/music/track.txt"),
        other => panic!("unexpected {other:?}"),
    }
}

fn same_backend_spec(backend: &MemBackend, source: &str, destination: &str) -> TransferSpec {
    TransferSpec { source: endpoint(backend, source), destination: endpoint(backend, destination) }
}

#[test]
fn cancellation_removes_partial_destination() {
    let backend = MemBackend::new("local");
    backend.put_file("/source.bin", &[0x5a; 30]);
    let cancellation = CancellationToken::new();
    let from_progress = cancellation.clone();
    let mut job = TransferJob::new(TransferId::new(91).unwrap(), same_backend_spec(&backend, "/source.bin", "/destination.bin"));
    let outcome = execute_file_controlled(&mut job, &backend, &backend, &cancellation, move |progress| {
        if progress.bytes_copied() > 0 {
            from_progress.cancel();
        }
    })
    .unwrap();
    assert!(matches!(outcome, ControlledTransferOutcome::Cancelled { bytes_copied } if bytes_copied > 0));
    assert_eq!(job.state(), TransferState::Cancelled);
    assert!(!backend.has_path("/destination.bin"));
}

#[test]
fn completed_controlled_transfer_reports_full_progress() {
    let backend = MemBackend::new("local");
    let payload = vec![0x33; 20];
    backend.put_file("/source.bin", &payload);
    let mut last = None;
    let mut job = TransferJob::new(TransferId::new(92).unwrap(), same_backend_spec(&backend, "/source.bin", "/destination.bin"));
    let outcome =
        execute_file_controlled(&mut job, &backend, &backend, &CancellationToken::new(), |progress| last = Some(progress))
            .unwrap();
    assert!(matches!(outcome, ControlledTransferOutcome::Completed(report) if report.bytes_copied() == 20));
    assert_eq!(last.map(|progress| progress.bytes_copied()), Some(20));
    assert_eq!(job.state(), TransferState::Completed);
    assert_eq!(backend.read("/destination.bin").unwrap(), payload);
}

#[test]
fn fail_if_exists_preserves_existing_destination() {
    let backend = MemBackend::new("local");
    backend.put_file("/source.bin", b"new-content");
    backend.put_file("/destination.bin", b"keep-content");
    let mut job = TransferJob::new(TransferId::new(1).unwrap(), same_backend_spec(&backend, "/source.bin", "/destination.bin"));
    let result = execute_file_with_policy(&mut job, &backend, &backend, DestinationPolicy::FailIfExists);
    assert!(matches!(result, Err(ExecutionError::DestinationExists { .. })));
    assert_eq!(job.state(), TransferState::Failed);
    assert_eq!(backend.read("/destination.bin").unwrap(), b"keep-content");
}

#[test]
fn local_executor_copies_and_verifies_file() {
    let backend = MemBackend::new("local");
    backend.put_file("/source.bin", b"cyber-pumpkin-phase-one");
    let mut job = TransferJob::new(TransferId::new(1).unwrap(), same_backend_spec(&backend, "/source.bin", "/destination.bin"));
    let report = execute_file(&mut job, &backend, &backend).unwrap();
    assert_eq!(report.bytes_copied(), 23);
    assert_eq!(job.state(), TransferState::Completed);
    assert_eq!(backend.read("/destination.bin").unwrap(), b"cyber-pumpkin-phase-one");
}

#[test]
fn nested_tree_copy_preserves_content() {
    let backend = MemBackend::new("local");
    backend.put_dir("/source");
    backend.put_dir("/source/nested");
    backend.put_dir("/source/nested/deeper");
    backend.put_file("/source/root.txt", b"root");
    backend.put_file("/source/nested/deeper/file.bin", b"nested");
    let spec = same_backend_spec(&backend, "/source", "/destination");
    let outcome = execute_tree_controlled(&spec, &backend, &backend, &CancellationToken::new(), |_| {}).unwrap();
    assert!(matches!(
        outcome,
        TreeTransferOutcome::Completed(report) if report.files_copied() == 2 && report.directories_created() == 3
    ));
    assert_eq!(backend.read("/destination/root.txt").unwrap(), b"root");
    assert_eq!(backend.read("/destination/nested/deeper/file.bin").unwrap(), b"nested");
}

#[test]
fn cancelled_tree_removes_every_created_object() {
    let backend = MemBackend::new("local");
    backend.put_dir("/source");
    backend.put_dir("/source/nested");
    backend.put_file("/source/nested/a.bin", &[0x55; 30]);
    backend.put_file("/source/nested/b.bin", &[0x66; 30]);
    let spec = same_backend_spec(&backend, "/source", "/destination");
    let token = CancellationToken::new();
    let from_progress = token.clone();
    let outcome = execute_tree_controlled(&spec, &backend, &backend, &token, move |progress| {
        if progress.bytes_copied() > 0 {
            from_progress.cancel();
        }
    })
    .unwrap();
    assert!(matches!(outcome, TreeTransferOutcome::Cancelled(_)));
    assert!(!backend.has_path("/destination"));
    assert!(!backend.paths().iter().any(|path| path.starts_with("/destination")));
}

fn children_of(backend: &MemBackend, directory: &str) -> usize {
    let prefix = format!("{directory}/");
    backend
        .paths()
        .iter()
        .filter(|p| p.starts_with(&prefix) && !p[prefix.len()..].contains('/'))
        .count()
}

#[test]
fn recursively_removes_non_empty_tree() {
    let backend = MemBackend::new("local");
    backend.put_dir("/root");
    backend.put_dir("/root/target");
    backend.put_dir("/root/target/nested");
    backend.put_dir("/root/target/nested/deeper");
    backend.put_file("/root/target/a.txt", b"a");
    backend.put_file("/root/target/nested/deeper/b.txt", b"b");
    let report = remove_tree(&backend, &BackendPath::new("/root/target").unwrap()).unwrap();
    assert_eq!(report.files_removed, 2);
    assert_eq!(report.directories_removed, 3);
    assert_eq!(report.entries_removed(), 5);
    assert!(!backend.has_path("/root/target"));
    assert!(backend.has_path("/root"));
}

#[test]
fn staging_recovery_keeps_committed_destination_when_stage_is_absent() {
    let backend = MemBackend::new("local");
    backend.put_dir("/root");
    backend.put_file("/root/destination.txt", b"committed");
    let action = recover_entry(
        &backend,
        &RecoveryEntry {
            operation_id: 12,
            destination: "/root/destination.txt".to_owned(),
            stage: Some("/root/stage.txt".to_owned()),
            backup: None,
            phase: RecoveryPhase::Staging,
        },
    )
    .unwrap();
    assert_eq!(action, RecoveryAction::Noop);
    assert_eq!(backend.read("/root/destination.txt").unwrap(), b"committed");
}

#[test]
fn backup_moved_rolls_back_partial_destination() {
    let backend = MemBackend::new("local");
    backend.put_dir("/root");
    backend.put_file("/root/destination.txt", b"partial replacement");
    backend.put_file("/root/backup.txt", b"original");
    let action = recover_entry(
        &backend,
        &RecoveryEntry {
            operation_id: 11,
            destination: "/root/destination.txt".to_owned(),
            stage: None,
            backup: Some("/root/backup.txt".to_owned()),
            phase: RecoveryPhase::BackupMoved,
        },
    )
    .unwrap();
    assert_eq!(action, RecoveryAction::Restored);
    assert_eq!(backend.read("/root/destination.txt").unwrap(), b"original");
    assert!(!backend.has_path("/root/backup.txt"));
}

#[test]
fn journaled_new_file_commits_and_removes_journal() {
    let source = MemBackend::new("source");
    let destination = MemBackend::new("destination");
    source.put_dir("/root");
    destination.put_dir("/root");
    source.put_file("/root/source.bin", b"new payload");
    let journal = MemJournal { stored: RefCell::new(None) };
    let cancellation = CancellationToken::new();
    let outcome = execute_file_reliable_request(
        ReliableFileRequest {
            id: TransferId::new(40).unwrap(),
            source_endpoint: endpoint(&source, "/root/source.bin"),
            destination_endpoint: endpoint(&destination, "/root/destination.bin"),
            source: &source,
            destination: &destination,
            cancellation: &cancellation,
            recovery_journal: Some(&journal),
        },
        |_| {},
    )
    .unwrap();
    assert!(matches!(outcome, ReliableTransferOutcome::Completed(_)));
    assert_eq!(destination.read("/root/destination.bin").unwrap(), b"new payload");
    assert!(journal.stored.borrow().is_none());
}

#[test]
fn safely_replaces_existing_file() {
    let source = MemBackend::new("source");
    let destination = MemBackend::new("destination");
    source.put_dir("/root");
    destination.put_dir("/root");
    source.put_file("/root/source.bin", b"new payload");
    destination.put_file("/root/destination.bin", b"old payload");
    let outcome = execute_file_reliable(
        TransferId::new(41).unwrap(),
        endpoint(&source, "/root/source.bin"),
        endpoint(&destination, "/root/destination.bin"),
        &source,
        &destination,
        &CancellationToken::new(),
        |_| {},
    )
    .unwrap();
    assert!(matches!(outcome, ReliableTransferOutcome::Completed(report) if report.replaced_existing()));
    assert_eq!(destination.read("/root/destination.bin").unwrap(), b"new payload");
    assert_eq!(children_of(&destination, "/root"), 1);
}

#[test]
fn cancellation_preserves_existing_file() {
    let source = MemBackend::new("source");
    let destination = MemBackend::new("destination");
    source.put_dir("/root");
    destination.put_dir("/root");
    source.put_file("/root/source.bin", &vec![0x44; 256 * 1024]);
    destination.put_file("/root/destination.bin", b"keep me");
    let cancellation = CancellationToken::new();
    let cancel_from_progress = cancellation.clone();
    let outcome = execute_file_reliable(
        TransferId::new(42).unwrap(),
        endpoint(&source, "/root/source.bin"),
        endpoint(&destination, "/root/destination.bin"),
        &source,
        &destination,
        &cancellation,
        move |progress| {
            if progress.bytes_copied() > 0 {
                cancel_from_progress.cancel();
            }
        },
    )
    .unwrap();
    assert!(matches!(outcome, ReliableTransferOutcome::Cancelled { .. }));
    assert_eq!(destination.read("/root/destination.bin").unwrap(), b"keep me");
    assert_eq!(children_of(&destination, "/root"), 1);
}

#[test]
fn local_change_round_trips_back_to_remote() {
    let remote = MemBackend::new("remote");
    let local = MemBackend::new("local");
    remote.put_dir("/root");
    remote.put_dir("/root/remote");
    remote.put_file("/root/remote/patch.txt", b"original");
    local.put_dir("/root");
    local.put_dir("/root/workspace");
    let mut session = create_session(
        TransferId::new(77).unwrap(),
        endpoint(&remote, "/root/remote/patch.txt"),
        local.id().clone(),
        "/root/workspace",
        "patch.txt",
    )
    .unwrap();
    download_initial(&mut session, &remote, &local, &CancellationToken::new()).unwrap();
    assert!(!local_changed(&session, &local).unwrap());
    local.put_file(session.local.path.as_str(), b"edited");
    assert!(local_changed(&session, &local).unwrap());
    assert!(upload_changed(&mut session, &local, &remote, &CancellationToken::new()).unwrap());
    assert_eq!(remote.read("/root/remote/patch.txt").unwrap(), b"edited");
}

fn sync_roots() -> (MemBackend, MemBackend) {
    let source = MemBackend::new("source");
    let destination = MemBackend::new("destination");
    source.put_dir("/root");
    source.put_dir("/root/source");
    destination.put_dir("/root");
    destination.put_dir("/root/destination");
    (source, destination)
}

fn plan_roots(
    source: &MemBackend,
    destination: &MemBackend,
    options: &SyncOptions,
) -> cyber_pumpkin::sync_plan::SyncPlan {
    plan_one_way(
        source,
        &BackendPath::new("/root/source").unwrap(),
        destination,
        &BackendPath::new("/root/destination").unwrap(),
        options,
    )
    .unwrap()
}

#[test]
fn plans_missing_tree_and_orphan_removal() {
    let (source, destination) = sync_roots();
    source.put_dir("/root/source/nested");
    source.put_file("/root/source/nested/file.txt", b"source");
    destination.put_file("/root/destination/orphan.txt", b"orphan");
    let options = SyncOptions { delete_orphans: true, ..SyncOptions::default() };
    let plan = plan_roots(&source, &destination, &options);
    assert!(
        plan.actions()
            .iter()
            .any(|a| a.kind == SyncActionKind::CreateDirectory && a.relative_path == "nested")
    );
    assert!(
        plan.actions()
            .iter()
            .any(|a| a.kind == SyncActionKind::CopyFile && a.relative_path == "nested/file.txt")
    );
    assert!(
        plan.actions()
            .iter()
            .any(|a| a.kind == SyncActionKind::RemoveFile && a.relative_path == "orphan.txt")
    );
}

#[test]
fn executes_planned_local_sync() {
    let (source, destination) = sync_roots();
    source.put_dir("/root/source/nested");
    source.put_file("/root/source/nested/a.txt", b"alpha");
    destination.put_file("/root/destination/orphan.txt", b"remove");
    let options = SyncOptions { delete_orphans: true, ..SyncOptions::default() };
    let plan = plan_roots(&source, &destination, &options);
    let outcome = execute_plan(&plan, &source, &destination, &CancellationToken::new(), |_| {}).unwrap();
    assert!(matches!(outcome, SyncExecutionOutcome::Completed(_)));
    assert_eq!(destination.read("/root/destination/nested/a.txt").unwrap(), b"alpha");
    assert!(!destination.has_path("/root/destination/orphan.txt"));
}

#[test]
fn replaces_existing_file_through_reliability_layer() {
    let (source, destination) = sync_roots();
    source.put_file("/root/source/a.txt", b"new content");
    destination.put_file("/root/destination/a.txt", b"old");
    let plan = plan_roots(&source, &destination, &SyncOptions::default());
    let outcome = execute_plan(&plan, &source, &destination, &CancellationToken::new(), |_| {}).unwrap();
    assert!(matches!(outcome, SyncExecutionOutcome::Completed(_)));
    assert_eq!(destination.read("/root/destination/a.txt").unwrap(), b"new content");
    assert_eq!(children_of(&destination, "/root/destination"), 1);
}

#[test]
fn cancellation_before_execution_changes_nothing() {
    let (source, destination) = sync_roots();
    source.put_file("/root/source/a.txt", b"alpha");
    let plan = plan_roots(&source, &destination, &SyncOptions::default());
    let cancellation = CancellationToken::new();
    cancellation.cancel();
    let outcome = execute_plan(&plan, &source, &destination, &cancellation, |_| {}).unwrap();
    assert!(matches!(outcome, SyncExecutionOutcome::Cancelled(_)));
    assert!(!destination.has_path("/root/destination/a.txt"));
}

#[test]
fn replace_policy_resolves_file_over_directory_conflict() {
    let (source, destination) = sync_roots();
    source.put_file("/root/source/node", b"replacement-file");
    destination.put_dir("/root/destination/node");
    destination.put_dir("/root/destination/node/nested");
    destination.put_file("/root/destination/node/nested/old.txt", b"old");
    let plan = plan_roots(&source, &destination, &SyncOptions::default());
    assert_eq!(plan.summary().conflicts, 1);
    let outcome = execute_plan_with_conflicts(
        &plan,
        &source,
        &destination,
        &CancellationToken::new(),
        ConflictPolicy::Replace,
        |_| {},
    )
    .unwrap();
    assert!(matches!(outcome, SyncExecutionOutcome::Completed(_)));
    assert_eq!(destination.read("/root/destination/node").unwrap(), b"replacement-file");
}

#[test]
fn skip_policy_preserves_conflicting_destination() {
    let (source, destination) = sync_roots();
    source.put_file("/root/source/node", b"replacement-file");
    destination.put_dir("/root/destination/node");
    destination.put_file("/root/destination/node/keep.txt", b"keep");
    let plan = plan_roots(&source, &destination, &SyncOptions::default());
    let outcome = execute_plan_with_conflicts(
        &plan,
        &source,
        &destination,
        &CancellationToken::new(),
        ConflictPolicy::Skip,
        |_| {},
    )
    .unwrap();
    assert!(matches!(outcome, SyncExecutionOutcome::Completed(_)));
    assert_eq!(destination.read("/root/destination/node/keep.txt").unwrap(), b"keep");
}

#[test]
fn replace_directory_tree_is_reliable() {
    let backend = MemBackend::new("local");
    backend.put_dir("/root");
    backend.put_dir("/root/source");
    backend.put_dir("/root/source/new");
    backend.put_file("/root/source/new/value.txt", b"new");
    backend.put_dir("/root/destination");
    backend.put_dir("/root/destination/old");
    backend.put_file("/root/destination/old/value.txt", b"old");
    let outcome = execute_copy(
        &copy_request(&backend, "/root/source", "/root/destination", CopyConflictPolicy::Replace),
        &backend,
        &backend,
        &CancellationToken::new(),
        |_| {},
    )
    .unwrap();
    assert!(matches!(outcome, CopyRuntimeOutcome::Completed(report) if report.replaced_existing));
    assert_eq!(backend.read("/root/destination/new/value.txt").unwrap(), b"new");
    assert!(!backend.has_path("/root/destination/old"));
}

#[test]
fn keep_both_preserves_original_file() {
    let backend = MemBackend::new("local");
    backend.put_dir("/root");
    backend.put_file("/root/source.txt", b"new");
    backend.put_file("/root/track.txt", b"old");
    let outcome = execute_copy(
        &copy_request(&backend, "/root/source.txt", "/root/track.txt", CopyConflictPolicy::KeepBoth),
        &backend,
        &backend,
        &CancellationToken::new(),
        |_| {},
    )
    .unwrap();
    assert_eq!(backend.read("/root/track.txt").unwrap(), b"old");
    assert_eq!(backend.read("/root/track copy.txt").unwrap(), b"new");
    assert!(matches!(outcome, CopyRuntimeOutcome::Completed(_)));
}

#[test]
fn skip_preserves_existing_destination() {
    let backend = MemBackend::new("local");
    backend.put_dir("/root");
    backend.put_file("/root/source.txt", b"new");
    backend.put_file("/root/destination.txt", b"old");
    let outcome = execute_copy(
        &copy_request(&backend, "/root/source.txt", "/root/destination.txt", CopyConflictPolicy::Skip),
        &backend,
        &backend,
        &CancellationToken::new(),
        |_| {},
    )
    .unwrap();
    assert!(matches!(outcome, CopyRuntimeOutcome::Skipped { .. }));
    assert_eq!(backend.read("/root/destination.txt").unwrap(), b"old");
}

#[test]
fn empty_plan_completes_without_work() {
    let (source, destination) = sync_roots();
    let plan = plan_roots(&source, &destination, &SyncOptions::default());
    assert!(plan.actions().is_empty());
    let token = CancellationToken::new();
    token.cancel();
    match execute_plan(&plan, &source, &destination, &token, |_| {}).unwrap() {
        SyncExecutionOutcome::Completed(report) => {
            assert_eq!(report.files_copied, 0);
            assert_eq!(report.entries_removed, 0);
            assert_eq!(report.skipped, 0);
        }
        other => panic!("unexpected {other:?}"),
    }
}

#[test]
fn loaded_journal_is_drained_entry_by_entry() {
    let backend = MemBackend::new("local");
    backend.put_dir("/root");
    backend.put_file("/root/a.txt.stage", b"partial");
    let mut journal = RecoveryJournal::default();
    journal.upsert(RecoveryEntry {
        operation_id: 1,
        destination: "/root/a.txt".to_owned(),
        stage: Some("/root/a.txt.stage".to_owned()),
        backup: None,
        phase: RecoveryPhase::Staging,
    });
    journal.upsert(RecoveryEntry {
        operation_id: 2,
        destination: "/root/b.txt".to_owned(),
        stage: None,
        backup: None,
        phase: RecoveryPhase::Finalized,
    });
    let store = MemJournal { stored: RefCell::new(None) };
    let report = recover_loaded(&backend, &store, journal).unwrap();
    assert_eq!(report.entries_processed, 2);
    assert_eq!(report.cleaned, 1);
    assert_eq!(report.noop, 1);
    assert!(!backend.has_path("/root/a.txt.stage"));
    assert!(store.stored.borrow().is_none());
}
