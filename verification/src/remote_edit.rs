//! Backend-neutral remote-edit session lifecycle: download a remote file into
//! a local workspace, detect local edits, and upload them back safely.

use vstd::prelude::*;
use crate::backend::{Backend, BackendError, ErrorKind};
use crate::cancel::CancellationToken;
use crate::domain::{BackendId, BackendPath, EntryKind};
use crate::job::Endpoint;
use crate::messages::{decimal, decimal_text, describe_reliability_error};
use crate::reliability::{ReliableTransferOutcome, execute_file_reliable};
use crate::runtime::{CopyConflictPolicy, CopyRequest, CopyRuntimeError, CopyRuntimeOutcome, execute_copy};
use crate::text::{concat2, concat3, ends_with_char, is_blank, is_blank_seq, last_index_of, owned, rfind_char, substring};
use crate::transfer::{MAX_STREAM_CHUNKS, TransferId, TransferProgress};
use crate::tree::TreeTransferProgress;

verus! {

/// FNV-1a 64-bit offset basis.
pub const FNV_OFFSET_BASIS: u64 = 0xcbf2_9ce4_8422_2325;

/// FNV-1a 64-bit prime.
pub const FNV_PRIME: u64 = 0x0100_0000_01b3;

/// FNV-1a over bytes, starting from a running hash.
pub open spec fn fnv_fold(hash: u64, bytes: Seq<u8>) -> u64
    decreases bytes.len(),
{
    if bytes.len() == 0 {
        hash
    } else {
        let h = fnv_fold(hash, bytes.drop_last());
        vstd::wrapping::u64_specs::wrapping_mul(h ^ (bytes.last() as u64), FNV_PRIME)
    }
}

/// Continues an FNV-1a 64-bit hash over more bytes.
pub fn fnv1a64_update(hash: u64, bytes: &[u8]) -> (r: u64)
    ensures
        r == fnv_fold(hash, bytes@),
{
    let mut h = hash;
    let mut i: usize = 0;
    while i < bytes.len()
        invariant
            i <= bytes@.len(),
            h == fnv_fold(hash, bytes@.subrange(0, i as int)),
        decreases bytes@.len() - i,
    {
        proof {
            let sub = bytes@.subrange(0, i + 1);
            assert(sub.drop_last() =~= bytes@.subrange(0, i as int));
            assert(sub.last() == bytes@[i as int]);
        }
        h = (h ^ (bytes[i] as u64)).wrapping_mul(FNV_PRIME);
        i = i + 1;
    }
    assert(bytes@.subrange(0, bytes@.len() as int) =~= bytes@);
    h
}

/// Snapshot used to detect local edits.
#[derive(Clone, Copy, Debug, PartialEq, Eq, Structural)]
pub struct FileStamp {
    /// Logical size.
    pub size: Option<u64>,
    /// Modification time in Unix seconds.
    pub modified: Option<u64>,
    /// Content fingerprint that catches same-size edits within coarse timestamp windows.
    pub fnv1a64: u64,
}

impl Default for FileStamp {
    fn default() -> (r: Self)
        ensures
            r.size is None,
            r.modified is None,
            r.fnv1a64 == 0,
    {
        FileStamp { size: None, modified: None, fnv1a64: 0 }
    }
}

/// One remote-edit session.
#[derive(Debug, PartialEq, Eq)]
pub struct RemoteEditSession {
    /// Stable operation identifier.
    pub id: TransferId,
    /// Remote source/destination endpoint.
    pub remote: Endpoint,
    /// Local working-copy endpoint.
    pub local: Endpoint,
    /// Initial or last-uploaded local stamp.
    pub baseline: FileStamp,
}

/// Remote-edit failure.
#[derive(Debug)]
pub enum RemoteEditError {
    /// Source is not a regular file.
    SourceNotFile(EntryKind),
    /// Backend operation failed.
    Backend(BackendError),
    /// Download orchestration failed.
    Download(CopyRuntimeError),
    /// Download unexpectedly skipped.
    DownloadSkipped,
    /// Download was cancelled.
    DownloadCancelled,
    /// Upload reliability failed.
    Upload(String),
    /// Upload was cancelled.
    UploadCancelled,
    /// Workspace path could not be represented.
    InvalidWorkspacePath,
}

/// A character that cannot stand in a single file name.
pub open spec fn unsafe_name_char(c: char) -> bool {
    c == '/' || c == '\\' || c == '\0'
}

/// Name with separators and NUL replaced by underscores.
pub open spec fn replaced_name(name: Seq<char>) -> Seq<char> {
    name.map_values(|c: char| if unsafe_name_char(c) { '_' } else { c })
}

/// A file name safe to create inside the workspace; blank names get a fixed name.
pub open spec fn sanitized_name(name: Seq<char>) -> Seq<char> {
    if is_blank_seq(replaced_name(name)) {
        "remote-edit-file"@
    } else {
        replaced_name(name)
    }
}

/// Replaces path separators and NUL in a file name; a blank result becomes
/// `remote-edit-file`.
pub fn sanitize_file_name(name: &str) -> (r: String)
    ensures
        r@ == sanitized_name(name@),
{
    let n = name.unicode_len();
    let mut out = String::new();
    let mut i: usize = 0;
    proof {
        reveal_strlit("_");
    }
    while i < n
        invariant
            n == name@.len(),
            i <= n,
            out@ == replaced_name(name@.subrange(0, i as int)),
        decreases n - i,
    {
        let c = name.get_char(i);
        let ghost before = out@;
        let ghost mapped = if unsafe_name_char(c) { '_' } else { c };
        if c == '/' || c == '\\' || c == '\0' {
            out.append("_");
            proof {
                reveal_strlit("_");
            }
            assert("_"@ =~= seq!['_']);
        } else {
            let piece = substring(name, i, i + 1);
            assert(piece@ =~= seq![c]);
            out.append(piece);
        }
        proof {
            assert(out@ =~= before.push(mapped));
            assert(name@.subrange(0, i + 1) =~= name@.subrange(0, i as int).push(c));
            assert(replaced_name(name@.subrange(0, i + 1)) =~= replaced_name(name@.subrange(0, i as int)).push(mapped));
        }
        i = i + 1;
    }
    assert(name@.subrange(0, n as int) =~= name@);
    if is_blank(out.as_str()) {
        owned("remote-edit-file")
    } else {
        out
    }
}

/// `base` joined with one relative component the way a path buffer pushes it:
/// an empty base takes the component as is, otherwise a separator is added
/// unless the base already ends with one.
pub open spec fn pushed_path(base: Seq<char>, component: Seq<char>) -> Seq<char> {
    if base.len() == 0 {
        component
    } else if base.last() == '/' {
        base + component
    } else {
        base + "/"@ + component
    }
}

fn push_component(base: &str, component: &str) -> (r: String)
    ensures
        r@ == pushed_path(base@, component@),
{
    proof {
        reveal_strlit("/");
    }
    if base.unicode_len() == 0 {
        owned(component)
    } else if ends_with_char(base, '/') {
        concat2(base, component)
    } else {
        concat3(base, "/", component)
    }
}

/// Workspace path of a session's working copy:
/// `{workspace_root}/session-{id}/{sanitized file name}`.
pub open spec fn session_local_text(workspace_root: Seq<char>, id: u64, file_name: Seq<char>) -> Seq<char> {
    pushed_path(pushed_path(workspace_root, "session-"@ + decimal_text(id as nat)), sanitized_name(file_name))
}

/// Creates a deterministic local workspace endpoint for a remote file.
pub fn create_session(
    id: TransferId,
    remote: Endpoint,
    local_backend: BackendId,
    workspace_root: &str,
    file_name: &str,
) -> (r: Result<RemoteEditSession, RemoteEditError>)
    ensures
        r is Ok,
        r matches Ok(s) ==> s.id == id && s.remote.backend@ == remote.backend@ && s.remote.path@
            == remote.path@,
        r matches Ok(s) ==> s.local.backend@ == local_backend@ && s.local.path@ == session_local_text(
            workspace_root@,
            id.spec_get(),
            file_name@,
        ),
        r matches Ok(s) ==> s.baseline == (FileStamp { size: None, modified: None, fnv1a64: 0 }),
{
    let safe_name = sanitize_file_name(file_name);
    let digits = decimal(id.get());
    let session_dir = concat2("session-", digits.as_str());
    let parent = push_component(workspace_root, session_dir.as_str());
    let local_text = push_component(parent.as_str(), safe_name.as_str());
    proof {
        reveal_strlit("session-");
        reveal_strlit("remote-edit-file");
        assert(local_text@.len() > 0) by {
            if is_blank_seq(replaced_name(file_name@)) {
                assert(sanitized_name(file_name@).len() > 0);
            } else {
                assert(replaced_name(file_name@).len() > 0);
            }
        }
    }
    let path = match BackendPath::from_string(local_text) {
        Ok(p) => p,
        Err(_) => return Err(RemoteEditError::InvalidWorkspacePath),
    };
    Ok(
        RemoteEditSession {
            id,
            remote,
            local: Endpoint { backend: local_backend, path },
            baseline: FileStamp::default(),
        },
    )
}

fn clone_endpoint(e: &Endpoint) -> (r: Endpoint)
    ensures
        r.backend@ == e.backend@,
        r.path@ == e.path@,
{
    Endpoint { backend: e.backend.clone(), path: e.path.clone() }
}

/// Metadata and content fingerprint of a file.
pub fn stamp<B: Backend>(backend: &B, path: &BackendPath) -> (r: Result<FileStamp, RemoteEditError>)
    ensures
        r matches Err(e) ==> e is Backend,
{
    let entry = match backend.stat(path) {
        Ok(e) => e,
        Err(e) => return Err(RemoteEditError::Backend(e)),
    };
    let mut reader = match backend.open_read(path) {
        Ok(r) => r,
        Err(e) => return Err(RemoteEditError::Backend(e)),
    };
    let mut hash = FNV_OFFSET_BASIS;
    let mut budget: u64 = MAX_STREAM_CHUNKS;
    loop
        decreases budget,
    {
        let chunk = match backend.read_chunk(&mut reader) {
            Ok(c) => c,
            Err(message) => {
                return Err(
                    RemoteEditError::Backend(
                        BackendError::new(
                            ErrorKind::Io,
                            "fingerprint remote-edit working copy",
                            Some(path.clone()),
                            message.as_str(),
                        ),
                    ),
                );
            },
        };
        if chunk.len() == 0 {
            break;
        }
        hash = fnv1a64_update(hash, chunk.as_slice());
        if budget == 0 {
            return Err(
                RemoteEditError::Backend(
                    BackendError::new(
                        ErrorKind::Io,
                        "fingerprint remote-edit working copy",
                        Some(path.clone()),
                        "stream is longer than a byte counter can describe",
                    ),
                ),
            );
        }
        budget = budget - 1;
    }
    Ok(FileStamp { size: entry.size, modified: entry.modified, fnv1a64: hash })
}

/// Creates every missing directory along an absolute path, outermost first.
fn ensure_directory_chain<B: Backend>(backend: &B, path: &str) -> (r: Result<(), RemoteEditError>)
    ensures
        r matches Err(e) ==> (e is Backend || e is InvalidWorkspacePath),
{
    let n = path.unicode_len();
    let mut current = String::new();
    let mut start: usize = 0;
    let mut i: usize = 0;
    while i <= n
        invariant
            n == path@.len(),
            start <= i,
            i <= n + 1,
            start <= n,
        decreases n + 1 - i,
    {
        let at_end = i == n;
        let separator = !at_end && path.get_char(i) == '/';
        if at_end || separator {
            if i > start {
                current.append("/");
                current.append(substring(path, start, i));
                let candidate = match BackendPath::new(current.as_str()) {
                    Ok(p) => p,
                    Err(_) => return Err(RemoteEditError::InvalidWorkspacePath),
                };
                match backend.stat(&candidate) {
                    Ok(_) => {},
                    Err(error) => {
                        if error.kind() == ErrorKind::NotFound {
                            match backend.create_dir(&candidate) {
                                Ok(()) => {},
                                Err(e) => return Err(RemoteEditError::Backend(e)),
                            }
                        } else {
                            return Err(RemoteEditError::Backend(error));
                        }
                    },
                }
            }
            if at_end {
                break;
            }
            start = i + 1;
        }
        i = i + 1;
    }
    Ok(())
}

/// Creates the parent directories of a working-copy path.
fn ensure_local_parent<B: Backend>(backend: &B, path: &BackendPath) -> (r: Result<(), RemoteEditError>)
    ensures
        r matches Err(e) ==> (e is Backend || e is InvalidWorkspacePath),
        last_index_of(path@, '/') is None || last_index_of(path@, '/') == Some(0int) ==> r is Ok,
{
    let text = path.as_str();
    match rfind_char(text, '/') {
        None => Ok(()),
        Some(i) => {
            if i == 0 {
                return Ok(());
            }
            ensure_directory_chain(backend, substring(text, 0, i))
        },
    }
}

/// Downloads the remote file into the local workspace and establishes the
/// baseline stamp.
pub fn download_initial<R: Backend, L: Backend>(
    session: &mut RemoteEditSession,
    remote_backend: &R,
    local_backend: &L,
    cancellation: &CancellationToken,
) -> (r: Result<(), RemoteEditError>)
    ensures
        final(session).id == old(session).id,
        final(session).remote == old(session).remote,
        final(session).local == old(session).local,
        r matches Err(RemoteEditError::SourceNotFile(kind)) ==> kind != EntryKind::File,
        r is Err ==> final(session).baseline == old(session).baseline,
{
    let remote_entry = match remote_backend.stat(&session.remote.path) {
        Ok(e) => e,
        Err(e) => return Err(RemoteEditError::Backend(e)),
    };
    if remote_entry.kind != EntryKind::File {
        return Err(RemoteEditError::SourceNotFile(remote_entry.kind));
    }
    match ensure_local_parent(local_backend, &session.local.path) {
        Ok(()) => {},
        Err(e) => return Err(e),
    }
    let request = CopyRequest {
        id: session.id,
        source: clone_endpoint(&session.remote),
        destination: clone_endpoint(&session.local),
        conflict_policy: CopyConflictPolicy::Replace,
    };
    let outcome = match execute_copy(
        &request,
        remote_backend,
        local_backend,
        cancellation,
        |p: TreeTransferProgress| {},
    ) {
        Ok(o) => o,
        Err(e) => return Err(RemoteEditError::Download(e)),
    };
    match outcome {
        CopyRuntimeOutcome::Completed(_) => {
            let baseline = match stamp(local_backend, &session.local.path) {
                Ok(s) => s,
                Err(e) => return Err(e),
            };
            session.baseline = baseline;
            Ok(())
        },
        CopyRuntimeOutcome::Skipped { .. } => Err(RemoteEditError::DownloadSkipped),
        CopyRuntimeOutcome::Cancelled(_) => Err(RemoteEditError::DownloadCancelled),
    }
}

/// Whether a freshly taken stamp shows an edit since the baseline: any
/// difference in size, modification time or fingerprint.
pub fn stamp_changed(current: FileStamp, baseline: FileStamp) -> (r: bool)
    ensures
        r == (current != baseline),
        r == (current.size != baseline.size || current.modified != baseline.modified || current.fnv1a64
            != baseline.fnv1a64),
{
    current != baseline
}

/// Whether the local working copy differs from the baseline.
pub fn local_changed<L: Backend>(session: &RemoteEditSession, local_backend: &L) -> (r: Result<bool, RemoteEditError>)
    ensures
        r matches Err(e) ==> e is Backend,
{
    match stamp(local_backend, &session.local.path) {
        Ok(current) => Ok(stamp_changed(current, session.baseline)),
        Err(e) => Err(e),
    }
}

/// Uploads a changed working copy through safe reliable replacement and
/// refreshes the baseline; an unchanged copy is not uploaded.
pub fn upload_changed<L: Backend, R: Backend>(
    session: &mut RemoteEditSession,
    local_backend: &L,
    remote_backend: &R,
    cancellation: &CancellationToken,
) -> (r: Result<bool, RemoteEditError>)
    ensures
        final(session).id == old(session).id,
        final(session).remote == old(session).remote,
        final(session).local == old(session).local,
        r matches Ok(false) ==> final(session).baseline == old(session).baseline,
        r is Err ==> final(session).baseline == old(session).baseline,
{
    let changed = match local_changed(session, local_backend) {
        Ok(c) => c,
        Err(e) => return Err(e),
    };
    if !changed {
        return Ok(false);
    }
    let outcome = match execute_file_reliable(
        session.id,
        clone_endpoint(&session.local),
        clone_endpoint(&session.remote),
        local_backend,
        remote_backend,
        cancellation,
        |p: TransferProgress| {},
    ) {
        Ok(o) => o,
        Err(e) => return Err(RemoteEditError::Upload(describe_reliability_error(&e))),
    };
    match outcome {
        ReliableTransferOutcome::Completed(_) => {
            let baseline = match stamp(local_backend, &session.local.path) {
                Ok(s) => s,
                Err(e) => return Err(e),
            };
            session.baseline = baseline;
            Ok(true)
        },
        ReliableTransferOutcome::Cancelled { .. } => Err(RemoteEditError::UploadCancelled),
    }
}

/// Why a pane selection cannot start a remote edit, if it cannot: the pane
/// must be remote, and its selection a regular file.
pub fn remote_edit_refusal(pane_is_local: bool, selected: Option<EntryKind>) -> (r: Option<&'static str>)
    ensures
        pane_is_local ==> (r matches Some(t) && t@
            == "Select a file in an SFTP pane. Local files can be opened directly."@),
        !pane_is_local && selected is None ==> (r matches Some(t) && t@ == "Select a remote file to edit."@),
        !pane_is_local && (selected matches Some(k) && k != EntryKind::File) ==> (r matches Some(t) && t@
            == "Remote Edit currently supports regular files."@),
        !pane_is_local && selected == Some(EntryKind::File) ==> r is None,
{
    if pane_is_local {
        return Some("Select a file in an SFTP pane. Local files can be opened directly.");
    }
    match selected {
        None => Some("Select a remote file to edit."),
        Some(EntryKind::File) => None,
        Some(_) => Some("Remote Edit currently supports regular files."),
    }
}

} // verus!
