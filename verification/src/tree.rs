//! Recursive file-or-directory-tree transfer with aggregate progress.

use vstd::prelude::*;
use crate::backend::{Backend, BackendError, presence, removal};
use crate::cancel::CancellationToken;
use crate::domain::{BackendPath, EntryKind};
use crate::file_ops::saturating_sum;
use crate::text::{concat2, concat3, contains_char, ends_with_char, owned};
use crate::transfer::{
    execute_file_controlled_with, is_not_found, permille_of, scaled_permille,
    lemma_permille_at_most_one_thousand, validate_backend, ControlledTransferOutcome, Endpoint,
    ExecutionError, FileProgressMap, TransferId, TransferJob, TransferProgress, TransferSpec,
    MAX_STREAM_CHUNKS,
};

verus! {

/// Aggregate recursive-transfer progress.
#[derive(Clone, Copy, Debug, PartialEq, Eq, Structural)]
pub struct TreeTransferProgress {
    bytes_copied: u64,
    total_bytes: Option<u64>,
    files_copied: u64,
    total_files: u64,
    directories_created: u64,
}

impl TreeTransferProgress {
    /// Payload bytes written so far.
    pub closed spec fn spec_bytes_copied(self) -> u64 {
        self.bytes_copied
    }

    /// Total payload bytes when every size was known during planning.
    pub closed spec fn spec_total_bytes(self) -> Option<u64> {
        self.total_bytes
    }

    /// Files completely copied so far.
    pub closed spec fn spec_files_copied(self) -> u64 {
        self.files_copied
    }

    /// Total regular files in the plan.
    pub closed spec fn spec_total_files(self) -> u64 {
        self.total_files
    }

    /// Destination directories created so far.
    pub closed spec fn spec_directories_created(self) -> u64 {
        self.directories_created
    }

    /// Creates a snapshot.
    pub fn snapshot(
        bytes_copied: u64,
        total_bytes: Option<u64>,
        files_copied: u64,
        total_files: u64,
        directories_created: u64,
    ) -> (r: TreeTransferProgress)
        ensures
            r.spec_bytes_copied() == bytes_copied,
            r.spec_total_bytes() == total_bytes,
            r.spec_files_copied() == files_copied,
            r.spec_total_files() == total_files,
            r.spec_directories_created() == directories_created,
    {
        TreeTransferProgress { bytes_copied, total_bytes, files_copied, total_files, directories_created }
    }

    /// Payload bytes written so far.
    pub fn bytes_copied(self) -> (r: u64)
        ensures
            r == self.spec_bytes_copied(),
    {
        self.bytes_copied
    }

    /// Total payload bytes when all source sizes were known during planning.
    pub fn total_bytes(self) -> (r: Option<u64>)
        ensures
            r == self.spec_total_bytes(),
    {
        self.total_bytes
    }

    /// Files completely copied so far.
    pub fn files_copied(self) -> (r: u64)
        ensures
            r == self.spec_files_copied(),
    {
        self.files_copied
    }

    /// Total regular files in the plan.
    pub fn total_files(self) -> (r: u64)
        ensures
            r == self.spec_total_files(),
    {
        self.total_files
    }

    /// Destination directories created so far.
    pub fn directories_created(self) -> (r: u64)
        ensures
            r == self.spec_directories_created(),
    {
        self.directories_created
    }

    /// Overall progress in thousandths: by bytes when a positive byte total is
    /// known, otherwise by files; an empty plan counts as complete.
    pub fn permille(self) -> (r: Option<u16>)
        ensures
            (self.spec_total_bytes() matches Some(t) && t > 0) ==> (r matches Some(v) && v as int
                == scaled_permille(self.spec_bytes_copied(), self.spec_total_bytes()->0)),
            !(self.spec_total_bytes() matches Some(t) && t > 0) ==> (if self.spec_total_files() == 0 {
                r == Some(1000u16)
            } else {
                r matches Some(v) && v as int == scaled_permille(
                    self.spec_files_copied(),
                    self.spec_total_files(),
                )
            }),
    {
        match self.total_bytes {
            Some(total) => {
                if total > 0 {
                    proof {
                        lemma_permille_at_most_one_thousand(self.bytes_copied, total);
                    }
                    return permille_of(self.bytes_copied, total);
                }
            },
            None => {},
        }
        if self.total_files == 0 {
            return Some(1000);
        }
        proof {
            lemma_permille_at_most_one_thousand(self.files_copied, self.total_files);
        }
        permille_of(self.files_copied, self.total_files)
    }
}

/// Aggregate result for a file or directory-tree transfer.
#[derive(Clone, Copy, Debug, PartialEq, Eq, Structural)]
pub struct TreeTransferReport {
    bytes_copied: u64,
    files_copied: u64,
    directories_created: u64,
}

impl TreeTransferReport {
    /// Payload bytes copied.
    pub closed spec fn spec_bytes_copied(self) -> u64 {
        self.bytes_copied
    }

    /// Regular files copied.
    pub closed spec fn spec_files_copied(self) -> u64 {
        self.files_copied
    }

    /// Directories created.
    pub closed spec fn spec_directories_created(self) -> u64 {
        self.directories_created
    }

    /// Creates a report.
    pub fn with_counts(bytes_copied: u64, files_copied: u64, directories_created: u64) -> (r:
        TreeTransferReport)
        ensures
            r.spec_bytes_copied() == bytes_copied,
            r.spec_files_copied() == files_copied,
            r.spec_directories_created() == directories_created,
    {
        TreeTransferReport { bytes_copied, files_copied, directories_created }
    }

    /// Payload bytes copied.
    pub fn bytes_copied(self) -> (r: u64)
        ensures
            r == self.spec_bytes_copied(),
    {
        self.bytes_copied
    }

    /// Regular files copied.
    pub fn files_copied(self) -> (r: u64)
        ensures
            r == self.spec_files_copied(),
    {
        self.files_copied
    }

    /// Directories created.
    pub fn directories_created(self) -> (r: u64)
        ensures
            r == self.spec_directories_created(),
    {
        self.directories_created
    }
}

/// Terminal outcome for a recursively controlled transfer.
#[derive(Clone, Copy, Debug, PartialEq, Eq, Structural)]
pub enum TreeTransferOutcome {
    /// The entire plan completed successfully.
    Completed(TreeTransferReport),
    /// Cancellation was observed and everything created by the operation was removed.
    Cancelled(TreeTransferReport),
}

/// Recursive-transfer failure.
#[derive(Debug, PartialEq, Eq)]
pub enum RecursiveError {
    /// File executor or endpoint validation failed.
    Execution(ExecutionError),
    /// Backend enumeration, creation, or cleanup failed.
    Backend(BackendError),
    /// Destination root already exists.
    DestinationExists(BackendPath),
    /// Symbolic links and special entries are not copied.
    UnsupportedEntry {
        /// Unsupported source path.
        path: BackendPath,
        /// Unsupported entry kind.
        kind: EntryKind,
    },
    /// A backend child path could not be represented.
    InvalidChildPath(String),
    /// Cleanup failed after another failure.
    Cleanup(String),
}

/// Maps aggregate tree snapshots to the progress type a caller receives.
pub trait TreeProgressMap<Out> {
    /// Whether `out` is what this mapping gives for `progress`.
    spec fn maps_tree(&self, progress: TreeTransferProgress, out: Out) -> bool;

    /// Maps one aggregate snapshot.
    fn map_tree(&self, progress: TreeTransferProgress) -> (r: Out)
        ensures
            self.maps_tree(progress, r),
    ;
}

/// Delivers aggregate snapshots unchanged.
pub struct TreeProgressIdentity;

impl TreeProgressMap<TreeTransferProgress> for TreeProgressIdentity {
    open spec fn maps_tree(&self, progress: TreeTransferProgress, out: TreeTransferProgress) -> bool {
        out == progress
    }

    fn map_tree(&self, progress: TreeTransferProgress) -> TreeTransferProgress {
        progress
    }
}

/// Places a file-level snapshot inside the aggregate counters of a tree run.
pub struct FileInTree<'a, T> {
    /// Caller's tree mapping.
    pub outer: &'a T,
    /// Bytes copied by earlier files.
    pub base_bytes: u64,
    /// Planned total bytes.
    pub total_bytes: Option<u64>,
    /// Files completed before this one.
    pub files_copied: u64,
    /// Planned total files.
    pub total_files: u64,
    /// Directories created so far.
    pub directories_created: u64,
}

impl<'a, T> FileInTree<'a, T> {
    /// Aggregate snapshot of the tree run while the current file has copied
    /// `progress`.
    pub closed spec fn aggregate(&self, progress: TransferProgress) -> TreeTransferProgress {
        TreeTransferProgress {
            bytes_copied: saturating_sum(self.base_bytes, progress.spec_bytes_copied()),
            total_bytes: self.total_bytes,
            files_copied: self.files_copied,
            total_files: self.total_files,
            directories_created: self.directories_created,
        }
    }
}

impl<'a, O, T: TreeProgressMap<O>> FileProgressMap<O> for FileInTree<'a, T> {
    open spec fn maps_file(&self, progress: TransferProgress, out: O) -> bool {
        self.outer.maps_tree(self.aggregate(progress), out)
    }

    fn map_file(&self, progress: TransferProgress) -> O {
        self.outer.map_tree(
            TreeTransferProgress {
                bytes_copied: self.base_bytes.saturating_add(progress.bytes_copied()),
                total_bytes: self.total_bytes,
                files_copied: self.files_copied,
                total_files: self.total_files,
                directories_created: self.directories_created,
            },
        )
    }
}

/// One planned file copy.
pub struct PlannedFile {
    /// Source file.
    pub source: BackendPath,
    /// Destination file.
    pub destination: BackendPath,
}

/// Pre-enumerated directory-tree plan.
pub struct TreePlan {
    /// Destination directories in creation order; the first is the destination root.
    pub directories: Vec<BackendPath>,
    /// Planned file copies.
    pub files: Vec<PlannedFile>,
    /// Sum of planned file sizes when every size is known.
    pub total_bytes: Option<u64>,
}

/// `parent/name`, without doubling a trailing separator.
pub open spec fn joined_child(parent: Seq<char>, name: Seq<char>) -> Seq<char> {
    if parent.len() > 0 && parent.last() == '/' {
        parent + name
    } else {
        parent + seq!['/'] + name
    }
}

/// Joins a child name onto a parent path; names must be one non-empty component.
pub fn child_path(parent: &BackendPath, name: &str) -> (r: Result<BackendPath, RecursiveError>)
    ensures
        (name@.len() == 0 || name@.contains('/')) <==> r is Err,
        r matches Err(e) ==> (e matches RecursiveError::InvalidChildPath(t) && t@ == name@),
        r matches Ok(p) ==> p@ == joined_child(parent@, name@),
{
    if name.unicode_len() == 0 || contains_char(name, '/') {
        return Err(RecursiveError::InvalidChildPath(owned(name)));
    }
    let base = parent.as_str();
    let joined = if ends_with_char(base, '/') {
        concat2(base, name)
    } else {
        concat3(base, "/", name)
    };
    proof {
        reveal_strlit("/");
        assert("/"@ =~= seq!['/']);
    }
    match BackendPath::from_string(joined) {
        Ok(p) => Ok(p),
        Err(_) => Err(RecursiveError::InvalidChildPath(owned(name))),
    }
}

/// Running total of known sizes; unknown once any size is unknown.
pub open spec fn spec_add_known_size(total: Option<u64>, size: Option<u64>) -> Option<u64> {
    match (total, size) {
        (Some(t), Some(s)) => Some(if t + s > u64::MAX { u64::MAX } else { (t + s) as u64 }),
        _ => None,
    }
}

/// Adds one file size to a running total of known sizes.
pub fn add_known_size(total: Option<u64>, size: Option<u64>) -> (r: Option<u64>)
    ensures
        r == spec_add_known_size(total, size),
{
    match (total, size) {
        (Some(t), Some(s)) => Some(t.saturating_add(s)),
        _ => None,
    }
}

/// Aggregate snapshot for a report at a plan boundary.
pub fn progress_from_report(report: TreeTransferReport, total_bytes: Option<u64>, total_files: u64) -> (r:
    TreeTransferProgress)
    ensures
        r.spec_bytes_copied() == report.spec_bytes_copied(),
        r.spec_total_bytes() == total_bytes,
        r.spec_files_copied() == report.spec_files_copied(),
        r.spec_total_files() == total_files,
        r.spec_directories_created() == report.spec_directories_created(),
{
    TreeTransferProgress {
        bytes_copied: report.bytes_copied,
        total_bytes,
        files_copied: report.files_copied,
        total_files,
        directories_created: report.directories_created,
    }
}

/// How a recursive transfer answers backends other than the ones its spec
/// names: the first endpoint whose backend differs is reported, the source
/// first; a transfer that succeeds ran on the named backends.
pub open spec fn tree_mismatch_reported(
    spec: TransferSpec,
    source_id: Seq<char>,
    destination_id: Seq<char>,
    r: Result<TreeTransferOutcome, RecursiveError>,
) -> bool {
    &&& spec.source.backend@ != source_id ==> (r matches Err(
        RecursiveError::Execution(ExecutionError::BackendMismatch { endpoint: p, expected: x, actual: y }),
    ) && p@ == "source"@ && x@ == spec.source.backend@ && y@ == source_id)
    &&& spec.source.backend@ == source_id && spec.destination.backend@ != destination_id ==> (r matches Err(
        RecursiveError::Execution(ExecutionError::BackendMismatch { endpoint: p, expected: x, actual: y }),
    ) && p@ == "destination"@ && x@ == spec.destination.backend@ && y@ == destination_id)
    &&& r is Ok ==> spec.source.backend@ == source_id && spec.destination.backend@ == destination_id
}

/// Copies one regular file or one complete directory tree.
///
/// The destination root must not already exist. Cancellation and execution
/// failures remove the files and directories the operation created.
pub fn execute_tree_controlled<S: Backend, D: Backend, F: FnMut(TreeTransferProgress)>(
    spec: &TransferSpec,
    source: &S,
    destination: &D,
    cancellation: &CancellationToken,
    on_progress: F,
) -> (r: Result<TreeTransferOutcome, RecursiveError>)
    requires
        forall|p: TreeTransferProgress| call_requires(on_progress, (p,)),
    ensures
        tree_mismatch_reported(*spec, source.spec_id()@, destination.spec_id()@, r),
        r matches Ok(TreeTransferOutcome::Completed(report)) ==> (report.spec_files_copied() == 1
            && report.spec_directories_created() == 0) || report.spec_directories_created() >= 1,
        r matches Err(RecursiveError::DestinationExists(p)) ==> p@ == spec.destination.path@,
{
    let mut on_progress = on_progress;
    execute_tree_controlled_with::<S, D, TreeTransferProgress, TreeProgressIdentity, F>(
        spec,
        source,
        destination,
        cancellation,
        &TreeProgressIdentity,
        &mut on_progress,
    )
}

/// Recursive transfer reporting progress through a mapping of tree snapshots.
pub fn execute_tree_controlled_with<S: Backend, D: Backend, O, T: TreeProgressMap<O>, F: FnMut(O)>(
    spec: &TransferSpec,
    source: &S,
    destination: &D,
    cancellation: &CancellationToken,
    map: &T,
    on_progress: &mut F,
) -> (r: Result<TreeTransferOutcome, RecursiveError>)
    requires
        forall|p: O| call_requires(*old(on_progress), (p,)),
    ensures
        forall|p: O| call_requires(*final(on_progress), (p,)),
        tree_mismatch_reported(*spec, source.spec_id()@, destination.spec_id()@, r),
        r matches Ok(TreeTransferOutcome::Completed(report)) ==> (report.spec_files_copied() == 1
            && report.spec_directories_created() == 0) || report.spec_directories_created() >= 1,
        r matches Err(RecursiveError::DestinationExists(p)) ==> p@ == spec.destination.path@,
{
    match validate_backend("source", &spec.source.backend, source.id()) {
        Ok(()) => {},
        Err(e) => return Err(RecursiveError::Execution(e)),
    }
    match validate_backend("destination", &spec.destination.backend, destination.id()) {
        Ok(()) => {},
        Err(e) => return Err(RecursiveError::Execution(e)),
    }
    match ensure_destination_absent(destination, &spec.destination.path) {
        Ok(()) => {},
        Err(e) => return Err(e),
    }
    let source_entry = match source.stat(&spec.source.path) {
        Ok(entry) => entry,
        Err(e) => return Err(RecursiveError::Backend(e)),
    };
    match source_entry.kind {
        EntryKind::File => execute_single_file::<S, D, O, T, F>(
            spec,
            source,
            destination,
            cancellation,
            source_entry.size,
            map,
            on_progress,
        ),
        EntryKind::Directory => {
            let plan = match plan_directory_tree(spec, source) {
                Ok(plan) => plan,
                Err(e) => return Err(e),
            };
            execute_directory_plan::<S, D, O, T, F>(
                spec,
                source,
                destination,
                cancellation,
                &plan,
                map,
                on_progress,
            )
        },
        kind => Err(RecursiveError::UnsupportedEntry { path: spec.source.path.clone(), kind }),
    }
}

fn clone_spec(spec: &TransferSpec) -> (r: TransferSpec)
    ensures
        r.source.backend@ == spec.source.backend@,
        r.source.path@ == spec.source.path@,
        r.destination.backend@ == spec.destination.backend@,
        r.destination.path@ == spec.destination.path@,
{
    TransferSpec {
        source: Endpoint { backend: spec.source.backend.clone(), path: spec.source.path.clone() },
        destination: Endpoint {
            backend: spec.destination.backend.clone(),
            path: spec.destination.path.clone(),
        },
    }
}

fn execute_single_file<S: Backend, D: Backend, O, T: TreeProgressMap<O>, F: FnMut(O)>(
    spec: &TransferSpec,
    source: &S,
    destination: &D,
    cancellation: &CancellationToken,
    total_bytes: Option<u64>,
    map: &T,
    on_progress: &mut F,
) -> (r: Result<TreeTransferOutcome, RecursiveError>)
    requires
        forall|p: O| call_requires(*old(on_progress), (p,)),
    ensures
        forall|p: O| call_requires(*final(on_progress), (p,)),
        r matches Ok(TreeTransferOutcome::Completed(report)) ==> report.spec_files_copied() == 1
            && report.spec_directories_created() == 0,
        r matches Ok(TreeTransferOutcome::Cancelled(report)) ==> report.spec_files_copied() == 0
            && report.spec_directories_created() == 0,
        !(r matches Err(RecursiveError::DestinationExists(_))),
{
    let id = match TransferId::new(1) {
        Ok(id) => id,
        Err(e) => return Err(RecursiveError::Execution(ExecutionError::Lifecycle(e))),
    };
    let mut job = TransferJob::new(id, clone_spec(spec));
    let file_map = FileInTree {
        outer: map,
        base_bytes: 0,
        total_bytes,
        files_copied: 0,
        total_files: 1,
        directories_created: 0,
    };
    let outcome = execute_file_controlled_with::<S, D, O, FileInTree<'_, T>, F>(
        &mut job,
        source,
        destination,
        cancellation,
        &file_map,
        on_progress,
    );
    match outcome {
        Ok(ControlledTransferOutcome::Completed(report)) => {
            let tree = TreeTransferReport {
                bytes_copied: report.bytes_copied(),
                files_copied: 1,
                directories_created: 0,
            };
            on_progress(map.map_tree(progress_from_report(tree, total_bytes, 1)));
            Ok(TreeTransferOutcome::Completed(tree))
        },
        Ok(ControlledTransferOutcome::Cancelled { bytes_copied }) => {
            Ok(
                TreeTransferOutcome::Cancelled(
                    TreeTransferReport { bytes_copied, files_copied: 0, directories_created: 0 },
                ),
            )
        },
        Err(e) => Err(RecursiveError::Execution(e)),
    }
}

/// Enumerates a source directory breadth-first into destination directories
/// and file copies; symbolic links and special entries are refused.
pub fn plan_directory_tree<S: Backend>(spec: &TransferSpec, source: &S) -> (r: Result<
    TreePlan,
    RecursiveError,
>)
    ensures
        r matches Ok(plan) ==> plan.directories@.len() >= 1 && plan.directories@[0]@
            == spec.destination.path@,
        !(r matches Err(RecursiveError::DestinationExists(_))),
{
    let mut directories: Vec<BackendPath> = Vec::new();
    directories.push(spec.destination.path.clone());
    let mut files: Vec<PlannedFile> = Vec::new();
    let mut total_bytes: Option<u64> = Some(0);
    let mut queue: Vec<(BackendPath, BackendPath)> = Vec::new();
    queue.push((spec.source.path.clone(), spec.destination.path.clone()));
    let mut head: usize = 0;
    let mut budget: u64 = MAX_STREAM_CHUNKS;
    while head < queue.len()
        invariant
            head <= queue.len(),
            directories@.len() >= 1,
            directories@[0]@ == spec.destination.path@,
        decreases budget,
    {
        if budget == 0 {
            return Err(RecursiveError::InvalidChildPath(owned("directory tree is too large")));
        }
        budget = budget - 1;
        let source_dir = queue[head].0.clone();
        let destination_dir = queue[head].1.clone();
        head = head + 1;
        let entries = match source.list(&source_dir) {
            Ok(entries) => entries,
            Err(e) => return Err(RecursiveError::Backend(e)),
        };
        let mut i: usize = 0;
        while i < entries.len()
            invariant
                head <= queue.len(),
                directories@.len() >= 1,
                directories@[0]@ == spec.destination.path@,
            decreases entries.len() - i,
        {
            let entry = &entries[i];
            let destination_child = match child_path(&destination_dir, entry.name.as_str()) {
                Ok(p) => p,
                Err(e) => return Err(e),
            };
            match entry.kind {
                EntryKind::Directory => {
                    directories.push(destination_child.clone());
                    queue.push((entry.path.clone(), destination_child));
                },
                EntryKind::File => {
                    total_bytes = add_known_size(total_bytes, entry.size);
                    files.push(PlannedFile { source: entry.path.clone(), destination: destination_child });
                },
                kind => {
                    return Err(RecursiveError::UnsupportedEntry { path: entry.path.clone(), kind });
                },
            }
            i = i + 1;
        }
    }
    Ok(TreePlan { directories, files, total_bytes })
}

fn execute_directory_plan<S: Backend, D: Backend, O, T: TreeProgressMap<O>, F: FnMut(O)>(
    spec: &TransferSpec,
    source: &S,
    destination: &D,
    cancellation: &CancellationToken,
    plan: &TreePlan,
    map: &T,
    on_progress: &mut F,
) -> (r: Result<TreeTransferOutcome, RecursiveError>)
    requires
        forall|p: O| call_requires(*old(on_progress), (p,)),
    ensures
        forall|p: O| call_requires(*final(on_progress), (p,)),
        r matches Ok(TreeTransferOutcome::Completed(report)) ==> report.spec_files_copied()
            == plan.files@.len() && report.spec_directories_created() == plan.directories@.len(),
        plan.directories@.len() == 0 && plan.files@.len() == 0 ==> (r matches Ok(
            TreeTransferOutcome::Completed(report),
        ) && report.spec_bytes_copied() == 0 && report.spec_files_copied() == 0
            && report.spec_directories_created() == 0),
        !(r matches Err(RecursiveError::DestinationExists(_))),
{
    let total_files: u64 = plan.files.len() as u64;
    let mut report = TreeTransferReport { bytes_copied: 0, files_copied: 0, directories_created: 0 };
    let mut created_files: Vec<BackendPath> = Vec::new();
    let mut created_directories: Vec<BackendPath> = Vec::new();
    let mut d: usize = 0;
    while d < plan.directories.len()
        invariant
            forall|p: O| call_requires(*on_progress, (p,)),
            d <= plan.directories@.len(),
            report.spec_directories_created() == d,
            report.spec_files_copied() == 0,
            report.spec_bytes_copied() == 0,
        decreases plan.directories@.len() - d,
    {
        if cancellation.is_cancelled() {
            match cleanup_created(destination, &created_files, &created_directories) {
                Ok(()) => {},
                Err(e) => return Err(e),
            }
            return Ok(TreeTransferOutcome::Cancelled(report));
        }
        let directory = &plan.directories[d];
        match destination.create_dir(directory) {
            Ok(()) => {},
            Err(error) => {
                match cleanup_created(destination, &created_files, &created_directories) {
                    Ok(()) => {},
                    Err(cleanup) => return Err(cleanup_failure(cleanup)),
                }
                return Err(RecursiveError::Backend(error));
            },
        }
        created_directories.push(directory.clone());
        report.directories_created = report.directories_created + 1;
        on_progress(map.map_tree(progress_from_report(report, plan.total_bytes, total_files)));
        d = d + 1;
    }
    let mut f: usize = 0;
    while f < plan.files.len()
        invariant
            forall|p: O| call_requires(*on_progress, (p,)),
            f <= plan.files@.len(),
            report.spec_directories_created() == plan.directories@.len(),
            report.spec_files_copied() == f,
            f == 0 ==> report.spec_bytes_copied() == 0,
        decreases plan.files@.len() - f,
    {
        if cancellation.is_cancelled() {
            match cleanup_created(destination, &created_files, &created_directories) {
                Ok(()) => {},
                Err(e) => return Err(e),
            }
            return Ok(TreeTransferOutcome::Cancelled(report));
        }
        let file = &plan.files[f];
        let id_value: u64 = (f as u64).saturating_add(1);
        let id = match TransferId::new(id_value) {
            Ok(id) => id,
            Err(e) => return Err(RecursiveError::Execution(ExecutionError::Lifecycle(e))),
        };
        let child_spec = TransferSpec {
            source: Endpoint { backend: spec.source.backend.clone(), path: file.source.clone() },
            destination: Endpoint {
                backend: spec.destination.backend.clone(),
                path: file.destination.clone(),
            },
        };
        let mut job = TransferJob::new(id, child_spec);
        let file_map = FileInTree {
            outer: map,
            base_bytes: report.bytes_copied,
            total_bytes: plan.total_bytes,
            files_copied: report.files_copied,
            total_files,
            directories_created: report.directories_created,
        };
        let outcome = execute_file_controlled_with::<S, D, O, FileInTree<'_, T>, F>(
            &mut job,
            source,
            destination,
            cancellation,
            &file_map,
            on_progress,
        );
        match outcome {
            Ok(ControlledTransferOutcome::Completed(file_report)) => {
                report.bytes_copied = report.bytes_copied.saturating_add(file_report.bytes_copied());
                report.files_copied = report.files_copied + 1;
                created_files.push(file.destination.clone());
                on_progress(map.map_tree(progress_from_report(report, plan.total_bytes, total_files)));
            },
            Ok(ControlledTransferOutcome::Cancelled { bytes_copied }) => {
                let cancelled_report = TreeTransferReport {
                    bytes_copied: report.bytes_copied.saturating_add(bytes_copied),
                    files_copied: report.files_copied,
                    directories_created: report.directories_created,
                };
                match cleanup_created(destination, &created_files, &created_directories) {
                    Ok(()) => {},
                    Err(e) => return Err(e),
                }
                return Ok(TreeTransferOutcome::Cancelled(cancelled_report));
            },
            Err(error) => {
                match cleanup_created(destination, &created_files, &created_directories) {
                    Ok(()) => {},
                    Err(cleanup) => return Err(cleanup_failure(cleanup)),
                }
                return Err(RecursiveError::Execution(error));
            },
        }
        f = f + 1;
    }
    Ok(TreeTransferOutcome::Completed(report))
}

fn cleanup_failure(cleanup: RecursiveError) -> (r: RecursiveError)
    ensures
        r is Cleanup,
{
    let detail = match cleanup {
        RecursiveError::Backend(e) => concat2(e.operation(), " failed during cleanup"),
        _ => owned("cleanup failed"),
    };
    RecursiveError::Cleanup(detail)
}

fn ensure_destination_absent<D: Backend>(destination: &D, path: &BackendPath) -> (r: Result<
    (),
    RecursiveError,
>)
    ensures
        r matches Err(e) ==> (e is DestinationExists || e is Backend),
        r matches Err(RecursiveError::DestinationExists(p)) ==> p@ == path@,
{
    match presence(destination.stat(path)) {
        Ok(true) => Err(RecursiveError::DestinationExists(path.clone())),
        Ok(false) => Ok(()),
        Err(error) => Err(RecursiveError::Backend(error)),
    }
}

/// Removes created files newest-first, then created directories newest-first.
fn cleanup_created<D: Backend>(
    destination: &D,
    files: &Vec<BackendPath>,
    directories: &Vec<BackendPath>,
) -> (r: Result<(), RecursiveError>)
    ensures
        r matches Err(e) ==> e is Backend,
        files@.len() == 0 && directories@.len() == 0 ==> r is Ok,
{
    let mut i: usize = files.len();
    while i > 0
        invariant
            i <= files@.len(),
        decreases i,
    {
        i = i - 1;
        match remove_owned(destination, &files[i]) {
            Ok(()) => {},
            Err(e) => return Err(e),
        }
    }
    let mut j: usize = directories.len();
    while j > 0
        invariant
            j <= directories@.len(),
        decreases j,
    {
        j = j - 1;
        match remove_owned(destination, &directories[j]) {
            Ok(()) => {},
            Err(e) => return Err(e),
        }
    }
    Ok(())
}

fn remove_owned<D: Backend>(destination: &D, path: &BackendPath) -> (r: Result<(), RecursiveError>)
    ensures
        r matches Err(e) ==> (e matches RecursiveError::Backend(b) && !is_not_found(b)),
{
    match removal(destination.remove(path)) {
        Ok(_) => Ok(()),
        Err(error) => Err(RecursiveError::Backend(error)),
    }
}

} // verus!
