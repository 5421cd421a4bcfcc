//! Transfer lifecycle state machine and the single-file copy executors.

use vstd::prelude::*;
use crate::backend::{Backend, BackendError, ErrorKind, removal};
use crate::cancel::CancellationToken;
use crate::domain::{BackendId, BackendPath, EntryKind};
pub use crate::job::{Endpoint, TransferSpec};

verus! {

/// Upper bound on the chunks one stream may deliver; a `u64` byte counter
/// cannot describe a longer stream.
pub const MAX_STREAM_CHUNKS: u64 = 0xffff_ffff_ffff_ffff;

/// Stable identifier for a transfer job; zero is reserved.
#[derive(Clone, Copy, Debug, PartialEq, Eq, Hash, PartialOrd, Ord, Structural)]
pub struct TransferId(u64);

impl TransferId {
    /// The numeric identifier.
    pub closed spec fn spec_get(self) -> u64 {
        self.0
    }

    /// Creates a transfer id; zero is rejected.
    pub fn new(value: u64) -> (r: Result<TransferId, TransferError>)
        ensures
            value == 0 <==> r is Err,
            r matches Err(e) ==> e == TransferError::InvalidId,
            r matches Ok(id) ==> id.spec_get() == value,
    {
        if value == 0 {
            return Err(TransferError::InvalidId);
        }
        Ok(TransferId(value))
    }

    /// Returns the numeric id.
    pub fn get(self) -> (r: u64)
        ensures
            r == self.spec_get(),
    {
        self.0
    }
}

/// Policy used when the destination path already exists.
#[derive(Clone, Copy, Debug, PartialEq, Eq, Structural)]
pub enum DestinationPolicy {
    /// Replace the destination using the backend's normal write semantics.
    Replace,
    /// Refuse to start when the destination is already present.
    FailIfExists,
}

/// Observable lifecycle state; frontends render it, they do not invent it.
#[derive(Clone, Copy, Debug, PartialEq, Eq, Structural)]
pub enum TransferState {
    /// Accepted but not yet started.
    Queued,
    /// Establishing or validating backend connections.
    Connecting,
    /// Enumerating children/metadata before transfer.
    Enumerating,
    /// Bytes are moving.
    Transferring,
    /// Content or metadata verification is running.
    Verifying,
    /// Waiting before a bounded retry.
    RetryWaiting,
    /// Explicitly paused.
    Paused,
    /// Finished successfully.
    Completed,
    /// Terminal failure.
    Failed,
    /// Terminal user cancellation.
    Cancelled,
}

/// Terminal states admit no further transition.
pub open spec fn is_terminal_state(s: TransferState) -> bool {
    s == TransferState::Completed || s == TransferState::Failed || s == TransferState::Cancelled
}

/// The documented lifecycle graph.
pub open spec fn allowed_transition(from: TransferState, to: TransferState) -> bool {
    match from {
        TransferState::Queued => to == TransferState::Connecting || to == TransferState::Cancelled,
        TransferState::Connecting => to == TransferState::Enumerating || to
            == TransferState::Transferring || to == TransferState::RetryWaiting || to
            == TransferState::Failed || to == TransferState::Cancelled,
        TransferState::Enumerating => to == TransferState::Transferring || to
            == TransferState::RetryWaiting || to == TransferState::Failed || to
            == TransferState::Cancelled,
        TransferState::Transferring => to == TransferState::Verifying || to
            == TransferState::RetryWaiting || to == TransferState::Paused || to
            == TransferState::Completed || to == TransferState::Failed || to
            == TransferState::Cancelled,
        TransferState::Verifying => to == TransferState::Completed || to
            == TransferState::RetryWaiting || to == TransferState::Failed || to
            == TransferState::Cancelled,
        TransferState::RetryWaiting => to == TransferState::Connecting || to
            == TransferState::Cancelled || to == TransferState::Failed,
        TransferState::Paused => to == TransferState::Connecting || to
            == TransferState::Transferring || to == TransferState::Cancelled || to
            == TransferState::Failed,
        TransferState::Completed | TransferState::Failed | TransferState::Cancelled => false,
    }
}

impl TransferState {
    /// Returns whether no further state transition is legal.
    pub fn is_terminal(self) -> (r: bool)
        ensures
            r == is_terminal_state(self),
    {
        match self {
            TransferState::Completed | TransferState::Failed | TransferState::Cancelled => true,
            _ => false,
        }
    }

    /// Validates a lifecycle transition.
    pub fn can_transition_to(self, next: TransferState) -> (r: bool)
        ensures
            r == allowed_transition(self, next),
    {
        match self {
            TransferState::Queued => match next {
                TransferState::Connecting | TransferState::Cancelled => true,
                _ => false,
            },
            TransferState::Connecting => match next {
                TransferState::Enumerating | TransferState::Transferring
                | TransferState::RetryWaiting | TransferState::Failed
                | TransferState::Cancelled => true,
                _ => false,
            },
            TransferState::Enumerating => match next {
                TransferState::Transferring | TransferState::RetryWaiting | TransferState::Failed
                | TransferState::Cancelled => true,
                _ => false,
            },
            TransferState::Transferring => match next {
                TransferState::Verifying | TransferState::RetryWaiting | TransferState::Paused
                | TransferState::Completed | TransferState::Failed
                | TransferState::Cancelled => true,
                _ => false,
            },
            TransferState::Verifying => match next {
                TransferState::Completed | TransferState::RetryWaiting | TransferState::Failed
                | TransferState::Cancelled => true,
                _ => false,
            },
            TransferState::RetryWaiting => match next {
                TransferState::Connecting | TransferState::Cancelled | TransferState::Failed => true,
                _ => false,
            },
            TransferState::Paused => match next {
                TransferState::Connecting | TransferState::Transferring | TransferState::Cancelled
                | TransferState::Failed => true,
                _ => false,
            },
            TransferState::Completed | TransferState::Failed | TransferState::Cancelled => false,
        }
    }
}

/// Terminal states have no legal successor.
pub proof fn lemma_terminal_states_are_final(from: TransferState, to: TransferState)
    requires
        is_terminal_state(from),
    ensures
        !allowed_transition(from, to),
{
}

/// Every non-terminal state can still be failed or cancelled, except a
/// queued job, which can only be cancelled before it starts.
pub proof fn lemma_live_states_can_stop(from: TransferState)
    requires
        !is_terminal_state(from),
    ensures
        allowed_transition(from, TransferState::Cancelled),
        from != TransferState::Queued ==> allowed_transition(from, TransferState::Failed),
{
}

/// Transfer state-machine errors.
#[derive(Clone, Copy, Debug, PartialEq, Eq, Structural)]
pub enum TransferError {
    /// Transfer id zero is invalid.
    InvalidId,
    /// Attempted transition violates the documented state machine.
    InvalidTransition {
        /// State the job was in when the transition was requested.
        from: TransferState,
        /// Requested destination state.
        to: TransferState,
    },
}

/// State holder for one transfer job.
#[derive(Debug)]
pub struct TransferJob {
    id: TransferId,
    spec: TransferSpec,
    state: TransferState,
}

impl TransferJob {
    /// Identifier of the job.
    pub closed spec fn spec_id(&self) -> TransferId {
        self.id
    }

    /// Transfer intent of the job.
    pub closed spec fn spec_spec(&self) -> TransferSpec {
        self.spec
    }

    /// Current lifecycle state.
    pub closed spec fn spec_state(&self) -> TransferState {
        self.state
    }

    /// Creates a queued job.
    pub fn new(id: TransferId, spec: TransferSpec) -> (r: TransferJob)
        ensures
            r.spec_id() == id,
            r.spec_spec() == spec,
            r.spec_state() == TransferState::Queued,
    {
        TransferJob { id, spec, state: TransferState::Queued }
    }

    /// Job identifier.
    pub fn id(&self) -> (r: TransferId)
        ensures
            r == self.spec_id(),
    {
        self.id
    }

    /// Immutable transfer intent.
    pub fn spec(&self) -> (r: &TransferSpec)
        ensures
            *r == self.spec_spec(),
    {
        &self.spec
    }

    /// Current lifecycle state.
    pub fn state(&self) -> (r: TransferState)
        ensures
            r == self.spec_state(),
    {
        self.state
    }

    /// Applies a validated state transition; an illegal one changes nothing.
    pub fn transition(&mut self, next: TransferState) -> (r: Result<(), TransferError>)
        ensures
            final(self).spec_id() == old(self).spec_id(),
            final(self).spec_spec() == old(self).spec_spec(),
            allowed_transition(old(self).spec_state(), next) <==> r is Ok,
            r is Ok ==> final(self).spec_state() == next,
            r is Err ==> final(self).spec_state() == old(self).spec_state(),
            r matches Err(e) ==> e == (TransferError::InvalidTransition {
                from: old(self).spec_state(),
                to: next,
            }),
    {
        if !self.state.can_transition_to(next) {
            return Err(TransferError::InvalidTransition { from: self.state, to: next });
        }
        self.state = next;
        Ok(())
    }
}

/// Result of one completed file copy.
#[derive(Clone, Copy, Debug, PartialEq, Eq, Structural)]
pub struct TransferReport {
    bytes_copied: u64,
}

impl TransferReport {
    /// Payload bytes copied.
    pub closed spec fn spec_bytes_copied(self) -> u64 {
        self.bytes_copied
    }

    /// Creates a report for a number of copied bytes.
    pub fn with_bytes(bytes_copied: u64) -> (r: TransferReport)
        ensures
            r.spec_bytes_copied() == bytes_copied,
    {
        TransferReport { bytes_copied }
    }

    /// Returns the number of payload bytes copied.
    pub fn bytes_copied(self) -> (r: u64)
        ensures
            r == self.spec_bytes_copied(),
    {
        self.bytes_copied
    }
}

/// Failures produced by the transfer executors.
#[derive(Debug, PartialEq, Eq)]
pub enum ExecutionError {
    /// A lifecycle transition failed.
    Lifecycle(TransferError),
    /// A backend operation failed.
    Backend(BackendError),
    /// The backend passed to the executor does not match the transfer spec.
    BackendMismatch {
        /// Transfer endpoint being validated.
        endpoint: &'static str,
        /// Backend identifier required by the transfer specification.
        expected: BackendId,
        /// Backend identifier supplied to the executor.
        actual: BackendId,
    },
    /// The source endpoint is not a regular file.
    SourceNotFile {
        /// Entry type reported by the source backend.
        kind: EntryKind,
    },
    /// The requested destination already exists and replacement was disabled.
    DestinationExists {
        /// Existing destination path.
        path: BackendPath,
    },
    /// Streaming bytes between opened backend handles failed.
    Stream(String),
    /// Destination size did not match the number of bytes copied.
    SizeMismatch {
        /// Bytes reported copied by the stream operation.
        copied: u64,
        /// Bytes reported by destination metadata.
        destination: u64,
    },
}

/// Compares the backend a caller supplied with the one a transfer spec names.
pub fn validate_backend(endpoint: &'static str, expected: &BackendId, actual: &BackendId) -> (r:
    Result<(), ExecutionError>)
    ensures
        r is Ok <==> expected@ == actual@,
        r matches Err(e) ==> (e matches ExecutionError::BackendMismatch { endpoint: p, expected: x, actual: y }
            && p == endpoint && x@ == expected@ && y@ == actual@),
{
    if expected.same_as(actual) {
        Ok(())
    } else {
        Err(ExecutionError::BackendMismatch { endpoint, expected: expected.clone(), actual: actual.clone() })
    }
}

/// How a transfer answers backends other than the ones its spec names: the
/// first endpoint whose backend differs is reported, the source first; a
/// transfer that succeeds ran on the named backends.
pub open spec fn mismatch_reported<T>(
    spec: TransferSpec,
    source_id: Seq<char>,
    destination_id: Seq<char>,
    r: Result<T, ExecutionError>,
) -> bool {
    &&& spec.source.backend@ != source_id ==> (r matches Err(
        ExecutionError::BackendMismatch { endpoint: p, expected: x, actual: y },
    ) && p@ == "source"@ && x@ == spec.source.backend@ && y@ == source_id)
    &&& spec.source.backend@ == source_id && spec.destination.backend@ != destination_id ==> (r matches Err(
        ExecutionError::BackendMismatch { endpoint: p, expected: x, actual: y },
    ) && p@ == "destination"@ && x@ == spec.destination.backend@ && y@ == destination_id)
    &&& r is Ok ==> spec.source.backend@ == source_id && spec.destination.backend@ == destination_id
}

/// Whether the backends handed to a transfer are the ones its spec names.
pub open spec fn backends_match(spec: TransferSpec, source_id: Seq<char>, destination_id: Seq<char>) -> bool {
    spec.source.backend@ == source_id && spec.destination.backend@ == destination_id
}

/// The lifecycle only ever leaves a job where it was or in the terminal failure state.
pub open spec fn ends_unchanged_or_failed(before: TransferState, after: TransferState) -> bool {
    after == before || after == TransferState::Failed
}

/// Executes one regular-file copy with the default replace policy.
pub fn execute_file<S: Backend, D: Backend>(job: &mut TransferJob, source: &S, destination: &D) -> (r:
    Result<TransferReport, ExecutionError>)
    ensures
        final(job).spec_id() == old(job).spec_id(),
        final(job).spec_spec() == old(job).spec_spec(),
        mismatch_reported(old(job).spec_spec(), source.spec_id()@, destination.spec_id()@, r),
        !backends_match(old(job).spec_spec(), source.spec_id()@, destination.spec_id()@) ==> final(job).spec_state()
            == old(job).spec_state(),
        r is Ok ==> final(job).spec_state() == TransferState::Completed && allowed_transition(
            old(job).spec_state(),
            TransferState::Connecting,
        ),
        r is Err ==> ends_unchanged_or_failed(old(job).spec_state(), final(job).spec_state()),
        !allowed_transition(old(job).spec_state(), TransferState::Connecting) ==> r is Err
            && final(job).spec_state() == old(job).spec_state(),
{
    execute_file_with_policy(job, source, destination, DestinationPolicy::Replace)
}

/// Executes one regular-file copy with an explicit destination policy.
///
/// `FailIfExists` performs a metadata preflight before the destination is
/// opened; a failure after the job started moves it to `Failed`.
pub fn execute_file_with_policy<S: Backend, D: Backend>(
    job: &mut TransferJob,
    source: &S,
    destination: &D,
    policy: DestinationPolicy,
) -> (r: Result<TransferReport, ExecutionError>)
    ensures
        final(job).spec_id() == old(job).spec_id(),
        final(job).spec_spec() == old(job).spec_spec(),
        mismatch_reported(old(job).spec_spec(), source.spec_id()@, destination.spec_id()@, r),
        !backends_match(old(job).spec_spec(), source.spec_id()@, destination.spec_id()@) ==> final(job).spec_state()
            == old(job).spec_state(),
        r is Ok ==> final(job).spec_state() == TransferState::Completed && allowed_transition(
            old(job).spec_state(),
            TransferState::Connecting,
        ),
        r is Err ==> ends_unchanged_or_failed(old(job).spec_state(), final(job).spec_state()),
        !allowed_transition(old(job).spec_state(), TransferState::Connecting) ==> r is Err
            && final(job).spec_state() == old(job).spec_state(),
        backends_match(old(job).spec_spec(), source.spec_id()@, destination.spec_id()@) && allowed_transition(
            old(job).spec_state(),
            TransferState::Connecting,
        ) && r is Err ==> final(job).spec_state() == TransferState::Failed,
{
    match validate_backend("source", &job.spec.source.backend, source.id()) {
        Ok(()) => {},
        Err(e) => return Err(e),
    }
    match validate_backend("destination", &job.spec.destination.backend, destination.id()) {
        Ok(()) => {},
        Err(e) => return Err(e),
    }
    match job.transition(TransferState::Connecting) {
        Ok(()) => {},
        Err(e) => return Err(ExecutionError::Lifecycle(e)),
    }
    let result = execute_started(job, source, destination, policy);
    match result {
        Ok(report) => Ok(report),
        Err(error) => {
            let _ = job.transition(TransferState::Failed);
            Err(error)
        },
    }
}

/// Whether a metadata lookup failed only because the object is absent.
pub open spec fn is_not_found(e: BackendError) -> bool {
    e.spec_kind() == ErrorKind::NotFound
}

/// Applies the destination policy to the outcome of a metadata preflight.
pub fn destination_policy_outcome(
    policy: DestinationPolicy,
    path: &BackendPath,
    preflight: Option<Result<(), BackendError>>,
) -> (r: Result<(), ExecutionError>)
    requires
        policy == DestinationPolicy::FailIfExists <==> preflight is Some,
    ensures
        policy == DestinationPolicy::Replace ==> r is Ok,
        preflight matches Some(Ok(())) ==> (r matches Err(ExecutionError::DestinationExists { path: p }) && p@ == path@),
        preflight matches Some(Err(e)) ==> (is_not_found(e) <==> r is Ok),
        preflight matches Some(Err(e)) ==> (!is_not_found(e) ==> r == Err::<(), ExecutionError>(ExecutionError::Backend(e))),
{
    match preflight {
        None => Ok(()),
        Some(Ok(())) => Err(ExecutionError::DestinationExists { path: path.clone() }),
        Some(Err(error)) => {
            if error.kind() == ErrorKind::NotFound {
                Ok(())
            } else {
                Err(ExecutionError::Backend(error))
            }
        },
    }
}

fn enforce_destination_policy<D: Backend>(
    job: &TransferJob,
    destination: &D,
    policy: DestinationPolicy,
) -> (r: Result<(), ExecutionError>)
    ensures
        policy == DestinationPolicy::Replace ==> r is Ok,
{
    if policy == DestinationPolicy::Replace {
        return Ok(());
    }
    let preflight = match destination.stat(&job.spec.destination.path) {
        Ok(_) => Ok(()),
        Err(e) => Err(e),
    };
    destination_policy_outcome(policy, &job.spec.destination.path, Some(preflight))
}

/// Compares the copied byte count with destination metadata.
pub fn verify_copied_size(copied: u64, destination_size: Option<u64>) -> (r: Result<
    TransferReport,
    ExecutionError,
>)
    ensures
        r is Ok <==> (destination_size is None || destination_size == Some(copied)),
        r matches Ok(report) ==> report.spec_bytes_copied() == copied,
        r matches Err(e) ==> e == (ExecutionError::SizeMismatch {
            copied,
            destination: destination_size->0,
        }),
{
    match destination_size {
        Some(size) => {
            if size != copied {
                return Err(ExecutionError::SizeMismatch { copied, destination: size });
            }
        },
        None => {},
    }
    Ok(TransferReport { bytes_copied: copied })
}

fn execute_started<S: Backend, D: Backend>(
    job: &mut TransferJob,
    source: &S,
    destination: &D,
    policy: DestinationPolicy,
) -> (r: Result<TransferReport, ExecutionError>)
    requires
        old(job).spec_state() == TransferState::Connecting,
    ensures
        final(job).spec_id() == old(job).spec_id(),
        final(job).spec_spec() == old(job).spec_spec(),
        r is Ok ==> final(job).spec_state() == TransferState::Completed,
        r is Err ==> (final(job).spec_state() == TransferState::Connecting || final(job).spec_state()
            == TransferState::Transferring || final(job).spec_state()
            == TransferState::Verifying),
{
    let source_entry = match source.stat(&job.spec.source.path) {
        Ok(entry) => entry,
        Err(e) => return Err(ExecutionError::Backend(e)),
    };
    if source_entry.kind != EntryKind::File {
        return Err(ExecutionError::SourceNotFile { kind: source_entry.kind });
    }
    match enforce_destination_policy(job, destination, policy) {
        Ok(()) => {},
        Err(e) => return Err(e),
    }
    let mut reader = match source.open_read(&job.spec.source.path) {
        Ok(r) => r,
        Err(e) => return Err(ExecutionError::Backend(e)),
    };
    let mut writer = match destination.open_write(&job.spec.destination.path) {
        Ok(w) => w,
        Err(e) => return Err(ExecutionError::Backend(e)),
    };
    match job.transition(TransferState::Transferring) {
        Ok(()) => {},
        Err(e) => return Err(ExecutionError::Lifecycle(e)),
    }
    let bytes_copied = match copy_all(source, &mut reader, destination, &mut writer) {
        Ok(n) => n,
        Err(e) => return Err(e),
    };
    match job.transition(TransferState::Verifying) {
        Ok(()) => {},
        Err(e) => return Err(ExecutionError::Lifecycle(e)),
    }
    let destination_entry = match destination.stat(&job.spec.destination.path) {
        Ok(entry) => entry,
        Err(e) => return Err(ExecutionError::Backend(e)),
    };
    let report = match verify_copied_size(bytes_copied, destination_entry.size) {
        Ok(report) => report,
        Err(e) => return Err(e),
    };
    match job.transition(TransferState::Completed) {
        Ok(()) => {},
        Err(e) => return Err(ExecutionError::Lifecycle(e)),
    }
    Ok(report)
}

/// Streams every chunk of `reader` into `writer`, then flushes the writer.
fn copy_all<S: Backend, D: Backend>(
    source: &S,
    reader: &mut S::Reader,
    destination: &D,
    writer: &mut D::Writer,
) -> (r: Result<u64, ExecutionError>)
{
    let mut bytes_copied: u64 = 0;
    let mut budget: u64 = MAX_STREAM_CHUNKS;
    loop
        decreases budget,
    {
        if budget == 0 {
            return Err(ExecutionError::Stream(crate::text::owned("stream did not end")));
        }
        budget = budget - 1;
        let chunk = match source.read_chunk(reader) {
            Ok(c) => c,
            Err(message) => return Err(ExecutionError::Stream(message)),
        };
        if chunk.len() == 0 {
            break;
        }
        match destination.write_all(writer, chunk.as_slice()) {
            Ok(()) => {},
            Err(message) => return Err(ExecutionError::Stream(message)),
        }
        bytes_copied = bytes_copied.saturating_add(chunk.len() as u64);
    }
    match destination.flush(writer) {
        Ok(()) => {},
        Err(message) => return Err(ExecutionError::Stream(message)),
    }
    Ok(bytes_copied)
}


/// Thousandths of `done` out of `total`, computed as `min(done, total) * 1000 / total`
/// with the product saturating at `u64::MAX`.
pub open spec fn scaled_permille(done: u64, total: u64) -> int
    recommends
        total > 0,
{
    let clamped: int = if done <= total { done as int } else { total as int };
    let product: int = if clamped * 1000 > u64::MAX { u64::MAX as int } else { clamped * 1000 };
    product / (total as int)
}

/// Computes `scaled_permille` when it fits the `u16` result type.
pub fn permille_of(done: u64, total: u64) -> (r: Option<u16>)
    requires
        total > 0,
    ensures
        r is Some <==> scaled_permille(done, total) <= u16::MAX,
        r matches Some(v) ==> v as int == scaled_permille(done, total),
{
    let clamped: u64 = if done <= total { done } else { total };
    let product: u64 = if clamped > 18_446_744_073_709_551 {
        u64::MAX
    } else {
        clamped * 1000
    };
    let scaled: u64 = product / total;
    if scaled <= 0xffff {
        Some(scaled as u16)
    } else {
        None
    }
}

/// A known-total progress fraction never exceeds one thousand thousandths.
pub proof fn lemma_permille_at_most_one_thousand(done: u64, total: u64)
    requires
        total > 0,
    ensures
        0 <= scaled_permille(done, total) <= 1000,
{
    let clamped: int = if done <= total { done as int } else { total as int };
    let product: int = if clamped * 1000 > u64::MAX { u64::MAX as int } else { clamped * 1000 };
    let t = total as int;
    assert(0 <= clamped <= t);
    if clamped * 1000 > u64::MAX {
        assert(product == u64::MAX as int);
        assert(t * 1000 >= clamped * 1000) by (nonlinear_arith)
            requires
                clamped <= t,
        ;
        assert(product < t * 1000);
        assert(product / t < 1000) by (nonlinear_arith)
            requires
                product < t * 1000,
                t > 0,
                product >= 0,
        ;
    } else {
        assert(product == clamped * 1000);
        assert(product <= t * 1000) by (nonlinear_arith)
            requires
                clamped <= t,
                product == clamped * 1000,
        ;
        assert(product / t <= 1000) by (nonlinear_arith)
            requires
                product <= t * 1000,
                t > 0,
                product >= 0,
        ;
    }
}

/// Byte-level progress snapshot emitted by the controlled executor.
#[derive(Clone, Copy, Debug, PartialEq, Eq, Structural)]
pub struct TransferProgress {
    bytes_copied: u64,
    total_bytes: Option<u64>,
}

impl TransferProgress {
    /// Bytes written so far.
    pub closed spec fn spec_bytes_copied(self) -> u64 {
        self.bytes_copied
    }

    /// Known source size.
    pub closed spec fn spec_total_bytes(self) -> Option<u64> {
        self.total_bytes
    }

    /// Creates a progress snapshot.
    pub fn snapshot(bytes_copied: u64, total_bytes: Option<u64>) -> (r: TransferProgress)
        ensures
            r.spec_bytes_copied() == bytes_copied,
            r.spec_total_bytes() == total_bytes,
    {
        TransferProgress { bytes_copied, total_bytes }
    }

    /// Returns bytes written so far.
    pub fn bytes_copied(self) -> (r: u64)
        ensures
            r == self.spec_bytes_copied(),
    {
        self.bytes_copied
    }

    /// Returns the known source size when available.
    pub fn total_bytes(self) -> (r: Option<u64>)
        ensures
            r == self.spec_total_bytes(),
    {
        self.total_bytes
    }

    /// Returns progress in thousandths when total size is known; an empty
    /// source counts as complete.
    pub fn permille(self) -> (r: Option<u16>)
        ensures
            self.spec_total_bytes() is None ==> r is None,
            self.spec_total_bytes() == Some(0u64) ==> r == Some(1000u16),
            self.spec_total_bytes() matches Some(t) ==> (t > 0 ==> (r matches Some(v) && v as int
                == scaled_permille(self.spec_bytes_copied(), t))),
    {
        let total = match self.total_bytes {
            Some(t) => t,
            None => return None,
        };
        if total == 0 {
            return Some(1000);
        }
        proof {
            lemma_permille_at_most_one_thousand(self.bytes_copied, total);
        }
        permille_of(self.bytes_copied, total)
    }
}

/// Turns one file-level snapshot into the progress value a caller receives.
pub trait FileProgressMap<Out> {
    /// Whether `out` is what this mapping gives for `progress`.
    spec fn maps_file(&self, progress: TransferProgress, out: Out) -> bool;

    /// Maps one file-level snapshot.
    fn map_file(&self, progress: TransferProgress) -> (r: Out)
        ensures
            self.maps_file(progress, r),
    ;
}

/// Delivers file-level snapshots unchanged.
pub struct FileProgressIdentity;

impl FileProgressMap<TransferProgress> for FileProgressIdentity {
    open spec fn maps_file(&self, progress: TransferProgress, out: TransferProgress) -> bool {
        out == progress
    }

    fn map_file(&self, progress: TransferProgress) -> TransferProgress {
        progress
    }
}

/// Terminal result of a cooperatively controlled transfer.
#[derive(Clone, Copy, Debug, PartialEq, Eq, Structural)]
pub enum ControlledTransferOutcome {
    /// Transfer completed and was verified.
    Completed(TransferReport),
    /// Transfer was cancelled and its partial destination was removed.
    Cancelled {
        /// Payload bytes written before cancellation was observed.
        bytes_copied: u64,
    },
}

/// How a controlled stream ended.
pub enum StreamOutcome {
    /// The source reached its end; total bytes copied.
    Completed(u64),
    /// Cancellation was observed; bytes copied before it.
    Cancelled(u64),
}

/// Where a controlled execution left the job.
pub open spec fn controlled_end_state(
    before: TransferState,
    after: TransferState,
    r: Result<ControlledTransferOutcome, ExecutionError>,
) -> bool {
    match r {
        Ok(ControlledTransferOutcome::Completed(_)) => after == TransferState::Completed,
        Ok(ControlledTransferOutcome::Cancelled { .. }) => after == TransferState::Cancelled,
        Err(_) => ends_unchanged_or_failed(before, after),
    }
}

/// Executes a regular-file copy with byte progress and cooperative cancellation.
///
/// The destination must be absent (fail-if-exists), so anything this call
/// creates belongs to it and a cancelled partial destination is removed.
pub fn execute_file_controlled<S: Backend, D: Backend, F: FnMut(TransferProgress)>(
    job: &mut TransferJob,
    source: &S,
    destination: &D,
    cancellation: &CancellationToken,
    on_progress: F,
) -> (r: Result<ControlledTransferOutcome, ExecutionError>)
    requires
        forall|p: TransferProgress| call_requires(on_progress, (p,)),
    ensures
        final(job).spec_id() == old(job).spec_id(),
        final(job).spec_spec() == old(job).spec_spec(),
        mismatch_reported(old(job).spec_spec(), source.spec_id()@, destination.spec_id()@, r),
        !backends_match(old(job).spec_spec(), source.spec_id()@, destination.spec_id()@) ==> final(job).spec_state()
            == old(job).spec_state(),
        controlled_end_state(old(job).spec_state(), final(job).spec_state(), r),
        r is Ok ==> allowed_transition(old(job).spec_state(), TransferState::Connecting),
        !allowed_transition(old(job).spec_state(), TransferState::Connecting) ==> r is Err
            && final(job).spec_state() == old(job).spec_state(),
{
    let mut on_progress = on_progress;
    execute_file_controlled_with::<S, D, TransferProgress, FileProgressIdentity, F>(
        job,
        source,
        destination,
        cancellation,
        &FileProgressIdentity,
        &mut on_progress,
    )
}

/// Controlled execution reporting progress through a mapping of file snapshots.
pub fn execute_file_controlled_with<S: Backend, D: Backend, O, M: FileProgressMap<O>, F: FnMut(O)>(
    job: &mut TransferJob,
    source: &S,
    destination: &D,
    cancellation: &CancellationToken,
    map: &M,
    on_progress: &mut F,
) -> (r: Result<ControlledTransferOutcome, ExecutionError>)
    requires
        forall|p: O| call_requires(*old(on_progress), (p,)),
    ensures
        forall|p: O| call_requires(*final(on_progress), (p,)),
        final(job).spec_id() == old(job).spec_id(),
        final(job).spec_spec() == old(job).spec_spec(),
        mismatch_reported(old(job).spec_spec(), source.spec_id()@, destination.spec_id()@, r),
        !backends_match(old(job).spec_spec(), source.spec_id()@, destination.spec_id()@) ==> final(job).spec_state()
            == old(job).spec_state(),
        controlled_end_state(old(job).spec_state(), final(job).spec_state(), r),
        r is Ok ==> allowed_transition(old(job).spec_state(), TransferState::Connecting),
        !allowed_transition(old(job).spec_state(), TransferState::Connecting) ==> r is Err
            && final(job).spec_state() == old(job).spec_state(),
{
    match validate_backend("source", &job.spec.source.backend, source.id()) {
        Ok(()) => {},
        Err(e) => return Err(e),
    }
    match validate_backend("destination", &job.spec.destination.backend, destination.id()) {
        Ok(()) => {},
        Err(e) => return Err(e),
    }
    match job.transition(TransferState::Connecting) {
        Ok(()) => {},
        Err(e) => return Err(ExecutionError::Lifecycle(e)),
    }
    if cancellation.is_cancelled() {
        match job.transition(TransferState::Cancelled) {
            Ok(()) => {},
            Err(e) => return Err(ExecutionError::Lifecycle(e)),
        }
        return Ok(ControlledTransferOutcome::Cancelled { bytes_copied: 0 });
    }
    let result = execute_started_controlled::<S, D, O, M, F>(
        job,
        source,
        destination,
        cancellation,
        map,
        on_progress,
    );
    match result {
        Ok(outcome) => Ok(outcome),
        Err(error) => {
            let _ = job.transition(TransferState::Failed);
            Err(error)
        },
    }
}

fn execute_started_controlled<S: Backend, D: Backend, O, M: FileProgressMap<O>, F: FnMut(O)>(
    job: &mut TransferJob,
    source: &S,
    destination: &D,
    cancellation: &CancellationToken,
    map: &M,
    on_progress: &mut F,
) -> (r: Result<ControlledTransferOutcome, ExecutionError>)
    requires
        old(job).spec_state() == TransferState::Connecting,
        forall|p: O| call_requires(*old(on_progress), (p,)),
    ensures
        forall|p: O| call_requires(*final(on_progress), (p,)),
        final(job).spec_id() == old(job).spec_id(),
        final(job).spec_spec() == old(job).spec_spec(),
        r matches Ok(ControlledTransferOutcome::Completed(_)) ==> final(job).spec_state()
            == TransferState::Completed,
        r matches Ok(ControlledTransferOutcome::Cancelled { .. }) ==> final(job).spec_state()
            == TransferState::Cancelled,
        r is Err ==> (final(job).spec_state() == TransferState::Connecting || final(job).spec_state()
            == TransferState::Transferring || final(job).spec_state()
            == TransferState::Verifying),
{
    let source_entry = match source.stat(&job.spec.source.path) {
        Ok(entry) => entry,
        Err(e) => return Err(ExecutionError::Backend(e)),
    };
    if source_entry.kind != EntryKind::File {
        return Err(ExecutionError::SourceNotFile { kind: source_entry.kind });
    }
    match enforce_destination_policy(job, destination, DestinationPolicy::FailIfExists) {
        Ok(()) => {},
        Err(e) => return Err(e),
    }
    if cancellation.is_cancelled() {
        match job.transition(TransferState::Cancelled) {
            Ok(()) => {},
            Err(e) => return Err(ExecutionError::Lifecycle(e)),
        }
        return Ok(ControlledTransferOutcome::Cancelled { bytes_copied: 0 });
    }
    let mut reader = match source.open_read(&job.spec.source.path) {
        Ok(r) => r,
        Err(e) => return Err(ExecutionError::Backend(e)),
    };
    let mut writer = match destination.open_write(&job.spec.destination.path) {
        Ok(w) => w,
        Err(e) => return Err(ExecutionError::Backend(e)),
    };
    match job.transition(TransferState::Transferring) {
        Ok(()) => {},
        Err(e) => return Err(ExecutionError::Lifecycle(e)),
    }
    let stream = copy_stream_controlled::<S, D, O, M, F>(
        source,
        &mut reader,
        destination,
        &mut writer,
        source_entry.size,
        cancellation,
        map,
        on_progress,
    );
    let streamed = match stream {
        Ok(s) => s,
        Err(e) => return Err(e),
    };
    match streamed {
        StreamOutcome::Cancelled(bytes_copied) => {
            match remove_if_present(destination, &job.spec.destination.path) {
                Ok(()) => {},
                Err(e) => return Err(ExecutionError::Backend(e)),
            }
            match job.transition(TransferState::Cancelled) {
                Ok(()) => {},
                Err(e) => return Err(ExecutionError::Lifecycle(e)),
            }
            Ok(ControlledTransferOutcome::Cancelled { bytes_copied })
        },
        StreamOutcome::Completed(bytes_copied) => {
            match job.transition(TransferState::Verifying) {
                Ok(()) => {},
                Err(e) => return Err(ExecutionError::Lifecycle(e)),
            }
            let destination_entry = match destination.stat(&job.spec.destination.path) {
                Ok(entry) => entry,
                Err(e) => return Err(ExecutionError::Backend(e)),
            };
            let report = match verify_copied_size(bytes_copied, destination_entry.size) {
                Ok(report) => report,
                Err(e) => return Err(e),
            };
            match job.transition(TransferState::Completed) {
                Ok(()) => {},
                Err(e) => return Err(ExecutionError::Lifecycle(e)),
            }
            Ok(ControlledTransferOutcome::Completed(report))
        },
    }
}

/// Streams chunks while watching for cancellation, reporting progress after
/// every chunk, and flushes the writer when the source ends.
fn copy_stream_controlled<S: Backend, D: Backend, O, M: FileProgressMap<O>, F: FnMut(O)>(
    source: &S,
    reader: &mut S::Reader,
    destination: &D,
    writer: &mut D::Writer,
    total_bytes: Option<u64>,
    cancellation: &CancellationToken,
    map: &M,
    on_progress: &mut F,
) -> (r: Result<StreamOutcome, ExecutionError>)
    requires
        forall|p: O| call_requires(*old(on_progress), (p,)),
    ensures
        forall|p: O| call_requires(*final(on_progress), (p,)),
{
    let mut bytes_copied: u64 = 0;
    let mut budget: u64 = MAX_STREAM_CHUNKS;
    loop
        invariant
            forall|p: O| call_requires(*on_progress, (p,)),
        decreases budget,
    {
        if budget == 0 {
            return Err(ExecutionError::Stream(crate::text::owned("stream did not end")));
        }
        budget = budget - 1;
        if cancellation.is_cancelled() {
            return Ok(StreamOutcome::Cancelled(bytes_copied));
        }
        let chunk = match source.read_chunk(reader) {
            Ok(c) => c,
            Err(message) => return Err(ExecutionError::Stream(message)),
        };
        if chunk.len() == 0 {
            break;
        }
        match destination.write_all(writer, chunk.as_slice()) {
            Ok(()) => {},
            Err(message) => return Err(ExecutionError::Stream(message)),
        }
        bytes_copied = bytes_copied.saturating_add(chunk.len() as u64);
        let progress = TransferProgress { bytes_copied, total_bytes };
        on_progress(map.map_file(progress));
    }
    match destination.flush(writer) {
        Ok(()) => {},
        Err(message) => return Err(ExecutionError::Stream(message)),
    }
    Ok(StreamOutcome::Completed(bytes_copied))
}

/// Removes an object this operation owns; an already-absent object is fine.
pub fn remove_if_present<D: Backend>(destination: &D, path: &BackendPath) -> (r: Result<(), BackendError>)
    ensures
        r matches Err(e) ==> !is_not_found(e),
{
    match removal(destination.remove(path)) {
        Ok(_) => Ok(()),
        Err(error) => Err(error),
    }
}

} // verus!
