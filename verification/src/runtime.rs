//! Product-level copy orchestration: existing-item policy, Keep Both naming,
//! bounded retry, and reliable tree replacement.

use vstd::prelude::*;
use std::time::Duration;
use crate::backend::{Backend, BackendError, ErrorKind, presence};
use crate::cancel::CancellationToken;
use crate::domain::BackendPath;
use crate::job::{Endpoint, TransferSpec};
use crate::messages::{decimal, decimal_text};
use crate::reliability::{ReliabilityError, ReliableTreeOutcome, execute_tree_reliable};
use crate::text::{last_index_of, owned, rfind_char, starts_with_char, substring};
use crate::transfer::{ExecutionError, TransferId};
use crate::tree::{RecursiveError, TreeTransferProgress, TreeTransferReport};

verus! {

/// Product bound on total attempts, the first included.
pub const MAX_RETRY_ATTEMPTS: u8 = 5;

/// Bounded retry policy for transient transfer failures.
///
/// `max_attempts` includes the initial attempt. The default policy performs at
/// most three attempts with 250 ms and 500 ms backoffs.
#[derive(Clone, Copy, Debug, PartialEq, Eq, Structural)]
pub struct RetryPolicy {
    max_attempts: u8,
    initial_backoff_ms: u64,
    max_backoff_ms: u64,
}

/// Retry-policy validation failure.
#[derive(Clone, Copy, Debug, PartialEq, Eq, Structural)]
pub enum RetryPolicyError {
    /// Attempt count must remain within the product safety bound.
    InvalidAttempts(u8),
    /// Backoff values are inconsistent.
    InvalidBackoff {
        /// Initial delay in milliseconds.
        initial_ms: u64,
        /// Maximum delay in milliseconds.
        maximum_ms: u64,
    },
}

/// Delay before the attempt that follows failed attempt `n`, before the final
/// cap: each later failure doubles the delay, capped at the maximum.
pub open spec fn raw_backoff(initial: u64, maximum: u64, n: nat) -> u64
    decreases n,
{
    if n <= 1 {
        initial
    } else {
        let d = raw_backoff(initial, maximum, (n - 1) as nat);
        let doubled: u64 = if 2 * d > u64::MAX { u64::MAX } else { (2 * d) as u64 };
        if doubled < maximum { doubled } else { maximum }
    }
}

/// Capped exponential backoff after a failed attempt.
pub open spec fn backoff_ms(initial: u64, maximum: u64, n: nat) -> u64 {
    let d = raw_backoff(initial, maximum, n);
    if d < maximum { d } else { maximum }
}

/// Smaller of two integers.
pub open spec fn min_int(a: int, b: int) -> int {
    if a < b { a } else { b }
}

/// Within a valid policy, the backoff after failure `n >= 1` is
/// `min(initial * 2^(n-1), maximum)`.
pub proof fn lemma_backoff_is_capped_exponential(initial: u64, maximum: u64, n: nat)
    requires
        n >= 1,
        initial <= maximum,
    ensures
        backoff_ms(initial, maximum, n) == min_int(
            initial * vstd::arithmetic::power2::pow2((n - 1) as nat),
            maximum as int,
        ),
    decreases n,
{
    let p = vstd::arithmetic::power2::pow2((n - 1) as nat);
    if n == 1 {
        vstd::arithmetic::power2::lemma2_to64();
        assert(p == 1);
    } else {
        lemma_backoff_is_capped_exponential(initial, maximum, (n - 1) as nat);
        let q = vstd::arithmetic::power2::pow2((n - 2) as nat);
        vstd::arithmetic::power2::lemma_pow2_unfold((n - 1) as nat);
        assert(p == 2 * q);
        assert(initial * p == 2 * (initial * q)) by (nonlinear_arith)
            requires
                p == 2 * q,
        ;
        let d = raw_backoff(initial, maximum, (n - 1) as nat);
        assert(d <= maximum) by {
            lemma_raw_backoff_bounded(initial, maximum, (n - 1) as nat);
        }
    }
}

/// Within a valid policy, the uncapped delay never exceeds the maximum.
pub proof fn lemma_raw_backoff_bounded(initial: u64, maximum: u64, n: nat)
    requires
        initial <= maximum,
    ensures
        raw_backoff(initial, maximum, n) <= maximum,
    decreases n,
{
    if n > 1 {
        lemma_raw_backoff_bounded(initial, maximum, (n - 1) as nat);
    }
}

impl RetryPolicy {
    /// Maximum total attempts.
    pub closed spec fn spec_max_attempts(self) -> u8 {
        self.max_attempts
    }

    /// Initial delay in milliseconds.
    pub closed spec fn spec_initial_backoff_ms(self) -> u64 {
        self.initial_backoff_ms
    }

    /// Maximum delay in milliseconds.
    pub closed spec fn spec_max_backoff_ms(self) -> u64 {
        self.max_backoff_ms
    }

    /// A policy within the product bounds.
    pub open spec fn valid(self) -> bool {
        &&& 1 <= self.spec_max_attempts() <= MAX_RETRY_ATTEMPTS
        &&& 0 < self.spec_initial_backoff_ms() <= self.spec_max_backoff_ms()
    }

    /// Creates a bounded retry policy; attempts must lie in `1..=5`, the
    /// initial backoff must be non-zero and no larger than the maximum.
    pub fn new(max_attempts: u8, initial_backoff_ms: u64, max_backoff_ms: u64) -> (r: Result<
        RetryPolicy,
        RetryPolicyError,
    >)
        ensures
            (max_attempts == 0 || max_attempts > MAX_RETRY_ATTEMPTS) ==> r == Err::<RetryPolicy, RetryPolicyError>(
                RetryPolicyError::InvalidAttempts(max_attempts),
            ),
            !(max_attempts == 0 || max_attempts > MAX_RETRY_ATTEMPTS) && (initial_backoff_ms == 0
                || max_backoff_ms < initial_backoff_ms) ==> r == Err::<RetryPolicy, RetryPolicyError>(
                RetryPolicyError::InvalidBackoff { initial_ms: initial_backoff_ms, maximum_ms: max_backoff_ms },
            ),
            r matches Ok(p) ==> p.valid() && p.spec_max_attempts() == max_attempts
                && p.spec_initial_backoff_ms() == initial_backoff_ms && p.spec_max_backoff_ms()
                == max_backoff_ms,
            r is Ok <==> (1 <= max_attempts <= MAX_RETRY_ATTEMPTS && 0 < initial_backoff_ms
                <= max_backoff_ms),
    {
        if max_attempts == 0 || max_attempts > MAX_RETRY_ATTEMPTS {
            return Err(RetryPolicyError::InvalidAttempts(max_attempts));
        }
        if initial_backoff_ms == 0 || max_backoff_ms < initial_backoff_ms {
            return Err(
                RetryPolicyError::InvalidBackoff {
                    initial_ms: initial_backoff_ms,
                    maximum_ms: max_backoff_ms,
                },
            );
        }
        Ok(RetryPolicy { max_attempts, initial_backoff_ms, max_backoff_ms })
    }

    /// Maximum total attempts including the first attempt.
    pub fn max_attempts(self) -> (r: u8)
        ensures
            r == self.spec_max_attempts(),
    {
        self.max_attempts
    }

    /// Whether another attempt is allowed after `failed_attempt`.
    pub fn allows_retry_after(self, failed_attempt: u8) -> (r: bool)
        ensures
            r == (failed_attempt < self.spec_max_attempts()),
    {
        failed_attempt < self.max_attempts
    }

    /// Capped exponential backoff after one failed attempt, in milliseconds.
    pub fn backoff_after_ms(self, failed_attempt: u8) -> (r: u64)
        ensures
            r == backoff_ms(
                self.spec_initial_backoff_ms(),
                self.spec_max_backoff_ms(),
                failed_attempt as nat,
            ),
            r <= self.spec_max_backoff_ms(),
            self.valid() && failed_attempt >= 1 ==> r == min_int(
                self.spec_initial_backoff_ms() * vstd::arithmetic::power2::pow2(
                    (failed_attempt - 1) as nat,
                ),
                self.spec_max_backoff_ms() as int,
            ),
    {
        proof {
            if self.valid() && failed_attempt >= 1 {
                lemma_backoff_is_capped_exponential(
                    self.initial_backoff_ms,
                    self.max_backoff_ms,
                    failed_attempt as nat,
                );
            }
        }
        let mut delay = self.initial_backoff_ms;
        let mut k: u8 = 1;
        while k < failed_attempt
            invariant
                1 <= k,
                k <= failed_attempt || k == 1,
                delay == raw_backoff(self.initial_backoff_ms, self.max_backoff_ms, k as nat),
            decreases failed_attempt - k,
        {
            let doubled = if delay > u64::MAX / 2 {
                u64::MAX
            } else {
                delay * 2
            };
            delay = if doubled < self.max_backoff_ms {
                doubled
            } else {
                self.max_backoff_ms
            };
            k = k + 1;
        }
        proof {
            if failed_attempt >= 1 {
                assert(k == failed_attempt);
            }
            if failed_attempt <= 1 {
                assert(raw_backoff(self.initial_backoff_ms, self.max_backoff_ms, 1) == self.initial_backoff_ms);
                assert(raw_backoff(self.initial_backoff_ms, self.max_backoff_ms, failed_attempt as nat)
                    == self.initial_backoff_ms);
            }
            assert(delay == raw_backoff(self.initial_backoff_ms, self.max_backoff_ms, failed_attempt as nat));
        }
        if delay < self.max_backoff_ms {
            delay
        } else {
            self.max_backoff_ms
        }
    }

    /// Capped exponential backoff after one failed attempt.
    pub fn backoff_after(self, failed_attempt: u8) -> (r: Duration)
        ensures
            r == millis_duration(
                backoff_ms(self.spec_initial_backoff_ms(), self.spec_max_backoff_ms(), failed_attempt as nat),
            ),
    {
        duration_from_millis(self.backoff_after_ms(failed_attempt))
    }
}

/// The duration of a number of milliseconds (what `Duration::from_millis` returns).
pub uninterp spec fn millis_duration(ms: u64) -> Duration;

/// `std::time::Duration::from_millis`: the duration of that many
/// milliseconds, which depends on the count alone; the result is named, not
/// described.
#[verifier::external_body]
fn duration_from_millis(ms: u64) -> (r: Duration)
    ensures
        r == millis_duration(ms),
{
    Duration::from_millis(ms)
}

impl Default for RetryPolicy {
    fn default() -> (r: Self)
        ensures
            r.valid(),
            r.spec_max_attempts() == 3,
            r.spec_initial_backoff_ms() == 250,
            r.spec_max_backoff_ms() == 2000,
    {
        RetryPolicy { max_attempts: 3, initial_backoff_ms: 250, max_backoff_ms: 2000 }
    }
}

/// Existing-destination behavior for a copy operation.
#[derive(Clone, Copy, Debug, PartialEq, Eq, Structural)]
pub enum CopyConflictPolicy {
    /// Refuse to overwrite an existing destination.
    Fail,
    /// Replace the existing destination through the reliability layer.
    Replace,
    /// Preserve the existing destination and report a skipped operation.
    Skip,
    /// Generate a sibling destination name and copy there.
    KeepBoth,
}

impl Default for CopyConflictPolicy {
    fn default() -> (r: Self)
        ensures
            r == CopyConflictPolicy::Fail,
    {
        CopyConflictPolicy::Fail
    }
}

/// Immutable copy request.
#[derive(Debug, PartialEq, Eq)]
pub struct CopyRequest {
    /// Stable transfer identifier.
    pub id: TransferId,
    /// Source endpoint.
    pub source: Endpoint,
    /// Requested destination endpoint.
    pub destination: Endpoint,
    /// Existing-item policy.
    pub conflict_policy: CopyConflictPolicy,
}

/// Successful copy report.
#[derive(Debug, PartialEq, Eq)]
pub struct CopyRuntimeReport {
    /// Actual destination used.
    pub destination: BackendPath,
    /// Recursive transfer report.
    pub transfer: TreeTransferReport,
    /// Whether the requested destination was replaced.
    pub replaced_existing: bool,
}

/// Terminal runtime copy outcome.
#[derive(Debug, PartialEq, Eq)]
pub enum CopyRuntimeOutcome {
    /// Copy completed.
    Completed(CopyRuntimeReport),
    /// Existing item was intentionally skipped.
    Skipped {
        /// Existing destination that was preserved.
        destination: BackendPath,
    },
    /// Cooperative cancellation occurred.
    Cancelled(TreeTransferReport),
}

/// Product-level copy error.
#[derive(Debug)]
pub enum CopyRuntimeError {
    /// Destination exists and policy refused replacement.
    DestinationExists(BackendPath),
    /// Backend metadata or naming operation failed.
    Backend(BackendError),
    /// Safe replacement failed.
    Reliability(ReliabilityError),
    /// Keep Both could not find a free sibling name.
    KeepBothExhausted(BackendPath),
}

/// Most sibling names Keep Both tries.
pub const MAX_KEEP_BOTH_SEQUENCE: u16 = 999;

/// `(stem, extension)` of a file name: a leading dot marks a hidden file
/// without extension; otherwise the text after the last dot, when both sides
/// are non-empty.
pub open spec fn split_extension_text(name: Seq<char>) -> (Seq<char>, Option<Seq<char>>) {
    if name.len() > 0 && name[0] == '.' {
        (name, None)
    } else {
        match last_index_of(name, '.') {
            Some(j) => if 0 < j && j < name.len() - 1 {
                (name.subrange(0, j), Some(name.subrange(j + 1, name.len() as int)))
            } else {
                (name, None)
            },
            None => (name, None),
        }
    }
}

/// Splits a file name into stem and extension.
pub fn split_extension(name: &str) -> (r: (&str, Option<&str>))
    ensures
        (r.0@, match r.1 {
            Some(e) => Some(e@),
            None => None::<Seq<char>>,
        }) == split_extension_text(name@),
{
    if starts_with_char(name, '.') {
        return (name, None);
    }
    match rfind_char(name, '.') {
        Some(j) => {
            let n = name.unicode_len();
            if 0 < j && j < n - 1 {
                (substring(name, 0, j), Some(substring(name, j + 1, n)))
            } else {
                (name, None)
            }
        },
        None => (name, None),
    }
}

/// `" copy"` for the first sibling, `" copy N"` after.
pub open spec fn copy_suffix(sequence: u16) -> Seq<char> {
    if sequence == 1 {
        " copy"@
    } else {
        " copy "@ + decimal_text(sequence as nat)
    }
}

/// `(parent, name)` of a path split at its last slash; no slash means no parent.
pub open spec fn split_parent(text: Seq<char>) -> (Seq<char>, Seq<char>) {
    match last_index_of(text, '/') {
        Some(i) => (text.subrange(0, i), text.subrange(i + 1, text.len() as int)),
        None => (seq![], text),
    }
}

/// Keep Both sibling name: the suffix goes before the extension.
pub open spec fn copy_name_text(path: Seq<char>, sequence: u16) -> Seq<char> {
    let (parent, name) = split_parent(path);
    let (stem, extension) = split_extension_text(name);
    let copied = match extension {
        Some(e) => stem + copy_suffix(sequence) + "."@ + e,
        None => stem + copy_suffix(sequence),
    };
    if parent.len() == 0 {
        copied
    } else if parent == "/"@ {
        "/"@ + copied
    } else {
        parent + "/"@ + copied
    }
}

/// Builds the Keep Both sibling path for one sequence number.
pub fn copy_name(path: &BackendPath, sequence: u16) -> (r: Result<BackendPath, CopyRuntimeError>)
    ensures
        r matches Ok(p) && p@ == copy_name_text(path@, sequence),
{
    let text = path.as_str();
    let n = text.unicode_len();
    let (parent, name) = match rfind_char(text, '/') {
        Some(i) => (substring(text, 0, i), substring(text, i + 1, n)),
        None => ("", text),
    };
    proof {
        reveal_strlit("");
        reveal_strlit("/");
        reveal_strlit(" copy");
        reveal_strlit(" copy ");
        reveal_strlit(".");
    }
    let (stem, extension) = split_extension(name);
    let mut suffix = owned(" copy");
    if sequence != 1 {
        suffix = owned(" copy ");
        let digits = decimal(sequence as u64);
        suffix.append(digits.as_str());
    }
    let mut copied = owned(stem);
    copied.append(suffix.as_str());
    match extension {
        Some(e) => {
            copied.append(".");
            copied.append(e);
        },
        None => {},
    }
    let joined = if parent.unicode_len() == 0 {
        copied
    } else if crate::text::text_equals(parent, "/") {
        let mut j = owned("/");
        j.append(copied.as_str());
        j
    } else {
        let mut j = owned(parent);
        j.append("/");
        j.append(copied.as_str());
        j
    };
    assert(joined@.len() > 0);
    match BackendPath::from_string(joined) {
        Ok(p) => Ok(p),
        Err(e) => Err(
            CopyRuntimeError::Backend(
                BackendError::new(
                    ErrorKind::InvalidInput,
                    "construct Keep Both destination",
                    Some(path.clone()),
                    e.message(),
                ),
            ),
        ),
    }
}

fn destination_exists<B: Backend>(backend: &B, path: &BackendPath) -> (r: Result<bool, CopyRuntimeError>)
    ensures
        r matches Err(e) ==> (e matches CopyRuntimeError::Backend(b) && b.spec_kind() != ErrorKind::NotFound),
{
    match presence(backend.stat(path)) {
        Ok(present) => Ok(present),
        Err(error) => Err(CopyRuntimeError::Backend(error)),
    }
}

/// Whether a path is one of the Keep Both siblings of `requested`.
pub open spec fn is_keep_both_sibling(requested: Seq<char>, candidate: Seq<char>) -> bool {
    exists|sequence: u16| 1 <= sequence <= MAX_KEEP_BOTH_SEQUENCE && candidate == #[trigger] copy_name_text(requested, sequence)
}

/// First sibling name (`" copy"`, `" copy 2"`, ... `" copy 999"`) that does not exist.
/// What Keep Both does after asking whether the sibling with this sequence
/// number is taken.
#[derive(Clone, Copy, Debug, PartialEq, Eq, Structural)]
pub enum KeepBothStep {
    /// The sibling is free: copy there.
    Take,
    /// The sibling is taken: ask about the next sequence number.
    TryNext,
    /// The last sibling is taken too: give up.
    Exhausted,
}

/// Decides the next Keep Both step from whether the current sibling is taken:
/// siblings are tried in sequence order and the first free one is taken.
pub fn keep_both_step(sequence: u16, taken: bool) -> (r: KeepBothStep)
    ensures
        !taken ==> r == KeepBothStep::Take,
        taken && sequence < MAX_KEEP_BOTH_SEQUENCE ==> r == KeepBothStep::TryNext,
        taken && sequence >= MAX_KEEP_BOTH_SEQUENCE ==> r == KeepBothStep::Exhausted,
{
    if !taken {
        KeepBothStep::Take
    } else if sequence < MAX_KEEP_BOTH_SEQUENCE {
        KeepBothStep::TryNext
    } else {
        KeepBothStep::Exhausted
    }
}

fn keep_both_destination<B: Backend>(backend: &B, requested: &BackendPath) -> (r: Result<
    BackendPath,
    CopyRuntimeError,
>)
    ensures
        r matches Ok(p) ==> is_keep_both_sibling(requested@, p@),
        r matches Err(CopyRuntimeError::KeepBothExhausted(p)) ==> p@ == requested@,
        !(r matches Err(CopyRuntimeError::DestinationExists(_))),
        !(r matches Err(CopyRuntimeError::Reliability(_))),
{
    let mut sequence: u16 = 1;
    while sequence <= MAX_KEEP_BOTH_SEQUENCE
        invariant
            1 <= sequence <= MAX_KEEP_BOTH_SEQUENCE + 1,
        decreases MAX_KEEP_BOTH_SEQUENCE + 1 - sequence,
    {
        let candidate = match copy_name(requested, sequence) {
            Ok(c) => c,
            Err(e) => return Err(e),
        };
        let taken = match destination_exists(backend, &candidate) {
            Ok(t) => t,
            Err(e) => return Err(e),
        };
        match keep_both_step(sequence, taken) {
            KeepBothStep::Take => {
                assert(candidate@ == copy_name_text(requested@, sequence));
                return Ok(candidate);
            },
            KeepBothStep::TryNext => {},
            KeepBothStep::Exhausted => {
                break;
            },
        }
        sequence = sequence + 1;
    }
    Err(CopyRuntimeError::KeepBothExhausted(requested.clone()))
}

/// Executes one file-or-tree copy with product conflict semantics.
///
/// An existing destination is refused (`Fail`), preserved (`Skip`), replaced
/// through the reliability layer (`Replace`), or left alone while the copy goes
/// to the first free Keep Both sibling (`KeepBoth`).
pub fn execute_copy<S: Backend, D: Backend, F: FnMut(TreeTransferProgress)>(
    request: &CopyRequest,
    source: &S,
    destination: &D,
    cancellation: &CancellationToken,
    on_progress: F,
) -> (r: Result<CopyRuntimeOutcome, CopyRuntimeError>)
    requires
        forall|p: TreeTransferProgress| call_requires(on_progress, (p,)),
    ensures
        r matches Err(CopyRuntimeError::DestinationExists(p)) ==> request.conflict_policy
            == CopyConflictPolicy::Fail && p@ == request.destination.path@,
        r matches Ok(CopyRuntimeOutcome::Skipped { destination: p }) ==> request.conflict_policy
            == CopyConflictPolicy::Skip && p@ == request.destination.path@,
        r matches Ok(CopyRuntimeOutcome::Completed(report)) ==> (report.replaced_existing
            ==> request.conflict_policy == CopyConflictPolicy::Replace),
        r matches Ok(CopyRuntimeOutcome::Completed(report)) ==> (report.destination@
            == request.destination.path@ || (request.conflict_policy == CopyConflictPolicy::KeepBoth
            && is_keep_both_sibling(request.destination.path@, report.destination@))),
        r matches Err(CopyRuntimeError::KeepBothExhausted(p)) ==> request.conflict_policy
            == CopyConflictPolicy::KeepBoth && p@ == request.destination.path@,
{
    let requested = &request.destination.path;
    let exists = match destination_exists(destination, requested) {
        Ok(b) => b,
        Err(e) => return Err(e),
    };
    if exists && request.conflict_policy == CopyConflictPolicy::Fail {
        return Err(CopyRuntimeError::DestinationExists(requested.clone()));
    }
    if exists && request.conflict_policy == CopyConflictPolicy::Skip {
        return Ok(CopyRuntimeOutcome::Skipped { destination: requested.clone() });
    }
    let actual_destination = if exists && request.conflict_policy == CopyConflictPolicy::KeepBoth {
        match keep_both_destination(destination, requested) {
            Ok(p) => p,
            Err(e) => return Err(e),
        }
    } else {
        requested.clone()
    };
    let replace_existing = exists && request.conflict_policy == CopyConflictPolicy::Replace;
    let spec = TransferSpec {
        source: Endpoint {
            backend: request.source.backend.clone(),
            path: request.source.path.clone(),
        },
        destination: Endpoint {
            backend: request.destination.backend.clone(),
            path: actual_destination.clone(),
        },
    };
    let outcome = match execute_tree_reliable(
        request.id,
        &spec,
        source,
        destination,
        cancellation,
        replace_existing,
        on_progress,
    ) {
        Ok(o) => o,
        Err(e) => return Err(CopyRuntimeError::Reliability(e)),
    };
    match outcome {
        ReliableTreeOutcome::Completed(report) => Ok(
            CopyRuntimeOutcome::Completed(
                CopyRuntimeReport {
                    destination: actual_destination,
                    transfer: report.transfer,
                    replaced_existing: report.replaced_existing,
                },
            ),
        ),
        ReliableTreeOutcome::Cancelled(report) => Ok(CopyRuntimeOutcome::Cancelled(report)),
    }
}

/// Backend failure categories worth a retry after reconnecting.
pub open spec fn retryable_kind(kind: ErrorKind) -> bool {
    kind == ErrorKind::Transport || kind == ErrorKind::Protocol || kind == ErrorKind::Io
}

/// Whether a single-file failure is transient.
pub open spec fn retryable_execution(e: ExecutionError) -> bool {
    match e {
        ExecutionError::Backend(b) => retryable_kind(b.spec_kind()),
        ExecutionError::Stream(_) => true,
        _ => false,
    }
}

/// Whether a recursive failure is transient.
pub open spec fn retryable_recursive(e: RecursiveError) -> bool {
    match e {
        RecursiveError::Execution(x) => retryable_execution(x),
        RecursiveError::Backend(b) => retryable_kind(b.spec_kind()),
        _ => false,
    }
}

/// Whether a reliability failure is transient; journal, recovery, cleanup,
/// sidecar and capability failures never are.
pub open spec fn retryable_reliability(e: ReliabilityError) -> bool {
    match e {
        ReliabilityError::Transfer(x) => retryable_execution(x),
        ReliabilityError::Recursive(x) => retryable_recursive(x),
        ReliabilityError::Backend(b) => retryable_kind(b.spec_kind()),
        _ => false,
    }
}

/// Whether a copy failure is safe and useful to retry.
pub open spec fn retryable_copy(e: CopyRuntimeError) -> bool {
    match e {
        CopyRuntimeError::Backend(b) => retryable_kind(b.spec_kind()),
        CopyRuntimeError::Reliability(x) => retryable_reliability(x),
        _ => false,
    }
}

/// Stable retry classification for backend connection/open failures.
pub fn retryable_error_kind(kind: ErrorKind) -> (r: bool)
    ensures
        r == retryable_kind(kind),
{
    match kind {
        ErrorKind::Transport | ErrorKind::Protocol | ErrorKind::Io => true,
        _ => false,
    }
}

fn retryable_execution_error(error: &ExecutionError) -> (r: bool)
    ensures
        r == retryable_execution(*error),
{
    match error {
        ExecutionError::Backend(b) => retryable_error_kind(b.kind()),
        ExecutionError::Stream(_) => true,
        _ => false,
    }
}

fn retryable_recursive_error(error: &RecursiveError) -> (r: bool)
    ensures
        r == retryable_recursive(*error),
{
    match error {
        RecursiveError::Execution(x) => retryable_execution_error(x),
        RecursiveError::Backend(b) => retryable_error_kind(b.kind()),
        _ => false,
    }
}

fn retryable_reliability_error(error: &ReliabilityError) -> (r: bool)
    ensures
        r == retryable_reliability(*error),
{
    match error {
        ReliabilityError::Transfer(x) => retryable_execution_error(x),
        ReliabilityError::Recursive(x) => retryable_recursive_error(x),
        ReliabilityError::Backend(b) => retryable_error_kind(b.kind()),
        _ => false,
    }
}

/// Whether a finished copy attempt failed in a state that is safe and useful
/// to retry after reconnecting both endpoints. Recovery and cleanup failures
/// never are: the previous attempt may have left an ambiguous destination.
pub fn retryable_copy_error(error: &CopyRuntimeError) -> (r: bool)
    ensures
        r == retryable_copy(*error),
{
    match error {
        CopyRuntimeError::Backend(b) => retryable_error_kind(b.kind()),
        CopyRuntimeError::Reliability(x) => retryable_reliability_error(x),
        _ => false,
    }
}

/// Failures that may leave an ambiguous destination, conflicts, and
/// permission or authentication failures are never retried.
pub proof fn lemma_unsafe_failures_are_not_retryable(e: ReliabilityError, b: BackendError, p: BackendPath)
    ensures
        (e is RecoveryJournal || e is RecoveryFailed || e is BackupCleanupFailed || e is SidecarCollision
            || e is AtomicRenameUnsupported) ==> !retryable_copy(CopyRuntimeError::Reliability(e)),
        (b.spec_kind() == ErrorKind::PermissionDenied || b.spec_kind() == ErrorKind::Authentication
            || b.spec_kind() == ErrorKind::HostKey || b.spec_kind() == ErrorKind::NotFound
            || b.spec_kind() == ErrorKind::InvalidInput) ==> !retryable_copy(CopyRuntimeError::Backend(b)),
        !retryable_copy(CopyRuntimeError::DestinationExists(p)),
        !retryable_copy(CopyRuntimeError::KeepBothExhausted(p)),
{
}

} // verus!
