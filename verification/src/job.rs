//! Transfer intent and the minimal lifecycle state holder for one job.

use vstd::prelude::*;
use crate::domain::{BackendId, BackendPath};

verus! {

/// Stable identifier for a transfer job; zero is reserved.
#[derive(Clone, Copy, Debug, PartialEq, Eq, Hash, PartialOrd, Ord, Structural)]
pub struct TransferId(u64);

impl TransferId {
    /// The numeric identifier.
    pub closed spec fn spec_get(self) -> u64 {
        self.0
    }

    /// Creates a transfer id; zero is rejected.
    pub fn new(value: u64) -> (r: Result<TransferId, TransferError>)
        ensures
            value == 0 <==> r is Err,
            r matches Err(e) ==> e == TransferError::InvalidId,
            r matches Ok(id) ==> id.spec_get() == value,
    {
        if value == 0 {
            return Err(TransferError::InvalidId);
        }
        Ok(TransferId(value))
    }

    /// Returns the numeric id.
    pub fn get(self) -> (r: u64)
        ensures
            r == self.spec_get(),
    {
        self.0
    }
}

/// One side of a copy operation.
#[derive(Debug, PartialEq, Eq)]
pub struct Endpoint {
    /// Configured backend.
    pub backend: BackendId,
    /// Backend-local path.
    pub path: BackendPath,
}

/// Immutable transfer intent.
#[derive(Debug, PartialEq, Eq)]
pub struct TransferSpec {
    /// Source object.
    pub source: Endpoint,
    /// Destination object.
    pub destination: Endpoint,
}

/// Observable lifecycle state of a job.
#[derive(Clone, Copy, Debug, PartialEq, Eq, Structural)]
pub enum TransferState {
    /// Accepted but not yet started.
    Queued,
    /// Establishing or validating backend connections.
    Connecting,
    /// Enumerating children/metadata before transfer.
    Enumerating,
    /// Bytes are moving.
    Transferring,
    /// Content or metadata verification is running.
    Verifying,
    /// Waiting before a bounded retry.
    RetryWaiting,
    /// Explicitly paused.
    Paused,
    /// Finished successfully.
    Completed,
    /// Terminal failure.
    Failed,
    /// Terminal user cancellation.
    Cancelled,
}

/// Terminal states admit no further transition.
pub open spec fn state_is_terminal(s: TransferState) -> bool {
    s == TransferState::Completed || s == TransferState::Failed || s == TransferState::Cancelled
}

/// The documented lifecycle graph.
pub open spec fn transition_allowed(from: TransferState, to: TransferState) -> bool {
    match from {
        TransferState::Queued => to == TransferState::Connecting || to == TransferState::Cancelled,
        TransferState::Connecting => to == TransferState::Enumerating || to
            == TransferState::Transferring || to == TransferState::RetryWaiting || to
            == TransferState::Failed || to == TransferState::Cancelled,
        TransferState::Enumerating => to == TransferState::Transferring || to
            == TransferState::RetryWaiting || to == TransferState::Failed || to
            == TransferState::Cancelled,
        TransferState::Transferring => to == TransferState::Verifying || to
            == TransferState::RetryWaiting || to == TransferState::Paused || to
            == TransferState::Completed || to == TransferState::Failed || to
            == TransferState::Cancelled,
        TransferState::Verifying => to == TransferState::Completed || to
            == TransferState::RetryWaiting || to == TransferState::Failed || to
            == TransferState::Cancelled,
        TransferState::RetryWaiting => to == TransferState::Connecting || to
            == TransferState::Cancelled || to == TransferState::Failed,
        TransferState::Paused => to == TransferState::Connecting || to
            == TransferState::Transferring || to == TransferState::Cancelled,
        TransferState::Completed | TransferState::Failed | TransferState::Cancelled => false,
    }
}

impl TransferState {
    /// Returns whether no further state transition is legal.
    pub fn is_terminal(self) -> (r: bool)
        ensures
            r == state_is_terminal(self),
    {
        match self {
            TransferState::Completed | TransferState::Failed | TransferState::Cancelled => true,
            _ => false,
        }
    }

    /// Validates a lifecycle transition.
    pub fn can_transition_to(self, next: TransferState) -> (r: bool)
        ensures
            r == transition_allowed(self, next),
    {
        match self {
            TransferState::Queued => match next {
                TransferState::Connecting | TransferState::Cancelled => true,
                _ => false,
            },
            TransferState::Connecting => match next {
                TransferState::Enumerating | TransferState::Transferring
                | TransferState::RetryWaiting | TransferState::Failed
                | TransferState::Cancelled => true,
                _ => false,
            },
            TransferState::Enumerating => match next {
                TransferState::Transferring | TransferState::RetryWaiting | TransferState::Failed
                | TransferState::Cancelled => true,
                _ => false,
            },
            TransferState::Transferring => match next {
                TransferState::Verifying | TransferState::RetryWaiting | TransferState::Paused
                | TransferState::Completed | TransferState::Failed
                | TransferState::Cancelled => true,
                _ => false,
            },
            TransferState::Verifying => match next {
                TransferState::Completed | TransferState::RetryWaiting | TransferState::Failed
                | TransferState::Cancelled => true,
                _ => false,
            },
            TransferState::RetryWaiting => match next {
                TransferState::Connecting | TransferState::Cancelled | TransferState::Failed => true,
                _ => false,
            },
            TransferState::Paused => match next {
                TransferState::Connecting | TransferState::Transferring
                | TransferState::Cancelled => true,
                _ => false,
            },
            TransferState::Completed | TransferState::Failed | TransferState::Cancelled => false,
        }
    }
}

/// A terminal state has no legal successor, whatever the requested state.
pub proof fn lemma_terminal_states_never_transition(from: TransferState, to: TransferState)
    requires
        state_is_terminal(from),
    ensures
        !transition_allowed(from, to),
{
}

/// Transfer state-machine errors.
#[derive(Clone, Copy, Debug, PartialEq, Eq, Structural)]
pub enum TransferError {
    /// Transfer id zero is invalid.
    InvalidId,
    /// Attempted transition violates the documented state machine.
    InvalidTransition {
        /// State the job was in when the transition was requested.
        from: TransferState,
        /// Requested destination state.
        to: TransferState,
    },
}

/// Minimal state holder whose state only moves along the lifecycle graph.
#[derive(Debug)]
pub struct TransferJob {
    id: TransferId,
    spec: TransferSpec,
    state: TransferState,
}

impl TransferJob {
    /// Identifier of the job.
    pub closed spec fn spec_id(&self) -> TransferId {
        self.id
    }

    /// Transfer intent of the job.
    pub closed spec fn spec_spec(&self) -> TransferSpec {
        self.spec
    }

    /// Current lifecycle state.
    pub closed spec fn spec_state(&self) -> TransferState {
        self.state
    }

    /// Creates a queued job.
    pub fn new(id: TransferId, spec: TransferSpec) -> (r: TransferJob)
        ensures
            r.spec_id() == id,
            r.spec_spec() == spec,
            r.spec_state() == TransferState::Queued,
    {
        TransferJob { id, spec, state: TransferState::Queued }
    }

    /// Job identifier.
    pub fn id(&self) -> (r: TransferId)
        ensures
            r == self.spec_id(),
    {
        self.id
    }

    /// Immutable transfer intent.
    pub fn spec(&self) -> (r: &TransferSpec)
        ensures
            *r == self.spec_spec(),
    {
        &self.spec
    }

    /// Current lifecycle state.
    pub fn state(&self) -> (r: TransferState)
        ensures
            r == self.spec_state(),
    {
        self.state
    }

    /// Applies a validated state transition; an illegal one changes nothing.
    pub fn transition(&mut self, next: TransferState) -> (r: Result<(), TransferError>)
        ensures
            final(self).spec_id() == old(self).spec_id(),
            final(self).spec_spec() == old(self).spec_spec(),
            transition_allowed(old(self).spec_state(), next) <==> r is Ok,
            r is Ok ==> final(self).spec_state() == next,
            r is Err ==> final(self).spec_state() == old(self).spec_state(),
            r matches Err(e) ==> e == (TransferError::InvalidTransition {
                from: old(self).spec_state(),
                to: next,
            }),
    {
        if !self.state.can_transition_to(next) {
            return Err(TransferError::InvalidTransition { from: self.state, to: next });
        }
        self.state = next;
        Ok(())
    }
}

} // verus!
