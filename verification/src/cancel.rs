//! Cooperative cancellation shared between a frontend and a transfer worker.

use vstd::prelude::*;
use std::sync::Arc;
use std::sync::atomic::{AtomicBool, Ordering};

verus! {

/// Thread-safe cancellation request; clones share one flag.
#[derive(Clone, Debug)]
pub struct CancellationToken {
    cancelled: Arc<AtomicBool>,
}

impl CancellationToken {
    /// Creates a token in the non-cancelled state.
    pub fn new() -> (r: CancellationToken) {
        CancellationToken { cancelled: Arc::new(AtomicBool::new(false)) }
    }

    /// Requests cooperative cancellation.
    pub fn cancel(&self) {
        self.cancelled.store(true, Ordering::Release);
    }

    /// Returns whether cancellation has been requested; another thread may set
    /// the flag at any moment, so nothing is promised about the answer.
    pub fn is_cancelled(&self) -> bool {
        self.cancelled.load(Ordering::Acquire)
    }
}

} // verus!
