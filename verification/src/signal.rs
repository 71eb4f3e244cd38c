//! The one-shot request to stop a run early.

use std::sync::atomic::AtomicBool;
use std::sync::atomic::Ordering;
use vstd::prelude::*;

verus! {

/// A flag that one side raises and the planner reads at the top of every
/// tick. It can be raised any number of times and is never lowered.
///
/// It changes behind a shared reference, and another thread may raise it at
/// any moment, so no contract here speaks of whether it is raised.
pub struct CancelSignal {
    raised: AtomicBool,
}

impl CancelSignal {
    /// A signal that has not been raised.
    pub fn new() -> (signal: CancelSignal) {
        CancelSignal { raised: AtomicBool::new(false) }
    }

    /// Raises the signal.
    pub fn request(&self) {
        self.raised.store(true, Ordering::SeqCst);
    }

    /// Whether the signal has been raised.
    pub fn is_requested(&self) -> (requested: bool) {
        self.raised.load(Ordering::SeqCst)
    }
}

} // verus!
