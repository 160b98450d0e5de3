//! The progress of a render, counted by the workers and polled by an
//! observer.
use vstd::prelude::*;
use std::sync::atomic::AtomicUsize;
use std::sync::atomic::Ordering;

verus! {

/// Two counters that any thread may touch: the number of units of a render
/// and the number of units done. The verifier does not see what the counters
/// hold, so the functions below promise nothing about values.
pub struct RenderProgressState {
    pub total: AtomicUsize,
    pub current: AtomicUsize,
}

impl RenderProgressState {
    /// Both counters at 0.
    pub fn new() -> RenderProgressState {
        RenderProgressState { total: AtomicUsize::new(0), current: AtomicUsize::new(0) }
    }

    /// Sets the number of units of the render.
    pub fn init(&self, total: usize) {
        self.total.swap(total, Ordering::Relaxed);
    }

    /// Counts one more unit as done.
    pub fn tick(&self, _current: usize) {
        self.current.fetch_add(1, Ordering::SeqCst);
    }

    /// The units done and the units in all, as they stand at the moment.
    pub fn counts(&self) -> (usize, usize) {
        let total = self.total.load(Ordering::Relaxed);
        let current = self.current.load(Ordering::Relaxed);
        (current, total)
    }
}

} // verus!
