//! What becomes of the allocator once a request that had no fallback failed.

use vstd::prelude::*;

verus! {

/// The state of an allocation path that has no fallback arena. `Exhausted`
/// is absorbing: once a request there failed, the path never becomes ready
/// again. What to do on reaching it (halt, or report an error) is left to
/// the code that composes the system.
#[derive(Copy, Clone, Debug, PartialEq, Eq, Structural)]
pub enum HeapPhase {
    Ready,
    Exhausted,
}

impl HeapPhase {
    /// The phase after a request on this path came back with `outcome`.
    pub fn after(self, outcome: Option<usize>) -> (r: HeapPhase)
        ensures
            r == (if self == HeapPhase::Exhausted || outcome is None {
                HeapPhase::Exhausted
            } else {
                HeapPhase::Ready
            }),
    {
        match (self, outcome) {
            (HeapPhase::Ready, Some(_)) => HeapPhase::Ready,
            _ => HeapPhase::Exhausted,
        }
    }

    /// Whether the path must stop.
    pub fn is_exhausted(self) -> (r: bool)
        ensures
            r == (self == HeapPhase::Exhausted),
    {
        match self {
            HeapPhase::Ready => false,
            HeapPhase::Exhausted => true,
        }
    }
}

} // verus!
