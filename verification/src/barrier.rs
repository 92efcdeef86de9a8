use vstd::prelude::*;

use crate::Sequence;

verus! {

/// As in none, not zero: the sequence of a producer or consumer that has not
/// yet produced or read any event.
pub const NONE: Sequence = -1;

/// Tracks how far a producer or consumer has progressed.
///
/// Consumers read the producer barrier to know which sequences are available;
/// producers read the consumer barrier to know which slots may be rewritten.
/// Barriers are shared between threads, and what a read returns depends on
/// what the other threads have done by then.
pub trait Barrier: Send + Sync {
    /// The highest sequence that the barrier lets its reader proceed to,
    /// reading from `prev` on, or `NONE` if nothing has been published yet.
    fn get_after(&self, prev: Sequence) -> Sequence;
}

} // verus!
