use vstd::prelude::*;

use crossbeam_utils::CachePadded;
use std::sync::atomic::AtomicI64;
use std::sync::atomic::Ordering;

use crate::Sequence;

verus! {

#[verifier::external_type_specification]
#[verifier::external_body]
#[verifier::reject_recursive_types(T)]
pub struct ExCachePadded<T>(crossbeam_utils::CachePadded<T>);

/// `CachePadded::new` pads and aligns a value to the length of a cache line;
/// nothing is claimed of the padded value.
pub assume_specification<T>[ CachePadded::<T>::new ](t: T) -> CachePadded<T>;

/// Reads through `CachePadded`'s `Deref`, which hands out the padded value;
/// nothing is claimed of it.
#[verifier::external_body]
pub(crate) fn padded<T>(p: &CachePadded<T>) -> &T {
    &**p
}

/// Calls `AtomicI64::compare_exchange`, which stores `new` when the atomic
/// holds `current`, and returns `Ok` with the previous value if it did and
/// `Err` with the value it found if it did not. What the value is depends on
/// the other threads; only that relation to `current` is claimed.
#[verifier::external_body]
fn atomic_compare_exchange(atomic: &AtomicI64, current: i64, new: i64) -> (r: Result<i64, i64>)
    ensures
        match r {
            Ok(previous) => previous == current,
            Err(found) => found != current,
        },
{
    atomic.compare_exchange(current, new, Ordering::AcqRel, Ordering::Relaxed)
}

/// A sequence counter shared between threads, padded to its own cache line.
pub struct Cursor {
    counter: CachePadded<AtomicI64>,
}

impl Cursor {
    /// A cursor that starts at `start`.
    pub fn new(start: Sequence) -> Self {
        Cursor { counter: CachePadded::new(AtomicI64::new(start)) }
    }

    /// Moves the cursor from `current` to `next` if it is at `current`:
    /// `Ok(current)` if it was, else `Err` with the sequence it is at.
    ///
    /// This is how producers racing for the same sequence settle which one
    /// claims it.
    pub fn compare_exchange(&self, current: Sequence, next: Sequence) -> (r: Result<i64, i64>)
        ensures
            match r {
                Ok(previous) => previous == current,
                Err(found) => found != current,
            },
    {
        atomic_compare_exchange(padded(&self.counter), current, next)
    }

    /// Stores `sequence` with release ordering.
    pub fn store(&self, sequence: Sequence) {
        padded(&self.counter).store(sequence, Ordering::Release);
    }

    /// The shared sequence that holds the cursor.
    pub closed spec fn shared(&self) -> CachePadded<AtomicI64> {
        self.counter
    }

    /// Loads the cursor with relaxed ordering.
    pub fn relaxed_value(&self) -> Sequence {
        padded(&self.counter).load(Ordering::Relaxed)
    }

    /// Loads the cursor with relaxed ordering, with the evidence that the
    /// value was read from this cursor.
    pub fn read(&self) -> (loaded: Loaded)
        ensures
            loaded.source() == self.shared(),
    {
        load_relaxed(&self.counter)
    }
}


/// Calls `std::sync::atomic::fence` with acquire ordering; it orders memory
/// accesses and returns nothing that a contract could state.
#[verifier::external_body]
pub(crate) fn acquire_fence() {
    std::sync::atomic::fence(Ordering::Acquire);
}

/// A value loaded from a shared sequence, together with the shared sequence
/// it was loaded from. Only the loads of this module make one, so a value
/// that comes with a `Loaded` was read from its `source`.
pub struct Loaded {
    value: Sequence,
    source: Ghost<CachePadded<AtomicI64>>,
}

impl Loaded {
    /// The value that was loaded.
    pub closed spec fn value(&self) -> Sequence {
        self.value
    }

    /// The shared sequence it was loaded from.
    pub closed spec fn source(&self) -> CachePadded<AtomicI64> {
        self.source@
    }

    /// The value that was loaded.
    pub fn sequence(&self) -> (sequence: Sequence)
        ensures
            sequence == self.value(),
    {
        self.value
    }
}

/// Evidence that a value was stored into a shared sequence. Only the stores
/// of this module make one, so whoever holds a `Stored` comes after the
/// store it records.
pub struct Stored {
    value: Sequence,
    target: Ghost<CachePadded<AtomicI64>>,
}

impl Stored {
    /// The value that was stored.
    pub closed spec fn value(&self) -> Sequence {
        self.value
    }

    /// The shared sequence it was stored into.
    pub closed spec fn target(&self) -> CachePadded<AtomicI64> {
        self.target@
    }
}

/// Stores `sequence` into a padded shared sequence with relaxed ordering.
pub(crate) fn store_relaxed(shared: &CachePadded<AtomicI64>, sequence: Sequence) -> (stored: Stored)
    ensures
        stored.value() == sequence,
        stored.target() == *shared,
{
    padded(shared).store(sequence, Ordering::Relaxed);
    Stored { value: sequence, target: Ghost(*shared) }
}

/// Loads a padded shared sequence with relaxed ordering.
pub(crate) fn load_relaxed(shared: &CachePadded<AtomicI64>) -> (loaded: Loaded)
    ensures
        loaded.source() == *shared,
{
    let value = padded(shared).load(Ordering::Relaxed);
    Loaded { value, source: Ghost(*shared) }
}

/// A padded shared sequence that starts at `start`.
pub(crate) fn new_shared_sequence(start: Sequence) -> CachePadded<AtomicI64> {
    CachePadded::new(AtomicI64::new(start))
}

} // verus!
