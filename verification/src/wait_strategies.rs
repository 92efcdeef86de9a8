use vstd::prelude::*;

use crate::Sequence;

verus! {

/// What a consumer does between two reads of its barrier while no new event
/// is available: the trade-off between latency and CPU use.
pub trait WaitStrategy: Copy + Send {
    /// Called once per spin iteration while the consumer waits for `sequence`.
    fn wait_for(&self, sequence: Sequence);
}

/// True busy spin: the consumer retries at once, never giving up the core.
#[derive(Copy, Clone)]
pub struct BusySpin;

impl WaitStrategy for BusySpin {
    fn wait_for(&self, _sequence: Sequence) {
    }
}

/// Busy spin that tells the processor, on each iteration, that it is in a
/// spin-wait loop.
#[derive(Copy, Clone)]
pub struct BusySpinWithSpinLoopHint;

impl WaitStrategy for BusySpinWithSpinLoopHint {
    fn wait_for(&self, _sequence: Sequence) {
        spin_loop_hint();
    }
}

/// Calls `std::hint::spin_loop`, which only signals the processor that the
/// caller is busy-waiting; it has no effect that a contract could state.
#[verifier::external_body]
fn spin_loop_hint() {
    std::hint::spin_loop();
}

} // verus!
