use vstd::prelude::*;

pub mod barrier;
pub mod builder;
pub mod consumer;
pub mod cores;
pub mod cursor;
pub mod disruptor;
pub mod errors;
pub mod producer;
pub mod ring_buffer;
pub mod wait_strategies;

pub use crate::consumer::unmanaged::{EventGuard, EventPoller};
pub use crate::consumer::{MultiConsumerBarrier, UniConsumerBarrier};
pub use crate::disruptor::Disruptor;
pub use crate::producer::uni::{UniProducer, UniProducerBarrier};
pub use crate::wait_strategies::{BusySpin, BusySpinWithSpinLoopHint};

verus! {

/// Position of an event in the unbounded stream of published events.
pub type Sequence = i64;

} // verus!
