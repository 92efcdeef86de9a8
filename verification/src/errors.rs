use vstd::prelude::*;

verus! {

/// The ring buffer has no free slot for a single publication.
///
/// The consumers are not keeping up; the caller decides whether to drop the
/// event, retry or give up.
#[derive(Debug, Clone, Copy, PartialEq, Eq, Structural)]
pub struct ERingBufferFull;

/// The ring buffer lacks this many free slots for a batch publication.
#[derive(Debug, Clone, Copy, PartialEq, Eq, Structural)]
pub struct EMissingFreeSlots(pub u64);

/// Why polling for events yielded none.
#[derive(Debug, Clone, Copy, PartialEq, Eq, Structural)]
pub enum EPolling {
    /// No events are available to process.
    NoEvents,
    /// The disruptor has been shut down and every event has been seen.
    Shutdown,
}

impl ERingBufferFull {
    /// Human-readable description of the error.
    pub fn message(&self) -> (text: &'static str)
        ensures
            text@ == "Ring Buffer is full."@,
    {
        "Ring Buffer is full."
    }
}

impl EPolling {
    /// Human-readable description of the error.
    pub fn message(&self) -> (text: &'static str)
        ensures
            *self == EPolling::NoEvents ==> text@ == "No available events."@,
            *self == EPolling::Shutdown ==> text@ == "Disruptor is shut down."@,
    {
        match self {
            EPolling::NoEvents => "No available events.",
            EPolling::Shutdown => "Disruptor is shut down.",
        }
    }
}

} // verus!
