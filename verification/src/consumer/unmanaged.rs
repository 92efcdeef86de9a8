use vstd::prelude::*;

use crossbeam_utils::CachePadded;
use std::sync::atomic::AtomicI64;
use std::sync::Arc;

use crate::barrier::Barrier;
use crate::cursor::{acquire_fence, load_relaxed, Cursor, Loaded};
use crate::errors::EPolling;
use crate::ring_buffer::{slot_of, RingBuffer};
use crate::Sequence;

verus! {

/// `base + limit`, or `i64::MAX` where that does not fit.
pub open spec fn saturating_add_unsigned(base: i64, limit: u64) -> i64 {
    if base + limit > i64::MAX {
        i64::MAX
    } else {
        (base + limit) as i64
    }
}

fn add_unsigned_saturating(base: i64, limit: u64) -> (sum: i64)
    ensures
        sum == saturating_add_unsigned(base, limit),
{
    let sum = base as i128 + limit as i128;
    if sum > i64::MAX as i128 {
        i64::MAX
    } else {
        sum as i64
    }
}

/// What polling for at most `limit` events gives a poller whose cursor reads
/// `cursor_at`, when the shutdown sentinel reads `shutdown_at` and the
/// dependent barrier reads `available`: the first and last sequence of the
/// events handed out, or why there are none.
pub open spec fn poll_outcome(cursor_at: i64, shutdown_at: i64, available: i64, limit: u64) -> Result<(int, int), EPolling> {
    let sequence = cursor_at + 1;
    if sequence == shutdown_at {
        Err(EPolling::Shutdown)
    } else if limit == 0 {
        Ok((sequence, cursor_at as int))
    } else if available < sequence {
        Err(EPolling::NoEvents)
    } else {
        let max_sequence = saturating_add_unsigned(cursor_at, limit);
        Ok((sequence, if available < max_sequence { available as int } else { max_sequence as int }))
    }
}

/// A poll hands out a batch that starts right after the poller's cursor, ends
/// no later than what the barrier has made available, and holds at most
/// `limit` events; unless the poller is shut down, a `limit` of zero gives an
/// empty batch, never `NoEvents`, whether or not events are available. It
/// reports `Shutdown` exactly when the sentinel reads the sequence right
/// after the cursor, and `NoEvents` exactly when it does not, the poller may
/// take events and the barrier has not reached that sequence.
pub proof fn lemma_poll_window(cursor_at: i64, shutdown_at: i64, available: i64, limit: u64)
    ensures
        poll_outcome(cursor_at, shutdown_at, available, limit) is Ok ==> {
            let (first, last) = poll_outcome(cursor_at, shutdown_at, available, limit)->Ok_0;
            &&& first == cursor_at + 1
            &&& last <= available || last == cursor_at
            &&& first - 1 <= last
            &&& last - first + 1 <= limit
        },
        cursor_at + 1 != shutdown_at && available >= cursor_at + 1 ==> poll_outcome(
            cursor_at,
            shutdown_at,
            available,
            limit,
        ) is Ok,
        cursor_at + 1 != shutdown_at && limit == 0 ==> poll_outcome(
            cursor_at,
            shutdown_at,
            available,
            limit,
        ) == Ok::<(int, int), EPolling>((cursor_at + 1, cursor_at as int)),
        poll_outcome(cursor_at, shutdown_at, available, limit) == Err::<(int, int), EPolling>(EPolling::NoEvents)
            ==> limit > 0 && available < cursor_at + 1,
        (poll_outcome(cursor_at, shutdown_at, available, limit) == Err::<(int, int), EPolling>(EPolling::Shutdown))
            <==> cursor_at + 1 == shutdown_at,
        (poll_outcome(cursor_at, shutdown_at, available, limit) == Err::<(int, int), EPolling>(EPolling::NoEvents))
            <==> (cursor_at + 1 != shutdown_at && limit > 0 && available < cursor_at + 1),
{
}

/// The first and last sequence of the events that a poll hands out when the
/// poller's cursor reads `cursor_at`, the shutdown sentinel `shutdown_at` and
/// the dependent barrier `available`, with at most `limit` events; or why
/// there are none.
pub fn poll_window(cursor_at: i64, shutdown_at: i64, available: i64, limit: u64) -> (r: Result<Sequence, EPolling>)
    ensures
        match r {
            Ok(last) => poll_outcome(cursor_at, shutdown_at, available, limit) == Ok::<(int, int), EPolling>((cursor_at + 1, last as int)),
            Err(e) => poll_outcome(cursor_at, shutdown_at, available, limit) == Err::<(int, int), EPolling>(e),
        },
{
    if cursor_at < i64::MAX && cursor_at + 1 == shutdown_at {
        return Err(EPolling::Shutdown);
    }
    if limit == 0 {
        return Ok(cursor_at);
    }
    if cursor_at == i64::MAX || available < cursor_at + 1 {
        return Err(EPolling::NoEvents);
    }
    let max_sequence = add_unsigned_saturating(cursor_at, limit);
    let last = if available < max_sequence {
        available
    } else {
        max_sequence
    };
    Ok(last)
}

/// Pull-based consumer: its owner polls it for events whenever it is ready.
pub struct EventPoller<T, B> {
    ring_buffer: Arc<RingBuffer<T>>,
    dependent_barrier: Arc<B>,
    shutdown_at_sequence: Arc<CachePadded<AtomicI64>>,
    cursor: Arc<Cursor>,
}

/// A batch of events available to a poller, from a first to a last sequence,
/// read in order; releasing it records that the poller is done with the
/// whole batch, read or not.
pub struct EventGuard<'p, T, B> {
    parent: &'p EventPoller<T, B>,
    sequence: i128,
    available: Sequence,
}

impl<T, B> EventPoller<T, B> {
    /// The slots of the ring buffer that the poller reads.
    pub closed spec fn ring(&self) -> Seq<T> {
        (*self.ring_buffer)@
    }

    /// The cursor on which the poller records how far it has read.
    pub closed spec fn cursor(&self) -> Arc<Cursor> {
        self.cursor
    }

    /// The barrier that the poller waits on.
    pub closed spec fn barrier(&self) -> Arc<B> {
        self.dependent_barrier
    }

    /// The sentinel from which the poller learns where the producer stopped.
    pub closed spec fn shutdown_sentinel(&self) -> Arc<CachePadded<AtomicI64>> {
        self.shutdown_at_sequence
    }
}

impl<T, B: Barrier> EventPoller<T, B> {
    /// A poller over `ring_buffer` that waits on `dependent_barrier`, stops at
    /// the sequence that `shutdown_at_sequence` holds, and records its
    /// progress on `cursor`.
    pub fn new(
        ring_buffer: Arc<RingBuffer<T>>,
        dependent_barrier: Arc<B>,
        shutdown_at_sequence: Arc<CachePadded<AtomicI64>>,
        cursor: Arc<Cursor>,
    ) -> (poller: Self)
        ensures
            poller.ring() == ring_buffer@,
            poller.shutdown_sentinel() == shutdown_at_sequence,
            poller.barrier() == dependent_barrier,
            poller.cursor() == cursor,
    {
        EventPoller { ring_buffer, dependent_barrier, shutdown_at_sequence, cursor }
    }

    /// Polls for the available events, as `poll_take` with no limit.
    pub fn poll(&mut self) -> (r: Result<EventGuard<'_, T, B>, EPolling>)
        ensures
            exists|cursor_at: i64, shutdown_at: i64, available: i64|
                #[trigger] poll_outcome(cursor_at, shutdown_at, available, u64::MAX) == guard_window(r),
            exists|cursor_at: Loaded, shutdown_at: Loaded, available: i64|
                cursor_at.source() == old(self).cursor().shared() && shutdown_at.source()
                    == *old(self).shutdown_sentinel() && #[trigger] poll_outcome(
                    cursor_at.value(),
                    shutdown_at.value(),
                    available,
                    u64::MAX,
                ) == guard_window(r),
            r is Ok ==> r->Ok_0.ring() == old(self).ring(),
            r is Ok ==> r->Ok_0.cursor() == old(self).cursor(),
    {
        self.poll_take(u64::MAX)
    }

    /// Polls for at most `limit` of the available events, without blocking.
    ///
    /// Fails with `Shutdown` when the producers are done and the poller has
    /// seen every event, and with `NoEvents` when none is available; short of
    /// shutdown, a `limit` of zero always gives a batch with no events, never
    /// `NoEvents`.
    pub fn poll_take(&mut self, limit: u64) -> (r: Result<EventGuard<'_, T, B>, EPolling>)
        ensures
            exists|cursor_at: i64, shutdown_at: i64, available: i64|
                #[trigger] poll_outcome(cursor_at, shutdown_at, available, limit) == guard_window(r),
            exists|cursor_at: Loaded, shutdown_at: Loaded, available: i64|
                cursor_at.source() == old(self).cursor().shared() && shutdown_at.source()
                    == *old(self).shutdown_sentinel() && #[trigger] poll_outcome(
                    cursor_at.value(),
                    shutdown_at.value(),
                    available,
                    limit,
                ) == guard_window(r),
            r is Ok ==> r->Ok_0.ring() == old(self).ring(),
            r is Ok ==> r->Ok_0.cursor() == old(self).cursor(),
    {
        let cursor_reading = self.cursor.read();
        let sentinel_reading = load_relaxed(&self.shutdown_at_sequence);
        let cursor_at = cursor_reading.sequence();
        let shutdown_at = sentinel_reading.sequence();
        // The barrier only matters when the poller is not shut down, may take
        // events and has a next sequence; only then is it read, and
        // otherwise nothing beyond the cursor counts as available.
        let available = if cursor_at < i64::MAX && cursor_at + 1 != shutdown_at && limit > 0 {
            self.dependent_barrier.get_after(cursor_at + 1)
        } else {
            cursor_at
        };
        match poll_window(cursor_at, shutdown_at, available, limit) {
            Err(e) => Err(e),
            Ok(last) => {
                acquire_fence();
                let guard = EventGuard { parent: self, sequence: cursor_at as i128 + 1, available: last };
                assert(poll_outcome(cursor_at, shutdown_at, available, limit) == guard_window(
                    Ok::<EventGuard<'_, T, B>, EPolling>(guard),
                ));
                Ok(guard)
            },
        }
    }

}

/// The first and last sequence of a polled batch, or why there is none.
pub open spec fn guard_window<'p, T, B>(r: Result<EventGuard<'p, T, B>, EPolling>) -> Result<(int, int), EPolling> {
    match r {
        Ok(guard) => Ok((guard.next_sequence(), guard.last_sequence())),
        Err(e) => Err(e),
    }
}

impl<'p, T, B> EventGuard<'p, T, B> {
    #[verifier::type_invariant]
    closed spec fn well_formed(self) -> bool {
        &&& i64::MIN < self.sequence <= self.available + 1
        &&& self.available - self.sequence + 1 <= u64::MAX
    }

    /// The sequence of the next event handed out.
    pub closed spec fn next_sequence(&self) -> int {
        self.sequence as int
    }

    /// The sequence of the last event of the batch.
    pub closed spec fn last_sequence(&self) -> int {
        self.available as int
    }

    /// The cursor that releasing the batch advances: its poller's.
    pub closed spec fn cursor(&self) -> Arc<Cursor> {
        self.parent.cursor
    }

    /// The slots of the ring buffer that the batch reads.
    pub closed spec fn ring(&self) -> Seq<T> {
        (*self.parent.ring_buffer)@
    }

    /// The next event of the batch, or `None` when the batch is done.
    pub fn next(&mut self) -> (event: Option<&T>)
        ensures
            final(self).last_sequence() == old(self).last_sequence(),
            final(self).ring() == old(self).ring(),
            final(self).cursor() == old(self).cursor(),
            old(self).next_sequence() > old(self).last_sequence() ==> event is None
                && final(self).next_sequence() == old(self).next_sequence(),
            old(self).next_sequence() <= old(self).last_sequence() ==> {
                &&& final(self).next_sequence() == old(self).next_sequence() + 1
                &&& old(self).ring().len() > 0
                &&& event == Some(
                    &old(self).ring()[slot_of(old(self).next_sequence(), old(self).ring().len() as int)],
                )
            },
    {
        proof {
            use_type_invariant(&*self);
        }
        if self.sequence > self.available as i128 {
            return None;
        }
        let event = self.parent.ring_buffer.get_ref(self.sequence as i64);
        self.sequence = self.sequence + 1;
        Some(event)
    }

    /// The number of events of the batch not yet handed out.
    pub fn len(&self) -> (n: usize)
        ensures
            n == (self.last_sequence() - self.next_sequence() + 1) as usize,
    {
        proof {
            use_type_invariant(self);
        }
        (self.available as i128 - self.sequence + 1) as usize
    }

    /// Records on the poller's cursor that it is done with the whole batch,
    /// up to its last sequence, whether or not every event was read.
    pub fn release(&self) {
        self.parent.cursor.store(self.available);
    }
}

} // verus!
