use vstd::prelude::*;

use crossbeam_utils::CachePadded;
use std::sync::atomic::AtomicI64;
use std::sync::Arc;

use crate::barrier::{Barrier, NONE};
use crate::consumer::{ConsumerHandle, ThreadJoin};
use crate::cursor::{acquire_fence, store_relaxed, Cursor};
use crate::errors::{EMissingFreeSlots, ERingBufferFull};
use crate::producer::{MutBatchIter, ProducerBarrier};
use crate::ring_buffer::{slot_of, RingBuffer};
use crate::Sequence;

verus! {

/// `value`, or `u64::MAX` where it does not fit.
pub open spec fn saturated_u64(value: int) -> u64 {
    if value > u64::MAX {
        u64::MAX
    } else {
        value as u64
    }
}

/// `value`, or `i64::MAX` where it does not fit.
pub open spec fn saturated_i64(value: int) -> i64 {
    if value > i64::MAX {
        i64::MAX
    } else {
        value as i64
    }
}

/// What claiming `n` more sequences gives a producer whose next sequence is
/// `sequence` and whose slots are known to be clear of every consumer up to
/// `clearance`, in a ring of `size` slots, when the consumer barrier, if it
/// is read, reads `rear`: the highest claimed sequence or the number of
/// missing free slots, and the new clearance.
pub open spec fn claim_outcome(sequence: int, clearance: int, size: int, n: int, rear: int) -> (
    Result<Sequence, EMissingFreeSlots>,
    int,
) {
    let highest = sequence - 1 + n;
    if highest <= clearance {
        (Ok(highest as i64), clearance)
    } else {
        let free = rear - (sequence - 1 - size);
        if free < n {
            (Err(EMissingFreeSlots(saturated_u64(n - free))), clearance)
        } else {
            (Ok(highest as i64), saturated_i64(rear + size) as int)
        }
    }
}

/// Whether the outcome of a claim reads the consumer barrier.
pub open spec fn claim_reads_barrier(sequence: int, clearance: int, n: int) -> bool {
    sequence - 1 + n > clearance
}

/// The consumer position that the clearance rests on after a claim: the
/// barrier reading when the claim read the barrier and succeeded, else the
/// one before.
pub open spec fn claim_position_seen(sequence: int, clearance: int, size: int, n: int, rear: int, seen: int) -> int {
    if claim_reads_barrier(sequence, clearance, n) && claim_outcome(sequence, clearance, size, n, rear).0 is Ok {
        rear
    } else {
        seen
    }
}

/// A claim never laps the consumer: when the clearance is at most one ring
/// ahead of the consumer position it rests on, every sequence that a
/// successful claim hands out is too, so the event that its slot held has been
/// read; and the new clearance keeps that property.
pub proof fn lemma_claim_never_laps(sequence: int, clearance: int, size: int, n: int, rear: int, seen: int)
    requires
        0 <= n,
        0 <= sequence,
        sequence - 1 + n <= i64::MAX,
        0 < size <= i64::MAX,
        i64::MIN <= rear <= i64::MAX,
        sequence - 1 <= clearance,
        clearance - size <= seen,
    ensures
        ({
            let (claimed, new_clearance) = claim_outcome(sequence, clearance, size, n, rear);
            let new_seen = claim_position_seen(sequence, clearance, size, n, rear, seen);
            &&& new_clearance - size <= new_seen
            &&& claimed is Ok ==> claimed->Ok_0 == sequence - 1 + n
            &&& claimed is Ok ==> claimed->Ok_0 <= new_clearance
            &&& claimed is Ok ==> claimed->Ok_0 - size <= new_seen
            &&& claimed is Err ==> new_clearance == clearance
        }),
{
}

/// While consumers only move forward, the consumer position a producer's
/// clearance rests on is at most where the slowest consumer now is; then no
/// sequence within the clearance laps the slowest consumer: the event that its
/// slot holds has been read.
pub proof fn lemma_clearance_clear_of_consumers<T, C, H>(producer: UniProducer<T, C, H>, slowest: int, highest: int)
    requires
        producer.keeps_pace(),
        producer.consumer_position_seen() <= slowest,
        highest <= producer.clearance(),
    ensures
        highest - producer.ring().len() <= slowest,
{
}

/// A producer that is the only one to publish into its ring buffer.
///
/// It claims sequences with a local counter, and remembers up to which
/// sequence the slots are known to be clear of every consumer, so that the
/// consumer barrier is only read when a claim goes past that point.
pub struct UniProducer<T, C, H> {
    shutdown_at_sequence: Arc<CachePadded<AtomicI64>>,
    ring_buffer: Arc<RingBuffer<T>>,
    producer_barrier: Arc<UniProducerBarrier>,
    consumer_handles: Vec<ConsumerHandle<H>>,
    consumer_barrier: C,
    sequence: Sequence,
    sequence_clear_of_consumers: Sequence,
    consumer_position_seen: Ghost<int>,
}

impl<T, C, H> UniProducer<T, C, H> {
    #[verifier::type_invariant]
    closed spec fn well_formed(self) -> bool {
        &&& 0 < (*self.ring_buffer)@.len() <= i64::MAX
        &&& 0 <= self.sequence
        &&& self.sequence - 1 <= self.sequence_clear_of_consumers
        &&& self.sequence_clear_of_consumers - (*self.ring_buffer)@.len() <= self.consumer_position_seen@
    }

    /// The next sequence that the producer will publish.
    pub closed spec fn next_sequence(&self) -> int {
        self.sequence as int
    }

    /// The highest sequence whose slot is known to be clear of every consumer.
    pub closed spec fn clearance(&self) -> int {
        self.sequence_clear_of_consumers as int
    }

    /// The consumer position, read from the consumer barrier, on which the
    /// clearance rests.
    pub closed spec fn consumer_position_seen(&self) -> int {
        self.consumer_position_seen@
    }

    /// The slots of the ring buffer.
    pub closed spec fn ring(&self) -> Seq<T> {
        (*self.ring_buffer)@
    }

    /// The sentinel into which the producer writes, at shutdown, the sequence
    /// at which consumers stop.
    pub closed spec fn shutdown_sentinel(&self) -> Arc<CachePadded<AtomicI64>> {
        self.shutdown_at_sequence
    }

    /// The barrier on which the producer publishes.
    pub closed spec fn producer_barrier(&self) -> Arc<UniProducerBarrier> {
        self.producer_barrier
    }

    /// The barrier through which the producer reads how far the consumers
    /// it must not lap have read.
    pub closed spec fn consumer_barrier(&self) -> C {
        self.consumer_barrier
    }

    /// The producer's bookkeeping is sound: its next sequence is not negative,
    /// everything published lies within the clearance, and the clearance is at
    /// most one ring ahead of the consumer position it rests on.
    pub open spec fn keeps_pace(&self) -> bool {
        &&& 0 < self.ring().len() <= i64::MAX
        &&& 0 <= self.next_sequence()
        &&& self.next_sequence() - 1 <= self.clearance()
        &&& self.clearance() - self.ring().len() <= self.consumer_position_seen()
    }

    /// The handles of the consumer threads.
    pub closed spec fn consumers(&self) -> Seq<ConsumerHandle<H>> {
        self.consumer_handles@
    }

}

impl<T, C: Barrier, H: ThreadJoin> UniProducer<T, C, H> {
    /// A producer that has published nothing yet, into `ring_buffer`, whose
    /// consumers have read nothing yet.
    pub fn new(
        shutdown_at_sequence: Arc<CachePadded<AtomicI64>>,
        ring_buffer: Arc<RingBuffer<T>>,
        producer_barrier: Arc<UniProducerBarrier>,
        consumer_handles: Vec<ConsumerHandle<H>>,
        consumer_barrier: C,
    ) -> (producer: Self)
        ensures
            producer.next_sequence() == 0,
            producer.clearance() == ring_buffer@.len() - 1,
            producer.consumer_position_seen() == NONE,
            producer.ring() == ring_buffer@,
            producer.consumers() == consumer_handles@,
            producer.shutdown_sentinel() == shutdown_at_sequence,
            producer.producer_barrier() == producer_barrier,
            producer.consumer_barrier() == consumer_barrier,
            producer.keeps_pace(),
    {
        let sequence_clear_of_consumers = ring_buffer.size() - 1;
        UniProducer {
            shutdown_at_sequence,
            ring_buffer,
            producer_barrier,
            consumer_handles,
            consumer_barrier,
            sequence: 0,
            sequence_clear_of_consumers,
            consumer_position_seen: Ghost(NONE as int),
        }
    }

    /// The next sequence that the producer will publish.
    pub fn sequence(&self) -> (sequence: Sequence)
        ensures
            sequence == self.next_sequence(),
            self.keeps_pace(),
    {
        proof {
            use_type_invariant(self);
        }
        self.sequence
    }

    /// The highest sequence whose slot is known to be clear of every consumer.
    pub fn sequence_clear_of_consumers(&self) -> (clearance: Sequence)
        ensures
            clearance == self.clearance(),
    {
        self.sequence_clear_of_consumers
    }

    /// Tries to claim the `n` sequences after the last published one.
    ///
    /// While the claim stays within the clearance no atomic is read; past it,
    /// the consumer barrier is read, and the claim fails with the number of
    /// missing slots if the slowest consumer is too far behind.
    pub fn next_sequences(&mut self, n: usize) -> (r: Result<Sequence, EMissingFreeSlots>)
        requires
            old(self).next_sequence() + n <= i64::MAX,
        ensures
            final(self).next_sequence() == old(self).next_sequence(),
            final(self).ring() == old(self).ring(),
            final(self).keeps_pace(),
            final(self).producer_barrier() == old(self).producer_barrier(),
            final(self).consumer_barrier() == old(self).consumer_barrier(),
            final(self).shutdown_sentinel() == old(self).shutdown_sentinel(),
            final(self).consumers() == old(self).consumers(),
            !claim_reads_barrier(old(self).next_sequence(), old(self).clearance(), n as int) ==> (r, final(self).clearance())
                == claim_outcome(old(self).next_sequence(), old(self).clearance(), old(self).ring().len() as int, n as int, 0),
            exists|rear: i64| (r, final(self).clearance()) == #[trigger] claim_outcome(
                old(self).next_sequence(),
                old(self).clearance(),
                old(self).ring().len() as int,
                n as int,
                rear as int,
            ),
            r is Ok ==> r->Ok_0 == old(self).next_sequence() - 1 + n,
            r is Ok ==> r->Ok_0 <= final(self).clearance(),
            r is Ok ==> r->Ok_0 - final(self).ring().len() <= final(self).consumer_position_seen(),
            r is Err ==> final(self).clearance() == old(self).clearance(),
    {
        proof {
            use_type_invariant(&*self);
        }
        let count = n as i64;
        let n_next = self.sequence - 1 + count;
        if self.sequence_clear_of_consumers < n_next {
            let last_published = self.sequence - 1;
            let rear_sequence_read = self.consumer_barrier.get_after(last_published);
            self.claim_with_reading(n, rear_sequence_read)
        } else {
            assert((Ok::<Sequence, EMissingFreeSlots>(n_next), self.sequence_clear_of_consumers as int) == claim_outcome(
                old(self).next_sequence(), old(self).clearance(),
                old(self).ring().len() as int, n as int, 0i64 as int));
            Ok(n_next)
        }
    }

    /// Claims the `n` sequences after the last published one when the
    /// consumer barrier reads `rear_sequence_read`: within the clearance the
    /// reading is not needed; past it, the claim succeeds if the ring has `n`
    /// free slots ahead of that consumer position, and the clearance moves one
    /// ring past it.
    pub fn claim_with_reading(&mut self, n: usize, rear_sequence_read: Sequence) -> (r: Result<Sequence, EMissingFreeSlots>)
        requires
            old(self).next_sequence() + n <= i64::MAX,
        ensures
            (r, final(self).clearance()) == claim_outcome(
                old(self).next_sequence(),
                old(self).clearance(),
                old(self).ring().len() as int,
                n as int,
                rear_sequence_read as int,
            ),
            final(self).consumer_position_seen() == claim_position_seen(
                old(self).next_sequence(),
                old(self).clearance(),
                old(self).ring().len() as int,
                n as int,
                rear_sequence_read as int,
                old(self).consumer_position_seen(),
            ),
            final(self).next_sequence() == old(self).next_sequence(),
            final(self).ring() == old(self).ring(),
            final(self).keeps_pace(),
            final(self).producer_barrier() == old(self).producer_barrier(),
            final(self).consumer_barrier() == old(self).consumer_barrier(),
            final(self).shutdown_sentinel() == old(self).shutdown_sentinel(),
            final(self).consumers() == old(self).consumers(),
    {
        proof {
            use_type_invariant(&*self);
        }
        let count = n as i64;
        let n_next = self.sequence - 1 + count;
        if self.sequence_clear_of_consumers < n_next {
            let last_published = self.sequence - 1;
            let free_slots = self.ring_buffer.free_slots(last_published, rear_sequence_read);
            if free_slots < count as i128 {
                let missing = count as i128 - free_slots;
                let missing = if missing > u64::MAX as i128 {
                    u64::MAX
                } else {
                    missing as u64
                };
                return Err(EMissingFreeSlots(missing));
            }
            acquire_fence();
            proof {
                self.consumer_position_seen = Ghost(rear_sequence_read as int);
            }
            let clear = last_published as i128 + free_slots;
            self.sequence_clear_of_consumers = if clear > i64::MAX as i128 {
                i64::MAX
            } else {
                clear as i64
            };
        }
        Ok(n_next)
    }

    /// Lets `update` write the event into the slot of the claimed next
    /// sequence, then publishes that sequence; returns it.
    pub fn apply_update<F>(&mut self, update: F) -> (sequence: Sequence)
        where
            F: FnOnce(&T),
        requires
            old(self).next_sequence() <= old(self).clearance(),
            old(self).next_sequence() < i64::MAX,
            forall|slot: &T| #[trigger] call_requires(update, (slot,)),
        ensures
            sequence == old(self).next_sequence(),
            final(self).next_sequence() == sequence + 1,
            final(self).clearance() == old(self).clearance(),
            final(self).consumer_position_seen() == old(self).consumer_position_seen(),
            final(self).ring() == old(self).ring(),
            final(self).keeps_pace(),
            final(self).producer_barrier() == old(self).producer_barrier(),
            final(self).consumer_barrier() == old(self).consumer_barrier(),
            final(self).shutdown_sentinel() == old(self).shutdown_sentinel(),
            final(self).consumers() == old(self).consumers(),
            call_ensures(update, (&old(self).ring()[slot_of(sequence as int, old(self).ring().len() as int)],), ()),
    {
        proof {
            use_type_invariant(&*self);
        }
        let sequence = self.sequence;
        let slot = self.ring_buffer.get(sequence);
        update(slot);
        self.producer_barrier.publish(sequence);
        self.sequence = sequence + 1;
        sequence
    }

    /// Lets `updates` write the events into the slots of the `n` claimed
    /// sequences after the last published one, then publishes them all;
    /// returns the highest.
    pub fn apply_updates<'a, F>(&'a mut self, n: usize, updates: F) -> (upper: Sequence)
        where
            F: FnOnce(MutBatchIter<'a, T>),
        requires
            old(self).next_sequence() - 1 + n <= old(self).clearance(),
            old(self).next_sequence() + n <= i64::MAX,
            forall|batch: MutBatchIter<'a, T>| #[trigger] call_requires(updates, (batch,)),
        ensures
            upper == old(self).next_sequence() - 1 + n,
            final(self).next_sequence() == upper + 1,
            final(self).clearance() == old(self).clearance(),
            final(self).consumer_position_seen() == old(self).consumer_position_seen(),
            final(self).ring() == old(self).ring(),
            final(self).keeps_pace(),
            final(self).producer_barrier() == old(self).producer_barrier(),
            final(self).consumer_barrier() == old(self).consumer_barrier(),
            final(self).shutdown_sentinel() == old(self).shutdown_sentinel(),
            final(self).consumers() == old(self).consumers(),
            exists|batch: MutBatchIter<'a, T>|
                #![trigger call_ensures(updates, (batch,), ())]
                batch.current() == old(self).next_sequence() && batch.last() == upper && batch.ring()
                    == old(self).ring() && call_ensures(updates, (batch,), ()),
    {
        proof {
            use_type_invariant(&*self);
        }
        let count = n as i64;
        let lower = self.sequence;
        let upper = lower + count - 1;
        let iter = MutBatchIter::new(lower, upper, &self.ring_buffer);
        updates(iter);
        self.producer_barrier.publish(upper);
        self.sequence = self.sequence + count;
        upper
    }

    /// Claims the next sequence and lets `update` write the event into its
    /// slot, then publishes it; fails at once with `ERingBufferFull` when the
    /// slowest consumer is so far behind that no slot is free.
    ///
    /// A published sequence never laps the consumer position that its
    /// clearance rests on: the event it overwrites has been read.
    pub fn try_publish<F>(&mut self, update: F) -> (r: Result<Sequence, ERingBufferFull>)
        where
            F: FnOnce(&T),
        requires
            old(self).next_sequence() + 1 <= i64::MAX,
            forall|slot: &T| #[trigger] call_requires(update, (slot,)),
        ensures
            final(self).ring() == old(self).ring(),
            final(self).keeps_pace(),
            final(self).producer_barrier() == old(self).producer_barrier(),
            final(self).consumer_barrier() == old(self).consumer_barrier(),
            final(self).shutdown_sentinel() == old(self).shutdown_sentinel(),
            final(self).consumers() == old(self).consumers(),
            exists|rear: i64| {
                &&& (#[trigger] claim_outcome(
                    old(self).next_sequence(),
                    old(self).clearance(),
                    old(self).ring().len() as int,
                    1,
                    rear as int,
                )).1 == final(self).clearance()
                &&& (r is Ok <==> claim_outcome(
                    old(self).next_sequence(),
                    old(self).clearance(),
                    old(self).ring().len() as int,
                    1,
                    rear as int,
                ).0 is Ok)
            },
            !claim_reads_barrier(old(self).next_sequence(), old(self).clearance(), 1) ==> r is Ok,
            r is Ok ==> {
                &&& r->Ok_0 == old(self).next_sequence()
                &&& final(self).next_sequence() == r->Ok_0 + 1
                &&& r->Ok_0 - final(self).ring().len() <= final(self).consumer_position_seen()
                &&& call_ensures(
                    update,
                    (&old(self).ring()[slot_of(r->Ok_0 as int, old(self).ring().len() as int)],),
                    (),
                )
            },
            r is Err ==> final(self).next_sequence() == old(self).next_sequence() && final(self).clearance()
                == old(self).clearance(),
    {
        match self.next_sequences(1) {
            Err(_) => Err(ERingBufferFull),
            Ok(_) => {
                let sequence = self.apply_update(update);
                proof {
                    use_type_invariant(&*self);
                }
                Ok(sequence)
            },
        }
    }

    /// Claims the `n` next sequences and lets `update` write the events into
    /// their slots, then publishes them; returns the highest, or fails at once
    /// with the number of missing free slots.
    ///
    /// No published sequence laps the consumer position that the clearance
    /// rests on.
    pub fn try_batch_publish<'a, F>(&'a mut self, n: usize, update: F) -> (r: Result<Sequence, EMissingFreeSlots>)
        where
            F: FnOnce(MutBatchIter<'a, T>),
        requires
            old(self).next_sequence() + n <= i64::MAX,
            forall|batch: MutBatchIter<'a, T>| #[trigger] call_requires(update, (batch,)),
        ensures
            final(self).ring() == old(self).ring(),
            final(self).keeps_pace(),
            final(self).producer_barrier() == old(self).producer_barrier(),
            final(self).consumer_barrier() == old(self).consumer_barrier(),
            final(self).shutdown_sentinel() == old(self).shutdown_sentinel(),
            final(self).consumers() == old(self).consumers(),
            exists|rear: i64| (r, final(self).clearance()) == #[trigger] claim_outcome(
                old(self).next_sequence(),
                old(self).clearance(),
                old(self).ring().len() as int,
                n as int,
                rear as int,
            ),
            !claim_reads_barrier(old(self).next_sequence(), old(self).clearance(), n as int) ==> r is Ok,
            r is Ok ==> {
                &&& r->Ok_0 == old(self).next_sequence() - 1 + n
                &&& final(self).next_sequence() == r->Ok_0 + 1
                &&& r->Ok_0 - final(self).ring().len() <= final(self).consumer_position_seen()
                &&& exists|batch: MutBatchIter<'a, T>|
                    #![trigger call_ensures(update, (batch,), ())]
                    batch.current() == old(self).next_sequence() && batch.last() == r->Ok_0 && batch.ring()
                        == old(self).ring() && call_ensures(update, (batch,), ())
            },
            r is Err ==> final(self).next_sequence() == old(self).next_sequence(),
    {
        let claimed = self.next_sequences(n);
        match claimed {
            Err(missing) => Err(missing),
            Ok(_) => {
                proof {
                    use_type_invariant(&*self);
                }
                let upper = self.apply_updates(n, update);
                Ok(upper)
            },
        }
    }

    /// Records the sequence at which consumers stop, then waits for every
    /// consumer thread to finish.
    pub fn shutdown(&mut self)
        ensures
            final(self).next_sequence() == old(self).next_sequence(),
            final(self).clearance() == old(self).clearance(),
            final(self).consumer_position_seen() == old(self).consumer_position_seen(),
            final(self).ring() == old(self).ring(),
            final(self).keeps_pace(),
            final(self).producer_barrier() == old(self).producer_barrier(),
            final(self).consumer_barrier() == old(self).consumer_barrier(),
            final(self).shutdown_sentinel() == old(self).shutdown_sentinel(),
            final(self).consumers().len() == old(self).consumers().len(),
            forall|i: int| 0 <= i < final(self).consumers().len() ==> #[trigger] final(self).consumers()[i].is_joined(),
            forall|i: int|
                0 <= i < final(self).consumers().len() && !old(self).consumers()[i].is_joined() ==> {
                    let stop = #[trigger] final(self).consumers()[i].stop_announced();
                    &&& stop is Some
                    &&& stop->Some_0.target() == *old(self).shutdown_sentinel()
                    &&& stop->Some_0.value() == old(self).next_sequence()
                },
            forall|i: int|
                0 <= i < final(self).consumers().len() && old(self).consumers()[i].is_joined() ==> #[trigger] final(self).consumers()[i] == old(self).consumers()[i],
    {
        proof {
            use_type_invariant(&*self);
        }
        let stop = store_relaxed(&self.shutdown_at_sequence, self.sequence);
        let mut i: usize = 0;
        while i < self.consumer_handles.len()
            invariant
                i <= self.consumer_handles@.len(),
                self.consumer_handles@.len() == old(self).consumer_handles@.len(),
                self.sequence == old(self).sequence,
                self.sequence_clear_of_consumers == old(self).sequence_clear_of_consumers,
                self.consumer_position_seen == old(self).consumer_position_seen,
                self.ring_buffer == old(self).ring_buffer,
                self.producer_barrier == old(self).producer_barrier,
                self.consumer_barrier == old(self).consumer_barrier,
                self.shutdown_at_sequence == old(self).shutdown_at_sequence,
                forall|j: int| 0 <= j < i ==> #[trigger] self.consumer_handles@[j].is_joined(),
                stop.target() == *old(self).shutdown_at_sequence,
                stop.value() == old(self).sequence,
                forall|j: int|
                    0 <= j < i && !old(self).consumer_handles@[j].is_joined() ==> #[trigger] self.consumer_handles@[j].stop_announced()
                        == Some(stop),
                forall|j: int|
                    i <= j < self.consumer_handles@.len() || (0 <= j < i && old(self).consumer_handles@[j].is_joined())
                        ==> #[trigger] self.consumer_handles@[j] == old(self).consumer_handles@[j],
            decreases self.consumer_handles@.len() - i,
        {
            proof {
                use_type_invariant(&*self);
            }
            self.consumer_handles[i].join_after_stop(&stop);
            i = i + 1;
        }
    }
}

/// The producer barrier of a single producer: the last sequence it published.
pub struct UniProducerBarrier {
    cursor: Cursor,
}

impl UniProducerBarrier {
    /// A barrier over which nothing has been published yet.
    pub fn new() -> Self {
        UniProducerBarrier { cursor: Cursor::new(NONE) }
    }
}

impl Barrier for UniProducerBarrier {
    /// The last sequence published.
    fn get_after(&self, _sequence: Sequence) -> Sequence {
        self.cursor.relaxed_value()
    }
}

impl ProducerBarrier for UniProducerBarrier {
    fn publish(&self, sequence: Sequence) {
        self.cursor.store(sequence);
    }
}

} // verus!
