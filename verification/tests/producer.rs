use std::sync::atomic::{AtomicI64, AtomicUsize, Ordering};
use std::sync::Arc;

use calvera::barrier::{Barrier, NONE};
use calvera::consumer::{ConsumerHandle, ThreadJoin};
use calvera::cursor::Cursor;
use calvera::errors::{EMissingFreeSlots, ERingBufferFull};
use calvera::producer::uni::{UniProducer, UniProducerBarrier};
use calvera::producer::ProducerBarrier;
use calvera::ring_buffer::RingBuffer;
use calvera::{Sequence, UniConsumerBarrier};
use crossbeam_utils::CachePadded;

struct RecordedJoin(Arc<AtomicUsize>);

impl ThreadJoin for RecordedJoin {
    fn join_thread(self) {
        self.0.fetch_add(1, Ordering::SeqCst);
    }
}

struct Fixture {
    producer: UniProducer<AtomicI64, UniConsumerBarrier, RecordedJoin>,
    consumer: Arc<Cursor>,
    producer_barrier: Arc<UniProducerBarrier>,
    shutdown: Arc<CachePadded<AtomicI64>>,
    ring_buffer: Arc<RingBuffer<AtomicI64>>,
    joins: Arc<AtomicUsize>,
}

fn fixture(size: usize, threads: usize) -> Fixture {
    let ring_buffer = Arc::new(RingBuffer::new(size, || AtomicI64::new(-1)));
    let shutdown = Arc::new(CachePadded::new(AtomicI64::new(NONE)));
    let producer_barrier = Arc::new(UniProducerBarrier::new());
    let consumer = Arc::new(Cursor::new(NONE));
    let joins = Arc::new(AtomicUsize::new(0));
    let handles = (0..threads)
        .map(|_| ConsumerHandle::new(RecordedJoin(Arc::clone(&joins))))
        .collect();
    let producer = UniProducer::new(
        Arc::clone(&shutdown),
        Arc::clone(&ring_buffer),
        Arc::clone(&producer_barrier),
        handles,
        UniConsumerBarrier::new(Arc::clone(&consumer)),
    );
    Fixture { producer, consumer, producer_barrier, shutdown, ring_buffer, joins }
}

#[test]
fn new_producer_starts_at_zero_with_one_ring_of_clearance() {
    let f = fixture(8, 0);
    assert_eq!(f.producer.sequence(), 0);
    assert_eq!(f.producer.sequence_clear_of_consumers(), 7);
}

#[test]
fn try_publish_writes_slot_and_publishes_consecutive_sequences() {
    let mut f = fixture(4, 0);
    for i in 0..4i64 {
        let sequence = f.producer.try_publish(|slot| slot.store(i * 10, Ordering::Relaxed));
        assert_eq!(sequence, Ok(i));
        assert_eq!(f.producer_barrier.get_after(0), i);
        assert_eq!(f.ring_buffer.get(i).load(Ordering::Relaxed), i * 10);
    }
    assert_eq!(f.producer.sequence(), 4);
}

#[test]
fn try_publish_fails_when_ring_is_full_and_recovers_when_consumer_moves() {
    let mut f = fixture(4, 0);
    for _ in 0..4 {
        assert!(f.producer.try_publish(|slot| slot.store(1, Ordering::Relaxed)).is_ok());
    }
    let mut called = false;
    assert_eq!(f.producer.try_publish(|_| called = true), Err(ERingBufferFull));
    assert!(!called);
    assert_eq!(f.producer.sequence(), 4);
    // The slot of sequence 0 still holds its event.
    assert_eq!(f.ring_buffer.get(0).load(Ordering::Relaxed), 1);

    f.consumer.store(1);
    assert_eq!(f.producer.try_publish(|slot| slot.store(7, Ordering::Relaxed)), Ok(4));
    assert_eq!(f.producer.try_publish(|slot| slot.store(8, Ordering::Relaxed)), Ok(5));
    assert_eq!(f.producer.try_publish(|_| ()), Err(ERingBufferFull));
    assert_eq!(f.ring_buffer.get(0).load(Ordering::Relaxed), 7);
    assert_eq!(f.ring_buffer.get(1).load(Ordering::Relaxed), 8);
}

#[test]
fn try_batch_publish_reports_missing_free_slots() {
    let mut f = fixture(8, 0);
    let upper = f.producer.try_batch_publish(8, |mut batch| {
        let mut value = 0;
        while let Some(slot) = batch.next() {
            slot.store(value, Ordering::Relaxed);
            value += 1;
        }
    });
    assert_eq!(upper, Ok(7));
    assert_eq!(f.producer_barrier.get_after(0), 7);
    for i in 0..8i64 {
        assert_eq!(f.ring_buffer.get(i).load(Ordering::Relaxed), i);
    }
    assert_eq!(f.producer.try_batch_publish(3, |_| ()), Err(EMissingFreeSlots(3)));
    f.consumer.store(1);
    assert_eq!(f.producer.try_batch_publish(3, |_| ()), Err(EMissingFreeSlots(1)));
    assert_eq!(f.producer.try_batch_publish(2, |_| ()), Ok(9));
    assert_eq!(f.producer.sequence(), 10);
}

#[test]
fn empty_batch_publishes_nothing_new() {
    let mut f = fixture(4, 0);
    assert_eq!(f.producer.try_publish(|_| ()), Ok(0));
    assert_eq!(f.producer.try_batch_publish(0, |mut batch| assert!(batch.next().is_none())), Ok(0));
    assert_eq!(f.producer.sequence(), 1);
}

#[test]
fn batch_iterator_walks_the_claimed_slots_in_order() {
    let mut f = fixture(4, 0);
    assert!(f.producer.try_publish(|_| ()).is_ok());
    let ring = Arc::clone(&f.ring_buffer);
    let result = f.producer.try_batch_publish(3, |mut batch| {
        assert_eq!(batch.remaining(), 3);
        assert_eq!(batch.size_hint(), (3, Some(3)));
        for expected in 1..4i64 {
            let slot = batch.next().unwrap();
            assert!(std::ptr::eq(slot, ring.get(expected)));
        }
        assert_eq!(batch.remaining(), 0);
        assert!(batch.next().is_none());
    });
    assert_eq!(result, Ok(3));
}

struct CountingBarrier {
    reads: Arc<AtomicUsize>,
    position: Sequence,
}

impl Barrier for CountingBarrier {
    fn get_after(&self, _prev: Sequence) -> Sequence {
        self.reads.fetch_add(1, Ordering::SeqCst);
        self.position
    }
}

#[test]
fn consumer_barrier_is_only_read_past_the_clearance() {
    let ring_buffer = Arc::new(RingBuffer::new(4, || AtomicI64::new(0)));
    let reads = Arc::new(AtomicUsize::new(0));
    let barrier = CountingBarrier { reads: Arc::clone(&reads), position: 5 };
    let mut producer: UniProducer<AtomicI64, CountingBarrier, RecordedJoin> = UniProducer::new(
        Arc::new(CachePadded::new(AtomicI64::new(NONE))),
        ring_buffer,
        Arc::new(UniProducerBarrier::new()),
        Vec::new(),
        barrier,
    );
    for _ in 0..4 {
        assert!(producer.try_publish(|_| ()).is_ok());
    }
    assert_eq!(reads.load(Ordering::SeqCst), 0);
    // Past the clearance the barrier is read once and the new clearance,
    // one ring past the consumer, serves the following claims.
    assert_eq!(producer.try_publish(|_| ()), Ok(4));
    assert_eq!(reads.load(Ordering::SeqCst), 1);
    assert_eq!(producer.sequence_clear_of_consumers(), 9);
    for expected in 5..10 {
        assert_eq!(producer.try_publish(|_| ()), Ok(expected));
    }
    assert_eq!(reads.load(Ordering::SeqCst), 1);
}

#[test]
fn next_sequences_then_apply_update_publishes_the_claim() {
    let mut f = fixture(2, 0);
    assert_eq!(f.producer.next_sequences(1), Ok(0));
    assert_eq!(f.producer.apply_update(|slot| slot.store(5, Ordering::Relaxed)), 0);
    assert_eq!(f.producer.next_sequences(1), Ok(1));
    assert_eq!(f.producer.apply_updates(1, |_| ()), 1);
    assert_eq!(f.producer.next_sequences(1), Err(EMissingFreeSlots(1)));
    assert_eq!(f.ring_buffer.get(0).load(Ordering::Relaxed), 5);
}

#[test]
fn shutdown_records_sequence_and_joins_every_consumer_once() {
    let mut f = fixture(4, 3);
    assert!(f.producer.try_publish(|_| ()).is_ok());
    assert!(f.producer.try_publish(|_| ()).is_ok());
    f.producer.shutdown();
    assert_eq!(f.shutdown.load(Ordering::Relaxed), 2);
    assert_eq!(f.joins.load(Ordering::SeqCst), 3);
    f.producer.shutdown();
    assert_eq!(f.joins.load(Ordering::SeqCst), 3);
}

#[test]
fn producer_barrier_reports_last_published() {
    let barrier = UniProducerBarrier::new();
    assert_eq!(barrier.get_after(0), NONE);
    barrier.publish(3);
    assert_eq!(barrier.get_after(0), 3);
}

#[test]
fn claim_with_reading_settles_claims_on_a_given_consumer_position() {
    let mut f = fixture(8, 0);
    // Within the clearance the reading plays no part.
    assert_eq!(f.producer.claim_with_reading(8, i64::MIN), Ok(7));
    assert_eq!(f.producer.apply_updates(8, |_| ()), 7);
    // Past it, the consumer at NONE leaves no free slot.
    assert_eq!(f.producer.claim_with_reading(3, NONE), Err(EMissingFreeSlots(3)));
    assert_eq!(f.producer.sequence_clear_of_consumers(), 7);
    // A consumer at 4 frees five slots and moves the clearance to 12.
    assert_eq!(f.producer.claim_with_reading(3, 4), Ok(10));
    assert_eq!(f.producer.sequence_clear_of_consumers(), 12);
    assert_eq!(f.producer.sequence(), 8);
}

#[test]
fn claim_with_reading_takes_readings_beyond_the_protocol() {
    let mut f = fixture(8, 0);
    assert_eq!(f.producer.try_batch_publish(8, |_| ()), Ok(7));
    assert_eq!(f.producer.claim_with_reading(1, i64::MIN), Err(EMissingFreeSlots(1 << 63)));
    assert_eq!(f.producer.claim_with_reading(1, i64::MAX), Ok(8));
    assert_eq!(f.producer.sequence_clear_of_consumers(), i64::MAX);
}
