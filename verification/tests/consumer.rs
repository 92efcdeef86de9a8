use std::sync::atomic::{AtomicI64, AtomicUsize, Ordering};
use std::sync::Arc;

use calvera::barrier::{Barrier, NONE};
use calvera::consumer::managed::{consume_batch, wait_decide, wait_step, ConsumerProgress, WaitStep};
use calvera::consumer::unmanaged::poll_window;
use calvera::consumer::{slowest_reading, ConsumerHandle, ThreadJoin};
use calvera::cursor::Cursor;
use calvera::errors::EPolling;
use calvera::producer::ProducerBarrier;
use calvera::ring_buffer::RingBuffer;
use calvera::wait_strategies::WaitStrategy;
use calvera::{BusySpin, BusySpinWithSpinLoopHint, EventPoller, MultiConsumerBarrier, Sequence, UniConsumerBarrier, UniProducerBarrier};
use crossbeam_utils::CachePadded;

struct FixedBarrier(Sequence);

impl Barrier for FixedBarrier {
    fn get_after(&self, _prev: Sequence) -> Sequence {
        self.0
    }
}

static WAITS: AtomicUsize = AtomicUsize::new(0);

#[derive(Copy, Clone)]
struct CountingWait;

impl WaitStrategy for CountingWait {
    fn wait_for(&self, _sequence: Sequence) {
        WAITS.fetch_add(1, Ordering::SeqCst);
    }
}

#[test]
fn wait_step_decides_from_barrier_and_shutdown() {
    let shutdown = CachePadded::new(AtomicI64::new(NONE));
    assert_eq!(wait_step(3, &shutdown, &FixedBarrier(5), &BusySpin), WaitStep::Available(5));
    assert_eq!(wait_step(5, &shutdown, &FixedBarrier(5), &BusySpin), WaitStep::Available(5));
    let before = WAITS.load(Ordering::SeqCst);
    assert_eq!(wait_step(6, &shutdown, &FixedBarrier(5), &CountingWait), WaitStep::Waited);
    assert_eq!(WAITS.load(Ordering::SeqCst), before + 1);
    shutdown.store(6, Ordering::Relaxed);
    assert_eq!(wait_step(6, &shutdown, &FixedBarrier(5), &CountingWait), WaitStep::Shutdown);
    assert_eq!(WAITS.load(Ordering::SeqCst), before + 1);
    // Available events are handed out even after shutdown was recorded.
    assert_eq!(wait_step(4, &shutdown, &FixedBarrier(5), &BusySpinWithSpinLoopHint), WaitStep::Available(5));
}

#[test]
fn consume_batch_hands_out_events_in_order_and_flags_the_last() {
    let mut next = 0;
    let ring_buffer = RingBuffer::new(4, || {
        next += 1;
        next * 100
    });
    let cursor = Cursor::new(NONE);
    let mut seen: Vec<(i64, Sequence, bool)> = Vec::new();
    let next_sequence = consume_batch(&ring_buffer, &cursor, 2, 5, |event: &i64, sequence, end_of_batch| {
        seen.push((*event, sequence, end_of_batch));
    });
    assert_eq!(next_sequence, 6);
    assert_eq!(seen, vec![(300, 2, false), (400, 3, false), (100, 4, false), (200, 5, true)]);
    assert_eq!(cursor.relaxed_value(), 5);
}

#[test]
fn consume_batch_of_single_event_is_end_of_batch() {
    let ring_buffer = RingBuffer::new(2, || 7);
    let cursor = Cursor::new(NONE);
    let mut seen = Vec::new();
    assert_eq!(consume_batch(&ring_buffer, &cursor, 0, 0, |e: &i32, s, b| seen.push((*e, s, b))), 1);
    assert_eq!(seen, vec![(7, 0, true)]);
    assert_eq!(cursor.relaxed_value(), 0);
}

#[test]
fn multi_consumer_barrier_reports_the_slowest() {
    let a = Arc::new(Cursor::new(7));
    let b = Arc::new(Cursor::new(3));
    let c = Arc::new(Cursor::new(12));
    let barrier = MultiConsumerBarrier::new(vec![Arc::clone(&a), Arc::clone(&b), Arc::clone(&c)]);
    assert_eq!(barrier.get_after(0), 3);
    b.store(20);
    assert_eq!(barrier.get_after(0), 7);
    assert_eq!(MultiConsumerBarrier::new(Vec::new()).get_after(0), i64::MAX);
}

#[test]
fn uni_consumer_barrier_reports_its_consumer() {
    let cursor = Arc::new(Cursor::new(NONE));
    let barrier = UniConsumerBarrier::new(Arc::clone(&cursor));
    assert_eq!(barrier.get_after(0), NONE);
    cursor.store(4);
    assert_eq!(barrier.get_after(0), 4);
}

struct RecordedJoin(Arc<AtomicUsize>);

impl ThreadJoin for RecordedJoin {
    fn join_thread(self) {
        self.0.fetch_add(1, Ordering::SeqCst);
    }
}

#[test]
fn consumer_handle_joins_once() {
    let joins = Arc::new(AtomicUsize::new(0));
    let mut handle = ConsumerHandle::new(RecordedJoin(Arc::clone(&joins)));
    handle.join();
    handle.join();
    assert_eq!(joins.load(Ordering::SeqCst), 1);
}

struct PollFixture {
    poller: EventPoller<i64, UniProducerBarrier>,
    producer_barrier: Arc<UniProducerBarrier>,
    shutdown: Arc<CachePadded<AtomicI64>>,
    cursor: Arc<Cursor>,
}

fn poll_fixture() -> PollFixture {
    let mut next = -1;
    let ring_buffer = Arc::new(RingBuffer::new(8, || {
        next += 1;
        next
    }));
    let producer_barrier = Arc::new(UniProducerBarrier::new());
    let shutdown = Arc::new(CachePadded::new(AtomicI64::new(NONE)));
    let cursor = Arc::new(Cursor::new(NONE));
    let poller = EventPoller::new(ring_buffer, Arc::clone(&producer_barrier), Arc::clone(&shutdown), Arc::clone(&cursor));
    PollFixture { poller, producer_barrier, shutdown, cursor }
}

#[test]
fn poll_without_events_reports_no_events() {
    let mut f = poll_fixture();
    assert_eq!(f.poller.poll().err(), Some(EPolling::NoEvents));
}

#[test]
fn poll_hands_out_every_available_event_and_release_advances_cursor() {
    let mut f = poll_fixture();
    f.producer_barrier.publish(2);
    {
        let mut guard = f.poller.poll().ok().unwrap();
        assert_eq!(guard.len(), 3);
        assert_eq!(guard.next(), Some(&0));
        assert_eq!(guard.len(), 2);
        assert_eq!(guard.next(), Some(&1));
        assert_eq!(guard.next(), Some(&2));
        assert_eq!(guard.next(), None);
        assert_eq!(guard.len(), 0);
        guard.release();
    }
    assert_eq!(f.cursor.relaxed_value(), 2);
    assert_eq!(f.poller.poll().err(), Some(EPolling::NoEvents));
}

#[test]
fn poll_take_caps_the_batch_at_the_limit() {
    let mut f = poll_fixture();
    f.producer_barrier.publish(5);
    {
        let mut guard = f.poller.poll_take(2).ok().unwrap();
        assert_eq!(guard.len(), 2);
        assert_eq!(guard.next(), Some(&0));
        guard.release();
    }
    // The unread event 1 is skipped by the release.
    assert_eq!(f.cursor.relaxed_value(), 1);
    {
        let mut guard = f.poller.poll_take(10).ok().unwrap();
        assert_eq!(guard.len(), 4);
        assert_eq!(guard.next(), Some(&2));
        guard.release();
    }
    assert_eq!(f.cursor.relaxed_value(), 5);
}

#[test]
fn poll_take_with_zero_limit_gives_an_empty_batch() {
    let mut f = poll_fixture();
    f.producer_barrier.publish(0);
    let mut guard = f.poller.poll_take(0).ok().unwrap();
    assert_eq!(guard.len(), 0);
    assert_eq!(guard.next(), None);
}

#[test]
fn poll_reports_shutdown_once_every_event_is_seen() {
    let mut f = poll_fixture();
    f.producer_barrier.publish(1);
    f.shutdown.store(2, Ordering::Relaxed);
    {
        let guard = f.poller.poll().ok().unwrap();
        assert_eq!(guard.len(), 2);
        guard.release();
    }
    assert_eq!(f.poller.poll().err(), Some(EPolling::Shutdown));
}

#[test]
fn events_wrap_around_the_ring() {
    let mut f = poll_fixture();
    f.cursor.store(5);
    f.producer_barrier.publish(9);
    let mut guard = f.poller.poll().ok().unwrap();
    let seen: Vec<i64> = std::iter::from_fn(|| guard.next().copied()).collect();
    assert_eq!(seen, vec![6, 7, 0, 1]);
}

#[test]
fn poll_window_on_given_readings() {
    // Next sequence 3, events up to 9 available, at most 4 handed out.
    assert_eq!(poll_window(2, NONE, 9, 4), Ok(6));
    assert_eq!(poll_window(2, NONE, 9, u64::MAX), Ok(9));
    assert_eq!(poll_window(2, NONE, 3, 0), Ok(2));
    assert_eq!(poll_window(2, NONE, 1, 0), Ok(2));
    assert_eq!(poll_window(2, NONE, 2, 4), Err(EPolling::NoEvents));
    assert_eq!(poll_window(2, 3, 9, 4), Err(EPolling::Shutdown));
    assert_eq!(poll_window(2, 3, 9, 0), Err(EPolling::Shutdown));
    assert_eq!(poll_window(i64::MAX, NONE, i64::MAX, 4), Err(EPolling::NoEvents));
    assert_eq!(poll_window(i64::MAX, NONE, i64::MAX, 0), Ok(i64::MAX));
    assert_eq!(poll_window(i64::MAX - 3, NONE, i64::MAX, u64::MAX), Ok(i64::MAX));
}

#[test]
fn wait_decide_on_given_readings() {
    assert_eq!(wait_decide(3, 5, NONE), WaitStep::Available(5));
    assert_eq!(wait_decide(3, 2, NONE), WaitStep::Waited);
    assert_eq!(wait_decide(3, 2, 3), WaitStep::Shutdown);
    assert_eq!(wait_decide(3, 3, 3), WaitStep::Available(3));
}

#[test]
fn slowest_reading_of_given_readings() {
    assert_eq!(slowest_reading(&vec![7, 3, 12]), 3);
    assert_eq!(slowest_reading(&vec![-1]), -1);
    assert_eq!(slowest_reading(&Vec::new()), i64::MAX);
}

#[test]
fn poll_take_with_zero_limit_and_no_events_gives_an_empty_batch() {
    let mut f = poll_fixture();
    {
        let mut guard = f.poller.poll_take(0).ok().unwrap();
        assert_eq!(guard.len(), 0);
        assert_eq!(guard.next(), None);
        guard.release();
    }
    assert_eq!(f.cursor.relaxed_value(), NONE);
    assert_eq!(f.poller.poll_take(1).err(), Some(EPolling::NoEvents));
}

#[test]
fn poll_take_windows_and_events() {
    let mut k = 0;
    let ring_buffer = Arc::new(RingBuffer::new(8, || {
        k += 1;
        k
    }));
    let barrier = Arc::new(UniProducerBarrier::new());
    barrier.publish(4);
    let cursor = Arc::new(Cursor::new(-1));
    let mut poller = EventPoller::new(ring_buffer, barrier, Arc::new(CachePadded::new(AtomicI64::new(-1))), Arc::clone(&cursor));
    {
        let mut guard = poller.poll_take(2).ok().unwrap();
        let seen: Vec<i64> = std::iter::from_fn(|| guard.next().copied()).collect();
        assert_eq!(seen, vec![1, 2]);
        guard.release();
    }
    assert_eq!(cursor.relaxed_value(), 1);
    {
        let mut guard = poller.poll_take(10).ok().unwrap();
        let seen: Vec<i64> = std::iter::from_fn(|| guard.next().copied()).collect();
        assert_eq!(seen, vec![3, 4, 5]);
        guard.release();
    }
    assert_eq!(cursor.relaxed_value(), 4);
    assert_eq!(poller.poll_take(10).err(), Some(EPolling::NoEvents));
}

#[test]
fn successive_batches_hand_out_every_sequence_once() {
    let ring_buffer = RingBuffer::new(4, || 0u8);
    let cursor = Cursor::new(NONE);
    let mut seen: Vec<(Sequence, bool)> = Vec::new();
    let mut sequence = 0;
    for end in [2, 3, 6] {
        sequence = consume_batch(&ring_buffer, &cursor, sequence, end, |_: &u8, s, b| seen.push((s, b)));
        assert_eq!(cursor.relaxed_value(), end);
    }
    assert_eq!(sequence, 7);
    assert_eq!(
        seen,
        vec![(0, false), (1, false), (2, true), (3, true), (4, false), (5, false), (6, true)]
    );
}

#[test]
fn consumer_progress_follows_the_batches() {
    let ring_buffer = RingBuffer::new(4, || 0u8);
    let cursor = Cursor::new(NONE);
    let mut seen: Vec<(Sequence, bool)> = Vec::new();
    let mut progress = ConsumerProgress::new();
    assert_eq!(progress.sequence(), 0);
    for end in [2, 3, 6] {
        progress.consume(&ring_buffer, &cursor, end, |_: &u8, s, b| seen.push((s, b)));
        assert_eq!(progress.sequence(), end + 1);
        assert_eq!(cursor.relaxed_value(), end);
    }
    assert_eq!(
        seen,
        vec![(0, false), (1, false), (2, true), (3, true), (4, false), (5, false), (6, true)]
    );
}
