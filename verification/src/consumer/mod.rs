use vstd::prelude::*;

use std::sync::Arc;

use crate::barrier::Barrier;
use crate::cursor::{Cursor, Loaded, Stored};
use crate::Sequence;

pub mod managed;
pub mod unmanaged;

verus! {

/// A running consumer thread that can be waited for.
pub trait ThreadJoin {
    /// Blocks until the thread has finished.
    fn join_thread(self);
}

/// Handle to a managed consumer thread, owned by the producer and joined at
/// shutdown.
pub struct ConsumerHandle<H> {
    join_handle: Option<H>,
    stop_announced: Ghost<Option<Stored>>,
}

impl<H: ThreadJoin> ConsumerHandle<H> {
    /// Whether the thread has already been joined through this handle.
    pub closed spec fn is_joined(&self) -> bool {
        self.join_handle is None
    }

    /// The thread that the handle still has to join, if any.
    pub closed spec fn thread(&self) -> Option<H> {
        self.join_handle
    }

    /// The store of the stop sequence that came before the thread was joined
    /// through `join_after_stop`, if it was joined that way.
    pub closed spec fn stop_announced(&self) -> Option<Stored> {
        self.stop_announced@
    }

    /// A handle to the running thread `join_handle`.
    pub fn new(join_handle: H) -> (handle: Self)
        ensures
            !handle.is_joined(),
            handle.thread() == Some(join_handle),
            handle.stop_announced() is None,
    {
        ConsumerHandle { join_handle: Some(join_handle), stop_announced: Ghost(None) }
    }

    /// Joins the thread, as `join`, once `stop` is the evidence that the
    /// sequence at which the consumer stops has been stored; a thread that
    /// is still to be joined is joined only after that store.
    pub fn join_after_stop(&mut self, stop: &Stored)
        ensures
            final(self).is_joined(),
            final(self).thread() is None,
            old(self).is_joined() ==> *final(self) == *old(self),
            !old(self).is_joined() ==> final(self).stop_announced() == Some(*stop),
    {
        if let Some(handle) = self.join_handle.take() {
            handle.join_thread();
            self.stop_announced = Ghost(Some(*stop));
        }
    }

    /// Blocks until the consumer thread exits; the thread is joined at most
    /// once, later calls return at once.
    pub fn join(&mut self)
        ensures
            final(self).is_joined(),
            final(self).thread() is None,
            old(self).is_joined() ==> *final(self) == *old(self),
    {
        if let Some(handle) = self.join_handle.take() {
            handle.join_thread();
        }
    }
}

/// The slowest of `readings`, or `i64::MAX` when there are none.
pub open spec fn slowest(readings: Seq<Sequence>) -> Sequence
    decreases readings.len(),
{
    if readings.len() == 0 {
        i64::MAX
    } else {
        let rest = slowest(readings.drop_last());
        if readings.last() < rest {
            readings.last()
        } else {
            rest
        }
    }
}

/// The slowest reading is at most every reading, and is one of them unless
/// there are none.
pub proof fn lemma_slowest_is_minimum(readings: Seq<Sequence>)
    ensures
        forall|i: int| 0 <= i < readings.len() ==> slowest(readings) <= #[trigger] readings[i],
        readings.len() == 0 ==> slowest(readings) == i64::MAX,
        readings.len() > 0 ==> exists|i: int| 0 <= i < readings.len() && slowest(readings) == #[trigger] readings[i],
    decreases readings.len(),
{
    if readings.len() > 0 {
        let rest = readings.drop_last();
        lemma_slowest_is_minimum(rest);
        assert forall|i: int| 0 <= i < readings.len() implies slowest(readings) <= #[trigger] readings[i] by {
            if i < readings.len() - 1 {
                assert(readings[i] == rest[i]);
            }
        }
        if readings.last() < slowest(rest) {
            assert(slowest(readings) == readings[readings.len() - 1]);
        } else if rest.len() > 0 {
            let j = choose|j: int| 0 <= j < rest.len() && slowest(rest) == #[trigger] rest[j];
            assert(slowest(readings) == readings[j]);
        } else {
            assert(slowest(readings) == readings[readings.len() - 1]);
        }
    }
}

/// Consumer barrier of a group with a single consumer: how far that consumer
/// has read.
pub struct UniConsumerBarrier {
    cursor: Arc<Cursor>,
}

impl UniConsumerBarrier {
    /// The cursor of the consumer that the barrier reads.
    pub closed spec fn cursor(&self) -> Arc<Cursor> {
        self.cursor
    }

    /// The barrier over the cursor of the group's one consumer.
    pub fn new(cursor: Arc<Cursor>) -> (barrier: Self)
        ensures
            barrier.cursor() == cursor,
    {
        UniConsumerBarrier { cursor }
    }
}

impl Barrier for UniConsumerBarrier {
    /// One reading of the consumer's cursor.
    fn get_after(&self, _lower_bound: Sequence) -> (position: Sequence)
        ensures
            exists|reading: Loaded|
                reading.source() == self.cursor().shared() && position == #[trigger] reading.value(),
    {
        let reading = self.cursor.read();
        reading.sequence()
    }
}

/// Consumer barrier of a group of consumers that read concurrently: how far
/// the slowest of them has read, since a slot may only be rewritten once
/// every consumer of the group is done with it.
pub struct MultiConsumerBarrier {
    cursors: Vec<Arc<Cursor>>,
}

impl MultiConsumerBarrier {
    /// The cursors of the consumers of the group, in order.
    pub closed spec fn cursors(&self) -> Seq<Arc<Cursor>> {
        self.cursors@
    }

    /// The number of consumers in the group.
    pub open spec fn group_size(&self) -> nat {
        self.cursors().len()
    }

    /// The barrier over the cursors of the group's consumers.
    pub fn new(cursors: Vec<Arc<Cursor>>) -> (barrier: Self)
        ensures
            barrier.cursors() == cursors@,
    {
        MultiConsumerBarrier { cursors }
    }
}

/// The slowest of `readings`, or `i64::MAX` when there are none.
pub fn slowest_reading(readings: &Vec<Sequence>) -> (min_sequence: Sequence)
    ensures
        min_sequence == slowest(readings@),
{
    let mut min_sequence: Sequence = i64::MAX;
    let mut i: usize = 0;
    while i < readings.len()
        invariant
            i <= readings@.len(),
            min_sequence == slowest(readings@.subrange(0, i as int)),
        decreases readings@.len() - i,
    {
        proof {
            let next = readings@.subrange(0, i + 1);
            assert(next.drop_last() =~= readings@.subrange(0, i as int));
            assert(next.last() == readings@[i as int]);
        }
        if readings[i] < min_sequence {
            min_sequence = readings[i];
        }
        i = i + 1;
    }
    assert(readings@.subrange(0, readings@.len() as int) =~= readings@);
    min_sequence
}

/// The values of `readings`, in order.
pub open spec fn values_read(readings: Seq<Loaded>) -> Seq<Sequence> {
    readings.map_values(|reading: Loaded| reading.value())
}

/// Whether `readings` holds one reading of each of `cursors`, in order.
pub open spec fn reads_each(readings: Seq<Loaded>, cursors: Seq<Arc<Cursor>>) -> bool {
    &&& readings.len() == cursors.len()
    &&& forall|i: int| 0 <= i < readings.len() ==> #[trigger] readings[i].source() == cursors[i].shared()
}

/// The slowest of one reading of each cursor is at most each of those
/// readings and equal to one of them; with no cursor it is `i64::MAX`.
pub proof fn lemma_slowest_of_each_cursor(readings: Seq<Loaded>, cursors: Seq<Arc<Cursor>>)
    requires
        reads_each(readings, cursors),
    ensures
        forall|i: int|
            0 <= i < cursors.len() ==> slowest(values_read(readings)) <= #[trigger] readings[i].value(),
        cursors.len() == 0 ==> slowest(values_read(readings)) == i64::MAX,
        cursors.len() > 0 ==> exists|i: int|
            0 <= i < cursors.len() && readings[i].source() == cursors[i].shared() && slowest(
                values_read(readings),
            ) == #[trigger] readings[i].value(),
{
    let values = values_read(readings);
    lemma_slowest_is_minimum(values);
    assert forall|i: int| 0 <= i < cursors.len() implies slowest(values) <= #[trigger] readings[i].value() by {
        assert(values[i] == readings[i].value());
    }
    if cursors.len() > 0 {
        let j = choose|j: int| 0 <= j < values.len() && slowest(values) == #[trigger] values[j];
        assert(values[j] == readings[j].value());
    }
}

impl Barrier for MultiConsumerBarrier {
    /// The slowest of one reading of each consumer's cursor.
    fn get_after(&self, _lower_bound: Sequence) -> (min_sequence: Sequence)
        ensures
            exists|readings: Seq<Sequence>|
                readings.len() == self.group_size() && min_sequence == #[trigger] slowest(readings),
            exists|readings: Seq<Loaded>|
                reads_each(readings, self.cursors()) && min_sequence == #[trigger] slowest(
                    values_read(readings),
                ),
    {
        let mut readings: Vec<Sequence> = Vec::with_capacity(self.cursors.len());
        let ghost mut loaded: Seq<Loaded> = Seq::empty();
        let mut i: usize = 0;
        while i < self.cursors.len()
            invariant
                i <= self.cursors@.len(),
                readings@.len() == i,
                loaded.len() == i,
                forall|j: int| 0 <= j < i ==> #[trigger] loaded[j].source() == self.cursors@[j].shared(),
                forall|j: int| 0 <= j < i ==> readings@[j] == #[trigger] loaded[j].value(),
            decreases self.cursors@.len() - i,
        {
            let reading = self.cursors[i].read();
            readings.push(reading.sequence());
            proof {
                loaded = loaded.push(reading);
            }
            i = i + 1;
        }
        proof {
            assert(values_read(loaded) =~= readings@);
            assert(reads_each(loaded, self.cursors@));
        }
        slowest_reading(&readings)
    }
}

} // verus!
