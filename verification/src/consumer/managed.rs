use vstd::prelude::*;

use crossbeam_utils::CachePadded;
use std::sync::atomic::AtomicI64;

use crate::barrier::{Barrier, NONE};
use crate::cursor::{acquire_fence, load_relaxed, Cursor, Loaded};
use crate::ring_buffer::{slot_of, RingBuffer};
use crate::wait_strategies::WaitStrategy;
use crate::Sequence;

verus! {

/// The result of one look at the barrier by a consumer waiting for events.
#[derive(Debug, Clone, Copy, PartialEq, Eq, Structural)]
pub enum WaitStep {
    /// Every sequence up to this one can be read.
    Available(Sequence),
    /// The producers are done and every published event has been read.
    Shutdown,
    /// Nothing new yet; the wait strategy has been applied once.
    Waited,
}

/// What a consumer waiting for `sequence` does when the barrier reads
/// `available` and the shutdown sentinel reads `shutdown_at`.
pub open spec fn wait_decision(sequence: int, available: int, shutdown_at: int) -> WaitStep {
    if available >= sequence {
        WaitStep::Available(available as i64)
    } else if shutdown_at == sequence {
        WaitStep::Shutdown
    } else {
        WaitStep::Waited
    }
}

/// A waiting consumer is handed the events up to what the barrier reads as
/// soon as that reaches the sequence it waits for; short of that it stops
/// only when the producers shut down exactly at that sequence, and otherwise
/// keeps waiting, whatever the sentinel reads.
pub proof fn lemma_wait_decision_cases(sequence: int, available: i64, shutdown_at: int)
    ensures
        (wait_decision(sequence, available as int, shutdown_at) == WaitStep::Available(available))
            <==> available >= sequence,
        (wait_decision(sequence, available as int, shutdown_at) == WaitStep::Shutdown) <==> (available
            < sequence && shutdown_at == sequence),
        (wait_decision(sequence, available as int, shutdown_at) == WaitStep::Waited) <==> (available
            < sequence && shutdown_at != sequence),
        wait_decision(sequence, available as int, shutdown_at) is Available ==> wait_decision(
            sequence,
            available as int,
            shutdown_at,
        )->Available_0 == available,
{
}

/// Looks once at `barrier` for the events from `sequence` on.
///
/// When some are available the acquire fence that makes the producer's
/// writes visible is issued; when none are and the producers shut down at
/// `sequence`, the consumer is done; otherwise `wait_strategy` is applied
/// once. A consumer thread repeats this until it is not `Waited`.
///
/// It reports `Shutdown` only on a reading of `shutdown_at_sequence` that
/// equals `sequence`, and `Waited` only on one that does not.
pub fn wait_step<B: Barrier, W: WaitStrategy>(
    sequence: Sequence,
    shutdown_at_sequence: &CachePadded<AtomicI64>,
    barrier: &B,
    wait_strategy: &W,
) -> (step: WaitStep)
    ensures
        exists|available: i64, shutdown_at: i64|
            step == #[trigger] wait_decision(sequence as int, available as int, shutdown_at as int),
        step == WaitStep::Shutdown ==> exists|sentinel: Loaded|
            sentinel.source() == *shutdown_at_sequence && #[trigger] sentinel.value() == sequence,
        step == WaitStep::Waited ==> exists|sentinel: Loaded|
            sentinel.source() == *shutdown_at_sequence && #[trigger] sentinel.value() != sequence,
        step matches WaitStep::Available(a) ==> a >= sequence,
{
    let available = barrier.get_after(sequence);
    // The sentinel only matters when nothing is available; only then is it read.
    if available >= sequence {
        let step = wait_decide(sequence, available, NONE);
        acquire_fence();
        step
    } else {
        let sentinel = load_relaxed(shutdown_at_sequence);
        let shutdown_at = sentinel.sequence();
        let step = wait_decide(sequence, available, shutdown_at);
        match step {
            WaitStep::Available(_) => acquire_fence(),
            WaitStep::Shutdown => {},
            WaitStep::Waited => wait_strategy.wait_for(sequence),
        }
        step
    }
}

/// What a consumer waiting for `sequence` does when the barrier reads
/// `available` and the shutdown sentinel reads `shutdown_at`: the events up
/// to `available` once that reaches `sequence`; else `Shutdown` exactly when
/// the sentinel reads `sequence`, and `Waited` otherwise.
pub fn wait_decide(sequence: Sequence, available: Sequence, shutdown_at: Sequence) -> (step: WaitStep)
    ensures
        step == wait_decision(sequence as int, available as int, shutdown_at as int),
        available >= sequence ==> step == WaitStep::Available(available),
        available < sequence && shutdown_at == sequence ==> step == WaitStep::Shutdown,
        available < sequence && shutdown_at != sequence ==> step == WaitStep::Waited,
{
    if available >= sequence {
        WaitStep::Available(available)
    } else if shutdown_at == sequence {
        WaitStep::Shutdown
    } else {
        WaitStep::Waited
    }
}

/// The events a batch from `first` to `last` hands out, in order: each
/// sequence with the flag that tells whether it ends the batch.
pub open spec fn batch_events(first: int, last: int) -> Seq<(int, bool)> {
    Seq::new((last - first + 1) as nat, |i: int| (first + i, first + i == last))
}

/// The events a consumer hands out over successive batches that end at the
/// sequences `ends`, each batch starting right after the previous one and the
/// first at sequence 0.
pub open spec fn batch_stream(ends: Seq<int>) -> Seq<(int, bool)>
    decreases ends.len(),
{
    if ends.len() == 0 {
        Seq::empty()
    } else {
        let previous = ends.drop_last();
        let start = if previous.len() == 0 { 0 } else { previous.last() + 1 };
        batch_stream(previous) + batch_events(start, ends.last())
    }
}

/// Whether batch ends are those of a consumer whose every batch holds at
/// least one event: they are non-negative and strictly increasing.
pub open spec fn batch_ends_advance(ends: Seq<int>) -> bool {
    &&& forall|i: int| 0 <= i < ends.len() ==> 0 <= #[trigger] ends[i]
    &&& forall|i: int, j: int| 0 <= i < j < ends.len() ==> ends[i] < ends[j]
}

/// Across batches, a consumer hands out every sequence from 0 up to the end
/// of its last batch exactly once, in increasing order, and flags as the end
/// of a batch exactly the sequences at which its batches end.
pub proof fn lemma_batches_hand_out_every_sequence_once(ends: Seq<int>)
    requires
        ends.len() > 0,
        batch_ends_advance(ends),
    ensures
        batch_stream(ends).len() == ends.last() + 1,
        forall|q: int|
            0 <= q <= ends.last() ==> #[trigger] batch_stream(ends)[q] == (q, ends.contains(q)),
    decreases ends.len(),
{
    let previous = ends.drop_last();
    let last = ends.last();
    if previous.len() == 0 {
        assert(batch_stream(previous) =~= Seq::<(int, bool)>::empty());
        assert(batch_stream(ends) =~= batch_events(0, last));
        assert(0 <= ends[0]);
        assert forall|q: int| 0 <= q <= last implies #[trigger] batch_stream(ends)[q] == (q, ends.contains(q)) by {
            assert(batch_stream(previous) =~= Seq::<(int, bool)>::empty());
            assert(batch_stream(ends)[q] == batch_events(0, last)[q]);
            if q == last {
                assert(ends[0] == last);
            } else {
                assert(!ends.contains(q));
            }
        }
    } else {
        assert(batch_ends_advance(previous)) by {
            assert forall|i: int, j: int| 0 <= i < j < previous.len() implies previous[i] < previous[j] by {
                assert(previous[i] == ends[i] && previous[j] == ends[j]);
            }
            assert forall|i: int| 0 <= i < previous.len() implies 0 <= #[trigger] previous[i] by {
                assert(previous[i] == ends[i]);
            }
        }
        lemma_batches_hand_out_every_sequence_once(previous);
        let p = previous.last();
        assert(p == ends[ends.len() - 2]);
        assert(p < last);
        let head = batch_stream(previous);
        let tail = batch_events(p + 1, last);
        assert(batch_stream(ends) == head + tail);
        assert(batch_stream(ends).len() == last + 1);
        assert forall|q: int| 0 <= q <= last implies #[trigger] batch_stream(ends)[q] == (q, ends.contains(q)) by {
            if q <= p {
                assert(batch_stream(ends)[q] == head[q]);
                assert(head[q] == (q, previous.contains(q)));
                if previous.contains(q) {
                    let k = choose|k: int| 0 <= k < previous.len() && previous[k] == q;
                    assert(ends[k] == q);
                } else {
                    if ends.contains(q) {
                        let k = choose|k: int| 0 <= k < ends.len() && ends[k] == q;
                        if k == ends.len() - 1 {
                            assert(q == last);
                        } else {
                            assert(previous[k] == q);
                        }
                    }
                }
            } else {
                assert(batch_stream(ends)[q] == tail[q - (p + 1)]);
                if q == last {
                    assert(ends[ends.len() - 1] == q);
                } else if ends.contains(q) {
                    let k = choose|k: int| 0 <= k < ends.len() && ends[k] == q;
                    if k < ends.len() - 1 {
                        assert(ends[k] <= ends[ends.len() - 2]) by {
                            if k < ends.len() - 2 {
                                assert(ends[k] < ends[ends.len() - 2]);
                            }
                        }
                    }
                }
            }
        }
    }
}

/// Whether `event_handler`, in the successive states `states`, returned from
/// being handed, in order, the events of the sequences `first..first +
/// states.len()` from `ring`, each with the flag that tells whether it is
/// the one at `last`.
pub open spec fn handled_in_order<T, EH: FnMut(&T, Sequence, bool)>(
    states: Seq<EH>,
    ring: Seq<T>,
    first: int,
    last: int,
) -> bool {
    forall|i: int|
        0 <= i < states.len() ==> call_ensures(
            #[trigger] states[i],
            (&ring[slot_of(first + i, ring.len() as int)], (first + i) as i64, first + i == last),
            (),
        )
}

/// Hands every event from `sequence` to `available` to `event_handler`, in
/// order, with the flag `end_of_batch` set on the last one only, then records
/// on `cursor` that the consumer is done with them; returns the next
/// sequence to wait for.
pub fn consume_batch<T, EH>(
    ring_buffer: &RingBuffer<T>,
    cursor: &Cursor,
    sequence: Sequence,
    available: Sequence,
    mut event_handler: EH,
) -> (next: Sequence)
    where
        EH: FnMut(&T, Sequence, bool),
    requires
        0 <= sequence,
        available < i64::MAX,
        forall|slot: &T, s: Sequence, end: bool| #[trigger] call_requires(event_handler, (slot, s, end)),
    ensures
        available >= sequence ==> next == available + 1,
        available < sequence ==> next == sequence,
        exists|states: Seq<EH>|
            states.len() == next - sequence && #[trigger] handled_in_order(states, ring_buffer@, sequence as int, available as int),
{
    let mut sequence = sequence;
    let ghost first = sequence;
    let ghost mut states: Seq<EH> = Seq::empty();
    while available >= sequence
        invariant
            first <= sequence,
            0 <= sequence,
            available < i64::MAX,
            available >= first ==> sequence <= available + 1,
            available < first ==> sequence == first,
            forall|slot: &T, s: Sequence, end: bool| #[trigger] call_requires(event_handler, (slot, s, end)),
            states.len() == sequence - first,
            handled_in_order(states, ring_buffer@, first as int, available as int),
        decreases available + 1 - sequence,
    {
        let end_of_batch = available == sequence;
        let event = ring_buffer.get_ref(sequence);
        let ghost handler_before = event_handler;
        event_handler(event, sequence, end_of_batch);
        proof {
            let next_states = states.push(handler_before);
            assert forall|i: int| 0 <= i < next_states.len() implies call_ensures(
                #[trigger] next_states[i],
                (&ring_buffer@[slot_of(first + i, ring_buffer@.len() as int)], (first + i) as i64, first + i == available),
                (),
            ) by {
                if i < states.len() {
                    assert(next_states[i] == states[i]);
                } else {
                    assert(first + i == sequence);
                }
            }
            states = next_states;
        }
        sequence = sequence + 1;
    }
    cursor.store(sequence - 1);
    assert(handled_in_order(states, ring_buffer@, first as int, available as int));
    sequence
}

} // verus!

verus! {

/// How far a managed consumer thread has got: the next sequence it waits for,
/// and the ends of the batches it has handled so far.
pub struct ConsumerProgress {
    sequence: Sequence,
    batch_ends: Ghost<Seq<int>>,
}

impl ConsumerProgress {
    #[verifier::type_invariant]
    closed spec fn well_formed(self) -> bool {
        &&& batch_ends_advance(self.batch_ends@)
        &&& self.batch_ends@.len() == 0 ==> self.sequence == 0
        &&& self.batch_ends@.len() > 0 ==> self.sequence == self.batch_ends@.last() + 1
    }

    /// The next sequence the consumer waits for.
    pub closed spec fn next_sequence(&self) -> int {
        self.sequence as int
    }

    /// The sequences at which the batches handled so far ended, in order.
    pub closed spec fn batch_ends(&self) -> Seq<int> {
        self.batch_ends@
    }

    /// A consumer that has handled nothing and waits for sequence 0.
    pub fn new() -> (progress: Self)
        ensures
            progress.next_sequence() == 0,
            progress.batch_ends() == Seq::<int>::empty(),
    {
        ConsumerProgress { sequence: 0, batch_ends: Ghost(Seq::empty()) }
    }

    /// The next sequence the consumer waits for.
    pub fn sequence(&self) -> (sequence: Sequence)
        ensures
            sequence == self.next_sequence(),
            0 <= sequence,
    {
        proof {
            use_type_invariant(self);
        }
        self.sequence
    }

    /// Hands the batch of events from the next sequence to `available` to
    /// `event_handler` and records on `cursor` that the consumer is done with
    /// them (see `consume_batch`).
    ///
    /// Over all the batches handled so far, every sequence from 0 to the last
    /// batch's end has been handed out exactly once, in increasing order, with
    /// the end-of-batch flag exactly at the batch ends.
    pub fn consume<T, EH>(&mut self, ring_buffer: &RingBuffer<T>, cursor: &Cursor, available: Sequence, event_handler: EH)
        where
            EH: FnMut(&T, Sequence, bool),
        requires
            old(self).next_sequence() <= available < i64::MAX,
            forall|slot: &T, s: Sequence, end: bool| #[trigger] call_requires(event_handler, (slot, s, end)),
        ensures
            final(self).next_sequence() == available + 1,
            final(self).batch_ends() == old(self).batch_ends().push(available as int),
            exists|states: Seq<EH>|
                states.len() == available + 1 - old(self).next_sequence() && #[trigger] handled_in_order(
                    states,
                    ring_buffer@,
                    old(self).next_sequence(),
                    available as int,
                ),
            batch_stream(final(self).batch_ends()).len() == available + 1,
            forall|q: int|
                0 <= q <= available ==> #[trigger] batch_stream(final(self).batch_ends())[q] == (
                    q,
                    final(self).batch_ends().contains(q),
                ),
    {
        proof {
            use_type_invariant(&*self);
        }
        let next = consume_batch(ring_buffer, cursor, self.sequence, available, event_handler);
        let ghost ends = self.batch_ends@.push(available as int);
        proof {
            assert(ends.last() == available);
            assert forall|i: int| 0 <= i < ends.len() implies 0 <= #[trigger] ends[i] by {
                if i < ends.len() - 1 {
                    assert(ends[i] == self.batch_ends@[i]);
                }
            }
            assert forall|i: int, j: int| 0 <= i < j < ends.len() implies ends[i] < ends[j] by {
                assert(ends[i] == self.batch_ends@[i]);
                if j < ends.len() - 1 {
                    assert(ends[j] == self.batch_ends@[j]);
                } else if self.batch_ends@.len() > 0 {
                    if i < self.batch_ends@.len() - 1 {
                        assert(self.batch_ends@[i] < self.batch_ends@.last());
                    }
                }
            }
            assert(batch_ends_advance(ends));
            lemma_batches_hand_out_every_sequence_once(ends);
        }
        *self = ConsumerProgress { sequence: next, batch_ends: Ghost(ends) };
    }
}

} // verus!
