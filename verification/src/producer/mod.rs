use vstd::prelude::*;

use crate::barrier::Barrier;
use crate::ring_buffer::{slot_of, RingBuffer};
use crate::Sequence;

pub mod uni;

verus! {

/// A barrier that a producer advances to make sequences visible to consumers.
pub trait ProducerBarrier: Barrier {
    /// Makes every sequence up to `sequence` visible to consumers.
    fn publish(&self, sequence: Sequence);
}

/// Walks a batch of consecutive claimed slots, from the first sequence of
/// the batch to the last, both included.
pub struct MutBatchIter<'a, T> {
    ring_buffer: &'a RingBuffer<T>,
    current: Sequence,
    last: Sequence,
}

impl<'a, T> MutBatchIter<'a, T> {
    #[verifier::type_invariant]
    closed spec fn well_formed(self) -> bool {
        &&& self.current <= self.last + 1
        &&& self.last < i64::MAX
        &&& self.last - self.current + 1 <= usize::MAX
        &&& self.last - self.current + 1 <= i64::MAX
    }

    /// The sequence of the next slot yielded.
    pub closed spec fn current(&self) -> int {
        self.current as int
    }

    /// The sequence of the last slot of the batch.
    pub closed spec fn last(&self) -> int {
        self.last as int
    }

    /// The slots of the ring that the batch walks over.
    pub closed spec fn ring(&self) -> Seq<T> {
        self.ring_buffer@
    }

    /// A walk over the slots of `start..=end`.
    pub(crate) fn new(start: Sequence, end: Sequence, ring_buffer: &'a RingBuffer<T>) -> (iter: Self)
        requires
            start <= end + 1,
            end < i64::MAX,
            end - start + 1 <= usize::MAX,
            end - start + 1 <= i64::MAX,
        ensures
            iter.current() == start,
            iter.last() == end,
            iter.ring() == ring_buffer@,
    {
        MutBatchIter { ring_buffer, current: start, last: end }
    }

    /// The number of slots not yet yielded.
    pub fn remaining(&self) -> (n: usize)
        ensures
            n == self.last() - self.current() + 1,
    {
        proof {
            use_type_invariant(self);
        }
        (self.last - self.current + 1) as usize
    }

    /// The next slot of the batch, or `None` when the batch is done.
    pub fn next(&mut self) -> (slot: Option<&'a T>)
        ensures
            final(self).last() == old(self).last(),
            final(self).ring() == old(self).ring(),
            old(self).current() > old(self).last() ==> slot is None && final(self).current()
                == old(self).current(),
            old(self).current() <= old(self).last() ==> {
                &&& final(self).current() == old(self).current() + 1
                &&& old(self).ring().len() > 0
                &&& slot == Some(
                    &old(self).ring()[slot_of(old(self).current(), old(self).ring().len() as int)],
                )
            },
    {
        proof {
            use_type_invariant(&*self);
        }
        if self.current > self.last {
            None
        } else {
            let slot = self.ring_buffer.get(self.current);
            self.current = self.current + 1;
            Some(slot)
        }
    }

    /// Lower and upper bound of the number of slots not yet yielded; both
    /// are exact.
    pub fn size_hint(&self) -> (hint: (usize, Option<usize>))
        ensures
            hint.0 == self.last() - self.current() + 1,
            hint.1 == Some(hint.0),
    {
        let remaining = self.remaining();
        (remaining, Some(remaining))
    }
}

} // verus!
