use vstd::prelude::*;
use vstd::arithmetic::power2::*;
use vstd::arithmetic::div_mod::*;
use vstd::bits::*;

use crate::Sequence;

verus! {

/// `n` is 2 raised to some natural exponent.
pub open spec fn is_power_of_two(n: int) -> bool {
    exists|k: nat| pow2(k) == n
}

/// Slot of a ring of `size` slots that holds `sequence`.
pub open spec fn slot_of(sequence: int, size: int) -> int {
    sequence % size
}

/// Whether the factory, in the successive states `states`, returned the
/// events of `slots` in order: one call per slot, slot `i` holding the result
/// of the `i`-th call.
pub open spec fn filled_in_order<T, F: FnMut() -> T>(states: Seq<F>, slots: Seq<T>) -> bool {
    &&& states.len() == slots.len()
    &&& forall|i: int| 0 <= i < states.len() ==> call_ensures(#[trigger] states[i], (), slots[i])
}

/// How many slots a producer that has published up to `producer` may still
/// write into a ring of `size` slots while the slowest consumer has read up to
/// `consumer`.
pub open spec fn free_slot_count(producer: int, consumer: int, size: int) -> int {
    consumer - (producer - size)
}

/// A sequence and the sequences a whole number of laps before or after it
/// share a slot: slots are reused as the sequence wraps around.
pub proof fn lemma_slot_wraps(sequence: int, laps: int, size: int)
    requires
        size > 0,
    ensures
        slot_of(sequence + laps * size, size) == slot_of(sequence, size),
{
    lemma_mod_multiples_vanish(laps, sequence, size);
    assert(laps * size == size * laps) by (nonlinear_arith);
}

/// Fewer than `size` consecutive sequences never share a slot, so a ring of
/// `size` slots holds `size` consecutive events without one overwriting another.
pub proof fn lemma_window_slots_distinct(first: int, second: int, size: int)
    requires
        size > 0,
        first < second < first + size,
    ensures
        slot_of(first, size) != slot_of(second, size),
{
    lemma_fundamental_div_mod(first, size);
    lemma_fundamental_div_mod(second, size);
    lemma_mod_bound(first, size);
    lemma_mod_bound(second, size);
    if slot_of(first, size) == slot_of(second, size) {
        let q1 = first / size;
        let q2 = second / size;
        assert(second - first == size * (q2 - q1)) by (nonlinear_arith)
            requires
                first == size * q1 + first % size,
                second == size * q2 + second % size,
                first % size == second % size;
        if q2 - q1 >= 1 {
            assert(size * (q2 - q1) >= size) by (nonlinear_arith)
                requires
                    q2 - q1 >= 1,
                    size > 0;
        } else {
            assert(size * (q2 - q1) <= 0) by (nonlinear_arith)
                requires
                    q2 - q1 <= 0,
                    size > 0;
        }
    }
}

/// The slots a producer may still write and the events in flight between the
/// slowest consumer and the producer together fill the ring.
pub proof fn lemma_free_slots_complement(producer: int, consumer: int, size: int)
    ensures
        free_slot_count(producer, consumer, size) + (producer - consumer) == size,
{
}

proof fn lemma_i64_and_mask_is_mod(x: i64, k: nat)
    requires
        k < 63,
    ensures
        0 <= x & ((pow2(k) - 1) as i64),
        (x & ((pow2(k) - 1) as i64)) as int == x as int % (pow2(k) as int),
{
    lemma_u64_pow2_no_overflow(k);
    lemma_pow2_pos(k);
    lemma_pow2_strictly_increases(k, 63);
    lemma2_to64_rest();
    let m: i64 = (pow2(k) - 1) as i64;
    let mu: u64 = (pow2(k) - 1) as u64;
    assert(m as u64 == mu);
    let u: u64 = x as u64;
    assert(0 <= m ==> 0 <= x & m) by (bit_vector);
    assert(0 <= m ==> ((x & m) as u64) == (x as u64) & (m as u64)) by (bit_vector);
    lemma_u64_low_bits_mask_is_mod(u, k);
    assert(low_bits_mask(k) == pow2(k) - 1);
    let p = pow2(k) as int;
    let h = pow2((63 - k) as nat) as int;
    lemma_pow2_adds(k, (63 - k) as nat);
    assert(p * h == 0x8000_0000_0000_0000int);
    if x >= 0 {
        assert(x >= 0 ==> (x as u64) as int == x as int) by (bit_vector);
    } else {
        let a: i64 = (x + 0x8000_0000_0000_0000int) as i64;
        assert(x < 0 ==> (x as u64) == (((x + 0x8000_0000_0000_0000int) as i64) as u64) + 0x8000_0000_0000_0000u64) by (bit_vector);
        assert(a >= 0 ==> (a as u64) as int == a as int) by (bit_vector);
        assert(u as int == a as int + p * h);
        assert(a as int == x as int + p * h);
        lemma_mod_multiples_vanish(h, a as int, p);
        lemma_mod_multiples_vanish(h, x as int, p);
    }
}


/// Returns whether `n` is a power of two.
pub fn size_is_power_of_two(n: usize) -> (b: bool)
    ensures
        b <==> is_power_of_two(n as int),
{
    let mut p: usize = 1;
    let ghost mut k: nat = 0;
    proof {
        lemma2_to64();
    }
    while p < n && p <= usize::MAX / 2
        invariant
            p as int == pow2(k),
            p >= 1,
            k == 0 || pow2((k - 1) as nat) < n,
        decreases usize::MAX - p,
    {
        proof {
            lemma_pow2_unfold(k + 1);
        }
        p = p * 2;
        proof {
            k = k + 1;
        }
    }
    proof {
        if p == n {
            assert(pow2(k) == n as int);
        }
        if p != n && is_power_of_two(n as int) {
            let j = choose|j: nat| pow2(j) == n as int;
            lemma_pow2_pos(j);
            if j < k {
                if j < k - 1 {
                    lemma_pow2_strictly_increases(j, (k - 1) as nat);
                }
            } else if j == k {
            } else {
                lemma_pow2_unfold(k + 1);
                if k + 1 < j {
                    lemma_pow2_strictly_increases(k + 1, j);
                }
                lemma_pow2_strictly_increases(k, j);
            }
        }
    }
    p == n
}


/// Fixed-size, pre-allocated ring of slots indexed by sequence number.
///
/// The slot count is a power of two, so the slot of a sequence is the
/// sequence with every bit above the slot count masked off. Slots are created
/// once and reused as the sequence wraps around.
pub struct RingBuffer<T> {
    slots: Vec<T>,
    index_mask: i64,
}

impl<T> View for RingBuffer<T> {
    type V = Seq<T>;

    closed spec fn view(&self) -> Seq<T> {
        self.slots@
    }
}

impl<T> RingBuffer<T> {
    #[verifier::type_invariant]
    closed spec fn well_formed(self) -> bool {
        &&& is_power_of_two(self.slots@.len() as int)
        &&& self.slots@.len() <= i64::MAX
        &&& self.index_mask as int == self.slots@.len() - 1
    }

    /// Creates a ring of `size` slots, each filled by one call of `event_source`.
    pub fn new<F>(size: usize, mut event_source: F) -> (ring: Self)
        where
            F: FnMut() -> T,
        requires
            is_power_of_two(size as int),
            size <= i64::MAX,
            call_requires(event_source, ()),
        ensures
            ring@.len() == size,
            exists|states: Seq<F>| #[trigger] filled_in_order(states, ring@),
    {
        let mut slots: Vec<T> = Vec::new();
        let ghost mut states: Seq<F> = Seq::empty();
        let mut i: usize = 0;
        while i < size
            invariant
                i <= size,
                slots@.len() == i,
                call_requires(event_source, ()),
                filled_in_order(states, slots@),
            decreases size - i,
        {
            let ghost state = event_source;
            let event = event_source();
            proof {
                assert(call_ensures(state, (), event));
                let next_states = states.push(state);
                let next_slots = slots@.push(event);
                assert forall|j: int| 0 <= j < next_states.len() implies call_ensures(
                    #[trigger] next_states[j],
                    (),
                    next_slots[j],
                ) by {
                    if j < states.len() {
                        assert(next_states[j] == states[j]);
                        assert(next_slots[j] == slots@[j]);
                    }
                }
                states = next_states;
            }
            slots.push(event);
            i = i + 1;
        }
        proof {
            let k = choose|k: nat| pow2(k) == size as int;
            lemma_pow2_pos(k);
        }
        let index_mask = (size - 1) as i64;
        let ring = RingBuffer { slots, index_mask };
        assert(filled_in_order(states, ring@));
        ring
    }

    /// The number of slots, a power of two.
    pub fn size(&self) -> (size: i64)
        ensures
            size == self@.len(),
            size > 0,
            is_power_of_two(size as int),
    {
        proof {
            use_type_invariant(self);
            let k = choose|k: nat| pow2(k) == self.slots@.len() as int;
            lemma_pow2_pos(k);
        }
        self.slots.len() as i64
    }

    /// Index of the slot that holds `sequence`.
    fn slot_index(&self, sequence: Sequence) -> (index: usize)
        ensures
            self@.len() > 0,
            index as int == slot_of(sequence as int, self@.len() as int),
            index < self@.len(),
    {
        let slot_count = self.slots.len();
        proof {
            use_type_invariant(self);
            let k = choose|k: nat| pow2(k) == self.slots@.len() as int;
            lemma_pow2_pos(k);
            if k >= 63 {
                lemma2_to64_rest();
                if k > 63 {
                    lemma_pow2_strictly_increases(63, k);
                }
            }
            lemma_i64_and_mask_is_mod(sequence, k);
            assert((pow2(k) - 1) as i64 == self.index_mask);
            let m = self.index_mask;
            assert(0 <= m ==> sequence & m <= m) by (bit_vector);
            assert(m < slot_count);
            lemma_mod_bound(sequence as int, pow2(k) as int);
        }
        (sequence & self.index_mask) as usize
    }

    /// The slot that holds `sequence`; a producer writes the event there.
    pub fn get(&self, sequence: Sequence) -> (slot: &T)
        ensures
            self@.len() > 0,
            *slot == self@[slot_of(sequence as int, self@.len() as int)],
    {
        let index = self.slot_index(sequence);
        &self.slots[index]
    }

    /// The slot that holds `sequence`, for a consumer to read the event from.
    pub fn get_ref(&self, sequence: Sequence) -> (slot: &T)
        ensures
            self@.len() > 0,
            *slot == self@[slot_of(sequence as int, self@.len() as int)],
    {
        let index = self.slot_index(sequence);
        &self.slots[index]
    }

    /// The oldest sequence that publishing at `sequence` would overwrite.
    fn wrap_point(&self, sequence: Sequence) -> (point: i128)
        ensures
            point == sequence - self@.len(),
            self@.len() <= i64::MAX,
    {
        sequence as i128 - self.size() as i128
    }

    /// The number of slots a producer that has published up to `producer` may
    /// still write while the slowest consumer has read up to
    /// `highest_read_by_consumers`.
    pub fn free_slots(&self, producer: Sequence, highest_read_by_consumers: Sequence) -> (free: i128)
        ensures
            free == free_slot_count(producer as int, highest_read_by_consumers as int, self@.len() as int),
    {
        proof {
            use_type_invariant(self);
        }
        let wrap_point = self.wrap_point(producer);
        highest_read_by_consumers as i128 - wrap_point
    }
}

} // verus!
