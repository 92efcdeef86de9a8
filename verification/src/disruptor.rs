use vstd::prelude::*;
use vstd::arithmetic::power2::*;

use crate::ring_buffer::is_power_of_two;

verus! {

/// Entry point for building a disruptor whose capacity is checked when the
/// program is type-checked: `Disruptor::with_capacity::<N>()` only compiles
/// when `N` is a power of two.
pub struct Disruptor;

/// Carries a ring buffer capacity `N` in its type.
pub struct PowerOfTwo<const N: usize>;

/// Implemented exactly for the `PowerOfTwo<N>` whose `N` is a power of two,
/// from 1 to 2^20.
pub trait Verified {}

impl Verified for PowerOfTwo<1> {}

impl Verified for PowerOfTwo<2> {}

impl Verified for PowerOfTwo<4> {}

impl Verified for PowerOfTwo<8> {}

impl Verified for PowerOfTwo<16> {}

impl Verified for PowerOfTwo<32> {}

impl Verified for PowerOfTwo<64> {}

impl Verified for PowerOfTwo<128> {}

impl Verified for PowerOfTwo<256> {}

impl Verified for PowerOfTwo<512> {}

impl Verified for PowerOfTwo<1024> {}

impl Verified for PowerOfTwo<2048> {}

impl Verified for PowerOfTwo<4096> {}

impl Verified for PowerOfTwo<8192> {}

impl Verified for PowerOfTwo<16384> {}

impl Verified for PowerOfTwo<32768> {}

impl Verified for PowerOfTwo<65536> {}

impl Verified for PowerOfTwo<131072> {}

impl Verified for PowerOfTwo<262144> {}

impl Verified for PowerOfTwo<524288> {}

impl Verified for PowerOfTwo<1048576> {}

/// The capacities that `PowerOfTwo<N>: Verified` admits, in increasing order.
pub open spec fn verified_capacities() -> Seq<int> {
    seq![1, 2, 4, 8, 16, 32, 64, 128, 256, 512, 1024, 2048, 4096, 8192, 16384, 32768,
        65536, 131072, 262144, 524288, 1048576]
}

/// Each admitted capacity is 2 to the power of its position in the list.
pub proof fn lemma_verified_capacities_are_successive_powers()
    ensures
        verified_capacities().len() == 21,
        forall|k: int| 0 <= k < 21 ==> #[trigger] verified_capacities()[k] == pow2(k as nat),
        forall|k: int| 0 <= k < 21 ==> is_power_of_two(#[trigger] verified_capacities()[k]),
{
    lemma2_to64();
    assert forall|k: int| 0 <= k < 21 implies #[trigger] verified_capacities()[k] == pow2(k as nat) by {
        lemma2_to64();
    }
    assert forall|k: int| 0 <= k < 21 implies is_power_of_two(#[trigger] verified_capacities()[k]) by {
        assert(verified_capacities()[k] == pow2(k as nat));
    }
}

/// Builder of a disruptor whose ring buffer holds `N` slots, a power of two.
pub struct DisruptorBuilder<const N: usize>;

impl Disruptor {
    /// The builder of a disruptor with a ring buffer of `N` slots; only
    /// available when `N` is a power of two.
    pub fn with_capacity<const N: usize>() -> (builder: DisruptorBuilder<N>)
        where
            PowerOfTwo<N>: Verified,
    {
        DisruptorBuilder
    }
}

} // verus!
