//! A deterministic multiplicative-congruential stream of unit draws.
//!
//! Each draw is delivered as the IEEE-754 bit pattern of a double in `[1, 2)`;
//! subtracting `1.0` from that double gives a value uniform in `[0, 1)`.
use vstd::prelude::*;

verus! {

/// Multiplier of the linear congruential step.
pub const LCG_MULTIPLIER: u64 = 6364136223846793005;

/// Sign and exponent field of a double in `[1, 2)`.
pub const UNIT_EXPONENT_BITS: u64 = 0x3FF0_0000_0000_0000;

/// Mask of the 52-bit mantissa field of a double.
pub const MANTISSA_MASK: u64 = 0x000F_FFFF_FFFF_FFFF;

/// Bit pattern of the double `2.0`, the first one past the unit draws.
pub const TWO_BITS: u64 = 0x4000_0000_0000_0000;

/// `2^64`, the modulus of the generator's arithmetic.
pub open spec fn modulus() -> int {
    0x1_0000_0000_0000_0000int
}

/// One step of the generator: `s * LCG_MULTIPLIER + 1` modulo `2^64`.
pub open spec fn lcg_next(s: u64) -> u64 {
    ((s as int * LCG_MULTIPLIER as int + 1) % modulus()) as u64
}

/// The generator state after `n` steps from `s`.
pub open spec fn state_after(s: u64, n: nat) -> u64
    decreases n,
{
    if n == 0 {
        s
    } else {
        lcg_next(state_after(s, (n - 1) as nat))
    }
}

/// The state a stream starts from for a given seed: the low bit is forced on.
pub open spec fn initial_state(seed: u64) -> u64 {
    seed | 1
}

/// The double bit pattern drawn from a freshly advanced state.
pub open spec fn unit_bits(s: u64) -> u64 {
    (s >> 11u64) | UNIT_EXPONENT_BITS
}

/// The mantissa of a draw: the draw's value in `[0, 1)` is `unit_fraction(s) / 2^52`.
pub open spec fn unit_fraction(s: u64) -> u64 {
    (s >> 11u64) & MANTISSA_MASK
}

/// A draw is the double with exponent field `0x3FF` and mantissa `unit_fraction(s)`,
/// that is `1 + unit_fraction(s) / 2^52`, which lies in `[1, 2)`.
pub proof fn lemma_unit_bits_shape(s: u64)
    ensures
        unit_bits(s) == UNIT_EXPONENT_BITS | unit_fraction(s),
        unit_fraction(s) <= MANTISSA_MASK,
        unit_bits(s) & MANTISSA_MASK == unit_fraction(s),
        UNIT_EXPONENT_BITS <= unit_bits(s) < TWO_BITS,
{
    assert((s >> 11u64) | 0x3FF0_0000_0000_0000u64 == 0x3FF0_0000_0000_0000u64 | ((s >> 11u64)
        & 0x000F_FFFF_FFFF_FFFFu64)) by (bit_vector);
    assert((s >> 11u64) & 0x000F_FFFF_FFFF_FFFFu64 <= 0x000F_FFFF_FFFF_FFFFu64) by (bit_vector);
    assert(((s >> 11u64) | 0x3FF0_0000_0000_0000u64) & 0x000F_FFFF_FFFF_FFFFu64 == (s >> 11u64)
        & 0x000F_FFFF_FFFF_FFFFu64) by (bit_vector);
    assert(0x3FF0_0000_0000_0000u64 <= (s >> 11u64) | 0x3FF0_0000_0000_0000u64) by (bit_vector);
    assert((s >> 11u64) | 0x3FF0_0000_0000_0000u64 < 0x4000_0000_0000_0000u64) by (bit_vector);
}

/// A pseudo-random stream owned by a single consumer.
pub struct SeededStream {
    state: u64,
}

impl SeededStream {
    /// The current generator state.
    pub closed spec fn state(&self) -> u64 {
        self.state
    }

    /// Starts a stream from `seed`, with the low bit forced on.
    pub fn new(seed: u64) -> (r: SeededStream)
        ensures
            r.state() == initial_state(seed),
    {
        SeededStream { state: seed | 1 }
    }

    /// Advances the generator once and returns the bit pattern of the next draw:
    /// a double in `[1, 2)` whose mantissa is the top 52 bits below the state's
    /// most significant bit.
    pub fn next_unit_bits(&mut self) -> (r: u64)
        ensures
            final(self).state() == lcg_next(old(self).state()),
            r == unit_bits(final(self).state()),
            UNIT_EXPONENT_BITS <= r < TWO_BITS,
    {
        let next = self.state.wrapping_mul(LCG_MULTIPLIER).wrapping_add(1);
        proof {
            let s = self.state as int;
            let m = LCG_MULTIPLIER as int;
            let p = (s * m) % modulus();
            vstd::arithmetic::div_mod::lemma_add_mod_noop(s * m, 1, modulus());
            vstd::arithmetic::div_mod::lemma_mod_twice(1, modulus());
            assert(next as int == (p + 1) % modulus());
            lemma_unit_bits_shape(next);
        }
        self.state = next;
        (next >> 11u64) | UNIT_EXPONENT_BITS
    }
}

} // verus!
