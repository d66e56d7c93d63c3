//! The Monte-Carlo sampling kernel: points drawn from one stream, tested
//! against the unit circle.
//!
//! A draw's value in `[0, 1)` is `a / 2^52` for its mantissa `a`. With both
//! coordinates scaled by `2^52`, the double computation `x*x + y*y <= 1.0`
//! becomes integer arithmetic scaled by `2^104`: each square and the sum are
//! rounded to double precision, and the rounded sum is compared with `2^104`.
use crate::rounding::{lemma_round_near, SIGNIFICAND_LIMIT, round_to_double, round_to_double_exec};
use crate::stream::{
    initial_state, lemma_unit_bits_shape, state_after, unit_fraction, SeededStream, MANTISSA_MASK,
};
use vstd::arithmetic::power2::{lemma2_to64, lemma_pow2_adds, pow2};
use vstd::prelude::*;

verus! {

/// `1.0` at the scale of a squared coordinate: `2^104`.
pub const UNIT_SQUARED: u128 = 0x100_0000_0000_0000_0000_0000_0000;

/// Distance from `2^104` beyond which rounding cannot change the outcome.
const ROUNDING_MARGIN: u128 = 0x40_0000_0000_0000;

/// Whether the point `(a / 2^52, b / 2^52)` passes the double-precision test
/// `x*x + y*y <= 1.0`.
pub open spec fn unit_circle_hit(a: nat, b: nat) -> bool {
    round_to_double(round_to_double(a * a) + round_to_double(b * b)) <= UNIT_SQUARED
}

/// Whether the `i`-th point drawn from a stream at state `s` is a hit: its
/// coordinates are the draws `2i` and `2i + 1`.
pub open spec fn point_hit(s: u64, i: nat) -> bool {
    unit_circle_hit(
        unit_fraction(state_after(s, 2 * i + 1)) as nat,
        unit_fraction(state_after(s, 2 * i + 2)) as nat,
    )
}

/// The number of hits among the first `n` points drawn from a stream at state `s`.
pub open spec fn hits_from_state(s: u64, n: nat) -> nat
    decreases n,
{
    if n == 0 {
        0
    } else {
        hits_from_state(s, (n - 1) as nat) + if point_hit(s, (n - 1) as nat) {
            1nat
        } else {
            0nat
        }
    }
}

/// The number of hits among `samples` points of the stream seeded with `seed`.
pub open spec fn count_hits(samples: nat, seed: u64) -> nat {
    hits_from_state(initial_state(seed), samples)
}

/// A stream segment never has more hits than points.
pub proof fn lemma_count_hits_bounded(samples: nat, seed: u64)
    ensures
        count_hits(samples, seed) <= samples,
{
    lemma_hits_from_state_bounded(initial_state(seed), samples);
}

proof fn lemma_hits_from_state_bounded(s: u64, n: nat)
    ensures
        hits_from_state(s, n) <= n,
    decreases n,
{
    if n > 0 {
        lemma_hits_from_state_bounded(s, (n - 1) as nat);
    }
}

proof fn lemma_square_bound(a: u64)
    requires
        a <= MANTISSA_MASK,
    ensures
        (a as nat) * (a as nat) < UNIT_SQUARED,
{
    assert((a as nat) * (a as nat) < UNIT_SQUARED) by (nonlinear_arith)
        requires
            a <= 0x000F_FFFF_FFFF_FFFFu64,
    ;
}

/// Evaluates the double-precision unit-circle test on the point
/// `(a / 2^52, b / 2^52)`.
pub fn unit_circle_hit_exec(a: u64, b: u64) -> (r: bool)
    requires
        a <= MANTISSA_MASK,
        b <= MANTISSA_MASK,
    ensures
        r == unit_circle_hit(a as nat, b as nat),
{
    proof {
        lemma_square_bound(a);
        lemma_square_bound(b);
        lemma2_to64();
        lemma_pow2_adds(32, 19);
        lemma_pow2_adds(32, 21);
        assert(pow2(51) == 0x8_0000_0000_0000);
        assert(pow2(53) == 0x20_0000_0000_0000);
        assert(SIGNIFICAND_LIMIT * pow2(51) == UNIT_SQUARED);
        assert(SIGNIFICAND_LIMIT * pow2(53) == 4 * UNIT_SQUARED);
    }
    let sa = (a as u128) * (a as u128);
    let sb = (b as u128) * (b as u128);
    let sum = sa + sb;
    let ghost ra = round_to_double(sa as nat);
    let ghost rb = round_to_double(sb as nat);
    proof {
        lemma_round_near(sa as nat, 51);
        lemma_round_near(sb as nat, 51);
    }
    if sum <= UNIT_SQUARED - ROUNDING_MARGIN {
        proof {
            lemma_round_near(ra + rb, 51);
        }
        true
    } else if sum >= UNIT_SQUARED + ROUNDING_MARGIN {
        proof {
            lemma_round_near(ra + rb, 53);
        }
        false
    } else {
        let rounded_a = round_to_double_exec(sa);
        let rounded_b = round_to_double_exec(sb);
        round_to_double_exec(rounded_a + rounded_b) <= UNIT_SQUARED
    }
}

/// Draws `samples` points from a stream seeded with `seed` and counts those
/// inside the unit circle.
pub fn monte_carlo_hits(samples: u64, seed: u64) -> (r: u64)
    ensures
        r as nat == count_hits(samples as nat, seed),
        r <= samples,
        samples == 0 ==> r == 0,
{
    let mut stream = SeededStream::new(seed);
    let ghost s0 = initial_state(seed);
    let mut hits: u64 = 0;
    let mut i: u64 = 0;
    while i < samples
        invariant
            i <= samples,
            hits <= i,
            stream.state() == state_after(s0, 2 * i as nat),
            hits as nat == hits_from_state(s0, i as nat),
        decreases samples - i,
    {
        let x = stream.next_unit_bits() & MANTISSA_MASK;
        proof {
            lemma_unit_bits_shape(state_after(s0, (2 * i + 1) as nat));
        }
        let y = stream.next_unit_bits() & MANTISSA_MASK;
        proof {
            lemma_unit_bits_shape(state_after(s0, (2 * i + 2) as nat));
        }
        if unit_circle_hit_exec(x, y) {
            hits = hits + 1;
        }
        i = i + 1;
    }
    hits
}

} // verus!
