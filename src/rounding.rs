//! Exact integer model of round-to-nearest-even at double precision.
//!
//! A non-negative integer `v` stands for the real `v * 2^-e` for some fixed
//! scale `e`; as long as that real is a normal double or an exact integer
//! multiple of one, rounding it to a double is rounding `v` to 53 significant
//! bits, ties to even. That is what `round_to_double` states.
use vstd::arithmetic::div_mod::{lemma_div_denominator, lemma_fundamental_div_mod, lemma_mod_bound};
use vstd::arithmetic::power2::{lemma2_to64, lemma_pow2_unfold, pow2};
use vstd::prelude::*;

verus! {

/// `2^53`: the first integer that needs more than 53 significant bits.
pub const SIGNIFICAND_LIMIT: u128 = 0x20_0000_0000_0000;

/// The weight of the last of 53 significant bits of `v`: `2^max(0, bitlen(v) - 53)`.
pub open spec fn ulp_of(v: nat) -> nat
    decreases v,
{
    if v < SIGNIFICAND_LIMIT {
        1
    } else {
        2 * ulp_of(v / 2)
    }
}

/// `v` rounded to 53 significant bits, to nearest, ties to even.
pub open spec fn round_to_double(v: nat) -> nat {
    let p = ulp_of(v);
    let q = v / p;
    let r = v % p;
    if 2 * r > p || (2 * r == p && q % 2 == 1) {
        (q + 1) * p
    } else {
        q * p
    }
}

proof fn lemma_ulp_positive(v: nat)
    ensures
        ulp_of(v) >= 1,
    decreases v,
{
    if v >= SIGNIFICAND_LIMIT {
        lemma_ulp_positive(v / 2);
    }
}

/// Below `2^(53 + k)` the last significant bit weighs at most `2^k`.
proof fn lemma_ulp_bound(v: nat, k: nat)
    requires
        v < SIGNIFICAND_LIMIT * pow2(k),
    ensures
        ulp_of(v) <= pow2(k),
    decreases v,
{
    if v >= SIGNIFICAND_LIMIT {
        if k == 0 {
            assert(pow2(0) == 1) by {
                lemma2_to64();
            }
        } else {
            lemma_pow2_unfold(k);
            lemma_ulp_bound(v / 2, (k - 1) as nat);
        }
    } else {
        vstd::arithmetic::power2::lemma_pow2_pos(k);
    }
}

/// Rounding moves a value by less than one unit in the last place, and by at
/// most `2^k` below `2^(53 + k)`.
pub proof fn lemma_round_near(v: nat, k: nat)
    requires
        v < SIGNIFICAND_LIMIT * pow2(k),
    ensures
        v < round_to_double(v) + pow2(k),
        round_to_double(v) <= v + pow2(k),
{
    let p = ulp_of(v);
    lemma_ulp_positive(v);
    lemma_ulp_bound(v, k);
    lemma_fundamental_div_mod(v as int, p as int);
    lemma_mod_bound(v as int, p as int);
    let q = v / p;
    assert((q + 1) * p == q * p + p) by (nonlinear_arith);
    assert(p * q == q * p) by (nonlinear_arith);
}

/// Rounds `v` to 53 significant bits, to nearest, ties to even.
pub fn round_to_double_exec(v: u128) -> (r: u128)
    requires
        v < 0x400_0000_0000_0000_0000_0000_0000,
    ensures
        r == round_to_double(v as nat),
{
    let mut p: u128 = 1;
    while v / p >= SIGNIFICAND_LIMIT
        invariant
            1 <= p <= v || p == 1,
            v < 0x400_0000_0000_0000_0000_0000_0000,
            ulp_of(v as nat) == p * ulp_of((v / p) as nat),
        decreases v / p,
    {
        let ghost w = (v / p) as nat;
        proof {
            lemma_fundamental_div_mod(v as int, p as int);
            lemma_mod_bound(v as int, p as int);
            assert(p * SIGNIFICAND_LIMIT <= p * (v / p)) by (nonlinear_arith)
                requires
                    v / p >= SIGNIFICAND_LIMIT,
                    p >= 1,
            ;
            lemma_div_denominator(v as int, p as int, 2);
            assert(ulp_of(w) == 2 * ulp_of(w / 2));
            assert(p * (2 * ulp_of(w / 2)) == (p * 2) * ulp_of(w / 2)) by (nonlinear_arith);
        }
        p = p * 2;
    }
    proof {
        lemma_fundamental_div_mod(v as int, p as int);
        lemma_mod_bound(v as int, p as int);
        assert(ulp_of((v / p) as nat) == 1);
        let u = ulp_of((v / p) as nat);
        assert(ulp_of(v as nat) == p * u);
        assert(p * u == p) by (nonlinear_arith)
            requires
                u == 1,
        ;
    }
    let q = v / p;
    let r = v % p;
    proof {
        assert(q * p <= v) by (nonlinear_arith)
            requires
                v == p * q + r,
                r >= 0,
        ;
        assert((q + 1) * p == q * p + p) by (nonlinear_arith);
    }
    if 2 * r > p || (2 * r == p && q % 2 == 1) {
        (q + 1) * p
    } else {
        q * p
    }
}

} // verus!
