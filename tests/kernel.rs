use pi_bench::rounding::round_to_double_exec;
use pi_bench::sampling::{monte_carlo_hits, unit_circle_hit_exec};
use pi_bench::stream::{SeededStream, MANTISSA_MASK};

fn unit_of(bits: u64) -> f64 {
    f64::from_bits(bits) - 1.0
}

fn float_hits(samples: u64, seed: u64) -> u64 {
    let mut stream = SeededStream::new(seed);
    let mut hits = 0u64;
    for _ in 0..samples {
        let x = unit_of(stream.next_unit_bits());
        let y = unit_of(stream.next_unit_bits());
        if x * x + y * y <= 1.0 {
            hits += 1;
        }
    }
    hits
}

#[test]
fn monte_carlo_hits_respects_bounds() {
    let hits = monte_carlo_hits(1_000, 12345);
    assert!(hits <= 1_000);
}

#[test]
fn zero_samples_give_zero_hits() {
    for seed in [0u64, 1, 2, 12345, u64::MAX] {
        assert_eq!(monte_carlo_hits(0, seed), 0);
    }
}

#[test]
fn hits_never_exceed_samples() {
    for (samples, seed) in [(1u64, 7u64), (10, 0), (999, 42), (5_000, u64::MAX)] {
        assert!(monte_carlo_hits(samples, seed) <= samples);
    }
}

#[test]
fn kernel_matches_double_arithmetic() {
    for seed in [0u64, 1, 42, 12345, 0xDEAD_BEEF, u64::MAX] {
        assert_eq!(monte_carlo_hits(20_000, seed), float_hits(20_000, seed));
    }
}

#[test]
fn kernel_is_deterministic() {
    assert_eq!(monte_carlo_hits(10_000, 99), monte_carlo_hits(10_000, 99));
}

#[test]
fn seed_low_bit_is_forced() {
    let mut even = SeededStream::new(4);
    let mut odd = SeededStream::new(5);
    for _ in 0..100 {
        assert_eq!(even.next_unit_bits(), odd.next_unit_bits());
    }
}

#[test]
fn draws_stay_in_unit_interval() {
    for seed in [0u64, 1, 2, 3, 1 << 40, u64::MAX - 1, u64::MAX] {
        let mut stream = SeededStream::new(seed);
        for _ in 0..10_000 {
            let u = unit_of(stream.next_unit_bits());
            assert!(u >= 0.0 && u < 1.0);
        }
    }
}

#[test]
fn first_draw_follows_the_generator() {
    let mut stream = SeededStream::new(0);
    let state = 1u64.wrapping_mul(6364136223846793005).wrapping_add(1);
    assert_eq!(stream.next_unit_bits(), (state >> 11) | 0x3FF0_0000_0000_0000);
}

#[test]
fn rounding_matches_conversion_to_double() {
    let samples: [u128; 10] = [
        0,
        1,
        (1 << 53) - 1,
        1 << 53,
        (1 << 53) + 1,
        (1 << 53) + 3,
        (1 << 54) + 2,
        (1 << 54) + 6,
        0x3FF_FFFF_FFFF_FFFF_FFFF_FFFF_FFFF,
        0x123_4567_89AB_CDEF_0123_4567_89AB,
    ];
    for v in samples {
        assert_eq!(round_to_double_exec(v), (v as f64) as u128, "value {v}");
    }
    assert_eq!(round_to_double_exec((1 << 53) + 1), 1 << 53);
    assert_eq!(round_to_double_exec((1 << 53) + 3), (1 << 53) + 4);
}

#[test]
fn circle_test_matches_doubles_near_the_boundary() {
    let scale = (1u64 << 52) as f64;
    let mut a: u64 = 1;
    while a <= MANTISSA_MASK {
        let target = (1u128 << 104) - (a as u128) * (a as u128);
        let mut b = (target as f64).sqrt() as u64;
        if b > MANTISSA_MASK {
            b = MANTISSA_MASK;
        }
        for delta in 0..5u64 {
            for cand in [b.saturating_sub(delta), (b + delta).min(MANTISSA_MASK)] {
                let x = a as f64 / scale;
                let y = cand as f64 / scale;
                assert_eq!(unit_circle_hit_exec(a, cand), x * x + y * y <= 1.0, "{a} {cand}");
            }
        }
        a = a * 3 + 7;
    }
}

#[test]
fn far_points_are_decided() {
    assert!(unit_circle_hit_exec(0, 0));
    assert!(!unit_circle_hit_exec(MANTISSA_MASK, MANTISSA_MASK));
    assert!(unit_circle_hit_exec(MANTISSA_MASK, 0));
}
