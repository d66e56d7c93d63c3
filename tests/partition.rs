use pi_bench::plan::{
    derive_seed, random_seed, split_work, ConfigError, WorkPlan, GOLDEN_RATIO,
};

#[test]
fn split_divides_with_remainder() {
    assert_eq!(split_work(10, 3), Ok((3, 1)));
    assert_eq!(split_work(9, 3), Ok((3, 0)));
    assert_eq!(split_work(2, 5), Ok((0, 2)));
    assert_eq!(split_work(u64::MAX, 1), Ok((u64::MAX, 0)));
}

#[test]
fn split_rejects_zero() {
    assert_eq!(split_work(0, 3), Err(ConfigError::ZeroUnits));
    assert_eq!(split_work(0, 0), Err(ConfigError::ZeroUnits));
    assert_eq!(split_work(7, 0), Err(ConfigError::ZeroWorkers));
}

#[test]
fn split_reassembles_total() {
    for total in [1u64, 2, 7, 100, 200_000_000, u64::MAX] {
        for workers in [1u64, 2, 3, 4, 7, 64, 1000] {
            let (base, rem) = split_work(total, workers).unwrap();
            assert_eq!(base as u128 * workers as u128 + rem as u128, total as u128);
            assert!(rem < workers);
        }
    }
}

#[test]
fn plan_chunks_are_balanced_and_exact() {
    let plan = WorkPlan::new(10, 4).unwrap();
    assert_eq!(plan, WorkPlan { worker_count: 4, base_chunk: 2, remainder: 2 });
    let tasks = plan.tasks(0);
    let chunks: Vec<u64> = tasks.iter().map(|t| t.chunk).collect();
    assert_eq!(chunks, vec![3, 3, 2, 2]);
    assert_eq!(plan.chunk_size(1), 3);
    assert_eq!(plan.chunk_size(3), 2);
    assert_eq!(WorkPlan::new(0, 4), Err(ConfigError::ZeroUnits));
    assert_eq!(WorkPlan::new(5, 0), Err(ConfigError::ZeroWorkers));
}

#[test]
fn seeds_follow_the_golden_ratio() {
    assert_eq!(derive_seed(0, 0), GOLDEN_RATIO);
    assert_eq!(derive_seed(0, 1), GOLDEN_RATIO.wrapping_mul(2));
    assert_eq!(derive_seed(42, 3), 42 ^ GOLDEN_RATIO.wrapping_mul(4));
    let tasks = WorkPlan::new(100, 3).unwrap().tasks(7);
    for (i, t) in tasks.iter().enumerate() {
        assert_eq!(t.seed, derive_seed(7, i as u64));
    }
}

#[test]
fn worker_seeds_are_distinct() {
    for base in [0u64, 1, 42, 0xDEAD_BEEF, u64::MAX] {
        let mut seeds: Vec<u64> = (0..256u64).map(|i| derive_seed(base, i)).collect();
        seeds.sort();
        seeds.dedup();
        assert_eq!(seeds.len(), 256);
    }
}

#[test]
fn default_seed_mixes_the_clock() {
    assert_eq!(random_seed(None), 0xDEAD_BEEF_DEAD_BEEF | 1);
    assert_eq!(random_seed(Some(0)), 0xA5A5_5A5A_A5A5_5A5B);
    let n: u128 = (7u128 << 64) | 0x1234;
    assert_eq!(random_seed(Some(n)), (0x1234 ^ 0xA5A5_5A5A_A5A5_5A5A) | 1);
    assert_eq!(random_seed(Some(12345)) % 2, 1);
}
