use pi_bench::aggregate::{combine_partials, sampled_hits};
use pi_bench::plan::{derive_seed, ConfigError, WorkPlan};
use pi_bench::sampling::monte_carlo_hits;

fn estimate(hits: u128, samples: u64) -> f64 {
    4.0 * (hits as f64) / (samples as f64)
}

#[test]
fn failed_workers_count_as_zero() {
    assert_eq!(combine_partials(&vec![Some(3), None, Some(4)]), 7);
    assert_eq!(combine_partials(&vec![]), 0);
    assert_eq!(combine_partials(&vec![None, None]), 0);
}

#[test]
fn combining_does_not_overflow() {
    let partials = vec![Some(u64::MAX); 4];
    assert_eq!(combine_partials(&partials), 4 * u64::MAX as u128);
}

#[test]
fn sampled_hits_sum_the_workers() {
    let plan = WorkPlan::new(10_001, 3).unwrap();
    let partials: Vec<Option<u64>> = plan
        .tasks(9)
        .iter()
        .map(|t| Some(monte_carlo_hits(t.chunk, t.seed)))
        .collect();
    assert_eq!(sampled_hits(10_001, 3, 9), Ok(combine_partials(&partials)));
    let first = monte_carlo_hits(3_334, derive_seed(9, 0));
    assert_eq!(partials[0], Some(first));
}

#[test]
fn parallel_estimate_is_deterministic() {
    let a = sampled_hits(100_000, 4, 1234).unwrap();
    let b = sampled_hits(100_000, 4, 1234).unwrap();
    assert_eq!(estimate(a, 100_000).to_bits(), estimate(b, 100_000).to_bits());
}

#[test]
fn sampled_hits_reject_zero() {
    assert_eq!(sampled_hits(0, 4, 1), Err(ConfigError::ZeroUnits));
    assert_eq!(sampled_hits(10, 0, 1), Err(ConfigError::ZeroWorkers));
}

#[test]
fn single_worker_run_is_one_stream() {
    let seed = derive_seed(5, 0);
    assert_eq!(sampled_hits(5_000, 1, 5), Ok(monte_carlo_hits(5_000, seed) as u128));
}

#[test]
fn moderate_run_is_near_pi() {
    let hits = sampled_hits(2_000_000, 4, 42).unwrap();
    assert!((estimate(hits, 2_000_000) - std::f64::consts::PI).abs() < 0.01);
}

#[test]
fn large_run_is_near_pi() {
    let hits = sampled_hits(200_000_000, 4, 42).unwrap();
    assert!((estimate(hits, 200_000_000) - std::f64::consts::PI).abs() < 0.01);
}
