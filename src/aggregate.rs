//! Fork-join aggregation of per-worker hit counts.
//!
//! A run of `samples` points over `workers` workers gives worker `i` the share
//! that `split_work` assigns it and the seed that `derive_seed` derives for it;
//! the run's hit count is the sum of the workers' counts. A worker that did
//! not return counts as zero hits.
use crate::plan::{worker_seed, ConfigError, WorkPlan, WorkerTask};
use crate::sampling::{count_hits, monte_carlo_hits};
use vstd::arithmetic::div_mod::lemma_fundamental_div_mod;
use vstd::prelude::*;

verus! {

/// The points worker `i` draws when `total` points are split over `workers`.
pub open spec fn share(total: nat, workers: nat, i: nat) -> nat
    recommends
        workers > 0,
{
    total / workers + if i < total % workers {
        1nat
    } else {
        0nat
    }
}

proof fn lemma_share_bounded(total: nat, workers: nat, i: nat)
    requires
        workers >= 1,
    ensures
        share(total, workers, i) <= total,
{
    let q = total / workers;
    let r = total % workers;
    lemma_fundamental_div_mod(total as int, workers as int);
    assert(q + if i < r { 1nat } else { 0nat } <= workers * q + r) by (nonlinear_arith)
        requires
            workers >= 1,
            q >= 0,
            r >= 0,
    ;
}

/// The hits of the first `n` workers of a run.
pub open spec fn run_hits_before(total: nat, workers: nat, base_seed: u64, n: nat) -> nat
    decreases n,
{
    if n == 0 {
        0
    } else {
        let i = (n - 1) as nat;
        run_hits_before(total, workers, base_seed, i) + count_hits(
            share(total, workers, i),
            worker_seed(base_seed, i),
        )
    }
}

/// The hit count of a run of `total` points over `workers` workers seeded
/// from `base_seed`.
pub open spec fn run_hits(total: nat, workers: nat, base_seed: u64) -> nat {
    run_hits_before(total, workers, base_seed, workers)
}

/// What one worker contributes: its hits, or zero if it did not return.
pub open spec fn contribution(p: Option<u64>) -> nat {
    match p {
        Some(h) => h as nat,
        None => 0,
    }
}

/// The sum of the contributions of the first `n` partial results.
pub open spec fn partials_before(partials: Seq<Option<u64>>, n: nat) -> nat
    decreases n,
{
    if n == 0 {
        0
    } else {
        partials_before(partials, (n - 1) as nat) + contribution(partials[n - 1])
    }
}

/// Whether `partials` holds, in worker order, the result of every worker of a run.
pub open spec fn complete_run(
    partials: Seq<Option<u64>>,
    total: nat,
    workers: nat,
    base_seed: u64,
) -> bool {
    &&& partials.len() == workers
    &&& forall|i: int|
        0 <= i < workers ==> #[trigger] partials[i] == Some(
            count_hits(share(total, workers, i as nat), worker_seed(base_seed, i as nat)) as u64,
        )
}

proof fn lemma_contributions_bounded(partials: Seq<Option<u64>>, n: nat)
    ensures
        partials_before(partials, n) <= n * 0xFFFF_FFFF_FFFF_FFFFnat,
    decreases n,
{
    if n > 0 {
        lemma_contributions_bounded(partials, (n - 1) as nat);
        assert(n * 0xFFFF_FFFF_FFFF_FFFFnat == (n - 1) * 0xFFFF_FFFF_FFFF_FFFFnat
            + 0xFFFF_FFFF_FFFF_FFFFnat) by (nonlinear_arith)
            requires
                n >= 1,
        ;
    }
}

proof fn lemma_complete_run_prefix(
    partials: Seq<Option<u64>>,
    total: nat,
    workers: nat,
    base_seed: u64,
    n: nat,
)
    requires
        complete_run(partials, total, workers, base_seed),
        n <= workers,
        forall|i: nat| i < workers ==> count_hits(share(total, workers, i), worker_seed(base_seed, i)) <= u64::MAX,
    ensures
        partials_before(partials, n) == run_hits_before(total, workers, base_seed, n),
    decreases n,
{
    if n > 0 {
        let i = (n - 1) as nat;
        lemma_complete_run_prefix(partials, total, workers, base_seed, i);
        assert(partials[i as int] == Some(
            count_hits(share(total, workers, i), worker_seed(base_seed, i)) as u64,
        ));
    }
}

/// A run's hit count is determined by its inputs: any two complete sets of
/// worker results for the same points, workers and base seed add up to the
/// same total, which is the run's hit count.
pub proof fn lemma_run_deterministic(
    first: Seq<Option<u64>>,
    second: Seq<Option<u64>>,
    total: nat,
    workers: nat,
    base_seed: u64,
)
    requires
        total <= u64::MAX,
        complete_run(first, total, workers, base_seed),
        complete_run(second, total, workers, base_seed),
    ensures
        partials_before(first, workers) == partials_before(second, workers),
        partials_before(first, workers) == run_hits(total, workers, base_seed),
{
    assert forall|i: nat| i < workers implies count_hits(share(total, workers, i), worker_seed(base_seed, i)) <= u64::MAX by {
        crate::sampling::lemma_count_hits_bounded(share(total, workers, i), worker_seed(base_seed, i));
        lemma_share_bounded(total, workers, i);
    }
    lemma_complete_run_prefix(first, total, workers, base_seed, workers);
    lemma_complete_run_prefix(second, total, workers, base_seed, workers);
}

/// Sums the workers' partial hit counts in 128 bits; a worker that did not
/// return contributes zero.
pub fn combine_partials(partials: &Vec<Option<u64>>) -> (r: u128)
    ensures
        r == partials_before(partials@, partials@.len()),
{
    let mut total: u128 = 0;
    let mut i: usize = 0;
    while i < partials.len()
        invariant
            i <= partials@.len(),
            total == partials_before(partials@, i as nat),
        decreases partials.len() - i,
    {
        proof {
            lemma_contributions_bounded(partials@, (i + 1) as nat);
            assert((i + 1) * 0xFFFF_FFFF_FFFF_FFFFnat <= u128::MAX) by (nonlinear_arith)
                requires
                    i < usize::MAX,
            ;
        }
        match partials[i] {
            Some(h) => {
                total = total + h as u128;
            },
            None => {},
        }
        i = i + 1;
    }
    total
}

/// Runs every worker of a run in turn and combines their hits: the same
/// count a parallel execution of the run's tasks combines to.
pub fn sampled_hits(samples: u64, worker_count: usize, base_seed: u64) -> (r: Result<
    u128,
    ConfigError,
>)
    ensures
        samples == 0 ==> r == Err::<u128, ConfigError>(ConfigError::ZeroUnits),
        samples > 0 && worker_count == 0 ==> r == Err::<u128, ConfigError>(
            ConfigError::ZeroWorkers,
        ),
        samples > 0 && worker_count > 0 ==> r == Ok::<u128, ConfigError>(
            run_hits(samples as nat, worker_count as nat, base_seed) as u128,
        ),
{
    let plan = match WorkPlan::new(samples, worker_count) {
        Ok(p) => p,
        Err(e) => {
            return Err(e);
        },
    };
    let tasks: Vec<WorkerTask> = plan.tasks(base_seed);
    let ghost total = samples as nat;
    let ghost workers = worker_count as nat;
    let mut partials: Vec<Option<u64>> = Vec::new();
    let mut i: usize = 0;
    while i < tasks.len()
        invariant
            total == samples,
            workers == worker_count,
            tasks.len() == worker_count,
            plan.wf(),
            plan.worker_count == worker_count,
            plan.base_chunk == samples / worker_count as u64,
            plan.remainder == samples % worker_count as u64,
            forall|k: int|
                0 <= k < tasks.len() ==> (#[trigger] tasks@[k]).chunk == plan.chunk_of(k)
                    && tasks@[k].seed == worker_seed(base_seed, k as nat),
            i <= tasks.len(),
            partials.len() == i,
            forall|k: int|
                0 <= k < i ==> #[trigger] partials@[k] == Some(
                    count_hits(share(total, workers, k as nat), worker_seed(base_seed, k as nat))
                        as u64,
                ),
        decreases tasks.len() - i,
    {
        let task = tasks[i];
        assert(task.chunk == share(total, workers, i as nat)) by {
            assert(task == tasks@[i as int]);
            assert(total == samples && workers == worker_count && workers > 0);
            assert(task.chunk == plan.chunk_of(i as int));
        }
        let hits = monte_carlo_hits(task.chunk, task.seed);
        partials.push(Some(hits));
        i = i + 1;
    }
    proof {
        lemma_run_deterministic(partials@, partials@, total, workers, base_seed);
    }
    Ok(combine_partials(&partials))
}

} // verus!
