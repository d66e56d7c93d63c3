//! Partition of a unit count across workers, and per-worker seeds.
use crate::stream::modulus;
use vstd::arithmetic::div_mod::{lemma_mul_mod_noop_left, lemma_mul_mod_noop_right, lemma_small_mod};
use vstd::arithmetic::mul::lemma_mul_is_associative;
use vstd::prelude::*;

verus! {

/// The 64-bit golden-ratio constant that spreads worker indices over seeds.
pub const GOLDEN_RATIO: u64 = 0x9E37_79B9_7F4A_7C15;

/// The inverse of `GOLDEN_RATIO` modulo `2^64`.
const GOLDEN_RATIO_INVERSE: u64 = 0xF1DE_83E1_9937_733D;

/// A run configuration that cannot be carried out.
#[derive(Debug, Clone, Copy, PartialEq, Eq, Structural)]
pub enum ConfigError {
    /// The run was asked for no work units.
    ZeroUnits,
    /// The run was asked for no workers.
    ZeroWorkers,
}

/// Splits `total` units into `buckets` near-equal parts: the common part size
/// and the number of parts that take one unit more.
pub fn split_work(total: u64, buckets: u64) -> (r: Result<(u64, u64), ConfigError>)
    ensures
        total == 0 ==> r == Err::<(u64, u64), ConfigError>(ConfigError::ZeroUnits),
        total > 0 && buckets == 0 ==> r == Err::<(u64, u64), ConfigError>(
            ConfigError::ZeroWorkers,
        ),
        total > 0 && buckets > 0 ==> r == Ok::<(u64, u64), ConfigError>(
            (total / buckets, total % buckets),
        ),
        r matches Ok((base, rem)) ==> base * buckets + rem == total && rem < buckets,
{
    if total == 0 {
        return Err(ConfigError::ZeroUnits);
    }
    if buckets == 0 {
        return Err(ConfigError::ZeroWorkers);
    }
    proof {
        vstd::arithmetic::div_mod::lemma_fundamental_div_mod(total as int, buckets as int);
        assert(buckets * (total / buckets) == (total / buckets) * buckets) by (nonlinear_arith);
    }
    Ok((total / buckets, total % buckets))
}

/// The seed of worker `index` for a run with base seed `base`:
/// `base XOR (GOLDEN_RATIO * (index + 1) mod 2^64)`.
pub open spec fn worker_seed(base: u64, index: nat) -> u64 {
    base ^ ((GOLDEN_RATIO as int * (index + 1)) % modulus()) as u64
}

/// Derives the seed of worker `index` from the run's base seed.
pub fn derive_seed(base: u64, index: u64) -> (r: u64)
    requires
        index < u64::MAX,
    ensures
        r == worker_seed(base, index as nat),
{
    base ^ GOLDEN_RATIO.wrapping_mul(index + 1)
}

proof fn lemma_golden_ratio_cancels(x: int)
    requires
        0 <= x < modulus(),
    ensures
        (GOLDEN_RATIO_INVERSE as int * ((GOLDEN_RATIO as int * x) % modulus())) % modulus() == x,
{
    let g = GOLDEN_RATIO as int;
    let h = GOLDEN_RATIO_INVERSE as int;
    let m = modulus();
    assert((h * g) % m == 1);
    lemma_mul_mod_noop_right(h, g * x, m);
    lemma_mul_is_associative(h, g, x);
    lemma_mul_mod_noop_left(h * g, x, m);
    lemma_small_mod(x as nat, m as nat);
}

/// Distinct workers of one run get distinct seeds, whatever the base seed:
/// multiplying by the odd constant is a bijection modulo `2^64`, and XOR with a
/// fixed base is one too.
pub proof fn lemma_worker_seeds_distinct(base: u64, i: nat, j: nat)
    requires
        i != j,
        i < u64::MAX,
        j < u64::MAX,
    ensures
        worker_seed(base, i) != worker_seed(base, j),
{
    let m = modulus();
    let xi = ((GOLDEN_RATIO as int * (i + 1)) % m) as u64;
    let xj = ((GOLDEN_RATIO as int * (j + 1)) % m) as u64;
    lemma_golden_ratio_cancels(i + 1 as int);
    lemma_golden_ratio_cancels(j + 1 as int);
    assert(xi != xj);
    assert(xi != xj ==> base ^ xi != base ^ xj) by (bit_vector);
}

/// A partition of a run's units across its workers.
#[derive(Debug, Clone, Copy, PartialEq, Eq, Structural)]
pub struct WorkPlan {
    /// The number of workers, at least one.
    pub worker_count: usize,
    /// The units every worker takes.
    pub base_chunk: u64,
    /// The number of leading workers that take one unit more; below `worker_count`.
    pub remainder: u64,
}

/// One worker's share of a run: its unit count and its seed.
#[derive(Debug, Clone, Copy, PartialEq, Eq, Structural)]
pub struct WorkerTask {
    pub chunk: u64,
    pub seed: u64,
}

impl WorkPlan {
    pub open spec fn wf(&self) -> bool {
        &&& self.worker_count >= 1
        &&& self.remainder < self.worker_count
        &&& self.total_units() <= u64::MAX
    }

    /// The number of units the plan covers.
    pub open spec fn total_units(&self) -> int {
        self.base_chunk * self.worker_count + self.remainder
    }

    /// The units of worker `index`.
    pub open spec fn chunk_of(&self, index: int) -> int {
        self.base_chunk + if index < self.remainder {
            1int
        } else {
            0int
        }
    }

    /// The units of workers `0..n` together.
    pub open spec fn chunks_before(&self, n: nat) -> int
        decreases n,
    {
        if n == 0 {
            0
        } else {
            self.chunks_before((n - 1) as nat) + self.chunk_of(n - 1)
        }
    }

    /// Plans `total` units over `worker_count` workers.
    pub fn new(total: u64, worker_count: usize) -> (r: Result<WorkPlan, ConfigError>)
        ensures
            total == 0 ==> r == Err::<WorkPlan, ConfigError>(ConfigError::ZeroUnits),
            total > 0 && worker_count == 0 ==> r == Err::<WorkPlan, ConfigError>(
                ConfigError::ZeroWorkers,
            ),
            total > 0 && worker_count > 0 ==> (r matches Ok(p) && p.wf() && p.worker_count
                == worker_count && p.total_units() == total && p.base_chunk == total
                / worker_count as u64 && p.remainder == total % worker_count as u64),
    {
        match split_work(total, worker_count as u64) {
            Ok((base_chunk, remainder)) => Ok(WorkPlan { worker_count, base_chunk, remainder }),
            Err(e) => Err(e),
        }
    }

    /// The units of worker `index`: one more than the common part for the
    /// first `remainder` workers.
    pub fn chunk_size(&self, index: usize) -> (r: u64)
        requires
            self.wf(),
            index < self.worker_count,
        ensures
            r == self.chunk_of(index as int),
    {
        if (index as u64) < self.remainder {
            proof {
                assert(self.base_chunk * self.worker_count >= self.base_chunk) by (nonlinear_arith)
                    requires
                        self.worker_count >= 1,
                ;
            }
            self.base_chunk + 1
        } else {
            self.base_chunk
        }
    }

    /// The task of every worker, in worker order, seeded from `base_seed`.
    pub fn tasks(&self, base_seed: u64) -> (r: Vec<WorkerTask>)
        requires
            self.wf(),
        ensures
            r.len() == self.worker_count,
            forall|i: int|
                0 <= i < r.len() ==> (#[trigger] r@[i]).chunk == self.chunk_of(i) && r@[i].seed
                    == worker_seed(base_seed, i as nat),
    {
        let mut out: Vec<WorkerTask> = Vec::with_capacity(self.worker_count);
        let mut i: usize = 0;
        while i < self.worker_count
            invariant
                self.wf(),
                i <= self.worker_count,
                out.len() == i,
                forall|k: int|
                    0 <= k < i ==> (#[trigger] out@[k]).chunk == self.chunk_of(k) && out@[k].seed
                        == worker_seed(base_seed, k as nat),
            decreases self.worker_count - i,
        {
            let task = WorkerTask { chunk: self.chunk_size(i), seed: derive_seed(base_seed, i as u64) };
            out.push(task);
            i = i + 1;
        }
        out
    }

    /// The first `n` workers take `n * base_chunk` units plus one for each of
    /// them among the first `remainder`.
    pub proof fn lemma_chunks_before(&self, n: nat)
        ensures
            self.chunks_before(n) == n * self.base_chunk + if n < self.remainder {
                n as int
            } else {
                self.remainder as int
            },
        decreases n,
    {
        if n > 0 {
            let b = self.base_chunk as int;
            let k = (n - 1) as nat;
            self.lemma_chunks_before(k);
            assert(n * b == k * b + b) by (nonlinear_arith)
                requires
                    n == k + 1,
            ;
            assert(self.chunks_before(n) == self.chunks_before(k) + self.chunk_of(k as int));
        } else {
            assert(n * self.base_chunk == 0) by (nonlinear_arith)
                requires
                    n == 0,
            ;
        }
    }

    /// The partition is exact and balanced: the chunks of all workers add up
    /// to the plan's total, and no two chunks differ by more than one unit.
    pub proof fn lemma_partition_exact(&self)
        requires
            self.wf(),
        ensures
            self.chunks_before(self.worker_count as nat) == self.total_units(),
            forall|i: int, j: int|
                0 <= i < self.worker_count && 0 <= j < self.worker_count ==> #[trigger] self.chunk_of(i)
                    <= #[trigger] self.chunk_of(j) + 1,
    {
        self.lemma_chunks_before(self.worker_count as nat);
        assert(self.worker_count * self.base_chunk == self.base_chunk * self.worker_count)
            by (nonlinear_arith);
    }
}

/// Mixed into a clock reading to make a default base seed.
pub const CLOCK_SEED_MASK: u64 = 0xA5A5_5A5A_A5A5_5A5A;

/// The base seed used when the clock could not be read.
pub const FALLBACK_SEED: u64 = 0xDEAD_BEEF_DEAD_BEEF;

/// The default base seed for a clock reading in nanoseconds since the Unix
/// epoch: its low 64 bits mixed with `CLOCK_SEED_MASK`, or `FALLBACK_SEED`
/// without a reading, and made odd.
pub open spec fn clock_seed(clock_nanos: Option<u128>) -> u64 {
    match clock_nanos {
        Some(n) => (#[verifier::truncate] (n as u64) ^ CLOCK_SEED_MASK) | 1,
        None => FALLBACK_SEED | 1,
    }
}

/// Derives a default base seed from a clock reading.
pub fn random_seed(clock_nanos: Option<u128>) -> (r: u64)
    ensures
        r == clock_seed(clock_nanos),
        r % 2 == 1,
{
    let mixed = match clock_nanos {
        Some(n) => #[verifier::truncate] (n as u64) ^ CLOCK_SEED_MASK,
        None => FALLBACK_SEED,
    };
    let r = mixed | 1;
    assert(r % 2 == 1) by (bit_vector)
        requires
            r == mixed | 1,
    ;
    r
}

} // verus!
