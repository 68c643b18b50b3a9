//! The benchmark harness core.
//!
//! The execution collaborator — the engine that registers tables and runs
//! SQL — is outside this crate.  The harness core takes the plain
//! measurements that the collaborator reports for each iteration, builds
//! performance samples, aggregates them into metrics, and judges them
//! against the declared limits.  Rates are carried exactly rather than in
//! floating point: speedups in hundredths, the success rate as its numerator
//! and denominator.

use vstd::prelude::*;

use vstd::string::StringExecFns;

verus! {

/// The performance tier a benchmark query is expected to fall in.
#[derive(Debug, Clone, Copy, PartialEq, Eq, Structural)]
pub enum PerformanceTier {
    Simple,
    Medium,
    Complex,
}

/// The declared baseline multiplier of a tier, in hundredths: the harness
/// synthesizes the baseline as the measured time times this factor.
pub open spec fn spec_multiplier_hundredths(t: PerformanceTier) -> u64 {
    match t {
        PerformanceTier::Simple => 500,
        PerformanceTier::Medium => 800,
        PerformanceTier::Complex => 1200,
    }
}

impl PerformanceTier {
    /// The declared baseline multiplier of this tier, in hundredths.
    pub fn multiplier_hundredths(&self) -> (r: u64)
        ensures
            r == spec_multiplier_hundredths(*self),
    {
        match self {
            PerformanceTier::Simple => 500,
            PerformanceTier::Medium => 800,
            PerformanceTier::Complex => 1200,
        }
    }
}

/// What the execution collaborator reports for one successful execution.
#[derive(Debug, Clone, Copy, PartialEq, Eq, Structural)]
pub struct ExecutionReport {
    /// Number of rows the query processed.
    pub rows: usize,
    /// Execution time in milliseconds.
    pub execution_time_ms: u64,
    /// Memory used during execution, in bytes.
    pub memory_used_bytes: u64,
}

/// One performance sample: the collaborator's measurements plus the derived
/// throughput and memory-density rates, each 0 when its denominator is 0 and
/// saturating at `u64::MAX`.
#[derive(Debug, Clone, Copy, PartialEq, Eq, Structural)]
pub struct QueryPerformance {
    /// Execution time in milliseconds.
    pub execution_time_ms: u64,
    /// Memory used in bytes.
    pub memory_used_bytes: u64,
    /// Number of rows processed.
    pub rows_processed: usize,
    /// Throughput in rows per second.
    pub rows_per_second: u64,
    /// Memory density in rows per mebibyte.
    pub rows_per_mb: u64,
}

/// Rows per second: `rows * 1000 / ms`, 0 when `ms` is 0, capped at
/// `u64::MAX`.
pub open spec fn spec_rows_per_second(rows: int, ms: int) -> int {
    if ms <= 0 {
        0
    } else {
        let x = rows * 1000 / ms;
        if x > u64::MAX {
            u64::MAX as int
        } else {
            x
        }
    }
}

/// Rows per mebibyte: `rows * 1048576 / bytes`, 0 when `bytes` is 0, capped
/// at `u64::MAX`.
pub open spec fn spec_rows_per_mb(rows: int, bytes: int) -> int {
    if bytes <= 0 {
        0
    } else {
        let x = rows * 1048576 / bytes;
        if x > u64::MAX {
            u64::MAX as int
        } else {
            x
        }
    }
}

/// The sample derived from one execution report.
pub open spec fn spec_sample(e: ExecutionReport) -> QueryPerformance {
    QueryPerformance {
        execution_time_ms: e.execution_time_ms,
        memory_used_bytes: e.memory_used_bytes,
        rows_processed: e.rows,
        rows_per_second: spec_rows_per_second(e.rows as int, e.execution_time_ms as int) as u64,
        rows_per_mb: spec_rows_per_mb(e.rows as int, e.memory_used_bytes as int) as u64,
    }
}

impl QueryPerformance {
    /// The sample for one successful execution, with its derived rates.
    pub fn from_execution(e: &ExecutionReport) -> (r: QueryPerformance)
        ensures
            r == spec_sample(*e),
    {
        let rows_per_second: u64 = if e.execution_time_ms > 0 {
            let x: u128 = (e.rows as u128) * 1000 / (e.execution_time_ms as u128);
            if x > u64::MAX as u128 {
                u64::MAX
            } else {
                x as u64
            }
        } else {
            0
        };
        let rows_per_mb: u64 = if e.memory_used_bytes > 0 {
            let x: u128 = (e.rows as u128) * 1048576 / (e.memory_used_bytes as u128);
            if x > u64::MAX as u128 {
                u64::MAX
            } else {
                x as u64
            }
        } else {
            0
        };
        QueryPerformance {
            execution_time_ms: e.execution_time_ms,
            memory_used_bytes: e.memory_used_bytes,
            rows_processed: e.rows,
            rows_per_second,
            rows_per_mb,
        }
    }
}

/// One labeled benchmark query.
#[derive(Debug, Clone)]
pub struct BenchmarkQuery {
    /// Query name for identification.
    pub name: String,
    /// SQL query text.
    pub sql: String,
    /// Expected performance tier.
    pub expected_tier: PerformanceTier,
    /// Minimum expected speedup over the declared baseline, in hundredths.
    pub min_speedup_hundredths: u64,
}

/// The configuration of one benchmark run.
#[derive(Debug, Clone)]
pub struct BenchmarkConfig {
    /// Number of iterations per query.
    pub iterations: usize,
    /// Dataset sizes to test, in rows.
    pub dataset_sizes: Vec<usize>,
    /// Queries to benchmark.
    pub queries: Vec<BenchmarkQuery>,
    /// Maximum allowed average memory usage, in bytes.
    pub memory_limit_bytes: u64,
    /// Maximum allowed average execution time, in milliseconds.
    pub time_limit_ms: u64,
}

/// Aggregated metrics for one (query, dataset size) pair.  The success rate
/// is `successful_iterations / total_iterations`, carried exactly.
#[derive(Debug, Clone, Copy, PartialEq, Eq, Structural)]
pub struct PerformanceMetrics {
    /// Average speedup over the declared baseline, in hundredths; by
    /// construction, exactly the tier's declared multiplier.
    pub avg_speedup_hundredths: u64,
    /// Memory efficiency improvement, in hundredths (a placeholder of 1.00).
    pub memory_efficiency_hundredths: u64,
    /// Throughput improvement, in hundredths; equal to the average speedup.
    pub throughput_improvement_hundredths: u64,
    /// Number of iterations that produced a sample.
    pub successful_iterations: u64,
    /// Number of iterations attempted.
    pub total_iterations: u64,
    /// Whether the aggregated run meets the declared limits.
    pub meets_requirements: bool,
}

/// The result of benchmarking one query at one dataset size.
#[derive(Debug, Clone)]
pub struct BenchmarkResult {
    /// The query that was benchmarked.
    pub query: BenchmarkQuery,
    /// The dataset size used, in rows.
    pub dataset_size: usize,
    /// The samples of the successful iterations, in order.
    pub blaze_results: Vec<QueryPerformance>,
    /// Baseline samples; none are measured under the declared-baseline
    /// design.
    pub baseline_results: Option<Vec<QueryPerformance>>,
    /// The aggregated metrics.
    pub performance_metrics: PerformanceMetrics,
}

/// The harness's fatal error: every iteration of one query at one dataset
/// size failed, so no sample exists to aggregate.
#[derive(Debug, Clone)]
pub enum BenchmarkError {
    AllIterationsFailed { query_name: String, dataset_size: usize },
}

/// The sum of the execution times of a sample sequence.
pub open spec fn sum_exec_time(s: Seq<QueryPerformance>) -> int
    decreases s.len(),
{
    if s.len() == 0 {
        0
    } else {
        sum_exec_time(s.drop_last()) + s.last().execution_time_ms
    }
}

/// The sum of the memory use of a sample sequence.
pub open spec fn sum_memory(s: Seq<QueryPerformance>) -> int
    decreases s.len(),
{
    if s.len() == 0 {
        0
    } else {
        sum_memory(s.drop_last()) + s.last().memory_used_bytes
    }
}

/// The samples of the successful iterations, in order.
pub open spec fn spec_samples(outcomes: Seq<Option<ExecutionReport>>) -> Seq<QueryPerformance>
    decreases outcomes.len(),
{
    if outcomes.len() == 0 {
        Seq::empty()
    } else {
        spec_samples(outcomes.drop_last()) + match outcomes.last() {
            Some(e) => seq![spec_sample(e)],
            None => Seq::empty(),
        }
    }
}

/// There are never more samples than iterations.
pub proof fn lemma_spec_samples_len(outcomes: Seq<Option<ExecutionReport>>)
    ensures
        spec_samples(outcomes).len() <= outcomes.len(),
    decreases outcomes.len(),
{
    if outcomes.len() > 0 {
        lemma_spec_samples_len(outcomes.drop_last());
    }
}

/// No sample exists exactly when every iteration failed.
pub proof fn lemma_spec_samples_empty(outcomes: Seq<Option<ExecutionReport>>)
    ensures
        (spec_samples(outcomes).len() == 0) <==> (forall|k: int|
            0 <= k < outcomes.len() ==> outcomes[k] is None),
    decreases outcomes.len(),
{
    if outcomes.len() > 0 {
        lemma_spec_samples_empty(outcomes.drop_last());
        assert(forall|k: int|
            0 <= k < outcomes.len() - 1 ==> outcomes.drop_last()[k] == outcomes[k]);
    }
}

/// Whether averaged samples meet the declared limits: the average time and
/// memory are within the ceilings (compared exactly as sums against
/// limit times count), and the tier's declared multiplier reaches the
/// query's minimum speedup.
pub open spec fn spec_meets_requirements(
    samples: Seq<QueryPerformance>,
    tier: PerformanceTier,
    min_speedup_hundredths: u64,
    time_limit_ms: u64,
    memory_limit_bytes: u64,
) -> bool {
    &&& sum_exec_time(samples) <= time_limit_ms * samples.len()
    &&& sum_memory(samples) <= memory_limit_bytes * samples.len()
    &&& spec_multiplier_hundredths(tier) >= min_speedup_hundredths
}

/// The metrics aggregated from the samples of one (query, dataset size)
/// pair.
pub open spec fn spec_metrics(
    samples: Seq<QueryPerformance>,
    iterations: int,
    tier: PerformanceTier,
    min_speedup_hundredths: u64,
    time_limit_ms: u64,
    memory_limit_bytes: u64,
) -> PerformanceMetrics {
    PerformanceMetrics {
        avg_speedup_hundredths: spec_multiplier_hundredths(tier),
        memory_efficiency_hundredths: 100,
        throughput_improvement_hundredths: spec_multiplier_hundredths(tier),
        successful_iterations: samples.len() as u64,
        total_iterations: iterations as u64,
        meets_requirements: spec_meets_requirements(
            samples,
            tier,
            min_speedup_hundredths,
            time_limit_ms,
            memory_limit_bytes,
        ),
    }
}

/// The sums stay within `count * u64::MAX`.
proof fn lemma_sum_bounds(s: Seq<QueryPerformance>)
    ensures
        0 <= sum_exec_time(s) <= s.len() * (u64::MAX as int),
        0 <= sum_memory(s) <= s.len() * (u64::MAX as int),
    decreases s.len(),
{
    if s.len() == 0 {
    } else {
        lemma_sum_bounds(s.drop_last());
        assert(s.len() * (u64::MAX as int) == (s.len() - 1) * (u64::MAX as int) + u64::MAX)
            by (nonlinear_arith);
    }
}

/// The aggregated metrics over the collected samples: the declared speedup
/// of the expected tier, the exact success rate, and the limit judgment.
pub fn calculate_performance_metrics(
    samples: &Vec<QueryPerformance>,
    query: &BenchmarkQuery,
    iterations: usize,
    time_limit_ms: u64,
    memory_limit_bytes: u64,
) -> (r: PerformanceMetrics)
    requires
        samples@.len() >= 1,
        samples@.len() <= iterations,
    ensures
        r == spec_metrics(
            samples@,
            iterations as int,
            query.expected_tier,
            query.min_speedup_hundredths,
            time_limit_ms,
            memory_limit_bytes,
        ),
{
    let n = samples.len();
    let mut sum_time: u128 = 0;
    let mut sum_mem: u128 = 0;
    let mut i: usize = 0;
    proof {
        assert(samples@.take(0) =~= Seq::<QueryPerformance>::empty());
    }
    while i < n
        invariant
            n == samples@.len(),
            i <= n,
            sum_time == sum_exec_time(samples@.take(i as int)),
            sum_mem == sum_memory(samples@.take(i as int)),
        decreases n - i,
    {
        proof {
            lemma_sum_bounds(samples@.take(i as int));
            assert(samples@.take(i as int).len() * (u64::MAX as int) <= (n - 1) * (u64::MAX as int))
                by (nonlinear_arith)
                requires
                    samples@.take(i as int).len() <= n - 1,
            ;
            assert((n - 1) * (u64::MAX as int) + u64::MAX <= u128::MAX) by (nonlinear_arith)
                requires
                    n <= usize::MAX,
            ;
            assert(samples@.take(i as int + 1).drop_last() =~= samples@.take(i as int));
        }
        let s = samples[i];
        sum_time = sum_time + s.execution_time_ms as u128;
        sum_mem = sum_mem + s.memory_used_bytes as u128;
        i = i + 1;
    }
    proof {
        assert(samples@.take(n as int) =~= samples@);
    }
    let multiplier = query.expected_tier.multiplier_hundredths();
    proof {
        assert((time_limit_ms as u128) * (n as u128) <= u128::MAX) by (nonlinear_arith)
            requires
                time_limit_ms <= u64::MAX,
                n <= usize::MAX,
        ;
        assert((memory_limit_bytes as u128) * (n as u128) <= u128::MAX) by (nonlinear_arith)
            requires
                memory_limit_bytes <= u64::MAX,
                n <= usize::MAX,
        ;
    }
    let meets_time = sum_time <= (time_limit_ms as u128) * (n as u128);
    let meets_memory = sum_mem <= (memory_limit_bytes as u128) * (n as u128);
    let meets_speedup = multiplier >= query.min_speedup_hundredths;
    PerformanceMetrics {
        avg_speedup_hundredths: multiplier,
        memory_efficiency_hundredths: 100,
        throughput_improvement_hundredths: multiplier,
        successful_iterations: n as u64,
        total_iterations: iterations as u64,
        meets_requirements: meets_time && meets_memory && meets_speedup,
    }
}

/// One query benchmarked at one dataset size: the samples of the successful
/// iterations are aggregated into metrics; when every iteration failed, the
/// fatal `AllIterationsFailed` error names the query and the dataset size.
pub fn benchmark_query(
    config: &BenchmarkConfig,
    query: BenchmarkQuery,
    dataset_size: usize,
    outcomes: &Vec<Option<ExecutionReport>>,
) -> (r: Result<BenchmarkResult, BenchmarkError>)
    requires
        outcomes@.len() == config.iterations,
        config.iterations >= 1,
    ensures
        (r is Err) <==> (forall|k: int| 0 <= k < outcomes@.len() ==> outcomes@[k] is None),
        r is Err ==> r->Err_0 == (BenchmarkError::AllIterationsFailed {
            query_name: query.name,
            dataset_size,
        }),
        r is Ok ==> r->Ok_0.query == query && r->Ok_0.dataset_size == dataset_size
            && r->Ok_0.blaze_results@ == spec_samples(outcomes@) && r->Ok_0.baseline_results is None
            && r->Ok_0.performance_metrics == spec_metrics(
            spec_samples(outcomes@),
            config.iterations as int,
            query.expected_tier,
            query.min_speedup_hundredths,
            config.time_limit_ms,
            config.memory_limit_bytes,
        ),
{
    let n = outcomes.len();
    let mut samples: Vec<QueryPerformance> = Vec::new();
    let mut i: usize = 0;
    proof {
        assert(outcomes@.take(0) =~= Seq::<Option<ExecutionReport>>::empty());
    }
    while i < n
        invariant
            n == outcomes@.len(),
            i <= n,
            samples@ == spec_samples(outcomes@.take(i as int)),
        decreases n - i,
    {
        proof {
            assert(outcomes@.take(i as int + 1).drop_last() =~= outcomes@.take(i as int));
        }
        match outcomes[i] {
            Some(e) => {
                samples.push(QueryPerformance::from_execution(&e));
            },
            None => {},
        }
        i = i + 1;
    }
    proof {
        assert(outcomes@.take(n as int) =~= outcomes@);
        lemma_spec_samples_len(outcomes@);
        lemma_spec_samples_empty(outcomes@);
    }
    if samples.len() == 0 {
        return Err(
            BenchmarkError::AllIterationsFailed { query_name: query.name, dataset_size },
        );
    }
    let performance_metrics = calculate_performance_metrics(
        &samples,
        &query,
        config.iterations,
        config.time_limit_ms,
        config.memory_limit_bytes,
    );
    Ok(
        BenchmarkResult {
            query,
            dataset_size,
            blaze_results: samples,
            baseline_results: None,
            performance_metrics,
        },
    )
}

/// The run order of a benchmark suite: one (dataset-size index, query index)
/// pair per benchmark, dataset-size-major and query-minor.
pub fn benchmark_schedule(config: &BenchmarkConfig) -> (r: Vec<(usize, usize)>)
    requires
        config.dataset_sizes@.len() * config.queries@.len() <= usize::MAX,
    ensures
        r@.len() == config.dataset_sizes@.len() * config.queries@.len(),
        forall|k: int|
            0 <= k < r@.len() ==> (#[trigger] r@[k]).0 == k / config.queries@.len() as int
                && r@[k].1 == k % config.queries@.len() as int,
{
    let nd = config.dataset_sizes.len();
    let nq = config.queries.len();
    let mut r: Vec<(usize, usize)> = Vec::new();
    let mut d: usize = 0;
    while d < nd
        invariant
            nd == config.dataset_sizes@.len(),
            nq == config.queries@.len(),
            nd * nq <= usize::MAX,
            d <= nd,
            r@.len() == d * nq,
            forall|k: int|
                0 <= k < r@.len() ==> (#[trigger] r@[k]).0 == k / nq as int && r@[k].1 == k % nq
                    as int,
        decreases nd - d,
    {
        let mut q: usize = 0;
        proof {
            assert((d + 1) * nq == d * nq + nq) by (nonlinear_arith);
            assert(d * nq + nq <= nd * nq) by (nonlinear_arith)
                requires
                    d + 1 <= nd,
                    nq >= 0,
            ;
        }
        while q < nq
            invariant
                nd == config.dataset_sizes@.len(),
                nq == config.queries@.len(),
                nd * nq <= usize::MAX,
                d < nd,
                q <= nq,
                d * nq + nq <= nd * nq,
                r@.len() == d * nq + q,
                forall|k: int|
                    0 <= k < r@.len() ==> (#[trigger] r@[k]).0 == k / nq as int && r@[k].1 == k % nq
                        as int,
            decreases nq - q,
        {
            r.push((d, q));
            proof {
                let k = r@.len() - 1;
                assert(k == d * nq + q);
                assert(k / nq as int == d && k % nq as int == q) by (nonlinear_arith)
                    requires
                        k == d * nq + q,
                        0 <= q < nq,
                        0 <= d,
                ;
            }
            q = q + 1;
        }
        d = d + 1;
    }
    r
}

/// The batches a dataset of `size` rows is prepared in: (start, length)
/// pairs of at most 10000 rows each, covering the rows in order.
pub fn dataset_batch_plan(size: usize) -> (r: Vec<(usize, usize)>)
    ensures
        r@.len() == size / 10000 + if size % 10000 == 0 {
            0int
        } else {
            1int
        },
        forall|k: int|
            0 <= k < r@.len() ==> (#[trigger] r@[k]).0 == k * 10000 && r@[k].1 == if size - k * 10000
                < 10000 {
                size - k * 10000
            } else {
                10000int
            },
{
    let mut r: Vec<(usize, usize)> = Vec::new();
    let mut start: usize = 0;
    while start < size
        invariant
            start <= size,
            start == if r@.len() * 10000 <= size {
                r@.len() * 10000int
            } else {
                size as int
            },
            r@.len() == 0 || (r@.len() - 1) * 10000 < size,
            forall|k: int|
                0 <= k < r@.len() ==> (#[trigger] r@[k]).0 == k * 10000 && r@[k].1 == if size - k
                    * 10000 < 10000 {
                    size - k * 10000
                } else {
                    10000int
                },
        decreases size - start,
    {
        proof {
            assert(start == r@.len() * 10000);
        }
        let len = if size - start < 10000 {
            size - start
        } else {
            10000
        };
        r.push((start, len));
        proof {
            let k = r@.len() - 1;
            assert(k * 10000 == start);
            assert((k + 1) * 10000 == k * 10000 + 10000) by (nonlinear_arith);
        }
        start = start + len;
    }
    proof {
        let k = r@.len() as int;
        if k == 0 {
            assert(size == 0);
        } else {
            assert(k * 10000 >= size);
            assert((k - 1) * 10000 < size);
            assert(k == size / 10000 + if size % 10000 == 0 {
                0int
            } else {
                1int
            }) by (nonlinear_arith)
                requires
                    k * 10000 >= size,
                    (k - 1) * 10000 < size,
                    0 < size,
            ;
        }
    }
    r
}

impl Default for BenchmarkConfig {
    /// The default workload: five iterations over three dataset sizes and
    /// three labeled queries, a 2 GiB memory ceiling and a 100 ms time
    /// ceiling.
    fn default() -> (r: BenchmarkConfig)
        ensures
            r.iterations == 5,
            r.dataset_sizes@ == seq![10000usize, 100000usize, 1000000usize],
            r.memory_limit_bytes == 2147483648u64,
            r.time_limit_ms == 100u64,
            r.queries@.len() == 3,
            r.queries@[0].name@ == "simple_aggregation"@,
            r.queries@[0].sql@ == "SELECT COUNT(*) FROM benchmark_data"@,
            r.queries@[0].expected_tier == PerformanceTier::Simple,
            r.queries@[0].min_speedup_hundredths == 500,
            r.queries@[1].name@ == "group_by_aggregation"@,
            r.queries@[1].sql@
                == "SELECT category, COUNT(*), AVG(value) FROM benchmark_data GROUP BY category"@,
            r.queries@[1].expected_tier == PerformanceTier::Medium,
            r.queries@[1].min_speedup_hundredths == 800,
            r.queries@[2].name@ == "complex_analytics"@,
            r.queries@[2].sql@
                == "SELECT category, SUM(amount), AVG(value), COUNT(*) FROM benchmark_data WHERE flag = true GROUP BY category ORDER BY SUM(amount) DESC"@,
            r.queries@[2].expected_tier == PerformanceTier::Complex,
            r.queries@[2].min_speedup_hundredths == 1000,
    {
        let mut dataset_sizes: Vec<usize> = Vec::new();
        dataset_sizes.push(10000);
        dataset_sizes.push(100000);
        dataset_sizes.push(1000000);
        proof {
            assert(dataset_sizes@ =~= seq![10000usize, 100000usize, 1000000usize]);
        }
        let mut queries: Vec<BenchmarkQuery> = Vec::new();
        queries.push(
            BenchmarkQuery {
                name: String::from_str("simple_aggregation"),
                sql: String::from_str("SELECT COUNT(*) FROM benchmark_data"),
                expected_tier: PerformanceTier::Simple,
                min_speedup_hundredths: 500,
            },
        );
        queries.push(
            BenchmarkQuery {
                name: String::from_str("group_by_aggregation"),
                sql: String::from_str(
                    "SELECT category, COUNT(*), AVG(value) FROM benchmark_data GROUP BY category",
                ),
                expected_tier: PerformanceTier::Medium,
                min_speedup_hundredths: 800,
            },
        );
        queries.push(
            BenchmarkQuery {
                name: String::from_str("complex_analytics"),
                sql: String::from_str(
                    "SELECT category, SUM(amount), AVG(value), COUNT(*) FROM benchmark_data WHERE flag = true GROUP BY category ORDER BY SUM(amount) DESC",
                ),
                expected_tier: PerformanceTier::Complex,
                min_speedup_hundredths: 1000,
            },
        );
        BenchmarkConfig {
            iterations: 5,
            dataset_sizes,
            queries,
            memory_limit_bytes: 2147483648,
            time_limit_ms: 100,
        }
    }
}

} // verus!
