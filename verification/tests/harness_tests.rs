use bigquery_lite_engine::harness::{
    benchmark_query, benchmark_schedule, dataset_batch_plan, BenchmarkConfig, BenchmarkError,
    BenchmarkQuery, ExecutionReport, PerformanceTier, QueryPerformance,
};

fn config_with(iterations: usize, time_limit_ms: u64, memory_limit_bytes: u64) -> BenchmarkConfig {
    BenchmarkConfig {
        iterations,
        dataset_sizes: vec![10_000],
        queries: vec![],
        memory_limit_bytes,
        time_limit_ms,
    }
}

fn query_with(tier: PerformanceTier, min_speedup_hundredths: u64) -> BenchmarkQuery {
    BenchmarkQuery {
        name: String::from("q"),
        sql: String::from("SELECT COUNT(*) FROM benchmark_data"),
        expected_tier: tier,
        min_speedup_hundredths,
    }
}

fn report(rows: usize, time_ms: u64, mem: u64) -> ExecutionReport {
    ExecutionReport {
        rows,
        execution_time_ms: time_ms,
        memory_used_bytes: mem,
    }
}

#[test]
fn test_all_iterations_succeed() {
    // Five iterations, all at 10 ms: full success rate, the declared Simple
    // multiplier of 5.00, and the limits met.
    let config = config_with(5, 100, 2 * 1024 * 1024 * 1024);
    let query = query_with(PerformanceTier::Simple, 500);
    let outcomes = vec![Some(report(1000, 10, 1024)); 5];
    let result = benchmark_query(&config, query, 10_000, &outcomes).unwrap();
    let m = result.performance_metrics;
    assert_eq!(m.successful_iterations, 5);
    assert_eq!(m.total_iterations, 5);
    assert_eq!(m.avg_speedup_hundredths, 500);
    assert_eq!(m.throughput_improvement_hundredths, 500);
    assert_eq!(m.memory_efficiency_hundredths, 100);
    assert!(m.meets_requirements);
    assert_eq!(result.dataset_size, 10_000);
    assert_eq!(result.blaze_results.len(), 5);
    assert!(result.baseline_results.is_none());
    assert_eq!(result.query.name, "q");
}

#[test]
fn test_partial_failures_reduce_success_rate() {
    // Two of five iterations fail: the success rate is exactly 3/5 and the
    // aggregates cover the three samples only.
    let config = config_with(5, 20, 2 * 1024 * 1024 * 1024);
    let query = query_with(PerformanceTier::Medium, 800);
    let outcomes = vec![
        Some(report(100, 10, 64)),
        None,
        Some(report(100, 20, 64)),
        None,
        Some(report(100, 30, 64)),
    ];
    let result = benchmark_query(&config, query, 10_000, &outcomes).unwrap();
    let m = result.performance_metrics;
    assert_eq!(m.successful_iterations, 3);
    assert_eq!(m.total_iterations, 5);
    assert_eq!(result.blaze_results.len(), 3);
    assert_eq!(result.blaze_results[1].execution_time_ms, 20);
    // The average time is (10 + 20 + 30) / 3 = 20 ms, within the 20 ms limit.
    assert!(m.meets_requirements);

    // One millisecond tighter and the same samples no longer pass.
    let config = config_with(5, 19, 2 * 1024 * 1024 * 1024);
    let query = query_with(PerformanceTier::Medium, 800);
    let result = benchmark_query(&config, query, 10_000, &outcomes).unwrap();
    assert!(!result.performance_metrics.meets_requirements);
}

#[test]
fn test_all_iterations_failed_is_fatal() {
    // Every iteration failed: no result with zero samples is produced; the
    // error names the query and the dataset size.
    let config = config_with(5, 100, 2 * 1024 * 1024 * 1024);
    let query = query_with(PerformanceTier::Simple, 500);
    let outcomes = vec![None; 5];
    let err = benchmark_query(&config, query, 100_000, &outcomes).unwrap_err();
    match err {
        BenchmarkError::AllIterationsFailed {
            query_name,
            dataset_size,
        } => {
            assert_eq!(query_name, "q");
            assert_eq!(dataset_size, 100_000);
        }
    }
}

#[test]
fn test_speedup_requirement() {
    // The synthesized speedup equals the tier multiplier, so a Simple query
    // demanding more than 5.00x cannot meet its requirement.
    let config = config_with(1, 100, 2 * 1024 * 1024 * 1024);
    let query = query_with(PerformanceTier::Simple, 501);
    let outcomes = vec![Some(report(10, 1, 1))];
    let result = benchmark_query(&config, query, 10_000, &outcomes).unwrap();
    assert!(!result.performance_metrics.meets_requirements);

    let config = config_with(1, 100, 2 * 1024 * 1024 * 1024);
    let query = query_with(PerformanceTier::Complex, 1200);
    let result = benchmark_query(&config, query, 10_000, &outcomes).unwrap();
    assert_eq!(result.performance_metrics.avg_speedup_hundredths, 1200);
    assert!(result.performance_metrics.meets_requirements);
}

#[test]
fn test_memory_limit_judged_on_average() {
    let config = config_with(2, 100, 50);
    let query = query_with(PerformanceTier::Simple, 500);
    // Average memory (40 + 60) / 2 = 50 is within the limit.
    let outcomes = vec![Some(report(10, 1, 40)), Some(report(10, 1, 60))];
    let result = benchmark_query(&config, query, 10_000, &outcomes).unwrap();
    assert!(result.performance_metrics.meets_requirements);

    let config = config_with(2, 100, 49);
    let query = query_with(PerformanceTier::Simple, 500);
    let result = benchmark_query(&config, query, 10_000, &outcomes).unwrap();
    assert!(!result.performance_metrics.meets_requirements);
}

#[test]
fn test_sample_derived_rates() {
    let sample = QueryPerformance::from_execution(&report(1000, 10, 1024));
    assert_eq!(sample.rows_processed, 1000);
    assert_eq!(sample.execution_time_ms, 10);
    assert_eq!(sample.memory_used_bytes, 1024);
    // 1000 rows in 10 ms: 100000 rows per second.
    assert_eq!(sample.rows_per_second, 100_000);
    // 1000 rows in 1024 bytes: 1024000 rows per mebibyte.
    assert_eq!(sample.rows_per_mb, 1_024_000);
}

#[test]
fn test_sample_zero_denominators() {
    let sample = QueryPerformance::from_execution(&report(1000, 0, 0));
    assert_eq!(sample.rows_per_second, 0);
    assert_eq!(sample.rows_per_mb, 0);
}

#[test]
fn test_default_config() {
    let config = BenchmarkConfig::default();
    assert_eq!(config.iterations, 5);
    assert_eq!(config.dataset_sizes, vec![10_000, 100_000, 1_000_000]);
    assert_eq!(config.memory_limit_bytes, 2 * 1024 * 1024 * 1024);
    assert_eq!(config.time_limit_ms, 100);
    assert_eq!(config.queries.len(), 3);
    assert_eq!(config.queries[0].name, "simple_aggregation");
    assert_eq!(config.queries[0].sql, "SELECT COUNT(*) FROM benchmark_data");
    assert_eq!(config.queries[0].expected_tier, PerformanceTier::Simple);
    assert_eq!(config.queries[0].min_speedup_hundredths, 500);
    assert_eq!(config.queries[1].name, "group_by_aggregation");
    assert_eq!(config.queries[1].expected_tier, PerformanceTier::Medium);
    assert_eq!(config.queries[1].min_speedup_hundredths, 800);
    assert_eq!(config.queries[2].name, "complex_analytics");
    assert_eq!(config.queries[2].expected_tier, PerformanceTier::Complex);
    assert_eq!(config.queries[2].min_speedup_hundredths, 1000);
}

#[test]
fn test_tier_multipliers() {
    assert_eq!(PerformanceTier::Simple.multiplier_hundredths(), 500);
    assert_eq!(PerformanceTier::Medium.multiplier_hundredths(), 800);
    assert_eq!(PerformanceTier::Complex.multiplier_hundredths(), 1200);
}

#[test]
fn test_benchmark_schedule_order() {
    // Dataset-size-major, query-minor.
    let config = BenchmarkConfig {
        iterations: 1,
        dataset_sizes: vec![10, 20],
        queries: vec![
            query_with(PerformanceTier::Simple, 500),
            query_with(PerformanceTier::Medium, 800),
            query_with(PerformanceTier::Complex, 1000),
        ],
        memory_limit_bytes: 1,
        time_limit_ms: 1,
    };
    let schedule = benchmark_schedule(&config);
    assert_eq!(
        schedule,
        vec![(0, 0), (0, 1), (0, 2), (1, 0), (1, 1), (1, 2)]
    );
}

#[test]
fn test_dataset_batch_plan() {
    assert_eq!(dataset_batch_plan(0), vec![]);
    assert_eq!(dataset_batch_plan(10_000), vec![(0, 10_000)]);
    assert_eq!(
        dataset_batch_plan(25_000),
        vec![(0, 10_000), (10_000, 10_000), (20_000, 5_000)]
    );
    assert_eq!(dataset_batch_plan(1), vec![(0, 1)]);
}
